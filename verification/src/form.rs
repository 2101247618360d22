//! The state of the request form, apart from its widgets.
use vstd::prelude::*;

verus! {

/// What the form shows and allows.
pub struct FormState {
    /// The form can be edited: no request is running.
    pub sensitive: bool,
    /// The button that starts a request is shown.
    pub show_button: bool,
    /// A PDF document is wanted.
    pub pdf_toggled: bool,
    /// PNG pictures are wanted.
    pub png_toggled: bool,
}

impl FormState {
    /// A form that can be edited, with no output format chosen.
    pub fn new() -> (f: FormState)
        ensures
            f.sensitive,
            !f.show_button,
            !f.pdf_toggled,
            !f.png_toggled,
    {
        FormState { sensitive: true, show_button: false, pdf_toggled: false, png_toggled: false }
    }

    /// Switches the PDF output on or off.
    pub fn toggle_pdf(&mut self)
        ensures
            final(self).pdf_toggled == !old(self).pdf_toggled,
            final(self).png_toggled == old(self).png_toggled,
            final(self).sensitive == old(self).sensitive,
            final(self).show_button == old(self).show_button,
    {
        self.pdf_toggled = !self.pdf_toggled;
    }

    /// Switches the PNG output on or off.
    pub fn toggle_png(&mut self)
        ensures
            final(self).png_toggled == !old(self).png_toggled,
            final(self).pdf_toggled == old(self).pdf_toggled,
            final(self).sensitive == old(self).sensitive,
            final(self).show_button == old(self).show_button,
    {
        self.png_toggled = !self.png_toggled;
    }

    /// Shows the start button exactly when some kanji are entered and an
    /// output format is chosen.
    pub fn recheck(&mut self, kanji_count: usize)
        ensures
            final(self).show_button == (kanji_count > 0 && (old(self).png_toggled || old(self).pdf_toggled)),
            final(self).png_toggled == old(self).png_toggled,
            final(self).pdf_toggled == old(self).pdf_toggled,
            final(self).sensitive == old(self).sensitive,
    {
        self.show_button = kanji_count > 0 && (self.png_toggled || self.pdf_toggled);
    }

    /// A request starts: the form cannot be edited until it ends.
    pub fn start(&mut self)
        ensures
            !final(self).sensitive,
            final(self).show_button == old(self).show_button,
            final(self).png_toggled == old(self).png_toggled,
            final(self).pdf_toggled == old(self).pdf_toggled,
    {
        self.sensitive = false;
    }

    /// The request ended: the form can be edited again.
    pub fn end(&mut self)
        ensures
            final(self).sensitive,
            final(self).show_button == old(self).show_button,
            final(self).png_toggled == old(self).png_toggled,
            final(self).pdf_toggled == old(self).pdf_toggled,
    {
        self.sensitive = true;
    }
}

} // verus!
