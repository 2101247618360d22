//! The pages of a sheet and the drawing cursor that moves over them.
use vstd::prelude::*;

use crate::layout::advance;
use crate::layout::apply_stamps;
use crate::layout::blank_pages;
use crate::layout::copies;
use crate::layout::cursor_ok;
use crate::layout::feed_lines;
use crate::layout::lemma_advance_one_more;
use crate::layout::lemma_apply_stamps_concat;
use crate::layout::lemma_apply_stamps_extend;
use crate::layout::lemma_apply_stamps_len;
use crate::layout::lemma_feed_one_more;
use crate::layout::lemma_moves_keep_cursor_ok;
use crate::layout::line_feed;
use crate::layout::line_stamps;
use crate::layout::overflow_of;
use crate::layout::pitch;
use crate::layout::plain_stamps;
use crate::layout::right_edge;
use crate::layout::sheet_start;
use crate::layout::square_stamps;
use crate::layout::squares_left_in_line;
use crate::layout::squares_stamps;
use crate::layout::stamps_within;
use crate::layout::step;
use crate::layout::Cursor;
use crate::layout::Stamp;
use crate::raster::decoded_png;
use crate::raster::overlay_at;
use crate::raster::picture_ok;
use crate::raster::raw_picture;
use crate::raster::Picture;
use crate::raster::PictureView;
use crate::KanjiToPngErrors;

verus! {

/// What the next move of the cursor changes besides its column.
#[derive(PartialEq, Eq, Structural, Debug)]
pub enum Overflow {
    Unchanged,
    ChangedLine,
    ChangedPage,
}

/// The background of a full line of squares.
pub enum BgType {
    Blank,
    Grid,
}

/// A stack of pages and the cursor that squares are drawn at.
pub struct Pages {
    x: u32,
    y: u32,
    layer: usize,
    imgs: Vec<Picture>,
    blank_line: Picture,
    blank_sheet: Picture,
    grid: Picture,
    grid_line: Picture,
}

/// The picture of a PNG file that decodes.
pub open spec fn png_picture(bytes: Seq<u8>) -> PictureView {
    let (w, h, p) = decoded_png(bytes).unwrap();
    PictureView { width: w as int, height: h as int, pixels: p }
}

/// A transparent picture of the given size.
pub open spec fn transparent_picture(width: int, height: int) -> PictureView {
    PictureView { width, height, pixels: Seq::new((4 * width * height) as nat, |i: int| 0u8) }
}

/// A strip as wide as a page with `n` copies of the square `bg` side by
/// side along its top.
pub open spec fn line_strip(bg: PictureView, n: nat) -> PictureView
    decreases n,
{
    if n == 0 {
        transparent_picture(Pages::WIDTH as int, Pages::VIEWBOX_U + 30)
    } else {
        overlay_at(line_strip(bg, (n - 1) as nat), bg, Pages::CELL * (n - 1), 0)
    }
}

impl Pages {
    pub const WIDTH: u32 = 1_303;
    pub const HEIGHT: u32 = 1_887;
    pub const X_OFFSET: u32 = 60;
    pub const Y_OFFSET: u32 = 60;
    pub const VIEWBOX_U: u32 = 109;
    pub const N_SQUARE_PER_PAGE: u32 = 165;
    pub const N_SQUARE_PER_LINE: u32 = 10;
    /// The distance between the corners of neighbouring squares.
    pub const CELL: u32 = 114;

    /// Where the cursor is.
    pub closed spec fn cursor(&self) -> Cursor {
        Cursor { x: self.x as int, y: self.y as int, layer: self.layer as int }
    }

    /// The pages drawn so far, first page first.
    pub closed spec fn pages(&self) -> Seq<PictureView> {
        self.imgs@.map_values(|p: Picture| p@)
    }

    /// The picture of an empty page.
    pub closed spec fn blank_sheet(&self) -> PictureView {
        self.blank_sheet@
    }

    /// The dotted square drawn under each kanji.
    pub closed spec fn grid(&self) -> PictureView {
        self.grid@
    }

    /// A full line of dotted squares.
    pub closed spec fn grid_line(&self) -> PictureView {
        self.grid_line@
    }

    /// A full line of empty squares.
    pub closed spec fn blank_line(&self) -> PictureView {
        self.blank_line@
    }

    /// The line picture of a background.
    pub open spec fn line_of(&self, bg: BgType) -> PictureView {
        match bg {
            BgType::Grid => self.grid_line(),
            BgType::Blank => self.blank_line(),
        }
    }

    /// The cursor is on a square of the printable area, and on an existing
    /// page or just after the last one; every picture has its pixels.
    pub open spec fn wf(&self) -> bool {
        &&& cursor_ok(self.cursor())
        &&& self.cursor().layer <= self.pages().len()
        &&& forall|i: int| 0 <= i < self.pages().len() ==> picture_ok(#[trigger] self.pages()[i])
        &&& picture_ok(self.blank_sheet())
        &&& picture_ok(self.grid())
        &&& picture_ok(self.grid_line())
        &&& picture_ok(self.blank_line())
    }

    /// The cursor is on an existing page, so that it can be drawn on.
    pub open spec fn ready(&self) -> bool {
        self.cursor().layer < self.pages().len()
    }

    /// Both hold the same pictures to draw with.
    pub open spec fn same_pictures(&self, other: &Pages) -> bool {
        &&& self.blank_sheet() == other.blank_sheet()
        &&& self.grid() == other.grid()
        &&& self.grid_line() == other.grid_line()
        &&& self.blank_line() == other.blank_line()
    }

    /// `self` came from `old` by adding one empty page for each page the
    /// cursor moved forward and blending `stamps` onto the pages, in order.
    pub open spec fn drew(&self, old: &Pages, stamps: Seq<Stamp>) -> bool {
        &&& self.same_pictures(old)
        &&& old.cursor().layer <= self.cursor().layer
        &&& self.pages().len() == old.pages().len() + (self.cursor().layer - old.cursor().layer)
        &&& stamps_within(stamps, self.pages().len() as int)
        &&& self.pages() == apply_stamps(
            old.pages() + blank_pages(old.blank_sheet(), (self.cursor().layer - old.cursor().layer) as nat),
            stamps,
        )
    }

    /// Two rounds of drawing make one round with the stamps of both.
    pub proof fn lemma_drawing_composes(a: Pages, b: Pages, c: Pages, s1: Seq<Stamp>, s2: Seq<Stamp>)
        requires
            b.drew(&a, s1),
            c.drew(&b, s2),
        ensures
            c.drew(&a, s1 + s2),
    {
        let d1 = (b.cursor().layer - a.cursor().layer) as nat;
        let d2 = (c.cursor().layer - b.cursor().layer) as nat;
        let blank = a.blank_sheet();
        let base = a.pages() + blank_pages(blank, d1);
        lemma_apply_stamps_len(base, s1);
        lemma_apply_stamps_extend(base, blank_pages(blank, d2), s1);
        assert(base + blank_pages(blank, d2) =~= a.pages() + blank_pages(blank, d1 + d2));
        lemma_apply_stamps_concat(a.pages() + blank_pages(blank, d1 + d2), s1, s2);
        assert(stamps_within(s1 + s2, c.pages().len() as int)) by {
            assert forall|i: int| 0 <= i < (s1 + s2).len() implies 0 <= #[trigger] (s1 + s2)[i].page < c.pages().len() by {
                if i < s1.len() {
                    assert((s1 + s2)[i] == s1[i]);
                } else {
                    assert((s1 + s2)[i] == s2[i - s1.len()]);
                }
            }
        }
    }

    /// Doing nothing draws nothing.
    pub proof fn lemma_nothing_drawn(&self)
        ensures
            self.drew(self, seq![]),
    {
        assert(self.pages() + blank_pages(self.blank_sheet(), 0) =~= self.pages());
    }

    /// Adds an empty page after the last one.
    pub fn add_page(&mut self)
        ensures
            final(self).pages() == old(self).pages().push(old(self).blank_sheet()),
            final(self).cursor() == old(self).cursor(),
            final(self).same_pictures(old(self)),
            old(self).wf() ==> final(self).wf(),
    {
        let page = self.blank_sheet.copy();
        self.imgs.push(page);
        assert(self.pages() =~= old(self).pages().push(old(self).blank_sheet()));
    }

    /// Moves the cursor to the next square, adding a page when it leaves
    /// the last line.
    pub fn next(&mut self)
        requires
            old(self).wf(),
        ensures
            final(self).wf(),
            final(self).cursor() == step(old(self).cursor()),
            final(self).drew(old(self), seq![]),
    {
        proof {
            lemma_moves_keep_cursor_ok(self.cursor(), 0, 0);
        }
        self.x += Pages::CELL;
        // if out of bounds change the bounds
        if self.x + Pages::CELL > Pages::WIDTH - Pages::X_OFFSET {
            // new line
            self.x = Pages::X_OFFSET;
            self.y += Pages::CELL;
        }
        if self.y + Pages::CELL > Pages::HEIGHT - Pages::Y_OFFSET {
            // new page
            self.x = Pages::X_OFFSET;
            self.y = Pages::Y_OFFSET;
            self.add_page();
            proof {
                vstd::std_specs::vec::axiom_spec_len(&self.imgs);
            }
            self.layer += 1;
        }
        proof {
            let d = (self.cursor().layer - old(self).cursor().layer) as nat;
            assert(old(self).pages() + blank_pages(old(self).blank_sheet(), d) =~= self.pages());
        }
    }

    /// Tells what moving to the next square would change.
    pub fn peek_next(&self) -> (o: Overflow)
        requires
            self.wf(),
        ensures
            o == overflow_of(self.cursor()),
    {
        let mut o = Overflow::Unchanged;
        let x_temp = self.x + Pages::CELL;
        let mut y_temp = self.y;

        if x_temp + Pages::CELL > Pages::WIDTH - Pages::X_OFFSET {
            y_temp += Pages::CELL;
            o = Overflow::ChangedLine;
        }
        if y_temp + Pages::CELL > Pages::HEIGHT - Pages::Y_OFFSET {
            o = Overflow::ChangedPage;
        }
        o
    }

    /// Moves the cursor to the start of a line `gap` pixels lower, or to the
    /// first square of a new page when no square fits there.
    pub fn new_line(&mut self, gap: u32)
        requires
            old(self).wf(),
            old(self).cursor().y + gap + Pages::CELL <= u32::MAX,
        ensures
            final(self).wf(),
            final(self).cursor() == line_feed(old(self).cursor(), gap as int),
            final(self).drew(old(self), seq![]),
    {
        proof {
            lemma_moves_keep_cursor_ok(self.cursor(), gap as int, 0);
        }
        self.x = Pages::X_OFFSET;
        self.y += gap;
        if self.y + Pages::CELL > Pages::HEIGHT - Pages::Y_OFFSET {
            self.add_page();
            proof {
                vstd::std_specs::vec::axiom_spec_len(&self.imgs);
                assert(self.imgs@.len() == self.pages().len());
            }
            self.layer += 1;
            self.y = Pages::Y_OFFSET;
        }
        proof {
            let d = (self.cursor().layer - old(self).cursor().layer) as nat;
            assert(old(self).pages() + blank_pages(old(self).blank_sheet(), d) =~= self.pages());
        }
    }

    /// Blends `top` onto the current page at `(x, y)`.
    fn stamp(&mut self, top: &Picture, x: u32, y: u32)
        requires
            old(self).wf(),
            old(self).ready(),
            picture_ok(top@),
        ensures
            final(self).wf(),
            final(self).ready(),
            final(self).cursor() == old(self).cursor(),
            final(self).drew(old(self), seq![Stamp { page: old(self).cursor().layer, picture: top@, x: x as int, y: y as int }]),
    {
        let ghost before = self.pages();
        let ghost s = Stamp { page: self.layer as int, picture: top@, x: x as int, y: y as int };
        assert(picture_ok(before[self.layer as int]));
        self.imgs[self.layer].overlay(top, x, y);
        proof {
            reveal_with_fuel(apply_stamps, 2);
            assert(self.pages() =~= before.update(s.page, overlay_at(before[s.page], top@, x as int, y as int)));
            assert(seq![s][0] == s);
            assert(before + blank_pages(old(self).blank_sheet(), 0) =~= before);
            assert(seq![s].drop_last() =~= Seq::<Stamp>::empty());
            assert forall|i: int| 0 <= i < self.pages().len() implies picture_ok(#[trigger] self.pages()[i]) by {
                if i != s.page {
                    assert(self.pages()[i] == before[i]);
                }
            }
        }
    }

    /// Draws the dotted square and, three pixels inside it, `svg_img` at
    /// the cursor, then moves to the next square.
    pub fn draw_svg(&mut self, svg_img: &Picture)
        requires
            old(self).wf(),
            old(self).ready(),
            picture_ok(svg_img@),
        ensures
            final(self).wf(),
            final(self).ready(),
            final(self).cursor() == step(old(self).cursor()),
            final(self).drew(old(self), square_stamps(old(self).cursor(), old(self).grid(), svg_img@)),
    {
        let ghost p0 = *self;
        let grid = self.grid.copy();
        self.stamp(&grid, self.x, self.y);
        let ghost p1 = *self;
        self.stamp(svg_img, self.x + 3, self.y + 3);
        let ghost p2 = *self;
        self.next();
        proof {
            let c = p0.cursor();
            let s1 = seq![Stamp { page: c.layer, picture: p0.grid(), x: c.x, y: c.y }];
            let s2 = seq![Stamp { page: c.layer, picture: svg_img@, x: c.x + 3, y: c.y + 3 }];
            Pages::lemma_drawing_composes(p0, p1, p2, s1, s2);
            Pages::lemma_drawing_composes(p0, p2, *self, s1 + s2, seq![]);
            assert(s1 + s2 + seq![] =~= square_stamps(c, p0.grid(), svg_img@));
        }
    }

    /// Draws `n` full lines of the background `bg`, one under the other,
    /// from the cursor on.
    fn draw_lines(&mut self, bg: &BgType, n: u16)
        requires
            old(self).wf(),
            n > 0 ==> old(self).ready(),
        ensures
            final(self).wf(),
            old(self).ready() ==> final(self).ready(),
            final(self).cursor() == feed_lines(old(self).cursor(), n as nat),
            final(self).drew(old(self), line_stamps(old(self).cursor(), n as nat, old(self).line_of(*bg))),
    {
        let ghost start = *self;
        proof {
            self.lemma_nothing_drawn();
        }
        let line = match bg {
            BgType::Grid => self.grid_line.copy(),
            BgType::Blank => self.blank_line.copy(),
        };
        for i in 0..n
            invariant
                self.wf(),
                n > 0 ==> self.ready(),
                start.ready() ==> self.ready(),
                line@ == start.line_of(*bg),
                picture_ok(line@),
                self.cursor() == feed_lines(start.cursor(), i as nat),
                self.drew(&start, line_stamps(start.cursor(), i as nat, start.line_of(*bg))),
        {
            proof {
                lemma_feed_one_more(start.cursor(), i as nat);
            }
            let ghost before = *self;
            self.stamp(&line, self.x, self.y);
            let ghost drawn = *self;
            self.new_line(Pages::CELL);
            proof {
                let s = seq![Stamp { page: before.cursor().layer, picture: line@, x: before.cursor().x, y: before.cursor().y }];
                let done = line_stamps(start.cursor(), i as nat, start.line_of(*bg));
                Pages::lemma_drawing_composes(start, before, drawn, done, s);
                Pages::lemma_drawing_composes(start, drawn, *self, done + s, seq![]);
                assert(done + s + seq![] =~= line_stamps(start.cursor(), (i + 1) as nat, start.line_of(*bg)));
            }
        }
    }

    fn draw_n_full_grid(&mut self, n: u16)
        requires
            old(self).wf(),
            n > 0 ==> old(self).ready(),
        ensures
            final(self).wf(),
            old(self).ready() ==> final(self).ready(),
            final(self).cursor() == feed_lines(old(self).cursor(), n as nat),
            final(self).drew(old(self), line_stamps(old(self).cursor(), n as nat, old(self).grid_line())),
    {
        self.draw_lines(&BgType::Grid, n);
    }

    fn draw_n_full_blank(&mut self, n: u16)
        requires
            old(self).wf(),
            n > 0 ==> old(self).ready(),
        ensures
            final(self).wf(),
            old(self).ready() ==> final(self).ready(),
            final(self).cursor() == feed_lines(old(self).cursor(), n as nat),
            final(self).drew(old(self), line_stamps(old(self).cursor(), n as nat, old(self).blank_line())),
    {
        self.draw_lines(&BgType::Blank, n);
    }

    /// Draws `n` full lines of empty or dotted squares, one under the other,
    /// starting on the cursor's line.
    pub fn draw_n_full_lines(&mut self, bg_type: BgType, n: u16)
        requires
            old(self).wf(),
            n > 0 ==> old(self).ready(),
        ensures
            final(self).wf(),
            old(self).ready() ==> final(self).ready(),
            final(self).cursor() == feed_lines(old(self).cursor(), n as nat),
            final(self).drew(old(self), line_stamps(old(self).cursor(), n as nat, old(self).line_of(bg_type))),
    {
        match bg_type {
            BgType::Blank => self.draw_n_full_blank(n),
            BgType::Grid => self.draw_n_full_grid(n),
        };
    }

    /// Draws `svg_img` on every square from the cursor to the end of its
    /// line; the cursor ends at the start of the next line.
    pub fn fill_line(&mut self, svg_img: &Picture)
        requires
            old(self).wf(),
            old(self).ready(),
            picture_ok(svg_img@),
        ensures
            final(self).wf(),
            final(self).ready(),
            final(self).cursor() == line_feed(old(self).cursor(), pitch()),
            final(self).drew(
                old(self),
                squares_stamps(old(self).cursor(), old(self).grid(), copies(svg_img@, squares_left_in_line(old(self).cursor()) as nat)),
            ),
    {
        let ghost start = *self;
        let ghost mut k: nat = 0;
        proof {
            self.lemma_nothing_drawn();
            assert(copies(svg_img@, 0) =~= Seq::<PictureView>::empty());
        }
        loop
            invariant
                self.wf(),
                self.ready(),
                self.cursor().y == start.cursor().y,
                self.cursor().layer == start.cursor().layer,
                self.cursor().x == start.cursor().x + k * pitch(),
                self.cursor() == advance(start.cursor(), k),
                self.drew(&start, squares_stamps(start.cursor(), start.grid(), copies(svg_img@, k))),
                picture_ok(svg_img@),
            ensures
                self.wf(),
                self.ready(),
                self.cursor().y == start.cursor().y,
                self.cursor().layer == start.cursor().layer,
                self.cursor().x == start.cursor().x + k * pitch(),
                self.cursor() == advance(start.cursor(), k),
                self.drew(&start, squares_stamps(start.cursor(), start.grid(), copies(svg_img@, k))),
                overflow_of(self.cursor()) != Overflow::Unchanged,
            decreases right_edge() - self.cursor().x,
        {
            let o = self.peek_next();
            if o != Overflow::Unchanged {
                break;
            }
            let ghost before = *self;
            self.draw_svg(svg_img);
            proof {
                lemma_advance_one_more(start.cursor(), k);
                let done = squares_stamps(start.cursor(), start.grid(), copies(svg_img@, k));
                Pages::lemma_drawing_composes(start, before, *self, done, square_stamps(before.cursor(), start.grid(), svg_img@));
                assert(copies(svg_img@, k + 1).drop_last() =~= copies(svg_img@, k));
                assert((k + 1) * 114 == k * 114 + 114) by (nonlinear_arith);
                k = k + 1;
            }
        }
        let ghost before = *self;
        self.draw_svg(svg_img);
        proof {
            lemma_advance_one_more(start.cursor(), k);
            let done = squares_stamps(start.cursor(), start.grid(), copies(svg_img@, k));
            Pages::lemma_drawing_composes(start, before, *self, done, square_stamps(before.cursor(), start.grid(), svg_img@));
            assert(copies(svg_img@, k + 1).drop_last() =~= copies(svg_img@, k));
            assert(squares_left_in_line(start.cursor()) == k + 1);
        }
    }

    /// Draws the kanji given as the RGBA pixels of a `VIEWBOX_U` square
    /// picture on `i` squares, from the cursor on, without the dotted
    /// square. Fails, drawing nothing, when the pixels do not fill the
    /// picture.
    pub fn draw_full_opaque(&mut self, svg_rgba: &[u8], i: u32) -> (r: Result<(), KanjiToPngErrors>)
        requires
            old(self).wf(),
            i > 0 && svg_rgba@.len() >= 4 * Pages::VIEWBOX_U * Pages::VIEWBOX_U ==> old(self).ready(),
        ensures
            r is Err <==> svg_rgba@.len() < 4 * Pages::VIEWBOX_U * Pages::VIEWBOX_U,
            r is Err ==> r == Err::<(), KanjiToPngErrors>(KanjiToPngErrors::UnlikelyError) && *final(self) == *old(self),
            r is Ok ==> {
                &&& final(self).wf()
                &&& old(self).ready() ==> final(self).ready()
                &&& final(self).cursor() == advance(old(self).cursor(), i as nat)
                &&& final(self).drew(
                    old(self),
                    plain_stamps(old(self).cursor(), i as nat, raw_picture(Pages::VIEWBOX_U, Pages::VIEWBOX_U, svg_rgba@)),
                )
            },
    {
        let svg_img = match Picture::from_rgba(Pages::VIEWBOX_U, Pages::VIEWBOX_U, svg_rgba) {
            Some(img) => img,
            None => return Err(KanjiToPngErrors::UnlikelyError),
        };
        let ghost start = *self;
        proof {
            self.lemma_nothing_drawn();
        }
        for k in 0..i
            invariant
                self.wf(),
                i > 0 ==> self.ready(),
                start.ready() ==> self.ready(),
                picture_ok(svg_img@),
                self.cursor() == advance(start.cursor(), k as nat),
                self.drew(&start, plain_stamps(start.cursor(), k as nat, svg_img@)),
        {
            proof {
                lemma_advance_one_more(start.cursor(), k as nat);
            }
            let ghost before = *self;
            self.stamp(&svg_img, self.x + 3, self.y + 3);
            let ghost drawn = *self;
            self.next();
            proof {
                let s = seq![Stamp { page: before.cursor().layer, picture: svg_img@, x: before.cursor().x + 3, y: before.cursor().y + 3 }];
                let done = plain_stamps(start.cursor(), k as nat, svg_img@);
                Pages::lemma_drawing_composes(start, before, drawn, done, s);
                Pages::lemma_drawing_composes(start, drawn, *self, done + s, seq![]);
                assert(done + s + seq![] =~= plain_stamps(start.cursor(), (k + 1) as nat, svg_img@));
            }
        }
        Ok(())
    }

    /// A line of `N_SQUARE_PER_LINE` copies of the square `bg_type`, side by
    /// side on a transparent strip as wide as a page.
    fn prepare(bg_type: &Picture) -> (line: Picture)
        requires
            picture_ok(bg_type@),
        ensures
            line@ == line_strip(bg_type@, Pages::N_SQUARE_PER_LINE as nat),
            picture_ok(line@),
    {
        let mut image = Picture::transparent(Pages::WIDTH, Pages::VIEWBOX_U + 30);
        let mut x: u32 = 0;
        for k in 0..Pages::N_SQUARE_PER_LINE
            invariant
                x == k * Pages::CELL,
                image@ == line_strip(bg_type@, k as nat),
                picture_ok(image@),
                picture_ok(bg_type@),
        {
            image.overlay(bg_type, x, 0);
            x += Pages::CELL;
        }
        image
    }

    /// Makes an empty stack of pages from the PNG pictures of an empty
    /// square, an empty page and a dotted square; the cursor is on the first
    /// square of the first page, which is yet to be added. Fails when a
    /// picture does not decode.
    pub fn new(blank_png: &[u8], sheet_png: &[u8], grid_png: &[u8]) -> (r: Result<Self, KanjiToPngErrors>)
        ensures
            r is Ok <==> decoded_png(blank_png@) is Some && decoded_png(sheet_png@) is Some && decoded_png(grid_png@) is Some,
            r matches Err(e) ==> e == KanjiToPngErrors::UnlikelyError,
            r matches Ok(p) ==> {
                &&& p.wf()
                &&& p.cursor() == sheet_start()
                &&& p.pages().len() == 0
                &&& p.blank_sheet() == png_picture(sheet_png@)
                &&& p.grid() == png_picture(grid_png@)
                &&& p.grid_line() == line_strip(png_picture(grid_png@), Pages::N_SQUARE_PER_LINE as nat)
                &&& p.blank_line() == line_strip(png_picture(blank_png@), Pages::N_SQUARE_PER_LINE as nat)
            },
    {
        //None of these errors should realistically happen
        let blank = match Picture::from_png(blank_png) {
            Ok(img) => img,
            Err(_) => return Err(KanjiToPngErrors::UnlikelyError),
        };
        let blank_sheet = match Picture::from_png(sheet_png) {
            Ok(img) => img,
            Err(_) => return Err(KanjiToPngErrors::UnlikelyError),
        };
        let grid = match Picture::from_png(grid_png) {
            Ok(img) => img,
            Err(_) => return Err(KanjiToPngErrors::UnlikelyError),
        };

        let blank_line = Pages::prepare(&blank);
        let grid_line = Pages::prepare(&grid);

        let pages = Pages {
            grid,
            blank_sheet,
            blank_line,
            grid_line,
            x: Pages::X_OFFSET,
            y: Pages::Y_OFFSET,
            layer: 0,
            imgs: Vec::with_capacity(8),
        };
        assert(pages.pages() =~= Seq::<PictureView>::empty());
        Ok(pages)
    }

    /// The pages drawn so far.
    pub fn imgs(&self) -> (r: &Vec<Picture>)
        ensures
            r@.map_values(|p: Picture| p@) == self.pages(),
    {
        &self.imgs
    }

    /// The dotted square drawn under each kanji.
    pub fn grid_image(&self) -> (r: &Picture)
        ensures
            r@ == self.grid(),
    {
        &self.grid
    }

    /// The cursor: the column and row of the current square's top left
    /// corner, in pixels, and the index of its page.
    pub fn position(&self) -> (r: (u32, u32, usize))
        ensures
            r.0 == self.cursor().x,
            r.1 == self.cursor().y,
            r.2 == self.cursor().layer,
    {
        (self.x, self.y, self.layer)
    }
}

} // verus!
