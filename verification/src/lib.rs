//! Layout and composition of kanji practice sheets.
//!
//! A sheet is a stack of page images. Each kanji contributes one square
//! filled with its complete character, one square per stroke showing the
//! strokes drawn so far, the rest of that line filled with a pale copy of
//! the whole character, then extra lines of empty or dotted squares.

pub mod arg_parsing;
pub mod form;
pub mod layout;
pub mod pages;
pub mod pdf_creation;
pub mod raster;
pub mod svg;
pub mod worker;

use std::collections::HashMap;
use vstd::prelude::*;
use vstd::std_specs::iter::IteratorSpec;

use arg_parsing::kanji_to_hexcode;
use arg_parsing::spec_hexcode;
use layout::sheet_start;
use layout::Cursor;
use pages::Pages;
use pdf_creation::kanji_cursor;
use pdf_creation::kanji_outcome;
use pdf_creation::kanji_to_png;
use pdf_creation::svg_entry;
use layout::apply_stamps;
use layout::advance;
use layout::blank_pages;
use layout::feed_lines;
use layout::line_feed;
use layout::line_stamp_at;
use layout::pitch;
use layout::squares_left_in_line;
use layout::Stamp;
use pages::line_strip;
use pages::png_picture;
use pdf_creation::entry_glyph;
use pdf_creation::kanji_stamps;
use pdf_creation::lemma_kanji_block_order;
use raster::decoded_png;

verus! {

/// Why a kanji, a page or a document could not be made.
#[derive(PartialEq, Eq, Structural, Debug, Clone, Copy)]
pub enum KanjiToPngErrors {
    /// No stroke file exists for the kanji.
    FileNotFound,
    /// The stroke file or the document could not be rendered.
    Undefined,
    /// A picture that is always well formed turned out not to be.
    UnlikelyError,
    /// The font of the document could not be loaded.
    LoadFontError,
}

/// The pictures of one kanji, each the RGBA pixels, row by row, of a
/// `Pages::VIEWBOX_U` pixels wide square.
#[derive(Debug)]
pub struct KanjiGlyph {
    /// The whole kanji in black.
    pub opaque: Vec<u8>,
    /// For each stroke, in writing order, the kanji up to that stroke, pale.
    pub strokes: Vec<Vec<u8>>,
    /// The whole kanji, pale.
    pub full: Vec<u8>,
}

/// What became of the stroke file of a kanji.
#[derive(Debug)]
pub enum KanjiSvg {
    /// The file could not be read as a drawing.
    Unreadable,
    /// The pictures drawn from the file.
    Rendered(KanjiGlyph),
}

/// The PNG pictures a sheet is printed on.
#[derive(Debug)]
pub struct SheetAssets {
    /// An empty square.
    pub blank_png: Vec<u8>,
    /// An empty page.
    pub sheet_png: Vec<u8>,
    /// A square with dotted guide lines.
    pub grid_png: Vec<u8>,
}

/// What every sheet is made from.
#[derive(Debug)]
pub struct Globals {
    /// The number of strokes of each kanji, by the stem of its file's name.
    pub _stroke_map: HashMap<String, usize>,
    /// The pictures of each kanji, with the stem of its file's name; no
    /// stem occurs twice.
    pub svgs: Vec<(String, KanjiSvg)>,
    /// The pictures of the squares and of the page.
    pub assets: SheetAssets,
}

/// The number of bytes of a picture of a square.
pub open spec fn square_bytes() -> int {
    4 * Pages::VIEWBOX_U * Pages::VIEWBOX_U
}

impl KanjiGlyph {
    /// The pale pictures fill a square each.
    pub open spec fn wf(&self) -> bool {
        &&& self.full@.len() >= square_bytes()
        &&& forall|i: int| 0 <= i < self.strokes@.len() ==> #[trigger] self.strokes@[i]@.len() >= square_bytes()
    }
}

impl Globals {
    /// The pale pictures of every kanji fill a square each, and no stem
    /// occurs twice.
    pub open spec fn wf(&self) -> bool {
        &&& forall|i: int| 0 <= i < self.svgs@.len() ==> (#[trigger] self.svgs@[i].1 matches KanjiSvg::Rendered(g) ==> g.wf())
        &&& forall|i: int, j: int|
            0 <= i < self.svgs@.len() && 0 <= j < self.svgs@.len() && i != j ==> #[trigger] self.svgs@[i].0@ != #[trigger] self.svgs@[j].0@
    }
}

/// How drawing the kanji `c` ends.
pub open spec fn outcome_of(data: &Globals, c: char) -> Result<nat, KanjiToPngErrors> {
    kanji_outcome(svg_entry(data, spec_hexcode(c)))
}

/// The kanji of `chars` that have no stroke file, in their order.
pub open spec fn skipped_kanjis(data: &Globals, chars: Seq<char>) -> Seq<char>
    decreases chars.len(),
{
    if chars.len() == 0 {
        seq![]
    } else {
        let before = skipped_kanjis(data, chars.drop_last());
        if outcome_of(data, chars.last()) == Err::<nat, KanjiToPngErrors>(KanjiToPngErrors::FileNotFound) {
            before.push(chars.last())
        } else {
            before
        }
    }
}

/// Where the cursor ends after the kanji of `chars`, one after the other,
/// from the first square of the sheet; a kanji that cannot be drawn takes
/// no room.
pub open spec fn sheet_cursor(data: &Globals, chars: Seq<char>, add_blank: nat, add_grid: nat) -> Cursor
    decreases chars.len(),
{
    if chars.len() == 0 {
        sheet_start()
    } else {
        let before = sheet_cursor(data, chars.drop_last(), add_blank, add_grid);
        match outcome_of(data, chars.last()) {
            Ok(strokes) => kanji_cursor(before, strokes, add_blank, add_grid),
            Err(_) => before,
        }
    }
}

/// The pictures of the squares and of the page all decode.
pub open spec fn assets_decode(assets: &SheetAssets) -> bool {
    &&& decoded_png(assets.blank_png@) is Some
    &&& decoded_png(assets.sheet_png@) is Some
    &&& decoded_png(assets.grid_png@) is Some
}

/// What is drawn for the kanji of `chars`, one after the other, from the
/// first square of the sheet, with the pictures of `pics`.
pub open spec fn sheet_stamps(pics: Pages, data: &Globals, chars: Seq<char>, add_blank: nat, add_grid: nat) -> Seq<Stamp>
    decreases chars.len(),
{
    if chars.len() == 0 {
        seq![]
    } else {
        let before = sheet_stamps(pics, data, chars.drop_last(), add_blank, add_grid);
        let at = sheet_cursor(data, chars.drop_last(), add_blank, add_grid);
        match outcome_of(data, chars.last()) {
            Ok(_) => before + kanji_stamps(
                pics,
                at,
                entry_glyph(svg_entry(data, spec_hexcode(chars.last()))),
                add_blank,
                add_grid,
            ),
            Err(_) => before,
        }
    }
}

/// A sheet of one kanji that can be drawn is that kanji's block from the
/// first square: its stamps end with `add_grid` dotted lines followed by
/// `add_blank` empty lines, and the cursor ends where the block ends.
pub proof fn lemma_one_kanji_sheet(pics: Pages, data: &Globals, c: char, add_blank: nat, add_grid: nat)
    requires
        outcome_of(data, c) is Ok,
    ensures
        sheet_stamps(pics, data, seq![c], add_blank, add_grid) == kanji_stamps(
            pics,
            sheet_start(),
            entry_glyph(svg_entry(data, spec_hexcode(c))),
            add_blank,
            add_grid,
        ),
        sheet_cursor(data, seq![c], add_blank, add_grid) == kanji_cursor(
            sheet_start(),
            outcome_of(data, c)->Ok_0,
            add_blank,
            add_grid,
        ),
        ({
            let stamps = sheet_stamps(pics, data, seq![c], add_blank, add_grid);
            &&& add_grid + add_blank <= stamps.len()
            &&& forall|i: int|
                0 <= i < add_grid ==> (#[trigger] stamps[stamps.len() - add_blank - add_grid + i]).picture == pics.grid_line()
            &&& forall|i: int|
                0 <= i < add_blank ==> (#[trigger] stamps[stamps.len() - add_blank + i]).picture == pics.blank_line()
        }),
{
    let chars = seq![c];
    assert(chars.drop_last() =~= Seq::<char>::empty());
    assert(chars.last() == c);
    let g = entry_glyph(svg_entry(data, spec_hexcode(c)));
    let block = kanji_stamps(pics, sheet_start(), g, add_blank, add_grid);
    assert(Seq::<Stamp>::empty() + block =~= block);
    assert(sheet_stamps(pics, data, chars.drop_last(), add_blank, add_grid) =~= Seq::<Stamp>::empty());
    assert(sheet_cursor(data, chars.drop_last(), add_blank, add_grid) == sheet_start());
    assert(sheet_stamps(pics, data, chars, add_blank, add_grid) == sheet_stamps(pics, data, chars.drop_last(), add_blank, add_grid) + block);
    lemma_kanji_block_order(pics, sheet_start(), g, add_blank, add_grid);
    let n = block.len();
    assert forall|i: int| 0 <= i < add_grid implies (#[trigger] block[n - add_blank - add_grid + i]).picture == pics.grid_line() by {
        let k = g.strokes@.len();
        let after = advance(sheet_start(), 1 + k);
        let f = squares_left_in_line(after) as nat;
        assert(n - add_blank - add_grid + i == 1 + 2 * k + 2 * f + i);
        let _ = line_stamp_at(line_feed(after, pitch()), i as nat, pics.grid_line());
    }
    assert forall|i: int| 0 <= i < add_blank implies (#[trigger] block[n - add_blank + i]).picture == pics.blank_line() by {
        let k = g.strokes@.len();
        let after = advance(sheet_start(), 1 + k);
        let f = squares_left_in_line(after) as nat;
        assert(n - add_blank + i == 1 + 2 * k + 2 * f + add_grid + i);
        let _ = line_stamp_at(feed_lines(line_feed(after, pitch()), add_grid), i as nat, pics.blank_line());
    }
}

proof fn lemma_sheet_stamps_same_pictures(a: Pages, b: Pages, data: &Globals, chars: Seq<char>, add_blank: nat, add_grid: nat)
    requires
        a.same_pictures(&b),
    ensures
        sheet_stamps(a, data, chars, add_blank, add_grid) == sheet_stamps(b, data, chars, add_blank, add_grid),
    decreases chars.len(),
{
    if chars.len() > 0 {
        lemma_sheet_stamps_same_pictures(a, b, data, chars.drop_last(), add_blank, add_grid);
    }
}

/// Draws the practice squares of every kanji of `kanjis` on a new sheet,
/// each with `add_grid` dotted and `add_blank` empty lines after it, and
/// lists the kanji that have no stroke file. Kanji that cannot be drawn
/// for another reason are left out silently.
pub fn create_pages(
    kanjis: &str,
    add_blank: u16,
    add_grid: u16,
    data: &Globals,
) -> (r: Result<(Pages, Vec<char>), KanjiToPngErrors>)
    requires
        data.wf(),
    ensures
        r is Ok <==> assets_decode(&data.assets),
        r matches Err(e) ==> e == KanjiToPngErrors::UnlikelyError,
        r matches Ok((pages, skipped)) ==> {
            &&& pages.wf()
            &&& pages.ready()
            &&& pages.pages().len() == pages.cursor().layer + 1
            &&& pages.cursor() == sheet_cursor(data, kanjis@, add_blank as nat, add_grid as nat)
            &&& skipped@ == skipped_kanjis(data, kanjis@)
            &&& pages.blank_sheet() == png_picture(data.assets.sheet_png@)
            &&& pages.grid() == png_picture(data.assets.grid_png@)
            &&& pages.grid_line() == line_strip(png_picture(data.assets.grid_png@), Pages::N_SQUARE_PER_LINE as nat)
            &&& pages.blank_line() == line_strip(png_picture(data.assets.blank_png@), Pages::N_SQUARE_PER_LINE as nat)
            &&& pages.pages() == apply_stamps(
                blank_pages(pages.blank_sheet(), pages.pages().len()),
                sheet_stamps(pages, data, kanjis@, add_blank as nat, add_grid as nat),
            )
        },
{
    let mut pages = Pages::new(
        data.assets.blank_png.as_slice(),
        data.assets.sheet_png.as_slice(),
        data.assets.grid_png.as_slice(),
    )?;
    pages.add_page();
    let mut skipped_kanji = Vec::<char>::with_capacity(10);
    let ghost first = pages;
    proof {
        pages.lemma_nothing_drawn();
    }

    for kanji in it: kanjis.chars()
        invariant
            data.wf(),
            it.seq() == kanjis@,
            pages.wf(),
            pages.ready(),
            pages.pages().len() == pages.cursor().layer + 1,
            pages.cursor() == sheet_cursor(data, kanjis@.take(it.index() as int), add_blank as nat, add_grid as nat),
            skipped_kanji@ == skipped_kanjis(data, kanjis@.take(it.index() as int)),
            first.pages() == seq![first.blank_sheet()],
            pages.drew(&first, sheet_stamps(first, data, kanjis@.take(it.index() as int), add_blank as nat, add_grid as nat)),
    {
        let ghost i = it.index() as int;
        assert(kanjis@.take(i + 1).drop_last() =~= kanjis@.take(i));
        assert(kanjis@.take(i + 1).last() == kanji);
        let path = kanji_to_hexcode(kanji);
        let ghost before = pages;
        let res = kanji_to_png(&mut pages, path.as_str(), add_blank, add_grid, data);
        proof {
            let done = sheet_stamps(first, data, kanjis@.take(i), add_blank as nat, add_grid as nat);
            if res is Ok {
                let more = kanji_stamps(before, before.cursor(), entry_glyph(svg_entry(data, spec_hexcode(kanji))), add_blank as nat, add_grid as nat);
                assert(more == kanji_stamps(first, before.cursor(), entry_glyph(svg_entry(data, spec_hexcode(kanji))), add_blank as nat, add_grid as nat));
                Pages::lemma_drawing_composes(first, before, pages, done, more);
            } else {
                assert(done + seq![] =~= done);
                Pages::lemma_drawing_composes(first, before, pages, done, seq![]);
            }
        }
        if let Err(e) = res {
            if e == KanjiToPngErrors::FileNotFound {
                skipped_kanji.push(kanji);
            }
        }
    }
    assert(kanjis@.take(kanjis@.len() as int) =~= kanjis@);
    proof {
        lemma_sheet_stamps_same_pictures(first, pages, data, kanjis@, add_blank as nat, add_grid as nat);
    }
    assert(first.pages() + blank_pages(first.blank_sheet(), pages.cursor().layer as nat) =~= blank_pages(pages.blank_sheet(), pages.pages().len()));
    Ok((pages, skipped_kanji))
}

} // verus!
