//! Drawing the practice squares of one kanji.
use vstd::prelude::*;
use vstd::string::StringExecFns;

use crate::layout::advance;
use crate::layout::grid_stamp_at;
use crate::layout::inner_stamp_at;
use crate::layout::lemma_line_stamps_at;
use crate::layout::lemma_plain_stamps_at;
use crate::layout::lemma_squares_stamps_at;
use crate::layout::line_stamp_at;
use crate::layout::blank_pages;
use crate::layout::lemma_apply_stamps_untouched;
use crate::layout::lemma_line_stamps_from;
use crate::layout::lemma_plain_stamps_from;
use crate::layout::lemma_squares_stamps_from;
use crate::layout::lemma_stamps_from_concat;
use crate::layout::before_or_at;
use crate::layout::lemma_feed_lines_monotone;
use crate::layout::lemma_line_feed_monotone;
use crate::layout::lemma_more_lines_further;
use crate::layout::copies;
use crate::layout::line_stamps;
use crate::layout::plain_stamps;
use crate::layout::square_stamps;
use crate::layout::squares_left_in_line;
use crate::layout::squares_stamps;
use crate::layout::Stamp;
use crate::layout::cursor_ok;
use crate::layout::lemma_advance_one_more;
use crate::layout::lemma_advance_split;
use crate::layout::lemma_moves_keep_cursor_ok;
use crate::layout::feed_lines;
use crate::layout::line_feed;
use crate::layout::pitch;
use crate::layout::Cursor;
use crate::pages::BgType;
use crate::pages::Pages;
use crate::raster::raw_picture;
use crate::raster::Picture;
use crate::raster::PictureView;
use crate::square_bytes;
use crate::Globals;
use crate::KanjiGlyph;
use crate::KanjiSvg;
use crate::KanjiToPngErrors;

verus! {

/// The entry of the file whose stem is `path`; none when no file has that
/// stem.
pub open spec fn svg_entry(data: &Globals, path: Seq<char>) -> Option<KanjiSvg> {
    if exists|i: int| 0 <= i < data.svgs@.len() && #[trigger] data.svgs@[i].0@ == path {
        let i = choose|i: int| 0 <= i < data.svgs@.len() && #[trigger] data.svgs@[i].0@ == path;
        Some(data.svgs@[i].1)
    } else {
        None
    }
}

/// The entry of the file whose stem is `path`.
fn find_svg<'a>(data: &'a Globals, path: &str) -> (r: Option<&'a KanjiSvg>)
    requires
        data.wf(),
    ensures
        match r {
            Some(e) => svg_entry(data, path@) == Some(*e),
            None => svg_entry(data, path@) is None,
        },
{
    let key = String::from_str(path);
    let n = data.svgs.len();
    for i in 0..n
        invariant
            n == data.svgs@.len(),
            key@ == path@,
            data.wf(),
            forall|j: int| 0 <= j < i ==> #[trigger] data.svgs@[j].0@ != path@,
    {
        if data.svgs[i].0 == key {
            proof {
                let k = choose|k: int| 0 <= k < data.svgs@.len() && #[trigger] data.svgs@[k].0@ == path@;
                assert(data.svgs@[i as int].0@ == path@);
                if k != i {
                    assert(data.svgs@[k].0@ != data.svgs@[i as int].0@);
                }
            }
            return Some(&data.svgs[i].1);
        }
    }
    None
}

/// How drawing a kanji with this entry ends: with the number of its
/// strokes, or with the reason it is not drawn.
pub open spec fn kanji_outcome(entry: Option<KanjiSvg>) -> Result<nat, KanjiToPngErrors> {
    match entry {
        None => Err(KanjiToPngErrors::FileNotFound),
        Some(KanjiSvg::Unreadable) => Err(KanjiToPngErrors::Undefined),
        Some(KanjiSvg::Rendered(g)) => if g.opaque@.len() < square_bytes() {
            Err(KanjiToPngErrors::UnlikelyError)
        } else {
            Ok(g.strokes@.len())
        },
    }
}

/// The gap in pixels left after the lines of a kanji.
pub open spec fn kanji_gap() -> int {
    20
}

/// Where the cursor ends after a kanji of `strokes` strokes: one square for
/// the whole kanji, one per stroke, the rest of that line, `add_grid` dotted
/// lines, `add_blank` empty lines, then a small gap.
pub open spec fn kanji_cursor(c: Cursor, strokes: nat, add_blank: nat, add_grid: nat) -> Cursor {
    let squares = advance(c, 1 + strokes);
    let line_done = line_feed(squares, pitch());
    line_feed(feed_lines(feed_lines(line_done, add_grid), add_blank), kanji_gap())
}

/// The pictures of a kanji's squares, from its pixels.
pub open spec fn stroke_pictures(g: KanjiGlyph) -> Seq<PictureView> {
    Seq::new(g.strokes@.len(), |i: int| raw_picture(Pages::VIEWBOX_U, Pages::VIEWBOX_U, g.strokes@[i]@))
}

/// What is drawn for a kanji from the cursor `c`, with the pictures of
/// `pages`: the whole kanji without dotted square, a dotted square with
/// each stroke picture, dotted squares with the pale kanji to the end of
/// that line, `add_grid` dotted lines, then `add_blank` empty lines.
pub open spec fn kanji_stamps(pages: Pages, c: Cursor, g: KanjiGlyph, add_blank: nat, add_grid: nat) -> Seq<Stamp> {
    let strokes = g.strokes@.len();
    let after_strokes = advance(c, 1 + strokes);
    let line_done = line_feed(after_strokes, pitch());
    let full = raw_picture(Pages::VIEWBOX_U, Pages::VIEWBOX_U, g.full@);
    plain_stamps(c, 1, raw_picture(Pages::VIEWBOX_U, Pages::VIEWBOX_U, g.opaque@))
        + squares_stamps(advance(c, 1), pages.grid(), stroke_pictures(g))
        + squares_stamps(after_strokes, pages.grid(), copies(full, squares_left_in_line(after_strokes) as nat))
        + line_stamps(line_done, add_grid, pages.grid_line())
        + line_stamps(feed_lines(line_done, add_grid), add_blank, pages.blank_line())
}

/// The glyph an entry holds, when it holds one.
pub open spec fn entry_glyph(entry: Option<KanjiSvg>) -> KanjiGlyph {
    match entry {
        Some(KanjiSvg::Rendered(g)) => g,
        _ => arbitrary(),
    }
}

/// Draws the practice squares of the kanji whose file stem is `path`.
pub fn kanji_to_png(
    pages: &mut Pages,
    path: &str,
    add_blank: u16,
    add_grid: u16,
    data: &Globals,
) -> (r: Result<(), KanjiToPngErrors>)
    requires
        old(pages).wf(),
        kanji_outcome(svg_entry(data, path@)) is Ok ==> old(pages).ready(),
        data.wf(),
    ensures
        match kanji_outcome(svg_entry(data, path@)) {
            Err(e) => r == Err::<(), KanjiToPngErrors>(e) && *final(pages) == *old(pages),
            Ok(strokes) => {
                &&& r is Ok
                &&& final(pages).wf()
                &&& final(pages).ready()
                &&& final(pages).cursor() == kanji_cursor(old(pages).cursor(), strokes, add_blank as nat, add_grid as nat)
                &&& final(pages).drew(
                    old(pages),
                    kanji_stamps(*old(pages), old(pages).cursor(), entry_glyph(svg_entry(data, path@)), add_blank as nat, add_grid as nat),
                )
            },
        },
{
    let glyph = match find_svg(data, path) {
        None => return Err(KanjiToPngErrors::FileNotFound),
        Some(KanjiSvg::Unreadable) => return Err(KanjiToPngErrors::Undefined),
        Some(KanjiSvg::Rendered(g)) => g,
    };
    proof {
        let k = choose|k: int| 0 <= k < data.svgs@.len() && #[trigger] data.svgs@[k].0@ == path@;
        assert(data.svgs@[k].1 matches KanjiSvg::Rendered(h) ==> h.wf());
    }
    assert(glyph.wf());
    let ghost p0 = *pages;
    pages.draw_full_opaque(glyph.opaque.as_slice(), 1)?;
    let ghost p1 = *pages;
    let ghost c0 = p0.cursor();
    let ghost s_opaque = plain_stamps(c0, 1, raw_picture(Pages::VIEWBOX_U, Pages::VIEWBOX_U, glyph.opaque@));
    proof {
        lemma_moves_keep_cursor_ok(c0, 0, 1);
        p1.lemma_nothing_drawn();
        assert(stroke_pictures(*glyph).take(0) =~= Seq::<PictureView>::empty());
    }
    let count = glyph.strokes.len();
    for k in 0..count
        invariant
            count == glyph.strokes@.len(),
            glyph.wf(),
            pages.wf(),
            pages.ready(),
            pages.same_pictures(&p0),
            pages.cursor() == advance(p1.cursor(), k as nat),
            pages.drew(&p1, squares_stamps(p1.cursor(), p0.grid(), stroke_pictures(*glyph).take(k as int))),
    {
        proof {
            lemma_advance_one_more(p1.cursor(), k as nat);
            lemma_moves_keep_cursor_ok(pages.cursor(), 0, 0);
        }
        let ghost before = *pages;
        let svg_img = Picture::from_rgba(Pages::VIEWBOX_U, Pages::VIEWBOX_U, glyph.strokes[k].as_slice()).unwrap();
        pages.draw_svg(&svg_img);
        proof {
            let done = squares_stamps(p1.cursor(), p0.grid(), stroke_pictures(*glyph).take(k as int));
            assert(stroke_pictures(*glyph).take(k + 1).drop_last() =~= stroke_pictures(*glyph).take(k as int));
            assert(stroke_pictures(*glyph).take(k + 1).last() == svg_img@);
            Pages::lemma_drawing_composes(p1, before, *pages, done, square_stamps(before.cursor(), p0.grid(), svg_img@));
        }
    }
    let ghost p2 = *pages;
    let ghost s_strokes = squares_stamps(advance(c0, 1), p0.grid(), stroke_pictures(*glyph));
    proof {
        assert(stroke_pictures(*glyph).take(count as int) =~= stroke_pictures(*glyph));
        lemma_advance_split(c0, 1, count as nat);
        lemma_moves_keep_cursor_ok(p2.cursor(), pitch(), add_grid as nat);
    }
    let full = Picture::from_rgba(Pages::VIEWBOX_U, Pages::VIEWBOX_U, glyph.full.as_slice()).unwrap();
    pages.fill_line(&full);
    let ghost p3 = *pages;
    proof {
        lemma_moves_keep_cursor_ok(p3.cursor(), 0, add_grid as nat);
    }
    pages.draw_n_full_lines(BgType::Grid, add_grid);
    let ghost p4 = *pages;
    proof {
        lemma_moves_keep_cursor_ok(p4.cursor(), 0, add_blank as nat);
    }
    pages.draw_n_full_lines(BgType::Blank, add_blank);
    let ghost p5 = *pages;
    proof {
        lemma_moves_keep_cursor_ok(p5.cursor(), kanji_gap(), 0);
    }
    pages.new_line(20);
    proof {
        let s_fill = squares_stamps(p2.cursor(), p0.grid(), copies(full@, squares_left_in_line(p2.cursor()) as nat));
        let s_grid = line_stamps(p3.cursor(), add_grid as nat, p0.grid_line());
        let s_blank = line_stamps(p4.cursor(), add_blank as nat, p0.blank_line());
        Pages::lemma_drawing_composes(p0, p1, p2, s_opaque, s_strokes);
        Pages::lemma_drawing_composes(p0, p2, p3, s_opaque + s_strokes, s_fill);
        Pages::lemma_drawing_composes(p0, p3, p4, s_opaque + s_strokes + s_fill, s_grid);
        Pages::lemma_drawing_composes(p0, p4, p5, s_opaque + s_strokes + s_fill + s_grid, s_blank);
        Pages::lemma_drawing_composes(p0, p5, *pages, s_opaque + s_strokes + s_fill + s_grid + s_blank, seq![]);
        assert(s_opaque + s_strokes + s_fill + s_grid + s_blank + seq![] =~= kanji_stamps(p0, c0, *glyph, add_blank as nat, add_grid as nat));
    }
    Ok(())
}

/// Every kanji ends at the start of a line: the next kanji starts there.
pub proof fn lemma_kanji_ends_at_line_start(c: Cursor, strokes: nat, add_blank: nat, add_grid: nat)
    requires
        cursor_ok(c),
    ensures
        cursor_ok(kanji_cursor(c, strokes, add_blank, add_grid)),
        kanji_cursor(c, strokes, add_blank, add_grid).x == Pages::X_OFFSET,
        c.layer <= kanji_cursor(c, strokes, add_blank, add_grid).layer,
{
    let a = advance(c, 1 + strokes);
    lemma_moves_keep_cursor_ok(c, 0, 1 + strokes);
    let l = line_feed(a, pitch());
    lemma_moves_keep_cursor_ok(a, pitch(), 0);
    lemma_moves_keep_cursor_ok(l, 0, add_grid);
    let g = feed_lines(l, add_grid);
    lemma_moves_keep_cursor_ok(g, 0, add_blank);
    let b = feed_lines(g, add_blank);
    lemma_moves_keep_cursor_ok(b, kanji_gap(), 0);
}

/// Asking for more extra lines after a kanji never ends on an earlier page,
/// so never gives fewer pages: `kanji_to_png` adds one page for each page
/// the cursor moves forward.
pub proof fn lemma_more_lines_never_fewer_pages(
    c: Cursor,
    strokes: nat,
    add_blank: nat,
    add_grid: nat,
    more_blank: nat,
    more_grid: nat,
)
    requires
        cursor_ok(c),
        add_blank <= more_blank,
        add_grid <= more_grid,
    ensures
        kanji_cursor(c, strokes, add_blank, add_grid).layer <= kanji_cursor(c, strokes, more_blank, more_grid).layer,
{
    let a = advance(c, 1 + strokes);
    lemma_moves_keep_cursor_ok(c, 0, 1 + strokes);
    let l = line_feed(a, pitch());
    lemma_moves_keep_cursor_ok(a, pitch(), 0);
    lemma_moves_keep_cursor_ok(l, 0, add_grid);
    lemma_moves_keep_cursor_ok(l, 0, more_grid);
    let g1 = feed_lines(l, add_grid);
    let g2 = feed_lines(l, more_grid);
    lemma_more_lines_further(l, add_grid, more_grid);
    lemma_moves_keep_cursor_ok(g1, 0, add_blank);
    lemma_moves_keep_cursor_ok(g1, 0, more_blank);
    lemma_moves_keep_cursor_ok(g2, 0, more_blank);
    lemma_more_lines_further(g1, add_blank, more_blank);
    lemma_feed_lines_monotone(g1, g2, more_blank);
    let b1 = feed_lines(g1, add_blank);
    let b2 = feed_lines(g2, more_blank);
    assert(before_or_at(b1, b2));
    lemma_line_feed_monotone(b1, b2, kanji_gap());
}

/// Drawing a kanji never changes a page before the one it starts on.
pub proof fn lemma_kanji_keeps_earlier_pages(
    old: Pages,
    new: Pages,
    g: KanjiGlyph,
    add_blank: nat,
    add_grid: nat,
)
    requires
        old.wf(),
        new.drew(&old, kanji_stamps(old, old.cursor(), g, add_blank, add_grid)),
    ensures
        forall|j: int| 0 <= j < old.cursor().layer ==> #[trigger] new.pages()[j] == old.pages()[j],
{
    let c = old.cursor();
    let strokes = g.strokes@.len();
    let after_strokes = advance(c, 1 + strokes);
    let line_done = line_feed(after_strokes, pitch());
    let lines = feed_lines(line_done, add_grid);
    lemma_moves_keep_cursor_ok(c, 0, 1);
    lemma_moves_keep_cursor_ok(c, 0, 1 + strokes);
    lemma_moves_keep_cursor_ok(after_strokes, pitch(), add_grid);
    lemma_moves_keep_cursor_ok(line_done, 0, add_grid);
    let full = raw_picture(Pages::VIEWBOX_U, Pages::VIEWBOX_U, g.full@);
    let s1 = plain_stamps(c, 1, raw_picture(Pages::VIEWBOX_U, Pages::VIEWBOX_U, g.opaque@));
    let s2 = squares_stamps(advance(c, 1), old.grid(), stroke_pictures(g));
    let s3 = squares_stamps(after_strokes, old.grid(), copies(full, squares_left_in_line(after_strokes) as nat));
    let s4 = line_stamps(line_done, add_grid, old.grid_line());
    let s5 = line_stamps(lines, add_blank, old.blank_line());
    lemma_plain_stamps_from(c, 1, raw_picture(Pages::VIEWBOX_U, Pages::VIEWBOX_U, g.opaque@));
    lemma_squares_stamps_from(advance(c, 1), old.grid(), stroke_pictures(g));
    lemma_squares_stamps_from(after_strokes, old.grid(), copies(full, squares_left_in_line(after_strokes) as nat));
    lemma_line_stamps_from(line_done, add_grid, old.grid_line());
    lemma_line_stamps_from(lines, add_blank, old.blank_line());
    lemma_stamps_from_concat(s1, s2, c.layer);
    lemma_stamps_from_concat(s1 + s2, s3, c.layer);
    lemma_stamps_from_concat(s1 + s2 + s3, s4, c.layer);
    lemma_stamps_from_concat(s1 + s2 + s3 + s4, s5, c.layer);
    let all = kanji_stamps(old, c, g, add_blank, add_grid);
    assert(all == s1 + s2 + s3 + s4 + s5);
    let base = old.pages() + blank_pages(old.blank_sheet(), (new.cursor().layer - c.layer) as nat);
    assert forall|j: int| 0 <= j < c.layer implies #[trigger] new.pages()[j] == old.pages()[j] by {
        assert forall|i: int| 0 <= i < all.len() implies #[trigger] all[i].page != j by {
            assert(c.layer <= all[i].page);
        }
        lemma_apply_stamps_untouched(base, all, j);
        assert(base[j] == old.pages()[j]);
    }
}

/// The order of what is drawn for a kanji: the whole kanji in black in
/// the cursor's square without a dotted square; then, for each stroke in
/// writing order, the next square gets the dotted square and the picture of
/// the kanji up to that stroke; then the pale kanji on each square left in
/// that line; then `add_grid` dotted lines and after them `add_blank` empty
/// lines, each line one below the one before.
pub proof fn lemma_kanji_block_order(pics: Pages, c: Cursor, g: KanjiGlyph, add_blank: nat, add_grid: nat)
    ensures
        ({
            let stamps = kanji_stamps(pics, c, g, add_blank, add_grid);
            let k = g.strokes@.len();
            let after = advance(c, 1 + k);
            let f = squares_left_in_line(after) as nat;
            let line_done = line_feed(after, pitch());
            let full = raw_picture(Pages::VIEWBOX_U, Pages::VIEWBOX_U, g.full@);
            &&& stamps.len() == 1 + 2 * k + 2 * f + add_grid + add_blank
            &&& stamps[0] == inner_stamp_at(c, 0, raw_picture(Pages::VIEWBOX_U, Pages::VIEWBOX_U, g.opaque@))
            &&& forall|j: int|
                #![trigger g.strokes@[j]]
                0 <= j < k ==> stamps[1 + 2 * j] == grid_stamp_at(c, (1 + j) as nat, pics.grid()) && stamps[2 + 2 * j]
                    == inner_stamp_at(c, (1 + j) as nat, raw_picture(Pages::VIEWBOX_U, Pages::VIEWBOX_U, g.strokes@[j]@))
            &&& forall|j: int|
                0 <= j < f ==> stamps[1 + 2 * k + 2 * j] == #[trigger] grid_stamp_at(after, j as nat, pics.grid())
                    && stamps[2 + 2 * k + 2 * j] == inner_stamp_at(after, j as nat, full)
            &&& forall|i: int|
                0 <= i < add_grid ==> stamps[1 + 2 * k + 2 * f + i] == #[trigger] line_stamp_at(line_done, i as nat, pics.grid_line())
            &&& forall|i: int|
                0 <= i < add_blank ==> stamps[1 + 2 * k + 2 * f + add_grid + i] == #[trigger] line_stamp_at(
                    feed_lines(line_done, add_grid),
                    i as nat,
                    pics.blank_line(),
                )
        }),
{
    let k = g.strokes@.len();
    let after = advance(c, 1 + k);
    let f = squares_left_in_line(after) as nat;
    let line_done = line_feed(after, pitch());
    let full = raw_picture(Pages::VIEWBOX_U, Pages::VIEWBOX_U, g.full@);
    let opaque = raw_picture(Pages::VIEWBOX_U, Pages::VIEWBOX_U, g.opaque@);
    let s1 = plain_stamps(c, 1, opaque);
    let s2 = squares_stamps(advance(c, 1), pics.grid(), stroke_pictures(g));
    let s3 = squares_stamps(after, pics.grid(), copies(full, f));
    let s4 = line_stamps(line_done, add_grid, pics.grid_line());
    let s5 = line_stamps(feed_lines(line_done, add_grid), add_blank, pics.blank_line());
    lemma_plain_stamps_at(c, 1, opaque);
    lemma_squares_stamps_at(advance(c, 1), pics.grid(), stroke_pictures(g));
    lemma_squares_stamps_at(after, pics.grid(), copies(full, f));
    lemma_line_stamps_at(line_done, add_grid, pics.grid_line());
    lemma_line_stamps_at(feed_lines(line_done, add_grid), add_blank, pics.blank_line());
    let stamps = kanji_stamps(pics, c, g, add_blank, add_grid);
    assert(stamps == s1 + s2 + s3 + s4 + s5);
    assert(s1[0] == stamps[0]);
    assert(stamps[0] == inner_stamp_at(c, 0, opaque));
    assert forall|j: nat| #[trigger] advance(advance(c, 1), j) == advance(c, 1 + j) by {
        lemma_advance_split(c, 1, j);
    }
    assert(stroke_pictures(g).len() == k);
    assert(copies(full, f).len() == f);
    assert(stamps.len() == 1 + 2 * k + 2 * f + add_grid + add_blank);
    assert forall|j: int| #![trigger g.strokes@[j]] 0 <= j < k implies stamps[1 + 2 * j] == grid_stamp_at(c, (1 + j) as nat, pics.grid())
        && stamps[2 + 2 * j] == inner_stamp_at(c, (1 + j) as nat, raw_picture(Pages::VIEWBOX_U, Pages::VIEWBOX_U, g.strokes@[j]@)) by {
        lemma_advance_split(c, 1, j as nat);
        assert(s2[2 * j] == grid_stamp_at(advance(c, 1), j as nat, pics.grid()));
        assert(s2[2 * j + 1] == inner_stamp_at(advance(c, 1), j as nat, stroke_pictures(g)[j]));
        assert(stamps[1 + 2 * j] == s2[2 * j]);
        assert(stamps[2 + 2 * j] == s2[2 * j + 1]);
    }
    assert forall|j: int| 0 <= j < f implies stamps[1 + 2 * k + 2 * j] == #[trigger] grid_stamp_at(after, j as nat, pics.grid())
        && stamps[2 + 2 * k + 2 * j] == inner_stamp_at(after, j as nat, full) by {
        assert(s3[2 * j] == grid_stamp_at(after, j as nat, pics.grid()));
        assert(s3[2 * j + 1] == inner_stamp_at(after, j as nat, copies(full, f)[j]));
        assert(stamps[1 + 2 * k + 2 * j] == s3[2 * j]);
        assert(stamps[2 + 2 * k + 2 * j] == s3[2 * j + 1]);
    }
    assert forall|i: int| 0 <= i < add_grid implies stamps[1 + 2 * k + 2 * f + i] == #[trigger] line_stamp_at(line_done, i as nat, pics.grid_line()) by {
        assert(s4[i] == line_stamp_at(line_done, i as nat, pics.grid_line()));
        assert(stamps[1 + 2 * k + 2 * f + i] == s4[i]);
    }
    assert forall|i: int| 0 <= i < add_blank implies stamps[1 + 2 * k + 2 * f + add_grid + i] == #[trigger] line_stamp_at(
        feed_lines(line_done, add_grid),
        i as nat,
        pics.blank_line(),
    ) by {
        assert(s5[i] == line_stamp_at(feed_lines(line_done, add_grid), i as nat, pics.blank_line()));
        assert(stamps[1 + 2 * k + 2 * f + add_grid + i] == s5[i]);
    }
}

} // verus!
