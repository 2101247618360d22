//! Where the next square of a sheet goes: the position of the drawing
//! cursor on the stack of pages, and how each move of the cursor changes it.
use vstd::prelude::*;

use crate::pages::Overflow;
use crate::pages::Pages;
use crate::raster::overlay_at;
use crate::raster::PictureView;

verus! {

/// The position of the drawing cursor: the top left corner `(x, y)` of the
/// current square, in pixels, on the page with index `layer`.
pub struct Cursor {
    pub x: int,
    pub y: int,
    pub layer: int,
}

/// The distance in pixels between the corners of neighbouring squares.
pub open spec fn pitch() -> int {
    Pages::CELL as int
}

/// The rightmost pixel column a square may reach.
pub open spec fn right_edge() -> int {
    Pages::WIDTH - Pages::X_OFFSET
}

/// The lowest pixel row a square may reach.
pub open spec fn bottom_edge() -> int {
    Pages::HEIGHT - Pages::Y_OFFSET
}

/// The cursor is on a square inside the printable area: its column is one of
/// the columns of the grid, and the square fits between the margins.
pub open spec fn cursor_ok(c: Cursor) -> bool {
    &&& Pages::X_OFFSET <= c.x
    &&& c.x + pitch() <= right_edge()
    &&& (c.x - Pages::X_OFFSET) % pitch() == 0
    &&& Pages::Y_OFFSET <= c.y
    &&& c.y + pitch() <= bottom_edge()
    &&& 0 <= c.layer
}

/// The first square of the first page.
pub open spec fn sheet_start() -> Cursor {
    Cursor { x: Pages::X_OFFSET as int, y: Pages::Y_OFFSET as int, layer: 0 }
}

/// The square to the right of the cursor.
pub open spec fn right_neighbour(c: Cursor) -> Cursor {
    Cursor { x: c.x + pitch(), y: c.y, layer: c.layer }
}

/// The first square of the line below the cursor, on the same page.
pub open spec fn line_below(c: Cursor) -> Cursor {
    Cursor { x: Pages::X_OFFSET as int, y: c.y + pitch(), layer: c.layer }
}

/// The square `k` columns to the right of the cursor.
pub open spec fn column_shift(c: Cursor, k: int) -> Cursor {
    Cursor { x: c.x + k * pitch(), y: c.y, layer: c.layer }
}

/// The first square of the next page.
pub open spec fn page_start(c: Cursor) -> Cursor {
    Cursor { x: Pages::X_OFFSET as int, y: Pages::Y_OFFSET as int, layer: c.layer + 1 }
}

/// The square after the current one: the next square to the right, or the
/// first square of the next line when no square fits to the right, or the
/// first square of the next page when no line fits below.
pub open spec fn step(c: Cursor) -> Cursor {
    if c.x + 2 * pitch() <= right_edge() {
        right_neighbour(c)
    } else if c.y + 2 * pitch() <= bottom_edge() {
        line_below(c)
    } else {
        page_start(c)
    }
}

/// What [`step`] changes besides the column: nothing, the line, or the page.
pub open spec fn overflow_of(c: Cursor) -> Overflow {
    if c.x + 2 * pitch() <= right_edge() {
        Overflow::Unchanged
    } else if c.y + 2 * pitch() <= bottom_edge() {
        Overflow::ChangedLine
    } else {
        Overflow::ChangedPage
    }
}

/// The start of a line `gap` pixels below the current one, or the first
/// square of the next page when no square fits there.
pub open spec fn line_feed(c: Cursor, gap: int) -> Cursor {
    if c.y + gap + pitch() <= bottom_edge() {
        Cursor { x: Pages::X_OFFSET as int, y: c.y + gap, layer: c.layer }
    } else {
        page_start(c)
    }
}

/// The cursor after `n` squares.
pub open spec fn advance(c: Cursor, n: nat) -> Cursor
    decreases n,
{
    if n == 0 {
        c
    } else {
        advance(step(c), (n - 1) as nat)
    }
}

/// The cursor after `n` full lines of squares.
pub open spec fn feed_lines(c: Cursor, n: nat) -> Cursor
    decreases n,
{
    if n == 0 {
        c
    } else {
        feed_lines(line_feed(c, pitch()), (n - 1) as nat)
    }
}

/// The number of squares from the cursor to the end of its line, the
/// cursor's own square included.
pub open spec fn squares_left_in_line(c: Cursor) -> int {
    (right_edge() - c.x) / pitch()
}

proof fn lemma_next_column(x: int)
    requires
        (x - Pages::X_OFFSET) % pitch() == 0,
    ensures
        (x + pitch() - Pages::X_OFFSET) % pitch() == 0,
{
    assert((x + 114 - 60) % 114 == 0) by (nonlinear_arith)
        requires
            (x - 60) % 114 == 0,
    ;
}

/// One more square after `n` squares.
pub proof fn lemma_advance_one_more(c: Cursor, n: nat)
    ensures
        advance(c, n + 1) == step(advance(c, n)),
    decreases n,
{
    if n > 0 {
        lemma_advance_one_more(step(c), (n - 1) as nat);
    } else {
        reveal_with_fuel(advance, 2);
    }
}

/// One more line after `n` lines.
pub proof fn lemma_feed_one_more(c: Cursor, n: nat)
    ensures
        feed_lines(c, n + 1) == line_feed(feed_lines(c, n), pitch()),
    decreases n,
{
    if n > 0 {
        lemma_feed_one_more(line_feed(c, pitch()), (n - 1) as nat);
    } else {
        reveal_with_fuel(feed_lines, 2);
    }
}

/// Squares can be counted in two runs.
pub proof fn lemma_advance_split(c: Cursor, a: nat, b: nat)
    ensures
        advance(c, a + b) == advance(advance(c, a), b),
    decreases a,
{
    if a > 0 {
        lemma_advance_split(step(c), (a - 1) as nat, b);
        assert(a + b - 1 == (a - 1) + b);
    }
}

/// Every move keeps the cursor on a square inside the printable area.
pub proof fn lemma_moves_keep_cursor_ok(c: Cursor, gap: int, n: nat)
    requires
        cursor_ok(c),
        0 <= gap,
    ensures
        cursor_ok(step(c)),
        cursor_ok(line_feed(c, gap)),
        cursor_ok(advance(c, n)),
        cursor_ok(feed_lines(c, n)),
        c.layer <= step(c).layer,
        c.layer <= line_feed(c, gap).layer,
        c.layer <= advance(c, n).layer,
        c.layer <= feed_lines(c, n).layer,
    decreases n,
{
    lemma_next_column(c.x);
    if n > 0 {
        lemma_moves_keep_cursor_ok(step(c), gap, (n - 1) as nat);
        lemma_moves_keep_cursor_ok(line_feed(c, pitch()), gap, (n - 1) as nat);
    }
}

/// The look-ahead tells what the next move does: with `Unchanged` the cursor
/// stays on its line, with `ChangedLine` it goes to the start of the next
/// line of the same page, with `ChangedPage` to the first square of the
/// next page.
pub proof fn lemma_overflow_predicts_step(c: Cursor)
    requires
        cursor_ok(c),
    ensures
        overflow_of(c) == Overflow::Unchanged <==> step(c) == right_neighbour(c),
        overflow_of(c) == Overflow::ChangedLine <==> step(c) == line_below(c),
        overflow_of(c) == Overflow::ChangedPage <==> step(c) == page_start(c),
{
}

/// Each line holds ten squares: from the start of a line, nine steps stay
/// on it and the tenth goes where a line feed goes.
pub proof fn lemma_ten_squares_per_line(c: Cursor)
    requires
        cursor_ok(c),
        c.x == Pages::X_OFFSET,
    ensures
        squares_left_in_line(c) == Pages::N_SQUARE_PER_LINE,
        forall|k: nat| k < Pages::N_SQUARE_PER_LINE ==> #[trigger] advance(c, k) == column_shift(c, k as int),
        advance(c, Pages::N_SQUARE_PER_LINE as nat) == line_feed(c, pitch()),
{
    reveal_with_fuel(advance, 11);
}

/// From the start of a line, `10 * k` squares go where `k` line feeds go.
pub proof fn lemma_lines_of_squares(c: Cursor, k: nat)
    requires
        cursor_ok(c),
        c.x == Pages::X_OFFSET,
    ensures
        advance(c, (Pages::N_SQUARE_PER_LINE * k) as nat) == feed_lines(c, k),
    decreases k,
{
    if k > 0 {
        lemma_ten_squares_per_line(c);
        lemma_moves_keep_cursor_ok(c, pitch(), 0);
        let rest = (Pages::N_SQUARE_PER_LINE * ((k - 1) as nat)) as nat;
        assert(Pages::N_SQUARE_PER_LINE * k == 10 + rest);
        lemma_advance_split(c, 10, rest);
        lemma_lines_of_squares(line_feed(c, pitch()), (k - 1) as nat);
    }
}

/// A page holds fifteen lines of ten squares: from the first square of a
/// page, fourteen line feeds stay on it and the fifteenth, like the
/// hundred and fiftieth square, goes to the first square of the next page.
pub proof fn lemma_page_capacity(c: Cursor)
    requires
        cursor_ok(c),
        c.x == Pages::X_OFFSET,
        c.y == Pages::Y_OFFSET,
    ensures
        feed_lines(c, 14).layer == c.layer,
        feed_lines(c, 15) == page_start(c),
        advance(c, (15 * Pages::N_SQUARE_PER_LINE) as nat) == page_start(c),
{
    reveal_with_fuel(feed_lines, 16);
    lemma_lines_of_squares(c, 15);
    assert(15 * Pages::N_SQUARE_PER_LINE == Pages::N_SQUARE_PER_LINE * 15);
}

/// A picture blended onto a page at a position.
pub struct Stamp {
    pub page: int,
    pub picture: PictureView,
    pub x: int,
    pub y: int,
}

/// The pages after the picture of `s` is blended onto page `s.page`.
pub open spec fn apply_stamp(pages: Seq<PictureView>, s: Stamp) -> Seq<PictureView> {
    if 0 <= s.page < pages.len() {
        pages.update(s.page, overlay_at(pages[s.page], s.picture, s.x, s.y))
    } else {
        pages
    }
}

/// The pages after the stamps are blended on, one after the other.
pub open spec fn apply_stamps(pages: Seq<PictureView>, stamps: Seq<Stamp>) -> Seq<PictureView>
    decreases stamps.len(),
{
    if stamps.len() == 0 {
        pages
    } else {
        apply_stamp(apply_stamps(pages, stamps.drop_last()), stamps.last())
    }
}

/// Every stamp goes on one of the first `n` pages.
pub open spec fn stamps_within(stamps: Seq<Stamp>, n: int) -> bool {
    forall|i: int| 0 <= i < stamps.len() ==> 0 <= #[trigger] stamps[i].page < n
}

/// `n` empty pages.
pub open spec fn blank_pages(blank: PictureView, n: nat) -> Seq<PictureView> {
    Seq::new(n, |i: int| blank)
}

/// `n` copies of a picture.
pub open spec fn copies(picture: PictureView, n: nat) -> Seq<PictureView> {
    Seq::new(n, |i: int| picture)
}

/// A square drawn at the cursor: the dotted square, then the picture three
/// pixels inside it.
pub open spec fn square_stamps(c: Cursor, grid: PictureView, picture: PictureView) -> Seq<Stamp> {
    seq![
        Stamp { page: c.layer, picture: grid, x: c.x, y: c.y },
        Stamp { page: c.layer, picture: picture, x: c.x + 3, y: c.y + 3 },
    ]
}

/// One square per picture, from the cursor on.
pub open spec fn squares_stamps(c: Cursor, grid: PictureView, pictures: Seq<PictureView>) -> Seq<Stamp>
    decreases pictures.len(),
{
    if pictures.len() == 0 {
        seq![]
    } else {
        squares_stamps(c, grid, pictures.drop_last()) + square_stamps(
            advance(c, (pictures.len() - 1) as nat),
            grid,
            pictures.last(),
        )
    }
}

/// The picture three pixels inside each of `n` squares from the cursor
/// on, with no dotted square.
pub open spec fn plain_stamps(c: Cursor, n: nat, picture: PictureView) -> Seq<Stamp>
    decreases n,
{
    if n == 0 {
        seq![]
    } else {
        let at = advance(c, (n - 1) as nat);
        plain_stamps(c, (n - 1) as nat, picture).push(Stamp { page: at.layer, picture: picture, x: at.x + 3, y: at.y + 3 })
    }
}

/// A line picture at the cursor and at each of the next `n - 1` lines.
pub open spec fn line_stamps(c: Cursor, n: nat, line: PictureView) -> Seq<Stamp>
    decreases n,
{
    if n == 0 {
        seq![]
    } else {
        let at = feed_lines(c, (n - 1) as nat);
        line_stamps(c, (n - 1) as nat, line).push(Stamp { page: at.layer, picture: line, x: at.x, y: at.y })
    }
}

/// Stamping keeps the number of pages.
pub proof fn lemma_apply_stamps_len(pages: Seq<PictureView>, stamps: Seq<Stamp>)
    ensures
        apply_stamps(pages, stamps).len() == pages.len(),
    decreases stamps.len(),
{
    if stamps.len() > 0 {
        lemma_apply_stamps_len(pages, stamps.drop_last());
    }
}

/// Stamping in two rounds is stamping with both lists.
pub proof fn lemma_apply_stamps_concat(pages: Seq<PictureView>, s1: Seq<Stamp>, s2: Seq<Stamp>)
    ensures
        apply_stamps(pages, s1 + s2) == apply_stamps(apply_stamps(pages, s1), s2),
    decreases s2.len(),
{
    if s2.len() == 0 {
        assert(s1 + s2 =~= s1);
    } else {
        assert((s1 + s2).drop_last() =~= s1 + s2.drop_last());
        lemma_apply_stamps_concat(pages, s1, s2.drop_last());
    }
}

/// Pages added after the stamped ones are left as they are.
pub proof fn lemma_apply_stamps_extend(pages: Seq<PictureView>, more: Seq<PictureView>, stamps: Seq<Stamp>)
    requires
        stamps_within(stamps, pages.len() as int),
    ensures
        apply_stamps(pages + more, stamps) == apply_stamps(pages, stamps) + more,
    decreases stamps.len(),
{
    if stamps.len() > 0 {
        let rest = stamps.drop_last();
        assert(stamps_within(rest, pages.len() as int)) by {
            assert forall|i: int| 0 <= i < rest.len() implies 0 <= #[trigger] rest[i].page < pages.len() by {
                assert(rest[i] == stamps[i]);
            }
        }
        lemma_apply_stamps_extend(pages, more, rest);
        lemma_apply_stamps_len(pages, rest);
        let s = stamps.last();
        assert(stamps[stamps.len() - 1] == s);
        let a = apply_stamps(pages, rest);
        assert(apply_stamp(a + more, s) =~= apply_stamp(a, s) + more);
    }
}

/// `a` is on an earlier page than `b`, or on the same page and not lower.
pub open spec fn before_or_at(a: Cursor, b: Cursor) -> bool {
    a.layer < b.layer || (a.layer == b.layer && a.y <= b.y)
}

/// A line feed from a cursor that is not further keeps that order.
pub proof fn lemma_line_feed_monotone(a: Cursor, b: Cursor, gap: int)
    requires
        cursor_ok(a),
        cursor_ok(b),
        0 <= gap,
        before_or_at(a, b),
    ensures
        before_or_at(line_feed(a, gap), line_feed(b, gap)),
{
}

/// Line feeds from cursors in order stay in order.
pub proof fn lemma_feed_lines_monotone(a: Cursor, b: Cursor, n: nat)
    requires
        cursor_ok(a),
        cursor_ok(b),
        before_or_at(a, b),
    ensures
        before_or_at(feed_lines(a, n), feed_lines(b, n)),
    decreases n,
{
    if n > 0 {
        lemma_line_feed_monotone(a, b, pitch());
        lemma_moves_keep_cursor_ok(a, pitch(), 0);
        lemma_moves_keep_cursor_ok(b, pitch(), 0);
        lemma_feed_lines_monotone(line_feed(a, pitch()), line_feed(b, pitch()), (n - 1) as nat);
    }
}

/// More line feeds never end higher up or on an earlier page.
pub proof fn lemma_more_lines_further(c: Cursor, m: nat, n: nat)
    requires
        cursor_ok(c),
        m <= n,
    ensures
        before_or_at(feed_lines(c, m), feed_lines(c, n)),
    decreases n,
{
    if m < n {
        lemma_more_lines_further(c, m, (n - 1) as nat);
        lemma_feed_one_more(c, (n - 1) as nat);
        lemma_moves_keep_cursor_ok(c, 0, (n - 1) as nat);
    }
}

/// Every stamp goes on page `layer` or a later one.
pub open spec fn stamps_from(stamps: Seq<Stamp>, layer: int) -> bool {
    forall|i: int| 0 <= i < stamps.len() ==> layer <= #[trigger] stamps[i].page
}

/// Two lists of stamps on later pages make one.
pub proof fn lemma_stamps_from_concat(s1: Seq<Stamp>, s2: Seq<Stamp>, layer: int)
    requires
        stamps_from(s1, layer),
        stamps_from(s2, layer),
    ensures
        stamps_from(s1 + s2, layer),
{
    assert forall|i: int| 0 <= i < (s1 + s2).len() implies layer <= #[trigger] (s1 + s2)[i].page by {
        if i < s1.len() {
            assert((s1 + s2)[i] == s1[i]);
        } else {
            assert((s1 + s2)[i] == s2[i - s1.len()]);
        }
    }
}

/// The squares from a cursor go on its page or later ones.
pub proof fn lemma_squares_stamps_from(c: Cursor, grid: PictureView, pictures: Seq<PictureView>)
    requires
        cursor_ok(c),
    ensures
        stamps_from(squares_stamps(c, grid, pictures), c.layer),
    decreases pictures.len(),
{
    if pictures.len() > 0 {
        lemma_squares_stamps_from(c, grid, pictures.drop_last());
        let at = advance(c, (pictures.len() - 1) as nat);
        lemma_moves_keep_cursor_ok(c, 0, (pictures.len() - 1) as nat);
        let last = square_stamps(at, grid, pictures.last());
        assert(stamps_from(last, c.layer)) by {
            assert forall|i: int| 0 <= i < last.len() implies c.layer <= #[trigger] last[i].page by {
                assert(last[i].page == at.layer);
            }
        }
        lemma_stamps_from_concat(squares_stamps(c, grid, pictures.drop_last()), last, c.layer);
    }
}

/// The plain squares from a cursor go on its page or later ones.
pub proof fn lemma_plain_stamps_from(c: Cursor, n: nat, picture: PictureView)
    requires
        cursor_ok(c),
    ensures
        stamps_from(plain_stamps(c, n, picture), c.layer),
    decreases n,
{
    if n > 0 {
        lemma_plain_stamps_from(c, (n - 1) as nat, picture);
        lemma_moves_keep_cursor_ok(c, 0, (n - 1) as nat);
        let s = plain_stamps(c, n, picture);
        assert forall|i: int| 0 <= i < s.len() implies c.layer <= #[trigger] s[i].page by {
            let prev = plain_stamps(c, (n - 1) as nat, picture);
            if i < prev.len() {
                assert(s[i] == prev[i]);
            }
        }
    }
}

/// The lines from a cursor go on its page or later ones.
pub proof fn lemma_line_stamps_from(c: Cursor, n: nat, line: PictureView)
    requires
        cursor_ok(c),
    ensures
        stamps_from(line_stamps(c, n, line), c.layer),
    decreases n,
{
    if n > 0 {
        lemma_line_stamps_from(c, (n - 1) as nat, line);
        lemma_moves_keep_cursor_ok(c, 0, (n - 1) as nat);
        let s = line_stamps(c, n, line);
        assert forall|i: int| 0 <= i < s.len() implies c.layer <= #[trigger] s[i].page by {
            let prev = line_stamps(c, (n - 1) as nat, line);
            if i < prev.len() {
                assert(s[i] == prev[i]);
            }
        }
    }
}

/// A page that no stamp goes on stays as it was.
pub proof fn lemma_apply_stamps_untouched(pages: Seq<PictureView>, stamps: Seq<Stamp>, j: int)
    requires
        0 <= j < pages.len(),
        forall|i: int| 0 <= i < stamps.len() ==> #[trigger] stamps[i].page != j,
    ensures
        apply_stamps(pages, stamps)[j] == pages[j],
    decreases stamps.len(),
{
    if stamps.len() > 0 {
        let rest = stamps.drop_last();
        assert forall|i: int| 0 <= i < rest.len() implies #[trigger] rest[i].page != j by {
            assert(rest[i] == stamps[i]);
        }
        lemma_apply_stamps_untouched(pages, rest, j);
        lemma_apply_stamps_len(pages, rest);
        assert(stamps[stamps.len() - 1] == stamps.last());
    }
}

/// The line drawn `k` lines below the cursor.
pub open spec fn line_stamp_at(c: Cursor, k: nat, line: PictureView) -> Stamp {
    let at = feed_lines(c, k);
    Stamp { page: at.layer, picture: line, x: at.x, y: at.y }
}

/// The `k`-th of `n` lines is drawn at the cursor after `k` line feeds, on
/// that cursor's page: each line goes one line below the one before.
pub proof fn lemma_line_stamps_at(c: Cursor, n: nat, line: PictureView)
    ensures
        line_stamps(c, n, line).len() == n,
        forall|k: int| 0 <= k < n ==> #[trigger] line_stamps(c, n, line)[k] == line_stamp_at(c, k as nat, line),
    decreases n,
{
    if n > 0 {
        lemma_line_stamps_at(c, (n - 1) as nat, line);
        let prev = line_stamps(c, (n - 1) as nat, line);
        assert forall|k: int| 0 <= k < n implies #[trigger] line_stamps(c, n, line)[k] == line_stamp_at(c, k as nat, line) by {
            if k < n - 1 {
                assert(line_stamps(c, n, line)[k] == prev[k]);
            }
        }
    }
}

/// The picture drawn three pixels inside the square `k` squares after the
/// cursor.
pub open spec fn inner_stamp_at(c: Cursor, k: nat, picture: PictureView) -> Stamp {
    let at = advance(c, k);
    Stamp { page: at.layer, picture: picture, x: at.x + 3, y: at.y + 3 }
}

/// The dotted square drawn at the square `k` squares after the cursor.
pub open spec fn grid_stamp_at(c: Cursor, k: nat, grid: PictureView) -> Stamp {
    let at = advance(c, k);
    Stamp { page: at.layer, picture: grid, x: at.x, y: at.y }
}

/// The `k`-th of `n` plain squares goes three pixels inside the square `k`
/// squares after the cursor.
pub proof fn lemma_plain_stamps_at(c: Cursor, n: nat, picture: PictureView)
    ensures
        plain_stamps(c, n, picture).len() == n,
        forall|k: int| 0 <= k < n ==> #[trigger] plain_stamps(c, n, picture)[k] == inner_stamp_at(c, k as nat, picture),
    decreases n,
{
    if n > 0 {
        lemma_plain_stamps_at(c, (n - 1) as nat, picture);
        let prev = plain_stamps(c, (n - 1) as nat, picture);
        assert forall|k: int| 0 <= k < n implies #[trigger] plain_stamps(c, n, picture)[k] == inner_stamp_at(c, k as nat, picture) by {
            if k < n - 1 {
                assert(plain_stamps(c, n, picture)[k] == prev[k]);
            }
        }
    }
}

/// The `k`-th picture goes on the square `k` squares after the cursor: first
/// the dotted square there, then the picture three pixels inside it, in
/// the order of the pictures.
pub proof fn lemma_squares_stamps_at(c: Cursor, grid: PictureView, pictures: Seq<PictureView>)
    ensures
        squares_stamps(c, grid, pictures).len() == 2 * pictures.len(),
        forall|k: int| 0 <= k < pictures.len() ==> #[trigger] squares_stamps(c, grid, pictures)[2 * k] == grid_stamp_at(c, k as nat, grid),
        forall|k: int| 0 <= k < pictures.len() ==> #[trigger] squares_stamps(c, grid, pictures)[2 * k + 1] == inner_stamp_at(c, k as nat, pictures[k]),
    decreases pictures.len(),
{
    if pictures.len() > 0 {
        let rest = pictures.drop_last();
        lemma_squares_stamps_at(c, grid, rest);
        let prev = squares_stamps(c, grid, rest);
        let all = squares_stamps(c, grid, pictures);
        let n = pictures.len() - 1;
        assert forall|k: int| 0 <= k < pictures.len() implies #[trigger] all[2 * k] == grid_stamp_at(c, k as nat, grid) by {
            if k < n {
                assert(all[2 * k] == prev[2 * k]);
            }
        }
        assert forall|k: int| 0 <= k < pictures.len() implies #[trigger] all[2 * k + 1] == inner_stamp_at(c, k as nat, pictures[k]) by {
            if k < n {
                assert(all[2 * k + 1] == prev[2 * k + 1]);
                assert(rest[k] == pictures[k]);
            }
        }
    }
}

} // verus!
