//! Counting the strokes of a KanjiVG file: each stroke is one path.
use vstd::prelude::*;

verus! {

/// The settings of the SVG reader, among them the fonts it may use.
#[verifier::external_type_specification]
#[verifier::external_body]
pub struct ExOptions(usvg::Options);

/// Reads `svg_data` with `usvg::Tree::from_data` and tells, for each node
/// of the tree in document order, whether it is a path. Nothing is stated
/// of the result: text is turned into paths with the fonts of `opt`.
#[verifier::external_body]
fn path_flags(svg_data: &[u8], opt: &usvg::Options) -> Option<Vec<bool>> {
    let tree = usvg::Tree::from_data(svg_data, &opt.to_ref()).ok()?;
    let flags = tree.root().descendants().map(|node| matches!(*node.borrow(), usvg::NodeKind::Path(_)));
    Some(flags.collect())
}

/// The number of `true` in `flags`.
pub open spec fn count_true(flags: Seq<bool>) -> nat
    decreases flags.len(),
{
    if flags.len() == 0 {
        0
    } else {
        count_true(flags.drop_last()) + if flags.last() { 1nat } else { 0nat }
    }
}

proof fn lemma_count_true_bounded(flags: Seq<bool>)
    ensures
        count_true(flags) <= flags.len(),
    decreases flags.len(),
{
    if flags.len() > 0 {
        lemma_count_true_bounded(flags.drop_last());
    }
}

/// The number of paths among the nodes, given for each node whether it
/// is a path.
pub fn count_paths(flags: &Vec<bool>) -> (n: usize)
    ensures
        n == count_true(flags@),
{
    let mut n: usize = 0;
    for i in 0..flags.len()
        invariant
            n == count_true(flags@.take(i as int)),
    {
        proof {
            assert(flags@.take(i + 1).drop_last() =~= flags@.take(i as int));
            lemma_count_true_bounded(flags@.take(i + 1));
        }
        if flags[i] {
            n += 1;
        }
    }
    assert(flags@.take(flags@.len() as int) =~= flags@);
    n
}

/// The number of strokes of the kanji drawn by `svg_data`; none when the
/// file cannot be read.
pub fn stroke_count(svg_data: &[u8], opt: &usvg::Options) -> Option<usize> {
    match path_flags(svg_data, opt) {
        Some(flags) => Some(count_paths(&flags)),
        None => None,
    }
}

} // verus!
