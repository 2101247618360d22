//! The requests of the user interface and the messages that answer them.
use vstd::prelude::*;
use vstd::std_specs::iter::IteratorSpec;
use vstd::string::StringExecFns;

use crate::arg_parsing::push_char;
use crate::KanjiToPngErrors;

verus! {

/// A message to the user interface.
#[derive(Debug)]
pub enum AppMsg {
    /// Text to show, and whether it replaces the text shown so far.
    SendMessage(String, bool),
    /// The request is done; the form may be used again.
    End,
}

/// A message to the worker.
#[derive(Debug)]
pub enum AsyncHandlerMsg {
    Start(KanjiRequest),
}

/// The worker that makes the sheets.
pub struct AsyncHandler;

/// What the user asked for.
#[derive(Debug)]
pub struct KanjiRequest {
    pub kanjis: String,
    pub extra_grid: u16,
    pub extra_blank: u16,
    pub pdf: bool,
    pub png: bool,
    pub _opt_space: bool,
    pub _coloring: Option<String>,
}

/// The characters with the Unicode `White_Space` property.
pub open spec fn white_space(c: char) -> bool {
    let v = c as u32;
    ||| 0x09 <= v <= 0x0d
    ||| v == 0x20
    ||| v == 0x85
    ||| v == 0xa0
    ||| v == 0x1680
    ||| 0x2000 <= v <= 0x200a
    ||| v == 0x2028
    ||| v == 0x2029
    ||| v == 0x202f
    ||| v == 0x205f
    ||| v == 0x3000
}

/// Whether `c` is white space, by `char::is_whitespace`, which the
/// standard library documents as the Unicode `White_Space` property.
#[verifier::external_body]
fn is_whitespace(c: char) -> (r: bool)
    ensures
        r == white_space(c),
{
    c.is_whitespace()
}

/// The characters of `s` that are not white space, in order.
pub open spec fn without_white_space(s: Seq<char>) -> Seq<char>
    decreases s.len(),
{
    if s.len() == 0 {
        seq![]
    } else {
        let before = without_white_space(s.drop_last());
        if white_space(s.last()) {
            before
        } else {
            before.push(s.last())
        }
    }
}

/// Removing white space keeps, in order, exactly the characters that are
/// not white space: it is the sequence filtered by "not white space".
pub proof fn lemma_without_white_space_is_filter(s: Seq<char>)
    ensures
        without_white_space(s) == s.filter(|ch: char| !white_space(ch)),
    decreases s.len(),
{
    reveal(Seq::filter);
    if s.len() > 0 {
        lemma_without_white_space_is_filter(s.drop_last());
    }
}

/// A text without white space is left as it is: every character, repeated
/// ones too, is kept.
pub proof fn lemma_without_white_space_keeps_text(s: Seq<char>)
    requires
        forall|i: int| 0 <= i < s.len() ==> !white_space(#[trigger] s[i]),
    ensures
        without_white_space(s) == s,
    decreases s.len(),
{
    if s.len() > 0 {
        assert(forall|i: int| 0 <= i < s.drop_last().len() ==> s.drop_last()[i] == s[i]);
        lemma_without_white_space_keeps_text(s.drop_last());
        assert(s.drop_last().push(s.last()) =~= s);
    }
}

/// Removing white space from two texts put together is removing it from
/// each and putting the results together.
pub proof fn lemma_without_white_space_concat(a: Seq<char>, b: Seq<char>)
    ensures
        without_white_space(a + b) == without_white_space(a) + without_white_space(b),
    decreases b.len(),
{
    if b.len() == 0 {
        assert(a + b =~= a);
        assert(without_white_space(a) + without_white_space(b) =~= without_white_space(a));
    } else {
        lemma_without_white_space_concat(a, b.drop_last());
        assert((a + b).drop_last() =~= a + b.drop_last());
        assert((a + b).last() == b.last());
        let wa = without_white_space(a);
        let wb = without_white_space(b.drop_last());
        if !white_space(b.last()) {
            assert((wa + wb).push(b.last()) =~= wa + wb.push(b.last()));
        }
    }
}

/// The message shown when the answer to a request begins.
pub open spec fn starting_text() -> Seq<char> {
    "Starting..."@
}

/// The message shown when the pages cannot be made.
pub open spec fn pages_error_text() -> Seq<char> {
    "Error creating pages, aborting. \n Please contact with the used kanjis for troubleshooting."@
}

/// The message shown when a document of the given failure cannot be made.
pub open spec fn pdf_error_text(e: KanjiToPngErrors) -> Option<Seq<char>> {
    match e {
        KanjiToPngErrors::LoadFontError => Some("Error loading the font for PDF creation."@),
        KanjiToPngErrors::Undefined => Some("Error rendering the pdf file."@),
        KanjiToPngErrors::UnlikelyError => Some(
            "You shouldn't see this error message, please contact me with details of the kanjis used"@,
        ),
        KanjiToPngErrors::FileNotFound => None,
    }
}

/// The message shown when a request is done.
pub open spec fn completed_text() -> Seq<char> {
    "Completed\n"@
}

/// The message shown when some kanji had no stroke file.
pub open spec fn skipped_text() -> Seq<char> {
    "Skipped: {skipped}\n"@
}

/// `m` shows the text `t`, replacing what is shown when `replace` holds.
pub open spec fn shows(m: AppMsg, t: Seq<char>, replace: bool) -> bool {
    m matches AppMsg::SendMessage(s, b) && s@ == t && b == replace
}

impl AsyncHandler {
    /// The kanji of a request without the white space between them.
    pub fn strip_white_space(kanjis: &str) -> (r: String)
        ensures
            r@ == without_white_space(kanjis@),
            r@ == kanjis@.filter(|ch: char| !white_space(ch)),
    {
        proof {
            lemma_without_white_space_is_filter(kanjis@);
        }
        let mut r = String::new();
        for c in it: kanjis.chars()
            invariant
                it.seq() == kanjis@,
                r@ == without_white_space(kanjis@.take(it.index() as int)),
        {
            let ghost i = it.index() as int;
            assert(kanjis@.take(i + 1).drop_last() =~= kanjis@.take(i));
            assert(kanjis@.take(i + 1).last() == c);
            if !is_whitespace(c) {
                push_char(&mut r, c);
            }
        }
        assert(kanjis@.take(kanjis@.len() as int) =~= kanjis@);
        r
    }

    /// The kanji to draw and the numbers of dotted and of empty lines to
    /// add after each of them.
    pub fn sheet_request(req: &KanjiRequest) -> (r: (String, u16, u16))
        ensures
            r.0@ == without_white_space(req.kanjis@),
            r.1 == req.extra_grid,
            r.2 == req.extra_blank,
    {
        let kanjis = AsyncHandler::strip_white_space(req.kanjis.as_str());
        let add_grid = if req.extra_grid > 0 { req.extra_grid } else { 0 };
        let add_blank = if req.extra_blank > 0 { req.extra_blank } else { 0 };
        (kanjis, add_grid, add_blank)
    }

    /// The message that opens the answer to a request.
    pub fn starting_message() -> (m: AppMsg)
        ensures
            shows(m, starting_text(), true),
    {
        AppMsg::SendMessage(String::from_str("Starting..."), true)
    }

    /// The messages sent when the pages cannot be made: the error, then
    /// the end of the request.
    pub fn pages_failure_messages() -> (ms: Vec<AppMsg>)
        ensures
            ms@.len() == 2,
            shows(ms@[0], pages_error_text(), false),
            ms@[1] is End,
    {
        let mut ms = Vec::new();
        ms.push(
            AppMsg::SendMessage(
                String::from_str(
                    "Error creating pages, aborting. \n Please contact with the used kanjis for troubleshooting.",
                ),
                false,
            ),
        );
        ms.push(AppMsg::End);
        ms
    }

    /// The message sent when the document fails with `e`, if any, and
    /// whether the request goes on: it does when pictures are wanted too.
    pub fn pdf_failure(e: KanjiToPngErrors, png: bool) -> (r: (Option<AppMsg>, bool))
        ensures
            r.1 == png,
            match pdf_error_text(e) {
                Some(t) => r.0 matches Some(m) && shows(m, t, false),
                None => r.0 is None,
            },
    {
        let m = match e {
            KanjiToPngErrors::LoadFontError => Some(
                AppMsg::SendMessage(String::from_str("Error loading the font for PDF creation."), false),
            ),
            KanjiToPngErrors::Undefined => Some(
                AppMsg::SendMessage(String::from_str("Error rendering the pdf file."), false),
            ),
            KanjiToPngErrors::UnlikelyError => Some(
                AppMsg::SendMessage(
                    String::from_str(
                        "You shouldn't see this error message, please contact me with details of the kanjis used",
                    ),
                    false,
                ),
            ),
            KanjiToPngErrors::FileNotFound => None,
        };
        (m, png)
    }

    /// The kanji that had no stroke file, as one string.
    pub fn skipped_string(skipped: &Vec<char>) -> (s: String)
        ensures
            s@ == skipped@,
    {
        let mut s = String::new();
        for i in 0..skipped.len()
            invariant
                s@ == skipped@.take(i as int),
        {
            assert(skipped@.take(i + 1) =~= skipped@.take(i as int).push(skipped@[i as int]));
            push_char(&mut s, skipped[i]);
        }
        assert(skipped@.take(skipped@.len() as int) =~= skipped@);
        s
    }

    /// The messages that close a request that succeeded: done, the end of
    /// the request, then a notice when some kanji were skipped.
    pub fn completion_messages(skipped: &str) -> (ms: Vec<AppMsg>)
        ensures
            ms@.len() == if skipped@.len() == 0 { 2int } else { 3int },
            shows(ms@[0], completed_text(), true),
            ms@[1] is End,
            skipped@.len() != 0 ==> shows(ms@[2], skipped_text(), true),
    {
        let mut ms = Vec::new();
        ms.push(AppMsg::SendMessage(String::from_str("Completed\n"), true));
        ms.push(AppMsg::End);
        if skipped.unicode_len() != 0 {
            ms.push(AppMsg::SendMessage(String::from_str("Skipped: {skipped}\n"), true));
        }
        ms
    }
}

} // verus!
