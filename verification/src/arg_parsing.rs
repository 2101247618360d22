//! Names of the KanjiVG files: the hexadecimal code of a kanji.
use vstd::prelude::*;
use vstd::string::StringExecFns;

verus! {

/// The number a kanji's file is named after: its code point. The code
/// points of the last plane, above U+FFFFF, have six hexadecimal digits;
/// no file is named after them, and they keep their low sixteen bits.
pub open spec fn spec_kanji_code(c: char) -> u32 {
    if (c as u32) < 0x100000 {
        c as u32
    } else {
        ((c as u32) % 0x10000) as u32
    }
}

/// The lowercase hexadecimal digit of a value below sixteen.
pub open spec fn hex_digit(d: u32) -> char {
    if d < 10 {
        (48 + d) as char
    } else {
        (87 + d) as char
    }
}

/// The five-digit, zero-padded, lowercase hexadecimal numeral of `n`
/// (its five lowest nibbles, most significant first).
pub open spec fn hex5(n: u32) -> Seq<char> {
    seq![
        hex_digit((n >> 16u32) & 0xf),
        hex_digit((n >> 12u32) & 0xf),
        hex_digit((n >> 8u32) & 0xf),
        hex_digit((n >> 4u32) & 0xf),
        hex_digit(n & 0xf),
    ]
}

/// The stem of the file that holds the strokes of `c`.
pub open spec fn spec_hexcode(c: char) -> Seq<char> {
    hex5(spec_kanji_code(c))
}

/// The value of a lowercase hexadecimal digit: `0`-`9` and `a`-`f`; -1 for
/// any other character.
pub open spec fn hex_char_value(ch: char) -> int {
    let v = ch as u32;
    if 48 <= v <= 57 {
        v - 48
    } else if 97 <= v <= 102 {
        v - 97 + 10
    } else {
        -1
    }
}

/// The number a string of hexadecimal digits is the numeral of, most
/// significant digit first.
pub open spec fn hex_number(s: Seq<char>) -> int
    decreases s.len(),
{
    if s.len() == 0 {
        0
    } else {
        16 * hex_number(s.drop_last()) + hex_char_value(s.last())
    }
}

/// Appends one character to a string with `String::push`.
#[verifier::external_body]
pub fn push_char(s: &mut String, c: char)
    ensures
        final(s)@ == old(s)@.push(c),
{
    s.push(c);
}

fn hex_digit_char(d: u32) -> (c: char)
    requires
        d < 16,
    ensures
        c == hex_digit(d),
{
    if d < 10 {
        let b: u8 = 48u8 + (d as u8);
        b as char
    } else {
        let b: u8 = 87u8 + (d as u8);
        b as char
    }
}

/// The number a kanji's file is named after.
pub fn kanji_code(c: char) -> (n: u32)
    ensures
        n == spec_kanji_code(c),
        n < 0x100000,
{
    let v = c as u32;
    if v < 0x100000 {
        v
    } else {
        v % 0x10000
    }
}

/// Returns the hexadecimal UTF-8 code for the kanji, i.e. what appears
/// before .svg in the KanjiVG filenames.
pub fn kanji_to_hexcode(c: char) -> (s: String)
    ensures
        s@ == spec_hexcode(c),
        s@.len() == 5,
        forall|i: int| 0 <= i < 5 ==> 0 <= #[trigger] hex_char_value(s@[i]) < 16,
        hex_number(s@) == spec_kanji_code(c),
{
    proof {
        lemma_hexcode_reads_as_code(c);
    }
    let n = kanji_code(c);
    assert(((n >> 16u32) & 0xf) < 16 && ((n >> 12u32) & 0xf) < 16 && ((n >> 8u32) & 0xf) < 16
        && ((n >> 4u32) & 0xf) < 16 && (n & 0xf) < 16) by (bit_vector);
    let mut s = String::new();
    push_char(&mut s, hex_digit_char((n >> 16u32) & 0xf));
    push_char(&mut s, hex_digit_char((n >> 12u32) & 0xf));
    push_char(&mut s, hex_digit_char((n >> 8u32) & 0xf));
    push_char(&mut s, hex_digit_char((n >> 4u32) & 0xf));
    push_char(&mut s, hex_digit_char(n & 0xf));
    assert(s@ =~= hex5(n));
    s
}

/// The path of the KanjiVG file that holds the strokes of `c`.
pub open spec fn spec_filename(c: char) -> Seq<char> {
    "assets/svg/"@ + spec_hexcode(c) + ".svg"@
}

/// The path of the KanjiVG file that holds the strokes of `c`.
pub fn kanji_to_filename(c: char) -> (s: String)
    ensures
        s@ == spec_filename(c),
{
    let path_string = kanji_to_hexcode(c);
    let mut s = String::from_str("assets/svg/");
    s.append(path_string.as_str());
    s.append(".svg");
    s
}

/// Different numbers below `0x100000` have different numerals.
pub proof fn lemma_hex5_injective(a: u32, b: u32)
    requires
        a < 0x100000,
        b < 0x100000,
        hex5(a) == hex5(b),
    ensures
        a == b,
{
    assert(hex5(a)[0] == hex5(b)[0] && hex5(a)[1] == hex5(b)[1] && hex5(a)[2] == hex5(b)[2]
        && hex5(a)[3] == hex5(b)[3] && hex5(a)[4] == hex5(b)[4]);
    lemma_nibbles_below_sixteen(a);
    lemma_nibbles_below_sixteen(b);
    lemma_hex_digit_injective((a >> 16u32) & 0xf, (b >> 16u32) & 0xf);
    lemma_hex_digit_injective((a >> 12u32) & 0xf, (b >> 12u32) & 0xf);
    lemma_hex_digit_injective((a >> 8u32) & 0xf, (b >> 8u32) & 0xf);
    lemma_hex_digit_injective((a >> 4u32) & 0xf, (b >> 4u32) & 0xf);
    lemma_hex_digit_injective(a & 0xf, b & 0xf);
    assert(a == b) by (bit_vector)
        requires
            a < 0x100000,
            b < 0x100000,
            (a >> 16u32) & 0xf == (b >> 16u32) & 0xf,
            (a >> 12u32) & 0xf == (b >> 12u32) & 0xf,
            (a >> 8u32) & 0xf == (b >> 8u32) & 0xf,
            (a >> 4u32) & 0xf == (b >> 4u32) & 0xf,
            a & 0xf == b & 0xf,
    ;
}

proof fn lemma_hex_digit_injective(d: u32, e: u32)
    requires
        d < 16,
        e < 16,
        hex_digit(d) == hex_digit(e),
    ensures
        d == e,
{
}

/// The file stem of a kanji is five lowercase hexadecimal digits, and read
/// as a hexadecimal numeral it is the kanji's code.
pub proof fn lemma_hexcode_reads_as_code(c: char)
    ensures
        spec_hexcode(c).len() == 5,
        forall|i: int| 0 <= i < 5 ==> 0 <= #[trigger] hex_char_value(spec_hexcode(c)[i]) < 16,
        hex_number(spec_hexcode(c)) == spec_kanji_code(c),
{
    let n = spec_kanji_code(c);
    assert(n < 0x100000);
    let s = spec_hexcode(c);
    let d0 = (n >> 16u32) & 0xf;
    let d1 = (n >> 12u32) & 0xf;
    let d2 = (n >> 8u32) & 0xf;
    let d3 = (n >> 4u32) & 0xf;
    let d4 = n & 0xf;
    lemma_nibbles_below_sixteen(n);
    lemma_hex_digit_value(d0);
    lemma_hex_digit_value(d1);
    lemma_hex_digit_value(d2);
    lemma_hex_digit_value(d3);
    lemma_hex_digit_value(d4);
    assert(s[0] == hex_digit(d0) && s[1] == hex_digit(d1) && s[2] == hex_digit(d2) && s[3] == hex_digit(d3) && s[4] == hex_digit(d4));
    let t0 = Seq::<char>::empty();
    let t1 = t0.push(s[0]);
    let t2 = t1.push(s[1]);
    let t3 = t2.push(s[2]);
    let t4 = t3.push(s[3]);
    let t5 = t4.push(s[4]);
    assert(t5 =~= s);
    lemma_hex_number_push(t0, s[0]);
    lemma_hex_number_push(t1, s[1]);
    lemma_hex_number_push(t2, s[2]);
    lemma_hex_number_push(t3, s[3]);
    lemma_hex_number_push(t4, s[4]);
    assert(hex_number(s) == 65536 * d0 + 4096 * d1 + 256 * d2 + 16 * d3 + d4);
    assert(n == 65536 * ((n >> 16u32) & 0xf) + 4096 * ((n >> 12u32) & 0xf) + 256 * ((n >> 8u32) & 0xf) + 16 * ((n
        >> 4u32) & 0xf) + (n & 0xf)) by (bit_vector)
        requires
            n < 0x100000,
    ;
}

proof fn lemma_hex_number_push(s: Seq<char>, ch: char)
    ensures
        hex_number(s.push(ch)) == 16 * hex_number(s) + hex_char_value(ch),
{
    assert(s.push(ch).drop_last() =~= s);
}

proof fn lemma_hex_digit_value(d: u32)
    requires
        d < 16,
    ensures
        hex_char_value(hex_digit(d)) == d,
{
}

/// The file stem of a kanji names exactly its code: reading the stem back
/// gives the code of the kanji and no other number.
pub proof fn lemma_hexcode_names_code(c: char, n: u32)
    requires
        n < 0x100000,
    ensures
        hex5(n) == spec_hexcode(c) <==> n == spec_kanji_code(c),
{
    if hex5(n) == spec_hexcode(c) {
        lemma_hex5_injective(n, spec_kanji_code(c));
    }
}

proof fn lemma_nibbles_below_sixteen(n: u32)
    ensures
        (n >> 16u32) & 0xf < 16,
        (n >> 12u32) & 0xf < 16,
        (n >> 8u32) & 0xf < 16,
        (n >> 4u32) & 0xf < 16,
        n & 0xf < 16,
{
    assert((n >> 16u32) & 0xf < 16 && (n >> 12u32) & 0xf < 16 && (n >> 8u32) & 0xf < 16 && (n
        >> 4u32) & 0xf < 16 && n & 0xf < 16) by (bit_vector);
}

} // verus!
