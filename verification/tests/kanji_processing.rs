use kanji_practice_sheet::arg_parsing::kanji_code;
use kanji_practice_sheet::arg_parsing::kanji_to_filename;
use kanji_practice_sheet::arg_parsing::kanji_to_hexcode;

#[test]
fn test_get_path() {
    let kanji_1 = kanji_to_filename('𦥑');
    let kanji_2 = kanji_to_filename('淌');
    assert_eq!(kanji_1, String::from("assets/svg/26951.svg"));
    assert_eq!(kanji_2, String::from("assets/svg/06dcc.svg"));
}

#[test]
fn hexcode_of_a_kanji() {
    assert_eq!(kanji_to_hexcode('淌'), "06dcc");
    assert_eq!(kanji_to_hexcode('漢'), "06f22");
    assert_eq!(kanji_to_hexcode('a'), "00061");
    assert_eq!(kanji_to_hexcode('𦥑'), "26951");
}

#[test]
fn hexcode_of_kanji_beyond_sixteen_bits() {
    assert_eq!(kanji_code('𠮟'), 0x20b9f);
    assert_eq!(kanji_to_hexcode('𠮟'), "20b9f");
    assert_eq!(kanji_to_hexcode('𠀋'), "2000b");
    assert_eq!(kanji_code('𦥑'), 0x26951);
    // The last plane has six digits; its characters keep sixteen bits.
    assert_eq!(kanji_to_hexcode('\u{10fffd}'), "0fffd");
}

#[test]
fn different_codes_have_different_stems() {
    let chars = ['淌', '漢', '字', '𦥑', 'a', '\u{0}', '\u{ffff}', '𠮟', '𠀋'];
    for a in chars {
        for b in chars {
            assert_eq!(kanji_to_hexcode(a) == kanji_to_hexcode(b), kanji_code(a) == kanji_code(b));
        }
    }
}
