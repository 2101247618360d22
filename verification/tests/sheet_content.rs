use std::collections::HashMap;

use kanji_practice_sheet::arg_parsing::kanji_to_hexcode;
use kanji_practice_sheet::create_pages;
use kanji_practice_sheet::pages::Pages;
use kanji_practice_sheet::pdf_creation::kanji_to_png;
use kanji_practice_sheet::Globals;
use kanji_practice_sheet::KanjiGlyph;
use kanji_practice_sheet::KanjiSvg;
use kanji_practice_sheet::KanjiToPngErrors;
use kanji_practice_sheet::SheetAssets;

const SQUARE: usize = 109 * 109 * 4;

fn png(width: u32, height: u32) -> Vec<u8> {
    let img = image::DynamicImage::new_rgba8(width, height);
    let mut bytes = Vec::new();
    img.write_to(&mut bytes, image::ImageOutputFormat::Png).unwrap();
    bytes
}

fn assets() -> SheetAssets {
    SheetAssets { blank_png: png(109, 109), sheet_png: png(1303, 1887), grid_png: png(109, 109) }
}

fn glyph(strokes: usize) -> KanjiSvg {
    KanjiSvg::Rendered(KanjiGlyph {
        opaque: vec![0u8; SQUARE],
        strokes: vec![vec![0u8; SQUARE]; strokes],
        full: vec![0u8; SQUARE],
    })
}

fn globals() -> Globals {
    let mut svgs = Vec::new();
    svgs.push((kanji_to_hexcode('漢'), glyph(3)));
    svgs.push((kanji_to_hexcode('字'), glyph(6)));
    svgs.push((kanji_to_hexcode('壊'), KanjiSvg::Unreadable));
    svgs.push((
        kanji_to_hexcode('誤'),
        KanjiSvg::Rendered(KanjiGlyph { opaque: vec![0u8; 10], strokes: vec![], full: vec![0u8; SQUARE] }),
    ));
    svgs.push((String::from("05b57-Kaisho"), glyph(2)));
    Globals { _stroke_map: HashMap::new(), svgs, assets: assets() }
}

fn sheet(data: &Globals) -> Pages {
    let mut pages = Pages::new(&data.assets.blank_png, &data.assets.sheet_png, &data.assets.grid_png).unwrap();
    pages.add_page();
    pages
}

#[test]
fn kanji_block_layout() {
    let data = globals();
    let mut pages = sheet(&data);
    assert_eq!(kanji_to_png(&mut pages, "06f22", 2, 1, &data), Ok(()));
    // 1 + 3 squares, rest of line, 1 dotted line, 2 empty lines, 20 pixels.
    assert_eq!(pages.position(), (60, 536, 0));
}

#[test]
fn kanji_block_without_extra_lines() {
    let data = globals();
    let mut pages = sheet(&data);
    assert_eq!(kanji_to_png(&mut pages, "05b57", 0, 0, &data), Ok(()));
    assert_eq!(pages.position(), (60, 194, 0));
}

#[test]
fn kanji_with_ten_squares_takes_two_lines() {
    let mut data = globals();
    data.svgs.push((kanji_to_hexcode('十'), glyph(9)));
    let mut pages = sheet(&data);
    assert_eq!(kanji_to_png(&mut pages, "05341", 0, 0, &data), Ok(()));
    assert_eq!(pages.position(), (60, 308, 0));
}

#[test]
fn kanji_of_a_variant_file() {
    let data = globals();
    let mut pages = sheet(&data);
    assert_eq!(kanji_to_png(&mut pages, "05b57-Kaisho", 0, 0, &data), Ok(()));
    // 1 + 2 squares, the rest of the line, then 20 pixels.
    assert_eq!(pages.position(), (60, 194, 0));
}

#[test]
fn kanji_without_file_needs_no_page() {
    let data = globals();
    let mut pages = Pages::new(&data.assets.blank_png, &data.assets.sheet_png, &data.assets.grid_png).unwrap();
    assert_eq!(kanji_to_png(&mut pages, "06dcc", 2, 1, &data), Err(KanjiToPngErrors::FileNotFound));
    assert_eq!(pages.imgs().len(), 0);
}

#[test]
fn more_extra_lines_never_fewer_pages() {
    let data = globals();
    let mut last = 0;
    for blank in [0u16, 2, 5, 9] {
        let (pages, _) = create_pages("漢字漢", blank, 1, &data).unwrap();
        assert!(pages.imgs().len() >= last);
        last = pages.imgs().len();
    }
    assert!(last > 1);
}

#[test]
fn kanji_without_file() {
    let data = globals();
    let mut pages = sheet(&data);
    assert_eq!(kanji_to_png(&mut pages, "06dcc", 2, 1, &data), Err(KanjiToPngErrors::FileNotFound));
    assert_eq!(kanji_to_png(&mut pages, "not a stem", 2, 1, &data), Err(KanjiToPngErrors::FileNotFound));
    assert_eq!(pages.position(), (60, 60, 0));
}

#[test]
fn kanji_with_unreadable_file() {
    let data = globals();
    let mut pages = sheet(&data);
    let path = kanji_practice_sheet::arg_parsing::kanji_to_hexcode('壊');
    assert_eq!(kanji_to_png(&mut pages, &path, 2, 1, &data), Err(KanjiToPngErrors::Undefined));
    assert_eq!(pages.position(), (60, 60, 0));
}

#[test]
fn kanji_with_broken_picture() {
    let data = globals();
    let mut pages = sheet(&data);
    let path = kanji_practice_sheet::arg_parsing::kanji_to_hexcode('誤');
    assert_eq!(kanji_to_png(&mut pages, &path, 2, 1, &data), Err(KanjiToPngErrors::UnlikelyError));
    assert_eq!(pages.position(), (60, 60, 0));
    assert_eq!(pages.imgs().len(), 1);
}

#[test]
fn create_pages_lists_missing_kanji() {
    let data = globals();
    let (pages, skipped) = create_pages("漢淌字壊誤淌", 0, 0, &data).unwrap();
    assert_eq!(skipped, vec!['淌', '淌']);
    // 漢 ends at y 194, 字 (7 squares) one line and 20 pixels lower.
    assert_eq!(pages.position(), (60, 328, 0));
    assert_eq!(pages.imgs().len(), 1);
}

#[test]
fn create_pages_on_empty_input() {
    let data = globals();
    let (pages, skipped) = create_pages("", 3, 3, &data).unwrap();
    assert!(skipped.is_empty());
    assert_eq!(pages.position(), (60, 60, 0));
    assert_eq!(pages.imgs().len(), 1);
}

#[test]
fn create_pages_adds_pages_as_needed() {
    let data = globals();
    // Each 漢 takes its line, 5 empty lines and 20 pixels: 704 pixels; the
    // third one reaches the bottom during its empty lines.
    let (pages, skipped) = create_pages("漢漢漢", 5, 0, &data).unwrap();
    assert!(skipped.is_empty());
    assert_eq!(pages.position(), (60, 422, 1));
    assert_eq!(pages.imgs().len(), 2);
}

#[test]
fn create_pages_fails_on_broken_assets() {
    let mut data = globals();
    data.assets.grid_png = vec![1, 2, 3];
    assert!(matches!(create_pages("漢", 0, 0, &data), Err(KanjiToPngErrors::UnlikelyError)));
}
