use kanji_practice_sheet::pages::BgType;
use kanji_practice_sheet::pages::Overflow;
use kanji_practice_sheet::pages::Pages;
use kanji_practice_sheet::raster::Picture;
use kanji_practice_sheet::KanjiToPngErrors;

fn png(width: u32, height: u32) -> Vec<u8> {
    let img = image::DynamicImage::new_rgba8(width, height);
    let mut bytes = Vec::new();
    img.write_to(&mut bytes, image::ImageOutputFormat::Png).unwrap();
    bytes
}

fn sheet() -> Pages {
    let mut pages = Pages::new(&png(109, 109), &png(1303, 1887), &png(109, 109)).unwrap();
    pages.add_page();
    pages
}

fn square() -> Picture {
    Picture { width: 109, height: 109, pixels: vec![0u8; 109 * 109 * 4] }
}

fn coloured(width: u32, height: u32, rgba: [u8; 4]) -> image::RgbaImage {
    image::RgbaImage::from_pixel(width, height, image::Rgba(rgba))
}

fn png_of(img: &image::RgbaImage) -> Vec<u8> {
    let mut bytes = Vec::new();
    image::DynamicImage::ImageRgba8(img.clone()).write_to(&mut bytes, image::ImageOutputFormat::Png).unwrap();
    bytes
}

fn picture(img: &image::RgbaImage) -> Picture {
    Picture { width: img.width(), height: img.height(), pixels: img.as_raw().clone() }
}

#[test]
fn new_sheet_starts_at_the_first_square() {
    let pages = Pages::new(&png(109, 109), &png(1303, 1887), &png(109, 109)).unwrap();
    assert_eq!(pages.position(), (60, 60, 0));
    assert_eq!(pages.imgs().len(), 0);
}

#[test]
fn new_sheet_fails_on_a_picture_that_is_no_png() {
    let res = Pages::new(&png(109, 109), b"not a png", &png(109, 109));
    assert!(matches!(res, Err(KanjiToPngErrors::UnlikelyError)));
}

#[test]
fn add_page_adds_one_page() {
    let mut pages = sheet();
    assert_eq!(pages.imgs().len(), 1);
    pages.add_page();
    assert_eq!(pages.imgs().len(), 2);
    assert_eq!(pages.position(), (60, 60, 0));
}

#[test]
fn ten_squares_per_line() {
    let mut pages = sheet();
    for k in 0..9u32 {
        assert_eq!(pages.peek_next(), Overflow::Unchanged);
        pages.next();
        assert_eq!(pages.position(), (60 + 114 * (k + 1), 60, 0));
    }
    assert_eq!(pages.peek_next(), Overflow::ChangedLine);
    pages.next();
    assert_eq!(pages.position(), (60, 174, 0));
}

#[test]
fn fifteen_lines_per_page() {
    let mut pages = sheet();
    let img = square();
    for _ in 0..149 {
        pages.draw_svg(&img);
    }
    assert_eq!(pages.position(), (1086, 1656, 0));
    assert_eq!(pages.peek_next(), Overflow::ChangedPage);
    pages.draw_svg(&img);
    assert_eq!(pages.position(), (60, 60, 1));
    assert_eq!(pages.imgs().len(), 2);
}

#[test]
fn peek_next_tells_what_next_does() {
    let mut pages = sheet();
    let img = square();
    for _ in 0..400 {
        let (x, y, layer) = pages.position();
        let expected = pages.peek_next();
        pages.draw_svg(&img);
        let (x2, y2, layer2) = pages.position();
        match expected {
            Overflow::Unchanged => assert_eq!((x2, y2, layer2), (x + 114, y, layer)),
            Overflow::ChangedLine => assert_eq!((x2, y2, layer2), (60, y + 114, layer)),
            Overflow::ChangedPage => assert_eq!((x2, y2, layer2), (60, 60, layer + 1)),
        }
        assert_eq!(pages.imgs().len(), layer2 + 1);
        assert!(60 <= x2 && x2 + 114 <= 1243 && (x2 - 60) % 114 == 0);
        assert!(60 <= y2 && y2 + 114 <= 1827);
    }
}

#[test]
fn new_line_moves_down_by_the_gap() {
    let mut pages = sheet();
    pages.next();
    pages.new_line(20);
    assert_eq!(pages.position(), (60, 80, 0));
    pages.new_line(114);
    assert_eq!(pages.position(), (60, 194, 0));
}

#[test]
fn new_line_past_the_bottom_starts_a_page() {
    let mut pages = sheet();
    pages.new_line(1656 - 60);
    assert_eq!(pages.position(), (60, 1656, 0));
    pages.new_line(114);
    assert_eq!(pages.position(), (60, 60, 1));
    assert_eq!(pages.imgs().len(), 2);
    pages.new_line(100_000);
    assert_eq!(pages.position(), (60, 60, 2));
}

#[test]
fn fill_line_ends_at_the_start_of_the_next_line() {
    let mut pages = sheet();
    let img = square();
    for _ in 0..3 {
        pages.draw_svg(&img);
    }
    assert_eq!(pages.position(), (402, 60, 0));
    pages.fill_line(&img);
    assert_eq!(pages.position(), (60, 174, 0));
    // From the first square the whole line is filled.
    pages.fill_line(&img);
    assert_eq!(pages.position(), (60, 288, 0));
}

#[test]
fn fill_line_on_the_last_line_starts_a_page() {
    let mut pages = sheet();
    let img = square();
    pages.new_line(1656 - 60);
    pages.fill_line(&img);
    assert_eq!(pages.position(), (60, 60, 1));
    assert_eq!(pages.imgs().len(), 2);
}

#[test]
fn full_lines_move_one_line_each() {
    let mut pages = sheet();
    pages.next();
    pages.draw_n_full_lines(BgType::Grid, 2);
    assert_eq!(pages.position(), (60, 288, 0));
    pages.draw_n_full_lines(BgType::Blank, 3);
    assert_eq!(pages.position(), (60, 630, 0));
    pages.draw_n_full_lines(BgType::Blank, 0);
    assert_eq!(pages.position(), (60, 630, 0));
    pages.draw_n_full_lines(BgType::Grid, 15);
    assert_eq!(pages.position(), (60, 60 + 114 * 5, 1));
}

#[test]
fn draw_full_opaque_draws_i_squares() {
    let mut pages = sheet();
    let rgba = vec![255u8; 109 * 109 * 4];
    assert!(pages.draw_full_opaque(&rgba, 3).is_ok());
    assert_eq!(pages.position(), (402, 60, 0));
    assert!(pages.draw_full_opaque(&rgba, 0).is_ok());
    assert_eq!(pages.position(), (402, 60, 0));
}

#[test]
fn draw_full_opaque_refuses_short_pixels() {
    let mut pages = sheet();
    let rgba = vec![255u8; 109 * 109 * 4 - 1];
    assert_eq!(pages.draw_full_opaque(&rgba, 3), Err(KanjiToPngErrors::UnlikelyError));
    assert_eq!(pages.position(), (60, 60, 0));
    assert_eq!(pages.imgs().len(), 1);
}

#[test]
fn drawing_changes_only_the_current_page() {
    let mut pages = sheet();
    let blank = pages.imgs()[0].pixels.clone();
    let red = picture(&coloured(109, 109, [255, 0, 0, 255]));
    pages.add_page();
    pages.draw_svg(&red);
    assert_ne!(pages.imgs()[0].pixels, blank);
    assert_eq!(pages.imgs()[1].pixels, blank);
}

#[test]
fn a_square_is_the_grid_then_the_picture() {
    let sheet_img = coloured(1303, 1887, [255, 255, 255, 255]);
    let grid_img = coloured(109, 109, [0, 0, 255, 128]);
    let blank_img = coloured(109, 109, [0, 255, 0, 255]);
    let mut pages = Pages::new(&png_of(&blank_img), &png_of(&sheet_img), &png_of(&grid_img)).unwrap();
    pages.add_page();
    let red = coloured(109, 109, [255, 0, 0, 128]);
    pages.next();
    pages.draw_svg(&picture(&red));

    let mut expected = sheet_img.clone();
    image::imageops::overlay(&mut expected, &grid_img, 174, 60);
    image::imageops::overlay(&mut expected, &red, 177, 63);
    assert_eq!(&pages.imgs()[0].pixels, expected.as_raw());
}

#[test]
fn full_lines_use_the_picture_of_their_background() {
    let sheet_img = coloured(1303, 1887, [255, 255, 255, 255]);
    let grid_img = coloured(109, 109, [0, 0, 255, 255]);
    let blank_img = coloured(109, 109, [0, 255, 0, 255]);
    let mut pages = Pages::new(&png_of(&blank_img), &png_of(&sheet_img), &png_of(&grid_img)).unwrap();
    pages.add_page();
    pages.draw_n_full_lines(BgType::Grid, 1);
    pages.draw_n_full_lines(BgType::Blank, 1);

    let mut grid_line = image::RgbaImage::new(1303, 139);
    let mut blank_line = image::RgbaImage::new(1303, 139);
    for k in 0..10 {
        image::imageops::overlay(&mut grid_line, &grid_img, 114 * k, 0);
        image::imageops::overlay(&mut blank_line, &blank_img, 114 * k, 0);
    }
    let mut expected = sheet_img.clone();
    image::imageops::overlay(&mut expected, &grid_line, 60, 60);
    image::imageops::overlay(&mut expected, &blank_line, 60, 174);
    assert_eq!(&pages.imgs()[0].pixels, expected.as_raw());
    assert_eq!(pages.position(), (60, 288, 0));
}

#[test]
fn draw_full_opaque_without_a_page_fails_on_short_pixels() {
    let mut pages = Pages::new(&png(109, 109), &png(1303, 1887), &png(109, 109)).unwrap();
    let rgba = vec![255u8; 10];
    assert_eq!(pages.draw_full_opaque(&rgba, 2), Err(KanjiToPngErrors::UnlikelyError));
    assert_eq!(pages.imgs().len(), 0);
}
