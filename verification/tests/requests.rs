use kanji_practice_sheet::form::FormState;
use kanji_practice_sheet::svg::count_paths;
use kanji_practice_sheet::svg::stroke_count;
use kanji_practice_sheet::worker::AppMsg;
use kanji_practice_sheet::worker::AsyncHandler;
use kanji_practice_sheet::worker::KanjiRequest;
use kanji_practice_sheet::KanjiToPngErrors;

fn text(m: &AppMsg) -> (String, bool) {
    match m {
        AppMsg::SendMessage(s, b) => (s.clone(), *b),
        AppMsg::End => panic!("no text"),
    }
}

#[test]
fn white_space_is_stripped_from_requests() {
    assert_eq!(AsyncHandler::strip_white_space(" 漢\t字\n\u{3000}感 "), "漢字感");
    assert_eq!(AsyncHandler::strip_white_space(""), "");
    assert_eq!(AsyncHandler::strip_white_space("\u{200b}x"), "\u{200b}x");
}

#[test]
fn sheet_request_keeps_the_line_counts() {
    let req = KanjiRequest {
        kanjis: String::from("あい え"),
        extra_grid: 3,
        extra_blank: 0,
        pdf: true,
        png: false,
        _opt_space: false,
        _coloring: None,
    };
    assert_eq!(AsyncHandler::sheet_request(&req), (String::from("あいえ"), 3, 0));
}

#[test]
fn messages_of_a_request() {
    assert_eq!(text(&AsyncHandler::starting_message()), (String::from("Starting..."), true));
    let ms = AsyncHandler::pages_failure_messages();
    assert_eq!(ms.len(), 2);
    assert_eq!(
        text(&ms[0]),
        (
            String::from(
                "Error creating pages, aborting. \n Please contact with the used kanjis for troubleshooting."
            ),
            false
        )
    );
    assert!(matches!(ms[1], AppMsg::End));
}

#[test]
fn messages_of_pdf_failures() {
    let (m, go_on) = AsyncHandler::pdf_failure(KanjiToPngErrors::LoadFontError, true);
    assert_eq!(text(&m.unwrap()), (String::from("Error loading the font for PDF creation."), false));
    assert!(go_on);
    let (m, go_on) = AsyncHandler::pdf_failure(KanjiToPngErrors::Undefined, false);
    assert_eq!(text(&m.unwrap()), (String::from("Error rendering the pdf file."), false));
    assert!(!go_on);
    let (m, _) = AsyncHandler::pdf_failure(KanjiToPngErrors::UnlikelyError, false);
    assert!(text(&m.unwrap()).0.starts_with("You shouldn't see this error message"));
    let (m, _) = AsyncHandler::pdf_failure(KanjiToPngErrors::FileNotFound, false);
    assert!(m.is_none());
}

#[test]
fn messages_of_a_finished_request() {
    let ms = AsyncHandler::completion_messages("");
    assert_eq!(ms.len(), 2);
    assert_eq!(text(&ms[0]), (String::from("Completed\n"), true));
    assert!(matches!(ms[1], AppMsg::End));
    let skipped = AsyncHandler::skipped_string(&vec!['淌', '𠮟']);
    assert_eq!(skipped, "淌𠮟");
    let ms = AsyncHandler::completion_messages(&skipped);
    assert_eq!(ms.len(), 3);
    assert_eq!(text(&ms[2]), (String::from("Skipped: {skipped}\n"), true));
}

#[test]
fn form_shows_the_button_when_ready() {
    let mut f = FormState::new();
    assert!(f.sensitive && !f.show_button);
    f.recheck(3);
    assert!(!f.show_button);
    f.toggle_png();
    f.recheck(3);
    assert!(f.show_button);
    f.recheck(0);
    assert!(!f.show_button);
    f.toggle_pdf();
    f.toggle_png();
    f.recheck(1);
    assert!(f.show_button && f.pdf_toggled && !f.png_toggled);
    f.start();
    assert!(!f.sensitive);
    f.end();
    assert!(f.sensitive);
}

#[test]
fn paths_are_counted() {
    assert_eq!(count_paths(&vec![]), 0);
    assert_eq!(count_paths(&vec![false, true, true, false, true]), 3);
}

#[test]
fn strokes_of_an_svg_file() {
    let svg = br#"<svg xmlns="http://www.w3.org/2000/svg" width="109" height="109" viewBox="0 0 109 109">
<g><path d="M10,10 L90,10" stroke="black"/><path d="M50,10 L50,90" stroke="black"/></g>
<path d="M10,50 L90,50" stroke="black"/></svg>"#;
    let opt = usvg::Options::default();
    assert_eq!(stroke_count(svg, &opt), Some(3));
    assert_eq!(stroke_count(b"<not svg", &opt), None);
}
