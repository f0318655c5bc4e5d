use argus_tui::border::{border_cells, perimeter, title_cells, BorderGlyph};
use argus_tui::icons::{arrow, folder, for_file, IconColor, COG, FILE_CODE, FILE_GENERIC, LOCK};
use argus_tui::layout::{
    clamp_sidebar_width, compute, equal_columns, hit, on_resize_handle, pty_content_size, sidebar_width_for_drag,
    terminal_content_rect, Rect,
};
use argus_tui::reports::{bracketed_paste, decimal_bytes, prompt_paths_text, repeated, sgr_report};
use argus_tui::scroll::centered_offset;
use argus_tui::text::{is_blank, strip_diacritics, trim};
use argus_tui::view::{on_at, spinner_frame_at, to_rgb, toast_cards, Color, CARD_HEIGHT};

fn rect(x: u16, y: u16, width: u16, height: u16) -> Rect {
    Rect { x, y, width, height }
}

#[test]
fn decimal_bytes_spell_numbers() {
    assert_eq!(decimal_bytes(0), b"0".to_vec());
    assert_eq!(decimal_bytes(1234), b"1234".to_vec());
    assert_eq!(decimal_bytes(u32::MAX), b"4294967295".to_vec());
}

#[test]
fn sgr_report_encodes_press_and_release() {
    assert_eq!(sgr_report(0, 12, 3, false), b"\x1b[<0;12;3M".to_vec());
    assert_eq!(sgr_report(2, 1, 1, true), b"\x1b[<2;1;1m".to_vec());
    assert_eq!(sgr_report(65, 100, 40, false), b"\x1b[<65;100;40M".to_vec());
}

#[test]
fn bracketed_paste_wraps_text() {
    assert_eq!(bracketed_paste("hi é"), b"\x1b[200~hi \xc3\xa9\x1b[201~".to_vec());
    assert_eq!(bracketed_paste(""), b"\x1b[200~\x1b[201~".to_vec());
}

#[test]
fn repeated_concatenates_copies() {
    assert_eq!(repeated(&b"\x1b[A".to_vec(), 3), b"\x1b[A\x1b[A\x1b[A".to_vec());
    assert!(repeated(&b"x".to_vec(), 0).is_empty());
}

#[test]
fn prompt_paths_text_prefixes_each_path() {
    let paths = vec!["a.rs".to_string(), "src/b.rs".to_string()];
    assert_eq!(prompt_paths_text(&paths), "@a.rs @src/b.rs ");
    assert_eq!(prompt_paths_text(&vec![]), " ");
}

#[test]
fn border_walks_the_perimeter_clockwise() {
    let area = rect(0, 0, 4, 3);
    assert_eq!(perimeter(area), 10);
    let cells = border_cells(area);
    assert_eq!(cells.len(), 10);
    assert_eq!((cells[0].x, cells[0].y, cells[0].glyph, cells[0].dist), (0, 0, BorderGlyph::TopLeft, 0));
    let top_right = cells.iter().find(|c| c.glyph == BorderGlyph::TopRight).unwrap();
    assert_eq!((top_right.x, top_right.y, top_right.dist), (3, 0, 3));
    let bottom_right = cells.iter().find(|c| c.glyph == BorderGlyph::BottomRight).unwrap();
    assert_eq!((bottom_right.x, bottom_right.y, bottom_right.dist), (3, 2, 5));
    let bottom_left = cells.iter().find(|c| c.glyph == BorderGlyph::BottomLeft).unwrap();
    assert_eq!((bottom_left.x, bottom_left.y, bottom_left.dist), (0, 2, 8));
}

#[test]
fn title_sits_on_the_top_border() {
    assert_eq!(title_cells(rect(5, 2, 20, 4), "ab"), vec![(7, 2, 'a'), (8, 2, 'b')]);
    assert_eq!(title_cells(rect(0, 0, 6, 3), "abcdef"), vec![(2, 0, 'a'), (3, 0, 'b')]);
}

#[test]
fn toast_cards_stack_upward_from_the_bottom() {
    let area = rect(0, 0, 100, 30);
    let cards = toast_cards(area, 2);
    assert_eq!(cards.len(), 2);
    assert_eq!(cards[0], rect(1, 23, 42, CARD_HEIGHT));
    assert_eq!(cards[1], rect(1, 18, 42, CARD_HEIGHT));
    assert!(toast_cards(rect(0, 0, 2, 30), 3).is_empty());
    assert_eq!(toast_cards(rect(0, 0, 100, 8), 5).len(), 1);
}

#[test]
fn layout_helpers() {
    assert!(hit(rect(2, 2, 3, 3), 4, 4));
    assert!(!hit(rect(2, 2, 3, 3), 5, 4));
    assert_eq!(clamp_sidebar_width(5, 200), 20);
    assert_eq!(clamp_sidebar_width(500, 200), 170);
    assert_eq!(clamp_sidebar_width(40, 200), 40);
    assert_eq!(pty_content_size(rect(0, 0, 80, 24), true), (78, 22));
    assert_eq!(pty_content_size(rect(0, 0, 80, 24), false), (80, 24));
    assert_eq!(terminal_content_rect(rect(3, 4, 10, 10), true), rect(4, 5, 8, 8));
    assert!(on_resize_handle(33, 0, 34));
    assert!(!on_resize_handle(10, 0, 34));
    assert_eq!(sidebar_width_for_drag(50, rect(0, 0, 200, 50)), 51);
}

#[test]
fn compute_regions_in_both_modes() {
    let full = rect(0, 0, 120, 40);
    let normal = compute(full, 34, false);
    assert_eq!(normal.topbar, rect(0, 0, 120, 1));
    assert_eq!(normal.sidebar, rect(0, 1, 34, 37));
    assert_eq!(normal.terminal, rect(34, 2, 86, 36));
    assert_eq!(normal.statusbar, rect(0, 38, 120, 2));
    let focus = compute(full, 34, true);
    assert_eq!(focus.terminal, rect(0, 0, 120, 39));
    assert_eq!(focus.statusbar, rect(0, 39, 120, 1));
    assert_eq!(focus.sidebar, rect(0, 0, 0, 0));
    let cols = equal_columns(rect(0, 0, 90, 10), 3);
    assert_eq!(cols.len(), 3);
    assert_eq!(cols[1].x, 30);
    assert!(equal_columns(full, 0).is_empty());
}

#[test]
fn centered_offset_keeps_selection_in_view() {
    assert_eq!(centered_offset(100, 50, 10), 45);
    assert_eq!(centered_offset(100, 2, 10), 0);
    assert_eq!(centered_offset(100, 99, 10), 90);
    assert_eq!(centered_offset(5, 4, 10), 0);
}

#[test]
fn icons_follow_names_and_extensions() {
    assert_eq!(for_file("Cargo.toml").0, COG);
    assert_eq!(for_file("Cargo.lock"), (LOCK, IconColor::DarkGray));
    assert_eq!(for_file("main.RS").0, FILE_CODE);
    assert_eq!(for_file("noext").0, FILE_GENERIC);
    assert_eq!(folder(true).1, folder(false).1);
    assert_ne!(folder(true).0, folder(false).0);
    assert_eq!(arrow(true), "\u{25be}");
}

#[test]
fn text_helpers() {
    assert_eq!(strip_diacritics("não ação"), "nao acao");
    assert!(is_blank("  \t"));
    assert!(!is_blank(" x "));
    assert_eq!(trim("  a b  "), "a b");
}

#[test]
fn spinner_and_blink_follow_the_clock() {
    assert_eq!(spinner_frame_at(0), spinner_frame_at(119));
    assert_ne!(spinner_frame_at(0), spinner_frame_at(120));
    assert_eq!(spinner_frame_at(0), spinner_frame_at(720));
    assert_eq!(spinner_frame_at(130), '\u{283d}');
    assert!(on_at(0, 500));
    assert!(!on_at(600, 500));
}

#[test]
fn palette_colors_have_fixed_rgb() {
    assert_eq!(to_rgb(Color::Rgb(1, 2, 3)), (1, 2, 3));
    assert_ne!(to_rgb(Color::Black), to_rgb(Color::White));
}

#[test]
fn equal_columns_are_full_height_slices_of_the_area() {
    let area = rect(5, 3, 100, 7);
    let cols = equal_columns(area, 4);
    assert_eq!(cols.len(), 4);
    for c in &cols {
        assert_eq!((c.y, c.height), (3, 7));
        assert!(c.x >= 5 && c.x + c.width <= 105);
    }
    for w in cols.windows(2) {
        assert!(w[0].x + w[0].width <= w[1].x);
    }
}
