use vimltui::render::{
    ceil_char_boundary, compute_visual, compute_yank, decimal_string, file_position, find_matching_bracket,
    floor_char_boundary, gutter_number_of, number_cell, shown_line, snap_to_char_boundary, truncate_to_width,
    visible_line, width,
};
use vimltui::text::is_whitespace;
use vimltui::view::{
    line_number_width, line_segments, overlay_column, search_match_spans, search_segments, visible_parts, LineHighlight,
    MatchKind,
};
use vimltui::{Key, KeyCode, VimEditor, VimModeConfig, VisualKind, YankHighlight};

fn key(c: char) -> Key {
    Key { code: KeyCode::Char(c), ctrl: false }
}

fn typed(ed: &mut VimEditor, s: &str) {
    for c in s.chars() {
        ed.handle_key(key(c));
    }
}

fn editor(s: &str) -> VimEditor {
    VimEditor::new(s, VimModeConfig::default())
}

#[test]
fn gutter_width_counts_number_spaces_and_diagnostics() {
    assert_eq!(width(3, false), 5);
    assert_eq!(width(4, true), 8);
}

#[test]
fn visual_columns_per_kind() {
    let range = Some(((0, 2), (2, 4)));
    let chr = Some(VisualKind::Char);
    assert_eq!(compute_visual(0, 10, &range, &chr), Some((2, 10)));
    assert_eq!(compute_visual(1, 10, &range, &chr), Some((0, 10)));
    assert_eq!(compute_visual(2, 10, &range, &chr), Some((0, 5)));
    assert_eq!(compute_visual(2, 3, &range, &chr), Some((0, 3)));
    assert_eq!(compute_visual(3, 10, &range, &chr), None);
    assert_eq!(compute_visual(1, 7, &range, &Some(VisualKind::Line)), Some((0, 7)));
    assert_eq!(compute_visual(1, 7, &range, &Some(VisualKind::Block)), Some((2, 5)));
    assert_eq!(compute_visual(1, 1, &range, &Some(VisualKind::Block)), None);
    assert_eq!(compute_visual(1, 7, &None, &chr), None);
}

#[test]
fn yank_flash_columns() {
    let h = Some(YankHighlight::new(0, 1, 0, 3, false));
    assert_eq!(compute_yank(0, 10, &h), Some((1, 3)));
    assert_eq!(compute_yank(0, 2, &h), Some((1, 2)));
    assert_eq!(compute_yank(1, 10, &h), None);
    let lines = Some(YankHighlight::new(1, 0, 3, 0, true));
    assert_eq!(compute_yank(2, 6, &lines), Some((0, 6)));
    let multi = Some(YankHighlight::new(0, 2, 1, 1, false));
    assert_eq!(compute_yank(0, 5, &multi), Some((2, 5)));
    assert_eq!(compute_yank(1, 5, &multi), Some((0, 2)));
    assert_eq!(compute_yank(0, 5, &None), None);
}

#[test]
fn yank_flash_expires_after_its_duration() {
    assert!(!YankHighlight::expired_after(YankHighlight::DURATION_MS));
    assert!(YankHighlight::expired_after(YankHighlight::DURATION_MS + 1));
    assert!(!YankHighlight::new(0, 0, 0, 0, true).is_expired());
}

#[test]
fn matching_brackets_across_lines() {
    let lines = vec!["fn f(a) {".to_string(), "  [x]".to_string(), "}".to_string()];
    assert_eq!(find_matching_bracket(&lines, 0, 8), Some((2, 0)));
    assert_eq!(find_matching_bracket(&lines, 2, 0), Some((0, 8)));
    assert_eq!(find_matching_bracket(&lines, 0, 4), Some((0, 6)));
    assert_eq!(find_matching_bracket(&lines, 1, 4), Some((1, 2)));
    assert_eq!(find_matching_bracket(&lines, 0, 0), None);
    assert_eq!(find_matching_bracket(&lines, 9, 0), None);
    let open = vec!["((".to_string()];
    assert_eq!(find_matching_bracket(&open, 0, 0), None);
}

#[test]
fn char_boundaries() {
    let s = "aé";
    assert_eq!(floor_char_boundary(s, 2), 1);
    assert_eq!(ceil_char_boundary(s, 2), 3);
    assert_eq!(snap_to_char_boundary(s, 2), 1);
    assert_eq!(snap_to_char_boundary(s, 99), 3);
}

#[test]
fn number_cells_and_relative_numbers() {
    assert_eq!(number_cell(7, 3, 2), "  7  ");
    assert_eq!(number_cell(1234, 3, 2), "1234  ");
    assert_eq!(gutter_number_of(5, 2, false), 3);
    assert_eq!(gutter_number_of(1, 4, false), 3);
    assert_eq!(gutter_number_of(5, 5, true), 6);
    assert_eq!(decimal_string(0), "0");
    assert_eq!(decimal_string(90210), "90210");
}

#[test]
fn file_position_indicator() {
    let text: Vec<String> = (0..30).map(|i| i.to_string()).collect();
    let mut ed = editor(&text.join("\n"));
    ed.visible_height = 10;
    assert_eq!(file_position(&ed), "Top");
    ed.scroll_offset = 20;
    assert_eq!(file_position(&ed), "Bot");
    ed.scroll_offset = 5;
    ed.cursor_row = 9;
    assert_eq!(file_position(&ed), "33%");
    let small = editor("a\nb");
    assert_eq!(file_position(&small), "All");
}

#[test]
fn truncation_counts_display_columns() {
    assert_eq!(truncate_to_width("日本語", 4), "日本");
    assert_eq!(truncate_to_width("日本語", 5), "日本");
    assert_eq!(truncate_to_width("abc", 10), "abc");
    assert_eq!(truncate_to_width("abc", 0), "");
}

#[test]
fn line_number_width_has_three_digits_at_least() {
    assert_eq!(line_number_width(5), 3);
    assert_eq!(line_number_width(999), 3);
    assert_eq!(line_number_width(12345), 5);
}

#[test]
fn view_height_leaves_room_for_border_and_status() {
    let mut ed = editor("a");
    ed.set_view_height(20);
    assert_eq!(ed.visible_height, 17);
    ed.set_view_height(2);
    assert_eq!(ed.visible_height, 0);
}

#[test]
fn horizontal_scroll_follows_cursor() {
    let mut ed = editor(&"x".repeat(100));
    ed.cursor_col = 50;
    ed.scroll_horizontally(20);
    assert_eq!(ed.horizontal_scroll, 31);
    ed.cursor_col = 40;
    ed.scroll_horizontally(20);
    assert_eq!(ed.horizontal_scroll, 31);
    ed.cursor_col = 10;
    ed.scroll_horizontally(20);
    assert_eq!(ed.horizontal_scroll, 10);
}

#[test]
fn mark_column_shows_first_letter() {
    let mut ed = editor("a\nb");
    assert_eq!(ed.mark_letter(0), None);
    typed(&mut ed, "mcmb");
    assert_eq!(ed.mark_letter(0), Some('b'));
    assert_eq!(ed.mark_letter(1), None);
    assert_eq!(ed.mark_position('c'), Some((0, 0)));
    assert_eq!(ed.mark_position('z'), None);
}

#[test]
fn line_highlight_priority() {
    let mut ed = editor("abcdef");
    assert_eq!(ed.line_highlight(0, 6, 0), LineHighlight::Plain);
    typed(&mut ed, "vl");
    assert_eq!(ed.line_highlight(0, 6, 0), LineHighlight::Visual(0, 2));
    assert_eq!(ed.line_highlight(0, 6, 1), LineHighlight::Visual(0, 1));
    ed.handle_key(Key { code: KeyCode::Esc, ctrl: false });
    typed(&mut ed, "yy");
    assert_eq!(ed.line_highlight(0, 6, 0), LineHighlight::Yank(0, 6));
    ed.yank_highlight = None;
    typed(&mut ed, ":s/cd/x");
    assert_eq!(ed.line_highlight(0, 6, 0), LineHighlight::Preview(vec![(2, 3)]));
    ed.handle_key(Key { code: KeyCode::Esc, ctrl: false });
    typed(&mut ed, "/b");
    ed.handle_key(Key { code: KeyCode::Enter, ctrl: false });
    assert_eq!(ed.line_highlight(0, 6, 0), LineHighlight::Search);
}

#[test]
fn segments_around_ranges() {
    assert_eq!(
        line_segments(10, &vec![(2, 4), (6, 20)]),
        vec![(0, 2, false), (2, 4, true), (4, 6, false), (6, 10, true)]
    );
    assert_eq!(line_segments(3, &vec![]), vec![(0, 3, false)]);
    assert_eq!(line_segments(0, &vec![]), vec![]);
    assert_eq!(line_segments(5, &vec![(0, 2), (1, 3)]), vec![(0, 2, true), (1, 3, true), (3, 5, false)]);
}

#[test]
fn search_matches_ignore_case_and_may_overlap() {
    assert_eq!(search_match_spans("Hello hello", "HELLO"), vec![(0, 5), (6, 11)]);
    assert_eq!(search_match_spans("aaa", "aa"), vec![(0, 2), (1, 3)]);
    assert_eq!(search_match_spans("", "a"), vec![]);
    assert_eq!(search_match_spans("abc", ""), vec![]);
    assert_eq!(search_match_spans("ÉCOLE", "école"), vec![(0, 5)]);
}

#[test]
fn status_position_text() {
    let mut ed = editor("a\nbcd");
    assert_eq!(ed.position_status(), "1,1    All");
    typed(&mut ed, "jl");
    assert_eq!(ed.position_status(), "2,2    All");
}

#[test]
fn whitespace_characters() {
    assert!(is_whitespace(' '));
    assert!(is_whitespace('\t'));
    assert!(is_whitespace('\u{3000}'));
    assert!(!is_whitespace('x'));
    assert!(!is_whitespace('\u{200b}'));
}

#[test]
fn whitespace_agrees_with_std() {
    for c in (0u32..0x3100).filter_map(char::from_u32) {
        assert_eq!(is_whitespace(c), c.is_whitespace(), "{:?}", c);
    }
}

#[test]
fn overlay_splits_the_covering_segment() {
    let segs = vec![(0, 3, 0), (3, 8, 1)];
    assert_eq!(overlay_column(&segs, 4, 9), vec![(0, 3, 0), (3, 4, 1), (4, 5, 9), (5, 8, 1)]);
    assert_eq!(overlay_column(&segs, 0, 9), vec![(0, 1, 9), (1, 3, 0), (3, 8, 1)]);
    assert_eq!(overlay_column(&segs, 7, 9), vec![(0, 3, 0), (3, 7, 1), (7, 8, 9)]);
    assert_eq!(overlay_column(&segs, 8, 9), segs);
}

#[test]
fn visible_parts_of_styled_pieces() {
    // Pieces of 3, 4 and 5 columns; columns 2..8 are shown.
    assert_eq!(visible_parts(&vec![3, 4, 5], 2, 6, 12), vec![(0, 2, 3), (1, 3, 7), (2, 7, 8)]);
    assert_eq!(visible_parts(&vec![3, 4, 5], 0, 100, 12), vec![(0, 0, 3), (1, 3, 7), (2, 7, 12)]);
    assert_eq!(visible_parts(&vec![3, 4], 3, 0, 7), vec![]);
}

#[test]
fn bracket_match_crosses_empty_lines() {
    let lines = vec!["(".to_string(), String::new(), ")".to_string()];
    assert_eq!(find_matching_bracket(&lines, 0, 0), Some((2, 0)));
    assert_eq!(find_matching_bracket(&lines, 2, 0), Some((0, 0)));
    let lines2 = vec!["{".to_string(), String::new()];
    assert_eq!(find_matching_bracket(&lines2, 0, 0), None);
}

#[test]
fn visual_yank_flash_covers_the_yanked_text() {
    let mut ed = VimEditor::new("hello world", VimModeConfig::default());
    ed.enter_visual(VisualKind::Char);
    ed.cursor_col = 4;
    ed.visual_yank();
    assert_eq!(ed.unnamed_register.content, "hello");
    assert_eq!(compute_yank(0, 11, &ed.yank_highlight), Some((0, 5)));
}

#[test]
fn bracket_matches_go_both_ways() {
    let lines = vec!["f(a, (b)) {".to_string(), "".to_string(), "  x[0]".to_string(), "".to_string(), "}".to_string()];
    for (r, c) in [(0, 1), (0, 5), (0, 10), (2, 3), (4, 0), (0, 7), (0, 8), (2, 5)] {
        let (r2, c2) = find_matching_bracket(&lines, r, c).unwrap();
        assert_ne!((r2, c2), (r, c));
        assert_eq!(find_matching_bracket(&lines, r2, c2), Some((r, c)));
    }
    assert_eq!(find_matching_bracket(&lines, 0, 10), Some((4, 0)));
    assert_eq!(find_matching_bracket(&lines, 0, 1), Some((0, 8)));
}

#[test]
fn search_segments_mark_the_current_match() {
    let ranges = vec![(0, 2), (4, 6)];
    assert_eq!(
        search_segments(8, &ranges, Some(4)),
        vec![(0, 2, MatchKind::Match), (2, 4, MatchKind::Plain), (4, 6, MatchKind::Current), (6, 8, MatchKind::Plain)]
    );
    assert_eq!(
        search_segments(8, &ranges, None),
        vec![(0, 2, MatchKind::Match), (2, 4, MatchKind::Plain), (4, 6, MatchKind::Match), (6, 8, MatchKind::Plain)]
    );
    assert_eq!(search_segments(8, &ranges, Some(5))[2], (4, 6, MatchKind::Match));
}

#[test]
fn visible_line_scrolls_and_cuts() {
    assert_eq!(visible_line("hello", 0, 10), ("hello".to_string(), 0));
    assert_eq!(visible_line("hello world", 0, 5), ("hello".to_string(), 0));
    assert_eq!(visible_line("hello world", 6, 3), ("wor".to_string(), 6));
    assert_eq!(visible_line("abc", 9, 3), ("".to_string(), 3));
    assert_eq!(visible_line("日本語", 0, 4), ("日本".to_string(), 0));
    assert_eq!(shown_line("abcdef", 0, 3, 6), ("abc".to_string(), 0));
    assert_eq!(shown_line("abcdef", 0, 3, 2), ("abcdef".to_string(), 0));
}
