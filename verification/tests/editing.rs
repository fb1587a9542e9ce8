use vimltui::editor::motions::Motion;
use vimltui::{EditorAction, Key, KeyCode, MotionRange, Operator, VimEditor, VimMode, VimModeConfig, VisualKind};

fn key(c: char) -> Key {
    Key { code: KeyCode::Char(c), ctrl: false }
}

fn ctrl(c: char) -> Key {
    Key { code: KeyCode::Char(c), ctrl: true }
}

fn special(code: KeyCode) -> Key {
    Key { code, ctrl: false }
}

fn typed(ed: &mut VimEditor, s: &str) {
    for c in s.chars() {
        ed.handle_key(key(c));
    }
}

fn editor(s: &str) -> VimEditor {
    VimEditor::new(s, VimModeConfig::default())
}

#[test]
fn new_splits_content_into_lines() {
    let ed = editor("fn main() {\n    println!(\"hello\");\n}");
    assert_eq!(ed.lines, vec!["fn main() {", "    println!(\"hello\");", "}"]);
    assert_eq!(ed.line_count(), 3);
    assert_eq!(ed.mode, VimMode::Normal);
    assert_eq!((ed.cursor_row, ed.cursor_col), (0, 0));
}

#[test]
fn empty_content_is_one_empty_line() {
    let ed = editor("");
    assert_eq!(ed.lines, vec![String::new()]);
    assert_eq!(ed.content(), "");
    let ed2 = VimEditor::new_empty(VimModeConfig::default());
    assert_eq!(ed2.lines, vec![String::new()]);
}

#[test]
fn tabs_become_four_spaces_and_crlf_is_split() {
    let ed = editor("\tx\r\ny\n");
    assert_eq!(ed.lines, vec!["    x", "y"]);
}

#[test]
fn content_round_trip() {
    let mut ed = editor("alpha\nbeta\n\ngamma");
    let text = ed.content();
    assert_eq!(text, "alpha\nbeta\n\ngamma");
    ed.set_content(&text);
    assert_eq!(ed.lines, vec!["alpha", "beta", "", "gamma"]);
    assert_eq!(ed.content(), text);
}

#[test]
fn delete_word_fills_register() {
    let mut ed = editor("hello world");
    typed(&mut ed, "dw");
    assert_eq!(ed.lines, vec!["world"]);
    assert_eq!(ed.unnamed_register.content, "hello ");
    assert!(!ed.unnamed_register.linewise);
    assert!(ed.modified);
}

#[test]
fn delete_line_then_paste_below() {
    let mut ed = editor("a\nb\nc");
    typed(&mut ed, "dd");
    assert_eq!(ed.lines, vec!["b", "c"]);
    assert!(ed.unnamed_register.linewise);
    typed(&mut ed, "p");
    assert_eq!(ed.lines, vec!["b", "a", "c"]);
}

#[test]
fn yank_line_and_paste_above_duplicates_it() {
    let mut ed = editor("one\ntwo");
    typed(&mut ed, "yy");
    assert_eq!(ed.lines, vec!["one", "two"]);
    typed(&mut ed, "P");
    assert_eq!(ed.lines, vec!["one", "one", "two"]);
}

#[test]
fn count_prefix_applies_to_x() {
    let mut ed = editor("abcdef");
    typed(&mut ed, "3x");
    assert_eq!(ed.lines, vec!["def"]);
}

#[test]
fn undo_then_redo() {
    let mut ed = editor("abc");
    typed(&mut ed, "x");
    assert_eq!(ed.lines, vec!["bc"]);
    typed(&mut ed, "u");
    assert_eq!(ed.lines, vec!["abc"]);
    ed.handle_key(ctrl('r'));
    assert_eq!(ed.lines, vec!["bc"]);
}

#[test]
fn undo_with_empty_history_changes_nothing() {
    let mut ed = editor("abc");
    typed(&mut ed, "u");
    assert_eq!(ed.lines, vec!["abc"]);
    assert!(!ed.modified);
}

#[test]
fn insert_text_and_leave_insert_mode() {
    let mut ed = editor("abc");
    typed(&mut ed, "ixy");
    assert_eq!(ed.mode, VimMode::Insert);
    assert_eq!(ed.command_line, "-- INSERT --");
    ed.handle_key(special(KeyCode::Esc));
    assert_eq!(ed.mode, VimMode::Normal);
    assert_eq!(ed.lines, vec!["xyabc"]);
    assert_eq!(ed.cursor_col, 1);
    assert_eq!(ed.command_line, "");
}

#[test]
fn enter_in_insert_mode_splits_the_line() {
    let mut ed = editor("abcd");
    typed(&mut ed, "ll");
    typed(&mut ed, "i");
    ed.handle_key(special(KeyCode::Enter));
    assert_eq!(ed.lines, vec!["ab", "cd"]);
    assert_eq!((ed.cursor_row, ed.cursor_col), (1, 0));
}

#[test]
fn backspace_at_line_start_joins_lines() {
    let mut ed = editor("ab\ncd");
    typed(&mut ed, "j");
    typed(&mut ed, "i");
    ed.handle_key(special(KeyCode::Backspace));
    assert_eq!(ed.lines, vec!["abcd"]);
    assert_eq!((ed.cursor_row, ed.cursor_col), (0, 2));
}

#[test]
fn read_only_editor_never_enters_insert_mode() {
    let mut ed = VimEditor::new("text", VimModeConfig::read_only());
    for c in "iaAIoOsSCR".chars() {
        ed.handle_key(key(c));
        assert!(matches!(ed.mode, VimMode::Normal | VimMode::Visual(_)));
    }
    assert_eq!(ed.lines, vec!["text"]);
}

#[test]
fn visual_char_delete() {
    let mut ed = editor("abcdef");
    typed(&mut ed, "v");
    assert_eq!(ed.mode, VimMode::Visual(VisualKind::Char));
    assert_eq!(ed.command_line, "-- VISUAL --");
    typed(&mut ed, "ld");
    assert_eq!(ed.lines, vec!["cdef"]);
    assert_eq!(ed.mode, VimMode::Normal);
}

#[test]
fn visual_line_yank_keeps_text() {
    let mut ed = editor("a\nb\nc");
    typed(&mut ed, "Vjy");
    assert_eq!(ed.lines, vec!["a", "b", "c"]);
    assert_eq!(ed.unnamed_register.content, "a\nb");
    assert!(ed.unnamed_register.linewise);
    assert_eq!(ed.mode, VimMode::Normal);
}

#[test]
fn search_forward_moves_to_match() {
    let mut ed = editor("alpha\nbeta gamma\ndelta");
    typed(&mut ed, "/");
    assert!(ed.search.active);
    typed(&mut ed, "gam");
    assert_eq!(ed.command_line, "/gam");
    ed.handle_key(special(KeyCode::Enter));
    assert!(!ed.search.active);
    assert_eq!(ed.search.pattern, "gam");
    assert_eq!((ed.cursor_row, ed.cursor_col), (1, 5));
}

#[test]
fn search_is_case_insensitive_and_n_wraps() {
    let mut ed = editor("Foo x foo");
    typed(&mut ed, "/foo");
    ed.handle_key(special(KeyCode::Enter));
    assert_eq!(ed.cursor_col, 6);
    typed(&mut ed, "n");
    assert_eq!(ed.cursor_col, 0);
}

#[test]
fn escape_cancels_search() {
    let mut ed = editor("abc");
    typed(&mut ed, "/ab");
    ed.handle_key(special(KeyCode::Esc));
    assert!(!ed.search.active);
    assert_eq!(ed.search.pattern, "");
    assert_eq!(ed.search.input_buffer, "");
}

#[test]
fn ex_commands_answer_the_embedding_program() {
    let cases = [("w", EditorAction::Save), ("q", EditorAction::Close), ("q!", EditorAction::ForceClose),
        ("wq", EditorAction::SaveAndClose), ("x", EditorAction::SaveAndClose), ("nonsense", EditorAction::Handled)];
    for (cmd, expected) in cases {
        let mut ed = editor("abc");
        typed(&mut ed, ":");
        assert!(ed.command_active);
        typed(&mut ed, cmd);
        assert_eq!(ed.command_line, format!(":{}", cmd));
        let action = ed.handle_key(special(KeyCode::Enter));
        assert_eq!(action, expected);
        assert!(!ed.command_active);
    }
}

#[test]
fn ex_line_number_moves_cursor() {
    let mut ed = editor("a\nb\nc\nd");
    typed(&mut ed, ": 3 ");
    ed.handle_key(special(KeyCode::Enter));
    assert_eq!(ed.cursor_row, 2);
    typed(&mut ed, ":99");
    ed.handle_key(special(KeyCode::Enter));
    assert_eq!(ed.cursor_row, 3);
}

#[test]
fn backspace_on_empty_command_closes_prompt() {
    let mut ed = editor("a");
    typed(&mut ed, ":w");
    ed.handle_key(special(KeyCode::Backspace));
    assert!(ed.command_active);
    assert_eq!(ed.command_buffer, "");
    ed.handle_key(special(KeyCode::Backspace));
    assert!(!ed.command_active);
}

#[test]
fn substitute_first_match_on_cursor_line() {
    let mut ed = editor("foo foo\nfoo");
    typed(&mut ed, ":s/foo/bar/");
    ed.handle_key(special(KeyCode::Enter));
    assert_eq!(ed.lines, vec!["bar foo", "foo"]);
    assert!(ed.modified);
    typed(&mut ed, "u");
    assert_eq!(ed.lines, vec!["foo foo", "foo"]);
}

#[test]
fn substitute_every_match_on_every_line() {
    let mut ed = editor("a-a\nb\na");
    typed(&mut ed, ":%s/a/x/g");
    ed.handle_key(special(KeyCode::Enter));
    assert_eq!(ed.lines, vec!["x-x", "b", "x"]);
}

#[test]
fn substitute_line_range_and_capture_groups() {
    let mut ed = editor("k1=v1\nk2=v2\nk3=v3");
    typed(&mut ed, ":2,3s/(\\w+)=(\\w+)/$2=$1/");
    ed.handle_key(special(KeyCode::Enter));
    assert_eq!(ed.lines, vec!["k1=v1", "v2=k2", "v3=k3"]);
}

#[test]
fn substitute_with_invalid_pattern_changes_nothing() {
    let mut ed = editor("a(b");
    typed(&mut ed, ":s/(/x/");
    ed.handle_key(special(KeyCode::Enter));
    assert_eq!(ed.lines, vec!["a(b"]);
    assert!(!ed.modified);
}

#[test]
fn substitution_preview_while_typing() {
    let mut ed = editor("foo x foo\nfoo");
    typed(&mut ed, ":s/foo/bar");
    assert_eq!(ed.search.pattern, "foo");
    assert_eq!(ed.preview_lines, Some(vec!["bar x foo".to_string(), "foo".to_string()]));
    assert_eq!(ed.preview_highlights, vec![(0, 0, 3)]);
    typed(&mut ed, "/g");
    assert_eq!(ed.preview_lines, Some(vec!["bar x bar".to_string(), "foo".to_string()]));
    assert_eq!(ed.preview_highlights, vec![(0, 0, 3), (0, 6, 9)]);
    ed.handle_key(special(KeyCode::Esc));
    assert_eq!(ed.preview_lines, None);
    assert!(ed.preview_highlights.is_empty());
    assert_eq!(ed.lines, vec!["foo x foo", "foo"]);
}

#[test]
fn preview_columns_count_characters() {
    let mut ed = editor("é-é");
    typed(&mut ed, ":s/-/==/");
    assert_eq!(ed.preview_lines, Some(vec!["é==é".to_string()]));
    assert_eq!(ed.preview_highlights, vec![(0, 1, 3)]);
}

#[test]
fn top_and_bottom_motions() {
    let mut ed = editor("a\nb\nc");
    typed(&mut ed, "G");
    assert_eq!(ed.cursor_row, 2);
    typed(&mut ed, "gg");
    assert_eq!(ed.cursor_row, 0);
    typed(&mut ed, "2G");
    assert_eq!(ed.cursor_row, 1);
}

#[test]
fn counted_down_motion_stops_at_last_line() {
    let mut ed = editor("a\nb\nc");
    typed(&mut ed, "5j");
    assert_eq!(ed.cursor_row, 2);
    assert_eq!(ed.pending_count, None);
}

#[test]
fn word_motions() {
    let mut ed = editor("foo bar.baz");
    typed(&mut ed, "w");
    assert_eq!(ed.cursor_col, 4);
    typed(&mut ed, "w");
    assert_eq!(ed.cursor_col, 7);
    typed(&mut ed, "b");
    assert_eq!(ed.cursor_col, 4);
    typed(&mut ed, "e");
    assert_eq!(ed.cursor_col, 6);
    typed(&mut ed, "0W");
    assert_eq!(ed.cursor_col, 4);
}

#[test]
fn find_char_and_repeat() {
    let mut ed = editor("abcabc");
    typed(&mut ed, "fc");
    assert_eq!(ed.cursor_col, 2);
    typed(&mut ed, ";");
    assert_eq!(ed.cursor_col, 5);
    typed(&mut ed, ",");
    assert_eq!(ed.cursor_col, 2);
    typed(&mut ed, "0tc");
    assert_eq!(ed.cursor_col, 1);
}

#[test]
fn delete_to_found_char() {
    let mut ed = editor("key = value");
    typed(&mut ed, "dt=");
    assert_eq!(ed.lines, vec!["= value"]);
}

#[test]
fn change_inner_quotes() {
    let mut ed = editor("say \"hi\" now");
    typed(&mut ed, "fhci\"");
    assert_eq!(ed.lines, vec!["say \"\" now"]);
    assert_eq!(ed.mode, VimMode::Insert);
    typed(&mut ed, "yo");
    ed.handle_key(special(KeyCode::Esc));
    assert_eq!(ed.lines, vec!["say \"yo\" now"]);
}

#[test]
fn delete_inner_parens() {
    let mut ed = editor("f(a, b)");
    typed(&mut ed, "fadi(");
    assert_eq!(ed.lines, vec!["f()"]);
}

#[test]
fn marks_jump_back() {
    let mut ed = editor("one\ntwo\nthree");
    typed(&mut ed, "jlma");
    typed(&mut ed, "G0");
    assert_eq!((ed.cursor_row, ed.cursor_col), (2, 0));
    typed(&mut ed, "`a");
    assert_eq!((ed.cursor_row, ed.cursor_col), (1, 1));
    typed(&mut ed, "gg'a");
    assert_eq!((ed.cursor_row, ed.cursor_col), (1, 0));
}

#[test]
fn record_and_play_macro() {
    let mut ed = editor("abcdef");
    typed(&mut ed, "qaxq");
    assert_eq!(ed.lines, vec!["bcdef"]);
    assert_eq!(ed.recording_macro, None);
    typed(&mut ed, "@a");
    assert_eq!(ed.lines, vec!["cdef"]);
    typed(&mut ed, "@@");
    assert_eq!(ed.lines, vec!["def"]);
}

#[test]
fn macro_that_plays_itself_stops() {
    let mut ed = editor("aaaaaaaaaa");
    typed(&mut ed, "qbx@bq");
    typed(&mut ed, "@b");
    assert_eq!(ed.lines, vec![""]);
}

#[test]
fn dot_repeats_last_insert() {
    let mut ed = editor("");
    typed(&mut ed, "iab");
    ed.handle_key(special(KeyCode::Esc));
    typed(&mut ed, ".");
    assert_eq!(ed.lines, vec!["aabb"]);
    assert_eq!(ed.mode, VimMode::Normal);
}

#[test]
fn indent_then_dedent_restores_line() {
    let mut ed = editor("x\ny");
    typed(&mut ed, ">>");
    assert_eq!(ed.lines, vec!["    x", "y"]);
    typed(&mut ed, "<<");
    assert_eq!(ed.lines, vec!["x", "y"]);
    typed(&mut ed, ">j");
    assert_eq!(ed.lines, vec!["    x", "    y"]);
}

#[test]
fn uppercase_operator() {
    let mut ed = editor("abc def");
    typed(&mut ed, "gUw");
    assert_eq!(ed.lines, vec!["ABC def"]);
    typed(&mut ed, "guiw");
    assert_eq!(ed.lines, vec!["abc def"]);
}

#[test]
fn tilde_toggles_case_and_advances() {
    let mut ed = editor("aB");
    typed(&mut ed, "~~");
    assert_eq!(ed.lines, vec!["Ab"]);
}

#[test]
fn join_lines_with_a_space() {
    let mut ed = editor("a\n   b");
    typed(&mut ed, "J");
    assert_eq!(ed.lines, vec!["a b"]);
}

#[test]
fn open_line_below_and_above() {
    let mut ed = editor("  a");
    typed(&mut ed, "ob");
    ed.handle_key(special(KeyCode::Esc));
    typed(&mut ed, "Oc");
    ed.handle_key(special(KeyCode::Esc));
    assert_eq!(ed.lines, vec!["  a", "  c", "  b"]);
}

#[test]
fn replace_mode_overwrites() {
    let mut ed = editor("abc");
    typed(&mut ed, "Rxy");
    assert_eq!(ed.mode, VimMode::Replace);
    assert_eq!(ed.command_line, "-- REPLACE --");
    ed.handle_key(special(KeyCode::Esc));
    assert_eq!(ed.lines, vec!["xyc"]);
}

#[test]
fn replace_single_char() {
    let mut ed = editor("abc");
    typed(&mut ed, "rz");
    assert_eq!(ed.lines, vec!["zbc"]);
    assert_eq!(ed.mode, VimMode::Normal);
}

#[test]
fn pending_count_and_operator_show_on_status_line() {
    let mut ed = editor("a b c");
    typed(&mut ed, "2d");
    assert_eq!(ed.command_line, "2d");
    typed(&mut ed, "w");
    assert_eq!(ed.lines, vec!["c"]);
    assert_eq!(ed.command_line, "");
}

#[test]
fn unhandled_and_special_actions() {
    let mut ed = editor("abc");
    assert_eq!(ed.handle_key(key(' ')), EditorAction::Unhandled(key(' ')));
    assert_eq!(ed.handle_key(special(KeyCode::Esc)), EditorAction::Unhandled(special(KeyCode::Esc)));
    assert_eq!(ed.handle_key(key('K')), EditorAction::Hover);
    assert_eq!(ed.handle_key(ctrl('S')), EditorAction::Save);
    ed.handle_key(key('g'));
    assert_eq!(ed.handle_key(key('d')), EditorAction::GoToDefinition);
    ed.handle_key(key('g'));
    ed.handle_key(key('c'));
    assert_eq!(ed.handle_key(key('c')), EditorAction::ToggleComment);
    assert_eq!(ed.handle_key(key('Q')), EditorAction::Unhandled(key('Q')));
}

#[test]
fn visual_gc_asks_for_block_comment() {
    let mut ed = editor("a\nb\nc");
    typed(&mut ed, "Vj");
    ed.handle_key(key('g'));
    let action = ed.handle_key(key('c'));
    assert_eq!(action, EditorAction::ToggleBlockComment { start_row: 0, end_row: 1 });
    assert_eq!(ed.mode, VimMode::Normal);
}

#[test]
fn ctrl_s_in_insert_mode_saves() {
    let mut ed = editor("a");
    typed(&mut ed, "i");
    assert_eq!(ed.handle_key(ctrl('s')), EditorAction::Save);
    assert_eq!(ed.mode, VimMode::Normal);
}

#[test]
fn paste_first_clipboard_line_into_prompt() {
    let mut ed = editor("abc\nxyz");
    typed(&mut ed, "/");
    ed.paste_into_prompt("xy\nmore");
    assert_eq!(ed.search.input_buffer, "xy");
    ed.handle_key(special(KeyCode::Enter));
    assert_eq!((ed.cursor_row, ed.cursor_col), (1, 0));
    let mut other = editor("abc");
    other.paste_into_prompt("ignored");
    assert_eq!(other.lines, vec!["abc"]);
    assert!(!other.search.active);
}

#[test]
fn star_searches_word_under_cursor() {
    let mut ed = editor("cat dog cat");
    assert_eq!(ed.word_under_cursor(), Some("cat".to_string()));
    typed(&mut ed, "*");
    assert_eq!(ed.cursor_col, 8);
    assert_eq!(ed.search.pattern, "cat");
}

#[test]
fn percent_jumps_to_matching_bracket() {
    let mut ed = editor("f(a[1])");
    typed(&mut ed, "f(%");
    assert_eq!(ed.cursor_col, 6);
    typed(&mut ed, "%");
    assert_eq!(ed.cursor_col, 1);
}

#[test]
fn noh_clears_search_pattern() {
    let mut ed = editor("abc");
    typed(&mut ed, "/b");
    ed.handle_key(special(KeyCode::Enter));
    assert_eq!(ed.search.pattern, "b");
    typed(&mut ed, ":noh");
    ed.handle_key(special(KeyCode::Enter));
    assert_eq!(ed.search.pattern, "");
}

#[test]
fn cursor_shape_follows_mode() {
    let mut ed = editor("abc");
    assert_eq!(ed.cursor_shape(), vimltui::CursorShape::Block);
    typed(&mut ed, "i");
    assert_eq!(ed.cursor_shape(), vimltui::CursorShape::Bar);
    ed.handle_key(special(KeyCode::Esc));
    typed(&mut ed, "R");
    assert_eq!(ed.cursor_shape(), vimltui::CursorShape::Underline);
}

#[test]
fn paste_clipboard_text_after_cursor() {
    let mut ed = editor("abcd");
    typed(&mut ed, "l");
    ed.paste_text("XY");
    assert_eq!(ed.lines, vec!["abXYcd"]);
    assert_eq!((ed.cursor_row, ed.cursor_col), (0, 3));
    typed(&mut ed, "u");
    assert_eq!(ed.lines, vec!["abcd"]);
}

#[test]
fn paste_clipboard_text_with_line_breaks() {
    let mut ed = editor("abcd\nz");
    typed(&mut ed, "l");
    ed.paste_text("1\n2\n34");
    assert_eq!(ed.lines, vec!["ab1", "2", "34cd", "z"]);
    assert_eq!((ed.cursor_row, ed.cursor_col), (2, 2));
    let mut empty = editor("abc");
    empty.paste_text("");
    assert_eq!(empty.lines, vec!["abc"]);
    assert!(!empty.modified);
}

#[test]
fn consistency_check() {
    let mut ed = editor("a\nb");
    assert!(ed.is_consistent());
    ed.cursor_row = 5;
    assert!(!ed.is_consistent());
    let mut ro = VimEditor::new("a", VimModeConfig::read_only());
    assert!(ro.is_consistent());
    ro.mode = VimMode::Insert;
    assert!(!ro.is_consistent());
}

#[test]
fn delete_lines_then_put_back_restores_text() {
    let mut ed = editor("one\ntwo\nthree\nfour");
    typed(&mut ed, "j2dd");
    assert_eq!(ed.lines, vec!["one", "four"]);
    assert_eq!(ed.unnamed_register.content, "two\nthree");
    typed(&mut ed, "P");
    assert_eq!(ed.lines, vec!["one", "two", "three", "four"]);
}

#[test]
fn substitution_without_match_leaves_buffer_unmodified() {
    let mut ed = editor("abc");
    typed(&mut ed, ":s/zzz/y/");
    ed.handle_key(special(KeyCode::Enter));
    assert_eq!(ed.lines, vec!["abc"]);
    assert!(!ed.modified);
}

#[test]
fn smartcase_uppercase_pattern_is_case_sensitive() {
    let mut ed = editor("foo Foo");
    typed(&mut ed, ":s/Foo/x/");
    ed.handle_key(special(KeyCode::Enter));
    assert_eq!(ed.lines, vec!["foo x"]);
    let mut lower = editor("Foo foo");
    typed(&mut lower, ":s/foo/x/");
    lower.handle_key(special(KeyCode::Enter));
    assert_eq!(lower.lines, vec!["x foo"]);
    let mut flag = editor("FOO");
    typed(&mut flag, ":s/Foo/x/i");
    flag.handle_key(special(KeyCode::Enter));
    assert_eq!(flag.lines, vec!["x"]);
}

#[test]
fn join_and_toggle_with_counts() {
    let mut ed = editor("a\nb\nc\nd");
    typed(&mut ed, "2J");
    assert_eq!(ed.lines, vec!["a b c", "d"]);
    let mut t = editor("abcd");
    typed(&mut t, "3~");
    assert_eq!(t.lines, vec!["ABCd"]);
    assert_eq!(t.cursor_col, 3);
}

#[test]
fn case_operators_use_unicode_mappings() {
    let mut ed = editor("straße ÀB");
    typed(&mut ed, "gUw");
    assert_eq!(ed.lines, vec!["STRASSE ÀB"]);
    typed(&mut ed, "$guiw");
    assert_eq!(ed.lines, vec!["STRASSE àb"]);
}

#[test]
fn search_for_absent_pattern_keeps_cursor() {
    let mut ed = editor("abc\ndef");
    typed(&mut ed, "jl/zzz");
    ed.handle_key(special(KeyCode::Enter));
    assert_eq!((ed.cursor_row, ed.cursor_col), (1, 1));
    assert_eq!(ed.search.pattern, "zzz");
}

#[test]
fn backward_search_wraps_to_last_match() {
    let mut ed = editor("xa\nb\nxc");
    typed(&mut ed, "?x");
    ed.handle_key(special(KeyCode::Enter));
    assert_eq!((ed.cursor_row, ed.cursor_col), (2, 0));
    typed(&mut ed, "N");
    assert_eq!((ed.cursor_row, ed.cursor_col), (0, 0));
}

#[test]
fn basic_motions_stay_inside_the_lines() {
    let mut ed = editor("abc\nde\nfghij");
    typed(&mut ed, "$");
    assert_eq!((ed.cursor_row, ed.cursor_col), (0, 2));
    typed(&mut ed, "l");
    assert_eq!((ed.cursor_row, ed.cursor_col), (0, 2));
    typed(&mut ed, "j");
    assert_eq!((ed.cursor_row, ed.cursor_col), (1, 1));
    typed(&mut ed, "h");
    assert_eq!((ed.cursor_row, ed.cursor_col), (1, 0));
    typed(&mut ed, "h");
    assert_eq!((ed.cursor_row, ed.cursor_col), (1, 0));
    typed(&mut ed, "jj");
    assert_eq!(ed.cursor_row, 2);
    typed(&mut ed, "$");
    assert_eq!(ed.cursor_col, 4);
    typed(&mut ed, "0");
    assert_eq!(ed.cursor_col, 0);
    typed(&mut ed, "k");
    assert_eq!((ed.cursor_row, ed.cursor_col), (1, 0));
    ed.handle_key(special(KeyCode::Up));
    ed.handle_key(special(KeyCode::Up));
    assert_eq!(ed.cursor_row, 0);
    assert_eq!(ed.lines, vec!["abc", "de", "fghij"]);
}

#[test]
fn append_keys_place_the_insert_cursor() {
    let mut ed = editor("  abc");
    typed(&mut ed, "A");
    assert_eq!((ed.mode, ed.cursor_col), (VimMode::Insert, 5));
    ed.handle_key(special(KeyCode::Esc));
    typed(&mut ed, "I");
    assert_eq!((ed.mode, ed.cursor_col), (VimMode::Insert, 2));
    ed.handle_key(special(KeyCode::Esc));
    typed(&mut ed, "0a");
    assert_eq!((ed.mode, ed.cursor_col), (VimMode::Insert, 1));
    assert_eq!(ed.lines, vec!["  abc"]);
}

#[test]
fn visual_modes_anchor_at_the_cursor() {
    let mut ed = editor("ab\ncd\nef");
    typed(&mut ed, "jl");
    typed(&mut ed, "V");
    assert_eq!(ed.mode, VimMode::Visual(VisualKind::Line));
    assert_eq!(ed.visual_anchor, Some((1, 1)));
    ed.handle_key(special(KeyCode::Esc));
    ed.handle_key(ctrl('v'));
    assert_eq!(ed.mode, VimMode::Visual(VisualKind::Block));
    ed.handle_key(special(KeyCode::Esc));
    typed(&mut ed, "Vjd");
    assert_eq!(ed.lines, vec!["ab"]);
    assert!(ed.unnamed_register.linewise);
    assert_eq!(ed.unnamed_register.content, "cd\nef");
    assert_eq!(ed.mode, VimMode::Normal);
}

#[test]
fn operators_over_motions() {
    let mut ed = editor("one two three\nfour\nfive\nsix");
    typed(&mut ed, "wd$");
    assert_eq!(ed.lines, vec!["one ", "four", "five", "six"]);
    typed(&mut ed, "jdj");
    assert_eq!(ed.lines, vec!["one ", "six"]);
    typed(&mut ed, "jyy");
    assert_eq!(ed.lines, vec!["one ", "six"]);
    assert_eq!(ed.unnamed_register.content, "six");
    let mut ed2 = editor("a b c d");
    typed(&mut ed2, "d2w");
    assert_eq!(ed2.lines, vec!["c d"]);
}

#[test]
fn yank_inner_word_fills_register() {
    let mut ed = editor("foo bar baz");
    typed(&mut ed, "wyiw");
    assert_eq!(ed.unnamed_register.content, "bar");
    assert!(!ed.unnamed_register.linewise);
    assert_eq!(ed.lines, vec!["foo bar baz"]);
    typed(&mut ed, "daw");
    assert_eq!(ed.lines, vec!["foo baz"]);
    assert_eq!(ed.unnamed_register.content, "bar ");
}

#[test]
fn insert_mode_tab_and_arrow_keys() {
    let mut ed = editor("ab");
    typed(&mut ed, "i");
    ed.handle_key(special(KeyCode::Tab));
    assert_eq!(ed.lines, vec!["    ab"]);
    ed.handle_key(special(KeyCode::End));
    assert_eq!(ed.cursor_col, 6);
    ed.handle_key(special(KeyCode::Right));
    assert_eq!(ed.cursor_col, 6);
    ed.handle_key(special(KeyCode::Left));
    assert_eq!(ed.cursor_col, 5);
    ed.handle_key(special(KeyCode::Home));
    assert_eq!(ed.cursor_col, 0);
    ed.handle_key(special(KeyCode::Left));
    assert_eq!(ed.cursor_col, 0);
    assert_eq!(ed.mode, VimMode::Insert);
    assert_eq!(ed.handle_key(ctrl('s')), EditorAction::Save);
    assert_eq!(ed.mode, VimMode::Normal);
}

#[test]
fn big_x_removes_before_the_cursor() {
    let mut ed = editor("abcdef");
    typed(&mut ed, "$2X");
    assert_eq!(ed.lines, vec!["abcf"]);
    assert_eq!(ed.cursor_col, 3);
    typed(&mut ed, "0X");
    assert_eq!(ed.lines, vec!["abcf"]);
    typed(&mut ed, "l9X");
    assert_eq!(ed.lines, vec!["bcf"]);
    assert_eq!(ed.cursor_col, 0);
}

#[test]
fn visual_paste_replaces_the_selection() {
    let mut ed = editor("xx bar yy");
    typed(&mut ed, "yiwwvep");
    assert_eq!(ed.lines, vec!["xx xx yy"]);
    assert_eq!(ed.mode, VimMode::Normal);
    assert_eq!(ed.unnamed_register.content, "xx");
}

#[test]
fn yank_flash_goes_after_its_duration() {
    let mut ed = editor("abc");
    typed(&mut ed, "yy");
    assert!(ed.yank_highlight.is_some());
    ed.drop_yank_after(150);
    assert!(ed.yank_highlight.is_some());
    ed.drop_yank_after(151);
    assert!(ed.yank_highlight.is_none());
    assert_eq!(ed.lines, vec!["abc"]);
}

#[test]
fn counted_replace_replaces_that_many() {
    let mut ed = editor("abcdef");
    typed(&mut ed, "5rx");
    assert_eq!(ed.lines, vec!["xxxxxf"]);
    assert_eq!(ed.cursor_col, 4);
    assert!(!ed.pending_replace);
    assert!(ed.pending_count.is_none());
    let mut ed2 = editor("ab");
    typed(&mut ed2, "9ry");
    assert_eq!(ed2.lines, vec!["yy"]);
    assert_eq!(ed2.cursor_col, 1);
}

#[test]
fn ctrl_s_saves_in_normal_mode() {
    let mut ed = editor("abc");
    assert_eq!(ed.handle_key(ctrl('s')), EditorAction::Save);
    assert_eq!(ed.handle_key(ctrl('S')), EditorAction::Save);
    assert_eq!(ed.lines, vec!["abc"]);
    assert_eq!(ed.mode, VimMode::Normal);
}

#[test]
fn visual_shift_keeps_the_selection() {
    let mut ed = editor("a\nb");
    typed(&mut ed, "Vj>");
    assert_eq!(ed.lines, vec!["    a", "    b"]);
    assert_eq!(ed.mode, VimMode::Visual(VisualKind::Line));
    assert_eq!(ed.visual_anchor, Some((0, 0)));
    typed(&mut ed, ">");
    assert_eq!(ed.lines, vec!["        a", "        b"]);
    typed(&mut ed, "<");
    assert_eq!(ed.lines, vec!["    a", "    b"]);
    assert_eq!(ed.mode, VimMode::Visual(VisualKind::Line));
}

#[test]
fn uppercase_marks_are_kept() {
    let mut ed = editor("one\ntwo\nthree");
    typed(&mut ed, "jlmAgg`A");
    assert_eq!((ed.cursor_row, ed.cursor_col), (1, 1));
    assert_eq!(ed.mark_letter(1), Some('A'));
}

#[test]
fn gg_in_visual_mode_extends_to_the_top() {
    let mut ed = editor("a\nb\nc");
    typed(&mut ed, "jjvgg");
    assert_eq!(ed.mode, VimMode::Visual(VisualKind::Char));
    assert_eq!(ed.visual_anchor, Some((2, 0)));
    assert_eq!((ed.cursor_row, ed.cursor_col), (0, 0));
    typed(&mut ed, "2gg");
    assert_eq!(ed.cursor_row, 1);
}

#[test]
fn search_is_smartcase() {
    let mut ed = editor("a foo Foo");
    typed(&mut ed, "/Foo");
    ed.handle_key(special(KeyCode::Enter));
    assert_eq!((ed.cursor_row, ed.cursor_col), (0, 6));
    let mut ed2 = editor("a Foo foo");
    typed(&mut ed2, "/foo");
    ed2.handle_key(special(KeyCode::Enter));
    assert_eq!((ed2.cursor_row, ed2.cursor_col), (0, 2));
}

#[test]
fn scroll_is_not_pulled_back_and_ctrl_d_stops_at_the_last_screen() {
    let mut ed = editor("0\n1\n2\n3\n4\n5\n6\n7\n8\n9");
    ed.visible_height = 5;
    ed.cursor_row = 9;
    ed.scroll_offset = 7;
    ed.ensure_cursor_visible();
    assert_eq!(ed.scroll_offset, 7);
    let mut ed2 = editor("0\n1\n2\n3\n4\n5\n6\n7\n8\n9");
    ed2.visible_height = 4;
    ed2.scroll_offset = 5;
    ed2.cursor_row = 7;
    ed2.half_page_down();
    assert_eq!(ed2.scroll_offset, 6);
    assert_eq!(ed2.cursor_row, 9);
}

#[test]
fn counted_x_cuts_into_the_register() {
    let mut ed = editor("abcdef");
    typed(&mut ed, "3x");
    assert_eq!(ed.lines, vec!["def"]);
    assert_eq!(ed.unnamed_register.content, "abc");
    assert!(!ed.unnamed_register.linewise);
    assert_eq!(ed.cursor_col, 0);
    assert!(ed.pending_count.is_none());
}

#[test]
fn typing_advances_the_cursor_and_ctrl_letters_insert_nothing() {
    let mut ed = editor("");
    typed(&mut ed, "iabc");
    assert_eq!(ed.lines, vec!["abc"]);
    assert_eq!(ed.cursor_col, 3);
    ed.handle_key(ctrl('h'));
    assert_eq!(ed.lines, vec!["abc"]);
    ed.handle_key(special(KeyCode::Esc));
    typed(&mut ed, "0Rxy");
    assert_eq!(ed.lines, vec!["xyc"]);
    assert_eq!(ed.cursor_col, 2);
}

#[test]
fn d_to_end_and_visual_o_swaps_ends() {
    let mut ed = editor("hello world");
    typed(&mut ed, "wD");
    assert_eq!(ed.lines, vec!["hello "]);
    assert_eq!(ed.unnamed_register.content, "world");
    let mut ed2 = editor("abcd");
    typed(&mut ed2, "vllo");
    assert_eq!(ed2.visual_anchor, Some((0, 2)));
    assert_eq!(ed2.cursor_col, 0);
}

#[test]
fn counted_x_keeps_the_column_and_saves_for_undo() {
    let mut ed = editor("abcdef");
    typed(&mut ed, "3x");
    assert_eq!(ed.lines, vec!["def"]);
    assert_eq!(ed.unnamed_register.content, "abc");
    assert!(!ed.unnamed_register.linewise);
    assert_eq!(ed.cursor_col, 0);
    assert!(ed.pending_count.is_none());
    assert_eq!(ed.undo_stack.last().unwrap().lines, vec!["abcdef"]);
    assert_eq!(ed.clipboard_out, Some("abc".to_string()));
}

#[test]
fn counted_r_clears_the_pending_state() {
    let mut ed = editor("abcdef");
    typed(&mut ed, "5r");
    assert!(ed.pending_replace);
    assert_eq!(ed.pending_count, Some(5));
    typed(&mut ed, "x");
    assert_eq!(ed.lines, vec!["xxxxxf"]);
    assert_eq!(ed.cursor_col, 4);
    assert!(!ed.pending_replace);
    assert!(ed.pending_count.is_none());
}

#[test]
fn mark_name_clears_the_pending_mark() {
    let mut ed = editor("abc");
    typed(&mut ed, "lm");
    assert!(ed.pending_mark);
    typed(&mut ed, "A");
    assert!(!ed.pending_mark);
    assert_eq!(ed.lines, vec!["abc"]);
    assert_eq!(ed.mark_letter(0), Some('A'));
    typed(&mut ed, "0`A");
    assert_eq!((ed.cursor_row, ed.cursor_col), (0, 1));
}

#[test]
fn ctrl_s_in_normal_mode_changes_nothing() {
    let mut ed = editor("abc");
    typed(&mut ed, "l");
    assert_eq!(ed.handle_key(ctrl('s')), EditorAction::Save);
    assert_eq!(ed.lines, vec!["abc"]);
    assert_eq!(ed.mode, VimMode::Normal);
    assert_eq!((ed.cursor_row, ed.cursor_col), (0, 1));
    assert!(ed.undo_stack.is_empty());
}

#[test]
fn visual_o_keeps_the_visual_kind() {
    let mut ed = editor("hello");
    typed(&mut ed, "vlll");
    typed(&mut ed, "o");
    assert_eq!(ed.mode, VimMode::Visual(VisualKind::Char));
    assert_eq!(ed.visual_anchor, Some((0, 3)));
    assert_eq!((ed.cursor_row, ed.cursor_col), (0, 0));
    assert_eq!(ed.lines, vec!["hello"]);
}

#[test]
fn ctrl_w_and_ctrl_u_in_insert_mode() {
    let mut ed = editor("foo bar  baz");
    typed(&mut ed, "A");
    ed.handle_key(ctrl('w'));
    assert_eq!(ed.lines, vec!["foo bar  "]);
    assert_eq!(ed.cursor_col, 9);
    ed.handle_key(ctrl('w'));
    assert_eq!(ed.lines, vec!["foo "]);
    assert_eq!(ed.cursor_col, 4);
    ed.handle_key(ctrl('u'));
    assert_eq!(ed.lines, vec![""]);
    assert_eq!(ed.cursor_col, 0);
    assert_eq!(ed.mode, VimMode::Insert);
    ed.handle_key(ctrl('u'));
    assert_eq!(ed.lines, vec![""]);
    let mut ed = editor("a.b");
    typed(&mut ed, "A");
    ed.handle_key(ctrl('w'));
    assert_eq!(ed.lines, vec!["a."]);
    ed.handle_key(ctrl('w'));
    assert_eq!(ed.lines, vec!["a."]);
    assert_eq!(ed.cursor_col, 2);
}

#[test]
fn content_gives_the_text_back_with_tabs_expanded() {
    assert_eq!(editor("a\tb\nc").content(), "a    b\nc");
    assert_eq!(editor("").content(), "");
    assert_eq!(editor("one\n\ntwo").content(), "one\n\ntwo");
}

#[test]
fn motion_ranges_are_ordered() {
    let mut ed = editor("foo bar\nbaz");
    ed.cursor_col = 5;
    let r = ed.compute_motion_range(&Motion::WordBack, 1).unwrap();
    assert_eq!(r, MotionRange { start_row: 0, start_col: 4, end_row: 0, end_col: 5, linewise: false });
    let r = ed.compute_motion_range(&Motion::WordForward, 2).unwrap();
    assert_eq!((r.start_row, r.start_col, r.end_row, r.end_col, r.linewise), (0, 5, 1, 3, false));
    let r = ed.compute_motion_range(&Motion::Line, 5).unwrap();
    assert_eq!(r, MotionRange { start_row: 0, start_col: 0, end_row: 1, end_col: 0, linewise: true });
    let r = ed.compute_motion_range(&Motion::Line, 0).unwrap();
    assert_eq!(r, MotionRange { start_row: 0, start_col: 0, end_row: 0, end_col: 0, linewise: true });
    assert!(ed.compute_motion_range(&Motion::FindCharForward('z'), 1).is_none());
    ed.execute_operator(&Operator::Yank, &Motion::Line, 0);
    assert_eq!(ed.unnamed_register.content, "foo bar");
    assert!(ed.unnamed_register.linewise);
}

#[test]
fn z_keys_scroll_and_clear_the_prefix() {
    let mut ed = editor("0\n1\n2\n3\n4\n5\n6\n7\n8\n9");
    ed.visible_height = 4;
    ed.cursor_row = 5;
    for (c, offset) in [('t', 5), ('z', 3), ('b', 2)] {
        ed.handle_normal(key('z'), 0);
        assert!(ed.pending_z);
        ed.handle_normal(key(c), 0);
        assert!(!ed.pending_z);
        assert_eq!(ed.scroll_offset, offset);
        assert_eq!((ed.cursor_row, ed.cursor_col), (5, 0));
    }
    ed.handle_normal(key('3'), 0);
    ed.handle_normal(key('z'), 0);
    ed.handle_normal(key('q'), 0);
    assert!(ed.pending_count.is_none());
    assert!(!ed.pending_z);
    assert_eq!(ed.scroll_offset, 2);
}

#[test]
fn g_keys_clear_the_prefix() {
    let mut ed = editor("one\ntwo\nthree");
    typed(&mut ed, "3gg");
    assert_eq!(ed.cursor_row, 2);
    assert!(ed.pending_count.is_none());
    assert!(!ed.pending_g);
    typed(&mut ed, "gU");
    assert_eq!(ed.pending_operator, Some(Operator::Uppercase));
    typed(&mut ed, "w");
    assert_eq!(ed.lines, vec!["one", "two", "THREE"]);
    typed(&mut ed, "2g");
    assert_eq!(ed.handle_key(key('d')), EditorAction::GoToDefinition);
    assert!(ed.pending_count.is_none());
    typed(&mut ed, "gc");
    assert!(ed.pending_gc);
    assert_eq!(ed.handle_key(key('c')), EditorAction::ToggleComment);
    typed(&mut ed, "gg");
    assert_eq!((ed.cursor_row, ed.cursor_col), (0, 0));
}

#[test]
fn up_and_down_in_insert_mode_clamp_the_column() {
    let mut ed = editor("abcdef\nxy");
    typed(&mut ed, "A");
    assert_eq!(ed.cursor_col, 6);
    ed.handle_key(special(KeyCode::Down));
    assert_eq!((ed.cursor_row, ed.cursor_col), (1, 2));
    ed.handle_key(special(KeyCode::Down));
    assert_eq!((ed.cursor_row, ed.cursor_col), (1, 2));
    ed.handle_key(special(KeyCode::Up));
    assert_eq!((ed.cursor_row, ed.cursor_col), (0, 2));
    ed.handle_key(special(KeyCode::Up));
    assert_eq!((ed.cursor_row, ed.cursor_col), (0, 2));
    assert_eq!(ed.lines, vec!["abcdef", "xy"]);
}
