//! Where every key enters: the `/` and `?` prompt, the `:` prompt and its Ex commands, the
//! status line, Normal mode with its pending prefixes, and the playing of macros.
use vstd::prelude::*;

use super::input::{
    any_char, big_x_text, count_digit, digit_of_char, entered_insert, entered_visual, insert_action, is_digit, joined_text,
    lines_deleted, mark_set, moved_to, normal_action, normal_key_done, only_count_pending, operator_motion, operator_register, operator_text, text_object_done, text_object_pending, pending_find_done, replace_done, insert_moved_col, visual_pasted_text, normal_handles, nothing_pending, only_operator_pending, opened_text, plain,
    put_after_text, put_before_text, simple_movement, tilde_text, typed_text, undo_text, visual_action, with_ctrl, x_text,
    g_done, z_done,
    MACRO_DEPTH,
};
use super::motions::{last_row, min_int};
use super::substitute::{
    chars_equal, extract_substitute_parts, parse_substitute, parse_usize, parsed_substitute,
    parsed_usize, substitute_parts, substitution_done, trim_chars, trimmed,
};
use super::insert::{backspace_text, delete_text, entered_text, replaced_text, tabbed_text};
use super::preview::substitute_preview;
use super::VimEditor;
use crate::render::{decimal, decimal_string};
use crate::text::{chars_of, concat_strings, leading_ws, push_char, split_lines, std_lines, string_of};
use crate::{EditorAction, Key, KeyCode, Operator, VimMode, VisualKind};

verus! {

/// The macro register that `key` names after `@` in state `ed`: a character names its
/// register, `@` the register played last; another key names none.
pub open spec fn macro_register(ed: VimEditor, key: Key) -> Option<char> {
    match key.code {
        KeyCode::Char(c) => if c == '@' {
            ed.last_macro
        } else {
            Some(c)
        },
        _ => None,
    }
}

/// The lines of `ed` after the Ex command `cmd`: a substitution with a valid pattern
/// rewrites the rows of its range; every other command leaves the lines alone.
pub open spec fn command_text(ed: VimEditor, cmd: Seq<char>) -> Seq<Seq<char>> {
    let t = trimmed(cmd);
    if parsed_usize(t) is Some || t == "noh"@ || t == "nohlsearch"@ || command_action(cmd) != EditorAction::Handled {
        ed.text()
    } else {
        match parsed_substitute(t) {
            Some(v) => if super::substitute::regex_valid(super::substitute::sub_regex(v)) {
                let (a, b) = super::substitute::sub_rows(v.0, ed.text().len() as int, ed.cursor_row as int);
                super::substitute::substituted(ed.text(), super::substitute::sub_regex(v), v.2, v.3, a, b)
            } else {
                ed.text()
            },
            None => ed.text(),
        }
    }
}

/// The row of the cursor of `ed` after the Ex command `cmd`, for a line number: that line
/// (counted from one, the last line at most; 0 keeps the line), clamped.
pub open spec fn command_row(ed: VimEditor, cmd: Seq<char>) -> int {
    match parsed_usize(trimmed(cmd)) {
        Some(n) => super::clamp_row_of(ed.text(), if n > 0 {
            min_int(n - 1, last_row(ed.text())) as usize
        } else {
            ed.cursor_row
        }) as int,
        None => ed.cursor_row as int,
    }
}

/// What an Ex command answers, once trimmed: `w` saves, `q` closes, `q!` closes without
/// saving, `wq` and `x` save and close; a line number, `noh`, a substitution and anything
/// else are handled in place.
pub open spec fn command_action(cmd: Seq<char>) -> EditorAction {
    let t = trimmed(cmd);
    if parsed_usize(t) is Some {
        EditorAction::Handled
    } else if t == "w"@ {
        EditorAction::Save
    } else if t == "q"@ {
        EditorAction::Close
    } else if t == "q!"@ {
        EditorAction::ForceClose
    } else if t == "wq"@ || t == "x"@ {
        EditorAction::SaveAndClose
    } else {
        EditorAction::Handled
    }
}

/// What the editor in state `ed` answers to `key`: the `:` prompt answers Enter with its
/// command, the `/` prompt handles every key, and otherwise the mode decides.
pub open spec fn key_action(ed: VimEditor, key: Key) -> EditorAction {
    if ed.command_active {
        if key.code == KeyCode::Enter {
            command_action(ed.command_buffer@)
        } else {
            EditorAction::Handled
        }
    } else if ed.search.active {
        EditorAction::Handled
    } else {
        match ed.mode {
            VimMode::Normal => normal_action(ed, key),
            VimMode::Visual(_) => visual_action(ed, key),
            _ => insert_action(key),
        }
    }
}

/// The first line of `s`, as `str::lines` yields it (nothing when `s` has no line).
pub open spec fn first_line(s: Seq<char>) -> Seq<char> {
    if std_lines(s).len() > 0 {
        std_lines(s)[0]
    } else {
        Seq::empty()
    }
}

/// `s` without its last character (nothing to take from an empty `s`).
pub open spec fn without_last(s: Seq<char>) -> Seq<char> {
    if s.len() == 0 {
        s
    } else {
        s.drop_last()
    }
}

/// The character that shows a pending operator.
pub open spec fn operator_char(op: Operator) -> char {
    match op {
        Operator::Delete => 'd',
        Operator::Yank => 'y',
        Operator::Change => 'c',
        Operator::Indent => '>',
        Operator::Dedent => '<',
        Operator::Uppercase => 'U',
        Operator::Lowercase => 'u',
        Operator::ToggleCase => '~',
    }
}

/// The status line of state `ed`: the `:` prompt with what was typed; in Normal mode the
/// `/` or `?` prompt, or the pending count and operator; the name of the other modes.
pub open spec fn status_text(ed: VimEditor) -> Seq<char> {
    if ed.command_active {
        seq![':'] + ed.command_buffer@
    } else {
        match ed.mode {
            VimMode::Normal => if ed.search.active {
                seq![if ed.search.forward { '/' } else { '?' }] + ed.search.input_buffer@
            } else {
                (match ed.pending_count {
                    Some(n) => decimal(n as nat),
                    None => Seq::empty(),
                }) + (match ed.pending_operator {
                    Some(op) => seq![operator_char(op)],
                    None => Seq::empty(),
                })
            },
            VimMode::Insert => "-- INSERT --"@,
            VimMode::Replace => "-- REPLACE --"@,
            VimMode::Visual(VisualKind::Char) => "-- VISUAL --"@,
            VimMode::Visual(VisualKind::Line) => "-- VISUAL LINE --"@,
            VimMode::Visual(VisualKind::Block) => "-- VISUAL BLOCK --"@,
        }
    }
}

/// The search pattern that the `:` prompt shows while `cmd` is typed: the pattern of the
/// substitution typed so far, or nothing.
pub open spec fn typed_pattern(cmd: Seq<char>) -> Seq<char> {
    match substitute_parts(trimmed(cmd)) {
        Some((p, _, _, _)) => p,
        None => Seq::empty(),
    }
}

/// `s` without its last character, executably.
fn without_last_char(s: &String) -> (r: String)
    ensures
        r@ == without_last(s@),
{
    let mut v = chars_of(s.as_str());
    if v.len() > 0 {
        v.pop();
    }
    string_of(&v)
}

/// Executable form of [`normal_handles`].
fn normal_handles_exec(key: Key) -> (r: bool)
    ensures
        r == normal_handles(key),
{
    if super::input::movement_key_exec(key) || super::input::scroll_key_exec(key) {
        return true;
    }
    let ctrl = key.ctrl;
    match key.code {
        KeyCode::Char(c) => match c {
            'g' | 'H' | 'M' | 'L' | 'i' | 'a' | 'I' | 'A' | 'o' | 'O' | 'd' | 'y' | 'c' | '>' | '<' | 'x'
            | 'X' | 'D' | 'C' | 'Y' | 'S' | 'J' | '%' | 'r' | 'R' | '"' | 'p' | 'P' | '~' | 'f' | 'F'
            | 't' | 'T' | ';' | ',' | '/' | '?' | 'n' | 'N' | '*' | '#' | 'v' | 'V' | '.' | 'm' | '\''
            | '`' | ']' | '[' | '@' | 'K' | 'z' | ':' | 's' => true,
            'u' | 'q' => !ctrl,
            _ => false,
        },
        KeyCode::Enter => ctrl,
        KeyCode::Delete => true,
        _ => false,
    }
}

impl VimEditor {
    /// A key while the `/` or `?` prompt is open: Esc closes it, Enter searches for what
    /// was typed, Backspace takes back the last character, a character without Control is
    /// typed; other keys do nothing.
    pub fn handle_search_input(&mut self, key: Key)
        requires
            old(self).inv(),
        ensures
            final(self).inv(),
            final(self).config == old(self).config,
            final(self).text() == old(self).text(),
            key.code == KeyCode::Esc ==> !final(self).search.active && final(self).search.input_buffer@.len() == 0
                && final(self).search.pattern == old(self).search.pattern,
            key.code == KeyCode::Enter ==> !final(self).search.active && final(self).search.pattern@
                == old(self).search.input_buffer@,
            key.code == KeyCode::Backspace ==> final(self).search.active == old(self).search.active
                && final(self).search.input_buffer@ == without_last(old(self).search.input_buffer@),
            key.code matches KeyCode::Char(c) ==> (!key.ctrl ==> final(self).search.active == old(self).search.active
                && final(self).search.input_buffer@ == old(self).search.input_buffer@.push(c)),
    {
        match key.code {
            KeyCode::Esc => self.cancel_search(),
            KeyCode::Enter => self.commit_search(),
            KeyCode::Backspace => {
                self.search.input_buffer = without_last_char(&self.search.input_buffer);
            },
            KeyCode::Char(c) => {
                if !key.ctrl {
                    push_char(&mut self.search.input_buffer, c);
                }
            },
            _ => {},
        }
    }

    /// Closes the `:` prompt, dropping what was typed, the pattern it showed and its
    /// preview.
    fn close_command_prompt(&mut self)
        ensures
            *final(self) == (VimEditor {
                command_active: false,
                command_buffer: final(self).command_buffer,
                search: final(self).search,
                preview_lines: None,
                preview_highlights: final(self).preview_highlights,
                ..*old(self)
            }),
            final(self).command_buffer@.len() == 0,
            final(self).search == (crate::SearchState { pattern: final(self).search.pattern, ..old(self).search }),
            final(self).search.pattern@.len() == 0,
            final(self).preview_highlights@.len() == 0,
    {
        self.command_active = false;
        self.command_buffer = String::new();
        self.search.pattern = String::new();
        self.preview_lines = None;
        self.preview_highlights = Vec::new();
    }

    /// A key while the `:` prompt is open: Esc closes it, Enter closes it and runs the
    /// command, Backspace takes back the last character (and closes an empty prompt), a
    /// character without Control is typed; other keys do nothing.
    pub fn handle_command_input(&mut self, key: Key) -> (r: EditorAction)
        requires
            old(self).inv(),
            old(self).command_active,
        ensures
            final(self).inv(),
            final(self).config == old(self).config,
            r == (if key.code == KeyCode::Enter { command_action(old(self).command_buffer@) } else { EditorAction::Handled }),
            key.code == KeyCode::Esc ==> !final(self).command_active && final(self).text() == old(self).text(),
            key.code == KeyCode::Backspace ==> final(self).text() == old(self).text() && if old(self).command_buffer@.len() == 0 {
                !final(self).command_active
            } else {
                final(self).command_active && final(self).command_buffer@ == without_last(old(self).command_buffer@)
            },
            key.code matches KeyCode::Char(c) ==> (!key.ctrl ==> final(self).command_active && final(self).command_buffer@
                == old(self).command_buffer@.push(c) && final(self).text() == old(self).text()),
            key.code == KeyCode::Enter ==> !final(self).command_active
                && final(self).text() == command_text(*old(self), old(self).command_buffer@)
                && (parsed_usize(trimmed(old(self).command_buffer@)) is Some ==> final(self).cursor_row
                == command_row(*old(self), old(self).command_buffer@)),
    {
        match key.code {
            KeyCode::Esc => {
                self.close_command_prompt();
                EditorAction::Handled
            },
            KeyCode::Enter => {
                let cmd = chars_of(self.command_buffer.as_str());
                self.close_command_prompt();
                let action = self.execute_command(&cmd);
                self.ensure_cursor_visible();
                action
            },
            KeyCode::Backspace => {
                if self.command_buffer.as_str().is_empty() {
                    self.close_command_prompt();
                } else {
                    self.command_buffer = without_last_char(&self.command_buffer);
                }
                EditorAction::Handled
            },
            KeyCode::Char(c) => {
                if !key.ctrl {
                    push_char(&mut self.command_buffer, c);
                }
                EditorAction::Handled
            },
            _ => EditorAction::Handled,
        }
    }

    /// Runs an Ex command (`cmd` is trimmed first): a number moves to that line, `noh`
    /// and `nohlsearch` clear the search pattern, a substitution is run, and `w`, `q`,
    /// `q!`, `wq`, `x` are answered to the embedding program; anything else does nothing.
    pub fn execute_command(&mut self, cmd: &Vec<char>) -> (r: EditorAction)
        requires
            old(self).inv(),
            !old(self).command_active,
        ensures
            final(self).inv(),
            final(self).config == old(self).config,
            !final(self).command_active,
            r == command_action(cmd@),
            final(self).text() == command_text(*old(self), cmd@),
            parsed_usize(trimmed(cmd@)) is Some ==> final(self).cursor_row == command_row(*old(self), cmd@),
            parsed_usize(trimmed(cmd@)) matches Some(n) ==> {
                &&& final(self).cursor_moved(old(self))
                &&& final(self).cursor_clamped_from(
                    if n > 0 {
                        min_int(n - 1, last_row(old(self).text())) as usize
                    } else {
                        old(self).cursor_row
                    },
                    old(self).cursor_col,
                )
            },
            parsed_usize(trimmed(cmd@)) is None && (trimmed(cmd@) == "noh"@ || trimmed(cmd@) == "nohlsearch"@)
                ==> *final(self) == (VimEditor { search: final(self).search, ..*old(self) })
                && final(self).search.pattern@.len() == 0,
            parsed_usize(trimmed(cmd@)) is None && command_action(cmd@) != EditorAction::Handled
                ==> *final(self) == *old(self),
            parsed_usize(trimmed(cmd@)) is None && trimmed(cmd@) != "noh"@ && trimmed(cmd@) != "nohlsearch"@
                && command_action(cmd@) == EditorAction::Handled ==> match parsed_substitute(trimmed(cmd@)) {
                    Some(v) => substitution_done(*old(self), *final(self), v),
                    None => *final(self) == *old(self),
                },
    {
        let t = trim_chars(cmd);
        match parse_usize(&t) {
            Some(n) => {
                self.move_to_line(n);
                proof {
                    super::lemma_clamp_rows_in(self.text());
                }
                return EditorAction::Handled;
            },
            None => {},
        }
        if chars_equal(&t, &chars_of("noh")) || chars_equal(&t, &chars_of("nohlsearch")) {
            proof {
                reveal_strlit("noh");
                reveal_strlit("nohlsearch");
                reveal_strlit("w");
                reveal_strlit("q");
                reveal_strlit("q!");
                reveal_strlit("wq");
                reveal_strlit("x");
            }
            self.search.pattern = String::new();
            return EditorAction::Handled;
        }
        if chars_equal(&t, &chars_of("w")) {
            return EditorAction::Save;
        }
        if chars_equal(&t, &chars_of("q")) {
            return EditorAction::Close;
        }
        if chars_equal(&t, &chars_of("q!")) {
            return EditorAction::ForceClose;
        }
        if chars_equal(&t, &chars_of("wq")) || chars_equal(&t, &chars_of("x")) {
            return EditorAction::SaveAndClose;
        }
        match parse_substitute(&t) {
            Some(sub) => self.execute_substitute(sub),
            None => {},
        }
        EditorAction::Handled
    }

    /// The status line, executably.
    fn status_line(&self) -> (r: String)
        ensures
            r@ == status_text(*self),
    {
        if self.command_active {
            let mut s = String::new();
            push_char(&mut s, ':');
            return concat_strings(s.as_str(), self.command_buffer.as_str());
        }
        match self.mode {
            VimMode::Normal => {
                if self.search.active {
                    let mut s = String::new();
                    push_char(&mut s, if self.search.forward { '/' } else { '?' });
                    concat_strings(s.as_str(), self.search.input_buffer.as_str())
                } else {
                    let mut s = match self.pending_count {
                        Some(n) => decimal_string(n as u128),
                        None => String::new(),
                    };
                    match self.pending_operator {
                        Some(op) => push_char(&mut s, operator_char_exec(op)),
                        None => {},
                    }
                    s
                }
            },
            VimMode::Insert => "-- INSERT --".to_owned(),
            VimMode::Replace => "-- REPLACE --".to_owned(),
            VimMode::Visual(VisualKind::Char) => "-- VISUAL --".to_owned(),
            VimMode::Visual(VisualKind::Line) => "-- VISUAL LINE --".to_owned(),
            VimMode::Visual(VisualKind::Block) => "-- VISUAL BLOCK --".to_owned(),
        }
    }

    /// Brings the status line up to date with the state; while the `:` prompt is open,
    /// the pattern of the substitution typed so far becomes the search pattern and its
    /// preview is computed.
    pub fn update_command_line(&mut self)
        requires
            old(self).wf(),
        ensures
            final(self).command_line@ == status_text(*old(self)),
            *final(self) == (VimEditor {
                command_line: final(self).command_line,
                search: final(self).search,
                preview_lines: final(self).preview_lines,
                preview_highlights: final(self).preview_highlights,
                ..*old(self)
            }),
            final(self).search == (crate::SearchState { pattern: final(self).search.pattern, ..old(self).search }),
            old(self).command_active ==> final(self).search.pattern@ == typed_pattern(old(self).command_buffer@),
            old(self).command_active ==> match substitute_preview(*old(self)) {
                Some((lines, marks)) => final(self).preview_lines matches Some(v) && v.deep_view() == lines
                    && final(self).preview_highlights@ == marks,
                None => final(self).preview_lines is None && final(self).preview_highlights@.len() == 0,
            },
            !old(self).command_active ==> final(self).search == old(self).search
                && final(self).preview_lines == old(self).preview_lines
                && final(self).preview_highlights == old(self).preview_highlights,
    {
        let preview = if self.command_active { self.compute_substitute_preview() } else { None };
        self.command_line = self.status_line();
        if self.command_active {
            let typed = trim_chars(&chars_of(self.command_buffer.as_str()));
            let pattern = match extract_substitute_parts(&typed) {
                Some((p, _, _, _)) => p,
                None => String::new(),
            };
            self.set_prompt_preview(pattern, preview);
        }
    }

    /// Puts in the search pattern and the preview that the `:` prompt shows.
    fn set_prompt_preview(&mut self, pattern: String, preview: Option<(Vec<String>, Vec<(usize, usize, usize)>)>)
        ensures
            *final(self) == (VimEditor {
                search: final(self).search,
                preview_lines: final(self).preview_lines,
                preview_highlights: final(self).preview_highlights,
                ..*old(self)
            }),
            final(self).search == (crate::SearchState { pattern: pattern, ..old(self).search }),
            match preview {
                Some((lines, marks)) => final(self).preview_lines == Some(lines) && final(self).preview_highlights == marks,
                None => final(self).preview_lines is None && final(self).preview_highlights@.len() == 0,
            },
    {
        let (lines, marks) = match preview {
            Some((lines, marks)) => (Some(lines), marks),
            None => (None, Vec::new()),
        };
        self.search.pattern = pattern;
        self.preview_lines = lines;
        self.preview_highlights = marks;
    }

    /// Handles a key in Normal mode (`depth` bounds how deep macros may play macros): a
    /// pending prefix takes the key first, then a count digit, then a pending operator
    /// takes it as its motion; otherwise the key is a command.
    pub fn handle_normal(&mut self, key: Key, depth: usize) -> (r: EditorAction)
        requires
            old(self).inv(),
            old(self).mode == VimMode::Normal,
        ensures
            final(self).inv(),
            final(self).config == old(self).config,
            r == normal_action(*old(self), key),
            nothing_pending(*old(self)) && plain(key, 'u') ==> final(self).text() == undo_text(*old(self)),
            nothing_pending(*old(self)) && any_char(key, ':') ==> final(self).command_active
                && final(self).command_buffer@.len() == 0 && final(self).text() == old(self).text(),
            nothing_pending(*old(self)) && any_char(key, 'i') ==> final(self).text() == old(self).text()
                && (old(self).config.insert_allowed ==> final(self).mode == VimMode::Insert),
            nothing_pending(*old(self)) && any_char(key, 'p') ==> final(self).text() == put_after_text(*old(self)),
            nothing_pending(*old(self)) && any_char(key, 'P') ==> final(self).text() == put_before_text(*old(self)),
            nothing_pending(*old(self)) && any_char(key, 'x') ==> final(self).text() == x_text(*old(self)),
            nothing_pending(*old(self)) && any_char(key, 'J') ==> final(self).text() == joined_text(*old(self)),
            nothing_pending(*old(self)) && any_char(key, 'X') ==> final(self).text() == big_x_text(*old(self)),
            nothing_pending(*old(self)) && simple_movement(key) ==> moved_to(*old(self), *final(self), key)
                && final(self).text() == old(self).text() && final(self).mode == VimMode::Normal,
            nothing_pending(*old(self)) && any_char(key, 'a') ==> entered_insert(*old(self), *final(self),
                min_int(old(self).cursor_col + 1, old(self).cur_len() as int)),
            nothing_pending(*old(self)) && any_char(key, 'A') ==> entered_insert(*old(self), *final(self),
                old(self).cur_len() as int),
            nothing_pending(*old(self)) && any_char(key, 'I') ==> entered_insert(*old(self), *final(self),
                leading_ws(old(self).cur_line()) as int),
            nothing_pending(*old(self)) && plain(key, 'v') ==> entered_visual(*old(self), *final(self), VisualKind::Char),
            nothing_pending(*old(self)) && with_ctrl(key, 'v') ==> entered_visual(*old(self), *final(self), VisualKind::Block),
            nothing_pending(*old(self)) && any_char(key, 'V') ==> entered_visual(*old(self), *final(self), VisualKind::Line),
            nothing_pending(*old(self)) && any_char(key, '~') ==> final(self).text() == tilde_text(*old(self)),
            nothing_pending(*old(self)) && any_char(key, 'o') ==> if old(self).config.insert_allowed {
                final(self).text() == opened_text(*old(self), true) && final(self).mode == VimMode::Insert
            } else {
                final(self).text() == old(self).text()
            },
            nothing_pending(*old(self)) && any_char(key, 'O') ==> if old(self).config.insert_allowed {
                final(self).text() == opened_text(*old(self), false) && final(self).mode == VimMode::Insert
            } else {
                final(self).text() == old(self).text()
            },
            only_operator_pending(*old(self)) && old(self).pending_operator == Some(Operator::Delete) && any_char(key, 'd')
                ==> final(self).text() == lines_deleted(*old(self)),
            only_operator_pending(*old(self)) && !count_digit(key, old(self).pending_count)
                && operator_motion(old(self).pending_operator->0, key) is Some ==> final(self).text() == operator_text(*old(self), key)
                && operator_register(*old(self), *final(self), key),
            text_object_pending(*old(self)) ==> text_object_done(*old(self), *final(self), key),
            !old(self).pending_register && old(self).pending_find is Some ==> pending_find_done(*old(self),
                *final(self), key),
            !old(self).pending_register && old(self).pending_find is None && old(self).pending_replace ==> replace_done(
                *old(self), *final(self), key),
            only_count_pending(*old(self)) && !count_digit(key, old(self).pending_count) && normal_handles(key)
                && !any_char(key, 'K') && !with_ctrl(key, 'S') && !with_ctrl(key, 's') ==> normal_key_done(*old(self),
                *final(self), key),
            !old(self).pending_register && old(self).pending_find is None && !old(self).pending_replace
                && !old(self).pending_z && !old(self).pending_g && !old(self).pending_gc
                && old(self).pending_text_object is None && old(self).pending_mark ==> mark_set(*old(self), *final(self),
                key),
            nothing_pending(*old(self)) && plain(key, 'd') ==> *final(self) == (VimEditor {
                pending_operator: Some(Operator::Delete),
                ..*old(self)
            }),
            only_count_pending(*old(self)) && (with_ctrl(key, 'S') || with_ctrl(key, 's')) ==> *final(self) == *old(self),
            !old(self).pending_register && old(self).pending_find is None && !old(self).pending_replace && old(self).pending_z
                ==> z_done(*old(self), *final(self), key),
            !old(self).pending_register && old(self).pending_find is None && !old(self).pending_replace && !old(self).pending_z
                && old(self).pending_g ==> g_done(*old(self), *final(self), key),
        decreases depth, 1usize,
    {
        if self.pending_register {
            self.pending_register = false;
            return EditorAction::Handled;
        }
        match self.pending_find {
            Some((dir, before)) => {
                self.pending_find = None;
                self.pending_find_key(key, dir, before);
                return EditorAction::Handled;
            },
            None => {},
        }
        if self.pending_replace {
            self.pending_replace = false;
            self.pending_replace_key(key);
            return EditorAction::Handled;
        }
        if self.pending_z {
            self.pending_z = false;
            self.handle_z_prefix(key);
            return EditorAction::Handled;
        }
        if self.pending_g {
            self.pending_g = false;
            return self.handle_g_prefix(key);
        }
        if self.pending_gc {
            self.pending_gc = false;
            return if key.code == KeyCode::Char('c') {
                EditorAction::ToggleComment
            } else {
                EditorAction::Handled
            };
        }
        match self.pending_text_object {
            Some(around) => {
                self.pending_text_object = None;
                self.handle_text_object_key(key, around);
                return EditorAction::Handled;
            },
            None => {},
        }
        if self.pending_mark {
            self.pending_mark = false;
            self.pending_mark_key(key);
            return EditorAction::Handled;
        }
        match self.pending_goto_mark {
            Some(exact) => {
                self.pending_goto_mark = None;
                self.pending_goto_mark_key(key, exact);
                return EditorAction::Handled;
            },
            None => {},
        }
        if self.pending_bracket.is_some() {
            self.pending_bracket = None;
            return EditorAction::Handled;
        }
        if self.pending_macro_record {
            self.pending_macro_record = false;
            self.pending_record_key(key);
            return EditorAction::Handled;
        }
        if self.pending_macro_play {
            self.pending_macro_play = false;
            self.play_macro_key(key, depth);
            return EditorAction::Handled;
        }
        match key.code {
            KeyCode::Char(c) => {
                if '0' <= c && c <= '9' && (c != '0' || self.pending_count.is_some()) {
                    assert(self.pending_count == old(self).pending_count);
                    assert(is_digit(c) && key.code == KeyCode::Char(c));
                    assert(count_digit(key, old(self).pending_count));
                    let d = digit_of_char(c);
                    self.push_count_digit(d);
                    return EditorAction::Handled;
                }
            },
            _ => {},
        }
        if self.pending_operator.is_some() {
            self.handle_operator_motion(key);
            return EditorAction::Handled;
        }
        if key.code == KeyCode::Char('K') {
            return EditorAction::Hover;
        }
        if (key.code == KeyCode::Char('S') || key.code == KeyCode::Char('s')) && key.ctrl {
            return EditorAction::Save;
        }
        if key.code == KeyCode::Char(' ') {
            return EditorAction::Unhandled(key);
        }
        if key.code == KeyCode::Esc {
            self.key_escape();
            return EditorAction::Unhandled(key);
        }
        if !normal_handles_exec(key) {
            return EditorAction::Unhandled(key);
        }
        self.normal_command(key);
        EditorAction::Handled
    }

    /// The register after `@`: plays the macro recorded there (`@@` the last one played)
    /// key by key, unless macros are already `depth` deep.
    #[verifier::spinoff_prover]
    #[verifier::rlimit(40)]
    fn play_macro_key(&mut self, key: Key, depth: usize)
        requires
            old(self).inv(),
        ensures
            final(self).inv(),
            final(self).config == old(self).config,
            macro_register(*old(self), key) is None ==> *final(self) == *old(self),
            macro_register(*old(self), key) matches Some(r) ==> (old(self).macro_keys(r) matches Some(keys) ==> (depth == 0
                || keys.len() == 0 ==> *final(self) == (VimEditor { last_macro: Some(r), ..*old(self) }))),
            macro_register(*old(self), key) matches Some(r) ==> (old(self).macro_keys(r) is None ==> *final(self) == (
                VimEditor { last_macro: Some(r), ..*old(self) })),
        decreases depth, 0usize,
    {
        let c = match key.code {
            KeyCode::Char(c) => c,
            _ => return,
        };
        let reg = if c == '@' { self.last_macro } else { Some(c) };
        let r = match reg {
            Some(r) => r,
            None => return,
        };
        self.last_macro = Some(r);
        let keys = match self.macro_keys_of(r) {
            Some(keys) => keys,
            None => return,
        };
        if depth == 0 {
            return;
        }
        let ghost mid = *self;
        let mut i: usize = 0;
        while i < keys.len()
            invariant
                self.inv(),
                self.config == old(self).config,
                depth > 0,
                keys@.len() == 0 ==> *self == mid,
            decreases keys@.len() - i,
        {
            self.handle_key_at(keys[i], depth - 1);
            i = i + 1;
        }
    }

    /// Handles a key, with macros allowed `depth` deep: while a macro is recorded the key
    /// is added to it (but the `q` that stops the recording); the `:` prompt, then the `/`
    /// prompt, then the mode takes the key; the status line is brought up to date and the
    /// cursor scrolled into view.
    #[verifier::spinoff_prover]
    #[verifier::rlimit(60)]
    pub fn handle_key_at(&mut self, key: Key, depth: usize) -> (r: EditorAction)
        requires
            old(self).inv(),
        ensures
            final(self).inv(),
            final(self).config == old(self).config,
            r == key_action(*old(self), key),
            final(self).command_line@ == status_text(*final(self)),
            !old(self).command_active && !old(self).search.active && old(self).mode == VimMode::Insert ==> {
                &&& key.code matches KeyCode::Char(c) ==> (!key.ctrl ==> final(self).text() == typed_text(*old(self), c))
                &&& key.code == KeyCode::Esc ==> final(self).mode == VimMode::Normal && final(self).text() == old(self).text()
                &&& key.code == KeyCode::Enter && !key.ctrl ==> final(self).text() == entered_text(*old(self))
                &&& key.code == KeyCode::Backspace ==> final(self).text() == backspace_text(*old(self))
                &&& key.code == KeyCode::Delete ==> final(self).text() == delete_text(*old(self))
                &&& key.code == KeyCode::Tab ==> final(self).text() == tabbed_text(*old(self))
                &&& with_ctrl(key, 's') ==> final(self).mode == VimMode::Normal && final(self).text() == old(self).text()
                &&& key.code == KeyCode::Home || key.code == KeyCode::End || key.code == KeyCode::Left
                    || key.code == KeyCode::Right ==> final(self).text() == old(self).text()
                    && final(self).cursor_row == old(self).cursor_row
                    && final(self).cursor_col == insert_moved_col(*old(self), key.code)
            },
            !old(self).command_active && !old(self).search.active && old(self).mode == VimMode::Replace ==> {
                &&& key.code matches KeyCode::Char(c) ==> (!key.ctrl ==> final(self).text() == replaced_text(*old(self), c))
                &&& key.code == KeyCode::Esc ==> final(self).mode == VimMode::Normal && final(self).text() == old(self).text()
            },
            !old(self).command_active && !old(self).search.active && old(self).mode == VimMode::Normal
                && nothing_pending(*old(self)) ==> {
                &&& plain(key, 'u') ==> final(self).text() == undo_text(*old(self))
                &&& any_char(key, ':') ==> final(self).command_active && final(self).text() == old(self).text()
                &&& any_char(key, 'i') ==> final(self).text() == old(self).text()
                    && (old(self).config.insert_allowed ==> final(self).mode == VimMode::Insert)
                &&& any_char(key, 'p') ==> final(self).text() == put_after_text(*old(self))
                &&& any_char(key, 'P') ==> final(self).text() == put_before_text(*old(self))
                &&& any_char(key, 'x') ==> final(self).text() == x_text(*old(self))
                &&& any_char(key, 'J') ==> final(self).text() == joined_text(*old(self))
                &&& any_char(key, 'X') ==> final(self).text() == big_x_text(*old(self))
                &&& simple_movement(key) ==> moved_to(*old(self), *final(self), key)
                    && final(self).text() == old(self).text() && final(self).mode == VimMode::Normal
                &&& any_char(key, 'a') ==> entered_insert(*old(self), *final(self),
                    min_int(old(self).cursor_col + 1, old(self).cur_len() as int))
                &&& any_char(key, 'A') ==> entered_insert(*old(self), *final(self), old(self).cur_len() as int)
                &&& any_char(key, 'I') ==> entered_insert(*old(self), *final(self), leading_ws(old(self).cur_line()) as int)
                &&& plain(key, 'v') ==> entered_visual(*old(self), *final(self), VisualKind::Char)
                &&& with_ctrl(key, 'v') ==> entered_visual(*old(self), *final(self), VisualKind::Block)
                &&& any_char(key, 'V') ==> entered_visual(*old(self), *final(self), VisualKind::Line)
                &&& any_char(key, '~') ==> final(self).text() == tilde_text(*old(self))
                &&& any_char(key, 'o') ==> if old(self).config.insert_allowed {
                    final(self).text() == opened_text(*old(self), true) && final(self).mode == VimMode::Insert
                } else {
                    final(self).text() == old(self).text()
                }
                &&& any_char(key, 'O') ==> if old(self).config.insert_allowed {
                    final(self).text() == opened_text(*old(self), false) && final(self).mode == VimMode::Insert
                } else {
                    final(self).text() == old(self).text()
                }
            },
            !old(self).command_active && !old(self).search.active && old(self).mode == VimMode::Normal
                && only_operator_pending(*old(self)) && old(self).pending_operator == Some(Operator::Delete)
                && any_char(key, 'd') ==> final(self).text() == lines_deleted(*old(self)),
            !old(self).command_active && !old(self).search.active && old(self).mode == VimMode::Normal
                && only_operator_pending(*old(self)) && !count_digit(key, old(self).pending_count)
                && operator_motion(old(self).pending_operator->0, key) is Some ==> final(self).text() == operator_text(*old(self), key)
                && operator_register(*old(self), *final(self), key),
            !old(self).command_active && !old(self).search.active && old(self).mode == VimMode::Normal
                && text_object_pending(*old(self)) ==> text_object_done(*old(self), *final(self), key),
            !old(self).command_active && !old(self).search.active && old(self).mode == VimMode::Normal
                && !old(self).pending_register && old(self).pending_find is Some ==> pending_find_done(*old(self),
                *final(self), key),
            !old(self).command_active && !old(self).search.active && old(self).mode == VimMode::Normal
                && !old(self).pending_register && old(self).pending_find is None && old(self).pending_replace ==> replace_done(
                *old(self), *final(self), key),
            !old(self).command_active && !old(self).search.active && old(self).mode == VimMode::Normal
                && nothing_pending(*old(self)) && plain(key, 'd') ==> {
                &&& final(self).pending_operator == Some(Operator::Delete)
                &&& final(self).pending_count is None
                &&& only_operator_pending(*final(self))
                &&& final(self).text() == old(self).text()
                &&& final(self).cursor_row == old(self).cursor_row
                &&& final(self).mode == VimMode::Normal
                &&& !final(self).command_active
                &&& !final(self).search.active
            },
            !old(self).command_active && !old(self).search.active && old(self).mode is Visual && !old(self).pending_g
                && !old(self).pending_replace ==> {
                &&& key.code == KeyCode::Esc ==> final(self).mode == VimMode::Normal && final(self).visual_anchor is None
                    && final(self).text() == old(self).text()
                &&& plain(key, 'y') ==> final(self).mode == VimMode::Normal && final(self).text() == old(self).text()
                    && (old(self).selection() matches Some((s, e)) ==> final(self).register()
                    == old(self).selected_chars(old(self).visual_kind_spec()->0, s, e))
                &&& plain(key, 'd') ==> final(self).mode == VimMode::Normal && final(self).visual_anchor is None
                    && (old(self).selection() matches Some((s, e)) ==> {
                        let cut = old(self).visual_cut(old(self).visual_kind_spec()->0, s, e);
                        final(self).text() == cut.text && final(self).register() == cut.taken
                    })
                &&& old(self).pending_count is None && simple_movement(key) ==> moved_to(*old(self), *final(self), key)
                    && final(self).text() == old(self).text() && final(self).mode == old(self).mode
                &&& plain(key, 'p') || plain(key, 'P') ==> final(self).mode == VimMode::Normal
                    && final(self).text() == visual_pasted_text(*old(self))
            },
            old(self).command_active ==> (key.code matches KeyCode::Char(c) ==> (!key.ctrl ==> final(self).command_active
                && final(self).command_buffer@ == old(self).command_buffer@.push(c))),
            old(self).command_active && key.code == KeyCode::Enter ==> !final(self).command_active
                && final(self).text() == command_text(*old(self), old(self).command_buffer@)
                && (parsed_usize(trimmed(old(self).command_buffer@)) is Some ==> final(self).cursor_row
                == command_row(*old(self), old(self).command_buffer@)),
            !old(self).command_active && old(self).search.active ==> (key.code matches KeyCode::Char(c) ==> (!key.ctrl
                ==> final(self).search.active && final(self).search.input_buffer@ == old(self).search.input_buffer@.push(c))),
        decreases depth, 2usize,
    {
        let stops_recording = self.recording_macro.is_some() && !self.pending_macro_record && key.code == KeyCode::Char('q')
            && !key.ctrl && self.mode == VimMode::Normal && !self.command_active && !self.search.active;
        if self.recording_macro.is_some() && !stops_recording {
            self.macro_buffer.push(key);
        }
        if self.command_active {
            let action = self.handle_command_input(key);
            self.update_command_line();
            return action;
        }
        let action = if self.search.active {
            self.handle_search_input(key);
            EditorAction::Handled
        } else {
            match self.mode {
                VimMode::Normal => self.handle_normal(key, depth),
                VimMode::Insert => self.handle_insert(key),
                VimMode::Replace => self.handle_replace(key),
                VimMode::Visual(_) => self.handle_visual(key),
            }
        };
        self.update_command_line();
        self.ensure_cursor_visible();
        action
    }

    /// Pastes the first line of `text` (the system clipboard, which the embedding program
    /// reads on Ctrl-V) into the open `:` or `/` prompt; without an open prompt nothing
    /// happens.
    pub fn paste_into_prompt(&mut self, text: &str)
        ensures
            old(self).command_active ==> *final(self) == (VimEditor { command_buffer: final(self).command_buffer, ..*old(self) })
                && final(self).command_buffer@ == old(self).command_buffer@ + first_line(text@),
            !old(self).command_active && old(self).search.active ==> *final(self) == (VimEditor {
                search: crate::SearchState { input_buffer: final(self).search.input_buffer, ..old(self).search },
                ..*old(self)
            }) && final(self).search.input_buffer@ == old(self).search.input_buffer@ + first_line(text@),
            !old(self).command_active && !old(self).search.active ==> *final(self) == *old(self),
    {
        if !self.command_active && !self.search.active {
            return;
        }
        let lines = split_lines(&chars_of(text));
        let line = if lines.len() > 0 { lines[0].clone() } else { String::new() };
        if self.command_active {
            self.command_buffer = concat_strings(self.command_buffer.as_str(), line.as_str());
        } else {
            self.search.input_buffer = concat_strings(self.search.input_buffer.as_str(), line.as_str());
        }
    }

    /// Handles a key and tells the embedding program what it asks of it; see
    /// [`VimEditor::handle_key_at`].
    pub fn handle_key(&mut self, key: Key) -> (r: EditorAction)
        requires
            old(self).inv(),
        ensures
            final(self).inv(),
            final(self).config == old(self).config,
            r == key_action(*old(self), key),
            final(self).command_line@ == status_text(*final(self)),
            !old(self).command_active && !old(self).search.active && old(self).mode == VimMode::Insert ==> {
                &&& key.code matches KeyCode::Char(c) ==> (!key.ctrl ==> final(self).text() == typed_text(*old(self), c))
                &&& key.code == KeyCode::Esc ==> final(self).mode == VimMode::Normal && final(self).text() == old(self).text()
                &&& key.code == KeyCode::Enter && !key.ctrl ==> final(self).text() == entered_text(*old(self))
                &&& key.code == KeyCode::Backspace ==> final(self).text() == backspace_text(*old(self))
                &&& key.code == KeyCode::Delete ==> final(self).text() == delete_text(*old(self))
                &&& key.code == KeyCode::Tab ==> final(self).text() == tabbed_text(*old(self))
                &&& with_ctrl(key, 's') ==> final(self).mode == VimMode::Normal && final(self).text() == old(self).text()
                &&& key.code == KeyCode::Home || key.code == KeyCode::End || key.code == KeyCode::Left
                    || key.code == KeyCode::Right ==> final(self).text() == old(self).text()
                    && final(self).cursor_row == old(self).cursor_row
                    && final(self).cursor_col == insert_moved_col(*old(self), key.code)
            },
            !old(self).command_active && !old(self).search.active && old(self).mode == VimMode::Replace ==> {
                &&& key.code matches KeyCode::Char(c) ==> (!key.ctrl ==> final(self).text() == replaced_text(*old(self), c))
                &&& key.code == KeyCode::Esc ==> final(self).mode == VimMode::Normal && final(self).text() == old(self).text()
            },
            !old(self).command_active && !old(self).search.active && old(self).mode == VimMode::Normal
                && nothing_pending(*old(self)) ==> {
                &&& plain(key, 'u') ==> final(self).text() == undo_text(*old(self))
                &&& any_char(key, ':') ==> final(self).command_active && final(self).text() == old(self).text()
                &&& any_char(key, 'i') ==> final(self).text() == old(self).text()
                    && (old(self).config.insert_allowed ==> final(self).mode == VimMode::Insert)
                &&& any_char(key, 'p') ==> final(self).text() == put_after_text(*old(self))
                &&& any_char(key, 'P') ==> final(self).text() == put_before_text(*old(self))
                &&& any_char(key, 'x') ==> final(self).text() == x_text(*old(self))
                &&& any_char(key, 'J') ==> final(self).text() == joined_text(*old(self))
                &&& any_char(key, 'X') ==> final(self).text() == big_x_text(*old(self))
                &&& simple_movement(key) ==> moved_to(*old(self), *final(self), key)
                    && final(self).text() == old(self).text() && final(self).mode == VimMode::Normal
                &&& any_char(key, 'a') ==> entered_insert(*old(self), *final(self),
                    min_int(old(self).cursor_col + 1, old(self).cur_len() as int))
                &&& any_char(key, 'A') ==> entered_insert(*old(self), *final(self), old(self).cur_len() as int)
                &&& any_char(key, 'I') ==> entered_insert(*old(self), *final(self), leading_ws(old(self).cur_line()) as int)
                &&& plain(key, 'v') ==> entered_visual(*old(self), *final(self), VisualKind::Char)
                &&& with_ctrl(key, 'v') ==> entered_visual(*old(self), *final(self), VisualKind::Block)
                &&& any_char(key, 'V') ==> entered_visual(*old(self), *final(self), VisualKind::Line)
                &&& any_char(key, '~') ==> final(self).text() == tilde_text(*old(self))
                &&& any_char(key, 'o') ==> if old(self).config.insert_allowed {
                    final(self).text() == opened_text(*old(self), true) && final(self).mode == VimMode::Insert
                } else {
                    final(self).text() == old(self).text()
                }
                &&& any_char(key, 'O') ==> if old(self).config.insert_allowed {
                    final(self).text() == opened_text(*old(self), false) && final(self).mode == VimMode::Insert
                } else {
                    final(self).text() == old(self).text()
                }
            },
            !old(self).command_active && !old(self).search.active && old(self).mode == VimMode::Normal
                && only_operator_pending(*old(self)) && old(self).pending_operator == Some(Operator::Delete)
                && any_char(key, 'd') ==> final(self).text() == lines_deleted(*old(self)),
            !old(self).command_active && !old(self).search.active && old(self).mode == VimMode::Normal
                && only_operator_pending(*old(self)) && !count_digit(key, old(self).pending_count)
                && operator_motion(old(self).pending_operator->0, key) is Some ==> final(self).text() == operator_text(*old(self), key)
                && operator_register(*old(self), *final(self), key),
            !old(self).command_active && !old(self).search.active && old(self).mode == VimMode::Normal
                && text_object_pending(*old(self)) ==> text_object_done(*old(self), *final(self), key),
            !old(self).command_active && !old(self).search.active && old(self).mode == VimMode::Normal
                && !old(self).pending_register && old(self).pending_find is Some ==> pending_find_done(*old(self),
                *final(self), key),
            !old(self).command_active && !old(self).search.active && old(self).mode == VimMode::Normal
                && !old(self).pending_register && old(self).pending_find is None && old(self).pending_replace ==> replace_done(
                *old(self), *final(self), key),
            !old(self).command_active && !old(self).search.active && old(self).mode == VimMode::Normal
                && nothing_pending(*old(self)) && plain(key, 'd') ==> {
                &&& final(self).pending_operator == Some(Operator::Delete)
                &&& final(self).pending_count is None
                &&& only_operator_pending(*final(self))
                &&& final(self).text() == old(self).text()
                &&& final(self).cursor_row == old(self).cursor_row
                &&& final(self).mode == VimMode::Normal
                &&& !final(self).command_active
                &&& !final(self).search.active
            },
            !old(self).command_active && !old(self).search.active && old(self).mode is Visual && !old(self).pending_g
                && !old(self).pending_replace ==> {
                &&& key.code == KeyCode::Esc ==> final(self).mode == VimMode::Normal && final(self).visual_anchor is None
                    && final(self).text() == old(self).text()
                &&& plain(key, 'y') ==> final(self).mode == VimMode::Normal && final(self).text() == old(self).text()
                    && (old(self).selection() matches Some((s, e)) ==> final(self).register()
                    == old(self).selected_chars(old(self).visual_kind_spec()->0, s, e))
                &&& plain(key, 'd') ==> final(self).mode == VimMode::Normal && final(self).visual_anchor is None
                    && (old(self).selection() matches Some((s, e)) ==> {
                        let cut = old(self).visual_cut(old(self).visual_kind_spec()->0, s, e);
                        final(self).text() == cut.text && final(self).register() == cut.taken
                    })
                &&& old(self).pending_count is None && simple_movement(key) ==> moved_to(*old(self), *final(self), key)
                    && final(self).text() == old(self).text() && final(self).mode == old(self).mode
                &&& plain(key, 'p') || plain(key, 'P') ==> final(self).mode == VimMode::Normal
                    && final(self).text() == visual_pasted_text(*old(self))
            },
            old(self).command_active ==> (key.code matches KeyCode::Char(c) ==> (!key.ctrl ==> final(self).command_active
                && final(self).command_buffer@ == old(self).command_buffer@.push(c))),
            old(self).command_active && key.code == KeyCode::Enter ==> !final(self).command_active
                && final(self).text() == command_text(*old(self), old(self).command_buffer@)
                && (parsed_usize(trimmed(old(self).command_buffer@)) is Some ==> final(self).cursor_row
                == command_row(*old(self), old(self).command_buffer@)),
            !old(self).command_active && old(self).search.active ==> (key.code matches KeyCode::Char(c) ==> (!key.ctrl
                ==> final(self).search.active && final(self).search.input_buffer@ == old(self).search.input_buffer@.push(c))),
    {
        self.handle_key_at(key, MACRO_DEPTH)
    }
}

/// Executable form of [`operator_char`].
fn operator_char_exec(op: Operator) -> (r: char)
    ensures
        r == operator_char(op),
{
    match op {
        Operator::Delete => 'd',
        Operator::Yank => 'y',
        Operator::Change => 'c',
        Operator::Indent => '>',
        Operator::Dedent => '<',
        Operator::Uppercase => 'U',
        Operator::Lowercase => 'u',
        Operator::ToggleCase => '~',
    }
}

/// A read-only editor never types text in: once a key has been handled (`b` is the
/// editor after [`VimEditor::handle_key`], which keeps the invariant and the
/// configuration), an editor whose configuration forbids Insert mode is in Normal or Visual
/// mode.
pub proof fn lemma_read_only_never_inserts(a: VimEditor, b: VimEditor)
    requires
        a.inv(),
        !a.config.insert_allowed,
        b.inv(),
        b.config == a.config,
    ensures
        b.mode is Normal || b.mode is Visual,
{
}

/// Law: `dd` deletes the cursor line. `b` is the editor after `d` was handled in Normal
/// mode with nothing pending, and `c` the editor after a second `d` (each step as
/// [`VimEditor::handle_key`] ensures): the cursor line is gone (an editor left without lines
/// keeps one empty line).
pub proof fn lemma_dd_deletes_cursor_line(a: VimEditor, b: VimEditor, c: VimEditor)
    requires
        a.inv(),
        a.mode == VimMode::Normal,
        nothing_pending(a),
        b.pending_operator == Some(Operator::Delete),
        b.pending_count is None,
        b.text() == a.text(),
        b.cursor_row == a.cursor_row,
        c.text() == lines_deleted(b),
    ensures
        c.text() == super::buffer::lines_removed(a.text(), a.cursor_row as int, a.cursor_row + 1),
{
}

} // verus!
