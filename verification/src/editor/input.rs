//! Key handling: the state machine that turns key presses into editor commands, for each
//! mode, with the pending prefixes (counts, operators, `g`, `z`, `f`, marks, macros, ...).
use vstd::prelude::*;

use super::motions::{last_row, min_int, sat_sub, Motion};
use super::insert::{
    backspace_text, delete_text, entered_text, line_start_text, replaced_text, tabbed_text, vertical_moved, word_back_col,
    word_back_text,
};
use crate::text::std_lines;
use super::operators::CaseChange;
use super::keys::{join_times, remove_before_times, toggle_times};
use crate::text::leading_ws;
use super::VimEditor;
use crate::{EditorAction, FindDirection, Key, KeyCode, Operator, VimMode, VisualKind};

verus! {

/// How deep macros may play macros: a macro that plays itself stops at this depth.
pub const MACRO_DEPTH: usize = 100;

/// A plain character key (Control not held).
pub open spec fn plain(key: Key, c: char) -> bool {
    key.code == KeyCode::Char(c) && !key.ctrl
}

/// A character key with Control held.
pub open spec fn with_ctrl(key: Key, c: char) -> bool {
    key.code == KeyCode::Char(c) && key.ctrl
}

/// A character key, Control held or not.
pub open spec fn any_char(key: Key, c: char) -> bool {
    key.code == KeyCode::Char(c)
}

/// Whether `c` is an ASCII digit.
pub open spec fn is_digit(c: char) -> bool {
    '0' <= c && c <= '9'
}

/// The movement keys that Normal and Visual mode share, with their counts.
pub open spec fn movement_key(key: Key) -> bool {
    ||| (any_char(key, 'h') || key.code == KeyCode::Left) && !key.ctrl
    ||| (any_char(key, 'l') || key.code == KeyCode::Right) && !key.ctrl
    ||| (any_char(key, 'j') || key.code == KeyCode::Down) && !key.ctrl
    ||| (any_char(key, 'k') || key.code == KeyCode::Up) && !key.ctrl
    ||| any_char(key, 'w') || any_char(key, 'W') || any_char(key, 'E') || any_char(key, 'B')
    ||| plain(key, 'e') || plain(key, 'b')
    ||| any_char(key, '0') || any_char(key, '^') || any_char(key, '$') || any_char(key, 'G')
    ||| key.code == KeyCode::Home || key.code == KeyCode::End
}

/// `h` or Left.
pub open spec fn left_key(key: Key) -> bool {
    (any_char(key, 'h') || key.code == KeyCode::Left) && !key.ctrl
}

/// `l` or Right.
pub open spec fn right_key(key: Key) -> bool {
    (any_char(key, 'l') || key.code == KeyCode::Right) && !key.ctrl
}

/// `j` or Down.
pub open spec fn down_key(key: Key) -> bool {
    (any_char(key, 'j') || key.code == KeyCode::Down) && !key.ctrl
}

/// `k` or Up.
pub open spec fn up_key(key: Key) -> bool {
    (any_char(key, 'k') || key.code == KeyCode::Up) && !key.ctrl
}

/// Where the cursor of `ed` ends after a movement key with the pending count, for `h`,
/// `l`, `j`, `k`, `0` and `$` (and the arrow, Home and End keys): the row and the
/// column before clamping, and whether the result is clamped to the lines.
pub open spec fn movement_target(ed: VimEditor, key: Key) -> (int, int) {
    let n = count_or_one(ed) as int;
    if left_key(key) {
        (ed.cursor_row as int, sat_sub(ed.cursor_col as int, n))
    } else if right_key(key) {
        (ed.cursor_row as int, min_int(ed.cursor_col + n, if ed.mode == VimMode::Insert {
            ed.cur_len() as int
        } else {
            sat_sub(ed.cur_len() as int, 1)
        }))
    } else if down_key(key) {
        (min_int(ed.cursor_row + n, last_row(ed.text())), ed.cursor_col as int)
    } else if up_key(key) {
        (sat_sub(ed.cursor_row as int, n), ed.cursor_col as int)
    } else if any_char(key, '0') || key.code == KeyCode::Home {
        (ed.cursor_row as int, 0)
    } else {
        (ed.cursor_row as int, if ed.mode == VimMode::Insert {
            ed.cur_len() as int
        } else {
            sat_sub(ed.cur_len() as int, 1)
        })
    }
}

/// The movement keys whose target [`movement_target`] gives.
pub open spec fn simple_movement(key: Key) -> bool {
    left_key(key) || right_key(key) || down_key(key) || up_key(key) || any_char(key, '0') || key.code == KeyCode::Home
        || any_char(key, '$') || key.code == KeyCode::End
}

/// The cursor of `b` is where a movement key took it from `a`: on the target row and
/// column, clamped to the lines for `j` and `k`.
pub open spec fn moved_to(a: VimEditor, b: VimEditor, key: Key) -> bool {
    let t = movement_target(a, key);
    if down_key(key) || up_key(key) {
        b.cursor_clamped_from(t.0 as usize, t.1 as usize)
    } else {
        b.cursor_row == t.0 && b.cursor_col == t.1
    }
}

/// Where a word key (`w`, `W`, `e`, `E`, `b`, `B`) takes the cursor of `ed`, with the
/// pending count.
pub open spec fn word_target(ed: VimEditor, m: super::motions::WordMove, big: bool) -> (int, int) {
    super::motions::word_steps(m, ed.text(), ed.cursor_row as int, ed.cursor_col as int, big, count_or_one(ed))
}

/// `b` is `a` after the movement key `key`: the lines and the mode stay, and the cursor
/// goes where the key takes it (see [`movement_target`] for `h`, `l`, `j`, `k`, `0`, `$`;
/// the word keys go by [`word_target`], `^` to the first non-blank character and `G` to
/// line `count` or the last line).
pub open spec fn movement_done(a: VimEditor, b: VimEditor, key: Key) -> bool {
    &&& b.text() == a.text() && b.mode == a.mode
    &&& simple_movement(key) ==> moved_to(a, b, key)
    &&& any_char(key, 'w') ==> (b.cursor_row as int, b.cursor_col as int) == word_target(a, super::motions::WordMove::Start, false)
    &&& any_char(key, 'W') ==> (b.cursor_row as int, b.cursor_col as int) == word_target(a, super::motions::WordMove::Start, true)
    &&& plain(key, 'e') ==> (b.cursor_row as int, b.cursor_col as int) == word_target(a, super::motions::WordMove::End, false)
    &&& any_char(key, 'E') ==> (b.cursor_row as int, b.cursor_col as int) == word_target(a, super::motions::WordMove::End, true)
    &&& plain(key, 'b') ==> (b.cursor_row as int, b.cursor_col as int) == word_target(a, super::motions::WordMove::Back, false)
    &&& any_char(key, 'B') ==> (b.cursor_row as int, b.cursor_col as int) == word_target(a, super::motions::WordMove::Back, true)
    &&& any_char(key, '^') ==> b.cursor_row == a.cursor_row && b.cursor_col == leading_ws(a.cur_line())
    &&& any_char(key, 'G') ==> b.cursor_clamped_from(
        match a.pending_count {
            Some(n) => if n > 0 {
                min_int(n - 1, last_row(a.text())) as usize
            } else {
                a.cursor_row
            },
            None => last_row(a.text()) as usize,
        },
        a.cursor_col,
    )
}

/// `b` is `a` after the scrolling key `key`: the lines stay, and the view and the cursor
/// move by half a page (`Ctrl-d`, `Ctrl-u`), a page (`Ctrl-f`, `Ctrl-b`) or a line
/// (`Ctrl-e`, `Ctrl-y`), the cursor kept on the lines and, for a line, in the view.
pub open spec fn scrolled(a: VimEditor, b: VimEditor, key: Key) -> bool {
    let h = super::motions::half_of(a.visible_height);
    &&& b.text() == a.text()
    &&& with_ctrl(key, 'd') ==> b.scroll_offset == min_int(a.scroll_offset + h, sat_sub(a.text().len() as int,
        a.visible_height as int)) as usize
        && b.cursor_clamped_from(min_int(a.cursor_row + h, last_row(a.text())) as usize, a.cursor_col)
    &&& with_ctrl(key, 'u') ==> b.scroll_offset == sat_sub(a.scroll_offset as int, h) as usize
        && b.cursor_clamped_from(sat_sub(a.cursor_row as int, h) as usize, a.cursor_col)
    &&& with_ctrl(key, 'f') ==> b.scroll_offset == min_int(a.scroll_offset + a.visible_height, usize::MAX as int)
        && b.cursor_clamped_from(min_int(a.cursor_row + a.visible_height, a.text().len() - 1) as usize, a.cursor_col)
    &&& with_ctrl(key, 'b') ==> b.scroll_offset == sat_sub(a.scroll_offset as int, a.visible_height as int)
        && b.cursor_clamped_from(sat_sub(a.cursor_row as int, a.visible_height as int) as usize, a.cursor_col)
    &&& with_ctrl(key, 'e') ==> b.scroll_offset == min_int(a.scroll_offset + 1, sat_sub(a.text().len() as int, 3))
        && b.cursor_clamped_from(if a.cursor_row < b.scroll_offset { b.scroll_offset } else { a.cursor_row }, a.cursor_col)
    &&& with_ctrl(key, 'y') ==> b.scroll_offset == sat_sub(a.scroll_offset as int, 1)
        && b.cursor_clamped_from(
            if b.visible_height > 0 && a.cursor_row >= b.scroll_offset + b.visible_height {
                (b.scroll_offset + b.visible_height - 1) as usize
            } else {
                a.cursor_row
            },
            a.cursor_col,
        )
}

/// `b` is `a` after `key`, one of the Normal-mode commands that need no prefix and are
/// neither a movement nor a scrolling key: prefix keys set their prefix; the commands do
/// what their keys do (see each clause).
pub open spec fn normal_command_done(a: VimEditor, b: VimEditor, key: Key) -> bool {
    &&& command_done_one(a, b, key)
    &&& command_done_two(a, b, key)
    &&& command_done_three(a, b, key)
    &&& command_done_four(a, b, key)
    &&& command_done_five(a, b, key)
    &&& command_done_six(a, b, key)
    &&& command_done_seven(a, b, key)
    &&& command_done_eight(a, b, key)
    &&& command_done_nine(a, b, key)
    &&& command_done_ten(a, b, key)
    &&& command_done_eleven(a, b, key)
    &&& command_done_twelve(a, b, key)
}

/// What the Normal-mode commands `g`, `H`, `M`, `L`, `i` do (see [`normal_command_done`]).
pub open spec fn command_done_one(a: VimEditor, b: VimEditor, key: Key) -> bool {
    let col = a.cursor_col as int;
    &&& any_char(key, 'g') ==> b == VimEditor { pending_g: true, ..a }
    &&& any_char(key, 'H') ==> b.text() == a.text() && b.cursor_clamped_from(a.view_row(0) as usize, a.cursor_col)
    &&& any_char(key, 'M') ==> b.text() == a.text() && b.cursor_clamped_from(
        a.view_row(sat_sub(min_int(a.visible_height as int, a.text().len() - a.scroll_offset), 1) / 2) as usize,
        a.cursor_col,
    )
    &&& any_char(key, 'L') ==> b.text() == a.text() && b.cursor_clamped_from(
        a.view_row(sat_sub(a.visible_height as int, 1)) as usize,
        a.cursor_col,
    )
    &&& any_char(key, 'i') ==> entered_insert(a, b, col)
}

/// What the Normal-mode commands `a`, `I`, `A`, `o`, `O` do (see [`normal_command_done`]).
pub open spec fn command_done_two(a: VimEditor, b: VimEditor, key: Key) -> bool {
    let line = a.cur_line();
    let col = a.cursor_col as int;
    &&& any_char(key, 'a') ==> entered_insert(a, b, min_int(col + 1, line.len() as int))
    &&& any_char(key, 'I') ==> entered_insert(a, b, leading_ws(line) as int)
    &&& any_char(key, 'A') ==> entered_insert(a, b, line.len() as int)
    &&& any_char(key, 'o') ==> if a.config.insert_allowed {
        b.text() == opened_text(a, true) && b.mode == VimMode::Insert
    } else {
        b == a
    }
    &&& any_char(key, 'O') ==> if a.config.insert_allowed {
        b.text() == opened_text(a, false) && b.mode == VimMode::Insert
    } else {
        b == a
    }
}

/// What the Normal-mode commands `d`, `y`, `c`, `>`, `<` do (see [`normal_command_done`]).
pub open spec fn command_done_three(a: VimEditor, b: VimEditor, key: Key) -> bool {
    &&& any_char(key, 'd') ==> b == VimEditor { pending_operator: Some(Operator::Delete), ..a }
    &&& any_char(key, 'y') ==> b == VimEditor { pending_operator: Some(Operator::Yank), ..a }
    &&& any_char(key, 'c') ==> b == VimEditor {
        pending_operator: Some(if a.config.insert_allowed { Operator::Change } else { Operator::Delete }),
        ..a
    }
    &&& any_char(key, '>') ==> b == VimEditor { pending_operator: Some(Operator::Indent), ..a }
    &&& any_char(key, '<') ==> b == VimEditor { pending_operator: Some(Operator::Dedent), ..a }
}

/// What the Normal-mode commands `x`, `X`, `D`, `C`, `Y` do (see [`normal_command_done`]).
pub open spec fn command_done_four(a: VimEditor, b: VimEditor, key: Key) -> bool {
    let one = VimEditor { pending_count: None, ..a };
    let line = a.cur_line();
    let col = a.cursor_col as int;
    &&& any_char(key, 'x') ==> x_done(a, b)
    &&& any_char(key, 'X') ==> b.text() == big_x_text(a)
    &&& any_char(key, 'D') ==> b.text() == operated_lines(one, Operator::Delete, Motion::LineEnd)
        && operated_register(one, b, Operator::Delete, Motion::LineEnd)
    &&& any_char(key, 'C') ==> if a.config.insert_allowed {
        &&& b.mode == VimMode::Insert
        &&& col < line.len() ==> b.text() == a.text().update(a.cursor_row as int, line.take(col))
        &&& col >= line.len() ==> b.text() == a.text()
    } else {
        b == a
    }
    &&& any_char(key, 'Y') ==> b.text() == a.text() && operated_register(one, b, Operator::Yank, Motion::Line)
}

/// What the Normal-mode commands `S`, `J`, `%`, `u`, `r` do (see [`normal_command_done`]).
pub open spec fn command_done_five(a: VimEditor, b: VimEditor, key: Key) -> bool {
    let one = VimEditor { pending_count: None, ..a };
    let line = a.cur_line();
    let col = a.cursor_col as int;
    &&& plain(key, 'S') ==> if a.config.insert_allowed {
        b.text() == a.text().update(a.cursor_row as int, line.take(leading_ws(line) as int)) && b.mode == VimMode::Insert
    } else {
        b == a
    }
    &&& with_ctrl(key, 'S') ==> b == a
    &&& any_char(key, 'J') ==> b.text() == joined_text(a)
    &&& any_char(key, '%') ==> b.text() == a.text() && (b.cursor_row as int, b.cursor_col as int)
        == super::keys::bracket_target(a.text(), a.cursor_row as int, col)
    &&& any_char(key, 'u') ==> b.text() == undo_text(a)
    &&& with_ctrl(key, 'r') ==> b.redone_from(&one)
    &&& plain(key, 'r') ==> b == VimEditor { pending_replace: true, ..a }
}

/// What the Normal-mode commands `R`, `"`, `p`, `P`, `~` do (see [`normal_command_done`]).
pub open spec fn command_done_six(a: VimEditor, b: VimEditor, key: Key) -> bool {
    &&& any_char(key, 'R') ==> if a.config.insert_allowed {
        b.mode == VimMode::Replace && b.text() == a.text() && b.history_saved(&a)
    } else {
        b == a
    }
    &&& any_char(key, '"') ==> b == VimEditor { pending_register: true, ..a }
    &&& any_char(key, 'p') ==> b.text() == put_after_text(a)
    &&& any_char(key, 'P') ==> b.text() == put_before_text(a)
    &&& any_char(key, '~') ==> b.text() == tilde_text(a)
}

/// What the Normal-mode commands `f`, `F`, `t`, `T`, `;` do (see [`normal_command_done`]).
pub open spec fn command_done_seven(a: VimEditor, b: VimEditor, key: Key) -> bool {
    let one = VimEditor { pending_count: None, ..a };
    &&& any_char(key, 'f') ==> b == VimEditor { pending_find: Some((FindDirection::Forward, false)), ..one }
    &&& any_char(key, 'F') ==> b == VimEditor { pending_find: Some((FindDirection::Backward, false)), ..one }
    &&& any_char(key, 't') ==> b == VimEditor { pending_find: Some((FindDirection::Forward, true)), ..one }
    &&& any_char(key, 'T') ==> b == VimEditor { pending_find: Some((FindDirection::Backward, true)), ..one }
    &&& any_char(key, ';') ==> b.text() == a.text() && b.cursor_row == a.cursor_row && b.cursor_col == repeat_find_col(a, false)
}

/// What the Normal-mode commands `,`, `s`, `/`, `?`, `n` do (see [`normal_command_done`]).
pub open spec fn command_done_eight(a: VimEditor, b: VimEditor, key: Key) -> bool {
    let line = a.cur_line();
    let col = a.cursor_col as int;
    &&& any_char(key, ',') ==> b.text() == a.text() && b.cursor_row == a.cursor_row && b.cursor_col == repeat_find_col(a, true)
    &&& any_char(key, 's') ==> if a.config.insert_allowed {
        &&& b.mode == VimMode::Insert
        &&& col < line.len() ==> b.text() == a.text().update(a.cursor_row as int, line.remove(col))
        &&& col >= line.len() ==> b.text() == a.text()
    } else {
        b == a
    }
    &&& any_char(key, '/') ==> b.text() == a.text() && b.search.active && b.search.forward
    &&& any_char(key, '?') ==> b.text() == a.text() && b.search.active && !b.search.forward
    &&& any_char(key, 'n') ==> b.text() == a.text() && match super::search::search_target(
        a.text(), a.search.pattern@, a.search.forward, a.cursor_row as int, col) {
        Some((r, c)) => b.cursor_row == r as usize && b.cursor_col == c as usize,
        None => b.cursor_row == a.cursor_row && b.cursor_col == a.cursor_col,
    }
}

/// What the Normal-mode commands `N`, `*`, `#`, `v`, `V` do (see [`normal_command_done`]).
pub open spec fn command_done_nine(a: VimEditor, b: VimEditor, key: Key) -> bool {
    let col = a.cursor_col as int;
    &&& any_char(key, 'N') ==> b.text() == a.text() && match super::search::search_target(
        a.text(), a.search.pattern@, !a.search.forward, a.cursor_row as int, col) {
        Some((r, c)) => b.cursor_row == r as usize && b.cursor_col == c as usize,
        None => b.cursor_row == a.cursor_row && b.cursor_col == a.cursor_col,
    }
    &&& any_char(key, '*') ==> b.text() == a.text() && (a.word_under_cursor_spec() matches Some(w) ==> b.search.pattern@ == w
        && b.search.forward)
    &&& any_char(key, '#') ==> b.text() == a.text() && (a.word_under_cursor_spec() matches Some(w) ==> b.search.pattern@ == w
        && !b.search.forward)
    &&& plain(key, 'v') ==> entered_visual(a, b, VisualKind::Char)
    &&& with_ctrl(key, 'v') ==> entered_visual(a, b, VisualKind::Block)
    &&& any_char(key, 'V') ==> entered_visual(a, b, VisualKind::Line)
}

/// What the Normal-mode commands `.`, `m`, `'`, ```, `]` do (see [`normal_command_done`]).
pub open spec fn command_done_ten(a: VimEditor, b: VimEditor, key: Key) -> bool {
    &&& any_char(key, '.') ==> if a.config.insert_allowed && a.last_edit is Some {
        b.mode == VimMode::Normal && b.text() == super::insert::replay(a.text(), a.cursor_row, a.cursor_col,
            a.last_edit->0.keys@).0
    } else {
        b == a
    }
    &&& any_char(key, 'm') ==> b == VimEditor { pending_mark: true, ..a }
    &&& any_char(key, '\'') ==> b == VimEditor { pending_goto_mark: Some(false), ..a }
    &&& any_char(key, '`') ==> b == VimEditor { pending_goto_mark: Some(true), ..a }
    &&& any_char(key, ']') ==> b == VimEditor { pending_bracket: Some(']'), ..a }
}

/// What the Normal-mode commands `[`, `q`, `@`, `z`, `:` do (see [`normal_command_done`]).
pub open spec fn command_done_eleven(a: VimEditor, b: VimEditor, key: Key) -> bool {
    &&& any_char(key, '[') ==> b == VimEditor { pending_bracket: Some('['), ..a }
    &&& any_char(key, 'q') ==> b.text() == a.text() && if a.recording_macro is None {
        b == VimEditor { pending_macro_record: true, ..a }
    } else {
        b.recording_macro is None && b.macro_keys(a.recording_macro->0) == Some(a.macro_buffer@)
    }
    &&& any_char(key, '@') ==> b == VimEditor { pending_macro_play: true, ..a }
    &&& any_char(key, 'z') ==> b == VimEditor { pending_z: true, ..a }
    &&& any_char(key, ':') ==> b.text() == a.text() && b.command_active && b.command_buffer@.len() == 0
}

/// What the Normal-mode commands Delete do (see [`normal_command_done`]).
pub open spec fn command_done_twelve(a: VimEditor, b: VimEditor, key: Key) -> bool {
    let line = a.cur_line();
    let col = a.cursor_col as int;
    &&& key.code == KeyCode::Delete ==> b.cursor_row == a.cursor_row && b.text() == a.text().update(
        a.cursor_row as int,
        super::keys::delete_times(line, col, a.mode, count_or_one(a)).0,
    )
}




/// `b` is `a` after `key`, one of the Visual-mode commands other than the movement and
/// scrolling keys.
pub open spec fn visual_command_done(a: VimEditor, b: VimEditor, key: Key) -> bool {
    &&& visual_done_one(a, b, key)
    &&& visual_done_two(a, b, key)
    &&& visual_done_three(a, b, key)
}

/// What the Visual-mode commands `g`, `%`, `d`, `x`, Delete, `y`, `p` and `P` do: `g`
/// waits for its second key, `%` jumps to the matching bracket, the others cut, yank or
/// replace the selection and leave Visual mode.
pub open spec fn visual_done_one(a: VimEditor, b: VimEditor, key: Key) -> bool {
    let k = a.visual_kind_spec()->0;
    &&& any_char(key, 'g') ==> b == VimEditor { pending_g: true, ..a }
    &&& any_char(key, '%') ==> b.text() == a.text() && (b.cursor_row as int, b.cursor_col as int)
        == super::keys::bracket_target(a.text(), a.cursor_row as int, a.cursor_col as int)
    &&& any_char(key, 'd') || any_char(key, 'x') || key.code == KeyCode::Delete ==> b.mode == VimMode::Normal
        && b.visual_anchor is None && (a.selection() matches Some((s, e)) ==> b.text() == a.visual_cut(k, s, e).text
        && b.register() == a.visual_cut(k, s, e).taken)
    &&& any_char(key, 'y') ==> b.mode == VimMode::Normal && b.visual_anchor is None && b.text() == a.text()
        && (a.selection() matches Some((s, e)) ==> b.register() == a.selected_chars(k, s, e))
    &&& any_char(key, 'p') || any_char(key, 'P') ==> b.mode == VimMode::Normal && b.text() == visual_pasted_text(a)
}

/// What the Visual-mode commands `c`, `I`, `A`, `r`, `>` and `<` do: `c` cuts the
/// selection into Insert mode, `I` and `A` of a block go to Insert mode at its left or
/// right edge, `r` of a block waits for the character, `>` and `<` shift the rows.
pub open spec fn visual_done_two(a: VimEditor, b: VimEditor, key: Key) -> bool {
    let k = a.visual_kind_spec()->0;
    let block = a.mode == VimMode::Visual(VisualKind::Block);
    &&& any_char(key, 'c') ==> if a.config.insert_allowed {
        b.mode == VimMode::Insert && b.visual_anchor is None
            && (a.selection() matches Some((s, e)) ==> b.text() == a.visual_cut(k, s, e).text)
    } else {
        b == without_count(a)
    }
    &&& any_char(key, 'I') || any_char(key, 'A') ==> if a.config.insert_allowed && block {
        &&& b.mode == VimMode::Insert && b.visual_anchor is None && b.text() == a.text()
        &&& a.selection() matches Some((s, e)) ==> b.cursor_clamped_from(s.0, if any_char(key, 'I') {
            if s.1 <= e.1 { s.1 } else { e.1 }
        } else {
            super::visual::block_right(s.1, e.1) as usize
        })
    } else {
        b == without_count(a)
    }
    &&& any_char(key, 'r') ==> b == if block { VimEditor { pending_replace: true, ..without_count(a) } } else { without_count(a) }
    &&& any_char(key, '>') ==> visual_shifted(without_count(a), b, true)
    &&& any_char(key, '<') ==> visual_shifted(without_count(a), b, false)
}

/// What the Visual-mode commands `u`, `U`, `~`, `o`, `v` and `V` do: the case of the
/// selection changes, `o` swaps the cursor and the anchor, `v` and `V` switch the kind of
/// selection (or leave Visual mode for the kind that is on).
pub open spec fn visual_done_three(a: VimEditor, b: VimEditor, key: Key) -> bool {
    &&& plain(key, 'u') ==> visual_cased(without_count(a), b, CaseChange::Lower)
    &&& any_char(key, 'U') ==> visual_cased(without_count(a), b, CaseChange::Upper)
    &&& any_char(key, '~') ==> visual_cased(without_count(a), b, CaseChange::Toggle)
    &&& with_ctrl(key, 'u') ==> b == a
    &&& any_char(key, 'o') ==> match a.visual_anchor {
        Some(p) => b == VimEditor { visual_anchor: Some((a.cursor_row, a.cursor_col)), cursor_row: p.0, cursor_col: p.1, ..without_count(a) },
        None => b == without_count(a),
    }
    &&& plain(key, 'v') ==> visual_switched(without_count(a), b, VisualKind::Char)
    &&& with_ctrl(key, 'v') ==> b == a
    &&& any_char(key, 'V') ==> visual_switched(without_count(a), b, VisualKind::Line)
}

/// `b` is `a` after `>` (`right`) or `<` in Visual mode: the rows of the selection are
/// shifted by four columns and the selection stays, so that the key can be pressed again
/// (nothing changes without a selection).
pub open spec fn visual_shifted(a: VimEditor, b: VimEditor, right: bool) -> bool {
    &&& a.selection() is None ==> b == a
    &&& a.selection() matches Some((s, e)) ==> b.mode == a.mode && b.visual_anchor == a.visual_anchor
        && b.cursor_row == a.cursor_row && b.cursor_col == a.cursor_col
        && b.text() == if right {
            super::operators::indent_rows(a.text(), s.0 as int, min_int(e.0 as int, a.text().len() - 1))
        } else {
            super::operators::dedent_rows(a.text(), s.0 as int, min_int(e.0 as int, a.text().len() - 1))
        }
}

/// The lines of `a` after `>` (`right`) or `<` in Visual mode: the rows of the selection
/// shifted by four columns (the lines as they are without a selection).
pub open spec fn visual_shift_text(a: VimEditor, right: bool) -> Seq<Seq<char>> {
    match a.selection() {
        Some((s, e)) => if right {
            super::operators::indent_rows(a.text(), s.0 as int, min_int(e.0 as int, a.text().len() - 1))
        } else {
            super::operators::dedent_rows(a.text(), s.0 as int, min_int(e.0 as int, a.text().len() - 1))
        },
        None => a.text(),
    }
}

/// The row and column that `gg` in Visual mode moves the cursor of `ed` toward before it is
/// clamped: line `count` (the first without a count), the column kept with a count.
pub open spec fn gg_target(ed: VimEditor) -> (usize, usize) {
    match ed.pending_count {
        Some(n) => (if n > 0 { min_int(n - 1, last_row(ed.text())) as usize } else { ed.cursor_row }, ed.cursor_col),
        None => (0, 0),
    }
}

/// What [`visual_shifted`] from the state without its count says of the lines, the mode
/// and the anchor.
proof fn lemma_visual_shift(a: VimEditor, b: VimEditor, right: bool)
    requires
        visual_shifted(without_count(a), b, right),
    ensures
        b.text() == visual_shift_text(a, right),
        b.mode == a.mode,
        b.visual_anchor == a.visual_anchor,
{
    assert(without_count(a).selection() == a.selection());
    assert(without_count(a).text() == a.text());
}

/// `ed` with no count pending.
pub open spec fn without_count(ed: VimEditor) -> VimEditor {
    VimEditor { pending_count: None, ..ed }
}

/// `b` is `a` after the case of its selection changed `how` (nothing changes without one).
pub open spec fn visual_cased(a: VimEditor, b: VimEditor, how: CaseChange) -> bool {
    &&& a.selection() is None || a.visual_kind_spec() is None ==> b == a
    &&& a.selection() matches Some((s, e)) ==> (a.visual_kind_spec() matches Some(k) ==> {
        &&& b.text() == super::visual::case_rows(a.text(), k, s.0, s.1, e.0, e.1, how)
        &&& b.mode == VimMode::Normal
        &&& b.visual_anchor is None
    })
}

/// `b` is `a` after `v` or `V` asked for a `kind` selection: Visual mode ends when that
/// kind is on, else the selection becomes of that kind.
pub open spec fn visual_switched(a: VimEditor, b: VimEditor, kind: VisualKind) -> bool {
    if a.mode == VimMode::Visual(kind) {
        b == VimEditor { visual_anchor: None, mode: VimMode::Normal, ..a }
    } else {
        b == VimEditor { mode: VimMode::Visual(kind), ..a }
    }
}

/// The column that `;` (or `,` for `reverse`) takes the cursor of `ed` to: the last find
/// repeated on the line, the same way (the other way); without one the cursor stays.
pub open spec fn repeat_find_col(ed: VimEditor, reverse: bool) -> int {
    match ed.last_find {
        Some((dir, before, ch)) => if (dir == FindDirection::Forward) != reverse {
            super::motions::find_forward_col(ed.cur_line(), ed.cursor_col as int, ch, before)
        } else {
            super::motions::find_backward_col(ed.cur_line(), ed.cursor_col as int, ch, before)
        },
        None => ed.cursor_col as int,
    }
}

/// The scrolling keys that Normal and Visual mode share.
pub open spec fn scroll_key(key: Key) -> bool {
    with_ctrl(key, 'd') || with_ctrl(key, 'u') || with_ctrl(key, 'f') || with_ctrl(key, 'b') || with_ctrl(key, 'e')
        || with_ctrl(key, 'y')
}

/// The keys that Normal mode handles itself once no prefix is pending; the others go back
/// to the embedding program as unhandled.
pub open spec fn normal_handles(key: Key) -> bool {
    ||| movement_key(key)
    ||| scroll_key(key)
    ||| any_char(key, 'g') || any_char(key, 'H') || any_char(key, 'M') || any_char(key, 'L')
    ||| any_char(key, 'i') || any_char(key, 'a') || any_char(key, 'I') || any_char(key, 'A')
    ||| any_char(key, 'o') || any_char(key, 'O')
    ||| any_char(key, 'd') || any_char(key, 'y') || any_char(key, 'c') || any_char(key, '>') || any_char(key, '<')
    ||| any_char(key, 'x') || any_char(key, 'X') || any_char(key, 'D') || any_char(key, 'C') || any_char(key, 'Y')
    ||| plain(key, 'S') || any_char(key, 'J') || any_char(key, '%')
    ||| plain(key, 'u') || any_char(key, 'r') || any_char(key, 'R') || any_char(key, '"')
    ||| any_char(key, 'p') || any_char(key, 'P') || any_char(key, '~')
    ||| any_char(key, 'f') || any_char(key, 'F') || any_char(key, 't') || any_char(key, 'T')
    ||| any_char(key, ';') || any_char(key, ',') || plain(key, 's')
    ||| any_char(key, '/') || any_char(key, '?') || any_char(key, 'n') || any_char(key, 'N')
    ||| any_char(key, '*') || any_char(key, '#')
    ||| any_char(key, 'v') || any_char(key, 'V') || any_char(key, '.')
    ||| any_char(key, 'm') || any_char(key, '\'') || any_char(key, '`') || any_char(key, ']') || any_char(key, '[')
    ||| plain(key, 'q') || any_char(key, '@') || any_char(key, 'K') || any_char(key, 'z') || any_char(key, ':')
    ||| with_ctrl(key, 'S') || with_ctrl(key, 's')
    ||| key.code == KeyCode::Enter && key.ctrl
    ||| key.code == KeyCode::Delete
}

/// Whether `key` types a count digit while `pending` is pending (a `0` only extends a
/// count).
pub open spec fn count_digit(key: Key, pending: Option<usize>) -> bool {
    exists|c: char| key.code == KeyCode::Char(c) && is_digit(c) && (c != '0' || pending is Some)
}

/// What Normal mode answers to `key` in state `ed`: the prefix that is pending decides
/// first; then `K` asks for documentation, `Ctrl-S` saves, space, Esc and the keys that
/// Normal mode does not handle go back unhandled, and everything else is handled.
pub open spec fn normal_action(ed: VimEditor, key: Key) -> EditorAction {
    if ed.pending_register || ed.pending_find is Some || ed.pending_replace || ed.pending_z {
        EditorAction::Handled
    } else if ed.pending_g {
        if any_char(key, 'd') { EditorAction::GoToDefinition } else { EditorAction::Handled }
    } else if ed.pending_gc {
        if any_char(key, 'c') { EditorAction::ToggleComment } else { EditorAction::Handled }
    } else if ed.pending_text_object is Some || ed.pending_mark || ed.pending_goto_mark is Some
        || ed.pending_bracket is Some || ed.pending_macro_record || ed.pending_macro_play {
        EditorAction::Handled
    } else if count_digit(key, ed.pending_count) || ed.pending_operator is Some {
        EditorAction::Handled
    } else if any_char(key, 'K') {
        EditorAction::Hover
    } else if with_ctrl(key, 'S') || with_ctrl(key, 's') {
        EditorAction::Save
    } else if any_char(key, ' ') || key.code == KeyCode::Esc || !normal_handles(key) {
        EditorAction::Unhandled(key)
    } else {
        EditorAction::Handled
    }
}

/// The lines of `ed` after an undo: the lines saved last, or (with nothing saved) the
/// lines as they are.
pub open spec fn undo_text(ed: VimEditor) -> Seq<Seq<char>> {
    if ed.undo_stack@.len() > 0 {
        super::snapshot_view(ed.undo_stack@.last()).lines
    } else {
        ed.text()
    }
}

/// The lines of `ed` after `c` was typed in Insert mode: it goes in at the insertion
/// column of the cursor line.
pub open spec fn typed_text(ed: VimEditor, c: char) -> Seq<Seq<char>> {
    ed.text().update(ed.cursor_row as int, ed.cur_line().insert(ed.insert_col(), c))
}

/// The lines of `ed` after `p`: the register goes below the cursor line (linewise) or
/// after the cursor; an empty register changes nothing.
pub open spec fn put_after_text(ed: VimEditor) -> Seq<Seq<char>> {
    if ed.register().len() == 0 {
        ed.text()
    } else if ed.unnamed_register.linewise {
        let at = min_int(ed.cursor_row + 1, ed.text().len() as int);
        ed.text().take(at) + std_lines(ed.register()) + ed.text().skip(at)
    } else {
        let col = min_int(ed.cursor_col + 1, ed.cur_len() as int);
        ed.text().update(ed.cursor_row as int, ed.cur_line().take(col) + ed.register() + ed.cur_line().skip(col))
    }
}

/// The lines of `ed` after `P`: the register goes above the cursor line (linewise) or
/// before the cursor; an empty register changes nothing.
pub open spec fn put_before_text(ed: VimEditor) -> Seq<Seq<char>> {
    if ed.register().len() == 0 {
        ed.text()
    } else if ed.unnamed_register.linewise {
        let at = ed.cursor_row as int;
        ed.text().take(at) + std_lines(ed.register()) + ed.text().skip(at)
    } else {
        let col = ed.insert_col();
        ed.text().update(ed.cursor_row as int, ed.cur_line().take(col) + ed.register() + ed.cur_line().skip(col))
    }
}

/// The lines of `ed` after `x` without a count: the character under the cursor is
/// removed (nothing off a character).
pub open spec fn x_text(ed: VimEditor) -> Seq<Seq<char>> {
    let line = ed.cur_line();
    let col = ed.cursor_col as int;
    if col < line.len() {
        ed.text().update(ed.cursor_row as int, line.take(col) + line.skip(col + 1))
    } else {
        ed.text()
    }
}

/// `b` is `a` after a key that enters Insert mode with the cursor at `col` of its line
/// (where insertion is allowed; elsewhere nothing changes): the lines stay as they are.
pub open spec fn entered_insert(a: VimEditor, b: VimEditor, col: int) -> bool {
    &&& b.text() == a.text()
    &&& a.config.insert_allowed ==> b.mode == VimMode::Insert && b.cursor_row == a.cursor_row && b.cursor_col == col
    &&& !a.config.insert_allowed ==> b.mode == a.mode && b.cursor_row == a.cursor_row && b.cursor_col == a.cursor_col
}

/// `b` is `a` after a key that starts a `kind` selection (where Visual mode is allowed;
/// elsewhere nothing changes): the anchor is the cursor, and the lines stay as they are.
pub open spec fn entered_visual(a: VimEditor, b: VimEditor, kind: VisualKind) -> bool {
    &&& b.text() == a.text()
    &&& b.cursor_row == a.cursor_row && b.cursor_col == a.cursor_col
    &&& a.config.visual_allowed ==> b.mode == VimMode::Visual(kind) && b.visual_anchor == Some((a.cursor_row, a.cursor_col))
    &&& !a.config.visual_allowed ==> b.mode == a.mode
}

/// The motion that `key` gives after the operator `op`: the doubled operator works on
/// lines; `f`, `t`, `i`, `a` and the other keys give none of their own.
pub open spec fn operator_motion(op: Operator, key: Key) -> Option<Motion> {
    if any_char(key, 'd') && op == Operator::Delete || any_char(key, 'y') && op == Operator::Yank
        || any_char(key, 'c') && op == Operator::Change || any_char(key, '>') && op == Operator::Indent
        || any_char(key, '<') && op == Operator::Dedent {
        Some(Motion::Line)
    } else if any_char(key, 'h') || key.code == KeyCode::Left {
        Some(Motion::Left)
    } else if any_char(key, 'l') || key.code == KeyCode::Right {
        Some(Motion::Right)
    } else if any_char(key, 'j') || key.code == KeyCode::Down {
        Some(Motion::Down)
    } else if any_char(key, 'k') || key.code == KeyCode::Up {
        Some(Motion::Up)
    } else if any_char(key, 'w') {
        Some(Motion::WordForward)
    } else if any_char(key, 'W') {
        Some(Motion::BigWordForward)
    } else if any_char(key, 'e') {
        Some(Motion::WordEnd)
    } else if any_char(key, 'E') {
        Some(Motion::BigWordEnd)
    } else if any_char(key, 'b') {
        Some(Motion::WordBack)
    } else if any_char(key, 'B') {
        Some(Motion::BigWordBack)
    } else if any_char(key, '0') || key.code == KeyCode::Home {
        Some(Motion::LineStart)
    } else if any_char(key, '$') || key.code == KeyCode::End {
        Some(Motion::LineEnd)
    } else if any_char(key, '^') {
        Some(Motion::FirstNonBlank)
    } else if any_char(key, 'G') {
        Some(Motion::ToBottom)
    } else if any_char(key, 'g') {
        Some(Motion::ToTop)
    } else if any_char(key, '%') {
        Some(Motion::MatchBracket)
    } else {
        None
    }
}

/// The lines of `ed` after the operator `op` ran over `m` with the pending count: a
/// motion that reaches nothing (or a text object on an empty line) changes nothing.
pub open spec fn operated_lines(ed: VimEditor, op: Operator, m: Motion) -> Seq<Seq<char>> {
    if super::motions::needs_char(m) && ed.cur_len() == 0 {
        ed.text()
    } else {
        match super::motions::motion_range(ed.text(), ed.cursor_row as int, ed.cursor_col as int, m, count_or_one(ed)) {
            Some(t) => super::operators::operated_text(ed.text(), op, t),
            None => ed.text(),
        }
    }
}

/// The register of `b` is what the operator `op` over `m` left from `a`: the text it
/// deleted, changed or yanked (linewise for a linewise range); the other operators and a
/// motion that reaches nothing leave the register alone.
pub open spec fn operated_register(a: VimEditor, b: VimEditor, op: Operator, m: Motion) -> bool {
    if super::motions::needs_char(m) && a.cur_len() == 0 {
        b.unnamed_register == a.unnamed_register
    } else {
        match super::motions::motion_range(a.text(), a.cursor_row as int, a.cursor_col as int, m, count_or_one(a)) {
            Some(t) => (op == Operator::Delete || op == Operator::Change || op == Operator::Yank) ==> b.register()
                == a.yank_text(t.0, t.1, t.2, t.3, t.4) && b.unnamed_register.linewise == t.4,
            None => b.unnamed_register == a.unnamed_register,
        }
    }
}

/// The lines of `ed` after its pending operator ran over the motion that `key` gives, with
/// the pending count.
pub open spec fn operator_text(ed: VimEditor, key: Key) -> Seq<Seq<char>> {
    match ed.pending_operator {
        Some(op) => match operator_motion(op, key) {
            Some(m) => operated_lines(ed, op, m),
            None => ed.text(),
        },
        None => ed.text(),
    }
}

/// The register of `b` after the pending operator of `a` ran over the motion of `key`.
pub open spec fn operator_register(a: VimEditor, b: VimEditor, key: Key) -> bool {
    match a.pending_operator {
        Some(op) => match operator_motion(op, key) {
            Some(m) => operated_register(a, b, op, m),
            None => true,
        },
        None => true,
    }
}

/// The text object that `key` names after `i` (`around` false) or `a` (`around` true).
pub open spec fn text_object_motion(key: Key, around: bool) -> Option<Motion> {
    match key.code {
        KeyCode::Char('w') => Some(if around { Motion::AroundWord } else { Motion::InnerWord }),
        KeyCode::Char('"') => Some(if around { Motion::AroundQuote('"') } else { Motion::InnerQuote('"') }),
        KeyCode::Char('\'') => Some(if around { Motion::AroundQuote('\'') } else { Motion::InnerQuote('\'') }),
        KeyCode::Char('`') => Some(if around { Motion::AroundQuote('`') } else { Motion::InnerQuote('`') }),
        KeyCode::Char('(') | KeyCode::Char(')') | KeyCode::Char('b') => Some(
            if around { Motion::AroundParen('(', ')') } else { Motion::InnerParen('(', ')') },
        ),
        KeyCode::Char('{') | KeyCode::Char('}') | KeyCode::Char('B') => Some(
            if around { Motion::AroundParen('{', '}') } else { Motion::InnerParen('{', '}') },
        ),
        KeyCode::Char('[') | KeyCode::Char(']') => Some(
            if around { Motion::AroundParen('[', ']') } else { Motion::InnerParen('[', ']') },
        ),
        KeyCode::Char('<') | KeyCode::Char('>') => Some(
            if around { Motion::AroundParen('<', '>') } else { Motion::InnerParen('<', '>') },
        ),
        _ => None,
    }
}

/// In Normal mode an operator waits for the text object after its `i` or `a`.
pub open spec fn text_object_pending(ed: VimEditor) -> bool {
    &&& !ed.pending_register && ed.pending_find is None && !ed.pending_replace && !ed.pending_z && !ed.pending_g
    &&& !ed.pending_gc && ed.pending_text_object is Some && ed.pending_operator is Some
}

/// `b` is `a` after the text object that `key` names ran its pending operator: the lines
/// and the register as [`operated_lines`] and [`operated_register`] give them (nothing
/// changes for a key that names no text object).
pub open spec fn text_object_done(a: VimEditor, b: VimEditor, key: Key) -> bool {
    match text_object_motion(key, a.pending_text_object->0) {
        Some(m) => b.text() == operated_lines(a, a.pending_operator->0, m)
            && operated_register(a, b, a.pending_operator->0, m),
        None => b.text() == a.text(),
    }
}

/// `b` is `a` after the character `key` of `f`, `F`, `t` or `T` (`dir`, `before`): it
/// becomes the find that `;` repeats, and the pending operator runs up to it, or without
/// one the cursor moves to it on the line; another key changes no line.
pub open spec fn find_done(a: VimEditor, b: VimEditor, key: Key, dir: FindDirection, before: bool) -> bool {
    &&& !(key.code is Char) ==> b.text() == a.text()
    &&& key.code matches KeyCode::Char(c) ==> b.last_find == Some((dir, before, c)) && match a.pending_operator {
        Some(op) => b.text() == operated_lines(a, op, find_motion_of(dir, before, c))
            && operated_register(a, b, op, find_motion_of(dir, before, c)),
        None => b.text() == a.text() && b.cursor_row == a.cursor_row && b.cursor_col == if dir == FindDirection::Forward {
            super::motions::find_forward_col(a.cur_line(), a.cursor_col as int, c, before)
        } else {
            super::motions::find_backward_col(a.cur_line(), a.cursor_col as int, c, before)
        },
    }
}

/// `b` is `a` after `key` answered the pending `f`, `F`, `t` or `T` of `a` (see
/// [`find_done`]).
pub open spec fn pending_find_done(a: VimEditor, b: VimEditor, key: Key) -> bool {
    match a.pending_find {
        Some((dir, before)) => find_done(a, b, key, dir, before),
        None => true,
    }
}

/// `b` is `a` after the character `key` of `r` (with the pending count): that many
/// characters from the cursor, as far as the line goes, become the character, and the
/// cursor rests on the last of them; off a character, or for another key, no line
/// changes.
pub open spec fn replace_done(a: VimEditor, b: VimEditor, key: Key) -> bool {
    &&& key.code matches KeyCode::Char(c) ==> (a.on_char() ==> b.text() == a.text().update(
        a.cursor_row as int,
        super::keys::replaced_run(a.cur_line(), a.cursor_col as int, c, count_or_one(a) as int),
    ) && b.cursor_row == a.cursor_row && b.cursor_col == min_int(a.cursor_col + count_or_one(a), a.cur_len() as int) - 1)
    &&& !(key.code is Char && a.on_char()) ==> b.text() == a.text()
    &&& !b.pending_replace && b.pending_count is None
}

/// The column of the cursor of `ed` after Home, End, Left or Right in Insert mode: the
/// line start, the line end, one column left or right as far as the line goes.
pub open spec fn insert_moved_col(ed: VimEditor, code: KeyCode) -> int {
    if code == KeyCode::Home {
        0
    } else if code == KeyCode::End {
        ed.cur_len() as int
    } else if code == KeyCode::Left {
        sat_sub(ed.cursor_col as int, 1)
    } else if ed.cursor_col < ed.cur_len() {
        ed.cursor_col + 1
    } else {
        ed.cursor_col as int
    }
}

/// The lines of `ed` after `X` (with the pending count): that many characters before the
/// cursor go, as far as the first column.
pub open spec fn big_x_text(ed: VimEditor) -> Seq<Seq<char>> {
    if ed.cursor_col == 0 {
        ed.text()
    } else {
        ed.text().update(
            ed.cursor_row as int,
            remove_before_times(ed.cur_line(), ed.cursor_col as int, ed.mode, count_or_one(ed)).0,
        )
    }
}

/// The lines `text` after the register `reg` (`linewise` or not) went above row `row` or
/// before column `col` of it, as `P` puts it; an empty register changes nothing.
pub open spec fn put_before_at(text: Seq<Seq<char>>, row: int, col: int, reg: Seq<char>, linewise: bool) -> Seq<Seq<char>> {
    if reg.len() == 0 {
        text
    } else if linewise {
        text.take(row) + std_lines(reg) + text.skip(row)
    } else {
        let line = super::line_at(text, row);
        let c = if col <= line.len() { col } else { line.len() as int };
        text.update(row, line.take(c) + reg + line.skip(c))
    }
}

/// The lines of `a` after `p` over its selection: the selection is cut as
/// [`VimEditor::visual_cut`] gives it, then the register of `a` goes before the cursor
/// where the cut left it.
pub open spec fn visual_pasted_text(a: VimEditor) -> Seq<Seq<char>> {
    match a.selection() {
        Some((s, e)) => {
            let cut = a.visual_cut(a.visual_kind_spec()->0, s, e);
            let row = super::clamp_row_of(cut.text, cut.row as usize);
            let col = super::clamp_col_of(cut.text, cut.row, cut.col as usize, VimMode::Normal);
            put_before_at(cut.text, row as int, col as int, a.register(), a.unnamed_register.linewise)
        },
        None => put_before_at(
            a.text(),
            super::clamp_row_of(a.text(), a.cursor_row) as int,
            super::clamp_col_of(a.text(), a.cursor_row as int, a.cursor_col, VimMode::Normal) as int,
            a.register(),
            a.unnamed_register.linewise,
        ),
    }
}

/// `b` is `a` after `x` with the pending count: that many characters from the cursor, as
/// far as the line goes, are cut into the register (characterwise) and handed to the
/// system clipboard; off a character no line changes.
pub open spec fn x_done(a: VimEditor, b: VimEditor) -> bool {
    let k = super::keys::removed_count(a.cur_len(), a.cursor_col, count_or_one(a) as usize);
    let line = a.cur_line();
    let col = a.cursor_col as int;
    if k > 0 {
        &&& b.text() == a.text().update(a.cursor_row as int, line.take(col) + line.skip(col + k))
        &&& b.register() == line.subrange(col, col + k)
        &&& !b.unnamed_register.linewise
        &&& b.clipboard_out matches Some(c) && c@ == line.subrange(col, col + k)
        &&& b.cursor_clamped_from(a.cursor_row, a.cursor_col)
        &&& b.pending_count is None
        &&& b.history_saved(&a)
    } else {
        &&& b.text() == a.text()
        &&& b.cursor_row == a.cursor_row && b.cursor_col == a.cursor_col
        &&& b.pending_count is None
        &&& b.history_saved(&a)
    }
}

/// In Normal mode nothing but a count may be pending.
pub open spec fn only_count_pending(ed: VimEditor) -> bool {
    &&& !ed.pending_register && ed.pending_find is None && !ed.pending_replace && !ed.pending_z && !ed.pending_g
    &&& !ed.pending_gc && ed.pending_text_object is None && !ed.pending_mark && ed.pending_goto_mark is None
    &&& ed.pending_bracket is None && !ed.pending_macro_record && !ed.pending_macro_play
    &&& ed.pending_operator is None
}

/// `b` is `a` after the Normal-mode key `key` with nothing but a count pending: a movement,
/// a scrolling key or a command.
pub open spec fn normal_key_done(a: VimEditor, b: VimEditor, key: Key) -> bool {
    &&& movement_key(key) ==> movement_done(a, b, key)
    &&& !movement_key(key) && scroll_key(key) ==> scrolled(a, b, key)
    &&& !movement_key(key) && !scroll_key(key) ==> normal_command_done(a, b, key)
}

/// `b` is `a` after the name `key` that follows `m`: a letter marks the cursor position.
pub open spec fn mark_set(a: VimEditor, b: VimEditor, key: Key) -> bool {
    &&& key.code matches KeyCode::Char(c) ==> forall|d: char| #[trigger] b.mark(d) == if d == c && super::marks::mark_name(c) {
        Some((a.cursor_row, a.cursor_col))
    } else {
        a.mark(d)
    }
    &&& !b.pending_mark
    &&& b.text() == a.text()
}

/// `b` is `a` after the key `key` that follows `z`: `zz`, `zt` and `zb` scroll the cursor
/// line to the middle, the top or the bottom of the view; another key drops the count.
pub open spec fn z_done(a: VimEditor, b: VimEditor, key: Key) -> bool {
    &&& !b.pending_z
    &&& b.text() == a.text()
    &&& b.cursor_row == a.cursor_row && b.cursor_col == a.cursor_col
    &&& any_char(key, 'z') ==> b.scroll_offset == sat_sub(a.cursor_row as int, a.visible_height as int / 2) as usize
    &&& any_char(key, 't') ==> b.scroll_offset == a.cursor_row
    &&& any_char(key, 'b') ==> b.scroll_offset == sat_sub(a.cursor_row + 1, a.visible_height as int) as usize
    &&& !(any_char(key, 'z') || any_char(key, 't') || any_char(key, 'b')) ==> b.pending_count is None
        && b.scroll_offset == a.scroll_offset
}

/// `b` is `a` after the key `key` that follows `g` in Normal mode: `gg` goes to the line of
/// the count (the first line without one), `gc` waits for the next key, `gU`, `gu` and `g~`
/// wait for a motion, and another key (`gd` among them) drops the count.
pub open spec fn g_done(a: VimEditor, b: VimEditor, key: Key) -> bool {
    &&& !b.pending_g
    &&& b.text() == a.text()
    &&& any_char(key, 'g') ==> b.pending_count is None && b.cursor_clamped_from(gg_target(a).0, gg_target(a).1)
    &&& !any_char(key, 'g') ==> b.cursor_row == a.cursor_row && b.cursor_col == a.cursor_col
    &&& b.pending_gc == (a.pending_gc || any_char(key, 'c'))
    &&& b.pending_operator == if any_char(key, 'U') {
        Some(Operator::Uppercase)
    } else if any_char(key, 'u') {
        Some(Operator::Lowercase)
    } else if any_char(key, '~') {
        Some(Operator::ToggleCase)
    } else {
        a.pending_operator
    }
    &&& !(any_char(key, 'c') || any_char(key, 'U') || any_char(key, 'u') || any_char(key, '~')) ==> b.pending_count is None
}

/// The pending count of `ed`, one when none is pending.
pub open spec fn count_or_one(ed: VimEditor) -> nat {
    match ed.pending_count {
        Some(n) => n as nat,
        None => 1,
    }
}

/// The lines of `ed` after `J` (with the pending count): the line below is joined to the
/// cursor line that many times, as long as there is one.
pub open spec fn joined_text(ed: VimEditor) -> Seq<Seq<char>> {
    join_times(ed.text(), ed.cursor_row as int, count_or_one(ed))
}

/// The lines of `ed` after `~` (with the pending count): that many characters from the
/// cursor on change case, as far as the line goes.
pub open spec fn tilde_text(ed: VimEditor) -> Seq<Seq<char>> {
    ed.text().update(ed.cursor_row as int, toggle_times(ed.cur_line(), ed.cursor_col as int, count_or_one(ed)).0)
}

/// The lines of `ed` after `o` (`below`) or `O` where insertion is allowed: an empty line
/// with the cursor line's indentation opens below or above it.
pub open spec fn opened_text(ed: VimEditor, below: bool) -> Seq<Seq<char>> {
    let indent = ed.cur_line().take(leading_ws(ed.cur_line()) as int);
    let at = if below { ed.cursor_row + 1 } else { ed.cursor_row as int };
    ed.text().insert(at, indent)
}

/// The lines of `ed` after `dd` (with the pending count, one without): that many lines
/// from the cursor line down are deleted, as many as there are.
pub open spec fn lines_deleted(ed: VimEditor) -> Seq<Seq<char>> {
    let count = match ed.pending_count {
        Some(n) => n as int,
        None => 1,
    };
    super::buffer::lines_removed(ed.text(), ed.cursor_row as int, min_int(ed.cursor_row + count, ed.text().len() as int))
}

/// In Normal mode only an operator, with or without a count, is pending.
pub open spec fn only_operator_pending(ed: VimEditor) -> bool {
    &&& !ed.pending_register && ed.pending_find is None && !ed.pending_replace && !ed.pending_z && !ed.pending_g
    &&& !ed.pending_gc && ed.pending_text_object is None && !ed.pending_mark && ed.pending_goto_mark is None
    &&& ed.pending_bracket is None && !ed.pending_macro_record && !ed.pending_macro_play
    &&& ed.pending_operator is Some
}

/// No prefix is pending in Normal mode: no count, operator, `g`, `z`, `"`, find,
/// replacement, text object, `gc`, mark, bracket or macro key waits for its next key.
pub open spec fn nothing_pending(ed: VimEditor) -> bool {
    &&& !ed.pending_register && ed.pending_find is None && !ed.pending_replace && !ed.pending_z && !ed.pending_g
    &&& !ed.pending_gc && ed.pending_text_object is None && !ed.pending_mark && ed.pending_goto_mark is None
    &&& ed.pending_bracket is None && !ed.pending_macro_record && !ed.pending_macro_play
    &&& ed.pending_count is None && ed.pending_operator is None
}

/// The digit of a digit character.
pub(crate) fn digit_of_char(c: char) -> (r: usize)
    requires
        is_digit(c),
    ensures
        r < 10,
        r == 0 <==> c == '0',
{
    crate::text::digit_of(c)
}

impl VimEditor {
    /// `h`: `count` columns left.
    fn key_h(&mut self)
        requires
            old(self).inv(),
        ensures
            final(self).inv(),
            final(self).config == old(self).config,
            final(self).text() == old(self).text(),
            final(self).mode == old(self).mode,
            final(self).cursor_row == old(self).cursor_row,
            final(self).cursor_col == sat_sub(old(self).cursor_col as int, count_or_one(*old(self)) as int),
    {
        let n = self.take_count();
        self.move_left(n);
        proof {
            super::lemma_clamp_rows_in(self.text());
        }
    }

    /// `l`: `count` columns right.
    fn key_l(&mut self)
        requires
            old(self).inv(),
        ensures
            final(self).inv(),
            final(self).config == old(self).config,
            final(self).text() == old(self).text(),
            final(self).mode == old(self).mode,
            final(self).cursor_row == old(self).cursor_row,
            final(self).cursor_col == min_int(old(self).cursor_col + count_or_one(*old(self)),
                if old(self).mode == VimMode::Insert { old(self).cur_len() as int } else { sat_sub(old(self).cur_len() as int, 1) }),
    {
        let n = self.take_count();
        self.move_right(n);
        proof {
            super::lemma_clamp_rows_in(self.text());
        }
    }

    /// `j`: `count` lines down.
    fn key_j(&mut self)
        requires
            old(self).inv(),
        ensures
            final(self).inv(),
            final(self).config == old(self).config,
            final(self).text() == old(self).text(),
            final(self).mode == old(self).mode,
            final(self).cursor_clamped_from(
                min_int(old(self).cursor_row + count_or_one(*old(self)), last_row(old(self).text())) as usize,
                old(self).cursor_col,
            ),
    {
        let n = self.take_count();
        self.move_down(n);
        proof {
            super::lemma_clamp_rows_in(self.text());
        }
    }

    /// `k`: `count` lines up.
    fn key_k(&mut self)
        requires
            old(self).inv(),
        ensures
            final(self).inv(),
            final(self).config == old(self).config,
            final(self).text() == old(self).text(),
            final(self).mode == old(self).mode,
            final(self).cursor_clamped_from(
                sat_sub(old(self).cursor_row as int, count_or_one(*old(self)) as int) as usize,
                old(self).cursor_col,
            ),
    {
        let n = self.take_count();
        self.move_up(n);
        proof {
            super::lemma_clamp_rows_in(self.text());
        }
    }

    /// A word motion, `count` times.
    fn key_w(&mut self)
        requires
            old(self).inv(),
        ensures
            final(self).inv(),
            final(self).config == old(self).config,
            final(self).text() == old(self).text(),
            final(self).mode == old(self).mode,
            (final(self).cursor_row as int, final(self).cursor_col as int) == super::motions::word_steps(
                super::motions::WordMove::Start,
                old(self).text(),
                old(self).cursor_row as int,
                old(self).cursor_col as int,
                false,
                count_or_one(*old(self)),
            ),
    {
        let n = self.take_count();
        self.move_word_forward(n, false);
        proof {
            super::motions::lemma_word_steps_rows(super::motions::WordMove::Start, old(self).text(), old(self).cursor_row as int, old(self).cursor_col as int, false, n as nat);
        }
        proof {
            super::lemma_clamp_rows_in(self.text());
        }
    }

    /// A word motion, `count` times.
    fn key_big_w(&mut self)
        requires
            old(self).inv(),
        ensures
            final(self).inv(),
            final(self).config == old(self).config,
            final(self).text() == old(self).text(),
            final(self).mode == old(self).mode,
            (final(self).cursor_row as int, final(self).cursor_col as int) == super::motions::word_steps(
                super::motions::WordMove::Start,
                old(self).text(),
                old(self).cursor_row as int,
                old(self).cursor_col as int,
                true,
                count_or_one(*old(self)),
            ),
    {
        let n = self.take_count();
        self.move_word_forward(n, true);
        proof {
            super::motions::lemma_word_steps_rows(super::motions::WordMove::Start, old(self).text(), old(self).cursor_row as int, old(self).cursor_col as int, true, n as nat);
        }
        proof {
            super::lemma_clamp_rows_in(self.text());
        }
    }

    /// A word motion, `count` times.
    fn key_e(&mut self)
        requires
            old(self).inv(),
        ensures
            final(self).inv(),
            final(self).config == old(self).config,
            final(self).text() == old(self).text(),
            final(self).mode == old(self).mode,
            (final(self).cursor_row as int, final(self).cursor_col as int) == super::motions::word_steps(
                super::motions::WordMove::End,
                old(self).text(),
                old(self).cursor_row as int,
                old(self).cursor_col as int,
                false,
                count_or_one(*old(self)),
            ),
    {
        let n = self.take_count();
        self.move_word_end(n, false);
        proof {
            super::motions::lemma_word_steps_rows(super::motions::WordMove::End, old(self).text(), old(self).cursor_row as int, old(self).cursor_col as int, false, n as nat);
        }
        proof {
            super::lemma_clamp_rows_in(self.text());
        }
    }

    /// A word motion, `count` times.
    fn key_big_e(&mut self)
        requires
            old(self).inv(),
        ensures
            final(self).inv(),
            final(self).config == old(self).config,
            final(self).text() == old(self).text(),
            final(self).mode == old(self).mode,
            (final(self).cursor_row as int, final(self).cursor_col as int) == super::motions::word_steps(
                super::motions::WordMove::End,
                old(self).text(),
                old(self).cursor_row as int,
                old(self).cursor_col as int,
                true,
                count_or_one(*old(self)),
            ),
    {
        let n = self.take_count();
        self.move_word_end(n, true);
        proof {
            super::motions::lemma_word_steps_rows(super::motions::WordMove::End, old(self).text(), old(self).cursor_row as int, old(self).cursor_col as int, true, n as nat);
        }
        proof {
            super::lemma_clamp_rows_in(self.text());
        }
    }

    /// A word motion, `count` times.
    fn key_b(&mut self)
        requires
            old(self).inv(),
        ensures
            final(self).inv(),
            final(self).config == old(self).config,
            final(self).text() == old(self).text(),
            final(self).mode == old(self).mode,
            (final(self).cursor_row as int, final(self).cursor_col as int) == super::motions::word_steps(
                super::motions::WordMove::Back,
                old(self).text(),
                old(self).cursor_row as int,
                old(self).cursor_col as int,
                false,
                count_or_one(*old(self)),
            ),
    {
        let n = self.take_count();
        self.move_word_back(n, false);
        proof {
            super::motions::lemma_word_steps_rows(super::motions::WordMove::Back, old(self).text(), old(self).cursor_row as int, old(self).cursor_col as int, false, n as nat);
        }
        proof {
            super::lemma_clamp_rows_in(self.text());
        }
    }

    /// A word motion, `count` times.
    fn key_big_b(&mut self)
        requires
            old(self).inv(),
        ensures
            final(self).inv(),
            final(self).config == old(self).config,
            final(self).text() == old(self).text(),
            final(self).mode == old(self).mode,
            (final(self).cursor_row as int, final(self).cursor_col as int) == super::motions::word_steps(
                super::motions::WordMove::Back,
                old(self).text(),
                old(self).cursor_row as int,
                old(self).cursor_col as int,
                true,
                count_or_one(*old(self)),
            ),
    {
        let n = self.take_count();
        self.move_word_back(n, true);
        proof {
            super::motions::lemma_word_steps_rows(super::motions::WordMove::Back, old(self).text(), old(self).cursor_row as int, old(self).cursor_col as int, true, n as nat);
        }
        proof {
            super::lemma_clamp_rows_in(self.text());
        }
    }

    /// `0`: to the first column.
    fn key_zero(&mut self)
        requires
            old(self).inv(),
        ensures
            final(self).inv(),
            final(self).config == old(self).config,
            final(self).text() == old(self).text(),
            final(self).mode == old(self).mode,
            final(self).cursor_row == old(self).cursor_row,
            final(self).cursor_col == 0,
    {
        self.pending_count = None;
        self.move_to_line_start();
        proof {
            super::lemma_clamp_rows_in(self.text());
        }
    }

    /// `^`: to the first non-blank character.
    fn key_caret(&mut self)
        requires
            old(self).inv(),
        ensures
            final(self).inv(),
            final(self).config == old(self).config,
            final(self).text() == old(self).text(),
            final(self).mode == old(self).mode,
            final(self).cursor_row == old(self).cursor_row,
            final(self).cursor_col == leading_ws(old(self).cur_line()),
    {
        self.pending_count = None;
        self.move_to_first_non_blank();
        proof {
            super::lemma_clamp_rows_in(self.text());
        }
    }

    /// `$`: to the end of the line.
    fn key_dollar(&mut self)
        requires
            old(self).inv(),
        ensures
            final(self).inv(),
            final(self).config == old(self).config,
            final(self).text() == old(self).text(),
            final(self).mode == old(self).mode,
            final(self).cursor_row == old(self).cursor_row,
            final(self).cursor_col == if old(self).mode == VimMode::Insert {
                old(self).cur_len() as int
            } else {
                sat_sub(old(self).cur_len() as int, 1)
            },
    {
        self.pending_count = None;
        self.move_to_line_end();
        proof {
            super::lemma_clamp_rows_in(self.text());
        }
    }

    /// `G`: to line `count`, or the last line without a count.
    fn key_big_g(&mut self)
        requires
            old(self).inv(),
        ensures
            final(self).inv(),
            final(self).config == old(self).config,
            final(self).text() == old(self).text(),
            final(self).mode == old(self).mode,
            final(self).cursor_clamped_from(
                match old(self).pending_count {
                    Some(n) => if n > 0 {
                        min_int(n - 1, last_row(old(self).text())) as usize
                    } else {
                        old(self).cursor_row
                    },
                    None => last_row(old(self).text()) as usize,
                },
                old(self).cursor_col,
            ),
    {
        let count = self.pending_count;
        self.pending_count = None;
        match count {
            Some(n) => self.move_to_line(n),
            None => self.move_to_bottom(),
        }
        proof {
            super::lemma_clamp_rows_in(self.text());
        }
    }

    /// `Ctrl-d`: half a page down.
    fn key_ctrl_d(&mut self)
        requires
            old(self).inv(),
        ensures
            final(self).inv(),
            final(self).config == old(self).config,
            final(self).text() == old(self).text(),
            final(self).mode == old(self).mode,
            final(self).scroll_offset == min_int(old(self).scroll_offset + super::motions::half_of(old(self).visible_height),
                sat_sub(old(self).text().len() as int, old(self).visible_height as int)) as usize,
            final(self).cursor_clamped_from(
                min_int(old(self).cursor_row + super::motions::half_of(old(self).visible_height), last_row(old(self).text()))
                    as usize,
                old(self).cursor_col,
            ),
    {
        self.pending_count = None;
        self.half_page_down();
        proof {
            super::lemma_clamp_rows_in(self.text());
        }
    }

    /// `Ctrl-u`: half a page up.
    fn key_ctrl_u(&mut self)
        requires
            old(self).inv(),
        ensures
            final(self).inv(),
            final(self).config == old(self).config,
            final(self).text() == old(self).text(),
            final(self).mode == old(self).mode,
            final(self).scroll_offset == sat_sub(old(self).scroll_offset as int, super::motions::half_of(old(self).visible_height))
                as usize,
            final(self).cursor_clamped_from(
                sat_sub(old(self).cursor_row as int, super::motions::half_of(old(self).visible_height)) as usize,
                old(self).cursor_col,
            ),
    {
        self.pending_count = None;
        self.half_page_up();
        proof {
            super::lemma_clamp_rows_in(self.text());
        }
    }

    /// `Ctrl-f`: a page down.
    fn key_ctrl_f(&mut self)
        requires
            old(self).inv(),
        ensures
            final(self).inv(),
            final(self).config == old(self).config,
            final(self).text() == old(self).text(),
            final(self).scroll_offset == min_int(old(self).scroll_offset + old(self).visible_height, usize::MAX as int),
            final(self).cursor_clamped_from(
                min_int(old(self).cursor_row + old(self).visible_height, old(self).text().len() - 1) as usize,
                old(self).cursor_col,
            ),
    {
        self.pending_count = None;
        self.full_page_down();
        proof {
            super::lemma_clamp_rows_in(self.text());
        }
    }

    /// `Ctrl-b`: a page up.
    fn key_ctrl_b(&mut self)
        requires
            old(self).inv(),
        ensures
            final(self).inv(),
            final(self).config == old(self).config,
            final(self).text() == old(self).text(),
            final(self).scroll_offset == sat_sub(old(self).scroll_offset as int, old(self).visible_height as int),
            final(self).cursor_clamped_from(
                sat_sub(old(self).cursor_row as int, old(self).visible_height as int) as usize,
                old(self).cursor_col,
            ),
    {
        self.pending_count = None;
        self.full_page_up();
        proof {
            super::lemma_clamp_rows_in(self.text());
        }
    }

    /// `Ctrl-e`: the view one line down.
    fn key_ctrl_e(&mut self)
        requires
            old(self).inv(),
        ensures
            final(self).inv(),
            final(self).config == old(self).config,
            final(self).text() == old(self).text(),
            final(self).scroll_offset == min_int(old(self).scroll_offset + 1, sat_sub(old(self).text().len() as int, 3)),
            final(self).cursor_clamped_from(
                if old(self).cursor_row < final(self).scroll_offset { final(self).scroll_offset } else { old(self).cursor_row },
                old(self).cursor_col,
            ),
    {
        self.pending_count = None;
        self.scroll_line_down();
        proof {
            super::lemma_clamp_rows_in(self.text());
        }
    }

    /// `Ctrl-y`: the view one line up.
    fn key_ctrl_y(&mut self)
        requires
            old(self).inv(),
        ensures
            final(self).inv(),
            final(self).config == old(self).config,
            final(self).text() == old(self).text(),
            final(self).scroll_offset == sat_sub(old(self).scroll_offset as int, 1),
            final(self).cursor_clamped_from(
                if final(self).visible_height > 0 && old(self).cursor_row >= final(self).scroll_offset
                    + final(self).visible_height {
                    (final(self).scroll_offset + final(self).visible_height - 1) as usize
                } else {
                    old(self).cursor_row
                },
                old(self).cursor_col,
            ),
    {
        self.pending_count = None;
        self.scroll_line_up();
        proof {
            super::lemma_clamp_rows_in(self.text());
        }
    }

    /// `H`: to the top of the view.
    fn key_screen_top(&mut self)
        requires
            old(self).inv(),
        ensures
            final(self).inv(),
            final(self).config == old(self).config,
            final(self).text() == old(self).text(),
            final(self).mode == old(self).mode,
            final(self).cursor_clamped_from(old(self).view_row(0) as usize, old(self).cursor_col),
    {
        self.pending_count = None;
        self.move_to_screen_top();
        proof {
            super::lemma_clamp_rows_in(self.text());
        }
    }

    /// `M`: to the middle of the view.
    fn key_screen_middle(&mut self)
        requires
            old(self).inv(),
        ensures
            final(self).inv(),
            final(self).config == old(self).config,
            final(self).text() == old(self).text(),
            final(self).mode == old(self).mode,
            final(self).cursor_clamped_from(
                old(self).view_row(
                    sat_sub(min_int(old(self).visible_height as int, old(self).text().len() - old(self).scroll_offset), 1) / 2,
                ) as usize,
                old(self).cursor_col,
            ),
    {
        self.pending_count = None;
        self.move_to_screen_middle();
        proof {
            super::lemma_clamp_rows_in(self.text());
        }
    }

    /// `L`: to the bottom of the view.
    fn key_screen_bottom(&mut self)
        requires
            old(self).inv(),
        ensures
            final(self).inv(),
            final(self).config == old(self).config,
            final(self).text() == old(self).text(),
            final(self).mode == old(self).mode,
            final(self).cursor_clamped_from(old(self).view_row(sat_sub(old(self).visible_height as int, 1)) as usize,
                old(self).cursor_col),
    {
        self.pending_count = None;
        self.move_to_screen_bottom();
        proof {
            super::lemma_clamp_rows_in(self.text());
        }
    }

    /// `%`: to the matching bracket.
    fn key_percent(&mut self)
        requires
            old(self).inv(),
        ensures
            final(self).inv(),
            final(self).config == old(self).config,
            final(self).text() == old(self).text(),
            final(self).mode == old(self).mode,
            (final(self).cursor_row as int, final(self).cursor_col as int) == super::keys::bracket_target(
                old(self).text(),
                old(self).cursor_row as int,
                old(self).cursor_col as int,
            ),
    {
        self.pending_count = None;
        self.move_to_matching_bracket();
        proof {
            super::lemma_clamp_rows_in(self.text());
        }
    }

    /// Moves the cursor for a movement key of Normal or Visual mode.
    fn movement(&mut self, key: Key)
        requires
            old(self).inv(),
            movement_key(key),
        ensures
            final(self).inv(),
            final(self).config == old(self).config,
            movement_done(*old(self), *final(self), key),
    {
        match key.code {
            KeyCode::Char('h') | KeyCode::Left => self.key_h(),
            KeyCode::Char('l') | KeyCode::Right => self.key_l(),
            KeyCode::Char('j') | KeyCode::Down => self.key_j(),
            KeyCode::Char('k') | KeyCode::Up => self.key_k(),
            KeyCode::Char('w') => self.key_w(),
            KeyCode::Char('W') => self.key_big_w(),
            KeyCode::Char('e') => self.key_e(),
            KeyCode::Char('E') => self.key_big_e(),
            KeyCode::Char('b') => self.key_b(),
            KeyCode::Char('B') => self.key_big_b(),
            KeyCode::Char('0') | KeyCode::Home => self.key_zero(),
            KeyCode::Char('^') => self.key_caret(),
            KeyCode::Char('$') | KeyCode::End => self.key_dollar(),
            _ => self.key_big_g(),
        }
    }

    /// Scrolls for a scrolling key of Normal or Visual mode.
    fn scrolling(&mut self, key: Key)
        requires
            old(self).inv(),
            scroll_key(key),
        ensures
            final(self).inv(),
            final(self).config == old(self).config,
            scrolled(*old(self), *final(self), key),
    {
        match key.code {
            KeyCode::Char('d') => self.key_ctrl_d(),
            KeyCode::Char('u') => self.key_ctrl_u(),
            KeyCode::Char('f') => self.key_ctrl_f(),
            KeyCode::Char('b') => self.key_ctrl_b(),
            KeyCode::Char('e') => self.key_ctrl_e(),
            _ => self.key_ctrl_y(),
        }
    }

}


/// Lemmas that carry the invariant through commands whose contracts state their effect.
proof fn lemma_paste_after_inv(a: VimEditor, b: VimEditor)
    requires
        a.inv(),
        a.register().len() == 0 ==> b == a,
        a.register().len() > 0 ==> b.pasted_after(&a) && b.history_saved(&a),
    ensures
        b.inv(),
{
    if a.register().len() > 0 {
        super::lemma_history_saved_stacks(a, b);
        crate::text::lemma_std_lines_nonempty(a.register());
    }
}

/// The invariant after `P`.
proof fn lemma_paste_before_inv(a: VimEditor, b: VimEditor)
    requires
        a.inv(),
        a.register().len() == 0 ==> b == a,
        a.register().len() > 0 ==> b.pasted_before(&a) && b.history_saved(&a),
    ensures
        b.inv(),
{
    if a.register().len() > 0 {
        super::lemma_history_saved_stacks(a, b);
        crate::text::lemma_std_lines_nonempty(a.register());
    }
}

impl VimEditor {
    /// Applies operator `op` over `motion`, keeping the invariant. A delimited text object
    /// on an empty line does nothing.
    fn run_operator(&mut self, op: Operator, motion: Motion, count: usize)
        requires
            old(self).inv(),
            old(self).visual_anchor is None,
            motion == Motion::Line ==> count >= 1,
        ensures
            final(self).inv(),
            final(self).config == old(self).config,
            final(self).visual_anchor is None,
            super::motions::needs_char(motion) && old(self).cur_len() == 0 ==> *final(self) == *old(self),
            !(super::motions::needs_char(motion) && old(self).cur_len() == 0) ==> final(self).text() == match super::motions::motion_range(
                old(self).text(),
                old(self).cursor_row as int,
                old(self).cursor_col as int,
                motion,
                count as nat,
            ) {
                Some(t) => super::operators::operated_text(old(self).text(), op, t),
                None => old(self).text(),
            },
            !(super::motions::needs_char(motion) && old(self).cur_len() == 0) ==> match super::motions::motion_range(
                old(self).text(),
                old(self).cursor_row as int,
                old(self).cursor_col as int,
                motion,
                count as nat,
            ) {
                Some(t) => (op == Operator::Delete || op == Operator::Change || op == Operator::Yank) ==> final(self).register()
                    == old(self).yank_text(t.0, t.1, t.2, t.3, t.4) && final(self).unnamed_register.linewise == t.4,
                None => final(self).unnamed_register == old(self).unnamed_register,
            },
    {
        if super::motions::needs_char_exec(motion) && self.current_line_len() == 0 {
            return;
        }
        self.execute_operator(&op, &motion, count);
        proof {
            if op != Operator::Yank && super::motions::motion_range(old(self).text(), old(self).cursor_row as int, old(self).cursor_col as int, motion, count as nat) is Some {
                super::lemma_history_saved_stacks(*old(self), *self);
            }
        }
    }

    /// `p` keeping the invariant.
    fn key_paste_after(&mut self)
        requires
            old(self).inv(),
        ensures
            final(self).inv(),
            final(self).config == old(self).config,
            final(self).text() == put_after_text(*old(self)),
    {
        self.paste_after();
        proof {
            lemma_paste_after_inv(*old(self), *self);
        }
    }

    /// `P` keeping the invariant.
    fn key_paste_before(&mut self)
        requires
            old(self).inv(),
        ensures
            final(self).inv(),
            final(self).config == old(self).config,
            final(self).unnamed_register == old(self).unnamed_register,
            final(self).mode == old(self).mode,
            final(self).visual_anchor == old(self).visual_anchor,
            old(self).register().len() == 0 ==> *final(self) == *old(self),
            old(self).register().len() > 0 ==> final(self).pasted_before(old(self)),
            final(self).text() == put_before_text(*old(self)),
    {
        self.paste_before();
        proof {
            lemma_paste_before_inv(*old(self), *self);
        }
    }

    /// `u`: undo.
    fn key_undo(&mut self)
        requires
            old(self).inv(),
            old(self).visual_anchor is None,
        ensures
            final(self).inv(),
            final(self).config == old(self).config,
            final(self).text() == undo_text(*old(self)),
    {
        self.pending_count = None;
        self.undo();
    }

    /// `Ctrl-r`: redo.
    fn key_redo(&mut self)
        requires
            old(self).inv(),
            old(self).visual_anchor is None,
        ensures
            final(self).inv(),
            final(self).config == old(self).config,
            final(self).redone_from(&VimEditor { pending_count: None, ..*old(self) }),
    {
        self.pending_count = None;
        self.redo();
    }

    /// `R`: Replace mode, saving the state for undo, when Insert mode is allowed.
    fn key_replace_mode(&mut self)
        requires
            old(self).inv(),
            old(self).visual_anchor is None,
        ensures
            final(self).inv(),
            final(self).config == old(self).config,
            !old(self).config.insert_allowed ==> *final(self) == *old(self),
            old(self).config.insert_allowed ==> {
                &&& final(self).mode == VimMode::Replace
                &&& final(self).is_recording
                &&& final(self).text() == old(self).text()
                &&& final(self).cursor_row == old(self).cursor_row && final(self).cursor_col == old(self).cursor_col
                &&& final(self).history_saved(old(self))
            },
    {
        if self.config.insert_allowed {
            self.pending_count = None;
            self.save_undo();
            self.start_recording();
            self.mode = VimMode::Replace;
        }
    }

    /// `x` with the pending count.
    #[verifier::rlimit(40)]
    fn key_x(&mut self)
        requires
            old(self).inv(),
            old(self).visual_anchor is None,
        ensures
            final(self).inv(),
            final(self).config == old(self).config,
            old(self).pending_count is None ==> final(self).text() == x_text(*old(self)),
            x_done(*old(self), *final(self)),
    {
        let n = self.take_count();
        self.key_remove_chars(n);
    }

    /// `X` with the pending count (the count stays pending at the first column).
    fn key_big_x(&mut self)
        requires
            old(self).inv(),
            old(self).visual_anchor is None,
        ensures
            final(self).inv(),
            final(self).config == old(self).config,
            final(self).text() == big_x_text(*old(self)),
    {
        if self.cursor_col > 0 {
            let n = self.take_count();
            self.key_remove_before(n);
        }
    }

    /// The Delete key with the pending count.
    fn key_del(&mut self)
        requires
            old(self).inv(),
            old(self).visual_anchor is None,
        ensures
            final(self).inv(),
            final(self).config == old(self).config,
            final(self).cursor_row == old(self).cursor_row,
            final(self).text() == old(self).text().update(
                old(self).cursor_row as int,
                super::keys::delete_times(old(self).cur_line(), old(self).cursor_col as int, old(self).mode,
                    count_or_one(*old(self))).0,
            ),
            final(self).cursor_col == super::keys::delete_times(old(self).cur_line(), old(self).cursor_col as int,
                old(self).mode, count_or_one(*old(self))).1,
    {
        let n = self.take_count();
        self.key_delete_chars(n);
    }

    /// `~` with the pending count.
    fn key_tilde(&mut self)
        requires
            old(self).inv(),
            old(self).visual_anchor is None,
        ensures
            final(self).inv(),
            final(self).config == old(self).config,
            final(self).text() == tilde_text(*old(self)),
    {
        let n = self.take_count();
        self.key_toggle_case(n);
    }

    /// `J` with the pending count.
    fn key_big_j(&mut self)
        requires
            old(self).inv(),
            old(self).visual_anchor is None,
        ensures
            final(self).inv(),
            final(self).config == old(self).config,
            final(self).text() == joined_text(*old(self)),
    {
        let n = self.take_count();
        self.key_join(n);
    }

    /// Repeats the last `f`/`F`/`t`/`T` (`;`), or the same the other way (`,`).
    fn key_repeat_find(&mut self, reverse: bool)
        requires
            old(self).inv(),
        ensures
            final(self).inv(),
            final(self).config == old(self).config,
            final(self).text() == old(self).text(),
            final(self).cursor_row == old(self).cursor_row,
            final(self).cursor_col == repeat_find_col(*old(self), reverse),
    {
        match self.last_find {
            Some((dir, before, ch)) => {
                let forward = match dir {
                    FindDirection::Forward => !reverse,
                    FindDirection::Backward => reverse,
                };
                if forward {
                    self.find_char_forward(ch, before);
                } else {
                    self.find_char_backward(ch, before);
                }
            },
            None => {},
        }
    }

    /// Starts waiting for the character of `f`/`F`/`t`/`T`.
    fn key_find(&mut self, dir: FindDirection, before: bool)
        requires
            old(self).inv(),
        ensures
            final(self).inv(),
            final(self).config == old(self).config,
            *final(self) == (VimEditor { pending_count: None, pending_find: Some((dir, before)), ..*old(self) }),
    {
        self.pending_count = None;
        self.pending_find = Some((dir, before));
    }

    /// `/` or `?`: starts typing a search.
    fn key_search(&mut self, forward: bool)
        requires
            old(self).inv(),
        ensures
            final(self).inv(),
            final(self).config == old(self).config,
            final(self).text() == old(self).text(),
            final(self).search.active,
            final(self).search.forward == forward,
            final(self).search.input_buffer@.len() == 0,
            final(self).search.pattern == old(self).search.pattern,
            final(self).pending_count is None,
    {
        self.pending_count = None;
        self.start_search(forward);
    }

    /// `v`, `V` or `Ctrl-v`: Visual mode.
    fn key_visual(&mut self, kind: VisualKind)
        requires
            old(self).inv(),
            old(self).visual_anchor is None,
        ensures
            final(self).inv(),
            final(self).config == old(self).config,
            entered_visual(*old(self), *final(self), kind),
    {
        self.pending_count = None;
        self.enter_visual(kind);
    }

    /// `:`: starts typing a command.
    fn key_colon(&mut self)
        requires
            old(self).inv(),
        ensures
            final(self).inv(),
            final(self).config == old(self).config,
            final(self).command_active,
            final(self).command_buffer@.len() == 0,
            final(self).text() == old(self).text(),
    {
        self.command_active = true;
        self.command_buffer = String::new();
    }

    /// Esc in Normal mode: every pending prefix and the search highlight are dropped.
    pub(crate) fn key_escape(&mut self)
        requires
            old(self).inv(),
        ensures
            final(self).inv(),
            final(self).config == old(self).config,
            final(self).pending_count is None,
            final(self).pending_operator is None,
            final(self).search.pattern@.len() == 0,
    {
        self.pending_count = None;
        self.pending_operator = None;
        self.pending_g = false;
        self.pending_z = false;
        self.pending_find = None;
        self.pending_replace = false;
        self.pending_text_object = None;
        self.pending_mark = false;
        self.pending_goto_mark = None;
        self.pending_bracket = None;
        self.pending_macro_record = false;
        self.pending_macro_play = false;
        self.search.pattern = String::new();
    }

    /// The commands of Normal mode without a pending prefix, for the keys it handles (other
    /// than `K`, `Ctrl-S`, space and Esc).
    pub(crate) fn normal_command(&mut self, key: Key)
        requires
            old(self).inv(),
            old(self).visual_anchor is None,
        ensures
            final(self).inv(),
            final(self).config == old(self).config,
            normal_key_done(*old(self), *final(self), key),
            plain(key, 'u') ==> final(self).text() == undo_text(*old(self)),
            any_char(key, ':') ==> final(self).command_active && final(self).command_buffer@.len() == 0
                && final(self).text() == old(self).text(),
            any_char(key, 'i') ==> final(self).text() == old(self).text() && if old(self).config.insert_allowed {
                final(self).mode == VimMode::Insert
            } else {
                final(self).mode == old(self).mode
            },
            any_char(key, 'p') ==> final(self).text() == put_after_text(*old(self)),
            any_char(key, 'P') ==> final(self).text() == put_before_text(*old(self)),
            any_char(key, 'x') && old(self).pending_count is None ==> final(self).text() == x_text(*old(self)),
            plain(key, 'd') ==> *final(self) == (VimEditor { pending_operator: Some(Operator::Delete), ..*old(self) }),
            any_char(key, 'J') ==> final(self).text() == joined_text(*old(self)),
            any_char(key, '~') ==> final(self).text() == tilde_text(*old(self)),
            any_char(key, 'X') ==> final(self).text() == big_x_text(*old(self)),
            any_char(key, 'o') ==> if old(self).config.insert_allowed {
                final(self).text() == opened_text(*old(self), true) && final(self).mode == VimMode::Insert
            } else {
                final(self).text() == old(self).text()
            },
            any_char(key, 'O') ==> if old(self).config.insert_allowed {
                final(self).text() == opened_text(*old(self), false) && final(self).mode == VimMode::Insert
            } else {
                final(self).text() == old(self).text()
            },
            simple_movement(key) ==> moved_to(*old(self), *final(self), key) && final(self).text() == old(self).text()
                && final(self).mode == old(self).mode,
            any_char(key, 'a') ==> entered_insert(*old(self), *final(self),
                min_int(old(self).cursor_col + 1, old(self).cur_len() as int)),
            any_char(key, 'A') ==> entered_insert(*old(self), *final(self), old(self).cur_len() as int),
            any_char(key, 'I') ==> entered_insert(*old(self), *final(self), leading_ws(old(self).cur_line()) as int),
            plain(key, 'v') ==> entered_visual(*old(self), *final(self), VisualKind::Char),
            with_ctrl(key, 'v') ==> entered_visual(*old(self), *final(self), VisualKind::Block),
            any_char(key, 'V') ==> entered_visual(*old(self), *final(self), VisualKind::Line),
    {
        self.other_command(key);
    }

    /// The commands of [`Self::normal_command`] other than `i`, `:` and `u`.
    #[verifier::spinoff_prover]
    #[verifier::rlimit(100)]
    fn other_command(&mut self, key: Key)
        requires
            old(self).inv(),
            old(self).visual_anchor is None,
        ensures
            final(self).inv(),
            final(self).config == old(self).config,
            movement_key(key) ==> movement_done(*old(self), *final(self), key),
            !movement_key(key) && scroll_key(key) ==> scrolled(*old(self), *final(self), key),
            !movement_key(key) && !scroll_key(key) ==> normal_command_done(*old(self), *final(self), key),
    {
        if movement_key_exec(key) {
            self.movement(key);
            return;
        }
        if scroll_key_exec(key) {
            self.scrolling(key);
            return;
        }
        match key.code {
            KeyCode::Char('g') | KeyCode::Char('H') | KeyCode::Char('M') | KeyCode::Char('L') |
                KeyCode::Char('i') => self.command_keys_one(key),
            KeyCode::Char('a') | KeyCode::Char('I') | KeyCode::Char('A') | KeyCode::Char('o') |
                KeyCode::Char('O') => self.command_keys_two(key),
            KeyCode::Char('d') | KeyCode::Char('y') | KeyCode::Char('c') | KeyCode::Char('>') |
                KeyCode::Char('<') => self.command_keys_three(key),
            KeyCode::Char('x') | KeyCode::Char('X') | KeyCode::Char('D') | KeyCode::Char('C') |
                KeyCode::Char('Y') => self.command_keys_four(key),
            KeyCode::Char('S') | KeyCode::Char('J') | KeyCode::Char('%') | KeyCode::Char('u') |
                KeyCode::Char('r') => self.command_keys_five(key),
            KeyCode::Char('R') | KeyCode::Char('"') | KeyCode::Char('p') | KeyCode::Char('P') |
                KeyCode::Char('~') => self.command_keys_six(key),
            KeyCode::Char('f') | KeyCode::Char('F') | KeyCode::Char('t') | KeyCode::Char('T') |
                KeyCode::Char(';') => self.command_keys_seven(key),
            KeyCode::Char(',') | KeyCode::Char('s') | KeyCode::Char('/') | KeyCode::Char('?') |
                KeyCode::Char('n') => self.command_keys_eight(key),
            KeyCode::Char('N') | KeyCode::Char('*') | KeyCode::Char('#') | KeyCode::Char('v') |
                KeyCode::Char('V') => self.command_keys_nine(key),
            KeyCode::Char('.') | KeyCode::Char('m') | KeyCode::Char('\'') | KeyCode::Char('`') |
                KeyCode::Char(']') => self.command_keys_ten(key),
            KeyCode::Char('[') | KeyCode::Char('q') | KeyCode::Char('@') | KeyCode::Char('z') |
                KeyCode::Char(':') => self.command_keys_eleven(key),
            KeyCode::Delete => self.command_keys_twelve(key),
            _ => {},
        }
    }

    /// The Normal-mode commands `g`, `H`, `M`, `L`, `i`.
    #[verifier::spinoff_prover]
    #[verifier::rlimit(40)]
    fn command_keys_one(&mut self, key: Key)
        requires
            old(self).inv(),
            old(self).visual_anchor is None,
            key.code == KeyCode::Char('g') || key.code == KeyCode::Char('H') ||
                key.code == KeyCode::Char('M') || key.code == KeyCode::Char('L') ||
                key.code == KeyCode::Char('i'),
        ensures
            final(self).inv(),
            final(self).config == old(self).config,
            command_done_one(*old(self), *final(self), key),
    {
        match key.code {
            KeyCode::Char('g') => self.pending_g = true,
            KeyCode::Char('H') => self.key_screen_top(),
            KeyCode::Char('M') => self.key_screen_middle(),
            KeyCode::Char('L') => self.key_screen_bottom(),
            KeyCode::Char('i') => self.key_insert(),
            _ => {},
        }
    }

    /// The Normal-mode commands `a`, `I`, `A`, `o`, `O`.
    #[verifier::spinoff_prover]
    #[verifier::rlimit(40)]
    fn command_keys_two(&mut self, key: Key)
        requires
            old(self).inv(),
            old(self).visual_anchor is None,
            key.code == KeyCode::Char('a') || key.code == KeyCode::Char('I') ||
                key.code == KeyCode::Char('A') || key.code == KeyCode::Char('o') ||
                key.code == KeyCode::Char('O'),
        ensures
            final(self).inv(),
            final(self).config == old(self).config,
            command_done_two(*old(self), *final(self), key),
    {
        match key.code {
            KeyCode::Char('a') => self.key_append(),
            KeyCode::Char('I') => self.key_insert_line_start(),
            KeyCode::Char('A') => self.key_append_line_end(),
            KeyCode::Char('o') => self.key_open_line(true),
            KeyCode::Char('O') => self.key_open_line(false),
            _ => {},
        }
    }

    /// The Normal-mode commands `d`, `y`, `c`, `>`, `<`.
    #[verifier::spinoff_prover]
    #[verifier::rlimit(40)]
    fn command_keys_three(&mut self, key: Key)
        requires
            old(self).inv(),
            old(self).visual_anchor is None,
            key.code == KeyCode::Char('d') || key.code == KeyCode::Char('y') ||
                key.code == KeyCode::Char('c') || key.code == KeyCode::Char('>') ||
                key.code == KeyCode::Char('<'),
        ensures
            final(self).inv(),
            final(self).config == old(self).config,
            command_done_three(*old(self), *final(self), key),
    {
        match key.code {
            KeyCode::Char('d') => self.pending_operator = Some(Operator::Delete),
            KeyCode::Char('y') => self.pending_operator = Some(Operator::Yank),
            KeyCode::Char('c') => {
                self.pending_operator = Some(if self.config.insert_allowed { Operator::Change } else { Operator::Delete });
            },
            KeyCode::Char('>') => self.pending_operator = Some(Operator::Indent),
            KeyCode::Char('<') => self.pending_operator = Some(Operator::Dedent),
            _ => {},
        }
    }

    /// The Normal-mode commands `x`, `X`, `D`, `C`, `Y`.
    #[verifier::spinoff_prover]
    #[verifier::rlimit(100)]
    fn command_keys_four(&mut self, key: Key)
        requires
            old(self).inv(),
            old(self).visual_anchor is None,
            key.code == KeyCode::Char('x') || key.code == KeyCode::Char('X') ||
                key.code == KeyCode::Char('D') || key.code == KeyCode::Char('C') ||
                key.code == KeyCode::Char('Y'),
        ensures
            final(self).inv(),
            final(self).config == old(self).config,
            command_done_four(*old(self), *final(self), key),
    {
        match key.code {
            KeyCode::Char('x') => self.key_x(),
            KeyCode::Char('X') => self.key_big_x(),
            KeyCode::Char('D') => {
                self.pending_count = None;
                self.run_operator(Operator::Delete, Motion::LineEnd, 1);
            },
            KeyCode::Char('C') => self.key_change_to_end(),
            KeyCode::Char('Y') => {
                self.pending_count = None;
                self.run_operator(Operator::Yank, Motion::Line, 1);
            },
            _ => {},
        }
    }

    /// The Normal-mode commands `S`, `J`, `%`, `u`, `r`.
    #[verifier::spinoff_prover]
    #[verifier::rlimit(40)]
    fn command_keys_five(&mut self, key: Key)
        requires
            old(self).inv(),
            old(self).visual_anchor is None,
            key.code == KeyCode::Char('S') || key.code == KeyCode::Char('J') ||
                key.code == KeyCode::Char('%') || key.code == KeyCode::Char('u') ||
                key.code == KeyCode::Char('r'),
        ensures
            final(self).inv(),
            final(self).config == old(self).config,
            command_done_five(*old(self), *final(self), key),
    {
        let ctrl = key.ctrl;
        match key.code {
            KeyCode::Char('S') => {
                if !ctrl {
                    self.key_substitute_line();
                }
            },
            KeyCode::Char('J') => self.key_big_j(),
            KeyCode::Char('%') => self.key_percent(),
            KeyCode::Char('u') => self.key_undo(),
            KeyCode::Char('r') => {
                if ctrl {
                    self.key_redo();
                } else {
                    self.pending_replace = true;
                }
            },
            _ => {},
        }
    }

    /// The Normal-mode commands `R`, `"`, `p`, `P`, `~`.
    #[verifier::spinoff_prover]
    #[verifier::rlimit(40)]
    fn command_keys_six(&mut self, key: Key)
        requires
            old(self).inv(),
            old(self).visual_anchor is None,
            key.code == KeyCode::Char('R') || key.code == KeyCode::Char('"') ||
                key.code == KeyCode::Char('p') || key.code == KeyCode::Char('P') ||
                key.code == KeyCode::Char('~'),
        ensures
            final(self).inv(),
            final(self).config == old(self).config,
            command_done_six(*old(self), *final(self), key),
    {
        match key.code {
            KeyCode::Char('R') => self.key_replace_mode(),
            KeyCode::Char('"') => self.pending_register = true,
            KeyCode::Char('p') => self.key_paste_after(),
            KeyCode::Char('P') => self.key_paste_before(),
            KeyCode::Char('~') => self.key_tilde(),
            _ => {},
        }
    }

    /// The Normal-mode commands `f`, `F`, `t`, `T`, `;`.
    #[verifier::spinoff_prover]
    #[verifier::rlimit(40)]
    fn command_keys_seven(&mut self, key: Key)
        requires
            old(self).inv(),
            old(self).visual_anchor is None,
            key.code == KeyCode::Char('f') || key.code == KeyCode::Char('F') ||
                key.code == KeyCode::Char('t') || key.code == KeyCode::Char('T') ||
                key.code == KeyCode::Char(';'),
        ensures
            final(self).inv(),
            final(self).config == old(self).config,
            command_done_seven(*old(self), *final(self), key),
    {
        match key.code {
            KeyCode::Char('f') => self.key_find(FindDirection::Forward, false),
            KeyCode::Char('F') => self.key_find(FindDirection::Backward, false),
            KeyCode::Char('t') => self.key_find(FindDirection::Forward, true),
            KeyCode::Char('T') => self.key_find(FindDirection::Backward, true),
            KeyCode::Char(';') => self.key_repeat_find(false),
            _ => {},
        }
    }

    /// The Normal-mode commands `,`, `s`, `/`, `?`, `n`.
    #[verifier::spinoff_prover]
    #[verifier::rlimit(40)]
    fn command_keys_eight(&mut self, key: Key)
        requires
            old(self).inv(),
            old(self).visual_anchor is None,
            key.code == KeyCode::Char(',') || key.code == KeyCode::Char('s') ||
                key.code == KeyCode::Char('/') || key.code == KeyCode::Char('?') ||
                key.code == KeyCode::Char('n'),
        ensures
            final(self).inv(),
            final(self).config == old(self).config,
            command_done_eight(*old(self), *final(self), key),
    {
        match key.code {
            KeyCode::Char(',') => self.key_repeat_find(true),
            KeyCode::Char('s') => self.key_substitute_char(),
            KeyCode::Char('/') => self.key_search(true),
            KeyCode::Char('?') => self.key_search(false),
            KeyCode::Char('n') => self.jump_to_next_match(),
            _ => {},
        }
    }

    /// The Normal-mode commands `N`, `*`, `#`, `v`, `V`.
    #[verifier::spinoff_prover]
    #[verifier::rlimit(40)]
    fn command_keys_nine(&mut self, key: Key)
        requires
            old(self).inv(),
            old(self).visual_anchor is None,
            key.code == KeyCode::Char('N') || key.code == KeyCode::Char('*') ||
                key.code == KeyCode::Char('#') || key.code == KeyCode::Char('v') ||
                key.code == KeyCode::Char('V'),
        ensures
            final(self).inv(),
            final(self).config == old(self).config,
            command_done_nine(*old(self), *final(self), key),
    {
        let ctrl = key.ctrl;
        match key.code {
            KeyCode::Char('N') => self.jump_to_prev_match(),
            KeyCode::Char('*') => self.key_search_word(true),
            KeyCode::Char('#') => self.key_search_word(false),
            KeyCode::Char('v') => self.key_visual(if ctrl { VisualKind::Block } else { VisualKind::Char }),
            KeyCode::Char('V') => self.key_visual(VisualKind::Line),
            _ => {},
        }
    }

    /// The Normal-mode commands `.`, `m`, `'`, ```, `]`.
    #[verifier::spinoff_prover]
    #[verifier::rlimit(40)]
    fn command_keys_ten(&mut self, key: Key)
        requires
            old(self).inv(),
            old(self).visual_anchor is None,
            key.code == KeyCode::Char('.') || key.code == KeyCode::Char('m') ||
                key.code == KeyCode::Char('\'') || key.code == KeyCode::Char('`') ||
                key.code == KeyCode::Char(']'),
        ensures
            final(self).inv(),
            final(self).config == old(self).config,
            command_done_ten(*old(self), *final(self), key),
    {
        match key.code {
            KeyCode::Char('.') => self.repeat_last_edit(),
            KeyCode::Char('m') => self.pending_mark = true,
            KeyCode::Char('\'') => self.pending_goto_mark = Some(false),
            KeyCode::Char('`') => self.pending_goto_mark = Some(true),
            KeyCode::Char(']') => self.pending_bracket = Some(']'),
            _ => {},
        }
    }

    /// The Normal-mode commands `[`, `q`, `@`, `z`, `:`.
    #[verifier::spinoff_prover]
    #[verifier::rlimit(40)]
    fn command_keys_eleven(&mut self, key: Key)
        requires
            old(self).inv(),
            old(self).visual_anchor is None,
            key.code == KeyCode::Char('[') || key.code == KeyCode::Char('q') ||
                key.code == KeyCode::Char('@') || key.code == KeyCode::Char('z') ||
                key.code == KeyCode::Char(':'),
        ensures
            final(self).inv(),
            final(self).config == old(self).config,
            command_done_eleven(*old(self), *final(self), key),
    {
        match key.code {
            KeyCode::Char('[') => self.pending_bracket = Some('['),
            KeyCode::Char('q') => self.key_macro_record(),
            KeyCode::Char('@') => self.pending_macro_play = true,
            KeyCode::Char('z') => self.pending_z = true,
            KeyCode::Char(':') => self.key_colon(),
            _ => {},
        }
    }

    /// The Normal-mode commands Delete.
    #[verifier::spinoff_prover]
    #[verifier::rlimit(40)]
    fn command_keys_twelve(&mut self, key: Key)
        requires
            old(self).inv(),
            old(self).visual_anchor is None,
            key.code == KeyCode::Delete,
        ensures
            final(self).inv(),
            final(self).config == old(self).config,
            command_done_twelve(*old(self), *final(self), key),
    {
        match key.code {
            KeyCode::Delete => self.key_del(),
            _ => {},
        }
    }



}

/// Executable form of [`movement_key`].
pub(crate) fn movement_key_exec(key: Key) -> (r: bool)
    ensures
        r == movement_key(key),
{
    let ctrl = key.ctrl;
    match key.code {
        KeyCode::Char('h') | KeyCode::Left | KeyCode::Char('l') | KeyCode::Right | KeyCode::Char('j') | KeyCode::Down
        | KeyCode::Char('k') | KeyCode::Up => !ctrl,
        KeyCode::Char('w') | KeyCode::Char('W') | KeyCode::Char('E') | KeyCode::Char('B') => true,
        KeyCode::Char('e') | KeyCode::Char('b') => !ctrl,
        KeyCode::Char('0') | KeyCode::Char('^') | KeyCode::Char('$') | KeyCode::Char('G') => true,
        KeyCode::Home | KeyCode::End => true,
        _ => false,
    }
}

/// Executable form of [`scroll_key`].
pub(crate) fn scroll_key_exec(key: Key) -> (r: bool)
    ensures
        r == scroll_key(key),
{
    match key.code {
        KeyCode::Char('d') | KeyCode::Char('u') | KeyCode::Char('f') | KeyCode::Char('b') | KeyCode::Char('e')
        | KeyCode::Char('y') => key.ctrl,
        _ => false,
    }
}


/// The motion of a find key typed after an operator.
pub open spec fn find_motion_of(dir: FindDirection, before: bool, c: char) -> Motion {
    match (dir, before) {
        (FindDirection::Forward, false) => Motion::FindCharForward(c),
        (FindDirection::Forward, true) => Motion::FindCharBefore(c),
        (FindDirection::Backward, false) => Motion::FindCharBackward(c),
        (FindDirection::Backward, true) => Motion::FindCharAfter(c),
    }
}

/// Executable form of [`find_motion_of`].
fn find_motion(dir: FindDirection, before: bool, c: char) -> (r: Motion)
    ensures
        r == find_motion_of(dir, before, c),
{
    match (dir, before) {
        (FindDirection::Forward, false) => Motion::FindCharForward(c),
        (FindDirection::Forward, true) => Motion::FindCharBefore(c),
        (FindDirection::Backward, false) => Motion::FindCharBackward(c),
        (FindDirection::Backward, true) => Motion::FindCharAfter(c),
    }
}

/// The text object a key names after `i` (`around` false) or `a` (`around` true).
fn text_object(key: Key, around: bool) -> (r: Option<Motion>)
    ensures
        r == text_object_motion(key, around),
{
    match key.code {
        KeyCode::Char('w') => Some(if around { Motion::AroundWord } else { Motion::InnerWord }),
        KeyCode::Char('"') => Some(if around { Motion::AroundQuote('"') } else { Motion::InnerQuote('"') }),
        KeyCode::Char('\'') => Some(if around { Motion::AroundQuote('\'') } else { Motion::InnerQuote('\'') }),
        KeyCode::Char('`') => Some(if around { Motion::AroundQuote('`') } else { Motion::InnerQuote('`') }),
        KeyCode::Char('(') | KeyCode::Char(')') | KeyCode::Char('b') => Some(
            if around { Motion::AroundParen('(', ')') } else { Motion::InnerParen('(', ')') },
        ),
        KeyCode::Char('{') | KeyCode::Char('}') | KeyCode::Char('B') => Some(
            if around { Motion::AroundParen('{', '}') } else { Motion::InnerParen('{', '}') },
        ),
        KeyCode::Char('[') | KeyCode::Char(']') => Some(
            if around { Motion::AroundParen('[', ']') } else { Motion::InnerParen('[', ']') },
        ),
        KeyCode::Char('<') | KeyCode::Char('>') => Some(
            if around { Motion::AroundParen('<', '>') } else { Motion::InnerParen('<', '>') },
        ),
        _ => None,
    }
}

impl VimEditor {
    /// The character after `f`/`F`/`t`/`T`: moves to it, or with a pending operator
    /// applies the operator up to it; it becomes the find that `;` and `,` repeat.
    pub(crate) fn pending_find_key(&mut self, key: Key, dir: FindDirection, before: bool)
        requires
            old(self).inv(),
            old(self).visual_anchor is None,
        ensures
            final(self).inv(),
            final(self).config == old(self).config,
            find_done(*old(self), *final(self), key, dir, before),
    {
        match key.code {
            KeyCode::Char(c) => {
                match self.pending_operator {
                    Some(op) => {
                        self.pending_operator = None;
                        let count = self.take_count();
                        self.run_operator(op, find_motion(dir, before, c), count);
                    },
                    None => match dir {
                        FindDirection::Forward => self.find_char_forward(c, before),
                        FindDirection::Backward => self.find_char_backward(c, before),
                    },
                }
                self.last_find = Some((dir, before, c));
            },
            _ => {},
        }
    }

    /// The character after `r`: replaces the character under the cursor (`count` times);
    /// another key drops the count.
    pub(crate) fn pending_replace_key(&mut self, key: Key)
        requires
            old(self).inv(),
            !old(self).pending_replace,
            old(self).visual_anchor is None,
        ensures
            final(self).inv(),
            final(self).config == old(self).config,
            replace_done(*old(self), *final(self), key),
    {
        match key.code {
            KeyCode::Char(c) => {
                let count = self.take_count();
                self.key_replace_chars(c, count);
            },
            _ => {
                self.pending_count = None;
            },
        }
    }

    /// The key after `z`: `zz`, `zt`, `zb` scroll the cursor line to the middle, the top or
    /// the bottom of the view; another key drops the count.
    pub(crate) fn handle_z_prefix(&mut self, key: Key)
        requires
            old(self).inv(),
            !old(self).pending_z,
        ensures
            z_done(*old(self), *final(self), key),
            final(self).inv(),
            final(self).config == old(self).config,
            final(self).text() == old(self).text(),
            final(self).cursor_row == old(self).cursor_row && final(self).cursor_col == old(self).cursor_col,
            any_char(key, 'z') ==> final(self).scroll_offset == sat_sub(old(self).cursor_row as int,
                old(self).visible_height as int / 2),
            any_char(key, 't') ==> final(self).scroll_offset == old(self).cursor_row,
            any_char(key, 'b') ==> final(self).scroll_offset == sat_sub(old(self).cursor_row + 1,
                old(self).visible_height as int) as usize,
    {
        match key.code {
            KeyCode::Char('z') => self.scroll_center(),
            KeyCode::Char('t') => self.scroll_top(),
            KeyCode::Char('b') => self.scroll_bottom(),
            _ => {
                self.pending_count = None;
            },
        }
    }

    /// The key after `g`: `gg` to line `count` (the first without a count), `gd` asks for the
    /// definition, `gc` waits for the second `c`, `gU`/`gu`/`g~` wait for a motion.
    pub(crate) fn handle_g_prefix(&mut self, key: Key) -> (r: EditorAction)
        requires
            old(self).inv(),
            !old(self).pending_g,
        ensures
            final(self).inv(),
            final(self).config == old(self).config,
            r == if any_char(key, 'd') { EditorAction::GoToDefinition } else { EditorAction::Handled },
            g_done(*old(self), *final(self), key),
    {
        match key.code {
            KeyCode::Char('g') => {
                self.key_gg();
                EditorAction::Handled
            },
            KeyCode::Char('d') => {
                self.pending_count = None;
                EditorAction::GoToDefinition
            },
            KeyCode::Char('c') => {
                self.pending_gc = true;
                EditorAction::Handled
            },
            KeyCode::Char('U') => {
                self.pending_operator = Some(Operator::Uppercase);
                EditorAction::Handled
            },
            KeyCode::Char('u') => {
                self.pending_operator = Some(Operator::Lowercase);
                EditorAction::Handled
            },
            KeyCode::Char('~') => {
                self.pending_operator = Some(Operator::ToggleCase);
                EditorAction::Handled
            },
            _ => {
                self.pending_count = None;
                EditorAction::Handled
            },
        }
    }

    /// The key after `i` or `a` with a pending operator: the operator applies to the text
    /// object it names.
    pub(crate) fn handle_text_object_key(&mut self, key: Key, around: bool)
        requires
            old(self).inv(),
            old(self).visual_anchor is None,
        ensures
            final(self).inv(),
            final(self).config == old(self).config,
            old(self).pending_operator matches Some(op) ==> match text_object_motion(key, around) {
                Some(m) => final(self).text() == operated_lines(*old(self), op, m)
                    && operated_register(*old(self), *final(self), op, m),
                None => final(self).text() == old(self).text(),
            },
    {
        let op = match self.pending_operator {
            Some(op) => op,
            None => return,
        };
        self.pending_operator = None;
        let count = self.take_count();
        match text_object(key, around) {
            Some(m) => self.run_operator(op, m, count),
            None => {},
        }
    }

    /// The key after an operator: a doubled operator (`dd`, `yy`, `cc`, `>>`, `<<`) works on
    /// lines, a motion gives the range; `f`/`F`/`t`/`T`, `i` and `a` wait for one more key.
    #[verifier::spinoff_prover]
    #[verifier::rlimit(80)]
    pub(crate) fn handle_operator_motion(&mut self, key: Key)
        requires
            old(self).inv(),
            old(self).visual_anchor is None,
        ensures
            final(self).inv(),
            final(self).config == old(self).config,
            old(self).pending_operator == Some(Operator::Delete) && any_char(key, 'd') ==> final(self).text()
                == lines_deleted(*old(self)),
            old(self).pending_operator matches Some(op) && operator_motion(op, key) is Some ==> final(self).text()
                == operator_text(*old(self), key),
            operator_register(*old(self), *final(self), key),
    {
        let op = match self.pending_operator {
            Some(op) => op,
            None => return,
        };
        self.pending_operator = None;
        let count = self.take_count();
        let motion: Option<Motion> = match key.code {
            KeyCode::Char('d') if op == Operator::Delete => Some(Motion::Line),
            KeyCode::Char('y') if op == Operator::Yank => Some(Motion::Line),
            KeyCode::Char('c') if op == Operator::Change => Some(Motion::Line),
            KeyCode::Char('>') if op == Operator::Indent => Some(Motion::Line),
            KeyCode::Char('<') if op == Operator::Dedent => Some(Motion::Line),
            KeyCode::Char('h') | KeyCode::Left => Some(Motion::Left),
            KeyCode::Char('l') | KeyCode::Right => Some(Motion::Right),
            KeyCode::Char('j') | KeyCode::Down => Some(Motion::Down),
            KeyCode::Char('k') | KeyCode::Up => Some(Motion::Up),
            KeyCode::Char('w') => Some(Motion::WordForward),
            KeyCode::Char('W') => Some(Motion::BigWordForward),
            KeyCode::Char('e') => Some(Motion::WordEnd),
            KeyCode::Char('E') => Some(Motion::BigWordEnd),
            KeyCode::Char('b') => Some(Motion::WordBack),
            KeyCode::Char('B') => Some(Motion::BigWordBack),
            KeyCode::Char('0') | KeyCode::Home => Some(Motion::LineStart),
            KeyCode::Char('$') | KeyCode::End => Some(Motion::LineEnd),
            KeyCode::Char('^') => Some(Motion::FirstNonBlank),
            KeyCode::Char('G') => Some(Motion::ToBottom),
            KeyCode::Char('g') => {
                self.pending_g = false;
                Some(Motion::ToTop)
            },
            KeyCode::Char('f') | KeyCode::Char('F') | KeyCode::Char('t') | KeyCode::Char('T') => {
                let forward = key.code == KeyCode::Char('f') || key.code == KeyCode::Char('t');
                let before = key.code == KeyCode::Char('t') || key.code == KeyCode::Char('T');
                self.pending_operator = Some(op);
                self.pending_find = Some((if forward { FindDirection::Forward } else { FindDirection::Backward }, before));
                None
            },
            KeyCode::Char('i') => {
                self.pending_operator = Some(op);
                self.pending_text_object = Some(false);
                None
            },
            KeyCode::Char('a') => {
                self.pending_operator = Some(op);
                self.pending_text_object = Some(true);
                None
            },
            KeyCode::Char('%') => Some(Motion::MatchBracket),
            _ => None,
        };
        match motion {
            Some(m) => self.run_operator(op, m, count),
            None => {},
        }
    }

    /// The name after `m`: sets the mark at the cursor.
    pub(crate) fn pending_mark_key(&mut self, key: Key)
        requires
            old(self).inv(),
            !old(self).pending_mark,
        ensures
            final(self).inv(),
            final(self).config == old(self).config,
            final(self).text() == old(self).text(),
            mark_set(*old(self), *final(self), key),
    {
        match key.code {
            KeyCode::Char(c) => self.set_mark(c),
            _ => {},
        }
    }

    /// The name after `'` or `` ` ``: jumps to the mark.
    pub(crate) fn pending_goto_mark_key(&mut self, key: Key, exact: bool)
        requires
            old(self).inv(),
        ensures
            final(self).inv(),
            final(self).config == old(self).config,
            final(self).text() == old(self).text(),
            key.code matches KeyCode::Char(c) ==> match old(self).mark_destination(c, exact) {
                Some((r, col)) => final(self).cursor_row == r && final(self).cursor_col == col,
                None => *final(self) == *old(self),
            },
    {
        match key.code {
            KeyCode::Char(c) => self.goto_mark(c, exact),
            _ => {},
        }
    }

    /// The name after `q`: starts recording the macro.
    pub(crate) fn pending_record_key(&mut self, key: Key)
        requires
            old(self).inv(),
        ensures
            final(self).inv(),
            final(self).config == old(self).config,
            final(self).text() == old(self).text(),
            key.code matches KeyCode::Char(c) ==> ('a' <= c && c <= 'z' ==> final(self).recording_macro == Some(c)
                && final(self).macro_buffer@.len() == 0),
            !(key.code matches KeyCode::Char(c) && 'a' <= c && c <= 'z') ==> *final(self) == *old(self),
    {
        match key.code {
            KeyCode::Char(c) => {
                if 'a' <= c && c <= 'z' {
                    self.recording_macro = Some(c);
                    self.macro_buffer = Vec::new();
                }
            },
            _ => {},
        }
    }
}


/// What Visual mode answers to `key` in state `ed`: after `g`, `c` asks to toggle a block
/// comment over the selected rows; everything else is handled.
pub open spec fn visual_action(ed: VimEditor, key: Key) -> EditorAction {
    if ed.pending_g && any_char(key, 'c') && ed.selection() is Some {
        EditorAction::ToggleBlockComment { start_row: ed.selection().unwrap().0.0, end_row: ed.selection().unwrap().1.0 }
    } else {
        EditorAction::Handled
    }
}

/// What Insert and Replace mode answer: `Ctrl-s` saves, everything else is handled.
pub open spec fn insert_action(key: Key) -> EditorAction {
    if with_ctrl(key, 's') {
        EditorAction::Save
    } else {
        EditorAction::Handled
    }
}

impl VimEditor {
    /// The Visual mode keys other than movement, scrolling, counts and pending prefixes:
    /// Esc leaves Visual mode, `y` yanks the selection and leaves it.
    fn visual_command(&mut self, key: Key)
        requires
            old(self).inv(),
            old(self).mode is Visual,
        ensures
            final(self).inv(),
            final(self).config == old(self).config,
            key.code == KeyCode::Esc ==> final(self).mode == VimMode::Normal && final(self).visual_anchor is None
                && final(self).text() == old(self).text(),
            any_char(key, 'y') ==> final(self).mode == VimMode::Normal && final(self).visual_anchor is None
                && final(self).text() == old(self).text() && (old(self).selection() matches Some((s, e))
                ==> final(self).register() == old(self).selected_chars(old(self).visual_kind_spec()->0, s, e)),
            any_char(key, 'd') ==> final(self).mode == VimMode::Normal && final(self).visual_anchor is None
                && (old(self).selection() matches Some((s, e)) ==> {
                    let cut = old(self).visual_cut(old(self).visual_kind_spec()->0, s, e);
                    final(self).text() == cut.text && final(self).register() == cut.taken
                }),
            any_char(key, 'p') || any_char(key, 'P') ==> final(self).mode == VimMode::Normal
                && final(self).text() == visual_pasted_text(*old(self)),
            any_char(key, 'o') || any_char(key, '>') || any_char(key, '<') ==> visual_command_done(*old(self),
                *final(self), key),
    {
        if key.code == KeyCode::Esc {
            self.pending_count = None;
            self.exit_visual();
        } else if key.code == KeyCode::Char('y') {
            self.pending_count = None;
            self.visual_yank();
        } else if key.code == KeyCode::Char('d') {
            self.pending_count = None;
            self.visual_delete();
        } else if key.code == KeyCode::Char('p') || key.code == KeyCode::Char('P') {
            self.pending_count = None;
            self.visual_paste();
        } else {
            self.other_visual_command(key);
        }
    }

    /// The commands of [`Self::visual_command`] other than Esc and `y`.
    #[verifier::spinoff_prover]
    #[verifier::rlimit(40)]
    fn other_visual_command(&mut self, key: Key)
        requires
            old(self).inv(),
            old(self).mode is Visual,
        ensures
            final(self).inv(),
            final(self).config == old(self).config,
            visual_command_done(*old(self), *final(self), key),
    {
        match key.code {
            KeyCode::Char('g') | KeyCode::Char('%') | KeyCode::Char('d') | KeyCode::Char('x') |
                KeyCode::Delete | KeyCode::Char('y') | KeyCode::Char('p') | KeyCode::Char('P') => self.visual_keys_one(key),
            KeyCode::Char('c') | KeyCode::Char('I') | KeyCode::Char('A') | KeyCode::Char('r') |
                KeyCode::Char('>') | KeyCode::Char('<') => self.visual_keys_two(key),
            _ => self.visual_keys_three(key),
        }
    }

    /// The Visual-mode commands `g`, `%`, `d`, `x`, Delete, `y`, `p` and `P`.
    #[verifier::spinoff_prover]
    #[verifier::rlimit(40)]
    fn visual_keys_one(&mut self, key: Key)
        requires
            old(self).inv(),
            old(self).mode is Visual,
            key.code == KeyCode::Char('g') || key.code == KeyCode::Char('%') ||
                key.code == KeyCode::Char('d') || key.code == KeyCode::Char('x') ||
                key.code == KeyCode::Delete || key.code == KeyCode::Char('y') ||
                key.code == KeyCode::Char('p') || key.code == KeyCode::Char('P'),
        ensures
            final(self).inv(),
            final(self).config == old(self).config,
            visual_done_one(*old(self), *final(self), key),
    {
        match key.code {
            KeyCode::Char('g') => self.pending_g = true,
            KeyCode::Char('%') => self.key_percent(),
            KeyCode::Char('d') | KeyCode::Char('x') | KeyCode::Delete => {
                self.pending_count = None;
                self.visual_delete();
            },
            KeyCode::Char('y') => {
                self.pending_count = None;
                self.visual_yank();
            },
            KeyCode::Char('p') | KeyCode::Char('P') => {
                self.pending_count = None;
                self.visual_paste();
            },
            _ => {},
        }
    }

    /// The Visual-mode commands `c`, `I`, `A`, `r`, `>` and `<`.
    #[verifier::spinoff_prover]
    #[verifier::rlimit(100)]
    fn visual_keys_two(&mut self, key: Key)
        requires
            old(self).inv(),
            old(self).mode is Visual,
            key.code == KeyCode::Char('c') || key.code == KeyCode::Char('I') ||
                key.code == KeyCode::Char('A') || key.code == KeyCode::Char('r') ||
                key.code == KeyCode::Char('>') || key.code == KeyCode::Char('<'),
        ensures
            final(self).inv(),
            final(self).config == old(self).config,
            visual_done_two(*old(self), *final(self), key),
    {
        match key.code {
            KeyCode::Char('c') => self.visual_change(),
            KeyCode::Char('I') | KeyCode::Char('A') => self.visual_block_insert(key.code == KeyCode::Char('A')),
            KeyCode::Char('r') => {
                self.pending_count = None;
                if self.mode == VimMode::Visual(VisualKind::Block) {
                    self.pending_replace = true;
                }
            },
            KeyCode::Char('>') => {
                self.pending_count = None;
                self.visual_indent_inv();
            },
            KeyCode::Char('<') => {
                self.pending_count = None;
                self.visual_dedent_inv();
            },
            _ => {},
        }
    }

    /// The other Visual-mode commands: case changes, `o`, `v` and `V`.
    #[verifier::spinoff_prover]
    #[verifier::rlimit(100)]
    fn visual_keys_three(&mut self, key: Key)
        requires
            old(self).inv(),
            old(self).mode is Visual,
            !(key.code == KeyCode::Char('g') || key.code == KeyCode::Char('%') ||
                key.code == KeyCode::Char('d') || key.code == KeyCode::Char('x') ||
                key.code == KeyCode::Delete || key.code == KeyCode::Char('y') ||
                key.code == KeyCode::Char('p') || key.code == KeyCode::Char('P') ||
                key.code == KeyCode::Char('c') || key.code == KeyCode::Char('I') ||
                key.code == KeyCode::Char('A') || key.code == KeyCode::Char('r') ||
                key.code == KeyCode::Char('>') || key.code == KeyCode::Char('<')),
        ensures
            final(self).inv(),
            final(self).config == old(self).config,
            visual_done_three(*old(self), *final(self), key),
    {
        let ctrl = key.ctrl;
        match key.code {
            KeyCode::Char('u') => {
                if !ctrl {
                    self.visual_case_key(CaseChange::Lower);
                }
            },
            KeyCode::Char('U') => self.visual_case_key(CaseChange::Upper),
            KeyCode::Char('~') => self.visual_case_key(CaseChange::Toggle),
            KeyCode::Char('o') => {
                self.pending_count = None;
                self.visual_swap_ends();
            },
            KeyCode::Char('v') => {
                if !ctrl {
                    self.pending_count = None;
                    self.visual_switch(VisualKind::Char);
                }
            },
            KeyCode::Char('V') => {
                self.pending_count = None;
                self.visual_switch(VisualKind::Line);
            },
            _ => {},
        }
    }

    /// `u`, `U` or `~` in Visual mode: the case of the selection changes `how`.
    #[verifier::rlimit(40)]
    fn visual_case_key(&mut self, how: CaseChange)
        requires
            old(self).inv(),
        ensures
            final(self).inv(),
            final(self).config == old(self).config,
            visual_cased(without_count(*old(self)), *final(self), how),
    {
        self.pending_count = None;
        let ghost mid = *self;
        assert(mid == without_count(*old(self)));
        self.visual_change_case(how);
    }

    /// `c` in Visual mode: the selection is cut and Insert mode begins, for a block at its
    /// top left corner (only where Insert mode is allowed).
    fn visual_change(&mut self)
        requires
            old(self).inv(),
            old(self).mode is Visual,
        ensures
            final(self).inv(),
            final(self).config == old(self).config,
            !old(self).config.insert_allowed ==> *final(self) == (VimEditor { pending_count: None, ..*old(self) }),
            old(self).config.insert_allowed ==> final(self).mode == VimMode::Insert && final(self).visual_anchor is None
                && (old(self).selection() matches Some((s, e)) ==> final(self).text() == old(self).visual_cut(
                old(self).visual_kind_spec()->0, s, e).text),
    {
        self.pending_count = None;
        if self.config.insert_allowed {
            self.start_recording();
            let block = self.mode == VimMode::Visual(VisualKind::Block);
            let corner = match self.visual_range() {
                Some((s, e)) => (s.0, if s.1 <= e.1 { s.1 } else { e.1 }),
                None => (self.cursor_row, self.cursor_col),
            };
            self.visual_delete();
            if block {
                self.place_cursor(corner.0, corner.1);
            }
            self.mode = VimMode::Insert;
        }
    }

    /// `I` (or `A` for `append`) of a block selection: Insert mode at the left (right) edge
    /// of its top row; elsewhere only the count is dropped.
    fn visual_block_insert(&mut self, append: bool)
        requires
            old(self).inv(),
            old(self).mode is Visual,
        ensures
            final(self).inv(),
            final(self).config == old(self).config,
            !(old(self).config.insert_allowed && old(self).mode == VimMode::Visual(VisualKind::Block)) ==> *final(self)
                == (VimEditor { pending_count: None, ..*old(self) }),
            old(self).config.insert_allowed && old(self).mode == VimMode::Visual(VisualKind::Block) ==> {
                &&& final(self).mode == VimMode::Insert && final(self).visual_anchor is None
                &&& final(self).text() == old(self).text()
                &&& old(self).selection() matches Some((s, e)) ==> final(self).cursor_clamped_from(s.0, if !append {
                    if s.1 <= e.1 { s.1 } else { e.1 }
                } else {
                    super::visual::block_right(s.1, e.1) as usize
                })
            },
    {
        self.pending_count = None;
        if self.config.insert_allowed && self.mode == VimMode::Visual(VisualKind::Block) {
            self.start_recording();
            let target = match self.visual_range() {
                Some((s, e)) => (s.0, if !append {
                    if s.1 <= e.1 { s.1 } else { e.1 }
                } else {
                    super::visual::block_right_pub(s.1, e.1)
                }),
                None => (self.cursor_row, self.cursor_col),
            };
            self.exit_visual();
            self.mode = VimMode::Insert;
            self.place_cursor(target.0, target.1);
        }
    }

    /// Indent the selection, keeping the invariant.
    fn visual_indent_inv(&mut self)
        requires
            old(self).inv(),
        ensures
            final(self).inv(),
            final(self).config == old(self).config,
            visual_shifted(*old(self), *final(self), true),
    {
        self.visual_indent();
        proof {
            if old(self).selection() is Some {
                super::lemma_history_saved_stacks(*old(self), *self);
            }
        }
    }

    /// Dedent the selection, keeping the invariant.
    fn visual_dedent_inv(&mut self)
        requires
            old(self).inv(),
        ensures
            final(self).inv(),
            final(self).config == old(self).config,
            visual_shifted(*old(self), *final(self), false),
    {
        self.visual_dedent();
        proof {
            if old(self).selection() is Some {
                super::lemma_history_saved_stacks(*old(self), *self);
            }
        }
    }

    /// Replace the selection with the register (`p` in Visual mode): the selection is
    /// deleted, then the register as it was before is put in before the cursor.
    pub fn visual_paste(&mut self)
        requires
            old(self).inv(),
        ensures
            final(self).inv(),
            final(self).config == old(self).config,
            final(self).unnamed_register.content@ == old(self).unnamed_register.content@,
            final(self).unnamed_register.linewise == old(self).unnamed_register.linewise,
            old(self).visual_kind_spec() is Some ==> final(self).mode == VimMode::Normal && final(self).visual_anchor is None,
            old(self).visual_kind_spec() is Some ==> final(self).text() == visual_pasted_text(*old(self)),
    {
        let saved = self.unnamed_register.clone_register();
        self.visual_delete();
        self.unnamed_register = saved;
        let ghost mid = *self;
        self.key_paste_before();
        proof {
            if old(self).visual_kind_spec() is Some {
                assert(mid.register() == old(self).register());
                assert(put_before_text(mid) == put_before_at(mid.text(), mid.cursor_row as int, mid.cursor_col as int,
                    mid.register(), mid.unnamed_register.linewise));
            }
        }
    }

    /// Handles a key in Visual mode.
    /// `gg` in Visual mode: the cursor goes to line `count` (the top without a count) and
    /// the selection stretches to it.
    fn key_gg(&mut self)
        requires
            old(self).inv(),
        ensures
            final(self).inv(),
            final(self).config == old(self).config,
            final(self).text() == old(self).text(),
            final(self).mode == old(self).mode,
            final(self).visual_anchor == old(self).visual_anchor,
            final(self).cursor_clamped_from(gg_target(*old(self)).0, gg_target(*old(self)).1),
            final(self).pending_count is None,
            final(self).pending_g == old(self).pending_g,
            final(self).pending_gc == old(self).pending_gc,
            final(self).pending_operator == old(self).pending_operator,
    {
        let count = self.pending_count;
        self.pending_count = None;
        match count {
            Some(n) => self.move_to_line(n),
            None => self.move_to_top(),
        }
        proof {
            super::lemma_clamp_rows_in(self.text());
        }
    }

    #[verifier::spinoff_prover]
    #[verifier::rlimit(80)]
    pub(crate) fn handle_visual(&mut self, key: Key) -> (r: EditorAction)
        requires
            old(self).inv(),
            old(self).mode is Visual,
        ensures
            final(self).inv(),
            final(self).config == old(self).config,
            r == visual_action(*old(self), key),
            !old(self).pending_g && !old(self).pending_replace ==> {
                &&& key.code == KeyCode::Esc ==> final(self).mode == VimMode::Normal && final(self).visual_anchor is None
                    && final(self).text() == old(self).text()
                &&& plain(key, 'y') ==> final(self).mode == VimMode::Normal && final(self).visual_anchor is None
                    && final(self).text() == old(self).text() && (old(self).selection() matches Some((s, e))
                    ==> final(self).register() == old(self).selected_chars(old(self).visual_kind_spec()->0, s, e))
                &&& plain(key, 'd') ==> final(self).mode == VimMode::Normal && final(self).visual_anchor is None
                    && (old(self).selection() matches Some((s, e)) ==> {
                        let cut = old(self).visual_cut(old(self).visual_kind_spec()->0, s, e);
                        final(self).text() == cut.text && final(self).register() == cut.taken
                    })
                &&& old(self).pending_count is None && simple_movement(key) ==> moved_to(*old(self), *final(self), key)
                    && final(self).text() == old(self).text() && final(self).mode == old(self).mode
                &&& plain(key, 'p') || plain(key, 'P') ==> final(self).mode == VimMode::Normal
                    && final(self).text() == visual_pasted_text(*old(self))
                &&& any_char(key, 'o') ==> final(self).text() == old(self).text() && final(self).mode == old(self).mode
                    && (old(self).visual_anchor matches Some(p)
                    ==> final(self).visual_anchor == Some((old(self).cursor_row, old(self).cursor_col))
                    && final(self).cursor_row == p.0 && final(self).cursor_col == p.1)
                &&& any_char(key, '>') ==> final(self).text() == visual_shift_text(*old(self), true)
                    && final(self).mode == old(self).mode && final(self).visual_anchor == old(self).visual_anchor
                &&& any_char(key, '<') ==> final(self).text() == visual_shift_text(*old(self), false)
                    && final(self).mode == old(self).mode && final(self).visual_anchor == old(self).visual_anchor
            },
            old(self).pending_g && any_char(key, 'g') ==> final(self).text() == old(self).text()
                && final(self).mode == old(self).mode && final(self).visual_anchor == old(self).visual_anchor
                && final(self).cursor_clamped_from(gg_target(*old(self)).0, gg_target(*old(self)).1),
    {
        if self.pending_g {
            self.pending_g = false;
            if key.code == KeyCode::Char('g') {
                self.key_gg();
                return EditorAction::Handled;
            }
            if key.code == KeyCode::Char('c') {
                match self.visual_range() {
                    Some((s, e)) => {
                        self.exit_visual();
                        return EditorAction::ToggleBlockComment { start_row: s.0, end_row: e.0 };
                    },
                    None => {},
                }
            }
            return EditorAction::Handled;
        }
        if self.pending_replace {
            self.pending_replace = false;
            match key.code {
                KeyCode::Char(ch) => self.block_replace(ch),
                _ => {},
            }
            return EditorAction::Handled;
        }
        match key.code {
            KeyCode::Char(c) => {
                if '0' <= c && c <= '9' && (c != '0' || self.pending_count.is_some()) {
                    let d = digit_of_char(c);
                    self.push_count_digit(d);
                    return EditorAction::Handled;
                }
            },
            _ => {},
        }
        if movement_key_exec(key) {
            self.movement(key);
        } else if scroll_key_exec(key) {
            self.scrolling(key);
        } else {
            let ghost before = *self;
            self.visual_command(key);
            proof {
                if any_char(key, '>') {
                    lemma_visual_shift(before, *self, true);
                } else if any_char(key, '<') {
                    lemma_visual_shift(before, *self, false);
                }
            }
        }
        EditorAction::Handled
    }

    /// Handles a key in Insert mode.
    #[verifier::spinoff_prover]
    #[verifier::rlimit(40)]
    pub(crate) fn handle_insert(&mut self, key: Key) -> (r: EditorAction)
        requires
            old(self).inv(),
            old(self).visual_anchor is None,
        ensures
            final(self).inv(),
            final(self).config == old(self).config,
            r == insert_action(key),
            key.code matches KeyCode::Char(c) ==> (!key.ctrl ==> final(self).text() == typed_text(*old(self), c)
                && final(self).cursor_row == old(self).cursor_row
                && final(self).cursor_col == (old(self).insert_col() + 1) as usize),
            key.code matches KeyCode::Char(c) ==> (key.ctrl && c != 's' && c != 'w' && c != 'u' ==> *final(self)
                == *old(self)),
            key.code == KeyCode::Esc ==> final(self).mode == VimMode::Normal && final(self).text() == old(self).text(),
            key.code == KeyCode::Enter && !key.ctrl ==> final(self).text() == entered_text(*old(self)),
            key.code == KeyCode::Backspace ==> final(self).text() == backspace_text(*old(self)),
            key.code == KeyCode::Delete ==> final(self).text() == delete_text(*old(self)),
            key.code == KeyCode::Tab ==> final(self).text() == tabbed_text(*old(self)),
            with_ctrl(key, 's') ==> final(self).mode == VimMode::Normal && final(self).text() == old(self).text(),
            with_ctrl(key, 'w') ==> {
                &&& final(self).text() == word_back_text(*old(self))
                &&& final(self).cursor_row == old(self).cursor_row
                &&& final(self).cursor_col == if old(self).cursor_col > 0 { word_back_col(*old(self)) } else { 0 }
                &&& final(self).history_saved(old(self))
            },
            with_ctrl(key, 'u') ==> {
                &&& final(self).text() == line_start_text(*old(self))
                &&& final(self).cursor_row == old(self).cursor_row
                &&& final(self).cursor_col == 0
                &&& final(self).history_saved(old(self))
            },
            key.code == KeyCode::Home || key.code == KeyCode::End || key.code == KeyCode::Left
                || key.code == KeyCode::Right ==> final(self).text() == old(self).text() && final(self).cursor_row == old(self).cursor_row
                && final(self).cursor_col == insert_moved_col(*old(self), key.code),
            key.code == KeyCode::Up || key.code == KeyCode::Down ==> final(self).text() == old(self).text()
                && vertical_moved(*old(self), *final(self), key.code == KeyCode::Up),
    {
        let ctrl = key.ctrl;
        match key.code {
            KeyCode::Esc => {
                self.insert_escape();
                EditorAction::Handled
            },
            KeyCode::Char('s') if ctrl => {
                self.mode = VimMode::Normal;
                self.stop_recording();
                EditorAction::Save
            },
            KeyCode::Char('w') if ctrl => {
                self.delete_word_back();
                self.record_key(key);
                EditorAction::Handled
            },
            KeyCode::Char('u') if ctrl => {
                self.delete_to_line_start();
                self.record_key(key);
                EditorAction::Handled
            },
            KeyCode::Enter => {
                if !ctrl {
                    self.insert_enter();
                    self.record_key(key);
                }
                EditorAction::Handled
            },
            KeyCode::Backspace => {
                self.insert_backspace();
                self.record_key(key);
                EditorAction::Handled
            },
            KeyCode::Delete => {
                self.insert_delete();
                self.record_key(key);
                EditorAction::Handled
            },
            KeyCode::Home | KeyCode::End | KeyCode::Left | KeyCode::Right | KeyCode::Up | KeyCode::Down => {
                self.insert_move(key.code);
                EditorAction::Handled
            },
            KeyCode::Char(c) => {
                if !ctrl {
                    self.insert_typed(c);
                    self.record_key(key);
                }
                EditorAction::Handled
            },
            KeyCode::Tab => {
                self.insert_tab();
                self.record_key(key);
                EditorAction::Handled
            },
            _ => EditorAction::Handled,
        }
    }

    /// Handles a key in Replace mode.
    pub(crate) fn handle_replace(&mut self, key: Key) -> (r: EditorAction)
        requires
            old(self).inv(),
            old(self).visual_anchor is None,
        ensures
            final(self).inv(),
            final(self).config == old(self).config,
            r == insert_action(key),
            key.code matches KeyCode::Char(c) ==> (!key.ctrl ==> final(self).text() == replaced_text(*old(self), c)
                && final(self).cursor_row == old(self).cursor_row && final(self).cursor_col == old(self).insert_col() + 1),
            key.code matches KeyCode::Char(c) ==> (key.ctrl && c != 's' ==> *final(self) == *old(self)),
            key.code == KeyCode::Esc ==> final(self).mode == VimMode::Normal && final(self).text() == old(self).text(),
            key.code == KeyCode::Home || key.code == KeyCode::End || key.code == KeyCode::Left
                || key.code == KeyCode::Right ==> final(self).text() == old(self).text() && final(self).cursor_row == old(self).cursor_row
                && final(self).cursor_col == insert_moved_col(*old(self), key.code),
            key.code == KeyCode::Up || key.code == KeyCode::Down ==> final(self).text() == old(self).text()
                && vertical_moved(*old(self), *final(self), key.code == KeyCode::Up),
    {
        let ctrl = key.ctrl;
        match key.code {
            KeyCode::Esc => {
                self.insert_escape();
                EditorAction::Handled
            },
            KeyCode::Char('s') if ctrl => {
                self.mode = VimMode::Normal;
                self.stop_recording();
                EditorAction::Save
            },
            KeyCode::Enter => {
                self.insert_enter();
                self.record_key(key);
                EditorAction::Handled
            },
            KeyCode::Backspace => {
                self.insert_backspace();
                self.record_key(key);
                EditorAction::Handled
            },
            KeyCode::Delete => {
                self.insert_delete();
                self.record_key(key);
                EditorAction::Handled
            },
            KeyCode::Home | KeyCode::End | KeyCode::Left | KeyCode::Right | KeyCode::Up | KeyCode::Down => {
                self.insert_move(key.code);
                EditorAction::Handled
            },
            KeyCode::Char(c) => {
                if !ctrl {
                    self.replace_typed(c);
                    self.record_key(key);
                }
                EditorAction::Handled
            },
            KeyCode::Tab => {
                self.replace_tab();
                self.record_key(key);
                EditorAction::Handled
            },
            _ => EditorAction::Handled,
        }
    }
}

} // verus!
