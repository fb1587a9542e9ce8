//! The commands that single keys trigger: entering Insert mode, opening lines, removing
//! characters, counts, marks, scrolling by pages and lines, and the recording of edits.
use vstd::prelude::*;

use super::motions::{min_int, sat_sub, inner_word, find_inner_word};
use super::{lemma_clamp_row_in, VimEditor};
use crate::text::{
    extend_chars, leading_whitespace_len, leading_ws, push_lines, slice_chars, string_of,
    word_char, is_word_char, lemma_leading_ws,
};
use crate::{EditRecord, Key, VimMode};

verus! {

/// The text after the line below row `row` was joined to it `n` times (`J` with a
/// count), stopping at the last line.
pub open spec fn join_times(text: Seq<Seq<char>>, row: int, n: nat) -> Seq<Seq<char>>
    decreases n,
{
    if n == 0 || row < 0 || row + 1 >= text.len() {
        text
    } else {
        join_times(
            text.update(row, super::buffer::joined_line_of(text[row], text[row + 1])).remove(row + 1),
            row,
            (n - 1) as nat,
        )
    }
}

/// The line and the cursor column after the character under the cursor was deleted `n`
/// times on `line` from column `col` in `mode`: each time the cursor is clamped to the
/// line; off a character nothing happens.
pub open spec fn delete_times(line: Seq<char>, col: int, mode: VimMode, n: nat) -> (Seq<char>, int)
    decreases n,
{
    if n == 0 || col < 0 || col >= line.len() {
        (line, col)
    } else {
        let l = line.remove(col);
        let maxc = if mode == VimMode::Insert || mode == VimMode::Replace {
            l.len() as int
        } else if l.len() > 0 {
            l.len() - 1
        } else {
            0
        };
        delete_times(l, if col > maxc { maxc } else { col }, mode, (n - 1) as nat)
    }
}

/// `line` with the characters from column `col` on, `n` of them as far as the line
/// goes, replaced by `c`.
pub open spec fn replaced_run(line: Seq<char>, col: int, c: char, n: int) -> Seq<char> {
    Seq::new(line.len(), |j: int| if col <= j < col + n { c } else { line[j] })
}

/// `n + 1` deletions are `n` deletions and one more.
proof fn lemma_delete_times_step(line: Seq<char>, col: int, mode: VimMode, n: nat)
    ensures
        delete_times(line, col, mode, n + 1) == delete_times(
            delete_times(line, col, mode, n).0,
            delete_times(line, col, mode, n).1,
            mode,
            1,
        ),
    decreases n,
{
    if n > 0 && 0 <= col < line.len() {
        let l = line.remove(col);
        let maxc = if mode == VimMode::Insert || mode == VimMode::Replace {
            l.len() as int
        } else if l.len() > 0 {
            l.len() - 1
        } else {
            0
        };
        lemma_delete_times_step(l, if col > maxc { maxc } else { col }, mode, (n - 1) as nat);
    }
}

/// The line and cursor column after `X` removed up to `n` characters before column `col`
/// of `line` in `mode`: each time the cursor steps left and the character there goes, as
/// long as the cursor is past the first column.
pub open spec fn remove_before_times(line: Seq<char>, col: int, mode: VimMode, n: nat) -> (Seq<char>, int)
    decreases n,
{
    if n == 0 || col <= 0 {
        (line, col)
    } else {
        let d = delete_times(line, col - 1, mode, 1);
        remove_before_times(d.0, d.1, mode, (n - 1) as nat)
    }
}

/// `n + 1` removals are `n` removals and one more.
proof fn lemma_remove_before_step(line: Seq<char>, col: int, mode: VimMode, n: nat)
    ensures
        remove_before_times(line, col, mode, n + 1) == ({
            let r = remove_before_times(line, col, mode, n);
            if r.1 <= 0 {
                r
            } else {
                delete_times(r.0, r.1 - 1, mode, 1)
            }
        }),
    decreases n,
{
    reveal_with_fuel(remove_before_times, 2);
    if n > 0 && col > 0 {
        let d = delete_times(line, col - 1, mode, 1);
        lemma_remove_before_step(d.0, d.1, mode, (n - 1) as nat);
    }
}

/// One join, then `n - 1` more, is `n` joins.
proof fn lemma_join_times_step(text: Seq<Seq<char>>, row: int, n: nat)
    requires
        n >= 1,
    ensures
        join_times(text, row, n) == join_times(join_times(text, row, 1), row, (n - 1) as nat),
{
    if row >= 0 && row + 1 < text.len() {
        let next = text.update(row, super::buffer::joined_line_of(text[row], text[row + 1])).remove(row + 1);
        assert(join_times(next, row, 0) == next);
    }
}

/// The line and the cursor column after `~` was typed `n` times on `line` from column
/// `col`: the case of the character under the cursor is swapped and the cursor moves right,
/// up to the last character; off a character nothing happens.
pub open spec fn toggle_times(line: Seq<char>, col: int, n: nat) -> (Seq<char>, int)
    decreases n,
{
    if n == 0 || col < 0 || col >= line.len() {
        (line, col)
    } else {
        let new_line = line.take(col) + super::operators::toggled_char(line[col]) + line.skip(col + 1);
        toggle_times(new_line, min_int(col + 1, sat_sub(new_line.len() as int, 1)), (n - 1) as nat)
    }
}

/// `n + 1` toggles are `n` toggles and one more.
proof fn lemma_toggle_times_step(line: Seq<char>, col: int, n: nat)
    ensures
        toggle_times(line, col, n + 1) == toggle_times(toggle_times(line, col, n).0, toggle_times(line, col, n).1, 1),
    decreases n,
{
    if n > 0 && 0 <= col < line.len() {
        let new_line = line.take(col) + super::operators::toggled_char(line[col]) + line.skip(col + 1);
        lemma_toggle_times_step(new_line, min_int(col + 1, sat_sub(new_line.len() as int, 1)), (n - 1) as nat);
    }
}


impl VimEditor {
    /// Start recording the keys of an edit (for `.`).
    pub fn start_recording(&mut self)
        ensures
            *final(self) == (VimEditor { is_recording: true, recording_edit: final(self).recording_edit, ..*old(self) }),
            final(self).recording_edit@.len() == 0,
    {
        self.is_recording = true;
        self.recording_edit = Vec::new();
    }

    /// Record a key of the edit being recorded.
    pub fn record_key(&mut self, key: Key)
        ensures
            *final(self) == (VimEditor { recording_edit: final(self).recording_edit, ..*old(self) }),
            final(self).recording_edit@ == if old(self).is_recording {
                old(self).recording_edit@.push(key)
            } else {
                old(self).recording_edit@
            },
    {
        if self.is_recording {
            self.recording_edit.push(key);
        }
    }

    /// Stop recording: a non-empty recording becomes the edit that `.` repeats.
    pub fn stop_recording(&mut self)
        ensures
            *final(self) == (VimEditor { is_recording: final(self).is_recording, last_edit: final(self).last_edit, ..*old(self) }),
            !final(self).is_recording,
            final(self).last_edit == if old(self).is_recording && old(self).recording_edit@.len() > 0 {
                final(self).last_edit
            } else {
                old(self).last_edit
            },
            old(self).is_recording && old(self).recording_edit@.len() > 0 ==> (final(self).last_edit matches Some(e)
                && e.keys@ == old(self).recording_edit@),
    {
        if self.is_recording {
            self.is_recording = false;
            if self.recording_edit.len() > 0 {
                self.last_edit = Some(EditRecord { keys: self.recording_edit.clone() });
            }
        }
    }

    /// Appends the digit `d` to the pending count (saturating at the largest count).
    pub fn push_count_digit(&mut self, d: usize)
        requires
            d < 10,
            old(self).pending_count is Some || d > 0,
            old(self).pending_count matches Some(c) ==> c >= 1,
        ensures
            *final(self) == (VimEditor { pending_count: Some(count_after_digit(old(self).pending_count, d)), ..*old(self) }),
            count_after_digit(old(self).pending_count, d) >= 1,
    {
        let v = count_with_digit(self.pending_count, d);
        self.pending_count = Some(v);
    }

    /// Enter Insert mode at the cursor (`i`), when the configuration allows it.
    pub fn key_insert(&mut self)
        requires
            old(self).inv(),
            old(self).visual_anchor is None,
        ensures
            final(self).inv(),
            final(self).config == old(self).config,
            !old(self).config.insert_allowed ==> *final(self) == *old(self),
            old(self).config.insert_allowed ==> final(self).mode == VimMode::Insert && final(self).is_recording
                && final(self).text() == old(self).text() && final(self).cursor_row == old(self).cursor_row
                && final(self).cursor_col == old(self).cursor_col,
    {
        if self.config.insert_allowed {
            self.pending_count = None;
            self.start_recording();
            self.mode = VimMode::Insert;
        }
    }

    /// Enter Insert mode after the cursor (`a`), when the configuration allows it.
    pub fn key_append(&mut self)
        requires
            old(self).inv(),
            old(self).visual_anchor is None,
        ensures
            final(self).inv(),
            final(self).config == old(self).config,
            !old(self).config.insert_allowed ==> *final(self) == *old(self),
            old(self).config.insert_allowed ==> final(self).mode == VimMode::Insert && final(self).is_recording
                && final(self).text() == old(self).text() && final(self).cursor_row == old(self).cursor_row
                && final(self).cursor_col == min_int(old(self).cursor_col + 1, old(self).cur_len() as int),
    {
        if self.config.insert_allowed {
            self.pending_count = None;
            self.start_recording();
            self.mode = VimMode::Insert;
            self.move_right(1);
        }
    }

    /// Enter Insert mode at the first non-blank character (`I`), when allowed.
    pub fn key_insert_line_start(&mut self)
        requires
            old(self).inv(),
            old(self).visual_anchor is None,
        ensures
            final(self).inv(),
            final(self).config == old(self).config,
            !old(self).config.insert_allowed ==> *final(self) == *old(self),
            old(self).config.insert_allowed ==> final(self).mode == VimMode::Insert && final(self).is_recording
                && final(self).text() == old(self).text() && final(self).cursor_row == old(self).cursor_row
                && final(self).cursor_col == leading_ws(old(self).cur_line()),
    {
        if self.config.insert_allowed {
            self.pending_count = None;
            self.start_recording();
            self.move_to_first_non_blank();
            self.mode = VimMode::Insert;
        }
    }

    /// Enter Insert mode at the end of the line (`A`), when allowed.
    pub fn key_append_line_end(&mut self)
        requires
            old(self).inv(),
            old(self).visual_anchor is None,
        ensures
            final(self).inv(),
            final(self).config == old(self).config,
            !old(self).config.insert_allowed ==> *final(self) == *old(self),
            old(self).config.insert_allowed ==> final(self).mode == VimMode::Insert && final(self).is_recording
                && final(self).text() == old(self).text() && final(self).cursor_row == old(self).cursor_row
                && final(self).cursor_col == old(self).cur_len(),
    {
        if self.config.insert_allowed {
            self.pending_count = None;
            self.start_recording();
            self.cursor_col = self.current_line_len();
            self.mode = VimMode::Insert;
        }
    }

    /// The leading whitespace of the cursor line.
    fn cursor_indent(&self) -> (r: Vec<char>)
        ensures
            r@ == self.cur_line().take(leading_ws(self.cur_line()) as int),
    {
        let line = self.current_chars();
        proof {
            lemma_leading_ws(line@);
        }
        let k = leading_whitespace_len(&line);
        let r = slice_chars(&line, 0, k);
        assert(line@.subrange(0, k as int) =~= line@.take(k as int));
        r
    }

    /// The lines with `line` inserted before row `at`.
    fn lines_with_line(&self, at: usize, line: &Vec<char>) -> (r: Vec<String>)
        requires
            at <= self.text().len(),
        ensures
            r.deep_view() == self.text().insert(at as int, line@),
    {
        let n = self.lines.len();
        let mut out: Vec<String> = Vec::new();
        push_lines(&mut out, &self.lines, 0, at);
        out.push(string_of(line));
        push_lines(&mut out, &self.lines, at, n);
        assert(out.deep_view() =~= self.text().insert(at as int, line@));
        out
    }

    /// Open a line below (`o`, `below`) or above (`O`) the cursor with the indentation of
    /// the cursor line, and enter Insert mode on it, saving the state for undo. Nothing
    /// happens when the configuration does not allow Insert mode.
    pub fn key_open_line(&mut self, below: bool)
        requires
            old(self).inv(),
            old(self).visual_anchor is None,
        ensures
            final(self).inv(),
            final(self).config == old(self).config,
            !old(self).config.insert_allowed ==> *final(self) == *old(self),
            old(self).config.insert_allowed ==> {
                let indent = old(self).cur_line().take(leading_ws(old(self).cur_line()) as int);
                let at = if below { old(self).cursor_row + 1 } else { old(self).cursor_row as int };
                &&& final(self).history_saved(old(self))
                &&& final(self).text() == old(self).text().insert(at, indent)
                &&& final(self).cursor_row == at
                &&& final(self).cursor_col == indent.len()
                &&& final(self).mode == VimMode::Insert
                &&& final(self).modified
                &&& final(self).is_recording
            },
    {
        if !self.config.insert_allowed {
            return;
        }
        self.pending_count = None;
        self.save_undo();
        self.start_recording();
        let indent = self.cursor_indent();
        let n = self.lines.len();
        let at = if below { self.cursor_row + 1 } else { self.cursor_row };
        let lines = self.lines_with_line(at, &indent);
        self.lines = lines;
        self.cursor_row = at;
        self.cursor_col = indent.len();
        self.mode = VimMode::Insert;
        self.modified = true;
        proof {
            lemma_leading_ws(old(self).cur_line());
        }
    }

    /// Replace the cursor line by its indentation and enter Insert mode (`S`), saving the
    /// state for undo. Nothing happens when Insert mode is not allowed.
    pub fn key_substitute_line(&mut self)
        requires
            old(self).inv(),
            old(self).visual_anchor is None,
        ensures
            final(self).inv(),
            final(self).config == old(self).config,
            !old(self).config.insert_allowed ==> *final(self) == *old(self),
            old(self).config.insert_allowed ==> {
                let indent = old(self).cur_line().take(leading_ws(old(self).cur_line()) as int);
                &&& final(self).history_saved(old(self))
                &&& final(self).text() == old(self).text().update(old(self).cursor_row as int, indent)
                &&& final(self).cursor_row == old(self).cursor_row
                &&& final(self).cursor_col == indent.len()
                &&& final(self).mode == VimMode::Insert
                &&& final(self).modified
            },
    {
        if !self.config.insert_allowed {
            return;
        }
        self.pending_count = None;
        self.save_undo();
        self.start_recording();
        let indent = self.cursor_indent();
        let row = self.cursor_row;
        self.set_line(row, &indent);
        self.cursor_col = indent.len();
        self.mode = VimMode::Insert;
        self.modified = true;
    }

    /// Delete from the cursor to the end of the line and enter Insert mode (`C`), saving the
    /// state for undo. Nothing happens when Insert mode is not allowed.
    pub fn key_change_to_end(&mut self)
        requires
            old(self).inv(),
            old(self).visual_anchor is None,
        ensures
            final(self).inv(),
            final(self).config == old(self).config,
            !old(self).config.insert_allowed ==> *final(self) == *old(self),
            old(self).config.insert_allowed ==> {
                &&& final(self).history_saved(old(self))
                &&& old(self).cursor_col < old(self).cur_len() ==> final(self).text() == old(self).text().update(
                    old(self).cursor_row as int,
                    old(self).cur_line().take(old(self).cursor_col as int),
                ) && final(self).modified
                &&& old(self).cursor_col >= old(self).cur_len() ==> final(self).text() == old(self).text()
                    && final(self).modified == old(self).modified
                &&& final(self).cursor_row == old(self).cursor_row
                &&& final(self).cursor_col == old(self).cursor_col
                &&& final(self).mode == VimMode::Insert
            },
    {
        if !self.config.insert_allowed {
            return;
        }
        self.pending_count = None;
        self.save_undo();
        self.start_recording();
        let line = self.current_chars();
        if self.cursor_col < line.len() {
            let head = slice_chars(&line, 0, self.cursor_col);
            assert(line@.subrange(0, self.cursor_col as int) =~= line@.take(self.cursor_col as int));
            let row = self.cursor_row;
            self.set_line(row, &head);
            self.modified = true;
        }
        self.mode = VimMode::Insert;
    }

    /// Delete the character under the cursor and enter Insert mode (`s`), saving the state
    /// for undo. Nothing happens when Insert mode is not allowed.
    pub fn key_substitute_char(&mut self)
        requires
            old(self).inv(),
            old(self).visual_anchor is None,
        ensures
            final(self).inv(),
            final(self).config == old(self).config,
            !old(self).config.insert_allowed ==> *final(self) == *old(self),
            old(self).config.insert_allowed ==> final(self).mode == VimMode::Insert
                && final(self).history_saved(old(self))
                && (old(self).cursor_col < old(self).cur_len() ==> final(self).text() == old(self).text().update(
                    old(self).cursor_row as int,
                    old(self).cur_line().remove(old(self).cursor_col as int),
                ))
                && (old(self).cursor_col >= old(self).cur_len() ==> final(self).text() == old(self).text()),
    {
        if !self.config.insert_allowed {
            return;
        }
        self.save_undo();
        self.start_recording();
        self.delete_char_at_cursor();
        self.mode = VimMode::Insert;
        proof {
            lemma_clamp_row_in(self.text(), old(self).cursor_row);
        }
    }
}


impl VimEditor {
    /// The cursor line without the `k` characters at the cursor, and those characters,
    /// `k` being `n` bound by what the line holds from the cursor.
    fn line_without_run(&self, n: usize) -> (r: (Vec<char>, Vec<char>))
        requires
            self.wf(),
        ensures
            r.1@.len() == removed_count(self.cur_len(), self.cursor_col, n),
            self.cursor_col < self.cur_len() ==> {
                &&& r.0@ == self.cur_line().take(self.cursor_col as int) + self.cur_line().skip(self.cursor_col + removed_count(self.cur_len(), self.cursor_col, n))
                &&& r.1@ == self.cur_line().subrange(self.cursor_col as int, self.cursor_col + removed_count(self.cur_len(), self.cursor_col, n))
            },
            self.cursor_col >= self.cur_len() ==> r.0@ == self.cur_line(),
    {
        let line = self.current_chars();
        let len = line.len();
        let col = self.cursor_col;
        if col >= len {
            return (line, Vec::new());
        }
        let k = if n < len - col { n } else { len - col };
        let taken = slice_chars(&line, col, col + k);
        let mut rest = slice_chars(&line, 0, col);
        let tail = slice_chars(&line, col + k, len);
        extend_chars(&mut rest, &tail);
        assert(line@.subrange(0, col as int) =~= line@.take(col as int));
        assert(line@.subrange(col + k, len as int) =~= line@.skip(col + k));
        (rest, taken)
    }

    /// Remove `n` characters at the cursor (`x`), fewer at the end of the line, saving the
    /// state for undo: the removed text goes to the register and the clipboard, and the
    /// cursor is clamped. The buffer stays as it is when the cursor is on no character.
    pub fn key_remove_chars(&mut self, n: usize)
        requires
            old(self).inv(),
            old(self).visual_anchor is None,
        ensures
            final(self).inv(),
            final(self).config == old(self).config,
            final(self).history_saved(old(self)),
            final(self).pending_count == old(self).pending_count,
            ({
                let k = removed_count(old(self).cur_len(), old(self).cursor_col, n);
                let line = old(self).cur_line();
                let col = old(self).cursor_col as int;
                if k > 0 {
                    &&& final(self).text() == old(self).text().update(old(self).cursor_row as int, line.take(col) + line.skip(col + k))
                    &&& final(self).register_set(old(self), line.subrange(col, col + k), false)
                    &&& final(self).modified
                    &&& final(self).cursor_clamped_from(old(self).cursor_row, old(self).cursor_col)
                } else {
                    &&& final(self).text() == old(self).text()
                    &&& final(self).cursor_row == old(self).cursor_row
                    &&& final(self).cursor_col == old(self).cursor_col
                }
            }),
    {
        self.save_undo();
        let (rest, taken) = self.line_without_run(n);
        if taken.len() > 0 {
            let row = self.cursor_row;
            self.set_line(row, &rest);
            self.modified = true;
            self.set_register(string_of(&taken), false);
            let col = self.cursor_col;
            self.set_cursor_clamped(row, col);
            proof {
                lemma_clamp_row_in(self.text(), row);
            }
        } else {
            proof {
                if old(self).cursor_col < old(self).cur_len() {
                    let c = old(self).cursor_col as int;
                    assert(old(self).cur_line().take(c) + old(self).cur_line().skip(c) =~= old(self).cur_line());
                }
            }
        }
    }

    /// Delete the character under the cursor, keeping the invariant.
    pub(crate) fn delete_char_inv(&mut self)
        requires
            old(self).inv(),
            old(self).visual_anchor is None,
        ensures
            final(self).inv(),
            final(self).config == old(self).config,
            final(self).visual_anchor is None,
            final(self).char_deleted(old(self)),
            final(self).undo_stack == old(self).undo_stack,
    {
        self.delete_char_at_cursor();
        proof {
            if old(self).cursor_row < old(self).text().len() && old(self).cursor_col < old(self).cur_len() {
                lemma_clamp_row_in(self.text(), old(self).cursor_row);
            }
        }
    }

    /// Swap the case of the character under the cursor, keeping the invariant.
    fn toggle_case_inv(&mut self)
        requires
            old(self).inv(),
            old(self).visual_anchor is None,
        ensures
            final(self).inv(),
            final(self).config == old(self).config,
            final(self).visual_anchor is None,
            final(self).cursor_row == old(self).cursor_row,
            final(self).text() == old(self).text().update(
                old(self).cursor_row as int,
                toggle_times(old(self).cur_line(), old(self).cursor_col as int, 1).0,
            ),
            final(self).cursor_col == toggle_times(old(self).cur_line(), old(self).cursor_col as int, 1).1,
    {
        self.toggle_case_at_cursor();
        proof {
            reveal_with_fuel(toggle_times, 2);
            if old(self).on_char() {
                super::lemma_history_saved_stacks(*old(self), *self);
            } else {
                assert(old(self).text().update(old(self).cursor_row as int, old(self).cur_line()) =~= old(self).text());
            }
        }
    }

    /// Join the line below to the cursor line, keeping the invariant.
    fn join_inv(&mut self)
        requires
            old(self).inv(),
            old(self).visual_anchor is None,
        ensures
            final(self).inv(),
            final(self).config == old(self).config,
            final(self).visual_anchor is None,
            final(self).cursor_row == old(self).cursor_row,
            final(self).text() == join_times(old(self).text(), old(self).cursor_row as int, 1),
    {
        self.join_lines();
        proof {
            reveal_with_fuel(join_times, 2);
            if old(self).cursor_row + 1 < old(self).text().len() {
                super::lemma_history_saved_stacks(*old(self), *self);
            }
        }
    }

    /// Replace the character under the cursor by `c`, keeping the invariant.
    fn replace_char_inv(&mut self, c: char)
        requires
            old(self).inv(),
            old(self).visual_anchor is None,
        ensures
            final(self).inv(),
            final(self).config == old(self).config,
            final(self).visual_anchor is None,
            !old(self).on_char() ==> *final(self) == *old(self),
            old(self).on_char() ==> final(self).text() == old(self).text().update(
                old(self).cursor_row as int,
                old(self).cur_line().update(old(self).cursor_col as int, c),
            ),
            final(self).cursor_row == old(self).cursor_row,
            final(self).cursor_col == old(self).cursor_col,
            final(self).pending_count == old(self).pending_count,
            final(self).pending_replace == old(self).pending_replace,
    {
        self.replace_char(c);
        proof {
            if old(self).on_char() {
                super::lemma_history_saved_stacks(*old(self), *self);
            }
        }
    }

    /// Remove up to `n` characters before the cursor (`X`), one at a time, saving the state
    /// for undo first. Nothing happens at the first column.
    pub fn key_remove_before(&mut self, n: usize)
        requires
            old(self).inv(),
            old(self).visual_anchor is None,
        ensures
            final(self).inv(),
            final(self).config == old(self).config,
            old(self).cursor_col == 0 ==> *final(self) == *old(self),
            old(self).cursor_col > 0 ==> {
                let r = remove_before_times(old(self).cur_line(), old(self).cursor_col as int, old(self).mode, n as nat);
                &&& final(self).undo_stack@.len() == old(self).undo_stack@.len() + 1
                &&& final(self).cursor_row == old(self).cursor_row
                &&& final(self).text() == old(self).text().update(old(self).cursor_row as int, r.0)
                &&& final(self).cursor_col == r.1
            },
    {
        if self.cursor_col == 0 {
            return;
        }
        self.save_undo();
        let ghost t0 = old(self).text();
        let ghost row = old(self).cursor_row as int;
        let ghost line = old(self).cur_line();
        let ghost col = old(self).cursor_col as int;
        let ghost mode = old(self).mode;
        assert(t0.update(row, line) =~= t0);
        let mut i: usize = 0;
        while i < n
            invariant
                self.inv(),
                self.config == old(self).config,
                self.visual_anchor is None,
                self.undo_stack@.len() == old(self).undo_stack@.len() + 1,
                i <= n,
                0 <= row < t0.len(),
                line == t0[row],
                self.mode == mode,
                self.cursor_row == row,
                self.cursor_col == remove_before_times(line, col, mode, i as nat).1,
                self.text() == t0.update(row, remove_before_times(line, col, mode, i as nat).0),
            decreases n - i,
        {
            proof {
                lemma_remove_before_step(line, col, mode, i as nat);
                reveal_with_fuel(delete_times, 2);
                reveal(super::clamp_col_of);
                reveal(super::clamp_row_of);
            }
            assert(self.text()[row] == remove_before_times(line, col, mode, i as nat).0);
            if self.cursor_col > 0 {
                self.cursor_col = self.cursor_col - 1;
                self.delete_char_inv();
            }
            assert(self.text() =~= t0.update(row, remove_before_times(line, col, mode, (i + 1) as nat).0));
            i = i + 1;
        }
    }

    /// Delete `n` characters at the cursor one at a time (the Delete key), saving the state
    /// for undo first.
    pub fn key_delete_chars(&mut self, n: usize)
        requires
            old(self).inv(),
            old(self).visual_anchor is None,
        ensures
            final(self).inv(),
            final(self).config == old(self).config,
            final(self).undo_stack@.len() == old(self).undo_stack@.len() + 1,
            final(self).cursor_row == old(self).cursor_row,
            final(self).text() == old(self).text().update(
                old(self).cursor_row as int,
                delete_times(old(self).cur_line(), old(self).cursor_col as int, old(self).mode, n as nat).0,
            ),
            final(self).cursor_col == delete_times(old(self).cur_line(), old(self).cursor_col as int, old(self).mode, n as nat).1,
    {
        self.save_undo();
        let ghost t0 = old(self).text();
        let ghost row = old(self).cursor_row as int;
        let ghost line = old(self).cur_line();
        let ghost col = old(self).cursor_col as int;
        let ghost mode = old(self).mode;
        assert(t0.update(row, line) =~= t0);
        let mut i: usize = 0;
        while i < n
            invariant
                self.inv(),
                self.config == old(self).config,
                self.visual_anchor is None,
                self.undo_stack@.len() == old(self).undo_stack@.len() + 1,
                i <= n,
                0 <= row < t0.len(),
                line == t0[row],
                self.mode == mode,
                self.cursor_row == row,
                self.cursor_col == delete_times(line, col, mode, i as nat).1,
                self.text() == t0.update(row, delete_times(line, col, mode, i as nat).0),
            decreases n - i,
        {
            proof {
                lemma_delete_times_step(line, col, mode, i as nat);
                reveal_with_fuel(delete_times, 2);
                reveal(super::clamp_col_of);
                reveal(super::clamp_row_of);
            }
            assert(self.text()[row] == delete_times(line, col, mode, i as nat).0);
            self.delete_char_inv();
            assert(self.text() =~= t0.update(row, delete_times(line, col, mode, (i + 1) as nat).0));
            i = i + 1;
        }
    }

    /// Replace `count` characters (at least one) from the cursor by `c` (`r`), as many as
    /// the line holds, leaving the cursor on the last one replaced; off a character nothing
    /// changes. Each replacement is saved for undo.
    pub fn key_replace_chars(&mut self, c: char, count: usize)
        requires
            old(self).inv(),
            old(self).visual_anchor is None,
        ensures
            final(self).inv(),
            final(self).config == old(self).config,
            final(self).cursor_row == old(self).cursor_row,
            final(self).pending_count == old(self).pending_count,
            final(self).pending_replace == old(self).pending_replace,
            old(self).on_char() ==> final(self).text() == old(self).text().update(
                old(self).cursor_row as int,
                replaced_run(old(self).cur_line(), old(self).cursor_col as int, c, if count > 1 { count as int } else { 1 }),
            ) && final(self).cursor_col == min_int(
                old(self).cursor_col + if count > 1 { count as int } else { 1 },
                old(self).cur_len() as int,
            ) - 1,
            !old(self).on_char() ==> final(self).text() == old(self).text() && final(self).cursor_col == old(self).cursor_col,
    {
        let count = if count > 1 { count } else { 1 };
        if !(self.cursor_col < self.current_line_len()) {
            return;
        }
        let ghost t0 = old(self).text();
        let ghost row = old(self).cursor_row as int;
        let ghost line = old(self).cur_line();
        let col = self.cursor_col;
        let len = self.current_line_len();
        let end = if count >= len - col { len } else { col + count };
        assert(t0.update(row, line) =~= t0);
        assert(replaced_run(line, col as int, c, 0) =~= line);
        let mut k: usize = col;
        while k < end
            invariant
                self.inv(),
                self.config == old(self).config,
                self.visual_anchor is None,
                col <= k <= end <= len,
                len == line.len(),
                0 <= row < t0.len(),
                line == t0[row],
                self.cursor_row == row,
                self.pending_count == old(self).pending_count,
                self.pending_replace == old(self).pending_replace,
                self.text() == t0.update(row, replaced_run(line, col as int, c, k - col)),
            decreases end - k,
        {
            self.cursor_col = k;
            assert(self.cur_line() == replaced_run(line, col as int, c, k - col));
            self.replace_char_inv(c);
            assert(replaced_run(line, col as int, c, k - col).update(k as int, c)
                =~= replaced_run(line, col as int, c, k + 1 - col));
            assert(self.text() =~= t0.update(row, replaced_run(line, col as int, c, k + 1 - col)));
            k = k + 1;
        }
        assert(replaced_run(line, col as int, c, end - col) =~= replaced_run(line, col as int, c, count as int));
        self.cursor_col = end - 1;
        proof {
            super::lemma_clamp_rows_in(self.text());
        }
    }

    /// Swap the case of the character under the cursor `n` times, moving right (`~`).
    pub fn key_toggle_case(&mut self, n: usize)
        requires
            old(self).inv(),
            old(self).visual_anchor is None,
        ensures
            final(self).inv(),
            final(self).config == old(self).config,
            final(self).cursor_row == old(self).cursor_row,
            final(self).text() == old(self).text().update(
                old(self).cursor_row as int,
                toggle_times(old(self).cur_line(), old(self).cursor_col as int, n as nat).0,
            ),
            final(self).cursor_col == toggle_times(old(self).cur_line(), old(self).cursor_col as int, n as nat).1,
    {
        let ghost row = self.cursor_row as int;
        let ghost t0 = self.text();
        let mut i: usize = 0;
        while i < n
            invariant
                self.inv(),
                self.config == old(self).config,
                self.visual_anchor is None,
                i <= n,
                self.cursor_row == row,
                row == old(self).cursor_row,
                t0 == old(self).text(),
                0 <= row < t0.len(),
                self.text() == t0.update(row, toggle_times(t0[row], old(self).cursor_col as int, i as nat).0),
                self.cursor_col == toggle_times(t0[row], old(self).cursor_col as int, i as nat).1,
            decreases n - i,
        {
            proof {
                lemma_toggle_times_step(t0[row], old(self).cursor_col as int, i as nat);
                assert(self.text()[row] == toggle_times(t0[row], old(self).cursor_col as int, i as nat).0);
                assert(self.cur_line() == toggle_times(t0[row], old(self).cursor_col as int, i as nat).0);
            }
            self.toggle_case_inv();
            proof {
                assert(self.text() =~= t0.update(row, toggle_times(t0[row], old(self).cursor_col as int, (i + 1) as nat).0));
            }
            i = i + 1;
        }
        assert(old(self).cur_line() == t0[row]);
    }

    /// Join the line below to the cursor line `n` times (`J`).
    pub fn key_join(&mut self, n: usize)
        requires
            old(self).inv(),
            old(self).visual_anchor is None,
        ensures
            final(self).inv(),
            final(self).config == old(self).config,
            final(self).cursor_row == old(self).cursor_row,
            final(self).text() == join_times(old(self).text(), old(self).cursor_row as int, n as nat),
    {
        let ghost row = self.cursor_row as int;
        let mut i: usize = 0;
        while i < n
            invariant
                self.inv(),
                self.config == old(self).config,
                self.visual_anchor is None,
                i <= n,
                self.cursor_row == row,
                row == old(self).cursor_row,
                join_times(old(self).text(), row, n as nat) == join_times(self.text(), row, (n - i) as nat),
            decreases n - i,
        {
            let ghost before = self.text();
            self.join_inv();
            proof {
                lemma_join_times_step(before, row, (n - i) as nat);
            }
            i = i + 1;
        }
    }

    /// Where `%` takes the cursor.
    fn bracket_target_exec(&self) -> (r: (usize, usize))
        requires
            self.wf(),
        ensures
            (r.0 as int, r.1 as int) == bracket_target(self.text(), self.cursor_row as int, self.cursor_col as int),
            r.0 < self.text().len(),
    {
        reveal(bracket_target);
        match crate::render::find_matching_bracket(self.lines.as_slice(), self.cursor_row, self.cursor_col) {
            Some((r, c)) => {
                proof {
                    crate::render::lemma_bracket_match_in_text(self.text(), self.cursor_row as int, self.cursor_col as int);
                }
                (r, c)
            },
            None => (self.cursor_row, self.cursor_col),
        }
    }

    /// Move the cursor to the bracket that matches the one under it (`%`); it stays put
    /// when there is none.
    pub fn move_to_matching_bracket(&mut self)
        requires
            old(self).inv(),
        ensures
            final(self).inv(),
            final(self).config == old(self).config,
            final(self).cursor_moved(old(self)),
            (final(self).cursor_row as int, final(self).cursor_col as int) == bracket_target(
                old(self).text(),
                old(self).cursor_row as int,
                old(self).cursor_col as int,
            ),
    {
        let (r, c) = self.bracket_target_exec();
        self.cursor_row = r;
        self.cursor_col = c;
    }

    /// The word under the cursor (its run of word characters), none when the cursor is
    /// not on a word character.
    pub open spec fn word_under_cursor_spec(&self) -> Option<Seq<char>> {
        let line = self.cur_line();
        if self.cursor_col < line.len() && word_char(line[self.cursor_col as int], false) {
            let w = inner_word(line, self.cursor_col as int);
            Some(line.subrange(w.0, w.1))
        } else {
            None
        }
    }

    /// The word under the cursor (`*`, `#` search for it).
    pub fn word_under_cursor(&self) -> (r: Option<String>)
        ensures
            match self.word_under_cursor_spec() {
                Some(w) => r matches Some(s) && s@ == w,
                None => r is None,
            },
    {
        let line = self.current_chars();
        if self.cursor_col < line.len() && is_word_char(line[self.cursor_col], false) {
            let (a, b) = find_inner_word(&line, self.cursor_col);
            Some(string_of(&slice_chars(&line, a, b)))
        } else {
            None
        }
    }

    /// Search for the word under the cursor (`*` forward, `#` backward). Nothing happens
    /// off a word.
    pub fn key_search_word(&mut self, forward: bool)
        requires
            old(self).inv(),
        ensures
            final(self).inv(),
            final(self).config == old(self).config,
            old(self).word_under_cursor_spec() is None ==> *final(self) == *old(self),
            old(self).word_under_cursor_spec() matches Some(w) ==> final(self).search.pattern@ == w
                && final(self).search.forward == forward && final(self).text() == old(self).text(),
    {
        match self.word_under_cursor() {
            Some(w) => {
                self.search.pattern = w;
                self.search.forward = forward;
                if forward {
                    self.jump_to_next_match();
                } else {
                    self.jump_to_prev_match();
                }
            },
            None => {},
        }
    }
}

/// The count after the digit `d` is typed with `pending` pending: ten times the pending
/// count plus the digit, at most the largest count.
#[verifier::opaque]
pub open spec fn count_after_digit(pending: Option<usize>, d: usize) -> usize {
    let c = match pending {
        Some(c) => c as int,
        None => 0,
    };
    min_int(c * 10 + d, usize::MAX as int) as usize
}

/// Executable form of [`count_after_digit`].
fn count_with_digit(pending: Option<usize>, d: usize) -> (r: usize)
    requires
        d < 10,
        pending is Some || d > 0,
        pending matches Some(c) ==> c >= 1,
    ensures
        r == count_after_digit(pending, d),
        r >= 1,
{
    reveal(count_after_digit);
    let current = match pending {
        Some(c) => c,
        None => 0,
    };
    if current > usize::MAX / 10 {
        usize::MAX
    } else {
        let t = current * 10;
        if d > usize::MAX - t {
            usize::MAX
        } else {
            t + d
        }
    }
}

/// Where `%` takes the cursor from (`row`, `col`): the matching bracket, or the same place.
#[verifier::opaque]
pub open spec fn bracket_target(text: Seq<Seq<char>>, row: int, col: int) -> (int, int) {
    match crate::render::bracket_match(text, row, col) {
        Some((r, c)) => (r, c),
        None => (row, col),
    }
}

/// How many characters `x` with count `n` removes from a line of `len` characters with the
/// cursor at `col`.
pub open spec fn removed_count(len: nat, col: usize, n: usize) -> int {
    if col >= len {
        0
    } else {
        min_int(n as int, len - col)
    }
}


impl VimEditor {
    /// Moves the cursor to (`row`, `col`), clamped, keeping the invariant.
    pub(crate) fn place_cursor(&mut self, row: usize, col: usize)
        requires
            old(self).inv(),
        ensures
            final(self).inv(),
            final(self).config == old(self).config,
            final(self).cursor_moved(old(self)),
            final(self).cursor_clamped_from(row, col),
    {
        self.set_cursor_clamped(row, col);
        proof {
            lemma_clamp_row_in(self.text(), row);
        }
    }

    /// The index of the last line.
    fn last_row_exec(&self) -> (r: usize)
        requires
            self.wf(),
        ensures
            r == self.text().len() - 1,
    {
        self.lines.len() - 1
    }

    /// Scrolls a whole page down (`Ctrl-f`): the view and the cursor move down by the
    /// visible height, the cursor stopping at the last line.
    pub fn full_page_down(&mut self)
        requires
            old(self).inv(),
        ensures
            final(self).inv(),
            final(self).config == old(self).config,
            final(self).scroll_offset == min_int(old(self).scroll_offset + old(self).visible_height, usize::MAX as int),
            final(self).cursor_clamped_from(
                min_int(old(self).cursor_row + old(self).visible_height, old(self).text().len() - 1) as usize,
                old(self).cursor_col,
            ),
            final(self).text() == old(self).text(),
    {
        let h = self.visible_height;
        let last = self.last_row_exec();
        let row = if h >= last - self.cursor_row || self.cursor_row > last { last } else { self.cursor_row + h };
        let v = if h > usize::MAX - self.scroll_offset { usize::MAX } else { self.scroll_offset + h };
        self.scroll_offset = v;
        let col = self.cursor_col;
        self.place_cursor(row, col);
    }

    /// Scrolls a whole page up (`Ctrl-b`): the view and the cursor move up by the visible
    /// height, stopping at the top.
    pub fn full_page_up(&mut self)
        requires
            old(self).inv(),
        ensures
            final(self).inv(),
            final(self).config == old(self).config,
            final(self).scroll_offset == sat_sub(old(self).scroll_offset as int, old(self).visible_height as int),
            final(self).cursor_clamped_from(
                sat_sub(old(self).cursor_row as int, old(self).visible_height as int) as usize,
                old(self).cursor_col,
            ),
            final(self).text() == old(self).text(),
    {
        let h = self.visible_height;
        let row = if self.cursor_row >= h { self.cursor_row - h } else { 0 };
        self.scroll_offset = if self.scroll_offset >= h { self.scroll_offset - h } else { 0 };
        let col = self.cursor_col;
        self.place_cursor(row, col);
    }

    /// Scrolls the view one line down (`Ctrl-e`), at most to the last line; the cursor is
    /// pulled down when it would leave the top of the view.
    pub fn scroll_line_down(&mut self)
        requires
            old(self).inv(),
        ensures
            final(self).inv(),
            final(self).config == old(self).config,
            final(self).scroll_offset == min_int(old(self).scroll_offset + 1, sat_sub(old(self).text().len() as int, 3)),
            final(self).cursor_clamped_from(
                if old(self).cursor_row < final(self).scroll_offset { final(self).scroll_offset } else { old(self).cursor_row },
                old(self).cursor_col,
            ),
            final(self).text() == old(self).text(),
    {
        let n = self.lines.len();
        let cap = if n >= 3 { n - 3 } else { 0 };
        self.scroll_offset = if self.scroll_offset < cap { self.scroll_offset + 1 } else { cap };
        let row = if self.cursor_row < self.scroll_offset { self.scroll_offset } else { self.cursor_row };
        let col = self.cursor_col;
        self.place_cursor(row, col);
    }

    /// Scrolls the view one line up (`Ctrl-y`); the cursor is pulled up when it would
    /// leave the bottom of the view.
    pub fn scroll_line_up(&mut self)
        requires
            old(self).inv(),
        ensures
            final(self).inv(),
            final(self).config == old(self).config,
            final(self).scroll_offset == sat_sub(old(self).scroll_offset as int, 1),
            final(self).cursor_clamped_from(
                if final(self).visible_height > 0 && old(self).cursor_row >= final(self).scroll_offset + final(self).visible_height {
                    (final(self).scroll_offset + final(self).visible_height - 1) as usize
                } else {
                    old(self).cursor_row
                },
                old(self).cursor_col,
            ),
            final(self).text() == old(self).text(),
    {
        self.scroll_offset = if self.scroll_offset > 0 { self.scroll_offset - 1 } else { 0 };
        let h = self.visible_height;
        let row = if h > 0 && self.cursor_row >= self.scroll_offset && self.cursor_row - self.scroll_offset >= h {
            self.scroll_offset + (h - 1)
        } else {
            self.cursor_row
        };
        let col = self.cursor_col;
        self.place_cursor(row, col);
    }

    /// The row at `offset` lines below the top of the view, bound by the last line.
    pub open spec fn view_row(&self, offset: int) -> int {
        min_int(self.scroll_offset + offset, self.text().len() - 1)
    }

    /// Moves the cursor to the top line of the view (`H`).
    pub fn move_to_screen_top(&mut self)
        requires
            old(self).inv(),
        ensures
            final(self).inv(),
            final(self).config == old(self).config,
            final(self).cursor_moved(old(self)),
            final(self).cursor_clamped_from(old(self).view_row(0) as usize, old(self).cursor_col),
    {
        let last = self.last_row_exec();
        let row = if self.scroll_offset < last { self.scroll_offset } else { last };
        let col = self.cursor_col;
        self.place_cursor(row, col);
    }

    /// Moves the cursor to the middle line of the view (`M`): half way down the lines of
    /// the buffer that the view shows.
    pub fn move_to_screen_middle(&mut self)
        requires
            old(self).inv(),
        ensures
            final(self).inv(),
            final(self).config == old(self).config,
            final(self).cursor_moved(old(self)),
            final(self).cursor_clamped_from(
                old(self).view_row(
                    sat_sub(min_int(old(self).visible_height as int, old(self).text().len() - old(self).scroll_offset), 1) / 2,
                ) as usize,
                old(self).cursor_col,
            ),
    {
        let last = self.last_row_exec();
        let n = self.lines.len();
        let shown = if self.scroll_offset >= n {
            0
        } else if self.visible_height < n - self.scroll_offset {
            self.visible_height
        } else {
            n - self.scroll_offset
        };
        let off = (if shown > 0 { shown - 1 } else { 0 }) / 2;
        let row = if self.scroll_offset >= last || off >= last - self.scroll_offset { last } else { self.scroll_offset + off };
        let col = self.cursor_col;
        self.place_cursor(row, col);
    }

    /// Moves the cursor to the bottom line of the view (`L`), at most the last line.
    pub fn move_to_screen_bottom(&mut self)
        requires
            old(self).inv(),
        ensures
            final(self).inv(),
            final(self).config == old(self).config,
            final(self).cursor_moved(old(self)),
            final(self).cursor_clamped_from(
                old(self).view_row(sat_sub(old(self).visible_height as int, 1)) as usize,
                old(self).cursor_col,
            ),
    {
        let last = self.last_row_exec();
        let off = if self.visible_height > 0 { self.visible_height - 1 } else { 0 };
        let row = if self.scroll_offset >= last || off >= last - self.scroll_offset { last } else { self.scroll_offset + off };
        let col = self.cursor_col;
        self.place_cursor(row, col);
    }

    /// Scrolls so that the cursor line is in the middle of the view (`zz`).
    pub fn scroll_center(&mut self)
        ensures
            *final(self) == (VimEditor {
                scroll_offset: sat_sub(old(self).cursor_row as int, old(self).visible_height as int / 2) as usize,
                ..*old(self)
            }),
    {
        let half = self.visible_height / 2;
        self.scroll_offset = if self.cursor_row >= half { self.cursor_row - half } else { 0 };
    }

    /// Scrolls so that the cursor line is at the top of the view (`zt`).
    pub fn scroll_top(&mut self)
        ensures
            *final(self) == (VimEditor { scroll_offset: old(self).cursor_row, ..*old(self) }),
    {
        self.scroll_offset = self.cursor_row;
    }

    /// Scrolls so that the cursor line is at the bottom of the view (`zb`).
    pub fn scroll_bottom(&mut self)
        requires
            old(self).wf(),
        ensures
            *final(self) == (VimEditor {
                scroll_offset: sat_sub(old(self).cursor_row + 1, old(self).visible_height as int) as usize,
                ..*old(self)
            }),
    {
        let n = self.lines.len();
        let below = self.cursor_row + 1;
        self.scroll_offset = if below >= self.visible_height { below - self.visible_height } else { 0 };
    }
}

} // verus!
