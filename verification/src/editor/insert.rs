//! The edits of Insert and Replace mode, and the repetition of the last insert (`.`).
use vstd::prelude::*;

use super::motions::{min_int, run_start, run_start_exec, sat_sub, CharClass};
use super::VimEditor;
use super::buffer::broken_line;
use crate::text::{extend_chars, leading_ws, slice_chars, spaces};
use crate::{Key, KeyCode, VimMode};

verus! {

/// The lines of `ed` after Enter in Insert mode: the cursor line is broken at the insertion
/// column, the new line starting with the leading whitespace of the old one.
pub open spec fn entered_text(ed: VimEditor) -> Seq<Seq<char>> {
    let parts = broken_line(ed.cur_line(), ed.insert_col());
    ed.text().update(ed.cursor_row as int, parts.0).insert(ed.cursor_row + 1, parts.1)
}

/// The column where `Ctrl-w` in Insert mode stops: back from the cursor over blanks, then
/// over one run of word characters or of punctuation.
pub open spec fn word_back_col(ed: VimEditor) -> int {
    let line = ed.cur_line();
    let c = min_int(ed.cursor_col as int, line.len() as int);
    run_start(line, run_start(line, c, CharClass::Space), CharClass::WordIs(false, true))
}

/// The lines of `ed` after `Ctrl-w` in Insert mode: the text between [`word_back_col`] and
/// the cursor goes; nothing changes at the first column.
pub open spec fn word_back_text(ed: VimEditor) -> Seq<Seq<char>> {
    let line = ed.cur_line();
    if ed.cursor_col > 0 {
        ed.text().update(
            ed.cursor_row as int,
            line.take(word_back_col(ed)) + line.skip(min_int(ed.cursor_col as int, line.len() as int)),
        )
    } else {
        ed.text()
    }
}

/// The lines of `ed` after `Ctrl-u` in Insert mode: the text before the cursor goes;
/// nothing changes at the first column.
pub open spec fn line_start_text(ed: VimEditor) -> Seq<Seq<char>> {
    let line = ed.cur_line();
    if ed.cursor_col > 0 {
        ed.text().update(ed.cursor_row as int, line.skip(min_int(ed.cursor_col as int, line.len() as int)))
    } else {
        ed.text()
    }
}

/// `b` is `a` after Up (`up`) or Down in Insert or Replace mode: the cursor goes one row
/// up or down, its column clamped to the new line; nothing moves at the first or the last
/// row.
pub open spec fn vertical_moved(a: VimEditor, b: VimEditor, up: bool) -> bool {
    if up && a.cursor_row > 0 {
        b.cursor_clamped_from((a.cursor_row - 1) as usize, a.cursor_col)
    } else if !up && a.cursor_row + 1 < a.text().len() {
        b.cursor_clamped_from((a.cursor_row + 1) as usize, a.cursor_col)
    } else {
        b.cursor_row == a.cursor_row && b.cursor_col == a.cursor_col
    }
}

/// The lines of `ed` after Backspace in Insert mode: the character before the insertion
/// column is removed, or at the start of a line the line is appended to the one above;
/// nothing changes at the start of the buffer.
pub open spec fn backspace_text(ed: VimEditor) -> Seq<Seq<char>> {
    let row = ed.cursor_row as int;
    if ed.cursor_col > 0 {
        if ed.insert_col() > 0 {
            ed.text().update(row, ed.cur_line().remove(ed.insert_col() - 1))
        } else {
            ed.text()
        }
    } else if row > 0 {
        ed.text().update(row - 1, ed.text()[row - 1] + ed.text()[row]).remove(row)
    } else {
        ed.text()
    }
}

/// The lines of `ed` after Delete in Insert mode: the character under the cursor is
/// removed (nothing off a character).
pub open spec fn delete_text(ed: VimEditor) -> Seq<Seq<char>> {
    if ed.on_char() {
        ed.text().update(ed.cursor_row as int, ed.cur_line().remove(ed.cursor_col as int))
    } else {
        ed.text()
    }
}

/// The lines of `ed` after `c` was typed in Replace mode: it takes the place of the
/// character under the cursor, or goes in at the insertion column off a character.
pub open spec fn replaced_text(ed: VimEditor, c: char) -> Seq<Seq<char>> {
    if ed.on_char() {
        ed.text().update(ed.cursor_row as int, ed.cur_line().update(ed.cursor_col as int, c))
    } else {
        ed.text().update(ed.cursor_row as int, ed.cur_line().insert(ed.insert_col(), c))
    }
}

/// The line and the cursor column after `c` was typed `n` times in Replace mode on `line`
/// from column `col`: each time the character under the cursor (if any) is removed, `c`
/// goes in at the cursor (at the end of the line past it), and the cursor moves after it.
pub open spec fn replace_times(line: Seq<char>, col: int, c: char, n: nat) -> (Seq<char>, int)
    decreases n,
{
    if n == 0 {
        (line, col)
    } else {
        let l1 = if 0 <= col < line.len() { line.remove(col) } else { line };
        let ic = min_int(col, l1.len() as int);
        replace_times(l1.insert(ic, c), ic + 1, c, (n - 1) as nat)
    }
}

/// `n + 1` typed characters are `n` and one more.
proof fn lemma_replace_times_step(line: Seq<char>, col: int, c: char, n: nat)
    ensures
        replace_times(line, col, c, n + 1) == replace_times(replace_times(line, col, c, n).0, replace_times(line, col, c, n).1, c, 1),
    decreases n,
{
    if n > 0 {
        let l1 = if 0 <= col < line.len() { line.remove(col) } else { line };
        let ic = min_int(col, l1.len() as int);
        lemma_replace_times_step(l1.insert(ic, c), ic + 1, c, (n - 1) as nat);
    }
}

/// The lines and the cursor (row, column) after `c` was typed in Insert mode.
pub open spec fn typed_step(t: Seq<Seq<char>>, row: usize, col: usize, c: char) -> (Seq<Seq<char>>, usize, usize) {
    if row < t.len() {
        let line = t[row as int];
        let ic = min_int(col as int, line.len() as int);
        (t.update(row as int, line.insert(ic, c)), row, (ic + 1) as usize)
    } else {
        (t, row, col)
    }
}

/// The lines and the cursor after `key` in Insert mode as `.` replays it: a character is
/// typed, Enter breaks the line, Backspace and Delete remove a character (Backspace at
/// the start of a line joins it to the one above), Tab types four spaces; other keys do
/// nothing.
pub open spec fn replay_step(t: Seq<Seq<char>>, row: usize, col: usize, key: Key) -> (Seq<Seq<char>>, usize, usize) {
    let line = if row < t.len() { t[row as int] } else { Seq::empty() };
    let ic = min_int(col as int, line.len() as int);
    match key.code {
        KeyCode::Char(c) => typed_step(t, row, col, c),
        KeyCode::Enter => if row < t.len() {
            let parts = broken_line(line, ic);
            (t.update(row as int, parts.0).insert(row + 1, parts.1), (row + 1) as usize, leading_ws(line) as usize)
        } else {
            (t, row, col)
        },
        KeyCode::Backspace => if col > 0 {
            if ic > 0 {
                (t.update(row as int, line.remove(ic - 1)), row, (ic - 1) as usize)
            } else {
                (t, row, col)
            }
        } else if row > 0 && row < t.len() {
            let above = t[row - 1];
            (t.update(row - 1, above + line).remove(row as int), (row - 1) as usize, above.len() as usize)
        } else {
            (t, row, col)
        },
        KeyCode::Delete => if row < t.len() && col < line.len() {
            (t.update(row as int, line.remove(col as int)), row, col)
        } else {
            (t, row, col)
        },
        KeyCode::Tab => {
            let s1 = typed_step(t, row, col, ' ');
            let s2 = typed_step(s1.0, s1.1, s1.2, ' ');
            let s3 = typed_step(s2.0, s2.1, s2.2, ' ');
            typed_step(s3.0, s3.1, s3.2, ' ')
        },
        _ => (t, row, col),
    }
}

/// The lines and the cursor after `keys` were replayed in Insert mode from (`row`, `col`).
pub open spec fn replay(t: Seq<Seq<char>>, row: usize, col: usize, keys: Seq<Key>) -> (Seq<Seq<char>>, usize, usize)
    decreases keys.len(),
{
    if keys.len() == 0 {
        (t, row, col)
    } else {
        let s = replay_step(t, row, col, keys[0]);
        replay(s.0, s.1, s.2, keys.drop_first())
    }
}

/// The lines of `ed` after Tab in Insert mode: four spaces go in at the insertion column.
pub open spec fn tabbed_text(ed: VimEditor) -> Seq<Seq<char>> {
    ed.text().update(ed.cursor_row as int, ed.cur_line().take(ed.insert_col()) + spaces(4) + ed.cur_line().skip(ed.insert_col()))
}

impl VimEditor {
    /// Insert `c` at the cursor, keeping the invariant.
    fn insert_char_inv(&mut self, c: char)
        requires
            old(self).inv(),
            old(self).visual_anchor is None,
        ensures
            final(self).inv(),
            final(self).config == old(self).config,
            final(self).visual_anchor is None,
            final(self).char_inserted(old(self), c),
            old(self).insert_col() < usize::MAX,
    {
        self.insert_char(c);
    }

    /// Break the line at the cursor, keeping the invariant.
    fn insert_newline_inv(&mut self)
        requires
            old(self).inv(),
            old(self).visual_anchor is None,
        ensures
            final(self).inv(),
            final(self).config == old(self).config,
            final(self).visual_anchor is None,
            final(self).newline_inserted(old(self)),
    {
        self.insert_newline();
    }

    /// Backspace, keeping the invariant.
    fn backspace_inv(&mut self)
        requires
            old(self).inv(),
            old(self).visual_anchor is None,
        ensures
            final(self).inv(),
            final(self).config == old(self).config,
            final(self).visual_anchor is None,
            final(self).backspaced(old(self)),
    {
        self.backspace();
    }

    /// Save the state for undo, keeping the invariant.
    fn save_undo_inv(&mut self)
        requires
            old(self).inv(),
        ensures
            final(self).inv(),
            final(self).config == old(self).config,
            final(self).saved_from(old(self)),
    {
        self.save_undo();
    }

    /// Leave Insert (or Replace) mode (Esc): the cursor steps back one column when it can,
    /// the recording of the edit stops, and the cursor is clamped for Normal mode.
    #[verifier::rlimit(30)]
    pub fn insert_escape(&mut self)
        requires
            old(self).inv(),
            old(self).visual_anchor is None,
        ensures
            final(self).inv(),
            final(self).config == old(self).config,
            final(self).visual_anchor is None,
            final(self).mode == VimMode::Normal,
            !final(self).is_recording,
            final(self).text() == old(self).text(),
            final(self).cursor_clamped_from(
                old(self).cursor_row,
                if old(self).cursor_col > 0 { (old(self).cursor_col - 1) as usize } else { 0 },
            ),
    {
        self.mode = VimMode::Normal;
        let col = if self.cursor_col > 0 { self.cursor_col - 1 } else { 0 };
        self.stop_recording();
        let row = self.cursor_row;
        self.place_cursor(row, col);
    }

    /// Delete the word before the cursor (`Ctrl-w`): the whitespace before it, then the
    /// word characters before that, saving the state for undo.
    pub fn delete_word_back(&mut self)
        requires
            old(self).inv(),
            old(self).visual_anchor is None,
        ensures
            final(self).inv(),
            final(self).config == old(self).config,
            final(self).visual_anchor is None,
            final(self).history_saved(old(self)),
            old(self).cursor_col > 0 ==> {
                let line = old(self).cur_line();
                let c = min_int(old(self).cursor_col as int, line.len() as int);
                let b = run_start(line, run_start(line, c, CharClass::Space), CharClass::WordIs(false, true));
                &&& final(self).text() == old(self).text().update(old(self).cursor_row as int, line.take(b) + line.skip(c))
                &&& final(self).cursor_col == b
                &&& final(self).cursor_row == old(self).cursor_row
                &&& final(self).modified
            },
            old(self).cursor_col == 0 ==> final(self).text() == old(self).text() && final(self).cursor_row == old(self).cursor_row
                && final(self).cursor_col == 0,
    {
        self.save_undo_inv();
        if self.cursor_col > 0 {
            let line = self.current_chars();
            let len = line.len();
            let c = if self.cursor_col < len { self.cursor_col } else { len };
            let a = run_start_exec(&line, c, CharClass::Space);
            let b = run_start_exec(&line, a, CharClass::WordIs(false, true));
            let mut out = slice_chars(&line, 0, b);
            let tail = slice_chars(&line, c, len);
            extend_chars(&mut out, &tail);
            assert(line@.subrange(0, b as int) =~= line@.take(b as int));
            assert(line@.subrange(c as int, len as int) =~= line@.skip(c as int));
            let row = self.cursor_row;
            self.set_line(row, &out);
            self.cursor_col = b;
            self.modified = true;
        }
    }

    /// Delete from the start of the line to the cursor (`Ctrl-u`), saving the state for
    /// undo.
    pub fn delete_to_line_start(&mut self)
        requires
            old(self).inv(),
            old(self).visual_anchor is None,
        ensures
            final(self).inv(),
            final(self).config == old(self).config,
            final(self).visual_anchor is None,
            final(self).history_saved(old(self)),
            old(self).cursor_col > 0 ==> {
                let line = old(self).cur_line();
                &&& final(self).text() == old(self).text().update(
                    old(self).cursor_row as int,
                    line.skip(min_int(old(self).cursor_col as int, line.len() as int)),
                )
                &&& final(self).cursor_col == 0
                &&& final(self).modified
            },
            final(self).cursor_row == old(self).cursor_row,
            old(self).cursor_col == 0 ==> final(self).text() == old(self).text() && final(self).cursor_col == 0,
    {
        self.save_undo_inv();
        if self.cursor_col > 0 {
            let line = self.current_chars();
            let len = line.len();
            let c = if self.cursor_col < len { self.cursor_col } else { len };
            let out = slice_chars(&line, c, len);
            assert(line@.subrange(c as int, len as int) =~= line@.skip(c as int));
            let row = self.cursor_row;
            self.set_line(row, &out);
            self.cursor_col = 0;
            self.modified = true;
        }
    }

    /// Break the line at the cursor (Enter), saving the state for undo.
    pub fn insert_enter(&mut self)
        requires
            old(self).inv(),
            old(self).visual_anchor is None,
        ensures
            final(self).inv(),
            final(self).config == old(self).config,
            final(self).visual_anchor is None,
            final(self).history_saved(old(self)),
            final(self).text() == entered_text(*old(self)),
            final(self).cursor_row == (old(self).cursor_row + 1) as usize,
            final(self).cursor_col == leading_ws(old(self).cur_line()) as usize,
    {
        self.save_undo_inv();
        let ghost mid = *self;
        self.insert_newline_inv();
        assert(mid.text() == old(self).text() && mid.cursor_row == old(self).cursor_row
            && mid.cursor_col == old(self).cursor_col);
    }

    /// Delete the character before the cursor (Backspace), saving the state for undo.
    pub fn insert_backspace(&mut self)
        requires
            old(self).inv(),
            old(self).visual_anchor is None,
        ensures
            final(self).inv(),
            final(self).config == old(self).config,
            final(self).visual_anchor is None,
            final(self).history_saved(old(self)),
            final(self).text() == backspace_text(*old(self)),
    {
        self.save_undo_inv();
        let ghost mid = *self;
        self.backspace_inv();
        assert(mid.text() == old(self).text() && mid.cursor_row == old(self).cursor_row
            && mid.cursor_col == old(self).cursor_col);
    }

    /// Delete the character under the cursor (Delete), saving the state for undo.
    pub fn insert_delete(&mut self)
        requires
            old(self).inv(),
            old(self).visual_anchor is None,
        ensures
            final(self).inv(),
            final(self).config == old(self).config,
            final(self).visual_anchor is None,
            final(self).text() == delete_text(*old(self)),
    {
        self.save_undo_inv();
        let ghost mid = *self;
        self.delete_char_inv();
        assert(mid.text() == old(self).text() && mid.cursor_row == old(self).cursor_row
            && mid.cursor_col == old(self).cursor_col);
    }

    /// Type `c` (Insert mode), saving the state for undo.
    pub fn insert_typed(&mut self, c: char)
        requires
            old(self).inv(),
            old(self).visual_anchor is None,
        ensures
            final(self).inv(),
            final(self).config == old(self).config,
            final(self).visual_anchor is None,
            final(self).history_saved(old(self)),
            old(self).cursor_row < old(self).text().len() ==> final(self).text() == old(self).text().update(
                old(self).cursor_row as int,
                old(self).cur_line().insert(old(self).insert_col(), c),
            ) && final(self).cursor_col == (old(self).insert_col() + 1) as usize,
            final(self).cursor_row == old(self).cursor_row,
    {
        self.save_undo_inv();
        let ghost mid = *self;
        assert(mid.text() == old(self).text() && mid.cursor_row == old(self).cursor_row && mid.cursor_col == old(self).cursor_col);
        self.insert_char_inv(c);
        assert(mid.insert_col() == old(self).insert_col());
    }

    /// Type four spaces (Tab in Insert mode), saving the state for undo.
    pub fn insert_tab(&mut self)
        requires
            old(self).inv(),
            old(self).visual_anchor is None,
        ensures
            final(self).inv(),
            final(self).config == old(self).config,
            final(self).visual_anchor is None,
            final(self).text() == tabbed_text(*old(self)),
    {
        self.save_undo_inv();
        let ghost t0 = old(self).text();
        let ghost row = old(self).cursor_row as int;
        let ghost line = old(self).cur_line();
        let ghost ic = old(self).insert_col();
        assert(line.take(ic) + spaces(0) + line.skip(ic) =~= line);
        assert(t0.update(row, line) =~= t0);
        let mut i: usize = 0;
        while i < 4
            invariant
                self.inv(),
                self.config == old(self).config,
                self.visual_anchor is None,
                i <= 4,
                0 <= row < t0.len(),
                line == t0[row],
                0 <= ic <= line.len(),
                self.cursor_row == row,
                self.insert_col() == ic + i,
                self.text() == t0.update(row, line.take(ic) + spaces(i as nat) + line.skip(ic)),
            decreases 4 - i,
        {
            let ghost before = self.cur_line();
            assert(before == line.take(ic) + spaces(i as nat) + line.skip(ic));
            self.insert_char_inv(' ');
            assert(before.insert(ic + i, ' ') =~= line.take(ic) + spaces((i + 1) as nat) + line.skip(ic));
            assert(self.text() =~= t0.update(row, line.take(ic) + spaces((i + 1) as nat) + line.skip(ic)));
            i = i + 1;
        }
    }

    /// Remove the character under the cursor, if any, without moving the cursor.
    fn remove_under_cursor(&mut self)
        requires
            old(self).inv(),
            old(self).visual_anchor is None,
        ensures
            final(self).inv(),
            final(self).config == old(self).config,
            final(self).visual_anchor is None,
            final(self).cursor_row == old(self).cursor_row,
            final(self).cursor_col == old(self).cursor_col,
            old(self).on_char() ==> final(self).text() == old(self).text().update(
                old(self).cursor_row as int,
                old(self).cur_line().remove(old(self).cursor_col as int),
            ),
            !old(self).on_char() ==> final(self).text() == old(self).text(),
    {
        let line = self.current_chars();
        let col = self.cursor_col;
        if col < line.len() {
            let mut out = slice_chars(&line, 0, col);
            let tail = slice_chars(&line, col + 1, line.len());
            extend_chars(&mut out, &tail);
            assert(out@ =~= line@.remove(col as int));
            let row = self.cursor_row;
            self.set_line(row, &out);
        }
    }

    /// Overwrite the character under the cursor with `c` (Replace mode; past the end of the
    /// line `c` is added), saving the state for undo.
    pub fn replace_typed(&mut self, c: char)
        requires
            old(self).inv(),
            old(self).visual_anchor is None,
        ensures
            final(self).inv(),
            final(self).config == old(self).config,
            final(self).visual_anchor is None,
            final(self).text() == replaced_text(*old(self), c),
            final(self).cursor_row == old(self).cursor_row,
            final(self).cursor_col == old(self).insert_col() + 1,
    {
        self.save_undo_inv();
        let ghost mid = *self;
        assert(mid.text() == old(self).text() && mid.cursor_row == old(self).cursor_row
            && mid.cursor_col == old(self).cursor_col);
        self.remove_under_cursor();
        let ghost mid2 = *self;
        self.insert_char_inv(c);
        proof {
            let line = old(self).cur_line();
            let col = old(self).cursor_col as int;
            if old(self).on_char() {
                assert(mid2.cur_line() == line.remove(col));
                assert(mid2.insert_col() == col);
                assert(line.remove(col).insert(col, c) =~= line.update(col, c));
                assert(self.text() =~= old(self).text().update(old(self).cursor_row as int, line.update(col, c)));
            } else {
                assert(mid2.cur_line() == line);
            }
            assert(mid2.insert_col() == old(self).insert_col());
        }
    }

    /// Overwrite four characters with spaces (Tab in Replace mode), saving the state for
    /// undo.
    pub fn replace_tab(&mut self)
        requires
            old(self).inv(),
            old(self).visual_anchor is None,
        ensures
            final(self).inv(),
            final(self).config == old(self).config,
            final(self).visual_anchor is None,
            final(self).text() == old(self).text().update(
                old(self).cursor_row as int,
                replace_times(old(self).cur_line(), old(self).cursor_col as int, ' ', 4).0,
            ),
    {
        self.save_undo_inv();
        let ghost t0 = old(self).text();
        let ghost row = old(self).cursor_row as int;
        let ghost line = old(self).cur_line();
        let ghost col = old(self).cursor_col as int;
        assert(t0.update(row, line) =~= t0);
        let mut i: usize = 0;
        while i < 4
            invariant
                self.inv(),
                self.config == old(self).config,
                self.visual_anchor is None,
                i <= 4,
                0 <= row < t0.len(),
                line == t0[row],
                self.cursor_row == row,
                self.cursor_col == replace_times(line, col, ' ', i as nat).1,
                self.text() == t0.update(row, replace_times(line, col, ' ', i as nat).0),
            decreases 4 - i,
        {
            proof {
                lemma_replace_times_step(line, col, ' ', i as nat);
                reveal_with_fuel(replace_times, 2);
            }
            let ghost l0 = self.cur_line();
            let ghost c0 = self.cursor_col as int;
            assert(l0 == replace_times(line, col, ' ', i as nat).0);
            self.remove_under_cursor();
            let ghost l1 = self.cur_line();
            assert(l1 == if 0 <= c0 < l0.len() { l0.remove(c0) } else { l0 });
            self.insert_char_inv(' ');
            assert(self.text() =~= t0.update(row, replace_times(line, col, ' ', (i + 1) as nat).0));
            i = i + 1;
        }
    }

    /// Moves the cursor in Insert or Replace mode with the Home, End and arrow keys: to the
    /// start or the end of the line, one column left or right (not past the end of the
    /// line), or one line up or down (clamped).
    #[verifier::rlimit(30)]
    pub fn insert_move(&mut self, code: KeyCode)
        requires
            old(self).inv(),
        ensures
            final(self).inv(),
            final(self).config == old(self).config,
            final(self).cursor_moved(old(self)),
            code == KeyCode::Home ==> final(self).cursor_row == old(self).cursor_row && final(self).cursor_col == 0,
            code == KeyCode::End ==> final(self).cursor_row == old(self).cursor_row && final(self).cursor_col == old(self).cur_len(),
            code == KeyCode::Left ==> final(self).cursor_row == old(self).cursor_row
                && final(self).cursor_col == sat_sub(old(self).cursor_col as int, 1),
            code == KeyCode::Right ==> final(self).cursor_row == old(self).cursor_row && final(self).cursor_col == if old(self).cursor_col
                < old(self).cur_len() {
                old(self).cursor_col + 1
            } else {
                old(self).cursor_col as int
            },
            code == KeyCode::Up ==> final(self).cursor_row == sat_sub(old(self).cursor_row as int, 1),
            code == KeyCode::Down ==> final(self).cursor_row == min_int(old(self).cursor_row + 1, old(self).text().len() - 1),
            code == KeyCode::Up || code == KeyCode::Down ==> vertical_moved(*old(self), *final(self), code == KeyCode::Up),
    {
        match code {
            KeyCode::Home => {
                self.cursor_col = 0;
            },
            KeyCode::End => {
                self.cursor_col = self.current_line_len();
            },
            KeyCode::Left => {
                if self.cursor_col > 0 {
                    self.cursor_col = self.cursor_col - 1;
                }
            },
            KeyCode::Right => {
                if self.cursor_col < self.current_line_len() {
                    self.cursor_col = self.cursor_col + 1;
                }
            },
            KeyCode::Up => {
                if self.cursor_row > 0 {
                    let (r, c) = (self.cursor_row - 1, self.cursor_col);
                    self.place_cursor(r, c);
                    proof {
                        reveal(super::clamp_row_of);
                    }
                }
            },
            KeyCode::Down => {
                let n = self.lines.len();
                if self.cursor_row + 1 < n {
                    let (r, c) = (self.cursor_row + 1, self.cursor_col);
                    self.place_cursor(r, c);
                    proof {
                        reveal(super::clamp_row_of);
                    }
                }
            },
            _ => {},
        }
    }

    /// Repeat the last recorded insert (`.`): its keys are typed again in Insert mode
    /// (characters, Enter, Backspace, Delete and Tab), saving the state for undo first;
    /// then the cursor steps back as when leaving Insert mode. Nothing happens without a
    /// recorded edit or when Insert mode is not allowed.
    pub fn repeat_last_edit(&mut self)
        requires
            old(self).inv(),
            old(self).visual_anchor is None,
        ensures
            final(self).inv(),
            final(self).config == old(self).config,
            final(self).visual_anchor is None,
            (!old(self).config.insert_allowed || old(self).last_edit is None) ==> *final(self) == *old(self),
            old(self).config.insert_allowed && old(self).last_edit is Some ==> final(self).mode == VimMode::Normal
                && final(self).undo_stack@.len() > old(self).undo_stack@.len()
                && final(self).text() == replay(
                    old(self).text(),
                    old(self).cursor_row,
                    old(self).cursor_col,
                    old(self).last_edit->0.keys@,
                ).0,
    {
        if !self.config.insert_allowed {
            return;
        }
        let keys: Vec<Key> = match &self.last_edit {
            Some(e) => {
                let mut out: Vec<Key> = Vec::new();
                let mut i: usize = 0;
                while i < e.keys.len()
                    invariant
                        i <= e.keys@.len(),
                        out@ == e.keys@.take(i as int),
                    decreases e.keys@.len() - i,
                {
                    out.push(e.keys[i]);
                    assert(e.keys@.take(i + 1) =~= e.keys@.take(i as int).push(e.keys@[i as int]));
                    i = i + 1;
                }
                assert(e.keys@.take(e.keys@.len() as int) =~= e.keys@);
                out
            },
            None => return,
        };
        self.save_undo_inv();
        self.mode = VimMode::Insert;
        let ghost saved = self.undo_stack@.len();
        let ghost start = (old(self).text(), old(self).cursor_row, old(self).cursor_col);
        assert(keys@.skip(0) =~= keys@);
        let mut i: usize = 0;
        while i < keys.len()
            invariant
                self.inv(),
                self.config == old(self).config,
                self.visual_anchor is None,
                self.mode == VimMode::Insert,
                self.undo_stack@.len() == saved,
                saved > old(self).undo_stack@.len(),
                i <= keys@.len(),
                replay(start.0, start.1, start.2, keys@) == replay(self.text(), self.cursor_row, self.cursor_col, keys@.skip(i as int)),
            decreases keys@.len() - i,
        {
            let ghost before = (self.text(), self.cursor_row, self.cursor_col);
            let key = keys[i];
            assert(keys@.skip(i as int)[0] == key);
            assert(keys@.skip(i as int).drop_first() =~= keys@.skip(i + 1));
            match key.code {
                KeyCode::Char(c) => self.insert_char_inv(c),
                KeyCode::Enter => self.insert_newline_inv(),
                KeyCode::Backspace => self.backspace_inv(),
                KeyCode::Delete => {
                    self.delete_char_inv();
                    proof {
                        reveal(super::clamp_col_of);
                        reveal(super::clamp_row_of);
                    }
                },
                KeyCode::Tab => {
                    self.insert_char_inv(' ');
                    self.insert_char_inv(' ');
                    self.insert_char_inv(' ');
                    self.insert_char_inv(' ');
                },
                _ => {},
            }
            assert((self.text(), self.cursor_row, self.cursor_col) == replay_step(before.0, before.1, before.2, key));
            i = i + 1;
        }
        assert(keys@.skip(keys@.len() as int) =~= Seq::<Key>::empty());
        self.mode = VimMode::Normal;
        let col = if self.cursor_col > 0 { self.cursor_col - 1 } else { 0 };
        let row = self.cursor_row;
        self.place_cursor(row, col);
    }
}

} // verus!
