//! Edits of the buffer: inserting and deleting characters and lines, pasting, joining,
//! indenting, and keeping the cursor in view.
use vstd::prelude::*;

use super::{clamp_col_of, clamp_row_of, VimEditor};
use crate::text::{
    chars_of, clone_lines, extend_chars, join_lines, join_with_newlines, leading_whitespace_len,
    leading_ws, push_lines, slice_chars, spaces, split_lines, std_lines, string_of,
};
use crate::{Register, VimMode, SCROLLOFF};

verus! {

/// The smaller of two integers.
pub open spec fn min(a: int, b: int) -> int {
    if a <= b {
        a
    } else {
        b
    }
}

/// The larger of two integers.
pub open spec fn max(a: int, b: int) -> int {
    if a >= b {
        a
    } else {
        b
    }
}

/// The two lines that breaking `line` at `col` gives: the part before, and the leading
/// whitespace of `line` followed by the part after.
pub open spec fn broken_line(line: Seq<char>, col: int) -> (Seq<char>, Seq<char>) {
    (line.take(col), line.take(leading_ws(line) as int) + line.skip(col))
}

/// `line` followed by `next` without its leading whitespace, with a space between the two
/// when both are non-empty.
pub open spec fn joined_line_of(line: Seq<char>, next: Seq<char>) -> Seq<char> {
    let trimmed = next.skip(leading_ws(next) as int);
    if line.len() > 0 && trimmed.len() > 0 {
        line + seq![' '] + trimmed
    } else {
        line + trimmed
    }
}

/// The lines of `text` without lines `start..end`: one empty line if none is left.
pub open spec fn lines_removed(text: Seq<Seq<char>>, start: int, end: int) -> Seq<Seq<char>> {
    let rest = text.take(start) + text.skip(end);
    if rest.len() == 0 {
        seq![Seq::<char>::empty()]
    } else {
        rest
    }
}

impl VimEditor {
    /// The column where an insertion on the cursor line happens: the cursor column, at most
    /// the length of the line.
    pub open spec fn insert_col(&self) -> int {
        min(self.cursor_col as int, self.cur_len() as int)
    }

    /// Whether `self` is `old` after `c` was inserted at the insertion column of the
    /// cursor line, the cursor after it. Past the last line nothing changes.
    pub open spec fn char_inserted(&self, old: &VimEditor, c: char) -> bool {
        if old.cursor_row < old.text().len() {
            &&& *self == VimEditor {
                lines: self.lines,
                cursor_col: (old.insert_col() + 1) as usize,
                modified: true,
                ..*old
            }
            &&& self.text() == old.text().update(
                old.cursor_row as int,
                old.cur_line().insert(old.insert_col(), c),
            )
        } else {
            *self == *old
        }
    }

    /// Whether `self` is `old` after its cursor line was broken at the insertion column:
    /// the new line below starts with the leading whitespace of the old line, and the
    /// cursor stands after it. Past the last line nothing changes.
    pub open spec fn newline_inserted(&self, old: &VimEditor) -> bool {
        if old.cursor_row < old.text().len() {
            let parts = broken_line(old.cur_line(), old.insert_col());
            &&& *self == VimEditor {
                lines: self.lines,
                cursor_row: (old.cursor_row + 1) as usize,
                cursor_col: leading_ws(old.cur_line()) as usize,
                modified: true,
                ..*old
            }
            &&& self.text() == old.text().update(old.cursor_row as int, parts.0).insert(
                old.cursor_row + 1,
                parts.1,
            )
        } else {
            *self == *old
        }
    }

    /// Whether `self` is `old` after a backspace: the character before the cursor removed,
    /// or at the start of a line the line appended to the one above.
    pub open spec fn backspaced(&self, old: &VimEditor) -> bool {
        let row = old.cursor_row as int;
        if old.cursor_col > 0 {
            if old.insert_col() > 0 {
                &&& *self == VimEditor {
                    lines: self.lines,
                    cursor_col: (old.insert_col() - 1) as usize,
                    modified: true,
                    ..*old
                }
                &&& self.text() == old.text().update(row, old.cur_line().remove(old.insert_col() - 1))
            } else {
                *self == *old
            }
        } else if old.cursor_row > 0 {
            let above = old.text()[row - 1];
            &&& *self == VimEditor {
                lines: self.lines,
                cursor_row: (row - 1) as usize,
                cursor_col: above.len() as usize,
                modified: true,
                ..*old
            }
            &&& self.text() == old.text().update(row - 1, above + old.text()[row]).remove(row)
        } else {
            *self == *old
        }
    }

    /// Whether `self` is `old` after the character under the cursor was removed into the
    /// register and the cursor clamped. Nothing changes when there is no such character.
    pub open spec fn char_deleted(&self, old: &VimEditor) -> bool {
        if old.cursor_row < old.text().len() && old.cursor_col < old.cur_len() {
            &&& *self == VimEditor {
                lines: self.lines,
                cursor_row: self.cursor_row,
                cursor_col: self.cursor_col,
                unnamed_register: self.unnamed_register,
                modified: true,
                ..*old
            }
            &&& self.cursor_clamped_from(old.cursor_row, old.cursor_col)
            &&& self.text() == old.text().update(
                old.cursor_row as int,
                old.cur_line().remove(old.cursor_col as int),
            )
            &&& self.register() == seq![old.cur_line()[old.cursor_col as int]]
            &&& !self.unnamed_register.linewise
        } else {
            *self == *old
        }
    }

    /// The end (exclusive) of the lines removed by deleting `count` lines from `start`.
    pub open spec fn lines_end(&self, start: int, count: int) -> int {
        min(start + count, self.text().len() as int)
    }

    /// The columns of line `row` that a deletion of `start_col..end_col` removes, each
    /// bound by the length of the line.
    pub open spec fn range_cols(&self, start_col: int, end_col: int, row: int) -> (int, int) {
        (
            min(start_col, self.line_len_spec(row) as int),
            min(end_col, self.line_len_spec(row) as int),
        )
    }

    /// Whether a deletion of `start_col..end_col` on line `row` removes anything.
    pub open spec fn range_nonempty(&self, start_col: int, end_col: int, row: int) -> bool {
        &&& 0 <= row < self.text().len()
        &&& self.range_cols(start_col, end_col, row).0 < self.range_cols(start_col, end_col, row).1
    }

    /// The text that a deletion of `start_col..end_col` on line `row` removes.
    pub open spec fn range_text(&self, start_col: int, end_col: int, row: int) -> Seq<char> {
        if self.range_nonempty(start_col, end_col, row) {
            let (s, e) = self.range_cols(start_col, end_col, row);
            self.text()[row].subrange(s, e)
        } else {
            Seq::<char>::empty()
        }
    }

    /// Whether `self` is `old` after columns `start_col..end_col` of line `row` were
    /// removed (nothing changes when none is removed).
    pub open spec fn range_deleted(&self, old: &VimEditor, start_col: int, end_col: int, row: int) -> bool {
        if old.range_nonempty(start_col, end_col, row) {
            let (s, e) = old.range_cols(start_col, end_col, row);
            &&& *self == VimEditor { lines: self.lines, modified: true, ..*old }
            &&& self.text() == old.text().update(row, old.text()[row].take(s) + old.text()[row].skip(e))
        } else {
            *self == *old
        }
    }

    /// Whether `self` is `old` after `p` (history aside): the register goes below the
    /// cursor line (linewise, split into lines), the cursor on the first pasted line; or
    /// after the cursor (characterwise), the cursor on the last pasted character.
    pub open spec fn pasted_after(&self, old: &VimEditor) -> bool {
        let base = VimEditor {
            lines: self.lines,
            cursor_row: self.cursor_row,
            cursor_col: self.cursor_col,
            undo_stack: self.undo_stack,
            redo_stack: self.redo_stack,
            modified: true,
            ..*old
        };
        &&& *self == base
        &&& if old.unnamed_register.linewise {
            let at = min(old.cursor_row + 1, old.text().len() as int);
            &&& self.text() == old.text().take(at) + std_lines(old.register()) + old.text().skip(at)
            &&& self.cursor_row == at
            &&& self.cursor_col == 0
        } else {
            let col = min(old.cursor_col + 1, old.cur_len() as int);
            let line = old.cur_line();
            &&& self.text() == old.text().update(
                old.cursor_row as int,
                line.take(col) + old.register() + line.skip(col),
            )
            &&& self.cursor_row == old.cursor_row
            &&& self.cursor_col == col + old.register().len() - 1
        }
    }

    /// Whether `self` is `old` after `P` (history aside): the register goes above the
    /// cursor line (linewise), the cursor column 0; or before the cursor (characterwise),
    /// the cursor on the last pasted character.
    pub open spec fn pasted_before(&self, old: &VimEditor) -> bool {
        let base = VimEditor {
            lines: self.lines,
            cursor_col: self.cursor_col,
            undo_stack: self.undo_stack,
            redo_stack: self.redo_stack,
            modified: true,
            ..*old
        };
        &&& *self == base
        &&& if old.unnamed_register.linewise {
            let at = old.cursor_row as int;
            &&& self.text() == old.text().take(at) + std_lines(old.register()) + old.text().skip(at)
            &&& self.cursor_col == 0
        } else {
            let col = old.insert_col();
            let line = old.cur_line();
            &&& self.text() == old.text().update(
                old.cursor_row as int,
                line.take(col) + old.register() + line.skip(col),
            )
            &&& self.cursor_col == col + old.register().len() - 1
        }
    }

    /// Whether `self` is `old` after the line below the cursor line was joined to it
    /// (history aside), the cursor at the join.
    pub open spec fn lines_joined(&self, old: &VimEditor) -> bool {
        let row = old.cursor_row as int;
        &&& *self == VimEditor {
            lines: self.lines,
            cursor_col: old.text()[row].len() as usize,
            undo_stack: self.undo_stack,
            redo_stack: self.redo_stack,
            modified: true,
            ..*old
        }
        &&& self.text() == old.text().update(row, joined_line_of(old.text()[row], old.text()[row + 1])).remove(
            row + 1,
        )
    }

    /// Whether `self` is `old` with four spaces put in front of line `row` (nothing changes
    /// past the last line).
    pub open spec fn line_indented(&self, old: &VimEditor, row: int) -> bool {
        if 0 <= row < old.text().len() {
            &&& *self == VimEditor { lines: self.lines, modified: true, ..*old }
            &&& self.text() == old.text().update(row, spaces(4) + old.text()[row])
        } else {
            *self == *old
        }
    }

    /// The number of leading whitespace characters that a dedent removes from line `row`.
    pub open spec fn dedent_width(&self, row: int) -> int {
        min(leading_ws(self.text()[row]) as int, 4)
    }

    /// Whether `self` is `old` with up to four leading whitespace characters of line `row`
    /// removed (nothing changes when there are none, or past the last line).
    pub open spec fn line_dedented(&self, old: &VimEditor, row: int) -> bool {
        if 0 <= row < old.text().len() && old.dedent_width(row) > 0 {
            &&& *self == VimEditor { lines: self.lines, modified: true, ..*old }
            &&& self.text() == old.text().update(row, old.text()[row].skip(old.dedent_width(row)))
        } else {
            *self == *old
        }
    }

    /// The number of lines kept between the cursor and the edge of the view.
    pub open spec fn scrolloff(&self) -> int {
        min(SCROLLOFF as int, self.visible_height as int / 2)
    }

    /// The scroll offset that keeps the cursor in view with [`Self::scrolloff`] lines of
    /// margin; the view may go past the last line (it is not pulled back).
    pub open spec fn visible_offset(&self) -> int {
        let so = self.scrolloff();
        let row = self.cursor_row as int;
        let h = self.visible_height as int;
        let o1 = if row < self.scroll_offset + so {
            max(row - so, 0)
        } else {
            self.scroll_offset as int
        };
        if row + so >= o1 + h {
            max(row + so + 1 - h, 0)
        } else {
            o1
        }
    }

    /// The cursor line with `c` inserted at the insertion column, and that column.
    fn line_with_char(&self, c: char) -> (r: (Vec<char>, usize))
        requires
            self.cursor_row < self.text().len(),
        ensures
            r.1 == self.insert_col(),
            r.0@ == self.cur_line().insert(r.1 as int, c),
            r.1 < usize::MAX,
    {
        let mut line = self.line_chars(self.cursor_row);
        let col = if self.cursor_col < line.len() { self.cursor_col } else { line.len() };
        line.insert(col, c);
        let n = line.len();
        (line, col)
    }

    /// Insert `c` at the cursor (at most at the end of the line) and put the cursor after it.
    pub fn insert_char(&mut self, c: char)
        ensures
            final(self).char_inserted(old(self), c),
            old(self).cursor_row < old(self).text().len() ==> old(self).insert_col() < usize::MAX,
    {
        if self.cursor_row < self.lines.len() {
            let (line, col) = self.line_with_char(c);
            self.set_line(self.cursor_row, &line);
            self.cursor_col = col + 1;
            self.modified = true;
        }
    }

    /// The lines of the buffer after the cursor line is broken at column `col`.
    fn lines_broken_at(&self, col: usize) -> (r: Vec<String>)
        requires
            self.cursor_row < self.text().len(),
            col <= self.cur_len(),
        ensures
            r.deep_view() == self.text().update(
                self.cursor_row as int,
                broken_line(self.cur_line(), col as int).0,
            ).insert(self.cursor_row + 1, broken_line(self.cur_line(), col as int).1),
    {
        let line = self.line_chars(self.cursor_row);
        let k = leading_whitespace_len(&line);
        proof {
            crate::text::lemma_leading_ws(line@);
        }
        let head = slice_chars(&line, 0, col);
        let mut rest = slice_chars(&line, 0, k);
        let tail = slice_chars(&line, col, line.len());
        extend_chars(&mut rest, &tail);
        assert(head@ =~= broken_line(line@, col as int).0);
        assert(rest@ =~= broken_line(line@, col as int).1);
        let mut out = clone_lines(&self.lines);
        out.set(self.cursor_row, string_of(&head));
        let n = out.len();
        out.insert(self.cursor_row + 1, string_of(&rest));
        assert(out.deep_view() =~= self.text().update(self.cursor_row as int, head@).insert(
            self.cursor_row + 1,
            rest@,
        ));
        out
    }

    /// Break the line at the cursor; the new line keeps the indentation of the old one.
    pub fn insert_newline(&mut self)
        ensures
            final(self).newline_inserted(old(self)),
    {
        if self.cursor_row < self.lines.len() {
            let line = self.current_chars();
            let col = if self.cursor_col < line.len() { self.cursor_col } else { line.len() };
            let indent_len = leading_whitespace_len(&line);
            let new_lines = self.lines_broken_at(col);
            self.lines = new_lines;
            self.cursor_row = self.cursor_row + 1;
            self.cursor_col = indent_len;
            self.modified = true;
        }
    }

    /// The lines of the buffer after line `row` is appended to the line above and removed.
    fn lines_joined_up(&self, row: usize) -> (r: Vec<String>)
        requires
            0 < row < self.text().len(),
        ensures
            r.deep_view() == self.text().update(
                row - 1,
                self.text()[row - 1] + self.text()[row as int],
            ).remove(row as int),
    {
        let current = self.line_chars(row);
        let mut above = self.line_chars(row - 1);
        extend_chars(&mut above, &current);
        let mut out = clone_lines(&self.lines);
        out.set(row - 1, string_of(&above));
        out.remove(row);
        assert(out.deep_view() =~= self.text().update(
            row - 1,
            self.text()[row - 1] + self.text()[row as int],
        ).remove(row as int));
        out
    }

    /// Remove the character before the insertion column of the cursor line.
    fn backspace_in_line(&mut self)
        requires
            old(self).wf(),
            old(self).insert_col() > 0,
        ensures
            *final(self) == (VimEditor {
                lines: final(self).lines,
                cursor_col: (old(self).insert_col() - 1) as usize,
                modified: true,
                ..*old(self)
            }),
            final(self).text() == old(self).text().update(
                old(self).cursor_row as int,
                old(self).cur_line().remove(old(self).insert_col() - 1),
            ),
    {
        let row = self.cursor_row;
        let mut line = self.line_chars(row);
        let col = if self.cursor_col < line.len() { self.cursor_col } else { line.len() };
        line.remove(col - 1);
        self.set_line(row, &line);
        self.cursor_col = col - 1;
        self.modified = true;
    }

    /// Append the cursor line to the line above and remove it.
    fn backspace_join_up(&mut self)
        requires
            old(self).wf(),
            old(self).cursor_row > 0,
        ensures
            *final(self) == (VimEditor {
                lines: final(self).lines,
                cursor_row: (old(self).cursor_row - 1) as usize,
                cursor_col: old(self).text()[old(self).cursor_row - 1].len() as usize,
                modified: true,
                ..*old(self)
            }),
            final(self).text() == old(self).text().update(
                old(self).cursor_row - 1,
                old(self).text()[old(self).cursor_row - 1] + old(self).text()[old(self).cursor_row as int],
            ).remove(old(self).cursor_row as int),
    {
        let row = self.cursor_row;
        let above_len = self.line_len(row - 1);
        let new_lines = self.lines_joined_up(row);
        self.lines = new_lines;
        self.cursor_row = row - 1;
        self.cursor_col = above_len;
        self.modified = true;
    }

    /// Delete the character before the cursor, or join the line with the one above at the
    /// start of a line.
    pub fn backspace(&mut self)
        requires
            old(self).wf(),
        ensures
            final(self).backspaced(old(self)),
    {
        if self.cursor_col > 0 {
            let len = self.current_line_len();
            if len > 0 {
                self.backspace_in_line();
            }
        } else if self.cursor_row > 0 {
            self.backspace_join_up();
        }
    }

    /// Delete the character under the cursor into the unnamed register.
    pub fn delete_char_at_cursor(&mut self)
        ensures
            final(self).char_deleted(old(self)),
    {
        if self.cursor_row < self.lines.len() {
            let mut line = self.line_chars(self.cursor_row);
            if self.cursor_col < line.len() {
                let ch = line.remove(self.cursor_col);
                let one = vec![ch];
                assert(one@ =~= seq![ch]);
                let content = string_of(&one);
                self.set_line(self.cursor_row, &line);
                self.unnamed_register = Register { content, linewise: false };
                self.modified = true;
                self.clamp_cursor();
            }
        }
    }

    /// The lines `start..end` of the buffer and the lines left without them.
    fn split_out_lines(&self, start: usize, end: usize) -> (r: (Vec<String>, Vec<String>))
        requires
            start <= end <= self.text().len(),
        ensures
            r.0.deep_view() == self.text().subrange(start as int, end as int),
            r.1.deep_view() == self.text().take(start as int) + self.text().skip(end as int),
    {
        let n = self.lines.len();
        let mut removed: Vec<String> = Vec::new();
        push_lines(&mut removed, &self.lines, start, end);
        let mut kept: Vec<String> = Vec::new();
        push_lines(&mut kept, &self.lines, 0, start);
        push_lines(&mut kept, &self.lines, end, n);
        assert(removed.deep_view() =~= self.text().subrange(start as int, end as int));
        assert(kept.deep_view() =~= self.text().take(start as int) + self.text().skip(end as int));
        (removed, kept)
    }

    /// The lines left after lines `start..end` are removed (one empty line if none is left),
    /// and the removed lines.
    fn lines_after_removal(&self, start: usize, end: usize) -> (r: (Vec<String>, Vec<String>))
        requires
            start <= end <= self.text().len(),
        ensures
            r.0.deep_view() == lines_removed(self.text(), start as int, end as int),
            r.1.deep_view() == self.text().subrange(start as int, end as int),
            r.0@.len() >= 1,
    {
        let (removed, mut kept) = self.split_out_lines(start, end);
        if kept.len() == 0 {
            kept.push(String::new());
            assert(kept.deep_view() =~= seq![Seq::<char>::empty()]);
        }
        (kept, removed)
    }

    /// Remove line `row` and return its text (None if there is no such line). An empty
    /// buffer keeps one empty line; the cursor is clamped.
    pub fn delete_line(&mut self, row: usize) -> (r: Option<String>)
        ensures
            row < old(self).text().len() ==> {
                &&& final(self).text() == lines_removed(old(self).text(), row as int, row + 1)
                &&& *final(self) == (VimEditor {
                    lines: final(self).lines,
                    cursor_row: final(self).cursor_row,
                    cursor_col: final(self).cursor_col,
                    modified: true,
                    ..*old(self)
                })
                &&& final(self).cursor_clamped_from(old(self).cursor_row, old(self).cursor_col)
                &&& r.is_some() && r.unwrap()@ == old(self).text()[row as int]
            },
            row >= old(self).text().len() ==> *final(self) == *old(self) && r.is_none(),
    {
        if row < self.lines.len() {
            let (kept, removed) = self.lines_after_removal(row, row + 1);
            assert(removed.deep_view().len() == 1);
            assert(removed@.len() == 1);
            let line = removed[0].clone();
            assert(line@ == removed.deep_view()[0]);
            self.lines = kept;
            self.modified = true;
            self.clamp_cursor();
            Some(line)
        } else {
            None
        }
    }

    /// The cursor position that clamping (`row`, `col`) gives over `lines` in `mode`.
    fn clamped_in(lines: &Vec<String>, row: usize, col: usize, mode: VimMode) -> (r: (usize, usize))
        requires
            row < lines@.len(),
        ensures
            r.0 == clamp_row_of(lines.deep_view(), row),
            r.1 == clamp_col_of(lines.deep_view(), row as int, col, mode),
    {
        reveal(clamp_col_of);
        reveal(clamp_row_of);
        let len = chars_of(lines[row].as_str()).len();
        let max_col = match mode {
            VimMode::Insert | VimMode::Replace => len,
            _ => if len > 0 { len - 1 } else { 0 },
        };
        let c = if col > max_col { max_col } else { col };
        (row, c)
    }

    /// Remove `count` lines from `start` (fewer at the end of the buffer) and return them
    /// joined with `\n`. An empty buffer keeps one empty line; the cursor row stays on a
    /// line and the cursor is clamped.
    pub fn delete_lines(&mut self, start: usize, count: usize) -> (r: String)
        requires
            start <= old(self).text().len(),
            start + count <= usize::MAX,
        ensures
            final(self).text() == lines_removed(old(self).text(), start as int, old(self).lines_end(start as int, count as int)),
            *final(self) == (VimEditor {
                lines: final(self).lines,
                cursor_row: final(self).cursor_row,
                cursor_col: final(self).cursor_col,
                modified: true,
                ..*old(self)
            }),
            final(self).cursor_clamped_from(
                if old(self).cursor_row >= final(self).text().len() {
                    (final(self).text().len() - 1) as usize
                } else {
                    old(self).cursor_row
                },
                old(self).cursor_col,
            ),
            r@ == join_lines(
                old(self).text().subrange(start as int, old(self).lines_end(start as int, count as int)),
            ),
    {
        let end = if start + count < self.lines.len() { start + count } else { self.lines.len() };
        let (kept, removed) = self.lines_after_removal(start, end);
        let text = join_with_newlines(&removed);
        let n = kept.len();
        let row = if self.cursor_row >= n { n - 1 } else { self.cursor_row };
        let (r, c) = Self::clamped_in(&kept, row, self.cursor_col, self.mode);
        self.lines = kept;
        self.cursor_row = r;
        self.cursor_col = c;
        self.modified = true;
        text
    }

    /// The line `row` without columns `s..e`, and the removed columns.
    fn line_without(&self, s: usize, e: usize, row: usize) -> (r: (Vec<char>, Vec<char>))
        requires
            row < self.text().len(),
            s <= e <= self.text()[row as int].len(),
        ensures
            r.0@ == self.text()[row as int].take(s as int) + self.text()[row as int].skip(e as int),
            r.1@ == self.text()[row as int].subrange(s as int, e as int),
    {
        let line = self.line_chars(row);
        let removed = slice_chars(&line, s, e);
        let mut kept = slice_chars(&line, 0, s);
        let tail = slice_chars(&line, e, line.len());
        extend_chars(&mut kept, &tail);
        assert(kept@ =~= line@.take(s as int) + line@.skip(e as int));
        (kept, removed)
    }

    /// Remove columns `start_col..end_col` (bound by the line length) of line `row` and
    /// return the removed text.
    #[verifier::spinoff_prover]
    pub fn delete_range(&mut self, start_col: usize, end_col: usize, row: usize) -> (r: String)
        ensures
            final(self).range_deleted(old(self), start_col as int, end_col as int, row as int),
            r@ == old(self).range_text(start_col as int, end_col as int, row as int),
    {
        if row >= self.lines.len() {
            return String::new();
        }
        let line_len = self.line_len(row);
        let s = if start_col < line_len { start_col } else { line_len };
        let e = if end_col < line_len { end_col } else { line_len };
        if s >= e {
            return String::new();
        }
        let (kept, removed) = self.line_without(s, e, row);
        self.set_line(row, &kept);
        self.modified = true;
        string_of(&removed)
    }

    /// The characters of the unnamed register.
    pub fn register_chars(&self) -> (r: Vec<char>)
        ensures
            r@ == self.register(),
    {
        chars_of(self.unnamed_register.content.as_str())
    }

    /// The buffer lines with `new_lines` inserted before line `at`.
    fn lines_with_inserted(&self, at: usize, new_lines: &Vec<String>) -> (r: Vec<String>)
        requires
            at <= self.text().len(),
        ensures
            r.deep_view() == self.text().take(at as int) + new_lines.deep_view() + self.text().skip(
                at as int,
            ),
    {
        let n = self.lines.len();
        let m = new_lines.len();
        let mut out: Vec<String> = Vec::new();
        push_lines(&mut out, &self.lines, 0, at);
        push_lines(&mut out, new_lines, 0, m);
        push_lines(&mut out, &self.lines, at, n);
        assert(out.deep_view() =~= self.text().take(at as int) + new_lines.deep_view()
            + self.text().skip(at as int));
        out
    }

    /// `line` with `ins` inserted at `col`.
    fn chars_with_inserted(line: &Vec<char>, col: usize, ins: &Vec<char>) -> (r: Vec<char>)
        requires
            col <= line@.len(),
        ensures
            r@ == line@.take(col as int) + ins@ + line@.skip(col as int),
    {
        let mut out = slice_chars(line, 0, col);
        extend_chars(&mut out, ins);
        let tail = slice_chars(line, col, line.len());
        extend_chars(&mut out, &tail);
        assert(line@.subrange(0, col as int) =~= line@.take(col as int));
        assert(line@.subrange(col as int, line@.len() as int) =~= line@.skip(col as int));
        out
    }

    /// The cursor line with the characters `reg` inserted at `col`, and the column of the
    /// last inserted character.
    fn line_with_register(&self, col: usize, reg: &Vec<char>) -> (r: (Vec<char>, usize))
        requires
            self.cursor_row < self.text().len(),
            col <= self.cur_len(),
            reg@.len() > 0,
        ensures
            r.0@ == self.cur_line().take(col as int) + reg@ + self.cur_line().skip(col as int),
            r.1 == col + reg@.len() - 1,
    {
        let line = self.line_chars(self.cursor_row);
        let new_line = Self::chars_with_inserted(&line, col, reg);
        let n = new_line.len();
        (new_line, col + reg.len() - 1)
    }

    /// Paste the register characters `reg` characterwise at column `col` of the cursor line,
    /// saving for undo first; the cursor goes on the last pasted character.
    fn paste_chars_at(&mut self, col: usize, reg: &Vec<char>)
        requires
            old(self).wf(),
            col <= old(self).cur_len(),
            reg@.len() > 0,
        ensures
            *final(self) == (VimEditor {
                lines: final(self).lines,
                cursor_col: (col + reg@.len() - 1) as usize,
                undo_stack: final(self).undo_stack,
                redo_stack: final(self).redo_stack,
                modified: true,
                ..*old(self)
            }),
            final(self).text() == old(self).text().update(
                old(self).cursor_row as int,
                old(self).cur_line().take(col as int) + reg@ + old(self).cur_line().skip(col as int),
            ),
            final(self).history_saved(old(self)),
            final(self).cursor_col == col + reg@.len() - 1,
    {
        let (new_line, last) = self.line_with_register(col, reg);
        self.save_undo();
        self.set_line(self.cursor_row, &new_line);
        self.cursor_col = last;
        self.modified = true;
    }

    /// Paste the register characters `reg` as lines before line `at`, saving for undo first;
    /// the cursor goes to column 0 of row `row`.
    fn paste_lines_at(&mut self, at: usize, row: usize, reg: &Vec<char>)
        requires
            at <= old(self).text().len(),
        ensures
            *final(self) == (VimEditor {
                lines: final(self).lines,
                cursor_row: row,
                cursor_col: 0,
                undo_stack: final(self).undo_stack,
                redo_stack: final(self).redo_stack,
                modified: true,
                ..*old(self)
            }),
            final(self).text() == old(self).text().take(at as int) + std_lines(reg@) + old(self).text().skip(
                at as int,
            ),
            final(self).history_saved(old(self)),
    {
        let new_lines = split_lines(reg);
        let all = self.lines_with_inserted(at, &new_lines);
        self.save_undo();
        self.lines = all;
        self.cursor_row = row;
        self.cursor_col = 0;
        self.modified = true;
    }

    /// Paste the unnamed register after the cursor (`p`). An empty register pastes nothing;
    /// otherwise the state is saved for undo first.
    #[verifier::spinoff_prover]
    pub fn paste_after(&mut self)
        requires
            old(self).wf(),
        ensures
            old(self).register().len() == 0 ==> *final(self) == *old(self),
            old(self).register().len() > 0 ==> final(self).pasted_after(old(self))
                && final(self).history_saved(old(self)),
    {
        let reg = self.register_chars();
        if reg.len() == 0 {
            return;
        }
        if self.unnamed_register.linewise {
            proof {
                crate::text::lemma_std_lines_nonempty(reg@);
            }
            let at = if self.cursor_row < self.lines.len() - 1 {
                self.cursor_row + 1
            } else {
                self.lines.len()
            };
            self.paste_lines_at(at, at, &reg);
        } else {
            let len = self.current_line_len();
            let col = if self.cursor_col < len { self.cursor_col + 1 } else { len };
            self.paste_chars_at(col, &reg);
        }
    }

    /// Paste the unnamed register before the cursor (`P`). An empty register pastes
    /// nothing; otherwise the state is saved for undo first.
    pub fn paste_before(&mut self)
        requires
            old(self).wf(),
        ensures
            old(self).register().len() == 0 ==> *final(self) == *old(self),
            old(self).register().len() > 0 ==> final(self).pasted_before(old(self))
                && final(self).history_saved(old(self)),
    {
        let reg = self.register_chars();
        if reg.len() == 0 {
            return;
        }
        if self.unnamed_register.linewise {
            let row = self.cursor_row;
            self.paste_lines_at(row, row, &reg);
            proof {
                crate::text::lemma_std_lines_nonempty(reg@);
            }
        } else {
            let len = self.current_line_len();
            let col = if self.cursor_col < len { self.cursor_col } else { len };
            self.paste_chars_at(col, &reg);
        }
    }

    /// The lines of the buffer after the cursor line is joined with the next one.
    fn lines_joined_down(&self) -> (r: Vec<String>)
        requires
            self.cursor_row + 1 < self.text().len(),
        ensures
            r.deep_view() == self.text().update(
                self.cursor_row as int,
                joined_line_of(self.text()[self.cursor_row as int], self.text()[self.cursor_row + 1]),
            ).remove(self.cursor_row + 1),
    {
        let row = self.cursor_row;
        let n = self.lines.len();
        let mut line = self.line_chars(row);
        let next = self.line_chars(row + 1);
        let k = leading_whitespace_len(&next);
        proof {
            crate::text::lemma_leading_ws(next@);
        }
        let trimmed = slice_chars(&next, k, next.len());
        assert(trimmed@ =~= next@.skip(k as int));
        if line.len() > 0 && trimmed.len() > 0 {
            line.push(' ');
        }
        extend_chars(&mut line, &trimmed);
        assert(line@ =~= joined_line_of(self.text()[row as int], next@));
        let mut out = clone_lines(&self.lines);
        out.set(row, string_of(&line));
        out.remove(row + 1);
        assert(out.deep_view() =~= self.text().update(
            row as int,
            joined_line_of(self.text()[row as int], self.text()[row + 1]),
        ).remove(row + 1));
        out
    }

    /// Join the line below to the cursor line (`J`), saving the state for undo first.
    /// Nothing happens on the last line.
    pub fn join_lines(&mut self)
        requires
            old(self).wf(),
        ensures
            old(self).cursor_row + 1 < old(self).text().len() ==> final(self).lines_joined(old(self))
                && final(self).history_saved(old(self)),
            old(self).cursor_row + 1 >= old(self).text().len() ==> *final(self) == *old(self),
    {
        if self.cursor_row < self.lines.len() - 1 {
            let all = self.lines_joined_down();
            let col = self.current_line_len();
            self.save_undo();
            self.lines = all;
            self.cursor_col = col;
            self.modified = true;
        }
    }

    /// Line `row` with four spaces in front.
    fn indented_line(&self, row: usize) -> (r: Vec<char>)
        requires
            row < self.text().len(),
        ensures
            r@ == spaces(4) + self.text()[row as int],
    {
        let line = self.line_chars(row);
        let mut out: Vec<char> = vec![' ', ' ', ' ', ' '];
        assert(out@ =~= spaces(4));
        extend_chars(&mut out, &line);
        out
    }

    /// Put four spaces in front of line `row`.
    pub fn indent_line(&mut self, row: usize)
        ensures
            final(self).line_indented(old(self), row as int),
    {
        if row < self.lines.len() {
            let out = self.indented_line(row);
            self.set_line(row, &out);
            self.modified = true;
        }
    }

    /// Line `row` without up to four leading whitespace characters, and how many went.
    fn dedented_line(&self, row: usize) -> (r: (Vec<char>, usize))
        requires
            row < self.text().len(),
        ensures
            r.1 == self.dedent_width(row as int),
            r.0@ == self.text()[row as int].skip(r.1 as int),
    {
        let line = self.line_chars(row);
        let spaces = leading_whitespace_len(&line);
        proof {
            crate::text::lemma_leading_ws(line@);
        }
        let remove = if spaces < 4 { spaces } else { 4 };
        let rest = slice_chars(&line, remove, line.len());
        assert(rest@ =~= line@.skip(remove as int));
        (rest, remove)
    }

    /// Remove up to four leading whitespace characters of line `row`.
    pub fn dedent_line(&mut self, row: usize)
        ensures
            final(self).line_dedented(old(self), row as int),
    {
        if row < self.lines.len() {
            let (rest, remove) = self.dedented_line(row);
            if remove > 0 {
                self.set_line(row, &rest);
                self.modified = true;
            }
        }
    }

    /// Get effective count: the pending count or 1. The pending count is cleared.
    pub fn take_count(&mut self) -> (r: usize)
        ensures
            r == match old(self).pending_count {
                Some(n) => n,
                None => 1,
            },
            *final(self) == (VimEditor { pending_count: None, ..*old(self) }),
    {
        let r = match self.pending_count {
            Some(n) => n,
            None => 1,
        };
        self.pending_count = None;
        r
    }

    /// The scroll offset that keeps the cursor visible (see [`Self::visible_offset`]).
    fn visible_offset_exec(&self) -> (r: usize)
        requires
            self.wf(),
        ensures
            r == self.visible_offset(),
    {
        let half = self.visible_height / 2;
        let so = if SCROLLOFF < half { SCROLLOFF } else { half };
        let row = self.cursor_row;
        let h = self.visible_height;
        let mut off = self.scroll_offset;
        if (row as u128) < (off as u128) + (so as u128) {
            off = if row >= so { row - so } else { 0 };
        }
        if (row as u128) + (so as u128) >= (off as u128) + (h as u128) {
            let t = (row as u128) + (so as u128) + 1;
            let n = self.lines.len();
            assert(self.lines.deep_view().len() == self.lines@.len());
            assert(row < n);
            assert(so <= h);
            assert(t - h <= row + 1);
            off = if t >= h as u128 { (t - h as u128) as usize } else { 0 };
        }
        off
    }

    /// Ensure scroll keeps cursor visible with scrolloff.
    pub fn ensure_cursor_visible(&mut self)
        requires
            old(self).wf(),
        ensures
            *final(self) == (VimEditor { scroll_offset: old(self).visible_offset() as usize, ..*old(self) }),
    {
        self.scroll_offset = self.visible_offset_exec();
    }
}

} // verus!
