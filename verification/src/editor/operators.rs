//! Operators over the ranges of motions: delete, yank, change, indent, dedent and case
//! changes, and the single-character commands `~` and `r`.
use vstd::prelude::*;

use super::motions::{min_int, motion_range, needs_char, sat_sub, Motion};
use super::{clamp_col_of, VimEditor};
use crate::text::{
    chars_of, extend_chars, is_uppercase, join_lines, join_with_newlines, leading_ws, push_lines,
    slice_chars, spaces, string_of, uppercase_char, lower_char, upper_char, char_to_lowercase,
    char_to_uppercase, lowercase_of, uppercase_of, to_lowercase, to_uppercase, lines_survive_join,
    lemma_buffer_lines_of_join, lemma_join_free_of, lemma_expand_tabs_id, std_lines,
};
use crate::{Operator, Register, VimMode, YankHighlight};

verus! {

/// The lines of `ls`, each followed by `\n`.
pub open spec fn lines_nl(ls: Seq<Seq<char>>) -> Seq<char>
    decreases ls.len(),
{
    if ls.len() == 0 {
        Seq::<char>::empty()
    } else {
        lines_nl(ls.drop_last()) + ls.last() + seq!['\n']
    }
}

/// The text that a characterwise operation covers from (`sr`, `sc`) to (`er`, `ec`) on
/// different rows: the rest of the first row from `sc`, a newline, every row in between
/// followed by a newline, and the last row up to `ec`.
pub open spec fn span_text(text: Seq<Seq<char>>, sr: int, sc: int, er: int, ec: int) -> Seq<char> {
    let first = text[sr];
    let last = text[er];
    let head = if sc < first.len() { first.skip(sc) } else { Seq::<char>::empty() };
    head + seq!['\n'] + lines_nl(text.subrange(sr + 1, er)) + last.take(min_int(ec, last.len() as int))
}

/// The lines once the characterwise span from (`sr`, `sc`) to (`er`, `ec`) on different
/// rows is cut out: the first row up to `sc` joined with the last row from `ec`.
pub open spec fn span_cut(text: Seq<Seq<char>>, sr: int, sc: int, er: int, ec: int) -> Seq<Seq<char>> {
    let first = text[sr];
    let last = text[er];
    let tail = if ec <= last.len() { last.skip(ec) } else { Seq::<char>::empty() };
    text.take(sr) + seq![first.take(min_int(sc, first.len() as int)) + tail] + text.skip(er + 1)
}

/// Appends `v` and a newline to `out`.
fn push_line_nl(out: &mut Vec<char>, v: &Vec<char>)
    ensures
        final(out)@ == old(out)@ + v@ + seq!['\n'],
{
    extend_chars(out, v);
    out.push('\n');
}

impl VimEditor {
    /// The characters of rows `from..to`, each followed by a newline.
    fn rows_nl(&self, from: usize, to: usize) -> (r: Vec<char>)
        requires
            from <= to <= self.text().len(),
        ensures
            r@ == lines_nl(self.text().subrange(from as int, to as int)),
    {
        let mut out: Vec<char> = Vec::new();
        let mut i = from;
        while i < to
            invariant
                from <= i <= to <= self.text().len(),
                out@ == lines_nl(self.text().subrange(from as int, i as int)),
            decreases to - i,
        {
            let line = self.line_chars(i);
            push_line_nl(&mut out, &line);
            assert(self.text().subrange(from as int, i + 1).drop_last() =~= self.text().subrange(from as int, i as int));
            i = i + 1;
        }
        out
    }

    /// The text of the characterwise span from (`sr`, `sc`) to (`er`, `ec`), and the
    /// lines with it cut out.
    pub(crate) fn span_parts(&self, sr: usize, sc: usize, er: usize, ec: usize) -> (r: (Vec<String>, Vec<char>))
        requires
            sr < er < self.text().len(),
        ensures
            r.0.deep_view() == span_cut(self.text(), sr as int, sc as int, er as int, ec as int),
            r.1@ == span_text(self.text(), sr as int, sc as int, er as int, ec as int),
    {
        let first = self.line_chars(sr);
        let last = self.line_chars(er);
        let mut reg = if sc < first.len() { slice_chars(&first, sc, first.len()) } else { Vec::new() };
        reg.push('\n');
        let middle = self.rows_nl(sr + 1, er);
        extend_chars(&mut reg, &middle);
        let e = if ec < last.len() { ec } else { last.len() };
        let last_part = slice_chars(&last, 0, e);
        extend_chars(&mut reg, &last_part);
        let s = if sc < first.len() { sc } else { first.len() };
        let mut joined = slice_chars(&first, 0, s);
        if ec <= last.len() {
            let tail = slice_chars(&last, ec, last.len());
            extend_chars(&mut joined, &tail);
        }
        let mut lines: Vec<String> = Vec::new();
        push_lines(&mut lines, &self.lines, 0, sr);
        lines.push(string_of(&joined));
        let n = self.lines.len();
        push_lines(&mut lines, &self.lines, er + 1, n);
        proof {
            let t = self.text();
            assert(first@.subrange(sc as int, first@.len() as int) =~= first@.skip(sc as int));
            assert(last@.subrange(0, e as int) =~= last@.take(e as int));
            assert(first@.subrange(0, s as int) =~= first@.take(s as int));
            assert(last@.subrange(ec as int, last@.len() as int) =~= last@.skip(ec as int));
            assert(lines.deep_view() =~= span_cut(t, sr as int, sc as int, er as int, ec as int));
        }
        (lines, reg)
    }

    /// Whether `self` is `old` with the register set to `text` (characterwise unless
    /// `linewise`) and the same text handed to the system clipboard.
    pub open spec fn register_set(&self, old: &VimEditor, text: Seq<char>, linewise: bool) -> bool {
        &&& self.register() == text
        &&& self.unnamed_register.linewise == linewise
        &&& self.clipboard_out matches Some(c) && c@ == text
    }

    /// Sets the register and hands its text to the system clipboard.
    pub(crate) fn set_register(&mut self, text: String, linewise: bool)
        ensures
            *final(self) == (VimEditor {
                unnamed_register: final(self).unnamed_register,
                clipboard_out: final(self).clipboard_out,
                ..*old(self)
            }),
            final(self).register_set(old(self), text@, linewise),
    {
        let copy = text.clone();
        self.unnamed_register = Register { content: text, linewise };
        self.copy_to_system_clipboard(copy);
    }

    /// Hands `text` to the system clipboard: it is kept for the embedding program to write.
    pub fn copy_to_system_clipboard(&mut self, text: String)
        ensures
            *final(self) == (VimEditor { clipboard_out: Some(text), ..*old(self) }),
    {
        self.clipboard_out = Some(text);
    }

    /// Cuts the characterwise span from (`sr`, `sc`) to (`er`, `ec`) on different rows into
    /// the register.
    fn cut_span(&mut self, sr: usize, sc: usize, er: usize, ec: usize)
        requires
            sr < er < old(self).text().len(),
        ensures
            *final(self) == (VimEditor {
                lines: final(self).lines,
                cursor_row: final(self).cursor_row,
                cursor_col: final(self).cursor_col,
                unnamed_register: final(self).unnamed_register,
                clipboard_out: final(self).clipboard_out,
                modified: true,
                ..*old(self)
            }),
            final(self).text() == span_cut(old(self).text(), sr as int, sc as int, er as int, ec as int),
            final(self).register_set(old(self), span_text(old(self).text(), sr as int, sc as int, er as int, ec as int), false),
            final(self).cursor_clamped_from(sr, sc),
    {
        let (lines, reg) = self.span_parts(sr, sc, er, ec);
        self.lines = lines;
        self.modified = true;
        self.set_register(string_of(&reg), false);
        self.set_cursor_clamped(sr, sc);
    }
}


/// `line` from `s` to `e`, each bound by the length; empty when the range is reversed.
pub open spec fn row_slice(line: Seq<char>, s: int, e: int) -> Seq<char> {
    let a = min_int(s, line.len() as int);
    let b = min_int(e, line.len() as int);
    if a <= b {
        line.subrange(a, b)
    } else {
        Seq::<char>::empty()
    }
}

/// The columns `s..e` of `line` bound by its length, as executable values.
fn bounded_cols(len: usize, s: usize, e: usize) -> (r: (usize, usize))
    ensures
        r.0 == min_int(s as int, len as int),
        r.1 == min_int(e as int, len as int),
{
    (if s < len { s } else { len }, if e < len { e } else { len })
}

impl VimEditor {
    /// The text that yanking from (`sr`, `sc`) to (`er`, `ec`) takes: whole lines
    /// `sr..=er` joined with newlines when `linewise`, the columns `sc..ec` of the row
    /// when the range is on one row, the characterwise span otherwise.
    pub open spec fn yank_text(&self, sr: int, sc: int, er: int, ec: int, linewise: bool) -> Seq<char> {
        if linewise {
            join_lines(self.text().subrange(sr, min_int(er, self.text().len() - 1) + 1))
        } else if sr == er {
            row_slice(self.text()[sr], sc, ec)
        } else {
            span_text(self.text(), sr, sc, er, ec)
        }
    }

    /// Executable form of [`Self::yank_text`].
    fn yank_text_exec(&self, sr: usize, sc: usize, er: usize, ec: usize, linewise: bool) -> (r: String)
        requires
            sr <= er < self.text().len(),
        ensures
            r@ == self.yank_text(sr as int, sc as int, er as int, ec as int, linewise),
    {
        let n = self.lines.len();
        if linewise {
            let mut rows: Vec<String> = Vec::new();
            push_lines(&mut rows, &self.lines, sr, er + 1);
            assert(rows.deep_view() =~= self.text().subrange(sr as int, er + 1));
            join_with_newlines(&rows)
        } else if sr == er {
            let line = self.line_chars(sr);
            let (a, b) = bounded_cols(line.len(), sc, ec);
            if a <= b {
                string_of(&slice_chars(&line, a, b))
            } else {
                String::new()
            }
        } else {
            let (_, reg) = self.span_parts(sr, sc, er, ec);
            string_of(&reg)
        }
    }

    /// Yank from (`sr`, `sc`) to (`er`, `ec`) into the register (and the system
    /// clipboard), and flash the yanked range.
    pub fn op_yank(&mut self, sr: usize, sc: usize, er: usize, ec: usize, linewise: bool)
        requires
            sr <= er < old(self).text().len(),
        ensures
            *final(self) == (VimEditor {
                unnamed_register: final(self).unnamed_register,
                clipboard_out: final(self).clipboard_out,
                yank_highlight: final(self).yank_highlight,
                ..*old(self)
            }),
            final(self).register_set(old(self), old(self).yank_text(sr as int, sc as int, er as int, ec as int, linewise), linewise),
            final(self).yank_highlight matches Some(h) && h.start_row == sr && h.start_col == sc && h.end_row == er
                && h.end_col == ec && h.linewise == linewise,
    {
        let text = self.yank_text_exec(sr, sc, er, ec, linewise);
        self.set_register(text, linewise);
        self.yank_highlight = Some(YankHighlight::new(sr, sc, er, ec, linewise));
    }

    /// Delete whole lines `sr..=er` into the register (linewise); the cursor goes to row
    /// `sr` (bound by the last line) and is clamped.
    fn delete_linewise(&mut self, sr: usize, er: usize)
        requires
            sr <= er < old(self).text().len(),
        ensures
            *final(self) == (VimEditor {
                lines: final(self).lines,
                cursor_row: final(self).cursor_row,
                cursor_col: final(self).cursor_col,
                unnamed_register: final(self).unnamed_register,
                clipboard_out: final(self).clipboard_out,
                modified: true,
                ..*old(self)
            }),
            final(self).text() == super::buffer::lines_removed(old(self).text(), sr as int, er + 1),
            final(self).register_set(old(self), join_lines(old(self).text().subrange(sr as int, er + 1)), true),
            final(self).cursor_clamped_from(
                min_int(sr as int, final(self).text().len() - 1) as usize,
                clamp_col_of(
                    final(self).text(),
                    if old(self).cursor_row >= final(self).text().len() {
                        final(self).text().len() - 1
                    } else {
                        old(self).cursor_row as int
                    },
                    old(self).cursor_col,
                    old(self).mode,
                ),
            ),
    {
        let n0 = self.lines.len();
        let text = self.delete_lines(sr, er - sr + 1);
        self.set_register(text, true);
        let n = self.lines.len();
        let row = if sr < n - 1 { sr } else { n - 1 };
        let col = self.cursor_col;
        self.set_cursor_clamped(row, col);
    }

    /// Delete columns `sc..ec` of row `sr` into the register; the cursor column goes to
    /// `sc` and the cursor is clamped.
    fn delete_in_row(&mut self, sr: usize, sc: usize, ec: usize)
        ensures
            *final(self) == (VimEditor {
                lines: final(self).lines,
                cursor_row: final(self).cursor_row,
                cursor_col: final(self).cursor_col,
                unnamed_register: final(self).unnamed_register,
                clipboard_out: final(self).clipboard_out,
                modified: final(self).modified,
                ..*old(self)
            }),
            old(self).range_nonempty(sc as int, ec as int, sr as int) ==> {
                let (s, e) = old(self).range_cols(sc as int, ec as int, sr as int);
                &&& final(self).text() == old(self).text().update(sr as int, old(self).text()[sr as int].take(s) + old(self).text()[sr as int].skip(e))
                &&& final(self).modified
            },
            !old(self).range_nonempty(sc as int, ec as int, sr as int) ==> final(self).text() == old(self).text()
                && final(self).modified == old(self).modified,
            final(self).register_set(old(self), old(self).range_text(sc as int, ec as int, sr as int), false),
            final(self).cursor_clamped_from(old(self).cursor_row, sc),
    {
        let text = self.delete_range(sc, ec, sr);
        self.set_register(text, false);
        let row = self.cursor_row;
        self.set_cursor_clamped(row, sc);
    }

    /// Delete from (`sr`, `sc`) to (`er`, `ec`) into the register (and the system
    /// clipboard), saving the state for undo: whole lines when `linewise`, the columns
    /// `sc..ec` of the row when the range is on one row, the characterwise span otherwise.
    pub fn op_delete(&mut self, sr: usize, sc: usize, er: usize, ec: usize, linewise: bool)
        requires
            sr <= er < old(self).text().len(),
        ensures
            final(self).history_saved(old(self)),
            *final(self) == (VimEditor {
                lines: final(self).lines,
                cursor_row: final(self).cursor_row,
                cursor_col: final(self).cursor_col,
                undo_stack: final(self).undo_stack,
                redo_stack: final(self).redo_stack,
                unnamed_register: final(self).unnamed_register,
                clipboard_out: final(self).clipboard_out,
                modified: final(self).modified,
                ..*old(self)
            }),
            final(self).register_set(old(self), old(self).yank_text(sr as int, sc as int, er as int, ec as int, linewise), linewise),
            linewise ==> final(self).text() == super::buffer::lines_removed(old(self).text(), sr as int, er + 1)
                && final(self).modified
                && final(self).cursor_row == min_int(sr as int, final(self).text().len() - 1),
            !linewise && sr == er ==> final(self).cursor_clamped_from(old(self).cursor_row, sc),
            !linewise && sr == er && old(self).range_nonempty(sc as int, ec as int, sr as int) ==> final(self).text()
                == old(self).text().update(sr as int, old(self).text()[sr as int].take(old(self).range_cols(sc as int, ec as int, sr as int).0)
                    + old(self).text()[sr as int].skip(old(self).range_cols(sc as int, ec as int, sr as int).1)),
            !linewise && sr == er && !old(self).range_nonempty(sc as int, ec as int, sr as int) ==> final(self).text() == old(self).text(),
            !linewise && sr < er ==> final(self).text() == span_cut(old(self).text(), sr as int, sc as int, er as int, ec as int)
                && final(self).modified
                && final(self).cursor_clamped_from(sr, sc),
    {
        self.save_undo();
        let ghost mid = *self;
        if linewise {
            self.delete_linewise(sr, er);
            proof {
                reveal(super::clamp_row_of);
            }
        } else if sr == er {
            self.delete_in_row(sr, sc, ec);
            proof {
                let (s, e) = mid.range_cols(sc as int, ec as int, sr as int);
                if !mid.range_nonempty(sc as int, ec as int, sr as int) {
                    assert(mid.range_text(sc as int, ec as int, sr as int) =~= row_slice(mid.text()[sr as int], sc as int, ec as int));
                } else {
                    assert(mid.range_text(sc as int, ec as int, sr as int) =~= row_slice(mid.text()[sr as int], sc as int, ec as int));
                }
            }
        } else {
            self.cut_span(sr, sc, er, ec);
        }
    }
}


/// `c` with its case swapped: the lowercase mapping of an uppercase character, the
/// uppercase mapping of any other.
pub open spec fn toggled_char(c: char) -> Seq<char> {
    if uppercase_char(c) {
        lower_char(c)
    } else {
        upper_char(c)
    }
}

/// Every character of `s` with its case swapped.
pub open spec fn toggled(s: Seq<char>) -> Seq<char>
    decreases s.len(),
{
    if s.len() == 0 {
        Seq::<char>::empty()
    } else {
        toggled(s.drop_last()) + toggled_char(s.last())
    }
}

/// Executable form of [`toggled_char`].
fn toggled_char_exec(c: char) -> (r: String)
    ensures
        r@ == toggled_char(c),
{
    if is_uppercase(c) {
        char_to_lowercase(c)
    } else {
        char_to_uppercase(c)
    }
}

/// Executable form of [`toggled`].
fn toggled_exec(s: &Vec<char>) -> (r: Vec<char>)
    ensures
        r@ == toggled(s@),
{
    let mut out: Vec<char> = Vec::new();
    let mut i: usize = 0;
    while i < s.len()
        invariant
            i <= s@.len(),
            out@ == toggled(s@.take(i as int)),
        decreases s@.len() - i,
    {
        let t = chars_of(toggled_char_exec(s[i]).as_str());
        extend_chars(&mut out, &t);
        assert(s@.take(i + 1).drop_last() =~= s@.take(i as int));
        i = i + 1;
    }
    assert(s@.take(s@.len() as int) =~= s@);
    out
}

/// How an operator changes the case of text.
#[derive(Clone, Copy, PartialEq, Eq, Structural)]
pub enum CaseChange {
    Upper,
    Lower,
    Toggle,
}

/// The text `s` with its case changed: `str::to_uppercase`, `str::to_lowercase`, or
/// every character swapped.
pub open spec fn case_changed(s: Seq<char>, how: CaseChange) -> Seq<char> {
    match how {
        CaseChange::Upper => uppercase_of(s),
        CaseChange::Lower => lowercase_of(s),
        CaseChange::Toggle => toggled(s),
    }
}

/// `line` with the case of columns `sc..ec` (bound by its length) changed; unchanged
/// when the range is reversed.
pub open spec fn line_case_changed(line: Seq<char>, sc: int, ec: int, how: CaseChange) -> Seq<char> {
    let a = min_int(sc, line.len() as int);
    let b = min_int(ec, line.len() as int);
    if a <= b {
        line.take(a) + case_changed(line.subrange(a, b), how) + line.skip(b)
    } else {
        line
    }
}

/// The rows `a..=b` of `text` with four spaces put in front.
pub open spec fn indent_rows(text: Seq<Seq<char>>, a: int, b: int) -> Seq<Seq<char>> {
    Seq::new(text.len(), |i: int| if a <= i <= b { spaces(4) + text[i] } else { text[i] })
}

/// The rows `a..=b` of `text` with up to four leading whitespace characters removed.
#[verifier::opaque]
pub open spec fn dedent_rows(text: Seq<Seq<char>>, a: int, b: int) -> Seq<Seq<char>> {
    Seq::new(
        text.len(),
        |i: int| if a <= i <= b { text[i].skip(min_int(leading_ws(text[i]) as int, 4)) } else { text[i] },
    )
}

/// Four spaces in front of a line are leading whitespace: at least four leading
/// whitespace characters, and the line itself after them.
pub proof fn lemma_indented_line(x: Seq<char>)
    ensures
        leading_ws(spaces(4) + x) >= 4,
        (spaces(4) + x).skip(4) == x,
{
    let y = spaces(4) + x;
    let y1 = y.drop_first();
    let y2 = y1.drop_first();
    let y3 = y2.drop_first();
    assert(y[0] == ' ' && y1[0] == ' ' && y2[0] == ' ' && y3[0] == ' ');
    assert(leading_ws(y3) >= 1);
    assert(leading_ws(y2) >= 2);
    assert(leading_ws(y1) >= 3);
    assert(leading_ws(y) >= 4);
    assert(y.skip(4) =~= x);
}

/// Dedenting rows that were just indented gives the text back: `<<` undoes `>>`.
pub proof fn lemma_dedent_undoes_indent(text: Seq<Seq<char>>, a: int, b: int)
    ensures
        dedent_rows(indent_rows(text, a, b), a, b) == text,
{
    reveal(dedent_rows);
    let t = indent_rows(text, a, b);
    assert forall|i: int| 0 <= i < text.len() implies #[trigger] dedent_rows(t, a, b)[i] == text[i] by {
        if a <= i <= b {
            lemma_indented_line(text[i]);
        }
    }
    assert(dedent_rows(t, a, b) =~= text);
}

/// How many leading whitespace characters a dedent removes from row `i` of `text`.
pub open spec fn dedent_width_of(text: Seq<Seq<char>>, i: int) -> int {
    min_int(leading_ws(text[i]) as int, 4)
}

/// Whether a dedent of rows `a..=b` of `text` removes anything.
#[verifier::opaque]
pub open spec fn any_dedent(text: Seq<Seq<char>>, a: int, b: int) -> bool {
    exists|i: int| a <= i <= b && #[trigger] dedent_width_of(text, i) > 0
}

impl VimEditor {
    /// Indent rows `sr..=end` by four spaces.
    fn indent_range(&mut self, sr: usize, end: usize)
        requires
            sr <= end < old(self).text().len(),
        ensures
            *final(self) == (VimEditor { lines: final(self).lines, modified: true, ..*old(self) }),
            final(self).text() == indent_rows(old(self).text(), sr as int, end as int),
    {
        let ghost t = self.text();
        let n = self.lines.len();
        let mut row = sr;
        assert(t =~= indent_rows(t, sr as int, sr - 1));
        while row <= end
            invariant
                sr <= row <= end + 1,
                end < n,
                n == t.len(),
                *self == (VimEditor { lines: self.lines, modified: self.modified, ..*old(self) }),
                self.text() == indent_rows(t, sr as int, row - 1),
                row > sr ==> self.modified,
            decreases end + 1 - row,
        {
            self.indent_line(row);
            assert(self.text() =~= indent_rows(t, sr as int, row as int));
            row = row + 1;
        }
    }

    /// Indent rows `sr..=er` (bound by the last line) by four spaces, saving the state for
    /// undo.
    pub fn op_indent(&mut self, sr: usize, er: usize)
        ensures
            final(self).history_saved(old(self)),
            *final(self) == (VimEditor {
                lines: final(self).lines,
                undo_stack: final(self).undo_stack,
                redo_stack: final(self).redo_stack,
                modified: final(self).modified,
                ..*old(self)
            }),
            final(self).text() == indent_rows(old(self).text(), sr as int, min_int(er as int, old(self).text().len() - 1)),
            final(self).modified == (old(self).modified || sr <= min_int(er as int, old(self).text().len() - 1)),
    {
        self.save_undo();
        let n = self.lines.len();
        if n > 0 {
            let end = if er < n - 1 { er } else { n - 1 };
            if sr <= end {
                self.indent_range(sr, end);
                return;
            }
        }
        assert(self.text() =~= indent_rows(old(self).text(), sr as int, min_int(er as int, old(self).text().len() - 1)));
    }

    /// Remove up to four leading whitespace characters of rows `sr..=end`.
    fn dedent_range(&mut self, sr: usize, end: usize)
        requires
            sr <= end < old(self).text().len(),
        ensures
            *final(self) == (VimEditor { lines: final(self).lines, modified: final(self).modified, ..*old(self) }),
            final(self).text() == dedent_rows(old(self).text(), sr as int, end as int),
            final(self).modified == (old(self).modified || any_dedent(old(self).text(), sr as int, end as int)),
            final(self).text().len() == old(self).text().len(),
    {
        reveal(dedent_rows);
        reveal(any_dedent);
        let ghost t = self.text();
        let n = self.lines.len();
        let mut row = sr;
        assert(t =~= dedent_rows(t, sr as int, sr - 1));
        while row <= end
            invariant
                sr <= row <= end + 1,
                end < n,
                n == t.len(),
                *self == (VimEditor { lines: self.lines, modified: self.modified, ..*old(self) }),
                self.text() == dedent_rows(t, sr as int, row - 1),
                self.modified == (old(self).modified || any_dedent(t, sr as int, row - 1)),
            decreases end + 1 - row,
        {
            self.dedent_line(row);
            proof {
                reveal(dedent_rows);
                reveal(any_dedent);
                let w = min_int(leading_ws(t[row as int]) as int, 4);
                if w == 0 {
                    assert(t[row as int].skip(0) =~= t[row as int]);
                }
                assert(self.text() =~= dedent_rows(t, sr as int, row as int));
                if w > 0 {
                    assert(dedent_width_of(t, row as int) > 0);
                }
                if any_dedent(t, sr as int, row as int) && !any_dedent(t, sr as int, row - 1) {
                    let i = choose|i: int| sr <= i <= row && #[trigger] dedent_width_of(t, i) > 0;
                    assert(i == row);
                }
            }
            row = row + 1;
        }
    }

    /// Remove up to four leading whitespace characters of rows `sr..=er` (bound by the last
    /// line), saving the state for undo.
    #[verifier::spinoff_prover]
    pub fn op_dedent(&mut self, sr: usize, er: usize)
        ensures
            final(self).history_saved(old(self)),
            *final(self) == (VimEditor {
                lines: final(self).lines,
                undo_stack: final(self).undo_stack,
                redo_stack: final(self).redo_stack,
                modified: final(self).modified,
                ..*old(self)
            }),
            final(self).text() == dedent_rows(old(self).text(), sr as int, min_int(er as int, old(self).text().len() - 1)),
            final(self).modified == (old(self).modified || any_dedent(old(self).text(), sr as int, min_int(er as int, old(self).text().len() - 1))),
            final(self).text().len() == old(self).text().len(),
    {
        self.save_undo();
        let n = self.lines.len();
        if n > 0 {
            let end = if er < n - 1 { er } else { n - 1 };
            if sr <= end {
                self.dedent_range(sr, end);
                return;
            }
        }
        proof {
            reveal(dedent_rows);
            reveal(any_dedent);
            let b = min_int(er as int, old(self).text().len() - 1);
            assert(self.text() =~= dedent_rows(old(self).text(), sr as int, b));
            assert(!any_dedent(old(self).text(), sr as int, b));
        }
    }
}


/// Line `row` of `ed` with the case of columns `sc..ec` changed.
pub(crate) fn case_changed_line_of(ed: &VimEditor, row: usize, sc: usize, ec: usize, how: CaseChange) -> (r: Vec<char>)
    requires
        row < ed.text().len(),
    ensures
        r@ == line_case_changed(ed.text()[row as int], sc as int, ec as int, how),
{
    ed.case_changed_line(row, sc, ec, how).0
}

impl VimEditor {
    /// Line `row` with the case of columns `sc..ec` changed, and whether the range was in
    /// order.
    fn case_changed_line(&self, row: usize, sc: usize, ec: usize, how: CaseChange) -> (r: (Vec<char>, bool))
        requires
            row < self.text().len(),
        ensures
            r.0@ == line_case_changed(self.text()[row as int], sc as int, ec as int, how),
            r.1 == (min_int(sc as int, self.text()[row as int].len() as int) <= min_int(ec as int, self.text()[row as int].len() as int)),
    {
        let line = self.line_chars(row);
        let (a, b) = bounded_cols(line.len(), sc, ec);
        if a > b {
            return (line, false);
        }
        let mid = slice_chars(&line, a, b);
        let changed: Vec<char> = match how {
            CaseChange::Upper => chars_of(to_uppercase(string_of(&mid).as_str()).as_str()),
            CaseChange::Lower => chars_of(to_lowercase(string_of(&mid).as_str()).as_str()),
            CaseChange::Toggle => toggled_exec(&mid),
        };
        let mut out = slice_chars(&line, 0, a);
        extend_chars(&mut out, &changed);
        let tail = slice_chars(&line, b, line.len());
        extend_chars(&mut out, &tail);
        assert(line@.subrange(0, a as int) =~= line@.take(a as int));
        assert(line@.subrange(b as int, line@.len() as int) =~= line@.skip(b as int));
        (out, true)
    }

    /// Change the case of columns `sc..ec` of row `sr` when the range lies on one row
    /// (`sr == er`), saving the state for undo in any case.
    fn change_case(&mut self, sr: usize, sc: usize, er: usize, ec: usize, how: CaseChange)
        requires
            sr == er ==> sr < old(self).text().len(),
        ensures
            final(self).history_saved(old(self)),
            *final(self) == (VimEditor {
                lines: final(self).lines,
                undo_stack: final(self).undo_stack,
                redo_stack: final(self).redo_stack,
                modified: final(self).modified,
                ..*old(self)
            }),
            sr == er ==> final(self).text() == old(self).text().update(
                sr as int,
                line_case_changed(old(self).text()[sr as int], sc as int, ec as int, how),
            ),
            sr != er ==> final(self).text() == old(self).text(),
            final(self).modified == (old(self).modified || (sr == er && min_int(sc as int, old(self).text()[sr as int].len() as int)
                <= min_int(ec as int, old(self).text()[sr as int].len() as int))),
    {
        self.save_undo();
        if sr == er {
            let (line, ordered) = self.case_changed_line(sr, sc, ec, how);
            if ordered {
                self.set_line(sr, &line);
                self.modified = true;
            } else {
                assert(line@ =~= old(self).text()[sr as int]);
                assert(old(self).text().update(sr as int, line@) =~= old(self).text());
            }
        }
    }

    /// Uppercase (or lowercase) columns `sc..ec` of row `sr` when the range lies on one row,
    /// saving the state for undo in any case.
    pub fn op_case(&mut self, sr: usize, sc: usize, er: usize, ec: usize, to_upper: bool)
        requires
            sr == er ==> sr < old(self).text().len(),
        ensures
            final(self).history_saved(old(self)),
            *final(self) == (VimEditor {
                lines: final(self).lines,
                undo_stack: final(self).undo_stack,
                redo_stack: final(self).redo_stack,
                modified: final(self).modified,
                ..*old(self)
            }),
            sr == er ==> final(self).text() == old(self).text().update(
                sr as int,
                line_case_changed(old(self).text()[sr as int], sc as int, ec as int, if to_upper { CaseChange::Upper } else { CaseChange::Lower }),
            ),
            sr != er ==> final(self).text() == old(self).text(),
    {
        self.change_case(sr, sc, er, ec, if to_upper { CaseChange::Upper } else { CaseChange::Lower });
    }

    /// Swap the case of columns `sc..ec` of row `sr` when the range lies on one row, saving
    /// the state for undo in any case.
    pub fn op_toggle_case(&mut self, sr: usize, sc: usize, er: usize, ec: usize)
        requires
            sr == er ==> sr < old(self).text().len(),
        ensures
            final(self).history_saved(old(self)),
            *final(self) == (VimEditor {
                lines: final(self).lines,
                undo_stack: final(self).undo_stack,
                redo_stack: final(self).redo_stack,
                modified: final(self).modified,
                ..*old(self)
            }),
            sr == er ==> final(self).text() == old(self).text().update(
                sr as int,
                line_case_changed(old(self).text()[sr as int], sc as int, ec as int, CaseChange::Toggle),
            ),
            sr != er ==> final(self).text() == old(self).text(),
    {
        self.change_case(sr, sc, er, ec, CaseChange::Toggle);
    }

    /// Whether the cursor is on a character of its line.
    pub open spec fn on_char(&self) -> bool {
        self.cursor_row < self.text().len() && self.cursor_col < self.cur_len()
    }

    /// Toggle case of character at cursor (~), saving the state for undo; the cursor moves
    /// right, up to the last character. Nothing happens off a character.
    pub fn toggle_case_at_cursor(&mut self)
        ensures
            !old(self).on_char() ==> *final(self) == *old(self),
            old(self).on_char() ==> {
                let line = old(self).cur_line();
                let col = old(self).cursor_col as int;
                let new_line = line.take(col) + toggled_char(line[col]) + line.skip(col + 1);
                &&& final(self).history_saved(old(self))
                &&& *final(self) == (VimEditor {
                    lines: final(self).lines,
                    cursor_col: final(self).cursor_col,
                    undo_stack: final(self).undo_stack,
                    redo_stack: final(self).redo_stack,
                    modified: true,
                    ..*old(self)
                })
                &&& final(self).text() == old(self).text().update(old(self).cursor_row as int, new_line)
                &&& final(self).cursor_col == min_int(col + 1, sat_sub(new_line.len() as int, 1))
            },
    {
        let row = self.cursor_row;
        let col = self.cursor_col;
        if row < self.lines.len() {
            let line = self.line_chars(row);
            if col < line.len() {
                self.save_undo();
                let t = chars_of(toggled_char_exec(line[col]).as_str());
                let mut out = slice_chars(&line, 0, col);
                extend_chars(&mut out, &t);
                let tail = slice_chars(&line, col + 1, line.len());
                extend_chars(&mut out, &tail);
                assert(line@.subrange(0, col as int) =~= line@.take(col as int));
                assert(line@.subrange(col + 1, line@.len() as int) =~= line@.skip(col + 1));
                let new_len = out.len();
                self.set_line(row, &out);
                let last = if new_len > 0 { new_len - 1 } else { 0 };
                self.cursor_col = if col + 1 < last { col + 1 } else { last };
                self.modified = true;
            }
        }
    }

    /// Replace character at cursor (r), saving the state for undo. Nothing happens off a
    /// character.
    pub fn replace_char(&mut self, new_char: char)
        ensures
            !old(self).on_char() ==> *final(self) == *old(self),
            old(self).on_char() ==> {
                &&& final(self).history_saved(old(self))
                &&& *final(self) == (VimEditor {
                    lines: final(self).lines,
                    undo_stack: final(self).undo_stack,
                    redo_stack: final(self).redo_stack,
                    modified: true,
                    ..*old(self)
                })
                &&& final(self).text() == old(self).text().update(
                    old(self).cursor_row as int,
                    old(self).cur_line().update(old(self).cursor_col as int, new_char),
                )
            },
    {
        let row = self.cursor_row;
        let col = self.cursor_col;
        if row < self.lines.len() {
            let mut line = self.line_chars(row);
            if col < line.len() {
                self.save_undo();
                line.set(col, new_char);
                self.set_line(row, &line);
                self.modified = true;
            }
        }
    }
}


/// The lines after deleting the range `t` (start row, start column, end row, end column,
/// linewise) from `text`.
pub open spec fn deleted_text(text: Seq<Seq<char>>, t: (int, int, int, int, bool)) -> Seq<Seq<char>> {
    let (sr, sc, er, ec, linewise) = t;
    if linewise {
        super::buffer::lines_removed(text, sr, er + 1)
    } else if sr == er {
        let line = text[sr];
        let s = min_int(sc, line.len() as int);
        let e = min_int(ec, line.len() as int);
        if s < e {
            text.update(sr, line.take(s) + line.skip(e))
        } else {
            text
        }
    } else {
        span_cut(text, sr, sc, er, ec)
    }
}

/// The lines after operator `op` is applied to the range `t` of `text`.
pub open spec fn operated_text(text: Seq<Seq<char>>, op: Operator, t: (int, int, int, int, bool)) -> Seq<Seq<char>> {
    let (sr, sc, er, ec, _) = t;
    match op {
        Operator::Delete | Operator::Change => deleted_text(text, t),
        Operator::Yank => text,
        Operator::Indent => indent_rows(text, sr, min_int(er, text.len() - 1)),
        Operator::Dedent => dedent_rows(text, sr, min_int(er, text.len() - 1)),
        Operator::Uppercase => if sr == er { text.update(sr, line_case_changed(text[sr], sc, ec, CaseChange::Upper)) } else { text },
        Operator::Lowercase => if sr == er { text.update(sr, line_case_changed(text[sr], sc, ec, CaseChange::Lower)) } else { text },
        Operator::ToggleCase => if sr == er { text.update(sr, line_case_changed(text[sr], sc, ec, CaseChange::Toggle)) } else { text },
    }
}

impl VimEditor {
    /// Execute operator + motion combination: the operator is applied to the range that the
    /// motion covers from the cursor; nothing happens when the motion finds nothing. A
    /// change enters Insert mode when the configuration allows it.
    pub fn execute_operator(&mut self, op: &Operator, motion: &Motion, count: usize)
        requires
            old(self).wf(),
            needs_char(*motion) ==> old(self).cur_len() > 0,
            *motion == Motion::Line && count == 0 ==> old(self).cursor_row == 0,
        ensures
            match motion_range(old(self).text(), old(self).cursor_row as int, old(self).cursor_col as int, *motion, count as nat) {
                None => *final(self) == *old(self),
                Some(t) => {
                    &&& final(self).text() == operated_text(old(self).text(), *op, t)
                    &&& (*op == Operator::Delete || *op == Operator::Change || *op == Operator::Yank) ==> final(self).register_set(
                        old(self),
                        old(self).yank_text(t.0, t.1, t.2, t.3, t.4),
                        t.4,
                    )
                    &&& (*op != Operator::Yank) ==> final(self).history_saved(old(self))
                    &&& final(self).mode == if *op == Operator::Change && old(self).config.insert_allowed {
                        VimMode::Insert
                    } else {
                        old(self).mode
                    }
                    &&& final(self).config == old(self).config
                },
            },
            old(self).wf() ==> final(self).wf(),
            final(self).visual_anchor == old(self).visual_anchor,
            final(self).pending_count == old(self).pending_count,
            *op == Operator::Yank || motion_range(old(self).text(), old(self).cursor_row as int, old(self).cursor_col as int, *motion, count as nat) is None ==> final(self).undo_stack == old(self).undo_stack && final(self).redo_stack == old(self).redo_stack,
    {
        let range = match self.compute_motion_range(motion, count) {
            Some(r) => r,
            None => return,
        };
        proof {
            super::motions::lemma_motion_range_rows(self.text(), self.cursor_row as int, self.cursor_col as int, *motion, count as nat);
        }
        let (sr, sc, er, ec, lw) = (range.start_row, range.start_col, range.end_row, range.end_col, range.linewise);
        match *op {
            Operator::Delete => {
                self.op_delete(sr, sc, er, ec, lw);
                assert(self.text().len() >= 1);
            },
            Operator::Yank => {
                self.op_yank(sr, sc, er, ec, lw);
                assert(self.text().len() >= 1);
            },
            Operator::Change => {
                self.op_delete(sr, sc, er, ec, lw);
                if self.config.insert_allowed {
                    self.mode = VimMode::Insert;
                }
                assert(self.text().len() >= 1);
            },
            Operator::Indent => {
                self.op_indent(sr, er);
                assert(self.text().len() >= 1);
            },
            Operator::Dedent => {
                self.op_dedent(sr, er);
                assert(self.text().len() >= 1);
            },
            Operator::Uppercase => {
                self.op_case(sr, sc, er, ec, true);
                assert(self.text().len() >= 1);
            },
            Operator::Lowercase => {
                self.op_case(sr, sc, er, ec, false);
                assert(self.text().len() >= 1);
            },
            Operator::ToggleCase => {
                self.op_toggle_case(sr, sc, er, ec);
                assert(self.text().len() >= 1);
            },
        }
        proof {
            assert(self.text().len() >= 1);
            super::lemma_clamp_rows_in(self.text());
        }
    }
}

/// Deleting whole lines and putting them back above the cursor (`dd`, then `P`) gives the
/// text back: `b` is `a` after rows `sr..=er` were deleted linewise (the lines below them
/// move up to row `sr`, where the cursor stays, and the register holds the deleted lines
/// joined), and `c` is `b` after the register was put before the cursor. This holds when
/// some line remains below the deleted ones, the deleted lines hold some text, and they
/// come back unchanged from being joined and split again ([`lines_survive_join`]).
pub proof fn lemma_delete_lines_then_put_back(a: VimEditor, b: VimEditor, c: VimEditor, sr: int, er: int)
    requires
        0 <= sr <= er,
        er + 1 < a.text().len(),
        lines_survive_join(a.text().subrange(sr, er + 1)),
        join_lines(a.text().subrange(sr, er + 1)).len() > 0,
        b.text() == super::buffer::lines_removed(a.text(), sr, er + 1),
        b.register() == join_lines(a.text().subrange(sr, er + 1)),
        b.unnamed_register.linewise,
        b.cursor_row == sr,
        c.pasted_before(&b),
    ensures
        c.text() == a.text(),
{
    let t = a.text();
    let sub = t.subrange(sr, er + 1);
    lemma_buffer_lines_of_join(sub);
    lemma_join_free_of(sub, '\t');
    lemma_expand_tabs_id(join_lines(sub));
    assert(std_lines(join_lines(sub)) == sub);
    let rest = t.take(sr) + t.skip(er + 1);
    assert(rest.len() > 0);
    assert(b.text() == rest);
    assert(b.text().take(sr) =~= t.take(sr));
    assert(b.text().skip(sr) =~= t.skip(er + 1));
    assert(t.take(sr) + sub + t.skip(er + 1) =~= t);
}

} // verus!
