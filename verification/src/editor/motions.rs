//! Cursor motions: by character, line, page and word, the character finds `f`/`F`/`t`/`T`,
//! and the ranges that motions and text objects cover for operators.
use vstd::prelude::*;

use super::{clamp_col_of, clamp_row_of, line_at, VimEditor};
use crate::text::{is_whitespace, is_word_char, leading_whitespace_len, leading_ws, whitespace_char, word_char};
use crate::{MotionRange, VimMode};

verus! {

// ---------------------------------------------------------------------------------------
// Scanning a line by character classes
// ---------------------------------------------------------------------------------------

/// A class of characters that a scan runs over.
#[derive(Clone, Copy)]
pub enum CharClass {
    /// Characters whose [`word_char`] (for WORDs when the first flag is set) equals the
    /// second flag.
    WordIs(bool, bool),
    /// Characters that are neither word characters nor whitespace.
    Punct(bool),
    /// Whitespace.
    Space,
}

/// Whether `c` belongs to `cls`.
pub open spec fn in_class(c: char, cls: CharClass) -> bool {
    match cls {
        CharClass::WordIs(big, w) => word_char(c, big) == w,
        CharClass::Punct(big) => !word_char(c, big) && !whitespace_char(c),
        CharClass::Space => whitespace_char(c),
    }
}

/// Executable form of [`in_class`].
fn in_class_exec(c: char, cls: CharClass) -> (r: bool)
    ensures
        r == in_class(c, cls),
{
    match cls {
        CharClass::WordIs(big, w) => is_word_char(c, big) == w,
        CharClass::Punct(big) => !is_word_char(c, big) && !is_whitespace(c),
        CharClass::Space => is_whitespace(c),
    }
}

/// The first position at or after `i` whose character is not in `cls` (the length of
/// `s` when there is none).
pub open spec fn skip_fwd(s: Seq<char>, i: int, cls: CharClass) -> int
    decreases s.len() - i,
{
    if 0 <= i < s.len() && in_class(s[i], cls) {
        skip_fwd(s, i + 1, cls)
    } else {
        i
    }
}

/// From `i`, the last position of the run of characters in `cls` that follows it: moves
/// right while the next character is in `cls`.
pub open spec fn run_end(s: Seq<char>, i: int, cls: CharClass) -> int
    decreases s.len() - i,
{
    if 0 <= i && i + 1 < s.len() && in_class(s[i + 1], cls) {
        run_end(s, i + 1, cls)
    } else {
        i
    }
}

/// From `i`, the first position of the run of characters in `cls` that precedes it:
/// moves left while the previous character is in `cls`.
pub open spec fn run_start(s: Seq<char>, i: int, cls: CharClass) -> int
    decreases i,
{
    if 0 < i <= s.len() && in_class(s[i - 1], cls) {
        run_start(s, i - 1, cls)
    } else {
        i
    }
}

/// From `i`, moves left while the character at the position is in `cls`.
pub open spec fn skip_back(s: Seq<char>, i: int, cls: CharClass) -> int
    decreases i,
{
    if 0 < i < s.len() && in_class(s[i], cls) {
        skip_back(s, i - 1, cls)
    } else {
        i
    }
}

/// The first position at or after `i` holding `ch`.
pub open spec fn find_fwd(s: Seq<char>, i: int, ch: char) -> Option<int>
    decreases s.len() - i,
{
    if i < 0 || i >= s.len() {
        None
    } else if s[i] == ch {
        Some(i)
    } else {
        find_fwd(s, i + 1, ch)
    }
}

/// The last position before `i` holding `ch`.
pub open spec fn find_back(s: Seq<char>, i: int, ch: char) -> Option<int>
    decreases i,
{
    if i <= 0 {
        None
    } else if i - 1 < s.len() && s[i - 1] == ch {
        Some(i - 1)
    } else {
        find_back(s, i - 1, ch)
    }
}

/// Executable form of [`skip_fwd`].
pub fn skip_fwd_exec(s: &Vec<char>, i: usize, cls: CharClass) -> (r: usize)
    ensures
        r == skip_fwd(s@, i as int, cls),
        r >= i,
        i <= s@.len() ==> r <= s@.len(),
{
    let mut j = i;
    while j < s.len() && in_class_exec(s[j], cls)
        invariant
            j >= i,
            i <= s@.len() ==> j <= s@.len(),
            skip_fwd(s@, i as int, cls) == skip_fwd(s@, j as int, cls),
        decreases s@.len() - j,
    {
        j = j + 1;
    }
    j
}

/// Executable form of [`run_end`].
pub fn run_end_exec(s: &Vec<char>, i: usize, cls: CharClass) -> (r: usize)
    ensures
        r == run_end(s@, i as int, cls),
        r >= i,
        i < s@.len() ==> r < s@.len(),
{
    let mut j = i;
    while j < s.len() && j + 1 < s.len() && in_class_exec(s[j + 1], cls)
        invariant
            j >= i,
            i < s@.len() ==> j < s@.len(),
            run_end(s@, i as int, cls) == run_end(s@, j as int, cls),
        decreases s@.len() - j,
    {
        j = j + 1;
    }
    j
}

/// Executable form of [`run_start`].
pub fn run_start_exec(s: &Vec<char>, i: usize, cls: CharClass) -> (r: usize)
    ensures
        r == run_start(s@, i as int, cls),
        r <= i,
{
    let mut j = i;
    while j > 0 && j <= s.len() && in_class_exec(s[j - 1], cls)
        invariant
            j <= i,
            run_start(s@, i as int, cls) == run_start(s@, j as int, cls),
        decreases j,
    {
        j = j - 1;
    }
    j
}

/// Executable form of [`skip_back`].
pub fn skip_back_exec(s: &Vec<char>, i: usize, cls: CharClass) -> (r: usize)
    ensures
        r == skip_back(s@, i as int, cls),
        r <= i,
{
    let mut j = i;
    while j > 0 && j < s.len() && in_class_exec(s[j], cls)
        invariant
            j <= i,
            skip_back(s@, i as int, cls) == skip_back(s@, j as int, cls),
        decreases j,
    {
        j = j - 1;
    }
    j
}

/// Executable form of [`find_fwd`].
pub fn find_fwd_exec(s: &Vec<char>, i: usize, ch: char) -> (r: Option<usize>)
    ensures
        match r {
            Some(k) => find_fwd(s@, i as int, ch) == Some(k as int) && i <= k < s@.len(),
            None => find_fwd(s@, i as int, ch) is None,
        },
{
    let mut j = i;
    while j < s.len()
        invariant
            j >= i,
            find_fwd(s@, i as int, ch) == find_fwd(s@, j as int, ch),
        decreases s@.len() - j,
    {
        if s[j] == ch {
            return Some(j);
        }
        j = j + 1;
    }
    None
}

/// Executable form of [`find_back`].
pub fn find_back_exec(s: &Vec<char>, i: usize, ch: char) -> (r: Option<usize>)
    ensures
        match r {
            Some(k) => find_back(s@, i as int, ch) == Some(k as int) && k < i && k < s@.len(),
            None => find_back(s@, i as int, ch) is None,
        },
{
    let mut j = i;
    while j > 0
        invariant
            j <= i,
            find_back(s@, i as int, ch) == find_back(s@, j as int, ch),
        decreases j,
    {
        if j - 1 < s.len() && s[j - 1] == ch {
            return Some(j - 1);
        }
        j = j - 1;
    }
    None
}

// ---------------------------------------------------------------------------------------
// Word motions
// ---------------------------------------------------------------------------------------

/// The ways a word motion moves.
#[derive(Clone, Copy, PartialEq, Eq, Structural)]
pub enum WordMove {
    /// `w` of the editor: stays put at the end of the buffer.
    Start,
    /// `w` as simulated for operators: goes to the end of the last line.
    SimStart,
    /// `e`.
    End,
    /// `b`.
    Back,
}

/// The column that `w` reaches on `line` from `col`: past the rest of the word (or of the
/// run of punctuation) under the cursor, then past whitespace.
pub open spec fn word_start_col(line: Seq<char>, col: int, big: bool) -> int {
    if col < line.len() {
        let c1 = if word_char(line[col], big) {
            skip_fwd(line, col, CharClass::WordIs(big, true))
        } else {
            skip_fwd(line, col, CharClass::Punct(big))
        };
        skip_fwd(line, c1, CharClass::Space)
    } else {
        col
    }
}

/// The first non-whitespace column of `line` (its length when there is none).
pub open spec fn first_non_ws(line: Seq<char>) -> int {
    skip_fwd(line, 0, CharClass::Space)
}

/// The end of the word (or run of non-word characters) that starts at `c` on `line`.
pub open spec fn word_end_from(line: Seq<char>, c: int, big: bool) -> int {
    if c < line.len() {
        run_end(line, c, CharClass::WordIs(big, word_char(line[c], big)))
    } else {
        c
    }
}

/// One word motion of kind `m` from (`row`, `col`) over `text`.
pub open spec fn word_step(m: WordMove, text: Seq<Seq<char>>, row: int, col: int, big: bool) -> (int, int) {
    let line = line_at(text, row);
    match m {
        WordMove::Start => {
            let c = word_start_col(line, col, big);
            if c >= line.len() {
                if row + 1 < text.len() {
                    (row + 1, first_non_ws(text[row + 1]))
                } else {
                    (row, col)
                }
            } else {
                (row, c)
            }
        },
        WordMove::SimStart => {
            let c = word_start_col(line, col, big);
            if c >= line.len() && row + 1 < text.len() {
                (row + 1, first_non_ws(text[row + 1]))
            } else {
                (row, if c <= line.len() { c } else { line.len() as int })
            }
        },
        WordMove::End => {
            let c = if col + 1 < line.len() { skip_fwd(line, col + 1, CharClass::Space) } else { col + 1 };
            if c >= line.len() {
                if row + 1 < text.len() {
                    let next = text[row + 1];
                    (row + 1, word_end_from(next, first_non_ws(next), big))
                } else {
                    (row, col)
                }
            } else {
                (row, word_end_from(line, c, big))
            }
        },
        WordMove::Back => {
            if col == 0 {
                if row > 0 {
                    let above = line_at(text, row - 1);
                    (row - 1, if above.len() > 0 { above.len() - 1 } else { 0 })
                } else {
                    (row, col)
                }
            } else {
                let m0 = if col <= line.len() { col } else { line.len() as int };
                let c0 = if m0 > 0 { m0 - 1 } else { 0 };
                let c1 = skip_back(line, c0, CharClass::Space);
                let w = c1 < line.len() && word_char(line[c1], big);
                (row, run_start(line, c1, CharClass::WordIs(big, w)))
            }
        },
    }
}

/// `n` word motions of kind `m` from (`row`, `col`).
pub open spec fn word_steps(m: WordMove, text: Seq<Seq<char>>, row: int, col: int, big: bool, n: nat) -> (int, int)
    decreases n,
{
    if n == 0 {
        (row, col)
    } else {
        let p = word_steps(m, text, row, col, big, (n - 1) as nat);
        word_step(m, text, p.0, p.1, big)
    }
}

/// The characters of line `row` of `lines`, none past the end.
fn line_chars_of(lines: &[String], row: usize) -> (r: Vec<char>)
    ensures
        r@ == line_at(lines.deep_view(), row as int),
{
    if row < lines.len() {
        crate::text::chars_of(lines[row].as_str())
    } else {
        Vec::new()
    }
}

/// One word motion of kind `m` from (`row`, `col`) over `lines`.
pub fn word_step_exec(m: WordMove, lines: &[String], row: usize, col: usize, big: bool) -> (r: (usize, usize))
    requires
        row < lines.deep_view().len(),
    ensures
        (r.0 as int, r.1 as int) == word_step(m, lines.deep_view(), row as int, col as int, big),
        r.0 < lines.deep_view().len(),
{
    let ghost text = lines.deep_view();
    let n = lines.len();
    let line = line_chars_of(lines, row);
    let len = line.len();
    match m {
        WordMove::Start | WordMove::SimStart => {
            let c = if col < len {
                let c1 = if is_word_char(line[col], big) {
                    skip_fwd_exec(&line, col, CharClass::WordIs(big, true))
                } else {
                    skip_fwd_exec(&line, col, CharClass::Punct(big))
                };
                skip_fwd_exec(&line, c1, CharClass::Space)
            } else {
                col
            };
            if c >= len && row + 1 < n {
                let next = line_chars_of(lines, row + 1);
                (row + 1, skip_fwd_exec(&next, 0, CharClass::Space))
            } else if m == WordMove::Start {
                if c >= len { (row, col) } else { (row, c) }
            } else {
                (row, if c <= len { c } else { len })
            }
        },
        WordMove::End => {
            let c = if col < len && col + 1 < len { skip_fwd_exec(&line, col + 1, CharClass::Space) } else { len };
            if c >= len {
                if row + 1 < n {
                    let next = line_chars_of(lines, row + 1);
                    let c2 = skip_fwd_exec(&next, 0, CharClass::Space);
                    let c3 = if c2 < next.len() {
                        run_end_exec(&next, c2, CharClass::WordIs(big, is_word_char(next[c2], big)))
                    } else {
                        c2
                    };
                    (row + 1, c3)
                } else {
                    (row, col)
                }
            } else {
                (row, run_end_exec(&line, c, CharClass::WordIs(big, is_word_char(line[c], big))))
            }
        },
        WordMove::Back => {
            if col == 0 {
                if row > 0 {
                    let above = line_chars_of(lines, row - 1);
                    (row - 1, if above.len() > 0 { above.len() - 1 } else { 0 })
                } else {
                    (row, col)
                }
            } else {
                let m0 = if col <= len { col } else { len };
                let c0 = if m0 > 0 { m0 - 1 } else { 0 };
                let c1 = skip_back_exec(&line, c0, CharClass::Space);
                let w = c1 < len && is_word_char(line[c1], big);
                (row, run_start_exec(&line, c1, CharClass::WordIs(big, w)))
            }
        },
    }
}

/// `count` word motions of kind `m` from (`row`, `col`) over `lines`.
pub fn word_steps_exec(m: WordMove, lines: &[String], row: usize, col: usize, big: bool, count: usize) -> (r: (usize, usize))
    requires
        row < lines.deep_view().len(),
    ensures
        (r.0 as int, r.1 as int) == word_steps(m, lines.deep_view(), row as int, col as int, big, count as nat),
        r.0 < lines.deep_view().len(),
{
    let mut r = row;
    let mut c = col;
    let mut i: usize = 0;
    while i < count
        invariant
            i <= count,
            r < lines.deep_view().len(),
            (r as int, c as int) == word_steps(m, lines.deep_view(), row as int, col as int, big, i as nat),
        decreases count - i,
    {
        let p = word_step_exec(m, lines, r, c, big);
        r = p.0;
        c = p.1;
        i = i + 1;
    }
    (r, c)
}

/// Lightweight position simulator for computing motion ranges without cloning the buffer.
pub struct PositionSim<'a> {
    pub lines: &'a [String],
    pub cursor_row: usize,
    pub cursor_col: usize,
}

impl<'a> PositionSim<'a> {
    /// The number of characters of the simulated cursor line (0 past the end).
    pub fn current_line_len(&self) -> (r: usize)
        ensures
            r == line_at(self.lines.deep_view(), self.cursor_row as int).len(),
    {
        line_chars_of(self.lines, self.cursor_row).len()
    }

    /// `count` simulated `w` (or `W`) motions.
    pub fn move_word_forward(&mut self, count: usize, big_word: bool)
        requires
            old(self).cursor_row < old(self).lines.deep_view().len(),
        ensures
            final(self).lines == old(self).lines,
            (final(self).cursor_row as int, final(self).cursor_col as int) == word_steps(
                WordMove::SimStart,
                old(self).lines.deep_view(),
                old(self).cursor_row as int,
                old(self).cursor_col as int,
                big_word,
                count as nat,
            ),
    {
        let p = word_steps_exec(WordMove::SimStart, self.lines, self.cursor_row, self.cursor_col, big_word, count);
        self.cursor_row = p.0;
        self.cursor_col = p.1;
    }

    /// `count` simulated `e` (or `E`) motions.
    pub fn move_word_end(&mut self, count: usize, big_word: bool)
        requires
            old(self).cursor_row < old(self).lines.deep_view().len(),
        ensures
            final(self).lines == old(self).lines,
            (final(self).cursor_row as int, final(self).cursor_col as int) == word_steps(
                WordMove::End,
                old(self).lines.deep_view(),
                old(self).cursor_row as int,
                old(self).cursor_col as int,
                big_word,
                count as nat,
            ),
    {
        let p = word_steps_exec(WordMove::End, self.lines, self.cursor_row, self.cursor_col, big_word, count);
        self.cursor_row = p.0;
        self.cursor_col = p.1;
    }

    /// `count` simulated `b` (or `B`) motions.
    pub fn move_word_back(&mut self, count: usize, big_word: bool)
        requires
            old(self).cursor_row < old(self).lines.deep_view().len(),
        ensures
            final(self).lines == old(self).lines,
            (final(self).cursor_row as int, final(self).cursor_col as int) == word_steps(
                WordMove::Back,
                old(self).lines.deep_view(),
                old(self).cursor_row as int,
                old(self).cursor_col as int,
                big_word,
                count as nat,
            ),
    {
        let p = word_steps_exec(WordMove::Back, self.lines, self.cursor_row, self.cursor_col, big_word, count);
        self.cursor_row = p.0;
        self.cursor_col = p.1;
    }
}


// ---------------------------------------------------------------------------------------
// Motions of the editor's cursor
// ---------------------------------------------------------------------------------------

/// `a - b`, or 0 when `b` is larger.
pub open spec fn sat_sub(a: int, b: int) -> int {
    if a >= b {
        a - b
    } else {
        0
    }
}

/// The smaller of two integers.
pub open spec fn min_int(a: int, b: int) -> int {
    if a <= b {
        a
    } else {
        b
    }
}

/// Half of `h`, rounded down.
#[verifier::opaque]
pub open spec fn half_of(h: usize) -> int {
    h as int / 2
}

/// Executable form of [`half_of`].
fn half_of_exec(h: usize) -> (r: usize)
    ensures
        r == half_of(h),
{
    reveal(half_of);
    h / 2
}

/// The index of the last line of `text` (0 for no line).
pub open spec fn last_row(text: Seq<Seq<char>>) -> int {
    sat_sub(text.len() as int, 1)
}

/// `min(a + b, m)` computed without overflow.
fn add_min(a: usize, b: usize, m: usize) -> (r: usize)
    ensures
        r == min_int(a + b, m as int),
{
    if a >= m || b >= m - a {
        m
    } else {
        a + b
    }
}

/// The column that `f` (or `t`, for `before`) reaches from `col` on `line`: the next
/// `target` after the cursor (for `before`, the column before it, but never left of the
/// cursor), or `col` when there is none.
pub open spec fn find_forward_col(line: Seq<char>, col: int, target: char, before: bool) -> int {
    match find_fwd(line, col + 1, target) {
        Some(i) => if before {
            if i - 1 >= col { i - 1 } else { col }
        } else {
            i
        },
        None => col,
    }
}

/// The column that `F` (or `T`, for `after`) reaches from `col` on `line`: the previous
/// `target` before the cursor (for `after`, the column after it), or `col` when there is
/// none.
pub open spec fn find_backward_col(line: Seq<char>, col: int, target: char, after: bool) -> int {
    match find_back(line, col, target) {
        Some(i) => if after { i + 1 } else { i },
        None => col,
    }
}

/// Executable form of [`find_forward_col`].
fn find_forward_col_exec(line: &Vec<char>, col: usize, target: char, before: bool) -> (r: usize)
    ensures
        r == find_forward_col(line@, col as int, target, before),
{
    if col >= line.len() {
        assert(find_fwd(line@, col + 1, target) is None);
        return col;
    }
    match find_fwd_exec(line, col + 1, target) {
        Some(i) => if before {
            if i - 1 >= col { i - 1 } else { col }
        } else {
            i
        },
        None => col,
    }
}

/// Executable form of [`find_backward_col`].
fn find_backward_col_exec(line: &Vec<char>, col: usize, target: char, after: bool) -> (r: usize)
    ensures
        r == find_backward_col(line@, col as int, target, after),
{
    match find_back_exec(line, col, target) {
        Some(i) => if after { i + 1 } else { i },
        None => col,
    }
}

impl VimEditor {
    /// Whether `self` differs from `old` in the cursor alone.
    pub open spec fn cursor_moved(&self, old: &VimEditor) -> bool {
        *self == VimEditor { cursor_row: self.cursor_row, cursor_col: self.cursor_col, ..*old }
    }

    /// The cursor position that clamping (`row`, `col`) gives, for the lines and mode of
    /// the editor.
    pub fn clamp_position(&self, row: usize, col: usize) -> (r: (usize, usize))
        ensures
            r.0 == clamp_row_of(self.text(), row),
            r.1 == clamp_col_of(self.text(), row as int, col, self.mode),
    {
        reveal(clamp_col_of);
        reveal(clamp_row_of);
        let len = self.line_len(row);
        let max_col = match self.mode {
            VimMode::Insert | VimMode::Replace => len,
            _ => if len > 0 { len - 1 } else { 0 },
        };
        let c = if col > max_col { max_col } else { col };
        let n = self.lines.len();
        let r = if row >= n {
            if n > 0 { n - 1 } else { 0 }
        } else {
            row
        };
        (r, c)
    }

    /// Puts the cursor at (`row`, `col`) and clamps it.
    pub fn set_cursor_clamped(&mut self, row: usize, col: usize)
        ensures
            final(self).cursor_moved(old(self)),
            final(self).cursor_clamped_from(row, col),
            old(self).text().len() >= 1 ==> final(self).cursor_row < final(self).text().len(),
    {
        let (r, c) = self.clamp_position(row, col);
        self.cursor_row = r;
        self.cursor_col = c;
        proof {
            if old(self).text().len() >= 1 {
                super::lemma_clamp_row_in(self.text(), row);
            }
        }
    }

    /// Moves the cursor `count` columns left, stopping at the first column.
    pub fn move_left(&mut self, count: usize)
        ensures
            final(self).cursor_moved(old(self)),
            final(self).cursor_row == old(self).cursor_row,
            final(self).cursor_col == sat_sub(old(self).cursor_col as int, count as int),
    {
        self.cursor_col = if self.cursor_col >= count { self.cursor_col - count } else { 0 };
    }

    /// Moves the cursor `count` columns right, stopping at the last character (at the end
    /// of the line in Insert mode).
    pub fn move_right(&mut self, count: usize)
        ensures
            final(self).cursor_moved(old(self)),
            final(self).cursor_row == old(self).cursor_row,
            final(self).cursor_col == min_int(
                old(self).cursor_col + count,
                if old(self).mode == VimMode::Insert {
                    old(self).cur_len() as int
                } else {
                    sat_sub(old(self).cur_len() as int, 1)
                },
            ),
    {
        let len = self.current_line_len();
        let max = match self.mode {
            VimMode::Insert => len,
            _ => if len > 0 { len - 1 } else { 0 },
        };
        self.cursor_col = add_min(self.cursor_col, count, max);
    }

    /// Moves the cursor `count` lines down, stopping at the last line, and clamps it.
    pub fn move_down(&mut self, count: usize)
        ensures
            final(self).cursor_moved(old(self)),
            final(self).cursor_clamped_from(
                min_int(old(self).cursor_row + count, last_row(old(self).text())) as usize,
                old(self).cursor_col,
            ),
            old(self).wf() ==> final(self).wf(),
    {
        let n = self.lines.len();
        let last = if n > 0 { n - 1 } else { 0 };
        let row = add_min(self.cursor_row, count, last);
        self.set_cursor_clamped(row, self.cursor_col);
    }

    /// Moves the cursor `count` lines up, stopping at the first line, and clamps it.
    pub fn move_up(&mut self, count: usize)
        ensures
            final(self).cursor_moved(old(self)),
            final(self).cursor_clamped_from(
                sat_sub(old(self).cursor_row as int, count as int) as usize,
                old(self).cursor_col,
            ),
            old(self).wf() ==> final(self).wf(),
    {
        let row = if self.cursor_row >= count { self.cursor_row - count } else { 0 };
        self.set_cursor_clamped(row, self.cursor_col);
    }

    /// Moves the cursor to the first column.
    pub fn move_to_line_start(&mut self)
        ensures
            final(self).cursor_moved(old(self)),
            final(self).cursor_row == old(self).cursor_row,
            final(self).cursor_col == 0,
    {
        self.cursor_col = 0;
    }

    /// Moves the cursor to the first non-whitespace character of the line (its end when
    /// there is none).
    pub fn move_to_first_non_blank(&mut self)
        ensures
            final(self).cursor_moved(old(self)),
            final(self).cursor_row == old(self).cursor_row,
            final(self).cursor_col == leading_ws(old(self).cur_line()),
    {
        let line = self.current_chars();
        self.cursor_col = leading_whitespace_len(&line);
    }

    /// Moves the cursor to the last character of the line (past it in Insert mode).
    pub fn move_to_line_end(&mut self)
        ensures
            final(self).cursor_moved(old(self)),
            final(self).cursor_row == old(self).cursor_row,
            final(self).cursor_col == if old(self).mode == VimMode::Insert {
                old(self).cur_len() as int
            } else {
                sat_sub(old(self).cur_len() as int, 1)
            },
    {
        let len = self.current_line_len();
        self.cursor_col = match self.mode {
            VimMode::Insert => len,
            _ => if len > 0 { len - 1 } else { 0 },
        };
    }

    /// Moves the cursor to the start of the buffer.
    pub fn move_to_top(&mut self)
        ensures
            final(self).cursor_moved(old(self)),
            final(self).cursor_clamped_from(0, 0),
            old(self).wf() ==> final(self).wf(),
    {
        self.set_cursor_clamped(0, 0);
    }

    /// Moves the cursor to the last line, keeping the column as far as it fits.
    pub fn move_to_bottom(&mut self)
        ensures
            final(self).cursor_moved(old(self)),
            final(self).cursor_clamped_from(last_row(old(self).text()) as usize, old(self).cursor_col),
            old(self).wf() ==> final(self).wf(),
    {
        let n = self.lines.len();
        let last = if n > 0 { n - 1 } else { 0 };
        self.set_cursor_clamped(last, self.cursor_col);
    }

    /// Moves the cursor to line `line_num` (counted from one, bound by the last line; 0
    /// keeps the line), keeping the column as far as it fits.
    pub fn move_to_line(&mut self, line_num: usize)
        ensures
            final(self).cursor_moved(old(self)),
            final(self).cursor_clamped_from(
                if line_num > 0 {
                    min_int(line_num - 1, last_row(old(self).text())) as usize
                } else {
                    old(self).cursor_row
                },
                old(self).cursor_col,
            ),
            old(self).wf() ==> final(self).wf(),
    {
        let n = self.lines.len();
        let last = if n > 0 { n - 1 } else { 0 };
        let row = if line_num > 0 {
            if line_num - 1 < last { line_num - 1 } else { last }
        } else {
            self.cursor_row
        };
        self.set_cursor_clamped(row, self.cursor_col);
    }

    /// `self` with the scroll offset `v`.
    pub open spec fn with_scroll(&self, v: int) -> VimEditor {
        VimEditor { scroll_offset: v as usize, ..*self }
    }

    /// Sets the scroll offset.
    fn set_scroll(&mut self, v: usize)
        ensures
            *final(self) == old(self).with_scroll(v as int),
    {
        self.scroll_offset = v;
    }

    /// Scrolls down and moves the cursor down by half the visible height (`Ctrl-d`); the
    /// scroll stops where the last line reaches the bottom of the view.
    pub fn half_page_down(&mut self)
        ensures
            final(self).cursor_moved(
                &old(self).with_scroll(min_int(
                    old(self).scroll_offset + half_of(old(self).visible_height),
                    sat_sub(old(self).text().len() as int, old(self).visible_height as int),
                )),
            ),
            final(self).cursor_clamped_from(
                min_int(old(self).cursor_row + half_of(old(self).visible_height), last_row(old(self).text())) as usize,
                old(self).cursor_col,
            ),
    {
        let half = half_of_exec(self.visible_height);
        let n = self.lines.len();
        let last = if n > 0 { n - 1 } else { 0 };
        let row = add_min(self.cursor_row, half, last);
        let col = self.cursor_col;
        let h = self.visible_height;
        let cap = if n >= h { n - h } else { 0 };
        let v = add_min(self.scroll_offset, half, cap);
        self.set_scroll(v);
        self.set_cursor_clamped(row, col);
    }

    /// Scrolls up and moves the cursor up by half the visible height (`Ctrl-u`).
    pub fn half_page_up(&mut self)
        ensures
            final(self).cursor_moved(
                &old(self).with_scroll(sat_sub(old(self).scroll_offset as int, half_of(old(self).visible_height))),
            ),
            final(self).cursor_clamped_from(
                sat_sub(old(self).cursor_row as int, half_of(old(self).visible_height)) as usize,
                old(self).cursor_col,
            ),
    {
        let half = half_of_exec(self.visible_height);
        let row = if self.cursor_row >= half { self.cursor_row - half } else { 0 };
        let col = self.cursor_col;
        let v = if self.scroll_offset >= half { self.scroll_offset - half } else { 0 };
        self.set_scroll(v);
        self.set_cursor_clamped(row, col);
    }

    /// Moves the cursor `count` words forward (`w`, or `W` for `big_word`).
    pub fn move_word_forward(&mut self, count: usize, big_word: bool)
        requires
            old(self).wf(),
        ensures
            final(self).cursor_moved(old(self)),
            (final(self).cursor_row as int, final(self).cursor_col as int) == word_steps(
                WordMove::Start,
                old(self).text(),
                old(self).cursor_row as int,
                old(self).cursor_col as int,
                big_word,
                count as nat,
            ),
    {
        let p = word_steps_exec(WordMove::Start, self.lines.as_slice(), self.cursor_row, self.cursor_col, big_word, count);
        self.cursor_row = p.0;
        self.cursor_col = p.1;
    }

    /// Moves the cursor to the end of the word, `count` times (`e`, or `E` for `big_word`).
    pub fn move_word_end(&mut self, count: usize, big_word: bool)
        requires
            old(self).wf(),
        ensures
            final(self).cursor_moved(old(self)),
            (final(self).cursor_row as int, final(self).cursor_col as int) == word_steps(
                WordMove::End,
                old(self).text(),
                old(self).cursor_row as int,
                old(self).cursor_col as int,
                big_word,
                count as nat,
            ),
    {
        let p = word_steps_exec(WordMove::End, self.lines.as_slice(), self.cursor_row, self.cursor_col, big_word, count);
        self.cursor_row = p.0;
        self.cursor_col = p.1;
    }

    /// Moves the cursor `count` words back (`b`, or `B` for `big_word`).
    pub fn move_word_back(&mut self, count: usize, big_word: bool)
        requires
            old(self).wf(),
        ensures
            final(self).cursor_moved(old(self)),
            (final(self).cursor_row as int, final(self).cursor_col as int) == word_steps(
                WordMove::Back,
                old(self).text(),
                old(self).cursor_row as int,
                old(self).cursor_col as int,
                big_word,
                count as nat,
            ),
    {
        let p = word_steps_exec(WordMove::Back, self.lines.as_slice(), self.cursor_row, self.cursor_col, big_word, count);
        self.cursor_row = p.0;
        self.cursor_col = p.1;
    }

    /// `f` / `t`: moves to the next `target` after the cursor on the line (for `before`,
    /// to the column before it, but never left of the cursor). Stays put when there is none.
    pub fn find_char_forward(&mut self, target: char, before: bool)
        ensures
            final(self).cursor_moved(old(self)),
            final(self).cursor_row == old(self).cursor_row,
            final(self).cursor_col == find_forward_col(old(self).cur_line(), old(self).cursor_col as int, target, before),
    {
        let line = self.current_chars();
        self.cursor_col = find_forward_col_exec(&line, self.cursor_col, target, before);
    }

    /// `F` / `T`: moves to the previous `target` before the cursor on the line (for
    /// `after`, to the column after it). Stays put when there is none.
    pub fn find_char_backward(&mut self, target: char, after: bool)
        ensures
            final(self).cursor_moved(old(self)),
            final(self).cursor_row == old(self).cursor_row,
            final(self).cursor_col == find_backward_col(old(self).cur_line(), old(self).cursor_col as int, target, after),
    {
        let line = self.current_chars();
        self.cursor_col = find_backward_col_exec(&line, self.cursor_col, target, after);
    }
}


// ---------------------------------------------------------------------------------------
// Ranges of motions and text objects
// ---------------------------------------------------------------------------------------

/// Motions that can be combined with operators
#[derive(Debug, Clone, Copy, PartialEq, Eq, Structural)]
pub enum Motion {
    Left,
    Right,
    Up,
    Down,
    WordForward,
    WordEnd,
    WordBack,
    BigWordForward,
    BigWordEnd,
    BigWordBack,
    LineStart,
    LineEnd,
    FirstNonBlank,
    /// dd, yy, cc (whole line)
    Line,
    /// gg
    ToTop,
    /// G
    ToBottom,
    /// iw
    InnerWord,
    /// aw: the word and the whitespace after it
    AroundWord,
    /// i" i'
    InnerQuote(char),
    /// a" a': the quotes included
    AroundQuote(char),
    /// i( i) i{ i}
    InnerParen(char, char),
    /// a( a) a{ a}: the brackets included
    AroundParen(char, char),
    /// f
    FindCharForward(char),
    /// t
    FindCharBefore(char),
    /// F
    FindCharBackward(char),
    /// T
    FindCharAfter(char),
    /// %: to the matching bracket
    MatchBracket,
}

/// The columns `start..end` of the inner word under column `col` of `line`: the run of
/// word characters, of whitespace, or of other characters that holds the cursor (the
/// cursor bound by the last character). An empty line gives `(0, 0)`.
pub open spec fn inner_word(line: Seq<char>, col: int) -> (int, int) {
    if line.len() == 0 {
        (0, 0)
    } else {
        let c = if col <= line.len() - 1 { col } else { line.len() - 1 };
        let ch = line[c];
        let cls = if word_char(ch, false) {
            CharClass::WordIs(false, true)
        } else if whitespace_char(ch) {
            CharClass::Space
        } else {
            CharClass::Punct(false)
        };
        (run_start(line, c, cls), run_end(line, c, cls) + 1)
    }
}

/// The columns `start..end` strictly inside the delimiters around column `col` of the
/// (non-empty) `line`: after the last `open` at or before the cursor, up to the first
/// `close` at or after both the cursor and that start.
pub open spec fn inner_delimited(line: Seq<char>, col: int, open: char, close: char) -> Option<(int, int)> {
    let c = if col <= line.len() - 1 { col } else { line.len() - 1 };
    match find_back(line, c + 1, open) {
        Some(i) => {
            let start = i + 1;
            match find_fwd(line, if c >= start { c } else { start }, close) {
                Some(end) => if start <= end {
                    Some((start, end))
                } else {
                    None
                },
                None => None,
            }
        },
        None => None,
    }
}

/// The plain value of a motion range.
pub open spec fn range_tuple(r: MotionRange) -> (int, int, int, int, bool) {
    (r.start_row as int, r.start_col as int, r.end_row as int, r.end_col as int, r.linewise)
}

/// The plain value of an optional motion range.
pub open spec fn opt_range_tuple(r: Option<MotionRange>) -> Option<(int, int, int, int, bool)> {
    match r {
        Some(m) => Some(range_tuple(m)),
        None => None,
    }
}

/// A characterwise range on one row.
pub open spec fn on_row(row: int, s: int, e: int) -> Option<(int, int, int, int, bool)> {
    Some((row, s, row, e, false))
}

/// The range that `motion`, repeated `count` times where that applies, covers from the
/// cursor (`row`, `col`) of `text`, for an operator. Characterwise ranges end exclusively;
/// linewise ranges cover whole rows. `None` when the motion finds nothing.
pub open spec fn motion_range(text: Seq<Seq<char>>, row: int, col: int, motion: Motion, count: nat) -> Option<(int, int, int, int, bool)> {
    let line = line_at(text, row);
    let len = line.len() as int;
    match motion {
        Motion::Left => on_row(row, sat_sub(col, count as int), col),
        Motion::Right => on_row(row, col, min_int(col + count, len)),
        Motion::Down => Some((row, 0, min_int(row + count, last_row(text)), 0, true)),
        Motion::Up => Some((sat_sub(row, count as int), 0, row, 0, true)),
        Motion::LineStart => on_row(row, 0, col),
        Motion::LineEnd => on_row(row, col, len),
        Motion::WordForward | Motion::BigWordForward => {
            let p = word_steps(WordMove::SimStart, text, row, col, motion == Motion::BigWordForward, count);
            Some((row, col, p.0, p.1, false))
        },
        Motion::WordEnd | Motion::BigWordEnd => {
            let p = word_steps(WordMove::End, text, row, col, motion == Motion::BigWordEnd, count);
            Some((row, col, p.0, min_int(p.1 + 1, line_at(text, p.0).len() as int), false))
        },
        Motion::WordBack | Motion::BigWordBack => {
            let p = word_steps(WordMove::Back, text, row, col, motion == Motion::BigWordBack, count);
            Some((p.0, p.1, row, col, false))
        },
        Motion::Line => Some((row, 0, min_int(sat_sub(row + count, 1), last_row(text)), 0, true)),
        Motion::ToTop => Some((0, 0, row, 0, true)),
        Motion::ToBottom => Some((row, 0, last_row(text), 0, true)),
        Motion::FirstNonBlank => {
            let f = leading_ws(line) as int;
            if f <= col {
                on_row(row, f, col)
            } else {
                on_row(row, col, f)
            }
        },
        Motion::InnerWord => on_row(row, inner_word(line, col).0, inner_word(line, col).1),
        Motion::AroundWord => {
            let w = inner_word(line, col);
            on_row(row, w.0, skip_fwd(line, w.1, CharClass::Space))
        },
        Motion::InnerQuote(q) => match inner_delimited(line, col, q, q) {
            Some((s, e)) => on_row(row, s, e),
            None => None,
        },
        Motion::AroundQuote(q) => match inner_delimited(line, col, q, q) {
            Some((s, e)) => on_row(row, s - 1, e + 1),
            None => None,
        },
        Motion::InnerParen(o, c) => match inner_delimited(line, col, o, c) {
            Some((s, e)) => on_row(row, s, e),
            None => None,
        },
        Motion::AroundParen(o, c) => match inner_delimited(line, col, o, c) {
            Some((s, e)) => on_row(row, s - 1, e + 1),
            None => None,
        },
        Motion::FindCharForward(c) => match find_fwd(line, col + 1, c) {
            Some(i) => on_row(row, col, i + 1),
            None => None,
        },
        Motion::FindCharBefore(c) => match find_fwd(line, col + 1, c) {
            Some(i) => on_row(row, col, i),
            None => None,
        },
        Motion::FindCharBackward(c) => match find_back(line, col, c) {
            Some(i) => on_row(row, i, col),
            None => None,
        },
        Motion::FindCharAfter(c) => match find_back(line, col, c) {
            Some(i) => on_row(row, i + 1, col),
            None => None,
        },
        Motion::MatchBracket => match crate::render::bracket_match(text, row, col) {
            Some((r, c)) => if r < row || (r == row && c < col) {
                Some((r, c, row, col + 1, false))
            } else {
                Some((row, col, r, c + 1, false))
            },
            None => None,
        },
    }
}

/// A word motion keeps the row on a line, moving down for `w` and `e` and up for `b`.
pub proof fn lemma_word_steps_rows(m: WordMove, text: Seq<Seq<char>>, row: int, col: int, big: bool, n: nat)
    requires
        0 <= row < text.len(),
    ensures
        0 <= word_steps(m, text, row, col, big, n).0 < text.len(),
        m != WordMove::Back ==> word_steps(m, text, row, col, big, n).0 >= row,
        m == WordMove::Back ==> word_steps(m, text, row, col, big, n).0 <= row,
    decreases n,
{
    if n > 0 {
        lemma_word_steps_rows(m, text, row, col, big, (n - 1) as nat);
    }
}

/// The rows of a motion range are in order and within the text.
pub proof fn lemma_motion_range_rows(text: Seq<Seq<char>>, row: int, col: int, motion: Motion, count: nat)
    requires
        0 <= row < text.len(),
        motion == Motion::Line && count == 0 ==> row == 0,
    ensures
        motion_range(text, row, col, motion, count) matches Some(t) ==> 0 <= t.0 <= t.2 < text.len(),
{
    match motion {
        Motion::WordForward | Motion::BigWordForward => {
            lemma_word_steps_rows(WordMove::SimStart, text, row, col, motion == Motion::BigWordForward, count);
        },
        Motion::WordEnd | Motion::BigWordEnd => {
            lemma_word_steps_rows(WordMove::End, text, row, col, motion == Motion::BigWordEnd, count);
        },
        Motion::WordBack | Motion::BigWordBack => {
            lemma_word_steps_rows(WordMove::Back, text, row, col, motion == Motion::BigWordBack, count);
        },
        Motion::MatchBracket => {
            crate::render::lemma_bracket_match_in_text(text, row, col);
        },
        _ => {},
    }
}

/// Whether `(r1, c1)` comes no later than `(r2, c2)`: by row, then by column.
pub open spec fn pos_le(r1: int, c1: int, r2: int, c2: int) -> bool {
    r1 < r2 || (r1 == r2 && c1 <= c2)
}

/// The motions whose ranges cover whole lines.
pub open spec fn linewise_motion(motion: Motion) -> bool {
    match motion {
        Motion::Up | Motion::Down | Motion::Line | Motion::ToTop | Motion::ToBottom => true,
        _ => false,
    }
}

/// The motions that can find nothing: the delimited text objects, the character finds
/// and the bracket match.
pub open spec fn may_find_nothing(motion: Motion) -> bool {
    match motion {
        Motion::InnerQuote(_) | Motion::AroundQuote(_) | Motion::InnerParen(_, _) | Motion::AroundParen(_, _)
        | Motion::FindCharForward(_) | Motion::FindCharBefore(_) | Motion::FindCharBackward(_)
        | Motion::FindCharAfter(_) | Motion::MatchBracket => true,
        _ => false,
    }
}

proof fn lemma_skip_fwd_bounds(s: Seq<char>, i: int, cls: CharClass)
    ensures
        skip_fwd(s, i, cls) >= i,
        i <= s.len() ==> skip_fwd(s, i, cls) <= s.len(),
    decreases s.len() - i,
{
    if 0 <= i < s.len() && in_class(s[i], cls) {
        lemma_skip_fwd_bounds(s, i + 1, cls);
    }
}

proof fn lemma_run_end_ge(s: Seq<char>, i: int, cls: CharClass)
    ensures
        run_end(s, i, cls) >= i,
    decreases s.len() - i,
{
    if 0 <= i && i + 1 < s.len() && in_class(s[i + 1], cls) {
        lemma_run_end_ge(s, i + 1, cls);
    }
}

proof fn lemma_run_end_lt(s: Seq<char>, i: int, cls: CharClass)
    requires
        i < s.len(),
    ensures
        run_end(s, i, cls) < s.len(),
    decreases s.len() - i,
{
    if 0 <= i && i + 1 < s.len() && in_class(s[i + 1], cls) {
        lemma_run_end_lt(s, i + 1, cls);
    }
}

proof fn lemma_run_start_le(s: Seq<char>, i: int, cls: CharClass)
    ensures
        run_start(s, i, cls) <= i,
    decreases i,
{
    if 0 < i <= s.len() && in_class(s[i - 1], cls) {
        lemma_run_start_le(s, i - 1, cls);
    }
}

proof fn lemma_skip_back_le(s: Seq<char>, i: int, cls: CharClass)
    ensures
        skip_back(s, i, cls) <= i,
    decreases i,
{
    if 0 < i < s.len() && in_class(s[i], cls) {
        lemma_skip_back_le(s, i - 1, cls);
    }
}

proof fn lemma_find_fwd_ge(s: Seq<char>, i: int, ch: char)
    ensures
        find_fwd(s, i, ch) matches Some(k) ==> i <= k,
    decreases s.len() - i,
{
    if !(i < 0 || i >= s.len()) && s[i] != ch {
        lemma_find_fwd_ge(s, i + 1, ch);
    }
}

proof fn lemma_find_back_lt(s: Seq<char>, i: int, ch: char)
    ensures
        find_back(s, i, ch) matches Some(k) ==> k < i,
    decreases i,
{
    if i > 0 && !(i - 1 < s.len() && s[i - 1] == ch) {
        lemma_find_back_lt(s, i - 1, ch);
    }
}

/// One word step forward (`w` or `e`) never goes back, one step back (`b`) never goes
/// forward, and the column reached lies within its line.
proof fn lemma_word_step_order(m: WordMove, text: Seq<Seq<char>>, row: int, col: int, big: bool)
    requires
        0 <= row < text.len(),
        0 <= col <= line_at(text, row).len(),
    ensures
        ({
            let p = word_step(m, text, row, col, big);
            &&& m == WordMove::Back ==> pos_le(p.0, p.1, row, col) && 0 <= p.1
            &&& m != WordMove::Back ==> pos_le(row, col, p.0, p.1)
            &&& 0 <= p.1 <= line_at(text, p.0).len()
        }),
{
    let line = line_at(text, row);
    match m {
        WordMove::SimStart | WordMove::Start => {
            if col < line.len() {
                let c1 = if word_char(line[col], big) {
                    skip_fwd(line, col, CharClass::WordIs(big, true))
                } else {
                    skip_fwd(line, col, CharClass::Punct(big))
                };
                lemma_skip_fwd_bounds(line, col, CharClass::WordIs(big, true));
                lemma_skip_fwd_bounds(line, col, CharClass::Punct(big));
                lemma_skip_fwd_bounds(line, c1, CharClass::Space);
            }
            if row + 1 < text.len() {
                lemma_skip_fwd_bounds(text[row + 1], 0, CharClass::Space);
                assert(line_at(text, row + 1) == text[row + 1]);
            }
        },
        WordMove::End => {
            if col + 1 < line.len() {
                lemma_skip_fwd_bounds(line, col + 1, CharClass::Space);
            }
            let c = if col + 1 < line.len() { skip_fwd(line, col + 1, CharClass::Space) } else { col + 1 };
            if c < line.len() {
                lemma_run_end_ge(line, c, CharClass::WordIs(big, word_char(line[c], big)));
                lemma_run_end_lt(line, c, CharClass::WordIs(big, word_char(line[c], big)));
            }
            if row + 1 < text.len() {
                let next = text[row + 1];
                assert(line_at(text, row + 1) == next);
                lemma_skip_fwd_bounds(next, 0, CharClass::Space);
                let f = first_non_ws(next);
                if f < next.len() {
                    lemma_run_end_ge(next, f, CharClass::WordIs(big, word_char(next[f], big)));
                    lemma_run_end_lt(next, f, CharClass::WordIs(big, word_char(next[f], big)));
                }
            }
        },
        WordMove::Back => {
            if col > 0 {
                let m0 = if col <= line.len() { col } else { line.len() as int };
                let c0 = if m0 > 0 { m0 - 1 } else { 0 };
                lemma_skip_back_le(line, c0, CharClass::Space);
                let c1 = skip_back(line, c0, CharClass::Space);
                let w = c1 < line.len() && word_char(line[c1], big);
                lemma_run_start_le(line, c1, CharClass::WordIs(big, w));
                assert(c1 >= 0) by {
                    lemma_skip_back_ge0(line, c0, CharClass::Space);
                }
                lemma_run_start_ge0(line, c1, CharClass::WordIs(big, w));
            }
        },
    }
}

proof fn lemma_skip_back_ge0(s: Seq<char>, i: int, cls: CharClass)
    requires
        i >= 0,
    ensures
        skip_back(s, i, cls) >= 0,
    decreases i,
{
    if 0 < i < s.len() && in_class(s[i], cls) {
        lemma_skip_back_ge0(s, i - 1, cls);
    }
}

proof fn lemma_run_start_ge0(s: Seq<char>, i: int, cls: CharClass)
    requires
        i >= 0,
    ensures
        run_start(s, i, cls) >= 0,
    decreases i,
{
    if 0 < i <= s.len() && in_class(s[i - 1], cls) {
        lemma_run_start_ge0(s, i - 1, cls);
    }
}

/// `n` word steps keep the order of one step: forward kinds never go back, `b` never goes
/// forward, and every step stays within its line.
proof fn lemma_word_steps_order(m: WordMove, text: Seq<Seq<char>>, row: int, col: int, big: bool, n: nat)
    requires
        0 <= row < text.len(),
        0 <= col <= line_at(text, row).len(),
    ensures
        ({
            let p = word_steps(m, text, row, col, big, n);
            &&& m == WordMove::Back ==> pos_le(p.0, p.1, row, col) && 0 <= p.1
            &&& m != WordMove::Back ==> pos_le(row, col, p.0, p.1)
            &&& 0 <= p.1 <= line_at(text, p.0).len()
        }),
    decreases n,
{
    if n > 0 {
        lemma_word_steps_order(m, text, row, col, big, (n - 1) as nat);
        lemma_word_steps_rows(m, text, row, col, big, (n - 1) as nat);
        let q = word_steps(m, text, row, col, big, (n - 1) as nat);
        lemma_word_step_order(m, text, q.0, q.1, big);
    }
}

/// The shape of every motion range from a cursor within its line: the range starts no later
/// than it ends and lies within the text, it is linewise exactly for the line motions
/// (`j`, `k`, the doubled operator, `gg`, `G`), whose columns are then 0, and only the
/// delimited text objects, the character finds and `%` can find nothing. (A line motion
/// with count 0 is left out below the first row: its range would end above its start.)
pub proof fn lemma_motion_range_shape(ed: VimEditor, motion: Motion, count: nat)
    requires
        ed.wf(),
        ed.cursor_col <= ed.cur_len(),
        motion == Motion::Line && count == 0 ==> ed.cursor_row == 0,
    ensures
        motion_range(ed.text(), ed.cursor_row as int, ed.cursor_col as int, motion, count) matches Some(t) ==> {
            &&& 0 <= t.0 <= t.2 < ed.text().len()
            &&& pos_le(t.0, t.1, t.2, t.3)
            &&& t.4 == linewise_motion(motion)
            &&& t.4 ==> t.1 == 0 && t.3 == 0
        },
        motion_range(ed.text(), ed.cursor_row as int, ed.cursor_col as int, motion, count) is None ==> may_find_nothing(motion),
{
    let text = ed.text();
    let row = ed.cursor_row as int;
    let col = ed.cursor_col as int;
    let line = line_at(text, row);
    lemma_motion_range_rows(text, row, col, motion, count);
    match motion {
        Motion::WordForward | Motion::BigWordForward => {
            lemma_word_steps_order(WordMove::SimStart, text, row, col, motion == Motion::BigWordForward, count);
        },
        Motion::WordEnd | Motion::BigWordEnd => {
            lemma_word_steps_order(WordMove::End, text, row, col, motion == Motion::BigWordEnd, count);
        },
        Motion::WordBack | Motion::BigWordBack => {
            lemma_word_steps_order(WordMove::Back, text, row, col, motion == Motion::BigWordBack, count);
        },
        Motion::InnerWord | Motion::AroundWord => {
            if line.len() > 0 {
                let c = if col <= line.len() - 1 { col } else { line.len() - 1 };
                let ch = line[c];
                let cls = if word_char(ch, false) {
                    CharClass::WordIs(false, true)
                } else if whitespace_char(ch) {
                    CharClass::Space
                } else {
                    CharClass::Punct(false)
                };
                lemma_run_start_le(line, c, cls);
                lemma_run_end_ge(line, c, cls);
            }
            lemma_skip_fwd_bounds(line, inner_word(line, col).1, CharClass::Space);
        },
        Motion::FindCharForward(ch) | Motion::FindCharBefore(ch) => {
            lemma_find_fwd_ge(line, col + 1, ch);
        },
        Motion::FindCharBackward(ch) | Motion::FindCharAfter(ch) => {
            lemma_find_back_lt(line, col, ch);
        },
        _ => {},
    }
}

/// What [`find_fwd`] finds from `i` is the first `ch` at or after `i`; when it finds none,
/// no `ch` lies at or after `i`.
proof fn lemma_find_fwd_first(s: Seq<char>, i: int, ch: char)
    requires
        i >= 0,
    ensures
        find_fwd(s, i, ch) matches Some(k) ==> i <= k < s.len() && s[k] == ch
            && forall|m: int| i <= m < k ==> s[m] != ch,
        find_fwd(s, i, ch) is None ==> forall|m: int| i <= m < s.len() ==> s[m] != ch,
    decreases s.len() - i,
{
    if i < s.len() && s[i] != ch {
        lemma_find_fwd_first(s, i + 1, ch);
    }
}

/// What [`find_back`] finds before `i` is the last `ch` before `i`; when it finds none, no
/// `ch` lies before `i`.
proof fn lemma_find_back_last(s: Seq<char>, i: int, ch: char)
    requires
        i <= s.len(),
    ensures
        find_back(s, i, ch) matches Some(k) ==> 0 <= k < i && s[k] == ch
            && forall|m: int| k < m < i ==> s[m] != ch,
        find_back(s, i, ch) is None ==> forall|m: int| 0 <= m < i ==> s[m] != ch,
    decreases i,
{
    if i > 0 && s[i - 1] != ch {
        lemma_find_back_last(s, i - 1, ch);
    }
}

/// Law: the text inside a pair of delimiters around the cursor (`i(`, `i"`, ...) starts
/// just after the nearest opening delimiter at or before the cursor column (the last one
/// when the cursor is past the end) and ends at the first closing delimiter at or after
/// both the cursor and that start. When there is such an opening delimiter but no closing
/// one after it, nothing is found; with no opening delimiter, nothing is found either.
pub proof fn lemma_inner_delimited_nearest(line: Seq<char>, col: int, open: char, close: char)
    requires
        line.len() > 0,
        col >= 0,
    ensures
        ({
            let c = if col <= line.len() - 1 { col } else { line.len() - 1 };
            &&& inner_delimited(line, col, open, close) matches Some((s, e)) ==> {
                &&& 1 <= s <= e < line.len()
                &&& line[s - 1] == open
                &&& s - 1 <= c
                &&& forall|m: int| s <= m <= c ==> line[m] != open
                &&& line[e] == close
                &&& c <= e
                &&& forall|m: int| (if c >= s { c } else { s }) <= m < e ==> line[m] != close
            }
            &&& inner_delimited(line, col, open, close) is None ==> forall|o: int|
                0 <= o <= c && line[o] == open && (forall|m: int| o < m <= c ==> line[m] != open)
                    ==> forall|m: int| (if c >= o + 1 { c } else { o + 1 }) <= m < line.len() ==> line[m] != close
        }),
{
    let c = if col <= line.len() - 1 { col } else { line.len() - 1 };
    lemma_find_back_last(line, c + 1, open);
    match find_back(line, c + 1, open) {
        Some(i) => {
            let start = i + 1;
            lemma_find_fwd_first(line, if c >= start { c } else { start }, close);
            assert forall|o: int|
                0 <= o <= c && line[o] == open && (forall|m: int| o < m <= c ==> line[m] != open) implies o == i by {
                if o < i {
                    assert(line[i] == open);
                }
            }
        },
        None => {},
    }
}

/// [`skip_back`] over whitespace from `i` stops at the first column or on a character that
/// is not whitespace, having passed only whitespace.
proof fn lemma_skip_back_space(s: Seq<char>, i: int)
    requires
        0 <= i < s.len(),
    ensures
        0 <= skip_back(s, i, CharClass::Space) <= i,
        skip_back(s, i, CharClass::Space) == 0 || !whitespace_char(s[skip_back(s, i, CharClass::Space)]),
        forall|k: int| skip_back(s, i, CharClass::Space) < k <= i ==> whitespace_char(s[k]),
    decreases i,
{
    if 0 < i && whitespace_char(s[i]) {
        lemma_skip_back_space(s, i - 1);
    }
}

/// [`run_start`] from `i` stops at the first column or after a character outside `cls`,
/// having passed only characters in `cls`.
proof fn lemma_run_start_run(s: Seq<char>, i: int, cls: CharClass)
    requires
        0 <= i <= s.len(),
    ensures
        0 <= run_start(s, i, cls) <= i,
        run_start(s, i, cls) == 0 || !in_class(s[run_start(s, i, cls) - 1], cls),
        forall|k: int| run_start(s, i, cls) <= k < i ==> in_class(s[k], cls),
    decreases i,
{
    if 0 < i && in_class(s[i - 1], cls) {
        lemma_run_start_run(s, i - 1, cls);
    }
}

/// Law: `b` from a column past the first, on a line with a non-blank character before the
/// cursor, stays on the line and lands on the start of the run that holds the last
/// non-blank character before the cursor: the characters from the landing column to that
/// one are all word characters or all not (for WORDs: not whitespace or whitespace), the
/// character before the landing column (if any) is of the other kind, and only whitespace
/// lies between that last non-blank character and the cursor.
pub proof fn lemma_word_back_run_start(text: Seq<Seq<char>>, row: int, col: int, big: bool)
    requires
        0 <= row < text.len(),
        col > 0,
        exists|k: int| 0 <= k < min_int(col, line_at(text, row).len() as int) && !whitespace_char(#[trigger] line_at(text, row)[k]),
    ensures
        ({
            let line = line_at(text, row);
            let m0 = min_int(col, line.len() as int);
            let p = word_step(WordMove::Back, text, row, col, big);
            &&& p.0 == row
            &&& exists|e: int| {
                &&& p.1 <= e < m0
                &&& !whitespace_char(#[trigger] line[e])
                &&& forall|k: int| e < k < m0 ==> whitespace_char(line[k])
                &&& forall|k: int| p.1 <= k <= e ==> word_char(line[k], big) == word_char(line[e], big)
                &&& p.1 == 0 || word_char(line[p.1 - 1], big) != word_char(line[e], big)
            }
        }),
{
    let line = line_at(text, row);
    let m0 = min_int(col, line.len() as int);
    let c0 = m0 - 1;
    lemma_skip_back_space(line, c0);
    let c1 = skip_back(line, c0, CharClass::Space);
    let k0 = choose|k: int| 0 <= k < m0 && !whitespace_char(#[trigger] line[k]);
    assert(!whitespace_char(line[c1])) by {
        if c1 == 0 && whitespace_char(line[0]) {
            assert(whitespace_char(line[k0]));
        }
    }
    let w = c1 < line.len() && word_char(line[c1], big);
    lemma_run_start_run(line, c1, CharClass::WordIs(big, w));
    let b = run_start(line, c1, CharClass::WordIs(big, w));
    assert(word_step(WordMove::Back, text, row, col, big) == (row, b));
    assert forall|k: int| b <= k <= c1 implies word_char(line[k], big) == word_char(line[c1], big) by {
        if k < c1 {
            assert(in_class(line[k], CharClass::WordIs(big, w)));
        }
    }
    assert(!whitespace_char(line[c1]));
}

/// [`skip_fwd`] from `i` stops at the end of the line or on a character outside `cls`,
/// having passed only characters in `cls`.
proof fn lemma_skip_fwd_run(s: Seq<char>, i: int, cls: CharClass)
    requires
        0 <= i <= s.len(),
    ensures
        i <= skip_fwd(s, i, cls) <= s.len(),
        skip_fwd(s, i, cls) == s.len() || !in_class(s[skip_fwd(s, i, cls)], cls),
        forall|k: int| i <= k < skip_fwd(s, i, cls) ==> in_class(s[k], cls),
    decreases s.len() - i,
{
    if i < s.len() && in_class(s[i], cls) {
        lemma_skip_fwd_run(s, i + 1, cls);
    }
}

/// [`run_end`] from `i` stops at the last character or before a character outside `cls`,
/// having passed only characters in `cls`.
proof fn lemma_run_end_run(s: Seq<char>, i: int, cls: CharClass)
    requires
        0 <= i < s.len(),
    ensures
        i <= run_end(s, i, cls) < s.len(),
        run_end(s, i, cls) == s.len() - 1 || !in_class(s[run_end(s, i, cls) + 1], cls),
        forall|k: int| i < k <= run_end(s, i, cls) ==> in_class(s[k], cls),
    decreases s.len() - i,
{
    if i + 1 < s.len() && in_class(s[i + 1], cls) {
        lemma_run_end_run(s, i + 1, cls);
    }
}

/// Law: `w` from a character of a line moves right past the rest of the run under the
/// cursor (word characters, or other non-blank characters) and the whitespace after it. It
/// stays on the line when a non-blank character follows there, landing on it; otherwise it
/// goes to the first non-blank column of the next line (its end when it is blank), or stays
/// put on the last line.
pub proof fn lemma_word_forward_next_start(text: Seq<Seq<char>>, row: int, col: int, big: bool) -> (ec: (int, int))
    requires
        0 <= row < text.len(),
        0 <= col < line_at(text, row).len(),
    ensures
        ({
            let line = line_at(text, row);
            let p = word_step(WordMove::Start, text, row, col, big);
            let wc = word_char(line[col], big);
            let (e, c) = ec;
            &&& col <= e <= c <= line.len() && col < c
            &&& forall|k: int| col <= k < e ==> word_char(#[trigger] line[k], big) == wc && (wc || !whitespace_char(line[k]))
            &&& e < line.len() ==> (whitespace_char(line[e]) || word_char(line[e], big) != wc)
            &&& forall|k: int| e <= k < c ==> whitespace_char(#[trigger] line[k])
            &&& if c < line.len() {
                !whitespace_char(line[c]) && p == (row, c)
            } else if row + 1 < text.len() {
                &&& p.0 == row + 1
                &&& 0 <= p.1 <= text[row + 1].len()
                &&& forall|k: int| 0 <= k < p.1 ==> whitespace_char(#[trigger] text[row + 1][k])
                &&& p.1 == text[row + 1].len() || !whitespace_char(text[row + 1][p.1])
            } else {
                p == (row, col)
            }
        }),
{
    let line = line_at(text, row);
    let wc = word_char(line[col], big);
    let cls = if wc { CharClass::WordIs(big, true) } else { CharClass::Punct(big) };
    lemma_skip_fwd_run(line, col, cls);
    let e = skip_fwd(line, col, cls);
    lemma_skip_fwd_run(line, e, CharClass::Space);
    let c = skip_fwd(line, e, CharClass::Space);
    assert(word_start_col(line, col, big) == c);
    assert forall|k: int| col <= k < e implies word_char(#[trigger] line[k], big) == wc && (wc || !whitespace_char(line[k])) by {
        assert(in_class(line[k], cls));
    }
    if e == col {
        assert(!in_class(line[col], cls));
        assert(whitespace_char(line[col]));
    }
    if row + 1 < text.len() {
        lemma_skip_fwd_run(text[row + 1], 0, CharClass::Space);
        assert(line_at(text, row + 1) == text[row + 1]);
    }
    (e, c)
}

/// Law: `e` moves right to the last character of a run: past the whitespace after the
/// cursor, then along the run of characters of the same kind (word characters or not) as
/// the first one reached, to its end. It stays on the line when a non-blank character
/// follows the cursor there; otherwise it goes to the next line, or stays put on the last
/// line.
pub proof fn lemma_word_end_run_end(text: Seq<Seq<char>>, row: int, col: int, big: bool) -> (c: int)
    requires
        0 <= row < text.len(),
        0 <= col < line_at(text, row).len(),
    ensures
        ({
            let line = line_at(text, row);
            let p = word_step(WordMove::End, text, row, col, big);
            &&& col < c <= line.len()
            &&& forall|k: int| col < k < c ==> whitespace_char(#[trigger] line[k])
            &&& if c < line.len() {
                &&& !whitespace_char(line[c])
                &&& p.0 == row && c <= p.1 < line.len()
                &&& forall|k: int| c <= k <= p.1 ==> word_char(#[trigger] line[k], big) == word_char(line[c], big)
                &&& p.1 + 1 == line.len() || word_char(line[p.1 + 1], big) != word_char(line[c], big)
            } else if row + 1 < text.len() {
                p.0 == row + 1
            } else {
                p == (row, col)
            }
        }),
{
    let line = line_at(text, row);
    if col + 1 < line.len() {
        lemma_skip_fwd_run(line, col + 1, CharClass::Space);
    }
    let c = if col + 1 < line.len() { skip_fwd(line, col + 1, CharClass::Space) } else { col + 1 };
    if c < line.len() {
        let cls = CharClass::WordIs(big, word_char(line[c], big));
        lemma_run_end_run(line, c, cls);
        let e = run_end(line, c, cls);
        assert(word_step(WordMove::End, text, row, col, big) == (row, e));
        assert forall|k: int| c <= k <= e implies word_char(#[trigger] line[k], big) == word_char(line[c], big) by {
            if k > c {
                assert(in_class(line[k], cls));
            }
        }
        if e + 1 < line.len() {
            assert(!in_class(line[e + 1], cls));
        }
    }
    c
}

/// Law: the inner word under the cursor (`iw`) is the whole run around the cursor column
/// (the last column when the cursor is past the end) of characters of one kind: word
/// characters when the cursor is on one, else whitespace when it is on whitespace, else
/// the other characters. It holds the cursor column, every character in it is of that
/// kind, and the characters just outside it are not.
pub proof fn lemma_inner_word_run(line: Seq<char>, col: int)
    requires
        line.len() > 0,
        col >= 0,
    ensures
        ({
            let c = if col <= line.len() - 1 { col } else { line.len() - 1 };
            let (s, e) = inner_word(line, col);
            let ch = line[c];
            &&& 0 <= s <= c < e <= line.len()
            &&& word_char(ch, false) ==> {
                &&& forall|k: int| s <= k < e ==> word_char(#[trigger] line[k], false)
                &&& s == 0 || !word_char(line[s - 1], false)
                &&& e == line.len() || !word_char(line[e], false)
            }
            &&& !word_char(ch, false) && whitespace_char(ch) ==> {
                &&& forall|k: int| s <= k < e ==> whitespace_char(#[trigger] line[k])
                &&& s == 0 || !whitespace_char(line[s - 1])
                &&& e == line.len() || !whitespace_char(line[e])
            }
            &&& !word_char(ch, false) && !whitespace_char(ch) ==> {
                &&& forall|k: int| s <= k < e ==> !word_char(#[trigger] line[k], false) && !whitespace_char(line[k])
                &&& s == 0 || word_char(line[s - 1], false) || whitespace_char(line[s - 1])
                &&& e == line.len() || word_char(line[e], false) || whitespace_char(line[e])
            }
        }),
{
    let c = if col <= line.len() - 1 { col } else { line.len() - 1 };
    let ch = line[c];
    let cls = if word_char(ch, false) {
        CharClass::WordIs(false, true)
    } else if whitespace_char(ch) {
        CharClass::Space
    } else {
        CharClass::Punct(false)
    };
    lemma_run_start_run(line, c, cls);
    lemma_run_end_run(line, c, cls);
    assert forall|k: int| run_start(line, c, cls) <= k < run_end(line, c, cls) + 1 implies #[trigger] in_class(line[k], cls) by {}
}

/// Whether the cursor line must hold a character for `motion` (the delimited text
/// objects read the character under the cursor).
pub open spec fn needs_char(motion: Motion) -> bool {
    match motion {
        Motion::InnerQuote(_) | Motion::AroundQuote(_) | Motion::InnerParen(_, _) | Motion::AroundParen(_, _) => true,
        _ => false,
    }
}

/// Executable form of [`needs_char`].
pub fn needs_char_exec(motion: Motion) -> (r: bool)
    ensures
        r == needs_char(motion),
{
    match motion {
        Motion::InnerQuote(_) | Motion::AroundQuote(_) | Motion::InnerParen(_, _) | Motion::AroundParen(_, _) => true,
        _ => false,
    }
}

/// A characterwise range on one row.
fn row_range(row: usize, s: usize, e: usize) -> (r: MotionRange)
    ensures
        Some(range_tuple(r)) == on_row(row as int, s as int, e as int),
{
    MotionRange { start_row: row, start_col: s, end_row: row, end_col: e, linewise: false }
}

/// Executable form of [`inner_word`].
pub fn find_inner_word(line: &Vec<char>, col: usize) -> (r: (usize, usize))
    ensures
        (r.0 as int, r.1 as int) == inner_word(line@, col as int),
        r.0 <= r.1 <= line@.len(),
{
    let len = line.len();
    if len == 0 {
        return (0, 0);
    }
    let c = if col <= len - 1 { col } else { len - 1 };
    let ch = line[c];
    let cls = if is_word_char(ch, false) {
        CharClass::WordIs(false, true)
    } else if is_whitespace(ch) {
        CharClass::Space
    } else {
        CharClass::Punct(false)
    };
    let s = run_start_exec(line, c, cls);
    let e = run_end_exec(line, c, cls);
    (s, e + 1)
}

/// Executable form of [`inner_delimited`].
pub fn find_inner_delimited(line: &Vec<char>, col: usize, open: char, close: char) -> (r: Option<(usize, usize)>)
    requires
        line@.len() > 0,
    ensures
        match r {
            Some((s, e)) => inner_delimited(line@, col as int, open, close) == Some((s as int, e as int)) && 0 < s <= e < line@.len(),
            None => inner_delimited(line@, col as int, open, close) is None,
        },
{
    let len = line.len();
    let c = if col <= len - 1 { col } else { len - 1 };
    let start = match find_back_exec(line, c + 1, open) {
        Some(i) => i + 1,
        None => return None,
    };
    let from = if c >= start { c } else { start };
    match find_fwd_exec(line, from, close) {
        Some(end) => if start <= end {
            Some((start, end))
        } else {
            None
        },
        None => None,
    }
}

impl VimEditor {
    /// Compute the range that a motion covers from current position.
    /// Used by operators like d, y, c.
    pub fn compute_motion_range(&self, motion: &Motion, count: usize) -> (r: Option<MotionRange>)
        requires
            self.wf(),
            needs_char(*motion) ==> self.cur_len() > 0,
        ensures
            opt_range_tuple(r) == motion_range(self.text(), self.cursor_row as int, self.cursor_col as int, *motion, count as nat),
    {
        let sr = self.cursor_row;
        let sc = self.cursor_col;
        let n = self.lines.len();
        let last = if n > 0 { n - 1 } else { 0 };
        let line = self.current_chars();
        let len = line.len();
        let lines = self.lines.as_slice();
        match *motion {
            Motion::Left => Some(row_range(sr, if sc >= count { sc - count } else { 0 }, sc)),
            Motion::Right => Some(row_range(sr, sc, add_min(sc, count, len))),
            Motion::Down => Some(MotionRange { start_row: sr, start_col: 0, end_row: add_min(sr, count, last), end_col: 0, linewise: true }),
            Motion::Up => Some(MotionRange {
                start_row: if sr >= count { sr - count } else { 0 },
                start_col: 0,
                end_row: sr,
                end_col: 0,
                linewise: true,
            }),
            Motion::LineStart => Some(row_range(sr, 0, sc)),
            Motion::LineEnd => Some(row_range(sr, sc, len)),
            Motion::WordForward | Motion::BigWordForward => {
                let big = *motion == Motion::BigWordForward;
                let mut sim = PositionSim { lines, cursor_row: sr, cursor_col: sc };
                sim.move_word_forward(count, big);
                Some(MotionRange { start_row: sr, start_col: sc, end_row: sim.cursor_row, end_col: sim.cursor_col, linewise: false })
            },
            Motion::WordEnd | Motion::BigWordEnd => {
                let big = *motion == Motion::BigWordEnd;
                let mut sim = PositionSim { lines, cursor_row: sr, cursor_col: sc };
                sim.move_word_end(count, big);
                let end_len = sim.current_line_len();
                Some(MotionRange {
                    start_row: sr,
                    start_col: sc,
                    end_row: sim.cursor_row,
                    end_col: add_min(sim.cursor_col, 1, end_len),
                    linewise: false,
                })
            },
            Motion::WordBack | Motion::BigWordBack => {
                let big = *motion == Motion::BigWordBack;
                let mut sim = PositionSim { lines, cursor_row: sr, cursor_col: sc };
                sim.move_word_back(count, big);
                Some(MotionRange { start_row: sim.cursor_row, start_col: sim.cursor_col, end_row: sr, end_col: sc, linewise: false })
            },
            Motion::Line => {
                let e = if count == 0 {
                    if sr > 0 { sr - 1 } else { 0 }
                } else {
                    add_min(sr, count - 1, last)
                };
                let e = if e <= last { e } else { last };
                Some(MotionRange { start_row: sr, start_col: 0, end_row: e, end_col: 0, linewise: true })
            },
            Motion::ToTop => Some(MotionRange { start_row: 0, start_col: 0, end_row: sr, end_col: 0, linewise: true }),
            Motion::ToBottom => Some(MotionRange { start_row: sr, start_col: 0, end_row: last, end_col: 0, linewise: true }),
            Motion::FirstNonBlank => {
                let f = leading_whitespace_len(&line);
                if f <= sc {
                    Some(row_range(sr, f, sc))
                } else {
                    Some(row_range(sr, sc, f))
                }
            },
            Motion::InnerWord => {
                let (s, e) = find_inner_word(&line, sc);
                Some(row_range(sr, s, e))
            },
            Motion::AroundWord => {
                let (s, e) = find_inner_word(&line, sc);
                Some(row_range(sr, s, skip_fwd_exec(&line, e, CharClass::Space)))
            },
            Motion::InnerQuote(q) => match find_inner_delimited(&line, sc, q, q) {
                Some((s, e)) => Some(row_range(sr, s, e)),
                None => None,
            },
            Motion::AroundQuote(q) => match find_inner_delimited(&line, sc, q, q) {
                Some((s, e)) => Some(row_range(sr, s - 1, e + 1)),
                None => None,
            },
            Motion::InnerParen(o, c) => match find_inner_delimited(&line, sc, o, c) {
                Some((s, e)) => Some(row_range(sr, s, e)),
                None => None,
            },
            Motion::AroundParen(o, c) => match find_inner_delimited(&line, sc, o, c) {
                Some((s, e)) => Some(row_range(sr, s - 1, e + 1)),
                None => None,
            },
            Motion::FindCharForward(c) => {
                if sc >= len {
                    assert(find_fwd(line@, sc + 1, c) is None);
                    return None;
                }
                match find_fwd_exec(&line, sc + 1, c) {
                    Some(i) => Some(row_range(sr, sc, i + 1)),
                    None => None,
                }
            },
            Motion::FindCharBefore(c) => {
                if sc >= len {
                    assert(find_fwd(line@, sc + 1, c) is None);
                    return None;
                }
                match find_fwd_exec(&line, sc + 1, c) {
                    Some(i) => Some(row_range(sr, sc, i)),
                    None => None,
                }
            },
            Motion::FindCharBackward(c) => match find_back_exec(&line, sc, c) {
                Some(i) => Some(row_range(sr, i, sc)),
                None => None,
            },
            Motion::FindCharAfter(c) => match find_back_exec(&line, sc, c) {
                Some(i) => Some(row_range(sr, i + 1, sc)),
                None => None,
            },
            Motion::MatchBracket => match crate::render::find_matching_bracket(lines, sr, sc) {
                Some((r, c)) => {
                    proof {
                        crate::render::lemma_bracket_match_in_text(self.text(), sr as int, sc as int);
                    }
                    let rlen = self.line_len(r);
                    if r < sr || (r == sr && c < sc) {
                        Some(MotionRange { start_row: r, start_col: c, end_row: sr, end_col: sc + 1, linewise: false })
                    } else {
                        Some(MotionRange { start_row: sr, start_col: sc, end_row: r, end_col: c + 1, linewise: false })
                    }
                },
                None => None,
            },
        }
    }
}

} // verus!
