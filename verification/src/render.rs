//! What a screen line of the editor shows, computed as plain values: the gutter layout and
//! line numbers, the selected, yanked and bracket-matched columns of a line, the file
//! position indicator, and the byte and width arithmetic that the drawing needs.
//!
//! Drawing these values onto a terminal is left to the embedding program.
use vstd::prelude::*;
use vstd::string::StringSliceAdditionalSpecFns;
use vstd::utf8::{encode_utf8_valid_utf8, is_char_boundary, is_char_boundary_start_end_of_seq};

use crate::editor::{line_at, VimEditor};
use crate::text::{chars_of, push_char, slice_chars, spaces, string_of};
use crate::{VisualKind, YankHighlight};

verus! {

/// Total character width of the gutter column: the line number, two columns after it,
/// and two more for the diagnostic column when there is one. (A diff sign takes the place
/// of one of the spaces after the number and adds no width.)
pub fn width(line_count_width: usize, has_diagnostics: bool) -> (r: usize)
    requires
        line_count_width + 4 <= usize::MAX,
    ensures
        r == line_count_width + 2 + (if has_diagnostics { 2int } else { 0int }),
{
    let diag_col: usize = if has_diagnostics { 2 } else { 0 };
    line_count_width + 2 + diag_col
}

/// Visual selection range: ((start_row, start_col), (end_row, end_col)).
pub type VisualRange = Option<((usize, usize), (usize, usize))>;

/// `n` bound by `len`, for an exclusive end column just past `n`: `min(n + 1, len)`.
pub open spec fn end_after(n: usize, len: usize) -> usize {
    if n < len {
        (n + 1) as usize
    } else {
        len
    }
}

/// The columns of line `line_idx` (of `line_len` columns) that a visual selection covers:
/// a half-open range, or none when the line lies outside the selection.
pub open spec fn visual_cols(
    line_idx: usize,
    line_len: usize,
    range: VisualRange,
    kind: Option<VisualKind>,
) -> Option<(usize, usize)> {
    match (range, kind) {
        (Some(((sr, sc), (er, ec))), Some(k)) => {
            if line_idx < sr || line_idx > er {
                None
            } else {
                match k {
                    VisualKind::Line => Some((0, line_len)),
                    VisualKind::Char => {
                        if sr == er {
                            Some((sc, end_after(ec, line_len)))
                        } else if line_idx == sr {
                            Some((sc, line_len))
                        } else if line_idx == er {
                            Some((0, end_after(ec, line_len)))
                        } else {
                            Some((0, line_len))
                        }
                    },
                    VisualKind::Block => {
                        let left = if sc <= ec { sc } else { ec };
                        let right = end_after(if sc >= ec { sc } else { ec }, line_len);
                        if left < right {
                            Some((left, right))
                        } else {
                            None
                        }
                    },
                }
            }
        },
        _ => None,
    }
}

/// `min(n + 1, len)` without overflow.
fn end_after_exec(n: usize, len: usize) -> (r: usize)
    ensures
        r == end_after(n, len),
{
    if n < len {
        n + 1
    } else {
        len
    }
}

/// Compute the column range that is visually selected on a given line.
pub fn compute_visual(
    line_idx: usize,
    line_len: usize,
    visual_range: &VisualRange,
    visual_kind: &Option<VisualKind>,
) -> (r: Option<(usize, usize)>)
    ensures
        r == visual_cols(line_idx, line_len, *visual_range, *visual_kind),
{
    let ((sr, sc), (er, ec)) = match *visual_range {
        Some(v) => v,
        None => return None,
    };
    let kind = match *visual_kind {
        Some(k) => k,
        None => return None,
    };
    if line_idx < sr || line_idx > er {
        return None;
    }
    match kind {
        VisualKind::Line => Some((0, line_len)),
        VisualKind::Char => {
            if sr == er {
                Some((sc, end_after_exec(ec, line_len)))
            } else if line_idx == sr {
                Some((sc, line_len))
            } else if line_idx == er {
                Some((0, end_after_exec(ec, line_len)))
            } else {
                Some((0, line_len))
            }
        },
        VisualKind::Block => {
            let left = if sc <= ec { sc } else { ec };
            let right = end_after_exec(if sc >= ec { sc } else { ec }, line_len);
            if left < right {
                Some((left, right))
            } else {
                None
            }
        },
    }
}

/// The columns of line `line_idx` (of `line_len` columns) that a yank flash covers. On the
/// single line of a characterwise flash the end column is exclusive; on its last line of
/// several it is inclusive.
pub open spec fn yank_cols(line_idx: usize, line_len: usize, h: Option<YankHighlight>) -> Option<
    (usize, usize),
> {
    match h {
        Some(h) => {
            if line_idx < h.start_row || line_idx > h.end_row {
                None
            } else if h.linewise {
                Some((0, line_len))
            } else if h.start_row == h.end_row {
                Some((h.start_col, if h.end_col <= line_len { h.end_col } else { line_len }))
            } else if line_idx == h.start_row {
                Some((h.start_col, line_len))
            } else if line_idx == h.end_row {
                Some((0, end_after(h.end_col, line_len)))
            } else {
                Some((0, line_len))
            }
        },
        None => None,
    }
}

/// Compute the column range highlighted by a yank flash on a given line.
pub fn compute_yank(line_idx: usize, line_len: usize, yank_highlight: &Option<YankHighlight>) -> (r:
    Option<(usize, usize)>)
    ensures
        r == yank_cols(line_idx, line_len, *yank_highlight),
{
    let h = match yank_highlight {
        Some(h) => h,
        None => return None,
    };
    if line_idx < h.start_row || line_idx > h.end_row {
        return None;
    }
    if h.linewise {
        return Some((0, line_len));
    }
    if h.start_row == h.end_row {
        Some((h.start_col, if h.end_col <= line_len { h.end_col } else { line_len }))
    } else if line_idx == h.start_row {
        Some((h.start_col, line_len))
    } else if line_idx == h.end_row {
        Some((0, end_after_exec(h.end_col, line_len)))
    } else {
        Some((0, line_len))
    }
}

/// The bytes of `s`.
pub open spec fn bytes_of(s: &str) -> Seq<u8> {
    s.spec_bytes()
}

/// Snap a byte index to the nearest valid char boundary at or before `idx` (the end of
/// `s` when `idx` is past it).
pub fn floor_char_boundary(s: &str, idx: usize) -> (r: usize)
    ensures
        idx >= bytes_of(s).len() ==> r == bytes_of(s).len(),
        idx < bytes_of(s).len() ==> {
            &&& r <= idx
            &&& is_char_boundary(bytes_of(s), r as int)
            &&& forall|j: int| r < j <= idx ==> !is_char_boundary(bytes_of(s), j)
        },
{
    proof {
        encode_utf8_valid_utf8(s@);
        is_char_boundary_start_end_of_seq(bytes_of(s));
    }
    let len = s.as_bytes().len();
    if idx >= len {
        return len;
    }
    let mut i = idx;
    while i > 0 && !s.is_char_boundary(i)
        invariant
            i <= idx < len,
            len == bytes_of(s).len(),
            is_char_boundary(bytes_of(s), 0),
            forall|j: int| i < j <= idx ==> !is_char_boundary(bytes_of(s), j),
        decreases i,
    {
        i -= 1;
    }
    i
}

/// Snap a byte index to the nearest valid char boundary at or after `idx` (the end of `s`
/// when `idx` is past it).
pub fn ceil_char_boundary(s: &str, idx: usize) -> (r: usize)
    ensures
        idx >= bytes_of(s).len() ==> r == bytes_of(s).len(),
        idx < bytes_of(s).len() ==> {
            &&& idx <= r <= bytes_of(s).len()
            &&& is_char_boundary(bytes_of(s), r as int)
            &&& forall|j: int| idx <= j < r ==> !is_char_boundary(bytes_of(s), j)
        },
{
    proof {
        encode_utf8_valid_utf8(s@);
        is_char_boundary_start_end_of_seq(bytes_of(s));
    }
    let len = s.as_bytes().len();
    if idx >= len {
        return len;
    }
    let mut i = idx;
    while i < len && !s.is_char_boundary(i)
        invariant
            idx <= i <= len,
            len == bytes_of(s).len(),
            is_char_boundary(bytes_of(s), len as int),
            forall|j: int| idx <= j < i ==> !is_char_boundary(bytes_of(s), j),
        decreases len - i,
    {
        i += 1;
    }
    i
}

/// Snap a byte index to the nearest valid char boundary at or before `idx` (the end of
/// `s` when `idx` is past it).
pub fn snap_to_char_boundary(s: &str, idx: usize) -> (r: usize)
    ensures
        idx >= bytes_of(s).len() ==> r == bytes_of(s).len(),
        idx < bytes_of(s).len() ==> {
            &&& r <= idx
            &&& is_char_boundary(bytes_of(s), r as int)
            &&& forall|j: int| r < j <= idx ==> !is_char_boundary(bytes_of(s), j)
        },
{
    floor_char_boundary(s, idx)
}


/// The bracket that matches `ch` and the direction in which to look for it (`true` for
/// forward), for the three kinds of brackets.
pub open spec fn bracket_partner(ch: char) -> Option<(char, bool)> {
    if ch == '(' {
        Some((')', true))
    } else if ch == ')' {
        Some(('(', false))
    } else if ch == '[' {
        Some((']', true))
    } else if ch == ']' {
        Some(('[', false))
    } else if ch == '{' {
        Some(('}', true))
    } else if ch == '}' {
        Some(('{', false))
    } else {
        None
    }
}

/// The nesting depth after reading `b` at depth `depth`, while looking for `close` from an
/// `open` bracket: one more for `open`, one less for `close`.
pub open spec fn depth_after(depth: int, b: char, open: char, close: char) -> int {
    if b == open {
        depth + 1
    } else if b == close {
        depth - 1
    } else {
        depth
    }
}

/// Scanning forward after (`r`, `c`) at nesting depth `depth` (`c` is -1 before the first
/// character of a line): the position of the `close` bracket that brings the depth to
/// zero. The scan reads the characters after the position in order, going on at the start
/// of the next line (empty lines included) at the end of one; it gives up at the end of the
/// buffer, or when the depth would pass `usize::MAX`.
pub open spec fn scan_forward(text: Seq<Seq<char>>, r: int, c: int, depth: int, open: char, close: char) -> Option<(int, int)>
    decreases text.len() - r, line_at(text, r).len() - c,
{
    if !(0 <= r < text.len() && -1 <= c) {
        None
    } else if c + 1 < text[r].len() {
        let nc = c + 1;
        let b = text[r][nc];
        let d = depth_after(depth, b, open, close);
        if d > usize::MAX {
            None
        } else if b == close && d == 0 {
            Some((r, nc))
        } else {
            scan_forward(text, r, nc, d, open, close)
        }
    } else if r + 1 < text.len() {
        scan_forward(text, r + 1, -1, depth, open, close)
    } else {
        None
    }
}

/// Scanning backward before (`r`, `c`) at nesting depth `depth`: the position of the `close`
/// bracket that brings the depth to zero. The scan reads the characters before the
/// position in reverse order, going on after the last character of the previous line (empty
/// lines included) at the start of one; it gives up at the start of the buffer, or when the
/// depth would pass `usize::MAX`.
pub open spec fn scan_backward(text: Seq<Seq<char>>, r: int, c: int, depth: int, open: char, close: char) -> Option<(int, int)>
    decreases r, c,
{
    if !(0 <= r < text.len() && 0 <= c <= text[r].len()) {
        None
    } else if c > 0 {
        let nc = c - 1;
        let b = text[r][nc];
        let d = depth_after(depth, b, open, close);
        if d > usize::MAX {
            None
        } else if b == close && d == 0 {
            Some((r, nc))
        } else {
            scan_backward(text, r, nc, d, open, close)
        }
    } else if r > 0 {
        scan_backward(text, r - 1, text[r - 1].len() as int, depth, open, close)
    } else {
        None
    }
}

/// A position found by [`scan_forward`] is a character of the text.
pub proof fn lemma_scan_forward_in_text(text: Seq<Seq<char>>, r: int, c: int, depth: int, open: char, close: char)
    ensures
        scan_forward(text, r, c, depth, open, close) matches Some((a, b)) ==> 0 <= a < text.len() && 0 <= b < text[a].len(),
    decreases text.len() - r, line_at(text, r).len() - c,
{
    if 0 <= r < text.len() && -1 <= c {
        if c + 1 < text[r].len() {
            let d = depth_after(depth, text[r][c + 1], open, close);
            lemma_scan_forward_in_text(text, r, c + 1, d, open, close);
        } else if r + 1 < text.len() {
            lemma_scan_forward_in_text(text, r + 1, -1, depth, open, close);
        }
    }
}

/// A position found by [`scan_backward`] is a character of the text.
pub proof fn lemma_scan_backward_in_text(text: Seq<Seq<char>>, r: int, c: int, depth: int, open: char, close: char)
    ensures
        scan_backward(text, r, c, depth, open, close) matches Some((a, b)) ==> 0 <= a < text.len() && 0 <= b < text[a].len(),
    decreases r, c,
{
    if 0 <= r < text.len() && 0 <= c <= text[r].len() {
        if c > 0 {
            let d = depth_after(depth, text[r][c - 1], open, close);
            lemma_scan_backward_in_text(text, r, c - 1, d, open, close);
        } else if r > 0 {
            lemma_scan_backward_in_text(text, r - 1, text[r - 1].len() as int, depth, open, close);
        }
    }
}

/// Where a forward scan from inside the text finds its bracket, a backward scan from that
/// bracket, looking for the opposite pair, reads the same characters in reverse: it comes
/// back to the point where the forward scan started, at the same depth. The bracket found
/// is the `close` character.
proof fn lemma_scan_forward_back(text: Seq<Seq<char>>, r: int, c: int, depth: int, open: char, close: char)
    requires
        0 <= r < text.len(),
        -1 <= c < text[r].len(),
        1 <= depth <= usize::MAX,
        open != close,
    ensures
        scan_forward(text, r, c, depth, open, close) matches Some((a, b)) ==> {
            &&& 0 <= a < text.len() && 0 <= b < text[a].len()
            &&& text[a][b] == close
            &&& scan_backward(text, a, b, 1, close, open) == scan_backward(text, r, c + 1, depth, close, open)
        },
    decreases text.len() - r, line_at(text, r).len() - c,
{
    if c + 1 < text[r].len() {
        let nc = c + 1;
        let b = text[r][nc];
        let d = depth_after(depth, b, open, close);
        if d <= usize::MAX && !(b == close && d == 0) {
            lemma_scan_forward_back(text, r, nc, d, open, close);
            assert(depth_after(d, b, close, open) == depth);
        }
    } else if r + 1 < text.len() {
        lemma_scan_forward_back(text, r + 1, -1, depth, open, close);
    }
}

/// Where a backward scan finds its bracket, a forward scan from that bracket, looking for
/// the opposite pair, comes back to the point where the backward scan started, at the same
/// depth. The bracket found is the `close` character.
proof fn lemma_scan_backward_forth(text: Seq<Seq<char>>, r: int, c: int, depth: int, open: char, close: char)
    requires
        0 <= r < text.len(),
        0 <= c <= text[r].len(),
        1 <= depth <= usize::MAX,
        open != close,
    ensures
        scan_backward(text, r, c, depth, open, close) matches Some((a, b)) ==> {
            &&& 0 <= a < text.len() && 0 <= b < text[a].len()
            &&& text[a][b] == close
            &&& scan_forward(text, a, b, 1, close, open) == scan_forward(text, r, c - 1, depth, close, open)
        },
    decreases r, c,
{
    if c > 0 {
        let nc = c - 1;
        let b = text[r][nc];
        let d = depth_after(depth, b, open, close);
        if d <= usize::MAX && !(b == close && d == 0) {
            lemma_scan_backward_forth(text, r, nc, d, open, close);
            assert(depth_after(d, b, close, open) == depth);
        }
    } else if r > 0 {
        lemma_scan_backward_forth(text, r - 1, text[r - 1].len() as int, depth, open, close);
    }
}

/// Law: the bracket match is its own inverse. Where the character at (`row`, `col`) has a
/// match, that match is its partner bracket at another position, and its own match is
/// (`row`, `col`).
pub proof fn lemma_bracket_match_round_trip(text: Seq<Seq<char>>, row: int, col: int)
    ensures
        bracket_match(text, row, col) matches Some((r2, c2)) ==> {
            &&& 0 <= row < text.len() && 0 <= col < text[row].len()
            &&& 0 <= r2 < text.len() && 0 <= c2 < text[r2].len()
            &&& (r2, c2) != (row, col)
            &&& bracket_partner(text[row][col]) matches Some((t, _)) && text[r2][c2] == t
            &&& bracket_match(text, r2, c2) == Some((row, col))
        },
{
    if 0 <= row < text.len() && 0 <= col < text[row].len() {
        let ch = text[row][col];
        match bracket_partner(ch) {
            Some((target, true)) => {
                lemma_scan_forward_back(text, row, col, 1, ch, target);
            },
            Some((target, false)) => {
                lemma_scan_backward_forth(text, row, col, 1, ch, target);
            },
            None => {},
        }
    }
}

/// A position found by [`bracket_match`] is a character of the text.
pub proof fn lemma_bracket_match_in_text(text: Seq<Seq<char>>, row: int, col: int)
    ensures
        bracket_match(text, row, col) matches Some((a, b)) ==> 0 <= a < text.len() && 0 <= b < text[a].len()
            && 0 <= col < line_at(text, row).len(),
{
    if 0 <= row < text.len() && 0 <= col < text[row].len() {
        let ch = text[row][col];
        match bracket_partner(ch) {
            Some((target, true)) => lemma_scan_forward_in_text(text, row, col, 1, ch, target),
            Some((target, false)) => lemma_scan_backward_in_text(text, row, col, 1, ch, target),
            None => {},
        }
    }
}

/// The position of the bracket that matches the one at (`row`, `col`), if the character
/// there is a bracket and its match is found.
pub open spec fn bracket_match(text: Seq<Seq<char>>, row: int, col: int) -> Option<(int, int)> {
    if 0 <= row < text.len() && 0 <= col < text[row].len() {
        let ch = text[row][col];
        match bracket_partner(ch) {
            Some((target, true)) => scan_forward(text, row, col, 1, ch, target),
            Some((target, false)) => scan_backward(text, row, col, 1, ch, target),
            None => None,
        }
    } else {
        None
    }
}

/// Executable form of [`bracket_partner`].
fn bracket_partner_of(ch: char) -> (r: Option<(char, bool)>)
    ensures
        r == bracket_partner(ch),
{
    if ch == '(' {
        Some((')', true))
    } else if ch == ')' {
        Some(('(', false))
    } else if ch == '[' {
        Some((']', true))
    } else if ch == ']' {
        Some(('[', false))
    } else if ch == '{' {
        Some(('}', true))
    } else if ch == '}' {
        Some(('{', false))
    } else {
        None
    }
}

/// The forward scan of [`scan_forward`] from (`row`, `col`) at depth one.
fn find_forward_bracket(lines: &[String], row: usize, col: usize, open: char, close: char) -> (r: Option<(usize, usize)>)
    requires
        row < lines.deep_view().len(),
        col < lines.deep_view()[row as int].len(),
    ensures
        match r {
            Some((a, b)) => scan_forward(lines.deep_view(), row as int, col as int, 1, open, close) == Some((a as int, b as int)),
            None => scan_forward(lines.deep_view(), row as int, col as int, 1, open, close) is None,
        },
{
    let ghost text = lines.deep_view();
    let n = lines.len();
    let mut depth: usize = 1;
    let mut r = row;
    let mut cur = chars_of(lines[r].as_str());
    assert(cur@ == text[row as int]);
    let cur_len = cur.len();
    assert(col < cur_len);
    let mut k = col + 1;
    loop
        invariant
            n == text.len(),
            text == lines.deep_view(),
            r < n,
            cur@ == text[r as int],
            k <= cur@.len(),
            depth >= 1,
            scan_forward(text, row as int, col as int, 1, open, close) == scan_forward(text, r as int, k - 1, depth as int, open, close),
        decreases n - r, cur@.len() + 1 - k,
    {
        if k < cur.len() {
            let b = cur[k];
            if b == open {
                if depth == usize::MAX {
                    return None;
                }
                depth = depth + 1;
            } else if b == close {
                depth = depth - 1;
                if depth == 0 {
                    return Some((r, k));
                }
            }
            k = k + 1;
        } else {
            if r + 1 >= n {
                return None;
            }
            r = r + 1;
            k = 0;
            cur = chars_of(lines[r].as_str());
        }
    }
}

/// The backward scan of [`scan_backward`] from (`row`, `col`) at depth one.
fn find_backward_bracket(lines: &[String], row: usize, col: usize, open: char, close: char) -> (r: Option<(usize, usize)>)
    requires
        row < lines.deep_view().len(),
        col < lines.deep_view()[row as int].len(),
    ensures
        match r {
            Some((a, b)) => scan_backward(lines.deep_view(), row as int, col as int, 1, open, close) == Some((a as int, b as int)),
            None => scan_backward(lines.deep_view(), row as int, col as int, 1, open, close) is None,
        },
{
    let ghost text = lines.deep_view();
    let n = lines.len();
    let mut depth: usize = 1;
    let mut r = row;
    let mut cur = chars_of(lines[r].as_str());
    let mut k = col;
    loop
        invariant
            n == text.len(),
            text == lines.deep_view(),
            r < n,
            cur@ == text[r as int],
            k <= cur@.len(),
            depth >= 1,
            scan_backward(text, row as int, col as int, 1, open, close) == scan_backward(text, r as int, k as int, depth as int, open, close),
        decreases r, k,
    {
        if k > 0 {
            let b = cur[k - 1];
            if b == open {
                if depth == usize::MAX {
                    return None;
                }
                depth = depth + 1;
            } else if b == close {
                depth = depth - 1;
                if depth == 0 {
                    return Some((r, k - 1));
                }
            }
            k = k - 1;
        } else {
            if r == 0 {
                return None;
            }
            r = r - 1;
            cur = chars_of(lines[r].as_str());
            k = cur.len();
        }
    }
}

/// Find the matching bracket for the character at (cursor_row, cursor_col).
/// Returns Some((row, col)) if found, None otherwise.
pub fn find_matching_bracket(lines: &[String], cursor_row: usize, cursor_col: usize) -> (r: Option<(usize, usize)>)
    ensures
        match r {
            Some((a, b)) => bracket_match(lines.deep_view(), cursor_row as int, cursor_col as int) == Some((a as int, b as int)),
            None => bracket_match(lines.deep_view(), cursor_row as int, cursor_col as int) is None,
        },
{
    if cursor_row >= lines.len() {
        return None;
    }
    let line = chars_of(lines[cursor_row].as_str());
    if cursor_col >= line.len() {
        return None;
    }
    let ch = line[cursor_col];
    match bracket_partner_of(ch) {
        Some((target, true)) => find_forward_bracket(lines, cursor_row, cursor_col, ch, target),
        Some((target, false)) => find_backward_bracket(lines, cursor_row, cursor_col, ch, target),
        None => None,
    }
}


/// The decimal digit for `d` (below ten).
pub open spec fn digit_char(d: nat) -> char {
    if d == 0 { '0' } else if d == 1 { '1' } else if d == 2 { '2' } else if d == 3 { '3' }
    else if d == 4 { '4' } else if d == 5 { '5' } else if d == 6 { '6' } else if d == 7 { '7' }
    else if d == 8 { '8' } else { '9' }
}

/// The decimal notation of `n`, without leading zeros.
pub open spec fn decimal(n: nat) -> Seq<char>
    decreases n,
{
    if n < 10 {
        seq![digit_char(n)]
    } else {
        decimal(n / 10).push(digit_char(n % 10))
    }
}

/// Executable form of [`digit_char`].
fn digit_char_of(d: usize) -> (r: char)
    requires
        d < 10,
    ensures
        r == digit_char(d as nat),
{
    if d == 0 { '0' } else if d == 1 { '1' } else if d == 2 { '2' } else if d == 3 { '3' }
    else if d == 4 { '4' } else if d == 5 { '5' } else if d == 6 { '6' } else if d == 7 { '7' }
    else if d == 8 { '8' } else { '9' }
}

/// Appends the decimal notation of `n` to `out`.
fn push_decimal(out: &mut String, n: u128)
    ensures
        final(out)@ == old(out)@ + decimal(n as nat),
    decreases n,
{
    if n < 10 {
        push_char(out, digit_char_of(n as usize));
    } else {
        push_decimal(out, n / 10);
        push_char(out, digit_char_of((n % 10) as usize));
    }
}

/// The decimal notation of `n` (`n.to_string()`).
pub fn decimal_string(n: u128) -> (r: String)
    ensures
        r@ == decimal(n as nat),
{
    let mut s = String::new();
    push_decimal(&mut s, n);
    s
}

/// `digits` right-aligned in a field of `width` columns (`{:>width$}`), followed by
/// `trailing` spaces.
pub open spec fn aligned(digits: Seq<char>, width: nat, trailing: nat) -> Seq<char> {
    let pad = if digits.len() < width { (width - digits.len()) as nat } else { 0 };
    spaces(pad) + digits + spaces(trailing)
}

/// Appends `n` spaces to `out`.
fn push_spaces(out: &mut String, n: usize)
    ensures
        final(out)@ == old(out)@ + spaces(n as nat),
{
    let ghost start = out@;
    for i in 0..n
        invariant
            out@ == start + spaces(i as nat),
    {
        push_char(out, ' ');
        assert(spaces(i as nat).push(' ') =~= spaces((i + 1) as nat));
    }
}

/// `n` in decimal, right-aligned in `width` columns and followed by `trailing` spaces:
/// the line number column of the gutter.
pub fn number_cell(n: usize, width: usize, trailing: usize) -> (r: String)
    ensures
        r@ == aligned(decimal(n as nat), width as nat, trailing as nat),
{
    let digits = chars_of(decimal_string(n as u128).as_str());
    let mut s = String::new();
    if digits.len() < width {
        push_spaces(&mut s, width - digits.len());
    } else {
        assert(spaces(0) =~= Seq::<char>::empty());
        push_spaces(&mut s, 0);
    }
    let ghost padded = s@;
    let mut i: usize = 0;
    while i < digits.len()
        invariant
            i <= digits@.len(),
            s@ == padded + digits@.take(i as int),
        decreases digits@.len() - i,
    {
        push_char(&mut s, digits[i]);
        assert(digits@.take(i as int).push(digits@[i as int]) =~= digits@.take(i + 1));
        i = i + 1;
    }
    assert(digits@.take(digits@.len() as int) =~= digits@);
    push_spaces(&mut s, trailing);
    s
}

/// The number shown in the gutter for line `line_idx`: its own number (counted from one)
/// on the cursor line, its distance to the cursor line elsewhere.
pub open spec fn gutter_number(line_idx: usize, cursor_row: usize, is_cursor_line: bool) -> int {
    if is_cursor_line {
        line_idx + 1
    } else if line_idx >= cursor_row {
        line_idx - cursor_row
    } else {
        cursor_row - line_idx
    }
}

/// Executable form of [`gutter_number`].
pub fn gutter_number_of(line_idx: usize, cursor_row: usize, is_cursor_line: bool) -> (r: usize)
    requires
        line_idx < usize::MAX,
    ensures
        r == gutter_number(line_idx, cursor_row, is_cursor_line),
{
    if is_cursor_line {
        line_idx + 1
    } else if line_idx >= cursor_row {
        line_idx - cursor_row
    } else {
        cursor_row - line_idx
    }
}

/// The characters of a word given as a literal's characters.
pub open spec fn word_all() -> Seq<char> {
    seq!['A', 'l', 'l']
}

/// `Top`.
pub open spec fn word_top() -> Seq<char> {
    seq!['T', 'o', 'p']
}

/// `Bot`.
pub open spec fn word_bot() -> Seq<char> {
    seq!['B', 'o', 't']
}

/// The Vim file position indicator for a buffer of `total` lines shown `visible` at a
/// time from line `scroll_offset`, the cursor on line `cursor_row`: `All` when everything
/// fits, `Top` at the top, `Bot` at the bottom, the percentage of the cursor line otherwise.
pub open spec fn position_text(total: nat, visible: nat, scroll_offset: nat, cursor_row: nat) -> Seq<char> {
    if total <= visible {
        word_all()
    } else if scroll_offset == 0 {
        word_top()
    } else if scroll_offset + visible >= total {
        word_bot()
    } else {
        decimal((cursor_row + 1) * 100 / total).push('%')
    }
}

/// A string of the three characters `a`, `b`, `c`.
fn three(a: char, b: char, c: char) -> (r: String)
    ensures
        r@ == seq![a, b, c],
{
    let mut s = String::new();
    push_char(&mut s, a);
    push_char(&mut s, b);
    push_char(&mut s, c);
    s
}

/// Compute Vim-style file position indicator: `All`, `Top`, `Bot`, or `XX%`.
pub fn file_position(editor: &VimEditor) -> (r: String)
    ensures
        r@ == position_text(
            editor.text().len(),
            editor.visible_height as nat,
            editor.scroll_offset as nat,
            editor.cursor_row as nat,
        ),
{
    let total = editor.lines.len();
    let visible = editor.visible_height;
    if total <= visible {
        three('A', 'l', 'l')
    } else if editor.scroll_offset == 0 {
        three('T', 'o', 'p')
    } else if editor.scroll_offset as u128 + visible as u128 >= total as u128 {
        three('B', 'o', 't')
    } else {
        let pct = (editor.cursor_row as u128 + 1) * 100 / total as u128;
        let mut s = decimal_string(pct);
        push_char(&mut s, '%');
        s
    }
}

/// The display width of `c` in columns, `None` for a control character.
pub uninterp spec fn char_width(c: char) -> Option<usize>;

/// `unicode_width::UnicodeWidthChar::width`: the number of columns `c` takes on a
/// terminal, `None` for a control character. Stated by name only: the value comes from the
/// crate's Unicode tables.
#[verifier::external_body]
fn char_display_width(c: char) -> (r: Option<usize>)
    ensures
        r == char_width(c),
{
    unicode_width::UnicodeWidthChar::width(c)
}

/// The columns `c` takes, a control character counting for none.
pub open spec fn cell_width(c: char) -> nat {
    match char_width(c) {
        Some(w) => w as nat,
        None => 0,
    }
}

/// How many leading characters of `s` fit in `max` columns, taking characters in order
/// until the next one would not fit.
pub open spec fn fitting_prefix(s: Seq<char>, max: int) -> nat
    decreases s.len(),
{
    if s.len() == 0 || cell_width(s[0]) > max {
        0
    } else {
        1 + fitting_prefix(s.drop_first(), max - cell_width(s[0]))
    }
}

/// Truncate a string to fit within `max_width` display cells.
pub fn truncate_to_width(s: &str, max_width: usize) -> (r: String)
    ensures
        r@ == s@.take(fitting_prefix(s@, max_width as int) as int),
{
    let chars = chars_of(s);
    let mut rem = max_width;
    let mut i: usize = 0;
    let mut out = String::new();
    assert(s@.skip(0) =~= s@);
    assert(s@.take(0) =~= Seq::<char>::empty());
    while i < chars.len()
        invariant
            i <= chars@.len(),
            chars@ == s@,
            fitting_prefix(s@, max_width as int) == i + fitting_prefix(s@.skip(i as int), rem as int),
            out@ == s@.take(i as int),
        ensures
            fitting_prefix(s@.skip(i as int), rem as int) == 0,
        decreases chars@.len() - i,
    {
        let c = chars[i];
        let cw: usize = match char_display_width(c) {
            Some(w) => w,
            None => 0,
        };
        assert(s@.skip(i as int)[0] == c);
        if cw > rem {
            break;
        }
        assert(s@.skip(i as int).drop_first() =~= s@.skip(i + 1));
        rem = rem - cw;
        push_char(&mut out, c);
        assert(s@.take(i as int).push(c) =~= s@.take(i + 1));
        i = i + 1;
    }
    out
}


/// The display width of the text `s` in columns.
pub uninterp spec fn str_width(s: Seq<char>) -> usize;

/// `unicode_width::UnicodeWidthStr::width`: the number of columns `s` takes on a terminal.
/// Stated by name only: the value comes from the crate's Unicode tables and from its rules
/// for sequences of characters (emoji sequences among them), so it need not be the sum of
/// the characters' widths.
#[verifier::external_body]
fn str_display_width(s: &str) -> (r: usize)
    ensures
        r == str_width(s@),
{
    unicode_width::UnicodeWidthStr::width(s)
}

/// The part of `line` that a view `available` columns wide shows with the horizontal scroll
/// `hscroll`, the line being `line_width` columns wide: where the view is scrolled or the
/// line is wider than the view, the characters from `hscroll` on (as far as the line goes)
/// that fit in the view ([`fitting_prefix`]), and how many were skipped; otherwise the
/// whole line.
pub open spec fn shown_part(line: Seq<char>, hscroll: usize, available: usize, line_width: usize) -> (Seq<char>, int) {
    if hscroll > 0 || line_width > available {
        let skip = if hscroll < line.len() { hscroll as int } else { line.len() as int };
        let tail = line.skip(skip);
        (tail.take(fitting_prefix(tail, available as int) as int), skip)
    } else {
        (line, 0)
    }
}

/// [`shown_part`] of `line`, its display width given.
pub fn shown_line(line: &str, hscroll: usize, available: usize, line_width: usize) -> (r: (String, usize))
    ensures
        (r.0@, r.1 as int) == shown_part(line@, hscroll, available, line_width),
{
    let chars = chars_of(line);
    if hscroll > 0 || line_width > available {
        let skip = if hscroll < chars.len() { hscroll } else { chars.len() };
        let tail = slice_chars(&chars, skip, chars.len());
        assert(chars@.subrange(skip as int, chars@.len() as int) =~= line@.skip(skip as int));
        let tail_text = string_of(&tail);
        (truncate_to_width(tail_text.as_str(), available), skip)
    } else {
        (string_of(&chars), 0)
    }
}

/// The part of `line` that a view `available` columns wide shows with the horizontal scroll
/// `hscroll`: [`shown_part`], the line's width measured as the terminal measures it.
pub fn visible_line(line: &str, hscroll: usize, available: usize) -> (r: (String, usize))
    ensures
        (r.0@, r.1 as int) == shown_part(line@, hscroll, available, str_width(line@)),
{
    let w = str_display_width(line);
    shown_line(line, hscroll, available, w)
}

} // verus!
