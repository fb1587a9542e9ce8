//! Visual mode: the selection between the anchor and the cursor, characterwise, linewise
//! or as a block, and the operations on it.
use vstd::prelude::*;

use super::motions::min_int;
use super::operators::{dedent_rows, indent_rows, row_slice, span_cut, span_text, line_case_changed, CaseChange, case_changed_line_of};
use super::buffer::lines_removed;
use super::VimEditor;
use crate::text::{extend_chars, join_lines, join_with_newlines, push_lines, slice_chars, string_of};
use crate::{VimMode, VisualKind, YankHighlight};

verus! {

/// The column just right of a block between columns `sc` and `ec` (the last column a
/// `usize` counts at most).
pub open spec fn block_right(sc: usize, ec: usize) -> int {
    let m = if sc >= ec { sc } else { ec };
    if m < usize::MAX {
        m + 1
    } else {
        m as int
    }
}

/// Executable form of [`block_right`].
fn block_right_exec(sc: usize, ec: usize) -> (r: usize)
    ensures
        r == block_right(sc, ec),
{
    let m = if sc >= ec { sc } else { ec };
    if m < usize::MAX {
        m + 1
    } else {
        m
    }
}

/// Executable form of [`block_right`], for the other modules.
pub(crate) fn block_right_pub(sc: usize, ec: usize) -> (r: usize)
    ensures
        r == block_right(sc, ec),
{
    block_right_exec(sc, ec)
}

/// Whether position `a` comes before or at position `b` in reading order.
pub open spec fn pos_le(a: (usize, usize), b: (usize, usize)) -> bool {
    a.0 < b.0 || (a.0 == b.0 && a.1 <= b.1)
}

/// The columns `left..right` cut out of `line`, each bound by its length (the line as it
/// is when nothing lies in between).
pub open spec fn cut_cols(line: Seq<char>, left: int, right: int) -> Seq<char> {
    let a = min_int(left, line.len() as int);
    let b = min_int(right, line.len() as int);
    if a < b {
        line.take(a) + line.skip(b)
    } else {
        line
    }
}

/// The columns `left..right` of `line`, each bound by its length.
pub open spec fn cols_of(line: Seq<char>, left: int, right: int) -> Seq<char> {
    let a = min_int(left, line.len() as int);
    let b = min_int(right, line.len() as int);
    if a < b {
        line.subrange(a, b)
    } else {
        Seq::<char>::empty()
    }
}

/// The rows `sr..=er` of `text` with columns `left..right` cut out.
pub open spec fn block_cut(text: Seq<Seq<char>>, sr: int, er: int, left: int, right: int) -> Seq<Seq<char>> {
    Seq::new(text.len(), |i: int| if sr <= i <= er { cut_cols(text[i], left, right) } else { text[i] })
}

/// The text a block delete takes from rows `sr..k` of `text`: the non-empty pieces
/// `left..right` of the rows, separated by newlines.
pub open spec fn block_deleted_text(text: Seq<Seq<char>>, sr: int, k: int, left: int, right: int) -> Seq<char>
    decreases k - sr,
{
    if k <= sr {
        Seq::<char>::empty()
    } else {
        let acc = block_deleted_text(text, sr, k - 1, left, right);
        let piece = cols_of(text[k - 1], left, right);
        if piece.len() == 0 {
            acc
        } else if acc.len() == 0 {
            piece
        } else {
            acc + seq!['\n'] + piece
        }
    }
}

/// The text a block yank takes from rows `sr..k` of `text`: the pieces `left..right` of the
/// rows, a newline put before each piece once anything was taken.
pub open spec fn block_yanked_text(text: Seq<Seq<char>>, sr: int, k: int, left: int, right: int) -> Seq<char>
    decreases k - sr,
{
    if k <= sr {
        Seq::<char>::empty()
    } else {
        let acc = block_yanked_text(text, sr, k - 1, left, right);
        let sep = if acc.len() > 0 { acc + seq!['\n'] } else { acc };
        sep + cols_of(text[k - 1], left, right)
    }
}

impl VimEditor {
    /// Enter visual mode: the anchor is set at the cursor. Nothing happens when the
    /// configuration does not allow Visual mode.
    pub fn enter_visual(&mut self, kind: VisualKind)
        ensures
            !old(self).config.visual_allowed ==> *final(self) == *old(self),
            old(self).config.visual_allowed ==> *final(self) == (VimEditor {
                visual_anchor: Some((old(self).cursor_row, old(self).cursor_col)),
                mode: VimMode::Visual(kind),
                ..*old(self)
            }),
            old(self).inv() ==> final(self).inv(),
    {
        if !self.config.visual_allowed {
            return;
        }
        self.visual_anchor = Some((self.cursor_row, self.cursor_col));
        self.mode = VimMode::Visual(kind);
    }

    /// The selection as (start, end) positions in reading order: the anchor and the cursor.
    pub open spec fn selection(&self) -> Option<((usize, usize), (usize, usize))> {
        match self.visual_anchor {
            Some(a) => {
                let c = (self.cursor_row, self.cursor_col);
                if pos_le(a, c) {
                    Some((a, c))
                } else {
                    Some((c, a))
                }
            },
            None => None,
        }
    }

    /// Get the ordered (start, end) of the visual selection
    pub fn visual_range(&self) -> (r: Option<((usize, usize), (usize, usize))>)
        ensures
            r == self.selection(),
    {
        let anchor = match self.visual_anchor {
            Some(a) => a,
            None => return None,
        };
        let cursor = (self.cursor_row, self.cursor_col);
        if anchor.0 < cursor.0 || (anchor.0 == cursor.0 && anchor.1 <= cursor.1) {
            Some((anchor, cursor))
        } else {
            Some((cursor, anchor))
        }
    }

    /// Exit visual mode
    pub fn exit_visual(&mut self)
        ensures
            *final(self) == (VimEditor { visual_anchor: None, mode: VimMode::Normal, ..*old(self) }),
    {
        self.visual_anchor = None;
        self.mode = VimMode::Normal;
    }

    /// The kind of the visual selection, outside Visual mode none.
    pub open spec fn visual_kind_spec(&self) -> Option<VisualKind> {
        match self.mode {
            VimMode::Visual(k) => Some(k),
            _ => None,
        }
    }

    /// The kind of the visual selection, outside Visual mode none.
    pub fn visual_kind(&self) -> (r: Option<VisualKind>)
        ensures
            r == self.visual_kind_spec(),
    {
        match self.mode {
            VimMode::Visual(k) => Some(k),
            _ => None,
        }
    }

    /// Columns `left..right` of row `row`, each bound by the length of the line, and the row
    /// with them cut out.
    fn row_cols(&self, row: usize, left: usize, right: usize) -> (r: (Vec<char>, Vec<char>))
        requires
            row < self.text().len(),
        ensures
            r.0@ == cols_of(self.text()[row as int], left as int, right as int),
            r.1@ == cut_cols(self.text()[row as int], left as int, right as int),
    {
        let line = self.line_chars(row);
        let len = line.len();
        let a = if left < len { left } else { len };
        let b = if right < len { right } else { len };
        if a < b {
            let piece = slice_chars(&line, a, b);
            let mut rest = slice_chars(&line, 0, a);
            let tail = slice_chars(&line, b, len);
            extend_chars(&mut rest, &tail);
            assert(line@.subrange(0, a as int) =~= line@.take(a as int));
            assert(line@.subrange(b as int, len as int) =~= line@.skip(b as int));
            (piece, rest)
        } else {
            (Vec::new(), line)
        }
    }

    /// The block of rows `sr..=er` and columns `left..right`: the lines with it cut out, the
    /// text a delete takes and the text a yank takes.
    fn block_parts(&self, sr: usize, er: usize, left: usize, right: usize) -> (r: (Vec<String>, Vec<char>, Vec<char>))
        requires
            sr <= er < self.text().len(),
        ensures
            r.0.deep_view() == block_cut(self.text(), sr as int, er as int, left as int, right as int),
            r.1@ == block_deleted_text(self.text(), sr as int, er + 1, left as int, right as int),
            r.2@ == block_yanked_text(self.text(), sr as int, er + 1, left as int, right as int),
    {
        let ghost t = self.text();
        let n = self.lines.len();
        let mut out: Vec<String> = Vec::new();
        push_lines(&mut out, &self.lines, 0, sr);
        let mut del: Vec<char> = Vec::new();
        let mut yank: Vec<char> = Vec::new();
        let mut row = sr;
        proof {
            assert forall|i: int| 0 <= i < row implies #[trigger] out@[i]@ == block_cut(t, sr as int, er as int, left as int, right as int)[i] by {
                assert(out.deep_view()[i] == out@[i]@);
                assert(out.deep_view()[i] == t.subrange(0, sr as int)[i]);
            }
        }
        while row <= er
            invariant
                sr <= row <= er + 1,
                er < n,
                n == t.len(),
                t == self.text(),
                out@.len() == row,
                forall|i: int| 0 <= i < row ==> #[trigger] out@[i]@ == block_cut(t, sr as int, er as int, left as int, right as int)[i],
                del@ == block_deleted_text(t, sr as int, row as int, left as int, right as int),
                yank@ == block_yanked_text(t, sr as int, row as int, left as int, right as int),
            decreases er + 1 - row,
        {
            let (piece, rest) = self.row_cols(row, left, right);
            if piece.len() > 0 {
                if del.len() > 0 {
                    del.push('\n');
                }
                extend_chars(&mut del, &piece);
            }
            if yank.len() > 0 {
                yank.push('\n');
            }
            extend_chars(&mut yank, &piece);
            out.push(string_of(&rest));
            row = row + 1;
        }
        push_lines(&mut out, &self.lines, er + 1, n);
        assert(out.deep_view() =~= block_cut(t, sr as int, er as int, left as int, right as int));
        (out, del, yank)
    }
}


/// `min(n + 1, len)` without overflow.
pub open spec fn end_inclusive(n: usize, len: nat) -> int {
    if n < len {
        n + 1
    } else {
        len as int
    }
}

impl VimEditor {
    /// The length of line `row`.
    pub open spec fn len_of(&self, row: int) -> nat {
        super::line_at(self.text(), row).len()
    }

    /// The text the selection of kind `kind` between `s` and `e` holds: whole lines
    /// (linewise), the characters from `s` through `e` (characterwise), or the columns
    /// between the two on each row (block).
    pub open spec fn selected_chars(&self, kind: VisualKind, s: (usize, usize), e: (usize, usize)) -> Seq<char> {
        let (sr, sc) = s;
        let (er, ec) = e;
        match kind {
            VisualKind::Line => join_lines(self.text().subrange(sr as int, er + 1)),
            VisualKind::Char => {
                let ec1 = end_inclusive(ec, self.len_of(er as int));
                if sr == er {
                    row_slice(self.text()[sr as int], sc as int, ec1)
                } else {
                    span_text(self.text(), sr as int, sc as int, er as int, ec1)
                }
            },
            VisualKind::Block => {
                let left = min_int(sc as int, ec as int);
                let right = block_right(sc, ec);
                block_yanked_text(self.text(), sr as int, er + 1, left, right)
            },
        }
    }

    /// Whether the selection can be read: it lies on lines of the buffer.
    pub open spec fn selection_readable(&self, s: (usize, usize), e: (usize, usize)) -> bool {
        &&& s.0 <= e.0 < self.text().len()
    }

    /// Executable form of [`Self::selected_chars`].
    fn selected_chars_exec(&self, kind: VisualKind, s: (usize, usize), e: (usize, usize)) -> (r: String)
        requires
            self.selection_readable(s, e),
            pos_le(s, e),
        ensures
            r@ == self.selected_chars(kind, s, e),
    {
        let (sr, sc) = s;
        let (er, ec) = e;
        let n = self.lines.len();
        match kind {
            VisualKind::Line => {
                let mut rows: Vec<String> = Vec::new();
                push_lines(&mut rows, &self.lines, sr, er + 1);
                assert(rows.deep_view() =~= self.text().subrange(sr as int, er + 1));
                join_with_newlines(&rows)
            },
            VisualKind::Char => {
                let elen = self.line_len(er);
                let ec1 = if ec < elen { ec + 1 } else { elen };
                if sr == er {
                    let line = self.line_chars(sr);
                    let len = line.len();
                    let a = if sc < len { sc } else { len };
                    let b = if ec1 < len { ec1 } else { len };
                    if a <= b {
                        string_of(&slice_chars(&line, a, b))
                    } else {
                        String::new()
                    }
                } else {
                    let (_, reg) = self.span_parts(sr, sc, er, ec1);
                    string_of(&reg)
                }
            },
            VisualKind::Block => {
                let left = if sc <= ec { sc } else { ec };
                let right = block_right_exec(sc, ec);
                let (_, _, yank) = self.block_parts(sr, er, left, right);
                string_of(&yank)
            },
        }
    }

    /// The selected text, outside Visual mode or without a selection none.
    pub fn selected_text(&self) -> (r: Option<String>)
        requires
            self.selection() matches Some((s, e)) ==> self.selection_readable(s, e),
        ensures
            match (self.selection(), self.visual_kind_spec()) {
                (Some((s, e)), Some(k)) => r matches Some(t) && t@ == self.selected_chars(k, s, e),
                _ => r is None,
            },
    {
        let (s, e) = match self.visual_range() {
            Some(p) => p,
            None => return None,
        };
        let kind = match self.visual_kind() {
            Some(k) => k,
            None => return None,
        };
        Some(self.selected_chars_exec(kind, s, e))
    }

    /// Yank visual selection into the register (and the system clipboard), flash it, and
    /// leave Visual mode; the flash of a selection on one row ends past its last column, so
    /// that it covers exactly the yanked text. Outside Visual mode nothing happens.
    pub fn visual_yank(&mut self)
        requires
            old(self).selection() matches Some((s, e)) ==> old(self).selection_readable(s, e),
        ensures
            old(self).visual_kind_spec() is None ==> *final(self) == *old(self),
            old(self).visual_kind_spec() matches Some(k) ==> {
                &&& *final(self) == (VimEditor {
                    unnamed_register: final(self).unnamed_register,
                    clipboard_out: final(self).clipboard_out,
                    use_system_clipboard: false,
                    yank_highlight: final(self).yank_highlight,
                    visual_anchor: None,
                    mode: VimMode::Normal,
                    ..*old(self)
                })
                &&& final(self).clipboard_out matches Some(c) && c@ == final(self).register()
                &&& match old(self).selection() {
                    Some((s, e)) => {
                        &&& final(self).register() == old(self).selected_chars(k, s, e)
                        &&& final(self).unnamed_register.linewise == (k == VisualKind::Line)
                        &&& final(self).yank_highlight matches Some(h) && h.start_row == s.0 && h.start_col == s.1
                            && h.end_row == e.0 && h.linewise == (k == VisualKind::Line)
                            && h.end_col == if k != VisualKind::Line && s.0 == e.0 && e.1 < usize::MAX {
                                e.1 + 1
                            } else {
                                e.1 as int
                            }
                    },
                    None => final(self).unnamed_register == old(self).unnamed_register
                        && final(self).yank_highlight == old(self).yank_highlight,
                }
            },
            old(self).inv() ==> final(self).inv(),
    {
        let kind = match self.visual_kind() {
            Some(k) => k,
            None => return,
        };
        match self.visual_range() {
            Some((s, e)) => {
                let text = self.selected_chars_exec(kind, s, e);
                let linewise = kind == VisualKind::Line;
                self.set_register(text, linewise);
                self.use_system_clipboard = false;
                let end_col = if !linewise && s.0 == e.0 && e.1 < usize::MAX { e.1 + 1 } else { e.1 };
                self.yank_highlight = Some(YankHighlight::new(s.0, s.1, e.0, end_col, linewise));
            },
            None => {
                let copy = self.unnamed_register.content.clone();
                self.copy_to_system_clipboard(copy);
                self.use_system_clipboard = false;
            },
        }
        self.exit_visual();
    }

    /// Indent the rows of the visual selection by one level, keeping the selection so that
    /// `>` can be pressed again (nothing happens without a selection).
    pub fn visual_indent(&mut self)
        ensures
            old(self).selection() is None ==> *final(self) == *old(self),
            old(self).selection() matches Some((s, e)) ==> {
                &&& final(self).history_saved(old(self))
                &&& *final(self) == (VimEditor {
                    lines: final(self).lines,
                    undo_stack: final(self).undo_stack,
                    redo_stack: final(self).redo_stack,
                    modified: final(self).modified,
                    ..*old(self)
                })
                &&& final(self).text() == indent_rows(old(self).text(), s.0 as int, min_int(e.0 as int, old(self).text().len() - 1))
            },
    {
        match self.visual_range() {
            Some((s, e)) => {
                self.op_indent(s.0, e.0);
            },
            None => {},
        }
    }

    /// Dedent the rows of the visual selection by one level, keeping the selection so that
    /// `<` can be pressed again (nothing happens without a selection).
    pub fn visual_dedent(&mut self)
        ensures
            old(self).selection() is None ==> *final(self) == *old(self),
            old(self).selection() matches Some((s, e)) ==> {
                &&& final(self).history_saved(old(self))
                &&& *final(self) == (VimEditor {
                    lines: final(self).lines,
                    undo_stack: final(self).undo_stack,
                    redo_stack: final(self).redo_stack,
                    modified: final(self).modified,
                    ..*old(self)
                })
                &&& final(self).text() == dedent_rows(old(self).text(), s.0 as int, min_int(e.0 as int, old(self).text().len() - 1))
                &&& final(self).text().len() == old(self).text().len()
            },
    {
        match self.visual_range() {
            Some((s, e)) => {
                self.op_dedent(s.0, e.0);
            },
            None => {},
        }
    }
}


/// What deleting a selection does: the lines after it, the text taken, whether it is
/// linewise, whether the buffer changed, and the position the cursor goes to (before it is
/// clamped).
pub struct VisualCut {
    pub text: Seq<Seq<char>>,
    pub taken: Seq<char>,
    pub linewise: bool,
    pub changed: bool,
    pub row: int,
    pub col: int,
}

impl VimEditor {
    /// What deleting the selection of kind `kind` between `s` and `e` does: linewise, the
    /// lines go and the cursor keeps its position as far as it fits; characterwise, the
    /// characters from `s` through `e` go and the cursor goes to the start; as a block, the
    /// columns between the two go from every row and the cursor goes to the top left corner.
    pub open spec fn visual_cut(&self, kind: VisualKind, s: (usize, usize), e: (usize, usize)) -> VisualCut {
        let (sr, sc) = s;
        let (er, ec) = e;
        match kind {
            VisualKind::Line => {
                let t = lines_removed(self.text(), sr as int, er + 1);
                VisualCut {
                    text: t,
                    taken: join_lines(self.text().subrange(sr as int, er + 1)),
                    linewise: true,
                    changed: true,
                    row: if self.cursor_row >= t.len() { t.len() - 1 } else { self.cursor_row as int },
                    col: self.cursor_col as int,
                }
            },
            VisualKind::Char => {
                let ec1 = end_inclusive(ec, self.len_of(er as int));
                if sr == er {
                    let line = self.text()[sr as int];
                    let a = min_int(sc as int, line.len() as int);
                    let b = min_int(ec1, line.len() as int);
                    VisualCut {
                        text: if a < b { self.text().update(sr as int, line.take(a) + line.skip(b)) } else { self.text() },
                        taken: row_slice(line, sc as int, ec1),
                        linewise: false,
                        changed: a < b,
                        row: self.cursor_row as int,
                        col: sc as int,
                    }
                } else {
                    VisualCut {
                        text: span_cut(self.text(), sr as int, sc as int, er as int, ec1),
                        taken: span_text(self.text(), sr as int, sc as int, er as int, ec1),
                        linewise: false,
                        changed: true,
                        row: sr as int,
                        col: sc as int,
                    }
                }
            },
            VisualKind::Block => {
                let left = min_int(sc as int, ec as int);
                let right = block_right(sc, ec);
                VisualCut {
                    text: block_cut(self.text(), sr as int, er as int, left, right),
                    taken: block_deleted_text(self.text(), sr as int, er + 1, left, right),
                    linewise: false,
                    changed: true,
                    row: sr as int,
                    col: left,
                }
            },
        }
    }

    /// Executable form of [`Self::visual_cut`]: the lines, the text taken, and the cursor
    /// position.
    fn visual_cut_exec(&self, kind: VisualKind, s: (usize, usize), e: (usize, usize)) -> (r: (Vec<String>, String, usize, usize, bool))
        requires
            self.selection_readable(s, e),
            pos_le(s, e),
            self.wf(),
        ensures
            r.0.deep_view() == self.visual_cut(kind, s, e).text,
            r.1@ == self.visual_cut(kind, s, e).taken,
            r.2 == self.visual_cut(kind, s, e).row,
            r.3 == self.visual_cut(kind, s, e).col,
            r.4 == self.visual_cut(kind, s, e).changed,
            r.0@.len() >= 1,
    {
        let (sr, sc) = s;
        let (er, ec) = e;
        let n = self.lines.len();
        match kind {
            VisualKind::Line => {
                let mut kept: Vec<String> = Vec::new();
                push_lines(&mut kept, &self.lines, 0, sr);
                push_lines(&mut kept, &self.lines, er + 1, n);
                if kept.len() == 0 {
                    kept.push(String::new());
                }
                let mut rows: Vec<String> = Vec::new();
                push_lines(&mut rows, &self.lines, sr, er + 1);
                proof {
                    assert(rows.deep_view() =~= self.text().subrange(sr as int, er + 1));
                    assert(kept.deep_view() =~= lines_removed(self.text(), sr as int, er + 1));
                }
                let m = kept.len();
                let row = if self.cursor_row >= m { m - 1 } else { self.cursor_row };
                (kept, join_with_newlines(&rows), row, self.cursor_col, true)
            },
            VisualKind::Char => {
                let elen = self.line_len(er);
                let ec1 = if ec < elen { ec + 1 } else { elen };
                if sr == er {
                    let line = self.line_chars(sr);
                    let len = line.len();
                    let a = if sc < len { sc } else { len };
                    let b = if ec1 < len { ec1 } else { len };
                    if a < b {
                        let piece = slice_chars(&line, a, b);
                        let mut rest = slice_chars(&line, 0, a);
                        let tail = slice_chars(&line, b, len);
                        extend_chars(&mut rest, &tail);
                        let mut out: Vec<String> = Vec::new();
                        push_lines(&mut out, &self.lines, 0, sr);
                        out.push(string_of(&rest));
                        push_lines(&mut out, &self.lines, sr + 1, n);
                        proof {
                            assert(line@.subrange(0, a as int) =~= line@.take(a as int));
                            assert(line@.subrange(b as int, len as int) =~= line@.skip(b as int));
                            let t = self.text();
                            let nl = line@.take(a as int) + line@.skip(b as int);
                            assert(rest@ =~= nl);
                            assert(out.deep_view() =~= t.subrange(0, sr as int) + seq![nl] + t.subrange(sr + 1, n as int));
                            assert(t.update(sr as int, nl) =~= t.subrange(0, sr as int) + seq![nl] + t.subrange(sr + 1, n as int));
                        }
                        (out, string_of(&piece), self.cursor_row, sc, true)
                    } else {
                        let mut out: Vec<String> = Vec::new();
                        push_lines(&mut out, &self.lines, 0, n);
                        assert(out.deep_view() =~= self.text());
                        assert(out.deep_view().len() == out@.len());
                        let taken = if a <= b { string_of(&slice_chars(&line, a, b)) } else { String::new() };
                        (out, taken, self.cursor_row, sc, false)
                    }
                } else {
                    let (lines, reg) = self.span_parts(sr, sc, er, ec1);
                    assert(lines.deep_view().len() == lines@.len());
                    (lines, string_of(&reg), sr, sc, true)
                }
            },
            VisualKind::Block => {
                let left = if sc <= ec { sc } else { ec };
                let right = block_right_exec(sc, ec);
                let (lines, del, _) = self.block_parts(sr, er, left, right);
                assert(lines.deep_view().len() == lines@.len());
                (lines, string_of(&del), sr, left, true)
            },
        }
    }

    /// Replaces the lines after a delete of the selection: the taken text goes to the
    /// register and the clipboard.
    fn apply_cut(&mut self, lines: Vec<String>, taken: String, linewise: bool, changed: bool)
        ensures
            *final(self) == (VimEditor {
                lines: lines,
                unnamed_register: final(self).unnamed_register,
                clipboard_out: final(self).clipboard_out,
                modified: old(self).modified || changed,
                ..*old(self)
            }),
            final(self).register_set(old(self), taken@, linewise),
    {
        self.lines = lines;
        self.modified = self.modified || changed;
        self.set_register(taken, linewise);
    }

    /// Delete visual selection into the register (and the system clipboard), saving the
    /// state for undo, and leave Visual mode with the cursor clamped. Outside Visual mode
    /// nothing happens.
    pub fn visual_delete(&mut self)
        requires
            old(self).wf(),
            old(self).selection() matches Some((s, e)) ==> old(self).selection_readable(s, e),
        ensures
            old(self).visual_kind_spec() is None ==> *final(self) == *old(self),
            old(self).visual_kind_spec() matches Some(k) ==> {
                &&& final(self).history_saved(old(self))
                &&& *final(self) == (VimEditor {
                    lines: final(self).lines,
                    cursor_row: final(self).cursor_row,
                    cursor_col: final(self).cursor_col,
                    undo_stack: final(self).undo_stack,
                    redo_stack: final(self).redo_stack,
                    unnamed_register: final(self).unnamed_register,
                    clipboard_out: final(self).clipboard_out,
                    modified: final(self).modified,
                    visual_anchor: None,
                    mode: VimMode::Normal,
                    ..*old(self)
                })
                &&& final(self).clipboard_out matches Some(c) && c@ == final(self).register()
                &&& match old(self).selection() {
                    Some((s, e)) => {
                        let cut = old(self).visual_cut(k, s, e);
                        &&& final(self).text() == cut.text
                        &&& final(self).register() == cut.taken
                        &&& final(self).unnamed_register.linewise == (k == VisualKind::Line)
                        &&& final(self).modified == (old(self).modified || cut.changed)
                        &&& final(self).cursor_clamped_from(cut.row as usize, cut.col as usize)
                    },
                    None => {
                        &&& final(self).text() == old(self).text()
                        &&& final(self).unnamed_register == old(self).unnamed_register
                        &&& final(self).modified == old(self).modified
                        &&& final(self).cursor_clamped_from(old(self).cursor_row, old(self).cursor_col)
                    },
                }
            },
            old(self).inv() ==> final(self).inv(),
    {
        let kind = match self.visual_kind() {
            Some(k) => k,
            None => return,
        };
        let sel = self.visual_range();
        self.save_undo();
        match sel {
            Some((s, e)) => {
                let (lines, taken, row, col, changed) = self.visual_cut_exec(kind, s, e);
                self.apply_cut(lines, taken, kind == VisualKind::Line, changed);
                self.exit_visual();
                self.set_cursor_clamped(row, col);
            },
            None => {
                let copy = self.unnamed_register.content.clone();
                self.copy_to_system_clipboard(copy);
                self.exit_visual();
                let (row, col) = (self.cursor_row, self.cursor_col);
                self.set_cursor_clamped(row, col);
            },
        }
    }
}


/// The columns `a..b` of row `i` that a selection of kind `kind` from (`sr`, `sc`) to
/// (`er`, `ec`) covers, on a line of `len` characters.
pub open spec fn selected_cols(kind: VisualKind, sr: usize, sc: usize, er: usize, ec: usize, i: int, len: nat) -> (int, int) {
    match kind {
        VisualKind::Line => (0, len as int),
        VisualKind::Char => (if i == sr { sc as int } else { 0 }, if i == er { end_inclusive(ec, len) } else { len as int }),
        VisualKind::Block => (min_int(sc as int, ec as int), block_right(sc, ec)),
    }
}

/// The lines once the case of the selected columns of rows `sr..=er` is changed.
pub open spec fn case_rows(text: Seq<Seq<char>>, kind: VisualKind, sr: usize, sc: usize, er: usize, ec: usize, how: CaseChange) -> Seq<Seq<char>> {
    Seq::new(text.len(), |i: int| if sr <= i <= er {
        let c = selected_cols(kind, sr, sc, er, ec, i, text[i].len());
        line_case_changed(text[i], c.0, c.1, how)
    } else {
        text[i]
    })
}

/// `line` with its columns `l..r` (each bound by the length) replaced by `ch`.
pub open spec fn replaced_cols(line: Seq<char>, l: int, r: int, ch: char) -> Seq<char> {
    Seq::new(line.len(), |j: int| if min_int(l, line.len() as int) <= j < min_int(r, line.len() as int) { ch } else { line[j] })
}

/// The lines once the block columns `l..r` of rows `sr..=er` are replaced by `ch`.
pub open spec fn block_replaced(text: Seq<Seq<char>>, sr: int, er: int, l: int, r: int, ch: char) -> Seq<Seq<char>> {
    Seq::new(text.len(), |i: int| if sr <= i <= er { replaced_cols(text[i], l, r, ch) } else { text[i] })
}

impl VimEditor {
    /// The selected columns of row `i`, executably.
    fn selected_cols_exec(kind: VisualKind, sr: usize, sc: usize, er: usize, ec: usize, i: usize, len: usize) -> (r: (usize, usize))
        ensures
            (r.0 as int, r.1 as int) == selected_cols(kind, sr, sc, er, ec, i as int, len as nat),
    {
        match kind {
            VisualKind::Line => (0, len),
            VisualKind::Char => (if i == sr { sc } else { 0 }, if i == er { if ec < len { ec + 1 } else { len } } else { len }),
            VisualKind::Block => (if sc <= ec { sc } else { ec }, block_right_exec(sc, ec)),
        }
    }

    /// The lines with the case of the selected columns changed.
    fn case_rows_exec(&self, kind: VisualKind, s: (usize, usize), e: (usize, usize), how: CaseChange) -> (r: Vec<String>)
        requires
            s.0 <= e.0 < self.text().len(),
        ensures
            r.deep_view() == case_rows(self.text(), kind, s.0, s.1, e.0, e.1, how),
    {
        let ghost t = self.text();
        let n = self.lines.len();
        let mut out: Vec<String> = Vec::new();
        let mut i: usize = 0;
        while i < n
            invariant
                i <= n,
                n == t.len(),
                t == self.text(),
                s.0 <= e.0 < n,
                out@.len() == i,
                forall|j: int| 0 <= j < i ==> #[trigger] out@[j]@ == case_rows(t, kind, s.0, s.1, e.0, e.1, how)[j],
            decreases n - i,
        {
            if s.0 <= i && i <= e.0 {
                let len = self.line_len(i);
                let (a, b) = Self::selected_cols_exec(kind, s.0, s.1, e.0, e.1, i, len);
                let line = case_changed_line_of(self, i, a, b, how);
                out.push(crate::text::string_of(&line));
            } else {
                out.push(self.lines[i].clone());
            }
            i = i + 1;
        }
        assert(out.deep_view() =~= case_rows(t, kind, s.0, s.1, e.0, e.1, how));
        out
    }

    /// Change the case of the selection (`u`, `U`, `~` in Visual mode), saving the state for
    /// undo, and leave Visual mode with the cursor at the start of the selection. Nothing
    /// happens without a selection.
    pub fn visual_change_case(&mut self, how: CaseChange)
        requires
            old(self).inv(),
        ensures
            final(self).inv(),
            final(self).config == old(self).config,
            final(self).visual_anchor is None,
            old(self).selection() is None || old(self).visual_kind_spec() is None ==> *final(self) == *old(self),
            old(self).selection() matches Some((s, e)) ==> (old(self).visual_kind_spec() matches Some(k) ==> {
                &&& final(self).text() == case_rows(old(self).text(), k, s.0, s.1, e.0, e.1, how)
                &&& final(self).mode == VimMode::Normal
                &&& final(self).undo_stack@.len() == old(self).undo_stack@.len() + 1
            }),
    {
        let (s, e) = match self.visual_range() {
            Some(p) => p,
            None => return,
        };
        let kind = match self.visual_kind() {
            Some(k) => k,
            None => return,
        };
        let lines = self.case_rows_exec(kind, s, e, how);
        self.save_undo();
        assert(lines.deep_view().len() == lines@.len());
        self.lines = lines;
        self.modified = true;
        self.exit_visual();
        let col = match kind {
            VisualKind::Line => 0,
            VisualKind::Char => s.1,
            VisualKind::Block => if s.1 <= e.1 { s.1 } else { e.1 },
        };
        self.place_cursor(s.0, col);
    }

    /// The lines with the block columns replaced by `ch`.
    fn block_replaced_exec(&self, sr: usize, er: usize, l: usize, r: usize, ch: char) -> (out: Vec<String>)
        requires
            sr <= er < self.text().len(),
        ensures
            out.deep_view() == block_replaced(self.text(), sr as int, er as int, l as int, r as int, ch),
    {
        let ghost t = self.text();
        let n = self.lines.len();
        let mut out: Vec<String> = Vec::new();
        let mut i: usize = 0;
        while i < n
            invariant
                i <= n,
                n == t.len(),
                t == self.text(),
                out@.len() == i,
                forall|j: int| 0 <= j < i ==> #[trigger] out@[j]@ == block_replaced(t, sr as int, er as int, l as int, r as int, ch)[j],
            decreases n - i,
        {
            if sr <= i && i <= er {
                let mut line = self.line_chars(i);
                let len = line.len();
                let a = if l < len { l } else { len };
                let b = if r < len { r } else { len };
                let mut j: usize = 0;
                while j < len
                    invariant
                        j <= len,
                        len == line@.len(),
                        len == t[i as int].len(),
                        a == min_int(l as int, len as int),
                        b == min_int(r as int, len as int),
                        forall|k: int| 0 <= k < j ==> #[trigger] line@[k] == replaced_cols(t[i as int], l as int, r as int, ch)[k],
                        forall|k: int| j <= k < len ==> #[trigger] line@[k] == t[i as int][k],
                    decreases len - j,
                {
                    if a <= j && j < b {
                        line.set(j, ch);
                    }
                    j = j + 1;
                }
                assert(line@ =~= replaced_cols(t[i as int], l as int, r as int, ch));
                out.push(crate::text::string_of(&line));
            } else {
                out.push(self.lines[i].clone());
            }
            i = i + 1;
        }
        assert(out.deep_view() =~= block_replaced(t, sr as int, er as int, l as int, r as int, ch));
        out
    }

    /// Replace every character of a block selection by `ch` (`r` in Visual Block mode),
    /// saving the state for undo, and leave Visual mode with the cursor at the top left
    /// corner. Nothing happens without a selection.
    pub fn block_replace(&mut self, ch: char)
        requires
            old(self).inv(),
        ensures
            final(self).inv(),
            final(self).config == old(self).config,
            final(self).visual_anchor is None,
            old(self).selection() is None ==> *final(self) == *old(self),
            old(self).selection() matches Some((s, e)) ==> {
                &&& final(self).text() == block_replaced(old(self).text(), s.0 as int, e.0 as int, min_int(s.1 as int, e.1 as int), block_right(s.1, e.1), ch)
                &&& final(self).mode == VimMode::Normal
                &&& final(self).undo_stack@.len() == old(self).undo_stack@.len() + 1
            },
    {
        let (s, e) = match self.visual_range() {
            Some(p) => p,
            None => return,
        };
        let left = if s.1 <= e.1 { s.1 } else { e.1 };
        let right = block_right_exec(s.1, e.1);
        let lines = self.block_replaced_exec(s.0, e.0, left, right, ch);
        self.save_undo();
        assert(lines.deep_view().len() == lines@.len());
        self.lines = lines;
        self.modified = true;
        self.exit_visual();
        self.place_cursor(s.0, left);
    }

    /// Swap the cursor and the anchor of the selection (`o` in Visual mode).
    pub fn visual_swap_ends(&mut self)
        requires
            old(self).inv(),
        ensures
            final(self).inv(),
            final(self).config == old(self).config,
            old(self).visual_anchor is None ==> *final(self) == *old(self),
            old(self).visual_anchor matches Some(a) ==> *final(self) == (VimEditor {
                visual_anchor: Some((old(self).cursor_row, old(self).cursor_col)),
                cursor_row: a.0,
                cursor_col: a.1,
                ..*old(self)
            }),
    {
        match self.visual_anchor {
            Some(a) => {
                self.visual_anchor = Some((self.cursor_row, self.cursor_col));
                self.cursor_row = a.0;
                self.cursor_col = a.1;
            },
            None => {},
        }
    }

    /// Switch to Visual mode of kind `kind` (`v`, `V`), or leave Visual mode when the
    /// selection already has that kind.
    #[verifier::rlimit(30)]
    pub fn visual_switch(&mut self, kind: VisualKind)
        requires
            old(self).inv(),
            old(self).mode is Visual,
        ensures
            final(self).inv(),
            final(self).config == old(self).config,
            old(self).mode == VimMode::Visual(kind) ==> *final(self) == (VimEditor { visual_anchor: None, mode: VimMode::Normal, ..*old(self) }),
            old(self).mode != VimMode::Visual(kind) ==> *final(self) == (VimEditor { mode: VimMode::Visual(kind), ..*old(self) }),
    {
        if self.mode == VimMode::Visual(kind) {
            self.exit_visual();
        } else {
            self.mode = VimMode::Visual(kind);
        }
    }
}

/// Law: a block delete takes, from each row of the block, every column from the smaller
/// to the larger end column, both included (as far as the row reaches): the row loses
/// exactly those characters, rows outside the block stay, and on a one-row block the text
/// taken is those characters. A one-column block thus takes one character from each row
/// that reaches its column.
pub proof fn lemma_block_delete_takes_both_end_columns(ed: VimEditor, s: (usize, usize), e: (usize, usize))
    requires
        s.0 <= e.0 < ed.text().len(),
        s.1 < usize::MAX && e.1 < usize::MAX,
    ensures
        ({
            let cut = ed.visual_cut(VisualKind::Block, s, e);
            let lo = if s.1 <= e.1 { s.1 as int } else { e.1 as int };
            let hi = if s.1 <= e.1 { e.1 as int } else { s.1 as int };
            &&& cut.text.len() == ed.text().len()
            &&& forall|i: int| 0 <= i < ed.text().len() && !(s.0 <= i <= e.0) ==> #[trigger] cut.text[i] == ed.text()[i]
            &&& forall|i: int| s.0 <= i <= e.0 ==> {
                let line = ed.text()[i];
                let a = if lo < line.len() { lo } else { line.len() as int };
                let b = if hi + 1 < line.len() { hi + 1 } else { line.len() as int };
                &&& (#[trigger] cut.text[i]).len() == line.len() - (b - a)
                &&& forall|j: int| 0 <= j < a ==> cut.text[i][j] == line[j]
                &&& forall|j: int| a <= j < cut.text[i].len() ==> cut.text[i][j] == line[j + (b - a)]
            }
            &&& s.0 == e.0 ==> {
                let line = ed.text()[s.0 as int];
                let a = if lo < line.len() { lo } else { line.len() as int };
                let b = if hi + 1 < line.len() { hi + 1 } else { line.len() as int };
                &&& cut.taken.len() == b - a
                &&& forall|j: int| 0 <= j < b - a ==> cut.taken[j] == line[a + j]
            }
        }),
{
    let t = ed.text();
    let lo = if s.1 <= e.1 { s.1 as int } else { e.1 as int };
    let hi = if s.1 <= e.1 { e.1 as int } else { s.1 as int };
    assert(block_right(s.1, e.1) == hi + 1);
    assert(min_int(s.1 as int, e.1 as int) == lo);
    if s.0 == e.0 {
        let sr = s.0 as int;
        assert(block_deleted_text(t, sr, sr, lo, hi + 1) == Seq::<char>::empty());
        assert(block_deleted_text(t, sr, sr + 1, lo, hi + 1) == cols_of(t[sr], lo, hi + 1));
    }
}

/// Law: a selection includes both of its ends. On one row, a characterwise selection from
/// column `sc` to column `ec` (`sc <= ec`) yanks the characters of columns `sc..=ec` (as far
/// as the row reaches) and a delete removes exactly them; a block selection yanks the
/// columns from the smaller to the larger end column, both included; a linewise delete of
/// rows `sr..=er` leaves the other rows, in order (one empty line when none is left).
pub proof fn lemma_visual_selection_inclusive(ed: VimEditor, s: (usize, usize), e: (usize, usize))
    requires
        s.0 <= e.0 < ed.text().len(),
        s.1 < usize::MAX && e.1 < usize::MAX,
    ensures
        ({
            let line = ed.text()[s.0 as int];
            let n = ed.text().len();
            &&& s.0 == e.0 && s.1 <= e.1 ==> {
                let a = if (s.1 as int) < line.len() { s.1 as int } else { line.len() as int };
                let b = if e.1 + 1 < line.len() { e.1 + 1 } else { line.len() as int };
                let taken = ed.selected_chars(VisualKind::Char, s, e);
                let cut = ed.visual_cut(VisualKind::Char, s, e);
                &&& taken.len() == b - a
                &&& forall|j: int| 0 <= j < b - a ==> #[trigger] taken[j] == line[a + j]
                &&& cut.taken == taken
                &&& cut.text.len() == n
                &&& cut.text[s.0 as int].len() == line.len() - (b - a)
                &&& forall|j: int| 0 <= j < a ==> #[trigger] cut.text[s.0 as int][j] == line[j]
                &&& forall|j: int| a <= j < cut.text[s.0 as int].len() ==> #[trigger] cut.text[s.0 as int][j] == line[j + (b - a)]
            }
            &&& s.0 == e.0 ==> {
                let lo = if s.1 <= e.1 { s.1 as int } else { e.1 as int };
                let hi = if s.1 <= e.1 { e.1 as int } else { s.1 as int };
                let a = if lo < line.len() { lo } else { line.len() as int };
                let b = if hi + 1 < line.len() { hi + 1 } else { line.len() as int };
                let taken = ed.selected_chars(VisualKind::Block, s, e);
                &&& taken.len() == b - a
                &&& forall|j: int| 0 <= j < b - a ==> #[trigger] taken[j] == line[a + j]
            }
            &&& ({
                let cut = ed.visual_cut(VisualKind::Line, s, e);
                let kept = n - (e.0 - s.0 + 1);
                &&& cut.text.len() == if kept > 0 { kept } else { 1 }
                &&& kept > 0 ==> forall|i: int| 0 <= i < kept ==> #[trigger] cut.text[i] == if i < s.0 {
                    ed.text()[i]
                } else {
                    ed.text()[i + (e.0 - s.0 + 1)]
                }
                &&& kept == 0 ==> cut.text[0].len() == 0
            })
        }),
{
    let t = ed.text();
    let sr = s.0 as int;
    let lo = if s.1 <= e.1 { s.1 as int } else { e.1 as int };
    let hi = if s.1 <= e.1 { e.1 as int } else { s.1 as int };
    assert(block_right(s.1, e.1) == hi + 1);
    assert(min_int(s.1 as int, e.1 as int) == lo);
    if s.0 == e.0 {
        assert(block_yanked_text(t, sr, sr, lo, hi + 1) == Seq::<char>::empty());
        assert(block_yanked_text(t, sr, sr + 1, lo, hi + 1) =~= cols_of(t[sr], lo, hi + 1));
        assert(ed.len_of(e.0 as int) == t[sr].len());
    }
    let rest = t.take(sr) + t.skip(e.0 + 1);
    assert(rest.len() == t.len() - (e.0 - s.0 + 1));
}

} // verus!
