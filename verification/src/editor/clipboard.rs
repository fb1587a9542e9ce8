//! Putting text from the system clipboard into the buffer. Reading the clipboard itself is
//! left to the embedding program, which hands the text over.
use vstd::prelude::*;

use super::motions::min_int;
use super::VimEditor;
use crate::text::{chars_of, extend_chars, push_lines, slice_chars, split_pieces, string_of};

verus! {

/// The lines of `text` after `pieces` (the pieces of a pasted text between its line
/// breaks, at least one) are put in after column `col` of row `row`: the row is cut at the
/// column, the first piece ends its first part, the last piece starts its second part, and
/// the pieces between become lines of their own.
pub open spec fn pasted_lines(text: Seq<Seq<char>>, row: int, col: int, pieces: Seq<Seq<char>>) -> Seq<Seq<char>> {
    let line = text[row];
    let k = pieces.len() as int;
    let middle = if k == 1 {
        seq![line.take(col) + pieces[0] + line.skip(col)]
    } else {
        seq![line.take(col) + pieces[0]] + pieces.subrange(1, k - 1) + seq![pieces[k - 1] + line.skip(col)]
    };
    text.take(row) + middle + text.skip(row + 1)
}

/// The pieces of `s` between its line breaks, as `str::split('\n')` yields them.
fn split_pieces_of(s: &Vec<char>) -> (r: Vec<Vec<char>>)
    ensures
        r@.len() == split_pieces(s@).len(),
        forall|i: int| 0 <= i < r@.len() ==> #[trigger] r@[i]@ == split_pieces(s@)[i],
{
    let mut done: Vec<Vec<char>> = Vec::new();
    let mut cur: Vec<char> = Vec::new();
    let n = s.len();
    assert(s@.take(0) =~= Seq::<char>::empty());
    for i in 0..n
        invariant
            n == s@.len(),
            split_pieces(s@.take(i as int)).len() == done@.len() + 1,
            forall|j: int| 0 <= j < done@.len() ==> #[trigger] done@[j]@ == split_pieces(s@.take(i as int))[j],
            cur@ == split_pieces(s@.take(i as int)).last(),
    {
        let ghost p = split_pieces(s@.take(i as int));
        assert(s@.take(i + 1).drop_last() =~= s@.take(i as int));
        let c = s[i];
        if c == '\n' {
            done.push(cur);
            cur = Vec::new();
            assert(split_pieces(s@.take(i + 1)) == p.push(Seq::<char>::empty()));
        } else {
            cur.push(c);
            assert(split_pieces(s@.take(i + 1)) == p.update(p.len() - 1, p.last().push(c)));
        }
    }
    assert(s@.take(n as int) =~= s@);
    done.push(cur);
    done
}

impl VimEditor {
    /// Pastes `text` (read from the system clipboard) after the cursor, saving the state for
    /// undo: it goes in after the cursor column (at the end of the line when the cursor is
    /// on its last character or past it), its line breaks splitting the line. The cursor
    /// ends on the last character pasted, or, for text with line breaks, just after it.
    /// Empty text changes nothing.
    #[verifier::spinoff_prover]
    #[verifier::rlimit(100)]
    pub fn paste_text(&mut self, text: &str)
        requires
            old(self).inv(),
        ensures
            final(self).inv(),
            final(self).config == old(self).config,
            text@.len() == 0 ==> *final(self) == *old(self),
            text@.len() > 0 ==> {
                let t = old(self).text();
                let row = old(self).cursor_row as int;
                let col = min_int(old(self).cursor_col + 1, t[row].len() as int);
                let pieces = split_pieces(text@);
                let k = pieces.len() as int;
                &&& final(self).history_saved(old(self))
                &&& final(self).text() == pasted_lines(t, row, col, pieces)
                &&& final(self).modified
                &&& final(self).cursor_row == row + k - 1
                &&& final(self).cursor_col == if k == 1 { col + text@.len() - 1 } else { pieces[k - 1].len() as int }
                &&& final(self).mode == old(self).mode
                &&& final(self).visual_anchor == old(self).visual_anchor
            },
    {
        let tv = chars_of(text);
        if tv.len() == 0 {
            return;
        }
        let ghost t = self.text();
        let row = self.cursor_row;
        assert(row < t.len());
        let line = self.line_chars(row);
        let col = if self.cursor_col < line.len() { self.cursor_col + 1 } else { line.len() };
        let pieces = split_pieces_of(&tv);
        let k = pieces.len();
        proof {
            crate::text::lemma_split_pieces_nonempty(tv@);
        }
        let head = slice_chars(&line, 0, col);
        let tail = slice_chars(&line, col, line.len());
        assert(head@ =~= t[row as int].take(col as int));
        assert(tail@ =~= t[row as int].skip(col as int));
        let ghost ps = split_pieces(tv@);
        let ghost middle = if k == 1 {
            seq![t[row as int].take(col as int) + ps[0] + t[row as int].skip(col as int)]
        } else {
            seq![t[row as int].take(col as int) + ps[0]] + ps.subrange(1, k - 1) + seq![ps[k - 1] + t[row as int].skip(col as int)]
        };
        let mut out: Vec<String> = Vec::new();
        push_lines(&mut out, &self.lines, 0, row);
        assert(out.deep_view() =~= t.take(row as int));
        let mut first = head;
        extend_chars(&mut first, &pieces[0]);
        let new_col: usize;
        if k == 1 {
            proof {
                crate::text::lemma_one_piece_is_whole(tv@);
            }
            extend_chars(&mut first, &tail);
            new_col = first.len() - tail.len() - 1;
            out.push(string_of(&first));
            assert(out.deep_view() =~= t.take(row as int) + middle);
        } else {
            new_col = pieces[k - 1].len();
            out.push(string_of(&first));
            let mut i: usize = 1;
            let ghost before = out.deep_view();
            assert(before =~= t.take(row as int) + seq![t[row as int].take(col as int) + ps[0]]);
            assert(ps.subrange(1, 1) =~= Seq::<Seq<char>>::empty());
            while i < k - 1
                invariant
                    1 <= i <= k - 1,
                    k == pieces@.len(),
                    k == ps.len(),
                    ps == split_pieces(tv@),
                    forall|j: int| 0 <= j < k ==> #[trigger] pieces@[j]@ == ps[j],
                    out.deep_view() == before + ps.subrange(1, i as int),
                    t == self.text(),
                    row < t.len(),
                decreases k - 1 - i,
            {
                let piece = string_of(&pieces[i]);
                assert(piece@ == ps[i as int]);
                let ghost prev = out.deep_view();
                out.push(piece);
                assert(out.deep_view() =~= prev.push(ps[i as int]));
                assert(ps.subrange(1, i + 1) =~= ps.subrange(1, i as int).push(ps[i as int]));
                i = i + 1;
            }
            assert(pieces@[k - 1]@ == ps[k - 1]);
            let mut last = pieces[k - 1].clone();
            extend_chars(&mut last, &tail);
            let last_line = string_of(&last);
            let ghost prev = out.deep_view();
            out.push(last_line);
            assert(out.deep_view() =~= prev.push(ps[k - 1] + t[row as int].skip(col as int)));
            assert(out.deep_view() =~= t.take(row as int) + middle);
        }
        let n = self.lines.len();
        assert(n == t.len());
        push_lines(&mut out, &self.lines, row + 1, n);
        assert(t.subrange(row + 1, t.len() as int) =~= t.skip(row + 1));
        assert(out.deep_view() =~= pasted_lines(t, row as int, col as int, ps));
        assert(out.deep_view().len() == out@.len());
        let total = out.len();
        assert(row + k - 1 < total);
        self.save_undo();
        self.lines = out;
        self.modified = true;
        self.cursor_row = row + k - 1;
        self.cursor_col = new_col;
    }

    /// Whether the editor is in a state that the key handlers accept ([`VimEditor::inv`]):
    /// the embedding program may check this before handing over a key, when it has
    /// changed the editor's fields itself.
    pub fn is_consistent(&self) -> (r: bool)
        ensures
            r == self.inv(),
    {
        let n = self.lines.len();
        if n == 0 || self.cursor_row >= n {
            return false;
        }
        if !self.config.insert_allowed {
            match self.mode {
                crate::VimMode::Normal | crate::VimMode::Visual(_) => {},
                _ => return false,
            }
        }
        match self.visual_anchor {
            Some(a) => {
                if a.0 >= n {
                    return false;
                }
                match self.mode {
                    crate::VimMode::Visual(_) => {},
                    _ => return false,
                }
            },
            None => {},
        }
        match self.pending_count {
            Some(c) => {
                if c < 1 {
                    return false;
                }
            },
            None => {},
        }
        let mut i: usize = 0;
        while i < self.undo_stack.len()
            invariant
                i <= self.undo_stack@.len(),
                forall|j: int| 0 <= j < i ==> (#[trigger] self.undo_stack@[j]).lines@.len() >= 1,
            decreases self.undo_stack@.len() - i,
        {
            if self.undo_stack[i].lines.len() == 0 {
                return false;
            }
            i = i + 1;
        }
        let mut j: usize = 0;
        while j < self.redo_stack.len()
            invariant
                j <= self.redo_stack@.len(),
                forall|q: int| 0 <= q < j ==> (#[trigger] self.redo_stack@[q]).lines@.len() >= 1,
            decreases self.redo_stack@.len() - j,
        {
            if self.redo_stack[j].lines.len() == 0 {
                return false;
            }
            j = j + 1;
        }
        true
    }
}

} // verus!
