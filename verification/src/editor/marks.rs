//! Marks (`m`, `'`, `` ` ``) and macros (`q`, `@`): named positions and named key
//! sequences of the editor.
use vstd::prelude::*;

use super::motions::{min_int, sat_sub};
use super::VimEditor;
use crate::text::leading_ws;
use crate::Key;

verus! {

broadcast use vstd::std_specs::hash::group_hash_axioms;

/// The key under which mark or macro `c` is kept: its code point.
pub open spec fn name_key(c: char) -> u32 {
    c as u32
}

/// Executable form of [`name_key`].
fn name_key_of(c: char) -> (r: u32)
    ensures
        r == name_key(c),
{
    c as u32
}

/// Distinct names are kept under distinct keys.
proof fn lemma_name_key_injective(c: char, d: char)
    ensures
        name_key(c) == name_key(d) <==> c == d,
{
    assert((c as u32) as int == c as int);
    assert((d as u32) as int == d as int);
}

/// A copy of the keys `v`.
fn copy_keys(v: &Vec<Key>) -> (r: Vec<Key>)
    ensures
        r@ == v@,
{
    let mut r: Vec<Key> = Vec::new();
    let mut i: usize = 0;
    while i < v.len()
        invariant
            i <= v@.len(),
            r@ == v@.take(i as int),
        decreases v@.len() - i,
    {
        r.push(v[i]);
        assert(v@.take(i as int).push(v@[i as int]) =~= v@.take(i + 1));
        i = i + 1;
    }
    assert(v@.take(v@.len() as int) =~= v@);
    r
}

/// Whether `c` names a macro register: an ASCII lowercase letter.
pub open spec fn register_name(c: char) -> bool {
    'a' <= c && c <= 'z'
}

/// Whether `c` names a mark: an ASCII letter, lowercase or uppercase.
pub open spec fn mark_name(c: char) -> bool {
    'a' <= c && c <= 'z' || 'A' <= c && c <= 'Z'
}

impl VimEditor {
    /// The position of mark `c`.
    pub open spec fn mark(&self, c: char) -> Option<(usize, usize)> {
        if self.marks@.contains_key(name_key(c)) {
            Some(self.marks@[name_key(c)])
        } else {
            None
        }
    }

    /// The keys of macro `c`.
    pub open spec fn macro_keys(&self, c: char) -> Option<Seq<Key>> {
        if self.macro_registers@.contains_key(name_key(c)) {
            Some(self.macro_registers@[name_key(c)]@)
        } else {
            None
        }
    }

    /// Sets mark `c` (an ASCII letter; other names are ignored) at the cursor (`m`).
    pub fn set_mark(&mut self, c: char)
        ensures
            *final(self) == (VimEditor { marks: final(self).marks, ..*old(self) }),
            forall|d: char| #[trigger] final(self).mark(d) == if d == c && mark_name(c) {
                Some((old(self).cursor_row, old(self).cursor_col))
            } else {
                old(self).mark(d)
            },
    {
        if !('a' <= c && c <= 'z' || 'A' <= c && c <= 'Z') {
            return;
        }
        let k = name_key_of(c);
        self.marks.insert(k, (self.cursor_row, self.cursor_col));
        proof {
            assert forall|d: char| #[trigger] self.mark(d) == if d == c {
                Some((old(self).cursor_row, old(self).cursor_col))
            } else {
                old(self).mark(d)
            } by {
                lemma_name_key_injective(c, d);
            }
        }
    }

    /// The position of mark `c`, executably.
    pub fn mark_position(&self, c: char) -> (r: Option<(usize, usize)>)
        ensures
            r == self.mark(c),
    {
        let k = name_key_of(c);
        match self.marks.get(&k) {
            Some(p) => Some(*p),
            None => None,
        }
    }

    /// Where jumping to mark `c` takes the cursor: the row of the mark bound by the last
    /// line, and (when `exact`) its column bound by the last character of that row or
    /// (otherwise) the first non-blank character of the row. None for an unset mark.
    pub open spec fn mark_destination(&self, c: char, exact: bool) -> Option<(int, int)> {
        match self.mark(c) {
            Some((row, col)) => {
                let r = min_int(row as int, self.text().len() - 1);
                Some((r, if exact {
                    min_int(col as int, sat_sub(self.text()[r].len() as int, 1))
                } else {
                    leading_ws(self.text()[r]) as int
                }))
            },
            None => None,
        }
    }

    /// Jumps to mark `c` (`` ` `` when `exact`, to its column; `'` otherwise, to the first
    /// non-blank character of its line), its row bound by the last line. Nothing happens
    /// for an unset mark.
    pub fn goto_mark(&mut self, c: char, exact: bool)
        requires
            old(self).inv(),
        ensures
            final(self).inv(),
            final(self).config == old(self).config,
            final(self).cursor_moved(old(self)),
            match old(self).mark_destination(c, exact) {
                Some((r, col)) => final(self).cursor_row == r && final(self).cursor_col == col,
                None => *final(self) == *old(self),
            },
    {
        match self.mark_target(c, exact) {
            Some((r, cc)) => {
                self.cursor_row = r;
                self.cursor_col = cc;
            },
            None => {},
        }
    }

    /// Where jumping to mark `c` takes the cursor.
    fn mark_target(&self, c: char, exact: bool) -> (t: Option<(usize, usize)>)
        requires
            self.wf(),
        ensures
            self.mark(c) is None ==> t is None,
            self.mark(c) matches Some((row, col)) ==> {
                let r = min_int(row as int, self.text().len() - 1);
                t matches Some((a, b)) && a == r && a < self.text().len() && b == if exact {
                    min_int(col as int, sat_sub(self.text()[r].len() as int, 1))
                } else {
                    leading_ws(self.text()[r]) as int
                }
            },
    {
        let (row, col) = match self.mark_position(c) {
            Some(p) => p,
            None => return None,
        };
        let last = self.lines.len() - 1;
        let r = if row < last { row } else { last };
        let line = self.line_chars(r);
        if exact {
            let len = line.len();
            let m = if len > 0 { len - 1 } else { 0 };
            Some((r, if col < m { col } else { m }))
        } else {
            Some((r, crate::text::leading_whitespace_len(&line)))
        }
    }

    /// Stores the keys `keys` as macro `c`.
    pub fn set_macro(&mut self, c: char, keys: Vec<Key>)
        ensures
            *final(self) == (VimEditor { macro_registers: final(self).macro_registers, ..*old(self) }),
            forall|d: char| #[trigger] final(self).macro_keys(d) == if d == c {
                Some(keys@)
            } else {
                old(self).macro_keys(d)
            },
    {
        let ghost kv = keys@;
        let k = name_key_of(c);
        self.macro_registers.insert(k, keys);
        proof {
            assert forall|d: char| #[trigger] self.macro_keys(d) == if d == c {
                Some(kv)
            } else {
                old(self).macro_keys(d)
            } by {
                lemma_name_key_injective(c, d);
            }
        }
    }

    /// A copy of the keys of macro `c`.
    pub fn macro_keys_of(&self, c: char) -> (r: Option<Vec<Key>>)
        ensures
            match self.macro_keys(c) {
                Some(k) => r matches Some(v) && v@ == k,
                None => r is None,
            },
    {
        let k = name_key_of(c);
        match self.macro_registers.get(&k) {
            Some(v) => Some(copy_keys(v)),
            None => None,
        }
    }

    /// `q` in Normal mode: while a macro is being recorded, stores the recorded keys under
    /// its name and stops; otherwise waits for the name of the macro to record.
    pub fn key_macro_record(&mut self)
        ensures
            final(self).text() == old(self).text(),
            final(self).cursor_row == old(self).cursor_row,
            final(self).cursor_col == old(self).cursor_col,
            final(self).mode == old(self).mode,
            final(self).config == old(self).config,
            final(self).visual_anchor == old(self).visual_anchor,
            final(self).pending_count == old(self).pending_count,
            final(self).undo_stack == old(self).undo_stack,
            final(self).redo_stack == old(self).redo_stack,
            old(self).recording_macro matches Some(c) ==> {
                &&& final(self).recording_macro is None
                &&& final(self).macro_keys(c) == Some(old(self).macro_buffer@)
                &&& final(self).macro_buffer@.len() == 0
            },
            old(self).recording_macro is None ==> final(self).pending_macro_record && *final(self) == (VimEditor {
                pending_macro_record: true,
                ..*old(self)
            }),
    {
        match self.recording_macro {
            Some(c) => {
                self.recording_macro = None;
                let keys = copy_keys(&self.macro_buffer);
                self.macro_buffer = Vec::new();
                self.set_macro(c, keys);
            },
            None => {
                self.pending_macro_record = true;
            },
        }
    }
}

/// Setting a mark and jumping back to it exactly (`mx`, then `` `x ``) returns to the
/// position where it was set, when the cursor stood on a character of its line or at the
/// start of an empty line.
pub proof fn lemma_jump_to_set_mark(a: VimEditor, b: VimEditor, c: char)
    requires
        a.inv(),
        a.cursor_col < a.cur_len() || a.cursor_col == 0,
        mark_name(c),
        b == (VimEditor { marks: b.marks, ..a }),
        forall|d: char| #[trigger] b.mark(d) == if d == c { Some((a.cursor_row, a.cursor_col)) } else { a.mark(d) },
    ensures
        b.mark_destination(c, true) == Some((a.cursor_row as int, a.cursor_col as int)),
{
    assert(b.mark(c) == Some((a.cursor_row, a.cursor_col)));
    assert(b.text() == a.text());
}

} // verus!
