//! The editor: its buffer, cursor, mode, history, registers and pending command state,
//! and the edits that the commands are made of.
use std::collections::HashMap;
use vstd::prelude::*;

pub mod buffer;
pub mod motions;
pub mod operators;
pub mod visual;
pub mod search;
pub mod keys;
pub mod marks;
pub mod insert;
pub mod input;
pub mod substitute;
pub mod dispatch;
pub mod preview;
pub mod clipboard;



use crate::text::{
    buffer_lines, buffer_lines_of, chars_of, clone_lines, expand_tabs, join_lines,
    join_with_newlines, string_of,
};
use crate::{
    CursorShape, EditRecord, FindDirection, Key, Operator, Register, SearchState, Snapshot,
    VimMode, VimModeConfig, YankHighlight,
};

verus! {

/// Line `r` of `text`, or an empty line past its end.
pub open spec fn line_at(text: Seq<Seq<char>>, r: int) -> Seq<char> {
    if 0 <= r < text.len() {
        text[r]
    } else {
        Seq::<char>::empty()
    }
}

/// The highest column a cursor may take on line `row` of `text` in `mode`: the end of the
/// line in Insert and Replace mode, its last character otherwise (0 on an empty line).
pub open spec fn max_col_of(text: Seq<Seq<char>>, row: int, mode: VimMode) -> nat {
    let len = line_at(text, row).len();
    if mode == VimMode::Insert || mode == VimMode::Replace {
        len
    } else if len > 0 {
        (len - 1) as nat
    } else {
        0
    }
}

/// Column `col` clamped to [`max_col_of`].
#[verifier::opaque]
pub open spec fn clamp_col_of(text: Seq<Seq<char>>, row: int, col: usize, mode: VimMode) -> usize {
    if col > max_col_of(text, row, mode) {
        max_col_of(text, row, mode) as usize
    } else {
        col
    }
}

/// Row `row` clamped to the last line of `text`.
#[verifier::opaque]
pub open spec fn clamp_row_of(text: Seq<Seq<char>>, row: usize) -> usize {
    if row >= text.len() {
        if text.len() > 0 {
            (text.len() - 1) as usize
        } else {
            0
        }
    } else {
        row
    }
}

/// A snapshot as plain values: the lines and the cursor.
pub struct SnapshotView {
    pub lines: Seq<Seq<char>>,
    pub cursor_row: usize,
    pub cursor_col: usize,
}

/// The plain value of a snapshot.
pub open spec fn snapshot_view(s: Snapshot) -> SnapshotView {
    SnapshotView { lines: s.lines.deep_view(), cursor_row: s.cursor_row, cursor_col: s.cursor_col }
}

/// A self-contained Vim editor instance with its own buffer, cursor, mode, and state.
/// Each view that needs a Vim editor creates its own VimEditor.
///
/// Columns (`cursor_col`, ranges) count characters of a line.
pub struct VimEditor {
    pub lines: Vec<String>,
    pub cursor_row: usize,
    pub cursor_col: usize,
    pub mode: VimMode,
    pub config: VimModeConfig,
    // Scroll
    pub scroll_offset: usize,
    pub visible_height: usize,
    pub horizontal_scroll: usize,
    // Undo/Redo
    pub undo_stack: Vec<Snapshot>,
    pub redo_stack: Vec<Snapshot>,
    // Registers
    pub unnamed_register: Register,
    // Search
    pub search: SearchState,
    // Visual mode anchor
    pub visual_anchor: Option<(usize, usize)>,
    // Pending operator/count for Normal mode commands
    pub pending_count: Option<usize>,
    pub pending_operator: Option<Operator>,
    pub pending_g: bool,
    /// Waiting for a register name after `"`.
    pub pending_register: bool,
    /// The next yank/paste uses the system clipboard.
    pub use_system_clipboard: bool,
    /// For f/F/t/T: (direction, before flag).
    pub pending_find: Option<(FindDirection, bool)>,
    /// For `;`/`,` repeat.
    pub last_find: Option<(FindDirection, bool, char)>,
    /// For the `r` command.
    pub pending_replace: bool,
    /// For the z-prefix (zz, zt, zb).
    pub pending_z: bool,
    /// Some(false) = inner, Some(true) = around.
    pub pending_text_object: Option<bool>,
    /// `gc` typed in Normal mode, waiting for the second `c`.
    pub pending_gc: bool,
    /// `m` typed, waiting for the mark name.
    pub pending_mark: bool,
    /// `'` (Some(false)) or `` ` `` (Some(true)) typed, waiting for the mark name.
    pub pending_goto_mark: Option<bool>,
    /// `]` or `[` typed, waiting for the next key.
    pub pending_bracket: Option<char>,
    /// Marks: the (row, column) of each mark, under the code of its letter.
    pub marks: HashMap<u32, (usize, usize)>,
    // Macros
    pub recording_macro: Option<char>,
    pub pending_macro_record: bool,
    pub pending_macro_play: bool,
    pub macro_buffer: Vec<Key>,
    /// Recorded macros: the keys of each, under the code of its register's letter.
    pub macro_registers: HashMap<u32, Vec<Key>>,
    pub last_macro: Option<char>,
    // Repeat
    pub last_edit: Option<EditRecord>,
    pub recording_edit: Vec<Key>,
    pub is_recording: bool,
    // Yank highlight
    pub yank_highlight: Option<YankHighlight>,
    // Status
    pub modified: bool,
    pub command_line: String,
    // Command mode (:)
    pub command_active: bool,
    pub command_buffer: String,
    // Live substitution preview
    pub preview_lines: Option<Vec<String>>,
    /// Highlight ranges for replacement text in preview: (row, start_col, end_col)
    pub preview_highlights: Vec<(usize, usize, usize)>,
    /// Text to be written to the system clipboard by the embedding program.
    pub clipboard_out: Option<String>,
}

impl VimEditor {
    /// The lines of the buffer as character sequences.
    pub open spec fn text(&self) -> Seq<Seq<char>> {
        self.lines.deep_view()
    }

    /// The buffer has at least one line and the cursor is on one of them.
    pub open spec fn wf(&self) -> bool {
        self.text().len() >= 1 && self.cursor_row < self.text().len()
    }

    /// The invariant that the key handlers keep: the buffer is well formed, a selection
    /// anchor exists only in Visual mode and lies on a line, a pending count is at least one,
    /// every saved snapshot holds a line, and an editor whose configuration forbids Insert
    /// mode is in Normal or Visual mode.
    pub open spec fn inv(&self) -> bool {
        &&& self.wf()
        &&& !self.config.insert_allowed ==> (self.mode is Normal || self.mode is Visual)
        &&& self.visual_anchor matches Some(a) ==> a.0 < self.text().len() && self.mode is Visual
        &&& self.pending_count matches Some(c) ==> c >= 1
        &&& forall|i: int| 0 <= i < self.undo_stack@.len() ==> (#[trigger] self.undo_stack@[i]).lines@.len() >= 1
        &&& forall|i: int| 0 <= i < self.redo_stack@.len() ==> (#[trigger] self.redo_stack@[i]).lines@.len() >= 1
    }

    /// The length of line `r`, or 0 past the end of the buffer.
    pub open spec fn line_len_spec(&self, r: int) -> nat {
        line_at(self.text(), r).len()
    }

    /// The text of the cursor line, or nothing past the end of the buffer.
    pub open spec fn cur_line(&self) -> Seq<char> {
        line_at(self.text(), self.cursor_row as int)
    }

    /// The length of the cursor line.
    pub open spec fn cur_len(&self) -> nat {
        self.cur_line().len()
    }

    /// The content of the unnamed register.
    pub open spec fn register(&self) -> Seq<char> {
        self.unnamed_register.content@
    }

    /// The highest column the cursor may take on the cursor line in the current mode.
    pub open spec fn max_col(&self) -> nat {
        max_col_of(self.text(), self.cursor_row as int, self.mode)
    }

    /// The cursor column once clamped to [`Self::max_col`].
    pub open spec fn clamped_col(&self) -> usize {
        clamp_col_of(self.text(), self.cursor_row as int, self.cursor_col, self.mode)
    }

    /// The cursor row once clamped to the last line.
    pub open spec fn clamped_row(&self) -> usize {
        clamp_row_of(self.text(), self.cursor_row)
    }

    /// Whether the cursor of `self` is where clamping a cursor at (`row`, `col`) puts it,
    /// for the lines and mode of `self`.
    pub open spec fn cursor_clamped_from(&self, row: usize, col: usize) -> bool {
        &&& self.cursor_row == clamp_row_of(self.text(), row)
        &&& self.cursor_col == clamp_col_of(self.text(), row as int, col, self.mode)
    }

    /// `self` with the cursor clamped: the column first, for the line it was on, then the row.
    pub open spec fn clamped(self) -> VimEditor {
        VimEditor { cursor_col: self.clamped_col(), cursor_row: self.clamped_row(), ..self }
    }

    /// The snapshot of the current lines and cursor.
    pub open spec fn snapshot(&self) -> SnapshotView {
        SnapshotView { lines: self.text(), cursor_row: self.cursor_row, cursor_col: self.cursor_col }
    }

    /// Whether the history of `self` is that of `old` after `old` was saved for undo: its
    /// snapshot pushed on the undo stack, and the redo stack emptied.
    pub open spec fn history_saved(&self, old: &VimEditor) -> bool {
        &&& self.undo_stack@.len() == old.undo_stack@.len() + 1
        &&& self.undo_stack@.drop_last() == old.undo_stack@
        &&& snapshot_view(self.undo_stack@.last()) == old.snapshot()
        &&& self.redo_stack@.len() == 0
    }

    /// Whether `self` is `old` saved for undo.
    pub open spec fn saved_from(&self, old: &VimEditor) -> bool {
        &&& *self == VimEditor { undo_stack: self.undo_stack, redo_stack: self.redo_stack, ..*old }
        &&& self.history_saved(old)
    }

    /// Whether `self` is `old` after an undo: the last saved snapshot is restored (the
    /// cursor clamped), the modified flag is set, and the state before is pushed for redo.
    /// Without a saved snapshot nothing changes.
    pub open spec fn undone_from(&self, old: &VimEditor) -> bool {
        if old.undo_stack@.len() == 0 {
            *self == *old
        } else {
            let s = snapshot_view(old.undo_stack@.last());
            &&& self.text() == s.lines
            &&& *self == VimEditor {
                lines: self.lines,
                cursor_row: self.cursor_row,
                cursor_col: self.cursor_col,
                undo_stack: self.undo_stack,
                redo_stack: self.redo_stack,
                modified: true,
                ..*old
            }
            &&& self.cursor_clamped_from(s.cursor_row, s.cursor_col)
            &&& self.undo_stack@ == old.undo_stack@.drop_last()
            &&& self.redo_stack@.len() == old.redo_stack@.len() + 1
            &&& self.redo_stack@.drop_last() == old.redo_stack@
            &&& snapshot_view(self.redo_stack@.last()) == old.snapshot()
        }
    }

    /// Whether `self` is `old` after a redo: the last undone snapshot is restored (the
    /// cursor clamped), the modified flag is set, and the state before is pushed for undo.
    /// Without one nothing changes.
    pub open spec fn redone_from(&self, old: &VimEditor) -> bool {
        if old.redo_stack@.len() == 0 {
            *self == *old
        } else {
            let s = snapshot_view(old.redo_stack@.last());
            &&& self.text() == s.lines
            &&& *self == VimEditor {
                lines: self.lines,
                cursor_row: self.cursor_row,
                cursor_col: self.cursor_col,
                undo_stack: self.undo_stack,
                redo_stack: self.redo_stack,
                modified: true,
                ..*old
            }
            &&& self.cursor_clamped_from(s.cursor_row, s.cursor_col)
            &&& self.redo_stack@ == old.redo_stack@.drop_last()
            &&& self.undo_stack@.len() == old.undo_stack@.len() + 1
            &&& self.undo_stack@.drop_last() == old.undo_stack@
            &&& snapshot_view(self.undo_stack@.last()) == old.snapshot()
        }
    }

    /// The state of a fresh editor over the lines `text` (the lines themselves excepted).
    pub open spec fn is_initial(&self, text: Seq<Seq<char>>, config: VimModeConfig) -> bool {
        &&& self.text() == text
        &&& self.cursor_row == 0
        &&& self.cursor_col == 0
        &&& self.mode == VimMode::Normal
        &&& self.config == config
        &&& self.scroll_offset == 0
        &&& self.visible_height == 20
        &&& self.horizontal_scroll == 0
        &&& self.undo_stack@.len() == 0
        &&& self.redo_stack@.len() == 0
        &&& self.register().len() == 0
        &&& !self.unnamed_register.linewise
        &&& self.search.pattern@.len() == 0
        &&& self.search.forward
        &&& !self.search.active
        &&& self.search.input_buffer@.len() == 0
        &&& self.visual_anchor.is_none()
        &&& self.pending_count.is_none()
        &&& self.pending_operator.is_none()
        &&& !self.pending_g
        &&& !self.pending_register
        &&& !self.use_system_clipboard
        &&& self.pending_find.is_none()
        &&& self.last_find.is_none()
        &&& !self.pending_replace
        &&& !self.pending_z
        &&& self.pending_text_object.is_none()
        &&& !self.pending_gc
        &&& !self.pending_mark
        &&& self.pending_goto_mark.is_none()
        &&& self.pending_bracket.is_none()
        &&& self.marks@ == Map::<u32, (usize, usize)>::empty()
        &&& self.recording_macro.is_none()
        &&& !self.pending_macro_record
        &&& !self.pending_macro_play
        &&& self.macro_buffer@.len() == 0
        &&& self.macro_registers@ == Map::<u32, Vec<Key>>::empty()
        &&& self.last_macro.is_none()
        &&& self.last_edit.is_none()
        &&& self.recording_edit@.len() == 0
        &&& !self.is_recording
        &&& self.yank_highlight.is_none()
        &&& !self.modified
        &&& self.command_line@.len() == 0
        &&& !self.command_active
        &&& self.command_buffer@.len() == 0
        &&& self.preview_lines.is_none()
        &&& self.preview_highlights@.len() == 0
        &&& self.clipboard_out.is_none()
    }
}

/// After the state was saved for undo, every snapshot of the history still holds a line.
pub proof fn lemma_history_saved_stacks(old: VimEditor, new: VimEditor)
    requires
        old.inv(),
        new.history_saved(&old),
    ensures
        forall|i: int| 0 <= i < new.undo_stack@.len() ==> (#[trigger] new.undo_stack@[i]).lines@.len() >= 1,
        forall|i: int| 0 <= i < new.redo_stack@.len() ==> (#[trigger] new.redo_stack@[i]).lines@.len() >= 1,
{
    assert(new.undo_stack@.last().lines.deep_view().len() == new.undo_stack@.last().lines@.len());
    assert forall|i: int| 0 <= i < new.undo_stack@.len() implies (#[trigger] new.undo_stack@[i]).lines@.len() >= 1 by {
        if i < old.undo_stack@.len() {
            assert(new.undo_stack@[i] == new.undo_stack@.drop_last()[i]);
        }
    }
}

/// Every clamped row lies on a line of a text that has one.
pub proof fn lemma_clamp_rows_in(t: Seq<Seq<char>>)
    requires
        t.len() >= 1,
    ensures
        forall|r: usize| #[trigger] clamp_row_of(t, r) < t.len(),
{
    reveal(clamp_row_of);
}

/// A clamped row lies on a line of a text that has one.
pub proof fn lemma_clamp_row_in(t: Seq<Seq<char>>, r: usize)
    requires
        t.len() >= 1,
    ensures
        clamp_row_of(t, r) < t.len(),
{
    reveal(clamp_row_of);
}

/// Law: a redo right after an undo gives back the lines that were there before the
/// undo, whenever there was something to undo.
pub proof fn lemma_undo_then_redo(a: VimEditor, b: VimEditor, c: VimEditor)
    requires
        a.undo_stack@.len() > 0,
        b.undone_from(&a),
        c.redone_from(&b),
    ensures
        c.text() == a.text(),
        c.undo_stack@.len() == a.undo_stack@.len(),
        c.redo_stack@.len() == a.redo_stack@.len(),
{
}

/// Law: an undo right after a redo gives back the lines that were there before the redo,
/// whenever there was something to redo.
pub proof fn lemma_redo_then_undo(a: VimEditor, b: VimEditor, c: VimEditor)
    requires
        a.redo_stack@.len() > 0,
        b.redone_from(&a),
        c.undone_from(&b),
    ensures
        c.text() == a.text(),
        c.undo_stack@.len() == a.undo_stack@.len(),
        c.redo_stack@.len() == a.redo_stack@.len(),
{
}

/// Law: saving for undo and then undoing gives back the lines, with the cursor clamped.
pub proof fn lemma_save_then_undo(a: VimEditor, b: VimEditor, c: VimEditor)
    requires
        b.saved_from(&a),
        c.undone_from(&b),
    ensures
        c.text() == a.text(),
        c.cursor_row == a.clamped_row(),
        c.cursor_col == a.clamped_col(),
        c.undo_stack@ == a.undo_stack@,
{
    reveal(clamp_col_of);
    reveal(clamp_row_of);
}

/// Law: undoing right after any edit that saved the state for undo (every change of the
/// buffer by a command does) gives back the lines from before the edit, restores the undo
/// history from before it, and keeps the edited lines for redo.
pub proof fn lemma_edit_then_undo(a: VimEditor, b: VimEditor, c: VimEditor)
    requires
        b.history_saved(&a),
        c.undone_from(&b),
    ensures
        c.text() == a.text(),
        c.undo_stack@ == a.undo_stack@,
        c.redo_stack@.len() == 1,
        snapshot_view(c.redo_stack@[0]).lines == b.text(),
{
}

impl VimEditor {
    /// Creates an editor over `content`: tabs become four spaces, and the text is split
    /// into lines as `str::lines` splits it (an empty text is one empty line).
    pub fn new(content: &str, config: VimModeConfig) -> (r: Self)
        ensures
            r.is_initial(buffer_lines(content@), config),
            r.wf(),
            r.inv(),
    {
        let lines = buffer_lines_of(content);
        VimEditor {
            lines,
            cursor_row: 0,
            cursor_col: 0,
            mode: VimMode::Normal,
            config,
            scroll_offset: 0,
            visible_height: 20,
            horizontal_scroll: 0,
            undo_stack: Vec::new(),
            redo_stack: Vec::new(),
            unnamed_register: Register { content: String::new(), linewise: false },
            search: SearchState::default(),
            visual_anchor: None,
            pending_count: None,
            pending_operator: None,
            pending_g: false,
            pending_register: false,
            use_system_clipboard: false,
            pending_find: None,
            last_find: None,
            pending_replace: false,
            pending_z: false,
            pending_text_object: None,
            pending_gc: false,
            pending_mark: false,
            pending_goto_mark: None,
            pending_bracket: None,
            marks: HashMap::new(),
            recording_macro: None,
            pending_macro_record: false,
            pending_macro_play: false,
            macro_buffer: Vec::new(),
            macro_registers: HashMap::new(),
            last_macro: None,
            last_edit: None,
            recording_edit: Vec::new(),
            is_recording: false,
            yank_highlight: None,
            modified: false,
            command_line: String::new(),
            command_active: false,
            command_buffer: String::new(),
            preview_lines: None,
            preview_highlights: Vec::new(),
            clipboard_out: None,
        }
    }

    /// Creates an editor over an empty buffer (one empty line).
    pub fn new_empty(config: VimModeConfig) -> (r: Self)
        ensures
            r.is_initial(seq![Seq::<char>::empty()], config),
            r.wf(),
            r.inv(),
    {
        let r = Self::new("", config);
        proof {
            reveal_strlit("");
            assert(expand_tabs(""@) =~= Seq::<char>::empty());
        }
        r
    }

    /// Replaces the whole buffer with `content` (split as in [`Self::new`]), puts the cursor
    /// and the scroll at the top, clears the history and the modified flag.
    pub fn set_content(&mut self, content: &str)
        ensures
            *final(self) == (VimEditor {
                lines: final(self).lines,
                cursor_row: 0,
                cursor_col: 0,
                scroll_offset: 0,
                undo_stack: final(self).undo_stack,
                redo_stack: final(self).redo_stack,
                modified: false,
                ..*old(self)
            }),
            final(self).text() == buffer_lines(content@),
            final(self).undo_stack@.len() == 0,
            final(self).redo_stack@.len() == 0,
            final(self).wf(),
    {
        self.lines = buffer_lines_of(content);
        self.cursor_row = 0;
        self.cursor_col = 0;
        self.scroll_offset = 0;
        self.undo_stack.clear();
        self.redo_stack.clear();
        self.modified = false;
    }

    /// The whole buffer: the lines joined with `\n`.
    pub fn content(&self) -> (r: String)
        ensures
            r@ == join_lines(self.text()),
    {
        join_with_newlines(&self.lines)
    }

    /// The number of lines.
    pub fn line_count(&self) -> (r: usize)
        ensures
            r == self.text().len(),
    {
        self.lines.len()
    }

    /// Returns the cursor shape hint for the current mode: an underline while a
    /// replacement character is awaited or in Replace mode, a bar in Insert mode and a
    /// block otherwise.
    pub fn cursor_shape(&self) -> (r: CursorShape)
        ensures
            r == self.cursor_shape_spec(),
    {
        if self.pending_replace {
            return CursorShape::Underline;
        }
        match self.mode {
            VimMode::Normal => CursorShape::Block,
            VimMode::Insert => CursorShape::Bar,
            VimMode::Replace => CursorShape::Underline,
            VimMode::Visual(_) => CursorShape::Block,
        }
    }

    /// The cursor shape for the current state (see [`Self::cursor_shape`]).
    pub open spec fn cursor_shape_spec(&self) -> CursorShape {
        if self.pending_replace {
            CursorShape::Underline
        } else {
            match self.mode {
                VimMode::Normal => CursorShape::Block,
                VimMode::Insert => CursorShape::Bar,
                VimMode::Replace => CursorShape::Underline,
                VimMode::Visual(_) => CursorShape::Block,
            }
        }
    }

    /// The text of the cursor line (empty if the cursor is past the last line).
    pub fn current_line(&self) -> (r: &str)
        ensures
            r@ == self.cur_line(),
    {
        if self.cursor_row < self.lines.len() {
            self.lines[self.cursor_row].as_str()
        } else {
            proof {
                reveal_strlit("");
            }
            ""
        }
    }

    /// The characters of line `row`.
    pub fn line_chars(&self, row: usize) -> (r: Vec<char>)
        requires
            row < self.text().len(),
        ensures
            r@ == self.text()[row as int],
    {
        chars_of(self.lines[row].as_str())
    }

    /// The characters of the cursor line (none if the cursor is past the last line).
    pub fn current_chars(&self) -> (r: Vec<char>)
        ensures
            r@ == self.cur_line(),
    {
        if self.cursor_row < self.lines.len() {
            chars_of(self.lines[self.cursor_row].as_str())
        } else {
            Vec::new()
        }
    }

    /// The number of characters of the cursor line.
    pub fn current_line_len(&self) -> (r: usize)
        ensures
            r == self.cur_len(),
    {
        self.current_chars().len()
    }

    /// The number of characters of line `row` (0 past the last line).
    pub fn line_len(&self, row: usize) -> (r: usize)
        ensures
            r == self.line_len_spec(row as int),
    {
        if row < self.lines.len() {
            self.line_chars(row).len()
        } else {
            0
        }
    }

    /// Replaces line `row` with the characters `chars`.
    pub fn set_line(&mut self, row: usize, chars: &[char])
        requires
            row < old(self).text().len(),
        ensures
            *final(self) == (VimEditor { lines: final(self).lines, ..*old(self) }),
            final(self).text() == old(self).text().update(row as int, chars@),
    {
        let s = string_of(chars);
        self.lines.set(row, s);
        assert(self.text() =~= old(self).text().update(row as int, chars@));
    }

    /// The cursor position once clamped: (row, column).
    pub fn clamped_position(&self) -> (r: (usize, usize))
        ensures
            r == (self.clamped_row(), self.clamped_col()),
    {
        reveal(clamp_col_of);
        reveal(clamp_row_of);
        let len = self.current_line_len();
        let max_col = match self.mode {
            VimMode::Insert | VimMode::Replace => len,
            _ => if len > 0 { len - 1 } else { 0 },
        };
        let new_col = if self.cursor_col > max_col { max_col } else { self.cursor_col };
        let n = self.lines.len();
        let new_row = if self.cursor_row >= n {
            if n > 0 { n - 1 } else { 0 }
        } else {
            self.cursor_row
        };
        (new_row, new_col)
    }

    /// Clamp cursor column to valid range for current line, then the row to the last line.
    pub fn clamp_cursor(&mut self)
        ensures
            *final(self) == old(self).clamped(),
    {
        let (row, col) = self.clamped_position();
        self.cursor_row = row;
        self.cursor_col = col;
    }

    /// A copy of the current lines and cursor.
    fn current_snapshot(&self) -> (r: Snapshot)
        ensures
            snapshot_view(r) == self.snapshot(),
    {
        Snapshot {
            lines: clone_lines(&self.lines),
            cursor_row: self.cursor_row,
            cursor_col: self.cursor_col,
        }
    }

    /// Save current state for undo (and forget what could be redone).
    pub fn save_undo(&mut self)
        ensures
            final(self).saved_from(old(self)),
            old(self).inv() ==> final(self).inv(),
    {
        let snap = self.current_snapshot();
        self.undo_stack.push(snap);
        self.redo_stack.clear();
        assert(self.undo_stack@.drop_last() =~= old(self).undo_stack@);
        proof {
            if old(self).inv() {
                assert(self.undo_stack@.last().lines.deep_view().len() == self.undo_stack@.last().lines@.len());
                assert forall|i: int| 0 <= i < self.undo_stack@.len() implies (#[trigger] self.undo_stack@[i]).lines@.len() >= 1 by {
                    if i < old(self).undo_stack@.len() {
                        assert(self.undo_stack@[i] == old(self).undo_stack@[i]);
                    }
                }
            }
        }
    }

    /// Undo last change.
    pub fn undo(&mut self)
        ensures
            final(self).undone_from(old(self)),
            old(self).inv() && old(self).visual_anchor is None ==> final(self).inv(),
    {
        if self.undo_stack.len() > 0 {
            let current = self.current_snapshot();
            let snapshot = self.undo_stack.pop().unwrap();
            self.redo_stack.push(current);
            assert(self.redo_stack@.drop_last() =~= old(self).redo_stack@);
            proof {
                if old(self).inv() {
                    let k = old(self).undo_stack@.len() - 1;
                    assert(old(self).undo_stack@[k] == snapshot);
                    assert(snapshot.lines.deep_view().len() == snapshot.lines@.len());
                    assert(self.redo_stack@.last().lines.deep_view().len() == self.redo_stack@.last().lines@.len());
                    assert forall|i: int| 0 <= i < self.redo_stack@.len() implies (#[trigger] self.redo_stack@[i]).lines@.len() >= 1 by {
                        if i < old(self).redo_stack@.len() {
                            assert(self.redo_stack@[i] == old(self).redo_stack@[i]);
                        }
                    }
                    assert forall|i: int| 0 <= i < self.undo_stack@.len() implies (#[trigger] self.undo_stack@[i]).lines@.len() >= 1 by {
                        assert(self.undo_stack@[i] == old(self).undo_stack@[i]);
                    }
                }
            }
            self.lines = snapshot.lines;
            self.cursor_row = snapshot.cursor_row;
            self.cursor_col = snapshot.cursor_col;
            self.modified = true;
            self.clamp_cursor();
            proof {
                if self.text().len() >= 1 {
                    lemma_clamp_row_in(self.text(), snapshot.cursor_row);
                }
            }
        }
    }

    /// Redo last undone change.
    pub fn redo(&mut self)
        ensures
            final(self).redone_from(old(self)),
            old(self).inv() && old(self).visual_anchor is None ==> final(self).inv(),
    {
        if self.redo_stack.len() > 0 {
            let current = self.current_snapshot();
            let snapshot = self.redo_stack.pop().unwrap();
            self.undo_stack.push(current);
            assert(self.undo_stack@.drop_last() =~= old(self).undo_stack@);
            proof {
                if old(self).inv() {
                    let k = old(self).redo_stack@.len() - 1;
                    assert(old(self).redo_stack@[k] == snapshot);
                    assert(snapshot.lines.deep_view().len() == snapshot.lines@.len());
                    assert(self.undo_stack@.last().lines.deep_view().len() == self.undo_stack@.last().lines@.len());
                    assert forall|i: int| 0 <= i < self.undo_stack@.len() implies (#[trigger] self.undo_stack@[i]).lines@.len() >= 1 by {
                        if i < old(self).undo_stack@.len() {
                            assert(self.undo_stack@[i] == old(self).undo_stack@[i]);
                        }
                    }
                    assert forall|i: int| 0 <= i < self.redo_stack@.len() implies (#[trigger] self.redo_stack@[i]).lines@.len() >= 1 by {
                        assert(self.redo_stack@[i] == old(self).redo_stack@[i]);
                    }
                }
            }
            self.lines = snapshot.lines;
            self.cursor_row = snapshot.cursor_row;
            self.cursor_col = snapshot.cursor_col;
            self.modified = true;
            self.clamp_cursor();
            proof {
                if self.text().len() >= 1 {
                    lemma_clamp_row_in(self.text(), snapshot.cursor_row);
                }
            }
        }
    }
}

} // verus!
