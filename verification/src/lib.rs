//! # vimltui
//!
//! A self-contained, embeddable Vim editor core. Each [`VimEditor`] instance owns its own
//! text buffer, cursor, mode, undo/redo history, search state and registers, completely
//! independent from the application that embeds it.
//!
//! Columns are counted in characters (Unicode scalar values) of a line throughout the
//! library. The drawing of an editor onto a terminal is left to the embedding program:
//! the `render` and `view` modules compute, as plain values, what each screen line shows.
use vstd::prelude::*;

pub mod text;
pub mod editor;
pub mod render;
pub mod view;


pub use editor::VimEditor;

verus! {

/// Vim editing mode.
#[derive(Debug, Clone, Copy, PartialEq, Eq, Structural)]
pub enum VimMode {
    Normal,
    Insert,
    Replace,
    Visual(VisualKind),
}

/// Cursor shape hint for renderers.
#[derive(Debug, Clone, Copy, PartialEq, Eq, Structural)]
pub enum CursorShape {
    Block,
    Bar,
    Underline,
}

/// Visual selection kind.
#[derive(Debug, Clone, Copy, PartialEq, Eq, Structural)]
pub enum VisualKind {
    Char,
    Line,
    Block,
}

/// Configures which Vim modes are available in an editor instance.
#[derive(Debug, Clone, Copy)]
pub struct VimModeConfig {
    pub insert_allowed: bool,
    pub visual_allowed: bool,
}

impl Default for VimModeConfig {
    fn default() -> (r: Self)
        ensures
            r.insert_allowed,
            r.visual_allowed,
    {
        VimModeConfig { insert_allowed: true, visual_allowed: true }
    }
}

impl VimModeConfig {
    /// Read-only mode: visual selection is allowed but insert is disabled.
    pub fn read_only() -> (r: Self)
        ensures
            !r.insert_allowed,
            r.visual_allowed,
    {
        VimModeConfig { insert_allowed: false, visual_allowed: true }
    }
}

/// The key of a key press, as far as the editor distinguishes keys.
#[derive(Debug, Clone, Copy, PartialEq, Eq, Structural)]
pub enum KeyCode {
    Char(char),
    Enter,
    Esc,
    Backspace,
    Delete,
    Tab,
    Home,
    End,
    Left,
    Right,
    Up,
    Down,
    /// Any other key (function keys, page keys, ...).
    Other,
}

/// A key press: the key and whether Control was held.
#[derive(Debug, Clone, Copy, PartialEq, Eq, Structural)]
pub struct Key {
    pub code: KeyCode,
    pub ctrl: bool,
}

/// Actions returned from [`VimEditor::handle_key()`] to inform the parent application.
#[derive(Debug, Clone, Copy, PartialEq, Eq, Structural)]
pub enum EditorAction {
    /// The editor consumed the key — no further action needed.
    Handled,
    /// The editor does not handle this key — bubble up to the parent.
    Unhandled(Key),
    /// Save buffer (`:w` or `Ctrl+S`).
    Save,
    /// Close buffer (`:q`).
    Close,
    /// Force close without saving (`:q!`).
    ForceClose,
    /// Save and close (`:wq`, `:x`).
    SaveAndClose,
    /// Toggle the comment of the cursor line (`gcc`).
    ToggleComment,
    /// Toggle a block comment over the selected rows (`gc` in Visual mode).
    ToggleBlockComment { start_row: usize, end_row: usize },
    /// Go to the definition of the symbol under the cursor (`gd`).
    GoToDefinition,
    /// Show documentation for the symbol under the cursor (`K`).
    Hover,
}

/// Leader key (space by default, like modern Neovim setups).
pub const LEADER_KEY: char = ' ';

/// Operator waiting for a motion (e.g., `d` waits for `w` → `dw`).
#[derive(Debug, Clone, Copy, PartialEq, Eq, Structural)]
pub enum Operator {
    Delete,
    Yank,
    Change,
    Indent,
    Dedent,
    Uppercase,
    Lowercase,
    ToggleCase,
}

/// The range affected by a motion, used by operators.
#[derive(Debug, Clone, Copy, PartialEq, Eq, Structural)]
pub struct MotionRange {
    pub start_row: usize,
    pub start_col: usize,
    pub end_row: usize,
    pub end_col: usize,
    pub linewise: bool,
}

/// Snapshot of editor state for undo/redo.
#[derive(Debug, Clone)]
pub struct Snapshot {
    pub lines: Vec<String>,
    pub cursor_row: usize,
    pub cursor_col: usize,
}

/// Register content (for yank/paste).
#[derive(Debug, Clone, Default)]
pub struct Register {
    pub content: String,
    pub linewise: bool,
}

impl Register {
    /// A copy of the register.
    pub fn clone_register(&self) -> (r: Register)
        ensures
            r.content@ == self.content@,
            r.linewise == self.linewise,
    {
        Register { content: self.content.clone(), linewise: self.linewise }
    }
}

/// State for incremental search (`/` and `?`).
#[derive(Debug, Clone)]
pub struct SearchState {
    pub pattern: String,
    pub forward: bool,
    pub active: bool,
    pub input_buffer: String,
}

impl Default for SearchState {
    fn default() -> (r: Self)
        ensures
            r.pattern@.len() == 0,
            r.forward,
            !r.active,
            r.input_buffer@.len() == 0,
    {
        SearchState {
            pattern: String::new(),
            forward: true,
            active: false,
            input_buffer: String::new(),
        }
    }
}

/// Recorded keystrokes for dot-repeat (`.`).
#[derive(Debug, Clone)]
pub struct EditRecord {
    pub keys: Vec<Key>,
}

/// A point of the monotonic clock (`std::time::Instant`).
#[verifier::external_type_specification]
#[verifier::external_body]
pub struct ExInstant(std::time::Instant);

/// `Instant::now`: the current time. Nothing is stated of the value, which the clock decides.
#[verifier::external_body]
fn instant_now() -> std::time::Instant {
    std::time::Instant::now()
}

/// `Instant::elapsed`: the time passed since `t`. Nothing is stated of it, which the clock decides.
#[verifier::external_body]
fn instant_elapsed(t: &std::time::Instant) -> std::time::Duration {
    t.elapsed()
}

/// `Duration::as_millis`: the whole milliseconds of `d`. The value is left unsaid here, as
/// the duration it is read from is opaque.
#[verifier::external_body]
fn duration_millis(d: &std::time::Duration) -> u128 {
    d.as_millis()
}

/// Temporary highlight for yanked text (like Neovim's `vim.highlight.on_yank()`).
#[derive(Debug, Clone, Copy)]
pub struct YankHighlight {
    pub start_row: usize,
    pub start_col: usize,
    pub end_row: usize,
    pub end_col: usize,
    pub linewise: bool,
    pub created_at: std::time::Instant,
}

impl YankHighlight {
    /// Duration the highlight stays visible, in milliseconds.
    pub const DURATION_MS: u128 = 150;

    /// A highlight over the given range, starting now.
    pub fn new(start_row: usize, start_col: usize, end_row: usize, end_col: usize, linewise: bool) -> (r: Self)
        ensures
            r.start_row == start_row,
            r.start_col == start_col,
            r.end_row == end_row,
            r.end_col == end_col,
            r.linewise == linewise,
    {
        YankHighlight { start_row, start_col, end_row, end_col, linewise, created_at: instant_now() }
    }

    /// Whether a highlight that has been shown for `elapsed_ms` milliseconds is over.
    pub fn expired_after(elapsed_ms: u128) -> (r: bool)
        ensures
            r == (elapsed_ms > Self::DURATION_MS),
    {
        elapsed_ms > Self::DURATION_MS
    }

    /// Whether the highlight has been visible for longer than [`Self::DURATION_MS`]. The
    /// elapsed time comes from the clock; [`Self::expired_after`] decides on it.
    pub fn is_expired(&self) -> bool {
        Self::expired_after(self.elapsed_ms())
    }

    /// The whole milliseconds since the highlight was made, as the clock reads them.
    pub(crate) fn elapsed_ms(&self) -> u128 {
        duration_millis(&instant_elapsed(&self.created_at))
    }
}

/// A gutter sign for a specific line, used for diff indicators.
#[derive(Debug, Clone, Copy, PartialEq, Eq, Structural)]
pub enum GutterSign {
    /// Line was added (new) — green `│` and green line number.
    Added,
    /// Line was modified — yellow `│` and yellow line number.
    Modified,
    /// Lines were deleted above this position — red `▲`.
    DeletedAbove,
    /// Lines were deleted below this position — red `▼`.
    DeletedBelow,
}

/// Direction for `f`/`F`/`t`/`T` character find motions.
#[derive(Debug, Clone, Copy, PartialEq, Eq, Structural)]
pub enum FindDirection {
    Forward,
    Backward,
}

/// No-op highlighter — renders text without any syntax coloring.
#[derive(Debug, Clone, Copy)]
pub struct PlainHighlighter;

/// Number of lines kept visible above/below the cursor when scrolling.
pub const SCROLLOFF: usize = 3;

} // verus!
