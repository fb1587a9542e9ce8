# vimltui

A self-contained, embeddable Vim editor core, verified with Verus. Each `VimEditor` owns
its text buffer, cursor, mode, undo/redo history, search state, registers, marks and
macros; keys go in through `VimEditor::handle_key`, and an `EditorAction` tells the
embedding program what the key asks of it (save, close, hover, ...).

## Layout

- `src/` — the verified library.
  - `text.rs`: strings as character sequences, splitting into lines and joining.
  - `editor/`: the editor state (`mod.rs`), buffer edits, motions, operators, Visual
    mode, search, marks and macros, Insert mode, the `:` commands and substitutions with
    their live preview, and the key dispatch (`dispatch.rs`).
  - `render.rs`, `view.rs`: what a screen line shows, as plain values.
- `app/` — the terminal side: crossterm key events, the system clipboard, and drawing
  with ratatui.
- `tests/` — tests of the library.

Every key handler keeps the editor's invariant (`VimEditor::inv`): the buffer has a line
and the cursor is on one, a selection exists only in Visual mode, every undo snapshot
holds a line, and an editor whose configuration forbids Insert mode never enters it.
