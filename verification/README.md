# wim

A small vim-like terminal editor. The editing core is a library whose
behaviour is stated in `requires`/`ensures` contracts and proved with Verus;
a thin program around it talks to the terminal.

## Layout

- `src/` — the verified library:
  - documents and undo: `row`, `doc`, `undo` (rows with their tab rendering,
    replacements of row ranges, the change stack with undo and redo);
  - the document view: `docview` (modes, motions, operators, key bindings,
    drawing), `mode`, `noun`, `rel`, `sel`;
  - keys and bindings: `read` (decoding terminal bytes into keys and reading
    cursor-position reports), `key`, `bindings`, `trie`, `command`, `dk`,
    `message`, `target`, `variant`;
  - views: `view_map` (registration, focus, key handling, dispatch, drawing),
    `layout`, `editor`, `commandline`, `vstack`, `view`, `keygen`;
  - the program's decisions: `pump` (one step of handing pending input to
    the views, and what to do with a read key and the key timer), `screen`
    (laying out and drawing a frame into the bytes for the terminal);
  - drawing: `bitmap`, `glyph`, `format`, `color`, `buf`, `line`, `raster`;
  - `types` (positions and rectangles), `text`, `error`, `status`,
    `settings`, `consts`, `classify`, `textobj`, `trigger`, `plugin`.
- `tests/` — tests of the library on concrete values.
- `app/` — the program: raw terminal mode, window size, reading keys,
  reading files, writing frames, and the loop that feeds keys to the views.
