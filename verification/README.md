# bend — verified core of a databending hex editor

The library holds the logic of a hex editor for glitch art, with its behaviour
stated in Verus contracts and proved:

- `editor/` — the byte buffer: overwrite, insert and delete edits, nibble and
  ASCII entry, undo/redo with coalescing of adjacent single-byte edits,
  save points, bookmarks that follow insertions and deletions, selection,
  search (hex patterns with `??` wildcards, ASCII with optional case folding)
  and the "go to offset" parser. `editor/laws.rs` proves how undo, redo and
  bookmark shifting relate, and that a save point restores the bytes it
  captured whatever other save-point calls come in between.
- `formats/` — structure parsers for BMP, JPEG, PNG and GIF files; a file's
  format is detected from its signature for BMP, JPEG and GIF, while the PNG
  parser is called directly. Each parser's
  result is specified exactly by a recursive description of the format; the
  gaps between parsed sections are filled with Unknown sections, and the
  result is proved to be sorted, to keep every section and to cover every byte.
- `sections.rs` — the innermost section at an offset, header protection and
  high-risk warnings.
- `dialogs.rs`, `input.rs`, `ui/`, `preview.rs`, `settings.rs` — the
  decisions of the interface: Replace and Replace All (protected matches
  skipped, Replace All as one undo step), confirmation dialogs, keyboard shortcuts,
  navigation and edit decisions, copy and paste formats, the replace-length
  indicator, GIF playback timing, preview debounce, recent files and
  supported file extensions.
- `text.rs` — character and string helpers, with the standard library
  behaviour they rely on.

Tests under `tests/` exercise the library on concrete files and edits.
