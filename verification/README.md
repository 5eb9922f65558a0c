# scratchpad

The verified core of a plain-text editor's user interface, written in Verus.

- `src/` is the library. Its functions carry `requires`/`ensures` contracts
  that Verus proves against their bodies: the text buffer with its undo
  history, editing commands, caret movement by characters, words, lines and
  laid-out rows, the display mapping of control characters and pending
  replacements, search highlighting, the search dialog's state and keyboard
  shortcuts, the status bar and settings labels, and the integer parts of row
  and viewport layout. The laws of the library (for example that undo right
  after an edit gives back the text from before it) are public proof
  functions.
- A few trusted items stand between the library and egui or std: wrappers and
  specifications whose contracts Verus assumes rather than proves. Each has a
  doc comment that says what it claims. Where an outside result depends on
  the platform or on glyph positions, the contracts state what holds on
  every platform or for every layout: a path of plain names joined by `/`
  splits into those names, and the separator is `/` or `\`; a caret moved a
  row down lands on the row below, though where on it is left to egui.
- `app/` is ordinary Rust around the library: conversions from egui's input
  and cursor types, the clipboard, and the floating-point screen geometry that
  the library does not hold.
- `tests/` runs the library on concrete inputs, with the real egui linked.
