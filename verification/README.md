# revi

A Vim-like terminal text editor, with its logic verified by Verus.

- `src/ui`: keys and key events, layout rectangles, styles, text and
  container widgets and the draw commands they produce.
- `src/engine`: key-string parsing, pending keys, key bindings per mode,
  line numbers, text formatting for panes, panes (command bar, message box,
  window pane) over a named rope, the command-bar language, and the pop-up
  frame.
- `src/editor`: the editor's buffers and cursors, windows over ropes with
  the commands they carry out and what they draw, key bindings of window
  commands, the editor's command set and key handling, the word trie, the
  status bar parts, and the message-driven state machine (`state`) with
  what it shows on the screen (`screen`).
- `src/rope.rs`, `src/strings.rs`: the text rope (ropey) behind trusted
  wrappers, and character-level helpers.
- `app/`: the program: command line, terminal events and drawing.
