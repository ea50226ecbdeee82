# garedit

The verified core of a native text editor for X11, with the program around it.

- `src/` is the library. Documents, undo history, search, prompts, the command
  palette, tabs, the clipboard protocol, sessions and remote control are plain
  Rust with contracts that Verus proves. `model.rs` and `state.rs` say what
  every command, key and event does; `laws.rs` and `editor_laws.rs` say what
  follows from that for the text and the editor as a whole.
- `tests/` runs the library on concrete values.
- `app/` is the program: the X11 window, drawing, files, the control socket and
  the command line. It performs the effects that the library asks for and hands
  back the results. Under the name `gareditctl` it is the control tool.

A few functions of the library are trusted rather than proved, because
they only call out: `String::push` in `text.rs`, and in `clipboard.rs` the lossy
decoding of UTF-8 and the two predefined X11 atoms.

Columns count characters. Paths are text: a path that is not UTF-8 is refused at
the edge of the program.
