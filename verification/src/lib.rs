//! The logic of a text editor.
//!
//! Text: `chars`, `text`, `number`, `newline`, `word` and `paths` work on
//! characters and strings. Documents: `model` says what a document is and what
//! every command makes of it, `buffer` carries that out, and `laws` relates the
//! commands to the text as a whole. The editor: `state` is its model, `editor`
//! carries it out, and `display` and `session` read from it. What is true of it
//! stands in `editor_laws` for the editor as a whole, in `operation_laws` for
//! what the user does, in `window_laws` for the window, the pointer and remote
//! control, and in `frame_laws` for what each operation leaves alone. The
//! remaining modules are its parts.
pub mod buffer;
pub mod chars;
pub mod clipboard;
pub mod command;
pub mod cursor;
pub mod display;
pub mod editor;
pub mod editor_laws;
pub mod frame_laws;
pub mod ipc;
pub mod keys;
pub mod laws;
pub mod layout;
pub mod model;
pub mod newline;
pub mod number;
pub mod operation_laws;
pub mod palette;
pub mod paths;
pub mod prompt;
pub mod search;
pub mod selection;
pub mod session;
pub mod state;
pub mod text;
pub mod theme;
pub mod window_laws;
pub mod word;
