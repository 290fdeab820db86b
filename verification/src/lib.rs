//! kandume: the model of a terminal multiplexer that organizes work into
//! projects, windows and panes, with a tmux-style `Ctrl-b` prefix.
//!
//! The library holds the verified logic: the pane split tree, the key and
//! mouse encoders, the screen geometry and hit testing, the session file
//! model and its migrations, and the state machine of the whole workspace.
//! Everything that talks to a terminal, a PTY or the disk lives in `app/`.

pub mod pane_tree;
pub mod layout;
pub mod session;
pub mod app;
pub mod input;
pub mod mouse;
pub mod text;
pub mod terminal;
