//! The logic of an interactive agent terminal: prompt editing and recall,
//! transcript folding, clarification surveys, pane titles, side chats, tool
//! definitions and the patch journal, each with its contract.

pub mod ansi;
pub mod chat_types;
pub mod json;
pub mod paths;
pub mod text;
pub mod transcript;
pub mod tools;
pub mod tui;
