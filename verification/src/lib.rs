//! Core of a structured text editor: a text buffer kept in lock-step with an
//! incrementally parsed syntax tree, a grouped undo/redo history, and
//! auto-pairing bookkeeping, plus the derivation of nested visual block
//! regions from the syntax tree.

pub mod blocks;
pub mod buffer;
pub mod documentation;
pub mod edit_generation;
pub mod lang;
pub mod source;
pub mod str_util;
pub mod text_edit;
pub mod text_model;
pub mod text_range;
pub mod tree_manager;
pub mod undo_manager;

pub use text_range::{TextPoint, TextRange};
