//! Editing core of a code editor: a line store with cursor-addressed edits,
//! undo/redo history, and a syntax-highlighting pipeline over a parse tree.
pub mod text;
pub mod text_buffer;
pub mod highlight;
pub mod merge;
pub mod syntax;
pub mod parser;
pub mod inverse;
pub mod edit;
pub mod history;
pub mod file_handling;
pub mod state;
