//! Rendering of archived chat history: a markup parser, an HTML renderer for
//! its syntax tree, and the assembly of stored rows into display-ready
//! messages.

pub mod actions;
pub mod charclass;
pub mod convertor;
pub mod discord;
pub mod generic;
pub mod json;
pub mod matrix;
pub mod parser;
pub mod syntax;
pub mod text;
pub mod timeline;
pub mod timestamp;

pub use actions::{GetMessages, JumpDetails, Password, Query};
