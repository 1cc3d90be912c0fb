//! Issues written into source comments: the comment formats, and the
//! parser that turns such comments into issues.
pub mod parse;
pub mod recursive_parser;
