//! The fixers: each declares the structural pattern it targets and computes a
//! replacement for one matched node at a time.

pub mod array_bracket_space;
pub mod declare_directive_existence;
pub mod declare_directive_space;
pub mod function_arguments_space;
pub mod header_line;
pub mod indent_chained_call;
pub mod remove_unused_imports;
pub mod indent;
pub mod indent_bracket_body;
pub mod normalizer;
