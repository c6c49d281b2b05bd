//! A source-to-source rewriting engine for PHP: it parses source text into a
//! concrete syntax tree, locates nodes matching structural patterns, and
//! replaces matched spans with normalized text, repeating until no further
//! change is produced.
//!
//! Parsing is delegated to the tree-sitter PHP grammar; everything that
//! decides, rewrites and re-checks text operates on the crate's own validated
//! model of the syntax tree.

pub mod bytes;
pub mod edit;
pub mod fixer;
pub mod fixers;
pub mod kind;
pub mod provider;
pub mod syntax;
