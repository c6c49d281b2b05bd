//! The gap-correcting variant of indentation reconciliation: in addition to
//! rebuilding block indentation from structure, it measures the whitespace gap
//! between a nested block and its previous sibling, drops the excess of an
//! over-indented block, and pads an under-indented one, so reconciliation is
//! idempotent on already-correct text.

use vstd::prelude::*;

use crate::edit::Edit;
use crate::fixer::FixerError;
use crate::fixers::indent::{indent_fix_for, spec_indent_fix};
use crate::syntax::SyntaxTree;

verus! {

/// Rebuilds class-body indentation from structure alone, correcting over- and
/// under-indented nested blocks.
pub struct IndentBracketBodyFixer {}

impl IndentBracketBodyFixer {
    /// The structural pattern whose matches this fixer rewrites.
    pub fn query(&self) -> (r: &'static str) {
        "(class_declaration body: (declaration_list) @brackets)"
    }

    /// The replacement for the block body `i`: its rebuilt text at level zero,
    /// gaps corrected.
    pub fn fix(&self, tree: &SyntaxTree, i: usize, buf: &Vec<u8>) -> (r: Result<
        Option<Edit>,
        FixerError,
    >)
        requires
            tree.wf(buf@.len() as int),
            i < tree@.len(),
        ensures
            match r {
                Result::Ok(Option::Some(e)) => spec_indent_fix(tree@, buf@, i as int, true)
                    == Result::<Option<crate::edit::SpecEdit>, FixerError>::Ok(
                    Option::Some(e@),
                ),
                Result::Ok(Option::None) => spec_indent_fix(tree@, buf@, i as int, true)
                    == Result::<Option<crate::edit::SpecEdit>, FixerError>::Ok(
                    Option::<crate::edit::SpecEdit>::None,
                ),
                Result::Err(e) => spec_indent_fix(tree@, buf@, i as int, true)
                    == Result::<Option<crate::edit::SpecEdit>, FixerError>::Err(e),
            },
    {
        indent_fix_for(tree, i, buf, true)
    }
}

} // verus!
