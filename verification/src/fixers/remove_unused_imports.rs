//! Removal of unused imports is not implemented: the fixer recognizes import
//! declarations but surfaces every one as an unsupported construct rather than
//! guessing at a usage analysis.

use vstd::prelude::*;

use crate::edit::Edit;
use crate::fixer::FixerError;
use crate::syntax::SyntaxTree;

verus! {

/// Declares import declarations as its pattern and reports each as
/// unsupported.
pub struct RemoveUnusedImportsFixer {}

impl RemoveUnusedImportsFixer {
    /// The structural pattern whose matches this fixer would rewrite.
    pub fn query(&self) -> (r: &'static str) {
        "(namespace_use_declaration) @use"
    }

    /// Always reports the construct as unsupported: the usage analysis this
    /// fixer would need is not implemented.
    pub fn fix(&self, tree: &SyntaxTree, i: usize, buf: &Vec<u8>) -> (r: Result<
        Option<Edit>,
        FixerError,
    >)
        ensures
            r == Result::<Option<Edit>, FixerError>::Err(FixerError::UnsupportedConstruct),
    {
        Result::Err(FixerError::UnsupportedConstruct)
    }
}

} // verus!
