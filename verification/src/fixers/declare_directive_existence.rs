//! Ensures the opening tag is immediately followed by a strict-types declare
//! directive: if the statement after the tag is not a declare statement (or the
//! tag is the last node), the tag is replaced by a tag carrying the directive.

use vstd::prelude::*;

use crate::bytes::push_range;
use crate::edit::Edit;
use crate::kind::Kind;
use crate::syntax::{SyntaxTree, SpecNode, spec_next_sibling, tree_wf};

verus! {

/// The replacement for the opening tag: the tag plus the directive.
pub open spec fn spec_directive_text() -> Seq<u8> {
    seq![
        60u8, 63u8, 112u8, 104u8, 112u8, 32u8, 100u8, 101u8, 99u8, 108u8, 97u8, 114u8,
        101u8, 40u8, 115u8, 116u8, 114u8, 105u8, 99u8, 116u8, 95u8, 116u8, 121u8, 112u8,
        101u8, 115u8, 32u8, 61u8, 32u8, 49u8, 41u8, 59u8,
    ]
}

/// Whether the tag node `i` needs the directive added after it: its next
/// sibling is absent or not a declare statement.
pub open spec fn spec_needs_directive(m: Seq<SpecNode>, i: int) -> bool {
    match spec_next_sibling(m, i) {
        Option::None => true,
        Option::Some(s) => m[s as int].kind != Kind::DeclareStatement,
    }
}

/// Inserts a strict-types declare directive after the opening tag when none
/// follows it.
pub struct DeclareDirectiveExistenceFixer {}

impl DeclareDirectiveExistenceFixer {
    /// The structural pattern whose matches this fixer rewrites.
    pub fn query(&self) -> (r: &'static str) {
        "(php_tag) @tag"
    }

    /// Replaces the tag with a tag plus directive when the directive is
    /// missing; produces no edit otherwise.
    pub fn fix(&self, tree: &SyntaxTree, i: usize, buf: &Vec<u8>) -> (r: Option<Edit>)
        requires
            tree.wf(buf@.len() as int),
            i < tree@.len(),
        ensures
            spec_needs_directive(tree@, i as int) ==> (r matches Some(e)
                && e@.position == tree@[i as int].start_byte
                && e@.deleted_length == tree@[i as int].end_byte - tree@[i as int].start_byte
                && e@.inserted_text == spec_directive_text()),
            !spec_needs_directive(tree@, i as int) ==> r is None,
    {
        let needed = match tree.next_sibling(i) {
            Option::None => true,
            Option::Some(s) => tree.nodes[s].kind != Kind::DeclareStatement,
        };
        if !needed {
            return Option::None;
        }
        let mut out: Vec<u8> = Vec::new();
        out.push(60);
        out.push(63);
        out.push(112);
        out.push(104);
        out.push(112);
        out.push(32);
        out.push(100);
        out.push(101);
        out.push(99);
        out.push(108);
        out.push(97);
        out.push(114);
        out.push(101);
        out.push(40);
        out.push(115);
        out.push(116);
        out.push(114);
        out.push(105);
        out.push(99);
        out.push(116);
        out.push(95);
        out.push(116);
        out.push(121);
        out.push(112);
        out.push(101);
        out.push(115);
        out.push(32);
        out.push(61);
        out.push(32);
        out.push(49);
        out.push(41);
        out.push(59);
        proof {
            assert(out@ =~= spec_directive_text());
            assert(crate::syntax::node_wf(tree@, i as int));
        }
        Some(
            Edit {
                position: tree.nodes[i].start_byte,
                deleted_length: tree.nodes[i].end_byte - tree.nodes[i].start_byte,
                inserted_text: out,
            },
        )
    }
}

} // verus!
