//! Spaces the arguments of a function call: one space after each comma,
//! original text for everything else.

use vstd::prelude::*;

use crate::bytes::{push_range, push2};
use crate::edit::Edit;
use crate::kind::Kind;
use crate::syntax::{SyntaxTree, SpecNode, node_wf, tree_wf};

verus! {

/// The replacement text for the child at position `k` of node `i`.
pub open spec fn spec_args_token(m: Seq<SpecNode>, buf: Seq<u8>, i: int, k: int) -> Seq<u8> {
    let cs = m[i].children;
    let c = cs[k] as int;
    if m[c].kind == Kind::Comma {
        seq![44u8, 32u8]
    } else {
        buf.subrange(m[c].start_byte as int, m[c].end_byte as int)
    }
}

/// The replacement text for the children of node `i` from position `k` on.
pub open spec fn spec_args_text(m: Seq<SpecNode>, buf: Seq<u8>, i: int, k: int) -> Seq<u8>
    decreases m[i].children.len() - k when 0 <= k
{
    if k >= m[i].children.len() {
        Seq::empty()
    } else {
        spec_args_token(m, buf, i, k) + spec_args_text(m, buf, i, k + 1)
    }
}

/// Rewrites a call's argument list so each comma is followed by one space.
pub struct FunctionArgumentsSpaceFixer {}

impl FunctionArgumentsSpaceFixer {
    /// The structural pattern whose matches this fixer rewrites.
    pub fn query(&self) -> (r: &'static str) {
        "(function_call_expression arguments: (arguments) @arguments)"
    }

    /// The replacement for node `i`: its children joined with the spacing
    /// applied.
    pub fn fix(&self, tree: &SyntaxTree, i: usize, buf: &Vec<u8>) -> (r: Option<Edit>)
        requires
            tree.wf(buf@.len() as int),
            i < tree@.len(),
        ensures
            r matches Some(e) && e@.position == tree@[i as int].start_byte
                && e@.deleted_length == tree@[i as int].end_byte - tree@[i as int].start_byte
                && e@.inserted_text == spec_args_text(tree@, buf@, i as int, 0),
    {
        proof {
            assert(node_wf(tree@, i as int));
        }
        let mut out: Vec<u8> = Vec::new();
        let cn = tree.nodes[i].children.len();
        let mut k: usize = 0;
        while k < cn
            invariant
                tree.wf(buf@.len() as int),
                i < tree@.len(),
                cn == tree@[i as int].children.len(),
                0 <= k <= cn,
                out@ + spec_args_text(tree@, buf@, i as int, k as int)
                    == spec_args_text(tree@, buf@, i as int, 0),
            decreases cn - k,
        {
            proof {
                assert(node_wf(tree@, i as int));
                assert(tree@[i as int].children[k as int] < tree@.len());
            }
            let c = tree.nodes[i].children[k];
            proof {
                assert(node_wf(tree@, c as int));
                assert(tree@[c as int].end_byte <= buf@.len());
            }
            let ghost out0 = out@;
            let ghost tok = spec_args_token(tree@, buf@, i as int, k as int);
            if tree.nodes[c].kind == Kind::Comma {
                push2(&mut out, 44, 32);
            } else {
                push_range(&mut out, buf, tree.nodes[c].start_byte, tree.nodes[c].end_byte);
            }
            proof {
                assert(out@ == out0 + tok);
                assert(spec_args_text(tree@, buf@, i as int, k as int)
                    == tok + spec_args_text(tree@, buf@, i as int, k as int + 1));
                assert((out0 + tok) + spec_args_text(tree@, buf@, i as int, k as int + 1)
                    =~= out0 + (tok + spec_args_text(tree@, buf@, i as int, k as int + 1)));
            }
            k += 1;
        }
        proof {
            assert(spec_args_text(tree@, buf@, i as int, cn as int) == Seq::<u8>::empty());
            assert(out@ + Seq::<u8>::empty() == out@);
        }
        Some(
            Edit {
                position: tree.nodes[i].start_byte,
                deleted_length: tree.nodes[i].end_byte - tree.nodes[i].start_byte,
                inserted_text: out,
            },
        )
    }
}

} // verus!
