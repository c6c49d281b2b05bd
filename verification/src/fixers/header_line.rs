//! Lays out the file header: each top-level construct on its own line, with a
//! blank line between constructs except within a run of grouped statements of
//! the same kind (imports, expressions).

use vstd::prelude::*;

use crate::bytes::{push_range, push_lb, spec_lb, spec_all_blank, all_blank};
use crate::edit::Edit;
use crate::kind::Kind;
use crate::syntax::{SyntaxTree, SpecNode, node_wf, tree_wf, spec_next_named_sibling};

verus! {

/// Whether a top-level construct always gets a blank line after it when
/// another construct follows.
pub open spec fn spec_is_ungrouped(k: Kind) -> bool {
    ||| k == Kind::PhpTag
    ||| k == Kind::DeclareStatement
    ||| k == Kind::NamespaceDefinition
    ||| k == Kind::FunctionDefinition
    ||| k == Kind::ClassDeclaration
}

/// Whether a top-level construct groups with following constructs of the same
/// kind, a blank line separating it only from a different kind.
pub open spec fn spec_is_grouped(k: Kind) -> bool {
    ||| k == Kind::NamespaceUseDeclaration
    ||| k == Kind::ExpressionStatement
}

/// The replacement text for the child at position `k` of the program node `i`.
pub open spec fn spec_header_token(m: Seq<SpecNode>, buf: Seq<u8>, i: int, k: int) -> Seq<u8> {
    let c = m[i].children[k] as int;
    let base = buf.subrange(m[c].start_byte as int, m[c].end_byte as int);
    if m[c].kind == Kind::Text
        && spec_all_blank(buf, m[c].start_byte as int, m[c].end_byte as int) {
        Seq::empty()
    } else if spec_is_ungrouped(m[c].kind) {
        base + spec_lb() + match spec_next_named_sibling(m, c) {
            Option::Some(_) => spec_lb(),
            Option::None => Seq::empty(),
        }
    } else if spec_is_grouped(m[c].kind) {
        base + spec_lb() + match spec_next_named_sibling(m, c) {
            Option::Some(s) => if m[s as int].kind != m[c].kind {
                spec_lb()
            } else {
                Seq::empty()
            },
            Option::None => Seq::empty(),
        }
    } else {
        base
    }
}

/// The replacement text for the children of node `i` from position `k` on.
pub open spec fn spec_header_text(m: Seq<SpecNode>, buf: Seq<u8>, i: int, k: int) -> Seq<u8>
    decreases m[i].children.len() - k when 0 <= k
{
    if k >= m[i].children.len() {
        Seq::empty()
    } else {
        spec_header_token(m, buf, i, k) + spec_header_text(m, buf, i, k + 1)
    }
}

/// Rewrites the program's top level so each construct sits on its own line
/// with the blank lines the header layout asks for.
pub struct HeaderLineFixer {}

impl HeaderLineFixer {
    /// The structural pattern whose matches this fixer rewrites.
    pub fn query(&self) -> (r: &'static str) {
        "(program) @program"
    }

    /// The replacement for node `i`: its children joined with the header
    /// layout applied.
    pub fn fix(&self, tree: &SyntaxTree, i: usize, buf: &Vec<u8>) -> (r: Option<Edit>)
        requires
            tree.wf(buf@.len() as int),
            i < tree@.len(),
        ensures
            r matches Some(e) && e@.position == 0
                && e@.deleted_length == tree@[i as int].end_byte
                && e@.inserted_text == spec_header_text(tree@, buf@, i as int, 0),
    {
        proof {
            assert(node_wf(tree@, i as int));
        }
        let mut out: Vec<u8> = Vec::new();
        let cn = tree.nodes[i].children.len();
        let mut k: usize = 0;
        while k < cn
            invariant
                tree.wf(buf@.len() as int),
                i < tree@.len(),
                cn == tree@[i as int].children.len(),
                0 <= k <= cn,
                out@ + spec_header_text(tree@, buf@, i as int, k as int)
                    == spec_header_text(tree@, buf@, i as int, 0),
            decreases cn - k,
        {
            proof {
                assert(node_wf(tree@, i as int));
                assert(tree@[i as int].children[k as int] < tree@.len());
            }
            let c = tree.nodes[i].children[k];
            proof {
                assert(node_wf(tree@, c as int));
                assert(tree@[c as int].end_byte <= buf@.len());
            }
            let ghost out0 = out@;
            let ghost tok = spec_header_token(tree@, buf@, i as int, k as int);
            let ck = tree.nodes[c].kind;
            let ungrouped = ck == Kind::PhpTag || ck == Kind::DeclareStatement
                || ck == Kind::NamespaceDefinition || ck == Kind::FunctionDefinition
                || ck == Kind::ClassDeclaration;
            let grouped = ck == Kind::NamespaceUseDeclaration
                || ck == Kind::ExpressionStatement;
            let blank_text = ck == Kind::Text
                && all_blank(buf, tree.nodes[c].start_byte, tree.nodes[c].end_byte);
            if !blank_text {
                push_range(&mut out, buf, tree.nodes[c].start_byte, tree.nodes[c].end_byte);
                if ungrouped {
                    push_lb(&mut out);
                    match tree.next_named_sibling(c) {
                        Option::Some(_) => {
                            push_lb(&mut out);
                        },
                        Option::None => {},
                    }
                } else if grouped {
                    push_lb(&mut out);
                    match tree.next_named_sibling(c) {
                        Option::Some(s) => {
                            if tree.nodes[s].kind != ck {
                                push_lb(&mut out);
                            }
                        },
                        Option::None => {},
                    }
                }
            }
            proof {
                assert(out@ =~= out0 + tok);
                assert(spec_header_text(tree@, buf@, i as int, k as int)
                    == tok + spec_header_text(tree@, buf@, i as int, k as int + 1));
                assert((out0 + tok) + spec_header_text(tree@, buf@, i as int, k as int + 1)
                    =~= out0 + (tok + spec_header_text(tree@, buf@, i as int, k as int + 1)));
            }
            k += 1;
        }
        proof {
            assert(spec_header_text(tree@, buf@, i as int, cn as int) == Seq::<u8>::empty());
            assert(out@ + Seq::<u8>::empty() == out@);
        }
        Some(
            Edit {
                position: 0,
                deleted_length: tree.nodes[i].end_byte,
                inserted_text: out,
            },
        )
    }
}

} // verus!
