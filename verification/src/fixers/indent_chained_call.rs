//! Reflows chained member calls: a chain of fewer than three links is
//! collapsed onto one line; a chain of three or more links puts each link
//! after the first on its own line, indented one level past the chain's root.
//! Only the chain's root is processed, so nested chains are rewritten once.

use vstd::prelude::*;

use crate::bytes::{push_range, push_lb, push_indent, spec_lb, spec_indent};
use crate::edit::{Edit, spec_col};
use crate::kind::Kind;
use crate::syntax::{SyntaxTree, SpecNode, node_wf, struct_wf, tree_wf};

verus! {

/// The first child of `i` at or after position `k` that is itself a member
/// call, if any.
pub open spec fn spec_mce_child_from(m: Seq<SpecNode>, i: int, k: int) -> Option<usize>
    decreases m[i].children.len() - k when 0 <= k
{
    if k >= m[i].children.len() {
        Option::None
    } else if m[m[i].children[k] as int].kind == Kind::MemberCallExpression {
        Option::Some(m[i].children[k])
    } else {
        spec_mce_child_from(m, i, k + 1)
    }
}

/// The number of call links in the chain rooted at `i`: the node itself plus
/// the links of its member-call receiver, plus one for the innermost receiver.
pub open spec fn spec_chain_links(m: Seq<SpecNode>, i: int, fuel: nat) -> int
    decreases fuel,
{
    if fuel == 0 {
        1
    } else {
        match spec_mce_child_from(m, i, 0) {
            Option::Some(c) => 1 + spec_chain_links(m, c as int, (fuel - 1) as nat),
            Option::None => 2,
        }
    }
}

/// The collapsed text of the chain at `i`: its children's source text joined
/// with the whitespace between them dropped.
pub open spec fn spec_collapse_text(m: Seq<SpecNode>, buf: Seq<u8>, i: int, k: int, fuel: nat)
    -> Seq<u8>
    decreases fuel, m[i].children.len() - k when 0 <= k
{
    if k >= m[i].children.len() {
        Seq::empty()
    } else {
        let c = m[i].children[k] as int;
        let tok = if m[c].kind == Kind::MemberCallExpression && fuel > 0 {
            spec_collapse_text(m, buf, c, 0, (fuel - 1) as nat)
        } else {
            buf.subrange(m[c].start_byte as int, m[c].end_byte as int)
        };
        tok + spec_collapse_text(m, buf, i, k + 1, fuel)
    }
}

/// The reflowed text of the chain at `i`: each member-access operator starts a
/// new line indented by `level` units.
pub open spec fn spec_reflow_text(
    m: Seq<SpecNode>,
    buf: Seq<u8>,
    i: int,
    k: int,
    level: int,
    fuel: nat,
) -> Seq<u8>
    decreases fuel, m[i].children.len() - k when 0 <= k
{
    if k >= m[i].children.len() {
        Seq::empty()
    } else {
        let c = m[i].children[k] as int;
        let tok = if m[c].kind == Kind::MemberCallExpression && fuel > 0 {
            spec_reflow_text(m, buf, c, 0, level, (fuel - 1) as nat)
        } else if m[c].kind == Kind::Arrow {
            spec_lb() + spec_indent(level)
                + buf.subrange(m[c].start_byte as int, m[c].end_byte as int)
        } else {
            buf.subrange(m[c].start_byte as int, m[c].end_byte as int)
        };
        tok + spec_reflow_text(m, buf, i, k + 1, level, fuel)
    }
}

/// Whether node `i` is a chain root: a member call whose parent is not one.
pub open spec fn spec_is_chain_root(m: Seq<SpecNode>, i: int) -> bool {
    &&& m[i].kind == Kind::MemberCallExpression
    &&& (i == 0 || m[m[i].parent as int].kind != Kind::MemberCallExpression)
}

/// The replacement text the fixer produces for a chain root `i`.
pub open spec fn spec_chain_text(m: Seq<SpecNode>, buf: Seq<u8>, i: int) -> Seq<u8> {
    if spec_chain_links(m, i, m.len() as nat) >= 3 {
        spec_reflow_text(
            m,
            buf,
            i,
            0,
            spec_col(buf, m[i].start_byte as int) / 4 + 1,
            m.len() as nat,
        )
    } else {
        spec_collapse_text(m, buf, i, 0, m.len() as nat)
    }
}

/// A found member-call child lies strictly between its parent and the end of
/// the model.
proof fn lemma_mce_child_bounds(m: Seq<SpecNode>, i: int, k: int)
    requires
        struct_wf(m),
        0 <= i < m.len(),
        0 <= k,
        spec_mce_child_from(m, i, k) is Some,
    ensures
        i < spec_mce_child_from(m, i, k).unwrap() < m.len(),
    decreases m[i].children.len() - k,
{
    assert(node_wf(m, i));
    if k < m[i].children.len() {
        if m[m[i].children[k] as int].kind == Kind::MemberCallExpression {
        } else {
            lemma_mce_child_bounds(m, i, k + 1);
        }
    }
}

/// A chain counts at least one link.
proof fn lemma_links_ge1(m: Seq<SpecNode>, i: int, fuel: nat)
    ensures
        spec_chain_links(m, i, fuel) >= 1,
    decreases fuel,
{
    if fuel > 0 {
        match spec_mce_child_from(m, i, 0) {
            Option::Some(c) => {
                lemma_links_ge1(m, c as int, (fuel - 1) as nat);
            },
            Option::None => {},
        }
    }
}

/// With full fuel, a chain has three or more links exactly when its receiver
/// is itself a member call.
pub proof fn lemma_links_ge3(m: Seq<SpecNode>, i: int)
    requires
        struct_wf(m),
        0 <= i < m.len(),
    ensures
        spec_chain_links(m, i, m.len() as nat) >= 3 <==> spec_mce_child_from(m, i, 0) is Some,
{
    let fuel = m.len() as nat;
    assert(fuel >= 1);
    match spec_mce_child_from(m, i, 0) {
        Option::Some(c) => {
            lemma_mce_child_bounds(m, i, 0);
            assert(i < c < m.len());
            assert(m.len() >= 2);
            let f1 = (fuel - 1) as nat;
            assert(f1 >= 1);
            assert(spec_chain_links(m, i, fuel)
                == 1 + spec_chain_links(m, c as int, f1));
            match spec_mce_child_from(m, c as int, 0) {
                Option::Some(c2) => {
                    lemma_links_ge1(m, c2 as int, (f1 - 1) as nat);
                    assert(spec_chain_links(m, c as int, f1)
                        == 1 + spec_chain_links(m, c2 as int, (f1 - 1) as nat));
                },
                Option::None => {
                    assert(spec_chain_links(m, c as int, f1) == 2);
                },
            }
        },
        Option::None => {
            assert(spec_chain_links(m, i, fuel) == 2);
        },
    }
}

/// Reflows chained member calls at their chain root.
pub struct IndentChainedCallFixer {}

impl IndentChainedCallFixer {
    /// The structural pattern whose matches this fixer rewrites.
    pub fn query(&self) -> (r: &'static str) {
        "(member_call_expression) @chain"
    }

    /// The first member-call child of node `i`, if any.
    fn mce_child(&self, tree: &SyntaxTree, i: usize) -> (r: Option<usize>)
        requires
            struct_wf(tree@),
            i < tree@.len(),
        ensures
            r == spec_mce_child_from(tree@, i as int, 0),
            r matches Some(c) ==> i < c < tree@.len(),
    {
        let cn = tree.nodes[i].children.len();
        let mut k: usize = 0;
        while k < cn
            invariant
                struct_wf(tree@),
                i < tree@.len(),
                cn == tree@[i as int].children.len(),
                0 <= k <= cn,
                spec_mce_child_from(tree@, i as int, 0)
                    == spec_mce_child_from(tree@, i as int, k as int),
            decreases cn - k,
        {
            proof {
                assert(node_wf(tree@, i as int));
                assert(i < tree@[i as int].children[k as int] < tree@.len());
            }
            let c = tree.nodes[i].children[k];
            if tree.nodes[c].kind == Kind::MemberCallExpression {
                return Option::Some(c);
            }
            k += 1;
        }
        Option::None
    }

    /// Builds the collapsed text of the chain at `i`.
    fn collapse(&self, tree: &SyntaxTree, buf: &Vec<u8>, i: usize, fuel: usize) -> (r: Vec<u8>)
        requires
            tree.wf(buf@.len() as int),
            i < tree@.len(),
        ensures
            r@ == spec_collapse_text(tree@, buf@, i as int, 0, fuel as nat),
        decreases fuel,
    {
        let mut out: Vec<u8> = Vec::new();
        let cn = tree.nodes[i].children.len();
        let mut k: usize = 0;
        while k < cn
            invariant
                tree.wf(buf@.len() as int),
                i < tree@.len(),
                cn == tree@[i as int].children.len(),
                0 <= k <= cn,
                out@ + spec_collapse_text(tree@, buf@, i as int, k as int, fuel as nat)
                    == spec_collapse_text(tree@, buf@, i as int, 0, fuel as nat),
            decreases cn - k,
        {
            proof {
                assert(node_wf(tree@, i as int));
                assert(i < tree@[i as int].children[k as int] < tree@.len());
            }
            let c = tree.nodes[i].children[k];
            proof {
                assert(node_wf(tree@, c as int));
                assert(tree@[c as int].end_byte <= buf@.len());
            }
            let ghost out0 = out@;
            let ghost tok = if tree@[c as int].kind == Kind::MemberCallExpression
                && fuel > 0 {
                spec_collapse_text(tree@, buf@, c as int, 0, (fuel - 1) as nat)
            } else {
                buf@.subrange(tree@[c as int].start_byte as int, tree@[c as int].end_byte as int)
            };
            if tree.nodes[c].kind == Kind::MemberCallExpression && fuel > 0 {
                let sub = self.collapse(tree, buf, c, fuel - 1);
                crate::bytes::push_all(&mut out, &sub);
            } else {
                push_range(&mut out, buf, tree.nodes[c].start_byte, tree.nodes[c].end_byte);
            }
            proof {
                assert(out@ == out0 + tok);
                assert(spec_collapse_text(tree@, buf@, i as int, k as int, fuel as nat)
                    == tok + spec_collapse_text(tree@, buf@, i as int, k as int + 1, fuel as nat));
                assert((out0 + tok)
                    + spec_collapse_text(tree@, buf@, i as int, k as int + 1, fuel as nat)
                    =~= out0 + (tok
                        + spec_collapse_text(tree@, buf@, i as int, k as int + 1, fuel as nat)));
            }
            k += 1;
        }
        proof {
            assert(spec_collapse_text(tree@, buf@, i as int, cn as int, fuel as nat)
                == Seq::<u8>::empty());
            assert(out@ + Seq::<u8>::empty() == out@);
        }
        out
    }

    /// Builds the reflowed text of the chain at `i`, operators indented by
    /// `level` units.
    fn reflow(&self, tree: &SyntaxTree, buf: &Vec<u8>, i: usize, level: usize, fuel: usize)
        -> (r: Vec<u8>)
        requires
            tree.wf(buf@.len() as int),
            i < tree@.len(),
        ensures
            r@ == spec_reflow_text(tree@, buf@, i as int, 0, level as int, fuel as nat),
        decreases fuel,
    {
        let mut out: Vec<u8> = Vec::new();
        let cn = tree.nodes[i].children.len();
        let mut k: usize = 0;
        while k < cn
            invariant
                tree.wf(buf@.len() as int),
                i < tree@.len(),
                cn == tree@[i as int].children.len(),
                0 <= k <= cn,
                out@ + spec_reflow_text(tree@, buf@, i as int, k as int, level as int,
                    fuel as nat)
                    == spec_reflow_text(tree@, buf@, i as int, 0, level as int, fuel as nat),
            decreases cn - k,
        {
            proof {
                assert(node_wf(tree@, i as int));
                assert(i < tree@[i as int].children[k as int] < tree@.len());
            }
            let c = tree.nodes[i].children[k];
            proof {
                assert(node_wf(tree@, c as int));
                assert(tree@[c as int].end_byte <= buf@.len());
            }
            let ghost out0 = out@;
            let ghost tok = if tree@[c as int].kind == Kind::MemberCallExpression
                && fuel > 0 {
                spec_reflow_text(tree@, buf@, c as int, 0, level as int, (fuel - 1) as nat)
            } else if tree@[c as int].kind == Kind::Arrow {
                spec_lb() + spec_indent(level as int)
                    + buf@.subrange(tree@[c as int].start_byte as int,
                        tree@[c as int].end_byte as int)
            } else {
                buf@.subrange(tree@[c as int].start_byte as int, tree@[c as int].end_byte as int)
            };
            if tree.nodes[c].kind == Kind::MemberCallExpression && fuel > 0 {
                let sub = self.reflow(tree, buf, c, level, fuel - 1);
                crate::bytes::push_all(&mut out, &sub);
            } else if tree.nodes[c].kind == Kind::Arrow {
                push_lb(&mut out);
                push_indent(&mut out, level);
                push_range(&mut out, buf, tree.nodes[c].start_byte, tree.nodes[c].end_byte);
                proof {
                    assert(out@ =~= out0 + tok);
                }
            } else {
                push_range(&mut out, buf, tree.nodes[c].start_byte, tree.nodes[c].end_byte);
            }
            proof {
                assert(out@ == out0 + tok);
                assert(spec_reflow_text(tree@, buf@, i as int, k as int, level as int,
                    fuel as nat)
                    == tok + spec_reflow_text(tree@, buf@, i as int, k as int + 1,
                        level as int, fuel as nat));
                assert((out0 + tok) + spec_reflow_text(tree@, buf@, i as int, k as int + 1,
                    level as int, fuel as nat)
                    =~= out0 + (tok + spec_reflow_text(tree@, buf@, i as int, k as int + 1,
                        level as int, fuel as nat)));
            }
            k += 1;
        }
        proof {
            assert(spec_reflow_text(tree@, buf@, i as int, cn as int, level as int, fuel as nat)
                == Seq::<u8>::empty());
            assert(out@ + Seq::<u8>::empty() == out@);
        }
        out
    }

    /// The replacement for a chain root: the collapsed chain when it has fewer
    /// than three links, the reflowed chain otherwise; no edit for a node that
    /// is not a chain root.
    pub fn fix(&self, tree: &SyntaxTree, i: usize, buf: &Vec<u8>) -> (r: Option<Edit>)
        requires
            tree.wf(buf@.len() as int),
            i < tree@.len(),
        ensures
            spec_is_chain_root(tree@, i as int) ==> (r matches Some(e)
                && e@.position == tree@[i as int].start_byte
                && e@.deleted_length == tree@[i as int].end_byte - tree@[i as int].start_byte
                && e@.inserted_text == spec_chain_text(tree@, buf@, i as int)),
            !spec_is_chain_root(tree@, i as int) ==> r is None,
    {
        if tree.nodes[i].kind != Kind::MemberCallExpression {
            return Option::None;
        }
        if i > 0 {
            proof {
                assert(tree@[i as int].parent < i);
            }
            let p = tree.nodes[i].parent;
            if tree.nodes[p].kind == Kind::MemberCallExpression {
                return Option::None;
            }
        }
        let fuel = tree.nodes.len();
        proof {
            assert(node_wf(tree@, i as int));
            assert(tree@[i as int].end_byte <= buf@.len());
            lemma_links_ge3(tree@, i as int);
        }
        let start = tree.nodes[i].start_byte;
        let text = match self.mce_child(tree, i) {
            Option::Some(_) => {
                let col = crate::edit::position_for_offset(buf, start).column;
                let level = col / 4 + 1;
                self.reflow(tree, buf, i, level, fuel)
            },
            Option::None => self.collapse(tree, buf, i, fuel),
        };
        Some(
            Edit {
                position: start,
                deleted_length: tree.nodes[i].end_byte - start,
                inserted_text: text,
            },
        )
    }
}

} // verus!
