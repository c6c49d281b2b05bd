//! Structural indentation reconciliation: rebuilds a block body's text so the
//! opening brace ends its line, every direct child sits one level deeper than
//! the block, and the closing brace sits at the block's level. A child that
//! owns a nested block (a compound statement, a match block, or the body of an
//! anonymous function reached through an assignment's right-hand side) is
//! rebuilt recursively one level deeper and spliced into the parent's rebuilt
//! text at the recomputed offset. Switch blocks are not reconciled: they are
//! reported as unsupported. Two fixers share the core: the plain one assumes
//! the source's inter-node gaps are already canonical, the correcting one
//! (see `indent_bracket_body`) measures each gap and drops or pads whitespace.

use vstd::prelude::*;

use crate::bytes::{push_range, push_all, push_lb, push_indent, push_spaces, spec_lb, spec_indent};
use crate::edit::{Edit, spec_col};
use crate::kind::Kind;
use crate::syntax::{
    SyntaxTree, SpecNode, node_wf, struct_wf, tree_wf, spec_next_sibling, spec_prev_sibling,
    spec_child_by_field, FieldTag,
};
use crate::fixer::FixerError;

verus! {

/// The nested block body that a direct child's inner node hands to the
/// recursion, if any: a compound statement itself, the body of an anonymous
/// function on an assignment's right-hand side, or a compound or match body.
/// A switch block is unsupported.
pub open spec fn spec_nested_block(m: Seq<SpecNode>, j: int) -> Result<
    Option<usize>,
    FixerError,
> {
    if m[j].kind == Kind::CompoundStatement {
        Result::Ok(Option::Some(j as usize))
    } else if m[j].kind == Kind::SwitchBlock {
        Result::Err(FixerError::UnsupportedConstruct)
    } else if m[j].kind == Kind::AssignmentExpression {
        match spec_child_by_field(m, j, FieldTag::Right) {
            Option::Some(r) => if m[r as int].kind == Kind::AnonymousFunction {
                Result::Ok(spec_child_by_field(m, r as int, FieldTag::Body))
            } else {
                Result::Ok(Option::None)
            },
            Option::None => Result::Ok(Option::None),
        }
    } else {
        match spec_child_by_field(m, j, FieldTag::Body) {
            Option::Some(b) => if m[b as int].kind == Kind::CompoundStatement
                || m[b as int].kind == Kind::MatchBlock {
                Result::Ok(Option::Some(b))
            } else {
                Result::Ok(Option::None)
            },
            Option::None => Result::Ok(Option::None),
        }
    }
}

/// Splices `ins` over `[a, b)` of `acc` when the range is well formed, and
/// reports a malformed offset otherwise.
pub open spec fn spec_splice(acc: Seq<u8>, a: int, b: int, ins: Seq<u8>) -> Result<
    Seq<u8>,
    FixerError,
> {
    if 0 <= a <= b <= acc.len() {
        Result::Ok(acc.take(a) + ins + acc.skip(b))
    } else {
        Result::Err(FixerError::UnsupportedConstruct)
    }
}

/// The rebuilt text of the block body at `i`, children from position `k` on,
/// at nesting level `level`; `correct` selects the gap-measuring variant.
pub open spec fn spec_block_text(
    m: Seq<SpecNode>,
    buf: Seq<u8>,
    i: int,
    k: int,
    level: int,
    correct: bool,
    fuel: nat,
) -> Result<Seq<u8>, FixerError>
    decreases fuel, 2int, m[i].children.len() - k when 0 <= k
{
    if k >= m[i].children.len() {
        Result::Ok(Seq::empty())
    } else {
        let c = m[i].children[k] as int;
        let tok = if m[c].kind == Kind::LBrace {
            Result::Ok(
                (if spec_col(buf, m[c].start_byte as int) == 0 {
                    spec_indent(level)
                } else {
                    Seq::empty()
                }) + seq![123u8] + spec_lb(),
            )
        } else if m[c].kind == Kind::RBrace {
            Result::Ok(spec_indent(level) + seq![125u8])
        } else if m[c].kind == Kind::Comma {
            Result::Ok(seq![44u8] + spec_lb())
        } else {
            spec_member_text(m, buf, c, level, correct, fuel)
        };
        match tok {
            Result::Err(e) => Result::Err(e),
            Result::Ok(t) => match spec_block_text(m, buf, i, k + 1, level, correct, fuel) {
                Result::Err(e) => Result::Err(e),
                Result::Ok(rest) => Result::Ok(t + rest),
            },
        }
    }
}

/// The rebuilt text of one direct member `c` of a block at `level`: the member
/// indented one level deeper, a line break when another member follows, and
/// every nested block body it owns rebuilt and spliced in.
pub open spec fn spec_member_text(
    m: Seq<SpecNode>,
    buf: Seq<u8>,
    c: int,
    level: int,
    correct: bool,
    fuel: nat,
) -> Result<Seq<u8>, FixerError>
    decreases fuel, 1int, 0int,
{
    if fuel == 0 {
        Result::Err(FixerError::NonConvergence)
    } else {
        let base = spec_indent(level + 1)
            + buf.subrange(m[c].start_byte as int, m[c].end_byte as int)
            + (match spec_next_sibling(m, c) {
            Option::Some(s) => if m[s as int].kind != Kind::Comma {
                spec_lb()
            } else {
                Seq::empty()
            },
            Option::None => Seq::empty(),
        });
        spec_member_inners(m, buf, c, 0, base, level + 1, correct, (fuel - 1) as nat)
    }
}

/// Folds the splicing of each nested block of member `c` (children from
/// position `j` on) into the accumulated rebuilt text `acc`.
pub open spec fn spec_member_inners(
    m: Seq<SpecNode>,
    buf: Seq<u8>,
    c: int,
    j: int,
    acc: Seq<u8>,
    level: int,
    correct: bool,
    fuel: nat,
) -> Result<Seq<u8>, FixerError>
    decreases fuel, 4int, m[c].children.len() - j when 0 <= j
{
    if j >= m[c].children.len() {
        Result::Ok(acc)
    } else {
        match spec_nested_block(m, m[c].children[j] as int) {
            Result::Err(e) => Result::Err(e),
            Result::Ok(Option::None) => spec_member_inners(
                m, buf, c, j + 1, acc, level, correct, fuel,
            ),
            Result::Ok(Option::Some(b)) => match spec_splice_block(
                m, buf, b as int, c, acc, level, correct, fuel,
            ) {
                Result::Err(e) => Result::Err(e),
                Result::Ok(acc2) => spec_member_inners(
                    m, buf, c, j + 1, acc2, level, correct, fuel,
                ),
            },
        }
    }
}

/// Splices the rebuilt text of the nested block `b` into `acc`, the rebuilt
/// text of the member `c` that owns it. The block's offset inside `acc` is its
/// source offset inside the member plus the indent prefix already emitted; the
/// correcting variant measures the gap to the previous sibling and drops the
/// excess of an over-indented block or pads an under-indented one.
pub open spec fn spec_splice_block(
    m: Seq<SpecNode>,
    buf: Seq<u8>,
    b: int,
    c: int,
    acc: Seq<u8>,
    level: int,
    correct: bool,
    fuel: nat,
) -> Result<Seq<u8>, FixerError>
    decreases fuel, 3int, 0int,
{
    match spec_block_text(m, buf, b, 0, level, correct, fuel) {
        Result::Err(e) => Result::Err(e),
        Result::Ok(inner0) => {
            let unit = 4 * level;
            let gapinfo = match spec_prev_sibling(m, b) {
                Option::Some(p) => {
                    let gap = m[b].start_byte - m[p as int].end_byte;
                    if gap > unit + 1 {
                        (gap - unit - 1, Seq::<u8>::empty())
                    } else {
                        (0int, crate::bytes::spec_spaces((unit + 1 - gap) % unit))
                    }
                },
                Option::None => (0int, Seq::<u8>::empty()),
            };
            let sub = if correct { gapinfo.0 } else { 0int };
            let pad = if correct { gapinfo.1 } else { Seq::<u8>::empty() };
            let inner = pad + inner0;
            let a = m[b].start_byte - m[c].start_byte + unit - sub;
            let e = a + (m[b].end_byte - m[b].start_byte) - 1 + sub;
            spec_splice(acc, a, e + 1, inner)
        },
    }
}


/// The largest node count for which every indent offset fits machine
/// arithmetic.
pub open spec fn spec_indent_size_bound() -> int {
    (usize::MAX - 8) / 4
}

/// The edit that indentation reconciliation produces for the block body `i`:
/// its rebuilt text at level zero, or the error the rebuild reports.
pub open spec fn spec_indent_fix(m: Seq<SpecNode>, buf: Seq<u8>, i: int, correct: bool)
    -> Result<Option<crate::edit::SpecEdit>, FixerError> {
    if m.len() > spec_indent_size_bound() {
        Result::Err(FixerError::UnsupportedConstruct)
    } else {
        match spec_block_text(m, buf, i, 0, 0, correct, m.len()) {
            Result::Err(e) => Result::Err(e),
            Result::Ok(t) => Result::Ok(
                Option::Some(
                    crate::edit::SpecEdit {
                        position: m[i].start_byte,
                        deleted_length: (m[i].end_byte - m[i].start_byte) as usize,
                        inserted_text: t,
                    },
                ),
            ),
        }
    }
}

/// Builds the rebuilt text of the block body `i` at `level`; mirrors
/// `spec_block_text`.
fn block_text(tree: &SyntaxTree, buf: &Vec<u8>, i: usize, level: usize, correct: bool,
    fuel: usize) -> (r: Result<Vec<u8>, FixerError>)
    requires
        tree.wf(buf@.len() as int),
        i < tree@.len(),
        4 * (level + fuel) + 8 <= usize::MAX,
    ensures
        match r {
            Result::Ok(v) => spec_block_text(tree@, buf@, i as int, 0, level as int, correct,
                fuel as nat) == Result::<Seq<u8>, FixerError>::Ok(v@),
            Result::Err(e) => spec_block_text(tree@, buf@, i as int, 0, level as int, correct,
                fuel as nat) == Result::<Seq<u8>, FixerError>::Err(e),
        },
    decreases fuel, 2int, 0int,
{
    let mut out: Vec<u8> = Vec::new();
    let cn = tree.nodes[i].children.len();
    let mut k: usize = 0;
    while k < cn
        invariant
            tree.wf(buf@.len() as int),
            i < tree@.len(),
            4 * (level + fuel) + 8 <= usize::MAX,
            cn == tree@[i as int].children.len(),
            0 <= k <= cn,
            spec_block_text(tree@, buf@, i as int, 0, level as int, correct, fuel as nat)
                == (match spec_block_text(tree@, buf@, i as int, k as int, level as int,
                    correct, fuel as nat) {
                    Result::<Seq<u8>, FixerError>::Ok(rest) => Result::<
                        Seq<u8>,
                        FixerError,
                    >::Ok(out@ + rest),
                    Result::<Seq<u8>, FixerError>::Err(e) => Result::<
                        Seq<u8>,
                        FixerError,
                    >::Err(e),
                }),
        decreases 0int, 1int, cn - k,
    {
        proof {
            assert(node_wf(tree@, i as int));
            assert(i < tree@[i as int].children[k as int] < tree@.len());
        }
        let c = tree.nodes[i].children[k];
        proof {
            assert(node_wf(tree@, c as int));
            assert(tree@[c as int].end_byte <= buf@.len());
        }
        let ghost out0 = out@;
        let ghost tok_spec: Result<Seq<u8>, FixerError> = if tree@[c as int].kind
            == Kind::LBrace {
            Result::Ok(
                (if spec_col(buf@, tree@[c as int].start_byte as int) == 0 {
                    spec_indent(level as int)
                } else {
                    Seq::<u8>::empty()
                }) + seq![123u8] + spec_lb(),
            )
        } else if tree@[c as int].kind == Kind::RBrace {
            Result::Ok(spec_indent(level as int) + seq![125u8])
        } else if tree@[c as int].kind == Kind::Comma {
            Result::Ok(seq![44u8] + spec_lb())
        } else {
            spec_member_text(tree@, buf@, c as int, level as int, correct, fuel as nat)
        };
        let ck = tree.nodes[c].kind;
        if ck == Kind::LBrace {
            let col = crate::edit::position_for_offset(buf, tree.nodes[c].start_byte);
            if col.column == 0 {
                push_indent(&mut out, level);
            }
            crate::bytes::push1(&mut out, 123);
            push_lb(&mut out);
            proof {
                if spec_col(buf@, tree@[c as int].start_byte as int) == 0 {
                    assert(out@ =~= out0 + (spec_indent(level as int) + seq![123u8]
                        + spec_lb()));
                } else {
                    assert(out@ =~= out0 + (Seq::<u8>::empty() + seq![123u8] + spec_lb()));
                }
            }
        } else if ck == Kind::RBrace {
            push_indent(&mut out, level);
            crate::bytes::push1(&mut out, 125);
            proof {
                assert(out@ =~= out0 + (spec_indent(level as int) + seq![125u8]));
            }
        } else if ck == Kind::Comma {
            crate::bytes::push1(&mut out, 44);
            push_lb(&mut out);
            proof {
                assert(out@ =~= out0 + (seq![44u8] + spec_lb()));
            }
        } else {
            match member_text(tree, buf, c, level, correct, fuel) {
                Result::Ok(v) => {
                    push_all(&mut out, &v);
                },
                Result::Err(e) => {
                    return Result::Err(e);
                },
            }
        }
        proof {
            let tok = tok_spec.unwrap();
            assert(out@ == out0 + tok);
            let restr = spec_block_text(tree@, buf@, i as int, k as int + 1, level as int,
                correct, fuel as nat);
            if restr is Ok {
                assert((out0 + tok) + restr.unwrap() =~= out0 + (tok + restr.unwrap()));
            }
        }
        k += 1;
    }
    proof {
        assert(spec_block_text(tree@, buf@, i as int, cn as int, level as int, correct,
            fuel as nat) == Result::<Seq<u8>, FixerError>::Ok(Seq::<u8>::empty()));
        assert(out@ + Seq::<u8>::empty() == out@);
    }
    Result::Ok(out)
}

/// Builds the rebuilt text of one direct member `c`; mirrors
/// `spec_member_text`.
fn member_text(tree: &SyntaxTree, buf: &Vec<u8>, c: usize, level: usize, correct: bool,
    fuel: usize) -> (r: Result<Vec<u8>, FixerError>)
    requires
        tree.wf(buf@.len() as int),
        c < tree@.len(),
        4 * (level + fuel) + 8 <= usize::MAX,
    ensures
        match r {
            Result::Ok(v) => spec_member_text(tree@, buf@, c as int, level as int, correct,
                fuel as nat) == Result::<Seq<u8>, FixerError>::Ok(v@),
            Result::Err(e) => spec_member_text(tree@, buf@, c as int, level as int, correct,
                fuel as nat) == Result::<Seq<u8>, FixerError>::Err(e),
        },
    decreases fuel, 1int, 0int,
{
    if fuel == 0 {
        return Result::Err(FixerError::NonConvergence);
    }
    proof {
        assert(node_wf(tree@, c as int));
        assert(tree@[c as int].end_byte <= buf@.len());
    }
    let mut base: Vec<u8> = Vec::new();
    push_indent(&mut base, level + 1);
    push_range(&mut base, buf, tree.nodes[c].start_byte, tree.nodes[c].end_byte);
    match tree.next_sibling(c) {
        Option::Some(s) => {
            if tree.nodes[s].kind != Kind::Comma {
                push_lb(&mut base);
            }
        },
        Option::None => {},
    }
    proof {
        assert(base@ =~= spec_indent(level as int + 1)
            + buf@.subrange(tree@[c as int].start_byte as int, tree@[c as int].end_byte as int)
            + (match spec_next_sibling(tree@, c as int) {
            Option::Some(s) => if tree@[s as int].kind != Kind::Comma {
                spec_lb()
            } else {
                Seq::<u8>::empty()
            },
            Option::None => Seq::<u8>::empty(),
        }));
    }
    member_inners(tree, buf, c, base, level + 1, correct, fuel - 1)
}

/// Folds the splicing of each nested block of member `c` into `acc`; mirrors
/// `spec_member_inners`.
fn member_inners(tree: &SyntaxTree, buf: &Vec<u8>, c: usize, acc: Vec<u8>, level: usize,
    correct: bool, fuel: usize) -> (r: Result<Vec<u8>, FixerError>)
    requires
        tree.wf(buf@.len() as int),
        c < tree@.len(),
        1 <= level,
        4 * (level + fuel) + 8 <= usize::MAX,
    ensures
        match r {
            Result::Ok(v) => spec_member_inners(tree@, buf@, c as int, 0, acc@, level as int,
                correct, fuel as nat) == Result::<Seq<u8>, FixerError>::Ok(v@),
            Result::Err(e) => spec_member_inners(tree@, buf@, c as int, 0, acc@, level as int,
                correct, fuel as nat) == Result::<Seq<u8>, FixerError>::Err(e),
        },
    decreases fuel, 4int, 0int,
{
    let cn = tree.nodes[c].children.len();
    let mut cur = acc;
    let mut j: usize = 0;
    while j < cn
        invariant
            tree.wf(buf@.len() as int),
            c < tree@.len(),
            1 <= level,
            4 * (level + fuel) + 8 <= usize::MAX,
            cn == tree@[c as int].children.len(),
            0 <= j <= cn,
            spec_member_inners(tree@, buf@, c as int, 0, acc@, level as int, correct,
                fuel as nat) == spec_member_inners(tree@, buf@, c as int, j as int, cur@,
                level as int, correct, fuel as nat),
        decreases 0int, 5int, cn - j,
    {
        proof {
            assert(node_wf(tree@, c as int));
            assert(c < tree@[c as int].children[j as int] < tree@.len());
        }
        let inner = tree.nodes[c].children[j];
        let target: Option<usize> = if tree.nodes[inner].kind == Kind::CompoundStatement {
            Option::Some(inner)
        } else if tree.nodes[inner].kind == Kind::SwitchBlock {
            return Result::Err(FixerError::UnsupportedConstruct);
        } else if tree.nodes[inner].kind == Kind::AssignmentExpression {
            match tree.child_by_field(inner, FieldTag::Right) {
                Option::Some(rr) => if tree.nodes[rr].kind == Kind::AnonymousFunction {
                    tree.child_by_field(rr, FieldTag::Body)
                } else {
                    Option::None
                },
                Option::None => Option::None,
            }
        } else {
            match tree.child_by_field(inner, FieldTag::Body) {
                Option::Some(b) => if tree.nodes[b].kind == Kind::CompoundStatement
                    || tree.nodes[b].kind == Kind::MatchBlock {
                    Option::Some(b)
                } else {
                    Option::None
                },
                Option::None => Option::None,
            }
        };
        proof {
            assert(spec_nested_block(tree@, tree@[c as int].children[j as int] as int)
                == Result::<Option<usize>, FixerError>::Ok(target));
        }
        match target {
            Option::None => {},
            Option::Some(b) => {
                proof {
                    if tree@[inner as int].kind == Kind::AssignmentExpression {
                        assert(b < tree@.len());
                    }
                }
                match splice_block(tree, buf, b, c, &cur, level, correct, fuel) {
                    Result::Ok(v) => {
                        cur = v;
                    },
                    Result::Err(e) => {
                        return Result::Err(e);
                    },
                }
            },
        }
        j += 1;
    }
    Result::Ok(cur)
}

/// Splices the rebuilt text of the nested block `b` into the member text
/// `acc`; mirrors `spec_splice_block`.
#[verifier::rlimit(100)]
fn splice_block(tree: &SyntaxTree, buf: &Vec<u8>, b: usize, c: usize, acc: &Vec<u8>,
    level: usize, correct: bool, fuel: usize) -> (r: Result<Vec<u8>, FixerError>)
    requires
        tree.wf(buf@.len() as int),
        b < tree@.len(),
        c < tree@.len(),
        1 <= level,
        4 * (level + fuel) + 8 <= usize::MAX,
    ensures
        match r {
            Result::Ok(v) => spec_splice_block(tree@, buf@, b as int, c as int, acc@,
                level as int, correct, fuel as nat) == Result::<Seq<u8>, FixerError>::Ok(v@),
            Result::Err(e) => spec_splice_block(tree@, buf@, b as int, c as int, acc@,
                level as int, correct, fuel as nat) == Result::<Seq<u8>, FixerError>::Err(e),
        },
    decreases fuel, 3int, 0int,
{
    let inner0 = match block_text(tree, buf, b, level, correct, fuel) {
        Result::Ok(v) => v,
        Result::Err(e) => {
            return Result::Err(e);
        },
    };
    proof {
        assert(node_wf(tree@, b as int));
        assert(tree@[b as int].end_byte <= buf@.len());
    }
    let unit: usize = 4 * level;
    let bs = tree.nodes[b].start_byte;
    let be = tree.nodes[b].end_byte;
    let cs = tree.nodes[c].start_byte;
    let mut sub: usize = 0;
    let mut pad: Vec<u8> = Vec::new();
    if correct {
        match tree.prev_sibling(b) {
            Option::Some(p) => {
                proof {
                    if b > 0 {
                        let m = tree@;
                        let pi = m[b as int].parent as int;
                        assert(node_wf(m, pi));
                        crate::syntax::lemma_sibling_order(m, pi,
                            m[b as int].child_index as int);
                    }
                }
                let pe = tree.nodes[p].end_byte;
                assert(pe <= bs);
                let gap = bs - pe;
                if gap > unit + 1 {
                    sub = gap - unit - 1;
                } else {
                    push_spaces(&mut pad, (unit + 1 - gap) % unit);
                }
            },
            Option::None => {},
        }
    }
    let ghost a_spec: int = bs - cs + unit - sub;
    let ghost e_spec: int = a_spec + (be - bs) - 1 + sub;
    let lhs: u128 = bs as u128 + unit as u128;
    let rhs: u128 = cs as u128 + sub as u128;
    let alen: u128 = acc.len() as u128;
    if lhs < rhs {
        proof {
            assert(a_spec < 0);
        }
        return Result::Err(FixerError::UnsupportedConstruct);
    }
    let a128: u128 = lhs - rhs;
    let e1: u128 = a128 + (be - bs) as u128 + sub as u128;
    proof {
        assert(a128 == a_spec);
        assert(e1 == e_spec + 1);
    }
    if e1 > alen {
        return Result::Err(FixerError::UnsupportedConstruct);
    }
    if a128 > e1 {
        return Result::Err(FixerError::UnsupportedConstruct);
    }
    let a_us: usize = a128 as usize;
    let e_us: usize = e1 as usize;
    let mut ins = pad;
    push_all(&mut ins, &inner0);
    let out = crate::bytes::replace_range(acc, a_us, e_us, &ins);
    proof {
        assert(out@ == acc@.take(a_spec) + ins@ + acc@.skip(e_spec + 1));
    }
    Result::Ok(out)
}

/// Rebuilds class-body indentation from structure alone, assuming canonical
/// gaps between members (the correcting variant lives in
/// `indent_bracket_body`).
pub struct IdentFixer {}

impl IdentFixer {
    /// The structural pattern whose matches this fixer rewrites.
    pub fn query(&self) -> (r: &'static str) {
        "(class_declaration body: (declaration_list) @brackets)"
    }

    /// The replacement for the block body `i`: its rebuilt text at level zero.
    pub fn fix(&self, tree: &SyntaxTree, i: usize, buf: &Vec<u8>) -> (r: Result<
        Option<Edit>,
        FixerError,
    >)
        requires
            tree.wf(buf@.len() as int),
            i < tree@.len(),
        ensures
            match r {
                Result::Ok(Option::Some(e)) => spec_indent_fix(tree@, buf@, i as int, false)
                    == Result::<Option<crate::edit::SpecEdit>, FixerError>::Ok(
                    Option::Some(e@),
                ),
                Result::Ok(Option::None) => spec_indent_fix(tree@, buf@, i as int, false)
                    == Result::<Option<crate::edit::SpecEdit>, FixerError>::Ok(
                    Option::<crate::edit::SpecEdit>::None,
                ),
                Result::Err(e) => spec_indent_fix(tree@, buf@, i as int, false)
                    == Result::<Option<crate::edit::SpecEdit>, FixerError>::Err(e),
            },
    {
        indent_fix_for(tree, i, buf, false)
    }
}

/// Runs indentation reconciliation on the block body `i` at level zero.
pub fn indent_fix_for(tree: &SyntaxTree, i: usize, buf: &Vec<u8>, correct: bool) -> (r: Result<
    Option<Edit>,
    FixerError,
>)
    requires
        tree.wf(buf@.len() as int),
        i < tree@.len(),
    ensures
        match r {
            Result::Ok(Option::Some(e)) => spec_indent_fix(tree@, buf@, i as int, correct)
                == Result::<Option<crate::edit::SpecEdit>, FixerError>::Ok(Option::Some(e@)),
            Result::Ok(Option::None) => spec_indent_fix(tree@, buf@, i as int, correct)
                == Result::<Option<crate::edit::SpecEdit>, FixerError>::Ok(
                Option::<crate::edit::SpecEdit>::None,
            ),
            Result::Err(e) => spec_indent_fix(tree@, buf@, i as int, correct)
                == Result::<Option<crate::edit::SpecEdit>, FixerError>::Err(e),
        },
{
    let n = tree.nodes.len();
    if n > (usize::MAX - 8) / 4 {
        return Result::Err(FixerError::UnsupportedConstruct);
    }
    proof {
        assert(node_wf(tree@, i as int));
    }
    match block_text(tree, buf, i, 0, correct, n) {
        Result::Err(e) => Result::Err(e),
        Result::Ok(t) => Result::Ok(
            Option::Some(
                Edit {
                    position: tree.nodes[i].start_byte,
                    deleted_length: tree.nodes[i].end_byte - tree.nodes[i].start_byte,
                    inserted_text: t,
                },
            ),
        ),
    }
}


/// Folding the nested-block splices of a member that owns none leaves the
/// member's rebuilt text unchanged.
proof fn lemma_member_inners_flat(
    m: Seq<SpecNode>,
    buf: Seq<u8>,
    c: int,
    j: int,
    acc: Seq<u8>,
    level: int,
    correct: bool,
    fuel: nat,
)
    requires
        0 <= c < m.len(),
        0 <= j,
        forall|jj: int| 0 <= jj < m[c].children.len()
            ==> #[trigger] spec_nested_block(m, m[c].children[jj] as int)
                == Result::<Option<usize>, FixerError>::Ok(Option::<usize>::None),
    ensures
        spec_member_inners(m, buf, c, j, acc, level, correct, fuel)
            == Result::<Seq<u8>, FixerError>::Ok(acc),
    decreases m[c].children.len() - j,
{
    if j < m[c].children.len() {
        lemma_member_inners_flat(m, buf, c, j + 1, acc, level, correct, fuel);
    }
}

/// Indentation correctness for a block member that owns no nested block: the
/// member is rebuilt as exactly one indent unit per nesting level beyond the
/// block's, followed by its source text and the line break its position asks
/// for, regardless of its original indentation; the block's closing delimiter
/// is rebuilt at the block's own level by `spec_block_text` directly.
pub proof fn lemma_indentation_correctness(
    m: Seq<SpecNode>,
    buf: Seq<u8>,
    c: int,
    level: int,
    correct: bool,
    fuel: nat,
)
    requires
        0 <= c < m.len(),
        fuel > 0,
        forall|jj: int| 0 <= jj < m[c].children.len()
            ==> #[trigger] spec_nested_block(m, m[c].children[jj] as int)
                == Result::<Option<usize>, FixerError>::Ok(Option::<usize>::None),
    ensures
        spec_member_text(m, buf, c, level, correct, fuel)
            == Result::<Seq<u8>, FixerError>::Ok(
            spec_indent(level + 1)
                + buf.subrange(m[c].start_byte as int, m[c].end_byte as int)
                + (match spec_next_sibling(m, c) {
                Option::Some(s) => if m[s as int].kind != Kind::Comma {
                    spec_lb()
                } else {
                    Seq::<u8>::empty()
                },
                Option::None => Seq::<u8>::empty(),
            }),
        ),
{
    let base = spec_indent(level + 1)
        + buf.subrange(m[c].start_byte as int, m[c].end_byte as int)
        + (match spec_next_sibling(m, c) {
        Option::Some(s) => if m[s as int].kind != Kind::Comma {
            spec_lb()
        } else {
            Seq::<u8>::empty()
        },
        Option::None => Seq::<u8>::empty(),
    });
    lemma_member_inners_flat(m, buf, c, 0, base, level + 1, correct, (fuel - 1) as nat);
}

} // verus!
