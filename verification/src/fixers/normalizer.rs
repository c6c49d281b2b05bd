//! The generic normalizing fixer: a single-pass whole-file rewrite in which
//! every leaf token is classified by kind and mapped to a spacing action
//! (pass-through, space or line break before, after, or both), with
//! context-sensitive exceptions resolved by inspecting the token's siblings
//! and ancestors. Applying the policy to already-normalized text reproduces
//! it, so the fixer is idempotent by construction.

use vstd::prelude::*;

use crate::bytes::{push_range, push_all, push_lb, push1, spec_lb};
use crate::edit::Edit;
use crate::kind::Kind;
use crate::syntax::{
    SyntaxTree, SpecNode, node_wf, struct_wf, tree_wf, spec_next_sibling, spec_prev_sibling,
};

verus! {

/// The source text of node `c`.
pub open spec fn spec_base(m: Seq<SpecNode>, buf: Seq<u8>, c: int) -> Seq<u8> {
    buf.subrange(m[c].start_byte as int, m[c].end_byte as int)
}

/// The kind of a node's next sibling, if any.
pub open spec fn spec_next_kind(m: Seq<SpecNode>, c: int) -> Option<Kind> {
    match spec_next_sibling(m, c) {
        Option::Some(s) => Option::Some(m[s as int].kind),
        Option::None => Option::None,
    }
}

/// The kind of a node's previous sibling, if any.
pub open spec fn spec_prev_kind(m: Seq<SpecNode>, c: int) -> Option<Kind> {
    match spec_prev_sibling(m, c) {
        Option::Some(s) => Option::Some(m[s as int].kind),
        Option::None => Option::None,
    }
}

/// The spacing action for a `return` keyword: bare returns keep their
/// semicolon tight, returns with a value get a trailing space.
pub open spec fn spec_h_return(m: Seq<SpecNode>, buf: Seq<u8>, c: int) -> Seq<u8> {
    if spec_next_kind(m, c) == Option::Some(Kind::Semicolon) {
        spec_base(m, buf, c)
    } else {
        spec_base(m, buf, c) + seq![32u8]
    }
}

/// The spacing action for a semicolon: a line break after it, unless a closing
/// parenthesis follows (a for-loop header).
pub open spec fn spec_h_semicolon(m: Seq<SpecNode>, buf: Seq<u8>, c: int) -> Seq<u8> {
    if spec_next_kind(m, c) == Option::Some(Kind::RParen) {
        spec_base(m, buf, c)
    } else {
        spec_base(m, buf, c) + spec_lb()
    }
}

/// The spacing action for the `class` keyword.
pub open spec fn spec_h_class(m: Seq<SpecNode>, buf: Seq<u8>, c: int) -> Seq<u8> {
    if spec_prev_kind(m, c) == Option::Some(Kind::AbstractModifier) {
        seq![32u8] + spec_base(m, buf, c) + seq![32u8]
    } else {
        spec_base(m, buf, c) + seq![32u8]
    }
}

/// The spacing action for an opening parenthesis.
pub open spec fn spec_h_open_paren(m: Seq<SpecNode>, buf: Seq<u8>, c: int) -> Seq<u8> {
    if spec_next_kind(m, c) == Option::Some(Kind::RParen) {
        spec_base(m, buf, c)
    } else {
        spec_base(m, buf, c) + spec_lb()
    }
}

/// The spacing action for a closing parenthesis.
pub open spec fn spec_h_close_paren(m: Seq<SpecNode>, buf: Seq<u8>, c: int) -> Seq<u8> {
    match spec_prev_kind(m, c) {
        Option::Some(k) => if k == Kind::Comma || k == Kind::LParen {
            spec_base(m, buf, c)
        } else {
            spec_lb() + spec_base(m, buf, c)
        },
        Option::None => spec_lb() + spec_base(m, buf, c),
    }
}

/// The spacing action for a closing brace: a block whose enclosing construct
/// is followed by anything but a semicolon gets a line break after it; the
/// body of an anonymous function and a class-like declaration list pass
/// through; otherwise a final brace gets a line break.
pub open spec fn spec_h_close_brace(m: Seq<SpecNode>, buf: Seq<u8>, c: int) -> Seq<u8> {
    let base = spec_base(m, buf, c);
    if c != 0 && {
        let p = m[c].parent as int;
        p != 0 && (spec_next_kind(m, m[p].parent as int) is Some
            && spec_next_kind(m, m[p].parent as int) != Option::Some(Kind::Semicolon))
    } {
        base + spec_lb()
    } else if c != 0 && {
        let p = m[c].parent as int;
        p != 0 && m[m[p].parent as int].kind == Kind::AnonymousFunction
    } {
        base
    } else if c != 0 && m[m[c].parent as int].kind == Kind::DeclarationList {
        base
    } else if spec_next_sibling(m, c) is None {
        base + spec_lb()
    } else {
        base
    }
}

/// The spacing action for an opening bracket: tight for an empty array, a
/// space after for an index access, a line break after for an array literal.
pub open spec fn spec_h_open_bracket(m: Seq<SpecNode>, buf: Seq<u8>, c: int) -> Seq<u8> {
    if spec_next_kind(m, c) == Option::Some(Kind::RBracket) {
        spec_base(m, buf, c)
    } else if spec_prev_kind(m, c) == Option::Some(Kind::VariableName)
        || spec_prev_kind(m, c) == Option::Some(Kind::MemberAccessExpression) {
        spec_base(m, buf, c) + seq![32u8]
    } else {
        spec_base(m, buf, c) + spec_lb()
    }
}

/// The spacing action for a closing bracket.
pub open spec fn spec_h_close_bracket(m: Seq<SpecNode>, buf: Seq<u8>, c: int) -> Seq<u8> {
    match spec_prev_kind(m, c) {
        Option::Some(k) => if k == Kind::LBracket || k == Kind::Comma {
            spec_base(m, buf, c)
        } else if k == Kind::Integer || k == Kind::KwString || k == Kind::VariableName
            || k == Kind::EncapsedString || k == Kind::BinaryExpression
            || k == Kind::MemberAccessExpression {
            seq![32u8] + spec_base(m, buf, c)
        } else {
            spec_lb() + spec_base(m, buf, c)
        },
        Option::None => spec_lb() + spec_base(m, buf, c),
    }
}

/// Whether the static modifier at `p` is followed by a property or a type, so
/// its keyword carries a trailing space.
pub open spec fn spec_static_spaces_after(m: Seq<SpecNode>, p: int) -> bool {
    ||| spec_next_kind(m, p) == Option::Some(Kind::PropertyElement)
    ||| spec_next_kind(m, p) == Option::Some(Kind::UnionType)
    ||| spec_next_kind(m, p) == Option::Some(Kind::PrimitiveType)
    ||| spec_next_kind(m, p) == Option::Some(Kind::NamedType)
}

/// The spacing action for the `static` keyword of a static modifier: a space
/// before it after a visibility modifier, a space after it before a property
/// or type.
pub open spec fn spec_h_static(m: Seq<SpecNode>, buf: Seq<u8>, c: int) -> Seq<u8> {
    let before: Seq<u8> = if c != 0 && spec_prev_kind(m, m[c].parent as int)
        == Option::Some(Kind::VisibilityModifier) {
        seq![32u8]
    } else {
        Seq::empty()
    };
    let after: Seq<u8> = if c != 0 && spec_static_spaces_after(m, m[c].parent as int) {
        seq![32u8]
    } else {
        Seq::empty()
    };
    before + spec_base(m, buf, c) + after
}

/// The spacing action for the `function` keyword.
pub open spec fn spec_h_function(m: Seq<SpecNode>, buf: Seq<u8>, c: int) -> Seq<u8> {
    if spec_prev_kind(m, c) == Option::Some(Kind::StaticModifier)
        || spec_prev_kind(m, c) == Option::Some(Kind::VisibilityModifier) {
        seq![32u8] + spec_base(m, buf, c) + seq![32u8]
    } else if spec_next_kind(m, c) == Option::Some(Kind::Name) {
        spec_base(m, buf, c) + seq![32u8]
    } else {
        spec_base(m, buf, c)
    }
}

/// The spacing action for a primitive type name: a space after it when it
/// types a parameter or property, nothing before a union bar (which spaces
/// itself) or at the tail of a signature before its body.
pub open spec fn spec_h_primitive(m: Seq<SpecNode>, buf: Seq<u8>, c: int) -> Seq<u8> {
    if c != 0 && m[m[c].parent as int].kind == Kind::PrimitiveType {
        spec_base(m, buf, c) + spec_primitive_pad(m, m[c].parent as int)
    } else if m[c].kind == Kind::PrimitiveType {
        spec_base(m, buf, c) + spec_primitive_pad(m, c)
    } else if spec_climb_next_kind(m, c) == Option::Some(Kind::VariableName) {
        spec_base(m, buf, c) + seq![32u8]
    } else {
        spec_base(m, buf, c)
    }
}

/// The trailing padding for the primitive type node at `q`: none before a
/// union bar or a following body, one space otherwise.
pub open spec fn spec_primitive_pad(m: Seq<SpecNode>, q: int) -> Seq<u8> {
    match spec_next_kind(m, q) {
        Option::Some(k) => if k == Kind::CompoundStatement || k == Kind::Pipe {
            Seq::empty()
        } else {
            seq![32u8]
        },
        Option::None => if q != 0 && spec_next_kind(m, m[q].parent as int)
            == Option::Some(Kind::CompoundStatement) {
            Seq::empty()
        } else {
            seq![32u8]
        },
    }
}

/// The spacing action for a visibility keyword: a space after it when a
/// property, type or readonly marker follows; tight before a static modifier
/// or the `function` keyword, which carry their own spacing.
pub open spec fn spec_h_visibility(m: Seq<SpecNode>, buf: Seq<u8>, c: int) -> Seq<u8> {
    if c != 0 && {
        let p = m[c].parent as int;
        spec_next_kind(m, p) == Option::Some(Kind::PropertyElement)
            || spec_next_kind(m, p) == Option::Some(Kind::ReadonlyModifier)
            || spec_next_kind(m, p) == Option::Some(Kind::UnionType)
            || spec_next_kind(m, p) == Option::Some(Kind::PrimitiveType)
            || spec_next_kind(m, p) == Option::Some(Kind::NamedType)
    } {
        spec_base(m, buf, c) + seq![32u8]
    } else if c != 0 && spec_prev_kind(m, m[c].parent as int) == Option::Some(Kind::KwAs) {
        spec_base(m, buf, c) + seq![32u8]
    } else {
        spec_base(m, buf, c)
    }
}

/// The spacing action for the `use` keyword.
pub open spec fn spec_h_use(m: Seq<SpecNode>, buf: Seq<u8>, c: int) -> Seq<u8> {
    if c != 0 && spec_prev_kind(m, m[c].parent as int) == Option::Some(Kind::FormalParameters) {
        seq![32u8] + spec_base(m, buf, c) + seq![32u8]
    } else {
        spec_base(m, buf, c) + seq![32u8]
    }
}

/// The spacing action for a bare name: names inside qualified names, union
/// types and scope operators stay tight; a type or namespace name followed by
/// more text gets a space.
pub open spec fn spec_h_name(m: Seq<SpecNode>, buf: Seq<u8>, c: int) -> Seq<u8> {
    let base = spec_base(m, buf, c);
    if c == 0 {
        base
    } else {
        let p = m[c].parent as int;
        if spec_next_kind(m, p) == Option::Some(Kind::Pipe)
            || spec_next_kind(m, p) == Option::Some(Kind::ColonColon)
            || spec_next_kind(m, p) == Option::Some(Kind::UseList) {
            base
        } else if m[p].kind == Kind::QualifiedName {
            if p != 0 && {
                let q = spec_next_sibling(m, m[p].parent as int);
                q matches Some(qq) && (m[qq as int].kind == Kind::Semicolon
                    || m[qq as int].kind == Kind::Pipe)
            } {
                base
            } else if spec_next_kind(m, p) == Option::Some(Kind::Semicolon) {
                base
            } else {
                base + seq![32u8]
            }
        } else if m[p].kind == Kind::NamedType {
            if spec_climb_next_kind(m, p) == Option::Some(Kind::CompoundStatement) {
                base
            } else {
                base + seq![32u8]
            }
        } else {
            base
        }
    }
}

/// The kind of the first next sibling found walking up from `q`: the kind of
/// `q`'s next sibling if it has one, else of its nearest ancestor's.
pub open spec fn spec_climb_next_kind(m: Seq<SpecNode>, q: int) -> Option<Kind>
    decreases q when 0 <= q && q < m.len() && struct_wf(m)
{
    match spec_next_kind(m, q) {
        Option::Some(k) => Option::Some(k),
        Option::None => if q == 0 {
            Option::None
        } else {
            spec_climb_next_kind(m, m[q].parent as int)
        },
    }
}

/// The spacing action for an operator token: most get a space on both sides;
/// colons of named arguments and return types bind left, signs of unary
/// expressions and nullable-type markers stay tight.
pub open spec fn spec_h_operator(m: Seq<SpecNode>, buf: Seq<u8>, c: int) -> Seq<u8> {
    let base = spec_base(m, buf, c);
    if m[c].kind == Kind::Colon && {
        let pk = spec_prev_kind(m, c);
        pk == Option::Some(Kind::Name) || pk == Option::Some(Kind::FormalParameters)
            || pk == Option::Some(Kind::Question)
    } {
        base + seq![32u8]
    } else if (m[c].kind == Kind::Plus || m[c].kind == Kind::Minus) && c != 0
        && m[m[c].parent as int].kind == Kind::UnaryOpExpression {
        base
    } else if m[c].kind == Kind::Question
        && spec_next_kind(m, c) == Option::Some(Kind::NamedType) {
        base
    } else if m[c].kind == Kind::Question && spec_next_kind(m, c) == Option::Some(Kind::Colon) {
        seq![32u8] + base
    } else {
        seq![32u8] + base + seq![32u8]
    }
}

/// Whether a kind is an operator the normalizer spaces on both sides.
pub open spec fn spec_is_operator(k: Kind) -> bool {
    ||| k == Kind::Assign ||| k == Kind::PlusAssign ||| k == Kind::MinusAssign
    ||| k == Kind::StarAssign ||| k == Kind::SlashAssign ||| k == Kind::PercentAssign
    ||| k == Kind::EqEq ||| k == Kind::EqEqEq ||| k == Kind::NotEq ||| k == Kind::LtGt
    ||| k == Kind::NotEqEq ||| k == Kind::Gt ||| k == Kind::Lt ||| k == Kind::Ge
    ||| k == Kind::Le ||| k == Kind::Spaceship ||| k == Kind::Plus ||| k == Kind::Minus
    ||| k == Kind::Star ||| k == Kind::StarStar ||| k == Kind::Slash ||| k == Kind::Percent
    ||| k == Kind::KwAnd ||| k == Kind::KwOr ||| k == Kind::KwXor ||| k == Kind::AndAnd
    ||| k == Kind::OrOr ||| k == Kind::Bang ||| k == Kind::Dot ||| k == Kind::DotAssign
    ||| k == Kind::QuestionColon ||| k == Kind::QuestionQuestion ||| k == Kind::Question
    ||| k == Kind::Colon ||| k == Kind::Shr ||| k == Kind::Shl ||| k == Kind::Amp
    ||| k == Kind::Pipe ||| k == Kind::Caret ||| k == Kind::ShrAssign ||| k == Kind::ShlAssign
    ||| k == Kind::AmpAssign ||| k == Kind::PipeAssign ||| k == Kind::CaretAssign
}

/// Whether a kind is a primitive type name.
pub open spec fn spec_is_primitive(k: Kind) -> bool {
    ||| k == Kind::KwNull ||| k == Kind::KwString ||| k == Kind::KwBool ||| k == Kind::KwBoolean
    ||| k == Kind::KwFloat ||| k == Kind::KwInt ||| k == Kind::KwArray ||| k == Kind::KwMixed
    ||| k == Kind::KwObject ||| k == Kind::KwCallable ||| k == Kind::KwResource
}

/// The normalizer's replacement text for the leaf token `c`.
pub open spec fn spec_norm_token(m: Seq<SpecNode>, buf: Seq<u8>, c: int) -> Seq<u8> {
    let base = spec_base(m, buf, c);
    let k = m[c].kind;
    if spec_is_operator(k) {
        spec_h_operator(m, buf, c)
    } else if k == Kind::KwAs || k == Kind::FatArrow || k == Kind::KwExtends
        || k == Kind::KwImplements {
        seq![32u8] + base + seq![32u8]
    } else if k == Kind::KwClass {
        spec_h_class(m, buf, c)
    } else if k == Kind::Dollar {
        base
    } else if spec_is_primitive(k) || k == Kind::PrimitiveType {
        spec_h_primitive(m, buf, c)
    } else if k == Kind::KwPrivate || k == Kind::KwPublic || k == Kind::KwProtected {
        spec_h_visibility(m, buf, c)
    } else if k == Kind::KwReadonly || k == Kind::KwFinal || k == Kind::KwConst
        || k == Kind::KwEcho || k == Kind::KwNamespace || k == Kind::KwInterface
        || k == Kind::KwTrait || k == Kind::KwNew {
        base + seq![32u8]
    } else if k == Kind::KwUse {
        spec_h_use(m, buf, c)
    } else if k == Kind::Name {
        spec_h_name(m, buf, c)
    } else if k == Kind::KwReturn {
        spec_h_return(m, buf, c)
    } else if k == Kind::Semicolon {
        spec_h_semicolon(m, buf, c)
    } else if k == Kind::Comma {
        base + spec_lb()
    } else if k == Kind::KwFunction {
        spec_h_function(m, buf, c)
    } else if k == Kind::KwStatic {
        spec_h_static(m, buf, c)
    } else if k == Kind::Arrow || k == Kind::NullsafeArrow {
        spec_lb() + base
    } else if k == Kind::LBracket {
        spec_h_open_bracket(m, buf, c)
    } else if k == Kind::RBracket {
        spec_h_close_bracket(m, buf, c)
    } else if k == Kind::LBrace {
        spec_lb() + base + spec_lb()
    } else if k == Kind::RBrace {
        spec_h_close_brace(m, buf, c)
    } else if k == Kind::LParen {
        spec_h_open_paren(m, buf, c)
    } else if k == Kind::RParen {
        spec_h_close_paren(m, buf, c)
    } else {
        base
    }
}

/// The normalized text of the subtree at `i`, children from `k` on: leaves are
/// mapped through the token policy, inner nodes recurse.
pub open spec fn spec_norm_block(m: Seq<SpecNode>, buf: Seq<u8>, i: int, k: int, fuel: nat)
    -> Seq<u8>
    decreases fuel, m[i].children.len() - k when 0 <= k
{
    if k >= m[i].children.len() {
        Seq::empty()
    } else {
        let c = m[i].children[k] as int;
        let tok = if m[c].children.len() > 0 && fuel > 0 {
            spec_norm_block(m, buf, c, 0, (fuel - 1) as nat)
        } else {
            spec_norm_token(m, buf, c)
        };
        tok + spec_norm_block(m, buf, i, k + 1, fuel)
    }
}

/// The given text with every trailing line break removed.
pub open spec fn spec_strip_lbs(s: Seq<u8>) -> Seq<u8>
    decreases s.len(),
{
    if s.len() > 0 && s.last() == 10 {
        spec_strip_lbs(s.drop_last())
    } else {
        s
    }
}

/// The normalized text of the program's top level, children from `k` on: each
/// construct's subtree is normalized; bare top-level tokens (the opening tag)
/// vanish, replaced by the fresh tag the program replacement prepends.
pub open spec fn spec_norm_top(m: Seq<SpecNode>, buf: Seq<u8>, i: int, k: int, fuel: nat)
    -> Seq<u8>
    decreases m[i].children.len() - k when 0 <= k
{
    if k >= m[i].children.len() {
        Seq::empty()
    } else {
        let c = m[i].children[k] as int;
        let tok = if m[c].children.len() > 0 && fuel > 0 {
            spec_norm_block(m, buf, c, 0, (fuel - 1) as nat)
        } else {
            Seq::empty()
        };
        tok + spec_norm_top(m, buf, i, k + 1, fuel)
    }
}

/// The normalizer's whole-program replacement: a fresh opening tag, the
/// normalized text of every top-level construct, and exactly one final line
/// break.
pub open spec fn spec_norm_program(m: Seq<SpecNode>, buf: Seq<u8>, i: int) -> Seq<u8> {
    spec_strip_lbs(
        seq![60u8, 63u8, 112u8, 104u8, 112u8] + spec_lb()
            + spec_norm_top(m, buf, i, 0, m.len() as nat),
    ) + spec_lb()
}


/// The kind of node `c`'s next sibling, if any.
fn next_kind(tree: &SyntaxTree, c: usize) -> (r: Option<Kind>)
    requires
        struct_wf(tree@),
        c < tree@.len(),
    ensures
        r == spec_next_kind(tree@, c as int),
{
    match tree.next_sibling(c) {
        Option::Some(s) => Option::Some(tree.nodes[s].kind),
        Option::None => Option::None,
    }
}

/// The kind of node `c`'s previous sibling, if any.
fn prev_kind(tree: &SyntaxTree, c: usize) -> (r: Option<Kind>)
    requires
        struct_wf(tree@),
        c < tree@.len(),
    ensures
        r == spec_prev_kind(tree@, c as int),
{
    match tree.prev_sibling(c) {
        Option::Some(s) => Option::Some(tree.nodes[s].kind),
        Option::None => Option::None,
    }
}

/// Whether the next sibling of `c` has kind `k`.
fn next_is(tree: &SyntaxTree, c: usize, k: Kind) -> (r: bool)
    requires
        struct_wf(tree@),
        c < tree@.len(),
    ensures
        r == (spec_next_kind(tree@, c as int) == Option::Some(k)),
{
    match next_kind(tree, c) {
        Option::Some(kk) => kk == k,
        Option::None => false,
    }
}

/// Whether the previous sibling of `c` has kind `k`.
fn prev_is(tree: &SyntaxTree, c: usize, k: Kind) -> (r: bool)
    requires
        struct_wf(tree@),
        c < tree@.len(),
    ensures
        r == (spec_prev_kind(tree@, c as int) == Option::Some(k)),
{
    match prev_kind(tree, c) {
        Option::Some(kk) => kk == k,
        Option::None => false,
    }
}

/// Builds the normalizer's replacement for the leaf token `c`; mirrors
/// `spec_norm_token`.
#[verifier::rlimit(100)]
fn norm_token(tree: &SyntaxTree, buf: &Vec<u8>, c: usize) -> (r: Vec<u8>)
    requires
        tree.wf(buf@.len() as int),
        c < tree@.len(),
    ensures
        r@ == spec_norm_token(tree@, buf@, c as int),
{
    proof {
        assert(node_wf(tree@, c as int));
        assert(tree@[c as int].end_byte <= buf@.len());
        if c > 0 {
            assert(tree@[c as int].parent < c);
        }
    }
    let cs = tree.nodes[c].start_byte;
    let ce = tree.nodes[c].end_byte;
    let k = tree.nodes[c].kind;
    let mut out: Vec<u8> = Vec::new();
    let is_op = k == Kind::Assign || k == Kind::PlusAssign || k == Kind::MinusAssign
        || k == Kind::StarAssign || k == Kind::SlashAssign || k == Kind::PercentAssign
        || k == Kind::EqEq || k == Kind::EqEqEq || k == Kind::NotEq || k == Kind::LtGt
        || k == Kind::NotEqEq || k == Kind::Gt || k == Kind::Lt || k == Kind::Ge
        || k == Kind::Le || k == Kind::Spaceship || k == Kind::Plus || k == Kind::Minus
        || k == Kind::Star || k == Kind::StarStar || k == Kind::Slash || k == Kind::Percent
        || k == Kind::KwAnd || k == Kind::KwOr || k == Kind::KwXor || k == Kind::AndAnd
        || k == Kind::OrOr || k == Kind::Bang || k == Kind::Dot || k == Kind::DotAssign
        || k == Kind::QuestionColon || k == Kind::QuestionQuestion || k == Kind::Question
        || k == Kind::Colon || k == Kind::Shr || k == Kind::Shl || k == Kind::Amp
        || k == Kind::Pipe || k == Kind::Caret || k == Kind::ShrAssign || k == Kind::ShlAssign
        || k == Kind::AmpAssign || k == Kind::PipeAssign || k == Kind::CaretAssign;
    let is_prim = k == Kind::KwNull || k == Kind::KwString || k == Kind::KwBool
        || k == Kind::KwBoolean || k == Kind::KwFloat || k == Kind::KwInt || k == Kind::KwArray
        || k == Kind::KwMixed || k == Kind::KwObject || k == Kind::KwCallable
        || k == Kind::KwResource;
    if is_op {
        let colon_left = k == Kind::Colon && (prev_is(tree, c, Kind::Name)
            || prev_is(tree, c, Kind::FormalParameters) || prev_is(tree, c, Kind::Question));
        let unary_sign = (k == Kind::Plus || k == Kind::Minus) && c != 0
            && tree.nodes[tree.nodes[c].parent].kind == Kind::UnaryOpExpression;
        if colon_left {
            push_range(&mut out, buf, cs, ce);
            push1(&mut out, 32);
        } else if unary_sign {
            push_range(&mut out, buf, cs, ce);
        } else if k == Kind::Question && next_is(tree, c, Kind::NamedType) {
            push_range(&mut out, buf, cs, ce);
        } else if k == Kind::Question && next_is(tree, c, Kind::Colon) {
            push1(&mut out, 32);
            push_range(&mut out, buf, cs, ce);
        } else {
            push1(&mut out, 32);
            push_range(&mut out, buf, cs, ce);
            push1(&mut out, 32);
        }
        proof {
            assert(out@ =~= spec_h_operator(tree@, buf@, c as int));
        }
    } else if k == Kind::KwAs || k == Kind::FatArrow || k == Kind::KwExtends
        || k == Kind::KwImplements {
        push1(&mut out, 32);
        push_range(&mut out, buf, cs, ce);
        push1(&mut out, 32);
    } else if k == Kind::KwClass {
        if prev_is(tree, c, Kind::AbstractModifier) {
            push1(&mut out, 32);
            push_range(&mut out, buf, cs, ce);
            push1(&mut out, 32);
        } else {
            push_range(&mut out, buf, cs, ce);
            push1(&mut out, 32);
        }
        proof {
            assert(out@ =~= spec_h_class(tree@, buf@, c as int));
        }
    } else if k == Kind::Dollar {
        push_range(&mut out, buf, cs, ce);
    } else if is_prim || k == Kind::PrimitiveType {
        let mut space = false;
        if c != 0 && tree.nodes[tree.nodes[c].parent].kind == Kind::PrimitiveType {
            proof {
                assert(tree@[c as int].parent < c);
            }
            space = primitive_pad(tree, tree.nodes[c].parent);
        } else if k == Kind::PrimitiveType {
            space = primitive_pad(tree, c);
        } else {
            space = match climb_next_kind(tree, c) {
                Option::Some(nk) => nk == Kind::VariableName,
                Option::None => false,
            };
        }
        push_range(&mut out, buf, cs, ce);
        if space {
            push1(&mut out, 32);
        }
        proof {
            assert(out@ =~= spec_h_primitive(tree@, buf@, c as int));
        }
    } else if k == Kind::KwPrivate || k == Kind::KwPublic || k == Kind::KwProtected {
        let mut after = false;
        if c != 0 {
            let p = tree.nodes[c].parent;
            after = next_is(tree, p, Kind::PropertyElement)
                || next_is(tree, p, Kind::ReadonlyModifier) || next_is(tree, p, Kind::UnionType)
                || next_is(tree, p, Kind::PrimitiveType) || next_is(tree, p, Kind::NamedType)
                || prev_is(tree, p, Kind::KwAs);
        }
        push_range(&mut out, buf, cs, ce);
        if after {
            push1(&mut out, 32);
        }
        proof {
            assert(out@ =~= spec_h_visibility(tree@, buf@, c as int));
        }
    } else if k == Kind::KwReadonly || k == Kind::KwFinal || k == Kind::KwConst
        || k == Kind::KwEcho || k == Kind::KwNamespace || k == Kind::KwInterface
        || k == Kind::KwTrait || k == Kind::KwNew {
        push_range(&mut out, buf, cs, ce);
        push1(&mut out, 32);
    } else if k == Kind::KwUse {
        let mut both = false;
        if c != 0 {
            let p = tree.nodes[c].parent;
            both = prev_is(tree, p, Kind::FormalParameters);
        }
        if both {
            push1(&mut out, 32);
        }
        push_range(&mut out, buf, cs, ce);
        push1(&mut out, 32);
        proof {
            assert(out@ =~= spec_h_use(tree@, buf@, c as int));
        }
    } else if k == Kind::Name {
        push_all(&mut out, &norm_name(tree, buf, c));
    } else if k == Kind::KwReturn {
        push_range(&mut out, buf, cs, ce);
        if !next_is(tree, c, Kind::Semicolon) {
            push1(&mut out, 32);
        }
        proof {
            assert(out@ =~= spec_h_return(tree@, buf@, c as int));
        }
    } else if k == Kind::Semicolon {
        push_range(&mut out, buf, cs, ce);
        if !next_is(tree, c, Kind::RParen) {
            push_lb(&mut out);
        }
        proof {
            assert(out@ =~= spec_h_semicolon(tree@, buf@, c as int));
        }
    } else if k == Kind::Comma {
        push_range(&mut out, buf, cs, ce);
        push_lb(&mut out);
    } else if k == Kind::KwFunction {
        if prev_is(tree, c, Kind::StaticModifier) || prev_is(tree, c, Kind::VisibilityModifier) {
            push1(&mut out, 32);
            push_range(&mut out, buf, cs, ce);
            push1(&mut out, 32);
        } else if next_is(tree, c, Kind::Name) {
            push_range(&mut out, buf, cs, ce);
            push1(&mut out, 32);
        } else {
            push_range(&mut out, buf, cs, ce);
        }
        proof {
            assert(out@ =~= spec_h_function(tree@, buf@, c as int));
        }
    } else if k == Kind::KwStatic {
        let mut after = false;
        let mut before = false;
        if c != 0 {
            let p = tree.nodes[c].parent;
            after = next_is(tree, p, Kind::PropertyElement) || next_is(tree, p, Kind::UnionType)
                || next_is(tree, p, Kind::PrimitiveType) || next_is(tree, p, Kind::NamedType);
            before = prev_is(tree, p, Kind::VisibilityModifier);
        }
        if before {
            push1(&mut out, 32);
        }
        push_range(&mut out, buf, cs, ce);
        if after {
            push1(&mut out, 32);
        }
        proof {
            assert(out@ =~= spec_h_static(tree@, buf@, c as int));
        }
    } else if k == Kind::Arrow || k == Kind::NullsafeArrow {
        push_lb(&mut out);
        push_range(&mut out, buf, cs, ce);
    } else if k == Kind::LBracket {
        if next_is(tree, c, Kind::RBracket) {
            push_range(&mut out, buf, cs, ce);
        } else if prev_is(tree, c, Kind::VariableName)
            || prev_is(tree, c, Kind::MemberAccessExpression) {
            push_range(&mut out, buf, cs, ce);
            push1(&mut out, 32);
        } else {
            push_range(&mut out, buf, cs, ce);
            push_lb(&mut out);
        }
        proof {
            assert(out@ =~= spec_h_open_bracket(tree@, buf@, c as int));
        }
    } else if k == Kind::RBracket {
        match prev_kind(tree, c) {
            Option::Some(pk) => {
                if pk == Kind::LBracket || pk == Kind::Comma {
                    push_range(&mut out, buf, cs, ce);
                } else if pk == Kind::Integer || pk == Kind::KwString
                    || pk == Kind::VariableName || pk == Kind::EncapsedString
                    || pk == Kind::BinaryExpression || pk == Kind::MemberAccessExpression {
                    push1(&mut out, 32);
                    push_range(&mut out, buf, cs, ce);
                } else {
                    push_lb(&mut out);
                    push_range(&mut out, buf, cs, ce);
                }
            },
            Option::None => {
                push_lb(&mut out);
                push_range(&mut out, buf, cs, ce);
            },
        }
        proof {
            assert(out@ =~= spec_h_close_bracket(tree@, buf@, c as int));
        }
    } else if k == Kind::LBrace {
        push_lb(&mut out);
        push_range(&mut out, buf, cs, ce);
        push_lb(&mut out);
    } else if k == Kind::RBrace {
        push_all(&mut out, &norm_close_brace(tree, buf, c));
    } else if k == Kind::LParen {
        push_range(&mut out, buf, cs, ce);
        if !next_is(tree, c, Kind::RParen) {
            push_lb(&mut out);
        }
        proof {
            assert(out@ =~= spec_h_open_paren(tree@, buf@, c as int));
        }
    } else if k == Kind::RParen {
        match prev_kind(tree, c) {
            Option::Some(pk) => {
                if pk == Kind::Comma || pk == Kind::LParen {
                    push_range(&mut out, buf, cs, ce);
                } else {
                    push_lb(&mut out);
                    push_range(&mut out, buf, cs, ce);
                }
            },
            Option::None => {
                push_lb(&mut out);
                push_range(&mut out, buf, cs, ce);
            },
        }
        proof {
            assert(out@ =~= spec_h_close_paren(tree@, buf@, c as int));
        }
    } else {
        push_range(&mut out, buf, cs, ce);
    }
    proof {
        assert(out@ =~= spec_norm_token(tree@, buf@, c as int));
    }
    out
}

/// Whether the primitive type node at `q` gets a trailing space; mirrors
/// `spec_primitive_pad`.
fn primitive_pad(tree: &SyntaxTree, q: usize) -> (r: bool)
    requires
        struct_wf(tree@),
        q < tree@.len(),
    ensures
        (if r {
            seq![32u8]
        } else {
            Seq::<u8>::empty()
        }) == spec_primitive_pad(tree@, q as int),
{
    match next_kind(tree, q) {
        Option::Some(nk) => !(nk == Kind::CompoundStatement || nk == Kind::Pipe),
        Option::None => {
            let mut space = true;
            if q != 0 {
                proof {
                    assert(tree@[q as int].parent < q);
                }
                let pp = tree.nodes[q].parent;
                if next_is(tree, pp, Kind::CompoundStatement) {
                    space = false;
                }
            }
            space
        },
    }
}

/// Builds the replacement for a bare name token; mirrors `spec_h_name`.
fn norm_name(tree: &SyntaxTree, buf: &Vec<u8>, c: usize) -> (r: Vec<u8>)
    requires
        tree.wf(buf@.len() as int),
        c < tree@.len(),
    ensures
        r@ == spec_h_name(tree@, buf@, c as int),
{
    proof {
        assert(node_wf(tree@, c as int));
        assert(tree@[c as int].end_byte <= buf@.len());
        if c > 0 {
            assert(tree@[c as int].parent < c);
        }
    }
    let cs = tree.nodes[c].start_byte;
    let ce = tree.nodes[c].end_byte;
    let mut out: Vec<u8> = Vec::new();
    push_range(&mut out, buf, cs, ce);
    if c == 0 {
        return out;
    }
    let p = tree.nodes[c].parent;
    if next_is(tree, p, Kind::Pipe) || next_is(tree, p, Kind::ColonColon)
        || next_is(tree, p, Kind::UseList) {
        return out;
    }
    if tree.nodes[p].kind == Kind::QualifiedName {
        let mut tight = next_is(tree, p, Kind::Semicolon);
        if p != 0 {
            proof {
                assert(tree@[p as int].parent < p);
            }
            let pp = tree.nodes[p].parent;
            match tree.next_sibling(pp) {
                Option::Some(q) => {
                    if tree.nodes[q].kind == Kind::Semicolon
                        || tree.nodes[q].kind == Kind::Pipe {
                        tight = true;
                    }
                },
                Option::None => {},
            }
        }
        if !tight {
            push1(&mut out, 32);
        }
        proof {
            assert(out@ =~= spec_h_name(tree@, buf@, c as int));
        }
        return out;
    }
    if tree.nodes[p].kind == Kind::NamedType {
        let up = climb_next_kind(tree, p);
        let tight = match up {
            Option::Some(kk) => kk == Kind::CompoundStatement,
            Option::None => false,
        };
        if !tight {
            push1(&mut out, 32);
        }
        proof {
            assert(out@ =~= spec_h_name(tree@, buf@, c as int));
        }
        return out;
    }
    out
}

/// The kind of the first next sibling found walking up from `q`; mirrors
/// `spec_climb_next_kind`.
fn climb_next_kind(tree: &SyntaxTree, q: usize) -> (r: Option<Kind>)
    requires
        struct_wf(tree@),
        q < tree@.len(),
    ensures
        r == spec_climb_next_kind(tree@, q as int),
    decreases q,
{
    match next_kind(tree, q) {
        Option::Some(k) => Option::Some(k),
        Option::None => {
            if q == 0 {
                Option::None
            } else {
                proof {
                    assert(tree@[q as int].parent < q);
                }
                climb_next_kind(tree, tree.nodes[q].parent)
            }
        },
    }
}

/// Builds the replacement for a closing brace; mirrors `spec_h_close_brace`.
fn norm_close_brace(tree: &SyntaxTree, buf: &Vec<u8>, c: usize) -> (r: Vec<u8>)
    requires
        tree.wf(buf@.len() as int),
        c < tree@.len(),
    ensures
        r@ == spec_h_close_brace(tree@, buf@, c as int),
{
    proof {
        assert(node_wf(tree@, c as int));
        assert(tree@[c as int].end_byte <= buf@.len());
        if c > 0 {
            assert(tree@[c as int].parent < c);
        }
    }
    let cs = tree.nodes[c].start_byte;
    let ce = tree.nodes[c].end_byte;
    let mut out: Vec<u8> = Vec::new();
    push_range(&mut out, buf, cs, ce);
    let mut breaks: bool;
    if c != 0 {
        let p = tree.nodes[c].parent;
        let mut ends_construct = false;
        let mut anon = false;
        if p != 0 {
            proof {
                assert(tree@[p as int].parent < p);
            }
            let pp = tree.nodes[p].parent;
            match next_kind(tree, pp) {
                Option::Some(nk) => {
                    ends_construct = nk != Kind::Semicolon;
                },
                Option::None => {},
            }
            anon = tree.nodes[pp].kind == Kind::AnonymousFunction;
        }
        if ends_construct {
            breaks = true;
        } else if anon || tree.nodes[p].kind == Kind::DeclarationList {
            breaks = false;
        } else {
            breaks = match tree.next_sibling(c) {
                Option::Some(_) => false,
                Option::None => true,
            };
        }
    } else {
        breaks = match tree.next_sibling(c) {
            Option::Some(_) => false,
            Option::None => true,
        };
    }
    if breaks {
        push_lb(&mut out);
    }
    proof {
        assert(out@ =~= spec_h_close_brace(tree@, buf@, c as int));
    }
    out
}

/// Builds the normalized text of the subtree at `i`; mirrors
/// `spec_norm_block`.
fn norm_block(tree: &SyntaxTree, buf: &Vec<u8>, i: usize, fuel: usize) -> (r: Vec<u8>)
    requires
        tree.wf(buf@.len() as int),
        i < tree@.len(),
    ensures
        r@ == spec_norm_block(tree@, buf@, i as int, 0, fuel as nat),
    decreases fuel,
{
    let mut out: Vec<u8> = Vec::new();
    let cn = tree.nodes[i].children.len();
    let mut k: usize = 0;
    while k < cn
        invariant
            tree.wf(buf@.len() as int),
            i < tree@.len(),
            cn == tree@[i as int].children.len(),
            0 <= k <= cn,
            out@ + spec_norm_block(tree@, buf@, i as int, k as int, fuel as nat)
                == spec_norm_block(tree@, buf@, i as int, 0, fuel as nat),
        decreases cn - k,
    {
        proof {
            assert(node_wf(tree@, i as int));
            assert(i < tree@[i as int].children[k as int] < tree@.len());
        }
        let c = tree.nodes[i].children[k];
        let ghost out0 = out@;
        let ghost tok = if tree@[c as int].children.len() > 0 && fuel > 0 {
            spec_norm_block(tree@, buf@, c as int, 0, (fuel - 1) as nat)
        } else {
            spec_norm_token(tree@, buf@, c as int)
        };
        if tree.nodes[c].children.len() > 0 && fuel > 0 {
            let sub = norm_block(tree, buf, c, fuel - 1);
            push_all(&mut out, &sub);
        } else {
            let sub = norm_token(tree, buf, c);
            push_all(&mut out, &sub);
        }
        proof {
            assert(out@ == out0 + tok);
            assert(spec_norm_block(tree@, buf@, i as int, k as int, fuel as nat)
                == tok + spec_norm_block(tree@, buf@, i as int, k as int + 1, fuel as nat));
            assert((out0 + tok) + spec_norm_block(tree@, buf@, i as int, k as int + 1,
                fuel as nat)
                =~= out0 + (tok + spec_norm_block(tree@, buf@, i as int, k as int + 1,
                    fuel as nat)));
        }
        k += 1;
    }
    proof {
        assert(spec_norm_block(tree@, buf@, i as int, cn as int, fuel as nat)
            == Seq::<u8>::empty());
        assert(out@ + Seq::<u8>::empty() == out@);
    }
    out
}

/// Normalizes every leaf token of the whole file by the spacing policy.
pub struct NormalizerFixer {}

impl NormalizerFixer {
    /// The structural pattern whose matches this fixer rewrites.
    pub fn query(&self) -> (r: &'static str) {
        "(program) @program"
    }

    /// The replacement for the program node `i`: a fresh opening tag, the
    /// normalized text of every construct, and one final line break.
    pub fn fix(&self, tree: &SyntaxTree, i: usize, buf: &Vec<u8>) -> (r: Option<Edit>)
        requires
            tree.wf(buf@.len() as int),
            i < tree@.len(),
        ensures
            r matches Some(e) && e@.position == 0
                && e@.deleted_length == tree@[i as int].end_byte
                && e@.inserted_text == spec_norm_program(tree@, buf@, i as int),
    {
        proof {
            assert(node_wf(tree@, i as int));
        }
        let mut out: Vec<u8> = Vec::new();
        out.push(60);
        out.push(63);
        out.push(112);
        out.push(104);
        out.push(112);
        push_lb(&mut out);
        proof {
            assert(out@ =~= seq![60u8, 63u8, 112u8, 104u8, 112u8] + spec_lb());
        }
        let fuel = tree.nodes.len();
        let cn = tree.nodes[i].children.len();
        let mut k: usize = 0;
        while k < cn
            invariant
                tree.wf(buf@.len() as int),
                i < tree@.len(),
                fuel == tree@.len(),
                cn == tree@[i as int].children.len(),
                0 <= k <= cn,
                out@ + spec_norm_top(tree@, buf@, i as int, k as int, fuel as nat)
                    == seq![60u8, 63u8, 112u8, 104u8, 112u8] + spec_lb()
                        + spec_norm_top(tree@, buf@, i as int, 0, fuel as nat),
            decreases cn - k,
        {
            proof {
                assert(node_wf(tree@, i as int));
                assert(i < tree@[i as int].children[k as int] < tree@.len());
            }
            let c = tree.nodes[i].children[k];
            let ghost out0 = out@;
            let ghost tok = if tree@[c as int].children.len() > 0 && fuel > 0 {
                spec_norm_block(tree@, buf@, c as int, 0, (fuel - 1) as nat)
            } else {
                Seq::<u8>::empty()
            };
            if tree.nodes[c].children.len() > 0 && fuel > 0 {
                let sub = norm_block(tree, buf, c, fuel - 1);
                push_all(&mut out, &sub);
            }
            proof {
                assert(out@ == out0 + tok);
                assert(spec_norm_top(tree@, buf@, i as int, k as int, fuel as nat)
                    == tok + spec_norm_top(tree@, buf@, i as int, k as int + 1, fuel as nat));
                assert((out0 + tok) + spec_norm_top(tree@, buf@, i as int, k as int + 1,
                    fuel as nat)
                    =~= out0 + (tok + spec_norm_top(tree@, buf@, i as int, k as int + 1,
                        fuel as nat)));
            }
            k += 1;
        }
        proof {
            assert(spec_norm_top(tree@, buf@, i as int, cn as int, fuel as nat)
                == Seq::<u8>::empty());
            assert(out@ + Seq::<u8>::empty() == out@);
        }
        let ghost full = out@;
        while out.len() > 0 && out[out.len() - 1] == 10
            invariant
                spec_strip_lbs(out@) == spec_strip_lbs(full),
            decreases out@.len(),
        {
            out.pop();
            proof {
                assert(spec_strip_lbs(out@) == spec_strip_lbs(full));
            }
        }
        proof {
            assert(spec_strip_lbs(out@) == out@);
        }
        push_lb(&mut out);
        Some(
            Edit {
                position: 0,
                deleted_length: tree.nodes[i].end_byte,
                inserted_text: out,
            },
        )
    }
}

} // verus!
