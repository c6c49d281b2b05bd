//! The convergence engine: each fixer is driven to a fixed point by scanning
//! candidate nodes in document order, applying the first differing edit,
//! re-parsing, and restarting the scan; a pipeline threads the buffer through
//! its fixers in order. The whole run is a function of the input bytes alone,
//! so the engine's contract is stated against a specification-level mirror of
//! the run, and idempotence is proved from it.

use vstd::prelude::*;

use crate::edit::{Edit, SpecEdit, spec_apply_edit, perform_edit};
use crate::kind::Kind;
use crate::provider::{php_parses, php_raw, parse_php, tree_nodes};
use crate::syntax::{SyntaxTree, SpecNode, spec_build, build_tree, tree_wf, node_wf};
use crate::fixers::array_bracket_space::{ArrayBracketSpaceFixer, spec_array_text};
use crate::fixers::declare_directive_existence::{
    DeclareDirectiveExistenceFixer, spec_needs_directive, spec_directive_text,
};
use crate::fixers::declare_directive_space::{DeclareDirectiveSpaceFixer, spec_declare_text};
use crate::fixers::function_arguments_space::{FunctionArgumentsSpaceFixer, spec_args_text};
use crate::fixers::header_line::{HeaderLineFixer, spec_header_text};
use crate::fixers::indent::{IdentFixer, spec_indent_fix};
use crate::fixers::indent_bracket_body::IndentBracketBodyFixer;
use crate::fixers::indent_chained_call::{
    IndentChainedCallFixer, spec_is_chain_root, spec_chain_text,
};
use crate::fixers::normalizer::{NormalizerFixer, spec_norm_program};
use crate::fixers::remove_unused_imports::RemoveUnusedImportsFixer;

verus! {

/// Why a run stopped: the provider produced no tree, a fixer met a construct
/// it does not support (or produced a malformed edit), or a fixer failed to
/// converge within the edit budget.
#[derive(Clone, Copy, PartialEq, Eq, Structural, Debug)]
pub enum FixerError {
    ParseFailure,
    UnsupportedConstruct,
    NonConvergence,
}

/// One fixer of the pipeline.
pub enum Fixer {
    ArrayBracketSpace(ArrayBracketSpaceFixer),
    DeclareDirectiveExistence(DeclareDirectiveExistenceFixer),
    DeclareDirectiveSpace(DeclareDirectiveSpaceFixer),
    FunctionArgumentsSpace(FunctionArgumentsSpaceFixer),
    HeaderLine(HeaderLineFixer),
    IndentBracketBody(IndentBracketBodyFixer),
    Ident(IdentFixer),
    IndentChainedCall(IndentChainedCallFixer),
    Normalizer(NormalizerFixer),
    RemoveUnusedImports(RemoveUnusedImportsFixer),
}

/// Whether node `i` matches the fixer's structural pattern.
pub open spec fn spec_is_candidate(f: Fixer, m: Seq<SpecNode>, i: int) -> bool {
    match f {
        Fixer::ArrayBracketSpace(_) => m[i].kind == Kind::ArrayCreationExpression,
        Fixer::DeclareDirectiveExistence(_) => m[i].kind == Kind::PhpTag,
        Fixer::DeclareDirectiveSpace(_) => m[i].kind == Kind::DeclareStatement
            || m[i].kind == Kind::DeclareDirective,
        Fixer::FunctionArgumentsSpace(_) => m[i].kind == Kind::Arguments
            && m[m[i].parent as int].kind == Kind::FunctionCallExpression,
        Fixer::HeaderLine(_) => m[i].kind == Kind::Program,
        Fixer::IndentBracketBody(_) => m[i].kind == Kind::DeclarationList
            && m[m[i].parent as int].kind == Kind::ClassDeclaration
            && m[i].field == crate::syntax::FieldTag::Body,
        Fixer::Ident(_) => m[i].kind == Kind::DeclarationList
            && m[m[i].parent as int].kind == Kind::ClassDeclaration
            && m[i].field == crate::syntax::FieldTag::Body,
        Fixer::IndentChainedCall(_) => m[i].kind == Kind::MemberCallExpression,
        Fixer::Normalizer(_) => m[i].kind == Kind::Program,
        Fixer::RemoveUnusedImports(_) => m[i].kind == Kind::NamespaceUseDeclaration,
    }
}

/// The edit the fixer computes for candidate node `i`, if any.
pub open spec fn spec_fix(f: Fixer, m: Seq<SpecNode>, s: Seq<u8>, i: int) -> Result<
    Option<SpecEdit>,
    FixerError,
> {
    let node_edit = |ins: Seq<u8>| Result::<Option<SpecEdit>, FixerError>::Ok(
        Option::Some(
            SpecEdit {
                position: m[i].start_byte,
                deleted_length: (m[i].end_byte - m[i].start_byte) as usize,
                inserted_text: ins,
            },
        ),
    );
    match f {
        Fixer::ArrayBracketSpace(_) => node_edit(spec_array_text(m, s, i, 0)),
        Fixer::DeclareDirectiveExistence(_) => if spec_needs_directive(m, i) {
            node_edit(spec_directive_text())
        } else {
            Result::Ok(Option::None)
        },
        Fixer::DeclareDirectiveSpace(_) => node_edit(spec_declare_text(m, s, i, 0)),
        Fixer::FunctionArgumentsSpace(_) => node_edit(spec_args_text(m, s, i, 0)),
        Fixer::HeaderLine(_) => Result::Ok(
            Option::Some(
                SpecEdit {
                    position: 0,
                    deleted_length: m[i].end_byte,
                    inserted_text: spec_header_text(m, s, i, 0),
                },
            ),
        ),
        Fixer::IndentBracketBody(_) => spec_indent_fix(m, s, i, true),
        Fixer::Ident(_) => spec_indent_fix(m, s, i, false),
        Fixer::IndentChainedCall(_) => if spec_is_chain_root(m, i) {
            node_edit(spec_chain_text(m, s, i))
        } else {
            Result::Ok(Option::None)
        },
        Fixer::Normalizer(_) => Result::Ok(
            Option::Some(
                SpecEdit {
                    position: 0,
                    deleted_length: m[i].end_byte,
                    inserted_text: spec_norm_program(m, s, i),
                },
            ),
        ),
        Fixer::RemoveUnusedImports(_) => Result::Err(FixerError::UnsupportedConstruct),
    }
}

/// The model of a buffer: what parsing and validating it yields, if anything.
pub open spec fn spec_model_of(s: Seq<u8>) -> Option<Seq<SpecNode>> {
    if php_parses(s) {
        spec_build(php_raw(s), s.len() as int)
    } else {
        Option::None
    }
}

/// The first differing, applicable edit that scanning candidates from index
/// `i` on yields: `Ok(None)` when no candidate produces one (the fixed point),
/// the error when a fixer signals one or produces a malformed edit.
pub open spec fn spec_scan(f: Fixer, m: Seq<SpecNode>, s: Seq<u8>, i: int) -> Result<
    Option<SpecEdit>,
    FixerError,
>
    decreases m.len() - i when 0 <= i
{
    if i >= m.len() {
        Result::Ok(Option::None)
    } else if spec_is_candidate(f, m, i) {
        match spec_fix(f, m, s, i) {
            Result::Err(e) => Result::Err(e),
            Result::Ok(Option::None) => spec_scan(f, m, s, i + 1),
            Result::Ok(Option::Some(e)) => if !e.valid(s.len() as int) {
                Result::Err(FixerError::UnsupportedConstruct)
            } else if e.inserted_text == s.subrange(
                e.position as int,
                e.position + e.deleted_length,
            ) {
                spec_scan(f, m, s, i + 1)
            } else {
                Result::Ok(Option::Some(e))
            },
        }
    } else {
        spec_scan(f, m, s, i + 1)
    }
}

/// One fixer driven to its fixed point with an edit budget of `fuel`.
pub open spec fn spec_run(f: Fixer, s: Seq<u8>, fuel: nat) -> Result<Seq<u8>, FixerError>
    decreases fuel,
{
    match spec_model_of(s) {
        Option::None => Result::Err(FixerError::ParseFailure),
        Option::Some(m) => match spec_scan(f, m, s, 0) {
            Result::Err(e) => Result::Err(e),
            Result::Ok(Option::None) => Result::Ok(s),
            Result::Ok(Option::Some(e)) => if fuel == 0 {
                Result::Err(FixerError::NonConvergence)
            } else {
                spec_run(
                    f,
                    spec_apply_edit(
                        s,
                        e.position as int,
                        e.deleted_length as int,
                        e.inserted_text,
                    ),
                    (fuel - 1) as nat,
                )
            },
        },
    }
}

/// The number of edits the run applies within its budget.
pub open spec fn spec_run_edits(f: Fixer, s: Seq<u8>, fuel: nat) -> int
    decreases fuel,
{
    match spec_model_of(s) {
        Option::None => 0,
        Option::Some(m) => match spec_scan(f, m, s, 0) {
            Result::Err(e) => 0,
            Result::Ok(Option::None) => 0,
            Result::Ok(Option::Some(e)) => if fuel == 0 {
                0
            } else {
                1 + spec_run_edits(
                    f,
                    spec_apply_edit(
                        s,
                        e.position as int,
                        e.deleted_length as int,
                        e.inserted_text,
                    ),
                    (fuel - 1) as nat,
                )
            },
        },
    }
}

/// The edit budget for one fixer on a buffer: one more than the node count of
/// its parse, so a converging fixer is never cut off and a non-converging one
/// is reported after a number of edits linear in the input's size.
pub open spec fn spec_fuel(s: Seq<u8>) -> nat {
    match spec_model_of(s) {
        Option::Some(m) => m.len(),
        Option::None => 0,
    }
}

/// What running one fixer on a buffer yields.
pub open spec fn spec_run_fixer(f: Fixer, s: Seq<u8>) -> Result<Seq<u8>, FixerError> {
    spec_run(f, s, spec_fuel(s))
}

/// A buffer is a fixed point of a fixer when it parses and no candidate
/// produces a differing edit.
pub open spec fn spec_fixed_point(f: Fixer, s: Seq<u8>) -> bool {
    &&& spec_model_of(s) is Some
    &&& spec_scan(f, spec_model_of(s).unwrap(), s, 0) == Result::<
        Option<SpecEdit>,
        FixerError,
    >::Ok(Option::None)
}

/// A successful run ends at a fixed point of the fixer.
proof fn lemma_run_reaches_fixed_point(f: Fixer, s: Seq<u8>, fuel: nat, t: Seq<u8>)
    requires
        spec_run(f, s, fuel) == Result::<Seq<u8>, FixerError>::Ok(t),
    ensures
        spec_fixed_point(f, t),
    decreases fuel,
{
    let m = spec_model_of(s).unwrap();
    match spec_scan(f, m, s, 0) {
        Result::Err(e) => {},
        Result::Ok(Option::None) => {},
        Result::Ok(Option::Some(e)) => {
            lemma_run_reaches_fixed_point(
                f,
                spec_apply_edit(s, e.position as int, e.deleted_length as int, e.inserted_text),
                (fuel - 1) as nat,
                t,
            );
        },
    }
}

/// A fixed point is returned unchanged, whatever the budget.
proof fn lemma_run_on_fixed_point(f: Fixer, s: Seq<u8>, fuel: nat)
    requires
        spec_fixed_point(f, s),
    ensures
        spec_run(f, s, fuel) == Result::<Seq<u8>, FixerError>::Ok(s),
{
}

/// Idempotence: running a fixer on the output of a successful run returns
/// that output unchanged.
pub proof fn lemma_fixer_idempotent(f: Fixer, s: Seq<u8>, t: Seq<u8>)
    requires
        spec_run_fixer(f, s) == Result::<Seq<u8>, FixerError>::Ok(t),
    ensures
        spec_run_fixer(f, t) == Result::<Seq<u8>, FixerError>::Ok(t),
{
    lemma_run_reaches_fixed_point(f, s, spec_fuel(s), t);
    lemma_run_on_fixed_point(f, t, spec_fuel(t));
}

/// Convergence boundedness: a run applies at most `fuel` edits, and the budget
/// the engine grants is one more than the parsed node count.
pub proof fn lemma_convergence_bounded(f: Fixer, s: Seq<u8>, fuel: nat)
    ensures
        spec_run_edits(f, s, fuel) <= fuel,
        spec_model_of(s) matches Option::Some(m) ==> spec_fuel(s) == m.len(),
    decreases fuel,
{
    match spec_model_of(s) {
        Option::None => {},
        Option::Some(m) => match spec_scan(f, m, s, 0) {
            Result::Err(e) => {},
            Result::Ok(Option::None) => {},
            Result::Ok(Option::Some(e)) => if fuel > 0 {
                lemma_convergence_bounded(
                    f,
                    spec_apply_edit(
                        s,
                        e.position as int,
                        e.deleted_length as int,
                        e.inserted_text,
                    ),
                    (fuel - 1) as nat,
                );
            },
        },
    }
}


/// Parses a buffer and builds its model, if both succeed.
pub fn model_of(buf: &Vec<u8>) -> (r: Option<SyntaxTree>)
    ensures
        match r {
            Option::Some(t) => {
                &&& spec_model_of(buf@) == Option::Some(t@)
                &&& t.wf(buf@.len() as int)
            },
            Option::None => spec_model_of(buf@) is None,
        },
{
    match parse_php(buf) {
        Option::None => Option::None,
        Option::Some(tree) => {
            let raw = tree_nodes(&tree);
            build_tree(&raw, buf.len())
        },
    }
}

/// Whether the bytes of `v` equal the buffer's bytes in `[a, b)`.
fn range_eq(buf: &Vec<u8>, a: usize, b: usize, v: &Vec<u8>) -> (r: bool)
    requires
        a <= b <= buf@.len(),
    ensures
        r == (v@ == buf@.subrange(a as int, b as int)),
{
    if v.len() != b - a {
        proof {
            assert(v@ != buf@.subrange(a as int, b as int));
        }
        return false;
    }
    let mut i: usize = 0;
    while i < v.len()
        invariant
            a <= b <= buf@.len(),
            v@.len() == b - a,
            0 <= i <= v@.len(),
            forall|k: int| 0 <= k < i ==> v@[k] == buf@.subrange(a as int, b as int)[k],
        decreases v@.len() - i,
    {
        if v[i] != buf[a + i] {
            proof {
                assert(buf@.subrange(a as int, b as int)[i as int] == buf@[a + i]);
            }
            return false;
        }
        i += 1;
    }
    proof {
        assert(v@ =~= buf@.subrange(a as int, b as int));
    }
    true
}

impl Fixer {
    /// The structural pattern whose matches this fixer rewrites.
    pub fn query(&self) -> (r: &'static str) {
        match self {
            Fixer::ArrayBracketSpace(f) => f.query(),
            Fixer::DeclareDirectiveExistence(f) => f.query(),
            Fixer::DeclareDirectiveSpace(f) => f.query(),
            Fixer::FunctionArgumentsSpace(f) => f.query(),
            Fixer::HeaderLine(f) => f.query(),
            Fixer::IndentBracketBody(f) => f.query(),
            Fixer::Ident(f) => f.query(),
            Fixer::IndentChainedCall(f) => f.query(),
            Fixer::Normalizer(f) => f.query(),
            Fixer::RemoveUnusedImports(f) => f.query(),
        }
    }

    /// Whether node `i` matches this fixer's pattern.
    fn is_candidate(&self, tree: &SyntaxTree, i: usize) -> (r: bool)
        requires
            crate::syntax::struct_wf(tree@),
            i < tree@.len(),
        ensures
            r == spec_is_candidate(*self, tree@, i as int),
    {
        match self {
            Fixer::ArrayBracketSpace(_) => tree.nodes[i].kind == Kind::ArrayCreationExpression,
            Fixer::DeclareDirectiveExistence(_) => tree.nodes[i].kind == Kind::PhpTag,
            Fixer::DeclareDirectiveSpace(_) => tree.nodes[i].kind == Kind::DeclareStatement
                || tree.nodes[i].kind == Kind::DeclareDirective,
            Fixer::FunctionArgumentsSpace(_) => {
                if tree.nodes[i].kind == Kind::Arguments {
                    proof {
                        if i > 0 {
                            assert(tree@[i as int].parent < i);
                        }
                    }
                    let p = tree.nodes[i].parent;
                    tree.nodes[p].kind == Kind::FunctionCallExpression
                } else {
                    false
                }
            },
            Fixer::HeaderLine(_) => tree.nodes[i].kind == Kind::Program,
            Fixer::IndentBracketBody(_) | Fixer::Ident(_) => {
                if tree.nodes[i].kind == Kind::DeclarationList {
                    proof {
                        if i > 0 {
                            assert(tree@[i as int].parent < i);
                        }
                    }
                    let p = tree.nodes[i].parent;
                    tree.nodes[p].kind == Kind::ClassDeclaration
                        && tree.nodes[i].field == crate::syntax::FieldTag::Body
                } else {
                    false
                }
            },
            Fixer::IndentChainedCall(_) => tree.nodes[i].kind == Kind::MemberCallExpression,
            Fixer::Normalizer(_) => tree.nodes[i].kind == Kind::Program,
            Fixer::RemoveUnusedImports(_) => tree.nodes[i].kind
                == Kind::NamespaceUseDeclaration,
        }
    }

    /// The edit this fixer computes for node `i`, if any.
    fn fix(&self, tree: &SyntaxTree, i: usize, buf: &Vec<u8>) -> (r: Result<
        Option<Edit>,
        FixerError,
    >)
        requires
            tree.wf(buf@.len() as int),
            i < tree@.len(),
        ensures
            match r {
                Result::Ok(Option::Some(e)) => spec_fix(*self, tree@, buf@, i as int)
                    == Result::<Option<SpecEdit>, FixerError>::Ok(Option::Some(e@)),
                Result::Ok(Option::None) => spec_fix(*self, tree@, buf@, i as int)
                    == Result::<Option<SpecEdit>, FixerError>::Ok(
                    Option::<SpecEdit>::None,
                ),
                Result::Err(e) => spec_fix(*self, tree@, buf@, i as int)
                    == Result::<Option<SpecEdit>, FixerError>::Err(e),
            },
    {
        proof {
            assert(node_wf(tree@, i as int));
        }
        match self {
            Fixer::ArrayBracketSpace(f) => Result::Ok(f.fix(tree, i, buf)),
            Fixer::DeclareDirectiveExistence(f) => Result::Ok(f.fix(tree, i, buf)),
            Fixer::DeclareDirectiveSpace(f) => Result::Ok(f.fix(tree, i, buf)),
            Fixer::FunctionArgumentsSpace(f) => Result::Ok(f.fix(tree, i, buf)),
            Fixer::HeaderLine(f) => Result::Ok(f.fix(tree, i, buf)),
            Fixer::IndentBracketBody(f) => f.fix(tree, i, buf),
            Fixer::Ident(f) => f.fix(tree, i, buf),
            Fixer::IndentChainedCall(f) => Result::Ok(f.fix(tree, i, buf)),
            Fixer::Normalizer(f) => Result::Ok(f.fix(tree, i, buf)),
            Fixer::RemoveUnusedImports(f) => f.fix(tree, i, buf),
        }
    }

    /// Scans candidates in document order and returns the first differing,
    /// applicable edit, the fixed point (`Ok(None)`), or a fixer's error.
    fn scan(&self, tree: &SyntaxTree, buf: &Vec<u8>) -> (r: Result<Option<Edit>, FixerError>)
        requires
            tree.wf(buf@.len() as int),
        ensures
            match r {
                Result::Ok(Option::Some(e)) => {
                    &&& spec_scan(*self, tree@, buf@, 0)
                        == Result::<Option<SpecEdit>, FixerError>::Ok(Option::Some(e@))
                    &&& e@.valid(buf@.len() as int)
                },
                Result::Ok(Option::None) => spec_scan(*self, tree@, buf@, 0)
                    == Result::<Option<SpecEdit>, FixerError>::Ok(Option::<SpecEdit>::None),
                Result::Err(e) => spec_scan(*self, tree@, buf@, 0)
                    == Result::<Option<SpecEdit>, FixerError>::Err(e),
            },
    {
        let n = tree.nodes.len();
        let blen = buf.len();
        let mut i: usize = 0;
        while i < n
            invariant
                tree.wf(buf@.len() as int),
                n == tree@.len(),
                blen == buf@.len(),
                0 <= i <= n,
                spec_scan(*self, tree@, buf@, 0) == spec_scan(*self, tree@, buf@, i as int),
            decreases n - i,
        {
            if self.is_candidate(tree, i) {
                match self.fix(tree, i, buf) {
                    Result::Err(e) => {
                        return Result::Err(e);
                    },
                    Result::Ok(Option::None) => {},
                    Result::Ok(Option::Some(e)) => {
                        let valid = e.deleted_length <= blen
                            && e.position <= blen - e.deleted_length
                            && e.inserted_text.len() <= usize::MAX - (blen - e.deleted_length);
                        if !valid {
                            return Result::Err(FixerError::UnsupportedConstruct);
                        }
                        if !range_eq(buf, e.position, e.position + e.deleted_length,
                            &e.inserted_text) {
                            return Result::Ok(Option::Some(e));
                        }
                    },
                }
            }
            i += 1;
        }
        Result::Ok(Option::None)
    }

    /// Drives this fixer to its fixed point on the buffer. On success the
    /// buffer holds the transformed text; on any error it is left unmodified.
    pub fn execute(&self, source_code: &mut Vec<u8>) -> (r: Result<(), FixerError>)
        ensures
            r matches Ok(u) ==> spec_run_fixer(*self, old(source_code)@)
                == Result::<Seq<u8>, FixerError>::Ok(final(source_code)@),
            r matches Err(e) ==> spec_run_fixer(*self, old(source_code)@)
                == Result::<Seq<u8>, FixerError>::Err(e)
                && final(source_code)@ == old(source_code)@,
    {
        let mut cur: Vec<u8> = Vec::new();
        crate::bytes::push_all(&mut cur, source_code);
        proof {
            assert(cur@ == old(source_code)@);
        }
        let t0 = match model_of(&cur) {
            Option::None => {
                return Result::Err(FixerError::ParseFailure);
            },
            Option::Some(t) => t,
        };
        let mut fuel: usize = t0.nodes.len();
        let mut tree = t0;
        let ghost target = spec_run_fixer(*self, old(source_code)@);
        proof {
            assert(spec_fuel(old(source_code)@) == fuel as nat);
            assert(spec_run(*self, cur@, fuel as nat) == target);
        }
        loop
            invariant
                tree.wf(cur@.len() as int),
                spec_model_of(cur@) == Option::Some(tree@),
                spec_run(*self, cur@, fuel as nat) == target,
                target == spec_run_fixer(*self, old(source_code)@),
                source_code@ == old(source_code)@,
            decreases fuel,
        {
            match self.scan(&tree, &cur) {
                Result::Err(e) => {
                    proof {
                        assert(spec_run(*self, cur@, fuel as nat)
                            == Result::<Seq<u8>, FixerError>::Err(e));
                    }
                    return Result::Err(e);
                },
                Result::Ok(Option::None) => {
                    proof {
                        assert(spec_run(*self, cur@, fuel as nat)
                            == Result::<Seq<u8>, FixerError>::Ok(cur@));
                        assert(target == Result::<Seq<u8>, FixerError>::Ok(cur@));
                    }
                    *source_code = cur;
                    return Result::Ok(());
                },
                Result::Ok(Option::Some(e)) => {
                    if fuel == 0 {
                        proof {
                            assert(spec_run(*self, cur@, 0nat)
                                == Result::<Seq<u8>, FixerError>::Err(
                                FixerError::NonConvergence,
                            ));
                        }
                        return Result::Err(FixerError::NonConvergence);
                    }
                    let ghost pre = cur@;
                    perform_edit(&mut cur, &e);
                    proof {
                        assert(cur@ == spec_apply_edit(pre, e@.position as int,
                            e@.deleted_length as int, e@.inserted_text));
                        assert(spec_run(*self, pre, fuel as nat)
                            == spec_run(*self, cur@, (fuel - 1) as nat));
                    }
                    fuel = fuel - 1;
                    match model_of(&cur) {
                        Option::None => {
                            proof {
                                assert(spec_run(*self, cur@, (fuel + 1) as nat)
                                    == Result::<Seq<u8>, FixerError>::Err(
                                    FixerError::ParseFailure,
                                ));
                            }
                            return Result::Err(FixerError::ParseFailure);
                        },
                        Option::Some(t) => {
                            tree = t;
                        },
                    }
                },
            }
        }
    }
}

/// What running a pipeline of fixers in order yields.
pub open spec fn spec_run_pipeline(fs: Seq<Fixer>, s: Seq<u8>) -> Result<Seq<u8>, FixerError>
    decreases fs.len(),
{
    if fs.len() == 0 {
        Result::Ok(s)
    } else {
        match spec_run_fixer(fs[0], s) {
            Result::Ok(t) => spec_run_pipeline(fs.skip(1), t),
            Result::Err(e) => Result::Err(e),
        }
    }
}

/// An ordered pipeline of fixers, run left to right, each to its fixed point.
pub struct FixerRunner {
    pub fixers: Vec<Fixer>,
}

impl FixerRunner {
    /// An empty pipeline.
    pub fn new() -> (r: FixerRunner)
        ensures
            r.fixers@.len() == 0,
    {
        FixerRunner { fixers: Vec::new() }
    }

    /// Appends a fixer to the pipeline.
    pub fn add_fixer(&mut self, fixer: Fixer)
        ensures
            final(self).fixers@ == old(self).fixers@.push(fixer),
    {
        self.fixers.push(fixer);
    }

    /// Runs every fixer in order on the buffer. On success the buffer holds
    /// the fully transformed text; on any error it is left unmodified.
    pub fn execute(&self, source_code: &mut Vec<u8>) -> (r: Result<(), FixerError>)
        ensures
            r matches Ok(u) ==> spec_run_pipeline(self.fixers@, old(source_code)@)
                == Result::<Seq<u8>, FixerError>::Ok(final(source_code)@),
            r matches Err(e) ==> spec_run_pipeline(self.fixers@, old(source_code)@)
                == Result::<Seq<u8>, FixerError>::Err(e)
                && final(source_code)@ == old(source_code)@,
    {
        let mut cur: Vec<u8> = Vec::new();
        crate::bytes::push_all(&mut cur, source_code);
        proof {
            assert(cur@ =~= old(source_code)@);
            assert(self.fixers@.skip(0) =~= self.fixers@);
        }
        let n = self.fixers.len();
        let mut k: usize = 0;
        while k < n
            invariant
                n == self.fixers@.len(),
                0 <= k <= n,
                spec_run_pipeline(self.fixers@.skip(k as int), cur@)
                    == spec_run_pipeline(self.fixers@, old(source_code)@),
            decreases n - k,
        {
            proof {
                assert(self.fixers@.skip(k as int)[0] == self.fixers@[k as int]);
            }
            match self.fixers[k].execute(&mut cur) {
                Result::Ok(u) => {},
                Result::Err(e) => {
                    proof {
                        assert(spec_run_pipeline(self.fixers@.skip(k as int), cur@)
                            == Result::<Seq<u8>, FixerError>::Err(e));
                    }
                    return Result::Err(e);
                },
            }
            proof {
                assert(self.fixers@.skip(k as int).skip(1)
                    =~= self.fixers@.skip(k as int + 1));
            }
            k += 1;
        }
        proof {
            assert(self.fixers@.skip(n as int).len() == 0);
        }
        *source_code = cur;
        Result::Ok(())
    }
}

/// Runs one fixer on a buffer and returns the transformed bytes.
pub fn run_fixer(source_code: Vec<u8>, fixer: Fixer) -> (r: Result<Vec<u8>, FixerError>)
    ensures
        r matches Ok(o) ==> spec_run_fixer(fixer, source_code@)
            == Result::<Seq<u8>, FixerError>::Ok(o@),
        r matches Err(e) ==> spec_run_fixer(fixer, source_code@)
            == Result::<Seq<u8>, FixerError>::Err(e),
{
    let mut buf = source_code;
    match fixer.execute(&mut buf) {
        Result::Ok(u) => Result::Ok(buf),
        Result::Err(e) => Result::Err(e),
    }
}

/// A test harness around a pipeline: collects fixers, an input and an expected
/// output, and reports whether running the pipeline turns the one into the
/// other.
pub struct FixerTestRunner {
    pub fixers: Vec<Fixer>,
    pub input: Option<Vec<u8>>,
    pub output: Option<Vec<u8>>,
}

impl FixerTestRunner {
    /// An empty harness.
    pub fn new() -> (r: FixerTestRunner)
        ensures
            r.fixers@.len() == 0,
            r.input is None,
            r.output is None,
    {
        FixerTestRunner { fixers: Vec::new(), input: Option::None, output: Option::None }
    }

    /// Appends a fixer to the pipeline under test.
    pub fn with_fixer(&mut self, fixer: Fixer)
        ensures
            final(self).fixers@ == old(self).fixers@.push(fixer),
            final(self).input == old(self).input,
            final(self).output == old(self).output,
    {
        self.fixers.push(fixer);
    }

    /// Sets the input text.
    pub fn with_input(&mut self, input: Vec<u8>)
        ensures
            final(self).input == Option::Some(input),
            final(self).fixers == old(self).fixers,
            final(self).output == old(self).output,
    {
        self.input = Option::Some(input);
    }

    /// Sets the expected output text.
    pub fn with_expected_output(&mut self, output: Vec<u8>)
        ensures
            final(self).output == Option::Some(output),
            final(self).fixers == old(self).fixers,
            final(self).input == old(self).input,
    {
        self.output = Option::Some(output);
    }

    /// Runs the pipeline on the input and reports whether it succeeds and
    /// produces exactly the expected output; false when input or output is
    /// missing.
    pub fn check(self) -> (r: bool)
        ensures
            r ==> (self.input matches Some(i) && self.output matches Some(o)
                && spec_run_pipeline(self.fixers@, i@)
                == Result::<Seq<u8>, FixerError>::Ok(o@)),
    {
        let FixerTestRunner { fixers, input, output } = self;
        let mut buf = match input {
            Option::Some(i) => i,
            Option::None => {
                return false;
            },
        };
        let expected = match output {
            Option::Some(o) => o,
            Option::None => {
                return false;
            },
        };
        let runner = FixerRunner { fixers };
        match runner.execute(&mut buf) {
            Result::Ok(u) => {
                let n = buf.len();
                if expected.len() != n {
                    return false;
                }
                let same = range_eq(&buf, 0, n, &expected);
                proof {
                    if same {
                        assert(buf@.subrange(0, n as int) =~= buf@);
                    }
                }
                same
            },
            Result::Err(e) => false,
        }
    }
}

} // verus!
