//! The syntax provider: the one place where the crate talks to the
//! tree-sitter parser. Parsing yields an opaque tree; the tree is then
//! flattened into plain pre-order records, which verified code validates and
//! turns into the crate's own model (see `syntax`).

use vstd::prelude::*;

verus! {

/// One node of the parsed tree, as a plain record: the node's kind name (as
/// bytes of its grammar name, e.g. `member_call_expression` or `{`), whether
/// the grammar marks it as a named node, the field name this node occupies in
/// its parent (if any), its half-open byte range, and the index of its parent
/// in the pre-order record list (the root carries its own index, 0).
pub struct RawNode {
    pub kind: String,
    pub named: bool,
    pub field: Option<String>,
    pub start_byte: usize,
    pub end_byte: usize,
    pub parent: usize,
}

#[verifier::external_type_specification]
#[verifier::external_body]
pub struct ExTree(tree_sitter::Tree);

/// The pre-order record list of a parsed tree. Named, not written out: the
/// grammar decides it.
pub uninterp spec fn raw_of(t: tree_sitter::Tree) -> Seq<RawNode>;

/// The pre-order record list that parsing a given byte sequence produces.
/// The grammar is a fixed function of the bytes alone, so the records are too.
pub uninterp spec fn php_raw(src: Seq<u8>) -> Seq<RawNode>;

/// Whether parsing a given byte sequence yields a tree at all.
pub uninterp spec fn php_parses(src: Seq<u8>) -> bool;

/// Relies on tree_sitter::Parser (new, set_language, parse) with the PHP
/// grammar of tree_sitter_php: with a language set and neither a timeout nor
/// a cancellation flag, parse returns a tree, and the tree is a function of
/// the input bytes alone.
#[verifier::external_body]
pub fn parse_php(src: &Vec<u8>) -> (r: Option<tree_sitter::Tree>)
    ensures
        r is Some <==> php_parses(src@),
        r matches Some(t) ==> raw_of(t) == php_raw(src@),
{
    let mut parser = tree_sitter::Parser::new();
    parser.set_language(&tree_sitter_php::LANGUAGE_PHP.into()).ok()?;
    parser.parse(src, None)
}

/// Relies on tree_sitter::Node (child, child_count, kind, is_named,
/// field_name_for_child, start_byte, end_byte) to list the tree's nodes in
/// pre-order, each converted to a plain record.
#[verifier::external_body]
pub fn tree_nodes(tree: &tree_sitter::Tree) -> (r: Vec<RawNode>)
    ensures
        r@ == raw_of(*tree),
{
    let mut out: Vec<RawNode> = Vec::new();
    let mut stack = vec![(tree.root_node(), 0, None)];
    while let Some((n, parent, field)) = stack.pop() {
        let idx = out.len();
        let (kind, named) = (n.kind().to_string(), n.is_named());
        let (start_byte, end_byte) = (n.start_byte(), n.end_byte());
        out.push(RawNode { kind, named, field, start_byte, end_byte, parent });
        for i in (0..n.child_count()).rev() {
            let f = n.field_name_for_child(i).map(str::to_string);
            stack.push((n.child(i).unwrap(), idx, f));
        }
    }
    out
}

} // verus!
