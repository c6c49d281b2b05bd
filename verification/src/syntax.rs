//! The crate's own model of a parsed syntax tree: a pre-order arena of nodes,
//! each with its kind, byte range, parent and children. The model is built by
//! `build_tree` from the plain records the provider hands out; the build
//! validates every structural invariant, so all code downstream works on a
//! well-formed tree without trusting the parser for anything but the shape it
//! reported.

use vstd::prelude::*;

use crate::kind::{Kind, kind_of_name, classify_kind};
use crate::provider::RawNode;

verus! {

/// The field a node occupies in its parent, for the two field names the
/// rewriting rules look at.
#[derive(Clone, Copy, PartialEq, Eq, Structural, Debug)]
pub enum FieldTag {
    Body,
    Right,
    NoField,
    OtherField,
}

/// The field tag that a reported field name denotes.
#[verifier::opaque]
pub open spec fn field_tag_of(f: Option<String>) -> FieldTag {
    match f {
        Option::None => FieldTag::NoField,
        Option::Some(s) => if s@ == "body"@ {
            FieldTag::Body
        } else if s@ == "right"@ {
            FieldTag::Right
        } else {
            FieldTag::OtherField
        },
    }
}

/// Classifies a reported field name.
pub fn classify_field(f: &Option<String>) -> (r: FieldTag)
    ensures
        r == field_tag_of(*f),
{
    proof {
        reveal(field_tag_of);
    }
    match f {
        Option::None => FieldTag::NoField,
        Option::Some(s) => if *s == "body".to_owned() {
            FieldTag::Body
        } else if *s == "right".to_owned() {
            FieldTag::Right
        } else {
            FieldTag::OtherField
        },
    }
}

/// One node of the model. `parent` is the arena index of the parent (the root
/// holds 0, its own index) and `child_index` the node's position among its
/// parent's children.
pub struct SyntaxNode {
    pub kind: Kind,
    pub named: bool,
    pub field: FieldTag,
    pub start_byte: usize,
    pub end_byte: usize,
    pub parent: usize,
    pub child_index: usize,
    pub children: Vec<usize>,
}

/// The mathematical value of a node.
pub struct SpecNode {
    pub kind: Kind,
    pub named: bool,
    pub field: FieldTag,
    pub start_byte: usize,
    pub end_byte: usize,
    pub parent: usize,
    pub child_index: usize,
    pub children: Seq<usize>,
}

impl View for SyntaxNode {
    type V = SpecNode;

    open spec fn view(&self) -> SpecNode {
        SpecNode {
            kind: self.kind,
            named: self.named,
            field: self.field,
            start_byte: self.start_byte,
            end_byte: self.end_byte,
            parent: self.parent,
            child_index: self.child_index,
            children: self.children@,
        }
    }
}

/// The arena. Index 0 is the root; children always carry larger indices than
/// their parent, so index order is document (pre-)order.
pub struct SyntaxTree {
    pub nodes: Vec<SyntaxNode>,
}

impl View for SyntaxTree {
    type V = Seq<SpecNode>;

    open spec fn view(&self) -> Seq<SpecNode> {
        self.nodes@.map_values(|n: SyntaxNode| n@)
    }
}

/// Well-formedness of one node's child list within a model of `len` nodes:
/// children lie strictly after the node in pre-order, point back at it, sit at
/// their recorded position, and their byte ranges are ordered, disjoint and
/// contained in the node's range.
pub open spec fn node_wf(m: Seq<SpecNode>, i: int) -> bool {
    let nd = m[i];
    &&& nd.start_byte <= nd.end_byte
    &&& forall|k: int| #![trigger nd.children[k]] 0 <= k < nd.children.len() ==> {
        let c = nd.children[k] as int;
        &&& i < c < m.len()
        &&& m[c].parent == i
        &&& m[c].child_index == k
        &&& nd.start_byte <= m[c].start_byte
        &&& m[c].end_byte <= nd.end_byte
    }
    &&& forall|k: int| #![trigger nd.children[k], nd.children[k - 1]]
        1 <= k < nd.children.len() ==> {
            &&& nd.children[k - 1] < nd.children[k]
            &&& m[nd.children[k - 1] as int].end_byte <= m[nd.children[k] as int].start_byte
        }
}

/// Structural well-formedness of the whole model: every node's child list is
/// well formed and every non-root node stands in its parent's child list at
/// its recorded position.
pub open spec fn struct_wf(m: Seq<SpecNode>) -> bool {
    &&& 1 <= m.len()
    &&& m[0].parent == 0
    &&& forall|i: int| 0 <= i < m.len() ==> node_wf(m, i)
    &&& forall|i: int| #![trigger m[i].parent] 1 <= i < m.len() ==> {
        let nd = m[i];
        &&& nd.parent < i
        &&& nd.child_index < m[nd.parent as int].children.len()
        &&& m[nd.parent as int].children[nd.child_index as int] == i
    }
}

/// Well-formedness of the whole model over a buffer of `n` bytes.
pub open spec fn tree_wf(m: Seq<SpecNode>, n: int) -> bool {
    &&& struct_wf(m)
    &&& forall|i: int| #![trigger m[i].end_byte] 0 <= i < m.len() ==> m[i].end_byte <= n
}

impl SyntaxTree {
    /// Structural well-formedness over a buffer of `n` bytes.
    pub open spec fn wf(&self, n: int) -> bool {
        tree_wf(self@, n)
    }
}

/// The children (by pre-order index) that the records in `raw` before index
/// `bound` assign to node `i`, in increasing order.
pub open spec fn children_upto(raw: Seq<RawNode>, i: int, bound: int) -> Seq<usize>
    decreases bound,
{
    if bound <= 1 {
        Seq::empty()
    } else if raw[bound - 1].parent == i {
        children_upto(raw, i, bound - 1).push((bound - 1) as usize)
    } else {
        children_upto(raw, i, bound - 1)
    }
}

/// The model node that record `j` of `raw` denotes.
pub open spec fn spec_node_of(raw: Seq<RawNode>, j: int) -> SpecNode {
    SpecNode {
        kind: kind_of_name(raw[j].kind@),
        named: raw[j].named,
        field: field_tag_of(raw[j].field),
        start_byte: raw[j].start_byte,
        end_byte: raw[j].end_byte,
        parent: if j == 0 { 0 } else { raw[j].parent },
        child_index: if j == 0 { 0 } else {
            children_upto(raw, raw[j].parent as int, j).len() as usize
        },
        children: children_upto(raw, j, raw.len() as int),
    }
}

/// The model that a record list denotes.
pub open spec fn spec_model(raw: Seq<RawNode>) -> Seq<SpecNode> {
    Seq::new(raw.len(), |j: int| spec_node_of(raw, j))
}

/// Whether a record list denotes a well-formed model over `n` bytes.
pub open spec fn buildable(raw: Seq<RawNode>, n: int) -> bool {
    &&& 1 <= raw.len()
    &&& raw[0].parent == 0
    &&& forall|j: int| 1 <= j < raw.len() ==> (#[trigger] raw[j]).parent < j
    &&& tree_wf(spec_model(raw), n)
}

/// The model a record list builds over a buffer of `n` bytes, if any.
pub open spec fn spec_build(raw: Seq<RawNode>, n: int) -> Option<Seq<SpecNode>> {
    if buildable(raw, n) {
        Option::Some(spec_model(raw))
    } else {
        Option::None
    }
}

/// The scalar fields of a built node agree with its record, its byte range
/// lies within the buffer, and its parent stands before it.
pub open spec fn scalar_ok(nd: SpecNode, raw: Seq<RawNode>, i: int, n: int) -> bool {
    &&& nd.kind == kind_of_name(raw[i].kind@)
    &&& nd.named == raw[i].named
    &&& nd.field == field_tag_of(raw[i].field)
    &&& nd.start_byte == raw[i].start_byte
    &&& nd.end_byte == raw[i].end_byte
    &&& nd.parent == if i == 0 { 0usize } else { raw[i].parent }
    &&& nd.start_byte <= nd.end_byte <= n
    &&& (i >= 1 ==> nd.parent < i)
}

/// The range and ordering facts that the build checks for one record against
/// its parent record.
pub open spec fn child_ok(raw: Seq<RawNode>, i: int) -> bool {
    let p = raw[i].parent as int;
    &&& raw[p].start_byte <= raw[i].start_byte
    &&& raw[i].end_byte <= raw[p].end_byte
    &&& (children_upto(raw, p, i).len() > 0 ==>
        raw[children_upto(raw, p, i).last() as int].end_byte <= raw[i].start_byte)
}

/// The facts the build's first pass checks of every record.
pub open spec fn basic_ok(raw: Seq<RawNode>, n: int) -> bool {
    &&& 1 <= raw.len() <= usize::MAX as int
    &&& raw[0].parent == 0
    &&& forall|j: int| 1 <= j < raw.len() ==> (#[trigger] raw[j]).parent < j
    &&& forall|j: int| 0 <= j < raw.len() ==>
        (#[trigger] raw[j]).start_byte <= raw[j].end_byte <= n
}

/// The children assigned before index `b` number fewer than `b`.
proof fn lemma_children_upto_len(raw: Seq<RawNode>, i: int, b: int)
    ensures
        children_upto(raw, i, b).len() <= if b <= 1 { 0int } else { b - 1 },
    decreases b,
{
    if b > 1 {
        lemma_children_upto_len(raw, i, b - 1);
    }
}

/// Every entry of `children_upto(raw, i, b)` is a record index in `[1, b)`
/// whose parent is `i`, and the entries before position `k` are exactly the
/// children assigned before the entry at `k`.
proof fn lemma_children_upto_entry(raw: Seq<RawNode>, i: int, b: int, k: int)
    requires
        b <= raw.len() <= usize::MAX as int,
        0 <= k < children_upto(raw, i, b).len(),
    ensures
        1 <= children_upto(raw, i, b)[k] < b,
        raw[children_upto(raw, i, b)[k] as int].parent == i,
        children_upto(raw, i, children_upto(raw, i, b)[k] as int)
            == children_upto(raw, i, b).take(k),
    decreases b,
{
    if b <= 1 {
    } else {
        let pre = children_upto(raw, i, b - 1);
        if raw[b - 1].parent == i && k == pre.len() {
            assert(children_upto(raw, i, b).take(k) == pre);
        } else {
            lemma_children_upto_entry(raw, i, b - 1, k);
            assert(children_upto(raw, i, b).take(k) == pre.take(k));
        }
    }
}

/// A record whose parent is `i` appears in `children_upto(raw, i, b)` at the
/// position given by the children assigned before it.
proof fn lemma_children_upto_member(raw: Seq<RawNode>, i: int, b: int, c: int)
    requires
        b <= raw.len() <= usize::MAX as int,
        1 <= c < b,
        raw[c].parent == i,
    ensures
        children_upto(raw, i, c).len() < children_upto(raw, i, b).len(),
        children_upto(raw, i, b)[children_upto(raw, i, c).len() as int] == c,
    decreases b,
{
    if b - 1 == c {
        assert(c as usize as int == c);
        assert(children_upto(raw, i, b) == children_upto(raw, i, c).push(c as usize));
    } else {
        lemma_children_upto_member(raw, i, b - 1, c);
        if raw[b - 1].parent == i {
            assert(children_upto(raw, i, b)
                == children_upto(raw, i, b - 1).push((b - 1) as usize));
        }
    }
}

/// Under the build's checks, every node of the denoted model satisfies its
/// local well-formedness.
#[verifier::rlimit(100)]
proof fn lemma_model_node_wf(raw: Seq<RawNode>, n: int, i: int)
    requires
        basic_ok(raw, n),
        forall|j: int| 1 <= j < raw.len() ==> #[trigger] child_ok(raw, j),
        0 <= i < raw.len(),
    ensures
        node_wf(spec_model(raw), i),
{
    let m = spec_model(raw);
    let len = raw.len() as int;
    assert(m[i] == spec_node_of(raw, i));
    assert forall|k: int| #![trigger m[i].children[k]]
        0 <= k < m[i].children.len() implies {
        let ch = m[i].children[k] as int;
        &&& i < ch < m.len()
        &&& m[ch].parent == i
        &&& m[ch].child_index == k
        &&& m[i].start_byte <= m[ch].start_byte
        &&& m[ch].end_byte <= m[i].end_byte
    } by {
        lemma_children_upto_entry(raw, i, len, k);
        let ch = m[i].children[k] as int;
        assert(raw[ch].parent == i);
        assert(child_ok(raw, ch));
        assert(children_upto(raw, i, ch) == children_upto(raw, i, len).take(k));
        assert(children_upto(raw, i, ch).len() == k);
        lemma_children_upto_len(raw, i, ch);
        assert(m[ch] == spec_node_of(raw, ch));
        assert(m[ch].child_index == k);
        assert(i < ch) by {
            if ch <= i {
                assert(raw[ch].parent < ch || ch == 0);
            }
        }
    }
    assert forall|k: int| #![trigger m[i].children[k], m[i].children[k - 1]]
        1 <= k < m[i].children.len() implies {
        &&& m[i].children[k - 1] < m[i].children[k]
        &&& m[m[i].children[k - 1] as int].end_byte <= m[m[i].children[k] as int].start_byte
    } by {
        lemma_children_upto_entry(raw, i, len, k);
        let ch = m[i].children[k] as int;
        assert(raw[ch].parent == i);
        assert(child_ok(raw, ch));
        assert(children_upto(raw, i, ch) == children_upto(raw, i, len).take(k));
        assert(children_upto(raw, i, ch).len() == k);
        lemma_children_upto_entry(raw, i, len, k - 1);
        let pv = m[i].children[k - 1] as int;
        assert(children_upto(raw, i, ch)[k - 1] == children_upto(raw, i, len)[k - 1]);
        assert(children_upto(raw, i, ch).last() as int == pv);
        lemma_children_upto_entry(raw, i, ch, k - 1);
        assert(pv < ch);
        assert(m[pv] == spec_node_of(raw, pv));
        assert(m[ch] == spec_node_of(raw, ch));
        assert(raw[pv].end_byte <= raw[ch].start_byte);
    }
}

/// Under the build's checks, every non-root node of the denoted model stands
/// in its parent's child list at its recorded position.
#[verifier::rlimit(100)]
proof fn lemma_model_parent_link(raw: Seq<RawNode>, n: int, i: int)
    requires
        basic_ok(raw, n),
        1 <= i < raw.len(),
    ensures
        spec_model(raw)[i].parent < i,
        spec_model(raw)[i].child_index
            < spec_model(raw)[spec_model(raw)[i].parent as int].children.len(),
        spec_model(raw)[spec_model(raw)[i].parent as int].children[
            spec_model(raw)[i].child_index as int] == i,
{
    let m = spec_model(raw);
    let len = raw.len() as int;
    let p = raw[i].parent as int;
    lemma_children_upto_member(raw, p, len, i);
    lemma_children_upto_len(raw, p, i);
    assert(m[i] == spec_node_of(raw, i));
    assert(m[p] == spec_node_of(raw, p));
    assert(m[i].child_index == children_upto(raw, p, i).len());
    assert(m[p].children == children_upto(raw, p, len));
}

/// A record list whose basic facts and per-child checks all hold denotes a
/// well-formed model.
proof fn lemma_model_wf(raw: Seq<RawNode>, n: int)
    requires
        basic_ok(raw, n),
        forall|i: int| 1 <= i < raw.len() ==> #[trigger] child_ok(raw, i),
    ensures
        tree_wf(spec_model(raw), n),
        buildable(raw, n),
{
    let m = spec_model(raw);
    let len = raw.len() as int;
    assert(m[0] == spec_node_of(raw, 0));
    assert forall|i: int| 0 <= i < len implies node_wf(m, i) by {
        lemma_model_node_wf(raw, n, i);
    }
    assert forall|i: int| 0 <= i < len implies (#[trigger] m[i]).end_byte <= n by {
        assert(m[i] == spec_node_of(raw, i));
    }
    assert forall|i: int| 1 <= i < len implies {
        let nd = #[trigger] m[i];
        &&& nd.parent < i
        &&& nd.child_index < m[nd.parent as int].children.len()
        &&& m[nd.parent as int].children[nd.child_index as int] == i
    } by {
        lemma_model_parent_link(raw, n, i);
        assert(m[i] == spec_node_of(raw, i));
    }
}

/// A failed containment check on record `c` refutes well-formedness.
#[verifier::rlimit(60)]
proof fn lemma_containment_refutes(raw: Seq<RawNode>, n: int, c: int)
    requires
        basic_ok(raw, n),
        1 <= c < raw.len(),
        raw[raw[c].parent as int].start_byte > raw[c].start_byte
            || raw[c].end_byte > raw[raw[c].parent as int].end_byte,
    ensures
        !buildable(raw, n),
{
    if buildable(raw, n) {
        let m = spec_model(raw);
        let p = raw[c].parent as int;
        lemma_children_upto_member(raw, p, raw.len() as int, c);
        let k = children_upto(raw, p, c).len() as int;
        assert(m[p] == spec_node_of(raw, p));
        assert(m[c] == spec_node_of(raw, c));
        assert(m[p].children[k] == c);
        assert(node_wf(m, p));
        assert(m[p].start_byte <= m[c].start_byte && m[c].end_byte <= m[p].end_byte);
    }
}

/// A failed sibling-ordering check on record `c` refutes well-formedness.
#[verifier::rlimit(60)]
proof fn lemma_ordering_refutes(raw: Seq<RawNode>, n: int, c: int)
    requires
        basic_ok(raw, n),
        1 <= c < raw.len(),
        children_upto(raw, raw[c].parent as int, c).len() > 0,
        raw[children_upto(raw, raw[c].parent as int, c).last() as int].end_byte
            > raw[c].start_byte,
    ensures
        !buildable(raw, n),
{
    if buildable(raw, n) {
        let m = spec_model(raw);
        let p = raw[c].parent as int;
        let len = raw.len() as int;
        lemma_children_upto_member(raw, p, len, c);
        let k = children_upto(raw, p, c).len() as int;
        assert(m[p].children[k] == c);
        lemma_children_upto_entry(raw, p, len, k - 1);
        assert(children_upto(raw, p, len).take(k - 1)
            == children_upto(raw, p, children_upto(raw, p, len)[k - 1] as int));
        lemma_children_upto_entry(raw, p, len, k);
        assert(children_upto(raw, p, c) == children_upto(raw, p, len).take(k));
        assert(children_upto(raw, p, c).last() == children_upto(raw, p, len)[k - 1]);
        assert(node_wf(m, p));
        assert(m[m[p].children[k - 1] as int].end_byte <= m[c].start_byte);
    }
}


/// Builds the model that a record list denotes over a buffer of `buf_len`
/// bytes, validating every structural invariant; returns `None` exactly when
/// the records do not denote a well-formed model.
#[verifier::rlimit(60)]
pub fn build_tree(raw: &Vec<RawNode>, buf_len: usize) -> (r: Option<SyntaxTree>)
    ensures
        match r {
            Option::Some(t) => {
                &&& spec_build(raw@, buf_len as int) == Option::Some(t@)
                &&& t.wf(buf_len as int)
            },
            Option::None => spec_build(raw@, buf_len as int) is None,
        },
{
    let n = raw.len();
    if n == 0 {
        return Option::None;
    }
    let mut nodes: Vec<SyntaxNode> = Vec::new();
    let mut j: usize = 0;
    while j < n
        invariant
            n == raw@.len(),
            1 <= n,
            0 <= j <= n,
            nodes@.len() == j,
            forall|i: int| 0 <= i < j ==> scalar_ok(#[trigger] nodes@[i]@, raw@, i, buf_len as int),
            forall|i: int| 0 <= i < j ==> (#[trigger] nodes@[i]@).child_index == 0,
            forall|i: int| 0 <= i < j ==> (#[trigger] nodes@[i]@).children == Seq::<usize>::empty(),
            forall|i: int| 1 <= i < j ==> (#[trigger] raw@[i]).parent < i,
            j >= 1 ==> raw@[0].parent == 0,
        decreases n - j,
    {
        let rn = &raw[j];
        if j == 0 {
            if rn.parent != 0 {
                return Option::None;
            }
        } else {
            if rn.parent >= j {
                return Option::None;
            }
        }
        if rn.start_byte > rn.end_byte || rn.end_byte > buf_len {
            proof {
                let m = spec_model(raw@);
                assert(m[j as int] == spec_node_of(raw@, j as int));
                assert(m[j as int].start_byte == raw@[j as int].start_byte);
                assert(raw@[j as int].start_byte > raw@[j as int].end_byte
                    ==> !node_wf(m, j as int));
                assert(raw@[j as int].end_byte > buf_len
                    ==> m[j as int].end_byte > buf_len as int);
            }
            return Option::None;
        }
        let kind = classify_kind(&rn.kind);
        let field = classify_field(&rn.field);
        nodes.push(SyntaxNode {
            kind,
            named: rn.named,
            field,
            start_byte: rn.start_byte,
            end_byte: rn.end_byte,
            parent: if j == 0 { 0 } else { rn.parent },
            child_index: 0,
            children: Vec::new(),
        });
        j += 1;
    }
    proof {
        assert(raw@.len() == n as int);
        assert forall|i: int| 0 <= i < raw@.len() implies
            (#[trigger] raw@[i]).start_byte <= raw@[i].end_byte <= buf_len as int by {
            assert(scalar_ok(nodes@[i]@, raw@, i, buf_len as int));
        }
        assert(basic_ok(raw@, buf_len as int));
    }

    let ghost rawg = raw@;
    let ghost nn = buf_len as int;
    let mut c: usize = 1;
    while c < n
        invariant
            n == rawg.len(),
            rawg == raw@,
            1 <= c <= n,
            nodes@.len() == n,
            basic_ok(rawg, nn),
            nn == buf_len as int,
            forall|i: int| 0 <= i < n ==> scalar_ok(#[trigger] nodes@[i]@, rawg, i, nn),
            forall|i: int| 0 <= i < n ==>
                (#[trigger] nodes@[i]@).children == children_upto(rawg, i, c as int),
            forall|i: int| 1 <= i < c ==> (#[trigger] nodes@[i]@).child_index
                == children_upto(rawg, rawg[i].parent as int, i).len(),
            forall|i: int| c <= i < n || i == 0 ==> (#[trigger] nodes@[i]@).child_index == 0,
            forall|i: int| 1 <= i < c ==> #[trigger] child_ok(rawg, i),
        decreases n - c,
    {
        let p = nodes[c].parent;
        proof {
            assert(scalar_ok(nodes@[c as int]@, rawg, c as int, nn));
        }
        assert(p < c);
        assert(p == rawg[c as int].parent);
        proof {
            assert(scalar_ok(nodes@[p as int]@, rawg, p as int, nn));
        }
        if nodes[p].start_byte > nodes[c].start_byte || nodes[c].end_byte > nodes[p].end_byte {
            proof {
                lemma_containment_refutes(rawg, nn, c as int);
            }
            return Option::None;
        }
        let plen = nodes[p].children.len();
        if plen > 0 {
            let prev = nodes[p].children[plen - 1];
            assert(prev == children_upto(rawg, p as int, c as int).last());
            proof {
                lemma_children_upto_entry(rawg, p as int, c as int, plen - 1);
            }
            assert(prev < c);
            proof {
                assert(scalar_ok(nodes@[prev as int]@, rawg, prev as int, nn));
            }
            if nodes[prev].end_byte > nodes[c].start_byte {
                proof {
                    lemma_ordering_refutes(rawg, nn, c as int);
                }
                return Option::None;
            }
        }
        proof {
            assert(child_ok(rawg, c as int)) by {
                let pp = rawg[c as int].parent as int;
                if children_upto(rawg, pp, c as int).len() > 0 {
                    let pv = children_upto(rawg, pp, c as int).last();
                    assert(scalar_ok(nodes@[pv as int]@, rawg, pv as int, nn));
                }
            }
        }
        nodes[c].child_index = plen;
        nodes[p].children.push(c);
        proof {
            assert(children_upto(rawg, p as int, c as int + 1)
                == children_upto(rawg, p as int, c as int).push(c));
            assert forall|i: int| 0 <= i < n implies
                (#[trigger] nodes@[i]@).children == children_upto(rawg, i, c as int + 1) by {
                if i != p as int {
                    assert(children_upto(rawg, i, c as int + 1)
                        == children_upto(rawg, i, c as int));
                }
            }
        }
        c += 1;
    }

    let t = SyntaxTree { nodes };
    proof {
        lemma_model_wf(rawg, nn);
        let m = spec_model(rawg);
        assert forall|i: int| 0 <= i < n implies t@[i] == m[i] by {
            assert(m[i] == spec_node_of(rawg, i));
            assert(scalar_ok(t@[i], rawg, i, nn));
            assert(t@[i].children == children_upto(rawg, i, n as int));
            if i >= 1 {
                lemma_children_upto_len(rawg, rawg[i].parent as int, i);
                assert(t@[i].child_index
                    == children_upto(rawg, rawg[i].parent as int, i).len());
                assert(t@[i].child_index == spec_node_of(rawg, i).child_index);
            }
        }
        assert(t@ =~= m);
    }
    Option::Some(t)
}


/// The next sibling of node `i`, if any.
pub open spec fn spec_next_sibling(m: Seq<SpecNode>, i: int) -> Option<usize> {
    if i == 0 {
        Option::None
    } else {
        let p = m[i].parent as int;
        let k = m[i].child_index as int;
        if k + 1 < m[p].children.len() {
            Option::Some(m[p].children[k + 1])
        } else {
            Option::None
        }
    }
}

/// The previous sibling of node `i`, if any.
pub open spec fn spec_prev_sibling(m: Seq<SpecNode>, i: int) -> Option<usize> {
    if i == 0 {
        Option::None
    } else {
        let p = m[i].parent as int;
        let k = m[i].child_index as int;
        if k > 0 {
            Option::Some(m[p].children[k - 1])
        } else {
            Option::None
        }
    }
}

/// The first named child of `p` at or after position `k`, if any.
pub open spec fn spec_named_from(m: Seq<SpecNode>, p: int, k: int) -> Option<usize>
    decreases m[p].children.len() - k when 0 <= k
{
    if k >= m[p].children.len() {
        Option::None
    } else if m[m[p].children[k] as int].named {
        Option::Some(m[p].children[k])
    } else {
        spec_named_from(m, p, k + 1)
    }
}

/// The next named sibling of node `i`, if any.
pub open spec fn spec_next_named_sibling(m: Seq<SpecNode>, i: int) -> Option<usize> {
    if i == 0 {
        Option::None
    } else {
        spec_named_from(m, m[i].parent as int, m[i].child_index + 1)
    }
}

/// The first child of `i` at or after position `k` that occupies field `tag`,
/// if any.
pub open spec fn spec_field_from(m: Seq<SpecNode>, i: int, k: int, tag: FieldTag) -> Option<
    usize,
>
    decreases m[i].children.len() - k when 0 <= k
{
    if k >= m[i].children.len() {
        Option::None
    } else if m[m[i].children[k] as int].field == tag {
        Option::Some(m[i].children[k])
    } else {
        spec_field_from(m, i, k + 1, tag)
    }
}

/// The first child of `i` that occupies field `tag`, if any.
pub open spec fn spec_child_by_field(m: Seq<SpecNode>, i: int, tag: FieldTag) -> Option<usize> {
    spec_field_from(m, i, 0, tag)
}

/// Adjacent siblings stand in index order and in byte order.
pub proof fn lemma_sibling_order(m: Seq<SpecNode>, p: int, k: int)
    requires
        struct_wf(m),
        0 <= p < m.len(),
        1 <= k < m[p].children.len(),
    ensures
        m[p].children[k - 1] < m[p].children[k],
        m[m[p].children[k - 1] as int].end_byte <= m[m[p].children[k] as int].start_byte,
{
    assert(node_wf(m, p));
    let a = m[p].children[k - 1];
    let b = m[p].children[k];
}

impl SyntaxTree {
    /// The next sibling of node `i`, if any.
    pub fn next_sibling(&self, i: usize) -> (r: Option<usize>)
        requires
            struct_wf(self@),
            i < self@.len(),
        ensures
            r == spec_next_sibling(self@, i as int),
            r matches Some(s) ==> i < s < self@.len(),
    {
        if i == 0 {
            return Option::None;
        }
        proof {
            assert(self@[i as int].parent < i);
            assert(node_wf(self@, self@[i as int].parent as int));
        }
        let p = self.nodes[i].parent;
        let k = self.nodes[i].child_index;
        assert(k < self@[p as int].children.len());
        if k < self.nodes[p].children.len() - 1 {
            let s = self.nodes[p].children[k + 1];
            proof {
                assert(self@[p as int].children[k as int] == i);
                assert(self@[p as int].children[k + 1] == s);
                lemma_sibling_order(self@, p as int, k as int + 1);
            }
            Option::Some(s)
        } else {
            Option::None
        }
    }

    /// The previous sibling of node `i`, if any.
    pub fn prev_sibling(&self, i: usize) -> (r: Option<usize>)
        requires
            struct_wf(self@),
            i < self@.len(),
        ensures
            r == spec_prev_sibling(self@, i as int),
            r matches Some(s) ==> s < self@.len(),
    {
        if i == 0 {
            return Option::None;
        }
        proof {
            assert(self@[i as int].parent < i);
            assert(node_wf(self@, self@[i as int].parent as int));
        }
        let p = self.nodes[i].parent;
        let k = self.nodes[i].child_index;
        assert(k < self@[p as int].children.len());
        if k > 0 {
            let s = self.nodes[p].children[k - 1];
            proof {
                assert(self@[p as int].children[k - 1] == s);
            }
            Option::Some(s)
        } else {
            Option::None
        }
    }

    /// The next named sibling of node `i`, if any.
    #[verifier::rlimit(100)]
    pub fn next_named_sibling(&self, i: usize) -> (r: Option<usize>)
        requires
            struct_wf(self@),
            i < self@.len(),
        ensures
            r == spec_next_named_sibling(self@, i as int),
            r matches Some(s) ==> s < self@.len(),
    {
        if i == 0 {
            return Option::None;
        }
        proof {
            assert(self@[i as int].parent < i);
            assert(node_wf(self@, self@[i as int].parent as int));
        }
        let p = self.nodes[i].parent;
        let cn = self.nodes[p].children.len();
        assert(self@[i as int].child_index < self@[p as int].children.len());
        let mut k = self.nodes[i].child_index + 1;
        while k < cn
            invariant
                struct_wf(self@),
                i < self@.len(),
                p == self@[i as int].parent,
                p < i,
                cn == self@[p as int].children.len(),
                0 <= k <= cn,
                spec_named_from(self@, p as int, self@[i as int].child_index + 1)
                    == spec_named_from(self@, p as int, k as int),
            decreases cn - k,
        {
            proof {
                assert(node_wf(self@, p as int));
                assert(self@[p as int].children[k as int] < self@.len());
            }
            let c = self.nodes[p].children[k];
            if self.nodes[c].named {
                return Option::Some(c);
            }
            k += 1;
        }
        Option::None
    }

    /// The first child of node `i` occupying field `tag`, if any.
    #[verifier::rlimit(100)]
    pub fn child_by_field(&self, i: usize, tag: FieldTag) -> (r: Option<usize>)
        requires
            struct_wf(self@),
            i < self@.len(),
        ensures
            r == spec_child_by_field(self@, i as int, tag),
            r matches Some(s) ==> i < s < self@.len(),
    {
        let mut k: usize = 0;
        let cn = self.nodes[i].children.len();
        while k < cn
            invariant
                struct_wf(self@),
                i < self@.len(),
                cn == self@[i as int].children.len(),
                0 <= k <= cn,
                spec_field_from(self@, i as int, 0, tag)
                    == spec_field_from(self@, i as int, k as int, tag),
            decreases cn - k,
        {
            proof {
                assert(node_wf(self@, i as int));
                assert(i < self@[i as int].children[k as int] < self@.len());
            }
            let c = self.nodes[i].children[k];
            if self.nodes[c].field == tag {
                return Option::Some(c);
            }
            k += 1;
        }
        Option::None
    }
}

/// Whether node `i` spans more than one source row, i.e. its text contains a
/// line break.
#[verifier::rlimit(100)]
pub fn is_multiline(tree: &SyntaxTree, i: usize, buf: &Vec<u8>) -> (r: bool)
    requires
        tree.wf(buf@.len() as int),
        i < tree@.len(),
    ensures
        r == crate::bytes::spec_has_lb(
            buf@,
            tree@[i as int].start_byte as int,
            tree@[i as int].end_byte as int,
        ),
{
    proof {
        assert(node_wf(tree@, i as int));
        assert(tree@[i as int].end_byte <= buf@.len());
    }
    crate::bytes::has_lb(buf, tree.nodes[i].start_byte, tree.nodes[i].end_byte)
}

} // verus!
