//! From a parser's syntax tree to a snapshot.
//!
//! The parser is `tree_sitter` with the Rust grammar. Its tree is read node
//! by node, in document order, as plain values; parents, content and the
//! snapshot are worked out from those. A leaf takes as content the source
//! from the end of the leaf before it to its own end, so that the leaves
//! together spell the source up to the end of the last one.

use vstd::prelude::*;
use crate::error::Error;
use crate::tree::{shaped, Shape, Snapshot};

verus! {

#[verifier::external_type_specification]
#[verifier::external_body]
pub struct ExSyntaxTree(tree_sitter::Tree);

/// What is read of one node of a syntax tree.
#[derive(Clone, Copy, Debug, PartialEq, Eq, Structural)]
pub struct RawNode {
    /// The numerical id of the node's type.
    pub kind: u16,
    /// How far below the root the node stands; zero for the root.
    pub depth: u32,
    /// The byte at which the node starts in the source.
    pub start: usize,
    /// The byte at which the node ends.
    pub end: usize,
    /// The number of children.
    pub children: usize,
}

/// The nodes of a syntax tree in document order, the root first.
pub uninterp spec fn syntax_nodes(tree: tree_sitter::Tree) -> Seq<RawNode>;

/// Parses with `tree_sitter`: makes a parser with `Parser::new`, gives it
/// `tree_sitter_rust::language()` with `Parser::set_language`, and calls
/// `Parser::parse` with no old tree. Nothing is claimed of the answer: the
/// grammar's scanner asks the C library what a letter is, so the tree may
/// differ with the locale, and there is none where the grammar does not fit
/// the library or the parser gives up.
#[verifier::external_body]
fn parse_rust(source_code: &[u8]) -> (r: Option<tree_sitter::Tree>) {
    let mut parser = tree_sitter::Parser::new();
    parser.set_language(&tree_sitter_rust::language()).ok()?;
    parser.parse(source_code, None)
}

/// Calls `Node::descendant_count` on the root of the tree, which counts the
/// root and all nodes below it: the number of nodes of the tree.
#[verifier::external_body]
fn node_count(tree: &tree_sitter::Tree) -> (r: usize)
    ensures
        r == syntax_nodes(*tree).len(),
{
    tree.root_node().descendant_count()
}

/// Moves a `TreeCursor` from the root with `goto_descendant` and reads the
/// node there: `kind_id`, the cursor's `depth`, `start_byte`, `end_byte`
/// and `child_count`. The node with index `index` is the one that stands at
/// that place in document order.
#[verifier::external_body]
fn node_at(tree: &tree_sitter::Tree, index: usize) -> (r: RawNode)
    requires
        index < syntax_nodes(*tree).len(),
    ensures
        r == syntax_nodes(*tree)[index as int],
{
    let mut cursor = tree.walk();
    cursor.goto_descendant(index);
    let node = cursor.node();
    RawNode {
        kind: node.kind_id(),
        depth: cursor.depth(),
        start: node.start_byte(),
        end: node.end_byte(),
        children: node.child_count(),
    }
}

/// Parses Rust source into a syntax tree. Which tree comes back is the
/// parser's matter; the one error is `Parsing`, where it gave none.
pub fn parse_rust_code(source_code: &str) -> (r: Result<tree_sitter::Tree, Error>)
    ensures
        r.is_err() ==> r == Err::<tree_sitter::Tree, Error>(Error::Parsing),
{
    parse_rust_bytes(source_code.as_bytes())
}

/// Parses Rust source, given as bytes, into a syntax tree. Which tree comes
/// back is the parser's matter; the one error is `Parsing`, where it gave
/// none.
pub fn parse_rust_bytes(source_code: &[u8]) -> (r: Result<tree_sitter::Tree, Error>)
    ensures
        r.is_err() ==> r == Err::<tree_sitter::Tree, Error>(Error::Parsing),
{
    tree_or_error(parse_rust(source_code))
}

/// What becomes of a parser's answer: its tree, or `Parsing` where it gave
/// none.
pub fn tree_or_error(parsed: Option<tree_sitter::Tree>) -> (r: Result<tree_sitter::Tree, Error>)
    ensures
        r == match parsed {
            Some(tree) => Ok::<tree_sitter::Tree, Error>(tree),
            None => Err::<tree_sitter::Tree, Error>(Error::Parsing),
        },
{
    match parsed {
        Some(tree) => Ok(tree),
        None => Err(Error::Parsing),
    }
}

/// Reads the nodes of a syntax tree, in document order.
pub fn read_nodes(tree: &tree_sitter::Tree) -> (r: Vec<RawNode>)
    ensures
        r@ == syntax_nodes(*tree),
{
    let n = node_count(tree);
    let mut out: Vec<RawNode> = Vec::new();
    let mut i: usize = 0;
    while i < n
        invariant
            i <= n,
            n == syntax_nodes(*tree).len(),
            out@ == syntax_nodes(*tree).subrange(0, i as int),
        decreases n - i,
    {
        out.push(node_at(tree, i));
        i += 1;
        assert(out@ =~= syntax_nodes(*tree).subrange(0, i as int));
    }
    assert(out@ =~= syntax_nodes(*tree));
    out
}

/// The last node before `i` that stands at depth `d`.
pub open spec fn last_at_depth(raw: Seq<RawNode>, i: int, d: int) -> Option<int>
    decreases i,
{
    if i <= 0 {
        None
    } else if raw[i - 1].depth == d {
        Some(i - 1)
    } else {
        last_at_depth(raw, i - 1, d)
    }
}

/// Where the last leaf before `i` ends; zero where there is none.
pub open spec fn leaf_end(raw: Seq<RawNode>, i: int) -> int
    decreases i,
{
    if i <= 0 {
        0
    } else if raw[i - 1].children == 0 {
        raw[i - 1].end as int
    } else {
        leaf_end(raw, i - 1)
    }
}

/// Node `i` has a place in a tree: the first node is the root and no other
/// is; every other has a node one level up before it; a leaf does not end
/// before the leaf before it.
pub open spec fn raw_ok(raw: Seq<RawNode>, i: int) -> bool {
    &&& if i == 0 {
        raw[i].depth == 0
    } else {
        raw[i].depth > 0 && last_at_depth(raw, i, raw[i].depth - 1).is_some()
    }
    &&& raw[i].children == 0 ==> leaf_end(raw, i) <= raw[i].end
}

/// The shape of node `i`: its parent is the last node one level up; the
/// content of a leaf runs from the end of the leaf before it to its own
/// end, an inner node has none.
pub open spec fn shape_at(raw: Seq<RawNode>, i: int) -> Shape {
    Shape {
        kind: raw[i].kind as u32,
        parent: if i == 0 {
            0
        } else {
            last_at_depth(raw, i, raw[i].depth - 1).unwrap() as usize
        },
        text_start: if raw[i].children == 0 {
            leaf_end(raw, i) as usize
        } else {
            0
        },
        text_len: if raw[i].children == 0 {
            (raw[i].end - leaf_end(raw, i)) as usize
        } else {
            0
        },
    }
}

/// The shapes of the nodes, where each has a place in a tree.
pub open spec fn shapes(raw: Seq<RawNode>) -> Option<Seq<Shape>> {
    if forall|i: int| 0 <= i < raw.len() ==> raw_ok(raw, i) {
        Some(Seq::new(raw.len(), |i: int| shape_at(raw, i)))
    } else {
        None
    }
}

/// Works out the shapes of nodes read in document order.
pub fn shapes_of(raw: &Vec<RawNode>) -> (r: Option<Vec<Shape>>)
    ensures
        match (r, shapes(raw@)) {
            (Some(v), Some(s)) => v@ == s,
            (None, None) => true,
            _ => false,
        },
{
    let n = raw.len();
    let mut out: Vec<Shape> = Vec::new();
    let mut stack: Vec<usize> = Vec::new();
    let mut end: usize = 0;
    let mut i: usize = 0;
    while i < n
        invariant
            i <= n,
            n == raw@.len(),
            out@.len() == i,
            end == leaf_end(raw@, i as int),
            forall|k: int| 0 <= k < i ==> raw_ok(raw@, k),
            forall|k: int| 0 <= k < i ==> out@[k] == shape_at(raw@, k),
            forall|d: int|
                0 <= d < stack@.len() ==> last_at_depth(raw@, i as int, d) == Some(
                    #[trigger] stack@[d] as int,
                ),
            forall|d: int| stack@.len() <= d ==> (#[trigger] last_at_depth(raw@, i as int, d)).is_none(),
        decreases n - i,
    {
        let node = raw[i];
        let depth = node.depth as usize;
        let parent: usize;
        if i == 0 {
            if depth != 0 {
                assert(!raw_ok(raw@, 0));
                return None;
            }
            parent = 0;
        } else {
            if depth == 0 || depth - 1 >= stack.len() {
                assert(!raw_ok(raw@, i as int));
                return None;
            }
            parent = stack[depth - 1];
        }
        let leaf = node.children == 0;
        if leaf && node.end < end {
            assert(!raw_ok(raw@, i as int));
            return None;
        }
        let shape = if leaf {
            Shape { kind: node.kind as u32, parent, text_start: end, text_len: node.end - end }
        } else {
            Shape { kind: node.kind as u32, parent, text_start: 0, text_len: 0 }
        };
        assert(raw_ok(raw@, i as int));
        assert(shape == shape_at(raw@, i as int));
        out.push(shape);
        if leaf {
            end = node.end;
        }
        let ghost seen = stack@.len();
        if depth < stack.len() {
            stack.set(depth, i);
        } else {
            stack.push(i);
        }
        i += 1;
        assert forall|d: int| stack@.len() <= d implies (#[trigger] last_at_depth(
            raw@,
            i as int,
            d,
        )).is_none() by {
            assert(seen <= d);
            assert(last_at_depth(raw@, i - 1, d).is_none());
        }
    }
    assert(out@ =~= Seq::new(raw@.len(), |k: int| shape_at(raw@, k)));
    Some(out)
}

/// The snapshot that nodes read in document order stand for, over the
/// source they were parsed from; none where they do not form a tree or name
/// content outside the source.
pub open spec fn snapshot_of(raw: Seq<RawNode>, source: Seq<u8>) -> Option<crate::tree::SnapshotView> {
    match shapes(raw) {
        Some(s) => if shaped(s, source).wf() {
            Some(shaped(s, source))
        } else {
            None
        },
        None => None,
    }
}

/// Makes a snapshot of nodes read in document order.
pub fn snapshot_from_nodes(raw: &Vec<RawNode>, source: &[u8]) -> (r: Option<Snapshot>)
    ensures
        match (r, snapshot_of(raw@, source@)) {
            (Some(t), Some(v)) => t@ == v,
            (None, None) => true,
            _ => false,
        },
{
    match shapes_of(raw) {
        Some(shape) => {
            let mut text: Vec<u8> = Vec::new();
            text.extend_from_slice(source);
            assert(text@ =~= source@);
            Snapshot::from_shape(shape, text)
        },
        None => None,
    }
}

/// Makes a snapshot of a syntax tree and the source that it was parsed
/// from.
pub fn snapshot(tree: &tree_sitter::Tree, source: &[u8]) -> (r: Option<Snapshot>)
    ensures
        match (r, snapshot_of(syntax_nodes(*tree), source@)) {
            (Some(t), Some(v)) => t@ == v,
            (None, None) => true,
            _ => false,
        },
{
    let raw = read_nodes(tree);
    snapshot_from_nodes(&raw, source)
}

/// Parses Rust source and makes its snapshot. Whatever tree the parser
/// gave, a snapshot that comes back is the one that some sequence of nodes
/// stands for over the source, and so one rooted tree over it. There is
/// `Parsing` where the parser gave no tree, and `Serialization` where its
/// nodes made no snapshot.
pub fn snapshot_source(source: &[u8]) -> (r: Result<Snapshot, Error>)
    ensures
        match r {
            Ok(t) => t@.wf() && t@.text == source@ && exists|raw: Seq<RawNode>|
                #[trigger] snapshot_of(raw, source@) == Some(t@),
            Err(e) => e == Error::Parsing || e == Error::Serialization,
        },
{
    match parse_rust_bytes(source) {
        Ok(tree) => match snapshot(&tree, source) {
            Some(t) => {
                assert(snapshot_of(syntax_nodes(tree), source@) == Some(t@));
                Ok(t)
            },
            None => Err(Error::Serialization),
        },
        Err(e) => Err(e),
    }
}

} // verus!
