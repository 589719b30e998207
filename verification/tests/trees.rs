use git_ast::diff::{diff, match_trees, similarity, DiffConfig, EditOp};
use git_ast::drivers::{format_script, run_diff_driver, run_merge_driver};
use git_ast::error::{DriverFault, Error};
use git_ast::merge::{merge, ConflictKind, Piece, Source};
use git_ast::render::{append_fence, render, DEFAULT_MARKER_LEN};
use git_ast::graft::{merge_snapshots, merged_tree};
use git_ast::merge::MergeResult;
use git_ast::tree::{Node, Shape, Snapshot};

const FILE: u32 = 1;
const FUNCTION: u32 = 2;
const PARAMETERS: u32 = 3;
const PARAMETER: u32 = 4;
const KEYWORD: u32 = 10;
const IDENT: u32 = 11;
const PUNCT: u32 = 12;
const TYPE: u32 = 13;
const BLOCK: u32 = 15;

fn cfg() -> DiffConfig {
    DiffConfig { min_size: 1, sim_num: 1, sim_den: 2 }
}

fn with_min_size(min_size: usize) -> DiffConfig {
    DiffConfig { min_size, sim_num: 1, sim_den: 2 }
}

/// `fn <name>(<param>: i32) {}` as a tree of eleven nodes.
fn function(name: &str, param: &str) -> Snapshot {
    let mut text: Vec<u8> = Vec::new();
    let mut shape: Vec<Shape> = Vec::new();
    let mut add = |kind: u32, parent: usize, s: &str, text: &mut Vec<u8>| {
        let start = text.len();
        text.extend_from_slice(s.as_bytes());
        shape.push(Shape { kind, parent, text_start: start, text_len: s.len() });
    };
    add(FILE, 0, "", &mut text);
    add(FUNCTION, 0, "", &mut text);
    add(KEYWORD, 1, "fn ", &mut text);
    add(IDENT, 1, name, &mut text);
    add(PARAMETERS, 1, "", &mut text);
    add(PUNCT, 4, "(", &mut text);
    add(PARAMETER, 4, "", &mut text);
    add(IDENT, 6, param, &mut text);
    add(TYPE, 6, ": i32", &mut text);
    add(PUNCT, 4, ")", &mut text);
    add(BLOCK, 1, " {}", &mut text);
    Snapshot::from_shape(shape, text).expect("a rooted tree")
}

/// `fn <name>(<first>: i32, <second>: u8) {}` as a tree of fifteen nodes.
fn function_of_two(name: &str, first: &str, second: &str) -> Snapshot {
    let mut text: Vec<u8> = Vec::new();
    let mut shape: Vec<Shape> = Vec::new();
    let mut add = |kind: u32, parent: usize, s: &str, text: &mut Vec<u8>| {
        let start = text.len();
        text.extend_from_slice(s.as_bytes());
        shape.push(Shape { kind, parent, text_start: start, text_len: s.len() });
    };
    add(FILE, 0, "", &mut text);
    add(FUNCTION, 0, "", &mut text);
    add(KEYWORD, 1, "fn ", &mut text);
    add(IDENT, 1, name, &mut text);
    add(PARAMETERS, 1, "", &mut text);
    add(PUNCT, 4, "(", &mut text);
    add(PARAMETER, 4, "", &mut text);
    add(IDENT, 6, first, &mut text);
    add(TYPE, 6, ": i32", &mut text);
    add(PUNCT, 4, ", ", &mut text);
    add(PARAMETER, 4, "", &mut text);
    add(IDENT, 10, second, &mut text);
    add(TYPE, 10, ": u8", &mut text);
    add(PUNCT, 4, ")", &mut text);
    add(BLOCK, 1, " {}", &mut text);
    Snapshot::from_shape(shape, text).expect("a rooted tree")
}

fn print(base: &Snapshot, ours: &Snapshot, theirs: &Snapshot, r: &MergeResult, l: usize) -> Vec<u8> {
    let to_ours = match_trees(base, ours, cfg());
    let to_theirs = match_trees(base, theirs, cfg());
    render(base, ours, theirs, &to_ours, &to_theirs, r, l)
}

fn grow(base: &Snapshot, ours: &Snapshot, theirs: &Snapshot, r: &MergeResult) -> Option<Snapshot> {
    let to_ours = match_trees(base, ours, cfg());
    let to_theirs = match_trees(base, theirs, cfg());
    merged_tree(base, ours, theirs, &to_ours, &to_theirs, r)
}

#[test]
fn merged_tree_holds_the_edits_of_both_sides() {
    let base = function("f", "a");
    let renamed = function("g", "a");
    let longer = function_of_two("f", "a", "b");
    let want = function_of_two("g", "a", "b");
    // "Theirs" adds a parameter, "ours" renames the function.
    let r = merge(&base, &renamed, &longer, cfg());
    let t = grow(&base, &renamed, &longer, &r).expect("a merged tree");
    assert_eq!(t.len(), 15);
    assert_eq!(t.subtree_text(0), b"fn g(a: i32, b: u8) {}".to_vec());
    for i in 0..15 {
        assert_eq!(t.node(i).kind, want.node(i).kind);
        assert_eq!(t.node(i).parent, want.node(i).parent);
        assert_eq!(t.node(i).size, want.node(i).size);
        assert_eq!(t.node(i).hash, want.node(i).hash);
        assert_eq!(t.content(i), want.content(i));
    }
    // The other way round.
    let r = merge(&base, &longer, &renamed, cfg());
    let t = grow(&base, &longer, &renamed, &r).expect("a merged tree");
    assert_eq!(t.node(0).hash, want.node(0).hash);
    assert_eq!(diff(&t, &want, cfg()), vec![]);
    // "Theirs" drops a parameter, "ours" renames the function.
    let r = merge(&longer, &want, &base, cfg());
    let t = grow(&longer, &want, &base, &r).expect("a merged tree");
    assert_eq!(t.len(), 11);
    assert_eq!(t.node(0).hash, renamed.node(0).hash);
    // Nothing changed on either side.
    let r = merge(&base, &base, &base, cfg());
    let t = grow(&base, &base, &base, &r).expect("a merged tree");
    assert_eq!(t.node(0).hash, base.node(0).hash);
    // In conflict the tree keeps what "ours" has.
    let ours = function("f", "x");
    let theirs = function("f", "y");
    let r = merge(&base, &ours, &theirs, cfg());
    let t = grow(&base, &ours, &theirs, &r).expect("a merged tree");
    assert_eq!(t.subtree_text(0), b"fn f(x: i32) {}".to_vec());
}

#[test]
fn merge_keeps_what_either_side_adds() {
    let base = function("f", "a");
    let renamed = function("g", "a");
    let longer = function_of_two("f", "a", "b");
    assert_eq!(
        diff(&base, &longer, cfg()),
        vec![
            EditOp::Insert { parent: 4, position: 2, node: 9 },
            EditOp::Insert { parent: 4, position: 3, node: 10 },
            EditOp::Insert { parent: 10, position: 0, node: 11 },
            EditOp::Insert { parent: 10, position: 1, node: 12 },
        ]
    );
    // "Theirs" adds a parameter, "ours" renames the function.
    let r = merge(&base, &renamed, &longer, cfg());
    assert!(r.is_clean());
    assert_eq!(r.ours, vec![EditOp::Update { node: 3, source: 3 }]);
    assert_eq!(r.theirs.len(), 4);
    assert_eq!(print(&base, &renamed, &longer, &r, 7), b"fn g(a: i32, b: u8) {}".to_vec());
    // The other way round.
    let r = merge(&base, &longer, &renamed, cfg());
    assert!(r.is_clean());
    assert_eq!(r.ours.len(), 4);
    assert_eq!(r.theirs, vec![EditOp::Update { node: 3, source: 3 }]);
    assert_eq!(print(&base, &longer, &renamed, &r, 7), b"fn g(a: i32, b: u8) {}".to_vec());
    // "Theirs" drops the parameter that "ours" keeps.
    let r = merge(&longer, &function_of_two("g", "a", "b"), &base, cfg());
    assert!(r.is_clean());
    assert_eq!(print(&longer, &function_of_two("g", "a", "b"), &base, &r, 7), b"fn g(a: i32) {}".to_vec());
}

#[test]
fn from_shape_computes_sizes() {
    let t = function("f", "a");
    assert_eq!(t.len(), 11);
    assert_eq!(t.node(0).size, 11);
    assert_eq!(t.node(1).size, 10);
    assert_eq!(t.node(4).size, 6);
    assert_eq!(t.node(6).size, 3);
    assert_eq!(t.node(7).size, 1);
    assert_eq!(t.node(10).size, 1);
    assert_eq!(t.content(7), b"a".to_vec());
    assert_eq!(t.rank(10), 3);
    assert_eq!(t.rank(9), 2);
    assert_eq!(t.rank(0), 0);
}

#[test]
fn from_shape_hash_is_structural() {
    let a = function("f", "a");
    let b = function("f", "a");
    let c = function("f", "x");
    assert_eq!(a.node(0).hash, b.node(0).hash);
    assert_ne!(a.node(0).hash, c.node(0).hash);
    assert_ne!(a.node(6).hash, c.node(6).hash);
    assert_eq!(a.node(2).hash, c.node(2).hash);
    // A leaf of kind 10 with content "fn ": the seed, the kind, then three bytes.
    let mut h: u64 = 0xcbf2_9ce4_8422_2325;
    for x in [10u64, b'f' as u64, b'n' as u64, b' ' as u64] {
        h = (h ^ x).wrapping_mul(0x0000_0100_0000_01b3);
    }
    assert_eq!(a.node(2).hash, h);
}

#[test]
fn from_shape_refuses_what_is_no_tree() {
    let text = b"ab".to_vec();
    let root = Shape { kind: 1, parent: 0, text_start: 0, text_len: 0 };
    assert!(Snapshot::from_shape(vec![], text.clone()).is_none());
    assert!(Snapshot::from_shape(vec![root], text.clone()).is_some());
    // A root that names another node as its parent.
    let bad_root = Shape { kind: 1, parent: 1, text_start: 0, text_len: 0 };
    assert!(Snapshot::from_shape(vec![bad_root, root], text.clone()).is_none());
    // A parent that stands after its child.
    let forward = Shape { kind: 2, parent: 2, text_start: 0, text_len: 0 };
    let leaf = Shape { kind: 2, parent: 0, text_start: 0, text_len: 1 };
    assert!(Snapshot::from_shape(vec![root, forward, leaf], text.clone()).is_none());
    // Content outside the buffer.
    let long = Shape { kind: 2, parent: 0, text_start: 1, text_len: 2 };
    assert!(Snapshot::from_shape(vec![root, long], text.clone()).is_none());
    // A node under a parent whose subtree has already ended.
    let a = Shape { kind: 2, parent: 0, text_start: 0, text_len: 0 };
    let b = Shape { kind: 2, parent: 0, text_start: 0, text_len: 0 };
    let late = Shape { kind: 2, parent: 1, text_start: 0, text_len: 0 };
    assert!(Snapshot::from_shape(vec![root, a, b, late], text).is_none());
}

#[test]
fn new_checks_sizes() {
    let node = |parent: usize, size: usize| Node {
        kind: 1,
        parent,
        size,
        text_start: 0,
        text_len: 0,
        hash: 0,
    };
    assert!(Snapshot::new(vec![node(0, 2), node(0, 1)], vec![]).is_some());
    assert!(Snapshot::new(vec![node(0, 1), node(0, 1)], vec![]).is_none());
    assert!(Snapshot::new(vec![node(0, 2), node(0, 2)], vec![]).is_none());
    assert!(Snapshot::new(vec![node(0, 2), node(0, 0)], vec![]).is_none());
    assert!(Snapshot::new(vec![], vec![]).is_none());
}

#[test]
fn subtree_text_prints_in_document_order() {
    let t = function("f", "a");
    assert_eq!(t.subtree_text(0), b"fn f(a: i32) {}".to_vec());
    assert_eq!(t.subtree_text(4), b"(a: i32)".to_vec());
    assert_eq!(t.subtree_text(7), b"a".to_vec());
    assert_eq!(git_ast::filters::smudge(&t), b"fn f(a: i32) {}".to_vec());
    assert!(t.same_content(7, &function("g", "a"), 7));
    assert!(!t.same_content(7, &function("f", "b"), 7));
}

#[test]
fn diff_of_a_tree_with_itself_is_empty() {
    let t = function("f", "a");
    assert_eq!(diff(&t, &t, cfg()), vec![]);
    assert_eq!(diff(&t, &t, with_min_size(4)), vec![]);
    assert_eq!(diff(&t, &t, with_min_size(100)), vec![]);
    let one = Snapshot::from_shape(
        vec![Shape { kind: 1, parent: 0, text_start: 0, text_len: 0 }],
        vec![],
    )
    .unwrap();
    assert_eq!(diff(&one, &one, cfg()), vec![]);
}

#[test]
fn diff_is_repeatable() {
    let a = function("f", "a");
    let b = function("g", "x");
    let first = diff(&a, &b, cfg());
    let second = diff(&a, &b, cfg());
    assert_eq!(first, second);
    assert_eq!(format_script(&first), format_script(&second));
}

#[test]
fn diff_reports_an_update_for_a_renamed_leaf() {
    let a = function("f", "a");
    let b = function("f", "x");
    let m = match_trees(&a, &b, cfg());
    for i in 0..11 {
        assert_eq!(m.forward(i), Some(i));
        assert_eq!(m.backward(i), Some(i));
    }
    assert_eq!(diff(&a, &b, cfg()), vec![EditOp::Update { node: 7, source: 7 }]);
}

#[test]
fn diff_reports_deletes_and_inserts() {
    // A root with leaves "a" "b" against a root with leaves "b" "c".
    let leaf = |at: usize| Shape { kind: 2, parent: 0, text_start: at, text_len: 1 };
    let root = Shape { kind: 1, parent: 0, text_start: 0, text_len: 0 };
    let other = |at: usize| Shape { kind: 3, parent: 0, text_start: at, text_len: 1 };
    let t1 = Snapshot::from_shape(vec![root, leaf(0), leaf(1)], b"ab".to_vec()).unwrap();
    let t2 = Snapshot::from_shape(vec![root, leaf(0), other(1)], b"bc".to_vec()).unwrap();
    // "b" is paired by its hash and keeps its place among the paired; "a" is
    // paired with nothing of its kind that is free; "c" is new.
    assert_eq!(
        diff(&t1, &t2, cfg()),
        vec![EditOp::Delete { node: 1 }, EditOp::Insert { parent: 0, position: 1, node: 2 }]
    );
}

#[test]
fn diff_pairs_largest_subtrees_first() {
    // Two equal subtrees change places.
    let root = Shape { kind: 1, parent: 0, text_start: 0, text_len: 0 };
    let group = |kind: u32| Shape { kind, parent: 0, text_start: 0, text_len: 0 };
    let leaf = |parent: usize, at: usize| Shape { kind: 9, parent, text_start: at, text_len: 1 };
    let t1 = Snapshot::from_shape(
        vec![root, group(2), leaf(1, 0), group(3), leaf(3, 1)],
        b"pq".to_vec(),
    )
    .unwrap();
    let t2 = Snapshot::from_shape(
        vec![root, group(3), leaf(1, 0), group(2), leaf(3, 1)],
        b"qp".to_vec(),
    )
    .unwrap();
    let m = match_trees(&t1, &t2, with_min_size(2));
    assert_eq!(m.forward(1), Some(3));
    assert_eq!(m.forward(2), Some(4));
    assert_eq!(m.forward(3), Some(1));
    assert_eq!(m.forward(4), Some(2));
    assert_eq!(m.forward(0), Some(0));
    assert_eq!(
        diff(&t1, &t2, with_min_size(2)),
        vec![
            EditOp::Move { node: 1, parent: 0, position: 1 },
            EditOp::Move { node: 3, parent: 0, position: 0 },
        ]
    );
}

#[test]
fn diff_pairs_inner_nodes_by_shared_descendants() {
    let root = Shape { kind: 1, parent: 0, text_start: 0, text_len: 0 };
    let group = |parent: usize| Shape { kind: 2, parent, text_start: 0, text_len: 0 };
    let leaf = |parent: usize, at: usize| Shape { kind: 9, parent, text_start: at, text_len: 1 };
    let t1 = Snapshot::from_shape(
        vec![root, group(0), leaf(1, 0), leaf(1, 1), leaf(1, 2)],
        b"pqr".to_vec(),
    )
    .unwrap();
    let t2 = Snapshot::from_shape(
        vec![root, group(0), leaf(1, 0), leaf(1, 1), group(0), leaf(4, 2), leaf(4, 3), leaf(4, 4)],
        b"xypqs".to_vec(),
    )
    .unwrap();
    assert_eq!(DiffConfig::default(), cfg());
    // Two of three leaves are shared with the second group: 4/6 exceeds 1/2.
    let m = match_trees(&t1, &t2, cfg());
    assert_eq!(m.forward(0), Some(0));
    assert_eq!(m.forward(1), Some(4));
    assert_eq!(m.forward(2), Some(5));
    assert_eq!(m.forward(3), Some(6));
    assert_eq!(m.forward(4), Some(7));
    assert_eq!(m.backward(1), None);
    assert_eq!(
        diff(&t1, &t2, cfg()),
        vec![
            EditOp::Update { node: 4, source: 7 },
            EditOp::Insert { parent: 0, position: 0, node: 1 },
            EditOp::Insert { parent: 1, position: 0, node: 2 },
            EditOp::Insert { parent: 1, position: 1, node: 3 },
        ]
    );
    // No similarity exceeds 1: the group goes with the first free group
    // under the root.
    let strict = DiffConfig { min_size: 1, sim_num: 1, sim_den: 1 };
    let m = match_trees(&t1, &t2, strict);
    assert_eq!(m.forward(1), Some(1));
    assert_eq!(m.forward(2), Some(5));
}

#[test]
fn merge_of_disjoint_edits_has_no_conflict() {
    let base = function("f", "a");
    let ours = function("g", "a");
    let theirs = function("f", "y");
    let r = merge(&base, &ours, &theirs, cfg());
    assert!(r.is_clean());
    assert_eq!(r.conflicts, vec![]);
    assert_eq!(r.ours, vec![EditOp::Update { node: 3, source: 3 }]);
    assert_eq!(r.theirs, vec![EditOp::Update { node: 7, source: 7 }]);
    assert_eq!(r.pieces[3], Piece::Plain(Source::Ours(3)));
    assert_eq!(r.pieces[7], Piece::Plain(Source::Theirs(7)));
    assert_eq!(r.pieces[0], Piece::Plain(Source::Base));
    assert_eq!(
        print(&base, &ours, &theirs, &r, DEFAULT_MARKER_LEN),
        b"fn g(y: i32) {}".to_vec()
    );
}

#[test]
fn merge_applies_a_convergent_edit_once() {
    let base = function("f", "a");
    let ours = function("f", "z");
    let theirs = function("f", "z");
    let r = merge(&base, &ours, &theirs, cfg());
    assert!(r.is_clean());
    assert_eq!(r.ours, vec![EditOp::Update { node: 7, source: 7 }]);
    assert_eq!(r.theirs, vec![]);
    assert_eq!(print(&base, &ours, &theirs, &r, 7), b"fn f(z: i32) {}".to_vec());
}

#[test]
fn merge_conflict_on_renamed_parameter() {
    let base = function("f", "a");
    let ours = function("f", "x");
    let theirs = function("f", "y");
    let r = merge(&base, &ours, &theirs, cfg());
    assert!(!r.is_clean());
    assert_eq!(r.conflicts.len(), 1);
    let c = r.conflicts[0];
    assert_eq!(c.base, 7);
    assert_eq!(c.kind, ConflictKind::Content);
    assert_eq!(c.ours, EditOp::Update { node: 7, source: 7 });
    assert_eq!(c.theirs, EditOp::Update { node: 7, source: 7 });
    assert_eq!(ours.content(7), b"x".to_vec());
    assert_eq!(theirs.content(7), b"y".to_vec());
    assert_eq!(r.ours, vec![]);
    assert_eq!(r.theirs, vec![]);
    let text = print(&base, &ours, &theirs, &r, 7);
    assert_eq!(
        text,
        b"fn f(<<<<<<< HEAD\nx\n=======\ny\n>>>>>>> BRANCH\n: i32) {}".to_vec()
    );
    let s = String::from_utf8(text).unwrap();
    let head = s.find("<<<<<<< HEAD").unwrap();
    let x = s[head..].find("x").unwrap() + head;
    let sep = s[x..].find("=======").unwrap() + x;
    let y = s[sep..].find("y").unwrap() + sep;
    let tail = s[y..].find(">>>>>>> BRANCH").unwrap() + y;
    assert!(head < x && x < sep && sep < y && y < tail);
}

#[test]
fn merge_delete_against_update_is_a_conflict() {
    let leaf = |at: usize| Shape { kind: 2, parent: 0, text_start: at, text_len: 1 };
    let root = Shape { kind: 1, parent: 0, text_start: 0, text_len: 0 };
    let base = Snapshot::from_shape(vec![root, leaf(0)], b"a".to_vec()).unwrap();
    let ours = Snapshot::from_shape(vec![root], b"".to_vec()).unwrap();
    let theirs = Snapshot::from_shape(vec![root, leaf(0)], b"b".to_vec()).unwrap();
    let r = merge(&base, &ours, &theirs, cfg());
    assert_eq!(r.conflicts.len(), 1);
    assert_eq!(r.conflicts[0].kind, ConflictKind::DeleteEdit);
    assert_eq!(r.conflicts[0].base, 1);
    assert_eq!(r.conflicts[0].ours, EditOp::Delete { node: 1 });
    assert_eq!(r.conflicts[0].theirs, EditOp::Update { node: 1, source: 1 });
    assert_eq!(r.pieces[1], Piece::Clash(Source::Absent, Source::Theirs(1)));
    assert_eq!(
        print(&base, &ours, &theirs, &r, 3),
        b"<<< HEAD\n\n===\nb\n>>> BRANCH\n".to_vec()
    );
    // Deleted on both sides: applied once.
    let gone = merge(&base, &ours, &ours, cfg());
    assert!(gone.is_clean());
    assert_eq!(gone.ours, vec![EditOp::Delete { node: 1 }]);
    assert_eq!(gone.theirs, vec![]);
    assert_eq!(print(&base, &ours, &ours, &gone, 7), b"".to_vec());
}

#[test]
fn merge_move_to_different_places_is_a_conflict() {
    let root = Shape { kind: 1, parent: 0, text_start: 0, text_len: 0 };
    let leaf = |kind: u32, at: usize| Shape { kind, parent: 0, text_start: at, text_len: 1 };
    let base = Snapshot::from_shape(vec![root, leaf(2, 0), leaf(3, 1), leaf(4, 2)], b"abc".to_vec())
        .unwrap();
    // Ours turns the three round to b c a, theirs to c a b.
    let ours = Snapshot::from_shape(vec![root, leaf(3, 0), leaf(4, 1), leaf(2, 2)], b"bca".to_vec())
        .unwrap();
    let theirs = Snapshot::from_shape(vec![root, leaf(4, 0), leaf(2, 1), leaf(3, 2)], b"cab".to_vec())
        .unwrap();
    let r = merge(&base, &ours, &theirs, cfg());
    assert_eq!(r.conflicts.len(), 3);
    for c in r.conflicts.iter() {
        assert_eq!(c.kind, ConflictKind::Move);
    }
    assert_eq!(r.conflicts[0].base, 1);
    assert_eq!(r.conflicts[0].ours, EditOp::Move { node: 1, parent: 0, position: 2 });
    assert_eq!(r.conflicts[0].theirs, EditOp::Move { node: 1, parent: 0, position: 1 });
    // Each of the three is fenced where "ours" has it, with what either side
    // holds for it.
    assert_eq!(r.pieces[1], Piece::Clash(Source::Base, Source::Base));
    assert_eq!(
        print(&base, &ours, &theirs, &r, 1),
        b"< HEAD\nb\n=\nb\n> BRANCH\n< HEAD\nc\n=\nc\n> BRANCH\n< HEAD\na\n=\na\n> BRANCH\n"
            .to_vec()
    );
    // The same move on both sides is applied once.
    let same = merge(&base, &ours, &ours, cfg());
    assert!(same.is_clean());
    assert_eq!(same.ours.len(), 3);
    assert_eq!(same.theirs, vec![]);
}

#[test]
fn fence_has_the_asked_width() {
    let mut out = b"-".to_vec();
    append_fence(&mut out, 2, &b"l".to_vec(), &b"r".to_vec());
    assert_eq!(out, b"-<< HEAD\nl\n==\nr\n>> BRANCH\n".to_vec());
}

#[test]
fn diff_driver_prints_the_script() {
    let a = function("f", "a");
    let b = function("f", "x");
    assert_eq!(run_diff_driver(&a, &b, cfg()), b"update 7 from 7\n".to_vec());
    assert_eq!(run_diff_driver(&a, &a, cfg()), b"".to_vec());
    let script = vec![
        EditOp::Insert { parent: 10, position: 0, node: 123 },
        EditOp::Delete { node: 0 },
        EditOp::Move { node: 9, parent: 18446744073709551615, position: 40 },
    ];
    assert_eq!(
        format_script(&script),
        b"insert 123 under 10 at 0\ndelete 0\nmove 9 under 18446744073709551615 at 40\n".to_vec()
    );
}

#[test]
fn merge_driver_reports_conflicts() {
    let base = function("f", "a");
    let (text, status) = run_merge_driver(&base, &function("f", "x"), &function("f", "y"), 7, cfg());
    assert_eq!(status, Err(Error::Driver(DriverFault::Conflicts)));
    assert_eq!(
        text,
        b"fn f(<<<<<<< HEAD\nx\n=======\ny\n>>>>>>> BRANCH\n: i32) {}".to_vec()
    );
    let (text, status) = run_merge_driver(&base, &function("g", "a"), &function("f", "y"), 7, cfg());
    assert_eq!(status, Ok(()));
    assert_eq!(text, b"fn g(y: i32) {}".to_vec());
}

#[test]
fn merge_snapshots_gives_mappings_result_and_tree() {
    let base = function("f", "a");
    let ours = function("g", "a");
    let theirs = function_of_two("f", "a", "b");
    let m = merge_snapshots(&base, &ours, &theirs, cfg());
    assert_eq!(m.result, merge(&base, &ours, &theirs, cfg()));
    assert_eq!(m.to_ours, match_trees(&base, &ours, cfg()));
    assert_eq!(m.to_theirs, match_trees(&base, &theirs, cfg()));
    assert_eq!(m.to_theirs.backward(10), None);
    assert_eq!(m.to_theirs.forward(9), Some(13));
    let tree = m.tree.expect("a merged tree");
    assert_eq!(tree.subtree_text(0), b"fn g(a: i32, b: u8) {}".to_vec());
    assert_eq!(
        render(&base, &ours, &theirs, &m.to_ours, &m.to_theirs, &m.result, 7),
        tree.subtree_text(0)
    );
}

#[test]
fn diff_prefers_the_nearer_of_equally_similar_partners() {
    let root = Shape { kind: 1, parent: 0, text_start: 0, text_len: 0 };
    let group = |parent: usize| Shape { kind: 2, parent, text_start: 0, text_len: 0 };
    let leaf = |parent: usize, at: usize| Shape { kind: 9, parent, text_start: at, text_len: 1 };
    let t1 = Snapshot::from_shape(
        vec![root, leaf(0, 0), leaf(0, 1), leaf(0, 2), group(0), leaf(4, 3), leaf(4, 4)],
        b"uvwpq".to_vec(),
    )
    .unwrap();
    let t2 = Snapshot::from_shape(
        vec![root, group(0), leaf(1, 0), leaf(1, 1), group(0), leaf(4, 2), leaf(4, 3)],
        b"pzqx".to_vec(),
    )
    .unwrap();
    // The group shares one leaf of two with either group: 2/4 exceeds 1/4
    // both times, and the second stands where the group itself stands.
    let m = match_trees(&t1, &t2, DiffConfig { min_size: 1, sim_num: 1, sim_den: 4 });
    assert_eq!(m.forward(5), Some(2));
    assert_eq!(m.forward(6), Some(5));
    assert_eq!(m.forward(4), Some(4));
    assert_eq!(m.backward(1), None);
}

#[test]
fn similarity_of_mapped_pairs() {
    let a = function("f", "a");
    let b = function("f", "x");
    let m = match_trees(&a, &b, cfg());
    // Both children of the parameter are paired; a pair of leaves counts as one.
    assert_eq!(similarity(&a, &b, &m, 6), Some((4, 4)));
    assert_eq!(similarity(&a, &b, &m, 7), Some((1, 1)));
    assert_eq!(similarity(&a, &b, &m, 0), Some((20, 20)));
    let longer = function_of_two("f", "a", "b");
    let m = match_trees(&a, &longer, cfg());
    assert_eq!(similarity(&a, &longer, &m, 4), Some((10, 14)));
    let m = match_trees(&longer, &a, cfg());
    assert_eq!(similarity(&longer, &a, &m, 10), None);
    assert_eq!(similarity(&longer, &a, &m, 4), Some((10, 14)));
}

#[test]
fn additions_on_both_sides_do_not_conflict() {
    // Both sides put a leaf of their own before the one leaf of the base.
    let root = Shape { kind: 1, parent: 0, text_start: 0, text_len: 0 };
    let leaf = |kind: u32, at: usize| Shape { kind, parent: 0, text_start: at, text_len: 1 };
    let base = Snapshot::from_shape(vec![root, leaf(2, 0)], b"m".to_vec()).unwrap();
    let ours = Snapshot::from_shape(vec![root, leaf(3, 0), leaf(2, 1)], b"am".to_vec()).unwrap();
    let theirs =
        Snapshot::from_shape(vec![root, leaf(4, 0), leaf(4, 1), leaf(2, 2)], b"bcm".to_vec())
            .unwrap();
    assert_eq!(
        diff(&base, &theirs, cfg()),
        vec![
            EditOp::Insert { parent: 0, position: 0, node: 1 },
            EditOp::Insert { parent: 0, position: 1, node: 2 },
        ]
    );
    let m = merge_snapshots(&base, &ours, &theirs, cfg());
    assert!(m.result.is_clean());
    assert_eq!(m.result.ours, vec![EditOp::Insert { parent: 0, position: 0, node: 1 }]);
    assert_eq!(m.result.theirs.len(), 2);
    assert_eq!(print(&base, &ours, &theirs, &m.result, 7), b"bcam".to_vec());
    assert_eq!(m.tree.unwrap().subtree_text(0), b"bcam".to_vec());
}

#[test]
fn a_rename_beside_an_equal_sibling_pairs_the_equal_ones() {
    // Two equal leaves, of which "ours" renames the first: the first of the
    // base is paired with the one that still reads the same.
    let root = Shape { kind: 1, parent: 0, text_start: 0, text_len: 0 };
    let leaf = |at: usize| Shape { kind: 2, parent: 0, text_start: at, text_len: 1 };
    let base = Snapshot::from_shape(vec![root, leaf(0), leaf(1)], b"aa".to_vec()).unwrap();
    let ours = Snapshot::from_shape(vec![root, leaf(0), leaf(1)], b"xa".to_vec()).unwrap();
    let m = match_trees(&base, &ours, cfg());
    assert_eq!(m.forward(0), Some(0));
    assert_eq!(m.forward(1), Some(2));
    assert_eq!(m.forward(2), Some(1));
}
