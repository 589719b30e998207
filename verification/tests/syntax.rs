use git_ast::error::Error;
use git_ast::filters::{clean, clean_parsed, clean_source, convert, smudge, ParsePolicy};
use git_ast::protocol::Command;
use git_ast::pktline::{packet_size, FrameError};
use git_ast::syntax::{
    parse_rust_bytes, parse_rust_code, read_nodes, shapes_of, snapshot, snapshot_from_nodes,
    snapshot_source, tree_or_error, RawNode,
};
use git_ast::tree::Shape;

const SAMPLE: &str = r#"
fn main() {
    println!("Hello, AST!");
}
fn greet(name: &str) {
    println!("Hello, {}!", name);
}
"#;

#[test]
fn test_parse_poc_sample() {
    // Use the same simple source code as in main for testing
    let source_code = r#"
fn main() {
    println!("Hello, AST!");
}
fn greet(name: &str) {
    println!("Hello, {}!", name);
}
"#;
    // Call the new function and assert it succeeds
    let parse_result = parse_rust_code(source_code);
    assert!(parse_result.is_ok(), "Parsing failed: {:?}", parse_result.err());

    // Optional: Further checks on the returned tree if needed
    if let Ok(tree) = parse_result {
        let root_node = tree.root_node();
        assert_eq!(root_node.kind(), "source_file", "Root node kind mismatch");
    }
}

#[test]
fn nodes_are_read_in_document_order() {
    let tree = parse_rust_code(SAMPLE).unwrap();
    let raw = read_nodes(&tree);
    assert_eq!(raw.len(), tree.root_node().descendant_count());
    assert!(raw.len() > 10);
    assert_eq!(raw[0].depth, 0);
    assert_eq!(raw[0].kind, tree.root_node().kind_id());
    assert_eq!(raw[0].children, 2);
    let first = tree.root_node().child(0).unwrap();
    assert_eq!(raw[1].depth, 1);
    assert_eq!(raw[1].kind, first.kind_id());
    assert_eq!((raw[1].start, raw[1].end), (first.start_byte(), first.end_byte()));
    assert_eq!(raw[2].depth, 2);
    assert_eq!((raw[2].start, raw[2].end), (1, 3));
    for k in 1..raw.len() {
        assert!(raw[k].depth >= 1 && raw[k].depth <= raw[k - 1].depth + 1);
    }
}

#[test]
fn snapshot_spells_the_source() {
    let tree = parse_rust_code(SAMPLE).unwrap();
    let snap = snapshot(&tree, SAMPLE.as_bytes()).expect("a snapshot");
    assert_eq!(snap.len(), tree.root_node().descendant_count());
    assert_eq!(snap.node(0).size, snap.len());
    let text = smudge(&snap);
    assert_eq!(text, SAMPLE.as_bytes()[..SAMPLE.len() - 1].to_vec());
    // Parsing what was printed gives the same tree again.
    let printed = String::from_utf8(text).unwrap();
    let again = snapshot(&parse_rust_code(&printed).unwrap(), printed.as_bytes()).unwrap();
    assert_eq!(again.node(0).hash, snap.node(0).hash);
    assert_eq!(smudge(&again), printed.as_bytes().to_vec());
    // A source that is shorter than the tree's leaves say is refused.
    assert!(snapshot(&tree, b"fn").is_none());
}

#[test]
fn shapes_follow_depth_and_leaves() {
    let n = |depth: u32, start: usize, end: usize, children: usize| RawNode {
        kind: 7,
        depth,
        start,
        end,
        children,
    };
    // root( a( "x" "y" ) "z" ) over " x y  z"
    let raw = vec![n(0, 1, 7, 2), n(1, 1, 4, 2), n(2, 1, 2, 0), n(2, 3, 4, 0), n(1, 6, 7, 0)];
    let s = shapes_of(&raw).unwrap();
    let shape = |parent: usize, text_start: usize, text_len: usize| Shape {
        kind: 7,
        parent,
        text_start,
        text_len,
    };
    assert_eq!(s, vec![shape(0, 0, 0), shape(0, 0, 0), shape(1, 0, 2), shape(1, 2, 2), shape(0, 4, 3)]);
    let snap = snapshot_from_nodes(&raw, b" x y  z").unwrap();
    assert_eq!(smudge(&snap), b" x y  z".to_vec());
    assert_eq!(snap.content(4), b"  z".to_vec());
    assert_eq!(snap.node(1).size, 3);
    assert!(snapshot_from_nodes(&raw, b" x y ").is_none());
    assert_eq!(shapes_of(&vec![]), Some(vec![]));
    assert!(snapshot_from_nodes(&vec![], b"").is_none());
    // A first node that is no root, a second root, a node two levels down
    // at once, a leaf that ends before the last one.
    assert_eq!(shapes_of(&vec![n(1, 0, 0, 0)]), None);
    assert_eq!(shapes_of(&vec![n(0, 0, 1, 1), n(0, 0, 1, 0)]), None);
    assert_eq!(shapes_of(&vec![n(0, 0, 1, 1), n(2, 0, 1, 0)]), None);
    assert_eq!(shapes_of(&vec![n(0, 0, 4, 2), n(1, 0, 3, 0), n(1, 1, 2, 0)]), None);
}

#[test]
fn clean_of_parsed_source() {
    let parsed = parse_rust_code(SAMPLE).map(|t| read_nodes(&t).len().to_string().into_bytes());
    assert!(clean(SAMPLE.as_bytes(), parsed, ParsePolicy::FailHard).is_ok());
    assert_eq!(
        clean(SAMPLE.as_bytes(), Err(Error::Parsing), ParsePolicy::default()),
        Err(Error::Parsing)
    );
}

#[test]
fn packet_size_reads_the_prefix() {
    assert_eq!(packet_size(b"0000", 0), Ok(0));
    assert_eq!(packet_size(b"0004", 0), Ok(4));
    assert_eq!(packet_size(b"xx001f", 2), Ok(31));
    assert_eq!(packet_size(b"ffff", 0), Ok(65535));
    assert_eq!(packet_size(b"0002", 0), Err(FrameError::BadLength));
    assert_eq!(packet_size(b"00 4", 0), Err(FrameError::BadLength));
    assert_eq!(packet_size(b"004", 0), Err(FrameError::Truncated));
}

#[test]
fn clean_smudge_clean_is_clean() {
    let sources = [SAMPLE, "fn  f ( a : i32 )  { }\n\n", "struct S;", "", "fn broken( {"];
    for source in sources {
        let stored = clean_source(source.as_bytes(), ParsePolicy::FailHard).unwrap();
        assert!(stored.starts_with(b"SERIALIZED:"));
        let text = convert(Command::Smudge, &stored, "a.rs", ParsePolicy::FailHard).unwrap();
        let again = convert(Command::Clean, &text, "a.rs", ParsePolicy::FailHard).unwrap();
        assert_eq!(again, stored);
    }
    let stored = clean_source(b"fn f() {}\n", ParsePolicy::FailHard).unwrap();
    assert_eq!(stored, b"SERIALIZED:fn f() {}".to_vec());
}

#[test]
fn clean_without_a_tree_follows_the_policy() {
    assert_eq!(clean_parsed(b"text", None, ParsePolicy::FailHard), Err(Error::Parsing));
    assert_eq!(clean_parsed(b"text", None, ParsePolicy::PassThrough), Ok(b"text".to_vec()));
    let tree = parse_rust_code("fn f() {}").unwrap();
    assert_eq!(
        clean_parsed(b"fn f() {}", Some(&tree), ParsePolicy::PassThrough),
        Ok(b"SERIALIZED:fn f() {}".to_vec())
    );
    // A tree that does not fit the text makes no snapshot.
    assert_eq!(
        clean_parsed(b"fn", Some(&tree), ParsePolicy::PassThrough),
        Err(Error::Serialization)
    );
}

#[test]
fn snapshot_of_a_source() {
    let snap = snapshot_source(b"fn f(a: i32) {}").unwrap();
    assert_eq!(smudge(&snap), b"fn f(a: i32) {}".to_vec());
    assert_eq!(snap.node(0).parent, 0);
    assert!(snap.len() > 5);
}

#[test]
fn a_parser_without_a_tree_is_a_parse_error() {
    assert!(matches!(tree_or_error(None), Err(Error::Parsing)));
    let tree = parse_rust_bytes(b"struct S;").unwrap();
    let nodes = read_nodes(&tree);
    let kept = tree_or_error(Some(tree)).unwrap();
    assert_eq!(read_nodes(&kept), nodes);
    assert_eq!(kept.root_node().kind(), "source_file");
}

#[test]
fn the_same_source_parses_to_the_same_nodes() {
    let first = read_nodes(&parse_rust_bytes(SAMPLE.as_bytes()).unwrap());
    let second = read_nodes(&parse_rust_code(SAMPLE).unwrap());
    assert_eq!(first, second);
    let other = read_nodes(&parse_rust_code("fn f() {}").unwrap());
    assert_ne!(first, other);
    assert_eq!(other.len(), 10);
    assert_eq!((other[0].start, other[0].end), (0, 9));
}
