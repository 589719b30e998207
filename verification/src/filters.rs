//! The clean and smudge conversions.
//!
//! Cleaning turns the text of the working tree into the stored form;
//! smudging turns the stored form back into text. Parsing and encoding are
//! done by whoever calls: the functions here decide what becomes of their
//! results, and frame the stored form.

use vstd::prelude::*;
use crate::error::Error;
use crate::protocol::{Command, Outcome};
use crate::syntax::{
    parse_rust_bytes, snapshot, snapshot_of, syntax_nodes, RawNode,
};
use crate::text::{begins, starts_with, stored_tag, stored_tag_bytes};
use crate::tree::Snapshot;

verus! {

/// What to do with text that does not parse.
#[derive(Clone, Copy, Debug, PartialEq, Eq, Structural)]
pub enum ParsePolicy {
    /// The clean fails.
    FailHard,
    /// The text is stored as it is.
    PassThrough,
}

impl Default for ParsePolicy {
    fn default() -> (r: ParsePolicy)
        ensures
            r == ParsePolicy::FailHard,
    {
        ParsePolicy::FailHard
    }
}

/// The result of a clean, from the text, from what parsing and encoding
/// gave, and from the policy: the encoded tree where there is one; the text
/// itself where it did not parse and the policy lets it through; else the
/// error.
pub open spec fn clean_result(
    input: Seq<u8>,
    stored: Result<Seq<u8>, Error>,
    policy: ParsePolicy,
) -> Result<Seq<u8>, Error> {
    match stored {
        Ok(b) => Ok(b),
        Err(Error::Parsing) => if policy == ParsePolicy::PassThrough {
            Ok(input)
        } else {
            Err(Error::Parsing)
        },
        Err(e) => Err(e),
    }
}

/// Whether an executable result agrees with a mathematical one.
pub open spec fn result_matches(r: Result<Vec<u8>, Error>, s: Result<Seq<u8>, Error>) -> bool {
    match (r, s) {
        (Ok(v), Ok(b)) => v@ == b,
        (Err(e), Err(f)) => e == f,
        _ => false,
    }
}

/// A result as a mathematical value.
pub open spec fn result_view(r: Result<Vec<u8>, Error>) -> Result<Seq<u8>, Error> {
    match r {
        Ok(v) => Ok(v@),
        Err(e) => Err(e),
    }
}

fn copy_bytes(s: &[u8]) -> (r: Vec<u8>)
    ensures
        r@ == s@,
{
    let mut out: Vec<u8> = Vec::new();
    out.extend_from_slice(s);
    assert(out@ =~= s@);
    out
}

/// Decides the result of a clean of `input`, given what parsing and
/// encoding it gave.
pub fn clean(input: &[u8], stored: Result<Vec<u8>, Error>, policy: ParsePolicy) -> (r: Result<
    Vec<u8>,
    Error,
>)
    ensures
        result_matches(r, clean_result(input@, result_view(stored), policy)),
{
    match stored {
        Ok(b) => Ok(b),
        Err(Error::Parsing) => {
            if policy == ParsePolicy::PassThrough {
                Ok(copy_bytes(input))
            } else {
                Err(Error::Parsing)
            }
        },
        Err(e) => Err(e),
    }
}

/// Generates the text of a decoded tree: the contents of its nodes in
/// document order. Equal trees give equal text.
pub fn smudge(tree: &Snapshot) -> (r: Vec<u8>)
    requires
        tree@.wf(),
    ensures
        r@ == tree@.subtree_text(0),
{
    tree.subtree_text(0)
}

/// The reply that a conversion's result calls for.
pub fn outcome_of(r: Result<Vec<u8>, Error>) -> (o: Outcome)
    ensures
        match r {
            Ok(v) => o.view() == Some(Some(v@)),
            Err(_) => o.view() == Some(None::<Seq<u8>>),
        },
{
    match r {
        Ok(v) => Outcome::Converted(v),
        Err(_) => Outcome::Failed,
    }
}

/// The stored form of a payload: the tag, then the payload.
pub open spec fn stored_form(payload: Seq<u8>) -> Seq<u8> {
    stored_tag() + payload
}

/// The payload of a stored form; bytes without the tag are taken as they
/// are.
pub open spec fn plain_form(stored: Seq<u8>) -> Seq<u8> {
    if starts_with(stored, stored_tag()) {
        stored.subrange(stored_tag().len() as int, stored.len() as int)
    } else {
        stored
    }
}

/// Puts the content of the file at `pathname` into its stored form.
pub fn perform_clean(input_content: &[u8], pathname: &str) -> (r: Result<Vec<u8>, Error>)
    ensures
        result_matches(r, Ok(stored_form(input_content@))),
{
    let mut output = stored_tag_bytes();
    output.extend_from_slice(input_content);
    assert(output@ =~= stored_form(input_content@));
    Ok(output)
}

/// Takes the content of the file at `pathname` out of its stored form.
pub fn perform_smudge(input_content: &[u8], pathname: &str) -> (r: Result<Vec<u8>, Error>)
    ensures
        result_matches(r, Ok(plain_form(input_content@))),
{
    let tag = stored_tag_bytes();
    let n = input_content.len();
    assert(input_content@.subrange(0, n as int) =~= input_content@);
    if begins(input_content, n, &tag) {
        let mut out: Vec<u8> = Vec::new();
        let mut k: usize = tag.len();
        while k < n
            invariant
                tag@.len() <= k <= n,
                n == input_content@.len(),
                out@ == input_content@.subrange(tag@.len() as int, k as int),
            decreases n - k,
        {
            out.push(input_content[k]);
            k += 1;
            assert(out@ =~= input_content@.subrange(tag@.len() as int, k as int));
        }
        assert(out@ =~= input_content@.subrange(tag@.len() as int, n as int));
        Ok(out)
    } else {
        Ok(copy_bytes(input_content))
    }
}

/// Smudging a stored form gives the payload back.
pub proof fn lemma_smudge_undoes_clean(s: Seq<u8>)
    ensures
        plain_form(stored_form(s)) == s,
{
    let t = stored_form(s);
    assert(t.subrange(0, stored_tag().len() as int) =~= stored_tag());
    assert(t.subrange(stored_tag().len() as int, t.len() as int) =~= s);
}

/// The stored form is a fixed point of smudging and cleaning again.
pub proof fn lemma_clean_idempotent(s: Seq<u8>)
    ensures
        stored_form(plain_form(stored_form(s))) == stored_form(s),
{
    lemma_smudge_undoes_clean(s);
}

/// What encoding a parsed text gives: the stored form of the text that its
/// snapshot prints; `Serialization` where the nodes make no snapshot over
/// the text; `Parsing` where there was no tree.
pub open spec fn encoded(input: Seq<u8>, nodes: Option<Seq<RawNode>>) -> Result<Seq<u8>, Error> {
    match nodes {
        None => Err(Error::Parsing),
        Some(raw) => match snapshot_of(raw, input) {
            None => Err(Error::Serialization),
            Some(v) => Ok(stored_form(v.subtree_text(0))),
        },
    }
}

/// The nodes of a parsed tree, if there is one.
pub open spec fn nodes_of(parsed: Option<&tree_sitter::Tree>) -> Option<Seq<RawNode>> {
    match parsed {
        Some(tree) => Some(syntax_nodes(*tree)),
        None => None,
    }
}

/// Cleans `input`, given the tree that parsing it gave, if it gave one.
pub fn clean_parsed(input: &[u8], parsed: Option<&tree_sitter::Tree>, policy: ParsePolicy) -> (r:
    Result<Vec<u8>, Error>)
    ensures
        result_matches(r, clean_result(input@, encoded(input@, nodes_of(parsed)), policy)),
{
    let stored = match parsed {
        None => Err(Error::Parsing),
        Some(tree) => match snapshot(tree, input) {
            None => Err(Error::Serialization),
            Some(snap) => {
                assert(snap@.wf());
                let text = smudge(&snap);
                let mut output = stored_tag_bytes();
                output.extend_from_slice(text.as_slice());
                assert(output@ =~= stored_form(snap@.subtree_text(0)));
                Ok(output)
            },
        },
    };
    clean(input, stored, policy)
}

/// What holds of a clean of `input`, whatever tree the parser gave: what
/// comes back is the stored form that some sequence of nodes encodes to
/// over the input, or the input itself under `PassThrough`; the error is
/// `Parsing` under `FailHard`, or `Serialization`.
pub open spec fn clean_holds(r: Result<Vec<u8>, Error>, input: Seq<u8>, policy: ParsePolicy) -> bool {
    match r {
        Ok(v) => (exists|raw: Seq<RawNode>|
            #[trigger] encoded(input, Some(raw)) == Ok::<Seq<u8>, Error>(v@)) || (policy
            == ParsePolicy::PassThrough && v@ == input),
        Err(e) => (e == Error::Parsing && policy == ParsePolicy::FailHard) || e
            == Error::Serialization,
    }
}

/// Cleans Rust source: parses it and stores what its snapshot prints. Text
/// for which the parser gives no tree fails the clean, or is stored as it
/// is under `PassThrough`.
pub fn clean_source(input: &[u8], policy: ParsePolicy) -> (r: Result<Vec<u8>, Error>)
    ensures
        clean_holds(r, input@, policy),
{
    let parsed = parse_rust_bytes(input);
    let r = match &parsed {
        Ok(tree) => clean_parsed(input, Some(tree), policy),
        Err(_) => clean_parsed(input, None, policy),
    };
    proof {
        if parsed.is_ok() && r.is_ok() {
            let raw = syntax_nodes(parsed.unwrap());
            assert(encoded(input@, Some(raw)) == Ok::<Seq<u8>, Error>(r.unwrap()@));
        }
    }
    r
}

/// Converts the content of one file as the command asks: a clean parses
/// and stores, a smudge takes the text out of the stored form.
pub fn convert(command: Command, content: &[u8], pathname: &str, policy: ParsePolicy) -> (r: Result<
    Vec<u8>,
    Error,
>)
    ensures
        command == Command::Smudge ==> result_matches(r, Ok(plain_form(content@))),
        command == Command::Clean ==> clean_holds(r, content@, policy),
{
    match command {
        Command::Clean => clean_source(content, policy),
        Command::Smudge => perform_smudge(content, pathname),
    }
}

} // verus!
