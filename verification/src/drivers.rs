//! The diff driver and the merge driver, from values to values.
//!
//! The host calls the diff driver with seven arguments (`path old-file
//! old-hex old-mode new-file new-hex new-mode`) and the merge driver with
//! five (`base-file current-file other-file marker-size pathname`). Reading
//! and writing the files named there is the caller's part.

use vstd::prelude::*;
use crate::diff::{diff, edit_script, matching, DiffConfig, EditOp};
use crate::error::{DriverFault, Error};
use crate::graft::merge_snapshots;
use crate::merge::merged;
use crate::render::{render, rendered, DEFAULT_MARKER_LEN};
use crate::text::{
    word_at, word_at_bytes, word_delete, word_delete_bytes, word_from, word_from_bytes,
    word_insert, word_insert_bytes, word_move, word_move_bytes, word_under, word_under_bytes,
    word_update, word_update_bytes,
};
use crate::tree::Snapshot;

verus! {

/// What `str::parse::<usize>` makes of a text.
pub uninterp spec fn parsed_size(text: Seq<char>) -> Option<usize>;

/// Calls `str::parse::<usize>`. Its result is a function of the text alone;
/// nothing more is claimed of it.
#[verifier::external_body]
fn parse_size(text: &str) -> (r: Option<usize>)
    ensures
        r == parsed_size(text@),
{
    text.parse::<usize>().ok()
}

/// The marker size for a parsed argument: the number, or the default where
/// the argument was none.
pub fn marker_size_or_default(parsed: Option<usize>) -> (r: usize)
    ensures
        r == match parsed {
            Some(n) => n,
            None => DEFAULT_MARKER_LEN,
        },
{
    match parsed {
        Some(n) => n,
        None => DEFAULT_MARKER_LEN,
    }
}

/// The files that a diff driver call names.
#[derive(Clone, Copy, Debug)]
pub struct DiffArgs<'a> {
    pub path: &'a String,
    pub old_file: &'a String,
    pub new_file: &'a String,
}

/// The files and the marker size that a merge driver call names.
#[derive(Clone, Copy, Debug)]
pub struct MergeArgs<'a> {
    pub base: &'a String,
    pub current: &'a String,
    pub other: &'a String,
    pub marker_size: usize,
    pub pathname: &'a String,
}

/// Reads the arguments of a diff driver call. Fewer than seven are refused.
pub fn diff_driver_args<'a>(args: &'a Vec<String>) -> (r: Result<DiffArgs<'a>, Error>)
    ensures
        args@.len() < 7 ==> r.is_err() && r.unwrap_err() == Error::Driver(
            DriverFault::DiffArguments,
        ),
        args@.len() >= 7 ==> r.is_ok() && *r.unwrap().path == args@[0] && *r.unwrap().old_file
            == args@[1] && *r.unwrap().new_file == args@[4],
{
    if args.len() < 7 {
        return Err(Error::Driver(DriverFault::DiffArguments));
    }
    Ok(DiffArgs { path: &args[0], old_file: &args[1], new_file: &args[4] })
}

/// Reads the arguments of a merge driver call. Fewer than five are refused;
/// a marker size that is no number counts as the default.
pub fn merge_driver_args<'a>(args: &'a Vec<String>) -> (r: Result<MergeArgs<'a>, Error>)
    ensures
        args@.len() < 5 ==> r.is_err() && r.unwrap_err() == Error::Driver(
            DriverFault::MergeArguments,
        ),
        args@.len() >= 5 ==> r.is_ok() && *r.unwrap().base == args@[0] && *r.unwrap().current
            == args@[1] && *r.unwrap().other == args@[2] && *r.unwrap().pathname == args@[4]
            && r.unwrap().marker_size == match parsed_size(args@[3]@) {
            Some(n) => n,
            None => DEFAULT_MARKER_LEN,
        },
{
    if args.len() < 5 {
        return Err(Error::Driver(DriverFault::MergeArguments));
    }
    let marker_size = marker_size_or_default(parse_size(args[3].as_str()));
    Ok(
        MergeArgs {
            base: &args[0],
            current: &args[1],
            other: &args[2],
            marker_size,
            pathname: &args[4],
        },
    )
}

/// A number in decimal digits.
pub open spec fn decimal(n: nat) -> Seq<u8>
    decreases n,
{
    if n < 10 {
        seq![(48 + n) as u8]
    } else {
        decimal(n / 10) + seq![(48 + n % 10) as u8]
    }
}

/// One operation as a line of text.
pub open spec fn op_line(op: EditOp) -> Seq<u8> {
    match op {
        EditOp::Insert { parent, position, node } => word_insert() + decimal(node as nat)
            + word_under() + decimal(parent as nat) + word_at() + decimal(position as nat)
            + seq![10u8],
        EditOp::Delete { node } => word_delete() + decimal(node as nat) + seq![10u8],
        EditOp::Move { node, parent, position } => word_move() + decimal(node as nat)
            + word_under() + decimal(parent as nat) + word_at() + decimal(position as nat)
            + seq![10u8],
        EditOp::Update { node, source } => word_update() + decimal(node as nat) + word_from()
            + decimal(source as nat) + seq![10u8],
    }
}

/// The first `k` operations of a script as lines of text.
pub open spec fn script_text(script: Seq<EditOp>, k: int) -> Seq<u8>
    decreases k,
{
    if k <= 0 {
        Seq::empty()
    } else {
        script_text(script, k - 1) + op_line(script[k - 1])
    }
}

fn append_decimal(out: &mut Vec<u8>, n: usize)
    ensures
        final(out)@ == old(out)@ + decimal(n as nat),
    decreases n,
{
    if n >= 10 {
        append_decimal(out, n / 10);
    }
    out.push((48 + n % 10) as u8);
    assert(out@ =~= old(out)@ + decimal(n as nat));
}

fn append_op(out: &mut Vec<u8>, op: EditOp)
    ensures
        final(out)@ == old(out)@ + op_line(op),
{
    match op {
        EditOp::Insert { parent, position, node } => {
            out.extend_from_slice(word_insert_bytes().as_slice());
            append_decimal(out, node);
            out.extend_from_slice(word_under_bytes().as_slice());
            append_decimal(out, parent);
            out.extend_from_slice(word_at_bytes().as_slice());
            append_decimal(out, position);
        },
        EditOp::Delete { node } => {
            out.extend_from_slice(word_delete_bytes().as_slice());
            append_decimal(out, node);
        },
        EditOp::Move { node, parent, position } => {
            out.extend_from_slice(word_move_bytes().as_slice());
            append_decimal(out, node);
            out.extend_from_slice(word_under_bytes().as_slice());
            append_decimal(out, parent);
            out.extend_from_slice(word_at_bytes().as_slice());
            append_decimal(out, position);
        },
        EditOp::Update { node, source } => {
            out.extend_from_slice(word_update_bytes().as_slice());
            append_decimal(out, node);
            out.extend_from_slice(word_from_bytes().as_slice());
            append_decimal(out, source);
        },
    }
    out.push(10u8);
    assert(out@ =~= old(out)@ + op_line(op));
}

/// Writes a script as text, one line for each operation.
pub fn format_script(script: &Vec<EditOp>) -> (r: Vec<u8>)
    ensures
        r@ == script_text(script@, script@.len() as int),
{
    let mut out: Vec<u8> = Vec::new();
    let n = script.len();
    let mut k: usize = 0;
    while k < n
        invariant
            k <= n,
            n == script@.len(),
            out@ == script_text(script@, k as int),
        decreases n - k,
    {
        append_op(&mut out, script[k]);
        k += 1;
    }
    out
}

/// The diff driver: the structural diff of two versions of a file, as the
/// text to print. It is empty where the script is.
pub fn run_diff_driver(old: &Snapshot, new: &Snapshot, cfg: DiffConfig) -> (r: Vec<u8>)
    requires
        old@.wf(),
        new@.wf(),
    ensures
        r@ == script_text(edit_script(old@, new@, cfg), edit_script(old@, new@, cfg).len() as int),
{
    let script = diff(old, new, cfg);
    format_script(&script)
}

/// The merge driver: the text to write over the current file, and whether
/// the merge was clean. With conflicts left the text holds them fenced, and
/// the call reports `Conflicts`.
pub fn run_merge_driver(
    base: &Snapshot,
    current: &Snapshot,
    other: &Snapshot,
    marker_size: usize,
    cfg: DiffConfig,
) -> (r: (Vec<u8>, Result<(), Error>))
    requires
        base@.wf(),
        current@.wf(),
        other@.wf(),
    ensures
        r.0@ == rendered(
            base@,
            current@,
            other@,
            matching(base@, current@, cfg),
            matching(base@, other@, cfg),
            merged(base@, current@, other@, cfg).pieces,
            marker_size as int,
            current@.len(),
        ),
        merged(base@, current@, other@, cfg).conflicts.len() == 0 ==> r.1.is_ok(),
        merged(base@, current@, other@, cfg).conflicts.len() != 0 ==> r.1 == Err::<(), Error>(
            Error::Driver(DriverFault::Conflicts),
        ),
{
    let m = merge_snapshots(base, current, other, cfg);
    let text = render(base, current, other, &m.to_ours, &m.to_theirs, &m.result, marker_size);
    if m.result.is_clean() {
        (text, Ok(()))
    } else {
        (text, Err(Error::Driver(DriverFault::Conflicts)))
    }
}

} // verus!
