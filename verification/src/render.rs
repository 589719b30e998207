//! Rendering of a merge result as text, with fenced conflicts.
//!
//! The text follows "ours" in document order. A node of "ours" that stands
//! for a base node is printed as that node was merged: with the content that
//! the merge settled on, or, in conflict, as a fence that holds both sides.
//! A node that "ours" added is printed as it is. What "theirs" added, and a
//! conflict over a node that "ours" deleted, is printed behind the node of
//! "ours" that stands for the nearest node before it in "theirs".

use vstd::prelude::*;
use crate::diff::{
    differ_at, edit_script, lemma_script_of_one_change, matching, same_shape, DiffConfig, Mapping,
    Pairing,
};
use crate::merge::{
    content_conflict, is_plain, lemma_one_content_conflict, lemma_pieces_by_node,
    lemma_table_of_one_update, merge_upto, merged, one_content_clash, one_update_table, piece_ok,
    pieces_ok, reconciled, source_ok, Conflict, MergeResult, Piece, Source,
};
use crate::diff::EditOp;
use crate::tree::{Snapshot, SnapshotView};

verus! {

/// Width of the fence characters unless the host asks for another.
pub const DEFAULT_MARKER_LEN: usize = 7;

/// The byte `b`, `n` times.
pub open spec fn repeat(b: u8, n: int) -> Seq<u8> {
    Seq::new(n as nat, |k: int| b)
}

/// The label behind the opening fence: a space and `HEAD`.
pub open spec fn head_label() -> Seq<u8> {
    seq![32u8, 72u8, 69u8, 65u8, 68u8]
}

/// The label behind the closing fence: a space and `BRANCH`.
pub open spec fn branch_label() -> Seq<u8> {
    seq![32u8, 66u8, 82u8, 65u8, 78u8, 67u8, 72u8]
}

/// A conflict as text: `<` times `l` and the head label, the text of
/// "ours", `=` times `l`, the text of "theirs", `>` times `l` and the branch
/// label; each of the five on lines of its own.
pub open spec fn fence(l: int, ours: Seq<u8>, theirs: Seq<u8>) -> Seq<u8> {
    repeat(60u8, l) + head_label() + seq![10u8] + ours + seq![10u8] + repeat(61u8, l) + seq![10u8]
        + theirs + seq![10u8] + repeat(62u8, l) + branch_label() + seq![10u8]
}

/// The text that a source stands for, at base node `n`.
pub open spec fn source_text(base: SnapshotView, ours: SnapshotView, theirs: SnapshotView, s: Source, n: int) -> Seq<
    u8,
> {
    match s {
        Source::Absent => Seq::empty(),
        Source::Base => base.content(n),
        Source::Ours(i) => ours.content(i as int),
        Source::Theirs(i) => theirs.content(i as int),
    }
}

/// The text of one merged node.
pub open spec fn piece_text(
    base: SnapshotView,
    ours: SnapshotView,
    theirs: SnapshotView,
    p: Piece,
    n: int,
    l: int,
) -> Seq<u8> {
    match p {
        Piece::Plain(s) => source_text(base, ours, theirs, s, n),
        Piece::Clash(a, b) => fence(
            l,
            source_text(base, ours, theirs, a, n),
            source_text(base, ours, theirs, b, n),
        ),
    }
}

/// The node of "ours" that stands for the same base node as node `t` of
/// "theirs".
pub open spec fn across(pa: Pairing, pb: Pairing, t: int) -> Option<usize> {
    match pb.bwd[t] {
        Some(b) => pa.fwd[b as int],
        None => None,
    }
}

/// The node of "ours" behind which node `t` of "theirs" is printed: the
/// one that stands for the nearest node before `t`; none where no node
/// before `t` has one.
pub open spec fn anchor(pa: Pairing, pb: Pairing, t: int) -> Option<usize>
    decreases t,
{
    if t <= 0 {
        None
    } else {
        match across(pa, pb, t - 1) {
            Some(o) => Some(o),
            None => anchor(pa, pb, t - 1),
        }
    }
}

/// What node `t` of "theirs" adds to the text of "ours": its content where
/// "theirs" added it; the fence of its conflict where it stands for a base
/// node that "ours" deleted; else nothing.
pub open spec fn extra_text(
    base: SnapshotView,
    ours: SnapshotView,
    theirs: SnapshotView,
    pa: Pairing,
    pb: Pairing,
    pieces: Seq<Piece>,
    t: int,
    l: int,
) -> Seq<u8> {
    match pb.bwd[t] {
        None => theirs.content(t),
        Some(b) => if pa.fwd[b as int].is_none() && !is_plain(pieces[b as int]) {
            piece_text(base, ours, theirs, pieces[b as int], b as int, l)
        } else {
            Seq::empty()
        },
    }
}

/// What the nodes of "theirs" below `k` add behind the node `a` of "ours".
pub open spec fn extras(
    base: SnapshotView,
    ours: SnapshotView,
    theirs: SnapshotView,
    pa: Pairing,
    pb: Pairing,
    pieces: Seq<Piece>,
    a: Option<usize>,
    l: int,
    k: int,
) -> Seq<u8>
    decreases k,
{
    if k <= 0 {
        Seq::empty()
    } else {
        extras(base, ours, theirs, pa, pb, pieces, a, l, k - 1) + if anchor(pa, pb, k - 1) == a {
            extra_text(base, ours, theirs, pa, pb, pieces, k - 1, l)
        } else {
            Seq::empty()
        }
    }
}

/// The text of node `o` of "ours": its merged piece where it stands for a
/// base node, its own content where "ours" added it.
pub open spec fn own_text(
    base: SnapshotView,
    ours: SnapshotView,
    theirs: SnapshotView,
    pa: Pairing,
    pieces: Seq<Piece>,
    o: int,
    l: int,
) -> Seq<u8> {
    match pa.bwd[o] {
        Some(b) => piece_text(base, ours, theirs, pieces[b as int], b as int, l),
        None => ours.content(o),
    }
}

/// The merged text up to node `k` of "ours": what stands before all of
/// "ours", then each node below `k` with what is printed behind it.
pub open spec fn rendered(
    base: SnapshotView,
    ours: SnapshotView,
    theirs: SnapshotView,
    pa: Pairing,
    pb: Pairing,
    pieces: Seq<Piece>,
    l: int,
    k: int,
) -> Seq<u8>
    decreases k,
{
    if k <= 0 {
        extras(base, ours, theirs, pa, pb, pieces, None, l, theirs.len())
    } else {
        rendered(base, ours, theirs, pa, pb, pieces, l, k - 1) + own_text(
            base,
            ours,
            theirs,
            pa,
            pieces,
            k - 1,
            l,
        ) + extras(base, ours, theirs, pa, pb, pieces, Some((k - 1) as usize), l, theirs.len())
    }
}

fn append_repeat(out: &mut Vec<u8>, b: u8, n: usize)
    ensures
        final(out)@ == old(out)@ + repeat(b, n as int),
{
    let mut k: usize = 0;
    assert(out@ =~= old(out)@ + repeat(b, 0));
    while k < n
        invariant
            k <= n,
            out@ == old(out)@ + repeat(b, k as int),
        decreases n - k,
    {
        out.push(b);
        k += 1;
        assert(out@ =~= old(out)@ + repeat(b, k as int));
    }
}

pub(crate) fn append_source(base: &Snapshot, ours: &Snapshot, theirs: &Snapshot, s: Source, n: usize, out: &mut Vec<u8>)
    requires
        base@.wf(),
        ours@.wf(),
        theirs@.wf(),
        n < base@.len(),
        source_ok(s, ours@.len(), theirs@.len()),
    ensures
        final(out)@ == old(out)@ + source_text(base@, ours@, theirs@, s, n as int),
{
    match s {
        Source::Absent => {
            assert(out@ =~= old(out)@ + Seq::<u8>::empty());
        },
        Source::Base => {
            base.append_content(n, out);
        },
        Source::Ours(i) => {
            ours.append_content(i, out);
        },
        Source::Theirs(i) => {
            theirs.append_content(i, out);
        },
    }
}

/// Appends a conflict fence of width `l` around the two texts.
pub fn append_fence(out: &mut Vec<u8>, l: usize, ours: &Vec<u8>, theirs: &Vec<u8>)
    ensures
        final(out)@ == old(out)@ + fence(l as int, ours@, theirs@),
{
    append_repeat(out, 60u8, l);
    out.push(32u8);
    out.push(72u8);
    out.push(69u8);
    out.push(65u8);
    out.push(68u8);
    out.push(10u8);
    let ghost a = out@;
    assert(a =~= old(out)@ + repeat(60u8, l as int) + head_label() + seq![10u8]);
    out.extend_from_slice(ours.as_slice());
    out.push(10u8);
    append_repeat(out, 61u8, l);
    out.push(10u8);
    let ghost b = out@;
    assert(b =~= a + ours@ + seq![10u8] + repeat(61u8, l as int) + seq![10u8]);
    out.extend_from_slice(theirs.as_slice());
    out.push(10u8);
    append_repeat(out, 62u8, l);
    out.push(32u8);
    out.push(66u8);
    out.push(82u8);
    out.push(65u8);
    out.push(78u8);
    out.push(67u8);
    out.push(72u8);
    out.push(10u8);
    assert(out@ =~= b + theirs@ + seq![10u8] + repeat(62u8, l as int) + branch_label() + seq![10u8]);
    assert(out@ =~= old(out)@ + fence(l as int, ours@, theirs@));
}

fn append_piece(
    base: &Snapshot,
    ours: &Snapshot,
    theirs: &Snapshot,
    p: Piece,
    n: usize,
    l: usize,
    out: &mut Vec<u8>,
)
    requires
        base@.wf(),
        ours@.wf(),
        theirs@.wf(),
        n < base@.len(),
        piece_ok(p, ours@.len(), theirs@.len()),
    ensures
        final(out)@ == old(out)@ + piece_text(base@, ours@, theirs@, p, n as int, l as int),
{
    match p {
        Piece::Plain(s) => {
            append_source(base, ours, theirs, s, n, out);
        },
        Piece::Clash(a, b) => {
            let mut left: Vec<u8> = Vec::new();
            append_source(base, ours, theirs, a, n, &mut left);
            let mut right: Vec<u8> = Vec::new();
            append_source(base, ours, theirs, b, n, &mut right);
            assert(left@ =~= source_text(base@, ours@, theirs@, a, n as int));
            assert(right@ =~= source_text(base@, ours@, theirs@, b, n as int));
            append_fence(out, l, &left, &right);
        },
    }
}

pub(crate) fn anchors(to_ours: &Mapping, to_theirs: &Mapping, nb: usize, no: usize, nt: usize) -> (r: Vec<
    Option<usize>,
>)
    requires
        to_ours@.wf(nb as int, no as int),
        to_theirs@.wf(nb as int, nt as int),
    ensures
        r@.len() == nt,
        forall|t: int| 0 <= t < nt ==> #[trigger] r@[t] == anchor(to_ours@, to_theirs@, t),
{
    let mut out: Vec<Option<usize>> = Vec::new();
    let mut last: Option<usize> = None;
    let mut t: usize = 0;
    while t < nt
        invariant
            t <= nt,
            to_ours@.wf(nb as int, no as int),
            to_theirs@.wf(nb as int, nt as int),
            out@.len() == t,
            last == anchor(to_ours@, to_theirs@, t as int),
            forall|k: int| 0 <= k < t ==> #[trigger] out@[k] == anchor(to_ours@, to_theirs@, k),
        decreases nt - t,
    {
        out.push(last);
        let here = match to_theirs.backward(t) {
            Some(b) => to_ours.forward(b),
            None => None,
        };
        assert(here == across(to_ours@, to_theirs@, t as int));
        match here {
            Some(o) => {
                last = Some(o);
            },
            None => {},
        }
        t += 1;
    }
    out
}

pub(crate) fn same_anchor(a: Option<usize>, b: Option<usize>) -> (r: bool)
    ensures
        r == (a == b),
{
    match (a, b) {
        (Some(x), Some(y)) => x == y,
        (None, None) => true,
        _ => false,
    }
}

fn append_extras(
    base: &Snapshot,
    ours: &Snapshot,
    theirs: &Snapshot,
    to_ours: &Mapping,
    to_theirs: &Mapping,
    result: &MergeResult,
    placed: &Vec<Option<usize>>,
    a: Option<usize>,
    l: usize,
    out: &mut Vec<u8>,
)
    requires
        base@.wf(),
        ours@.wf(),
        theirs@.wf(),
        to_ours@.wf(base@.len(), ours@.len()),
        to_theirs@.wf(base@.len(), theirs@.len()),
        pieces_ok(result@.pieces, base@.len(), ours@.len(), theirs@.len()),
        placed@.len() == theirs@.len(),
        forall|t: int|
            0 <= t < theirs@.len() ==> #[trigger] placed@[t] == anchor(to_ours@, to_theirs@, t),
    ensures
        final(out)@ == old(out)@ + extras(
            base@,
            ours@,
            theirs@,
            to_ours@,
            to_theirs@,
            result@.pieces,
            a,
            l as int,
            theirs@.len(),
        ),
{
    let nt = theirs.len();
    let mut t: usize = 0;
    assert(out@ =~= old(out)@ + Seq::<u8>::empty());
    while t < nt
        invariant
            t <= nt,
            nt == theirs@.len(),
            base@.wf(),
            ours@.wf(),
            theirs@.wf(),
            to_ours@.wf(base@.len(), ours@.len()),
            to_theirs@.wf(base@.len(), theirs@.len()),
            pieces_ok(result@.pieces, base@.len(), ours@.len(), theirs@.len()),
            placed@.len() == theirs@.len(),
            forall|k: int|
                0 <= k < theirs@.len() ==> #[trigger] placed@[k] == anchor(
                    to_ours@,
                    to_theirs@,
                    k,
                ),
            out@ == old(out)@ + extras(
                base@,
                ours@,
                theirs@,
                to_ours@,
                to_theirs@,
                result@.pieces,
                a,
                l as int,
                t as int,
            ),
        decreases nt - t,
    {
        let ghost before = out@;
        assert(placed@[t as int] == anchor(to_ours@, to_theirs@, t as int));
        if same_anchor(placed[t], a) {
            match to_theirs.backward(t) {
                None => {
                    theirs.append_content(t, out);
                },
                Some(b) => {
                    let p = result.pieces[b];
                    assert(piece_ok(result@.pieces[b as int], ours@.len(), theirs@.len()));
                    let settled = match p {
                        Piece::Plain(_) => true,
                        Piece::Clash(_, _) => false,
                    };
                    if to_ours.forward(b).is_none() && !settled {
                        append_piece(base, ours, theirs, p, b, l, out);
                    }
                },
            }
        }
        proof {
            let add = if anchor(to_ours@, to_theirs@, t as int) == a {
                extra_text(
                    base@,
                    ours@,
                    theirs@,
                    to_ours@,
                    to_theirs@,
                    result@.pieces,
                    t as int,
                    l as int,
                )
            } else {
                Seq::<u8>::empty()
            };
            assert(out@ =~= before + add);
        }
        t += 1;
        assert(out@ =~= old(out)@ + extras(
            base@,
            ours@,
            theirs@,
            to_ours@,
            to_theirs@,
            result@.pieces,
            a,
            l as int,
            t as int,
        ));
    }
}

/// Prints a merge result, given the mappings from the base to "ours" and
/// to "theirs". Where the result holds no conflict the text has no fence.
pub fn render(
    base: &Snapshot,
    ours: &Snapshot,
    theirs: &Snapshot,
    to_ours: &Mapping,
    to_theirs: &Mapping,
    result: &MergeResult,
    marker_len: usize,
) -> (r: Vec<u8>)
    requires
        base@.wf(),
        ours@.wf(),
        theirs@.wf(),
        to_ours@.wf(base@.len(), ours@.len()),
        to_theirs@.wf(base@.len(), theirs@.len()),
        pieces_ok(result@.pieces, base@.len(), ours@.len(), theirs@.len()),
    ensures
        r@ == rendered(
            base@,
            ours@,
            theirs@,
            to_ours@,
            to_theirs@,
            result@.pieces,
            marker_len as int,
            ours@.len(),
        ),
{
    let placed = anchors(to_ours, to_theirs, base.len(), ours.len(), theirs.len());
    let mut out: Vec<u8> = Vec::new();
    append_extras(base, ours, theirs, to_ours, to_theirs, result, &placed, None, marker_len, &mut out);
    assert(out@ =~= rendered(
        base@,
        ours@,
        theirs@,
        to_ours@,
        to_theirs@,
        result@.pieces,
        marker_len as int,
        0,
    ));
    let n = ours.len();
    let mut k: usize = 0;
    while k < n
        invariant
            k <= n,
            n == ours@.len(),
            base@.wf(),
            ours@.wf(),
            theirs@.wf(),
            to_ours@.wf(base@.len(), ours@.len()),
            to_theirs@.wf(base@.len(), theirs@.len()),
            pieces_ok(result@.pieces, base@.len(), ours@.len(), theirs@.len()),
            placed@.len() == theirs@.len(),
            forall|t: int|
                0 <= t < theirs@.len() ==> #[trigger] placed@[t] == anchor(
                    to_ours@,
                    to_theirs@,
                    t,
                ),
            out@ == rendered(
                base@,
                ours@,
                theirs@,
                to_ours@,
                to_theirs@,
                result@.pieces,
                marker_len as int,
                k as int,
            ),
        decreases n - k,
    {
        match to_ours.backward(k) {
            Some(b) => {
                let p = result.pieces[b];
                assert(piece_ok(result@.pieces[b as int], ours@.len(), theirs@.len()));
                append_piece(base, ours, theirs, p, b, marker_len, &mut out);
            },
            None => {
                ours.append_content(k, &mut out);
            },
        }
        append_extras(
            base,
            ours,
            theirs,
            to_ours,
            to_theirs,
            result,
            &placed,
            Some(k),
            marker_len,
            &mut out,
        );
        k += 1;
    }
    out
}

proof fn lemma_no_extras(
    base: SnapshotView,
    ours: SnapshotView,
    theirs: SnapshotView,
    pieces: Seq<Piece>,
    a: Option<usize>,
    l: int,
    k: int,
)
    requires
        0 <= k <= base.len() <= usize::MAX,
    ensures
        extras(
            base,
            ours,
            theirs,
            Pairing::identity(base.len()),
            Pairing::identity(base.len()),
            pieces,
            a,
            l,
            k,
        ) == Seq::<u8>::empty(),
    decreases k,
{
    let id = Pairing::identity(base.len());
    if k > 0 {
        lemma_no_extras(base, ours, theirs, pieces, a, l, k - 1);
        assert(id.bwd[k - 1] == Some((k - 1) as usize));
        assert(id.fwd[k - 1] == Some((k - 1) as usize));
        assert(extra_text(base, ours, theirs, id, id, pieces, k - 1, l) == Seq::<u8>::empty());
        assert(extras(base, ours, theirs, id, id, pieces, a, l, k) =~= Seq::<u8>::empty());
    }
}

/// One piece holds what "ours" and "theirs" have for node `n`; every other
/// piece is the content of the base.
pub open spec fn one_clash(pieces: Seq<Piece>, len: int, n: int) -> bool {
    &&& pieces.len() == len
    &&& 0 <= n < len
    &&& pieces[n] == Piece::Clash(Source::Ours(n as usize), Source::Theirs(n as usize))
    &&& forall|i: int| 0 <= i < len && i != n ==> #[trigger] pieces[i] == Piece::Plain(Source::Base)
}

proof fn lemma_one_fence_upto(
    base: SnapshotView,
    ours: SnapshotView,
    theirs: SnapshotView,
    pieces: Seq<Piece>,
    n: int,
    l: int,
    k: int,
)
    requires
        base.len() <= usize::MAX,
        ours.len() == base.len(),
        theirs.len() == base.len(),
        one_clash(pieces, base.len(), n),
        0 <= k <= base.len(),
    ensures
        rendered(
            base,
            ours,
            theirs,
            Pairing::identity(base.len()),
            Pairing::identity(base.len()),
            pieces,
            l,
            k,
        ) == if k <= n {
            base.range_text(0, k)
        } else {
            base.range_text(0, n) + fence(l, ours.content(n), theirs.content(n)) + base.range_text(
                n + 1,
                k,
            )
        },
    decreases k,
{
    let id = Pairing::identity(base.len());
    if k <= 0 {
        lemma_no_extras(base, ours, theirs, pieces, None, l, base.len());
        assert(base.range_text(0, 0) =~= Seq::<u8>::empty());
    } else {
        let i = k - 1;
        lemma_one_fence_upto(base, ours, theirs, pieces, n, l, i);
        lemma_no_extras(base, ours, theirs, pieces, Some(i as usize), l, base.len());
        assert(id.bwd[i] == Some(i as usize));
        let before = rendered(base, ours, theirs, id, id, pieces, l, i);
        let now = rendered(base, ours, theirs, id, id, pieces, l, k);
        assert(now =~= before + own_text(base, ours, theirs, id, pieces, i, l));
        if i == n {
            assert(own_text(base, ours, theirs, id, pieces, i, l) == fence(
                l,
                ours.content(n),
                theirs.content(n),
            ));
            assert(base.range_text(n + 1, n + 1) =~= Seq::<u8>::empty());
            assert(now =~= base.range_text(0, n) + fence(l, ours.content(n), theirs.content(n))
                + base.range_text(n + 1, k));
        } else {
            assert(pieces[i] == Piece::Plain(Source::Base));
            assert(own_text(base, ours, theirs, id, pieces, i, l) == base.content(i));
            if k <= n {
                assert(now =~= base.range_text(0, k));
            } else {
                assert(base.range_text(n + 1, k) =~= base.range_text(n + 1, i) + base.content(i));
                assert(now =~= base.range_text(0, n) + fence(
                    l,
                    ours.content(n),
                    theirs.content(n),
                ) + base.range_text(n + 1, k));
            }
        }
    }
}

/// Where the three snapshots are paired node by node and one piece alone is
/// in conflict, the text is the base up to that node, the fence with what
/// "ours" and "theirs" have for it, and the base behind it: the fence
/// stands once, where the node stands, and all else is as in the base and
/// outside the fence.
pub proof fn lemma_one_fence(
    base: SnapshotView,
    ours: SnapshotView,
    theirs: SnapshotView,
    pieces: Seq<Piece>,
    n: int,
    l: int,
)
    requires
        base.len() <= usize::MAX,
        ours.len() == base.len(),
        theirs.len() == base.len(),
        one_clash(pieces, base.len(), n),
    ensures
        rendered(
            base,
            ours,
            theirs,
            Pairing::identity(base.len()),
            Pairing::identity(base.len()),
            pieces,
            l,
            ours.len(),
        ) == base.range_text(0, n) + fence(l, ours.content(n), theirs.content(n))
            + base.range_text(n + 1, base.len()),
{
    lemma_one_fence_upto(base, ours, theirs, pieces, n, l, base.len());
}

/// Where "ours" and "theirs" both keep the shape of the base, are paired
/// with it node by node, and each changes the content of node `n` alone,
/// to different content, the merge reports exactly one conflict, a content
/// conflict at `n` with both updates, and the text is the base with the
/// fence of the two contents in the place of node `n`.
pub proof fn lemma_renamed_on_both_sides(
    base: SnapshotView,
    ours: SnapshotView,
    theirs: SnapshotView,
    cfg: DiffConfig,
    n: int,
    l: int,
)
    requires
        base.wf(),
        same_shape(base, ours),
        same_shape(base, theirs),
        differ_at(base, ours, n),
        differ_at(base, theirs, n),
        ours.content(n) != theirs.content(n),
        matching(base, ours, cfg) == Pairing::identity(base.len()),
        matching(base, theirs, cfg) == Pairing::identity(base.len()),
    ensures
        merged(base, ours, theirs, cfg).conflicts == seq![
            content_conflict(n, n as usize, n as usize),
        ],
        one_clash(merged(base, ours, theirs, cfg).pieces, base.len(), n),
        rendered(
            base,
            ours,
            theirs,
            matching(base, ours, cfg),
            matching(base, theirs, cfg),
            merged(base, ours, theirs, cfg).pieces,
            l,
            ours.len(),
        ) == base.range_text(0, n) + fence(l, ours.content(n), theirs.content(n))
            + base.range_text(n + 1, base.len()),
{
    let len = base.len();
    let id = Pairing::identity(len);
    let one = seq![EditOp::Update { node: n as usize, source: n as usize }];
    lemma_script_of_one_change(base, ours, n);
    lemma_script_of_one_change(base, theirs, n);
    assert(edit_script(base, ours, cfg) == one);
    assert(edit_script(base, theirs, cfg) == one);
    lemma_table_of_one_update(len, n, id.bwd);
    let t = one_update_table(len, n);
    let m = merged(base, ours, theirs, cfg);
    assert(m == reconciled(ours, theirs, t, t, one, one));
    assert(one_content_clash(ours, theirs, t, t, n, n as usize, n as usize));
    lemma_one_content_conflict(ours, theirs, t, t, one, one, n, n as usize, n as usize);
    lemma_pieces_by_node(ours, theirs, t, t, len);
    assert(m.pieces =~= merge_upto(ours, theirs, t, t, len).pieces);
    assert forall|i: int| 0 <= i < len && i != n implies #[trigger] m.pieces[i] == Piece::Plain(
        Source::Base,
    ) by {
        assert(t[i] == crate::merge::Touch::none());
    }
    lemma_one_fence(base, ours, theirs, m.pieces, n, l);
}

} // verus!
