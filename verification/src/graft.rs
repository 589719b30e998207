//! The merged snapshot.
//!
//! It is built in the order in which the merged text is printed: the nodes
//! of "ours" in document order, each with its merged content, and behind
//! each the nodes that "theirs" added after the node it stands for. A node
//! that the merge deleted is left out. A node in conflict keeps what "ours"
//! has, and a node that "theirs" alone moved keeps the place that "ours"
//! has for it. Where a node would hang on a parent that is not there, or
//! the result is not one rooted tree, there is no merged snapshot.

use vstd::prelude::*;
use crate::diff::{
    match_trees, matching, same_shape, script_from, DiffConfig, Mapping, Pairing,
};
use crate::merge::{merged, piece_ok, pieces_ok, reconcile, touch_table, MergeResult, Piece, Source};
use crate::render::{
    across, anchor, anchors, append_source, one_clash, same_anchor, source_text,
};
use crate::tree::{shaped, Shape, Snapshot, SnapshotView};

verus! {

/// A merged snapshot in the making, as mathematical values.
pub struct DraftView {
    pub shapes: Seq<Shape>,
    pub text: Seq<u8>,
    /// Where each node of "ours" went, if it went in.
    pub from_ours: Seq<Option<usize>>,
    /// Where each node of "theirs" went, if it went in.
    pub from_theirs: Seq<Option<usize>>,
    /// Whether every node so far found its parent.
    pub ok: bool,
}

/// A merged snapshot in the making.
pub struct Draft {
    shapes: Vec<Shape>,
    text: Vec<u8>,
    from_ours: Vec<Option<usize>>,
    from_theirs: Vec<Option<usize>>,
    ok: bool,
}

impl View for Draft {
    type V = DraftView;

    closed spec fn view(&self) -> DraftView {
        DraftView {
            shapes: self.shapes@,
            text: self.text@,
            from_ours: self.from_ours@,
            from_theirs: self.from_theirs@,
            ok: self.ok,
        }
    }
}

/// The content that a merged node keeps: none where the merge deleted the
/// node; in conflict, what "ours" has.
pub open spec fn kept_source(p: Piece) -> Option<Source> {
    match p {
        Piece::Plain(Source::Absent) => None,
        Piece::Plain(s) => Some(s),
        Piece::Clash(Source::Absent, _) => None,
        Piece::Clash(s, _) => Some(s),
    }
}

impl DraftView {
    /// The draft before the first node.
    pub open spec fn start(no: int, nt: int) -> DraftView {
        DraftView {
            shapes: Seq::empty(),
            text: Seq::empty(),
            from_ours: Seq::new(no as nat, |i: int| None::<usize>),
            from_theirs: Seq::new(nt as nat, |i: int| None::<usize>),
            ok: true,
        }
    }

    /// This draft with one more node of the given kind and content under
    /// `parent`; without a parent nothing is added and the draft fails.
    pub open spec fn push(self, kind: u32, parent: Option<usize>, content: Seq<u8>) -> DraftView {
        match parent {
            Some(p) => DraftView {
                shapes: self.shapes.push(
                    Shape {
                        kind,
                        parent: p,
                        text_start: self.text.len() as usize,
                        text_len: content.len() as usize,
                    },
                ),
                text: self.text + content,
                ..self
            },
            None => DraftView { ok: false, ..self },
        }
    }

    /// This draft with node `o` of "ours", unless the merge deleted it.
    pub open spec fn with_ours(
        self,
        base: SnapshotView,
        ours: SnapshotView,
        theirs: SnapshotView,
        pa: Pairing,
        pieces: Seq<Piece>,
        o: int,
    ) -> DraftView {
        let source = match pa.bwd[o] {
            Some(b) => match kept_source(pieces[b as int]) {
                Some(s) => Some((s, b as int)),
                None => None,
            },
            None => Some((Source::Ours(o as usize), 0int)),
        };
        match source {
            None => self,
            Some((s, b)) => {
                let parent = if o == 0 {
                    Some(self.shapes.len() as usize)
                } else {
                    self.from_ours[ours.nodes[o].parent as int]
                };
                let next = self.push(ours.nodes[o].kind, parent, source_text(base, ours, theirs, s, b));
                if parent.is_some() {
                    DraftView {
                        from_ours: self.from_ours.update(o, Some(self.shapes.len() as usize)),
                        ..next
                    }
                } else {
                    next
                }
            },
        }
    }

    /// This draft with node `t` that "theirs" added: under the node that
    /// its parent became, whether "theirs" added that too or it stands for
    /// a node of "ours".
    pub open spec fn with_added(self, theirs: SnapshotView, pa: Pairing, pb: Pairing, t: int) -> DraftView {
        let up = theirs.nodes[t].parent as int;
        let parent = if up == t {
            Some(self.shapes.len() as usize)
        } else if pb.bwd[up].is_none() {
            self.from_theirs[up]
        } else {
            match across(pa, pb, up) {
                Some(o) => self.from_ours[o as int],
                None => None,
            }
        };
        let next = self.push(theirs.nodes[t].kind, parent, theirs.content(t));
        if parent.is_some() {
            DraftView {
                from_theirs: self.from_theirs.update(t, Some(self.shapes.len() as usize)),
                ..next
            }
        } else {
            next
        }
    }

    /// This draft with the nodes below `k` that "theirs" added behind node
    /// `a` of "ours".
    pub open spec fn with_all_added(
        self,
        theirs: SnapshotView,
        pa: Pairing,
        pb: Pairing,
        a: Option<usize>,
        k: int,
    ) -> DraftView
        decreases k,
    {
        if k <= 0 {
            self
        } else {
            let before = self.with_all_added(theirs, pa, pb, a, k - 1);
            if anchor(pa, pb, k - 1) == a && pb.bwd[k - 1].is_none() {
                before.with_added(theirs, pa, pb, k - 1)
            } else {
                before
            }
        }
    }

    /// The lengths of the two tables.
    pub open spec fn sized(self, no: int, nt: int) -> bool {
        self.from_ours.len() == no && self.from_theirs.len() == nt
    }
}

/// The draft after the nodes of "ours" below `k`.
pub open spec fn drafted(
    base: SnapshotView,
    ours: SnapshotView,
    theirs: SnapshotView,
    pa: Pairing,
    pb: Pairing,
    pieces: Seq<Piece>,
    k: int,
) -> DraftView
    decreases k,
{
    if k <= 0 {
        DraftView::start(ours.len(), theirs.len()).with_all_added(theirs, pa, pb, None, theirs.len())
    } else {
        drafted(base, ours, theirs, pa, pb, pieces, k - 1).with_ours(
            base,
            ours,
            theirs,
            pa,
            pieces,
            k - 1,
        ).with_all_added(theirs, pa, pb, Some((k - 1) as usize), theirs.len())
    }
}

/// The merged snapshot, where the draft holds one rooted tree.
pub open spec fn merged_snapshot(
    base: SnapshotView,
    ours: SnapshotView,
    theirs: SnapshotView,
    pa: Pairing,
    pb: Pairing,
    pieces: Seq<Piece>,
) -> Option<SnapshotView> {
    let d = drafted(base, ours, theirs, pa, pb, pieces, ours.len());
    if d.ok && shaped(d.shapes, d.text).wf() {
        Some(shaped(d.shapes, d.text))
    } else {
        None
    }
}

impl Draft {
    fn start(no: usize, nt: usize) -> (d: Draft)
        ensures
            d@ == DraftView::start(no as int, nt as int),
    {
        let mut from_ours: Vec<Option<usize>> = Vec::new();
        let mut i: usize = 0;
        while i < no
            invariant
                i <= no,
                from_ours@.len() == i,
                forall|k: int| 0 <= k < i ==> from_ours@[k] == None::<usize>,
            decreases no - i,
        {
            from_ours.push(None);
            i += 1;
        }
        let mut from_theirs: Vec<Option<usize>> = Vec::new();
        let mut i: usize = 0;
        while i < nt
            invariant
                i <= nt,
                from_theirs@.len() == i,
                forall|k: int| 0 <= k < i ==> from_theirs@[k] == None::<usize>,
            decreases nt - i,
        {
            from_theirs.push(None);
            i += 1;
        }
        let d = Draft { shapes: Vec::new(), text: Vec::new(), from_ours, from_theirs, ok: true };
        assert(d@.from_ours =~= DraftView::start(no as int, nt as int).from_ours);
        assert(d@.from_theirs =~= DraftView::start(no as int, nt as int).from_theirs);
        d
    }

    fn push(&mut self, kind: u32, parent: Option<usize>, content: &Vec<u8>)
        ensures
            final(self)@ == old(self)@.push(kind, parent, content@),
    {
        match parent {
            Some(p) => {
                let start = self.text.len();
                self.text.extend_from_slice(content.as_slice());
                self.shapes.push(Shape { kind, parent: p, text_start: start, text_len: content.len() });
                assert(self@.text == old(self)@.text + content@);
                assert(self@.shapes == old(self)@.shapes.push(
                    Shape { kind, parent: p, text_start: start, text_len: content.len() },
                ));
            },
            None => {
                self.ok = false;
            },
        }
    }

    fn add_ours(
        &mut self,
        base: &Snapshot,
        ours: &Snapshot,
        theirs: &Snapshot,
        to_ours: &Mapping,
        result: &MergeResult,
        o: usize,
    )
        requires
            base@.wf(),
            ours@.wf(),
            theirs@.wf(),
            to_ours@.wf(base@.len(), ours@.len()),
            pieces_ok(result@.pieces, base@.len(), ours@.len(), theirs@.len()),
            o < ours@.len(),
            old(self)@.from_ours.len() == ours@.len(),
        ensures
            final(self)@ == old(self)@.with_ours(
                base@,
                ours@,
                theirs@,
                to_ours@,
                result@.pieces,
                o as int,
            ),
            final(self)@.from_ours.len() == old(self)@.from_ours.len(),
            final(self)@.from_theirs.len() == old(self)@.from_theirs.len(),
    {
        assert(ours@.node_ok(o as int));
        let mut content: Vec<u8> = Vec::new();
        match to_ours.backward(o) {
            Some(b) => {
                let p = result.pieces[b];
                assert(piece_ok(result@.pieces[b as int], ours@.len(), theirs@.len()));
                let kept = match p {
                    Piece::Plain(Source::Absent) => None,
                    Piece::Plain(s) => Some(s),
                    Piece::Clash(Source::Absent, _) => None,
                    Piece::Clash(s, _) => Some(s),
                };
                match kept {
                    None => {
                        return ;
                    },
                    Some(s) => {
                        append_source(base, ours, theirs, s, b, &mut content);
                        assert(content@ =~= source_text(base@, ours@, theirs@, s, b as int));
                    },
                }
            },
            None => {
                ours.append_content(o, &mut content);
                assert(content@ =~= source_text(
                    base@,
                    ours@,
                    theirs@,
                    Source::Ours(o),
                    0,
                ));
            },
        }
        let here = self.shapes.len();
        let parent = if o == 0 {
            Some(here)
        } else {
            self.from_ours[ours.node(o).parent]
        };
        self.push(ours.node(o).kind, parent, &content);
        if parent.is_some() {
            self.from_ours.set(o, Some(here));
        }
    }

    fn add_theirs(&mut self, theirs: &Snapshot, to_ours: &Mapping, to_theirs: &Mapping, t: usize)
        requires
            theirs@.wf(),
            t < theirs@.len(),
            to_ours@.wf(to_theirs@.fwd.len() as int, old(self)@.from_ours.len() as int),
            to_theirs@.wf(to_theirs@.fwd.len() as int, theirs@.len()),
            old(self)@.from_theirs.len() == theirs@.len(),
        ensures
            final(self)@ == old(self)@.with_added(theirs@, to_ours@, to_theirs@, t as int),
            final(self)@.from_ours.len() == old(self)@.from_ours.len(),
            final(self)@.from_theirs.len() == old(self)@.from_theirs.len(),
    {
        assert(theirs@.node_ok(t as int));
        let up = theirs.node(t).parent;
        let here = self.shapes.len();
        let parent = if up == t {
            Some(here)
        } else {
            match to_theirs.backward(up) {
                None => self.from_theirs[up],
                Some(b) => match to_ours.forward(b) {
                    Some(o) => self.from_ours[o],
                    None => None,
                },
            }
        };
        let content = theirs.content(t);
        self.push(theirs.node(t).kind, parent, &content);
        if parent.is_some() {
            self.from_theirs.set(t, Some(here));
        }
    }

    fn add_all_theirs(
        &mut self,
        theirs: &Snapshot,
        to_ours: &Mapping,
        to_theirs: &Mapping,
        placed: &Vec<Option<usize>>,
        a: Option<usize>,
    )
        requires
            theirs@.wf(),
            to_ours@.wf(to_theirs@.fwd.len() as int, old(self)@.from_ours.len() as int),
            to_theirs@.wf(to_theirs@.fwd.len() as int, theirs@.len()),
            old(self)@.from_theirs.len() == theirs@.len(),
            placed@.len() == theirs@.len(),
            forall|t: int|
                0 <= t < theirs@.len() ==> #[trigger] placed@[t] == anchor(
                    to_ours@,
                    to_theirs@,
                    t,
                ),
        ensures
            final(self)@ == old(self)@.with_all_added(
                theirs@,
                to_ours@,
                to_theirs@,
                a,
                theirs@.len(),
            ),
            final(self)@.from_ours.len() == old(self)@.from_ours.len(),
            final(self)@.from_theirs.len() == old(self)@.from_theirs.len(),
    {
        let nt = theirs.len();
        let mut t: usize = 0;
        while t < nt
            invariant
                t <= nt,
                nt == theirs@.len(),
                theirs@.wf(),
                to_ours@.wf(to_theirs@.fwd.len() as int, old(self)@.from_ours.len() as int),
                to_theirs@.wf(to_theirs@.fwd.len() as int, theirs@.len()),
                self@.from_ours.len() == old(self)@.from_ours.len(),
                self@.from_theirs.len() == theirs@.len(),
                old(self)@.from_theirs.len() == theirs@.len(),
                placed@.len() == theirs@.len(),
                forall|k: int|
                    0 <= k < theirs@.len() ==> #[trigger] placed@[k] == anchor(
                        to_ours@,
                        to_theirs@,
                        k,
                    ),
                self@ == old(self)@.with_all_added(theirs@, to_ours@, to_theirs@, a, t as int),
            decreases nt - t,
        {
            assert(placed@[t as int] == anchor(to_ours@, to_theirs@, t as int));
            if same_anchor(placed[t], a) && to_theirs.backward(t).is_none() {
                self.add_theirs(theirs, to_ours, to_theirs, t);
            }
            t += 1;
        }
    }
}

/// Builds the merged snapshot of a merge result, given the mappings from
/// the base to "ours" and to "theirs".
pub fn merged_tree(
    base: &Snapshot,
    ours: &Snapshot,
    theirs: &Snapshot,
    to_ours: &Mapping,
    to_theirs: &Mapping,
    result: &MergeResult,
) -> (r: Option<Snapshot>)
    requires
        base@.wf(),
        ours@.wf(),
        theirs@.wf(),
        to_ours@.wf(base@.len(), ours@.len()),
        to_theirs@.wf(base@.len(), theirs@.len()),
        pieces_ok(result@.pieces, base@.len(), ours@.len(), theirs@.len()),
    ensures
        match (r, merged_snapshot(base@, ours@, theirs@, to_ours@, to_theirs@, result@.pieces)) {
            (Some(t), Some(v)) => t@ == v,
            (None, None) => true,
            _ => false,
        },
{
    let placed = anchors(to_ours, to_theirs, base.len(), ours.len(), theirs.len());
    let mut d = Draft::start(ours.len(), theirs.len());
    d.add_all_theirs(theirs, to_ours, to_theirs, &placed, None);
    let n = ours.len();
    let mut k: usize = 0;
    while k < n
        invariant
            k <= n,
            n == ours@.len(),
            base@.wf(),
            ours@.wf(),
            theirs@.wf(),
            to_ours@.wf(base@.len(), ours@.len()),
            to_theirs@.wf(base@.len(), theirs@.len()),
            pieces_ok(result@.pieces, base@.len(), ours@.len(), theirs@.len()),
            d@.sized(ours@.len(), theirs@.len()),
            placed@.len() == theirs@.len(),
            forall|t: int|
                0 <= t < theirs@.len() ==> #[trigger] placed@[t] == anchor(
                    to_ours@,
                    to_theirs@,
                    t,
                ),
            d@ == drafted(base@, ours@, theirs@, to_ours@, to_theirs@, result@.pieces, k as int),
        decreases n - k,
    {
        d.add_ours(base, ours, theirs, to_ours, result, k);
        d.add_all_theirs(theirs, to_ours, to_theirs, &placed, Some(k));
        k += 1;
    }
    if d.ok {
        Snapshot::from_shape(d.shapes, d.text)
    } else {
        None
    }
}

/// A three-way merge with all that belongs to it.
#[derive(Clone, Debug, PartialEq, Eq)]
pub struct Merging {
    /// The mapping from the base to "ours".
    pub to_ours: Mapping,
    /// The mapping from the base to "theirs".
    pub to_theirs: Mapping,
    /// The edits applied, the conflicts, and the merged content.
    pub result: MergeResult,
    /// The merged snapshot, where there is one.
    pub tree: Option<Snapshot>,
}

/// Merges `ours` and `theirs` over their common `base`: diffs both against
/// the base, reconciles the two scripts, and builds the merged snapshot.
pub fn merge_snapshots(base: &Snapshot, ours: &Snapshot, theirs: &Snapshot, cfg: DiffConfig) -> (m:
    Merging)
    requires
        base@.wf(),
        ours@.wf(),
        theirs@.wf(),
    ensures
        m.to_ours@ == matching(base@, ours@, cfg),
        m.to_theirs@ == matching(base@, theirs@, cfg),
        m.to_ours@.wf(base@.len(), ours@.len()),
        m.to_theirs@.wf(base@.len(), theirs@.len()),
        m.result@ == merged(base@, ours@, theirs@, cfg),
        pieces_ok(m.result@.pieces, base@.len(), ours@.len(), theirs@.len()),
        match (
            m.tree,
            merged_snapshot(
                base@,
                ours@,
                theirs@,
                matching(base@, ours@, cfg),
                matching(base@, theirs@, cfg),
                merged(base@, ours@, theirs@, cfg).pieces,
            ),
        ) {
            (Some(t), Some(v)) => t@ == v,
            (None, None) => true,
            _ => false,
        },
{
    let to_ours = match_trees(base, ours, cfg);
    let to_theirs = match_trees(base, theirs, cfg);
    let ea = script_from(base, ours, &to_ours);
    let eb = script_from(base, theirs, &to_theirs);
    let ta = touch_table(&ea, base.len(), ours.len(), &to_ours);
    let tb = touch_table(&eb, base.len(), theirs.len(), &to_theirs);
    let result = reconcile(ours, theirs, &ta, &tb, &ea, &eb);
    let tree = merged_tree(base, ours, theirs, &to_ours, &to_theirs, &result);
    Merging { to_ours, to_theirs, result, tree }
}

proof fn lemma_nothing_added(d: DraftView, theirs: SnapshotView, a: Option<usize>, k: int)
    requires
        0 <= k <= theirs.len() <= usize::MAX,
    ensures
        d.with_all_added(
            theirs,
            Pairing::identity(theirs.len()),
            Pairing::identity(theirs.len()),
            a,
            k,
        ) == d,
    decreases k,
{
    if k > 0 {
        lemma_nothing_added(d, theirs, a, k - 1);
        assert(Pairing::identity(theirs.len()).bwd[k - 1].is_some());
    }
}

/// What the draft holds after the first `k` nodes, where the three
/// snapshots are paired node by node and node `n` alone is in conflict:
/// each node went in at its own place, with the kind and the parent that
/// the base has for it, and the text is the base's, but for node `n`, which
/// keeps what "ours" has.
pub open spec fn drafted_as_base(
    d: DraftView,
    base: SnapshotView,
    ours: SnapshotView,
    n: int,
    k: int,
) -> bool {
    &&& d.ok
    &&& d.shapes.len() == k
    &&& d.from_ours.len() == base.len()
    &&& forall|j: int| 0 <= j < k ==> #[trigger] d.from_ours[j] == Some(j as usize)
    &&& forall|j: int|
        0 <= j < k ==> (#[trigger] d.shapes[j]).kind == base.nodes[j].kind && d.shapes[j].parent
            == base.nodes[j].parent
    &&& d.text == if k <= n {
        base.range_text(0, k)
    } else {
        base.range_text(0, n) + ours.content(n) + base.range_text(n + 1, k)
    }
}

/// Where "ours" and "theirs" keep the shape of the base, are paired with it
/// node by node, and node `n` alone is in conflict, the draft of the merged
/// snapshot has every node of the base at its place, with its kind and its
/// parent, and its text is the text of the base with what "ours" has for
/// node `n` in the place of that node.
pub proof fn lemma_draft_keeps_the_base(
    base: SnapshotView,
    ours: SnapshotView,
    theirs: SnapshotView,
    pieces: Seq<Piece>,
    n: int,
    k: int,
)
    requires
        base.wf(),
        same_shape(base, ours),
        theirs.len() == base.len(),
        one_clash(pieces, base.len(), n),
        0 <= k <= base.len(),
    ensures
        drafted_as_base(
            drafted(
                base,
                ours,
                theirs,
                Pairing::identity(base.len()),
                Pairing::identity(base.len()),
                pieces,
                k,
            ),
            base,
            ours,
            n,
            k,
        ),
    decreases k,
{
    let len = base.len();
    let id = Pairing::identity(len);
    if k <= 0 {
        let d0 = DraftView::start(ours.len(), theirs.len());
        lemma_nothing_added(d0, theirs, None, len);
        assert(base.range_text(0, 0) =~= Seq::<u8>::empty());
        assert(d0.text =~= base.range_text(0, 0));
    } else {
        let o = k - 1;
        lemma_draft_keeps_the_base(base, ours, theirs, pieces, n, o);
        let before = drafted(base, ours, theirs, id, id, pieces, o);
        let with = before.with_ours(base, ours, theirs, id, pieces, o);
        lemma_nothing_added(with, theirs, Some(o as usize), len);
        assert(drafted(base, ours, theirs, id, id, pieces, k) == with);
        assert(base.node_ok(o));
        assert(base.nodes[o].parent == ours.nodes[o].parent);
        assert(base.nodes[o].kind == ours.nodes[o].kind);
        assert(id.bwd[o] == Some(o as usize));
        if o != 0 {
            assert(before.from_ours[ours.nodes[o].parent as int] == Some(ours.nodes[o].parent));
        }
        let content = if o == n {
            ours.content(n)
        } else {
            base.content(o)
        };
        if o == n {
            assert(kept_source(pieces[o]) == Some(Source::Ours(n as usize)));
            assert(base.range_text(n + 1, n + 1) =~= Seq::<u8>::empty());
        } else {
            assert(pieces[o] == Piece::Plain(Source::Base));
            assert(kept_source(pieces[o]) == Some(Source::Base));
            if o > n {
                assert(base.range_text(n + 1, k) =~= base.range_text(n + 1, o) + base.content(o));
            }
        }
        assert(with.text =~= before.text + content);
        assert(with.shapes =~= before.shapes.push(with.shapes[o]));
        assert(with.text =~= if k <= n {
            base.range_text(0, k)
        } else {
            base.range_text(0, n) + ours.content(n) + base.range_text(n + 1, k)
        });
        assert forall|j: int| 0 <= j < k implies #[trigger] with.from_ours[j] == Some(
            j as usize,
        ) by {
            if j < o {
                assert(before.from_ours[j] == Some(j as usize));
            }
        }
        assert forall|j: int| 0 <= j < k implies (#[trigger] with.shapes[j]).kind
            == base.nodes[j].kind && with.shapes[j].parent == base.nodes[j].parent by {
            if j < o {
                assert(with.shapes[j] == before.shapes[j]);
            }
        }
    }
}

} // verus!
