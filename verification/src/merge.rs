//! Three-way merge of tree snapshots.
//!
//! Both sides are diffed against the base. Their scripts are read into one
//! table per side, keyed by base node, and the two tables are reconciled node
//! by node: an edit made by one side alone is applied, an edit made alike by
//! both is applied once, and edits that disagree are recorded as a conflict
//! with both sides kept.

use vstd::prelude::*;
use crate::diff::{edit_script, match_trees, matching, script_from, DiffConfig, EditOp, Mapping};
use crate::tree::{Snapshot, SnapshotView};

verus! {

/// Where a moved node goes.
#[derive(Clone, Copy, Debug, PartialEq, Eq)]
pub struct Target {
    /// The new parent, a node of the side's snapshot.
    pub parent: usize,
    /// The base node that the new parent stands for, if there is one.
    pub anchor: Option<usize>,
    /// The new position under that parent.
    pub position: usize,
}

/// What one side does to one base node.
#[derive(Clone, Copy, Debug, PartialEq, Eq)]
pub struct Touch {
    pub deleted: bool,
    /// The node of the side's snapshot whose content the base node takes.
    pub update: Option<usize>,
    pub moved: Option<Target>,
}

/// How a conflict came about.
#[derive(Clone, Copy, Debug, PartialEq, Eq, Structural)]
pub enum ConflictKind {
    /// Both sides update the content, differently.
    Content,
    /// Both sides move the node, to different places.
    Move,
    /// One side deletes the node, the other updates or moves it.
    DeleteEdit,
}

/// A base node that the two sides edit incompatibly, with both edits.
#[derive(Clone, Copy, Debug, PartialEq, Eq, Structural)]
pub struct Conflict {
    pub base: usize,
    pub ours: EditOp,
    pub theirs: EditOp,
    pub kind: ConflictKind,
}

/// Where the text of a merged node comes from.
#[derive(Clone, Copy, Debug, PartialEq, Eq, Structural)]
pub enum Source {
    /// The node is gone.
    Absent,
    /// The content of the base node.
    Base,
    /// The content of a node of "ours".
    Ours(usize),
    /// The content of a node of "theirs".
    Theirs(usize),
}

/// The merged content of one base node.
#[derive(Clone, Copy, Debug, PartialEq, Eq, Structural)]
pub enum Piece {
    /// Settled content.
    Plain(Source),
    /// A node in conflict: what "ours" has for it, and what "theirs" has.
    Clash(Source, Source),
}

impl Touch {
    /// The touch of a side that leaves the node alone.
    pub open spec fn none() -> Touch {
        Touch { deleted: false, update: None, moved: None }
    }

    /// Whether the side does anything to the node.
    pub open spec fn touched(self) -> bool {
        self.deleted || self.update.is_some() || self.moved.is_some()
    }

    /// Whether the side updates or moves the node.
    pub open spec fn edited(self) -> bool {
        self.update.is_some() || self.moved.is_some()
    }

    /// The `Update` that the touch stands for.
    pub open spec fn update_ops(self, n: int) -> Seq<EditOp> {
        match self.update {
            Some(s) => seq![EditOp::Update { node: n as usize, source: s }],
            None => Seq::empty(),
        }
    }

    /// The `Move` that the touch stands for.
    pub open spec fn move_ops(self, n: int) -> Seq<EditOp> {
        match self.moved {
            Some(g) => seq![
                EditOp::Move { node: n as usize, parent: g.parent, position: g.position },
            ],
            None => Seq::empty(),
        }
    }

    /// Every edit that the touch stands for.
    pub open spec fn edits(self, n: int) -> Seq<EditOp> {
        if self.deleted {
            seq![EditOp::Delete { node: n as usize }]
        } else {
            self.update_ops(n) + self.move_ops(n)
        }
    }

    /// The first of the update and the move; for a touch that edits.
    pub open spec fn first_edit(self, n: int) -> EditOp {
        match self.update {
            Some(s) => EditOp::Update { node: n as usize, source: s },
            None => match self.moved {
                Some(g) => EditOp::Move { node: n as usize, parent: g.parent, position: g.position },
                None => EditOp::Delete { node: n as usize },
            },
        }
    }

    /// The update names a node below `side_len`.
    pub open spec fn in_range(self, side_len: int) -> bool {
        match self.update {
            Some(s) => s < side_len,
            None => true,
        }
    }
}

/// Two moves lead to the same place: the same position under parents that
/// stand for the same base node.
pub open spec fn same_target(a: Target, b: Target) -> bool {
    a.position == b.position && a.anchor.is_some() && a.anchor == b.anchor
}

/// The touch `t` of base node `b` after one more operation of a script is
/// read. An operation that names a node outside the side's snapshot is
/// passed over.
pub open spec fn note(t: Touch, op: EditOp, b: int, side_len: int, bwd: Seq<Option<usize>>) -> Touch {
    match op {
        EditOp::Delete { node } => if node == b {
            Touch { deleted: true, update: t.update, moved: t.moved }
        } else {
            t
        },
        EditOp::Update { node, source } => if node == b && source < side_len {
            Touch { deleted: t.deleted, update: Some(source), moved: t.moved }
        } else {
            t
        },
        EditOp::Move { node, parent, position } => if node == b && parent < side_len {
            Touch {
                deleted: t.deleted,
                update: t.update,
                moved: Some(Target { parent, anchor: bwd[parent as int], position }),
            }
        } else {
            t
        },
        EditOp::Insert { .. } => t,
    }
}

/// What the first `k` operations of a script do to base node `b`.
pub open spec fn touch_upto(
    script: Seq<EditOp>,
    b: int,
    side_len: int,
    bwd: Seq<Option<usize>>,
    k: int,
) -> Touch
    decreases k,
{
    if k <= 0 {
        Touch::none()
    } else {
        note(touch_upto(script, b, side_len, bwd, k - 1), script[k - 1], b, side_len, bwd)
    }
}

/// What a script does to each of `n` base nodes.
pub open spec fn touches(script: Seq<EditOp>, n: int, side_len: int, bwd: Seq<Option<usize>>) -> Seq<
    Touch,
> {
    Seq::new(n as nat, |b: int| touch_upto(script, b, side_len, bwd, script.len() as int))
}

/// The `Insert` operations among the first `k` of a script, in order.
pub open spec fn inserts_upto(script: Seq<EditOp>, k: int) -> Seq<EditOp>
    decreases k,
{
    if k <= 0 {
        Seq::empty()
    } else {
        inserts_upto(script, k - 1) + match script[k - 1] {
            EditOp::Insert { .. } => seq![script[k - 1]],
            _ => Seq::empty(),
        }
    }
}

/// The result of a merge, or of a part of one, as mathematical values.
pub struct Merged {
    /// The edits of "ours" that are applied, convergent ones among them.
    pub ours: Seq<EditOp>,
    /// The edits of "theirs" alone that are applied.
    pub theirs: Seq<EditOp>,
    pub conflicts: Seq<Conflict>,
    /// The merged content of each base node.
    pub pieces: Seq<Piece>,
}

impl Merged {
    pub open spec fn nothing() -> Merged {
        Merged {
            ours: Seq::empty(),
            theirs: Seq::empty(),
            conflicts: Seq::empty(),
            pieces: Seq::empty(),
        }
    }

    pub open spec fn join(self, o: Merged) -> Merged {
        Merged {
            ours: self.ours + o.ours,
            theirs: self.theirs + o.theirs,
            conflicts: self.conflicts + o.conflicts,
            pieces: self.pieces + o.pieces,
        }
    }
}

/// Both sides move the node, to different places.
pub open spec fn moves_clash(a: Touch, b: Touch) -> bool {
    match (a.moved, b.moved) {
        (Some(ga), Some(gb)) => !same_target(ga, gb),
        _ => false,
    }
}

/// The piece of a node whose content is settled as `plain`: that content,
/// unless the two sides move the node to different places; then the piece
/// is in conflict and holds what either side has for the node.
pub open spec fn content_piece(plain: Source, a: Touch, b: Touch) -> Piece {
    if moves_clash(a, b) {
        Piece::Clash(edited_source(a, false), edited_source(b, true))
    } else {
        Piece::Plain(plain)
    }
}

/// The content part of reconciling base node `n`, which neither side
/// deletes.
pub open spec fn content_merge(ours: SnapshotView, theirs: SnapshotView, a: Touch, b: Touch, n: int) -> Merged {
    match (a.update, b.update) {
        (None, None) => Merged {
            ours: Seq::empty(),
            theirs: Seq::empty(),
            conflicts: Seq::empty(),
            pieces: seq![content_piece(Source::Base, a, b)],
        },
        (Some(sa), None) => Merged {
            ours: a.update_ops(n),
            theirs: Seq::empty(),
            conflicts: Seq::empty(),
            pieces: seq![content_piece(Source::Ours(sa), a, b)],
        },
        (None, Some(sb)) => Merged {
            ours: Seq::empty(),
            theirs: b.update_ops(n),
            conflicts: Seq::empty(),
            pieces: seq![content_piece(Source::Theirs(sb), a, b)],
        },
        (Some(sa), Some(sb)) => if ours.content(sa as int) == theirs.content(sb as int) {
            Merged {
                ours: a.update_ops(n),
                theirs: Seq::empty(),
                conflicts: Seq::empty(),
                pieces: seq![content_piece(Source::Ours(sa), a, b)],
            }
        } else {
            Merged {
                ours: Seq::empty(),
                theirs: Seq::empty(),
                conflicts: seq![
                    Conflict {
                        base: n as usize,
                        ours: EditOp::Update { node: n as usize, source: sa },
                        theirs: EditOp::Update { node: n as usize, source: sb },
                        kind: ConflictKind::Content,
                    },
                ],
                pieces: seq![Piece::Clash(Source::Ours(sa), Source::Theirs(sb))],
            }
        },
    }
}

/// The move part of reconciling base node `n`, which neither side deletes.
pub open spec fn move_merge(a: Touch, b: Touch, n: int) -> Merged {
    match (a.moved, b.moved) {
        (None, None) => Merged::nothing(),
        (Some(_), None) => Merged {
            ours: a.move_ops(n),
            theirs: Seq::empty(),
            conflicts: Seq::empty(),
            pieces: Seq::empty(),
        },
        (None, Some(_)) => Merged {
            ours: Seq::empty(),
            theirs: b.move_ops(n),
            conflicts: Seq::empty(),
            pieces: Seq::empty(),
        },
        (Some(ga), Some(gb)) => if same_target(ga, gb) {
            Merged {
                ours: a.move_ops(n),
                theirs: Seq::empty(),
                conflicts: Seq::empty(),
                pieces: Seq::empty(),
            }
        } else {
            Merged {
                ours: Seq::empty(),
                theirs: Seq::empty(),
                conflicts: seq![
                    Conflict {
                        base: n as usize,
                        ours: EditOp::Move {
                            node: n as usize,
                            parent: ga.parent,
                            position: ga.position,
                        },
                        theirs: EditOp::Move {
                            node: n as usize,
                            parent: gb.parent,
                            position: gb.position,
                        },
                        kind: ConflictKind::Move,
                    },
                ],
                pieces: Seq::empty(),
            }
        },
    }
}

/// The content that an editing side has for a base node.
pub open spec fn edited_source(t: Touch, theirs: bool) -> Source {
    match t.update {
        Some(s) => if theirs {
            Source::Theirs(s)
        } else {
            Source::Ours(s)
        },
        None => Source::Base,
    }
}

/// Reconciles what the two sides do to base node `n`.
pub open spec fn node_merge(ours: SnapshotView, theirs: SnapshotView, a: Touch, b: Touch, n: int) -> Merged {
    let del = seq![EditOp::Delete { node: n as usize }];
    if a.deleted && b.deleted {
        Merged {
            ours: del,
            theirs: Seq::empty(),
            conflicts: Seq::empty(),
            pieces: seq![Piece::Plain(Source::Absent)],
        }
    } else if a.deleted {
        if b.edited() {
            Merged {
                ours: Seq::empty(),
                theirs: Seq::empty(),
                conflicts: seq![
                    Conflict {
                        base: n as usize,
                        ours: EditOp::Delete { node: n as usize },
                        theirs: b.first_edit(n),
                        kind: ConflictKind::DeleteEdit,
                    },
                ],
                pieces: seq![Piece::Clash(Source::Absent, edited_source(b, true))],
            }
        } else {
            Merged {
                ours: del,
                theirs: Seq::empty(),
                conflicts: Seq::empty(),
                pieces: seq![Piece::Plain(Source::Absent)],
            }
        }
    } else if b.deleted {
        if a.edited() {
            Merged {
                ours: Seq::empty(),
                theirs: Seq::empty(),
                conflicts: seq![
                    Conflict {
                        base: n as usize,
                        ours: a.first_edit(n),
                        theirs: EditOp::Delete { node: n as usize },
                        kind: ConflictKind::DeleteEdit,
                    },
                ],
                pieces: seq![Piece::Clash(edited_source(a, false), Source::Absent)],
            }
        } else {
            Merged {
                ours: Seq::empty(),
                theirs: del,
                conflicts: Seq::empty(),
                pieces: seq![Piece::Plain(Source::Absent)],
            }
        }
    } else {
        content_merge(ours, theirs, a, b, n).join(move_merge(a, b, n))
    }
}

/// The base nodes below `k` reconciled, in document order.
pub open spec fn merge_upto(
    ours: SnapshotView,
    theirs: SnapshotView,
    ta: Seq<Touch>,
    tb: Seq<Touch>,
    k: int,
) -> Merged
    decreases k,
{
    if k <= 0 {
        Merged::nothing()
    } else {
        merge_upto(ours, theirs, ta, tb, k - 1).join(
            node_merge(ours, theirs, ta[k - 1], tb[k - 1], k - 1),
        )
    }
}

/// Two scripts against one base reconciled: the base nodes in document
/// order, then the inserts of each side, which touch no base node.
pub open spec fn reconciled(
    ours: SnapshotView,
    theirs: SnapshotView,
    ta: Seq<Touch>,
    tb: Seq<Touch>,
    ea: Seq<EditOp>,
    eb: Seq<EditOp>,
) -> Merged {
    merge_upto(ours, theirs, ta, tb, ta.len() as int).join(
        Merged {
            ours: inserts_upto(ea, ea.len() as int),
            theirs: inserts_upto(eb, eb.len() as int),
            conflicts: Seq::empty(),
            pieces: Seq::empty(),
        },
    )
}

/// The three-way merge of `ours` and `theirs` over `base`.
pub open spec fn merged(base: SnapshotView, ours: SnapshotView, theirs: SnapshotView, cfg: DiffConfig) -> Merged {
    let ea = edit_script(base, ours, cfg);
    let eb = edit_script(base, theirs, cfg);
    reconciled(
        ours,
        theirs,
        touches(ea, base.len(), ours.len(), matching(base, ours, cfg).bwd),
        touches(eb, base.len(), theirs.len(), matching(base, theirs, cfg).bwd),
        ea,
        eb,
    )
}

/// Every piece names nodes that its snapshot holds.
pub open spec fn source_ok(s: Source, ours_len: int, theirs_len: int) -> bool {
    match s {
        Source::Ours(i) => i < ours_len,
        Source::Theirs(i) => i < theirs_len,
        _ => true,
    }
}

pub open spec fn piece_ok(p: Piece, ours_len: int, theirs_len: int) -> bool {
    match p {
        Piece::Plain(s) => source_ok(s, ours_len, theirs_len),
        Piece::Clash(a, b) => source_ok(a, ours_len, theirs_len) && source_ok(
            b,
            ours_len,
            theirs_len,
        ),
    }
}

/// One piece for each base node, each naming nodes that exist.
pub open spec fn pieces_ok(pieces: Seq<Piece>, base_len: int, ours_len: int, theirs_len: int) -> bool {
    &&& pieces.len() == base_len
    &&& forall|k: int| 0 <= k < pieces.len() ==> piece_ok(#[trigger] pieces[k], ours_len, theirs_len)
}

/// The result of a three-way merge.
#[derive(Clone, Debug, PartialEq, Eq)]
pub struct MergeResult {
    /// The edits of "ours" that are applied, convergent ones among them.
    pub ours: Vec<EditOp>,
    /// The edits of "theirs" alone that are applied.
    pub theirs: Vec<EditOp>,
    /// The edits that disagree, none of them applied.
    pub conflicts: Vec<Conflict>,
    /// The merged content of each base node, in document order.
    pub pieces: Vec<Piece>,
}

impl View for MergeResult {
    type V = Merged;

    open spec fn view(&self) -> Merged {
        Merged {
            ours: self.ours@,
            theirs: self.theirs@,
            conflicts: self.conflicts@,
            pieces: self.pieces@,
        }
    }
}

impl MergeResult {
    /// Whether the merge left nothing to resolve by hand.
    pub fn is_clean(&self) -> (r: bool)
        ensures
            r == (self@.conflicts.len() == 0),
    {
        self.conflicts.len() == 0
    }
}


/// Reads a script into a table of what it does to each of `n` base nodes.
/// `m` is the mapping from the base to the side's snapshot.
pub fn touch_table(script: &Vec<EditOp>, n: usize, side_len: usize, m: &Mapping) -> (r: Vec<Touch>)
    requires
        m@.bwd.len() == side_len,
    ensures
        r@ == touches(script@, n as int, side_len as int, m@.bwd),
        forall|b: int| 0 <= b < n ==> (#[trigger] r@[b]).in_range(side_len as int),
{
    let mut table: Vec<Touch> = Vec::new();
    let mut b: usize = 0;
    while b < n
        invariant
            b <= n,
            table@.len() == b,
            forall|x: int| 0 <= x < b ==> #[trigger] table@[x] == Touch::none(),
        decreases n - b,
    {
        table.push(Touch { deleted: false, update: None, moved: None });
        b += 1;
    }
    let count = script.len();
    let mut k: usize = 0;
    while k < count
        invariant
            k <= count,
            count == script@.len(),
            table@.len() == n,
            m@.bwd.len() == side_len,
            forall|x: int|
                0 <= x < n ==> #[trigger] table@[x] == touch_upto(
                    script@,
                    x,
                    side_len as int,
                    m@.bwd,
                    k as int,
                ),
            forall|x: int| 0 <= x < n ==> (#[trigger] table@[x]).in_range(side_len as int),
        decreases count - k,
    {
        let op = script[k];
        match op {
            EditOp::Delete { node } => {
                if node < n {
                    let t = table[node];
                    table.set(node, Touch { deleted: true, update: t.update, moved: t.moved });
                }
            },
            EditOp::Update { node, source } => {
                if node < n && source < side_len {
                    let t = table[node];
                    table.set(node, Touch { deleted: t.deleted, update: Some(source), moved: t.moved });
                }
            },
            EditOp::Move { node, parent, position } => {
                if node < n && parent < side_len {
                    let t = table[node];
                    let anchor = m.backward(parent);
                    table.set(
                        node,
                        Touch {
                            deleted: t.deleted,
                            update: t.update,
                            moved: Some(Target { parent, anchor, position }),
                        },
                    );
                }
            },
            EditOp::Insert { .. } => {},
        }
        k += 1;
    }
    assert(table@ =~= touches(script@, n as int, side_len as int, m@.bwd));
    table
}

fn pick_edit(t: Touch, n: usize) -> (r: EditOp)
    ensures
        r == t.first_edit(n as int),
{
    match t.update {
        Some(s) => EditOp::Update { node: n, source: s },
        None => match t.moved {
            Some(g) => EditOp::Move { node: n, parent: g.parent, position: g.position },
            None => EditOp::Delete { node: n },
        },
    }
}

fn pick_source(t: Touch, theirs: bool) -> (r: Source)
    ensures
        r == edited_source(t, theirs),
{
    match t.update {
        Some(s) => if theirs {
            Source::Theirs(s)
        } else {
            Source::Ours(s)
        },
        None => Source::Base,
    }
}

fn targets_agree(a: Target, b: Target) -> (r: bool)
    ensures
        r == same_target(a, b),
{
    if a.position != b.position {
        return false;
    }
    match (a.anchor, b.anchor) {
        (Some(x), Some(y)) => x == y,
        _ => false,
    }
}

fn merge_node(ours: &Snapshot, theirs: &Snapshot, a: Touch, b: Touch, n: usize, out: &mut MergeResult)
    requires
        ours@.wf(),
        theirs@.wf(),
        a.in_range(ours@.len()),
        b.in_range(theirs@.len()),
    ensures
        final(out)@ == old(out)@.join(node_merge(ours@, theirs@, a, b, n as int)),
        node_merge(ours@, theirs@, a, b, n as int).pieces.len() == 1,
        piece_ok(node_merge(ours@, theirs@, a, b, n as int).pieces[0], ours@.len(), theirs@.len()),
{
    let del = EditOp::Delete { node: n };
    if a.deleted && b.deleted {
        out.ours.push(del);
        out.pieces.push(Piece::Plain(Source::Absent));
    } else if a.deleted {
        if b.update.is_some() || b.moved.is_some() {
            out.conflicts.push(
                Conflict { base: n, ours: del, theirs: pick_edit(b, n), kind: ConflictKind::DeleteEdit },
            );
            out.pieces.push(Piece::Clash(Source::Absent, pick_source(b, true)));
        } else {
            out.ours.push(del);
            out.pieces.push(Piece::Plain(Source::Absent));
        }
    } else if b.deleted {
        if a.update.is_some() || a.moved.is_some() {
            out.conflicts.push(
                Conflict { base: n, ours: pick_edit(a, n), theirs: del, kind: ConflictKind::DeleteEdit },
            );
            out.pieces.push(Piece::Clash(pick_source(a, false), Source::Absent));
        } else {
            out.theirs.push(del);
            out.pieces.push(Piece::Plain(Source::Absent));
        }
    } else {
        let clash = match (a.moved, b.moved) {
            (Some(ga), Some(gb)) => !targets_agree(ga, gb),
            _ => false,
        };
        let both = Piece::Clash(pick_source(a, false), pick_source(b, true));
        match (a.update, b.update) {
            (None, None) => {
                out.pieces.push(if clash { both } else { Piece::Plain(Source::Base) });
            },
            (Some(sa), None) => {
                out.ours.push(EditOp::Update { node: n, source: sa });
                out.pieces.push(if clash { both } else { Piece::Plain(Source::Ours(sa)) });
            },
            (None, Some(sb)) => {
                out.theirs.push(EditOp::Update { node: n, source: sb });
                out.pieces.push(if clash { both } else { Piece::Plain(Source::Theirs(sb)) });
            },
            (Some(sa), Some(sb)) => {
                if ours.same_content(sa, theirs, sb) {
                    out.ours.push(EditOp::Update { node: n, source: sa });
                    out.pieces.push(if clash { both } else { Piece::Plain(Source::Ours(sa)) });
                } else {
                    out.conflicts.push(
                        Conflict {
                            base: n,
                            ours: EditOp::Update { node: n, source: sa },
                            theirs: EditOp::Update { node: n, source: sb },
                            kind: ConflictKind::Content,
                        },
                    );
                    out.pieces.push(Piece::Clash(Source::Ours(sa), Source::Theirs(sb)));
                }
            },
        }
        match (a.moved, b.moved) {
            (None, None) => {},
            (Some(ga), None) => {
                out.ours.push(EditOp::Move { node: n, parent: ga.parent, position: ga.position });
            },
            (None, Some(gb)) => {
                out.theirs.push(EditOp::Move { node: n, parent: gb.parent, position: gb.position });
            },
            (Some(ga), Some(gb)) => {
                let ma = EditOp::Move { node: n, parent: ga.parent, position: ga.position };
                if targets_agree(ga, gb) {
                    out.ours.push(ma);
                } else {
                    out.conflicts.push(
                        Conflict {
                            base: n,
                            ours: ma,
                            theirs: EditOp::Move {
                                node: n,
                                parent: gb.parent,
                                position: gb.position,
                            },
                            kind: ConflictKind::Move,
                        },
                    );
                }
            },
        }
    }
    proof {
        let want = old(out)@.join(node_merge(ours@, theirs@, a, b, n as int));
        assert(out@.ours =~= want.ours);
        assert(out@.theirs =~= want.theirs);
        assert(out@.conflicts =~= want.conflicts);
        assert(out@.pieces =~= want.pieces);
    }
}

fn append_inserts(script: &Vec<EditOp>, out: &mut Vec<EditOp>)
    ensures
        final(out)@ == old(out)@ + inserts_upto(script@, script@.len() as int),
{
    let count = script.len();
    let mut k: usize = 0;
    assert(out@ =~= old(out)@ + inserts_upto(script@, 0));
    while k < count
        invariant
            k <= count,
            count == script@.len(),
            out@ == old(out)@ + inserts_upto(script@, k as int),
        decreases count - k,
    {
        let op = script[k];
        match op {
            EditOp::Insert { .. } => {
                out.push(op);
            },
            _ => {},
        }
        k += 1;
        assert(out@ =~= old(out)@ + inserts_upto(script@, k as int));
    }
}

/// Reconciles two scripts against one base, read into the tables `ta` for
/// "ours" and `tb` for "theirs".
pub fn reconcile(
    ours: &Snapshot,
    theirs: &Snapshot,
    ta: &Vec<Touch>,
    tb: &Vec<Touch>,
    ea: &Vec<EditOp>,
    eb: &Vec<EditOp>,
) -> (r: MergeResult)
    requires
        ours@.wf(),
        theirs@.wf(),
        ta@.len() == tb@.len(),
        forall|b: int| 0 <= b < ta@.len() ==> (#[trigger] ta@[b]).in_range(ours@.len()),
        forall|b: int| 0 <= b < tb@.len() ==> (#[trigger] tb@[b]).in_range(theirs@.len()),
    ensures
        r@ == reconciled(ours@, theirs@, ta@, tb@, ea@, eb@),
        pieces_ok(r@.pieces, ta@.len() as int, ours@.len(), theirs@.len()),
{
    let mut out = MergeResult {
        ours: Vec::new(),
        theirs: Vec::new(),
        conflicts: Vec::new(),
        pieces: Vec::new(),
    };
    let n = ta.len();
    let mut k: usize = 0;
    assert(out@.ours =~= Merged::nothing().ours && out@.theirs =~= Merged::nothing().theirs
        && out@.conflicts =~= Merged::nothing().conflicts && out@.pieces
        =~= Merged::nothing().pieces);
    while k < n
        invariant
            k <= n,
            n == ta@.len(),
            n == tb@.len(),
            ours@.wf(),
            theirs@.wf(),
            forall|b: int| 0 <= b < ta@.len() ==> (#[trigger] ta@[b]).in_range(ours@.len()),
            forall|b: int| 0 <= b < tb@.len() ==> (#[trigger] tb@[b]).in_range(theirs@.len()),
            out@ == merge_upto(ours@, theirs@, ta@, tb@, k as int),
            pieces_ok(out@.pieces, k as int, ours@.len(), theirs@.len()),
        decreases n - k,
    {
        let a = ta[k];
        let b = tb[k];
        assert(ta@[k as int].in_range(ours@.len()));
        assert(tb@[k as int].in_range(theirs@.len()));
        merge_node(ours, theirs, a, b, k, &mut out);
        k += 1;
    }
    append_inserts(ea, &mut out.ours);
    append_inserts(eb, &mut out.theirs);
    proof {
        let want = reconciled(ours@, theirs@, ta@, tb@, ea@, eb@);
        assert(out@.ours =~= want.ours);
        assert(out@.theirs =~= want.theirs);
        assert(out@.conflicts =~= want.conflicts);
        assert(out@.pieces =~= want.pieces);
    }
    out
}

/// Merges `ours` and `theirs` over their common `base`.
pub fn merge(base: &Snapshot, ours: &Snapshot, theirs: &Snapshot, cfg: DiffConfig) -> (r: MergeResult)
    requires
        base@.wf(),
        ours@.wf(),
        theirs@.wf(),
    ensures
        r@ == merged(base@, ours@, theirs@, cfg),
        pieces_ok(r@.pieces, base@.len(), ours@.len(), theirs@.len()),
{
    let ma = match_trees(base, ours, cfg);
    let ea = script_from(base, ours, &ma);
    let mb = match_trees(base, theirs, cfg);
    let eb = script_from(base, theirs, &mb);
    let ta = touch_table(&ea, base.len(), ours.len(), &ma);
    let tb = touch_table(&eb, base.len(), theirs.len(), &mb);
    reconcile(ours, theirs, &ta, &tb, &ea, &eb)
}

/// The edits that a table stands for, over the base nodes below `k`.
pub open spec fn edits_upto(t: Seq<Touch>, k: int) -> Seq<EditOp>
    decreases k,
{
    if k <= 0 {
        Seq::empty()
    } else {
        edits_upto(t, k - 1) + t[k - 1].edits(k - 1)
    }
}

/// No base node is touched by both sides.
pub open spec fn disjoint(ta: Seq<Touch>, tb: Seq<Touch>) -> bool {
    forall|n: int| 0 <= n < ta.len() ==> !((#[trigger] ta[n]).touched() && tb[n].touched())
}

proof fn lemma_disjoint_nodes(ours: SnapshotView, theirs: SnapshotView, ta: Seq<Touch>, tb: Seq<Touch>, k: int)
    requires
        ta.len() == tb.len(),
        0 <= k <= ta.len(),
        disjoint(ta, tb),
    ensures
        merge_upto(ours, theirs, ta, tb, k).conflicts == Seq::<Conflict>::empty(),
        merge_upto(ours, theirs, ta, tb, k).ours == edits_upto(ta, k),
        merge_upto(ours, theirs, ta, tb, k).theirs == edits_upto(tb, k),
    decreases k,
{
    if k > 0 {
        lemma_disjoint_nodes(ours, theirs, ta, tb, k - 1);
        let a = ta[k - 1];
        let b = tb[k - 1];
        assert(!(a.touched() && b.touched()));
        let one = node_merge(ours, theirs, a, b, k - 1);
        assert(one.conflicts =~= Seq::<Conflict>::empty());
        assert(one.ours =~= a.edits(k - 1));
        assert(one.theirs =~= b.edits(k - 1));
        let all = merge_upto(ours, theirs, ta, tb, k);
        assert(all.conflicts =~= Seq::<Conflict>::empty());
        assert(all.ours =~= edits_upto(ta, k));
        assert(all.theirs =~= edits_upto(tb, k));
    }
}

/// Where the two sides touch disjoint sets of base nodes, reconciling them
/// leaves no conflict and applies every edit of both: what each side does
/// to the base nodes, then what it inserts.
pub proof fn lemma_disjoint_merge(
    ours: SnapshotView,
    theirs: SnapshotView,
    ta: Seq<Touch>,
    tb: Seq<Touch>,
    ea: Seq<EditOp>,
    eb: Seq<EditOp>,
)
    requires
        ta.len() == tb.len(),
        disjoint(ta, tb),
    ensures
        reconciled(ours, theirs, ta, tb, ea, eb).conflicts == Seq::<Conflict>::empty(),
        reconciled(ours, theirs, ta, tb, ea, eb).ours == edits_upto(ta, ta.len() as int)
            + inserts_upto(ea, ea.len() as int),
        reconciled(ours, theirs, ta, tb, ea, eb).theirs == edits_upto(tb, tb.len() as int)
            + inserts_upto(eb, eb.len() as int),
{
    lemma_disjoint_nodes(ours, theirs, ta, tb, ta.len() as int);
    assert(reconciled(ours, theirs, ta, tb, ea, eb).conflicts =~= Seq::<Conflict>::empty());
}

/// The merge of two sides that touch disjoint sets of base nodes has no
/// conflict and applies every edit of both.
pub proof fn lemma_disjoint_edit_merge(
    base: SnapshotView,
    ours: SnapshotView,
    theirs: SnapshotView,
    cfg: DiffConfig,
)
    requires
        disjoint(
            touches(
                edit_script(base, ours, cfg),
                base.len(),
                ours.len(),
                matching(base, ours, cfg).bwd,
            ),
            touches(
                edit_script(base, theirs, cfg),
                base.len(),
                theirs.len(),
                matching(base, theirs, cfg).bwd,
            ),
        ),
    ensures
        merged(base, ours, theirs, cfg).conflicts == Seq::<Conflict>::empty(),
        merged(base, ours, theirs, cfg).ours == edits_upto(
            touches(
                edit_script(base, ours, cfg),
                base.len(),
                ours.len(),
                matching(base, ours, cfg).bwd,
            ),
            base.len(),
        ) + inserts_upto(
            edit_script(base, ours, cfg),
            edit_script(base, ours, cfg).len() as int,
        ),
        merged(base, ours, theirs, cfg).theirs == edits_upto(
            touches(
                edit_script(base, theirs, cfg),
                base.len(),
                theirs.len(),
                matching(base, theirs, cfg).bwd,
            ),
            base.len(),
        ) + inserts_upto(
            edit_script(base, theirs, cfg),
            edit_script(base, theirs, cfg).len() as int,
        ),
{
    let ea = edit_script(base, ours, cfg);
    let eb = edit_script(base, theirs, cfg);
    let ta = touches(ea, base.len(), ours.len(), matching(base, ours, cfg).bwd);
    let tb = touches(eb, base.len(), theirs.len(), matching(base, theirs, cfg).bwd);
    lemma_disjoint_merge(ours, theirs, ta, tb, ea, eb);
}

/// Whether a piece is settled content.
pub open spec fn is_plain(p: Piece) -> bool {
    match p {
        Piece::Plain(_) => true,
        Piece::Clash(_, _) => false,
    }
}

/// Where reconciling the base nodes below `k` leaves no conflict, each of
/// them has one piece, and every piece is settled: the rendered text then
/// holds no fence.
pub proof fn lemma_clean_merge_is_plain(
    ours: SnapshotView,
    theirs: SnapshotView,
    ta: Seq<Touch>,
    tb: Seq<Touch>,
    k: int,
)
    requires
        0 <= k,
        merge_upto(ours, theirs, ta, tb, k).conflicts.len() == 0,
    ensures
        merge_upto(ours, theirs, ta, tb, k).pieces.len() == k,
        forall|i: int|
            0 <= i < k ==> is_plain(#[trigger] merge_upto(ours, theirs, ta, tb, k).pieces[i]),
    decreases k,
{
    if k > 0 {
        let before = merge_upto(ours, theirs, ta, tb, k - 1);
        let one = node_merge(ours, theirs, ta[k - 1], tb[k - 1], k - 1);
        assert(before.conflicts.len() == 0);
        assert(one.conflicts.len() == 0);
        lemma_clean_merge_is_plain(ours, theirs, ta, tb, k - 1);
        assert(one.pieces.len() == 1);
        assert(is_plain(one.pieces[0]));
        let all = merge_upto(ours, theirs, ta, tb, k);
        assert forall|i: int| 0 <= i < k implies is_plain(#[trigger] all.pieces[i]) by {
            if i < k - 1 {
                assert(all.pieces[i] == before.pieces[i]);
            } else {
                assert(all.pieces[i] == one.pieces[0]);
            }
        }
    }
}

/// Reconciling the base nodes below `k` gives one piece for each of them,
/// the piece of its own reconciling.
pub proof fn lemma_pieces_by_node(
    ours: SnapshotView,
    theirs: SnapshotView,
    ta: Seq<Touch>,
    tb: Seq<Touch>,
    k: int,
)
    requires
        0 <= k,
    ensures
        merge_upto(ours, theirs, ta, tb, k).pieces.len() == k,
        forall|i: int|
            0 <= i < k ==> #[trigger] merge_upto(ours, theirs, ta, tb, k).pieces[i] == node_merge(
                ours,
                theirs,
                ta[i],
                tb[i],
                i,
            ).pieces[0],
    decreases k,
{
    if k > 0 {
        lemma_pieces_by_node(ours, theirs, ta, tb, k - 1);
        let before = merge_upto(ours, theirs, ta, tb, k - 1);
        let one = node_merge(ours, theirs, ta[k - 1], tb[k - 1], k - 1);
        assert(one.pieces.len() == 1);
        let all = merge_upto(ours, theirs, ta, tb, k);
        assert forall|i: int| 0 <= i < k implies #[trigger] all.pieces[i] == node_merge(
            ours,
            theirs,
            ta[i],
            tb[i],
            i,
        ).pieces[0] by {
            if i < k - 1 {
                assert(all.pieces[i] == before.pieces[i]);
            } else {
                assert(all.pieces[i] == one.pieces[0]);
            }
        }
    }
}

/// The conflict of two different updates of base node `n`.
pub open spec fn content_conflict(n: int, sa: usize, sb: usize) -> Conflict {
    Conflict {
        base: n as usize,
        ours: EditOp::Update { node: n as usize, source: sa },
        theirs: EditOp::Update { node: n as usize, source: sb },
        kind: ConflictKind::Content,
    }
}

/// Base node `n` is updated by both sides, to different content, deleted by
/// neither and not moved to two places; no other base node is touched by
/// both sides.
pub open spec fn one_content_clash(
    ours: SnapshotView,
    theirs: SnapshotView,
    ta: Seq<Touch>,
    tb: Seq<Touch>,
    n: int,
    sa: usize,
    sb: usize,
) -> bool {
    &&& ta.len() == tb.len()
    &&& 0 <= n < ta.len()
    &&& !ta[n].deleted && !tb[n].deleted
    &&& ta[n].update == Some(sa) && tb[n].update == Some(sb)
    &&& !moves_clash(ta[n], tb[n])
    &&& ours.content(sa as int) != theirs.content(sb as int)
    &&& forall|i: int|
        0 <= i < ta.len() && i != n ==> !((#[trigger] ta[i]).touched() && tb[i].touched())
}

proof fn lemma_one_clash_nodes(
    ours: SnapshotView,
    theirs: SnapshotView,
    ta: Seq<Touch>,
    tb: Seq<Touch>,
    n: int,
    sa: usize,
    sb: usize,
    k: int,
)
    requires
        one_content_clash(ours, theirs, ta, tb, n, sa, sb),
        0 <= k <= ta.len(),
    ensures
        k <= n ==> merge_upto(ours, theirs, ta, tb, k).conflicts == Seq::<Conflict>::empty(),
        k > n ==> merge_upto(ours, theirs, ta, tb, k).conflicts == seq![
            content_conflict(n, sa, sb),
        ],
    decreases k,
{
    if k > 0 {
        lemma_one_clash_nodes(ours, theirs, ta, tb, n, sa, sb, k - 1);
        let a = ta[k - 1];
        let b = tb[k - 1];
        let one = node_merge(ours, theirs, a, b, k - 1);
        let all = merge_upto(ours, theirs, ta, tb, k);
        if k - 1 == n {
            assert(content_merge(ours, theirs, a, b, n).conflicts =~= seq![
                content_conflict(n, sa, sb),
            ]);
            assert(move_merge(a, b, n).conflicts =~= Seq::<Conflict>::empty());
            assert(one.conflicts =~= seq![content_conflict(n, sa, sb)]);
            assert(all.conflicts =~= seq![content_conflict(n, sa, sb)]);
        } else {
            assert(!(a.touched() && b.touched()));
            assert(one.conflicts =~= Seq::<Conflict>::empty());
            if k <= n {
                assert(all.conflicts =~= Seq::<Conflict>::empty());
            } else {
                assert(all.conflicts =~= seq![content_conflict(n, sa, sb)]);
            }
        }
    }
}

/// Where the two sides update one base node to different content and
/// touch no other node together, reconciling them reports exactly one
/// conflict: a content conflict at that node, with both updates. The piece
/// of that node holds both contents, and every other piece is settled.
pub proof fn lemma_one_content_conflict(
    ours: SnapshotView,
    theirs: SnapshotView,
    ta: Seq<Touch>,
    tb: Seq<Touch>,
    ea: Seq<EditOp>,
    eb: Seq<EditOp>,
    n: int,
    sa: usize,
    sb: usize,
)
    requires
        one_content_clash(ours, theirs, ta, tb, n, sa, sb),
    ensures
        reconciled(ours, theirs, ta, tb, ea, eb).conflicts == seq![content_conflict(n, sa, sb)],
        reconciled(ours, theirs, ta, tb, ea, eb).pieces.len() == ta.len(),
        reconciled(ours, theirs, ta, tb, ea, eb).pieces[n] == Piece::Clash(
            Source::Ours(sa),
            Source::Theirs(sb),
        ),
        forall|i: int|
            0 <= i < ta.len() && i != n ==> is_plain(
                #[trigger] reconciled(ours, theirs, ta, tb, ea, eb).pieces[i],
            ),
{
    let len = ta.len() as int;
    let r = reconciled(ours, theirs, ta, tb, ea, eb);
    let m = merge_upto(ours, theirs, ta, tb, len);
    lemma_one_clash_nodes(ours, theirs, ta, tb, n, sa, sb, len);
    lemma_pieces_by_node(ours, theirs, ta, tb, len);
    assert(r.conflicts =~= m.conflicts);
    assert(r.pieces =~= m.pieces);
    assert(m.pieces[n] == node_merge(ours, theirs, ta[n], tb[n], n).pieces[0]);
    assert forall|i: int| 0 <= i < ta.len() && i != n implies is_plain(#[trigger] r.pieces[i]) by {
        assert(m.pieces[i] == node_merge(ours, theirs, ta[i], tb[i], i).pieces[0]);
        assert(!(ta[i].touched() && tb[i].touched()));
    }
}

/// The table of a side that does nothing but update base node `n` from
/// its own node `n`.
pub open spec fn one_update_table(len: int, n: int) -> Seq<Touch> {
    Seq::new(
        len as nat,
        |b: int|
            if b == n {
                Touch { deleted: false, update: Some(n as usize), moved: None }
            } else {
                Touch::none()
            },
    )
}

/// A script of one update reads into the table of that one update.
pub proof fn lemma_table_of_one_update(len: int, n: int, bwd: Seq<Option<usize>>)
    requires
        0 <= n < len <= usize::MAX,
    ensures
        touches(seq![EditOp::Update { node: n as usize, source: n as usize }], len, len, bwd)
            == one_update_table(len, n),
{
    let script = seq![EditOp::Update { node: n as usize, source: n as usize }];
    assert forall|b: int| 0 <= b < len implies touch_upto(script, b, len, bwd, 1)
        == one_update_table(len, n)[b] by {
        assert(touch_upto(script, b, len, bwd, 0) == Touch::none());
        assert(script[0] == EditOp::Update { node: n as usize, source: n as usize });
    }
    assert(touches(script, len, len, bwd) =~= one_update_table(len, n));
}

} // verus!
