//! Snapshot diff: a mapping between the nodes of two snapshots, and the edit
//! script that it implies.
//!
//! The mapping is built in three passes. The first pairs identical
//! subtrees, largest first and leftmost first among equals. The second goes
//! bottom-up over the inner nodes that are still alone and pairs each with
//! the free inner node of its kind with which it shares the largest part of
//! its descendants, if that part exceeds a threshold; among equals the
//! nearer one wins, then the leftmost. The third walks the
//! source in document order and pairs each node that is still alone with
//! the first free node of the same kind under the counterpart of its
//! parent. All are functions of their inputs alone, so equal inputs give
//! equal scripts.

use vstd::prelude::*;
use crate::tree::{Snapshot, SnapshotView, MAX_NODES};

verus! {

/// One operation of an edit script. `node` of `Delete`, `Move` and `Update`
/// is a node of the source snapshot; every other index names a node of the
/// target snapshot.
#[derive(Clone, Copy, Debug, PartialEq, Eq, Structural)]
pub enum EditOp {
    /// Node `node` of the target appears under `parent` at `position`.
    Insert { parent: usize, position: usize, node: usize },
    /// Node `node` of the source is gone.
    Delete { node: usize },
    /// Node `node` of the source now stands under `parent` at `position`.
    Move { node: usize, parent: usize, position: usize },
    /// Node `node` of the source takes the content of node `source` of the
    /// target.
    Update { node: usize, source: usize },
}

/// Tunable parameters of the matching.
#[derive(Clone, Copy, Debug, PartialEq, Eq, Structural)]
pub struct DiffConfig {
    /// Smallest subtree, in nodes, that is paired as a whole.
    pub min_size: usize,
    /// Numerator of the similarity that a pair of inner nodes must exceed.
    pub sim_num: u64,
    /// Denominator of that similarity.
    pub sim_den: u64,
}

impl Default for DiffConfig {
    fn default() -> (r: DiffConfig)
        ensures
            r == (DiffConfig { min_size: 1, sim_num: 1, sim_den: 2 }),
    {
        DiffConfig { min_size: 1, sim_num: 1, sim_den: 2 }
    }
}

/// A partial one-to-one correspondence between two snapshots, as
/// mathematical values: `fwd[i]` is the counterpart of source node `i`,
/// `bwd[j]` that of target node `j`.
pub struct Pairing {
    pub fwd: Seq<Option<usize>>,
    pub bwd: Seq<Option<usize>>,
}

impl Pairing {
    /// Each node has at most one counterpart, and the two directions agree.
    pub open spec fn wf(self, n1: int, n2: int) -> bool {
        &&& self.fwd.len() == n1
        &&& self.bwd.len() == n2
        &&& forall|i: int|
            0 <= i < n1 ==> match #[trigger] self.fwd[i] {
                Some(j) => j < n2 && self.bwd[j as int] == Some(i as usize),
                None => true,
            }
        &&& forall|j: int|
            0 <= j < n2 ==> match #[trigger] self.bwd[j] {
                Some(i) => i < n1 && self.fwd[i as int] == Some(j as usize),
                None => true,
            }
    }

    /// The pairing in which no node has a counterpart.
    pub open spec fn empty(n1: int, n2: int) -> Pairing {
        Pairing {
            fwd: Seq::new(n1 as nat, |k: int| None::<usize>),
            bwd: Seq::new(n2 as nat, |k: int| None::<usize>),
        }
    }

    /// The pairing of every node of a snapshot of `n` nodes with itself.
    pub open spec fn identity(n: int) -> Pairing {
        Pairing {
            fwd: Seq::new(n as nat, |k: int| Some(k as usize)),
            bwd: Seq::new(n as nat, |k: int| Some(k as usize)),
        }
    }

    /// This pairing with the run of `s` nodes at `i` paired, one by one, with
    /// the run at `j`.
    pub open spec fn bind(self, i: int, j: int, s: int) -> Pairing {
        Pairing {
            fwd: Seq::new(
                self.fwd.len(),
                |k: int|
                    if i <= k < i + s {
                        Some((j + k - i) as usize)
                    } else {
                        self.fwd[k]
                    },
            ),
            bwd: Seq::new(
                self.bwd.len(),
                |k: int|
                    if j <= k < j + s {
                        Some((i + k - j) as usize)
                    } else {
                        self.bwd[k]
                    },
            ),
        }
    }
}

/// No node of the run of `len` nodes at `start` has a counterpart.
pub open spec fn free(m: Seq<Option<usize>>, start: int, len: int) -> bool {
    forall|k: int| start <= k < start + len ==> (#[trigger] m[k]).is_none()
}

/// Target node `j` heads a free subtree with the size, hash and kind of the
/// subtree at source node `i`.
pub open spec fn is_twin(t1: SnapshotView, t2: SnapshotView, p: Pairing, i: int, j: int) -> bool {
    &&& t2.nodes[j].size == t1.nodes[i].size
    &&& t2.nodes[j].hash == t1.nodes[i].hash
    &&& t2.nodes[j].kind == t1.nodes[i].kind
    &&& free(p.bwd, j, t2.nodes[j].size as int)
}

/// The leftmost twin of `i` at or after `from`.
pub open spec fn first_twin(t1: SnapshotView, t2: SnapshotView, p: Pairing, i: int, from: int) -> Option<
    int,
>
    decreases t2.len() - from,
{
    if from >= t2.len() {
        None
    } else if is_twin(t1, t2, p, i, from) {
        Some(from)
    } else {
        first_twin(t1, t2, p, i, from + 1)
    }
}

/// One step of the first pass: a free subtree of size `s` at `i` is paired
/// with its leftmost twin, if it has one.
pub open spec fn anchor_node(t1: SnapshotView, t2: SnapshotView, p: Pairing, s: int, i: int) -> Pairing {
    if t1.nodes[i].size == s && free(p.fwd, i, s) {
        match first_twin(t1, t2, p, i, 0) {
            Some(j) => p.bind(i, j, s),
            None => p,
        }
    } else {
        p
    }
}

/// The first pass over the source nodes below `k`, for subtrees of size `s`.
pub open spec fn anchor_row(t1: SnapshotView, t2: SnapshotView, p: Pairing, s: int, k: int) -> Pairing
    decreases k,
{
    if k <= 0 {
        p
    } else {
        anchor_node(t1, t2, anchor_row(t1, t2, p, s, k - 1), s, k - 1)
    }
}

/// The first pass for all sizes from `s` down to `min`, largest first.
pub open spec fn anchor_all(t1: SnapshotView, t2: SnapshotView, p: Pairing, s: int, min: int) -> Pairing
    decreases s,
{
    if s < 1 || s < min {
        p
    } else {
        anchor_all(t1, t2, anchor_row(t1, t2, p, s, t1.len()), s - 1, min)
    }
}

/// Number of the first `k` descendants of source node `i` whose counterpart
/// is a descendant of target node `j`.
pub open spec fn shared_upto(t2: SnapshotView, p: Pairing, i: int, j: int, k: int) -> int
    decreases k,
{
    if k <= 0 {
        0
    } else {
        shared_upto(t2, p, i, j, k - 1) + match p.fwd[i + k] {
            Some(e) => if j < e < j + t2.nodes[j].size {
                1int
            } else {
                0int
            },
            None => 0int,
        }
    }
}

/// Number of descendants of `i` whose counterpart is a descendant of `j`.
pub open spec fn shared(t1: SnapshotView, t2: SnapshotView, p: Pairing, i: int, j: int) -> int {
    shared_upto(t2, p, i, j, t1.nodes[i].size - 1)
}

/// Number of descendants of `i` and of `j` together.
pub open spec fn descendants(t1: SnapshotView, t2: SnapshotView, i: int, j: int) -> int {
    (t1.nodes[i].size - 1) + (t2.nodes[j].size - 1)
}

/// Target node `j` is a free inner node of the kind of `i`, and the
/// similarity of the two, twice the shared descendants over all their
/// descendants, exceeds the threshold.
pub open spec fn is_candidate(
    t1: SnapshotView,
    t2: SnapshotView,
    p: Pairing,
    cfg: DiffConfig,
    i: int,
    j: int,
) -> bool {
    &&& p.bwd[j].is_none()
    &&& t2.nodes[j].size > 1
    &&& t2.nodes[j].kind == t1.nodes[i].kind
    &&& 2 * shared(t1, t2, p, i, j) * cfg.sim_den > cfg.sim_num * descendants(t1, t2, i, j)
}

/// `j` is more similar to `i` than `b` is.
pub open spec fn more_similar(t1: SnapshotView, t2: SnapshotView, p: Pairing, i: int, j: int, b: int) -> bool {
    shared(t1, t2, p, i, j) * descendants(t1, t2, i, b) > shared(t1, t2, p, i, b) * descendants(
        t1,
        t2,
        i,
        j,
    )
}

/// How far apart two nodes stand in document order.
pub open spec fn distance(i: int, j: int) -> int {
    if i <= j {
        j - i
    } else {
        i - j
    }
}

/// `j` is to be preferred to `b` as a partner for `i`: it is more similar,
/// or as similar and nearer to where `i` stands.
pub open spec fn preferred(t1: SnapshotView, t2: SnapshotView, p: Pairing, i: int, j: int, b: int) -> bool {
    more_similar(t1, t2, p, i, j, b) || (!more_similar(t1, t2, p, i, b, j) && distance(i, j)
        < distance(i, b))
}

/// The most similar candidate for `i` among the target nodes below `k`;
/// among equals the nearest, and among those the leftmost.
pub open spec fn best_partner(
    t1: SnapshotView,
    t2: SnapshotView,
    p: Pairing,
    cfg: DiffConfig,
    i: int,
    k: int,
) -> Option<int>
    decreases k,
{
    if k <= 0 {
        None
    } else {
        let prev = best_partner(t1, t2, p, cfg, i, k - 1);
        if is_candidate(t1, t2, p, cfg, i, k - 1) && (match prev {
            Some(b) => preferred(t1, t2, p, i, k - 1, b),
            None => true,
        }) {
            Some(k - 1)
        } else {
            prev
        }
    }
}

/// One step of the second pass: a free inner node is paired with its best
/// partner, if it has one.
pub open spec fn lift_node(t1: SnapshotView, t2: SnapshotView, p: Pairing, cfg: DiffConfig, i: int) -> Pairing {
    if p.fwd[i].is_none() && t1.nodes[i].size > 1 {
        match best_partner(t1, t2, p, cfg, i, t2.len()) {
            Some(j) => p.bind(i, j, 1),
            None => p,
        }
    } else {
        p
    }
}

/// The second pass over the source nodes from `k` on, last node first.
pub open spec fn lift_from(t1: SnapshotView, t2: SnapshotView, p: Pairing, cfg: DiffConfig, k: int) -> Pairing
    decreases t1.len() - k,
{
    if k >= t1.len() {
        p
    } else {
        lift_node(t1, t2, lift_from(t1, t2, p, cfg, k + 1), cfg, k)
    }
}

/// Target node `j` is free, of the kind of source node `i`, and stands
/// under the counterpart of the parent of `i`; a root goes with a root.
pub open spec fn is_mate(t1: SnapshotView, t2: SnapshotView, p: Pairing, i: int, j: int) -> bool {
    &&& p.bwd[j].is_none()
    &&& t2.nodes[j].kind == t1.nodes[i].kind
    &&& if i == 0 {
        j == 0
    } else {
        j != 0 && p.fwd[t1.nodes[i].parent as int] == Some(t2.nodes[j].parent)
    }
}

/// The leftmost mate of `i` at or after `from`.
pub open spec fn first_mate(t1: SnapshotView, t2: SnapshotView, p: Pairing, i: int, from: int) -> Option<
    int,
>
    decreases t2.len() - from,
{
    if from >= t2.len() {
        None
    } else if is_mate(t1, t2, p, i, from) {
        Some(from)
    } else {
        first_mate(t1, t2, p, i, from + 1)
    }
}

/// One step of the third pass.
pub open spec fn align_node(t1: SnapshotView, t2: SnapshotView, p: Pairing, i: int) -> Pairing {
    if p.fwd[i].is_none() {
        match first_mate(t1, t2, p, i, 0) {
            Some(j) => p.bind(i, j, 1),
            None => p,
        }
    } else {
        p
    }
}

/// The third pass over the source nodes below `k`, in document order.
pub open spec fn align_upto(t1: SnapshotView, t2: SnapshotView, p: Pairing, k: int) -> Pairing
    decreases k,
{
    if k <= 0 {
        p
    } else {
        align_node(t1, t2, align_upto(t1, t2, p, k - 1), k - 1)
    }
}

/// The mapping between two snapshots.
pub open spec fn matching(t1: SnapshotView, t2: SnapshotView, cfg: DiffConfig) -> Pairing {
    align_upto(
        t1,
        t2,
        lift_from(
            t1,
            t2,
            anchor_all(t1, t2, Pairing::empty(t1.len(), t2.len()), t1.len(), cfg.min_size as int),
            cfg,
            0,
        ),
        t1.len(),
    )
}

/// Number of the children of `p1` below `upto` whose counterpart under
/// `map` is a child of `p2` in the other snapshot.
pub open spec fn kin_before(
    t1: SnapshotView,
    t2: SnapshotView,
    map: Seq<Option<usize>>,
    p1: int,
    p2: int,
    upto: int,
) -> int
    decreases upto,
{
    if upto <= 1 {
        0
    } else {
        kin_before(t1, t2, map, p1, p2, upto - 1) + if t1.nodes[upto - 1].parent == p1 && (
        match map[upto - 1] {
            Some(c) => c != 0 && t2.nodes[c as int].parent == p2,
            None => false,
        }) {
            1int
        } else {
            0int
        }
    }
}

/// Source node `i` and its counterpart `j` differ in parent or position.
/// The position of a node is taken among those of its siblings that have a
/// sibling of the other node as counterpart, so that a sibling added or
/// deleted beside a node does not move it.
pub open spec fn moved(t1: SnapshotView, t2: SnapshotView, p: Pairing, i: int, j: int) -> bool {
    if i == 0 {
        j != 0
    } else if j == 0 {
        true
    } else {
        p.fwd[t1.nodes[i].parent as int] != Some(t2.nodes[j].parent) || kin_before(
            t1,
            t2,
            p.fwd,
            t1.nodes[i].parent as int,
            t2.nodes[j].parent as int,
            i,
        ) != kin_before(t2, t1, p.bwd, t2.nodes[j].parent as int, t1.nodes[i].parent as int, j)
    }
}

/// The operations that source node `i` gives rise to: a `Delete` where it
/// has no counterpart; else an `Update` where the content differs, then a
/// `Move` where parent or position differs.
pub open spec fn source_ops(t1: SnapshotView, t2: SnapshotView, p: Pairing, i: int) -> Seq<EditOp> {
    match p.fwd[i] {
        None => seq![EditOp::Delete { node: i as usize }],
        Some(j) => {
            let upd = if t1.content(i) != t2.content(j as int) {
                seq![EditOp::Update { node: i as usize, source: j }]
            } else {
                Seq::empty()
            };
            let mov = if moved(t1, t2, p, i, j as int) {
                seq![
                    EditOp::Move {
                        node: i as usize,
                        parent: t2.nodes[j as int].parent,
                        position: t2.rank(j as int) as usize,
                    },
                ]
            } else {
                Seq::empty()
            };
            upd + mov
        },
    }
}

/// The operations of the source nodes below `k`, in document order.
pub open spec fn source_script(t1: SnapshotView, t2: SnapshotView, p: Pairing, k: int) -> Seq<EditOp>
    decreases k,
{
    if k <= 0 {
        Seq::empty()
    } else {
        source_script(t1, t2, p, k - 1) + source_ops(t1, t2, p, k - 1)
    }
}

/// An `Insert` for target node `j` where it has no counterpart.
pub open spec fn target_ops(t2: SnapshotView, p: Pairing, j: int) -> Seq<EditOp> {
    match p.bwd[j] {
        None => seq![
            EditOp::Insert {
                parent: t2.nodes[j].parent,
                position: t2.rank(j) as usize,
                node: j as usize,
            },
        ],
        Some(_) => Seq::empty(),
    }
}

/// The inserts of the target nodes below `k`, in document order.
pub open spec fn target_script(t2: SnapshotView, p: Pairing, k: int) -> Seq<EditOp>
    decreases k,
{
    if k <= 0 {
        Seq::empty()
    } else {
        target_script(t2, p, k - 1) + target_ops(t2, p, k - 1)
    }
}

/// The edit script that a pairing implies: what becomes of each source node,
/// in document order, then the inserts, in document order of the target.
pub open spec fn script_of(t1: SnapshotView, t2: SnapshotView, p: Pairing) -> Seq<EditOp> {
    source_script(t1, t2, p, t1.len()) + target_script(t2, p, t2.len())
}

/// The edit script from `t1` to `t2`.
pub open spec fn edit_script(t1: SnapshotView, t2: SnapshotView, cfg: DiffConfig) -> Seq<EditOp> {
    script_of(t1, t2, matching(t1, t2, cfg))
}

/// A mapping between the nodes of two snapshots.
#[derive(Clone, Debug, PartialEq, Eq)]
pub struct Mapping {
    fwd: Vec<Option<usize>>,
    bwd: Vec<Option<usize>>,
}

impl View for Mapping {
    type V = Pairing;

    closed spec fn view(&self) -> Pairing {
        Pairing { fwd: self.fwd@, bwd: self.bwd@ }
    }
}

/// Binding two free runs keeps a pairing one-to-one.
pub proof fn lemma_bind_wf(p: Pairing, i: int, j: int, s: int, n1: int, n2: int)
    requires
        p.wf(n1, n2),
        0 <= i,
        0 <= j,
        0 <= s,
        i + s <= n1,
        j + s <= n2,
        n1 <= usize::MAX,
        n2 <= usize::MAX,
        free(p.fwd, i, s),
        free(p.bwd, j, s),
    ensures
        p.bind(i, j, s).wf(n1, n2),
{
    let q = p.bind(i, j, s);
    assert forall|a: int| 0 <= a < n1 implies match #[trigger] q.fwd[a] {
        Some(b) => b < n2 && q.bwd[b as int] == Some(a as usize),
        None => true,
    } by {
        if i <= a < i + s {
        } else {
            match p.fwd[a] {
                Some(b) => {
                    assert(p.bwd[b as int] == Some(a as usize));
                },
                None => {},
            }
        }
    }
    assert forall|b: int| 0 <= b < n2 implies match #[trigger] q.bwd[b] {
        Some(a) => a < n1 && q.fwd[a as int] == Some(b as usize),
        None => true,
    } by {
        if j <= b < j + s {
        } else {
            match p.bwd[b] {
                Some(a) => {
                    assert(p.fwd[a as int] == Some(b as usize));
                },
                None => {},
            }
        }
    }
}

impl Mapping {
    /// The mapping in which no node has a counterpart.
    pub fn empty(n1: usize, n2: usize) -> (m: Mapping)
        ensures
            m@ == Pairing::empty(n1 as int, n2 as int),
            m@.wf(n1 as int, n2 as int),
    {
        let mut fwd: Vec<Option<usize>> = Vec::new();
        let mut k: usize = 0;
        while k < n1
            invariant
                k <= n1,
                fwd@.len() == k,
                forall|x: int| 0 <= x < k ==> fwd@[x] == None::<usize>,
            decreases n1 - k,
        {
            fwd.push(None);
            k += 1;
        }
        let mut bwd: Vec<Option<usize>> = Vec::new();
        let mut k: usize = 0;
        while k < n2
            invariant
                k <= n2,
                bwd@.len() == k,
                forall|x: int| 0 <= x < k ==> bwd@[x] == None::<usize>,
            decreases n2 - k,
        {
            bwd.push(None);
            k += 1;
        }
        let m = Mapping { fwd, bwd };
        assert(m@.fwd =~= Pairing::empty(n1 as int, n2 as int).fwd);
        assert(m@.bwd =~= Pairing::empty(n1 as int, n2 as int).bwd);
        m
    }

    /// The counterpart of source node `i`.
    pub fn forward(&self, i: usize) -> (r: Option<usize>)
        requires
            i < self@.fwd.len(),
        ensures
            r == self@.fwd[i as int],
    {
        self.fwd[i]
    }

    /// The counterpart of target node `j`.
    pub fn backward(&self, j: usize) -> (r: Option<usize>)
        requires
            j < self@.bwd.len(),
        ensures
            r == self@.bwd[j as int],
    {
        self.bwd[j]
    }

    /// Pairs the run of `s` nodes at `i` with the run at `j`.
    fn bind(&mut self, i: usize, j: usize, s: usize)
        requires
            i + s <= old(self)@.fwd.len(),
            j + s <= old(self)@.bwd.len(),
        ensures
            final(self)@ == old(self)@.bind(i as int, j as int, s as int),
    {
        let ghost p = self@;
        let n1 = self.fwd.len();
        let n2 = self.bwd.len();
        proof {
            assert(p.bind(i as int, j as int, 0).fwd =~= p.fwd);
            assert(p.bind(i as int, j as int, 0).bwd =~= p.bwd);
        }
        let mut k: usize = 0;
        while k < s
            invariant
                k <= s,
                n1 == p.fwd.len(),
                n2 == p.bwd.len(),
                i + s <= p.fwd.len(),
                j + s <= p.bwd.len(),
                self@.fwd.len() == p.fwd.len(),
                self@.bwd.len() == p.bwd.len(),
                self@ == p.bind(i as int, j as int, k as int),
            decreases s - k,
        {
            self.fwd.set(i + k, Some(j + k));
            self.bwd.set(j + k, Some(i + k));
            k += 1;
            assert(self@.fwd =~= p.bind(i as int, j as int, k as int).fwd);
            assert(self@.bwd =~= p.bind(i as int, j as int, k as int).bwd);
        }
    }
}

fn is_free(m: &Vec<Option<usize>>, start: usize, len: usize) -> (r: bool)
    requires
        start + len <= m@.len(),
    ensures
        r == free(m@, start as int, len as int),
{
    let n = m.len();
    let mut k: usize = 0;
    while k < len
        invariant
            k <= len,
            n == m@.len(),
            start + len <= m@.len(),
            free(m@, start as int, k as int),
        decreases len - k,
    {
        if m[start + k].is_some() {
            assert(!m@[start + k].is_none());
            return false;
        }
        k += 1;
    }
    true
}


fn find_twin(t1: &Snapshot, t2: &Snapshot, m: &Mapping, i: usize) -> (r: Option<usize>)
    requires
        t1@.wf(),
        t2@.wf(),
        m@.wf(t1@.len(), t2@.len()),
        i < t1@.len(),
    ensures
        match r {
            Some(j) => j < t2@.len() && first_twin(t1@, t2@, m@, i as int, 0) == Some(j as int)
                && is_twin(t1@, t2@, m@, i as int, j as int),
            None => first_twin(t1@, t2@, m@, i as int, 0).is_none(),
        },
{
    let a = t1.node(i);
    let n2 = t2.len();
    let mut j: usize = 0;
    while j < n2
        invariant
            j <= n2,
            n2 == t2@.len(),
            a == t1@.nodes[i as int],
            t2@.wf(),
            m@.bwd.len() == n2,
            first_twin(t1@, t2@, m@, i as int, 0) == first_twin(t1@, t2@, m@, i as int, j as int),
        decreases n2 - j,
    {
        let b = t2.node(j);
        assert(t2@.node_ok(j as int));
        if b.size == a.size && b.hash == a.hash && b.kind == a.kind && is_free(&m.bwd, j, b.size) {
            return Some(j);
        }
        j += 1;
    }
    None
}

fn anchor_at(t1: &Snapshot, t2: &Snapshot, m: &mut Mapping, s: usize, i: usize)
    requires
        t1@.wf(),
        t2@.wf(),
        old(m)@.wf(t1@.len(), t2@.len()),
        i < t1@.len(),
    ensures
        final(m)@ == anchor_node(t1@, t2@, old(m)@, s as int, i as int),
        final(m)@.wf(t1@.len(), t2@.len()),
{
    assert(t1@.node_ok(i as int));
    if t1.node(i).size == s && is_free(&m.fwd, i, s) {
        match find_twin(t1, t2, m, i) {
            Some(j) => {
                proof {
                    assert(t2@.node_ok(j as int));
                    lemma_bind_wf(m@, i as int, j as int, s as int, t1@.len(), t2@.len());
                }
                m.bind(i, j, s);
            },
            None => {},
        }
    }
}

fn anchor_pass(t1: &Snapshot, t2: &Snapshot, m: &mut Mapping, min: usize)
    requires
        t1@.wf(),
        t2@.wf(),
        old(m)@.wf(t1@.len(), t2@.len()),
    ensures
        final(m)@ == anchor_all(t1@, t2@, old(m)@, t1@.len(), min as int),
        final(m)@.wf(t1@.len(), t2@.len()),
{
    let n1 = t1.len();
    let mut s: usize = n1;
    while s >= 1 && s >= min
        invariant
            s <= n1,
            n1 == t1@.len(),
            t1@.wf(),
            t2@.wf(),
            m@.wf(t1@.len(), t2@.len()),
            anchor_all(t1@, t2@, m@, s as int, min as int) == anchor_all(
                t1@,
                t2@,
                old(m)@,
                t1@.len(),
                min as int,
            ),
        decreases s,
    {
        let ghost row = m@;
        let mut i: usize = 0;
        while i < n1
            invariant
                i <= n1,
                n1 == t1@.len(),
                t1@.wf(),
                t2@.wf(),
                m@.wf(t1@.len(), t2@.len()),
                m@ == anchor_row(t1@, t2@, row, s as int, i as int),
            decreases n1 - i,
        {
            anchor_at(t1, t2, m, s, i);
            i += 1;
        }
        s -= 1;
    }
}

fn product(a: u64, b: u64) -> (r: u128)
    ensures
        r == a * b,
{
    assert(a * b <= 0xFFFF_FFFF_FFFF_FFFF * 0xFFFF_FFFF_FFFF_FFFF) by (nonlinear_arith)
        requires
            0 <= a <= 0xFFFF_FFFF_FFFF_FFFF,
            0 <= b <= 0xFFFF_FFFF_FFFF_FFFF,
    ;
    (a as u128) * (b as u128)
}

fn gap(i: usize, j: usize) -> (r: usize)
    ensures
        r == distance(i as int, j as int),
{
    if i <= j {
        j - i
    } else {
        i - j
    }
}

fn count_shared(t1: &Snapshot, t2: &Snapshot, m: &Mapping, i: usize, j: usize) -> (r: usize)
    requires
        t1@.wf(),
        t2@.wf(),
        m@.wf(t1@.len(), t2@.len()),
        i < t1@.len(),
        j < t2@.len(),
    ensures
        r == shared(t1@, t2@, m@, i as int, j as int),
        r <= t1@.nodes[i as int].size - 1,
{
    assert(t1@.node_ok(i as int));
    assert(t2@.node_ok(j as int));
    let width = t1.node(i).size - 1;
    let span = t2.node(j).size;
    let mut count: usize = 0;
    let mut k: usize = 0;
    while k < width
        invariant
            k <= width,
            i + width < t1@.len(),
            t1@.len() <= MAX_NODES,
            m@.fwd.len() == t1@.len(),
            j + span <= t2@.len(),
            span == t2@.nodes[j as int].size,
            count == shared_upto(t2@, m@, i as int, j as int, k as int),
            count <= k,
        decreases width - k,
    {
        k += 1;
        match m.forward(i + k) {
            Some(e) => {
                if j < e && e - j < span {
                    count += 1;
                }
            },
            None => {},
        }
    }
    count
}

fn find_partner(t1: &Snapshot, t2: &Snapshot, m: &Mapping, cfg: DiffConfig, i: usize) -> (r: Option<usize>)
    requires
        t1@.wf(),
        t2@.wf(),
        m@.wf(t1@.len(), t2@.len()),
        i < t1@.len(),
    ensures
        match r {
            Some(j) => j < t2@.len() && m@.bwd[j as int].is_none() && best_partner(
                t1@,
                t2@,
                m@,
                cfg,
                i as int,
                t2@.len(),
            ) == Some(j as int),
            None => best_partner(t1@, t2@, m@, cfg, i as int, t2@.len()).is_none(),
        },
{
    assert(t1@.node_ok(i as int));
    let a = t1.node(i);
    let n2 = t2.len();
    let mut best: Option<usize> = None;
    let mut best_shared: u64 = 0;
    let mut best_all: u64 = 0;
    let mut j: usize = 0;
    while j < n2
        invariant
            j <= n2,
            n2 == t2@.len(),
            t1@.wf(),
            t2@.wf(),
            m@.wf(t1@.len(), t2@.len()),
            i < t1@.len(),
            a == t1@.nodes[i as int],
            match best {
                Some(b) => b < j && m@.bwd[b as int].is_none() && best_shared == shared(
                    t1@,
                    t2@,
                    m@,
                    i as int,
                    b as int,
                ) && best_all == descendants(t1@, t2@, i as int, b as int) && best_partner(
                    t1@,
                    t2@,
                    m@,
                    cfg,
                    i as int,
                    j as int,
                ) == Some(b as int),
                None => best_partner(t1@, t2@, m@, cfg, i as int, j as int).is_none(),
            },
        decreases n2 - j,
    {
        let b = t2.node(j);
        assert(t1@.node_ok(i as int));
        assert(t2@.node_ok(j as int));
        if m.backward(j).is_none() && b.size > 1 && b.kind == a.kind {
            let common = count_shared(t1, t2, m, i, j) as u64;
            let all = (a.size - 1) as u64 + (b.size - 1) as u64;
            assert(2 * common * cfg.sim_den == (2 * common) * cfg.sim_den) by (nonlinear_arith);
            if product(2 * common, cfg.sim_den) > product(cfg.sim_num, all) {
                let wins = match best {
                    Some(b) => {
                        let mine = product(common, best_all);
                        let other = product(best_shared, all);
                        mine > other || (mine == other && gap(i, j) < gap(i, b))
                    },
                    None => true,
                };
                if wins {
                    best = Some(j);
                    best_shared = common;
                    best_all = all;
                }
            }
        }
        j += 1;
    }
    best
}

fn lift_pass(t1: &Snapshot, t2: &Snapshot, m: &mut Mapping, cfg: DiffConfig)
    requires
        t1@.wf(),
        t2@.wf(),
        old(m)@.wf(t1@.len(), t2@.len()),
    ensures
        final(m)@ == lift_from(t1@, t2@, old(m)@, cfg, 0),
        final(m)@.wf(t1@.len(), t2@.len()),
{
    let n1 = t1.len();
    let mut k: usize = n1;
    while k > 0
        invariant
            k <= n1,
            n1 == t1@.len(),
            t1@.wf(),
            t2@.wf(),
            m@.wf(t1@.len(), t2@.len()),
            m@ == lift_from(t1@, t2@, old(m)@, cfg, k as int),
        decreases k,
    {
        k -= 1;
        if m.forward(k).is_none() && t1.node(k).size > 1 {
            match find_partner(t1, t2, m, cfg, k) {
                Some(j) => {
                    proof {
                        lemma_bind_wf(m@, k as int, j as int, 1, t1@.len(), t2@.len());
                    }
                    m.bind(k, j, 1);
                },
                None => {},
            }
        }
    }
}

fn find_mate(t1: &Snapshot, t2: &Snapshot, m: &Mapping, i: usize) -> (r: Option<usize>)
    requires
        t1@.wf(),
        t2@.wf(),
        m@.wf(t1@.len(), t2@.len()),
        i < t1@.len(),
    ensures
        match r {
            Some(j) => j < t2@.len() && first_mate(t1@, t2@, m@, i as int, 0) == Some(j as int)
                && m@.bwd[j as int].is_none(),
            None => first_mate(t1@, t2@, m@, i as int, 0).is_none(),
        },
{
    assert(t1@.node_ok(i as int));
    let a = t1.node(i);
    let target = if i == 0 {
        None
    } else {
        m.forward(a.parent)
    };
    let n2 = t2.len();
    let mut j: usize = 0;
    while j < n2
        invariant
            j <= n2,
            n2 == t2@.len(),
            a == t1@.nodes[i as int],
            i != 0 ==> target == m@.fwd[a.parent as int],
            m@.bwd.len() == n2,
            first_mate(t1@, t2@, m@, i as int, 0) == first_mate(t1@, t2@, m@, i as int, j as int),
        decreases n2 - j,
    {
        let b = t2.node(j);
        if m.backward(j).is_none() && b.kind == a.kind {
            let fits = if i == 0 {
                j == 0
            } else {
                match target {
                    Some(q) => j != 0 && q == b.parent,
                    None => false,
                }
            };
            if fits {
                return Some(j);
            }
        }
        j += 1;
    }
    None
}

fn align_pass(t1: &Snapshot, t2: &Snapshot, m: &mut Mapping)
    requires
        t1@.wf(),
        t2@.wf(),
        old(m)@.wf(t1@.len(), t2@.len()),
    ensures
        final(m)@ == align_upto(t1@, t2@, old(m)@, t1@.len()),
        final(m)@.wf(t1@.len(), t2@.len()),
{
    let n1 = t1.len();
    let mut i: usize = 0;
    while i < n1
        invariant
            i <= n1,
            n1 == t1@.len(),
            t1@.wf(),
            t2@.wf(),
            m@.wf(t1@.len(), t2@.len()),
            m@ == align_upto(t1@, t2@, old(m)@, i as int),
        decreases n1 - i,
    {
        if m.forward(i).is_none() {
            match find_mate(t1, t2, m, i) {
                Some(j) => {
                    proof {
                        lemma_bind_wf(m@, i as int, j as int, 1, t1@.len(), t2@.len());
                    }
                    m.bind(i, j, 1);
                },
                None => {},
            }
        }
        i += 1;
    }
}

/// The similarity of source node `i` and its counterpart under a pairing,
/// as a fraction: twice the descendants that the two share over all their
/// descendants; one for a pair of leaves.
pub open spec fn similarity_of(t1: SnapshotView, t2: SnapshotView, p: Pairing, i: int) -> Option<
    (int, int),
> {
    match p.fwd[i] {
        None => None,
        Some(j) => if descendants(t1, t2, i, j as int) == 0 {
            Some((1, 1))
        } else {
            Some((2 * shared(t1, t2, p, i, j as int), descendants(t1, t2, i, j as int)))
        },
    }
}

/// Computes the similarity score of the pair that source node `i` belongs
/// to, as numerator and denominator; none where `i` has no counterpart.
pub fn similarity(t1: &Snapshot, t2: &Snapshot, m: &Mapping, i: usize) -> (r: Option<(u64, u64)>)
    requires
        t1@.wf(),
        t2@.wf(),
        m@.wf(t1@.len(), t2@.len()),
        i < t1@.len(),
    ensures
        match (r, similarity_of(t1@, t2@, m@, i as int)) {
            (Some((n, d)), Some((sn, sd))) => n == sn && d == sd,
            (None, None) => true,
            _ => false,
        },
{
    match m.forward(i) {
        None => None,
        Some(j) => {
            assert(t1@.node_ok(i as int));
            assert(t2@.node_ok(j as int));
            let all = (t1.node(i).size - 1) as u64 + (t2.node(j).size - 1) as u64;
            if all == 0 {
                Some((1, 1))
            } else {
                let common = count_shared(t1, t2, m, i, j) as u64;
                Some((2 * common, all))
            }
        },
    }
}

/// Computes the mapping between two snapshots.
pub fn match_trees(t1: &Snapshot, t2: &Snapshot, cfg: DiffConfig) -> (m: Mapping)
    requires
        t1@.wf(),
        t2@.wf(),
    ensures
        m@ == matching(t1@, t2@, cfg),
        m@.wf(t1@.len(), t2@.len()),
{
    let mut m = Mapping::empty(t1.len(), t2.len());
    anchor_pass(t1, t2, &mut m, cfg.min_size);
    lift_pass(t1, t2, &mut m, cfg);
    align_pass(t1, t2, &mut m);
    m
}

fn count_kin(
    t1: &Snapshot,
    t2: &Snapshot,
    map: &Vec<Option<usize>>,
    p1: usize,
    p2: usize,
    upto: usize,
) -> (r: usize)
    requires
        upto <= t1@.len(),
        map@.len() == t1@.len(),
        forall|k: int|
            0 <= k < map@.len() ==> match #[trigger] map@[k] {
                Some(c) => c < t2@.len(),
                None => true,
            },
    ensures
        r == kin_before(t1@, t2@, map@, p1 as int, p2 as int, upto as int),
{
    let mut count: usize = 0;
    let mut k: usize = 1;
    if upto <= 1 {
        return 0;
    }
    while k < upto
        invariant
            1 <= k <= upto,
            upto <= t1@.len(),
            map@.len() == t1@.len(),
            forall|x: int|
                0 <= x < map@.len() ==> match #[trigger] map@[x] {
                    Some(c) => c < t2@.len(),
                    None => true,
                },
            count == kin_before(t1@, t2@, map@, p1 as int, p2 as int, k as int),
            count < k,
        decreases upto - k,
    {
        if t1.node(k).parent == p1 {
            match map[k] {
                Some(c) => {
                    assert(match map@[k as int] {
                        Some(c) => c < t2@.len(),
                        None => true,
                    });
                    if c != 0 && t2.node(c).parent == p2 {
                        count += 1;
                    }
                },
                None => {},
            }
        }
        k += 1;
    }
    count
}

/// Writes out the edit script that a mapping implies.
pub fn script_from(t1: &Snapshot, t2: &Snapshot, m: &Mapping) -> (r: Vec<EditOp>)
    requires
        t1@.wf(),
        t2@.wf(),
        m@.wf(t1@.len(), t2@.len()),
    ensures
        r@ == script_of(t1@, t2@, m@),
{
    let mut out: Vec<EditOp> = Vec::new();
    let n1 = t1.len();
    let n2 = t2.len();
    let mut i: usize = 0;
    while i < n1
        invariant
            i <= n1,
            n1 == t1@.len(),
            n2 == t2@.len(),
            t1@.wf(),
            t2@.wf(),
            m@.wf(t1@.len(), t2@.len()),
            out@ == source_script(t1@, t2@, m@, i as int),
        decreases n1 - i,
    {
        let ghost before = out@;
        assert(t1@.node_ok(i as int));
        match m.forward(i) {
            None => {
                out.push(EditOp::Delete { node: i });
            },
            Some(j) => {
                if !t1.same_content(i, t2, j) {
                    out.push(EditOp::Update { node: i, source: j });
                }
                let b = t2.node(j);
                let differs = if i == 0 {
                    j != 0
                } else if j == 0 {
                    true
                } else {
                    let elsewhere = match m.forward(t1.node(i).parent) {
                        Some(q) => q != b.parent,
                        None => true,
                    };
                    let up = t1.node(i).parent;
                    elsewhere || count_kin(t1, t2, &m.fwd, up, b.parent, i) != count_kin(
                        t2,
                        t1,
                        &m.bwd,
                        b.parent,
                        up,
                        j,
                    )
                };
                if differs {
                    let position = t2.rank(j);
                    out.push(EditOp::Move { node: i, parent: b.parent, position });
                }
            },
        }
        assert(out@ =~= before + source_ops(t1@, t2@, m@, i as int));
        i += 1;
    }
    let ghost head = out@;
    let mut j: usize = 0;
    assert(out@ =~= head + target_script(t2@, m@, 0));
    while j < n2
        invariant
            j <= n2,
            n2 == t2@.len(),
            t2@.wf(),
            m@.wf(t1@.len(), t2@.len()),
            out@ == head + target_script(t2@, m@, j as int),
        decreases n2 - j,
    {
        let ghost before = out@;
        if m.backward(j).is_none() {
            let position = t2.rank(j);
            out.push(EditOp::Insert { parent: t2.node(j).parent, position, node: j });
        }
        assert(out@ =~= before + target_ops(t2@, m@, j as int));
        j += 1;
        assert(out@ =~= head + target_script(t2@, m@, j as int));
    }
    out
}

/// Computes the edit script from `t1` to `t2`. The script is a function of
/// the two snapshots and the parameters alone.
pub fn diff(t1: &Snapshot, t2: &Snapshot, cfg: DiffConfig) -> (r: Vec<EditOp>)
    requires
        t1@.wf(),
        t2@.wf(),
    ensures
        r@ == edit_script(t1@, t2@, cfg),
        t1@ == t2@ ==> r@.len() == 0,
{
    proof {
        if t1@ == t2@ {
            lemma_diff_identity(t1@, cfg);
        }
    }
    let m = match_trees(t1, t2, cfg);
    script_from(t1, t2, &m)
}


proof fn lemma_identity_anchor_node(t: SnapshotView, s: int, i: int)
    requires
        t.wf(),
        0 <= i < t.len(),
    ensures
        anchor_node(t, t, Pairing::identity(t.len()), s, i) == Pairing::identity(t.len()),
{
    let id = Pairing::identity(t.len());
    assert(t.node_ok(i));
    if s >= 1 {
        assert(!id.fwd[i].is_none());
        assert(!free(id.fwd, i, s));
    }
}

proof fn lemma_identity_anchor_row(t: SnapshotView, s: int, k: int)
    requires
        t.wf(),
        0 <= k <= t.len(),
    ensures
        anchor_row(t, t, Pairing::identity(t.len()), s, k) == Pairing::identity(t.len()),
    decreases k,
{
    if k > 0 {
        lemma_identity_anchor_row(t, s, k - 1);
        lemma_identity_anchor_node(t, s, k - 1);
    }
}

proof fn lemma_identity_anchor_all(t: SnapshotView, s: int, min: int)
    requires
        t.wf(),
    ensures
        anchor_all(t, t, Pairing::identity(t.len()), s, min) == Pairing::identity(t.len()),
    decreases s,
{
    if !(s < 1 || s < min) {
        lemma_identity_anchor_row(t, s, t.len());
        lemma_identity_anchor_all(t, s - 1, min);
    }
}

proof fn lemma_whole_tree_row(t: SnapshotView, k: int)
    requires
        t.wf(),
        1 <= k <= t.len(),
    ensures
        anchor_row(t, t, Pairing::empty(t.len(), t.len()), t.len(), k) == Pairing::identity(
            t.len(),
        ),
    decreases k,
{
    let n = t.len();
    let none = Pairing::empty(n, n);
    let id = Pairing::identity(n);
    if k == 1 {
        assert(anchor_row(t, t, none, n, 0) == none);
        assert(t.node_ok(0));
        assert(free(none.fwd, 0, n));
        assert(free(none.bwd, 0, n));
        assert(is_twin(t, t, none, 0, 0));
        assert(first_twin(t, t, none, 0, 0) == Some(0int));
        assert(none.bind(0, 0, n).fwd =~= id.fwd);
        assert(none.bind(0, 0, n).bwd =~= id.bwd);
        assert(anchor_node(t, t, none, n, 0) == id);
    } else {
        lemma_whole_tree_row(t, k - 1);
        lemma_identity_anchor_node(t, n, k - 1);
    }
}

proof fn lemma_identity_align(t: SnapshotView, k: int)
    requires
        t.wf(),
        0 <= k <= t.len(),
    ensures
        align_upto(t, t, Pairing::identity(t.len()), k) == Pairing::identity(t.len()),
    decreases k,
{
    if k > 0 {
        lemma_identity_align(t, k - 1);
    }
}

proof fn lemma_identity_script(t: SnapshotView, k: int)
    requires
        t.wf(),
        0 <= k <= t.len(),
    ensures
        source_script(t, t, Pairing::identity(t.len()), k) == Seq::<EditOp>::empty(),
        target_script(t, Pairing::identity(t.len()), k) == Seq::<EditOp>::empty(),
    decreases k,
{
    let id = Pairing::identity(t.len());
    if k > 0 {
        lemma_identity_script(t, k - 1);
        assert(t.node_ok(k - 1));
        assert(id.fwd[k - 1] == Some((k - 1) as usize));
        assert(!moved(t, t, id, k - 1, k - 1));
        assert(source_ops(t, t, id, k - 1) =~= Seq::<EditOp>::empty());
        assert(target_ops(t, id, k - 1) =~= Seq::<EditOp>::empty());
        assert(source_script(t, t, id, k) =~= Seq::<EditOp>::empty());
        assert(target_script(t, id, k) =~= Seq::<EditOp>::empty());
    }
}

proof fn lemma_identity_lift(t: SnapshotView, cfg: DiffConfig, k: int)
    requires
        t.wf(),
        0 <= k <= t.len(),
    ensures
        lift_from(t, t, Pairing::identity(t.len()), cfg, k) == Pairing::identity(t.len()),
    decreases t.len() - k,
{
    if k < t.len() {
        lemma_identity_lift(t, cfg, k + 1);
    }
}

proof fn lemma_nothing_shared(t: SnapshotView, i: int, j: int, k: int)
    requires
        0 <= i,
        0 <= k,
        i + k < t.len(),
    ensures
        shared_upto(t, Pairing::empty(t.len(), t.len()), i, j, k) == 0,
    decreases k,
{
    if k > 0 {
        lemma_nothing_shared(t, i, j, k - 1);
    }
}

proof fn lemma_no_partner(t: SnapshotView, cfg: DiffConfig, i: int, k: int)
    requires
        t.wf(),
        0 <= i < t.len(),
        0 <= k <= t.len(),
    ensures
        best_partner(t, t, Pairing::empty(t.len(), t.len()), cfg, i, k).is_none(),
    decreases k,
{
    if k > 0 {
        lemma_no_partner(t, cfg, i, k - 1);
        assert(t.node_ok(i));
        assert(t.node_ok(k - 1));
        lemma_nothing_shared(t, i, k - 1, t.nodes[i].size - 1);
        let none = Pairing::empty(t.len(), t.len());
        assert(shared(t, t, none, i, k - 1) == 0);
        assert(cfg.sim_num * descendants(t, t, i, k - 1) >= 0) by (nonlinear_arith)
            requires
                cfg.sim_num >= 0,
                descendants(t, t, i, k - 1) >= 0,
        ;
        assert(2 * shared(t, t, none, i, k - 1) * cfg.sim_den == 0) by (nonlinear_arith)
            requires
                shared(t, t, none, i, k - 1) == 0,
        ;
        assert(!is_candidate(t, t, none, cfg, i, k - 1));
    }
}

proof fn lemma_lift_unpaired(t: SnapshotView, cfg: DiffConfig, k: int)
    requires
        t.wf(),
        0 <= k <= t.len(),
    ensures
        lift_from(t, t, Pairing::empty(t.len(), t.len()), cfg, k) == Pairing::empty(
            t.len(),
            t.len(),
        ),
    decreases t.len() - k,
{
    if k < t.len() {
        lemma_lift_unpaired(t, cfg, k + 1);
        lemma_no_partner(t, cfg, k, t.len());
    }
}

/// The pairing of the first `k` nodes of a snapshot of `n` nodes with
/// themselves.
pub open spec fn prefix_identity(n: int, k: int) -> Pairing {
    Pairing {
        fwd: Seq::new(
            n as nat,
            |i: int|
                if i < k {
                    Some(i as usize)
                } else {
                    None
                },
        ),
        bwd: Seq::new(
            n as nat,
            |i: int|
                if i < k {
                    Some(i as usize)
                } else {
                    None
                },
        ),
    }
}

proof fn lemma_own_mate(t: SnapshotView, i: int, from: int)
    requires
        t.wf(),
        0 <= from <= i < t.len(),
    ensures
        first_mate(t, t, prefix_identity(t.len(), i), i, from) == Some(i),
    decreases i - from,
{
    let p = prefix_identity(t.len(), i);
    if from < i {
        assert(p.bwd[from].is_some());
        lemma_own_mate(t, i, from + 1);
    } else {
        assert(t.node_ok(i));
        assert(is_mate(t, t, p, i, i));
    }
}

proof fn lemma_align_unpaired(t: SnapshotView, k: int)
    requires
        t.wf(),
        0 <= k <= t.len(),
    ensures
        align_upto(t, t, Pairing::empty(t.len(), t.len()), k) == prefix_identity(t.len(), k),
    decreases k,
{
    let n = t.len();
    if k > 0 {
        lemma_align_unpaired(t, k - 1);
        let p = prefix_identity(n, k - 1);
        lemma_own_mate(t, k - 1, 0);
        assert(p.bind(k - 1, k - 1, 1).fwd =~= prefix_identity(n, k).fwd);
        assert(p.bind(k - 1, k - 1, 1).bwd =~= prefix_identity(n, k).bwd);
    } else {
        assert(Pairing::empty(n, n).fwd =~= prefix_identity(n, 0).fwd);
        assert(Pairing::empty(n, n).bwd =~= prefix_identity(n, 0).bwd);
    }
}

/// Every snapshot is mapped to itself node by node.
pub proof fn lemma_matching_identity(t: SnapshotView, cfg: DiffConfig)
    requires
        t.wf(),
    ensures
        matching(t, t, cfg) == Pairing::identity(t.len()),
{
    let n = t.len();
    if cfg.min_size <= n {
        lemma_whole_tree_row(t, n);
        lemma_identity_anchor_all(t, n - 1, cfg.min_size as int);
        lemma_identity_lift(t, cfg, 0);
        lemma_identity_align(t, n);
    } else {
        lemma_lift_unpaired(t, cfg, 0);
        lemma_align_unpaired(t, n);
        assert(prefix_identity(n, n).fwd =~= Pairing::identity(n).fwd);
        assert(prefix_identity(n, n).bwd =~= Pairing::identity(n).bwd);
    }
}

/// The edit script from a snapshot to itself is empty.
pub proof fn lemma_diff_identity(t: SnapshotView, cfg: DiffConfig)
    requires
        t.wf(),
    ensures
        edit_script(t, t, cfg) == Seq::<EditOp>::empty(),
{
    lemma_matching_identity(t, cfg);
    lemma_identity_script(t, t.len());
    assert(edit_script(t, t, cfg) =~= Seq::<EditOp>::empty());
}

/// Two runs of the diff on the same snapshots and parameters give the same
/// script.
pub proof fn lemma_diff_deterministic(
    t1: SnapshotView,
    t2: SnapshotView,
    cfg: DiffConfig,
    first: Seq<EditOp>,
    second: Seq<EditOp>,
)
    requires
        first == edit_script(t1, t2, cfg),
        second == edit_script(t1, t2, cfg),
    ensures
        first == second,
{
}

/// Two snapshots have as many nodes, and each node has the parent and the
/// kind of the node at its place in the other.
pub open spec fn same_shape(t1: SnapshotView, t2: SnapshotView) -> bool {
    &&& t1.len() == t2.len()
    &&& forall|i: int|
        0 <= i < t1.len() ==> (#[trigger] t1.nodes[i]).parent == t2.nodes[i].parent
            && t1.nodes[i].kind == t2.nodes[i].kind
}

/// Two snapshots differ in the content of node `n` and of no other node.
pub open spec fn differ_at(t1: SnapshotView, t2: SnapshotView, n: int) -> bool {
    &&& 0 <= n < t1.len()
    &&& t1.content(n) != t2.content(n)
    &&& forall|i: int| 0 <= i < t1.len() && i != n ==> #[trigger] t1.content(i) == t2.content(i)
}

proof fn lemma_same_kin(t1: SnapshotView, t2: SnapshotView, p: int, upto: int)
    requires
        same_shape(t1, t2),
        0 <= upto <= t1.len(),
    ensures
        kin_before(t1, t2, Pairing::identity(t1.len()).fwd, p, p, upto) == kin_before(
            t2,
            t1,
            Pairing::identity(t1.len()).bwd,
            p,
            p,
            upto,
        ),
    decreases upto,
{
    if upto > 1 {
        lemma_same_kin(t1, t2, p, upto - 1);
        assert(t1.nodes[upto - 1].parent == t2.nodes[upto - 1].parent);
    }
}

proof fn lemma_one_update(t1: SnapshotView, t2: SnapshotView, n: int, k: int)
    requires
        t1.wf(),
        same_shape(t1, t2),
        differ_at(t1, t2, n),
        0 <= k <= t1.len(),
    ensures
        source_script(t1, t2, Pairing::identity(t1.len()), k) == if k <= n {
            Seq::<EditOp>::empty()
        } else {
            seq![EditOp::Update { node: n as usize, source: n as usize }]
        },
        target_script(t2, Pairing::identity(t1.len()), k) == Seq::<EditOp>::empty(),
    decreases k,
{
    let id = Pairing::identity(t1.len());
    if k > 0 {
        lemma_one_update(t1, t2, n, k - 1);
        let i = k - 1;
        assert(t1.node_ok(i));
        assert(id.fwd[i] == Some(i as usize));
        assert(t1.nodes[i].parent == t2.nodes[i].parent);
        if i != 0 {
            lemma_same_kin(t1, t2, t1.nodes[i].parent as int, i);
            assert(id.fwd[t1.nodes[i].parent as int] == Some(t2.nodes[i].parent));
        }
        assert(!moved(t1, t2, id, i, i));
        if i == n {
            assert(source_ops(t1, t2, id, i) =~= seq![
                EditOp::Update { node: n as usize, source: n as usize },
            ]);
        } else {
            assert(t1.content(i) == t2.content(i));
            assert(source_ops(t1, t2, id, i) =~= Seq::<EditOp>::empty());
        }
        assert(target_ops(t2, id, i) =~= Seq::<EditOp>::empty());
        assert(source_script(t1, t2, id, k) =~= if k <= n {
            Seq::<EditOp>::empty()
        } else {
            seq![EditOp::Update { node: n as usize, source: n as usize }]
        });
        assert(target_script(t2, id, k) =~= Seq::<EditOp>::empty());
    }
}

/// Between two snapshots of the same shape that are paired node by node
/// and differ in the content of one node only, the script is one update of
/// that node.
pub proof fn lemma_script_of_one_change(t1: SnapshotView, t2: SnapshotView, n: int)
    requires
        t1.wf(),
        same_shape(t1, t2),
        differ_at(t1, t2, n),
    ensures
        script_of(t1, t2, Pairing::identity(t1.len())) == seq![
            EditOp::Update { node: n as usize, source: n as usize },
        ],
{
    lemma_one_update(t1, t2, n, t1.len());
    assert(script_of(t1, t2, Pairing::identity(t1.len())) =~= seq![
        EditOp::Update { node: n as usize, source: n as usize },
    ]);
}

} // verus!
