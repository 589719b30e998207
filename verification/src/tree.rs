//! Snapshot snapshots.
//!
//! A snapshot is an arena of nodes in document order: a node stands before
//! all of its descendants, and its subtree is the run of `size` nodes that
//! starts at the node itself. Literal content lives in one shared buffer,
//! and a node names its slice of it.

use vstd::prelude::*;

verus! {

/// Most nodes that one snapshot holds.
pub const MAX_NODES: usize = 0xFFFF_FFFF;

/// One record of the arena. Its identity is its index.
#[derive(Clone, Copy, Debug, PartialEq, Eq, Structural)]
pub struct Node {
    /// Kind or tag of the node.
    pub kind: u32,
    /// Index of the parent; the root names itself.
    pub parent: usize,
    /// Number of nodes in the subtree, the node included.
    pub size: usize,
    /// Where the literal content starts in the shared buffer.
    pub text_start: usize,
    /// Length of the literal content; zero where the node has none.
    pub text_len: usize,
    /// Structural hash over kind, content and the hashed children.
    pub hash: u64,
}

/// An immutable, rooted, ordered tree for one version of one file.
#[derive(Clone, Debug, PartialEq, Eq)]
pub struct Snapshot {
    nodes: Vec<Node>,
    text: Vec<u8>,
}

/// What a snapshot holds, as mathematical values.
pub struct SnapshotView {
    pub nodes: Seq<Node>,
    pub text: Seq<u8>,
}

impl SnapshotView {
    /// Number of nodes.
    pub open spec fn len(self) -> int {
        self.nodes.len() as int
    }

    /// Literal content of node `i`.
    pub open spec fn content(self, i: int) -> Seq<u8> {
        self.text.subrange(
            self.nodes[i].text_start as int,
            self.nodes[i].text_start + self.nodes[i].text_len,
        )
    }

    /// What holds of every single node of a snapshot.
    pub open spec fn node_ok(self, i: int) -> bool {
        let n = self.nodes[i];
        &&& 1 <= n.size
        &&& i + n.size <= self.len()
        &&& n.text_start + n.text_len <= self.text.len()
        &&& if i == 0 {
            n.parent == 0 && n.size == self.len()
        } else {
            n.parent < i && i + n.size <= n.parent + self.nodes[n.parent as int].size
        }
    }

    /// Exactly one root, at index 0; every other node lies inside the
    /// subtree of its one parent, which stands before it.
    pub open spec fn wf(self) -> bool {
        &&& 1 <= self.len() <= MAX_NODES
        &&& forall|i: int| 0 <= i < self.len() ==> #[trigger] self.node_ok(i)
    }

    /// Number of nodes in `[1, k)` whose parent is `p`.
    pub open spec fn children_before(self, p: int, k: int) -> int
        decreases k,
    {
        if k <= 1 {
            0
        } else {
            self.children_before(p, k - 1) + if self.nodes[k - 1].parent == p {
                1int
            } else {
                0int
            }
        }
    }

    /// Position of node `i` among its siblings, from zero.
    pub open spec fn rank(self, i: int) -> int {
        self.children_before(self.nodes[i].parent as int, i)
    }

    /// Contents of the nodes in `[from, to)`, joined in document order.
    pub open spec fn range_text(self, from: int, to: int) -> Seq<u8>
        decreases to - from,
    {
        if to <= from {
            Seq::empty()
        } else {
            self.range_text(from, to - 1) + self.content(to - 1)
        }
    }

    /// Printed form of the subtree at `i`.
    pub open spec fn subtree_text(self, i: int) -> Seq<u8> {
        self.range_text(i, i + self.nodes[i].size)
    }
}

/// What a parser knows of a node: its kind, its parent and its literal
/// content. Size and hash follow from these.
#[derive(Clone, Copy, Debug, PartialEq, Eq, Structural)]
pub struct Shape {
    pub kind: u32,
    /// Index of the parent; the root names itself.
    pub parent: usize,
    pub text_start: usize,
    pub text_len: usize,
}

/// Where hashing starts.
pub const HASH_SEED: u64 = 0xcbf2_9ce4_8422_2325;

/// The multiplier of one hashing step.
pub const HASH_PRIME: u64 = 0x0000_0100_0000_01b3;

/// One hashing step: `x` is folded into `acc`.
pub open spec fn mix(acc: u64, x: u64) -> u64 {
    (acc ^ x).wrapping_mul(HASH_PRIME)
}

/// The first `k` bytes of `s` folded into `acc`, in order.
pub open spec fn mix_bytes(acc: u64, s: Seq<u8>, k: int) -> u64
    decreases k,
{
    if k <= 0 {
        acc
    } else {
        mix(mix_bytes(acc, s, k - 1), s[k - 1] as u64)
    }
}

/// The hash of a node without its children: its kind, then its content.
pub open spec fn seed_hash(sh: Shape, text: Seq<u8>) -> u64 {
    mix_bytes(
        mix(HASH_SEED, sh.kind as u64),
        text.subrange(sh.text_start as int, sh.text_start + sh.text_len),
        sh.text_len as int,
    )
}

/// Where the run of nodes that descend from `i` ends: the first node at or
/// after `j` whose parent stands before `i`, or the end of the arena.
pub open spec fn run_end(shape: Seq<Shape>, i: int, j: int) -> int
    decreases shape.len() - j,
{
    if j >= shape.len() || shape[j].parent < i {
        j
    } else {
        run_end(shape, i, j + 1)
    }
}

/// The hashes in `table` of the children of `i` among the nodes in
/// `[j, end)`, folded into `acc` in document order.
pub open spec fn fold_children(
    shape: Seq<Shape>,
    table: Seq<u64>,
    i: int,
    j: int,
    end: int,
    acc: u64,
) -> u64
    decreases end - j,
{
    if j >= end {
        acc
    } else {
        fold_children(
            shape,
            table,
            i,
            j + 1,
            end,
            if shape[j].parent == i {
                mix(acc, table[j])
            } else {
                acc
            },
        )
    }
}

/// The structural hashes of the nodes from `k` on; zero before `k`. The hash
/// of a node folds its kind, its content and the hashes of its children.
pub open spec fn hashes_from(shape: Seq<Shape>, text: Seq<u8>, k: int) -> Seq<u64>
    decreases shape.len() - k,
{
    if k >= shape.len() {
        Seq::new(shape.len(), |i: int| 0u64)
    } else {
        let t = hashes_from(shape, text, k + 1);
        t.update(
            k,
            fold_children(shape, t, k, k + 1, run_end(shape, k, k + 1), seed_hash(shape[k], text)),
        )
    }
}

/// The snapshot that shapes in document order stand for.
pub open spec fn shaped(shape: Seq<Shape>, text: Seq<u8>) -> SnapshotView {
    SnapshotView {
        nodes: Seq::new(
            shape.len(),
            |i: int|
                Node {
                    kind: shape[i].kind,
                    parent: shape[i].parent,
                    size: (run_end(shape, i, i + 1) - i) as usize,
                    text_start: shape[i].text_start,
                    text_len: shape[i].text_len,
                    hash: hashes_from(shape, text, 0)[i],
                },
        ),
        text,
    }
}

impl View for Snapshot {
    type V = SnapshotView;

    closed spec fn view(&self) -> SnapshotView {
        SnapshotView { nodes: self.nodes@, text: self.text@ }
    }
}

impl Snapshot {
    /// Makes a snapshot of `nodes`, given in document order, over `text`.
    /// Returns `None` exactly where they do not form one rooted tree.
    pub fn new(nodes: Vec<Node>, text: Vec<u8>) -> (r: Option<Snapshot>)
        ensures
            r.is_some() <==> (SnapshotView { nodes: nodes@, text: text@ }).wf(),
            r.is_some() ==> r.unwrap()@ == (SnapshotView { nodes: nodes@, text: text@ }),
    {
        let ghost v = SnapshotView { nodes: nodes@, text: text@ };
        let n = nodes.len();
        if n < 1 || n > MAX_NODES {
            return None;
        }
        let mut i: usize = 0;
        while i < n
            invariant
                i <= n,
                n == nodes@.len(),
                v == (SnapshotView { nodes: nodes@, text: text@ }),
                forall|k: int| 0 <= k < i ==> #[trigger] v.node_ok(k),
            decreases n - i,
        {
            let nd = nodes[i];
            let mut ok = nd.size >= 1 && nd.size <= n - i && nd.text_start <= text.len()
                && nd.text_len <= text.len() - nd.text_start;
            if ok {
                if i == 0 {
                    ok = nd.parent == 0 && nd.size == n;
                } else {
                    ok = nd.parent < i;
                    if ok {
                        let p = nodes[nd.parent];
                        ok = p.size >= i - nd.parent && nd.size <= p.size - (i - nd.parent);
                    }
                }
            }
            if !ok {
                assert(!v.node_ok(i as int));
                return None;
            }
            assert(v.node_ok(i as int));
            i += 1;
        }
        Some(Snapshot { nodes, text })
    }

    /// Number of nodes.
    pub fn len(&self) -> (r: usize)
        ensures
            r == self@.len(),
    {
        self.nodes.len()
    }

    /// The record of node `i`.
    pub fn node(&self, i: usize) -> (r: Node)
        requires
            i < self@.len(),
        ensures
            r == self@.nodes[i as int],
    {
        self.nodes[i]
    }

    /// Literal content of node `i`.
    pub fn content(&self, i: usize) -> (r: Vec<u8>)
        requires
            self@.wf(),
            i < self@.len(),
        ensures
            r@ == self@.content(i as int),
    {
        let mut out: Vec<u8> = Vec::new();
        self.append_content(i, &mut out);
        assert(out@ =~= self@.content(i as int));
        out
    }

    /// Appends the literal content of node `i` to `out`.
    pub fn append_content(&self, i: usize, out: &mut Vec<u8>)
        requires
            self@.wf(),
            i < self@.len(),
        ensures
            final(out)@ == old(out)@ + self@.content(i as int),
    {
        assert(self@.node_ok(i as int));
        let nd = self.nodes[i];
        let total = self.text.len();
        let mut k: usize = 0;
        while k < nd.text_len
            invariant
                k <= nd.text_len,
                total == self.text@.len(),
                nd.text_start + nd.text_len <= self.text@.len(),
                out@ == old(out)@ + self.text@.subrange(
                    nd.text_start as int,
                    nd.text_start + k,
                ),
            decreases nd.text_len - k,
        {
            out.push(self.text[nd.text_start + k]);
            k += 1;
            assert(out@ =~= old(out)@ + self.text@.subrange(
                nd.text_start as int,
                nd.text_start + k,
            ));
        }
    }

    /// Position of node `i` among its siblings, from zero.
    pub fn rank(&self, i: usize) -> (r: usize)
        requires
            self@.wf(),
            i < self@.len(),
        ensures
            r == self@.rank(i as int),
    {
        if i == 0 {
            return 0;
        }
        let p = self.nodes[i].parent;
        let mut count: usize = 0;
        let mut k: usize = 1;
        while k < i
            invariant
                1 <= k <= i,
                i < self.nodes@.len(),
                p == self@.nodes[i as int].parent,
                count == self@.children_before(p as int, k as int),
                count < k,
            decreases i - k,
        {
            if self.nodes[k].parent == p {
                count += 1;
            }
            k += 1;
        }
        count
    }

    /// Appends the contents of the nodes in `[from, to)`.
    pub fn append_range_text(&self, from: usize, to: usize, out: &mut Vec<u8>)
        requires
            self@.wf(),
            from <= to <= self@.len(),
        ensures
            final(out)@ == old(out)@ + self@.range_text(from as int, to as int),
    {
        let mut k: usize = from;
        assert(out@ =~= old(out)@ + self@.range_text(from as int, k as int));
        while k < to
            invariant
                self@.wf(),
                from <= k <= to,
                to <= self@.len(),
                out@ == old(out)@ + self@.range_text(from as int, k as int),
            decreases to - k,
        {
            self.append_content(k, out);
            k += 1;
            assert(out@ =~= old(out)@ + self@.range_text(from as int, k as int));
        }
    }

    /// Printed form of the subtree at `i`: the contents of its nodes in
    /// document order. Equal subtrees print equal text.
    pub fn subtree_text(&self, i: usize) -> (r: Vec<u8>)
        requires
            self@.wf(),
            i < self@.len(),
        ensures
            r@ == self@.subtree_text(i as int),
    {
        assert(self@.node_ok(i as int));
        let mut out: Vec<u8> = Vec::new();
        self.append_range_text(i, i + self.nodes[i].size, &mut out);
        assert(out@ =~= self@.subtree_text(i as int));
        out
    }

    /// Whether node `i` here and node `j` of `other` hold the same content.
    pub fn same_content(&self, i: usize, other: &Snapshot, j: usize) -> (r: bool)
        requires
            self@.wf(),
            other@.wf(),
            i < self@.len(),
            j < other@.len(),
        ensures
            r == (self@.content(i as int) == other@.content(j as int)),
    {
        assert(self@.node_ok(i as int));
        assert(other@.node_ok(j as int));
        let a = self.nodes[i];
        let b = other.nodes[j];
        if a.text_len != b.text_len {
            assert(self@.content(i as int).len() != other@.content(j as int).len());
            return false;
        }
        let total_a = self.text.len();
        let total_b = other.text.len();
        let mut k: usize = 0;
        while k < a.text_len
            invariant
                k <= a.text_len,
                a.text_len == b.text_len,
                i < self@.len(),
                j < other@.len(),
                total_a == self.text@.len(),
                total_b == other.text@.len(),
                a == self@.nodes[i as int],
                b == other@.nodes[j as int],
                a.text_start + a.text_len <= self.text@.len(),
                b.text_start + b.text_len <= other.text@.len(),
                forall|m: int|
                    0 <= m < k ==> self@.content(i as int)[m] == other@.content(j as int)[m],
            decreases a.text_len - k,
        {
            if self.text[a.text_start + k] != other.text[b.text_start + k] {
                assert(self@.content(i as int)[k as int] != other@.content(j as int)[k as int]);
                return false;
            }
            k += 1;
        }
        assert(self@.content(i as int) =~= other@.content(j as int));
        true
    }
}


fn mix_step(acc: u64, x: u64) -> (r: u64)
    ensures
        r == mix(acc, x),
{
    (acc ^ x).wrapping_mul(HASH_PRIME)
}

fn find_run_end(shape: &Vec<Shape>, i: usize) -> (r: usize)
    requires
        i < shape@.len(),
    ensures
        r == run_end(shape@, i as int, i + 1),
        i < r <= shape@.len(),
{
    let n = shape.len();
    let mut j: usize = i + 1;
    while j < n && shape[j].parent >= i
        invariant
            i < j <= n,
            n == shape@.len(),
            run_end(shape@, i as int, i + 1) == run_end(shape@, i as int, j as int),
        decreases n - j,
    {
        j += 1;
    }
    j
}

fn hash_seed(sh: Shape, text: &Vec<u8>) -> (r: u64)
    requires
        sh.text_start + sh.text_len <= text@.len(),
    ensures
        r == seed_hash(sh, text@),
{
    let mut acc = mix_step(HASH_SEED, sh.kind as u64);
    let total = text.len();
    let ghost content = text@.subrange(sh.text_start as int, sh.text_start + sh.text_len);
    let mut k: usize = 0;
    while k < sh.text_len
        invariant
            k <= sh.text_len,
            total == text@.len(),
            sh.text_start + sh.text_len <= text@.len(),
            content == text@.subrange(sh.text_start as int, sh.text_start + sh.text_len),
            acc == mix_bytes(mix(HASH_SEED, sh.kind as u64), content, k as int),
        decreases sh.text_len - k,
    {
        acc = mix_step(acc, text[sh.text_start + k] as u64);
        k += 1;
    }
    acc
}

impl Snapshot {
    /// Makes a snapshot of what a parser hands over: the shapes of the
    /// nodes in document order, over `text`. Sizes and structural hashes
    /// are computed. Returns `None` exactly where the shapes do not form
    /// one rooted tree.
    pub fn from_shape(shape: Vec<Shape>, text: Vec<u8>) -> (r: Option<Snapshot>)
        ensures
            r.is_some() <==> shaped(shape@, text@).wf(),
            r.is_some() ==> r.unwrap()@ == shaped(shape@, text@),
    {
        let n = shape.len();
        let ghost want = shaped(shape@, text@);
        let mut i: usize = 0;
        while i < n
            invariant
                i <= n,
                n == shape@.len(),
                want == shaped(shape@, text@),
                forall|k: int|
                    0 <= k < i ==> (#[trigger] shape@[k]).text_start + shape@[k].text_len
                        <= text@.len(),
            decreases n - i,
        {
            let sh = shape[i];
            if sh.text_start > text.len() || sh.text_len > text.len() - sh.text_start {
                assert(!want.node_ok(i as int));
                return None;
            }
            i += 1;
        }
        let mut table: Vec<u64> = Vec::new();
        let mut i: usize = 0;
        while i < n
            invariant
                i <= n,
                table@.len() == i,
                forall|k: int| 0 <= k < i ==> table@[k] == 0u64,
            decreases n - i,
        {
            table.push(0u64);
            i += 1;
        }
        assert(table@ =~= hashes_from(shape@, text@, n as int));
        let mut sizes: Vec<usize> = Vec::new();
        let mut i: usize = 0;
        while i < n
            invariant
                i <= n,
                n == shape@.len(),
                sizes@.len() == i,
                forall|k: int|
                    0 <= k < i ==> (#[trigger] sizes@[k]) == run_end(shape@, k, k + 1) - k && 1
                        <= sizes@[k] <= n - k,
            decreases n - i,
        {
            let end = find_run_end(&shape, i);
            sizes.push(end - i);
            i += 1;
        }
        let mut k: usize = n;
        while k > 0
            invariant
                k <= n,
                n == shape@.len(),
                table@.len() == n,
                sizes@.len() == n,
                forall|m: int|
                    0 <= m < n ==> (#[trigger] sizes@[m]) == run_end(shape@, m, m + 1) - m && 1
                        <= sizes@[m] <= n - m,
                forall|m: int|
                    0 <= m < n ==> (#[trigger] shape@[m]).text_start + shape@[m].text_len
                        <= text@.len(),
                table@ == hashes_from(shape@, text@, k as int),
            decreases k,
        {
            k -= 1;
            let ghost t = table@;
            assert(shape@[k as int].text_start + shape@[k as int].text_len <= text@.len());
            let mut acc = hash_seed(shape[k], &text);
            let end = k + sizes[k];
            let mut j: usize = k + 1;
            while j < end
                invariant
                    k < j <= end,
                    end <= n,
                    n == shape@.len(),
                    table@ == t,
                    table@.len() == n,
                    fold_children(shape@, t, k as int, k + 1, end as int, seed_hash(shape@[k as int], text@))
                        == fold_children(shape@, t, k as int, j as int, end as int, acc),
                decreases end - j,
            {
                if shape[j].parent == k {
                    acc = mix_step(acc, table[j]);
                }
                j += 1;
            }
            table.set(k, acc);
        }
        let mut nodes: Vec<Node> = Vec::new();
        let mut i: usize = 0;
        while i < n
            invariant
                i <= n,
                n == shape@.len(),
                table@.len() == n,
                sizes@.len() == n,
                forall|m: int|
                    0 <= m < n ==> (#[trigger] sizes@[m]) == run_end(shape@, m, m + 1) - m && 1
                        <= sizes@[m] <= n - m,
                table@ == hashes_from(shape@, text@, 0),
                want == shaped(shape@, text@),
                nodes@.len() == i,
                forall|m: int| 0 <= m < i ==> nodes@[m] == want.nodes[m],
            decreases n - i,
        {
            let sh = shape[i];
            nodes.push(
                Node {
                    kind: sh.kind,
                    parent: sh.parent,
                    size: sizes[i],
                    text_start: sh.text_start,
                    text_len: sh.text_len,
                    hash: table[i],
                },
            );
            i += 1;
        }
        assert(nodes@ =~= want.nodes);
        Snapshot::new(nodes, text)
    }
}

} // verus!
