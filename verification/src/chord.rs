//! The Chord ring state of one node: finger table, successor list,
//! predecessor, and virtual-node storage.

use vstd::prelude::*;

use crate::did::Did;
use crate::did::in_oc;
use crate::did::in_oo;
use crate::did::lemma_in_oc_dist;
use crate::did::lemma_dist0_inj;
use crate::did::lemma_limb_order;
use crate::did::ring_dist0;
use crate::did::ring_size;
use crate::vnode::VNodeKind;
use crate::vnode::VNodeModel;
use crate::vnode::VNodeOperation;
use crate::vnode::VirtualNode;

verus! {

/// What a ring operation asks the caller to do remotely.
#[derive(Clone, Debug)]
pub enum PeerRingRemoteAction {
    /// Ask a peer for the successor of an identifier.
    FindSuccessor(Did),
    /// Ask a peer for a stored record.
    FindVNode(Did),
    /// Hand a mutation on to a peer closer to the owner.
    FindVNodeForOperate(VNodeOperation),
}

/// The outcome of a ring operation.
#[derive(Clone, Debug)]
pub enum PeerRingAction {
    /// Nothing to do.
    NoAction,
    /// An identifier answers the question locally.
    SomeDid(Did),
    /// A record was found locally.
    SomeVNode(VirtualNode),
    /// The named peer must be asked to go on.
    RemoteAction(Did, PeerRingRemoteAction),
    /// Several remote probes at once, for redundant storage.
    MultiActions(Vec<(Did, PeerRingRemoteAction)>),
}

/// The view of a stored record sequence.
pub open spec fn models(s: Seq<VirtualNode>) -> Seq<VNodeModel> {
    s.map(|i: int, v: VirtualNode| v@)
}

/// Pairwise distinct record addresses.
pub open spec fn unique_dids(s: Seq<VirtualNode>) -> bool {
    forall|i: int, j: int|
        0 <= i < j < s.len() ==> (#[trigger] s[i]).did != (#[trigger] s[j]).did
}

/// No record address occurs in both sequences.
pub open spec fn disjoint_dids(a: Seq<VirtualNode>, b: Seq<VirtualNode>) -> bool {
    forall|i: int, j: int|
        0 <= i < a.len() && 0 <= j < b.len() ==> (#[trigger] a[i]).did != (#[trigger] b[j]).did
}

/// Some record in `s` lives at `vid`.
pub open spec fn has_vid(s: Seq<VirtualNode>, vid: Did) -> bool {
    exists|i: int| 0 <= i < s.len() && (#[trigger] s[i]).did == vid
}

/// Distinct identifiers sit at distinct clockwise distances.
proof fn lemma_did_dist_ne(base: Did, a: Did, b: Did)
    requires
        a != b,
    ensures
        ring_dist0(base.value(), a.value()) != ring_dist0(base.value(), b.value()),
{
    lemma_limb_order(base, base);
    lemma_limb_order(a, b);
    lemma_limb_order(b, a);
    if ring_dist0(base.value(), a.value()) == ring_dist0(base.value(), b.value()) {
        lemma_dist0_inj(base.value(), a.value(), b.value());
    }
}

/// The arc test, with every identifier's range established first.
proof fn lemma_arc_dist(x: Did, a: Did, b: Did)
    ensures
        in_oc(x.value(), a.value(), b.value()) == (ring_dist0(a.value(), x.value()) <= ring_dist0(
            a.value(),
            b.value(),
        )),
        in_oo(x.value(), a.value(), b.value()) == (ring_dist0(a.value(), x.value()) < ring_dist0(
            a.value(),
            b.value(),
        )),
{
    lemma_limb_order(x, x);
    lemma_limb_order(a, a);
    lemma_limb_order(b, b);
    lemma_in_oc_dist(x.value(), a.value(), b.value());
}

/// The head of a successor list after a peer was recorded: the newcomer
/// when it is strictly closer than every present entry.
pub open spec fn succ_head_after(old_s: Seq<Did>, base: Did, x: Did) -> Did {
    if old_s.len() == 0 || ring_dist0(base.value(), x.value()) < ring_dist0(
        base.value(),
        old_s[0].value(),
    ) {
        x
    } else {
        old_s[0]
    }
}

/// The position of the stored record at `vid`.
pub open spec fn vid_index(s: Seq<VirtualNode>, vid: Did) -> int {
    choose|i: int| 0 <= i < s.len() && s[i].did == vid
}

/// A store after the first `k` replicated records were overwritten into
/// it, in order.
pub open spec fn synced_models(s: Seq<VNodeModel>, data: Seq<VirtualNode>, k: int) -> Seq<
    VNodeModel,
>
    decreases k,
{
    if k <= 0 {
        s
    } else {
        put_model(synced_models(s, data, k - 1), data[k - 1]@)
    }
}

/// A cache after the first `k` found records were taken in, in order;
/// a record the store already holds is skipped, the store wins.
pub open spec fn cached_after(
    store: Seq<VirtualNode>,
    cache: Seq<VNodeModel>,
    data: Seq<VirtualNode>,
    k: int,
) -> Seq<VNodeModel>
    decreases k,
{
    if k <= 0 {
        cache
    } else {
        let prev = cached_after(store, cache, data, k - 1);
        if has_vid(store, data[k - 1].did) {
            prev
        } else {
            put_model(prev, data[k - 1]@)
        }
    }
}

/// Finds the stored record at `vid`.
pub fn store_find(s: &Vec<VirtualNode>, vid: &Did) -> (r: Option<usize>)
    ensures
        r matches Some(i) ==> i < s@.len() && s@[i as int].did == *vid,
        r is None ==> !has_vid(s@, *vid),
        r is Some ==> has_vid(s@, *vid),
{
    let n = s.len();
    let mut i: usize = 0;
    while i < n
        invariant
            i <= n,
            n == s@.len(),
            forall|j: int| 0 <= j < i ==> (#[trigger] s@[j]).did != *vid,
        decreases n - i,
    {
        let d = s[i].did;
        proof {
            lemma_limb_order(d, *vid);
        }
        if d.hi == vid.hi && d.lo == vid.lo {
            return Some(i);
        }
        i = i + 1;
    }
    None
}

/// Whether a blob with the given bytes is among the stored blobs.
pub fn blob_present(s: &Vec<crate::codec::Encoded>, b: &crate::codec::Encoded) -> (r: bool)
    ensures
        r == s@.map(|x: int, e: crate::codec::Encoded| e.data@).contains(b.data@),
{
    let n = s.len();
    let mut i: usize = 0;
    while i < n
        invariant
            i <= n,
            n == s@.len(),
            forall|j: int| 0 <= j < i ==> (#[trigger] s@[j]).data@ != b.data@,
        decreases n - i,
    {
        if crate::bytes_be::bytes_eq(&s[i].data, &b.data) {
            proof {
                let m = s@.map(|x: int, e: crate::codec::Encoded| e.data@);
                assert(m[i as int] == b.data@);
            }
            return true;
        }
        i = i + 1;
    }
    proof {
        let m = s@.map(|x: int, e: crate::codec::Encoded| e.data@);
        if m.contains(b.data@) {
            let j = choose|j: int| 0 <= j < m.len() && m[j] == b.data@;
            assert(s@[j].data@ == b.data@);
        }
    }
    false
}

/// A found index is the index, under uniqueness.
proof fn lemma_same_index(s: Seq<VirtualNode>, vid: Did, i: int)
    requires
        unique_dids(s),
        0 <= i < s.len(),
        s[i].did == vid,
    ensures
        vid_index(s, vid) == i,
        has_vid(s, vid),
        model_has(models(s), vid),
        model_index(models(s), vid) == i,
{
    assert(models(s)[i].did == vid);
    let j = vid_index(s, vid);
    if j != i {
        assert(false);
    }
    let m = model_index(models(s), vid);
    assert(models(s)[m].did == s[m].did);
    if m != i {
        assert(false);
    }
}

/// Replacing a record in place keeps addresses unique and disjoint.
proof fn lemma_update_unique(s: Seq<VirtualNode>, i: int, v: VirtualNode, cache: Seq<VirtualNode>)
    requires
        unique_dids(s),
        unique_dids(cache),
        disjoint_dids(s, cache),
        0 <= i < s.len(),
        v.did == s[i].did,
    ensures
        unique_dids(s.update(i, v)),
        disjoint_dids(s.update(i, v), cache),
        models(s.update(i, v)) =~= models(s).update(i, v@),
{
    let t = s.update(i, v);
    assert forall|a: int, b: int| 0 <= a < b < t.len() implies (#[trigger] t[a]).did != (
    #[trigger] t[b]).did by {
        assert(t[a].did == s[a].did && t[b].did == s[b].did);
    }
    assert forall|a: int, b: int| 0 <= a < t.len() && 0 <= b < cache.len() implies (
    #[trigger] t[a]).did != (#[trigger] cache[b]).did by {
        assert(t[a].did == s[a].did);
    }
}

/// Appending a fresh record keeps addresses unique and disjoint.
proof fn lemma_push_unique(s: Seq<VirtualNode>, v: VirtualNode, cache: Seq<VirtualNode>)
    requires
        unique_dids(s),
        unique_dids(cache),
        disjoint_dids(s, cache),
        !has_vid(s, v.did),
        !has_vid(cache, v.did),
    ensures
        unique_dids(s.push(v)),
        disjoint_dids(s.push(v), cache),
        models(s.push(v)) =~= models(s).push(v@),
        !model_has(models(s), v.did),
{
    let t = s.push(v);
    assert forall|a: int, b: int| 0 <= a < b < t.len() implies (#[trigger] t[a]).did != (
    #[trigger] t[b]).did by {
        if b == s.len() {
            assert(t[a] == s[a] && t[b] == v);
        } else {
            assert(t[a] == s[a] && t[b] == s[b]);
        }
    }
    assert forall|a: int, b: int| 0 <= a < t.len() && 0 <= b < cache.len() implies (
    #[trigger] t[a]).did != (#[trigger] cache[b]).did by {
        if a == s.len() {
            assert(t[a] == v);
        } else {
            assert(t[a] == s[a]);
        }
    }
    if model_has(models(s), v.did) {
        let i = model_index(models(s), v.did);
        assert(s[i].did == models(s)[i].did);
    }
}

/// The position of the record at `vid`.
pub open spec fn model_index(s: Seq<VNodeModel>, vid: Did) -> int {
    choose|i: int| 0 <= i < s.len() && s[i].did == vid
}

/// Some record model lives at `vid`.
pub open spec fn model_has(s: Seq<VNodeModel>, vid: Did) -> bool {
    exists|i: int| 0 <= i < s.len() && (#[trigger] s[i]).did == vid
}

/// A store after an overwrite: the record at the address replaced, or
/// appended when absent.
pub open spec fn put_model(s: Seq<VNodeModel>, m: VNodeModel) -> Seq<VNodeModel> {
    if model_has(s, m.did) {
        s.update(model_index(s, m.did), m)
    } else {
        s.push(m)
    }
}

/// A store after an extend: the incoming blobs appended to the record at
/// the address, or the record appended whole when absent.
pub open spec fn extend_model(s: Seq<VNodeModel>, m: VNodeModel) -> Seq<VNodeModel> {
    if model_has(s, m.did) {
        let i = model_index(s, m.did);
        s.update(i, VNodeModel { did: s[i].did, kind: s[i].kind, data: s[i].data + m.data })
    } else {
        s.push(m)
    }
}

/// Blobs after a touch: each incoming blob appended only when not yet
/// present, checked left to right.
pub open spec fn data_touch(cur: Seq<Seq<u8>>, add: Seq<Seq<u8>>) -> Seq<Seq<u8>>
    decreases add.len(),
{
    if add.len() == 0 {
        cur
    } else if cur.contains(add[0]) {
        data_touch(cur, add.drop_first())
    } else {
        data_touch(cur.push(add[0]), add.drop_first())
    }
}

/// A store after a touch: like an extend, but duplicate blobs are left
/// out.
pub open spec fn touch_model(s: Seq<VNodeModel>, m: VNodeModel) -> Seq<VNodeModel> {
    if model_has(s, m.did) {
        let i = model_index(s, m.did);
        s.update(i, VNodeModel { did: s[i].did, kind: s[i].kind, data: data_touch(s[i].data, m.data) })
    } else {
        s.push(m)
    }
}

/// The Chord state of one node.
pub struct PeerRing {
    /// This node's ring position.
    pub did: Did,
    /// 160 finger entries; entry `i` holds the first known peer at or
    /// after `did + 2^i`, or nothing.
    pub finger: Vec<Option<Did>>,
    /// Known clockwise neighbors, closest first.
    pub successors: Vec<Did>,
    /// The closest known counter-clockwise neighbor.
    pub predecessor: Option<Did>,
    /// Records this node is authoritative for.
    pub store: Vec<VirtualNode>,
    /// Records fetched from remote owners.
    pub cache: Vec<VirtualNode>,
    /// Longest successor list kept.
    pub max_succ: usize,
    /// Next finger index to refresh, round robin.
    pub fix_index: usize,
}

impl PeerRing {
    /// Well-formed ring state.
    pub open spec fn wf(self) -> bool {
        &&& self.finger@.len() == 160
        &&& forall|i: int|
            0 <= i < 160 ==> ((#[trigger] self.finger@[i]) matches Some(f) ==> f != self.did)
        &&& forall|i: int| 0 <= i < self.successors@.len() ==> (#[trigger] self.successors@[i])
            != self.did
        &&& forall|i: int, j: int|
            0 <= i < j < self.successors@.len() ==> ring_dist0(
                self.did.value(),
                (#[trigger] self.successors@[i]).value(),
            ) < ring_dist0(self.did.value(), (#[trigger] self.successors@[j]).value())
        &&& self.successors@.len() <= self.max_succ
        &&& self.max_succ >= 1
        &&& self.fix_index < 160
        &&& (self.predecessor matches Some(p) ==> p != self.did)
        &&& unique_dids(self.store@)
        &&& unique_dids(self.cache@)
        &&& disjoint_dids(self.store@, self.cache@)
    }

    /// A fresh, empty ring state.
    pub fn new(did: Did, max_succ: usize) -> (r: PeerRing)
        requires
            max_succ >= 1,
        ensures
            r.wf(),
            r.did == did,
            r.successors@.len() == 0,
            r.predecessor is None,
            r.store@.len() == 0,
            r.cache@.len() == 0,
            r.max_succ == max_succ,
            forall|i: int| 0 <= i < 160 ==> (#[trigger] r.finger@[i]) is None,
    {
        let mut finger: Vec<Option<Did>> = Vec::new();
        let mut i: usize = 0;
        while i < 160
            invariant
                i <= 160,
                finger@.len() == i,
                forall|j: int| 0 <= j < i ==> (#[trigger] finger@[j]) is None,
            decreases 160 - i,
        {
            finger.push(None);
            i = i + 1;
        }
        PeerRing {
            did,
            finger,
            successors: Vec::new(),
            predecessor: None,
            store: Vec::new(),
            cache: Vec::new(),
            max_succ,
            fix_index: 0,
        }
    }

    /// The closest known clockwise neighbor, or this node when alone.
    pub open spec fn spec_succ_or_self(self) -> Did {
        if self.successors@.len() == 0 {
            self.did
        } else {
            self.successors@[0]
        }
    }

    /// The closest known clockwise neighbor, or this node when alone.
    pub fn top_successor(&self) -> (r: Did)
        ensures
            r == self.spec_succ_or_self(),
    {
        if self.successors.len() == 0 {
            self.did
        } else {
            self.successors[0]
        }
    }

    /// The finger scan from index `i` down: the first entry strictly
    /// inside the clockwise arc `(did, id)`, or the top successor.
    pub open spec fn cpn_from(self, id: int, i: int) -> Did
        decreases i + 1,
    {
        if i < 0 {
            self.spec_succ_or_self()
        } else {
            match self.finger@[i] {
                Some(f) => if in_oo(f.value(), self.did.value(), id) {
                    f
                } else {
                    self.cpn_from(id, i - 1)
                },
                None => self.cpn_from(id, i - 1),
            }
        }
    }

    /// The closest preceding node for `id`: the finger scan over the
    /// whole table.
    pub open spec fn spec_cpn(self, id: int) -> Did {
        self.cpn_from(id, 159)
    }

    /// Scans the finger table from high to low and returns the first
    /// entry on the open arc `(did, id)`; the top successor if none is.
    pub fn closest_preceding_node(&self, id: &Did) -> (r: Did)
        requires
            self.wf(),
        ensures
            r == self.spec_cpn(id.value()),
    {
        let mut i: usize = 160;
        while i > 0
            invariant
                i <= 160,
                self.wf(),
                self.spec_cpn(id.value()) == self.cpn_from(id.value(), i as int - 1),
            decreases i,
        {
            i = i - 1;
            match self.finger[i] {
                Some(f) => {
                    if f.in_open(&self.did, id) {
                        return f;
                    }
                },
                None => {},
            }
        }
        self.top_successor()
    }

    /// `find_successor(id)`: the top successor if it covers `id`, else a
    /// remote lookup through the closest preceding node.
    pub fn find_successor(&self, id: &Did) -> (r: PeerRingAction)
        requires
            self.wf(),
        ensures
            in_oc(id.value(), self.did.value(), self.spec_succ_or_self().value()) ==> r
                == PeerRingAction::SomeDid(self.spec_succ_or_self()),
            !in_oc(id.value(), self.did.value(), self.spec_succ_or_self().value()) ==> r
                == (PeerRingAction::RemoteAction(
                self.spec_cpn(id.value()),
                PeerRingRemoteAction::FindSuccessor(*id),
            )),
    {
        let succ = self.top_successor();
        if id.in_range(&self.did, &succ) {
            PeerRingAction::SomeDid(succ)
        } else {
            PeerRingAction::RemoteAction(
                self.closest_preceding_node(id),
                PeerRingRemoteAction::FindSuccessor(*id),
            )
        }
    }

    /// Records a live peer in the successor list, keeping the list
    /// sorted by clockwise distance and at most `max_succ` long.
    pub fn add_successor(&mut self, x: Did)
        requires
            old(self).wf(),
        ensures
            final(self).wf(),
            final(self).did == old(self).did,
            final(self).finger@ == old(self).finger@,
            final(self).predecessor == old(self).predecessor,
            final(self).store@ == old(self).store@,
            final(self).cache@ == old(self).cache@,
            final(self).max_succ == old(self).max_succ,
            final(self).fix_index == old(self).fix_index,
            final(self).successors@.len() >= old(self).successors@.len(),
            x == old(self).did ==> final(self).successors@ == old(self).successors@,
            x != old(self).did ==> final(self).successors@.len() >= 1,
            x != old(self).did ==> final(self).successors@[0] == succ_head_after(
                old(self).successors@,
                old(self).did,
                x,
            ),
    {
        proof {
            lemma_limb_order(x, old(self).did);
        }
        if x.hi == self.did.hi && x.lo == self.did.lo {
            return ;
        }
        let (pos, present) = self.succ_insert_pos(&x);
        if present {
            proof {
                assert(final(self).successors@ == old(self).successors@);
                let i = choose|i: int|
                    0 <= i < self.successors@.len() && self.successors@[i] == x;
                if i > 0 {
                    assert(ring_dist0(self.did.value(), self.successors@[0].value()) < ring_dist0(
                        self.did.value(),
                        self.successors@[i].value(),
                    ));
                }
            }
            return ;
        }
        let ghost olds = self.successors@;
        let ghost b = self.did.value();
        self.successors.insert(pos, x);
        proof {
            let s = self.successors@;
            assert forall|i: int, j: int| 0 <= i < j < s.len() implies ring_dist0(
                b,
                (#[trigger] s[i]).value(),
            ) < ring_dist0(b, (#[trigger] s[j]).value()) by {
                if j < pos {
                } else if i < pos && j == pos {
                    assert(s[i] == olds[i]);
                } else if i < pos && j > pos {
                    assert(s[j] == olds[j - 1]);
                } else if i == pos {
                    assert(s[j] == olds[j - 1]);
                } else {
                    assert(s[i] == olds[i - 1] && s[j] == olds[j - 1]);
                }
            }
        }
        if self.successors.len() > self.max_succ {
            self.successors.truncate(self.max_succ);
        }
        proof {
            assert(final(self).wf());
            assert(final(self).successors@[0] == (if olds.len() == 0 || ring_dist0(
                b,
                x.value(),
            ) < ring_dist0(b, olds[0].value()) {
                x
            } else {
                olds[0]
            }));
        }
    }

    /// Finds where `x` belongs in the successor list: either it is
    /// already present, or the returned position splits the list into
    /// strictly closer and strictly farther entries.
    fn succ_insert_pos(&self, x: &Did) -> (r: (usize, bool))
        requires
            self.wf(),
        ensures
            r.1 ==> exists|i: int|
                0 <= i < self.successors@.len() && (#[trigger] self.successors@[i]) == *x,
            !r.1 ==> {
                &&& r.0 <= self.successors@.len()
                &&& forall|j: int|
                    0 <= j < r.0 ==> ring_dist0(
                        self.did.value(),
                        (#[trigger] self.successors@[j]).value(),
                    ) < ring_dist0(self.did.value(), x.value())
                &&& r.0 < self.successors@.len() ==> ring_dist0(
                    self.did.value(),
                    self.successors@[r.0 as int].value(),
                ) > ring_dist0(self.did.value(), x.value())
                &&& forall|j: int|
                    0 <= j < self.successors@.len() ==> (#[trigger] self.successors@[j]) != *x
            },
    {
        let base = self.did;
        let n = self.successors.len();
        let mut pos: usize = 0;
        while pos < n
            invariant
                pos <= n,
                n == self.successors@.len(),
                self.wf(),
                base == self.did,
                forall|j: int|
                    0 <= j < pos ==> ring_dist0(
                        base.value(),
                        (#[trigger] self.successors@[j]).value(),
                    ) < ring_dist0(base.value(), x.value()),
            decreases n - pos,
        {
            let s = self.successors[pos];
            if s.hi == x.hi && s.lo == x.lo {
                proof {
                    lemma_limb_order(s, *x);
                    assert(self.successors@[pos as int] == *x);
                }
                return (pos, true);
            }
            if !s.in_open(&base, x) {
                proof {
                    lemma_arc_dist(s, base, *x);
                    lemma_limb_order(s, *x);
                    lemma_did_dist_ne(base, s, *x);
                    assert forall|j: int| 0 <= j < self.successors@.len() implies (
                    #[trigger] self.successors@[j]) != *x by {
                        if j > pos {
                            assert(ring_dist0(base.value(), self.successors@[pos as int].value())
                                < ring_dist0(base.value(), self.successors@[j].value()));
                            lemma_did_dist_ne(base, self.successors@[j], *x);
                        }
                    }
                }
                return (pos, false);
            }
            proof {
                lemma_arc_dist(s, base, *x);
            }
            pos = pos + 1;
        }
        proof {
            assert forall|j: int| 0 <= j < self.successors@.len() implies (
            #[trigger] self.successors@[j]) != *x by {
                lemma_did_dist_ne(base, self.successors@[j], *x);
            }
        }
        (pos, false)
    }

    /// The clockwise start of finger `i`: `did + 2^i`.
    pub open spec fn finger_start_val(self, i: int) -> int {
        (self.did.value() + vstd::arithmetic::power2::pow2(i as nat)) % ring_size()
    }

    /// What finger entry `i` holds after the node learns about `node`:
    /// the newcomer replaces the entry when it lies in the entry's arc
    /// `[start, did)` and comes before the present holder.
    pub open spec fn finger_joined(self, i: int, node: Did) -> Option<Did> {
        let entry = self.finger@[i];
        let start = self.finger_start_val(i);
        if node == self.did {
            entry
        } else if crate::did::in_co(node.value(), start, self.did.value()) && (match entry {
            Some(f) => crate::did::in_co(node.value(), start, f.value()),
            None => true,
        }) {
            Some(node)
        } else {
            entry
        }
    }

    /// Learns about a live peer: refreshes every finger entry it
    /// improves, and records it in the successor list.
    pub fn join(&mut self, node: Did)
        requires
            old(self).wf(),
        ensures
            final(self).wf(),
            final(self).did == old(self).did,
            final(self).predecessor == old(self).predecessor,
            final(self).store@ == old(self).store@,
            final(self).cache@ == old(self).cache@,
            final(self).max_succ == old(self).max_succ,
            final(self).fix_index == old(self).fix_index,
            forall|i: int|
                0 <= i < 160 ==> (#[trigger] final(self).finger@[i]) == old(self).finger_joined(
                    i,
                    node,
                ),
            node == old(self).did ==> final(self).successors@ == old(self).successors@,
            node != old(self).did ==> final(self).successors@.len() >= 1,
            node != old(self).did ==> final(self).successors@[0] == succ_head_after(
                old(self).successors@,
                old(self).did,
                node,
            ),
    {
        let ghost pre = *self;
        if node.hi == self.did.hi && node.lo == self.did.lo {
            proof {
                lemma_limb_order(node, self.did);
            }
            return ;
        }
        proof {
            lemma_limb_order(node, self.did);
        }
        let me = self.did;
        let mut i: usize = 0;
        while i < 160
            invariant
                i <= 160,
                self.finger@.len() == 160,
                me == self.did,
                node != me,
                self.did == pre.did,
                self.successors@ == pre.successors@,
                self.predecessor == pre.predecessor,
                self.store@ == pre.store@,
                self.cache@ == pre.cache@,
                self.max_succ == pre.max_succ,
                self.fix_index == pre.fix_index,
                pre.wf(),
                forall|j: int|
                    0 <= j < i ==> (#[trigger] self.finger@[j]) == pre.finger_joined(j, node),
                forall|j: int| i <= j < 160 ==> (#[trigger] self.finger@[j]) == pre.finger@[j],
            decreases 160 - i,
        {
            let start = me.ring_add(&Did::pow2(i));
            let replace = match self.finger[i] {
                Some(f) => {
                    node.in_range_co(&start, &me) && node.in_range_co(&start, &f)
                },
                None => node.in_range_co(&start, &me),
            };
            if replace {
                self.finger[i] = Some(node);
            }
            proof {
                assert(self.finger@[i as int] == pre.finger_joined(i as int, node));
            }
            i = i + 1;
        }
        proof {
            assert forall|j: int|
                0 <= j < 160 implies ((#[trigger] self.finger@[j]) matches Some(f) ==> f
                != self.did) by {
                assert(self.finger@[j] == pre.finger_joined(j, node));
            }
        }
        self.add_successor(node);
    }

    /// The successor list with every occurrence of `x` dropped, looking
    /// at the first `k` entries.
    pub open spec fn seq_remove_all(s: Seq<Did>, x: Did, k: int) -> Seq<Did>
        decreases k,
    {
        if k <= 0 {
            Seq::empty()
        } else if s[k - 1] == x {
            Self::seq_remove_all(s, x, k - 1)
        } else {
            Self::seq_remove_all(s, x, k - 1).push(s[k - 1])
        }
    }

    /// Dropping an element keeps the list's order and membership.
    proof fn lemma_remove_all(s: Seq<Did>, x: Did, k: int)
        requires
            0 <= k <= s.len(),
        ensures
            Self::seq_remove_all(s, x, k).len() <= k,
            forall|m: int|
                0 <= m < Self::seq_remove_all(s, x, k).len() ==> exists|j: int|
                    0 <= j < k && (#[trigger] Self::seq_remove_all(s, x, k)[m]) == s[j],
            forall|m: int|
                0 <= m < Self::seq_remove_all(s, x, k).len() ==> (#[trigger] Self::seq_remove_all(
                    s,
                    x,
                    k,
                )[m]) != x,
            forall|m1: int, m2: int|
                0 <= m1 < m2 < Self::seq_remove_all(s, x, k).len() ==> exists|j1: int, j2: int|
                    0 <= j1 < j2 < k && (#[trigger] Self::seq_remove_all(s, x, k)[m1]) == s[j1]
                        && (#[trigger] Self::seq_remove_all(s, x, k)[m2]) == s[j2],
        decreases k,
    {
        if k > 0 {
            Self::lemma_remove_all(s, x, k - 1);
            let prev = Self::seq_remove_all(s, x, k - 1);
            let cur = Self::seq_remove_all(s, x, k);
            assert forall|m: int| 0 <= m < cur.len() implies (exists|j: int|
                0 <= j < k && (#[trigger] cur[m]) == s[j]) && cur[m] != x by {
                if m < prev.len() {
                    assert(cur[m] == prev[m]);
                    let j = choose|j: int| 0 <= j < k - 1 && prev[m] == s[j];
                    assert(cur[m] == s[j]);
                } else {
                    assert(cur[m] == s[k - 1]);
                }
            }
            assert forall|m1: int, m2: int| 0 <= m1 < m2 < cur.len() implies exists|
                j1: int,
                j2: int,
            |
                0 <= j1 < j2 < k && (#[trigger] cur[m1]) == s[j1]
                    && (#[trigger] cur[m2]) == s[j2] by {
                if m2 < prev.len() {
                    assert(cur[m1] == prev[m1] && cur[m2] == prev[m2]);
                    let (j1, j2) = choose|j1: int, j2: int|
                        0 <= j1 < j2 < k - 1 && prev[m1] == s[j1] && prev[m2] == s[j2];
                    assert(cur[m1] == s[j1] && cur[m2] == s[j2]);
                } else {
                    assert(cur[m1] == prev[m1] && cur[m2] == s[k - 1]);
                    let j1 = choose|j: int| 0 <= j < k - 1 && prev[m1] == s[j];
                    assert(cur[m1] == s[j1] && cur[m2] == s[k - 1]);
                }
            }
        }
    }

    /// Forgets a peer: clears matching finger entries, drops it from the
    /// successor list, and clears the predecessor if it matches.
    pub fn remove(&mut self, node: Did)
        requires
            old(self).wf(),
        ensures
            final(self).wf(),
            final(self).did == old(self).did,
            final(self).store@ == old(self).store@,
            final(self).cache@ == old(self).cache@,
            final(self).max_succ == old(self).max_succ,
            final(self).fix_index == old(self).fix_index,
            forall|i: int|
                0 <= i < 160 ==> (#[trigger] final(self).finger@[i]) == (if old(self).finger@[i]
                    == Some(node) {
                    Option::<Did>::None
                } else {
                    old(self).finger@[i]
                }),
            final(self).successors@ == Self::seq_remove_all(
                old(self).successors@,
                node,
                old(self).successors@.len() as int,
            ),
            final(self).predecessor == (if old(self).predecessor == Some(node) {
                Option::<Did>::None
            } else {
                old(self).predecessor
            }),
    {
        let ghost pre = *self;
        let mut i: usize = 0;
        while i < 160
            invariant
                i <= 160,
                self.finger@.len() == 160,
                self.did == pre.did,
                self.successors@ == pre.successors@,
                self.predecessor == pre.predecessor,
                self.store@ == pre.store@,
                self.cache@ == pre.cache@,
                self.max_succ == pre.max_succ,
                self.fix_index == pre.fix_index,
                pre.wf(),
                forall|j: int|
                    0 <= j < i ==> (#[trigger] self.finger@[j]) == (if pre.finger@[j] == Some(
                        node,
                    ) {
                        Option::<Did>::None
                    } else {
                        pre.finger@[j]
                    }),
                forall|j: int| i <= j < 160 ==> (#[trigger] self.finger@[j]) == pre.finger@[j],
            decreases 160 - i,
        {
            let clear = match self.finger[i] {
                Some(f) => f.hi == node.hi && f.lo == node.lo,
                None => false,
            };
            proof {
                match pre.finger@[i as int] {
                    Some(f) => lemma_limb_order(f, node),
                    None => {},
                }
            }
            if clear {
                self.finger[i] = None;
            }
            i = i + 1;
        }
        let n = self.successors.len();
        let mut kept: Vec<Did> = Vec::new();
        let mut k: usize = 0;
        while k < n
            invariant
                k <= n,
                n == self.successors@.len(),
                kept@ == Self::seq_remove_all(self.successors@, node, k as int),
            decreases n - k,
        {
            let s = self.successors[k];
            proof {
                lemma_limb_order(s, node);
            }
            if !(s.hi == node.hi && s.lo == node.lo) {
                kept.push(s);
            }
            k = k + 1;
        }
        proof {
            let os = pre.successors@;
            let ks = kept@;
            Self::lemma_remove_all(os, node, os.len() as int);
            assert forall|m: int| 0 <= m < ks.len() implies (#[trigger] ks[m]) != pre.did by {
                let j = choose|j: int| 0 <= j < os.len() && ks[m] == os[j];
                assert(os[j] != pre.did);
            }
            assert forall|m1: int, m2: int| 0 <= m1 < m2 < ks.len() implies ring_dist0(
                pre.did.value(),
                (#[trigger] ks[m1]).value(),
            ) < ring_dist0(pre.did.value(), (#[trigger] ks[m2]).value()) by {
                let (j1, j2) = choose|j1: int, j2: int|
                    0 <= j1 < j2 < os.len() && ks[m1] == os[j1] && ks[m2] == os[j2];
                assert(ring_dist0(pre.did.value(), os[j1].value()) < ring_dist0(
                    pre.did.value(),
                    os[j2].value(),
                ));
            }
        }
        self.successors = kept;
        let clear_pred = match self.predecessor {
            Some(p) => p.hi == node.hi && p.lo == node.lo,
            None => false,
        };
        proof {
            match pre.predecessor {
                Some(p) => lemma_limb_order(p, node),
                None => {},
            }
        }
        if clear_pred {
            self.predecessor = None;
        }
    }

    /// Whether a notify by `p` updates the predecessor: it is empty, or
    /// `p` falls between it and this node.
    pub open spec fn notify_sets(self, p: Did) -> bool {
        match self.predecessor {
            None => true,
            Some(q) => in_oo(p.value(), q.value(), self.did.value()),
        }
    }

    /// Chord notify: adopts `p` as predecessor when it is closer than
    /// the present one, and answers with the predecessor that stands.
    pub fn notify(&mut self, p: Did) -> (r: Option<Did>)
        requires
            old(self).wf(),
        ensures
            final(self).wf(),
            *final(self) == (PeerRing { predecessor: final(self).predecessor, ..*old(self) }),
            p == old(self).did ==> final(self).predecessor == old(self).predecessor,
            p != old(self).did && old(self).notify_sets(p) ==> final(self).predecessor == Some(p),
            p != old(self).did && !old(self).notify_sets(p) ==> final(self).predecessor == old(
                self,
            ).predecessor,
            r == final(self).predecessor,
    {
        proof {
            lemma_limb_order(p, old(self).did);
        }
        if p.hi == self.did.hi && p.lo == self.did.lo {
            return self.predecessor;
        }
        let set = match self.predecessor {
            None => true,
            Some(q) => p.in_open(&q, &self.did),
        };
        if set {
            self.predecessor = Some(p);
        }
        self.predecessor
    }

    /// Whether this node is authoritative for `vid`: it is alone, or the
    /// address is neither the successor's nor beyond a known predecessor.
    pub open spec fn owns(self, vid: Did) -> bool {
        if self.successors@.len() == 0 {
            true
        } else if in_oc(vid.value(), self.did.value(), self.successors@[0].value()) {
            false
        } else {
            match self.predecessor {
                Some(p) => in_oc(vid.value(), p.value(), self.did.value()),
                None => true,
            }
        }
    }

    /// Drops the cached record at `vid`, if any.
    fn evict_cache(&mut self, vid: &Did)
        requires
            old(self).wf(),
        ensures
            final(self).wf(),
            *final(self) == (PeerRing { cache: final(self).cache, ..*old(self) }),
            !has_vid(final(self).cache@, *vid),
            has_vid(old(self).cache@, *vid) ==> final(self).cache@ == old(self).cache@.remove(
                vid_index(old(self).cache@, *vid),
            ),
            !has_vid(old(self).cache@, *vid) ==> final(self).cache@ == old(self).cache@,
    {
        let ghost pre = *self;
        match store_find(&self.cache, vid) {
            Some(i) => {
                proof {
                    let ci = vid_index(pre.cache@, *vid);
                    assert(pre.cache@[ci].did == *vid);
                    if ci != i as int {
                        assert(false);
                    }
                }
                self.cache.remove(i);
                proof {
                    let newc = self.cache@;
                    assert forall|m: int| 0 <= m < newc.len() implies (#[trigger] newc[m]).did
                        != *vid by {
                        if m < i as int {
                            assert(newc[m] == pre.cache@[m]);
                        } else {
                            assert(newc[m] == pre.cache@[m + 1]);
                        }
                    }
                    assert forall|m1: int, m2: int| 0 <= m1 < m2 < newc.len() implies (
                    #[trigger] newc[m1]).did != (#[trigger] newc[m2]).did by {
                        let o1 = if m1 < i as int { m1 } else { m1 + 1 };
                        let o2 = if m2 < i as int { m2 } else { m2 + 1 };
                        assert(newc[m1] == pre.cache@[o1] && newc[m2] == pre.cache@[o2]);
                    }
                    assert forall|m1: int, m2: int|
                        0 <= m1 < self.store@.len() && 0 <= m2 < newc.len() implies (
                    #[trigger] self.store@[m1]).did != (#[trigger] newc[m2]).did by {
                        let o2 = if m2 < i as int { m2 } else { m2 + 1 };
                        assert(newc[m2] == pre.cache@[o2]);
                    }
                }
            },
            None => {},
        }
    }

    /// Applies a mutation to the authoritative store, evicting any
    /// cached copy of the record first.
    pub(crate) fn apply_op(&mut self, op: VNodeOperation)
        requires
            old(self).wf(),
        ensures
            final(self).wf(),
            *final(self) == (PeerRing {
                store: final(self).store,
                cache: final(self).cache,
                ..*old(self)
            }),
            !has_vid(final(self).cache@, op.spec_target()),
            models(final(self).store@) == (match op {
                VNodeOperation::Overwrite(v) => put_model(models(old(self).store@), v@),
                VNodeOperation::Extend(v) => extend_model(models(old(self).store@), v@),
                VNodeOperation::Touch(v) => touch_model(models(old(self).store@), v@),
            }),
    {
        let ghost pre = *self;
        let vid = op.target();
        self.evict_cache(&vid);
        let ghost mid = *self;
        let found = store_find(&self.store, &vid);
        proof {
            let sm = models(self.store@);
            if has_vid(self.store@, vid) {
                let i = vid_index(self.store@, vid);
                assert(self.store@[i].did == vid);
                assert(sm[i].did == vid);
                assert(model_has(sm, vid));
            }
            if model_has(sm, vid) {
                let i = model_index(sm, vid);
                assert(sm[i].did == vid);
                assert(self.store@[i].did == vid);
                assert(has_vid(self.store@, vid));
            }
        }
        match op {
            VNodeOperation::Overwrite(v) => {
                match found {
                    Some(i) => {
                        proof {
                            lemma_same_index(mid.store@, vid, i as int);
                        }
                        self.store[i] = v;
                        proof {
                            lemma_update_unique(mid.store@, i as int, v, mid.cache@);
                            assert(models(self.store@) =~= put_model(models(mid.store@), v@));
                        }
                    },
                    None => {
                        self.store.push(v);
                        proof {
                            lemma_push_unique(mid.store@, v, mid.cache@);
                            assert(models(self.store@) =~= put_model(models(mid.store@), v@));
                        }
                    },
                }
            },
            VNodeOperation::Extend(v) => {
                match found {
                    Some(i) => {
                        proof {
                            lemma_same_index(mid.store@, vid, i as int);
                        }
                        let mut entry = self.store.remove(i);
                        let ghost e0 = entry;
                        let n = v.data.len();
                        let mut k: usize = 0;
                        while k < n
                            invariant
                                k <= n,
                                n == v.data@.len(),
                                entry.did == e0.did,
                                entry.kind == e0.kind,
                                entry.data@.map(|x: int, e: crate::codec::Encoded| e.data@) =~= e0@.data
                                    + v@.data.take(k as int),
                            decreases n - k,
                        {
                            let ghost cur = entry.data@.map(
                                |x: int, e: crate::codec::Encoded| e.data@,
                            );
                            entry.data.push(crate::codec::clone_encoded(&v.data[k]));
                            proof {
                                assert(entry.data@.map(
                                    |x: int, e: crate::codec::Encoded| e.data@,
                                ) =~= cur.push(v@.data[k as int]));
                                assert(cur.push(v@.data[k as int]) =~= e0@.data + v@.data.take(
                                    k + 1,
                                ));
                            }
                            k = k + 1;
                        }
                        proof {
                            assert(v@.data.take(n as int) =~= v@.data);
                            assert(entry@ == (VNodeModel {
                                did: e0@.did,
                                kind: e0@.kind,
                                data: e0@.data + v@.data,
                            }));
                        }
                        self.store.insert(i, entry);
                        proof {
                            assert(self.store@ =~= mid.store@.update(i as int, entry));
                            lemma_update_unique(mid.store@, i as int, entry, mid.cache@);
                            assert(models(self.store@) =~= extend_model(
                                models(mid.store@),
                                v@,
                            ));
                        }
                    },
                    None => {
                        self.store.push(v);
                        proof {
                            lemma_push_unique(mid.store@, v, mid.cache@);
                            assert(models(self.store@) =~= extend_model(models(mid.store@), v@));
                        }
                    },
                }
            },
            VNodeOperation::Touch(v) => {
                match found {
                    Some(i) => {
                        proof {
                            lemma_same_index(mid.store@, vid, i as int);
                        }
                        let mut entry = self.store.remove(i);
                        let ghost e0 = entry;
                        let n = v.data.len();
                        let mut k: usize = 0;
                        proof {
                            assert(v@.data.skip(0) =~= v@.data);
                        }
                        while k < n
                            invariant
                                k <= n,
                                n == v.data@.len(),
                                entry.did == e0.did,
                                entry.kind == e0.kind,
                                data_touch(e0@.data, v@.data) == data_touch(
                                    entry.data@.map(|x: int, e: crate::codec::Encoded| e.data@),
                                    v@.data.skip(k as int),
                                ),
                            decreases n - k,
                        {
                            let ghost cur = entry.data@.map(
                                |x: int, e: crate::codec::Encoded| e.data@,
                            );
                            let ghost rest = v@.data.skip(k as int);
                            proof {
                                assert(rest[0] == v@.data[k as int]);
                                assert(rest.drop_first() =~= v@.data.skip(k + 1));
                            }
                            let present = blob_present(&entry.data, &v.data[k]);
                            if !present {
                                entry.data.push(crate::codec::clone_encoded(&v.data[k]));
                                proof {
                                    assert(entry.data@.map(
                                        |x: int, e: crate::codec::Encoded| e.data@,
                                    ) =~= cur.push(rest[0]));
                                }
                            }
                            k = k + 1;
                        }
                        proof {
                            assert(v@.data.skip(n as int) =~= Seq::<Seq<u8>>::empty());
                        }
                        self.store.insert(i, entry);
                        proof {
                            assert(self.store@ =~= mid.store@.update(i as int, entry));
                            lemma_update_unique(mid.store@, i as int, entry, mid.cache@);
                            assert(models(self.store@) =~= touch_model(models(mid.store@), v@));
                        }
                    },
                    None => {
                        self.store.push(v);
                        proof {
                            lemma_push_unique(mid.store@, v, mid.cache@);
                            assert(models(self.store@) =~= touch_model(models(mid.store@), v@));
                        }
                    },
                }
            },
        }
    }

    /// Caches a record fetched from a remote owner. A record this node is
    /// authoritative for is never cached: the store wins.
    pub fn local_cache_set(&mut self, v: VirtualNode)
        requires
            old(self).wf(),
        ensures
            final(self).wf(),
            *final(self) == (PeerRing { cache: final(self).cache, ..*old(self) }),
            has_vid(old(self).store@, v.did) ==> *final(self) == *old(self),
            !has_vid(old(self).store@, v.did) ==> models(final(self).cache@) == put_model(
                models(old(self).cache@),
                v@,
            ),
    {
        let ghost pre = *self;
        if store_find(&self.store, &v.did).is_some() {
            return ;
        }
        proof {
            let cm = models(self.cache@);
            if has_vid(self.cache@, v.did) {
                let i = vid_index(self.cache@, v.did);
                assert(cm[i].did == self.cache@[i].did);
                assert(model_has(cm, v.did));
            }
            if model_has(cm, v.did) {
                let i = model_index(cm, v.did);
                assert(cm[i].did == self.cache@[i].did);
                assert(has_vid(self.cache@, v.did));
            }
        }
        match store_find(&self.cache, &v.did) {
            Some(i) => {
                proof {
                    lemma_same_index(pre.cache@, v.did, i as int);
                }
                let ghost oldc = self.cache@;
                self.cache[i] = v;
                proof {
                    let t = self.cache@;
                    assert forall|a: int, b: int| 0 <= a < b < t.len() implies (
                    #[trigger] t[a]).did != (#[trigger] t[b]).did by {
                        assert(t[a].did == oldc[a].did && t[b].did == oldc[b].did);
                    }
                    assert forall|a: int, b: int|
                        0 <= a < self.store@.len() && 0 <= b < t.len() implies (
                    #[trigger] self.store@[a]).did != (#[trigger] t[b]).did by {
                        assert(t[b].did == oldc[b].did);
                    }
                    assert(models(t) =~= put_model(models(oldc), v@));
                }
            },
            None => {
                let ghost oldc = self.cache@;
                self.cache.push(v);
                proof {
                    let t = self.cache@;
                    assert forall|a: int, b: int| 0 <= a < b < t.len() implies (
                    #[trigger] t[a]).did != (#[trigger] t[b]).did by {
                        if b == oldc.len() {
                            assert(t[a] == oldc[a] && t[b] == v);
                        } else {
                            assert(t[a] == oldc[a] && t[b] == oldc[b]);
                        }
                    }
                    assert forall|a: int, b: int|
                        0 <= a < self.store@.len() && 0 <= b < t.len() implies (
                    #[trigger] self.store@[a]).did != (#[trigger] t[b]).did by {
                        if b == oldc.len() {
                            assert(t[b] == v);
                        } else {
                            assert(t[b] == oldc[b]);
                        }
                    }
                    assert(models(t) =~= put_model(models(oldc), v@));
                }
            },
        }
    }

    /// Reads a record out of the fetch cache.
    pub fn local_cache_get(&self, vid: &Did) -> (r: Option<VirtualNode>)
        requires
            self.wf(),
        ensures
            r is Some <==> has_vid(self.cache@, *vid),
            r matches Some(v) ==> v@.did == *vid && v@ == self.cache@[vid_index(
                self.cache@,
                *vid,
            )]@,
    {
        match store_find(&self.cache, vid) {
            Some(i) => {
                proof {
                    lemma_same_index(self.cache@, *vid, i as int);
                }
                Some(crate::vnode::copy_vnode(&self.cache[i]))
            },
            None => None,
        }
    }

    /// Where a mutation that this node does not own must travel: the top
    /// successor when it covers the address, else the closest preceding
    /// node.
    pub open spec fn op_next(self, vid: Did) -> Did {
        if in_oc(vid.value(), self.did.value(), self.spec_succ_or_self().value()) {
            self.spec_succ_or_self()
        } else {
            self.spec_cpn(vid.value())
        }
    }

    /// Looks a record up: locally when stored here, else by routing a
    /// search towards the owner.
    pub fn vnode_lookup(&self, vid: &Did) -> (r: PeerRingAction)
        requires
            self.wf(),
        ensures
            has_vid(self.store@, *vid) ==> (r matches PeerRingAction::SomeVNode(v) && v@.did
                == *vid && v@ == self.store@[vid_index(self.store@, *vid)]@),
            !has_vid(self.store@, *vid) && self.successors@.len() == 0 ==> r
                == PeerRingAction::NoAction,
            !has_vid(self.store@, *vid) && self.successors@.len() > 0 ==> r
                == (PeerRingAction::RemoteAction(
                self.op_next(*vid),
                PeerRingRemoteAction::FindVNode(*vid),
            )),
    {
        match store_find(&self.store, vid) {
            Some(i) => {
                proof {
                    lemma_same_index(self.store@, *vid, i as int);
                }
                PeerRingAction::SomeVNode(crate::vnode::copy_vnode(&self.store[i]))
            },
            None => {
                if self.successors.len() == 0 {
                    PeerRingAction::NoAction
                } else {
                    let succ = self.successors[0];
                    if vid.in_range(&self.did, &succ) {
                        PeerRingAction::RemoteAction(
                            succ,
                            PeerRingRemoteAction::FindVNode(*vid),
                        )
                    } else {
                        PeerRingAction::RemoteAction(
                            self.closest_preceding_node(vid),
                            PeerRingRemoteAction::FindVNode(*vid),
                        )
                    }
                }
            },
        }
    }

    /// Looks a record up, probing up to `redundant` successors when more
    /// than one replica is wanted.
    pub fn vnode_lookup_n(&self, vid: &Did, redundant: u16) -> (r: PeerRingAction)
        requires
            self.wf(),
        ensures
            redundant <= 1 || has_vid(self.store@, *vid) || self.successors@.len() == 0 ==> {
                &&& (has_vid(self.store@, *vid) ==> (r matches PeerRingAction::SomeVNode(v)
                    && v@.did == *vid && v@ == self.store@[vid_index(self.store@, *vid)]@))
                &&& (!has_vid(self.store@, *vid) && self.successors@.len() == 0 ==> r
                    == PeerRingAction::NoAction)
                &&& (!has_vid(self.store@, *vid) && self.successors@.len() > 0 ==> r
                    == (PeerRingAction::RemoteAction(
                    self.op_next(*vid),
                    PeerRingRemoteAction::FindVNode(*vid),
                )))
            },
            redundant > 1 && !has_vid(self.store@, *vid) && self.successors@.len() > 0 ==> (
            r matches PeerRingAction::MultiActions(ps) && ps@.len() == (if redundant as int
                <= self.successors@.len() {
                redundant as int
            } else {
                self.successors@.len() as int
            }) && ps@[0] == (
                self.op_next(*vid),
                PeerRingRemoteAction::FindVNode(*vid),
            ) && forall|j: int|
                1 <= j < ps@.len() ==> (#[trigger] ps@[j]) == (
                    self.successors@[j],
                    PeerRingRemoteAction::FindVNode(*vid),
                )),
    {
        if redundant <= 1 {
            return self.vnode_lookup(vid);
        }
        match store_find(&self.store, vid) {
            Some(i) => {
                proof {
                    lemma_same_index(self.store@, *vid, i as int);
                }
                return PeerRingAction::SomeVNode(crate::vnode::copy_vnode(&self.store[i]));
            },
            None => {},
        }
        if self.successors.len() == 0 {
            return PeerRingAction::NoAction;
        }
        let succ = self.successors[0];
        let next = if vid.in_range(&self.did, &succ) {
            succ
        } else {
            self.closest_preceding_node(vid)
        };
        let mut probes: Vec<(Did, PeerRingRemoteAction)> = Vec::new();
        probes.push((next, PeerRingRemoteAction::FindVNode(*vid)));
        let mut j: usize = 1;
        let cap = if (redundant as usize) < self.successors.len() {
            redundant as usize
        } else {
            self.successors.len()
        };
        while j < cap
            invariant
                1 <= j <= cap,
                cap <= self.successors@.len(),
                probes@.len() == j,
                probes@[0] == (next, PeerRingRemoteAction::FindVNode(*vid)),
                forall|m: int|
                    1 <= m < j ==> (#[trigger] probes@[m]) == (
                        self.successors@[m],
                        PeerRingRemoteAction::FindVNode(*vid),
                    ),
            decreases cap - j,
        {
            probes.push((self.successors[j], PeerRingRemoteAction::FindVNode(*vid)));
            j = j + 1;
        }
        PeerRingAction::MultiActions(probes)
    }

    /// Applies a mutation when this node owns the address, else routes it
    /// one hop closer to the owner.
    pub fn vnode_operate(&mut self, op: VNodeOperation) -> (r: PeerRingAction)
        requires
            old(self).wf(),
        ensures
            final(self).wf(),
            old(self).owns(op.spec_target()) ==> {
                &&& r == PeerRingAction::NoAction
                &&& *final(self) == (PeerRing {
                    store: final(self).store,
                    cache: final(self).cache,
                    ..*old(self)
                })
                &&& !has_vid(final(self).cache@, op.spec_target())
                &&& models(final(self).store@) == (match op {
                    VNodeOperation::Overwrite(v) => put_model(models(old(self).store@), v@),
                    VNodeOperation::Extend(v) => extend_model(models(old(self).store@), v@),
                    VNodeOperation::Touch(v) => touch_model(models(old(self).store@), v@),
                })
            },
            !old(self).owns(op.spec_target()) ==> *final(self) == *old(self) && r
                == (PeerRingAction::RemoteAction(
                old(self).op_next(op.spec_target()),
                PeerRingRemoteAction::FindVNodeForOperate(op),
            )),
    {
        let vid = op.target();
        let owned = if self.successors.len() == 0 {
            true
        } else {
            let succ = self.successors[0];
            if vid.in_range(&self.did, &succ) {
                false
            } else {
                match self.predecessor {
                    Some(p) => vid.in_range(&p, &self.did),
                    None => true,
                }
            }
        };
        if owned {
            self.apply_op(op);
            PeerRingAction::NoAction
        } else {
            let succ = self.successors[0];
            let next = if vid.in_range(&self.did, &succ) {
                succ
            } else {
                self.closest_preceding_node(&vid)
            };
            PeerRingAction::RemoteAction(next, PeerRingRemoteAction::FindVNodeForOperate(op))
        }
    }

    /// Applies a mutation when this node owns the address; else routes
    /// it towards the owner, and to `redundant - 1` further successors
    /// when more than one copy is wanted.
    pub fn vnode_operate_n(&mut self, op: VNodeOperation, redundant: u16) -> (r: PeerRingAction)
        requires
            old(self).wf(),
        ensures
            final(self).wf(),
            old(self).owns(op.spec_target()) ==> {
                &&& r == PeerRingAction::NoAction
                &&& *final(self) == (PeerRing {
                    store: final(self).store,
                    cache: final(self).cache,
                    ..*old(self)
                })
                &&& !has_vid(final(self).cache@, op.spec_target())
                &&& models(final(self).store@) == (match op {
                    VNodeOperation::Overwrite(v) => put_model(models(old(self).store@), v@),
                    VNodeOperation::Extend(v) => extend_model(models(old(self).store@), v@),
                    VNodeOperation::Touch(v) => touch_model(models(old(self).store@), v@),
                })
            },
            !old(self).owns(op.spec_target()) && redundant <= 1 ==> *final(self) == *old(self)
                && r == (PeerRingAction::RemoteAction(
                old(self).op_next(op.spec_target()),
                PeerRingRemoteAction::FindVNodeForOperate(op),
            )),
            !old(self).owns(op.spec_target()) && redundant > 1 ==> *final(self) == *old(self) && (
            r matches PeerRingAction::MultiActions(ps) && (forall|j: int|
                0 <= j < ps@.len() ==> (#[trigger] ps@[j]).1 is FindVNodeForOperate) && ps@.len()
                == (if redundant as int <= old(self).successors@.len() {
                redundant as int
            } else {
                old(self).successors@.len() as int
            }) && ps@[0] == (
                old(self).op_next(op.spec_target()),
                PeerRingRemoteAction::FindVNodeForOperate(op),
            ) && forall|j: int|
                1 <= j < ps@.len() ==> (#[trigger] ps@[j]).0 == old(self).successors@[j] && (
                ps@[j].1 matches PeerRingRemoteAction::FindVNodeForOperate(o) && crate::vnode::op_eq(
                    o,
                    op,
                ) && o.spec_target() == op.spec_target())),
    {
        let vid = op.target();
        let owned = if self.successors.len() == 0 {
            true
        } else {
            let succ = self.successors[0];
            if vid.in_range(&self.did, &succ) {
                false
            } else {
                match self.predecessor {
                    Some(p) => vid.in_range(&p, &self.did),
                    None => true,
                }
            }
        };
        if owned {
            self.apply_op(op);
            return PeerRingAction::NoAction;
        }
        let succ = self.successors[0];
        let next = if vid.in_range(&self.did, &succ) {
            succ
        } else {
            self.closest_preceding_node(&vid)
        };
        if redundant <= 1 {
            return PeerRingAction::RemoteAction(
                next,
                PeerRingRemoteAction::FindVNodeForOperate(op),
            );
        }
        let cap = if (redundant as usize) < self.successors.len() {
            redundant as usize
        } else {
            self.successors.len()
        };
        let mut probes: Vec<(Did, PeerRingRemoteAction)> = Vec::new();
        let mut j: usize = 1;
        while j < cap
            invariant
                1 <= j <= cap,
                cap <= self.successors@.len(),
                probes@.len() == j - 1,
                forall|m: int|
                    0 <= m < j - 1 ==> (#[trigger] probes@[m]).0 == self.successors@[m + 1] && (
                    probes@[m].1 matches PeerRingRemoteAction::FindVNodeForOperate(o)
                        && crate::vnode::op_eq(o, op) && o.spec_target() == op.spec_target()),
            decreases cap - j,
        {
            probes.push(
                (
                    self.successors[j],
                    PeerRingRemoteAction::FindVNodeForOperate(crate::vnode::copy_op(&op)),
                ),
            );
            j = j + 1;
        }
        probes.insert(0, (next, PeerRingRemoteAction::FindVNodeForOperate(op)));
        proof {
            assert forall|j: int|
                0 <= j < probes@.len() implies (#[trigger] probes@[j]).1
                is FindVNodeForOperate by {
                if j > 0 {
                    assert(probes@[j].1 matches PeerRingRemoteAction::FindVNodeForOperate(o)
                        && crate::vnode::op_eq(o, op));
                }
            }
        }
        PeerRingAction::MultiActions(probes)
    }

    /// The stored records that stay with this node when `a` becomes its
    /// predecessor: those whose address lies on `(a, did]`.
    pub open spec fn split_keep(s: Seq<VirtualNode>, a: Did, me: Did, k: int) -> Seq<VirtualNode>
        decreases k,
    {
        if k <= 0 {
            Seq::empty()
        } else if in_oc(s[k - 1].did.value(), a.value(), me.value()) {
            Self::split_keep(s, a, me, k - 1).push(s[k - 1])
        } else {
            Self::split_keep(s, a, me, k - 1)
        }
    }

    /// The stored records that leave: the complement of `split_keep`.
    pub open spec fn split_move(s: Seq<VirtualNode>, a: Did, me: Did, k: int) -> Seq<VirtualNode>
        decreases k,
    {
        if k <= 0 {
            Seq::empty()
        } else if in_oc(s[k - 1].did.value(), a.value(), me.value()) {
            Self::split_move(s, a, me, k - 1)
        } else {
            Self::split_move(s, a, me, k - 1).push(s[k - 1])
        }
    }

    /// Both halves of the split keep membership and relative order.
    proof fn lemma_split(s: Seq<VirtualNode>, a: Did, me: Did, k: int)
        requires
            0 <= k <= s.len(),
        ensures
            forall|m: int|
                0 <= m < Self::split_keep(s, a, me, k).len() ==> exists|j: int|
                    0 <= j < k && (#[trigger] Self::split_keep(s, a, me, k)[m]) == s[j],
            forall|m: int|
                0 <= m < Self::split_keep(s, a, me, k).len() ==> in_oc(
                    (#[trigger] Self::split_keep(s, a, me, k)[m]).did.value(),
                    a.value(),
                    me.value(),
                ),
            forall|m1: int, m2: int|
                0 <= m1 < m2 < Self::split_keep(s, a, me, k).len() ==> exists|j1: int, j2: int|
                    0 <= j1 < j2 < k && (#[trigger] Self::split_keep(s, a, me, k)[m1]) == s[j1]
                        && (#[trigger] Self::split_keep(s, a, me, k)[m2]) == s[j2],
            forall|m: int|
                0 <= m < Self::split_move(s, a, me, k).len() ==> exists|j: int|
                    0 <= j < k && (#[trigger] Self::split_move(s, a, me, k)[m]) == s[j],
            forall|m: int|
                0 <= m < Self::split_move(s, a, me, k).len() ==> !in_oc(
                    (#[trigger] Self::split_move(s, a, me, k)[m]).did.value(),
                    a.value(),
                    me.value(),
                ),
            forall|m1: int, m2: int|
                0 <= m1 < m2 < Self::split_move(s, a, me, k).len() ==> exists|j1: int, j2: int|
                    0 <= j1 < j2 < k && (#[trigger] Self::split_move(s, a, me, k)[m1]) == s[j1]
                        && (#[trigger] Self::split_move(s, a, me, k)[m2]) == s[j2],
        decreases k,
    {
        if k > 0 {
            Self::lemma_split(s, a, me, k - 1);
            let pk = Self::split_keep(s, a, me, k - 1);
            let ck = Self::split_keep(s, a, me, k);
            let pm = Self::split_move(s, a, me, k - 1);
            let cm = Self::split_move(s, a, me, k);
            assert forall|m: int| 0 <= m < ck.len() implies (exists|j: int|
                0 <= j < k && (#[trigger] ck[m]) == s[j]) && in_oc(
                ck[m].did.value(),
                a.value(),
                me.value(),
            ) by {
                if m < pk.len() {
                    assert(ck[m] == pk[m]);
                    let j = choose|j: int| 0 <= j < k - 1 && pk[m] == s[j];
                    assert(ck[m] == s[j]);
                } else {
                    assert(ck[m] == s[k - 1]);
                }
            }
            assert forall|m: int| 0 <= m < cm.len() implies (exists|j: int|
                0 <= j < k && (#[trigger] cm[m]) == s[j]) && !in_oc(
                cm[m].did.value(),
                a.value(),
                me.value(),
            ) by {
                if m < pm.len() {
                    assert(cm[m] == pm[m]);
                    let j = choose|j: int| 0 <= j < k - 1 && pm[m] == s[j];
                    assert(cm[m] == s[j]);
                } else {
                    assert(cm[m] == s[k - 1]);
                }
            }
            assert forall|m1: int, m2: int| 0 <= m1 < m2 < ck.len() implies exists|
                j1: int,
                j2: int,
            |
                0 <= j1 < j2 < k && (#[trigger] ck[m1]) == s[j1]
                    && (#[trigger] ck[m2]) == s[j2] by {
                if m2 < pk.len() {
                    assert(ck[m1] == pk[m1] && ck[m2] == pk[m2]);
                    let (j1, j2) = choose|j1: int, j2: int|
                        0 <= j1 < j2 < k - 1 && pk[m1] == s[j1] && pk[m2] == s[j2];
                    assert(ck[m1] == s[j1] && ck[m2] == s[j2]);
                } else {
                    assert(ck[m1] == pk[m1] && ck[m2] == s[k - 1]);
                    let j1 = choose|j: int| 0 <= j < k - 1 && pk[m1] == s[j];
                    assert(ck[m1] == s[j1] && ck[m2] == s[k - 1]);
                }
            }
            assert forall|m1: int, m2: int| 0 <= m1 < m2 < cm.len() implies exists|
                j1: int,
                j2: int,
            |
                0 <= j1 < j2 < k && (#[trigger] cm[m1]) == s[j1]
                    && (#[trigger] cm[m2]) == s[j2] by {
                if m2 < pm.len() {
                    assert(cm[m1] == pm[m1] && cm[m2] == pm[m2]);
                    let (j1, j2) = choose|j1: int, j2: int|
                        0 <= j1 < j2 < k - 1 && pm[m1] == s[j1] && pm[m2] == s[j2];
                    assert(cm[m1] == s[j1] && cm[m2] == s[j2]);
                } else {
                    assert(cm[m1] == pm[m1] && cm[m2] == s[k - 1]);
                    let j1 = choose|j: int| 0 <= j < k - 1 && pm[m1] == s[j];
                    assert(cm[m1] == s[j1] && cm[m2] == s[k - 1]);
                }
            }
        }
    }

    /// Splits off every stored record this node no longer owns once `a`
    /// stands as its predecessor, and returns them for transfer.
    pub fn take_vnodes_not_in(&mut self, a: &Did) -> (moved: Vec<VirtualNode>)
        requires
            old(self).wf(),
        ensures
            final(self).wf(),
            *final(self) == (PeerRing { store: final(self).store, ..*old(self) }),
            final(self).store@ == Self::split_keep(
                old(self).store@,
                *a,
                old(self).did,
                old(self).store@.len() as int,
            ),
            moved@ == Self::split_move(
                old(self).store@,
                *a,
                old(self).did,
                old(self).store@.len() as int,
            ),
            forall|m: int|
                0 <= m < moved@.len() ==> !in_oc(
                    (#[trigger] moved@[m]).did.value(),
                    a.value(),
                    old(self).did.value(),
                ),
    {
        let ghost pre = *self;
        let me = self.did;
        let ghost orig = self.store@;
        let n = self.store.len();
        let mut kept: Vec<VirtualNode> = Vec::new();
        let mut moved: Vec<VirtualNode> = Vec::new();
        let mut k: usize = 0;
        while k < n
            invariant
                k <= n,
                n == orig.len(),
                me == pre.did,
                *self == (PeerRing { store: self.store, ..pre }),
                self.store@ =~= orig.skip(k as int),
                kept@ == Self::split_keep(orig, *a, me, k as int),
                moved@ == Self::split_move(orig, *a, me, k as int),
            decreases n - k,
        {
            let v = self.store.remove(0);
            proof {
                assert(v == orig[k as int]);
                assert(self.store@ =~= orig.skip(k + 1));
            }
            if v.did.in_range(a, &me) {
                kept.push(v);
                proof {
                    assert(kept@ =~= Self::split_keep(orig, *a, me, k + 1));
                }
            } else {
                moved.push(v);
                proof {
                    assert(moved@ =~= Self::split_move(orig, *a, me, k + 1));
                }
            }
            k = k + 1;
        }
        proof {
            Self::lemma_split(pre.store@, *a, me, n as int);
            let ks = Self::split_keep(pre.store@, *a, me, n as int);
            assert forall|m1: int, m2: int| 0 <= m1 < m2 < ks.len() implies (
            #[trigger] ks[m1]).did != (#[trigger] ks[m2]).did by {
                let (j1, j2) = choose|j1: int, j2: int|
                    0 <= j1 < j2 < n && ks[m1] == pre.store@[j1] && ks[m2] == pre.store@[j2];
                assert(pre.store@[j1].did != pre.store@[j2].did);
            }
            assert forall|m1: int, m2: int|
                0 <= m1 < ks.len() && 0 <= m2 < pre.cache@.len() implies (
            #[trigger] ks[m1]).did != (#[trigger] pre.cache@[m2]).did by {
                let j = choose|j: int| 0 <= j < n && ks[m1] == pre.store@[j];
                assert(pre.store@[j].did != pre.cache@[m2].did);
            }
        }
        self.store = kept;
        moved
    }

    /// The finger index the next maintenance round refreshes; advances
    /// round robin.
    pub fn take_fix_index(&mut self) -> (r: usize)
        requires
            old(self).wf(),
        ensures
            final(self).wf(),
            *final(self) == (PeerRing { fix_index: final(self).fix_index, ..*old(self) }),
            r == old(self).fix_index,
            r < 160,
            final(self).fix_index == (old(self).fix_index + 1) % 160,
    {
        let r = self.fix_index;
        self.fix_index = (self.fix_index + 1) % 160;
        r
    }
}

/// The finger scan reads only the identity, the finger table and the
/// successor list: two states equal there scan alike.
pub proof fn lemma_cpn_frame(a: PeerRing, b: PeerRing, id: int, i: int)
    requires
        a.did == b.did,
        a.finger@ == b.finger@,
        a.successors@ == b.successors@,
    ensures
        a.cpn_from(id, i) == b.cpn_from(id, i),
    decreases i + 1,
{
    if i >= 0 {
        lemma_cpn_frame(a, b, id, i - 1);
    }
}

} // verus!
