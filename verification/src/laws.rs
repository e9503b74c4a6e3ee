//! Ring-wide properties of the library, stated and proved over the spec
//! functions the public contracts use.

use vstd::prelude::*;

use crate::chord::PeerRing;
use crate::chord::model_has;
use crate::chord::model_index;
use crate::chord::put_model;
use crate::codec::Chunk;
use crate::codec::assembled;
use crate::codec::assembled_prefix;
use crate::codec::body_at;
use crate::codec::chunks_wf;
use crate::codec::spec_chunk_body;
use crate::codec::spec_n_chunks;
use crate::did::Did;
use crate::did::in_oc;
use crate::did::in_oo;
use crate::did::lemma_dist_shape;
use crate::did::lemma_in_oc_dist;
use crate::did::ring_dist;
use crate::did::ring_size;
use crate::payload::MessagePayload;
use crate::payload::payload_sig_ok;
use crate::payload::payload_verifies;
use crate::vnode::VNodeModel;

verus! {

/// Distances along the ring compose: walking `a` to `x` to `b` covers
/// the arc `a` to `b`, possibly once around.
pub proof fn lemma_dist_chain(a: int, x: int, b: int)
    requires
        0 <= a < ring_size(),
        0 <= x < ring_size(),
        0 <= b < ring_size(),
    ensures
        ring_dist(a, x) + ring_dist(x, b) == ring_dist(a, b) || ring_dist(a, x) + ring_dist(x, b)
            == ring_dist(a, b) + ring_size(),
{
    lemma_dist_shape(a, x);
    lemma_dist_shape(x, b);
    lemma_dist_shape(a, b);
}

/// No live identifier sits strictly between `a` and `b` clockwise.
pub open spec fn no_node_in_open(dids: Seq<Did>, a: Did, b: Did) -> bool {
    forall|i: int|
        0 <= i < dids.len() ==> !in_oo((#[trigger] dids[i]).value(), a.value(), b.value())
}

/// Lookup correctness, local case: when a node's top successor is its
/// true clockwise neighbor among the live set and the key falls on the
/// arc between them, that successor owns the key — no live node is
/// closer at-or-after the key.
pub proof fn lemma_found_is_owner(n: Did, succ: Did, dids: Seq<Did>, k: Did)
    requires
        no_node_in_open(dids, n, succ),
        in_oc(k.value(), n.value(), succ.value()),
    ensures
        forall|i: int|
            0 <= i < dids.len() ==> ring_dist(k.value(), succ.value()) <= ring_dist(
                k.value(),
                (#[trigger] dids[i]).value(),
            ),
{
    crate::did::lemma_limb_order(n, succ);
    crate::did::lemma_limb_order(succ, n);
    crate::did::lemma_limb_order(k, n);
    let nv = n.value();
    let sv = succ.value();
    let kv = k.value();
    assert forall|i: int| 0 <= i < dids.len() implies ring_dist(kv, sv) <= ring_dist(
        kv,
        (#[trigger] dids[i]).value(),
    ) by {
        let d = dids[i];
        crate::did::lemma_limb_order(d, n);
        let dv = d.value();
        lemma_in_oc_dist(kv, nv, sv);
        lemma_in_oc_dist(dv, nv, sv);
        lemma_dist_shape(nv, kv);
        lemma_dist_shape(nv, sv);
        lemma_dist_shape(nv, dv);
        lemma_dist_shape(kv, sv);
        lemma_dist_shape(kv, dv);
        if nv == sv {
            assert(!in_oo(dv, nv, sv));
            assert(dv == nv);
        } else {
            if ring_dist(kv, dv) < ring_dist(kv, sv) {
                lemma_dist_chain(nv, kv, sv);
                lemma_dist_chain(nv, kv, dv);
                assert(in_oo(dv, nv, sv));
                assert(false);
            }
        }
    }
}

/// Lookup correctness, remote case: for a key neither this node nor its
/// top successor covers, the closest preceding node lies strictly
/// between this node and the key, so every forwarding hop strictly
/// shrinks the clockwise distance to the key.
pub proof fn lemma_lookup_progress(n: PeerRing, k: Did)
    requires
        n.wf(),
        !in_oc(k.value(), n.did.value(), n.spec_succ_or_self().value()),
        k.value() != n.did.value(),
    ensures
        n.spec_cpn(k.value()) == n.spec_succ_or_self() || (in_oo(
            n.spec_cpn(k.value()).value(),
            n.did.value(),
            k.value(),
        ) && ring_dist(n.spec_cpn(k.value()).value(), k.value()) < ring_dist(
            n.did.value(),
            k.value(),
        )),
{
    lemma_cpn_in_arc(n, k, 159);
    let r = n.spec_cpn(k.value());
    if r != n.spec_succ_or_self() || in_oo(r.value(), n.did.value(), k.value()) {
        if in_oo(r.value(), n.did.value(), k.value()) {
            crate::did::lemma_limb_order(n.did, k);
            crate::did::lemma_limb_order(k, n.did);
            crate::did::lemma_limb_order(r, n.did);
            lemma_in_oc_dist(r.value(), n.did.value(), k.value());
            lemma_dist_shape(n.did.value(), r.value());
            lemma_dist_shape(n.did.value(), k.value());
            lemma_dist_shape(r.value(), k.value());
            lemma_dist_chain(n.did.value(), r.value(), k.value());
        }
    }
}

/// Every finger-scan outcome is the top successor or lies on the open
/// arc between the node and the key.
proof fn lemma_cpn_in_arc(n: PeerRing, k: Did, i: int)
    requires
        n.wf(),
        i < 160,
    ensures
        n.cpn_from(k.value(), i) == n.spec_succ_or_self() || in_oo(
            n.cpn_from(k.value(), i).value(),
            n.did.value(),
            k.value(),
        ),
    decreases i + 1,
{
    if i >= 0 {
        lemma_cpn_in_arc(n, k, i - 1);
    }
}

/// Predecessor convergence, local step: when `a` is the true
/// counter-clockwise neighbor of node `b` among the live set, and `b`'s
/// present predecessor is live, a notify by `a` leaves `a` standing as
/// `b`'s predecessor.
pub proof fn lemma_notify_adopts_neighbor(b: PeerRing, a: Did, dids: Seq<Did>)
    requires
        b.wf(),
        a != b.did,
        no_node_in_open(dids, a, b.did),
        b.predecessor matches Some(q) ==> dids.contains(q),
    ensures
        b.notify_sets(a) || b.predecessor == Some(a),
{
    match b.predecessor {
        None => {},
        Some(q) => {
            if q != a {
                let j = choose|j: int| 0 <= j < dids.len() && dids[j] == q;
                assert(!in_oo(dids[j].value(), a.value(), b.did.value()));
                crate::did::lemma_limb_order(a, b.did);
                crate::did::lemma_limb_order(b.did, a);
                crate::did::lemma_limb_order(q, a);
                lemma_in_oc_dist(q.value(), a.value(), b.did.value());
                lemma_in_oc_dist(a.value(), q.value(), b.did.value());
                lemma_dist_shape(a.value(), q.value());
                lemma_dist_shape(a.value(), b.did.value());
                lemma_dist_shape(q.value(), a.value());
                lemma_dist_shape(q.value(), b.did.value());
                if !in_oo(a.value(), q.value(), b.did.value()) {
                    lemma_dist_chain(q.value(), a.value(), b.did.value());
                    lemma_dist_chain(a.value(), q.value(), b.did.value());
                    crate::did::lemma_dist0_inj(a.value(), q.value(), b.did.value());
                    assert(false);
                }
            }
        },
    }
}

/// Predecessor convergence through the dispatcher: when a node handles a
/// notify sent by its true counter-clockwise neighbor among the live
/// set, and its standing predecessor is live, the neighbor stands as its
/// predecessor afterwards.
pub proof fn lemma_dispatch_notify_adopts_neighbor(
    pre: crate::handlers::MessageHandler,
    post: crate::handlers::MessageHandler,
    payload: MessagePayload,
    ev: Seq<crate::handlers::MessageHandlerEvent>,
    a: Did,
    dids: Seq<Did>,
)
    requires
        pre.wf(),
        crate::handlers::dispatch_events(
            pre,
            post,
            payload.data,
            payload.relay.destination,
            payload.addr,
            ev,
        ),
        payload.data == (crate::message::Message::NotifyPredecessorSend { did: a }),
        a != pre.dht.did,
        no_node_in_open(dids, a, pre.dht.did),
        pre.dht.predecessor matches Some(q) ==> dids.contains(q),
    ensures
        post.dht.predecessor == Some(a),
{
    lemma_notify_adopts_neighbor(pre.dht, a, dids);
}

/// Predecessor convergence, fixed point: once a node's predecessor is
/// its true counter-clockwise neighbor, further notifies by that
/// neighbor change nothing.
pub proof fn lemma_converged_notify_stable(b: PeerRing, a: Did)
    requires
        b.wf(),
        a != b.did,
        b.predecessor == Some(a),
    ensures
        !b.notify_sets(a),
{
    crate::did::lemma_limb_order(a, b.did);
}

/// Storage round trip: after an overwrite lands in a store, the store
/// holds exactly the written record under its address.
pub proof fn lemma_store_then_find(s: Seq<VNodeModel>, m: VNodeModel)
    requires
        forall|i: int, j: int|
            0 <= i < j < s.len() ==> (#[trigger] s[i]).did != (#[trigger] s[j]).did,
    ensures
        model_has(put_model(s, m), m.did),
        put_model(s, m)[model_index(put_model(s, m), m.did)] == m,
{
    let t = put_model(s, m);
    if model_has(s, m.did) {
        let i = model_index(s, m.did);
        assert(t[i].did == m.did);
        assert(model_has(t, m.did));
        let j = model_index(t, m.did);
        if j != i {
            assert(t[j] == s[j]);
            assert(false);
        }
    } else {
        assert(t[s.len() as int].did == m.did);
        assert(model_has(t, m.did));
        let j = model_index(t, m.did);
        if j != s.len() {
            assert(t[j] == s[j]);
            assert(s[j].did != m.did) by {
                if s[j].did == m.did {
                    assert(model_has(s, m.did));
                }
            }
            assert(false);
        }
    }
}

/// A put keeps every address already stored, and establishes its own.
proof fn lemma_put_model_keeps(s: Seq<VNodeModel>, m: VNodeModel, vid: Did)
    requires
        model_has(s, vid) || vid == m.did,
    ensures
        model_has(put_model(s, m), vid),
{
    let t = put_model(s, m);
    if model_has(s, m.did) {
        let w = model_index(s, m.did);
        if vid == m.did {
            assert(t[w].did == vid);
        } else {
            let i = choose|i: int| 0 <= i < s.len() && s[i].did == vid;
            assert(t[i].did == vid);
        }
    } else {
        if vid == m.did {
            assert(t[s.len() as int].did == vid);
        } else {
            let i = choose|i: int| 0 <= i < s.len() && s[i].did == vid;
            assert(t[i].did == vid);
        }
    }
}

/// Replication lands: after a replication message is taken in, every
/// delivered record stands in the receiving store under its address.
/// `handle_sync_vnode` guarantees the hypothesis: the store becomes the
/// fold of the delivered records over the old one.
pub proof fn lemma_sync_delivers_all(
    s: Seq<VNodeModel>,
    data: Seq<crate::vnode::VirtualNode>,
    k: int,
    j: int,
)
    requires
        0 <= j < k <= data.len(),
    ensures
        model_has(crate::chord::synced_models(s, data, k), data[j].did),
    decreases k,
{
    if j == k - 1 {
        lemma_put_model_keeps(
            crate::chord::synced_models(s, data, k - 1),
            data[k - 1]@,
            data[k - 1].did,
        );
    } else {
        lemma_sync_delivers_all(s, data, k - 1, j);
        lemma_put_model_keeps(
            crate::chord::synced_models(s, data, k - 1),
            data[k - 1]@,
            data[j].did,
        );
    }
}

/// Envelope verification: a payload whose signature was produced by an
/// authorized session verifies at any time with hops left before the
/// session expires. `send_message` guarantees the hypothesis for every
/// payload it queues.
pub proof fn lemma_envelope_verification(p: MessagePayload, now: u64)
    requires
        payload_sig_ok(p),
        p.ttl > 0,
        now < p.auth.expiry,
    ensures
        payload_verifies(p, now),
{
}

/// Chunk round trip: any reordering of the chunking of `b` is a
/// complete, duplicate-free chunk set that reassembles to `b` exactly.
pub proof fn lemma_chunk_round_trip(b: Seq<u8>, mtu: int, mid: u128, cs: Seq<Chunk>)
    requires
        mtu >= 1,
        b.len() > 0,
        cs.len() == spec_n_chunks(b.len() as int, mtu),
        forall|j: int|
            0 <= j < cs.len() ==> (#[trigger] cs[j]).message_id == mid && cs[j].total == cs.len()
                && cs[j].index < cs.len() && cs[j].body@ == spec_chunk_body(
                b,
                mtu,
                cs[j].index as int,
            ),
        forall|j1: int, j2: int|
            0 <= j1 < j2 < cs.len() ==> (#[trigger] cs[j1]).index != (#[trigger] cs[j2]).index,
    ensures
        chunks_wf(cs),
        assembled(cs) =~= b,
{
    crate::codec::lemma_n_chunks(b.len() as int, mtu);
    assert(cs.len() > 0);
    assert(chunks_wf(cs));
    crate::codec::lemma_chunks_cover(cs);
    lemma_assembled_prefix(b, mtu, cs, cs.len() as int);
    assert(b.take(b.len() as int) =~= b);
}

/// The unshuffled chunking itself satisfies the round trip: what
/// `chunk` produces is well formed and reassembles to its input.
pub proof fn lemma_chunking_round_trip(b: Seq<u8>, mtu: int, mid: u128, cs: Seq<Chunk>)
    requires
        mtu >= 1,
        b.len() > 0,
        crate::codec::is_chunking(cs, b, mtu, mid),
    ensures
        chunks_wf(cs),
        assembled(cs) =~= b,
{
    lemma_chunk_round_trip(b, mtu, mid, cs);
}

/// The first `t` bodies in index order assemble the first `t * mtu`
/// bytes of the message (capped at its length).
proof fn lemma_assembled_prefix(b: Seq<u8>, mtu: int, cs: Seq<Chunk>, t: int)
    requires
        mtu >= 1,
        b.len() > 0,
        cs.len() == spec_n_chunks(b.len() as int, mtu),
        0 <= t <= cs.len(),
        forall|j: int|
            0 <= j < cs.len() ==> (#[trigger] cs[j]).index < cs.len() && cs[j].body@
                == spec_chunk_body(b, mtu, cs[j].index as int),
        forall|j1: int, j2: int|
            0 <= j1 < j2 < cs.len() ==> (#[trigger] cs[j1]).index != (#[trigger] cs[j2]).index,
        forall|idx: int| 0 <= idx < cs.len() ==> #[trigger] crate::codec::has_index(cs, idx),
    ensures
        assembled_prefix(cs, t) =~= b.take(
            if t * mtu <= b.len() {
                t * mtu
            } else {
                b.len() as int
            },
        ),
    decreases t,
{
    crate::codec::lemma_n_chunks(b.len() as int, mtu);
    let n = cs.len() as int;
    if t == 0 {
    } else {
        lemma_assembled_prefix(b, mtu, cs, t - 1);
        assert(crate::codec::has_index(cs, t - 1));
        let j = choose|j: int| 0 <= j < cs.len() && (#[trigger] cs[j]).index == t - 1;
        assert(body_at(cs, t - 1) == cs[j].body@) by {
            let jj = choose|jj: int| 0 <= jj < cs.len() && cs[jj].index == t - 1;
            if jj != j {
                assert(false);
            }
        }
        assert((t - 1) * mtu < b.len()) by {
            vstd::arithmetic::mul::lemma_mul_inequality(t - 1, n - 1, mtu);
            assert((n - 1) * mtu < b.len());
        }
        assert(t * mtu == (t - 1) * mtu + mtu) by (nonlinear_arith);
        let hi = if t * mtu <= b.len() {
            t * mtu
        } else {
            b.len() as int
        };
        let mid = (t - 1) * mtu;
        assert(cs[j].body@ == spec_chunk_body(b, mtu, t - 1));
        assert(spec_chunk_body(b, mtu, t - 1) =~= b.subrange(mid, hi));
        assert(assembled_prefix(cs, t) =~= b.take(mid) + b.subrange(mid, hi));
        assert(b.take(mid) + b.subrange(mid, hi) =~= b.take(hi));
    }
}

/// Ownership transfer on hand-over: every record the owner hands to a
/// new predecessor lies outside the arc the owner keeps, and every
/// record it keeps lies inside.
pub proof fn lemma_transfer_split(s: Seq<crate::vnode::VirtualNode>, a: Did, me: Did)
    ensures
        forall|m: int|
            0 <= m < PeerRing::split_keep(s, a, me, s.len() as int).len() ==> in_oc(
                (#[trigger] PeerRing::split_keep(s, a, me, s.len() as int)[m]).did.value(),
                a.value(),
                me.value(),
            ),
        forall|m: int|
            0 <= m < PeerRing::split_move(s, a, me, s.len() as int).len() ==> !in_oc(
                (#[trigger] PeerRing::split_move(s, a, me, s.len() as int)[m]).did.value(),
                a.value(),
                me.value(),
            ),
    decreases s.len(),
{
    lemma_split_rec(s, a, me, s.len() as int);
}

proof fn lemma_split_rec(s: Seq<crate::vnode::VirtualNode>, a: Did, me: Did, k: int)
    requires
        0 <= k <= s.len(),
    ensures
        forall|m: int|
            0 <= m < PeerRing::split_keep(s, a, me, k).len() ==> in_oc(
                (#[trigger] PeerRing::split_keep(s, a, me, k)[m]).did.value(),
                a.value(),
                me.value(),
            ),
        forall|m: int|
            0 <= m < PeerRing::split_move(s, a, me, k).len() ==> !in_oc(
                (#[trigger] PeerRing::split_move(s, a, me, k)[m]).did.value(),
                a.value(),
                me.value(),
            ),
    decreases k,
{
    if k > 0 {
        lemma_split_rec(s, a, me, k - 1);
        let pk = PeerRing::split_keep(s, a, me, k - 1);
        let ck = PeerRing::split_keep(s, a, me, k);
        let pm = PeerRing::split_move(s, a, me, k - 1);
        let cm = PeerRing::split_move(s, a, me, k);
        assert forall|m: int| 0 <= m < ck.len() implies in_oc(
            (#[trigger] ck[m]).did.value(),
            a.value(),
            me.value(),
        ) by {
            if m < pk.len() {
                assert(ck[m] == pk[m]);
            } else {
                assert(ck[m] == s[k - 1]);
            }
        }
        assert forall|m: int| 0 <= m < cm.len() implies !in_oc(
            (#[trigger] cm[m]).did.value(),
            a.value(),
            me.value(),
        ) by {
            if m < pm.len() {
                assert(cm[m] == pm[m]);
            } else {
                assert(cm[m] == s[k - 1]);
            }
        }
    }
}

} // verus!
