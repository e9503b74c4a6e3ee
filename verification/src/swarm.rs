//! The swarm: transports keyed by peer identity, inbound and outbound
//! payload queues, and the router that drives the handlers.
//!
//! Nothing here performs I/O: sends append to the outbound queue and the
//! caller moves queued payloads between nodes.

use vstd::prelude::*;

use crate::chord::PeerRing;
use crate::chord::PeerRingAction;
use crate::chord::PeerRingRemoteAction;
use crate::chord::has_vid;
use crate::chord::models;
use crate::chord::put_model;
use crate::chord::extend_model;
use crate::chord::touch_model;
use crate::chord::vid_index;
use crate::vnode::VNodeKind;
use crate::vnode::VNodeModel;
use crate::vnode::vnode_did_of;
use crate::codec::Encoded;
use crate::did::Did;
use crate::error::Error;
use crate::handlers::MessageHandler;
use crate::handlers::MessageHandlerEvent;
use crate::message::Message;
use crate::payload::DEFAULT_TTL;
use crate::payload::MessagePayload;
use crate::payload::payload_sig_ok;
use crate::payload::sign_payload;
use crate::payload::verify_payload;
use crate::relay::MessageRelay;
use crate::relay::RelayMethod;
use crate::relay::path_contains;
use crate::session::DelegatedSession;
use crate::vnode::VNodeOperation;
use crate::vnode::VirtualNode;

verus! {

/// The life of one peer connection.
#[derive(Clone, Copy, Debug, PartialEq, Eq, Structural)]
pub enum TransportState {
    /// Created, nothing negotiated yet.
    New,
    /// Handshake under way.
    Connecting,
    /// Data channel open.
    Connected,
    /// Peer went away.
    Disconnected,
    /// Negotiation or connection failed.
    Failed,
    /// Closed on purpose.
    Closed,
}

/// A transport state that no longer carries traffic and may be replaced.
pub open spec fn transport_dead(s: TransportState) -> bool {
    s == TransportState::Disconnected || s == TransportState::Failed || s
        == TransportState::Closed
}

/// Whether a transport table holds an entry for a peer.
pub open spec fn has_t(ts: Seq<(Did, TransportState)>, d: Did) -> bool {
    exists|i: int| 0 <= i < ts.len() && (#[trigger] ts[i]).0 == d
}

/// The position of a peer's entry in a transport table.
pub open spec fn t_index(ts: Seq<(Did, TransportState)>, d: Did) -> int {
    choose|i: int| 0 <= i < ts.len() && (#[trigger] ts[i]).0 == d
}

/// An outbound entry holding a fresh signed SEND from `pre`'s session:
/// body `m`, destination `to`, a one-entry path, and full hop budget.
pub open spec fn queued_send(e: (Did, MessagePayload), pre: Swarm, to: Did, m: Message) -> bool {
    &&& payload_sig_ok(e.1)
    &&& e.1.data == m
    &&& e.1.addr == pre.did
    &&& e.1.ttl == DEFAULT_TTL
    &&& e.1.relay.method == RelayMethod::Send
    &&& e.1.relay.destination == to
    &&& e.1.relay.path@ == seq![pre.did]
    &&& e.1.auth.expiry == pre.spec_session().spec_auth().expiry
}

/// What every storage operation leaves alone: everything but the queue
/// of outbound payloads, the record store and the fetch cache.
pub open spec fn storage_frame(pre: Swarm, post: Swarm) -> bool {
    &&& post.did == pre.did
    &&& post.session == pre.session
    &&& post.inbound@ == pre.inbound@
    &&& post.transports@ == pre.transports@
    &&& post.handler.inbox@ == pre.handler.inbox@
    &&& post.handler.dht == (PeerRing {
        store: post.handler.dht.store,
        cache: post.handler.dht.cache,
        ..pre.handler.dht
    })
}

/// What one stabilization round does: queue a signed notify for the top
/// successor, advance the maintenance index, and refresh one finger —
/// locally when this node can answer the lookup, else by queueing a
/// signed successor lookup towards the closest preceding node.
pub open spec fn stabilize_post(pre: Swarm, post: Swarm) -> bool {
    let dht = pre.handler.dht;
    let startv = dht.finger_start_val(dht.fix_index as int);
    if dht.successors@.len() == 0 {
        post == pre
    } else {
        let succ = dht.successors@[0];
        let local = crate::did::in_oc(startv, dht.did.value(), succ.value());
        &&& post.did == pre.did
        &&& post.session == pre.session
        &&& post.inbound@ == pre.inbound@
        &&& post.transports@ == pre.transports@
        &&& post.handler.inbox@ == pre.handler.inbox@
        &&& post.handler.dht.did == dht.did
        &&& post.handler.dht.fix_index == ((dht.fix_index + 1) % 160) as usize
        &&& post.handler.dht.predecessor == dht.predecessor
        &&& post.handler.dht.store@ == dht.store@
        &&& post.handler.dht.cache@ == dht.cache@
        &&& post.handler.dht.successors@.len() >= 1
        &&& post.handler.dht.successors@[0] == succ
        &&& post.outbound@.len() == pre.outbound@.len() + (if local {
            1int
        } else {
            2int
        })
        &&& post.outbound@.take(pre.outbound@.len() as int) == pre.outbound@
        &&& ({
            let e = post.outbound@[pre.outbound@.len() as int];
            &&& e.0 == pre.spec_route(succ)
            &&& queued_send(e, pre, succ, Message::NotifyPredecessorSend { did: dht.did })
        })
        &&& (local ==> forall|i: int|
            0 <= i < 160 ==> (#[trigger] post.handler.dht.finger@[i]) == dht.finger_joined(
                i,
                succ,
            ))
        &&& (!local ==> post.handler.dht.finger@ == dht.finger@ && post.handler.dht.successors@
            == dht.successors@ && ({
            let e = post.outbound@.last();
            &&& e.0 == pre.spec_route(dht.spec_cpn(startv))
            &&& payload_sig_ok(e.1)
            &&& (e.1.data matches Message::FindSuccessorSend { id, for_init } && id.value()
                == startv && !for_init)
            &&& e.1.addr == pre.did
            &&& e.1.ttl == DEFAULT_TTL
            &&& e.1.relay.method == RelayMethod::Send
            &&& e.1.relay.destination == dht.spec_cpn(startv)
            &&& e.1.relay.path@ == seq![pre.did]
        }))
    }
}

/// One node's networking state.
pub struct Swarm {
    /// This node's identity.
    pub did: Did,
    /// The signing session for outgoing payloads.
    pub session: DelegatedSession,
    /// The ring state and handler inbox.
    pub handler: MessageHandler,
    /// Peer transports and their lifecycle states.
    pub transports: Vec<(Did, TransportState)>,
    /// Payloads received and not yet processed.
    pub inbound: Vec<MessagePayload>,
    /// Payloads to hand to the wire: target peer and payload.
    pub outbound: Vec<(Did, MessagePayload)>,
}

impl Swarm {
    /// The session on this swarm.
    pub open spec fn spec_session(self) -> DelegatedSession {
        self.session
    }

    /// Well-formed swarm state.
    pub open spec fn wf(self) -> bool {
        &&& self.handler.wf()
        &&& self.handler.dht.did == self.did
        &&& self.spec_session().spec_owner() == self.did
        &&& forall|i: int, j: int|
            0 <= i < j < self.transports@.len() ==> (#[trigger] self.transports@[i]).0 != (
            #[trigger] self.transports@[j]).0
    }

    /// A swarm over a fresh ring, identified by the session's owner.
    pub fn new(session: DelegatedSession, max_succ: usize) -> (r: Swarm)
        requires
            max_succ >= 1,
        ensures
            r.wf(),
            r.did == session.spec_owner(),
            r.handler.dht.successors@.len() == 0,
            r.handler.dht.predecessor is None,
            r.handler.inbox@.len() == 0,
            r.inbound@.len() == 0,
            r.outbound@.len() == 0,
            r.transports@.len() == 0,
            r.spec_session() == session,
    {
        let did = session.owner();
        let dht = PeerRing::new(did, max_succ);
        Swarm {
            did,
            session,
            handler: MessageHandler::new(dht),
            transports: Vec::new(),
            inbound: Vec::new(),
            outbound: Vec::new(),
        }
    }

    /// Whether a transport to the peer exists, whatever its state.
    pub fn has_transport(&self, did: &Did) -> (r: bool)
        ensures
            r == has_t(self.transports@, *did),
    {
        let n = self.transports.len();
        let mut i: usize = 0;
        while i < n
            invariant
                i <= n,
                n == self.transports@.len(),
                forall|j: int| 0 <= j < i ==> (#[trigger] self.transports@[j]).0 != *did,
            decreases n - i,
        {
            let d = self.transports[i].0;
            proof {
                crate::did::lemma_limb_order(d, *did);
            }
            if d.hi == did.hi && d.lo == did.lo {
                proof {
                    assert(self.transports@[i as int].0 == *did);
                }
                return true;
            }
            i = i + 1;
        }
        false
    }

    /// Registers a transport under a peer identity. A healthy existing
    /// entry survives and the newcomer is dropped; a dead one is
    /// replaced.
    pub fn register(&mut self, did: Did, state: TransportState)
        requires
            old(self).wf(),
        ensures
            final(self).wf(),
            *final(self) == (Swarm { transports: final(self).transports, ..*old(self) }),
            has_t(final(self).transports@, did),
            !has_t(old(self).transports@, did) ==> final(self).transports@ == old(
                self,
            ).transports@.push((did, state)),
            has_t(old(self).transports@, did) && transport_dead(
                old(self).transports@[t_index(old(self).transports@, did)].1,
            ) ==> final(self).transports@ == old(self).transports@.update(
                t_index(old(self).transports@, did),
                (did, state),
            ),
            has_t(old(self).transports@, did) && !transport_dead(
                old(self).transports@[t_index(old(self).transports@, did)].1,
            ) ==> final(self).transports@ == old(self).transports@,
    {
        let n = self.transports.len();
        let mut i: usize = 0;
        while i < n
            invariant
                i <= n,
                n == self.transports@.len(),
                old(self).wf(),
                *self == (Swarm { transports: self.transports, ..*old(self) }),
                self.transports@ == old(self).transports@,
                forall|j: int| 0 <= j < i ==> (#[trigger] self.transports@[j]).0 != did,
            decreases n - i,
        {
            let d = self.transports[i].0;
            proof {
                crate::did::lemma_limb_order(d, did);
            }
            if d.hi == did.hi && d.lo == did.lo {
                proof {
                    assert(self.transports@[i as int].0 == did);
                    let k = t_index(old(self).transports@, did);
                    assert(old(self).transports@[k].0 == did);
                    if k != i as int {
                        assert(false);
                    }
                }
                let cur = self.transports[i].1;
                let dead = match cur {
                    TransportState::Disconnected => true,
                    TransportState::Failed => true,
                    TransportState::Closed => true,
                    _ => false,
                };
                if dead {
                    self.transports[i] = (did, state);
                    proof {
                        assert(final(self).transports@ =~= old(self).transports@.update(
                            i as int,
                            (did, state),
                        ));
                    }
                }
                return ;
            }
            i = i + 1;
        }
        self.transports.push((did, state));
        proof {
            assert(has_t(final(self).transports@, did)) by {
                assert(final(self).transports@[n as int].0 == did);
            }
        }
    }

    /// Drops the transport to a peer: afterwards no entry for it remains,
    /// and every other entry is kept.
    pub fn close_transport(&mut self, did: &Did)
        requires
            old(self).wf(),
        ensures
            final(self).wf(),
            *final(self) == (Swarm { transports: final(self).transports, ..*old(self) }),
            !has_t(final(self).transports@, *did),
            !has_t(old(self).transports@, *did) ==> final(self).transports@ == old(
                self,
            ).transports@,
            has_t(old(self).transports@, *did) ==> final(self).transports@ == old(
                self,
            ).transports@.remove(t_index(old(self).transports@, *did)),
    {
        let n = self.transports.len();
        let mut i: usize = 0;
        while i < n
            invariant
                i <= n,
                n == self.transports@.len(),
                old(self).wf(),
                *self == (Swarm { transports: self.transports, ..*old(self) }),
                self.transports@ == old(self).transports@,
                forall|j: int| 0 <= j < i ==> (#[trigger] self.transports@[j]).0 != *did,
            decreases n - i,
        {
            let d = self.transports[i].0;
            proof {
                crate::did::lemma_limb_order(d, *did);
            }
            if d.hi == did.hi && d.lo == did.lo {
                proof {
                    assert(self.transports@[i as int].0 == *did);
                    let k = t_index(old(self).transports@, *did);
                    assert(old(self).transports@[k].0 == *did);
                    if k != i as int {
                        assert(false);
                    }
                }
                let ghost pre = self.transports@;
                self.transports.remove(i);
                proof {
                    let now = self.transports@;
                    assert forall|m: int| 0 <= m < now.len() implies (#[trigger] now[m]).0
                        != *did by {
                        if m < i as int {
                            assert(now[m] == pre[m]);
                        } else {
                            assert(now[m] == pre[m + 1]);
                        }
                    }
                    assert forall|m1: int, m2: int| 0 <= m1 < m2 < now.len() implies (
                    #[trigger] now[m1]).0 != (#[trigger] now[m2]).0 by {
                        let o1 = if m1 < i as int {
                            m1
                        } else {
                            m1 + 1
                        };
                        let o2 = if m2 < i as int {
                            m2
                        } else {
                            m2 + 1
                        };
                        assert(now[m1] == pre[o1] && now[m2] == pre[o2]);
                    }
                }
                return ;
            }
            i = i + 1;
        }
    }

    /// Hands a payload received from the wire to this node.
    pub fn push_inbound(&mut self, p: MessagePayload)
        requires
            old(self).wf(),
        ensures
            final(self).wf(),
            *final(self) == (Swarm { inbound: final(self).inbound, ..*old(self) }),
            final(self).inbound@ == old(self).inbound@.push(p),
    {
        self.inbound.push(p);
    }

    /// Takes everything queued for the wire.
    pub fn drain_outbound(&mut self) -> (r: Vec<(Did, MessagePayload)>)
        requires
            old(self).wf(),
        ensures
            final(self).wf(),
            *final(self) == (Swarm { outbound: final(self).outbound, ..*old(self) }),
            final(self).outbound@.len() == 0,
            r@ == old(self).outbound@,
    {
        let mut out: Vec<(Did, MessagePayload)> = Vec::new();
        core::mem::swap(&mut out, &mut self.outbound);
        out
    }

    /// Where a payload for `to` leaves this node: the direct transport
    /// when one exists, else the closest preceding node for `to`.
    pub open spec fn spec_route(self, to: Did) -> Did {
        if exists|i: int| 0 <= i < self.transports@.len() && (#[trigger] self.transports@[i]).0 == to {
            to
        } else {
            self.handler.dht.spec_cpn(to.value())
        }
    }

    /// Resolves the outgoing target for a destination.
    fn route(&self, to: &Did) -> (r: Did)
        requires
            self.wf(),
        ensures
            r == self.spec_route(*to),
    {
        if self.has_transport(to) {
            *to
        } else {
            self.handler.dht.closest_preceding_node(to)
        }
    }

    /// Signs a message into a fresh payload and queues it for `to`. The
    /// produced envelope verifies at any time before the session expires.
    pub fn send_message(&mut self, to: Did, msg: Message) -> (r: u128)
        requires
            old(self).wf(),
        ensures
            final(self).wf(),
            *final(self) == (Swarm { outbound: final(self).outbound, ..*old(self) }),
            final(self).outbound@.len() == old(self).outbound@.len() + 1,
            final(self).outbound@.take(old(self).outbound@.len() as int) == old(self).outbound@,
            final(self).outbound@.last().0 == old(self).spec_route(to),
            payload_sig_ok(final(self).outbound@.last().1),
            final(self).outbound@.last().1.tx_id == r,
            final(self).outbound@.last().1.data == msg,
            final(self).outbound@.last().1.addr == old(self).did,
            final(self).outbound@.last().1.ttl == DEFAULT_TTL,
            final(self).outbound@.last().1.relay.method == RelayMethod::Send,
            final(self).outbound@.last().1.relay.destination == to,
            final(self).outbound@.last().1.relay.path@ =~= seq![old(self).did],
            final(self).outbound@.last().1.auth.expiry == old(self).spec_session().spec_auth().expiry,
    {
        let tx_id = crate::crypto::random_u128();
        let relay = MessageRelay::new_send(self.did, to);
        let payload = sign_payload(&self.session, tx_id, msg, relay, DEFAULT_TTL);
        let target = self.route(&to);
        self.outbound.push((target, payload));
        proof {
            assert(final(self).outbound@.take(old(self).outbound@.len() as int) =~= old(self).outbound@);
        }
        tx_id
    }

    /// Builds and queues the REPORT answering the relay of an inbound
    /// SEND, carrying `msg` back along the recorded path.
    fn send_report(&mut self, relay: &MessageRelay, tx_id: u128, msg: Message)
        requires
            old(self).wf(),
            relay.wf(),
            relay.method == RelayMethod::Send,
        ensures
            final(self).wf(),
            *final(self) == (Swarm { outbound: final(self).outbound, ..*old(self) }),
            final(self).outbound@.len() <= old(self).outbound@.len() + 1,
            relay.path@.len() >= 2 ==> final(self).outbound@.len() == old(self).outbound@.len()
                + 1 && final(self).outbound@.last().0 == relay.path@[relay.path@.len() - 2]
                && payload_sig_ok(final(self).outbound@.last().1) && final(self).outbound@.last().1.data == msg && final(self).outbound@.last().1.relay.method
                == RelayMethod::Report && final(self).outbound@.last().1.relay.path@
                == relay.path@ && final(self).outbound@.last().1.relay.path_end_cursor == 0
                && final(self).outbound@.last().1.tx_id == tx_id,
    {
        let report = relay.report();
        let next = match report.report_next_hop() {
            Some(n) => n,
            None => {
                return ;
            },
        };
        let payload = sign_payload(&self.session, tx_id, msg, report, DEFAULT_TTL);
        self.outbound.push((next, payload));
    }

    /// Sets how many nodes, this one included, hold each record this
    /// node stores as an owner.
    pub fn set_redundancy(&mut self, r: u16)
        requires
            old(self).wf(),
        ensures
            final(self).wf(),
            *final(self) == (Swarm { handler: final(self).handler, ..*old(self) }),
            final(self).handler == (MessageHandler { redundancy: r, ..old(self).handler }),
    {
        self.handler.redundancy = r;
    }

    /// Queues a signed replication message for `d`, carrying a copy of
    /// every record this node is authoritative for.
    fn sync_store_to(&mut self, d: Did)
        requires
            old(self).wf(),
        ensures
            final(self).wf(),
            *final(self) == (Swarm { outbound: final(self).outbound, ..*old(self) }),
            final(self).outbound@.len() == old(self).outbound@.len() + 1,
            final(self).outbound@.take(old(self).outbound@.len() as int) == old(self).outbound@,
            ({
                let e = final(self).outbound@.last();
                &&& e.0 == old(self).spec_route(d)
                &&& payload_sig_ok(e.1)
                &&& e.1.addr == old(self).did
                &&& e.1.ttl == DEFAULT_TTL
                &&& e.1.relay.method == RelayMethod::Send
                &&& e.1.relay.destination == d
                &&& e.1.relay.path@ == seq![old(self).did]
                &&& e.1.auth.expiry == old(self).spec_session().spec_auth().expiry
                &&& (e.1.data matches Message::SyncVNodeWithSuccessor { data: recs }
                    && models(recs@) == models(old(self).handler.dht.store@))
            }),
    {
        let mut records: Vec<VirtualNode> = Vec::new();
        let n = self.handler.dht.store.len();
        let mut i: usize = 0;
        while i < n
            invariant
                i <= n,
                n == self.handler.dht.store@.len(),
                *self == *old(self),
                records@.len() == i,
                forall|j: int|
                    0 <= j < i ==> (#[trigger] records@[j])@ == self.handler.dht.store@[j]@,
            decreases n - i,
        {
            records.push(crate::vnode::copy_vnode(&self.handler.dht.store[i]));
            i = i + 1;
        }
        proof {
            assert(models(records@) =~= models(old(self).handler.dht.store@));
        }
        self.send_message(d, Message::SyncVNodeWithSuccessor { data: records });
    }

    /// Applies handler events: queues sends and reports, forwards or
    /// rewrites the context payload, stores records, and keeps transport
    /// bookkeeping. Events the transport layer must act on come back.
    fn apply_events(
        &mut self,
        payload: MessagePayload,
        events: Vec<MessageHandlerEvent>,
    ) -> (r: (Vec<MessageHandlerEvent>, Option<MessagePayload>))
        requires
            old(self).wf(),
            payload.relay.wf(),
        ensures
            final(self).wf(),
            final(self).did == old(self).did,
            final(self).spec_session() == old(self).spec_session(),
            final(self).inbound@ == old(self).inbound@,
            crate::handlers::no_state_events(events@) ==> final(self).handler == old(
                self,
            ).handler,
            (forall|j: int|
                0 <= j < events@.len() ==> (#[trigger] events@[j]) is SyncVNodeWithSuccessor)
                ==> {
                &&& final(self).outbound@.len() == old(self).outbound@.len() + events@.len()
                &&& final(self).outbound@.take(old(self).outbound@.len() as int) == old(
                    self,
                ).outbound@
                &&& forall|j: int|
                    0 <= j < events@.len() ==> ({
                        let e = #[trigger] final(self).outbound@[old(self).outbound@.len() + j];
                        &&& (events@[j] matches MessageHandlerEvent::SyncVNodeWithSuccessor(d)
                            && e.1.relay.destination == d)
                        &&& payload_sig_ok(e.1)
                        &&& (e.1.data is SyncVNodeWithSuccessor)
                    })
            },
            r.1 matches Some(p) ==> p.data == payload.data && p.tx_id == payload.tx_id && p.addr
                == payload.addr,
    {
        let ghost events0 = events@;
        let mut kept: Option<MessagePayload> = Some(payload);
        let mut leftover: Vec<MessageHandlerEvent> = Vec::new();
        let mut events = events;
        let n = events.len();
        let mut i: usize = 0;
        while i < n
            invariant
                i <= n,
                n == events0.len(),
                events@ == events0.skip(i as int),
                self.wf(),
                self.did == old(self).did,
                self.spec_session() == old(self).spec_session(),
                self.inbound@ == old(self).inbound@,
                crate::handlers::no_state_events(events0) ==> self.handler == old(self).handler,
                (forall|j: int|
                    0 <= j < events0.len() ==> (#[trigger] events0[j]) is SyncVNodeWithSuccessor)
                    ==> {
                    &&& self.outbound@.len() == old(self).outbound@.len() + i
                    &&& self.outbound@.take(old(self).outbound@.len() as int) == old(
                        self,
                    ).outbound@
                    &&& forall|j: int|
                        0 <= j < i ==> ({
                            let e = #[trigger] self.outbound@[old(self).outbound@.len() + j];
                            &&& (events0[j] matches
                                MessageHandlerEvent::SyncVNodeWithSuccessor(d)
                                && e.1.relay.destination == d)
                            &&& payload_sig_ok(e.1)
                            &&& (e.1.data is SyncVNodeWithSuccessor)
                        })
                },
                kept matches Some(p) ==> p.data == payload.data && p.tx_id == payload.tx_id
                    && p.addr == payload.addr && p.relay.wf(),
            decreases n - i,
        {
            let ev = events.remove(0);
            proof {
                assert(events0.skip(i as int)[0] == events0[i as int]);
                assert(events@ =~= events0.skip(i + 1));
            }
            match ev {
                MessageHandlerEvent::Connect(d) => {
                    if !(d.hi == self.did.hi && d.lo == self.did.lo) {
                        if !self.has_transport(&d) {
                            self.register(d, TransportState::New);
                            leftover.push(MessageHandlerEvent::Connect(d));
                        }
                    }
                },
                MessageHandlerEvent::Disconnect(d) => {
                    self.close_transport(&d);
                    leftover.push(MessageHandlerEvent::Disconnect(d));
                },
                MessageHandlerEvent::AnswerOffer => {
                    leftover.push(MessageHandlerEvent::AnswerOffer);
                },
                MessageHandlerEvent::AcceptAnswer => {
                    leftover.push(MessageHandlerEvent::AcceptAnswer);
                },
                MessageHandlerEvent::ForwardPayload(next) => {
                    let taken = kept;
                    kept = None;
                    match taken {
                        Some(mut pl) => {
                            if pl.ttl > 1 {
                                pl.ttl = pl.ttl - 1;
                                match next {
                                    Some(d) => {
                                        pl.relay.destination = d;
                                        let target = self.route(&d);
                                        self.outbound.push((target, pl));
                                    },
                                    None => {
                                        match pl.relay.method {
                                            RelayMethod::Send => {
                                                let dest = pl.relay.destination;
                                                let target = self.route(&dest);
                                                self.outbound.push((target, pl));
                                            },
                                            RelayMethod::Report => {
                                                match pl.relay.report_next_hop() {
                                                    Some(nh) => {
                                                        self.outbound.push((nh, pl));
                                                    },
                                                    None => {},
                                                }
                                            },
                                        }
                                    },
                                }
                            }
                        },
                        None => {},
                    }
                },
                MessageHandlerEvent::JoinDHT(d) => {
                    proof {
                        assert(!crate::handlers::no_state_events(events0)) by {
                            assert((events0[i as int]) is JoinDHT);
                        }
                    }
                    self.handler.dht.join(d);
                    if !(d.hi == self.did.hi && d.lo == self.did.lo) {
                        if !self.has_transport(&d) {
                            self.register(d, TransportState::New);
                            leftover.push(MessageHandlerEvent::Connect(d));
                        }
                        let me = self.did;
                        self.send_message(
                            d,
                            Message::FindSuccessorSend { id: me, for_init: true },
                        );
                    }
                },
                MessageHandlerEvent::SendDirectMessage(m, d) => {
                    let tx = crate::crypto::random_u128();
                    let relay = MessageRelay::new_send(self.did, d);
                    let p = sign_payload(&self.session, tx, m, relay, DEFAULT_TTL);
                    self.outbound.push((d, p));
                },
                MessageHandlerEvent::SendMessage(m, d) => {
                    self.send_message(d, m);
                },
                MessageHandlerEvent::SendReportMessage(m) => {
                    let taken = kept;
                    kept = None;
                    match taken {
                        Some(pl) => {
                            match pl.relay.method {
                                RelayMethod::Send => {
                                    self.send_report(&pl.relay, pl.tx_id, m);
                                },
                                RelayMethod::Report => {},
                            }
                            kept = Some(pl);
                        },
                        None => {},
                    }
                },
                MessageHandlerEvent::ResetDestination(d) => {
                    match &mut kept {
                        Some(pl) => {
                            pl.relay.destination = d;
                        },
                        None => {},
                    }
                },
                MessageHandlerEvent::SyncVNodeWithSuccessor(d) => {
                    let ghost mid = *self;
                    self.sync_store_to(d);
                    proof {
                        if forall|j: int|
                            0 <= j < events0.len() ==> (#[trigger] events0[j])
                                is SyncVNodeWithSuccessor {
                            let base = old(self).outbound@.len() as int;
                            assert(self.outbound@.take(base) =~= old(self).outbound@);
                            assert forall|j: int| 0 <= j < i + 1 implies ({
                                let e = #[trigger] self.outbound@[base + j];
                                &&& (events0[j] matches
                                    MessageHandlerEvent::SyncVNodeWithSuccessor(d2)
                                    && e.1.relay.destination == d2)
                                &&& payload_sig_ok(e.1)
                                &&& (e.1.data is SyncVNodeWithSuccessor)
                            }) by {
                                if j < i as int {
                                    assert(self.outbound@.take(mid.outbound@.len() as int)
                                        == mid.outbound@);
                                    assert(self.outbound@[base + j] == self.outbound@.take(
                                        mid.outbound@.len() as int,
                                    )[base + j]);
                                } else {
                                    assert(self.outbound@[base + j] == self.outbound@.last());
                                    assert(events0[j] == MessageHandlerEvent::SyncVNodeWithSuccessor(
                                        d,
                                    ));
                                }
                            }
                        }
                    }
                },
                MessageHandlerEvent::StorageStore(v) => {
                    proof {
                        assert(!crate::handlers::no_state_events(events0)) by {
                            assert((events0[i as int]) is StorageStore);
                        }
                    }
                    self.handler.dht.apply_op(VNodeOperation::Overwrite(v));
                },
            }
            i = i + 1;
        }
        (leftover, kept)
    }

    /// Takes the next inbound payload through the router: verify the
    /// envelope, record the hop on the relay, then dispatch locally or
    /// forward. Returns the payload when it was handled here. Runs with
    /// no validator registered.
    pub fn listen_once(&mut self, now: u64) -> (r: Result<
        Option<(MessagePayload, Vec<MessageHandlerEvent>)>,
        Error,
    >)
        requires
            old(self).wf(),
        ensures
            final(self).wf(),
            final(self).did == old(self).did,
            final(self).spec_session() == old(self).spec_session(),
            old(self).inbound@.len() == 0 ==> (r matches Ok(o) && o is None && *final(self) == *old(self)),
            old(self).inbound@.len() > 0 ==> final(self).inbound@ == old(self).inbound@.drop_first(),
            old(self).inbound@.len() > 0 && !crate::payload::payload_verifies(
                old(self).inbound@[0],
                now,
            ) ==> r is Err,
            old(self).inbound@.len() > 0 && old(self).inbound@[0].ttl == 0 ==> r == Err::<
                Option<(MessagePayload, Vec<MessageHandlerEvent>)>,
                Error,
            >(Error::TtlExhausted),
            old(self).inbound@.len() > 0 && crate::payload::payload_verifies(
                old(self).inbound@[0],
                now,
            ) && old(self).inbound@[0].relay.method == RelayMethod::Send && old(
                self,
            ).inbound@[0].relay.path_end_cursor == 0 && path_contains(
                old(self).inbound@[0].relay.path@,
                old(self).did,
            ) ==> r == Err::<Option<(MessagePayload, Vec<MessageHandlerEvent>)>, Error>(
                Error::RoutingLoop,
            ),
            r is Err ==> final(self).outbound@ == old(self).outbound@ && final(self).handler
                == old(self).handler && final(self).transports@ == old(self).transports@,
            old(self).inbound@.len() > 0 ==> (r matches Ok(o) ==> (o matches Some(q)
                ==> q.0.data == old(self).inbound@[0].data && q.0.tx_id == old(
                self,
            ).inbound@[0].tx_id && q.0.addr == old(self).inbound@[0].addr)),
    {
        self.listen_once_validated(now, None)
    }

    /// Takes the next inbound payload through the router, giving the
    /// embedding's validator its say: for a payload whose envelope
    /// verifies, a rejection reason handed in surfaces as
    /// `InvalidMessage` and the payload is dropped, everything else
    /// untouched.
    pub fn listen_once_validated(&mut self, now: u64, verdict: Option<Vec<u8>>) -> (r: Result<
        Option<(MessagePayload, Vec<MessageHandlerEvent>)>,
        Error,
    >)
        requires
            old(self).wf(),
        ensures
            final(self).wf(),
            final(self).did == old(self).did,
            final(self).spec_session() == old(self).spec_session(),
            old(self).inbound@.len() == 0 ==> (r matches Ok(o) && o is None && *final(self) == *old(self)),
            old(self).inbound@.len() > 0 ==> final(self).inbound@ == old(self).inbound@.drop_first(),
            old(self).inbound@.len() > 0 && !crate::payload::payload_verifies(
                old(self).inbound@[0],
                now,
            ) ==> r is Err,
            old(self).inbound@.len() > 0 && old(self).inbound@[0].ttl == 0 ==> r == Err::<
                Option<(MessagePayload, Vec<MessageHandlerEvent>)>,
                Error,
            >(Error::TtlExhausted),
            old(self).inbound@.len() > 0 && crate::payload::payload_verifies(
                old(self).inbound@[0],
                now,
            ) && old(self).inbound@[0].relay.method == RelayMethod::Send && old(
                self,
            ).inbound@[0].relay.path_end_cursor == 0 && path_contains(
                old(self).inbound@[0].relay.path@,
                old(self).did,
            ) && verdict is None ==> r == Err::<
                Option<(MessagePayload, Vec<MessageHandlerEvent>)>,
                Error,
            >(Error::RoutingLoop),
            old(self).inbound@.len() > 0 && crate::payload::payload_verifies(
                old(self).inbound@[0],
                now,
            ) ==> (verdict matches Some(reason) ==> r == Err::<
                Option<(MessagePayload, Vec<MessageHandlerEvent>)>,
                Error,
            >(Error::InvalidMessage(reason))),
            r is Err ==> final(self).outbound@ == old(self).outbound@ && final(self).handler
                == old(self).handler && final(self).transports@ == old(self).transports@,
            old(self).inbound@.len() > 0 ==> (r matches Ok(o) ==> (o matches Some(q)
                ==> q.0.data == old(self).inbound@[0].data && q.0.tx_id == old(
                self,
            ).inbound@[0].tx_id && q.0.addr == old(self).inbound@[0].addr)),
            old(self).inbound@.len() > 0 && crate::payload::payload_verifies(
                old(self).inbound@[0],
                now,
            ) && old(self).inbound@[0].relay.method == RelayMethod::Send && old(
                self,
            ).inbound@[0].relay.path_end_cursor == 0 && !path_contains(
                old(self).inbound@[0].relay.path@,
                old(self).did,
            ) && old(self).inbound@[0].relay.destination != old(self).did && old(
                self,
            ).inbound@[0].ttl > 1 && verdict is None ==> {
                let inb = old(self).inbound@[0];
                &&& r is Ok
                &&& final(self).handler == old(self).handler
                &&& final(self).outbound@.len() == old(self).outbound@.len() + 1
                &&& final(self).outbound@.take(old(self).outbound@.len() as int) == old(
                    self,
                ).outbound@
                &&& ({
                    let e = final(self).outbound@.last();
                    &&& e.0 == old(self).spec_route(inb.relay.destination)
                    &&& e.1.data == inb.data
                    &&& e.1.tx_id == inb.tx_id
                    &&& e.1.addr == inb.addr
                    &&& e.1.sig@ == inb.sig@
                    &&& e.1.auth == inb.auth
                    &&& e.1.ttl == inb.ttl - 1
                    &&& e.1.relay.method == RelayMethod::Send
                    &&& e.1.relay.destination == inb.relay.destination
                    &&& e.1.relay.path@ == inb.relay.path@.push(old(self).did)
                })
            },
            old(self).inbound@.len() > 0 && crate::payload::payload_verifies(
                old(self).inbound@[0],
                now,
            ) && verdict is None && old(self).inbound@[0].relay.destination == old(self).did && (
            old(self).inbound@[0].relay.method == RelayMethod::Send ==> old(
                self,
            ).inbound@[0].relay.path_end_cursor == 0 && !path_contains(
                old(self).inbound@[0].relay.path@,
                old(self).did,
            )) && (old(self).inbound@[0].relay.method == RelayMethod::Report ==> 0 < old(
                self,
            ).inbound@[0].relay.path@.len() && old(self).inbound@[0].relay.path_end_cursor < old(
                self,
            ).inbound@[0].relay.path@.len()) ==> r is Ok && (exists|ev: Seq<MessageHandlerEvent>|
                crate::handlers::dispatch_events(
                    old(self).handler,
                    final(self).handler,
                    old(self).inbound@[0].data,
                    old(self).inbound@[0].relay.destination,
                    old(self).inbound@[0].addr,
                    ev,
                )),
            old(self).inbound@.len() > 0 && crate::payload::payload_verifies(
                old(self).inbound@[0],
                now,
            ) && verdict is None && old(self).inbound@[0].relay.method == RelayMethod::Report
                && old(self).inbound@[0].relay.destination != old(self).did && old(
                self,
            ).inbound@[0].ttl > 1 && 0 < old(self).inbound@[0].relay.path@.len() && old(
                self,
            ).inbound@[0].relay.path_end_cursor + 1 < old(self).inbound@[0].relay.path@.len()
                && old(self).inbound@[0].relay.path@.len() - 2 - old(
                self,
            ).inbound@[0].relay.path_end_cursor >= 1 ==> {
                let inb = old(self).inbound@[0];
                &&& r == Ok::<Option<(MessagePayload, Vec<MessageHandlerEvent>)>, Error>(None)
                &&& final(self).handler == old(self).handler
                &&& final(self).outbound@.len() == old(self).outbound@.len() + 1
                &&& final(self).outbound@.take(old(self).outbound@.len() as int) == old(
                    self,
                ).outbound@
                &&& ({
                    let e = final(self).outbound@.last();
                    &&& e.0 == inb.relay.path@[inb.relay.path@.len() - 3
                        - inb.relay.path_end_cursor]
                    &&& e.1.data == inb.data
                    &&& e.1.tx_id == inb.tx_id
                    &&& e.1.addr == inb.addr
                    &&& e.1.sig@ == inb.sig@
                    &&& e.1.auth == inb.auth
                    &&& e.1.ttl == inb.ttl - 1
                    &&& e.1.relay.method == RelayMethod::Report
                    &&& e.1.relay.destination == inb.relay.destination
                    &&& e.1.relay.path@ == inb.relay.path@
                    &&& e.1.relay.path_end_cursor == inb.relay.path_end_cursor + 1
                })
            },
    {
        if self.inbound.len() == 0 {
            return Ok(None);
        }
        let mut payload = self.inbound.remove(0);
        if !verify_payload(&payload, now) {
            if payload.ttl == 0 {
                return Err(Error::TtlExhausted);
            }
            if now >= payload.auth.expiry {
                return Err(Error::SessionExpired);
            }
            return Err(Error::InvalidSignature);
        }
        match verdict {
            Some(reason) => {
                return Err(Error::InvalidMessage(reason));
            },
            None => {},
        }
        let me = self.did;
        match payload.relay.method {
            RelayMethod::Send => {
                if payload.relay.path_end_cursor != 0 {
                    return Err(Error::DecodeError);
                }
                match payload.relay.forward_step(me, None) {
                    Err(_) => {
                        return Err(Error::RoutingLoop);
                    },
                    Ok(_) => {},
                }
            },
            RelayMethod::Report => {
                let plen = payload.relay.path.len();
                if plen == 0 || payload.relay.path_end_cursor >= plen {
                    return Err(Error::DecodeError);
                }
                if payload.relay.path_end_cursor + 1 < plen {
                    payload.relay.report_step();
                }
            },
        }
        let at_destination = payload.relay.destination.hi == me.hi
            && payload.relay.destination.lo == me.lo;
        proof {
            crate::did::lemma_limb_order(payload.relay.destination, me);
        }
        if at_destination {
            let ghost pre_h = self.handler;
            let events = match self.handler.handle_message(&payload) {
                Ok(evs) => evs,
                Err(e) => {
                    return Err(e);
                },
            };
            let ghost ev0 = events@;
            let ghost mid_h = self.handler;
            proof {
                crate::handlers::lemma_dispatch_events_kinds(
                    pre_h,
                    mid_h,
                    payload.data,
                    payload.relay.destination,
                    payload.addr,
                    ev0,
                );
            }
            let (leftover, kept) = self.apply_events(payload, events);
            proof {
                assert(self.handler == mid_h);
            }
            match kept {
                Some(p) => Ok(Some((p, leftover))),
                None => Ok(None),
            }
        } else {
            if payload.ttl <= 1 {
                return Err(Error::TtlExhausted);
            }
            payload.ttl = payload.ttl - 1;
            match payload.relay.method {
                RelayMethod::Send => {
                    let dest = payload.relay.destination;
                    let target = self.route(&dest);
                    self.outbound.push((target, payload));
                },
                RelayMethod::Report => {
                    match payload.relay.report_next_hop() {
                        Some(nh) => {
                            self.outbound.push((nh, payload));
                        },
                        None => {
                            return Err(Error::RoutingLoop);
                        },
                    }
                },
            }
            Ok(None)
        }
    }

    /// What the swarm does when a transport to `peer` opens: records it,
    /// learns the peer, and asks it where this node belongs on the ring
    /// by queueing a signed successor lookup straight to the peer.
    pub fn on_transport_connected(&mut self, peer: Did)
        requires
            old(self).wf(),
        ensures
            final(self).wf(),
            final(self).did == old(self).did,
            final(self).spec_session() == old(self).spec_session(),
            final(self).inbound@ == old(self).inbound@,
            final(self).handler.inbox@ == old(self).handler.inbox@,
            has_t(final(self).transports@, peer),
            !has_t(old(self).transports@, peer) ==> final(self).transports@ == old(
                self,
            ).transports@.push((peer, TransportState::Connected)),
            has_t(old(self).transports@, peer) && transport_dead(
                old(self).transports@[t_index(old(self).transports@, peer)].1,
            ) ==> final(self).transports@ == old(self).transports@.update(
                t_index(old(self).transports@, peer),
                (peer, TransportState::Connected),
            ),
            has_t(old(self).transports@, peer) && !transport_dead(
                old(self).transports@[t_index(old(self).transports@, peer)].1,
            ) ==> final(self).transports@ == old(self).transports@,
            peer == old(self).did ==> final(self).outbound@ == old(self).outbound@
                && final(self).handler == old(self).handler,
            peer != old(self).did ==> {
                &&& final(self).handler.dht.predecessor == old(self).handler.dht.predecessor
                &&& final(self).handler.dht.store@ == old(self).handler.dht.store@
                &&& final(self).handler.dht.cache@ == old(self).handler.dht.cache@
                &&& forall|i: int|
                    0 <= i < 160 ==> (#[trigger] final(self).handler.dht.finger@[i]) == old(
                        self,
                    ).handler.dht.finger_joined(i, peer)
                &&& final(self).handler.dht.successors@.len() >= 1
                &&& final(self).handler.dht.successors@[0] == crate::chord::succ_head_after(
                    old(self).handler.dht.successors@,
                    old(self).did,
                    peer,
                )
                &&& final(self).outbound@.len() == old(self).outbound@.len() + 1
                &&& final(self).outbound@.take(old(self).outbound@.len() as int) == old(
                    self,
                ).outbound@
                &&& final(self).outbound@.last().0 == peer
                &&& queued_send(
                    final(self).outbound@.last(),
                    *old(self),
                    peer,
                    Message::FindSuccessorSend { id: old(self).did, for_init: true },
                )
            },
    {
        self.register(peer, TransportState::Connected);
        if !(peer.hi == self.did.hi && peer.lo == self.did.lo) {
            self.handler.dht.join(peer);
            let me = self.did;
            let ghost mid = *self;
            self.send_message(peer, Message::FindSuccessorSend { id: me, for_init: true });
            proof {
                assert(mid.spec_route(peer) == peer) by {
                    assert(has_t(mid.transports@, peer));
                }
                assert(self.outbound@.take(old(self).outbound@.len() as int) =~= old(
                    self,
                ).outbound@);
            }
        }
        proof {
            crate::did::lemma_limb_order(peer, old(self).did);
        }
    }

    /// One stabilization round: offer this node as predecessor to its
    /// top successor, and refresh one finger by a round-robin lookup.
    pub fn stabilize(&mut self)
        requires
            old(self).wf(),
        ensures
            final(self).wf(),
            stabilize_post(*old(self), *final(self)),
    {
        if self.handler.dht.successors.len() == 0 {
            return ;
        }
        let succ = self.handler.dht.successors[0];
        let me = self.did;
        let idx = self.handler.dht.fix_index;
        let start = me.ring_add(&Did::pow2(idx));
        let act = self.handler.dht.find_successor(&start);
        self.send_message(succ, Message::NotifyPredecessorSend { did: me });
        let _advanced = self.handler.dht.take_fix_index();
        let ghost mid = *self;
        proof {
            assert(self.outbound@.take(old(self).outbound@.len() as int) =~= old(
                self,
            ).outbound@);
        }
        match act {
            PeerRingAction::SomeDid(s) => {
                proof {
                    assert(s == old(self).handler.dht.successors@[0]);
                }
                self.handler.dht.join(s);
                proof {
                    assert forall|i: int|
                        0 <= i < 160 implies (#[trigger] self.handler.dht.finger@[i]) == old(
                        self,
                    ).handler.dht.finger_joined(i, s) by {
                        assert(self.handler.dht.finger@[i] == mid.handler.dht.finger_joined(
                            i,
                            s,
                        ));
                    }
                }
            },
            PeerRingAction::RemoteAction(next, _) => {
                let ghost pre_send = *self;
                self.send_message(
                    next,
                    Message::FindSuccessorSend { id: start, for_init: false },
                );
                proof {
                    crate::chord::lemma_cpn_frame(
                        pre_send.handler.dht,
                        old(self).handler.dht,
                        next.value(),
                        159,
                    );
                    assert(pre_send.spec_route(next) == old(self).spec_route(next));
                    assert(self.outbound@.take(old(self).outbound@.len() as int) =~= old(
                        self,
                    ).outbound@);
                }
            },
            _ => {
                proof {
                    assert(false);
                }
            },
        }
    }
}

/// Routing reads only the transports, the identity, the finger table and
/// the successor list: two swarms equal there route alike.
proof fn lemma_route_frame_all(a: Swarm, b: Swarm)
    requires
        a.transports@ == b.transports@,
        a.handler.dht.did == b.handler.dht.did,
        a.handler.dht.finger@ == b.handler.dht.finger@,
        a.handler.dht.successors@ == b.handler.dht.successors@,
    ensures
        forall|to: Did| #[trigger] a.spec_route(to) == b.spec_route(to),
{
    assert forall|to: Did| #[trigger] a.spec_route(to) == b.spec_route(to) by {
        crate::chord::lemma_cpn_frame(a.handler.dht, b.handler.dht, to.value(), 159);
    }
}

/// Restates the replication entries of an owned mutation over the state
/// the mutation started from: the queue base and the successor list are
/// those of the caller, and the routes agree.
proof fn lemma_owned_sync_bridge(pre: Swarm, mid: Swarm, post: Swarm, redundant: u16)
    requires
        mid.outbound@ == pre.outbound@,
        mid.transports@ == pre.transports@,
        mid.handler.dht.did == pre.handler.dht.did,
        mid.handler.dht.finger@ == pre.handler.dht.finger@,
        mid.handler.dht.successors@ == pre.handler.dht.successors@,
        post.outbound@.len() == mid.outbound@.len() + crate::handlers::sync_fan(
            redundant,
            mid.handler.dht.successors@.len() as int,
        ),
        post.outbound@.take(mid.outbound@.len() as int) == mid.outbound@,
        forall|j: int|
            0 <= j < crate::handlers::sync_fan(
                redundant,
                mid.handler.dht.successors@.len() as int,
            ) ==> ({
                let e = #[trigger] post.outbound@[mid.outbound@.len() + j];
                &&& e.0 == mid.spec_route(mid.handler.dht.successors@[j])
                &&& payload_sig_ok(e.1)
                &&& e.1.addr == mid.did
                &&& e.1.ttl == DEFAULT_TTL
                &&& e.1.relay.method == RelayMethod::Send
                &&& e.1.relay.destination == mid.handler.dht.successors@[j]
                &&& e.1.relay.path@ == seq![mid.did]
                &&& e.1.auth.expiry == mid.spec_session().spec_auth().expiry
                &&& (e.1.data matches Message::SyncVNodeWithSuccessor { data: recs } && models(
                    recs@,
                ) == models(mid.handler.dht.store@))
            }),
        mid.did == pre.did,
        mid.session == pre.session,
    ensures
        post.outbound@.len() == pre.outbound@.len() + crate::handlers::sync_fan(
            redundant,
            pre.handler.dht.successors@.len() as int,
        ),
        post.outbound@.take(pre.outbound@.len() as int) == pre.outbound@,
        forall|j: int|
            0 <= j < crate::handlers::sync_fan(
                redundant,
                pre.handler.dht.successors@.len() as int,
            ) ==> ({
                let e = #[trigger] post.outbound@[pre.outbound@.len() + j];
                &&& e.0 == pre.spec_route(pre.handler.dht.successors@[j])
                &&& payload_sig_ok(e.1)
                &&& e.1.addr == pre.did
                &&& e.1.ttl == DEFAULT_TTL
                &&& e.1.relay.method == RelayMethod::Send
                &&& e.1.relay.destination == pre.handler.dht.successors@[j]
                &&& e.1.relay.path@ == seq![pre.did]
                &&& e.1.auth.expiry == pre.spec_session().spec_auth().expiry
                &&& (e.1.data matches Message::SyncVNodeWithSuccessor { data: recs } && models(
                    recs@,
                ) == models(mid.handler.dht.store@))
            }),
{
    lemma_route_frame_all(mid, pre);
    let fan = crate::handlers::sync_fan(redundant, pre.handler.dht.successors@.len() as int);
    assert forall|j: int| 0 <= j < fan implies ({
        let e = #[trigger] post.outbound@[pre.outbound@.len() + j];
        &&& e.0 == pre.spec_route(pre.handler.dht.successors@[j])
        &&& payload_sig_ok(e.1)
        &&& e.1.addr == pre.did
        &&& e.1.ttl == DEFAULT_TTL
        &&& e.1.relay.method == RelayMethod::Send
        &&& e.1.relay.destination == pre.handler.dht.successors@[j]
        &&& e.1.relay.path@ == seq![pre.did]
        &&& e.1.auth.expiry == pre.spec_session().spec_auth().expiry
        &&& (e.1.data matches Message::SyncVNodeWithSuccessor { data: recs } && models(recs@)
            == models(mid.handler.dht.store@))
    }) by {
        assert(post.outbound@[pre.outbound@.len() + j] == post.outbound@[mid.outbound@.len()
            + j]);
    }
}

/// Restates the queued remote operations over the state the mutation
/// started from, which the routing left untouched.
proof fn lemma_remote_ops_bridge(
    pre: Swarm,
    mid: Swarm,
    post: Swarm,
    ps: Seq<(Did, PeerRingRemoteAction)>,
)
    requires
        mid == pre,
        post.outbound@.len() == mid.outbound@.len() + ps.len(),
        post.outbound@.take(mid.outbound@.len() as int) == mid.outbound@,
        forall|j: int|
            0 <= j < ps.len() ==> ({
                let e = #[trigger] post.outbound@[mid.outbound@.len() + j];
                &&& e.0 == mid.spec_route(ps[j].0)
                &&& payload_sig_ok(e.1)
                &&& e.1.addr == mid.did
                &&& e.1.ttl == DEFAULT_TTL
                &&& e.1.relay.method == RelayMethod::Send
                &&& e.1.relay.destination == ps[j].0
                &&& e.1.relay.path@ == seq![mid.did]
                &&& e.1.auth.expiry == mid.spec_session().spec_auth().expiry
                &&& (ps[j].1 matches PeerRingRemoteAction::FindVNodeForOperate(o) && e.1.data
                    == Message::OperateVNode(o))
            }),
    ensures
        post.outbound@.len() == pre.outbound@.len() + ps.len(),
        post.outbound@.take(pre.outbound@.len() as int) == pre.outbound@,
        forall|j: int|
            0 <= j < ps.len() ==> ({
                let e = #[trigger] post.outbound@[pre.outbound@.len() + j];
                &&& e.0 == pre.spec_route(ps[j].0)
                &&& payload_sig_ok(e.1)
                &&& e.1.addr == pre.did
                &&& e.1.ttl == DEFAULT_TTL
                &&& e.1.relay.method == RelayMethod::Send
                &&& e.1.relay.destination == ps[j].0
                &&& e.1.relay.path@ == seq![pre.did]
                &&& e.1.auth.expiry == pre.spec_session().spec_auth().expiry
                &&& (ps[j].1 matches PeerRingRemoteAction::FindVNodeForOperate(o) && e.1.data
                    == Message::OperateVNode(o))
            }),
{
    assert forall|j: int| 0 <= j < ps.len() implies ({
        let e = #[trigger] post.outbound@[pre.outbound@.len() + j];
        &&& e.0 == pre.spec_route(ps[j].0)
        &&& payload_sig_ok(e.1)
        &&& e.1.addr == pre.did
        &&& e.1.ttl == DEFAULT_TTL
        &&& e.1.relay.method == RelayMethod::Send
        &&& e.1.relay.destination == ps[j].0
        &&& e.1.relay.path@ == seq![pre.did]
        &&& e.1.auth.expiry == pre.spec_session().spec_auth().expiry
        &&& (ps[j].1 matches PeerRingRemoteAction::FindVNodeForOperate(o) && e.1.data
            == Message::OperateVNode(o))
    }) by {
        assert(post.outbound@[pre.outbound@.len() + j] == post.outbound@[mid.outbound@.len()
            + j]);
    }
}

/// What a routed record fetch promises. A record stored here stays put
/// — the store wins over the cache, so nothing moves; otherwise a signed
/// search is queued towards the owner: one when a single replica is
/// asked for, else one per probed successor.
pub open spec fn fetch_post(
    pre: Swarm,
    post: Swarm,
    vid: Did,
    r: Result<(), Error>,
    redundant: u16,
) -> bool {
    let dht = pre.handler.dht;
    &&& r is Ok
    &&& (has_vid(dht.store@, vid) ==> post == pre)
    &&& (!has_vid(dht.store@, vid) && dht.successors@.len() == 0 ==> post == pre)
    &&& (!has_vid(dht.store@, vid) && dht.successors@.len() > 0 ==> {
        let probes = if redundant <= 1 {
            1int
        } else if redundant as int <= dht.successors@.len() {
            redundant as int
        } else {
            dht.successors@.len() as int
        };
        &&& storage_frame(pre, post)
        &&& post.handler.dht == dht
        &&& post.outbound@.len() == pre.outbound@.len() + probes
        &&& post.outbound@.take(pre.outbound@.len() as int) == pre.outbound@
        &&& ({
            let e = post.outbound@[pre.outbound@.len() as int];
            &&& e.0 == pre.spec_route(dht.op_next(vid))
            &&& queued_send(e, pre, dht.op_next(vid), Message::SearchVNode { vid })
        })
        &&& forall|j: int|
            1 <= j < probes ==> ({
                let e = #[trigger] post.outbound@[pre.outbound@.len() + j];
                &&& e.0 == pre.spec_route(dht.successors@[j])
                &&& queued_send(e, pre, dht.successors@[j], Message::SearchVNode { vid })
            })
    })
}

/// What a routed record mutation promises. Applied to the local store
/// when this node owns the address, and then replicated: a signed copy
/// of the node's records goes to the top `redundant - 1` successors.
/// Not owned here: queued as a signed operation towards the owner, and
/// to `redundant - 1` further successors when more than one copy is
/// wanted; the state is untouched.
pub open spec fn operate_post(
    pre: Swarm,
    post: Swarm,
    target: Did,
    newm: Seq<VNodeModel>,
    msg_ok: spec_fn(Message) -> bool,
    r: Result<(), Error>,
    redundant: u16,
) -> bool {
    let dht = pre.handler.dht;
    let fan = crate::handlers::sync_fan(redundant, dht.successors@.len() as int);
    &&& r is Ok
    &&& storage_frame(pre, post)
    &&& (dht.owns(target) ==> {
        &&& models(post.handler.dht.store@) == newm
        &&& !has_vid(post.handler.dht.cache@, target)
        &&& post.outbound@.len() == pre.outbound@.len() + fan
        &&& post.outbound@.take(pre.outbound@.len() as int) == pre.outbound@
        &&& forall|j: int|
            0 <= j < fan ==> ({
                let e = #[trigger] post.outbound@[pre.outbound@.len() + j];
                &&& e.0 == pre.spec_route(dht.successors@[j])
                &&& payload_sig_ok(e.1)
                &&& e.1.addr == pre.did
                &&& e.1.ttl == DEFAULT_TTL
                &&& e.1.relay.method == RelayMethod::Send
                &&& e.1.relay.destination == dht.successors@[j]
                &&& e.1.relay.path@ == seq![pre.did]
                &&& e.1.auth.expiry == pre.spec_session().spec_auth().expiry
                &&& (e.1.data matches Message::SyncVNodeWithSuccessor { data: recs } && models(
                    recs@,
                ) == newm)
            })
    })
    &&& (!dht.owns(target) ==> {
        let probes = if redundant <= 1 {
            1int
        } else if redundant as int <= dht.successors@.len() {
            redundant as int
        } else {
            dht.successors@.len() as int
        };
        &&& post.handler.dht == dht
        &&& post.outbound@.len() == pre.outbound@.len() + probes
        &&& post.outbound@.take(pre.outbound@.len() as int) == pre.outbound@
        &&& ({
            let e = post.outbound@[pre.outbound@.len() as int];
            &&& e.0 == pre.spec_route(dht.op_next(target))
            &&& payload_sig_ok(e.1)
            &&& msg_ok(e.1.data)
            &&& e.1.addr == pre.did
            &&& e.1.ttl == DEFAULT_TTL
            &&& e.1.relay.method == RelayMethod::Send
            &&& e.1.relay.destination == dht.op_next(target)
            &&& e.1.relay.path@ == seq![pre.did]
            &&& e.1.auth.expiry == pre.spec_session().spec_auth().expiry
        })
        &&& forall|j: int|
            1 <= j < probes ==> ({
                let e = #[trigger] post.outbound@[pre.outbound@.len() + j];
                &&& e.0 == pre.spec_route(dht.successors@[j])
                &&& payload_sig_ok(e.1)
                &&& msg_ok(e.1.data)
                &&& e.1.addr == pre.did
                &&& e.1.ttl == DEFAULT_TTL
                &&& e.1.relay.method == RelayMethod::Send
                &&& e.1.relay.destination == dht.successors@[j]
                &&& e.1.relay.path@ == seq![pre.did]
                &&& e.1.auth.expiry == pre.spec_session().spec_auth().expiry
            })
    })
}

/// The one-blob record a topic append or touch writes: the topic's ring
/// address over a single blob.
pub open spec fn topic_vnode_model(topic: Seq<u8>, data: Seq<u8>) -> VNodeModel {
    VNodeModel { did: vnode_did_of(topic), data: seq![data], kind: VNodeKind::Data }
}

/// DHT storage operations, parameterized by how many replicas a store
/// should reach.
pub trait ChordStorageInterface<const REDUNDANT: u16>: Sized {
    /// The well-formedness the storage operations keep.
    spec fn st_wf(&self) -> bool;

    /// What a fetch promises of the state transition.
    spec fn st_fetch_post(pre: Self, post: Self, vid: Did, r: Result<(), Error>) -> bool;

    /// What a store promises of the state transition.
    spec fn st_store_post(pre: Self, post: Self, vnode: VirtualNode, r: Result<(), Error>) -> bool;

    /// What an append promises of the state transition.
    spec fn st_append_post(
        pre: Self,
        post: Self,
        topic: Seq<u8>,
        data: Seq<u8>,
        r: Result<(), Error>,
    ) -> bool;

    /// What a touch promises of the state transition.
    spec fn st_touch_post(
        pre: Self,
        post: Self,
        topic: Seq<u8>,
        data: Seq<u8>,
        r: Result<(), Error>,
    ) -> bool;

    /// Fetches a record towards the local cache: copies a locally stored
    /// record, or queues a search towards the owner.
    fn storage_fetch(&mut self, vid: Did) -> (r: Result<(), Error>)
        requires
            old(self).st_wf(),
        ensures
            final(self).st_wf(),
            Self::st_fetch_post(*old(self), *final(self), vid, r),
    ;

    /// Stores a record: applies it locally when owned here, else queues
    /// the mutation towards the owner.
    fn storage_store(&mut self, vnode: VirtualNode) -> (r: Result<(), Error>)
        requires
            old(self).st_wf(),
        ensures
            final(self).st_wf(),
            Self::st_store_post(*old(self), *final(self), vnode, r),
    ;

    /// Appends a blob to the named record.
    fn storage_append_data(&mut self, topic: &Vec<u8>, data: Encoded) -> (r: Result<(), Error>)
        requires
            old(self).st_wf(),
        ensures
            final(self).st_wf(),
            Self::st_append_post(*old(self), *final(self), topic@, data.data@, r),
    ;

    /// Appends a blob to the named record unless already present.
    fn storage_touch_data(&mut self, topic: &Vec<u8>, data: Encoded) -> (r: Result<(), Error>)
        requires
            old(self).st_wf(),
        ensures
            final(self).st_wf(),
            Self::st_touch_post(*old(self), *final(self), topic@, data.data@, r),
    ;
}

/// Read access to the local fetch cache.
pub trait ChordStorageInterfaceCacheChecker {
    /// The well-formedness the check relies on.
    spec fn cc_wf(&self) -> bool;

    /// The cached records.
    spec fn cc_cache(&self) -> Seq<VirtualNode>;

    /// Reads the cached record at `vid`, if one was fetched: the returned
    /// record equals the cached one, content for content.
    fn storage_check_cache(&self, vid: Did) -> (r: Option<VirtualNode>)
        requires
            self.cc_wf(),
        ensures
            r is Some <==> has_vid(self.cc_cache(), vid),
            r matches Some(v) ==> v@.did == vid && v@ == self.cc_cache()[vid_index(
                self.cc_cache(),
                vid,
            )]@,
    ;
}

impl ChordStorageInterfaceCacheChecker for Swarm {
    open spec fn cc_wf(&self) -> bool {
        self.wf()
    }

    open spec fn cc_cache(&self) -> Seq<VirtualNode> {
        self.handler.dht.cache@
    }

    fn storage_check_cache(&self, vid: Did) -> (r: Option<VirtualNode>) {
        self.handler.dht.local_cache_get(&vid)
    }
}

impl Swarm {
    /// Sends a queued mutation on towards the record's owner.
    fn dispatch_store_act(&mut self, act: PeerRingAction) -> (r: Result<(), Error>)
        requires
            old(self).wf(),
        ensures
            final(self).wf(),
            act == PeerRingAction::NoAction ==> r is Ok && *final(self) == *old(self),
            act matches PeerRingAction::RemoteAction(target, a) ==> (a matches
                PeerRingRemoteAction::FindVNodeForOperate(op) ==> {
                &&& r is Ok
                &&& *final(self) == (Swarm { outbound: final(self).outbound, ..*old(self) })
                &&& final(self).outbound@.len() == old(self).outbound@.len() + 1
                &&& final(self).outbound@.take(old(self).outbound@.len() as int) == old(
                    self,
                ).outbound@
                &&& final(self).outbound@.last().0 == old(self).spec_route(target)
                &&& queued_send(
                    final(self).outbound@.last(),
                    *old(self),
                    target,
                    Message::OperateVNode(op),
                )
            }),
            act matches PeerRingAction::MultiActions(ps) ==> ((forall|j: int|
                0 <= j < ps@.len() ==> (#[trigger] ps@[j]).1 is FindVNodeForOperate) ==> {
                &&& r is Ok
                &&& *final(self) == (Swarm { outbound: final(self).outbound, ..*old(self) })
                &&& final(self).outbound@.len() == old(self).outbound@.len() + ps@.len()
                &&& final(self).outbound@.take(old(self).outbound@.len() as int) == old(
                    self,
                ).outbound@
                &&& forall|j: int|
                    0 <= j < ps@.len() ==> ({
                        let e = #[trigger] final(self).outbound@[old(self).outbound@.len() + j];
                        &&& e.0 == old(self).spec_route(ps@[j].0)
                        &&& payload_sig_ok(e.1)
                        &&& e.1.addr == old(self).did
                        &&& e.1.ttl == DEFAULT_TTL
                        &&& e.1.relay.method == RelayMethod::Send
                        &&& e.1.relay.destination == ps@[j].0
                        &&& e.1.relay.path@ == seq![old(self).did]
                        &&& e.1.auth.expiry == old(self).spec_session().spec_auth().expiry
                        &&& (ps@[j].1 matches PeerRingRemoteAction::FindVNodeForOperate(o)
                            && e.1.data == Message::OperateVNode(o))
                    })
            }),
    {
        match act {
            PeerRingAction::NoAction => Ok(()),
            PeerRingAction::RemoteAction(target, a) => {
                match a {
                    PeerRingRemoteAction::FindVNodeForOperate(op) => {
                        self.send_message(target, Message::OperateVNode(op));
                        Ok(())
                    },
                    _ => Err(Error::PeerRingUnexpectedAction),
                }
            },
            PeerRingAction::MultiActions(probes) => {
                let ghost probes0 = probes@;
                let mut probes = probes;
                let n = probes.len();
                let mut i: usize = 0;
                while i < n
                    invariant
                        i <= n,
                        n == probes0.len(),
                        probes@ == probes0.skip(i as int),
                        act matches PeerRingAction::MultiActions(ps) && ps@ == probes0,
                        old(self).wf(),
                        self.wf(),
                        *self == (Swarm { outbound: self.outbound, ..*old(self) }),
                        self.outbound@.len() == old(self).outbound@.len() + i,
                        self.outbound@.take(old(self).outbound@.len() as int) == old(
                            self,
                        ).outbound@,
                        forall|j: int|
                            0 <= j < i ==> ({
                                let e = #[trigger] self.outbound@[old(self).outbound@.len() + j];
                                &&& e.0 == old(self).spec_route(probes0[j].0)
                                &&& payload_sig_ok(e.1)
                                &&& e.1.addr == old(self).did
                                &&& e.1.ttl == DEFAULT_TTL
                                &&& e.1.relay.method == RelayMethod::Send
                                &&& e.1.relay.destination == probes0[j].0
                                &&& e.1.relay.path@ == seq![old(self).did]
                                &&& e.1.auth.expiry == old(self).spec_session().spec_auth().expiry
                                &&& (probes0[j].1 matches
                                    PeerRingRemoteAction::FindVNodeForOperate(o) && e.1.data
                                    == Message::OperateVNode(o))
                            }),
                    decreases n - i,
                {
                    let (target, a) = probes.remove(0);
                    proof {
                        assert(probes0.skip(i as int)[0] == probes0[i as int]);
                        assert(probes@ =~= probes0.skip(i + 1));
                        assert((target, a) == probes0[i as int]);
                    }
                    match a {
                        PeerRingRemoteAction::FindVNodeForOperate(op) => {
                            let ghost mid = *self;
                            self.send_message(target, Message::OperateVNode(op));
                            proof {
                                assert(mid.spec_route(target) == old(self).spec_route(target));
                                let base = old(self).outbound@.len() as int;
                                assert(self.outbound@.take(base) =~= old(self).outbound@);
                                assert forall|j: int| 0 <= j < i + 1 implies ({
                                    let e = #[trigger] self.outbound@[base + j];
                                    &&& e.0 == old(self).spec_route(probes0[j].0)
                                    &&& payload_sig_ok(e.1)
                                    &&& e.1.addr == old(self).did
                                    &&& e.1.ttl == DEFAULT_TTL
                                    &&& e.1.relay.method == RelayMethod::Send
                                    &&& e.1.relay.destination == probes0[j].0
                                    &&& e.1.relay.path@ == seq![old(self).did]
                                    &&& e.1.auth.expiry == old(
                                        self,
                                    ).spec_session().spec_auth().expiry
                                    &&& (probes0[j].1 matches
                                        PeerRingRemoteAction::FindVNodeForOperate(o) && e.1.data
                                        == Message::OperateVNode(o))
                                }) by {
                                    if j < i as int {
                                        assert(self.outbound@.take(mid.outbound@.len() as int)
                                            == mid.outbound@);
                                        assert(self.outbound@[base + j] == self.outbound@.take(
                                            mid.outbound@.len() as int,
                                        )[base + j]);
                                    } else {
                                        assert(self.outbound@[base + j] == self.outbound@.last());
                                        assert(probes0[j] == (
                                            target,
                                            PeerRingRemoteAction::FindVNodeForOperate(op),
                                        ));
                                    }
                                }
                            }
                        },
                        _ => {
                            proof {
                                assert(!((probes0[i as int]).1 is FindVNodeForOperate));
                            }
                            return Err(Error::PeerRingUnexpectedAction);
                        },
                    }
                    i = i + 1;
                }
                Ok(())
            },
            _ => Err(Error::PeerRingUnexpectedAction),
        }
    }

    /// Replicates this node's records after an owned mutation: one
    /// signed copy of the store goes to each of the top `redundant - 1`
    /// successors.
    fn replicate_owned(&mut self, redundant: u16)
        requires
            old(self).wf(),
        ensures
            final(self).wf(),
            *final(self) == (Swarm { outbound: final(self).outbound, ..*old(self) }),
            final(self).outbound@.len() == old(self).outbound@.len() + crate::handlers::sync_fan(
                redundant,
                old(self).handler.dht.successors@.len() as int,
            ),
            final(self).outbound@.take(old(self).outbound@.len() as int) == old(self).outbound@,
            forall|j: int|
                0 <= j < crate::handlers::sync_fan(
                    redundant,
                    old(self).handler.dht.successors@.len() as int,
                ) ==> ({
                    let e = #[trigger] final(self).outbound@[old(self).outbound@.len() + j];
                    &&& e.0 == old(self).spec_route(old(self).handler.dht.successors@[j])
                    &&& payload_sig_ok(e.1)
                    &&& e.1.addr == old(self).did
                    &&& e.1.ttl == DEFAULT_TTL
                    &&& e.1.relay.method == RelayMethod::Send
                    &&& e.1.relay.destination == old(self).handler.dht.successors@[j]
                    &&& e.1.relay.path@ == seq![old(self).did]
                    &&& e.1.auth.expiry == old(self).spec_session().spec_auth().expiry
                    &&& (e.1.data matches Message::SyncVNodeWithSuccessor { data: recs } && models(
                        recs@,
                    ) == models(old(self).handler.dht.store@))
                }),
    {
        let fan: usize = if redundant <= 1 {
            0
        } else {
            let want = (redundant - 1) as usize;
            if want <= self.handler.dht.successors.len() {
                want
            } else {
                self.handler.dht.successors.len()
            }
        };
        proof {
            assert(fan as int == crate::handlers::sync_fan(
                redundant,
                old(self).handler.dht.successors@.len() as int,
            ));
        }
        let mut i: usize = 0;
        while i < fan
            invariant
                i <= fan,
                fan <= self.handler.dht.successors@.len(),
                old(self).wf(),
                self.wf(),
                *self == (Swarm { outbound: self.outbound, ..*old(self) }),
                self.outbound@.len() == old(self).outbound@.len() + i,
                self.outbound@.take(old(self).outbound@.len() as int) == old(self).outbound@,
                forall|j: int|
                    0 <= j < i ==> ({
                        let e = #[trigger] self.outbound@[old(self).outbound@.len() + j];
                        &&& e.0 == old(self).spec_route(old(self).handler.dht.successors@[j])
                        &&& payload_sig_ok(e.1)
                        &&& e.1.addr == old(self).did
                        &&& e.1.ttl == DEFAULT_TTL
                        &&& e.1.relay.method == RelayMethod::Send
                        &&& e.1.relay.destination == old(self).handler.dht.successors@[j]
                        &&& e.1.relay.path@ == seq![old(self).did]
                        &&& e.1.auth.expiry == old(self).spec_session().spec_auth().expiry
                        &&& (e.1.data matches Message::SyncVNodeWithSuccessor { data: recs }
                            && models(recs@) == models(old(self).handler.dht.store@))
                    }),
            decreases fan - i,
        {
            let d = self.handler.dht.successors[i];
            let ghost mid = *self;
            self.sync_store_to(d);
            proof {
                assert(mid.spec_route(d) == old(self).spec_route(d));
                let base = old(self).outbound@.len() as int;
                assert(self.outbound@.take(base) =~= old(self).outbound@);
                assert forall|j: int| 0 <= j < i + 1 implies ({
                    let e = #[trigger] self.outbound@[base + j];
                    &&& e.0 == old(self).spec_route(old(self).handler.dht.successors@[j])
                    &&& payload_sig_ok(e.1)
                    &&& e.1.addr == old(self).did
                    &&& e.1.ttl == DEFAULT_TTL
                    &&& e.1.relay.method == RelayMethod::Send
                    &&& e.1.relay.destination == old(self).handler.dht.successors@[j]
                    &&& e.1.relay.path@ == seq![old(self).did]
                    &&& e.1.auth.expiry == old(self).spec_session().spec_auth().expiry
                    &&& (e.1.data matches Message::SyncVNodeWithSuccessor { data: recs }
                        && models(recs@) == models(old(self).handler.dht.store@))
                }) by {
                    if j < i as int {
                        assert(self.outbound@.take(mid.outbound@.len() as int) == mid.outbound@);
                        assert(self.outbound@[base + j] == self.outbound@.take(
                            mid.outbound@.len() as int,
                        )[base + j]);
                    } else {
                        assert(self.outbound@[base + j] == self.outbound@.last());
                    }
                }
            }
            i = i + 1;
        }
    }
}

impl<const REDUNDANT: u16> ChordStorageInterface<REDUNDANT> for Swarm {
    open spec fn st_wf(&self) -> bool {
        self.wf()
    }

    open spec fn st_fetch_post(pre: Swarm, post: Swarm, vid: Did, r: Result<(), Error>) -> bool {
        fetch_post(pre, post, vid, r, REDUNDANT)
    }

    open spec fn st_store_post(
        pre: Swarm,
        post: Swarm,
        vnode: VirtualNode,
        r: Result<(), Error>,
    ) -> bool {
        operate_post(
            pre,
            post,
            vnode.did,
            put_model(models(pre.handler.dht.store@), vnode@),
            (|m: Message|
                m matches Message::OperateVNode(op) && (op matches VNodeOperation::Overwrite(v)
                    && v@ == vnode@)),
            r,
            REDUNDANT,
        )
    }

    open spec fn st_append_post(
        pre: Swarm,
        post: Swarm,
        topic: Seq<u8>,
        data: Seq<u8>,
        r: Result<(), Error>,
    ) -> bool {
        operate_post(
            pre,
            post,
            vnode_did_of(topic),
            extend_model(models(pre.handler.dht.store@), topic_vnode_model(topic, data)),
            (|m: Message|
                m matches Message::OperateVNode(op) && (op matches VNodeOperation::Extend(v)
                    && v@ == topic_vnode_model(topic, data))),
            r,
            REDUNDANT,
        )
    }

    open spec fn st_touch_post(
        pre: Swarm,
        post: Swarm,
        topic: Seq<u8>,
        data: Seq<u8>,
        r: Result<(), Error>,
    ) -> bool {
        operate_post(
            pre,
            post,
            vnode_did_of(topic),
            touch_model(models(pre.handler.dht.store@), topic_vnode_model(topic, data)),
            (|m: Message|
                m matches Message::OperateVNode(op) && (op matches VNodeOperation::Touch(v)
                    && v@ == topic_vnode_model(topic, data))),
            r,
            REDUNDANT,
        )
    }

    fn storage_fetch(&mut self, vid: Did) -> (r: Result<(), Error>) {
        let act = self.handler.dht.vnode_lookup_n(&vid, REDUNDANT);
        match act {
            PeerRingAction::NoAction => {
                proof {
                    let dht = old(self).handler.dht;
                    if !has_vid(dht.store@, vid) && dht.successors@.len() > 0 {
                        assert(false);
                    }
                }
                Ok(())
            },
            PeerRingAction::SomeVNode(v) => {
                self.handler.dht.local_cache_set(v);
                Ok(())
            },
            PeerRingAction::RemoteAction(next, a) => {
                match a {
                    PeerRingRemoteAction::FindVNode(v2) => {
                        self.send_message(next, Message::SearchVNode { vid: v2 });
                        Ok(())
                    },
                    _ => {
                        proof {
                            assert(false);
                        }
                        Err(Error::PeerRingUnexpectedAction)
                    },
                }
            },
            PeerRingAction::SomeDid(_) => {
                proof {
                    assert(false);
                }
                Err(Error::PeerRingUnexpectedAction)
            },
            PeerRingAction::MultiActions(probes) => {
                let ghost probes0 = probes@;
                let mut probes = probes;
                let n = probes.len();
                let mut i: usize = 0;
                while i < n
                    invariant
                        i <= n,
                        n == probes0.len(),
                        probes@ == probes0.skip(i as int),
                        old(self).wf(),
                        self.wf(),
                        probes0[0] == (
                            old(self).handler.dht.op_next(vid),
                            PeerRingRemoteAction::FindVNode(vid),
                        ),
                        forall|j: int|
                            1 <= j < probes0.len() ==> (#[trigger] probes0[j]) == (
                                old(self).handler.dht.successors@[j],
                                PeerRingRemoteAction::FindVNode(vid),
                            ),
                        *self == (Swarm { outbound: self.outbound, ..*old(self) }),
                        self.outbound@.len() == old(self).outbound@.len() + i,
                        self.outbound@.take(old(self).outbound@.len() as int) == old(
                            self,
                        ).outbound@,
                        forall|j: int|
                            0 <= j < i ==> ({
                                let e = #[trigger] self.outbound@[old(self).outbound@.len() + j];
                                &&& e.0 == old(self).spec_route(probes0[j].0)
                                &&& queued_send(
                                    e,
                                    *old(self),
                                    probes0[j].0,
                                    Message::SearchVNode { vid },
                                )
                            }),
                    decreases n - i,
                {
                    let (target, a) = probes.remove(0);
                    proof {
                        assert(probes0.skip(i as int)[0] == probes0[i as int]);
                        assert(probes@ =~= probes0.skip(i + 1));
                    }
                    match a {
                        PeerRingRemoteAction::FindVNode(v2) => {
                            let ghost mid = *self;
                            self.send_message(target, Message::SearchVNode { vid: v2 });
                            proof {
                                assert(mid.spec_route(target) == old(self).spec_route(target));
                                let base = old(self).outbound@.len() as int;
                                assert(self.outbound@.take(base) =~= old(self).outbound@);
                                assert forall|j: int| 0 <= j < i + 1 implies ({
                                    let e = #[trigger] self.outbound@[base + j];
                                    &&& e.0 == old(self).spec_route(probes0[j].0)
                                    &&& queued_send(
                                        e,
                                        *old(self),
                                        probes0[j].0,
                                        Message::SearchVNode { vid },
                                    )
                                }) by {
                                    if j < i as int {
                                        assert(self.outbound@.take(
                                            mid.outbound@.len() as int,
                                        ) == mid.outbound@);
                                        assert(self.outbound@[base + j] == self.outbound@.take(
                                            mid.outbound@.len() as int,
                                        )[base + j]);
                                    } else {
                                        assert(self.outbound@[base + j]
                                            == self.outbound@.last());
                                        assert(probes0[j].0 == target);
                                    }
                                }
                            }
                        },
                        _ => {
                            proof {
                                assert(false);
                            }
                            return Err(Error::PeerRingUnexpectedAction);
                        },
                    }
                    i = i + 1;
                }
                proof {
                    let pre = *old(self);
                    let dht = pre.handler.dht;
                    assert(!has_vid(dht.store@, vid));
                    assert(dht.successors@.len() > 0);
                    assert(REDUNDANT > 1);
                    assert(n as int == (if REDUNDANT as int <= dht.successors@.len() {
                        REDUNDANT as int
                    } else {
                        dht.successors@.len() as int
                    }));
                    assert(storage_frame(pre, *self));
                    let base = pre.outbound@.len() as int;
                    assert(probes0[0].0 == dht.op_next(vid));
                    assert(({
                        let e = self.outbound@[base + 0];
                        e.0 == pre.spec_route(probes0[0].0) && queued_send(
                            e,
                            pre,
                            probes0[0].0,
                            Message::SearchVNode { vid },
                        )
                    }));
                    assert(self.outbound@[base] == self.outbound@[base + 0]);
                    assert forall|j: int| 1 <= j < n as int implies ({
                        let e = #[trigger] self.outbound@[base + j];
                        e.0 == pre.spec_route(dht.successors@[j]) && queued_send(
                            e,
                            pre,
                            dht.successors@[j],
                            Message::SearchVNode { vid },
                        )
                    }) by {
                        assert(probes0[j] == (
                            dht.successors@[j],
                            PeerRingRemoteAction::FindVNode(vid),
                        ));
                        assert(({
                            let e = self.outbound@[base + j];
                            e.0 == pre.spec_route(probes0[j].0) && queued_send(
                                e,
                                pre,
                                probes0[j].0,
                                Message::SearchVNode { vid },
                            )
                        }));
                    }
                    assert(fetch_post(pre, *self, vid, Ok::<(), Error>(()), REDUNDANT));
                }
                Ok(())
            },
        }
    }

    fn storage_store(&mut self, vnode: VirtualNode) -> (r: Result<(), Error>) {
        let ghost tgt = vnode.did;
        let act = self.handler.dht.vnode_operate_n(VNodeOperation::Overwrite(vnode), REDUNDANT);
        let owned = match &act {
            PeerRingAction::NoAction => true,
            _ => false,
        };
        let ghost mid0 = *self;
        let res = self.dispatch_store_act(act);
        if owned {
            let ghost mid = *self;
            self.replicate_owned(REDUNDANT);
            proof {
                lemma_route_frame_all(mid, *old(self));
                lemma_owned_sync_bridge(*old(self), mid, *self, REDUNDANT);
            }
        }
        proof {
            let pre = *old(self);
            if !pre.handler.dht.owns(tgt) {
                if REDUNDANT <= 1 {
                    assert(self.outbound@[pre.outbound@.len() as int] == self.outbound@.last());
                } else {
                    let ps = act->MultiActions_0@;
                    lemma_remote_ops_bridge(pre, mid0, *self, ps);
                    assert(self.outbound@[pre.outbound@.len() as int] == self.outbound@[
                        pre.outbound@.len() as int + 0
                    ]);
                }
            }
        }
        res
    }

    fn storage_append_data(&mut self, topic: &Vec<u8>, data: Encoded) -> (r: Result<(), Error>) {
        let ghost dm = data.data@;
        let mut blobs: Vec<Encoded> = Vec::new();
        blobs.push(data);
        let vnode = VirtualNode::new_data(topic, blobs);
        proof {
            assert(vnode@.data =~= seq![dm]);
            assert(vnode@ == topic_vnode_model(topic@, dm));
        }
        let ghost tgt = vnode.did;
        let act = self.handler.dht.vnode_operate_n(VNodeOperation::Extend(vnode), REDUNDANT);
        let owned = match &act {
            PeerRingAction::NoAction => true,
            _ => false,
        };
        let ghost mid0 = *self;
        let res = self.dispatch_store_act(act);
        if owned {
            let ghost mid = *self;
            self.replicate_owned(REDUNDANT);
            proof {
                lemma_route_frame_all(mid, *old(self));
                lemma_owned_sync_bridge(*old(self), mid, *self, REDUNDANT);
            }
        }
        proof {
            let pre = *old(self);
            if !pre.handler.dht.owns(tgt) {
                if REDUNDANT <= 1 {
                    assert(self.outbound@[pre.outbound@.len() as int] == self.outbound@.last());
                } else {
                    let ps = act->MultiActions_0@;
                    lemma_remote_ops_bridge(pre, mid0, *self, ps);
                    assert(self.outbound@[pre.outbound@.len() as int] == self.outbound@[
                        pre.outbound@.len() as int + 0
                    ]);
                }
            }
        }
        res
    }

    fn storage_touch_data(&mut self, topic: &Vec<u8>, data: Encoded) -> (r: Result<(), Error>) {
        let ghost dm = data.data@;
        let mut blobs: Vec<Encoded> = Vec::new();
        blobs.push(data);
        let vnode = VirtualNode::new_data(topic, blobs);
        proof {
            assert(vnode@.data =~= seq![dm]);
            assert(vnode@ == topic_vnode_model(topic@, dm));
        }
        let ghost tgt = vnode.did;
        let act = self.handler.dht.vnode_operate_n(VNodeOperation::Touch(vnode), REDUNDANT);
        let owned = match &act {
            PeerRingAction::NoAction => true,
            _ => false,
        };
        let ghost mid0 = *self;
        let res = self.dispatch_store_act(act);
        if owned {
            let ghost mid = *self;
            self.replicate_owned(REDUNDANT);
            proof {
                lemma_route_frame_all(mid, *old(self));
                lemma_owned_sync_bridge(*old(self), mid, *self, REDUNDANT);
            }
        }
        proof {
            let pre = *old(self);
            if !pre.handler.dht.owns(tgt) {
                if REDUNDANT <= 1 {
                    assert(self.outbound@[pre.outbound@.len() as int] == self.outbound@.last());
                } else {
                    let ps = act->MultiActions_0@;
                    lemma_remote_ops_bridge(pre, mid0, *self, ps);
                    assert(self.outbound@[pre.outbound@.len() as int] == self.outbound@[
                        pre.outbound@.len() as int + 0
                    ]);
                }
            }
        }
        res
    }
}

} // verus!
