//! Builtin message handlers: one per body kind, each mapping ring state
//! and an inbound payload to follow-up events.

use vstd::prelude::*;

use crate::chord::PeerRing;
use crate::chord::PeerRingAction;
use crate::chord::PeerRingRemoteAction;
use crate::chord::has_vid;
use crate::did::Did;
use crate::did::in_oo;
use crate::error::Error;
use crate::message::Message;
use crate::payload::MessagePayload;
use crate::vnode::VNodeOperation;
use crate::vnode::VirtualNode;
use crate::vnode::copy_op;
use crate::vnode::copy_vnode;

verus! {

/// What a handler asks the swarm to do next.
#[derive(Debug)]
pub enum MessageHandlerEvent {
    /// Make sure a transport to the peer exists.
    Connect(Did),
    /// Drop the transport to the peer.
    Disconnect(Did),
    /// Answer a handshake offer; the transport layer acts on it.
    AnswerOffer,
    /// Accept a handshake answer; the transport layer acts on it.
    AcceptAnswer,
    /// Pass the payload on towards its destination, optionally rewriting
    /// the destination to the given peer first.
    ForwardPayload(Option<Did>),
    /// Learn a peer and look up this node's place through it.
    JoinDHT(Did),
    /// Send a fresh message straight to the peer.
    SendDirectMessage(Message, Did),
    /// Send a fresh message, routed over the ring.
    SendMessage(Message, Did),
    /// Answer the inbound payload backward along its path.
    SendReportMessage(Message),
    /// Rewrite the inbound payload's destination.
    ResetDestination(Did),
    /// Replicate stored records to the peer.
    SyncVNodeWithSuccessor(Did),
    /// Store a record locally.
    StorageStore(VirtualNode),
}

/// Handling one message kind: from ring state and an inbound payload to
/// follow-up events.
pub trait HandleMsg<T>: Sized {
    /// The well-formedness a handler keeps.
    spec fn hm_wf(&self) -> bool;

    /// What one handled message promises of the state transition and the
    /// produced events.
    spec fn hm_post(
        pre: Self,
        post: Self,
        ctx: MessagePayload,
        msg: T,
        r: Result<Vec<MessageHandlerEvent>, Error>,
    ) -> bool;

    /// Handles one message in its payload context.
    fn handle(&mut self, ctx: &MessagePayload, msg: &T) -> (r: Result<
        Vec<MessageHandlerEvent>,
        Error,
    >)
        requires
            old(self).hm_wf(),
        ensures
            final(self).hm_wf(),
            Self::hm_post(*old(self), *final(self), *ctx, *msg, r),
    ;
}

/// The handler state: the ring, the log of application messages that
/// reached this node, and the node's redundancy parameter.
pub struct MessageHandler {
    /// The Chord state this handler reads and writes.
    pub dht: PeerRing,
    /// Application payloads delivered here: origin and bytes, in order.
    pub inbox: Vec<(Did, Vec<u8>)>,
    /// How many nodes, the owner included, hold each stored record: on
    /// an owned mutation the owner replicates to `redundancy - 1`
    /// successors.
    pub redundancy: u16,
}

/// How many successors an owned mutation is replicated to: one fewer
/// than the redundancy (the owner is a holder itself), capped by the
/// successor list.
pub open spec fn sync_fan(redundancy: u16, nsucc: int) -> int {
    if redundancy <= 1 {
        0
    } else if redundancy - 1 <= nsucc {
        redundancy - 1
    } else {
        nsucc
    }
}

/// Events that leave the ring state alone: every builtin handler mutates
/// the ring itself and asks the swarm only for transport work, sends and
/// replication.
pub open spec fn no_state_events(ev: Seq<MessageHandlerEvent>) -> bool {
    forall|j: int|
        0 <= j < ev.len() ==> !((#[trigger] ev[j]) is JoinDHT) && !(ev[j] is StorageStore)
}

/// The builtin handlers never ask the swarm to mutate the ring directly:
/// no dispatched event is `JoinDHT` or `StorageStore`.
pub proof fn lemma_dispatch_events_kinds(
    pre: MessageHandler,
    post: MessageHandler,
    data: Message,
    destination: Did,
    addr: Did,
    ev: Seq<MessageHandlerEvent>,
)
    requires
        dispatch_events(pre, post, data, destination, addr, ev),
    ensures
        no_state_events(ev),
{
    let dht = pre.dht;
    assert forall|j: int| 0 <= j < ev.len() implies !((#[trigger] ev[j]) is JoinDHT) && !(ev[j]
        is StorageStore) by {
        match data {
            Message::JoinDHT(_) => {
                assert(j == 0 || j == 1);
            },
            Message::LeaveDHT(_) => {},
            Message::ConnectNodeSend(_) => {},
            Message::ConnectNodeReport(_) => {},
            Message::FindSuccessorSend { id, for_init } => {
                if crate::did::in_oc(
                    id.value(),
                    dht.did.value(),
                    dht.spec_succ_or_self().value(),
                ) {
                } else {
                }
            },
            Message::FindSuccessorReport { .. } => {},
            Message::NotifyPredecessorSend { did: p } => {
                if p != dht.did && dht.notify_sets(p) {
                    assert(j == 0 || j == 1);
                } else {
                    assert(j == 0);
                }
            },
            Message::NotifyPredecessorReport { .. } => {},
            Message::SearchVNode { vid } => {
                if has_vid(dht.store@, vid) {
                } else if dht.successors@.len() == 0 {
                } else {
                }
            },
            Message::FoundVNode { .. } => {},
            Message::OperateVNode(op) => {
                if dht.owns(op.spec_target()) {
                } else {
                }
            },
            Message::SyncVNodeWithSuccessor { .. } => {},
            Message::CustomMessage(_) => {},
        }
    }
}

/// What dispatching one payload promises: the result is `Ok`, and the
/// state transition and the produced events follow the contract of the
/// handler the body kind selects.
pub open spec fn dispatch_post(
    pre: MessageHandler,
    post: MessageHandler,
    payload: MessagePayload,
    r: Result<Vec<MessageHandlerEvent>, Error>,
) -> bool {
    &&& r matches Ok(events)
    &&& dispatch_events(pre, post, payload.data, payload.relay.destination, payload.addr, events@)
}

/// The per-kind dispatch relation: for each message kind, how the ring
/// state moves and which events come back. It reads only what the
/// handlers read of the payload: the body, the destination, and the
/// origin.
pub open spec fn dispatch_events(
    pre: MessageHandler,
    post: MessageHandler,
    data: Message,
    destination: Did,
    addr: Did,
    ev: Seq<MessageHandlerEvent>,
) -> bool {
    let atd = destination == pre.dht.did;
    let dht = pre.dht;
    &&& post.redundancy == pre.redundancy
    &&& match data {
        Message::JoinDHT(d) => {
            &&& post.inbox@ == pre.inbox@
            &&& post.dht.predecessor == dht.predecessor
            &&& post.dht.store@ == dht.store@
            &&& post.dht.cache@ == dht.cache@
            &&& forall|i: int|
                0 <= i < 160 ==> (#[trigger] post.dht.finger@[i]) == dht.finger_joined(i, d)
            &&& (d != dht.did ==> post.dht.successors@.len() >= 1 && post.dht.successors@[0]
                == crate::chord::succ_head_after(dht.successors@, dht.did, d))
            &&& ev.len() == 2
            &&& ev[0] == MessageHandlerEvent::Connect(d)
            &&& ev[1] == (MessageHandlerEvent::SendMessage(
                Message::FindSuccessorSend { id: dht.did, for_init: true },
                d,
            ))
        },
        Message::LeaveDHT(d) => {
            &&& post.inbox@ == pre.inbox@
            &&& forall|i: int|
                0 <= i < 160 ==> (#[trigger] post.dht.finger@[i]) == (if dht.finger@[i] == Some(
                    d,
                ) {
                    Option::<Did>::None
                } else {
                    dht.finger@[i]
                })
            &&& post.dht.successors@ == PeerRing::seq_remove_all(
                dht.successors@,
                d,
                dht.successors@.len() as int,
            )
            &&& post.dht.predecessor == (if dht.predecessor == Some(d) {
                Option::<Did>::None
            } else {
                dht.predecessor
            })
            &&& ev.len() == 1
            &&& ev[0] == MessageHandlerEvent::Disconnect(d)
        },
        Message::ConnectNodeSend(_) => {
            &&& post == pre
            &&& ev.len() == 1
            &&& (atd ==> ev[0] == MessageHandlerEvent::AnswerOffer)
            &&& (!atd ==> ev[0] == (MessageHandlerEvent::ForwardPayload(Option::<Did>::None)))
        },
        Message::ConnectNodeReport(_) => {
            &&& post == pre
            &&& ev.len() == 1
            &&& (atd ==> ev[0] == MessageHandlerEvent::AcceptAnswer)
            &&& (!atd ==> ev[0] == (MessageHandlerEvent::ForwardPayload(Option::<Did>::None)))
        },
        Message::FindSuccessorSend { id, for_init } => {
            &&& post == pre
            &&& ev.len() == 1
            &&& (crate::did::in_oc(
                id.value(),
                dht.did.value(),
                dht.spec_succ_or_self().value(),
            ) ==> ev[0] == (MessageHandlerEvent::SendReportMessage(
                Message::FindSuccessorReport { id: dht.spec_succ_or_self(), for_init },
            )))
            &&& (!crate::did::in_oc(
                id.value(),
                dht.did.value(),
                dht.spec_succ_or_self().value(),
            ) ==> ev[0] == (MessageHandlerEvent::ForwardPayload(
                Some(dht.spec_cpn(id.value())),
            )))
        },
        Message::FindSuccessorReport { id, for_init } => {
            &&& post.inbox@ == pre.inbox@
            &&& post.dht.did == dht.did
            &&& (id != dht.did ==> post.dht.successors@.len() >= 1 && post.dht.successors@[0]
                == crate::chord::succ_head_after(dht.successors@, dht.did, id))
            &&& ev.len() == 1
            &&& ev[0] == MessageHandlerEvent::Connect(id)
        },
        Message::NotifyPredecessorSend { did: p } => {
            let moved = PeerRing::split_move(dht.store@, p, dht.did, dht.store@.len() as int);
            &&& post.inbox@ == pre.inbox@
            &&& post.dht.did == dht.did
            &&& (p != dht.did && dht.notify_sets(p) ==> {
                &&& post.dht.predecessor == Some(p)
                &&& post.dht.store@ == PeerRing::split_keep(
                    dht.store@,
                    p,
                    dht.did,
                    dht.store@.len() as int,
                )
                &&& (moved.len() == 0 ==> ev.len() == 1)
                &&& (moved.len() > 0 ==> ev.len() == 2 && (ev[1] matches
                    MessageHandlerEvent::SendMessage(m, target) && target == p && (m matches
                    Message::SyncVNodeWithSuccessor { data: recs } && recs@ == moved)))
            })
            &&& (p == dht.did || !dht.notify_sets(p) ==> post == pre && ev.len() == 1)
            &&& ev.len() >= 1
            &&& (ev[0] matches MessageHandlerEvent::SendReportMessage(m) && (m matches
                Message::NotifyPredecessorReport { did: q, successors: l } && q == (
                match post.dht.predecessor {
                    Some(q2) => q2,
                    None => post.dht.did,
                }) && l@ == dht.successors@))
        },
        Message::NotifyPredecessorReport { did: x, successors: l } => {
            &&& post.inbox@ == pre.inbox@
            &&& post.dht.did == dht.did
            &&& post.dht.predecessor == dht.predecessor
            &&& post.dht.finger@ == dht.finger@
            &&& post.dht.store@ == dht.store@
            &&& post.dht.cache@ == dht.cache@
            &&& post.dht.successors@.len() >= dht.successors@.len()
            &&& ev.len() == 0
            &&& (dht.successors@.len() == 0 ==> post.dht.successors@ == dht.successors@)
            &&& (dht.successors@.len() > 0 && in_oo(
                x.value(),
                dht.did.value(),
                dht.successors@[0].value(),
            ) && x != dht.did ==> post.dht.successors@.len() >= 1 && post.dht.successors@[0]
                == x)
            &&& (dht.successors@.len() > 0 && !(in_oo(
                x.value(),
                dht.did.value(),
                dht.successors@[0].value(),
            ) && x != dht.did) ==> post.dht.successors@.len() >= 1 && post.dht.successors@[0]
                == dht.successors@[0])
        },
        Message::SearchVNode { vid } => {
            &&& post == pre
            &&& (has_vid(dht.store@, vid) ==> ev.len() == 1 && (ev[0] matches
                MessageHandlerEvent::SendReportMessage(m) && (m matches Message::FoundVNode {
                data,
            } && data@.len() == 1 && data@[0]@ == dht.store@[crate::chord::vid_index(
                dht.store@,
                vid,
            )]@)))
            &&& (!has_vid(dht.store@, vid) && dht.successors@.len() == 0 ==> ev.len() == 0)
            &&& (!has_vid(dht.store@, vid) && dht.successors@.len() > 0 ==> ev.len() == 1 && ev[0]
                == (MessageHandlerEvent::ForwardPayload(Some(dht.op_next(vid)))))
        },
        Message::FoundVNode { data } => {
            &&& post.inbox@ == pre.inbox@
            &&& post.dht.store@ == dht.store@
            &&& (!atd ==> post == pre && ev.len() == 1 && ev[0]
                == (MessageHandlerEvent::ForwardPayload(Option::<Did>::None)))
            &&& (atd ==> ev.len() == 0 && post.dht == (PeerRing {
                cache: post.dht.cache,
                ..dht
            }) && crate::chord::models(post.dht.cache@) == crate::chord::cached_after(
                dht.store@,
                crate::chord::models(dht.cache@),
                data@,
                data@.len() as int,
            ))
        },
        Message::OperateVNode(op) => {
            &&& post.inbox@ == pre.inbox@
            &&& post.dht.did == dht.did
            &&& (dht.owns(op.spec_target()) ==> crate::chord::models(
                post.dht.store@,
            ) == (match op {
                VNodeOperation::Overwrite(v) => crate::chord::put_model(
                    crate::chord::models(dht.store@),
                    v@,
                ),
                VNodeOperation::Extend(v) => crate::chord::extend_model(
                    crate::chord::models(dht.store@),
                    v@,
                ),
                VNodeOperation::Touch(v) => crate::chord::touch_model(
                    crate::chord::models(dht.store@),
                    v@,
                ),
            }))
            &&& (dht.owns(op.spec_target()) ==> {
                &&& !has_vid(post.dht.cache@, op.spec_target())
                &&& post.dht == (PeerRing {
                    store: post.dht.store,
                    cache: post.dht.cache,
                    ..dht
                })
                &&& ev.len() == sync_fan(pre.redundancy, dht.successors@.len() as int)
                &&& forall|j: int|
                    0 <= j < ev.len() ==> (#[trigger] ev[j])
                        == MessageHandlerEvent::SyncVNodeWithSuccessor(dht.successors@[j])
            })
            &&& (!dht.owns(op.spec_target()) ==> post == pre && ev.len() == 1 && ev[0]
                == (MessageHandlerEvent::ForwardPayload(Some(dht.op_next(op.spec_target())))))
        },
        Message::SyncVNodeWithSuccessor { data } => {
            &&& post.inbox@ == pre.inbox@
            &&& post.dht == (PeerRing { store: post.dht.store, cache: post.dht.cache, ..dht })
            &&& crate::chord::models(post.dht.store@) == crate::chord::synced_models(
                crate::chord::models(dht.store@),
                data@,
                data@.len() as int,
            )
            &&& ev.len() == 0
        },
        Message::CustomMessage(b) => {
            &&& post.dht == dht
            &&& (atd ==> ev.len() == 0 && post.inbox@.len() == pre.inbox@.len() + 1
                && post.inbox@ == pre.inbox@.push((addr, post.inbox@.last().1))
                && post.inbox@.last().1@ == b@)
            &&& (!atd ==> post == pre && ev.len() == 1 && ev[0]
                == (MessageHandlerEvent::ForwardPayload(Option::<Did>::None)))
        },
    }
}

impl MessageHandler {
    /// A handler over a fresh ring state, with no replication beyond the
    /// owner until a redundancy is configured.
    pub fn new(dht: PeerRing) -> (r: MessageHandler)
        ensures
            r.dht == dht,
            r.inbox@.len() == 0,
            r.redundancy == 1,
    {
        MessageHandler { dht, inbox: Vec::new(), redundancy: 1 }
    }

    /// Well-formed handler state.
    pub open spec fn wf(self) -> bool {
        self.dht.wf()
    }

    /// Learns the joining peer and asks it where this node belongs.
    pub fn handle_join_dht(&mut self, did: Did) -> (r: Vec<MessageHandlerEvent>)
        requires
            old(self).wf(),
        ensures
            final(self).wf(),
            final(self).inbox@ == old(self).inbox@,
            final(self).redundancy == old(self).redundancy,
            final(self).dht.did == old(self).dht.did,
            final(self).dht.predecessor == old(self).dht.predecessor,
            final(self).dht.store@ == old(self).dht.store@,
            final(self).dht.cache@ == old(self).dht.cache@,
            forall|i: int|
                0 <= i < 160 ==> (#[trigger] final(self).dht.finger@[i]) == old(self).dht.finger_joined(i, did),
            did != old(self).dht.did ==> final(self).dht.successors@.len() >= 1
                && final(self).dht.successors@[0] == crate::chord::succ_head_after(
                old(self).dht.successors@,
                old(self).dht.did,
                did,
            ),
            r@.len() == 2,
            r@[0] == MessageHandlerEvent::Connect(did),
            r@[1] == (MessageHandlerEvent::SendMessage(
                Message::FindSuccessorSend { id: old(self).dht.did, for_init: true },
                did,
            )),
    {
        let me = self.dht.did;
        self.dht.join(did);
        let mut r: Vec<MessageHandlerEvent> = Vec::new();
        r.push(MessageHandlerEvent::Connect(did));
        r.push(MessageHandlerEvent::SendMessage(
            Message::FindSuccessorSend { id: me, for_init: true },
            did,
        ));
        r
    }

    /// Forgets the leaving peer everywhere.
    pub fn handle_leave_dht(&mut self, did: Did) -> (r: Vec<MessageHandlerEvent>)
        requires
            old(self).wf(),
        ensures
            final(self).wf(),
            final(self).inbox@ == old(self).inbox@,
            final(self).redundancy == old(self).redundancy,
            final(self).dht.did == old(self).dht.did,
            final(self).dht.store@ == old(self).dht.store@,
            final(self).dht.cache@ == old(self).dht.cache@,
            forall|i: int|
                0 <= i < 160 ==> (#[trigger] final(self).dht.finger@[i]) == (if old(
                    self,
                ).dht.finger@[i] == Some(did) {
                    Option::<Did>::None
                } else {
                    old(self).dht.finger@[i]
                }),
            final(self).dht.successors@ == PeerRing::seq_remove_all(
                old(self).dht.successors@,
                did,
                old(self).dht.successors@.len() as int,
            ),
            final(self).dht.predecessor == (if old(self).dht.predecessor == Some(did) {
                Option::<Did>::None
            } else {
                old(self).dht.predecessor
            }),
            r@.len() == 1,
            r@[0] == MessageHandlerEvent::Disconnect(did),
    {
        self.dht.remove(did);
        let mut r: Vec<MessageHandlerEvent> = Vec::new();
        r.push(MessageHandlerEvent::Disconnect(did));
        r
    }

    /// Answers a successor lookup locally when the top successor covers
    /// the identifier, else forwards towards the closest preceding node.
    pub fn handle_find_successor(&mut self, id: Did, for_init: bool) -> (r: Vec<
        MessageHandlerEvent,
    >)
        requires
            old(self).wf(),
        ensures
            final(self).wf(),
            *final(self) == *old(self),
            r@.len() == 1,
            crate::did::in_oc(
                id.value(),
                old(self).dht.did.value(),
                old(self).dht.spec_succ_or_self().value(),
            ) ==> r@[0] == (MessageHandlerEvent::SendReportMessage(
                Message::FindSuccessorReport {
                    id: old(self).dht.spec_succ_or_self(),
                    for_init,
                },
            )),
            !crate::did::in_oc(
                id.value(),
                old(self).dht.did.value(),
                old(self).dht.spec_succ_or_self().value(),
            ) ==> r@[0] == (MessageHandlerEvent::ForwardPayload(
                Some(old(self).dht.spec_cpn(id.value())),
            )),
    {
        let act = self.dht.find_successor(&id);
        let mut r: Vec<MessageHandlerEvent> = Vec::new();
        match act {
            PeerRingAction::SomeDid(s) => {
                r.push(MessageHandlerEvent::SendReportMessage(Message::FindSuccessorReport {
                    id: s,
                    for_init,
                }));
            },
            PeerRingAction::RemoteAction(next, _) => {
                r.push(MessageHandlerEvent::ForwardPayload(Some(next)));
            },
            _ => {
                proof {
                    assert(false);
                }
            },
        }
        r
    }

    /// Installs a found successor: into the successor list on a join,
    /// into the finger table on maintenance.
    pub fn handle_find_successor_report(&mut self, id: Did, for_init: bool) -> (r: Vec<
        MessageHandlerEvent,
    >)
        requires
            old(self).wf(),
        ensures
            final(self).wf(),
            final(self).inbox@ == old(self).inbox@,
            final(self).redundancy == old(self).redundancy,
            final(self).dht.did == old(self).dht.did,
            id != old(self).dht.did ==> final(self).dht.successors@.len() >= 1 && final(self).dht.successors@[0] == crate::chord::succ_head_after(
                old(self).dht.successors@,
                old(self).dht.did,
                id,
            ),
            r@.len() == 1,
            r@[0] == MessageHandlerEvent::Connect(id),
    {
        if for_init {
            self.dht.add_successor(id);
        } else {
            self.dht.join(id);
        }
        let mut r: Vec<MessageHandlerEvent> = Vec::new();
        r.push(MessageHandlerEvent::Connect(id));
        r
    }

    /// Chord notify: adopts the sender as predecessor when closer, hands
    /// over records it now owns, and reports the standing predecessor.
    pub fn handle_notify_predecessor_send(&mut self, p: Did) -> (r: Vec<MessageHandlerEvent>)
        requires
            old(self).wf(),
        ensures
            final(self).wf(),
            final(self).inbox@ == old(self).inbox@,
            final(self).redundancy == old(self).redundancy,
            final(self).dht.did == old(self).dht.did,
            p != old(self).dht.did && old(self).dht.notify_sets(p) ==> {
                let moved = PeerRing::split_move(
                    old(self).dht.store@,
                    p,
                    old(self).dht.did,
                    old(self).dht.store@.len() as int,
                );
                &&& final(self).dht.predecessor == Some(p)
                &&& final(self).dht.store@ == PeerRing::split_keep(
                    old(self).dht.store@,
                    p,
                    old(self).dht.did,
                    old(self).dht.store@.len() as int,
                )
                &&& (moved.len() == 0 ==> r@.len() == 1)
                &&& (moved.len() > 0 ==> r@.len() == 2 && (r@[1] matches
                    MessageHandlerEvent::SendMessage(m, target) && target == p && (m matches
                    Message::SyncVNodeWithSuccessor { data: recs } && recs@ == moved)))
            },
            p == old(self).dht.did || !old(self).dht.notify_sets(p) ==> *final(self) == *old(self)
                && r@.len() == 1,
            r@.len() >= 1,
            r@[0] matches MessageHandlerEvent::SendReportMessage(m) && (m matches
                Message::NotifyPredecessorReport { did: q, successors: l } && q == (
            match final(self).dht.predecessor {
                Some(q2) => q2,
                None => final(self).dht.did,
            }) && l@ == old(self).dht.successors@),
    {
        let before = match self.predecessor_copy() {
            Some(q) => Some(q),
            None => None,
        };
        let now_pred = self.dht.notify(p);
        let mut r: Vec<MessageHandlerEvent> = Vec::new();
        let reply = match now_pred {
            Some(q) => q,
            None => self.dht.did,
        };
        let mut succs: Vec<Did> = Vec::new();
        let m = self.dht.successors.len();
        let mut k: usize = 0;
        while k < m
            invariant
                k <= m,
                m == self.dht.successors@.len(),
                succs@ == self.dht.successors@.take(k as int),
            decreases m - k,
        {
            succs.push(self.dht.successors[k]);
            proof {
                assert(succs@ =~= self.dht.successors@.take(k + 1));
            }
            k = k + 1;
        }
        proof {
            assert(succs@ =~= self.dht.successors@);
        }
        r.push(MessageHandlerEvent::SendReportMessage(Message::NotifyPredecessorReport {
            did: reply,
            successors: succs,
        }));
        let changed = match (before, now_pred) {
            (Some(b), Some(q)) => !(b.hi == q.hi && b.lo == q.lo),
            (None, Some(_)) => true,
            _ => false,
        };
        proof {
            match (before, now_pred) {
                (Some(b), Some(q)) => crate::did::lemma_limb_order(b, q),
                _ => {},
            }
        }
        if changed {
            let moved = self.dht.take_vnodes_not_in(&p);
            if moved.len() > 0 {
                r.push(MessageHandlerEvent::SendMessage(
                    Message::SyncVNodeWithSuccessor { data: moved },
                    p,
                ));
            }
        }
        r
    }

    /// Reads the predecessor without touching it.
    fn predecessor_copy(&self) -> (r: Option<Did>)
        ensures
            r == self.dht.predecessor,
    {
        match self.dht.predecessor {
            Some(q) => Some(q),
            None => None,
        }
    }

    /// The stabilize answer: adopts the reported predecessor as top
    /// successor when it falls between this node and its successor, and
    /// refills the tail of a shrunken successor list from the reported
    /// list, leaving the head in place.
    pub fn handle_notify_predecessor_report(&mut self, x: Did, list: &Vec<Did>) -> (r: Vec<
        MessageHandlerEvent,
    >)
        requires
            old(self).wf(),
        ensures
            final(self).wf(),
            final(self).inbox@ == old(self).inbox@,
            final(self).redundancy == old(self).redundancy,
            final(self).dht.did == old(self).dht.did,
            final(self).dht.predecessor == old(self).dht.predecessor,
            final(self).dht.finger@ == old(self).dht.finger@,
            final(self).dht.store@ == old(self).dht.store@,
            final(self).dht.cache@ == old(self).dht.cache@,
            final(self).dht.max_succ == old(self).dht.max_succ,
            final(self).dht.fix_index == old(self).dht.fix_index,
            final(self).dht.successors@.len() >= old(self).dht.successors@.len(),
            r@.len() == 0,
            old(self).dht.successors@.len() == 0 ==> final(self).dht.successors@ == old(
                self,
            ).dht.successors@,
            old(self).dht.successors@.len() > 0 && in_oo(
                x.value(),
                old(self).dht.did.value(),
                old(self).dht.successors@[0].value(),
            ) && x != old(self).dht.did ==> final(self).dht.successors@.len() >= 1 && final(self).dht.successors@[0] == x,
            old(self).dht.successors@.len() > 0 && !(in_oo(
                x.value(),
                old(self).dht.did.value(),
                old(self).dht.successors@[0].value(),
            ) && x != old(self).dht.did) ==> final(self).dht.successors@.len() >= 1 && final(self).dht.successors@[0] == old(self).dht.successors@[0],
    {
        if self.dht.successors.len() == 0 {
            return Vec::new();
        }
        let succ = self.dht.successors[0];
        if x.in_open(&self.dht.did, &succ) {
            proof {
                crate::did::lemma_limb_order(x, self.dht.did);
                crate::did::lemma_limb_order(succ, x);
                crate::did::lemma_limb_order(self.dht.did, x);
                crate::did::lemma_in_oc_dist(
                    x.value(),
                    self.dht.did.value(),
                    succ.value(),
                );
            }
            self.dht.add_successor(x);
        }
        let head = self.dht.successors[0];
        let me = self.dht.did;
        let n = list.len();
        let mut i: usize = 0;
        while i < n
            invariant
                i <= n,
                n == list@.len(),
                self.wf(),
                me == self.dht.did,
                self.inbox@ == old(self).inbox@,
                self.redundancy == old(self).redundancy,
                self.dht.did == old(self).dht.did,
                self.dht.predecessor == old(self).dht.predecessor,
                self.dht.finger@ == old(self).dht.finger@,
                self.dht.store@ == old(self).dht.store@,
                self.dht.cache@ == old(self).dht.cache@,
                self.dht.max_succ == old(self).dht.max_succ,
                self.dht.fix_index == old(self).dht.fix_index,
                self.dht.successors@.len() >= old(self).dht.successors@.len(),
                self.dht.successors@.len() >= 1,
                self.dht.successors@[0] == head,
            decreases n - i,
        {
            let d = list[i];
            if self.dht.successors.len() < self.dht.max_succ && d.in_open(&head, &me) {
                proof {
                    crate::did::lemma_limb_order(d, me);
                    crate::did::lemma_limb_order(head, me);
                    crate::did::lemma_limb_order(me, head);
                    crate::did::lemma_in_oc_dist(d.value(), me.value(), head.value());
                    crate::did::lemma_in_oc_dist(d.value(), head.value(), me.value());
                    assert(!crate::did::in_oc(d.value(), me.value(), head.value())) by {
                        crate::did::lemma_dist_shape(me.value(), d.value());
                        crate::did::lemma_dist_shape(me.value(), head.value());
                        crate::did::lemma_dist_shape(head.value(), d.value());
                        crate::did::lemma_dist_shape(head.value(), me.value());
                    }
                }
                self.dht.add_successor(d);
                proof {
                    crate::did::lemma_in_oc_dist(d.value(), me.value(), head.value());
                }
            }
            i = i + 1;
        }
        Vec::new()
    }

    /// Answers a record search locally when stored here, else forwards.
    pub fn handle_search_vnode(&mut self, vid: Did) -> (r: Vec<MessageHandlerEvent>)
        requires
            old(self).wf(),
        ensures
            final(self).wf(),
            *final(self) == *old(self),
            has_vid(old(self).dht.store@, vid) ==> r@.len() == 1 && (r@[0] matches
                MessageHandlerEvent::SendReportMessage(m) && (m matches Message::FoundVNode {
                data,
            } && data@.len() == 1 && data@[0]@.did == vid && data@[0]@ == old(self).dht.store@[crate::chord::vid_index(old(self).dht.store@, vid)]@)),
            !has_vid(old(self).dht.store@, vid) && old(self).dht.successors@.len() == 0 ==> r@.len()
                == 0,
            !has_vid(old(self).dht.store@, vid) && old(self).dht.successors@.len() > 0 ==> r@.len()
                == 1 && r@[0] == (MessageHandlerEvent::ForwardPayload(
                Some(old(self).dht.op_next(vid)),
            )),
    {
        let act = self.dht.vnode_lookup(&vid);
        let mut r: Vec<MessageHandlerEvent> = Vec::new();
        match act {
            PeerRingAction::SomeVNode(v) => {
                let mut data: Vec<VirtualNode> = Vec::new();
                data.push(v);
                r.push(MessageHandlerEvent::SendReportMessage(Message::FoundVNode { data }));
            },
            PeerRingAction::RemoteAction(next, _) => {
                r.push(MessageHandlerEvent::ForwardPayload(Some(next)));
            },
            PeerRingAction::NoAction => {},
            _ => {
                proof {
                    assert(false);
                }
            },
        }
        r
    }

    /// Caches found records at the requester; forwards otherwise.
    pub fn handle_found_vnode(&mut self, at_destination: bool, data: &Vec<VirtualNode>) -> (r:
        Vec<MessageHandlerEvent>)
        requires
            old(self).wf(),
        ensures
            final(self).wf(),
            final(self).inbox@ == old(self).inbox@,
            final(self).redundancy == old(self).redundancy,
            final(self).dht.did == old(self).dht.did,
            final(self).dht.store@ == old(self).dht.store@,
            !at_destination ==> r@.len() == 1 && r@[0] == (MessageHandlerEvent::ForwardPayload(
                Option::<Did>::None,
            )) && *final(self) == *old(self),
            at_destination ==> r@.len() == 0 && final(self).dht == (PeerRing {
                cache: final(self).dht.cache,
                ..old(self).dht
            }) && crate::chord::models(final(self).dht.cache@) == crate::chord::cached_after(
                old(self).dht.store@,
                crate::chord::models(old(self).dht.cache@),
                data@,
                data@.len() as int,
            ),
    {
        let mut r: Vec<MessageHandlerEvent> = Vec::new();
        if !at_destination {
            r.push(MessageHandlerEvent::ForwardPayload(None));
            return r;
        }
        let n = data.len();
        let mut i: usize = 0;
        while i < n
            invariant
                i <= n,
                n == data@.len(),
                self.wf(),
                self.inbox@ == old(self).inbox@,
                self.redundancy == old(self).redundancy,
                self.dht == (PeerRing { cache: self.dht.cache, ..old(self).dht }),
                crate::chord::models(self.dht.cache@) == crate::chord::cached_after(
                    old(self).dht.store@,
                    crate::chord::models(old(self).dht.cache@),
                    data@,
                    i as int,
                ),
            decreases n - i,
        {
            let v = copy_vnode(&data[i]);
            proof {
                assert(v.did == data@[i as int].did);
            }
            self.dht.local_cache_set(v);
            i = i + 1;
        }
        r
    }

    /// Applies a mutation when this node owns the address and asks for
    /// its replication to `redundancy - 1` successors; else forwards it
    /// one hop closer to the owner.
    pub fn handle_operate_vnode(&mut self, op: VNodeOperation) -> (r: Vec<MessageHandlerEvent>)
        requires
            old(self).wf(),
        ensures
            final(self).wf(),
            final(self).inbox@ == old(self).inbox@,
            final(self).redundancy == old(self).redundancy,
            final(self).dht.did == old(self).dht.did,
            old(self).dht.owns(op.spec_target()) ==> {
                &&& final(self).dht == (PeerRing {
                    store: final(self).dht.store,
                    cache: final(self).dht.cache,
                    ..old(self).dht
                })
                &&& !has_vid(final(self).dht.cache@, op.spec_target())
                &&& crate::chord::models(final(self).dht.store@) == (match op {
                    VNodeOperation::Overwrite(v) => crate::chord::put_model(
                        crate::chord::models(old(self).dht.store@),
                        v@,
                    ),
                    VNodeOperation::Extend(v) => crate::chord::extend_model(
                        crate::chord::models(old(self).dht.store@),
                        v@,
                    ),
                    VNodeOperation::Touch(v) => crate::chord::touch_model(
                        crate::chord::models(old(self).dht.store@),
                        v@,
                    ),
                })
                &&& r@.len() == sync_fan(
                    old(self).redundancy,
                    old(self).dht.successors@.len() as int,
                )
                &&& forall|j: int|
                    0 <= j < r@.len() ==> (#[trigger] r@[j])
                        == MessageHandlerEvent::SyncVNodeWithSuccessor(
                        old(self).dht.successors@[j],
                    )
            },
            !old(self).dht.owns(op.spec_target()) ==> *final(self) == *old(self) && r@.len() == 1
                && r@[0] == (MessageHandlerEvent::ForwardPayload(
                Some(old(self).dht.op_next(op.spec_target())),
            )),
    {
        let act = self.dht.vnode_operate(op);
        let mut r: Vec<MessageHandlerEvent> = Vec::new();
        match act {
            PeerRingAction::NoAction => {
                let fan: usize = if self.redundancy <= 1 {
                    0
                } else {
                    let want = (self.redundancy - 1) as usize;
                    if want <= self.dht.successors.len() {
                        want
                    } else {
                        self.dht.successors.len()
                    }
                };
                let ghost mid = *self;
                proof {
                    assert(fan as int == sync_fan(
                        old(self).redundancy,
                        old(self).dht.successors@.len() as int,
                    ));
                }
                let mut j: usize = 0;
                while j < fan
                    invariant
                        j <= fan,
                        fan <= self.dht.successors@.len(),
                        r@.len() == j,
                        forall|m: int|
                            0 <= m < j ==> (#[trigger] r@[m])
                                == MessageHandlerEvent::SyncVNodeWithSuccessor(
                                self.dht.successors@[m],
                            ),
                        *self == mid,
                        mid.dht.successors@ == old(self).dht.successors@,
                    decreases fan - j,
                {
                    r.push(MessageHandlerEvent::SyncVNodeWithSuccessor(self.dht.successors[j]));
                    j = j + 1;
                }
            },
            PeerRingAction::RemoteAction(next, _) => {
                r.push(MessageHandlerEvent::ForwardPayload(Some(next)));
            },
            _ => {
                proof {
                    assert(false);
                }
            },
        }
        r
    }

    /// Stores replicated records as they come, without routing.
    pub fn handle_sync_vnode(&mut self, data: &Vec<VirtualNode>) -> (r: Vec<MessageHandlerEvent>)
        requires
            old(self).wf(),
        ensures
            final(self).wf(),
            final(self).inbox@ == old(self).inbox@,
            final(self).redundancy == old(self).redundancy,
            final(self).dht == (PeerRing {
                store: final(self).dht.store,
                cache: final(self).dht.cache,
                ..old(self).dht
            }),
            crate::chord::models(final(self).dht.store@) == crate::chord::synced_models(
                crate::chord::models(old(self).dht.store@),
                data@,
                data@.len() as int,
            ),
            r@.len() == 0,
    {
        let n = data.len();
        let mut i: usize = 0;
        while i < n
            invariant
                i <= n,
                n == data@.len(),
                self.wf(),
                self.inbox@ == old(self).inbox@,
                self.redundancy == old(self).redundancy,
                self.dht == (PeerRing {
                    store: self.dht.store,
                    cache: self.dht.cache,
                    ..old(self).dht
                }),
                crate::chord::models(self.dht.store@) == crate::chord::synced_models(
                    crate::chord::models(old(self).dht.store@),
                    data@,
                    i as int,
                ),
            decreases n - i,
        {
            self.dht.apply_op(VNodeOperation::Overwrite(copy_vnode(&data[i])));
            i = i + 1;
        }
        Vec::new()
    }

    /// Logs an application payload at its destination.
    pub fn handle_custom_message(&mut self, at_destination: bool, from: Did, body: &Vec<u8>) -> (r:
        Vec<MessageHandlerEvent>)
        requires
            old(self).wf(),
        ensures
            final(self).wf(),
            final(self).dht == old(self).dht,
            final(self).redundancy == old(self).redundancy,
            at_destination ==> r@.len() == 0 && final(self).inbox@.len() == old(self).inbox@.len() + 1 && final(self).inbox@ =~= old(self).inbox@.push(
                (from, final(self).inbox@.last().1),
            ) && final(self).inbox@.last().1@ == body@,
            !at_destination ==> *final(self) == *old(self) && r@.len() == 1 && r@[0]
                == (MessageHandlerEvent::ForwardPayload(Option::<Did>::None)),
    {
        let mut r: Vec<MessageHandlerEvent> = Vec::new();
        if at_destination {
            let copy = body.clone();
            proof {
                assert(copy@ =~= body@);
            }
            self.inbox.push((from, copy));
        } else {
            r.push(MessageHandlerEvent::ForwardPayload(None));
        }
        r
    }

    /// Hands a handshake payload to the transport layer at its
    /// destination; forwards otherwise.
    pub fn handle_connect_node(&mut self, at_destination: bool, report: bool) -> (r: Vec<
        MessageHandlerEvent,
    >)
        requires
            old(self).wf(),
        ensures
            final(self).wf(),
            *final(self) == *old(self),
            r@.len() == 1,
            at_destination && !report ==> r@[0] == MessageHandlerEvent::AnswerOffer,
            at_destination && report ==> r@[0] == MessageHandlerEvent::AcceptAnswer,
            !at_destination ==> r@[0] == (MessageHandlerEvent::ForwardPayload(
                Option::<Did>::None,
            )),
    {
        let mut r: Vec<MessageHandlerEvent> = Vec::new();
        if !at_destination {
            r.push(MessageHandlerEvent::ForwardPayload(None));
        } else if report {
            r.push(MessageHandlerEvent::AcceptAnswer);
        } else {
            r.push(MessageHandlerEvent::AnswerOffer);
        }
        r
    }

    /// Dispatches an inbound payload to the handler for its body kind.
    /// Application payloads addressed to this node land in the inbox;
    /// everything else may mutate the ring and yields follow-up events.
    pub fn handle_message(&mut self, payload: &MessagePayload) -> (r: Result<
        Vec<MessageHandlerEvent>,
        Error,
    >)
        requires
            old(self).wf(),
        ensures
            final(self).wf(),
            final(self).dht.did == old(self).dht.did,
            r is Ok,
            dispatch_post(*old(self), *final(self), *payload, r),
    {
        let me = self.dht.did;
        let at_destination = payload.relay.destination.hi == me.hi
            && payload.relay.destination.lo == me.lo;
        proof {
            crate::did::lemma_limb_order(payload.relay.destination, me);
        }
        let events = match &payload.data {
            Message::JoinDHT(d) => self.handle_join_dht(*d),
            Message::LeaveDHT(d) => self.handle_leave_dht(*d),
            Message::ConnectNodeSend(_) => self.handle_connect_node(at_destination, false),
            Message::ConnectNodeReport(_) => self.handle_connect_node(at_destination, true),
            Message::FindSuccessorSend { id, for_init } => self.handle_find_successor(
                *id,
                *for_init,
            ),
            Message::FindSuccessorReport { id, for_init } => self.handle_find_successor_report(
                *id,
                *for_init,
            ),
            Message::NotifyPredecessorSend { did } => self.handle_notify_predecessor_send(*did),
            Message::NotifyPredecessorReport { did, successors } => self.handle_notify_predecessor_report(
                *did,
                successors,
            ),
            Message::SearchVNode { vid } => self.handle_search_vnode(*vid),
            Message::FoundVNode { data } => self.handle_found_vnode(at_destination, data),
            Message::OperateVNode(op) => self.handle_operate_vnode(copy_op(op)),
            Message::SyncVNodeWithSuccessor { data } => self.handle_sync_vnode(data),
            Message::CustomMessage(b) => self.handle_custom_message(
                at_destination,
                payload.addr,
                b,
            ),
        };
        Ok(events)
    }
}

impl HandleMsg<Message> for MessageHandler {
    open spec fn hm_wf(&self) -> bool {
        self.wf()
    }

    open spec fn hm_post(
        pre: MessageHandler,
        post: MessageHandler,
        ctx: MessagePayload,
        msg: Message,
        r: Result<Vec<MessageHandlerEvent>, Error>,
    ) -> bool {
        dispatch_post(pre, post, ctx, r)
    }

    fn handle(&mut self, ctx: &MessagePayload, _msg: &Message) -> (r: Result<
        Vec<MessageHandlerEvent>,
        Error,
    >) {
        self.handle_message(ctx)
    }
}

} // verus!
