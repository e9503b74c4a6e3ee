//! Message bodies and their canonical byte form.
//!
//! The canonical bytes are what payload signatures cover. They are a
//! function of the body alone; mutable routing state stays outside.

use vstd::prelude::*;

use crate::bytes_be::bytes_of;
use crate::bytes_be::push_be;
use crate::codec::Encoded;
use crate::did::Did;
use crate::did::did_bytes;
use crate::vnode::VNodeKind;
use crate::vnode::VNodeOperation;
use crate::vnode::VirtualNode;

verus! {

/// A message body: DHT control traffic or an application payload.
#[derive(Clone, Debug)]
pub enum Message {
    /// Learn a peer and look up this node's place in the ring.
    JoinDHT(Did),
    /// Forget a peer everywhere.
    LeaveDHT(Did),
    /// Carry a trickle handshake offer through the DHT.
    ConnectNodeSend(Vec<u8>),
    /// Carry the trickle handshake answer back.
    ConnectNodeReport(Vec<u8>),
    /// Ask for the successor of an identifier.
    FindSuccessorSend {
        /// The identifier looked up.
        id: Did,
        /// Whether the answer seeds the successor list (a join) or a
        /// finger entry (maintenance).
        for_init: bool,
    },
    /// Answer a successor lookup.
    FindSuccessorReport {
        /// The successor found.
        id: Did,
        /// Echo of the request's `for_init`.
        for_init: bool,
    },
    /// Offer oneself as a predecessor.
    NotifyPredecessorSend {
        /// The sender's identifier.
        did: Did,
    },
    /// Answer a notify with the receiver's predecessor and successor
    /// list, so the notifier can refill a shrunken list.
    NotifyPredecessorReport {
        /// The receiver's predecessor after the notify.
        did: Did,
        /// The receiver's successor list.
        successors: Vec<Did>,
    },
    /// Look for a stored virtual node.
    SearchVNode {
        /// The record's ring address.
        vid: Did,
    },
    /// Deliver found virtual nodes.
    FoundVNode {
        /// The records found.
        data: Vec<VirtualNode>,
    },
    /// Apply a mutation at the owner.
    OperateVNode(VNodeOperation),
    /// Replicate records to a successor.
    SyncVNodeWithSuccessor {
        /// The records to store.
        data: Vec<VirtualNode>,
    },
    /// An application payload with no builtin effect.
    CustomMessage(Vec<u8>),
}

/// A length-prefixed byte field.
pub open spec fn enc_bytes_field(b: Seq<u8>) -> Seq<u8> {
    bytes_of(b.len() as int, 8) + b
}

/// The canonical byte of a record kind.
pub open spec fn kind_tag(k: VNodeKind) -> u8 {
    match k {
        VNodeKind::Data => 0,
        VNodeKind::Subring => 1,
        VNodeKind::RelayMessage => 2,
    }
}

/// The first `n` blobs, each length-prefixed, concatenated.
pub open spec fn enc_blobs_prefix(s: Seq<Encoded>, n: int) -> Seq<u8>
    decreases n,
{
    if n <= 0 {
        Seq::empty()
    } else {
        enc_blobs_prefix(s, n - 1) + enc_bytes_field(s[n - 1].data@)
    }
}

/// The canonical bytes of a virtual node.
pub open spec fn enc_vnode(v: VirtualNode) -> Seq<u8> {
    did_bytes(v.did) + seq![kind_tag(v.kind)] + bytes_of(v.data@.len() as int, 8)
        + enc_blobs_prefix(v.data@, v.data@.len() as int)
}

/// The first `n` virtual nodes, concatenated.
pub open spec fn enc_vnodes_prefix(s: Seq<VirtualNode>, n: int) -> Seq<u8>
    decreases n,
{
    if n <= 0 {
        Seq::empty()
    } else {
        enc_vnodes_prefix(s, n - 1) + enc_vnode(s[n - 1])
    }
}

/// The canonical bytes of a mutation.
pub open spec fn enc_op(op: VNodeOperation) -> Seq<u8> {
    match op {
        VNodeOperation::Overwrite(v) => seq![0u8] + enc_vnode(v),
        VNodeOperation::Extend(v) => seq![1u8] + enc_vnode(v),
        VNodeOperation::Touch(v) => seq![2u8] + enc_vnode(v),
    }
}

/// The first `n` identifiers, concatenated in their canonical form.
pub open spec fn enc_dids_prefix(s: Seq<Did>, n: int) -> Seq<u8>
    decreases n,
{
    if n <= 0 {
        Seq::empty()
    } else {
        enc_dids_prefix(s, n - 1) + did_bytes(s[n - 1])
    }
}

/// The canonical byte for a boolean.
pub open spec fn bool_byte(b: bool) -> u8 {
    if b {
        1
    } else {
        0
    }
}

/// The canonical bytes of a message body.
pub open spec fn enc_message(m: Message) -> Seq<u8> {
    match m {
        Message::JoinDHT(d) => seq![0u8] + did_bytes(d),
        Message::LeaveDHT(d) => seq![1u8] + did_bytes(d),
        Message::ConnectNodeSend(h) => seq![2u8] + enc_bytes_field(h@),
        Message::ConnectNodeReport(h) => seq![3u8] + enc_bytes_field(h@),
        Message::FindSuccessorSend { id, for_init } => seq![4u8] + did_bytes(id) + seq![
            bool_byte(for_init),
        ],
        Message::FindSuccessorReport { id, for_init } => seq![5u8] + did_bytes(id) + seq![
            bool_byte(for_init),
        ],
        Message::NotifyPredecessorSend { did } => seq![6u8] + did_bytes(did),
        Message::NotifyPredecessorReport { did, successors } => seq![7u8] + did_bytes(did)
            + bytes_of(successors@.len() as int, 8) + enc_dids_prefix(
            successors@,
            successors@.len() as int,
        ),
        Message::SearchVNode { vid } => seq![8u8] + did_bytes(vid),
        Message::FoundVNode { data } => seq![9u8] + bytes_of(data@.len() as int, 8)
            + enc_vnodes_prefix(data@, data@.len() as int),
        Message::OperateVNode(op) => seq![10u8] + enc_op(op),
        Message::SyncVNodeWithSuccessor { data } => seq![11u8] + bytes_of(data@.len() as int, 8)
            + enc_vnodes_prefix(data@, data@.len() as int),
        Message::CustomMessage(b) => seq![12u8] + enc_bytes_field(b@),
    }
}

/// Appends a length-prefixed byte field.
pub fn push_bytes_field(out: &mut Vec<u8>, b: &Vec<u8>)
    ensures
        final(out)@ =~= old(out)@ + enc_bytes_field(b@),
{
    let n = b.len();
    push_be(out, n as u128, 8);
    let ghost mid = out@;
    let mut i: usize = 0;
    while i < n
        invariant
            i <= n,
            n == b@.len(),
            out@ =~= mid + b@.subrange(0, i as int),
        decreases n - i,
    {
        out.push(b[i]);
        proof {
            assert(out@ =~= mid + b@.subrange(0, i + 1));
        }
        i = i + 1;
    }
    proof {
        assert(b@.subrange(0, n as int) =~= b@);
    }
}

/// Appends the canonical bytes of a virtual node.
pub fn push_vnode(out: &mut Vec<u8>, v: &VirtualNode)
    ensures
        final(out)@ =~= old(out)@ + enc_vnode(*v),
{
    v.did.to_bytes(out);
    let tag: u8 = match v.kind {
        VNodeKind::Data => 0,
        VNodeKind::Subring => 1,
        VNodeKind::RelayMessage => 2,
    };
    out.push(tag);
    let n = v.data.len();
    push_be(out, n as u128, 8);
    let ghost mid = out@;
    let mut i: usize = 0;
    while i < n
        invariant
            i <= n,
            n == v.data@.len(),
            out@ =~= mid + enc_blobs_prefix(v.data@, i as int),
        decreases n - i,
    {
        push_bytes_field(out, &v.data[i].data);
        proof {
            assert(out@ =~= mid + enc_blobs_prefix(v.data@, i + 1));
        }
        i = i + 1;
    }
    proof {
        assert(final(out)@ =~= old(out)@ + enc_vnode(*v));
    }
}

/// Appends the canonical bytes of a virtual-node sequence.
pub fn push_vnodes(out: &mut Vec<u8>, vs: &Vec<VirtualNode>)
    ensures
        final(out)@ =~= old(out)@ + bytes_of(vs@.len() as int, 8) + enc_vnodes_prefix(
            vs@,
            vs@.len() as int,
        ),
{
    let n = vs.len();
    push_be(out, n as u128, 8);
    let ghost mid = out@;
    let mut i: usize = 0;
    while i < n
        invariant
            i <= n,
            n == vs@.len(),
            out@ =~= mid + enc_vnodes_prefix(vs@, i as int),
        decreases n - i,
    {
        push_vnode(out, &vs[i]);
        proof {
            assert(out@ =~= mid + enc_vnodes_prefix(vs@, i + 1));
        }
        i = i + 1;
    }
}

/// Appends the canonical bytes of a message body.
pub fn push_message(out: &mut Vec<u8>, m: &Message)
    ensures
        final(out)@ =~= old(out)@ + enc_message(*m),
{
    match m {
        Message::JoinDHT(d) => {
            out.push(0);
            d.to_bytes(out);
        },
        Message::LeaveDHT(d) => {
            out.push(1);
            d.to_bytes(out);
        },
        Message::ConnectNodeSend(h) => {
            out.push(2);
            push_bytes_field(out, h);
        },
        Message::ConnectNodeReport(h) => {
            out.push(3);
            push_bytes_field(out, h);
        },
        Message::FindSuccessorSend { id, for_init } => {
            out.push(4);
            id.to_bytes(out);
            out.push(if *for_init {
                1
            } else {
                0
            });
        },
        Message::FindSuccessorReport { id, for_init } => {
            out.push(5);
            id.to_bytes(out);
            out.push(if *for_init {
                1
            } else {
                0
            });
        },
        Message::NotifyPredecessorSend { did } => {
            out.push(6);
            did.to_bytes(out);
        },
        Message::NotifyPredecessorReport { did, successors } => {
            out.push(7);
            did.to_bytes(out);
            let n = successors.len();
            push_be(out, n as u128, 8);
            let ghost mid = out@;
            let mut i: usize = 0;
            while i < n
                invariant
                    i <= n,
                    n == successors@.len(),
                    out@ =~= mid + enc_dids_prefix(successors@, i as int),
                decreases n - i,
            {
                successors[i].to_bytes(out);
                proof {
                    assert(out@ =~= mid + enc_dids_prefix(successors@, i + 1));
                }
                i = i + 1;
            }
        },
        Message::SearchVNode { vid } => {
            out.push(8);
            vid.to_bytes(out);
        },
        Message::FoundVNode { data } => {
            out.push(9);
            push_vnodes(out, data);
        },
        Message::OperateVNode(op) => {
            out.push(10);
            let (tag, v): (u8, &VirtualNode) = match op {
                VNodeOperation::Overwrite(v) => (0, v),
                VNodeOperation::Extend(v) => (1, v),
                VNodeOperation::Touch(v) => (2, v),
            };
            out.push(tag);
            push_vnode(out, v);
        },
        Message::SyncVNodeWithSuccessor { data } => {
            out.push(11);
            push_vnodes(out, data);
        },
        Message::CustomMessage(b) => {
            out.push(12);
            push_bytes_field(out, b);
        },
    }
    proof {
        assert(final(out)@ =~= old(out)@ + enc_message(*m));
    }
}

} // verus!
