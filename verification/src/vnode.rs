//! Virtual nodes: ring-addressed records stored by the node that
//! clockwise-owns their identifier.

use vstd::prelude::*;

use crate::codec::Encoded;
use crate::crypto::sha256;
use crate::crypto::sha256_of;
use crate::did::Did;

verus! {

/// The kind of a virtual node's contents.
#[derive(Clone, Copy, Debug, PartialEq, Eq, Structural)]
pub enum VNodeKind {
    /// An ordered sequence of opaque blobs.
    Data,
    /// A sorted set of ring identifiers.
    Subring,
    /// Undelivered relay envelopes keyed by destination.
    RelayMessage,
}

/// A record addressed by a ring identifier.
#[derive(Clone, Debug)]
pub struct VirtualNode {
    /// Ring address of the record; its owner is the clockwise successor.
    pub did: Did,
    /// The record's blobs, in insertion order.
    pub data: Vec<Encoded>,
    /// What the blobs mean.
    pub kind: VNodeKind,
}

/// The mathematical content of a virtual node.
pub ghost struct VNodeModel {
    pub did: Did,
    pub data: Seq<Seq<u8>>,
    pub kind: VNodeKind,
}

impl View for VirtualNode {
    type V = VNodeModel;

    open spec fn view(&self) -> VNodeModel {
        VNodeModel {
            did: self.did,
            data: self.data@.map(|i: int, e: Encoded| e.data@),
            kind: self.kind,
        }
    }
}

impl PartialEq for VirtualNode {
    fn eq(&self, other: &VirtualNode) -> (r: bool) {
        let r = self.did == other.did && self.kind == other.kind && self.data == other.data;
        proof {
            if r {
                assert(self@.data =~= other@.data);
            } else {
                if self@ == other@ {
                    assert(self@.data.len() == self.data@.len());
                    assert(other@.data.len() == other.data@.len());
                    assert forall|i: int| 0 <= i < self.data@.len() implies self.data@[i].data@
                        == other.data@[i].data@ by {
                        assert(self@.data[i] == self.data@[i].data@);
                        assert(other@.data[i] == other.data@[i].data@);
                    }
                    assert(false);
                }
            }
        }
        r
    }
}

impl vstd::std_specs::cmp::PartialEqSpecImpl for VirtualNode {
    open spec fn obeys_eq_spec() -> bool {
        true
    }

    open spec fn eq_spec(&self, other: &VirtualNode) -> bool {
        self@ == other@
    }
}

/// The ring address a named record lives at: the digest of its name.
pub open spec fn vnode_did_of(name: Seq<u8>) -> Did {
    Did {
        hi: crate::bytes_be::bytes_be_int(sha256_of(name).subrange(12, 16)) as u32,
        lo: crate::bytes_be::bytes_be_int(sha256_of(name).subrange(16, 32)) as u128,
    }
}

/// Derives the ring address of a named record.
pub fn vnode_did(name: &Vec<u8>) -> (r: Did)
    ensures
        r == vnode_did_of(name@),
{
    let h = sha256(name);
    crate::session::did_from_hash(&h)
}

impl VirtualNode {
    /// A fresh `Data` record under a name, holding the given blobs.
    pub fn new_data(name: &Vec<u8>, data: Vec<Encoded>) -> (r: VirtualNode)
        ensures
            r.did == vnode_did_of(name@),
            r.data == data,
            r.kind == VNodeKind::Data,
    {
        VirtualNode { did: vnode_did(name), data, kind: VNodeKind::Data }
    }
}

/// Copies a virtual node, content for content.
pub fn copy_vnode(v: &VirtualNode) -> (r: VirtualNode)
    ensures
        r@ == v@,
{
    let mut data: Vec<Encoded> = Vec::new();
    let n = v.data.len();
    let mut i: usize = 0;
    while i < n
        invariant
            i <= n,
            n == v.data@.len(),
            data@.len() == i,
            forall|j: int| 0 <= j < i ==> (#[trigger] data@[j]).data@ == v.data@[j].data@,
        decreases n - i,
    {
        data.push(crate::codec::clone_encoded(&v.data[i]));
        i = i + 1;
    }
    let r = VirtualNode { did: v.did, data, kind: v.kind };
    proof {
        assert(r@.data =~= v@.data);
    }
    r
}

/// A mutation of a stored virtual node.
#[derive(Clone, Debug)]
pub enum VNodeOperation {
    /// Replace the stored record.
    Overwrite(VirtualNode),
    /// Append the given blobs to the stored record.
    Extend(VirtualNode),
    /// Append only those given blobs that are not yet present.
    Touch(VirtualNode),
}

/// Two mutations of the same kind with the same content.
pub open spec fn op_eq(a: VNodeOperation, b: VNodeOperation) -> bool {
    match (a, b) {
        (VNodeOperation::Overwrite(x), VNodeOperation::Overwrite(y)) => x@ == y@,
        (VNodeOperation::Extend(x), VNodeOperation::Extend(y)) => x@ == y@,
        (VNodeOperation::Touch(x), VNodeOperation::Touch(y)) => x@ == y@,
        _ => false,
    }
}

/// Copies a mutation operation.
pub fn copy_op(op: &VNodeOperation) -> (r: VNodeOperation)
    ensures
        r.spec_target() == op.spec_target(),
        op_eq(r, *op),
{
    match op {
        VNodeOperation::Overwrite(v) => VNodeOperation::Overwrite(copy_vnode(v)),
        VNodeOperation::Extend(v) => VNodeOperation::Extend(copy_vnode(v)),
        VNodeOperation::Touch(v) => VNodeOperation::Touch(copy_vnode(v)),
    }
}

impl VNodeOperation {
    /// The ring address the operation aims at.
    pub open spec fn spec_target(self) -> Did {
        match self {
            VNodeOperation::Overwrite(v) => v.did,
            VNodeOperation::Extend(v) => v.did,
            VNodeOperation::Touch(v) => v.did,
        }
    }

    /// The ring address the operation aims at.
    pub fn target(&self) -> (r: Did)
        ensures
            r == self.spec_target(),
    {
        match self {
            VNodeOperation::Overwrite(v) => v.did,
            VNodeOperation::Extend(v) => v.did,
            VNodeOperation::Touch(v) => v.did,
        }
    }
}

} // verus!
