//! The signed payload envelope every message travels in.

use vstd::prelude::*;

use crate::bytes_be::bytes_eq;
use crate::bytes_be::bytes_of;
use crate::bytes_be::push_be;
use crate::crypto::ecdsa_recover;
use crate::crypto::rec_of;
use crate::crypto::sha256;
use crate::crypto::sha256_of;
use crate::did::Did;
use crate::did::did_bytes;
use crate::message::Message;
use crate::message::enc_message;
use crate::message::push_message;
use crate::relay::MessageRelay;
use crate::session::DelegatedSession;
use crate::session::SessionAuth;
use crate::session::auth_wf;
use crate::session::verify_auth;

verus! {

/// Hops a fresh payload may take.
pub const DEFAULT_TTL: u32 = 64;

/// A signed envelope: body, origin, routing state, session authorization,
/// signature, and remaining hops.
#[derive(Clone, Debug)]
pub struct MessagePayload {
    /// Transaction identifier, fresh per payload.
    pub tx_id: u128,
    /// The message body.
    pub data: Message,
    /// The origin's identity.
    pub addr: Did,
    /// Forward or backward routing state; mutates hop by hop.
    pub relay: MessageRelay,
    /// The origin's session authorization record.
    pub auth: SessionAuth,
    /// Session signature over the canonical bytes.
    pub sig: Vec<u8>,
    /// Hops remaining.
    pub ttl: u32,
}

/// The canonical bytes a payload signature covers: everything immutable
/// under routing — the transaction id, the origin, the authorization's
/// expiry and session key, and the body. The relay state stays outside,
/// as it mutates at every hop.
pub open spec fn payload_core_bytes(p: MessagePayload) -> Seq<u8> {
    bytes_of(p.tx_id as int, 16) + did_bytes(p.addr) + bytes_of(p.auth.expiry as int, 8)
        + p.auth.session_pub@ + enc_message(p.data)
}

/// The digest the payload signature covers.
pub open spec fn payload_digest(p: MessagePayload) -> Seq<u8> {
    sha256_of(payload_core_bytes(p))
}

/// A payload signed by a session that the claimed origin authorized.
pub open spec fn payload_sig_ok(p: MessagePayload) -> bool {
    &&& p.sig@.len() == 65
    &&& rec_of(payload_digest(p), p.sig@) == Some(p.auth.session_pub@)
    &&& auth_wf(p.auth, p.addr)
}

/// What the router accepts at time `now`: a valid signature, hops left,
/// and a live session.
pub open spec fn payload_verifies(p: MessagePayload, now: u64) -> bool {
    &&& payload_sig_ok(p)
    &&& p.ttl > 0
    &&& now < p.auth.expiry
}

/// Builds the canonical bytes of a payload's immutable core.
pub fn build_core_bytes(tx_id: u128, addr: &Did, auth: &SessionAuth, data: &Message) -> (r: Vec<
    u8,
>)
    ensures
        r@ =~= bytes_of(tx_id as int, 16) + did_bytes(*addr) + bytes_of(auth.expiry as int, 8)
            + auth.session_pub@ + enc_message(*data),
{
    let mut out: Vec<u8> = Vec::new();
    push_be(&mut out, tx_id, 16);
    addr.to_bytes(&mut out);
    push_be(&mut out, auth.expiry as u128, 8);
    let ghost mid = out@;
    let n = auth.session_pub.len();
    let mut i: usize = 0;
    while i < n
        invariant
            i <= n,
            n == auth.session_pub@.len(),
            out@ =~= mid + auth.session_pub@.subrange(0, i as int),
        decreases n - i,
    {
        out.push(auth.session_pub[i]);
        proof {
            assert(out@ =~= mid + auth.session_pub@.subrange(0, i + 1));
        }
        i = i + 1;
    }
    proof {
        assert(auth.session_pub@.subrange(0, n as int) =~= auth.session_pub@);
    }
    push_message(&mut out, data);
    out
}

/// Checks a payload envelope at time `now`.
pub fn verify_payload(p: &MessagePayload, now: u64) -> (r: bool)
    ensures
        r == payload_verifies(*p, now),
{
    if p.sig.len() != 65 {
        return false;
    }
    let core = build_core_bytes(p.tx_id, &p.addr, &p.auth, &p.data);
    let digest = sha256(&core);
    match ecdsa_recover(&digest, &p.sig) {
        Some(q) => {
            bytes_eq(&q, &p.auth.session_pub) && verify_auth(&p.auth, &p.addr) && p.ttl > 0 && now
                < p.auth.expiry
        },
        None => false,
    }
}

/// Signs a message body into a payload envelope.
pub fn sign_payload(
    session: &DelegatedSession,
    tx_id: u128,
    data: Message,
    relay: MessageRelay,
    ttl: u32,
) -> (r: MessagePayload)
    ensures
        payload_sig_ok(r),
        r.tx_id == tx_id,
        r.data == data,
        r.addr == session.spec_owner(),
        r.relay == relay,
        r.ttl == ttl,
        r.auth.expiry == session.spec_auth().expiry,
{
    let addr = session.owner();
    let auth = session.auth();
    let core = build_core_bytes(tx_id, &addr, &auth, &data);
    let digest = sha256(&core);
    let sig = session.sign(&digest);
    MessagePayload { tx_id, data, addr, relay, auth, sig, ttl }
}

} // verus!
