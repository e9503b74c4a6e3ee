//! The ICE trickle handshake: one signed envelope carrying an SDP and
//! the gathered candidates, instead of streamed candidates.

use vstd::prelude::*;

use crate::bytes_be::bytes_eq;
use crate::bytes_be::bytes_of;
use crate::bytes_be::push_be;
use crate::crypto::ecdsa_recover;
use crate::crypto::rec_of;
use crate::crypto::sha256;
use crate::crypto::sha256_of;
use crate::did::Did;
use crate::error::Error;
use crate::message::enc_bytes_field;
use crate::message::push_bytes_field;
use crate::session::DelegatedSession;
use crate::session::SessionAuth;
use crate::session::auth_wf;
use crate::session::verify_auth;
use crate::swarm::TransportState;

verus! {

/// The kind of session description a handshake step produces.
#[derive(Clone, Copy, Debug, PartialEq, Eq, Structural)]
pub enum SdpType {
    /// An initial offer.
    Offer,
    /// The answer to an offer.
    Answer,
    /// A provisional answer; not supported by the handshake.
    Pranswer,
    /// A rollback; not supported by the handshake.
    Rollback,
}

/// One gathered ICE candidate, as its wire strings.
#[derive(Clone, Debug)]
pub struct IceCandidateInfo {
    /// The candidate line.
    pub candidate: Vec<u8>,
    /// The media stream identification tag.
    pub sdp_mid: Vec<u8>,
    /// The media description index.
    pub sdp_mline_index: u16,
    /// The username fragment.
    pub username_fragment: Vec<u8>,
}

/// Two candidates with the same wire content.
pub open spec fn cand_eq(a: IceCandidateInfo, b: IceCandidateInfo) -> bool {
    &&& a.candidate@ == b.candidate@
    &&& a.sdp_mid@ == b.sdp_mid@
    &&& a.sdp_mline_index == b.sdp_mline_index
    &&& a.username_fragment@ == b.username_fragment@
}

/// The handshake body: the SDP and every gathered candidate.
#[derive(Clone, Debug)]
pub struct TricklePayload {
    /// The session description, as bytes of its wire string.
    pub sdp: Vec<u8>,
    /// The gathered candidates.
    pub candidates: Vec<IceCandidateInfo>,
}

/// A signed handshake envelope.
#[derive(Clone, Debug)]
pub struct TrickleEnvelope {
    /// The handshake body.
    pub payload: TricklePayload,
    /// The sender's identity.
    pub addr: Did,
    /// The sender's session authorization record.
    pub auth: SessionAuth,
    /// Session signature over the canonical bytes.
    pub sig: Vec<u8>,
}

/// The canonical bytes of one candidate.
pub open spec fn enc_candidate(c: IceCandidateInfo) -> Seq<u8> {
    enc_bytes_field(c.candidate@) + enc_bytes_field(c.sdp_mid@) + bytes_of(
        c.sdp_mline_index as int,
        2,
    ) + enc_bytes_field(c.username_fragment@)
}

/// The canonical bytes of the first `n` candidates.
pub open spec fn enc_candidates(s: Seq<IceCandidateInfo>, n: int) -> Seq<u8>
    decreases n,
{
    if n <= 0 {
        Seq::empty()
    } else {
        enc_candidates(s, n - 1) + enc_candidate(s[n - 1])
    }
}

/// The canonical bytes a handshake signature covers.
pub open spec fn trickle_core_bytes(e: TrickleEnvelope) -> Seq<u8> {
    crate::did::did_bytes(e.addr) + bytes_of(e.auth.expiry as int, 8) + e.auth.session_pub@
        + enc_bytes_field(e.payload.sdp@) + bytes_of(e.payload.candidates@.len() as int, 8)
        + enc_candidates(e.payload.candidates@, e.payload.candidates@.len() as int)
}

/// A handshake envelope signed by a session its origin authorized.
pub open spec fn trickle_sig_ok(e: TrickleEnvelope) -> bool {
    &&& e.sig@.len() == 65
    &&& rec_of(sha256_of(trickle_core_bytes(e)), e.sig@) == Some(e.auth.session_pub@)
    &&& auth_wf(e.auth, e.addr)
}

/// Builds the canonical bytes of a handshake envelope.
fn build_trickle_bytes(addr: &Did, auth: &SessionAuth, payload: &TricklePayload) -> (r: Vec<u8>)
    ensures
        r@ =~= crate::did::did_bytes(*addr) + bytes_of(auth.expiry as int, 8)
            + auth.session_pub@ + enc_bytes_field(payload.sdp@) + bytes_of(
            payload.candidates@.len() as int,
            8,
        ) + enc_candidates(payload.candidates@, payload.candidates@.len() as int),
{
    let mut out: Vec<u8> = Vec::new();
    addr.to_bytes(&mut out);
    push_be(&mut out, auth.expiry as u128, 8);
    let np = auth.session_pub.len();
    let mut i: usize = 0;
    let ghost mid0 = out@;
    while i < np
        invariant
            i <= np,
            np == auth.session_pub@.len(),
            out@ =~= mid0 + auth.session_pub@.subrange(0, i as int),
        decreases np - i,
    {
        out.push(auth.session_pub[i]);
        proof {
            assert(out@ =~= mid0 + auth.session_pub@.subrange(0, i + 1));
        }
        i = i + 1;
    }
    proof {
        assert(auth.session_pub@.subrange(0, np as int) =~= auth.session_pub@);
    }
    push_bytes_field(&mut out, &payload.sdp);
    let n = payload.candidates.len();
    push_be(&mut out, n as u128, 8);
    let ghost mid = out@;
    let mut k: usize = 0;
    while k < n
        invariant
            k <= n,
            n == payload.candidates@.len(),
            out@ =~= mid + enc_candidates(payload.candidates@, k as int),
        decreases n - k,
    {
        let c = &payload.candidates[k];
        push_bytes_field(&mut out, &c.candidate);
        push_bytes_field(&mut out, &c.sdp_mid);
        push_be(&mut out, c.sdp_mline_index as u128, 2);
        push_bytes_field(&mut out, &c.username_fragment);
        proof {
            assert(out@ =~= mid + enc_candidates(payload.candidates@, k + 1));
        }
        k = k + 1;
    }
    out
}

/// Wraps a local SDP and the gathered candidates into a signed handshake
/// envelope. Only offers and answers can be wrapped.
pub fn get_handshake_info(session: &DelegatedSession, kind: SdpType, payload: TricklePayload) -> (r:
    Result<TrickleEnvelope, Error>)
    ensures
        (kind == SdpType::Offer || kind == SdpType::Answer) <==> r is Ok,
        !(kind == SdpType::Offer || kind == SdpType::Answer) ==> r == Err::<
            TrickleEnvelope,
            Error,
        >(Error::UnsupportedSdpType),
        r matches Ok(e) ==> trickle_sig_ok(e) && e.addr == session.spec_owner() && e.payload.sdp@
            == payload.sdp@ && e.payload.candidates@ == payload.candidates@ && e.auth.expiry
            == session.spec_auth().expiry,
{
    match kind {
        SdpType::Offer => {},
        SdpType::Answer => {},
        _ => {
            return Err(Error::UnsupportedSdpType);
        },
    }
    let addr = session.owner();
    let auth = session.auth();
    let core = build_trickle_bytes(&addr, &auth, &payload);
    let digest = sha256(&core);
    let sig = session.sign(&digest);
    Ok(TrickleEnvelope { payload, addr, auth, sig })
}

/// Checks a handshake envelope at time `now` and, when it verifies,
/// applies its SDP and candidates to the transport and yields the
/// sender's identity. A rejected envelope leaves the transport alone.
pub fn register_remote_info(
    transport: &mut Transport,
    env: &TrickleEnvelope,
    now: u64,
) -> (r: Result<Did, Error>)
    ensures
        !trickle_sig_ok(*env) ==> r == Err::<Did, Error>(Error::InvalidSignature) && *final(transport) == *old(transport),
        trickle_sig_ok(*env) && now >= env.auth.expiry ==> r == Err::<Did, Error>(
            Error::SessionExpired,
        ) && *final(transport) == *old(transport),
        trickle_sig_ok(*env) && now < env.auth.expiry ==> r == Ok::<Did, Error>(env.addr) && (
        final(transport).remote_sdp matches Some(s) && s@ == env.payload.sdp@) && final(transport).remote_candidates@.len() == env.payload.candidates@.len() && (forall|j: int|
            0 <= j < env.payload.candidates@.len() ==> cand_eq(
                #[trigger] final(transport).remote_candidates@[j],
                env.payload.candidates@[j],
            )) && final(transport).state == TransportState::Connecting,
{
    let ok = {
        if env.sig.len() != 65 {
            false
        } else {
            let core = build_trickle_bytes(&env.addr, &env.auth, &env.payload);
            let digest = sha256(&core);
            match ecdsa_recover(&digest, &env.sig) {
                Some(q) => {
                    bytes_eq(&q, &env.auth.session_pub) && verify_auth(&env.auth, &env.addr)
                },
                None => false,
            }
        }
    };
    if !ok {
        return Err(Error::InvalidSignature);
    }
    if now >= env.auth.expiry {
        return Err(Error::SessionExpired);
    }
    let sdp = env.payload.sdp.clone();
    proof {
        assert(sdp@ =~= env.payload.sdp@);
    }
    transport.remote_sdp = Some(sdp);
    let mut cands: Vec<IceCandidateInfo> = Vec::new();
    let n = env.payload.candidates.len();
    let mut i: usize = 0;
    while i < n
        invariant
            i <= n,
            n == env.payload.candidates@.len(),
            cands@.len() == i,
            forall|j: int|
                0 <= j < i ==> cand_eq(#[trigger] cands@[j], env.payload.candidates@[j]),
        decreases n - i,
    {
        let c = &env.payload.candidates[i];
        let cc = IceCandidateInfo {
            candidate: c.candidate.clone(),
            sdp_mid: c.sdp_mid.clone(),
            sdp_mline_index: c.sdp_mline_index,
            username_fragment: c.username_fragment.clone(),
        };
        cands.push(cc);
        i = i + 1;
    }
    transport.remote_candidates = cands;
    transport.state = TransportState::Connecting;
    Ok(env.addr)
}

/// The model of one peer connection: its lifecycle state, the applied
/// remote description, and the candidate lists.
pub struct Transport {
    /// Where the connection stands.
    pub state: TransportState,
    /// The remote description, once registered.
    pub remote_sdp: Option<Vec<u8>>,
    /// The remote candidates, once registered.
    pub remote_candidates: Vec<IceCandidateInfo>,
    /// Locally gathered candidates, filled by the gathering callback.
    pub pending_candidates: Vec<IceCandidateInfo>,
}

impl Transport {
    /// A fresh connection.
    pub fn new() -> (r: Transport)
        ensures
            r.state == TransportState::New,
            r.remote_sdp is None,
            r.remote_candidates@.len() == 0,
            r.pending_candidates@.len() == 0,
    {
        Transport {
            state: TransportState::New,
            remote_sdp: None,
            remote_candidates: Vec::new(),
            pending_candidates: Vec::new(),
        }
    }

    /// Records a locally gathered candidate.
    pub fn add_pending_candidate(&mut self, c: IceCandidateInfo)
        ensures
            final(self).pending_candidates@.len() == old(self).pending_candidates@.len() + 1,
            *final(self) == (Transport {
                pending_candidates: final(self).pending_candidates,
                ..*old(self)
            }),
    {
        self.pending_candidates.push(c);
    }

    /// Marks the connection's outcome, as the connection-state callback
    /// observes it.
    pub fn set_connected(&mut self, success: bool)
        ensures
            success ==> final(self).state == TransportState::Connected,
            !success ==> final(self).state == TransportState::Failed,
            *final(self) == (Transport { state: final(self).state, ..*old(self) }),
    {
        self.state = if success {
            TransportState::Connected
        } else {
            TransportState::Failed
        };
    }

    /// Whether the data channel may carry bytes.
    pub fn is_connected(&self) -> (r: bool)
        ensures
            r == (self.state == TransportState::Connected),
    {
        match self.state {
            TransportState::Connected => true,
            _ => false,
        }
    }
}

} // verus!
