//! The library's error taxonomy.

use vstd::prelude::*;

verus! {

/// Everything that can go wrong in the core.
#[derive(Clone, Debug)]
pub enum Error {
    /// A payload's signature does not match its claimed origin.
    InvalidSignature,
    /// A payload's session authorization has expired.
    SessionExpired,
    /// A handshake asked for an SDP kind other than offer or answer.
    UnsupportedSdpType,
    /// A transport's connection attempt failed.
    ConnectionFailed,
    /// A send was attempted on a channel that is not open.
    NotReady,
    /// The remote description could not be applied.
    RemoteDescriptionRejected,
    /// A payload would revisit a node already on its path.
    RoutingLoop,
    /// A payload ran out of hops.
    TtlExhausted,
    /// A handler received a ring action it cannot apply.
    PeerRingUnexpectedAction,
    /// A validator hook rejected a payload, with its reason.
    InvalidMessage(Vec<u8>),
    /// A chunked message was not completed in time.
    ChunkTimeout,
    /// Repeated data-channel sends failed.
    WebrtcDatachannelSendFailed,
    /// A payload or blob could not be decoded.
    DecodeError,
    /// A secret key was rejected or the random source failed.
    InvalidKey,
}

} // verus!
