//! A Chord-style distributed hash table core with signed message routing.
//!
//! Nodes are identified by 160-bit ring positions derived from ECDSA keys.
//! The library holds the ring arithmetic, the Chord state machine (finger
//! table, successor list, predecessor, virtual-node storage), the signed
//! payload envelope with forward/backward relay paths, the chunk codec,
//! and the trickle handshake envelope. All network and timer work is left
//! to the caller: operations return queued outbound payloads and events
//! instead of performing I/O.

pub mod backend;
pub mod bytes_be;
pub mod chord;
pub mod client;
pub mod codec;
pub mod config;
pub mod crypto;
pub mod did;
pub mod error;
pub mod handlers;
pub mod helper;
pub mod laws;
pub mod message;
pub mod payload;
pub mod relay;
pub mod session;
pub mod swarm;
pub mod trickle;
pub mod vnode;
