//! Backend message types: what tunneled TCP and HTTP traffic looks like
//! when it rides in application payloads, and the decisions a tunnel
//! listener takes.

use vstd::prelude::*;

use vstd::string::StringSliceAdditionalSpecFns;

use crate::bytes_be::bytes_of;
use crate::bytes_be::push_be;
use crate::codec::Chunk;
use crate::codec::spec_chunk_body;
use crate::codec::spec_n_chunks;
use crate::error::Error;
use crate::message::enc_bytes_field;
use crate::message::push_bytes_field;
use crate::payload::MessagePayload;

verus! {

/// Identifier of one tunnel, carried in every tunnel message.
pub type TunnelId = u128;

/// Why a tunnel ended.
#[derive(Clone, Copy, Debug, PartialEq, Eq, Structural)]
pub enum TunnelDefeat {
    /// A data-channel send failed for good.
    WebrtcDatachannelSendFailed,
    /// The dial timed out.
    ConnectionTimeout,
    /// The local stream refused the connection.
    ConnectionRefused,
    /// The local stream aborted the connection.
    ConnectionAborted,
    /// The local stream reset the connection.
    ConnectionReset,
    /// The local stream was not connected.
    NotConnected,
    /// The peer closed the connection.
    ConnectionClosed,
    /// Any other stream error.
    Unknown,
}

impl TunnelDefeat {
    /// The wire code of each defeat reason.
    pub fn code(&self) -> (r: u8)
        ensures
            *self == TunnelDefeat::WebrtcDatachannelSendFailed ==> r == 1,
            *self == TunnelDefeat::ConnectionTimeout ==> r == 2,
            *self == TunnelDefeat::ConnectionRefused ==> r == 3,
            *self == TunnelDefeat::ConnectionAborted ==> r == 4,
            *self == TunnelDefeat::ConnectionReset ==> r == 5,
            *self == TunnelDefeat::NotConnected ==> r == 6,
            *self == TunnelDefeat::ConnectionClosed ==> r == 7,
            *self == TunnelDefeat::Unknown ==> r == 255,
    {
        match self {
            TunnelDefeat::WebrtcDatachannelSendFailed => 1,
            TunnelDefeat::ConnectionTimeout => 2,
            TunnelDefeat::ConnectionRefused => 3,
            TunnelDefeat::ConnectionAborted => 4,
            TunnelDefeat::ConnectionReset => 5,
            TunnelDefeat::NotConnected => 6,
            TunnelDefeat::ConnectionClosed => 7,
            TunnelDefeat::Unknown => 255,
        }
    }
}

/// A tunneled HTTP request.
#[derive(Clone, Debug)]
pub struct HttpRequest {
    /// Service name the request addresses.
    pub service: String,
    /// HTTP method.
    pub method: String,
    /// Request path.
    pub path: String,
    /// Header name-value pairs.
    pub headers: Vec<(String, String)>,
    /// Request body, if any.
    pub body: Option<Vec<u8>>,
}

/// A tunneled HTTP response.
#[derive(Clone, Debug)]
pub struct HttpResponse {
    /// Status code.
    pub status: u16,
    /// Header name-value pairs.
    pub headers: Vec<(String, String)>,
    /// Response body, if any.
    pub body: Option<Vec<u8>>,
}

/// A message a backend server exchanges over a tunnel.
#[derive(Clone, Debug)]
pub enum ServerMessage {
    /// Open a tunnel to a named service.
    TcpDial {
        /// The tunnel.
        tid: TunnelId,
        /// The service dialed.
        service: String,
    },
    /// Close a tunnel, with the reason.
    TcpClose {
        /// The tunnel.
        tid: TunnelId,
        /// Why it ends.
        reason: TunnelDefeat,
    },
    /// Carry stream bytes through a tunnel.
    TcpPackage {
        /// The tunnel.
        tid: TunnelId,
        /// The bytes.
        body: Vec<u8>,
    },
    /// A tunneled HTTP request.
    HttpRequest(HttpRequest),
    /// A tunneled HTTP response.
    HttpResponse(HttpResponse),
}

/// A message handled by the backend behind a node.
#[derive(Clone, Debug)]
#[non_exhaustive]
pub enum BackendMessage {
    /// An extension payload, passed through opaquely.
    Extension(Vec<u8>),
    /// A tunnel message.
    ServerMessage(ServerMessage),
    /// Plain text.
    PlainText(String),
}

/// Conversion into the backend's message type.
pub trait IntoBackendMessage {
    /// Wraps `self` as a backend message.
    fn into_backend_message(self) -> BackendMessage;
}

impl IntoBackendMessage for BackendMessage {
    fn into_backend_message(self) -> BackendMessage {
        self
    }
}

impl IntoBackendMessage for ServerMessage {
    fn into_backend_message(self) -> BackendMessage {
        BackendMessage::ServerMessage(self)
    }
}

/// An endpoint the embedding implements for one backend message kind.
pub trait MessageEndpoint<T> {
    /// Handles one message in its payload context.
    fn handle_message(&self, ctx: &MessagePayload, data: &T) -> Result<(), Error>;
}

/// What a tunnel listener observed on its local stream.
#[derive(Clone, Debug)]
pub enum TunnelStreamEvent {
    /// The tunnel was cancelled.
    Cancelled,
    /// The stream failed with a defeat reason.
    StreamError(TunnelDefeat),
    /// The stream reached its end.
    StreamClosed,
    /// Bytes arrived.
    StreamData(Vec<u8>),
}

/// What the listener does next.
#[derive(Clone, Debug)]
pub enum TunnelStep {
    /// Close the tunnel with the reason, announcing `TcpClose`.
    Close(TunnelDefeat),
    /// Forward the bytes as a `TcpPackage`.
    Forward(ServerMessage),
}

/// The tunnel listener's decision for one local-stream event: errors and
/// stream end close the tunnel; data becomes a package for the peer.
pub fn tunnel_local_step(tid: TunnelId, ev: TunnelStreamEvent) -> (r: TunnelStep)
    ensures
        ev == TunnelStreamEvent::Cancelled ==> r == TunnelStep::Close(
            TunnelDefeat::ConnectionClosed,
        ),
        ev matches TunnelStreamEvent::StreamError(e) ==> r == TunnelStep::Close(e),
        ev == TunnelStreamEvent::StreamClosed ==> r == TunnelStep::Close(
            TunnelDefeat::ConnectionClosed,
        ),
        ev matches TunnelStreamEvent::StreamData(b) ==> (r matches TunnelStep::Forward(m) && (
        m matches ServerMessage::TcpPackage { tid: t, body } && t == tid && body@ == b@)),
{
    match ev {
        TunnelStreamEvent::Cancelled => TunnelStep::Close(TunnelDefeat::ConnectionClosed),
        TunnelStreamEvent::StreamError(e) => TunnelStep::Close(e),
        TunnelStreamEvent::StreamClosed => TunnelStep::Close(TunnelDefeat::ConnectionClosed),
        TunnelStreamEvent::StreamData(b) => TunnelStep::Forward(ServerMessage::TcpPackage {
            tid,
            body: b,
        }),
    }
}

/// A stream error class, as the embedding reads it off its transport's
/// I/O error before handing it in as a plain value.
#[derive(Clone, Copy, Debug, PartialEq, Eq, Structural)]
pub enum StreamErrorKind {
    /// The connection was refused.
    ConnectionRefused,
    /// The connection was aborted.
    ConnectionAborted,
    /// The connection was reset.
    ConnectionReset,
    /// The stream was not connected.
    NotConnected,
    /// Any other error.
    Other,
}

/// The tunnel defeat each stream error class maps to.
pub open spec fn spec_defeat_of(kind: StreamErrorKind) -> TunnelDefeat {
    match kind {
        StreamErrorKind::ConnectionRefused => TunnelDefeat::ConnectionRefused,
        StreamErrorKind::ConnectionAborted => TunnelDefeat::ConnectionAborted,
        StreamErrorKind::ConnectionReset => TunnelDefeat::ConnectionReset,
        StreamErrorKind::NotConnected => TunnelDefeat::NotConnected,
        StreamErrorKind::Other => TunnelDefeat::Unknown,
    }
}

/// Maps a stream error class to the tunnel defeat it closes with.
pub fn defeat_of_stream_error(kind: StreamErrorKind) -> (r: TunnelDefeat)
    ensures
        r == spec_defeat_of(kind),
{
    match kind {
        StreamErrorKind::ConnectionRefused => TunnelDefeat::ConnectionRefused,
        StreamErrorKind::ConnectionAborted => TunnelDefeat::ConnectionAborted,
        StreamErrorKind::ConnectionReset => TunnelDefeat::ConnectionReset,
        StreamErrorKind::NotConnected => TunnelDefeat::NotConnected,
        StreamErrorKind::Other => TunnelDefeat::Unknown,
    }
}

/// The canonical bytes of one framed response chunk: the backend tag,
/// then the chunk's message id, index, total and body.
pub open spec fn enc_framed_chunk(c: Chunk) -> Seq<u8> {
    seq![1u8, 1u8, 0u8, 0u8] + bytes_of(c.message_id as int, 16) + bytes_of(c.index as int, 8)
        + bytes_of(c.total as int, 8) + enc_bytes_field(c.body@)
}

/// Splits a backend response into tagged, chunked frames ready to ride
/// in application payloads: the response is gzipped, and chunk `i` then
/// carries bytes `i*mtu` onward of the gzip stream. Fails only when the
/// gzip stream is too large to chunk.
pub fn frame_backend_response(resp: &Vec<u8>, mtu: usize, mid: u128) -> (r: Option<Vec<Vec<u8>>>)
    requires
        mtu >= 1,
    ensures
        r is Some <==> crate::crypto::gzip_of(resp@).len() + mtu <= usize::MAX,
        r matches Some(frames) ==> {
            let z = crate::crypto::gzip_of(resp@);
            &&& frames@.len() == spec_n_chunks(z.len() as int, mtu as int)
            &&& forall|i: int|
                0 <= i < frames@.len() ==> (#[trigger] frames@[i])@ =~= seq![
                    1u8,
                    1u8,
                    0u8,
                    0u8,
                ] + bytes_of(mid as int, 16) + bytes_of(i, 8) + bytes_of(
                    frames@.len() as int,
                    8,
                ) + enc_bytes_field(spec_chunk_body(z, mtu as int, i))
        },
{
    let z = crate::crypto::gzip_encode(resp);
    if z.len() > usize::MAX - mtu {
        return None;
    }
    let chunks = crate::codec::chunk(&z, mtu, mid);
    let n = chunks.len();
    let mut out: Vec<Vec<u8>> = Vec::new();
    let mut i: usize = 0;
    while i < n
        invariant
            i <= n,
            n == chunks@.len(),
            crate::codec::is_chunking(chunks@, z@, mtu as int, mid),
            z@ == crate::crypto::gzip_of(resp@),
            out@.len() == i,
            forall|k: int|
                0 <= k < i ==> (#[trigger] out@[k])@ =~= seq![1u8, 1u8, 0u8, 0u8] + bytes_of(
                    mid as int,
                    16,
                ) + bytes_of(k, 8) + bytes_of(n as int, 8) + enc_bytes_field(
                    spec_chunk_body(z@, mtu as int, k),
                ),
        decreases n - i,
    {
        let c = &chunks[i];
        let mut frame: Vec<u8> = Vec::new();
        frame.push(1);
        frame.push(1);
        frame.push(0);
        frame.push(0);
        push_be(&mut frame, c.message_id, 16);
        push_be(&mut frame, c.index as u128, 8);
        push_be(&mut frame, c.total as u128, 8);
        push_bytes_field(&mut frame, &c.body);
        out.push(frame);
        i = i + 1;
    }
    Some(out)
}

/// Strips the backend tag off an inbound application payload: anything
/// shorter than the tag or not marked as a backend message is ignored.
pub fn split_backend_tag(b: &Vec<u8>) -> (r: Option<Vec<u8>>)
    ensures
        b@.len() < 4 || b@[0] != 0 ==> r is None,
        b@.len() >= 4 && b@[0] == 0 ==> (r matches Some(v) && v@ =~= b@.skip(4)),
{
    if b.len() < 4 {
        return None;
    }
    if b[0] != 0 {
        return None;
    }
    let n = b.len();
    let mut out: Vec<u8> = Vec::new();
    let mut i: usize = 4;
    while i < n
        invariant
            4 <= i <= n,
            n == b@.len(),
            out@ =~= b@.subrange(4, i as int),
        decreases n - i,
    {
        out.push(b[i]);
        proof {
            assert(out@ =~= b@.subrange(4, i + 1));
        }
        i = i + 1;
    }
    proof {
        assert(b@.subrange(4, n as int) =~= b@.skip(4));
    }
    Some(out)
}

/// An HTTP method a tunneled request may use.
#[derive(Clone, Copy, Debug, PartialEq, Eq, Structural)]
pub enum HttpMethod {
    /// GET
    Get,
    /// POST
    Post,
    /// PUT
    Put,
    /// DELETE
    Delete,
    /// HEAD
    Head,
    /// OPTIONS
    Options,
    /// TRACE
    Trace,
    /// CONNECT
    Connect,
    /// PATCH
    Patch,
}

/// A byte with any ASCII lower-case letter raised to upper case.
pub open spec fn spec_upper(b: u8) -> u8 {
    if 97 <= b <= 122 {
        (b - 32) as u8
    } else {
        b
    }
}

/// The upper-cased form of a byte sequence.
pub open spec fn spec_upper_seq(s: Seq<u8>) -> Seq<u8> {
    s.map(|i: int, b: u8| spec_upper(b))
}

/// The method a name denotes, compared case-insensitively.
pub open spec fn spec_method_of(s: Seq<u8>) -> Option<HttpMethod> {
    let u = spec_upper_seq(s);
    if u == seq![71u8, 69, 84] {
        Some(HttpMethod::Get)
    } else if u == seq![80u8, 79, 83, 84] {
        Some(HttpMethod::Post)
    } else if u == seq![80u8, 85, 84] {
        Some(HttpMethod::Put)
    } else if u == seq![68u8, 69, 76, 69, 84, 69] {
        Some(HttpMethod::Delete)
    } else if u == seq![72u8, 69, 65, 68] {
        Some(HttpMethod::Head)
    } else if u == seq![79u8, 80, 84, 73, 79, 78, 83] {
        Some(HttpMethod::Options)
    } else if u == seq![84u8, 82, 65, 67, 69] {
        Some(HttpMethod::Trace)
    } else if u == seq![67u8, 79, 78, 78, 69, 67, 84] {
        Some(HttpMethod::Connect)
    } else if u == seq![80u8, 65, 84, 67, 72] {
        Some(HttpMethod::Patch)
    } else {
        Option::<HttpMethod>::None
    }
}

/// Upper-cases a byte vector, ASCII-wise.
fn upper_bytes(s: &Vec<u8>) -> (r: Vec<u8>)
    ensures
        r@ =~= spec_upper_seq(s@),
{
    let n = s.len();
    let mut out: Vec<u8> = Vec::new();
    let mut i: usize = 0;
    while i < n
        invariant
            i <= n,
            n == s@.len(),
            out@ =~= spec_upper_seq(s@).take(i as int),
        decreases n - i,
    {
        let b = s[i];
        let u = if 97 <= b && b <= 122 {
            b - 32
        } else {
            b
        };
        out.push(u);
        proof {
            assert(out@ =~= spec_upper_seq(s@).take(i + 1));
        }
        i = i + 1;
    }
    proof {
        assert(spec_upper_seq(s@).take(n as int) =~= spec_upper_seq(s@));
    }
    out
}

/// Parses an HTTP method name, case-insensitively; anything else is an
/// invalid method.
pub fn try_into_method(s: &str) -> (r: Result<HttpMethod, Error>)
    ensures
        spec_method_of(s.spec_bytes()) matches Some(m) ==> r == Ok::<HttpMethod, Error>(m),
        spec_method_of(s.spec_bytes()) is None ==> r is Err,
{
    let bytes = s.as_bytes_vec();
    let u = upper_bytes(&bytes);
    let m = match u.len() {
        3 => {
            if u[0] == 71 && u[1] == 69 && u[2] == 84 {
                Some(HttpMethod::Get)
            } else if u[0] == 80 && u[1] == 85 && u[2] == 84 {
                Some(HttpMethod::Put)
            } else {
                None
            }
        },
        4 => {
            if u[0] == 80 && u[1] == 79 && u[2] == 83 && u[3] == 84 {
                Some(HttpMethod::Post)
            } else if u[0] == 72 && u[1] == 69 && u[2] == 65 && u[3] == 68 {
                Some(HttpMethod::Head)
            } else {
                None
            }
        },
        5 => {
            if u[0] == 84 && u[1] == 82 && u[2] == 65 && u[3] == 67 && u[4] == 69 {
                Some(HttpMethod::Trace)
            } else if u[0] == 80 && u[1] == 65 && u[2] == 84 && u[3] == 67 && u[4] == 72 {
                Some(HttpMethod::Patch)
            } else {
                None
            }
        },
        6 => {
            if u[0] == 68 && u[1] == 69 && u[2] == 76 && u[3] == 69 && u[4] == 84 && u[5] == 69 {
                Some(HttpMethod::Delete)
            } else {
                None
            }
        },
        7 => {
            if u[0] == 79 && u[1] == 80 && u[2] == 84 && u[3] == 73 && u[4] == 79 && u[5] == 78
                && u[6] == 83 {
                Some(HttpMethod::Options)
            } else if u[0] == 67 && u[1] == 79 && u[2] == 78 && u[3] == 78 && u[4] == 69 && u[5]
                == 67 && u[6] == 84 {
                Some(HttpMethod::Connect)
            } else {
                None
            }
        },
        _ => None,
    };
    proof {
        let uv = spec_upper_seq(s.spec_bytes());
        assert(u@ == uv);
        if uv == seq![71u8, 69, 84] {
            assert(uv.len() == 3 && uv[0] == 71 && uv[1] == 69 && uv[2] == 84);
        }
        if uv.len() == 3 && uv[0] == 71 && uv[1] == 69 && uv[2] == 84 {
            assert(uv =~= seq![71u8, 69, 84]);
        }
        if uv.len() == 3 && uv[0] == 80 && uv[1] == 85 && uv[2] == 84 {
            assert(uv =~= seq![80u8, 85, 84]);
        }
        if uv.len() == 4 && uv[0] == 80 && uv[1] == 79 && uv[2] == 83 && uv[3] == 84 {
            assert(uv =~= seq![80u8, 79, 83, 84]);
        }
        if uv.len() == 4 && uv[0] == 72 && uv[1] == 69 && uv[2] == 65 && uv[3] == 68 {
            assert(uv =~= seq![72u8, 69, 65, 68]);
        }
        if uv.len() == 5 && uv[0] == 84 && uv[1] == 82 && uv[2] == 65 && uv[3] == 67 && uv[4]
            == 69 {
            assert(uv =~= seq![84u8, 82, 65, 67, 69]);
        }
        if uv.len() == 5 && uv[0] == 80 && uv[1] == 65 && uv[2] == 84 && uv[3] == 67 && uv[4]
            == 72 {
            assert(uv =~= seq![80u8, 65, 84, 67, 72]);
        }
        if uv.len() == 6 && uv[0] == 68 && uv[1] == 69 && uv[2] == 76 && uv[3] == 69 && uv[4]
            == 84 && uv[5] == 69 {
            assert(uv =~= seq![68u8, 69, 76, 69, 84, 69]);
        }
        if uv.len() == 7 && uv[0] == 79 && uv[1] == 80 && uv[2] == 84 && uv[3] == 73 && uv[4]
            == 79 && uv[5] == 78 && uv[6] == 83 {
            assert(uv =~= seq![79u8, 80, 84, 73, 79, 78, 83]);
        }
        if uv.len() == 7 && uv[0] == 67 && uv[1] == 79 && uv[2] == 78 && uv[3] == 78 && uv[4]
            == 69 && uv[5] == 67 && uv[6] == 84 {
            assert(uv =~= seq![67u8, 79, 78, 78, 69, 67, 84]);
        }
    }
    match m {
        Some(x) => Ok(x),
        None => Err(Error::DecodeError),
    }
}

} // verus!
