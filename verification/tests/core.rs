//! Unit tests over the codec, the envelope, the handshake, and the
//! small helper types.

use std::io::Write;

use rings_node::backend::HttpMethod;
use rings_node::backend::ServerMessage;
use rings_node::backend::TunnelDefeat;
use rings_node::backend::TunnelStep;
use rings_node::backend::TunnelStreamEvent;
use rings_node::backend::try_into_method;
use rings_node::backend::tunnel_local_step;
use rings_node::backend::frame_backend_response;
use rings_node::backend::split_backend_tag;
use rings_node::backend::StreamErrorKind;
use rings_node::backend::defeat_of_stream_error;
use rings_node::client::LogLevel;
use rings_node::client::debug;
use rings_node::client::log_level;
use rings_node::codec::chunk;
use rings_node::codec::decode_bytes;
use rings_node::codec::encode_bytes;
use rings_node::codec::reassemble;
use rings_node::config::Config;
use rings_node::config::StorageConfig;
use rings_node::did::Did;
use rings_node::error::Error;
use rings_node::helper::Promise;
use rings_node::helper::State;
use rings_node::message::Message;
use rings_node::payload::MessagePayload;
use rings_node::payload::sign_payload;
use rings_node::payload::verify_payload;
use rings_node::relay::MessageRelay;
use rings_node::session::DelegatedSession;
use rings_node::session::new_key;
use rings_node::trickle::IceCandidateInfo;
use rings_node::trickle::SdpType;
use rings_node::trickle::TricklePayload;
use rings_node::trickle::Transport;
use rings_node::trickle::get_handshake_info;
use rings_node::trickle::register_remote_info;
use rings_node::swarm::TransportState;

const NOW: u64 = 1000;

fn session(seed: u8) -> DelegatedSession {
    DelegatedSession::new(&vec![seed; 32], u64::MAX).expect("valid key")
}

#[test]
fn test_did_ring_arithmetic() {
    let a = Did::from_parts(0, 10);
    let b = Did::from_parts(0, 20);
    assert!(a.lt(&b));
    assert!(!b.lt(&a));
    let k = Did::from_parts(0, 15);
    assert!(k.in_range(&a, &b));
    assert!(!a.in_range(&a, &b));
    assert!(b.in_range(&a, &b));
    // Wrapped arc: (b, a] contains everything outside (a, b].
    let far = Did::from_parts(7, 0);
    assert!(far.in_range(&b, &a));
    assert!(!k.in_range(&b, &a));
    // Addition wraps mod 2^160.
    let max = Did::from_parts(u32::MAX, u128::MAX);
    let one = Did::from_parts(0, 1);
    let sum = max.ring_add(&one);
    assert_eq!(sum, Did::from_parts(0, 0));
    // Finger offsets are the powers of two.
    assert_eq!(Did::pow2(0), Did::from_parts(0, 1));
    assert_eq!(Did::pow2(128), Did::from_parts(1, 0));
    assert_eq!(Did::pow2(159), Did::from_parts(0x80000000, 0));
}

#[test]
fn test_chunk_round_trip_shuffled() {
    let data: Vec<u8> = (0u8..=255).cycle().take(1000).collect();
    let chunks = chunk(&data, 17, 42);
    assert_eq!(chunks.len(), (1000 + 16) / 17);
    // Reverse the arrival order.
    let mut shuffled = chunks;
    shuffled.reverse();
    let back = reassemble(&shuffled).expect("complete set reassembles");
    assert_eq!(back, data);
}

#[test]
fn test_reassemble_rejects_incomplete_and_duplicates() {
    let data = b"0123456789".to_vec();
    let chunks = chunk(&data, 4, 7);
    assert_eq!(chunks.len(), 3);
    let mut missing = chunk(&data, 4, 7);
    missing.pop();
    assert!(reassemble(&missing).is_none());
    let mut duplicated = chunk(&data, 4, 7);
    duplicated.pop();
    let again = chunk(&data, 4, 7);
    duplicated.push(again[0].clone());
    assert!(reassemble(&duplicated).is_none());
    let empty: Vec<rings_node::codec::Chunk> = Vec::new();
    assert_eq!(reassemble(&empty), Some(Vec::new()));
}

#[test]
fn test_encode_decode_round_trip() {
    let data = b"Across the Great Wall we can reach every corner in the world.".to_vec();
    let e = encode_bytes(&data);
    assert_eq!(decode_bytes(&e), Some(data));
    let empty = encode_bytes(&Vec::new());
    assert_eq!(decode_bytes(&empty), Some(Vec::new()));
}

#[test]
fn test_envelope_verification_and_flips() {
    let s = session(3);
    let relay = MessageRelay::new_send(s.owner(), Did::from_parts(0, 99));
    let payload = sign_payload(&s, 11, Message::CustomMessage(b"payload".to_vec()), relay, 8);
    assert!(verify_payload(&payload, NOW));

    // Flipping any byte of the body breaks verification.
    for i in 0..7 {
        let mut bad = payload.clone();
        match &mut bad.data {
            Message::CustomMessage(b) => b[i] ^= 1,
            _ => unreachable!(),
        }
        assert!(!verify_payload(&bad, NOW), "byte {} of data", i);
    }
    // Flipping any byte of the signature breaks verification.
    for i in 0..65 {
        let mut bad = payload.clone();
        bad.sig[i] ^= 1;
        assert!(!verify_payload(&bad, NOW), "byte {} of sig", i);
    }
    // A dead payload does not verify.
    let mut dead = payload.clone();
    dead.ttl = 0;
    assert!(!verify_payload(&dead, NOW));
}

#[test]
fn test_trickle_handshake_failure() {
    let sa = session(4);
    let cand = IceCandidateInfo {
        candidate: b"candidate:1 1 udp 2122260223 192.0.2.1 54400 typ host".to_vec(),
        sdp_mid: b"0".to_vec(),
        sdp_mline_index: 0,
        username_fragment: b"frag".to_vec(),
    };
    let payload = TricklePayload { sdp: b"v=0 o=- 46117 2 IN IP4 127.0.0.1".to_vec(), candidates: vec![cand] };
    let env = get_handshake_info(&sa, SdpType::Offer, payload).expect("offer wraps");

    let mut b = Transport::new();
    // A flipped byte in the SDP is rejected and leaves the transport alone.
    let mut bad = env.clone();
    bad.payload.sdp[3] ^= 1;
    let r = register_remote_info(&mut b, &bad, NOW);
    assert!(matches!(r, Err(Error::InvalidSignature)));
    assert_eq!(b.state, TransportState::New);
    assert!(b.remote_sdp.is_none());
    assert!(b.remote_candidates.is_empty());

    // The untouched envelope applies.
    let r = register_remote_info(&mut b, &env, NOW);
    assert_eq!(r.unwrap(), sa.owner());
    assert_eq!(b.state, TransportState::Connecting);
    assert_eq!(b.remote_sdp.as_deref(), Some(env.payload.sdp.as_slice()));
    assert_eq!(b.remote_candidates.len(), 1);

    // Unsupported SDP kinds are refused up front.
    let p2 = TricklePayload { sdp: b"x".to_vec(), candidates: Vec::new() };
    assert!(matches!(
        get_handshake_info(&sa, SdpType::Pranswer, p2),
        Err(Error::UnsupportedSdpType)
    ));
}

#[test]
fn test_session_keys_and_identity() {
    let k = new_key().expect("random source");
    let s = DelegatedSession::new(&k, 500).expect("fresh key opens a session");
    assert_eq!(s.expiry(), 500);
    // An invalid owner key cannot open a session.
    assert!(DelegatedSession::new(&vec![0u8; 32], 500).is_none());
    // An expired session fails payload verification.
    let relay = MessageRelay::new_send(s.owner(), Did::from_parts(0, 5));
    let p: MessagePayload = sign_payload(&s, 1, Message::CustomMessage(b"x".to_vec()), relay, 4);
    assert!(verify_payload(&p, 499));
    assert!(!verify_payload(&p, 500));
}

#[test]
fn test_try_into_method_names() {
    assert_eq!(try_into_method("GET").unwrap(), HttpMethod::Get);
    assert_eq!(try_into_method("gEt").unwrap(), HttpMethod::Get);
    assert_eq!(try_into_method("post").unwrap(), HttpMethod::Post);
    assert_eq!(try_into_method("PUT").unwrap(), HttpMethod::Put);
    assert_eq!(try_into_method("delete").unwrap(), HttpMethod::Delete);
    assert_eq!(try_into_method("HEAD").unwrap(), HttpMethod::Head);
    assert_eq!(try_into_method("options").unwrap(), HttpMethod::Options);
    assert_eq!(try_into_method("TRACE").unwrap(), HttpMethod::Trace);
    assert_eq!(try_into_method("connect").unwrap(), HttpMethod::Connect);
    assert_eq!(try_into_method("PATCH").unwrap(), HttpMethod::Patch);
    assert!(try_into_method("FETCH").is_err());
    assert!(try_into_method("").is_err());
}

#[test]
fn test_log_levels() {
    assert_eq!(debug(true), LogLevel::Debug);
    assert_eq!(debug(false), LogLevel::Error);
    assert_eq!(log_level("trace"), Some(LogLevel::Trace));
    assert_eq!(log_level("debug"), Some(LogLevel::Debug));
    assert_eq!(log_level("info"), Some(LogLevel::Info));
    assert_eq!(log_level("warn"), Some(LogLevel::Warn));
    assert_eq!(log_level("error"), Some(LogLevel::Error));
    assert_eq!(log_level("verbose"), None);
}

#[test]
fn test_tunnel_defeat_codes_and_steps() {
    assert_eq!(TunnelDefeat::WebrtcDatachannelSendFailed.code(), 1);
    assert_eq!(TunnelDefeat::ConnectionTimeout.code(), 2);
    assert_eq!(TunnelDefeat::ConnectionRefused.code(), 3);
    assert_eq!(TunnelDefeat::ConnectionAborted.code(), 4);
    assert_eq!(TunnelDefeat::ConnectionReset.code(), 5);
    assert_eq!(TunnelDefeat::NotConnected.code(), 6);
    assert_eq!(TunnelDefeat::ConnectionClosed.code(), 7);
    assert_eq!(TunnelDefeat::Unknown.code(), 255);

    match tunnel_local_step(9, TunnelStreamEvent::StreamData(b"abc".to_vec())) {
        TunnelStep::Forward(ServerMessage::TcpPackage { tid, body }) => {
            assert_eq!(tid, 9);
            assert_eq!(body, b"abc".to_vec());
        }
        _ => unreachable!(),
    }
    assert!(matches!(
        tunnel_local_step(9, TunnelStreamEvent::Cancelled),
        TunnelStep::Close(TunnelDefeat::ConnectionClosed)
    ));
    assert!(matches!(
        tunnel_local_step(9, TunnelStreamEvent::StreamError(TunnelDefeat::ConnectionReset)),
        TunnelStep::Close(TunnelDefeat::ConnectionReset)
    ));
}

#[test]
fn test_did_byte_round_trip() {
    let d = Did::from_parts(0xdeadbeef, 0x0123456789abcdef0011223344556677);
    let mut bytes: Vec<u8> = Vec::new();
    d.to_bytes(&mut bytes);
    assert_eq!(bytes.len(), 20);
    assert_eq!(Did::from_bytes(&bytes, 0), d);
}

#[test]
fn test_wire_form_is_base58_of_gzip() {
    let data = b"Across the Great Wall we can reach every corner in the world.".to_vec();
    let e = encode_bytes(&data);
    // The wire form is base58 text over a gzip stream, not the raw bytes.
    assert_ne!(e.data, data);
    assert!(e.data.iter().all(|c| c.is_ascii_alphanumeric()));
    assert_eq!(decode_bytes(&e), Some(data.clone()));
    // The wire form matches base58 of an independent gzip of the data.
    let mut enc = flate2::write::GzEncoder::new(Vec::new(), flate2::Compression::new(9));
    enc.write_all(&data).unwrap();
    let zipped = enc.finish().unwrap();
    assert_eq!(e.data, bs58::encode(&zipped).into_vec());
    // Base58 text that does not wrap a gzip stream is rejected.
    let bogus = rings_node::codec::Encoded { data: b"a3gV".to_vec() };
    assert!(decode_bytes(&bogus).is_none());
}

#[test]
fn test_record_address_is_digest() {
    // The address of the empty name comes from SHA-256 of no bytes:
    // e3b0c442 98fc1c14 9afbf4c8 996fb924 27ae41e4 649b934c a495991b 7852b855,
    // bytes 12..16 give the high limb and 16..32 the low limb.
    let d = rings_node::vnode::vnode_did(&Vec::new());
    assert_eq!(d, Did::from_parts(0x996fb924, 0x27ae41e4649b934ca495991b7852b855));
}

#[test]
fn test_backend_framing() {
    let resp = b"0123456789".to_vec();
    let mut enc = flate2::write::GzEncoder::new(Vec::new(), flate2::Compression::new(9));
    enc.write_all(&resp).unwrap();
    let zipped = enc.finish().unwrap();

    let frames = frame_backend_response(&resp, 4, 5).expect("small response fits");
    let total = (zipped.len() + 3) / 4;
    assert_eq!(frames.len(), total);
    // Every frame starts with the backend tag, the message id, its index
    // and the count; the bodies cover the gzip stream in order.
    let mut assembled: Vec<u8> = Vec::new();
    for (i, f) in frames.iter().enumerate() {
        assert_eq!(&f[0..4], &[1, 1, 0, 0]);
        assert_eq!(&f[4..20], &5u128.to_be_bytes());
        assert_eq!(&f[20..28], &(i as u64).to_be_bytes());
        assert_eq!(&f[28..36], &(total as u64).to_be_bytes());
        let blen = u64::from_be_bytes(f[36..44].try_into().unwrap()) as usize;
        assert_eq!(f.len(), 44 + blen);
        assembled.extend_from_slice(&f[44..]);
    }
    assert_eq!(assembled, zipped);

    assert_eq!(split_backend_tag(&vec![0, 9, 9, 9, 7, 8]), Some(vec![7, 8]));
    assert_eq!(split_backend_tag(&vec![1, 9, 9, 9, 7, 8]), None);
    assert_eq!(split_backend_tag(&vec![0, 9]), None);
}

#[test]
fn test_promise_state() {
    let p = Promise::default();
    let mut st: State = p.state();
    assert_eq!(st.poll_outcome(), None);
    st.complete(true);
    assert_eq!(st.poll_outcome(), Some(true));
    let mut st2 = State::default();
    st2.complete(false);
    assert_eq!(st2.poll_outcome(), Some(false));
}

#[test]
fn test_config_values() {
    let c = Config::new_with_key(&vec![5u8; 32]).expect("valid key");
    assert!(c.delegatee_sk.is_some());
    assert!(c.ecdsa_key.is_none());
    assert_eq!(c.stabilize_timeout, 3);
    assert_eq!(c.data_storage.capacity, 200000000);
    assert!(Config::new_with_key(&vec![0u8; 32]).is_err());
    let sc = StorageConfig::new("/tmp/blob", 42);
    assert_eq!(sc.path, "/tmp/blob");
    assert_eq!(sc.capacity, 42);
}

#[test]
fn test_session_dump_load_round_trip() {
    let s = session(42);
    let dumped = s.dump();
    let loaded = DelegatedSession::load(&dumped).expect("a dumped session loads");
    assert_eq!(loaded.owner(), s.owner());
    assert_eq!(loaded.expiry(), s.expiry());
    assert_eq!(loaded.dump(), dumped);

    // A corrupted dump is rejected.
    let mut broken = dumped.clone();
    broken.pop();
    assert!(DelegatedSession::load(&broken).is_none());
    assert!(DelegatedSession::load("0OIl not base58").is_none());
}

#[test]
fn test_storage_location_join() {
    let home = String::from("/home/alice");
    assert_eq!(
        rings_node::config::get_storage_location(Some(&home), ".rings", "data"),
        "/home/alice/.rings/data"
    );
    assert_eq!(
        rings_node::config::get_storage_location(None, ".rings", "measure"),
        "data/.rings/measure"
    );
}

#[test]
fn test_delegatee_sk_precedence() {
    let mut c = Config::new_with_key(&vec![5; 32]).expect("valid key");
    let direct = c.delegatee_sk.clone().expect("set by construction");

    // `delegatee_sk` is used when nothing supersedes it.
    assert_eq!(c.delegatee_sk_string().expect("set"), direct);

    // An old-style `session_manager` string supersedes it.
    c.session_manager = Some(String::from("older-dump"));
    assert_eq!(c.delegatee_sk_string().expect("set"), "older-dump");

    // A raw identity key supersedes both and yields a loadable dump.
    c.ecdsa_key = Some(vec![6; 32]);
    let dumped = c.delegatee_sk_string().expect("valid key");
    assert!(DelegatedSession::load(&dumped).is_some());

    // An invalid raw key fails.
    c.ecdsa_key = Some(vec![0; 32]);
    assert!(c.delegatee_sk_string().is_err());

    // No source at all fails.
    c.ecdsa_key = None;
    c.session_manager = None;
    c.delegatee_sk = None;
    assert!(c.delegatee_sk_string().is_err());
}

#[test]
fn test_stream_error_defeats() {
    assert_eq!(
        defeat_of_stream_error(StreamErrorKind::ConnectionRefused),
        TunnelDefeat::ConnectionRefused
    );
    assert_eq!(
        defeat_of_stream_error(StreamErrorKind::ConnectionAborted),
        TunnelDefeat::ConnectionAborted
    );
    assert_eq!(
        defeat_of_stream_error(StreamErrorKind::ConnectionReset),
        TunnelDefeat::ConnectionReset
    );
    assert_eq!(
        defeat_of_stream_error(StreamErrorKind::NotConnected),
        TunnelDefeat::NotConnected
    );
    assert_eq!(defeat_of_stream_error(StreamErrorKind::Other), TunnelDefeat::Unknown);
}
