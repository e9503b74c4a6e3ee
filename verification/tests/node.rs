//! End-to-end scenarios: nodes exchanging signed payloads over queues.

use rings_node::chord::PeerRing;
use rings_node::codec::chunk_window_check;
use rings_node::codec::encode_bytes;
use rings_node::did::Did;
use rings_node::error::Error;
use rings_node::message::Message;
use rings_node::payload::MessagePayload;
use rings_node::payload::sign_payload;
use rings_node::relay::MessageRelay;
use rings_node::relay::RelayMethod;
use rings_node::session::DelegatedSession;
use rings_node::swarm::ChordStorageInterface;
use rings_node::swarm::ChordStorageInterfaceCacheChecker;
use rings_node::swarm::Swarm;
use rings_node::swarm::TransportState;
use rings_node::vnode::VNodeKind;
use rings_node::vnode::VNodeOperation;
use rings_node::vnode::VirtualNode;
use rings_node::vnode::vnode_did;

const NOW: u64 = 1000;

fn make_swarm(seed: u8) -> Swarm {
    let key = vec![seed; 32];
    let session = DelegatedSession::new(&key, u64::MAX).expect("valid key");
    Swarm::new(session, 3)
}

fn connect(a: &mut Swarm, b: &mut Swarm) {
    let bd = b.did;
    let ad = a.did;
    a.on_transport_connected(bd);
    b.on_transport_connected(ad);
}

/// Moves queued payloads between the given nodes until all queues are
/// quiet, ignoring router errors as the listener loop would.
fn pump(nodes: &mut [&mut Swarm]) {
    for _round in 0..64 {
        let mut moved = false;
        for i in 0..nodes.len() {
            let out = nodes[i].drain_outbound();
            for (target, payload) in out {
                for j in 0..nodes.len() {
                    if nodes[j].did == target {
                        nodes[j].push_inbound(payload);
                        moved = true;
                        break;
                    }
                }
            }
        }
        for i in 0..nodes.len() {
            loop {
                match nodes[i].listen_once(NOW) {
                    Ok(None) => break,
                    Ok(Some(_)) => {
                        moved = true;
                    }
                    Err(_) => {
                        moved = true;
                    }
                }
            }
        }
        if !moved {
            return;
        }
    }
}

/// Delivers queued payloads once, without processing them.
fn deliver(nodes: &mut [&mut Swarm]) {
    for i in 0..nodes.len() {
        let out = nodes[i].drain_outbound();
        for (target, payload) in out {
            for j in 0..nodes.len() {
                if nodes[j].did == target {
                    nodes[j].push_inbound(payload);
                    break;
                }
            }
        }
    }
}

#[test]
fn test_custom_message_handling() {
    let mut s1 = make_swarm(1);
    let mut s2 = make_swarm(2);
    let did1 = s1.did;
    let did2 = s2.did;
    connect(&mut s1, &mut s2);
    pump(&mut [&mut s1, &mut s2]);

    s1.send_message(did2, Message::CustomMessage(b"Hello world 1 to 2 - 1".to_vec()));
    s1.send_message(did2, Message::CustomMessage(b"Hello world 1 to 2 - 2".to_vec()));
    s2.send_message(did1, Message::CustomMessage(b"Hello world 2 to 1 - 1".to_vec()));
    s1.send_message(did2, Message::CustomMessage(b"Hello world 1 to 2 - 3".to_vec()));
    s2.send_message(did1, Message::CustomMessage(b"Hello world 2 to 1 - 2".to_vec()));
    pump(&mut [&mut s1, &mut s2]);

    assert_eq!(s1.handler.inbox.as_slice(), &[
        (did2, b"Hello world 2 to 1 - 1".to_vec()),
        (did2, b"Hello world 2 to 1 - 2".to_vec()),
    ]);
    assert_eq!(s2.handler.inbox.as_slice(), &[
        (did1, b"Hello world 1 to 2 - 1".to_vec()),
        (did1, b"Hello world 1 to 2 - 2".to_vec()),
        (did1, b"Hello world 1 to 2 - 3".to_vec()),
    ]);
}

/// Splits two connected nodes into (non-owner, owner) of `vid`.
fn owner_split(a: Swarm, b: Swarm, vid: &Did) -> (Swarm, Swarm) {
    let da = a.did;
    let db = b.did;
    if vid.in_range(&da, &db) {
        (a, b)
    } else {
        (b, a)
    }
}

#[test]
fn test_store_vnode() {
    let mut s1 = make_swarm(1);
    let mut s2 = make_swarm(2);
    connect(&mut s1, &mut s2);
    pump(&mut [&mut s1, &mut s2]);

    let data = b"Across the Great Wall we can reach every corner in the world.".to_vec();
    let blob = encode_bytes(&data);
    let vnode = VirtualNode::new_data(&data, vec![blob]);
    let vid = vnode.did;

    let (mut s1, mut s2) = owner_split(s1, s2, &vid);
    assert!(s1.handler.dht.cache.is_empty());
    assert!(s2.handler.dht.cache.is_empty());
    assert!(s1.storage_check_cache(vid).is_none());
    assert!(s2.storage_check_cache(vid).is_none());

    <Swarm as ChordStorageInterface<1>>::storage_store(&mut s1, vnode).unwrap();
    deliver(&mut [&mut s1, &mut s2]);
    let ev = s2.listen_once(NOW).unwrap().expect("owner handles the store");
    assert!(matches!(
        ev.0.data,
        Message::OperateVNode(VNodeOperation::Overwrite(ref x)) if x.did == vid
    ));

    assert!(s1.storage_check_cache(vid).is_none());
    assert!(s2.storage_check_cache(vid).is_none());
    assert_eq!(s1.handler.dht.store.len(), 0);
    assert!(s2.handler.dht.store.len() != 0);

    <Swarm as ChordStorageInterface<1>>::storage_fetch(&mut s1, vid).unwrap();
    deliver(&mut [&mut s1, &mut s2]);
    let ev = s2.listen_once(NOW).unwrap().expect("owner handles the search");
    assert!(matches!(ev.0.data, Message::SearchVNode { vid: x } if x == vid));
    deliver(&mut [&mut s1, &mut s2]);
    let ev = s1.listen_once(NOW).unwrap().expect("requester gets the answer");
    assert!(matches!(
        ev.0.data,
        Message::FoundVNode { ref data } if data[0].did == vid
    ));

    let cached = s1.storage_check_cache(vid);
    let expected = VirtualNode {
        did: vid,
        data: vec![encode_bytes(&data)],
        kind: VNodeKind::Data,
    };
    assert_eq!(cached, Some(expected));
}

#[test]
fn test_extend_data() {
    let mut s1 = make_swarm(1);
    let mut s2 = make_swarm(2);
    connect(&mut s1, &mut s2);
    pump(&mut [&mut s1, &mut s2]);

    let topic = b"Across the Great Wall we can reach every corner in the world.".to_vec();
    let vid = vnode_did(&topic);
    let (mut s1, mut s2) = owner_split(s1, s2, &vid);

    <Swarm as ChordStorageInterface<1>>::storage_append_data(
        &mut s1,
        &topic,
        encode_bytes(&b"111".to_vec()),
    )
    .unwrap();
    deliver(&mut [&mut s1, &mut s2]);
    let ev = s2.listen_once(NOW).unwrap().expect("owner handles the append");
    assert!(matches!(
        ev.0.data,
        Message::OperateVNode(VNodeOperation::Extend(ref x))
            if x.did == vid && x.data == vec![encode_bytes(&b"111".to_vec())]
                && x.kind == VNodeKind::Data
    ));

    <Swarm as ChordStorageInterface<1>>::storage_append_data(
        &mut s1,
        &topic,
        encode_bytes(&b"222".to_vec()),
    )
    .unwrap();
    deliver(&mut [&mut s1, &mut s2]);
    let ev = s2.listen_once(NOW).unwrap().expect("owner handles the append");
    assert!(matches!(
        ev.0.data,
        Message::OperateVNode(VNodeOperation::Extend(ref x))
            if x.did == vid && x.data == vec![encode_bytes(&b"222".to_vec())]
    ));

    assert_eq!(s1.handler.dht.store.len(), 0);
    assert!(s2.handler.dht.store.len() != 0);

    <Swarm as ChordStorageInterface<1>>::storage_fetch(&mut s1, vid).unwrap();
    pump(&mut [&mut s1, &mut s2]);
    assert_eq!(
        s1.storage_check_cache(vid),
        Some(VirtualNode {
            did: vid,
            data: vec![
                encode_bytes(&b"111".to_vec()),
                encode_bytes(&b"222".to_vec()),
            ],
            kind: VNodeKind::Data,
        })
    );

    <Swarm as ChordStorageInterface<1>>::storage_append_data(
        &mut s1,
        &topic,
        encode_bytes(&b"333".to_vec()),
    )
    .unwrap();
    pump(&mut [&mut s1, &mut s2]);
    <Swarm as ChordStorageInterface<1>>::storage_fetch(&mut s1, vid).unwrap();
    pump(&mut [&mut s1, &mut s2]);
    assert_eq!(
        s1.storage_check_cache(vid),
        Some(VirtualNode {
            did: vid,
            data: vec![
                encode_bytes(&b"111".to_vec()),
                encode_bytes(&b"222".to_vec()),
                encode_bytes(&b"333".to_vec()),
            ],
            kind: VNodeKind::Data,
        })
    );
}

#[test]
fn test_join_then_stabilize() {
    // Pick three seeds whose identities are in clockwise order.
    let mut swarms: Vec<Swarm> = (1u8..=5).map(make_swarm).collect();
    swarms.sort_by(|a, b| {
        if a.did.lt(&b.did) {
            std::cmp::Ordering::Less
        } else {
            std::cmp::Ordering::Greater
        }
    });
    let mut s3 = swarms.pop().unwrap();
    swarms.truncate(2);
    let mut s2 = swarms.pop().unwrap();
    let mut s1 = swarms.pop().unwrap();
    let (d1, d2, d3) = (s1.did, s2.did, s3.did);
    assert!(d1.lt(&d2) && d2.lt(&d3));

    connect(&mut s2, &mut s1);
    pump(&mut [&mut s1, &mut s2, &mut s3]);
    connect(&mut s3, &mut s2);
    pump(&mut [&mut s1, &mut s2, &mut s3]);

    for _ in 0..3 {
        s1.stabilize();
        s2.stabilize();
        s3.stabilize();
        pump(&mut [&mut s1, &mut s2, &mut s3]);
    }

    assert_eq!(s1.handler.dht.successors[0], d2);
    assert_eq!(s2.handler.dht.successors[0], d3);
    assert_eq!(s3.handler.dht.successors[0], d1);
    assert_eq!(s1.handler.dht.predecessor, Some(d3));
    assert_eq!(s2.handler.dht.predecessor, Some(d1));
    assert_eq!(s3.handler.dht.predecessor, Some(d2));
}

#[test]
fn test_loop_detection() {
    let mut s1 = make_swarm(1);
    let s2 = make_swarm(2);
    let did1 = s1.did;
    let did2 = s2.did;

    // Fabricate a SEND whose path already contains the receiving node.
    let mut relay = MessageRelay::new_send(did2, did1);
    relay.forward_step(did1, None).unwrap();
    assert_eq!(relay.method, RelayMethod::Send);
    let payload: MessagePayload = sign_payload(
        &s2.session,
        7,
        Message::CustomMessage(b"looped".to_vec()),
        relay,
        32,
    );

    s1.push_inbound(payload);
    let r = s1.listen_once(NOW);
    assert!(matches!(r, Err(Error::RoutingLoop)));
    assert!(s1.drain_outbound().is_empty());
    assert!(s1.handler.inbox.is_empty());
}

#[test]
fn test_router_rejects_bad_envelopes() {
    let mut s1 = make_swarm(1);
    let s2 = make_swarm(2);
    let did1 = s1.did;

    // A payload with no hops left is dropped with a TTL error.
    let relay = MessageRelay::new_send(s2.did, did1);
    let dead = sign_payload(&s2.session, 1, Message::CustomMessage(b"x".to_vec()), relay, 0);
    s1.push_inbound(dead);
    assert!(matches!(s1.listen_once(NOW), Err(Error::TtlExhausted)));

    // A payload whose session has expired is dropped.
    let short = DelegatedSession::new(&vec![7u8; 32], 10).unwrap();
    let relay = MessageRelay::new_send(short.owner(), did1);
    let stale = sign_payload(&short, 2, Message::CustomMessage(b"x".to_vec()), relay, 8);
    s1.push_inbound(stale);
    assert!(matches!(s1.listen_once(1000), Err(Error::SessionExpired)));

    // A SEND with a nonzero cursor is malformed.
    let mut relay = MessageRelay::new_send(s2.did, did1);
    relay.path_end_cursor = 0;
    let mut crooked = sign_payload(&s2.session, 3, Message::CustomMessage(b"x".to_vec()), relay, 8);
    crooked.relay.path_end_cursor = 5;
    s1.push_inbound(crooked);
    assert!(matches!(s1.listen_once(NOW), Err(Error::DecodeError)));

    // A tampered payload is dropped as a bad signature.
    let relay = MessageRelay::new_send(s2.did, did1);
    let mut forged = sign_payload(&s2.session, 4, Message::CustomMessage(b"x".to_vec()), relay, 8);
    forged.addr = did1;
    s1.push_inbound(forged);
    assert!(matches!(s1.listen_once(NOW), Err(Error::InvalidSignature)));

    assert!(s1.handler.inbox.is_empty());
    assert!(s1.drain_outbound().is_empty());
}

#[test]
fn test_fresh_ring_is_empty() {
    let pr = PeerRing::new(Did::from_parts(9, 9), 3);
    assert!(pr.successors.is_empty());
    assert!(pr.predecessor.is_none());
    assert!(pr.store.is_empty());
    assert!(pr.cache.is_empty());
    assert_eq!(pr.finger.len(), 160);
    assert!(pr.finger.iter().all(|f| f.is_none()));
}

#[test]
fn test_report_walks_path_backward() {
    // A SEND that travelled a, b, c, d answers along c, b, a.
    let a = Did::from_parts(0, 1);
    let b = Did::from_parts(0, 2);
    let c = Did::from_parts(0, 3);
    let d = Did::from_parts(0, 4);
    let mut relay = MessageRelay::new_send(a, d);
    relay.forward_step(b, None).unwrap();
    relay.forward_step(c, None).unwrap();
    relay.forward_step(d, None).unwrap();

    let mut report = relay.report();
    assert_eq!(report.destination, a);
    let mut hops: Vec<Did> = Vec::new();
    loop {
        match report.report_next_hop() {
            Some(h) => {
                hops.push(h);
                report.report_step();
            }
            None => break,
        }
    }
    assert_eq!(hops, vec![c, b, a]);
}

#[test]
fn test_register_keeps_healthy_replaces_dead() {
    let mut s = make_swarm(7);
    let peer = Did::from_parts(1, 2);
    s.register(peer, TransportState::Connecting);
    assert_eq!(s.transports.as_slice(), &[(peer, TransportState::Connecting)]);

    // A healthy entry survives and the newcomer is dropped.
    s.register(peer, TransportState::New);
    assert_eq!(s.transports.as_slice(), &[(peer, TransportState::Connecting)]);

    // A dead entry is replaced.
    s.transports[0] = (peer, TransportState::Failed);
    s.register(peer, TransportState::New);
    assert_eq!(s.transports.as_slice(), &[(peer, TransportState::New)]);

    // Another peer gets its own entry.
    let other = Did::from_parts(3, 4);
    s.register(other, TransportState::Connected);
    assert_eq!(s.transports.len(), 2);

    // Closing removes exactly the named entry, and closing again is a no-op.
    s.close_transport(&peer);
    assert_eq!(s.transports.as_slice(), &[(other, TransportState::Connected)]);
    s.close_transport(&peer);
    assert_eq!(s.transports.as_slice(), &[(other, TransportState::Connected)]);
}

#[test]
fn test_stabilize_queues_notify_for_top_successor() {
    let mut s1 = make_swarm(11);
    let mut s2 = make_swarm(12);
    connect(&mut s1, &mut s2);
    pump(&mut [&mut s1, &mut s2]);
    let did2 = s2.did;
    assert_eq!(s1.handler.dht.successors.first().copied(), Some(did2));

    s1.stabilize();
    let out = s1.drain_outbound();
    assert!(!out.is_empty());
    let (target, payload) = &out[0];
    assert_eq!(*target, did2);
    assert!(matches!(payload.data, Message::NotifyPredecessorSend { did } if did == s1.did));
    assert_eq!(payload.relay.destination, did2);
}

#[test]
fn test_validator_rejection_surfaces_as_invalid_message() {
    let mut s1 = make_swarm(21);
    let mut s2 = make_swarm(22);
    connect(&mut s1, &mut s2);
    pump(&mut [&mut s1, &mut s2]);

    let did1 = s1.did;
    s2.send_message(did1, Message::CustomMessage(b"spam".to_vec()));
    deliver(&mut [&mut s1, &mut s2]);

    let r = s1.listen_once_validated(NOW, Some(b"rejected by policy".to_vec()));
    match r {
        Err(Error::InvalidMessage(reason)) => assert_eq!(reason, b"rejected by policy".to_vec()),
        other => panic!("expected InvalidMessage, got {:?}", other.is_ok()),
    }
    // The rejected payload was dropped without side effects.
    assert!(s1.handler.inbox.is_empty());
    assert!(s1.drain_outbound().is_empty());
}

#[test]
fn test_chunk_window_decision() {
    // A complete message is kept at any age.
    assert!(chunk_window_check(0, 10_000, 30, true).is_ok());
    // A partial message inside the window is kept.
    assert!(chunk_window_check(100, 130, 30, false).is_ok());
    // A partial message past the window is dropped.
    assert!(matches!(
        chunk_window_check(100, 131, 30, false),
        Err(Error::ChunkTimeout)
    ));
    // A window reaching past the clock's range never expires.
    assert!(chunk_window_check(u64::MAX - 1, u64::MAX, u64::MAX, false).is_ok());
}

#[test]
fn test_remote_store_replicates_through_owner() {
    let mut s1 = make_swarm(31);
    let mut s2 = make_swarm(32);
    connect(&mut s1, &mut s2);
    pump(&mut [&mut s1, &mut s2]);

    let data = b"replicated record".to_vec();
    let vnode = VirtualNode::new_data(&data, vec![encode_bytes(&data)]);
    let vid = vnode.did;
    let (mut s1, mut s2) = owner_split(s1, s2, &vid);
    s1.set_redundancy(2);
    s2.set_redundancy(2);

    // A store issued at the non-owner travels to the owner, which keeps
    // the record and replicates it to its top successor.
    <Swarm as ChordStorageInterface<2>>::storage_store(&mut s1, vnode).unwrap();
    pump(&mut [&mut s1, &mut s2]);

    assert!(s2.handler.dht.store.iter().any(|v| v.did == vid));
    assert!(s1.handler.dht.store.iter().any(|v| v.did == vid));
}

#[test]
fn test_owner_store_replicates_directly() {
    let mut s1 = make_swarm(33);
    let mut s2 = make_swarm(34);
    connect(&mut s1, &mut s2);
    pump(&mut [&mut s1, &mut s2]);

    let data = b"owner-side record".to_vec();
    let vnode = VirtualNode::new_data(&data, vec![encode_bytes(&data)]);
    let vid = vnode.did;
    let (s_other, mut s_owner) = owner_split(s1, s2, &vid);
    s_owner.set_redundancy(2);

    <Swarm as ChordStorageInterface<2>>::storage_store(&mut s_owner, vnode).unwrap();

    // The owner applied the record at once and queued the replication.
    assert!(s_owner.handler.dht.store.iter().any(|v| v.did == vid));
    let out = s_owner.drain_outbound();
    assert!(out.iter().any(|(t, p)| *t == s_other.did
        && matches!(p.data, Message::SyncVNodeWithSuccessor { .. })));

    // Delivering it leaves the record in the successor's store too.
    let mut s_other = s_other;
    for (t, p) in out {
        if t == s_other.did {
            s_other.push_inbound(p);
        }
    }
    loop {
        match s_other.listen_once(NOW) {
            Ok(None) => break,
            _ => {}
        }
    }
    assert!(s_other.handler.dht.store.iter().any(|v| v.did == vid));
}

#[test]
fn test_single_redundancy_store_stays_with_owner() {
    let mut s1 = make_swarm(35);
    let mut s2 = make_swarm(36);
    connect(&mut s1, &mut s2);
    pump(&mut [&mut s1, &mut s2]);

    let data = b"lone record".to_vec();
    let vnode = VirtualNode::new_data(&data, vec![encode_bytes(&data)]);
    let vid = vnode.did;
    let (mut s1, mut s2) = owner_split(s1, s2, &vid);

    // With the default redundancy of one, the owner holds the only copy.
    <Swarm as ChordStorageInterface<1>>::storage_store(&mut s1, vnode).unwrap();
    pump(&mut [&mut s1, &mut s2]);

    assert!(s2.handler.dht.store.iter().any(|v| v.did == vid));
    assert!(!s1.handler.dht.store.iter().any(|v| v.did == vid));
}

#[test]
fn test_notify_report_refills_successor_tail() {
    let mut s = make_swarm(41);
    let me = s.did;
    let b = Did::from_parts(me.hi, me.lo.wrapping_add(20));
    let c = Did::from_parts(me.hi, me.lo.wrapping_add(30));
    let d = Did::from_parts(me.hi, me.lo.wrapping_add(40));
    s.handler.dht.add_successor(b);
    assert_eq!(s.handler.dht.successors.as_slice(), &[b]);

    // The reported predecessor equals the top successor: no adoption,
    // but the reported successor list refills the tail up to K.
    let ev = s.handler.handle_notify_predecessor_report(b, &vec![c, d]);
    assert!(ev.is_empty());
    assert_eq!(s.handler.dht.successors.as_slice(), &[b, c, d]);

    // A full list takes nothing more.
    let e = Did::from_parts(me.hi, me.lo.wrapping_add(50));
    s.handler.handle_notify_predecessor_report(b, &vec![e]);
    assert_eq!(s.handler.dht.successors.as_slice(), &[b, c, d]);
}
