use mde::workers::lan_discovery::{
    decode_probe, encode_ping, encode_pong, higher_throughput_wins, ipv6_direct_wins, lan_direct_wins,
    ProbeMsg, SERVICE_TYPE, Registry, LanPeer, RttSample, PeerAddr, LanDiscoveryConfig,
    LanDiscoveryWorker, DEFAULT_PROBE_PORT, instance_from_fullname, handle_resolved, handle_removed,
    ProbeTracker,
};

fn v4(a: u8, b: u8, c: u8, d: u8) -> u32 {
    u32::from_be_bytes([a, b, c, d])
}

#[test]
fn service_type_matches_q7_lock() {
    assert_eq!(SERVICE_TYPE, "_mackes-peer._udp.local.");
}

#[test]
fn encode_and_decode_ping_round_trip() {
    let bytes = encode_ping(42);
    let decoded = decode_probe(&bytes).expect("decoded");
    assert_eq!(decoded, ProbeMsg::Ping(42));
}

#[test]
fn encode_and_decode_pong_round_trip() {
    let bytes = encode_pong(7);
    let decoded = decode_probe(&bytes).expect("decoded");
    assert_eq!(decoded, ProbeMsg::Pong(7));
}

#[test]
fn encode_layout_is_magic_opcode_le_seq() {
    assert_eq!(encode_ping(0x0403_0201), [b'M', b'P', b'R', b'B', 1, 1, 2, 3, 4]);
    assert_eq!(encode_pong(u32::MAX), [b'M', b'P', b'R', b'B', 2, 255, 255, 255, 255]);
    assert_eq!(decode_probe(&encode_pong(u32::MAX)), Some(ProbeMsg::Pong(u32::MAX)));
}

#[test]
fn decode_rejects_short_buffer() {
    assert!(decode_probe(&[]).is_none());
    assert!(decode_probe(b"MPRB").is_none());
    assert!(decode_probe(b"MPRB\x01\x00\x00").is_none());
}

#[test]
fn decode_rejects_wrong_magic() {
    let bad = b"XXXX\x01\x00\x00\x00\x00";
    assert!(decode_probe(bad).is_none());
}

#[test]
fn decode_rejects_unknown_opcode() {
    let mut buf = [0u8; 9];
    buf[..4].copy_from_slice(b"MPRB");
    buf[4] = 0xFF;
    assert!(decode_probe(&buf).is_none());
}

#[test]
fn decode_rejects_trailing_bytes() {
    let mut v = encode_ping(9).to_vec();
    v.push(0xAA);
    assert_eq!(decode_probe(&v), None);
}

#[test]
fn higher_throughput_wins_under_q23_lock() {
    assert!(higher_throughput_wins(Some(10_000_000), Some(1_000_000)));
    assert!(!higher_throughput_wins(Some(1_000_000), Some(10_000_000)));
    assert!(higher_throughput_wins(Some(5_000_000), Some(5_000_000)));
    assert!(higher_throughput_wins(Some(1), None));
    assert!(!higher_throughput_wins(None, Some(1)));
    assert!(!higher_throughput_wins(None, None));
}

#[test]
fn ipv6_direct_wins_under_q12_15_lock() {
    assert!(ipv6_direct_wins(Some(80), Some(20)));
    assert!(ipv6_direct_wins(Some(10), Some(50)));
    assert!(ipv6_direct_wins(Some(100), None));
    assert!(!ipv6_direct_wins(None, Some(100)));
    assert!(!ipv6_direct_wins(None, None));
}

#[test]
fn lan_direct_wins_under_q23_throughput_policy() {
    assert!(lan_direct_wins(Some(10), Some(50)));
    assert!(!lan_direct_wins(Some(50), Some(10)));
    assert!(lan_direct_wins(Some(20), Some(20)));
    assert!(lan_direct_wins(Some(100), None));
    assert!(!lan_direct_wins(None, Some(100)));
    assert!(!lan_direct_wins(None, None));
}

#[test]
fn registry_upsert_and_remove() {
    let mut r = Registry::new();
    assert_eq!(r.peer_count(), 0);
    let peer = LanPeer {
        instance: "anvil".into(),
        host: "anvil".into(),
        addr: PeerAddr { ip: v4(192, 168, 1, 4), port: 41841 },
    };
    r.upsert_peer(peer.clone());
    assert_eq!(r.peer_count(), 1);
    // Idempotent upsert.
    r.upsert_peer(peer.clone());
    assert_eq!(r.peer_count(), 1);
    r.remove_peer("anvil");
    assert_eq!(r.peer_count(), 0);
}

#[test]
fn registry_snapshot_is_sorted_by_instance() {
    let mut r = Registry::new();
    for name in ["pine", "anvil", "oak"] {
        r.upsert_peer(LanPeer {
            instance: name.into(),
            host: name.into(),
            addr: PeerAddr { ip: v4(192, 168, 1, 1), port: 41841 },
        });
    }
    let (peers, _) = r.snapshot();
    let names: Vec<_> = peers.iter().map(|p| p.instance.as_str()).collect();
    assert_eq!(names, vec!["anvil", "oak", "pine"]);
}

#[test]
fn registry_record_rtt_keeps_only_latest_per_peer() {
    let mut r = Registry::new();
    let addr = PeerAddr { ip: v4(192, 168, 1, 9), port: 41841 };
    r.record_rtt(RttSample { peer: "pine".into(), addr, rtt_ms: 50, seq: 1 });
    r.record_rtt(RttSample { peer: "pine".into(), addr, rtt_ms: 30, seq: 2 });
    assert_eq!(r.rtt_count(), 1);
    let (_, rtts) = r.snapshot();
    assert_eq!(rtts.iter().find(|s| s.peer == "pine").unwrap().rtt_ms, 30);
}

#[test]
fn registry_remove_peer_drops_its_rtt_sample() {
    let mut r = Registry::new();
    let addr = PeerAddr { ip: v4(10, 0, 0, 2), port: 41841 };
    r.upsert_peer(LanPeer { instance: "oak".into(), host: "oak".into(), addr });
    r.record_rtt(RttSample { peer: "oak".into(), addr, rtt_ms: 7, seq: 1 });
    r.record_rtt(RttSample { peer: "elm".into(), addr, rtt_ms: 9, seq: 2 });
    r.remove_peer("oak");
    assert_eq!(r.peer_count(), 0);
    assert_eq!(r.rtt_count(), 1);
    let (_, rtts) = r.snapshot();
    assert_eq!(rtts[0].peer, "elm");
}

#[test]
fn registry_upsert_replaces_address() {
    let mut r = Registry::new();
    r.upsert_peer(LanPeer { instance: "oak".into(), host: "oak".into(), addr: PeerAddr { ip: 1, port: 2 } });
    r.upsert_peer(LanPeer { instance: "oak".into(), host: "oak".into(), addr: PeerAddr { ip: 3, port: 4 } });
    let (peers, _) = r.snapshot();
    assert_eq!(peers.len(), 1);
    assert_eq!(peers[0].addr, PeerAddr { ip: 3, port: 4 });
}

#[test]
fn config_new_defaults_to_locked_constants() {
    let cfg = LanDiscoveryConfig::new("anvil".to_string());
    assert_eq!(cfg.host, "anvil");
    assert_eq!(cfg.port, DEFAULT_PROBE_PORT);
    assert_eq!(cfg.probe_period, std::time::Duration::from_secs(5));
    assert_eq!(cfg.registry.peer_count(), 0);
}

#[test]
fn worker_name_is_kebab_case() {
    let w = LanDiscoveryWorker::new(LanDiscoveryConfig::new("anvil".to_string()));
    assert_eq!(w.name(), "lan-discovery");
    assert_eq!(w.registry().peer_count(), 0);
}

#[test]
fn instance_label_strips_service_type_and_dots() {
    assert_eq!(instance_from_fullname("pine._mackes-peer._udp.local."), "pine");
    assert_eq!(instance_from_fullname("pine.._mackes-peer._udp.local."), "pine");
    assert_eq!(instance_from_fullname("pine._other._udp.local."), "pine._other._udp.local.");
}

#[test]
fn resolved_announcements_fill_the_registry_except_our_own() {
    let mut r = Registry::new();
    let addr = PeerAddr { ip: v4(192, 168, 1, 7), port: 41841 };
    handle_resolved(&mut r, "anvil._mackes-peer._udp.local.", Some(addr), "anvil");
    assert_eq!(r.peer_count(), 0);
    handle_resolved(&mut r, "pine._mackes-peer._udp.local.", None, "anvil");
    assert_eq!(r.peer_count(), 0);
    handle_resolved(&mut r, "pine._mackes-peer._udp.local.", Some(addr), "anvil");
    let (peers, _) = r.snapshot();
    assert_eq!(peers.len(), 1);
    assert_eq!(peers[0].instance, "pine");
    assert_eq!(peers[0].host, "pine");
    assert_eq!(peers[0].addr, addr);
    handle_removed(&mut r, "pine._mackes-peer._udp.local.");
    assert_eq!(r.peer_count(), 0);
}

fn probe_peer(name: &str, last: u8) -> LanPeer {
    LanPeer {
        instance: name.to_string(),
        host: name.to_string(),
        addr: PeerAddr { ip: v4(192, 168, 1, last), port: DEFAULT_PROBE_PORT },
    }
}

#[test]
fn probe_tick_pings_every_peer_with_consecutive_sequence_numbers() {
    let mut t = ProbeTracker::new();
    let peers = vec![probe_peer("a", 10), probe_peer("b", 11)];
    let pings = t.on_tick(&peers, 1_000);
    assert_eq!(pings.len(), 2);
    assert_eq!(pings[0], (peers[0].addr, encode_ping(1)));
    assert_eq!(pings[1], (peers[1].addr, encode_ping(2)));
    assert_eq!(t.next_seq, 2);
    assert_eq!(t.pending.len(), 2);
}

#[test]
fn probe_sequence_wraps_after_the_largest_number() {
    let mut t = ProbeTracker { next_seq: u32::MAX, pending: Vec::new() };
    let pings = t.on_tick(&vec![probe_peer("a", 10)], 5);
    assert_eq!(pings[0].1, encode_ping(0));
    assert_eq!(t.next_seq, 0);
}

#[test]
fn pong_for_an_outstanding_ping_records_the_round_trip_once() {
    let mut t = ProbeTracker::new();
    let mut reg = Registry::new();
    let peers = vec![probe_peer("a", 10), probe_peer("b", 11)];
    t.on_tick(&peers, 1_000);
    let reply = t.on_datagram(&mut reg, peers[0].addr, &encode_pong(1), 1_007);
    assert_eq!(reply, None);
    let (_, rtts) = reg.snapshot();
    assert_eq!(rtts, vec![RttSample { peer: "a".to_string(), addr: peers[0].addr, rtt_ms: 7, seq: 1 }]);
    assert_eq!(t.pending.len(), 1);
    // The same pong again, or one from another address, changes nothing.
    t.on_datagram(&mut reg, peers[0].addr, &encode_pong(1), 1_050);
    t.on_datagram(&mut reg, peers[0].addr, &encode_pong(2), 1_050);
    assert_eq!(reg.rtt_count(), 1);
    assert_eq!(reg.snapshot().1[0].rtt_ms, 7);
    assert_eq!(t.pending.len(), 1);
}

#[test]
fn ping_is_answered_with_its_pong() {
    let mut t = ProbeTracker::new();
    let mut reg = Registry::new();
    let src = PeerAddr { ip: v4(10, 0, 0, 1), port: 9 };
    assert_eq!(t.on_datagram(&mut reg, src, &encode_ping(42), 0), Some(encode_pong(42)));
    assert_eq!(t.on_datagram(&mut reg, src, b"junk", 0), None);
    assert_eq!(reg.rtt_count(), 0);
}

#[test]
fn failed_send_drops_the_outstanding_ping() {
    let mut t = ProbeTracker::new();
    let peers = vec![probe_peer("a", 10)];
    t.on_tick(&peers, 0);
    t.on_send_failed(peers[0].addr, 1);
    assert!(t.pending.is_empty());
    let mut reg = Registry::new();
    t.on_datagram(&mut reg, peers[0].addr, &encode_pong(1), 3);
    assert_eq!(reg.rtt_count(), 0);
}
