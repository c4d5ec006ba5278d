use mde::workers::netassess::{
    parse_default_gateway, parse_ip_link_mtu, parse_ip_neigh, parse_nmcli_wifi, parse_resolv_conf,
    parse_tunnel_up, snapshot_filename, NetAssessWorker, DEFAULT_NEBULA_INTERFACE,
};

#[test]
fn wifi_parses_terse_lines() {
    let raw = "HomeNet:78:36:WPA2\nCoffee\\:Shop:42:6:WPA2\nOpenAP:90:11:--\n";
    let nets = parse_nmcli_wifi(raw);
    assert_eq!(nets.len(), 3);
    assert_eq!(nets[0].ssid, "HomeNet");
    assert_eq!(nets[0].signal, 78);
    assert_eq!(nets[0].channel, 36);
    assert_eq!(nets[0].security, "WPA2");
    assert_eq!(nets[1].ssid, "Coffee:Shop");
    assert_eq!(nets[2].security, "--");
}

#[test]
fn wifi_skips_blank_and_short_lines() {
    let raw = "\nBad:line\nGood:50:1:WPA3\n";
    let nets = parse_nmcli_wifi(raw);
    assert_eq!(nets.len(), 1);
    assert_eq!(nets[0].ssid, "Good");
}

#[test]
fn wifi_unparsable_numbers_are_zero() {
    let nets = parse_nmcli_wifi("X: 300 :abc: WPA2 \n");
    assert_eq!(nets.len(), 1);
    assert_eq!(nets[0].signal, 0);
    assert_eq!(nets[0].channel, 0);
    assert_eq!(nets[0].security, "WPA2");
}

#[test]
fn neigh_parses_reachable_entries() {
    let raw = "10.0.0.1 dev eth0 lladdr AA:BB:CC:DD:EE:FF REACHABLE\n\
               10.0.0.2 dev eth0 FAILED\n\
               fe80::1 dev eth0 lladdr 11:22:33:44:55:66 STALE\n";
    let arp = parse_ip_neigh(raw);
    assert_eq!(arp.len(), 2);
    assert_eq!(arp[0].ip, "10.0.0.1");
    assert_eq!(arp[0].mac, "aa:bb:cc:dd:ee:ff");
    assert_eq!(arp[0].iface, "eth0");
}

#[test]
fn neigh_without_dev_has_empty_iface() {
    let arp = parse_ip_neigh("10.0.0.9 lladdr 0A:0B:0C:0D:0E:0F\n");
    assert_eq!(arp.len(), 1);
    assert_eq!(arp[0].iface, "");
    assert_eq!(arp[0].mac, "0a:0b:0c:0d:0e:0f");
}

#[test]
fn gateway_from_default_route() {
    let raw = "default via 192.168.1.1 dev wlan0 proto dhcp metric 600\n";
    assert_eq!(parse_default_gateway(raw), "192.168.1.1");
}

#[test]
fn gateway_empty_when_no_default() {
    assert_eq!(parse_default_gateway("10.0.0.0/24 dev eth0\n"), "");
}

#[test]
fn gateway_skips_default_line_without_via() {
    let raw = "default dev wg0\ndefault via 10.0.0.254 dev eth0\n";
    assert_eq!(parse_default_gateway(raw), "10.0.0.254");
}

#[test]
fn resolv_extracts_nameservers() {
    let raw = "# generated\nnameserver 1.1.1.1\nsearch lan\nnameserver 8.8.8.8\n";
    assert_eq!(parse_resolv_conf(raw), vec!["1.1.1.1", "8.8.8.8"]);
}

#[test]
fn resolv_skips_comments_and_empty_values() {
    let raw = "; nameserver 9.9.9.9\n  nameserver   10.0.0.53  \nnameserver \n";
    assert_eq!(parse_resolv_conf(raw), vec!["10.0.0.53"]);
}

#[test]
fn mtu_parses_and_flags_jumbo() {
    let std1 = "2: eth0: <BROADCAST,MULTICAST,UP> mtu 1500 qdisc fq state UP";
    let m = parse_ip_link_mtu(std1, "eth0").expect("mtu");
    assert_eq!(m.mtu, 1500);
    assert!(!m.jumbo);
    let std2 = "3: eth1: <UP> mtu 9000 qdisc fq";
    assert!(parse_ip_link_mtu(std2, "eth1").unwrap().jumbo);
}

#[test]
fn mtu_none_without_number() {
    assert!(parse_ip_link_mtu("eth0 mtu", "eth0").is_none());
    assert!(parse_ip_link_mtu("eth0 mtu big", "eth0").is_none());
    assert!(parse_ip_link_mtu("", "eth0").is_none());
}

#[test]
fn tunnel_up_detected_from_flags_and_state() {
    assert!(parse_tunnel_up("4: nebula1: <POINTOPOINT,MULTICAST,NOARP,UP,LOWER_UP> mtu 1300", "nebula1"));
    assert!(parse_tunnel_up("nebula1: state UP mtu 1300", "nebula1"));
    assert!(!parse_tunnel_up("4: nebula1: <POINTOPOINT,NOARP> state DOWN", "nebula1"));
    assert!(!parse_tunnel_up("", "nebula1"));
}

#[test]
fn filename_is_colon_free_with_hash_suffix() {
    let name = snapshot_filename("20260531T143000", r#"{"ts_ms":1}"#);
    assert!(name.starts_with("20260531T143000-"));
    assert!(name.ends_with(".json"));
    assert!(!name.contains(':'));
    assert_eq!(name, snapshot_filename("20260531T143000", r#"{"ts_ms":1}"#));
}

#[test]
fn filename_colons_replaced() {
    let name = snapshot_filename("2026-05-31T14:30:00", "{}");
    assert!(!name.contains(':'));
}

#[test]
fn filename_hash_is_sha256_prefix() {
    // SHA-256("") = e3b0c442...
    assert_eq!(snapshot_filename("t:1", ""), "t-1-e3b0c442.json");
    // SHA-256("abc") = ba7816bf...
    assert_eq!(snapshot_filename("x", "abc"), "x-ba7816bf.json");
}

#[test]
fn worker_defaults_and_tick_override() {
    let w = NetAssessWorker::new("alice".to_string(), "/base".to_string());
    assert_eq!(w.host, "alice");
    assert_eq!(w.nebula_iface, DEFAULT_NEBULA_INTERFACE);
    assert_eq!(w.tick, std::time::Duration::from_secs(3600));
    let w = w.with_tick(std::time::Duration::from_secs(5));
    assert_eq!(w.tick, std::time::Duration::from_secs(5));
}

#[test]
fn primary_iface_is_the_default_route_device() {
    use_primary_iface();
}

fn use_primary_iface() {
    use_it(mde::workers::netassess::primary_iface_from(Some("default via 192.168.1.1 dev wlp2s0 proto dhcp metric 600\n")), "wlp2s0");
    use_it(mde::workers::netassess::primary_iface_from(Some("default via 10.0.0.1 dev\n")), "eth0");
    use_it(mde::workers::netassess::primary_iface_from(Some("")), "eth0");
    use_it(mde::workers::netassess::primary_iface_from(None), "eth0");
}

fn use_it(got: String, want: &str) {
    assert_eq!(got, want);
}

#[test]
fn subnet_count_prefers_the_probe_inventory() {
    let s = mde::workers::netassess::subnet_from(Some(12), 3);
    assert_eq!(s.host_count, 12);
    assert_eq!(s.source, "probe-inventory");
    let s = mde::workers::netassess::subnet_from(None, 3);
    assert_eq!(s.host_count, 3);
    assert_eq!(s.source, "arp-fallback");
}

#[test]
fn ping_probe_arguments() {
    assert_eq!(mde::workers::netassess::ping_args("1.1.1.1", false), vec!["-c", "1", "-W", "2", "1.1.1.1"]);
    assert_eq!(mde::workers::netassess::ping_args("::1", true), vec!["-6", "-c", "1", "-W", "2", "::1"]);
}

#[test]
fn subnet_arp_fallback_counts_entries() {
    let arp_len = 2;
    let s = mde::workers::netassess::subnet_from(None, arp_len);
    assert_eq!(s.source, "arp-fallback");
    assert_eq!(s.host_count, 2);
}

#[test]
fn tunnel_up_when_up_is_the_only_flag() {
    assert!(mde::workers::netassess::parse_tunnel_up("4: nebula1: <UP> mtu 1300", "nebula1"));
    assert!(!mde::workers::netassess::parse_tunnel_up("4: nebula1: <LOWER_UP> mtu 1300", "nebula1"));
}

#[test]
fn snapshot_filename_from_digest_uses_its_first_four_bytes() {
    let name = mde::workers::netassess::snapshot_filename_from_digest("2024-01-02T03:04:05Z", &[0xde, 0xad, 0x0b, 0xef, 0x11]);
    assert_eq!(name, "2024-01-02T03-04-05Z-dead0bef.json");
}
