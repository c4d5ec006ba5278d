use mde::alert_emit::{assemble_from_env, make_ulid, parse_i64_exec, FNV_SEED_2};

fn env(pairs: &[(&str, &str)]) -> Vec<(String, String)> {
    pairs.iter().map(|(k, v)| ((*k).to_owned(), (*v).to_owned())).collect()
}

#[test]
fn make_ulid_is_deterministic_for_same_inputs() {
    let a = make_ulid(1_716_000_000, "unique-id-001");
    let b = make_ulid(1_716_000_000, "unique-id-001");
    assert_eq!(a, b);
    assert_eq!(a.len(), 26);
}

#[test]
fn make_ulid_changes_on_different_unique_id() {
    let a = make_ulid(1_716_000_000, "unique-id-001");
    let b = make_ulid(1_716_000_000, "unique-id-002");
    assert_ne!(a, b);
}

#[test]
fn make_ulid_changes_on_different_timestamp() {
    let a = make_ulid(1_716_000_000, "unique-id-001");
    let b = make_ulid(1_716_000_001, "unique-id-001");
    assert_ne!(a, b);
}

#[test]
fn make_ulid_uses_crockford_alphabet_only() {
    let id = make_ulid(1_716_000_000, "some-unique-id");
    for c in id.chars() {
        assert!("0123456789ABCDEFGHJKMNPQRSTVWXYZ".contains(c), "non-Crockford char {c} in ULID {id}");
    }
}

#[test]
fn make_ulid_timestamp_prefix_is_sortable() {
    let earlier = make_ulid(1_716_000_000, "uid-A");
    let later = make_ulid(1_716_999_999, "uid-A");
    assert!(later > earlier);
}

#[test]
fn make_ulid_known_value_for_empty_id_at_epoch() {
    // ms = 0; FNV-1a of no bytes is the seed itself:
    // 0xcbf29ce484222325 << 16 | 0xe49c.
    let n: u128 = (0xcbf2_9ce4_8422_2325u128 << 16) | 0xe49c;
    let alphabet = b"0123456789ABCDEFGHJKMNPQRSTVWXYZ";
    let mut expect = String::new();
    for k in (0..26).rev() {
        expect.push(alphabet[((n >> (5 * k)) & 31) as usize] as char);
    }
    assert_eq!(make_ulid(0, ""), expect);
}

#[test]
fn fnv_second_seed_is_byte_swapped_basis() {
    assert_eq!(0x84222325_cbf29ce4_u64.swap_bytes(), FNV_SEED_2);
}

#[test]
fn parse_i64_follows_from_str() {
    assert_eq!(parse_i64_exec("1716000000"), Some(1_716_000_000));
    assert_eq!(parse_i64_exec("-5"), Some(-5));
    assert_eq!(parse_i64_exec("+7"), Some(7));
    assert_eq!(parse_i64_exec("-9223372036854775808"), Some(i64::MIN));
    assert_eq!(parse_i64_exec("9223372036854775807"), Some(i64::MAX));
    assert_eq!(parse_i64_exec("9223372036854775808"), None);
    assert_eq!(parse_i64_exec("-"), None);
    assert_eq!(parse_i64_exec("-+1"), None);
    assert_eq!(parse_i64_exec(""), None);
    assert_eq!(parse_i64_exec("12a"), None);
}

#[test]
fn assemble_from_env_requires_unique_id_and_when() {
    assert!(assemble_from_env(&env(&[])).is_none());
    assert!(assemble_from_env(&env(&[("NETDATA_ALARM_UNIQUE_ID", "u")])).is_none());
    assert!(assemble_from_env(&env(&[("NETDATA_ALARM_WHEN", "1716000000")])).is_none());
    let e = env(&[("NETDATA_ALARM_UNIQUE_ID", "u"), ("NETDATA_ALARM_WHEN", "1716000000")]);
    assert!(assemble_from_env(&e).is_some());
}

#[test]
fn assemble_from_env_carries_every_locked_field() {
    let e = env(&[
        ("NETDATA_ALARM_UNIQUE_ID", "uid-1"),
        ("NETDATA_ALARM_WHEN", "1716000000"),
        ("NETDATA_ALARM_STATUS", "CRITICAL"),
        ("NETDATA_ALARM_CHART_CONTEXT", "nebula.process"),
        ("NETDATA_ALARM_NAME", "nebula_process_down"),
        ("NETDATA_ALARM_HOSTNAME", "peer:alice"),
        ("NETDATA_ALARM_INFO", "Nebula process inactive for 45s"),
        ("NETDATA_ALARM_VALUE", "inactive"),
        ("NETDATA_ALARM_THRESHOLD", "active"),
        ("NETDATA_ALARM_CHART_URL", "https://peer:alice:19999/#menu_nebula"),
    ]);
    let ev = assemble_from_env(&e).expect("complete env → event");
    assert_eq!(ev.ts, 1_716_000_000);
    assert_eq!(ev.severity, "CRITICAL");
    assert_eq!(ev.category, "nebula.process");
    assert_eq!(ev.alert, "nebula_process_down");
    assert_eq!(ev.host, "peer:alice");
    assert_eq!(ev.summary, "Nebula process inactive for 45s");
    assert_eq!(ev.value, "inactive");
    assert_eq!(ev.threshold, "active");
    assert_eq!(ev.chart_url, "https://peer:alice:19999/#menu_nebula");
    assert_eq!(ev.fired_by, "mde-alert-emit");
    assert!(ev.seen_by.is_empty());
    assert_eq!(ev.id, make_ulid(1_716_000_000, "uid-1"));
}

#[test]
fn assemble_from_env_substitutes_unknown_severity_when_status_missing() {
    let e = env(&[("NETDATA_ALARM_UNIQUE_ID", "u"), ("NETDATA_ALARM_WHEN", "1716000000")]);
    let ev = assemble_from_env(&e).unwrap();
    assert_eq!(ev.severity, "UNKNOWN");
    assert_eq!(ev.category, "");
}

#[test]
fn assemble_from_env_rejects_unparsable_when() {
    let e = env(&[("NETDATA_ALARM_UNIQUE_ID", "u"), ("NETDATA_ALARM_WHEN", "soon")]);
    assert!(assemble_from_env(&e).is_none());
}

#[test]
fn assemble_from_env_last_entry_wins() {
    let e = env(&[
        ("NETDATA_ALARM_UNIQUE_ID", "u"),
        ("NETDATA_ALARM_WHEN", "1"),
        ("NETDATA_ALARM_WHEN", "2"),
    ]);
    assert_eq!(assemble_from_env(&e).unwrap().ts, 2);
}

#[test]
fn later_alarms_get_greater_ulids() {
    let a = make_ulid(1_716_000_000, "zzz-unique");
    let b = make_ulid(1_716_000_001, "aaa-unique");
    assert!(a < b);
    let c = make_ulid(0, "x");
    assert!(c < a);
}
