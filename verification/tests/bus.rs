use mde::bus::cli::hostname_for_discovery;
use mde::bus::audit::filename_for_ymd;
use mde::bus::persist::{classify_entry, compose_message, divergence, TreeEntry};
use mde::bus::dnd::{DndTickOutcome, DndWatcher, PollStep};
use mde::bus::cli::{add_pattern, audit_tail_start, history_rows, remove_pattern, AuditOp, Cli, Cmd, HistoryArgs, MuteOp, SubOp, TopicOp};
use mde::bus::audit::audit_dir;
use mde::bus::config::Priority;
use mde::bus::correlate::{evaluate_rule, validate_config, CorrelateConfig, CorrelateRule, SlidingWindow};
use mde::bus::dnd::{is_quiet_hour, is_suppressed, parse_hhmm, DndState, TopicQuietHours};
use mde::bus::persist::{validate_topic, DivergenceReport, PersistError, StoredMessage};
use mde::bus::surface::{dispatch, parse_priority, RecordingSurfaces};

// ─── correlate ─────────────────────────────────────────────────────────

#[test]
fn sliding_window_observe_and_lookup() {
    let mut w = SlidingWindow::default();
    assert!(w.is_empty());
    w.observe("a", 100);
    w.observe("b", 200);
    assert_eq!(w.last_seen("a"), Some(100));
    assert_eq!(w.last_seen("b"), Some(200));
    assert!(w.last_seen("c").is_none());
    assert_eq!(w.len(), 2);
}

#[test]
fn sliding_window_observe_updates_existing_entry() {
    let mut w = SlidingWindow::default();
    w.observe("a", 100);
    w.observe("a", 250);
    assert_eq!(w.last_seen("a"), Some(250));
    assert_eq!(w.len(), 1);
}

fn sample_rule() -> CorrelateRule {
    CorrelateRule {
        name: "likely-power-outage".to_string(),
        sources: vec!["power/ups/grid-loss".to_string(), "network/wan-down".to_string()],
        window_seconds: 60,
        emits: "incident/likely-power-outage".to_string(),
        priority: Priority::High,
    }
}

#[test]
fn evaluate_rule_fires_when_both_sources_within_window() {
    let rule = sample_rule();
    let mut w = SlidingWindow::default();
    let now = 1_700_000_000_000;
    w.observe("power/ups/grid-loss", now - 30_000);
    w.observe("network/wan-down", now - 15_000);
    let emission = evaluate_rule(&rule, &w, now).expect("fires");
    assert_eq!(emission.rule_name, "likely-power-outage");
    assert_eq!(emission.topic, "incident/likely-power-outage");
    assert_eq!(emission.priority, Priority::High);
}

#[test]
fn evaluate_rule_no_fire_when_source_outside_window() {
    let rule = sample_rule();
    let mut w = SlidingWindow::default();
    let now = 1_700_000_000_000;
    w.observe("power/ups/grid-loss", now - 30_000);
    w.observe("network/wan-down", now - 90_000);
    assert!(evaluate_rule(&rule, &w, now).is_none());
}

#[test]
fn evaluate_rule_no_fire_when_source_missing() {
    let rule = sample_rule();
    let mut w = SlidingWindow::default();
    let now = 1_700_000_000_000;
    w.observe("power/ups/grid-loss", now - 30_000);
    assert!(evaluate_rule(&rule, &w, now).is_none());
}

#[test]
fn evaluate_rule_no_fire_on_empty_sources() {
    let rule = CorrelateRule {
        name: "always-fire-bug".to_string(),
        sources: vec![],
        window_seconds: 60,
        emits: "x".to_string(),
        priority: Priority::Default,
    };
    let w = SlidingWindow::default();
    assert!(evaluate_rule(&rule, &w, 0).is_none());
}

#[test]
fn evaluate_rule_zero_window_requires_exact_now() {
    let rule = CorrelateRule {
        name: "instant".to_string(),
        sources: vec!["a".to_string()],
        window_seconds: 0,
        emits: "x".to_string(),
        priority: Priority::Default,
    };
    let mut w = SlidingWindow::default();
    let now = 1_700_000_000_000;
    w.observe("a", now);
    assert!(evaluate_rule(&rule, &w, now).is_some());
    let mut w2 = SlidingWindow::default();
    w2.observe("a", now - 1);
    assert!(evaluate_rule(&rule, &w2, now).is_none());
}

#[test]
fn evaluate_rule_window_boundary_is_inclusive() {
    let rule = sample_rule();
    let mut w = SlidingWindow::default();
    let now = 1_700_000_000_000;
    w.observe("power/ups/grid-loss", now - 60_000);
    w.observe("network/wan-down", now - 60_000);
    assert!(evaluate_rule(&rule, &w, now).is_some());
    w.observe("network/wan-down", now - 60_001);
    assert!(evaluate_rule(&rule, &w, now).is_none());
}

#[test]
fn sliding_window_clone_keeps_observations() {
    let mut w = SlidingWindow::default();
    w.observe("a", 7);
    let c = w.clone();
    w.observe("a", 9);
    assert_eq!(c.last_seen("a"), Some(7));
    assert_eq!(w.last_seen("a"), Some(9));
    assert_eq!(c.len(), 1);
}

#[test]
fn validate_clean_config_returns_empty() {
    let cfg = CorrelateConfig { rules: vec![sample_rule()] };
    assert!(validate_config(&cfg).is_empty());
}

#[test]
fn validate_empty_sources_flags_issue() {
    let cfg = CorrelateConfig {
        rules: vec![CorrelateRule {
            name: "bad".to_string(),
            sources: vec![],
            window_seconds: 60,
            emits: "x".to_string(),
            priority: Priority::Default,
        }],
    };
    let issues = validate_config(&cfg);
    assert_eq!(issues.len(), 1);
    assert!(issues[0].message.contains("rule.sources is empty"));
    assert_eq!(issues[0].rule_index, Some(0));
    assert_eq!(issues[0].rule_name, "bad");
}

#[test]
fn validate_empty_emits_flags_issue() {
    let cfg = CorrelateConfig {
        rules: vec![CorrelateRule {
            name: "bad".to_string(),
            sources: vec!["a".to_string()],
            window_seconds: 60,
            emits: String::new(),
            priority: Priority::Default,
        }],
    };
    let issues = validate_config(&cfg);
    assert!(issues.iter().any(|i| i.message.contains("rule.emits is empty")));
}

#[test]
fn validate_zero_window_flags_issue() {
    let cfg = CorrelateConfig {
        rules: vec![CorrelateRule {
            name: "bad".to_string(),
            sources: vec!["a".to_string()],
            window_seconds: 0,
            emits: "x".to_string(),
            priority: Priority::Default,
        }],
    };
    let issues = validate_config(&cfg);
    assert!(issues.iter().any(|i| i.message.contains("window_seconds is 0")));
}

#[test]
fn validate_duplicate_names_flags_issue() {
    let cfg = CorrelateConfig { rules: vec![sample_rule(), sample_rule()] };
    let issues = validate_config(&cfg);
    assert_eq!(issues.len(), 1);
    assert!(issues[0].message.contains("duplicate rule name"));
    assert!(issues[0].rule_index.is_none());
}

#[test]
fn validate_empty_name_flags_issue_but_doesnt_dup_track() {
    let cfg = CorrelateConfig {
        rules: vec![
            CorrelateRule {
                name: String::new(),
                sources: vec!["a".to_string()],
                window_seconds: 60,
                emits: "x".to_string(),
                priority: Priority::Default,
            },
            CorrelateRule {
                name: String::new(),
                sources: vec!["b".to_string()],
                window_seconds: 60,
                emits: "y".to_string(),
                priority: Priority::Default,
            },
        ],
    };
    let issues = validate_config(&cfg);
    assert_eq!(issues.len(), 2);
    assert!(issues.iter().all(|i| i.message.contains("rule.name is empty")));
}

fn named(name: &str) -> CorrelateRule {
    CorrelateRule {
        name: name.to_string(),
        sources: vec!["a".to_string()],
        window_seconds: 60,
        emits: "x".to_string(),
        priority: Priority::Default,
    }
}

#[test]
fn validate_duplicate_message_lists_indices_and_sorts_by_name() {
    let cfg = CorrelateConfig {
        rules: vec![named("zeta"), named("alpha"), named("zeta"), named("alpha"), named("beta"), named("zeta")],
    };
    let issues = validate_config(&cfg);
    assert_eq!(issues.len(), 2);
    assert_eq!(issues[0].rule_name, "alpha");
    assert_eq!(
        issues[0].message,
        "duplicate rule name \"alpha\" at indices [1, 3] — audit trail would be ambiguous"
    );
    assert_eq!(issues[1].rule_name, "zeta");
    assert_eq!(
        issues[1].message,
        "duplicate rule name \"zeta\" at indices [0, 2, 5] — audit trail would be ambiguous"
    );
}

#[test]
fn validate_per_rule_findings_come_first_in_order() {
    let mut bad = named("");
    bad.sources.clear();
    bad.emits.clear();
    bad.window_seconds = 0;
    let cfg = CorrelateConfig { rules: vec![named("d"), bad, named("d")] };
    let issues = validate_config(&cfg);
    let msgs: Vec<&str> = issues.iter().map(|i| i.message.as_str()).collect();
    assert_eq!(
        msgs,
        vec![
            "rule.name is empty",
            "rule.sources is empty (rule can never fire)",
            "rule.emits is empty (synthesized topic would be the empty string)",
            "rule.window_seconds is 0 (requires all sources in the same millisecond)",
            "duplicate rule name \"d\" at indices [0, 2] — audit trail would be ambiguous",
        ]
    );
    assert!(issues[..4].iter().all(|i| i.rule_index == Some(1)));
}

// ─── config ────────────────────────────────────────────────────────────

#[test]
fn priority_maps_to_ntfy_header_levels() {
    assert_eq!(Priority::Min.ntfy_header(), "1");
    assert_eq!(Priority::Default.ntfy_header(), "3");
    assert_eq!(Priority::High.ntfy_header(), "4");
    assert_eq!(Priority::Urgent.ntfy_header(), "5");
}

#[test]
fn priority_default_is_default() {
    assert_eq!(Priority::default(), Priority::Default);
}

// ─── dnd ───────────────────────────────────────────────────────────────

#[test]
fn default_state_is_dnd_off() {
    let s = DndState::default();
    assert!(!s.active);
    assert_eq!(s.since_unix_ms, 0);
    assert!(s.set_by_peer.is_empty());
}

#[test]
fn topic_quiet_hours_default_no_window() {
    let h = TopicQuietHours::default();
    assert!(h.quiet_after.is_none());
    assert!(h.quiet_until.is_none());
    assert!(!is_quiet_hour(12 * 3600, h));
}

#[test]
fn quiet_hour_same_day_window() {
    let h = TopicQuietHours { quiet_after: Some(9 * 3600), quiet_until: Some(17 * 3600) };
    assert!(!is_quiet_hour(8 * 3600, h));
    assert!(is_quiet_hour(9 * 3600, h));
    assert!(is_quiet_hour(12 * 3600, h));
    assert!(!is_quiet_hour(17 * 3600, h));
    assert!(!is_quiet_hour(20 * 3600, h));
}

#[test]
fn quiet_hour_overnight_window() {
    let h = TopicQuietHours { quiet_after: Some(22 * 3600), quiet_until: Some(7 * 3600) };
    assert!(is_quiet_hour(23 * 3600, h));
    assert!(is_quiet_hour(0, h));
    assert!(is_quiet_hour(6 * 3600, h));
    assert!(!is_quiet_hour(7 * 3600, h));
    assert!(!is_quiet_hour(12 * 3600, h));
    assert!(!is_quiet_hour(21 * 3600 + 59 * 60, h));
}

#[test]
fn quiet_hour_zero_length_window_never_fires() {
    let h = TopicQuietHours { quiet_after: Some(12 * 3600), quiet_until: Some(12 * 3600) };
    for hour in 0..24 {
        assert!(!is_quiet_hour(hour * 3600, h));
    }
}

#[test]
fn quiet_hour_one_sided_window_never_fires() {
    let only_after = TopicQuietHours { quiet_after: Some(9 * 3600), quiet_until: None };
    assert!(!is_quiet_hour(12 * 3600, only_after));
    let only_until = TopicQuietHours { quiet_after: None, quiet_until: Some(17 * 3600) };
    assert!(!is_quiet_hour(12 * 3600, only_until));
}

#[test]
fn override_dnd_tag_bypasses_global_toggle() {
    let state = DndState { active: true, since_unix_ms: 1_000, set_by_peer: "fedora".to_string() };
    let hours = TopicQuietHours::default();
    let tags_with_override = ["priority=urgent", "override=dnd"];
    let tags_without = ["priority=urgent"];
    assert!(!is_suppressed(&state, hours, &tags_with_override, 12 * 3600));
    assert!(is_suppressed(&state, hours, &tags_without, 12 * 3600));
}

#[test]
fn override_dnd_tag_bypasses_quiet_hours() {
    let state = DndState::default();
    let hours = TopicQuietHours { quiet_after: Some(9 * 3600), quiet_until: Some(17 * 3600) };
    let tags_with_override = ["override=dnd"];
    let tags_without: [&str; 0] = [];
    assert!(!is_suppressed(&state, hours, &tags_with_override, 12 * 3600));
    assert!(is_suppressed(&state, hours, &tags_without, 12 * 3600));
}

#[test]
fn dnd_off_outside_quiet_hours_is_not_suppressed() {
    let state = DndState::default();
    let hours = TopicQuietHours { quiet_after: Some(9 * 3600), quiet_until: Some(17 * 3600) };
    assert!(!is_suppressed(&state, hours, &[], 20 * 3600));
}

#[test]
fn parse_hhmm_round_trip() {
    assert_eq!(parse_hhmm("09:00"), Some(9 * 3600));
    assert_eq!(parse_hhmm("17:00"), Some(17 * 3600));
    assert_eq!(parse_hhmm("00:00"), Some(0));
    assert_eq!(parse_hhmm("23:59"), Some(23 * 3600 + 59 * 60));
    assert_eq!(parse_hhmm("12:30"), Some(12 * 3600 + 30 * 60));
}

#[test]
fn parse_hhmm_rejects_malformed() {
    assert!(parse_hhmm("").is_none());
    assert!(parse_hhmm("9").is_none());
    assert!(parse_hhmm("09").is_none());
    assert!(parse_hhmm("09:").is_none());
    assert!(parse_hhmm(":00").is_none());
    assert!(parse_hhmm("24:00").is_none());
    assert!(parse_hhmm("09:60").is_none());
    assert!(parse_hhmm("ab:cd").is_none());
}

#[test]
fn parse_hhmm_accepts_plus_and_single_digits() {
    assert_eq!(parse_hhmm("+7:5"), Some(7 * 3600 + 5 * 60));
    assert!(parse_hhmm("1:2:3").is_none());
}

// ─── persist ───────────────────────────────────────────────────────────

fn bad_topic(t: &str) -> String {
    match validate_topic(t) {
        Err(PersistError::BadTopic(m)) => m,
        other => panic!("expected a rejection, got {other:?}"),
    }
}

#[test]
fn validate_topic_rejects_each_bad_shape() {
    assert_eq!(bad_topic(""), "empty");
    assert_eq!(bad_topic("/leading"), "leading/trailing slash: /leading");
    assert_eq!(bad_topic("trailing/"), "leading/trailing slash: trailing/");
    assert_eq!(bad_topic("../escape"), "path-escape attempt: ../escape");
    assert_eq!(bad_topic("double//slash"), "double slash: double//slash");
    assert_eq!(bad_topic("wild/+/card"), "wildcards in publish topic: wild/+/card");
    assert_eq!(bad_topic("a/#"), "wildcards in publish topic: a/#");
}

#[test]
fn validate_topic_accepts_plain_paths() {
    assert!(validate_topic("gh/push").is_ok());
    assert!(validate_topic("a.b/c").is_ok());
}

#[test]
fn divergence_report_is_clean_only_when_both_lists_empty() {
    assert!(DivergenceReport::default().is_clean());
    let r = DivergenceReport { files_without_rows: vec!["t/x.json".to_string()], rows_without_files: vec![] };
    assert!(!r.is_clean());
    let r = DivergenceReport { files_without_rows: vec![], rows_without_files: vec!["t/y.json".to_string()] };
    assert!(!r.is_clean());
}

// ─── surface ───────────────────────────────────────────────────────────

fn msg(ulid: &str, priority: &str) -> StoredMessage {
    StoredMessage {
        ulid: ulid.to_string(),
        topic: "t".to_string(),
        priority: priority.to_string(),
        title: None,
        body: Some("b".to_string()),
        ts_unix_ms: 0,
        file_path: format!("t/{ulid}.json"),
    }
}

#[test]
fn parse_priority_normalises_to_default_on_unknown() {
    assert_eq!(parse_priority("min"), Priority::Min);
    assert_eq!(parse_priority("default"), Priority::Default);
    assert_eq!(parse_priority("high"), Priority::High);
    assert_eq!(parse_priority("urgent"), Priority::Urgent);
    assert_eq!(parse_priority("garbage"), Priority::Default);
    assert_eq!(parse_priority(""), Priority::Default);
}

#[test]
fn min_only_fires_log_silent() {
    let mut s = RecordingSurfaces::new();
    dispatch(&msg("u1", "min"), &mut s);
    assert_eq!(s.log_silent_ulids(), vec!["u1".to_string()]);
    assert!(s.tray_and_badge_ulids().is_empty());
    assert!(s.status_strip_and_sound_ulids().is_empty());
    assert!(s.theater_wallpaper_phone_ulids().is_empty());
}

#[test]
fn default_only_fires_tray_and_badge() {
    let mut s = RecordingSurfaces::new();
    dispatch(&msg("u2", "default"), &mut s);
    assert!(s.log_silent_ulids().is_empty());
    assert_eq!(s.tray_and_badge_ulids(), vec!["u2".to_string()]);
    assert!(s.status_strip_and_sound_ulids().is_empty());
    assert!(s.theater_wallpaper_phone_ulids().is_empty());
}

#[test]
fn high_only_fires_status_strip() {
    let mut s = RecordingSurfaces::new();
    dispatch(&msg("u3", "high"), &mut s);
    assert!(s.log_silent_ulids().is_empty());
    assert!(s.tray_and_badge_ulids().is_empty());
    assert_eq!(s.status_strip_and_sound_ulids(), vec!["u3".to_string()]);
    assert!(s.theater_wallpaper_phone_ulids().is_empty());
}

#[test]
fn urgent_only_fires_theater_wallpaper_phone() {
    let mut s = RecordingSurfaces::new();
    dispatch(&msg("u4", "urgent"), &mut s);
    assert!(s.log_silent_ulids().is_empty());
    assert!(s.tray_and_badge_ulids().is_empty());
    assert!(s.status_strip_and_sound_ulids().is_empty());
    assert_eq!(s.theater_wallpaper_phone_ulids(), vec!["u4".to_string()]);
}

#[test]
fn dispatch_table_snapshot_in_call_order() {
    let mut s = RecordingSurfaces::new();
    dispatch(&msg("a", "min"), &mut s);
    dispatch(&msg("b", "default"), &mut s);
    dispatch(&msg("c", "high"), &mut s);
    dispatch(&msg("d", "urgent"), &mut s);
    dispatch(&msg("e", "default"), &mut s);
    assert_eq!(s.log_silent_ulids(), vec!["a"]);
    assert_eq!(s.tray_and_badge_ulids(), vec!["b", "e"]);
    assert_eq!(s.status_strip_and_sound_ulids(), vec!["c"]);
    assert_eq!(s.theater_wallpaper_phone_ulids(), vec!["d"]);
}

#[test]
fn unknown_priority_falls_back_to_default_surfaces() {
    let mut s = RecordingSurfaces::new();
    dispatch(&msg("u5", "garbage"), &mut s);
    assert_eq!(s.tray_and_badge_ulids(), vec!["u5".to_string()]);
    assert!(s.log_silent_ulids().is_empty());
}

// ─── audit ─────────────────────────────────────────────────────────────

#[test]
fn audit_dir_resolves_under_bus_root() {
    assert_eq!(audit_dir("/var/lib/mde/bus"), "/var/lib/mde/bus/audit");
}

#[test]
fn audit_dir_does_not_double_the_separator() {
    assert_eq!(audit_dir("/var/lib/mde/bus/"), "/var/lib/mde/bus/audit");
    assert_eq!(audit_dir(""), "audit");
}

// ── cli ─────────────────────────────────────────────────────────────────

#[test]
fn history_keeps_the_most_recent_count_rows() {
    let rows: Vec<u32> = (0..10).collect();
    assert_eq!(history_rows(rows.clone(), None), rows);
    assert_eq!(history_rows(rows.clone(), Some(3)), vec![7, 8, 9]);
    assert_eq!(history_rows(rows.clone(), Some(10)), rows);
    assert_eq!(history_rows(rows.clone(), Some(50)), rows);
    assert!(history_rows(rows, Some(0)).is_empty());
}

#[test]
fn audit_tail_zero_or_long_prints_everything() {
    assert_eq!(audit_tail_start(5, 0), 0);
    assert_eq!(audit_tail_start(5, 5), 0);
    assert_eq!(audit_tail_start(5, 9), 0);
    assert_eq!(audit_tail_start(5, 2), 3);
    assert_eq!(audit_tail_start(0, 0), 0);
}

#[test]
fn add_pattern_sorts_dedups_and_is_idempotent() {
    let mut list = vec!["gh/#".to_string(), "alert/x".to_string(), "alert/x".to_string()];
    assert!(add_pattern(&mut list, "fleet/+"));
    assert_eq!(list, vec!["alert/x", "fleet/+", "gh/#"]);
    assert!(!add_pattern(&mut list, "fleet/+"));
    assert_eq!(list, vec!["alert/x", "fleet/+", "gh/#"]);
}

#[test]
fn remove_pattern_drops_every_copy_and_reports_change() {
    let mut list = vec!["a".to_string(), "b".to_string(), "a".to_string(), "c".to_string()];
    assert!(remove_pattern(&mut list, "a"));
    assert_eq!(list, vec!["b", "c"]);
    assert!(!remove_pattern(&mut list, "zzz"));
    assert_eq!(list, vec!["b", "c"]);
}

#[test]
fn cli_types_carry_their_arguments() {
    let cli = Cli { cmd: Some(Cmd::History(HistoryArgs { topic: "t/x".into(), count: Some(3), ..Default::default() })) };
    match cli.cmd {
        Some(Cmd::History(a)) => {
            assert_eq!(a.topic, "t/x");
            assert_eq!(a.count, Some(3));
            assert!(a.since.is_none());
        }
        _ => panic!("wrong verb"),
    }
    let AuditOp::List { tail, .. } = (AuditOp::List { bus_root: None, tail: 4 });
    assert_eq!(tail, 4);
    assert!(matches!(SubOp::List { manifest: None, json: true }, SubOp::List { json: true, .. }));
    assert!(matches!(MuteOp::Remove { topic: "x".into(), manifest: None }, MuteOp::Remove { .. }));
    assert!(matches!(TopicOp::Match { pattern: "a/+".into() }, TopicOp::Match { .. }));
}

// ── persist: composition, divergence, tree walk ─────────────────────────

#[test]
fn topic_validation_rejects_bad_inputs() {
    for t in ["", "/leading", "trailing/", "../escape", "double//slash", "wild/+/card"] {
        assert!(matches!(
            compose_message(t, Priority::Default, None, None, "01HX", 0),
            Err(PersistError::BadTopic(_))
        ), "{t}");
    }
}

#[test]
fn compose_message_lays_out_the_file_path() {
    let m = compose_message("t/x", Priority::High, Some("T"), None, "01HXYZ", 42).unwrap();
    assert_eq!(m.file_path, "t/x/01HXYZ.json");
    assert_eq!(m.priority, "high");
    assert_eq!(m.title.as_deref(), Some("T"));
    assert!(m.body.is_none());
    assert_eq!(m.ts_unix_ms, 42);
}

#[test]
fn divergence_clean_when_index_matches_tree() {
    let paths: Vec<String> = vec!["t/x/1.json".into(), "t/x/2.json".into(), "t/x/3.json".into()];
    let mut disk = paths.clone();
    disk.reverse();
    let report = divergence(&paths, &disk);
    assert!(report.is_clean(), "expected clean: {report:?}");
}

#[test]
fn divergence_reports_both_directions_sorted() {
    let indexed: Vec<String> = vec!["t/b.json".into(), "t/a.json".into(), "t/gone.json".into()];
    let disk: Vec<String> = vec!["t/z.json".into(), "t/a.json".into(), "t/b.json".into(), "t/orphan.json".into()];
    let report = divergence(&indexed, &disk);
    assert_eq!(report.files_without_rows, vec!["t/orphan.json", "t/z.json"]);
    assert_eq!(report.rows_without_files, vec!["t/gone.json"]);
    assert!(!report.is_clean());
}

#[test]
fn tree_walk_skips_db_tmp_and_hidden_entries() {
    assert_eq!(classify_entry("index.sqlite", false, true), TreeEntry::Skip);
    assert_eq!(classify_entry("index.sqlite-wal", false, true), TreeEntry::Skip);
    assert_eq!(classify_entry("01H.json.tmp", false, true), TreeEntry::Skip);
    assert_eq!(classify_entry(".hidden", true, false), TreeEntry::Skip);
    assert_eq!(classify_entry("t", true, false), TreeEntry::Descend);
    assert_eq!(classify_entry("01H.json", false, true), TreeEntry::Collect);
    assert_eq!(classify_entry("notes.txt", false, true), TreeEntry::Skip);
}

// ── dnd watcher ─────────────────────────────────────────────────────────

#[test]
fn watcher_tick_reloads_on_mtime_advance() {
    let mut w = DndWatcher::new(DndState::default());
    assert_eq!(w.on_mtime(true, Some(1_000)), PollStep::Read);
    assert_eq!(w.on_content(Some(DndState::default())), DndTickOutcome::Unchanged);
    // Same modification time: idle.
    assert_eq!(w.on_mtime(true, Some(1_000)), PollStep::Idle);
    let flipped = DndState { active: true, since_unix_ms: 1_700_000_000_000, set_by_peer: "fedora".to_string() };
    assert_eq!(w.on_mtime(true, Some(2_200)), PollStep::Read);
    assert_eq!(w.on_content(Some(flipped.clone())), DndTickOutcome::Reloaded);
    assert_eq!(w.current, flipped);
}

#[test]
fn watcher_tick_file_missing() {
    let mut w = DndWatcher::new(DndState::default());
    assert_eq!(w.on_mtime(false, None), PollStep::FileMissing);
    assert!(w.last_mtime.is_none());
    assert_eq!(w.on_mtime(true, None), PollStep::Idle);
    assert_eq!(w.on_content(None), DndTickOutcome::ReadOrParseFailed);
    assert_eq!(w.current, DndState::default());
    let w = w.with_tick_interval(std::time::Duration::from_millis(10));
    assert_eq!(w.tick_interval, std::time::Duration::from_millis(10));
}

#[test]
fn filename_format_is_yyyy_mm_dd_jsonl() {
    assert_eq!(filename_for_ymd(2026, 5, 26), "2026-05-26.jsonl");
    assert_eq!(filename_for_ymd(987, 12, 1), "0987-12-01.jsonl");
    assert_eq!(filename_for_ymd(12345, 1, 9), "+12345-01-09.jsonl");
    assert_eq!(filename_for_ymd(-5, 1, 9), "-0005-01-09.jsonl");
}

#[test]
fn discovery_name_prefers_instance_then_hostname_then_kernel() {
    assert_eq!(hostname_for_discovery(Some(" test-1 "), Some("h"), Some("k")), "test-1");
    assert_eq!(hostname_for_discovery(Some("  "), Some("anvil\n"), Some("k")), "anvil");
    assert_eq!(hostname_for_discovery(None, None, Some("fedora\n")), "fedora");
    assert_eq!(hostname_for_discovery(None, Some(""), None), "mde-bus");
}
