use mde::workers::gluster::{quota_probe_due, volume_exists_from, GlusterWorker};
use mde::workers::supervisor::{after_run, AfterRun};
use mde::workers::notification_relay::SeenSet;
use mde::workers::derp::{installed_from_metadata, FileMeta};
use mde::workers::netassess::snapshot_kept;
use mde::workers::perf::{kernel_mode_from, parse_mtu, wireguard_loaded};
use mde::workers::auto_mark::{decide_mark, taxonomy_for_app_id, AutoMarkWorker};
use mde::workers::border_tinter::{client_focused_command, color_for_workspace, is_valid_hex_color, DEFAULT_FOCUSED_COLOR};
use mde::workers::tags::{find_owning_tag, Tag, TagMember, TagStore};
use mde::workers::tag_layout::layout_command_for_new_window;
use mde::workers::derp::parse_is_active;
use mde::workers::kdc_bridge::{device_diff, KdcBridgeWorker};
use mde::workers::nats::{control_url, render_server_config, DEFAULT_BUCKET};
use mde::workers::notification_relay::{seen_key, MirroredEntry};
use mde::workers::perf::{parse_gso_state, parse_loaded_modules};
use mde::workers::supervisor::RestartPolicy;
use mde::workers::surrounding::SurroundingWorker;
use mde::workers::tag_layout::{is_recognised_layout, layout_command};
use mde::workers::thumbnailer::{handles_path, nearest_supported_size, render_outcome, supports_size, RenderOutcome, DEFAULT_SIZE};
use mde::workers::workspace_router::{move_workspace_command, preferred_output_for_workspace};

// ─── thumbnailer ───────────────────────────────────────────────────────

#[test]
fn handles_path_recognizes_md_extension() {
    assert!(handles_path("/tmp/notif.md"));
    assert!(handles_path("a.MD"));
    assert!(handles_path("/path/notif.Md"));
}

#[test]
fn handles_path_rejects_other_extensions() {
    assert!(!handles_path("/tmp/photo.jpg"));
    assert!(!handles_path("doc.pdf"));
    assert!(!handles_path("no-extension"));
    assert!(!handles_path("dotfile."));
}

#[test]
fn supports_size_matches_thumbnailer_declared_sizes() {
    for s in [128u32, 256, 512] {
        assert!(supports_size(s));
    }
    assert!(!supports_size(64));
    assert!(!supports_size(96));
    assert!(!supports_size(1024));
}

#[test]
fn nearest_supported_size_rounds_down() {
    assert_eq!(nearest_supported_size(128), 128);
    assert_eq!(nearest_supported_size(200), 128);
    assert_eq!(nearest_supported_size(256), 256);
    assert_eq!(nearest_supported_size(400), 256);
    assert_eq!(nearest_supported_size(512), 512);
    assert_eq!(nearest_supported_size(99999), 512);
    assert_eq!(nearest_supported_size(50), 128);
    assert_eq!(nearest_supported_size(0), 128);
}

#[test]
fn default_size_is_256() {
    assert_eq!(DEFAULT_SIZE, 256);
}

// ─── perf ──────────────────────────────────────────────────────────────

#[test]
fn parse_gso_state_reads_on() {
    let out = "\
Features for tailscale0:
generic-segmentation-offload: on
tcp-segmentation-offload: off
        ";
    assert_eq!(parse_gso_state(out), Some(true));
}

#[test]
fn parse_gso_state_reads_off() {
    assert_eq!(parse_gso_state("generic-segmentation-offload: off\n"), Some(false));
}

#[test]
fn parse_gso_state_returns_none_when_absent() {
    assert_eq!(parse_gso_state("tcp-segmentation-offload: on\n"), None);
}

#[test]
fn parse_gso_state_returns_none_for_unknown_value() {
    assert_eq!(parse_gso_state("generic-segmentation-offload: maybe\n"), None);
}

#[test]
fn parse_gso_state_first_line_decides() {
    let out = "generic-segmentation-offload: off [fixed]\ngeneric-segmentation-offload: on\n";
    assert_eq!(parse_gso_state(out), None);
}

#[test]
fn parse_loaded_modules_picks_first_column() {
    let proc = "\
wireguard 86016 0 - Live 0x0000000000000000
udp_tunnel 24576 1 wireguard, Live 0x0000000000000000

";
    let mods = parse_loaded_modules(proc);
    assert!(mods.contains(&"wireguard".to_string()));
    assert!(mods.contains(&"udp_tunnel".to_string()));
    assert!(!mods.iter().any(String::is_empty));
    assert_eq!(mods, vec!["wireguard", "udp_tunnel"]);
}

#[test]
fn parse_loaded_modules_empty_input_returns_empty() {
    assert!(parse_loaded_modules("").is_empty());
}

// ─── nats ──────────────────────────────────────────────────────────────

#[test]
fn render_server_config_carries_control_ip() {
    let cfg = render_server_config("10.0.0.5");
    assert!(cfg.contains("host: \"10.0.0.5\""));
    assert!(cfg.contains("port: 4222"));
    assert!(cfg.contains("http_port: 8222"));
    assert!(cfg.contains("jetstream"));
    assert!(cfg.contains("store_dir"));
}

#[test]
fn render_server_config_uses_jetstream_block() {
    let cfg = render_server_config("127.0.0.1");
    assert!(cfg.contains("max_mem"));
    assert!(cfg.contains("max_file"));
}

#[test]
fn render_server_config_exact_text() {
    assert_eq!(
        render_server_config("1.2.3.4"),
        "# Mackes NATS server (Phase B.11 port). Bind control IP\n# set by the install flow.\nhost: \"1.2.3.4\"\nport: 4222\nhttp_port: 8222\njetstream {\n    store_dir: \"/var/lib/mackes-nats/jetstream\"\n    max_mem: 64MB\n    max_file: 512MB\n}\n"
    );
}

#[test]
fn control_url_renders_loopback() {
    assert_eq!(control_url("127.0.0.1"), "nats://127.0.0.1:4222");
}

#[test]
fn control_url_handles_hostname() {
    assert_eq!(control_url("nats.example.com"), "nats://nats.example.com:4222");
}

#[test]
fn default_bucket_is_mackes_events() {
    assert_eq!(DEFAULT_BUCKET, "mackes-events");
}

// ─── derp ──────────────────────────────────────────────────────────────

#[test]
fn parse_is_active_matches_only_literal_active() {
    assert!(parse_is_active("active\n", 0));
    assert!(parse_is_active("  active  ", 0));
    assert!(!parse_is_active("active", 1));
    assert!(!parse_is_active("inactive\n", 0));
    assert!(!parse_is_active("failed\n", 0));
    assert!(!parse_is_active("activating\n", 0));
    assert!(!parse_is_active("", 0));
}

// ─── kdc_bridge ────────────────────────────────────────────────────────

#[test]
fn device_diff_returns_empty_when_unchanged() {
    let a = vec!["uuid-1".to_owned(), "uuid-2".to_owned()];
    let b = a.clone();
    assert!(device_diff(&a, &b).is_empty());
}

#[test]
fn device_diff_reports_added() {
    let prior = vec!["uuid-1".to_owned()];
    let current = vec!["uuid-1".to_owned(), "uuid-2".to_owned()];
    let diff = device_diff(&prior, &current);
    assert_eq!(diff.len(), 1);
    assert_eq!(diff[0], ("uuid-2".to_owned(), "added"));
}

#[test]
fn device_diff_reports_removed() {
    let prior = vec!["uuid-1".to_owned(), "uuid-2".to_owned()];
    let current = vec!["uuid-1".to_owned()];
    let diff = device_diff(&prior, &current);
    assert_eq!(diff.len(), 1);
    assert_eq!(diff[0], ("uuid-2".to_owned(), "removed"));
}

#[test]
fn device_diff_reports_both_added_and_removed() {
    let prior = vec!["uuid-old".to_owned()];
    let current = vec!["uuid-new".to_owned()];
    let diff = device_diff(&prior, &current);
    assert_eq!(diff.len(), 2);
    assert!(diff.iter().any(|(id, op)| id == "uuid-new" && *op == "added"));
    assert!(diff.iter().any(|(id, op)| id == "uuid-old" && *op == "removed"));
}

#[test]
fn device_diff_keeps_list_order_and_dedupes_each_kind() {
    let prior = vec!["z".to_owned(), "m".to_owned(), "z".to_owned(), "keep".to_owned()];
    let current = vec!["keep".to_owned(), "c".to_owned(), "a".to_owned(), "c".to_owned()];
    let diff = device_diff(&prior, &current);
    assert_eq!(
        diff,
        vec![
            ("c".to_owned(), "added"),
            ("a".to_owned(), "added"),
            ("z".to_owned(), "removed"),
            ("m".to_owned(), "removed"),
        ]
    );
}

#[test]
fn kdc_bridge_remembers_only_changed_snapshots() {
    let mut w = KdcBridgeWorker::with_last_seen(vec!["a".to_owned()]);
    assert!(w.observe(vec!["a".to_owned(), "a".to_owned()]).is_empty());
    assert_eq!(w.last_seen, vec!["a".to_owned()]);
    let d = w.observe(vec!["b".to_owned()]);
    assert_eq!(d, vec![("b".to_owned(), "added"), ("a".to_owned(), "removed")]);
    assert_eq!(w.last_seen, vec!["b".to_owned()]);
}

// ─── auto_mark ─────────────────────────────────────────────────────────

#[test]
fn taxonomy_table_matches_canonical_app_ids() {
    assert_eq!(taxonomy_for_app_id("firefox"), Some("web"));
    assert_eq!(taxonomy_for_app_id("helix"), Some("editor"));
    assert_eq!(taxonomy_for_app_id("foot"), Some("shell"));
    assert_eq!(taxonomy_for_app_id("thunderbird"), Some("mail"));
    assert_eq!(taxonomy_for_app_id("discord"), Some("chat"));
}

#[test]
fn taxonomy_table_covers_all_buckets() {
    for app in ["helix", "code", "vim", "emacs", "nvim", "kakoune"] {
        assert_eq!(taxonomy_for_app_id(app), Some("editor"), "{app}");
    }
    for app in ["firefox", "chromium", "librewolf", "qutebrowser", "brave"] {
        assert_eq!(taxonomy_for_app_id(app), Some("web"), "{app}");
    }
    for app in ["foot", "alacritty", "kitty", "wezterm", "ghostty"] {
        assert_eq!(taxonomy_for_app_id(app), Some("shell"), "{app}");
    }
    for app in ["thunderbird", "geary", "evolution", "mutt"] {
        assert_eq!(taxonomy_for_app_id(app), Some("mail"), "{app}");
    }
    for app in ["discord", "element-desktop", "signal-desktop", "telegram-desktop", "slack"] {
        assert_eq!(taxonomy_for_app_id(app), Some("chat"), "{app}");
    }
}

#[test]
fn unknown_app_ids_are_passthrough() {
    assert_eq!(taxonomy_for_app_id("unknown-app"), None);
    assert_eq!(taxonomy_for_app_id("org.mozilla.Firefox"), None);
    assert_eq!(taxonomy_for_app_id("FIREFOX"), None);
    assert_eq!(taxonomy_for_app_id(""), None);
}

#[test]
fn existing_marks_block_auto_mark() {
    let existing = vec!["work".to_string()];
    assert_eq!(decide_mark(Some("firefox"), &existing), None);
}

#[test]
fn empty_marks_with_matching_taxonomy_applies() {
    let no_marks: Vec<String> = Vec::new();
    assert_eq!(decide_mark(Some("firefox"), &no_marks), Some("web"));
    assert_eq!(decide_mark(Some("foot"), &no_marks), Some("shell"));
}

#[test]
fn empty_or_missing_app_id_skips() {
    let no_marks: Vec<String> = Vec::new();
    assert_eq!(decide_mark(None, &no_marks), None);
    assert_eq!(decide_mark(Some(""), &no_marks), None);
}

#[test]
fn unknown_app_with_empty_marks_skips() {
    let no_marks: Vec<String> = Vec::new();
    assert_eq!(decide_mark(Some("custom-app"), &no_marks), None);
    let _ = AutoMarkWorker::new();
}

// ─── border_tinter ─────────────────────────────────────────────────────

#[test]
fn hex_color_validator_locks_recognised_forms() {
    assert!(is_valid_hex_color("#f00"));
    assert!(is_valid_hex_color("#f00f"));
    assert!(is_valid_hex_color("#42be65"));
    assert!(is_valid_hex_color("#42be65ff"));
    assert!(is_valid_hex_color("#FFFFFF"));
    assert!(!is_valid_hex_color("42be65"));
    assert!(!is_valid_hex_color("#42be6"));
    assert!(!is_valid_hex_color("#42"));
    assert!(!is_valid_hex_color("#1234567"));
    assert!(!is_valid_hex_color("#x42"));
    assert!(!is_valid_hex_color(""));
    assert!(!is_valid_hex_color("#"));
    assert!(!is_valid_hex_color("rebeccapurple"));
}

#[test]
fn client_focused_command_matches_r12_q21_shape() {
    assert_eq!(client_focused_command("#42be65"), "client.focused #42be65 #42be65 #f4f4f4 #42be65 #42be65");
    assert_eq!(
        client_focused_command(DEFAULT_FOCUSED_COLOR),
        "client.focused #2b9af3 #2b9af3 #f4f4f4 #2b9af3 #2b9af3"
    );
}

// ─── tag_layout ────────────────────────────────────────────────────────

#[test]
fn recognised_layouts_lock_the_four_names() {
    assert!(is_recognised_layout("splith"));
    assert!(is_recognised_layout("splitv"));
    assert!(is_recognised_layout("tabbed"));
    assert!(is_recognised_layout("stacked"));
    assert!(!is_recognised_layout("Splith"));
    assert!(!is_recognised_layout("splith "));
    assert!(!is_recognised_layout(""));
    assert!(!is_recognised_layout("output"));
}

#[test]
fn layout_command_round_trips() {
    assert_eq!(layout_command("splith"), "layout splith");
    assert_eq!(layout_command("tabbed"), "layout tabbed");
    assert_eq!(layout_command("garbage"), "layout garbage");
}

// ─── workspace_router ──────────────────────────────────────────────────

#[test]
fn move_workspace_command_escapes_quotes_and_backslashes() {
    assert_eq!(
        move_workspace_command(1, "HDMI-A-1"),
        r#"workspace number 1; move workspace to output "HDMI-A-1""#
    );
    assert_eq!(
        move_workspace_command(7, r#"weird"name"#),
        r#"workspace number 7; move workspace to output "weird\"name""#
    );
    assert_eq!(
        move_workspace_command(3, r"back\slash"),
        r#"workspace number 3; move workspace to output "back\\slash""#
    );
}

#[test]
fn move_workspace_command_negative_number() {
    assert_eq!(move_workspace_command(-2, "x"), r#"workspace number -2; move workspace to output "x""#);
}

// ─── notification_relay ────────────────────────────────────────────────

#[test]
fn seen_key_pairs_peer_with_source_id() {
    let entry = MirroredEntry { source_id: 99, app: "x".into(), title: "t".into(), body: "".into(), urgency: 1 };
    assert_eq!(seen_key("peer:anvil", &entry), ("peer:anvil".into(), 99));
}

// ─── surrounding ───────────────────────────────────────────────────────

#[test]
fn worker_name_and_host_dir() {
    let w = SurroundingWorker::new("alice".into(), "/base".into());
    assert_eq!(w.name(), "surrounding_hosts");
    assert_eq!(w.host_dir(), "/base/alice");
}

#[test]
fn with_tick_overrides_cadence() {
    let w = SurroundingWorker::new("h".into(), "/b".into()).with_tick(std::time::Duration::from_secs(5));
    assert_eq!(w.tick, std::time::Duration::from_secs(5));
    assert_eq!(SurroundingWorker::new("h".into(), "/b/".into()).host_dir(), "/b/h");
}

// ─── supervisor ────────────────────────────────────────────────────────

#[test]
fn restart_policy_match_completeness() {
    for p in [RestartPolicy::Never, RestartPolicy::OnFailure, RestartPolicy::Always] {
        match p {
            RestartPolicy::Never | RestartPolicy::OnFailure | RestartPolicy::Always => {}
        }
    }
}

#[test]
fn restart_policy_decisions() {
    assert!(!RestartPolicy::Never.restarts(true));
    assert!(!RestartPolicy::Never.restarts(false));
    assert!(RestartPolicy::OnFailure.restarts(true));
    assert!(!RestartPolicy::OnFailure.restarts(false));
    assert!(RestartPolicy::Always.restarts(false));
}

// ─── tag store lookups ─────────────────────────────────────────────────

fn dev_tag_on_hdmi(ws_nums: &[i32]) -> Tag {
    Tag {
        name: "Dev".to_string(),
        members: ws_nums.iter().map(|&num| TagMember::Workspace { num }).collect(),
        group_color: None,
        preferred_output: Some("HDMI-A-1".to_string()),
        default_layout: None,
    }
}

fn dev_tag_with_color(ws_num: i32, color: Option<&str>) -> Tag {
    Tag {
        name: "Dev".to_string(),
        members: vec![TagMember::Workspace { num: ws_num }],
        group_color: color.map(String::from),
        preferred_output: None,
        default_layout: None,
    }
}

#[test]
fn empty_store_returns_no_preferred_output() {
    let store = TagStore::default();
    assert!(preferred_output_for_workspace(&store, 1).is_none());
}

#[test]
fn untagged_workspace_returns_no_preferred_output() {
    let mut store = TagStore::default();
    store.tags.push(dev_tag_on_hdmi(&[2, 3]));
    assert!(preferred_output_for_workspace(&store, 1).is_none());
}

#[test]
fn owning_tag_without_preferred_output_returns_none() {
    let mut store = TagStore::default();
    let mut t = dev_tag_on_hdmi(&[1]);
    t.preferred_output = None;
    store.tags.push(t);
    assert!(preferred_output_for_workspace(&store, 1).is_none());
}

#[test]
fn owning_tag_with_preferred_output_returns_target() {
    let mut store = TagStore::default();
    store.tags.push(dev_tag_on_hdmi(&[1, 2]));
    assert_eq!(preferred_output_for_workspace(&store, 1).as_deref(), Some("HDMI-A-1"));
    assert_eq!(preferred_output_for_workspace(&store, 2).as_deref(), Some("HDMI-A-1"));
}

#[test]
fn first_owning_tag_wins_on_conflict() {
    let mut store = TagStore::default();
    store.tags.push(dev_tag_on_hdmi(&[1]));
    let mut second = dev_tag_on_hdmi(&[1]);
    second.name = "Personal".to_string();
    second.preferred_output = Some("DP-2".to_string());
    store.tags.push(second);
    assert_eq!(preferred_output_for_workspace(&store, 1).as_deref(), Some("HDMI-A-1"));
    assert_eq!(find_owning_tag(&store, 1).unwrap().name, "Dev");
}

#[test]
fn non_workspace_members_dont_match() {
    let mut store = TagStore::default();
    store.tags.push(Tag {
        name: "Apps".to_string(),
        members: vec![
            TagMember::App { app_id: "firefox".to_string() },
            TagMember::Peer { hostname: "fedora".to_string() },
        ],
        group_color: None,
        preferred_output: Some("HDMI-A-1".to_string()),
        default_layout: None,
    });
    assert!(preferred_output_for_workspace(&store, 1).is_none());
}

#[test]
fn untagged_workspace_returns_default_carbon_blue() {
    let store = TagStore::default();
    assert_eq!(color_for_workspace(&store, 1), DEFAULT_FOCUSED_COLOR);
}

#[test]
fn tagged_workspace_returns_tag_color() {
    let mut store = TagStore::default();
    store.tags.push(dev_tag_with_color(1, Some("#42be65")));
    assert_eq!(color_for_workspace(&store, 1), "#42be65");
}

#[test]
fn owning_tag_without_color_falls_back_to_default() {
    let mut store = TagStore::default();
    store.tags.push(dev_tag_with_color(1, None));
    assert_eq!(color_for_workspace(&store, 1), DEFAULT_FOCUSED_COLOR);
}

#[test]
fn malformed_color_falls_back_to_default() {
    let mut store = TagStore::default();
    store.tags.push(dev_tag_with_color(1, Some("rebeccapurple")));
    assert_eq!(color_for_workspace(&store, 1), DEFAULT_FOCUSED_COLOR);

    let mut store2 = TagStore::default();
    store2.tags.push(dev_tag_with_color(1, Some("#xyz")));
    assert_eq!(color_for_workspace(&store2, 1), DEFAULT_FOCUSED_COLOR);
}

#[test]
fn tag_color_spans_every_owned_workspace() {
    let mut store = TagStore::default();
    store.tags.push(Tag {
        name: "Dev".to_string(),
        members: vec![
            TagMember::Workspace { num: 1 },
            TagMember::Workspace { num: 2 },
            TagMember::Workspace { num: 3 },
        ],
        group_color: Some("#33b1ff".to_string()),
        preferred_output: None,
        default_layout: None,
    });
    for ws in 1..=3 {
        assert_eq!(color_for_workspace(&store, ws), "#33b1ff");
    }
    assert_eq!(color_for_workspace(&store, 4), DEFAULT_FOCUSED_COLOR);
}

#[test]
fn tag_layout_applies_only_on_first_window_when_different() {
    let mut store = TagStore::default();
    let mut t = dev_tag_on_hdmi(&[5]);
    t.default_layout = Some("tabbed".to_string());
    store.tags.push(t);
    assert_eq!(layout_command_for_new_window(&store, 5, 1, "splith").as_deref(), Some("layout tabbed"));
    assert!(layout_command_for_new_window(&store, 5, 2, "splith").is_none());
    assert!(layout_command_for_new_window(&store, 5, 1, "tabbed").is_none());
    assert!(layout_command_for_new_window(&store, 6, 1, "splith").is_none());
    let mut bad = TagStore::default();
    let mut t = dev_tag_on_hdmi(&[5]);
    t.default_layout = Some("grid".to_string());
    bad.tags.push(t);
    assert!(layout_command_for_new_window(&bad, 5, 1, "splith").is_none());
}

#[test]
fn install_check_needs_a_regular_owner_executable_file() {
    assert!(!installed_from_metadata(None));
    assert!(!installed_from_metadata(Some(FileMeta { is_file: false, mode: 0o755 })));
    assert!(!installed_from_metadata(Some(FileMeta { is_file: true, mode: 0o644 })));
    assert!(installed_from_metadata(Some(FileMeta { is_file: true, mode: 0o100755 })));
    assert!(installed_from_metadata(Some(FileMeta { is_file: true, mode: 0o100 })));
}

#[test]
fn retention_keeps_unreadable_and_recent_snapshots() {
    assert!(snapshot_kept(None, 100));
    assert!(snapshot_kept(Some(100), 100));
    assert!(snapshot_kept(Some(150), 100));
    assert!(!snapshot_kept(Some(99), 100));
}

#[test]
fn wireguard_module_and_mtu_readers() {
    let modules = "nf_tables 1 0 - Live 0x0\nwireguard 98304 0 - Live 0x0\n";
    assert!(wireguard_loaded(modules));
    assert!(!wireguard_loaded("nf_tables 1 0 - Live\nwireguardx 1 0\n"));
    assert!(kernel_mode_from(true, false, ""));
    assert!(kernel_mode_from(false, true, "/lib/modules/wireguard.ko\n"));
    assert!(!kernel_mode_from(false, true, "  \n"));
    assert!(!kernel_mode_from(false, false, "/x"));
    assert_eq!(parse_mtu("1420\n"), Some(1420));
    assert_eq!(parse_mtu("garbage"), None);
    assert_eq!(parse_mtu(""), None);
}

#[test]
fn gluster_bootstrap_only_when_volume_known_missing() {
    let w = GlusterWorker::new().with_brick_path("/b".to_string()).with_gluster_binary("gl".to_string());
    assert!(w.bootstrap_step(false, Some("10.0.0.1"), Some(false)).is_none());
    assert!(w.bootstrap_step(true, None, Some(false)).is_none());
    assert!(w.bootstrap_step(true, Some("10.0.0.1"), Some(true)).is_none());
    assert!(w.bootstrap_step(true, Some("10.0.0.1"), None).is_none());
    assert_eq!(
        w.bootstrap_step(true, Some(" 10.0.0.1\n"), Some(false)).unwrap(),
        vec!["gl", "volume", "create", "mesh-home", "replica", "1", "transport", "tcp", "10.0.0.1:/b", "force"]
    );
    assert_eq!(GlusterWorker::new().tick, std::time::Duration::from_secs(5));
}

#[test]
fn gluster_volume_probe_and_quota_cadence() {
    assert_eq!(volume_exists_from(true, ""), Some(true));
    assert_eq!(volume_exists_from(false, "Volume mesh-home does not exist\n"), Some(false));
    assert_eq!(volume_exists_from(false, "Connection failed"), None);
    assert!(quota_probe_due(None));
    assert!(!quota_probe_due(Some(3599)));
    assert!(quota_probe_due(Some(3600)));
}

#[test]
fn supervisor_restarts_per_policy_unless_shutting_down() {
    assert_eq!(after_run(RestartPolicy::Never, true, false), AfterRun::Stop);
    assert_eq!(after_run(RestartPolicy::OnFailure, true, false), AfterRun::Restart);
    assert_eq!(after_run(RestartPolicy::OnFailure, false, false), AfterRun::Stop);
    assert_eq!(after_run(RestartPolicy::Always, false, false), AfterRun::Restart);
    assert_eq!(after_run(RestartPolicy::Always, false, true), AfterRun::Stop);
}

fn mirrored(id: i64) -> MirroredEntry {
    MirroredEntry { source_id: id, app: "a".into(), title: "t".into(), body: "b".into(), urgency: 1 }
}

#[test]
fn relay_imports_each_notification_once() {
    let mut seen = SeenSet::default();
    let found = vec![("pine".to_string(), mirrored(1)), ("oak".to_string(), mirrored(1)), ("pine".to_string(), mirrored(2))];
    let fresh = seen.fresh(found.clone());
    assert_eq!(fresh.len(), 3);
    seen.mark(&fresh);
    assert!(seen.contains("pine", 1) && seen.contains("oak", 1) && seen.contains("pine", 2));
    assert!(!seen.contains("oak", 2));
    assert!(seen.fresh(found).is_empty());
    let next = seen.fresh(vec![("oak".to_string(), mirrored(2)), ("pine".to_string(), mirrored(1))]);
    assert_eq!(next.len(), 1);
    assert_eq!(next[0].0, "oak");
}

#[test]
fn worker_name_is_stable() {
    let w = GlusterWorker::new();
    assert_eq!(w.name(), "gluster_worker");
}

#[test]
fn tick_once_no_ops_when_gluster_binary_absent() {
    let w = GlusterWorker::new().with_gluster_binary("/nonexistent/gluster-bin-xyz".to_string());
    // The CLI is not on PATH: the sweep does nothing, and does so again.
    assert_eq!(w.bootstrap_step(false, Some("10.42.0.5"), Some(false)), None);
    assert_eq!(w.bootstrap_step(false, Some("10.42.0.5"), Some(false)), None);
}

#[test]
fn tick_once_skips_bootstrap_when_overlay_ip_file_missing() {
    let w = GlusterWorker::new().with_gluster_binary("/bin/true".to_string());
    assert_eq!(w.bootstrap_step(true, None, Some(false)), None);
}

#[test]
fn quota_probe_due_fires_on_first_call_then_rate_limits() {
    // First call always fires.
    assert!(quota_probe_due(None));
    // Immediately after, the hourly gate holds.
    assert!(!quota_probe_due(Some(0)));
}

#[test]
fn render_returns_unsupported_for_non_md_source() {
    let outcome = mde::workers::thumbnailer::render_plan("/tmp/photo.jpg", "/tmp/photo.thumb.png", 256);
    assert_eq!(outcome, Err(mde::workers::thumbnailer::RenderOutcome::Unsupported));
}

#[test]
fn render_plan_runs_the_renderer_module_for_markdown() {
    let argv = mde::workers::thumbnailer::render_plan("/tmp/n.MD", "/tmp/n.png", 128).unwrap();
    assert_eq!(argv, vec!["-m", "mackes.mesh_thumbnailer", "--size", "128", "/tmp/n.MD", "/tmp/n.png"]);
}

#[test]
fn render_outcome_maps_exit_status() {
    assert_eq!(render_outcome(true, Some(0)), RenderOutcome::Succeeded);
    assert_eq!(render_outcome(false, Some(3)), RenderOutcome::Failed(3));
    assert_eq!(render_outcome(false, None), RenderOutcome::Failed(-1));
}

#[test]
fn handles_extension_is_markdown_in_any_case() {
    assert!(mde::workers::thumbnailer::handles_extension(Some("mD")));
    assert!(!mde::workers::thumbnailer::handles_extension(Some("txt")));
    assert!(!mde::workers::thumbnailer::handles_extension(None));
}
