use mde::applets::api::{discover, ingest_dir, validate_manifest, AppletId, AppletManifest, AppletSlot, AppletState, HostMessage, SYSTEM_DIR};
use mde::applets::app_switcher::{self, WindowRow};
use mde::applets::audio::{self, AudioState};
use mde::applets::brightness_osd;
use mde::applets::clock;
use mde::applets::dock::{self, DockWindow, PinnedApp};
use mde::applets::mesh_status::{self, HealthReport, NebulaStatusSnapshot, NebulaTransportColor};
use mde::applets::network::{self, ActiveConnection, RECONNECT_TOAST_SECONDS};
use mde::applets::status_cluster::{self, BatteryState};
use mde::applets::volume_osd;

fn m(id: &'static str, binary: &str, version: &str) -> AppletManifest {
    AppletManifest {
        id: AppletId::from_static(id),
        binary: binary.into(),
        slot: AppletSlot::TopBarCenter,
        summary: "x".into(),
        version: version.into(),
    }
}

// ── applet-api ──────────────────────────────────────────────────────────

#[test]
fn system_dir_lock() {
    assert_eq!(SYSTEM_DIR, "/usr/share/mde/applets");
}

#[test]
fn validate_manifest_rejects_empty_binary() {
    assert!(validate_manifest(&m("clock", "", "1")).is_err());
}

#[test]
fn validate_manifest_rejects_path_traversal_in_binary() {
    assert!(validate_manifest(&m("clock", "../bin/evil", "1")).is_err());
}

#[test]
fn validate_manifest_accepts_well_formed() {
    assert!(validate_manifest(&m("clock", "mde-applet-clock", "1.0")).is_ok());
}

#[test]
fn validate_manifest_rejects_empty_version() {
    assert!(validate_manifest(&m("clock", "mde-applet-clock", "")).is_err());
}

#[test]
fn validate_manifest_reports_the_first_failed_rule() {
    assert_eq!(validate_manifest(&m("Bad", "", "")), Err("applet id may only contain lowercase ASCII, digits, and `-`"));
    assert_eq!(validate_manifest(&m("ok", "a b", "")), Err("manifest `binary` must be a bare PATH name (no slashes / whitespace)"));
    assert_eq!(validate_manifest(&m("ok", "a", "")), Err("manifest `version` cannot be empty"));
}

#[test]
fn applet_id_parse_accepts_canonical_form() {
    assert!(AppletId::parse("clock").is_ok());
    assert!(AppletId::parse("notification-bell").is_ok());
    assert!(AppletId::parse("mesh-status-v2").is_ok());
    assert_eq!(AppletId::parse("clock").unwrap().as_str(), "clock");
}

#[test]
fn applet_id_parse_rejects_invalid_inputs() {
    assert!(AppletId::parse("").is_err());
    assert!(AppletId::parse("Clock").is_err());
    assert!(AppletId::parse("with space").is_err());
    assert!(AppletId::parse("under_score").is_err());
    assert!(AppletId::parse(&"x".repeat(65)).is_err());
}

#[test]
fn applet_id_parse_error_messages() {
    assert_eq!(AppletId::parse("").unwrap_err(), "applet id cannot be empty");
    assert_eq!(AppletId::parse(&"x".repeat(65)).unwrap_err(), "applet id must be ≤ 64 characters");
    assert!(AppletId::parse(&"x".repeat(64)).is_ok());
}

#[test]
fn slot_as_str_matches_kebab_case_rename() {
    assert_eq!(AppletSlot::TopBarLeft.as_str(), "top-bar-left");
    assert_eq!(AppletSlot::TopBarCenter.as_str(), "top-bar-center");
    assert_eq!(AppletSlot::TopBarRight.as_str(), "top-bar-right");
    assert_eq!(AppletSlot::Dock.as_str(), "dock");
    assert_eq!(AppletSlot::Overlay.as_str(), "overlay");
}

#[test]
fn applet_state_active_with_accent_is_active() {
    let s = AppletState::active_with_accent("#6366f1");
    assert!(s.active);
    assert_eq!(s.accent, "#6366f1");
}

// ── manifests and host messages (every applet) ──────────────────────────

#[test]
fn manifest_lands_in_overlay_slot() {
    let m = app_switcher::manifest();
    assert_eq!(m.id.as_str(), "app-switcher");
    assert_eq!(m.slot, AppletSlot::Overlay);
    let m = brightness_osd::manifest();
    assert_eq!(m.id.as_str(), "brightness-osd");
    assert_eq!(m.slot, AppletSlot::Overlay);
}

#[test]
fn lib_manifest_lands_in_overlay_slot() {
    let m = volume_osd::manifest();
    assert_eq!(m.id.as_str(), "volume-osd");
    assert_eq!(m.slot, AppletSlot::Overlay);
}

#[test]
fn manifest_lands_in_top_bar_right() {
    let m = audio::manifest();
    assert_eq!(m.id.as_str(), "audio");
    assert_eq!(m.slot, AppletSlot::TopBarRight);
}

#[test]
fn manifest_lands_in_top_bar_right_slot() {
    let m = mesh_status::manifest();
    assert_eq!(m.id.as_str(), "mesh-status");
    assert_eq!(m.slot, AppletSlot::TopBarRight);
    let m = network::manifest();
    assert_eq!(m.id.as_str(), "network");
    assert_eq!(m.slot, AppletSlot::TopBarRight);
}

#[test]
fn lib_manifest_lands_in_top_bar_right_slot() {
    let m = status_cluster::manifest();
    assert_eq!(m.id.as_str(), "status-cluster");
    assert_eq!(m.slot, AppletSlot::TopBarRight);
}

#[test]
fn manifest_lands_in_top_bar_center_slot() {
    let m = clock::manifest();
    assert_eq!(m.id.as_str(), "clock");
    assert_eq!(m.slot, AppletSlot::TopBarCenter);
    assert_eq!(m.binary, "mde-applet-clock");
    assert!(!m.summary.is_empty());
}

#[test]
fn manifest_lands_in_dock_slot() {
    let m = dock::manifest();
    assert_eq!(m.id.as_str(), "dock");
    assert_eq!(m.slot, AppletSlot::Dock);
}

#[test]
fn handle_host_short_circuits_shutdown() {
    assert!(!audio::handle_host(&HostMessage::Shutdown));
    assert!(!clock::handle_host(&HostMessage::Shutdown));
    assert!(clock::handle_host(&HostMessage::Accent { color: "#000".into() }));
    assert!(clock::handle_host(&HostMessage::Visibility { active: true }));
    assert!(!mesh_status::handle_host(&HostMessage::Shutdown));
    assert!(mesh_status::handle_host(&HostMessage::Visibility { active: true }));
    assert!(!network::handle_host(&HostMessage::Shutdown));
    assert!(!status_cluster::handle_host(&HostMessage::Shutdown));
}

#[test]
fn lib_handle_host_short_circuits_shutdown() {
    assert!(!app_switcher::handle_host(&HostMessage::Shutdown));
    assert!(!brightness_osd::handle_host(&HostMessage::Shutdown));
    assert!(!volume_osd::handle_host(&HostMessage::Shutdown));
    assert!(!dock::handle_host(&HostMessage::Shutdown));
    assert!(dock::handle_host(&HostMessage::Accent { color: "#fff".into() }));
}

// ── audio ───────────────────────────────────────────────────────────────

#[test]
fn parse_volume_averages_per_channel() {
    let raw = "Volume: front-left: 48563 /  50% / -7.55 dB,   front-right: 48563 /  70% / -7.55 dB\n        balance 0.00\n";
    assert_eq!(audio::parse_volume(raw), 60);
}

#[test]
fn parse_volume_single_channel() {
    assert_eq!(audio::parse_volume("Volume: mono: 65536 / 100% / 0.00 dB\n"), 100);
}

#[test]
fn parse_volume_returns_zero_on_garbage() {
    assert_eq!(audio::parse_volume("not a pa output"), 0);
    assert_eq!(audio::parse_volume(""), 0);
}

#[test]
fn parse_volume_rounds_the_average_down() {
    assert_eq!(audio::parse_volume("a / 50% / b, c / 51% / d"), 50);
    assert_eq!(audio::parse_volume("+7%"), 7);
}

#[test]
fn parse_mute_yes_no_case_insensitive() {
    assert!(audio::parse_mute("Mute: yes"));
    assert!(audio::parse_mute("Mute: YES"));
    assert!(audio::parse_mute("Mute: True\n"));
    assert!(!audio::parse_mute("Mute: no"));
    assert!(!audio::parse_mute(""));
}

#[test]
fn audio_glyph_muted_wins_over_volume() {
    assert_eq!(audio::audio_glyph(AudioState { volume_pct: 80, muted: true }), "\u{00D7}");
}

#[test]
fn audio_glyph_tier_thresholds() {
    assert_eq!(audio::audio_glyph(AudioState { volume_pct: 0, muted: false }), "\u{266A}");
    assert_eq!(audio::audio_glyph(AudioState { volume_pct: 30, muted: false }), "\u{266A}");
    assert_eq!(audio::audio_glyph(AudioState { volume_pct: 80, muted: false }), "\u{266B}");
}

#[test]
fn format_chip_muted_shows_word() {
    assert!(audio::format_chip(AudioState { volume_pct: 50, muted: true }).contains("muted"));
}

#[test]
fn format_chip_normal_shows_percent() {
    assert_eq!(audio::format_chip(AudioState { volume_pct: 45, muted: false }), "45%");
}

// ── brightness / volume OSD ─────────────────────────────────────────────

#[test]
fn bar_width_lock() {
    assert_eq!(brightness_osd::BAR_WIDTH, 20);
}

#[test]
fn lib_bar_width_lock() {
    assert_eq!(volume_osd::BAR_WIDTH, 20);
}

#[test]
fn brightness_glyph_low_mid_high() {
    assert_eq!(brightness_osd::brightness_glyph(0), "\u{263C}");
    assert_eq!(brightness_osd::brightness_glyph(32), "\u{263C}");
    assert_eq!(brightness_osd::brightness_glyph(33), "\u{2600}");
    assert_eq!(brightness_osd::brightness_glyph(65), "\u{2600}");
    assert_eq!(brightness_osd::brightness_glyph(66), "\u{1F506}");
    assert_eq!(brightness_osd::brightness_glyph(100), "\u{1F506}");
}

#[test]
fn format_osd_includes_pct_and_bar() {
    let s = brightness_osd::format_osd(50);
    assert!(s.contains("50%"));
    assert!(s.contains("\u{2588}"));
    assert_eq!(s.matches("\u{2588}").count(), 10);
}

#[test]
fn format_osd_clamps_above_100() {
    assert!(brightness_osd::format_osd(255).contains("100%"));
}

#[test]
fn lib_format_osd_zero_renders_empty_bar() {
    assert_eq!(brightness_osd::format_osd(0).matches("\u{2591}").count(), 20);
    assert_eq!(volume_osd::format_osd(0, false).matches("\u{2591}").count(), 20);
}

#[test]
fn format_osd_exact_text() {
    let bar = "\u{2588}".repeat(7) + &"\u{2591}".repeat(13);
    assert_eq!(brightness_osd::format_osd(33), format!("\u{2600}  {bar}  33%"));
    let vbar = "\u{2588}".repeat(13) + &"\u{2591}".repeat(7);
    assert_eq!(volume_osd::format_osd(100, false), format!("\u{1F50A}  {vbar}  100%"));
}

#[test]
fn volume_glyph_muted_overrides_pct() {
    assert_eq!(volume_osd::volume_glyph(50, true), "\u{1F507}");
    assert_eq!(volume_osd::volume_glyph(0, true), "\u{1F507}");
}

#[test]
fn volume_glyph_zero_is_speaker_no_waves() {
    assert_eq!(volume_osd::volume_glyph(0, false), "\u{1F508}");
}

#[test]
fn volume_glyph_low_under_50() {
    assert_eq!(volume_osd::volume_glyph(20, false), "\u{1F509}");
    assert_eq!(volume_osd::volume_glyph(49, false), "\u{1F509}");
}

#[test]
fn volume_glyph_high_50_and_up() {
    assert_eq!(volume_osd::volume_glyph(50, false), "\u{1F50A}");
    assert_eq!(volume_osd::volume_glyph(100, false), "\u{1F50A}");
    assert_eq!(volume_osd::volume_glyph(150, false), "\u{1F50A}");
}

#[test]
fn format_osd_renders_pct_in_text() {
    let s = volume_osd::format_osd(50, false);
    assert!(s.contains("50%"));
    assert!(s.contains("\u{2588}"));
}

#[test]
fn format_osd_muted_uses_muted_label() {
    let s = volume_osd::format_osd(50, true);
    assert!(s.contains("muted"));
    assert!(!s.contains("50%"));
}

#[test]
fn format_osd_clamps_above_150_to_150() {
    assert!(volume_osd::format_osd(200, false).contains("150%"));
}

// ── clock ───────────────────────────────────────────────────────────────

#[test]
fn format_clock_renders_known_timestamps() {
    let s = clock::format_clock(1_715_000_000);
    assert!(s.starts_with("2024-05-06"), "got: {s}");
    assert_eq!(s, "2024-05-06 12:53");
}

#[test]
fn format_clock_dashes_non_positive_timestamps() {
    assert_eq!(clock::format_clock(0), "--:--");
    assert_eq!(clock::format_clock(-1), "--:--");
}

#[test]
fn days_to_ymd_anchor_dates() {
    assert_eq!(clock::days_to_ymd(0), (1970, 1, 1));
    assert_eq!(clock::days_to_ymd(19_723), (2024, 1, 1));
    assert_eq!(clock::days_to_ymd(-1), (1969, 12, 31));
    assert_eq!(clock::days_to_ymd(11_016), (2000, 2, 29));
}

// ── network ─────────────────────────────────────────────────────────────

#[test]
fn parse_active_extracts_first_wifi_row() {
    let c = network::parse_active("home-wifi:wifi:wlan0:activated\nwired:ethernet:eno1:activated\n").unwrap();
    assert_eq!(c.name, "home-wifi");
    assert_eq!(c.kind, "wifi");
}

#[test]
fn parse_active_extracts_ethernet_when_no_wifi() {
    let c = network::parse_active("wired:802-3-ethernet:eno1:activated\n").unwrap();
    assert_eq!(c.kind, "802-3-ethernet");
}

#[test]
fn parse_active_skips_inactive_rows() {
    assert!(network::parse_active("home-wifi:wifi:wlan0:deactivated\nwork-vpn:vpn:tun0:activated\n").is_none());
}

#[test]
fn parse_active_requires_the_whole_state_field() {
    assert!(network::parse_active("a:wifi:wlan0:activated:extra\n").is_none());
    assert!(network::parse_active("a:wifi:wlan0\n").is_none());
}

#[test]
fn parse_active_returns_none_on_empty() {
    assert!(network::parse_active("").is_none());
}

#[test]
fn type_glyph_maps_wifi_and_ethernet() {
    assert_eq!(network::type_glyph("wifi"), "\u{25EF}");
    assert_eq!(network::type_glyph("802-11-wireless"), "\u{25EF}");
    assert_eq!(network::type_glyph("ethernet"), "\u{2261}");
    assert_eq!(network::type_glyph("802-3-ethernet"), "\u{2261}");
    assert_eq!(network::type_glyph("vpn"), "?");
}

#[test]
fn parse_active_extracts_802_11_wireless() {
    let c = network::parse_active("FRANKS-REDHOTS:802-11-wireless:wlp2s0:activated\nlo:loopback:lo:activated\n").unwrap();
    assert_eq!(c.name, "FRANKS-REDHOTS");
    assert_eq!(c.kind, "802-11-wireless");
}

#[test]
fn format_chip_disconnected_when_none() {
    assert_eq!(network::format_chip(None), "Disconnected");
}

#[test]
fn format_chip_renders_name_only() {
    let c = ActiveConnection { name: "home-wifi".into(), kind: "wifi".into() };
    let chip = network::format_chip(Some(&c));
    assert_eq!(chip, "home-wifi");
    assert!(!chip.contains("\u{25EF}"));
}

#[test]
fn reconnect_suffix_visible_inside_window() {
    let c = ActiveConnection { name: "home-wifi".into(), kind: "wifi".into() };
    for s in [0u32, 1, 4, 5] {
        let out = network::format_chip_with_reconnect(Some(&c), Some(s));
        assert!(out.contains("Reconnecting mesh"), "s={s}");
    }
}

#[test]
fn reconnect_suffix_hidden_outside_window() {
    let c = ActiveConnection { name: "home-wifi".into(), kind: "wifi".into() };
    assert_eq!(network::format_chip_with_reconnect(Some(&c), Some(6)), "home-wifi");
    assert_eq!(network::format_chip_with_reconnect(Some(&c), None), "home-wifi");
}

#[test]
fn reconnect_suffix_locked_at_5_seconds() {
    assert_eq!(RECONNECT_TOAST_SECONDS, 5);
}

#[test]
fn reconnect_suffix_works_with_disconnected_state() {
    let out = network::format_chip_with_reconnect(None, Some(2));
    assert!(out.starts_with("Disconnected"));
    assert!(out.contains("Reconnecting mesh"));
}

#[test]
fn is_real_iface_kind_accepts_only_wifi_and_ethernet() {
    assert!(network::is_real_iface_kind("wifi"));
    assert!(network::is_real_iface_kind("ethernet"));
    assert!(!network::is_real_iface_kind("loopback"));
}

// ── mesh-status ─────────────────────────────────────────────────────────

#[test]
fn health_glyph_maps_canonical_states() {
    assert_eq!(mesh_status::health_glyph("healthy"), "\u{25CF}");
    assert_eq!(mesh_status::health_glyph("degraded"), "\u{25D0}");
    assert_eq!(mesh_status::health_glyph("unreachable"), "\u{25CB}");
    assert_eq!(mesh_status::health_glyph("unknown"), "?");
    assert_eq!(mesh_status::health_glyph("anything-else"), "?");
}

#[test]
fn format_chip_renders_count_only() {
    let r = HealthReport { state: "healthy".into(), peer_count: 7 };
    let chip = mesh_status::format_chip(&r);
    assert_eq!(chip, "7");
    assert!(!chip.contains("\u{25CF}"));
}

#[test]
fn health_report_default_is_unknown() {
    let r = HealthReport::default();
    assert_eq!(r.state, "unknown");
    assert_eq!(r.peer_count, 0);
    assert_eq!(mesh_status::default_unknown(), "unknown");
}

#[test]
fn transport_color_maps_locked_palette() {
    assert_eq!(NebulaTransportColor::from_transport("nebula_direct"), NebulaTransportColor::Green);
    assert_eq!(NebulaTransportColor::from_transport("nebula_lighthouse_relay"), NebulaTransportColor::Amber);
    assert_eq!(NebulaTransportColor::from_transport("nebula_https443"), NebulaTransportColor::Red);
    assert_eq!(NebulaTransportColor::from_transport("kdc_tls"), NebulaTransportColor::Green);
    assert_eq!(NebulaTransportColor::from_transport("offline"), NebulaTransportColor::Grey);
    assert_eq!(NebulaTransportColor::from_transport(""), NebulaTransportColor::Grey);
}

#[test]
fn transport_color_hex_is_material_status_palette() {
    assert_eq!(NebulaTransportColor::Green.hex(), "#1ac782");
    assert_eq!(NebulaTransportColor::Amber.hex(), "#f1c21b");
    assert_eq!(NebulaTransportColor::Red.hex(), "#da1e28");
    assert_eq!(NebulaTransportColor::Grey.hex(), "#8d8d8d");
}

#[test]
fn format_tooltip_shows_mesh_peer_transport_and_role() {
    let s = NebulaStatusSnapshot {
        is_lighthouse: true,
        ca_epoch: 1,
        peer_count: 7,
        mesh_id: "office".into(),
        active_transport: "nebula_direct".into(),
    };
    let t = mesh_status::format_tooltip(&s);
    assert_eq!(t, "mesh office · 7 peers · nebula_direct · lighthouse");
}

#[test]
fn format_tooltip_omits_lighthouse_when_peer_role() {
    let s = NebulaStatusSnapshot {
        is_lighthouse: false,
        peer_count: 3,
        mesh_id: "office".into(),
        active_transport: "nebula_direct".into(),
        ..Default::default()
    };
    assert!(!mesh_status::format_tooltip(&s).contains("lighthouse"));
}

#[test]
fn format_tooltip_handles_offline_no_mesh() {
    let t = mesh_status::format_tooltip(&NebulaStatusSnapshot::default());
    assert_eq!(t, "no mesh · 0 peers · offline");
}

#[test]
fn show_lighthouse_badge_only_when_role_host() {
    let host = NebulaStatusSnapshot { is_lighthouse: true, ..Default::default() };
    assert!(mesh_status::show_lighthouse_badge(&host));
    assert!(!mesh_status::show_lighthouse_badge(&NebulaStatusSnapshot::default()));
}

// ── status-cluster ──────────────────────────────────────────────────────

fn bat(capacity: u8, status: &str) -> BatteryState {
    BatteryState { capacity, status: status.into() }
}

#[test]
fn battery_glyph_fisheye_when_charging() {
    assert_eq!(status_cluster::battery_glyph(&bat(50, "Charging")), "\u{25C9}");
}

#[test]
fn battery_glyph_fisheye_when_full() {
    assert_eq!(status_cluster::battery_glyph(&bat(100, "Full")), "\u{25C9}");
}

#[test]
fn battery_glyph_low_under_20() {
    assert_eq!(status_cluster::battery_glyph(&bat(5, "Discharging")), "\u{25AB}");
}

#[test]
fn battery_glyph_mid_under_80() {
    assert_eq!(status_cluster::battery_glyph(&bat(50, "Discharging")), "\u{25FB}");
}

#[test]
fn battery_glyph_full_above_80() {
    assert_eq!(status_cluster::battery_glyph(&bat(90, "Discharging")), "\u{25A0}");
}

#[test]
fn battery_glyph_question_when_zero_and_unknown() {
    assert_eq!(status_cluster::battery_glyph(&bat(0, "")), "?");
}

#[test]
fn format_cluster_combines_battery_and_profile() {
    let s = status_cluster::format_cluster(Some(&bat(67, "Discharging")), "balanced");
    assert_eq!(s, "67% · balanced");
}

#[test]
fn format_cluster_ac_when_no_battery_or_profile() {
    assert_eq!(status_cluster::format_cluster(None, ""), "AC");
}

#[test]
fn format_cluster_profile_only_on_desktop() {
    assert_eq!(status_cluster::format_cluster(None, "performance"), "performance");
}

#[test]
fn fabric_glyph_maps_transport_to_dot() {
    assert_eq!(status_cluster::fabric_glyph("nebula_direct"), "\u{25CF}");
    assert_eq!(status_cluster::fabric_glyph("kdc_tls"), "\u{25CF}");
    assert_eq!(status_cluster::fabric_glyph("nebula_lighthouse_relay"), "\u{25D0}");
    assert_eq!(status_cluster::fabric_glyph("nebula_https443"), "\u{25D2}");
    assert_eq!(status_cluster::fabric_glyph("offline"), "\u{25CB}");
    assert_eq!(status_cluster::fabric_glyph(""), "\u{25CB}");
    assert_eq!(status_cluster::fabric_glyph("future-transport"), "\u{25CB}");
}

#[test]
fn format_cluster_with_fabric_prepends_glyph_when_enrolled() {
    let s = status_cluster::format_cluster_with_fabric(None, "balanced", "nebula_direct");
    assert!(s.starts_with("\u{25CF} "));
    assert!(s.contains("balanced"));
}

#[test]
fn format_cluster_with_fabric_omits_glyph_when_offline() {
    let s = status_cluster::format_cluster_with_fabric(None, "balanced", "");
    assert!(!s.contains("\u{25CB}"));
    assert!(!s.contains("\u{25CF}"));
    let s2 = status_cluster::format_cluster_with_fabric(None, "balanced", "offline");
    assert!(!s2.contains("\u{25CB}"));
}

#[test]
fn battery_from_files_trims_and_parses() {
    let b = status_cluster::battery_from_files(Some(" 87\n"), Some("Discharging\n"));
    assert_eq!(b, bat(87, "Discharging"));
    let b = status_cluster::battery_from_files(Some("300"), None);
    assert_eq!(b, bat(0, ""));
}

// ── app-switcher ────────────────────────────────────────────────────────

#[test]
fn format_strip_empty_message() {
    assert_eq!(app_switcher::format_strip(&[]), "(no windows)");
}

#[test]
fn format_strip_marks_focused_row() {
    let rows = vec![
        WindowRow { id: 1, name: "Firefox".into(), app_id: "firefox".into(), focused: true },
        WindowRow { id: 2, name: "Terminal".into(), app_id: "foot".into(), focused: false },
    ];
    assert_eq!(app_switcher::format_strip(&rows), "▶ firefox · Firefox\n  foot · Terminal");
}

#[test]
fn format_strip_handles_empty_app_id() {
    let rows = vec![WindowRow { id: 1, name: "Plain".into(), app_id: "".into(), focused: false }];
    assert!(app_switcher::format_strip(&rows).contains("?"));
}

// ── dock ────────────────────────────────────────────────────────────────

#[test]
fn format_dock_empty_message() {
    assert_eq!(dock::format_dock(&[], &[]), "(empty dock)");
}

#[test]
fn format_dock_renders_pinned_then_running() {
    let pinned = vec![
        PinnedApp { desktop_id: "firefox.desktop".into(), label: "Firefox".into() },
        PinnedApp { desktop_id: "foot.desktop".into(), label: "Terminal".into() },
    ];
    let windows = vec![DockWindow { id: 1, app_id: "firefox".into(), focused: true, urgent: false }];
    let s = dock::format_dock(&pinned, &windows);
    assert_eq!(s, "[· Terminal] [▶• firefox]");
}

#[test]
fn format_dock_marks_urgent_windows() {
    let windows = vec![DockWindow { id: 1, app_id: "foo".into(), focused: false, urgent: true }];
    assert!(dock::format_dock(&[], &windows).contains("!"));
}

#[test]
fn format_dock_empty_app_id_renders_question_mark() {
    let windows = vec![DockWindow { id: 1, app_id: "".into(), focused: false, urgent: false }];
    assert_eq!(dock::format_dock(&[], &windows), "[  ?]");
}

// ── notifications ───────────────────────────────────────────────────────

use mde::applets::notifications::{self, NotificationRow};

fn make_row(id: &str, peer: &str, title: &str, ts: i64, read: bool) -> NotificationRow {
    NotificationRow {
        id: id.into(),
        peer: peer.into(),
        title: title.into(),
        body: format!("body of {title}"),
        created_at: ts,
        read,
        dismissed: false,
    }
}

#[test]
fn visible_filters_dismissed() {
    let rows = vec![
        NotificationRow { id: "a".into(), dismissed: false, ..Default::default() },
        NotificationRow { id: "b".into(), dismissed: true, ..Default::default() },
    ];
    let v = notifications::visible(rows);
    assert_eq!(v.len(), 1);
    assert_eq!(v[0].id, "a");
}

#[test]
fn group_and_sort_buckets_by_peer_and_sorts_desc() {
    let rows = vec![
        make_row("a1", "alpha", "first", 100, false),
        make_row("b1", "beta", "second", 200, false),
        make_row("a2", "alpha", "third", 300, false),
        make_row("l1", "", "local", 150, false),
    ];
    let grouped = notifications::group_and_sort(rows);
    assert_eq!(grouped.len(), 3);
    assert_eq!(grouped[0].0, "");
    assert_eq!(grouped[1].0, "alpha");
    assert_eq!(grouped[2].0, "beta");
    assert_eq!(grouped[1].1.len(), 2);
    assert_eq!(grouped[1].1[0].id, "a2");
}

#[test]
fn group_and_sort_keeps_input_order_for_equal_timestamps() {
    let rows = vec![
        make_row("x1", "p", "a", 5, false),
        make_row("x2", "p", "b", 9, false),
        make_row("x3", "p", "c", 5, false),
    ];
    let g = notifications::group_and_sort(rows);
    let ids: Vec<&str> = g[0].1.iter().map(|r| r.id.as_str()).collect();
    assert_eq!(ids, vec!["x2", "x1", "x3"]);
}

#[test]
fn format_center_empty_message() {
    assert_eq!(notifications::format_center(&[]), "(no notifications)");
}

#[test]
fn format_center_marks_unread_with_bullet() {
    let groups = vec![("alpha".to_string(), vec![make_row("a1", "alpha", "Hello", 100, false)])];
    let s = notifications::format_center(&groups);
    assert_eq!(s, "== alpha ==\n• Hello · body of Hello");
}

#[test]
fn format_center_empty_peer_renders_as_local() {
    let groups = vec![("".to_string(), vec![make_row("l1", "", "Local note", 100, true)])];
    let s = notifications::format_center(&groups);
    assert!(s.contains("== Local =="));
    assert!(!s.lines().any(|l| l.starts_with("•")));
}

// ── start-menu ──────────────────────────────────────────────────────────

use mde::applets::start_menu::{self, AppEntry, PinnedPane, PinnedRow};

fn sample_entries() -> Vec<AppEntry> {
    vec![
        AppEntry {
            id: "firefox".into(),
            name: "Firefox".into(),
            comment: "Web Browser".into(),
            exec_cmd: "firefox %u".into(),
            icon: "firefox".into(),
            categories: vec!["Network".into(), "WebBrowser".into()],
            hidden: false,
        },
        AppEntry {
            id: "thunar".into(),
            name: "File Manager".into(),
            comment: "Thunar".into(),
            exec_cmd: "thunar %F".into(),
            icon: "thunar".into(),
            categories: vec!["FileTools".into()],
            hidden: false,
        },
        AppEntry {
            id: "secret".into(),
            name: "Hidden Tool".into(),
            comment: "Should not show".into(),
            exec_cmd: "secret".into(),
            icon: "".into(),
            categories: vec![],
            hidden: true,
        },
    ]
}

#[test]
fn parse_desktop_file_extracts_main_section() {
    let raw = "[Desktop Entry]\nName=Firefox\nComment=Web Browser\nExec=firefox %u\nIcon=firefox\nCategories=Network;WebBrowser;\nNoDisplay=false\n\n[Desktop Action new-window]\nName=New Window\nExec=firefox --new-window\n";
    let e = start_menu::parse_desktop_file("firefox", raw);
    assert_eq!(e.id, "firefox");
    assert_eq!(e.name, "Firefox");
    assert_eq!(e.comment, "Web Browser");
    assert_eq!(e.exec_cmd, "firefox %u");
    assert_eq!(e.icon, "firefox");
    assert_eq!(e.categories, vec!["Network", "WebBrowser"]);
    assert!(!e.hidden);
}

#[test]
fn parse_desktop_file_ignores_action_sections() {
    let raw = "[Desktop Entry]\nName=App\n\n[Desktop Action a]\nName=action-name\n";
    assert_eq!(start_menu::parse_desktop_file("app", raw).name, "App");
}

#[test]
fn parse_desktop_file_honors_hidden_and_nodisplay() {
    assert!(start_menu::parse_desktop_file("a", "[Desktop Entry]\nName=A\nNoDisplay=true\n").hidden);
    assert!(start_menu::parse_desktop_file("b", "[Desktop Entry]\nName=B\nHidden=TRUE\n").hidden);
}

#[test]
fn parse_pinned_splits_pane_field() {
    let rows = start_menu::parse_pinned("firefox\tpinned\nthunar\tall\nsolo\n# comment\n");
    assert_eq!(rows.len(), 3);
    assert_eq!(rows[0].desktop_id, "firefox");
    assert_eq!(rows[0].pane, PinnedPane::Pinned);
    assert_eq!(rows[1].pane, PinnedPane::All);
    assert_eq!(rows[2].desktop_id, "solo");
    assert_eq!(rows[2].pane, PinnedPane::Pinned);
}

#[test]
fn search_case_insensitive_substring() {
    let entries = sample_entries();
    let hits = start_menu::search(&entries, "FIRE");
    assert_eq!(hits.len(), 1);
    assert_eq!(hits[0].id, "firefox");
    let by_comment = start_menu::search(&entries, "thunar");
    assert_eq!(by_comment.len(), 1);
    assert_eq!(by_comment[0].id, "thunar");
}

#[test]
fn search_includes_hidden_entries() {
    let entries = sample_entries();
    let hits = start_menu::search(&entries, "hidden tool");
    assert_eq!(hits.len(), 1);
    assert_eq!(hits[0].id, "secret");
}

#[test]
fn search_empty_query_yields_empty() {
    let entries = sample_entries();
    assert!(start_menu::search(&entries, "").is_empty());
    assert!(start_menu::search(&entries, "   ").is_empty());
}

#[test]
fn all_apps_filters_hidden_and_sorts_alpha() {
    let all = start_menu::all_apps(sample_entries());
    let names: Vec<&str> = all.iter().map(|e| e.name.as_str()).collect();
    assert_eq!(names, vec!["File Manager", "Firefox"]);
}

#[test]
fn pinned_pane_drops_orphans() {
    let entries = sample_entries();
    let pinned = vec![
        PinnedRow { desktop_id: "firefox".into(), pane: PinnedPane::Pinned },
        PinnedRow { desktop_id: "nonexistent".into(), pane: PinnedPane::Pinned },
        PinnedRow { desktop_id: "thunar".into(), pane: PinnedPane::All },
    ];
    let p = start_menu::pinned_pane(&entries, &pinned);
    assert_eq!(p.len(), 1);
    assert_eq!(p[0].id, "firefox");
    assert_eq!(p[0].categories, vec!["Network", "WebBrowser"]);
}

#[test]
fn format_now_renders_three_counts() {
    assert_eq!(start_menu::format_now(&[], &[], 0), "start-menu: 0 pinned · 0 apps · 0 search-hits");
}

#[test]
fn start_menu_and_notifications_follow_host_shutdown() {
    assert!(!start_menu::handle_host(&HostMessage::Shutdown));
    assert!(!notifications::handle_host(&HostMessage::Shutdown));
    assert_eq!(start_menu::manifest().slot, AppletSlot::Overlay);
    assert_eq!(notifications::manifest().slot, AppletSlot::Overlay);
}

#[test]
fn user_manifest_overrides_system_with_same_id() {
    let sys = AppletManifest {
        id: AppletId::from_static("clock"),
        binary: "mde-applet-clock".into(),
        slot: AppletSlot::TopBarCenter,
        summary: "system".into(),
        version: "1.0.0".into(),
    };
    let user = AppletManifest {
        id: AppletId::from_static("clock"),
        binary: "mde-applet-clock".into(),
        slot: AppletSlot::TopBarCenter,
        summary: "user override".into(),
        version: "1.0.1".into(),
    };
    let mut out = Vec::new();
    ingest_dir(&mut out, vec![sys]);
    ingest_dir(&mut out, vec![user]);
    let m = out.first().unwrap();
    assert_eq!(m.summary, "user override");
    assert_eq!(m.version, "1.0.1");
}

#[test]
fn discover_returns_empty_when_no_dirs_exist() {
    assert!(discover(Vec::new(), Vec::new()).is_empty());
}

#[test]
fn discover_lists_one_manifest_per_id_in_id_order() {
    let found = discover(
        vec![m("volume", "mde-applet-volume", "1"), m("clock", "mde-applet-clock", "1")],
        vec![m("clock", "mde-applet-clock", "2"), m("battery", "mde-applet-battery", "1")],
    );
    let ids: Vec<&str> = found.iter().map(|x| x.id.as_str()).collect();
    assert_eq!(ids, vec!["battery", "clock", "volume"]);
    assert_eq!(found[1].version, "2");
}

#[test]
fn battery_entry_is_the_first_bat_directory() {
    use_battery_entry();
}

fn use_battery_entry() {
    let names: Vec<String> = vec!["AC".into(), "BAT1".into(), "BAT0".into()];
    assert_eq!(status_cluster::battery_entry(&names), Some(1));
    let none: Vec<String> = vec!["AC".into(), "ucsi".into()];
    assert_eq!(status_cluster::battery_entry(&none), None);
}

#[test]
fn icon_for_app_id_maps_first_party_launchers() {
    use_dock_icons_first_party();
}

fn use_dock_icons_first_party() {
    assert_eq!(dock::icon_for_app_id("mde-workbench"), dock::DockIcon::Workbench);
    assert_eq!(dock::icon_for_app_id("MDE-Workbench"), dock::DockIcon::Workbench);
    assert_eq!(dock::icon_for_app_id("mde-files"), dock::DockIcon::Files);
    assert_eq!(dock::icon_for_app_id("mde-workbench.desktop"), dock::DockIcon::Workbench);
}

#[test]
fn icon_for_app_id_unknown_falls_back_to_apps() {
    assert_eq!(dock::icon_for_app_id("firefox"), dock::DockIcon::Apps);
    assert_eq!(dock::icon_for_app_id("foot"), dock::DockIcon::Apps);
    assert_eq!(dock::icon_for_app_id(""), dock::DockIcon::Apps);
}

#[test]
fn icon_for_app_id_maps_well_known_system_surfaces() {
    assert_eq!(dock::icon_for_app_id("nm-connection-editor"), dock::DockIcon::Network);
    assert_eq!(dock::icon_for_app_id("gnome-control-center"), dock::DockIcon::Settings);
    assert_eq!(dock::icon_for_app_id("org.gnome.Nautilus"), dock::DockIcon::Apps);
    assert_eq!(dock::icon_for_app_id("notification-daemon"), dock::DockIcon::Notification);
}

#[test]
fn format_cluster_with_fabric_omits_glyph_for_unknown_transport() {
    assert_eq!(
        status_cluster::format_cluster_with_fabric(None, "balanced", "future-transport"),
        status_cluster::format_cluster(None, "balanced")
    );
}

#[test]
fn icon_for_lowercase_drops_the_last_suffix() {
    assert_eq!(dock::icon_for_lowercase("mde-files.desktop"), dock::DockIcon::Files);
    assert_eq!(dock::icon_for_lowercase("org.mde.x.desktop"), dock::DockIcon::Apps);
    assert_eq!(dock::icon_for_lowercase("MDE-files"), dock::DockIcon::Apps);
}
