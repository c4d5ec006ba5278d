use mde::workers::compute_migrate::{
    build_migrate_ready_event, build_rsync_args, build_virsh_domstate_args, build_virsh_shutdown_args,
    build_virsh_undefine_args, is_shutoff, ComputeMigrateWorker, is_source_peer, parse_virsh_domstate, target_disk_path_for,
    wait_for_shutoff, poll_until_shutoff, shutoff_step, ShutoffPoll, MigrateRequest, MigrationOutcome, ACTION_TOPIC, DEFAULT_TARGET_VM_DIR,
    MIGRATE_READY_TOPIC,
};

fn req(source: &str) -> MigrateRequest {
    MigrateRequest {
        source_peer: source.into(),
        target_peer: "10.42.0.2".into(),
        vm_id: "abc".into(),
        disk_path: "/d".into(),
    }
}

#[test]
fn is_source_peer_true_when_match() {
    assert!(is_source_peer(&req("10.42.0.1"), "10.42.0.1"));
}

#[test]
fn is_source_peer_false_when_mismatch() {
    assert!(!is_source_peer(&req("10.42.0.1"), "10.42.0.99"));
}

#[test]
fn is_source_peer_false_when_own_ip_empty() {
    assert!(!is_source_peer(&req(""), ""));
}

#[test]
fn shutdown_args_are_minimal() {
    assert_eq!(build_virsh_shutdown_args("abc"), vec!["shutdown", "abc"]);
}

#[test]
fn domstate_args_are_minimal() {
    assert_eq!(build_virsh_domstate_args("abc"), vec!["domstate", "abc"]);
}

#[test]
fn undefine_args_are_minimal() {
    assert_eq!(build_virsh_undefine_args("abc"), vec!["undefine", "abc"]);
}

#[test]
fn parse_domstate_trims_whitespace() {
    assert_eq!(parse_virsh_domstate("  running \n"), Some("running".into()));
}

#[test]
fn parse_domstate_none_when_empty() {
    assert!(parse_virsh_domstate("   \n").is_none());
}

#[test]
fn is_shutoff_matches_canonical_token() {
    assert!(is_shutoff("shut off"));
    assert!(is_shutoff("SHUT OFF"));
    assert!(!is_shutoff("running"));
    assert!(!is_shutoff("paused"));
}

#[test]
fn rsync_args_use_compress_and_overlay_target() {
    let args = build_rsync_args("/var/lib/mde-vms/abc.qcow2", "10.42.0.2", "/var/lib/mde-vms/");
    assert!(args.contains(&"--compress".to_string()));
    assert!(args.contains(&"--progress".to_string()));
    assert!(args.contains(&"/var/lib/mde-vms/abc.qcow2".to_string()));
    assert_eq!(args.last().unwrap(), "10.42.0.2:/var/lib/mde-vms/");
}

#[test]
fn rsync_args_exact_order() {
    let args = build_rsync_args("/a.qcow2", "p", "/t/");
    assert_eq!(args, vec!["--compress", "--progress", "/a.qcow2", "p:/t/"]);
}

#[test]
fn target_disk_path_handles_trailing_slash() {
    let p = target_disk_path_for("/var/lib/mde-vms/abc.qcow2", "/var/lib/mde-vms/");
    assert_eq!(p, "/var/lib/mde-vms/abc.qcow2");
}

#[test]
fn target_disk_path_inserts_separator_when_missing() {
    let p = target_disk_path_for("/src/abc.qcow2", "/var/lib/mde-vms");
    assert_eq!(p, "/var/lib/mde-vms/abc.qcow2");
}

#[test]
fn target_disk_path_falls_back_when_no_file_name() {
    assert_eq!(target_disk_path_for("/src/..", "/t"), "/t/disk.qcow2");
    assert_eq!(target_disk_path_for("/", "/t/"), "/t/disk.qcow2");
}

#[test]
fn migrate_ready_event_carries_correlation_ulid() {
    let r = MigrateRequest {
        source_peer: "10.42.0.1".into(),
        target_peer: "10.42.0.2".into(),
        vm_id: "abc".into(),
        disk_path: "/var/lib/mde-vms/abc.qcow2".into(),
    };
    let ev = build_migrate_ready_event(&r, "/var/lib/mde-vms/abc.qcow2".into(), "01JAN".into());
    assert_eq!(ev.target_peer, "10.42.0.2");
    assert_eq!(ev.request_ulid, "01JAN");
    assert_eq!(ev.target_disk_path, "/var/lib/mde-vms/abc.qcow2");
}

#[test]
fn wait_for_shutoff_returns_false_when_state_never_flips() {
    let observed = wait_for_shutoff(|| Some("running".into()), 5);
    assert!(!observed);
}

#[test]
fn wait_for_shutoff_returns_true_on_first_shutoff_observation() {
    let mut calls = 0;
    let observed = wait_for_shutoff(
        || {
            calls += 1;
            if calls < 3 {
                Some("running".into())
            } else {
                Some("shut off".into())
            }
        },
        10,
    );
    assert!(observed);
    assert_eq!(calls, 3, "should stop polling at first shutoff");
}

#[test]
fn wait_for_shutoff_zero_attempts_is_false() {
    assert!(!wait_for_shutoff(|| Some("shut off".into()), 0));
}

#[test]
fn migration_outcome_rsync_failure_carries_description() {
    let out = MigrationOutcome::RsyncFailure { exit_description: "rsync exited 23".into() };
    match out {
        MigrationOutcome::RsyncFailure { exit_description } => {
            assert!(exit_description.contains("23"));
        }
        _ => panic!("wrong variant"),
    }
}

#[test]
fn happy_path_plan_compose() {
    let r = MigrateRequest {
        source_peer: "10.42.0.1".into(),
        target_peer: "10.42.0.2".into(),
        vm_id: "abc-uuid".into(),
        disk_path: "/var/lib/mde-vms/abc-uuid.qcow2".into(),
    };
    assert!(is_source_peer(&r, "10.42.0.1"));
    let shutdown_args = build_virsh_shutdown_args(&r.vm_id);
    assert!(shutdown_args.contains(&"abc-uuid".to_string()));
    let domstate_args = build_virsh_domstate_args(&r.vm_id);
    assert!(domstate_args.contains(&"abc-uuid".to_string()));
    let rsync_args = build_rsync_args(&r.disk_path, &r.target_peer, DEFAULT_TARGET_VM_DIR);
    assert_eq!(rsync_args.last().unwrap(), "10.42.0.2:/var/lib/mde-vms/");
    let undef_args = build_virsh_undefine_args(&r.vm_id);
    assert!(undef_args.contains(&"abc-uuid".to_string()));
    let target_path = target_disk_path_for(&r.disk_path, DEFAULT_TARGET_VM_DIR);
    let event = build_migrate_ready_event(&r, target_path, "01JANULID".into());
    assert_eq!(event.target_peer, "10.42.0.2");
    assert_eq!(event.request_ulid, "01JANULID");
}

#[test]
fn action_topic_under_action_prefix() {
    assert!(ACTION_TOPIC.starts_with("action/"));
}

#[test]
fn migrate_ready_topic_under_event_prefix() {
    assert!(MIGRATE_READY_TOPIC.starts_with("event/"));
}

#[test]
fn worker_defaults_builders_and_address_resolution() {
    let w = ComputeMigrateWorker::new();
    assert_eq!(w.nebula_interface, "nebula1");
    assert_eq!(w.poll_interval, std::time::Duration::from_millis(400));
    assert!(w.bus_root_override.is_none());
    assert_eq!(w.resolve_nebula_addr("10.42.0.9".to_string()), "10.42.0.9");
    let w = w
        .with_nebula_addr_hint("10.42.0.1".to_string())
        .with_bus_root("/tmp/bus".to_string())
        .with_poll_interval(std::time::Duration::from_millis(5));
    assert_eq!(w.resolve_nebula_addr("10.42.0.9".to_string()), "10.42.0.1");
    assert_eq!(w.bus_root_override.as_deref(), Some("/tmp/bus"));
    assert_eq!(w.poll_interval, std::time::Duration::from_millis(5));
}

#[test]
fn overlay_address_from_ip_addr_output() {
    let out = "4: nebula1: <POINTOPOINT,UP> mtu 1300\n    inet 10.42.0.7/16 scope global nebula1\n    inet 10.42.0.8/16 scope global secondary\n";
    assert_eq!(mde::workers::compute_migrate::parse_inet_addr(out), "10.42.0.7");
    assert_eq!(mde::workers::compute_migrate::parse_inet_addr("no address here\n"), "");
    assert_eq!(mde::workers::compute_migrate::parse_inet_addr("inet 192.168.1.2\n"), "192.168.1.2");
}

#[test]
fn shutoff_step_decides_each_poll() {
    assert_eq!(shutoff_step(0, 5, &Some("Shut Off".into())), ShutoffPoll::Done(true));
    assert_eq!(shutoff_step(0, 5, &Some("running".into())), ShutoffPoll::Again);
    assert_eq!(shutoff_step(4, 5, &Some("running".into())), ShutoffPoll::Done(false));
    assert_eq!(shutoff_step(3, 5, &None), ShutoffPoll::Again);
    assert_eq!(shutoff_step(0, 1, &None), ShutoffPoll::Done(false));
}

#[test]
fn poll_until_shutoff_records_each_observation_and_stops_at_the_first_shutoff() {
    let mut calls = 0;
    let (observed, seen) = poll_until_shutoff(
        || {
            calls += 1;
            if calls < 3 {
                Some("running".into())
            } else {
                Some("shut off".into())
            }
        },
        10,
    );
    assert!(observed);
    assert_eq!(seen, vec![Some("running".to_string()), Some("running".to_string()), Some("shut off".to_string())]);
    let (observed, seen) = poll_until_shutoff(|| None, 4);
    assert!(!observed);
    assert_eq!(seen.len(), 4);
}

#[test]
fn target_path_from_file_name_or_default() {
    assert_eq!(mde::workers::compute_migrate::target_path_from(Some("vm.qcow2"), "/d"), "/d/vm.qcow2");
    assert_eq!(mde::workers::compute_migrate::target_path_from(None, "/d/"), "/d/disk.qcow2");
}
