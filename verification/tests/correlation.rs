use useract_forensic::{
    audit, audit_with, build_timeline, device_file_volume_joins, from_device_connections,
    from_shell_history, is_mass_storage_id, source, Action, ActivitySource, Category,
    DeviceRecord, DeviceSource, Severity, ShellEntry, ShellHistorySource, SourceKind, Subject,
    UserActivity, REMOVABLE_MEDIA_WINDOW_SECS,
};

fn entry(cmd: &str, ts: Option<i64>) -> ShellEntry {
    ShellEntry {
        command: cmd.to_string(),
        timestamp: ts,
    }
}

fn device(instance_id: &str, first_install: Option<i64>, vol: Option<u32>) -> DeviceRecord {
    DeviceRecord {
        device_instance_id: instance_id.to_string(),
        volume_serial: vol,
        first_install,
        last_install: None,
        last_arrival: None,
    }
}

// ── from_shell_history ────────────────────────────────────────────────────

#[test]
fn shell_command_becomes_executed_activity() {
    let entries = [entry("ls -la /tmp", Some(1_700_000_000))];
    let acts = from_shell_history(&entries, None);
    assert_eq!(acts.len(), 1);
    assert_eq!(acts[0].action, Action::Executed);
    assert_eq!(acts[0].source, SourceKind::ShellHistory);
    assert_eq!(acts[0].timestamp, Some(1_700_000_000));
    assert_eq!(acts[0].subject, Subject::Command("ls -la /tmp".to_string()));
    assert_eq!(acts[0].actor, None);
}

#[test]
fn shell_actor_is_carried_when_known() {
    let entries = [entry("whoami", None)];
    let acts = from_shell_history(&entries, Some("alice"));
    assert_eq!(acts[0].actor.as_deref(), Some("alice"));
}

#[test]
fn history_clearing_command_becomes_tampered() {
    for cmd in [
        "unset HISTFILE",
        "history -c",
        "export HISTFILE=/dev/null",
        "Clear-History",
        "rm ~/.bash_history",
    ] {
        let entries = [entry(cmd, Some(1))];
        let acts = from_shell_history(&entries, None);
        assert_eq!(acts[0].action, Action::HistoryTampered);
    }
}

#[test]
fn benign_command_is_not_tampered() {
    let entries = [entry("git log --oneline", Some(1))];
    let acts = from_shell_history(&entries, None);
    assert_eq!(acts[0].action, Action::Executed);
}

// ── from_device_connections ───────────────────────────────────────────────

#[test]
fn device_becomes_connected_with_volume_serial() {
    let conns = [device(
        "USBSTOR\\Disk&Ven_SanDisk\\1234567890AB",
        Some(1_700_000_500),
        Some(0xDEAD_BEEF),
    )];
    let acts = from_device_connections(&conns);
    assert_eq!(acts.len(), 1);
    assert_eq!(acts[0].action, Action::Connected);
    assert_eq!(acts[0].source, SourceKind::PeripheralDevice);
    assert_eq!(acts[0].timestamp, Some(1_700_000_500));
    assert_eq!(
        acts[0].subject,
        Subject::Device {
            id: "USBSTOR\\Disk&Ven_SanDisk\\1234567890AB".to_string(),
            volume_serial: Some(0xDEAD_BEEF),
        }
    );
}

#[test]
fn device_timestamp_falls_back_through_stamps() {
    let mut conn = device("USB\\VID_0781", None, None);
    conn.last_arrival = Some(42);
    let acts = from_device_connections(&[conn]);
    assert_eq!(acts[0].timestamp, Some(42));
}

#[test]
fn device_without_any_stamp_has_no_timestamp() {
    let conn = device("USB\\VID_0781", None, None);
    let acts = from_device_connections(&[conn]);
    assert_eq!(acts[0].timestamp, None);
}

// ── build_timeline ────────────────────────────────────────────────────────

#[test]
fn timeline_merges_and_sorts_by_timestamp() {
    let entries = [entry("late", Some(300)), entry("early", Some(100))];
    let conns = [device("USBSTOR\\x", Some(200), None)];
    let shell = ShellHistorySource::new(&entries);
    let devices = DeviceSource::new(&conns);
    let tl = build_timeline(&[&shell, &devices]);
    let ts: Vec<Option<i64>> = tl.iter().map(|e| e.timestamp).collect();
    assert_eq!(ts, vec![Some(100), Some(200), Some(300)]);
}

#[test]
fn timeline_orders_untimestamped_events_last_and_stably() {
    let entries = [
        entry("no_ts_a", None),
        entry("ts", Some(50)),
        entry("no_ts_b", None),
    ];
    let shell = ShellHistorySource::new(&entries);
    let tl = build_timeline(&[&shell]);
    assert_eq!(tl[0].timestamp, Some(50));
    assert_eq!(tl[1].detail, "no_ts_a");
    assert_eq!(tl[2].detail, "no_ts_b");
}

// ── audit: USERACT-HISTORY-TAMPERED ───────────────────────────────────────

#[test]
fn audit_surfaces_history_tampered() {
    let entries = [entry("unset HISTFILE", Some(10))];
    let acts = from_shell_history(&entries, None);
    let findings = audit(&acts);
    let f = findings
        .iter()
        .find(|f| f.code == "USERACT-HISTORY-TAMPERED")
        .expect("history-tampered finding must fire");
    assert_eq!(f.severity, Some(Severity::Medium));
    assert_eq!(f.category, Category::Concealment);
}

// ── audit: USERACT-EXEC-DURING-REMOVABLE-MEDIA ────────────────────────────

#[test]
fn audit_fires_exec_during_removable_media_within_window() {
    let entries = [entry("tar czf /media/usb/out.tgz .", Some(1_000))];
    let conns = [device("USBSTOR\\Disk", Some(1_500), None)];
    let shell = ShellHistorySource::new(&entries);
    let devices = DeviceSource::new(&conns);
    let tl = build_timeline(&[&shell, &devices]);
    let findings = audit(&tl);
    assert!(findings
        .iter()
        .any(|f| f.code == "USERACT-EXEC-DURING-REMOVABLE-MEDIA"));
}

#[test]
fn audit_does_not_fire_outside_window() {
    let entries = [entry("ls", Some(1_000))];
    let conns = [device(
        "USBSTOR\\Disk",
        Some(1_000 + REMOVABLE_MEDIA_WINDOW_SECS + 1),
        None,
    )];
    let shell = ShellHistorySource::new(&entries);
    let devices = DeviceSource::new(&conns);
    let tl = build_timeline(&[&shell, &devices]);
    let findings = audit(&tl);
    assert!(findings
        .iter()
        .all(|f| f.code != "USERACT-EXEC-DURING-REMOVABLE-MEDIA"));
}

#[test]
fn audit_does_not_fire_for_non_mass_storage_device() {
    // A Bluetooth HID device is NOT mass storage → no exec-during-media finding.
    let entries = [entry("ls", Some(1_000))];
    let conns = [device("BTHENUM\\Dev", Some(1_000), None)];
    let shell = ShellHistorySource::new(&entries);
    let devices = DeviceSource::new(&conns);
    let tl = build_timeline(&[&shell, &devices]);
    let findings = audit(&tl);
    assert!(findings
        .iter()
        .all(|f| f.code != "USERACT-EXEC-DURING-REMOVABLE-MEDIA"));
}

#[test]
fn audit_with_custom_source_stamps_scope() {
    let entries = [entry("history -c", Some(1))];
    let acts = from_shell_history(&entries, None);
    let findings = audit_with(&acts, &source("CASE-001/host-7"));
    let f = &findings[0];
    assert_eq!(f.source.scope, "CASE-001/host-7");
    assert_eq!(f.source.analyzer, "useract-forensic");
}

// ── findings are observations, never verdicts ─────────────────────────────

#[test]
fn findings_are_hedged_observations_never_verdicts() {
    let entries = [
        entry("unset HISTFILE", Some(1_000)),
        entry("cp x /media/usb", Some(1_010)),
    ];
    let conns = [device("USBSTOR\\Disk", Some(1_005), None)];
    let shell = ShellHistorySource::new(&entries);
    let devices = DeviceSource::new(&conns);
    let tl = build_timeline(&[&shell, &devices]);
    let findings = audit(&tl);
    assert!(!findings.is_empty());
    for f in &findings {
        let note = f.note.to_ascii_lowercase();
        assert!(!note.contains("proves"));
        assert!(!note.contains("confirms"));
        assert!(!note.contains("definitely"));
        assert!(note.contains("consistent with"));
    }
}

// ── volume-serial join seam ────────────────────────────────────────────────

#[test]
fn volume_serial_join_is_empty_for_v01_sources() {
    let conns = [device("USBSTOR\\Disk", Some(1), Some(0x1234))];
    let acts = from_device_connections(&conns);
    assert!(device_file_volume_joins(&acts).is_empty());
}

#[test]
fn volume_serial_join_lights_up_for_a_v02_style_file_event() {
    let conns = [device("USBSTOR\\Disk", Some(1), Some(0x1234))];
    let mut acts = from_device_connections(&conns);
    acts.push(UserActivity {
        timestamp: Some(2),
        actor: None,
        action: Action::Accessed,
        subject: Subject::File("\\\\?\\E:\\secret.docx".to_string()),
        source: SourceKind::PeripheralDevice,
        detail: "opened E:\\secret.docx vol:4660".to_string(), // 0x1234 == 4660
    });
    let joins = device_file_volume_joins(&acts);
    assert_eq!(joins, vec![(0, 1)]);
}

#[test]
fn volume_serial_join_ignores_mismatched_serials() {
    let conns = [device("USBSTOR\\Disk", Some(1), Some(0x1234))];
    let mut acts = from_device_connections(&conns);
    acts.push(UserActivity {
        timestamp: Some(2),
        actor: None,
        action: Action::Accessed,
        subject: Subject::File("x".to_string()),
        source: SourceKind::PeripheralDevice,
        detail: "vol:9999".to_string(),
    });
    assert!(device_file_volume_joins(&acts).is_empty());
}

#[test]
fn volume_serial_join_skips_files_without_a_volume_token() {
    let conns = [device("USBSTOR\\Disk", Some(1), Some(0x1234))];
    let mut acts = from_device_connections(&conns);
    acts.push(UserActivity {
        timestamp: Some(2),
        actor: None,
        action: Action::Accessed,
        subject: Subject::Folder("E:\\photos".to_string()),
        source: SourceKind::PeripheralDevice,
        detail: "opened folder with no serial hint".to_string(),
    });
    acts.push(UserActivity {
        timestamp: Some(3),
        actor: None,
        action: Action::Accessed,
        subject: Subject::File("E:\\x".to_string()),
        source: SourceKind::PeripheralDevice,
        detail: "vol:notanumber".to_string(),
    });
    assert!(device_file_volume_joins(&acts).is_empty());
}

#[test]
fn history_tampered_finding_falls_back_to_detail_for_non_command_subject() {
    let act = UserActivity {
        timestamp: Some(1),
        actor: None,
        action: Action::HistoryTampered,
        subject: Subject::File("ConsoleHost_history.txt".to_string()),
        source: SourceKind::ShellHistory,
        detail: "Remove-Item ConsoleHost_history.txt".to_string(),
    };
    let findings = audit(&[act]);
    assert_eq!(findings.len(), 1);
    assert_eq!(findings[0].code, "USERACT-HISTORY-TAMPERED");
    assert!(findings[0]
        .note
        .contains("Remove-Item ConsoleHost_history.txt"));
}

#[test]
fn is_mass_storage_id_classifies_bare_and_separated_ids() {
    assert!(is_mass_storage_id("USBSTOR\\Disk&Ven"));
    assert!(is_mass_storage_id("USBSTOR"));
    assert!(!is_mass_storage_id("BTHENUM\\Dev"));
    assert!(!is_mass_storage_id(""));
}

#[test]
fn activitysource_trait_dispatches() {
    let entries = [entry("ls", Some(1))];
    let s = ShellHistorySource::for_actor(&entries, "bob");
    let acts: Vec<UserActivity> = s.activities();
    assert_eq!(acts[0].actor.as_deref(), Some("bob"));
}
