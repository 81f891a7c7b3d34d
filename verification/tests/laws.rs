use useract_forensic::{
    audit, audit_with, build_timeline, device_file_volume_joins, file_volume_serial,
    from_device_connections, from_shell_history, is_history_tamper, is_mass_storage_id, source,
    Action, ActivitySource, Category, DeviceRecord, DeviceSource, Evidence, Severity, ShellEntry,
    ShellHistorySource, SourceKind, Subject, UserActivity,
};

fn entry(cmd: &str, ts: Option<i64>) -> ShellEntry {
    ShellEntry {
        command: cmd.to_string(),
        timestamp: ts,
    }
}

fn device(instance_id: &str, first_install: Option<i64>, vol: Option<u32>) -> DeviceRecord {
    DeviceRecord {
        device_instance_id: instance_id.to_string(),
        volume_serial: vol,
        first_install,
        last_install: None,
        last_arrival: None,
    }
}

fn file_event(detail: &str) -> UserActivity {
    UserActivity {
        timestamp: None,
        actor: None,
        action: Action::Accessed,
        subject: Subject::File("f".to_string()),
        source: SourceKind::PeripheralDevice,
        detail: detail.to_string(),
    }
}

#[test]
fn tamper_recognition_ignores_case_and_surrounding_space() {
    assert!(is_history_tamper("UNSET histfile"));
    assert!(is_history_tamper("  HISTSIZE=0  "));
    assert!(is_history_tamper("Remove-Item (Get-PSReadlineOption).HistorySavePath ConsoleHost_history.txt"));
    assert!(is_history_tamper("> ~/.bash_history"));
    assert!(is_history_tamper("\t> ~/.zsh_history"));
    assert!(is_history_tamper("history -c"));
    assert!(is_history_tamper("fc -p; history-c"));
    assert!(!is_history_tamper("echo history"));
    assert!(!is_history_tamper("rm notes.txt"));
    assert!(!is_history_tamper(""));
}

#[test]
fn tamper_trim_is_unicode_whitespace() {
    // A no-break space is trimmed like an ASCII space before the `> ` prefix test.
    assert!(is_history_tamper("\u{a0}> history.log"));
    assert!(!is_history_tamper("x> history.log"));
}

#[test]
fn device_timestamp_prefers_first_install_then_arrival_then_install() {
    let mut d = device("USB\\X", Some(5), None);
    d.last_arrival = Some(6);
    d.last_install = Some(7);
    assert_eq!(from_device_connections(&[d.clone()])[0].timestamp, Some(5));
    d.first_install = None;
    assert_eq!(from_device_connections(&[d.clone()])[0].timestamp, Some(6));
    d.last_arrival = None;
    assert_eq!(from_device_connections(&[d])[0].timestamp, Some(7));
}

#[test]
fn device_activity_detail_is_the_instance_id() {
    let acts = from_device_connections(&[device("SD\\Card", Some(1), Some(9))]);
    assert_eq!(acts[0].detail, "SD\\Card");
    assert_eq!(acts[0].actor, None);
}

#[test]
fn shell_activity_keeps_entry_order_and_count() {
    let entries = [entry("a", Some(3)), entry("b", None), entry("history -c", Some(1))];
    let acts = from_shell_history(&entries, Some("eve"));
    assert_eq!(acts.len(), 3);
    let details: Vec<&str> = acts.iter().map(|a| a.detail.as_str()).collect();
    assert_eq!(details, vec!["a", "b", "history -c"]);
    assert_eq!(acts[2].action, Action::HistoryTampered);
    assert!(acts.iter().all(|a| a.actor.as_deref() == Some("eve")));
}

#[test]
fn timeline_is_a_stable_permutation() {
    let entries = [
        entry("t5a", Some(5)),
        entry("none1", None),
        entry("t1", Some(1)),
        entry("t5b", Some(5)),
        entry("max", Some(i64::MAX)),
        entry("none2", None),
        entry("neg", Some(-7)),
    ];
    let shell = ShellHistorySource::new(&entries);
    let tl = build_timeline(&[&shell]);
    let details: Vec<&str> = tl.iter().map(|a| a.detail.as_str()).collect();
    assert_eq!(
        details,
        vec!["neg", "t1", "t5a", "t5b", "max", "none1", "none2"]
    );
}

#[test]
fn timeline_keeps_source_order_across_sources_for_equal_stamps() {
    let entries = [entry("shell", Some(10))];
    let conns = [device("USB\\A", Some(10), None)];
    let shell = ShellHistorySource::new(&entries);
    let devices = DeviceSource::new(&conns);
    let tl = build_timeline(&[&devices, &shell]);
    assert_eq!(tl[0].source, SourceKind::PeripheralDevice);
    assert_eq!(tl[1].source, SourceKind::ShellHistory);
    let empty: [&dyn ActivitySource; 0] = [];
    assert!(build_timeline(&empty).is_empty());
}

#[test]
fn volume_hint_reads_the_first_parsable_vol_token() {
    assert_eq!(file_volume_serial(&file_event("vol:x vol:+12 vol:7")), Some(12));
    assert_eq!(file_volume_serial(&file_event("vol:4294967295")), Some(u32::MAX));
    assert_eq!(file_volume_serial(&file_event("vol:4294967296")), None);
    assert_eq!(file_volume_serial(&file_event("vol:-1 vol:")), None);
    assert_eq!(file_volume_serial(&file_event("xvol:5")), None);
    assert_eq!(file_volume_serial(&file_event("\tvol:007\u{2003}")), Some(7));
    assert_eq!(file_volume_serial(&file_event("")), None);
}

#[test]
fn volume_join_pairs_every_matching_device_and_file() {
    let mut acts = from_device_connections(&[
        device("USBSTOR\\A", Some(1), Some(4660)),
        device("USBSTOR\\B", Some(1), None),
        device("USBSTOR\\C", Some(1), Some(4660)),
    ]);
    acts.push(file_event("vol:4660"));
    let mut folder = file_event("see vol:4660");
    folder.subject = Subject::Folder("E:\\".to_string());
    acts.push(folder);
    let mut query = file_event("vol:4660");
    query.subject = Subject::Query("q".to_string());
    acts.push(query);
    assert_eq!(
        device_file_volume_joins(&acts),
        vec![(0, 3), (0, 4), (2, 3), (2, 4)]
    );
}

#[test]
fn mass_storage_classification_is_case_and_space_insensitive() {
    assert!(is_mass_storage_id(" usbstor \\Disk"));
    assert!(is_mass_storage_id("nvme\\x"));
    assert!(is_mass_storage_id("SCSI"));
    assert!(!is_mass_storage_id("1394\\dev"));
    assert!(!is_mass_storage_id("WpdBusEnumRoot\\phone"));
    assert!(!is_mass_storage_id("\\USBSTOR"));
}

#[test]
fn history_finding_is_exact() {
    let acts = from_shell_history(&[entry("history -c \"x\"", Some(3))], None);
    let f = &audit(&acts)[0];
    assert_eq!(f.severity, Some(Severity::Medium));
    assert_eq!(f.category, Category::Concealment);
    assert_eq!(
        f.note,
        "user activity \"history -c \\\"x\\\"\" disables or clears the activity record; consistent with anti-forensic history tampering (MITRE T1070.003)"
    );
    assert_eq!(
        f.evidence,
        vec![Evidence {
            field: "command".to_string(),
            value: "history -c \"x\"".to_string()
        }]
    );
    assert_eq!(f.mitre, vec!["T1070.003".to_string()]);
    assert_eq!(f.source, source("host"));
    assert_eq!(f.source.version.as_deref(), Some("0.1.0"));
}

#[test]
fn media_finding_is_exact_and_window_is_inclusive() {
    let entries = [entry("cp a /mnt", Some(-100))];
    let conns = [device("USBSTOR\\Disk", Some(-100 - 3600), None)];
    let shell = ShellHistorySource::new(&entries);
    let devices = DeviceSource::new(&conns);
    let tl = build_timeline(&[&shell, &devices]);
    let findings = audit_with(&tl, &source("case"));
    assert_eq!(findings.len(), 1);
    let f = &findings[0];
    assert_eq!(f.code, "USERACT-EXEC-DURING-REMOVABLE-MEDIA");
    assert_eq!(f.severity, Some(Severity::Low));
    assert_eq!(f.category, Category::Threat);
    assert_eq!(
        f.note,
        "the command \"cp a /mnt\" ran within 3600s of removable mass-storage device \"USBSTOR\\\\Disk\" being connected; consistent with activity involving external media (MITRE T1052 / T1091)"
    );
    let rows: Vec<(&str, &str)> = f
        .evidence
        .iter()
        .map(|e| (e.field.as_str(), e.value.as_str()))
        .collect();
    assert_eq!(
        rows,
        vec![
            ("command", "cp a /mnt"),
            ("device", "USBSTOR\\Disk"),
            ("command_epoch", "-100"),
            ("device_epoch", "-3700"),
        ]
    );
    assert_eq!(f.mitre, vec!["T1052".to_string(), "T1091".to_string()]);
    assert_eq!(f.source.scope, "case");
}

#[test]
fn media_finding_cites_the_first_device_in_window_and_extreme_epochs_do_not_overflow() {
    let entries = [entry("run", Some(i64::MAX))];
    let conns = [
        device("USBSTOR\\far", Some(i64::MIN), None),
        device("USBSTOR\\one", Some(i64::MAX - 10), None),
        device("USBSTOR\\two", Some(i64::MAX), None),
    ];
    let shell = ShellHistorySource::new(&entries);
    let devices = DeviceSource::new(&conns);
    let tl = build_timeline(&[&devices, &shell]);
    let findings = audit(&tl);
    assert_eq!(findings.len(), 1);
    assert!(findings[0].evidence[1].value == "USBSTOR\\one");
    assert_eq!(findings[0].evidence[3].value, (i64::MAX - 10).to_string());
}

#[test]
fn untimestamped_or_non_command_activity_draws_no_media_finding() {
    let entries = [entry("ls", None)];
    let mut acts = from_shell_history(&entries, None);
    acts.extend(from_device_connections(&[device("USBSTOR\\D", Some(0), None)]));
    let mut typed = acts[0].clone();
    typed.timestamp = Some(0);
    typed.action = Action::Typed;
    acts.push(typed);
    assert!(audit(&acts).is_empty());
}
