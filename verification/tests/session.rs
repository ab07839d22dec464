use virtual_core::model::{Arch, DiskRef, Machine, Snapshot};
use virtual_core::qmp::{parse_line, Json};
use virtual_core::session::{
    exit_error, find_snapshot, first_disk, handle_event, hmp_outcome, log_tail, next_slot, nvram_size, push_log_line,
    qemu_snapshot_tag, qmp_endpoint, remove_snapshot, reply_to, slot_name, snapshot_record, state_after_connect,
    state_from_status, stopped_status, Reply, LOG_LINES,
};

fn snap(id: &str, tag: &str) -> Snapshot {
    Snapshot { id: id.into(), tag: tag.into(), ..Snapshot::default() }
}

#[test]
fn stopped_machines_report_stopped() {
    let s = stopped_status("m1");
    assert_eq!(s.id, "m1");
    assert_eq!(s.state, "stopped");
    assert!(s.pid.is_none() && s.since.is_none() && s.error.is_none());
}

#[test]
fn events_move_the_state() {
    let mut st = "running".to_string();
    handle_event(&mut st, "STOP");
    assert_eq!(st, "paused");
    handle_event(&mut st, "SHUTDOWN");
    assert_eq!(st, "paused");
    handle_event(&mut st, "RESUME");
    assert_eq!(st, "running");
}

#[test]
fn replies_are_matched_by_id() {
    let want = Some("status".to_string());
    match reply_to(parse_line(r#"{"return": {"status": "paused"}, "id": "status"}"#), &want) {
        Reply::Answer(v) => assert_eq!(virtual_core::qmp::status_from_return(&v), "paused"),
        _ => panic!("Antwort erwartet"),
    }
    assert!(matches!(reply_to(parse_line(r#"{"return": {}, "id": "other"}"#), &want), Reply::Other));
    match reply_to(parse_line(r#"{"error": {"class": "GenericError", "desc": "kaputt"}, "id": "status"}"#), &want) {
        Reply::Failed(d) => assert_eq!(d, "kaputt"),
        _ => panic!("Fehler erwartet"),
    }
    match reply_to(parse_line(r#"{"event": "STOP"}"#), &want) {
        Reply::Event(n) => assert_eq!(n, "STOP"),
        _ => panic!("Ereignis erwartet"),
    }
    assert!(matches!(reply_to(None, &want), Reply::Other));
    assert!(matches!(reply_to(parse_line(r#"{"return": 1}"#), &None), Reply::Answer(_)));
}

#[test]
fn human_monitor_answers() {
    assert_eq!(hmp_outcome(&Json::Str("  \n".into())), Ok(String::new()));
    assert_eq!(hmp_outcome(&Json::Str("Error: no block device\r\n".into())), Err("Error: no block device".into()));
    assert_eq!(hmp_outcome(&Json::Str("savevm failed".into())), Err("savevm failed".into()));
    assert_eq!(hmp_outcome(&Json::Null), Ok(String::new()));
}

#[test]
fn states_from_qemu_status() {
    assert_eq!(state_from_status("prelaunch"), "paused");
    assert_eq!(state_from_status("guest-panicked"), "stopped");
    assert_eq!(state_from_status("running"), "running");
    assert_eq!(state_from_status("inmigrate"), "running");
    assert_eq!(state_after_connect("paused"), "paused");
    assert_eq!(state_after_connect("debug"), "running");
}

#[test]
fn qmp_endpoints() {
    assert_eq!(qmp_endpoint("/vm/a", None), "/vm/a/qmp.sock");
    assert_eq!(qmp_endpoint("/vm/a", Some(4444)), "tcp:127.0.0.1:4444");
}

#[test]
fn snapshot_disk_must_be_qcow2() {
    let mut m = Machine::default();
    assert_eq!(first_disk(&m, "/vm/a").unwrap_err(), "Maschine hat keine Platte — Snapshots brauchen eine qcow2-Platte");
    m.disks.push(DiskRef { format: "raw".into(), ..DiskRef::default() });
    assert_eq!(first_disk(&m, "/vm/a").unwrap_err(), "Snapshots brauchen qcow2, die Platte ist raw");
    m.disks[0].format = "qcow2".into();
    assert_eq!(first_disk(&m, "/vm/a").unwrap(), "/vm/a/disk-0.qcow2");
    m.disks[0].path = "/abs/d.qcow2".into();
    assert_eq!(first_disk(&m, "/vm/a").unwrap(), "/abs/d.qcow2");
}

#[test]
fn snapshot_records_chain_and_name() {
    let existing = vec![snap("s1", "vs-1")];
    let tag = qemu_snapshot_tag("abcd1234");
    assert_eq!(tag, "vs-abcd1234");
    let s = snapshot_record("s2", "m1", &existing, "  ", &tag, "n", "2026", "internal", &tag);
    assert_eq!(s.parent_id.as_deref(), Some("s1"));
    assert_eq!(s.name, "vs-abcd1234");
    assert_eq!(s.kind, "internal");
    let t = snapshot_record("s3", "m1", &Vec::new(), " Vor Update ", "x", "", "now", "state", "0");
    assert!(t.parent_id.is_none());
    assert_eq!(t.name, "Vor Update");
    assert_eq!(slot_name(3), "Slot 3");
}

#[test]
fn next_slot_follows_the_highest() {
    assert_eq!(next_slot(&Vec::new()), 0);
    assert_eq!(next_slot(&vec![snap("a", "vs-x"), snap("b", "4"), snap("c", "1")]), 5);
    assert_eq!(next_slot(&vec![snap("a", "4294967295")]), 0);
}

#[test]
fn snapshots_found_and_removed() {
    let all = vec![snap("a", "1"), snap("b", "2"), snap("c", "3")];
    assert_eq!(find_snapshot(all, "b").unwrap().tag, "2");
    assert_eq!(find_snapshot(vec![snap("a", "1")], "z").unwrap_err(), "Snapshot nicht gefunden");
    let rest = remove_snapshot(vec![snap("a", "1"), snap("b", "2"), snap("c", "3")], "b");
    assert_eq!(rest.iter().map(|s| s.id.as_str()).collect::<Vec<_>>(), vec!["a", "c"]);
}

#[test]
fn log_keeps_its_last_lines() {
    let mut log: Vec<String> = (0..LOG_LINES).map(|i| i.to_string()).collect();
    push_log_line(&mut log, "neu".into());
    assert_eq!(log.len(), LOG_LINES);
    assert_eq!(log[0], "1");
    assert_eq!(log.last().unwrap(), "neu");
    let text: String = (0..600).map(|i| format!("l{i}\r\n")).collect();
    let tail = log_tail(&text);
    assert_eq!(tail.len(), LOG_LINES);
    assert_eq!(tail[0], "l100");
    assert_eq!(tail.last().unwrap(), "l599");
    assert_eq!(log_tail("a\n\nb"), vec!["a", "", "b"]);
    assert!(log_tail("").is_empty());
}

#[test]
fn exit_errors_show_the_last_lines() {
    let log: Vec<String> = (1..=7).map(|i| format!("z{i}")).collect();
    assert_eq!(exit_error("exit status: 1", &log), "Engine beendet mit exit status: 1: z3 | z4 | z5 | z6 | z7");
    assert_eq!(exit_error("x", &Vec::new()), "Engine beendet mit x: ");
}

#[test]
fn nvram_sizes() {
    assert_eq!(nvram_size(Arch::Aarch64), 64 * 1024 * 1024);
    assert_eq!(nvram_size(Arch::X86_64), 540672);
}
