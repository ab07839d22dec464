use virtual_core::qmp::{
    capabilities, change_medium, command, command_id, cont, eject, get, get_str, hmp_command, job_dismiss, job_state,
    message_of, parse_line, qcow2_nodes, query_block, query_jobs, query_named_block_nodes, query_status, quit,
    screendump, snapshot_delete, snapshot_load, snapshot_save, status_from_return, stop, system_powerdown,
    system_reset, take_member, Json, JsonNumber, Message,
};

fn s(x: &str) -> Json {
    Json::Str(x.into())
}

fn obj(members: Vec<(&str, Json)>) -> Json {
    Json::Object(members.into_iter().map(|(k, v)| (k.to_string(), v)).collect())
}

fn num(n: u64) -> Json {
    Json::Number(JsonNumber { unsigned: Some(n), raw: serde_json::Number::from(n) })
}

#[test]
fn builds_commands() {
    assert_eq!(capabilities(), r#"{"execute":"qmp_capabilities","id":"caps"}"#);
    let s = snapshot_save("snap1", "clean", "disk0", &["disk0".into()]);
    let v: serde_json::Value = serde_json::from_str(&s).unwrap();
    assert_eq!(v["execute"], "snapshot-save");
    assert_eq!(v["arguments"]["tag"], "clean");
    assert_eq!(v["arguments"]["devices"][0], "disk0");
}

#[test]
fn parses_greeting_return_error_event() {
    let g = parse_line(r#"{"QMP": {"version": {"qemu": {"micro": 0, "minor": 2, "major": 9}, "package": ""}, "capabilities": ["oob"]}}"#).unwrap();
    assert_eq!(g, Message::Greeting { version: "9.2.0".into() });
    let r = parse_line(r#"{"return": {"status": "running", "running": true}, "id": "status"}"#).unwrap();
    match r {
        Message::Return { id, value } => {
            assert_eq!(id.as_deref(), Some("status"));
            assert_eq!(status_from_return(&value), "running");
        }
        _ => panic!(),
    }
    let e = parse_line(r#"{"error": {"class": "GenericError", "desc": "nope"}, "id": "x"}"#).unwrap();
    assert!(matches!(e, Message::Error { class, .. } if class == "GenericError"));
    let ev = parse_line(r#"{"timestamp": {"seconds": 1, "microseconds": 2}, "event": "SHUTDOWN", "data": {"guest": true}}"#).unwrap();
    assert!(matches!(ev, Message::Event { name, .. } if name == "SHUTDOWN"));
    assert!(parse_line("garbage").is_none());
}

#[test]
fn extracts_qcow2_nodes_and_job_state() {
    let nodes = Json::Array(vec![
        obj(vec![("drv", s("qcow2")), ("node-name", s("disk0"))]),
        obj(vec![("drv", s("file")), ("node-name", s("#block123"))]),
    ]);
    assert_eq!(qcow2_nodes(&nodes), vec!["disk0".to_string()]);
    let jobs = Json::Array(vec![obj(vec![("id", s("snap1")), ("status", s("concluded")), ("type", s("snapshot-save"))])]);
    assert_eq!(job_state(&jobs, "snap1"), Some(("concluded".into(), None)));
    assert_eq!(job_state(&jobs, "other"), None);
}

#[test]
fn fixed_commands_carry_their_ids() {
    assert_eq!(query_status(), r#"{"execute":"query-status","id":"status"}"#);
    assert_eq!(stop(), r#"{"execute":"stop","id":"stop"}"#);
    assert_eq!(cont(), r#"{"execute":"cont","id":"cont"}"#);
    assert_eq!(system_reset(), r#"{"execute":"system_reset","id":"reset"}"#);
    assert_eq!(system_powerdown(), r#"{"execute":"system_powerdown","id":"powerdown"}"#);
    assert_eq!(quit(), r#"{"execute":"quit","id":"quit"}"#);
    assert_eq!(query_jobs(), r#"{"execute":"query-jobs","id":"jobs"}"#);
    assert_eq!(query_named_block_nodes(), r#"{"execute":"query-named-block-nodes","id":"nodes"}"#);
    assert_eq!(query_block(), r#"{"execute":"query-block","id":"block"}"#);
}

#[test]
fn commands_with_arguments() {
    assert_eq!(job_dismiss("j1"), r#"{"arguments":{"id":"j1"},"execute":"job-dismiss","id":"dismiss"}"#);
    assert_eq!(eject("ide1-cd0"), r#"{"arguments":{"force":true,"id":"ide1-cd0"},"execute":"eject","id":"eject"}"#);
    assert_eq!(screendump("/tmp/s.ppm"), r#"{"arguments":{"filename":"/tmp/s.ppm"},"execute":"screendump","id":"screendump"}"#);
    assert_eq!(
        change_medium("cd0", "/iso/a \"b\".iso"),
        r#"{"arguments":{"filename":"/iso/a \"b\".iso","format":"raw","id":"cd0","read-only-mode":"read-only"},"execute":"blockdev-change-medium","id":"medium"}"#
    );
    assert_eq!(hmp_command("savevm vs-1"), r#"{"arguments":{"command-line":"savevm vs-1"},"execute":"human-monitor-command","id":"hmp"}"#);
    assert_eq!(command("x", None, None), r#"{"execute":"x"}"#);
    let l = snapshot_load("j", "t", "disk0", &["a".into(), "b".into()]);
    assert_eq!(l, r#"{"arguments":{"devices":["a","b"],"job-id":"j","tag":"t","vmstate":"disk0"},"execute":"snapshot-load","id":"j"}"#);
    let d = snapshot_delete("j", "t", &[]);
    assert_eq!(d, r#"{"arguments":{"devices":[],"job-id":"j","tag":"t"},"execute":"snapshot-delete","id":"j"}"#);
}

#[test]
fn command_ids_are_read_back() {
    assert_eq!(command_id(&capabilities()), Some("caps".to_string()));
    assert_eq!(command_id(r#"{"execute":"x"}"#), None);
    assert_eq!(command_id("no json"), None);
}

#[test]
fn messages_from_values() {
    let g = message_of(obj(vec![("QMP", obj(vec![("version", obj(vec![("qemu", obj(vec![("major", num(8))]))]))]))]));
    assert_eq!(g, Some(Message::Greeting { version: "8.0.0".into() }));
    let bare = message_of(obj(vec![("QMP", obj(vec![]))]));
    assert_eq!(bare, Some(Message::Greeting { version: String::new() }));
    let e = message_of(obj(vec![("error", obj(vec![]))]));
    assert_eq!(e, Some(Message::Error { id: None, class: String::new(), desc: String::new() }));
    let ev = message_of(obj(vec![("event", s("STOP"))]));
    assert_eq!(ev, Some(Message::Event { name: "STOP".into(), data: Json::Null }));
    assert_eq!(message_of(obj(vec![("event", num(1))])), None);
    assert_eq!(message_of(Json::Array(vec![])), None);
}

#[test]
fn members_are_found_by_key() {
    let v = obj(vec![("a", s("x")), ("b", num(2))]);
    assert_eq!(get_str(&v, "a"), Some("x"));
    assert_eq!(get_str(&v, "b"), None);
    assert!(get(&v, "c").is_none());
    assert_eq!(take_member(v, "b"), Some(num(2)));
    assert_eq!(status_from_return(&obj(vec![])), "unknown");
}
