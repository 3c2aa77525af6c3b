use agent_workbench::acp::client::{handle_incoming, initialize_params, spawn_error, IncomingAction};
use agent_workbench::acp::probe::{probe_override, probe_search, version_from_output};
use agent_workbench::acp::types::{AdvertisedMenus, ConfigOption, ModelSwitchOutcome};
use agent_workbench::acp::client::{model_switch_precheck, model_switch_result};
use agent_workbench::json::{Json, JsonNumber};
use agent_workbench::memory::{object1, object2, object3};
use agent_workbench::store::Db;
use agent_workbench::types::JournalKind;

fn id(n: u64) -> Json {
    Json::Number(JsonNumber::PosInt(n))
}

fn permission_request(n: u64, op: &str) -> Json {
    let params = object2("sessionId", Json::text("sess"), "toolCall", object2("toolCallId", Json::text("call_1"), "kind", Json::text(op)));
    object3("id", id(n), "method", Json::text("session/request_permission"), "params", params)
}

fn outcome(reply: &Json) -> (String, String) {
    let o = reply.get("result").and_then(|r| r.get("outcome")).unwrap();
    (
        o.get("outcome").and_then(|v| v.as_str()).unwrap().to_string(),
        o.get("optionId").and_then(|v| v.as_str()).unwrap().to_string(),
    )
}

#[test]
fn open_code_bin_override_missing_is_not_available() {
    let probe = probe_override("/definitely/not/a/real/opencode-binary-xyz", false, None);
    assert!(!probe.available);
    assert_eq!(probe.source, "OPENCODE_BIN_missing");
    assert!(probe.path.as_ref().unwrap().contains("opencode-binary-xyz"));
}

#[test]
fn open_code_bin_override_empty_is_not_available() {
    let probe = probe_override("   ", false, None);
    assert!(!probe.available);
    assert_eq!(probe.source, "OPENCODE_BIN_missing");
    assert!(probe.path.is_none());
}

#[test]
fn probe_reports_what_was_found() {
    let p = probe_override("  /usr/bin/opencode ", true, Some("1.2.3".to_string()));
    assert!(p.available);
    assert_eq!(p.path.as_deref(), Some("/usr/bin/opencode"));
    assert_eq!(p.source, "OPENCODE_BIN");
    let s = probe_search(Some("/bin/opencode".to_string()), None);
    assert!(s.available && s.source == "PATH");
    let m = probe_search(None, Some("ignored".to_string()));
    assert!(!m.available && m.source == "missing" && m.version.is_none());
    assert_eq!(m.path_buf(), None);
}

#[test]
fn version_is_first_trimmed_line() {
    assert_eq!(version_from_output(true, "  opencode 0.3.1 \nmore\n").as_deref(), Some("opencode 0.3.1"));
    assert_eq!(version_from_output(true, "\n"), None);
    assert_eq!(version_from_output(false, "1.0"), None);
}

#[test]
fn unremembered_permission_is_denied_and_journaled() {
    let mut db = Db::open_in_memory();
    let action = handle_incoming(&mut db.journal, &mut db.permissions, true, Some("sess"), &permission_request(7, "edit")).unwrap();
    match action {
        IncomingAction::Reply { reply, events } => {
            assert_eq!(outcome(&reply), ("cancelled".to_string(), "reject-once".to_string()));
            assert_eq!(reply.get("id").and_then(|v| v.as_u64()), Some(7));
            assert_eq!(events.len(), 1);
        }
        other => panic!("{other:?}"),
    }
    let kinds: Vec<String> = db.journal.list_since(0, 10).unwrap().into_iter().map(|e| e.kind).collect();
    assert_eq!(kinds, vec!["permission_requested", "permission_resolved"]);
}

#[test]
fn remembered_permission_is_allowed_for_its_op_type_only() {
    let mut db = Db::open_in_memory();
    db.permissions.remember("fs_write", true).unwrap();
    let a = handle_incoming(&mut db.journal, &mut db.permissions, true, None, &permission_request(1, "fs_write")).unwrap();
    match a {
        IncomingAction::Reply { reply, .. } => assert_eq!(outcome(&reply).0, "selected"),
        other => panic!("{other:?}"),
    }
    let b = handle_incoming(&mut db.journal, &mut db.permissions, true, None, &permission_request(2, "exec")).unwrap();
    match b {
        IncomingAction::Reply { reply, .. } => assert_eq!(outcome(&reply).1, "reject-once"),
        other => panic!("{other:?}"),
    }
}

#[test]
fn no_store_means_deny() {
    let mut db = Db::open_in_memory();
    db.permissions.remember("edit", true).unwrap();
    let a = handle_incoming(&mut db.journal, &mut db.permissions, false, None, &permission_request(3, "edit")).unwrap();
    match a {
        IncomingAction::Reply { reply, .. } => assert_eq!(outcome(&reply).0, "cancelled"),
        other => panic!("{other:?}"),
    }
    assert_eq!(db.journal.latest_seq().unwrap(), 0);
}

#[test]
fn session_updates_are_journaled_and_passed_on() {
    let mut db = Db::open_in_memory();
    let update = object2("sessionUpdate", Json::text("agent_message_chunk"), "content", object1("text", Json::text("hello")));
    let msg = object2("method", Json::text("session/update"), "params", object1("update", update));
    match handle_incoming(&mut db.journal, &mut db.permissions, true, None, &msg).unwrap() {
        IncomingAction::Emit { events } => assert_eq!(events.len(), 1),
        other => panic!("{other:?}"),
    }
    let ev = db.journal.find_by_kind(JournalKind::SessionUpdate).unwrap();
    assert_eq!(ev[0].payload.get("kind").and_then(|v| v.as_str()), Some("message"));
    assert_eq!(ev[0].payload.get("text").and_then(|v| v.as_str()), Some("hello"));
    // An extension update is ignored and not journaled.
    let ext = object2("method", Json::text("session/update"), "params",
        object1("update", object1("sessionUpdate", Json::text("_x"))));
    match handle_incoming(&mut db.journal, &mut db.permissions, true, None, &ext).unwrap() {
        IncomingAction::Emit { events } => assert!(events.is_empty()),
        other => panic!("{other:?}"),
    }
    assert_eq!(db.journal.latest_seq().unwrap(), 1);
}

#[test]
fn replies_requests_and_unknown_methods() {
    let mut db = Db::open_in_memory();
    let reply = object2("id", id(4), "result", object1("ok", Json::Bool(true)));
    match handle_incoming(&mut db.journal, &mut db.permissions, true, None, &reply).unwrap() {
        IncomingAction::Deliver { id, result } => {
            assert_eq!(id, 4);
            assert!(result.is_ok());
        }
        other => panic!("{other:?}"),
    }
    let failed = object2("id", id(5), "error", object1("code", Json::Number(JsonNumber::NegInt(-1))));
    assert!(matches!(handle_incoming(&mut db.journal, &mut db.permissions, true, None, &failed).unwrap(),
        IncomingAction::Deliver { result: Err(_), .. }));
    let unknown = object2("id", id(6), "method", Json::text("fs/read_text_file"));
    match handle_incoming(&mut db.journal, &mut db.permissions, true, None, &unknown).unwrap() {
        IncomingAction::Reply { reply, events } => {
            assert!(events.is_empty());
            let err = reply.get("error").unwrap();
            assert_eq!(err.get("message").and_then(|v| v.as_str()), Some("method not found: fs/read_text_file"));
        }
        other => panic!("{other:?}"),
    }
    let ext = object2("id", id(7), "method", Json::text("_vendor/ping"));
    assert!(matches!(handle_incoming(&mut db.journal, &mut db.permissions, true, None, &ext).unwrap(), IncomingAction::Ignore));
    let note = object1("method", Json::text("other/notice"));
    assert!(matches!(handle_incoming(&mut db.journal, &mut db.permissions, true, None, &note).unwrap(), IncomingAction::Ignore));
}

#[test]
fn unadvertised_model_switch_requires_new_session() {
    let menus = AdvertisedMenus::empty();
    match model_switch_precheck(&menus, "model") {
        Some(ModelSwitchOutcome::RequireNewSessionWithSummary { reason }) => {
            assert!(reason.contains("not advertised"));
        }
        other => panic!("{other:?}"),
    }
    let m = ConfigOption {
        id: "model".to_string(),
        name: "Model".to_string(),
        category: Some("model".to_string()),
        option_type: "select".to_string(),
        current_value: None,
        options: vec![],
    };
    let menus = AdvertisedMenus::from_options(&[m]);
    assert!(model_switch_precheck(&menus, "model").is_none());
    assert!(matches!(model_switch_result(None), ModelSwitchOutcome::Applied));
    assert!(matches!(model_switch_result(Some("boom")), ModelSwitchOutcome::RequireNewSessionWithSummary { .. }));
}

#[test]
fn client_messages() {
    let p = initialize_params();
    assert_eq!(p.get("protocolVersion").and_then(|v| v.as_u64()), Some(1));
    match spawn_error("opencode", "not found") {
        agent_workbench::error::CoreError::Other(m) => {
            assert_eq!(m, "failed to spawn opencode: not found. Is OpenCode installed? Use mock agent for CI.")
        }
        other => panic!("{other:?}"),
    }
}

#[test]
fn permission_request_writes_one_resolved_row_and_no_standing_grant() {
    let mut db = Db::open_in_memory();
    handle_incoming(&mut db.journal, &mut db.permissions, true, Some("sess"), &permission_request(7, "edit")).unwrap();
    let rows = db.permissions.snapshot();
    assert_eq!(rows.len(), 1);
    assert_eq!(rows[0].id, 1);
    assert_eq!(rows[0].op_type, "edit");
    assert_eq!(rows[0].status, "denied");
    assert!(!rows[0].remembered);
    assert_eq!(db.permissions.lookup_remembered("edit").unwrap(), None);
    let evs = db.journal.list_since(0, 10).unwrap();
    assert_eq!(evs[0].payload.get("permission_id").and_then(|v| v.as_u64()), Some(1));
    assert_eq!(evs[0].payload.member_text("session_id"), Some("sess"));
    assert_eq!(evs[1].payload.get("allow").and_then(|v| v.as_bool()), Some(false));
    assert_eq!(evs[1].payload.get("remembered").and_then(|v| v.as_bool()), Some(false));
}
