use agent_workbench::acp::normalize::{fixture_transcript, normalize_permission_request, normalize_session_update, NormalizedEvent};
use agent_workbench::json::Json;
use agent_workbench::memory::{object1, object2};

#[test]
fn normalizes_message_thought_tool_diff() {
    let fixtures = fixture_transcript();
    let arr = fixtures.as_array().unwrap();
    let n0 = normalize_session_update(&arr[0]);
    assert!(matches!(&n0[0], NormalizedEvent::Thought { text } if text.contains("inspect")));
    let n1 = normalize_session_update(&arr[1]);
    assert!(matches!(&n1[0], NormalizedEvent::Message { role, .. } if role == "agent"));
    let n2 = normalize_session_update(&arr[2]);
    assert!(matches!(&n2[0], NormalizedEvent::ToolCall { tool_call_id, .. } if tool_call_id == "call_1"));
    let n3 = normalize_session_update(&arr[3]);
    match &n3[0] {
        NormalizedEvent::ToolCallUpdate { diff, terminal, .. } => {
            assert!(diff.as_ref().unwrap().contains("a+b"));
            assert!(terminal.as_ref().unwrap().contains("cargo test"));
        }
        other => panic!("{other:?}"),
    }
    let n4 = normalize_session_update(&arr[4]);
    assert!(matches!(&n4[0], NormalizedEvent::Ignored { .. }));
}

#[test]
fn missing_update_is_ignored() {
    let n = normalize_session_update(&object1("sessionId", Json::text("s")));
    assert!(matches!(&n[0], NormalizedEvent::Ignored { reason, .. } if reason == "missing update field"));
}

#[test]
fn unknown_update_is_kept_as_other() {
    let update = object1("sessionUpdate", Json::text("plan"));
    let n = normalize_session_update(&object1("update", update));
    assert!(matches!(&n[0], NormalizedEvent::Other { session_update, .. } if session_update == "plan"));
}

#[test]
fn snake_case_fields_are_accepted() {
    let update = object2("session_update", Json::text("user_message_chunk"), "text", Json::text("hi"));
    let n = normalize_session_update(&object1("update", update));
    assert!(matches!(&n[0], NormalizedEvent::Message { role, text } if role == "user" && text == "hi"));
}

#[test]
fn permission_request_op_type_falls_back_to_tool_kind() {
    let tool = object2("toolCallId", Json::text("c9"), "kind", Json::text("execute"));
    let ev = normalize_permission_request(&object1("toolCall", tool));
    match ev {
        NormalizedEvent::PermissionRequest { tool_call_id, op_type, .. } => {
            assert_eq!(tool_call_id.as_deref(), Some("c9"));
            assert_eq!(op_type.as_deref(), Some("execute"));
        }
        other => panic!("{other:?}"),
    }
}
