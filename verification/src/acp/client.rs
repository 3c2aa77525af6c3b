//! The decisions of the agent client: what to send, how to answer a
//! permission request, how to journal session updates, and what a model
//! switch amounts to. The process and its byte streams live with the caller.

use vstd::prelude::*;
use vstd::string::*;
use crate::acp::normalize::{NormalizedEvent, NormalizedEventV, normalize_permission_request, normalized_permission, get_either, opt_as_str, opt_str_view};
use crate::acp::types::{AdvertisedMenus, ModelSwitchOutcome};
use crate::error::{CoreError, join2};
use crate::journal::{appended_events, lemma_appended_events_none, lemma_appended_events_push, opt_str_ref_view, EventItem, Journal, JournalEventV};
use crate::json::{Json, JsonV, JsonNumber, JsonNumberV, member};
use crate::memory::{object2, object3};
use crate::permissions::{PermissionStore, PermissionV, decision, decision_status, latest_remembered, requested_json, resolved_json};
use crate::text::str_eq;
use crate::types::JournalKind;

verus! {

// ---------------------------------------------------------------------
// Serialized shape of normalized events (internally tagged by `kind`).
// ---------------------------------------------------------------------

pub open spec fn jstr(s: Seq<char>) -> JsonV {
    JsonV::Str(s)
}

pub open spec fn jopt(o: Option<Seq<char>>) -> JsonV {
    match o {
        Some(s) => JsonV::Str(s),
        None => JsonV::Null,
    }
}

/// The JSON form of a normalized event: `kind` first, then its fields.
pub open spec fn event_json(ev: NormalizedEventV) -> JsonV {
    match ev {
        NormalizedEventV::Message { role, text } => JsonV::Object(seq![
            ("kind"@, jstr("message"@)), ("role"@, jstr(role)), ("text"@, jstr(text))]),
        NormalizedEventV::Thought { text } => JsonV::Object(seq![("kind"@, jstr("thought"@)), ("text"@, jstr(text))]),
        NormalizedEventV::ToolCall { tool_call_id, title, tool_kind, status } => JsonV::Object(seq![
            ("kind"@, jstr("tool_call"@)), ("tool_call_id"@, jstr(tool_call_id)), ("title"@, jstr(title)),
            ("tool_kind"@, jopt(tool_kind)), ("status"@, jopt(status))]),
        NormalizedEventV::ToolCallUpdate { tool_call_id, status, diff, terminal } => JsonV::Object(seq![
            ("kind"@, jstr("tool_call_update"@)), ("tool_call_id"@, jstr(tool_call_id)), ("status"@, jopt(status)),
            ("diff"@, jopt(diff)), ("terminal"@, jopt(terminal))]),
        NormalizedEventV::Diff { path, diff } => JsonV::Object(seq![
            ("kind"@, jstr("diff"@)), ("path"@, jopt(path)), ("diff"@, jstr(diff))]),
        NormalizedEventV::PermissionRequest { request_id, tool_call_id, op_type, raw } => JsonV::Object(seq![
            ("kind"@, jstr("permission_request"@)), ("request_id"@, jopt(request_id)),
            ("tool_call_id"@, jopt(tool_call_id)), ("op_type"@, jopt(op_type)), ("raw"@, raw)]),
        NormalizedEventV::ConfigOptionUpdate { options } => JsonV::Object(seq![
            ("kind"@, jstr("config_option_update"@)), ("options"@, options)]),
        NormalizedEventV::Ignored { reason, raw } => JsonV::Object(seq![
            ("kind"@, jstr("ignored"@)), ("reason"@, jstr(reason)), ("raw"@, raw)]),
        NormalizedEventV::Other { session_update, raw } => JsonV::Object(seq![
            ("kind"@, jstr("other"@)), ("session_update"@, jstr(session_update)), ("raw"@, raw)]),
    }
}

/// The journaled JSON of an event carries its kind under `kind` and each
/// field under its own name.
pub proof fn lemma_event_json_fields(ev: NormalizedEventV)
    ensures
        match ev {
            NormalizedEventV::Message { role, text } => {
                &&& event_json(ev).get("kind"@) == Some(jstr("message"@))
                &&& event_json(ev).get("role"@) == Some(jstr(role))
                &&& event_json(ev).get("text"@) == Some(jstr(text))
            },
            NormalizedEventV::Thought { text } => {
                &&& event_json(ev).get("kind"@) == Some(jstr("thought"@))
                &&& event_json(ev).get("text"@) == Some(jstr(text))
            },
            NormalizedEventV::ToolCall { tool_call_id, title, tool_kind, status } => {
                &&& event_json(ev).get("kind"@) == Some(jstr("tool_call"@))
                &&& event_json(ev).get("tool_call_id"@) == Some(jstr(tool_call_id))
                &&& event_json(ev).get("title"@) == Some(jstr(title))
                &&& event_json(ev).get("tool_kind"@) == Some(jopt(tool_kind))
                &&& event_json(ev).get("status"@) == Some(jopt(status))
            },
            NormalizedEventV::ToolCallUpdate { tool_call_id, status, diff, terminal } => {
                &&& event_json(ev).get("kind"@) == Some(jstr("tool_call_update"@))
                &&& event_json(ev).get("tool_call_id"@) == Some(jstr(tool_call_id))
                &&& event_json(ev).get("status"@) == Some(jopt(status))
                &&& event_json(ev).get("diff"@) == Some(jopt(diff))
                &&& event_json(ev).get("terminal"@) == Some(jopt(terminal))
            },
            NormalizedEventV::Diff { path, diff } => {
                &&& event_json(ev).get("kind"@) == Some(jstr("diff"@))
                &&& event_json(ev).get("path"@) == Some(jopt(path))
                &&& event_json(ev).get("diff"@) == Some(jstr(diff))
            },
            NormalizedEventV::PermissionRequest { request_id, tool_call_id, op_type, raw } => {
                &&& event_json(ev).get("kind"@) == Some(jstr("permission_request"@))
                &&& event_json(ev).get("request_id"@) == Some(jopt(request_id))
                &&& event_json(ev).get("tool_call_id"@) == Some(jopt(tool_call_id))
                &&& event_json(ev).get("op_type"@) == Some(jopt(op_type))
                &&& event_json(ev).get("raw"@) == Some(raw)
            },
            NormalizedEventV::ConfigOptionUpdate { options } => {
                &&& event_json(ev).get("kind"@) == Some(jstr("config_option_update"@))
                &&& event_json(ev).get("options"@) == Some(options)
            },
            NormalizedEventV::Ignored { reason, raw } => {
                &&& event_json(ev).get("kind"@) == Some(jstr("ignored"@))
                &&& event_json(ev).get("reason"@) == Some(jstr(reason))
                &&& event_json(ev).get("raw"@) == Some(raw)
            },
            NormalizedEventV::Other { session_update, raw } => {
                &&& event_json(ev).get("kind"@) == Some(jstr("other"@))
                &&& event_json(ev).get("session_update"@) == Some(jstr(session_update))
                &&& event_json(ev).get("raw"@) == Some(raw)
            },
        },
{
    broadcast use vstd::string::group_string_axioms;
    reveal_strlit("diff");
    reveal_strlit("kind");
    reveal_strlit("op_type");
    reveal_strlit("options");
    reveal_strlit("path");
    reveal_strlit("raw");
    reveal_strlit("reason");
    reveal_strlit("request_id");
    reveal_strlit("role");
    reveal_strlit("session_update");
    reveal_strlit("status");
    reveal_strlit("terminal");
    reveal_strlit("text");
    reveal_strlit("title");
    reveal_strlit("tool_call_id");
    reveal_strlit("tool_kind");
    match ev {
        NormalizedEventV::Message { .. } => {
            let es = event_json(ev)->Object_0;
            assert("kind"@[0] != "role"@[0]);
            assert("kind"@[0] != "text"@[0]);
            assert("role"@[0] != "text"@[0]);
            crate::json::lemma_object_get(es, 0);
            crate::json::lemma_object_get(es, 1);
            crate::json::lemma_object_get(es, 2);
        },
        NormalizedEventV::Thought { .. } => {
            let es = event_json(ev)->Object_0;
            assert("kind"@[0] != "text"@[0]);
            crate::json::lemma_object_get(es, 0);
            crate::json::lemma_object_get(es, 1);
        },
        NormalizedEventV::ToolCall { .. } => {
            let es = event_json(ev)->Object_0;
            assert("kind"@.len() != "tool_call_id"@.len());
            assert("kind"@.len() != "title"@.len());
            assert("tool_call_id"@.len() != "title"@.len());
            assert("kind"@.len() != "tool_kind"@.len());
            assert("tool_call_id"@.len() != "tool_kind"@.len());
            assert("title"@.len() != "tool_kind"@.len());
            assert("kind"@.len() != "status"@.len());
            assert("tool_call_id"@.len() != "status"@.len());
            assert("title"@.len() != "status"@.len());
            assert("tool_kind"@.len() != "status"@.len());
            crate::json::lemma_object_get(es, 0);
            crate::json::lemma_object_get(es, 1);
            crate::json::lemma_object_get(es, 2);
            crate::json::lemma_object_get(es, 3);
            crate::json::lemma_object_get(es, 4);
        },
        NormalizedEventV::ToolCallUpdate { .. } => {
            let es = event_json(ev)->Object_0;
            assert("kind"@.len() != "tool_call_id"@.len());
            assert("kind"@.len() != "status"@.len());
            assert("tool_call_id"@.len() != "status"@.len());
            assert("kind"@[0] != "diff"@[0]);
            assert("tool_call_id"@.len() != "diff"@.len());
            assert("status"@.len() != "diff"@.len());
            assert("kind"@.len() != "terminal"@.len());
            assert("tool_call_id"@.len() != "terminal"@.len());
            assert("status"@.len() != "terminal"@.len());
            assert("diff"@.len() != "terminal"@.len());
            crate::json::lemma_object_get(es, 0);
            crate::json::lemma_object_get(es, 1);
            crate::json::lemma_object_get(es, 2);
            crate::json::lemma_object_get(es, 3);
            crate::json::lemma_object_get(es, 4);
        },
        NormalizedEventV::Diff { .. } => {
            let es = event_json(ev)->Object_0;
            assert("kind"@[0] != "path"@[0]);
            assert("kind"@[0] != "diff"@[0]);
            assert("path"@[0] != "diff"@[0]);
            crate::json::lemma_object_get(es, 0);
            crate::json::lemma_object_get(es, 1);
            crate::json::lemma_object_get(es, 2);
        },
        NormalizedEventV::PermissionRequest { .. } => {
            let es = event_json(ev)->Object_0;
            assert("kind"@.len() != "request_id"@.len());
            assert("kind"@.len() != "tool_call_id"@.len());
            assert("request_id"@.len() != "tool_call_id"@.len());
            assert("kind"@.len() != "op_type"@.len());
            assert("request_id"@.len() != "op_type"@.len());
            assert("tool_call_id"@.len() != "op_type"@.len());
            assert("kind"@.len() != "raw"@.len());
            assert("request_id"@.len() != "raw"@.len());
            assert("tool_call_id"@.len() != "raw"@.len());
            assert("op_type"@.len() != "raw"@.len());
            crate::json::lemma_object_get(es, 0);
            crate::json::lemma_object_get(es, 1);
            crate::json::lemma_object_get(es, 2);
            crate::json::lemma_object_get(es, 3);
            crate::json::lemma_object_get(es, 4);
        },
        NormalizedEventV::ConfigOptionUpdate { .. } => {
            let es = event_json(ev)->Object_0;
            assert("kind"@.len() != "options"@.len());
            crate::json::lemma_object_get(es, 0);
            crate::json::lemma_object_get(es, 1);
        },
        NormalizedEventV::Ignored { .. } => {
            let es = event_json(ev)->Object_0;
            assert("kind"@.len() != "reason"@.len());
            assert("kind"@.len() != "raw"@.len());
            assert("reason"@.len() != "raw"@.len());
            crate::json::lemma_object_get(es, 0);
            crate::json::lemma_object_get(es, 1);
            crate::json::lemma_object_get(es, 2);
        },
        NormalizedEventV::Other { .. } => {
            let es = event_json(ev)->Object_0;
            assert("kind"@.len() != "session_update"@.len());
            assert("kind"@.len() != "raw"@.len());
            assert("session_update"@.len() != "raw"@.len());
            crate::json::lemma_object_get(es, 0);
            crate::json::lemma_object_get(es, 1);
            crate::json::lemma_object_get(es, 2);
        },
    }
}

fn jtext(s: &String) -> (r: Json)
    ensures
        r@ == jstr(s@),
{
    Json::text(s.as_str())
}

fn jopt_exec(o: &Option<String>) -> (r: Json)
    ensures
        r@ == jopt(opt_str_view(*o)),
{
    match o {
        Some(s) => Json::text(s.as_str()),
        None => Json::Null,
    }
}

fn obj_from(es: Vec<(String, Json)>) -> (r: Json)
    ensures
        r@ == JsonV::Object(crate::json::members_view(es@)),
{
    proof { crate::json::lemma_members_view(es@); }
    Json::Object(es)
}

impl NormalizedEvent {
    /// The JSON form written to the journal.
    pub fn to_json(&self) -> (r: Json)
        ensures
            r@ == event_json(self@),
            match self@ {
                NormalizedEventV::Message { role, text } => {
                    &&& r@.get("kind"@) == Some(jstr("message"@))
                    &&& r@.get("role"@) == Some(jstr(role))
                    &&& r@.get("text"@) == Some(jstr(text))
                },
                NormalizedEventV::Thought { text } => {
                    &&& r@.get("kind"@) == Some(jstr("thought"@))
                    &&& r@.get("text"@) == Some(jstr(text))
                },
                NormalizedEventV::ToolCall { tool_call_id, title, tool_kind, status } => {
                    &&& r@.get("kind"@) == Some(jstr("tool_call"@))
                    &&& r@.get("tool_call_id"@) == Some(jstr(tool_call_id))
                    &&& r@.get("title"@) == Some(jstr(title))
                    &&& r@.get("tool_kind"@) == Some(jopt(tool_kind))
                    &&& r@.get("status"@) == Some(jopt(status))
                },
                NormalizedEventV::ToolCallUpdate { tool_call_id, status, diff, terminal } => {
                    &&& r@.get("kind"@) == Some(jstr("tool_call_update"@))
                    &&& r@.get("tool_call_id"@) == Some(jstr(tool_call_id))
                    &&& r@.get("status"@) == Some(jopt(status))
                    &&& r@.get("diff"@) == Some(jopt(diff))
                    &&& r@.get("terminal"@) == Some(jopt(terminal))
                },
                NormalizedEventV::Diff { path, diff } => {
                    &&& r@.get("kind"@) == Some(jstr("diff"@))
                    &&& r@.get("path"@) == Some(jopt(path))
                    &&& r@.get("diff"@) == Some(jstr(diff))
                },
                NormalizedEventV::PermissionRequest { request_id, tool_call_id, op_type, raw } => {
                    &&& r@.get("kind"@) == Some(jstr("permission_request"@))
                    &&& r@.get("request_id"@) == Some(jopt(request_id))
                    &&& r@.get("tool_call_id"@) == Some(jopt(tool_call_id))
                    &&& r@.get("op_type"@) == Some(jopt(op_type))
                    &&& r@.get("raw"@) == Some(raw)
                },
                NormalizedEventV::ConfigOptionUpdate { options } => {
                    &&& r@.get("kind"@) == Some(jstr("config_option_update"@))
                    &&& r@.get("options"@) == Some(options)
                },
                NormalizedEventV::Ignored { reason, raw } => {
                    &&& r@.get("kind"@) == Some(jstr("ignored"@))
                    &&& r@.get("reason"@) == Some(jstr(reason))
                    &&& r@.get("raw"@) == Some(raw)
                },
                NormalizedEventV::Other { session_update, raw } => {
                    &&& r@.get("kind"@) == Some(jstr("other"@))
                    &&& r@.get("session_update"@) == Some(jstr(session_update))
                    &&& r@.get("raw"@) == Some(raw)
                },
            },
    {
        proof { lemma_event_json_fields(self@); }
        let mut es: Vec<(String, Json)> = Vec::new();
        let ghost mut want: Seq<(Seq<char>, JsonV)>;
        match self {
            NormalizedEvent::Message { role, text } => {
                es.push(member("kind", Json::text("message")));
                es.push(member("role", jtext(role)));
                es.push(member("text", jtext(text)));
            },
            NormalizedEvent::Thought { text } => {
                es.push(member("kind", Json::text("thought")));
                es.push(member("text", jtext(text)));
            },
            NormalizedEvent::ToolCall { tool_call_id, title, tool_kind, status } => {
                es.push(member("kind", Json::text("tool_call")));
                es.push(member("tool_call_id", jtext(tool_call_id)));
                es.push(member("title", jtext(title)));
                es.push(member("tool_kind", jopt_exec(tool_kind)));
                es.push(member("status", jopt_exec(status)));
            },
            NormalizedEvent::ToolCallUpdate { tool_call_id, status, diff, terminal } => {
                es.push(member("kind", Json::text("tool_call_update")));
                es.push(member("tool_call_id", jtext(tool_call_id)));
                es.push(member("status", jopt_exec(status)));
                es.push(member("diff", jopt_exec(diff)));
                es.push(member("terminal", jopt_exec(terminal)));
            },
            NormalizedEvent::Diff { path, diff } => {
                es.push(member("kind", Json::text("diff")));
                es.push(member("path", jopt_exec(path)));
                es.push(member("diff", jtext(diff)));
            },
            NormalizedEvent::PermissionRequest { request_id, tool_call_id, op_type, raw } => {
                es.push(member("kind", Json::text("permission_request")));
                es.push(member("request_id", jopt_exec(request_id)));
                es.push(member("tool_call_id", jopt_exec(tool_call_id)));
                es.push(member("op_type", jopt_exec(op_type)));
                es.push(member("raw", raw.deep_clone()));
            },
            NormalizedEvent::ConfigOptionUpdate { options } => {
                es.push(member("kind", Json::text("config_option_update")));
                es.push(member("options", options.deep_clone()));
            },
            NormalizedEvent::Ignored { reason, raw } => {
                es.push(member("kind", Json::text("ignored")));
                es.push(member("reason", jtext(reason)));
                es.push(member("raw", raw.deep_clone()));
            },
            NormalizedEvent::Other { session_update, raw } => {
                es.push(member("kind", Json::text("other")));
                es.push(member("session_update", jtext(session_update)));
                es.push(member("raw", raw.deep_clone()));
            },
        }
        proof {
            crate::json::lemma_members_view(es@);
            match event_json(self@) {
                JsonV::Object(want) => assert(crate::json::members_view(es@) =~= want),
                _ => {},
            }
        }
        Json::Object(es)
    }
}

/// Journals a normalized event as a `session_update`, except permission
/// requests (the permission store journals those) and ignored updates.
pub fn journal_normalized(journal: &mut Journal, ev: &NormalizedEvent) -> (r: Result<(), CoreError>)
    requires
        old(journal).wf(),
    ensures
        final(journal).wf(),
        (ev is PermissionRequest || ev is Ignored) ==> r is Ok && final(journal).events() == old(journal).events(),
        !(ev is PermissionRequest || ev is Ignored) ==> {
            &&& (r is Ok ==> crate::journal::appended(old(journal).events(), final(journal).events(),
                JournalKind::SessionUpdate, None, None, event_json(ev@)))
            &&& (r matches Err(e) ==> e is Sqlite && final(journal).events() == old(journal).events())
            &&& (r is Err <==> old(journal).last_seq() >= i64::MAX)
        },
{
    match ev {
        NormalizedEvent::PermissionRequest { .. } => {
            return Ok(());
        },
        NormalizedEvent::Ignored { .. } => {
            return Ok(());
        },
        _ => {},
    }
    journal.record(JournalKind::SessionUpdate, None, None, ev.to_json())
}

// ---------------------------------------------------------------------
// Permission requests.
// ---------------------------------------------------------------------

/// The op type of a permission request: `opType`, `op_type` or `toolCall.kind`, else empty.
pub open spec fn request_op_type(params: JsonV) -> Seq<char> {
    match normalized_permission(params) {
        NormalizedEventV::PermissionRequest { op_type, .. } => match op_type {
            Some(s) => s,
            None => ""@,
        },
        _ => ""@,
    }
}

/// The tool call a permission request is about, if it names one.
pub open spec fn request_tool_call_id(params: JsonV) -> Option<Seq<char>> {
    match normalized_permission(params) {
        NormalizedEventV::PermissionRequest { tool_call_id, .. } => tool_call_id,
        _ => None,
    }
}

/// What answering a permission request writes, from `rows0`/`ev0` to
/// `rows1`/`ev1`: one new request row, resolved to the decision and not
/// remembered, and the `permission_requested` and `permission_resolved`
/// events.
pub open spec fn permission_recorded(
    rows0: Seq<PermissionV>,
    rows1: Seq<PermissionV>,
    ev0: Seq<JournalEventV>,
    ev1: Seq<JournalEventV>,
    session_id: Option<Seq<char>>,
    params: JsonV,
    allow: bool,
) -> bool {
    let id: int = rows0.len() as int + 1;
    let op = request_op_type(params);
    let tc = request_tool_call_id(params);
    &&& rows1 == rows0.push(PermissionV {
        id,
        session_id,
        op_type: op,
        tool_call_id: tc,
        status: decision_status(allow),
        remembered: false,
        payload: params,
    })
    &&& appended_events(ev0, ev1, seq![
        (JournalKind::PermissionRequested, None, None, requested_json(id, op, tc, session_id)),
        (JournalKind::PermissionResolved, None, None, resolved_json(id, op, allow, false)),
    ])
}

/// Whether a request for `op` is allowed: only a remembered allow allows.
pub open spec fn permission_allowed(rows: Seq<crate::permissions::PermissionV>, op: Seq<char>) -> bool {
    decision(rows, op) == Some(true)
}

/// A request is allowed exactly when the standing decision for its op type
/// is an allow: a remembered deny, like no decision at all, denies.
pub proof fn lemma_answer_is_remembered_decision(rows: Seq<PermissionV>, op: Seq<char>)
    ensures
        permission_allowed(rows, op) <==> (op.len() > 0 && latest_remembered(rows, op) == Some(true)),
        latest_remembered(rows, op) == Some(false) ==> !permission_allowed(rows, op),
        latest_remembered(rows, op) is None ==> !permission_allowed(rows, op),
{
}

/// The answer to a permission request: select `allow-once` when allowed,
/// otherwise cancel with `reject-once`.
pub open spec fn permission_reply_json(id: u64, allow: bool) -> JsonV {
    JsonV::Object(seq![
        ("jsonrpc"@, jstr("2.0"@)),
        ("id"@, JsonV::Number(JsonNumberV::PosInt(id))),
        ("result"@, JsonV::Object(seq![("outcome"@, JsonV::Object(seq![
            ("outcome"@, jstr(if allow { "selected"@ } else { "cancelled"@ })),
            ("optionId"@, jstr(if allow { "allow-once"@ } else { "reject-once"@ })),
        ]))])),
    ])
}

pub fn permission_reply(id: u64, allow: bool) -> (r: Json)
    ensures
        r@ == permission_reply_json(id, allow),
{
    let outcome = object2(
        "outcome",
        Json::text(if allow { "selected" } else { "cancelled" }),
        "optionId",
        Json::text(if allow { "allow-once" } else { "reject-once" }),
    );
    let result = crate::memory::object1("outcome", outcome);
    object3("jsonrpc", Json::text("2.0"), "id", Json::Number(JsonNumber::PosInt(id)), "result", result)
}

/// Handles a `session/request_permission` request against the permission
/// store: the request is recorded, answered from the remembered decision
/// for its op type (deny when nothing was remembered), and the resolution
/// is journaled. Returns whether it was allowed and the normalized event.
pub fn handle_permission_request(
    journal: &mut Journal,
    store: &mut PermissionStore,
    session_id: Option<&str>,
    params: &Json,
) -> (r: Result<(bool, NormalizedEvent), CoreError>)
    requires
        old(journal).wf(),
        old(store).wf(),
    ensures
        final(journal).wf(),
        final(store).wf(),
        r matches Ok((allow, ev)) ==> {
            &&& allow == permission_allowed(old(store).rows(), request_op_type(params@))
            // Allowed exactly when an allow for this op type is the standing decision.
            &&& allow == (request_op_type(params@).len() > 0
                && latest_remembered(old(store).rows(), request_op_type(params@)) == Some(true))
            &&& ev@ == normalized_permission(params@)
            &&& permission_recorded(old(store).rows(), final(store).rows(), old(journal).events(),
                final(journal).events(), opt_str_ref_view(session_id), params@, allow)
        },
        // No standing decision is ever written: not for the request's op type, nor any other.
        forall|op: Seq<char>| #[trigger] latest_remembered(final(store).rows(), op)
            == latest_remembered(old(store).rows(), op),
        old(store).rows().len() + 2 < i64::MAX && old(journal).last_seq() + 2 < i64::MAX ==> r is Ok,
{
    let ev = normalize_permission_request(params);
    let op: String = match &ev {
        NormalizedEvent::PermissionRequest { op_type, .. } => match op_type {
            Some(s) => s.clone(),
            None => "".to_owned(),
        },
        _ => "".to_owned(),
    };
    let tool_call_id: Option<&str> = match &ev {
        NormalizedEvent::PermissionRequest { tool_call_id, .. } => match tool_call_id {
            Some(s) => Some(s.as_str()),
            None => None,
        },
        _ => None,
    };
    let ghost rows0 = store.rows();
    let ghost ev0 = journal.events();
    let pid = match store.record_request(journal, session_id, op.as_str(), tool_call_id, params) {
        Ok(id) => id,
        Err(e) => {
            return Err(e);
        },
    };
    let ghost rows1 = store.rows();
    let ghost ev1 = journal.events();
    let d = match store.decision_for(op.as_str()) {
        Ok(d) => d,
        Err(e) => {
            return Err(e);
        },
    };
    let allow = match d {
        Some(a) => a,
        None => false,
    };
    let resolved = store.resolve(journal, pid, allow, false, op.as_str());
    proof {
        assert(decision(rows1, op@) == decision(rows0, op@));
        assert forall|o: Seq<char>| #[trigger] latest_remembered(store.rows(), o) == latest_remembered(rows0, o) by {
            lemma_resolve_keeps_other(rows1, (pid - 1) as int, allow, o);
            assert(rows1.drop_last() =~= rows0);
        }
        if resolved is Ok {
            let id: int = rows0.len() as int + 1;
            let item0: EventItem = (JournalKind::PermissionRequested, None, None,
                requested_json(id, op@, opt_str_ref_view(tool_call_id), opt_str_ref_view(session_id)));
            let item1: EventItem = (JournalKind::PermissionResolved, None, None, resolved_json(id, op@, allow, false));
            lemma_appended_events_none(ev0);
            lemma_appended_events_push(ev0, ev0, ev1, Seq::empty(), item0);
            lemma_appended_events_push(ev0, ev1, journal.events(), Seq::empty().push(item0), item1);
            assert(Seq::<EventItem>::empty().push(item0).push(item1) =~= seq![item0, item1]);
            assert(store.rows() =~= rows0.push(PermissionV {
                id,
                session_id: opt_str_ref_view(session_id),
                op_type: op@,
                tool_call_id: opt_str_ref_view(tool_call_id),
                status: decision_status(allow),
                remembered: false,
                payload: params@,
            }));
        }
    }
    match resolved {
        Ok(()) => Ok((allow, ev)),
        Err(e) => Err(e),
    }
}

/// Resolving a row that was not remembered, without remembering it,
/// changes no standing decision.
proof fn lemma_resolve_keeps_other(rows: Seq<crate::permissions::PermissionV>, k: int, allow: bool, o: Seq<char>)
    requires
        0 <= k < rows.len(),
        !rows[k].remembered,
    ensures
        latest_remembered(rows.update(k, crate::permissions::PermissionV {
            status: crate::permissions::decision_status(allow),
            remembered: false,
            ..rows[k]
        }), o) == latest_remembered(rows, o),
    decreases rows.len(),
{
    let u = rows.update(k, crate::permissions::PermissionV { status: crate::permissions::decision_status(allow), remembered: false, ..rows[k] });
    if k < rows.len() - 1 {
        assert(u.drop_last() =~= rows.drop_last().update(k, crate::permissions::PermissionV {
            status: crate::permissions::decision_status(allow),
            remembered: false,
            ..rows[k]
        }));
        lemma_resolve_keeps_other(rows.drop_last(), k, allow, o);
    } else {
        assert(u.drop_last() =~= rows.drop_last());
    }
}

// ---------------------------------------------------------------------
// Messages from the agent.
// ---------------------------------------------------------------------

/// How a message read from the agent is handled.
#[derive(Debug)]
pub enum IncomingKind {
    /// A reply to request `id`: its error object, or its result (null when absent).
    Reply { id: u64, result: Result<Json, Json> },
    /// A request from the agent.
    Request { id: u64, method: String, params: Json },
    /// A notification from the agent.
    Notification { method: String, params: Json },
}

/// Classifies a message: a numeric `id` without `method` is a reply, with
/// `method` a request; anything else is a notification.
pub fn classify_incoming(value: &Json) -> (r: IncomingKind)
    ensures
        match r {
            IncomingKind::Reply { id, result } => {
                &&& value@.get("id"@) == Some(JsonV::Number(JsonNumberV::PosInt(id)))
                &&& value@.get("method"@) is None
                &&& match result {
                    Err(e) => value@.get("error"@) == Some(e@),
                    Ok(v) => value@.get("error"@) is None && v@ == match value@.get("result"@) {
                        Some(x) => x,
                        None => JsonV::Null,
                    },
                }
            },
            IncomingKind::Request { id, method, params } => {
                &&& value@.get("id"@) == Some(JsonV::Number(JsonNumberV::PosInt(id)))
                &&& value@.get("method"@) is Some
                &&& method@ == match value@.member_str("method"@) { Some(m) => m, None => ""@ }
                &&& params@ == match value@.get("params"@) { Some(p) => p, None => JsonV::Null }
            },
            IncomingKind::Notification { method, params } => {
                &&& !(value@.get("id"@) matches Some(JsonV::Number(JsonNumberV::PosInt(_))))
                &&& method@ == match value@.member_str("method"@) { Some(m) => m, None => ""@ }
                &&& params@ == match value@.get("params"@) { Some(p) => p, None => JsonV::Null }
            },
        },
{
    let id = match value.get("id") {
        Some(v) => v.as_u64(),
        None => None,
    };
    let method: String = match value.member_text("method") {
        Some(m) => m.to_owned(),
        None => "".to_owned(),
    };
    let params = match value.get("params") {
        Some(p) => p.deep_clone(),
        None => Json::Null,
    };
    match id {
        Some(id) => {
            if value.get("method").is_none() {
                let result = match value.get("error") {
                    Some(e) => Err(e.deep_clone()),
                    None => match value.get("result") {
                        Some(x) => Ok(x.deep_clone()),
                        None => Ok(Json::Null),
                    },
                };
                IncomingKind::Reply { id, result }
            } else {
                IncomingKind::Request { id, method, params }
            }
        },
        None => IncomingKind::Notification { method, params },
    }
}

/// The answer to a request from the agent that the client does not handle.
pub fn method_not_found(id: u64, method: &str) -> (r: Json)
    ensures
        r@ == JsonV::Object(seq![
            ("jsonrpc"@, jstr("2.0"@)),
            ("id"@, JsonV::Number(JsonNumberV::PosInt(id))),
            ("error"@, JsonV::Object(seq![
                ("code"@, JsonV::Number(JsonNumberV::NegInt(-32601i64))),
                ("message"@, jstr("method not found: "@ + method@)),
            ])),
        ]),
{
    let err = object2("code", Json::Number(JsonNumber::NegInt(-32601)), "message", Json::Str(join2("method not found: ", method)));
    object3("jsonrpc", Json::text("2.0"), "id", Json::Number(JsonNumber::PosInt(id)), "error", err)
}

/// Whether a method name is an extension (`_`-prefixed); those are ignored.
pub fn is_extension_method(method: &str) -> (b: bool)
    ensures
        b == crate::acp::normalize::is_extension_name(method@),
{
    method.unicode_len() > 0 && method.get_char(0) == '_'
}

/// The session id in a `session/new` result: `sessionId` or `session_id`.
pub fn session_id_from_result(result: &Json) -> (r: Result<String, CoreError>)
    ensures
        match opt_as_str(get_either(result@, "sessionId"@, "session_id"@)) {
            Some(s) => r matches Ok(id) && id@ == s,
            None => r matches Err(CoreError::Other(m)) && m@ == "session/new missing sessionId"@,
        },
{
    let v = match result.get("sessionId") {
        Some(x) => Some(x),
        None => result.get("session_id"),
    };
    match v {
        Some(x) => match x.as_str() {
            Some(s) => Ok(s.to_owned()),
            None => Err(CoreError::Other("session/new missing sessionId".to_owned())),
        },
        None => Err(CoreError::Other("session/new missing sessionId".to_owned())),
    }
}

// ---------------------------------------------------------------------
// Requests to the agent.
// ---------------------------------------------------------------------

/// Parameters of `session/prompt`: one text block.
pub fn prompt_params(session_id: &str, text: &str) -> (r: Json)
    ensures
        r@ == JsonV::Object(seq![
            ("sessionId"@, jstr(session_id@)),
            ("prompt"@, JsonV::Array(seq![JsonV::Object(seq![("type"@, jstr("text"@)), ("text"@, jstr(text@))])])),
        ]),
{
    let block = object2("type", Json::text("text"), "text", Json::text(text));
    let ghost bv = block@;
    let mut arr: Vec<Json> = Vec::new();
    arr.push(block);
    proof {
        crate::json::lemma_seq_view(arr@);
        assert(crate::json::seq_view(arr@) =~= seq![bv]);
    }
    object2("sessionId", Json::text(session_id), "prompt", Json::Array(arr))
}

/// Parameters naming only a session: `session/cancel`, `session/close`.
pub fn session_params(session_id: &str) -> (r: Json)
    ensures
        r@ == JsonV::Object(seq![("sessionId"@, jstr(session_id@))]),
{
    crate::memory::object1("sessionId", Json::text(session_id))
}

/// Parameters of `session/set_config_option`.
pub fn set_config_params(session_id: &str, config_id: &str, value: &str) -> (r: Json)
    ensures
        r@ == JsonV::Object(seq![
            ("sessionId"@, jstr(session_id@)),
            ("configId"@, jstr(config_id@)),
            ("value"@, jstr(value@)),
        ]),
{
    object3("sessionId", Json::text(session_id), "configId", Json::text(config_id), "value", Json::text(value))
}

/// Parameters of `session/new`: the working directory and no MCP servers.
pub fn session_new_params(cwd: &str) -> (r: Json)
    ensures
        r@ == JsonV::Object(seq![("cwd"@, jstr(cwd@)), ("mcpServers"@, JsonV::Array(Seq::empty()))]),
{
    let arr: Vec<Json> = Vec::new();
    proof { crate::json::lemma_seq_view(arr@); assert(crate::json::seq_view(arr@) =~= Seq::<JsonV>::empty()); }
    object2("cwd", Json::text(cwd), "mcpServers", Json::Array(arr))
}

// ---------------------------------------------------------------------
// Model switching.
// ---------------------------------------------------------------------

/// Before asking the agent to switch: an option that was not advertised is
/// refused outright, so the UI starts a new session instead of faking a switch.
pub fn model_switch_precheck(menus: &AdvertisedMenus, config_id: &str) -> (r: Option<ModelSwitchOutcome>)
    ensures
        menus.advertises(config_id@) <==> r is None,
        // An option the menus hold always switches in place.
        (menus.model matches Some(m) && m.id@ == config_id@) ==> r is None,
        (menus.thought_level matches Some(t) && t.id@ == config_id@) ==> r is None,
        forall|k: int| 0 <= k < menus.model_config@.len() && #[trigger] menus.model_config@[k].id@ == config_id@ ==> r is None,
        r matches Some(ModelSwitchOutcome::RequireNewSessionWithSummary { reason }) ==> reason@ == "config option `"@
            + config_id@ + "` not advertised; UI must start a new session with summary (no fake switch)"@,
        r matches Some(o) ==> o is RequireNewSessionWithSummary,
{
    if menus.is_advertised(config_id) {
        None
    } else {
        let mut reason = join2("config option `", config_id);
        reason.append("` not advertised; UI must start a new session with summary (no fake switch)");
        Some(ModelSwitchOutcome::RequireNewSessionWithSummary { reason })
    }
}

/// After the agent answered a switch request: applied on success, otherwise
/// a new session with summary is required.
pub fn model_switch_result(failure: Option<&str>) -> (r: ModelSwitchOutcome)
    ensures
        match failure {
            None => r is Applied,
            Some(msg) => r matches ModelSwitchOutcome::RequireNewSessionWithSummary { reason } && reason@
                == "set_config_option failed: "@ + msg@,
        },
{
    match failure {
        None => ModelSwitchOutcome::Applied,
        Some(msg) => ModelSwitchOutcome::RequireNewSessionWithSummary { reason: join2("set_config_option failed: ", msg) },
    }
}

// ---------------------------------------------------------------------
// One message from the agent, end to end.
// ---------------------------------------------------------------------

/// The numeric `id` of a message, when it has one.
pub open spec fn message_id(v: JsonV) -> Option<u64> {
    match v.get("id"@) {
        Some(JsonV::Number(JsonNumberV::PosInt(n))) => Some(n),
        _ => None,
    }
}

/// The `method` of a message (empty when absent or not a string).
pub open spec fn message_method(v: JsonV) -> Seq<char> {
    match v.member_str("method"@) {
        Some(m) => m,
        None => ""@,
    }
}

/// The `params` of a message (null when absent).
pub open spec fn message_params(v: JsonV) -> JsonV {
    match v.get("params"@) {
        Some(p) => p,
        None => JsonV::Null,
    }
}

/// What the caller does with a message from the agent.
#[derive(Debug)]
pub enum IncomingAction {
    /// Hand this outcome to the pending request `id`: the reply's result,
    /// or its error object as the agent sent it.
    Deliver { id: u64, result: Result<Json, Json> },
    /// Write `reply` back to the agent and pass `events` on.
    Reply { reply: Json, events: Vec<NormalizedEvent> },
    /// Pass these events on.
    Emit { events: Vec<NormalizedEvent> },
    /// Nothing to do.
    Ignore,
}

pub open spec fn events_view(v: Seq<NormalizedEvent>) -> Seq<NormalizedEventV> {
    v.map_values(|e: NormalizedEvent| e@)
}

/// Handles one message from the agent. Replies go to the request they
/// answer. A permission request is recorded and answered from the
/// remembered decision for its op type, denied when nothing was
/// remembered or no store is attached; other requests are refused as
/// unknown methods, except `_`-prefixed extensions, which are ignored. A
/// session update is normalized and, unless ignored, journaled (when a
/// store is attached; a journal that is full is skipped) and passed on.
/// Other notifications are ignored.
pub fn handle_incoming(
    journal: &mut Journal,
    store: &mut PermissionStore,
    attached: bool,
    session_id: Option<&str>,
    value: &Json,
) -> (r: Result<IncomingAction, CoreError>)
    requires
        old(journal).wf(),
        old(store).wf(),
    ensures
        final(journal).wf(),
        final(store).wf(),
        ({
            let v = value@;
            let params = message_params(v);
            let method = message_method(v);
            &&& (message_id(v) is Some && v.get("method"@) is None) ==> {
                &&& (r matches Ok(IncomingAction::Deliver { id, result }) && Some(id) == message_id(v) && match result {
                    Err(e) => v.get("error"@) == Some(e@),
                    Ok(x) => v.get("error"@) is None && x@ == match v.get("result"@) { Some(y) => y, None => JsonV::Null },
                })
                &&& *final(journal) == *old(journal) && *final(store) == *old(store)
            }
            &&& (message_id(v) is Some && v.get("method"@) is Some) ==> {
                let id = message_id(v)->0;
                // An attached request is always answered with a reply, and recorded.
                &&& method == "session/request_permission"@ && attached && r is Ok ==> (r matches Ok(IncomingAction::Reply { reply, .. })
                    && reply@ == permission_reply_json(id, request_op_type(params).len() > 0
                        && latest_remembered(old(store).rows(), request_op_type(params)) == Some(true))
                    && final(store).rows().last().status == decision_status(request_op_type(params).len() > 0
                        && latest_remembered(old(store).rows(), request_op_type(params)) == Some(true)))
                &&& method == "session/request_permission"@ && attached && r is Ok ==> (r matches Ok(IncomingAction::Reply { reply, events })
                    && reply@ == permission_reply_json(id, permission_allowed(old(store).rows(), request_op_type(params)))
                    && events_view(events@) == seq![normalized_permission(params)]
                    && permission_recorded(old(store).rows(), final(store).rows(), old(journal).events(),
                        final(journal).events(), opt_str_ref_view(session_id), params,
                        permission_allowed(old(store).rows(), request_op_type(params))))
                &&& method == "session/request_permission"@ && attached && old(store).rows().len() + 2 < i64::MAX
                    && old(journal).last_seq() + 2 < i64::MAX ==> r is Ok
                &&& method == "session/request_permission"@ && !attached ==> {
                    &&& (r matches Ok(IncomingAction::Reply { reply, events }) && reply@ == permission_reply_json(id, false)
                        && events_view(events@) == seq![normalized_permission(params)])
                    &&& *final(journal) == *old(journal) && *final(store) == *old(store)
                }
                &&& method != "session/request_permission"@ ==> *final(journal) == *old(journal) && *final(store) == *old(store)
                &&& method != "session/request_permission"@ && crate::acp::normalize::is_extension_name(method)
                    ==> (r matches Ok(IncomingAction::Ignore))
                &&& method != "session/request_permission"@ && !crate::acp::normalize::is_extension_name(method)
                    ==> (r matches Ok(IncomingAction::Reply { reply, events }) && events@.len() == 0
                    && reply@ == JsonV::Object(seq![
                        ("jsonrpc"@, jstr("2.0"@)),
                        ("id"@, JsonV::Number(JsonNumberV::PosInt(id))),
                        ("error"@, JsonV::Object(seq![
                            ("code"@, JsonV::Number(JsonNumberV::NegInt(-32601i64))),
                            ("message"@, jstr("method not found: "@ + method)),
                        ])),
                    ]))
            }
            // Never a standing decision: handling a message grants nothing for later.
            &&& forall|op: Seq<char>| #[trigger] latest_remembered(final(store).rows(), op)
                == latest_remembered(old(store).rows(), op)
            &&& message_id(v) is None ==> {
                &&& *final(store) == *old(store)
                &&& method == "session/update"@ ==> {
                    let ev = crate::acp::normalize::normalized(params);
                    &&& ev is Ignored ==> (r matches Ok(IncomingAction::Emit { events }) && events@.len() == 0)
                        && *final(journal) == *old(journal)
                    &&& !(ev is Ignored) ==> (r matches Ok(IncomingAction::Emit { events }) && events_view(events@) == seq![ev])
                    &&& !(ev is Ignored) && attached && old(journal).last_seq() < i64::MAX ==> crate::journal::appended(
                        old(journal).events(), final(journal).events(), JournalKind::SessionUpdate, None, None, event_json(ev))
                    &&& !(ev is Ignored) && !(attached && old(journal).last_seq() < i64::MAX) ==> final(journal).events()
                        == old(journal).events()
                }
                &&& method != "session/update"@ ==> (r matches Ok(IncomingAction::Ignore)) && *final(journal) == *old(journal)
            }
        }),
{
    proof {
        reveal_strlit("session/request_permission");
        reveal_strlit("session/update");
    }
    match classify_incoming(value) {
        IncomingKind::Reply { id, result } => Ok(IncomingAction::Deliver { id, result }),
        IncomingKind::Request { id, method, params } => {
            if str_eq(method.as_str(), "session/request_permission") {
                if attached {
                    match handle_permission_request(journal, store, session_id, &params) {
                        Ok((allow, ev)) => {
                            let ghost evv = ev@;
                            let mut events: Vec<NormalizedEvent> = Vec::new();
                            events.push(ev);
                            proof { assert(events_view(events@) =~= seq![evv]); }
                            Ok(IncomingAction::Reply { reply: permission_reply(id, allow), events })
                        },
                        Err(e) => Err(e),
                    }
                } else {
                    let ev = normalize_permission_request(&params);
                    let ghost evv = ev@;
                    let mut events: Vec<NormalizedEvent> = Vec::new();
                    events.push(ev);
                    proof { assert(events_view(events@) =~= seq![evv]); }
                    Ok(IncomingAction::Reply { reply: permission_reply(id, false), events })
                }
            } else if is_extension_method(method.as_str()) {
                Ok(IncomingAction::Ignore)
            } else {
                Ok(IncomingAction::Reply { reply: method_not_found(id, method.as_str()), events: Vec::new() })
            }
        },
        IncomingKind::Notification { method, params } => {
            if str_eq(method.as_str(), "session/update") {
                let mut normalized_events = crate::acp::normalize::normalize_session_update(&params);
                let ev = normalized_events.remove(0);
                let mut events: Vec<NormalizedEvent> = Vec::new();
                match &ev {
                    NormalizedEvent::Ignored { .. } => {
                        return Ok(IncomingAction::Emit { events });
                    },
                    _ => {},
                }
                if attached {
                    match journal_normalized(journal, &ev) {
                        Ok(()) => {},
                        Err(_) => {},
                    }
                }
                let ghost evv = ev@;
                events.push(ev);
                proof { assert(events_view(events@) =~= seq![evv]); }
                Ok(IncomingAction::Emit { events })
            } else {
                Ok(IncomingAction::Ignore)
            }
        },
    }
}

/// The parameters of `initialize`: the protocol version, the client's
/// capabilities and who the client is.
pub fn initialize_params() -> (r: Json)
    ensures
        r@ == JsonV::Object(seq![
            ("protocolVersion"@, JsonV::Number(JsonNumberV::PosInt(crate::acp::types::PROTOCOL_VERSION as u64))),
            ("clientCapabilities"@, JsonV::Object(seq![
                ("fs"@, JsonV::Object(seq![("readTextFile"@, JsonV::Bool(true)), ("writeTextFile"@, JsonV::Bool(true))])),
                ("terminal"@, JsonV::Bool(true)),
                ("session"@, JsonV::Object(seq![("configOptions"@, JsonV::Object(seq![
                    ("boolean"@, JsonV::Object(Seq::empty()))]))])),
            ])),
            ("clientInfo"@, JsonV::Object(seq![
                ("name"@, jstr("agent-workbench"@)),
                ("title"@, jstr("Multi-Agent Workbench"@)),
                ("version"@, jstr("0.1.0"@)),
            ])),
        ]),
{
    let empty: Vec<(String, Json)> = Vec::new();
    proof { crate::json::lemma_members_view(empty@); assert(crate::json::members_view(empty@) =~= Seq::<(Seq<char>, JsonV)>::empty()); }
    let fs = object2("readTextFile", Json::Bool(true), "writeTextFile", Json::Bool(true));
    let session = crate::memory::object1("configOptions", crate::memory::object1("boolean", Json::Object(empty)));
    let caps = object3("fs", fs, "terminal", Json::Bool(true), "session", session);
    let info = object3("name", Json::text("agent-workbench"), "title", Json::text("Multi-Agent Workbench"), "version",
        Json::text("0.1.0"));
    object3("protocolVersion", Json::Number(JsonNumber::PosInt(crate::acp::types::PROTOCOL_VERSION as u64)), "clientCapabilities",
        caps, "clientInfo", info)
}

/// The configuration options in a reply: `configOptions`, else `config_options`.
pub fn config_options_of(result: &Json) -> (r: Option<Json>)
    ensures
        match r {
            Some(x) => get_either(result@, "configOptions"@, "config_options"@) == Some(x@),
            None => get_either(result@, "configOptions"@, "config_options"@) is None,
        },
{
    match result.get("configOptions") {
        Some(x) => Some(x.deep_clone()),
        None => match result.get("config_options") {
            Some(x) => Some(x.deep_clone()),
            None => None,
        },
    }
}

/// The error for an agent process that could not be started.
pub fn spawn_error(executable: &str, reason: &str) -> (e: CoreError)
    ensures
        e matches CoreError::Other(m) && m@ == "failed to spawn "@ + executable@ + ": "@ + reason@
            + ". Is OpenCode installed? Use mock agent for CI."@,
{
    let mut m = join2("failed to spawn ", executable);
    m.append(": ");
    m.append(reason);
    m.append(". Is OpenCode installed? Use mock agent for CI.");
    CoreError::Other(m)
}

} // verus!
