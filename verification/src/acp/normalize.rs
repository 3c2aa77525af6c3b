//! Normalization of agent session updates into a stable event shape, so
//! replay keeps working when the agent's extension fields drift.

use vstd::prelude::*;
use vstd::string::*;
use crate::json::{Json, JsonV, member};
use crate::text::str_eq;
use crate::memory::{object1, object2, object3, object4, object5};

verus! {

/// A normalized session event.
#[allow(inconsistent_fields)]
#[derive(Debug)]
pub enum NormalizedEvent {
    Message { role: String, text: String },
    Thought { text: String },
    ToolCall { tool_call_id: String, title: String, tool_kind: Option<String>, status: Option<String> },
    ToolCallUpdate { tool_call_id: String, status: Option<String>, diff: Option<String>, terminal: Option<String> },
    Diff { path: Option<String>, diff: String },
    PermissionRequest { request_id: Option<String>, tool_call_id: Option<String>, op_type: Option<String>, raw: Json },
    ConfigOptionUpdate { options: Json },
    /// Unknown extension or `_meta`-only update: ignored by the UI, kept for debugging.
    Ignored { reason: String, raw: Json },
    Other { session_update: String, raw: Json },
}

/// The mathematical value of a normalized event.
#[allow(inconsistent_fields)]
pub enum NormalizedEventV {
    Message { role: Seq<char>, text: Seq<char> },
    Thought { text: Seq<char> },
    ToolCall { tool_call_id: Seq<char>, title: Seq<char>, tool_kind: Option<Seq<char>>, status: Option<Seq<char>> },
    ToolCallUpdate {
        tool_call_id: Seq<char>,
        status: Option<Seq<char>>,
        diff: Option<Seq<char>>,
        terminal: Option<Seq<char>>,
    },
    Diff { path: Option<Seq<char>>, diff: Seq<char> },
    PermissionRequest {
        request_id: Option<Seq<char>>,
        tool_call_id: Option<Seq<char>>,
        op_type: Option<Seq<char>>,
        raw: JsonV,
    },
    ConfigOptionUpdate { options: JsonV },
    Ignored { reason: Seq<char>, raw: JsonV },
    Other { session_update: Seq<char>, raw: JsonV },
}

pub open spec fn opt_str_view(o: Option<String>) -> Option<Seq<char>> {
    match o {
        Some(s) => Some(s@),
        None => None,
    }
}

impl View for NormalizedEvent {
    type V = NormalizedEventV;

    open spec fn view(&self) -> NormalizedEventV {
        match self {
            NormalizedEvent::Message { role, text } => NormalizedEventV::Message { role: role@, text: text@ },
            NormalizedEvent::Thought { text } => NormalizedEventV::Thought { text: text@ },
            NormalizedEvent::ToolCall { tool_call_id, title, tool_kind, status } => NormalizedEventV::ToolCall {
                tool_call_id: tool_call_id@,
                title: title@,
                tool_kind: opt_str_view(*tool_kind),
                status: opt_str_view(*status),
            },
            NormalizedEvent::ToolCallUpdate { tool_call_id, status, diff, terminal } => NormalizedEventV::ToolCallUpdate {
                tool_call_id: tool_call_id@,
                status: opt_str_view(*status),
                diff: opt_str_view(*diff),
                terminal: opt_str_view(*terminal),
            },
            NormalizedEvent::Diff { path, diff } => NormalizedEventV::Diff { path: opt_str_view(*path), diff: diff@ },
            NormalizedEvent::PermissionRequest { request_id, tool_call_id, op_type, raw } => NormalizedEventV::PermissionRequest {
                request_id: opt_str_view(*request_id),
                tool_call_id: opt_str_view(*tool_call_id),
                op_type: opt_str_view(*op_type),
                raw: raw@,
            },
            NormalizedEvent::ConfigOptionUpdate { options } => NormalizedEventV::ConfigOptionUpdate { options: options@ },
            NormalizedEvent::Ignored { reason, raw } => NormalizedEventV::Ignored { reason: reason@, raw: raw@ },
            NormalizedEvent::Other { session_update, raw } => NormalizedEventV::Other {
                session_update: session_update@,
                raw: raw@,
            },
        }
    }
}

// ---------------------------------------------------------------------
// What a session update normalizes to.
// ---------------------------------------------------------------------

/// The first of member `a` or, when `a` is absent, member `b`.
pub open spec fn get_either(v: JsonV, a: Seq<char>, b: Seq<char>) -> Option<JsonV> {
    match v.get(a) {
        Some(x) => Some(x),
        None => v.get(b),
    }
}

/// The text of an optional value, when it is a string.
pub open spec fn opt_as_str(o: Option<JsonV>) -> Option<Seq<char>> {
    match o {
        Some(x) => x.as_str(),
        None => None,
    }
}

/// The update kind: `sessionUpdate` (or `session_update`) as text, else empty.
pub open spec fn update_kind(update: JsonV) -> Seq<char> {
    match opt_as_str(get_either(update, "sessionUpdate"@, "session_update"@)) {
        Some(s) => s,
        None => ""@,
    }
}

/// Concatenated `text` members of the blocks that have one.
pub open spec fn block_texts(blocks: Seq<JsonV>) -> Seq<char>
    decreases blocks.len(),
{
    if blocks.len() == 0 {
        Seq::empty()
    } else {
        match blocks[0].member_str("text"@) {
            Some(t) => t + block_texts(blocks.drop_first()),
            None => block_texts(blocks.drop_first()),
        }
    }
}

/// The message text carried by an update.
pub open spec fn extract_text(update: JsonV) -> Seq<char> {
    let fallback = match update.member_str("text"@) {
        Some(t) => t,
        None => ""@,
    };
    match update.get("content"@) {
        Some(c) => {
            if c.member_str("text"@) is Some {
                c.member_str("text"@).unwrap()
            } else if c.as_str() is Some {
                c.as_str().unwrap()
            } else if c is Array {
                block_texts(c->Array_0)
            } else {
                fallback
            }
        },
        None => fallback,
    }
}

/// The diff text of a `diff` content block.
pub open spec fn block_diff(b: JsonV) -> Option<Seq<char>> {
    if b.member_str("type"@) == Some("diff"@) {
        opt_as_str(get_either(b, "diff"@, "text"@))
    } else {
        None
    }
}

/// The output text of a `terminal` or `output` content block.
pub open spec fn block_terminal(b: JsonV) -> Option<Seq<char>> {
    if b.member_str("type"@) == Some("terminal"@) || b.member_str("type"@) == Some("output"@) {
        opt_as_str(get_either(b, "output"@, "text"@))
    } else {
        None
    }
}

/// The first block that yields a diff (`want_diff`) or a terminal output.
pub open spec fn first_block(blocks: Seq<JsonV>, want_diff: bool) -> Option<Seq<char>>
    decreases blocks.len(),
{
    if blocks.len() == 0 {
        None
    } else {
        let here = if want_diff { block_diff(blocks[0]) } else { block_terminal(blocks[0]) };
        match here {
            Some(s) => Some(s),
            None => first_block(blocks.drop_first(), want_diff),
        }
    }
}

/// The first diff or terminal output among the update's `content` blocks.
pub open spec fn content_block(update: JsonV, want_diff: bool) -> Option<Seq<char>> {
    match update.get("content"@) {
        Some(JsonV::Array(blocks)) => first_block(blocks, want_diff),
        _ => None,
    }
}

/// The tool call id of an update, or empty.
pub open spec fn tool_call_id_of(update: JsonV) -> Seq<char> {
    match opt_as_str(get_either(update, "toolCallId"@, "tool_call_id"@)) {
        Some(s) => s,
        None => ""@,
    }
}

/// Whether a text starts with `_` (an extension name).
pub open spec fn is_extension_name(s: Seq<char>) -> bool {
    s.len() > 0 && s[0] == '_'
}

/// The normalized event for the session-update notification parameters `params`.
pub open spec fn normalized(params: JsonV) -> NormalizedEventV {
    match params.get("update"@) {
        None => NormalizedEventV::Ignored { reason: "missing update field"@, raw: params },
        Some(update) => {
            let kind = update_kind(update);
            if kind == "agent_thought_chunk"@ {
                NormalizedEventV::Thought { text: extract_text(update) }
            } else if kind == "agent_message_chunk"@ {
                NormalizedEventV::Message { role: "agent"@, text: extract_text(update) }
            } else if kind == "user_message_chunk"@ {
                NormalizedEventV::Message { role: "user"@, text: extract_text(update) }
            } else if kind == "tool_call"@ {
                NormalizedEventV::ToolCall {
                    tool_call_id: tool_call_id_of(update),
                    title: match update.member_str("title"@) {
                        Some(t) => t,
                        None => "tool"@,
                    },
                    tool_kind: update.member_str("kind"@),
                    status: update.member_str("status"@),
                }
            } else if kind == "tool_call_update"@ {
                NormalizedEventV::ToolCallUpdate {
                    tool_call_id: tool_call_id_of(update),
                    status: update.member_str("status"@),
                    diff: content_block(update, true),
                    terminal: content_block(update, false),
                }
            } else if kind == "config_option_update"@ {
                NormalizedEventV::ConfigOptionUpdate {
                    options: match update.get("configOptions"@) {
                        Some(o) => o,
                        None => JsonV::Null,
                    },
                }
            } else if kind == ""@ {
                if update.get("_meta"@) is Some {
                    NormalizedEventV::Ignored { reason: "extension/_meta"@, raw: update }
                } else {
                    NormalizedEventV::Ignored { reason: "empty sessionUpdate"@, raw: update }
                }
            } else if is_extension_name(kind) {
                NormalizedEventV::Ignored { reason: "extension method"@, raw: update }
            } else {
                NormalizedEventV::Other { session_update: kind, raw: update }
            }
        },
    }
}

/// The normalized event for the permission-request parameters `params`.
pub open spec fn normalized_permission(params: JsonV) -> NormalizedEventV {
    let tool_call = match params.get("toolCall"@) {
        Some(tc) => tc.get("toolCallId"@),
        None => None,
    };
    let tool_call_kind = match params.get("toolCall"@) {
        Some(tc) => tc.get("kind"@),
        None => None,
    };
    NormalizedEventV::PermissionRequest {
        request_id: opt_as_str(get_either(params, "requestId"@, "id"@)),
        tool_call_id: opt_as_str(
            match tool_call {
                Some(x) => Some(x),
                None => params.get("toolCallId"@),
            },
        ),
        op_type: opt_as_str(
            match get_either(params, "opType"@, "op_type"@) {
                Some(x) => Some(x),
                None => tool_call_kind,
            },
        ),
        raw: params,
    }
}

/// A `tool_call` update keeps the update's own `kind` as the tool kind and
/// its own `status` as the status; a `tool_call_update` keeps its `status`.
pub proof fn lemma_tool_call_fields(params: JsonV)
    ensures
        match params.get("update"@) {
            Some(u) => {
                &&& update_kind(u) == "tool_call"@ ==> (normalized(params) matches NormalizedEventV::ToolCall { tool_kind, status, .. }
                    && tool_kind == u.member_str("kind"@) && status == u.member_str("status"@))
                &&& update_kind(u) == "tool_call_update"@ ==> (normalized(params) matches NormalizedEventV::ToolCallUpdate { status, .. }
                    && status == u.member_str("status"@))
            },
            None => true,
        },
{
    broadcast use vstd::string::group_string_axioms;
    reveal_strlit("tool_call");
    reveal_strlit("tool_call_update");
    reveal_strlit("agent_thought_chunk");
    reveal_strlit("agent_message_chunk");
    reveal_strlit("user_message_chunk");
    assert("tool_call"@.len() == 9);
    assert("tool_call_update"@.len() == 16);
    assert("agent_thought_chunk"@.len() == 19);
    assert("agent_message_chunk"@.len() == 19);
    assert("user_message_chunk"@.len() == 18);
}

/// The op type of a permission request is its `opType`, else its
/// `op_type`, else the kind of its `toolCall`.
pub proof fn lemma_permission_op_type(params: JsonV)
    ensures
        normalized_permission(params) matches NormalizedEventV::PermissionRequest { op_type, raw, .. } && raw == params
            && (params.get("opType"@) is Some ==> op_type == params.member_str("opType"@))
            && (params.get("opType"@) is None && params.get("op_type"@) is Some ==> op_type == params.member_str("op_type"@))
            && (params.get("opType"@) is None && params.get("op_type"@) is None ==> op_type == match params.get("toolCall"@) {
                Some(tc) => tc.member_str("kind"@),
                None => None,
            }),
{
}

// ---------------------------------------------------------------------
// Executable normalization.
// ---------------------------------------------------------------------

fn get_either_exec<'a>(v: &'a Json, a: &str, b: &str) -> (r: Option<&'a Json>)
    ensures
        match r {
            Some(x) => get_either(v@, a@, b@) == Some(x@),
            None => get_either(v@, a@, b@) is None,
        },
{
    match v.get(a) {
        Some(x) => Some(x),
        None => v.get(b),
    }
}

fn opt_as_str_exec<'a>(o: Option<&'a Json>) -> (r: Option<&'a str>)
    ensures
        match r {
            Some(s) => opt_as_str(match o { Some(x) => Some(x@), None => None }) == Some(s@),
            None => opt_as_str(match o { Some(x) => Some(x@), None => None }) is None,
        },
{
    match o {
        Some(x) => x.as_str(),
        None => None,
    }
}

fn owned_opt(o: Option<&str>) -> (r: Option<String>)
    ensures
        opt_str_view(r) == match o { Some(s) => Some(s@), None => None::<Seq<char>> },
{
    match o {
        Some(s) => Some(s.to_owned()),
        None => None,
    }
}

/// Whether a text starts with `_`.
fn starts_with_underscore(s: &str) -> (r: bool)
    ensures
        r == is_extension_name(s@),
{
    s.unicode_len() > 0 && s.get_char(0) == '_'
}

fn block_texts_exec(blocks: &Vec<Json>) -> (r: String)
    ensures
        r@ == block_texts(crate::json::seq_view(blocks@)),
{
    let ghost bv = crate::json::seq_view(blocks@);
    proof { crate::json::lemma_seq_view(blocks@); }
    let mut out = String::new();
    let mut i: usize = blocks.len();
    // Build from the back so the accumulated text is always a suffix.
    while i > 0
        invariant
            i <= blocks@.len(),
            bv == crate::json::seq_view(blocks@),
            bv.len() == blocks@.len(),
            forall|j: int| 0 <= j < blocks@.len() ==> #[trigger] bv[j] == blocks@[j]@,
            out@ == block_texts(bv.subrange(i as int, bv.len() as int)),
        decreases i,
    {
        i -= 1;
        let ghost rest = bv.subrange(i + 1, bv.len() as int);
        let ghost here = bv.subrange(i as int, bv.len() as int);
        proof {
            assert(here.drop_first() =~= rest);
            assert(here[0] == bv[i as int]);
        }
        match blocks[i].member_text("text") {
            Some(t) => {
                let mut s = t.to_owned();
                s.append(out.as_str());
                out = s;
            },
            None => {},
        }
    }
    proof { assert(bv.subrange(0, bv.len() as int) =~= bv); }
    out
}

fn extract_text_exec(update: &Json) -> (r: String)
    ensures
        r@ == extract_text(update@),
{
    let fallback = match update.member_text("text") {
        Some(t) => t,
        None => "",
    };
    match update.get("content") {
        Some(c) => {
            if let Some(s) = c.member_text("text") {
                return s.to_owned();
            }
            if let Some(s) = c.as_str() {
                return s.to_owned();
            }
            if let Some(arr) = c.as_array() {
                return block_texts_exec(arr);
            }
            fallback.to_owned()
        },
        None => fallback.to_owned(),
    }
}

fn block_pick(b: &Json, want_diff: bool) -> (r: Option<&str>)
    ensures
        match r {
            Some(s) => (if want_diff { block_diff(b@) } else { block_terminal(b@) }) == Some(s@),
            None => (if want_diff { block_diff(b@) } else { block_terminal(b@) }) is None,
        },
{
    let ty = b.member_text("type");
    if want_diff {
        let is_diff = match ty {
            Some(t) => str_eq(t, "diff"),
            None => false,
        };
        if is_diff {
            opt_as_str_exec(get_either_exec(b, "diff", "text"))
        } else {
            None
        }
    } else {
        let is_term = match ty {
            Some(t) => str_eq(t, "terminal") || str_eq(t, "output"),
            None => false,
        };
        if is_term {
            opt_as_str_exec(get_either_exec(b, "output", "text"))
        } else {
            None
        }
    }
}

proof fn lemma_first_block(blocks: Seq<JsonV>, want_diff: bool, i: int)
    requires
        0 <= i <= blocks.len(),
        forall|j: int| 0 <= j < i ==> (if want_diff { block_diff(#[trigger] blocks[j]) } else { block_terminal(blocks[j]) }) is None,
    ensures
        first_block(blocks, want_diff) == first_block(blocks.subrange(i, blocks.len() as int), want_diff),
    decreases i,
{
    if i > 0 {
        let t = blocks.drop_first();
        assert forall|j: int| 0 <= j < i - 1 implies (if want_diff { block_diff(#[trigger] t[j]) } else { block_terminal(t[j]) }) is None by {
            assert(t[j] == blocks[j + 1]);
        }
        lemma_first_block(t, want_diff, i - 1);
        assert(t.subrange(i - 1, t.len() as int) =~= blocks.subrange(i, blocks.len() as int));
        assert(blocks[0] == blocks[0]);
    } else {
        assert(blocks.subrange(0, blocks.len() as int) =~= blocks);
    }
}

fn content_block_exec(update: &Json, want_diff: bool) -> (r: Option<String>)
    ensures
        opt_str_view(r) == content_block(update@, want_diff),
{
    match update.get("content") {
        Some(c) => match c.as_array() {
            Some(arr) => {
                let ghost bv = crate::json::seq_view(arr@);
                proof { crate::json::lemma_seq_view(arr@); }
                let mut i: usize = 0;
                while i < arr.len()
                    invariant
                        i <= arr@.len(),
                        bv == crate::json::seq_view(arr@),
                        update@.get("content"@) == Some(JsonV::Array(bv)),
                        bv.len() == arr@.len(),
                        forall|j: int| 0 <= j < arr@.len() ==> #[trigger] bv[j] == arr@[j]@,
                        forall|j: int| 0 <= j < i ==> (if want_diff { block_diff(#[trigger] bv[j]) } else { block_terminal(bv[j]) }) is None,
                    decreases arr@.len() - i,
                {
                    match block_pick(&arr[i], want_diff) {
                        Some(s) => {
                            proof {
                                lemma_first_block(bv, want_diff, i as int);
                                let rest = bv.subrange(i as int, bv.len() as int);
                                assert(rest.len() > 0);
                                assert(rest[0] == bv[i as int]);
                                assert(bv[i as int] == arr@[i as int]@);
                                assert(first_block(rest, want_diff) == Some(s@));
                            }
                            return Some(s.to_owned());
                        },
                        None => {},
                    }
                    i += 1;
                }
                proof {
                    lemma_first_block(bv, want_diff, i as int);
                }
                None
            },
            None => None,
        },
        None => None,
    }
}

fn text_or(o: Option<&str>, default: &str) -> (r: String)
    ensures
        r@ == match o { Some(s) => s@, None => default@ },
{
    match o {
        Some(s) => s.to_owned(),
        None => default.to_owned(),
    }
}

/// Normalizes the parameters of a `session/update` notification into one event.
pub fn normalize_session_update(params: &Json) -> (r: Vec<NormalizedEvent>)
    ensures
        r@.len() == 1,
        r@[0]@ == normalized(params@),
        match params@.get("update"@) {
            Some(u) => {
                &&& update_kind(u) == "tool_call"@ ==> (r@[0]@ matches NormalizedEventV::ToolCall { tool_kind, status, .. }
                    && tool_kind == u.member_str("kind"@) && status == u.member_str("status"@))
                &&& update_kind(u) == "tool_call_update"@ ==> (r@[0]@ matches NormalizedEventV::ToolCallUpdate { status, .. }
                    && status == u.member_str("status"@))
            },
            None => true,
        },
{
    proof { lemma_tool_call_fields(params@); }
    let update = match params.get("update") {
        Some(u) => u,
        None => {
            return vec![NormalizedEvent::Ignored { reason: "missing update field".to_owned(), raw: params.deep_clone() }];
        },
    };
    let kind = match opt_as_str_exec(get_either_exec(update, "sessionUpdate", "session_update")) {
        Some(s) => s,
        None => "",
    };
    let ev = if str_eq(kind, "agent_thought_chunk") {
        NormalizedEvent::Thought { text: extract_text_exec(update) }
    } else if str_eq(kind, "agent_message_chunk") {
        NormalizedEvent::Message { role: "agent".to_owned(), text: extract_text_exec(update) }
    } else if str_eq(kind, "user_message_chunk") {
        NormalizedEvent::Message { role: "user".to_owned(), text: extract_text_exec(update) }
    } else if str_eq(kind, "tool_call") {
        NormalizedEvent::ToolCall {
            tool_call_id: text_or(opt_as_str_exec(get_either_exec(update, "toolCallId", "tool_call_id")), ""),
            title: text_or(update.member_text("title"), "tool"),
            tool_kind: owned_opt(update.member_text("kind")),
            status: owned_opt(update.member_text("status")),
        }
    } else if str_eq(kind, "tool_call_update") {
        NormalizedEvent::ToolCallUpdate {
            tool_call_id: text_or(opt_as_str_exec(get_either_exec(update, "toolCallId", "tool_call_id")), ""),
            status: owned_opt(update.member_text("status")),
            diff: content_block_exec(update, true),
            terminal: content_block_exec(update, false),
        }
    } else if str_eq(kind, "config_option_update") {
        NormalizedEvent::ConfigOptionUpdate {
            options: match update.get("configOptions") {
                Some(o) => o.deep_clone(),
                None => Json::Null,
            },
        }
    } else if str_eq(kind, "") {
        if update.get("_meta").is_some() {
            NormalizedEvent::Ignored { reason: "extension/_meta".to_owned(), raw: update.deep_clone() }
        } else {
            NormalizedEvent::Ignored { reason: "empty sessionUpdate".to_owned(), raw: update.deep_clone() }
        }
    } else if starts_with_underscore(kind) {
        NormalizedEvent::Ignored { reason: "extension method".to_owned(), raw: update.deep_clone() }
    } else {
        NormalizedEvent::Other { session_update: kind.to_owned(), raw: update.deep_clone() }
    };
    vec![ev]
}

/// Normalizes the parameters of a `session/request_permission` request.
pub fn normalize_permission_request(params: &Json) -> (r: NormalizedEvent)
    ensures
        r@ == normalized_permission(params@),
        r@ matches NormalizedEventV::PermissionRequest { op_type, raw, .. } && raw == params@
            && (params@.get("opType"@) is Some ==> op_type == params@.member_str("opType"@))
            && (params@.get("opType"@) is None && params@.get("op_type"@) is Some ==> op_type == params@.member_str("op_type"@))
            && (params@.get("opType"@) is None && params@.get("op_type"@) is None ==> op_type == match params@.get("toolCall"@) {
                Some(tc) => tc.member_str("kind"@),
                None => None,
            }),
{
    proof { lemma_permission_op_type(params@); }
    let tool_call = match params.get("toolCall") {
        Some(tc) => tc.get("toolCallId"),
        None => None,
    };
    let tool_call_kind = match params.get("toolCall") {
        Some(tc) => tc.get("kind"),
        None => None,
    };
    let tcid = match tool_call {
        Some(x) => Some(x),
        None => params.get("toolCallId"),
    };
    let op = match get_either_exec(params, "opType", "op_type") {
        Some(x) => Some(x),
        None => tool_call_kind,
    };
    NormalizedEvent::PermissionRequest {
        request_id: owned_opt(opt_as_str_exec(get_either_exec(params, "requestId", "id"))),
        tool_call_id: owned_opt(opt_as_str_exec(tcid)),
        op_type: owned_opt(opt_as_str_exec(op)),
        raw: params.deep_clone(),
    }
}

/// The recorded session of the demo: a thought, a message, a tool call,
/// its update with a diff and terminal output, and an extension update.
pub open spec fn fixture_value() -> JsonV {
    let sid = ("sessionId"@, JsonV::Str("sess_fixture"@));
    JsonV::Array(seq![
        JsonV::Object(seq![sid, ("update"@, JsonV::Object(seq![
            ("sessionUpdate"@, JsonV::Str("agent_thought_chunk"@)),
            ("content"@, JsonV::Object(seq![("type"@, JsonV::Str("text"@)),
                ("text"@, JsonV::Str("I should inspect src/lib.rs first."@))])),
        ]))]),
        JsonV::Object(seq![sid, ("update"@, JsonV::Object(seq![
            ("sessionUpdate"@, JsonV::Str("agent_message_chunk"@)),
            ("content"@, JsonV::Object(seq![("type"@, JsonV::Str("text"@)),
                ("text"@, JsonV::Str("I'll fix the add function."@))])),
        ]))]),
        JsonV::Object(seq![sid, ("update"@, JsonV::Object(seq![
            ("sessionUpdate"@, JsonV::Str("tool_call"@)),
            ("toolCallId"@, JsonV::Str("call_1"@)),
            ("title"@, JsonV::Str("Edit src/lib.rs"@)),
            ("kind"@, JsonV::Str("edit"@)),
            ("status"@, JsonV::Str("pending"@)),
        ]))]),
        JsonV::Object(seq![sid, ("update"@, JsonV::Object(seq![
            ("sessionUpdate"@, JsonV::Str("tool_call_update"@)),
            ("toolCallId"@, JsonV::Str("call_1"@)),
            ("status"@, JsonV::Str("completed"@)),
            ("content"@, JsonV::Array(seq![
                JsonV::Object(seq![("type"@, JsonV::Str("diff"@)), ("path"@, JsonV::Str("src/lib.rs"@)),
                    ("diff"@, JsonV::Str("@@\n-pub fn add(a:i32,b:i32)->i32{a-b}\n+pub fn add(a:i32,b:i32)->i32{a+b}\n"@))]),
                JsonV::Object(seq![("type"@, JsonV::Str("terminal"@)), ("output"@, JsonV::Str("$ cargo test\nok\n"@))]),
            ])),
        ]))]),
        JsonV::Object(seq![sid, ("update"@, JsonV::Object(seq![
            ("sessionUpdate"@, JsonV::Str("_custom_extension"@)),
            ("data"@, JsonV::Number(crate::json::JsonNumberV::PosInt(1))),
            ("_meta"@, JsonV::Object(seq![("x"@, JsonV::Bool(true))])),
        ]))]),
    ])
}

/// `{"sessionId": "sess_fixture", "update": update}`.
fn fixture_entry(update: Json) -> (r: Json)
    ensures
        r@ == JsonV::Object(seq![("sessionId"@, JsonV::Str("sess_fixture"@)), ("update"@, update@)]),
{
    object2("sessionId", Json::text("sess_fixture"), "update", update)
}

/// The recorded session of the demo (see `fixture_value`), replayed when
/// no live agent is available.
pub fn fixture_transcript() -> (r: Json)
    ensures
        r@ == fixture_value(),
{
    let thought = fixture_entry(object2("sessionUpdate", Json::text("agent_thought_chunk"), "content",
        object2("type", Json::text("text"), "text", Json::text("I should inspect src/lib.rs first."))));
    let message = fixture_entry(object2("sessionUpdate", Json::text("agent_message_chunk"), "content",
        object2("type", Json::text("text"), "text", Json::text("I'll fix the add function."))));
    let call = fixture_entry(object5("sessionUpdate", Json::text("tool_call"), "toolCallId", Json::text("call_1"), "title",
        Json::text("Edit src/lib.rs"), "kind", Json::text("edit"), "status", Json::text("pending")));
    let diff = object3("type", Json::text("diff"), "path", Json::text("src/lib.rs"), "diff",
        Json::text("@@\n-pub fn add(a:i32,b:i32)->i32{a-b}\n+pub fn add(a:i32,b:i32)->i32{a+b}\n"));
    let term = object2("type", Json::text("terminal"), "output", Json::text("$ cargo test\nok\n"));
    let ghost dv = diff@;
    let ghost tv = term@;
    let mut blocks: Vec<Json> = Vec::new();
    blocks.push(diff);
    blocks.push(term);
    proof {
        crate::json::lemma_seq_view(blocks@);
        assert(crate::json::seq_view(blocks@) =~= seq![dv, tv]);
    }
    let update = fixture_entry(object4("sessionUpdate", Json::text("tool_call_update"), "toolCallId", Json::text("call_1"),
        "status", Json::text("completed"), "content", Json::Array(blocks)));
    let ext = fixture_entry(object3("sessionUpdate", Json::text("_custom_extension"), "data",
        Json::Number(crate::json::JsonNumber::PosInt(1)), "_meta", object1("x", Json::Bool(true))));
    let ghost vs = seq![thought@, message@, call@, update@, ext@];
    let mut all: Vec<Json> = Vec::new();
    all.push(thought);
    all.push(message);
    all.push(call);
    all.push(update);
    all.push(ext);
    proof {
        crate::json::lemma_seq_view(all@);
        assert(crate::json::seq_view(all@) =~= vs);
        assert(vs =~= fixture_value()->Array_0);
    }
    Json::Array(all)
}

} // verus!
