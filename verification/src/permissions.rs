//! Permission decisions keyed by operation type. A standing "remember"
//! decision for one op type never answers for another, and a request that
//! nothing was remembered for is never treated as allowed.

use vstd::prelude::*;
use crate::error::CoreError;
use crate::external::now_rfc3339;
use crate::journal::{appended, Journal, copy_opt, opt_view, opt_str_ref_view, owned_opt_str};
use crate::json::{Json, JsonNumber, JsonV, JsonNumberV};
use crate::memory::{object2, object4};
use crate::types::JournalKind;

verus! {

/// One row of the permission table.
#[derive(Debug)]
pub struct PermissionRecord {
    pub id: i64,
    pub session_id: Option<String>,
    pub op_type: String,
    pub tool_call_id: Option<String>,
    /// `requested`, `allowed` or `denied`.
    pub status: String,
    /// A standing decision for every later request of this op type.
    pub remembered: bool,
    pub payload: Json,
    pub created_at: String,
    pub resolved_at: Option<String>,
}

pub struct PermissionV {
    pub id: int,
    pub session_id: Option<Seq<char>>,
    pub op_type: Seq<char>,
    pub tool_call_id: Option<Seq<char>>,
    pub status: Seq<char>,
    pub remembered: bool,
    pub payload: JsonV,
}

impl View for PermissionRecord {
    type V = PermissionV;

    open spec fn view(&self) -> PermissionV {
        PermissionV {
            id: self.id as int,
            session_id: opt_view(self.session_id),
            op_type: self.op_type@,
            tool_call_id: opt_view(self.tool_call_id),
            status: self.status@,
            remembered: self.remembered,
            payload: self.payload@,
        }
    }
}

/// The status text of a decision.
pub open spec fn decision_status(allow: bool) -> Seq<char> {
    if allow { "allowed"@ } else { "denied"@ }
}

/// The latest remembered decision for `op`: the newest remembered row of
/// that op type, read as allowed iff its status is `allowed`.
pub open spec fn latest_remembered(rows: Seq<PermissionV>, op: Seq<char>) -> Option<bool>
    decreases rows.len(),
{
    if rows.len() == 0 {
        None
    } else if rows.last().op_type == op && rows.last().remembered {
        Some(rows.last().status == "allowed"@)
    } else {
        latest_remembered(rows.drop_last(), op)
    }
}

/// The decision used to auto-answer a request of op type `op`.
pub open spec fn decision(rows: Seq<PermissionV>, op: Seq<char>) -> Option<bool> {
    if op.len() == 0 { None } else { latest_remembered(rows, op) }
}

/// The payload of a standing remember row.
pub open spec fn remember_payload(op: Seq<char>) -> JsonV {
    JsonV::Object(seq![("source"@, JsonV::Str("remember"@)), ("op_type"@, JsonV::Str(op))])
}

/// The JSON value of an optional string: the string, or null.
/// A row id as JSON: a number, negative ones kept as such.
pub open spec fn id_json(id: int) -> JsonV {
    if id >= 0 { JsonV::Number(JsonNumberV::PosInt(id as u64)) } else { JsonV::Number(JsonNumberV::NegInt(id as i64)) }
}

/// The payload journaled when a request is recorded.
pub open spec fn requested_json(id: int, op: Seq<char>, tool_call_id: Option<Seq<char>>, session_id: Option<Seq<char>>) -> JsonV {
    JsonV::Object(seq![
        ("permission_id"@, id_json(id)),
        ("op_type"@, JsonV::Str(op)),
        ("tool_call_id"@, json_opt_str(tool_call_id)),
        ("session_id"@, json_opt_str(session_id)),
    ])
}

/// The payload journaled when a request is resolved.
pub open spec fn resolved_json(id: int, op: Seq<char>, allow: bool, remembered: bool) -> JsonV {
    JsonV::Object(seq![
        ("permission_id"@, id_json(id)),
        ("op_type"@, JsonV::Str(op)),
        ("allow"@, JsonV::Bool(allow)),
        ("remembered"@, JsonV::Bool(remembered)),
    ])
}

pub open spec fn json_opt_str(o: Option<Seq<char>>) -> JsonV {
    match o {
        Some(s) => JsonV::Str(s),
        None => JsonV::Null,
    }
}

fn json_opt(o: Option<&str>) -> (r: Json)
    ensures
        r@ == json_opt_str(opt_str_ref_view(o)),
{
    match o {
        Some(s) => Json::text(s),
        None => Json::Null,
    }
}

/// The JSON number of a positive id.
fn json_id(id: i64) -> (r: Json)
    requires
        id >= 0,
    ensures
        r@ == JsonV::Number(JsonNumberV::PosInt(id as u64)),
{
    Json::Number(JsonNumber::PosInt(id as u64))
}

impl PermissionRecord {
    pub fn duplicate(&self) -> (r: PermissionRecord)
        ensures
            r@ == self@,
    {
        PermissionRecord {
            id: self.id,
            session_id: copy_opt(&self.session_id),
            op_type: self.op_type.clone(),
            tool_call_id: copy_opt(&self.tool_call_id),
            status: self.status.clone(),
            remembered: self.remembered,
            payload: self.payload.deep_clone(),
            created_at: self.created_at.clone(),
            resolved_at: copy_opt(&self.resolved_at),
        }
    }
}

/// Saved rows form a permission table when their ids run 1, 2, 3, ...
pub open spec fn restorable_rows(rows: Seq<PermissionV>) -> bool {
    forall|k: int| 0 <= k < rows.len() ==> #[trigger] rows[k].id == k + 1
}

/// The permission table; the `k`-th row (from 0) has id `k + 1`.
pub struct PermissionStore {
    rows: Vec<PermissionRecord>,
}

impl PermissionStore {
    pub closed spec fn rows(&self) -> Seq<PermissionV> {
        self.rows@.map_values(|r: PermissionRecord| r@)
    }

    pub open spec fn wf(&self) -> bool {
        forall|k: int| 0 <= k < self.rows().len() ==> #[trigger] self.rows()[k].id == k + 1
    }

    pub fn new() -> (s: PermissionStore)
        ensures
            s.wf(),
            s.rows().len() == 0,
    {
        let s = PermissionStore { rows: Vec::new() };
        proof { assert(s.rows() =~= Seq::<PermissionV>::empty()); }
        s
    }

    /// Every row, in id order: what is saved of the table.
    pub fn snapshot(&self) -> (r: Vec<PermissionRecord>)
        ensures
            r@.map_values(|x: PermissionRecord| x@) == self.rows(),
    {
        let mut out: Vec<PermissionRecord> = Vec::new();
        let mut i: usize = 0;
        while i < self.rows.len()
            invariant
                i <= self.rows@.len(),
                out@.map_values(|x: PermissionRecord| x@) == self.rows().take(i as int),
            decreases self.rows@.len() - i,
        {
            let ghost prev = out@.map_values(|x: PermissionRecord| x@);
            out.push(self.rows[i].duplicate());
            proof {
                assert(out@.map_values(|x: PermissionRecord| x@) =~= prev.push(self.rows@[i as int]@));
                assert(self.rows().take(i + 1) =~= self.rows().take(i as int).push(self.rows@[i as int]@));
            }
            i += 1;
        }
        proof { assert(self.rows().take(i as int) =~= self.rows()); }
        out
    }

    /// The table of saved rows, when their ids run 1, 2, 3, ...; anything
    /// else is refused. A restored table answers every lookup as the saved one did.
    pub fn restore(rows: Vec<PermissionRecord>) -> (r: Option<PermissionStore>)
        ensures
            r is Some <==> restorable_rows(rows@.map_values(|x: PermissionRecord| x@)),
            r matches Some(s) ==> s.wf() && s.rows() == rows@.map_values(|x: PermissionRecord| x@),
    {
        let ghost vs = rows@.map_values(|x: PermissionRecord| x@);
        let mut k: usize = 0;
        while k < rows.len()
            invariant
                vs == rows@.map_values(|x: PermissionRecord| x@),
                k <= rows@.len(),
                forall|j: int| 0 <= j < k ==> #[trigger] vs[j].id == j + 1,
            decreases rows@.len() - k,
        {
            proof { assert(vs[k as int] == rows@[k as int]@); }
            if rows[k].id as i128 != k as i128 + 1 {
                proof { assert(vs[k as int].id != k + 1); }
                return None;
            }
            k += 1;
        }
        Some(PermissionStore { rows })
    }

    /// The latest remembered decision for exactly this op type, if any.
    pub fn lookup_remembered(&self, op_type: &str) -> (r: Result<Option<bool>, CoreError>)
        ensures
            r == Ok::<Option<bool>, CoreError>(latest_remembered(self.rows(), op_type@)),
    {
        let ghost rows = self.rows();
        let mut i: usize = self.rows.len();
        proof { assert(rows.take(i as int) =~= rows); }
        while i > 0
            invariant
                rows == self.rows(),
                i <= self.rows@.len(),
                latest_remembered(rows, op_type@) == latest_remembered(rows.take(i as int), op_type@),
            decreases i,
        {
            let ghost t = rows.take(i as int);
            proof {
                assert(t.last() == self.rows@[i - 1]@);
                assert(t.drop_last() =~= rows.take(i - 1));
            }
            let row = &self.rows[i - 1];
            if crate::text::str_eq(row.op_type.as_str(), op_type) && row.remembered {
                return Ok(Some(crate::text::str_eq(row.status.as_str(), "allowed")));
            }
            i -= 1;
        }
        proof { assert(rows.take(0).len() == 0); }
        Ok(None)
    }

    fn push_row(&mut self, session_id: Option<&str>, op_type: &str, tool_call_id: Option<&str>, status: &str, remembered: bool, payload: Json, resolved: bool) -> (r: Result<i64, CoreError>)
        requires
            old(self).wf(),
        ensures
            final(self).wf(),
            match r {
                Ok(id) => {
                    &&& id as int == old(self).rows().len() + 1
                    &&& final(self).rows() == old(self).rows().push(PermissionV {
                        id: id as int,
                        session_id: opt_str_ref_view(session_id),
                        op_type: op_type@,
                        tool_call_id: opt_str_ref_view(tool_call_id),
                        status: status@,
                        remembered,
                        payload: payload@,
                    })
                },
                Err(e) => e is Sqlite && final(self).rows() == old(self).rows() && old(self).rows().len() >= i64::MAX,
            },
            r is Err <==> old(self).rows().len() >= i64::MAX,
    {
        let n = self.rows.len();
        proof { assert(self.rows().len() == self.rows@.len()); }
        if n as u64 >= 0x7fff_ffff_ffff_ffffu64 {
            return Err(CoreError::Sqlite("database or disk is full".to_owned()));
        }
        let id = (n as i64) + 1;
        let now = now_rfc3339();
        let resolved_at = if resolved { Some(now.clone()) } else { None };
        let row = PermissionRecord {
            id,
            session_id: owned_opt_str(session_id),
            op_type: op_type.to_owned(),
            tool_call_id: owned_opt_str(tool_call_id),
            status: status.to_owned(),
            remembered,
            payload,
            created_at: now,
            resolved_at,
        };
        let ghost rv = row@;
        let ghost before = self.rows();
        self.rows.push(row);
        proof { assert(self.rows() =~= before.push(rv)); }
        Ok(id)
    }

    /// Persists a standing decision for `op_type` and returns its row id.
    pub fn remember(&mut self, op_type: &str, allow: bool) -> (r: Result<i64, CoreError>)
        requires
            old(self).wf(),
        ensures
            final(self).wf(),
            match r {
                Ok(id) => {
                    &&& id as int == old(self).rows().len() + 1
                    &&& final(self).rows() == old(self).rows().push(PermissionV {
                        id: id as int,
                        session_id: None,
                        op_type: op_type@,
                        tool_call_id: None,
                        status: decision_status(allow),
                        remembered: true,
                        payload: remember_payload(op_type@),
                    })
                },
                Err(e) => e is Sqlite && final(self).rows() == old(self).rows(),
            },
            r is Err <==> old(self).rows().len() >= i64::MAX,
    {
        let status = if allow { "allowed" } else { "denied" };
        let payload = object2("source", Json::text("remember"), "op_type", Json::text(op_type));
        self.push_row(None, op_type, None, status, true, payload, true)
    }

    /// Records an incoming request (granting nothing) and journals it.
    pub fn record_request(
        &mut self,
        journal: &mut Journal,
        session_id: Option<&str>,
        op_type: &str,
        tool_call_id: Option<&str>,
        payload: &Json,
    ) -> (r: Result<i64, CoreError>)
        requires
            old(self).wf(),
            old(journal).wf(),
        ensures
            final(self).wf(),
            final(journal).wf(),
            match r {
                Ok(id) => {
                    &&& id as int == old(self).rows().len() + 1
                    &&& final(self).rows() == old(self).rows().push(PermissionV {
                        id: id as int,
                        session_id: opt_str_ref_view(session_id),
                        op_type: op_type@,
                        tool_call_id: opt_str_ref_view(tool_call_id),
                        status: "requested"@,
                        remembered: false,
                        payload: payload@,
                    })
                    &&& appended(old(journal).events(), final(journal).events(), JournalKind::PermissionRequested,
                        None, None, requested_json(id as int, op_type@, opt_str_ref_view(tool_call_id),
                        opt_str_ref_view(session_id)))
                },
                Err(e) => e is Sqlite && final(journal).events() == old(journal).events(),
            },
            old(self).rows().len() < i64::MAX && old(journal).last_seq() < i64::MAX ==> r is Ok,
            forall|op: Seq<char>| #[trigger] latest_remembered(final(self).rows(), op) == latest_remembered(old(self).rows(), op),
    {
        let id = match self.push_row(session_id, op_type, tool_call_id, "requested", false, payload.deep_clone(), false) {
            Ok(id) => id,
            Err(e) => {
                return Err(e);
            },
        };
        proof {
            assert forall|op: Seq<char>| #[trigger] latest_remembered(self.rows(), op) == latest_remembered(old(self).rows(), op) by {
                assert(self.rows().drop_last() =~= old(self).rows());
            }
        }
        let payload_json = object4(
            "permission_id",
            json_id(id),
            "op_type",
            Json::text(op_type),
            "tool_call_id",
            json_opt(tool_call_id),
            "session_id",
            json_opt(session_id),
        );
        match journal.record(JournalKind::PermissionRequested, None, None, payload_json) {
            Ok(()) => Ok(id),
            Err(e) => Err(e),
        }
    }

    /// Resolves request `permission_id`; with `remember` it also writes a
    /// standing decision for `op_type`. The resolution is journaled.
    pub fn resolve(&mut self, journal: &mut Journal, permission_id: i64, allow: bool, remember: bool, op_type: &str) -> (r: Result<(), CoreError>)
        requires
            old(self).wf(),
            old(journal).wf(),
        ensures
            final(self).wf(),
            final(journal).wf(),
            ({
                let rows = old(self).rows();
                let k = permission_id - 1;
                let updated = if 0 <= k < rows.len() {
                    rows.update(k, PermissionV { status: decision_status(allow), remembered: remember, ..rows[k] })
                } else {
                    rows
                };
                &&& remember ==> (r is Ok ==> final(self).rows() == updated.push(PermissionV {
                    id: rows.len() as int + 1,
                    session_id: None,
                    op_type: op_type@,
                    tool_call_id: None,
                    status: decision_status(allow),
                    remembered: true,
                    payload: remember_payload(op_type@),
                }))
                &&& !remember ==> final(self).rows() == updated
            }),
            r is Ok ==> appended(old(journal).events(), final(journal).events(), JournalKind::PermissionResolved,
                None, None, resolved_json(permission_id as int, op_type@, allow, remember)),
            r matches Err(e) ==> e is Sqlite && final(journal).events() == old(journal).events(),
            old(self).rows().len() < i64::MAX && old(journal).last_seq() < i64::MAX ==> r is Ok,
    {
        let now = now_rfc3339();
        let status = if allow { "allowed" } else { "denied" };
        let ghost rows = self.rows();
        if permission_id >= 1 && ((permission_id - 1) as u64) < (self.rows.len() as u64) {
            let k = (permission_id - 1) as usize;
            let old_row = &self.rows[k];
            let row = PermissionRecord {
                id: old_row.id,
                session_id: crate::journal::copy_opt(&old_row.session_id),
                op_type: old_row.op_type.clone(),
                tool_call_id: crate::journal::copy_opt(&old_row.tool_call_id),
                status: status.to_owned(),
                remembered: remember,
                payload: old_row.payload.deep_clone(),
                created_at: old_row.created_at.clone(),
                resolved_at: Some(now),
            };
            self.rows.set(k, row);
            proof {
                assert(self.rows() =~= rows.update(k as int, PermissionV { status: decision_status(allow), remembered: remember, ..rows[k as int] }));
            }
        } else {
            proof { assert(self.rows().len() == self.rows@.len()); }
        }
        if remember {
            match self.remember(op_type, allow) {
                Ok(_) => {},
                Err(e) => {
                    return Err(e);
                },
            }
        }
        let payload_json = object4("permission_id", if permission_id >= 0 {
            json_id(permission_id)
        } else {
            Json::Number(JsonNumber::NegInt(permission_id))
        }, "op_type", Json::text(op_type), "allow", Json::Bool(allow), "remembered", Json::Bool(remember));
        journal.record(JournalKind::PermissionResolved, None, None, payload_json)
    }

    /// How to auto-answer a request of op type `op_type`. `None` means
    /// nothing was remembered: callers must deny, never allow.
    pub fn decision_for(&self, op_type: &str) -> (r: Result<Option<bool>, CoreError>)
        ensures
            r == Ok::<Option<bool>, CoreError>(decision(self.rows(), op_type@)),
    {
        if op_type.unicode_len() == 0 {
            return Ok(None);
        }
        self.lookup_remembered(op_type)
    }
}

/// What `remember` wrote is what a later lookup reads.
pub proof fn lemma_remember_then_lookup(rows: Seq<PermissionV>, row: PermissionV, op: Seq<char>, allow: bool)
    requires
        row.op_type == op,
        row.remembered,
        row.status == decision_status(allow),
    ensures
        latest_remembered(rows.push(row), op) == Some(allow),
{
    broadcast use vstd::string::group_string_axioms;
    reveal_strlit("allowed");
    reveal_strlit("denied");
    assert("allowed"@.len() == 7);
    assert("denied"@.len() == 6);
    assert(rows.push(row).last() == row);
}

/// A remembered decision for one op type does not answer for another.
pub proof fn lemma_no_cross_grant(rows: Seq<PermissionV>, row: PermissionV, other: Seq<char>)
    requires
        row.op_type != other,
    ensures
        latest_remembered(rows.push(row), other) == latest_remembered(rows, other),
{
    assert(rows.push(row).drop_last() =~= rows);
}

/// With nothing remembered for an op type there is no decision: such a
/// request is never auto-allowed.
pub proof fn lemma_unremembered_not_allowed(rows: Seq<PermissionV>, op: Seq<char>)
    requires
        forall|k: int| 0 <= k < rows.len() ==> !(#[trigger] rows[k].op_type == op && rows[k].remembered),
    ensures
        decision(rows, op) is None,
    decreases rows.len(),
{
    if rows.len() > 0 {
        let d = rows.drop_last();
        assert forall|k: int| 0 <= k < d.len() implies !(#[trigger] d[k].op_type == op && d[k].remembered) by {
            assert(d[k] == rows[k]);
        }
        lemma_unremembered_not_allowed(d, op);
        assert(!(rows[rows.len() - 1].op_type == op && rows[rows.len() - 1].remembered));
    }
}

/// A standing decision survives saving and restoring the table: a table
/// restored from a snapshot of a well-formed table is accepted and decides
/// every op type as before.
pub proof fn lemma_restored_decisions(saved: PermissionStore, restored: PermissionStore, op: Seq<char>)
    requires
        saved.wf(),
        restored.rows() == saved.rows(),
    ensures
        restorable_rows(saved.rows()),
        decision(restored.rows(), op) == decision(saved.rows(), op),
{
}

} // verus!
