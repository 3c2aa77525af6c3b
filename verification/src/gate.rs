//! Gates: a deterministic check run after a task. Its exit code is the
//! only truth: 0 passes, anything else fails the task.

use vstd::prelude::*;
use crate::error::CoreError;
use crate::external::new_uuid_v4;
use crate::journal::{appended, Journal};
use crate::json::{int_json, json_int, Json, JsonV};
use crate::memory::{object2, object3};
use crate::store::{Db, GateRecord, GateRecordV};
use crate::text::{str_eq, take_chars};
use crate::types::JournalKind;

verus! {

/// The outcome of a gate that passed.
#[derive(Debug)]
pub struct GateResult {
    pub id: String,
    pub passed: bool,
    pub exit_code: i32,
    pub stdout: String,
    pub stderr: String,
}

/// Records gate runs in the gates table and the journal.
pub struct GateRunner {}

/// The row of a gate that has started and not finished.
pub open spec fn started_gate(id: Seq<char>, run_id: Seq<char>, task_id: Seq<char>, command: Seq<char>) -> GateRecordV {
    GateRecordV {
        id,
        run_id,
        task_id,
        command,
        exit_code: None,
        stdout: None,
        stderr: None,
        status: "running"@,
    }
}

/// `passed` or `failed`, by the exit code alone.
pub open spec fn gate_status(exit_code: i32) -> Seq<char> {
    if exit_code == 0 { "passed"@ } else { "failed"@ }
}

/// The row after its gate finished with this exit code and output.
pub open spec fn finished_gate(g: GateRecordV, exit_code: i32, stdout: Seq<char>, stderr: Seq<char>) -> GateRecordV {
    GateRecordV {
        exit_code: Some(exit_code),
        stdout: Some(stdout),
        stderr: Some(stderr),
        status: gate_status(exit_code),
        ..g
    }
}

/// The gates table after gate `id` finished: every row with that id updated.
pub open spec fn gates_after_finish(rows: Seq<GateRecordV>, id: Seq<char>, exit_code: i32, stdout: Seq<char>, stderr: Seq<char>) -> Seq<GateRecordV> {
    rows.map_values(|g: GateRecordV| if g.id == id { finished_gate(g, exit_code, stdout, stderr) } else { g })
}

/// At most the first 2000 characters of `s`.
pub open spec fn stderr_excerpt(s: Seq<char>) -> Seq<char> {
    if 2000 < s.len() { s.take(2000) } else { s }
}

/// The payload of the event that reports a finished gate.
pub open spec fn finish_payload(id: Seq<char>, exit_code: i32, stderr: Seq<char>) -> JsonV {
    if exit_code == 0 {
        JsonV::Object(seq![("gate_id"@, JsonV::Str(id)), ("exit_code"@, json_int(exit_code as int))])
    } else {
        JsonV::Object(seq![
            ("gate_id"@, JsonV::Str(id)),
            ("exit_code"@, json_int(exit_code as int)),
            ("stderr"@, JsonV::Str(stderr_excerpt(stderr))),
        ])
    }
}

impl GateRunner {
    pub fn new() -> (g: GateRunner) {
        GateRunner {}
    }

    /// Starts a gate: adds a `running` row and journals `gate_started`.
    /// Returns the new gate's id. Fails, changing nothing, when the run is
    /// unknown (the gates table refers to runs).
    pub fn start(&self, db: &mut Db, run_id: &str, task_id: &str, command: &str) -> (r: Result<String, CoreError>)
        requires
            old(db).wf(),
        ensures
            final(db).wf(),
            final(db).same_but_gates(old(db)),
            !old(db).runs.has_run(run_id@) ==> {
                &&& (r matches Err(e) && e is Sqlite)
                &&& final(db).runs.gates@ == old(db).runs.gates@
                &&& final(db).journal == old(db).journal
            },
            old(db).runs.has_run(run_id@) ==> {
                let rows = final(db).runs.gate_rows();
                &&& rows == old(db).runs.gate_rows().push(started_gate(rows.last().id, run_id@, task_id@, command@))
                &&& r is Ok <==> old(db).journal.last_seq() < i64::MAX
                &&& (r matches Ok(id) ==> id@ == rows.last().id && appended(old(db).journal.events(),
                    final(db).journal.events(), JournalKind::GateStarted, Some(run_id@), Some(task_id@),
                    JsonV::Object(seq![("command"@, JsonV::Str(command@)), ("gate_id"@, JsonV::Str(id@))])))
                &&& (r matches Err(e) ==> e is Sqlite && final(db).journal.events() == old(db).journal.events())
            },
    {
        if !db.runs.run_exists(run_id) {
            return Err(crate::store::foreign_key_error());
        }
        let id = new_uuid_v4();
        let row = GateRecord {
            id: id.clone(),
            run_id: run_id.to_owned(),
            task_id: task_id.to_owned(),
            command: command.to_owned(),
            exit_code: None,
            stdout: None,
            stderr: None,
            status: "running".to_owned(),
        };
        let ghost before = db.runs.gate_rows();
        db.runs.gates.push(row);
        proof {
            assert(db.runs.gate_rows() =~= before.push(started_gate(id@, run_id@, task_id@, command@)));
        }
        let payload = object2("command", Json::text(command), "gate_id", Json::text(id.as_str()));
        match db.journal.record(JournalKind::GateStarted, Some(run_id), Some(task_id), payload) {
            Ok(()) => Ok(id),
            Err(e) => Err(e),
        }
    }

    /// Finishes gate `gate_id` with the exit code and output of its
    /// command: updates its row (`passed` exactly when the exit code is 0)
    /// and journals `gate_passed` or `gate_failed`. A failed gate is
    /// returned as the `GateFailed` error.
    pub fn finish(
        &self,
        db: &mut Db,
        gate_id: &str,
        run_id: &str,
        task_id: &str,
        command: &str,
        exit_code: i32,
        stdout: String,
        stderr: String,
    ) -> (r: Result<GateResult, CoreError>)
        requires
            old(db).wf(),
        ensures
            final(db).wf(),
            final(db).same_but_gates(old(db)),
            final(db).runs.gate_rows() == gates_after_finish(old(db).runs.gate_rows(), gate_id@, exit_code, stdout@, stderr@),
            old(db).journal.last_seq() < i64::MAX ==> appended(old(db).journal.events(), final(db).journal.events(),
                if exit_code == 0 { JournalKind::GatePassed } else { JournalKind::GateFailed },
                Some(run_id@), Some(task_id@), finish_payload(gate_id@, exit_code, stderr@)),
            old(db).journal.last_seq() >= i64::MAX ==> (r matches Err(e) && e is Sqlite
                && final(db).journal.events() == old(db).journal.events()),
            old(db).journal.last_seq() < i64::MAX && exit_code == 0 ==> (r matches Ok(g) && g.id@ == gate_id@
                && g.passed && g.exit_code == exit_code && g.stdout@ == stdout@ && g.stderr@ == stderr@),
            old(db).journal.last_seq() < i64::MAX && exit_code != 0 ==> (r matches Err(CoreError::GateFailed {
                task_id: t, command: c, exit_code: x }) && t@ == task_id@ && c@ == command@ && x == exit_code),
    {
        let passed = exit_code == 0;
        let status = if passed { "passed" } else { "failed" };
        proof {
            if passed { assert(status@ == gate_status(exit_code)); } else { assert(status@ == gate_status(exit_code)); }
        }
        let ghost before = db.runs.gate_rows();
        let ghost target = gates_after_finish(before, gate_id@, exit_code, stdout@, stderr@);
        let n = db.runs.gates.len();
        let mut i: usize = 0;
        while i < n
            invariant
                n == db.runs.gates@.len(),
                n == before.len(),
                i <= n,
                status@ == gate_status(exit_code),
                target == gates_after_finish(before, gate_id@, exit_code, stdout@, stderr@),
                forall|j: int| 0 <= j < i ==> #[trigger] db.runs.gate_rows()[j] == target[j],
                forall|j: int| i <= j < n ==> #[trigger] db.runs.gate_rows()[j] == before[j],
                db.same_but_gates(old(db)),
                db.journal == old(db).journal,
            decreases n - i,
        {
            proof {
                assert(before[i as int] == db.runs.gate_rows()[i as int]);
                assert(db.runs.gate_rows()[i as int] == db.runs.gates@[i as int]@);
            }
            if str_eq(db.runs.gates[i].id.as_str(), gate_id) {
                let updated = GateRecord {
                    id: db.runs.gates[i].id.clone(),
                    run_id: db.runs.gates[i].run_id.clone(),
                    task_id: db.runs.gates[i].task_id.clone(),
                    command: db.runs.gates[i].command.clone(),
                    exit_code: Some(exit_code),
                    stdout: Some(stdout.clone()),
                    stderr: Some(stderr.clone()),
                    status: status.to_owned(),
                };
                proof { assert(updated@ == target[i as int]); }
                let ghost mid = db.runs.gate_rows();
                db.runs.gates.set(i, updated);
                proof {
                    assert forall|j: int| 0 <= j < n && j != i implies #[trigger] db.runs.gate_rows()[j] == mid[j] by {}
                    assert(db.runs.gate_rows()[i as int] == target[i as int]);
                }
            } else {
                proof { assert(target[i as int] == before[i as int]); }
            }
            i += 1;
        }
        proof { assert(db.runs.gate_rows() =~= target); }
        let payload = if passed {
            object2("gate_id", Json::text(gate_id), "exit_code", int_json(exit_code as i64))
        } else {
            let excerpt = take_chars(stderr.as_str(), 2000);
            object3("gate_id", Json::text(gate_id), "exit_code", int_json(exit_code as i64), "stderr",
                Json::text(excerpt.as_str()))
        };
        let kind = if passed { JournalKind::GatePassed } else { JournalKind::GateFailed };
        match db.journal.record(kind, Some(run_id), Some(task_id), payload) {
            Ok(()) => {},
            Err(e) => { return Err(e); },
        }
        if passed {
            Ok(GateResult { id: gate_id.to_owned(), passed: true, exit_code, stdout, stderr })
        } else {
            Err(CoreError::GateFailed { task_id: task_id.to_owned(), command: command.to_owned(), exit_code })
        }
    }
}

} // verus!
