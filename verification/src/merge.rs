//! The merge queue admits a task only when its latest gate passed: a
//! silent merge on red would let downstream work start on broken code.

use vstd::prelude::*;
use vstd::string::*;
use crate::error::CoreError;
use crate::journal::{appended, Journal};
use crate::json::{Json, JsonV};
use crate::memory::{object1, object2, object3, object4};
use crate::store::{Db, GateRecordV};
use crate::text::str_eq;
use crate::types::JournalKind;

verus! {

/// Admission to the merge queue, and the record of finished merges.
pub struct MergeQueue {}

/// How a merge went.
#[derive(Debug)]
pub enum MergeOutcome {
    /// `git merge` of the task branch succeeded.
    Merged,
    /// `git merge` failed and the worktree's files were copied over
    /// instead; the text is what git wrote to stderr.
    FallbackCopy(String),
}

/// The status of the most recent gate row of the task, if it has one.
pub open spec fn latest_gate_status(rows: Seq<GateRecordV>, run_id: Seq<char>, task_id: Seq<char>) -> Option<Seq<char>>
    decreases rows.len(),
{
    if rows.len() == 0 {
        None
    } else if rows.last().run_id == run_id && rows.last().task_id == task_id {
        Some(rows.last().status)
    } else {
        latest_gate_status(rows.drop_last(), run_id, task_id)
    }
}

/// The message of a refused merge.
pub open spec fn rejection_message(task_id: Seq<char>) -> Seq<char> {
    "merge rejected for task "@ + task_id + ": gate not passed"@
}

/// The payload that records a refused merge.
pub open spec fn rejection_payload(status: Option<Seq<char>>) -> JsonV {
    JsonV::Object(seq![
        ("reason"@, JsonV::Str("gate_not_passed"@)),
        ("gate_status"@, match status { Some(s) => JsonV::Str(s), None => JsonV::Null }),
    ])
}

/// The payload that records a finished merge.
pub open spec fn completion_payload(branch: Seq<char>, base: Seq<char>, outcome: MergeOutcome) -> JsonV {
    match outcome {
        MergeOutcome::Merged => JsonV::Object(seq![
            ("branch"@, JsonV::Str(branch)),
            ("base"@, JsonV::Str(base)),
            ("mode"@, JsonV::Str("git_merge"@)),
        ]),
        MergeOutcome::FallbackCopy(err) => JsonV::Object(seq![
            ("branch"@, JsonV::Str(branch)),
            ("base"@, JsonV::Str(base)),
            ("mode"@, JsonV::Str("fallback_copy"@)),
            ("git_stderr"@, JsonV::Str(err@)),
        ]),
    }
}

impl MergeQueue {
    pub fn new() -> (q: MergeQueue) {
        MergeQueue {}
    }

    /// The status of the task's most recent gate, if it has one.
    pub fn latest_gate(&self, db: &Db, run_id: &str, task_id: &str) -> (r: Option<String>)
        ensures
            match r {
                Some(s) => latest_gate_status(db.runs.gate_rows(), run_id@, task_id@) == Some(s@),
                None => latest_gate_status(db.runs.gate_rows(), run_id@, task_id@) is None,
            },
    {
        let ghost rows = db.runs.gate_rows();
        let mut k: usize = db.runs.gates.len();
        proof { assert(rows.take(k as int) =~= rows); }
        while k > 0
            invariant
                rows == db.runs.gate_rows(),
                k <= rows.len(),
                latest_gate_status(rows, run_id@, task_id@) == latest_gate_status(rows.take(k as int), run_id@, task_id@),
            decreases k,
        {
            let g = &db.runs.gates[k - 1];
            proof {
                assert(rows.take(k as int).last() == g@);
                assert(rows.take(k as int).drop_last() =~= rows.take(k - 1));
            }
            if str_eq(g.run_id.as_str(), run_id) && str_eq(g.task_id.as_str(), task_id) {
                return Some(g.status.clone());
            }
            k -= 1;
        }
        None
    }

    /// Admits the task's branch to the merge queue when the task's latest
    /// gate passed, journaling `merge_queued`; otherwise journals
    /// `merge_rejected` with that gate's status and refuses.
    pub fn enqueue(&self, db: &mut Db, run_id: &str, task_id: &str, branch: &str) -> (r: Result<(), CoreError>)
        requires
            old(db).wf(),
        ensures
            final(db).wf(),
            final(db).same_but_journal(old(db)),
            r is Ok ==> latest_gate_status(old(db).runs.gate_rows(), run_id@, task_id@) == Some("passed"@),
            ({
                let st = latest_gate_status(old(db).runs.gate_rows(), run_id@, task_id@);
                &&& old(db).journal.last_seq() < i64::MAX && st == Some("passed"@) ==> (r is Ok && appended(
                    old(db).journal.events(), final(db).journal.events(), JournalKind::MergeQueued,
                    Some(run_id@), Some(task_id@), JsonV::Object(seq![("branch"@, JsonV::Str(branch@))])))
                &&& old(db).journal.last_seq() < i64::MAX && st != Some("passed"@) ==> (appended(
                    old(db).journal.events(), final(db).journal.events(), JournalKind::MergeRejected,
                    Some(run_id@), Some(task_id@), rejection_payload(st))
                    && (r matches Err(CoreError::Other(m)) && m@ == rejection_message(task_id@)))
                &&& old(db).journal.last_seq() >= i64::MAX ==> (r matches Err(e) && e is Sqlite
                    && final(db).journal.events() == old(db).journal.events())
            }),
    {
        let status = self.latest_gate(db, run_id, task_id);
        let passed = match &status {
            Some(s) => str_eq(s.as_str(), "passed"),
            None => false,
        };
        if !passed {
            let ghost st = latest_gate_status(db.runs.gate_rows(), run_id@, task_id@);
            let st_json = match &status {
                Some(s) => Json::text(s.as_str()),
                None => Json::Null,
            };
            proof {
                assert(st_json@ == (match st { Some(x) => JsonV::Str(x), None => JsonV::Null }));
                assert(rejection_payload(st)->Object_0 =~= seq![
                    ("reason"@, JsonV::Str("gate_not_passed"@)), ("gate_status"@, st_json@)]);
            }
            let payload = object2("reason", Json::text("gate_not_passed"), "gate_status", st_json);
            match db.journal.record(JournalKind::MergeRejected, Some(run_id), Some(task_id), payload) {
                Ok(()) => {},
                Err(e) => { return Err(e); },
            }
            let mut m = "merge rejected for task ".to_owned();
            m.append(task_id);
            m.append(": gate not passed");
            return Err(CoreError::Other(m));
        }
        let payload = object1("branch", Json::text(branch));
        db.journal.record(JournalKind::MergeQueued, Some(run_id), Some(task_id), payload)
    }

    /// Journals `merge_completed` for a merge that went the given way.
    pub fn complete(&self, db: &mut Db, run_id: &str, task_id: &str, branch: &str, base: &str, outcome: MergeOutcome) -> (r: Result<(), CoreError>)
        requires
            old(db).wf(),
        ensures
            final(db).wf(),
            final(db).same_but_journal(old(db)),
            r is Ok ==> appended(old(db).journal.events(), final(db).journal.events(), JournalKind::MergeCompleted,
                Some(run_id@), Some(task_id@), completion_payload(branch@, base@, outcome)),
            r matches Err(e) ==> e is Sqlite && final(db).journal.events() == old(db).journal.events(),
            r is Err <==> old(db).journal.last_seq() >= i64::MAX,
    {
        let payload = match &outcome {
            MergeOutcome::Merged => object3("branch", Json::text(branch), "base", Json::text(base), "mode",
                Json::text("git_merge")),
            MergeOutcome::FallbackCopy(err) => object4("branch", Json::text(branch), "base", Json::text(base),
                "mode", Json::text("fallback_copy"), "git_stderr", Json::text(err.as_str())),
        };
        db.journal.record(JournalKind::MergeCompleted, Some(run_id), Some(task_id), payload)
    }
}

/// The branch a task merges into: `main` if it exists, else `master` if
/// it exists, else `HEAD`.
pub fn detect_base_branch(main_exists: bool, master_exists: bool) -> (b: String)
    ensures
        b@ == (if main_exists { "main"@ } else if master_exists { "master"@ } else { "HEAD"@ }),
{
    if main_exists {
        "main".to_owned()
    } else if master_exists {
        "master".to_owned()
    } else {
        "HEAD".to_owned()
    }
}

} // verus!
