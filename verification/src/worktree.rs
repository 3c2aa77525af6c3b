//! Worktrees: every parallel task works in a checkout of its own. Only
//! tasks that opt in share the repository in place, and that is recorded
//! with a visible warning.

use vstd::prelude::*;
use vstd::string::*;
use crate::error::CoreError;
use crate::external::{hex_encode, hex_lower, new_uuid_v4, sha256_digest, sha256_spec};
use crate::journal::{appended, Journal};
use crate::json::{Json, JsonV};
use crate::memory::{object1, object3, json_string_array, json_strings};
use crate::pathutil::{join_path, joined};
use crate::store::{foreign_key_error, unique_error, ArtifactRecord, ArtifactRecordV, Db, WorktreeRecord, WorktreeRecordV};
use crate::text::{str_eq, views_of};
use crate::types::{ArtifactRef, JournalKind};

verus! {

/// A checkout assigned to a task.
#[derive(Debug)]
pub struct WorktreeInfo {
    pub id: String,
    pub path: String,
    pub branch: String,
    pub task_id: String,
    pub inplace: bool,
}

/// Where an isolated worktree for a task goes.
#[derive(Debug)]
pub struct WorktreePlan {
    pub branch: String,
    pub path: String,
}

/// Assigns checkouts to tasks under a repository and a worktree root,
/// both already resolved.
pub struct WorktreeManager {
    repo_root: String,
    worktree_root: String,
}

/// The warning recorded with every in-place checkout.
pub open spec fn inplace_warning() -> Seq<char> {
    "⚠ 原地·非隔离"@
}

/// The branch of a task's isolated worktree.
pub open spec fn task_branch(run_id: Seq<char>, task_id: Seq<char>) -> Seq<char> {
    "agent/"@ + run_id + "/"@ + task_id
}

/// The first active worktree row on `branch`, if any.
pub open spec fn first_active_on_branch(rows: Seq<WorktreeRecordV>, branch: Seq<char>) -> Option<int>
    decreases rows.len(),
{
    if rows.len() == 0 {
        None
    } else {
        match first_active_on_branch(rows.drop_last(), branch) {
            Some(i) => Some(i),
            None => if rows.last().branch == branch && rows.last().status == "active"@ {
                Some(rows.len() - 1)
            } else {
                None
            },
        }
    }
}

impl WorktreeManager {
    pub closed spec fn root(&self) -> Seq<char> {
        self.repo_root@
    }

    pub closed spec fn worktrees_dir(&self) -> Seq<char> {
        self.worktree_root@
    }

    /// A manager for the resolved repository and worktree root.
    pub fn new(repo_root: String, worktree_root: String) -> (m: WorktreeManager)
        ensures
            m.root() == repo_root@,
            m.worktrees_dir() == worktree_root@,
    {
        WorktreeManager { repo_root, worktree_root }
    }

    pub fn repo_root(&self) -> (r: &str)
        ensures
            r@ == self.root(),
    {
        self.repo_root.as_str()
    }

    pub fn worktree_root(&self) -> (r: &str)
        ensures
            r@ == self.worktrees_dir(),
    {
        self.worktree_root.as_str()
    }

    /// Lets a task work in the repository itself: records an `inplace`
    /// row on branch `inplace/<task>` and journals `worktree_created` with
    /// the in-place warning. The path column is unique, so a second
    /// in-place task on the same repository is refused.
    pub fn create_inplace(&self, db: &mut Db, run_id: &str, task_id: &str) -> (r: Result<WorktreeInfo, CoreError>)
        requires
            old(db).wf(),
        ensures
            final(db).wf(),
            final(db).same_but_worktrees(old(db)),
            !old(db).runs.has_run(run_id@) || old(db).runs.has_worktree_path(self.root()) ==> {
                &&& (r matches Err(e) && e is Sqlite)
                &&& final(db).runs.worktrees@ == old(db).runs.worktrees@
                &&& final(db).journal == old(db).journal
            },
            old(db).runs.has_run(run_id@) && !old(db).runs.has_worktree_path(self.root()) ==> {
                let rows = final(db).runs.worktree_rows();
                &&& rows == old(db).runs.worktree_rows().push(WorktreeRecordV {
                    id: rows.last().id,
                    run_id: run_id@,
                    task_id: task_id@,
                    path: self.root(),
                    branch: "inplace/"@ + task_id@,
                    base_commit: None,
                    status: "inplace"@,
                })
                &&& (r is Ok <==> old(db).journal.last_seq() < i64::MAX)
                &&& (r matches Ok(w) ==> {
                    &&& w.id@ == rows.last().id
                    &&& w.path@ == self.root()
                    &&& w.branch@ == "inplace/"@ + task_id@
                    &&& w.task_id@ == task_id@
                    &&& w.inplace
                    &&& appended(old(db).journal.events(), final(db).journal.events(), JournalKind::WorktreeCreated,
                        Some(run_id@), Some(task_id@), JsonV::Object(seq![
                            ("path"@, JsonV::Str(self.root())),
                            ("inplace"@, JsonV::Bool(true)),
                            ("warning"@, JsonV::Str(inplace_warning())),
                        ]))
                })
                &&& (r matches Err(e) ==> e is Sqlite && final(db).journal.events() == old(db).journal.events())
            },
    {
        if !db.runs.run_exists(run_id) {
            return Err(foreign_key_error());
        }
        if db.runs.worktree_path_taken(self.repo_root.as_str()) {
            return Err(unique_error("worktrees.path"));
        }
        let id = new_uuid_v4();
        let mut branch = "inplace/".to_owned();
        branch.append(task_id);
        let row = WorktreeRecord {
            id: id.clone(),
            run_id: run_id.to_owned(),
            task_id: task_id.to_owned(),
            path: self.repo_root.clone(),
            branch: branch.clone(),
            base_commit: None,
            status: "inplace".to_owned(),
        };
        let ghost before = db.runs.worktree_rows();
        let ghost rv = row@;
        db.runs.worktrees.push(row);
        proof { assert(db.runs.worktree_rows() =~= before.push(rv)); }
        let payload = object3("path", Json::text(self.repo_root.as_str()), "inplace", Json::Bool(true), "warning",
            Json::text("⚠ 原地·非隔离"));
        match db.journal.record(JournalKind::WorktreeCreated, Some(run_id), Some(task_id), payload) {
            Ok(()) => {},
            Err(e) => { return Err(e); },
        }
        Ok(WorktreeInfo { id, path: self.repo_root.clone(), branch, task_id: task_id.to_owned(), inplace: true })
    }

    /// The branch and directory of a task's isolated worktree. A branch
    /// that an active worktree already has checked out is refused: two
    /// checkouts of one branch would race.
    pub fn plan_isolated(&self, db: &Db, run_id: &str, task_id: &str) -> (r: Result<WorktreePlan, CoreError>)
        ensures
            match first_active_on_branch(db.runs.worktree_rows(), task_branch(run_id@, task_id@)) {
                Some(i) => r matches Err(CoreError::WorktreeConflict { branch, existing })
                    && branch@ == task_branch(run_id@, task_id@) && existing@ == db.runs.worktree_rows()[i].path,
                None => r matches Ok(p) && p.branch@ == task_branch(run_id@, task_id@)
                    && p.path@ == joined(self.worktrees_dir(), run_id@ + "_"@ + task_id@),
            },
    {
        let mut branch = "agent/".to_owned();
        branch.append(run_id);
        branch.append("/");
        branch.append(task_id);
        let ghost rows = db.runs.worktree_rows();
        let mut k: usize = 0;
        while k < db.runs.worktrees.len()
            invariant
                rows == db.runs.worktree_rows(),
                k <= rows.len(),
                branch@ == task_branch(run_id@, task_id@),
                first_active_on_branch(rows.take(k as int), branch@) is None,
            decreases rows.len() - k,
        {
            let w = &db.runs.worktrees[k];
            proof {
                assert(rows.take(k + 1).drop_last() =~= rows.take(k as int));
                assert(rows.take(k + 1).last() == w@);
            }
            if str_eq(w.branch.as_str(), branch.as_str()) && str_eq(w.status.as_str(), "active") {
                proof { lemma_first_active_prefix(rows, branch@, k + 1); }
                return Err(CoreError::WorktreeConflict { branch, existing: w.path.clone() });
            }
            k += 1;
        }
        proof { assert(rows.take(k as int) =~= rows); }
        let mut dir = run_id.to_owned();
        dir.append("_");
        dir.append(task_id);
        let path = join_path(self.worktree_root.as_str(), dir.as_str());
        Ok(WorktreePlan { branch, path })
    }

    /// Records a created isolated worktree as `active`, with the commit it
    /// started from, and journals `worktree_created`.
    pub fn register_isolated(&self, db: &mut Db, run_id: &str, task_id: &str, path: &str, branch: &str, base_commit: &str) -> (r: Result<WorktreeInfo, CoreError>)
        requires
            old(db).wf(),
        ensures
            final(db).wf(),
            final(db).same_but_worktrees(old(db)),
            !old(db).runs.has_run(run_id@) || old(db).runs.has_worktree_path(path@) ==> {
                &&& (r matches Err(e) && e is Sqlite)
                &&& final(db).runs.worktrees@ == old(db).runs.worktrees@
                &&& final(db).journal == old(db).journal
            },
            old(db).runs.has_run(run_id@) && !old(db).runs.has_worktree_path(path@) ==> {
                let rows = final(db).runs.worktree_rows();
                &&& rows == old(db).runs.worktree_rows().push(WorktreeRecordV {
                    id: rows.last().id,
                    run_id: run_id@,
                    task_id: task_id@,
                    path: path@,
                    branch: branch@,
                    base_commit: Some(base_commit@),
                    status: "active"@,
                })
                &&& (r is Ok <==> old(db).journal.last_seq() < i64::MAX)
                &&& (r matches Ok(w) ==> {
                    &&& w.id@ == rows.last().id
                    &&& w.path@ == path@
                    &&& w.branch@ == branch@
                    &&& w.task_id@ == task_id@
                    &&& !w.inplace
                    &&& appended(old(db).journal.events(), final(db).journal.events(), JournalKind::WorktreeCreated,
                        Some(run_id@), Some(task_id@), JsonV::Object(seq![
                            ("path"@, JsonV::Str(path@)),
                            ("branch"@, JsonV::Str(branch@)),
                            ("inplace"@, JsonV::Bool(false)),
                        ]))
                })
                &&& (r matches Err(e) ==> e is Sqlite && final(db).journal.events() == old(db).journal.events())
            },
    {
        if !db.runs.run_exists(run_id) {
            return Err(foreign_key_error());
        }
        if db.runs.worktree_path_taken(path) {
            return Err(unique_error("worktrees.path"));
        }
        let id = new_uuid_v4();
        let row = WorktreeRecord {
            id: id.clone(),
            run_id: run_id.to_owned(),
            task_id: task_id.to_owned(),
            path: path.to_owned(),
            branch: branch.to_owned(),
            base_commit: Some(base_commit.to_owned()),
            status: "active".to_owned(),
        };
        let ghost before = db.runs.worktree_rows();
        let ghost rv = row@;
        db.runs.worktrees.push(row);
        proof { assert(db.runs.worktree_rows() =~= before.push(rv)); }
        let payload = object3("path", Json::text(path), "branch", Json::text(branch), "inplace", Json::Bool(false));
        match db.journal.record(JournalKind::WorktreeCreated, Some(run_id), Some(task_id), payload) {
            Ok(()) => {},
            Err(e) => { return Err(e); },
        }
        Ok(WorktreeInfo { id, path: path.to_owned(), branch: branch.to_owned(), task_id: task_id.to_owned(), inplace: false })
    }
}

proof fn lemma_first_active_prefix(rows: Seq<WorktreeRecordV>, branch: Seq<char>, k: int)
    requires
        0 < k <= rows.len(),
        first_active_on_branch(rows.take(k - 1), branch) is None,
        rows[k - 1].branch == branch,
        rows[k - 1].status == "active"@,
    ensures
        first_active_on_branch(rows, branch) == Some(k - 1),
    decreases rows.len() - k,
{
    assert(rows.take(k).drop_last() =~= rows.take(k - 1));
    if k == rows.len() {
        assert(rows.take(k) =~= rows);
    } else {
        lemma_first_active_extend(rows, branch, k, k - 1);
    }
}

proof fn lemma_first_active_extend(rows: Seq<WorktreeRecordV>, branch: Seq<char>, k: int, i: int)
    requires
        0 < k <= rows.len(),
        first_active_on_branch(rows.take(k), branch) == Some(i),
    ensures
        first_active_on_branch(rows, branch) == Some(i),
    decreases rows.len() - k,
{
    if k < rows.len() {
        assert(rows.take(k + 1).drop_last() =~= rows.take(k));
        lemma_first_active_extend(rows, branch, k + 1, i);
    } else {
        assert(rows.take(k) =~= rows);
    }
}

/// The ids of the artifacts required over all edges, in order.
pub open spec fn required_ids(required: Seq<(String, Vec<ArtifactRef>)>) -> Seq<Seq<char>>
    decreases required.len(),
{
    if required.len() == 0 {
        Seq::empty()
    } else {
        required_ids(required.drop_last()) + required.last().1@.map_values(|a: ArtifactRef| a.id@)
    }
}

/// The index of the first failed outcome, if any failed.
pub open spec fn first_failure(outcomes: Seq<Result<(), CoreError>>) -> Option<int>
    decreases outcomes.len(),
{
    if outcomes.len() == 0 {
        None
    } else {
        match first_failure(outcomes.drop_last()) {
            Some(k) => Some(k),
            None => if outcomes.last() is Err { Some(outcomes.len() - 1) } else { None },
        }
    }
}

/// A failure found in a prefix is the first failure of the whole.
proof fn lemma_first_failure_prefix(o: Seq<Result<(), CoreError>>, j: int)
    requires
        0 <= j <= o.len(),
        first_failure(o.take(j)) is Some,
    ensures
        first_failure(o) == first_failure(o.take(j)),
    decreases o.len(),
{
    if j < o.len() {
        assert(o.drop_last().take(j) =~= o.take(j));
        lemma_first_failure_prefix(o.drop_last(), j);
    } else {
        assert(o.take(j) =~= o);
    }
}

/// Where a declared artifact of an upstream task can be copied from.
#[derive(Debug)]
pub struct ArtifactSource {
    pub artifact_id: String,
    /// Where the copy goes, relative to the downstream worktree.
    pub dest_rel: String,
    /// The recorded path inside the upstream task's latest worktree.
    pub preferred: String,
}

/// The error for a declared artifact that is not there.
pub open spec fn is_missing_artifact(e: CoreError, task_id: Seq<char>, artifact_id: Seq<char>, from_task: Seq<char>, path: Seq<char>) -> bool {
    e matches CoreError::MissingArtifact { task_id: t, artifact_id: a, from_task: f, path: p }
        && t@ == task_id && a@ == artifact_id && f@ == from_task && p@ == path
}

/// The error for a declared artifact that is not there.
pub fn missing_artifact(task_id: &str, artifact_id: &str, from_task: &str, path: &str) -> (e: CoreError)
    ensures
        is_missing_artifact(e, task_id@, artifact_id@, from_task@, path@),
{
    CoreError::MissingArtifact {
        task_id: task_id.to_owned(),
        artifact_id: artifact_id.to_owned(),
        from_task: from_task.to_owned(),
        path: path.to_owned(),
    }
}

/// The first artifact row recorded for this run, task and key.
pub open spec fn artifact_row_index(rows: Seq<ArtifactRecordV>, run_id: Seq<char>, task_id: Seq<char>, key: Seq<char>) -> Option<int>
    decreases rows.len(),
{
    if rows.len() == 0 {
        None
    } else {
        match artifact_row_index(rows.drop_last(), run_id, task_id, key) {
            Some(i) => Some(i),
            None => if rows.last().run_id == run_id && rows.last().task_id == task_id && rows.last().artifact_key == key {
                Some(rows.len() - 1)
            } else {
                None
            },
        }
    }
}

/// The most recent worktree row of this run and task.
pub open spec fn latest_worktree_index(rows: Seq<WorktreeRecordV>, run_id: Seq<char>, task_id: Seq<char>) -> Option<int>
    decreases rows.len(),
{
    if rows.len() == 0 {
        None
    } else if rows.last().run_id == run_id && rows.last().task_id == task_id {
        Some(rows.len() - 1)
    } else {
        latest_worktree_index(rows.drop_last(), run_id, task_id)
    }
}

/// The artifact rows other than those of this run, task and key.
pub open spec fn rows_except(rows: Seq<ArtifactRecordV>, run_id: Seq<char>, task_id: Seq<char>, key: Seq<char>) -> Seq<ArtifactRecordV>
    decreases rows.len(),
{
    if rows.len() == 0 {
        Seq::empty()
    } else {
        let rest = rows_except(rows.drop_last(), run_id, task_id, key);
        if rows.last().run_id == run_id && rows.last().task_id == task_id && rows.last().artifact_key == key {
            rest
        } else {
            rest.push(rows.last())
        }
    }
}

/// The lowercase hexadecimal SHA-256 of a content.
pub open spec fn content_sha256(content: Seq<u8>) -> Seq<char> {
    hex_lower(sha256_spec(content))
}

impl ArtifactRecord {
    pub fn duplicate(&self) -> (r: ArtifactRecord)
        ensures
            r@ == self@,
    {
        ArtifactRecord {
            id: self.id.clone(),
            run_id: self.run_id.clone(),
            task_id: self.task_id.clone(),
            artifact_key: self.artifact_key.clone(),
            path: self.path.clone(),
            content_sha256: crate::journal::copy_opt(&self.content_sha256),
        }
    }
}

proof fn lemma_artifact_index_prefix(rows: Seq<ArtifactRecordV>, run_id: Seq<char>, task_id: Seq<char>, key: Seq<char>, k: int)
    requires
        0 < k <= rows.len(),
        artifact_row_index(rows.take(k - 1), run_id, task_id, key) is None,
        rows[k - 1].run_id == run_id && rows[k - 1].task_id == task_id && rows[k - 1].artifact_key == key,
    ensures
        artifact_row_index(rows, run_id, task_id, key) == Some(k - 1),
    decreases rows.len() - k,
{
    assert(rows.take(k).drop_last() =~= rows.take(k - 1));
    lemma_artifact_index_extend(rows, run_id, task_id, key, k, k - 1);
}

proof fn lemma_artifact_index_extend(rows: Seq<ArtifactRecordV>, run_id: Seq<char>, task_id: Seq<char>, key: Seq<char>, k: int, i: int)
    requires
        0 < k <= rows.len(),
        artifact_row_index(rows.take(k), run_id, task_id, key) == Some(i),
    ensures
        artifact_row_index(rows, run_id, task_id, key) == Some(i),
    decreases rows.len() - k,
{
    if k < rows.len() {
        assert(rows.take(k + 1).drop_last() =~= rows.take(k));
        lemma_artifact_index_extend(rows, run_id, task_id, key, k + 1, i);
    } else {
        assert(rows.take(k) =~= rows);
    }
}

/// The first artifact row recorded for this run, task and key.
fn find_artifact_row(db: &Db, run_id: &str, task_id: &str, key: &str) -> (r: Option<usize>)
    ensures
        match r {
            Some(i) => i < db.runs.artifacts@.len()
                && artifact_row_index(db.runs.artifact_rows(), run_id@, task_id@, key@) == Some(i as int),
            None => artifact_row_index(db.runs.artifact_rows(), run_id@, task_id@, key@) is None,
        },
{
    let ghost arows = db.runs.artifact_rows();
    let mut k: usize = 0;
    while k < db.runs.artifacts.len()
        invariant
            arows == db.runs.artifact_rows(),
            k <= arows.len(),
            artifact_row_index(arows.take(k as int), run_id@, task_id@, key@) is None,
        decreases arows.len() - k,
    {
        let a = &db.runs.artifacts[k];
        proof {
            assert(arows.take(k + 1).drop_last() =~= arows.take(k as int));
            assert(arows.take(k + 1).last() == a@);
        }
        if str_eq(a.run_id.as_str(), run_id) && str_eq(a.task_id.as_str(), task_id)
            && str_eq(a.artifact_key.as_str(), key) {
            proof { lemma_artifact_index_prefix(arows, run_id@, task_id@, key@, k + 1); }
            return Some(k);
        }
        k += 1;
    }
    proof { assert(arows.take(k as int) =~= arows); }
    None
}

impl WorktreeManager {
    /// Finds where an artifact declared on the edge `from_task -> task_id`
    /// can be copied from: the path recorded for it, inside the upstream
    /// task's latest worktree. An artifact never recorded, or an upstream
    /// task without a worktree, is a missing artifact: a dependency edge
    /// whose artifact is absent must not look green.
    pub fn artifact_source(&self, db: &Db, run_id: &str, task_id: &str, from_task: &str, art: &ArtifactRef) -> (r: Result<ArtifactSource, CoreError>)
        ensures
            match (artifact_row_index(db.runs.artifact_rows(), run_id@, from_task@, art.id@),
                latest_worktree_index(db.runs.worktree_rows(), run_id@, from_task@)) {
                (Some(a), Some(w)) => r matches Ok(src) && src.artifact_id@ == art.id@ && src.dest_rel@ == art.path@
                    && src.preferred@ == joined(db.runs.worktree_rows()[w].path, db.runs.artifact_rows()[a].path),
                _ => r matches Err(e) && is_missing_artifact(e, task_id@, art.id@, from_task@, art.path@),
            },
    {
        let ghost arows = db.runs.artifact_rows();
        let ghost wrows = db.runs.worktree_rows();
        let ai = match find_artifact_row(db, run_id, from_task, art.id.as_str()) {
            Some(i) => i,
            None => {
                return Err(missing_artifact(task_id, art.id.as_str(), from_task, art.path.as_str()));
            },
        };
        let mut w: usize = db.runs.worktrees.len();
        proof { assert(wrows.take(w as int) =~= wrows); }
        while w > 0
            invariant
                wrows == db.runs.worktree_rows(),
                arows == db.runs.artifact_rows(),
                ai < db.runs.artifacts@.len(),
                artifact_row_index(arows, run_id@, from_task@, art.id@) == Some(ai as int),
                w <= wrows.len(),
                latest_worktree_index(wrows, run_id@, from_task@) == latest_worktree_index(wrows.take(w as int), run_id@, from_task@),
            decreases w,
        {
            let row = &db.runs.worktrees[w - 1];
            proof {
                assert(wrows.take(w as int).last() == row@);
                assert(wrows.take(w as int).drop_last() =~= wrows.take(w - 1));
            }
            if str_eq(row.run_id.as_str(), run_id) && str_eq(row.task_id.as_str(), from_task) {
                let preferred = join_path(row.path.as_str(), db.runs.artifacts[ai].path.as_str());
                proof { assert(arows[ai as int] == db.runs.artifacts@[ai as int]@); }
                return Ok(ArtifactSource { artifact_id: art.id.clone(), dest_rel: art.path.clone(), preferred });
            }
            w -= 1;
        }
        Err(missing_artifact(task_id, art.id.as_str(), from_task, art.path.as_str()))
    }

    /// Picks the source to copy: the path inside the upstream worktree when
    /// the file is there; otherwise the artifact is missing, a hard failure,
    /// so that a dependency edge without its file never looks green.
    pub fn choose_source(&self, src: &ArtifactSource, task_id: &str, from_task: &str, preferred_exists: bool) -> (r: Result<String, CoreError>)
        ensures
            preferred_exists ==> (r matches Ok(p) && p@ == src.preferred@),
            !preferred_exists ==> (r matches Err(e)
                && is_missing_artifact(e, task_id@, src.artifact_id@, from_task@, src.dest_rel@)),
    {
        if preferred_exists {
            Ok(src.preferred.clone())
        } else {
            Err(missing_artifact(task_id, src.artifact_id.as_str(), from_task, src.dest_rel.as_str()))
        }
    }

    /// Journals `worktree_bootstrapped` with the ids of the artifacts
    /// copied into the task's worktree, and returns them.
    pub fn finish_bootstrap(&self, db: &mut Db, run_id: &str, task_id: &str, copied: Vec<String>) -> (r: Result<Vec<String>, CoreError>)
        requires
            old(db).wf(),
        ensures
            final(db).wf(),
            final(db).same_but_journal(old(db)),
            r is Err <==> old(db).journal.last_seq() >= i64::MAX,
            r matches Ok(v) ==> views_of(v@) == views_of(copied@) && appended(old(db).journal.events(),
                final(db).journal.events(), JournalKind::WorktreeBootstrapped, Some(run_id@), Some(task_id@),
                JsonV::Object(seq![("artifacts"@, json_strings(views_of(copied@)))])),
            r matches Err(e) ==> e is Sqlite && final(db).journal.events() == old(db).journal.events(),
    {
        let payload = object1("artifacts", json_string_array(&copied));
        match db.journal.record(JournalKind::WorktreeBootstrapped, Some(run_id), Some(task_id), payload) {
            Ok(()) => Ok(copied),
            Err(e) => Err(e),
        }
    }

    /// The end of a bootstrap, from the outcome of copying each required
    /// artifact in order (the copying stops at the first failure): that
    /// failure, journaling nothing; or, when every artifact was copied, the
    /// ids of all of them in order, journaled as `worktree_bootstrapped`.
    #[verifier::loop_isolation(false)]
    pub fn bootstrap_result(
        &self,
        db: &mut Db,
        run_id: &str,
        task_id: &str,
        required: &Vec<(String, Vec<ArtifactRef>)>,
        outcomes: Vec<Result<(), CoreError>>,
    ) -> (r: Result<Vec<String>, CoreError>)
        requires
            old(db).wf(),
            first_failure(outcomes@) is Some || outcomes@.len() == required_ids(required@).len(),
        ensures
            final(db).wf(),
            final(db).same_but_journal(old(db)),
            match first_failure(outcomes@) {
                Some(k) => {
                    &&& r matches Err(e) && outcomes@[k] == Err::<(), CoreError>(e)
                    &&& final(db).journal.events() == old(db).journal.events()
                },
                None => {
                    &&& (r is Err <==> old(db).journal.last_seq() >= i64::MAX)
                    &&& (r matches Ok(v) ==> views_of(v@) == required_ids(required@) && appended(old(db).journal.events(),
                        final(db).journal.events(), JournalKind::WorktreeBootstrapped, Some(run_id@), Some(task_id@),
                        JsonV::Object(seq![("artifacts"@, json_strings(required_ids(required@)))])))
                    &&& (r matches Err(e) ==> e is Sqlite && final(db).journal.events() == old(db).journal.events())
                },
            },
    {
        let ghost o0 = outcomes@;
        let mut outcomes = outcomes;
        let mut k: usize = 0;
        while k < outcomes.len()
            invariant
                outcomes@ == o0,
                k <= o0.len(),
                first_failure(o0.take(k as int)) is None,
            decreases o0.len() - k,
        {
            proof {
                assert(o0.take(k + 1).drop_last() =~= o0.take(k as int));
                assert(o0.take(k + 1).last() == o0[k as int]);
            }
            if outcomes[k].is_err() {
                proof {
                    assert(first_failure(o0.take(k + 1)) == Some(k as int));
                    lemma_first_failure_prefix(o0, k + 1);
                }
                return match outcomes.remove(k) {
                    Err(e) => Err(e),
                    Ok(()) => Ok(Vec::new()),
                };
            }
            k += 1;
        }
        proof {
            assert(o0.take(k as int) =~= o0);
            assert(first_failure(o0) is None);
        }
        let mut ids: Vec<String> = Vec::new();
        let mut i: usize = 0;
        while i < required.len()
            invariant
                i <= required@.len(),
                views_of(ids@) == required_ids(required@.take(i as int)),
            decreases required@.len() - i,
        {
            let arts = &required[i].1;
            let mut j: usize = 0;
            while j < arts.len()
                invariant
                    j <= arts@.len(),
                    views_of(ids@) == required_ids(required@.take(i as int)) + arts@.take(j as int).map_values(|a: ArtifactRef| a.id@),
                decreases arts@.len() - j,
            {
                let ghost before = views_of(ids@);
                ids.push(arts[j].id.clone());
                proof {
                    assert(views_of(ids@) =~= before.push(arts@[j as int].id@));
                    assert(arts@.take(j + 1).map_values(|a: ArtifactRef| a.id@)
                        =~= arts@.take(j as int).map_values(|a: ArtifactRef| a.id@).push(arts@[j as int].id@));
                }
                j += 1;
            }
            proof {
                assert(required@.take(i + 1).drop_last() =~= required@.take(i as int));
                assert(required@.take(i + 1).last() == required@[i as int]);
                assert(arts@.take(j as int) =~= arts@);
            }
            i += 1;
        }
        proof { assert(required@.take(i as int) =~= required@); }
        self.finish_bootstrap(db, run_id, task_id, ids)
    }

    /// Records an artifact a task produced, with the SHA-256 of its
    /// content, replacing an earlier record of the same run, task and key,
    /// and journals `artifact_recorded`.
    pub fn record_artifact(&self, db: &mut Db, run_id: &str, task_id: &str, artifact: &ArtifactRef, content: &[u8]) -> (r: Result<(), CoreError>)
        requires
            old(db).wf(),
        ensures
            final(db).wf(),
            final(db).same_but_artifacts(old(db)),
            !old(db).runs.has_run(run_id@) ==> {
                &&& (r matches Err(e) && e is Sqlite)
                &&& final(db).runs.artifacts@ == old(db).runs.artifacts@
                &&& final(db).journal == old(db).journal
            },
            old(db).runs.has_run(run_id@) ==> {
                &&& final(db).runs.artifact_rows() == rows_except(old(db).runs.artifact_rows(), run_id@, task_id@, artifact.id@)
                    .push(ArtifactRecordV {
                        run_id: run_id@,
                        task_id: task_id@,
                        artifact_key: artifact.id@,
                        path: artifact.path@,
                        content_sha256: Some(content_sha256(content@)),
                    })
                &&& (r is Ok <==> old(db).journal.last_seq() < i64::MAX)
                &&& (r is Ok ==> appended(old(db).journal.events(), final(db).journal.events(),
                    JournalKind::ArtifactRecorded, Some(run_id@), Some(task_id@), JsonV::Object(seq![
                        ("artifact_id"@, JsonV::Str(artifact.id@)),
                        ("path"@, JsonV::Str(artifact.path@)),
                        ("sha256"@, JsonV::Str(content_sha256(content@))),
                    ])))
                &&& (r matches Err(e) ==> e is Sqlite && final(db).journal.events() == old(db).journal.events())
            },
    {
        let digest = sha256_digest(content);
        let sha = hex_encode(digest.as_slice());
        if !db.runs.run_exists(run_id) {
            return Err(foreign_key_error());
        }
        let ghost before = db.runs.artifact_rows();
        let mut kept: Vec<ArtifactRecord> = Vec::new();
        let mut k: usize = 0;
        while k < db.runs.artifacts.len()
            invariant
                before == db.runs.artifact_rows(),
                k <= before.len(),
                kept@.map_values(|a: ArtifactRecord| a@) == rows_except(before.take(k as int), run_id@, task_id@, artifact.id@),
            decreases before.len() - k,
        {
            let a = &db.runs.artifacts[k];
            proof {
                assert(before.take(k + 1).drop_last() =~= before.take(k as int));
                assert(before.take(k + 1).last() == a@);
            }
            let ghost prev = kept@.map_values(|a: ArtifactRecord| a@);
            if !(str_eq(a.run_id.as_str(), run_id) && str_eq(a.task_id.as_str(), task_id)
                && str_eq(a.artifact_key.as_str(), artifact.id.as_str())) {
                kept.push(a.duplicate());
                proof { assert(kept@.map_values(|a: ArtifactRecord| a@) =~= prev.push(before[k as int])); }
            }
            k += 1;
        }
        proof { assert(before.take(k as int) =~= before); }
        let row = ArtifactRecord {
            id: new_uuid_v4(),
            run_id: run_id.to_owned(),
            task_id: task_id.to_owned(),
            artifact_key: artifact.id.clone(),
            path: artifact.path.clone(),
            content_sha256: Some(sha.clone()),
        };
        let ghost rv = row@;
        let ghost kv = kept@.map_values(|a: ArtifactRecord| a@);
        kept.push(row);
        proof { assert(kept@.map_values(|a: ArtifactRecord| a@) =~= kv.push(rv)); }
        db.runs.artifacts = kept;
        let payload = object3("artifact_id", Json::text(artifact.id.as_str()), "path", Json::text(artifact.path.as_str()),
            "sha256", Json::text(sha.as_str()));
        db.journal.record(JournalKind::ArtifactRecorded, Some(run_id), Some(task_id), payload)
    }
}

} // verus!
