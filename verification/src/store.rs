//! The run tables (runs, tasks, dependency edges, gates, artifacts,
//! worktrees) and the database that groups every table of the workbench.

use vstd::prelude::*;
use crate::error::CoreError;
use crate::journal::{Journal, opt_view, copy_opt};
use crate::memory::MemoryStore;
use crate::permissions::PermissionStore;
use crate::text::str_eq;
use crate::types::ArtifactRef;

verus! {

pub struct ArtifactRefV {
    pub id: Seq<char>,
    pub path: Seq<char>,
    pub description: Option<Seq<char>>,
}

impl View for ArtifactRef {
    type V = ArtifactRefV;

    open spec fn view(&self) -> ArtifactRefV {
        ArtifactRefV { id: self.id@, path: self.path@, description: opt_view(self.description) }
    }
}

impl ArtifactRef {
    pub fn duplicate(&self) -> (r: ArtifactRef)
        ensures
            r@ == self@,
    {
        ArtifactRef { id: self.id.clone(), path: self.path.clone(), description: copy_opt(&self.description) }
    }
}

pub open spec fn artifacts_view(v: Seq<ArtifactRef>) -> Seq<ArtifactRefV> {
    v.map_values(|a: ArtifactRef| a@)
}

/// A copy of a list of artifact references.
pub fn copy_artifacts(v: &Vec<ArtifactRef>) -> (r: Vec<ArtifactRef>)
    ensures
        artifacts_view(r@) == artifacts_view(v@),
{
    let mut out: Vec<ArtifactRef> = Vec::new();
    let mut i: usize = 0;
    while i < v.len()
        invariant
            i <= v@.len(),
            out@.len() == i,
            forall|j: int| 0 <= j < i ==> (#[trigger] out@[j])@ == v@[j]@,
        decreases v@.len() - i,
    {
        out.push(v[i].duplicate());
        i += 1;
    }
    proof { assert(artifacts_view(out@) =~= artifacts_view(v@)); }
    out
}

/// A run of a task graph.
pub struct RunRecord {
    pub id: String,
    pub name: String,
    pub repo_root: String,
    pub status: String,
    pub graph_yaml: String,
}

/// A task of a run.
pub struct TaskRecord {
    pub run_id: String,
    pub task_id: String,
    pub title: String,
    pub prompt: String,
    pub status: String,
    pub gate_command: Option<String>,
    pub allow_inplace: bool,
    pub produces: Vec<ArtifactRef>,
    pub worktree_path: Option<String>,
    pub branch: Option<String>,
}

/// A dependency edge of a run.
pub struct DepRecord {
    pub run_id: String,
    pub from_task: String,
    pub to_task: String,
    pub artifacts: Vec<ArtifactRef>,
}

/// One gate execution.
pub struct GateRecord {
    pub id: String,
    pub run_id: String,
    pub task_id: String,
    pub command: String,
    pub exit_code: Option<i32>,
    pub stdout: Option<String>,
    pub stderr: Option<String>,
    /// `running`, `passed` or `failed`.
    pub status: String,
}

/// A recorded artifact of a task.
pub struct ArtifactRecord {
    pub id: String,
    pub run_id: String,
    pub task_id: String,
    pub artifact_key: String,
    pub path: String,
    pub content_sha256: Option<String>,
}

/// A worktree (or in-place checkout) assigned to a task.
pub struct WorktreeRecord {
    pub id: String,
    pub run_id: String,
    pub task_id: String,
    pub path: String,
    pub branch: String,
    pub base_commit: Option<String>,
    /// `active` or `inplace`.
    pub status: String,
}

pub struct RunRecordV {
    pub id: Seq<char>,
    pub name: Seq<char>,
    pub repo_root: Seq<char>,
    pub status: Seq<char>,
    pub graph_yaml: Seq<char>,
}

pub struct TaskRecordV {
    pub run_id: Seq<char>,
    pub task_id: Seq<char>,
    pub title: Seq<char>,
    pub prompt: Seq<char>,
    pub status: Seq<char>,
    pub gate_command: Option<Seq<char>>,
    pub allow_inplace: bool,
    pub produces: Seq<ArtifactRefV>,
    pub worktree_path: Option<Seq<char>>,
    pub branch: Option<Seq<char>>,
}

pub struct DepRecordV {
    pub run_id: Seq<char>,
    pub from_task: Seq<char>,
    pub to_task: Seq<char>,
    pub artifacts: Seq<ArtifactRefV>,
}

pub struct GateRecordV {
    pub id: Seq<char>,
    pub run_id: Seq<char>,
    pub task_id: Seq<char>,
    pub command: Seq<char>,
    pub exit_code: Option<i32>,
    pub stdout: Option<Seq<char>>,
    pub stderr: Option<Seq<char>>,
    pub status: Seq<char>,
}

pub struct ArtifactRecordV {
    pub run_id: Seq<char>,
    pub task_id: Seq<char>,
    pub artifact_key: Seq<char>,
    pub path: Seq<char>,
    pub content_sha256: Option<Seq<char>>,
}

pub struct WorktreeRecordV {
    pub id: Seq<char>,
    pub run_id: Seq<char>,
    pub task_id: Seq<char>,
    pub path: Seq<char>,
    pub branch: Seq<char>,
    pub base_commit: Option<Seq<char>>,
    pub status: Seq<char>,
}

impl View for RunRecord {
    type V = RunRecordV;

    open spec fn view(&self) -> RunRecordV {
        RunRecordV {
            id: self.id@,
            name: self.name@,
            repo_root: self.repo_root@,
            status: self.status@,
            graph_yaml: self.graph_yaml@,
        }
    }
}

impl View for TaskRecord {
    type V = TaskRecordV;

    open spec fn view(&self) -> TaskRecordV {
        TaskRecordV {
            run_id: self.run_id@,
            task_id: self.task_id@,
            title: self.title@,
            prompt: self.prompt@,
            status: self.status@,
            gate_command: opt_view(self.gate_command),
            allow_inplace: self.allow_inplace,
            produces: artifacts_view(self.produces@),
            worktree_path: opt_view(self.worktree_path),
            branch: opt_view(self.branch),
        }
    }
}

impl View for DepRecord {
    type V = DepRecordV;

    open spec fn view(&self) -> DepRecordV {
        DepRecordV {
            run_id: self.run_id@,
            from_task: self.from_task@,
            to_task: self.to_task@,
            artifacts: artifacts_view(self.artifacts@),
        }
    }
}

impl View for GateRecord {
    type V = GateRecordV;

    open spec fn view(&self) -> GateRecordV {
        GateRecordV {
            id: self.id@,
            run_id: self.run_id@,
            task_id: self.task_id@,
            command: self.command@,
            exit_code: self.exit_code,
            stdout: opt_view(self.stdout),
            stderr: opt_view(self.stderr),
            status: self.status@,
        }
    }
}

impl View for ArtifactRecord {
    type V = ArtifactRecordV;

    open spec fn view(&self) -> ArtifactRecordV {
        ArtifactRecordV {
            run_id: self.run_id@,
            task_id: self.task_id@,
            artifact_key: self.artifact_key@,
            path: self.path@,
            content_sha256: opt_view(self.content_sha256),
        }
    }
}

impl View for WorktreeRecord {
    type V = WorktreeRecordV;

    open spec fn view(&self) -> WorktreeRecordV {
        WorktreeRecordV {
            id: self.id@,
            run_id: self.run_id@,
            task_id: self.task_id@,
            path: self.path@,
            branch: self.branch@,
            base_commit: opt_view(self.base_commit),
            status: self.status@,
        }
    }
}

/// The run tables.
pub struct RunStore {
    pub runs: Vec<RunRecord>,
    pub tasks: Vec<TaskRecord>,
    pub deps: Vec<DepRecord>,
    pub gates: Vec<GateRecord>,
    pub artifacts: Vec<ArtifactRecord>,
    pub worktrees: Vec<WorktreeRecord>,
}

impl RunStore {
    pub open spec fn run_rows(&self) -> Seq<RunRecordV> {
        self.runs@.map_values(|r: RunRecord| r@)
    }

    pub open spec fn dep_rows(&self) -> Seq<DepRecordV> {
        self.deps@.map_values(|d: DepRecord| d@)
    }

    pub open spec fn task_rows(&self) -> Seq<TaskRecordV> {
        self.tasks@.map_values(|t: TaskRecord| t@)
    }

    pub open spec fn gate_rows(&self) -> Seq<GateRecordV> {
        self.gates@.map_values(|g: GateRecord| g@)
    }

    pub open spec fn artifact_rows(&self) -> Seq<ArtifactRecordV> {
        self.artifacts@.map_values(|a: ArtifactRecord| a@)
    }

    pub open spec fn worktree_rows(&self) -> Seq<WorktreeRecordV> {
        self.worktrees@.map_values(|w: WorktreeRecord| w@)
    }

    pub open spec fn has_run(&self, run_id: Seq<char>) -> bool {
        exists|k: int| 0 <= k < self.runs@.len() && #[trigger] self.runs@[k].id@ == run_id
    }

    /// Whether some worktree row has this path (the column is unique).
    pub open spec fn has_worktree_path(&self, path: Seq<char>) -> bool {
        exists|k: int| 0 <= k < self.worktrees@.len() && #[trigger] self.worktrees@[k].path@ == path
    }

    /// Whether some worktree row has this path.
    pub fn worktree_path_taken(&self, path: &str) -> (b: bool)
        ensures
            b == self.has_worktree_path(path@),
    {
        let mut k: usize = 0;
        while k < self.worktrees.len()
            invariant
                k <= self.worktrees@.len(),
                forall|j: int| 0 <= j < k ==> #[trigger] self.worktrees@[j].path@ != path@,
            decreases self.worktrees@.len() - k,
        {
            if str_eq(self.worktrees[k].path.as_str(), path) {
                return true;
            }
            k += 1;
        }
        false
    }

    pub fn new() -> (s: RunStore)
        ensures
            s.runs@.len() == 0,
            s.tasks@.len() == 0,
            s.deps@.len() == 0,
            s.gates@.len() == 0,
            s.artifacts@.len() == 0,
            s.worktrees@.len() == 0,
    {
        RunStore {
            runs: Vec::new(),
            tasks: Vec::new(),
            deps: Vec::new(),
            gates: Vec::new(),
            artifacts: Vec::new(),
            worktrees: Vec::new(),
        }
    }

    /// Whether a run with this id exists (the tables' foreign key target).
    pub fn run_exists(&self, run_id: &str) -> (b: bool)
        ensures
            b == self.has_run(run_id@),
    {
        let mut k: usize = 0;
        while k < self.runs.len()
            invariant
                k <= self.runs@.len(),
                forall|j: int| 0 <= j < k ==> #[trigger] self.runs@[j].id@ != run_id@,
            decreases self.runs@.len() - k,
        {
            if str_eq(self.runs[k].id.as_str(), run_id) {
                return true;
            }
            k += 1;
        }
        false
    }
}

/// Every table of the workbench.
pub struct Db {
    pub journal: Journal,
    pub memory: MemoryStore,
    pub permissions: PermissionStore,
    pub runs: RunStore,
}

impl Db {
    /// Only the journal and the gates table may differ from `old`.
    pub open spec fn same_but_gates(&self, old: &Db) -> bool {
        &&& self.memory == old.memory
        &&& self.permissions == old.permissions
        &&& self.runs.runs@ == old.runs.runs@
        &&& self.runs.tasks@ == old.runs.tasks@
        &&& self.runs.deps@ == old.runs.deps@
        &&& self.runs.artifacts@ == old.runs.artifacts@
        &&& self.runs.worktrees@ == old.runs.worktrees@
    }

    /// Only the journal and the worktrees table may differ from `old`.
    pub open spec fn same_but_worktrees(&self, old: &Db) -> bool {
        &&& self.memory == old.memory
        &&& self.permissions == old.permissions
        &&& self.runs.runs@ == old.runs.runs@
        &&& self.runs.tasks@ == old.runs.tasks@
        &&& self.runs.deps@ == old.runs.deps@
        &&& self.runs.gates@ == old.runs.gates@
        &&& self.runs.artifacts@ == old.runs.artifacts@
    }

    /// Only the journal and the artifacts table may differ from `old`.
    pub open spec fn same_but_artifacts(&self, old: &Db) -> bool {
        &&& self.memory == old.memory
        &&& self.permissions == old.permissions
        &&& self.runs.runs@ == old.runs.runs@
        &&& self.runs.tasks@ == old.runs.tasks@
        &&& self.runs.deps@ == old.runs.deps@
        &&& self.runs.gates@ == old.runs.gates@
        &&& self.runs.worktrees@ == old.runs.worktrees@
    }

    /// Only the journal and the tasks table may differ from `old`.
    pub open spec fn same_but_tasks(&self, old: &Db) -> bool {
        &&& self.memory == old.memory
        &&& self.permissions == old.permissions
        &&& self.runs.runs@ == old.runs.runs@
        &&& self.runs.deps@ == old.runs.deps@
        &&& self.runs.gates@ == old.runs.gates@
        &&& self.runs.artifacts@ == old.runs.artifacts@
        &&& self.runs.worktrees@ == old.runs.worktrees@
    }

    /// Only the journal and the runs, tasks and dependency tables may differ from `old`.
    pub open spec fn same_but_run_tables(&self, old: &Db) -> bool {
        &&& self.memory == old.memory
        &&& self.permissions == old.permissions
        &&& self.runs.gates@ == old.runs.gates@
        &&& self.runs.artifacts@ == old.runs.artifacts@
        &&& self.runs.worktrees@ == old.runs.worktrees@
    }

    /// Only the journal may differ from `old`.
    pub open spec fn same_but_journal(&self, old: &Db) -> bool {
        &&& self.same_but_gates(old)
        &&& self.runs.gates@ == old.runs.gates@
    }

    pub open spec fn wf(&self) -> bool {
        &&& self.journal.wf()
        &&& self.memory.wf()
        &&& self.permissions.wf()
    }

    /// A fresh, empty database.
    pub fn open_in_memory() -> (db: Db)
        ensures
            db.wf(),
            db.journal.events().len() == 0,
            db.runs.runs@.len() == 0,
            db.memory.l0().len() == 0 && db.memory.l1().len() == 0,
            db.memory.proposals().len() == 0 && db.memory.l2().len() == 0,
            db.permissions.rows().len() == 0,
    {
        Db { journal: Journal::new(), memory: MemoryStore::new(), permissions: PermissionStore::new(), runs: RunStore::new() }
    }
}

/// The failure of an insert that would repeat a unique column's value.
pub fn unique_error(column: &str) -> (e: CoreError)
    ensures
        e matches CoreError::Sqlite(m) && m@ == "UNIQUE constraint failed: "@ + column@,
{
    let mut m = "UNIQUE constraint failed: ".to_owned();
    m.append(column);
    CoreError::Sqlite(m)
}

/// The foreign-key failure for a row naming an unknown run.
pub fn foreign_key_error() -> (e: CoreError)
    ensures
        e matches CoreError::Sqlite(m) && m@ == "FOREIGN KEY constraint failed"@,
{
    let m = "FOREIGN KEY constraint failed".to_owned();
    CoreError::Sqlite(m)
}

/// Everything saved of a database: the rows of every table.
pub struct SavedDb {
    pub events: Vec<crate::journal::JournalEvent>,
    pub permissions: Vec<crate::permissions::PermissionRecord>,
    pub l0_rules: Vec<crate::memory::L0Rule>,
    pub l1_facts: Vec<crate::memory::L1Fact>,
    pub proposals: Vec<crate::memory::Proposal>,
    pub l2_bullets: Vec<crate::memory::L2Bullet>,
    pub runs: RunStore,
}

/// Saved rows that form a database.
pub open spec fn restorable_db(s: SavedDb) -> bool {
    &&& crate::journal::restorable_events(s.events@.map_values(|e: crate::journal::JournalEvent| e@))
    &&& crate::permissions::restorable_rows(s.permissions@.map_values(|x: crate::permissions::PermissionRecord| x@))
    &&& crate::memory::restorable_memory(
        s.l0_rules@.map_values(|x: crate::memory::L0Rule| x@),
        s.l1_facts@.map_values(|x: crate::memory::L1Fact| x@),
        s.proposals@.map_values(|x: crate::memory::Proposal| x@),
        s.l2_bullets@.map_values(|x: crate::memory::L2Bullet| x@),
    )
}

/// Opens a database from what was saved of it, or a fresh one when
/// nothing was saved. Saved rows that break a table's invariant are
/// refused as a malformed database.
pub fn open_store_at(saved: Option<SavedDb>) -> (r: Result<Db, CoreError>)
    ensures
        saved is None ==> (r matches Ok(db) && db.wf() && db.journal.events().len() == 0
            && db.runs.runs@.len() == 0),
        saved matches Some(s) ==> (r is Ok <==> restorable_db(s)),
        saved matches Some(s) ==> (r matches Ok(db) ==> {
            &&& db.wf()
            &&& db.journal.events() == s.events@.map_values(|e: crate::journal::JournalEvent| e@)
            &&& db.permissions.rows() == s.permissions@.map_values(|x: crate::permissions::PermissionRecord| x@)
            &&& db.memory.l0() == s.l0_rules@.map_values(|x: crate::memory::L0Rule| x@)
            &&& db.memory.l1() == s.l1_facts@.map_values(|x: crate::memory::L1Fact| x@)
            &&& db.memory.proposals() == s.proposals@.map_values(|x: crate::memory::Proposal| x@)
            &&& db.memory.l2() == s.l2_bullets@.map_values(|x: crate::memory::L2Bullet| x@)
            &&& db.runs == s.runs
        }),
        r matches Err(e) ==> e matches CoreError::Sqlite(m) && m@ == "database disk image is malformed"@,
{
    match saved {
        None => Ok(Db::open_in_memory()),
        Some(s) => {
            let journal = Journal::restore(s.events);
            let permissions = PermissionStore::restore(s.permissions);
            let memory = MemoryStore::restore(s.l0_rules, s.l1_facts, s.proposals, s.l2_bullets);
            match (journal, permissions, memory) {
                (Some(journal), Some(permissions), Some(memory)) => Ok(Db { journal, memory, permissions, runs: s.runs }),
                _ => Err(CoreError::Sqlite("database disk image is malformed".to_owned())),
            }
        },
    }
}

impl Db {
    /// The rows of the journal, permission and memory tables: with the run
    /// tables, everything that is saved of the database.
    pub fn snapshot_tables(&self) -> (r: (Vec<crate::journal::JournalEvent>, Vec<crate::permissions::PermissionRecord>,
        Vec<crate::memory::L0Rule>, Vec<crate::memory::L1Fact>, Vec<crate::memory::Proposal>, Vec<crate::memory::L2Bullet>))
        requires
            self.wf(),
        ensures
            r.0@.map_values(|e: crate::journal::JournalEvent| e@) == self.journal.events(),
            r.1@.map_values(|x: crate::permissions::PermissionRecord| x@) == self.permissions.rows(),
            r.2@.map_values(|x: crate::memory::L0Rule| x@) == self.memory.l0(),
            r.3@.map_values(|x: crate::memory::L1Fact| x@) == self.memory.l1(),
            r.4@.map_values(|x: crate::memory::Proposal| x@) == self.memory.proposals(),
            r.5@.map_values(|x: crate::memory::L2Bullet| x@) == self.memory.l2(),
    {
        let events = self.journal.snapshot();
        let perms = self.permissions.snapshot();
        let l0 = match self.memory.list_l0() { Ok(v) => v, Err(_) => Vec::new() };
        let l1 = match self.memory.list_l1(true) { Ok(v) => v, Err(_) => Vec::new() };
        let ps = match self.memory.list_proposals(None) { Ok(v) => v, Err(_) => Vec::new() };
        let l2 = match self.memory.list_l2() { Ok(v) => v, Err(_) => Vec::new() };
        (events, perms, l0, l1, ps, l2)
    }
}

/// What a well-formed database saves is always accepted when it is opened
/// again: a standing permission decision, the journal and the memory
/// tables survive a restart.
pub proof fn lemma_saved_db_reopens(db: Db, s: SavedDb)
    requires
        db.wf(),
        s.events@.map_values(|e: crate::journal::JournalEvent| e@) == db.journal.events(),
        s.permissions@.map_values(|x: crate::permissions::PermissionRecord| x@) == db.permissions.rows(),
        s.l0_rules@.map_values(|x: crate::memory::L0Rule| x@) == db.memory.l0(),
        s.l1_facts@.map_values(|x: crate::memory::L1Fact| x@) == db.memory.l1(),
        s.proposals@.map_values(|x: crate::memory::Proposal| x@) == db.memory.proposals(),
        s.l2_bullets@.map_values(|x: crate::memory::L2Bullet| x@) == db.memory.l2(),
    ensures
        restorable_db(s),
{
}

} // verus!
