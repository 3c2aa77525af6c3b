//! The deterministic scheduler: accepts task graphs, decides which tasks
//! are ready, and drives a run through worktree, agent, gate and merge.
//! Downstream tasks never start while an upstream task is not done.

use vstd::prelude::*;
use vstd::string::*;
use crate::error::CoreError;
use crate::external::new_uuid_v4;
use crate::graph::{graph_valid, is_validation_error, validate_graph};
use crate::journal::{appended, appended_events, lemma_appended_events_none, lemma_appended_events_push, EventItem, Journal, opt_view, copy_opt};
use crate::json::{Json, JsonNumber, JsonNumberV, JsonV};
use crate::memory::{object1, object2};
use crate::store::{artifacts_view, copy_artifacts, ArtifactRefV, foreign_key_error, unique_error, Db, DepRecord, DepRecordV, RunRecord, RunRecordV, TaskRecord, TaskRecordV};
use crate::text::{str_eq, views_of};
use crate::types::{ArtifactRef, JournalKind, TaskDepEdge, TaskGraph, TaskSpec, TaskStatus};

verus! {

/// The task states of a run: `(task id, status)` in table order.
#[derive(Debug)]
pub struct RunSummary {
    pub run_id: String,
    pub task_states: Vec<(String, String)>,
}

/// Accepts task graphs and schedules their runs in a repository.
pub struct Scheduler {
    repo_root: String,
    worktree_root: String,
}

/// The row of a freshly accepted task.
pub open spec fn task_row(run_id: Seq<char>, t: TaskSpec) -> TaskRecordV {
    TaskRecordV {
        run_id,
        task_id: t.id@,
        title: t.title@,
        prompt: t.prompt@,
        status: "pending"@,
        gate_command: opt_view(t.gate_command),
        allow_inplace: t.allow_inplace,
        produces: artifacts_view(t.produces@),
        worktree_path: None,
        branch: None,
    }
}

pub open spec fn task_rows_of(run_id: Seq<char>, tasks: Seq<TaskSpec>) -> Seq<TaskRecordV> {
    tasks.map_values(|t: TaskSpec| task_row(run_id, t))
}

/// The row of a dependency edge of a run.
pub open spec fn dep_row(run_id: Seq<char>, d: TaskDepEdge) -> DepRecordV {
    DepRecordV { run_id, from_task: d.from@, to_task: d.to@, artifacts: artifacts_view(d.artifacts@) }
}

pub open spec fn dep_rows_of(run_id: Seq<char>, edges: Seq<TaskDepEdge>) -> Seq<DepRecordV> {
    edges.map_values(|d: TaskDepEdge| dep_row(run_id, d))
}

/// Whether a dependency row for this run and edge exists (the triple is unique).
pub open spec fn dep_key_taken(rows: Seq<DepRecordV>, run_id: Seq<char>, from: Seq<char>, to: Seq<char>) -> bool {
    exists|k: int| 0 <= k < rows.len() && #[trigger] rows[k].run_id == run_id && rows[k].from_task == from
        && rows[k].to_task == to
}

/// Inserting the rows of `edges` in order after `rows`: the first edge
/// whose row would repeat an existing one.
pub open spec fn first_dep_conflict(rows: Seq<DepRecordV>, run_id: Seq<char>, edges: Seq<TaskDepEdge>) -> Option<int>
    decreases edges.len(),
{
    if edges.len() == 0 {
        None
    } else {
        match first_dep_conflict(rows, run_id, edges.drop_last()) {
            Some(i) => Some(i),
            None => if dep_key_taken(rows + dep_rows_of(run_id, edges.drop_last()), run_id, edges.last().from@, edges.last().to@) {
                Some(edges.len() - 1)
            } else {
                None
            },
        }
    }
}

/// No two edges join the same pair of tasks in the same direction.
pub open spec fn edges_distinct(edges: Seq<TaskDepEdge>) -> bool {
    forall|i: int, j: int| #![trigger edges[i], edges[j]] 0 <= i < j < edges.len()
        ==> !(edges[i].from@ == edges[j].from@ && edges[i].to@ == edges[j].to@)
}

/// Edges that never repeat a pair conflict with nothing in an empty table.
proof fn lemma_distinct_edges_no_conflict(run_id: Seq<char>, edges: Seq<TaskDepEdge>)
    requires
        edges_distinct(edges),
    ensures
        first_dep_conflict(Seq::empty(), run_id, edges) is None,
    decreases edges.len(),
{
    if edges.len() > 0 {
        let e = edges.drop_last();
        assert forall|i: int, j: int| #![trigger e[i], e[j]] 0 <= i < j < e.len()
            implies !(e[i].from@ == e[j].from@ && e[i].to@ == e[j].to@) by {
            assert(e[i] == edges[i] && e[j] == edges[j]);
        }
        lemma_distinct_edges_no_conflict(run_id, e);
        let rows = Seq::<DepRecordV>::empty() + dep_rows_of(run_id, e);
        assert(rows =~= dep_rows_of(run_id, e));
        let n = edges.len() - 1;
        if dep_key_taken(rows, run_id, edges.last().from@, edges.last().to@) {
            let k = choose|k: int| 0 <= k < rows.len() && #[trigger] rows[k].run_id == run_id
                && rows[k].from_task == edges.last().from@ && rows[k].to_task == edges.last().to@;
            assert(rows[k] == dep_row(run_id, e[k]));
            assert(e[k] == edges[k]);
            assert(edges[n] == edges.last());
            assert(!(edges[k].from@ == edges[n].from@ && edges[k].to@ == edges[n].to@));
        }
    }
}

/// A count as a JSON number.
pub open spec fn json_count(n: nat) -> JsonV {
    JsonV::Number(JsonNumberV::PosInt(n as u64))
}

/// The events journaled when a graph is accepted as run `run_id`.
pub open spec fn acceptance_events(run_id: Seq<char>, name: Seq<char>, g: TaskGraph) -> Seq<EventItem> {
    seq![
        (JournalKind::RunCreated, Some(run_id), None, JsonV::Object(seq![("name"@, JsonV::Str(name))])),
        (JournalKind::GraphAccepted, Some(run_id), None, JsonV::Object(seq![
            ("tasks"@, json_count(g.tasks@.len())),
            ("deps"@, json_count(g.deps@.len())),
        ])),
    ]
}

/// The status recorded for a task of a run (a later row wins).
pub open spec fn task_status(rows: Seq<TaskRecordV>, run_id: Seq<char>, task_id: Seq<char>) -> Option<Seq<char>>
    decreases rows.len(),
{
    if rows.len() == 0 {
        None
    } else if rows.last().run_id == run_id && rows.last().task_id == task_id {
        Some(rows.last().status)
    } else {
        task_status(rows.drop_last(), run_id, task_id)
    }
}

/// Every dependency edge into `t` comes from a task that is done.
pub open spec fn preds_done(rows: Seq<TaskRecordV>, run_id: Seq<char>, g: TaskGraph, t: Seq<char>) -> bool {
    forall|k: int| 0 <= k < g.deps@.len() && #[trigger] g.deps@[k].to@ == t
        ==> task_status(rows, run_id, g.deps@[k].from@) == Some("done"@)
}

/// A task is ready when it is pending (or has no row) and everything it
/// depends on is done.
pub open spec fn is_ready(rows: Seq<TaskRecordV>, run_id: Seq<char>, g: TaskGraph, t: Seq<char>) -> bool {
    &&& match task_status(rows, run_id, t) {
        Some(s) => s == "pending"@,
        None => true,
    }
    &&& preds_done(rows, run_id, g, t)
}

/// The ids of the ready tasks among `tasks`, in order.
pub open spec fn ready_ids(rows: Seq<TaskRecordV>, run_id: Seq<char>, g: TaskGraph, tasks: Seq<TaskSpec>) -> Seq<Seq<char>>
    decreases tasks.len(),
{
    if tasks.len() == 0 {
        Seq::empty()
    } else if is_ready(rows, run_id, g, tasks.last().id@) {
        ready_ids(rows, run_id, g, tasks.drop_last()).push(tasks.last().id@)
    } else {
        ready_ids(rows, run_id, g, tasks.drop_last())
    }
}

/// The tasks table after one task's status changed.
pub open spec fn with_status(rows: Seq<TaskRecordV>, run_id: Seq<char>, task_id: Seq<char>, status: Seq<char>) -> Seq<TaskRecordV> {
    rows.map_values(|t: TaskRecordV| if t.run_id == run_id && t.task_id == task_id { TaskRecordV { status, ..t } } else { t })
}

/// The tasks table after one task got its checkout.
pub open spec fn with_checkout(rows: Seq<TaskRecordV>, run_id: Seq<char>, task_id: Seq<char>, path: Seq<char>, branch: Seq<char>) -> Seq<TaskRecordV> {
    rows.map_values(|t: TaskRecordV| if t.run_id == run_id && t.task_id == task_id {
        TaskRecordV { worktree_path: Some(path), branch: Some(branch), ..t }
    } else {
        t
    })
}

/// The `(task id, status)` pairs of a run, in table order.
pub open spec fn run_states(rows: Seq<TaskRecordV>, run_id: Seq<char>) -> Seq<(Seq<char>, Seq<char>)>
    decreases rows.len(),
{
    if rows.len() == 0 {
        Seq::empty()
    } else if rows.last().run_id == run_id {
        run_states(rows.drop_last(), run_id).push((rows.last().task_id, rows.last().status))
    } else {
        run_states(rows.drop_last(), run_id)
    }
}

/// The `(upstream task, artifacts)` of the dependency rows into a task, in table order.
pub open spec fn deps_into(rows: Seq<DepRecordV>, run_id: Seq<char>, task_id: Seq<char>) -> Seq<(Seq<char>, Seq<ArtifactRefV>)>
    decreases rows.len(),
{
    if rows.len() == 0 {
        Seq::empty()
    } else if rows.last().run_id == run_id && rows.last().to_task == task_id {
        deps_into(rows.drop_last(), run_id, task_id).push((rows.last().from_task, rows.last().artifacts))
    } else {
        deps_into(rows.drop_last(), run_id, task_id)
    }
}

pub open spec fn pairs_view(v: Seq<(String, String)>) -> Seq<(Seq<char>, Seq<char>)> {
    v.map_values(|p: (String, String)| (p.0@, p.1@))
}

pub open spec fn dep_lists_view(v: Seq<(String, Vec<ArtifactRef>)>) -> Seq<(Seq<char>, Seq<ArtifactRefV>)> {
    v.map_values(|p: (String, Vec<ArtifactRef>)| (p.0@, artifacts_view(p.1@)))
}

proof fn lemma_first_conflict_extend(rows: Seq<DepRecordV>, run_id: Seq<char>, edges: Seq<TaskDepEdge>, k: int, i: int)
    requires
        0 < k <= edges.len(),
        first_dep_conflict(rows, run_id, edges.take(k)) == Some(i),
    ensures
        first_dep_conflict(rows, run_id, edges) == Some(i),
    decreases edges.len() - k,
{
    if k < edges.len() {
        assert(edges.take(k + 1).drop_last() =~= edges.take(k));
        lemma_first_conflict_extend(rows, run_id, edges, k + 1, i);
    } else {
        assert(edges.take(k) =~= edges);
    }
}

/// Whether a dependency row for this run and edge exists.
fn dep_taken(db: &Db, run_id: &str, from: &str, to: &str) -> (b: bool)
    ensures
        b == dep_key_taken(db.runs.dep_rows(), run_id@, from@, to@),
{
    let ghost rows = db.runs.dep_rows();
    let mut k: usize = 0;
    while k < db.runs.deps.len()
        invariant
            rows == db.runs.dep_rows(),
            k <= rows.len(),
            forall|j: int| 0 <= j < k ==> !(#[trigger] rows[j].run_id == run_id@ && rows[j].from_task == from@
                && rows[j].to_task == to@),
        decreases rows.len() - k,
    {
        let d = &db.runs.deps[k];
        proof { assert(rows[k as int] == d@); }
        if str_eq(d.run_id.as_str(), run_id) && str_eq(d.from_task.as_str(), from) && str_eq(d.to_task.as_str(), to) {
            proof { assert(rows[k as int].run_id == run_id@ && rows[k as int].from_task == from@ && rows[k as int].to_task == to@); }
            return true;
        }
        k += 1;
    }
    false
}

impl TaskSpec {
    /// The pending row of the task in run `run_id`.
    pub fn to_row(&self, run_id: &str) -> (r: TaskRecord)
        ensures
            r@ == task_row(run_id@, *self),
    {
        TaskRecord {
            run_id: run_id.to_owned(),
            task_id: self.id.clone(),
            title: self.title.clone(),
            prompt: self.prompt.clone(),
            status: "pending".to_owned(),
            gate_command: copy_opt(&self.gate_command),
            allow_inplace: self.allow_inplace,
            produces: copy_artifacts(&self.produces),
            worktree_path: None,
            branch: None,
        }
    }
}

impl Scheduler {
    pub closed spec fn root(&self) -> Seq<char> {
        self.repo_root@
    }

    pub closed spec fn worktrees_dir(&self) -> Seq<char> {
        self.worktree_root@
    }

    pub fn new(repo_root: String, worktree_root: String) -> (s: Scheduler)
        ensures
            s.root() == repo_root@,
            s.worktrees_dir() == worktree_root@,
    {
        Scheduler { repo_root, worktree_root }
    }

    pub fn repo_root(&self) -> (r: &str)
        ensures
            r@ == self.root(),
    {
        self.repo_root.as_str()
    }

    pub fn worktree_root(&self) -> (r: &str)
        ensures
            r@ == self.worktrees_dir(),
    {
        self.worktree_root.as_str()
    }

    /// Accepts a parsed task graph as a new run with the given id: checks
    /// the graph, records the run (status `accepted`, with its YAML text),
    /// its tasks (all `pending`) and its dependency edges, and journals
    /// `run_created` and `graph_accepted`. An invalid graph changes nothing.
    /// The run id is unique, and so is each edge of a run: a repeated edge
    /// stops the acceptance with the rows written so far.
    pub fn accept_graph_as(&self, db: &mut Db, run_id: &str, name: &str, yaml: &str, graph: TaskGraph) -> (r: Result<(String, TaskGraph), CoreError>)
        requires
            old(db).wf(),
        ensures
            final(db).wf(),
            final(db).same_but_run_tables(old(db)),
            !graph_valid(graph) ==> (r matches Err(e) && is_validation_error(graph, e)) && *final(db) == *old(db),
            graph_valid(graph) && old(db).runs.has_run(run_id@) ==> (r matches Err(e) && e is Sqlite)
                && *final(db) == *old(db),
            graph_valid(graph) && !old(db).runs.has_run(run_id@) ==> {
                &&& final(db).runs.run_rows() == old(db).runs.run_rows().push(RunRecordV {
                    id: run_id@,
                    name: name@,
                    repo_root: self.root(),
                    status: "accepted"@,
                    graph_yaml: yaml@,
                })
                &&& old(db).journal.last_seq() >= i64::MAX ==> {
                    &&& (r matches Err(e) && e is Sqlite)
                    &&& final(db).journal.events() == old(db).journal.events()
                    &&& final(db).runs.tasks@ == old(db).runs.tasks@
                    &&& final(db).runs.deps@ == old(db).runs.deps@
                }
                &&& old(db).journal.last_seq() < i64::MAX ==> {
                    &&& final(db).runs.task_rows() == old(db).runs.task_rows() + task_rows_of(run_id@, graph.tasks@)
                    &&& match first_dep_conflict(old(db).runs.dep_rows(), run_id@, graph.deps@) {
                        Some(k) => {
                            &&& final(db).runs.dep_rows() == old(db).runs.dep_rows() + dep_rows_of(run_id@, graph.deps@.take(k))
                            &&& (r matches Err(e) && e is Sqlite)
                            &&& appended_events(old(db).journal.events(), final(db).journal.events(),
                                acceptance_events(run_id@, name@, graph).take(1))
                        },
                        None => {
                            &&& final(db).runs.dep_rows() == old(db).runs.dep_rows() + dep_rows_of(run_id@, graph.deps@)
                            &&& old(db).journal.last_seq() + 1 < i64::MAX ==> (r matches Ok((id, g)) && id@ == run_id@
                                && g == graph && appended_events(old(db).journal.events(), final(db).journal.events(),
                                acceptance_events(run_id@, name@, graph)))
                            &&& old(db).journal.last_seq() + 1 >= i64::MAX ==> (r matches Err(e) && e is Sqlite)
                        },
                    }
                }
            },
    {
        match validate_graph(&graph) {
            Ok(()) => {},
            Err(e) => { return Err(e); },
        }
        if db.runs.run_exists(run_id) {
            return Err(unique_error("runs.id"));
        }
        let ghost ev0 = db.journal.events();
        let run = RunRecord {
            id: run_id.to_owned(),
            name: name.to_owned(),
            repo_root: self.repo_root.clone(),
            status: "accepted".to_owned(),
            graph_yaml: yaml.to_owned(),
        };
        let ghost runs0 = db.runs.run_rows();
        let ghost rv = run@;
        db.runs.runs.push(run);
        proof { assert(db.runs.run_rows() =~= runs0.push(rv)); }
        let ghost items = acceptance_events(run_id@, name@, graph);
        proof { lemma_appended_events_none(ev0); }
        match db.journal.record(JournalKind::RunCreated, Some(run_id), None, object1("name", Json::text(name))) {
            Ok(()) => {},
            Err(e) => { return Err(e); },
        }
        proof {
            lemma_appended_events_push(ev0, ev0, db.journal.events(), Seq::empty(), items[0]);
            assert(Seq::<EventItem>::empty().push(items[0]) =~= items.take(1));
        }
        let ghost tasks0 = db.runs.task_rows();
        let mut i: usize = 0;
        while i < graph.tasks.len()
            invariant
                i <= graph.tasks@.len(),
                db.runs.task_rows() == tasks0 + task_rows_of(run_id@, graph.tasks@.take(i as int)),
                db.same_but_run_tables(old(db)),
                old(db).wf(),
                graph_valid(graph),
                !old(db).runs.has_run(run_id@),
                old(db).journal.last_seq() < i64::MAX,
                items == acceptance_events(run_id@, name@, graph),
                db.runs.run_rows() == old(db).runs.run_rows().push(RunRecordV {
                    id: run_id@, name: name@, repo_root: self.root(), status: "accepted"@, graph_yaml: yaml@ }),
                db.runs.deps@ == old(db).runs.deps@,
                db.journal.wf(),
                appended_events(ev0, db.journal.events(), items.take(1)),
                tasks0 == old(db).runs.task_rows(),
                ev0 == old(db).journal.events(),
            decreases graph.tasks@.len() - i,
        {
            let row = graph.tasks[i].to_row(run_id);
            let ghost before = db.runs.task_rows();
            db.runs.tasks.push(row);
            proof {
                assert(db.runs.task_rows() =~= before.push(task_row(run_id@, graph.tasks@[i as int])));
                assert(task_rows_of(run_id@, graph.tasks@.take(i + 1)) =~=
                    task_rows_of(run_id@, graph.tasks@.take(i as int)).push(task_row(run_id@, graph.tasks@[i as int])));
            }
            i += 1;
        }
        proof { assert(graph.tasks@.take(i as int) =~= graph.tasks@); }
        let ghost deps0 = db.runs.dep_rows();
        let mut k: usize = 0;
        proof { assert(dep_rows_of(run_id@, graph.deps@.take(0)) =~= Seq::<DepRecordV>::empty()); assert(deps0 + Seq::<DepRecordV>::empty() =~= deps0); }
        while k < graph.deps.len()
            invariant
                k <= graph.deps@.len(),
                deps0 == old(db).runs.dep_rows(),
                db.runs.dep_rows() == deps0 + dep_rows_of(run_id@, graph.deps@.take(k as int)),
                first_dep_conflict(deps0, run_id@, graph.deps@.take(k as int)) is None,
                db.same_but_run_tables(old(db)),
                db.runs.task_rows() == tasks0 + task_rows_of(run_id@, graph.tasks@),
                old(db).wf(),
                graph_valid(graph),
                !old(db).runs.has_run(run_id@),
                old(db).journal.last_seq() < i64::MAX,
                items == acceptance_events(run_id@, name@, graph),
                tasks0 == old(db).runs.task_rows(),
                db.runs.run_rows() == old(db).runs.run_rows().push(RunRecordV {
                    id: run_id@, name: name@, repo_root: self.root(), status: "accepted"@, graph_yaml: yaml@ }),
                db.journal.wf(),
                appended_events(ev0, db.journal.events(), items.take(1)),
                ev0 == old(db).journal.events(),
            decreases graph.deps@.len() - k,
        {
            let d = &graph.deps[k];
            proof {
                assert(graph.deps@.take(k + 1).drop_last() =~= graph.deps@.take(k as int));
                assert(graph.deps@.take(k + 1).last() == *d);
            }
            if dep_taken(db, run_id, d.from.as_str(), d.to.as_str()) {
                proof { lemma_first_conflict_extend(deps0, run_id@, graph.deps@, k + 1, k as int); }
                return Err(unique_error("task_deps.run_id, task_deps.from_task, task_deps.to_task"));
            }
            let row = DepRecord {
                run_id: run_id.to_owned(),
                from_task: d.from.clone(),
                to_task: d.to.clone(),
                artifacts: copy_artifacts(&d.artifacts),
            };
            let ghost before = db.runs.dep_rows();
            db.runs.deps.push(row);
            proof {
                assert(db.runs.dep_rows() =~= before.push(dep_row(run_id@, *d)));
                assert(dep_rows_of(run_id@, graph.deps@.take(k + 1)) =~=
                    dep_rows_of(run_id@, graph.deps@.take(k as int)).push(dep_row(run_id@, *d)));
            }
            k += 1;
        }
        proof { assert(graph.deps@.take(k as int) =~= graph.deps@); }
        let counts = object2("tasks", Json::Number(JsonNumber::PosInt(graph.tasks.len() as u64)), "deps",
            Json::Number(JsonNumber::PosInt(graph.deps.len() as u64)));
        let ghost mid = db.journal.events();
        match db.journal.record(JournalKind::GraphAccepted, Some(run_id), None, counts) {
            Ok(()) => {},
            Err(e) => { return Err(e); },
        }
        proof {
            lemma_appended_events_push(ev0, mid, db.journal.events(), items.take(1), items[1]);
            assert(items.take(1).push(items[1]) =~= items);
        }
        Ok((run_id.to_owned(), graph))
    }

    /// Accepts a parsed task graph as a new run under a fresh random id
    /// (see `accept_graph_as`, which states the outcome for each id).
    pub fn accept_graph(&self, db: &mut Db, name: &str, yaml: &str, graph: TaskGraph) -> (r: Result<(String, TaskGraph), CoreError>)
        requires
            old(db).wf(),
        ensures
            final(db).wf(),
            final(db).same_but_run_tables(old(db)),
            !graph_valid(graph) ==> (r matches Err(e) && is_validation_error(graph, e)) && *final(db) == *old(db),
            r matches Ok((id, g)) ==> g == graph && !old(db).runs.has_run(id@)
                && final(db).runs.run_rows() == old(db).runs.run_rows().push(RunRecordV {
                    id: id@, name: name@, repo_root: self.root(), status: "accepted"@, graph_yaml: yaml@ })
                && final(db).runs.task_rows() == old(db).runs.task_rows() + task_rows_of(id@, graph.tasks@)
                && final(db).runs.dep_rows() == old(db).runs.dep_rows() + dep_rows_of(id@, graph.deps@)
                && appended_events(old(db).journal.events(), final(db).journal.events(),
                    acceptance_events(id@, name@, graph)),
            // Only the random run id could clash, and there is no run to clash with.
            graph_valid(graph) && edges_distinct(graph.deps@) && old(db).runs.runs@.len() == 0
                && old(db).runs.deps@.len() == 0 && old(db).journal.last_seq() + 1 < i64::MAX ==> r is Ok,
    {
        let run_id = new_uuid_v4();
        proof {
            if edges_distinct(graph.deps@) && old(db).runs.deps@.len() == 0 {
                lemma_distinct_edges_no_conflict(run_id@, graph.deps@);
                assert(old(db).runs.dep_rows() =~= Seq::<DepRecordV>::empty());
            }
        }
        self.accept_graph_as(db, run_id.as_str(), name, yaml, graph)
    }
}

impl Scheduler {
    /// Sets the status of a task of a run.
    pub fn set_status(&self, db: &mut Db, run_id: &str, task_id: &str, status: TaskStatus)
        requires
            old(db).wf(),
        ensures
            final(db).wf(),
            final(db).same_but_tasks(old(db)),
            final(db).journal == old(db).journal,
            final(db).runs.task_rows() == with_status(old(db).runs.task_rows(), run_id@, task_id@, status.name()),
    {
        let name = status.as_str();
        let ghost before = db.runs.task_rows();
        let ghost target = with_status(before, run_id@, task_id@, status.name());
        let n = db.runs.tasks.len();
        let mut i: usize = 0;
        while i < n
            invariant
                n == db.runs.tasks@.len(),
                n == before.len(),
                i <= n,
                name@ == status.name(),
                target == with_status(before, run_id@, task_id@, status.name()),
                forall|j: int| 0 <= j < i ==> #[trigger] db.runs.task_rows()[j] == target[j],
                forall|j: int| i <= j < n ==> #[trigger] db.runs.task_rows()[j] == before[j],
                db.same_but_tasks(old(db)),
                db.journal == old(db).journal,
            decreases n - i,
        {
            proof { assert(before[i as int] == db.runs.task_rows()[i as int]); }
            let t = &db.runs.tasks[i];
            if str_eq(t.run_id.as_str(), run_id) && str_eq(t.task_id.as_str(), task_id) {
                let updated = TaskRecord {
                    run_id: t.run_id.clone(),
                    task_id: t.task_id.clone(),
                    title: t.title.clone(),
                    prompt: t.prompt.clone(),
                    status: name.to_owned(),
                    gate_command: copy_opt(&t.gate_command),
                    allow_inplace: t.allow_inplace,
                    produces: copy_artifacts(&t.produces),
                    worktree_path: copy_opt(&t.worktree_path),
                    branch: copy_opt(&t.branch),
                };
                proof { assert(updated@ == target[i as int]); }
                let ghost mid = db.runs.task_rows();
                db.runs.tasks.set(i, updated);
                proof {
                    assert forall|j: int| 0 <= j < n && j != i implies #[trigger] db.runs.task_rows()[j] == mid[j] by {}
                }
            }
            i += 1;
        }
        proof { assert(db.runs.task_rows() =~= target); }
    }

    /// Records the checkout a task works in.
    pub fn set_checkout(&self, db: &mut Db, run_id: &str, task_id: &str, path: &str, branch: &str)
        requires
            old(db).wf(),
        ensures
            final(db).wf(),
            final(db).same_but_tasks(old(db)),
            final(db).journal == old(db).journal,
            final(db).runs.task_rows() == with_checkout(old(db).runs.task_rows(), run_id@, task_id@, path@, branch@),
    {
        let ghost before = db.runs.task_rows();
        let ghost target = with_checkout(before, run_id@, task_id@, path@, branch@);
        let n = db.runs.tasks.len();
        let mut i: usize = 0;
        while i < n
            invariant
                n == db.runs.tasks@.len(),
                n == before.len(),
                i <= n,
                target == with_checkout(before, run_id@, task_id@, path@, branch@),
                forall|j: int| 0 <= j < i ==> #[trigger] db.runs.task_rows()[j] == target[j],
                forall|j: int| i <= j < n ==> #[trigger] db.runs.task_rows()[j] == before[j],
                db.same_but_tasks(old(db)),
                db.journal == old(db).journal,
            decreases n - i,
        {
            proof { assert(before[i as int] == db.runs.task_rows()[i as int]); }
            let t = &db.runs.tasks[i];
            if str_eq(t.run_id.as_str(), run_id) && str_eq(t.task_id.as_str(), task_id) {
                let updated = TaskRecord {
                    run_id: t.run_id.clone(),
                    task_id: t.task_id.clone(),
                    title: t.title.clone(),
                    prompt: t.prompt.clone(),
                    status: t.status.clone(),
                    gate_command: copy_opt(&t.gate_command),
                    allow_inplace: t.allow_inplace,
                    produces: copy_artifacts(&t.produces),
                    worktree_path: Some(path.to_owned()),
                    branch: Some(branch.to_owned()),
                };
                proof { assert(updated@ == target[i as int]); }
                let ghost mid = db.runs.task_rows();
                db.runs.tasks.set(i, updated);
                proof {
                    assert forall|j: int| 0 <= j < n && j != i implies #[trigger] db.runs.task_rows()[j] == mid[j] by {}
                }
            }
            i += 1;
        }
        proof { assert(db.runs.task_rows() =~= target); }
    }

    /// The `(task id, status)` pairs of a run, in table order.
    pub fn all_statuses(&self, db: &Db, run_id: &str) -> (r: Vec<(String, String)>)
        ensures
            pairs_view(r@) == run_states(db.runs.task_rows(), run_id@),
    {
        let ghost rows = db.runs.task_rows();
        let mut out: Vec<(String, String)> = Vec::new();
        let mut k: usize = 0;
        while k < db.runs.tasks.len()
            invariant
                rows == db.runs.task_rows(),
                k <= rows.len(),
                pairs_view(out@) == run_states(rows.take(k as int), run_id@),
            decreases rows.len() - k,
        {
            let t = &db.runs.tasks[k];
            proof {
                assert(rows.take(k + 1).drop_last() =~= rows.take(k as int));
                assert(rows.take(k + 1).last() == t@);
            }
            if str_eq(t.run_id.as_str(), run_id) {
                let ghost prev = pairs_view(out@);
                out.push((t.task_id.clone(), t.status.clone()));
                proof { assert(pairs_view(out@) =~= prev.push((t.task_id@, t.status@))); }
            }
            k += 1;
        }
        proof { assert(rows.take(k as int) =~= rows); }
        out
    }

    /// The status recorded for a task of a run, if it has a row.
    pub fn status_of(&self, db: &Db, run_id: &str, task_id: &str) -> (r: Option<String>)
        ensures
            match r {
                Some(s) => task_status(db.runs.task_rows(), run_id@, task_id@) == Some(s@),
                None => task_status(db.runs.task_rows(), run_id@, task_id@) is None,
            },
    {
        let ghost rows = db.runs.task_rows();
        let mut k: usize = db.runs.tasks.len();
        proof { assert(rows.take(k as int) =~= rows); }
        while k > 0
            invariant
                rows == db.runs.task_rows(),
                k <= rows.len(),
                task_status(rows, run_id@, task_id@) == task_status(rows.take(k as int), run_id@, task_id@),
            decreases k,
        {
            let t = &db.runs.tasks[k - 1];
            proof {
                assert(rows.take(k as int).last() == t@);
                assert(rows.take(k as int).drop_last() =~= rows.take(k - 1));
            }
            if str_eq(t.run_id.as_str(), run_id) && str_eq(t.task_id.as_str(), task_id) {
                return Some(t.status.clone());
            }
            k -= 1;
        }
        None
    }

    /// The tasks of `graph` that are ready in run `run_id`, in graph order:
    /// pending (or without a row) with every upstream task done.
    pub fn ready_tasks(&self, db: &Db, run_id: &str, graph: &TaskGraph) -> (r: Vec<String>)
        ensures
            views_of(r@) == ready_ids(db.runs.task_rows(), run_id@, *graph, graph.tasks@),
            // Every task that is pending (or has no row) with all its upstream tasks done is listed.
            forall|i: int| #![trigger graph.tasks@[i]] 0 <= i < graph.tasks@.len()
                && (task_status(db.runs.task_rows(), run_id@, graph.tasks@[i].id@) is None
                    || task_status(db.runs.task_rows(), run_id@, graph.tasks@[i].id@) == Some("pending"@))
                && (forall|k: int| 0 <= k < graph.deps@.len() && #[trigger] graph.deps@[k].to@ == graph.tasks@[i].id@
                    ==> task_status(db.runs.task_rows(), run_id@, graph.deps@[k].from@) == Some("done"@))
                ==> views_of(r@).contains(graph.tasks@[i].id@),
            // Every listed task is pending (or has no row) with all its upstream tasks done.
            forall|j: int| 0 <= j < r@.len() ==> {
                &&& (task_status(db.runs.task_rows(), run_id@, #[trigger] r@[j]@) is None
                    || task_status(db.runs.task_rows(), run_id@, r@[j]@) == Some("pending"@))
                &&& forall|k: int| 0 <= k < graph.deps@.len() && #[trigger] graph.deps@[k].to@ == r@[j]@
                    ==> task_status(db.runs.task_rows(), run_id@, graph.deps@[k].from@) == Some("done"@)
            },
    {
        let ghost rows = db.runs.task_rows();
        let mut out: Vec<String> = Vec::new();
        let mut i: usize = 0;
        while i < graph.tasks.len()
            invariant
                rows == db.runs.task_rows(),
                i <= graph.tasks@.len(),
                views_of(out@) == ready_ids(rows, run_id@, *graph, graph.tasks@.take(i as int)),
            decreases graph.tasks@.len() - i,
        {
            let t = &graph.tasks[i];
            proof {
                assert(graph.tasks@.take(i + 1).drop_last() =~= graph.tasks@.take(i as int));
                assert(graph.tasks@.take(i + 1).last() == *t);
                reveal_strlit("pending");
                reveal_strlit("done");
            }
            let pending = match self.status_of(db, run_id, t.id.as_str()) {
                Some(s) => str_eq(s.as_str(), "pending"),
                None => true,
            };
            if pending {
                let mut ok = true;
                let mut k: usize = 0;
                while k < graph.deps.len()
                    invariant
                        rows == db.runs.task_rows(),
                        k <= graph.deps@.len(),
                        i < graph.tasks@.len(),
                        *t == graph.tasks@[i as int],
                        ok == (forall|j: int| 0 <= j < k && #[trigger] graph.deps@[j].to@ == t.id@
                            ==> task_status(rows, run_id@, graph.deps@[j].from@) == Some("done"@)),
                    decreases graph.deps@.len() - k,
                {
                    let d = &graph.deps[k];
                    if str_eq(d.to.as_str(), t.id.as_str()) {
                        let done = match self.status_of(db, run_id, d.from.as_str()) {
                            Some(s) => str_eq(s.as_str(), "done"),
                            None => false,
                        };
                        if !done {
                            ok = false;
                        }
                    }
                    k += 1;
                }
                if ok {
                    let ghost prev = views_of(out@);
                    out.push(t.id.clone());
                    proof { assert(views_of(out@) =~= prev.push(t.id@)); }
                }
            }
            i += 1;
        }
        proof {
            assert(graph.tasks@.take(i as int) =~= graph.tasks@);
            assert forall|i: int| #![trigger graph.tasks@[i]] 0 <= i < graph.tasks@.len()
                && (task_status(rows, run_id@, graph.tasks@[i].id@) is None
                    || task_status(rows, run_id@, graph.tasks@[i].id@) == Some("pending"@))
                && (forall|k: int| 0 <= k < graph.deps@.len() && #[trigger] graph.deps@[k].to@ == graph.tasks@[i].id@
                    ==> task_status(rows, run_id@, graph.deps@[k].from@) == Some("done"@))
                implies views_of(out@).contains(graph.tasks@[i].id@) by {
                lemma_ready_ids_complete(rows, run_id@, *graph, graph.tasks@, i);
            }
            assert forall|j: int| 0 <= j < out@.len() implies {
                &&& (task_status(rows, run_id@, #[trigger] out@[j]@) is None
                    || task_status(rows, run_id@, out@[j]@) == Some("pending"@))
                &&& forall|k: int| 0 <= k < graph.deps@.len() && #[trigger] graph.deps@[k].to@ == out@[j]@
                    ==> task_status(rows, run_id@, graph.deps@[k].from@) == Some("done"@)
            } by {
                assert(views_of(out@)[j] == out@[j]@);
                lemma_ready_ids_are_ready(rows, run_id@, *graph, graph.tasks@, j);
            }
        }
        out
    }

    /// The `(upstream task, artifacts)` of the dependency edges into a
    /// task, in table order.
    pub fn deps_for(&self, db: &Db, run_id: &str, task_id: &str) -> (r: Vec<(String, Vec<ArtifactRef>)>)
        ensures
            dep_lists_view(r@) == deps_into(db.runs.dep_rows(), run_id@, task_id@),
    {
        let ghost rows = db.runs.dep_rows();
        let mut out: Vec<(String, Vec<ArtifactRef>)> = Vec::new();
        let mut k: usize = 0;
        while k < db.runs.deps.len()
            invariant
                rows == db.runs.dep_rows(),
                k <= rows.len(),
                dep_lists_view(out@) == deps_into(rows.take(k as int), run_id@, task_id@),
            decreases rows.len() - k,
        {
            let d = &db.runs.deps[k];
            proof {
                assert(rows.take(k + 1).drop_last() =~= rows.take(k as int));
                assert(rows.take(k + 1).last() == d@);
            }
            if str_eq(d.run_id.as_str(), run_id) && str_eq(d.to_task.as_str(), task_id) {
                let ghost prev = dep_lists_view(out@);
                out.push((d.from_task.clone(), copy_artifacts(&d.artifacts)));
                proof { assert(dep_lists_view(out@) =~= prev.push((d.from_task@, artifacts_view(d.artifacts@)))); }
            }
            k += 1;
        }
        proof { assert(rows.take(k as int) =~= rows); }
        out
    }

    /// The YAML text of a run's graph; an unknown run is a failed query.
    pub fn graph_yaml(&self, db: &Db, run_id: &str) -> (r: Result<String, CoreError>)
        ensures
            db.runs.has_run(run_id@) ==> (r matches Ok(y) && exists|k: int| 0 <= k < db.runs.runs@.len()
                && db.runs.runs@[k].id@ == run_id@ && #[trigger] db.runs.runs@[k].graph_yaml@ == y@
                && forall|j: int| 0 <= j < k ==> #[trigger] db.runs.runs@[j].id@ != run_id@),
            !db.runs.has_run(run_id@) ==> (r matches Err(CoreError::Sqlite(m)) && m@ == "Query returned no rows"@),
    {
        let mut k: usize = 0;
        while k < db.runs.runs.len()
            invariant
                k <= db.runs.runs@.len(),
                forall|j: int| 0 <= j < k ==> #[trigger] db.runs.runs@[j].id@ != run_id@,
            decreases db.runs.runs@.len() - k,
        {
            if str_eq(db.runs.runs[k].id.as_str(), run_id) {
                let y = db.runs.runs[k].graph_yaml.clone();
                proof { assert(db.runs.runs@[k as int].graph_yaml@ == y@); }
                return Ok(y);
            }
            k += 1;
        }
        Err(CoreError::Sqlite("Query returned no rows".to_owned()))
    }
}

/// A ready task has every upstream task done: downstream work never starts
/// before its dependencies finished.
pub proof fn lemma_ready_only_after_upstream_done(rows: Seq<TaskRecordV>, run_id: Seq<char>, g: TaskGraph, k: int, d: int)
    requires
        0 <= k < ready_ids(rows, run_id, g, g.tasks@).len(),
        0 <= d < g.deps@.len(),
        g.deps@[d].to@ == ready_ids(rows, run_id, g, g.tasks@)[k],
    ensures
        task_status(rows, run_id, g.deps@[d].from@) == Some("done"@),
{
    lemma_ready_ids_are_ready(rows, run_id, g, g.tasks@, k);
}

/// Every id that `ready_ids` lists is ready.
pub proof fn lemma_ready_ids_are_ready(rows: Seq<TaskRecordV>, run_id: Seq<char>, g: TaskGraph, tasks: Seq<TaskSpec>, k: int)
    requires
        0 <= k < ready_ids(rows, run_id, g, tasks).len(),
    ensures
        is_ready(rows, run_id, g, ready_ids(rows, run_id, g, tasks)[k]),
    decreases tasks.len(),
{
    if tasks.len() > 0 {
        let prev = ready_ids(rows, run_id, g, tasks.drop_last());
        if k < prev.len() {
            lemma_ready_ids_are_ready(rows, run_id, g, tasks.drop_last(), k);
        }
    }
}

/// Readiness is complete: every task that is pending (or has no row) and
/// whose upstream tasks are all done is listed, not just some of them.
pub proof fn lemma_ready_ids_complete(rows: Seq<TaskRecordV>, run_id: Seq<char>, g: TaskGraph, tasks: Seq<TaskSpec>, i: int)
    requires
        0 <= i < tasks.len(),
        task_status(rows, run_id, tasks[i].id@) is None || task_status(rows, run_id, tasks[i].id@) == Some("pending"@),
        forall|k: int| 0 <= k < g.deps@.len() && #[trigger] g.deps@[k].to@ == tasks[i].id@
            ==> task_status(rows, run_id, g.deps@[k].from@) == Some("done"@),
    ensures
        ready_ids(rows, run_id, g, tasks).contains(tasks[i].id@),
    decreases tasks.len(),
{
    let prev = ready_ids(rows, run_id, g, tasks.drop_last());
    let all = ready_ids(rows, run_id, g, tasks);
    if i == tasks.len() - 1 {
        assert(tasks.last() == tasks[i]);
        assert(preds_done(rows, run_id, g, tasks.last().id@));
        assert(is_ready(rows, run_id, g, tasks.last().id@));
        assert(all == prev.push(tasks[i].id@));
        assert(all[prev.len() as int] == tasks[i].id@);
    } else {
        assert(tasks.drop_last()[i] == tasks[i]);
        lemma_ready_ids_complete(rows, run_id, g, tasks.drop_last(), i);
        let q = choose|q: int| 0 <= q < prev.len() && prev[q] == tasks[i].id@;
        if is_ready(rows, run_id, g, tasks.last().id@) {
            assert(all == prev.push(tasks.last().id@));
            assert(all[q] == prev[q]);
        } else {
            assert(all == prev);
        }
    }
}

/// A task whose upstream task failed is never ready: a red gate blocks
/// everything downstream of it.
pub proof fn lemma_failed_upstream_blocks(rows: Seq<TaskRecordV>, run_id: Seq<char>, g: TaskGraph, d: int)
    requires
        0 <= d < g.deps@.len(),
        task_status(rows, run_id, g.deps@[d].from@) == Some("failed"@),
    ensures
        !ready_ids(rows, run_id, g, g.tasks@).contains(g.deps@[d].to@),
{
    reveal_strlit("failed");
    reveal_strlit("done");
    if ready_ids(rows, run_id, g, g.tasks@).contains(g.deps@[d].to@) {
        let k = choose|k: int| 0 <= k < ready_ids(rows, run_id, g, g.tasks@).len()
            && ready_ids(rows, run_id, g, g.tasks@)[k] == g.deps@[d].to@;
        lemma_ready_only_after_upstream_done(rows, run_id, g, k, d);
        assert("failed"@[0] != "done"@[0]);
    }
}

/// What the caller must do next for a run, and report back.
#[derive(Debug)]
pub enum RunStep {
    /// Create the task's checkout (in place when allowed), then call `worktree_ready`.
    PrepareWorktree { task_id: String, allow_inplace: bool },
    /// Copy these upstream artifacts into the worktree, then call `bootstrapped`.
    Bootstrap { task_id: String, worktree_path: String, deps: Vec<(String, Vec<ArtifactRef>)> },
    /// Run the agent on the task, then call `agent_finished`.
    RunAgent { task_id: String, worktree_path: String, prompt: String },
    /// Check that the declared artifact exists in the worktree and record
    /// it, then call `produce_missing` or `produce_recorded`.
    RecordProduce { task_id: String, worktree_path: String, artifact: ArtifactRef },
    /// Run its gate command in the worktree, then call `gate_finished`.
    RunGate { task_id: String, worktree_path: String, command: String },
    /// Merge the task's branch, then call `merged`.
    Merge { task_id: String, worktree_path: String, branch: String },
    /// No task is ready any more.
    Finished(RunSummary),
    /// The run stopped with this error.
    Failed(CoreError),
}

/// The mathematical value of a step.
pub enum RunStepV {
    PrepareWorktree { task_id: Seq<char>, allow_inplace: bool },
    Bootstrap { task_id: Seq<char>, worktree_path: Seq<char>, deps: Seq<(Seq<char>, Seq<ArtifactRefV>)> },
    RunAgent { task_id: Seq<char>, worktree_path: Seq<char>, prompt: Seq<char> },
    RecordProduce { task_id: Seq<char>, worktree_path: Seq<char>, artifact: ArtifactRefV },
    RunGate { task_id: Seq<char>, worktree_path: Seq<char>, command: Seq<char> },
    Merge { task_id: Seq<char>, worktree_path: Seq<char>, branch: Seq<char> },
    Finished { run_id: Seq<char>, task_states: Seq<(Seq<char>, Seq<char>)> },
    Failed(CoreError),
}

impl View for RunStep {
    type V = RunStepV;

    open spec fn view(&self) -> RunStepV {
        match self {
            RunStep::PrepareWorktree { task_id, allow_inplace } => RunStepV::PrepareWorktree { task_id: task_id@, allow_inplace: *allow_inplace },
            RunStep::Bootstrap { task_id, worktree_path, deps } => RunStepV::Bootstrap {
                task_id: task_id@, worktree_path: worktree_path@, deps: dep_lists_view(deps@) },
            RunStep::RunAgent { task_id, worktree_path, prompt } => RunStepV::RunAgent {
                task_id: task_id@, worktree_path: worktree_path@, prompt: prompt@ },
            RunStep::RecordProduce { task_id, worktree_path, artifact } => RunStepV::RecordProduce {
                task_id: task_id@, worktree_path: worktree_path@, artifact: artifact@ },
            RunStep::RunGate { task_id, worktree_path, command } => RunStepV::RunGate {
                task_id: task_id@, worktree_path: worktree_path@, command: command@ },
            RunStep::Merge { task_id, worktree_path, branch } => RunStepV::Merge {
                task_id: task_id@, worktree_path: worktree_path@, branch: branch@ },
            RunStep::Finished(s) => RunStepV::Finished { run_id: s.run_id@, task_states: pairs_view(s.task_states@) },
            RunStep::Failed(e) => RunStepV::Failed(*e),
        }
    }
}

/// What a run is waiting for.
#[derive(Debug, PartialEq, Eq, Structural)]
pub enum Stage {
    /// Ready to pick the next task.
    Idle,
    AwaitWorktree,
    AwaitBootstrap,
    AwaitAgent,
    AwaitProduce,
    AwaitGate,
    AwaitMerge,
    /// Finished or failed; nothing more happens.
    Stopped,
}

/// Drives one run through its tasks: ready tasks in waves, each through
/// worktree, artifact bootstrap, agent, declared artifacts, gate and
/// merge, stopping at the first failure.
pub struct RunDriver {
    run_id: String,
    graph: TaskGraph,
    wave: Vec<String>,
    task: usize,
    path: String,
    branch: String,
    produce: usize,
    stage: Stage,
}

/// The first task with this id.
pub open spec fn first_task_index(tasks: Seq<TaskSpec>, id: Seq<char>) -> Option<int>
    decreases tasks.len(),
{
    if tasks.len() == 0 {
        None
    } else {
        match first_task_index(tasks.drop_last(), id) {
            Some(i) => Some(i),
            None => if tasks.last().id@ == id { Some(tasks.len() - 1) } else { None },
        }
    }
}

proof fn lemma_first_task_index(tasks: Seq<TaskSpec>, id: Seq<char>)
    ensures
        first_task_index(tasks, id) matches Some(i) ==> 0 <= i < tasks.len() && tasks[i].id@ == id,
        first_task_index(tasks, id) is None ==> forall|j: int| 0 <= j < tasks.len() ==> #[trigger] tasks[j].id@ != id,
    decreases tasks.len(),
{
    if tasks.len() > 0 {
        lemma_first_task_index(tasks.drop_last(), id);
        assert forall|j: int| 0 <= j < tasks.len() - 1 implies #[trigger] tasks[j] == tasks.drop_last()[j] by {}
    }
}

proof fn lemma_ready_ids_in_graph(rows: Seq<TaskRecordV>, run_id: Seq<char>, g: TaskGraph, tasks: Seq<TaskSpec>, k: int)
    requires
        0 <= k < ready_ids(rows, run_id, g, tasks).len(),
    ensures
        first_task_index(tasks, ready_ids(rows, run_id, g, tasks)[k]) is Some,
    decreases tasks.len(),
{
    let prev = ready_ids(rows, run_id, g, tasks.drop_last());
    lemma_first_task_index(tasks.drop_last(), ready_ids(rows, run_id, g, tasks)[k]);
    if k < prev.len() {
        lemma_ready_ids_in_graph(rows, run_id, g, tasks.drop_last(), k);
    }
}

/// The index of the task with this id (see `first_task_index`).
fn task_position(tasks: &Vec<TaskSpec>, id: &str) -> (r: Option<usize>)
    ensures
        match r {
            Some(i) => first_task_index(tasks@, id@) == Some(i as int),
            None => first_task_index(tasks@, id@) is None,
        },
{
    let mut i: usize = 0;
    while i < tasks.len()
        invariant
            i <= tasks@.len(),
            first_task_index(tasks@.take(i as int), id@) is None,
        decreases tasks@.len() - i,
    {
        proof {
            assert(tasks@.take(i + 1).drop_last() =~= tasks@.take(i as int));
            assert(tasks@.take(i + 1).last() == tasks@[i as int]);
        }
        if str_eq(tasks[i].id.as_str(), id) {
            proof { lemma_first_task_from_prefix(tasks@, id@, i + 1, i as int); }
            return Some(i);
        }
        i += 1;
    }
    proof { assert(tasks@.take(i as int) =~= tasks@); }
    None
}

proof fn lemma_first_task_from_prefix(tasks: Seq<TaskSpec>, id: Seq<char>, k: int, i: int)
    requires
        0 < k <= tasks.len(),
        first_task_index(tasks.take(k), id) == Some(i),
    ensures
        first_task_index(tasks, id) == Some(i),
    decreases tasks.len() - k,
{
    if k < tasks.len() {
        assert(tasks.take(k + 1).drop_last() =~= tasks.take(k));
        lemma_first_task_from_prefix(tasks, id, k + 1, i);
    } else {
        assert(tasks.take(k) =~= tasks);
    }
}

impl RunDriver {
    pub closed spec fn run(&self) -> Seq<char> {
        self.run_id@
    }

    pub closed spec fn graph(&self) -> TaskGraph {
        self.graph
    }

    /// The tasks of the current wave not yet started, in order.
    pub closed spec fn wave(&self) -> Seq<Seq<char>> {
        views_of(self.wave@)
    }

    /// The index, in the graph, of the task being worked on.
    pub closed spec fn task(&self) -> int {
        self.task as int
    }

    /// The checkout of the task being worked on.
    pub closed spec fn checkout(&self) -> (Seq<char>, Seq<char>) {
        (self.path@, self.branch@)
    }

    /// How many declared artifacts of the current task were recorded.
    pub closed spec fn produced(&self) -> int {
        self.produce as int
    }

    pub closed spec fn stage(&self) -> Stage {
        self.stage
    }

    /// The task being worked on.
    pub open spec fn current(&self) -> TaskSpec {
        self.graph().tasks@[self.task()]
    }

    /// The driver's invariant: every task of the wave is a task of the
    /// graph, the current task exists, and at most all of its declared
    /// artifacts were recorded.
    pub open spec fn inv(&self) -> bool {
        &&& forall|k: int| 0 <= k < self.wave().len() ==> #[trigger] first_task_index(self.graph().tasks@, self.wave()[k]) is Some
        &&& (self.stage() != Stage::Idle && self.stage() != Stage::Stopped) ==> 0 <= self.task() < self.graph().tasks@.len()
        &&& self.stage() == Stage::AwaitProduce ==> self.produced() < self.current().produces@.len()
    }

    /// A driver for run `run_id` of `graph`, before its first task.
    pub fn new(run_id: &str, graph: TaskGraph) -> (d: RunDriver)
        ensures
            d.inv(),
            d.run() == run_id@,
            d.graph() == graph,
            d.wave().len() == 0,
            d.stage() == Stage::Idle,
    {
        let d = RunDriver {
            run_id: run_id.to_owned(),
            graph,
            wave: Vec::new(),
            task: 0,
            path: String::new(),
            branch: String::new(),
            produce: 0,
            stage: Stage::Idle,
        };
        proof { assert(d.wave() =~= Seq::<Seq<char>>::empty()); }
        d
    }

    /// The run's current task states, and the driver stops.
    fn finish(&mut self, sched: &Scheduler, db: &Db) -> (step: RunStep)
        ensures
            step@ == (RunStepV::Finished { run_id: old(self).run(), task_states: run_states(db.runs.task_rows(), old(self).run()) }),
            final(self).stage() == Stage::Stopped,
            final(self).run() == old(self).run(),
            final(self).graph() == old(self).graph(),
            final(self).wave() == old(self).wave(),
            final(self).task() == old(self).task(),
    {
        let states = sched.all_statuses(db, self.run_id.as_str());
        self.stage = Stage::Stopped;
        RunStep::Finished(RunSummary { run_id: self.run_id.clone(), task_states: states })
    }

    /// The run stops with `e`.
    fn fail(&mut self, e: CoreError) -> (step: RunStep)
        ensures
            step@ == RunStepV::Failed(e),
            final(self).stage() == Stage::Stopped,
            final(self).run() == old(self).run(),
            final(self).graph() == old(self).graph(),
            final(self).wave() == old(self).wave(),
            final(self).task() == old(self).task(),
    {
        self.stage = Stage::Stopped;
        RunStep::Failed(e)
    }
}

/// The tasks the next wave starts from: the wave in progress, or, when
/// it is used up, the tasks ready now.
pub open spec fn next_wave(d: RunDriver, rows: Seq<TaskRecordV>) -> Seq<Seq<char>> {
    if d.wave().len() == 0 { ready_ids(rows, d.run(), d.graph(), d.graph().tasks@) } else { d.wave() }
}

impl RunDriver {
    /// Picks the next task: the first of the wave in progress or, when it
    /// is used up, of the tasks ready now. Marks it `ready`, journals
    /// `task_ready`, and asks for its checkout. With no ready task the run
    /// is finished.
    pub fn next_task(&mut self, sched: &Scheduler, db: &mut Db) -> (step: RunStep)
        requires
            old(self).inv(),
            old(self).stage() == Stage::Idle,
            old(db).wf(),
        ensures
            final(self).inv(),
            final(db).wf(),
            final(db).same_but_tasks(old(db)),
            final(self).run() == old(self).run(),
            final(self).graph() == old(self).graph(),
            ({
                let rows = old(db).runs.task_rows();
                let run = old(self).run();
                let g = old(self).graph();
                let w = next_wave(*old(self), rows);
                &&& w.len() == 0 ==> {
                    &&& step@ == (RunStepV::Finished { run_id: run, task_states: run_states(rows, run) })
                    &&& *final(db) == *old(db)
                    &&& final(self).stage() == Stage::Stopped
                }
                &&& w.len() > 0 ==> {
                    let t = w[0];
                    let i = first_task_index(g.tasks@, t)->0;
                    &&& final(db).runs.task_rows() == with_status(rows, run, t, "ready"@)
                    &&& old(db).journal.last_seq() < i64::MAX ==> {
                        &&& appended(old(db).journal.events(), final(db).journal.events(), JournalKind::TaskReady,
                            Some(run), Some(t), JsonV::Object(Seq::empty()))
                        &&& step@ == (RunStepV::PrepareWorktree { task_id: t, allow_inplace: g.tasks@[i].allow_inplace })
                        &&& final(self).stage() == Stage::AwaitWorktree
                        &&& final(self).task() == i
                        &&& final(self).wave() == w.drop_first()
                    }
                    &&& old(db).journal.last_seq() >= i64::MAX ==> {
                        &&& (step@ matches RunStepV::Failed(e) && e is Sqlite)
                        &&& final(db).journal.events() == old(db).journal.events()
                        &&& final(self).stage() == Stage::Stopped
                    }
                }
            }),
    {
        if self.wave.len() == 0 {
            let ready = sched.ready_tasks(db, self.run_id.as_str(), &self.graph);
            proof {
                assert forall|k: int| 0 <= k < views_of(ready@).len() implies
                    #[trigger] first_task_index(self.graph.tasks@, views_of(ready@)[k]) is Some by {
                    lemma_ready_ids_in_graph(db.runs.task_rows(), self.run_id@, self.graph, self.graph.tasks@, k);
                }
            }
            self.wave = ready;
            if self.wave.len() == 0 {
                return self.finish(sched, db);
            }
        }
        let ghost w = views_of(self.wave@);
        proof { assert(first_task_index(self.graph.tasks@, w[0]) is Some); }
        let t = self.wave.remove(0);
        proof {
            assert(views_of(self.wave@) =~= w.drop_first());
            assert(t@ == w[0]);
            assert forall|k: int| 0 <= k < self.wave().len() implies
                #[trigger] first_task_index(self.graph().tasks@, self.wave()[k]) is Some by {
                assert(self.wave()[k] == w[k + 1]);
            }
        }
        let i = match task_position(&self.graph.tasks, t.as_str()) {
            Some(i) => i,
            None => {
                return self.fail(CoreError::NotFound(t));
            },
        };
        proof { lemma_first_task_index(self.graph.tasks@, t@); }
        sched.set_status(db, self.run_id.as_str(), t.as_str(), TaskStatus::Ready);
        proof { reveal_strlit("ready"); }
        let empty: Vec<(String, Json)> = Vec::new();
        proof {
            crate::json::lemma_members_view(empty@);
            assert(crate::json::members_view(empty@) =~= Seq::<(Seq<char>, JsonV)>::empty());
        }
        match db.journal.record(JournalKind::TaskReady, Some(self.run_id.as_str()), Some(t.as_str()), Json::Object(empty)) {
            Ok(()) => {},
            Err(e) => {
                return self.fail(e);
            },
        }
        self.task = i;
        self.stage = Stage::AwaitWorktree;
        RunStep::PrepareWorktree { task_id: t, allow_inplace: self.graph.tasks[i].allow_inplace }
    }
}

/// The step after a task's declared artifacts: its gate if it has one,
/// else the merge.
pub open spec fn gate_or_merge_step(t: TaskSpec, path: Seq<char>, branch: Seq<char>) -> RunStepV {
    match t.gate_command {
        Some(cmd) => RunStepV::RunGate { task_id: t.id@, worktree_path: path, command: cmd@ },
        None => RunStepV::Merge { task_id: t.id@, worktree_path: path, branch },
    }
}

/// The status a task has while waiting for `gate_or_merge_step`.
pub open spec fn gate_or_merge_status(t: TaskSpec) -> Seq<char> {
    if t.gate_command is Some { "gate"@ } else { "merging"@ }
}

/// The stage that waits for `gate_or_merge_step`.
pub open spec fn gate_or_merge_stage(t: TaskSpec) -> Stage {
    if t.gate_command is Some { Stage::AwaitGate } else { Stage::AwaitMerge }
}

impl RunDriver {
    /// Sets the current task to `running` and asks for the agent.
    fn start_agent(&mut self, sched: &Scheduler, db: &mut Db) -> (step: RunStep)
        requires
            old(self).inv(),
            0 <= old(self).task() < old(self).graph().tasks@.len(),
            old(db).wf(),
        ensures
            final(self).inv(),
            final(db).wf(),
            final(db).same_but_tasks(old(db)),
            final(db).journal == old(db).journal,
            final(db).runs.task_rows() == with_status(old(db).runs.task_rows(), old(self).run(), old(self).current().id@, "running"@),
            step@ == (RunStepV::RunAgent { task_id: old(self).current().id@, worktree_path: old(self).checkout().0,
                prompt: old(self).current().prompt@ }),
            final(self).stage() == Stage::AwaitAgent,
            final(self).run() == old(self).run(),
            final(self).graph() == old(self).graph(),
            final(self).wave() == old(self).wave(),
            final(self).task() == old(self).task(),
            final(self).checkout() == old(self).checkout(),
    {
        let t = &self.graph.tasks[self.task];
        sched.set_status(db, self.run_id.as_str(), t.id.as_str(), TaskStatus::Running);
        proof { reveal_strlit("running"); }
        let step = RunStep::RunAgent { task_id: t.id.clone(), worktree_path: self.path.clone(), prompt: t.prompt.clone() };
        self.stage = Stage::AwaitAgent;
        step
    }

    /// Moves the current task on to its gate, or to the merge when it has none.
    fn gate_or_merge(&mut self, sched: &Scheduler, db: &mut Db) -> (step: RunStep)
        requires
            old(self).inv(),
            0 <= old(self).task() < old(self).graph().tasks@.len(),
            old(db).wf(),
        ensures
            final(self).inv(),
            final(db).wf(),
            final(db).same_but_tasks(old(db)),
            final(db).journal == old(db).journal,
            final(db).runs.task_rows() == with_status(old(db).runs.task_rows(), old(self).run(), old(self).current().id@,
                gate_or_merge_status(old(self).current())),
            step@ == gate_or_merge_step(old(self).current(), old(self).checkout().0, old(self).checkout().1),
            final(self).stage() == gate_or_merge_stage(old(self).current()),
            final(self).run() == old(self).run(),
            final(self).graph() == old(self).graph(),
            final(self).wave() == old(self).wave(),
            final(self).task() == old(self).task(),
            final(self).checkout() == old(self).checkout(),
    {
        let t = &self.graph.tasks[self.task];
        match &t.gate_command {
            Some(cmd) => {
                sched.set_status(db, self.run_id.as_str(), t.id.as_str(), TaskStatus::Gate);
                proof { reveal_strlit("gate"); }
                self.stage = Stage::AwaitGate;
                RunStep::RunGate { task_id: t.id.clone(), worktree_path: self.path.clone(), command: cmd.clone() }
            },
            None => {
                sched.set_status(db, self.run_id.as_str(), t.id.as_str(), TaskStatus::Merging);
                proof { reveal_strlit("merging"); }
                self.stage = Stage::AwaitMerge;
                RunStep::Merge { task_id: t.id.clone(), worktree_path: self.path.clone(), branch: self.branch.clone() }
            },
        }
    }

    /// After the task's checkout was made (or failed): records the checkout
    /// on the task, then asks for the upstream artifacts when the task has
    /// dependency edges, else starts the agent. A failed checkout stops
    /// the run.
    pub fn worktree_ready(&mut self, sched: &Scheduler, db: &mut Db, result: Result<crate::worktree::WorktreeInfo, CoreError>) -> (step: RunStep)
        requires
            old(self).inv(),
            old(self).stage() == Stage::AwaitWorktree,
            old(db).wf(),
        ensures
            final(self).inv(),
            final(db).wf(),
            final(db).same_but_tasks(old(db)),
            final(db).journal == old(db).journal,
            final(self).run() == old(self).run(),
            final(self).graph() == old(self).graph(),
            final(self).wave() == old(self).wave(),
            final(self).task() == old(self).task(),
            result matches Err(e) ==> step@ == RunStepV::Failed(e) && *final(db) == *old(db)
                && final(self).stage() == Stage::Stopped,
            result matches Ok(w) ==> {
                let t = old(self).current();
                let run = old(self).run();
                let rows1 = with_checkout(old(db).runs.task_rows(), run, t.id@, w.path@, w.branch@);
                let deps = deps_into(old(db).runs.dep_rows(), run, t.id@);
                &&& final(self).checkout() == (w.path@, w.branch@)
                &&& deps.len() > 0 ==> {
                    &&& final(db).runs.task_rows() == rows1
                    &&& step@ == (RunStepV::Bootstrap { task_id: t.id@, worktree_path: w.path@, deps })
                    &&& final(self).stage() == Stage::AwaitBootstrap
                }
                &&& deps.len() == 0 ==> {
                    &&& final(db).runs.task_rows() == with_status(rows1, run, t.id@, "running"@)
                    &&& step@ == (RunStepV::RunAgent { task_id: t.id@, worktree_path: w.path@, prompt: t.prompt@ })
                    &&& final(self).stage() == Stage::AwaitAgent
                }
            },
    {
        match result {
            Err(e) => self.fail(e),
            Ok(w) => {
                let tid = self.graph.tasks[self.task].id.clone();
                sched.set_checkout(db, self.run_id.as_str(), tid.as_str(), w.path.as_str(), w.branch.as_str());
                self.path = w.path;
                self.branch = w.branch;
                let deps = sched.deps_for(db, self.run_id.as_str(), tid.as_str());
                if deps.len() > 0 {
                    self.stage = Stage::AwaitBootstrap;
                    RunStep::Bootstrap { task_id: tid, worktree_path: self.path.clone(), deps }
                } else {
                    self.start_agent(sched, db)
                }
            },
        }
    }

    /// After the upstream artifacts were copied (or not): starts the agent,
    /// or marks the task `failed` and stops.
    pub fn bootstrapped(&mut self, sched: &Scheduler, db: &mut Db, result: Result<(), CoreError>) -> (step: RunStep)
        requires
            old(self).inv(),
            old(self).stage() == Stage::AwaitBootstrap,
            old(db).wf(),
        ensures
            final(self).inv(),
            final(db).wf(),
            final(db).same_but_tasks(old(db)),
            final(db).journal == old(db).journal,
            final(self).run() == old(self).run(),
            final(self).graph() == old(self).graph(),
            final(self).wave() == old(self).wave(),
            final(self).task() == old(self).task(),
            result matches Err(e) ==> step@ == RunStepV::Failed(e) && final(self).stage() == Stage::Stopped
                && final(db).runs.task_rows() == with_status(old(db).runs.task_rows(), old(self).run(), old(self).current().id@, "failed"@),
            result is Ok ==> step@ == (RunStepV::RunAgent { task_id: old(self).current().id@,
                worktree_path: old(self).checkout().0, prompt: old(self).current().prompt@ })
                && final(self).stage() == Stage::AwaitAgent
                && final(db).runs.task_rows() == with_status(old(db).runs.task_rows(), old(self).run(), old(self).current().id@, "running"@),
    {
        match result {
            Err(e) => {
                let tid = self.graph.tasks[self.task].id.clone();
                sched.set_status(db, self.run_id.as_str(), tid.as_str(), TaskStatus::Failed);
                proof { reveal_strlit("failed"); }
                self.fail(e)
            },
            Ok(()) => self.start_agent(sched, db),
        }
    }

    /// After the agent ran: on failure marks the task `failed`, journals
    /// `process_crashed` with the error's text, and stops; otherwise asks
    /// for the first declared artifact, or moves on to gate or merge.
    pub fn agent_finished(&mut self, sched: &Scheduler, db: &mut Db, result: Result<(), CoreError>) -> (step: RunStep)
        requires
            old(self).inv(),
            old(self).stage() == Stage::AwaitAgent,
            old(db).wf(),
        ensures
            final(self).inv(),
            final(db).wf(),
            final(db).same_but_tasks(old(db)),
            final(self).run() == old(self).run(),
            final(self).graph() == old(self).graph(),
            final(self).wave() == old(self).wave(),
            final(self).task() == old(self).task(),
            ({
                let t = old(self).current();
                let run = old(self).run();
                let rows = old(db).runs.task_rows();
                &&& result matches Err(e) ==> {
                    &&& final(db).runs.task_rows() == with_status(rows, run, t.id@, "failed"@)
                    &&& final(self).stage() == Stage::Stopped
                    &&& old(db).journal.last_seq() < i64::MAX ==> step@ == RunStepV::Failed(e) && appended(
                        old(db).journal.events(), final(db).journal.events(), JournalKind::ProcessCrashed, Some(run),
                        Some(t.id@), JsonV::Object(seq![("error"@, JsonV::Str(e.spec_message()))]))
                    &&& old(db).journal.last_seq() >= i64::MAX ==> (step@ matches RunStepV::Failed(x) && x is Sqlite)
                }
                &&& result is Ok ==> {
                    &&& final(db).journal == old(db).journal
                    &&& t.produces@.len() > 0 ==> {
                        &&& final(db).runs.task_rows() == rows
                        &&& step@ == (RunStepV::RecordProduce { task_id: t.id@, worktree_path: old(self).checkout().0,
                            artifact: t.produces@[0]@ })
                        &&& final(self).stage() == Stage::AwaitProduce
                        &&& final(self).produced() == 0
                    }
                    &&& t.produces@.len() == 0 ==> {
                        &&& final(db).runs.task_rows() == with_status(rows, run, t.id@, gate_or_merge_status(t))
                        &&& step@ == gate_or_merge_step(t, old(self).checkout().0, old(self).checkout().1)
                        &&& final(self).stage() == gate_or_merge_stage(t)
                    }
                }
            }),
    {
        let tid = self.graph.tasks[self.task].id.clone();
        match result {
            Err(e) => {
                sched.set_status(db, self.run_id.as_str(), tid.as_str(), TaskStatus::Failed);
                proof { reveal_strlit("failed"); }
                let text = e.message();
                match db.journal.record(JournalKind::ProcessCrashed, Some(self.run_id.as_str()), Some(tid.as_str()),
                    object1("error", Json::text(text.as_str()))) {
                    Ok(()) => self.fail(e),
                    Err(je) => self.fail(je),
                }
            },
            Ok(()) => {
                self.produce = 0;
                if self.graph.tasks[self.task].produces.len() > 0 {
                    self.stage = Stage::AwaitProduce;
                    let t = &self.graph.tasks[self.task];
                    RunStep::RecordProduce { task_id: tid, worktree_path: self.path.clone(), artifact: t.produces[0].duplicate() }
                } else {
                    self.gate_or_merge(sched, db)
                }
            },
        }
    }

    /// The declared artifact asked for is not in the worktree: the task
    /// is marked `failed` and the run stops before any gate or merge, so a
    /// producer that did not produce never looks green.
    pub fn produce_missing(&mut self, sched: &Scheduler, db: &mut Db) -> (step: RunStep)
        requires
            old(self).inv(),
            old(self).stage() == Stage::AwaitProduce,
            old(db).wf(),
        ensures
            final(self).inv(),
            final(db).wf(),
            final(db).same_but_tasks(old(db)),
            final(db).journal == old(db).journal,
            final(self).stage() == Stage::Stopped,
            final(db).runs.task_rows() == with_status(old(db).runs.task_rows(), old(self).run(), old(self).current().id@, "failed"@),
            ({
                let t = old(self).current();
                let a = t.produces@[old(self).produced()];
                step@ matches RunStepV::Failed(e) && crate::worktree::is_missing_artifact(e, t.id@, a.id@, t.id@, a.path@)
            }),
    {
        let t = &self.graph.tasks[self.task];
        let tid = t.id.clone();
        let err = crate::worktree::missing_artifact(tid.as_str(), t.produces[self.produce].id.as_str(), tid.as_str(),
            t.produces[self.produce].path.as_str());
        sched.set_status(db, self.run_id.as_str(), tid.as_str(), TaskStatus::Failed);
        proof { reveal_strlit("failed"); }
        self.fail(err)
    }

    /// After the declared artifact asked for was recorded (or recording
    /// failed, which stops the run): asks for the next one, or moves on to
    /// gate or merge.
    pub fn produce_recorded(&mut self, sched: &Scheduler, db: &mut Db, result: Result<(), CoreError>) -> (step: RunStep)
        requires
            old(self).inv(),
            old(self).stage() == Stage::AwaitProduce,
            old(db).wf(),
        ensures
            final(self).inv(),
            final(db).wf(),
            final(db).same_but_tasks(old(db)),
            final(db).journal == old(db).journal,
            final(self).run() == old(self).run(),
            final(self).graph() == old(self).graph(),
            final(self).wave() == old(self).wave(),
            final(self).task() == old(self).task(),
            result matches Err(e) ==> step@ == RunStepV::Failed(e) && *final(db) == *old(db)
                && final(self).stage() == Stage::Stopped,
            result is Ok ==> {
                let t = old(self).current();
                let n = old(self).produced() + 1;
                &&& n < t.produces@.len() ==> {
                    &&& *final(db) == *old(db)
                    &&& step@ == (RunStepV::RecordProduce { task_id: t.id@, worktree_path: old(self).checkout().0,
                        artifact: t.produces@[n]@ })
                    &&& final(self).stage() == Stage::AwaitProduce
                    &&& final(self).produced() == n
                }
                &&& n >= t.produces@.len() ==> {
                    &&& final(db).runs.task_rows() == with_status(old(db).runs.task_rows(), old(self).run(), t.id@,
                        gate_or_merge_status(t))
                    &&& step@ == gate_or_merge_step(t, old(self).checkout().0, old(self).checkout().1)
                    &&& final(self).stage() == gate_or_merge_stage(t)
                }
            },
    {
        match result {
            Err(e) => self.fail(e),
            Ok(()) => {
                let n = self.graph.tasks[self.task].produces.len();
                let next = self.produce + 1;
                if next < n {
                    self.produce = next;
                    let t = &self.graph.tasks[self.task];
                    RunStep::RecordProduce { task_id: t.id.clone(), worktree_path: self.path.clone(),
                        artifact: t.produces[self.produce].duplicate() }
                } else {
                    self.gate_or_merge(sched, db)
                }
            },
        }
    }

    /// After its gate ran: a passed gate moves the task to `merging`; a red
    /// gate marks it `failed` and stops the run, so nothing downstream
    /// starts and nothing is merged.
    pub fn gate_finished(&mut self, sched: &Scheduler, db: &mut Db, result: Result<(), CoreError>) -> (step: RunStep)
        requires
            old(self).inv(),
            old(self).stage() == Stage::AwaitGate,
            old(db).wf(),
        ensures
            final(self).inv(),
            final(db).wf(),
            final(db).same_but_tasks(old(db)),
            final(db).journal == old(db).journal,
            final(self).run() == old(self).run(),
            final(self).graph() == old(self).graph(),
            final(self).wave() == old(self).wave(),
            final(self).task() == old(self).task(),
            result matches Err(e) ==> step@ == RunStepV::Failed(e) && final(self).stage() == Stage::Stopped
                && final(db).runs.task_rows() == with_status(old(db).runs.task_rows(), old(self).run(), old(self).current().id@, "failed"@),
            result is Ok ==> step@ == (RunStepV::Merge { task_id: old(self).current().id@,
                worktree_path: old(self).checkout().0, branch: old(self).checkout().1 })
                && final(self).stage() == Stage::AwaitMerge
                && final(db).runs.task_rows() == with_status(old(db).runs.task_rows(), old(self).run(), old(self).current().id@, "merging"@),
    {
        let tid = self.graph.tasks[self.task].id.clone();
        match result {
            Err(e) => {
                sched.set_status(db, self.run_id.as_str(), tid.as_str(), TaskStatus::Failed);
                proof { reveal_strlit("failed"); }
                self.fail(e)
            },
            Ok(()) => {
                sched.set_status(db, self.run_id.as_str(), tid.as_str(), TaskStatus::Merging);
                proof { reveal_strlit("merging"); }
                self.stage = Stage::AwaitMerge;
                RunStep::Merge { task_id: tid, worktree_path: self.path.clone(), branch: self.branch.clone() }
            },
        }
    }

    /// After the merge: a merged task is `done` and the driver is ready for
    /// the next task (`None`); a failed merge stops the run.
    pub fn merged(&mut self, sched: &Scheduler, db: &mut Db, result: Result<(), CoreError>) -> (step: Option<RunStep>)
        requires
            old(self).inv(),
            old(self).stage() == Stage::AwaitMerge,
            old(db).wf(),
        ensures
            final(self).inv(),
            final(db).wf(),
            final(db).same_but_tasks(old(db)),
            final(db).journal == old(db).journal,
            final(self).run() == old(self).run(),
            final(self).graph() == old(self).graph(),
            final(self).wave() == old(self).wave(),
            result matches Err(e) ==> (step matches Some(s) && s@ == RunStepV::Failed(e)) && *final(db) == *old(db)
                && final(self).stage() == Stage::Stopped,
            result is Ok ==> step is None && final(self).stage() == Stage::Idle
                && final(db).runs.task_rows() == with_status(old(db).runs.task_rows(), old(self).run(), old(self).current().id@, "done"@),
    {
        match result {
            Err(e) => Some(self.fail(e)),
            Ok(()) => {
                let tid = self.graph.tasks[self.task].id.clone();
                sched.set_status(db, self.run_id.as_str(), tid.as_str(), TaskStatus::Done);
                proof { reveal_strlit("done"); }
                self.stage = Stage::Idle;
                None
            },
        }
    }
}

} // verus!
