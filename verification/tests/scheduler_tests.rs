use std::collections::HashMap;

use agent_workbench::error::CoreError;
use agent_workbench::gate::GateRunner;
use agent_workbench::merge::{MergeOutcome, MergeQueue};
use agent_workbench::pathutil::join_path;
use agent_workbench::scheduler::{RunDriver, RunStep, RunSummary, Scheduler};
use agent_workbench::store::Db;
use agent_workbench::types::{ArtifactRef, JournalKind, TaskDepEdge, TaskGraph, TaskSpec};
use agent_workbench::worktree::WorktreeManager;

fn art(id: &str, path: &str) -> ArtifactRef {
    ArtifactRef { id: id.to_string(), path: path.to_string(), description: None }
}

fn task(id: &str, gate: Option<&str>, produces: Vec<ArtifactRef>) -> TaskSpec {
    TaskSpec {
        id: id.to_string(),
        title: id.to_string(),
        prompt: id.to_string(),
        gate_command: gate.map(|g| g.to_string()),
        produces,
        allow_inplace: false,
    }
}

fn two_tasks(gate_a: &str, gate_b: Option<&str>, a_produces: &str, b_produces: Vec<ArtifactRef>) -> TaskGraph {
    TaskGraph {
        name: "t".to_string(),
        tasks: vec![task("A", Some(gate_a), vec![art("fixed_lib", a_produces)]), task("B", gate_b, b_produces)],
        deps: vec![TaskDepEdge { from: "A".to_string(), to: "B".to_string(), artifacts: vec![art("fixed_lib", a_produces)] }],
    }
}

/// Files of the simulated worktrees, by full path.
type Files = HashMap<String, String>;

/// Drives a run to its end the way the application does, with the agent,
/// gate commands and the file system simulated.
fn drive(
    db: &mut Db,
    sched: &Scheduler,
    run_id: &str,
    graph: TaskGraph,
    files: &mut Files,
    agent: &mut dyn FnMut(&str, &str, &mut Files),
    gate_exit: &dyn Fn(&str, &str, &Files) -> i32,
) -> Result<RunSummary, CoreError> {
    let mgr = WorktreeManager::new(sched.repo_root().to_string(), sched.worktree_root().to_string());
    let gate = GateRunner::new();
    let merge = MergeQueue::new();
    let mut driver = RunDriver::new(run_id, graph);
    let mut step = driver.next_task(sched, db);
    loop {
        step = match step {
            RunStep::PrepareWorktree { task_id, .. } => {
                let info = mgr.plan_isolated(db, run_id, &task_id).and_then(|plan| {
                    mgr.register_isolated(db, run_id, &task_id, &plan.path, &plan.branch, "base")
                });
                driver.worktree_ready(sched, db, info)
            }
            RunStep::Bootstrap { task_id, worktree_path, deps } => {
                let mut outcomes = Vec::new();
                'outer: for (from, arts) in &deps {
                    for a in arts {
                        let outcome = mgr.artifact_source(db, run_id, &task_id, from, a).and_then(|src| {
                            let p = files.contains_key(&src.preferred);
                            mgr.choose_source(&src, &task_id, from, p)
                        });
                        match outcome {
                            Ok(path) => {
                                let content = files[&path].clone();
                                files.insert(join_path(&worktree_path, &a.path), content);
                                outcomes.push(Ok(()));
                            }
                            Err(e) => {
                                outcomes.push(Err(e));
                                break 'outer;
                            }
                        }
                    }
                }
                let result = mgr.bootstrap_result(db, run_id, &task_id, &deps, outcomes).map(|_| ());
                driver.bootstrapped(sched, db, result)
            }
            RunStep::RunAgent { task_id, worktree_path, .. } => {
                agent(&task_id, &worktree_path, files);
                driver.agent_finished(sched, db, Ok(()))
            }
            RunStep::RecordProduce { task_id, worktree_path, artifact } => {
                let full = join_path(&worktree_path, &artifact.path);
                match files.get(&full) {
                    None => driver.produce_missing(sched, db),
                    Some(content) => {
                        let bytes = content.clone().into_bytes();
                        let r = mgr.record_artifact(db, run_id, &task_id, &artifact, &bytes);
                        driver.produce_recorded(sched, db, r)
                    }
                }
            }
            RunStep::RunGate { task_id, worktree_path, command } => {
                let r = gate.start(db, run_id, &task_id, &command).and_then(|id| {
                    let code = gate_exit(&command, &worktree_path, files);
                    gate.finish(db, &id, run_id, &task_id, &command, code, String::new(), String::new()).map(|_| ())
                });
                driver.gate_finished(sched, db, r)
            }
            RunStep::Merge { task_id, branch, .. } => {
                let r = merge
                    .enqueue(db, run_id, &task_id, &branch)
                    .and_then(|_| merge.complete(db, run_id, &task_id, &branch, "main", MergeOutcome::Merged));
                match driver.merged(sched, db, r) {
                    Some(s) => s,
                    None => driver.next_task(sched, db),
                }
            }
            RunStep::Finished(summary) => return Ok(summary),
            RunStep::Failed(e) => return Err(e),
        }
    }
}

fn status_of(sched: &Scheduler, db: &Db, run_id: &str, task: &str) -> Option<String> {
    sched.status_of(db, run_id, task)
}

fn accept(db: &mut Db, sched: &Scheduler, graph: TaskGraph) -> (String, TaskGraph) {
    sched.accept_graph_as(db, "run1", "t", "name: t", graph).unwrap()
}

#[test]
fn gate_red_blocks_downstream() {
    let mut db = Db::open_in_memory();
    let sched = Scheduler::new("/repo".to_string(), "/wts".to_string());
    let (run_id, graph) = accept(&mut db, &sched, two_tasks("exit 1", None, "src/lib.rs", vec![]));
    let mut files = Files::new();
    let err = drive(
        &mut db,
        &sched,
        &run_id,
        graph,
        &mut files,
        &mut |_t, path, files| {
            // Agent "works" but gate will fail
            files.insert(join_path(path, "src/lib.rs"), "pub fn add(a:i32,b:i32)->i32{a+b}\n".to_string());
        },
        &|cmd, _, _| if cmd == "exit 1" { 1 } else { 0 },
    )
    .unwrap_err();
    assert!(matches!(err, CoreError::GateFailed { .. }));
    assert_eq!(status_of(&sched, &db, &run_id, "A").as_deref(), Some("failed"));
    assert_eq!(status_of(&sched, &db, &run_id, "B").as_deref(), Some("pending"));
}

#[test]
fn two_node_green_path_bootstraps_artifact() {
    let mut db = Db::open_in_memory();
    let sched = Scheduler::new("/repo".to_string(), "/wts".to_string());
    let graph = two_tasks(
        "test -f src/lib.rs",
        Some("grep -q fixed src/lib.rs"),
        "src/lib.rs",
        vec![art("extra_tests", "tests/extra.rs")],
    );
    let (run_id, graph) = accept(&mut db, &sched, graph);
    let mut files = Files::new();
    let summary = drive(
        &mut db,
        &sched,
        &run_id,
        graph,
        &mut files,
        &mut |task, path, files| {
            if task == "A" {
                files.insert(join_path(path, "src/lib.rs"), "pub fn add(a:i32,b:i32)->i32{a+b} // fixed\n".to_string());
            } else if task == "B" {
                // Must see upstream fixed content already bootstrapped
                let c = files.get(&join_path(path, "src/lib.rs")).cloned().unwrap_or_default();
                assert!(c.contains("fixed"), "B must see upstream artifact");
                files.insert(join_path(path, "tests/extra.rs"), "// extra\n".to_string());
            }
        },
        &|cmd, path, files| {
            if cmd.starts_with("grep") {
                if files.get(&join_path(path, "src/lib.rs")).map(|c| c.contains("fixed")).unwrap_or(false) { 0 } else { 1 }
            } else {
                0
            }
        },
    )
    .unwrap();
    let states: HashMap<String, String> = summary.task_states.into_iter().collect();
    assert_eq!(states.get("A").map(|s| s.as_str()), Some("done"));
    assert_eq!(states.get("B").map(|s| s.as_str()), Some("done"));
    assert_eq!(db.journal.find_by_kind(JournalKind::MergeCompleted).unwrap().len(), 2);
}

#[test]
fn producer_missing_declared_produce_fails_before_merge() {
    let mut db = Db::open_in_memory();
    let sched = Scheduler::new("/repo".to_string(), "/wts".to_string());
    let (run_id, graph) = accept(&mut db, &sched, two_tasks("true", None, "src/missing_produce.rs", vec![]));
    let mut files = Files::new();
    let err = drive(&mut db, &sched, &run_id, graph, &mut files, &mut |_t, _p, _f| {}, &|_, _, _| 0).unwrap_err();
    match &err {
        CoreError::MissingArtifact { task_id, artifact_id, path, .. } => {
            assert_eq!(task_id, "A");
            assert_eq!(artifact_id, "fixed_lib");
            assert_eq!(path, "src/missing_produce.rs");
            let msg = err.message();
            assert!(msg.contains("src/missing_produce.rs"), "{msg}");
            assert!(msg.contains("fixed_lib"), "{msg}");
            assert!(msg.contains('A'), "{msg}");
        }
        other => panic!("expected MissingArtifact, got {other:?}"),
    }
    assert_eq!(status_of(&sched, &db, &run_id, "A").as_deref(), Some("failed"));
    assert_eq!(status_of(&sched, &db, &run_id, "B").as_deref(), Some("pending"));
    // Must not have merged — that would be a fake-green producer.
    assert!(db.journal.find_by_kind(JournalKind::MergeCompleted).unwrap().is_empty());
    assert!(db.journal.find_by_kind(JournalKind::MergeQueued).unwrap().is_empty());
}

#[test]
fn ready_tasks_wait_for_upstream_done() {
    let mut db = Db::open_in_memory();
    let sched = Scheduler::new("/repo".to_string(), "/wts".to_string());
    let (run_id, graph) = accept(&mut db, &sched, two_tasks("true", None, "src/lib.rs", vec![]));
    assert_eq!(sched.ready_tasks(&db, &run_id, &graph), vec!["A".to_string()]);
    sched.set_status(&mut db, &run_id, "A", agent_workbench::types::TaskStatus::Failed);
    assert!(sched.ready_tasks(&db, &run_id, &graph).is_empty());
    sched.set_status(&mut db, &run_id, "A", agent_workbench::types::TaskStatus::Done);
    assert_eq!(sched.ready_tasks(&db, &run_id, &graph), vec!["B".to_string()]);
}

#[test]
fn accepted_graph_is_recorded_and_journaled() {
    let mut db = Db::open_in_memory();
    let sched = Scheduler::new("/repo".to_string(), "/wts".to_string());
    let (run_id, _) = accept(&mut db, &sched, two_tasks("true", None, "src/lib.rs", vec![]));
    assert_eq!(run_id, "run1");
    assert_eq!(db.runs.runs[0].status, "accepted");
    assert_eq!(db.runs.runs[0].repo_root, "/repo");
    let states = sched.all_statuses(&db, &run_id);
    assert_eq!(states, vec![("A".to_string(), "pending".to_string()), ("B".to_string(), "pending".to_string())]);
    let kinds: Vec<String> = db.journal.list_since(0, 10).unwrap().into_iter().map(|e| e.kind).collect();
    assert_eq!(kinds, vec!["run_created", "graph_accepted"]);
    let deps = sched.deps_for(&db, &run_id, "B");
    assert_eq!(deps.len(), 1);
    assert_eq!(deps[0].0, "A");
    assert_eq!(sched.graph_yaml(&db, &run_id).unwrap(), "name: t");
    assert!(matches!(sched.graph_yaml(&db, "other"), Err(CoreError::Sqlite(_))));
}

#[test]
fn invalid_graph_changes_nothing() {
    let mut db = Db::open_in_memory();
    let sched = Scheduler::new("/repo".to_string(), "/wts".to_string());
    let g = TaskGraph { name: "t".to_string(), tasks: vec![], deps: vec![] };
    assert!(matches!(sched.accept_graph(&mut db, "t", "", g), Err(CoreError::InvalidGraph(_))));
    assert!(db.runs.runs.is_empty());
    assert_eq!(db.journal.latest_seq().unwrap(), 0);
}

#[test]
fn repeated_edge_stops_acceptance() {
    let mut db = Db::open_in_memory();
    let sched = Scheduler::new("/repo".to_string(), "/wts".to_string());
    let mut g = two_tasks("true", None, "src/lib.rs", vec![]);
    g.deps.push(TaskDepEdge { from: "A".to_string(), to: "B".to_string(), artifacts: vec![] });
    let err = sched.accept_graph_as(&mut db, "r", "t", "", g).unwrap_err();
    assert!(matches!(err, CoreError::Sqlite(_)));
    assert_eq!(db.runs.deps.len(), 1);
    let dup = sched.accept_graph_as(&mut db, "r", "t", "", two_tasks("true", None, "x", vec![]));
    assert!(matches!(dup, Err(CoreError::Sqlite(_))));
}

#[test]
fn finished_run_with_nothing_ready() {
    let mut db = Db::open_in_memory();
    let sched = Scheduler::new("/repo".to_string(), "/wts".to_string());
    let (run_id, graph) = accept(&mut db, &sched, two_tasks("true", None, "src/lib.rs", vec![]));
    sched.set_status(&mut db, &run_id, "A", agent_workbench::types::TaskStatus::Failed);
    let mut d = RunDriver::new(&run_id, graph);
    match d.next_task(&sched, &mut db) {
        RunStep::Finished(s) => assert_eq!(s.task_states.len(), 2),
        other => panic!("{other:?}"),
    }
}

#[test]
fn valid_graph_is_accepted_on_a_fresh_database() {
    let mut db = Db::open_in_memory();
    let sched = Scheduler::new("/repo".to_string(), "/wts".to_string());
    let (run_id, g) = sched.accept_graph(&mut db, "t", "name: t", two_tasks("true", None, "src/lib.rs", vec![])).unwrap();
    assert_eq!(g.tasks.len(), 2);
    assert_eq!(db.runs.runs.len(), 1);
    assert_eq!(db.runs.runs[0].id, run_id);
    assert_eq!(db.journal.latest_seq().unwrap(), 2);
}
