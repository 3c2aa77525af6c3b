use agent_workbench::error::CoreError;
use agent_workbench::gate::GateRunner;
use agent_workbench::merge::{detect_base_branch, MergeOutcome, MergeQueue};
use agent_workbench::scheduler::Scheduler;
use agent_workbench::store::Db;
use agent_workbench::types::{JournalKind, TaskGraph, TaskSpec};

fn db_with_run(run_id: &str) -> Db {
    let mut db = Db::open_in_memory();
    let sched = Scheduler::new("/tmp".to_string(), "/tmp/wts".to_string());
    let graph = TaskGraph {
        name: "n".to_string(),
        tasks: vec![TaskSpec {
            id: "A".to_string(),
            title: "a".to_string(),
            prompt: "p".to_string(),
            gate_command: None,
            produces: vec![],
            allow_inplace: false,
        }],
        deps: vec![],
    };
    sched.accept_graph_as(&mut db, run_id, "n", "name: n", graph).unwrap();
    db
}

#[test]
fn gate_failure_does_not_pass() {
    let mut db = db_with_run("r");
    let runner = GateRunner::new();
    let gate_id = runner.start(&mut db, "r", "A", "exit 7").unwrap();
    // The command `exit 7` exits with status 7.
    let err = runner
        .finish(&mut db, &gate_id, "r", "A", "exit 7", 7, String::new(), String::new())
        .unwrap_err();
    match err {
        CoreError::GateFailed { exit_code, .. } => assert_eq!(exit_code, 7),
        e => panic!("{}", e.message()),
    }
    let kinds: Vec<String> =
        db.journal.find_by_kind(JournalKind::GateFailed).unwrap().into_iter().map(|e| e.kind).collect();
    assert_eq!(kinds, vec!["gate_failed"]);
}

#[test]
fn gate_passes_only_on_exit_zero() {
    let mut db = db_with_run("r");
    let runner = GateRunner::new();
    let gate_id = runner.start(&mut db, "r", "A", "true").unwrap();
    let res = runner.finish(&mut db, &gate_id, "r", "A", "true", 0, "ok".to_string(), String::new()).unwrap();
    assert!(res.passed);
    assert_eq!(res.id, gate_id);
    assert_eq!(res.stdout, "ok");
    assert_eq!(db.runs.gates[0].status, "passed");
    assert_eq!(db.runs.gates[0].exit_code, Some(0));
    assert_eq!(db.journal.find_by_kind(JournalKind::GatePassed).unwrap().len(), 1);
}

#[test]
fn gate_for_unknown_run_is_refused() {
    let mut db = Db::open_in_memory();
    let err = GateRunner::new().start(&mut db, "nope", "A", "true").unwrap_err();
    assert!(matches!(err, CoreError::Sqlite(_)));
    assert!(db.runs.gates.is_empty());
    assert_eq!(db.journal.latest_seq().unwrap(), 0);
}

#[test]
fn gate_failure_payload_keeps_stderr_excerpt() {
    let mut db = db_with_run("r");
    let runner = GateRunner::new();
    let gate_id = runner.start(&mut db, "r", "A", "false").unwrap();
    let long: String = "x".repeat(2500);
    let err = runner.finish(&mut db, &gate_id, "r", "A", "false", -1, String::new(), long).unwrap_err();
    assert_eq!(
        err.message(),
        "gate failed: task `A` command `false` exited -1"
    );
    let ev = db.journal.find_by_kind(JournalKind::GateFailed).unwrap();
    let stderr = ev[0].payload.get("stderr").and_then(|v| v.as_str()).unwrap();
    assert_eq!(stderr.chars().count(), 2000);
}

#[test]
fn merge_rejected_when_gate_failed() {
    let mut db = db_with_run("r");
    let runner = GateRunner::new();
    // A failed gate row for task A.
    let g = runner.start(&mut db, "r", "A", "false").unwrap();
    let _ = runner.finish(&mut db, &g, "r", "A", "false", 1, String::new(), String::new());
    let q = MergeQueue::new();
    let err = q.enqueue(&mut db, "r", "A", "agent/x").unwrap_err();
    assert!(err.message().contains("merge rejected"));
}

#[test]
fn merge_without_any_gate_is_rejected() {
    let mut db = db_with_run("r");
    let err = MergeQueue::new().enqueue(&mut db, "r", "A", "agent/x").unwrap_err();
    assert_eq!(err.message(), "merge rejected for task A: gate not passed");
    let ev = db.journal.find_by_kind(JournalKind::MergeRejected).unwrap();
    assert!(matches!(ev[0].payload.get("gate_status"), Some(agent_workbench::json::Json::Null)));
}

#[test]
fn latest_gate_decides_the_merge() {
    let mut db = db_with_run("r");
    let runner = GateRunner::new();
    let g1 = runner.start(&mut db, "r", "A", "t").unwrap();
    let _ = runner.finish(&mut db, &g1, "r", "A", "t", 1, String::new(), String::new());
    let g2 = runner.start(&mut db, "r", "A", "t").unwrap();
    runner.finish(&mut db, &g2, "r", "A", "t", 0, String::new(), String::new()).unwrap();
    let q = MergeQueue::new();
    q.enqueue(&mut db, "r", "A", "agent/r/A").unwrap();
    assert_eq!(db.journal.find_by_kind(JournalKind::MergeQueued).unwrap().len(), 1);
    q.complete(&mut db, "r", "A", "agent/r/A", "main", MergeOutcome::FallbackCopy("conflict".to_string())).unwrap();
    let done = db.journal.find_by_kind(JournalKind::MergeCompleted).unwrap();
    assert_eq!(done[0].payload.get("mode").and_then(|v| v.as_str()), Some("fallback_copy"));
    assert_eq!(done[0].payload.get("git_stderr").and_then(|v| v.as_str()), Some("conflict"));
}

#[test]
fn base_branch_prefers_main_then_master() {
    assert_eq!(detect_base_branch(true, true), "main");
    assert_eq!(detect_base_branch(false, true), "master");
    assert_eq!(detect_base_branch(false, false), "HEAD");
}
