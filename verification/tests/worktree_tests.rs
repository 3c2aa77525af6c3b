use agent_workbench::error::CoreError;
use agent_workbench::orphans::double_checkouts;
use agent_workbench::scheduler::Scheduler;
use agent_workbench::store::Db;
use agent_workbench::types::{ArtifactRef, JournalKind, TaskGraph, TaskSpec};
use agent_workbench::worktree::WorktreeManager;

fn task(id: &str) -> TaskSpec {
    TaskSpec {
        id: id.to_string(),
        title: id.to_string(),
        prompt: "p".to_string(),
        gate_command: None,
        produces: vec![],
        allow_inplace: false,
    }
}

fn setup() -> (Db, WorktreeManager) {
    let mut db = Db::open_in_memory();
    let sched = Scheduler::new("/repo".to_string(), "/wts".to_string());
    let g = TaskGraph { name: "n".to_string(), tasks: vec![task("A"), task("B")], deps: vec![] };
    sched.accept_graph_as(&mut db, "r1", "n", "", g).unwrap();
    (db, WorktreeManager::new("/repo".to_string(), "/wts".to_string()))
}

fn fixed_lib() -> ArtifactRef {
    ArtifactRef { id: "fixed_lib".to_string(), path: "src/lib.rs".to_string(), description: None }
}

#[test]
fn dependency_edge_hard_fails_without_artifact() {
    let (mut db, mgr) = setup();
    let pa = mgr.plan_isolated(&db, "r1", "A").unwrap();
    let a = mgr.register_isolated(&mut db, "r1", "A", &pa.path, &pa.branch, "base").unwrap();
    let pb = mgr.plan_isolated(&db, "r1", "B").unwrap();
    let _b = mgr.register_isolated(&mut db, "r1", "B", &pb.path, &pb.branch, "base").unwrap();
    // Do NOT record artifact from A
    let err = mgr.artifact_source(&db, "r1", "B", "A", &fixed_lib()).unwrap_err();
    match &err {
        CoreError::MissingArtifact { artifact_id, path, .. } => {
            assert_eq!(artifact_id, "fixed_lib");
            assert_eq!(path, "src/lib.rs");
            assert!(err.message().contains("src/lib.rs"), "Display must name path: {}", err.message());
        }
        other => panic!("expected MissingArtifact, got {other:?}"),
    }
    // Now record and the source is found in A's worktree.
    mgr.record_artifact(&mut db, "r1", "A", &fixed_lib(), b"pub fn add(a:i32,b:i32)->i32{a+b}\n").unwrap();
    mgr.record_artifact(&mut db, "r1", "A", &fixed_lib(), b"pub fn add(a:i32,b:i32)->i32{a+b} // fixed\n").unwrap();
    assert_eq!(db.runs.artifacts.len(), 1);
    let src = mgr.artifact_source(&db, "r1", "B", "A", &fixed_lib()).unwrap();
    assert_eq!(src.preferred, format!("{}/src/lib.rs", a.path));
    assert_eq!(mgr.choose_source(&src, "B", "A", true).unwrap(), src.preferred);
    // The file is gone from A's worktree: a hard failure, whatever the recorded path names.
    assert!(matches!(mgr.choose_source(&src, "B", "A", false), Err(CoreError::MissingArtifact { .. })));
    let copied = mgr.finish_bootstrap(&mut db, "r1", "B", vec!["fixed_lib".to_string()]).unwrap();
    assert_eq!(copied, vec!["fixed_lib".to_string()]);
}

#[test]
fn recorded_artifact_has_sha256_of_content() {
    let (mut db, mgr) = setup();
    mgr.record_artifact(&mut db, "r1", "A", &fixed_lib(), b"abc").unwrap();
    assert_eq!(
        db.runs.artifacts[0].content_sha256.as_deref(),
        Some("ba7816bf8f01cfea414140de5dae2223b00361a396177a9cb410ff61f20015ad")
    );
    let ev = db.journal.find_by_kind(JournalKind::ArtifactRecorded).unwrap();
    assert_eq!(
        ev[0].payload.get("sha256").and_then(|v| v.as_str()),
        Some("ba7816bf8f01cfea414140de5dae2223b00361a396177a9cb410ff61f20015ad")
    );
}

#[test]
fn isolated_worktree_path_and_branch() {
    let (db, mgr) = setup();
    let p = mgr.plan_isolated(&db, "r1", "A").unwrap();
    assert_eq!(p.branch, "agent/r1/A");
    assert_eq!(p.path, "/wts/r1_A");
}

#[test]
fn branch_checked_out_twice_is_refused() {
    let (mut db, mgr) = setup();
    let p = mgr.plan_isolated(&db, "r1", "A").unwrap();
    mgr.register_isolated(&mut db, "r1", "A", &p.path, &p.branch, "base").unwrap();
    match mgr.plan_isolated(&db, "r1", "A") {
        Err(CoreError::WorktreeConflict { branch, existing }) => {
            assert_eq!(branch, "agent/r1/A");
            assert_eq!(existing, "/wts/r1_A");
        }
        other => panic!("{other:?}"),
    }
}

#[test]
fn inplace_checkout_warns_and_is_unique() {
    let (mut db, mgr) = setup();
    let w = mgr.create_inplace(&mut db, "r1", "A").unwrap();
    assert!(w.inplace);
    assert_eq!(w.path, "/repo");
    assert_eq!(w.branch, "inplace/A");
    let ev = db.journal.find_by_kind(JournalKind::WorktreeCreated).unwrap();
    assert_eq!(ev[0].payload.get("warning").and_then(|v| v.as_str()), Some("⚠ 原地·非隔离"));
    // The path column is unique: a second in-place task on the repository is refused.
    assert!(matches!(mgr.create_inplace(&mut db, "r1", "B"), Err(CoreError::Sqlite(_))));
}

#[test]
fn orphan_scan_finds_untracked_dir() {
    let (mut db, mgr) = setup();
    let found = mgr.scan_orphans(&mut db, &vec![], None, &vec!["/wts/ghost".to_string()]).unwrap();
    assert!(found.iter().any(|p| p.contains("ghost")));
}

#[test]
fn orphan_scan_reports_vanished_and_double_checkouts() {
    let (mut db, mgr) = setup();
    let p = mgr.plan_isolated(&db, "r1", "A").unwrap();
    mgr.register_isolated(&mut db, "r1", "A", &p.path, &p.branch, "base").unwrap();
    let porcelain = "worktree /repo\nbranch refs/heads/main\n\nworktree /wts/x\nbranch refs/heads/agent/x\n\nworktree /wts/y\nbranch refs/heads/agent/x\n";
    let dirs = vec!["/wts/r1_A".to_string()];
    let found = mgr.scan_orphans(&mut db, &vec![false], Some(porcelain), &dirs).unwrap();
    assert_eq!(found, vec![
        "/wts/r1_A".to_string(),
        "branch agent/x checked out at [\"/wts/x\", \"/wts/y\"]".to_string(),
    ]);
    let ev = db.journal.find_by_kind(JournalKind::OrphanDetected).unwrap();
    assert_eq!(ev.len(), 2);
    assert_eq!(ev[0].payload.get("reason").and_then(|v| v.as_str()), Some("missing_dir"));
    assert_eq!(ev[0].run_id.as_deref(), Some("r1"));
    assert_eq!(ev[1].payload.get("reason").and_then(|v| v.as_str()), Some("double_checkout"));
}

#[test]
fn porcelain_groups_only_repeated_branches() {
    let text = "worktree /a\r\nbranch refs/heads/x\r\nworktree /b\nbranch refs/heads/y\nworktree /c\nbranch refs/heads/x";
    let groups = double_checkouts(text);
    assert_eq!(groups.len(), 1);
    assert_eq!(groups[0].0, "x");
    assert_eq!(groups[0].1, vec!["/a".to_string(), "/c".to_string()]);
    assert!(double_checkouts("branch refs/heads/x\n").is_empty());
}

#[test]
fn bootstrap_result_lists_every_artifact_in_order() {
    let (mut db, mgr) = setup();
    let other = ArtifactRef { id: "extra".to_string(), path: "tests/x.rs".to_string(), description: None };
    let required = vec![("A".to_string(), vec![fixed_lib(), other])];
    let copied = mgr.bootstrap_result(&mut db, "r1", "B", &required, vec![Ok(()), Ok(())]).unwrap();
    assert_eq!(copied, vec!["fixed_lib".to_string(), "extra".to_string()]);
    let evs = db.journal.find_by_kind(JournalKind::WorktreeBootstrapped).unwrap();
    assert_eq!(evs.len(), 1);
    assert_eq!(evs[0].task_id.as_deref(), Some("B"));
}

#[test]
fn bootstrap_result_stops_at_the_first_failure_without_journaling() {
    let (mut db, mgr) = setup();
    let required = vec![("A".to_string(), vec![fixed_lib()])];
    let seq = db.journal.latest_seq().unwrap();
    let missing = CoreError::MissingArtifact {
        task_id: "B".to_string(),
        artifact_id: "fixed_lib".to_string(),
        from_task: "A".to_string(),
        path: "src/lib.rs".to_string(),
    };
    let err = mgr.bootstrap_result(&mut db, "r1", "B", &required, vec![Err(missing)]).unwrap_err();
    assert!(matches!(err, CoreError::MissingArtifact { ref artifact_id, .. } if artifact_id == "fixed_lib"));
    assert_eq!(db.journal.latest_seq().unwrap(), seq);
}
