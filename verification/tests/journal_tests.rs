use agent_workbench::journal::Journal;
use agent_workbench::json::{Json, JsonNumber};
use agent_workbench::memory::object1;
use agent_workbench::types::{JournalKind, TaskStatus};

fn n(v: u64) -> Json {
    object1("n", Json::Number(JsonNumber::PosInt(v)))
}

#[test]
fn journal_writes_monotonic_seq() {
    let mut j = Journal::new();
    let e1 = j.append(JournalKind::RunCreated, Some("r1"), None, n(1)).unwrap();
    let e2 = j.append(JournalKind::GraphAccepted, Some("r1"), None, n(2)).unwrap();
    assert_eq!(e1.seq, 1);
    assert_eq!(e2.seq, 2);
    assert_eq!(j.latest_seq().unwrap(), 2);
    let all = j.list_since(0, 10).unwrap();
    assert_eq!(all.len(), 2);
    assert_eq!(all[0].kind, "run_created");
}

#[test]
fn list_since_reads_a_window_in_order() {
    let mut j = Journal::new();
    for i in 0..5 {
        j.append(JournalKind::TaskReady, Some("r"), Some("t"), n(i)).unwrap();
    }
    let evs = j.list_since(2, 2).unwrap();
    let seqs: Vec<i64> = evs.iter().map(|e| e.seq).collect();
    assert_eq!(seqs, vec![3, 4]);
    assert!(j.list_since(5, 10).unwrap().is_empty());
    assert_eq!(j.list_since(-3, 1).unwrap()[0].seq, 1);
}

#[test]
fn find_by_kind_keeps_order() {
    let mut j = Journal::new();
    j.append(JournalKind::GateStarted, None, None, n(1)).unwrap();
    j.append(JournalKind::GateFailed, None, None, n(2)).unwrap();
    j.append(JournalKind::GateStarted, None, None, n(3)).unwrap();
    let started = j.find_by_kind(JournalKind::GateStarted).unwrap();
    assert_eq!(started.iter().map(|e| e.seq).collect::<Vec<_>>(), vec![1, 3]);
    assert_eq!(j.find_by_kind(JournalKind::MergeQueued).unwrap().len(), 0);
}

#[test]
fn kind_names_round_trip() {
    for k in [JournalKind::RunCreated, JournalKind::GateFailed, JournalKind::OrphanDetected, JournalKind::RulesInjected] {
        assert_eq!(JournalKind::parse(k.as_str()), Some(k));
    }
    assert_eq!(JournalKind::RulesInjected.as_str(), "rules_injected");
    assert_eq!(JournalKind::parse("nope"), None);
    assert_eq!(TaskStatus::parse("merging"), Some(TaskStatus::Merging));
    assert_eq!(TaskStatus::Done.as_str(), "done");
    assert_eq!(TaskStatus::parse("Done"), None);
}
