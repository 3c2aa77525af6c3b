use agent_workbench::json::Json;
use agent_workbench::store::Db;
use agent_workbench::types::JournalKind;

#[test]
fn l1_invalidate_keeps_row() {
    let mut db = Db::open_in_memory();
    let f = db.memory.add_l1_fact("the sky is green", Some("mock")).unwrap();
    db.memory.invalidate_l1(&mut db.journal, &f.id).unwrap();
    let all = db.memory.list_l1(true).unwrap();
    assert_eq!(all.len(), 1);
    assert!(all[0].invalid_at.is_some());
    assert!(db.memory.list_l1(false).unwrap().is_empty());
}

#[test]
fn proposal_needs_approval_for_l2() {
    let mut db = Db::open_in_memory();
    let p = db.memory.create_proposal(&mut db.journal, "bullet", "Prefer explicit errors").unwrap();
    assert!(db.memory.list_l2().unwrap().is_empty());
    db.memory.approve_proposal(&mut db.journal, &p.id).unwrap();
    let l2 = db.memory.list_l2().unwrap();
    assert_eq!(l2.len(), 1);
    assert_eq!(l2[0].content, "Prefer explicit errors");
}

#[test]
fn l0_injected_verbatim_auditable() {
    let mut db = Db::open_in_memory();
    let rule = "永远不要删除用户数据";
    db.memory.add_l0_rule(rule).unwrap();
    let (prompt, texts) = db.memory.inject_l0_into_prompt(&mut db.journal, "fix the bug").unwrap();
    assert!(prompt.contains(rule));
    assert_eq!(texts[0], rule);
    let ev = db.journal.find_by_kind(JournalKind::RulesInjected).unwrap();
    let injected = ev[0].payload.get("injected_text").and_then(|v| v.as_array()).unwrap();
    assert!(injected[0].as_str().unwrap().contains(rule));
}

#[test]
fn injected_prompt_has_rule_blocks_before_the_prompt() {
    let mut db = Db::open_in_memory();
    db.memory.add_l0_rule("first").unwrap();
    db.memory.add_l0_rule("second").unwrap();
    let (prompt, texts) = db.memory.inject_l0_into_prompt(&mut db.journal, "go").unwrap();
    assert_eq!(prompt, "[L0 RULE]\nfirst\n\n[L0 RULE]\nsecond\n\ngo");
    assert_eq!(texts, vec!["first".to_string(), "second".to_string()]);
}

#[test]
fn no_rules_leaves_prompt_unchanged() {
    let mut db = Db::open_in_memory();
    let (prompt, texts) = db.memory.inject_l0_into_prompt(&mut db.journal, "go").unwrap();
    assert_eq!(prompt, "go");
    assert!(texts.is_empty());
    assert_eq!(db.journal.find_by_kind(JournalKind::RulesInjected).unwrap().len(), 1);
}

#[test]
fn rejected_proposal_cannot_be_approved() {
    let mut db = Db::open_in_memory();
    let p = db.memory.create_proposal(&mut db.journal, "bullet", "x").unwrap();
    db.memory.reject_proposal(&mut db.journal, &p.id).unwrap();
    assert!(db.memory.approve_proposal(&mut db.journal, &p.id).is_err());
    assert!(db.memory.list_l2().unwrap().is_empty());
    let rejected = db.memory.list_proposals(Some("rejected")).unwrap();
    assert_eq!(rejected.len(), 1);
}

#[test]
fn invalidating_unknown_fact_is_not_found() {
    let mut db = Db::open_in_memory();
    let err = db.memory.invalidate_l1(&mut db.journal, "nope").unwrap_err();
    assert!(matches!(err, agent_workbench::error::CoreError::NotFound(_)));
}

#[test]
fn memory_items_as_json() {
    let mut db = Db::open_in_memory();
    let r = db.memory.add_l0_rule("rule").unwrap();
    let j = r.to_json();
    assert_eq!(j.get("content").and_then(|v| v.as_str()), Some("rule"));
    assert_eq!(j.get("enabled").and_then(|v| v.as_bool()), Some(true));
    let f = db.memory.add_l1_fact("fact", None).unwrap();
    assert!(matches!(f.to_json().get("source"), Some(Json::Null)));
}

#[test]
fn approval_journals_proposal_and_bullet_ids() {
    let mut db = Db::open_in_memory();
    let p = db.memory.create_proposal(&mut db.journal, "bullet", "x").unwrap();
    let b = db.memory.approve_proposal_as(&mut db.journal, &p.id, "b1").unwrap();
    assert_eq!(b.id, "b1");
    let evs = db.journal.find_by_kind(JournalKind::ProposalApproved).unwrap();
    assert_eq!(evs.len(), 1);
    assert_eq!(evs[0].payload.member_text("proposal_id"), Some(p.id.as_str()));
    assert_eq!(evs[0].payload.member_text("l2_id"), Some("b1"));
}

#[test]
fn approval_with_a_taken_bullet_id_is_refused() {
    let mut db = Db::open_in_memory();
    let p = db.memory.create_proposal(&mut db.journal, "bullet", "x").unwrap();
    let q = db.memory.create_proposal(&mut db.journal, "bullet", "y").unwrap();
    db.memory.approve_proposal_as(&mut db.journal, &p.id, "b1").unwrap();
    let seq = db.journal.latest_seq().unwrap();
    let err = db.memory.approve_proposal_as(&mut db.journal, &q.id, "b1").unwrap_err();
    assert_eq!(err.message(), "sqlite: UNIQUE constraint failed: l2_bullets.id");
    assert_eq!(db.memory.list_l2().unwrap().len(), 1);
    assert_eq!(db.journal.latest_seq().unwrap(), seq);
}

#[test]
fn invalidation_journals_fact_id_and_time() {
    let mut db = Db::open_in_memory();
    let f = db.memory.add_l1_fact("fact", None).unwrap();
    db.memory.invalidate_l1(&mut db.journal, &f.id).unwrap();
    let stamped = db.memory.list_l1(true).unwrap()[0].invalid_at.clone().unwrap();
    let evs = db.journal.find_by_kind(JournalKind::MemoryInvalidated).unwrap();
    assert_eq!(evs[0].payload.member_text("fact_id"), Some(f.id.as_str()));
    assert_eq!(evs[0].payload.member_text("invalid_at"), Some(stamped.as_str()));
}
