use agent_workbench::acp::normalize::NormalizedEvent;
use agent_workbench::acp::probe::probe_override;
use agent_workbench::acp::types::AdvertisedMenus;
use agent_workbench::daemon::{failure_banner, probe_banner, session_created_payload, startup_banners, LiveAcpSmokeReport, StartupStep, Workbench, WorkbenchState};
use agent_workbench::demo::add;
use agent_workbench::journal::Journal;
use agent_workbench::json::Json;
use agent_workbench::store::Db;
use agent_workbench::types::JournalKind;

fn workbench() -> Workbench {
    let probe = probe_override("/no/such/opencode", false, None);
    let banners = vec![probe_banner(&probe)];
    let state = WorkbenchState::new(
        ".agent-workbench/workbench.sqlite".to_string(),
        "/repo".to_string(),
        ".agent-workbench/worktrees".to_string(),
        banners,
        &probe,
    );
    Workbench::new(Db::open_in_memory(), state)
}

#[test]
fn state_reports_probe_honestly() {
    let wb = workbench();
    assert!(!wb.state.opencode_available);
    assert_eq!(wb.state.opencode_probe_source, "OPENCODE_BIN_missing");
    assert_eq!(wb.state.banners[0].level, "warn");
    assert!(wb.state.banners[0].message.starts_with("OpenCode not available (probe source=OPENCODE_BIN_missing)"));
}

#[test]
fn banners_for_startup_steps() {
    let b = failure_banner(StartupStep::DbOpen, "locked");
    assert_eq!(b.level, "error");
    assert_eq!(b.message, "DB open failed, using memory: locked");
    assert_eq!(failure_banner(StartupStep::OrphanScan, "x").message, "orphan scan failed: x");
    let p = probe_override("/bin/opencode", true, None);
    let ok = probe_banner(&p);
    assert_eq!(ok.level, "info");
    assert_eq!(ok.message, "OpenCode available at /bin/opencode (via OPENCODE_BIN, version=unknown)");
}

#[test]
fn replay_fixture_journals_non_ignored_events() {
    let mut wb = workbench();
    let evs = wb.replay_fixture_transcript().unwrap();
    assert_eq!(evs.len(), 4);
    assert!(matches!(evs[0], NormalizedEvent::Thought { .. }));
    assert!(evs.iter().all(|e| !matches!(e, NormalizedEvent::Ignored { .. })));
    assert_eq!(wb.db.journal.find_by_kind(JournalKind::SessionUpdate).unwrap().len(), 4);
    let since = wb.events_since(2).unwrap();
    assert_eq!(since.len(), 2);
    assert_eq!(since[0].get("seq").and_then(|v| v.as_u64()), Some(3));
    assert_eq!(since[0].get("kind").and_then(|v| v.as_str()), Some("session_update"));
    assert!(matches!(since[0].get("run_id"), Some(Json::Null)));
}

#[test]
fn seeded_memory_has_rule_fact_and_pending_proposal() {
    let mut wb = workbench();
    let seeded = wb.seed_demo_memory().unwrap();
    let rule = seeded.get("l0").unwrap();
    assert_eq!(rule.get("content").and_then(|v| v.as_str()), Some("只读规则：修改代码前必须先写失败测试。"));
    let fact = seeded.get("l1").unwrap();
    assert_eq!(fact.get("source").and_then(|v| v.as_str()), Some("fixture"));
    let proposal = seeded.get("proposal").unwrap();
    assert_eq!(proposal.get("status").and_then(|v| v.as_str()), Some("pending"));
    assert!(wb.memory().list_l2().unwrap().is_empty());
}

#[test]
fn assembled_prompt_carries_standing_rules() {
    let mut wb = workbench();
    wb.seed_demo_memory().unwrap();
    let prompt = wb.assemble_prompt("fix add").unwrap();
    assert_eq!(prompt, "[L0 RULE]\n只读规则：修改代码前必须先写失败测试。\n\nfix add");
    assert_eq!(wb.db.journal.find_by_kind(JournalKind::RulesInjected).unwrap().len(), 1);
}

#[test]
fn demo_yaml_is_the_two_task_graph() {
    let wb = workbench();
    assert!(wb.demo_yaml().contains("name: fix-and-test"));
    assert!(wb.demo_yaml().contains("from: A"));
}

#[test]
fn live_acp_smoke_skips_when_opencode_missing() {
    let probe = probe_override("/no/such/opencode-for-live-smoke", false, None);
    let report = LiveAcpSmokeReport::skipped(probe);
    assert!(report.skipped, "must skip, not fake-pass");
    assert!(report.reason.as_ref().unwrap().contains("not available"));
    assert!(!report.menus_has_model);
    assert!(!report.menus_has_thought_level);
}

#[test]
fn live_smoke_refuses_prompt_without_updates() {
    let mut j = Journal::new();
    j.append(JournalKind::PermissionRequested, None, None, Json::Null).unwrap();
    let evs = j.list_since(0, 500).unwrap();
    let probe = probe_override("/bin/opencode", true, None);
    let r = LiveAcpSmokeReport::completed(probe, "s".to_string(), AdvertisedMenus::empty(), true, None, &evs, None);
    assert_eq!(r.unwrap_err(), "live ACP prompt returned ok but journal has zero session_update events");
    let probe = probe_override("/bin/opencode", true, None);
    let ok = LiveAcpSmokeReport::completed(probe, "s".to_string(), AdvertisedMenus::empty(), false, Some("auth".to_string()), &evs, None)
        .unwrap();
    assert_eq!(ok.journal_permission_events, 1);
    assert_eq!(ok.journal_session_updates, 0);
    assert!(!ok.skipped && ok.prompt_attempted && !ok.prompt_ok);
}

#[test]
fn demo_add_is_broken_on_purpose() {
    assert_eq!(add(2, 2), 0);
    assert_eq!(add(5, 3), 2);
}

#[test]
fn startup_banners_come_in_step_order() {
    let p = probe_override("", false, None);
    let bs = startup_banners(Some("locked"), None, &p, None, Some("git failed"));
    let texts: Vec<(String, String)> = bs.into_iter().map(|b| (b.level, b.message)).collect();
    assert_eq!(texts.len(), 3);
    assert_eq!(texts[0].1, "DB open failed, using memory: locked");
    assert_eq!(texts[1].0, "warn");
    assert!(texts[1].1.starts_with("OpenCode not available (probe source=OPENCODE_BIN_missing)"));
    assert_eq!(texts[2].1, "orphan scan failed: git failed");
    // A manager that could not be set up was never scanned.
    let only = startup_banners(None, None, &p, Some("no parent"), Some("ignored"));
    assert_eq!(only.len(), 2);
    assert_eq!(only[1].message, "worktree manager init failed: no parent");
}

#[test]
fn session_created_payload_reports_advertised_menus() {
    let j = session_created_payload("s1", &AdvertisedMenus::empty());
    assert_eq!(j.member_text("session_id"), Some("s1"));
    let adv = j.get("config_options_advertised").unwrap();
    assert_eq!(adv.get("model").and_then(|v| v.as_bool()), Some(false));
    assert_eq!(adv.get("thought_level").and_then(|v| v.as_bool()), Some(false));
}
