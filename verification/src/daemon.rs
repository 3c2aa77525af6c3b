//! The workbench façade: startup state with its banners (a failed step
//! degrades into a banner instead of stopping the workbench), the demo
//! graph, prompts with the standing rules, memory seeding, fixture replay
//! and journal reads.

use vstd::prelude::*;
use vstd::string::*;
use crate::acp::client::{event_json, events_view};
use crate::acp::normalize::{fixture_transcript, fixture_value, normalize_session_update, normalized, NormalizedEvent, NormalizedEventV};
use crate::acp::probe::{OpenCodeProbe, OpenCodeProbeV};
use crate::acp::types::AdvertisedMenus;
use crate::error::CoreError;
use crate::journal::{appended, appended_events, lemma_appended_events_none, lemma_appended_events_push, events_after, opt_view, opt_str_ref_view, EventItem, JournalEvent, JournalEventV};
use crate::json::{int_json, json_int, Json, JsonV};
use crate::memory::{object2, injected_prompt, l0_json, l1_json, object3, proposal_json, proposal_created_json, MemoryStore};
use crate::store::Db;
use crate::text::str_eq;
use crate::types::JournalKind;

verus! {

/// A message shown when the workbench opens.
#[derive(Debug)]
pub struct StartupBanner {
    pub level: String,
    pub message: String,
}

/// A startup step that degrades into a banner when it fails.
#[derive(Debug)]
pub enum StartupStep {
    /// The database file could not be opened; an in-memory one is used.
    DbOpen,
    /// The worktree root could not be created.
    WorktreeRoot,
    /// Scanning for orphan worktrees failed.
    OrphanScan,
    /// The worktree manager could not be set up.
    ManagerInit,
}

/// The level and text of the banner for a failed startup step.
pub open spec fn failure_banner_text(step: StartupStep, detail: Seq<char>) -> (Seq<char>, Seq<char>) {
    match step {
        StartupStep::DbOpen => ("error"@, "DB open failed, using memory: "@ + detail),
        StartupStep::WorktreeRoot => ("warn"@, "worktree root create failed: "@ + detail),
        StartupStep::OrphanScan => ("warn"@, "orphan scan failed: "@ + detail),
        StartupStep::ManagerInit => ("warn"@, "worktree manager init failed: "@ + detail),
    }
}

/// The banner for a failed startup step, with the failure's text.
pub fn failure_banner(step: StartupStep, detail: &str) -> (b: StartupBanner)
    ensures
        (b.level@, b.message@) == failure_banner_text(step, detail@),
{
    let (level, prefix) = match step {
        StartupStep::DbOpen => ("error", "DB open failed, using memory: "),
        StartupStep::WorktreeRoot => ("warn", "worktree root create failed: "),
        StartupStep::OrphanScan => ("warn", "orphan scan failed: "),
        StartupStep::ManagerInit => ("warn", "worktree manager init failed: "),
    };
    let mut message = prefix.to_owned();
    message.append(detail);
    StartupBanner { level: level.to_owned(), message }
}

/// The banner that reports the OpenCode probe: where it was found, or
/// how to make it available.
pub open spec fn probe_banner_text(p: OpenCodeProbeV) -> (Seq<char>, Seq<char>) {
    if p.available {
        ("info"@, "OpenCode available at "@ + (match p.path { Some(x) => x, None => "?"@ }) + " (via "@ + p.source
            + ", version="@ + (match p.version { Some(v) => v, None => "unknown"@ }) + ")"@)
    } else {
        ("warn"@, "OpenCode not available (probe source="@ + p.source
            + "). Set OPENCODE_BIN or install `opencode` on PATH. Live ACP unverified; using fixture/mock."@)
    }
}

/// The banner that reports the OpenCode probe (see `probe_banner_text`).
pub fn probe_banner(probe: &OpenCodeProbe) -> (b: StartupBanner)
    ensures
        (b.level@, b.message@) == probe_banner_text(probe@),
{
    if probe.available {
        let mut m = "OpenCode available at ".to_owned();
        match &probe.path {
            Some(p) => m.append(p.as_str()),
            None => m.append("?"),
        }
        m.append(" (via ");
        m.append(probe.source.as_str());
        m.append(", version=");
        match &probe.version {
            Some(v) => m.append(v.as_str()),
            None => m.append("unknown"),
        }
        m.append(")");
        StartupBanner { level: "info".to_owned(), message: m }
    } else {
        let mut m = "OpenCode not available (probe source=".to_owned();
        m.append(probe.source.as_str());
        m.append("). Set OPENCODE_BIN or install `opencode` on PATH. Live ACP unverified; using fixture/mock.");
        StartupBanner { level: "warn".to_owned(), message: m }
    }
}

/// The banners of a startup, in order: a failed database open, a failed
/// worktree root, the probe's banner, then a failed manager set-up or, when
/// the manager was set up, a failed orphan scan.
pub open spec fn startup_banner_texts(
    db_error: Option<Seq<char>>,
    root_error: Option<Seq<char>>,
    probe: OpenCodeProbeV,
    init_error: Option<Seq<char>>,
    scan_error: Option<Seq<char>>,
) -> Seq<(Seq<char>, Seq<char>)> {
    let db = match db_error { Some(d) => seq![failure_banner_text(StartupStep::DbOpen, d)], None => Seq::empty() };
    let root = match root_error { Some(d) => seq![failure_banner_text(StartupStep::WorktreeRoot, d)], None => Seq::empty() };
    let manager = match init_error {
        Some(d) => seq![failure_banner_text(StartupStep::ManagerInit, d)],
        None => match scan_error { Some(d) => seq![failure_banner_text(StartupStep::OrphanScan, d)], None => Seq::empty() },
    };
    db + root + seq![probe_banner_text(probe)] + manager
}

/// The level and message of each banner.
pub open spec fn banner_texts(bs: Seq<StartupBanner>) -> Seq<(Seq<char>, Seq<char>)> {
    bs.map_values(|b: StartupBanner| (b.level@, b.message@))
}

fn push_banner(v: &mut Vec<StartupBanner>, b: StartupBanner)
    ensures
        banner_texts(final(v)@) == banner_texts(old(v)@).push((b.level@, b.message@)),
{
    let ghost before = v@;
    let ghost t = (b.level@, b.message@);
    v.push(b);
    proof { assert(banner_texts(v@) =~= banner_texts(before).push(t)); }
}

/// The banners of a startup from what failed in it (see `startup_banner_texts`).
pub fn startup_banners(
    db_error: Option<&str>,
    root_error: Option<&str>,
    probe: &OpenCodeProbe,
    init_error: Option<&str>,
    scan_error: Option<&str>,
) -> (r: Vec<StartupBanner>)
    ensures
        banner_texts(r@) == startup_banner_texts(opt_str_ref_view(db_error), opt_str_ref_view(root_error), probe@,
            opt_str_ref_view(init_error), opt_str_ref_view(scan_error)),
{
    let mut v: Vec<StartupBanner> = Vec::new();
    proof { assert(banner_texts(v@) =~= Seq::empty()); }
    if let Some(d) = db_error {
        push_banner(&mut v, failure_banner(StartupStep::DbOpen, d));
    }
    if let Some(d) = root_error {
        push_banner(&mut v, failure_banner(StartupStep::WorktreeRoot, d));
    }
    push_banner(&mut v, probe_banner(probe));
    if let Some(d) = init_error {
        push_banner(&mut v, failure_banner(StartupStep::ManagerInit, d));
    } else if let Some(d) = scan_error {
        push_banner(&mut v, failure_banner(StartupStep::OrphanScan, d));
    }
    proof {
        let want = startup_banner_texts(opt_str_ref_view(db_error), opt_str_ref_view(root_error), probe@,
            opt_str_ref_view(init_error), opt_str_ref_view(scan_error));
        assert(banner_texts(v@) =~= want);
    }
    v
}

/// The payload journaled when a live session opens: its id and which
/// configuration menus it advertised.
pub open spec fn session_created_json(session_id: Seq<char>, has_model: bool, has_thought_level: bool) -> JsonV {
    JsonV::Object(seq![
        ("session_id"@, JsonV::Str(session_id)),
        ("config_options_advertised"@, JsonV::Object(seq![
            ("model"@, JsonV::Bool(has_model)),
            ("thought_level"@, JsonV::Bool(has_thought_level)),
        ])),
    ])
}

/// The `session_created` payload for a session and its advertised menus.
pub fn session_created_payload(session_id: &str, menus: &AdvertisedMenus) -> (r: Json)
    ensures
        r@ == session_created_json(session_id@, menus.model is Some, menus.thought_level is Some),
{
    let advertised = object2("model", Json::Bool(menus.model.is_some()), "thought_level", Json::Bool(menus.thought_level.is_some()));
    object2("session_id", Json::text(session_id), "config_options_advertised", advertised)
}

/// What the workbench shows about itself.
#[derive(Debug)]
pub struct WorkbenchState {
    pub db_path: String,
    pub repo_root: String,
    pub worktree_root: String,
    pub banners: Vec<StartupBanner>,
    /// The probe's real result, never assumed.
    pub opencode_available: bool,
    pub opencode_bin: Option<String>,
    pub opencode_probe_source: String,
    pub opencode_version: Option<String>,
}

impl WorkbenchState {
    /// The state for these paths and banners, reporting the probe as it came out.
    pub fn new(db_path: String, repo_root: String, worktree_root: String, banners: Vec<StartupBanner>, probe: &OpenCodeProbe) -> (s: WorkbenchState)
        ensures
            s.db_path@ == db_path@,
            s.repo_root@ == repo_root@,
            s.worktree_root@ == worktree_root@,
            s.banners@ == banners@,
            s.opencode_available == probe@.available,
            opt_view(s.opencode_bin) == probe@.path,
            s.opencode_probe_source@ == probe@.source,
            opt_view(s.opencode_version) == probe@.version,
    {
        WorkbenchState {
            db_path,
            repo_root,
            worktree_root,
            banners,
            opencode_available: probe.available,
            opencode_bin: crate::journal::copy_opt(&probe.path),
            opencode_probe_source: probe.source.clone(),
            opencode_version: crate::journal::copy_opt(&probe.version),
        }
    }
}

/// The workbench: its database and what it shows about itself.
pub struct Workbench {
    pub db: Db,
    pub state: WorkbenchState,
}

/// The normalized events of a recorded session that replay keeps: every
/// entry's event except the ignored ones, in order.
pub open spec fn replayed(entries: Seq<JsonV>) -> Seq<NormalizedEventV>
    decreases entries.len(),
{
    if entries.len() == 0 {
        Seq::empty()
    } else if normalized(entries.last()) is Ignored {
        replayed(entries.drop_last())
    } else {
        replayed(entries.drop_last()).push(normalized(entries.last()))
    }
}

/// The journal items that replaying these events appends.
pub open spec fn replay_items(evs: Seq<NormalizedEventV>) -> Seq<EventItem> {
    evs.map_values(|e: NormalizedEventV| (JournalKind::SessionUpdate, None::<Seq<char>>, None::<Seq<char>>, event_json(e)))
}

/// The JSON form in which a journal event is handed to the UI.
pub open spec fn event_record_json(e: JournalEventV) -> JsonV {
    JsonV::Object(seq![
        ("seq"@, json_int(e.seq)),
        ("kind"@, JsonV::Str(e.kind)),
        ("run_id"@, crate::memory::json_opt_text(e.run_id)),
        ("task_id"@, crate::memory::json_opt_text(e.task_id)),
        ("payload"@, e.payload),
        ("created_at"@, JsonV::Str(e.created_at)),
    ])
}

/// The demo's standing rule, fact and proposal.
pub open spec fn demo_rule() -> Seq<char> {
    "只读规则：修改代码前必须先写失败测试。"@
}

pub open spec fn demo_fact() -> Seq<char> {
    "mock: add() 曾经返回 a-b"@
}

pub open spec fn demo_proposal() -> Seq<char> {
    "ACE假提案：优先用属性测试覆盖加法交换律"@
}

impl Workbench {
    /// A workbench over this database and state.
    pub fn new(db: Db, state: WorkbenchState) -> (w: Workbench)
        ensures
            w.db == db,
            w.state == state,
    {
        Workbench { db, state }
    }

    pub open spec fn wf(&self) -> bool {
        self.db.wf()
    }

    /// The demo task graph's YAML text.
    pub fn demo_yaml(&self) -> (r: &'static str)
        ensures
            r@ == crate::graph::DEMO_TWO_TASK_YAML@,
    {
        crate::graph::demo_two_task_yaml()
    }

    /// The memory tables.
    pub fn memory(&self) -> (m: &MemoryStore)
        ensures
            *m == self.db.memory,
    {
        &self.db.memory
    }

    /// The prompt that goes to the agent: the enabled standing rules,
    /// verbatim, in front of the user's prompt. The injection is journaled.
    pub fn assemble_prompt(&mut self, user_prompt: &str) -> (r: Result<String, CoreError>)
        requires
            old(self).wf(),
        ensures
            final(self).wf(),
            final(self).db.memory == old(self).db.memory,
            final(self).db.permissions == old(self).db.permissions,
            final(self).db.runs == old(self).db.runs,
            final(self).state == old(self).state,
            r matches Ok(p) ==> p@ == injected_prompt(old(self).db.memory.l0(), user_prompt@)
                && appended(old(self).db.journal.events(), final(self).db.journal.events(), JournalKind::RulesInjected,
                    None, None, crate::memory::injection_payload(old(self).db.memory.l0())),
            r matches Err(e) ==> e is Sqlite && final(self).db.journal.events() == old(self).db.journal.events(),
            old(self).db.journal.last_seq() < i64::MAX ==> r is Ok,
    {
        match self.db.memory.inject_l0_into_prompt(&mut self.db.journal, user_prompt) {
            Ok((combined, _)) => Ok(combined),
            Err(e) => Err(e),
        }
    }

    /// Seeds the demo memory: a standing rule, a mock fact from the
    /// fixture, and a pending proposal. Returns them as JSON.
    pub fn seed_demo_memory(&mut self) -> (r: Result<Json, CoreError>)
        requires
            old(self).wf(),
        ensures
            final(self).wf(),
            final(self).state == old(self).state,
            final(self).db.runs == old(self).db.runs,
            r matches Ok(j) ==> {
                let m = final(self).db.memory;
                let m0 = old(self).db.memory;
                &&& m.l0() == m0.l0().push(m.l0().last())
                &&& m.l0().last().content == demo_rule() && m.l0().last().enabled
                &&& m.l1() == m0.l1().push(m.l1().last())
                &&& m.l1().last().content == demo_fact() && m.l1().last().source == Some("fixture"@)
                &&& m.proposals() == m0.proposals().push(m.proposals().last())
                &&& m.proposals().last().kind == "bullet"@ && m.proposals().last().content == demo_proposal()
                &&& m.proposals().last().status == "pending"@
                &&& j@ == JsonV::Object(seq![
                    ("l0"@, l0_json(m.l0().last())),
                    ("l1"@, l1_json(m.l1().last())),
                    ("proposal"@, proposal_json(m.proposals().last())),
                ])
                &&& appended(old(self).db.journal.events(), final(self).db.journal.events(),
                    JournalKind::ProposalCreated, None, None, proposal_created_json(m.proposals().last()))
            },
            final(self).db.permissions == old(self).db.permissions,
            r matches Err(e) ==> e is Sqlite,
            // Fresh ids can only collide with rows already there.
            old(self).db.memory.l0().len() == 0 && old(self).db.memory.l1().len() == 0
                && old(self).db.memory.proposals().len() == 0 && old(self).db.journal.last_seq() < i64::MAX
                ==> r is Ok,
    {
        let rule = match self.db.memory.add_l0_rule("只读规则：修改代码前必须先写失败测试。") {
            Ok(r) => r,
            Err(e) => { return Err(e); },
        };
        let fact = match self.db.memory.add_l1_fact("mock: add() 曾经返回 a-b", Some("fixture")) {
            Ok(f) => f,
            Err(e) => { return Err(e); },
        };
        let proposal = match self.db.memory.create_proposal(&mut self.db.journal, "bullet",
            "ACE假提案：优先用属性测试覆盖加法交换律") {
            Ok(p) => p,
            Err(e) => { return Err(e); },
        };
        proof { reveal_strlit("fixture"); }
        Ok(object3("l0", rule.to_json(), "l1", fact.to_json(), "proposal", proposal.to_json()))
    }

    /// Replays the recorded demo session into the journal: every event that
    /// is not ignored is journaled as a `session_update` and returned.
    pub fn replay_fixture_transcript(&mut self) -> (r: Result<Vec<NormalizedEvent>, CoreError>)
        requires
            old(self).wf(),
        ensures
            final(self).wf(),
            final(self).state == old(self).state,
            final(self).db.memory == old(self).db.memory,
            final(self).db.permissions == old(self).db.permissions,
            final(self).db.runs == old(self).db.runs,
            r matches Ok(v) ==> events_view(v@) == replayed(fixture_value()->Array_0)
                && appended_events(old(self).db.journal.events(), final(self).db.journal.events(),
                    replay_items(replayed(fixture_value()->Array_0))),
            old(self).db.journal.last_seq() + 5 <= i64::MAX ==> r is Ok,
            r matches Err(e) ==> e is Sqlite,
    {
        let fixtures = fixture_transcript();
        let entries = match fixtures.as_array() {
            Some(a) => a,
            None => { return Ok(Vec::new()); },
        };
        let ghost es = crate::json::seq_view(entries@);
        proof {
            crate::json::lemma_seq_view(entries@);
            assert(es == fixture_value()->Array_0);
            lemma_appended_events_none(self.db.journal.events());
            assert(replayed(es.take(0)) =~= Seq::<NormalizedEventV>::empty());
            assert(replay_items(Seq::<NormalizedEventV>::empty()) =~= Seq::<EventItem>::empty());
        }
        let ghost ev0 = self.db.journal.events();
        let mut out: Vec<NormalizedEvent> = Vec::new();
        let mut i: usize = 0;
        while i < entries.len()
            invariant
                es == crate::json::seq_view(entries@),
                es.len() == entries@.len(),
                es == fixture_value()->Array_0,
                i <= entries@.len(),
                self.db.journal.wf(),
                old(self).wf(),
                self.state == old(self).state,
                self.db.memory == old(self).db.memory,
                self.db.permissions == old(self).db.permissions,
                self.db.runs == old(self).db.runs,
                ev0 == old(self).db.journal.events(),
                events_view(out@) == replayed(es.take(i as int)),
                appended_events(ev0, self.db.journal.events(), replay_items(replayed(es.take(i as int)))),
                replayed(es.take(i as int)).len() <= i,
            decreases entries@.len() - i,
        {
            proof {
                crate::json::lemma_seq_view(entries@);
                assert(es.take(i + 1).drop_last() =~= es.take(i as int));
                assert(es.take(i + 1).last() == entries@[i as int]@);
            }
            let mut evs = normalize_session_update(&entries[i]);
            let ev = evs.remove(0);
            let ignored = match &ev {
                NormalizedEvent::Ignored { .. } => true,
                _ => false,
            };
            if !ignored {
                let ghost mid = self.db.journal.events();
                let ghost done = replayed(es.take(i as int));
                match self.db.journal.record(JournalKind::SessionUpdate, None, None, ev.to_json()) {
                    Ok(()) => {},
                    Err(e) => { return Err(e); },
                }
                proof {
                    lemma_appended_events_push(ev0, mid, self.db.journal.events(), replay_items(done),
                        (JournalKind::SessionUpdate, None::<Seq<char>>, None::<Seq<char>>, event_json(ev@)));
                    assert(replay_items(done).push((JournalKind::SessionUpdate, None::<Seq<char>>, None::<Seq<char>>,
                        event_json(ev@))) =~= replay_items(done.push(ev@)));
                }
                let ghost prev = events_view(out@);
                out.push(ev);
                proof { assert(events_view(out@) =~= prev.push(normalized(entries@[i as int]@))); }
            }
            i += 1;
        }
        proof { assert(es.take(i as int) =~= es); }
        Ok(out)
    }

    /// At most 500 journal events after `seq`, oldest first, as the UI reads them.
    pub fn events_since(&self, seq: i64) -> (r: Result<Vec<Json>, CoreError>)
        requires
            self.wf(),
        ensures
            r matches Ok(v) && crate::json::seq_view(v@) == events_after(self.db.journal.events(), seq as int, 500)
                .map_values(|e: JournalEventV| event_record_json(e)),
    {
        let evs = match self.db.journal.list_since(seq, 500) {
            Ok(v) => v,
            Err(e) => { return Err(e); },
        };
        let ghost want = events_after(self.db.journal.events(), seq as int, 500);
        let mut out: Vec<Json> = Vec::new();
        let mut i: usize = 0;
        while i < evs.len()
            invariant
                evs@.map_values(|e: JournalEvent| e@) == want,
                i <= evs@.len(),
                out@.len() == i,
                forall|j: int| 0 <= j < i ==> (#[trigger] out@[j])@ == event_record_json(evs@[j]@),
            decreases evs@.len() - i,
        {
            let e = &evs[i];
            let run = match &e.run_id {
                Some(s) => Json::text(s.as_str()),
                None => Json::Null,
            };
            let task = match &e.task_id {
                Some(s) => Json::text(s.as_str()),
                None => Json::Null,
            };
            let ghost items = seq![
                ("seq"@, json_int(e.seq as int)),
                ("kind"@, JsonV::Str(e.kind@)),
                ("run_id"@, run@),
                ("task_id"@, task@),
                ("payload"@, e.payload@),
                ("created_at"@, JsonV::Str(e.created_at@)),
            ];
            let mut es: Vec<(String, Json)> = Vec::new();
            es.push(crate::json::member("seq", int_json(e.seq)));
            es.push(crate::json::member("kind", Json::text(e.kind.as_str())));
            es.push(crate::json::member("run_id", run));
            es.push(crate::json::member("task_id", task));
            es.push(crate::json::member("payload", e.payload.deep_clone()));
            es.push(crate::json::member("created_at", Json::text(e.created_at.as_str())));
            proof {
                crate::json::lemma_members_view(es@);
                assert(crate::json::members_view(es@) =~= items);
                assert(event_record_json(evs@[i as int]@)->Object_0 =~= items);
            }
            out.push(Json::Object(es));
            i += 1;
        }
        proof {
            crate::json::lemma_seq_view(out@);
            assert forall|j: int| 0 <= j < want.len() implies #[trigger] crate::json::seq_view(out@)[j]
                == want.map_values(|e: JournalEventV| event_record_json(e))[j] by {
                assert(want[j] == evs@[j]@);
            }
            assert(crate::json::seq_view(out@) =~= want.map_values(|e: JournalEventV| event_record_json(e)));
        }
        Ok(out)
    }
}

/// How many of the events have kind `a` or kind `b`.
pub open spec fn kind_count(evs: Seq<JournalEventV>, a: Seq<char>, b: Seq<char>) -> nat
    decreases evs.len(),
{
    if evs.len() == 0 {
        0
    } else if evs.last().kind == a || evs.last().kind == b {
        kind_count(evs.drop_last(), a, b) + 1
    } else {
        kind_count(evs.drop_last(), a, b)
    }
}

/// How many of the events have kind `a` or kind `b`.
pub fn count_kinds(evs: &Vec<JournalEvent>, a: &str, b: &str) -> (n: usize)
    ensures
        n == kind_count(evs@.map_values(|e: JournalEvent| e@), a@, b@),
{
    let ghost vs = evs@.map_values(|e: JournalEvent| e@);
    let mut n: usize = 0;
    let mut i: usize = 0;
    while i < evs.len()
        invariant
            vs == evs@.map_values(|e: JournalEvent| e@),
            i <= evs@.len(),
            n == kind_count(vs.take(i as int), a@, b@),
            n <= i,
        decreases evs@.len() - i,
    {
        proof {
            assert(vs.take(i + 1).drop_last() =~= vs.take(i as int));
            assert(vs.take(i + 1).last() == evs@[i as int]@);
        }
        if str_eq(evs[i].kind.as_str(), a) || str_eq(evs[i].kind.as_str(), b) {
            n += 1;
        }
        i += 1;
    }
    proof { assert(vs.take(i as int) =~= vs); }
    n
}

/// The outcome of a smoke test against a live OpenCode agent.
#[derive(Debug)]
pub struct LiveAcpSmokeReport {
    /// True when OpenCode was not available: a skip, not a pass.
    pub skipped: bool,
    pub reason: Option<String>,
    pub probe: OpenCodeProbe,
    pub session_id: Option<String>,
    pub menus: AdvertisedMenus,
    pub menus_has_model: bool,
    pub menus_has_thought_level: bool,
    pub prompt_attempted: bool,
    pub prompt_ok: bool,
    pub prompt_error: Option<String>,
    pub journal_session_updates: usize,
    pub journal_permission_events: usize,
    pub model_switch_check: Option<String>,
}

/// Why the live smoke test was skipped.
pub open spec fn skip_reason(source: Seq<char>) -> Seq<char> {
    "OpenCode not available (source="@ + source + "). Live ACP smoke skipped — not a pass."@
}

impl LiveAcpSmokeReport {
    /// The report when OpenCode is not available: skipped, with the probe's
    /// source in the reason, nothing attempted and no menus.
    pub fn skipped(probe: OpenCodeProbe) -> (r: LiveAcpSmokeReport)
        ensures
            r.skipped,
            r.reason matches Some(m) && m@ == skip_reason(probe@.source),
            r.probe@ == probe@,
            r.session_id is None,
            r.menus.model is None && r.menus.thought_level is None && r.menus.model_config@.len() == 0,
            !r.menus_has_model && !r.menus_has_thought_level,
            !r.prompt_attempted && !r.prompt_ok,
            r.prompt_error is None,
            r.journal_session_updates == 0 && r.journal_permission_events == 0,
            r.model_switch_check is None,
    {
        let mut reason = "OpenCode not available (source=".to_owned();
        reason.append(probe.source.as_str());
        reason.append("). Live ACP smoke skipped — not a pass.");
        LiveAcpSmokeReport {
            skipped: true,
            reason: Some(reason),
            probe,
            session_id: None,
            menus: AdvertisedMenus::empty(),
            menus_has_model: false,
            menus_has_thought_level: false,
            prompt_attempted: false,
            prompt_ok: false,
            prompt_error: None,
            journal_session_updates: 0,
            journal_permission_events: 0,
            model_switch_check: None,
        }
    }

    /// The report of a live session, counting what reached the journal.
    /// The menus are reported as advertised. A prompt that succeeded while
    /// no session update reached the journal is refused: updates are never
    /// invented, and their absence is a failure.
    pub fn completed(
        probe: OpenCodeProbe,
        session_id: String,
        menus: AdvertisedMenus,
        prompt_ok: bool,
        prompt_error: Option<String>,
        events: &Vec<JournalEvent>,
        model_switch_check: Option<String>,
    ) -> (r: Result<LiveAcpSmokeReport, String>)
        ensures
            ({
                let evs = events@.map_values(|e: JournalEvent| e@);
                let updates = kind_count(evs, "session_update"@, "session_update"@);
                let perms = kind_count(evs, "permission_requested"@, "permission_resolved"@);
                &&& prompt_ok && updates == 0 ==> (r matches Err(m)
                    && m@ == "live ACP prompt returned ok but journal has zero session_update events"@)
                &&& !(prompt_ok && updates == 0) ==> (r matches Ok(rep) && !rep.skipped && rep.reason is None
                    && rep.probe@ == probe@ && rep.session_id == Some(session_id)
                    && rep.menus_has_model == (menus.model is Some)
                    && rep.menus_has_thought_level == (menus.thought_level is Some)
                    && rep.menus == menus
                    && rep.prompt_attempted && rep.prompt_ok == prompt_ok && rep.prompt_error == prompt_error
                    && rep.journal_session_updates == updates && rep.journal_permission_events == perms
                    && rep.model_switch_check == model_switch_check)
            }),
    {
        let updates = count_kinds(events, "session_update", "session_update");
        let perms = count_kinds(events, "permission_requested", "permission_resolved");
        if prompt_ok && updates == 0 {
            return Err("live ACP prompt returned ok but journal has zero session_update events".to_owned());
        }
        let has_model = menus.model.is_some();
        let has_thought = menus.thought_level.is_some();
        Ok(LiveAcpSmokeReport {
            skipped: false,
            reason: None,
            probe,
            session_id: Some(session_id),
            menus,
            menus_has_model: has_model,
            menus_has_thought_level: has_thought,
            prompt_attempted: true,
            prompt_ok,
            prompt_error,
            journal_session_updates: updates,
            journal_permission_events: perms,
            model_switch_check,
        })
    }
}

} // verus!
