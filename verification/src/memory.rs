//! Layered memory. L0 user rules and L1 facts stay in separate tables so
//! invalidating memory can never drop a standing user rule. Proposals only
//! reach L2 through explicit approval.

use vstd::prelude::*;
use vstd::string::*;
use crate::error::{CoreError, join2};
use crate::external::{new_uuid_v4, now_rfc3339};
use crate::journal::{appended, Journal, opt_view, opt_str_ref_view, copy_opt, owned_opt_str};
use crate::json::{Json, JsonV, member};
use crate::text::{str_eq, join_with, join_seqs, views_of, lemma_join_contains};
use crate::types::JournalKind;

verus! {

/// A standing user rule, injected verbatim into prompts while enabled.
#[derive(Debug)]
pub struct L0Rule {
    pub id: String,
    pub content: String,
    pub enabled: bool,
}

/// A mock L1 fact; invalidation only stamps `invalid_at`.
#[derive(Debug)]
pub struct L1Fact {
    pub id: String,
    pub content: String,
    pub source: Option<String>,
    pub invalid_at: Option<String>,
}

/// A proposed memory item awaiting human review.
#[derive(Debug)]
pub struct Proposal {
    pub id: String,
    pub kind: String,
    pub content: String,
    pub status: String,
}

/// An approved memory item.
#[derive(Debug)]
pub struct L2Bullet {
    pub id: String,
    pub proposal_id: Option<String>,
    pub content: String,
}

pub struct L0RuleV {
    pub id: Seq<char>,
    pub content: Seq<char>,
    pub enabled: bool,
}

pub struct L1FactV {
    pub id: Seq<char>,
    pub content: Seq<char>,
    pub source: Option<Seq<char>>,
    pub invalid_at: Option<Seq<char>>,
}

pub struct ProposalV {
    pub id: Seq<char>,
    pub kind: Seq<char>,
    pub content: Seq<char>,
    pub status: Seq<char>,
}

pub struct L2BulletV {
    pub id: Seq<char>,
    pub proposal_id: Option<Seq<char>>,
    pub content: Seq<char>,
}

impl View for L0Rule {
    type V = L0RuleV;

    open spec fn view(&self) -> L0RuleV {
        L0RuleV { id: self.id@, content: self.content@, enabled: self.enabled }
    }
}

impl View for L1Fact {
    type V = L1FactV;

    open spec fn view(&self) -> L1FactV {
        L1FactV { id: self.id@, content: self.content@, source: opt_view(self.source), invalid_at: opt_view(self.invalid_at) }
    }
}

impl View for Proposal {
    type V = ProposalV;

    open spec fn view(&self) -> ProposalV {
        ProposalV { id: self.id@, kind: self.kind@, content: self.content@, status: self.status@ }
    }
}

impl View for L2Bullet {
    type V = L2BulletV;

    open spec fn view(&self) -> L2BulletV {
        L2BulletV { id: self.id@, proposal_id: opt_view(self.proposal_id), content: self.content@ }
    }
}

impl L0Rule {
    pub fn duplicate(&self) -> (r: L0Rule)
        ensures
            r@ == self@,
    {
        L0Rule { id: self.id.clone(), content: self.content.clone(), enabled: self.enabled }
    }
}

impl L1Fact {
    pub fn duplicate(&self) -> (r: L1Fact)
        ensures
            r@ == self@,
    {
        L1Fact {
            id: self.id.clone(),
            content: self.content.clone(),
            source: copy_opt(&self.source),
            invalid_at: copy_opt(&self.invalid_at),
        }
    }
}

impl Proposal {
    pub fn duplicate(&self) -> (r: Proposal)
        ensures
            r@ == self@,
    {
        Proposal { id: self.id.clone(), kind: self.kind.clone(), content: self.content.clone(), status: self.status.clone() }
    }
}

impl L2Bullet {
    pub fn duplicate(&self) -> (r: L2Bullet)
        ensures
            r@ == self@,
    {
        L2Bullet { id: self.id.clone(), proposal_id: copy_opt(&self.proposal_id), content: self.content.clone() }
    }
}

/// The block an enabled rule contributes to a prompt.
pub open spec fn rule_block(content: Seq<char>) -> Seq<char> {
    "[L0 RULE]\n"@ + content
}

/// The enabled rules, in order.
pub open spec fn enabled_rules(l0: Seq<L0RuleV>) -> Seq<L0RuleV> {
    l0.filter(|r: L0RuleV| r.enabled)
}

/// The injected blocks of the enabled rules, in order.
pub open spec fn rule_blocks(l0: Seq<L0RuleV>) -> Seq<Seq<char>> {
    enabled_rules(l0).map_values(|r: L0RuleV| rule_block(r.content))
}

/// The prompt actually sent: the rule blocks, a blank line, then the user prompt.
pub open spec fn injected_prompt(l0: Seq<L0RuleV>, user_prompt: Seq<char>) -> Seq<char> {
    if rule_blocks(l0).len() == 0 {
        user_prompt
    } else {
        join_seqs(rule_blocks(l0), "\n\n"@) + "\n\n"@ + user_prompt
    }
}

/// A JSON array of strings.
pub open spec fn json_strings(v: Seq<Seq<char>>) -> JsonV {
    JsonV::Array(v.map_values(|s: Seq<char>| JsonV::Str(s)))
}

/// The audit payload of a rule injection.
pub open spec fn injection_payload(l0: Seq<L0RuleV>) -> JsonV {
    JsonV::Object(seq![
        ("rule_ids"@, json_strings(enabled_rules(l0).map_values(|r: L0RuleV| r.id))),
        ("injected_text"@, json_strings(rule_blocks(l0))),
    ])
}

/// A JSON array holding copies of the given strings.
pub fn json_string_array(v: &Vec<String>) -> (r: Json)
    ensures
        r@ == json_strings(views_of(v@)),
{
    let mut out: Vec<Json> = Vec::new();
    let mut i: usize = 0;
    while i < v.len()
        invariant
            i <= v@.len(),
            out@.len() == i,
            forall|j: int| 0 <= j < i ==> (#[trigger] out@[j])@ == JsonV::Str(v@[j]@),
        decreases v@.len() - i,
    {
        out.push(Json::text(v[i].as_str()));
        i += 1;
    }
    proof {
        crate::json::lemma_seq_view(out@);
        assert(crate::json::seq_view(out@) =~= views_of(v@).map_values(|s: Seq<char>| JsonV::Str(s)));
    }
    Json::Array(out)
}

/// Payload object from two members.
pub fn object2(k1: &str, v1: Json, k2: &str, v2: Json) -> (r: Json)
    ensures
        r@ == JsonV::Object(seq![(k1@, v1@), (k2@, v2@)]),
{
    let ghost a = v1@;
    let ghost b = v2@;
    let mut es: Vec<(String, Json)> = Vec::new();
    es.push(member(k1, v1));
    es.push(member(k2, v2));
    proof {
        crate::json::lemma_members_view(es@);
        assert(crate::json::members_view(es@) =~= seq![(k1@, a), (k2@, b)]);
    }
    Json::Object(es)
}

/// Payload object from five members.
pub fn object5(k1: &str, v1: Json, k2: &str, v2: Json, k3: &str, v3: Json, k4: &str, v4: Json, k5: &str, v5: Json) -> (r: Json)
    ensures
        r@ == JsonV::Object(seq![(k1@, v1@), (k2@, v2@), (k3@, v3@), (k4@, v4@), (k5@, v5@)]),
{
    let ghost a = v1@;
    let ghost b = v2@;
    let ghost c = v3@;
    let ghost d = v4@;
    let ghost e = v5@;
    let mut es: Vec<(String, Json)> = Vec::new();
    es.push(member(k1, v1));
    es.push(member(k2, v2));
    es.push(member(k3, v3));
    es.push(member(k4, v4));
    es.push(member(k5, v5));
    proof {
        crate::json::lemma_members_view(es@);
        assert(crate::json::members_view(es@) =~= seq![(k1@, a), (k2@, b), (k3@, c), (k4@, d), (k5@, e)]);
    }
    Json::Object(es)
}

/// Payload object from four members.
pub fn object4(k1: &str, v1: Json, k2: &str, v2: Json, k3: &str, v3: Json, k4: &str, v4: Json) -> (r: Json)
    ensures
        r@ == JsonV::Object(seq![(k1@, v1@), (k2@, v2@), (k3@, v3@), (k4@, v4@)]),
{
    let ghost a = v1@;
    let ghost b = v2@;
    let ghost c = v3@;
    let ghost d = v4@;
    let mut es: Vec<(String, Json)> = Vec::new();
    es.push(member(k1, v1));
    es.push(member(k2, v2));
    es.push(member(k3, v3));
    es.push(member(k4, v4));
    proof {
        crate::json::lemma_members_view(es@);
        assert(crate::json::members_view(es@) =~= seq![(k1@, a), (k2@, b), (k3@, c), (k4@, d)]);
    }
    Json::Object(es)
}

/// Payload object from three members.
pub fn object3(k1: &str, v1: Json, k2: &str, v2: Json, k3: &str, v3: Json) -> (r: Json)
    ensures
        r@ == JsonV::Object(seq![(k1@, v1@), (k2@, v2@), (k3@, v3@)]),
{
    let ghost a = v1@;
    let ghost b = v2@;
    let ghost c = v3@;
    let mut es: Vec<(String, Json)> = Vec::new();
    es.push(member(k1, v1));
    es.push(member(k2, v2));
    es.push(member(k3, v3));
    proof {
        crate::json::lemma_members_view(es@);
        assert(crate::json::members_view(es@) =~= seq![(k1@, a), (k2@, b), (k3@, c)]);
    }
    Json::Object(es)
}

/// Payload object with one member.
pub fn object1(k1: &str, v1: Json) -> (r: Json)
    ensures
        r@ == JsonV::Object(seq![(k1@, v1@)]),
{
    let ghost a = v1@;
    let mut es: Vec<(String, Json)> = Vec::new();
    es.push(member(k1, v1));
    proof {
        crate::json::lemma_members_view(es@);
        assert(crate::json::members_view(es@) =~= seq![(k1@, a)]);
    }
    Json::Object(es)
}

/// The memory tables.
pub struct MemoryStore {
    l0_rules: Vec<L0Rule>,
    l1_facts: Vec<L1Fact>,
    proposals: Vec<Proposal>,
    l2_bullets: Vec<L2Bullet>,
}

pub open spec fn l0_ids_unique(s: Seq<L0RuleV>) -> bool {
    forall|i: int, j: int| 0 <= i < j < s.len() ==> #[trigger] s[i].id != #[trigger] s[j].id
}

pub open spec fn l1_ids_unique(s: Seq<L1FactV>) -> bool {
    forall|i: int, j: int| 0 <= i < j < s.len() ==> #[trigger] s[i].id != #[trigger] s[j].id
}

pub open spec fn proposal_ids_unique(s: Seq<ProposalV>) -> bool {
    forall|i: int, j: int| 0 <= i < j < s.len() ==> #[trigger] s[i].id != #[trigger] s[j].id
}

pub open spec fn l2_ids_unique(s: Seq<L2BulletV>) -> bool {
    forall|i: int, j: int| 0 <= i < j < s.len() ==> #[trigger] s[i].id != #[trigger] s[j].id
}

/// The bullet names the proposal and carries its content.
pub open spec fn backed_by(b: L2BulletV, p: ProposalV) -> bool {
    b.proposal_id == Some(p.id) && b.content == p.content
}

/// Some proposal backs the bullet.
pub open spec fn has_backing(b: L2BulletV, proposals: Seq<ProposalV>) -> bool {
    exists|p: int| 0 <= p < proposals.len() && #[trigger] backed_by(b, proposals[p])
}

/// Every L2 bullet names a proposal with the same content.
pub open spec fn bullets_backed(l2: Seq<L2BulletV>, proposals: Seq<ProposalV>) -> bool {
    forall|b: int| 0 <= b < l2.len() ==> #[trigger] has_backing(l2[b], proposals)
}

/// Index of the not-yet-invalidated fact with id `id`.
pub open spec fn live_fact_index(l1: Seq<L1FactV>, id: Seq<char>) -> Option<int> {
    if exists|k: int| 0 <= k < l1.len() && l1[k].id == id && l1[k].invalid_at is None {
        Some(choose|k: int| 0 <= k < l1.len() && l1[k].id == id && l1[k].invalid_at is None)
    } else {
        None
    }
}

/// Index of the pending proposal with id `id`.
pub open spec fn pending_proposal_index(ps: Seq<ProposalV>, id: Seq<char>) -> Option<int> {
    if exists|k: int| 0 <= k < ps.len() && ps[k].id == id && ps[k].status == "pending"@ {
        Some(choose|k: int| 0 <= k < ps.len() && ps[k].id == id && ps[k].status == "pending"@)
    } else {
        None
    }
}

/// Index of the live fact with id `id`, as `live_fact_index`.
fn find_live_fact(facts: &Vec<L1Fact>, id: &str) -> (r: Option<usize>)
    requires
        l1_ids_unique(facts@.map_values(|x: L1Fact| x@)),
    ensures
        match r {
            Some(i) => i < facts@.len() && live_fact_index(facts@.map_values(|x: L1Fact| x@), id@) == Some(i as int),
            None => live_fact_index(facts@.map_values(|x: L1Fact| x@), id@) is None,
        },
{
    let ghost l1 = facts@.map_values(|x: L1Fact| x@);
    let mut i: usize = 0;
    while i < facts.len()
        invariant
            l1 == facts@.map_values(|x: L1Fact| x@),
            i <= facts@.len(),
            l1_ids_unique(l1),
            forall|j: int| 0 <= j < i ==> !(#[trigger] l1[j].id == id@ && l1[j].invalid_at is None),
        decreases facts@.len() - i,
    {
        proof { assert(l1[i as int] == facts@[i as int]@); }
        if str_eq(facts[i].id.as_str(), id) && facts[i].invalid_at.is_none() {
            proof {
                assert(l1[i as int].id == id@ && l1[i as int].invalid_at is None);
                let k = live_fact_index(l1, id@)->Some_0;
                if k != i as int {
                    if k < i as int {
                        assert(!(l1[k].id == id@ && l1[k].invalid_at is None));
                    } else {
                        assert(l1[i as int].id != l1[k].id);
                    }
                }
            }
            return Some(i);
        }
        i += 1;
    }
    None
}

/// Index of the pending proposal with id `id`, as `pending_proposal_index`.
fn find_pending(ps_vec: &Vec<Proposal>, id: &str) -> (r: Option<usize>)
    requires
        proposal_ids_unique(ps_vec@.map_values(|x: Proposal| x@)),
    ensures
        match r {
            Some(i) => i < ps_vec@.len() && pending_proposal_index(ps_vec@.map_values(|x: Proposal| x@), id@) == Some(i as int),
            None => pending_proposal_index(ps_vec@.map_values(|x: Proposal| x@), id@) is None,
        },
{
    let ghost ps = ps_vec@.map_values(|x: Proposal| x@);
    let mut i: usize = 0;
    while i < ps_vec.len()
        invariant
            ps == ps_vec@.map_values(|x: Proposal| x@),
            i <= ps_vec@.len(),
            proposal_ids_unique(ps),
            forall|j: int| 0 <= j < i ==> !(#[trigger] ps[j].id == id@ && ps[j].status == "pending"@),
        decreases ps_vec@.len() - i,
    {
        proof { assert(ps[i as int] == ps_vec@[i as int]@); }
        if str_eq(ps_vec[i].id.as_str(), id) && str_eq(ps_vec[i].status.as_str(), "pending") {
            proof {
                assert(ps[i as int].id == id@ && ps[i as int].status == "pending"@);
                let k = pending_proposal_index(ps, id@)->Some_0;
                if k != i as int {
                    if k < i as int {
                        assert(!(ps[k].id == id@ && ps[k].status == "pending"@));
                    } else {
                        assert(ps[i as int].id != ps[k].id);
                    }
                }
            }
            return Some(i);
        }
        i += 1;
    }
    None
}

impl MemoryStore {
    pub closed spec fn l0(&self) -> Seq<L0RuleV> {
        self.l0_rules@.map_values(|r: L0Rule| r@)
    }

    pub closed spec fn l1(&self) -> Seq<L1FactV> {
        self.l1_facts@.map_values(|r: L1Fact| r@)
    }

    pub closed spec fn proposals(&self) -> Seq<ProposalV> {
        self.proposals@.map_values(|r: Proposal| r@)
    }

    pub closed spec fn l2(&self) -> Seq<L2BulletV> {
        self.l2_bullets@.map_values(|r: L2Bullet| r@)
    }

    /// Well-formed: ids are unique per table (they are primary keys) and
    /// every L2 bullet is backed by a proposal with the same content.
    pub open spec fn wf(&self) -> bool {
        &&& l0_ids_unique(self.l0())
        &&& l1_ids_unique(self.l1())
        &&& proposal_ids_unique(self.proposals())
        &&& l2_ids_unique(self.l2())
        &&& bullets_backed(self.l2(), self.proposals())
    }

    pub fn new() -> (m: MemoryStore)
        ensures
            m.wf(),
            m.l0().len() == 0,
            m.l1().len() == 0,
            m.proposals().len() == 0,
            m.l2().len() == 0,
    {
        MemoryStore { l0_rules: Vec::new(), l1_facts: Vec::new(), proposals: Vec::new(), l2_bullets: Vec::new() }
    }

    /// Adds an enabled L0 rule with a fresh id. A fresh id that collides
    /// with an existing one is refused as the primary key would refuse it.
    #[verifier::loop_isolation(false)]
    pub fn add_l0_rule(&mut self, content: &str) -> (r: Result<L0Rule, CoreError>)
        requires
            old(self).wf(),
        ensures
            final(self).wf(),
            final(self).l1() == old(self).l1(),
            final(self).proposals() == old(self).proposals(),
            final(self).l2() == old(self).l2(),
            match r {
                Ok(rule) => {
                    &&& final(self).l0() == old(self).l0().push(rule@)
                    &&& rule@.content == content@
                    &&& rule@.enabled
                },
                Err(e) => e is Sqlite && final(self).l0() == old(self).l0() && old(self).l0().len() > 0,
            },
    {
        let id = new_uuid_v4();
        let mut i: usize = 0;
        while i < self.l0_rules.len()
            invariant
                i <= self.l0_rules@.len(),
                forall|j: int| 0 <= j < i ==> self.l0_rules@[j].id@ != id@,
            decreases self.l0_rules@.len() - i,
        {
            if self.l0_rules[i].id == id {
                return Err(CoreError::Sqlite("UNIQUE constraint failed: l0_rules.id".to_owned()));
            }
            i += 1;
        }
        let rule = L0Rule { id, content: content.to_owned(), enabled: true };
        let copy = rule.duplicate();
        let ghost before = self.l0();
        self.l0_rules.push(rule);
        proof {
            assert(self.l0() =~= before.push(copy@));
            assert forall|a: int, b: int| 0 <= a < b < self.l0().len() implies #[trigger] self.l0()[a].id != #[trigger] self.l0()[b].id by {
                if b == self.l0().len() - 1 {
                    assert(self.l0()[a] == self.l0_rules@[a]@);
                }
            }
        }
        Ok(copy)
    }

    /// All L0 rules, in insertion order.
    pub fn list_l0(&self) -> (r: Result<Vec<L0Rule>, CoreError>)
        ensures
            r matches Ok(v) && v@.map_values(|x: L0Rule| x@) == self.l0(),
    {
        let mut out: Vec<L0Rule> = Vec::new();
        let mut i: usize = 0;
        while i < self.l0_rules.len()
            invariant
                i <= self.l0_rules@.len(),
                out@.len() == i,
                forall|j: int| 0 <= j < i ==> (#[trigger] out@[j])@ == self.l0_rules@[j]@,
            decreases self.l0_rules@.len() - i,
        {
            out.push(self.l0_rules[i].duplicate());
            i += 1;
        }
        proof { assert(out@.map_values(|x: L0Rule| x@) =~= self.l0()); }
        Ok(out)
    }

    /// Prefixes the enabled L0 rules, verbatim, to a prompt, and journals
    /// exactly what was injected. Returns the combined prompt and the
    /// contents of the injected rules.
    pub fn inject_l0_into_prompt(&self, journal: &mut Journal, user_prompt: &str) -> (r: Result<(String, Vec<String>), CoreError>)
        requires
            old(journal).wf(),
        ensures
            final(journal).wf(),
            match r {
                Ok((prompt, texts)) => {
                    &&& prompt@ == injected_prompt(self.l0(), user_prompt@)
                    &&& views_of(texts@) == enabled_rules(self.l0()).map_values(|x: L0RuleV| x.content)
                    &&& appended(old(journal).events(), final(journal).events(), JournalKind::RulesInjected,
                        None, None, injection_payload(self.l0()))
                },
                Err(e) => e is Sqlite && final(journal).events() == old(journal).events(),
            },
            r is Err <==> old(journal).last_seq() >= i64::MAX,
    {
        let ghost l0 = self.l0();
        let ghost en = enabled_rules(l0);
        let mut blocks: Vec<String> = Vec::new();
        let mut ids: Vec<String> = Vec::new();
        let mut texts: Vec<String> = Vec::new();
        let mut i: usize = 0;
        while i < self.l0_rules.len()
            invariant
                l0 == self.l0(),
                i <= self.l0_rules@.len(),
                views_of(blocks@) == enabled_rules(l0.take(i as int)).map_values(|x: L0RuleV| rule_block(x.content)),
                views_of(ids@) == enabled_rules(l0.take(i as int)).map_values(|x: L0RuleV| x.id),
                views_of(texts@) == enabled_rules(l0.take(i as int)).map_values(|x: L0RuleV| x.content),
            decreases self.l0_rules@.len() - i,
        {
            proof {
                reveal(Seq::filter);
                assert(l0.take(i + 1).drop_last() =~= l0.take(i as int));
                assert(l0.take(i + 1).last() == self.l0_rules@[i as int]@);
            }
            let ghost eb = views_of(blocks@);
            let ghost ei = views_of(ids@);
            let ghost et = views_of(texts@);
            if self.l0_rules[i].enabled {
                blocks.push(join2("[L0 RULE]\n", self.l0_rules[i].content.as_str()));
                ids.push(self.l0_rules[i].id.clone());
                texts.push(self.l0_rules[i].content.clone());
                proof {
                    assert(views_of(blocks@) =~= eb.push(rule_block(self.l0_rules@[i as int].content@)));
                    assert(views_of(ids@) =~= ei.push(self.l0_rules@[i as int].id@));
                    assert(views_of(texts@) =~= et.push(self.l0_rules@[i as int].content@));
                }
            }
            i += 1;
        }
        proof { assert(l0.take(i as int) =~= l0); }
        let combined = if blocks.len() == 0 {
            user_prompt.to_owned()
        } else {
            let mut c = join_with(&blocks, "\n\n");
            c.append("\n\n");
            c.append(user_prompt);
            c
        };
        let payload = object2("rule_ids", json_string_array(&ids), "injected_text", json_string_array(&blocks));
        match journal.record(JournalKind::RulesInjected, None, None, payload) {
            Ok(()) => {},
            Err(e) => {
                return Err(e);
            },
        }
        Ok((combined, texts))
    }

    /// Adds a live L1 fact with a fresh id.
    #[verifier::loop_isolation(false)]
    pub fn add_l1_fact(&mut self, content: &str, source: Option<&str>) -> (r: Result<L1Fact, CoreError>)
        requires
            old(self).wf(),
        ensures
            final(self).wf(),
            final(self).l0() == old(self).l0(),
            final(self).proposals() == old(self).proposals(),
            final(self).l2() == old(self).l2(),
            match r {
                Ok(f) => {
                    &&& final(self).l1() == old(self).l1().push(f@)
                    &&& f@.content == content@
                    &&& f@.source == opt_str_ref_view(source)
                    &&& f@.invalid_at is None
                },
                Err(e) => e is Sqlite && final(self).l1() == old(self).l1() && old(self).l1().len() > 0,
            },
    {
        let id = new_uuid_v4();
        let mut i: usize = 0;
        while i < self.l1_facts.len()
            invariant
                i <= self.l1_facts@.len(),
                forall|j: int| 0 <= j < i ==> self.l1_facts@[j].id@ != id@,
            decreases self.l1_facts@.len() - i,
        {
            if self.l1_facts[i].id == id {
                return Err(CoreError::Sqlite("UNIQUE constraint failed: l1_facts_mock.id".to_owned()));
            }
            i += 1;
        }
        let fact = L1Fact { id, content: content.to_owned(), source: owned_opt_str(source), invalid_at: None };
        let copy = fact.duplicate();
        let ghost before = self.l1();
        self.l1_facts.push(fact);
        proof {
            assert(self.l1() =~= before.push(copy@));
            assert forall|a: int, b: int| 0 <= a < b < self.l1().len() implies #[trigger] self.l1()[a].id != #[trigger] self.l1()[b].id by {
                if b == self.l1().len() - 1 {
                    assert(self.l1()[a] == self.l1_facts@[a]@);
                }
            }
        }
        Ok(copy)
    }

    /// Soft-invalidates a live L1 fact: the row stays, only `invalid_at`
    /// is stamped. Unknown or already invalidated ids are `NotFound`.
    pub fn invalidate_l1(&mut self, journal: &mut Journal, id: &str) -> (r: Result<(), CoreError>)
        requires
            old(self).wf(),
            old(journal).wf(),
        ensures
            final(self).wf(),
            final(journal).wf(),
            final(self).l0() == old(self).l0(),
            final(self).proposals() == old(self).proposals(),
            final(self).l2() == old(self).l2(),
            final(self).l1().len() == old(self).l1().len(),
            match live_fact_index(old(self).l1(), id@) {
                None => {
                    &&& r matches Err(CoreError::NotFound(m)) && m@ == "l1 fact "@ + id@
                    &&& final(self).l1() == old(self).l1()
                    &&& final(journal).events() == old(journal).events()
                },
                Some(k) => {
                    &&& final(self).l1()[k].id == old(self).l1()[k].id
                    &&& final(self).l1()[k].content == old(self).l1()[k].content
                    &&& final(self).l1()[k].source == old(self).l1()[k].source
                    &&& final(self).l1()[k].invalid_at is Some
                    &&& forall|j: int| 0 <= j < old(self).l1().len() && j != k ==> #[trigger] final(self).l1()[j] == old(self).l1()[j]
                    &&& (r is Ok <==> old(journal).last_seq() < i64::MAX)
                    &&& (r is Ok ==> appended(old(journal).events(), final(journal).events(), JournalKind::MemoryInvalidated,
                        None, None, invalidation_json(id@, final(self).l1()[k].invalid_at->0)))
                    &&& (r matches Err(e) ==> e is Sqlite && final(journal).events() == old(journal).events())
                },
            },
    {
        let ghost l1 = self.l1();
        let i = match find_live_fact(&self.l1_facts, id) {
            Some(i) => i,
            None => {
                return Err(CoreError::NotFound(join2("l1 fact ", id)));
            },
        };
        let now = now_rfc3339();
        let old_fact = self.l1_facts[i].duplicate();
        let fact = L1Fact { id: old_fact.id, content: old_fact.content, source: old_fact.source, invalid_at: Some(now.clone()) };
        self.l1_facts.set(i, fact);
        proof {
            assert forall|a: int, b: int| 0 <= a < b < self.l1().len() implies #[trigger] self.l1()[a].id != #[trigger] self.l1()[b].id by {
                assert(self.l1()[a].id == l1[a].id);
                assert(self.l1()[b].id == l1[b].id);
            }
            assert forall|j: int| 0 <= j < l1.len() && j != i as int implies #[trigger] self.l1()[j] == l1[j] by {}
        }
        let payload = object2("fact_id", Json::text(id), "invalid_at", Json::Str(now));
        journal.record(JournalKind::MemoryInvalidated, None, None, payload)
    }

    /// L1 facts in insertion order; without `include_invalid`, only live ones.
    pub fn list_l1(&self, include_invalid: bool) -> (r: Result<Vec<L1Fact>, CoreError>)
        ensures
            r matches Ok(v) && v@.map_values(|x: L1Fact| x@) == if include_invalid {
                self.l1()
            } else {
                self.l1().filter(|f: L1FactV| f.invalid_at is None)
            },
    {
        let ghost l1 = self.l1();
        let mut out: Vec<L1Fact> = Vec::new();
        let mut i: usize = 0;
        while i < self.l1_facts.len()
            invariant
                l1 == self.l1(),
                i <= self.l1_facts@.len(),
                out@.map_values(|x: L1Fact| x@) == if include_invalid {
                    l1.take(i as int)
                } else {
                    l1.take(i as int).filter(|f: L1FactV| f.invalid_at is None)
                },
            decreases self.l1_facts@.len() - i,
        {
            proof {
                reveal(Seq::filter);
                assert(l1.take(i + 1).drop_last() =~= l1.take(i as int));
                assert(l1.take(i + 1).last() == self.l1_facts@[i as int]@);
            }
            let ghost prev = out@.map_values(|x: L1Fact| x@);
            if include_invalid || self.l1_facts[i].invalid_at.is_none() {
                out.push(self.l1_facts[i].duplicate());
                proof {
                    assert(out@.map_values(|x: L1Fact| x@) =~= prev.push(self.l1_facts@[i as int]@));
                    assert(l1.take(i + 1) =~= l1.take(i as int).push(self.l1_facts@[i as int]@));
                }
            }
            i += 1;
        }
        proof { assert(l1.take(i as int) =~= l1); }
        Ok(out)
    }

    /// Files a pending proposal with a fresh id and journals it.
    #[verifier::loop_isolation(false)]
    pub fn create_proposal(&mut self, journal: &mut Journal, kind: &str, content: &str) -> (r: Result<Proposal, CoreError>)
        requires
            old(self).wf(),
            old(journal).wf(),
        ensures
            final(self).wf(),
            final(journal).wf(),
            final(self).l0() == old(self).l0(),
            final(self).l1() == old(self).l1(),
            final(self).l2() == old(self).l2(),
            r matches Ok(p) ==> {
                &&& final(self).proposals() == old(self).proposals().push(p@)
                &&& p@.kind == kind@
                &&& p@.content == content@
                &&& p@.status == "pending"@
                &&& forall|q: int| 0 <= q < old(self).proposals().len() ==> #[trigger] old(self).proposals()[q].id != p@.id
                &&& appended(old(journal).events(), final(journal).events(), JournalKind::ProposalCreated, None, None,
                    proposal_created_json(p@))
            },
            r matches Err(e) ==> {
                &&& e is Sqlite
                &&& final(journal).events() == old(journal).events()
                // The fresh id was already taken: nothing is written.
                &&& (final(self).proposals() == old(self).proposals() && old(self).proposals().len() > 0)
                // The journal is full: the row stays, unjournaled.
                || (old(journal).last_seq() >= i64::MAX && exists|p: ProposalV|
                    final(self).proposals() == old(self).proposals().push(p) && p.kind == kind@
                    && p.content == content@ && p.status == "pending"@)
            },
            old(self).proposals().len() == 0 && old(journal).last_seq() < i64::MAX ==> r is Ok,
    {
        let id = new_uuid_v4();
        let mut i: usize = 0;
        while i < self.proposals.len()
            invariant
                i <= self.proposals@.len(),
                forall|j: int| 0 <= j < i ==> self.proposals@[j].id@ != id@,
            decreases self.proposals@.len() - i,
        {
            if self.proposals[i].id == id {
                return Err(CoreError::Sqlite("UNIQUE constraint failed: proposals.id".to_owned()));
            }
            i += 1;
        }
        let p = Proposal { id, kind: kind.to_owned(), content: content.to_owned(), status: "pending".to_owned() };
        let copy = p.duplicate();
        let ghost before = self.proposals();
        self.proposals.push(p);
        proof {
            assert(self.proposals() =~= before.push(copy@));
            assert forall|a: int, b: int| 0 <= a < b < self.proposals().len() implies #[trigger] self.proposals()[a].id
                != #[trigger] self.proposals()[b].id by {
                if b == self.proposals().len() - 1 {
                    assert(self.proposals()[a] == self.proposals@[a]@);
                }
            }
            let ghost l2n = self.l2();
            let ghost psn = self.proposals();
            assert(l2n == old(self).l2());
            assert forall|b: int| 0 <= b < l2n.len() implies #[trigger] has_backing(l2n[b], psn) by {
                assert(has_backing(old(self).l2()[b], before));
                let q = choose|q: int| 0 <= q < before.len() && #[trigger] backed_by(old(self).l2()[b], before[q]);
                assert(psn[q] == before[q]);
                assert(backed_by(l2n[b], psn[q]));
            }
            assert(bullets_backed(l2n, psn));
        }
        let payload = object3("proposal_id", Json::text(copy.id.as_str()), "kind", Json::text(kind), "content", Json::text(content));
        match journal.record(JournalKind::ProposalCreated, None, None, payload) {
            Ok(()) => Ok(copy),
            Err(e) => Err(e),
        }
    }

    /// Approves a pending proposal, its L2 bullet taking the id `bullet_id`:
    /// the proposal becomes `approved` and its content lands in L2 as a new
    /// bullet, journaled as `proposal_approved`. Anything but a pending
    /// proposal is refused; an id already in L2 is refused as a duplicate.
    #[verifier::loop_isolation(false)]
    pub fn approve_proposal_as(&mut self, journal: &mut Journal, id: &str, bullet_id: &str) -> (r: Result<L2Bullet, CoreError>)
        requires
            old(self).wf(),
            old(journal).wf(),
        ensures
            final(self).wf(),
            final(journal).wf(),
            final(self).l0() == old(self).l0(),
            final(self).l1() == old(self).l1(),
            match pending_proposal_index(old(self).proposals(), id@) {
                None => {
                    &&& r matches Err(CoreError::Sqlite(m)) && m@ == "Query returned no rows"@
                    &&& final(self).proposals() == old(self).proposals()
                    &&& final(self).l2() == old(self).l2()
                    &&& final(journal).events() == old(journal).events()
                },
                Some(k) => {
                    let b = L2BulletV { id: bullet_id@, proposal_id: Some(id@), content: old(self).proposals()[k].content };
                    &&& final(self).proposals() == old(self).proposals().update(k, ProposalV {
                        status: "approved"@,
                        ..old(self).proposals()[k]
                    })
                    &&& l2_has_id(old(self).l2(), bullet_id@) ==> {
                        &&& r matches Err(CoreError::Sqlite(m)) && m@ == "UNIQUE constraint failed: l2_bullets.id"@
                        &&& final(self).l2() == old(self).l2()
                        &&& final(journal).events() == old(journal).events()
                    }
                    &&& !l2_has_id(old(self).l2(), bullet_id@) ==> {
                        &&& final(self).l2() == old(self).l2().push(b)
                        &&& (r is Ok <==> old(journal).last_seq() < i64::MAX)
                        &&& (r matches Ok(x) ==> x@ == b && appended(old(journal).events(), final(journal).events(),
                            JournalKind::ProposalApproved, None, None, approval_json(id@, bullet_id@)))
                        &&& (r matches Err(e) ==> e is Sqlite && final(journal).events() == old(journal).events())
                    }
                },
            },
    {
        let ghost ps = self.proposals();
        let i = match find_pending(&self.proposals, id) {
            Some(i) => i,
            None => {
                return Err(CoreError::Sqlite("Query returned no rows".to_owned()));
            },
        };
        let content = self.proposals[i].content.clone();
        let old_p = self.proposals[i].duplicate();
        let updated = Proposal { id: old_p.id, kind: old_p.kind, content: old_p.content, status: "approved".to_owned() };
        self.proposals.set(i, updated);
        let ghost l2 = self.l2();
        proof {
            assert(self.proposals() =~= ps.update(i as int, ProposalV { status: "approved"@, ..ps[i as int] }));
            assert forall|a: int, b: int| 0 <= a < b < self.proposals().len() implies #[trigger] self.proposals()[a].id
                != #[trigger] self.proposals()[b].id by {
                assert(self.proposals()[a].id == ps[a].id);
                assert(self.proposals()[b].id == ps[b].id);
            }
            assert forall|b: int| 0 <= b < self.l2().len() implies #[trigger] has_backing(self.l2()[b], self.proposals()) by {
                assert(self.l2()[b] == old(self).l2()[b]);
                assert(has_backing(old(self).l2()[b], ps));
                let q = choose|q: int| 0 <= q < ps.len() && #[trigger] backed_by(old(self).l2()[b], ps[q]);
                assert(self.proposals()[q].id == ps[q].id);
                assert(self.proposals()[q].content == ps[q].content);
                assert(backed_by(self.l2()[b], self.proposals()[q]));
            }
        }
        let bullet_id = bullet_id.to_owned();
        let mut j: usize = 0;
        while j < self.l2_bullets.len()
            invariant
                j <= self.l2_bullets@.len(),
                forall|q: int| 0 <= q < j ==> self.l2_bullets@[q].id@ != bullet_id@,
            decreases self.l2_bullets@.len() - j,
        {
            if self.l2_bullets[j].id == bullet_id {
                proof { assert(self.l2()[j as int].id == self.l2_bullets@[j as int].id@); }
                return Err(CoreError::Sqlite("UNIQUE constraint failed: l2_bullets.id".to_owned()));
            }
            j += 1;
        }
        let bullet = L2Bullet { id: bullet_id, proposal_id: Some(id.to_owned()), content };
        let copy = bullet.duplicate();
        self.l2_bullets.push(bullet);
        proof {
            assert(self.l2() =~= l2.push(copy@));
            assert forall|a: int, b: int| 0 <= a < b < self.l2().len() implies #[trigger] self.l2()[a].id != #[trigger] self.l2()[b].id by {
                if b == self.l2().len() - 1 {
                    assert(self.l2()[a] == self.l2_bullets@[a]@);
                }
            }
            assert forall|b: int| 0 <= b < self.l2().len() implies #[trigger] has_backing(self.l2()[b], self.proposals()) by {
                if b == self.l2().len() - 1 {
                    assert(self.proposals()[i as int].id == id@);
                    assert(self.proposals()[i as int].content == ps[i as int].content);
                    assert(backed_by(self.l2()[b], self.proposals()[i as int]));
                } else {
                    assert(self.l2()[b] == l2[b]);
                    assert(has_backing(l2[b], self.proposals()));
                }
            }
        }
        let payload = object2("proposal_id", Json::text(id), "l2_id", Json::text(copy.id.as_str()));
        match journal.record(JournalKind::ProposalApproved, None, None, payload) {
            Ok(()) => Ok(copy),
            Err(e) => Err(e),
        }
    }

    /// Approves a pending proposal: it becomes `approved` and its content
    /// lands in L2 as a new bullet with a fresh id. Anything but a pending
    /// proposal is refused.
    pub fn approve_proposal(&mut self, journal: &mut Journal, id: &str) -> (r: Result<L2Bullet, CoreError>)
        requires
            old(self).wf(),
            old(journal).wf(),
        ensures
            final(self).wf(),
            final(journal).wf(),
            final(self).l0() == old(self).l0(),
            final(self).l1() == old(self).l1(),
            match pending_proposal_index(old(self).proposals(), id@) {
                None => {
                    &&& r matches Err(e) && e is Sqlite
                    &&& final(self).proposals() == old(self).proposals()
                    &&& final(self).l2() == old(self).l2()
                    &&& final(journal).events() == old(journal).events()
                },
                Some(k) => {
                    &&& final(self).proposals() == old(self).proposals().update(k, ProposalV {
                        status: "approved"@,
                        ..old(self).proposals()[k]
                    })
                    &&& r matches Ok(b) ==> {
                        &&& final(self).l2() == old(self).l2().push(b@)
                        &&& b@.proposal_id == Some(id@)
                        &&& b@.content == old(self).proposals()[k].content
                        &&& !l2_has_id(old(self).l2(), b@.id)
                        &&& appended(old(journal).events(), final(journal).events(),
                            JournalKind::ProposalApproved, None, None, approval_json(id@, b@.id))
                    }
                    &&& r matches Err(e) ==> {
                        &&& e is Sqlite
                        &&& final(journal).events() == old(journal).events()
                        // The fresh id was already in L2: no bullet is added.
                        &&& (final(self).l2() == old(self).l2() && old(self).l2().len() > 0)
                        // The journal is full: the bullet stays, unjournaled.
                        || (old(journal).last_seq() >= i64::MAX && exists|b: L2BulletV|
                            final(self).l2() == old(self).l2().push(b) && b.proposal_id == Some(id@)
                            && b.content == old(self).proposals()[k].content)
                    }
                    &&& old(self).l2().len() == 0 && old(journal).last_seq() < i64::MAX ==> r is Ok
                },
            },
    {
        let bullet_id = new_uuid_v4();
        self.approve_proposal_as(journal, id, bullet_id.as_str())
    }

    /// Marks the proposal with id `id` (if any) as rejected and journals it.
    pub fn reject_proposal(&mut self, journal: &mut Journal, id: &str) -> (r: Result<(), CoreError>)
        requires
            old(self).wf(),
            old(journal).wf(),
        ensures
            final(self).wf(),
            final(journal).wf(),
            final(self).l0() == old(self).l0(),
            final(self).l1() == old(self).l1(),
            final(self).l2() == old(self).l2(),
            final(self).proposals().len() == old(self).proposals().len(),
            forall|k: int| 0 <= k < old(self).proposals().len() ==> #[trigger] final(self).proposals()[k] == if old(self).proposals()[k].id == id@ {
                ProposalV { status: "rejected"@, ..old(self).proposals()[k] }
            } else {
                old(self).proposals()[k]
            },
            r is Ok <==> old(journal).last_seq() < i64::MAX,
            r is Ok ==> appended(old(journal).events(), final(journal).events(), JournalKind::ProposalRejected,
                None, None, JsonV::Object(seq![("proposal_id"@, JsonV::Str(id@))])),
            r matches Err(e) ==> e is Sqlite && final(journal).events() == old(journal).events(),
    {
        let ghost ps = self.proposals();
        let mut i: usize = 0;
        while i < self.proposals.len()
            invariant
                ps == old(self).proposals(),
                self.l0() == old(self).l0(),
                self.l1() == old(self).l1(),
                self.l2() == old(self).l2(),
                self.wf(),
                self.proposals@.len() == ps.len(),
                i <= ps.len(),
                forall|k: int| 0 <= k < ps.len() ==> #[trigger] self.proposals()[k] == if k < i && ps[k].id == id@ {
                    ProposalV { status: "rejected"@, ..ps[k] }
                } else {
                    ps[k]
                },
            decreases ps.len() - i,
        {
            proof { assert(self.proposals()[i as int] == self.proposals@[i as int]@); }
            if str_eq(self.proposals[i].id.as_str(), id) {
                let ghost before = self.proposals();
                let ghost l2b = self.l2();
                let old_p = self.proposals[i].duplicate();
                let updated = Proposal { id: old_p.id, kind: old_p.kind, content: old_p.content, status: "rejected".to_owned() };
                self.proposals.set(i, updated);
                proof {
                    assert(self.proposals() =~= before.update(i as int, ProposalV { status: "rejected"@, ..before[i as int] }));
                    assert forall|a: int, b: int| 0 <= a < b < self.proposals().len() implies #[trigger] self.proposals()[a].id
                        != #[trigger] self.proposals()[b].id by {
                        assert(self.proposals()[a].id == before[a].id);
                        assert(self.proposals()[b].id == before[b].id);
                    }
                    assert forall|b: int| 0 <= b < self.l2().len() implies #[trigger] has_backing(self.l2()[b], self.proposals()) by {
                        assert(self.l2()[b] == l2b[b]);
                        assert(has_backing(l2b[b], before));
                        let q = choose|q: int| 0 <= q < before.len() && #[trigger] backed_by(l2b[b], before[q]);
                        assert(self.proposals()[q].id == before[q].id);
                        assert(self.proposals()[q].content == before[q].content);
                        assert(backed_by(self.l2()[b], self.proposals()[q]));
                    }
                }
            }
            i += 1;
        }
        let payload = object1("proposal_id", Json::text(id));
        journal.record(JournalKind::ProposalRejected, None, None, payload)
    }

    /// Proposals in insertion order, only those with the given status when one is given.
    pub fn list_proposals(&self, status: Option<&str>) -> (r: Result<Vec<Proposal>, CoreError>)
        ensures
            r matches Ok(v) && v@.map_values(|x: Proposal| x@) == match status {
                Some(st) => self.proposals().filter(|p: ProposalV| p.status == st@),
                None => self.proposals(),
            },
    {
        let ghost ps = self.proposals();
        let mut out: Vec<Proposal> = Vec::new();
        let mut i: usize = 0;
        while i < self.proposals.len()
            invariant
                ps == self.proposals(),
                i <= self.proposals@.len(),
                out@.map_values(|x: Proposal| x@) == match status {
                    Some(st) => ps.take(i as int).filter(|p: ProposalV| p.status == st@),
                    None => ps.take(i as int),
                },
            decreases self.proposals@.len() - i,
        {
            proof {
                reveal(Seq::filter);
                assert(ps.take(i + 1).drop_last() =~= ps.take(i as int));
                assert(ps.take(i + 1).last() == self.proposals@[i as int]@);
            }
            let ghost prev = out@.map_values(|x: Proposal| x@);
            let keep = match status {
                Some(st) => str_eq(self.proposals[i].status.as_str(), st),
                None => true,
            };
            if keep {
                out.push(self.proposals[i].duplicate());
                proof {
                    assert(out@.map_values(|x: Proposal| x@) =~= prev.push(self.proposals@[i as int]@));
                    assert(ps.take(i + 1) =~= ps.take(i as int).push(self.proposals@[i as int]@));
                }
            }
            i += 1;
        }
        proof { assert(ps.take(i as int) =~= ps); }
        Ok(out)
    }

    /// All L2 bullets, in insertion order.
    pub fn list_l2(&self) -> (r: Result<Vec<L2Bullet>, CoreError>)
        ensures
            r matches Ok(v) && v@.map_values(|x: L2Bullet| x@) == self.l2(),
    {
        let mut out: Vec<L2Bullet> = Vec::new();
        let mut i: usize = 0;
        while i < self.l2_bullets.len()
            invariant
                i <= self.l2_bullets@.len(),
                out@.len() == i,
                forall|j: int| 0 <= j < i ==> (#[trigger] out@[j])@ == self.l2_bullets@[j]@,
            decreases self.l2_bullets@.len() - i,
        {
            out.push(self.l2_bullets[i].duplicate());
            i += 1;
        }
        proof { assert(out@.map_values(|x: L2Bullet| x@) =~= self.l2()); }
        Ok(out)
    }
}

/// Every L2 bullet comes from a proposal with the same content: content
/// only reaches L2 through a proposal.
pub proof fn lemma_l2_backed_by_proposals(m: MemoryStore)
    requires
        m.wf(),
    ensures
        bullets_backed(m.l2(), m.proposals()),
{
}

/// Every enabled rule's content occurs verbatim in the injected prompt.
pub proof fn lemma_enabled_rules_injected_verbatim(l0: Seq<L0RuleV>, user_prompt: Seq<char>, k: int)
    requires
        0 <= k < enabled_rules(l0).len(),
    ensures
        exists|off: int| 0 <= off && off + enabled_rules(l0)[k].content.len() <= injected_prompt(l0, user_prompt).len()
            && #[trigger] injected_prompt(l0, user_prompt).subrange(off, off + enabled_rules(l0)[k].content.len())
            == enabled_rules(l0)[k].content,
{
    let bs = rule_blocks(l0);
    let c = enabled_rules(l0)[k].content;
    assert(bs[k] == rule_block(c));
    lemma_join_contains(bs, "\n\n"@, k);
    let j = join_seqs(bs, "\n\n"@);
    let off = choose|off: int| 0 <= off && off + bs[k].len() <= j.len() && #[trigger] j.subrange(off, off + bs[k].len()) == bs[k];
    let pre = "[L0 RULE]\n"@;
    let p = injected_prompt(l0, user_prompt);
    assert(bs.len() > 0);
    assert(p == j + "\n\n"@ + user_prompt);
    let o2 = off + pre.len();
    assert(p.subrange(o2, o2 + c.len()) =~= bs[k].subrange(pre.len() as int, bs[k].len() as int)) by {
        assert(j.subrange(off, off + bs[k].len()) == bs[k]);
        assert forall|t: int| 0 <= t < c.len() implies p.subrange(o2, o2 + c.len())[t] == bs[k].subrange(pre.len() as int, bs[k].len() as int)[t] by {
            assert(p[o2 + t] == j[o2 + t]);
            assert(j[off + pre.len() + t] == j.subrange(off, off + bs[k].len())[pre.len() + t]);
        }
    }
    assert(bs[k].subrange(pre.len() as int, bs[k].len() as int) =~= c);
}

/// A JSON string, or null.
pub open spec fn json_opt_text(o: Option<Seq<char>>) -> JsonV {
    match o {
        Some(s) => JsonV::Str(s),
        None => JsonV::Null,
    }
}

fn opt_text_json(o: &Option<String>) -> (r: Json)
    ensures
        r@ == json_opt_text(crate::journal::opt_view(*o)),
{
    match o {
        Some(s) => Json::text(s.as_str()),
        None => Json::Null,
    }
}

/// The JSON form of an L0 rule: its fields by name.
pub open spec fn l0_json(r: L0RuleV) -> JsonV {
    JsonV::Object(seq![("id"@, JsonV::Str(r.id)), ("content"@, JsonV::Str(r.content)), ("enabled"@, JsonV::Bool(r.enabled))])
}

/// The JSON form of an L1 fact: its fields by name.
pub open spec fn l1_json(f: L1FactV) -> JsonV {
    JsonV::Object(seq![
        ("id"@, JsonV::Str(f.id)),
        ("content"@, JsonV::Str(f.content)),
        ("source"@, json_opt_text(f.source)),
        ("invalid_at"@, json_opt_text(f.invalid_at)),
    ])
}

/// The JSON form of a proposal: its fields by name.
pub open spec fn proposal_json(p: ProposalV) -> JsonV {
    JsonV::Object(seq![
        ("id"@, JsonV::Str(p.id)),
        ("kind"@, JsonV::Str(p.kind)),
        ("content"@, JsonV::Str(p.content)),
        ("status"@, JsonV::Str(p.status)),
    ])
}

/// The payload journaled when a proposal is filed.
pub open spec fn proposal_created_json(p: ProposalV) -> JsonV {
    JsonV::Object(seq![
        ("proposal_id"@, JsonV::Str(p.id)),
        ("kind"@, JsonV::Str(p.kind)),
        ("content"@, JsonV::Str(p.content)),
    ])
}

/// The payload journaled when an L1 fact is invalidated at `invalid_at`.
pub open spec fn invalidation_json(fact_id: Seq<char>, invalid_at: Seq<char>) -> JsonV {
    JsonV::Object(seq![("fact_id"@, JsonV::Str(fact_id)), ("invalid_at"@, JsonV::Str(invalid_at))])
}

/// Whether some L2 bullet has this id.
pub open spec fn l2_has_id(l2: Seq<L2BulletV>, id: Seq<char>) -> bool {
    exists|q: int| 0 <= q < l2.len() && #[trigger] l2[q].id == id
}

/// The payload journaled when a proposal is approved.
pub open spec fn approval_json(proposal_id: Seq<char>, l2_id: Seq<char>) -> JsonV {
    JsonV::Object(seq![("proposal_id"@, JsonV::Str(proposal_id)), ("l2_id"@, JsonV::Str(l2_id))])
}

/// The JSON form of an L2 bullet: its fields by name.
pub open spec fn l2_json(b: L2BulletV) -> JsonV {
    JsonV::Object(seq![
        ("id"@, JsonV::Str(b.id)),
        ("proposal_id"@, json_opt_text(b.proposal_id)),
        ("content"@, JsonV::Str(b.content)),
    ])
}

impl L0Rule {
    pub fn to_json(&self) -> (r: Json)
        ensures
            r@ == l0_json(self@),
    {
        object3("id", Json::text(self.id.as_str()), "content", Json::text(self.content.as_str()), "enabled",
            Json::Bool(self.enabled))
    }
}

impl L1Fact {
    pub fn to_json(&self) -> (r: Json)
        ensures
            r@ == l1_json(self@),
    {
        object4("id", Json::text(self.id.as_str()), "content", Json::text(self.content.as_str()), "source",
            opt_text_json(&self.source), "invalid_at", opt_text_json(&self.invalid_at))
    }
}

impl Proposal {
    pub fn to_json(&self) -> (r: Json)
        ensures
            r@ == proposal_json(self@),
    {
        object4("id", Json::text(self.id.as_str()), "kind", Json::text(self.kind.as_str()), "content",
            Json::text(self.content.as_str()), "status", Json::text(self.status.as_str()))
    }
}

impl L2Bullet {
    pub fn to_json(&self) -> (r: Json)
        ensures
            r@ == l2_json(self@),
    {
        object3("id", Json::text(self.id.as_str()), "proposal_id", opt_text_json(&self.proposal_id), "content",
            Json::text(self.content.as_str()))
    }
}

/// Whether the strings are pairwise distinct.
fn distinct_strings(v: &Vec<String>) -> (b: bool)
    ensures
        b == (forall|i: int, j: int| 0 <= i < j < v@.len() ==> #[trigger] v@[i]@ != #[trigger] v@[j]@),
{
    let mut i: usize = 0;
    while i < v.len()
        invariant
            i <= v@.len(),
            forall|a: int, c: int| 0 <= a < c < v@.len() && a < i ==> #[trigger] v@[a]@ != #[trigger] v@[c]@,
        decreases v@.len() - i,
    {
        let mut j: usize = i + 1;
        while j < v.len()
            invariant
                i < v@.len(),
                i + 1 <= j <= v@.len(),
                forall|a: int, c: int| 0 <= a < c < v@.len() && a < i ==> #[trigger] v@[a]@ != #[trigger] v@[c]@,
                forall|c: int| i < c < j ==> v@[i as int]@ != #[trigger] v@[c]@,
            decreases v@.len() - j,
        {
            if str_eq(v[i].as_str(), v[j].as_str()) {
                return false;
            }
            j += 1;
        }
        i += 1;
    }
    true
}

fn l0_id_list(v: &Vec<L0Rule>) -> (r: Vec<String>)
    ensures
        views_of(r@) == v@.map_values(|x: L0Rule| x@.id),
{
    let mut out: Vec<String> = Vec::new();
    let mut i: usize = 0;
    while i < v.len()
        invariant
            i <= v@.len(),
            views_of(out@) == v@.take(i as int).map_values(|x: L0Rule| x@.id),
        decreases v@.len() - i,
    {
        let ghost prev = views_of(out@);
        out.push(v[i].id.clone());
        proof {
            assert(views_of(out@) =~= prev.push(v@[i as int]@.id));
            assert(v@.take(i + 1).map_values(|x: L0Rule| x@.id) =~= v@.take(i as int).map_values(|x: L0Rule| x@.id).push(v@[i as int]@.id));
        }
        i += 1;
    }
    proof { assert(v@.take(i as int) =~= v@); }
    out
}

fn l1_id_list(v: &Vec<L1Fact>) -> (r: Vec<String>)
    ensures
        views_of(r@) == v@.map_values(|x: L1Fact| x@.id),
{
    let mut out: Vec<String> = Vec::new();
    let mut i: usize = 0;
    while i < v.len()
        invariant
            i <= v@.len(),
            views_of(out@) == v@.take(i as int).map_values(|x: L1Fact| x@.id),
        decreases v@.len() - i,
    {
        let ghost prev = views_of(out@);
        out.push(v[i].id.clone());
        proof {
            assert(views_of(out@) =~= prev.push(v@[i as int]@.id));
            assert(v@.take(i + 1).map_values(|x: L1Fact| x@.id) =~= v@.take(i as int).map_values(|x: L1Fact| x@.id).push(v@[i as int]@.id));
        }
        i += 1;
    }
    proof { assert(v@.take(i as int) =~= v@); }
    out
}

fn proposal_id_list(v: &Vec<Proposal>) -> (r: Vec<String>)
    ensures
        views_of(r@) == v@.map_values(|x: Proposal| x@.id),
{
    let mut out: Vec<String> = Vec::new();
    let mut i: usize = 0;
    while i < v.len()
        invariant
            i <= v@.len(),
            views_of(out@) == v@.take(i as int).map_values(|x: Proposal| x@.id),
        decreases v@.len() - i,
    {
        let ghost prev = views_of(out@);
        out.push(v[i].id.clone());
        proof {
            assert(views_of(out@) =~= prev.push(v@[i as int]@.id));
            assert(v@.take(i + 1).map_values(|x: Proposal| x@.id) =~= v@.take(i as int).map_values(|x: Proposal| x@.id).push(v@[i as int]@.id));
        }
        i += 1;
    }
    proof { assert(v@.take(i as int) =~= v@); }
    out
}

fn l2_id_list(v: &Vec<L2Bullet>) -> (r: Vec<String>)
    ensures
        views_of(r@) == v@.map_values(|x: L2Bullet| x@.id),
{
    let mut out: Vec<String> = Vec::new();
    let mut i: usize = 0;
    while i < v.len()
        invariant
            i <= v@.len(),
            views_of(out@) == v@.take(i as int).map_values(|x: L2Bullet| x@.id),
        decreases v@.len() - i,
    {
        let ghost prev = views_of(out@);
        out.push(v[i].id.clone());
        proof {
            assert(views_of(out@) =~= prev.push(v@[i as int]@.id));
            assert(v@.take(i + 1).map_values(|x: L2Bullet| x@.id) =~= v@.take(i as int).map_values(|x: L2Bullet| x@.id).push(v@[i as int]@.id));
        }
        i += 1;
    }
    proof { assert(v@.take(i as int) =~= v@); }
    out
}

/// Whether some proposal backs the bullet.
fn backing_exists(b: &L2Bullet, ps: &Vec<Proposal>) -> (r: bool)
    ensures
        r == has_backing(b@, ps@.map_values(|x: Proposal| x@)),
{
    let ghost pv = ps@.map_values(|x: Proposal| x@);
    let mut k: usize = 0;
    while k < ps.len()
        invariant
            pv == ps@.map_values(|x: Proposal| x@),
            k <= ps@.len(),
            forall|j: int| 0 <= j < k ==> !(#[trigger] backed_by(b@, pv[j])),
        decreases ps@.len() - k,
    {
        proof { assert(pv[k as int] == ps@[k as int]@); }
        let named = match &b.proposal_id {
            Some(pid) => str_eq(pid.as_str(), ps[k].id.as_str()),
            None => false,
        };
        if named && str_eq(b.content.as_str(), ps[k].content.as_str()) {
            proof { assert(backed_by(b@, pv[k as int])); }
            return true;
        }
        k += 1;
    }
    false
}

/// Saved memory tables form a store when ids are unique per table and
/// every L2 bullet is backed by a proposal with the same content.
pub open spec fn restorable_memory(l0: Seq<L0RuleV>, l1: Seq<L1FactV>, ps: Seq<ProposalV>, l2: Seq<L2BulletV>) -> bool {
    &&& l0_ids_unique(l0)
    &&& l1_ids_unique(l1)
    &&& proposal_ids_unique(ps)
    &&& l2_ids_unique(l2)
    &&& bullets_backed(l2, ps)
}

impl MemoryStore {
    /// The store of saved tables (see `restorable_memory`); anything else
    /// is refused.
    pub fn restore(l0: Vec<L0Rule>, l1: Vec<L1Fact>, proposals: Vec<Proposal>, l2: Vec<L2Bullet>) -> (r: Option<MemoryStore>)
        ensures
            r is Some <==> restorable_memory(l0@.map_values(|x: L0Rule| x@), l1@.map_values(|x: L1Fact| x@),
                proposals@.map_values(|x: Proposal| x@), l2@.map_values(|x: L2Bullet| x@)),
            r matches Some(m) ==> m.wf() && m.l0() == l0@.map_values(|x: L0Rule| x@)
                && m.l1() == l1@.map_values(|x: L1Fact| x@)
                && m.proposals() == proposals@.map_values(|x: Proposal| x@)
                && m.l2() == l2@.map_values(|x: L2Bullet| x@),
    {
        let ghost v0 = l0@.map_values(|x: L0Rule| x@);
        let ghost v1 = l1@.map_values(|x: L1Fact| x@);
        let ghost vp = proposals@.map_values(|x: Proposal| x@);
        let ghost v2 = l2@.map_values(|x: L2Bullet| x@);
        let i0 = l0_id_list(&l0);
        let i1 = l1_id_list(&l1);
        let ip = proposal_id_list(&proposals);
        let i2 = l2_id_list(&l2);
        proof {
            assert(l0@.map_values(|x: L0Rule| x@.id).len() == l0@.len());
            assert(proposals@.map_values(|x: Proposal| x@.id).len() == proposals@.len());
            assert(l1@.map_values(|x: L1Fact| x@.id).len() == l1@.len());
            assert(l2@.map_values(|x: L2Bullet| x@.id).len() == l2@.len());
            assert(views_of(i0@).len() == i0@.len());
            assert(views_of(i1@).len() == i1@.len());
            assert(views_of(ip@).len() == ip@.len());
            assert(views_of(i2@).len() == i2@.len());
            assert(views_of(i0@).len() == i0@.len() && i0@.len() == v0.len());
            assert(views_of(i1@).len() == i1@.len() && i1@.len() == v1.len());
            assert(views_of(ip@).len() == ip@.len() && ip@.len() == vp.len());
            assert(views_of(i2@).len() == i2@.len() && i2@.len() == v2.len());
            assert(forall|k: int| 0 <= k < i0@.len() ==> #[trigger] i0@[k]@ == views_of(i0@)[k]);
            assert(forall|k: int| 0 <= k < i1@.len() ==> #[trigger] i1@[k]@ == views_of(i1@)[k]);
            assert(forall|k: int| 0 <= k < ip@.len() ==> #[trigger] ip@[k]@ == views_of(ip@)[k]);
            assert(forall|k: int| 0 <= k < i2@.len() ==> #[trigger] i2@[k]@ == views_of(i2@)[k]);
        }
        let d0 = distinct_strings(&i0);
        proof {
            if d0 {
                assert forall|a: int, c: int| 0 <= a < c < v0.len() implies #[trigger] v0[a].id != #[trigger] v0[c].id by {
                    assert(i0@[a]@ == v0[a].id && i0@[c]@ == v0[c].id);
                }
            } else {
                let (a, c) = choose|a: int, c: int| 0 <= a < c < i0@.len() && #[trigger] i0@[a]@ == #[trigger] i0@[c]@;
                assert(v0[a].id == v0[c].id);
            }
        }
        let d1 = distinct_strings(&i1);
        proof {
            if d1 {
                assert forall|a: int, c: int| 0 <= a < c < v1.len() implies #[trigger] v1[a].id != #[trigger] v1[c].id by {
                    assert(i1@[a]@ == v1[a].id && i1@[c]@ == v1[c].id);
                }
            } else {
                let (a, c) = choose|a: int, c: int| 0 <= a < c < i1@.len() && #[trigger] i1@[a]@ == #[trigger] i1@[c]@;
                assert(v1[a].id == v1[c].id);
            }
        }
        let dp = distinct_strings(&ip);
        proof {
            if dp {
                assert forall|a: int, c: int| 0 <= a < c < vp.len() implies #[trigger] vp[a].id != #[trigger] vp[c].id by {
                    assert(ip@[a]@ == vp[a].id && ip@[c]@ == vp[c].id);
                }
            } else {
                let (a, c) = choose|a: int, c: int| 0 <= a < c < ip@.len() && #[trigger] ip@[a]@ == #[trigger] ip@[c]@;
                assert(vp[a].id == vp[c].id);
            }
        }
        let d2 = distinct_strings(&i2);
        proof {
            if d2 {
                assert forall|a: int, c: int| 0 <= a < c < v2.len() implies #[trigger] v2[a].id != #[trigger] v2[c].id by {
                    assert(i2@[a]@ == v2[a].id && i2@[c]@ == v2[c].id);
                }
            } else {
                let (a, c) = choose|a: int, c: int| 0 <= a < c < i2@.len() && #[trigger] i2@[a]@ == #[trigger] i2@[c]@;
                assert(v2[a].id == v2[c].id);
            }
        }
        if !(d0 && d1 && dp && d2) {
            return None;
        }
        let mut b: usize = 0;
        while b < l2.len()
            invariant
                v2 == l2@.map_values(|x: L2Bullet| x@),
                vp == proposals@.map_values(|x: Proposal| x@),
                b <= l2@.len(),
                forall|j: int| 0 <= j < b ==> #[trigger] has_backing(v2[j], vp),
            decreases l2@.len() - b,
        {
            proof { assert(v2[b as int] == l2@[b as int]@); }
            if !backing_exists(&l2[b], &proposals) {
                return None;
            }
            b += 1;
        }
        Some(MemoryStore { l0_rules: l0, l1_facts: l1, proposals, l2_bullets: l2 })
    }
}

/// Saving the memory tables and restoring them gives back the same store:
/// the saved tables of a well-formed store are always restorable.
pub proof fn lemma_memory_snapshot_restorable(m: MemoryStore)
    requires
        m.wf(),
    ensures
        restorable_memory(m.l0(), m.l1(), m.proposals(), m.l2()),
{
}

} // verus!
