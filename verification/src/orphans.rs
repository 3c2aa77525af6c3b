//! Orphan detection: worktrees whose directories vanished, branches
//! checked out twice, and directories nobody registered. Findings are
//! journaled; nothing is deleted.

use vstd::prelude::*;
use vstd::string::*;
use crate::error::CoreError;
use crate::external::{debug_quoted, debug_str};
use crate::journal::{Journal, JournalEventV};
use crate::json::{Json, JsonV};
use crate::memory::{object2, object3, json_string_array, json_strings};
use crate::store::{Db, WorktreeRecordV};
use crate::text::{has_prefix, join_seqs, join_with, lines_of, split_lines, str_eq, strip_prefix, views_of};
use crate::types::JournalKind;
use crate::worktree::WorktreeManager;

verus! {

/// Branches and the worktree paths where each is checked out, branches in
/// the order they first appear.
pub type CheckoutGroups = Seq<(Seq<char>, Seq<Seq<char>>)>;

/// The first group of branch `b`.
pub open spec fn group_index(groups: CheckoutGroups, b: Seq<char>) -> Option<int>
    decreases groups.len(),
{
    if groups.len() == 0 {
        None
    } else {
        match group_index(groups.drop_last(), b) {
            Some(i) => Some(i),
            None => if groups.last().0 == b { Some(groups.len() - 1) } else { None },
        }
    }
}

/// `groups` with path `p` added to branch `b`.
pub open spec fn add_checkout(groups: CheckoutGroups, b: Seq<char>, p: Seq<char>) -> CheckoutGroups {
    match group_index(groups, b) {
        Some(i) => groups.update(i, (b, groups[i].1.push(p))),
        None => groups.push((b, seq![p])),
    }
}

/// Reading `git worktree list --porcelain` line by line: the worktree
/// currently described, and the checkouts seen so far. A `worktree <path>`
/// line starts a worktree; a `branch refs/heads/<b>` line says that the
/// current worktree has `b` checked out.
pub open spec fn checkout_scan(lines: Seq<Seq<char>>) -> (Option<Seq<char>>, CheckoutGroups)
    decreases lines.len(),
{
    if lines.len() == 0 {
        (None, Seq::empty())
    } else {
        let prev = checkout_scan(lines.drop_last());
        let l = lines.last();
        if has_prefix(l, "worktree "@) {
            (Some(l.skip(9)), prev.1)
        } else if has_prefix(l, "branch refs/heads/"@) {
            match prev.0 {
                Some(p) => (prev.0, add_checkout(prev.1, l.skip(18), p)),
                None => prev,
            }
        } else {
            prev
        }
    }
}

/// The groups of branches checked out in more than one place, in order.
pub open spec fn multi_checkouts(groups: CheckoutGroups) -> CheckoutGroups
    decreases groups.len(),
{
    if groups.len() == 0 {
        Seq::empty()
    } else if groups.last().1.len() > 1 {
        multi_checkouts(groups.drop_last()).push(groups.last())
    } else {
        multi_checkouts(groups.drop_last())
    }
}

/// The branches of the porcelain listing `text` that are checked out twice or more.
pub open spec fn double_checkouts_of(text: Seq<char>) -> CheckoutGroups {
    multi_checkouts(checkout_scan(lines_of(text)).1)
}

pub open spec fn groups_view(v: Seq<(String, Vec<String>)>) -> CheckoutGroups {
    v.map_values(|g: (String, Vec<String>)| (g.0@, views_of(g.1@)))
}

/// A copy of a list of strings.
pub fn clone_strings(v: &Vec<String>) -> (r: Vec<String>)
    ensures
        views_of(r@) == views_of(v@),
{
    let mut out: Vec<String> = Vec::new();
    let mut i: usize = 0;
    while i < v.len()
        invariant
            i <= v@.len(),
            views_of(out@) == views_of(v@.take(i as int)),
        decreases v@.len() - i,
    {
        let ghost prev = views_of(out@);
        out.push(v[i].clone());
        proof {
            assert(views_of(out@) =~= prev.push(v@[i as int]@));
            assert(views_of(v@.take(i + 1)) =~= views_of(v@.take(i as int)).push(v@[i as int]@));
        }
        i += 1;
    }
    proof { assert(v@.take(i as int) =~= v@); }
    out
}

proof fn lemma_group_index_prefix(groups: CheckoutGroups, b: Seq<char>, k: int)
    requires
        0 < k <= groups.len(),
        group_index(groups.take(k - 1), b) is None,
        groups[k - 1].0 == b,
    ensures
        group_index(groups, b) == Some(k - 1),
    decreases groups.len() - k,
{
    assert(groups.take(k).drop_last() =~= groups.take(k - 1));
    lemma_group_index_extend(groups, b, k, k - 1);
}

proof fn lemma_group_index_extend(groups: CheckoutGroups, b: Seq<char>, k: int, i: int)
    requires
        0 < k <= groups.len(),
        group_index(groups.take(k), b) == Some(i),
    ensures
        group_index(groups, b) == Some(i),
    decreases groups.len() - k,
{
    if k < groups.len() {
        assert(groups.take(k + 1).drop_last() =~= groups.take(k));
        lemma_group_index_extend(groups, b, k + 1, i);
    } else {
        assert(groups.take(k) =~= groups);
    }
}

proof fn lemma_group_index_bound(groups: CheckoutGroups, b: Seq<char>)
    ensures
        group_index(groups, b) matches Some(i) ==> 0 <= i < groups.len() && groups[i].0 == b,
    decreases groups.len(),
{
    if groups.len() > 0 {
        lemma_group_index_bound(groups.drop_last(), b);
    }
}

/// Adds path `p` to branch `b` (see `add_checkout`).
fn add_checkout_exec(groups: &mut Vec<(String, Vec<String>)>, b: String, p: String)
    ensures
        groups_view(final(groups)@) == add_checkout(groups_view(old(groups)@), b@, p@),
{
    let ghost gv = groups_view(groups@);
    let mut k: usize = 0;
    while k < groups.len()
        invariant
            gv == groups_view(groups@),
            groups@ == old(groups)@,
            k <= groups@.len(),
            group_index(gv.take(k as int), b@) is None,
        decreases groups@.len() - k,
    {
        proof {
            assert(gv.take(k + 1).drop_last() =~= gv.take(k as int));
            assert(gv.take(k + 1).last() == gv[k as int]);
            assert(gv[k as int].0 == groups@[k as int].0@);
        }
        if str_eq(groups[k].0.as_str(), b.as_str()) {
            proof { lemma_group_index_prefix(gv, b@, k + 1); }
            let (name, mut paths) = groups.remove(k);
            let ghost pv = views_of(paths@);
            paths.push(p);
            proof { assert(views_of(paths@) =~= pv.push(p@)); }
            groups.insert(k, (name, paths));
            proof {
                assert(groups_view(groups@) =~= gv.update(k as int, (b@, gv[k as int].1.push(p@))));
            }
            return;
        }
        k += 1;
    }
    proof { assert(gv.take(k as int) =~= gv); }
    let mut ps: Vec<String> = Vec::new();
    ps.push(p);
    let ghost item = (b@, views_of(ps@));
    proof { assert(views_of(ps@) =~= seq![p@]); }
    groups.push((b, ps));
    proof { assert(groups_view(groups@) =~= gv.push(item)); }
}

/// The branches of a `git worktree list --porcelain` listing that are
/// checked out in more than one worktree, with their paths.
pub fn double_checkouts(text: &str) -> (r: Vec<(String, Vec<String>)>)
    ensures
        groups_view(r@) == double_checkouts_of(text@),
{
    let lines = split_lines(text);
    let ghost lv = views_of(lines@);
    let mut current: Option<String> = None;
    let mut groups: Vec<(String, Vec<String>)> = Vec::new();
    let mut i: usize = 0;
    while i < lines.len()
        invariant
            lv == views_of(lines@),
            lv == lines_of(text@),
            i <= lines@.len(),
            checkout_scan(lv.take(i as int)) == (match current { Some(c) => Some(c@), None => None::<Seq<char>> },
                groups_view(groups@)),
        decreases lines@.len() - i,
    {
        proof {
            assert(lv.take(i + 1).drop_last() =~= lv.take(i as int));
            assert(lv.take(i + 1).last() == lines@[i as int]@);
            reveal_strlit("worktree ");
            reveal_strlit("branch refs/heads/");
        }
        match strip_prefix(lines[i].as_str(), "worktree ") {
            Some(p) => {
                current = Some(p);
            },
            None => {
                match strip_prefix(lines[i].as_str(), "branch refs/heads/") {
                    Some(b) => {
                        match &current {
                            Some(p) => {
                                add_checkout_exec(&mut groups, b, p.clone());
                            },
                            None => {},
                        }
                    },
                    None => {},
                }
            },
        }
        i += 1;
    }
    proof { assert(lv.take(i as int) =~= lv); }
    let ghost all = groups_view(groups@);
    let mut out: Vec<(String, Vec<String>)> = Vec::new();
    let mut k: usize = 0;
    while k < groups.len()
        invariant
            all == groups_view(groups@),
            all == checkout_scan(lines_of(text@)).1,
            k <= groups@.len(),
            groups_view(out@) == multi_checkouts(all.take(k as int)),
        decreases groups@.len() - k,
    {
        proof {
            assert(all.take(k + 1).drop_last() =~= all.take(k as int));
            assert(all.take(k + 1).last() == all[k as int]);
        }
        if groups[k].1.len() > 1 {
            let ghost prev = groups_view(out@);
            let copy = (groups[k].0.clone(), clone_strings(&groups[k].1));
            out.push(copy);
            proof { assert(groups_view(out@) =~= prev.push(all[k as int])); }
        }
        k += 1;
    }
    proof { assert(all.take(k as int) =~= all); }
    out
}

/// One orphan finding: its text in the result, and the run, task and
/// payload of the `orphan_detected` event that reports it.
pub struct OrphanFinding {
    pub text: Seq<char>,
    pub run_id: Option<Seq<char>>,
    pub task_id: Option<Seq<char>>,
    pub payload: JsonV,
}

/// The paths of the active worktree rows, in table order.
pub open spec fn active_paths(rows: Seq<WorktreeRecordV>) -> Seq<Seq<char>>
    decreases rows.len(),
{
    if rows.len() == 0 {
        Seq::empty()
    } else if rows.last().status == "active"@ {
        active_paths(rows.drop_last()).push(rows.last().path)
    } else {
        active_paths(rows.drop_last())
    }
}

/// The finding for an active worktree whose directory is gone.
pub open spec fn missing_dir_finding(w: WorktreeRecordV) -> OrphanFinding {
    OrphanFinding {
        text: w.path,
        run_id: Some(w.run_id),
        task_id: Some(w.task_id),
        payload: JsonV::Object(seq![
            ("reason"@, JsonV::Str("missing_dir"@)),
            ("path"@, JsonV::Str(w.path)),
            ("worktree_id"@, JsonV::Str(w.id)),
        ]),
    }
}

/// Going through the rows in order: the findings for active worktrees
/// whose directory is gone, and how many active rows were seen. `exists`
/// tells, for the active rows in order, whether the directory exists; a
/// row it says nothing of counts as existing.
pub open spec fn missing_scan(rows: Seq<WorktreeRecordV>, exists: Seq<bool>) -> (Seq<OrphanFinding>, int)
    decreases rows.len(),
{
    if rows.len() == 0 {
        (Seq::empty(), 0)
    } else {
        let prev = missing_scan(rows.drop_last(), exists);
        let w = rows.last();
        if w.status == "active"@ {
            let present = if prev.1 < exists.len() { exists[prev.1] } else { true };
            if present { (prev.0, prev.1 + 1) } else { (prev.0.push(missing_dir_finding(w)), prev.1 + 1) }
        } else {
            prev
        }
    }
}

/// How std's `Debug` writes a list of strings: `["a", "b"]`.
pub open spec fn debug_list(ps: Seq<Seq<char>>) -> Seq<char> {
    "["@ + join_seqs(ps.map_values(|p: Seq<char>| debug_quoted(p)), ", "@) + "]"@
}

/// The finding for a branch checked out in several worktrees.
pub open spec fn double_checkout_finding(g: (Seq<char>, Seq<Seq<char>>)) -> OrphanFinding {
    OrphanFinding {
        text: "branch "@ + g.0 + " checked out at "@ + debug_list(g.1),
        run_id: None,
        task_id: None,
        payload: JsonV::Object(seq![
            ("reason"@, JsonV::Str("double_checkout"@)),
            ("branch"@, JsonV::Str(g.0)),
            ("paths"@, json_strings(g.1)),
        ]),
    }
}

/// Whether a worktree row has this path.
pub open spec fn has_row_path(rows: Seq<WorktreeRecordV>, path: Seq<char>) -> bool {
    exists|k: int| 0 <= k < rows.len() && #[trigger] rows[k].path == path
}

/// The finding for a directory under the worktree root that no row names.
pub open spec fn untracked_finding(d: Seq<char>) -> OrphanFinding {
    OrphanFinding {
        text: d,
        run_id: None,
        task_id: None,
        payload: JsonV::Object(seq![("reason"@, JsonV::Str("untracked_dir"@)), ("path"@, JsonV::Str(d))]),
    }
}

/// The findings for the directories that no worktree row names, in order.
pub open spec fn untracked_findings(rows: Seq<WorktreeRecordV>, dirs: Seq<Seq<char>>) -> Seq<OrphanFinding>
    decreases dirs.len(),
{
    if dirs.len() == 0 {
        Seq::empty()
    } else if has_row_path(rows, dirs.last()) {
        untracked_findings(rows, dirs.drop_last())
    } else {
        untracked_findings(rows, dirs.drop_last()).push(untracked_finding(dirs.last()))
    }
}

/// All findings, in the order they are reported: vanished directories,
/// then double checkouts (when the repository could be listed), then
/// untracked directories.
pub open spec fn orphan_findings(rows: Seq<WorktreeRecordV>, exists: Seq<bool>, porcelain: Option<Seq<char>>, dirs: Seq<Seq<char>>) -> Seq<OrphanFinding> {
    missing_scan(rows, exists).0
        + (match porcelain {
            Some(t) => double_checkouts_of(t).map_values(|g: (Seq<char>, Seq<Seq<char>>)| double_checkout_finding(g)),
            None => Seq::empty(),
        })
        + untracked_findings(rows, dirs)
}

/// `after` is `before` followed by one `orphan_detected` event per finding, in order.
pub open spec fn reported(before: Seq<JournalEventV>, after: Seq<JournalEventV>, fs: Seq<OrphanFinding>) -> bool {
    &&& after.len() == before.len() + fs.len()
    &&& after.take(before.len() as int) == before
    &&& forall|i: int| 0 <= i < fs.len() ==> {
        let e = #[trigger] after[before.len() + i];
        &&& e.seq == before.len() + i + 1
        &&& e.kind == JournalKind::OrphanDetected.name()
        &&& e.run_id == fs[i].run_id
        &&& e.task_id == fs[i].task_id
        &&& e.payload == fs[i].payload
    }
}

pub open spec fn finding_texts(fs: Seq<OrphanFinding>) -> Seq<Seq<char>> {
    fs.map_values(|f: OrphanFinding| f.text)
}

proof fn lemma_missing_scan_grows(rows: Seq<WorktreeRecordV>, exists: Seq<bool>, m: int)
    requires
        0 <= m <= rows.len(),
    ensures
        missing_scan(rows.take(m), exists).0.len() <= missing_scan(rows, exists).0.len(),
    decreases rows.len() - m,
{
    if m < rows.len() {
        assert(rows.take(m + 1).drop_last() =~= rows.take(m));
        lemma_missing_scan_grows(rows, exists, m + 1);
    } else {
        assert(rows.take(m) =~= rows);
    }
}

proof fn lemma_untracked_grows(rows: Seq<WorktreeRecordV>, dirs: Seq<Seq<char>>, m: int)
    requires
        0 <= m <= dirs.len(),
    ensures
        untracked_findings(rows, dirs.take(m)).len() <= untracked_findings(rows, dirs).len(),
    decreases dirs.len() - m,
{
    if m < dirs.len() {
        assert(dirs.take(m + 1).drop_last() =~= dirs.take(m));
        lemma_untracked_grows(rows, dirs, m + 1);
    } else {
        assert(dirs.take(m) =~= dirs);
    }
}

proof fn lemma_reported_push(before: Seq<JournalEventV>, mid: Seq<JournalEventV>, after: Seq<JournalEventV>, fs: Seq<OrphanFinding>, f: OrphanFinding)
    requires
        reported(before, mid, fs),
        crate::journal::appended(mid, after, JournalKind::OrphanDetected, f.run_id, f.task_id, f.payload),
    ensures
        reported(before, after, fs.push(f)),
{
    let n = before.len() as int;
    assert(after.take(n) =~= mid.take(n));
    assert forall|i: int| 0 <= i < fs.len() + 1 implies {
        let e = #[trigger] after[n + i];
        &&& e.seq == n + i + 1
        &&& e.kind == JournalKind::OrphanDetected.name()
        &&& e.run_id == fs.push(f)[i].run_id
        &&& e.task_id == fs.push(f)[i].task_id
        &&& e.payload == fs.push(f)[i].payload
    } by {
        if i < fs.len() {
            assert(after[n + i] == after.take(mid.len() as int)[n + i]);
            assert(mid[n + i] == after[n + i]);
        }
    }
}

/// Journals one finding and adds its text to `found`.
fn report(journal: &mut Journal, found: &mut Vec<String>, text: String, run_id: Option<&str>, task_id: Option<&str>, payload: Json, Ghost(before): Ghost<Seq<JournalEventV>>, Ghost(fs): Ghost<Seq<OrphanFinding>>, Ghost(f): Ghost<OrphanFinding>) -> (r: Result<(), CoreError>)
    requires
        old(journal).wf(),
        reported(before, old(journal).events(), fs),
        finding_texts(fs) == views_of(old(found)@),
        f.text == text@,
        f.run_id == crate::journal::opt_str_ref_view(run_id),
        f.task_id == crate::journal::opt_str_ref_view(task_id),
        f.payload == payload@,
    ensures
        final(journal).wf(),
        r is Ok ==> reported(before, final(journal).events(), fs.push(f))
            && finding_texts(fs.push(f)) == views_of(final(found)@),
        r is Err <==> old(journal).last_seq() >= i64::MAX,
        r matches Err(e) ==> e is Sqlite,
{
    let ghost mid = journal.events();
    match journal.record(JournalKind::OrphanDetected, run_id, task_id, payload) {
        Ok(()) => {
            proof { lemma_reported_push(before, mid, journal.events(), fs, f); }
            let ghost prev = views_of(found@);
            found.push(text);
            proof {
                assert(views_of(found@) =~= prev.push(f.text));
                assert(finding_texts(fs.push(f)) =~= finding_texts(fs).push(f.text));
            }
            Ok(())
        },
        Err(e) => Err(e),
    }
}

/// `["a", "b"]`, as std's `Debug` writes a list of strings.
pub fn debug_list_exec(ps: &Vec<String>) -> (r: String)
    ensures
        r@ == debug_list(views_of(ps@)),
{
    let mut quoted: Vec<String> = Vec::new();
    let mut i: usize = 0;
    while i < ps.len()
        invariant
            i <= ps@.len(),
            views_of(quoted@) == views_of(ps@.take(i as int)).map_values(|p: Seq<char>| debug_quoted(p)),
        decreases ps@.len() - i,
    {
        let ghost prev = views_of(quoted@);
        quoted.push(debug_str(ps[i].as_str()));
        proof {
            assert(views_of(quoted@) =~= prev.push(debug_quoted(ps@[i as int]@)));
            assert(views_of(ps@.take(i + 1)).map_values(|p: Seq<char>| debug_quoted(p)) =~=
                views_of(ps@.take(i as int)).map_values(|p: Seq<char>| debug_quoted(p)).push(debug_quoted(ps@[i as int]@)));
        }
        i += 1;
    }
    proof { assert(ps@.take(i as int) =~= ps@); }
    let mut out = "[".to_owned();
    let inner = join_with(&quoted, ", ");
    out.append(inner.as_str());
    out.append("]");
    out
}

impl WorktreeManager {
    /// The paths of the active worktrees, in table order: the directories
    /// whose existence `scan_orphans` wants to know.
    pub fn active_worktree_paths(&self, db: &Db) -> (r: Vec<String>)
        ensures
            views_of(r@) == active_paths(db.runs.worktree_rows()),
    {
        let ghost rows = db.runs.worktree_rows();
        let mut out: Vec<String> = Vec::new();
        let mut k: usize = 0;
        while k < db.runs.worktrees.len()
            invariant
                rows == db.runs.worktree_rows(),
                k <= rows.len(),
                views_of(out@) == active_paths(rows.take(k as int)),
            decreases rows.len() - k,
        {
            let w = &db.runs.worktrees[k];
            proof {
                assert(rows.take(k + 1).drop_last() =~= rows.take(k as int));
                assert(rows.take(k + 1).last() == w@);
                reveal_strlit("active");
            }
            if str_eq(w.status.as_str(), "active") {
                let ghost prev = views_of(out@);
                out.push(w.path.clone());
                proof { assert(views_of(out@) =~= prev.push(w.path@)); }
            }
            k += 1;
        }
        proof { assert(rows.take(k as int) =~= rows); }
        out
    }

    /// Reports orphans, journaling one `orphan_detected` event for each and
    /// returning their texts: active worktrees whose directory is gone
    /// (`dir_exists` answers for `active_worktree_paths` in order),
    /// branches the repository's porcelain worktree listing shows checked
    /// out twice or more (when the listing could be had), and directories
    /// under the worktree root that no row names. Nothing is deleted.
    pub fn scan_orphans(&self, db: &mut Db, dir_exists: &Vec<bool>, porcelain: Option<&str>, root_dirs: &Vec<String>) -> (r: Result<Vec<String>, CoreError>)
        requires
            old(db).wf(),
        ensures
            final(db).wf(),
            final(db).same_but_journal(old(db)),
            ({
                let fs = orphan_findings(old(db).runs.worktree_rows(), dir_exists@,
                    match porcelain { Some(t) => Some(t@), None => None }, views_of(root_dirs@));
                &&& old(db).journal.last_seq() + fs.len() <= i64::MAX ==> (r matches Ok(v)
                    && views_of(v@) == finding_texts(fs)
                    && reported(old(db).journal.events(), final(db).journal.events(), fs))
            }),
            r matches Err(e) ==> e is Sqlite,
    {
        let ghost rows = db.runs.worktree_rows();
        let ghost ev0 = db.journal.events();
        let ghost exists = dir_exists@;
        let ghost total = orphan_findings(rows, exists, match porcelain { Some(t) => Some(t@), None => None },
            views_of(root_dirs@));
        let mut found: Vec<String> = Vec::new();
        proof { assert(db.journal.events().take(ev0.len() as int) =~= ev0); }
        let mut j: usize = 0;
        let mut k: usize = 0;
        while k < db.runs.worktrees.len()
            invariant
                rows == db.runs.worktree_rows(),
                db.journal.wf(),
                db.same_but_journal(old(db)),
                old(db).wf(),
                k <= rows.len(),
                missing_scan(rows.take(k as int), exists).1 == j,
                j <= k,
                reported(ev0, db.journal.events(), missing_scan(rows.take(k as int), exists).0),
                finding_texts(missing_scan(rows.take(k as int), exists).0) == views_of(found@),
                ev0 == old(db).journal.events(),
                rows == old(db).runs.worktree_rows(),
                exists == dir_exists@,
                total == orphan_findings(rows, exists, match porcelain { Some(t) => Some(t@), None => None },
                    views_of(root_dirs@)),
            decreases rows.len() - k,
        {
            let ghost fs = missing_scan(rows.take(k as int), exists).0;
            proof {
                assert(rows.take(k + 1).drop_last() =~= rows.take(k as int));
                assert(rows.take(k + 1).last() == db.runs.worktrees@[k as int]@);
                reveal_strlit("active");
            }
            if str_eq(db.runs.worktrees[k].status.as_str(), "active") {
                let present = if j < dir_exists.len() { dir_exists[j] } else { true };
                if !present {
                    let w = &db.runs.worktrees[k];
                    let payload = object3("reason", Json::text("missing_dir"), "path", Json::text(w.path.as_str()),
                        "worktree_id", Json::text(w.id.as_str()));
                    let text = w.path.clone();
                    let run = w.run_id.clone();
                    let task = w.task_id.clone();
                    match report(&mut db.journal, &mut found, text, Some(run.as_str()), Some(task.as_str()), payload,
                        Ghost(ev0), Ghost(fs), Ghost(missing_dir_finding(w@))) {
                        Ok(()) => {},
                        Err(e) => {
                            proof {
                                assert(missing_scan(rows.take(k + 1), exists).0 == fs.push(missing_dir_finding(w@)));
                                lemma_missing_scan_grows(rows, exists, k + 1);
                            }
                            return Err(e);
                        },
                    }
                }
                j += 1;
            }
            k += 1;
        }
        proof { assert(rows.take(k as int) =~= rows); }
        let ghost phase1 = missing_scan(rows, exists).0;
        let ghost doubles = match porcelain {
            Some(t) => double_checkouts_of(t@).map_values(|g: (Seq<char>, Seq<Seq<char>>)| double_checkout_finding(g)),
            None => Seq::empty(),
        };
        match porcelain {
            Some(text) => {
                let groups = double_checkouts(text);
                let ghost gv = groups_view(groups@);
                let mut g: usize = 0;
                proof {
                    assert(phase1 + doubles.take(0) =~= phase1);
                    assert(total == phase1 + doubles + untracked_findings(rows, views_of(root_dirs@)));
                }
                while g < groups.len()
                    invariant
                        gv == groups_view(groups@),
                        gv == double_checkouts_of(text@),
                        doubles == gv.map_values(|x: (Seq<char>, Seq<Seq<char>>)| double_checkout_finding(x)),
                        db.journal.wf(),
                        db.same_but_journal(old(db)),
                        old(db).wf(),
                        ev0 == old(db).journal.events(),
                        rows == old(db).runs.worktree_rows(),
                        phase1 == missing_scan(rows, exists).0,
                        exists == dir_exists@,
                        total == orphan_findings(rows, exists, match porcelain { Some(t) => Some(t@), None => None },
                            views_of(root_dirs@)),
                        total == phase1 + doubles + untracked_findings(rows, views_of(root_dirs@)),
                        g <= groups@.len(),
                        reported(ev0, db.journal.events(), phase1 + doubles.take(g as int)),
                        finding_texts(phase1 + doubles.take(g as int)) == views_of(found@),
                    decreases groups@.len() - g,
                {
                    let ghost so_far = phase1 + doubles.take(g as int);
                    let branch = &groups[g].0;
                    let paths = &groups[g].1;
                    let mut msg = "branch ".to_owned();
                    msg.append(branch.as_str());
                    msg.append(" checked out at ");
                    let listed = debug_list_exec(paths);
                    msg.append(listed.as_str());
                    let payload = object3("reason", Json::text("double_checkout"), "branch", Json::text(branch.as_str()),
                        "paths", json_string_array(paths));
                    proof {
                        assert(gv[g as int] == (branch@, views_of(paths@)));
                        assert(doubles[g as int] == double_checkout_finding(gv[g as int]));
                        assert(phase1 + doubles.take(g + 1) =~= so_far.push(doubles[g as int]));
                    }
                    match report(&mut db.journal, &mut found, msg, None, None, payload, Ghost(ev0), Ghost(so_far),
                        Ghost(doubles[g as int])) {
                        Ok(()) => {},
                        Err(e) => {
                            proof {
                                assert(so_far.len() == phase1.len() + g);
                                assert(doubles.len() == groups@.len());
                                assert(total.len() == phase1.len() + doubles.len()
                                    + untracked_findings(rows, views_of(root_dirs@)).len());
                            }
                            return Err(e);
                        },
                    }
                    g += 1;
                }
                proof { assert(doubles.take(g as int) =~= doubles); }
            },
            None => {
                proof { assert(phase1 + doubles =~= phase1); }
            },
        }
        let ghost phase2 = phase1 + doubles;
        let mut d: usize = 0;
        let ghost dirs = views_of(root_dirs@);
        proof { assert(total == phase2 + untracked_findings(rows, dirs)); }
        proof { assert(phase2 + untracked_findings(rows, dirs.take(0)) =~= phase2); }
        while d < root_dirs.len()
            invariant
                dirs == views_of(root_dirs@),
                rows == db.runs.worktree_rows(),
                db.journal.wf(),
                db.same_but_journal(old(db)),
                old(db).wf(),
                ev0 == old(db).journal.events(),
                rows == old(db).runs.worktree_rows(),
                phase2 == phase1 + doubles,
                exists == dir_exists@,
                total == phase2 + untracked_findings(rows, dirs),
                total == orphan_findings(rows, exists, match porcelain { Some(t) => Some(t@), None => None },
                    views_of(root_dirs@)),
                d <= root_dirs@.len(),
                reported(ev0, db.journal.events(), phase2 + untracked_findings(rows, dirs.take(d as int))),
                finding_texts(phase2 + untracked_findings(rows, dirs.take(d as int))) == views_of(found@),
            decreases root_dirs@.len() - d,
        {
            let ghost so_far = phase2 + untracked_findings(rows, dirs.take(d as int));
            proof {
                assert(dirs.take(d + 1).drop_last() =~= dirs.take(d as int));
                assert(dirs.take(d + 1).last() == root_dirs@[d as int]@);
            }
            let taken = db.runs.worktree_path_taken(root_dirs[d].as_str());
            proof {
                if taken {
                    let k = choose|k: int| 0 <= k < db.runs.worktrees@.len() && #[trigger] db.runs.worktrees@[k].path@ == root_dirs@[d as int]@;
                    assert(rows[k].path == root_dirs@[d as int]@);
                } else {
                    assert forall|k: int| 0 <= k < rows.len() implies #[trigger] rows[k].path != root_dirs@[d as int]@ by {
                        assert(rows[k] == db.runs.worktrees@[k]@);
                    }
                }
            }
            if !taken {
                let p = root_dirs[d].clone();
                let payload = object2("reason", Json::text("untracked_dir"), "path", Json::text(p.as_str()));
                proof { assert(phase2 + untracked_findings(rows, dirs.take(d + 1)) =~= so_far.push(untracked_finding(p@))); }
                match report(&mut db.journal, &mut found, p, None, None, payload, Ghost(ev0), Ghost(so_far),
                    Ghost(untracked_finding(root_dirs@[d as int]@))) {
                    Ok(()) => {},
                    Err(e) => {
                        proof {
                            lemma_untracked_grows(rows, dirs, d + 1);
                            assert(untracked_findings(rows, dirs.take(d + 1)).len()
                                == untracked_findings(rows, dirs.take(d as int)).len() + 1);
                            assert(so_far.len() == phase2.len() + untracked_findings(rows, dirs.take(d as int)).len());
                            assert(total.len() == phase2.len() + untracked_findings(rows, dirs).len());
                        }
                        return Err(e);
                    },
                }
            } else {
                proof { assert(phase2 + untracked_findings(rows, dirs.take(d + 1)) =~= so_far); }
            }
            d += 1;
        }
        proof {
            assert(dirs.take(d as int) =~= dirs);
            assert(phase2 + untracked_findings(rows, dirs) =~= total);
        }
        Ok(found)
    }
}

} // verus!
