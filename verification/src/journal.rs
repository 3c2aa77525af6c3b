//! The append-only journal. UI replay and audit both read events in `seq`
//! order; history is never rewritten, corrections are new events.

use vstd::prelude::*;
use crate::error::CoreError;
use crate::external::now_rfc3339;
use crate::json::{Json, JsonV};
use crate::types::JournalKind;

verus! {

/// One journal event.
#[derive(Debug)]
pub struct JournalEvent {
    pub seq: i64,
    pub kind: String,
    pub run_id: Option<String>,
    pub task_id: Option<String>,
    pub payload: Json,
    pub created_at: String,
}

/// The mathematical value of a journal event.
pub struct JournalEventV {
    pub seq: int,
    pub kind: Seq<char>,
    pub run_id: Option<Seq<char>>,
    pub task_id: Option<Seq<char>>,
    pub payload: JsonV,
    pub created_at: Seq<char>,
}

pub open spec fn opt_view(o: Option<String>) -> Option<Seq<char>> {
    match o {
        Some(s) => Some(s@),
        None => None,
    }
}

pub open spec fn opt_str_ref_view(o: Option<&str>) -> Option<Seq<char>> {
    match o {
        Some(s) => Some(s@),
        None => None,
    }
}

/// A copy of an optional string.
pub fn copy_opt(o: &Option<String>) -> (r: Option<String>)
    ensures
        opt_view(r) == opt_view(*o),
{
    match o {
        Some(s) => Some(s.clone()),
        None => None,
    }
}

/// An owned copy of an optional string slice.
pub fn owned_opt_str(o: Option<&str>) -> (r: Option<String>)
    ensures
        opt_view(r) == opt_str_ref_view(o),
{
    match o {
        Some(s) => Some(s.to_owned()),
        None => None,
    }
}

impl View for JournalEvent {
    type V = JournalEventV;

    open spec fn view(&self) -> JournalEventV {
        JournalEventV {
            seq: self.seq as int,
            kind: self.kind@,
            run_id: opt_view(self.run_id),
            task_id: opt_view(self.task_id),
            payload: self.payload@,
            created_at: self.created_at@,
        }
    }
}

impl JournalEvent {
    /// A copy of the event.
    pub fn duplicate(&self) -> (r: JournalEvent)
        ensures
            r@ == self@,
    {
        JournalEvent {
            seq: self.seq,
            kind: self.kind.clone(),
            run_id: copy_opt(&self.run_id),
            task_id: copy_opt(&self.task_id),
            payload: self.payload.deep_clone(),
            created_at: self.created_at.clone(),
        }
    }
}

/// The journal: events in `seq` order, with `seq` running 1, 2, 3, ...
pub struct Journal {
    events: Vec<JournalEvent>,
}

/// The events of `evs` whose kind is `kind`, in order.
pub open spec fn events_of_kind(evs: Seq<JournalEventV>, kind: Seq<char>) -> Seq<JournalEventV> {
    evs.filter(|e: JournalEventV| e.kind == kind)
}

/// The events with `seq > after`, at most `limit` of them, oldest first.
/// Since the `k`-th event has `seq == k + 1`, they are a contiguous run.
pub open spec fn events_after(evs: Seq<JournalEventV>, after: int, limit: int) -> Seq<JournalEventV> {
    let start = if after <= 0 { 0 } else if after >= evs.len() { evs.len() as int } else { after };
    let end = if limit >= evs.len() - start { evs.len() as int } else { start + limit };
    evs.subrange(start, end)
}

impl Journal {
    /// The events, oldest first.
    pub closed spec fn events(&self) -> Seq<JournalEventV> {
        self.events@.map_values(|e: JournalEvent| e@)
    }

    /// Well-formed: the `k`-th event (from 0) has `seq == k + 1`.
    pub open spec fn wf(&self) -> bool {
        forall|k: int| 0 <= k < self.events().len() ==> #[trigger] self.events()[k].seq == k + 1
    }

    /// The largest `seq` written so far (0 for an empty journal).
    pub open spec fn last_seq(&self) -> int {
        self.events().len() as int
    }

    pub fn new() -> (j: Journal)
        ensures
            j.wf(),
            j.events() == Seq::<JournalEventV>::empty(),
    {
        let j = Journal { events: Vec::new() };
        proof { assert(j.events() =~= Seq::<JournalEventV>::empty()); }
        j
    }

    /// Appends one event and returns it. The new event gets the next `seq`;
    /// earlier events are untouched. Fails only when `seq` would overflow.
    pub fn append(&mut self, kind: JournalKind, run_id: Option<&str>, task_id: Option<&str>, payload: Json) -> (r: Result<JournalEvent, CoreError>)
        requires
            old(self).wf(),
        ensures
            final(self).wf(),
            match r {
                Ok(e) => {
                    &&& final(self).events() == old(self).events().push(e@)
                    &&& e@.seq == old(self).last_seq() + 1
                    &&& e@.kind == kind.name()
                    &&& e@.run_id == opt_str_ref_view(run_id)
                    &&& e@.task_id == opt_str_ref_view(task_id)
                    &&& e@.payload == payload@
                },
                Err(err) => {
                    &&& final(self).events() == old(self).events()
                    &&& old(self).last_seq() >= i64::MAX
                    &&& err is Sqlite
                },
            },
            r is Err <==> old(self).last_seq() >= i64::MAX,
    {
        let n = self.events.len();
        proof { assert(self.events().len() == self.events@.len()); }
        if n as u64 >= 0x7fff_ffff_ffff_ffffu64 {
            return Err(CoreError::Sqlite("database or disk is full".to_owned()));
        }
        let seq = (n as i64) + 1;
        let e = JournalEvent {
            seq,
            kind: kind.as_str().to_owned(),
            run_id: owned_opt_str(run_id),
            task_id: owned_opt_str(task_id),
            payload,
            created_at: now_rfc3339(),
        };
        let copy = e.duplicate();
        let ghost before = self.events();
        self.events.push(e);
        proof {
            assert(self.events() =~= before.push(copy@));
        }
        Ok(copy)
    }

    /// At most `limit` events with `seq > after_seq`, oldest first.
    pub fn list_since(&self, after_seq: i64, limit: usize) -> (r: Result<Vec<JournalEvent>, CoreError>)
        requires
            self.wf(),
        ensures
            r matches Ok(v) && v@.map_values(|e: JournalEvent| e@) == events_after(self.events(), after_seq as int, limit as int),
    {
        let ghost evs = self.events();
        let n = self.events.len();
        let start: usize = if after_seq <= 0 {
            0
        } else if after_seq as u64 >= n as u64 {
            n
        } else {
            after_seq as usize
        };
        let end: usize = if limit >= n - start { n } else { start + limit };
        let mut out: Vec<JournalEvent> = Vec::new();
        let mut i: usize = start;
        while i < end
            invariant
                evs == self.events(),
                evs.len() == self.events@.len(),
                start <= i <= end <= self.events@.len(),
                out@.len() == i - start,
                forall|j: int| 0 <= j < out@.len() ==> (#[trigger] out@[j])@ == evs[start + j],
            decreases end - i,
        {
            out.push(self.events[i].duplicate());
            proof {
                assert(evs[i as int] == self.events@[i as int]@);
            }
            i += 1;
        }
        proof {
            assert(out@.map_values(|e: JournalEvent| e@) =~= evs.subrange(start as int, end as int));
        }
        Ok(out)
    }

    /// The largest `seq` written so far (0 when empty).
    pub fn latest_seq(&self) -> (r: Result<i64, CoreError>)
        requires
            self.wf(),
        ensures
            r matches Ok(s) && s as int == self.last_seq(),
    {
        proof {
            assert(self.events().len() == self.events@.len());
            if self.events@.len() > 0 {
                let k = self.events@.len() - 1;
                assert(self.events()[k].seq == k + 1);
                assert(self.events()[k] == self.events@[k]@);
            }
        }
        Ok(self.events.len() as i64)
    }

    /// All events of the given kind, oldest first.
    pub fn find_by_kind(&self, kind: JournalKind) -> (r: Result<Vec<JournalEvent>, CoreError>)
        ensures
            r matches Ok(v) && v@.map_values(|e: JournalEvent| e@) == events_of_kind(self.events(), kind.name()),
    {
        let ghost evs = self.events();
        let name = kind.as_str();
        let mut out: Vec<JournalEvent> = Vec::new();
        let mut i: usize = 0;
        while i < self.events.len()
            invariant
                evs == self.events(),
                name@ == kind.name(),
                i <= self.events@.len(),
                out@.map_values(|e: JournalEvent| e@) == evs.take(i as int).filter(|e: JournalEventV| e.kind == kind.name()),
            decreases self.events@.len() - i,
        {
            let ghost prev = out@;
            proof {
                reveal(Seq::filter);
                assert(evs.take(i + 1).drop_last() =~= evs.take(i as int));
                assert(evs.take(i + 1).last() == evs[i as int]);
                assert(evs[i as int] == self.events@[i as int]@);
            }
            if crate::text::str_eq(self.events[i].kind.as_str(), name) {
                out.push(self.events[i].duplicate());
                proof {
                    assert(out@.map_values(|e: JournalEvent| e@) =~= prev.map_values(|e: JournalEvent| e@).push(evs[i as int]));
                }
            }
            i += 1;
        }
        proof { assert(evs.take(i as int) =~= evs); }
        Ok(out)
    }
}

/// `after` is `before` followed by one more event with the next `seq` and
/// the given kind, run, task and payload.
pub open spec fn appended(
    before: Seq<JournalEventV>,
    after: Seq<JournalEventV>,
    kind: JournalKind,
    run_id: Option<Seq<char>>,
    task_id: Option<Seq<char>>,
    payload: JsonV,
) -> bool {
    &&& after.len() == before.len() + 1
    &&& after.take(before.len() as int) == before
    &&& after.last().seq == before.len() + 1
    &&& after.last().kind == kind.name()
    &&& after.last().run_id == run_id
    &&& after.last().task_id == task_id
    &&& after.last().payload == payload
}

/// One event to append: kind, run, task and payload.
pub type EventItem = (JournalKind, Option<Seq<char>>, Option<Seq<char>>, JsonV);

/// `after` is `before` followed by one event per item, in order, with
/// consecutive `seq` numbers.
pub open spec fn appended_events(before: Seq<JournalEventV>, after: Seq<JournalEventV>, items: Seq<EventItem>) -> bool {
    &&& after.len() == before.len() + items.len()
    &&& after.take(before.len() as int) == before
    &&& forall|i: int| 0 <= i < items.len() ==> {
        let e = #[trigger] after[before.len() + i];
        &&& e.seq == before.len() + i + 1
        &&& e.kind == items[i].0.name()
        &&& e.run_id == items[i].1
        &&& e.task_id == items[i].2
        &&& e.payload == items[i].3
    }
}

/// Appending one more event extends the appended items by it.
pub proof fn lemma_appended_events_push(
    before: Seq<JournalEventV>,
    mid: Seq<JournalEventV>,
    after: Seq<JournalEventV>,
    items: Seq<EventItem>,
    item: EventItem,
)
    requires
        appended_events(before, mid, items),
        appended(mid, after, item.0, item.1, item.2, item.3),
    ensures
        appended_events(before, after, items.push(item)),
{
    let n = before.len() as int;
    assert(after.take(n) =~= mid.take(n));
    assert forall|i: int| 0 <= i < items.len() + 1 implies {
        let e = #[trigger] after[n + i];
        &&& e.seq == n + i + 1
        &&& e.kind == items.push(item)[i].0.name()
        &&& e.run_id == items.push(item)[i].1
        &&& e.task_id == items.push(item)[i].2
        &&& e.payload == items.push(item)[i].3
    } by {
        if i < items.len() {
            assert(after[n + i] == after.take(mid.len() as int)[n + i]);
        }
    }
}

/// Nothing appended yet.
pub proof fn lemma_appended_events_none(evs: Seq<JournalEventV>)
    ensures
        appended_events(evs, evs, Seq::empty()),
{
    assert(evs.take(evs.len() as int) =~= evs);
}

impl Journal {
    /// Appends one event, keeping only whether it worked.
    pub fn record(&mut self, kind: JournalKind, run_id: Option<&str>, task_id: Option<&str>, payload: Json) -> (r: Result<(), CoreError>)
        requires
            old(self).wf(),
        ensures
            final(self).wf(),
            r is Ok ==> appended(old(self).events(), final(self).events(), kind, opt_str_ref_view(run_id),
                opt_str_ref_view(task_id), payload@),
            r matches Err(e) ==> e is Sqlite && final(self).events() == old(self).events(),
            r is Err <==> old(self).last_seq() >= i64::MAX,
    {
        match self.append(kind, run_id, task_id, payload) {
            Ok(_) => {
                proof { assert(self.events().take(old(self).events().len() as int) =~= old(self).events()); }
                Ok(())
            },
            Err(e) => Err(e),
        }
    }
}

/// Saved events form a journal when their `seq` numbers run 1, 2, 3, ...
pub open spec fn restorable_events(evs: Seq<JournalEventV>) -> bool {
    forall|k: int| 0 <= k < evs.len() ==> #[trigger] evs[k].seq == k + 1
}

impl Journal {
    /// Every event, oldest first: what is saved of the journal.
    pub fn snapshot(&self) -> (r: Vec<JournalEvent>)
        ensures
            r@.map_values(|e: JournalEvent| e@) == self.events(),
    {
        let mut out: Vec<JournalEvent> = Vec::new();
        let mut i: usize = 0;
        while i < self.events.len()
            invariant
                i <= self.events@.len(),
                out@.map_values(|e: JournalEvent| e@) == self.events().take(i as int),
            decreases self.events@.len() - i,
        {
            let ghost prev = out@.map_values(|e: JournalEvent| e@);
            out.push(self.events[i].duplicate());
            proof {
                assert(out@.map_values(|e: JournalEvent| e@) =~= prev.push(self.events@[i as int]@));
                assert(self.events().take(i + 1) =~= self.events().take(i as int).push(self.events@[i as int]@));
            }
            i += 1;
        }
        proof { assert(self.events().take(i as int) =~= self.events()); }
        out
    }

    /// The journal of saved events, when their `seq` numbers run 1, 2, 3, ...;
    /// anything else is refused.
    pub fn restore(events: Vec<JournalEvent>) -> (r: Option<Journal>)
        ensures
            r is Some <==> restorable_events(events@.map_values(|e: JournalEvent| e@)),
            r matches Some(j) ==> j.wf() && j.events() == events@.map_values(|e: JournalEvent| e@),
    {
        let ghost vs = events@.map_values(|e: JournalEvent| e@);
        let mut k: usize = 0;
        while k < events.len()
            invariant
                vs == events@.map_values(|e: JournalEvent| e@),
                k <= events@.len(),
                forall|j: int| 0 <= j < k ==> #[trigger] vs[j].seq == j + 1,
            decreases events@.len() - k,
        {
            proof { assert(vs[k as int] == events@[k as int]@); }
            if events[k].seq as i128 != k as i128 + 1 {
                proof { assert(vs[k as int].seq != k + 1); }
                return None;
            }
            k += 1;
        }
        Some(Journal { events })
    }
}

/// Saving a journal and restoring what was saved gives back the same
/// events: a snapshot of a journal is always restorable.
pub proof fn lemma_snapshot_restorable(j: Journal, saved: Seq<JournalEventV>)
    requires
        j.wf(),
        saved == j.events(),
    ensures
        restorable_events(saved),
{
}

/// Appending never changes or reorders earlier events, and the new event's
/// `seq` is larger than every earlier one.
pub proof fn lemma_append_only(before: Journal, after: Journal, e: JournalEventV)
    requires
        before.wf(),
        after.events() == before.events().push(e),
        e.seq == before.last_seq() + 1,
    ensures
        forall|k: int| 0 <= k < before.events().len() ==> after.events()[k] == before.events()[k],
        forall|k: int| 0 <= k < before.events().len() ==> #[trigger] before.events()[k].seq < e.seq,
{
}

} // verus!
