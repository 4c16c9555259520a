//! Counting and ordering the entries of one queue.
use vstd::prelude::*;
use crate::model::{entries_model, EntryModel, Queue, QueueEntryStatus, QueueModel, WeeklySchedule};
use crate::store::{entry_has_id, find_first, lemma_find_first, lemma_find_first_unique};
use crate::views::QueueSummary;

verus! {

pub open spec fn is_pending(e: EntryModel) -> bool {
    e.status == QueueEntryStatus::Pending
}

/// Pending or claimed: the request still needs handling.
pub open spec fn is_active(e: EntryModel) -> bool {
    e.status == QueueEntryStatus::Pending || e.status == QueueEntryStatus::Claimed
}

pub open spec fn pending_count(es: Seq<EntryModel>) -> nat {
    es.filter(|e: EntryModel| is_pending(e)).len()
}

pub open spec fn active_count(es: Seq<EntryModel>) -> nat {
    es.filter(|e: EntryModel| is_active(e)).len()
}

/// The place of an entry among the pending entries, counted from one;
/// `None` for an unknown entry or one that is not pending.
pub open spec fn position_of(es: Seq<EntryModel>, entry_id: u128) -> Option<nat> {
    match find_first(es, entry_has_id(entry_id)) {
        None => None,
        Some(i) => if is_pending(es[i]) {
            Some(pending_count(es.take(i + 1)))
        } else {
            None
        },
    }
}

pub ghost struct SummaryModel {
    pub id: u128,
    pub code: Seq<char>,
    pub name: Seq<char>,
    pub allow_guests: bool,
    pub is_public: bool,
    pub opens_at: Option<Seq<char>>,
    pub weekly_schedule: Option<WeeklySchedule>,
    pub waiting_count: nat,
    pub active_count: nat,
}

impl View for QueueSummary {
    type V = SummaryModel;

    open spec fn view(&self) -> SummaryModel {
        SummaryModel {
            id: self.id,
            code: self.code@,
            name: self.name@,
            allow_guests: self.allow_guests,
            is_public: self.is_public,
            opens_at: crate::model::opt_text(self.opens_at),
            weekly_schedule: self.weekly_schedule,
            waiting_count: self.waiting_count as nat,
            active_count: self.active_count as nat,
        }
    }
}

pub open spec fn summary_of(q: QueueModel) -> SummaryModel {
    SummaryModel {
        id: q.id,
        code: q.code,
        name: q.name,
        allow_guests: q.allow_guests,
        is_public: q.is_public,
        opens_at: q.opens_at,
        weekly_schedule: q.weekly_schedule,
        waiting_count: pending_count(q.entries),
        active_count: active_count(q.entries),
    }
}

pub proof fn lemma_filter_len_bound(s: Seq<EntryModel>, p: spec_fn(EntryModel) -> bool)
    ensures
        s.filter(p).len() <= s.len(),
    decreases s.len(),
{
    reveal(Seq::filter);
    if s.len() > 0 {
        lemma_filter_len_bound(s.drop_last(), p);
    }
}

pub fn clone_opt(o: &Option<String>) -> (r: Option<String>)
    ensures
        crate::model::opt_text(r) == crate::model::opt_text(*o),
{
    match o {
        Some(s) => Some(s.clone()),
        None => None,
    }
}

impl Queue {
    /// The number of pending entries.
    pub fn waiting_count(&self) -> (r: usize)
        ensures
            r == pending_count(self@.entries),
    {
        let ghost es = entries_model(self.entries@);
        let mut n: usize = 0;
        let mut i: usize = 0;
        while i < self.entries.len()
            invariant
                es == entries_model(self.entries@),
                i <= self.entries@.len(),
                n == pending_count(es.take(i as int)),
                n <= i,
            decreases self.entries@.len() - i,
        {
            proof {
                assert(es.take(i + 1) =~= es.take(i as int).push(es[i as int]));
                es.take(i as int).lemma_filter_push(es[i as int], |e: EntryModel| is_pending(e));
            }
            if self.entries[i].status == QueueEntryStatus::Pending {
                n = n + 1;
            }
            i = i + 1;
        }
        assert(es.take(i as int) =~= es);
        n
    }

    /// The number of pending or claimed entries.
    pub fn active_count(&self) -> (r: usize)
        ensures
            r == active_count(self@.entries),
    {
        let ghost es = entries_model(self.entries@);
        let mut n: usize = 0;
        let mut i: usize = 0;
        while i < self.entries.len()
            invariant
                es == entries_model(self.entries@),
                i <= self.entries@.len(),
                n == active_count(es.take(i as int)),
                n <= i,
            decreases self.entries@.len() - i,
        {
            proof {
                assert(es.take(i + 1) =~= es.take(i as int).push(es[i as int]));
                es.take(i as int).lemma_filter_push(es[i as int], |e: EntryModel| is_active(e));
            }
            if self.entries[i].status == QueueEntryStatus::Pending || self.entries[i].status
                == QueueEntryStatus::Claimed {
                n = n + 1;
            }
            i = i + 1;
        }
        assert(es.take(i as int) =~= es);
        n
    }

    /// Where the entry stands among the pending entries.
    pub fn position_for(&self, entry_id: u128) -> (r: Option<usize>)
        ensures
            match r {
                Some(p) => position_of(self@.entries, entry_id) == Some(p as nat),
                None => position_of(self@.entries, entry_id) is None,
            },
    {
        let ghost es = entries_model(self.entries@);
        let mut position: usize = 0;
        let mut i: usize = 0;
        while i < self.entries.len()
            invariant
                es == entries_model(self.entries@),
                i <= self.entries@.len(),
                position == pending_count(es.take(i as int)),
                position <= i,
                forall|j: int| 0 <= j < i ==> !entry_has_id(entry_id)(#[trigger] es[j]),
            decreases self.entries@.len() - i,
        {
            proof {
                assert(es.take(i + 1) =~= es.take(i as int).push(es[i as int]));
                es.take(i as int).lemma_filter_push(es[i as int], |e: EntryModel| is_pending(e));
            }
            if self.entries[i].status == QueueEntryStatus::Pending {
                position = position + 1;
            }
            if self.entries[i].id == entry_id {
                proof {
                    lemma_find_first_unique(es, entry_has_id(entry_id), Some(i as int));
                }
                return if self.entries[i].status == QueueEntryStatus::Pending {
                    Some(position)
                } else {
                    None
                };
            }
            i = i + 1;
        }
        proof {
            lemma_find_first_unique(es, entry_has_id(entry_id), None);
        }
        None
    }

    /// The counts and settings shown in queue lists.
    pub fn summary(&self) -> (r: QueueSummary)
        ensures
            r@ == summary_of(self@),
    {
        QueueSummary {
            id: self.id,
            code: self.code.clone(),
            name: self.name.clone(),
            allow_guests: self.allow_guests,
            is_public: self.is_public,
            opens_at: clone_opt(&self.opens_at),
            weekly_schedule: self.weekly_schedule,
            waiting_count: self.waiting_count(),
            active_count: self.active_count(),
        }
    }
}

impl Queue {
    /// A join code as typed, normalised: ASCII letters and digits only,
    /// upper-cased.
    pub fn normalize_code(value: &str) -> (r: String)
        ensures
            r@ == crate::text::code_of(value@),
    {
        crate::text::normalize_code(value)
    }
}

} // verus!
