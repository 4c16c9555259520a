//! Building what admins and requesters are shown from the store.
use vstd::prelude::*;
use crate::clock::{
    add_seconds, parse_rfc3339, representable, rfc3339_parse, rfc3339_text, seconds_later,
    to_rfc3339, Instant,
};
use crate::entries::{entry_has_token, opt_str, REJOIN_COOLDOWN_SECS};
use crate::manage::{admin_sees, can_manage};
use crate::model::{
    copy_fields, copy_ids, entries_model, opt_text, EntryModel, QueueEntry, QueueModel,
    SettingsModel, SiteSettings,
};
use crate::queue::{clone_opt, position_of, pending_count, summary_of};
use crate::schedule::{not_open_message, queue_is_open_at, queue_not_open_message_at, queue_open};
use crate::store::{
    archive_has_id, find_first, lemma_find_first, lemma_find_first_unique, queue_has_id, queue_of,
    Store, StoreModel,
};
use crate::order::{as_ints, in_order, is_permutation, lemma_arranged, reordering, sort_order, sorted_by};
use crate::queue::SummaryModel;
use crate::text::text_eq;
use crate::views::QueueSummary;
use crate::views::{
    admin_entries_model, AdminEntryModel, AdminEntryView, AdminQueueModel, AdminQueueView,
    SiteSettingsView, UserEntryModel, UserEntryView, UserQueueModel, UserQueueView,
};

verus! {

// ---------------------------------------------------------------------------
// Model
// ---------------------------------------------------------------------------

pub open spec fn admin_entry_of(e: EntryModel) -> AdminEntryModel {
    AdminEntryModel {
        id: e.id,
        status: e.status,
        submitted_at: e.submitted_at,
        claimed_by: e.claimed_by,
        requester_label: e.requester_label,
        requester_email: e.requester_email,
        is_guest: e.is_guest,
        values: e.values,
    }
}

pub open spec fn admin_entries_of(es: Seq<EntryModel>) -> Seq<AdminEntryModel> {
    es.map_values(|e: EntryModel| admin_entry_of(e))
}

pub open spec fn admin_queue_of(q: QueueModel) -> AdminQueueModel {
    AdminQueueModel {
        summary: summary_of(q),
        owner_name: q.owner_name,
        owner_account_id: q.owner_account_id,
        shared_account_ids: q.shared_account_ids,
        shared_group_ids: q.shared_group_ids,
        fields: q.fields,
        entries: admin_entries_of(q.entries),
    }
}

/// The detail of a live queue the admin may manage.
pub open spec fn admin_queue_view_of(m: StoreModel, token: Seq<char>, queue_id: u128) -> Option<AdminQueueModel> {
    if admin_sees(m, token, queue_id) {
        Some(admin_queue_of(queue_of(m, queue_id)->0))
    } else {
        None
    }
}

/// When a requester who left at `left_at` may join again, as written by
/// `chrono`.
pub open spec fn rejoin_after_of(left_at: Option<Seq<char>>) -> Option<Seq<char>> {
    match left_at {
        None => None,
        Some(t) => match rfc3339_parse(t) {
            Err(_) => None,
            Ok((s, n)) => match seconds_later(s, n, REJOIN_COOLDOWN_SECS) {
                None => None,
                Some((a, b)) => rfc3339_text(a, b),
            },
        },
    }
}

pub open spec fn user_entry_of(es: Seq<EntryModel>, e: EntryModel) -> UserEntryModel {
    UserEntryModel {
        id: e.id,
        token: e.token,
        status: e.status,
        claimed_by: e.claimed_by,
        values: e.values,
        submitted_at: e.submitted_at,
        left_at: e.left_at,
        rejoin_after: rejoin_after_of(e.left_at),
        position: position_of(es, e.id),
        requester_label: e.requester_label,
        is_guest: e.is_guest,
    }
}

/// The requester's own request: the first one under the entry token.
pub open spec fn your_entry(q: QueueModel, token: Option<Seq<char>>) -> Option<UserEntryModel> {
    match token {
        None => None,
        Some(t) => match find_first(q.entries, entry_has_token(t)) {
            None => None,
            Some(k) => Some(user_entry_of(q.entries, q.entries[k])),
        },
    }
}

pub open spec fn user_queue_of(q: QueueModel, closed: Option<(Seq<char>, Seq<char>)>) -> UserQueueModel {
    UserQueueModel {
        id: q.id,
        code: q.code,
        name: q.name,
        fields: q.fields,
        allow_guests: q.allow_guests,
        opens_at: q.opens_at,
        weekly_schedule: q.weekly_schedule,
        waiting_count: pending_count(q.entries),
        closed_at: match closed {
            Some(c) => Some(c.0),
            None => None,
        },
        closed_by_name: match closed {
            Some(c) => Some(c.1),
            None => None,
        },
    }
}

/// What a requester sees of a queue at `now`: a live queue only while it
/// is open, a closed queue with when and by whom it was closed.
pub open spec fn user_view_of(m: StoreModel, queue_id: u128, token: Option<Seq<char>>, now: Instant) -> Option<
    (UserQueueModel, Option<UserEntryModel>),
> {
    match find_first(m.queues, queue_has_id(queue_id)) {
        Some(i) => if queue_open(m.queues[i], now) {
            Some((user_queue_of(m.queues[i], None), your_entry(m.queues[i], token)))
        } else {
            None
        },
        None => match find_first(m.archived, archive_has_id(queue_id)) {
            None => None,
            Some(j) => {
                let a = m.archived[j];
                Some(
                    (
                        user_queue_of(a.queue, Some((a.closed_at, a.closed_by_name))),
                        your_entry(a.queue, token),
                    ),
                )
            },
        },
    }
}

pub open spec fn user_view_result(r: Option<(UserQueueView, Option<UserEntryView>)>) -> Option<
    (UserQueueModel, Option<UserEntryModel>),
> {
    match r {
        None => None,
        Some((q, e)) => Some(
            (
                q@,
                match e {
                    Some(x) => Some(x@),
                    None => None,
                },
            ),
        ),
    }
}

/// Why requesters cannot use a live queue at `now`; `None` when it is open
/// or unknown.
pub open spec fn unavailable_message_of(m: StoreModel, queue_id: u128, now: Instant) -> Option<Seq<char>> {
    match queue_of(m, queue_id) {
        None => None,
        Some(q) => if queue_open(q, now) {
            None
        } else {
            Some(not_open_message(q, now))
        },
    }
}

// ---------------------------------------------------------------------------
// Executable
// ---------------------------------------------------------------------------

impl SiteSettings {
    /// The settings as shown to everyone.
    pub fn view(&self) -> (r: SiteSettingsView)
        ensures
            r@ == crate::model::settings_of(*self),
    {
        SiteSettingsView {
            site_title: self.site_title.clone(),
            admin_password_sign_in_enabled: self.admin_password_sign_in_enabled,
            admin_microsoft_sign_in_enabled: self.admin_microsoft_sign_in_enabled,
            user_password_sign_in_enabled: self.user_password_sign_in_enabled,
            user_microsoft_sign_in_enabled: self.user_microsoft_sign_in_enabled,
        }
    }
}

impl QueueEntry {
    /// The entry as an admin sees it.
    pub fn admin_view(&self) -> (r: AdminEntryView)
        ensures
            r@ == admin_entry_of(self@),
    {
        AdminEntryView {
            id: self.id,
            status: self.status,
            submitted_at: self.submitted_at.clone(),
            claimed_by: clone_opt(&self.claimed_by),
            requester_label: self.requester_label.clone(),
            requester_email: clone_opt(&self.requester_email),
            is_guest: self.is_guest,
            values: self.values.copy(),
        }
    }
}

/// The entries as an admin sees them.
pub fn admin_entries(es: &Vec<QueueEntry>) -> (r: Vec<AdminEntryView>)
    ensures
        admin_entries_model(r@) == admin_entries_of(entries_model(es@)),
{
    let ghost src = entries_model(es@);
    let mut out: Vec<AdminEntryView> = Vec::new();
    let mut i: usize = 0;
    while i < es.len()
        invariant
            src == entries_model(es@),
            i <= es@.len(),
            admin_entries_model(out@) == admin_entries_of(src.take(i as int)),
        decreases es@.len() - i,
    {
        let ghost before = out@;
        let v = es[i].admin_view();
        out.push(v);
        assert(admin_entries_model(out@) =~= admin_entries_model(before).push(v@));
        assert(src.take(i + 1) =~= src.take(i as int).push(src[i as int]));
        assert(admin_entries_of(src.take(i + 1)) =~= admin_entries_of(src.take(i as int)).push(
            admin_entry_of(src[i as int]),
        ));
        i = i + 1;
    }
    assert(src.take(i as int) =~= src);
    out
}

impl crate::model::Queue {
    /// The queue as its admins see it.
    pub fn admin_detail(&self) -> (r: AdminQueueView)
        ensures
            r@ == admin_queue_of(self@),
    {
        AdminQueueView {
            summary: self.summary(),
            owner_name: self.owner_name.clone(),
            owner_account_id: self.owner_account_id,
            shared_account_ids: copy_ids(&self.shared_account_ids),
            shared_group_ids: copy_ids(&self.shared_group_ids),
            fields: copy_fields(&self.fields),
            entries: admin_entries(&self.entries),
        }
    }
}

/// When a requester who left at `left_at` may join again.
pub fn rejoin_after_timestamp(left_at: &Option<String>) -> (r: Option<String>)
    ensures
        opt_text(r) == rejoin_after_of(opt_text(*left_at)),
{
    match left_at {
        None => None,
        Some(t) => match parse_rfc3339(t.as_str()) {
            Err(_) => None,
            Ok(left) => match add_seconds(left, REJOIN_COOLDOWN_SECS) {
                None => None,
                Some(at) => to_rfc3339(at),
            },
        },
    }
}

/// The requester's own request in the queue, found by entry token.
fn your_entry_view(q: &crate::model::Queue, token: Option<&str>) -> (r: Option<UserEntryView>)
    ensures
        match r {
            Some(x) => your_entry(q@, opt_str(token)) == Some(x@),
            None => your_entry(q@, opt_str(token)) is None,
        },
{
    let t = match token {
        None => {
            return None;
        },
        Some(t) => t,
    };
    let ghost es = q@.entries;
    let mut i: usize = 0;
    while i < q.entries.len()
        invariant
            es == q@.entries,
            es == entries_model(q.entries@),
            token == Some(t),
            i <= q.entries@.len(),
            forall|j: int| 0 <= j < i ==> !entry_has_token(t@)(#[trigger] es[j]),
        decreases q.entries@.len() - i,
    {
        let e = &q.entries[i];
        if text_eq(e.token.as_str(), t) {
            proof {
                lemma_find_first_unique(es, entry_has_token(t@), Some(i as int));
            }
            let position = match q.position_for(e.id) {
                Some(p) => Some(p),
                None => None,
            };
            return Some(
                UserEntryView {
                    id: e.id,
                    token: e.token.clone(),
                    status: e.status,
                    claimed_by: clone_opt(&e.claimed_by),
                    values: e.values.copy(),
                    submitted_at: e.submitted_at.clone(),
                    left_at: clone_opt(&e.left_at),
                    rejoin_after: rejoin_after_timestamp(&e.left_at),
                    position,
                    requester_label: e.requester_label.clone(),
                    is_guest: e.is_guest,
                },
            );
        }
        i = i + 1;
    }
    proof {
        lemma_find_first_unique(es, entry_has_token(t@), None);
    }
    None
}

/// The queue as a requester sees it.
fn user_queue_view(q: &crate::model::Queue, closed: Option<(String, String)>) -> (r: UserQueueView)
    ensures
        r@ == user_queue_of(
            q@,
            match closed {
                Some(c) => Some((c.0@, c.1@)),
                None => None,
            },
        ),
{
    let (closed_at, closed_by_name) = match closed {
        Some((a, b)) => (Some(a), Some(b)),
        None => (None, None),
    };
    UserQueueView {
        id: q.id,
        code: q.code.clone(),
        name: q.name.clone(),
        fields: copy_fields(&q.fields),
        allow_guests: q.allow_guests,
        opens_at: clone_opt(&q.opens_at),
        weekly_schedule: q.weekly_schedule,
        waiting_count: q.waiting_count(),
        closed_at,
        closed_by_name,
    }
}

impl Store {
    /// The settings as shown to everyone.
    pub fn site_settings_view(&self) -> (r: SiteSettingsView)
        ensures
            r@ == self@.settings,
    {
        self.site_settings.view()
    }

    /// The detail of a live queue, for an admin who may manage it.
    pub fn admin_queue_view(&self, admin_token: &str, queue_id: u128) -> (r: Option<AdminQueueView>)
        ensures
            match r {
                Some(v) => admin_queue_view_of(self@, admin_token@, queue_id) == Some(v@),
                None => admin_queue_view_of(self@, admin_token@, queue_id) is None,
            },
    {
        if !self.admin_can_see_queue(admin_token, queue_id) {
            return None;
        }
        match self.find_queue(queue_id) {
            Some(i) => {
                proof {
                    lemma_find_first(self@.queues, queue_has_id(queue_id));
                }
                Some(self.queues[i].admin_detail())
            },
            None => None,
        }
    }

    /// What a requester sees of a queue at the given time, with the
    /// requester's own request when the entry token finds one.
    pub fn user_view_at(&self, queue_id: u128, entry_token: Option<&str>, now: Instant) -> (r: Option<
        (UserQueueView, Option<UserEntryView>),
    >)
        requires
            representable(now),
        ensures
            user_view_result(r) == user_view_of(self@, queue_id, opt_str(entry_token), now),
    {
        match self.find_queue(queue_id) {
            Some(i) => {
                proof {
                    lemma_find_first(self@.queues, queue_has_id(queue_id));
                }
                let q = &self.queues[i];
                if !queue_is_open_at(q, now) {
                    return None;
                }
                Some((user_queue_view(q, None), your_entry_view(q, entry_token)))
            },
            None => match self.find_archive(queue_id) {
                None => None,
                Some(j) => {
                    proof {
                        lemma_find_first(self@.archived, archive_has_id(queue_id));
                    }
                    let a = &self.archived_queues[j];
                    let closed = (a.closed_at.clone(), a.closed_by_name.clone());
                    Some((user_queue_view(&a.queue, Some(closed)), your_entry_view(&a.queue, entry_token)))
                },
            },
        }
    }

    /// What a requester sees of a queue now.
    pub fn user_view(&self, queue_id: u128, entry_token: Option<&str>) -> (r: Option<
        (UserQueueView, Option<UserEntryView>),
    >)
        ensures
            exists|now: Instant|
                representable(now) && user_view_result(r) == user_view_of(
                    self@,
                    queue_id,
                    opt_str(entry_token),
                    now,
                ),
    {
        let now = crate::clock::now();
        self.user_view_at(queue_id, entry_token, now)
    }

    /// Why requesters cannot use a live queue at the given time.
    pub fn queue_unavailable_message_at(&self, queue_id: u128, now: Instant) -> (r: Option<String>)
        requires
            representable(now),
        ensures
            opt_text(r) == unavailable_message_of(self@, queue_id, now),
    {
        match self.find_queue(queue_id) {
            None => None,
            Some(i) => {
                proof {
                    lemma_find_first(self@.queues, queue_has_id(queue_id));
                }
                if queue_is_open_at(&self.queues[i], now) {
                    None
                } else {
                    Some(queue_not_open_message_at(&self.queues[i], now))
                }
            },
        }
    }

    /// Why requesters cannot use a live queue now.
    pub fn queue_unavailable_message(&self, queue_id: u128) -> (r: Option<String>)
        ensures
            exists|now: Instant|
                representable(now) && opt_text(r) == unavailable_message_of(self@, queue_id, now),
    {
        let now = crate::clock::now();
        self.queue_unavailable_message_at(queue_id, now)
    }
}

// ---------------------------------------------------------------------------
// Public list
// ---------------------------------------------------------------------------

pub open spec fn listed_publicly(now: Instant) -> spec_fn(QueueModel) -> bool {
    |q: QueueModel| q.is_public && queue_open(q, now)
}

pub open spec fn summaries_model(v: Seq<QueueSummary>) -> Seq<SummaryModel> {
    v.map_values(|s: QueueSummary| s@)
}

pub open spec fn texts_of(v: Seq<String>) -> Seq<Seq<char>> {
    v.map_values(|s: String| s@)
}

/// The public queues that are open at `now`, ordered by name.
pub open spec fn public_list_ok(m: StoreModel, now: Instant, r: Seq<SummaryModel>) -> bool {
    &&& reordering(r, m.queues.filter(listed_publicly(now)).map_values(|q: QueueModel| summary_of(q)))
    &&& sorted_by(r, |s: SummaryModel| s.name, false)
}

impl Store {
    /// The public queues that are open at the given time, ordered by name.
    pub fn public_queues_at(&self, now: Instant) -> (r: Vec<QueueSummary>)
        requires
            representable(now),
        ensures
            public_list_ok(self@, now, summaries_model(r@)),
    {
        let ghost m = self@;
        let ghost f = listed_publicly(now);
        let mut idx: Vec<usize> = Vec::new();
        let mut keys: Vec<String> = Vec::new();
        let mut i: usize = 0;
        while i < self.queues.len()
            invariant
                m == self@,
                f == listed_publicly(now),
                representable(now),
                i <= m.queues.len(),
                idx@.len() == m.queues.take(i as int).filter(f).len(),
                keys@.len() == idx@.len(),
                forall|j: int|
                    0 <= j < idx@.len() ==> #[trigger] idx@[j] < m.queues.len() && m.queues[idx@[j] as int]
                        == m.queues.take(i as int).filter(f)[j] && keys@[j]@ == m.queues[idx@[j] as int].name,
            decreases m.queues.len() - i,
        {
            proof {
                assert(m.queues.take(i + 1) =~= m.queues.take(i as int).push(m.queues[i as int]));
                m.queues.take(i as int).lemma_filter_push(m.queues[i as int], f);
            }
            if self.queues[i].is_public && queue_is_open_at(&self.queues[i], now) {
                idx.push(i);
                keys.push(self.queues[i].name.clone());
            }
            i = i + 1;
        }
        assert(m.queues.take(i as int) =~= m.queues);
        let order = sort_order(&keys, false);
        let mut out: Vec<QueueSummary> = Vec::new();
        let mut x: usize = 0;
        while x < order.len()
            invariant
                m == self@,
                x <= order@.len(),
                is_permutation(as_ints(order@), keys@.len()),
                idx@.len() == keys@.len(),
                forall|j: int| 0 <= j < idx@.len() ==> #[trigger] idx@[j] < m.queues.len(),
                out@.len() == x,
                forall|y: int|
                    0 <= y < x ==> (#[trigger] out@[y])@ == summary_of(
                        m.queues[idx@[order@[y] as int] as int],
                    ),
            decreases order@.len() - x,
        {
            assert(as_ints(order@)[x as int] == order@[x as int] as int);
            let k = idx[order[x]];
            out.push(self.queues[k].summary());
            x = x + 1;
        }
        proof {
            let ks = texts_of(keys@);
            assert forall|a: int, b: int| 0 <= a < b < order@.len() implies in_order(
                ks[order@[a] as int],
                ks[order@[b] as int],
                false,
            ) by {
                assert(as_ints(order@)[a] == order@[a] as int);
                assert(as_ints(order@)[b] == order@[b] as int);
            }
            lemma_arranged(
                m.queues,
                m.queues.filter(f),
                idx@,
                ks,
                order@,
                summaries_model(out@),
                |q: QueueModel| summary_of(q),
                |q: QueueModel| q.name,
                |s: SummaryModel| s.name,
                false,
            );
        }
        out
    }

    /// The public queues that are open now, ordered by name.
    pub fn public_queues(&self) -> (r: Vec<QueueSummary>)
        ensures
            exists|now: Instant| representable(now) && public_list_ok(self@, now, summaries_model(r@)),
    {
        let now = crate::clock::now();
        self.public_queues_at(now)
    }
}

} // verus!
