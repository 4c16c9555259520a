//! Requests in live queues: leaving, and what admins do with them.
use vstd::prelude::*;
use crate::accounts::{fail, msg_unknown_admin, unit_result};
use crate::clock::{
    add_seconds, instant_lt, is_before, parse_rfc3339, representable, rfc3339_parse,
    rfc3339_text, seconds_between, seconds_later, to_rfc3339, whole_seconds_between, Instant,
};
use crate::ids::{fresh_id, uuid_string, uuid_text};
use crate::manage::texts_contain;
use crate::model::{
    entries_model, fields_model, opt_text, AccountModel, AccountRole, EntryModel, FieldModel,
    QueueEntry, QueueEntryStatus, QueueField, QueueModel, TextMap,
};
use crate::queue::is_active;
use crate::schedule::{not_open_message, queue_is_open_at, queue_not_open_message_at, queue_open};
use crate::store::{
    admin_of, entry_has_id, find_first, find_last, ix_matches, lemma_find_first,
    lemma_find_first_unique, lemma_find_last, lemma_find_last_unique, queue_has_id,
    queue_holds_entry, queues_model, user_of, Store, StoreModel,
};
use crate::text::{concat, decimal, owned, push_decimal, text_eq, trim, trimmed};
use crate::utils::{is_name_key, is_requester_name_key};

verus! {

// ---------------------------------------------------------------------------
// Model
// ---------------------------------------------------------------------------

/// The store with entry `k` of live queue `qi` replaced by `e`.
pub open spec fn with_entry(m: StoreModel, qi: int, k: int, e: EntryModel) -> StoreModel {
    StoreModel {
        queues: m.queues.update(
            qi,
            QueueModel { entries: m.queues[qi].entries.update(k, e), ..m.queues[qi] },
        ),
        ..m
    }
}

pub open spec fn entry_has_token(token: Seq<char>) -> spec_fn(EntryModel) -> bool {
    |e: EntryModel| e.token == token
}

pub open spec fn u128_result(r: Result<u128, String>) -> Result<u128, Seq<char>> {
    match r {
        Ok(v) => Ok(v),
        Err(e) => Err(e@),
    }
}

/// A requester leaves, at the time written `left_at`, the first request in
/// the queue that carries `token`; only a pending or claimed request can be
/// left.
pub open spec fn leaving(m: StoreModel, queue_id: u128, token: Seq<char>, left_at: Seq<char>) -> (
    StoreModel,
    Result<(), Seq<char>>,
) {
    match find_first(m.queues, queue_has_id(queue_id)) {
        None => (m, Err("queue not found"@)),
        Some(qi) => match find_first(m.queues[qi].entries, entry_has_token(token)) {
            None => (m, Err("queue entry not found for leave request"@)),
            Some(k) => {
                let e = m.queues[qi].entries[k];
                if is_active(e) {
                    (
                        with_entry(
                            m,
                            qi,
                            k,
                            EntryModel {
                                status: QueueEntryStatus::Left,
                                claimed_by: None,
                                left_at: Some(left_at),
                                ..e
                            },
                        ),
                        Ok(()),
                    )
                } else {
                    (m, Err("queue entry is already closed"@))
                }
            },
        },
    }
}

/// What an admin's action on an entry comes to, once the admin, the entry
/// and the right to act are established: the changed entry, or `None`
/// where the action does not apply to the entry's state.
#[derive(Clone, Copy, Debug, PartialEq, Eq, Structural)]
pub enum EntryAction {
    Claim,
    Unclaim,
    SetStatus(QueueEntryStatus),
}

/// How the action changes the entry; `admin_name` is written as the handler.
pub open spec fn acted(e: EntryModel, action: EntryAction, admin_name: Seq<char>) -> Option<EntryModel> {
    match action {
        EntryAction::Claim => if e.status == QueueEntryStatus::Pending {
            Some(
                EntryModel {
                    status: QueueEntryStatus::Claimed,
                    claimed_by: Some(admin_name),
                    ..e
                },
            )
        } else {
            None
        },
        EntryAction::Unclaim => if e.status == QueueEntryStatus::Claimed {
            Some(EntryModel { status: QueueEntryStatus::Pending, claimed_by: None, ..e })
        } else {
            None
        },
        EntryAction::SetStatus(next) => if (e.status == QueueEntryStatus::Pending || e.status
            == QueueEntryStatus::Claimed) && (next == QueueEntryStatus::Resolved || next
            == QueueEntryStatus::Denied) {
            Some(
                EntryModel {
                    status: next,
                    claimed_by: if e.claimed_by is None {
                        Some(admin_name)
                    } else {
                        e.claimed_by
                    },
                    ..e
                },
            )
        } else if (e.status == QueueEntryStatus::Resolved || e.status == QueueEntryStatus::Denied)
            && next == QueueEntryStatus::Pending && e.left_at is None {
            Some(EntryModel { status: QueueEntryStatus::Pending, claimed_by: None, ..e })
        } else {
            None
        },
    }
}

/// The refusal for an action that does not apply to the entry's state.
pub open spec fn refusal(action: EntryAction) -> Seq<char> {
    match action {
        EntryAction::Claim => "only pending requests can be claimed"@,
        EntryAction::Unclaim => "only claimed requests can be unclaimed"@,
        EntryAction::SetStatus(_) => "invalid status transition"@,
    }
}

/// The queue's owner or a super admin acts on a request in a live queue;
/// the result is the queue's id.
pub open spec fn entry_handling(m: StoreModel, token: Seq<char>, entry_id: u128, action: EntryAction) -> (
    StoreModel,
    Result<u128, Seq<char>>,
) {
    match admin_of(m, token) {
        None => (m, Err(msg_unknown_admin())),
        Some(admin) => match find_first(m.queues, queue_holds_entry(entry_id)) {
            None => (m, Err("queue entry not found"@)),
            Some(qi) => {
                let q = m.queues[qi];
                if !(admin.role == AccountRole::SuperAdmin || q.owner_account_id == admin.id) {
                    (m, Err("you do not have access to this queue"@))
                } else {
                    let k = find_first(q.entries, entry_has_id(entry_id))->0;
                    match acted(q.entries[k], action, admin.name) {
                        None => (m, Err(refusal(action))),
                        Some(e) => (with_entry(m, qi, k, e), Ok(q.id)),
                    }
                }
            },
        },
    }
}

// ---------------------------------------------------------------------------
// Executable
// ---------------------------------------------------------------------------

proof fn lemma_entries_replace(v: Seq<QueueEntry>, k: int, e: QueueEntry)
    requires
        0 <= k < v.len(),
    ensures
        entries_model(v.remove(k).insert(k, e)) == entries_model(v).update(k, e@),
{
    assert(entries_model(v.remove(k).insert(k, e)) =~= entries_model(v).update(k, e@));
}

impl Store {
    /// Sets the status, handler and leave time of entry `k` of live queue `qi`.
    fn update_entry(
        &mut self,
        qi: usize,
        k: usize,
        status: QueueEntryStatus,
        claimed_by: Option<String>,
        left_at: Option<String>,
    )
        requires
            qi < old(self)@.queues.len(),
            k < old(self)@.queues[qi as int].entries.len(),
        ensures
            final(self)@ == with_entry(
                old(self)@,
                qi as int,
                k as int,
                EntryModel {
                    status,
                    claimed_by: opt_text(claimed_by),
                    left_at: opt_text(left_at),
                    ..old(self)@.queues[qi as int].entries[k as int]
                },
            ),
    {
        let ghost m = self@;
        let ghost qs = self.queues@;
        let mut q = self.queues.remove(qi);
        let ghost es = q.entries@;
        let mut e = q.entries.remove(k);
        e.status = status;
        e.claimed_by = claimed_by;
        e.left_at = left_at;
        let ghost ev = e@;
        q.entries.insert(k, e);
        proof {
            lemma_entries_replace(es, k as int, q.entries@[k as int]);
            assert(q.entries@ == es.remove(k as int).insert(k as int, q.entries@[k as int]));
        }
        let ghost qv = q@;
        self.queues.insert(qi, q);
        proof {
            assert(queues_model(self.queues@) =~= queues_model(qs).update(qi as int, qv));
            assert(qv == QueueModel { entries: m.queues[qi as int].entries.update(k as int, ev), ..m.queues[qi as int] });
        }
    }

    /// The index of the first entry of live queue `qi` with the given token.
    fn find_entry_by_token(&self, qi: usize, token: &str) -> (r: Option<usize>)
        requires
            qi < self@.queues.len(),
        ensures
            match r {
                Some(k) => find_first(self@.queues[qi as int].entries, entry_has_token(token@))
                    == Some(k as int),
                None => find_first(self@.queues[qi as int].entries, entry_has_token(token@))
                    is None,
            },
    {
        let ghost es = self@.queues[qi as int].entries;
        let entries = &self.queues[qi].entries;
        let mut i: usize = 0;
        while i < entries.len()
            invariant
                es == entries_model(entries@),
                qi < self@.queues.len(),
                es == self@.queues[qi as int].entries,
                i <= entries@.len(),
                forall|j: int| 0 <= j < i ==> !entry_has_token(token@)(#[trigger] es[j]),
            decreases entries@.len() - i,
        {
            if text_eq(entries[i].token.as_str(), token) {
                proof {
                    lemma_find_first_unique(es, entry_has_token(token@), Some(i as int));
                }
                return Some(i);
            }
            i = i + 1;
        }
        proof {
            lemma_find_first_unique(es, entry_has_token(token@), None);
        }
        None
    }

    /// A requester leaves a live queue at the given time.
    pub fn leave_queue_at(&mut self, queue_id: u128, entry_token: &str, now: Instant) -> (r: Result<(), String>)
        requires
            representable(now),
        ensures
            (final(self)@, unit_result(r)) == leaving(
                old(self)@,
                queue_id,
                entry_token@,
                rfc3339_text(now.secs, now.nanos)->0,
            ),
    {
        let qi = match self.find_queue(queue_id) {
            Some(qi) => qi,
            None => {
                return fail("queue not found");
            },
        };
        proof {
            lemma_find_first(self@.queues, queue_has_id(queue_id));
        }
        let k = match self.find_entry_by_token(qi, entry_token) {
            Some(k) => k,
            None => {
                return fail("queue entry not found for leave request");
            },
        };
        proof {
            lemma_find_first(self@.queues[qi as int].entries, entry_has_token(entry_token@));
        }
        let status = self.queues[qi].entries[k].status;
        if status == QueueEntryStatus::Pending || status == QueueEntryStatus::Claimed {
            let left_at = match to_rfc3339(now) {
                Some(t) => t,
                None => owned(""),
            };
            self.update_entry(qi, k, QueueEntryStatus::Left, None, Some(left_at));
            Ok(())
        } else {
            fail("queue entry is already closed")
        }
    }

    /// A requester leaves a live queue now.
    pub fn leave_queue(&mut self, queue_id: u128, entry_token: &str) -> (r: Result<(), String>)
        ensures
            exists|now: Instant|
                representable(now) && (final(self)@, unit_result(r)) == leaving(
                    old(self)@,
                    queue_id,
                    entry_token@,
                    rfc3339_text(now.secs, now.nanos)->0,
                ),
    {
        let now = crate::clock::now();
        self.leave_queue_at(queue_id, entry_token, now)
    }

    /// Applies an admin's action to a request in a live queue.
    fn handle_entry(&mut self, admin_token: &str, entry_id: u128, action: EntryAction) -> (r: Result<u128, String>)
        ensures
            (final(self)@, u128_result(r)) == entry_handling(old(self)@, admin_token@, entry_id, action),
    {
        let a = match self.admin_account_index(admin_token) {
            Some(a) => a,
            None => {
                return fail("unknown admin session");
            },
        };
        let (qi, k) = match self.find_entry_queue(entry_id) {
            Some(p) => p,
            None => {
                return fail("queue entry not found");
            },
        };
        proof {
            lemma_find_first(self@.queues, queue_holds_entry(entry_id));
            lemma_find_first(self@.queues[qi as int].entries, entry_has_id(entry_id));
        }
        let admin_id = self.accounts[a].id;
        if !(self.accounts[a].is_super_admin() || self.queues[qi].owner_account_id == admin_id) {
            return fail("you do not have access to this queue");
        }
        let queue_id = self.queues[qi].id;
        let status = self.queues[qi].entries[k].status;
        let left = match &self.queues[qi].entries[k].left_at {
            Some(t) => Some(t.clone()),
            None => None,
        };
        let handler = match &self.queues[qi].entries[k].claimed_by {
            Some(t) => Some(t.clone()),
            None => None,
        };
        let admin_name = self.accounts[a].name.clone();
        match action {
            EntryAction::Claim => {
                if status == QueueEntryStatus::Pending {
                    self.update_entry(qi, k, QueueEntryStatus::Claimed, Some(admin_name), left);
                    Ok(queue_id)
                } else {
                    fail("only pending requests can be claimed")
                }
            },
            EntryAction::Unclaim => {
                if status == QueueEntryStatus::Claimed {
                    self.update_entry(qi, k, QueueEntryStatus::Pending, None, left);
                    Ok(queue_id)
                } else {
                    fail("only claimed requests can be unclaimed")
                }
            },
            EntryAction::SetStatus(next) => {
                if (status == QueueEntryStatus::Pending || status == QueueEntryStatus::Claimed) && (
                next == QueueEntryStatus::Resolved || next == QueueEntryStatus::Denied) {
                    let by = match handler {
                        Some(h) => Some(h),
                        None => Some(admin_name),
                    };
                    self.update_entry(qi, k, next, by, left);
                    Ok(queue_id)
                } else if (status == QueueEntryStatus::Resolved || status
                    == QueueEntryStatus::Denied) && next == QueueEntryStatus::Pending
                    && left.is_none() {
                    self.update_entry(qi, k, QueueEntryStatus::Pending, None, left);
                    Ok(queue_id)
                } else {
                    fail("invalid status transition")
                }
            },
        }
    }

    /// The queue's owner or a super admin claims a pending request; returns
    /// the queue's id.
    pub fn claim_entry(&mut self, admin_token: &str, entry_id: u128) -> (r: Result<u128, String>)
        ensures
            (final(self)@, u128_result(r)) == entry_handling(
                old(self)@,
                admin_token@,
                entry_id,
                EntryAction::Claim,
            ),
    {
        self.handle_entry(admin_token, entry_id, EntryAction::Claim)
    }

    /// The queue's owner or a super admin puts a claimed request back to
    /// pending; returns the queue's id.
    pub fn unclaim_entry(&mut self, admin_token: &str, entry_id: u128) -> (r: Result<u128, String>)
        ensures
            (final(self)@, u128_result(r)) == entry_handling(
                old(self)@,
                admin_token@,
                entry_id,
                EntryAction::Unclaim,
            ),
    {
        self.handle_entry(admin_token, entry_id, EntryAction::Unclaim)
    }

    /// The queue's owner or a super admin resolves or denies an open
    /// request, or reopens a resolved or denied one that was not left;
    /// returns the queue's id.
    pub fn update_entry_status(
        &mut self,
        admin_token: &str,
        entry_id: u128,
        next_status: QueueEntryStatus,
    ) -> (r: Result<u128, String>)
        ensures
            (final(self)@, u128_result(r)) == entry_handling(
                old(self)@,
                admin_token@,
                entry_id,
                EntryAction::SetStatus(next_status),
            ),
    {
        self.handle_entry(admin_token, entry_id, EntryAction::SetStatus(next_status))
    }
}


// ---------------------------------------------------------------------------
// Joining: model
// ---------------------------------------------------------------------------

/// How long, in seconds, a requester who left waits before joining again.
pub const REJOIN_COOLDOWN_SECS: i64 = 5;

pub open spec fn opt_str(o: Option<&str>) -> Option<Seq<char>> {
    match o {
        Some(s) => Some(s@),
        None => None,
    }
}

pub open spec fn text_result(r: Result<String, String>) -> Result<Seq<char>, Seq<char>> {
    match r {
        Ok(v) => Ok(v@),
        Err(e) => Err(e@),
    }
}

pub open spec fn value_or_empty(vals: Map<Seq<char>, Seq<char>>, k: Seq<char>) -> Seq<char> {
    if vals.contains_key(k) {
        vals[k]
    } else {
        Seq::empty()
    }
}

/// The value kept for a field: what was given, trimmed; a blank name field
/// takes the signed-in requester's name.
pub open spec fn field_value(vals: Map<Seq<char>, Seq<char>>, f: FieldModel, name: Option<Seq<char>>) -> Seq<char> {
    let v = trimmed(value_or_empty(vals, f.key));
    if is_name_key(f.key) && v.len() == 0 && name is Some {
        name->0
    } else {
        v
    }
}

/// Checks one field and writes its kept value.
pub open spec fn fill_one(vals: Map<Seq<char>, Seq<char>>, f: FieldModel, name: Option<Seq<char>>) -> Result<
    Map<Seq<char>, Seq<char>>,
    Seq<char>,
> {
    let v = field_value(vals, f, name);
    if f.required && v.len() == 0 {
        Err(f.label + " is required"@)
    } else if v.len() > 0 && f.options.len() > 0 && !f.options.contains(v) {
        Err(f.label + " must be one of the available options"@)
    } else {
        Ok(vals.insert(f.key, v))
    }
}

/// Checks the fields in order; the first failing one gives the error.
pub open spec fn fill_fields(vals: Map<Seq<char>, Seq<char>>, fs: Seq<FieldModel>, name: Option<Seq<char>>) -> Result<
    Map<Seq<char>, Seq<char>>,
    Seq<char>,
>
    decreases fs.len(),
{
    if fs.len() == 0 {
        Ok(vals)
    } else {
        match fill_fields(vals, fs.drop_last(), name) {
            Err(e) => Err(e),
            Ok(v) => fill_one(v, fs.last(), name),
        }
    }
}

pub open spec fn names_requester(vals: Map<Seq<char>, Seq<char>>) -> spec_fn(FieldModel) -> bool {
    |f: FieldModel| is_name_key(f.key) && trimmed(value_or_empty(vals, f.key)).len() > 0
}

/// The label shown for a signed-in requester's request: the first
/// non-blank name field, else `default`. A guest's request is always
/// labelled "Guest".
pub open spec fn requester_label(vals: Map<Seq<char>, Seq<char>>, fs: Seq<FieldModel>, default: Seq<char>) -> Seq<char> {
    match find_first(fs, names_requester(vals)) {
        Some(i) => trimmed(value_or_empty(vals, fs[i].key)),
        None => default,
    }
}

pub open spec fn active_by_account(id: u128) -> spec_fn(EntryModel) -> bool {
    |e: EntryModel| e.requester_account_id == Some(id) && is_active(e)
}

pub open spec fn active_by_token(t: Seq<char>) -> spec_fn(EntryModel) -> bool {
    |e: EntryModel| e.token == t && is_active(e)
}

pub open spec fn left_by_account(id: u128) -> spec_fn(EntryModel) -> bool {
    |e: EntryModel| e.requester_account_id == Some(id) && e.status == QueueEntryStatus::Left
}

pub open spec fn left_by_token(t: Seq<char>) -> spec_fn(EntryModel) -> bool {
    |e: EntryModel| e.token == t && e.status == QueueEntryStatus::Left
}

/// The requester's open request: a signed-in requester's first one, else
/// the first one under the entry token.
pub open spec fn open_request(es: Seq<EntryModel>, account: Option<u128>, token: Option<Seq<char>>) -> Option<int> {
    match account {
        Some(id) => find_first(es, active_by_account(id)),
        None => match token {
            Some(t) => find_first(es, active_by_token(t)),
            None => None,
        },
    }
}

/// The request the requester left: a signed-in requester's last one, else
/// the first one under the entry token.
pub open spec fn left_request(es: Seq<EntryModel>, account: Option<u128>, token: Option<Seq<char>>) -> Option<int> {
    match account {
        Some(id) => find_last(es, left_by_account(id)),
        None => match token {
            Some(t) => find_first(es, left_by_token(t)),
            None => None,
        },
    }
}

pub open spec fn wait_text(d: i64) -> Seq<char> {
    "Please wait "@ + decimal((if d < 1 {
        1
    } else {
        d
    }) as nat) + " seconds before attempting to rejoin."@
}

/// Whether a request left at `left_at` lets its requester join again at
/// `now`: the leave time must parse, and the cooldown must have passed.
pub open spec fn rejoin_gate(left_at: Option<Seq<char>>, now: Instant) -> Result<(), Seq<char>> {
    match left_at {
        None => Ok(()),
        Some(t) => match rfc3339_parse(t) {
            Err(e) => Err("invalid leave timestamp: "@ + e),
            Ok((s, n)) => match seconds_later(s, n, REJOIN_COOLDOWN_SECS) {
                None => Ok(()),
                Some((rs, rn)) => if instant_lt(now, Instant { secs: rs, nanos: rn }) {
                    Err(wait_text(whole_seconds_between(rs, rn, now.secs, now.nanos)))
                } else {
                    Ok(())
                },
            },
        },
    }
}

/// The signed-in requester behind an optional user token.
pub open spec fn requester_of(m: StoreModel, user_token: Option<Seq<char>>) -> Result<Option<AccountModel>, Seq<char>> {
    match user_token {
        None => Ok(None),
        Some(t) => match user_of(m, t) {
            None => Err("unknown user session"@),
            Some(a) => Ok(Some(a)),
        },
    }
}

pub open spec fn account_id_of(user: Option<AccountModel>) -> Option<u128> {
    match user {
        Some(a) => Some(a.id),
        None => None,
    }
}

pub open spec fn name_of(user: Option<AccountModel>) -> Option<Seq<char>> {
    match user {
        Some(a) => Some(a.name),
        None => None,
    }
}

pub open spec fn email_of(user: Option<AccountModel>) -> Option<Seq<char>> {
    match user {
        Some(a) => Some(a.email),
        None => None,
    }
}

/// A requester joins a live queue at `now`. A requester with an open
/// request gets its token back; otherwise a new pending request with id
/// `id` and token `token` goes to the end of the queue.
pub open spec fn joining(
    m: StoreModel,
    queue_id: u128,
    vals: Map<Seq<char>, Seq<char>>,
    user_token: Option<Seq<char>>,
    entry_token: Option<Seq<char>>,
    now: Instant,
    id: u128,
    token: Seq<char>,
) -> (StoreModel, Result<Seq<char>, Seq<char>>) {
    match requester_of(m, user_token) {
        Err(e) => (m, Err(e)),
        Ok(user) => match find_first(m.queues, queue_has_id(queue_id)) {
            None => (m, Err("queue not found"@)),
            Some(qi) => {
                let q = m.queues[qi];
                if !queue_open(q, now) {
                    (m, Err(not_open_message(q, now)))
                } else {
                    match open_request(q.entries, account_id_of(user), entry_token) {
                        Some(k) => (m, Ok(q.entries[k].token)),
                        None => match fill_fields(vals, q.fields, name_of(user)) {
                            Err(e) => (m, Err(e)),
                            Ok(filled) => if user is None && !q.allow_guests {
                                (m, Err("this queue requires a user account"@))
                            } else {
                                let gate = match left_request(q.entries, account_id_of(user), entry_token) {
                                    None => Ok(()),
                                    Some(k) => rejoin_gate(q.entries[k].left_at, now),
                                };
                                match gate {
                                    Err(e) => (m, Err(e)),
                                    Ok(_) => {
                                        let e = EntryModel {
                                            id,
                                            token,
                                            requester_account_id: account_id_of(user),
                                            requester_label: match user {
                                                Some(a) => requester_label(filled, q.fields, a.name),
                                                None => "Guest"@,
                                            },
                                            requester_email: email_of(user),
                                            is_guest: user is None,
                                            values: filled,
                                            submitted_at: rfc3339_text(now.secs, now.nanos)->0,
                                            left_at: None,
                                            status: QueueEntryStatus::Pending,
                                            claimed_by: None,
                                        };
                                        (
                                            StoreModel {
                                                queues: m.queues.update(
                                                    qi,
                                                    QueueModel { entries: q.entries.push(e), ..q },
                                                ),
                                                ..m
                                            },
                                            Ok(token),
                                        )
                                    },
                                }
                            },
                        },
                    }
                }
            },
        },
    }
}


// ---------------------------------------------------------------------------
// Joining: executable
// ---------------------------------------------------------------------------

proof fn lemma_request_bounds(es: Seq<EntryModel>, account: Option<u128>, token: Option<Seq<char>>)
    ensures
        open_request(es, account, token) matches Some(k) ==> 0 <= k < es.len(),
        left_request(es, account, token) matches Some(k) ==> 0 <= k < es.len(),
{
    match account {
        Some(id) => {
            lemma_find_first(es, active_by_account(id));
            lemma_find_last(es, left_by_account(id));
        },
        None => match token {
            Some(t) => {
                lemma_find_first(es, active_by_token(t));
                lemma_find_first(es, left_by_token(t));
            },
            None => {},
        },
    }
}

fn opt_token_eq(t: Option<&str>, e: &QueueEntry) -> (r: bool)
    ensures
        r == (t matches Some(x) && e@.token == x@),
{
    match t {
        Some(x) => text_eq(e.token.as_str(), x),
        None => false,
    }
}

/// The index of the requester's open request.
fn open_request_index(entries: &Vec<QueueEntry>, account: Option<u128>, token: Option<&str>) -> (r: Option<usize>)
    ensures
        ix_matches(r, open_request(entries_model(entries@), account, opt_str(token))),
{
    let ghost es = entries_model(entries@);
    if account.is_none() && token.is_none() {
        return None;
    }
    let ghost p = match account {
        Some(id) => active_by_account(id),
        None => active_by_token(opt_str(token)->0),
    };
    let mut i: usize = 0;
    while i < entries.len()
        invariant
            es == entries_model(entries@),
            account is Some || token is Some,
            p == (match account {
                Some(id) => active_by_account(id),
                None => active_by_token(opt_str(token)->0),
            }),
            i <= entries@.len(),
            forall|j: int| 0 <= j < i ==> !p(#[trigger] es[j]),
        decreases entries@.len() - i,
    {
        let e = &entries[i];
        let open = e.status == QueueEntryStatus::Pending || e.status == QueueEntryStatus::Claimed;
        let hit = match account {
            Some(id) => e.requester_account_id == Some(id),
            None => opt_token_eq(token, e),
        };
        if hit && open {
            proof {
                assert(p(es[i as int]));
                lemma_find_first_unique(es, p, Some(i as int));
            }
            return Some(i);
        }
        assert(!p(es[i as int]));
        i = i + 1;
    }
    proof {
        lemma_find_first_unique(es, p, None);
    }
    None
}

/// The index of the request the requester left.
fn left_request_index(entries: &Vec<QueueEntry>, account: Option<u128>, token: Option<&str>) -> (r: Option<usize>)
    ensures
        ix_matches(r, left_request(entries_model(entries@), account, opt_str(token))),
{
    let ghost es = entries_model(entries@);
    match account {
        Some(id) => {
            let ghost p = left_by_account(id);
            let mut i: usize = entries.len();
            while i > 0
                invariant
                    es == entries_model(entries@),
                    account == Some(id),
                    p == left_by_account(id),
                    i <= entries@.len(),
                    forall|j: int| i <= j < entries@.len() ==> !p(#[trigger] es[j]),
                decreases i,
            {
                let e = &entries[i - 1];
                if e.requester_account_id == Some(id) && e.status == QueueEntryStatus::Left {
                    proof {
                        assert(p(es[i - 1]));
                        lemma_find_last_unique(es, p, Some(i - 1));
                    }
                    return Some(i - 1);
                }
                assert(!p(es[i - 1]));
                i = i - 1;
            }
            proof {
                lemma_find_last_unique(es, p, None);
            }
            None
        },
        None => match token {
            None => None,
            Some(t) => {
                let ghost p = left_by_token(t@);
                let mut i: usize = 0;
                while i < entries.len()
                    invariant
                        es == entries_model(entries@),
                        account is None,
                        token == Some(t),
                        p == left_by_token(t@),
                        i <= entries@.len(),
                        forall|j: int| 0 <= j < i ==> !p(#[trigger] es[j]),
                    decreases entries@.len() - i,
                {
                    let e = &entries[i];
                    if text_eq(e.token.as_str(), t) && e.status == QueueEntryStatus::Left {
                        proof {
                            assert(p(es[i as int]));
                            lemma_find_first_unique(es, p, Some(i as int));
                        }
                        return Some(i);
                    }
                    assert(!p(es[i as int]));
                    i = i + 1;
                }
                proof {
                    lemma_find_first_unique(es, p, None);
                }
                None
            },
        },
    }
}

/// Once a prefix of the fields fails, the whole list fails the same way.
proof fn lemma_fill_prefix_err(
    vals: Map<Seq<char>, Seq<char>>,
    fs: Seq<FieldModel>,
    name: Option<Seq<char>>,
    j: int,
)
    requires
        0 <= j <= fs.len(),
        fill_fields(vals, fs.take(j), name) is Err,
    ensures
        fill_fields(vals, fs, name) == fill_fields(vals, fs.take(j), name),
    decreases fs.len() - j,
{
    if j == fs.len() {
        assert(fs.take(j) =~= fs);
    } else {
        let t = fs.drop_last();
        assert(t.take(j) =~= fs.take(j));
        lemma_fill_prefix_err(vals, t, name, j);
    }
}

/// Checks the fields in order and writes their kept values into `values`.
fn fill_values(values: &mut TextMap, fields: &Vec<QueueField>, name: Option<&str>) -> (r: Result<(), String>)
    ensures
        match fill_fields(old(values)@, fields_model(fields@), opt_str(name)) {
            Ok(v) => r is Ok && final(values)@ == v,
            Err(e) => r is Err && r->Err_0@ == e,
        },
{
    let ghost v0 = values@;
    let ghost fs = fields_model(fields@);
    let mut i: usize = 0;
    while i < fields.len()
        invariant
            fs == fields_model(fields@),
            v0 == old(values)@,
            i <= fields@.len(),
            fill_fields(v0, fs.take(i as int), opt_str(name)) == Ok::<Map<Seq<char>, Seq<char>>, Seq<char>>(values@),
        decreases fields@.len() - i,
    {
        let f = &fields[i];
        proof {
            assert(fs.take(i + 1).drop_last() =~= fs.take(i as int));
            assert(fs.take(i + 1).last() == f@);
        }
        let raw = match values.get(f.key.as_str()) {
            Some(v) => trim(v.as_str()),
            None => {
                let e = String::new();
                assert(trimmed(Seq::<char>::empty()) =~= Seq::<char>::empty());
                e
            },
        };
        let v = if is_requester_name_key(f.key.as_str()) && raw.as_str().unicode_len() == 0 {
            match name {
                Some(n) => owned(n),
                None => raw,
            }
        } else {
            raw
        };
        assert(v@ == field_value(values@, f@, opt_str(name)));
        let empty = v.as_str().unicode_len() == 0;
        if f.required && empty {
            proof {
                lemma_fill_prefix_err(v0, fs, opt_str(name), i + 1);
            }
            return Err(concat(f.label.as_str(), " is required"));
        }
        if !empty && f.options.len() > 0 && !texts_contain(&f.options, v.as_str()) {
            proof {
                lemma_fill_prefix_err(v0, fs, opt_str(name), i + 1);
            }
            return Err(concat(f.label.as_str(), " must be one of the available options"));
        }
        values.insert(f.key.clone(), v);
        i = i + 1;
    }
    assert(fs.take(i as int) =~= fs);
    Ok(())
}

/// The label shown for a request.
fn label_from(values: &TextMap, fields: &Vec<QueueField>, default: String) -> (r: String)
    ensures
        r@ == requester_label(values@, fields_model(fields@), default@),
{
    let ghost fs = fields_model(fields@);
    let ghost p = names_requester(values@);
    let mut i: usize = 0;
    while i < fields.len()
        invariant
            fs == fields_model(fields@),
            p == names_requester(values@),
            i <= fields@.len(),
            forall|j: int| 0 <= j < i ==> !p(#[trigger] fs[j]),
        decreases fields@.len() - i,
    {
        let f = &fields[i];
        if is_requester_name_key(f.key.as_str()) {
            match values.get(f.key.as_str()) {
                Some(v) => {
                    let t = trim(v.as_str());
                    if t.as_str().unicode_len() > 0 {
                        proof {
                            assert(p(fs[i as int]));
                            lemma_find_first_unique(fs, p, Some(i as int));
                        }
                        return t;
                    }
                },
                None => {},
            }
        }
        proof {
            if !values@.contains_key(f.key@) {
                assert(trimmed(Seq::<char>::empty()) =~= Seq::<char>::empty());
            }
        }
        assert(!p(fs[i as int]));
        i = i + 1;
    }
    proof {
        lemma_find_first_unique(fs, p, None);
    }
    default
}

/// Whether a requester who left at `left_at` may join again at `now`.
fn rejoin_check(left_at: &Option<String>, now: Instant) -> (r: Result<(), String>)
    requires
        representable(now),
    ensures
        match rejoin_gate(opt_text(*left_at), now) {
            Ok(_) => r is Ok,
            Err(e) => r is Err && r->Err_0@ == e,
        },
{
    match left_at {
        None => Ok(()),
        Some(t) => match parse_rfc3339(t.as_str()) {
            Err(e) => Err(concat("invalid leave timestamp: ", e.as_str())),
            Ok(left) => match add_seconds(left, REJOIN_COOLDOWN_SECS) {
                None => Ok(()),
                Some(rejoin_at) => {
                    if is_before(now, rejoin_at) {
                        let d = seconds_between(rejoin_at, now);
                        let d1: i64 = if d < 1 {
                            1
                        } else {
                            d
                        };
                        let mut msg = owned("Please wait ");
                        push_decimal(&mut msg, d1 as u64);
                        msg.append(" seconds before attempting to rejoin.");
                        Err(msg)
                    } else {
                        Ok(())
                    }
                },
            },
        },
    }
}


impl Store {
    /// Appends a request to live queue `qi`.
    fn push_entry(&mut self, qi: usize, e: QueueEntry)
        requires
            qi < old(self)@.queues.len(),
        ensures
            final(self)@ == (StoreModel {
                queues: old(self)@.queues.update(
                    qi as int,
                    QueueModel {
                        entries: old(self)@.queues[qi as int].entries.push(e@),
                        ..old(self)@.queues[qi as int]
                    },
                ),
                ..old(self)@
            }),
    {
        let ghost qs = self.queues@;
        let ghost ev = e@;
        let mut q = self.queues.remove(qi);
        let ghost es = q.entries@;
        q.entries.push(e);
        assert(entries_model(q.entries@) =~= entries_model(es).push(ev));
        let ghost qv = q@;
        self.queues.insert(qi, q);
        assert(queues_model(self.queues@) =~= queues_model(qs).update(qi as int, qv));
    }

    /// A requester joins a live queue at the given time; returns the token
    /// of the requester's open request, new or existing.
    #[verifier::rlimit(40)]
    pub fn join_queue_at(
        &mut self,
        queue_id: u128,
        values: TextMap,
        user_token: Option<&str>,
        entry_token: Option<&str>,
        now: Instant,
    ) -> (r: Result<String, String>)
        requires
            representable(now),
        ensures
            exists|id: u128, seed: u128|
                (final(self)@, text_result(r)) == joining(
                    old(self)@,
                    queue_id,
                    values@,
                    opt_str(user_token),
                    opt_str(entry_token),
                    now,
                    id,
                    uuid_text(seed),
                ),
    {
        let ghost m = self@;
        let ghost vals = values@;
        let ghost ut = opt_str(user_token);
        let ghost et = opt_str(entry_token);
        let mut values = values;
        let user: Option<usize> = match user_token {
            None => None,
            Some(t) => match self.user_account_index(t) {
                Some(a) => Some(a),
                None => {
                    let r: Result<String, String> = fail("unknown user session");
                    assert((self@, text_result(r)) == joining(m, queue_id, vals, ut, et, now, 0, uuid_text(0)));
                    return r;
                },
            },
        };
        let ghost u: Option<AccountModel> = match user {
            Some(a) => Some(m.accounts[a as int]),
            None => None,
        };
        assert(requester_of(m, ut) == Ok::<Option<AccountModel>, Seq<char>>(u));
        let qi = match self.find_queue(queue_id) {
            Some(qi) => qi,
            None => {
                let r: Result<String, String> = fail("queue not found");
                assert((self@, text_result(r)) == joining(m, queue_id, vals, ut, et, now, 0, uuid_text(0)));
                return r;
            },
        };
        proof {
            lemma_find_first(m.queues, queue_has_id(queue_id));
        }
        let ghost q = m.queues[qi as int];
        if !queue_is_open_at(&self.queues[qi], now) {
            let r: Result<String, String> = Err(queue_not_open_message_at(&self.queues[qi], now));
            assert((self@, text_result(r)) == joining(m, queue_id, vals, ut, et, now, 0, uuid_text(0)));
            return r;
        }
        let account: Option<u128> = match user {
            Some(a) => Some(self.accounts[a].id),
            None => None,
        };
        assert(account == account_id_of(u));
        proof {
            lemma_request_bounds(q.entries, account, et);
        }
        match open_request_index(&self.queues[qi].entries, account, entry_token) {
            Some(k) => {
                let r: Result<String, String> = Ok(self.queues[qi].entries[k].token.clone());
                assert((self@, text_result(r)) == joining(m, queue_id, vals, ut, et, now, 0, uuid_text(0)));
                return r;
            },
            None => {},
        }
        let name: Option<&str> = match user {
            Some(a) => Some(self.accounts[a].name.as_str()),
            None => None,
        };
        assert(opt_str(name) == name_of(u));
        match fill_values(&mut values, &self.queues[qi].fields, name) {
            Ok(_) => {},
            Err(e) => {
                let r: Result<String, String> = Err(e);
                assert((self@, text_result(r)) == joining(m, queue_id, vals, ut, et, now, 0, uuid_text(0)));
                return r;
            },
        }
        let ghost filled = values@;
        if user.is_none() && !self.queues[qi].allow_guests {
            let r: Result<String, String> = fail("this queue requires a user account");
            assert((self@, text_result(r)) == joining(m, queue_id, vals, ut, et, now, 0, uuid_text(0)));
            return r;
        }
        match left_request_index(&self.queues[qi].entries, account, entry_token) {
            Some(k) => match rejoin_check(&self.queues[qi].entries[k].left_at, now) {
                Ok(_) => {},
                Err(e) => {
                    let r: Result<String, String> = Err(e);
                    assert((self@, text_result(r)) == joining(m, queue_id, vals, ut, et, now, 0, uuid_text(0)));
                    return r;
                },
            },
            None => {},
        }
        let label = match user {
            Some(a) => label_from(&values, &self.queues[qi].fields, self.accounts[a].name.clone()),
            None => owned("Guest"),
        };
        let email = match user {
            Some(a) => Some(self.accounts[a].email.clone()),
            None => None,
        };
        let id = fresh_id();
        let seed = fresh_id();
        let token = uuid_string(seed);
        let submitted_at = match to_rfc3339(now) {
            Some(t) => t,
            None => owned(""),
        };
        let e = QueueEntry {
            id,
            token: token.clone(),
            requester_account_id: account,
            requester_label: label,
            requester_email: email,
            is_guest: user.is_none(),
            values,
            submitted_at,
            left_at: None,
            status: QueueEntryStatus::Pending,
            claimed_by: None,
        };
        self.push_entry(qi, e);
        let r: Result<String, String> = Ok(token);
        assert((self@, text_result(r)) == joining(m, queue_id, vals, ut, et, now, id, uuid_text(seed)));
        r
    }

    /// A requester joins a live queue now.
    pub fn join_queue(
        &mut self,
        queue_id: u128,
        values: TextMap,
        user_token: Option<&str>,
        entry_token: Option<&str>,
    ) -> (r: Result<String, String>)
        ensures
            exists|now: Instant, id: u128, seed: u128|
                representable(now) && (final(self)@, text_result(r)) == joining(
                    old(self)@,
                    queue_id,
                    values@,
                    opt_str(user_token),
                    opt_str(entry_token),
                    now,
                    id,
                    uuid_text(seed),
                ),
    {
        let now = crate::clock::now();
        self.join_queue_at(queue_id, values, user_token, entry_token, now)
    }
}

} // verus!
