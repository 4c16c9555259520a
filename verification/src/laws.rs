//! Properties that hold across the operations of the store.
use vstd::prelude::*;
use crate::clock::Instant;
use crate::entries::{
    acted, active_by_account, active_by_token, entry_handling, joining, open_request,
    requester_of, with_entry, EntryAction,
};
use crate::accounts::{
    account_creation, account_deletion, account_update, bootstrap, initial_setup, known_account,
    authenticated, hash_fits, ms_user_login, needs_setup, session_known, upsert_account,
};
use crate::password::looks_hashed;
use crate::ids::{code_text, hex_char, hex_run, nibble};
use crate::manage::{
    can_manage, codes_in_use, group_grants, has_code, queue_closing, queue_creation,
    queue_for_code, queue_sharing, share_accounts_norm, share_groups_norm, upsert_archive,
};
use crate::model::{FieldModel, WeeklySchedule};
use crate::text::{code_of, is_alnum, is_lower, is_ws, lower, lowercase, trim_end, trim_start, trimmed, upper};
use crate::utils::email_norm;
use crate::render::{user_queue_of, user_view_of, your_entry};
use crate::schedule::queue_open;
use crate::model::{AccountModel, AccountRole, ArchivedModel, EntryModel, QueueEntryStatus, QueueModel};
use crate::queue::{active_count, is_active, is_pending, pending_count, position_of};
use crate::store::{
    account_has_email, account_has_id, account_of, account_with_email, admin_of, archive_has_id, archive_of, entry_has_id, find_first, group_of,
    lemma_find_first, lemma_find_first_same, lemma_find_first_unique, queue_has_id,
    queue_holds_entry, queue_of, StoreModel,
};

verus! {

// ---------------------------------------------------------------------------
// Counting entries
// ---------------------------------------------------------------------------

proof fn lemma_counts_push(es: Seq<EntryModel>, e: EntryModel)
    ensures
        pending_count(es.push(e)) == pending_count(es) + if is_pending(e) {
            1int
        } else {
            0int
        },
        active_count(es.push(e)) == active_count(es) + if is_active(e) {
            1int
        } else {
            0int
        },
{
    es.lemma_filter_push(e, |x: EntryModel| is_pending(x));
    es.lemma_filter_push(e, |x: EntryModel| is_active(x));
}

/// Every waiting (pending) request is an open one, and there are no more
/// open requests than requests.
pub proof fn law_waiting_within_active(es: Seq<EntryModel>)
    ensures
        pending_count(es) <= active_count(es) <= es.len(),
    decreases es.len(),
{
    if es.len() > 0 {
        let t = es.drop_last();
        law_waiting_within_active(t);
        assert(t.push(es.last()) =~= es);
        lemma_counts_push(t, es.last());
    }
}

/// Pending requests before position `j` are no more than those before `i`
/// when `j <= i`.
proof fn lemma_pending_prefix_monotone(es: Seq<EntryModel>, j: int, i: int)
    requires
        0 <= j <= i <= es.len(),
    ensures
        pending_count(es.take(j)) <= pending_count(es.take(i)),
    decreases i - j,
{
    if j < i {
        lemma_pending_prefix_monotone(es, j, i - 1);
        assert(es.take(i) =~= es.take(i - 1).push(es[i - 1]));
        lemma_counts_push(es.take(i - 1), es[i - 1]);
    }
}

/// A pending request's position is between one and the number of waiting
/// requests.
pub proof fn law_position_in_range(es: Seq<EntryModel>, entry_id: u128)
    ensures
        position_of(es, entry_id) matches Some(p) ==> 1 <= p <= pending_count(es),
{
    lemma_find_first(es, entry_has_id(entry_id));
    match find_first(es, entry_has_id(entry_id)) {
        None => {},
        Some(i) => {
            if is_pending(es[i]) {
                assert(es.take(i + 1) =~= es.take(i).push(es[i]));
                lemma_counts_push(es.take(i), es[i]);
                lemma_pending_prefix_monotone(es, i + 1, es.len() as int);
                assert(es.take(es.len() as int) =~= es);
            }
        },
    }
}

/// Two different requests never share a position.
pub proof fn law_positions_distinct(es: Seq<EntryModel>, a: u128, b: u128)
    requires
        a != b,
        position_of(es, a) is Some,
        position_of(es, b) is Some,
    ensures
        position_of(es, a) != position_of(es, b),
{
    lemma_find_first(es, entry_has_id(a));
    lemma_find_first(es, entry_has_id(b));
    let i = find_first(es, entry_has_id(a))->0;
    let j = find_first(es, entry_has_id(b))->0;
    assert(i != j);
    if i < j {
        assert(es.take(j + 1) =~= es.take(j).push(es[j]));
        lemma_counts_push(es.take(j), es[j]);
        lemma_pending_prefix_monotone(es, i + 1, j);
    } else {
        assert(es.take(i + 1) =~= es.take(i).push(es[i]));
        lemma_counts_push(es.take(i), es[i]);
        lemma_pending_prefix_monotone(es, j + 1, i);
    }
}

// ---------------------------------------------------------------------------
// Admin actions on requests
// ---------------------------------------------------------------------------

/// The request an admin action on `entry_id` would touch.
pub open spec fn handled_entry(m: StoreModel, entry_id: u128) -> Option<EntryModel> {
    match find_first(m.queues, queue_holds_entry(entry_id)) {
        None => None,
        Some(qi) => {
            let k = find_first(m.queues[qi].entries, entry_has_id(entry_id))->0;
            Some(m.queues[qi].entries[k])
        },
    }
}

/// Replacing a request by one with the same id leaves every lookup of
/// requests and queues where it was.
proof fn lemma_with_entry_lookups(m: StoreModel, qi: int, k: int, e: EntryModel, token: Seq<char>, entry_id: u128)
    requires
        0 <= qi < m.queues.len(),
        0 <= k < m.queues[qi].entries.len(),
        e.id == m.queues[qi].entries[k].id,
    ensures
        admin_of(with_entry(m, qi, k, e), token) == admin_of(m, token),
        find_first(with_entry(m, qi, k, e).queues, queue_holds_entry(entry_id)) == find_first(
            m.queues,
            queue_holds_entry(entry_id),
        ),
        find_first(with_entry(m, qi, k, e).queues[qi].entries, entry_has_id(entry_id))
            == find_first(m.queues[qi].entries, entry_has_id(entry_id)),
{
    let m1 = with_entry(m, qi, k, e);
    let es = m.queues[qi].entries;
    let es1 = m1.queues[qi].entries;
    assert(es1 == es.update(k, e));
    assert forall|j: int| 0 <= j < es.len() implies entry_has_id(entry_id)(#[trigger] es[j])
        == entry_has_id(entry_id)(es1[j]) by {}
    lemma_find_first_same(es, es1, entry_has_id(entry_id), entry_has_id(entry_id));
    assert forall|i: int| 0 <= i < m.queues.len() implies queue_holds_entry(entry_id)(
        #[trigger] m.queues[i],
    ) == queue_holds_entry(entry_id)(m1.queues[i]) by {
        if i != qi {
            assert(m1.queues[i] == m.queues[i]);
        }
    }
    lemma_find_first_same(m.queues, m1.queues, queue_holds_entry(entry_id), queue_holds_entry(entry_id));
}

/// Unclaiming a request that was just claimed puts everything back as it
/// was, for a request that had no handler before.
pub proof fn law_unclaim_undoes_claim(m: StoreModel, token: Seq<char>, entry_id: u128)
    requires
        entry_handling(m, token, entry_id, EntryAction::Claim).1 is Ok,
        handled_entry(m, entry_id) matches Some(e) && e.claimed_by is None,
    ensures
        entry_handling(entry_handling(m, token, entry_id, EntryAction::Claim).0, token, entry_id, EntryAction::Unclaim)
            == (m, entry_handling(m, token, entry_id, EntryAction::Claim).1),
{
    let admin = admin_of(m, token)->0;
    lemma_find_first(m.queues, queue_holds_entry(entry_id));
    let qi = find_first(m.queues, queue_holds_entry(entry_id))->0;
    lemma_find_first(m.queues[qi].entries, entry_has_id(entry_id));
    let k = find_first(m.queues[qi].entries, entry_has_id(entry_id))->0;
    let e = m.queues[qi].entries[k];
    let e1 = acted(e, EntryAction::Claim, admin.name)->0;
    let m1 = with_entry(m, qi, k, e1);
    lemma_with_entry_lookups(m, qi, k, e1, token, entry_id);
    assert(acted(e1, EntryAction::Unclaim, admin.name) == Some(e));
    let es = m.queues[qi].entries;
    assert(es.update(k, e1).update(k, e) =~= es);
    assert(m1.queues[qi].entries.update(k, e) =~= es);
    assert(QueueModel { entries: m1.queues[qi].entries.update(k, e), ..m1.queues[qi] } == m.queues[qi]);
    assert(with_entry(m1, qi, k, e).queues =~= m.queues);
    assert(with_entry(m1, qi, k, e) == m);
}

/// A request resolved or denied while still in the queue can be reopened:
/// it is pending again, with no handler.
pub proof fn law_reopen_after_resolution(m: StoreModel, token: Seq<char>, entry_id: u128, next: QueueEntryStatus)
    requires
        next == QueueEntryStatus::Resolved || next == QueueEntryStatus::Denied,
        entry_handling(m, token, entry_id, EntryAction::SetStatus(next)).1 is Ok,
        handled_entry(m, entry_id) matches Some(e) && e.left_at is None,
    ensures
        ({
            let (m1, r1) = entry_handling(m, token, entry_id, EntryAction::SetStatus(next));
            let (m2, r2) = entry_handling(m1, token, entry_id, EntryAction::SetStatus(QueueEntryStatus::Pending));
            &&& r2 == r1
            &&& handled_entry(m2, entry_id) == Some(
                EntryModel {
                    status: QueueEntryStatus::Pending,
                    claimed_by: None,
                    ..handled_entry(m, entry_id)->0
                },
            )
        }),
{
    let admin = admin_of(m, token)->0;
    lemma_find_first(m.queues, queue_holds_entry(entry_id));
    let qi = find_first(m.queues, queue_holds_entry(entry_id))->0;
    lemma_find_first(m.queues[qi].entries, entry_has_id(entry_id));
    let k = find_first(m.queues[qi].entries, entry_has_id(entry_id))->0;
    let e = m.queues[qi].entries[k];
    let e1 = acted(e, EntryAction::SetStatus(next), admin.name)->0;
    let m1 = with_entry(m, qi, k, e1);
    lemma_with_entry_lookups(m, qi, k, e1, token, entry_id);
    let e2 = acted(e1, EntryAction::SetStatus(QueueEntryStatus::Pending), admin.name)->0;
    assert(e2 == EntryModel { status: QueueEntryStatus::Pending, claimed_by: None, ..e });
    assert(m1.queues[qi].entries[k] == e1);
    let m2 = with_entry(m1, qi, k, e2);
    lemma_with_entry_lookups(m1, qi, k, e2, token, entry_id);
    assert(m2.queues[qi].entries[k] == e2);
}

// ---------------------------------------------------------------------------
// Joining
// ---------------------------------------------------------------------------

/// Adding a request to a queue leaves requesters and queue lookups alone.
proof fn lemma_push_entry_lookups(m: StoreModel, qi: int, e: EntryModel, user_token: Option<Seq<char>>, queue_id: u128)
    requires
        0 <= qi < m.queues.len(),
    ensures
        ({
            let m1 = StoreModel {
                queues: m.queues.update(
                    qi,
                    QueueModel { entries: m.queues[qi].entries.push(e), ..m.queues[qi] },
                ),
                ..m
            };
            &&& requester_of(m1, user_token) == requester_of(m, user_token)
            &&& find_first(m1.queues, queue_has_id(queue_id)) == find_first(m.queues, queue_has_id(queue_id))
        }),
{
    let m1 = StoreModel {
        queues: m.queues.update(
            qi,
            QueueModel { entries: m.queues[qi].entries.push(e), ..m.queues[qi] },
        ),
        ..m
    };
    assert forall|i: int| 0 <= i < m.queues.len() implies queue_has_id(queue_id)(#[trigger] m.queues[i])
        == queue_has_id(queue_id)(m1.queues[i]) by {}
    lemma_find_first_same(m.queues, m1.queues, queue_has_id(queue_id), queue_has_id(queue_id));
}

/// A signed-in requester who joined a queue and joins it again, while it
/// is still open, gets the same token back and changes nothing.
pub proof fn law_join_again_signed_in(
    m: StoreModel,
    queue_id: u128,
    vals: Map<Seq<char>, Seq<char>>,
    user_token: Seq<char>,
    entry_token: Option<Seq<char>>,
    now: Instant,
    id: u128,
    token: Seq<char>,
    vals2: Map<Seq<char>, Seq<char>>,
    entry_token2: Option<Seq<char>>,
    now2: Instant,
    id2: u128,
    token2: Seq<char>,
)
    requires
        joining(m, queue_id, vals, Some(user_token), entry_token, now, id, token).1 is Ok,
        queue_of(m, queue_id) matches Some(q) && queue_open(q, now2),
    ensures
        ({
            let (m1, r1) = joining(m, queue_id, vals, Some(user_token), entry_token, now, id, token);
            joining(m1, queue_id, vals2, Some(user_token), entry_token2, now2, id2, token2) == (m1, r1)
        }),
{
    let (m1, r1) = joining(m, queue_id, vals, Some(user_token), entry_token, now, id, token);
    let user = requester_of(m, Some(user_token))->Ok_0;
    let a = user->0;
    lemma_find_first(m.queues, queue_has_id(queue_id));
    let qi = find_first(m.queues, queue_has_id(queue_id))->0;
    let q = m.queues[qi];
    let es = q.entries;
    lemma_find_first(es, active_by_account(a.id));
    match open_request(es, Some(a.id), entry_token) {
        Some(k) => {
            assert(m1 == m);
        },
        None => {
            let e = m1.queues[qi].entries.last();
            assert(m1.queues[qi].entries == es.push(e));
            lemma_push_entry_lookups(m, qi, e, Some(user_token), queue_id);
            let es1 = es.push(e);
            assert(active_by_account(a.id)(es1[es.len() as int]));
            assert forall|j: int| 0 <= j < es.len() implies !active_by_account(a.id)(#[trigger] es1[j]) by {
                assert(es1[j] == es[j]);
            }
            crate::store::lemma_find_first_unique(es1, active_by_account(a.id), Some(es.len() as int));
        },
    }
}

/// A guest who joined a queue and joins it again with the token it got,
/// while the queue is still open, gets the same token back and changes
/// nothing.
pub proof fn law_join_again_guest(
    m: StoreModel,
    queue_id: u128,
    vals: Map<Seq<char>, Seq<char>>,
    entry_token: Option<Seq<char>>,
    now: Instant,
    id: u128,
    token: Seq<char>,
    vals2: Map<Seq<char>, Seq<char>>,
    now2: Instant,
    id2: u128,
    token2: Seq<char>,
)
    requires
        joining(m, queue_id, vals, None, entry_token, now, id, token).1 is Ok,
        queue_of(m, queue_id) matches Some(q) && queue_open(q, now2),
    ensures
        ({
            let (m1, r1) = joining(m, queue_id, vals, None, entry_token, now, id, token);
            joining(m1, queue_id, vals2, None, Some(r1->Ok_0), now2, id2, token2) == (m1, r1)
        }),
{
    let (m1, r1) = joining(m, queue_id, vals, None, entry_token, now, id, token);
    let t = r1->Ok_0;
    lemma_find_first(m.queues, queue_has_id(queue_id));
    let qi = find_first(m.queues, queue_has_id(queue_id))->0;
    let q = m.queues[qi];
    let es = q.entries;
    match open_request(es, None, entry_token) {
        Some(k) => {
            assert(m1 == m);
            lemma_find_first(es, active_by_token(entry_token->0));
            assert(t == es[k].token);
            assert(active_by_token(t)(es[k]));
            lemma_find_first(es, active_by_token(t));
        },
        None => {
            let e = m1.queues[qi].entries.last();
            assert(m1.queues[qi].entries == es.push(e));
            lemma_push_entry_lookups(m, qi, e, None, queue_id);
            let es1 = es.push(e);
            assert(e.token == t);
            assert(active_by_token(t)(es1[es.len() as int]));
            lemma_find_first(es1, active_by_token(t));
        },
    }
}

// ---------------------------------------------------------------------------
// Closing and sharing queues
// ---------------------------------------------------------------------------

/// Only one live queue has the id.
pub open spec fn single_live_queue(m: StoreModel, queue_id: u128) -> bool {
    forall|i: int, j: int|
        0 <= i < m.queues.len() && 0 <= j < m.queues.len() && #[trigger] m.queues[i].id == queue_id
            && #[trigger] m.queues[j].id == queue_id ==> i == j
}

proof fn lemma_upsert_archive_found(xs: Seq<ArchivedModel>, a: ArchivedModel)
    ensures
        ({
            let ys = upsert_archive(xs, a);
            find_first(ys, archive_has_id(a.queue.id)) matches Some(i) && 0 <= i < ys.len() && ys[i] == a
        }),
{
    let p = archive_has_id(a.queue.id);
    lemma_find_first(xs, p);
    let ys = upsert_archive(xs, a);
    match find_first(xs, p) {
        Some(i) => {
            assert forall|j: int| 0 <= j < xs.len() implies p(#[trigger] xs[j]) == p(ys[j]) by {}
            lemma_find_first_same(xs, ys, p, p);
        },
        None => {
            assert forall|j: int| 0 <= j < xs.len() implies !p(#[trigger] ys[j]) by {
                assert(ys[j] == xs[j]);
            }
            lemma_find_first_unique(ys, p, Some(xs.len() as int));
        },
    }
}

/// Closing a queue keeps it, with every request, among the closed queues,
/// marked with when and by whom it was closed; a live queue fewer remains.
/// Where no other live queue had its id, requesters then see it as closed.
pub proof fn law_close_keeps_history(
    m: StoreModel,
    token: Seq<char>,
    queue_id: u128,
    closed_at: Seq<char>,
    entry_token: Option<Seq<char>>,
    now: Instant,
)
    requires
        queue_closing(m, token, queue_id, closed_at).1 is Ok,
    ensures
        ({
            let m1 = queue_closing(m, token, queue_id, closed_at).0;
            let admin = admin_of(m, token)->0;
            let q = queue_of(m, queue_id)->0;
            &&& archive_of(m1, queue_id) == Some(
                ArchivedModel {
                    queue: q,
                    closed_at,
                    closed_by_account_id: admin.id,
                    closed_by_name: admin.name,
                },
            )
            &&& m1.queues.len() + 1 == m.queues.len()
            &&& single_live_queue(m, queue_id) ==> queue_of(m1, queue_id) is None && user_view_of(
                m1,
                queue_id,
                entry_token,
                now,
            ) == Some((user_queue_of(q, Some((closed_at, admin.name))), your_entry(q, entry_token)))
        }),
{
    let m1 = queue_closing(m, token, queue_id, closed_at).0;
    let admin = admin_of(m, token)->0;
    lemma_find_first(m.queues, queue_has_id(queue_id));
    let i = find_first(m.queues, queue_has_id(queue_id))->0;
    let q = m.queues[i];
    let a = ArchivedModel { queue: q, closed_at, closed_by_account_id: admin.id, closed_by_name: admin.name };
    lemma_upsert_archive_found(m.archived, a);
    if single_live_queue(m, queue_id) {
        let rest = m.queues.remove(i);
        assert forall|j: int| 0 <= j < rest.len() implies !queue_has_id(queue_id)(#[trigger] rest[j]) by {
            if j < i {
                assert(rest[j] == m.queues[j]);
            } else {
                assert(rest[j] == m.queues[j + 1]);
            }
        }
        lemma_find_first_unique(rest, queue_has_id(queue_id), None);
    }
}

/// Every id in the input list of a share is kept in the shared list.
proof fn lemma_share_accounts_keep(m: StoreModel, ids: Seq<u128>, x: u128)
    requires
        share_accounts_norm(m, ids) is Ok,
        ids.contains(x),
    ensures
        share_accounts_norm(m, ids)->Ok_0.contains(x),
    decreases ids.len(),
{
    let t = ids.drop_last();
    if t.contains(x) {
        lemma_share_accounts_keep(m, t, x);
        let prev = share_accounts_norm(m, t)->Ok_0;
        let k = choose|k: int| 0 <= k < prev.len() && prev[k] == x;
        if !prev.contains(ids.last()) {
            assert(prev.push(ids.last())[k] == x);
        }
    } else {
        let k = choose|k: int| 0 <= k < ids.len() && ids[k] == x;
        if k < ids.len() - 1 {
            assert(t[k] == x);
        }
        assert(ids.last() == x);
        let prev = share_accounts_norm(m, t)->Ok_0;
        if !prev.contains(ids.last()) {
            assert(prev.push(ids.last())[prev.len() as int] == x);
        }
    }
}

proof fn lemma_share_groups_keep(m: StoreModel, ids: Seq<u128>, x: u128)
    requires
        share_groups_norm(m, ids) is Ok,
        ids.contains(x),
    ensures
        share_groups_norm(m, ids)->Ok_0.contains(x),
    decreases ids.len(),
{
    let t = ids.drop_last();
    if t.contains(x) {
        lemma_share_groups_keep(m, t, x);
        let prev = share_groups_norm(m, t)->Ok_0;
        let k = choose|k: int| 0 <= k < prev.len() && prev[k] == x;
        if !prev.contains(ids.last()) {
            assert(prev.push(ids.last())[k] == x);
        }
    } else {
        let k = choose|k: int| 0 <= k < ids.len() && ids[k] == x;
        if k < ids.len() - 1 {
            assert(t[k] == x);
        }
        assert(ids.last() == x);
        let prev = share_groups_norm(m, t)->Ok_0;
        if !prev.contains(ids.last()) {
            assert(prev.push(ids.last())[prev.len() as int] == x);
        }
    }
}

/// Sharing a queue with an account, or with an admin group the account
/// belongs to, lets that account manage the queue.
pub proof fn law_sharing_grants_access(
    m: StoreModel,
    token: Seq<char>,
    queue_id: u128,
    account_ids: Seq<u128>,
    group_ids: Seq<u128>,
    account_id: u128,
)
    requires
        queue_sharing(m, token, queue_id, account_ids, group_ids).1 is Ok,
        account_of(m, account_id) is Some,
        account_ids.contains(account_id) || exists|k: int|
            0 <= k < group_ids.len() && group_grants(m, #[trigger] group_ids[k], account_id),
    ensures
        ({
            let m1 = queue_sharing(m, token, queue_id, account_ids, group_ids).0;
            queue_of(m1, queue_id) matches Some(q) && can_manage(m1, account_id, q)
        }),
{
    let m1 = queue_sharing(m, token, queue_id, account_ids, group_ids).0;
    lemma_find_first(m.queues, queue_has_id(queue_id));
    let i = find_first(m.queues, queue_has_id(queue_id))->0;
    assert forall|j: int| 0 <= j < m.queues.len() implies queue_has_id(queue_id)(#[trigger] m.queues[j])
        == queue_has_id(queue_id)(m1.queues[j]) by {}
    lemma_find_first_same(m.queues, m1.queues, queue_has_id(queue_id), queue_has_id(queue_id));
    let q1 = m1.queues[i];
    assert(account_of(m1, account_id) == account_of(m, account_id));
    if account_ids.contains(account_id) {
        lemma_share_accounts_keep(m, account_ids, account_id);
    } else {
        let k = choose|k: int| 0 <= k < group_ids.len() && group_grants(m, #[trigger] group_ids[k], account_id);
        assert(group_ids.contains(group_ids[k]));
        lemma_share_groups_keep(m, group_ids, group_ids[k]);
        let g = share_groups_norm(m, group_ids)->Ok_0;
        let j = choose|j: int| 0 <= j < g.len() && g[j] == group_ids[k];
        assert(q1.shared_group_ids[j] == group_ids[k]);
        assert(group_grants(m1, q1.shared_group_ids[j], account_id));
    }
}

// ---------------------------------------------------------------------------
// Join codes
// ---------------------------------------------------------------------------

/// A text of upper-case letters and digits is its own normal form.
proof fn lemma_code_fixed(t: Seq<char>)
    requires
        forall|i: int| 0 <= i < t.len() ==> is_alnum(#[trigger] t[i]) && !is_lower(t[i]),
    ensures
        code_of(t) == t,
    decreases t.len(),
{
    let p = |c: char| is_alnum(c);
    if t.len() == 0 {
        assert(t.filter(p) =~= t);
        assert(code_of(t) =~= t);
    } else {
        let u = t.drop_last();
        assert forall|i: int| 0 <= i < u.len() implies is_alnum(#[trigger] u[i]) && !is_lower(u[i]) by {
            assert(u[i] == t[i]);
        }
        lemma_code_fixed(u);
        assert(u.push(t.last()) =~= t);
        u.lemma_filter_push(t.last(), p);
        assert(is_alnum(t[t.len() - 1]));
        assert(u.filter(p).map_values(|c: char| upper(c)) =~= u);
        assert(code_of(t) =~= code_of(u).push(upper(t.last())));
    }
}

/// Normalising a join code twice changes nothing more.
pub proof fn law_code_normalisation_idempotent(s: Seq<char>)
    ensures
        code_of(code_of(s)) == code_of(s),
{
    let t = code_of(s);
    let f = s.filter(|c: char| is_alnum(c));
    assert forall|i: int| 0 <= i < t.len() implies is_alnum(#[trigger] t[i]) && !is_lower(t[i]) by {
        assert(t[i] == upper(f[i]));
        s.lemma_filter_pred(|c: char| is_alnum(c), i);
    }
    lemma_code_fixed(t);
}

proof fn lemma_hex_run_chars(v: u128, hi: nat, lo: nat)
    ensures
        forall|i: int|
            0 <= i < hex_run(v, hi, lo).len() ==> is_alnum(upper(#[trigger] hex_run(v, hi, lo)[i]))
                && !is_lower(upper(hex_run(v, hi, lo)[i])),
    decreases hi,
{
    if hi > lo {
        lemma_hex_run_chars(v, (hi - 1) as nat, lo);
        let n = nibble(v, (hi - 1) as nat);
        let k = (4 * (hi - 1)) as u128;
        assert(n == (v >> k) & 15u128);
        assert((v >> k) & 15u128 <= 15u128) by (bit_vector);
        let c = hex_char(n);
        assert(is_alnum(upper(c)) && !is_lower(upper(c)));
        let rest = hex_run(v, (hi - 1) as nat, lo);
        assert(hex_run(v, hi, lo) == seq![c] + rest);
        assert forall|i: int| 0 <= i < hex_run(v, hi, lo).len() implies is_alnum(upper(#[trigger] hex_run(v, hi, lo)[i]))
            && !is_lower(upper(hex_run(v, hi, lo)[i])) by {
            if i > 0 {
                assert(hex_run(v, hi, lo)[i] == rest[i - 1]);
            }
        }
    }
}

/// A drawn join code is already in normal form.
proof fn lemma_code_text_fixed(v: u128)
    ensures
        code_of(code_text(v)) == code_text(v),
{
    lemma_hex_run_chars(v, 32, 26);
    let t = code_text(v);
    assert forall|i: int| 0 <= i < t.len() implies is_alnum(#[trigger] t[i]) && !is_lower(t[i]) by {
        assert(t[i] == upper(hex_run(v, 32, 26)[i]));
    }
    lemma_code_fixed(t);
}

/// A queue created with a join code no other queue uses is the one that
/// code leads to.
pub proof fn law_new_queue_found_by_code(
    m: StoreModel,
    token: Seq<char>,
    name: Seq<char>,
    fields: Seq<FieldModel>,
    allow_guests: bool,
    is_public: bool,
    opens_at: Option<Seq<char>>,
    weekly: Option<WeeklySchedule>,
    id: u128,
    v: u128,
)
    requires
        queue_creation(m, token, name, fields, allow_guests, is_public, opens_at, weekly, id, Some(code_text(v))).1 is Ok,
        !codes_in_use(m).contains(code_text(v)),
    ensures
        queue_for_code(
            queue_creation(m, token, name, fields, allow_guests, is_public, opens_at, weekly, id, Some(code_text(v))).0,
            code_text(v),
        ) == Some(id),
{
    let c = code_text(v);
    let m1 = queue_creation(m, token, name, fields, allow_guests, is_public, opens_at, weekly, id, Some(c)).0;
    lemma_code_text_fixed(v);
    let p = has_code(c);
    assert forall|j: int| 0 <= j < m.queues.len() implies !p(#[trigger] m.queues[j]) by {
        let live = m.queues.map_values(|q: QueueModel| q.code);
        assert(live[j] == m.queues[j].code);
        assert(codes_in_use(m)[j] == live[j]);
    }
    lemma_find_first(m.queues, queue_has_id(id));
    match find_first(m.queues, queue_has_id(id)) {
        Some(i) => {
            assert forall|j: int| 0 <= j < m1.queues.len() && j != i implies !p(#[trigger] m1.queues[j]) by {
                assert(m1.queues[j] == m.queues[j]);
            }
            assert forall|j: int| 0 <= j < i implies !p(#[trigger] m1.queues[j]) by {}
            lemma_find_first_unique(m1.queues, p, Some(i));
        },
        None => {
            assert forall|j: int| 0 <= j < m.queues.len() implies !p(#[trigger] m1.queues[j]) by {
                assert(m1.queues[j] == m.queues[j]);
            }
            lemma_find_first_unique(m1.queues, p, Some(m.queues.len() as int));
        },
    }
}

// ---------------------------------------------------------------------------
// Initial setup
// ---------------------------------------------------------------------------

pub open spec fn super_admins(accounts: Seq<AccountModel>) -> Seq<AccountModel> {
    accounts.filter(|a: AccountModel| a.role == AccountRole::SuperAdmin)
}

/// Once a super admin exists, initial setup is refused and changes nothing.
pub proof fn law_setup_only_while_no_super_admin(
    m: StoreModel,
    name: Seq<char>,
    email: Seq<char>,
    password: Seq<char>,
    fresh: u128,
    hash: Result<Seq<char>, Seq<char>>,
    token: Seq<char>,
)
    requires
        !needs_setup(m),
    ensures
        initial_setup(m, name, email, password, fresh, hash, token) == (m, Err::<crate::views::AdminIdentityModel, Seq<char>>("initial setup is already complete"@)),
{
}

proof fn lemma_single_match(s: Seq<AccountModel>, i: int)
    requires
        0 <= i < s.len(),
        s[i].role == AccountRole::SuperAdmin,
        forall|j: int| 0 <= j < s.len() && j != i ==> (#[trigger] s[j]).role != AccountRole::SuperAdmin,
    ensures
        super_admins(s).len() == 1,
    decreases s.len(),
{
    let p = |a: AccountModel| a.role == AccountRole::SuperAdmin;
    let u = s.drop_last();
    assert(u.push(s.last()) =~= s);
    u.lemma_filter_push(s.last(), p);
    if i == s.len() - 1 {
        assert forall|j: int| 0 <= j < u.len() implies !p(#[trigger] u[j]) by {
            assert(u[j] == s[j]);
        }
        assert(u.all(|x: AccountModel| !p(x)));
        u.lemma_all_neg_filter_empty(p);
    } else {
        assert forall|j: int| 0 <= j < u.len() && j != i implies (#[trigger] u[j]).role != AccountRole::SuperAdmin by {
            assert(u[j] == s[j]);
        }
        lemma_single_match(u, i);
        assert(s[s.len() - 1].role != AccountRole::SuperAdmin);
    }
}

/// Initial setup that succeeds leaves exactly one super admin.
pub proof fn law_setup_makes_one_super_admin(
    m: StoreModel,
    name: Seq<char>,
    email: Seq<char>,
    password: Seq<char>,
    fresh: u128,
    hash: Result<Seq<char>, Seq<char>>,
    token: Seq<char>,
)
    requires
        initial_setup(m, name, email, password, fresh, hash, token).1 is Ok,
    ensures
        ({
            let m1 = initial_setup(m, name, email, password, fresh, hash, token).0;
            super_admins(m1.accounts).len() == 1 && !needs_setup(m1)
        }),
{
    let m1 = initial_setup(m, name, email, password, fresh, hash, token).0;
    let mb = crate::accounts::bootstrap(m, name, email, password, fresh, hash).0;
    assert(m1.accounts == mb.accounts);
    let e = crate::utils::email_norm(email)->Ok_0;
    let id = match crate::store::account_with_email(m, e) {
        Some(a) => a.id,
        None => fresh,
    };
    let accts = m.accounts;
    lemma_find_first(accts, crate::store::account_has_id(id));
    match find_first(accts, crate::store::account_has_id(id)) {
        Some(i) => {
            assert(mb.accounts == accts.update(i, mb.accounts[i]));
            assert forall|j: int| 0 <= j < mb.accounts.len() && j != i implies (#[trigger] mb.accounts[j]).role
                != AccountRole::SuperAdmin by {
                assert(mb.accounts[j] == accts[j]);
            }
            lemma_single_match(mb.accounts, i);
        },
        None => {
            assert forall|j: int| 0 <= j < mb.accounts.len() && j != accts.len() implies (#[trigger] mb.accounts[j]).role
                != AccountRole::SuperAdmin by {
                assert(mb.accounts[j] == accts[j]);
            }
            lemma_single_match(mb.accounts, accts.len() as int);
        },
    }
}

// ---------------------------------------------------------------------------
// Deleting accounts
// ---------------------------------------------------------------------------

proof fn lemma_known_not_deleted(m: StoreModel, account_id: u128, x: u128)
    requires
        known_account(StoreModel { accounts: m.accounts.filter(|a: AccountModel| a.id != account_id), ..m })(x),
    ensures
        x != account_id,
{
    let f = m.accounts.filter(|a: AccountModel| a.id != account_id);
    lemma_find_first(f, crate::store::account_has_id(x));
    let i = find_first(f, crate::store::account_has_id(x))->0;
    m.accounts.lemma_filter_pred(|a: AccountModel| a.id != account_id, i);
}

/// A deleted account leaves no trace: no account, session, queue share or
/// group membership refers to it any more.
pub proof fn law_deleted_account_leaves_no_trace(m: StoreModel, token: Seq<char>, account_id: u128)
    requires
        account_deletion(m, token, account_id).1 is Ok,
    ensures
        ({
            let m1 = account_deletion(m, token, account_id).0;
            &&& account_of(m1, account_id) is None
            &&& forall|i: int| 0 <= i < m1.admin_sessions.len() ==> (#[trigger] m1.admin_sessions[i]).account_id != account_id
            &&& forall|i: int| 0 <= i < m1.user_sessions.len() ==> (#[trigger] m1.user_sessions[i]).account_id != account_id
            &&& forall|i: int| 0 <= i < m1.queues.len() ==> !(#[trigger] m1.queues[i]).shared_account_ids.contains(account_id)
            &&& forall|i: int| 0 <= i < m1.groups.len() ==> !(#[trigger] m1.groups[i]).member_ids.contains(account_id)
        }),
{
    let p = |a: AccountModel| a.id != account_id;
    let m2 = StoreModel { accounts: m.accounts.filter(p), ..m };
    let m1 = account_deletion(m, token, account_id).0;
    let k = known_account(m2);
    assert forall|j: int| 0 <= j < m2.accounts.len() implies !crate::store::account_has_id(account_id)(#[trigger] m2.accounts[j]) by {
        m.accounts.lemma_filter_pred(p, j);
    }
    crate::store::lemma_find_first_unique(m2.accounts, crate::store::account_has_id(account_id), None);
    assert forall|i: int| 0 <= i < m1.admin_sessions.len() implies (#[trigger] m1.admin_sessions[i]).account_id != account_id by {
        m.admin_sessions.lemma_filter_pred(session_known(m2), i);
        lemma_known_not_deleted(m, account_id, m1.admin_sessions[i].account_id);
    }
    assert forall|i: int| 0 <= i < m1.user_sessions.len() implies (#[trigger] m1.user_sessions[i]).account_id != account_id by {
        m.user_sessions.lemma_filter_pred(session_known(m2), i);
        lemma_known_not_deleted(m, account_id, m1.user_sessions[i].account_id);
    }
    assert forall|i: int| 0 <= i < m1.queues.len() implies !(#[trigger] m1.queues[i]).shared_account_ids.contains(account_id) by {
        let ids = m.queues[i].shared_account_ids;
        assert(m1.queues[i].shared_account_ids == ids.filter(k));
        if ids.filter(k).contains(account_id) {
            let j = choose|j: int| 0 <= j < ids.filter(k).len() && ids.filter(k)[j] == account_id;
            ids.lemma_filter_pred(k, j);
            lemma_known_not_deleted(m, account_id, account_id);
        }
    }
    assert forall|i: int| 0 <= i < m1.groups.len() implies !(#[trigger] m1.groups[i]).member_ids.contains(account_id) by {
        let ids = m.groups[i].member_ids;
        assert(m1.groups[i].member_ids == ids.filter(k));
        if ids.filter(k).contains(account_id) {
            let j = choose|j: int| 0 <= j < ids.filter(k).len() && ids.filter(k)[j] == account_id;
            ids.lemma_filter_pred(k, j);
            lemma_known_not_deleted(m, account_id, account_id);
        }
    }
}

// ---------------------------------------------------------------------------
// Emails
// ---------------------------------------------------------------------------

proof fn lemma_trim_start_edges(s: Seq<char>)
    ensures
        trim_start(s).len() > 0 ==> !is_ws(trim_start(s)[0]),
        trim_start(s).len() > 0 && s.len() > 0 ==> trim_start(s).last() == s.last(),
        trim_start(s).len() <= s.len(),
    decreases s.len(),
{
    if s.len() > 0 && is_ws(s[0]) {
        lemma_trim_start_edges(s.drop_first());
    }
}

proof fn lemma_trim_end_edges(s: Seq<char>)
    ensures
        trim_end(s).len() > 0 ==> !is_ws(trim_end(s).last()),
        trim_end(s).len() > 0 ==> trim_end(s)[0] == s[0],
        trim_end(s).len() <= s.len(),
    decreases s.len(),
{
    if s.len() > 0 && is_ws(s.last()) {
        lemma_trim_end_edges(s.drop_last());
    }
}

/// A text that does not start or end with whitespace is its own trim.
proof fn lemma_trimmed_fixed(t: Seq<char>)
    requires
        t.len() > 0 ==> !is_ws(t[0]) && !is_ws(t.last()),
    ensures
        trimmed(t) == t,
{
}

/// Lower-casing never makes a character whitespace.
proof fn lemma_lower_not_ws(c: char)
    requires
        !is_ws(c),
    ensures
        !is_ws(lower(c)),
{
}

/// An email once normalised normalises to itself.
pub proof fn law_email_normalisation_idempotent(value: Seq<char>)
    ensures
        email_norm(value) matches Ok(n) ==> email_norm(n) == Ok::<Seq<char>, Seq<char>>(n),
{
    let t = trimmed(value);
    lemma_trim_start_edges(value);
    lemma_trim_end_edges(trim_start(value));
    let n = lowercase(t);
    if t.len() > 0 {
        assert(!is_ws(t[0]));
        assert(!is_ws(t.last()));
        lemma_lower_not_ws(t[0]);
        lemma_lower_not_ws(t.last());
        assert(n[0] == lower(t[0]));
        assert(n.last() == lower(t.last()));
    }
    lemma_trimmed_fixed(n);
    assert(lowercase(n) =~= n);
}

// ---------------------------------------------------------------------------
// Account identity
// ---------------------------------------------------------------------------

/// No two accounts share an id or an email.
pub open spec fn accounts_distinct(a: Seq<AccountModel>) -> bool {
    forall|i: int, j: int|
        #![trigger a[i], a[j]]
        0 <= i < a.len() && 0 <= j < a.len() && i != j ==> a[i].id != a[j].id && a[i].email != a[j].email
}

/// An account that takes an email nobody else has keeps the accounts
/// distinct when it is inserted by id.
proof fn lemma_upsert_distinct(accts: Seq<AccountModel>, a: AccountModel)
    requires
        accounts_distinct(accts),
        forall|k: int| 0 <= k < accts.len() && (#[trigger] accts[k]).email == a.email ==> accts[k].id == a.id,
    ensures
        accounts_distinct(upsert_account(accts, a)),
{
    lemma_find_first(accts, account_has_id(a.id));
    let r = upsert_account(accts, a);
    match find_first(accts, account_has_id(a.id)) {
        Some(i) => {
            assert forall|x: int, y: int|
                0 <= x < r.len() && 0 <= y < r.len() && x != y implies #[trigger] r[x].id != #[trigger] r[y].id
                && r[x].email != r[y].email by {
                if x == i {
                    assert(accts[y].id != accts[i].id);
                    assert(r[y] == accts[y]);
                } else if y == i {
                    assert(accts[x].id != accts[i].id);
                    assert(r[x] == accts[x]);
                } else {
                    assert(r[x] == accts[x] && r[y] == accts[y]);
                }
            }
        },
        None => {
            assert forall|x: int, y: int|
                0 <= x < r.len() && 0 <= y < r.len() && x != y implies #[trigger] r[x].id != #[trigger] r[y].id
                && r[x].email != r[y].email by {
                if x == accts.len() {
                    assert(r[y] == accts[y]);
                    assert(!account_has_id(a.id)(accts[y]));
                } else if y == accts.len() {
                    assert(r[x] == accts[x]);
                    assert(!account_has_id(a.id)(accts[x]));
                } else {
                    assert(r[x] == accts[x] && r[y] == accts[y]);
                }
            }
        },
    }
}

/// The account found by an email is the only one with that email.
proof fn lemma_email_owner(m: StoreModel, e: Seq<char>)
    requires
        accounts_distinct(m.accounts),
    ensures
        match account_with_email(m, e) {
            Some(x) => forall|k: int| 0 <= k < m.accounts.len() && (#[trigger] m.accounts[k]).email == e ==> m.accounts[k] == x,
            None => forall|k: int| 0 <= k < m.accounts.len() ==> (#[trigger] m.accounts[k]).email != e,
        },
{
    lemma_find_first(m.accounts, account_has_email(e));
    match find_first(m.accounts, account_has_email(e)) {
        Some(i) => {
            assert forall|k: int| 0 <= k < m.accounts.len() && (#[trigger] m.accounts[k]).email == e implies m.accounts[k]
                == m.accounts[i] by {
                if k != i {
                    assert(m.accounts[k].email != m.accounts[i].email);
                }
            }
        },
        None => {
            assert forall|k: int| 0 <= k < m.accounts.len() implies (#[trigger] m.accounts[k]).email != e by {
                assert(!account_has_email(e)(m.accounts[k]));
            }
        },
    }
}

proof fn lemma_kept_differs_from_last(s: Seq<AccountModel>, p: spec_fn(AccountModel) -> bool, k: int)
    requires
        accounts_distinct(s),
        s.len() > 0,
        0 <= k < s.drop_last().filter(p).len(),
    ensures
        s.drop_last().filter(p)[k].id != s.last().id,
        s.drop_last().filter(p)[k].email != s.last().email,
{
    let u = s.drop_last();
    let f = u.filter(p);
    let fk = f[k];
    assert(f.contains(fk));
    u.lemma_filter_contains_rev(p, fk);
    let j = choose|j: int| 0 <= j < u.len() && u[j] == fk;
    assert(u[j] == s[j]);
    let last = s.len() - 1;
    assert(s[j].id != s[last].id && s[j].email != s[last].email);
}

proof fn lemma_filter_distinct(s: Seq<AccountModel>, p: spec_fn(AccountModel) -> bool)
    requires
        accounts_distinct(s),
    ensures
        accounts_distinct(s.filter(p)),
    decreases s.len(),
{
    reveal(Seq::filter);
    if s.len() > 0 {
        let u = s.drop_last();
        assert forall|x: int, y: int| 0 <= x < u.len() && 0 <= y < u.len() && x != y implies #[trigger] u[x].id
            != #[trigger] u[y].id && u[x].email != u[y].email by {
            assert(u[x] == s[x] && u[y] == s[y]);
        }
        lemma_filter_distinct(u, p);
        let f = u.filter(p);
        if p(s.last()) {
            let r = f.push(s.last());
            assert(s.filter(p) == r);
            assert forall|x: int, y: int| 0 <= x < r.len() && 0 <= y < r.len() && x != y implies #[trigger] r[x].id
                != #[trigger] r[y].id && r[x].email != r[y].email by {
                if x == f.len() {
                    assert(r[y] == f[y]);
                    lemma_kept_differs_from_last(s, p, y);
                } else if y == f.len() {
                    assert(r[x] == f[x]);
                    lemma_kept_differs_from_last(s, p, x);
                } else {
                    assert(r[x] == f[x] && r[y] == f[y]);
                }
            }
        }
    }
}

/// Setting up a super admin keeps account ids and emails distinct.
pub proof fn law_bootstrap_keeps_accounts_distinct(
    m: StoreModel,
    name: Seq<char>,
    email: Seq<char>,
    password: Seq<char>,
    fresh: u128,
    hash: Result<Seq<char>, Seq<char>>,
)
    requires
        accounts_distinct(m.accounts),
    ensures
        accounts_distinct(bootstrap(m, name, email, password, fresh, hash).0.accounts),
{
    if let Ok(e) = email_norm(email) {
        lemma_email_owner(m, e);
        let id = match account_with_email(m, e) {
            Some(a) => a.id,
            None => fresh,
        };
        if let Ok(h) = hash {
            lemma_upsert_distinct(
                m.accounts,
                AccountModel { id, name: trimmed(name), email: e, password_hash: h, role: AccountRole::SuperAdmin },
            );
        }
    }
}

/// Initial setup keeps account ids and emails distinct.
pub proof fn law_setup_keeps_accounts_distinct(
    m: StoreModel,
    name: Seq<char>,
    email: Seq<char>,
    password: Seq<char>,
    fresh: u128,
    hash: Result<Seq<char>, Seq<char>>,
    token: Seq<char>,
)
    requires
        accounts_distinct(m.accounts),
    ensures
        accounts_distinct(initial_setup(m, name, email, password, fresh, hash, token).0.accounts),
{
    law_bootstrap_keeps_accounts_distinct(m, name, email, password, fresh, hash);
}

/// Creating an account keeps account ids and emails distinct.
pub proof fn law_creation_keeps_accounts_distinct(
    m: StoreModel,
    token: Seq<char>,
    name: Seq<char>,
    email: Seq<char>,
    password: Seq<char>,
    role: AccountRole,
    fresh: u128,
    hash: Result<Seq<char>, Seq<char>>,
)
    requires
        accounts_distinct(m.accounts),
    ensures
        accounts_distinct(account_creation(m, token, name, email, password, role, fresh, hash).0.accounts),
{
    if let Ok(e) = email_norm(email) {
        lemma_email_owner(m, e);
        if let Ok(h) = hash {
            if account_with_email(m, e) is None {
                lemma_upsert_distinct(
                    m.accounts,
                    AccountModel { id: fresh, name: trimmed(name), email: e, password_hash: h, role },
                );
            }
        }
    }
}

/// Editing an account keeps account ids and emails distinct.
pub proof fn law_update_keeps_accounts_distinct(
    m: StoreModel,
    token: Seq<char>,
    account_id: u128,
    name: Seq<char>,
    email: Seq<char>,
    password: Option<Seq<char>>,
    role: AccountRole,
    hash: Result<Seq<char>, Seq<char>>,
)
    requires
        accounts_distinct(m.accounts),
    ensures
        accounts_distinct(account_update(m, token, account_id, name, email, password, role, hash).0.accounts),
{
    if let Ok(e) = email_norm(email) {
        lemma_email_owner(m, e);
        lemma_find_first(m.accounts, account_has_id(account_id));
        if let Some(i) = find_first(m.accounts, account_has_id(account_id)) {
            let a = m.accounts[i];
            let a1 = AccountModel { name: trimmed(name), email: e, role, ..a };
            let u1 = m.accounts.update(i, a1);
            let ok = !(account_with_email(m, e) matches Some(x) && x.id != account_id);
            if ok {
                assert forall|k: int| 0 <= k < m.accounts.len() && k != i implies (#[trigger] m.accounts[k]).email
                    != e && m.accounts[k].id != account_id by {
                    assert(m.accounts[k].id != m.accounts[i].id);
                }
                assert forall|x: int, y: int| 0 <= x < u1.len() && 0 <= y < u1.len() && x != y implies #[trigger] u1[x].id
                    != #[trigger] u1[y].id && u1[x].email != u1[y].email by {
                    if x != i && y != i {
                        assert(u1[x] == m.accounts[x] && u1[y] == m.accounts[y]);
                    } else if x == i {
                        assert(u1[y] == m.accounts[y]);
                    } else {
                        assert(u1[x] == m.accounts[x]);
                    }
                }
                if let Ok(h) = hash {
                    let u2 = m.accounts.update(i, AccountModel { password_hash: h, ..a1 });
                    assert forall|x: int, y: int| 0 <= x < u2.len() && 0 <= y < u2.len() && x != y implies #[trigger] u2[x].id
                        != #[trigger] u2[y].id && u2[x].email != u2[y].email by {
                        assert(u2[x].id == u1[x].id && u2[x].email == u1[x].email);
                        assert(u2[y].id == u1[y].id && u2[y].email == u1[y].email);
                    }
                }
            }
        }
    }
}

/// Deleting an account keeps account ids and emails distinct.
pub proof fn law_deletion_keeps_accounts_distinct(m: StoreModel, token: Seq<char>, account_id: u128)
    requires
        accounts_distinct(m.accounts),
    ensures
        accounts_distinct(account_deletion(m, token, account_id).0.accounts),
{
    lemma_filter_distinct(m.accounts, |a: AccountModel| a.id != account_id);
}

/// Microsoft sign-in of a requester keeps account ids and emails distinct.
pub proof fn law_microsoft_sign_in_keeps_accounts_distinct(
    m: StoreModel,
    email: Seq<char>,
    name: Option<Seq<char>>,
    fresh: u128,
    hash: Result<Seq<char>, Seq<char>>,
    token: Seq<char>,
)
    requires
        accounts_distinct(m.accounts),
    ensures
        accounts_distinct(ms_user_login(m, email, name, fresh, hash, token).0.accounts),
{
    if let Ok(e) = email_norm(email) {
        lemma_email_owner(m, e);
        if let Ok(h) = hash {
            if account_with_email(m, e) is None {
                lemma_upsert_distinct(
                    m.accounts,
                    AccountModel {
                        id: fresh,
                        name: crate::utils::ms_account_name(name, e),
                        email: e,
                        password_hash: h,
                        role: AccountRole::User,
                    },
                );
            }
        }
    }
}

// ---------------------------------------------------------------------------
// Stored passwords
// ---------------------------------------------------------------------------

/// Every account keeps its password as an Argon2 hash.
pub open spec fn accounts_hashed(a: Seq<AccountModel>) -> bool {
    forall|i: int| 0 <= i < a.len() ==> looks_hashed(#[trigger] a[i].password_hash)
}

proof fn lemma_upsert_hashed(accts: Seq<AccountModel>, a: AccountModel)
    requires
        accounts_hashed(accts),
        looks_hashed(a.password_hash),
    ensures
        accounts_hashed(upsert_account(accts, a)),
{
    let r = upsert_account(accts, a);
    lemma_find_first(accts, account_has_id(a.id));
    assert forall|i: int| 0 <= i < r.len() implies looks_hashed(#[trigger] r[i].password_hash) by {
        if i < accts.len() && r[i] != a {
            assert(r[i] == accts[i]);
        }
    }
}

/// Creating an account stores its password hashed.
pub proof fn law_creation_keeps_passwords_hashed(
    m: StoreModel,
    token: Seq<char>,
    name: Seq<char>,
    email: Seq<char>,
    password: Seq<char>,
    role: AccountRole,
    fresh: u128,
    hash: Result<Seq<char>, Seq<char>>,
)
    requires
        accounts_hashed(m.accounts),
        hash_fits(hash, trimmed(password)),
    ensures
        accounts_hashed(account_creation(m, token, name, email, password, role, fresh, hash).0.accounts),
{
    if let (Ok(e), Ok(h)) = (email_norm(email), hash) {
        lemma_upsert_hashed(m.accounts, AccountModel { id: fresh, name: trimmed(name), email: e, password_hash: h, role });
    }
}

/// Setting up a super admin stores the password hashed.
pub proof fn law_bootstrap_keeps_passwords_hashed(
    m: StoreModel,
    name: Seq<char>,
    email: Seq<char>,
    password: Seq<char>,
    fresh: u128,
    hash: Result<Seq<char>, Seq<char>>,
)
    requires
        accounts_hashed(m.accounts),
        hash_fits(hash, trimmed(password)),
    ensures
        accounts_hashed(bootstrap(m, name, email, password, fresh, hash).0.accounts),
{
    if let (Ok(e), Ok(h)) = (email_norm(email), hash) {
        let id = match account_with_email(m, e) {
            Some(a) => a.id,
            None => fresh,
        };
        lemma_upsert_hashed(
            m.accounts,
            AccountModel { id, name: trimmed(name), email: e, password_hash: h, role: AccountRole::SuperAdmin },
        );
    }
}

/// Editing an account keeps its password hashed, a new one included.
pub proof fn law_update_keeps_passwords_hashed(
    m: StoreModel,
    token: Seq<char>,
    account_id: u128,
    name: Seq<char>,
    email: Seq<char>,
    password: Option<Seq<char>>,
    role: AccountRole,
    hash: Result<Seq<char>, Seq<char>>,
)
    requires
        accounts_hashed(m.accounts),
        password matches Some(p) ==> hash_fits(hash, trimmed(p)),
    ensures
        accounts_hashed(account_update(m, token, account_id, name, email, password, role, hash).0.accounts),
{
    if let Ok(e) = email_norm(email) {
        lemma_find_first(m.accounts, account_has_id(account_id));
        if let Some(i) = find_first(m.accounts, account_has_id(account_id)) {
            let a1 = AccountModel { name: trimmed(name), email: e, role, ..m.accounts[i] };
            let u1 = m.accounts.update(i, a1);
            assert forall|k: int| 0 <= k < u1.len() implies looks_hashed(#[trigger] u1[k].password_hash) by {
                assert(looks_hashed(m.accounts[k].password_hash));
            }
            if let Ok(h) = hash {
                if password is Some {
                    let u2 = m.accounts.update(i, AccountModel { password_hash: h, ..a1 });
                    assert forall|k: int| 0 <= k < u2.len() implies looks_hashed(#[trigger] u2[k].password_hash) by {
                        assert(looks_hashed(m.accounts[k].password_hash));
                    }
                }
            }
        }
    }
}

/// Deleting an account leaves the other passwords hashed.
pub proof fn law_deletion_keeps_passwords_hashed(m: StoreModel, token: Seq<char>, account_id: u128)
    requires
        accounts_hashed(m.accounts),
    ensures
        accounts_hashed(account_deletion(m, token, account_id).0.accounts),
{
    let p = |a: AccountModel| a.id != account_id;
    let f = m.accounts.filter(p);
    assert forall|i: int| 0 <= i < f.len() implies looks_hashed(#[trigger] f[i].password_hash) by {
        assert(f.contains(f[i]));
        m.accounts.lemma_filter_contains_rev(p, f[i]);
    }
}

/// Microsoft sign-in of a new requester stores a hashed password.
pub proof fn law_microsoft_sign_in_keeps_passwords_hashed(
    m: StoreModel,
    email: Seq<char>,
    name: Option<Seq<char>>,
    fresh: u128,
    hash: Result<Seq<char>, Seq<char>>,
    token: Seq<char>,
    password: Seq<char>,
)
    requires
        accounts_hashed(m.accounts),
        hash_fits(hash, password),
    ensures
        accounts_hashed(ms_user_login(m, email, name, fresh, hash, token).0.accounts),
{
    if let (Ok(e), Ok(h)) = (email_norm(email), hash) {
        lemma_upsert_hashed(
            m.accounts,
            AccountModel {
                id: fresh,
                name: crate::utils::ms_account_name(name, e),
                email: e,
                password_hash: h,
                role: AccountRole::User,
            },
        );
    }
}

/// An account a super admin creates signs in with the email and password
/// it was created with.
pub proof fn law_created_account_signs_in(
    m: StoreModel,
    token: Seq<char>,
    name: Seq<char>,
    email: Seq<char>,
    password: Seq<char>,
    role: AccountRole,
    fresh: u128,
    hash: Result<Seq<char>, Seq<char>>,
)
    requires
        hash_fits(hash, trimmed(password)),
        account_creation(m, token, name, email, password, role, fresh, hash).1 is Ok,
    ensures
        ({
            let m1 = account_creation(m, token, name, email, password, role, fresh, hash).0;
            authenticated(m1, email, password) matches Ok(a) && a.id == fresh && a.role == role
        }),
{
    let e = email_norm(email)->Ok_0;
    let h = hash->Ok_0;
    let a = AccountModel { id: fresh, name: trimmed(name), email: e, password_hash: h, role };
    let m1 = account_creation(m, token, name, email, password, role, fresh, hash).0;
    lemma_find_first(m.accounts, account_has_email(e));
    lemma_find_first(m.accounts, account_has_id(fresh));
    let r = m1.accounts;
    assert(r == upsert_account(m.accounts, a));
    let at = match find_first(m.accounts, account_has_id(fresh)) {
        Some(i) => i,
        None => m.accounts.len() as int,
    };
    assert(r[at] == a);
    assert forall|k: int| 0 <= k < r.len() && k != at implies !account_has_email(e)(#[trigger] r[k]) by {
        assert(r[k] == m.accounts[k]);
    }
    crate::store::lemma_find_first_unique(r, account_has_email(e), Some(at));
}

/// A restored store keeps every password hashed: those kept in plain text
/// are hashed on the way in.
pub proof fn law_restore_hashes_passwords(snap: crate::snapshot::SnapshotModel, m: StoreModel)
    requires
        crate::snapshot::restored(snap, m),
    ensures
        accounts_hashed(m.accounts),
{
    assert forall|i: int| 0 <= i < m.accounts.len() implies looks_hashed(#[trigger] m.accounts[i].password_hash) by {
        assert(crate::snapshot::migrated(snap.accounts[i], m.accounts[i]));
    }
}

// ---------------------------------------------------------------------------
// References to accounts
// ---------------------------------------------------------------------------

/// Every session, queue share and group membership names an existing
/// account.
pub open spec fn references_known(m: StoreModel) -> bool {
    &&& forall|i: int| 0 <= i < m.admin_sessions.len() ==> session_known(m)(#[trigger] m.admin_sessions[i])
    &&& forall|i: int| 0 <= i < m.user_sessions.len() ==> session_known(m)(#[trigger] m.user_sessions[i])
    &&& forall|i: int, x: u128|
        0 <= i < m.queues.len() && #[trigger] m.queues[i].shared_account_ids.contains(x) ==> known_account(m)(x)
    &&& forall|i: int, x: u128|
        0 <= i < m.groups.len() && #[trigger] m.groups[i].member_ids.contains(x) ==> known_account(m)(x)
}

proof fn lemma_filtered_ids_known(ids: Seq<u128>, m: StoreModel, x: u128)
    requires
        ids.filter(known_account(m)).contains(x),
    ensures
        known_account(m)(x),
{
    let f = ids.filter(known_account(m));
    let j = choose|j: int| 0 <= j < f.len() && f[j] == x;
    ids.lemma_filter_pred(known_account(m), j);
}

/// Pruning leaves only references to existing accounts.
proof fn lemma_pruned_references_known(m: StoreModel)
    ensures
        references_known(crate::accounts::prune_accounts(m)),
{
    let pm = crate::accounts::prune_accounts(m);
    assert(pm.accounts == m.accounts);
    assert forall|i: int| 0 <= i < pm.admin_sessions.len() implies session_known(pm)(#[trigger] pm.admin_sessions[i]) by {
        m.admin_sessions.lemma_filter_pred(session_known(m), i);
    }
    assert forall|i: int| 0 <= i < pm.user_sessions.len() implies session_known(pm)(#[trigger] pm.user_sessions[i]) by {
        m.user_sessions.lemma_filter_pred(session_known(m), i);
    }
    assert forall|i: int, x: u128|
        0 <= i < pm.queues.len() && #[trigger] pm.queues[i].shared_account_ids.contains(x) implies known_account(pm)(x) by {
        lemma_filtered_ids_known(m.queues[i].shared_account_ids, m, x);
    }
    assert forall|i: int, x: u128|
        0 <= i < pm.groups.len() && #[trigger] pm.groups[i].member_ids.contains(x) implies known_account(pm)(x) by {
        lemma_filtered_ids_known(m.groups[i].member_ids, m, x);
    }
}

/// An accepted edit of an account leaves no session, queue share or group
/// membership that names a missing account.
pub proof fn law_update_leaves_no_dangling_reference(
    m: StoreModel,
    token: Seq<char>,
    account_id: u128,
    name: Seq<char>,
    email: Seq<char>,
    password: Option<Seq<char>>,
    role: AccountRole,
    hash: Result<Seq<char>, Seq<char>>,
)
    requires
        account_update(m, token, account_id, name, email, password, role, hash).1 is Ok,
    ensures
        references_known(account_update(m, token, account_id, name, email, password, role, hash).0),
{
    let e = email_norm(email)->Ok_0;
    let i = find_first(m.accounts, account_has_id(account_id))->0;
    let a1 = AccountModel { name: trimmed(name), email: e, role, ..m.accounts[i] };
    let m1 = StoreModel { accounts: m.accounts.update(i, a1), ..m };
    lemma_pruned_references_known(m1);
    if let Ok(h) = hash {
        lemma_pruned_references_known(
            StoreModel { accounts: m.accounts.update(i, AccountModel { password_hash: h, ..a1 }), ..m },
        );
    }
}

/// An accepted deletion of an account leaves no session, queue share or
/// group membership that names a missing account.
pub proof fn law_deletion_leaves_no_dangling_reference(m: StoreModel, token: Seq<char>, account_id: u128)
    requires
        account_deletion(m, token, account_id).1 is Ok,
    ensures
        references_known(account_deletion(m, token, account_id).0),
{
    lemma_pruned_references_known(
        StoreModel { accounts: m.accounts.filter(|a: AccountModel| a.id != account_id), ..m },
    );
}

// ---------------------------------------------------------------------------
// Handling, leaving and opening, stated over plain statuses and times
// ---------------------------------------------------------------------------

/// The entry with that id sits at index `k` of the queue at index `qi`,
/// which is the first live queue that holds it.
pub open spec fn entry_at(m: StoreModel, entry_id: u128, qi: int, k: int) -> bool {
    &&& find_first(m.queues, queue_holds_entry(entry_id)) == Some(qi)
    &&& 0 <= qi < m.queues.len()
    &&& find_first(m.queues[qi].entries, entry_has_id(entry_id)) == Some(k)
    &&& 0 <= k < m.queues[qi].entries.len()
}

/// An admin who may act on the queue (its owner or a super admin) resolves
/// or denies a pending or claimed request: the request takes that status,
/// keeps its handler or gets the admin as handler, and the answer is the
/// queue's id. In particular a claimed request can be resolved or denied.
pub proof fn law_open_request_can_be_closed(
    m: StoreModel,
    token: Seq<char>,
    entry_id: u128,
    next: QueueEntryStatus,
    qi: int,
    k: int,
)
    requires
        admin_of(m, token) is Some,
        entry_at(m, entry_id, qi, k),
        admin_of(m, token)->0.role == AccountRole::SuperAdmin || m.queues[qi].owner_account_id == admin_of(m, token)->0.id,
        m.queues[qi].entries[k].status == QueueEntryStatus::Pending || m.queues[qi].entries[k].status
            == QueueEntryStatus::Claimed,
        next == QueueEntryStatus::Resolved || next == QueueEntryStatus::Denied,
    ensures
        ({
            let (m1, r) = entry_handling(m, token, entry_id, EntryAction::SetStatus(next));
            let before = m.queues[qi].entries[k];
            let after = m1.queues[qi].entries[k];
            &&& r == Ok::<u128, Seq<char>>(m.queues[qi].id)
            &&& after.status == next
            &&& after.id == entry_id && after.token == before.token && after.values == before.values
            &&& after.claimed_by == match before.claimed_by {
                Some(h) => Some(h),
                None => Some(admin_of(m, token)->0.name),
            }
        }),
{
    let admin = admin_of(m, token)->0;
    let q = m.queues[qi];
    let before = q.entries[k];
    lemma_find_first(q.entries, entry_has_id(entry_id));
    let e = acted(before, EntryAction::SetStatus(next), admin.name);
    assert(e is Some);
    let m1 = with_entry(m, qi, k, e->0);
    assert(entry_handling(m, token, entry_id, EntryAction::SetStatus(next)) == (m1, Ok::<u128, Seq<char>>(q.id)));
    assert(m1.queues[qi].entries[k] == e->0);
}

/// Claiming a pending request and then resolving or denying it succeeds:
/// the request ends with that status, handled by the admin who claimed it.
pub proof fn law_claim_then_close(
    m: StoreModel,
    token: Seq<char>,
    entry_id: u128,
    next: QueueEntryStatus,
    qi: int,
    k: int,
)
    requires
        admin_of(m, token) is Some,
        entry_at(m, entry_id, qi, k),
        admin_of(m, token)->0.role == AccountRole::SuperAdmin || m.queues[qi].owner_account_id == admin_of(m, token)->0.id,
        m.queues[qi].entries[k].status == QueueEntryStatus::Pending,
        next == QueueEntryStatus::Resolved || next == QueueEntryStatus::Denied,
    ensures
        ({
            let (m1, r1) = entry_handling(m, token, entry_id, EntryAction::Claim);
            let (m2, r2) = entry_handling(m1, token, entry_id, EntryAction::SetStatus(next));
            &&& r1 == Ok::<u128, Seq<char>>(m.queues[qi].id)
            &&& r2 == Ok::<u128, Seq<char>>(m.queues[qi].id)
            &&& m2.queues[qi].entries[k].status == next
            &&& m2.queues[qi].entries[k].claimed_by == Some(admin_of(m, token)->0.name)
        }),
{
    let m1 = entry_handling(m, token, entry_id, EntryAction::Claim).0;
    let q = m.queues[qi];
    let q1 = m1.queues[qi];
    assert(m1.accounts == m.accounts && m1.admin_sessions == m.admin_sessions);
    assert(admin_of(m1, token) == admin_of(m, token));
    assert forall|j: int| 0 <= j < q.entries.len() implies entry_has_id(entry_id)(#[trigger] q.entries[j])
        == entry_has_id(entry_id)(q1.entries[j]) by {}
    lemma_find_first_same(q.entries, q1.entries, entry_has_id(entry_id), entry_has_id(entry_id));
    assert forall|j: int| 0 <= j < m.queues.len() implies queue_holds_entry(entry_id)(#[trigger] m.queues[j])
        == queue_holds_entry(entry_id)(m1.queues[j]) by {
        if j != qi {
            assert(m1.queues[j] == m.queues[j]);
        }
    }
    lemma_find_first_same(m.queues, m1.queues, queue_holds_entry(entry_id), queue_holds_entry(entry_id));
    law_open_request_can_be_closed(m1, token, entry_id, next, qi, k);
}

/// A requester leaves a pending or claimed request by its token: the
/// request becomes Left, loses its handler and records when it was left.
/// A request that is already Left, Resolved or Denied is refused as closed
/// and nothing changes.
pub proof fn law_leaving_an_open_request(m: StoreModel, queue_id: u128, token: Seq<char>, left_at: Seq<char>, qi: int, k: int)
    requires
        find_first(m.queues, queue_has_id(queue_id)) == Some(qi),
        0 <= qi < m.queues.len(),
        find_first(m.queues[qi].entries, crate::entries::entry_has_token(token)) == Some(k),
        0 <= k < m.queues[qi].entries.len(),
    ensures
        ({
            let (m1, r) = crate::entries::leaving(m, queue_id, token, left_at);
            let before = m.queues[qi].entries[k];
            if before.status == QueueEntryStatus::Pending || before.status == QueueEntryStatus::Claimed {
                &&& r == Ok::<(), Seq<char>>(())
                &&& m1.queues[qi].entries[k].status == QueueEntryStatus::Left
                &&& m1.queues[qi].entries[k].claimed_by is None
                &&& m1.queues[qi].entries[k].left_at == Some(left_at)
                &&& m1.queues[qi].entries[k].id == before.id
            } else {
                &&& r == Err::<(), Seq<char>>("queue entry is already closed"@)
                &&& m1 == m
            }
        }),
{
}

/// A queue with a weekly opening and no one-time opening is open at any
/// instant whose UTC weekday comes later in the week than the opening's,
/// and from the opening minute on during the opening's own weekday; it is
/// closed earlier in the week.
pub proof fn law_weekly_opening(q: QueueModel, now: Instant, w: WeeklySchedule)
    requires
        q.opens_at is None,
        q.weekly_schedule == Some(w),
    ensures
        crate::clock::weekday_of(now.secs) > w.weekday ==> queue_open(q, now),
        crate::clock::weekday_of(now.secs) == w.weekday && crate::clock::minute_of_day_of(now.secs) >= w.minute_of_day
            ==> queue_open(q, now),
        crate::clock::weekday_of(now.secs) < w.weekday ==> !queue_open(q, now),
{
}

/// A signed-in requester whose most recent Left request in the queue was
/// left less than the cooldown before `now`, and who holds no open request
/// there, cannot join yet: the store is unchanged, the answer is an error,
/// and it is the wait message once the form values are accepted.
pub proof fn law_signed_in_rejoin_waits(
    m: StoreModel,
    queue_id: u128,
    vals: Map<Seq<char>, Seq<char>>,
    user_token: Seq<char>,
    entry_token: Option<Seq<char>>,
    now: Instant,
    id: u128,
    token: Seq<char>,
    qi: int,
    k: int,
    rs: i64,
    rn: u32,
)
    requires
        crate::store::user_of(m, user_token) is Some,
        find_first(m.queues, queue_has_id(queue_id)) == Some(qi),
        0 <= qi < m.queues.len(),
        queue_open(m.queues[qi], now),
        forall|j: int|
            0 <= j < m.queues[qi].entries.len() ==> !((#[trigger] m.queues[qi].entries[j]).requester_account_id == Some(
                crate::store::user_of(m, user_token)->0.id,
            ) && (m.queues[qi].entries[j].status == QueueEntryStatus::Pending || m.queues[qi].entries[j].status
                == QueueEntryStatus::Claimed)),
        0 <= k < m.queues[qi].entries.len(),
        m.queues[qi].entries[k].requester_account_id == Some(crate::store::user_of(m, user_token)->0.id),
        m.queues[qi].entries[k].status == QueueEntryStatus::Left,
        forall|j: int|
            k < j < m.queues[qi].entries.len() ==> !((#[trigger] m.queues[qi].entries[j]).requester_account_id == Some(
                crate::store::user_of(m, user_token)->0.id,
            ) && m.queues[qi].entries[j].status == QueueEntryStatus::Left),
        m.queues[qi].entries[k].left_at matches Some(t) && crate::clock::rfc3339_parse(t) matches Ok((s, n))
            && crate::clock::seconds_later(s, n, crate::entries::REJOIN_COOLDOWN_SECS) == Some((rs, rn)),
        crate::clock::instant_lt(now, Instant { secs: rs, nanos: rn }),
    ensures
        ({
            let (m1, r) = joining(m, queue_id, vals, Some(user_token), entry_token, now, id, token);
            &&& m1 == m
            &&& r is Err
            &&& crate::entries::fill_fields(vals, m.queues[qi].fields, Some(crate::store::user_of(m, user_token)->0.name))
                is Ok ==> r == Err::<Seq<char>, Seq<char>>(
                crate::entries::wait_text(crate::clock::whole_seconds_between(rs, rn, now.secs, now.nanos)),
            )
        }),
{
    let a = crate::store::user_of(m, user_token)->0;
    let es = m.queues[qi].entries;
    let pa = active_by_account(a.id);
    assert forall|j: int| 0 <= j < es.len() implies !pa(#[trigger] es[j]) by {}
    lemma_find_first_unique(es, pa, None);
    let pl = crate::entries::left_by_account(a.id);
    assert(crate::store::is_last(es, pl, Some(k)));
    crate::store::lemma_find_last_unique(es, pl, Some(k));
}

/// A guest whose entry token names a Left request in the queue, left less
/// than the cooldown before `now`, and no open request, cannot join yet:
/// the store is unchanged and the answer is an error.
pub proof fn law_guest_rejoin_waits(
    m: StoreModel,
    queue_id: u128,
    vals: Map<Seq<char>, Seq<char>>,
    entry_token: Seq<char>,
    now: Instant,
    id: u128,
    token: Seq<char>,
    qi: int,
    k: int,
    rs: i64,
    rn: u32,
)
    requires
        find_first(m.queues, queue_has_id(queue_id)) == Some(qi),
        0 <= qi < m.queues.len(),
        queue_open(m.queues[qi], now),
        forall|j: int|
            0 <= j < m.queues[qi].entries.len() ==> !((#[trigger] m.queues[qi].entries[j]).token == entry_token && (
            m.queues[qi].entries[j].status == QueueEntryStatus::Pending || m.queues[qi].entries[j].status
                == QueueEntryStatus::Claimed)),
        0 <= k < m.queues[qi].entries.len(),
        m.queues[qi].entries[k].token == entry_token,
        m.queues[qi].entries[k].status == QueueEntryStatus::Left,
        forall|j: int|
            0 <= j < k ==> !((#[trigger] m.queues[qi].entries[j]).token == entry_token && m.queues[qi].entries[j].status
                == QueueEntryStatus::Left),
        m.queues[qi].entries[k].left_at matches Some(t) && crate::clock::rfc3339_parse(t) matches Ok((s, n))
            && crate::clock::seconds_later(s, n, crate::entries::REJOIN_COOLDOWN_SECS) == Some((rs, rn)),
        crate::clock::instant_lt(now, Instant { secs: rs, nanos: rn }),
    ensures
        ({
            let (m1, r) = joining(m, queue_id, vals, None, Some(entry_token), now, id, token);
            &&& m1 == m
            &&& r is Err
        }),
{
    let es = m.queues[qi].entries;
    let pa = active_by_token(entry_token);
    assert forall|j: int| 0 <= j < es.len() implies !pa(#[trigger] es[j]) by {}
    lemma_find_first_unique(es, pa, None);
    let pl = crate::entries::left_by_token(entry_token);
    lemma_find_first_unique(es, pl, Some(k));
}

/// An accepted edit of an account leaves the account with that id holding
/// the requested role, the trimmed name and the normalised email, and the
/// new password's hash when a non-blank password was given (else its old
/// hash).
pub proof fn law_update_applies_the_edit(
    m: StoreModel,
    token: Seq<char>,
    account_id: u128,
    name: Seq<char>,
    email: Seq<char>,
    password: Option<Seq<char>>,
    role: AccountRole,
    hash: Result<Seq<char>, Seq<char>>,
)
    requires
        account_update(m, token, account_id, name, email, password, role, hash).1 is Ok,
    ensures
        ({
            let m1 = account_update(m, token, account_id, name, email, password, role, hash).0;
            &&& account_of(m1, account_id) is Some
            &&& account_of(m1, account_id)->0.role == role
            &&& account_of(m1, account_id)->0.name == trimmed(name)
            &&& account_of(m1, account_id)->0.email == email_norm(email)->Ok_0
            &&& account_of(m1, account_id)->0.id == account_id
            &&& account_of(m1, account_id)->0.password_hash == match password {
                Some(p) => if trimmed(p).len() != 0 {
                    hash->Ok_0
                } else {
                    account_of(m, account_id)->0.password_hash
                },
                None => account_of(m, account_id)->0.password_hash,
            }
        }),
{
    let e = email_norm(email)->Ok_0;
    lemma_find_first(m.accounts, account_has_id(account_id));
    let i = find_first(m.accounts, account_has_id(account_id))->0;
    let m1 = account_update(m, token, account_id, name, email, password, role, hash).0;
    assert(m1.accounts.len() == m.accounts.len());
    assert(m1.accounts[i].id == account_id);
    assert forall|j: int| 0 <= j < i implies !account_has_id(account_id)(#[trigger] m1.accounts[j]) by {
        assert(m1.accounts[j] == m.accounts[j]);
    }
    lemma_find_first_unique(m1.accounts, account_has_id(account_id), Some(i));
}

} // verus!
