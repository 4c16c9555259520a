//! Queue, group and settings management by admins.
use vstd::prelude::*;
use crate::accounts::{fail, msg_unknown_admin, unit_result};
use crate::clock::{parse_rfc3339, representable, rfc3339_parse, rfc3339_text, to_rfc3339, Instant};
use crate::ids::{code_seed, code_string, code_text, fresh_id, lemma_code_text_top};
use crate::model::{
    fields_model, opt_text, role_can_administer, role_can_join, AccountModel, AccountRole,
    ArchivedModel, ArchivedQueue, FieldModel, Group, GroupModel, Queue, QueueField, QueueModel,
    WeeklySchedule,
};
use crate::store::{
    account_has_id, account_of, admin_of, archive_has_id, archived_model, find_first,
    group_has_id, group_of, groups_model, lemma_find_first, lemma_find_first_unique,
    queue_has_id, queue_of, queues_model, Store, StoreModel,
};
use crate::text::{owned, text_eq, trim, trimmed};
use crate::utils::{fields_norm, normalize_fields};

verus! {

// ---------------------------------------------------------------------------
// Model
// ---------------------------------------------------------------------------

/// The opening time as kept: blank means none; otherwise it must parse as
/// RFC 3339 and is kept as the UTC text `chrono` writes.
pub open spec fn opens_norm(o: Option<Seq<char>>) -> Result<Option<Seq<char>>, Seq<char>> {
    match o {
        None => Ok(None),
        Some(v) => {
            let t = trimmed(v);
            if t.len() == 0 {
                Ok(None)
            } else {
                match rfc3339_parse(t) {
                    Err(e) => Err("invalid queue opening time: "@ + e),
                    Ok((s, n)) => Ok(rfc3339_text(s, n)),
                }
            }
        },
    }
}

pub open spec fn weekly_norm(w: Option<WeeklySchedule>) -> Result<Option<WeeklySchedule>, Seq<char>> {
    match w {
        None => Ok(None),
        Some(s) => if s.weekday > 6 {
            Err("weekly schedule day is invalid"@)
        } else if s.minute_of_day >= 24 * 60 {
            Err("weekly schedule time is invalid"@)
        } else {
            Ok(Some(s))
        },
    }
}

/// The join codes in use by live and closed queues.
pub open spec fn codes_in_use(m: StoreModel) -> Seq<Seq<char>> {
    m.queues.map_values(|q: QueueModel| q.code) + m.archived.map_values(|a: ArchivedModel| a.queue.code)
}

/// Inserts a queue, replacing the one with the same id.
pub open spec fn upsert_queue(qs: Seq<QueueModel>, q: QueueModel) -> Seq<QueueModel> {
    match find_first(qs, queue_has_id(q.id)) {
        Some(i) => qs.update(i, q),
        None => qs.push(q),
    }
}

pub open spec fn upsert_group(gs: Seq<GroupModel>, g: GroupModel) -> Seq<GroupModel> {
    match find_first(gs, group_has_id(g.id)) {
        Some(i) => gs.update(i, g),
        None => gs.push(g),
    }
}

pub open spec fn upsert_archive(xs: Seq<ArchivedModel>, a: ArchivedModel) -> Seq<ArchivedModel> {
    match find_first(xs, archive_has_id(a.queue.id)) {
        Some(i) => xs.update(i, a),
        None => xs.push(a),
    }
}

pub open spec fn msg_no_code() -> Seq<char> {
    "no free queue code was found"@
}

/// An admin opens a new queue with id `id` and join code `code` (`None`
/// when no free code was drawn).
pub open spec fn queue_creation(
    m: StoreModel,
    token: Seq<char>,
    name: Seq<char>,
    fields: Seq<FieldModel>,
    allow_guests: bool,
    is_public: bool,
    opens_at: Option<Seq<char>>,
    weekly: Option<WeeklySchedule>,
    id: u128,
    code: Option<Seq<char>>,
) -> (StoreModel, Result<u128, Seq<char>>) {
    match admin_of(m, token) {
        None => (m, Err(msg_unknown_admin())),
        Some(admin) => {
            let n = trimmed(name);
            if n.len() == 0 {
                (m, Err("queue name is required"@))
            } else {
                match fields_norm(fields) {
                    Err(e) => (m, Err(e)),
                    Ok(fs) => match opens_norm(opens_at) {
                        Err(e) => (m, Err(e)),
                        Ok(o) => match weekly_norm(weekly) {
                            Err(e) => (m, Err(e)),
                            Ok(w) => match code {
                                None => (m, Err(msg_no_code())),
                                Some(c) => (
                                    StoreModel {
                                        queues: upsert_queue(
                                            m.queues,
                                            QueueModel {
                                                id,
                                                code: c,
                                                name: n,
                                                allow_guests,
                                                is_public,
                                                opens_at: o,
                                                weekly_schedule: w,
                                                owner_account_id: admin.id,
                                                owner_name: admin.name,
                                                shared_account_ids: Seq::empty(),
                                                shared_group_ids: Seq::empty(),
                                                fields: fs,
                                                entries: Seq::empty(),
                                            },
                                        ),
                                        ..m
                                    },
                                    Ok(id),
                                ),
                            },
                        },
                    },
                }
            }
        },
    }
}

/// The queue's owner or a super admin changes its fields, guest access,
/// visibility and schedule.
pub open spec fn queue_settings_update(
    m: StoreModel,
    token: Seq<char>,
    queue_id: u128,
    fields: Seq<FieldModel>,
    allow_guests: bool,
    is_public: bool,
    opens_at: Option<Seq<char>>,
    weekly: Option<WeeklySchedule>,
) -> (StoreModel, Result<(), Seq<char>>) {
    match admin_of(m, token) {
        None => (m, Err(msg_unknown_admin())),
        Some(admin) => match fields_norm(fields) {
            Err(e) => (m, Err(e)),
            Ok(fs) => match opens_norm(opens_at) {
                Err(e) => (m, Err(e)),
                Ok(o) => match weekly_norm(weekly) {
                    Err(e) => (m, Err(e)),
                    Ok(w) => match find_first(m.queues, queue_has_id(queue_id)) {
                        None => (m, Err("queue not found"@)),
                        Some(i) => {
                            let q = m.queues[i];
                            if !(admin.role == AccountRole::SuperAdmin || q.owner_account_id
                                == admin.id) {
                                (m, Err("only the queue owner or super admin can edit this queue"@))
                            } else {
                                (
                                    StoreModel {
                                        queues: m.queues.update(
                                            i,
                                            QueueModel {
                                                fields: fs,
                                                allow_guests,
                                                is_public,
                                                opens_at: o,
                                                weekly_schedule: w,
                                                ..q
                                            },
                                        ),
                                        ..m
                                    },
                                    Ok(()),
                                )
                            }
                        },
                    },
                },
            },
        },
    }
}

/// The accounts a queue may be shared with: each must exist and be able
/// to administer; repeats are dropped.
pub open spec fn share_accounts_norm(m: StoreModel, ids: Seq<u128>) -> Result<Seq<u128>, Seq<char>>
    decreases ids.len(),
{
    if ids.len() == 0 {
        Ok(Seq::empty())
    } else {
        match share_accounts_norm(m, ids.drop_last()) {
            Err(e) => Err(e),
            Ok(prev) => match account_of(m, ids.last()) {
                None => Err("shared admin account not found"@),
                Some(a) => if !role_can_administer(a.role) {
                    Err("queues can only be shared with admin accounts"@)
                } else if prev.contains(ids.last()) {
                    Ok(prev)
                } else {
                    Ok(prev.push(ids.last()))
                },
            },
        }
    }
}

/// The groups a queue may be shared with: each must exist and be an admin
/// group; repeats are dropped.
pub open spec fn share_groups_norm(m: StoreModel, ids: Seq<u128>) -> Result<Seq<u128>, Seq<char>>
    decreases ids.len(),
{
    if ids.len() == 0 {
        Ok(Seq::empty())
    } else {
        match share_groups_norm(m, ids.drop_last()) {
            Err(e) => Err(e),
            Ok(prev) => match group_of(m, ids.last()) {
                None => Err("shared admin group not found"@),
                Some(g) => if g.role != AccountRole::Admin {
                    Err("queues can only be shared with admin groups"@)
                } else if prev.contains(ids.last()) {
                    Ok(prev)
                } else {
                    Ok(prev.push(ids.last()))
                },
            },
        }
    }
}

/// The members a group of the role may have: each must exist and fit the
/// role; repeats are dropped.
pub open spec fn members_norm(m: StoreModel, role: AccountRole, ids: Seq<u128>) -> Result<
    Seq<u128>,
    Seq<char>,
>
    decreases ids.len(),
{
    if ids.len() == 0 {
        Ok(Seq::empty())
    } else {
        match members_norm(m, role, ids.drop_last()) {
            Err(e) => Err(e),
            Ok(prev) => match account_of(m, ids.last()) {
                None => Err("group member account not found"@),
                Some(a) => if !(match role {
                    AccountRole::Admin => role_can_administer(a.role),
                    AccountRole::User => role_can_join(a.role),
                    AccountRole::SuperAdmin => false,
                }) {
                    Err("group members must match the group role"@)
                } else if prev.contains(ids.last()) {
                    Ok(prev)
                } else {
                    Ok(prev.push(ids.last()))
                },
            },
        }
    }
}

/// The owner or a super admin sets who a queue is shared with.
pub open spec fn queue_sharing(
    m: StoreModel,
    token: Seq<char>,
    queue_id: u128,
    account_ids: Seq<u128>,
    group_ids: Seq<u128>,
) -> (StoreModel, Result<(), Seq<char>>) {
    match admin_of(m, token) {
        None => (m, Err(msg_unknown_admin())),
        Some(admin) => if admin.role != AccountRole::SuperAdmin && queue_of(m, queue_id) is None {
            (m, Err("queue not found"@))
        } else if admin.role != AccountRole::SuperAdmin && queue_of(m, queue_id)->0.owner_account_id
            != admin.id {
            (m, Err("only the queue owner or super admin can share this queue"@))
        } else {
            match share_accounts_norm(m, account_ids) {
                Err(e) => (m, Err(e)),
                Ok(a) => match share_groups_norm(m, group_ids) {
                    Err(e) => (m, Err(e)),
                    Ok(g) => match find_first(m.queues, queue_has_id(queue_id)) {
                        None => (m, Err("queue not found"@)),
                        Some(i) => (
                            StoreModel {
                                queues: m.queues.update(
                                    i,
                                    QueueModel {
                                        shared_account_ids: a,
                                        shared_group_ids: g,
                                        ..m.queues[i]
                                    },
                                ),
                                ..m
                            },
                            Ok(()),
                        ),
                    },
                },
            }
        },
    }
}

/// The owner or a super admin closes a live queue at the time written
/// `closed_at`; it moves, with its entries, to the closed queues.
pub open spec fn queue_closing(m: StoreModel, token: Seq<char>, queue_id: u128, closed_at: Seq<char>) -> (
    StoreModel,
    Result<(), Seq<char>>,
) {
    match admin_of(m, token) {
        None => (m, Err(msg_unknown_admin())),
        Some(admin) => match find_first(m.queues, queue_has_id(queue_id)) {
            None => (m, Err("queue not found"@)),
            Some(i) => {
                let q = m.queues[i];
                if !(admin.role == AccountRole::SuperAdmin || q.owner_account_id == admin.id) {
                    (m, Err("only the queue owner or super admin can close this queue"@))
                } else {
                    (
                        StoreModel {
                            queues: m.queues.remove(i),
                            archived: upsert_archive(
                                m.archived,
                                ArchivedModel {
                                    queue: q,
                                    closed_at,
                                    closed_by_account_id: admin.id,
                                    closed_by_name: admin.name,
                                },
                            ),
                            ..m
                        },
                        Ok(()),
                    )
                }
            },
        },
    }
}

/// Drops queue shares with groups that are gone or are no longer admin groups.
pub open spec fn admin_group_known(m: StoreModel) -> spec_fn(u128) -> bool {
    |id: u128| exists|j: int| 0 <= j < m.groups.len() && m.groups[j].role == AccountRole::Admin && m.groups[j].id == id
}

pub open spec fn queue_groups_pruned(m: StoreModel) -> spec_fn(QueueModel) -> QueueModel {
    |q: QueueModel| QueueModel { shared_group_ids: q.shared_group_ids.filter(admin_group_known(m)), ..q }
}

pub open spec fn prune_groups(m: StoreModel) -> StoreModel {
    StoreModel { queues: m.queues.map_values(queue_groups_pruned(m)), ..m }
}

/// A super admin creates a group of admins or users with id `id`.
pub open spec fn group_creation(
    m: StoreModel,
    token: Seq<char>,
    name: Seq<char>,
    role: AccountRole,
    member_ids: Seq<u128>,
    id: u128,
) -> (StoreModel, Result<(), Seq<char>>) {
    match admin_of(m, token) {
        None => (m, Err(msg_unknown_admin())),
        Some(admin) => if admin.role != AccountRole::SuperAdmin {
            (m, Err("only the super admin can create groups"@))
        } else if role == AccountRole::SuperAdmin {
            (m, Err("groups can only be created for admins or users"@))
        } else if trimmed(name).len() == 0 {
            (m, Err("group name is required"@))
        } else {
            match members_norm(m, role, member_ids) {
                Err(e) => (m, Err(e)),
                Ok(ms) => (
                    StoreModel {
                        groups: upsert_group(
                            m.groups,
                            GroupModel { id, name: trimmed(name), role, member_ids: ms },
                        ),
                        ..m
                    },
                    Ok(()),
                ),
            }
        },
    }
}

/// A super admin edits a group.
pub open spec fn group_update(
    m: StoreModel,
    token: Seq<char>,
    group_id: u128,
    name: Seq<char>,
    role: AccountRole,
    member_ids: Seq<u128>,
) -> (StoreModel, Result<(), Seq<char>>) {
    match admin_of(m, token) {
        None => (m, Err(msg_unknown_admin())),
        Some(admin) => if admin.role != AccountRole::SuperAdmin {
            (m, Err("only the super admin can edit groups"@))
        } else if role == AccountRole::SuperAdmin {
            (m, Err("groups can only be created for admins or users"@))
        } else if trimmed(name).len() == 0 {
            (m, Err("group name is required"@))
        } else {
            match members_norm(m, role, member_ids) {
                Err(e) => (m, Err(e)),
                Ok(ms) => match find_first(m.groups, group_has_id(group_id)) {
                    None => (m, Err("group not found"@)),
                    Some(i) => (
                        prune_groups(
                            StoreModel {
                                groups: m.groups.update(
                                    i,
                                    GroupModel { name: trimmed(name), role, member_ids: ms, ..m.groups[i] },
                                ),
                                ..m
                            },
                        ),
                        Ok(()),
                    ),
                },
            }
        },
    }
}

/// A super admin deletes a group.
pub open spec fn group_deletion(m: StoreModel, token: Seq<char>, group_id: u128) -> (
    StoreModel,
    Result<(), Seq<char>>,
) {
    match admin_of(m, token) {
        None => (m, Err(msg_unknown_admin())),
        Some(admin) => if admin.role != AccountRole::SuperAdmin {
            (m, Err("only the super admin can delete groups"@))
        } else if find_first(m.groups, group_has_id(group_id)) is None {
            (m, Err("group not found"@))
        } else {
            (
                prune_groups(
                    StoreModel { groups: m.groups.filter(|g: GroupModel| g.id != group_id), ..m },
                ),
                Ok(()),
            )
        },
    }
}

/// A super admin sets the site title (at most 80 characters after
/// trimming) and the sign-in switches.
pub open spec fn settings_update(
    m: StoreModel,
    token: Seq<char>,
    title: Seq<char>,
    admin_password: bool,
    admin_microsoft: bool,
    user_password: bool,
    user_microsoft: bool,
) -> (StoreModel, Result<(), Seq<char>>) {
    match admin_of(m, token) {
        None => (m, Err(msg_unknown_admin())),
        Some(admin) => if admin.role != AccountRole::SuperAdmin {
            (m, Err("only the super admin can edit site settings"@))
        } else if trimmed(title).len() == 0 {
            (m, Err("site title is required"@))
        } else if trimmed(title).len() > 80 {
            (m, Err("site title must be 80 characters or fewer"@))
        } else {
            (
                StoreModel {
                    settings: crate::model::SettingsModel {
                        site_title: trimmed(title),
                        admin_password_sign_in_enabled: admin_password,
                        admin_microsoft_sign_in_enabled: admin_microsoft,
                        user_password_sign_in_enabled: user_password,
                        user_microsoft_sign_in_enabled: user_microsoft,
                    },
                    ..m
                },
                Ok(()),
            )
        },
    }
}

/// The group exists, is an admin group, and has the account as a member.
pub open spec fn group_grants(m: StoreModel, group_id: u128, account_id: u128) -> bool {
    match group_of(m, group_id) {
        Some(g) => g.role == AccountRole::Admin && g.member_ids.contains(account_id),
        None => false,
    }
}

/// Whether the account may manage the queue: a super admin, the owner, an
/// account the queue is shared with, or a member of an admin group it is
/// shared with.
pub open spec fn can_manage(m: StoreModel, account_id: u128, q: QueueModel) -> bool {
    match account_of(m, account_id) {
        None => false,
        Some(a) => {
            ||| a.role == AccountRole::SuperAdmin
            ||| q.owner_account_id == account_id
            ||| q.shared_account_ids.contains(account_id)
            ||| exists|k: int|
                0 <= k < q.shared_group_ids.len() && group_grants(
                    m,
                    #[trigger] q.shared_group_ids[k],
                    account_id,
                )
        },
    }
}

pub open spec fn admin_sees(m: StoreModel, token: Seq<char>, queue_id: u128) -> bool {
    match admin_of(m, token) {
        None => false,
        Some(a) => match queue_of(m, queue_id) {
            None => false,
            Some(q) => can_manage(m, a.id, q),
        },
    }
}

// ---------------------------------------------------------------------------
// Executable
// ---------------------------------------------------------------------------

pub open spec fn opens_result(r: Result<Option<String>, String>) -> Result<Option<Seq<char>>, Seq<char>> {
    match r {
        Ok(o) => Ok(opt_text(o)),
        Err(e) => Err(e@),
    }
}

/// Checks an opening time and writes it in UTC.
pub fn normalize_opens_at(opens_at: Option<String>) -> (r: Result<Option<String>, String>)
    ensures
        opens_result(r) == opens_norm(opt_text(opens_at)),
{
    let v = match opens_at {
        None => {
            return Ok(None);
        },
        Some(v) => v,
    };
    let t = trim(v.as_str());
    if t.as_str().unicode_len() == 0 {
        return Ok(None);
    }
    match parse_rfc3339(t.as_str()) {
        Err(e) => {
            let mut msg = owned("invalid queue opening time: ");
            msg.append(e.as_str());
            Err(msg)
        },
        Ok(instant) => Ok(to_rfc3339(instant)),
    }
}

pub open spec fn weekly_result(r: Result<Option<WeeklySchedule>, String>) -> Result<Option<WeeklySchedule>, Seq<char>> {
    match r {
        Ok(o) => Ok(o),
        Err(e) => Err(e@),
    }
}

/// Checks that a weekly schedule names a real day and minute.
pub fn normalize_weekly_schedule(weekly_schedule: Option<WeeklySchedule>) -> (r: Result<Option<WeeklySchedule>, String>)
    ensures
        weekly_result(r) == weekly_norm(weekly_schedule),
{
    match weekly_schedule {
        None => Ok(None),
        Some(s) => if s.weekday > 6 {
            fail("weekly schedule day is invalid")
        } else if s.minute_of_day >= 24 * 60 {
            fail("weekly schedule time is invalid")
        } else {
            Ok(Some(s))
        },
    }
}

/// Whether `t` is one of the strings in `v`.
pub fn texts_contain(v: &Vec<String>, t: &str) -> (r: bool)
    ensures
        r == crate::model::texts(v@).contains(t@),
{
    let mut i: usize = 0;
    while i < v.len()
        invariant
            i <= v@.len(),
            forall|j: int| 0 <= j < i ==> v@[j]@ != t@,
        decreases v@.len() - i,
    {
        if text_eq(v[i].as_str(), t) {
            assert(crate::model::texts(v@)[i as int] == t@);
            return true;
        }
        i = i + 1;
    }
    assert forall|j: int| 0 <= j < crate::model::texts(v@).len() implies crate::model::texts(v@)[j] != t@ by {}
    false
}

/// How many random codes are drawn before the codes are tried in order.
pub const CODE_ATTEMPTS: u32 = 64;

impl Queue {
    /// A six-character join code that is not among `existing_codes`: random
    /// codes are drawn first, and when those are all taken the codes are
    /// tried in order, so it gives up only when every code is taken.
    pub fn new_code(existing_codes: &Vec<String>) -> (r: Option<String>)
        ensures
            r matches Some(c) ==> !crate::model::texts(existing_codes@).contains(c@) && exists|v: u128| c@ == code_text(v),
            r is None ==> forall|v: u128| crate::model::texts(existing_codes@).contains(#[trigger] code_text(v)),
    {
        let mut attempt: u32 = 0;
        while attempt < CODE_ATTEMPTS
            invariant
                attempt <= CODE_ATTEMPTS,
            decreases CODE_ATTEMPTS - attempt,
        {
            let v = fresh_id();
            let candidate = code_string(v);
            if !texts_contain(existing_codes, candidate.as_str()) {
                return Some(candidate);
            }
            attempt = attempt + 1;
        }
        let mut k: u128 = 0;
        while k < 0x100_0000
            invariant
                k <= 0x100_0000,
                forall|j: u128| j < k ==> crate::model::texts(existing_codes@).contains(#[trigger] code_text(code_seed(j))),
            decreases 0x100_0000 - k,
        {
            let candidate = code_string(k << 104u128);
            if !texts_contain(existing_codes, candidate.as_str()) {
                return Some(candidate);
            }
            k = k + 1;
        }
        proof {
            assert forall|v: u128| crate::model::texts(existing_codes@).contains(#[trigger] code_text(v)) by {
                lemma_code_text_top(v);
                assert(crate::model::texts(existing_codes@).contains(code_text(code_seed(v >> 104u128))));
            }
        }
        None
    }
}

proof fn lemma_queues_remove_insert(v: Seq<Queue>, i: int, q: Queue)
    requires
        0 <= i < v.len(),
    ensures
        queues_model(v.remove(i).insert(i, q)) == queues_model(v).update(i, q@),
{
    assert(queues_model(v.remove(i).insert(i, q)) =~= queues_model(v).update(i, q@));
}

proof fn lemma_queues_push(v: Seq<Queue>, q: Queue)
    ensures
        queues_model(v.push(q)) == queues_model(v).push(q@),
{
    assert(queues_model(v.push(q)) =~= queues_model(v).push(q@));
}

proof fn lemma_queues_update(v: Seq<Queue>, i: int, q: Queue)
    requires
        0 <= i < v.len(),
    ensures
        queues_model(v.update(i, q)) == queues_model(v).update(i, q@),
{
    assert(queues_model(v.update(i, q)) =~= queues_model(v).update(i, q@));
}

impl Store {
    /// The join codes of live and closed queues.
    pub fn existing_codes(&self) -> (r: Vec<String>)
        ensures
            crate::model::texts(r@) == codes_in_use(self@),
    {
        let mut out: Vec<String> = Vec::new();
        let mut i: usize = 0;
        while i < self.queues.len()
            invariant
                i <= self.queues@.len(),
                crate::model::texts(out@) == self@.queues.take(i as int).map_values(|q: QueueModel| q.code),
            decreases self.queues@.len() - i,
        {
            let c = self.queues[i].code.clone();
            let ghost before = out@;
            out.push(c);
            assert(crate::model::texts(out@) =~= crate::model::texts(before).push(c@));
            assert(self@.queues.take(i + 1).map_values(|q: QueueModel| q.code) =~= self@.queues.take(i as int).map_values(|q: QueueModel| q.code).push(c@));
            i = i + 1;
        }
        assert(self@.queues.take(i as int) =~= self@.queues);
        let ghost live = crate::model::texts(out@);
        let mut j: usize = 0;
        while j < self.archived_queues.len()
            invariant
                j <= self.archived_queues@.len(),
                crate::model::texts(out@) == live + self@.archived.take(j as int).map_values(|a: ArchivedModel| a.queue.code),
            decreases self.archived_queues@.len() - j,
        {
            let c = self.archived_queues[j].queue.code.clone();
            let ghost before = out@;
            out.push(c);
            assert(crate::model::texts(out@) =~= crate::model::texts(before).push(c@));
            assert(self@.archived.take(j + 1).map_values(|a: ArchivedModel| a.queue.code) =~= self@.archived.take(j as int).map_values(|a: ArchivedModel| a.queue.code).push(c@));
            j = j + 1;
        }
        assert(self@.archived.take(j as int) =~= self@.archived);
        assert(crate::model::texts(out@) =~= codes_in_use(self@));
        out
    }

    fn upsert_queue_exec(&mut self, q: Queue)
        ensures
            final(self)@ == (StoreModel { queues: upsert_queue(old(self)@.queues, q@), ..old(self)@ }),
    {
        match self.find_queue(q.id) {
            Some(i) => {
                proof {
                    lemma_find_first(self@.queues, queue_has_id(q.id));
                    lemma_queues_update(self.queues@, i as int, q);
                }
                self.queues.set(i, q);
            },
            None => {
                proof {
                    lemma_queues_push(self.queues@, q);
                }
                self.queues.push(q);
            },
        }
    }

    /// An admin opens a new queue; returns its id. It succeeds whenever
    /// the checks pass and some join code is free, which holds while fewer
    /// queues than there are join codes exist.
    pub fn create_queue(
        &mut self,
        admin_token: &str,
        name: String,
        fields: Vec<QueueField>,
        allow_guests: bool,
        is_public: bool,
        opens_at: Option<String>,
        weekly_schedule: Option<WeeklySchedule>,
    ) -> (r: Result<u128, String>)
        ensures
            exists|id: u128, code: Option<Seq<char>>|
                (code matches Some(c) ==> !codes_in_use(old(self)@).contains(c) && exists|v: u128| c == code_text(v))
                && (final(self)@, match r { Ok(x) => Ok::<u128, Seq<char>>(x), Err(e) => Err(e@) }) == queue_creation(
                    old(self)@,
                    admin_token@,
                    name@,
                    fields_model(fields@),
                    allow_guests,
                    is_public,
                    opt_text(opens_at),
                    weekly_schedule,
                    id,
                    code,
                ),
            queue_creation(
                old(self)@,
                admin_token@,
                name@,
                fields_model(fields@),
                allow_guests,
                is_public,
                opt_text(opens_at),
                weekly_schedule,
                0,
                Some(Seq::empty()),
            ).1 is Ok && (exists|v: u128| !codes_in_use(old(self)@).contains(#[trigger] code_text(v))) ==> r is Ok,
            queue_creation(
                old(self)@,
                admin_token@,
                name@,
                fields_model(fields@),
                allow_guests,
                is_public,
                opt_text(opens_at),
                weekly_schedule,
                0,
                Some(Seq::empty()),
            ).1 is Ok && codes_in_use(old(self)@).len() < 0x100_0000 ==> r is Ok,
    {
        proof {
            if codes_in_use(self@).len() < 0x100_0000 {
                crate::ids::lemma_free_code(codes_in_use(self@));
            }
        }
        let ghost m = self@;
        let ghost fm = fields_model(fields@);
        let ghost oa = opt_text(opens_at);
        let k = match self.admin_account_index(admin_token) {
            Some(k) => k,
            None => {
                let r: Result<u128, String> = fail("unknown admin session");
                assert((self@, match r { Ok(x) => Ok::<u128, Seq<char>>(x), Err(e) => Err(e@) }) == queue_creation(m, admin_token@, name@, fm, allow_guests, is_public, oa, weekly_schedule, 0, None));
                return r;
            },
        };
        let n = trim(name.as_str());
        if n.as_str().unicode_len() == 0 {
            let r: Result<u128, String> = fail("queue name is required");
            assert((self@, match r { Ok(x) => Ok::<u128, Seq<char>>(x), Err(e) => Err(e@) }) == queue_creation(m, admin_token@, name@, fm, allow_guests, is_public, oa, weekly_schedule, 0, None));
            return r;
        }
        let fs = match normalize_fields(fields) {
            Ok(fs) => fs,
            Err(e) => {
                let r: Result<u128, String> = Err(e);
                assert((self@, match r { Ok(x) => Ok::<u128, Seq<char>>(x), Err(e) => Err(e@) }) == queue_creation(m, admin_token@, name@, fm, allow_guests, is_public, oa, weekly_schedule, 0, None));
                return r;
            },
        };
        let o = match normalize_opens_at(opens_at) {
            Ok(o) => o,
            Err(e) => {
                let r: Result<u128, String> = Err(e);
                assert((self@, match r { Ok(x) => Ok::<u128, Seq<char>>(x), Err(e) => Err(e@) }) == queue_creation(m, admin_token@, name@, fm, allow_guests, is_public, oa, weekly_schedule, 0, None));
                return r;
            },
        };
        let w = match normalize_weekly_schedule(weekly_schedule) {
            Ok(w) => w,
            Err(e) => {
                let r: Result<u128, String> = Err(e);
                assert((self@, match r { Ok(x) => Ok::<u128, Seq<char>>(x), Err(e) => Err(e@) }) == queue_creation(m, admin_token@, name@, fm, allow_guests, is_public, oa, weekly_schedule, 0, None));
                return r;
            },
        };
        let id = fresh_id();
        let existing = self.existing_codes();
        let code = match Queue::new_code(&existing) {
            Some(c) => c,
            None => {
                let r: Result<u128, String> = fail("no free queue code was found");
                assert((self@, match r { Ok(x) => Ok::<u128, Seq<char>>(x), Err(e) => Err(e@) }) == queue_creation(m, admin_token@, name@, fm, allow_guests, is_public, oa, weekly_schedule, id, None));
                return r;
            },
        };
        let ghost cv = code@;
        let q = Queue {
            id,
            code,
            name: n,
            allow_guests,
            is_public,
            opens_at: o,
            weekly_schedule: w,
            owner_account_id: self.accounts[k].id,
            owner_name: self.accounts[k].name.clone(),
            shared_account_ids: Vec::new(),
            shared_group_ids: Vec::new(),
            fields: fs,
            entries: Vec::new(),
        };
        proof {
            assert(crate::model::entries_model(q.entries@) =~= Seq::empty());
        }
        self.upsert_queue_exec(q);
        let r: Result<u128, String> = Ok(id);
        assert((self@, match r { Ok(x) => Ok::<u128, Seq<char>>(x), Err(e) => Err(e@) }) == queue_creation(m, admin_token@, name@, fm, allow_guests, is_public, oa, weekly_schedule, id, Some(cv)));
        r
    }
}

impl Store {
    /// The owner or a super admin changes a live queue's settings.
    pub fn update_queue_settings(
        &mut self,
        admin_token: &str,
        queue_id: u128,
        fields: Vec<QueueField>,
        allow_guests: bool,
        is_public: bool,
        opens_at: Option<String>,
        weekly_schedule: Option<WeeklySchedule>,
    ) -> (r: Result<(), String>)
        ensures
            (final(self)@, unit_result(r)) == queue_settings_update(
                old(self)@,
                admin_token@,
                queue_id,
                fields_model(fields@),
                allow_guests,
                is_public,
                opt_text(opens_at),
                weekly_schedule,
            ),
    {
        let ghost m = self@;
        let k = match self.admin_account_index(admin_token) {
            Some(k) => k,
            None => {
                return fail("unknown admin session");
            },
        };
        let admin_id = self.accounts[k].id;
        let is_super = self.accounts[k].is_super_admin();
        let fs = normalize_fields(fields)?;
        let o = normalize_opens_at(opens_at)?;
        let w = normalize_weekly_schedule(weekly_schedule)?;
        let i = match self.find_queue(queue_id) {
            Some(i) => i,
            None => {
                return fail("queue not found");
            },
        };
        proof {
            lemma_find_first(self@.queues, queue_has_id(queue_id));
        }
        if !(is_super || self.queues[i].owner_account_id == admin_id) {
            return fail("only the queue owner or super admin can edit this queue");
        }
        let ghost qs = self.queues@;
        let mut q = self.queues.remove(i);
        q.fields = fs;
        q.allow_guests = allow_guests;
        q.is_public = is_public;
        q.opens_at = o;
        q.weekly_schedule = w;
        let ghost qv = q@;
        self.queues.insert(i, q);
        proof {
            lemma_queues_remove_insert(qs, i as int, q);
        }
        Ok(())
    }

    fn validated_share_accounts(&self, account_ids: Vec<u128>) -> (r: Result<Vec<u128>, String>)
        ensures
            match share_accounts_norm(self@, account_ids@) {
                Ok(v) => r is Ok && r->Ok_0@ == v,
                Err(e) => r is Err && r->Err_0@ == e,
            },
    {
        let mut validated: Vec<u128> = Vec::new();
        let mut i: usize = 0;
        while i < account_ids.len()
            invariant
                i <= account_ids@.len(),
                share_accounts_norm(self@, account_ids@.take(i as int)) == Ok::<Seq<u128>, Seq<char>>(validated@),
            decreases account_ids@.len() - i,
        {
            let id = account_ids[i];
            proof {
                assert(account_ids@.take(i + 1).drop_last() =~= account_ids@.take(i as int));
            }
            let k = match self.find_account(id) {
                Some(k) => k,
                None => {
                    proof { lemma_share_accounts_prefix_err(self@, account_ids@, i + 1); }
                    return fail("shared admin account not found");
                },
            };
            proof {
                lemma_find_first(self@.accounts, account_has_id(id));
            }
            if !self.accounts[k].can_administer() {
                proof { lemma_share_accounts_prefix_err(self@, account_ids@, i + 1); }
                return fail("queues can only be shared with admin accounts");
            }
            if !contains_id(&validated, id) {
                validated.push(id);
            }
            i = i + 1;
        }
        assert(account_ids@.take(i as int) =~= account_ids@);
        Ok(validated)
    }

    fn validated_share_groups(&self, group_ids: Vec<u128>) -> (r: Result<Vec<u128>, String>)
        ensures
            match share_groups_norm(self@, group_ids@) {
                Ok(v) => r is Ok && r->Ok_0@ == v,
                Err(e) => r is Err && r->Err_0@ == e,
            },
    {
        let mut validated: Vec<u128> = Vec::new();
        let mut i: usize = 0;
        while i < group_ids.len()
            invariant
                i <= group_ids@.len(),
                share_groups_norm(self@, group_ids@.take(i as int)) == Ok::<Seq<u128>, Seq<char>>(validated@),
            decreases group_ids@.len() - i,
        {
            let id = group_ids[i];
            proof {
                assert(group_ids@.take(i + 1).drop_last() =~= group_ids@.take(i as int));
            }
            let k = match self.find_group(id) {
                Some(k) => k,
                None => {
                    proof { lemma_share_groups_prefix_err(self@, group_ids@, i + 1); }
                    return fail("shared admin group not found");
                },
            };
            proof {
                lemma_find_first(self@.groups, group_has_id(id));
            }
            if self.groups[k].role != AccountRole::Admin {
                proof { lemma_share_groups_prefix_err(self@, group_ids@, i + 1); }
                return fail("queues can only be shared with admin groups");
            }
            if !contains_id(&validated, id) {
                validated.push(id);
            }
            i = i + 1;
        }
        assert(group_ids@.take(i as int) =~= group_ids@);
        Ok(validated)
    }

    fn validated_group_members(&self, role: AccountRole, member_ids: Vec<u128>) -> (r: Result<Vec<u128>, String>)
        ensures
            match members_norm(self@, role, member_ids@) {
                Ok(v) => r is Ok && r->Ok_0@ == v,
                Err(e) => r is Err && r->Err_0@ == e,
            },
    {
        let mut validated: Vec<u128> = Vec::new();
        let mut i: usize = 0;
        while i < member_ids.len()
            invariant
                i <= member_ids@.len(),
                members_norm(self@, role, member_ids@.take(i as int)) == Ok::<Seq<u128>, Seq<char>>(validated@),
            decreases member_ids@.len() - i,
        {
            let id = member_ids[i];
            proof {
                assert(member_ids@.take(i + 1).drop_last() =~= member_ids@.take(i as int));
            }
            let k = match self.find_account(id) {
                Some(k) => k,
                None => {
                    proof { lemma_members_prefix_err(self@, role, member_ids@, i + 1); }
                    return fail("group member account not found");
                },
            };
            proof {
                lemma_find_first(self@.accounts, account_has_id(id));
            }
            let valid = match role {
                AccountRole::Admin => self.accounts[k].can_administer(),
                AccountRole::User => self.accounts[k].can_join_queues(),
                AccountRole::SuperAdmin => false,
            };
            if !valid {
                proof { lemma_members_prefix_err(self@, role, member_ids@, i + 1); }
                return fail("group members must match the group role");
            }
            if !contains_id(&validated, id) {
                validated.push(id);
            }
            i = i + 1;
        }
        assert(member_ids@.take(i as int) =~= member_ids@);
        Ok(validated)
    }

    /// The owner or a super admin sets who a queue is shared with.
    pub fn share_queue(
        &mut self,
        admin_token: &str,
        queue_id: u128,
        account_ids: Vec<u128>,
        group_ids: Vec<u128>,
    ) -> (r: Result<(), String>)
        ensures
            (final(self)@, unit_result(r)) == queue_sharing(
                old(self)@,
                admin_token@,
                queue_id,
                account_ids@,
                group_ids@,
            ),
    {
        let k = match self.admin_account_index(admin_token) {
            Some(k) => k,
            None => {
                return fail("unknown admin session");
            },
        };
        if !self.accounts[k].is_super_admin() {
            let i = match self.find_queue(queue_id) {
                Some(i) => i,
                None => {
                    return fail("queue not found");
                },
            };
            proof {
                lemma_find_first(self@.queues, queue_has_id(queue_id));
            }
            if self.queues[i].owner_account_id != self.accounts[k].id {
                return fail("only the queue owner or super admin can share this queue");
            }
        }
        let a = self.validated_share_accounts(account_ids)?;
        let g = self.validated_share_groups(group_ids)?;
        let i = match self.find_queue(queue_id) {
            Some(i) => i,
            None => {
                return fail("queue not found");
            },
        };
        proof {
            lemma_find_first(self@.queues, queue_has_id(queue_id));
        }
        let ghost qs = self.queues@;
        let mut q = self.queues.remove(i);
        q.shared_account_ids = a;
        q.shared_group_ids = g;
        self.queues.insert(i, q);
        proof {
            lemma_queues_remove_insert(qs, i as int, q);
        }
        Ok(())
    }
}

pub fn contains_id(v: &Vec<u128>, id: u128) -> (r: bool)
    ensures
        r == v@.contains(id),
{
    let mut i: usize = 0;
    while i < v.len()
        invariant
            i <= v@.len(),
            forall|j: int| 0 <= j < i ==> v@[j] != id,
        decreases v@.len() - i,
    {
        if v[i] == id {
            return true;
        }
        i = i + 1;
    }
    false
}

proof fn lemma_share_accounts_prefix_err(m: StoreModel, s: Seq<u128>, k: int)
    requires
        0 <= k <= s.len(),
        share_accounts_norm(m, s.take(k)) is Err,
    ensures
        share_accounts_norm(m, s) == share_accounts_norm(m, s.take(k)),
    decreases s.len() - k,
{
    if k == s.len() {
        assert(s.take(k) =~= s);
    } else {
        assert(s.drop_last().take(k) =~= s.take(k));
        lemma_share_accounts_prefix_err(m, s.drop_last(), k);
    }
}

proof fn lemma_share_groups_prefix_err(m: StoreModel, s: Seq<u128>, k: int)
    requires
        0 <= k <= s.len(),
        share_groups_norm(m, s.take(k)) is Err,
    ensures
        share_groups_norm(m, s) == share_groups_norm(m, s.take(k)),
    decreases s.len() - k,
{
    if k == s.len() {
        assert(s.take(k) =~= s);
    } else {
        assert(s.drop_last().take(k) =~= s.take(k));
        lemma_share_groups_prefix_err(m, s.drop_last(), k);
    }
}

proof fn lemma_members_prefix_err(m: StoreModel, role: AccountRole, s: Seq<u128>, k: int)
    requires
        0 <= k <= s.len(),
        members_norm(m, role, s.take(k)) is Err,
    ensures
        members_norm(m, role, s) == members_norm(m, role, s.take(k)),
    decreases s.len() - k,
{
    if k == s.len() {
        assert(s.take(k) =~= s);
    } else {
        assert(s.drop_last().take(k) =~= s.take(k));
        lemma_members_prefix_err(m, role, s.drop_last(), k);
    }
}

proof fn lemma_groups_update(v: Seq<Group>, i: int, g: Group)
    requires
        0 <= i < v.len(),
    ensures
        groups_model(v.update(i, g)) == groups_model(v).update(i, g@),
{
    assert(groups_model(v.update(i, g)) =~= groups_model(v).update(i, g@));
}

proof fn lemma_groups_push(v: Seq<Group>, g: Group)
    ensures
        groups_model(v.push(g)) == groups_model(v).push(g@),
{
    assert(groups_model(v.push(g)) =~= groups_model(v).push(g@));
}

impl Store {
    /// The owner or a super admin closes a live queue at the given time.
    pub fn close_queue_at(&mut self, admin_token: &str, queue_id: u128, now: Instant) -> (r: Result<(), String>)
        requires
            representable(now),
        ensures
            (final(self)@, unit_result(r)) == queue_closing(
                old(self)@,
                admin_token@,
                queue_id,
                rfc3339_text(now.secs, now.nanos)->0,
            ),
    {
        let ghost m = self@;
        let k = match self.admin_account_index(admin_token) {
            Some(k) => k,
            None => {
                return fail("unknown admin session");
            },
        };
        let admin_id = self.accounts[k].id;
        let admin_name = self.accounts[k].name.clone();
        let is_super = self.accounts[k].is_super_admin();
        let i = match self.find_queue(queue_id) {
            Some(i) => i,
            None => {
                return fail("queue not found");
            },
        };
        proof {
            lemma_find_first(self@.queues, queue_has_id(queue_id));
        }
        if !(is_super || self.queues[i].owner_account_id == admin_id) {
            return fail("only the queue owner or super admin can close this queue");
        }
        let closed_at = match to_rfc3339(now) {
            Some(t) => t,
            None => owned(""),
        };
        let ghost qs = self.queues@;
        let q = self.queues.remove(i);
        assert(queues_model(self.queues@) =~= queues_model(qs).remove(i as int));
        let archive = ArchivedQueue { queue: q, closed_at, closed_by_account_id: admin_id, closed_by_name: admin_name };
        let ghost av = archive@;
        let ghost xs = self.archived_queues@;
        match self.find_archive(queue_id) {
            Some(j) => {
                proof {
                    lemma_find_first(self@.archived, archive_has_id(queue_id));
                }
                self.archived_queues.set(j, archive);
                assert(archived_model(self.archived_queues@) =~= archived_model(xs).update(j as int, av));
            },
            None => {
                self.archived_queues.push(archive);
                assert(archived_model(self.archived_queues@) =~= archived_model(xs).push(av));
            },
        }
        Ok(())
    }

    /// Closes a live queue now.
    pub fn close_queue(&mut self, admin_token: &str, queue_id: u128) -> (r: Result<(), String>)
        ensures
            exists|now: Instant| representable(now) && (final(self)@, unit_result(r)) == queue_closing(
                old(self)@,
                admin_token@,
                queue_id,
                rfc3339_text(now.secs, now.nanos)->0,
            ),
    {
        let now = crate::clock::now();
        self.close_queue_at(admin_token, queue_id, now)
    }

    /// Drops queue shares with groups that are gone or are not admin groups.
    fn cleanup_group_references(&mut self)
        ensures
            final(self)@ == prune_groups(old(self)@),
    {
        let ghost m = self@;
        let mut admin_groups: Vec<u128> = Vec::new();
        let mut g: usize = 0;
        while g < self.groups.len()
            invariant
                self@ == m,
                g <= self.groups@.len(),
                forall|id: u128| admin_groups@.contains(id) <==> exists|j: int| 0 <= j < g && m.groups[j].role == AccountRole::Admin && m.groups[j].id == id,
            decreases self.groups@.len() - g,
        {
            if self.groups[g].role == AccountRole::Admin {
                let ghost before = admin_groups@;
                admin_groups.push(self.groups[g].id);
                assert forall|id: u128| admin_groups@.contains(id) <==> exists|j: int| 0 <= j < g + 1 && m.groups[j].role == AccountRole::Admin && m.groups[j].id == id by {
                    if admin_groups@.contains(id) {
                        let x = choose|x: int| 0 <= x < admin_groups@.len() && admin_groups@[x] == id;
                        if x < before.len() {
                            assert(before.contains(id));
                        } else {
                            assert(m.groups[g as int].id == id);
                        }
                    }
                    if exists|j: int| 0 <= j < g + 1 && m.groups[j].role == AccountRole::Admin && m.groups[j].id == id {
                        let j = choose|j: int| 0 <= j < g + 1 && m.groups[j].role == AccountRole::Admin && m.groups[j].id == id;
                        if j < g {
                            assert(before.contains(id));
                            let x = choose|x: int| 0 <= x < before.len() && before[x] == id;
                            assert(admin_groups@[x] == id);
                        } else {
                            assert(admin_groups@[before.len() as int] == id);
                        }
                    }
                }
            } else {
                assert forall|id: u128| admin_groups@.contains(id) <==> exists|j: int| 0 <= j < g + 1 && m.groups[j].role == AccountRole::Admin && m.groups[j].id == id by {
                    if exists|j: int| 0 <= j < g + 1 && m.groups[j].role == AccountRole::Admin && m.groups[j].id == id {
                        let j = choose|j: int| 0 <= j < g + 1 && m.groups[j].role == AccountRole::Admin && m.groups[j].id == id;
                        assert(j < g);
                    }
                }
            }
            g = g + 1;
        }
        let mut rest: Vec<Queue> = Vec::new();
        std::mem::swap(&mut rest, &mut self.queues);
        let ghost all = rest@;
        let total = rest.len();
        let mut done: Vec<Queue> = Vec::new();
        let mut k: usize = 0;
        while rest.len() > 0
            invariant
                m == old(self)@,
                all.len() == total,
                self@.groups == m.groups,
                forall|id: u128| admin_groups@.contains(id) <==> admin_group_known(m)(id),
                k + rest@.len() == all.len(),
                rest@ == all.skip(k as int),
                queues_model(done@) == queues_model(all.take(k as int)).map_values(queue_groups_pruned(m)),
            decreases rest@.len(),
        {
            let mut q = rest.remove(0);
            let ghost ids = q.shared_group_ids@;
            let mut kept: Vec<u128> = Vec::new();
            let mut x: usize = 0;
            while x < q.shared_group_ids.len()
                invariant
                    ids == q.shared_group_ids@,
                    x <= ids.len(),
                    forall|id: u128| admin_groups@.contains(id) <==> admin_group_known(m)(id),
                    kept@ == ids.take(x as int).filter(admin_group_known(m)),
                decreases ids.len() - x,
            {
                proof {
                    assert(ids.take(x + 1) =~= ids.take(x as int).push(ids[x as int]));
                    ids.take(x as int).lemma_filter_push(ids[x as int], admin_group_known(m));
                }
                if contains_id(&admin_groups, q.shared_group_ids[x]) {
                    kept.push(q.shared_group_ids[x]);
                }
                x = x + 1;
            }
            assert(ids.take(x as int) =~= ids);
            q.shared_group_ids = kept;
            let ghost qv = q@;
            proof {
                assert(all.skip(k as int)[0] == all[k as int]);
                assert(qv == queue_groups_pruned(m)(all[k as int]@));
            }
            let ghost before = done@;
            done.push(q);
            proof {
                assert(done@ == before.push(q));
                assert(queues_model(done@) =~= queues_model(before).push(qv));
                assert(all.take(k + 1) =~= all.take(k as int).push(all[k as int]));
                assert(queues_model(all.take(k + 1)).map_values(queue_groups_pruned(m)) =~= queues_model(all.take(k as int)).map_values(queue_groups_pruned(m)).push(queue_groups_pruned(m)(all[k as int]@)));
                assert(rest@ =~= all.skip(k + 1));
            }
            k = k + 1;
        }
        assert(all.take(k as int) =~= all);
        self.queues = done;
        assert(self@ =~= prune_groups(m));
    }

    /// A super admin creates a group of admins or users.
    pub fn create_group(&mut self, admin_token: &str, name: String, role: AccountRole, member_ids: Vec<u128>) -> (r: Result<(), String>)
        ensures
            exists|id: u128| (final(self)@, unit_result(r)) == group_creation(old(self)@, admin_token@, name@, role, member_ids@, id),
    {
        let ghost m = self@;
        let k = match self.admin_account_index(admin_token) {
            Some(k) => k,
            None => {
                let r = fail("unknown admin session");
                assert((self@, unit_result(r)) == group_creation(m, admin_token@, name@, role, member_ids@, 0));
                return r;
            },
        };
        if !self.accounts[k].is_super_admin() {
            let r = fail("only the super admin can create groups");
            assert((self@, unit_result(r)) == group_creation(m, admin_token@, name@, role, member_ids@, 0));
            return r;
        }
        if role == AccountRole::SuperAdmin {
            let r = fail("groups can only be created for admins or users");
            assert((self@, unit_result(r)) == group_creation(m, admin_token@, name@, role, member_ids@, 0));
            return r;
        }
        let n = trim(name.as_str());
        if n.as_str().unicode_len() == 0 {
            let r = fail("group name is required");
            assert((self@, unit_result(r)) == group_creation(m, admin_token@, name@, role, member_ids@, 0));
            return r;
        }
        let ms = match self.validated_group_members(role, member_ids) {
            Ok(ms) => ms,
            Err(e) => {
                let r = Err(e);
                assert((self@, unit_result(r)) == group_creation(m, admin_token@, name@, role, member_ids@, 0));
                return r;
            },
        };
        let id = fresh_id();
        let g = Group { id, name: n, role, member_ids: ms };
        match self.find_group(id) {
            Some(i) => {
                proof {
                    lemma_find_first(self@.groups, group_has_id(id));
                    lemma_groups_update(self.groups@, i as int, g);
                }
                self.groups.set(i, g);
            },
            None => {
                proof {
                    lemma_groups_push(self.groups@, g);
                }
                self.groups.push(g);
            },
        }
        let r = Ok(());
        assert((self@, unit_result(r)) == group_creation(m, admin_token@, name@, role, member_ids@, id));
        r
    }

    /// A super admin edits a group.
    pub fn update_group(&mut self, admin_token: &str, group_id: u128, name: String, role: AccountRole, member_ids: Vec<u128>) -> (r: Result<(), String>)
        ensures
            (final(self)@, unit_result(r)) == group_update(old(self)@, admin_token@, group_id, name@, role, member_ids@),
    {
        let ghost m = self@;
        let k = match self.admin_account_index(admin_token) {
            Some(k) => k,
            None => {
                return fail("unknown admin session");
            },
        };
        if !self.accounts[k].is_super_admin() {
            return fail("only the super admin can edit groups");
        }
        if role == AccountRole::SuperAdmin {
            return fail("groups can only be created for admins or users");
        }
        let n = trim(name.as_str());
        if n.as_str().unicode_len() == 0 {
            return fail("group name is required");
        }
        let ms = self.validated_group_members(role, member_ids)?;
        let i = match self.find_group(group_id) {
            Some(i) => i,
            None => {
                return fail("group not found");
            },
        };
        proof {
            lemma_find_first(self@.groups, group_has_id(group_id));
        }
        let g = Group { id: self.groups[i].id, name: n, role, member_ids: ms };
        proof {
            lemma_groups_update(self.groups@, i as int, g);
        }
        self.groups.set(i, g);
        self.cleanup_group_references();
        Ok(())
    }

    /// A super admin deletes a group.
    pub fn delete_group(&mut self, admin_token: &str, group_id: u128) -> (r: Result<(), String>)
        ensures
            (final(self)@, unit_result(r)) == group_deletion(old(self)@, admin_token@, group_id),
    {
        let ghost m = self@;
        let k = match self.admin_account_index(admin_token) {
            Some(k) => k,
            None => {
                return fail("unknown admin session");
            },
        };
        if !self.accounts[k].is_super_admin() {
            return fail("only the super admin can delete groups");
        }
        if self.find_group(group_id).is_none() {
            return fail("group not found");
        }
        let mut rest: Vec<Group> = Vec::new();
        std::mem::swap(&mut rest, &mut self.groups);
        let ghost all = rest@;
        let total = rest.len();
        let mut kept: Vec<Group> = Vec::new();
        let mut j: usize = 0;
        while rest.len() > 0
            invariant
                all.len() == total,
                j + rest@.len() == all.len(),
                rest@ == all.skip(j as int),
                groups_model(kept@) == groups_model(all.take(j as int)).filter(|g: GroupModel| g.id != group_id),
            decreases rest@.len(),
        {
            let g = rest.remove(0);
            proof {
                assert(all.skip(j as int)[0] == all[j as int]);
                assert(all.take(j + 1) =~= all.take(j as int).push(all[j as int]));
                assert(groups_model(all.take(j + 1)) =~= groups_model(all.take(j as int)).push(all[j as int]@));
                groups_model(all.take(j as int)).lemma_filter_push(all[j as int]@, |g: GroupModel| g.id != group_id);
            }
            if g.id != group_id {
                let ghost before = kept@;
                let ghost gv = g@;
                kept.push(g);
                assert(groups_model(kept@) =~= groups_model(before).push(gv));
            }
            proof {
                assert(rest@ =~= all.skip(j + 1));
            }
            j = j + 1;
        }
        assert(all.take(j as int) =~= all);
        self.groups = kept;
        self.cleanup_group_references();
        Ok(())
    }

    /// A super admin sets the site title and the sign-in switches.
    pub fn update_site_settings(
        &mut self,
        admin_token: &str,
        site_title: String,
        admin_password_sign_in_enabled: bool,
        admin_microsoft_sign_in_enabled: bool,
        user_password_sign_in_enabled: bool,
        user_microsoft_sign_in_enabled: bool,
    ) -> (r: Result<(), String>)
        ensures
            (final(self)@, unit_result(r)) == settings_update(
                old(self)@,
                admin_token@,
                site_title@,
                admin_password_sign_in_enabled,
                admin_microsoft_sign_in_enabled,
                user_password_sign_in_enabled,
                user_microsoft_sign_in_enabled,
            ),
    {
        let k = match self.admin_account_index(admin_token) {
            Some(k) => k,
            None => {
                return fail("unknown admin session");
            },
        };
        if !self.accounts[k].is_super_admin() {
            return fail("only the super admin can edit site settings");
        }
        let t = trim(site_title.as_str());
        let n = t.as_str().unicode_len();
        if n == 0 {
            return fail("site title is required");
        }
        if n > 80 {
            return fail("site title must be 80 characters or fewer");
        }
        self.site_settings = crate::model::SiteSettings {
            site_title: t,
            admin_password_sign_in_enabled,
            admin_microsoft_sign_in_enabled,
            user_password_sign_in_enabled,
            user_microsoft_sign_in_enabled,
        };
        Ok(())
    }
}

pub open spec fn has_code(c: Seq<char>) -> spec_fn(QueueModel) -> bool {
    |q: QueueModel| q.code == c
}

/// The live queue a join code leads to, once the code is normalised.
pub open spec fn queue_for_code(m: StoreModel, code: Seq<char>) -> Option<u128> {
    match find_first(m.queues, has_code(crate::text::code_of(code))) {
        Some(i) => Some(m.queues[i].id),
        None => None,
    }
}

pub open spec fn manageable(m: StoreModel, account_id: u128) -> spec_fn(QueueModel) -> bool {
    |q: QueueModel| can_manage(m, account_id, q)
}

pub open spec fn queue_name_key(m: StoreModel) -> spec_fn(u128) -> Seq<char> {
    |id: u128| queue_of(m, id)->0.name
}

/// The live queues the admin may manage, ordered by name.
pub open spec fn visible_ids_ok(m: StoreModel, token: Seq<char>, r: Option<Seq<u128>>) -> bool {
    match admin_of(m, token) {
        None => r is None,
        Some(a) => r matches Some(ids) && crate::order::reordering(
            ids,
            m.queues.filter(manageable(m, a.id)).map_values(|q: QueueModel| q.id),
        ) && crate::order::sorted_by(ids, queue_name_key(m), false),
    }
}

impl Store {
    fn group_grants_exec(&self, group_id: u128, account_id: u128) -> (r: bool)
        ensures
            r == group_grants(self@, group_id, account_id),
    {
        match self.find_group(group_id) {
            None => false,
            Some(i) => {
                proof {
                    lemma_find_first(self@.groups, group_has_id(group_id));
                }
                self.groups[i].role == AccountRole::Admin && contains_id(&self.groups[i].member_ids, account_id)
            },
        }
    }

    /// Whether the account may manage the queue.
    pub fn account_can_manage_queue(&self, account_id: u128, queue: &Queue) -> (r: bool)
        ensures
            r == can_manage(self@, account_id, queue@),
    {
        let k = match self.find_account(account_id) {
            None => {
                return false;
            },
            Some(k) => k,
        };
        proof {
            lemma_find_first(self@.accounts, account_has_id(account_id));
        }
        if self.accounts[k].is_super_admin() || queue.owner_account_id == account_id || contains_id(&queue.shared_account_ids, account_id) {
            return true;
        }
        let mut i: usize = 0;
        while i < queue.shared_group_ids.len()
            invariant
                account_of(self@, account_id) is Some,
                i <= queue@.shared_group_ids.len(),
                forall|j: int| 0 <= j < i ==> !group_grants(self@, #[trigger] queue@.shared_group_ids[j], account_id),
            decreases queue@.shared_group_ids.len() - i,
        {
            if self.group_grants_exec(queue.shared_group_ids[i], account_id) {
                assert(group_grants(self@, queue@.shared_group_ids[i as int], account_id));
                return true;
            }
            i = i + 1;
        }
        false
    }

    /// Whether the admin behind the token may manage the live queue.
    pub fn admin_can_see_queue(&self, admin_token: &str, queue_id: u128) -> (r: bool)
        ensures
            r == admin_sees(self@, admin_token@, queue_id),
    {
        let k = match self.admin_account_index(admin_token) {
            None => {
                return false;
            },
            Some(k) => k,
        };
        let i = match self.find_queue(queue_id) {
            None => {
                return false;
            },
            Some(i) => i,
        };
        proof {
            lemma_find_first(self@.queues, queue_has_id(queue_id));
        }
        self.account_can_manage_queue(self.accounts[k].id, &self.queues[i])
    }

    /// The ids of the live queues the admin may manage, ordered by name.
    pub fn visible_queue_ids(&self, admin_token: &str) -> (r: Option<Vec<u128>>)
        ensures
            visible_ids_ok(self@, admin_token@, match r { Some(v) => Some(v@), None => None }),
    {
        let k = match self.admin_account_index(admin_token) {
            None => {
                return None;
            },
            Some(k) => k,
        };
        let admin_id = self.accounts[k].id;
        let ghost m = self@;
        let ghost f = manageable(m, admin_id);
        let mut ids: Vec<u128> = Vec::new();
        let mut keys: Vec<String> = Vec::new();
        let mut i: usize = 0;
        while i < self.queues.len()
            invariant
                m == self@,
                f == manageable(m, admin_id),
                i <= self.queues@.len(),
                ids@ == m.queues.take(i as int).filter(f).map_values(|q: QueueModel| q.id),
                keys@.len() == ids@.len(),
                forall|j: int| 0 <= j < ids@.len() ==> queue_of(m, #[trigger] ids@[j]) is Some && keys@[j]@ == queue_name_key(m)(ids@[j]),
            decreases self.queues@.len() - i,
        {
            proof {
                assert(m.queues.take(i + 1) =~= m.queues.take(i as int).push(m.queues[i as int]));
                m.queues.take(i as int).lemma_filter_push(m.queues[i as int], f);
            }
            if self.account_can_manage_queue(admin_id, &self.queues[i]) {
                let id = self.queues[i].id;
                let ghost before = ids@;
                let j = match self.find_queue(id) {
                    Some(j) => j,
                    None => {
                        proof {
                            lemma_find_first(m.queues, queue_has_id(id));
                            assert(queue_has_id(id)(m.queues[i as int]));
                        }
                        i
                    },
                };
                proof {
                    lemma_find_first(m.queues, queue_has_id(id));
                }
                ids.push(id);
                keys.push(self.queues[j].name.clone());
                assert(ids@ =~= m.queues.take(i + 1).filter(f).map_values(|q: QueueModel| q.id));
            } else {
                assert(ids@ =~= m.queues.take(i + 1).filter(f).map_values(|q: QueueModel| q.id));
            }
            i = i + 1;
        }
        assert(m.queues.take(i as int) =~= m.queues);
        let order = crate::order::sort_order(&keys, false);
        let mut out: Vec<u128> = Vec::new();
        let mut x: usize = 0;
        while x < order.len()
            invariant
                x <= order@.len(),
                order@.len() == ids@.len(),
                crate::order::is_permutation(crate::order::as_ints(order@), keys@.len()),
                out@.len() == x,
                forall|y: int| 0 <= y < x ==> #[trigger] out@[y] == ids@[order@[y] as int],
            decreases order@.len() - x,
        {
            assert(crate::order::as_ints(order@)[x as int] == order@[x as int] as int);
            out.push(ids[order[x]]);
            x = x + 1;
        }
        proof {
            let src = m.queues.filter(f).map_values(|q: QueueModel| q.id);
            let p = crate::order::as_ints(order@);
            assert forall|y: int| 0 <= y < out@.len() implies #[trigger] out@[y] == src[p[y]] by {}
            assert(crate::order::reordering(out@, src));
            assert forall|a: int, b: int| 0 <= a < b < out@.len() implies crate::order::in_order(queue_name_key(m)(out@[a]), queue_name_key(m)(out@[b]), false) by {
                assert(out@[a] == ids@[order@[a] as int]);
                assert(out@[b] == ids@[order@[b] as int]);
                assert(p[a] == order@[a] as int);
                assert(0 <= p[a] < keys@.len());
                assert(0 <= p[b] < keys@.len());
            }
        }
        Some(out)
    }

    /// The live queue whose join code matches `code` once normalised.
    pub fn queue_id_for_code(&self, code: &str) -> (r: Option<u128>)
        ensures
            r == queue_for_code(self@, code@),
    {
        let c = crate::text::normalize_code(code);
        let ghost p = has_code(crate::text::code_of(code@));
        let mut i: usize = 0;
        while i < self.queues.len()
            invariant
                i <= self.queues@.len(),
                c@ == crate::text::code_of(code@),
                p == has_code(crate::text::code_of(code@)),
                forall|j: int| 0 <= j < i ==> !p(#[trigger] self@.queues[j]),
            decreases self.queues@.len() - i,
        {
            if text_eq(self.queues[i].code.as_str(), c.as_str()) {
                proof {
                    lemma_find_first_unique(self@.queues, p, Some(i as int));
                }
                return Some(self.queues[i].id);
            }
            i = i + 1;
        }
        proof {
            lemma_find_first_unique(self@.queues, p, None);
        }
        None
    }
}

} // verus!
