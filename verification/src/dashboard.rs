//! The admin dashboard: the queues, closed queues, accounts and groups an
//! admin sees, each list in its order.
use vstd::prelude::*;
use crate::accounts::admin_identity_of;
use crate::manage::{can_manage, manageable};
use crate::model::{copy_fields, copy_ids, AccountModel, ArchivedModel, GroupModel, QueueModel};
use crate::order::{
    as_ints, in_order, is_permutation, lemma_arranged, reordering, sort_order, sorted_by,
};
use crate::queue::summary_of;
use crate::render::{admin_entries, admin_entries_of, admin_queue_view_of, texts_of};
use crate::store::{Store, StoreModel};
use crate::views::{
    AccountView, AccountViewModel, AdminQueueListItem, AdminStateModel, AdminStateView,
    ArchivedItemModel, ArchivedQueueListItem, GroupView, ListItemModel,
};

verus! {

// ---------------------------------------------------------------------------
// Model
// ---------------------------------------------------------------------------

pub open spec fn list_item_of(q: QueueModel) -> ListItemModel {
    ListItemModel {
        summary: summary_of(q),
        owner_name: q.owner_name,
        shared_account_ids: q.shared_account_ids,
        shared_group_ids: q.shared_group_ids,
    }
}

pub open spec fn archived_item_of(a: ArchivedModel) -> ArchivedItemModel {
    ArchivedItemModel {
        summary: summary_of(a.queue),
        owner_name: a.queue.owner_name,
        closed_at: a.closed_at,
        closed_by_name: a.closed_by_name,
        entry_count: a.queue.entries.len(),
        fields: a.queue.fields,
        entries: admin_entries_of(a.queue.entries),
    }
}

pub open spec fn account_view_of(a: AccountModel) -> AccountViewModel {
    AccountViewModel { id: a.id, name: a.name, email: a.email, role: a.role }
}

pub open spec fn archive_manageable(m: StoreModel, account_id: u128) -> spec_fn(ArchivedModel) -> bool {
    |a: ArchivedModel| can_manage(m, account_id, a.queue)
}

pub open spec fn items_model(v: Seq<AdminQueueListItem>) -> Seq<ListItemModel> {
    v.map_values(|q: AdminQueueListItem| q@)
}

pub open spec fn archived_items_model(v: Seq<ArchivedQueueListItem>) -> Seq<ArchivedItemModel> {
    v.map_values(|q: ArchivedQueueListItem| q@)
}

pub open spec fn account_views_model(v: Seq<AccountView>) -> Seq<AccountViewModel> {
    v.map_values(|a: AccountView| a@)
}

pub open spec fn group_views_model(v: Seq<GroupView>) -> Seq<GroupModel> {
    v.map_values(|g: GroupView| g@)
}

/// The live queues the account may manage, ordered by name.
pub open spec fn queue_items_ok(m: StoreModel, account_id: u128, r: Seq<ListItemModel>) -> bool {
    &&& reordering(r, m.queues.filter(manageable(m, account_id)).map_values(|q: QueueModel| list_item_of(q)))
    &&& sorted_by(r, |x: ListItemModel| x.summary.name, false)
}

/// The closed queues the account may manage, the most recently closed first.
pub open spec fn archived_items_ok(m: StoreModel, account_id: u128, r: Seq<ArchivedItemModel>) -> bool {
    &&& reordering(
        r,
        m.archived.filter(archive_manageable(m, account_id)).map_values(|a: ArchivedModel| archived_item_of(a)),
    )
    &&& sorted_by(r, |x: ArchivedItemModel| x.closed_at, true)
}

/// All accounts, ordered by email.
pub open spec fn account_list_ok(m: StoreModel, r: Seq<AccountViewModel>) -> bool {
    &&& reordering(r, m.accounts.map_values(|a: AccountModel| account_view_of(a)))
    &&& sorted_by(r, |x: AccountViewModel| x.email, false)
}

/// All groups, ordered by name.
pub open spec fn group_list_ok(m: StoreModel, r: Seq<GroupModel>) -> bool {
    &&& reordering(r, m.groups.map_values(|g: GroupModel| g))
    &&& sorted_by(r, |x: GroupModel| x.name, false)
}

/// The queue the dashboard opens: the one asked for, else the first listed.
pub open spec fn selected_target(selected: Option<u128>, listed: Seq<ListItemModel>) -> Option<u128> {
    match selected {
        Some(id) => Some(id),
        None => if listed.len() > 0 {
            Some(listed[0].summary.id)
        } else {
            None
        },
    }
}

/// What the admin behind the token sees; accounts and groups only for a
/// super admin.
pub open spec fn admin_state_ok(m: StoreModel, token: Seq<char>, selected: Option<u128>, r: Option<AdminStateModel>) -> bool {
    match admin_identity_of(m, token) {
        None => r is None,
        Some(admin) => r matches Some(st) && {
            &&& st.admin == admin
            &&& st.site_settings == m.settings
            &&& queue_items_ok(m, admin.account_id, st.queues)
            &&& st.selected_queue == match selected_target(selected, st.queues) {
                Some(id) => admin_queue_view_of(m, token, id),
                None => None,
            }
            &&& archived_items_ok(m, admin.account_id, st.archived_queues)
            &&& if admin.is_super_admin {
                account_list_ok(m, st.accounts) && group_list_ok(m, st.groups)
            } else {
                st.accounts.len() == 0 && st.groups.len() == 0
            }
        },
    }
}

// ---------------------------------------------------------------------------
// Executable
// ---------------------------------------------------------------------------

impl Store {
    /// The live queues the account may manage, ordered by name.
    fn queue_items(&self, account_id: u128) -> (r: Vec<AdminQueueListItem>)
        ensures
            queue_items_ok(self@, account_id, items_model(r@)),
    {
        let ghost m = self@;
        let ghost f = manageable(m, account_id);
        let mut idx: Vec<usize> = Vec::new();
        let mut keys: Vec<String> = Vec::new();
        let mut i: usize = 0;
        while i < self.queues.len()
            invariant
                m == self@,
                f == manageable(m, account_id),
                i <= m.queues.len(),
                idx@.len() == m.queues.take(i as int).filter(f).len(),
                keys@.len() == idx@.len(),
                forall|j: int|
                    0 <= j < idx@.len() ==> #[trigger] idx@[j] < m.queues.len() && m.queues[idx@[j] as int]
                        == m.queues.take(i as int).filter(f)[j] && keys@[j]@ == m.queues[idx@[j] as int].name,
            decreases m.queues.len() - i,
        {
            proof {
                assert(m.queues.take(i + 1) =~= m.queues.take(i as int).push(m.queues[i as int]));
                m.queues.take(i as int).lemma_filter_push(m.queues[i as int], f);
            }
            if self.account_can_manage_queue(account_id, &self.queues[i]) {
                idx.push(i);
                keys.push(self.queues[i].name.clone());
            }
            i = i + 1;
        }
        assert(m.queues.take(i as int) =~= m.queues);
        let order = sort_order(&keys, false);
        let mut out: Vec<AdminQueueListItem> = Vec::new();
        let mut x: usize = 0;
        while x < order.len()
            invariant
                m == self@,
                x <= order@.len(),
                is_permutation(as_ints(order@), keys@.len()),
                idx@.len() == keys@.len(),
                forall|j: int| 0 <= j < idx@.len() ==> #[trigger] idx@[j] < m.queues.len(),
                out@.len() == x,
                forall|y: int|
                    0 <= y < x ==> (#[trigger] out@[y])@ == list_item_of(
                        m.queues[idx@[order@[y] as int] as int],
                    ),
            decreases order@.len() - x,
        {
            assert(as_ints(order@)[x as int] == order@[x as int] as int);
            let q = &self.queues[idx[order[x]]];
            out.push(
                AdminQueueListItem {
                    summary: q.summary(),
                    owner_name: q.owner_name.clone(),
                    shared_account_ids: copy_ids(&q.shared_account_ids),
                    shared_group_ids: copy_ids(&q.shared_group_ids),
                },
            );
            x = x + 1;
        }
        proof {
            let ks = texts_of(keys@);
            assert forall|a: int, b: int| 0 <= a < b < order@.len() implies in_order(
                ks[order@[a] as int],
                ks[order@[b] as int],
                false,
            ) by {
                assert(as_ints(order@)[a] == order@[a] as int);
                assert(as_ints(order@)[b] == order@[b] as int);
            }
            lemma_arranged(
                m.queues,
                m.queues.filter(f),
                idx@,
                ks,
                order@,
                items_model(out@),
                |q: QueueModel| list_item_of(q),
                |q: QueueModel| q.name,
                |x: ListItemModel| x.summary.name,
                false,
            );
        }
        out
    }

    /// The closed queues the account may manage, the most recently closed
    /// first.
    fn archived_items(&self, account_id: u128) -> (r: Vec<ArchivedQueueListItem>)
        ensures
            archived_items_ok(self@, account_id, archived_items_model(r@)),
    {
        let ghost m = self@;
        let ghost f = archive_manageable(m, account_id);
        let mut idx: Vec<usize> = Vec::new();
        let mut keys: Vec<String> = Vec::new();
        let mut i: usize = 0;
        while i < self.archived_queues.len()
            invariant
                m == self@,
                f == archive_manageable(m, account_id),
                i <= m.archived.len(),
                idx@.len() == m.archived.take(i as int).filter(f).len(),
                keys@.len() == idx@.len(),
                forall|j: int|
                    0 <= j < idx@.len() ==> #[trigger] idx@[j] < m.archived.len() && m.archived[idx@[j] as int]
                        == m.archived.take(i as int).filter(f)[j] && keys@[j]@ == m.archived[idx@[j] as int].closed_at,
            decreases m.archived.len() - i,
        {
            proof {
                assert(m.archived.take(i + 1) =~= m.archived.take(i as int).push(m.archived[i as int]));
                m.archived.take(i as int).lemma_filter_push(m.archived[i as int], f);
            }
            if self.account_can_manage_queue(account_id, &self.archived_queues[i].queue) {
                idx.push(i);
                keys.push(self.archived_queues[i].closed_at.clone());
            }
            i = i + 1;
        }
        assert(m.archived.take(i as int) =~= m.archived);
        let order = sort_order(&keys, true);
        let mut out: Vec<ArchivedQueueListItem> = Vec::new();
        let mut x: usize = 0;
        while x < order.len()
            invariant
                m == self@,
                x <= order@.len(),
                is_permutation(as_ints(order@), keys@.len()),
                idx@.len() == keys@.len(),
                forall|j: int| 0 <= j < idx@.len() ==> #[trigger] idx@[j] < m.archived.len(),
                out@.len() == x,
                forall|y: int|
                    0 <= y < x ==> (#[trigger] out@[y])@ == archived_item_of(
                        m.archived[idx@[order@[y] as int] as int],
                    ),
            decreases order@.len() - x,
        {
            assert(as_ints(order@)[x as int] == order@[x as int] as int);
            let a = &self.archived_queues[idx[order[x]]];
            out.push(
                ArchivedQueueListItem {
                    summary: a.queue.summary(),
                    owner_name: a.queue.owner_name.clone(),
                    closed_at: a.closed_at.clone(),
                    closed_by_name: a.closed_by_name.clone(),
                    entry_count: a.queue.entries.len(),
                    fields: copy_fields(&a.queue.fields),
                    entries: admin_entries(&a.queue.entries),
                },
            );
            x = x + 1;
        }
        proof {
            let ks = texts_of(keys@);
            assert forall|a: int, b: int| 0 <= a < b < order@.len() implies in_order(
                ks[order@[a] as int],
                ks[order@[b] as int],
                true,
            ) by {
                assert(as_ints(order@)[a] == order@[a] as int);
                assert(as_ints(order@)[b] == order@[b] as int);
            }
            lemma_arranged(
                m.archived,
                m.archived.filter(f),
                idx@,
                ks,
                order@,
                archived_items_model(out@),
                |a: ArchivedModel| archived_item_of(a),
                |a: ArchivedModel| a.closed_at,
                |x: ArchivedItemModel| x.closed_at,
                true,
            );
        }
        out
    }

    /// All accounts, ordered by email.
    fn account_views(&self) -> (r: Vec<AccountView>)
        ensures
            account_list_ok(self@, account_views_model(r@)),
    {
        let ghost m = self@;
        let mut keys: Vec<String> = Vec::new();
        let mut idx: Vec<usize> = Vec::new();
        let mut i: usize = 0;
        while i < self.accounts.len()
            invariant
                m == self@,
                i <= m.accounts.len(),
                idx@.len() == i,
                keys@.len() == i,
                forall|j: int|
                    0 <= j < i ==> #[trigger] idx@[j] == j && keys@[j]@ == m.accounts[j].email,
            decreases m.accounts.len() - i,
        {
            assert(m.accounts[i as int].email == self.accounts@[i as int].email@);
            idx.push(i);
            keys.push(self.accounts[i].email.clone());
            assert(keys@[i as int]@ == m.accounts[i as int].email);
            i = i + 1;
        }
        let order = sort_order(&keys, false);
        let mut out: Vec<AccountView> = Vec::new();
        let mut x: usize = 0;
        while x < order.len()
            invariant
                m == self@,
                x <= order@.len(),
                is_permutation(as_ints(order@), keys@.len()),
                keys@.len() == m.accounts.len(),
                out@.len() == x,
                forall|y: int|
                    0 <= y < x ==> (#[trigger] out@[y])@ == account_view_of(
                        m.accounts[order@[y] as int],
                    ),
            decreases order@.len() - x,
        {
            assert(as_ints(order@)[x as int] == order@[x as int] as int);
            let a = &self.accounts[order[x]];
            out.push(AccountView { id: a.id, name: a.name.clone(), email: a.email.clone(), role: a.role });
            x = x + 1;
        }
        proof {
            let ks = texts_of(keys@);
            assert forall|a: int, b: int| 0 <= a < b < order@.len() implies in_order(
                ks[order@[a] as int],
                ks[order@[b] as int],
                false,
            ) by {
                assert(as_ints(order@)[a] == order@[a] as int);
                assert(as_ints(order@)[b] == order@[b] as int);
            }
            assert forall|y: int| 0 <= y < out@.len() implies #[trigger] account_views_model(out@)[y]
                == account_view_of(m.accounts[idx@[order@[y] as int] as int]) by {
                assert(as_ints(order@)[y] == order@[y] as int);
            }
            lemma_arranged(
                m.accounts,
                m.accounts,
                idx@,
                ks,
                order@,
                account_views_model(out@),
                |a: AccountModel| account_view_of(a),
                |a: AccountModel| a.email,
                |x: AccountViewModel| x.email,
                false,
            );
        }
        out
    }

    /// All groups, ordered by name.
    fn group_views(&self) -> (r: Vec<GroupView>)
        ensures
            group_list_ok(self@, group_views_model(r@)),
    {
        let ghost m = self@;
        let mut keys: Vec<String> = Vec::new();
        let mut idx: Vec<usize> = Vec::new();
        let mut i: usize = 0;
        while i < self.groups.len()
            invariant
                m == self@,
                i <= m.groups.len(),
                idx@.len() == i,
                keys@.len() == i,
                forall|j: int|
                    0 <= j < i ==> #[trigger] idx@[j] == j && keys@[j]@ == m.groups[j].name,
            decreases m.groups.len() - i,
        {
            assert(m.groups[i as int].name == self.groups@[i as int].name@);
            idx.push(i);
            keys.push(self.groups[i].name.clone());
            assert(keys@[i as int]@ == m.groups[i as int].name);
            i = i + 1;
        }
        let order = sort_order(&keys, false);
        let mut out: Vec<GroupView> = Vec::new();
        let mut x: usize = 0;
        while x < order.len()
            invariant
                m == self@,
                x <= order@.len(),
                is_permutation(as_ints(order@), keys@.len()),
                keys@.len() == m.groups.len(),
                out@.len() == x,
                forall|y: int| 0 <= y < x ==> (#[trigger] out@[y])@ == m.groups[order@[y] as int],
            decreases order@.len() - x,
        {
            assert(as_ints(order@)[x as int] == order@[x as int] as int);
            let g = &self.groups[order[x]];
            out.push(GroupView { id: g.id, name: g.name.clone(), role: g.role, member_ids: copy_ids(&g.member_ids) });
            x = x + 1;
        }
        proof {
            let ks = texts_of(keys@);
            assert forall|a: int, b: int| 0 <= a < b < order@.len() implies in_order(
                ks[order@[a] as int],
                ks[order@[b] as int],
                false,
            ) by {
                assert(as_ints(order@)[a] == order@[a] as int);
                assert(as_ints(order@)[b] == order@[b] as int);
            }
            assert forall|y: int| 0 <= y < out@.len() implies #[trigger] group_views_model(out@)[y]
                == m.groups[idx@[order@[y] as int] as int] by {
                assert(as_ints(order@)[y] == order@[y] as int);
            }
            lemma_arranged(
                m.groups,
                m.groups,
                idx@,
                ks,
                order@,
                group_views_model(out@),
                |g: GroupModel| g,
                |g: GroupModel| g.name,
                |x: GroupModel| x.name,
                false,
            );
        }
        out
    }

    /// Everything the admin behind the token sees on the dashboard, with
    /// the detail of the selected queue (by default the first listed).
    pub fn admin_state(&self, admin_token: &str, selected_queue_id: Option<u128>) -> (r: Option<AdminStateView>)
        ensures
            admin_state_ok(
                self@,
                admin_token@,
                selected_queue_id,
                match r {
                    Some(v) => Some(v@),
                    None => None,
                },
            ),
    {
        let admin = match self.admin_identity(admin_token) {
            Some(a) => a,
            None => {
                return None;
            },
        };
        let queues = self.queue_items(admin.account_id);
        let target = match selected_queue_id {
            Some(id) => Some(id),
            None => if queues.len() > 0 {
                Some(queues[0].summary.id)
            } else {
                None
            },
        };
        let selected_queue = match target {
            Some(id) => self.admin_queue_view(admin_token, id),
            None => None,
        };
        let archived_queues = self.archived_items(admin.account_id);
        let accounts = if admin.is_super_admin {
            self.account_views()
        } else {
            Vec::new()
        };
        let groups = if admin.is_super_admin {
            self.group_views()
        } else {
            Vec::new()
        };
        let site_settings = self.site_settings_view();
        let r = AdminStateView {
            admin,
            site_settings,
            queues,
            archived_queues,
            selected_queue,
            accounts,
            groups,
        };
        proof {
            assert(r@.queues == items_model(r.queues@));
            assert(r@.archived_queues == archived_items_model(r.archived_queues@));
            assert(r@.accounts == account_views_model(r.accounts@));
            assert(r@.groups == group_views_model(r.groups@));
        }
        Some(r)
    }
}

} // verus!
