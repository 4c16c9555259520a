//! The in-memory store and its model, with the lookups every operation uses.
use vstd::prelude::*;
use crate::model::{
    AccountModel, ArchivedModel, ArchivedQueue, Account, AdminSession, EntryModel, Group,
    GroupModel, Queue, QueueModel, SessionModel, SettingsModel, SiteSettings, UserSession,
    QueueEntry,
};
use crate::text::{owned, text_eq};

verus! {

/// Everything the service keeps: settings, accounts, sessions, live and
/// closed queues, and groups. Each list keeps insertion order.
#[derive(Clone, Debug)]
pub struct Store {
    pub site_settings: SiteSettings,
    pub accounts: Vec<Account>,
    pub admin_sessions: Vec<AdminSession>,
    pub user_sessions: Vec<UserSession>,
    pub queues: Vec<Queue>,
    pub archived_queues: Vec<ArchivedQueue>,
    pub groups: Vec<Group>,
}

pub ghost struct StoreModel {
    pub settings: SettingsModel,
    pub accounts: Seq<AccountModel>,
    pub admin_sessions: Seq<SessionModel>,
    pub user_sessions: Seq<SessionModel>,
    pub queues: Seq<QueueModel>,
    pub archived: Seq<ArchivedModel>,
    pub groups: Seq<GroupModel>,
}

pub open spec fn accounts_model(v: Seq<Account>) -> Seq<AccountModel> {
    v.map_values(|a: Account| a@)
}

pub open spec fn admin_sessions_model(v: Seq<AdminSession>) -> Seq<SessionModel> {
    v.map_values(|a: AdminSession| a@)
}

pub open spec fn user_sessions_model(v: Seq<UserSession>) -> Seq<SessionModel> {
    v.map_values(|a: UserSession| a@)
}

pub open spec fn queues_model(v: Seq<Queue>) -> Seq<QueueModel> {
    v.map_values(|q: Queue| q@)
}

pub open spec fn archived_model(v: Seq<ArchivedQueue>) -> Seq<ArchivedModel> {
    v.map_values(|q: ArchivedQueue| q@)
}

pub open spec fn groups_model(v: Seq<Group>) -> Seq<GroupModel> {
    v.map_values(|g: Group| g@)
}

impl View for Store {
    type V = StoreModel;

    open spec fn view(&self) -> StoreModel {
        StoreModel {
            settings: crate::model::settings_of(self.site_settings),
            accounts: accounts_model(self.accounts@),
            admin_sessions: admin_sessions_model(self.admin_sessions@),
            user_sessions: user_sessions_model(self.user_sessions@),
            queues: queues_model(self.queues@),
            archived: archived_model(self.archived_queues@),
            groups: groups_model(self.groups@),
        }
    }
}

// ---------------------------------------------------------------------------
// First match in a sequence
// ---------------------------------------------------------------------------

/// The index of the first element that satisfies `p`.
pub open spec fn find_first<T>(s: Seq<T>, p: spec_fn(T) -> bool) -> Option<int>
    decreases s.len(),
{
    if s.len() == 0 {
        None
    } else {
        match find_first(s.drop_last(), p) {
            Some(i) => Some(i),
            None => if p(s.last()) {
                Some(s.len() - 1)
            } else {
                None
            },
        }
    }
}

pub open spec fn is_first<T>(s: Seq<T>, p: spec_fn(T) -> bool, r: Option<int>) -> bool {
    match r {
        Some(i) => 0 <= i < s.len() && p(s[i]) && forall|j: int| 0 <= j < i ==> !p(#[trigger] s[j]),
        None => forall|j: int| 0 <= j < s.len() ==> !p(#[trigger] s[j]),
    }
}

pub proof fn lemma_find_first<T>(s: Seq<T>, p: spec_fn(T) -> bool)
    ensures
        is_first(s, p, find_first(s, p)),
    decreases s.len(),
{
    if s.len() > 0 {
        lemma_find_first(s.drop_last(), p);
        match find_first(s.drop_last(), p) {
            Some(i) => {
                assert forall|j: int| 0 <= j < i implies !p(#[trigger] s[j]) by {
                    assert(s[j] == s.drop_last()[j]);
                }
            },
            None => {
                assert forall|j: int| 0 <= j < s.len() - 1 implies !p(#[trigger] s[j]) by {
                    assert(s[j] == s.drop_last()[j]);
                }
            },
        }
    }
}

/// `find_first` is the only answer that `is_first` admits.
pub proof fn lemma_find_first_unique<T>(s: Seq<T>, p: spec_fn(T) -> bool, r: Option<int>)
    requires
        is_first(s, p, r),
    ensures
        find_first(s, p) == r,
{
    lemma_find_first(s, p);
    let f = find_first(s, p);
    match (f, r) {
        (Some(a), Some(b)) => {
            if a < b {
                assert(!p(s[a]));
            } else if b < a {
                assert(!p(s[b]));
            }
        },
        (Some(a), None) => {
            assert(!p(s[a]));
        },
        (None, Some(b)) => {
            assert(!p(s[b]));
        },
        (None, None) => {},
    }
}

/// Sequences whose elements agree on the predicates have the same first match.
pub proof fn lemma_find_first_same<A, B>(s: Seq<A>, t: Seq<B>, p: spec_fn(A) -> bool, q: spec_fn(B) -> bool)
    requires
        s.len() == t.len(),
        forall|i: int| 0 <= i < s.len() ==> p(#[trigger] s[i]) == q(t[i]),
    ensures
        find_first(s, p) == find_first(t, q),
    decreases s.len(),
{
    if s.len() > 0 {
        let s1 = s.drop_last();
        let t1 = t.drop_last();
        assert forall|i: int| 0 <= i < s1.len() implies p(#[trigger] s1[i]) == q(t1[i]) by {
            assert(s1[i] == s[i]);
            assert(t1[i] == t[i]);
        }
        lemma_find_first_same(s1, t1, p, q);
        assert(p(s[s.len() - 1]) == q(t[t.len() - 1]));
    }
}

/// The index of the last element that satisfies `p`.
pub open spec fn find_last<T>(s: Seq<T>, p: spec_fn(T) -> bool) -> Option<int>
    decreases s.len(),
{
    if s.len() == 0 {
        None
    } else if p(s.last()) {
        Some(s.len() - 1)
    } else {
        find_last(s.drop_last(), p)
    }
}

pub open spec fn is_last<T>(s: Seq<T>, p: spec_fn(T) -> bool, r: Option<int>) -> bool {
    match r {
        Some(i) => 0 <= i < s.len() && p(s[i]) && forall|j: int| i < j < s.len() ==> !p(#[trigger] s[j]),
        None => forall|j: int| 0 <= j < s.len() ==> !p(#[trigger] s[j]),
    }
}

pub proof fn lemma_find_last<T>(s: Seq<T>, p: spec_fn(T) -> bool)
    ensures
        is_last(s, p, find_last(s, p)),
    decreases s.len(),
{
    if s.len() > 0 && !p(s.last()) {
        let t = s.drop_last();
        lemma_find_last(t, p);
        assert(!p(s[s.len() - 1]));
        match find_last(t, p) {
            Some(i) => {
                assert forall|j: int| i < j < s.len() implies !p(#[trigger] s[j]) by {
                    if j < s.len() - 1 {
                        assert(s[j] == t[j]);
                    }
                }
            },
            None => {
                assert forall|j: int| 0 <= j < s.len() implies !p(#[trigger] s[j]) by {
                    if j < s.len() - 1 {
                        assert(s[j] == t[j]);
                    }
                }
            },
        }
    }
}

/// `find_last` is the only answer that `is_last` admits.
pub proof fn lemma_find_last_unique<T>(s: Seq<T>, p: spec_fn(T) -> bool, r: Option<int>)
    requires
        is_last(s, p, r),
    ensures
        find_last(s, p) == r,
{
    lemma_find_last(s, p);
    let f = find_last(s, p);
    match (f, r) {
        (Some(a), Some(b)) => {
            if a < b {
                assert(!p(s[b]));
            } else if b < a {
                assert(!p(s[a]));
            }
        },
        (Some(a), None) => {
            assert(!p(s[a]));
        },
        (None, Some(b)) => {
            assert(!p(s[b]));
        },
        (None, None) => {},
    }
}

// ---------------------------------------------------------------------------
// Lookups in the model
// ---------------------------------------------------------------------------

pub open spec fn account_has_id(id: u128) -> spec_fn(AccountModel) -> bool {
    |a: AccountModel| a.id == id
}

pub open spec fn account_has_email(email: Seq<char>) -> spec_fn(AccountModel) -> bool {
    |a: AccountModel| a.email == email
}

pub open spec fn session_has_token(token: Seq<char>) -> spec_fn(SessionModel) -> bool {
    |s: SessionModel| s.token == token
}

pub open spec fn queue_has_id(id: u128) -> spec_fn(QueueModel) -> bool {
    |q: QueueModel| q.id == id
}

pub open spec fn archive_has_id(id: u128) -> spec_fn(ArchivedModel) -> bool {
    |q: ArchivedModel| q.queue.id == id
}

pub open spec fn group_has_id(id: u128) -> spec_fn(GroupModel) -> bool {
    |g: GroupModel| g.id == id
}

pub open spec fn entry_has_id(id: u128) -> spec_fn(EntryModel) -> bool {
    |e: EntryModel| e.id == id
}

pub open spec fn queue_holds_entry(id: u128) -> spec_fn(QueueModel) -> bool {
    |q: QueueModel| find_first(q.entries, entry_has_id(id)) is Some
}

pub open spec fn account_of(m: StoreModel, id: u128) -> Option<AccountModel> {
    match find_first(m.accounts, account_has_id(id)) {
        Some(i) => Some(m.accounts[i]),
        None => None,
    }
}

pub open spec fn account_with_email(m: StoreModel, email: Seq<char>) -> Option<AccountModel> {
    match find_first(m.accounts, account_has_email(email)) {
        Some(i) => Some(m.accounts[i]),
        None => None,
    }
}

/// The account behind an admin session token.
pub open spec fn admin_of(m: StoreModel, token: Seq<char>) -> Option<AccountModel> {
    match find_first(m.admin_sessions, session_has_token(token)) {
        Some(i) => account_of(m, m.admin_sessions[i].account_id),
        None => None,
    }
}

/// The account behind a user session token.
pub open spec fn user_of(m: StoreModel, token: Seq<char>) -> Option<AccountModel> {
    match find_first(m.user_sessions, session_has_token(token)) {
        Some(i) => account_of(m, m.user_sessions[i].account_id),
        None => None,
    }
}

pub open spec fn queue_of(m: StoreModel, id: u128) -> Option<QueueModel> {
    match find_first(m.queues, queue_has_id(id)) {
        Some(i) => Some(m.queues[i]),
        None => None,
    }
}

pub open spec fn archive_of(m: StoreModel, id: u128) -> Option<ArchivedModel> {
    match find_first(m.archived, archive_has_id(id)) {
        Some(i) => Some(m.archived[i]),
        None => None,
    }
}

pub open spec fn group_of(m: StoreModel, id: u128) -> Option<GroupModel> {
    match find_first(m.groups, group_has_id(id)) {
        Some(i) => Some(m.groups[i]),
        None => None,
    }
}

// ---------------------------------------------------------------------------
// Executable lookups
// ---------------------------------------------------------------------------

pub open spec fn ix_matches(r: Option<usize>, f: Option<int>) -> bool {
    match r {
        Some(i) => f == Some(i as int),
        None => f is None,
    }
}

impl Store {
    pub fn find_account(&self, id: u128) -> (r: Option<usize>)
        ensures
            ix_matches(r, find_first(self@.accounts, account_has_id(id))),
    {
        let mut i: usize = 0;
        while i < self.accounts.len()
            invariant
                i <= self.accounts@.len(),
                forall|j: int| 0 <= j < i ==> !account_has_id(id)(#[trigger] self@.accounts[j]),
            decreases self.accounts@.len() - i,
        {
            if self.accounts[i].id == id {
                proof {
                    lemma_find_first_unique(self@.accounts, account_has_id(id), Some(i as int));
                }
                return Some(i);
            }
            i = i + 1;
        }
        proof {
            lemma_find_first_unique(self@.accounts, account_has_id(id), None);
        }
        None
    }

    pub fn find_account_by_email(&self, email: &str) -> (r: Option<usize>)
        ensures
            ix_matches(r, find_first(self@.accounts, account_has_email(email@))),
    {
        let mut i: usize = 0;
        while i < self.accounts.len()
            invariant
                i <= self.accounts@.len(),
                forall|j: int|
                    0 <= j < i ==> !account_has_email(email@)(#[trigger] self@.accounts[j]),
            decreases self.accounts@.len() - i,
        {
            if text_eq(self.accounts[i].email.as_str(), email) {
                proof {
                    lemma_find_first_unique(
                        self@.accounts,
                        account_has_email(email@),
                        Some(i as int),
                    );
                }
                return Some(i);
            }
            i = i + 1;
        }
        proof {
            lemma_find_first_unique(self@.accounts, account_has_email(email@), None);
        }
        None
    }

    /// The index of the account behind an admin session token.
    pub fn admin_account_index(&self, token: &str) -> (r: Option<usize>)
        ensures
            match r {
                Some(i) => i < self@.accounts.len() && admin_of(self@, token@) == Some(
                    self@.accounts[i as int],
                ),
                None => admin_of(self@, token@) is None,
            },
    {
        let mut i: usize = 0;
        while i < self.admin_sessions.len()
            invariant
                i <= self.admin_sessions@.len(),
                forall|j: int|
                    0 <= j < i ==> !session_has_token(token@)(#[trigger] self@.admin_sessions[j]),
            decreases self.admin_sessions@.len() - i,
        {
            if text_eq(self.admin_sessions[i].token.as_str(), token) {
                proof {
                    lemma_find_first_unique(
                        self@.admin_sessions,
                        session_has_token(token@),
                        Some(i as int),
                    );
                }
                let r = self.find_account(self.admin_sessions[i].account_id);
                proof {
                    lemma_find_first(
                        self@.accounts,
                        account_has_id(self@.admin_sessions[i as int].account_id),
                    );
                }
                return r;
            }
            i = i + 1;
        }
        proof {
            lemma_find_first_unique(self@.admin_sessions, session_has_token(token@), None);
        }
        None
    }

    /// The index of the account behind a user session token.
    pub fn user_account_index(&self, token: &str) -> (r: Option<usize>)
        ensures
            match r {
                Some(i) => i < self@.accounts.len() && user_of(self@, token@) == Some(
                    self@.accounts[i as int],
                ),
                None => user_of(self@, token@) is None,
            },
    {
        let mut i: usize = 0;
        while i < self.user_sessions.len()
            invariant
                i <= self.user_sessions@.len(),
                forall|j: int|
                    0 <= j < i ==> !session_has_token(token@)(#[trigger] self@.user_sessions[j]),
            decreases self.user_sessions@.len() - i,
        {
            if text_eq(self.user_sessions[i].token.as_str(), token) {
                proof {
                    lemma_find_first_unique(
                        self@.user_sessions,
                        session_has_token(token@),
                        Some(i as int),
                    );
                }
                let r = self.find_account(self.user_sessions[i].account_id);
                proof {
                    lemma_find_first(
                        self@.accounts,
                        account_has_id(self@.user_sessions[i as int].account_id),
                    );
                }
                return r;
            }
            i = i + 1;
        }
        proof {
            lemma_find_first_unique(self@.user_sessions, session_has_token(token@), None);
        }
        None
    }

    pub fn find_queue(&self, id: u128) -> (r: Option<usize>)
        ensures
            ix_matches(r, find_first(self@.queues, queue_has_id(id))),
    {
        let mut i: usize = 0;
        while i < self.queues.len()
            invariant
                i <= self.queues@.len(),
                forall|j: int| 0 <= j < i ==> !queue_has_id(id)(#[trigger] self@.queues[j]),
            decreases self.queues@.len() - i,
        {
            if self.queues[i].id == id {
                proof {
                    lemma_find_first_unique(self@.queues, queue_has_id(id), Some(i as int));
                }
                return Some(i);
            }
            i = i + 1;
        }
        proof {
            lemma_find_first_unique(self@.queues, queue_has_id(id), None);
        }
        None
    }

    pub fn find_archive(&self, id: u128) -> (r: Option<usize>)
        ensures
            ix_matches(r, find_first(self@.archived, archive_has_id(id))),
    {
        let mut i: usize = 0;
        while i < self.archived_queues.len()
            invariant
                i <= self.archived_queues@.len(),
                forall|j: int| 0 <= j < i ==> !archive_has_id(id)(#[trigger] self@.archived[j]),
            decreases self.archived_queues@.len() - i,
        {
            if self.archived_queues[i].queue.id == id {
                proof {
                    lemma_find_first_unique(self@.archived, archive_has_id(id), Some(i as int));
                }
                return Some(i);
            }
            i = i + 1;
        }
        proof {
            lemma_find_first_unique(self@.archived, archive_has_id(id), None);
        }
        None
    }

    pub fn find_group(&self, id: u128) -> (r: Option<usize>)
        ensures
            ix_matches(r, find_first(self@.groups, group_has_id(id))),
    {
        let mut i: usize = 0;
        while i < self.groups.len()
            invariant
                i <= self.groups@.len(),
                forall|j: int| 0 <= j < i ==> !group_has_id(id)(#[trigger] self@.groups[j]),
            decreases self.groups@.len() - i,
        {
            if self.groups[i].id == id {
                proof {
                    lemma_find_first_unique(self@.groups, group_has_id(id), Some(i as int));
                }
                return Some(i);
            }
            i = i + 1;
        }
        proof {
            lemma_find_first_unique(self@.groups, group_has_id(id), None);
        }
        None
    }
}

/// The index of the first entry with the given id.
pub fn find_entry(entries: &Vec<QueueEntry>, id: u128) -> (r: Option<usize>)
    ensures
        ix_matches(r, find_first(crate::model::entries_model(entries@), entry_has_id(id))),
{
    let ghost es = crate::model::entries_model(entries@);
    let mut i: usize = 0;
    while i < entries.len()
        invariant
            i <= entries@.len(),
            es == crate::model::entries_model(entries@),
            forall|j: int| 0 <= j < i ==> !entry_has_id(id)(#[trigger] es[j]),
        decreases entries@.len() - i,
    {
        if entries[i].id == id {
            proof {
                lemma_find_first_unique(es, entry_has_id(id), Some(i as int));
            }
            return Some(i);
        }
        i = i + 1;
    }
    proof {
        lemma_find_first_unique(es, entry_has_id(id), None);
    }
    None
}

impl Store {
    /// The live queue that holds the entry with the given id, and the
    /// entry's index in it.
    pub fn find_entry_queue(&self, entry_id: u128) -> (r: Option<(usize, usize)>)
        ensures
            match r {
                Some((q, e)) => find_first(self@.queues, queue_holds_entry(entry_id)) == Some(
                    q as int,
                ) && find_first(self@.queues[q as int].entries, entry_has_id(entry_id)) == Some(
                    e as int,
                ),
                None => find_first(self@.queues, queue_holds_entry(entry_id)) is None,
            },
    {
        let mut i: usize = 0;
        while i < self.queues.len()
            invariant
                i <= self.queues@.len(),
                forall|j: int|
                    0 <= j < i ==> !queue_holds_entry(entry_id)(#[trigger] self@.queues[j]),
            decreases self.queues@.len() - i,
        {
            match find_entry(&self.queues[i].entries, entry_id) {
                Some(e) => {
                    proof {
                        lemma_find_first_unique(
                            self@.queues,
                            queue_holds_entry(entry_id),
                            Some(i as int),
                        );
                    }
                    return Some((i, e));
                },
                None => {},
            }
            i = i + 1;
        }
        proof {
            lemma_find_first_unique(self@.queues, queue_holds_entry(entry_id), None);
        }
        None
    }
}

pub fn err_text(s: &str) -> (r: Result<(), String>)
    ensures
        r is Err && r->Err_0@ == s@,
{
    Err(owned(s))
}

} // verus!
