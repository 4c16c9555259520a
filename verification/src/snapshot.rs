//! The empty store, and what is kept of the store between runs.
use vstd::prelude::*;
use crate::model::{
    Account, AccountModel, AdminSession, ArchivedModel, ArchivedQueue, Group, GroupModel, Queue,
    QueueModel, SessionModel, SettingsModel, SiteSettings, UserSession,
};
use crate::password::{argon2_accepts, hash_password, is_password_hash, looks_hashed, pwd_fits};
use crate::store::{
    account_has_id, accounts_model, admin_sessions_model, archived_model, find_first,
    groups_model, queues_model, user_sessions_model, Store, StoreModel,
};
use crate::text::{concat, owned};

verus! {

/// Sign-in methods are on unless turned off.
pub fn default_true() -> (r: bool)
    ensures
        r,
{
    true
}

/// The settings of a new site: titled "Lue", every sign-in method on.
pub open spec fn default_settings() -> SettingsModel {
    SettingsModel {
        site_title: "Lue"@,
        admin_password_sign_in_enabled: true,
        admin_microsoft_sign_in_enabled: true,
        user_password_sign_in_enabled: true,
        user_microsoft_sign_in_enabled: true,
    }
}

impl Default for SiteSettings {
    fn default() -> (r: SiteSettings)
        ensures
            crate::model::settings_of(r) == default_settings(),
    {
        SiteSettings {
            site_title: owned("Lue"),
            admin_password_sign_in_enabled: default_true(),
            admin_microsoft_sign_in_enabled: default_true(),
            user_password_sign_in_enabled: default_true(),
            user_microsoft_sign_in_enabled: default_true(),
        }
    }
}

/// A store with default settings and nothing else.
pub open spec fn empty_store() -> StoreModel {
    StoreModel {
        settings: default_settings(),
        accounts: Seq::empty(),
        admin_sessions: Seq::empty(),
        user_sessions: Seq::empty(),
        queues: Seq::empty(),
        archived: Seq::empty(),
        groups: Seq::empty(),
    }
}

impl Store {
    /// An empty store.
    pub fn new() -> (r: Store)
        ensures
            r@ == empty_store(),
    {
        let r = Store {
            site_settings: SiteSettings::default(),
            accounts: Vec::new(),
            admin_sessions: Vec::new(),
            user_sessions: Vec::new(),
            queues: Vec::new(),
            archived_queues: Vec::new(),
            groups: Vec::new(),
        };
        assert(accounts_model(r.accounts@) =~= Seq::empty());
        assert(admin_sessions_model(r.admin_sessions@) =~= Seq::empty());
        assert(user_sessions_model(r.user_sessions@) =~= Seq::empty());
        assert(queues_model(r.queues@) =~= Seq::empty());
        assert(archived_model(r.archived_queues@) =~= Seq::empty());
        assert(groups_model(r.groups@) =~= Seq::empty());
        r
    }
}

impl Default for Store {
    fn default() -> (r: Store)
        ensures
            r@ == empty_store(),
    {
        Store::new()
    }
}

/// What is written to disk: everything but the site settings.
#[derive(Clone, Debug)]
pub struct StoreSnapshot {
    pub accounts: Vec<Account>,
    pub queues: Vec<Queue>,
    pub archived_queues: Vec<ArchivedQueue>,
    pub groups: Vec<Group>,
    pub admin_sessions: Vec<AdminSession>,
    pub user_sessions: Vec<UserSession>,
}

pub ghost struct SnapshotModel {
    pub accounts: Seq<AccountModel>,
    pub queues: Seq<QueueModel>,
    pub archived: Seq<ArchivedModel>,
    pub groups: Seq<GroupModel>,
    pub admin_sessions: Seq<SessionModel>,
    pub user_sessions: Seq<SessionModel>,
}

impl View for StoreSnapshot {
    type V = SnapshotModel;

    open spec fn view(&self) -> SnapshotModel {
        SnapshotModel {
            accounts: accounts_model(self.accounts@),
            queues: queues_model(self.queues@),
            archived: archived_model(self.archived_queues@),
            groups: groups_model(self.groups@),
            admin_sessions: admin_sessions_model(self.admin_sessions@),
            user_sessions: user_sessions_model(self.user_sessions@),
        }
    }
}

/// The session belongs to one of the accounts.
pub open spec fn owned_by_any(accounts: Seq<AccountModel>) -> spec_fn(SessionModel) -> bool {
    |s: SessionModel| find_first(accounts, account_has_id(s.account_id)) is Some
}

/// An account as restored: unchanged but for a password kept in plain
/// text, which is replaced by an Argon2 hash that accepts it.
pub open spec fn migrated(before: AccountModel, after: AccountModel) -> bool {
    &&& after == AccountModel { password_hash: after.password_hash, ..before }
    &&& if looks_hashed(before.password_hash) {
        after.password_hash == before.password_hash
    } else {
        looks_hashed(after.password_hash) && argon2_accepts(before.password_hash, after.password_hash)
    }
}

/// The store restored from a snapshot: default settings, sessions of
/// unknown accounts dropped, plain-text passwords hashed.
pub open spec fn restored(snap: SnapshotModel, m: StoreModel) -> bool {
    &&& m.settings == default_settings()
    &&& m.queues == snap.queues
    &&& m.archived == snap.archived
    &&& m.groups == snap.groups
    &&& m.accounts.len() == snap.accounts.len()
    &&& forall|i: int| 0 <= i < m.accounts.len() ==> migrated(snap.accounts[i], #[trigger] m.accounts[i])
    &&& m.admin_sessions == snap.admin_sessions.filter(owned_by_any(snap.accounts))
    &&& m.user_sessions == snap.user_sessions.filter(owned_by_any(snap.accounts))
}

pub open spec fn msg_migration_prefix() -> Seq<char> {
    "failed to migrate plaintext password: "@
}

fn has_account(accounts: &Vec<Account>, id: u128) -> (r: bool)
    ensures
        r == (find_first(accounts_model(accounts@), account_has_id(id)) is Some),
{
    let ghost am = accounts_model(accounts@);
    let mut i: usize = 0;
    while i < accounts.len()
        invariant
            am == accounts_model(accounts@),
            i <= accounts@.len(),
            forall|j: int| 0 <= j < i ==> !account_has_id(id)(#[trigger] am[j]),
        decreases accounts@.len() - i,
    {
        if accounts[i].id == id {
            proof {
                crate::store::lemma_find_first(am, account_has_id(id));
                crate::store::lemma_find_first_unique(am, account_has_id(id), Some(i as int));
            }
            return true;
        }
        i = i + 1;
    }
    proof {
        crate::store::lemma_find_first_unique(am, account_has_id(id), None);
    }
    false
}

fn keep_admin_sessions(sessions: &Vec<AdminSession>, accounts: &Vec<Account>) -> (r: Vec<AdminSession>)
    ensures
        admin_sessions_model(r@) == admin_sessions_model(sessions@).filter(
            owned_by_any(accounts_model(accounts@)),
        ),
{
    let ghost src = admin_sessions_model(sessions@);
    let ghost f = owned_by_any(accounts_model(accounts@));
    let mut out: Vec<AdminSession> = Vec::new();
    let mut i: usize = 0;
    while i < sessions.len()
        invariant
            f == owned_by_any(accounts_model(accounts@)),
            src == admin_sessions_model(sessions@),
            i <= sessions@.len(),
            admin_sessions_model(out@) == src.take(i as int).filter(f),
        decreases sessions@.len() - i,
    {
        proof {
            assert(src.take(i + 1) =~= src.take(i as int).push(src[i as int]));
            src.take(i as int).lemma_filter_push(src[i as int], f);
        }
        if has_account(accounts, sessions[i].account_id) {
            let s = AdminSession { token: sessions[i].token.clone(), account_id: sessions[i].account_id };
            let ghost before = out@;
            out.push(s);
            assert(admin_sessions_model(out@) =~= admin_sessions_model(before).push(src[i as int]));
        }
        i = i + 1;
    }
    assert(src.take(i as int) =~= src);
    out
}

fn keep_user_sessions(sessions: &Vec<UserSession>, accounts: &Vec<Account>) -> (r: Vec<UserSession>)
    ensures
        user_sessions_model(r@) == user_sessions_model(sessions@).filter(
            owned_by_any(accounts_model(accounts@)),
        ),
{
    let ghost src = user_sessions_model(sessions@);
    let ghost f = owned_by_any(accounts_model(accounts@));
    let mut out: Vec<UserSession> = Vec::new();
    let mut i: usize = 0;
    while i < sessions.len()
        invariant
            f == owned_by_any(accounts_model(accounts@)),
            src == user_sessions_model(sessions@),
            i <= sessions@.len(),
            user_sessions_model(out@) == src.take(i as int).filter(f),
        decreases sessions@.len() - i,
    {
        proof {
            assert(src.take(i + 1) =~= src.take(i as int).push(src[i as int]));
            src.take(i as int).lemma_filter_push(src[i as int], f);
        }
        if has_account(accounts, sessions[i].account_id) {
            let s = UserSession { token: sessions[i].token.clone(), account_id: sessions[i].account_id };
            let ghost before = out@;
            out.push(s);
            assert(user_sessions_model(out@) =~= user_sessions_model(before).push(src[i as int]));
        }
        i = i + 1;
    }
    assert(src.take(i as int) =~= src);
    out
}

/// Hashes every password kept in plain text; the first failure ends the
/// migration.
fn migrate_passwords(accounts: &Vec<Account>) -> (r: Result<Vec<Account>, String>)
    ensures
        match r {
            Ok(v) => accounts_model(v@).len() == accounts@.len() && forall|i: int|
                0 <= i < accounts@.len() ==> migrated(
                    accounts_model(accounts@)[i],
                    #[trigger] accounts_model(v@)[i],
                ),
            Err(e) => exists|i: int|
                0 <= i < accounts@.len() && !looks_hashed(#[trigger] accounts@[i].password_hash@)
                    && !pwd_fits(accounts@[i].password_hash@)
                    && e@.take(msg_migration_prefix().len() as int) == msg_migration_prefix(),
        },
{
    let mut out: Vec<Account> = Vec::new();
    let mut i: usize = 0;
    while i < accounts.len()
        invariant
            i <= accounts@.len(),
            out@.len() == i,
            forall|j: int| 0 <= j < i ==> migrated(accounts@[j]@, #[trigger] out@[j]@),
        decreases accounts@.len() - i,
    {
        let a = &accounts[i];
        let password_hash = if is_password_hash(a.password_hash.as_str()) {
            a.password_hash.clone()
        } else {
            match hash_password(a.password_hash.as_str()) {
                Ok(h) => h,
                Err(e) => {
                    let msg = concat("failed to migrate plaintext password: ", e.as_str());
                    proof {
                        assert(msg@.take(msg_migration_prefix().len() as int) =~= msg_migration_prefix());
                        assert(!looks_hashed(accounts@[i as int].password_hash@));
                        assert(!pwd_fits(accounts@[i as int].password_hash@));
                    }
                    return Err(msg);
                },
            }
        };
        out.push(Account { id: a.id, name: a.name.clone(), email: a.email.clone(), password_hash, role: a.role });
        i = i + 1;
    }
    proof {
        assert forall|j: int| 0 <= j < accounts@.len() implies migrated(
            accounts_model(accounts@)[j],
            #[trigger] accounts_model(out@)[j],
        ) by {
            assert(migrated(accounts@[j]@, out@[j]@));
        }
    }
    Ok(out)
}

impl Store {
    /// Restores the store from what was kept on disk: default settings,
    /// sessions of unknown accounts dropped, and passwords kept in plain
    /// text hashed. Fails only when a password kept in plain text is too
    /// long for Argon2 to hash.
    pub fn from_snapshot(snapshot: StoreSnapshot) -> (r: Result<Store, String>)
        ensures
            match r {
                Ok(s) => restored(snapshot@, s@),
                Err(e) => exists|i: int|
                    0 <= i < snapshot@.accounts.len() && !looks_hashed(
                        #[trigger] snapshot@.accounts[i].password_hash,
                    ) && !pwd_fits(snapshot@.accounts[i].password_hash)
                        && e@.take(msg_migration_prefix().len() as int) == msg_migration_prefix(),
            },
    {
        let ghost snap = snapshot@;
        let admin_sessions = keep_admin_sessions(&snapshot.admin_sessions, &snapshot.accounts);
        let user_sessions = keep_user_sessions(&snapshot.user_sessions, &snapshot.accounts);
        let accounts = match migrate_passwords(&snapshot.accounts) {
            Ok(v) => v,
            Err(e) => {
                proof {
                    let i = choose|i: int|
                        0 <= i < snapshot.accounts@.len() && !looks_hashed(#[trigger] snapshot.accounts@[i].password_hash@)
                            && !pwd_fits(snapshot.accounts@[i].password_hash@)
                            && e@.take(msg_migration_prefix().len() as int) == msg_migration_prefix();
                    assert(snap.accounts[i].password_hash == snapshot.accounts@[i].password_hash@);
                }
                return Err(e);
            },
        };
        let s = Store {
            site_settings: SiteSettings::default(),
            accounts,
            admin_sessions,
            user_sessions,
            queues: snapshot.queues,
            archived_queues: snapshot.archived_queues,
            groups: snapshot.groups,
        };
        Ok(s)
    }
}

/// What is written to disk of a store: all of it but the site settings.
pub open spec fn snapshot_of(m: StoreModel) -> SnapshotModel {
    SnapshotModel {
        accounts: m.accounts,
        queues: m.queues,
        archived: m.archived,
        groups: m.groups,
        admin_sessions: m.admin_sessions,
        user_sessions: m.user_sessions,
    }
}

impl Store {
    /// The part of the store that is kept on disk.
    pub fn into_snapshot(self) -> (r: StoreSnapshot)
        ensures
            r@ == snapshot_of(self@),
    {
        StoreSnapshot {
            accounts: self.accounts,
            queues: self.queues,
            archived_queues: self.archived_queues,
            groups: self.groups,
            admin_sessions: self.admin_sessions,
            user_sessions: self.user_sessions,
        }
    }
}

proof fn lemma_filter_keeps_all<A>(s: Seq<A>, p: spec_fn(A) -> bool)
    requires
        forall|i: int| 0 <= i < s.len() ==> p(#[trigger] s[i]),
    ensures
        s.filter(p) == s,
    decreases s.len(),
{
    if s.len() == 0 {
        reveal(Seq::filter);
        assert(s.filter(p) =~= s);
    } else {
        let t = s.drop_last();
        assert forall|i: int| 0 <= i < t.len() implies p(#[trigger] t[i]) by {
            assert(t[i] == s[i]);
        }
        lemma_filter_keeps_all(t, p);
        t.lemma_filter_push(s.last(), p);
        assert(t.push(s.last()) =~= s);
    }
}

/// Every password is kept hashed and every session belongs to an account.
pub open spec fn saved_cleanly(m: StoreModel) -> bool {
    &&& forall|i: int| 0 <= i < m.accounts.len() ==> looks_hashed(#[trigger] m.accounts[i].password_hash)
    &&& forall|i: int| 0 <= i < m.admin_sessions.len() ==> owned_by_any(m.accounts)(#[trigger] m.admin_sessions[i])
    &&& forall|i: int| 0 <= i < m.user_sessions.len() ==> owned_by_any(m.accounts)(#[trigger] m.user_sessions[i])
}

/// Restoring what was saved gives the store back, with the site settings
/// at their defaults, when its passwords are hashed and its sessions belong
/// to its accounts; no password is left to migrate, so the restore does
/// not fail.
pub proof fn law_restore_after_save(m: StoreModel, back: StoreModel)
    requires
        saved_cleanly(m),
        restored(snapshot_of(m), back),
    ensures
        back == (StoreModel { settings: default_settings(), ..m }),
        !exists|i: int| 0 <= i < snapshot_of(m).accounts.len() && !looks_hashed(#[trigger] snapshot_of(m).accounts[i].password_hash),
{
    lemma_filter_keeps_all(m.admin_sessions, owned_by_any(m.accounts));
    lemma_filter_keeps_all(m.user_sessions, owned_by_any(m.accounts));
    assert forall|i: int| 0 <= i < back.accounts.len() implies back.accounts[i] == m.accounts[i] by {
        assert(migrated(m.accounts[i], back.accounts[i]));
        assert(looks_hashed(m.accounts[i].password_hash));
    }
    assert(back.accounts =~= m.accounts);
}

} // verus!
