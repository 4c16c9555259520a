//! Accounts and sessions: initial setup, sign-in, and account management.
use vstd::prelude::*;
use crate::ids::{fresh_id, uuid_string, uuid_text};
use crate::model::{GroupModel, Group, Queue, QueueModel, opt_text, role_can_administer, role_can_join, Account, AccountModel, AccountRole, AdminSession, SessionModel, UserSession};
use crate::password::{argon2_accepts, hash_password, looks_hashed, pwd_fits, verify_password};
use crate::store::{
    account_has_email, account_has_id, groups_model, queues_model, account_of, account_with_email, accounts_model,
    admin_of, admin_sessions_model, find_first, lemma_find_first, session_has_token,
    user_sessions_model, Store, StoreModel,
};
use crate::text::{owned, trim, trimmed};
use crate::utils::{email_norm, ms_account_name, normalize_email, microsoft_account_name};
use crate::views::{AdminIdentityModel, AdminIdentityView, UserIdentityModel, UserIdentityView};

verus! {

/// An error carrying the given text.
pub fn fail<T>(s: &str) -> (r: Result<T, String>)
    ensures
        r is Err && r->Err_0@ == s@,
{
    Err(owned(s))
}

pub open spec fn admin_result(r: Result<AdminIdentityView, String>) -> Result<
    AdminIdentityModel,
    Seq<char>,
> {
    match r {
        Ok(v) => Ok(v@),
        Err(e) => Err(e@),
    }
}

pub open spec fn user_result(r: Result<UserIdentityView, String>) -> Result<
    UserIdentityModel,
    Seq<char>,
> {
    match r {
        Ok(v) => Ok(v@),
        Err(e) => Err(e@),
    }
}

pub open spec fn unit_result(r: Result<(), String>) -> Result<(), Seq<char>> {
    match r {
        Ok(_) => Ok(()),
        Err(e) => Err(e@),
    }
}

// ---------------------------------------------------------------------------
// Model
// ---------------------------------------------------------------------------

/// No account is a super admin yet.
pub open spec fn needs_setup(m: StoreModel) -> bool {
    forall|i: int| 0 <= i < m.accounts.len() ==> m.accounts[i].role != AccountRole::SuperAdmin
}

/// Inserts an account, replacing the one with the same id.
pub open spec fn upsert_account(accts: Seq<AccountModel>, a: AccountModel) -> Seq<AccountModel> {
    match find_first(accts, account_has_id(a.id)) {
        Some(i) => accts.update(i, a),
        None => accts.push(a),
    }
}

/// Inserts a session, replacing the one with the same token.
pub open spec fn upsert_session(ss: Seq<SessionModel>, s: SessionModel) -> Seq<SessionModel> {
    match find_first(ss, session_has_token(s.token)) {
        Some(i) => ss.update(i, s),
        None => ss.push(s),
    }
}

pub open spec fn admin_identity_of(m: StoreModel, token: Seq<char>) -> Option<AdminIdentityModel> {
    match find_first(m.admin_sessions, session_has_token(token)) {
        Some(i) => match account_of(m, m.admin_sessions[i].account_id) {
            Some(a) => Some(
                AdminIdentityModel {
                    token: m.admin_sessions[i].token,
                    account_id: a.id,
                    name: a.name,
                    email: a.email,
                    is_super_admin: a.role == AccountRole::SuperAdmin,
                },
            ),
            None => None,
        },
        None => None,
    }
}

pub open spec fn user_identity_of(m: StoreModel, token: Seq<char>) -> Option<UserIdentityModel> {
    match find_first(m.user_sessions, session_has_token(token)) {
        Some(i) => match account_of(m, m.user_sessions[i].account_id) {
            Some(a) => Some(
                UserIdentityModel { token: m.user_sessions[i].token, name: a.name, email: a.email },
            ),
            None => None,
        },
        None => None,
    }
}

pub open spec fn msg_bad_credentials() -> Seq<char> {
    "invalid email or password"@
}

pub open spec fn msg_no_ms_account() -> Seq<char> {
    "no local account matches this Microsoft email"@
}

/// The account that an email and password sign in to.
pub open spec fn authenticated(m: StoreModel, email: Seq<char>, password: Seq<char>) -> Result<
    AccountModel,
    Seq<char>,
> {
    match email_norm(email) {
        Err(e) => Err(e),
        Ok(e) => match account_with_email(m, e) {
            None => Err(msg_bad_credentials()),
            Some(a) => if argon2_accepts(trimmed(password), a.password_hash) {
                Ok(a)
            } else {
                Err(msg_bad_credentials())
            },
        },
    }
}

/// A new admin session for the account, and what it shows.
pub open spec fn open_admin_session(m: StoreModel, account_id: u128, token: Seq<char>) -> (
    StoreModel,
    Result<AdminIdentityModel, Seq<char>>,
) {
    let m2 = StoreModel {
        admin_sessions: upsert_session(
            m.admin_sessions,
            SessionModel { token, account_id },
        ),
        ..m
    };
    (
        m2,
        match admin_identity_of(m2, token) {
            Some(v) => Ok(v),
            None => Err("failed to create admin session"@),
        },
    )
}

pub open spec fn open_user_session(m: StoreModel, account_id: u128, token: Seq<char>) -> (
    StoreModel,
    Result<UserIdentityModel, Seq<char>>,
) {
    let m2 = StoreModel {
        user_sessions: upsert_session(m.user_sessions, SessionModel { token, account_id }),
        ..m
    };
    (
        m2,
        match user_identity_of(m2, token) {
            Some(v) => Ok(v),
            None => Err("failed to create user session"@),
        },
    )
}

/// Password sign-in of an admin, with `token` the new session's token.
pub open spec fn admin_login(m: StoreModel, email: Seq<char>, password: Seq<char>, token: Seq<char>) -> (
    StoreModel,
    Result<AdminIdentityModel, Seq<char>>,
) {
    if !m.settings.admin_password_sign_in_enabled {
        (m, Err("admin password sign-in is disabled"@))
    } else {
        match authenticated(m, email, password) {
            Err(e) => (m, Err(e)),
            Ok(a) => if !role_can_administer(a.role) {
                (m, Err("this account does not have admin access"@))
            } else {
                open_admin_session(m, a.id, token)
            },
        }
    }
}

/// Password sign-in of a user, with `token` the new session's token.
pub open spec fn user_login(m: StoreModel, email: Seq<char>, password: Seq<char>, token: Seq<char>) -> (
    StoreModel,
    Result<UserIdentityModel, Seq<char>>,
) {
    if !m.settings.user_password_sign_in_enabled {
        (m, Err("user password sign-in is disabled"@))
    } else {
        match authenticated(m, email, password) {
            Err(e) => (m, Err(e)),
            Ok(a) => if !role_can_join(a.role) {
                (m, Err("use a user account to join queues"@))
            } else {
                open_user_session(m, a.id, token)
            },
        }
    }
}

/// Microsoft sign-in of an admin whose account has the given email.
pub open spec fn admin_email_login(m: StoreModel, email: Seq<char>, token: Seq<char>) -> (
    StoreModel,
    Result<AdminIdentityModel, Seq<char>>,
) {
    if !m.settings.admin_microsoft_sign_in_enabled {
        (m, Err("admin Microsoft sign-in is disabled"@))
    } else {
        match email_norm(email) {
            Err(e) => (m, Err(e)),
            Ok(e) => match account_with_email(m, e) {
                None => (m, Err(msg_no_ms_account())),
                Some(a) => if !role_can_administer(a.role) {
                    (m, Err("this account does not have admin access"@))
                } else {
                    open_admin_session(m, a.id, token)
                },
            },
        }
    }
}

/// What a fresh hash may be: a PHC string Argon2 accepts the password
/// against, or an error.
pub open spec fn hash_fits(hash: Result<Seq<char>, Seq<char>>, password: Seq<char>) -> bool {
    hash matches Ok(h) ==> looks_hashed(h) && argon2_accepts(password, h)
}

pub open spec fn hash_result(r: Result<String, String>) -> Result<Seq<char>, Seq<char>> {
    match r {
        Ok(h) => Ok(h@),
        Err(e) => Err(e@),
    }
}

pub open spec fn utf8_len(s: Seq<char>) -> nat {
    vstd::utf8::encode_utf8(s).len()
}

/// Creates or overwrites the super admin account with the given email;
/// `fresh` is the id used when no account has the email, `hash` the
/// hashing outcome for the trimmed password.
pub open spec fn bootstrap(
    m: StoreModel,
    name: Seq<char>,
    email: Seq<char>,
    password: Seq<char>,
    fresh: u128,
    hash: Result<Seq<char>, Seq<char>>,
) -> (StoreModel, Result<(), Seq<char>>) {
    match email_norm(email) {
        Err(e) => (m, Err(e)),
        Ok(e) => {
            let n = trimmed(name);
            let p = trimmed(password);
            if n.len() == 0 {
                (m, Err("super admin name is required"@))
            } else if p.len() == 0 {
                (m, Err("super admin password is required"@))
            } else {
                let id = match account_with_email(m, e) {
                    Some(a) => a.id,
                    None => fresh,
                };
                match hash {
                    Err(h) => (m, Err(h)),
                    Ok(h) => (
                        StoreModel {
                            accounts: upsert_account(
                                m.accounts,
                                AccountModel {
                                    id,
                                    name: n,
                                    email: e,
                                    password_hash: h,
                                    role: AccountRole::SuperAdmin,
                                },
                            ),
                            ..m
                        },
                        Ok(()),
                    ),
                }
            }
        },
    }
}

/// The first super admin, then an admin session for it.
pub open spec fn initial_setup(
    m: StoreModel,
    name: Seq<char>,
    email: Seq<char>,
    password: Seq<char>,
    fresh: u128,
    hash: Result<Seq<char>, Seq<char>>,
    token: Seq<char>,
) -> (StoreModel, Result<AdminIdentityModel, Seq<char>>) {
    if !needs_setup(m) {
        (m, Err("initial setup is already complete"@))
    } else {
        let (m1, r1) = bootstrap(m, name, email, password, fresh, hash);
        match r1 {
            Err(e) => (m1, Err(e)),
            Ok(_) => admin_login(m1, email, password, token),
        }
    }
}

/// Microsoft sign-in of a user, creating a user account for an unknown
/// email; `fresh` and `hash` are the new account's id and password hash.
pub open spec fn ms_user_login(
    m: StoreModel,
    email: Seq<char>,
    name: Option<Seq<char>>,
    fresh: u128,
    hash: Result<Seq<char>, Seq<char>>,
    token: Seq<char>,
) -> (StoreModel, Result<UserIdentityModel, Seq<char>>) {
    if !m.settings.user_microsoft_sign_in_enabled {
        (m, Err("user Microsoft sign-in is disabled"@))
    } else {
        match email_norm(email) {
            Err(e) => (m, Err(e)),
            Ok(e) => match account_with_email(m, e) {
                Some(a) => if !role_can_join(a.role) {
                    (m, Err("use a user account to join queues"@))
                } else {
                    open_user_session(m, a.id, token)
                },
                None => match hash {
                    Err(h) => (m, Err(h)),
                    Ok(h) => {
                        let m1 = StoreModel {
                            accounts: upsert_account(
                                m.accounts,
                                AccountModel {
                                    id: fresh,
                                    name: ms_account_name(name, e),
                                    email: e,
                                    password_hash: h,
                                    role: AccountRole::User,
                                },
                            ),
                            ..m
                        };
                        open_user_session(m1, fresh, token)
                    },
                },
            },
        }
    }
}

pub open spec fn msg_unknown_admin() -> Seq<char> {
    "unknown admin session"@
}

pub open spec fn msg_short_password() -> Seq<char> {
    "password must be at least 4 characters"@
}

pub open spec fn msg_email_taken() -> Seq<char> {
    "an account with that email already exists"@
}

/// A super admin adds an account.
pub open spec fn account_creation(
    m: StoreModel,
    token: Seq<char>,
    name: Seq<char>,
    email: Seq<char>,
    password: Seq<char>,
    role: AccountRole,
    fresh: u128,
    hash: Result<Seq<char>, Seq<char>>,
) -> (StoreModel, Result<(), Seq<char>>) {
    match admin_of(m, token) {
        None => (m, Err(msg_unknown_admin())),
        Some(admin) => if admin.role != AccountRole::SuperAdmin {
            (m, Err("only the super admin can create accounts"@))
        } else {
            match email_norm(email) {
                Err(e) => (m, Err(e)),
                Ok(e) => {
                    let n = trimmed(name);
                    let p = trimmed(password);
                    if n.len() == 0 {
                        (m, Err("account name is required"@))
                    } else if utf8_len(p) < 4 {
                        (m, Err(msg_short_password()))
                    } else if account_with_email(m, e) is Some {
                        (m, Err(msg_email_taken()))
                    } else {
                        match hash {
                            Err(h) => (m, Err(h)),
                            Ok(h) => (
                                StoreModel {
                                    accounts: upsert_account(
                                        m.accounts,
                                        AccountModel {
                                            id: fresh,
                                            name: n,
                                            email: e,
                                            password_hash: h,
                                            role,
                                        },
                                    ),
                                    ..m
                                },
                                Ok(()),
                            ),
                        }
                    }
                },
            }
        },
    }
}

/// Whether an account with the id exists.
pub open spec fn known_account(m: StoreModel) -> spec_fn(u128) -> bool {
    |id: u128| find_first(m.accounts, account_has_id(id)) is Some
}

pub open spec fn session_known(m: StoreModel) -> spec_fn(SessionModel) -> bool {
    |s: SessionModel| known_account(m)(s.account_id)
}

pub open spec fn queue_pruned(m: StoreModel) -> spec_fn(QueueModel) -> QueueModel {
    |q: QueueModel| QueueModel { shared_account_ids: q.shared_account_ids.filter(known_account(m)), ..q }
}

pub open spec fn group_pruned(m: StoreModel) -> spec_fn(GroupModel) -> GroupModel {
    |g: GroupModel| GroupModel { member_ids: g.member_ids.filter(known_account(m)), ..g }
}

/// Drops every reference to an account that no longer exists: queue
/// shares, group memberships and sessions.
pub open spec fn prune_accounts(m: StoreModel) -> StoreModel {
    StoreModel {
        queues: m.queues.map_values(queue_pruned(m)),
        groups: m.groups.map_values(group_pruned(m)),
        admin_sessions: m.admin_sessions.filter(session_known(m)),
        user_sessions: m.user_sessions.filter(session_known(m)),
        ..m
    }
}

/// A super admin edits an account; `hash` is the outcome of hashing a new
/// password when one is given.
pub open spec fn account_update(
    m: StoreModel,
    token: Seq<char>,
    account_id: u128,
    name: Seq<char>,
    email: Seq<char>,
    password: Option<Seq<char>>,
    role: AccountRole,
    hash: Result<Seq<char>, Seq<char>>,
) -> (StoreModel, Result<(), Seq<char>>) {
    match admin_of(m, token) {
        None => (m, Err(msg_unknown_admin())),
        Some(admin) => if admin.role != AccountRole::SuperAdmin {
            (m, Err("only the super admin can edit accounts"@))
        } else if admin.id == account_id && role != AccountRole::SuperAdmin {
            (m, Err("you cannot demote your own super admin account"@))
        } else {
            match email_norm(email) {
                Err(e) => (m, Err(e)),
                Ok(e) => {
                    let n = trimmed(name);
                    if n.len() == 0 {
                        (m, Err("account name is required"@))
                    } else if account_with_email(m, e) matches Some(x) && x.id != account_id {
                        (m, Err(msg_email_taken()))
                    } else {
                        match find_first(m.accounts, account_has_id(account_id)) {
                            None => (m, Err("account not found"@)),
                            Some(i) => {
                                let a = m.accounts[i];
                                let a1 = AccountModel { name: n, email: e, role, ..a };
                                let m1 = StoreModel { accounts: m.accounts.update(i, a1), ..m };
                                match password {
                                    Some(p) if trimmed(p).len() != 0 => if utf8_len(trimmed(p)) < 4 {
                                        (m1, Err(msg_short_password()))
                                    } else {
                                        match hash {
                                            Err(h) => (m1, Err(h)),
                                            Ok(h) => (
                                                prune_accounts(
                                                    StoreModel {
                                                        accounts: m.accounts.update(
                                                            i,
                                                            AccountModel { password_hash: h, ..a1 },
                                                        ),
                                                        ..m
                                                    },
                                                ),
                                                Ok(()),
                                            ),
                                        }
                                    },
                                    _ => (prune_accounts(m1), Ok(())),
                                }
                            },
                        }
                    }
                },
            }
        },
    }
}

/// A super admin deletes an account that owns no live queue.
pub open spec fn account_deletion(m: StoreModel, token: Seq<char>, account_id: u128) -> (
    StoreModel,
    Result<(), Seq<char>>,
) {
    match admin_of(m, token) {
        None => (m, Err(msg_unknown_admin())),
        Some(admin) => if admin.role != AccountRole::SuperAdmin {
            (m, Err("only the super admin can delete accounts"@))
        } else if admin.id == account_id {
            (m, Err("you cannot delete your own admin account"@))
        } else if exists|i: int| 0 <= i < m.queues.len() && m.queues[i].owner_account_id == account_id {
            (m, Err("close or reassign this account's queues before deleting it"@))
        } else if find_first(m.accounts, account_has_id(account_id)) is None {
            (m, Err("account not found"@))
        } else {
            (
                prune_accounts(
                    StoreModel {
                        accounts: m.accounts.filter(|a: AccountModel| a.id != account_id),
                        ..m
                    },
                ),
                Ok(()),
            )
        },
    }
}

// ---------------------------------------------------------------------------
// Executable
// ---------------------------------------------------------------------------

/// Each character takes at most four bytes of UTF-8.
proof fn lemma_utf8_len_bound(chars: Seq<char>)
    ensures
        vstd::utf8::encode_utf8(chars).len() <= 4 * chars.len(),
    decreases chars.len(),
{
    if chars.len() > 0 {
        lemma_utf8_len_bound(chars.drop_first());
    }
}

proof fn lemma_hex_run_len(v: u128, hi: nat, lo: nat)
    ensures
        crate::ids::hex_run(v, hi, lo).len() == if hi <= lo { 0 } else { hi - lo },
    decreases hi,
{
    if hi > lo {
        lemma_hex_run_len(v, (hi - 1) as nat, lo);
    }
}

/// The text of a UUID fits Argon2.
proof fn lemma_uuid_text_fits(v: u128)
    ensures
        pwd_fits(uuid_text(v)),
{
    lemma_hex_run_len(v, 32, 24);
    lemma_hex_run_len(v, 24, 20);
    lemma_hex_run_len(v, 20, 16);
    lemma_hex_run_len(v, 16, 12);
    lemma_hex_run_len(v, 12, 0);
    assert(uuid_text(v).len() == 36);
    lemma_utf8_len_bound(uuid_text(v));
}

/// Once a super admin was set up with a hash that accepts the password,
/// that email and password sign in as an admin.
proof fn lemma_setup_signs_in(
    m: StoreModel,
    name: Seq<char>,
    email: Seq<char>,
    password: Seq<char>,
    fresh: u128,
    h: Seq<char>,
    token: Seq<char>,
)
    requires
        bootstrap(m, name, email, password, fresh, Ok(h)).1 is Ok,
        argon2_accepts(trimmed(password), h),
        m.settings.admin_password_sign_in_enabled,
    ensures
        admin_login(bootstrap(m, name, email, password, fresh, Ok(h)).0, email, password, token).1 is Ok,
{
    let e = email_norm(email)->Ok_0;
    let id = match account_with_email(m, e) {
        Some(a) => a.id,
        None => fresh,
    };
    let a = AccountModel { id, name: trimmed(name), email: e, password_hash: h, role: AccountRole::SuperAdmin };
    let m1 = bootstrap(m, name, email, password, fresh, Ok(h)).0;
    assert(m1.accounts == upsert_account(m.accounts, a));
    lemma_find_first(m.accounts, account_has_email(e));
    lemma_find_first(m.accounts, account_has_id(id));
    if let Some(j0) = find_first(m.accounts, account_has_email(e)) {
        assert(account_has_id(id)(m.accounts[j0]));
    }
    lemma_upsert_found_by_email(m.accounts, a);
    let j = find_first(m1.accounts, account_has_email(e))->0;
    assert(account_with_email(m1, e) == Some(a));
    lemma_open_sessions_succeed(m1, j, token);
}

/// After inserting an account by id, its id leads to it.
proof fn lemma_upsert_found_by_id(accts: Seq<AccountModel>, a: AccountModel)
    ensures
        ({
            let r = upsert_account(accts, a);
            find_first(r, account_has_id(a.id)) matches Some(j) && 0 <= j < r.len() && r[j] == a
        }),
{
    lemma_find_first(accts, account_has_id(a.id));
    let r = upsert_account(accts, a);
    match find_first(accts, account_has_id(a.id)) {
        Some(i) => {
            assert forall|k: int| 0 <= k < i implies !account_has_id(a.id)(#[trigger] r[k]) by {
                assert(r[k] == accts[k]);
            }
            crate::store::lemma_find_first_unique(r, account_has_id(a.id), Some(i));
        },
        None => {
            assert forall|k: int| 0 <= k < accts.len() implies !account_has_id(a.id)(#[trigger] r[k]) by {
                assert(r[k] == accts[k]);
            }
            crate::store::lemma_find_first_unique(r, account_has_id(a.id), Some(accts.len() as int));
        },
    }
}

/// After inserting an account by id, its email leads to it, where no
/// account before the one it replaces has that email.
proof fn lemma_upsert_found_by_email(accts: Seq<AccountModel>, a: AccountModel)
    requires
        forall|k: int|
            0 <= k < accts.len() && (#[trigger] accts[k]).email == a.email ==> (find_first(
                accts,
                account_has_id(a.id),
            ) matches Some(i) && i <= k),
    ensures
        ({
            let r = upsert_account(accts, a);
            find_first(r, account_has_email(a.email)) matches Some(j) && 0 <= j < r.len() && r[j] == a
        }),
{
    lemma_find_first(accts, account_has_id(a.id));
    let r = upsert_account(accts, a);
    match find_first(accts, account_has_id(a.id)) {
        Some(i) => {
            assert forall|k: int| 0 <= k < i implies !account_has_email(a.email)(#[trigger] r[k]) by {
                assert(r[k] == accts[k]);
            }
            crate::store::lemma_find_first_unique(r, account_has_email(a.email), Some(i));
        },
        None => {
            assert forall|k: int| 0 <= k < accts.len() implies !account_has_email(a.email)(#[trigger] r[k]) by {
                assert(r[k] == accts[k]);
            }
            crate::store::lemma_find_first_unique(r, account_has_email(a.email), Some(accts.len() as int));
        },
    }
}

/// After inserting a session by token, its token leads to it.
proof fn lemma_upsert_session_found(ss: Seq<SessionModel>, x: SessionModel)
    ensures
        ({
            let r = upsert_session(ss, x);
            find_first(r, session_has_token(x.token)) matches Some(j) && 0 <= j < r.len() && r[j] == x
        }),
{
    lemma_find_first(ss, session_has_token(x.token));
    let r = upsert_session(ss, x);
    match find_first(ss, session_has_token(x.token)) {
        Some(i) => {
            assert forall|k: int| 0 <= k < i implies !session_has_token(x.token)(#[trigger] r[k]) by {
                assert(r[k] == ss[k]);
            }
            crate::store::lemma_find_first_unique(r, session_has_token(x.token), Some(i));
        },
        None => {
            assert forall|k: int| 0 <= k < ss.len() implies !session_has_token(x.token)(#[trigger] r[k]) by {
                assert(r[k] == ss[k]);
            }
            crate::store::lemma_find_first_unique(r, session_has_token(x.token), Some(ss.len() as int));
        },
    }
}

/// An account that exists is found by its id.
proof fn lemma_account_found(m: StoreModel, k: int)
    requires
        0 <= k < m.accounts.len(),
    ensures
        account_of(m, m.accounts[k].id) is Some,
{
    lemma_find_first(m.accounts, account_has_id(m.accounts[k].id));
}

/// A session opened for an existing account shows that account.
proof fn lemma_open_sessions_succeed(m: StoreModel, k: int, token: Seq<char>)
    requires
        0 <= k < m.accounts.len(),
    ensures
        open_admin_session(m, m.accounts[k].id, token).1 is Ok,
        open_user_session(m, m.accounts[k].id, token).1 is Ok,
{
    let id = m.accounts[k].id;
    lemma_upsert_session_found(m.admin_sessions, SessionModel { token, account_id: id });
    lemma_upsert_session_found(m.user_sessions, SessionModel { token, account_id: id });
    lemma_account_found(m, k);
}

proof fn lemma_accounts_update(v: Seq<Account>, i: int, a: Account)
    requires
        0 <= i < v.len(),
    ensures
        accounts_model(v.update(i, a)) == accounts_model(v).update(i, a@),
{
    assert(accounts_model(v.update(i, a)) =~= accounts_model(v).update(i, a@));
}

proof fn lemma_accounts_push(v: Seq<Account>, a: Account)
    ensures
        accounts_model(v.push(a)) == accounts_model(v).push(a@),
{
    assert(accounts_model(v.push(a)) =~= accounts_model(v).push(a@));
}

impl Store {
    /// Whether the first super admin still has to be created.
    pub fn needs_initial_setup(&self) -> (r: bool)
        ensures
            r == needs_setup(self@),
    {
        let mut i: usize = 0;
        while i < self.accounts.len()
            invariant
                i <= self.accounts@.len(),
                forall|j: int| 0 <= j < i ==> self@.accounts[j].role != AccountRole::SuperAdmin,
            decreases self.accounts@.len() - i,
        {
            if self.accounts[i].role == AccountRole::SuperAdmin {
                assert(self@.accounts[i as int].role == AccountRole::SuperAdmin);
                return false;
            }
            i = i + 1;
        }
        true
    }

    /// The identity behind an admin session token.
    pub fn admin_identity(&self, admin_token: &str) -> (r: Option<AdminIdentityView>)
        ensures
            match r {
                Some(v) => admin_identity_of(self@, admin_token@) == Some(v@),
                None => admin_identity_of(self@, admin_token@) is None,
            },
    {
        let mut i: usize = 0;
        while i < self.admin_sessions.len()
            invariant
                i <= self.admin_sessions@.len(),
                forall|j: int|
                    0 <= j < i ==> !session_has_token(admin_token@)(
                        #[trigger] self@.admin_sessions[j],
                    ),
            decreases self.admin_sessions@.len() - i,
        {
            if crate::text::text_eq(self.admin_sessions[i].token.as_str(), admin_token) {
                proof {
                    crate::store::lemma_find_first_unique(
                        self@.admin_sessions,
                        session_has_token(admin_token@),
                        Some(i as int),
                    );
                    lemma_find_first(
                        self@.accounts,
                        account_has_id(self@.admin_sessions[i as int].account_id),
                    );
                }
                match self.find_account(self.admin_sessions[i].account_id) {
                    Some(k) => {
                        let a = &self.accounts[k];
                        return Some(
                            AdminIdentityView {
                                token: self.admin_sessions[i].token.clone(),
                                account_id: a.id,
                                name: a.name.clone(),
                                email: a.email.clone(),
                                is_super_admin: a.is_super_admin(),
                            },
                        );
                    },
                    None => {
                        return None;
                    },
                }
            }
            i = i + 1;
        }
        proof {
            crate::store::lemma_find_first_unique(
                self@.admin_sessions,
                session_has_token(admin_token@),
                None,
            );
        }
        None
    }

    /// The identity behind a user session token.
    pub fn user_identity(&self, user_token: &str) -> (r: Option<UserIdentityView>)
        ensures
            match r {
                Some(v) => user_identity_of(self@, user_token@) == Some(v@),
                None => user_identity_of(self@, user_token@) is None,
            },
    {
        let mut i: usize = 0;
        while i < self.user_sessions.len()
            invariant
                i <= self.user_sessions@.len(),
                forall|j: int|
                    0 <= j < i ==> !session_has_token(user_token@)(
                        #[trigger] self@.user_sessions[j],
                    ),
            decreases self.user_sessions@.len() - i,
        {
            if crate::text::text_eq(self.user_sessions[i].token.as_str(), user_token) {
                proof {
                    crate::store::lemma_find_first_unique(
                        self@.user_sessions,
                        session_has_token(user_token@),
                        Some(i as int),
                    );
                    lemma_find_first(
                        self@.accounts,
                        account_has_id(self@.user_sessions[i as int].account_id),
                    );
                }
                match self.find_account(self.user_sessions[i].account_id) {
                    Some(k) => {
                        let a = &self.accounts[k];
                        return Some(
                            UserIdentityView {
                                token: self.user_sessions[i].token.clone(),
                                name: a.name.clone(),
                                email: a.email.clone(),
                            },
                        );
                    },
                    None => {
                        return None;
                    },
                }
            }
            i = i + 1;
        }
        proof {
            crate::store::lemma_find_first_unique(
                self@.user_sessions,
                session_has_token(user_token@),
                None,
            );
        }
        None
    }

    /// The index of the account an email and password sign in to.
    fn authenticate_account(&self, email: &str, password: &str) -> (r: Result<usize, String>)
        ensures
            match authenticated(self@, email@, password@) {
                Ok(a) => r is Ok && r->Ok_0 < self@.accounts.len() && self@.accounts[r->Ok_0 as int]
                    == a,
                Err(m) => r is Err && r->Err_0@ == m,
            },
    {
        let email = normalize_email(email)?;
        let k = match self.find_account_by_email(email.as_str()) {
            Some(k) => k,
            None => {
                return fail("invalid email or password");
            },
        };
        proof {
            lemma_find_first(self@.accounts, account_has_email(email@));
        }
        let pw = trim(password);
        if !verify_password(pw.as_str(), self.accounts[k].password_hash.as_str()) {
            return fail("invalid email or password");
        }
        Ok(k)
    }

    fn insert_admin_session(&mut self, token: String, account_id: u128)
        ensures
            final(self)@ == (StoreModel {
                admin_sessions: upsert_session(
                    old(self)@.admin_sessions,
                    SessionModel { token: token@, account_id },
                ),
                ..old(self)@
            }),
    {
        let ghost ss = old(self)@.admin_sessions;
        let ghost t = token@;
        let mut i: usize = 0;
        while i < self.admin_sessions.len()
            invariant
                self@ == old(self)@,
                ss == self@.admin_sessions,
                t == token@,
                i <= self.admin_sessions@.len(),
                forall|j: int| 0 <= j < i ==> !session_has_token(t)(#[trigger] ss[j]),
            decreases self.admin_sessions@.len() - i,
        {
            if crate::text::text_eq(self.admin_sessions[i].token.as_str(), token.as_str()) {
                proof {
                    crate::store::lemma_find_first_unique(ss, session_has_token(t), Some(i as int));
                }
                let s = AdminSession { token, account_id };
                let ghost sv = s@;
                self.admin_sessions.set(i, s);
                assert(admin_sessions_model(self.admin_sessions@) =~= ss.update(i as int, sv));
                return ;
            }
            i = i + 1;
        }
        proof {
            crate::store::lemma_find_first_unique(ss, session_has_token(t), None);
        }
        let s = AdminSession { token, account_id };
        let ghost sv = s@;
        self.admin_sessions.push(s);
        assert(admin_sessions_model(self.admin_sessions@) =~= ss.push(sv));
    }

    fn insert_user_session(&mut self, token: String, account_id: u128)
        ensures
            final(self)@ == (StoreModel {
                user_sessions: upsert_session(
                    old(self)@.user_sessions,
                    SessionModel { token: token@, account_id },
                ),
                ..old(self)@
            }),
    {
        let ghost ss = old(self)@.user_sessions;
        let ghost t = token@;
        let mut i: usize = 0;
        while i < self.user_sessions.len()
            invariant
                self@ == old(self)@,
                ss == self@.user_sessions,
                t == token@,
                i <= self.user_sessions@.len(),
                forall|j: int| 0 <= j < i ==> !session_has_token(t)(#[trigger] ss[j]),
            decreases self.user_sessions@.len() - i,
        {
            if crate::text::text_eq(self.user_sessions[i].token.as_str(), token.as_str()) {
                proof {
                    crate::store::lemma_find_first_unique(ss, session_has_token(t), Some(i as int));
                }
                let s = UserSession { token, account_id };
                let ghost sv = s@;
                self.user_sessions.set(i, s);
                assert(user_sessions_model(self.user_sessions@) =~= ss.update(i as int, sv));
                return ;
            }
            i = i + 1;
        }
        proof {
            crate::store::lemma_find_first_unique(ss, session_has_token(t), None);
        }
        let s = UserSession { token, account_id };
        let ghost sv = s@;
        self.user_sessions.push(s);
        assert(user_sessions_model(self.user_sessions@) =~= ss.push(sv));
    }

    /// Opens an admin session for the account under a fresh random token.
    fn create_admin_session(&mut self, account_id: u128) -> (r: Result<AdminIdentityView, String>)
        ensures
            exists|seed: u128|
                (final(self)@, admin_result(r)) == open_admin_session(
                    old(self)@,
                    account_id,
                    uuid_text(seed),
                ),
    {
        let seed = fresh_id();
        let token = uuid_string(seed);
        let probe = token.clone();
        self.insert_admin_session(token, account_id);
        let r = match self.admin_identity(probe.as_str()) {
            Some(v) => Ok(v),
            None => fail("failed to create admin session"),
        };
        assert((self@, admin_result(r)) == open_admin_session(old(self)@, account_id, uuid_text(seed)));
        r
    }

    /// Opens a user session for the account under a fresh random token.
    fn create_user_session(&mut self, account_id: u128) -> (r: Result<UserIdentityView, String>)
        ensures
            exists|seed: u128|
                (final(self)@, user_result(r)) == open_user_session(
                    old(self)@,
                    account_id,
                    uuid_text(seed),
                ),
    {
        let seed = fresh_id();
        let token = uuid_string(seed);
        let probe = token.clone();
        self.insert_user_session(token, account_id);
        let r = match self.user_identity(probe.as_str()) {
            Some(v) => Ok(v),
            None => fail("failed to create user session"),
        };
        assert((self@, user_result(r)) == open_user_session(old(self)@, account_id, uuid_text(seed)));
        r
    }

    /// Signs an admin in with email and password.
    pub fn login_admin(&mut self, email: String, password: String) -> (r: Result<
        AdminIdentityView,
        String,
    >)
        ensures
            exists|seed: u128|
                (final(self)@, admin_result(r)) == admin_login(
                    old(self)@,
                    email@,
                    password@,
                    uuid_text(seed),
                ),
    {
        if !self.site_settings.admin_password_sign_in_enabled {
            let r = fail("admin password sign-in is disabled");
            assert((self@, admin_result(r)) == admin_login(old(self)@, email@, password@, uuid_text(0)));
            return r;
        }
        let k = match self.authenticate_account(email.as_str(), password.as_str()) {
            Ok(k) => k,
            Err(e) => {
                let r = Err(e);
                assert((self@, admin_result(r)) == admin_login(old(self)@, email@, password@, uuid_text(0)));
                return r;
            },
        };
        if !self.accounts[k].can_administer() {
            let r = fail("this account does not have admin access");
            assert((self@, admin_result(r)) == admin_login(old(self)@, email@, password@, uuid_text(0)));
            return r;
        }
        let id = self.accounts[k].id;
        self.create_admin_session(id)
    }

    /// Signs a user in with email and password.
    pub fn login_user(&mut self, email: String, password: String) -> (r: Result<
        UserIdentityView,
        String,
    >)
        ensures
            exists|seed: u128|
                (final(self)@, user_result(r)) == user_login(
                    old(self)@,
                    email@,
                    password@,
                    uuid_text(seed),
                ),
    {
        if !self.site_settings.user_password_sign_in_enabled {
            let r = fail("user password sign-in is disabled");
            assert((self@, user_result(r)) == user_login(old(self)@, email@, password@, uuid_text(0)));
            return r;
        }
        let k = match self.authenticate_account(email.as_str(), password.as_str()) {
            Ok(k) => k,
            Err(e) => {
                let r = Err(e);
                assert((self@, user_result(r)) == user_login(old(self)@, email@, password@, uuid_text(0)));
                return r;
            },
        };
        if !self.accounts[k].can_join_queues() {
            let r = fail("use a user account to join queues");
            assert((self@, user_result(r)) == user_login(old(self)@, email@, password@, uuid_text(0)));
            return r;
        }
        let id = self.accounts[k].id;
        self.create_user_session(id)
    }

    /// Signs an admin in after Microsoft has vouched for the email.
    pub fn login_admin_with_email(&mut self, email: String) -> (r: Result<AdminIdentityView, String>)
        ensures
            exists|seed: u128|
                (final(self)@, admin_result(r)) == admin_email_login(
                    old(self)@,
                    email@,
                    uuid_text(seed),
                ),
    {
        if !self.site_settings.admin_microsoft_sign_in_enabled {
            let r = fail("admin Microsoft sign-in is disabled");
            assert((self@, admin_result(r)) == admin_email_login(old(self)@, email@, uuid_text(0)));
            return r;
        }
        let e = match normalize_email(email.as_str()) {
            Ok(e) => e,
            Err(m) => {
                let r = Err(m);
                assert((self@, admin_result(r)) == admin_email_login(old(self)@, email@, uuid_text(0)));
                return r;
            },
        };
        let k = match self.find_account_by_email(e.as_str()) {
            Some(k) => k,
            None => {
                let r = fail("no local account matches this Microsoft email");
                assert((self@, admin_result(r)) == admin_email_login(old(self)@, email@, uuid_text(0)));
                return r;
            },
        };
        proof {
            lemma_find_first(self@.accounts, account_has_email(e@));
        }
        if !self.accounts[k].can_administer() {
            let r = fail("this account does not have admin access");
            assert((self@, admin_result(r)) == admin_email_login(old(self)@, email@, uuid_text(0)));
            return r;
        }
        let id = self.accounts[k].id;
        self.create_admin_session(id)
    }
}

proof fn lemma_utf8_len_bounds(s: Seq<char>)
    ensures
        s.len() <= utf8_len(s) <= 4 * s.len(),
    decreases s.len(),
{
    if s.len() > 0 {
        lemma_utf8_len_bounds(s.drop_first());
    }
}

/// Whether the UTF-8 encoding of `s` is shorter than four bytes.
pub fn shorter_than_four_bytes(s: &str) -> (r: bool)
    ensures
        r == (utf8_len(s@) < 4),
{
    proof {
        lemma_utf8_len_bounds(s@);
    }
    if s.unicode_len() >= 4 {
        false
    } else {
        s.len() < 4
    }
}

impl Store {
    fn upsert_account_exec(&mut self, a: Account)
        ensures
            final(self)@ == (StoreModel {
                accounts: upsert_account(old(self)@.accounts, a@),
                ..old(self)@
            }),
    {
        match self.find_account(a.id) {
            Some(i) => {
                proof {
                    lemma_find_first(self@.accounts, account_has_id(a.id));
                    lemma_accounts_update(self.accounts@, i as int, a);
                }
                self.accounts.set(i, a);
            },
            None => {
                proof {
                    lemma_accounts_push(self.accounts@, a);
                }
                self.accounts.push(a);
            },
        }
    }

    /// Creates the super admin account with the given email, or turns the
    /// account that has it into one. It succeeds whenever the email is
    /// valid, the name and password are not blank and the password is short
    /// enough for Argon2.
    pub fn bootstrap_super_admin(&mut self, name: String, email: String, password: String) -> (r:
        Result<(), String>)
        ensures
            exists|fresh: u128, hash: Result<Seq<char>, Seq<char>>|
                hash_fits(hash, trimmed(password@)) && (final(self)@, unit_result(r)) == bootstrap(
                    old(self)@,
                    name@,
                    email@,
                    password@,
                    fresh,
                    hash,
                ),
            email_norm(email@) is Ok && trimmed(name@).len() > 0 && trimmed(password@).len() > 0 && pwd_fits(
                trimmed(password@),
            ) ==> r is Ok,
    {
        let ghost m = self@;
        let e = match normalize_email(email.as_str()) {
            Ok(e) => e,
            Err(x) => {
                let r = Err(x);
                assert((self@, unit_result(r)) == bootstrap(m, name@, email@, password@, 0, Err(Seq::empty())));
                return r;
            },
        };
        let n = trim(name.as_str());
        let p = trim(password.as_str());
        if n.as_str().unicode_len() == 0 {
            let r = fail("super admin name is required");
            assert((self@, unit_result(r)) == bootstrap(m, name@, email@, password@, 0, Err(Seq::empty())));
            return r;
        }
        if p.as_str().unicode_len() == 0 {
            let r = fail("super admin password is required");
            assert((self@, unit_result(r)) == bootstrap(m, name@, email@, password@, 0, Err(Seq::empty())));
            return r;
        }
        let fresh = fresh_id();
        let id = match self.find_account_by_email(e.as_str()) {
            Some(k) => {
                proof {
                    lemma_find_first(self@.accounts, account_has_email(e@));
                }
                self.accounts[k].id
            },
            None => fresh,
        };
        let h = hash_password(p.as_str());
        let ghost hv = hash_result(h);
        match h {
            Err(x) => {
                let r = Err(x);
                assert((self@, unit_result(r)) == bootstrap(m, name@, email@, password@, fresh, hv));
                r
            },
            Ok(h) => {
                let a = Account { id, name: n, email: e, password_hash: h, role: AccountRole::SuperAdmin };
                self.upsert_account_exec(a);
                let r = Ok(());
                assert((self@, unit_result(r)) == bootstrap(m, name@, email@, password@, fresh, hv));
                r
            },
        }
    }

    /// Creates the first super admin and signs it in; refused once a super
    /// admin exists. While none exists and admin password sign-in is on, it
    /// succeeds on every input that setting up a super admin accepts.
    pub fn setup_initial_super_admin(&mut self, name: String, email: String, password: String) -> (r:
        Result<AdminIdentityView, String>)
        ensures
            exists|fresh: u128, hash: Result<Seq<char>, Seq<char>>, seed: u128|
                hash_fits(hash, trimmed(password@)) && (final(self)@, admin_result(r))
                    == initial_setup(
                    old(self)@,
                    name@,
                    email@,
                    password@,
                    fresh,
                    hash,
                    uuid_text(seed),
                ),
            needs_setup(old(self)@) && old(self)@.settings.admin_password_sign_in_enabled && email_norm(email@) is Ok
                && trimmed(name@).len() > 0 && trimmed(password@).len() > 0 && pwd_fits(trimmed(password@)) ==> r is Ok,
    {
        if !self.needs_initial_setup() {
            let r = fail("initial setup is already complete");
            assert((self@, admin_result(r)) == initial_setup(old(self)@, name@, email@, password@, 0, Err(Seq::empty()), uuid_text(0)));
            return r;
        }
        let ghost m = self@;
        let email2 = email.clone();
        let password2 = password.clone();
        let r0 = self.bootstrap_super_admin(name, email2, password2);
        let ghost pick = choose|fresh: u128, hash: Result<Seq<char>, Seq<char>>|
            hash_fits(hash, trimmed(password@)) && (self@, unit_result(r0)) == bootstrap(
                m,
                name@,
                email@,
                password@,
                fresh,
                hash,
            );
        match r0 {
            Err(x) => {
                let r = Err(x);
                assert(hash_fits(pick.1, trimmed(password@)) && (self@, admin_result(r)) == initial_setup(m, name@, email@, password@, pick.0, pick.1, uuid_text(0)));
                return r;
            },
            Ok(_) => {},
        }
        let ghost m1 = self@;
        let r = self.login_admin(email, password);
        let ghost seed = choose|seed: u128| (self@, admin_result(r)) == admin_login(m1, email@, password@, uuid_text(seed));
        proof {
            if pick.1 is Ok && m.settings.admin_password_sign_in_enabled {
                let h = pick.1->Ok_0;
                lemma_setup_signs_in(m, name@, email@, password@, pick.0, h, uuid_text(seed));
            }
        }
        assert(hash_fits(pick.1, trimmed(password@)) && (self@, admin_result(r)) == initial_setup(m, name@, email@, password@, pick.0, pick.1, uuid_text(seed)));
        r
    }
}

impl Store {
    /// The ids among `ids` that belong to an existing account, in order.
    fn known_ids(&self, ids: &Vec<u128>) -> (r: Vec<u128>)
        ensures
            r@ == ids@.filter(known_account(self@)),
    {
        let mut out: Vec<u128> = Vec::new();
        let mut i: usize = 0;
        while i < ids.len()
            invariant
                i <= ids@.len(),
                out@ == ids@.take(i as int).filter(known_account(self@)),
            decreases ids@.len() - i,
        {
            proof {
                assert(ids@.take(i + 1) =~= ids@.take(i as int).push(ids@[i as int]));
                ids@.take(i as int).lemma_filter_push(ids@[i as int], known_account(self@));
            }
            if self.find_account(ids[i]).is_some() {
                out.push(ids[i]);
            }
            i = i + 1;
        }
        assert(ids@.take(ids@.len() as int) =~= ids@);
        out
    }

    /// Drops references to accounts that no longer exist.
    fn cleanup_account_references(&mut self)
        ensures
            final(self)@ == prune_accounts(old(self)@),
    {
        let ghost m = self@;
        // queues
        let mut rest: Vec<Queue> = Vec::new();
        std::mem::swap(&mut rest, &mut self.queues);
        let ghost all = rest@;
        let total = rest.len();
        let mut done: Vec<Queue> = Vec::new();
        let mut k: usize = 0;
        while rest.len() > 0
            invariant
                m == old(self)@,
                all.len() == total,
                self@.accounts == m.accounts,
                k + rest@.len() == all.len(),
                rest@ == all.skip(k as int),
                queues_model(done@) == queues_model(all.take(k as int)).map_values(queue_pruned(m)),
            decreases rest@.len(),
        {
            let mut q = rest.remove(0);
            let ids = self.known_ids(&q.shared_account_ids);
            q.shared_account_ids = ids;
            let ghost qv = q@;
            proof {
                assert(all.skip(k as int)[0] == all[k as int]);
                assert(qv == queue_pruned(m)(all[k as int]@));
            }
            let ghost before = done@;
            done.push(q);
            proof {
                assert(done@ == before.push(q));
                assert(queues_model(done@) =~= queues_model(before).push(qv));
                assert(all.take(k + 1) =~= all.take(k as int).push(all[k as int]));
                assert(queues_model(all.take(k + 1)).map_values(queue_pruned(m)) =~= queues_model(all.take(k as int)).map_values(queue_pruned(m)).push(queue_pruned(m)(all[k as int]@)));
                assert(rest@ =~= all.skip(k + 1));
            }
            k = k + 1;
        }
        assert(all.take(k as int) =~= all);
        self.queues = done;
        // groups
        let mut grest: Vec<Group> = Vec::new();
        std::mem::swap(&mut grest, &mut self.groups);
        let ghost gall = grest@;
        let gtotal = grest.len();
        let mut gdone: Vec<Group> = Vec::new();
        let mut j: usize = 0;
        while grest.len() > 0
            invariant
                m == old(self)@,
                gall.len() == gtotal,
                self@.accounts == m.accounts,
                j + grest@.len() == gall.len(),
                grest@ == gall.skip(j as int),
                groups_model(gdone@) == groups_model(gall.take(j as int)).map_values(group_pruned(m)),
            decreases grest@.len(),
        {
            let mut g = grest.remove(0);
            let ids = self.known_ids(&g.member_ids);
            g.member_ids = ids;
            let ghost gv = g@;
            proof {
                assert(gall.skip(j as int)[0] == gall[j as int]);
                assert(gv == group_pruned(m)(gall[j as int]@));
            }
            let ghost gbefore = gdone@;
            gdone.push(g);
            proof {
                assert(gdone@ == gbefore.push(g));
                assert(groups_model(gdone@) =~= groups_model(gbefore).push(gv));
                assert(gall.take(j + 1) =~= gall.take(j as int).push(gall[j as int]));
                assert(groups_model(gall.take(j + 1)).map_values(group_pruned(m)) =~= groups_model(gall.take(j as int)).map_values(group_pruned(m)).push(group_pruned(m)(gall[j as int]@)));
                assert(groups_model(gdone@) =~= groups_model(gall.take(j + 1)).map_values(group_pruned(m)));
                assert(grest@ =~= gall.skip(j + 1));
            }
            j = j + 1;
        }
        assert(gall.take(j as int) =~= gall);
        self.groups = gdone;
        // sessions
        let mut kept_admin: Vec<AdminSession> = Vec::new();
        let mut i: usize = 0;
        while i < self.admin_sessions.len()
            invariant
                m == old(self)@,
                self@.accounts == m.accounts,
                self.admin_sessions@ == old(self).admin_sessions@,
                i <= self.admin_sessions@.len(),
                admin_sessions_model(kept_admin@) == m.admin_sessions.take(i as int).filter(session_known(m)),
            decreases self.admin_sessions@.len() - i,
        {
            proof {
                assert(m.admin_sessions.take(i + 1) =~= m.admin_sessions.take(i as int).push(m.admin_sessions[i as int]));
                m.admin_sessions.take(i as int).lemma_filter_push(m.admin_sessions[i as int], session_known(m));
            }
            if self.find_account(self.admin_sessions[i].account_id).is_some() {
                let s = AdminSession {
                    token: self.admin_sessions[i].token.clone(),
                    account_id: self.admin_sessions[i].account_id,
                };
                let ghost before = kept_admin@;
                kept_admin.push(s);
                assert(admin_sessions_model(kept_admin@) =~= admin_sessions_model(before).push(s@));
            }
            i = i + 1;
        }
        assert(m.admin_sessions.take(i as int) =~= m.admin_sessions);
        self.admin_sessions = kept_admin;
        let mut kept_user: Vec<UserSession> = Vec::new();
        let mut i: usize = 0;
        while i < self.user_sessions.len()
            invariant
                m == old(self)@,
                self@.accounts == m.accounts,
                self.user_sessions@ == old(self).user_sessions@,
                i <= self.user_sessions@.len(),
                user_sessions_model(kept_user@) == m.user_sessions.take(i as int).filter(session_known(m)),
            decreases self.user_sessions@.len() - i,
        {
            proof {
                assert(m.user_sessions.take(i + 1) =~= m.user_sessions.take(i as int).push(m.user_sessions[i as int]));
                m.user_sessions.take(i as int).lemma_filter_push(m.user_sessions[i as int], session_known(m));
            }
            if self.find_account(self.user_sessions[i].account_id).is_some() {
                let s = UserSession {
                    token: self.user_sessions[i].token.clone(),
                    account_id: self.user_sessions[i].account_id,
                };
                let ghost before = kept_user@;
                kept_user.push(s);
                assert(user_sessions_model(kept_user@) =~= user_sessions_model(before).push(s@));
            }
            i = i + 1;
        }
        assert(m.user_sessions.take(i as int) =~= m.user_sessions);
        self.user_sessions = kept_user;
        assert(self@ =~= prune_accounts(m));
    }
}

impl Store {
    /// Microsoft sign-in of a user; an unknown email gets a new user account.
    /// It succeeds whenever user Microsoft sign-in is on and the email is
    /// valid.
    pub fn login_or_create_user_with_microsoft(&mut self, email: String, name: Option<String>) -> (r:
        Result<UserIdentityView, String>)
        ensures
            exists|fresh: u128, hash: Result<Seq<char>, Seq<char>>, seed: u128, secret: u128|
                hash_fits(hash, uuid_text(secret)) && (final(self)@, user_result(r)) == ms_user_login(
                    old(self)@,
                    email@,
                    opt_text(name),
                    fresh,
                    hash,
                    uuid_text(seed),
                ),
            old(self)@.settings.user_microsoft_sign_in_enabled && email_norm(email@) is Ok ==> r is Ok,
    {
        let ghost m = self@;
        if !self.site_settings.user_microsoft_sign_in_enabled {
            let r = fail("user Microsoft sign-in is disabled");
            assert((self@, user_result(r)) == ms_user_login(m, email@, opt_text(name), 0, Err(Seq::empty()), uuid_text(0)));
            return r;
        }
        let e = match normalize_email(email.as_str()) {
            Ok(e) => e,
            Err(x) => {
                let r = Err(x);
                assert((self@, user_result(r)) == ms_user_login(m, email@, opt_text(name), 0, Err(Seq::empty()), uuid_text(0)));
                return r;
            },
        };
        match self.find_account_by_email(e.as_str()) {
            Some(k) => {
                proof {
                    lemma_find_first(self@.accounts, account_has_email(e@));
                }
                if !self.accounts[k].can_join_queues() {
                    let r = fail("use a user account to join queues");
                    assert((self@, user_result(r)) == ms_user_login(m, email@, opt_text(name), 0, Err(Seq::empty()), uuid_text(0)));
                    return r;
                }
                let id = self.accounts[k].id;
                let r = self.create_user_session(id);
                let ghost seed = choose|seed: u128| (self@, user_result(r)) == open_user_session(m, id, uuid_text(seed));
                proof {
                    lemma_open_sessions_succeed(m, k as int, uuid_text(seed));
                }
                assert((self@, user_result(r)) == ms_user_login(m, email@, opt_text(name), 0, Err(Seq::empty()), uuid_text(seed)));
                r
            },
            None => {
                let id = fresh_id();
                let account_name = microsoft_account_name(name, e.as_str());
                let secret_id = fresh_id();
                let secret = uuid_string(secret_id);
                proof {
                    lemma_uuid_text_fits(secret_id);
                }
                let h = hash_password(secret.as_str());
                let ghost hv = hash_result(h);
                match h {
                    Err(x) => {
                        let r = Err(x);
                        assert((self@, user_result(r)) == ms_user_login(m, email@, opt_text(name), id, hv, uuid_text(0)));
                        r
                    },
                    Ok(h) => {
                        let a = Account { id, name: account_name, email: e, password_hash: h, role: AccountRole::User };
                        let ghost av = a@;
                        self.upsert_account_exec(a);
                        let ghost m1 = self@;
                        let r = self.create_user_session(id);
                        let ghost seed = choose|seed: u128| (self@, user_result(r)) == open_user_session(m1, id, uuid_text(seed));
                        proof {
                            lemma_upsert_found_by_id(m.accounts, av);
                            let j = find_first(m1.accounts, account_has_id(id))->0;
                            lemma_open_sessions_succeed(m1, j, uuid_text(seed));
                        }
                        assert((self@, user_result(r)) == ms_user_login(m, email@, opt_text(name), id, hv, uuid_text(seed)));
                        assert(hash_fits(hv, uuid_text(secret_id)));
                        r
                    },
                }
            },
        }
    }

    /// A super admin adds an account. It succeeds whenever every check that
    /// comes before hashing passes (the outcome with a made hash is a
    /// success) and the password is short enough for Argon2.
    pub fn create_account(
        &mut self,
        admin_token: &str,
        name: String,
        email: String,
        password: String,
        role: AccountRole,
    ) -> (r: Result<(), String>)
        ensures
            exists|fresh: u128, hash: Result<Seq<char>, Seq<char>>|
                hash_fits(hash, trimmed(password@)) && (final(self)@, unit_result(r))
                    == account_creation(
                    old(self)@,
                    admin_token@,
                    name@,
                    email@,
                    password@,
                    role,
                    fresh,
                    hash,
                ),
            pwd_fits(trimmed(password@)) && account_creation(
                old(self)@,
                admin_token@,
                name@,
                email@,
                password@,
                role,
                0,
                Ok(Seq::empty()),
            ).1 is Ok ==> r is Ok,
    {
        let ghost m = self@;
        let ghost none: Result<Seq<char>, Seq<char>> = Err(Seq::empty());
        let k = match self.admin_account_index(admin_token) {
            Some(k) => k,
            None => {
                let r = fail("unknown admin session");
                assert((self@, unit_result(r)) == account_creation(m, admin_token@, name@, email@, password@, role, 0, none));
                return r;
            },
        };
        if !self.accounts[k].is_super_admin() {
            let r = fail("only the super admin can create accounts");
            assert((self@, unit_result(r)) == account_creation(m, admin_token@, name@, email@, password@, role, 0, none));
            return r;
        }
        let n = trim(name.as_str());
        let e = match normalize_email(email.as_str()) {
            Ok(e) => e,
            Err(x) => {
                let r = Err(x);
                assert((self@, unit_result(r)) == account_creation(m, admin_token@, name@, email@, password@, role, 0, none));
                return r;
            },
        };
        let p = trim(password.as_str());
        if n.as_str().unicode_len() == 0 {
            let r = fail("account name is required");
            assert((self@, unit_result(r)) == account_creation(m, admin_token@, name@, email@, password@, role, 0, none));
            return r;
        }
        if shorter_than_four_bytes(p.as_str()) {
            let r = fail("password must be at least 4 characters");
            assert((self@, unit_result(r)) == account_creation(m, admin_token@, name@, email@, password@, role, 0, none));
            return r;
        }
        if self.find_account_by_email(e.as_str()).is_some() {
            let r = fail("an account with that email already exists");
            assert((self@, unit_result(r)) == account_creation(m, admin_token@, name@, email@, password@, role, 0, none));
            return r;
        }
        let id = fresh_id();
        let h = hash_password(p.as_str());
        let ghost hv = hash_result(h);
        match h {
            Err(x) => {
                let r = Err(x);
                assert((self@, unit_result(r)) == account_creation(m, admin_token@, name@, email@, password@, role, id, hv));
                r
            },
            Ok(h) => {
                let a = Account { id, name: n, email: e, password_hash: h, role };
                self.upsert_account_exec(a);
                let r = Ok(());
                assert((self@, unit_result(r)) == account_creation(m, admin_token@, name@, email@, password@, role, id, hv));
                r
            },
        }
    }

    /// A super admin edits an account's name, email, role and, when a
    /// non-blank one is given, password. It succeeds whenever every check
    /// that comes before hashing passes and a new password is short enough
    /// for Argon2.
    pub fn update_account(
        &mut self,
        admin_token: &str,
        account_id: u128,
        name: String,
        email: String,
        password: Option<String>,
        role: AccountRole,
    ) -> (r: Result<(), String>)
        ensures
            exists|hash: Result<Seq<char>, Seq<char>>|
                (opt_text(password) matches Some(p) ==> hash_fits(hash, trimmed(p))) && (final(self)@, unit_result(r))
                    == account_update(
                    old(self)@,
                    admin_token@,
                    account_id,
                    name@,
                    email@,
                    opt_text(password),
                    role,
                    hash,
                ),
            (opt_text(password) matches Some(p) ==> pwd_fits(trimmed(p))) && account_update(
                old(self)@,
                admin_token@,
                account_id,
                name@,
                email@,
                opt_text(password),
                role,
                Ok(Seq::empty()),
            ).1 is Ok ==> r is Ok,
    {
        let ghost m = self@;
        let ghost none: Result<Seq<char>, Seq<char>> = Err(Seq::empty());
        let ghost pw = opt_text(password);
        let k = match self.admin_account_index(admin_token) {
            Some(k) => k,
            None => {
                let r = fail("unknown admin session");
                assert((self@, unit_result(r)) == account_update(m, admin_token@, account_id, name@, email@, pw, role, none));
                return r;
            },
        };
        if !self.accounts[k].is_super_admin() {
            let r = fail("only the super admin can edit accounts");
            assert((self@, unit_result(r)) == account_update(m, admin_token@, account_id, name@, email@, pw, role, none));
            return r;
        }
        if self.accounts[k].id == account_id && role != AccountRole::SuperAdmin {
            let r = fail("you cannot demote your own super admin account");
            assert((self@, unit_result(r)) == account_update(m, admin_token@, account_id, name@, email@, pw, role, none));
            return r;
        }
        let n = trim(name.as_str());
        let e = match normalize_email(email.as_str()) {
            Ok(e) => e,
            Err(x) => {
                let r = Err(x);
                assert((self@, unit_result(r)) == account_update(m, admin_token@, account_id, name@, email@, pw, role, none));
                return r;
            },
        };
        if n.as_str().unicode_len() == 0 {
            let r = fail("account name is required");
            assert((self@, unit_result(r)) == account_update(m, admin_token@, account_id, name@, email@, pw, role, none));
            return r;
        }
        match self.find_account_by_email(e.as_str()) {
            Some(x) => {
                proof {
                    lemma_find_first(self@.accounts, account_has_email(e@));
                }
                if self.accounts[x].id != account_id {
                    let r = fail("an account with that email already exists");
                    assert((self@, unit_result(r)) == account_update(m, admin_token@, account_id, name@, email@, pw, role, none));
                    return r;
                }
            },
            None => {},
        }
        let i = match self.find_account(account_id) {
            Some(i) => i,
            None => {
                let r = fail("account not found");
                assert((self@, unit_result(r)) == account_update(m, admin_token@, account_id, name@, email@, pw, role, none));
                return r;
            },
        };
        proof {
            lemma_find_first(self@.accounts, account_has_id(account_id));
        }
        let old_hash = self.accounts[i].password_hash.clone();
        let a1 = Account { id: self.accounts[i].id, name: n, email: e, password_hash: old_hash, role };
        let ghost a1v = a1@;
        proof {
            lemma_accounts_update(self.accounts@, i as int, a1);
        }
        self.accounts.set(i, a1);
        let ghost m1 = self@;
        assert(m1 == (StoreModel { accounts: m.accounts.update(i as int, a1v), ..m }));
        match password {
            Some(p) => {
                let t = trim(p.as_str());
                if t.as_str().unicode_len() != 0 {
                    if shorter_than_four_bytes(t.as_str()) {
                        let r = fail("password must be at least 4 characters");
                        assert((self@, unit_result(r)) == account_update(m, admin_token@, account_id, name@, email@, pw, role, none));
                        return r;
                    }
                    let h = hash_password(t.as_str());
                    let ghost hv = hash_result(h);
                    match h {
                        Err(x) => {
                            let r = Err(x);
                            assert((self@, unit_result(r)) == account_update(m, admin_token@, account_id, name@, email@, pw, role, hv));
                            return r;
                        },
                        Ok(h) => {
                            let a2 = Account {
                                id: self.accounts[i].id,
                                name: self.accounts[i].name.clone(),
                                email: self.accounts[i].email.clone(),
                                password_hash: h,
                                role,
                            };
                            let ghost a2v = a2@;
                            assert(a2v == AccountModel { password_hash: hv->Ok_0, ..a1v });
                            proof {
                                lemma_accounts_update(self.accounts@, i as int, a2);
                            }
                            self.accounts.set(i, a2);
                            assert(m.accounts.update(i as int, a1v).update(i as int, a2v) =~= m.accounts.update(i as int, a2v));
                            assert(self@ == StoreModel { accounts: m.accounts.update(i as int, a2v), ..m });
                            self.cleanup_account_references();
                            let r = Ok(());
                            assert(self@ == prune_accounts(StoreModel { accounts: m.accounts.update(i as int, AccountModel { password_hash: hv->Ok_0, ..a1v }), ..m }));
                            assert((self@, unit_result(r)) == account_update(m, admin_token@, account_id, name@, email@, pw, role, hv));
                            return r;
                        },
                    }
                }
            },
            None => {},
        }
        self.cleanup_account_references();
        let r = Ok(());
        assert((self@, unit_result(r)) == account_update(m, admin_token@, account_id, name@, email@, pw, role, none));
        r
    }

    /// A super admin deletes an account that owns no live queue.
    pub fn delete_account(&mut self, admin_token: &str, account_id: u128) -> (r: Result<(), String>)
        ensures
            (final(self)@, unit_result(r)) == account_deletion(old(self)@, admin_token@, account_id),
    {
        let ghost m = self@;
        let k = match self.admin_account_index(admin_token) {
            Some(k) => k,
            None => {
                return fail("unknown admin session");
            },
        };
        if !self.accounts[k].is_super_admin() {
            return fail("only the super admin can delete accounts");
        }
        if self.accounts[k].id == account_id {
            return fail("you cannot delete your own admin account");
        }
        let mut q: usize = 0;
        while q < self.queues.len()
            invariant
                self@ == m,
                m == old(self)@,
                k < m.accounts.len(),
                admin_of(m, admin_token@) == Some(m.accounts[k as int]),
                m.accounts[k as int].role == AccountRole::SuperAdmin,
                m.accounts[k as int].id != account_id,
                q <= self.queues@.len(),
                forall|j: int| 0 <= j < q ==> m.queues[j].owner_account_id != account_id,
            decreases self.queues@.len() - q,
        {
            if self.queues[q].owner_account_id == account_id {
                assert(m.queues[q as int].owner_account_id == account_id);
                assert(exists|j: int| 0 <= j < m.queues.len() && m.queues[j].owner_account_id == account_id);
                return fail("close or reassign this account's queues before deleting it");
            }
            q = q + 1;
        }
        if self.find_account(account_id).is_none() {
            return fail("account not found");
        }
        let mut kept: Vec<Account> = Vec::new();
        let mut i: usize = 0;
        while i < self.accounts.len()
            invariant
                self@ == m,
                i <= self.accounts@.len(),
                accounts_model(kept@) == m.accounts.take(i as int).filter(|a: AccountModel| a.id != account_id),
            decreases self.accounts@.len() - i,
        {
            proof {
                assert(m.accounts.take(i + 1) =~= m.accounts.take(i as int).push(m.accounts[i as int]));
                m.accounts.take(i as int).lemma_filter_push(m.accounts[i as int], |a: AccountModel| a.id != account_id);
            }
            if self.accounts[i].id != account_id {
                let a = Account {
                    id: self.accounts[i].id,
                    name: self.accounts[i].name.clone(),
                    email: self.accounts[i].email.clone(),
                    password_hash: self.accounts[i].password_hash.clone(),
                    role: self.accounts[i].role,
                };
                let ghost before = kept@;
                kept.push(a);
                assert(accounts_model(kept@) =~= accounts_model(before).push(a@));
            }
            i = i + 1;
        }
        assert(m.accounts.take(i as int) =~= m.accounts);
        self.accounts = kept;
        self.cleanup_account_references();
        Ok(())
    }
}

} // verus!
