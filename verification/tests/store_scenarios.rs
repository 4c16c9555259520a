use chrono::{Datelike, Timelike, Utc};
use lue::model::{
    Account, AccountRole, AdminSession, Queue, QueueEntry, QueueEntryStatus, QueueField, TextMap,
    WeeklySchedule,
};
use lue::password::{hash_password, is_password_hash, verify_password};
use lue::snapshot::StoreSnapshot;
use lue::store::Store;

fn queue(store: &Store, queue_id: u128) -> &Queue {
    store.queues.iter().find(|queue| queue.id == queue_id).expect("queue")
}

fn field(key: &str, label: &str, required: bool) -> QueueField {
    QueueField { key: key.to_string(), label: label.to_string(), required, options: Vec::new() }
}

fn bootstrapped() -> (Store, String) {
    let mut store = Store::default();
    store
        .bootstrap_super_admin(
            "Super Admin".to_string(),
            "super@example.com".to_string(),
            "super-pass".to_string(),
        )
        .expect("bootstrap super admin");
    let admin = store
        .login_admin("super@example.com".to_string(), "super-pass".to_string())
        .expect("login admin");
    (store, admin.token)
}

#[test]
fn hashes_verify_only_the_original_password() {
    let hash = hash_password("correct horse battery staple").expect("hash password");

    assert!(is_password_hash(&hash));
    assert!(verify_password("correct horse battery staple", &hash));
    assert!(!verify_password("wrong password", &hash));
    assert_ne!(hash, "correct horse battery staple");
}

#[test]
fn store_round_trips_persisted_data_and_rebuilds_indexes() {
    let account_id: u128 = 0x1111;
    let queue_id: u128 = 0x2222;
    let entry_id: u128 = 0x3333;
    let mut values = TextMap::new();
    values.insert("name".to_string(), "Ada".to_string());

    let snapshot = StoreSnapshot {
        accounts: vec![Account {
            id: account_id,
            name: "Admin".to_string(),
            email: "admin@example.com".to_string(),
            password_hash: "pass".to_string(),
            role: AccountRole::Admin,
        }],
        queues: vec![Queue {
            id: queue_id,
            code: String::new(),
            name: "Support".to_string(),
            allow_guests: true,
            is_public: false,
            opens_at: None,
            weekly_schedule: None,
            owner_account_id: account_id,
            owner_name: "Admin".to_string(),
            shared_account_ids: Vec::new(),
            shared_group_ids: Vec::new(),
            fields: vec![field("name", "Name", true)],
            entries: vec![QueueEntry {
                id: entry_id,
                token: "entry-token".to_string(),
                requester_account_id: None,
                requester_label: "Ada".to_string(),
                requester_email: None,
                is_guest: true,
                values,
                submitted_at: "2026-05-04T00:00:00Z".to_string(),
                left_at: None,
                status: QueueEntryStatus::Resolved,
                claimed_by: Some("Admin".to_string()),
            }],
        }],
        archived_queues: Vec::new(),
        groups: Vec::new(),
        admin_sessions: vec![AdminSession { token: "admin-token".to_string(), account_id }],
        user_sessions: Vec::new(),
    };

    let loaded = Store::from_snapshot(snapshot).expect("load store");

    let account_index = loaded.find_account_by_email("admin@example.com").expect("account by email");
    assert_eq!(loaded.accounts[account_index].id, account_id);
    let (queue_index, _) = loaded.find_entry_queue(entry_id).expect("entry queue");
    assert_eq!(loaded.queues[queue_index].id, queue_id);
    assert_eq!(
        loaded
            .queues
            .iter()
            .find(|queue| queue.id == queue_id)
            .and_then(|queue| queue.entries.first())
            .map(|entry| entry.status),
        Some(QueueEntryStatus::Resolved)
    );
    assert_ne!(loaded.accounts[account_index].password_hash.as_str(), "pass");
    assert!(is_password_hash(&loaded.accounts[account_index].password_hash));
    assert!(loaded.admin_state("admin-token", Some(queue_id)).is_some());
}

#[test]
fn created_accounts_store_hashes_and_authenticate_with_plaintext_input() {
    let (mut store, admin_token) = bootstrapped();

    store
        .create_account(
            &admin_token,
            "User".to_string(),
            "user@example.com".to_string(),
            "user-pass".to_string(),
            AccountRole::User,
        )
        .expect("create user");
    store
        .create_account(
            &admin_token,
            "Admin".to_string(),
            "admin@example.com".to_string(),
            "admin-pass".to_string(),
            AccountRole::Admin,
        )
        .expect("create admin");
    store
        .create_account(
            &admin_token,
            "Second Super".to_string(),
            "second-super@example.com".to_string(),
            "second-super-pass".to_string(),
            AccountRole::SuperAdmin,
        )
        .expect("create second super admin");

    let user_account = store
        .accounts
        .iter()
        .find(|account| account.email == "user@example.com")
        .expect("user account");
    assert!(is_password_hash(&user_account.password_hash));
    assert_ne!(user_account.password_hash, "user-pass");
    assert!(verify_password("user-pass", &user_account.password_hash));

    assert!(store.login_user("user@example.com".to_string(), "user-pass".to_string()).is_ok());
    assert!(store.login_user("admin@example.com".to_string(), "admin-pass".to_string()).is_ok());
    assert!(store
        .login_user("second-super@example.com".to_string(), "second-super-pass".to_string())
        .is_ok());
    assert!(store.login_user("user@example.com".to_string(), "wrong-pass".to_string()).is_err());
    assert!(store
        .login_admin("second-super@example.com".to_string(), "second-super-pass".to_string())
        .is_ok());
}

#[test]
fn microsoft_user_login_creates_missing_user_account() {
    let mut store = Store::default();

    let user = store
        .login_or_create_user_with_microsoft(
            " Ada@Example.COM ".to_string(),
            Some("Ada Lovelace".to_string()),
        )
        .expect("create user from Microsoft login");

    assert_eq!(user.email, "ada@example.com");
    assert_eq!(user.name, "Ada Lovelace");
    assert!(store.user_identity(&user.token).is_some());

    let index = store.find_account_by_email("ada@example.com").expect("created account id");
    let account = &store.accounts[index];
    assert_eq!(account.role, AccountRole::User);
    assert_eq!(account.email, "ada@example.com");
    assert_eq!(account.name, "Ada Lovelace");
    assert!(is_password_hash(&account.password_hash));
}

#[test]
fn microsoft_user_login_reuses_existing_account() {
    let (mut store, admin_token) = bootstrapped();
    store
        .create_account(
            &admin_token,
            "Existing User".to_string(),
            "user@example.com".to_string(),
            "user-pass".to_string(),
            AccountRole::User,
        )
        .expect("create existing user");

    let user = store
        .login_or_create_user_with_microsoft(
            "user@example.com".to_string(),
            Some("Changed Name".to_string()),
        )
        .expect("login existing user from Microsoft");

    assert_eq!(user.name, "Existing User");
    assert_eq!(store.accounts.len(), 2);
}

#[test]
fn disabled_sign_in_methods_are_rejected() {
    let mut store = Store::default();
    store
        .bootstrap_super_admin(
            "Super Admin".to_string(),
            "super@example.com".to_string(),
            "super-pass".to_string(),
        )
        .expect("bootstrap super admin");
    store.site_settings.admin_password_sign_in_enabled = false;
    store.site_settings.admin_microsoft_sign_in_enabled = false;
    store.site_settings.user_password_sign_in_enabled = false;
    store.site_settings.user_microsoft_sign_in_enabled = false;

    assert_eq!(
        store
            .login_admin("super@example.com".to_string(), "super-pass".to_string())
            .expect_err("admin password disabled"),
        "admin password sign-in is disabled"
    );
    assert_eq!(
        store
            .login_admin_with_email("super@example.com".to_string())
            .expect_err("admin Microsoft disabled"),
        "admin Microsoft sign-in is disabled"
    );
    assert_eq!(
        store
            .login_user("super@example.com".to_string(), "super-pass".to_string())
            .expect_err("user password disabled"),
        "user password sign-in is disabled"
    );
    assert_eq!(
        store
            .login_or_create_user_with_microsoft(
                "user@example.com".to_string(),
                Some("User".to_string())
            )
            .expect_err("user Microsoft disabled"),
        "user Microsoft sign-in is disabled"
    );
}

#[test]
fn queues_get_join_codes_that_resolve_to_queue_ids() {
    let (mut store, admin_token) = bootstrapped();

    let queue_id = store
        .create_queue(&admin_token, "Support".to_string(), Vec::new(), true, false, None, None)
        .expect("create queue");
    let queue = queue(&store, queue_id);

    assert_eq!(queue.code.len(), 6);
    assert_eq!(store.queue_id_for_code(&queue.code), Some(queue_id));
    assert_eq!(store.queue_id_for_code(&queue.code.to_ascii_lowercase()), Some(queue_id));
    assert_eq!(queue.summary().code, queue.code);
}

#[test]
fn resolved_or_denied_entries_can_be_reopened_if_not_left() {
    let (mut store, admin_token) = bootstrapped();
    let queue_id = store
        .create_queue(&admin_token, "Support".to_string(), Vec::new(), true, false, None, None)
        .expect("create queue");

    store.join_queue(queue_id, TextMap::new(), None, None).expect("join queue");
    let entry_id = queue(&store, queue_id).entries[0].id;

    store
        .update_entry_status(&admin_token, entry_id, QueueEntryStatus::Resolved)
        .expect("resolve entry");
    store
        .update_entry_status(&admin_token, entry_id, QueueEntryStatus::Pending)
        .expect("reopen resolved entry");
    assert_eq!(queue(&store, queue_id).entries[0].status, QueueEntryStatus::Pending);
    assert_eq!(queue(&store, queue_id).entries[0].claimed_by, None);

    store
        .update_entry_status(&admin_token, entry_id, QueueEntryStatus::Denied)
        .expect("deny entry");
    store
        .update_entry_status(&admin_token, entry_id, QueueEntryStatus::Pending)
        .expect("reopen denied entry");
    assert_eq!(queue(&store, queue_id).entries[0].status, QueueEntryStatus::Pending);
}

#[test]
fn super_admin_cannot_demote_self() {
    let mut store = Store::default();
    store
        .bootstrap_super_admin(
            "Super Admin".to_string(),
            "super@example.com".to_string(),
            "super-pass".to_string(),
        )
        .expect("bootstrap super admin");
    let admin = store
        .login_admin("super@example.com".to_string(), "super-pass".to_string())
        .expect("login super admin");

    assert!(store
        .update_account(
            &admin.token,
            admin.account_id,
            "Super Admin".to_string(),
            "super@example.com".to_string(),
            None,
            AccountRole::Admin,
        )
        .is_err());
    assert_eq!(
        store
            .accounts
            .iter()
            .find(|account| account.id == admin.account_id)
            .map(|account| account.role),
        Some(AccountRole::SuperAdmin)
    );
}

#[test]
fn initial_setup_creates_exactly_one_super_admin() {
    let mut store = Store::default();
    assert!(store.needs_initial_setup());

    let admin = store
        .setup_initial_super_admin(
            "Super Admin".to_string(),
            "super@example.com".to_string(),
            "super-pass".to_string(),
        )
        .expect("setup super admin");

    assert_eq!(admin.email, "super@example.com");
    assert!(admin.is_super_admin);
    assert!(!store.needs_initial_setup());
    assert!(store
        .setup_initial_super_admin(
            "Other Admin".to_string(),
            "other@example.com".to_string(),
            "other-pass".to_string(),
        )
        .is_err());
}

#[test]
fn admin_group_sharing_grants_queue_visibility() {
    let (mut store, super_token) = bootstrapped();

    store
        .create_account(
            &super_token,
            "Queue Owner".to_string(),
            "owner@example.com".to_string(),
            "owner-pass".to_string(),
            AccountRole::Admin,
        )
        .expect("create owner");
    store
        .create_account(
            &super_token,
            "Shared Admin".to_string(),
            "shared@example.com".to_string(),
            "shared-pass".to_string(),
            AccountRole::Admin,
        )
        .expect("create shared admin");

    let owner = store
        .login_admin("owner@example.com".to_string(), "owner-pass".to_string())
        .expect("login owner");
    let shared = store
        .login_admin("shared@example.com".to_string(), "shared-pass".to_string())
        .expect("login shared admin");
    let shared_account_id = store.accounts
        [store.find_account_by_email("shared@example.com").expect("shared account id")]
    .id;

    let queue_id = store
        .create_queue(
            &owner.token,
            "Support".to_string(),
            vec![field("name", "Name", true)],
            true,
            false,
            None,
            None,
        )
        .expect("create queue");

    assert!(!store.admin_can_see_queue(&shared.token, queue_id));

    store
        .create_group(
            &super_token,
            "Support admins".to_string(),
            AccountRole::Admin,
            vec![shared_account_id],
        )
        .expect("create admin group");
    let group_id = store
        .groups
        .iter()
        .find(|group| group.name == "Support admins")
        .map(|group| group.id)
        .expect("group id");

    store
        .share_queue(&owner.token, queue_id, Vec::new(), vec![group_id])
        .expect("share queue with group");

    assert!(store.admin_can_see_queue(&shared.token, queue_id));
}

#[test]
fn closing_queue_archives_history_and_removes_active_access() {
    let (mut store, admin_token) = bootstrapped();

    let queue_id = store
        .create_queue(
            &admin_token,
            "Support".to_string(),
            vec![field("name", "Name", true)],
            true,
            false,
            None,
            None,
        )
        .expect("create queue");
    let mut values = TextMap::new();
    values.insert("name".to_string(), "Ada".to_string());
    let entry_token = store.join_queue(queue_id, values, None, None).expect("join queue");

    store.close_queue(&admin_token, queue_id).expect("close queue");

    assert!(!store.queues.iter().any(|queue| queue.id == queue_id));
    let (closed_queue, closed_entry) = store
        .user_view(queue_id, Some(&entry_token))
        .expect("closed queue remains visible to subscribed users");
    assert_eq!(closed_queue.id, queue_id);
    assert_eq!(closed_queue.closed_by_name.as_deref(), Some("Super Admin"));
    assert!(closed_queue.closed_at.is_some());
    assert_eq!(closed_entry.map(|entry| entry.status), Some(QueueEntryStatus::Pending));
    assert_eq!(
        store
            .archived_queues
            .iter()
            .find(|archive| archive.queue.id == queue_id)
            .map(|archive| archive.queue.entries.len()),
        Some(1)
    );
    let admin_state = store.admin_state(&admin_token, None).expect("admin archive state");
    let archived_queue = admin_state
        .archived_queues
        .iter()
        .find(|queue| queue.summary.id == queue_id)
        .expect("archived queue view");
    assert_eq!(archived_queue.fields.len(), 1);
    assert_eq!(archived_queue.entries.len(), 1);
    assert_eq!(archived_queue.entries[0].values.get("name").map(String::as_str), Some("Ada"));
}

fn two_users(store: &mut Store, admin_token: &str) -> (String, String) {
    store
        .create_account(
            admin_token,
            "Ada Lovelace".to_string(),
            "ada@example.com".to_string(),
            "ada-pass".to_string(),
            AccountRole::User,
        )
        .expect("create user");
    let user = store
        .login_user("ada@example.com".to_string(), "ada-pass".to_string())
        .expect("login user");
    store
        .create_account(
            admin_token,
            "Grace Hopper".to_string(),
            "grace@example.com".to_string(),
            "grace-pass".to_string(),
            AccountRole::User,
        )
        .expect("create second user");
    let second_user = store
        .login_user("grace@example.com".to_string(), "grace-pass".to_string())
        .expect("login second user");
    (user.token, second_user.token)
}

#[test]
fn signed_in_join_infers_optional_name_field() {
    let (mut store, admin_token) = bootstrapped();
    let (user_token, second_token) = two_users(&mut store, &admin_token);

    let queue_id = store
        .create_queue(
            &admin_token,
            "Support".to_string(),
            vec![field("name", "Name", false), field("subject", "Subject", true)],
            false,
            false,
            None,
            None,
        )
        .expect("create queue");
    let mut values = TextMap::new();
    values.insert("subject".to_string(), "Compiler help".to_string());

    store.join_queue(queue_id, values, Some(&user_token), None).expect("join queue");

    let entry = queue(&store, queue_id).entries.first().expect("queue entry");
    assert_eq!(entry.requester_label, "Ada Lovelace");
    assert_eq!(entry.values.get("name"), Some(&"Ada Lovelace".to_string()));
    assert_eq!(entry.values.get("subject"), Some(&"Compiler help".to_string()));

    let mut values = TextMap::new();
    values.insert("name".to_string(), "Grace H.".to_string());
    values.insert("subject".to_string(), "Borrow checker".to_string());
    store
        .join_queue(queue_id, values, Some(&second_token), None)
        .expect("join queue with custom name");

    let entry = queue(&store, queue_id).entries.get(1).expect("second queue entry");
    assert_eq!(entry.requester_label, "Grace H.");
    assert_eq!(entry.values.get("name"), Some(&"Grace H.".to_string()));
}

#[test]
fn signed_in_join_infers_full_name_field_variations() {
    let (mut store, admin_token) = bootstrapped();
    let (user_token, second_token) = two_users(&mut store, &admin_token);
    let queue_id = store
        .create_queue(
            &admin_token,
            "Support".to_string(),
            vec![field("", "Full Name.", true)],
            false,
            false,
            None,
            None,
        )
        .expect("create queue");

    store
        .join_queue(queue_id, TextMap::new(), Some(&user_token), None)
        .expect("join queue with inferred full name");
    let entry = queue(&store, queue_id).entries.first().expect("queue entry");
    assert_eq!(entry.requester_label, "Ada Lovelace");
    assert_eq!(entry.values.get("full_name"), Some(&"Ada Lovelace".to_string()));

    let mut values = TextMap::new();
    values.insert("full_name".to_string(), "Grace H.".to_string());
    store
        .join_queue(queue_id, values, Some(&second_token), None)
        .expect("join queue with custom full name");
    let entry = queue(&store, queue_id).entries.get(1).expect("second queue entry");
    assert_eq!(entry.requester_label, "Grace H.");
}

#[test]
fn queue_can_be_created_and_joined_without_fields() {
    let (mut store, admin_token) = bootstrapped();
    store
        .create_account(
            &admin_token,
            "Ada Lovelace".to_string(),
            "ada@example.com".to_string(),
            "ada-pass".to_string(),
            AccountRole::User,
        )
        .expect("create user");
    let user = store
        .login_user("ada@example.com".to_string(), "ada-pass".to_string())
        .expect("login user");

    let queue_id = store
        .create_queue(&admin_token, "Support".to_string(), Vec::new(), false, false, None, None)
        .expect("create queue");

    store.join_queue(queue_id, TextMap::new(), Some(&user.token), None).expect("join queue");

    let entry = queue(&store, queue_id).entries.first().expect("queue entry");
    assert_eq!(entry.requester_label, "Ada Lovelace");
    assert!(entry.values.is_empty());
}

#[test]
fn live_queue_settings_can_update_fields_and_guest_access() {
    let (mut store, admin_token) = bootstrapped();
    let queue_id = store
        .create_queue(
            &admin_token,
            "Support".to_string(),
            vec![field("subject", "Subject", true)],
            false,
            false,
            None,
            None,
        )
        .expect("create queue");

    store
        .update_queue_settings(
            &admin_token,
            queue_id,
            vec![field("topic", "Topic", false)],
            true,
            false,
            None,
            None,
        )
        .expect("update queue settings");

    let (queue_view, _) = store.user_view(queue_id, None).expect("user queue view");
    assert!(queue_view.allow_guests);
    assert_eq!(queue_view.fields[0].key, "topic");
    assert!(!queue_view.fields[0].required);

    store
        .join_queue(queue_id, TextMap::new(), None, None)
        .expect("guest can join with optional field empty");
}

#[test]
fn dropdown_field_options_are_normalized_and_enforced() {
    let (mut store, admin_token) = bootstrapped();
    let queue_id = store
        .create_queue(
            &admin_token,
            "Support".to_string(),
            vec![QueueField {
                key: "topic".to_string(),
                label: "Topic".to_string(),
                required: true,
                options: vec![
                    "Billing".to_string(),
                    " ".to_string(),
                    "Technical".to_string(),
                    "Billing".to_string(),
                ],
            }],
            true,
            false,
            None,
            None,
        )
        .expect("create queue");

    let (queue_view, _) = store.user_view(queue_id, None).expect("user queue view");
    assert_eq!(queue_view.fields[0].options, vec!["Billing".to_string(), "Technical".to_string()]);

    let mut values = TextMap::new();
    values.insert("topic".to_string(), "Other".to_string());
    let error = store
        .join_queue(queue_id, values, None, None)
        .expect_err("invalid dropdown option is rejected");
    assert!(error.contains("available options"));

    let mut values = TextMap::new();
    values.insert("topic".to_string(), "Technical".to_string());
    store.join_queue(queue_id, values, None, None).expect("valid dropdown option is accepted");
}

#[test]
fn public_queues_only_returns_public_active_queues() {
    let (mut store, admin_token) = bootstrapped();

    let private_queue_id = store
        .create_queue(&admin_token, "Private".to_string(), Vec::new(), true, false, None, None)
        .expect("create private queue");
    let public_queue_id = store
        .create_queue(&admin_token, "Public".to_string(), Vec::new(), true, true, None, None)
        .expect("create public queue");

    let queues = store.public_queues();
    assert_eq!(queues.len(), 1);
    assert_eq!(queues[0].id, public_queue_id);
    assert!(queues[0].is_public);

    store
        .update_queue_settings(&admin_token, private_queue_id, Vec::new(), true, true, None, None)
        .expect("make private queue public");
    let queues = store.public_queues();
    assert_eq!(queues.len(), 2);
    assert_eq!(queues[0].name, "Private");
    assert_eq!(queues[1].name, "Public");
}

#[test]
fn scheduled_queue_is_hidden_and_blocked_until_open() {
    let (mut store, admin_token) = bootstrapped();
    let opens_at = (Utc::now() + chrono::Duration::hours(1)).to_rfc3339();
    let queue_id = store
        .create_queue(
            &admin_token,
            "Scheduled".to_string(),
            Vec::new(),
            true,
            true,
            Some(opens_at.clone()),
            None,
        )
        .expect("create scheduled queue");

    assert!(store.public_queues().is_empty());
    assert!(store.user_view(queue_id, None).is_none());
    assert!(store.queue_unavailable_message(queue_id).is_some());
    let error = store
        .join_queue(queue_id, TextMap::new(), None, None)
        .expect_err("scheduled queue cannot be joined early");
    assert!(error.contains(&opens_at));

    let past_opens_at = (Utc::now() - chrono::Duration::minutes(1)).to_rfc3339();
    store
        .update_queue_settings(
            &admin_token,
            queue_id,
            Vec::new(),
            true,
            true,
            Some(past_opens_at),
            None,
        )
        .expect("open scheduled queue");

    assert_eq!(store.public_queues().len(), 1);
    assert!(store.user_view(queue_id, None).is_some());
    store
        .join_queue(queue_id, TextMap::new(), None, None)
        .expect("opened scheduled queue can be joined");
}

#[test]
fn weekly_scheduled_queue_reopens_on_schedule() {
    let (mut store, admin_token) = bootstrapped();
    let now = Utc::now();
    let weekday = now.weekday().num_days_from_sunday() as u8;
    let current_minute = (now.hour() * 60 + now.minute()) as u16;
    let future_minute = (current_minute + 1).min(23 * 60 + 59);

    let queue_id = store
        .create_queue(
            &admin_token,
            "Weekly".to_string(),
            Vec::new(),
            true,
            true,
            None,
            Some(WeeklySchedule { weekday, minute_of_day: future_minute }),
        )
        .expect("create weekly scheduled queue");

    if future_minute > current_minute {
        assert!(store.public_queues().is_empty());
        assert!(store.user_view(queue_id, None).is_none());
        let error = store
            .join_queue(queue_id, TextMap::new(), None, None)
            .expect_err("weekly queue cannot be joined before opening time");
        assert!(error.contains("weekly"));
    }

    store
        .update_queue_settings(
            &admin_token,
            queue_id,
            Vec::new(),
            true,
            true,
            None,
            Some(WeeklySchedule { weekday, minute_of_day: 0 }),
        )
        .expect("move weekly schedule to an already-open time");

    assert_eq!(store.public_queues().len(), 1);
    let (queue_view, _) = store.user_view(queue_id, None).expect("user queue view");
    assert_eq!(queue_view.weekly_schedule.expect("weekly schedule").weekday, weekday);
    store
        .join_queue(queue_id, TextMap::new(), None, None)
        .expect("weekly scheduled queue can be joined after opening time");
}

#[test]
fn guest_requester_label_is_always_guest() {
    let (mut store, admin_token) = bootstrapped();

    let queue_id = store
        .create_queue(
            &admin_token,
            "Support".to_string(),
            vec![field("account", "Account", true)],
            true,
            false,
            None,
            None,
        )
        .expect("create queue");
    let mut values = TextMap::new();
    values.insert("account".to_string(), "Ada".to_string());

    store.join_queue(queue_id, values, None, None).expect("join queue");

    let entry = queue(&store, queue_id).entries.first().expect("queue entry");
    assert_eq!(entry.requester_label, "Guest");
    assert_eq!(entry.values.get("account"), Some(&"Ada".to_string()));
}

#[test]
fn guest_rejoin_is_blocked_during_cooldown_then_creates_separate_request() {
    let (mut store, admin_token) = bootstrapped();
    let queue_id = store
        .create_queue(&admin_token, "Support".to_string(), Vec::new(), true, false, None, None)
        .expect("create queue");

    let entry_token =
        store.join_queue(queue_id, TextMap::new(), None, None).expect("guest joins queue");
    store.leave_queue(queue_id, &entry_token).expect("guest leaves queue");

    let (_, left_entry) =
        store.user_view(queue_id, Some(&entry_token)).expect("queue remains visible");
    let left_entry = left_entry.expect("left entry remains visible by token");
    assert_eq!(left_entry.status, QueueEntryStatus::Left);
    assert!(left_entry.rejoin_after.is_some());

    let error = store
        .join_queue(queue_id, TextMap::new(), None, Some(&entry_token))
        .expect_err("guest cannot immediately rejoin");
    assert!(error.contains("Please wait"));
    assert_eq!(queue(&store, queue_id).entries.len(), 1);

    let old_left_at = Utc::now() - chrono::Duration::seconds(lue::entries::REJOIN_COOLDOWN_SECS + 1);
    let queue_mut = store.queues.iter_mut().find(|queue| queue.id == queue_id).expect("queue");
    queue_mut.entries[0].left_at = Some(old_left_at.to_rfc3339());

    let new_token = store
        .join_queue(queue_id, TextMap::new(), None, Some(&entry_token))
        .expect("guest can rejoin after cooldown");
    assert_ne!(new_token, entry_token);

    let queue = queue(&store, queue_id);
    assert_eq!(queue.entries.len(), 2);
    assert_eq!(queue.entries[0].status, QueueEntryStatus::Left);
    assert_eq!(queue.entries[1].status, QueueEntryStatus::Pending);
}
