use lue::client::{
    admin_view, AdminView, admin_page_after_message, join_command, leave_command, queue_page_after_state, queue_page_rejoin, AdminPageAction,
    AdminPageState, AdminSection, EntryTokenAction, SocketStatus,
};
use lue::client::{
    backend_ws_url,
    handled_by_label, join_button_label, join_class, local_weekly_to_utc, member_names, parse_u8,
    role_from_value, role_label, role_value, set_uuid_selected, should_show_join_form,
    storage_key, table_dom_id, table_storage_key, user_status_label, utc_weekly_to_local,
    weekly_schedule_label, UserSessionRecord,
};
use lue::ids::{code_string, uuid_string};
use lue::model::{AccountRole, Queue, QueueEntryStatus, QueueField, TextMap, WeeklySchedule};
use lue::payload::{decode_url_payload, encode_url_payload, microsoft_auth_response};
use lue::protocol::{
    finish_command, AdminSubscription, ClientMessage, QueueSubscription, ServerMessage, Step,
};
use lue::render::rejoin_after_timestamp;
use lue::route::{query_value, Route};
use lue::sso::{
    microsoft_callback_check, profile_from_userinfo, AuthRequests, MicrosoftAuthKind,
    MicrosoftCallbackQuery, MicrosoftStartQuery,
};
use lue::store::Store;
use lue::text::{slugify, trim};
use lue::utils::{
    microsoft_account_name, normalize_email, normalize_fields, normalize_return_to,
    weekday_label,
};
use lue::views::{AccountView, AdminEntryView, UserEntryView};

fn text_map(pairs: &[(&str, &str)]) -> TextMap {
    let mut map = TextMap::new();
    for (k, v) in pairs {
        map.insert(k.to_string(), v.to_string());
    }
    map
}

fn field(key: &str, label: &str, required: bool) -> QueueField {
    QueueField { key: key.to_string(), label: label.to_string(), required, options: Vec::new() }
}

fn admin_store() -> (Store, String) {
    let mut store = Store::default();
    store
        .bootstrap_super_admin("Root".to_string(), "root@example.com".to_string(), "root-pass".to_string())
        .expect("bootstrap");
    let admin = store
        .login_admin("root@example.com".to_string(), "root-pass".to_string())
        .expect("login");
    (store, admin.token)
}

fn store_with_user_queue() -> (Store, String, u128, String) {
    let (mut store, admin) = admin_store();
    store
        .create_account(
            &admin,
            "Ann".to_string(),
            "ann@example.com".to_string(),
            "ann-pass".to_string(),
            AccountRole::User,
        )
        .expect("create user");
    let user = store.login_user("ann@example.com".to_string(), "ann-pass".to_string()).expect("login user");
    let queue_id = store
        .create_queue(&admin, "Help".to_string(), Vec::new(), true, true, None, None)
        .expect("create queue");
    (store, admin, queue_id, user.token)
}

fn entry_id(store: &Store, queue_id: u128, token: &str) -> u128 {
    let queue = store.queues.iter().find(|q| q.id == queue_id).expect("queue");
    queue.entries.iter().find(|e| e.token == token).expect("entry").id
}

fn entry_status(store: &Store, queue_id: u128, id: u128) -> QueueEntryStatus {
    let queue = store.queues.iter().find(|q| q.id == queue_id).expect("queue");
    queue.entries.iter().find(|e| e.id == id).expect("entry").status
}

fn user_entry(status: QueueEntryStatus, claimed_by: Option<&str>) -> UserEntryView {
    UserEntryView {
        id: 1,
        token: "t".to_string(),
        status,
        claimed_by: claimed_by.map(|s| s.to_string()),
        values: TextMap::new(),
        submitted_at: "2024-01-01T00:00:00+00:00".to_string(),
        left_at: None,
        rejoin_after: None,
        position: None,
        requester_label: "Guest".to_string(),
        is_guest: true,
    }
}

// ---------------------------------------------------------------------------
// Routes and addresses
// ---------------------------------------------------------------------------

#[test]
fn route_paths_read_back_as_the_same_page() {
    let pages = vec![
        Route::Home,
        Route::MicrosoftAuthComplete,
        Route::Admin { queue_id: None, request_id: None },
        Route::Admin { queue_id: Some("q1".to_string()), request_id: None },
        Route::Admin { queue_id: Some("q1".to_string()), request_id: Some("r9".to_string()) },
        Route::Queue { queue_id: "abc".to_string() },
    ];
    for page in pages {
        let path = page.path();
        let again = Route::from_path(&path);
        assert_eq!(again.path(), path);
    }
    assert_eq!(Route::Admin { queue_id: Some("q1".to_string()), request_id: Some("r9".to_string()) }.path(), "/admin/queue/q1/request/r9");
}

#[test]
fn unknown_paths_are_the_home_page() {
    assert!(matches!(Route::from_path("/nowhere"), Route::Home));
    assert!(matches!(Route::from_path("/queue/"), Route::Home));
    assert!(matches!(Route::from_path("/admin/queue/x/request/"), Route::Home));
    assert!(matches!(Route::from_path("admin/"), Route::Admin { queue_id: None, request_id: None }));
    match Route::from_path("/queue/XYZ/") {
        Route::Queue { queue_id } => assert_eq!(queue_id, "XYZ"),
        _ => panic!("expected a queue page"),
    }
}

#[test]
fn query_values_are_found_by_name() {
    assert_eq!(query_value("?kind=admin&return_to=/admin", "return_to"), Some("/admin".to_string()));
    assert_eq!(query_value("kind=admin", "kind"), Some("admin".to_string()));
    assert_eq!(query_value("?kind=admin", "missing"), None);
    assert_eq!(query_value("?flag&x=a=b", "x"), Some("a=b".to_string()));
}

#[test]
fn return_paths_stay_on_this_site() {
    assert_eq!(normalize_return_to("/admin".to_string()), "/admin");
    assert_eq!(normalize_return_to("//evil.example".to_string()), "/");
    assert_eq!(normalize_return_to("https://evil.example".to_string()), "/");
}

#[test]
fn url_payload_reads_back_what_was_written() {
    let text = "{\"token\":\"ä-ß\"}";
    let encoded = encode_url_payload(text);
    assert_ne!(encoded, text);
    assert!(!encoded.contains('='));
    assert_eq!(decode_url_payload(&encoded), Some(text.to_string()));
    assert_eq!(encode_url_payload("hi"), "aGk");
    assert_eq!(decode_url_payload("!!!"), None);
    assert_eq!(decode_url_payload("_w"), None);
}

// ---------------------------------------------------------------------------
// Small text helpers
// ---------------------------------------------------------------------------

#[test]
fn trim_removes_surrounding_whitespace() {
    assert_eq!(trim("  a b \n"), "a b");
    assert_eq!(trim(""), "");
    for t in ["\u{3000}x\u{85}", "\t\r\n", "a", " \u{2009}mid dle\u{a0} ", "\u{200b}z"] {
        assert_eq!(trim(t), t.trim());
    }
}

#[test]
fn slugify_keeps_letters_and_digits() {
    assert_eq!(slugify("Full Name!"), "full_name");
    assert_eq!(slugify("  Student ID "), "student_id");
    assert_eq!(slugify("a   b"), "a__b");
    assert_eq!(slugify("???"), "");
}

#[test]
fn join_codes_normalise_idempotently() {
    let once = Queue::normalize_code(" ab-c1 ");
    assert_eq!(once, "ABC1");
    assert_eq!(Queue::normalize_code(&once), once);
}

#[test]
fn emails_normalise_idempotently() {
    let once = normalize_email("  Ann@Example.COM ").expect("email");
    assert_eq!(once, "ann@example.com");
    assert_eq!(normalize_email(&once), Ok(once.clone()));
    assert_eq!(normalize_email("no-at-sign"), Err("a valid email is required".to_string()));
    assert_eq!(normalize_email("   "), Err("a valid email is required".to_string()));
}

#[test]
fn field_labels_are_required_and_keys_are_derived() {
    assert_eq!(
        normalize_fields(vec![field("", "  ", true)]).map(|_| ()),
        Err("field labels cannot be empty".to_string())
    );
    let fields = normalize_fields(vec![field("", " Student ID ", true)]).expect("fields");
    assert_eq!(fields.len(), 1);
    assert_eq!(fields[0].key, "student_id");
    assert_eq!(fields[0].label, "Student ID");
}

#[test]
fn microsoft_names_fall_back_to_the_email_local_part() {
    assert_eq!(microsoft_account_name(Some(" Ann Lee ".to_string()), "ann@example.com"), "Ann Lee");
    assert_eq!(microsoft_account_name(Some("  ".to_string()), "ann@example.com"), "ann");
    assert_eq!(microsoft_account_name(None, "plain"), "plain");
}

#[test]
fn weekday_labels_start_on_sunday() {
    assert_eq!(weekday_label(0), "Sunday");
    assert_eq!(weekday_label(6), "Saturday");
    assert_eq!(weekday_label(7), "Unknown");
}

#[test]
fn ids_render_as_uuid_text_and_codes() {
    let v: u128 = 0x0123_4567_89ab_cdef_0123_4567_89ab_cdef;
    assert_eq!(uuid_string(v), "01234567-89ab-cdef-0123-456789abcdef");
    assert_eq!(code_string(v), "012345");
    assert_eq!(uuid_string(v), uuid::Uuid::from_u128(v).to_string());
}

// ---------------------------------------------------------------------------
// Browser helpers
// ---------------------------------------------------------------------------

#[test]
fn roles_read_back_from_their_form_values() {
    for role in [AccountRole::SuperAdmin, AccountRole::Admin, AccountRole::User] {
        assert_eq!(role_from_value(role_value(&role)), role);
    }
    assert_eq!(role_from_value("something"), AccountRole::User);
    assert_eq!(role_label(&AccountRole::SuperAdmin), "Super Admin");
}

#[test]
fn weekly_schedules_round_trip_through_local_time() {
    let monday_nine = WeeklySchedule { weekday: 1, minute_of_day: 540 };
    let (day, time) = utc_weekly_to_local(Some(&monday_nine), 60);
    assert_eq!((day, time.as_str()), (1, "10:00"));
    assert_eq!(local_weekly_to_utc(day, &time, 60), Some(monday_nine));

    let sunday_early = WeeklySchedule { weekday: 0, minute_of_day: 30 };
    let (day, time) = utc_weekly_to_local(Some(&sunday_early), -60);
    assert_eq!((day, time.as_str()), (6, "23:30"));
    assert_eq!(local_weekly_to_utc(day, &time, -60), Some(sunday_early));

    assert_eq!(utc_weekly_to_local(None, 0), (1, "09:00".to_string()));
    assert_eq!(
        utc_weekly_to_local(Some(&WeeklySchedule { weekday: 9, minute_of_day: 0 }), 0),
        (1, "09:00".to_string())
    );
    assert_eq!(weekly_schedule_label(&monday_nine, 0), "Weekly on Monday at 09:00");
}

#[test]
fn local_weekly_times_are_checked() {
    assert_eq!(local_weekly_to_utc(7, "09:00", 0), None);
    assert_eq!(local_weekly_to_utc(1, "24:00", 0), None);
    assert_eq!(local_weekly_to_utc(1, "09:60", 0), None);
    assert_eq!(local_weekly_to_utc(1, "nine", 0), None);
    assert_eq!(local_weekly_to_utc(1, "09", 0), None);
    assert_eq!(local_weekly_to_utc(1, "9:5", 0), Some(WeeklySchedule { weekday: 1, minute_of_day: 545 }));
}

#[test]
fn parse_u8_reads_like_str_parse() {
    assert_eq!(parse_u8("255"), Some(255));
    assert_eq!(parse_u8("+7"), Some(7));
    assert_eq!(parse_u8("007"), Some(7));
    assert_eq!(parse_u8("256"), None);
    assert_eq!(parse_u8(""), None);
    assert_eq!(parse_u8("+"), None);
    assert_eq!(parse_u8("-1"), None);
    for s in ["0", "42", "199", "255", "300", "x1"] {
        assert_eq!(parse_u8(s), s.parse::<u8>().ok());
    }
}

#[test]
fn uuid_selection_adds_once_and_removes_all() {
    let mut ids: Vec<u128> = vec![1, 2];
    set_uuid_selected(&mut ids, 3, true);
    assert_eq!(ids, vec![1, 2, 3]);
    set_uuid_selected(&mut ids, 3, true);
    assert_eq!(ids, vec![1, 2, 3]);
    set_uuid_selected(&mut ids, 2, false);
    assert_eq!(ids, vec![1, 3]);
}

#[test]
fn member_names_list_known_members() {
    let accounts = vec![
        AccountView { id: 1, name: "Ann".to_string(), email: "a@x".to_string(), role: AccountRole::User },
        AccountView { id: 2, name: "Bob".to_string(), email: "b@x".to_string(), role: AccountRole::Admin },
    ];
    assert_eq!(member_names(&accounts, &vec![2, 9, 1]), "Bob, Ann");
    assert_eq!(member_names(&accounts, &vec![9]), "No members");
}

#[test]
fn labels_for_entries_and_sessions() {
    assert!(should_show_join_form(None));
    assert!(should_show_join_form(Some(user_entry(QueueEntryStatus::Resolved, None))));
    assert!(!should_show_join_form(Some(user_entry(QueueEntryStatus::Pending, None))));
    assert_eq!(user_status_label(&user_entry(QueueEntryStatus::Claimed, Some("Root"))), "Claimed by Root");
    assert_eq!(user_status_label(&user_entry(QueueEntryStatus::Pending, None)), "Pending");
    assert_eq!(join_button_label(None), "Join queue as a guest");
    let record = UserSessionRecord { token: "t".to_string(), name: "Ann".to_string(), email: "a@x".to_string() };
    assert_eq!(join_button_label(Some(record)), "Join queue as Ann");
    let admin_entry = AdminEntryView {
        id: 1,
        status: QueueEntryStatus::Pending,
        submitted_at: String::new(),
        claimed_by: None,
        requester_label: "Guest".to_string(),
        requester_email: None,
        is_guest: true,
        values: TextMap::new(),
    };
    assert_eq!(handled_by_label(&admin_entry), "Unassigned");
    assert_eq!(join_class("btn", Some("  ".to_string())), "btn");
    assert_eq!(join_class("btn", Some("wide".to_string())), "btn wide");
    assert_eq!(table_storage_key("queue"), "lue.table-widths.v3.queue");
    assert_eq!(table_dom_id("a b/c_d-e"), "lue-table-a-b-c_d-e");
    assert_eq!(storage_key(1), "queue-entry-token:00000000-0000-0000-0000-000000000001");
}

// ---------------------------------------------------------------------------
// Time
// ---------------------------------------------------------------------------

#[test]
fn rejoin_is_allowed_five_seconds_after_leaving() {
    assert_eq!(
        rejoin_after_timestamp(&Some("2024-01-01T00:00:00+00:00".to_string())),
        Some("2024-01-01T00:00:05+00:00".to_string())
    );
    assert_eq!(rejoin_after_timestamp(&None), None);
    assert_eq!(rejoin_after_timestamp(&Some("garbage".to_string())), None);
}

// ---------------------------------------------------------------------------
// Store laws on concrete values
// ---------------------------------------------------------------------------

#[test]
fn setup_is_refused_once_a_super_admin_exists() {
    let mut store = Store::default();
    assert!(store.needs_initial_setup());
    store
        .setup_initial_super_admin("Root".to_string(), "root@example.com".to_string(), "root-pass".to_string())
        .expect("setup");
    assert!(!store.needs_initial_setup());
    let second = store.setup_initial_super_admin(
        "Other".to_string(),
        "other@example.com".to_string(),
        "other-pass".to_string(),
    );
    assert_eq!(second.map(|_| ()), Err("initial setup is already complete".to_string()));
    let supers = store.accounts.iter().filter(|a| a.role == AccountRole::SuperAdmin).count();
    assert_eq!(supers, 1);
}

#[test]
fn setup_checks_its_inputs() {
    let mut store = Store::default();
    let r = store.setup_initial_super_admin(" ".to_string(), "root@example.com".to_string(), "root-pass".to_string());
    assert_eq!(r.map(|_| ()), Err("super admin name is required".to_string()));
    let r = store.setup_initial_super_admin("Root".to_string(), "root@example.com".to_string(), "  ".to_string());
    assert_eq!(r.map(|_| ()), Err("super admin password is required".to_string()));
    let r = store.setup_initial_super_admin("Root".to_string(), "root".to_string(), "root-pass".to_string());
    assert_eq!(r.map(|_| ()), Err("a valid email is required".to_string()));
    assert!(store.accounts.is_empty());
}

#[test]
fn logins_report_their_errors() {
    let (mut store, admin) = admin_store();
    assert_eq!(
        store.login_admin("root@example.com".to_string(), "wrong".to_string()).map(|_| ()),
        Err("invalid email or password".to_string())
    );
    store
        .create_account(&admin, "Ann".to_string(), "ann@example.com".to_string(), "ann-pass".to_string(), AccountRole::User)
        .expect("create");
    assert_eq!(
        store.login_admin("ann@example.com".to_string(), "ann-pass".to_string()).map(|_| ()),
        Err("this account does not have admin access".to_string())
    );
    assert_eq!(
        store
            .create_account(&admin, "Ann".to_string(), "ANN@example.com".to_string(), "ann-pass".to_string(), AccountRole::User)
            .map(|_| ()),
        Err("an account with that email already exists".to_string())
    );
    assert_eq!(
        store
            .create_account("nope", "Bo".to_string(), "bo@example.com".to_string(), "bo-pass".to_string(), AccountRole::User),
        Err("unknown admin session".to_string())
    );
}

#[test]
fn a_new_queue_is_found_by_its_code() {
    let (store, _admin, queue_id, _user) = store_with_user_queue();
    let queue = store.queues.iter().find(|q| q.id == queue_id).expect("queue");
    assert_eq!(queue.code.len(), 6);
    assert_eq!(store.queue_id_for_code(&queue.code.to_lowercase()), Some(queue_id));
    assert_eq!(store.queue_id_for_code("??????"), None);
}

#[test]
fn signed_in_join_again_keeps_one_open_request() {
    let (mut store, _admin, queue_id, user) = store_with_user_queue();
    let first = store.join_queue(queue_id, TextMap::new(), Some(&user), None).expect("join");
    let second = store.join_queue(queue_id, TextMap::new(), Some(&user), None).expect("join again");
    assert_eq!(first, second);
    let queue = store.queues.iter().find(|q| q.id == queue_id).expect("queue");
    assert_eq!(queue.entries.len(), 1);
    assert_eq!(queue.waiting_count(), 1);
}

#[test]
fn positions_are_distinct_and_in_range() {
    let (mut store, _admin, queue_id, _user) = store_with_user_queue();
    let mut tokens = Vec::new();
    for _ in 0..3 {
        tokens.push(store.join_queue(queue_id, TextMap::new(), None, None).expect("guest join"));
    }
    let queue = store.queues.iter().find(|q| q.id == queue_id).expect("queue");
    let positions: Vec<usize> = tokens
        .iter()
        .map(|t| queue.position_for(entry_id(&store, queue_id, t)).expect("position"))
        .collect();
    assert_eq!(positions, vec![1, 2, 3]);
    assert_eq!(queue.position_for(12345), None);
    assert_eq!(queue.summary().waiting_count, 3);
}

#[test]
fn unclaiming_undoes_a_claim() {
    let (mut store, admin, queue_id, _user) = store_with_user_queue();
    let token = store.join_queue(queue_id, TextMap::new(), None, None).expect("join");
    let id = entry_id(&store, queue_id, &token);
    assert_eq!(store.unclaim_entry(&admin, id), Err("only claimed requests can be unclaimed".to_string()));
    assert_eq!(store.claim_entry(&admin, id), Ok(queue_id));
    assert_eq!(entry_status(&store, queue_id, id), QueueEntryStatus::Claimed);
    assert_eq!(store.claim_entry(&admin, id), Err("only pending requests can be claimed".to_string()));
    assert_eq!(store.unclaim_entry(&admin, id), Ok(queue_id));
    assert_eq!(entry_status(&store, queue_id, id), QueueEntryStatus::Pending);
    let queue = store.queues.iter().find(|q| q.id == queue_id).expect("queue");
    assert_eq!(queue.entries[0].claimed_by, None);
    assert_eq!(store.claim_entry(&admin, 999), Err("queue entry not found".to_string()));
}

#[test]
fn status_changes_follow_the_allowed_transitions() {
    let (mut store, admin, queue_id, _user) = store_with_user_queue();
    let token = store.join_queue(queue_id, TextMap::new(), None, None).expect("join");
    let id = entry_id(&store, queue_id, &token);
    assert_eq!(
        store.update_entry_status(&admin, id, QueueEntryStatus::Left),
        Err("invalid status transition".to_string())
    );
    assert_eq!(store.update_entry_status(&admin, id, QueueEntryStatus::Resolved), Ok(queue_id));
    assert_eq!(entry_status(&store, queue_id, id), QueueEntryStatus::Resolved);
    assert_eq!(store.update_entry_status(&admin, id, QueueEntryStatus::Pending), Ok(queue_id));
    assert_eq!(entry_status(&store, queue_id, id), QueueEntryStatus::Pending);
}

#[test]
fn leaving_needs_the_entry_token() {
    let (mut store, _admin, queue_id, _user) = store_with_user_queue();
    let token = store.join_queue(queue_id, TextMap::new(), None, None).expect("join");
    assert_eq!(store.leave_queue(queue_id, "wrong"), Err("queue entry not found for leave request".to_string()));
    assert_eq!(store.leave_queue(queue_id, &token), Ok(()));
    let id = entry_id(&store, queue_id, &token);
    assert_eq!(entry_status(&store, queue_id, id), QueueEntryStatus::Left);
    assert_eq!(store.leave_queue(queue_id, &token), Err("queue entry is already closed".to_string()));
    assert_eq!(store.leave_queue(4242, &token), Err("queue not found".to_string()));
}

#[test]
fn guests_are_refused_where_the_queue_needs_an_account() {
    let (mut store, admin, queue_id, user) = store_with_user_queue();
    store
        .update_queue_settings(&admin, queue_id, Vec::new(), false, true, None, None)
        .expect("settings");
    assert_eq!(
        store.join_queue(queue_id, TextMap::new(), None, None),
        Err("this queue requires a user account".to_string())
    );
    assert!(store.join_queue(queue_id, TextMap::new(), Some(&user), None).is_ok());
    assert_eq!(
        store.join_queue(queue_id, TextMap::new(), Some("bad-token"), None),
        Err("unknown user session".to_string())
    );
}

#[test]
fn closing_a_queue_keeps_its_requests() {
    let (mut store, admin, queue_id, _user) = store_with_user_queue();
    store.join_queue(queue_id, text_map(&[("note", "hi")]), None, None).expect("join");
    store.close_queue(&admin, queue_id).expect("close");
    assert!(store.queues.iter().all(|q| q.id != queue_id));
    let archived = store.archived_queues.iter().find(|a| a.queue.id == queue_id).expect("archived");
    assert_eq!(archived.queue.entries.len(), 1);
    assert_eq!(archived.closed_by_name, "Root");
    assert_eq!(store.close_queue(&admin, queue_id), Err("queue not found".to_string()));
    let (view, entry) = store.user_view(queue_id, None).expect("closed view");
    assert!(view.closed_at.is_some());
    assert!(entry.is_none());
}

#[test]
fn deleting_an_account_removes_its_sessions_and_memberships() {
    let (mut store, admin, _queue_id, user) = store_with_user_queue();
    let ann = store.accounts.iter().find(|a| a.email == "ann@example.com").expect("ann").id;
    store.create_group(&admin, "Students".to_string(), AccountRole::User, vec![ann]).expect("group");
    assert!(store.user_identity(&user).is_some());
    store.delete_account(&admin, ann).expect("delete");
    assert!(store.accounts.iter().all(|a| a.id != ann));
    assert!(store.user_identity(&user).is_none());
    assert!(store.groups.iter().all(|g| !g.member_ids.contains(&ann)));
    assert_eq!(store.delete_account(&admin, ann), Err("account not found".to_string()));
    let root = store.accounts[0].id;
    assert_eq!(store.delete_account(&admin, root), Err("you cannot delete your own admin account".to_string()));
}

#[test]
fn groups_check_their_members_and_names() {
    let (mut store, admin, _queue_id, _user) = store_with_user_queue();
    let ann = store.accounts.iter().find(|a| a.email == "ann@example.com").expect("ann").id;
    assert_eq!(
        store.create_group(&admin, " ".to_string(), AccountRole::User, vec![]),
        Err("group name is required".to_string())
    );
    assert_eq!(
        store.create_group(&admin, "Staff".to_string(), AccountRole::SuperAdmin, vec![]),
        Err("groups can only be created for admins or users".to_string())
    );
    assert_eq!(
        store.create_group(&admin, "Staff".to_string(), AccountRole::Admin, vec![ann]),
        Err("group members must match the group role".to_string())
    );
    assert_eq!(
        store.create_group(&admin, "Staff".to_string(), AccountRole::Admin, vec![77]),
        Err("group member account not found".to_string())
    );
    assert_eq!(store.delete_group(&admin, 5), Err("group not found".to_string()));
}

#[test]
fn site_settings_are_checked_and_saved() {
    let (mut store, admin) = admin_store();
    assert_eq!(
        store.update_site_settings(&admin, "  ".to_string(), true, true, true, true),
        Err("site title is required".to_string())
    );
    assert_eq!(
        store.update_site_settings(&admin, "x".repeat(81), true, true, true, true),
        Err("site title must be 80 characters or fewer".to_string())
    );
    store.update_site_settings(&admin, " Help Desk ".to_string(), true, false, true, false).expect("save");
    let view = store.site_settings_view();
    assert_eq!(view.site_title, "Help Desk");
    assert!(!view.admin_microsoft_sign_in_enabled);
    assert!(view.user_password_sign_in_enabled);
}

#[test]
fn queue_settings_check_schedules() {
    let (mut store, admin, queue_id, _user) = store_with_user_queue();
    assert_eq!(
        store.update_queue_settings(&admin, queue_id, Vec::new(), true, true, None, Some(WeeklySchedule { weekday: 7, minute_of_day: 0 })),
        Err("weekly schedule day is invalid".to_string())
    );
    assert_eq!(
        store.update_queue_settings(&admin, queue_id, Vec::new(), true, true, None, Some(WeeklySchedule { weekday: 1, minute_of_day: 1440 })),
        Err("weekly schedule time is invalid".to_string())
    );
    assert_eq!(
        store.create_queue(&admin, "  ".to_string(), Vec::new(), true, true, None, None),
        Err("queue name is required".to_string())
    );
}

#[test]
fn new_codes_avoid_existing_ones() {
    let existing = vec!["ABCDEF".to_string()];
    let code = Queue::new_code(&existing).expect("code");
    assert_eq!(code.len(), 6);
    assert!(code.chars().all(|c| c.is_ascii_hexdigit() && !c.is_ascii_lowercase()));
    assert_ne!(code, "ABCDEF");
}

// ---------------------------------------------------------------------------
// Requests over the socket
// ---------------------------------------------------------------------------

#[test]
fn setup_over_the_socket_signs_the_admin_in() {
    let mut store = Store::default();
    let mut admin = AdminSubscription::default();
    let mut queue = QueueSubscription::default();
    match store.apply_command(ClientMessage::CheckSetup, &mut admin, &mut queue).1 {
        Ok(Step::Reply(msgs)) => {
            assert_eq!(msgs.len(), 1);
            assert!(matches!(msgs[0], ServerMessage::SetupState { needs_setup: true }));
        },
        _ => panic!("expected a reply"),
    }
    let cmd = ClientMessage::SetupSuperAdmin {
        name: "Root".to_string(),
        email: "root@example.com".to_string(),
        password: "root-pass".to_string(),
    };
    let (at, after) = match store.apply_command(cmd, &mut admin, &mut queue) {
        (at, Ok(Step::Save(after))) => (at, after),
        _ => panic!("expected a change to save"),
    };
    let outcome = finish_command(&store, after, at, &mut admin, &mut queue);
    assert_eq!(outcome.messages.len(), 2);
    assert!(matches!(outcome.messages[0], ServerMessage::AdminLoggedIn { .. }));
    assert!(matches!(outcome.messages[1], ServerMessage::AdminState { .. }));
    assert!(admin.admin_token.is_some());
    let refused = store
        .apply_command(
            ClientMessage::LoginAdmin { email: "root@example.com".to_string(), password: "bad".to_string() },
            &mut admin,
            &mut queue,
        )
        .1;
    assert_eq!(refused.map(|_| ()), Err("invalid email or password".to_string()));
}

// ---------------------------------------------------------------------------
// Microsoft sign-in
// ---------------------------------------------------------------------------

#[test]
fn microsoft_sign_in_state_is_used_once() {
    let store = Store::default();
    let mut requests = AuthRequests::new();
    let query = MicrosoftStartQuery { kind: Some(MicrosoftAuthKind::Admin), return_to: Some("//evil".to_string()) };
    assert_eq!(
        store.microsoft_start(false, query.clone(), &mut requests),
        Err("Microsoft SSO is not configured".to_string())
    );
    let state = store.microsoft_start(true, query, &mut requests).expect("start");
    assert_eq!(state.len(), 36);
    let callback = MicrosoftCallbackQuery {
        code: Some("the-code".to_string()),
        state: Some(state.clone()),
        error: None,
        error_description: None,
    };
    let (request, code) = microsoft_callback_check(&mut requests, true, callback.clone()).expect("callback");
    assert_eq!(request.kind, MicrosoftAuthKind::Admin);
    assert_eq!(request.return_to, "/");
    assert_eq!(code, "the-code");
    assert_eq!(
        microsoft_callback_check(&mut requests, true, callback).map(|_| ()),
        Err("Microsoft sign-in state expired or was invalid".to_string())
    );
    let failed = MicrosoftCallbackQuery {
        code: None,
        state: None,
        error: Some("access_denied".to_string()),
        error_description: None,
    };
    assert_eq!(
        microsoft_callback_check(&mut requests, true, failed).map(|_| ()),
        Err("Microsoft sign-in failed: access_denied".to_string())
    );
}

#[test]
fn microsoft_start_respects_disabled_methods() {
    let (mut store, admin) = admin_store();
    store.update_site_settings(&admin, "Lue".to_string(), true, true, true, false).expect("settings");
    let mut requests = AuthRequests::new();
    let query = MicrosoftStartQuery { kind: None, return_to: None };
    assert_eq!(
        store.microsoft_start(true, query, &mut requests),
        Err("user Microsoft sign-in is disabled".to_string())
    );
}

#[test]
fn microsoft_profiles_need_an_email() {
    let p = profile_from_userinfo(Some("Ann".to_string()), None, Some("ann@example.com".to_string())).expect("profile");
    assert_eq!(p.email, "ann@example.com");
    assert_eq!(
        profile_from_userinfo(None, None, None).map(|_| ()),
        Err("Microsoft profile did not include an email address".to_string())
    );
}

#[test]
fn websocket_address_follows_the_page_location() {
    assert_eq!(
        backend_ws_url(Some("http:"), Some("localhost"), Some("8080"), Some("localhost:8080")),
        "ws://localhost:3000/ws"
    );
    assert_eq!(
        backend_ws_url(Some("https:"), Some("lue.example"), Some(""), Some("lue.example")),
        "wss://lue.example/ws"
    );
    assert_eq!(backend_ws_url(None, None, None, None), "ws://127.0.0.1/ws");
    assert_eq!(
        backend_ws_url(Some("http:"), Some("127.0.0.1"), Some("9000"), Some("127.0.0.1:9000")),
        "ws://127.0.0.1:9000/ws"
    );
}

#[test]
fn microsoft_sign_in_answer_is_read_from_the_query() {
    let session = encode_url_payload("{\"kind\":\"user\"}");
    let back = encode_url_payload("/queue/ABC123");
    let search = format!("?session={session}&return_to={back}");
    let (bytes, return_to) = microsoft_auth_response(&search).expect("answer");
    assert_eq!(bytes, b"{\"kind\":\"user\"}".to_vec());
    assert_eq!(return_to, "/queue/ABC123");

    let (_, home) = microsoft_auth_response(&format!("?session={session}")).expect("answer");
    assert_eq!(home, "");

    let error = encode_url_payload("user Microsoft sign-in is disabled");
    assert_eq!(
        microsoft_auth_response(&format!("?error={error}")),
        Err("user Microsoft sign-in is disabled".to_string())
    );
    assert_eq!(
        microsoft_auth_response("?error=***"),
        Err("Microsoft sign-in failed. Please try again.".to_string())
    );
    assert_eq!(
        microsoft_auth_response("?return_to=Lw"),
        Err("Microsoft sign-in response did not include a session".to_string())
    );
    let bad = microsoft_auth_response("?session=***").expect_err("bad payload");
    assert!(bad.starts_with("invalid Microsoft session payload: "));
    assert!(bad.len() > "invalid Microsoft session payload: ".len());
}

#[test]
fn restoring_a_saved_store_gives_it_back() {
    let (mut store, admin, queue_id, user) = store_with_user_queue();
    store.join_queue(queue_id, text_map(&[("topic", "printer")]), Some(&user), None).expect("join");
    store.update_site_settings(&admin, "Desk".to_string(), true, true, true, true).expect("settings");
    let saved = store.clone().into_snapshot();
    let back = Store::from_snapshot(saved).expect("restore");
    assert_eq!(back.accounts.len(), store.accounts.len());
    for (a, b) in back.accounts.iter().zip(store.accounts.iter()) {
        assert_eq!((a.id, &a.email, &a.password_hash), (b.id, &b.email, &b.password_hash));
    }
    assert_eq!(back.queues.len(), 1);
    assert_eq!(back.queues[0].entries[0].values.get("topic"), Some(&"printer".to_string()));
    assert_eq!(back.admin_sessions.len(), store.admin_sessions.len());
    assert_eq!(back.user_sessions.len(), store.user_sessions.len());
    assert_eq!(back.site_settings_view().site_title, "Lue");
    assert!(back.admin_identity(&admin).is_some());
}

#[test]
fn account_ids_and_emails_stay_distinct() {
    let (mut store, admin, _queue_id, _user) = store_with_user_queue();
    store
        .create_account(&admin, "Bo".to_string(), "bo@example.com".to_string(), "bo-pass".to_string(), AccountRole::Admin)
        .expect("create");
    let bo = store.accounts.iter().find(|a| a.email == "bo@example.com").expect("bo").id;
    assert_eq!(
        store.update_account(&admin, bo, "Bo".to_string(), " ANN@example.com ".to_string(), None, AccountRole::Admin),
        Err("an account with that email already exists".to_string())
    );
    store
        .update_account(&admin, bo, "Bo".to_string(), "bo2@example.com".to_string(), None, AccountRole::Admin)
        .expect("rename email");
    store
        .login_or_create_user_with_microsoft("ann@example.com".to_string(), Some("Ann".to_string()))
        .expect("existing user");
    store
        .bootstrap_super_admin("Root".to_string(), "root@example.com".to_string(), "new-root-pass".to_string())
        .expect("bootstrap again");
    let mut ids: Vec<u128> = store.accounts.iter().map(|a| a.id).collect();
    let mut emails: Vec<String> = store.accounts.iter().map(|a| a.email.clone()).collect();
    ids.sort();
    ids.dedup();
    emails.sort();
    emails.dedup();
    assert_eq!(ids.len(), store.accounts.len());
    assert_eq!(emails.len(), store.accounts.len());
    assert_eq!(store.accounts.len(), 3);
}

#[test]
fn changed_passwords_are_stored_hashed_and_sign_in() {
    let (mut store, admin, _queue_id, _user) = store_with_user_queue();
    let ann = store.accounts.iter().find(|a| a.email == "ann@example.com").expect("ann").id;
    assert_eq!(
        store.update_account(&admin, ann, "Ann".to_string(), "ann@example.com".to_string(), Some(" abc ".to_string()), AccountRole::User),
        Err("password must be at least 4 characters".to_string())
    );
    store
        .update_account(&admin, ann, "Ann".to_string(), "ann@example.com".to_string(), Some(" new-pass ".to_string()), AccountRole::User)
        .expect("update");
    let stored = &store.accounts.iter().find(|a| a.id == ann).expect("ann").password_hash;
    assert!(lue::password::is_password_hash(stored));
    assert!(store.login_user("ann@example.com".to_string(), "new-pass".to_string()).is_ok());
    assert_eq!(
        store.login_user("ann@example.com".to_string(), "ann-pass".to_string()).map(|_| ()),
        Err("invalid email or password".to_string())
    );
    assert!(store.accounts.iter().all(|a| lue::password::is_password_hash(&a.password_hash)));
}

#[test]
fn guest_label_stays_guest_when_a_name_field_is_filled() {
    let (mut store, admin, queue_id, user) = store_with_user_queue();
    store
        .update_queue_settings(&admin, queue_id, vec![field("name", "Name", false)], true, true, None, None)
        .expect("settings");
    let token = store.join_queue(queue_id, text_map(&[("name", "Ada")]), None, None).expect("guest join");
    let queue = store.queues.iter().find(|q| q.id == queue_id).expect("queue");
    let entry = queue.entries.iter().find(|e| e.token == token).expect("entry");
    assert_eq!(entry.requester_label, "Guest");
    assert_eq!(entry.values.get("name"), Some(&"Ada".to_string()));
    let signed = store.join_queue(queue_id, text_map(&[("name", "Annie")]), Some(&user), None).expect("user join");
    let queue = store.queues.iter().find(|q| q.id == queue_id).expect("queue");
    let entry = queue.entries.iter().find(|e| e.token == signed).expect("entry");
    assert_eq!(entry.requester_label, "Annie");
}

#[test]
fn hashing_succeeds_and_other_strings_are_refused() {
    let first = lue::password::hash_password("").expect("empty password hashes");
    let second = lue::password::hash_password("pw").expect("hash");
    assert!(lue::password::is_password_hash(&first));
    assert!(!lue::password::verify_password("pass", "pass"));
    assert!(!lue::password::verify_password("pw", "$pbkdf2$x"));
    assert!(lue::password::verify_password("pw", &second));
}

fn queue_view(fields: Vec<QueueField>) -> lue::views::UserQueueView {
    lue::views::UserQueueView {
        id: 7,
        code: "ABC123".to_string(),
        name: "Help".to_string(),
        fields,
        allow_guests: true,
        opens_at: None,
        weekly_schedule: None,
        waiting_count: 0,
        closed_at: None,
        closed_by_name: None,
    }
}

fn blank_page() -> lue::client::QueuePageState {
    lue::client::QueuePageState {
        queue: None,
        your_entry: None,
        form_values: TextMap::new(),
        feedback: "Connecting".to_string(),
        connection: lue::client::SocketStatus::Connected,
    }
}

#[test]
fn dashboard_builds_required_fields_from_labels() {
    let labels = vec!["Full Name".to_string(), "Student ID".to_string()];
    match lue::client::create_queue_command("tok", "Help", &labels, true) {
        ClientMessage::CreateQueue { admin_token, name, fields, allow_guests, is_public, opens_at, weekly_schedule } => {
            assert_eq!((admin_token.as_str(), name.as_str(), allow_guests, is_public), ("tok", "Help", true, false));
            assert!(opens_at.is_none() && weekly_schedule.is_none());
            let keys: Vec<&str> = fields.iter().map(|f| f.key.as_str()).collect();
            assert_eq!(keys, vec!["full_name", "student_id"]);
            assert!(fields.iter().all(|f| f.required && f.options.is_empty()));
        },
        _ => panic!("expected a queue creation"),
    }
}

#[test]
fn queue_page_follows_updates() {
    let fields = vec![field("name", "Name", true), field("topic", "Topic", false)];
    let (page, action) = queue_page_after_state(blank_page(), queue_view(fields.clone()), None);
    assert!(matches!(action, EntryTokenAction::Clear));
    assert_eq!(page.form_values.get("name"), Some(&String::new()));
    assert_eq!(page.form_values.get("topic"), Some(&String::new()));
    assert_eq!(page.feedback, "");
    assert!(leave_command(&page).is_none());
    match join_command(&page, Some("user".to_string()), None) {
        Some(ClientMessage::JoinQueue { queue_id, user_token, entry_token, .. }) => {
            assert_eq!((queue_id, user_token, entry_token), (7, Some("user".to_string()), None));
        },
        _ => panic!("expected a join"),
    }

    let mut entry = user_entry(QueueEntryStatus::Pending, None);
    entry.values = text_map(&[("name", "Ada")]);
    let (page, action) = queue_page_after_state(page, queue_view(fields.clone()), Some(entry.clone()));
    assert!(matches!(action, EntryTokenAction::Save(ref t) if t == "t"));
    assert!(matches!(leave_command(&page), Some(ClientMessage::LeaveQueue { queue_id: 7, .. })));

    entry.status = QueueEntryStatus::Left;
    let (page, _) = queue_page_after_state(page, queue_view(fields.clone()), Some(entry.clone()));
    assert_eq!(page.form_values.get("name"), Some(&"Ada".to_string()));
    assert_eq!(page.form_values.get("topic"), Some(&String::new()));

    entry.status = QueueEntryStatus::Resolved;
    let (page, action) = queue_page_after_state(page, queue_view(fields), Some(entry));
    assert!(matches!(action, EntryTokenAction::Clear));
    let (page, cleared) = queue_page_rejoin(page);
    assert!(cleared);
    assert!(page.your_entry.is_none());
    assert_eq!(page.form_values.get("name"), Some(&"Ada".to_string()));
}

#[test]
fn dashboard_follows_server_messages() {
    let (mut store, admin, queue_id, _user) = store_with_user_queue();
    let ann = store.accounts.iter().find(|a| a.email == "ann@example.com").expect("ann").id;
    store.share_queue(&admin, queue_id, vec![], vec![]).expect("share");
    let page = AdminPageState {
        admin_state: None,
        feedback: "Connecting".to_string(),
        section: AdminSection::Accounts,
        share_account_ids: vec![ann],
        share_group_ids: vec![],
        connection: SocketStatus::Reconnecting,
    };
    let (page, action) = admin_page_after_message(page, ServerMessage::AccountCreated);
    assert_eq!(page.feedback, "Account created");
    assert!(matches!(action, AdminPageAction::Stay));
    let state = store.admin_state(&admin, Some(queue_id)).expect("state");
    let (page, _) = admin_page_after_message(page, ServerMessage::AdminState { state });
    assert!(page.admin_state.is_some());
    assert!(page.share_account_ids.is_empty());
    assert_eq!(page.feedback, "Account created");
    let (page, action) = admin_page_after_message(page, ServerMessage::QueueCreated { queue_id: 1 });
    assert_eq!(page.section, AdminSection::Queues);
    match action {
        AdminPageAction::Open(route) => assert_eq!(route.path(), "/admin/queue/00000000-0000-0000-0000-000000000001"),
        _ => panic!("expected to open the queue"),
    }
    let (page, _) = admin_page_after_message(page, ServerMessage::Error { message: "boom".to_string() });
    assert_eq!(page.feedback, "boom");
}

#[test]
fn sign_in_redirects_are_built_from_the_configuration() {
    use_url_builders();
}

fn use_url_builders() {
    assert_eq!(
        lue::sso::auth_error_url("http://localhost:8080/somewhere?x=1", "oops"),
        Ok("http://localhost:8080/auth/microsoft/complete?error=b29wcw".to_string())
    );
    let bad = lue::sso::auth_error_url("not a url", "oops").expect_err("bad base");
    assert!(bad.starts_with("invalid FRONTEND_BASE_URL: "));
    assert!(bad.len() > "invalid FRONTEND_BASE_URL: ".len());
    assert_eq!(
        lue::sso::auth_complete_url("http://localhost:8080", "/queue/ABC", "{}"),
        Ok(format!(
            "http://localhost:8080/auth/microsoft/complete?session={}&return_to={}",
            encode_url_payload("{}"),
            encode_url_payload("/queue/ABC")
        ))
    );
    assert_eq!(
        lue::sso::microsoft_authorize_url("common", "cid", "http://x/cb", "st"),
        Ok("https://login.microsoftonline.com/common/oauth2/v2.0/authorize?client_id=cid&response_type=code&redirect_uri=http%3A%2F%2Fx%2Fcb&response_mode=query&scope=openid+email+profile+User.Read&state=st".to_string())
    );
}

#[test]
fn new_codes_are_found_when_many_are_taken() {
    let existing: Vec<String> = (0..300u32).map(|k| format!("{:06X}", k)).collect();
    let code = Queue::new_code(&existing).expect("code");
    assert!(!existing.contains(&code));
}

#[test]
fn several_queues_can_be_created_and_listed() {
    let (mut store, admin) = admin_store();
    let private = store.create_queue(&admin, "Private".to_string(), Vec::new(), true, false, None, None).expect("first");
    let public = store.create_queue(&admin, "Public".to_string(), Vec::new(), true, true, None, None).expect("second");
    let listed = store.public_queues();
    assert_eq!(listed.len(), 1);
    assert_eq!(listed[0].id, public);
    store.update_queue_settings(&admin, private, Vec::new(), true, true, None, None).expect("settings");
    let names: Vec<String> = store.public_queues().into_iter().map(|q| q.name).collect();
    assert_eq!(names, vec!["Private".to_string(), "Public".to_string()]);
}

#[test]
fn dashboard_chooses_its_page() {
    assert_eq!(admin_view(AdminSection::Accounts, false, false, false, false, false), AdminView::AccountsSuperAdminOnly);
    assert_eq!(admin_view(AdminSection::Accounts, true, false, false, false, false), AdminView::Accounts);
    assert_eq!(admin_view(AdminSection::NewQueue, true, true, false, false, false), AdminView::QueueNotFound);
    assert_eq!(admin_view(AdminSection::NewQueue, true, true, false, true, false), AdminView::QueueRequests);
    assert_eq!(admin_view(AdminSection::NewQueue, true, true, true, true, false), AdminView::RequestNotFound);
    assert_eq!(admin_view(AdminSection::NewQueue, true, true, true, true, true), AdminView::RequestDetail);
}
