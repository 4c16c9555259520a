//! What the browser client decides on its own: labels, roles, drafts,
//! selections and page paths.
use vstd::prelude::*;
use crate::ids::uuid_string;
use crate::model::{opt_text, AccountRole, QueueEntryStatus};
use crate::text::{code_of, concat, normalize_code, owned};
use crate::utils::{weekday_label, weekday_text};
use crate::views::{AccountView, AccountViewModel, AdminEntryView, AdminQueueListItem, AdminStateView, GroupView, UserEntryView};
use crate::dashboard::{account_views_model, group_views_model};
use crate::entries::opt_str;
use crate::model::{GroupModel, WeeklySchedule};
use crate::text::{decimal, digit_char, is_digit, push_two_digits, two_digits};
use crate::route::{split_on, split_text};
use crate::model::{fields_model, FieldModel, QueueField, TextMap};
use crate::protocol::{ClientMessage, ServerMessage};
use crate::route::Route;
use crate::text::{slug, slugify};
use crate::views::UserQueueView;

verus! {

// ---------------------------------------------------------------------------
// Request status
// ---------------------------------------------------------------------------

pub open spec fn status_text(status: QueueEntryStatus) -> Seq<char> {
    match status {
        QueueEntryStatus::Pending => "Pending"@,
        QueueEntryStatus::Claimed => "Claimed"@,
        QueueEntryStatus::Left => "Left"@,
        QueueEntryStatus::Resolved => "Resolved"@,
        QueueEntryStatus::Denied => "Denied"@,
    }
}

/// The word shown for a status.
pub fn status_label(status: &QueueEntryStatus) -> (r: &'static str)
    ensures
        r@ == status_text(*status),
{
    match status {
        QueueEntryStatus::Pending => "Pending",
        QueueEntryStatus::Claimed => "Claimed",
        QueueEntryStatus::Left => "Left",
        QueueEntryStatus::Resolved => "Resolved",
        QueueEntryStatus::Denied => "Denied",
    }
}

/// The badge style of a status.
pub fn status_class(status: &QueueEntryStatus) -> (r: &'static str)
    ensures
        r@ == match *status {
            QueueEntryStatus::Pending => "badge badge-pending"@,
            QueueEntryStatus::Claimed => "badge badge-claimed"@,
            QueueEntryStatus::Left => "badge badge-left"@,
            QueueEntryStatus::Resolved => "badge badge-resolved"@,
            QueueEntryStatus::Denied => "badge badge-denied"@,
        },
{
    match status {
        QueueEntryStatus::Pending => "badge badge-pending",
        QueueEntryStatus::Claimed => "badge badge-claimed",
        QueueEntryStatus::Left => "badge badge-left",
        QueueEntryStatus::Resolved => "badge badge-resolved",
        QueueEntryStatus::Denied => "badge badge-denied",
    }
}

/// The background style of a status.
pub fn status_class_suffix(status: &QueueEntryStatus) -> (r: &'static str)
    ensures
        r@ == match *status {
            QueueEntryStatus::Pending => "pending-bg"@,
            QueueEntryStatus::Claimed => "claimed-bg"@,
            QueueEntryStatus::Left => "left-bg"@,
            QueueEntryStatus::Resolved => "resolved-bg"@,
            QueueEntryStatus::Denied => "denied-bg"@,
        },
{
    match status {
        QueueEntryStatus::Pending => "pending-bg",
        QueueEntryStatus::Claimed => "claimed-bg",
        QueueEntryStatus::Left => "left-bg",
        QueueEntryStatus::Resolved => "resolved-bg",
        QueueEntryStatus::Denied => "denied-bg",
    }
}

/// Who handles a request, as the admin sees it.
pub fn handled_by_label(entry: &AdminEntryView) -> (r: String)
    ensures
        r@ == match opt_text(entry.claimed_by) {
            Some(n) => n,
            None => "Unassigned"@,
        },
{
    match &entry.claimed_by {
        Some(n) => n.clone(),
        None => owned("Unassigned"),
    }
}

/// The join form shows unless the requester has an open request.
pub fn should_show_join_form(entry: Option<UserEntryView>) -> (r: bool)
    ensures
        r == match entry {
            Some(e) => e.status == QueueEntryStatus::Left || e.status == QueueEntryStatus::Resolved
                || e.status == QueueEntryStatus::Denied,
            None => true,
        },
{
    match entry {
        Some(e) => e.status == QueueEntryStatus::Left || e.status == QueueEntryStatus::Resolved
            || e.status == QueueEntryStatus::Denied,
        None => true,
    }
}

/// The status line a requester sees for their request.
pub fn user_status_label(entry: &UserEntryView) -> (r: String)
    ensures
        r@ == match (entry.status, opt_text(entry.claimed_by)) {
            (QueueEntryStatus::Claimed, Some(n)) => "Claimed by "@ + n,
            (QueueEntryStatus::Resolved, Some(n)) => "Resolved by "@ + n,
            (QueueEntryStatus::Denied, Some(n)) => "Denied by "@ + n,
            _ => status_text(entry.status),
        },
{
    match (&entry.status, &entry.claimed_by) {
        (QueueEntryStatus::Claimed, Some(n)) => concat("Claimed by ", n.as_str()),
        (QueueEntryStatus::Resolved, Some(n)) => concat("Resolved by ", n.as_str()),
        (QueueEntryStatus::Denied, Some(n)) => concat("Denied by ", n.as_str()),
        _ => owned(status_label(&entry.status)),
    }
}

// ---------------------------------------------------------------------------
// Stored sessions and drafts
// ---------------------------------------------------------------------------

/// The admin session the browser keeps.
#[derive(Clone, Debug)]
pub struct AdminSessionRecord {
    pub token: String,
    pub name: String,
    pub email: String,
    pub is_super_admin: bool,
}

/// The user session the browser keeps.
#[derive(Clone, Debug)]
pub struct UserSessionRecord {
    pub token: String,
    pub name: String,
    pub email: String,
}

/// The label of the join button.
pub fn join_button_label(user_session: Option<UserSessionRecord>) -> (r: String)
    ensures
        r@ == match user_session {
            Some(s) => "Join queue as "@ + s.name@,
            None => "Join queue as a guest"@,
        },
{
    match user_session {
        Some(s) => concat("Join queue as ", s.name.as_str()),
        None => owned("Join queue as a guest"),
    }
}

/// A field being edited in the queue form.
#[derive(Clone, Debug)]
pub struct EditableField {
    pub label: String,
}

impl EditableField {
    pub fn new(label: &str) -> (r: EditableField)
        ensures
            r.label@ == label@,
    {
        EditableField { label: owned(label) }
    }
}

/// An account being written in the accounts form.
#[derive(Clone, Debug)]
pub struct AccountDraft {
    pub name: String,
    pub email: String,
    pub password: String,
    pub role: AccountRole,
}

impl Default for AccountDraft {
    /// A blank user account.
    fn default() -> (r: AccountDraft)
        ensures
            r.name@.len() == 0 && r.email@.len() == 0 && r.password@.len() == 0 && r.role
                == AccountRole::User,
    {
        AccountDraft { name: String::new(), email: String::new(), password: String::new(), role: AccountRole::User }
    }
}

/// A group being written in the groups form.
#[derive(Clone, Debug)]
pub struct GroupDraft {
    pub name: String,
    pub role: AccountRole,
    pub member_ids: Vec<u128>,
}

impl Default for GroupDraft {
    /// A blank admin group.
    fn default() -> (r: GroupDraft)
        ensures
            r.name@.len() == 0 && r.role == AccountRole::Admin && r.member_ids@.len() == 0,
    {
        GroupDraft { name: String::new(), role: AccountRole::Admin, member_ids: Vec::new() }
    }
}

// ---------------------------------------------------------------------------
// Roles
// ---------------------------------------------------------------------------

pub open spec fn role_text(role: AccountRole) -> Seq<char> {
    match role {
        AccountRole::SuperAdmin => "super_admin"@,
        AccountRole::Admin => "admin"@,
        AccountRole::User => "user"@,
    }
}

/// The form value of a role.
pub fn role_value(role: &AccountRole) -> (r: &'static str)
    ensures
        r@ == role_text(*role),
{
    match role {
        AccountRole::SuperAdmin => "super_admin",
        AccountRole::Admin => "admin",
        AccountRole::User => "user",
    }
}

pub open spec fn role_of_text(value: Seq<char>) -> AccountRole {
    if value == "super_admin"@ {
        AccountRole::SuperAdmin
    } else if value == "admin"@ {
        AccountRole::Admin
    } else {
        AccountRole::User
    }
}

/// The role a form value names; anything unknown is a user.
pub fn role_from_value(value: &str) -> (r: AccountRole)
    ensures
        r == role_of_text(value@),
{
    if crate::text::text_eq(value, "super_admin") {
        AccountRole::SuperAdmin
    } else if crate::text::text_eq(value, "admin") {
        AccountRole::Admin
    } else {
        AccountRole::User
    }
}

/// The name shown for a role.
pub fn role_label(role: &AccountRole) -> (r: &'static str)
    ensures
        r@ == match *role {
            AccountRole::SuperAdmin => "Super Admin"@,
            AccountRole::Admin => "Admin"@,
            AccountRole::User => "User"@,
        },
{
    match role {
        AccountRole::SuperAdmin => "Super Admin",
        AccountRole::Admin => "Admin",
        AccountRole::User => "User",
    }
}

/// A role's form value reads back as the same role.
pub proof fn law_role_value_round_trip(role: AccountRole)
    ensures
        role_of_text(role_text(role)) == role,
{
    reveal_strlit("super_admin");
    reveal_strlit("admin");
    reveal_strlit("user");
    assert("super_admin"@.len() == 11);
    assert("admin"@.len() == 5);
    assert("user"@.len() == 4);
    assert("admin"@ != "super_admin"@);
    assert("user"@ != "super_admin"@);
    assert("user"@ != "admin"@);
}

// ---------------------------------------------------------------------------
// Small texts
// ---------------------------------------------------------------------------

/// The day of the week shown for a weekday number, Sunday first.
pub fn weekday_name(weekday: u8) -> (r: &'static str)
    ensures
        r@ == weekday_text(weekday),
{
    weekday_label(weekday)
}

/// A join code as typed, normalised.
pub fn normalized_queue_code(value: &str) -> (r: String)
    ensures
        r@ == code_of(value@),
{
    normalize_code(value)
}

/// A base style with an optional extra one that is not blank.
pub fn join_class(base: &str, extra: Option<String>) -> (r: String)
    ensures
        r@ == match extra {
            Some(x) if crate::text::trimmed(x@).len() > 0 => base@ + " "@ + x@,
            _ => base@,
        },
{
    match extra {
        Some(x) => {
            let t = crate::text::trim(x.as_str());
            if t.as_str().unicode_len() > 0 {
                let mut r = owned(base);
                r.append(" ");
                r.append(x.as_str());
                r
            } else {
                owned(base)
            }
        },
        None => owned(base),
    }
}

/// Where the browser keeps column widths of a table.
pub fn table_storage_key(table_id: &str) -> (r: String)
    ensures
        r@ == "lue.table-widths.v3."@ + table_id@,
{
    concat("lue.table-widths.v3.", table_id)
}

pub open spec fn dom_char(c: char) -> char {
    if crate::text::is_alnum(c) || c == '-' || c == '_' {
        c
    } else {
        '-'
    }
}

/// The element id of a table: other characters than letters, digits, `-`
/// and `_` become `-`.
pub fn table_dom_id(table_id: &str) -> (r: String)
    ensures
        r@ == "lue-table-"@ + table_id@.map_values(|c: char| dom_char(c)),
{
    let n = table_id.unicode_len();
    let mut r = owned("lue-table-");
    let ghost prefix = r@;
    let mut i: usize = 0;
    while i < n
        invariant
            n == table_id@.len(),
            i <= n,
            r@ == prefix + table_id@.take(i as int).map_values(|c: char| dom_char(c)),
        decreases n - i,
    {
        let c = table_id.get_char(i);
        let d = if crate::text::is_alnum_char(c) || c == '-' || c == '_' {
            c
        } else {
            '-'
        };
        r.push(d);
        assert(table_id@.take(i + 1).map_values(|c: char| dom_char(c)) =~= table_id@.take(
            i as int,
        ).map_values(|c: char| dom_char(c)).push(d));
        i = i + 1;
    }
    assert(table_id@.take(n as int) =~= table_id@);
    r
}

/// Where the browser keeps the entry token of a queue.
pub fn storage_key(queue_id: u128) -> (r: String)
    ensures
        r@ == "queue-entry-token:"@ + crate::ids::uuid_text(queue_id),
{
    let id = uuid_string(queue_id);
    concat("queue-entry-token:", id.as_str())
}

/// The port the server listens on beside a local development page.
pub const WS_BACKEND_PORT: &'static str = "3000";

/// The address of the server's websocket for a page served from the given
/// location: `wss` on an HTTPS page; the server's port beside a local
/// development page on port 8080; otherwise the page's own host.
pub open spec fn ws_url_of(
    protocol: Option<Seq<char>>,
    hostname: Option<Seq<char>>,
    port: Option<Seq<char>>,
    host: Option<Seq<char>>,
) -> Seq<char> {
    let scheme = if protocol == Some("https:"@) {
        "wss"@
    } else {
        "ws"@
    };
    let name = match hostname {
        Some(h) => if h.len() > 0 {
            h
        } else {
            "127.0.0.1"@
        },
        None => "127.0.0.1"@,
    };
    let p = match port {
        Some(x) => x,
        None => Seq::empty(),
    };
    let h = if (name == "127.0.0.1"@ || name == "localhost"@) && p == "8080"@ {
        name + ":"@ + WS_BACKEND_PORT@
    } else {
        match host {
            Some(x) => if x.len() > 0 {
                x
            } else {
                name
            },
            None => name,
        }
    };
    scheme + "://"@ + h + "/ws"@
}

/// The websocket address for the page's location, as the browser reports
/// its protocol, host name, port and host.
pub fn backend_ws_url(protocol: Option<&str>, hostname: Option<&str>, port: Option<&str>, host: Option<&str>) -> (r:
    String)
    ensures
        r@ == ws_url_of(opt_str(protocol), opt_str(hostname), opt_str(port), opt_str(host)),
{
    let secure = match protocol {
        Some(p) => crate::text::text_eq(p, "https:"),
        None => false,
    };
    let name: &str = match hostname {
        Some(h) => if h.unicode_len() > 0 {
            h
        } else {
            "127.0.0.1"
        },
        None => "127.0.0.1",
    };
    let local = crate::text::text_eq(name, "127.0.0.1") || crate::text::text_eq(name, "localhost");
    let dev_port = match port {
        Some(x) => crate::text::text_eq(x, "8080"),
        None => false,
    };
    proof {
        reveal_strlit("8080");
        assert("8080"@.len() == 4);
        assert(Seq::<char>::empty().len() == 0);
    }
    let h = if local && dev_port {
        let mut t = owned(name);
        t.append(":");
        t.append(WS_BACKEND_PORT);
        t
    } else {
        match host {
            Some(x) => if x.unicode_len() > 0 {
                owned(x)
            } else {
                owned(name)
            },
            None => owned(name),
        }
    };
    let mut r = if secure {
        owned("wss")
    } else {
        owned("ws")
    };
    r.append("://");
    r.append(h.as_str());
    r.append("/ws");
    r
}

/// The state of the connection to the server.
#[derive(Clone, Copy, Debug, PartialEq, Eq, Structural)]
pub enum SocketStatus {
    Connecting,
    Connected,
    Reconnecting,
}

/// The style of the connection indicator.
pub fn connection_class(status: SocketStatus) -> (r: &'static str)
    ensures
        r@ == match status {
            SocketStatus::Connected => "connection-live"@,
            SocketStatus::Connecting => "connection-connecting"@,
            SocketStatus::Reconnecting => "connection-reconnecting"@,
        },
{
    match status {
        SocketStatus::Connected => "connection-live",
        SocketStatus::Connecting => "connection-connecting",
        SocketStatus::Reconnecting => "connection-reconnecting",
    }
}

/// The sections of the admin dashboard.
#[derive(Clone, Copy, Debug, PartialEq, Eq, Structural)]
pub enum AdminSection {
    Queues,
    ClosedQueues,
    NewQueue,
    Accounts,
}

/// The style of a dashboard navigation button.
pub fn nav_button_class(active: AdminSection, target: AdminSection) -> (r: &'static str)
    ensures
        r@ == if active == target {
            "admin-nav-button admin-nav-button-active"@
        } else {
            "admin-nav-button"@
        },
{
    if active == target {
        "admin-nav-button admin-nav-button-active"
    } else {
        "admin-nav-button"
    }
}

// ---------------------------------------------------------------------------
// Dashboard lists
// ---------------------------------------------------------------------------

pub open spec fn waiting_sum(qs: Seq<AdminQueueListItem>) -> int
    decreases qs.len(),
{
    if qs.len() == 0 {
        0
    } else {
        waiting_sum(qs.drop_last()) + qs.last().summary.waiting_count
    }
}

pub open spec fn active_sum(qs: Seq<AdminQueueListItem>) -> int
    decreases qs.len(),
{
    if qs.len() == 0 {
        0
    } else {
        active_sum(qs.drop_last()) + qs.last().summary.active_count
    }
}

proof fn lemma_sums_monotone(qs: Seq<AdminQueueListItem>, i: int)
    requires
        0 <= i <= qs.len(),
    ensures
        0 <= waiting_sum(qs.take(i)) <= waiting_sum(qs),
        0 <= active_sum(qs.take(i)) <= active_sum(qs),
    decreases qs.len() - i,
{
    if i < qs.len() {
        lemma_sums_monotone(qs.drop_last(), i);
        assert(qs.drop_last().take(i) =~= qs.take(i));
        lemma_sums_nonneg(qs.drop_last());
    } else {
        assert(qs.take(i) =~= qs);
        lemma_sums_nonneg(qs);
    }
}

proof fn lemma_sums_nonneg(qs: Seq<AdminQueueListItem>)
    ensures
        waiting_sum(qs) >= 0,
        active_sum(qs) >= 0,
    decreases qs.len(),
{
    if qs.len() > 0 {
        lemma_sums_nonneg(qs.drop_last());
    }
}

/// How many requests wait over all listed queues.
pub fn total_waiting(state: &AdminStateView) -> (r: usize)
    requires
        waiting_sum(state.queues@) <= usize::MAX,
    ensures
        r == waiting_sum(state.queues@),
{
    let qs = &state.queues;
    let mut total: usize = 0;
    let mut i: usize = 0;
    while i < qs.len()
        invariant
            i <= qs@.len(),
            total == waiting_sum(qs@.take(i as int)),
            waiting_sum(qs@) <= usize::MAX,
        decreases qs@.len() - i,
    {
        assert(qs@.take(i + 1).drop_last() =~= qs@.take(i as int));
        proof {
            lemma_sums_monotone(qs@, i + 1);
        }
        total = total + qs[i].summary.waiting_count;
        i = i + 1;
    }
    assert(qs@.take(i as int) =~= qs@);
    total
}

/// How many requests are open over all listed queues.
pub fn total_active(state: &AdminStateView) -> (r: usize)
    requires
        active_sum(state.queues@) <= usize::MAX,
    ensures
        r == active_sum(state.queues@),
{
    let qs = &state.queues;
    let mut total: usize = 0;
    let mut i: usize = 0;
    while i < qs.len()
        invariant
            i <= qs@.len(),
            total == active_sum(qs@.take(i as int)),
            active_sum(qs@) <= usize::MAX,
        decreases qs@.len() - i,
    {
        assert(qs@.take(i + 1).drop_last() =~= qs@.take(i as int));
        proof {
            lemma_sums_monotone(qs@, i + 1);
        }
        total = total + qs[i].summary.active_count;
        i = i + 1;
    }
    assert(qs@.take(i as int) =~= qs@);
    total
}

fn copy_account_view(a: &AccountView) -> (r: AccountView)
    ensures
        r@ == a@,
{
    AccountView { id: a.id, name: a.name.clone(), email: a.email.clone(), role: a.role }
}

/// The accounts that may join a group of the role: admins and super admins
/// for an admin group, any account for a user group.
pub open spec fn fits_group(role: AccountRole) -> spec_fn(AccountViewModel) -> bool {
    |a: AccountViewModel| match role {
        AccountRole::Admin => a.role == AccountRole::Admin || a.role == AccountRole::SuperAdmin,
        AccountRole::User => true,
        AccountRole::SuperAdmin => false,
    }
}

pub fn accounts_for_group(accounts: &Vec<AccountView>, role: &AccountRole) -> (r: Vec<AccountView>)
    ensures
        account_views_model(r@) == account_views_model(accounts@).filter(fits_group(*role)),
{
    let ghost src = account_views_model(accounts@);
    let ghost f = fits_group(*role);
    let mut out: Vec<AccountView> = Vec::new();
    let mut i: usize = 0;
    while i < accounts.len()
        invariant
            src == account_views_model(accounts@),
            f == fits_group(*role),
            i <= accounts@.len(),
            account_views_model(out@) == src.take(i as int).filter(f),
        decreases accounts@.len() - i,
    {
        proof {
            assert(src.take(i + 1) =~= src.take(i as int).push(src[i as int]));
            src.take(i as int).lemma_filter_push(src[i as int], f);
        }
        let a = &accounts[i];
        let keep = match role {
            AccountRole::Admin => a.role == AccountRole::Admin || a.role == AccountRole::SuperAdmin,
            AccountRole::User => true,
            AccountRole::SuperAdmin => false,
        };
        if keep {
            let ghost before = out@;
            out.push(copy_account_view(a));
            assert(account_views_model(out@) =~= account_views_model(before).push(src[i as int]));
        }
        i = i + 1;
    }
    assert(src.take(i as int) =~= src);
    out
}

/// The admins, other than the owner, a queue can be shared with.
pub open spec fn shareable_admin(owner: u128) -> spec_fn(AccountViewModel) -> bool {
    |a: AccountViewModel| a.id != owner && (a.role == AccountRole::Admin || a.role == AccountRole::SuperAdmin)
}

pub fn admin_accounts_for_share(accounts: &Vec<AccountView>, owner_account_id: u128) -> (r: Vec<AccountView>)
    ensures
        account_views_model(r@) == account_views_model(accounts@).filter(shareable_admin(owner_account_id)),
{
    let ghost src = account_views_model(accounts@);
    let ghost f = shareable_admin(owner_account_id);
    let mut out: Vec<AccountView> = Vec::new();
    let mut i: usize = 0;
    while i < accounts.len()
        invariant
            src == account_views_model(accounts@),
            f == shareable_admin(owner_account_id),
            i <= accounts@.len(),
            account_views_model(out@) == src.take(i as int).filter(f),
        decreases accounts@.len() - i,
    {
        proof {
            assert(src.take(i + 1) =~= src.take(i as int).push(src[i as int]));
            src.take(i as int).lemma_filter_push(src[i as int], f);
        }
        let a = &accounts[i];
        if a.id != owner_account_id && (a.role == AccountRole::Admin || a.role == AccountRole::SuperAdmin) {
            let ghost before = out@;
            out.push(copy_account_view(a));
            assert(account_views_model(out@) =~= account_views_model(before).push(src[i as int]));
        }
        i = i + 1;
    }
    assert(src.take(i as int) =~= src);
    out
}

pub open spec fn admin_group(g: GroupModel) -> bool {
    g.role == AccountRole::Admin
}

/// The admin groups a queue can be shared with.
pub fn admin_groups_for_share(groups: &Vec<GroupView>) -> (r: Vec<GroupView>)
    ensures
        group_views_model(r@) == group_views_model(groups@).filter(|g: GroupModel| admin_group(g)),
{
    let ghost src = group_views_model(groups@);
    let ghost f = |g: GroupModel| admin_group(g);
    let mut out: Vec<GroupView> = Vec::new();
    let mut i: usize = 0;
    while i < groups.len()
        invariant
            src == group_views_model(groups@),
            f == (|g: GroupModel| admin_group(g)),
            i <= groups@.len(),
            group_views_model(out@) == src.take(i as int).filter(f),
        decreases groups@.len() - i,
    {
        proof {
            assert(src.take(i + 1) =~= src.take(i as int).push(src[i as int]));
            src.take(i as int).lemma_filter_push(src[i as int], f);
        }
        let g = &groups[i];
        if g.role == AccountRole::Admin {
            let ghost before = out@;
            out.push(GroupView { id: g.id, name: g.name.clone(), role: g.role, member_ids: crate::model::copy_ids(&g.member_ids) });
            assert(group_views_model(out@) =~= group_views_model(before).push(src[i as int]));
        }
        i = i + 1;
    }
    assert(src.take(i as int) =~= src);
    out
}

/// Ticks or unticks an id in a selection: ticking adds it once at the
/// end, unticking drops every copy.
pub fn set_uuid_selected(ids: &mut Vec<u128>, id: u128, selected: bool)
    ensures
        final(ids)@ == if selected {
            if old(ids)@.contains(id) {
                old(ids)@
            } else {
                old(ids)@.push(id)
            }
        } else {
            old(ids)@.filter(|x: u128| x != id)
        },
{
    if selected {
        if !crate::manage::contains_id(ids, id) {
            ids.push(id);
        }
    } else {
        let ghost src = old(ids)@;
        let ghost f = |x: u128| x != id;
        let mut out: Vec<u128> = Vec::new();
        let mut i: usize = 0;
        while i < ids.len()
            invariant
                src == ids@,
                f == (|x: u128| x != id),
                i <= ids@.len(),
                out@ == src.take(i as int).filter(f),
            decreases ids@.len() - i,
        {
            proof {
                assert(src.take(i + 1) =~= src.take(i as int).push(src[i as int]));
                src.take(i as int).lemma_filter_push(src[i as int], f);
            }
            if ids[i] != id {
                out.push(ids[i]);
            }
            i = i + 1;
        }
        assert(src.take(i as int) =~= src);
        *ids = out;
    }
}

pub open spec fn view_has_id(id: u128) -> spec_fn(AccountViewModel) -> bool {
    |a: AccountViewModel| a.id == id
}

/// The names of the accounts among the member ids, in member order.
pub open spec fn member_name_list(accounts: Seq<AccountViewModel>, ids: Seq<u128>) -> Seq<Seq<char>>
    decreases ids.len(),
{
    if ids.len() == 0 {
        Seq::empty()
    } else {
        let rest = member_name_list(accounts, ids.drop_last());
        match crate::store::find_first(accounts, view_has_id(ids.last())) {
            Some(i) => rest.push(accounts[i].name),
            None => rest,
        }
    }
}

/// Texts joined with a separator.
pub open spec fn joined(parts: Seq<Seq<char>>, sep: Seq<char>) -> Seq<char>
    decreases parts.len(),
{
    if parts.len() == 0 {
        Seq::empty()
    } else if parts.len() == 1 {
        parts[0]
    } else {
        joined(parts.drop_last(), sep) + sep + parts.last()
    }
}

fn find_account_view(accounts: &Vec<AccountView>, id: u128) -> (r: Option<usize>)
    ensures
        match r {
            Some(k) => crate::store::find_first(account_views_model(accounts@), view_has_id(id))
                == Some(k as int) && k < accounts@.len(),
            None => crate::store::find_first(account_views_model(accounts@), view_has_id(id)) is None,
        },
{
    let ghost am = account_views_model(accounts@);
    let ghost p = view_has_id(id);
    let mut j: usize = 0;
    while j < accounts.len()
        invariant
            am == account_views_model(accounts@),
            p == view_has_id(id),
            j <= accounts@.len(),
            forall|k: int| 0 <= k < j ==> !p(#[trigger] am[k]),
        decreases accounts@.len() - j,
    {
        if accounts[j].id == id {
            proof {
                crate::store::lemma_find_first_unique(am, p, Some(j as int));
            }
            return Some(j);
        }
        j = j + 1;
    }
    proof {
        crate::store::lemma_find_first_unique(am, p, None);
    }
    None
}

/// The members of a group by name, or "No members".
pub fn member_names(accounts: &Vec<AccountView>, member_ids: &Vec<u128>) -> (r: String)
    ensures
        r@ == if member_name_list(account_views_model(accounts@), member_ids@).len() == 0 {
            "No members"@
        } else {
            joined(member_name_list(account_views_model(accounts@), member_ids@), ", "@)
        },
{
    let ghost am = account_views_model(accounts@);
    let mut out = String::new();
    let mut count: usize = 0;
    let mut i: usize = 0;
    while i < member_ids.len()
        invariant
            am == account_views_model(accounts@),
            i <= member_ids@.len(),
            count == member_name_list(am, member_ids@.take(i as int)).len(),
            count <= i,
            out@ == joined(member_name_list(am, member_ids@.take(i as int)), ", "@),
        decreases member_ids@.len() - i,
    {
        let id = member_ids[i];
        assert(member_ids@.take(i + 1).drop_last() =~= member_ids@.take(i as int));
        let found = find_account_view(accounts, id);
        let ghost rest = member_name_list(am, member_ids@.take(i as int));
        assert(member_ids@.take(i + 1).last() == id);
        match found {
            Some(k) => {
                if count > 0 {
                    out.append(", ");
                }
                out.append(accounts[k].name.as_str());
                count = count + 1;
                proof {
                    let n = am[k as int].name;
                    assert(member_name_list(am, member_ids@.take(i + 1)) == rest.push(n));
                    assert(rest.push(n).drop_last() =~= rest);
                    if rest.len() == 0 {
                        assert(out@ =~= n);
                    } else {
                        assert(out@ =~= joined(rest, ", "@) + ", "@ + n);
                    }
                }
            },
            None => {},
        }
        i = i + 1;
    }
    assert(member_ids@.take(i as int) =~= member_ids@);
    if count == 0 {
        owned("No members")
    } else {
        out
    }
}

// ---------------------------------------------------------------------------
// Weekly schedules in the browser's time zone
// ---------------------------------------------------------------------------

/// A week in minutes.
pub open spec fn week() -> int {
    10080
}

/// `HH:MM` for a minute of the day.
pub open spec fn time_text(minute: int) -> Seq<char> {
    two_digits((minute / 60) as nat) + ":"@ + two_digits((minute % 60) as nat)
}

pub open spec fn schedule_valid(w: WeeklySchedule) -> bool {
    w.weekday <= 6 && w.minute_of_day < 1440
}

/// The local weekday and time of a weekly opening, for a browser whose
/// local time is `offset` minutes ahead of UTC; Monday 09:00 when there is
/// no valid schedule.
pub open spec fn local_of(s: Option<WeeklySchedule>, offset: int) -> (int, Seq<char>) {
    match s {
        Some(w) => if schedule_valid(w) {
            let t = (w.weekday * 1440 + w.minute_of_day + offset) % week();
            (t / 1440, time_text(t % 1440))
        } else {
            (1, "09:00"@)
        },
        None => (1, "09:00"@),
    }
}

/// Minutes into the week, moved into `0..week()`.
fn week_slot(total: i64) -> (r: u16)
    requires
        -0x1_0000_0000 <= total <= 0x1_0000_0000,
    ensures
        r as int == total as int % week(),
{
    let shifted: i64 = total + 10080 * 430000;
    let t: i64 = shifted % 10080;
    proof {
        vstd::arithmetic::div_mod::lemma_mod_multiples_vanish(430000, total as int, 10080);
        assert(10080 * 430000 + total == shifted);
    }
    t as u16
}

pub open spec fn opt_schedule(s: Option<&WeeklySchedule>) -> Option<WeeklySchedule> {
    match s {
        Some(w) => Some(*w),
        None => None,
    }
}

/// The local weekday and `HH:MM` time of a weekly opening, for a browser
/// whose local time is `local_offset_minutes` ahead of UTC.
pub fn utc_weekly_to_local(schedule: Option<&WeeklySchedule>, local_offset_minutes: i32) -> (r: (u8, String))
    ensures
        r.0 as int == local_of(opt_schedule(schedule), local_offset_minutes as int).0,
        r.1@ == local_of(opt_schedule(schedule), local_offset_minutes as int).1,
{
    let w = match schedule {
        Some(w) => *w,
        None => {
            return (1, owned("09:00"));
        },
    };
    if w.weekday > 6 || w.minute_of_day >= 24 * 60 {
        return (1, owned("09:00"));
    }
    let total: i64 = (w.weekday as i64) * 1440 + (w.minute_of_day as i64) + (local_offset_minutes as i64);
    let t = week_slot(total);
    let minute: u16 = t % 1440;
    let mut time = String::new();
    push_two_digits(&mut time, (minute / 60) as u64);
    time.append(":");
    push_two_digits(&mut time, (minute % 60) as u64);
    (((t / 1440) as u8), time)
}

/// The label of a weekly opening in the browser's time zone.
pub fn weekly_schedule_label(schedule: &WeeklySchedule, local_offset_minutes: i32) -> (r: String)
    ensures
        r@ == "Weekly on "@ + weekday_text(local_of(Some(*schedule), local_offset_minutes as int).0 as u8)
            + " at "@ + local_of(Some(*schedule), local_offset_minutes as int).1,
{
    let (weekday, time) = utc_weekly_to_local(Some(schedule), local_offset_minutes);
    let mut r = owned("Weekly on ");
    r.append(weekday_name(weekday));
    r.append(" at ");
    r.append(time.as_str());
    r
}

/// The value of a run of decimal digits.
pub open spec fn digits_value(s: Seq<char>) -> int
    decreases s.len(),
{
    if s.len() == 0 {
        0
    } else {
        digits_value(s.drop_last()) * 10 + (s.last() as int - 48)
    }
}

pub open spec fn all_digits(s: Seq<char>) -> bool {
    forall|i: int| 0 <= i < s.len() ==> is_digit(#[trigger] s[i])
}

/// A `u8` as `str::parse` reads it: an optional `+`, then at least one
/// digit, and a value that fits.
pub open spec fn parse_u8_text(s: Seq<char>) -> Option<int> {
    let d = if s.len() > 0 && s[0] == '+' {
        s.drop_first()
    } else {
        s
    };
    if d.len() > 0 && all_digits(d) && 0 <= digits_value(d) <= 255 {
        Some(digits_value(d))
    } else {
        None
    }
}

proof fn lemma_digits_value_nonneg(s: Seq<char>)
    requires
        all_digits(s),
    ensures
        digits_value(s) >= 0,
    decreases s.len(),
{
    if s.len() > 0 {
        assert(all_digits(s.drop_last())) by {
            assert forall|i: int| 0 <= i < s.drop_last().len() implies is_digit(#[trigger] s.drop_last()[i]) by {
                assert(s.drop_last()[i] == s[i]);
            }
        }
        lemma_digits_value_nonneg(s.drop_last());
        assert(is_digit(s[s.len() - 1]));
    }
}

/// Reads a `u8` the way `str::parse` does.
pub fn parse_u8(s: &str) -> (r: Option<u8>)
    ensures
        match parse_u8_text(s@) {
            Some(v) => r == Some(v as u8),
            None => r is None,
        },
{
    let n = s.unicode_len();
    let start: usize = if n > 0 && s.get_char(0) == '+' {
        1
    } else {
        0
    };
    let ghost d = if s@.len() > 0 && s@[0] == '+' {
        s@.drop_first()
    } else {
        s@
    };
    assert(d =~= s@.skip(start as int));
    if start == n {
        return None;
    }
    let mut value: u16 = 0;
    let mut i: usize = start;
    while i < n
        invariant
            n == s@.len(),
            start < n,
            start <= i <= n,
            d == s@.skip(start as int),
            d == (if s@.len() > 0 && s@[0] == '+' {
                s@.drop_first()
            } else {
                s@
            }),
            all_digits(d.take(i - start)),
            value as int == digits_value(d.take(i - start)),
            value <= 255,
        decreases n - i,
    {
        let c = s.get_char(i);
        assert(d[i - start] == s@[i as int]);
        assert(d.take(i - start + 1) =~= d.take(i - start).push(c));
        assert(d.take(i - start + 1).drop_last() =~= d.take(i - start));
        if !('0' <= c && c <= '9') {
            proof {
                assert(d[i - start] == c);
                assert(!is_digit(d[i - start]));
                assert(!all_digits(d));
            }
            return None;
        }
        let digit: u16 = (c as u32 - 48) as u16;
        assert(all_digits(d.take(i - start + 1))) by {
            assert forall|j: int| 0 <= j < i - start + 1 implies is_digit(#[trigger] d.take(i - start + 1)[j]) by {
                if j < i - start {
                    assert(d.take(i - start + 1)[j] == d.take(i - start)[j]);
                }
            }
        }
        if value * 10 + digit > 255 {
            proof {
                lemma_digits_value_nonneg(d.take(i - start + 1));
                assert(all_digits(d.take(i - start + 1)));
                lemma_digits_prefix(d, i - start + 1);
            }
            return None;
        }
        value = value * 10 + digit;
        i = i + 1;
    }
    assert(d.take(n - start) =~= d);
    proof {
        lemma_digits_value_nonneg(d);
    }
    Some(value as u8)
}

/// A longer run of digits is worth at least as much as its prefix.
proof fn lemma_digits_prefix(d: Seq<char>, k: int)
    requires
        0 <= k <= d.len(),
        all_digits(d.take(k)),
    ensures
        all_digits(d) ==> digits_value(d) >= digits_value(d.take(k)),
    decreases d.len() - k,
{
    if k < d.len() && all_digits(d) {
        let t = d.drop_last();
        assert(t.take(k) =~= d.take(k));
        assert(all_digits(t)) by {
            assert forall|i: int| 0 <= i < t.len() implies is_digit(#[trigger] t[i]) by {
                assert(t[i] == d[i]);
            }
        }
        lemma_digits_prefix(t, k);
        lemma_digits_value_nonneg(t);
        assert(is_digit(d[d.len() - 1]));
    } else if k == d.len() {
        assert(d.take(k) =~= d);
    }
}

/// The weekly opening in UTC for a local weekday and `HH:MM` time, for a
/// browser whose local time is `offset` minutes ahead of UTC.
pub open spec fn utc_of_local(weekday: u8, time: Seq<char>, offset: int) -> Option<WeeklySchedule> {
    if weekday > 6 {
        None
    } else {
        let parts = split_on(time, ':');
        match parse_u8_text(parts[0]) {
            None => None,
            Some(h) => if parts.len() < 2 {
                None
            } else {
                match parse_u8_text(parts[1]) {
                    None => None,
                    Some(mm) => if h > 23 || mm > 59 {
                        None
                    } else {
                        let t = (weekday * 1440 + h * 60 + mm - offset) % week();
                        Some(WeeklySchedule { weekday: (t / 1440) as u8, minute_of_day: (t % 1440) as u16 })
                    },
                }
            },
        }
    }
}

/// The weekly opening in UTC for a local weekday and `HH:MM` time.
pub fn local_weekly_to_utc(weekday: u8, time: &str, local_offset_minutes: i32) -> (r: Option<WeeklySchedule>)
    ensures
        r == utc_of_local(weekday, time@, local_offset_minutes as int),
{
    if weekday > 6 {
        return None;
    }
    let parts = split_text(time, ':');
    proof {
        crate::route::lemma_split_nonempty(time@, ':');
    }
    let hour = match parse_u8(parts[0].as_str()) {
        Some(h) => h,
        None => {
            return None;
        },
    };
    if parts.len() < 2 {
        return None;
    }
    let minute = match parse_u8(parts[1].as_str()) {
        Some(m) => m,
        None => {
            return None;
        },
    };
    if hour > 23 || minute > 59 {
        return None;
    }
    let total: i64 = (weekday as i64) * 1440 + (hour as i64) * 60 + (minute as i64) - (local_offset_minutes as i64);
    let t = week_slot(total);
    Some(WeeklySchedule { weekday: (t / 1440) as u8, minute_of_day: t % 1440 })
}

proof fn lemma_digit_char(d: nat)
    ensures
        digit_char(d) as int == (d % 10) + 48,
        is_digit(digit_char(d)),
        digit_char(d) != '+',
        digit_char(d) != ':',
{
    assert(0 <= d % 10 < 10);
}

proof fn lemma_two_digits_parse(n: nat)
    requires
        n < 100,
    ensures
        parse_u8_text(two_digits(n)) == Some(n as int),
        !two_digits(n).contains(':'),
        two_digits(n).len() > 0,
{
    let t = two_digits(n);
    lemma_digit_char(n);
    lemma_digit_char(n / 10);
    lemma_digit_char(n % 10);
    assert('0' as int == 48);
    if n < 10 {
        assert(t =~= seq!['0', digit_char(n)]);
        assert(t.drop_last() =~= seq!['0']);
        assert(seq!['0'].drop_last() =~= Seq::<char>::empty());
        assert(digits_value(Seq::<char>::empty()) == 0);
        assert(seq!['0'].last() == '0');
        assert(digits_value(seq!['0']) == 0);
        assert(t.last() == digit_char(n));
        assert(n % 10 == n);
    } else {
        assert(decimal(n / 10) =~= seq![digit_char(n / 10)]);
        assert(t =~= seq![digit_char(n / 10), digit_char(n % 10)]);
        assert(t.drop_last() =~= seq![digit_char(n / 10)]);
        assert(seq![digit_char(n / 10)].drop_last() =~= Seq::<char>::empty());
        assert((n / 10) % 10 == n / 10);
        let a = seq![digit_char(n / 10)];
        assert(digits_value(Seq::<char>::empty()) == 0);
        assert(a.last() == digit_char(n / 10));
        assert(digits_value(a) == (n / 10) as int);
        assert(t.last() == digit_char(n % 10));
        assert((n % 10) % 10 == n % 10);
        assert(digits_value(t) == (n / 10) * 10 + n % 10);
    }
    assert(t[0] != '+');
    assert(all_digits(t));
    assert(!t.contains(':')) by {
        if t.contains(':') {
            let k = choose|k: int| 0 <= k < t.len() && t[k] == ':';
            assert(is_digit(t[k]));
        }
    }
}

proof fn lemma_time_text_split(minute: int)
    requires
        0 <= minute < 1440,
    ensures
        split_on(time_text(minute), ':') == seq![two_digits((minute / 60) as nat), two_digits((minute % 60) as nat)],
{
    let a = two_digits((minute / 60) as nat);
    let b = two_digits((minute % 60) as nat);
    lemma_two_digits_parse((minute / 60) as nat);
    lemma_two_digits_parse((minute % 60) as nat);
    reveal_strlit(":");
    assert(time_text(minute) =~= a + seq![':'] + b);
    crate::route::lemma_split_concat(a, b, ':');
    crate::route::lemma_split_whole(a, ':');
    crate::route::lemma_split_whole(b, ':');
}

proof fn lemma_week_back(slot: int, offset: int)
    requires
        0 <= slot < 10080,
    ensures
        ({
            let t = (slot + offset) % 10080;
            &&& 0 <= t < 10080
            &&& ((t / 1440) * 1440 + ((t % 1440) / 60) * 60 + (t % 1440) % 60 - offset) % 10080 == slot
        }),
{
    let t = (slot + offset) % 10080;
    assert(0 <= t < 10080);
    assert((t / 1440) * 1440 + (t % 1440) == t) by (nonlinear_arith)
        requires 0 <= t;
    let m = t % 1440;
    assert((m / 60) * 60 + m % 60 == m) by (nonlinear_arith)
        requires 0 <= m;
    let q = (slot + offset) / 10080;
    vstd::arithmetic::div_mod::lemma_fundamental_div_mod(slot + offset, 10080);
    assert(slot + offset == q * 10080 + t);
    assert(t - offset == slot + (-q) * 10080);
    vstd::arithmetic::div_mod::lemma_mod_multiples_vanish(-q, slot, 10080);
    assert(10080 * (-q) + slot == t - offset) by (nonlinear_arith)
        requires t - offset == slot + (-q) * 10080;
    vstd::arithmetic::div_mod::lemma_small_mod(slot as nat, 10080);
}

/// A weekly opening shown in local time and read back gives the same
/// opening.
pub proof fn law_weekly_local_round_trip(w: WeeklySchedule, offset: i32)
    requires
        schedule_valid(w),
    ensures
        utc_of_local(
            local_of(Some(w), offset as int).0 as u8,
            local_of(Some(w), offset as int).1,
            offset as int,
        ) == Some(w),
{
    let slot = w.weekday * 1440 + w.minute_of_day;
    assert(0 <= slot < 10080);
    lemma_week_back(slot, offset as int);
    let t = (slot + offset) % 10080;
    let day = t / 1440;
    let minute = t % 1440;
    assert(0 <= day <= 6);
    lemma_time_text_split(minute);
    lemma_two_digits_parse((minute / 60) as nat);
    lemma_two_digits_parse((minute % 60) as nat);
    assert(minute / 60 <= 23);
    assert((slot / 1440) == w.weekday as int) by (nonlinear_arith)
        requires slot == w.weekday * 1440 + w.minute_of_day, 0 <= w.minute_of_day < 1440;
    assert((slot % 1440) == w.minute_of_day as int) by (nonlinear_arith)
        requires slot == w.weekday * 1440 + w.minute_of_day, 0 <= w.minute_of_day < 1440;
}

// ---------------------------------------------------------------------------
// Creating a queue from the dashboard
// ---------------------------------------------------------------------------

/// The field the dashboard makes of a label: required, keyed by its slug.
pub open spec fn field_of_label(l: String) -> FieldModel {
    FieldModel { key: slug(l@), label: l@, required: true, options: Seq::empty() }
}

/// The request the dashboard sends to open a queue with the given name,
/// field labels and guest setting: every field required and keyed by the
/// slug of its label; the queue is not listed publicly and has no opening
/// time or weekly schedule.
pub fn create_queue_command(admin_token: &str, name: &str, labels: &Vec<String>, allow_guests: bool) -> (r:
    ClientMessage)
    ensures
        r matches ClientMessage::CreateQueue { admin_token: t, name: n, fields, allow_guests: g, is_public, opens_at, weekly_schedule }
            && t@ == admin_token@ && n@ == name@ && g == allow_guests && !is_public && opens_at is None
            && weekly_schedule is None && fields_model(fields@) == labels@.map_values(|l: String| field_of_label(l)),
{
    let mut fields: Vec<QueueField> = Vec::new();
    let mut i: usize = 0;
    while i < labels.len()
        invariant
            i <= labels@.len(),
            fields_model(fields@) == labels@.take(i as int).map_values(|l: String| field_of_label(l)),
        decreases labels@.len() - i,
    {
        let f = QueueField {
            key: slugify(labels[i].as_str()),
            label: labels[i].clone(),
            required: true,
            options: Vec::new(),
        };
        let ghost before = fields@;
        assert(crate::model::texts(f.options@) =~= Seq::<Seq<char>>::empty());
        assert(f@ == field_of_label(labels@[i as int]));
        fields.push(f);
        assert(fields_model(fields@) =~= fields_model(before).push(field_of_label(labels@[i as int])));
        assert(labels@.take(i + 1) =~= labels@.take(i as int).push(labels@[i as int]));
        assert(labels@.take(i + 1).map_values(|l: String| field_of_label(l)) =~= labels@.take(i as int).map_values(
            |l: String| field_of_label(l),
        ).push(field_of_label(labels@[i as int])));
        i = i + 1;
    }
    assert(labels@.take(labels@.len() as int) =~= labels@);
    ClientMessage::CreateQueue {
        admin_token: owned(admin_token),
        name: owned(name),
        fields,
        allow_guests,
        is_public: false,
        opens_at: None,
        weekly_schedule: None,
    }
}

// ---------------------------------------------------------------------------
// The queue page
// ---------------------------------------------------------------------------

/// What the queue page holds: the queue and the requester's own request as
/// last reported, the values typed into the join form, the message shown,
/// and the state of the connection.
#[derive(Clone, Debug)]
pub struct QueuePageState {
    pub queue: Option<UserQueueView>,
    pub your_entry: Option<UserEntryView>,
    pub form_values: TextMap,
    pub feedback: String,
    pub connection: SocketStatus,
}

/// What to do with the entry token the browser keeps for the queue.
#[derive(Clone, Debug)]
pub enum EntryTokenAction {
    Save(String),
    Clear,
}

/// The keys of the fields.
pub open spec fn field_keys(fs: Seq<FieldModel>) -> Set<Seq<char>> {
    Set::new(|k: Seq<char>| exists|i: int| 0 <= i < fs.len() && #[trigger] fs[i].key == k)
}

/// The values, with an empty value for every field that has none.
pub open spec fn with_blank_fields(vals: Map<Seq<char>, Seq<char>>, fs: Seq<FieldModel>) -> Map<Seq<char>, Seq<char>> {
    Map::new(
        |k: Seq<char>| vals.contains_key(k) || field_keys(fs).contains(k),
        |k: Seq<char>| if vals.contains_key(k) {
            vals[k]
        } else {
            Seq::empty()
        },
    )
}

/// The join form after a queue update: the values of a request the
/// requester left, filled out with the queue's fields; else empty values
/// for the fields when the form was empty; else the form as it was.
pub open spec fn form_after_state(
    form: Map<Seq<char>, Seq<char>>,
    fs: Seq<FieldModel>,
    entry: Option<UserEntryView>,
) -> Map<Seq<char>, Seq<char>> {
    if entry matches Some(e) && e.status == QueueEntryStatus::Left {
        with_blank_fields(entry->0.values@, fs)
    } else if form.dom().len() == 0 {
        with_blank_fields(Map::empty(), fs)
    } else {
        form
    }
}

fn fill_blank_fields(values: &mut TextMap, fields: &Vec<QueueField>)
    ensures
        final(values)@ == with_blank_fields(old(values)@, fields_model(fields@)),
{
    let ghost start = values@;
    let ghost fs = fields_model(fields@);
    let mut i: usize = 0;
    while i < fields.len()
        invariant
            fs == fields_model(fields@),
            i <= fields@.len(),
            values@ == with_blank_fields(start, fs.take(i as int)),
        decreases fields@.len() - i,
    {
        let key = fields[i].key.clone();
        let ghost before = values@;
        let ghost k = key@;
        assert(fs[i as int].key == k);
        let present = values.get(key.as_str()).is_some();
        if !present {
            values.insert(key, String::new());
        }
        assert(values@ =~= with_blank_fields(start, fs.take(i + 1))) by {
            assert forall|x: Seq<char>| field_keys(fs.take(i + 1)).contains(x) <==> (field_keys(fs.take(i as int)).contains(x)
                || x == k) by {
                if field_keys(fs.take(i + 1)).contains(x) {
                    let j = choose|j: int| 0 <= j < fs.take(i + 1).len() && #[trigger] fs.take(i + 1)[j].key == x;
                    if j < i {
                        assert(fs.take(i as int)[j].key == x);
                    }
                }
                if field_keys(fs.take(i as int)).contains(x) {
                    let j = choose|j: int| 0 <= j < fs.take(i as int).len() && #[trigger] fs.take(i as int)[j].key == x;
                    assert(fs.take(i + 1)[j].key == x);
                }
                if x == k {
                    assert(fs.take(i + 1)[i as int].key == x);
                }
            }
        }
        i = i + 1;
    }
    assert(fs.take(fields@.len() as int) =~= fs);
}

/// What a queue update does to the queue page: the page shows the queue
/// and the request as reported, the join form follows `form_after_state`,
/// the message is cleared while connected, and the browser keeps the
/// request's token unless there is no request or it was resolved or
/// denied.
pub fn queue_page_after_state(page: QueuePageState, queue: UserQueueView, your_entry: Option<UserEntryView>) -> (r:
    (QueuePageState, EntryTokenAction))
    ensures
        r.0.queue == Some(queue),
        r.0.your_entry == your_entry,
        r.0.form_values@ == form_after_state(page.form_values@, queue@.fields, your_entry),
        r.0.feedback@ == if page.connection == SocketStatus::Connected {
            Seq::empty()
        } else {
            page.feedback@
        },
        r.0.connection == page.connection,
        match your_entry {
            Some(e) => if e.status == QueueEntryStatus::Resolved || e.status == QueueEntryStatus::Denied {
                r.1 is Clear
            } else {
                r.1 matches EntryTokenAction::Save(t) && t@ == e.token@
            },
            None => r.1 is Clear,
        },
{
    let action = match &your_entry {
        Some(e) => if e.status == QueueEntryStatus::Resolved || e.status == QueueEntryStatus::Denied {
            EntryTokenAction::Clear
        } else {
            EntryTokenAction::Save(e.token.clone())
        },
        None => EntryTokenAction::Clear,
    };
    let left_values = match &your_entry {
        Some(e) => if e.status == QueueEntryStatus::Left {
            Some(e.values.copy())
        } else {
            None
        },
        None => None,
    };
    let form_values = if let Some(v) = left_values {
        let mut next = v;
        fill_blank_fields(&mut next, &queue.fields);
        next
    } else if page.form_values.is_empty() {
        let mut next = TextMap::new();
        fill_blank_fields(&mut next, &queue.fields);
        next
    } else {
        page.form_values
    };
    let feedback = if page.connection == SocketStatus::Connected {
        String::new()
    } else {
        page.feedback
    };
    (
        QueuePageState {
            queue: Some(queue),
            your_entry,
            form_values,
            feedback,
            connection: page.connection,
        },
        action,
    )
}

/// Whether the queue page offers to leave: the queue is open and the
/// requester's request is pending or claimed.
pub open spec fn can_leave(page: QueuePageState) -> bool {
    &&& page.queue is Some && page.queue->0.closed_at is None
    &&& page.your_entry is Some
    &&& (page.your_entry->0.status == QueueEntryStatus::Pending || page.your_entry->0.status == QueueEntryStatus::Claimed)
}

/// The request that leaves the queue, where the page offers to leave.
pub fn leave_command(page: &QueuePageState) -> (r: Option<ClientMessage>)
    ensures
        can_leave(*page) ==> (r matches Some(ClientMessage::LeaveQueue { queue_id, entry_token }) && queue_id
            == page.queue->0.id && entry_token@ == page.your_entry->0.token@),
        !can_leave(*page) ==> r is None,
{
    match (&page.queue, &page.your_entry) {
        (Some(q), Some(e)) => if q.closed_at.is_none() && (e.status == QueueEntryStatus::Pending || e.status
            == QueueEntryStatus::Claimed) {
            Some(ClientMessage::LeaveQueue { queue_id: q.id, entry_token: e.token.clone() })
        } else {
            None
        },
        _ => None,
    }
}

/// The request that joins the shown queue with the typed values, the
/// signed-in requester's session and the entry token the browser kept;
/// none before a queue is shown.
pub fn join_command(page: &QueuePageState, user_token: Option<String>, entry_token: Option<String>) -> (r: Option<
    ClientMessage,
>)
    ensures
        match page.queue {
            Some(q) => r matches Some(ClientMessage::JoinQueue { queue_id, values, user_token: u, entry_token: t })
                && queue_id == q.id && values@ == page.form_values@ && u == user_token && t == entry_token,
            None => r is None,
        },
{
    match &page.queue {
        Some(q) => Some(
            ClientMessage::JoinQueue { queue_id: q.id, values: page.form_values.copy(), user_token, entry_token },
        ),
        None => None,
    }
}

/// Rejoining after a request was resolved or denied: the page forgets the
/// request and its token, and the form starts from the request's values,
/// filled out with the queue's fields; without a queue and a request
/// nothing changes.
pub fn queue_page_rejoin(page: QueuePageState) -> (r: (QueuePageState, bool))
    ensures
        match (page.queue, page.your_entry) {
            (Some(q), Some(e)) => {
                &&& r.1
                &&& r.0.queue == page.queue && r.0.your_entry is None && r.0.feedback@.len() == 0
                &&& r.0.connection == page.connection
                &&& r.0.form_values@ == with_blank_fields(e.values@, q@.fields)
            },
            _ => !r.1 && r.0 == page,
        },
{
    if page.queue.is_none() || page.your_entry.is_none() {
        return (page, false);
    }
    let mut next = page.your_entry.as_ref().unwrap().values.copy();
    fill_blank_fields(&mut next, &page.queue.as_ref().unwrap().fields);
    (
        QueuePageState {
            queue: page.queue,
            your_entry: None,
            form_values: next,
            feedback: String::new(),
            connection: page.connection,
        },
        true,
    )
}

// ---------------------------------------------------------------------------
// The admin dashboard
// ---------------------------------------------------------------------------

/// What the dashboard holds: the state last reported, the message shown,
/// the section shown, the accounts and groups ticked for sharing the
/// selected queue, and the state of the connection.
#[derive(Clone, Debug)]
pub struct AdminPageState {
    pub admin_state: Option<AdminStateView>,
    pub feedback: String,
    pub section: AdminSection,
    pub share_account_ids: Vec<u128>,
    pub share_group_ids: Vec<u128>,
    pub connection: SocketStatus,
}

/// Where the dashboard goes after a message.
#[derive(Clone, Debug)]
pub enum AdminPageAction {
    Stay,
    Open(Route),
}

/// The message the dashboard shows for a server message, if any.
pub open spec fn admin_notice(msg: ServerMessage) -> Option<Seq<char>> {
    match msg {
        ServerMessage::AccountCreated => Some("Account created"@),
        ServerMessage::AccountUpdated => Some("Account updated"@),
        ServerMessage::AccountDeleted => Some("Account deleted"@),
        ServerMessage::GroupCreated => Some("Group created"@),
        ServerMessage::GroupUpdated => Some("Group updated"@),
        ServerMessage::GroupDeleted => Some("Group deleted"@),
        ServerMessage::QueueSharingUpdated => Some("Queue access updated"@),
        ServerMessage::QueueClosed => Some("Queue closed and archived"@),
        ServerMessage::Error { message } => Some(message@),
        ServerMessage::Info { message } => Some(message@),
        _ => None,
    }
}

/// What a server message does to the dashboard: a new state replaces the
/// old one, takes the sharing choices of the selected queue and clears the
/// message while connected; a created queue opens in the queue section;
/// a notice or error is shown; anything else changes nothing.
pub fn admin_page_after_message(page: AdminPageState, msg: ServerMessage) -> (r: (AdminPageState, AdminPageAction))
    ensures
        match msg {
            ServerMessage::AdminState { state } => {
                &&& r.0.admin_state == Some(state)
                &&& r.0.section == page.section && r.0.connection == page.connection
                &&& r.0.feedback@ == if page.connection == SocketStatus::Connected {
                    Seq::empty()
                } else {
                    page.feedback@
                }
                &&& match state.selected_queue {
                    Some(q) => r.0.share_account_ids@ == q.shared_account_ids@ && r.0.share_group_ids@
                        == q.shared_group_ids@,
                    None => r.0.share_account_ids == page.share_account_ids && r.0.share_group_ids
                        == page.share_group_ids,
                }
                &&& r.1 is Stay
            },
            ServerMessage::QueueCreated { queue_id } => {
                &&& r.0 == AdminPageState { section: AdminSection::Queues, ..page }
                &&& r.1 matches AdminPageAction::Open(route) && route@ == crate::route::RouteModel::Admin {
                    queue_id: Some(crate::ids::uuid_text(queue_id)),
                    request_id: None,
                }
            },
            _ => match admin_notice(msg) {
                Some(t) => r.0.feedback@ == t && r.0 == AdminPageState { feedback: r.0.feedback, ..page } && r.1 is Stay,
                None => r.0 == page && r.1 is Stay,
            },
        },
{
    match msg {
        ServerMessage::AdminState { state } => {
            let (share_account_ids, share_group_ids) = match &state.selected_queue {
                Some(q) => (crate::model::copy_ids(&q.shared_account_ids), crate::model::copy_ids(&q.shared_group_ids)),
                None => (page.share_account_ids, page.share_group_ids),
            };
            let feedback = if page.connection == SocketStatus::Connected {
                String::new()
            } else {
                page.feedback
            };
            (
                AdminPageState {
                    admin_state: Some(state),
                    feedback,
                    section: page.section,
                    share_account_ids,
                    share_group_ids,
                    connection: page.connection,
                },
                AdminPageAction::Stay,
            )
        },
        ServerMessage::QueueCreated { queue_id } => {
            let route = Route::Admin { queue_id: Some(uuid_string(queue_id)), request_id: None };
            (AdminPageState { section: AdminSection::Queues, ..page }, AdminPageAction::Open(route))
        },
        ServerMessage::AccountCreated => (AdminPageState { feedback: owned("Account created"), ..page }, AdminPageAction::Stay),
        ServerMessage::AccountUpdated => (AdminPageState { feedback: owned("Account updated"), ..page }, AdminPageAction::Stay),
        ServerMessage::AccountDeleted => (AdminPageState { feedback: owned("Account deleted"), ..page }, AdminPageAction::Stay),
        ServerMessage::GroupCreated => (AdminPageState { feedback: owned("Group created"), ..page }, AdminPageAction::Stay),
        ServerMessage::GroupUpdated => (AdminPageState { feedback: owned("Group updated"), ..page }, AdminPageAction::Stay),
        ServerMessage::GroupDeleted => (AdminPageState { feedback: owned("Group deleted"), ..page }, AdminPageAction::Stay),
        ServerMessage::QueueSharingUpdated => (
            AdminPageState { feedback: owned("Queue access updated"), ..page },
            AdminPageAction::Stay,
        ),
        ServerMessage::QueueClosed => (
            AdminPageState { feedback: owned("Queue closed and archived"), ..page },
            AdminPageAction::Stay,
        ),
        ServerMessage::Error { message } => (AdminPageState { feedback: message, ..page }, AdminPageAction::Stay),
        ServerMessage::Info { message } => (AdminPageState { feedback: message, ..page }, AdminPageAction::Stay),
        _ => (page, AdminPageAction::Stay),
    }
}

/// The page the dashboard shows.
#[derive(Clone, Copy, Debug, PartialEq, Eq, Structural)]
pub enum AdminView {
    QueueIndex,
    ClosedQueueIndex,
    NewQueue,
    Accounts,
    AccountsSuperAdminOnly,
    QueueRequests,
    RequestDetail,
    RequestNotFound,
    QueueNotFound,
}

/// Which page the dashboard shows: with no queue chosen, the page of the
/// section (accounts only for a super admin); with a queue chosen, its
/// requests, or the chosen request, or a page saying the request or the
/// queue was not found.
pub open spec fn admin_view_of(
    section: AdminSection,
    is_super_admin: bool,
    queue_chosen: bool,
    request_chosen: bool,
    queue_found: bool,
    request_found: bool,
) -> AdminView {
    if !queue_chosen {
        match section {
            AdminSection::Queues => AdminView::QueueIndex,
            AdminSection::ClosedQueues => AdminView::ClosedQueueIndex,
            AdminSection::NewQueue => AdminView::NewQueue,
            AdminSection::Accounts => if is_super_admin {
                AdminView::Accounts
            } else {
                AdminView::AccountsSuperAdminOnly
            },
        }
    } else if !queue_found {
        AdminView::QueueNotFound
    } else if !request_chosen {
        AdminView::QueueRequests
    } else if request_found {
        AdminView::RequestDetail
    } else {
        AdminView::RequestNotFound
    }
}

/// Chooses the page the dashboard shows.
pub fn admin_view(
    section: AdminSection,
    is_super_admin: bool,
    queue_chosen: bool,
    request_chosen: bool,
    queue_found: bool,
    request_found: bool,
) -> (r: AdminView)
    ensures
        r == admin_view_of(section, is_super_admin, queue_chosen, request_chosen, queue_found, request_found),
{
    if !queue_chosen {
        match section {
            AdminSection::Queues => AdminView::QueueIndex,
            AdminSection::ClosedQueues => AdminView::ClosedQueueIndex,
            AdminSection::NewQueue => AdminView::NewQueue,
            AdminSection::Accounts => if is_super_admin {
                AdminView::Accounts
            } else {
                AdminView::AccountsSuperAdminOnly
            },
        }
    } else if !queue_found {
        AdminView::QueueNotFound
    } else if !request_chosen {
        AdminView::QueueRequests
    } else if request_found {
        AdminView::RequestDetail
    } else {
        AdminView::RequestNotFound
    }
}

} // verus!
