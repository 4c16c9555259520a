//! The websocket protocol: what a client asks, what the server answers,
//! and the decisions in between. The server's socket loop saves the store
//! and sends the messages these functions decide on.
use vstd::prelude::*;
use crate::accounts::{
    account_creation, account_deletion, account_update, admin_identity_of, admin_login,
    admin_result, hash_fits, initial_setup, needs_setup, unit_result, user_login, user_result,
};
use crate::clock::{representable, rfc3339_text, Instant};
use crate::dashboard::admin_state_ok;
use crate::entries::{entry_handling, joining, leaving, text_result, u128_result, EntryAction};
use crate::ids::{code_text, uuid_text};
use crate::manage::{
    admin_sees, codes_in_use, group_creation, group_deletion, group_update, queue_closing,
    queue_creation, queue_settings_update, queue_sharing, settings_update,
};
use crate::model::{fields_model, opt_text, AccountRole, QueueEntryStatus, QueueField, TextMap, WeeklySchedule};
use crate::render::{public_list_ok, summaries_model, unavailable_message_of, user_view_of};
use crate::text::trimmed;
use crate::password::pwd_fits;
use crate::utils::email_norm;
use crate::views::{AdminIdentityModel, UserIdentityModel};
use crate::store::{Store, StoreModel};
use crate::views::{
    AdminIdentityView, AdminStateView, QueueSummary, SiteSettingsView, UserEntryModel,
    UserEntryView, UserIdentityView, UserQueueView,
};

verus! {

// ---------------------------------------------------------------------------
// Messages
// ---------------------------------------------------------------------------

/// A request from a browser.
#[derive(Clone, Debug)]
pub enum ClientMessage {
    CheckSetup,
    ListPublicQueues,
    SetupSuperAdmin { name: String, email: String, password: String },
    LoginAdmin { email: String, password: String },
    LoginUser { email: String, password: String },
    SubscribeAdmin { admin_token: String, selected_queue_id: Option<u128> },
    CreateQueue {
        admin_token: String,
        name: String,
        fields: Vec<QueueField>,
        allow_guests: bool,
        is_public: bool,
        opens_at: Option<String>,
        weekly_schedule: Option<WeeklySchedule>,
    },
    UpdateQueueSettings {
        admin_token: String,
        queue_id: u128,
        fields: Vec<QueueField>,
        allow_guests: bool,
        is_public: bool,
        opens_at: Option<String>,
        weekly_schedule: Option<WeeklySchedule>,
    },
    CreateAccount {
        admin_token: String,
        name: String,
        email: String,
        password: String,
        role: AccountRole,
    },
    UpdateAccount {
        admin_token: String,
        account_id: u128,
        name: String,
        email: String,
        password: Option<String>,
        role: AccountRole,
    },
    DeleteAccount { admin_token: String, account_id: u128 },
    CreateGroup { admin_token: String, name: String, role: AccountRole, member_ids: Vec<u128> },
    UpdateGroup {
        admin_token: String,
        group_id: u128,
        name: String,
        role: AccountRole,
        member_ids: Vec<u128>,
    },
    DeleteGroup { admin_token: String, group_id: u128 },
    UpdateSiteSettings {
        admin_token: String,
        site_title: String,
        admin_password_sign_in_enabled: bool,
        admin_microsoft_sign_in_enabled: bool,
        user_password_sign_in_enabled: bool,
        user_microsoft_sign_in_enabled: bool,
    },
    ShareQueue { admin_token: String, queue_id: u128, account_ids: Vec<u128>, group_ids: Vec<u128> },
    CloseQueue { admin_token: String, queue_id: u128 },
    ClaimEntry { admin_token: String, entry_id: u128 },
    UnclaimEntry { admin_token: String, entry_id: u128 },
    ResolveEntry { admin_token: String, entry_id: u128 },
    DenyEntry { admin_token: String, entry_id: u128 },
    SubscribeQueue { queue_id: u128, entry_token: Option<String>, user_token: Option<String> },
    JoinQueue {
        queue_id: u128,
        values: TextMap,
        user_token: Option<String>,
        entry_token: Option<String>,
    },
    LeaveQueue { queue_id: u128, entry_token: String },
}

/// An answer or an update sent to a browser.
#[derive(Clone, Debug)]
pub enum ServerMessage {
    SetupState { needs_setup: bool },
    PublicQueues { queues: Vec<QueueSummary>, site_settings: SiteSettingsView },
    AdminLoggedIn { admin: AdminIdentityView },
    UserLoggedIn { user: UserIdentityView },
    QueueCreated { queue_id: u128 },
    QueueSettingsUpdated,
    AccountCreated,
    AccountUpdated,
    AccountDeleted,
    GroupCreated,
    GroupUpdated,
    GroupDeleted,
    SiteSettingsUpdated,
    QueueSharingUpdated,
    QueueClosed,
    AdminState { state: AdminStateView },
    QueueState {
        queue: UserQueueView,
        your_entry: Option<UserEntryView>,
        site_settings: SiteSettingsView,
    },
    Info { message: String },
    Error { message: String },
}

// ---------------------------------------------------------------------------
// What a connection follows
// ---------------------------------------------------------------------------

/// The admin dashboard a connection follows.
#[derive(Clone, Debug)]
pub struct AdminSubscription {
    pub admin_token: Option<String>,
    pub selected_queue_id: Option<u128>,
}

pub ghost struct AdminSubModel {
    pub admin_token: Option<Seq<char>>,
    pub selected_queue_id: Option<u128>,
}

impl View for AdminSubscription {
    type V = AdminSubModel;

    open spec fn view(&self) -> AdminSubModel {
        AdminSubModel { admin_token: opt_text(self.admin_token), selected_queue_id: self.selected_queue_id }
    }
}

impl Default for AdminSubscription {
    fn default() -> (r: AdminSubscription)
        ensures
            r@ == (AdminSubModel { admin_token: None, selected_queue_id: None }),
    {
        AdminSubscription { admin_token: None, selected_queue_id: None }
    }
}

/// The queue a connection follows, with the requester's tokens.
#[derive(Clone, Debug)]
pub struct QueueSubscription {
    pub queue_id: Option<u128>,
    pub entry_token: Option<String>,
    pub user_token: Option<String>,
}

pub ghost struct QueueSubModel {
    pub queue_id: Option<u128>,
    pub entry_token: Option<Seq<char>>,
    pub user_token: Option<Seq<char>>,
}

impl View for QueueSubscription {
    type V = QueueSubModel;

    open spec fn view(&self) -> QueueSubModel {
        QueueSubModel {
            queue_id: self.queue_id,
            entry_token: opt_text(self.entry_token),
            user_token: opt_text(self.user_token),
        }
    }
}

impl Default for QueueSubscription {
    fn default() -> (r: QueueSubscription)
        ensures
            r@ == (QueueSubModel { queue_id: None, entry_token: None, user_token: None }),
    {
        QueueSubscription { queue_id: None, entry_token: None, user_token: None }
    }
}

// ---------------------------------------------------------------------------
// The messages that follow a change
// ---------------------------------------------------------------------------

/// The dashboard state of the admin behind the token.
pub open spec fn admin_state_msg(msg: ServerMessage, m: StoreModel, token: Seq<char>, selected: Option<u128>) -> bool {
    msg matches ServerMessage::AdminState { state } && admin_state_ok(m, token, selected, Some(state@))
}

/// `msgs` ends, from position `start`, with the dashboard state of the
/// admin behind the token, when the token is known.
pub open spec fn state_follows(msgs: Seq<ServerMessage>, start: int, m: StoreModel, token: Seq<char>, selected: Option<u128>) -> bool {
    if admin_identity_of(m, token) is Some {
        msgs.len() == start + 1 && admin_state_msg(msgs[start], m, token, selected)
    } else {
        msgs.len() == start
    }
}

pub open spec fn opt_entry(e: Option<UserEntryView>) -> Option<UserEntryModel> {
    match e {
        Some(x) => Some(x@),
        None => None,
    }
}

/// The queue as the requester sees it.
pub open spec fn queue_state_msg(msg: ServerMessage, m: StoreModel, queue_id: u128, token: Option<Seq<char>>, now: Instant) -> bool {
    msg matches ServerMessage::QueueState { queue, your_entry, site_settings } && user_view_of(
        m,
        queue_id,
        token,
        now,
    ) == Some((queue@, opt_entry(your_entry))) && site_settings@ == m.settings
}

/// `msgs` is the requester's view of the queue, when there is one.
pub open spec fn queue_state_follows(msgs: Seq<ServerMessage>, m: StoreModel, queue_id: u128, token: Option<Seq<char>>, now: Instant) -> bool {
    if user_view_of(m, queue_id, token, now) is Some {
        msgs.len() == 1 && queue_state_msg(msgs[0], m, queue_id, token, now)
    } else {
        msgs.len() == 0
    }
}

/// What a connection is sent when a queue changes: the admin's dashboard
/// when the admin may manage the queue, then the requester's view when it
/// follows that queue.
pub open spec fn update_messages_ok(
    m: StoreModel,
    admin: AdminSubModel,
    queue: QueueSubModel,
    queue_id: u128,
    now: Instant,
    msgs: Seq<ServerMessage>,
) -> bool {
    let first = admin.admin_token matches Some(t) && admin_sees(m, t, queue_id) && admin_identity_of(m, t) is Some;
    let second = queue.queue_id == Some(queue_id) && user_view_of(m, queue_id, queue.entry_token, now) is Some;
    &&& msgs.len() == (if first { 1int } else { 0int }) + (if second { 1int } else { 0int })
    &&& first ==> admin_state_msg(msgs[0], m, admin.admin_token->0, admin.selected_queue_id)
    &&& second ==> queue_state_msg(msgs[msgs.len() - 1], m, queue_id, queue.entry_token, now)
}

fn push_admin_state(store: &Store, msgs: &mut Vec<ServerMessage>, admin_token: &str, selected: Option<u128>)
    ensures
        if admin_identity_of(store@, admin_token@) is Some {
            final(msgs)@.len() == old(msgs)@.len() + 1 && final(msgs)@.take(old(msgs)@.len() as int) == old(msgs)@
                && admin_state_msg(final(msgs)@[old(msgs)@.len() as int], store@, admin_token@, selected)
        } else {
            final(msgs)@ == old(msgs)@
        },
{
    match store.admin_state(admin_token, selected) {
        Some(state) => {
            msgs.push(ServerMessage::AdminState { state });
            assert(msgs@.take(old(msgs)@.len() as int) =~= old(msgs)@);
        },
        None => {},
    }
}

fn push_queue_state(store: &Store, msgs: &mut Vec<ServerMessage>, queue_id: u128, token: Option<&str>, now: Instant)
    requires
        representable(now),
    ensures
        match user_view_of(store@, queue_id, crate::entries::opt_str(token), now) {
            Some(_) => final(msgs)@.len() == old(msgs)@.len() + 1 && final(msgs)@.take(old(msgs)@.len() as int)
                == old(msgs)@ && queue_state_msg(
                final(msgs)@[old(msgs)@.len() as int],
                store@,
                queue_id,
                crate::entries::opt_str(token),
                now,
            ),
            None => final(msgs)@ == old(msgs)@,
        },
{
    match store.user_view_at(queue_id, token, now) {
        Some((queue, your_entry)) => {
            msgs.push(ServerMessage::QueueState { queue, your_entry, site_settings: store.site_settings_view() });
            assert(msgs@.take(old(msgs)@.len() as int) =~= old(msgs)@);
        },
        None => {},
    }
}

pub fn as_str_opt(o: &Option<String>) -> (r: Option<&str>)
    ensures
        crate::entries::opt_str(r) == opt_text(*o),
{
    match o {
        Some(s) => Some(s.as_str()),
        None => None,
    }
}

/// The messages a connection is sent when the queue changes.
pub fn queue_update_messages(
    store: &Store,
    admin: &AdminSubscription,
    queue: &QueueSubscription,
    queue_id: u128,
    now: Instant,
) -> (r: Vec<ServerMessage>)
    requires
        representable(now),
    ensures
        update_messages_ok(store@, admin@, queue@, queue_id, now, r@),
{
    let mut msgs: Vec<ServerMessage> = Vec::new();
    match &admin.admin_token {
        Some(t) => {
            if store.admin_can_see_queue(t.as_str(), queue_id) {
                push_admin_state(store, &mut msgs, t.as_str(), admin.selected_queue_id);
            }
        },
        None => {},
    }
    let ghost before = msgs@;
    if queue.queue_id == Some(queue_id) {
        push_queue_state(store, &mut msgs, queue_id, as_str_opt(&queue.entry_token), now);
    }
    msgs
}

/// The messages a connection is sent, at the current time, when the queue
/// changes.
pub fn queue_update_messages_now(
    store: &Store,
    admin: &AdminSubscription,
    queue: &QueueSubscription,
    queue_id: u128,
) -> (r: Vec<ServerMessage>)
    ensures
        exists|now: Instant| representable(now) && update_messages_ok(store@, admin@, queue@, queue_id, now, r@),
{
    let now = crate::clock::now();
    queue_update_messages(store, admin, queue, queue_id, now)
}

// ---------------------------------------------------------------------------
// After a change was saved
// ---------------------------------------------------------------------------

/// Which account, group or settings change an admin made.
#[derive(Clone, Copy, Debug, PartialEq, Eq, Structural)]
pub enum Notice {
    AccountCreated,
    AccountUpdated,
    AccountDeleted,
    GroupCreated,
    GroupUpdated,
    GroupDeleted,
    SiteSettingsUpdated,
}

/// What is left to do once a change to the store has been saved.
#[derive(Clone, Debug)]
pub enum AfterSave {
    AdminSignedIn { admin: AdminIdentityView },
    UserSignedIn { user: UserIdentityView },
    QueueCreated { admin_token: String, queue_id: u128 },
    QueueSettingsUpdated { admin_token: String, queue_id: u128 },
    AdminDataChanged { admin_token: String, notice: Notice },
    QueueShared { admin_token: String, queue_id: u128 },
    QueueClosed { admin_token: String, queue_id: u128 },
    EntryChanged { queue_id: u128 },
    Joined { queue_id: u128, entry_token: String, user_token: Option<String> },
    Left { queue_id: u128, entry_token: String },
}

/// The messages to send, in order, and the queue whose followers are to
/// be told it changed.
#[derive(Clone, Debug)]
pub struct Outcome {
    pub messages: Vec<ServerMessage>,
    pub broadcast: Option<u128>,
}

pub open spec fn notice_msg(msg: ServerMessage, notice: Notice) -> bool {
    match notice {
        Notice::AccountCreated => msg is AccountCreated,
        Notice::AccountUpdated => msg is AccountUpdated,
        Notice::AccountDeleted => msg is AccountDeleted,
        Notice::GroupCreated => msg is GroupCreated,
        Notice::GroupUpdated => msg is GroupUpdated,
        Notice::GroupDeleted => msg is GroupDeleted,
        Notice::SiteSettingsUpdated => msg is SiteSettingsUpdated,
    }
}

/// `msgs` is the notice then the admin's dashboard state, or nothing when
/// the token is not known.
pub open spec fn notice_then_state(msgs: Seq<ServerMessage>, first: spec_fn(ServerMessage) -> bool, m: StoreModel, token: Seq<char>, selected: Option<u128>) -> bool {
    if admin_identity_of(m, token) is Some {
        msgs.len() == 2 && first(msgs[0]) && admin_state_msg(msgs[1], m, token, selected)
    } else {
        msgs.len() == 0
    }
}

/// How a saved change is answered and what the connection follows next.
pub open spec fn finished(
    m: StoreModel,
    after: AfterSave,
    now: Instant,
    a0: AdminSubModel,
    q0: QueueSubModel,
    a1: AdminSubModel,
    q1: QueueSubModel,
    msgs: Seq<ServerMessage>,
    broadcast: Option<u128>,
) -> bool {
    match after {
        AfterSave::AdminSignedIn { admin } => {
            &&& a1 == AdminSubModel { admin_token: Some(admin.token@), ..a0 }
            &&& q1 == q0
            &&& broadcast is None
            &&& msgs.len() >= 1
            &&& (msgs[0] matches ServerMessage::AdminLoggedIn { admin: x } && x@ == admin@)
            &&& state_follows(msgs, 1, m, admin.token@, None)
        },
        AfterSave::UserSignedIn { user } => {
            &&& a1 == a0
            &&& q1 == QueueSubModel { user_token: Some(user.token@), ..q0 }
            &&& broadcast is None
            &&& msgs.len() == 1
            &&& (msgs[0] matches ServerMessage::UserLoggedIn { user: x } && x@ == user@)
        },
        AfterSave::QueueCreated { admin_token, queue_id } => {
            &&& a1 == AdminSubModel { admin_token: Some(admin_token@), selected_queue_id: Some(queue_id) }
            &&& q1 == q0
            &&& broadcast == Some(queue_id)
            &&& msgs.len() >= 1
            &&& (msgs[0] matches ServerMessage::QueueCreated { queue_id: x } && x == queue_id)
            &&& state_follows(msgs, 1, m, admin_token@, Some(queue_id))
        },
        AfterSave::QueueSettingsUpdated { admin_token, queue_id } => {
            &&& a1 == a0
            &&& q1 == q0
            &&& broadcast == Some(queue_id)
            &&& notice_then_state(msgs, |x: ServerMessage| x is QueueSettingsUpdated, m, admin_token@, Some(queue_id))
        },
        AfterSave::AdminDataChanged { admin_token, notice } => {
            &&& a1 == a0
            &&& q1 == q0
            &&& broadcast is None
            &&& notice_then_state(msgs, |x: ServerMessage| notice_msg(x, notice), m, admin_token@, a0.selected_queue_id)
        },
        AfterSave::QueueShared { admin_token, queue_id } => {
            &&& a1 == a0
            &&& q1 == q0
            &&& broadcast == Some(queue_id)
            &&& notice_then_state(msgs, |x: ServerMessage| x is QueueSharingUpdated, m, admin_token@, Some(queue_id))
        },
        AfterSave::QueueClosed { admin_token, queue_id } => {
            &&& a1 == AdminSubModel { selected_queue_id: None, ..a0 }
            &&& q1 == q0
            &&& broadcast == Some(queue_id)
            &&& notice_then_state(msgs, |x: ServerMessage| x is QueueClosed, m, admin_token@, None)
        },
        AfterSave::EntryChanged { queue_id } => {
            &&& a1 == a0
            &&& q1 == q0
            &&& broadcast == Some(queue_id)
            &&& msgs.len() == 0
        },
        AfterSave::Joined { queue_id, entry_token, user_token } => {
            &&& a1 == a0
            &&& q1 == QueueSubModel {
                queue_id: Some(queue_id),
                entry_token: Some(entry_token@),
                user_token: opt_text(user_token),
            }
            &&& broadcast == Some(queue_id)
            &&& queue_state_follows(msgs, m, queue_id, Some(entry_token@), now)
        },
        AfterSave::Left { queue_id, entry_token } => {
            &&& a1 == a0
            &&& q1 == QueueSubModel { queue_id: Some(queue_id), entry_token: Some(entry_token@), ..q0 }
            &&& broadcast == Some(queue_id)
            &&& queue_state_follows(msgs, m, queue_id, Some(entry_token@), now)
        },
    }
}

fn notice_message(notice: Notice) -> (r: ServerMessage)
    ensures
        notice_msg(r, notice),
{
    match notice {
        Notice::AccountCreated => ServerMessage::AccountCreated,
        Notice::AccountUpdated => ServerMessage::AccountUpdated,
        Notice::AccountDeleted => ServerMessage::AccountDeleted,
        Notice::GroupCreated => ServerMessage::GroupCreated,
        Notice::GroupUpdated => ServerMessage::GroupUpdated,
        Notice::GroupDeleted => ServerMessage::GroupDeleted,
        Notice::SiteSettingsUpdated => ServerMessage::SiteSettingsUpdated,
    }
}

/// The notice then the dashboard state, only when the admin is known.
fn notice_and_state(store: &Store, first: ServerMessage, admin_token: &str, selected: Option<u128>) -> (r: Vec<ServerMessage>)
    ensures
        if admin_identity_of(store@, admin_token@) is Some {
            r@.len() == 2 && r@[0] == first && admin_state_msg(r@[1], store@, admin_token@, selected)
        } else {
            r@.len() == 0
        },
{
    match store.admin_state(admin_token, selected) {
        Some(state) => {
            let mut msgs: Vec<ServerMessage> = Vec::new();
            msgs.push(first);
            msgs.push(ServerMessage::AdminState { state });
            msgs
        },
        None => Vec::new(),
    }
}

/// Answers a change once it has been saved, and updates what the
/// connection follows.
pub fn finish_command(
    store: &Store,
    after: AfterSave,
    now: Instant,
    admin: &mut AdminSubscription,
    queue: &mut QueueSubscription,
) -> (r: Outcome)
    requires
        representable(now),
    ensures
        finished(store@, after, now, old(admin)@, old(queue)@, final(admin)@, final(queue)@, r.messages@, r.broadcast),
{
    match after {
        AfterSave::AdminSignedIn { admin: v } => {
            let token = v.token.clone();
            admin.admin_token = Some(v.token.clone());
            let mut msgs: Vec<ServerMessage> = Vec::new();
            msgs.push(ServerMessage::AdminLoggedIn { admin: v });
            let ghost before = msgs@;
            push_admin_state(store, &mut msgs, token.as_str(), None);
            assert(msgs@[0] == msgs@.take(1)[0]);
            assert(msgs@[0] == before[0]);
            Outcome { messages: msgs, broadcast: None }
        },
        AfterSave::UserSignedIn { user } => {
            queue.user_token = Some(user.token.clone());
            let mut msgs: Vec<ServerMessage> = Vec::new();
            msgs.push(ServerMessage::UserLoggedIn { user });
            Outcome { messages: msgs, broadcast: None }
        },
        AfterSave::QueueCreated { admin_token, queue_id } => {
            admin.admin_token = Some(admin_token.clone());
            admin.selected_queue_id = Some(queue_id);
            let mut msgs: Vec<ServerMessage> = Vec::new();
            msgs.push(ServerMessage::QueueCreated { queue_id });
            let ghost before = msgs@;
            push_admin_state(store, &mut msgs, admin_token.as_str(), Some(queue_id));
            assert(msgs@[0] == msgs@.take(1)[0]);
            assert(msgs@[0] == before[0]);
            Outcome { messages: msgs, broadcast: Some(queue_id) }
        },
        AfterSave::QueueSettingsUpdated { admin_token, queue_id } => {
            let msgs = notice_and_state(store, ServerMessage::QueueSettingsUpdated, admin_token.as_str(), Some(queue_id));
            Outcome { messages: msgs, broadcast: Some(queue_id) }
        },
        AfterSave::AdminDataChanged { admin_token, notice } => {
            let msgs = notice_and_state(store, notice_message(notice), admin_token.as_str(), admin.selected_queue_id);
            Outcome { messages: msgs, broadcast: None }
        },
        AfterSave::QueueShared { admin_token, queue_id } => {
            let msgs = notice_and_state(store, ServerMessage::QueueSharingUpdated, admin_token.as_str(), Some(queue_id));
            Outcome { messages: msgs, broadcast: Some(queue_id) }
        },
        AfterSave::QueueClosed { admin_token, queue_id } => {
            admin.selected_queue_id = None;
            let msgs = notice_and_state(store, ServerMessage::QueueClosed, admin_token.as_str(), None);
            Outcome { messages: msgs, broadcast: Some(queue_id) }
        },
        AfterSave::EntryChanged { queue_id } => Outcome { messages: Vec::new(), broadcast: Some(queue_id) },
        AfterSave::Joined { queue_id, entry_token, user_token } => {
            queue.queue_id = Some(queue_id);
            queue.entry_token = Some(entry_token.clone());
            queue.user_token = user_token;
            let mut msgs: Vec<ServerMessage> = Vec::new();
            push_queue_state(store, &mut msgs, queue_id, Some(entry_token.as_str()), now);
            Outcome { messages: msgs, broadcast: Some(queue_id) }
        },
        AfterSave::Left { queue_id, entry_token } => {
            queue.queue_id = Some(queue_id);
            queue.entry_token = Some(entry_token.clone());
            let mut msgs: Vec<ServerMessage> = Vec::new();
            push_queue_state(store, &mut msgs, queue_id, Some(entry_token.as_str()), now);
            Outcome { messages: msgs, broadcast: Some(queue_id) }
        },
    }
}

// ---------------------------------------------------------------------------
// Taking a request
// ---------------------------------------------------------------------------

/// What a request comes to: messages to send at once, or a change to save
/// first.
#[derive(Clone, Debug)]
pub enum Step {
    Reply(Vec<ServerMessage>),
    Save(AfterSave),
}

pub open spec fn failed_with(r: Result<Step, String>, e: Seq<char>) -> bool {
    r is Err && r->Err_0@ == e
}

/// A change whose outcome is `res`: saved and followed up as `after` says,
/// or refused with the change's error.
pub open spec fn saved_as<T>(res: Result<T, Seq<char>>, r: Result<Step, String>, after: spec_fn(AfterSave) -> bool) -> bool {
    match res {
        Ok(_) => r matches Ok(Step::Save(a)) && after(a),
        Err(e) => failed_with(r, e),
    }
}

pub open spec fn signed_in_admin(res: Result<AdminIdentityModel, Seq<char>>) -> spec_fn(AfterSave) -> bool {
    |a: AfterSave| a matches AfterSave::AdminSignedIn { admin } && res == Ok::<AdminIdentityModel, Seq<char>>(admin@)
}

pub open spec fn signed_in_user(res: Result<UserIdentityModel, Seq<char>>) -> spec_fn(AfterSave) -> bool {
    |a: AfterSave| a matches AfterSave::UserSignedIn { user } && res == Ok::<UserIdentityModel, Seq<char>>(user@)
}

pub open spec fn data_changed(token: Seq<char>, notice: Notice) -> spec_fn(AfterSave) -> bool {
    |a: AfterSave| a matches AfterSave::AdminDataChanged { admin_token, notice: n } && admin_token@ == token && n == notice
}

pub open spec fn entry_changed(res: Result<u128, Seq<char>>) -> spec_fn(AfterSave) -> bool {
    |a: AfterSave| a matches AfterSave::EntryChanged { queue_id } && res == Ok::<u128, Seq<char>>(queue_id)
}

pub open spec fn entry_step(m: StoreModel, m1: StoreModel, token: Seq<char>, entry_id: u128, action: EntryAction, r: Result<Step, String>) -> bool {
    let (m2, res) = entry_handling(m, token, entry_id, action);
    m1 == m2 && saved_as(res, r, entry_changed(res))
}

/// What a request does to the store and to what the connection follows,
/// and what it comes to, with `now` the time it is taken at.
pub open spec fn applied(
    m: StoreModel,
    cmd: ClientMessage,
    now: Instant,
    m1: StoreModel,
    a0: AdminSubModel,
    q0: QueueSubModel,
    a1: AdminSubModel,
    q1: QueueSubModel,
    r: Result<Step, String>,
) -> bool {
    match cmd {
        ClientMessage::CheckSetup => {
            &&& m1 == m && a1 == a0 && q1 == q0
            &&& r matches Ok(Step::Reply(msgs)) && msgs@.len() == 1
            &&& (r->Ok_0->Reply_0@[0] matches ServerMessage::SetupState { needs_setup: x } && x == needs_setup(m))
        },
        ClientMessage::ListPublicQueues => {
            &&& m1 == m && a1 == a0 && q1 == q0
            &&& r matches Ok(Step::Reply(msgs)) && msgs@.len() == 1
            &&& (r->Ok_0->Reply_0@[0] matches ServerMessage::PublicQueues { queues, site_settings } && public_list_ok(
                m,
                now,
                summaries_model(queues@),
            ) && site_settings@ == m.settings)
        },
        ClientMessage::SetupSuperAdmin { name, email, password } => {
            &&& a1 == a0 && q1 == q0
            &&& (needs_setup(m) && m.settings.admin_password_sign_in_enabled && email_norm(email@) is Ok
                && trimmed(name@).len() > 0 && trimmed(password@).len() > 0 && pwd_fits(trimmed(password@)) ==> r is Ok)
            &&& exists|fresh: u128, hash: Result<Seq<char>, Seq<char>>, seed: u128|
                #![trigger initial_setup(m, name@, email@, password@, fresh, hash, uuid_text(seed))]
                hash_fits(hash, trimmed(password@)) && {
                    let p = initial_setup(m, name@, email@, password@, fresh, hash, uuid_text(seed));
                    m1 == p.0 && saved_as(p.1, r, signed_in_admin(p.1))
                }
        },
        ClientMessage::LoginAdmin { email, password } => {
            &&& a1 == a0 && q1 == q0
            &&& exists|seed: u128|
                #![trigger admin_login(m, email@, password@, uuid_text(seed))]
                {
                let p = admin_login(m, email@, password@, uuid_text(seed));
                m1 == p.0 && saved_as(p.1, r, signed_in_admin(p.1))
            }
        },
        ClientMessage::LoginUser { email, password } => {
            &&& a1 == a0 && q1 == q0
            &&& exists|seed: u128|
                #![trigger user_login(m, email@, password@, uuid_text(seed))]
                {
                let p = user_login(m, email@, password@, uuid_text(seed));
                m1 == p.0 && saved_as(p.1, r, signed_in_user(p.1))
            }
        },
        ClientMessage::SubscribeAdmin { admin_token, selected_queue_id } => {
            &&& m1 == m && q1 == q0
            &&& if admin_identity_of(m, admin_token@) is None {
                failed_with(r, "unknown admin session"@) && a1 == a0
            } else {
                &&& r matches Ok(Step::Reply(msgs)) && msgs@.len() == 1
                &&& (r->Ok_0->Reply_0@[0] matches ServerMessage::AdminState { state } && admin_state_ok(
                    m,
                    admin_token@,
                    selected_queue_id,
                    Some(state@),
                ) && a1 == AdminSubModel {
                    admin_token: Some(admin_token@),
                    selected_queue_id: match state@.selected_queue {
                        Some(q) => Some(q.summary.id),
                        None => None,
                    },
                })
            }
        },
        ClientMessage::CreateQueue { admin_token, name, fields, allow_guests, is_public, opens_at, weekly_schedule } => {
            &&& a1 == a0 && q1 == q0
            &&& (queue_creation(
                m,
                admin_token@,
                name@,
                fields_model(fields@),
                allow_guests,
                is_public,
                opt_text(opens_at),
                weekly_schedule,
                0,
                Some(Seq::empty()),
            ).1 is Ok && (exists|v: u128| !codes_in_use(m).contains(#[trigger] code_text(v))) ==> r is Ok)
            &&& (queue_creation(
                m,
                admin_token@,
                name@,
                fields_model(fields@),
                allow_guests,
                is_public,
                opt_text(opens_at),
                weekly_schedule,
                0,
                Some(Seq::empty()),
            ).1 is Ok && codes_in_use(m).len() < 0x100_0000 ==> r is Ok)
            &&& exists|id: u128, code: Option<Seq<char>>|
                #![trigger queue_creation(m, admin_token@, name@, fields_model(fields@), allow_guests, is_public, opt_text(opens_at), weekly_schedule, id, code)]
                (code matches Some(c) ==> !codes_in_use(m).contains(c) && exists|v: u128| c == code_text(v)) && {
                    let p = queue_creation(
                        m,
                        admin_token@,
                        name@,
                        fields_model(fields@),
                        allow_guests,
                        is_public,
                        opt_text(opens_at),
                        weekly_schedule,
                        id,
                        code,
                    );
                    m1 == p.0 && saved_as(
                        p.1,
                        r,
                        |a: AfterSave|
                            a matches AfterSave::QueueCreated { admin_token: t, queue_id } && t@ == admin_token@
                                && p.1 == Ok::<u128, Seq<char>>(queue_id),
                    )
                }
        },
        ClientMessage::UpdateQueueSettings { admin_token, queue_id, fields, allow_guests, is_public, opens_at, weekly_schedule } => {
            let p = queue_settings_update(
                m,
                admin_token@,
                queue_id,
                fields_model(fields@),
                allow_guests,
                is_public,
                opt_text(opens_at),
                weekly_schedule,
            );
            &&& a1 == a0 && q1 == q0 && m1 == p.0
            &&& saved_as(
                p.1,
                r,
                |a: AfterSave|
                    a matches AfterSave::QueueSettingsUpdated { admin_token: t, queue_id: x } && t@ == admin_token@
                        && x == queue_id,
            )
        },
        ClientMessage::CreateAccount { admin_token, name, email, password, role } => {
            &&& a1 == a0 && q1 == q0
            &&& (pwd_fits(trimmed(password@)) && account_creation(m, admin_token@, name@, email@, password@, role, 0, Ok(Seq::empty())).1
                is Ok ==> r is Ok)
            &&& exists|fresh: u128, hash: Result<Seq<char>, Seq<char>>|
                #![trigger account_creation(m, admin_token@, name@, email@, password@, role, fresh, hash)]
                hash_fits(hash, trimmed(password@)) && {
                    let p = account_creation(m, admin_token@, name@, email@, password@, role, fresh, hash);
                    m1 == p.0 && saved_as(p.1, r, data_changed(admin_token@, Notice::AccountCreated))
                }
        },
        ClientMessage::UpdateAccount { admin_token, account_id, name, email, password, role } => {
            &&& a1 == a0 && q1 == q0
            &&& ((opt_text(password) matches Some(pw) ==> pwd_fits(trimmed(pw))) && account_update(
                m,
                admin_token@,
                account_id,
                name@,
                email@,
                opt_text(password),
                role,
                Ok(Seq::empty()),
            ).1 is Ok ==> r is Ok)
            &&& exists|hash: Result<Seq<char>, Seq<char>>|
                #![trigger account_update(m, admin_token@, account_id, name@, email@, opt_text(password), role, hash)]
                {
                let p = account_update(m, admin_token@, account_id, name@, email@, opt_text(password), role, hash);
                &&& (opt_text(password) matches Some(pw) ==> hash_fits(hash, trimmed(pw)))
                &&& m1 == p.0 && saved_as(p.1, r, data_changed(admin_token@, Notice::AccountUpdated))
            }
        },
        ClientMessage::DeleteAccount { admin_token, account_id } => {
            let p = account_deletion(m, admin_token@, account_id);
            &&& a1 == a0 && q1 == q0 && m1 == p.0
            &&& saved_as(p.1, r, data_changed(admin_token@, Notice::AccountDeleted))
        },
        ClientMessage::CreateGroup { admin_token, name, role, member_ids } => {
            &&& a1 == a0 && q1 == q0
            &&& exists|id: u128|
                #![trigger group_creation(m, admin_token@, name@, role, member_ids@, id)]
                {
                let p = group_creation(m, admin_token@, name@, role, member_ids@, id);
                m1 == p.0 && saved_as(p.1, r, data_changed(admin_token@, Notice::GroupCreated))
            }
        },
        ClientMessage::UpdateGroup { admin_token, group_id, name, role, member_ids } => {
            let p = group_update(m, admin_token@, group_id, name@, role, member_ids@);
            &&& a1 == a0 && q1 == q0 && m1 == p.0
            &&& saved_as(p.1, r, data_changed(admin_token@, Notice::GroupUpdated))
        },
        ClientMessage::DeleteGroup { admin_token, group_id } => {
            let p = group_deletion(m, admin_token@, group_id);
            &&& a1 == a0 && q1 == q0 && m1 == p.0
            &&& saved_as(p.1, r, data_changed(admin_token@, Notice::GroupDeleted))
        },
        ClientMessage::UpdateSiteSettings {
            admin_token,
            site_title,
            admin_password_sign_in_enabled,
            admin_microsoft_sign_in_enabled,
            user_password_sign_in_enabled,
            user_microsoft_sign_in_enabled,
        } => {
            let p = settings_update(
                m,
                admin_token@,
                site_title@,
                admin_password_sign_in_enabled,
                admin_microsoft_sign_in_enabled,
                user_password_sign_in_enabled,
                user_microsoft_sign_in_enabled,
            );
            &&& a1 == a0 && q1 == q0 && m1 == p.0
            &&& saved_as(p.1, r, data_changed(admin_token@, Notice::SiteSettingsUpdated))
        },
        ClientMessage::ShareQueue { admin_token, queue_id, account_ids, group_ids } => {
            let p = queue_sharing(m, admin_token@, queue_id, account_ids@, group_ids@);
            &&& a1 == a0 && q1 == q0 && m1 == p.0
            &&& saved_as(
                p.1,
                r,
                |a: AfterSave|
                    a matches AfterSave::QueueShared { admin_token: t, queue_id: x } && t@ == admin_token@ && x
                        == queue_id,
            )
        },
        ClientMessage::CloseQueue { admin_token, queue_id } => {
            let p = queue_closing(m, admin_token@, queue_id, rfc3339_text(now.secs, now.nanos)->0);
            &&& a1 == a0 && q1 == q0 && m1 == p.0
            &&& saved_as(
                p.1,
                r,
                |a: AfterSave|
                    a matches AfterSave::QueueClosed { admin_token: t, queue_id: x } && t@ == admin_token@ && x
                        == queue_id,
            )
        },
        ClientMessage::ClaimEntry { admin_token, entry_id } => a1 == a0 && q1 == q0 && entry_step(
            m,
            m1,
            admin_token@,
            entry_id,
            EntryAction::Claim,
            r,
        ),
        ClientMessage::UnclaimEntry { admin_token, entry_id } => a1 == a0 && q1 == q0 && entry_step(
            m,
            m1,
            admin_token@,
            entry_id,
            EntryAction::Unclaim,
            r,
        ),
        ClientMessage::ResolveEntry { admin_token, entry_id } => a1 == a0 && q1 == q0 && entry_step(
            m,
            m1,
            admin_token@,
            entry_id,
            EntryAction::SetStatus(QueueEntryStatus::Resolved),
            r,
        ),
        ClientMessage::DenyEntry { admin_token, entry_id } => a1 == a0 && q1 == q0 && entry_step(
            m,
            m1,
            admin_token@,
            entry_id,
            EntryAction::SetStatus(QueueEntryStatus::Denied),
            r,
        ),
        ClientMessage::SubscribeQueue { queue_id, entry_token, user_token } => {
            &&& m1 == m && a1 == a0
            &&& match unavailable_message_of(m, queue_id, now) {
                Some(msg) => failed_with(r, msg) && q1 == q0,
                None => if user_view_of(m, queue_id, opt_text(entry_token), now) is None {
                    failed_with(r, "unknown queue"@) && q1 == q0
                } else {
                    &&& q1 == QueueSubModel {
                        queue_id: Some(queue_id),
                        entry_token: opt_text(entry_token),
                        user_token: opt_text(user_token),
                    }
                    &&& r matches Ok(Step::Reply(msgs)) && msgs@.len() == 1
                    &&& queue_state_msg(r->Ok_0->Reply_0@[0], m, queue_id, opt_text(entry_token), now)
                },
            }
        },
        ClientMessage::JoinQueue { queue_id, values, user_token, entry_token } => {
            &&& a1 == a0 && q1 == q0
            &&& exists|id: u128, seed: u128|
                #![trigger joining(m, queue_id, values@, opt_text(user_token), opt_text(entry_token), now, id, uuid_text(seed))]
                {
                let p = joining(m, queue_id, values@, opt_text(user_token), opt_text(entry_token), now, id, uuid_text(seed));
                m1 == p.0 && saved_as(
                    p.1,
                    r,
                    |a: AfterSave|
                        a matches AfterSave::Joined { queue_id: x, entry_token: t, user_token: u } && x == queue_id
                            && p.1 == Ok::<Seq<char>, Seq<char>>(t@) && opt_text(u) == opt_text(user_token),
                )
            }
        },
        ClientMessage::LeaveQueue { queue_id, entry_token } => {
            let p = leaving(m, queue_id, entry_token@, rfc3339_text(now.secs, now.nanos)->0);
            &&& a1 == a0 && q1 == q0 && m1 == p.0
            &&& saved_as(
                p.1,
                r,
                |a: AfterSave|
                    a matches AfterSave::Left { queue_id: x, entry_token: t } && x == queue_id && t@ == entry_token@,
            )
        },
    }
}

fn save_unit(res: Result<(), String>, after: AfterSave) -> (r: Result<Step, String>)
    ensures
        match res {
            Ok(_) => r matches Ok(Step::Save(a)) && a == after,
            Err(e) => r is Err && r->Err_0 == e,
        },
{
    match res {
        Ok(_) => Ok(Step::Save(after)),
        Err(e) => Err(e),
    }
}

fn entry_result(res: Result<u128, String>) -> (r: Result<Step, String>)
    ensures
        match res {
            Ok(q) => r matches Ok(Step::Save(a)) && a == (AfterSave::EntryChanged { queue_id: q }),
            Err(e) => r is Err && r->Err_0 == e,
        },
{
    match res {
        Ok(q) => Ok(Step::Save(AfterSave::EntryChanged { queue_id: q })),
        Err(e) => Err(e),
    }
}

impl Store {
    /// Takes a request at time `now`: changes the store and what the
    /// connection follows as the request asks, and says what to answer, or
    /// what to do once the change is saved.
    #[verifier::rlimit(60)]
    pub fn apply_command_at(
        &mut self,
        cmd: ClientMessage,
        now: Instant,
        admin: &mut AdminSubscription,
        queue: &mut QueueSubscription,
    ) -> (r: Result<Step, String>)
        requires
            representable(now),
        ensures
            applied(old(self)@, cmd, now, final(self)@, old(admin)@, old(queue)@, final(admin)@, final(queue)@, r),
    {
        let ghost m = self@;
        let ghost c = cmd;
        match cmd {
            ClientMessage::CheckSetup => {
                let needs = self.needs_initial_setup();
                Ok(Step::Reply(vec![ServerMessage::SetupState { needs_setup: needs }]))
            },
            ClientMessage::ListPublicQueues => {
                let queues = self.public_queues_at(now);
                let site_settings = self.site_settings_view();
                Ok(Step::Reply(vec![ServerMessage::PublicQueues { queues, site_settings }]))
            },
            ClientMessage::SetupSuperAdmin { name, email, password } => {
                let ghost (n, e, pw) = (name@, email@, password@);
                let res = self.setup_initial_super_admin(name, email, password);
                let ghost rv = admin_result(res);
                let r = match res {
                    Ok(v) => Ok(Step::Save(AfterSave::AdminSignedIn { admin: v })),
                    Err(x) => Err(x),
                };
                proof {
                    let (fresh, hash, seed) = choose|fresh: u128, hash: Result<Seq<char>, Seq<char>>, seed: u128|
                        hash_fits(hash, trimmed(pw)) && (self@, rv) == initial_setup(m, n, e, pw, fresh, hash, uuid_text(seed));
                    let p = initial_setup(m, n, e, pw, fresh, hash, uuid_text(seed));
                    assert(self@ == p.0 && saved_as(p.1, r, signed_in_admin(p.1)));
                }
                r
            },
            ClientMessage::LoginAdmin { email, password } => {
                let ghost (e, pw) = (email@, password@);
                let res = self.login_admin(email, password);
                let ghost rv = admin_result(res);
                let r = match res {
                    Ok(v) => Ok(Step::Save(AfterSave::AdminSignedIn { admin: v })),
                    Err(x) => Err(x),
                };
                proof {
                    let seed = choose|seed: u128| (self@, rv) == admin_login(m, e, pw, uuid_text(seed));
                    let p = admin_login(m, e, pw, uuid_text(seed));
                    assert(self@ == p.0 && saved_as(p.1, r, signed_in_admin(p.1)));
                }
                r
            },
            ClientMessage::LoginUser { email, password } => {
                let ghost (e, pw) = (email@, password@);
                let res = self.login_user(email, password);
                let ghost rv = user_result(res);
                let r = match res {
                    Ok(v) => Ok(Step::Save(AfterSave::UserSignedIn { user: v })),
                    Err(x) => Err(x),
                };
                proof {
                    let seed = choose|seed: u128| (self@, rv) == user_login(m, e, pw, uuid_text(seed));
                    let p = user_login(m, e, pw, uuid_text(seed));
                    assert(self@ == p.0 && saved_as(p.1, r, signed_in_user(p.1)));
                }
                r
            },
            ClientMessage::SubscribeAdmin { admin_token, selected_queue_id } => {
                match self.admin_state(admin_token.as_str(), selected_queue_id) {
                    None => Err(crate::text::owned("unknown admin session")),
                    Some(state) => {
                        let selected = match &state.selected_queue {
                            Some(q) => Some(q.summary.id),
                            None => None,
                        };
                        admin.admin_token = Some(admin_token);
                        admin.selected_queue_id = selected;
                        Ok(Step::Reply(vec![ServerMessage::AdminState { state }]))
                    },
                }
            },
            ClientMessage::CreateQueue { admin_token, name, fields, allow_guests, is_public, opens_at, weekly_schedule } => {
                let ghost (t, n, fm, oa) = (admin_token@, name@, fields_model(fields@), opt_text(opens_at));
                let token = admin_token.clone();
                let res = self.create_queue(admin_token.as_str(), name, fields, allow_guests, is_public, opens_at, weekly_schedule);
                let ghost rv = u128_result(res);
                let r = match res {
                    Ok(id) => Ok(Step::Save(AfterSave::QueueCreated { admin_token: token, queue_id: id })),
                    Err(x) => Err(x),
                };
                proof {
                    let (id, code) = choose|id: u128, code: Option<Seq<char>>|
                        (code matches Some(cc) ==> !codes_in_use(m).contains(cc) && exists|v: u128| cc == code_text(v))
                        && (self@, rv) == queue_creation(m, t, n, fm, allow_guests, is_public, oa, weekly_schedule, id, code);
                    let p = queue_creation(m, t, n, fm, allow_guests, is_public, oa, weekly_schedule, id, code);
                    assert(self@ == p.0);
                }
                r
            },
            ClientMessage::UpdateQueueSettings { admin_token, queue_id, fields, allow_guests, is_public, opens_at, weekly_schedule } => {
                let token = admin_token.clone();
                let res = self.update_queue_settings(admin_token.as_str(), queue_id, fields, allow_guests, is_public, opens_at, weekly_schedule);
                save_unit(res, AfterSave::QueueSettingsUpdated { admin_token: token, queue_id })
            },
            ClientMessage::CreateAccount { admin_token, name, email, password, role } => {
                let ghost (t, n, e, pw) = (admin_token@, name@, email@, password@);
                let token = admin_token.clone();
                let res = self.create_account(admin_token.as_str(), name, email, password, role);
                let ghost rv = unit_result(res);
                let r = save_unit(res, AfterSave::AdminDataChanged { admin_token: token, notice: Notice::AccountCreated });
                proof {
                    let (fresh, hash) = choose|fresh: u128, hash: Result<Seq<char>, Seq<char>>|
                        hash_fits(hash, trimmed(pw)) && (self@, rv) == account_creation(m, t, n, e, pw, role, fresh, hash);
                    let p = account_creation(m, t, n, e, pw, role, fresh, hash);
                    assert(self@ == p.0 && saved_as(p.1, r, data_changed(t, Notice::AccountCreated)));
                }
                r
            },
            ClientMessage::UpdateAccount { admin_token, account_id, name, email, password, role } => {
                let ghost (t, n, e, pw) = (admin_token@, name@, email@, opt_text(password));
                let token = admin_token.clone();
                let res = self.update_account(admin_token.as_str(), account_id, name, email, password, role);
                let ghost rv = unit_result(res);
                let r = save_unit(res, AfterSave::AdminDataChanged { admin_token: token, notice: Notice::AccountUpdated });
                proof {
                    let hash = choose|hash: Result<Seq<char>, Seq<char>>|
                        (pw matches Some(x) ==> hash_fits(hash, trimmed(x))) && (self@, rv) == account_update(m, t, account_id, n, e, pw, role, hash);
                    let p = account_update(m, t, account_id, n, e, pw, role, hash);
                    assert(self@ == p.0 && saved_as(p.1, r, data_changed(t, Notice::AccountUpdated)));
                }
                r
            },
            ClientMessage::DeleteAccount { admin_token, account_id } => {
                let token = admin_token.clone();
                let res = self.delete_account(admin_token.as_str(), account_id);
                save_unit(res, AfterSave::AdminDataChanged { admin_token: token, notice: Notice::AccountDeleted })
            },
            ClientMessage::CreateGroup { admin_token, name, role, member_ids } => {
                let ghost (t, n, ids) = (admin_token@, name@, member_ids@);
                let token = admin_token.clone();
                let res = self.create_group(admin_token.as_str(), name, role, member_ids);
                let ghost rv = unit_result(res);
                let r = save_unit(res, AfterSave::AdminDataChanged { admin_token: token, notice: Notice::GroupCreated });
                proof {
                    let id = choose|id: u128| (self@, rv) == group_creation(m, t, n, role, ids, id);
                    let p = group_creation(m, t, n, role, ids, id);
                    assert(self@ == p.0 && saved_as(p.1, r, data_changed(t, Notice::GroupCreated)));
                }
                r
            },
            ClientMessage::UpdateGroup { admin_token, group_id, name, role, member_ids } => {
                let token = admin_token.clone();
                let res = self.update_group(admin_token.as_str(), group_id, name, role, member_ids);
                save_unit(res, AfterSave::AdminDataChanged { admin_token: token, notice: Notice::GroupUpdated })
            },
            ClientMessage::DeleteGroup { admin_token, group_id } => {
                let token = admin_token.clone();
                let res = self.delete_group(admin_token.as_str(), group_id);
                save_unit(res, AfterSave::AdminDataChanged { admin_token: token, notice: Notice::GroupDeleted })
            },
            ClientMessage::UpdateSiteSettings {
                admin_token,
                site_title,
                admin_password_sign_in_enabled,
                admin_microsoft_sign_in_enabled,
                user_password_sign_in_enabled,
                user_microsoft_sign_in_enabled,
            } => {
                let token = admin_token.clone();
                let res = self.update_site_settings(
                    admin_token.as_str(),
                    site_title,
                    admin_password_sign_in_enabled,
                    admin_microsoft_sign_in_enabled,
                    user_password_sign_in_enabled,
                    user_microsoft_sign_in_enabled,
                );
                save_unit(res, AfterSave::AdminDataChanged { admin_token: token, notice: Notice::SiteSettingsUpdated })
            },
            ClientMessage::ShareQueue { admin_token, queue_id, account_ids, group_ids } => {
                let token = admin_token.clone();
                let res = self.share_queue(admin_token.as_str(), queue_id, account_ids, group_ids);
                save_unit(res, AfterSave::QueueShared { admin_token: token, queue_id })
            },
            ClientMessage::CloseQueue { admin_token, queue_id } => {
                let token = admin_token.clone();
                let res = self.close_queue_at(admin_token.as_str(), queue_id, now);
                save_unit(res, AfterSave::QueueClosed { admin_token: token, queue_id })
            },
            ClientMessage::ClaimEntry { admin_token, entry_id } => {
                let res = self.claim_entry(admin_token.as_str(), entry_id);
                entry_result(res)
            },
            ClientMessage::UnclaimEntry { admin_token, entry_id } => {
                let res = self.unclaim_entry(admin_token.as_str(), entry_id);
                entry_result(res)
            },
            ClientMessage::ResolveEntry { admin_token, entry_id } => {
                let res = self.update_entry_status(admin_token.as_str(), entry_id, QueueEntryStatus::Resolved);
                entry_result(res)
            },
            ClientMessage::DenyEntry { admin_token, entry_id } => {
                let res = self.update_entry_status(admin_token.as_str(), entry_id, QueueEntryStatus::Denied);
                entry_result(res)
            },
            ClientMessage::SubscribeQueue { queue_id, entry_token, user_token } => {
                match self.queue_unavailable_message_at(queue_id, now) {
                    Some(msg) => {
                        return Err(msg);
                    },
                    None => {},
                }
                match self.user_view_at(queue_id, as_str_opt(&entry_token), now) {
                    None => Err(crate::text::owned("unknown queue")),
                    Some((q, your_entry)) => {
                        let site_settings = self.site_settings_view();
                        queue.queue_id = Some(queue_id);
                        queue.entry_token = entry_token;
                        queue.user_token = user_token;
                        Ok(Step::Reply(vec![ServerMessage::QueueState { queue: q, your_entry, site_settings }]))
                    },
                }
            },
            ClientMessage::JoinQueue { queue_id, values, user_token, entry_token } => {
                let ghost (vals, ut, et) = (values@, opt_text(user_token), opt_text(entry_token));
                let res = self.join_queue_at(queue_id, values, as_str_opt(&user_token), as_str_opt(&entry_token), now);
                let ghost rv = text_result(res);
                let r = match res {
                    Ok(t) => Ok(Step::Save(AfterSave::Joined { queue_id, entry_token: t, user_token })),
                    Err(x) => Err(x),
                };
                proof {
                    let (id, seed) = choose|id: u128, seed: u128|
                        (self@, rv) == joining(m, queue_id, vals, ut, et, now, id, uuid_text(seed));
                    let p = joining(m, queue_id, vals, ut, et, now, id, uuid_text(seed));
                    assert(self@ == p.0);
                }
                r
            },
            ClientMessage::LeaveQueue { queue_id, entry_token } => {
                let res = self.leave_queue_at(queue_id, entry_token.as_str(), now);
                save_unit(res, AfterSave::Left { queue_id, entry_token })
            },
        }
    }
}

impl Store {
    /// Takes a request at the current time, which it returns beside the
    /// outcome so that what follows a saved change uses the same instant.
    pub fn apply_command(
        &mut self,
        cmd: ClientMessage,
        admin: &mut AdminSubscription,
        queue: &mut QueueSubscription,
    ) -> (r: (Instant, Result<Step, String>))
        ensures
            representable(r.0),
            applied(old(self)@, cmd, r.0, final(self)@, old(admin)@, old(queue)@, final(admin)@, final(queue)@, r.1),
    {
        let now = crate::clock::now();
        let r = self.apply_command_at(cmd, now, admin, queue);
        (now, r)
    }
}

} // verus!
