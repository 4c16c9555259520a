//! What the service shows to admins and users.
use vstd::prelude::*;
use crate::model::{
    fields_model, opt_text, AccountRole, FieldModel, GroupModel, QueueEntryStatus, QueueField,
    SettingsModel, TextMap, WeeklySchedule,
};
use crate::queue::SummaryModel;

verus! {

#[derive(Clone, Debug)]
pub struct SiteSettingsView {
    pub site_title: String,
    pub admin_password_sign_in_enabled: bool,
    pub admin_microsoft_sign_in_enabled: bool,
    pub user_password_sign_in_enabled: bool,
    pub user_microsoft_sign_in_enabled: bool,
}

/// A signed-in admin as the admin sees it.
#[derive(Clone, Debug)]
pub struct AdminIdentityView {
    pub token: String,
    pub account_id: u128,
    pub name: String,
    pub email: String,
    pub is_super_admin: bool,
}

pub ghost struct AdminIdentityModel {
    pub token: Seq<char>,
    pub account_id: u128,
    pub name: Seq<char>,
    pub email: Seq<char>,
    pub is_super_admin: bool,
}

impl View for AdminIdentityView {
    type V = AdminIdentityModel;

    open spec fn view(&self) -> AdminIdentityModel {
        AdminIdentityModel {
            token: self.token@,
            account_id: self.account_id,
            name: self.name@,
            email: self.email@,
            is_super_admin: self.is_super_admin,
        }
    }
}

/// A signed-in user as the user sees it.
#[derive(Clone, Debug)]
pub struct UserIdentityView {
    pub token: String,
    pub name: String,
    pub email: String,
}

pub ghost struct UserIdentityModel {
    pub token: Seq<char>,
    pub name: Seq<char>,
    pub email: Seq<char>,
}

impl View for UserIdentityView {
    type V = UserIdentityModel;

    open spec fn view(&self) -> UserIdentityModel {
        UserIdentityModel { token: self.token@, name: self.name@, email: self.email@ }
    }
}

#[derive(Clone, Debug)]
pub struct AccountView {
    pub id: u128,
    pub name: String,
    pub email: String,
    pub role: AccountRole,
}

#[derive(Clone, Debug)]
pub struct GroupView {
    pub id: u128,
    pub name: String,
    pub role: AccountRole,
    pub member_ids: Vec<u128>,
}

/// The counts and settings of a queue shown in lists.
#[derive(Clone, Debug)]
pub struct QueueSummary {
    pub id: u128,
    pub code: String,
    pub name: String,
    pub allow_guests: bool,
    pub is_public: bool,
    pub opens_at: Option<String>,
    pub weekly_schedule: Option<WeeklySchedule>,
    pub waiting_count: usize,
    pub active_count: usize,
}

#[derive(Clone, Debug)]
pub struct AdminEntryView {
    pub id: u128,
    pub status: QueueEntryStatus,
    pub submitted_at: String,
    pub claimed_by: Option<String>,
    pub requester_label: String,
    pub requester_email: Option<String>,
    pub is_guest: bool,
    pub values: TextMap,
}

#[derive(Clone, Debug)]
pub struct AdminQueueListItem {
    pub summary: QueueSummary,
    pub owner_name: String,
    pub shared_account_ids: Vec<u128>,
    pub shared_group_ids: Vec<u128>,
}

#[derive(Clone, Debug)]
pub struct ArchivedQueueListItem {
    pub summary: QueueSummary,
    pub owner_name: String,
    pub closed_at: String,
    pub closed_by_name: String,
    pub entry_count: usize,
    pub fields: Vec<QueueField>,
    pub entries: Vec<AdminEntryView>,
}

#[derive(Clone, Debug)]
pub struct AdminQueueView {
    pub summary: QueueSummary,
    pub owner_name: String,
    pub owner_account_id: u128,
    pub shared_account_ids: Vec<u128>,
    pub shared_group_ids: Vec<u128>,
    pub fields: Vec<QueueField>,
    pub entries: Vec<AdminEntryView>,
}

/// Everything an admin's dashboard shows.
#[derive(Clone, Debug)]
pub struct AdminStateView {
    pub admin: AdminIdentityView,
    pub site_settings: SiteSettingsView,
    pub queues: Vec<AdminQueueListItem>,
    pub archived_queues: Vec<ArchivedQueueListItem>,
    pub selected_queue: Option<AdminQueueView>,
    pub accounts: Vec<AccountView>,
    pub groups: Vec<GroupView>,
}

/// A queue as a requester sees it.
#[derive(Clone, Debug)]
pub struct UserQueueView {
    pub id: u128,
    pub code: String,
    pub name: String,
    pub fields: Vec<QueueField>,
    pub allow_guests: bool,
    pub opens_at: Option<String>,
    pub weekly_schedule: Option<WeeklySchedule>,
    pub waiting_count: usize,
    pub closed_at: Option<String>,
    pub closed_by_name: Option<String>,
}

/// A requester's own entry.
#[derive(Clone, Debug)]
pub struct UserEntryView {
    pub id: u128,
    pub token: String,
    pub status: QueueEntryStatus,
    pub claimed_by: Option<String>,
    pub values: TextMap,
    pub submitted_at: String,
    pub left_at: Option<String>,
    pub rejoin_after: Option<String>,
    pub position: Option<usize>,
    pub requester_label: String,
    pub is_guest: bool,
}

// ---------------------------------------------------------------------------
// Models of the views
// ---------------------------------------------------------------------------

impl View for SiteSettingsView {
    type V = SettingsModel;

    open spec fn view(&self) -> SettingsModel {
        SettingsModel {
            site_title: self.site_title@,
            admin_password_sign_in_enabled: self.admin_password_sign_in_enabled,
            admin_microsoft_sign_in_enabled: self.admin_microsoft_sign_in_enabled,
            user_password_sign_in_enabled: self.user_password_sign_in_enabled,
            user_microsoft_sign_in_enabled: self.user_microsoft_sign_in_enabled,
        }
    }
}

pub ghost struct AccountViewModel {
    pub id: u128,
    pub name: Seq<char>,
    pub email: Seq<char>,
    pub role: AccountRole,
}

impl View for AccountView {
    type V = AccountViewModel;

    open spec fn view(&self) -> AccountViewModel {
        AccountViewModel { id: self.id, name: self.name@, email: self.email@, role: self.role }
    }
}

impl View for GroupView {
    type V = GroupModel;

    open spec fn view(&self) -> GroupModel {
        GroupModel { id: self.id, name: self.name@, role: self.role, member_ids: self.member_ids@ }
    }
}

pub ghost struct AdminEntryModel {
    pub id: u128,
    pub status: QueueEntryStatus,
    pub submitted_at: Seq<char>,
    pub claimed_by: Option<Seq<char>>,
    pub requester_label: Seq<char>,
    pub requester_email: Option<Seq<char>>,
    pub is_guest: bool,
    pub values: Map<Seq<char>, Seq<char>>,
}

impl View for AdminEntryView {
    type V = AdminEntryModel;

    open spec fn view(&self) -> AdminEntryModel {
        AdminEntryModel {
            id: self.id,
            status: self.status,
            submitted_at: self.submitted_at@,
            claimed_by: opt_text(self.claimed_by),
            requester_label: self.requester_label@,
            requester_email: opt_text(self.requester_email),
            is_guest: self.is_guest,
            values: self.values@,
        }
    }
}

pub open spec fn admin_entries_model(v: Seq<AdminEntryView>) -> Seq<AdminEntryModel> {
    v.map_values(|e: AdminEntryView| e@)
}

pub ghost struct ListItemModel {
    pub summary: SummaryModel,
    pub owner_name: Seq<char>,
    pub shared_account_ids: Seq<u128>,
    pub shared_group_ids: Seq<u128>,
}

impl View for AdminQueueListItem {
    type V = ListItemModel;

    open spec fn view(&self) -> ListItemModel {
        ListItemModel {
            summary: self.summary@,
            owner_name: self.owner_name@,
            shared_account_ids: self.shared_account_ids@,
            shared_group_ids: self.shared_group_ids@,
        }
    }
}

pub ghost struct ArchivedItemModel {
    pub summary: SummaryModel,
    pub owner_name: Seq<char>,
    pub closed_at: Seq<char>,
    pub closed_by_name: Seq<char>,
    pub entry_count: nat,
    pub fields: Seq<FieldModel>,
    pub entries: Seq<AdminEntryModel>,
}

impl View for ArchivedQueueListItem {
    type V = ArchivedItemModel;

    open spec fn view(&self) -> ArchivedItemModel {
        ArchivedItemModel {
            summary: self.summary@,
            owner_name: self.owner_name@,
            closed_at: self.closed_at@,
            closed_by_name: self.closed_by_name@,
            entry_count: self.entry_count as nat,
            fields: fields_model(self.fields@),
            entries: admin_entries_model(self.entries@),
        }
    }
}

pub ghost struct AdminQueueModel {
    pub summary: SummaryModel,
    pub owner_name: Seq<char>,
    pub owner_account_id: u128,
    pub shared_account_ids: Seq<u128>,
    pub shared_group_ids: Seq<u128>,
    pub fields: Seq<FieldModel>,
    pub entries: Seq<AdminEntryModel>,
}

impl View for AdminQueueView {
    type V = AdminQueueModel;

    open spec fn view(&self) -> AdminQueueModel {
        AdminQueueModel {
            summary: self.summary@,
            owner_name: self.owner_name@,
            owner_account_id: self.owner_account_id,
            shared_account_ids: self.shared_account_ids@,
            shared_group_ids: self.shared_group_ids@,
            fields: fields_model(self.fields@),
            entries: admin_entries_model(self.entries@),
        }
    }
}

pub ghost struct AdminStateModel {
    pub admin: AdminIdentityModel,
    pub site_settings: SettingsModel,
    pub queues: Seq<ListItemModel>,
    pub archived_queues: Seq<ArchivedItemModel>,
    pub selected_queue: Option<AdminQueueModel>,
    pub accounts: Seq<AccountViewModel>,
    pub groups: Seq<GroupModel>,
}

impl View for AdminStateView {
    type V = AdminStateModel;

    open spec fn view(&self) -> AdminStateModel {
        AdminStateModel {
            admin: self.admin@,
            site_settings: self.site_settings@,
            queues: self.queues@.map_values(|q: AdminQueueListItem| q@),
            archived_queues: self.archived_queues@.map_values(|q: ArchivedQueueListItem| q@),
            selected_queue: match self.selected_queue {
                Some(q) => Some(q@),
                None => None,
            },
            accounts: self.accounts@.map_values(|a: AccountView| a@),
            groups: self.groups@.map_values(|g: GroupView| g@),
        }
    }
}

pub ghost struct UserQueueModel {
    pub id: u128,
    pub code: Seq<char>,
    pub name: Seq<char>,
    pub fields: Seq<FieldModel>,
    pub allow_guests: bool,
    pub opens_at: Option<Seq<char>>,
    pub weekly_schedule: Option<WeeklySchedule>,
    pub waiting_count: nat,
    pub closed_at: Option<Seq<char>>,
    pub closed_by_name: Option<Seq<char>>,
}

impl View for UserQueueView {
    type V = UserQueueModel;

    open spec fn view(&self) -> UserQueueModel {
        UserQueueModel {
            id: self.id,
            code: self.code@,
            name: self.name@,
            fields: fields_model(self.fields@),
            allow_guests: self.allow_guests,
            opens_at: opt_text(self.opens_at),
            weekly_schedule: self.weekly_schedule,
            waiting_count: self.waiting_count as nat,
            closed_at: opt_text(self.closed_at),
            closed_by_name: opt_text(self.closed_by_name),
        }
    }
}

pub ghost struct UserEntryModel {
    pub id: u128,
    pub token: Seq<char>,
    pub status: QueueEntryStatus,
    pub claimed_by: Option<Seq<char>>,
    pub values: Map<Seq<char>, Seq<char>>,
    pub submitted_at: Seq<char>,
    pub left_at: Option<Seq<char>>,
    pub rejoin_after: Option<Seq<char>>,
    pub position: Option<nat>,
    pub requester_label: Seq<char>,
    pub is_guest: bool,
}

impl View for UserEntryView {
    type V = UserEntryModel;

    open spec fn view(&self) -> UserEntryModel {
        UserEntryModel {
            id: self.id,
            token: self.token@,
            status: self.status,
            claimed_by: opt_text(self.claimed_by),
            values: self.values@,
            submitted_at: self.submitted_at@,
            left_at: opt_text(self.left_at),
            rejoin_after: opt_text(self.rejoin_after),
            position: match self.position {
                Some(p) => Some(p as nat),
                None => None,
            },
            requester_label: self.requester_label@,
            is_guest: self.is_guest,
        }
    }
}

} // verus!
