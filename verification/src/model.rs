//! The records the queue service keeps, and their mathematical models.
use vstd::prelude::*;

verus! {

/// The role of an account.
#[derive(Clone, Copy, Debug, PartialEq, Eq, Structural)]
pub enum AccountRole {
    SuperAdmin,
    Admin,
    User,
}

/// Where a request stands in its queue.
#[derive(Clone, Copy, Debug, PartialEq, Eq, Structural)]
pub enum QueueEntryStatus {
    Pending,
    Claimed,
    Left,
    Resolved,
    Denied,
}

/// A weekly opening time in UTC: day of the week counted from Sunday,
/// and the minute of that day.
#[derive(Clone, Copy, Debug, PartialEq, Eq, Structural)]
pub struct WeeklySchedule {
    pub weekday: u8,
    pub minute_of_day: u16,
}

pub open spec fn opt_text(o: Option<String>) -> Option<Seq<char>> {
    match o {
        Some(s) => Some(s@),
        None => None,
    }
}

pub open spec fn texts(v: Seq<String>) -> Seq<Seq<char>> {
    v.map_values(|s: String| s@)
}

/// A string-to-string map kept as the list of its writes; a later write of
/// a key hides the earlier ones.
#[derive(Clone, Debug)]
pub struct TextMap {
    pub pairs: Vec<(String, String)>,
}

pub open spec fn pairs_map(p: Seq<(String, String)>) -> Map<Seq<char>, Seq<char>>
    decreases p.len(),
{
    if p.len() == 0 {
        Map::empty()
    } else {
        pairs_map(p.drop_last()).insert(p.last().0@, p.last().1@)
    }
}

impl View for TextMap {
    type V = Map<Seq<char>, Seq<char>>;

    open spec fn view(&self) -> Map<Seq<char>, Seq<char>> {
        pairs_map(self.pairs@)
    }
}

proof fn lemma_pairs_map_push(p: Seq<(String, String)>, k: String, v: String)
    ensures
        pairs_map(p.push((k, v))) == pairs_map(p).insert(k@, v@),
{
    assert(p.push((k, v)).drop_last() =~= p);
}

proof fn lemma_pairs_map_empty_iff(p: Seq<(String, String)>)
    ensures
        (pairs_map(p).dom().len() == 0 && pairs_map(p).dom().finite()) <==> p.len() == 0,
        pairs_map(p).dom().finite(),
    decreases p.len(),
{
    if p.len() > 0 {
        lemma_pairs_map_empty_iff(p.drop_last());
        assert(pairs_map(p).dom().contains(p.last().0@));
    } else {
        assert(pairs_map(p).dom() =~= Set::empty());
    }
}

impl TextMap {
    /// An empty map.
    pub fn new() -> (r: TextMap)
        ensures
            r@ == Map::<Seq<char>, Seq<char>>::empty(),
    {
        TextMap { pairs: Vec::new() }
    }

    /// Writes `value` under `key`.
    pub fn insert(&mut self, key: String, value: String)
        ensures
            final(self)@ == old(self)@.insert(key@, value@),
    {
        proof {
            lemma_pairs_map_push(self.pairs@, key, value);
        }
        self.pairs.push((key, value));
    }

    /// The value last written under `key`.
    pub fn get(&self, key: &str) -> (r: Option<&String>)
        ensures
            match r {
                Some(v) => self@.contains_key(key@) && self@[key@] == v@,
                None => !self@.contains_key(key@),
            },
    {
        let mut i = self.pairs.len();
        while i > 0
            invariant
                i <= self.pairs@.len(),
                forall|j: int| i <= j < self.pairs@.len() ==> self.pairs@[j].0@ != key@,
            decreases i,
        {
            if crate::text::text_eq(self.pairs[i - 1].0.as_str(), key) {
                proof {
                    let p = self.pairs@;
                    lemma_pairs_map_suffix_free(p, i as int, key@);
                    assert(p.take(i as int).drop_last() =~= p.take(i - 1));
                }
                return Some(&self.pairs[i - 1].1);
            }
            i = i - 1;
        }
        proof {
            lemma_pairs_map_suffix_free(self.pairs@, 0, key@);
            assert(self.pairs@.take(0) =~= Seq::<(String, String)>::empty());
        }
        None
    }

    /// A copy with the same contents.
    pub fn copy(&self) -> (r: TextMap)
        ensures
            r@ == self@,
    {
        let mut pairs: Vec<(String, String)> = Vec::new();
        let mut i: usize = 0;
        while i < self.pairs.len()
            invariant
                i <= self.pairs@.len(),
                pairs@.len() == i,
                forall|j: int|
                    0 <= j < i ==> (#[trigger] pairs@[j]).0@ == self.pairs@[j].0@ && pairs@[j].1@
                        == self.pairs@[j].1@,
            decreases self.pairs@.len() - i,
        {
            let k = self.pairs[i].0.clone();
            let v = self.pairs[i].1.clone();
            pairs.push((k, v));
            i = i + 1;
        }
        proof {
            lemma_pairs_map_same(pairs@, self.pairs@);
        }
        TextMap { pairs }
    }

    /// Whether nothing has been written.
    pub fn is_empty(&self) -> (r: bool)
        ensures
            r == (self@.dom().len() == 0),
    {
        proof {
            lemma_pairs_map_empty_iff(self.pairs@);
        }
        self.pairs.len() == 0
    }
}

proof fn lemma_pairs_map_same(a: Seq<(String, String)>, b: Seq<(String, String)>)
    requires
        a.len() == b.len(),
        forall|j: int| 0 <= j < a.len() ==> (#[trigger] a[j]).0@ == b[j].0@ && a[j].1@ == b[j].1@,
    ensures
        pairs_map(a) == pairs_map(b),
    decreases a.len(),
{
    if a.len() > 0 {
        lemma_pairs_map_same(a.drop_last(), b.drop_last());
        assert(a.last() == a[a.len() - 1]);
    }
}

/// Writes of other keys after position `i` do not change what a key maps to.
pub proof fn lemma_pairs_map_suffix_free(p: Seq<(String, String)>, i: int, k: Seq<char>)
    requires
        0 <= i <= p.len(),
        forall|j: int| i <= j < p.len() ==> p[j].0@ != k,
    ensures
        pairs_map(p).contains_key(k) == pairs_map(p.take(i)).contains_key(k),
        pairs_map(p).contains_key(k) ==> pairs_map(p)[k] == pairs_map(p.take(i))[k],
    decreases p.len() - i,
{
    if i == p.len() {
        assert(p.take(i) =~= p);
    } else {
        let q = p.drop_last();
        lemma_pairs_map_suffix_free(q, i, k);
        assert(q.take(i) =~= p.take(i));
    }
}

/// The model of a field a requester fills in.
pub ghost struct FieldModel {
    pub key: Seq<char>,
    pub label: Seq<char>,
    pub required: bool,
    pub options: Seq<Seq<char>>,
}

/// A field a requester fills in when joining a queue. A non-empty
/// `options` list turns it into a choice among those values.
#[derive(Clone, Debug)]
pub struct QueueField {
    pub key: String,
    pub label: String,
    pub required: bool,
    pub options: Vec<String>,
}

impl View for QueueField {
    type V = FieldModel;

    open spec fn view(&self) -> FieldModel {
        FieldModel {
            key: self.key@,
            label: self.label@,
            required: self.required,
            options: texts(self.options@),
        }
    }
}

pub open spec fn fields_model(v: Seq<QueueField>) -> Seq<FieldModel> {
    v.map_values(|f: QueueField| f@)
}

/// A copy of a list of strings.
pub fn copy_texts(v: &Vec<String>) -> (r: Vec<String>)
    ensures
        texts(r@) == texts(v@),
{
    let mut out: Vec<String> = Vec::new();
    let mut i: usize = 0;
    while i < v.len()
        invariant
            i <= v@.len(),
            texts(out@) == texts(v@.take(i as int)),
        decreases v@.len() - i,
    {
        let ghost before = out@;
        out.push(v[i].clone());
        assert(texts(out@) =~= texts(before).push(v@[i as int]@));
        assert(v@.take(i + 1) =~= v@.take(i as int).push(v@[i as int]));
        assert(texts(v@.take(i + 1)) =~= texts(v@.take(i as int)).push(v@[i as int]@));
        i = i + 1;
    }
    assert(v@.take(i as int) =~= v@);
    out
}

/// A copy of a list of ids.
pub fn copy_ids(v: &Vec<u128>) -> (r: Vec<u128>)
    ensures
        r@ == v@,
{
    let r = v.clone();
    assert(r@ =~= v@);
    r
}

impl QueueField {
    /// A copy of the field.
    pub fn copy(&self) -> (r: QueueField)
        ensures
            r@ == self@,
    {
        QueueField {
            key: self.key.clone(),
            label: self.label.clone(),
            required: self.required,
            options: copy_texts(&self.options),
        }
    }
}

/// A copy of a list of fields.
pub fn copy_fields(v: &Vec<QueueField>) -> (r: Vec<QueueField>)
    ensures
        fields_model(r@) == fields_model(v@),
{
    let mut out: Vec<QueueField> = Vec::new();
    let mut i: usize = 0;
    while i < v.len()
        invariant
            i <= v@.len(),
            fields_model(out@) == fields_model(v@.take(i as int)),
        decreases v@.len() - i,
    {
        let ghost before = out@;
        out.push(v[i].copy());
        assert(fields_model(out@) =~= fields_model(before).push(v@[i as int]@));
        assert(v@.take(i + 1) =~= v@.take(i as int).push(v@[i as int]));
        assert(fields_model(v@.take(i + 1)) =~= fields_model(v@.take(i as int)).push(v@[i as int]@));
        i = i + 1;
    }
    assert(v@.take(i as int) =~= v@);
    out
}

/// Site-wide settings: the title and which sign-in methods are enabled.
#[derive(Clone, Debug)]
pub struct SiteSettings {
    pub site_title: String,
    pub admin_password_sign_in_enabled: bool,
    pub admin_microsoft_sign_in_enabled: bool,
    pub user_password_sign_in_enabled: bool,
    pub user_microsoft_sign_in_enabled: bool,
}

pub ghost struct SettingsModel {
    pub site_title: Seq<char>,
    pub admin_password_sign_in_enabled: bool,
    pub admin_microsoft_sign_in_enabled: bool,
    pub user_password_sign_in_enabled: bool,
    pub user_microsoft_sign_in_enabled: bool,
}

/// The model of the settings.
pub open spec fn settings_of(s: SiteSettings) -> SettingsModel {
    SettingsModel {
        site_title: s.site_title@,
        admin_password_sign_in_enabled: s.admin_password_sign_in_enabled,
        admin_microsoft_sign_in_enabled: s.admin_microsoft_sign_in_enabled,
        user_password_sign_in_enabled: s.user_password_sign_in_enabled,
        user_microsoft_sign_in_enabled: s.user_microsoft_sign_in_enabled,
    }
}

/// A sign-in account.
#[derive(Clone, Debug)]
pub struct Account {
    pub id: u128,
    pub name: String,
    pub email: String,
    pub password_hash: String,
    pub role: AccountRole,
}

pub ghost struct AccountModel {
    pub id: u128,
    pub name: Seq<char>,
    pub email: Seq<char>,
    pub password_hash: Seq<char>,
    pub role: AccountRole,
}

impl View for Account {
    type V = AccountModel;

    open spec fn view(&self) -> AccountModel {
        AccountModel {
            id: self.id,
            name: self.name@,
            email: self.email@,
            password_hash: self.password_hash@,
            role: self.role,
        }
    }
}

pub open spec fn role_is_super_admin(r: AccountRole) -> bool {
    r == AccountRole::SuperAdmin
}

pub open spec fn role_can_administer(r: AccountRole) -> bool {
    r == AccountRole::SuperAdmin || r == AccountRole::Admin
}

pub open spec fn role_can_join(r: AccountRole) -> bool {
    r == AccountRole::SuperAdmin || r == AccountRole::Admin || r == AccountRole::User
}

impl Account {
    pub fn is_super_admin(&self) -> (r: bool)
        ensures
            r == role_is_super_admin(self.role),
    {
        self.role == AccountRole::SuperAdmin
    }

    pub fn can_administer(&self) -> (r: bool)
        ensures
            r == role_can_administer(self.role),
    {
        self.role == AccountRole::SuperAdmin || self.role == AccountRole::Admin
    }

    pub fn can_join_queues(&self) -> (r: bool)
        ensures
            r == role_can_join(self.role),
    {
        self.role == AccountRole::SuperAdmin || self.role == AccountRole::Admin || self.role
            == AccountRole::User
    }
}

/// A signed-in admin: the session token and the account it belongs to.
#[derive(Clone, Debug)]
pub struct AdminSession {
    pub token: String,
    pub account_id: u128,
}

/// A signed-in user: the session token and the account it belongs to.
#[derive(Clone, Debug)]
pub struct UserSession {
    pub token: String,
    pub account_id: u128,
}

pub ghost struct SessionModel {
    pub token: Seq<char>,
    pub account_id: u128,
}

impl View for AdminSession {
    type V = SessionModel;

    open spec fn view(&self) -> SessionModel {
        SessionModel { token: self.token@, account_id: self.account_id }
    }
}

impl View for UserSession {
    type V = SessionModel;

    open spec fn view(&self) -> SessionModel {
        SessionModel { token: self.token@, account_id: self.account_id }
    }
}

/// A request in a queue.
#[derive(Clone, Debug)]
pub struct QueueEntry {
    pub id: u128,
    pub token: String,
    pub requester_account_id: Option<u128>,
    pub requester_label: String,
    pub requester_email: Option<String>,
    pub is_guest: bool,
    pub values: TextMap,
    pub submitted_at: String,
    pub left_at: Option<String>,
    pub status: QueueEntryStatus,
    pub claimed_by: Option<String>,
}

pub ghost struct EntryModel {
    pub id: u128,
    pub token: Seq<char>,
    pub requester_account_id: Option<u128>,
    pub requester_label: Seq<char>,
    pub requester_email: Option<Seq<char>>,
    pub is_guest: bool,
    pub values: Map<Seq<char>, Seq<char>>,
    pub submitted_at: Seq<char>,
    pub left_at: Option<Seq<char>>,
    pub status: QueueEntryStatus,
    pub claimed_by: Option<Seq<char>>,
}

impl View for QueueEntry {
    type V = EntryModel;

    open spec fn view(&self) -> EntryModel {
        EntryModel {
            id: self.id,
            token: self.token@,
            requester_account_id: self.requester_account_id,
            requester_label: self.requester_label@,
            requester_email: opt_text(self.requester_email),
            is_guest: self.is_guest,
            values: self.values@,
            submitted_at: self.submitted_at@,
            left_at: opt_text(self.left_at),
            status: self.status,
            claimed_by: opt_text(self.claimed_by),
        }
    }
}

pub open spec fn entries_model(v: Seq<QueueEntry>) -> Seq<EntryModel> {
    v.map_values(|e: QueueEntry| e@)
}

/// A live queue.
#[derive(Clone, Debug)]
pub struct Queue {
    pub id: u128,
    pub code: String,
    pub name: String,
    pub allow_guests: bool,
    pub is_public: bool,
    pub opens_at: Option<String>,
    pub weekly_schedule: Option<WeeklySchedule>,
    pub owner_account_id: u128,
    pub owner_name: String,
    pub shared_account_ids: Vec<u128>,
    pub shared_group_ids: Vec<u128>,
    pub fields: Vec<QueueField>,
    pub entries: Vec<QueueEntry>,
}

pub ghost struct QueueModel {
    pub id: u128,
    pub code: Seq<char>,
    pub name: Seq<char>,
    pub allow_guests: bool,
    pub is_public: bool,
    pub opens_at: Option<Seq<char>>,
    pub weekly_schedule: Option<WeeklySchedule>,
    pub owner_account_id: u128,
    pub owner_name: Seq<char>,
    pub shared_account_ids: Seq<u128>,
    pub shared_group_ids: Seq<u128>,
    pub fields: Seq<FieldModel>,
    pub entries: Seq<EntryModel>,
}

impl View for Queue {
    type V = QueueModel;

    open spec fn view(&self) -> QueueModel {
        QueueModel {
            id: self.id,
            code: self.code@,
            name: self.name@,
            allow_guests: self.allow_guests,
            is_public: self.is_public,
            opens_at: opt_text(self.opens_at),
            weekly_schedule: self.weekly_schedule,
            owner_account_id: self.owner_account_id,
            owner_name: self.owner_name@,
            shared_account_ids: self.shared_account_ids@,
            shared_group_ids: self.shared_group_ids@,
            fields: fields_model(self.fields@),
            entries: entries_model(self.entries@),
        }
    }
}

/// A closed queue kept with its history.
#[derive(Clone, Debug)]
pub struct ArchivedQueue {
    pub queue: Queue,
    pub closed_at: String,
    pub closed_by_account_id: u128,
    pub closed_by_name: String,
}

pub ghost struct ArchivedModel {
    pub queue: QueueModel,
    pub closed_at: Seq<char>,
    pub closed_by_account_id: u128,
    pub closed_by_name: Seq<char>,
}

impl View for ArchivedQueue {
    type V = ArchivedModel;

    open spec fn view(&self) -> ArchivedModel {
        ArchivedModel {
            queue: self.queue@,
            closed_at: self.closed_at@,
            closed_by_account_id: self.closed_by_account_id,
            closed_by_name: self.closed_by_name@,
        }
    }
}

/// A named set of accounts of one role.
#[derive(Clone, Debug)]
pub struct Group {
    pub id: u128,
    pub name: String,
    pub role: AccountRole,
    pub member_ids: Vec<u128>,
}

pub ghost struct GroupModel {
    pub id: u128,
    pub name: Seq<char>,
    pub role: AccountRole,
    pub member_ids: Seq<u128>,
}

impl View for Group {
    type V = GroupModel;

    open spec fn view(&self) -> GroupModel {
        GroupModel { id: self.id, name: self.name@, role: self.role, member_ids: self.member_ids@ }
    }
}

} // verus!
