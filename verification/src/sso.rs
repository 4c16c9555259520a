//! Microsoft sign-in: the checks around the OAuth round trip, the pending
//! sign-ins, and the session it ends in. The HTTP calls and redirects are
//! made by the server around these functions.
use vstd::prelude::*;
use crate::accounts::{admin_email_login, admin_result, hash_fits, ms_user_login, user_result};
use crate::ids::{fresh_id, uuid_string, uuid_text};
use crate::model::{opt_text, SettingsModel};
use crate::store::{Store, StoreModel};
use crate::text::{concat, owned, text_eq};
use crate::utils::{normalize_return_to, return_path};
use crate::views::{AdminIdentityModel, AdminIdentityView, UserIdentityModel, UserIdentityView};
use crate::payload::{b64url, encode_url_payload};
use vstd::utf8::encode_utf8;

verus! {

/// Who is signing in: an admin or a requester.
#[derive(Clone, Copy, Debug, PartialEq, Eq, Structural)]
pub enum MicrosoftAuthKind {
    Admin,
    User,
}

/// A sign-in waiting for Microsoft's answer: who signs in and where the
/// browser goes afterwards.
#[derive(Clone, Debug)]
pub struct MicrosoftAuthRequest {
    pub kind: MicrosoftAuthKind,
    pub return_to: String,
}

pub ghost struct AuthRequestModel {
    pub kind: MicrosoftAuthKind,
    pub return_to: Seq<char>,
}

impl View for MicrosoftAuthRequest {
    type V = AuthRequestModel;

    open spec fn view(&self) -> AuthRequestModel {
        AuthRequestModel { kind: self.kind, return_to: self.return_to@ }
    }
}

/// The query of the request that starts a sign-in.
#[derive(Clone, Debug)]
pub struct MicrosoftStartQuery {
    pub kind: Option<MicrosoftAuthKind>,
    pub return_to: Option<String>,
}

/// The query Microsoft sends the browser back with.
#[derive(Clone, Debug)]
pub struct MicrosoftCallbackQuery {
    pub code: Option<String>,
    pub state: Option<String>,
    pub error: Option<String>,
    pub error_description: Option<String>,
}

/// The profile Microsoft reports for the signed-in person.
#[derive(Clone, Debug)]
pub struct MicrosoftProfile {
    pub name: Option<String>,
    pub email: String,
}

/// The session a completed sign-in hands to the browser.
#[derive(Clone, Debug)]
pub enum AuthCompleteSession {
    Admin { session: AdminIdentityView },
    User { session: UserIdentityView },
}

// ---------------------------------------------------------------------------
// Pending sign-ins
// ---------------------------------------------------------------------------

/// The sign-ins waiting for Microsoft's answer, by their state token.
pub struct AuthRequests {
    items: Vec<(String, MicrosoftAuthRequest)>,
}

pub open spec fn request_items_map(items: Seq<(String, MicrosoftAuthRequest)>) -> Map<Seq<char>, AuthRequestModel>
    decreases items.len(),
{
    if items.len() == 0 {
        Map::empty()
    } else {
        request_items_map(items.drop_last()).insert(items.last().0@, items.last().1@)
    }
}

pub open spec fn keys_distinct(items: Seq<(String, MicrosoftAuthRequest)>) -> bool {
    forall|i: int, j: int|
        0 <= i < items.len() && 0 <= j < items.len() && i != j ==> (#[trigger] items[i]).0@ != (
        #[trigger] items[j]).0@
}

impl View for AuthRequests {
    type V = Map<Seq<char>, AuthRequestModel>;

    closed spec fn view(&self) -> Map<Seq<char>, AuthRequestModel> {
        request_items_map(self.items@)
    }
}

proof fn lemma_items_map_absent(items: Seq<(String, MicrosoftAuthRequest)>, k: Seq<char>)
    requires
        forall|i: int| 0 <= i < items.len() ==> (#[trigger] items[i]).0@ != k,
    ensures
        !request_items_map(items).contains_key(k),
    decreases items.len(),
{
    if items.len() > 0 {
        let t = items.drop_last();
        assert forall|i: int| 0 <= i < t.len() implies (#[trigger] t[i]).0@ != k by {
            assert(t[i] == items[i]);
        }
        lemma_items_map_absent(t, k);
    }
}

proof fn lemma_items_map_remove(items: Seq<(String, MicrosoftAuthRequest)>, i: int)
    requires
        0 <= i < items.len(),
        keys_distinct(items),
    ensures
        request_items_map(items.remove(i)) == request_items_map(items).remove(items[i].0@),
        request_items_map(items).contains_key(items[i].0@),
        request_items_map(items)[items[i].0@] == items[i].1@,
    decreases items.len(),
{
    let k = items[i].0@;
    let t = items.drop_last();
    if i == items.len() - 1 {
        assert(items.remove(i) =~= t);
        assert forall|j: int| 0 <= j < t.len() implies (#[trigger] t[j]).0@ != k by {
            assert(t[j] == items[j]);
        }
        lemma_items_map_absent(t, k);
        assert(request_items_map(t) =~= request_items_map(items).remove(k));
    } else {
        assert forall|a: int, b: int|
            0 <= a < t.len() && 0 <= b < t.len() && a != b implies (#[trigger] t[a]).0@ != (#[trigger] t[b]).0@ by {
            assert(t[a] == items[a]);
            assert(t[b] == items[b]);
        }
        lemma_items_map_remove(t, i);
        assert(t[i] == items[i]);
        let r = items.remove(i);
        assert(r.drop_last() =~= t.remove(i));
        assert(r.last() == items.last());
        assert(items.last().0@ != k);
        assert(request_items_map(r) =~= request_items_map(items).remove(k));
    }
}

impl AuthRequests {
    #[verifier::type_invariant]
    spec fn distinct_keys(self) -> bool {
        keys_distinct(self.items@)
    }

    /// No pending sign-in.
    pub fn new() -> (r: AuthRequests)
        ensures
            r@ == Map::<Seq<char>, AuthRequestModel>::empty(),
    {
        AuthRequests { items: Vec::new() }
    }

    fn position(&self, state: &str) -> (r: Option<usize>)
        ensures
            match r {
                Some(i) => i < self.items@.len() && self.items@[i as int].0@ == state@,
                None => forall|i: int| 0 <= i < self.items@.len() ==> (#[trigger] self.items@[i]).0@ != state@,
            },
    {
        let mut i: usize = 0;
        while i < self.items.len()
            invariant
                i <= self.items@.len(),
                forall|j: int| 0 <= j < i ==> (#[trigger] self.items@[j]).0@ != state@,
            decreases self.items@.len() - i,
        {
            if text_eq(self.items[i].0.as_str(), state) {
                return Some(i);
            }
            i = i + 1;
        }
        None
    }

    /// Takes out the sign-in waiting under `state`.
    pub fn remove(&mut self, state: &str) -> (r: Option<MicrosoftAuthRequest>)
        ensures
            final(self)@ == old(self)@.remove(state@),
            match r {
                Some(x) => old(self)@.contains_key(state@) && old(self)@[state@] == x@,
                None => !old(self)@.contains_key(state@),
            },
    {
        proof {
            use_type_invariant(&*self);
        }
        match self.position(state) {
            None => {
                proof {
                    lemma_items_map_absent(self.items@, state@);
                    assert(self@.remove(state@) =~= self@);
                }
                None
            },
            Some(i) => {
                proof {
                    lemma_items_map_remove(self.items@, i as int);
                }
                let ghost before = self.items@;
                let mut items = Vec::new();
                std::mem::swap(&mut items, &mut self.items);
                let (_, request) = items.remove(i);
                proof {
                    assert(items@ == before.remove(i as int));
                    assert forall|a: int, b: int|
                        0 <= a < items@.len() && 0 <= b < items@.len() && a != b implies (#[trigger] items@[a]).0@
                            != (#[trigger] items@[b]).0@ by {
                        let a0 = if a < i { a } else { a + 1 };
                        let b0 = if b < i { b } else { b + 1 };
                        assert(items@[a] == before[a0]);
                        assert(items@[b] == before[b0]);
                    }
                }
                self.items = items;
                Some(request)
            },
        }
    }

    /// Records a sign-in waiting under `state`, replacing one waiting under
    /// the same state.
    pub fn insert(&mut self, state: String, request: MicrosoftAuthRequest)
        ensures
            final(self)@ == old(self)@.insert(state@, request@),
    {
        let _ = self.remove(state.as_str());
        let ghost removed = self@;
        proof {
            use_type_invariant(&*self);
            lemma_items_map_absent_all(self.items@, state@);
        }
        let ghost before = self.items@;
        let ghost k = state@;
        let mut items = Vec::new();
        std::mem::swap(&mut items, &mut self.items);
        items.push((state, request));
        proof {
            assert(items@.drop_last() =~= before);
            assert forall|a: int, b: int|
                0 <= a < items@.len() && 0 <= b < items@.len() && a != b implies (#[trigger] items@[a]).0@
                    != (#[trigger] items@[b]).0@ by {
                if a < before.len() {
                    assert(items@[a] == before[a]);
                }
                if b < before.len() {
                    assert(items@[b] == before[b]);
                }
            }
        }
        self.items = items;
        proof {
            assert(removed.insert(k, request@) =~= old(self)@.remove(k).insert(k, request@));
            assert(old(self)@.remove(k).insert(k, request@) =~= old(self)@.insert(k, request@));
        }
    }
}

proof fn lemma_items_map_absent_all(items: Seq<(String, MicrosoftAuthRequest)>, k: Seq<char>)
    requires
        !request_items_map(items).contains_key(k),
    ensures
        forall|i: int| 0 <= i < items.len() ==> (#[trigger] items[i]).0@ != k,
    decreases items.len(),
{
    if items.len() > 0 {
        let t = items.drop_last();
        assert(items.last().0@ != k);
        lemma_items_map_absent_all(t, k);
        assert forall|i: int| 0 <= i < items.len() implies (#[trigger] items[i]).0@ != k by {
            if i < t.len() {
                assert(items[i] == t[i]);
            }
        }
    }
}

// ---------------------------------------------------------------------------
// Starting a sign-in
// ---------------------------------------------------------------------------

pub open spec fn start_kind(kind: Option<MicrosoftAuthKind>) -> MicrosoftAuthKind {
    match kind {
        Some(k) => k,
        None => MicrosoftAuthKind::User,
    }
}

/// Whether a sign-in may start: Microsoft sign-in must be configured and
/// enabled for the kind of account (a requester's by default); the browser
/// returns to a path on this site.
pub open spec fn start_check(s: SettingsModel, configured: bool, kind: Option<MicrosoftAuthKind>, return_to: Option<Seq<char>>) -> Result<AuthRequestModel, Seq<char>> {
    if !configured {
        Err("Microsoft SSO is not configured"@)
    } else {
        let k = start_kind(kind);
        if k == MicrosoftAuthKind::Admin && !s.admin_microsoft_sign_in_enabled {
            Err("admin Microsoft sign-in is disabled"@)
        } else if k == MicrosoftAuthKind::User && !s.user_microsoft_sign_in_enabled {
            Err("user Microsoft sign-in is disabled"@)
        } else {
            Ok(
                AuthRequestModel {
                    kind: k,
                    return_to: return_path(
                        match return_to {
                            Some(t) => t,
                            None => "/"@,
                        },
                    ),
                },
            )
        }
    }
}

impl Store {
    /// Starts a sign-in: checks it may start and records it under a fresh
    /// random state token, which it returns.
    pub fn microsoft_start(&self, configured: bool, query: MicrosoftStartQuery, requests: &mut AuthRequests) -> (r: Result<String, String>)
        ensures
            match start_check(self@.settings, configured, query.kind, opt_text(query.return_to)) {
                Err(e) => r is Err && r->Err_0@ == e && final(requests)@ == old(requests)@,
                Ok(req) => exists|seed: u128|
                    r == Ok::<String, String>(r->Ok_0) && r->Ok_0@ == uuid_text(seed) && final(requests)@ == old(requests)@.insert(
                        uuid_text(seed),
                        req,
                    ),
            },
    {
        if !configured {
            return Err(owned("Microsoft SSO is not configured"));
        }
        let kind = match query.kind {
            Some(k) => k,
            None => MicrosoftAuthKind::User,
        };
        if kind == MicrosoftAuthKind::Admin && !self.site_settings.admin_microsoft_sign_in_enabled {
            return Err(owned("admin Microsoft sign-in is disabled"));
        }
        if kind == MicrosoftAuthKind::User && !self.site_settings.user_microsoft_sign_in_enabled {
            return Err(owned("user Microsoft sign-in is disabled"));
        }
        let return_to = match query.return_to {
            Some(t) => normalize_return_to(t),
            None => normalize_return_to(owned("/")),
        };
        let seed = fresh_id();
        let state = uuid_string(seed);
        requests.insert(state.clone(), MicrosoftAuthRequest { kind, return_to });
        Ok(state)
    }
}

/// Where the browser is sent to sign in with Microsoft.
pub fn authorize_endpoint(tenant_id: &str) -> (r: String)
    ensures
        r@ == "https://login.microsoftonline.com/"@ + tenant_id@ + "/oauth2/v2.0/authorize"@,
{
    let mut r = owned("https://login.microsoftonline.com/");
    r.append(tenant_id);
    r.append("/oauth2/v2.0/authorize");
    r
}

/// Where the code is exchanged for a token.
pub fn token_endpoint(tenant_id: &str) -> (r: String)
    ensures
        r@ == "https://login.microsoftonline.com/"@ + tenant_id@ + "/oauth2/v2.0/token"@,
{
    let mut r = owned("https://login.microsoftonline.com/");
    r.append(tenant_id);
    r.append("/oauth2/v2.0/token");
    r
}

/// Where the signed-in person's profile is read.
pub fn userinfo_url() -> (r: String)
    ensures
        r@ == "https://graph.microsoft.com/oidc/userinfo"@,
{
    owned("https://graph.microsoft.com/oidc/userinfo")
}

pub open spec fn pairs_view(v: Seq<(String, String)>) -> Seq<(Seq<char>, Seq<char>)> {
    v.map_values(|p: (String, String)| (p.0@, p.1@))
}

/// The query of the authorize request, in order.
pub fn authorize_query(client_id: &str, redirect_uri: &str, state: &str) -> (r: Vec<(String, String)>)
    ensures
        pairs_view(r@) == seq![
            ("client_id"@, client_id@),
            ("response_type"@, "code"@),
            ("redirect_uri"@, redirect_uri@),
            ("response_mode"@, "query"@),
            ("scope"@, "openid email profile User.Read"@),
            ("state"@, state@),
        ],
{
    let r = vec![
        (owned("client_id"), owned(client_id)),
        (owned("response_type"), owned("code")),
        (owned("redirect_uri"), owned(redirect_uri)),
        (owned("response_mode"), owned("query")),
        (owned("scope"), owned("openid email profile User.Read")),
        (owned("state"), owned(state)),
    ];
    assert(pairs_view(r@) =~= seq![
        ("client_id"@, client_id@),
        ("response_type"@, "code"@),
        ("redirect_uri"@, redirect_uri@),
        ("response_mode"@, "query"@),
        ("scope"@, "openid email profile User.Read"@),
        ("state"@, state@),
    ]);
    r
}

/// The form of the token request.
pub fn token_form(client_id: &str, client_secret: &str, code: &str, redirect_uri: &str) -> (r: Vec<(String, String)>)
    ensures
        pairs_view(r@) == seq![
            ("client_id"@, client_id@),
            ("client_secret"@, client_secret@),
            ("code"@, code@),
            ("redirect_uri"@, redirect_uri@),
            ("grant_type"@, "authorization_code"@),
        ],
{
    let r = vec![
        (owned("client_id"), owned(client_id)),
        (owned("client_secret"), owned(client_secret)),
        (owned("code"), owned(code)),
        (owned("redirect_uri"), owned(redirect_uri)),
        (owned("grant_type"), owned("authorization_code")),
    ];
    assert(pairs_view(r@) =~= seq![
        ("client_id"@, client_id@),
        ("client_secret"@, client_secret@),
        ("code"@, code@),
        ("redirect_uri"@, redirect_uri@),
        ("grant_type"@, "authorization_code"@),
    ]);
    r
}

// ---------------------------------------------------------------------------
// Microsoft's answer
// ---------------------------------------------------------------------------

/// What the answer comes to: the waiting sign-in and the code to exchange,
/// or why the sign-in ends here; the sign-in named by the answer's state
/// stops waiting once it is found.
pub open spec fn callback_check(
    reqs: Map<Seq<char>, AuthRequestModel>,
    configured: bool,
    code: Option<Seq<char>>,
    state: Option<Seq<char>>,
    error: Option<Seq<char>>,
    error_description: Option<Seq<char>>,
) -> (Map<Seq<char>, AuthRequestModel>, Result<(AuthRequestModel, Seq<char>), Seq<char>>) {
    match error {
        Some(e) => (
            reqs,
            Err(
                match error_description {
                    Some(d) => d,
                    None => "Microsoft sign-in failed: "@ + e,
                },
            ),
        ),
        None => match state {
            None => (reqs, Err("Microsoft sign-in response was missing state"@)),
            Some(s) => if !reqs.contains_key(s) {
                (reqs, Err("Microsoft sign-in state expired or was invalid"@))
            } else {
                let rest = reqs.remove(s);
                match code {
                    None => (rest, Err("Microsoft sign-in response was missing code"@)),
                    Some(c) => if !configured {
                        (rest, Err("Microsoft SSO is not configured"@))
                    } else {
                        (rest, Ok((reqs[s], c)))
                    },
                }
            },
        },
    }
}

/// Checks Microsoft's answer against the waiting sign-ins.
pub fn microsoft_callback_check(requests: &mut AuthRequests, configured: bool, query: MicrosoftCallbackQuery) -> (r: Result<(MicrosoftAuthRequest, String), String>)
    ensures
        ({
            let (rest, res) = callback_check(
                old(requests)@,
                configured,
                opt_text(query.code),
                opt_text(query.state),
                opt_text(query.error),
                opt_text(query.error_description),
            );
            &&& final(requests)@ == rest
            &&& match res {
                Ok((req, code)) => r matches Ok((x, c)) && x@ == req && c@ == code,
                Err(e) => r is Err && r->Err_0@ == e,
            }
        }),
{
    match query.error {
        Some(e) => {
            return Err(
                match query.error_description {
                    Some(d) => d,
                    None => concat("Microsoft sign-in failed: ", e.as_str()),
                },
            );
        },
        None => {},
    }
    let state = match query.state {
        Some(s) => s,
        None => {
            return Err(owned("Microsoft sign-in response was missing state"));
        },
    };
    let request = match requests.remove(state.as_str()) {
        Some(x) => x,
        None => {
            proof {
                assert(old(requests)@.remove(state@) =~= old(requests)@);
            }
            return Err(owned("Microsoft sign-in state expired or was invalid"));
        },
    };
    let code = match query.code {
        Some(c) => c,
        None => {
            return Err(owned("Microsoft sign-in response was missing code"));
        },
    };
    if !configured {
        return Err(owned("Microsoft SSO is not configured"));
    }
    Ok((request, code))
}

/// The profile from Microsoft's user information: the email, or else the
/// preferred user name, is required.
pub fn profile_from_userinfo(name: Option<String>, email: Option<String>, preferred_username: Option<String>) -> (r: Result<MicrosoftProfile, String>)
    ensures
        match (email, preferred_username) {
            (Some(e), _) => r matches Ok(p) && p.email@ == e@ && opt_text(p.name) == opt_text(name),
            (None, Some(u)) => r matches Ok(p) && p.email@ == u@ && opt_text(p.name) == opt_text(name),
            (None, None) => r is Err && r->Err_0@ == "Microsoft profile did not include an email address"@,
        },
{
    let email = match email {
        Some(e) => e,
        None => match preferred_username {
            Some(u) => u,
            None => {
                return Err(owned("Microsoft profile did not include an email address"));
            },
        },
    };
    Ok(MicrosoftProfile { name, email })
}

// ---------------------------------------------------------------------------
// Completing a sign-in
// ---------------------------------------------------------------------------

pub open spec fn admin_session_of(r: Result<AuthCompleteSession, String>) -> Result<AdminIdentityModel, Seq<char>> {
    match r {
        Ok(AuthCompleteSession::Admin { session }) => Ok(session@),
        Ok(AuthCompleteSession::User { session }) => Err(Seq::empty()),
        Err(e) => Err(e@),
    }
}

pub open spec fn user_session_of(r: Result<AuthCompleteSession, String>) -> Result<UserIdentityModel, Seq<char>> {
    match r {
        Ok(AuthCompleteSession::User { session }) => Ok(session@),
        Ok(AuthCompleteSession::Admin { session }) => Err(Seq::empty()),
        Err(e) => Err(e@),
    }
}

impl Store {
    /// Signs the person Microsoft vouched for in: an admin by email, or a
    /// requester, whose account is created when the email is new.
    pub fn complete_microsoft_sign_in(&mut self, kind: MicrosoftAuthKind, profile: MicrosoftProfile) -> (r: Result<AuthCompleteSession, String>)
        ensures
            match kind {
                MicrosoftAuthKind::Admin => (r is Ok ==> r->Ok_0 is Admin) && exists|seed: u128|
                    (final(self)@, admin_session_of(r)) == admin_email_login(
                        old(self)@,
                        profile.email@,
                        uuid_text(seed),
                    ),
                MicrosoftAuthKind::User => (r is Ok ==> r->Ok_0 is User) && exists|fresh: u128, hash: Result<Seq<char>, Seq<char>>, seed: u128, secret: u128|
                    #![trigger ms_user_login(old(self)@, profile.email@, opt_text(profile.name), fresh, hash, uuid_text(seed)), uuid_text(secret)]
                    hash_fits(hash, uuid_text(secret)) && (final(self)@, user_session_of(r)) == ms_user_login(
                        old(self)@,
                        profile.email@,
                        opt_text(profile.name),
                        fresh,
                        hash,
                        uuid_text(seed),
                    ),
            },
    {
        let ghost m = self@;
        let ghost e = profile.email@;
        let ghost n = opt_text(profile.name);
        match kind {
            MicrosoftAuthKind::Admin => {
                let res = self.login_admin_with_email(profile.email);
                let ghost rv = admin_result(res);
                let r = match res {
                    Ok(v) => Ok(AuthCompleteSession::Admin { session: v }),
                    Err(x) => Err(x),
                };
                proof {
                    let seed = choose|seed: u128| (self@, rv) == admin_email_login(m, e, uuid_text(seed));
                    assert(admin_session_of(r) == rv);
                }
                r
            },
            MicrosoftAuthKind::User => {
                let res = self.login_or_create_user_with_microsoft(profile.email, profile.name);
                let ghost rv = user_result(res);
                let r = match res {
                    Ok(v) => Ok(AuthCompleteSession::User { session: v }),
                    Err(x) => Err(x),
                };
                proof {
                    let (fresh, hash, seed, secret) = choose|fresh: u128, hash: Result<Seq<char>, Seq<char>>, seed: u128, secret: u128|
                        hash_fits(hash, uuid_text(secret)) && (self@, rv) == ms_user_login(m, e, n, fresh, hash, uuid_text(seed));
                    assert(user_session_of(r) == rv);
                    assert((self@, user_session_of(r)) == ms_user_login(m, e, n, fresh, hash, uuid_text(seed)));
                    assert(hash_fits(hash, uuid_text(secret)));
                }
                r
            },
        }
    }
}

// ---------------------------------------------------------------------------
// Redirect addresses
// ---------------------------------------------------------------------------

/// The text of the URL `url` builds: `base` parsed, then, where a path is
/// given, that path set and the query cleared, then the pairs appended to
/// the query form-encoded; or the text of the parse error.
pub uninterp spec fn url_with_query_text(
    base: Seq<char>,
    path: Option<Seq<char>>,
    pairs: Seq<(Seq<char>, Seq<char>)>,
) -> Result<Seq<char>, Seq<char>>;

pub open spec fn text_outcome(r: Result<String, String>) -> Result<Seq<char>, Seq<char>> {
    match r {
        Ok(s) => Ok(s@),
        Err(e) => Err(e@),
    }
}

/// `Url::parse(base)`; with a path, `set_path(path)` and `set_query(None)`;
/// then `query_pairs_mut().extend_pairs(pairs)`; the URL's text, or the
/// parse error's text. The contract ties the outcome to
/// `url_with_query_text`.
#[verifier::external_body]
fn url_with_query(base: &str, path: Option<&str>, pairs: &Vec<(String, String)>) -> (r: Result<String, String>)
    ensures
        text_outcome(r) == url_with_query_text(base@, crate::entries::opt_str(path), pairs_view(pairs@)),
{
    let mut url = match url::Url::parse(base) {
        Ok(u) => u,
        Err(e) => return Err(e.to_string()),
    };
    if let Some(p) = path {
        url.set_path(p);
        url.set_query(None);
    }
    url.query_pairs_mut().extend_pairs(pairs.iter().map(|(k, v)| (k.as_str(), v.as_str())));
    Ok(url.as_str().to_string())
}

/// The outcome of building a URL, with a parse error's text behind
/// `prefix`.
pub open spec fn url_outcome(u: Result<Seq<char>, Seq<char>>, prefix: Seq<char>) -> Result<Seq<char>, Seq<char>> {
    match u {
        Ok(x) => Ok(x),
        Err(e) => Err(prefix + e),
    }
}

fn prefixed(r: Result<String, String>, prefix: &str) -> (out: Result<String, String>)
    ensures
        text_outcome(out) == url_outcome(text_outcome(r), prefix@),
{
    match r {
        Ok(x) => Ok(x),
        Err(e) => Err(concat(prefix, e.as_str())),
    }
}

/// The path of the page that completes a Microsoft sign-in.
pub open spec fn complete_path() -> Seq<char> {
    "/auth/microsoft/complete"@
}

pub open spec fn msg_payload_too_large() -> Seq<char> {
    "Microsoft sign-in payload is too large"@
}

pub open spec fn payload_fits(text: Seq<char>) -> bool {
    encode_utf8(text).len() <= usize::MAX / 2
}

/// Where the browser goes once a sign-in is complete: the frontend's
/// completion page, with the session's JSON and the return path each
/// written as a page-address text.
pub fn auth_complete_url(frontend_base_url: &str, return_to: &str, session_json: &str) -> (r: Result<String, String>)
    ensures
        text_outcome(r) == if !payload_fits(session_json@) || !payload_fits(return_to@) {
            Err(msg_payload_too_large())
        } else {
            url_outcome(
                url_with_query_text(
                    frontend_base_url@,
                    Some(complete_path()),
                    seq![
                        ("session"@, b64url(encode_utf8(session_json@))),
                        ("return_to"@, b64url(encode_utf8(return_to@))),
                    ],
                ),
                "invalid FRONTEND_BASE_URL: "@,
            )
        },
{
    if session_json.as_bytes().len() > usize::MAX / 2 || return_to.as_bytes().len() > usize::MAX / 2 {
        return Err(owned("Microsoft sign-in payload is too large"));
    }
    let pairs = vec![
        (owned("session"), encode_url_payload(session_json)),
        (owned("return_to"), encode_url_payload(return_to)),
    ];
    assert(pairs_view(pairs@) =~= seq![
        ("session"@, b64url(encode_utf8(session_json@))),
        ("return_to"@, b64url(encode_utf8(return_to@))),
    ]);
    prefixed(url_with_query(frontend_base_url, Some("/auth/microsoft/complete"), &pairs), "invalid FRONTEND_BASE_URL: ")
}

/// Where the browser goes when a sign-in fails: the frontend's completion
/// page, with the message written as a page-address text.
pub fn auth_error_url(frontend_base_url: &str, message: &str) -> (r: Result<String, String>)
    ensures
        text_outcome(r) == if !payload_fits(message@) {
            Err(msg_payload_too_large())
        } else {
            url_outcome(
                url_with_query_text(
                    frontend_base_url@,
                    Some(complete_path()),
                    seq![("error"@, b64url(encode_utf8(message@)))],
                ),
                "invalid FRONTEND_BASE_URL: "@,
            )
        },
{
    if message.as_bytes().len() > usize::MAX / 2 {
        return Err(owned("Microsoft sign-in payload is too large"));
    }
    let pairs = vec![(owned("error"), encode_url_payload(message))];
    assert(pairs_view(pairs@) =~= seq![("error"@, b64url(encode_utf8(message@)))]);
    prefixed(url_with_query(frontend_base_url, Some("/auth/microsoft/complete"), &pairs), "invalid FRONTEND_BASE_URL: ")
}

/// Where the browser is sent to sign in with Microsoft: the tenant's
/// authorize endpoint with the authorize query.
pub fn microsoft_authorize_url(tenant_id: &str, client_id: &str, redirect_uri: &str, state: &str) -> (r: Result<
    String,
    String,
>)
    ensures
        text_outcome(r) == url_outcome(
            url_with_query_text(
                "https://login.microsoftonline.com/"@ + tenant_id@ + "/oauth2/v2.0/authorize"@,
                None,
                seq![
                    ("client_id"@, client_id@),
                    ("response_type"@, "code"@),
                    ("redirect_uri"@, redirect_uri@),
                    ("response_mode"@, "query"@),
                    ("scope"@, "openid email profile User.Read"@),
                    ("state"@, state@),
                ],
            ),
            "failed to build Microsoft authorize URL: "@,
        ),
{
    let endpoint = authorize_endpoint(tenant_id);
    let pairs = authorize_query(client_id, redirect_uri, state);
    prefixed(url_with_query(endpoint.as_str(), None, &pairs), "failed to build Microsoft authorize URL: ")
}

} // verus!
