//! The pages of the browser client, their paths, and reading the query of
//! a page address.
use vstd::prelude::*;
use crate::text::{
    lemma_strip_end_take, lemma_strip_start_skip, owned, strip_end_char, strip_start_char,
    text_eq,
};

verus! {

// ---------------------------------------------------------------------------
// Splitting text
// ---------------------------------------------------------------------------

/// The pieces of `s` between occurrences of `sep`, as `str::split` gives
/// them.
pub open spec fn split_on(s: Seq<char>, sep: char) -> Seq<Seq<char>>
    decreases s.len(),
{
    if s.len() == 0 {
        seq![Seq::<char>::empty()]
    } else {
        let p = split_on(s.drop_last(), sep);
        if s.last() == sep {
            p.push(Seq::empty())
        } else {
            p.update(p.len() - 1, p.last().push(s.last()))
        }
    }
}

pub proof fn lemma_split_nonempty(s: Seq<char>, sep: char)
    ensures
        split_on(s, sep).len() >= 1,
    decreases s.len(),
{
    if s.len() > 0 {
        lemma_split_nonempty(s.drop_last(), sep);
    }
}

/// A text without the separator is one piece.
pub proof fn lemma_split_whole(s: Seq<char>, sep: char)
    requires
        !s.contains(sep),
    ensures
        split_on(s, sep) == seq![s],
    decreases s.len(),
{
    if s.len() > 0 {
        let t = s.drop_last();
        assert(!t.contains(sep)) by {
            if t.contains(sep) {
                let k = choose|k: int| 0 <= k < t.len() && t[k] == sep;
                assert(s[k] == sep);
            }
        }
        lemma_split_whole(t, sep);
        assert(s.last() != sep) by {
            assert(s[s.len() - 1] == s.last());
        }
        assert(t.push(s.last()) =~= s);
    } else {
        assert(s =~= Seq::<char>::empty());
    }
}

/// Splitting around one separator joins the pieces of each side.
pub proof fn lemma_split_concat(a: Seq<char>, b: Seq<char>, sep: char)
    ensures
        split_on(a + seq![sep] + b, sep) == split_on(a, sep) + split_on(b, sep),
    decreases b.len(),
{
    lemma_split_nonempty(a, sep);
    if b.len() == 0 {
        assert((a + seq![sep] + b).drop_last() =~= a);
        assert(a + seq![sep] + b =~= a.push(sep));
        assert(split_on(b, sep) =~= seq![Seq::<char>::empty()]);
        assert(split_on(a, sep).push(Seq::empty()) =~= split_on(a, sep) + split_on(b, sep));
    } else {
        let c = b.drop_last();
        lemma_split_concat(a, c, sep);
        lemma_split_nonempty(c, sep);
        assert((a + seq![sep] + b).drop_last() =~= a + seq![sep] + c);
        assert((a + seq![sep] + b).last() == b.last());
        let pa = split_on(a, sep);
        let pc = split_on(c, sep);
        if b.last() == sep {
            assert((pa + pc).push(Seq::empty()) =~= pa + pc.push(Seq::empty()));
        } else {
            let q = pa + pc;
            assert(q.update(q.len() - 1, q.last().push(b.last())) =~= pa + pc.update(
                pc.len() - 1,
                pc.last().push(b.last()),
            ));
        }
    }
}

/// The pieces of `s` between occurrences of `sep`.
pub fn split_text(s: &str, sep: char) -> (r: Vec<String>)
    ensures
        r@.map_values(|x: String| x@) == split_on(s@, sep),
{
    let n = s.unicode_len();
    let mut parts: Vec<String> = Vec::new();
    let mut cur = String::new();
    let mut i: usize = 0;
    while i < n
        invariant
            n == s@.len(),
            i <= n,
            parts@.map_values(|x: String| x@).push(cur@) == split_on(s@.take(i as int), sep),
        decreases n - i,
    {
        let c = s.get_char(i);
        let ghost before = parts@.map_values(|x: String| x@);
        let ghost cur0 = cur@;
        assert(s@.take(i + 1).drop_last() =~= s@.take(i as int));
        assert(s@.take(i + 1).last() == c);
        if c == sep {
            let done = cur;
            parts.push(done);
            cur = String::new();
            assert(parts@.map_values(|x: String| x@) =~= before.push(cur0));
            assert(parts@.map_values(|x: String| x@).push(cur@) =~= before.push(cur0).push(Seq::empty()));
        } else {
            cur.push(c);
            assert(before.push(cur@) =~= before.push(cur0).update(before.len() as int, cur0.push(c)));
        }
        i = i + 1;
    }
    assert(s@.take(n as int) =~= s@);
    let ghost before = parts@.map_values(|x: String| x@);
    parts.push(cur);
    assert(parts@.map_values(|x: String| x@) =~= before.push(parts@[parts@.len() - 1]@));
    parts
}

/// `s` without every leading and trailing `ch`.
pub fn trim_char(s: &str, ch: char) -> (r: String)
    ensures
        r@ == strip_end_char(strip_start_char(s@, ch), ch),
{
    let n = s.unicode_len();
    let mut start: usize = 0;
    while start < n && s.get_char(start) == ch
        invariant
            n == s@.len(),
            start <= n,
            forall|j: int| 0 <= j < start ==> s@[j] == ch,
        decreases n - start,
    {
        start = start + 1;
    }
    proof {
        lemma_strip_start_skip(s@, ch, start as int);
    }
    let mut end: usize = n;
    while end > start && s.get_char(end - 1) == ch
        invariant
            n == s@.len(),
            start <= end <= n,
            forall|j: int| end <= j < n ==> s@[j] == ch,
        decreases end,
    {
        end = end - 1;
    }
    let ghost t = s@.skip(start as int);
    proof {
        assert forall|j: int| end - start <= j < t.len() implies t[j] == ch by {
            assert(t[j] == s@[j + start]);
        }
        if end > start {
            assert(t[end - start - 1] == s@[end - 1]);
        }
        lemma_strip_end_take(t, ch, end - start);
    }
    let mut out = String::new();
    let mut i: usize = start;
    while i < end
        invariant
            n == s@.len(),
            start <= i <= end <= n,
            out@ == s@.subrange(start as int, i as int),
        decreases end - i,
    {
        out.push(s.get_char(i));
        assert(s@.subrange(start as int, i + 1) =~= s@.subrange(start as int, i as int).push(s@[i as int]));
        i = i + 1;
    }
    assert(out@ =~= t.take(end - start));
    out
}

// ---------------------------------------------------------------------------
// Pages
// ---------------------------------------------------------------------------

/// A page of the client.
#[derive(Clone, Debug)]
pub enum Route {
    Home,
    MicrosoftAuthComplete,
    Admin { queue_id: Option<String>, request_id: Option<String> },
    Queue { queue_id: String },
}

pub ghost enum RouteModel {
    Home,
    MicrosoftAuthComplete,
    Admin { queue_id: Option<Seq<char>>, request_id: Option<Seq<char>> },
    Queue { queue_id: Seq<char> },
}

impl View for Route {
    type V = RouteModel;

    open spec fn view(&self) -> RouteModel {
        match self {
            Route::Home => RouteModel::Home,
            Route::MicrosoftAuthComplete => RouteModel::MicrosoftAuthComplete,
            Route::Admin { queue_id, request_id } => RouteModel::Admin {
                queue_id: crate::model::opt_text(*queue_id),
                request_id: crate::model::opt_text(*request_id),
            },
            Route::Queue { queue_id } => RouteModel::Queue { queue_id: queue_id@ },
        }
    }
}

/// The page named by the pieces of a path.
pub open spec fn route_of_parts(p: Seq<Seq<char>>) -> RouteModel {
    if p.len() == 3 && p[0] == "auth"@ && p[1] == "microsoft"@ && p[2] == "complete"@ {
        RouteModel::MicrosoftAuthComplete
    } else if p.len() == 1 && p[0] == "admin"@ {
        RouteModel::Admin { queue_id: None, request_id: None }
    } else if p.len() == 3 && p[0] == "admin"@ && p[1] == "queue"@ && p[2].len() > 0 {
        RouteModel::Admin { queue_id: Some(p[2]), request_id: None }
    } else if p.len() == 5 && p[0] == "admin"@ && p[1] == "queue"@ && p[3] == "request"@ && p[2].len()
        > 0 && p[4].len() > 0 {
        RouteModel::Admin { queue_id: Some(p[2]), request_id: Some(p[4]) }
    } else if p.len() == 2 && p[0] == "queue"@ && p[1].len() > 0 {
        RouteModel::Queue { queue_id: p[1] }
    } else {
        RouteModel::Home
    }
}

/// The page a path names; an unknown path is the home page.
pub open spec fn route_of_path(path: Seq<char>) -> RouteModel {
    route_of_parts(split_on(strip_end_char(strip_start_char(path, '/'), '/'), '/'))
}

/// The path of a page.
pub open spec fn path_of(r: RouteModel) -> Seq<char> {
    match r {
        RouteModel::Home => "/"@,
        RouteModel::MicrosoftAuthComplete => "/auth/microsoft/complete"@,
        RouteModel::Admin { queue_id: None, request_id: _ } => "/admin"@,
        RouteModel::Admin { queue_id: Some(q), request_id: None } => "/admin/queue/"@ + q,
        RouteModel::Admin { queue_id: Some(q), request_id: Some(x) } => "/admin/queue/"@ + q
            + "/request/"@ + x,
        RouteModel::Queue { queue_id } => "/queue/"@ + queue_id,
    }
}

impl Route {
    /// The page a path names.
    pub fn from_path(path: &str) -> (r: Route)
        ensures
            r@ == route_of_path(path@),
    {
        let trimmed = trim_char(path, '/');
        let parts = split_text(trimmed.as_str(), '/');
        let ghost p = parts@.map_values(|x: String| x@);
        proof {
            lemma_split_nonempty(trimmed@, '/');
        }
        let n = parts.len();
        if n == 3 && text_eq(parts[0].as_str(), "auth") && text_eq(parts[1].as_str(), "microsoft")
            && text_eq(parts[2].as_str(), "complete") {
            return Route::MicrosoftAuthComplete;
        }
        if n == 1 && text_eq(parts[0].as_str(), "admin") {
            return Route::Admin { queue_id: None, request_id: None };
        }
        if n == 3 && text_eq(parts[0].as_str(), "admin") && text_eq(parts[1].as_str(), "queue")
            && parts[2].as_str().unicode_len() > 0 {
            return Route::Admin { queue_id: Some(parts[2].clone()), request_id: None };
        }
        if n == 5 && text_eq(parts[0].as_str(), "admin") && text_eq(parts[1].as_str(), "queue")
            && text_eq(parts[3].as_str(), "request") && parts[2].as_str().unicode_len() > 0
            && parts[4].as_str().unicode_len() > 0 {
            return Route::Admin { queue_id: Some(parts[2].clone()), request_id: Some(parts[4].clone()) };
        }
        if n == 2 && text_eq(parts[0].as_str(), "queue") && parts[1].as_str().unicode_len() > 0 {
            return Route::Queue { queue_id: parts[1].clone() };
        }
        Route::Home
    }

    /// The path of the page.
    pub fn path(&self) -> (r: String)
        ensures
            r@ == path_of(self@),
    {
        match self {
            Route::Home => owned("/"),
            Route::MicrosoftAuthComplete => owned("/auth/microsoft/complete"),
            Route::Admin { queue_id: None, request_id: _ } => owned("/admin"),
            Route::Admin { queue_id: Some(q), request_id: None } => crate::text::concat("/admin/queue/", q.as_str()),
            Route::Admin { queue_id: Some(q), request_id: Some(x) } => {
                let mut r = owned("/admin/queue/");
                r.append(q.as_str());
                r.append("/request/");
                r.append(x.as_str());
                r
            },
            Route::Queue { queue_id } => crate::text::concat("/queue/", queue_id.as_str()),
        }
    }
}

/// The pages whose path reads back as the same page: ids that are not
/// empty and hold no `/`, and no request without its queue.
pub open spec fn route_path_ok(r: RouteModel) -> bool {
    match r {
        RouteModel::Home => true,
        RouteModel::MicrosoftAuthComplete => true,
        RouteModel::Admin { queue_id: None, request_id: None } => true,
        RouteModel::Admin { queue_id: None, request_id: Some(_) } => false,
        RouteModel::Admin { queue_id: Some(q), request_id: None } => q.len() > 0 && !q.contains('/'),
        RouteModel::Admin { queue_id: Some(q), request_id: Some(x) } => q.len() > 0 && !q.contains('/')
            && x.len() > 0 && !x.contains('/'),
        RouteModel::Queue { queue_id } => queue_id.len() > 0 && !queue_id.contains('/'),
    }
}

proof fn lemma_strip_one_slash(t: Seq<char>)
    requires
        t.len() > 0,
        t[0] != '/',
        t.last() != '/',
    ensures
        strip_end_char(strip_start_char(seq!['/'] + t, '/'), '/') == t,
{
    let s = seq!['/'] + t;
    lemma_strip_start_skip(s, '/', 1);
    assert(s.skip(1) =~= t);
    lemma_strip_end_take(t, '/', t.len() as int);
    assert(t.take(t.len() as int) =~= t);
}

proof fn lemma_no_slash_last(q: Seq<char>)
    requires
        q.len() > 0,
        !q.contains('/'),
    ensures
        q.last() != '/',
        q[0] != '/',
{
    assert(q[q.len() - 1] == q.last());
}

proof fn lemma_words()
    ensures
        "auth"@ =~= seq!['a', 'u', 't', 'h'],
        "microsoft"@ =~= seq!['m', 'i', 'c', 'r', 'o', 's', 'o', 'f', 't'],
        "complete"@ =~= seq!['c', 'o', 'm', 'p', 'l', 'e', 't', 'e'],
        "admin"@ =~= seq!['a', 'd', 'm', 'i', 'n'],
        "queue"@ =~= seq!['q', 'u', 'e', 'u', 'e'],
        "request"@ =~= seq!['r', 'e', 'q', 'u', 'e', 's', 't'],
        !"auth"@.contains('/'),
        !"microsoft"@.contains('/'),
        !"complete"@.contains('/'),
        !"admin"@.contains('/'),
        !"queue"@.contains('/'),
        !"request"@.contains('/'),
{
    reveal_strlit("auth");
    reveal_strlit("microsoft");
    reveal_strlit("complete");
    reveal_strlit("admin");
    reveal_strlit("queue");
    reveal_strlit("request");
}

proof fn lemma_rt_home()
    ensures
        route_of_path("/"@) == RouteModel::Home,
{
    reveal_strlit("/");
    lemma_words();
    lemma_strip_start_skip("/"@, '/', 1);
    assert("/"@.skip(1) =~= Seq::<char>::empty());
    assert(!Seq::<char>::empty().contains('/'));
    lemma_split_whole(Seq::<char>::empty(), '/');
}

proof fn lemma_rt_auth()
    ensures
        route_of_path("/auth/microsoft/complete"@) == RouteModel::MicrosoftAuthComplete,
{
    reveal_strlit("/auth/microsoft/complete");
    lemma_words();
    let sl = seq!['/'];
    let body = "auth"@ + sl + "microsoft"@ + sl + "complete"@;
    assert("/auth/microsoft/complete"@ =~= sl + body);
    lemma_strip_one_slash(body);
    lemma_split_whole("auth"@, '/');
    lemma_split_whole("microsoft"@, '/');
    lemma_split_whole("complete"@, '/');
    lemma_split_concat("auth"@, "microsoft"@, '/');
    lemma_split_concat("auth"@ + sl + "microsoft"@, "complete"@, '/');
    assert(split_on(body, '/') =~= seq!["auth"@, "microsoft"@, "complete"@]);
}

proof fn lemma_rt_admin()
    ensures
        route_of_path("/admin"@) == (RouteModel::Admin { queue_id: None, request_id: None }),
{
    reveal_strlit("/admin");
    lemma_words();
    assert("/admin"@ =~= seq!['/'] + "admin"@);
    lemma_strip_one_slash("admin"@);
    lemma_split_whole("admin"@, '/');
}

proof fn lemma_rt_admin_queue(q: Seq<char>)
    requires
        q.len() > 0,
        !q.contains('/'),
    ensures
        route_of_path("/admin/queue/"@ + q) == (RouteModel::Admin { queue_id: Some(q), request_id: None }),
{
    reveal_strlit("/admin/queue/");
    lemma_words();
    let sl = seq!['/'];
    lemma_no_slash_last(q);
    lemma_split_whole(q, '/');
    lemma_split_whole("admin"@, '/');
    lemma_split_whole("queue"@, '/');
    let body = "admin"@ + sl + "queue"@ + sl + q;
    assert("/admin/queue/"@ + q =~= sl + body);
    assert(body.last() == q.last());
    lemma_strip_one_slash(body);
    lemma_split_concat("admin"@, "queue"@, '/');
    lemma_split_concat("admin"@ + sl + "queue"@, q, '/');
    assert(split_on(body, '/') =~= seq!["admin"@, "queue"@, q]);
}

proof fn lemma_rt_admin_request(q: Seq<char>, x: Seq<char>)
    requires
        q.len() > 0,
        !q.contains('/'),
        x.len() > 0,
        !x.contains('/'),
    ensures
        route_of_path("/admin/queue/"@ + q + "/request/"@ + x) == (RouteModel::Admin {
            queue_id: Some(q),
            request_id: Some(x),
        }),
{
    reveal_strlit("/admin/queue/");
    reveal_strlit("/request/");
    lemma_words();
    let sl = seq!['/'];
    lemma_no_slash_last(q);
    lemma_no_slash_last(x);
    lemma_split_whole(q, '/');
    lemma_split_whole(x, '/');
    lemma_split_whole("admin"@, '/');
    lemma_split_whole("queue"@, '/');
    lemma_split_whole("request"@, '/');
    let a = "admin"@ + sl + "queue"@;
    let b = a + sl + q;
    let c = b + sl + "request"@;
    let body = c + sl + x;
    assert("/admin/queue/"@ + q + "/request/"@ + x =~= sl + body);
    assert(body.last() == x.last());
    lemma_strip_one_slash(body);
    lemma_split_concat("admin"@, "queue"@, '/');
    lemma_split_concat(a, q, '/');
    lemma_split_concat(b, "request"@, '/');
    lemma_split_concat(c, x, '/');
    assert(split_on(body, '/') =~= seq!["admin"@, "queue"@, q, "request"@, x]);
}

proof fn lemma_rt_queue(q: Seq<char>)
    requires
        q.len() > 0,
        !q.contains('/'),
    ensures
        route_of_path("/queue/"@ + q) == (RouteModel::Queue { queue_id: q }),
{
    reveal_strlit("/queue/");
    lemma_words();
    let sl = seq!['/'];
    lemma_no_slash_last(q);
    lemma_split_whole(q, '/');
    lemma_split_whole("queue"@, '/');
    let body = "queue"@ + sl + q;
    assert("/queue/"@ + q =~= sl + body);
    assert(body.last() == q.last());
    lemma_strip_one_slash(body);
    lemma_split_concat("queue"@, q, '/');
    assert(split_on(body, '/') =~= seq!["queue"@, q]);
}

/// No piece of a split holds the separator.
proof fn lemma_split_pieces_clean(s: Seq<char>, sep: char)
    ensures
        forall|i: int| 0 <= i < split_on(s, sep).len() ==> !(#[trigger] split_on(s, sep)[i]).contains(sep),
    decreases s.len(),
{
    if s.len() > 0 {
        let t = s.drop_last();
        lemma_split_pieces_clean(t, sep);
        lemma_split_nonempty(t, sep);
        let p = split_on(t, sep);
        let r = split_on(s, sep);
        if s.last() != sep {
            assert forall|i: int| 0 <= i < r.len() implies !(#[trigger] r[i]).contains(sep) by {
                if i == p.len() - 1 {
                    let piece = p.last().push(s.last());
                    assert(r[i] == piece);
                    if piece.contains(sep) {
                        let k = choose|k: int| 0 <= k < piece.len() && piece[k] == sep;
                        if k < p.last().len() {
                            assert(p.last()[k] == sep);
                            assert(p.last().contains(sep));
                        }
                    }
                } else {
                    assert(r[i] == p[i]);
                }
            }
        } else {
            assert forall|i: int| 0 <= i < r.len() implies !(#[trigger] r[i]).contains(sep) by {
                if i < p.len() {
                    assert(r[i] == p[i]);
                } else {
                    assert(r[i] =~= Seq::<char>::empty());
                }
            }
        }
    }
}

/// Any path, read as a page and written again, reads as the same page.
pub proof fn law_path_normalises(path: Seq<char>)
    ensures
        route_of_path(path_of(route_of_path(path))) == route_of_path(path),
{
    let parts = split_on(strip_end_char(strip_start_char(path, '/'), '/'), '/');
    lemma_split_pieces_clean(strip_end_char(strip_start_char(path, '/'), '/'), '/');
    let r = route_of_path(path);
    if parts.len() == 3 {
        assert(!parts[2].contains('/'));
    }
    if parts.len() == 5 {
        assert(!parts[2].contains('/'));
        assert(!parts[4].contains('/'));
    }
    if parts.len() == 2 {
        assert(!parts[1].contains('/'));
    }
    assert(route_path_ok(r));
    law_route_round_trip(r);
}

/// Reading the path of a page gives back the page.
pub proof fn law_route_round_trip(r: RouteModel)
    requires
        route_path_ok(r),
    ensures
        route_of_path(path_of(r)) == r,
{
    match r {
        RouteModel::Home => lemma_rt_home(),
        RouteModel::MicrosoftAuthComplete => lemma_rt_auth(),
        RouteModel::Admin { queue_id: None, request_id: None } => lemma_rt_admin(),
        RouteModel::Admin { queue_id: None, request_id: Some(_) } => {},
        RouteModel::Admin { queue_id: Some(q), request_id: None } => lemma_rt_admin_queue(q),
        RouteModel::Admin { queue_id: Some(q), request_id: Some(x) } => lemma_rt_admin_request(q, x),
        RouteModel::Queue { queue_id } => lemma_rt_queue(queue_id),
    }
}

// ---------------------------------------------------------------------------
// Query strings
// ---------------------------------------------------------------------------

pub open spec fn is_char(c: char) -> spec_fn(char) -> bool {
    |x: char| x == c
}

/// The name and the value of a `name=value` piece, split at its first `=`.
pub open spec fn key_value(p: Seq<char>) -> Option<(Seq<char>, Seq<char>)> {
    match crate::store::find_first(p, is_char('=')) {
        Some(i) => Some((p.take(i), p.skip(i + 1))),
        None => None,
    }
}

pub open spec fn pair_named(name: Seq<char>) -> spec_fn(Seq<char>) -> bool {
    |p: Seq<char>| key_value(p) matches Some(kv) && kv.0 == name
}

/// The value of the first `name=value` pair of a query string (leading
/// `?` ignored).
pub open spec fn query_lookup(search: Seq<char>, name: Seq<char>) -> Option<Seq<char>> {
    let pieces = split_on(strip_start_char(search, '?'), '&');
    match crate::store::find_first(pieces, pair_named(name)) {
        Some(i) => match key_value(pieces[i]) {
            Some(kv) => Some(kv.1),
            None => None,
        },
        None => None,
    }
}

fn strip_leading(s: &str, ch: char) -> (r: String)
    ensures
        r@ == strip_start_char(s@, ch),
{
    let n = s.unicode_len();
    let mut start: usize = 0;
    while start < n && s.get_char(start) == ch
        invariant
            n == s@.len(),
            start <= n,
            forall|j: int| 0 <= j < start ==> s@[j] == ch,
        decreases n - start,
    {
        start = start + 1;
    }
    proof {
        lemma_strip_start_skip(s@, ch, start as int);
    }
    let mut out = String::new();
    let mut i: usize = start;
    while i < n
        invariant
            n == s@.len(),
            start <= i <= n,
            out@ == s@.subrange(start as int, i as int),
        decreases n - i,
    {
        out.push(s.get_char(i));
        assert(s@.subrange(start as int, i + 1) =~= s@.subrange(start as int, i as int).push(s@[i as int]));
        i = i + 1;
    }
    assert(out@ =~= s@.skip(start as int));
    out
}

/// Splits a piece at its first `=`.
fn split_pair(p: &str) -> (r: Option<(String, String)>)
    ensures
        match key_value(p@) {
            Some((k, v)) => r matches Some((a, b)) && a@ == k && b@ == v,
            None => r is None,
        },
{
    let n = p.unicode_len();
    let mut i: usize = 0;
    let mut key = String::new();
    while i < n
        invariant
            n == p@.len(),
            i <= n,
            key@ == p@.take(i as int),
            forall|j: int| 0 <= j < i ==> !is_char('=')(#[trigger] p@[j]),
        decreases n - i,
    {
        let c = p.get_char(i);
        if c == '=' {
            proof {
                crate::store::lemma_find_first_unique(p@, is_char('='), Some(i as int));
            }
            let mut value = String::new();
            let mut j: usize = i + 1;
            while j < n
                invariant
                    n == p@.len(),
                    i < j <= n,
                    value@ == p@.subrange(i + 1, j as int),
                decreases n - j,
            {
                value.push(p.get_char(j));
                assert(p@.subrange(i + 1, j + 1) =~= p@.subrange(i + 1, j as int).push(p@[j as int]));
                j = j + 1;
            }
            assert(value@ =~= p@.skip(i + 1));
            return Some((key, value));
        }
        key.push(c);
        assert(p@.take(i + 1) =~= p@.take(i as int).push(c));
        i = i + 1;
    }
    proof {
        crate::store::lemma_find_first_unique(p@, is_char('='), None);
    }
    None
}

/// The value of a parameter in a query string.
pub fn query_value(search: &str, name: &str) -> (r: Option<String>)
    ensures
        crate::model::opt_text(r) == query_lookup(search@, name@),
{
    let t = strip_leading(search, '?');
    let parts = split_text(t.as_str(), '&');
    let ghost pieces = parts@.map_values(|x: String| x@);
    let mut i: usize = 0;
    while i < parts.len()
        invariant
            pieces == parts@.map_values(|x: String| x@),
            pieces == split_on(strip_start_char(search@, '?'), '&'),
            i <= parts@.len(),
            forall|j: int| 0 <= j < i ==> !pair_named(name@)(#[trigger] pieces[j]),
        decreases parts@.len() - i,
    {
        match split_pair(parts[i].as_str()) {
            Some((k, v)) => {
                if text_eq(k.as_str(), name) {
                    proof {
                        assert(pair_named(name@)(pieces[i as int]));
                        crate::store::lemma_find_first_unique(pieces, pair_named(name@), Some(i as int));
                    }
                    return Some(v);
                }
            },
            None => {},
        }
        assert(!pair_named(name@)(pieces[i as int]));
        i = i + 1;
    }
    proof {
        crate::store::lemma_find_first_unique(pieces, pair_named(name@), None);
    }
    None
}

} // verus!
