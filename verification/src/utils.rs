//! Normalisation of user input: emails, queue fields, names and paths.
use vstd::prelude::*;
use crate::model::{fields_model, opt_text, texts, FieldModel, QueueField};
use crate::text::{contains_char, lowercase, owned, slug, slugify, text_eq, to_lowercase, trim, trimmed};

verus! {

pub open spec fn msg_invalid_email() -> Seq<char> {
    "a valid email is required"@
}

/// The email as stored: trimmed and lower-cased; it must hold an `@`.
pub open spec fn email_norm(value: Seq<char>) -> Result<Seq<char>, Seq<char>> {
    let n = lowercase(trimmed(value));
    if n.len() == 0 || !n.contains('@') {
        Err(msg_invalid_email())
    } else {
        Ok(n)
    }
}

pub fn normalize_email(value: &str) -> (r: Result<String, String>)
    ensures
        match email_norm(value@) {
            Ok(n) => r is Ok && r->Ok_0@ == n,
            Err(m) => r is Err && r->Err_0@ == m,
        },
{
    let t = trim(value);
    let normalized = to_lowercase(t.as_str());
    if normalized.as_str().unicode_len() == 0 || !contains_char(normalized.as_str(), '@') {
        return Err(owned("a valid email is required"));
    }
    Ok(normalized)
}

/// Field keys that name the requester.
pub open spec fn is_name_key(key: Seq<char>) -> bool {
    key == "name"@ || key == "full_name"@
}

pub fn is_requester_name_key(key: &str) -> (r: bool)
    ensures
        r == is_name_key(key@),
{
    text_eq(key, "name") || text_eq(key, "full_name")
}

/// The dropdown options as kept: trimmed, blanks dropped, repeats dropped,
/// first occurrences in their order.
pub open spec fn options_norm(os: Seq<Seq<char>>) -> Seq<Seq<char>>
    decreases os.len(),
{
    if os.len() == 0 {
        Seq::empty()
    } else {
        let prev = options_norm(os.drop_last());
        let t = trimmed(os.last());
        if t.len() == 0 || prev.contains(t) {
            prev
        } else {
            prev.push(t)
        }
    }
}

pub open spec fn msg_empty_label() -> Seq<char> {
    "field labels cannot be empty"@
}

pub open spec fn msg_empty_key(label: Seq<char>) -> Seq<char> {
    "field label '"@ + label + "' produced an empty key"@
}

pub open spec fn msg_duplicate_key(key: Seq<char>) -> Seq<char> {
    "duplicate field key '"@ + key + "'"@
}

/// One field as kept, before the check against the keys before it.
pub open spec fn field_norm(f: FieldModel) -> Result<FieldModel, Seq<char>> {
    let label = trimmed(f.label);
    if label.len() == 0 {
        Err(msg_empty_label())
    } else {
        let raw_key = trimmed(f.key);
        let key = if raw_key.len() == 0 {
            slug(label)
        } else {
            slug(raw_key)
        };
        if key.len() == 0 {
            Err(msg_empty_key(label))
        } else {
            Ok(FieldModel { key, label, required: f.required, options: options_norm(f.options) })
        }
    }
}

pub open spec fn has_key(fs: Seq<FieldModel>, key: Seq<char>) -> bool {
    exists|i: int| 0 <= i < fs.len() && fs[i].key == key
}

/// The fields as kept, or the message for the first field that is refused.
pub open spec fn fields_norm(fs: Seq<FieldModel>) -> Result<Seq<FieldModel>, Seq<char>>
    decreases fs.len(),
{
    if fs.len() == 0 {
        Ok(Seq::empty())
    } else {
        match fields_norm(fs.drop_last()) {
            Err(e) => Err(e),
            Ok(prev) => match field_norm(fs.last()) {
                Err(e) => Err(e),
                Ok(f) => if has_key(prev, f.key) {
                    Err(msg_duplicate_key(f.key))
                } else {
                    Ok(prev.push(f))
                },
            },
        }
    }
}

fn contains_text(v: &Vec<String>, t: &str) -> (r: bool)
    ensures
        r == texts(v@).contains(t@),
{
    let mut i: usize = 0;
    while i < v.len()
        invariant
            i <= v@.len(),
            forall|j: int| 0 <= j < i ==> v@[j]@ != t@,
        decreases v@.len() - i,
    {
        if text_eq(v[i].as_str(), t) {
            assert(texts(v@)[i as int] == t@);
            return true;
        }
        i = i + 1;
    }
    assert forall|j: int| 0 <= j < texts(v@).len() implies texts(v@)[j] != t@ by {}
    false
}

fn normalize_options(options: &Vec<String>) -> (r: Vec<String>)
    ensures
        texts(r@) == options_norm(texts(options@)),
{
    let mut out: Vec<String> = Vec::new();
    let mut i: usize = 0;
    while i < options.len()
        invariant
            i <= options@.len(),
            texts(out@) == options_norm(texts(options@).take(i as int)),
        decreases options@.len() - i,
    {
        let t = trim(options[i].as_str());
        let ghost pre = texts(options@).take(i as int);
        proof {
            assert(texts(options@).take(i + 1).drop_last() =~= pre);
        }
        if t.as_str().unicode_len() != 0 && !contains_text(&out, t.as_str()) {
            out.push(t);
            assert(texts(out@) =~= options_norm(texts(options@).take(i as int)).push(
                trimmed(options@[i as int]@),
            ));
        }
        i = i + 1;
    }
    assert(texts(options@).take(options@.len() as int) =~= texts(options@));
    out
}

fn keys_contain(v: &Vec<QueueField>, key: &str) -> (r: bool)
    ensures
        r == has_key(fields_model(v@), key@),
{
    let mut i: usize = 0;
    while i < v.len()
        invariant
            i <= v@.len(),
            forall|j: int| 0 <= j < i ==> v@[j].key@ != key@,
        decreases v@.len() - i,
    {
        if text_eq(v[i].key.as_str(), key) {
            assert(fields_model(v@)[i as int].key == key@);
            return true;
        }
        i = i + 1;
    }
    false
}

proof fn lemma_fields_norm_prefix_err(s: Seq<FieldModel>, k: int)
    requires
        0 <= k <= s.len(),
        fields_norm(s.take(k)) is Err,
    ensures
        fields_norm(s) == fields_norm(s.take(k)),
    decreases s.len() - k,
{
    if k == s.len() {
        assert(s.take(k) =~= s);
    } else {
        assert(s.drop_last().take(k) =~= s.take(k));
        lemma_fields_norm_prefix_err(s.drop_last(), k);
    }
}

/// Checks and normalises the fields of a queue, in order.
pub fn normalize_fields(fields: Vec<QueueField>) -> (r: Result<Vec<QueueField>, String>)
    ensures
        match fields_norm(fields_model(fields@)) {
            Ok(fs) => r is Ok && fields_model(r->Ok_0@) == fs,
            Err(m) => r is Err && r->Err_0@ == m,
        },
{
    let mut normalized: Vec<QueueField> = Vec::new();
    let mut i: usize = 0;
    assert(fields_model(fields@).take(0) =~= Seq::<FieldModel>::empty());
    assert(fields_model(normalized@) =~= Seq::<FieldModel>::empty());
    while i < fields.len()
        invariant
            i <= fields@.len(),
            fields_norm(fields_model(fields@).take(i as int)) == Ok::<Seq<FieldModel>, Seq<char>>(
                fields_model(normalized@),
            ),
        decreases fields@.len() - i,
    {
        let field = &fields[i];
        let ghost pre = fields_model(fields@).take(i as int);
        proof {
            assert(fields_model(fields@).take(i + 1).drop_last() =~= pre);
            assert(fields_model(fields@).take(i + 1).last() == field@);
        }
        let label = trim(field.label.as_str());
        if label.as_str().unicode_len() == 0 {
            proof {
                lemma_fields_norm_prefix_err(fields_model(fields@), i + 1);
            }
            return Err(owned("field labels cannot be empty"));
        }
        let raw_key = trim(field.key.as_str());
        let key = if raw_key.as_str().unicode_len() == 0 {
            slugify(label.as_str())
        } else {
            slugify(raw_key.as_str())
        };
        if key.as_str().unicode_len() == 0 {
            let mut m = owned("field label '");
            m.append(label.as_str());
            m.append("' produced an empty key");
            proof {
                lemma_fields_norm_prefix_err(fields_model(fields@), i + 1);
            }
            return Err(m);
        }
        if keys_contain(&normalized, key.as_str()) {
            let mut m = owned("duplicate field key '");
            m.append(key.as_str());
            m.append("'");
            proof {
                lemma_fields_norm_prefix_err(fields_model(fields@), i + 1);
            }
            return Err(m);
        }
        let options = normalize_options(&field.options);
        let f = QueueField { key, label, required: field.required, options };
        let ghost prev = fields_model(normalized@);
        let ghost old_norm = normalized@;
        proof {
            assert(field_norm(field@) == Ok::<FieldModel, Seq<char>>(f@));
            assert(!has_key(prev, f@.key));
            assert(fields_norm(fields_model(fields@).take(i + 1)) == Ok::<Seq<FieldModel>, Seq<char>>(prev.push(f@)));
        }
        normalized.push(f);
        proof {
            assert(normalized@ == old_norm.push(f));
            assert(fields_model(old_norm.push(f)) =~= prev.push(f@));
        }
        i = i + 1;
    }
    assert(fields_model(fields@).take(fields@.len() as int) =~= fields_model(fields@));
    Ok(normalized)
}

/// The name given to an account created at a Microsoft sign-in: the profile
/// name when it is not blank, else the part of the email before the first `@`.
pub open spec fn ms_account_name(name: Option<Seq<char>>, email: Seq<char>) -> Seq<char> {
    let n = trimmed(
        match name {
            Some(s) => s,
            None => Seq::empty(),
        },
    );
    if n.len() != 0 {
        n
    } else {
        match email.index_of_first('@') {
            Some(k) => trimmed(email.take(k)),
            None => trimmed(email),
        }
    }
}

fn index_of_char(s: &str, c: char) -> (r: Option<usize>)
    ensures
        match r {
            Some(i) => s@.index_of_first(c) == Some(i as int),
            None => s@.index_of_first(c) is None && !s@.contains(c),
        },
{
    let n = s.unicode_len();
    let mut i: usize = 0;
    while i < n
        invariant
            n == s@.len(),
            i <= n,
            forall|j: int| 0 <= j < i ==> s@[j] != c,
        decreases n - i,
    {
        if s.get_char(i) == c {
            proof {
                s@.index_of_first_ensures(c);
            }
            return Some(i);
        }
        i = i + 1;
    }
    proof {
        s@.index_of_first_ensures(c);
    }
    None
}

pub fn microsoft_account_name(name: Option<String>, email: &str) -> (r: String)
    ensures
        r@ == ms_account_name(opt_text(name), email@),
{
    let n = match &name {
        Some(s) => trim(s.as_str()),
        None => trim(""),
    };
    proof {
        if name is None {
            reveal_strlit("");
            assert(""@ =~= Seq::<char>::empty());
        }
    }
    if n.as_str().unicode_len() != 0 {
        return n;
    }
    match index_of_char(email, '@') {
        Some(k) => {
            proof {
                email@.index_of_first_ensures('@');
            }
            let local = email.substring_char(0, k);
            assert(local@ =~= email@.take(k as int));
            trim(local)
        },
        None => trim(email),
    }
}

/// English name of a weekday counted from Sunday.
pub open spec fn weekday_text(weekday: u8) -> Seq<char> {
    if weekday == 0 {
        "Sunday"@
    } else if weekday == 1 {
        "Monday"@
    } else if weekday == 2 {
        "Tuesday"@
    } else if weekday == 3 {
        "Wednesday"@
    } else if weekday == 4 {
        "Thursday"@
    } else if weekday == 5 {
        "Friday"@
    } else if weekday == 6 {
        "Saturday"@
    } else {
        "Unknown"@
    }
}

pub fn weekday_label(weekday: u8) -> (r: &'static str)
    ensures
        r@ == weekday_text(weekday),
{
    match weekday {
        0 => "Sunday",
        1 => "Monday",
        2 => "Tuesday",
        3 => "Wednesday",
        4 => "Thursday",
        5 => "Friday",
        6 => "Saturday",
        _ => "Unknown",
    }
}

/// A path to return to after signing in: kept when it is site-local
/// (starts with one `/`), else the site root.
pub open spec fn return_path(value: Seq<char>) -> Seq<char> {
    if value.len() >= 1 && value[0] == '/' && !(value.len() >= 2 && value[1] == '/') {
        value
    } else {
        "/"@
    }
}

pub fn normalize_return_to(value: String) -> (r: String)
    ensures
        r@ == return_path(value@),
{
    let n = value.as_str().unicode_len();
    if n >= 1 && value.as_str().get_char(0) == '/' && !(n >= 2 && value.as_str().get_char(1)
        == '/') {
        value
    } else {
        owned("/")
    }
}

} // verus!
