//! Password hashing with Argon2.
use argon2::password_hash::{rand_core::OsRng, PasswordHash, PasswordHasher, PasswordVerifier, SaltString};
use vstd::prelude::*;
use vstd::utf8::encode_utf8;

verus! {

/// Whether Argon2 accepts `password` against the PHC string `hash`: the
/// string parses, and hashing `password` with the salt and parameters it
/// names gives the output it holds.
pub uninterp spec fn argon2_accepts(password: Seq<char>, hash: Seq<char>) -> bool;

pub open spec fn argon2_prefix() -> Seq<char> {
    seq!['$', 'a', 'r', 'g', 'o', 'n', '2']
}

/// Whether a stored value is an Argon2 PHC string rather than plain text.
pub open spec fn looks_hashed(value: Seq<char>) -> bool {
    value.len() >= 7 && value.take(7) == argon2_prefix()
}

/// `Argon2::default().hash_password` with a fresh random salt, rendered as
/// a PHC string, or the text of its error. The contract claims that the
/// string starts with `$argon2` and that Argon2 accepts the same password
/// against it, and that hashing fails only for a password longer than
/// Argon2's limit of `0xFFFF_FFFF` bytes (a generated salt is always
/// valid); the salt is random, so the string itself is not stated.
#[verifier::external_body]
fn argon2_hash(password: &str) -> (r: Result<String, String>)
    ensures
        r matches Ok(h) ==> looks_hashed(h@) && argon2_accepts(password@, h@),
        pwd_fits(password@) ==> r is Ok,
{
    let salt = SaltString::generate(&mut OsRng);
    match argon2::Argon2::default().hash_password(password.as_bytes(), &salt) {
        Ok(hash) => Ok(hash.to_string()),
        Err(error) => Err(error.to_string()),
    }
}

/// A password short enough for Argon2: at most `0xFFFF_FFFF` bytes of UTF-8.
pub open spec fn pwd_fits(password: Seq<char>) -> bool {
    encode_utf8(password).len() <= 0xFFFF_FFFF
}

pub open spec fn msg_hash_failure() -> Seq<char> {
    "failed to hash password: "@
}

/// Hashes a password with a fresh random salt; a hash that Argon2 accepts
/// the password against, or why hashing failed, which happens only for a
/// password longer than Argon2 takes.
pub fn hash_password(password: &str) -> (r: Result<String, String>)
    ensures
        r matches Ok(h) ==> looks_hashed(h@) && argon2_accepts(password@, h@),
        pwd_fits(password@) ==> r is Ok,
        r matches Err(e) ==> e@.take(msg_hash_failure().len() as int) == msg_hash_failure(),
{
    match argon2_hash(password) {
        Ok(h) => Ok(h),
        Err(e) => {
            let msg = crate::text::concat("failed to hash password: ", e.as_str());
            assert(msg@.take(msg_hash_failure().len() as int) =~= msg_hash_failure());
            Err(msg)
        },
    }
}

/// `PasswordHash::new(hash)` followed by `Argon2::default().verify_password`.
/// The contract ties the answer to `argon2_accepts`, and claims that a
/// string that does not start with `$argon2` is refused: it is no PHC
/// string, or names an algorithm other than Argon2, which Argon2 refuses.
#[verifier::external_body]
pub fn verify_password(password: &str, password_hash: &str) -> (r: bool)
    ensures
        r == argon2_accepts(password@, password_hash@),
        !looks_hashed(password_hash@) ==> !r,
{
    match PasswordHash::new(password_hash) {
        Ok(parsed) => argon2::Argon2::default().verify_password(password.as_bytes(), &parsed).is_ok(),
        Err(_) => false,
    }
}

/// Whether `value` starts with `$argon2`.
pub fn is_password_hash(value: &str) -> (r: bool)
    ensures
        r == looks_hashed(value@),
{
    let n = value.unicode_len();
    if n < 7 {
        return false;
    }
    let p = "$argon2";
    proof {
        reveal_strlit("$argon2");
        assert(p@ =~= argon2_prefix());
    }
    let mut i: usize = 0;
    while i < 7
        invariant
            n == value@.len(),
            7 <= n,
            i <= 7,
            p@ == argon2_prefix(),
            forall|j: int| 0 <= j < i ==> value@[j] == argon2_prefix()[j],
        decreases 7 - i,
    {
        if value.get_char(i) != p.get_char(i) {
            return false;
        }
        i = i + 1;
    }
    assert(value@.take(7) =~= argon2_prefix());
    true
}

} // verus!
