//! Text carried in a page address: UTF-8 bytes in URL-safe base64
//! without padding, as `base64` writes and reads them.
use base64::Engine;
use vstd::prelude::*;
use vstd::utf8::{decode_utf8, encode_utf8, valid_utf8};
use crate::model::opt_text;
use crate::route::{query_lookup, query_value};
use crate::text::{concat, owned};

verus! {

/// The URL-safe, unpadded base64 text `base64` writes for the bytes.
pub uninterp spec fn b64url(bytes: Seq<u8>) -> Seq<char>;

/// The bytes `base64` reads from URL-safe, unpadded base64 text, or the
/// text of the error it reports.
pub uninterp spec fn b64url_decoded(text: Seq<char>) -> Result<Seq<u8>, Seq<char>>;

/// `URL_SAFE_NO_PAD.encode(bytes)`; the contract ties the text to
/// `b64url`. The engine computes the output length with checked
/// arithmetic and panics on overflow, so inputs are kept well below the
/// address space.
#[verifier::external_body]
fn encode_b64url(bytes: &[u8]) -> (r: String)
    requires
        bytes@.len() <= usize::MAX / 2,
    ensures
        r@ == b64url(bytes@),
{
    base64::engine::general_purpose::URL_SAFE_NO_PAD.encode(bytes)
}

/// `URL_SAFE_NO_PAD.decode(text)`, with the error rendered by its
/// `Display`; the contract ties the result to `b64url_decoded`, and claims
/// that text written by the same engine reads back as the bytes it was
/// written from.
#[verifier::external_body]
fn decode_b64url(text: &str) -> (r: Result<Vec<u8>, String>)
    ensures
        match b64url_decoded(text@) {
            Ok(b) => r matches Ok(v) && v@ == b,
            Err(m) => r matches Err(e) && e@ == m,
        },
        r is Ok || forall|b: Seq<u8>| text@ != b64url(b),
        r matches Ok(v) ==> forall|b: Seq<u8>| text@ == b64url(b) ==> v@ == b,
{
    match base64::engine::general_purpose::URL_SAFE_NO_PAD.decode(text.as_bytes()) {
        Ok(v) => Ok(v),
        Err(e) => Err(e.to_string()),
    }
}

/// `String::from_utf8(bytes).ok()`: the text the bytes encode, or `None`
/// when they are not UTF-8.
#[verifier::external_body]
fn utf8_text(bytes: Vec<u8>) -> (r: Option<String>)
    ensures
        match r {
            Some(s) => valid_utf8(bytes@) && s@ == decode_utf8(bytes@),
            None => !valid_utf8(bytes@),
        },
{
    String::from_utf8(bytes).ok()
}

/// The text a page address carries, where it is base64 of UTF-8.
pub open spec fn url_text(payload: Seq<char>) -> Option<Seq<char>> {
    match b64url_decoded(payload) {
        Ok(b) => if valid_utf8(b) {
            Some(decode_utf8(b))
        } else {
            None
        },
        Err(_) => None,
    }
}

/// A text written for a page address.
pub fn encode_url_payload(text: &str) -> (r: String)
    requires
        encode_utf8(text@).len() <= usize::MAX / 2,
    ensures
        r@ == b64url(encode_utf8(text@)),
{
    encode_b64url(text.as_bytes())
}

/// The text a page address carries: what `encode_url_payload` wrote reads
/// back unchanged.
pub fn decode_url_payload(payload: &str) -> (r: Option<String>)
    ensures
        opt_text(r) == url_text(payload@),
        forall|t: Seq<char>| payload@ == b64url(encode_utf8(t)) ==> (r matches Some(s) && s@ == t),
{
    broadcast use vstd::utf8::encode_utf8_valid_utf8, vstd::utf8::encode_utf8_decode_utf8;

    match decode_b64url(payload) {
        Err(_) => None,
        Ok(bytes) => utf8_text(bytes),
    }
}

/// What the page that completes a Microsoft sign-in reads from its query:
/// the session's JSON bytes and the path to return to, or the message to
/// show. The message of a failed sign-in is the one the server wrote; the
/// return path defaults to the home page.
pub open spec fn auth_response(search: Seq<char>) -> Result<(Seq<u8>, Seq<char>), Seq<char>> {
    match query_lookup(search, "error"@) {
        Some(e) => Err(
            match url_text(e) {
                Some(t) => t,
                None => "Microsoft sign-in failed. Please try again."@,
            },
        ),
        None => match query_lookup(search, "session"@) {
            None => Err("Microsoft sign-in response did not include a session"@),
            Some(p) => match b64url_decoded(p) {
                Err(m) => Err("invalid Microsoft session payload: "@ + m),
                Ok(bytes) => Ok(
                    (
                        bytes,
                        match url_text(
                            match query_lookup(search, "return_to"@) {
                                Some(x) => x,
                                None => Seq::empty(),
                            },
                        ) {
                            Some(t) => t,
                            None => "/"@,
                        },
                    ),
                ),
            },
        },
    }
}

/// Reads the answer of a Microsoft sign-in from the page's query string.
pub fn microsoft_auth_response(search: &str) -> (r: Result<(Vec<u8>, String), String>)
    ensures
        match auth_response(search@) {
            Ok((b, t)) => r matches Ok((v, s)) && v@ == b && s@ == t,
            Err(m) => r matches Err(e) && e@ == m,
        },
{
    match query_value(search, "error") {
        Some(e) => {
            return Err(
                match decode_url_payload(e.as_str()) {
                    Some(t) => t,
                    None => owned("Microsoft sign-in failed. Please try again."),
                },
            );
        },
        None => {},
    }
    let payload = match query_value(search, "session") {
        Some(p) => p,
        None => {
            return Err(owned("Microsoft sign-in response did not include a session"));
        },
    };
    let bytes = match decode_b64url(payload.as_str()) {
        Ok(b) => b,
        Err(m) => {
            return Err(concat("invalid Microsoft session payload: ", m.as_str()));
        },
    };
    let return_payload = match query_value(search, "return_to") {
        Some(x) => x,
        None => String::new(),
    };
    let return_to = match decode_url_payload(return_payload.as_str()) {
        Some(t) => t,
        None => owned("/"),
    };
    Ok((bytes, return_to))
}

} // verus!
