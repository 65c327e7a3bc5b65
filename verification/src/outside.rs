//! The trusted boundary: every call into an outside crate the library's
//! logic makes goes through one of these items, and Verus believes their
//! contracts as stated here.
use vstd::prelude::*;
use vstd::utf8::encode_utf8;

verus! {

/// What verifying a signed cookie value yields under a master key: the
/// original value if the prepended digest checks out, nothing otherwise.
/// Verification reads only the key and the presented value, so its outcome
/// is a function of the two.
pub uninterp spec fn signed_open_of(key: Seq<u8>, sealed: Seq<char>) -> Option<Seq<char>>;

/// The signed sealing of a value under a master key: the 44 base64
/// characters of the value's HMAC digest, followed by the value itself; a
/// function of key and value alone.
pub uninterp spec fn signed_seal_of(key: Seq<u8>, value: Seq<char>) -> Seq<char>;

/// What decrypting a private cookie value yields under a master key. The
/// cookie's name enters as associated data, so the outcome is a function of
/// key, name and presented value.
pub uninterp spec fn private_open_of(key: Seq<u8>, name: Seq<char>, sealed: Seq<char>) -> Option<
    Seq<char>,
>;

/// The RFC 2822 rendering of a whole-second timestamp; a function of the
/// timestamp alone.
pub uninterp spec fn rfc_date_of(secs: u64) -> Seq<char>;

/// Relies on actix_web::cookie::{Key::derive_from, CookieJar::signed_mut}:
/// signing prepends the 44 base64 characters (all ASCII, so 44 bytes) of
/// the value's HMAC-SHA256 digest, and the signed jar's own verification
/// always recovers the original value under the same key. Sealing reads
/// only the key and the value, so the result is a function of the two.
/// `Key::derive_from` panics below 32 key bytes, hence the bound.
#[verifier::external_body]
pub(crate) fn seal_signed(key: &[u8], value: &str) -> (r: String)
    requires
        key@.len() >= 32,
    ensures
        r@ == signed_seal_of(key@, value@),
        signed_open_of(key@, r@) == Some(value@),
        encode_utf8(r@).len() == 44 + encode_utf8(value@).len(),
{
    let k = actix_web::cookie::Key::derive_from(key);
    let mut jar = actix_web::cookie::CookieJar::new();
    jar.signed_mut(&k).add(actix_web::cookie::Cookie::new("v", value.to_string()));
    match jar.get("v") {
        Some(c) => c.value().to_string(),
        None => String::new(),
    }
}

/// Relies on actix_web::cookie::SignedJar::verify: returns the original
/// value exactly when the digest prepended to `sealed` verifies under the
/// key.
#[verifier::external_body]
pub(crate) fn unseal_signed(key: &[u8], sealed: &str) -> (r: Option<String>)
    requires
        key@.len() >= 32,
    ensures
        match r {
            Some(v) => signed_open_of(key@, sealed@) == Some(v@),
            None => signed_open_of(key@, sealed@) is None,
        },
{
    let k = actix_web::cookie::Key::derive_from(key);
    let jar = actix_web::cookie::CookieJar::new();
    let c = actix_web::cookie::Cookie::new("v", sealed.to_string());
    jar.signed(&k).verify(c).map(|v| v.value().to_string())
}

/// Relies on actix_web::cookie::CookieJar::private_mut: the value is
/// encrypted and authenticated under a random nonce, with the cookie name
/// as associated data; the private jar's own decryption always recovers the
/// original value under the same key and name. The sealed form is the
/// padded base64 rendering (ASCII, four characters per three bytes) of the
/// 12-byte nonce, the ciphertext (as long as the value), and the 16-byte
/// tag, which fixes its length.
#[verifier::external_body]
pub(crate) fn seal_private(key: &[u8], name: &str, value: &str) -> (r: String)
    requires
        key@.len() >= 32,
    ensures
        private_open_of(key@, name@, r@) == Some(value@),
        encode_utf8(r@).len() == 4 * ((encode_utf8(value@).len() + 30) / 3),
{
    let k = actix_web::cookie::Key::derive_from(key);
    let mut jar = actix_web::cookie::CookieJar::new();
    jar.private_mut(&k).add(
        actix_web::cookie::Cookie::new(name.to_string(), value.to_string()),
    );
    match jar.get(name) {
        Some(c) => c.value().to_string(),
        None => String::new(),
    }
}

/// Relies on actix_web::cookie::PrivateJar::decrypt: returns the plaintext
/// exactly when `sealed` authenticates and decrypts under the key with the
/// cookie name as associated data.
#[verifier::external_body]
pub(crate) fn unseal_private(key: &[u8], name: &str, sealed: &str) -> (r: Option<String>)
    requires
        key@.len() >= 32,
    ensures
        match r {
            Some(v) => private_open_of(key@, name@, sealed@) == Some(v@),
            None => private_open_of(key@, name@, sealed@) is None,
        },
{
    let k = actix_web::cookie::Key::derive_from(key);
    let jar = actix_web::cookie::CookieJar::new();
    let c = actix_web::cookie::Cookie::new(name.to_string(), sealed.to_string());
    jar.private(&k).decrypt(c).map(|v| v.value().to_string())
}

/// Relies on rand::Rng::gen_range over `0..n`: a value drawn below `n`,
/// from the thread's cryptographically secure generator. The range must not
/// be empty, or the call panics.
#[verifier::external_body]
pub(crate) fn random_below(n: usize) -> (r: usize)
    requires
        n > 0,
    ensures
        r < n,
{
    rand::Rng::gen_range(&mut rand::thread_rng(), 0..n)
}

/// Relies on time::OffsetDateTime::{from_unix_timestamp, format} with the
/// RFC 2822 well-known description: the rendering depends on the timestamp
/// alone. The date type carries years up to 9999, so timestamps through
/// 253402300799 (the last second of that year) convert, and the RFC 2822
/// rendering accepts every year from 1900 on; later instants yield nothing.
#[verifier::external_body]
pub(crate) fn format_rfc_date(secs: u64) -> (r: Option<String>)
    ensures
        r is Some <==> secs <= 253_402_300_799,
        r matches Some(s) ==> s@ == rfc_date_of(secs),
{
    let signed = i64::try_from(secs).ok()?;
    let t = time::OffsetDateTime::from_unix_timestamp(signed).ok()?;
    t.format(&time::format_description::well_known::Rfc2822).ok()
}

} // verus!
