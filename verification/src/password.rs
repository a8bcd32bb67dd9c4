//! The settings password: Argon2 hashing and verification, and moving a
//! password saved in plain text to a hash.
use vstd::prelude::*;
use argon2::{PasswordHasher, PasswordVerifier};
use crate::text::{copy_string, same_text, starts_with};

verus! {

/// What `PasswordHash::new` reads as the algorithm of a PHC string, or
/// `None` when the string is no PHC hash.
pub uninterp spec fn spec_phc_algorithm(hash: Seq<char>) -> Option<Seq<char>>;

/// Whether Argon2 (default parameters) accepts `password` for the PHC hash `hash`.
pub uninterp spec fn spec_argon2_verifies(password: Seq<char>, hash: Seq<char>) -> bool;

/// Calls `PasswordHash::new` and reads the algorithm identifier. Trusted:
/// the result is named `spec_phc_algorithm`.
#[verifier::external_body]
fn phc_algorithm(hash: &str) -> (out: Option<String>)
    ensures
        crate::web_search::opt_view(out) == spec_phc_algorithm(hash@),
{
    argon2::PasswordHash::new(hash).ok().map(|parsed| parsed.algorithm.as_str().to_string())
}

/// Calls `PasswordHash::new` and `Argon2::verify_password` (a malformed hash
/// verifies nothing). Trusted: the result is named `spec_argon2_verifies`.
#[verifier::external_body]
fn argon2_verifies(password: &str, hash: &str) -> (out: bool)
    ensures
        out == spec_argon2_verifies(password@, hash@),
{
    match argon2::PasswordHash::new(hash) {
        Ok(parsed) => argon2::Argon2::default().verify_password(password.as_bytes(), &parsed).is_ok(),
        Err(_) => false,
    }
}

/// Calls `SaltString::generate` with the operating system's random source
/// and `Argon2::hash_password` with the default (Argon2id, version 19)
/// parameters. Trusted: a hash is a PHC string that starts with
/// `$argon2id$v=19$`, names the Argon2id algorithm and verifies the
/// password it was made from (verification recomputes the hash with the
/// saved salt and parameters); which hash comes out depends on the random
/// salt and is not stated, nor is the text of an error. With the default
/// parameters and a generated 16-byte salt, the only input Argon2 refuses
/// is a password longer than `0xFFFFFFFF` bytes.
#[verifier::external_body]
fn argon2_hash(password: &str) -> (out: Result<String, String>)
    ensures
        vstd::utf8::encode_utf8(password@).len() <= 0xFFFF_FFFF ==> out is Ok,
        out matches Ok(h) ==> starts_with(h@, "$argon2id$v=19$"@) && spec_phc_algorithm(h@) == Some(
            "argon2id"@,
        ) && spec_argon2_verifies(password@, h@),
{
    let salt = argon2::password_hash::SaltString::generate(&mut argon2::password_hash::rand_core::OsRng);
    match argon2::Argon2::default().hash_password(password.as_bytes(), &salt) {
        Ok(hash) => Ok(hash.to_string()),
        Err(error) => Err(error.to_string()),
    }
}

/// The Argon2id hash of a password, with a fresh random salt. The hash
/// verifies the password; hashing fails only for a password longer than
/// `0xFFFFFFFF` bytes, and the error carries the hasher's message.
pub fn hash_password(password: &str) -> (out: Result<String, String>)
    ensures
        vstd::utf8::encode_utf8(password@).len() <= 0xFFFF_FFFF ==> out is Ok,
        out matches Ok(h) ==> starts_with(h@, "$argon2id$v=19$"@) && spec_verify_password(password@, h@),
        out matches Err(m) ==> starts_with(m@, "Could not hash the password: "@),
{
    match argon2_hash(password) {
        Ok(h) => Ok(h),
        Err(detail) => {
            let mut m = copy_string("Could not hash the password: ");
            crate::text::push_str_chars(&mut m, detail.as_str());
            proof {
                reveal_strlit("Could not hash the password: ");
                assert(m@.take(("Could not hash the password: "@).len() as int) =~= "Could not hash the password: "@);
            }
            Err(m)
        },
    }
}

/// Whether `password` matches an Argon2id hash; any other hash, or a
/// malformed one, matches nothing.
pub open spec fn spec_verify_password(password: Seq<char>, hash: Seq<char>) -> bool {
    spec_phc_algorithm(hash) == Some("argon2id"@) && spec_argon2_verifies(password, hash)
}

/// Checks a password against its saved Argon2id hash.
pub fn verify_password(password: &str, hash: &str) -> (out: bool)
    ensures
        out == spec_verify_password(password@, hash@),
{
    match phc_algorithm(hash) {
        Some(algorithm) => same_text(algorithm.as_str(), "argon2id") && argon2_verifies(password, hash),
        None => false,
    }
}

/// A saved setting value, as far as the migration reads it: text, or
/// something else.
#[derive(Clone, Debug)]
pub enum StoredValue {
    Text(String),
    Other,
}

/// The two password fields of the saved settings; the other settings are
/// not touched by the migration.
#[derive(Clone, Debug)]
pub struct PasswordFields {
    /// The plain-text password of older versions.
    pub password: Option<StoredValue>,
    pub password_hash: Option<StoredValue>,
}

/// The plain-text password a migration hashes: a text value, else empty.
pub open spec fn plain_password(v: StoredValue) -> Seq<char> {
    match v {
        StoredValue::Text(t) => t@,
        StoredValue::Other => Seq::empty(),
    }
}

/// Moves a plain-text password to a hash: when a plain password is saved
/// and no hash is, the hash of the password (empty for an empty password)
/// is saved; then the plain password is removed. An existing hash is kept
/// as it is, even a malformed one. Returns whether anything changed.
pub fn migrate_settings(settings: &mut PasswordFields) -> (out: Result<bool, String>)
    ensures
        old(settings).password is None ==> out == Ok::<bool, String>(false)
            && final(settings).password is None
            && final(settings).password_hash == old(settings).password_hash,
        old(settings).password is Some && old(settings).password_hash is Some ==> out
            == Ok::<bool, String>(true) && final(settings).password is None
            && final(settings).password_hash == old(settings).password_hash,
        old(settings).password is Some && old(settings).password_hash is None ==> match out {
            Ok(changed) => changed && final(settings).password is None
                && (final(settings).password_hash matches Some(StoredValue::Text(h)) && (
                if plain_password(old(settings).password.unwrap()).len() == 0 {
                h@.len() == 0
            } else {
                starts_with(h@, "$argon2id$v=19$"@) && spec_verify_password(
                    plain_password(old(settings).password.unwrap()),
                    h@,
                )
            })),
            Err(m) => plain_password(old(settings).password.unwrap()).len() > 0
                && vstd::utf8::encode_utf8(plain_password(old(settings).password.unwrap())).len() > 0xFFFF_FFFF
                && starts_with(m@, "Could not hash the password: "@)
                && final(settings).password == old(settings).password
                && final(settings).password_hash == old(settings).password_hash,
        },
{
    let password = match &settings.password {
        None => return Ok(false),
        Some(p) => match p {
            StoredValue::Text(t) => copy_string(t.as_str()),
            StoredValue::Other => String::new(),
        },
    };
    if settings.password_hash.is_none() {
        let hash = if password.as_str().is_empty() {
            String::new()
        } else {
            match hash_password(password.as_str()) {
                Ok(h) => h,
                Err(e) => return Err(e),
            }
        };
        settings.password_hash = Some(StoredValue::Text(hash));
    }
    settings.password = None;
    Ok(true)
}

} // verus!
