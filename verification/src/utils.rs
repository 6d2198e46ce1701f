//! Trusted boundary to outside collaborators: identifier generation,
//! password hashing and verification, case folding, and the clock. Each
//! item's contract states only what the collaborator's own source or
//! documentation shows.

use pbkdf2::password_hash::{PasswordHash, PasswordHasher, PasswordVerifier, SaltString};
use vstd::prelude::*;

verus! {

/// The password-hash iteration count applied when no other is configured.
pub const PASSWORD_ITERATION: u32 = 10000;

/// Relies on uuid's `Uuid::now_v7` and base62's `encode`: a version-7 UUID
/// carries its version nibble, so its 128-bit value is at least 7 * 2^76,
/// which is above 62^12; base62 therefore renders between 13 and 22 digits,
/// all from its alphanumeric (ASCII) alphabet.
#[verifier::external_body]
pub fn uuid7_b62() -> (r: String)
    ensures
        13 <= r@.len() <= 22,
        vstd::string::string_is_ascii(&r),
{
    base62::encode(uuid::Uuid::now_v7().as_u128())
}

/// What pbkdf2's customized password hashing renders, as a PHC string: a
/// function of the password, the salt and the round count alone.
pub uninterp spec fn password_hash_of(password: Seq<char>, salt: Seq<char>, rounds: u32) -> Seq<
    char,
>;

/// Relies on pbkdf2's `hash_password_customized` over a B64-encoded salt
/// string: with the default algorithm, no version, a 32-byte output and a
/// salt whose encoding stays within the accepted 4 to 64 characters — an
/// ASCII salt of 3 to 48 characters — hashing succeeds, and the rendered
/// PHC string depends on the arguments alone.
#[verifier::external_body]
pub fn generate_password_hash(password: &str, salt_str: &str, rounds: u32) -> (r: Option<String>)
    requires
        salt_str.is_ascii(),
        3 <= salt_str@.len() <= 48,
    ensures
        r is Some,
        r matches Some(h) ==> h@ == password_hash_of(password@, salt_str@, rounds),
{
    let salt = match SaltString::encode_b64(salt_str.as_bytes()) {
        Ok(s) => s,
        Err(_) => {
            return None;
        },
    };
    let params = pbkdf2::Params { rounds, output_length: 32 };
    let hash = pbkdf2::Pbkdf2.hash_password_customized(
        password.as_bytes(),
        None,
        None,
        params,
        &salt,
    );
    hash.ok().map(|x| x.to_string())
}

/// Whether a password matches a PHC hash string: a function of the two
/// arguments alone; a malformed hash string matches nothing.
pub uninterp spec fn password_verifies(password: Seq<char>, password_hash: Seq<char>) -> bool;

/// Relies on pbkdf2's `verify_password` over password-hash's PHC parsing.
#[verifier::external_body]
pub fn is_valid(password: &str, password_hash: &str) -> (r: bool)
    ensures
        r == password_verifies(password@, password_hash@),
{
    match PasswordHash::new(password_hash) {
        Ok(hash) => pbkdf2::Pbkdf2.verify_password(password.as_bytes(), &hash).is_ok(),
        Err(_) => false,
    }
}

/// What std's `str::to_lowercase` renders: a function of the characters
/// alone.
pub uninterp spec fn lower_of(s: Seq<char>) -> Seq<char>;

/// Relies on std's `str::to_lowercase`: the result depends on the
/// characters alone, and an empty string stays empty.
#[verifier::external_body]
pub(crate) fn lowercase(s: &str) -> (r: String)
    ensures
        r@ == lower_of(s@),
        s@.len() == 0 ==> r@.len() == 0,
{
    s.to_lowercase()
}

/// Relies on chrono's `Utc::now`: the current wall-clock time, as
/// milliseconds from the Unix epoch. Nothing is promised of the value.
#[verifier::external_body]
pub(crate) fn now_timestamp_millis() -> i64 {
    chrono::Utc::now().timestamp_millis()
}

} // verus!
