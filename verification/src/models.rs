//! The domain record of the listing API, with timestamps carried as
//! milliseconds from the Unix epoch.

use vstd::prelude::*;

use crate::utils::{generate_password_hash, password_hash_of, PASSWORD_ITERATION};

verus! {

/// A user record as the storage engine holds it. Every field is optional:
/// a value is absent when a query did not project it or a write did not
/// set it.
pub struct User {
    pub id: Option<String>,
    pub email: Option<String>,
    pub image: Option<String>,
    pub username: Option<String>,
    pub first_name: Option<String>,
    pub last_name: Option<String>,
    pub is_active: Option<bool>,
    pub create_at: Option<i64>,
    pub update_at: Option<i64>,
    pub last_login: Option<i64>,
}

impl User {
    /// The password hash stored for a user, at the configured iteration
    /// count.
    pub fn get_password_hash(password: &str, salt_str: &str) -> (r: String)
        requires
            salt_str.is_ascii(),
            3 <= salt_str@.len() <= 48,
        ensures
            r@ == password_hash_of(password@, salt_str@, PASSWORD_ITERATION),
    {
        match generate_password_hash(password, salt_str, PASSWORD_ITERATION) {
            Some(h) => h,
            None => vstd::pervasive::unreached(),
        }
    }
}

/// A payload that can stand for a user record.
pub trait ToUser {
    /// The user record this payload describes, or a message saying why
    /// none can be made of it.
    fn to_user(self) -> Result<User, String>;
}

/// A copy of an optional owned string, equal to what it copies.
pub fn clone_opt_string(s: &Option<String>) -> (r: Option<String>)
    ensures
        r == *s,
{
    match s {
        Some(v) => Some(v.clone()),
        None => None,
    }
}

} // verus!
