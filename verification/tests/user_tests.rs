use querykit::models::User;
use querykit::schema::ProfileChange;
use querykit::users_db::{build_new_user, build_update_query};
use querykit::utils::{is_valid, uuid7_b62};

#[test]
fn fresh_identifiers_are_base62_of_a_v7_uuid() {
    let a = uuid7_b62();
    let b = uuid7_b62();
    assert!(a.len() >= 13 && a.len() <= 22);
    assert!(a.chars().all(|c| c.is_ascii_alphanumeric()));
    assert_ne!(a, b);
}

#[test]
fn new_user_takes_given_first_name_and_folds_username() {
    let (user, _hash) = build_new_user("Bob@example.com", None, Some("Bob"), Some("Doe"));
    let id = user.id.unwrap();
    assert_eq!(user.email.as_deref(), Some("Bob@example.com"));
    assert_eq!(user.first_name.as_deref(), Some("Bob"));
    assert_eq!(user.last_name.as_deref(), Some("Doe"));
    let username = user.username.unwrap();
    assert_eq!(username.len(), 3 + 9);
    assert!(username.starts_with("bob"));
    assert!(username.ends_with(&id[id.len() - 9..]));
    assert!(user.image.is_none());
    assert!(user.is_active.is_none());
    assert!(user.create_at.is_some());
    assert!(user.update_at.is_none());
    assert!(user.last_login.is_none());
}

#[test]
fn new_user_without_first_name_takes_the_email_local_part() {
    let (user, hash) = build_new_user("Jane@example.com", None, None, None);
    assert_eq!(user.first_name.as_deref(), Some("Jane"));
    let username = user.username.unwrap();
    assert!(username.starts_with("jane"));
    assert!(user.last_name.is_none());
    assert_eq!(hash, "");
}

#[test]
fn new_user_password_is_hashed_with_the_identifier_as_salt() {
    let password = "hunter2-secret";
    let (user, hash) = build_new_user("a@b.com", Some(password), Some("A"), None);
    assert!(user.id.is_some());
    assert_ne!(hash, password);
    assert!(!hash.is_empty());
    assert!(is_valid(password, &hash));
    assert!(!is_valid("wrong-password", &hash));
}

#[test]
fn password_hash_is_a_function_of_its_arguments() {
    let first = User::get_password_hash("secret-word", "salt-salt-salt");
    let second = User::get_password_hash("secret-word", "salt-salt-salt");
    assert_eq!(first, second);
    let other = User::get_password_hash("secret-word", "other-salt-42");
    assert_ne!(first, other);
}

#[test]
fn update_with_both_fields_numbers_three_placeholders() {
    let payload = ProfileChange {
        first_name: Some(Some("Jane".to_string())),
        last_name: Some(Some("Doe".to_string())),
    };
    let (query, params) = build_update_query(&payload, "user-123456789012345");
    assert_eq!(
        query,
        "Update users SET first_name = $1, last_name = $2 WHERE id = $3 \
         RETURNING id, email, image, username, first_name, last_name, \
         is_active, create_at, update_at, last_login "
    );
    assert_eq!(
        params,
        vec![
            Some("Jane".to_string()),
            Some("Doe".to_string()),
            Some("user-123456789012345".to_string())
        ]
    );
}

#[test]
fn update_with_one_field_numbers_two_placeholders() {
    let payload = ProfileChange {
        first_name: None,
        last_name: Some(Some("Doe".to_string())),
    };
    let (query, params) = build_update_query(&payload, "uid");
    assert_eq!(
        query,
        "Update users SET last_name = $1 WHERE id = $2 \
         RETURNING id, email, image, username, first_name, last_name, \
         is_active, create_at, update_at, last_login "
    );
    assert_eq!(params, vec![Some("Doe".to_string()), Some("uid".to_string())]);
}

#[test]
fn update_clearing_a_field_binds_null() {
    let payload = ProfileChange {
        first_name: Some(None),
        last_name: None,
    };
    let (query, params) = build_update_query(&payload, "uid");
    assert!(query.starts_with("Update users SET first_name = $1 WHERE id = $2 "));
    assert_eq!(params, vec![None, Some("uid".to_string())]);
}

#[test]
fn update_with_no_fields_binds_only_the_identifier() {
    let payload = ProfileChange {
        first_name: None,
        last_name: None,
    };
    let (query, params) = build_update_query(&payload, "uid");
    assert!(query.starts_with("Update users SET  WHERE id = $1 "));
    assert_eq!(params, vec![Some("uid".to_string())]);
}
