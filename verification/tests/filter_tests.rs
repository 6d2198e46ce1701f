use querykit::schema::UserQuery;
use querykit::to_sql::{compile_filter, FilterSlot, ToSqlString};

fn empty_query() -> UserQuery {
    UserQuery {
        email: None,
        is_active: None,
        first_name: None,
        last_name: None,
        create_at: None,
    }
}

#[test]
fn empty_filter_compiles_to_empty_fragment() {
    let q = empty_query();
    let (fragment, params) = q.as_sql_string("ILIKE", "AND", "id DESC");
    assert_eq!(fragment, "");
    assert!(params.is_empty());
}

#[test]
fn single_slot_emits_keyword_and_first_placeholder() {
    let mut q = empty_query();
    q.email = Some("bob".to_string());
    let (fragment, params) = q.as_sql_string("ILIKE", "AND", "id DESC");
    assert_eq!(fragment, "WHERE email ILIKE $1 ");
    assert_eq!(params, vec!["%bob%".to_string()]);
}

#[test]
fn populated_slots_emit_in_declaration_order() {
    let mut q = empty_query();
    q.first_name = Some("Jane".to_string());
    q.email = Some("bob".to_string());
    let (fragment, params) = q.as_sql_string("ILIKE", "AND", "id DESC");
    assert_eq!(fragment, "WHERE email ILIKE $1 AND first_name ILIKE $2 ");
    assert_eq!(params, vec!["%bob%".to_string(), "%Jane%".to_string()]);
}

#[test]
fn boolean_slot_renders_its_text() {
    let mut q = empty_query();
    q.email = Some("bob".to_string());
    q.is_active = Some(true);
    q.last_name = Some("doe".to_string());
    let (fragment, params) = q.as_sql_string("ILIKE", "AND", "id DESC");
    assert_eq!(
        fragment,
        "WHERE email ILIKE $1 AND is_active ILIKE $2 AND last_name ILIKE $3 "
    );
    assert_eq!(
        params,
        vec![
            "%bob%".to_string(),
            "%true%".to_string(),
            "%doe%".to_string()
        ]
    );
}

#[test]
fn all_slots_populated_numbers_five_placeholders() {
    let q = UserQuery {
        email: Some("a".to_string()),
        is_active: Some(false),
        first_name: Some("b".to_string()),
        last_name: Some("c".to_string()),
        create_at: Some("2024-01-01".to_string()),
    };
    let (fragment, params) = q.as_sql_string("ILIKE", "AND", "id DESC");
    assert_eq!(
        fragment,
        "WHERE email ILIKE $1 AND is_active ILIKE $2 AND first_name ILIKE $3 \
         AND last_name ILIKE $4 AND create_at ILIKE $5 "
    );
    assert_eq!(params.len(), 5);
    assert_eq!(params[1], "%false%");
    assert_eq!(params[4], "%2024-01-01%");
}

#[test]
fn compiling_twice_is_byte_identical() {
    let mut q = empty_query();
    q.email = Some("bob".to_string());
    q.is_active = Some(true);
    let first = q.as_sql_string("ILIKE", "AND", "id DESC");
    let second = q.as_sql_string("ILIKE", "AND", "id DESC");
    assert_eq!(first.0, second.0);
    assert_eq!(first.1, second.1);
}

#[test]
fn compile_filter_takes_operator_and_separator_tokens() {
    let slots = vec![
        FilterSlot {
            column: "email".to_string(),
            value: Some("x".to_string()),
        },
        FilterSlot {
            column: "username".to_string(),
            value: None,
        },
        FilterSlot {
            column: "city".to_string(),
            value: Some("y".to_string()),
        },
    ];
    let (fragment, params) = compile_filter(&slots, "LIKE", "OR");
    assert_eq!(fragment, "WHERE email LIKE $1 OR city LIKE $2 ");
    assert_eq!(params, vec!["%x%".to_string(), "%y%".to_string()]);
}

#[test]
fn placeholder_count_matches_populated_slots() {
    let q = UserQuery {
        email: Some("a".to_string()),
        is_active: None,
        first_name: Some("b".to_string()),
        last_name: None,
        create_at: None,
    };
    let (fragment, params) = q.as_sql_string("ILIKE", "AND", "id DESC");
    let dollars: usize = fragment.chars().filter(|c| *c == '$').count();
    assert_eq!(dollars, 2);
    assert_eq!(params.len(), 2);
}
