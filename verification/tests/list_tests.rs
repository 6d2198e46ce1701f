use querykit::models::User;
use querykit::response::PaginationOptions;
use querykit::schema::UserQuery;
use querykit::views::{user_list_page, user_list_query};

fn row(id: &str, email: &str) -> User {
    User {
        id: Some(id.to_string()),
        email: Some(email.to_string()),
        image: None,
        username: None,
        first_name: None,
        last_name: None,
        is_active: Some(true),
        create_at: None,
        update_at: None,
        last_login: None,
    }
}

const PROJECTION: &str = "select id, email, image, username, first_name, last_name, \
    is_active, create_at, update_at, last_login from users ";

#[test]
fn filtered_listing_assembles_query_and_parameters() {
    let filter = UserQuery {
        email: Some("bob".to_string()),
        is_active: Some(true),
        first_name: None,
        last_name: None,
        create_at: None,
    };
    let pagination = PaginationOptions {
        has_next: None,
        next: None,
        limit: Some(2),
    };
    let (query, params, limit) = user_list_query(&filter, &pagination);
    let expected = format!(
        "{}WHERE email ILIKE $1 AND is_active ILIKE $2 ORDER BY id DESC LIMIT 3",
        PROJECTION
    );
    assert_eq!(query, expected);
    assert_eq!(params, vec!["%bob%".to_string(), "%true%".to_string()]);
    assert_eq!(limit, 2);
}

#[test]
fn unfiltered_listing_has_no_predicate_keyword() {
    let filter = UserQuery {
        email: None,
        is_active: None,
        first_name: None,
        last_name: None,
        create_at: None,
    };
    let pagination = PaginationOptions {
        has_next: None,
        next: None,
        limit: None,
    };
    let (query, params, limit) = user_list_query(&filter, &pagination);
    let expected = format!("{}ORDER BY id DESC LIMIT 11", PROJECTION);
    assert_eq!(query, expected);
    assert!(params.is_empty());
    assert_eq!(limit, 10);
}

#[test]
fn cursor_parameter_follows_the_filter_parameters() {
    let filter = UserQuery {
        email: Some("bob".to_string()),
        is_active: None,
        first_name: None,
        last_name: None,
        create_at: None,
    };
    let pagination = PaginationOptions {
        has_next: None,
        next: Some("last-seen-id".to_string()),
        limit: Some(5),
    };
    let (query, params, limit) = user_list_query(&filter, &pagination);
    let expected = format!(
        "{}WHERE email ILIKE $1  AND id < $2 ORDER BY id DESC LIMIT 6",
        PROJECTION
    );
    assert_eq!(query, expected);
    assert_eq!(
        params,
        vec!["%bob%".to_string(), "last-seen-id".to_string()]
    );
    assert_eq!(limit, 5);
}

#[test]
fn three_matching_rows_at_limit_two_page_as_expected() {
    // filter {email: "bob", is_active: true}, no cursor, limit 2, and three
    // matching rows in the store: the page shows two, names the second as
    // the cursor, and reports a further page.
    let filter = UserQuery {
        email: Some("bob".to_string()),
        is_active: Some(true),
        first_name: None,
        last_name: None,
        create_at: None,
    };
    let pagination = PaginationOptions {
        has_next: None,
        next: None,
        limit: Some(2),
    };
    let (_query, _params, limit) = user_list_query(&filter, &pagination);

    // the storage fetches at most limit + 1 of the matching rows
    let matching = vec![
        row("id-9", "bob.a@x.com"),
        row("id-5", "bob.b@x.com"),
        row("id-2", "bob.c@x.com"),
    ];
    let fetched: Vec<User> = matching.into_iter().take((limit + 1) as usize).collect();
    let page = user_list_page(fetched, limit);

    assert_eq!(page.data.len(), 2);
    assert_eq!(page.data[0].id.as_deref(), Some("id-9"));
    assert_eq!(page.data[1].id.as_deref(), Some("id-5"));
    assert_eq!(page.pagination.has_next, Some(true));
    assert_eq!(page.pagination.next.as_deref(), Some("id-5"));
    assert_eq!(page.pagination.limit, Some(2));
}
