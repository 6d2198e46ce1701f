use querykit::models::User;
use querykit::query::Builder;
use querykit::response::{default_pagination_limit, PaginationOptions};
use querykit::views::user_list_page;

#[test]
fn default_limit_is_ten() {
    assert_eq!(default_pagination_limit(), Some(10));
}

fn row(id: &str) -> User {
    User {
        id: Some(id.to_string()),
        email: None,
        image: None,
        username: None,
        first_name: None,
        last_name: None,
        is_active: None,
        create_at: None,
        update_at: None,
        last_login: None,
    }
}

#[test]
fn no_pagination_appends_default_order_and_overfetch_limit() {
    let mut query = String::new();
    let mut params: Vec<String> = Vec::new();
    let limit = Builder::append_pagination(&mut query, &mut params, None, None);
    assert_eq!(query, "ORDER BY id DESC LIMIT 11");
    assert!(params.is_empty());
    assert_eq!(limit, 10);
}

#[test]
fn cursor_continues_placeholder_numbering() {
    let mut query = String::new();
    let mut params: Vec<String> = vec!["%a%".to_string(), "%b%".to_string()];
    let pagination = PaginationOptions {
        has_next: None,
        next: Some("cursor-id".to_string()),
        limit: None,
    };
    let limit = Builder::append_pagination(&mut query, &mut params, None, Some(&pagination));
    assert_eq!(query, " AND id < $3 ORDER BY id DESC LIMIT 11");
    assert_eq!(
        params,
        vec![
            "%a%".to_string(),
            "%b%".to_string(),
            "cursor-id".to_string()
        ]
    );
    assert_eq!(limit, 10);
}

#[test]
fn cursor_without_prior_predicate_opens_with_keyword() {
    let mut query = String::new();
    let mut params: Vec<String> = Vec::new();
    let pagination = PaginationOptions {
        has_next: None,
        next: Some("xyz".to_string()),
        limit: Some(5),
    };
    let limit = Builder::append_pagination(&mut query, &mut params, None, Some(&pagination));
    assert_eq!(query, " WHERE id < $1 ORDER BY id DESC LIMIT 6");
    assert_eq!(params, vec!["xyz".to_string()]);
    assert_eq!(limit, 5);
}

#[test]
fn caller_named_ordering_is_used() {
    let mut query = String::new();
    let mut params: Vec<String> = Vec::new();
    let limit =
        Builder::append_pagination(&mut query, &mut params, Some("create_at ASC"), None);
    assert_eq!(query, "ORDER BY create_at ASC LIMIT 11");
    assert_eq!(limit, 10);
}

#[test]
fn eleven_rows_at_limit_ten_truncate_with_next_cursor() {
    let ids: Vec<String> = (0..11).map(|i: i32| format!("id-{}", 90 - i)).collect();
    let rows: Vec<User> = ids.iter().map(|i| row(i)).collect();
    let page = user_list_page(rows, 10);
    assert_eq!(page.data.len(), 10);
    assert_eq!(page.pagination.has_next, Some(true));
    assert_eq!(page.pagination.next, Some("id-81".to_string()));
    assert_eq!(page.data[9].id, Some("id-81".to_string()));
    assert_eq!(page.pagination.limit, Some(10));
}

#[test]
fn exactly_ten_rows_at_limit_ten_keep_all_without_next() {
    let rows: Vec<User> = (0..10).map(|i: i32| row(&format!("id-{}", 90 - i))).collect();
    let page = user_list_page(rows, 10);
    assert_eq!(page.data.len(), 10);
    assert_eq!(page.pagination.has_next, Some(false));
    assert_eq!(page.pagination.next, None);
}

#[test]
fn fewer_rows_than_limit_keep_all() {
    let rows: Vec<User> = vec![row("c"), row("b")];
    let page = user_list_page(rows, 10);
    assert_eq!(page.data.len(), 2);
    assert_eq!(page.pagination.has_next, Some(false));
    assert_eq!(page.pagination.next, None);
}

#[test]
fn two_pages_concatenate_to_the_full_result_set() {
    // rows in strictly descending id order, as the storage returns them
    let all: Vec<&str> = vec!["e", "d", "c", "b"];
    let limit: usize = 2;

    // page one: the storage hands back at most limit + 1 matching rows
    let fetched1: Vec<User> = all.iter().take(limit + 1).map(|i| row(i)).collect();
    let page1 = user_list_page(fetched1, limit as u32);
    assert_eq!(page1.pagination.has_next, Some(true));
    let cursor = page1.pagination.next.clone().unwrap();
    assert_eq!(cursor, "d".to_string());

    // page two: the rows strictly below the cursor, again overfetched
    let below: Vec<&str> = all
        .iter()
        .filter(|i| **i < cursor.as_str())
        .cloned()
        .collect();
    let fetched2: Vec<User> = below.iter().take(limit + 1).map(|i| row(i)).collect();
    let page2 = user_list_page(fetched2, limit as u32);
    assert_eq!(page2.pagination.has_next, Some(false));

    let mut seen: Vec<String> = Vec::new();
    for u in page1.data.iter().chain(page2.data.iter()) {
        seen.push(u.id.clone().unwrap());
    }
    let expected: Vec<String> = all.iter().map(|i| i.to_string()).collect();
    assert_eq!(seen, expected);
}
