//! The read path of the user list endpoint: assembling the full query text
//! and parameter list for a filtered, keyset-paginated listing, and turning
//! the fetched rows into the response page.

use vstd::prelude::*;
use vstd::string::StringExecFns;

use crate::models::{clone_opt_string, User};
use crate::query::{
    cursor_params, lemma_placeholder_parameter_correspondence, limit_of, page_has_next,
    page_items, page_suffix, truncate_overfetch, Builder, PaginationView,
};
use crate::response::{ListResponse, PaginationOptions};
use crate::text::{count_char, lemma_count_char_absent};
use crate::to_sql::{fragment_of, lemma_popcount_bound, params_of, popcount, ToSqlString};
use crate::schema::UserQuery;

verus! {

/// The fixed projection of the user listing.
pub open spec fn users_select_prefix() -> Seq<char> {
    "select id, email, image, username, first_name, last_name, is_active, create_at, update_at, last_login from users "@
}

/// Assembles the full listing query: the fixed projection, the filter's
/// predicate fragment compiled with the case-insensitive substring
/// operator, and the pagination suffix, with one parameter per populated
/// filter slot and one more for the cursor. Returns the query text, the
/// bound parameters in placeholder order, and the page size.
pub fn user_list_query(filter: &UserQuery, pagination: &PaginationOptions) -> (r: (
    String,
    Vec<String>,
    u32,
))
    ensures
        r.0@ == users_select_prefix() + fragment_of(filter.sql_slots(), "ILIKE"@, "AND"@)
            + page_suffix(popcount(filter.sql_slots()), Some(pagination@), None),
        r.1@.map_values(|s: String| s@) == params_of(filter.sql_slots()) + cursor_params(
            Some(pagination@),
        ),
        r.2 as nat == limit_of(Some(pagination@)),
{
    let compiled = filter.as_sql_string("ILIKE", "AND", "id DESC");
    let mut query =
        "select id, email, image, username, first_name, last_name, is_active, create_at, update_at, last_login from users ".to_owned();
    query.append(compiled.0.as_str());
    let mut params = compiled.1;
    proof {
        lemma_popcount_bound(filter.sql_slots(), filter.sql_slots().len() as int);
    }
    let limit = Builder::append_pagination(&mut query, &mut params, None, Some(pagination));
    (query, params, limit)
}

/// The user listing in particular: for any subset of populated filter
/// slots, with or without a cursor, the compiled predicate text holds
/// exactly one placeholder per populated slot plus one for the cursor —
/// as many as the parameter list has entries. Positional correctness of
/// the listing query rests on this.
pub proof fn lemma_user_list_placeholders(filter: UserQuery, pg: Option<PaginationView>)
    ensures
        ({
            let full = fragment_of(filter.sql_slots(), "ILIKE"@, "AND"@) + page_suffix(
                params_of(filter.sql_slots()).len(),
                pg,
                None,
            );
            let all_params = params_of(filter.sql_slots()) + cursor_params(pg);
            &&& count_char(full, '$') == all_params.len()
            &&& all_params.len() == popcount(filter.sql_slots()) + cursor_params(pg).len()
        }),
{
    reveal_strlit("ILIKE");
    reveal_strlit("AND");
    reveal_strlit("email");
    reveal_strlit("is_active");
    reveal_strlit("first_name");
    reveal_strlit("last_name");
    reveal_strlit("create_at");
    lemma_count_char_absent("ILIKE"@, '$');
    lemma_count_char_absent("AND"@, '$');
    let slots = filter.sql_slots();
    assert forall|j: int| 0 <= j < slots.len() implies count_char(
        #[trigger] slots[j].column,
        '$',
    ) == 0 by {
        lemma_count_char_absent(slots[j].column, '$');
    }
    lemma_placeholder_parameter_correspondence(slots, "ILIKE"@, "AND"@, pg, None);
}

/// Turns the fetched rows into the response page, by the overfetch rule:
/// when more rows came back than the page size, the page shows exactly the
/// page size, reports that a next page exists, and names the identifier of
/// its last row as the cursor for that page; otherwise it shows every row
/// and reports no next page.
pub fn user_list_page(rows: Vec<User>, limit: u32) -> (r: ListResponse<User>)
    requires
        limit >= 1,
    ensures
        r.data@ == page_items(rows@, limit as nat),
        r.pagination.has_next == Some(page_has_next(rows@, limit as nat)),
        r.pagination.next == (if page_has_next(rows@, limit as nat) {
            rows@[limit - 1].id
        } else {
            None::<String>
        }),
        r.pagination.limit == Some(limit),
{
    let mut page = rows;
    let has_next = truncate_overfetch(&mut page, limit);
    let next = if has_next {
        clone_opt_string(&page[(limit as usize) - 1].id)
    } else {
        None
    };
    ListResponse {
        data: page,
        pagination: PaginationOptions { has_next: Some(has_next), next, limit: Some(limit) },
    }
}

} // verus!
