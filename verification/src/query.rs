//! Keyset pagination: extends a compiled predicate fragment with a cursor
//! predicate, ordering, and an overfetch limit, and post-processes the
//! fetched rows into a page. Paging by the last-seen value of a unique,
//! strictly monotonic key is stable under concurrent writes, where numeric
//! offsets are not.

use vstd::prelude::*;
use vstd::string::StringExecFns;

use crate::response::PaginationOptions;
use crate::text::{count_char, decimal_of, lemma_count_char_absent, lemma_count_char_add,
    lemma_decimal_no_dollar, push_char, push_decimal};
use crate::to_sql::{
    fragment_of, kw_where, lemma_empty_filter, lemma_fragment_placeholder_count,
    lemma_params_count, params_of, popcount, SlotView,
};

verus! {

/// The page size applied when the request names none.
pub const DEFAULT_PAGINATION: u32 = 10;

/// The mathematical content of `PaginationOptions`.
pub struct PaginationView {
    pub has_next: Option<bool>,
    pub next: Option<Seq<char>>,
    pub limit: Option<u32>,
}

impl View for PaginationOptions {
    type V = PaginationView;

    open spec fn view(&self) -> PaginationView {
        PaginationView {
            has_next: self.has_next,
            next: match self.next {
                Some(n) => Some(n@),
                None => None,
            },
            limit: self.limit,
        }
    }
}

/// The view of an optional borrowed `PaginationOptions`.
pub open spec fn pagination_view(p: Option<&PaginationOptions>) -> Option<PaginationView> {
    match p {
        Some(x) => Some(x@),
        None => None,
    }
}

/// The view of an optional ordering expression.
pub open spec fn order_view(o: Option<&str>) -> Option<Seq<char>> {
    match o {
        Some(s) => Some(s@),
        None => None,
    }
}

/// The keyword that joins a further predicate clause.
pub open spec fn kw_and() -> Seq<char> {
    seq!['A', 'N', 'D']
}

/// The fixed text between the cursor keyword and its placeholder number.
pub open spec fn id_below() -> Seq<char> {
    seq![' ', 'i', 'd', ' ', '<', ' ', '$']
}

/// The keyset cursor predicate: continues placeholder numbering after the
/// `nparams` parameters already bound, led by the query keyword when no
/// predicate was emitted before, and by the joining keyword otherwise.
pub open spec fn cursor_clause(nparams: nat) -> Seq<char> {
    seq![' '] + (if nparams == 0 {
        kw_where()
    } else {
        kw_and()
    }) + id_below() + decimal_of(nparams + 1) + seq![' ']
}

/// The cursor predicate text appended for a request, empty without a cursor.
pub open spec fn cursor_part(nparams: nat, pg: Option<PaginationView>) -> Seq<char> {
    match pg {
        Some(p) => match p.next {
            Some(_) => cursor_clause(nparams),
            None => Seq::empty(),
        },
        None => Seq::empty(),
    }
}

/// The cursor values bound for a request: the cursor itself when present.
pub open spec fn cursor_params(pg: Option<PaginationView>) -> Seq<Seq<char>> {
    match pg {
        Some(p) => match p.next {
            Some(c) => seq![c],
            None => Seq::empty(),
        },
        None => Seq::empty(),
    }
}

/// The fixed prefix of an ordering clause.
pub open spec fn order_by_prefix() -> Seq<char> {
    seq!['O', 'R', 'D', 'E', 'R', ' ', 'B', 'Y', ' ']
}

/// The ordering applied when the caller names none: newest first by the
/// unique, strictly monotonic key.
pub open spec fn default_order() -> Seq<char> {
    seq!['O', 'R', 'D', 'E', 'R', ' ', 'B', 'Y', ' ', 'i', 'd', ' ', 'D', 'E', 'S', 'C', ' ']
}

/// The ordering clause for a request.
pub open spec fn order_clause(order_by: Option<Seq<char>>) -> Seq<char> {
    match order_by {
        Some(ob) => order_by_prefix() + ob + seq![' '],
        None => default_order(),
    }
}

/// The fixed prefix of a limit clause.
pub open spec fn limit_prefix() -> Seq<char> {
    seq!['L', 'I', 'M', 'I', 'T', ' ']
}

/// The limit clause: one row beyond the page size, so that the existence of
/// a further page is known without a second counting query.
pub open spec fn limit_clause(limit: nat) -> Seq<char> {
    limit_prefix() + decimal_of(limit + 1)
}

/// The page size a request asks for, after the default is applied.
pub open spec fn limit_of(pg: Option<PaginationView>) -> nat {
    match pg {
        Some(p) => match p.limit {
            Some(l) => l as nat,
            None => DEFAULT_PAGINATION as nat,
        },
        None => DEFAULT_PAGINATION as nat,
    }
}

/// Everything appended after the predicate fragment for one request.
pub open spec fn page_suffix(
    nparams: nat,
    pg: Option<PaginationView>,
    order_by: Option<Seq<char>>,
) -> Seq<char> {
    cursor_part(nparams, pg) + order_clause(order_by) + limit_clause(limit_of(pg))
}

/// Assembles and post-processes paginated queries.
pub struct Builder;

impl Builder {
    /// Appends the keyset pagination suffix to a query under construction:
    /// the cursor predicate (when a cursor is present) with its value bound
    /// as the next positional parameter, the ordering, and the overfetch
    /// limit. Returns the page size the request asks for.
    #[verifier::rlimit(60)]
    pub fn append_pagination(
        query: &mut String,
        query_value: &mut Vec<String>,
        order_by: Option<&str>,
        pagination: Option<&PaginationOptions>,
    ) -> (limit: u32)
        requires
            old(query_value)@.len() < usize::MAX,
        ensures
            final(query)@ == old(query)@ + page_suffix(
                old(query_value)@.len() as nat,
                pagination_view(pagination),
                order_view(order_by),
            ),
            final(query_value)@.map_values(|s: String| s@) == old(query_value)@.map_values(
                |s: String| s@,
            ) + cursor_params(pagination_view(pagination)),
            limit as nat == limit_of(pagination_view(pagination)),
    {
        let ghost pre = query@;
        let counter = query_value.len();
        let mut pagination_limit: u32 = DEFAULT_PAGINATION;
        if let Some(value) = pagination {
            if let Some(next) = &value.next {
                push_char(query, ' ');
                if counter == 0 {
                    proof {
                        reveal_strlit("WHERE");
                        assert("WHERE"@ =~= kw_where());
                    }
                    query.append("WHERE");
                } else {
                    proof {
                        reveal_strlit("AND");
                        assert("AND"@ =~= kw_and());
                    }
                    query.append("AND");
                }
                proof {
                    reveal_strlit(" id < $");
                    assert(" id < $"@ =~= id_below());
                }
                query.append(" id < $");
                push_decimal(query, (counter + 1) as u64);
                push_char(query, ' ');
                assert(query@ =~= pre + cursor_clause(counter as nat));
                query_value.push(next.clone());
                assert(query_value@.map_values(|s: String| s@) =~= old(
                    query_value,
                )@.map_values(|s: String| s@) + cursor_params(pagination_view(pagination)));
            }
            if let Some(limit) = value.limit {
                pagination_limit = limit;
            }
        }
        let ghost mid = query@;
        assert(mid =~= pre + cursor_part(counter as nat, pagination_view(pagination)));
        assert(query_value@.map_values(|s: String| s@) =~= old(query_value)@.map_values(
            |s: String| s@,
        ) + cursor_params(pagination_view(pagination)));

        match order_by {
            Some(ob) => {
                proof {
                    reveal_strlit("ORDER BY ");
                    assert("ORDER BY "@ =~= order_by_prefix());
                }
                query.append("ORDER BY ");
                query.append(ob);
                push_char(query, ' ');
            },
            None => {
                proof {
                    reveal_strlit("ORDER BY id DESC ");
                    assert("ORDER BY id DESC "@ =~= default_order());
                }
                query.append("ORDER BY id DESC ");
            },
        }
        assert(query@ =~= mid + order_clause(order_view(order_by)));
        let ghost with_order = query@;

        proof {
            reveal_strlit("LIMIT ");
            assert("LIMIT "@ =~= limit_prefix());
        }
        query.append("LIMIT ");
        push_decimal(query, pagination_limit as u64 + 1);
        assert(query@ =~= with_order + limit_clause(pagination_limit as nat));
        assert(query@ =~= pre + page_suffix(
            counter as nat,
            pagination_view(pagination),
            order_view(order_by),
        ));
        pagination_limit
    }
}

/// The cursor predicate holds exactly one placeholder marker.
proof fn lemma_cursor_clause_dollar(nparams: nat)
    ensures
        count_char(cursor_clause(nparams), '$') == 1,
{
    let sp = seq![' '];
    let kw = if nparams == 0 {
        kw_where()
    } else {
        kw_and()
    };
    reveal_with_fuel(count_char, 9);
    assert(count_char(sp, '$') == 0);
    assert(count_char(kw, '$') == 0);
    assert(count_char(id_below(), '$') == 1);
    lemma_decimal_no_dollar(nparams + 1);
    lemma_count_char_add(sp, kw, '$');
    lemma_count_char_add(sp + kw, id_below(), '$');
    lemma_count_char_add(sp + kw + id_below(), decimal_of(nparams + 1), '$');
    lemma_count_char_add(sp + kw + id_below() + decimal_of(nparams + 1), sp, '$');
}

/// The pagination suffix holds exactly one placeholder marker per cursor
/// value bound — one with a cursor, none without — provided the ordering
/// expression holds none.
pub proof fn lemma_suffix_placeholder_count(
    nparams: nat,
    pg: Option<PaginationView>,
    order_by: Option<Seq<char>>,
)
    requires
        order_by matches Some(ob) ==> count_char(ob, '$') == 0,
    ensures
        count_char(page_suffix(nparams, pg, order_by), '$') == cursor_params(pg).len(),
{
    reveal_with_fuel(count_char, 18);
    assert(count_char(order_by_prefix(), '$') == 0);
    assert(count_char(default_order(), '$') == 0);
    assert(count_char(limit_prefix(), '$') == 0);
    let oc = order_clause(order_by);
    assert(count_char(oc, '$') == 0) by {
        match order_by {
            Some(ob) => {
                lemma_count_char_add(order_by_prefix(), ob, '$');
                lemma_count_char_add(order_by_prefix() + ob, seq![' '], '$');
            },
            None => {},
        }
    }
    let lc = limit_clause(limit_of(pg));
    assert(count_char(lc, '$') == 0) by {
        lemma_decimal_no_dollar(limit_of(pg) + 1);
        lemma_count_char_add(limit_prefix(), decimal_of(limit_of(pg) + 1), '$');
    }
    let cp = cursor_part(nparams, pg);
    assert(count_char(cp, '$') == cursor_params(pg).len()) by {
        match pg {
            Some(p) => match p.next {
                Some(_) => {
                    lemma_cursor_clause_dollar(nparams);
                },
                None => {},
            },
            None => {},
        }
    }
    lemma_count_char_add(cp, oc, '$');
    lemma_count_char_add(cp + oc, lc, '$');
}

/// For any subset of populated filter slots, with or without a cursor: the
/// compiled text — predicate fragment plus pagination suffix — holds exactly
/// as many placeholder markers as the combined parameter list has entries,
/// one per populated slot and one more for the cursor.
pub proof fn lemma_placeholder_parameter_correspondence(
    slots: Seq<SlotView>,
    op: Seq<char>,
    sep: Seq<char>,
    pg: Option<PaginationView>,
    order_by: Option<Seq<char>>,
)
    requires
        count_char(op, '$') == 0,
        count_char(sep, '$') == 0,
        forall|j: int| 0 <= j < slots.len() ==> count_char(#[trigger] slots[j].column, '$') == 0,
        order_by matches Some(ob) ==> count_char(ob, '$') == 0,
    ensures
        ({
            let full = fragment_of(slots, op, sep) + page_suffix(
                params_of(slots).len(),
                pg,
                order_by,
            );
            let all_params = params_of(slots) + cursor_params(pg);
            &&& count_char(full, '$') == all_params.len()
            &&& all_params.len() == popcount(slots) + cursor_params(pg).len()
        }),
{
    lemma_params_count(slots, slots.len() as int);
    lemma_fragment_placeholder_count(slots, op, sep, slots.len() as int);
    lemma_suffix_placeholder_count(params_of(slots).len(), pg, order_by);
    lemma_count_char_add(
        fragment_of(slots, op, sep),
        page_suffix(params_of(slots).len(), pg, order_by),
        '$',
    );
}

/// An empty filter with no cursor compiles to no predicate text at all: the
/// assembled query gains only the ordering and the limit clause.
pub proof fn lemma_empty_filter_only_order_and_limit(
    slots: Seq<SlotView>,
    op: Seq<char>,
    sep: Seq<char>,
    pg: Option<PaginationView>,
    order_by: Option<Seq<char>>,
)
    requires
        popcount(slots) == 0,
        pg matches Some(p) ==> p.next is None,
    ensures
        fragment_of(slots, op, sep) + page_suffix(0, pg, order_by) == order_clause(order_by)
            + limit_clause(limit_of(pg)),
        params_of(slots) + cursor_params(pg) == Seq::<Seq<char>>::empty(),
{
    lemma_empty_filter(slots, op, sep, slots.len() as int);
    assert(cursor_part(0, pg) =~= Seq::<char>::empty());
    assert(fragment_of(slots, op, sep) + page_suffix(0, pg, order_by) =~= order_clause(order_by)
        + limit_clause(limit_of(pg)));
    assert(params_of(slots) + cursor_params(pg) =~= Seq::<Seq<char>>::empty());
}

/// What a page shows of the matching rows: all of them, or the first
/// `limit` when more were fetched.
pub open spec fn page_items<T>(matching: Seq<T>, limit: nat) -> Seq<T> {
    if matching.len() > limit {
        matching.take(limit as int)
    } else {
        matching
    }
}

/// Whether a further page exists: more matching rows were fetched than the
/// page shows.
pub open spec fn page_has_next<T>(matching: Seq<T>, limit: nat) -> bool {
    matching.len() > limit
}

/// The matching rows that lie beyond a cursor: those whose key is below
/// the last key already returned. This is what the storage hands back for a
/// follow-up page, in the same descending key order.
pub open spec fn rows_below<T>(all: Seq<T>, id_of: spec_fn(T) -> int, cursor: int) -> Seq<T> {
    all.filter(|x: T| id_of(x) < cursor)
}

/// A predicate that rejects every element filters to the empty sequence.
proof fn lemma_filter_none<T>(s: Seq<T>, pred: spec_fn(T) -> bool)
    requires
        forall|i: int| 0 <= i < s.len() ==> !pred(s[i]),
    ensures
        s.filter(pred) == Seq::<T>::empty(),
    decreases s.len(),
{
    reveal(Seq::filter);
    if s.len() > 0 {
        lemma_filter_none(s.drop_last(), pred);
    }
}

/// A predicate that rejects exactly the first `k` elements filters a
/// sequence to its suffix from `k` on.
proof fn lemma_filter_is_suffix<T>(s: Seq<T>, pred: spec_fn(T) -> bool, k: int)
    requires
        0 <= k <= s.len(),
        forall|i: int| 0 <= i < k ==> !pred(s[i]),
        forall|i: int| k <= i < s.len() ==> pred(s[i]),
    ensures
        s.filter(pred) == s.skip(k),
    decreases s.len(),
{
    reveal(Seq::filter);
    if s.len() == k {
        lemma_filter_none(s, pred);
        assert(s.skip(k) =~= Seq::<T>::empty());
    } else {
        lemma_filter_is_suffix(s.drop_last(), pred, k);
        assert(s.filter(pred) =~= s.drop_last().filter(pred).push(s.last()));
        assert(s.skip(k) =~= s.drop_last().skip(k).push(s.last()));
    }
}

/// Round trip of keyset pagination: over rows in strictly descending key
/// order, fetching a first page and a second page through the first page's
/// last key as cursor yields disjoint pages whose ordered concatenation is
/// a prefix of the full result set — and the whole of it when the result
/// set fits in two pages. No row is skipped or shown twice.
pub proof fn lemma_keyset_round_trip<T>(all: Seq<T>, id_of: spec_fn(T) -> int, limit: nat)
    requires
        1 <= limit < all.len(),
        forall|i: int, j: int| 0 <= i < j < all.len() ==> #[trigger] id_of(all[i])
            > #[trigger] id_of(all[j]),
    ensures
        ({
            let first_page = page_items(all, limit);
            let cursor = id_of(first_page.last());
            let second_page = page_items(rows_below(all, id_of, cursor), limit);
            &&& first_page + second_page == all.take(
                first_page.len() + second_page.len() as int,
            )
            &&& forall|i: int, j: int|
                0 <= i < first_page.len() && 0 <= j < second_page.len() ==> #[trigger] id_of(
                    first_page[i],
                ) != #[trigger] id_of(second_page[j])
            &&& all.len() <= 2 * limit ==> first_page + second_page == all
        }),
{
    let first_page = page_items(all, limit);
    assert(first_page =~= all.take(limit as int));
    let cursor = id_of(first_page.last());
    assert(first_page.last() == all[limit - 1]);
    let pred = |x: T| id_of(x) < cursor;
    assert forall|i: int| 0 <= i < limit implies !pred(all[i]) by {
        if i < limit - 1 {
            assert(id_of(all[i]) > id_of(all[limit - 1]));
        }
    }
    assert forall|i: int| limit <= i < all.len() implies pred(all[i]) by {
        assert(id_of(all[limit - 1]) > id_of(all[i]));
    }
    lemma_filter_is_suffix(all, pred, limit as int);
    let second_matching = rows_below(all, id_of, cursor);
    assert(second_matching == all.skip(limit as int));
    let second_page = page_items(second_matching, limit);
    let n = first_page.len() + second_page.len() as int;
    assert(first_page + second_page =~= all.take(n));
    assert forall|i: int, j: int|
        0 <= i < first_page.len() && 0 <= j < second_page.len() implies #[trigger] id_of(
        first_page[i],
    ) != #[trigger] id_of(second_page[j]) by {
        assert(first_page[i] == all[i]);
        assert(second_page[j] == all[limit + j]);
        assert(id_of(all[i]) > id_of(all[limit + j]));
    }
    if all.len() <= 2 * limit {
        assert(second_page =~= second_matching);
        assert(first_page + second_page =~= all);
    }
}

/// Applies the overfetch rule to the fetched rows: reports whether more
/// rows were fetched than the page size, and truncates to the page size.
pub fn truncate_overfetch<T>(rows: &mut Vec<T>, limit: u32) -> (has_next: bool)
    ensures
        has_next == page_has_next(old(rows)@, limit as nat),
        final(rows)@ == page_items(old(rows)@, limit as nat),
{
    let has_next = rows.len() > limit as usize;
    if has_next {
        rows.truncate(limit as usize);
        assert(rows@ =~= old(rows)@.take(limit as int));
    }
    has_next
}

} // verus!
