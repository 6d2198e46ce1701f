//! The filter compiler: a sparse, ordered table of filter slots is turned
//! into a SQL predicate fragment plus an ordered list of bound parameter
//! values. Slot order fixes placeholder numbering.

use vstd::prelude::*;
use vstd::string::StringExecFns;

use crate::text::{
    count_char, decimal_of, lemma_count_char_absent, lemma_count_char_add, lemma_decimal_no_dollar,
    push_char, push_decimal,
};

verus! {

/// One slot of a filter: a fixed column name, and the value to match,
/// absent when the slot is not populated.
pub struct FilterSlot {
    pub column: String,
    pub value: Option<String>,
}

/// The mathematical content of a `FilterSlot`.
pub struct SlotView {
    pub column: Seq<char>,
    pub value: Option<Seq<char>>,
}

impl View for FilterSlot {
    type V = SlotView;

    open spec fn view(&self) -> SlotView {
        SlotView {
            column: self.column@,
            value: match self.value {
                Some(v) => Some(v@),
                None => None,
            },
        }
    }
}

/// The views of a sequence of slots.
pub open spec fn slot_views(slots: Seq<FilterSlot>) -> Seq<SlotView> {
    slots.map_values(|s: FilterSlot| s@)
}

/// The keyword that opens the first predicate clause of a query.
pub open spec fn kw_where() -> Seq<char> {
    seq!['W', 'H', 'E', 'R', 'E']
}

/// A parameter value wrapped in wildcard markers for substring matching.
pub open spec fn wrapped(v: Seq<char>) -> Seq<char> {
    seq!['%'] + v + seq!['%']
}

/// The text of one predicate clause: lead, column, operator and a numbered
/// placeholder, each followed by a space.
pub open spec fn clause_text(lead: Seq<char>, column: Seq<char>, op: Seq<char>, counter: nat) -> Seq<
    char,
> {
    lead + seq![' '] + column + seq![' '] + op + seq![' ', '$'] + decimal_of(counter) + seq![' ']
}

/// How many of the first `i` slots are populated.
pub open spec fn popcount_upto(slots: Seq<SlotView>, i: int) -> nat
    decreases i,
{
    if i <= 0 {
        0
    } else {
        popcount_upto(slots, i - 1) + (if slots[i - 1].value is Some {
            1nat
        } else {
            0nat
        })
    }
}

/// How many slots are populated.
pub open spec fn popcount(slots: Seq<SlotView>) -> nat {
    popcount_upto(slots, slots.len() as int)
}

/// The predicate fragment compiled from the first `i` slots: one clause per
/// populated slot, the first led by the query keyword, the rest by the
/// separator, with placeholders numbered from 1 in slot order.
pub open spec fn fragment_upto(slots: Seq<SlotView>, op: Seq<char>, sep: Seq<char>, i: int) -> Seq<
    char,
>
    decreases i,
{
    if i <= 0 {
        Seq::empty()
    } else {
        fragment_upto(slots, op, sep, i - 1) + match slots[i - 1].value {
            Some(_) => clause_text(
                if popcount_upto(slots, i - 1) == 0 {
                    kw_where()
                } else {
                    sep
                },
                slots[i - 1].column,
                op,
                popcount_upto(slots, i - 1) + 1,
            ),
            None => Seq::empty(),
        }
    }
}

/// The full predicate fragment of a slot table.
pub open spec fn fragment_of(slots: Seq<SlotView>, op: Seq<char>, sep: Seq<char>) -> Seq<char> {
    fragment_upto(slots, op, sep, slots.len() as int)
}

/// The parameter values of the first `i` slots, wrapped, in slot order.
pub open spec fn params_upto(slots: Seq<SlotView>, i: int) -> Seq<Seq<char>>
    decreases i,
{
    if i <= 0 {
        Seq::empty()
    } else {
        params_upto(slots, i - 1) + match slots[i - 1].value {
            Some(v) => seq![wrapped(v)],
            None => Seq::empty(),
        }
    }
}

/// The full parameter list of a slot table.
pub open spec fn params_of(slots: Seq<SlotView>) -> Seq<Seq<char>> {
    params_upto(slots, slots.len() as int)
}

/// No more slots are populated than there are slots.
pub proof fn lemma_popcount_bound(slots: Seq<SlotView>, i: int)
    requires
        0 <= i,
    ensures
        popcount_upto(slots, i) <= i,
    decreases i,
{
    if i > 0 {
        lemma_popcount_bound(slots, i - 1);
    }
}

/// The parameter list has exactly one entry per populated slot.
pub proof fn lemma_params_count(slots: Seq<SlotView>, i: int)
    ensures
        params_upto(slots, i).len() == popcount_upto(slots, i),
    decreases i,
{
    if i > 0 {
        lemma_params_count(slots, i - 1);
    }
}

/// A table with no populated slot compiles to the empty fragment, with no
/// leading predicate keyword and no parameters.
pub proof fn lemma_empty_filter(slots: Seq<SlotView>, op: Seq<char>, sep: Seq<char>, i: int)
    requires
        popcount_upto(slots, i) == 0,
    ensures
        fragment_upto(slots, op, sep, i) == Seq::<char>::empty(),
        params_upto(slots, i) == Seq::<Seq<char>>::empty(),
    decreases i,
{
    if i > 0 {
        lemma_empty_filter(slots, op, sep, i - 1);
        assert(fragment_upto(slots, op, sep, i) =~= Seq::<char>::empty());
        assert(params_upto(slots, i) =~= Seq::<Seq<char>>::empty());
    }
}

/// One predicate clause holds exactly one placeholder marker, provided the
/// schema tokens hold none.
proof fn lemma_clause_dollar(lead: Seq<char>, column: Seq<char>, op: Seq<char>, counter: nat)
    requires
        count_char(lead, '$') == 0,
        count_char(column, '$') == 0,
        count_char(op, '$') == 0,
    ensures
        count_char(clause_text(lead, column, op, counter), '$') == 1,
{
    let sp = seq![' '];
    let spd = seq![' ', '$'];
    assert(count_char(sp, '$') == 0) by {
        lemma_count_char_absent(sp, '$');
    }
    assert(count_char(spd, '$') == 1) by {
        assert(spd.drop_last() =~= sp);
        lemma_count_char_absent(sp, '$');
    }
    lemma_decimal_no_dollar(counter);
    lemma_count_char_add(lead, sp, '$');
    lemma_count_char_add(lead + sp, column, '$');
    lemma_count_char_add(lead + sp + column, sp, '$');
    lemma_count_char_add(lead + sp + column + sp, op, '$');
    lemma_count_char_add(lead + sp + column + sp + op, spd, '$');
    lemma_count_char_add(lead + sp + column + sp + op + spd, decimal_of(counter), '$');
    lemma_count_char_add(lead + sp + column + sp + op + spd + decimal_of(counter), sp, '$');
}

/// The compiled fragment holds exactly one numbered placeholder per
/// populated slot — as many as the parameter list has entries — provided
/// the fixed schema tokens hold no placeholder marker themselves.
pub proof fn lemma_fragment_placeholder_count(
    slots: Seq<SlotView>,
    op: Seq<char>,
    sep: Seq<char>,
    i: int,
)
    requires
        0 <= i <= slots.len(),
        count_char(op, '$') == 0,
        count_char(sep, '$') == 0,
        forall|j: int| 0 <= j < slots.len() ==> count_char(#[trigger] slots[j].column, '$') == 0,
    ensures
        count_char(fragment_upto(slots, op, sep, i), '$') == popcount_upto(slots, i),
    decreases i,
{
    if i > 0 {
        lemma_fragment_placeholder_count(slots, op, sep, i - 1);
        match slots[i - 1].value {
            Some(_) => {
                let lead = if popcount_upto(slots, i - 1) == 0 {
                    kw_where()
                } else {
                    sep
                };
                assert(count_char(kw_where(), '$') == 0) by {
                    lemma_count_char_absent(kw_where(), '$');
                }
                let clause = clause_text(
                    lead,
                    slots[i - 1].column,
                    op,
                    popcount_upto(slots, i - 1) + 1,
                );
                lemma_clause_dollar(lead, slots[i - 1].column, op, popcount_upto(slots, i - 1) + 1);
                lemma_count_char_add(fragment_upto(slots, op, sep, i - 1), clause, '$');
            },
            None => {
                assert(fragment_upto(slots, op, sep, i) =~= fragment_upto(slots, op, sep, i - 1));
            },
        }
    }
}

/// Compiling one slot table twice with the same tokens yields identical
/// results: fragment and parameter list are functions of the table and the
/// tokens alone.
pub proof fn lemma_compile_deterministic(
    slots: Seq<SlotView>,
    op: Seq<char>,
    sep: Seq<char>,
    first: (Seq<char>, Seq<Seq<char>>),
    second: (Seq<char>, Seq<Seq<char>>),
)
    requires
        first.0 == fragment_of(slots, op, sep),
        first.1 == params_of(slots),
        second.0 == fragment_of(slots, op, sep),
        second.1 == params_of(slots),
    ensures
        first == second,
{
}

/// Compiles a slot table: iterates the slots in declaration order, emitting
/// one predicate clause and one wrapped parameter per populated slot. The
/// first clause is led by the query keyword, later ones by `separator`.
/// Always succeeds; an empty table yields an empty fragment.
pub fn compile_filter(slots: &Vec<FilterSlot>, operator: &str, separator: &str) -> (r: (
    String,
    Vec<String>,
))
    ensures
        r.0@ == fragment_of(slot_views(slots@), operator@, separator@),
        r.1@.map_values(|s: String| s@) == params_of(slot_views(slots@)),
        r.1@.len() == popcount(slot_views(slots@)),
{
    let ghost sv = slot_views(slots@);
    let mut query_str = String::new();
    let mut query_param: Vec<String> = Vec::new();
    let mut i: usize = 0;
    while i < slots.len()
        invariant
            i <= slots.len(),
            sv == slot_views(slots@),
            sv.len() == slots@.len(),
            query_str@ == fragment_upto(sv, operator@, separator@, i as int),
            query_param@.map_values(|s: String| s@) == params_upto(sv, i as int),
            query_param@.len() == popcount_upto(sv, i as int),
        decreases slots.len() - i,
    {
        let slot = &slots[i];
        if let Some(value) = &slot.value {
            let ghost pre = query_str@;
            proof {
                lemma_popcount_bound(sv, i as int);
            }
            if query_param.len() == 0 {
                proof {
                    reveal_strlit("WHERE");
                    assert("WHERE"@ =~= kw_where());
                }
                query_str.append("WHERE");
            } else {
                query_str.append(separator);
            }
            push_char(&mut query_str, ' ');
            query_str.append(slot.column.as_str());
            push_char(&mut query_str, ' ');
            query_str.append(operator);
            push_char(&mut query_str, ' ');
            push_char(&mut query_str, '$');
            push_decimal(&mut query_str, (query_param.len() + 1) as u64);
            push_char(&mut query_str, ' ');
            proof {
                let lead = if popcount_upto(sv, i as int) == 0 {
                    kw_where()
                } else {
                    separator@
                };
                assert(query_str@ =~= pre + clause_text(
                    lead,
                    sv[i as int].column,
                    operator@,
                    popcount_upto(sv, i as int) + 1,
                ));
            }

            let mut wrapped_value = String::new();
            push_char(&mut wrapped_value, '%');
            wrapped_value.append(value.as_str());
            push_char(&mut wrapped_value, '%');
            assert(wrapped_value@ =~= wrapped(sv[i as int].value->0));
            query_param.push(wrapped_value);
            proof {
                assert(query_param@.map_values(|s: String| s@) =~= params_upto(
                    sv,
                    i as int + 1,
                ));
            }
        }
        proof {
            assert(query_str@ =~= fragment_upto(sv, operator@, separator@, i as int + 1));
            assert(query_param@.map_values(|s: String| s@) =~= params_upto(sv, i as int + 1));
        }
        i = i + 1;
    }
    (query_str, query_param)
}

/// A type whose populated fields can be compiled into a SQL predicate
/// fragment and parameter list.
pub trait ToSqlString {
    /// The slot table this type compiles from, in declaration order.
    spec fn sql_slots(&self) -> Seq<SlotView>;

    /// Compiles the populated slots with the given match operator and clause
    /// separator. `order_by` names the ordering a caller intends; it does not
    /// change the fragment.
    fn as_sql_string(&self, operator: &str, separator: &str, order_by: &str) -> (r: (
        String,
        Vec<String>,
    ))
        ensures
            r.0@ == fragment_of(self.sql_slots(), operator@, separator@),
            r.1@.map_values(|s: String| s@) == params_of(self.sql_slots()),
            r.1@.len() == popcount(self.sql_slots()),
    ;
}

} // verus!
