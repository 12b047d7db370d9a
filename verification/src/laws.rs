//! Laws of the three builders.
//!
//! Each law is stated over the functions of [`crate::semantics`], which are
//! the functions that the builders' contracts are stated over.

use vstd::prelude::*;
use crate::registry::{
    first_under, lemma_resolve_first, lemma_resolve_registered, registered, resolve,
};
use crate::selection::{
    lemma_selected_all, lemma_selected_concat, lemma_selected_empty, lemma_selected_none,
    lemma_selected_origin, lemma_selected_pointwise, lemma_selected_push,
};
use crate::semantics::{
    bound_value, comparison, comparison_token, direction_token, limit_applies, limit_clause,
    limit_fragments, limit_parameters, limit_term, order_accepts, order_applies, order_clause,
    order_fragments, order_term, order_valid, ordering, where_accepts, where_applies,
    where_clause, where_fragments, where_parameters, where_term, where_valid,
};
use crate::sql_generator::{
    Clause, ClauseView, KeyView, Outcome, ParameterValue, Query, QueryCondition, QueryView,
    SqlGenerateError, Table, TableView, outcome, placeholder,
};
use crate::text::{joined, lemma_joined_concat};

verus! {

/// The clause without text and without values.
pub open spec fn empty_clause() -> ClauseView {
    ClauseView { text: Seq::empty(), parameters: Seq::empty() }
}

/// A single filter query whose target is a registered alias, and whose
/// condition is a comparison, gives the comparison of the first column
/// registered under that alias with a placeholder, and binds the query's
/// value.
pub proof fn lemma_where_single(t: TableView, q: QueryView, i: int)
    requires
        first_under(t.keys, q.target, i),
        comparison_token(q.condition) is Some,
    ensures
        where_clause(t, seq![q]) == Outcome::Ok(
            ClauseView {
                text: comparison(t.keys[i].name, comparison_token(q.condition).unwrap()),
                parameters: seq![q.parameter],
            },
        ),
{
    lemma_resolve_first(t.keys, q.target, i);
    let none = Seq::<QueryView>::empty();
    lemma_selected_empty(where_applies(t), where_term(t));
    lemma_selected_empty(where_applies(t), bound_value());
    lemma_selected_push(none, q, where_applies(t), where_term(t));
    lemma_selected_push(none, q, where_applies(t), bound_value());
}

/// A single filter query whose target is no registered alias gives the empty
/// clause, whatever its condition.
pub proof fn lemma_where_unknown_target(t: TableView, q: QueryView)
    requires
        !registered(t.keys, q.target),
    ensures
        where_clause(t, seq![q]) == Outcome::Ok(empty_clause()),
{
    lemma_resolve_registered(t.keys, q.target);
    lemma_selected_none(seq![q], where_applies(t), where_term(t));
    lemma_selected_none(seq![q], where_applies(t), bound_value());
}

/// A filter query whose target is a registered alias and whose condition is
/// a direction or unspecified makes the whole list invalid, wherever in the
/// list it stands.
pub proof fn lemma_where_invalid_condition(t: TableView, qs: Seq<QueryView>, i: int)
    requires
        0 <= i < qs.len(),
        registered(t.keys, qs[i].target),
        qs[i].condition is Unspecified || qs[i].condition is Asc || qs[i].condition is Desc,
    ensures
        where_clause(t, qs) == Outcome::Err(SqlGenerateError::InvalidCondition),
{
    lemma_resolve_registered(t.keys, qs[i].target);
}

/// Filter queries that all name registered aliases, with comparisons for
/// conditions, give one term each, in the order of the list and separated by
/// a comma and a space. The values stand in the order of the terms.
pub proof fn lemma_where_all_matching(t: TableView, qs: Seq<QueryView>)
    requires
        forall|i: int|
            0 <= i < qs.len() ==> registered(t.keys, (#[trigger] qs[i]).target)
                && comparison_token(qs[i].condition) is Some,
    ensures
        where_clause(t, qs) == Outcome::Ok(
            ClauseView {
                text: joined(qs.map_values(where_term(t)), ", "@),
                parameters: qs.map_values(bound_value()),
            },
        ),
{
    assert forall|i: int| 0 <= i < qs.len() implies where_applies(t)(#[trigger] qs[i]) by {
        lemma_resolve_registered(t.keys, qs[i].target);
    }
    lemma_selected_all(qs, where_applies(t), where_term(t));
    lemma_selected_all(qs, where_applies(t), bound_value());
}

/// The filter clause of two lists, one after the other, is made of the
/// clauses of the two: the terms of the first before the terms of the
/// second, and the values likewise. One invalid list makes the whole invalid.
pub proof fn lemma_where_concat(t: TableView, a: Seq<QueryView>, b: Seq<QueryView>)
    ensures
        where_valid(t, a + b) <==> where_valid(t, a) && where_valid(t, b),
        where_fragments(t, a + b) == where_fragments(t, a) + where_fragments(t, b),
        where_parameters(t, a + b) == where_parameters(t, a) + where_parameters(t, b),
        where_fragments(t, a).len() > 0 && where_fragments(t, b).len() > 0 ==> joined(
            where_fragments(t, a + b),
            ", "@,
        ) == joined(where_fragments(t, a), ", "@) + ", "@ + joined(where_fragments(t, b), ", "@),
{
    lemma_selected_concat(a, b, where_applies(t), where_term(t));
    lemma_selected_concat(a, b, where_applies(t), bound_value());
    if where_fragments(t, a).len() > 0 && where_fragments(t, b).len() > 0 {
        lemma_joined_concat(where_fragments(t, a), where_fragments(t, b), ", "@);
    }
    if where_valid(t, a + b) {
        assert forall|i: int| 0 <= i < a.len() implies where_accepts(t, #[trigger] a[i]) by {
            assert((a + b)[i] == a[i]);
        }
        assert forall|i: int| 0 <= i < b.len() implies where_accepts(t, #[trigger] b[i]) by {
            assert((a + b)[a.len() + i] == b[i]);
        }
    }
}

/// The filter clause has as many values as terms, and the value at each
/// place is the value of the query that the term at that place comes from.
pub proof fn lemma_where_aligned(t: TableView, qs: Seq<QueryView>, k: int)
    requires
        0 <= k < where_fragments(t, qs).len(),
    ensures
        where_parameters(t, qs).len() == where_fragments(t, qs).len(),
        exists|i: int|
            0 <= i < qs.len() && where_applies(t)(#[trigger] qs[i]) && where_fragments(t, qs)[k]
                == where_term(t)(qs[i]) && where_parameters(t, qs)[k] == qs[i].parameter,
{
    lemma_selected_origin(qs, where_applies(t), where_term(t), k);
    let i = choose|i: int|
        0 <= i < qs.len() && where_applies(t)(#[trigger] qs[i]) && qs.filter(where_applies(t))[k]
            == qs[i] && where_fragments(t, qs)[k] == where_term(t)(qs[i]);
    assert(where_parameters(t, qs)[k] == qs[i].parameter);
}

/// A single sort query that names a registered alias, with a direction for
/// its condition, gives the first column registered under that alias with
/// the direction, and binds nothing.
pub proof fn lemma_order_single(t: TableView, q: QueryView, alias: Seq<char>, i: int)
    requires
        q.target == "order_by"@,
        q.parameter == ParameterValue::Text(alias),
        first_under(t.keys, alias, i),
        direction_token(q.condition) is Some,
    ensures
        order_clause(t, seq![q]) == Outcome::Ok(
            ClauseView {
                text: ordering(t.keys[i].name, direction_token(q.condition).unwrap()),
                parameters: Seq::empty(),
            },
        ),
{
    lemma_resolve_first(t.keys, alias, i);
    let none = Seq::<QueryView>::empty();
    lemma_selected_empty(order_applies(t), order_term(t));
    lemma_selected_push(none, q, order_applies(t), order_term(t));
}

/// A single sort query that names no registered alias, or whose value is an
/// integer, gives the empty clause, whatever its condition.
pub proof fn lemma_order_unknown_alias(t: TableView, q: QueryView)
    requires
        q.parameter matches ParameterValue::Text(alias) ==> !registered(t.keys, alias),
    ensures
        order_clause(t, seq![q]) == Outcome::Ok(empty_clause()),
{
    match q.parameter {
        ParameterValue::Text(alias) => lemma_resolve_registered(t.keys, alias),
        ParameterValue::Int(_) => {},
    }
    lemma_selected_none(seq![q], order_applies(t), order_term(t));
}

/// A sort query that names a registered alias and whose condition is no
/// direction makes the whole list invalid, wherever in the list it stands.
pub proof fn lemma_order_invalid_condition(
    t: TableView,
    qs: Seq<QueryView>,
    i: int,
    alias: Seq<char>,
)
    requires
        0 <= i < qs.len(),
        qs[i].target == "order_by"@,
        qs[i].parameter == ParameterValue::Text(alias),
        registered(t.keys, alias),
        !(qs[i].condition is Asc),
        !(qs[i].condition is Desc),
    ensures
        order_clause(t, qs) == Outcome::Err(SqlGenerateError::InvalidCondition),
{
    lemma_resolve_registered(t.keys, alias);
}

/// The sort clause of two lists, one after the other, is made of the clauses
/// of the two: the terms of the first before the terms of the second. One
/// invalid list makes the whole invalid.
pub proof fn lemma_order_concat(t: TableView, a: Seq<QueryView>, b: Seq<QueryView>)
    ensures
        order_valid(t, a + b) <==> order_valid(t, a) && order_valid(t, b),
        order_fragments(t, a + b) == order_fragments(t, a) + order_fragments(t, b),
        order_fragments(t, a).len() > 0 && order_fragments(t, b).len() > 0 ==> joined(
            order_fragments(t, a + b),
            ", "@,
        ) == joined(order_fragments(t, a), ", "@) + ", "@ + joined(order_fragments(t, b), ", "@),
{
    lemma_selected_concat(a, b, order_applies(t), order_term(t));
    if order_fragments(t, a).len() > 0 && order_fragments(t, b).len() > 0 {
        lemma_joined_concat(order_fragments(t, a), order_fragments(t, b), ", "@);
    }
    if order_valid(t, a + b) {
        assert forall|i: int| 0 <= i < a.len() implies order_accepts(t, #[trigger] a[i]) by {
            assert((a + b)[i] == a[i]);
        }
        assert forall|i: int| 0 <= i < b.len() implies order_accepts(t, #[trigger] b[i]) by {
            assert((a + b)[a.len() + i] == b[i]);
        }
    }
}

/// The pagination clause of two lists, one after the other, is made of the
/// clauses of the two, in that order: the builder keeps the order in which
/// limit and offset were given.
pub proof fn lemma_limit_concat(a: Seq<QueryView>, b: Seq<QueryView>)
    ensures
        limit_fragments(a + b) == limit_fragments(a) + limit_fragments(b),
        limit_parameters(a + b) == limit_parameters(a) + limit_parameters(b),
        limit_fragments(a).len() > 0 && limit_fragments(b).len() > 0 ==> limit_clause(a + b).text
            == limit_clause(a).text + " "@ + limit_clause(b).text,
{
    lemma_selected_concat(a, b, limit_applies(), limit_term());
    lemma_selected_concat(a, b, limit_applies(), bound_value());
    if limit_fragments(a).len() > 0 && limit_fragments(b).len() > 0 {
        lemma_joined_concat(limit_fragments(a), limit_fragments(b), " "@);
    }
}

/// A single limit or offset query gives its keyword with a placeholder and
/// binds the query's value; a single query with another target gives the
/// empty clause.
pub proof fn lemma_limit_single(q: QueryView)
    ensures
        q.target == "limit"@ ==> limit_clause(seq![q]) == (ClauseView {
            text: "LIMIT "@ + placeholder(),
            parameters: seq![q.parameter],
        }),
        q.target == "offset"@ ==> limit_clause(seq![q]) == (ClauseView {
            text: "OFFSET "@ + placeholder(),
            parameters: seq![q.parameter],
        }),
        q.target != "limit"@ && q.target != "offset"@ ==> limit_clause(seq![q]) == empty_clause(),
{
    assert("limit"@ != "offset"@) by {
        reveal_strlit("limit");
        reveal_strlit("offset");
        assert("limit"@.len() == 5);
        assert("offset"@.len() == 6);
    }
    let none = Seq::<QueryView>::empty();
    lemma_selected_empty(limit_applies(), limit_term());
    lemma_selected_empty(limit_applies(), bound_value());
    lemma_selected_push(none, q, limit_applies(), limit_term());
    lemma_selected_push(none, q, limit_applies(), bound_value());
}

/// Whether two lists of queries differ at most in the values that the
/// queries bind.
pub open spec fn same_but_values(a: Seq<QueryView>, b: Seq<QueryView>) -> bool {
    &&& a.len() == b.len()
    &&& forall|i: int|
        0 <= i < a.len() ==> (#[trigger] a[i]).target == b[i].target && a[i].condition
            == b[i].condition
}

/// The values that filter queries bind play no part in the text of the
/// clause, nor in whether the list is valid: the clauses of two lists that
/// differ in those values alone differ in their values alone.
pub proof fn lemma_where_text_ignores_values(t: TableView, a: Seq<QueryView>, b: Seq<QueryView>)
    requires
        same_but_values(a, b),
    ensures
        where_valid(t, a) == where_valid(t, b),
        where_fragments(t, a) == where_fragments(t, b),
{
    lemma_selected_pointwise(a, b, where_applies(t), where_term(t));
    if where_valid(t, a) {
        assert forall|i: int| 0 <= i < b.len() implies where_accepts(t, #[trigger] b[i]) by {
            assert(where_accepts(t, a[i]));
        }
    }
    if where_valid(t, b) {
        assert forall|i: int| 0 <= i < a.len() implies where_accepts(t, #[trigger] a[i]) by {
            assert(where_accepts(t, b[i]));
        }
    }
}

/// The values that limit and offset queries bind play no part in the text
/// of the clause.
pub proof fn lemma_limit_text_ignores_values(a: Seq<QueryView>, b: Seq<QueryView>)
    requires
        same_but_values(a, b),
    ensures
        limit_clause(a).text == limit_clause(b).text,
{
    lemma_selected_pointwise(a, b, limit_applies(), limit_term());
}

/// Whether `text` compares a column of `keys` with a placeholder.
pub open spec fn compares_column(keys: Seq<KeyView>, text: Seq<char>) -> bool {
    exists|i: int, condition: QueryCondition|
        0 <= i < keys.len() && comparison_token(condition) is Some && text == #[trigger] comparison(
            keys[i].name,
            comparison_token(condition).unwrap(),
        )
}

/// Whether `text` sorts by a column of `keys`.
pub open spec fn sorts_column(keys: Seq<KeyView>, text: Seq<char>) -> bool {
    exists|i: int, condition: QueryCondition|
        0 <= i < keys.len() && direction_token(condition) is Some && text == #[trigger] ordering(
            keys[i].name,
            direction_token(condition).unwrap(),
        )
}

/// Every term of a filter clause compares a registered column with a
/// placeholder: no name reaches the text but from the table.
pub proof fn lemma_where_terms_registered(t: TableView, qs: Seq<QueryView>, k: int)
    requires
        where_valid(t, qs),
        0 <= k < where_fragments(t, qs).len(),
    ensures
        compares_column(t.keys, where_fragments(t, qs)[k]),
{
    lemma_selected_origin(qs, where_applies(t), where_term(t), k);
    let j = choose|j: int|
        0 <= j < qs.len() && where_applies(t)(#[trigger] qs[j]) && where_fragments(t, qs)[k]
            == where_term(t)(qs[j]);
    let q = qs[j];
    lemma_resolve_registered(t.keys, q.target);
    let i = choose|i: int|
        first_under(t.keys, q.target, i) && resolve(t.keys, q.target) == Some(
            #[trigger] t.keys[i],
        );
    assert(where_fragments(t, qs)[k] == comparison(
        t.keys[i].name,
        comparison_token(q.condition).unwrap(),
    ));
}

/// Every term of a sort clause sorts by a registered column: the text that
/// a sort query carries chooses among the columns of the table and never
/// stands in the clause itself.
pub proof fn lemma_order_terms_registered(t: TableView, qs: Seq<QueryView>, k: int)
    requires
        order_valid(t, qs),
        0 <= k < order_fragments(t, qs).len(),
    ensures
        sorts_column(t.keys, order_fragments(t, qs)[k]),
{
    lemma_selected_origin(qs, order_applies(t), order_term(t), k);
    let j = choose|j: int|
        0 <= j < qs.len() && order_applies(t)(#[trigger] qs[j]) && order_fragments(t, qs)[k]
            == order_term(t)(qs[j]);
    let q = qs[j];
    match q.parameter {
        ParameterValue::Text(alias) => {
            lemma_resolve_registered(t.keys, alias);
            let i = choose|i: int|
                first_under(t.keys, alias, i) && resolve(t.keys, alias) == Some(
                    #[trigger] t.keys[i],
                );
            assert(order_fragments(t, qs)[k] == ordering(
                t.keys[i].name,
                direction_token(q.condition).unwrap(),
            ));
        },
        ParameterValue::Int(_) => {},
    }
}

/// The filter builder is a function of what the table and the queries hold:
/// two runs on tables that hold the same, with lists that hold the same,
/// give the same outcome.
pub proof fn lemma_where_repeatable(
    table1: Table,
    queries1: Vec<Query>,
    first: Result<Clause, SqlGenerateError>,
    table2: Table,
    queries2: Vec<Query>,
    second: Result<Clause, SqlGenerateError>,
)
    requires
        table1@ == table2@,
        queries1.deep_view() == queries2.deep_view(),
        outcome(first) == where_clause(table1@, queries1.deep_view()),
        outcome(second) == where_clause(table2@, queries2.deep_view()),
    ensures
        outcome(first) == outcome(second),
{
}

/// The pagination builder is a function of what the queries hold: two runs
/// with lists that hold the same give the same outcome, whatever the tables.
pub proof fn lemma_limit_repeatable(
    queries1: Vec<Query>,
    first: Result<Clause, SqlGenerateError>,
    queries2: Vec<Query>,
    second: Result<Clause, SqlGenerateError>,
)
    requires
        queries1.deep_view() == queries2.deep_view(),
        outcome(first) == Outcome::Ok(limit_clause(queries1.deep_view())),
        outcome(second) == Outcome::Ok(limit_clause(queries2.deep_view())),
    ensures
        outcome(first) == outcome(second),
{
}

/// The sort builder is a function of what the table and the queries hold:
/// two runs on tables that hold the same, with lists that hold the same,
/// give the same outcome.
pub proof fn lemma_order_repeatable(
    table1: Table,
    queries1: Vec<Query>,
    first: Result<Clause, SqlGenerateError>,
    table2: Table,
    queries2: Vec<Query>,
    second: Result<Clause, SqlGenerateError>,
)
    requires
        table1@ == table2@,
        queries1.deep_view() == queries2.deep_view(),
        outcome(first) == order_clause(table1@, queries1.deep_view()),
        outcome(second) == order_clause(table2@, queries2.deep_view()),
    ensures
        outcome(first) == outcome(second),
{
}

} // verus!
