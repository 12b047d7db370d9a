//! What each builder produces, as a function of a table and a list of
//! queries.
//!
//! Every builder follows one pattern. A query either applies to the builder
//! or is passed over. One that applies is either accepted, and then
//! contributes one term to the text, or makes the whole list invalid. The
//! terms of the applying queries stand in the text in the order of the list.

use vstd::prelude::*;
use crate::registry::resolve;
use crate::selection::selected;
use crate::sql_generator::{
    ClauseView, KeyView, Outcome, ParameterValue, QueryCondition, QueryView, SqlGenerateError,
    TableView, placeholder,
};
use crate::text::joined;

verus! {

/// The operator that a comparison condition stands for.
pub open spec fn comparison_token(condition: QueryCondition) -> Option<Seq<char>> {
    match condition {
        QueryCondition::Equals => Some("="@),
        QueryCondition::Greater => Some(">"@),
        QueryCondition::Lesser => Some("<"@),
        QueryCondition::GreaterEqual => Some(">="@),
        QueryCondition::LesserEqual => Some("<="@),
        _ => None,
    }
}

/// The keyword that a sort direction stands for.
pub open spec fn direction_token(condition: QueryCondition) -> Option<Seq<char>> {
    match condition {
        QueryCondition::Asc => Some("ASC"@),
        QueryCondition::Desc => Some("DESC"@),
        _ => None,
    }
}

/// The value that a query binds.
pub open spec fn bound_value() -> spec_fn(QueryView) -> ParameterValue {
    |q: QueryView| q.parameter
}

/// The column that a filter query is about: the one that its target resolves
/// to.
pub open spec fn where_key(t: TableView, q: QueryView) -> Option<KeyView> {
    resolve(t.keys, q.target)
}

/// Whether a filter query applies to the table.
pub open spec fn where_applies(t: TableView) -> spec_fn(QueryView) -> bool {
    |q: QueryView| where_key(t, q) is Some
}

/// Whether the filter builder can go past `q`: it does not apply, or its
/// condition is a comparison.
pub open spec fn where_accepts(t: TableView, q: QueryView) -> bool {
    where_applies(t)(q) ==> comparison_token(q.condition) is Some
}

/// The comparison of `column` with a placeholder under `operator`.
pub open spec fn comparison(column: Seq<char>, operator: Seq<char>) -> Seq<char> {
    column + " "@ + operator + " "@ + placeholder()
}

/// The term that an applying, accepted filter query contributes.
pub open spec fn where_term(t: TableView) -> spec_fn(QueryView) -> Seq<char> {
    |q: QueryView|
        comparison(where_key(t, q).unwrap().name, comparison_token(q.condition).unwrap())
}

/// Whether the filter builder accepts every query of the list.
pub open spec fn where_valid(t: TableView, qs: Seq<QueryView>) -> bool {
    forall|i: int| 0 <= i < qs.len() ==> where_accepts(t, #[trigger] qs[i])
}

/// The terms of the filter clause, one for each applying query.
pub open spec fn where_fragments(t: TableView, qs: Seq<QueryView>) -> Seq<Seq<char>> {
    selected(qs, where_applies(t), where_term(t))
}

/// The values of the filter clause, one for each applying query.
pub open spec fn where_parameters(t: TableView, qs: Seq<QueryView>) -> Seq<ParameterValue> {
    selected(qs, where_applies(t), bound_value())
}

/// The filter clause for `qs`: the terms separated by a comma and a space,
/// with the values in the order of the terms. Where a query applies whose
/// condition is no comparison, the error.
pub open spec fn where_clause(t: TableView, qs: Seq<QueryView>) -> Outcome {
    if where_valid(t, qs) {
        Ok(
            ClauseView {
                text: joined(where_fragments(t, qs), ", "@),
                parameters: where_parameters(t, qs),
            },
        )
    } else {
        Err(SqlGenerateError::InvalidCondition)
    }
}

/// Whether a query sets the limit or the offset.
pub open spec fn limit_applies() -> spec_fn(QueryView) -> bool {
    |q: QueryView| q.target == "limit"@ || q.target == "offset"@
}

/// The term that a limit or offset query contributes.
pub open spec fn limit_term() -> spec_fn(QueryView) -> Seq<char> {
    |q: QueryView|
        if q.target == "limit"@ {
            "LIMIT "@ + placeholder()
        } else {
            "OFFSET "@ + placeholder()
        }
}

/// The terms of the pagination clause, one for each applying query.
pub open spec fn limit_fragments(qs: Seq<QueryView>) -> Seq<Seq<char>> {
    selected(qs, limit_applies(), limit_term())
}

/// The values of the pagination clause, one for each applying query.
pub open spec fn limit_parameters(qs: Seq<QueryView>) -> Seq<ParameterValue> {
    selected(qs, limit_applies(), bound_value())
}

/// The pagination clause for `qs`: the terms separated by a space, with the
/// values in the order of the terms. It depends on no table.
pub open spec fn limit_clause(qs: Seq<QueryView>) -> ClauseView {
    ClauseView { text: joined(limit_fragments(qs), " "@), parameters: limit_parameters(qs) }
}

/// The column that a sort query names: its target is `order_by` and its
/// value is a text that resolves to the column.
pub open spec fn order_key(t: TableView, q: QueryView) -> Option<KeyView> {
    if q.target == "order_by"@ {
        match q.parameter {
            ParameterValue::Text(alias) => resolve(t.keys, alias),
            ParameterValue::Int(_) => None,
        }
    } else {
        None
    }
}

/// Whether a sort query applies to the table.
pub open spec fn order_applies(t: TableView) -> spec_fn(QueryView) -> bool {
    |q: QueryView| order_key(t, q) is Some
}

/// Whether the sort builder can go past `q`: it does not apply, or its
/// condition is a direction.
pub open spec fn order_accepts(t: TableView, q: QueryView) -> bool {
    order_applies(t)(q) ==> direction_token(q.condition) is Some
}

/// `column` sorted in `direction`.
pub open spec fn ordering(column: Seq<char>, direction: Seq<char>) -> Seq<char> {
    column + " "@ + direction
}

/// The term that an applying, accepted sort query contributes.
pub open spec fn order_term(t: TableView) -> spec_fn(QueryView) -> Seq<char> {
    |q: QueryView| ordering(order_key(t, q).unwrap().name, direction_token(q.condition).unwrap())
}

/// Whether the sort builder accepts every query of the list.
pub open spec fn order_valid(t: TableView, qs: Seq<QueryView>) -> bool {
    forall|i: int| 0 <= i < qs.len() ==> order_accepts(t, #[trigger] qs[i])
}

/// The terms of the sort clause, one for each applying query.
pub open spec fn order_fragments(t: TableView, qs: Seq<QueryView>) -> Seq<Seq<char>> {
    selected(qs, order_applies(t), order_term(t))
}

/// The sort clause for `qs`: the terms separated by a comma and a space, and
/// no value. Where a query applies whose condition is no direction, the
/// error.
pub open spec fn order_clause(t: TableView, qs: Seq<QueryView>) -> Outcome {
    if order_valid(t, qs) {
        Ok(ClauseView { text: joined(order_fragments(t, qs), ", "@), parameters: Seq::empty() })
    } else {
        Err(SqlGenerateError::InvalidCondition)
    }
}

} // verus!
