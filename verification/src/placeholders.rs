//! Placeholders in clause text, counted against the values that the clause
//! binds.
//!
//! A driver binds the values of a clause to the placeholders of its text from
//! left to right, so a clause is of use only if it holds one placeholder for
//! each value. The builders write one placeholder for each value themselves;
//! what they cannot rule out is a column registered under a name that holds
//! the placeholder character. For tables without such a name the counts
//! agree.

use vstd::prelude::*;
use crate::registry::lemma_resolve_registered;
use crate::selection::lemma_selected_origin;
use crate::semantics::{
    comparison_token, direction_token, limit_applies, limit_clause, limit_fragments, limit_term,
    order_applies, order_clause, order_fragments, order_key, order_term, order_valid,
    where_applies, where_clause, where_fragments, where_key, where_term, where_valid,
};
use crate::sql_generator::{KeyView, ParameterValue, QueryCondition, QueryView, TableView};
use crate::text::joined;

verus! {

/// How often `c` stands in `text`.
pub open spec fn occurrences(text: Seq<char>, c: char) -> nat
    decreases text.len(),
{
    if text.len() == 0 {
        0
    } else {
        occurrences(text.drop_last(), c) + if text.last() == c {
            1nat
        } else {
            0nat
        }
    }
}

/// How many placeholders `text` holds.
pub open spec fn placeholders(text: Seq<char>) -> nat {
    occurrences(text, '?')
}

/// Whether no column of `keys` has a placeholder in its name.
pub open spec fn plain_columns(keys: Seq<KeyView>) -> bool {
    forall|i: int| 0 <= i < keys.len() ==> placeholders((#[trigger] keys[i]).name) == 0
}

/// A character occurs in two texts, one after the other, as often as in
/// both together.
pub proof fn lemma_occurrences_concat(a: Seq<char>, b: Seq<char>, c: char)
    ensures
        occurrences(a + b, c) == occurrences(a, c) + occurrences(b, c),
    decreases b.len(),
{
    if b.len() > 0 {
        lemma_occurrences_concat(a, b.drop_last(), c);
        assert((a + b).drop_last() =~= a + b.drop_last());
    }
}

/// A character that stands nowhere in a text occurs in it no times, and the
/// other way round.
pub proof fn lemma_occurrences_absent(text: Seq<char>, c: char)
    ensures
        occurrences(text, c) == 0 <==> forall|i: int| 0 <= i < text.len() ==> text[i] != c,
    decreases text.len(),
{
    if text.len() > 0 {
        lemma_occurrences_absent(text.drop_last(), c);
        if forall|i: int| 0 <= i < text.len() ==> text[i] != c {
            assert forall|i: int| 0 <= i < text.drop_last().len() implies text.drop_last()[i]
                != c by {}
        }
        if occurrences(text, c) == 0 {
            assert forall|i: int| 0 <= i < text.len() implies text[i] != c by {
                if i < text.len() - 1 {
                    assert(text.drop_last()[i] == text[i]);
                }
            }
        }
    }
}

/// Where the separator is free of a character and each fragment holds it
/// `each` times, the joined text holds it `each` times for every fragment.
pub proof fn lemma_joined_occurrences(parts: Seq<Seq<char>>, sep: Seq<char>, c: char, each: nat)
    requires
        occurrences(sep, c) == 0,
        forall|i: int| 0 <= i < parts.len() ==> occurrences(#[trigger] parts[i], c) == each,
    ensures
        occurrences(joined(parts, sep), c) == each * parts.len(),
    decreases parts.len(),
{
    if parts.len() > 1 {
        let front = parts.drop_last();
        assert forall|i: int| 0 <= i < front.len() implies occurrences(#[trigger] front[i], c)
            == each by {}
        lemma_joined_occurrences(front, sep, c, each);
        lemma_occurrences_concat(joined(front, sep), sep, c);
        lemma_occurrences_concat(joined(front, sep) + sep, parts.last(), c);
        assert(each * front.len() + each == each * parts.len()) by (nonlinear_arith)
            requires
                front.len() + 1 == parts.len(),
        ;
    }
}

/// The fixed pieces of clause text, but for the placeholder itself, hold no
/// placeholder; the placeholder holds one.
proof fn lemma_fixed_text()
    ensures
        placeholders("?"@) == 1,
        placeholders(" "@) == 0,
        placeholders(", "@) == 0,
        placeholders("LIMIT "@) == 0,
        placeholders("OFFSET "@) == 0,
        forall|condition: QueryCondition| #[trigger]
            comparison_token(condition) is Some ==> placeholders(
                comparison_token(condition).unwrap(),
            ) == 0,
        forall|condition: QueryCondition| #[trigger]
            direction_token(condition) is Some ==> placeholders(
                direction_token(condition).unwrap(),
            ) == 0,
{
    reveal_strlit("?");
    reveal_strlit(" ");
    reveal_strlit(", ");
    reveal_strlit("LIMIT ");
    reveal_strlit("OFFSET ");
    reveal_strlit("=");
    reveal_strlit(">");
    reveal_strlit("<");
    reveal_strlit(">=");
    reveal_strlit("<=");
    reveal_strlit("ASC");
    reveal_strlit("DESC");
    assert(placeholders("?"@) == 1) by {
        reveal_with_fuel(occurrences, 2);
    }
    lemma_occurrences_absent(" "@, '?');
    lemma_occurrences_absent(", "@, '?');
    lemma_occurrences_absent("LIMIT "@, '?');
    lemma_occurrences_absent("OFFSET "@, '?');
    lemma_occurrences_absent("="@, '?');
    lemma_occurrences_absent(">"@, '?');
    lemma_occurrences_absent("<"@, '?');
    lemma_occurrences_absent(">="@, '?');
    lemma_occurrences_absent("<="@, '?');
    lemma_occurrences_absent("ASC"@, '?');
    lemma_occurrences_absent("DESC"@, '?');
}

/// A filter clause over columns without a placeholder in their names holds
/// one placeholder for each value that it binds.
pub proof fn lemma_where_placeholders(t: TableView, qs: Seq<QueryView>)
    requires
        plain_columns(t.keys),
    ensures
        where_clause(t, qs) matches Ok(clause) ==> placeholders(clause.text)
            == clause.parameters.len(),
{
    if where_valid(t, qs) {
        lemma_fixed_text();
        let parts = where_fragments(t, qs);
        assert forall|k: int| 0 <= k < parts.len() implies placeholders(#[trigger] parts[k])
            == 1 by {
            lemma_selected_origin(qs, where_applies(t), where_term(t), k);
            let i = choose|i: int|
                0 <= i < qs.len() && where_applies(t)(#[trigger] qs[i]) && parts[k] == where_term(
                    t,
                )(qs[i]);
            let q = qs[i];
            lemma_resolve_registered(t.keys, q.target);
            let column = where_key(t, q).unwrap().name;
            let operator = comparison_token(q.condition).unwrap();
            lemma_occurrences_concat(column, " "@, '?');
            lemma_occurrences_concat(column + " "@, operator, '?');
            lemma_occurrences_concat(column + " "@ + operator, " "@, '?');
            lemma_occurrences_concat(column + " "@ + operator + " "@, "?"@, '?');
        }
        lemma_joined_occurrences(parts, ", "@, '?', 1);
    }
}

/// A pagination clause holds one placeholder for each value that it binds.
pub proof fn lemma_limit_placeholders(qs: Seq<QueryView>)
    ensures
        placeholders(limit_clause(qs).text) == limit_clause(qs).parameters.len(),
{
    lemma_fixed_text();
    let parts = limit_fragments(qs);
    assert forall|k: int| 0 <= k < parts.len() implies placeholders(#[trigger] parts[k]) == 1 by {
        lemma_selected_origin(qs, limit_applies(), limit_term(), k);
        lemma_occurrences_concat("LIMIT "@, "?"@, '?');
        lemma_occurrences_concat("OFFSET "@, "?"@, '?');
    }
    lemma_joined_occurrences(parts, " "@, '?', 1);
}

/// A sort clause over columns without a placeholder in their names holds no
/// placeholder, as it binds no value.
pub proof fn lemma_order_placeholders(t: TableView, qs: Seq<QueryView>)
    requires
        plain_columns(t.keys),
    ensures
        order_clause(t, qs) matches Ok(clause) ==> placeholders(clause.text)
            == clause.parameters.len(),
{
    if order_valid(t, qs) {
        lemma_fixed_text();
        let parts = order_fragments(t, qs);
        assert forall|k: int| 0 <= k < parts.len() implies placeholders(#[trigger] parts[k])
            == 0 by {
            lemma_selected_origin(qs, order_applies(t), order_term(t), k);
            let i = choose|i: int|
                0 <= i < qs.len() && order_applies(t)(#[trigger] qs[i]) && parts[k] == order_term(
                    t,
                )(qs[i]);
            let q = qs[i];
            match q.parameter {
                ParameterValue::Text(alias) => lemma_resolve_registered(t.keys, alias),
                ParameterValue::Int(_) => {},
            }
            let column = order_key(t, q).unwrap().name;
            let direction = direction_token(q.condition).unwrap();
            lemma_occurrences_concat(column, " "@, '?');
            lemma_occurrences_concat(column + " "@, direction, '?');
        }
        lemma_joined_occurrences(parts, ", "@, '?', 0);
    }
}

} // verus!
