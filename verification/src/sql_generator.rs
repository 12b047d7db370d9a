//! Tables, queries and the clause builders.

use vstd::prelude::*;
use crate::registry::resolve;
use crate::selection::{lemma_selected_empty, lemma_selected_push};
use crate::semantics::{
    bound_value, comparison, comparison_token, limit_applies, limit_clause, limit_fragments,
    limit_parameters, limit_term, order_accepts, order_applies, order_clause, order_fragments,
    order_term, order_valid, where_accepts, where_applies, where_clause, where_fragments,
    where_parameters, where_term, where_valid,
};
use crate::text::{join, text_eq};

verus! {

/// A value bound to a placeholder: an integer or a piece of text.
#[derive(Debug, PartialEq)]
pub enum ParameterType {
    Int(i64),
    String(String),
}

/// What a bound value holds, as mathematics sees it.
pub enum ParameterValue {
    Int(int),
    Text(Seq<char>),
}

impl View for ParameterType {
    type V = ParameterValue;

    open spec fn view(&self) -> ParameterValue {
        match self {
            ParameterType::Int(x) => ParameterValue::Int(*x as int),
            ParameterType::String(s) => ParameterValue::Text(s@),
        }
    }
}

impl DeepView for ParameterType {
    type V = ParameterValue;

    open spec fn deep_view(&self) -> ParameterValue {
        self@
    }
}

/// One bound parameter of a clause.
pub struct Parameter {
    pub value: Box<ParameterType>,
}

impl View for Parameter {
    type V = ParameterValue;

    open spec fn view(&self) -> ParameterValue {
        (*self.value)@
    }
}

impl DeepView for Parameter {
    type V = ParameterValue;

    open spec fn deep_view(&self) -> ParameterValue {
        self@
    }
}

impl Clone for Parameter {
    /// A fresh parameter holding the same value.
    fn clone(&self) -> (res: Parameter)
        ensures
            res@ == self@,
    {
        Parameter {
            value: match &*self.value {
                ParameterType::Int(x) => Box::new(ParameterType::Int(*x)),
                ParameterType::String(x) => Box::new(ParameterType::String(x.clone())),
            },
        }
    }
}

/// How a query relates its target to its value.
#[derive(Debug)]
pub enum QueryCondition {
    Equals,
    Greater,
    Lesser,
    GreaterEqual,
    LesserEqual,
    Desc,
    Asc,
    Unspecified,
}

/// The condition that a short code stands for. A code that stands for none
/// gives the unspecified condition.
pub open spec fn condition_of_code(code: Seq<char>) -> QueryCondition {
    if code == "eq"@ {
        QueryCondition::Equals
    } else if code == "gt"@ {
        QueryCondition::Greater
    } else if code == "lt"@ {
        QueryCondition::Lesser
    } else if code == "ge"@ {
        QueryCondition::GreaterEqual
    } else if code == "le"@ {
        QueryCondition::LesserEqual
    } else if code == "desc"@ {
        QueryCondition::Desc
    } else if code == "asc"@ {
        QueryCondition::Asc
    } else {
        QueryCondition::Unspecified
    }
}

impl QueryCondition {
    /// Reads a condition from its short code.
    pub fn from_code(code: &str) -> (condition: QueryCondition)
        ensures
            condition == condition_of_code(code@),
    {
        if text_eq(code, "eq") {
            QueryCondition::Equals
        } else if text_eq(code, "gt") {
            QueryCondition::Greater
        } else if text_eq(code, "lt") {
            QueryCondition::Lesser
        } else if text_eq(code, "ge") {
            QueryCondition::GreaterEqual
        } else if text_eq(code, "le") {
            QueryCondition::LesserEqual
        } else if text_eq(code, "desc") {
            QueryCondition::Desc
        } else if text_eq(code, "asc") {
            QueryCondition::Asc
        } else {
            QueryCondition::Unspecified
        }
    }
}

/// How a query combines with its neighbours.
pub enum QueryOperator {
    And,
    Or,
}

/// One filter, sort or pagination instruction.
pub struct Query {
    target: String,
    condition: QueryCondition,
    operator: QueryOperator,
    parameter: Parameter,
}

/// A query as mathematics sees it.
pub struct QueryView {
    pub target: Seq<char>,
    pub condition: QueryCondition,
    pub operator: QueryOperator,
    pub parameter: ParameterValue,
}

impl View for Query {
    type V = QueryView;

    closed spec fn view(&self) -> QueryView {
        QueryView {
            target: self.target@,
            condition: self.condition,
            operator: self.operator,
            parameter: self.parameter@,
        }
    }
}

impl DeepView for Query {
    type V = QueryView;

    open spec fn deep_view(&self) -> QueryView {
        self@
    }
}

impl Query {
    /// A query on `target` whose value is the integer `param`.
    pub fn from_int(target: &str, cond: QueryCondition, param: i64) -> (q: Query)
        ensures
            q@ == (QueryView {
                target: target@,
                condition: cond,
                operator: QueryOperator::And,
                parameter: ParameterValue::Int(param as int),
            }),
    {
        Query {
            target: String::from_str(target),
            condition: cond,
            operator: QueryOperator::And,
            parameter: Parameter { value: Box::new(ParameterType::Int(param)) },
        }
    }

    /// A query on `target` whose value is the text `param`.
    pub fn from_str(target: &str, cond: QueryCondition, param: &str) -> (q: Query)
        ensures
            q@ == (QueryView {
                target: target@,
                condition: cond,
                operator: QueryOperator::And,
                parameter: ParameterValue::Text(param@),
            }),
    {
        Query {
            target: String::from_str(target),
            condition: cond,
            operator: QueryOperator::And,
            parameter: Parameter { value: Box::new(ParameterType::String(String::from_str(param))) },
        }
    }
}

/// The text of a clause and the values to bind to its placeholders, left to
/// right.
pub struct Clause {
    pub clause: String,
    pub parameters: Vec<Parameter>,
}

/// A clause as mathematics sees it.
pub struct ClauseView {
    pub text: Seq<char>,
    pub parameters: Seq<ParameterValue>,
}

impl View for Clause {
    type V = ClauseView;

    open spec fn view(&self) -> ClauseView {
        ClauseView { text: self.clause@, parameters: self.parameters.deep_view() }
    }
}

/// What a builder gives, as mathematics sees it: a clause or the reason why
/// there is none.
pub type Outcome = Result<ClauseView, SqlGenerateError>;

/// What a builder returned, with the clause taken by its view.
pub open spec fn outcome(res: Result<Clause, SqlGenerateError>) -> Outcome {
    match res {
        Ok(clause) => Ok(clause@),
        Err(e) => Err(e),
    }
}

/// A registered column: its name in the database and the alias by which
/// queries refer to it.
pub struct Key {
    name: String,
    alias: String,
}

/// A registered column as mathematics sees it.
pub struct KeyView {
    pub name: Seq<char>,
    pub alias: Seq<char>,
}

impl View for Key {
    type V = KeyView;

    closed spec fn view(&self) -> KeyView {
        KeyView { name: self.name@, alias: self.alias@ }
    }
}

impl DeepView for Key {
    type V = KeyView;

    open spec fn deep_view(&self) -> KeyView {
        self@
    }
}

/// The columns of one table, in the order they were registered, and the
/// placeholder that stands for a bound value in clause text.
pub struct Table {
    name: String,
    keys: Vec<Key>,
    placeholder: String,
}

/// A table as mathematics sees it. The placeholder is no part of it: it is
/// the same in every table.
pub struct TableView {
    pub name: Seq<char>,
    pub keys: Seq<KeyView>,
}

/// The token that stands for a bound value in clause text.
pub open spec fn placeholder() -> Seq<char> {
    "?"@
}

impl View for Table {
    type V = TableView;

    closed spec fn view(&self) -> TableView {
        TableView { name: self.name@, keys: self.keys.deep_view() }
    }
}

/// Why a builder refused a list of queries.
#[derive(Debug, PartialEq, Eq, Structural)]
pub enum SqlGenerateError {
    InvalidCondition,
}

impl SqlGenerateError {
    /// A short description of the error.
    pub fn description(&self) -> (text: &'static str)
        ensures
            text@ == "invalid condition"@,
    {
        match self {
            SqlGenerateError::InvalidCondition => "invalid condition",
        }
    }
}

impl Table {
    /// Every table holds the one placeholder.
    #[verifier::type_invariant]
    spec fn placeholder_fixed(&self) -> bool {
        self.placeholder@ == placeholder()
    }

    /// A table called `name` with no column registered.
    pub fn new(name: &str) -> (t: Table)
        ensures
            t@ == (TableView { name: name@, keys: Seq::empty() }),
    {
        let t = Table {
            name: String::from_str(name),
            keys: Vec::new(),
            placeholder: String::from_str("?"),
        };
        assert(t.keys.deep_view() =~= Seq::empty());
        t
    }

    /// Registers the column `name` under `alias`, after the columns already
    /// registered.
    pub fn add_key_and_alias(&mut self, name: &str, alias: &str) -> (t: &mut Table)
        ensures
            t@ == (TableView {
                keys: old(self)@.keys.push(KeyView { name: name@, alias: alias@ }),
                ..old(self)@
            }),
            *final(self) == *final(t),
    {
        proof {
            use_type_invariant(&*self);
        }
        // The column list leaves the table while it grows, so that the table
        // is whole at every step.
        let mut keys: Vec<Key> = Vec::new();
        core::mem::swap(&mut self.keys, &mut keys);
        keys.push(Key { name: String::from_str(name), alias: String::from_str(alias) });
        core::mem::swap(&mut self.keys, &mut keys);
        proof {
            assert(self.keys.deep_view() =~= old(self).keys.deep_view().push(
                KeyView { name: name@, alias: alias@ },
            ));
        }
        self
    }

    /// The first registered column whose alias is `alias`.
    fn resolve(&self, alias: &String) -> (found: Option<&Key>)
        ensures
            match found {
                Some(key) => resolve(self@.keys, alias@) == Some(key@),
                None => resolve(self@.keys, alias@) is None,
            },
    {
        let ghost keys = self@.keys;
        let mut i: usize = 0;
        proof {
            assert(keys.skip(0) =~= keys);
        }
        while i < self.keys.len()
            invariant
                i <= self.keys.len(),
                keys == self.keys.deep_view(),
                resolve(keys, alias@) == resolve(keys.skip(i as int), alias@),
            decreases self.keys.len() - i,
        {
            let key = &self.keys[i];
            proof {
                assert(keys.skip(i as int).drop_first() =~= keys.skip(i + 1));
            }
            if key.alias == *alias {
                return Some(key);
            }
            i += 1;
        }
        None
    }

    /// The comparison of the column `key` with a placeholder, under the
    /// operator that the condition of `query` stands for.
    fn decode_cond(&self, key: &String, query: &Query) -> (res: Result<String, SqlGenerateError>)
        ensures
            match res {
                Ok(term) => comparison_token(query@.condition) is Some && term@ == comparison(
                    key@,
                    comparison_token(query@.condition).unwrap(),
                ),
                Err(e) => comparison_token(query@.condition) is None
                    && e == SqlGenerateError::InvalidCondition,
            },
    {
        let cond = match query.condition {
            QueryCondition::Equals => "=",
            QueryCondition::Greater => ">",
            QueryCondition::Lesser => "<",
            QueryCondition::GreaterEqual => ">=",
            QueryCondition::LesserEqual => "<=",
            _ => return Err(SqlGenerateError::InvalidCondition),
        };
        proof {
            use_type_invariant(self);
        }
        let mut term = key.clone();
        term.append(" ");
        term.append(cond);
        term.append(" ");
        term.append(self.placeholder.as_str());
        Ok(term)
    }

    /// The filter clause for `queries`: one comparison for each query whose
    /// target is a registered alias, in the order of the list. A query with
    /// another target is passed over. The list is refused where a query with
    /// a registered alias has a condition that is no comparison.
    pub fn generate_where_clause(&self, queries: &Vec<Query>) -> (res: Result<
        Clause,
        SqlGenerateError,
    >)
        ensures
            outcome(res) == where_clause(self@, queries.deep_view()),
    {
        let ghost t = self@;
        let ghost qs = queries.deep_view();
        let mut clauses: Vec<String> = Vec::new();
        let mut parameters: Vec<Parameter> = Vec::new();
        proof {
            lemma_selected_empty(where_applies(t), where_term(t));
            lemma_selected_empty(where_applies(t), bound_value());
        }
        let mut i: usize = 0;
        while i < queries.len()
            invariant
                i <= queries.len(),
                t == self@,
                qs == queries.deep_view(),
                where_valid(t, qs.take(i as int)),
                clauses.deep_view() =~= where_fragments(t, qs.take(i as int)),
                parameters.deep_view() =~= where_parameters(t, qs.take(i as int)),
            decreases queries.len() - i,
        {
            let q = &queries[i];
            proof {
                assert(qs.take(i + 1) =~= qs.take(i as int).push(q@));
                lemma_selected_push(qs.take(i as int), q@, where_applies(t), where_term(t));
                lemma_selected_push(qs.take(i as int), q@, where_applies(t), bound_value());
            }
            if let Some(k) = self.resolve(&q.target) {
                match self.decode_cond(&k.name, q) {
                    Ok(clause) => {
                        clauses.push(clause);
                    },
                    Err(err) => {
                        assert(!where_accepts(t, qs[i as int]));
                        return Err(err);
                    },
                }
                parameters.push(q.parameter.clone());
            }
            i += 1;
        }
        proof {
            assert(qs.take(i as int) =~= qs);
        }
        let result = Clause { clause: join(&clauses, ", "), parameters: parameters };
        Ok(result)
    }

    /// The pagination clause for `queries`: a limit for each query whose
    /// target is `limit` and an offset for each whose target is `offset`, in
    /// the order of the list. A query with another target is passed over, and
    /// no list is refused. The registered columns play no part.
    pub fn generate_limit_clause(&self, queries: &Vec<Query>) -> (res: Result<
        Clause,
        SqlGenerateError,
    >)
        ensures
            outcome(res) == Outcome::Ok(limit_clause(queries.deep_view())),
    {
        let ghost qs = queries.deep_view();
        let mut clauses: Vec<String> = Vec::new();
        let mut parameters: Vec<Parameter> = Vec::new();
        proof {
            use_type_invariant(self);
            lemma_selected_empty(limit_applies(), limit_term());
            lemma_selected_empty(limit_applies(), bound_value());
        }
        let mut i: usize = 0;
        while i < queries.len()
            invariant
                i <= queries.len(),
                qs == queries.deep_view(),
                self.placeholder@ == placeholder(),
                clauses.deep_view() =~= limit_fragments(qs.take(i as int)),
                parameters.deep_view() =~= limit_parameters(qs.take(i as int)),
            decreases queries.len() - i,
        {
            let q = &queries[i];
            proof {
                assert(qs.take(i + 1) =~= qs.take(i as int).push(q@));
                lemma_selected_push(qs.take(i as int), q@, limit_applies(), limit_term());
                lemma_selected_push(qs.take(i as int), q@, limit_applies(), bound_value());
            }
            if text_eq(q.target.as_str(), "limit") {
                let mut clause = String::from_str("LIMIT ");
                clause.append(self.placeholder.as_str());
                clauses.push(clause);
                parameters.push(q.parameter.clone());
            } else if text_eq(q.target.as_str(), "offset") {
                let mut clause = String::from_str("OFFSET ");
                clause.append(self.placeholder.as_str());
                clauses.push(clause);
                parameters.push(q.parameter.clone());
            }
            i += 1;
        }
        proof {
            assert(qs.take(i as int) =~= qs);
        }
        let result = Clause { clause: join(&clauses, " "), parameters: parameters };
        Ok(result)
    }

    /// The sort clause for `queries`: one column with its direction for each
    /// query whose target is `order_by` and whose value is the text of a
    /// registered alias, in the order of the list. Any other query is passed
    /// over. The list is refused where such a query has a condition that is no
    /// direction. The clause binds no value.
    pub fn generate_order_by_clause(&self, queries: &Vec<Query>) -> (res: Result<
        Clause,
        SqlGenerateError,
    >)
        ensures
            outcome(res) == order_clause(self@, queries.deep_view()),
    {
        let ghost t = self@;
        let ghost qs = queries.deep_view();
        let mut clauses: Vec<String> = Vec::new();
        let parameters: Vec<Parameter> = Vec::new();
        proof {
            lemma_selected_empty(order_applies(t), order_term(t));
        }
        let mut i: usize = 0;
        while i < queries.len()
            invariant
                i <= queries.len(),
                t == self@,
                qs == queries.deep_view(),
                parameters@.len() == 0,
                order_valid(t, qs.take(i as int)),
                clauses.deep_view() =~= order_fragments(t, qs.take(i as int)),
            decreases queries.len() - i,
        {
            let q = &queries[i];
            proof {
                assert(qs.take(i + 1) =~= qs.take(i as int).push(q@));
                lemma_selected_push(qs.take(i as int), q@, order_applies(t), order_term(t));
            }
            if text_eq(q.target.as_str(), "order_by") {
                if let ParameterType::String(key) = &*q.parameter.value {
                    if let Some(k) = self.resolve(key) {
                        let order = match q.condition {
                            QueryCondition::Asc => "ASC",
                            QueryCondition::Desc => "DESC",
                            _ => {
                                assert(!order_accepts(t, qs[i as int]));
                                return Err(SqlGenerateError::InvalidCondition);
                            },
                        };
                        let mut clause = k.name.clone();
                        clause.append(" ");
                        clause.append(order);
                        clauses.push(clause);
                    }
                }
            }
            i += 1;
        }
        proof {
            assert(qs.take(i as int) =~= qs);
            assert(parameters.deep_view() =~= Seq::empty());
        }
        let result = Clause { clause: join(&clauses, ", "), parameters: parameters };
        Ok(result)
    }
}

} // verus!
