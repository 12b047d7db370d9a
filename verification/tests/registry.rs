use sqlgen::sql_generator::{
    Parameter, ParameterType, Query, QueryCondition, SqlGenerateError, Table,
};

#[test]
fn first_registered_key_answers_for_a_shared_alias() {
    let mut t = Table::new("items");
    t.add_key_and_alias("first_column", "shared")
        .add_key_and_alias("second_column", "shared")
        .add_key_and_alias("third_column", "other");
    let qs = vec![Query::from_int("shared", QueryCondition::Equals, 1)];
    assert_eq!(t.generate_where_clause(&qs).unwrap().clause, "first_column = ?");
    let sort = vec![Query::from_str("order_by", QueryCondition::Asc, "shared")];
    assert_eq!(t.generate_order_by_clause(&sort).unwrap().clause, "first_column ASC");
}

#[test]
fn one_column_may_stand_under_two_aliases() {
    let mut t = Table::new("items");
    t.add_key_and_alias("amount", "price").add_key_and_alias("amount", "cost");
    let qs = vec![
        Query::from_int("cost", QueryCondition::Lesser, 9),
        Query::from_int("price", QueryCondition::Greater, 1),
    ];
    let clause = t.generate_where_clause(&qs).unwrap();
    assert_eq!(clause.clause, "amount < ?, amount > ?");
}

#[test]
fn registration_one_call_at_a_time() {
    let mut t = Table::new("items");
    t.add_key_and_alias("a_column", "a");
    let qs = vec![
        Query::from_int("a", QueryCondition::Equals, 1),
        Query::from_int("b", QueryCondition::Equals, 2),
    ];
    assert_eq!(t.generate_where_clause(&qs).unwrap().clause, "a_column = ?");
    t.add_key_and_alias("b_column", "b");
    assert_eq!(t.generate_where_clause(&qs).unwrap().clause, "a_column = ?, b_column = ?");
}

#[test]
fn aliases_are_compared_exactly() {
    let mut t = Table::new("items");
    t.add_key_and_alias("name_column", "name").add_key_and_alias("na\u{ef}ve_column", "na\u{ef}ve");
    let qs = vec![
        Query::from_int("Name", QueryCondition::Equals, 1),
        Query::from_int("name ", QueryCondition::Equals, 2),
        Query::from_int("nam", QueryCondition::Equals, 3),
        Query::from_int("", QueryCondition::Equals, 4),
        Query::from_int("naive", QueryCondition::Equals, 5),
        Query::from_int("na\u{ef}ve", QueryCondition::Equals, 6),
    ];
    let clause = t.generate_where_clause(&qs).unwrap();
    assert_eq!(clause.clause, "na\u{ef}ve_column = ?");
    assert_eq!(clause.parameters.len(), 1);
    assert_eq!(*clause.parameters[0].value, ParameterType::Int(6));
}

#[test]
fn empty_alias_can_be_registered() {
    let mut t = Table::new("items");
    t.add_key_and_alias("anonymous", "");
    let qs = vec![Query::from_int("", QueryCondition::Equals, 4)];
    assert_eq!(t.generate_where_clause(&qs).unwrap().clause, "anonymous = ?");
}

#[test]
fn parameter_clone_holds_the_same_value() {
    let number = Parameter { value: Box::new(ParameterType::Int(-5)) };
    let text = Parameter { value: Box::new(ParameterType::String(String::from("caf\u{e9}"))) };
    assert_eq!(*number.clone().value, ParameterType::Int(-5));
    assert_eq!(*text.clone().value, ParameterType::String(String::from("caf\u{e9}")));
    assert_ne!(*number.clone().value, *text.clone().value);
}

#[test]
fn condition_codes() {
    let t = {
        let mut t = Table::new("items");
        t.add_key_and_alias("c", "a");
        t
    };
    let comparisons = vec![
        ("eq", "c = ?"),
        ("gt", "c > ?"),
        ("lt", "c < ?"),
        ("ge", "c >= ?"),
        ("le", "c <= ?"),
    ];
    for (code, expected) in comparisons {
        let qs = vec![Query::from_int("a", QueryCondition::from_code(code), 0)];
        assert_eq!(t.generate_where_clause(&qs).unwrap().clause, expected);
    }
    let directions = vec![("asc", "c ASC"), ("desc", "c DESC")];
    for (code, expected) in directions {
        let qs = vec![Query::from_str("order_by", QueryCondition::from_code(code), "a")];
        assert_eq!(t.generate_order_by_clause(&qs).unwrap().clause, expected);
    }
}

#[test]
fn condition_code_that_stands_for_nothing() {
    for code in vec!["", "EQ", "eq ", "equals", "=", "none", "ascending"] {
        assert!(matches!(QueryCondition::from_code(code), QueryCondition::Unspecified));
    }
    assert!(matches!(QueryCondition::from_code("eq"), QueryCondition::Equals));
    assert!(matches!(QueryCondition::from_code("gt"), QueryCondition::Greater));
    assert!(matches!(QueryCondition::from_code("lt"), QueryCondition::Lesser));
    assert!(matches!(QueryCondition::from_code("ge"), QueryCondition::GreaterEqual));
    assert!(matches!(QueryCondition::from_code("le"), QueryCondition::LesserEqual));
    assert!(matches!(QueryCondition::from_code("desc"), QueryCondition::Desc));
    assert!(matches!(QueryCondition::from_code("asc"), QueryCondition::Asc));
}

#[test]
fn error_description() {
    assert_eq!(SqlGenerateError::InvalidCondition.description(), "invalid condition");
}
