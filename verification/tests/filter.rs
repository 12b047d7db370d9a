use sqlgen::sql_generator::{ParameterType, Query, QueryCondition, SqlGenerateError, Table};

fn filter_table() -> Table {
    let mut t = Table::new("items");
    t.add_key_and_alias("id", "id")
        .add_key_and_alias("unit_price", "price")
        .add_key_and_alias("display_name", "name");
    t
}

#[test]
fn where_single_query_for_each_comparison() {
    let t = filter_table();
    let cases = vec![
        (QueryCondition::Equals, "unit_price = ?"),
        (QueryCondition::Greater, "unit_price > ?"),
        (QueryCondition::Lesser, "unit_price < ?"),
        (QueryCondition::GreaterEqual, "unit_price >= ?"),
        (QueryCondition::LesserEqual, "unit_price <= ?"),
    ];
    for (condition, expected) in cases {
        let qs = vec![Query::from_int("price", condition, 42)];
        let clause = t.generate_where_clause(&qs).unwrap();
        assert_eq!(clause.clause, expected);
        assert_eq!(clause.parameters.len(), 1);
        assert_eq!(*clause.parameters[0].value, ParameterType::Int(42));
    }
}

#[test]
fn where_unknown_target_alone_gives_empty_clause() {
    let t = filter_table();
    let qs = vec![Query::from_int("colour", QueryCondition::Equals, 3)];
    let clause = t.generate_where_clause(&qs).unwrap();
    assert_eq!(clause.clause, "");
    assert!(clause.parameters.is_empty());
}

#[test]
fn where_unknown_target_is_passed_over_whatever_its_condition() {
    let t = filter_table();
    let qs = vec![
        Query::from_int("colour", QueryCondition::Unspecified, 3),
        Query::from_int("limit", QueryCondition::Asc, 10),
        Query::from_str("order_by", QueryCondition::Desc, "price"),
    ];
    let clause = t.generate_where_clause(&qs).unwrap();
    assert_eq!(clause.clause, "");
    assert!(clause.parameters.is_empty());
}

#[test]
fn where_column_name_is_no_alias() {
    let t = filter_table();
    let qs = vec![Query::from_int("unit_price", QueryCondition::Equals, 3)];
    let clause = t.generate_where_clause(&qs).unwrap();
    assert_eq!(clause.clause, "");
    assert!(clause.parameters.is_empty());
}

#[test]
fn where_empty_list_gives_empty_clause() {
    let t = filter_table();
    let qs: Vec<Query> = Vec::new();
    let clause = t.generate_where_clause(&qs).unwrap();
    assert_eq!(clause.clause, "");
    assert!(clause.parameters.is_empty());
}

#[test]
fn where_empty_table_passes_over_everything() {
    let t = Table::new("nothing");
    let qs = vec![
        Query::from_int("id", QueryCondition::Equals, 1),
        Query::from_int("price", QueryCondition::Unspecified, 2),
    ];
    let clause = t.generate_where_clause(&qs).unwrap();
    assert_eq!(clause.clause, "");
    assert!(clause.parameters.is_empty());
}

#[test]
fn where_invalid_condition_for_each_other_condition() {
    let t = filter_table();
    for condition in vec![QueryCondition::Unspecified, QueryCondition::Asc, QueryCondition::Desc] {
        let qs = vec![Query::from_int("price", condition, 1)];
        match t.generate_where_clause(&qs) {
            Err(err) => assert_eq!(err, SqlGenerateError::InvalidCondition),
            Ok(_) => panic!("an applying query without a comparison was accepted"),
        }
    }
}

#[test]
fn where_invalid_condition_after_valid_queries() {
    let t = filter_table();
    let qs = vec![
        Query::from_int("id", QueryCondition::Equals, 7),
        Query::from_int("price", QueryCondition::Greater, 100),
        Query::from_int("price", QueryCondition::Unspecified, 1),
    ];
    match t.generate_where_clause(&qs) {
        Err(err) => assert_eq!(err, SqlGenerateError::InvalidCondition),
        Ok(_) => panic!("no clause is due once a query is refused"),
    }
}

#[test]
fn where_invalid_condition_before_valid_queries() {
    let t = filter_table();
    let qs = vec![
        Query::from_int("price", QueryCondition::Asc, 1),
        Query::from_int("id", QueryCondition::Equals, 7),
    ];
    assert!(matches!(
        t.generate_where_clause(&qs),
        Err(SqlGenerateError::InvalidCondition)
    ));
}

#[test]
fn where_multiple_queries_join_in_input_order() {
    let t = filter_table();
    let qs = vec![
        Query::from_int("price", QueryCondition::GreaterEqual, 10),
        Query::from_str("name", QueryCondition::Equals, "lamp"),
        Query::from_int("id", QueryCondition::Lesser, 500),
    ];
    let clause = t.generate_where_clause(&qs).unwrap();
    assert_eq!(clause.clause, "unit_price >= ?, display_name = ?, id < ?");
    assert_eq!(clause.parameters.len(), 3);
    assert_eq!(*clause.parameters[0].value, ParameterType::Int(10));
    assert_eq!(*clause.parameters[1].value, ParameterType::String(String::from("lamp")));
    assert_eq!(*clause.parameters[2].value, ParameterType::Int(500));
}

#[test]
fn where_two_queries_on_one_alias_both_stand() {
    let t = filter_table();
    let qs = vec![
        Query::from_int("price", QueryCondition::GreaterEqual, 10),
        Query::from_int("price", QueryCondition::Lesser, 20),
    ];
    let clause = t.generate_where_clause(&qs).unwrap();
    assert_eq!(clause.clause, "unit_price >= ?, unit_price < ?");
    assert_eq!(*clause.parameters[0].value, ParameterType::Int(10));
    assert_eq!(*clause.parameters[1].value, ParameterType::Int(20));
}

#[test]
fn where_values_stay_aligned_when_queries_are_passed_over() {
    let t = filter_table();
    let qs = vec![
        Query::from_int("limit", QueryCondition::Equals, 5),
        Query::from_int("id", QueryCondition::Greater, 1),
        Query::from_int("colour", QueryCondition::Equals, 2),
        Query::from_int("price", QueryCondition::LesserEqual, 3),
        Query::from_int("offset", QueryCondition::Equals, 4),
    ];
    let clause = t.generate_where_clause(&qs).unwrap();
    assert_eq!(clause.clause, "id > ?, unit_price <= ?");
    assert_eq!(clause.parameters.len(), 2);
    assert_eq!(*clause.parameters[0].value, ParameterType::Int(1));
    assert_eq!(*clause.parameters[1].value, ParameterType::Int(3));
}

#[test]
fn where_text_value_never_reaches_the_text() {
    let t = filter_table();
    let hostile = "x' OR '1'='1";
    let qs = vec![Query::from_str("name", QueryCondition::Equals, hostile)];
    let clause = t.generate_where_clause(&qs).unwrap();
    assert_eq!(clause.clause, "display_name = ?");
    assert_eq!(*clause.parameters[0].value, ParameterType::String(String::from(hostile)));
}

#[test]
fn where_extreme_integers_are_bound_unchanged() {
    let t = filter_table();
    let qs = vec![
        Query::from_int("id", QueryCondition::Greater, i64::MIN),
        Query::from_int("id", QueryCondition::Lesser, i64::MAX),
    ];
    let clause = t.generate_where_clause(&qs).unwrap();
    assert_eq!(clause.clause, "id > ?, id < ?");
    assert_eq!(*clause.parameters[0].value, ParameterType::Int(i64::MIN));
    assert_eq!(*clause.parameters[1].value, ParameterType::Int(i64::MAX));
}

#[test]
fn where_twice_gives_the_same_clause() {
    let t = filter_table();
    let qs = vec![
        Query::from_int("price", QueryCondition::GreaterEqual, 10),
        Query::from_str("name", QueryCondition::Equals, "lamp"),
    ];
    let first = t.generate_where_clause(&qs).unwrap();
    let second = t.generate_where_clause(&qs).unwrap();
    assert_eq!(first.clause, "unit_price >= ?, display_name = ?");
    assert_eq!(first.clause, second.clause);
    assert_eq!(first.parameters.len(), second.parameters.len());
    for i in 0..first.parameters.len() {
        assert_eq!(*first.parameters[i].value, *second.parameters[i].value);
    }
}

#[test]
fn where_twice_gives_the_same_error() {
    let t = filter_table();
    let qs = vec![Query::from_int("price", QueryCondition::Desc, 10)];
    let first = t.generate_where_clause(&qs).err();
    let second = t.generate_where_clause(&qs).err();
    assert_eq!(first, Some(SqlGenerateError::InvalidCondition));
    assert_eq!(first, second);
}

#[test]
fn where_queries_serve_more_than_one_builder() {
    let t = filter_table();
    let qs = vec![
        Query::from_int("price", QueryCondition::Greater, 10),
        Query::from_int("limit", QueryCondition::Equals, 20),
        Query::from_str("order_by", QueryCondition::Asc, "name"),
    ];
    assert_eq!(t.generate_where_clause(&qs).unwrap().clause, "unit_price > ?");
    assert_eq!(t.generate_limit_clause(&qs).unwrap().clause, "LIMIT ?");
    assert_eq!(t.generate_order_by_clause(&qs).unwrap().clause, "display_name ASC");
}

#[test]
fn where_has_one_placeholder_for_each_value() {
    let t = filter_table();
    let qs = vec![
        Query::from_str("name", QueryCondition::Equals, "what?"),
        Query::from_int("colour", QueryCondition::Equals, 2),
        Query::from_int("price", QueryCondition::LesserEqual, 3),
        Query::from_str("name", QueryCondition::Greater, "??"),
        Query::from_int("id", QueryCondition::GreaterEqual, 4),
    ];
    let clause = t.generate_where_clause(&qs).unwrap();
    assert_eq!(clause.clause, "display_name = ?, unit_price <= ?, display_name > ?, id >= ?");
    assert_eq!(clause.clause.matches('?').count(), clause.parameters.len());
    assert_eq!(clause.parameters.len(), 4);
}

#[test]
fn where_column_names_are_written_as_registered() {
    let mut t = Table::new("items");
    t.add_key_and_alias("\"unit price\"", "price").add_key_and_alias("really?", "sure");
    let qs = vec![
        Query::from_int("price", QueryCondition::Equals, 1),
        Query::from_int("sure", QueryCondition::Equals, 2),
    ];
    let clause = t.generate_where_clause(&qs).unwrap();
    assert_eq!(clause.clause, "\"unit price\" = ?, really? = ?");
    assert_eq!(clause.parameters.len(), 2);
}
