use teo::query::{Query, QueryErrorKind};
use teo::relation::Relation;
use teo::schema::{Field, Model, Optionality};
use teo::value::{Date, Dialect, FieldType, Value};
use teo::encode::{to_sql_string, EncodeError};

fn field(name: &str, t: FieldType, optional: bool) -> Field {
    Field {
        name: name.to_string(),
        column_name: name.to_string(),
        field_type: t,
        optionality: if optional { Optionality::Optional } else { Optionality::Required },
    }
}

fn person() -> Model {
    Model {
        name: "Person".to_string(),
        fields: vec![
            field("age", FieldType::I32, false),
            field("name", FieldType::String, false),
            field("nickname", FieldType::String, true),
            field("tags", FieldType::Array(Box::new(FieldType::String), false), false),
            field("born", FieldType::Date, true),
        ],
        relations: vec![Relation {
            name: "friends".to_string(),
            localized_name: "Friends".to_string(),
            description: String::new(),
            optionality: Optionality::Optional,
            model: "Person".to_string(),
            through: None,
            is_vec: true,
            fields: vec![],
            references: vec![],
        }],
    }
}

fn dict(entries: Vec<(&str, Value)>) -> Value {
    Value::Dictionary(entries.into_iter().map(|(k, v)| (k.to_string(), v)).collect())
}

fn s(v: &str) -> Value {
    Value::String(v.to_string())
}

#[test]
fn filter_translation_gt_lt() {
    let doc = dict(vec![("age", dict(vec![("gt", Value::Int(18)), ("lt", Value::Int(65))]))]);
    let r = Query::where_clause(&person(), &doc, Dialect::PostgreSQL).unwrap();
    assert_eq!(r, "(age > 18) AND (age < 65)");
}

#[test]
fn boolean_combinators() {
    let doc = dict(vec![(
        "AND",
        Value::Array(vec![
            dict(vec![("name", s("Alice"))]),
            dict(vec![("OR", Value::Array(vec![dict(vec![("age", Value::Int(20))]), dict(vec![("age", Value::Int(30))])]))]),
        ]),
    )]);
    let r = Query::where_clause(&person(), &doc, Dialect::PostgreSQL).unwrap();
    assert_eq!(r, "(name = 'Alice') AND ((age = 20) OR (age = 30))");
}

#[test]
fn unknown_operator_rejected() {
    let doc = dict(vec![("age", dict(vec![("bogus", Value::Int(1))]))]);
    let e = Query::where_clause(&person(), &doc, Dialect::PostgreSQL).unwrap_err();
    assert_eq!(e.kind, QueryErrorKind::UnknownOperator);
    assert_eq!(e.key, "bogus");
}

#[test]
fn unknown_operator_after_valid_one_still_fails() {
    let doc = dict(vec![("age", dict(vec![("gt", Value::Int(1)), ("bogus", Value::Int(1))]))]);
    let e = Query::where_clause(&person(), &doc, Dialect::MySQL).unwrap_err();
    assert_eq!(e.kind, QueryErrorKind::UnknownOperator);
}

#[test]
fn not_wraps_nested_document() {
    let doc = dict(vec![("NOT", dict(vec![("age", Value::Int(3))]))]);
    assert_eq!(Query::where_clause(&person(), &doc, Dialect::SQLite).unwrap(), "NOT (age = 3)");
}

#[test]
fn several_keys_are_joined_with_and() {
    let doc = dict(vec![("age", Value::Int(3)), ("name", s("Bo"))]);
    assert_eq!(Query::where_clause(&person(), &doc, Dialect::SQLite).unwrap(), "(age = 3) AND (name = 'Bo')");
}

#[test]
fn empty_document_and_empty_or() {
    assert_eq!(Query::where_clause(&person(), &dict(vec![]), Dialect::SQLite).unwrap(), "TRUE");
    let doc = dict(vec![("OR", Value::Array(vec![]))]);
    assert_eq!(Query::where_clause(&person(), &doc, Dialect::SQLite).unwrap(), "FALSE");
}

#[test]
fn relation_filter_is_not_implemented() {
    let doc = dict(vec![("friends", dict(vec![]))]);
    let e = Query::where_clause(&person(), &doc, Dialect::SQLite).unwrap_err();
    assert_eq!(e.kind, QueryErrorKind::RelationFilterUnsupported);
    assert_eq!(e.key, "friends");
}

#[test]
fn unknown_field_is_rejected() {
    let doc = dict(vec![("height", Value::Int(1))]);
    let e = Query::where_clause(&person(), &doc, Dialect::SQLite).unwrap_err();
    assert_eq!(e.kind, QueryErrorKind::UnknownField);
}

#[test]
fn document_must_be_a_dictionary() {
    let e = Query::where_clause(&person(), &Value::Int(1), Dialect::SQLite).unwrap_err();
    assert_eq!(e.kind, QueryErrorKind::ExpectedDictionary);
    let e = Query::where_clause(&person(), &dict(vec![("AND", Value::Int(1))]), Dialect::SQLite).unwrap_err();
    assert_eq!(e.kind, QueryErrorKind::ExpectedArray);
}

#[test]
fn string_operators_and_case_insensitive_mode() {
    let doc = dict(vec![("name", dict(vec![("contains", s("li"))]))]);
    assert_eq!(Query::where_clause(&person(), &doc, Dialect::PostgreSQL).unwrap(), "name LIKE '%li%'");
    let doc = dict(vec![("name", dict(vec![("startsWith", s("A")), ("mode", s("caseInsensitive"))]))]);
    assert_eq!(Query::where_clause(&person(), &doc, Dialect::PostgreSQL).unwrap(), "LOWER(name) LIKE LOWER('A%')");
    let doc = dict(vec![("name", dict(vec![("endsWith", s("e"))]))]);
    assert_eq!(Query::where_clause(&person(), &doc, Dialect::PostgreSQL).unwrap(), "name LIKE '%e'");
    let doc = dict(vec![("name", dict(vec![("matches", s("^A.*"))]))]);
    assert_eq!(Query::where_clause(&person(), &doc, Dialect::MySQL).unwrap(), "name REGEXP '^A.*'");
}

#[test]
fn comparison_needs_an_ordered_type() {
    let doc = dict(vec![("name", dict(vec![("gt", s("a"))]))]);
    let e = Query::where_clause(&person(), &doc, Dialect::PostgreSQL).unwrap_err();
    assert_eq!(e.kind, QueryErrorKind::OperatorNotApplicable);
}

#[test]
fn in_and_not_in() {
    let doc = dict(vec![("age", dict(vec![("in", Value::Array(vec![Value::Int(1), Value::Int(2)]))]))]);
    assert_eq!(Query::where_clause(&person(), &doc, Dialect::PostgreSQL).unwrap(), "age IN (1, 2)");
    let doc = dict(vec![("age", dict(vec![("notIn", Value::Array(vec![Value::Int(5)]))]))]);
    assert_eq!(Query::where_clause(&person(), &doc, Dialect::PostgreSQL).unwrap(), "age NOT IN (5)");
    let doc = dict(vec![("age", dict(vec![("in", Value::Int(5))]))]);
    assert_eq!(Query::where_clause(&person(), &doc, Dialect::PostgreSQL).unwrap_err().kind, QueryErrorKind::ExpectedArray);
}

#[test]
fn array_operators() {
    let doc = dict(vec![("tags", dict(vec![("has", s("x"))]))]);
    assert_eq!(Query::where_clause(&person(), &doc, Dialect::PostgreSQL).unwrap(), "tags @> ARRAY['x']");
    let doc = dict(vec![("tags", dict(vec![("hasEvery", Value::Array(vec![s("a"), s("b")]))]))]);
    assert_eq!(Query::where_clause(&person(), &doc, Dialect::PostgreSQL).unwrap(), "tags @> ARRAY['a', 'b']");
    let doc = dict(vec![("tags", dict(vec![("hasSome", Value::Array(vec![s("a")]))]))]);
    assert_eq!(Query::where_clause(&person(), &doc, Dialect::PostgreSQL).unwrap(), "tags && ARRAY['a']");
    let doc = dict(vec![("tags", dict(vec![("isEmpty", Value::Bool(true))]))]);
    assert_eq!(Query::where_clause(&person(), &doc, Dialect::PostgreSQL).unwrap(), "ARRAY_LENGTH(tags) = 0");
    let doc = dict(vec![("tags", dict(vec![("length", Value::Int(2))]))]);
    assert_eq!(Query::where_clause(&person(), &doc, Dialect::PostgreSQL).unwrap(), "ARRAY_LENGTH(tags) = 2");
}

#[test]
fn value_mismatch_is_reported() {
    let doc = dict(vec![("age", s("old"))]);
    let e = Query::where_clause(&person(), &doc, Dialect::PostgreSQL).unwrap_err();
    assert_eq!(e.kind, QueryErrorKind::ValueMismatch);
    assert_eq!(e.key, "age");
}

#[test]
fn null_equality_on_optional_field() {
    let doc = dict(vec![("nickname", Value::Null)]);
    assert_eq!(Query::where_clause(&person(), &doc, Dialect::PostgreSQL).unwrap(), "nickname = NULL");
    let doc = dict(vec![("name", Value::Null)]);
    assert_eq!(Query::where_clause(&person(), &doc, Dialect::PostgreSQL).unwrap_err().kind, QueryErrorKind::ValueMismatch);
}

#[test]
fn order_by_keeps_order_and_drops_unknown_fields() {
    let doc = dict(vec![("name", s("asc")), ("height", s("desc")), ("age", s("desc"))]);
    assert_eq!(Query::order_by(&person(), &doc).unwrap(), "name ASC,age DESC");
    let doc = dict(vec![("name", s("up"))]);
    assert_eq!(Query::order_by(&person(), &doc).unwrap_err().kind, QueryErrorKind::InvalidDirection);
}

#[test]
fn where_from_identifier_values() {
    let doc = dict(vec![("age", Value::Int(7)), ("name", s("Al"))]);
    assert_eq!(Query::where_from_value(&person(), &doc, Dialect::SQLite).unwrap(), "age = 7 AND name = 'Al'");
    let doc = dict(vec![("nope", Value::Int(7))]);
    assert_eq!(Query::where_from_value(&person(), &doc, Dialect::SQLite).unwrap_err().kind, QueryErrorKind::UnknownField);
}

#[test]
fn encoder_quotes_and_escapes() {
    let v = s("O'Brien \\ x");
    assert_eq!(to_sql_string(&v, &FieldType::String, false, Dialect::PostgreSQL).unwrap(), "'O''Brien \\ x'");
    assert_eq!(to_sql_string(&v, &FieldType::String, false, Dialect::MySQL).unwrap(), "'O''Brien \\\\ x'");
}

#[test]
fn encoder_numbers_dates_and_errors() {
    assert_eq!(to_sql_string(&Value::Int(-42), &FieldType::I64, false, Dialect::SQLite).unwrap(), "-42");
    assert_eq!(to_sql_string(&Value::Int(5_000_000_000), &FieldType::I32, false, Dialect::SQLite).unwrap_err(), EncodeError::OutOfRange);
    assert_eq!(to_sql_string(&Value::Null, &FieldType::I32, false, Dialect::SQLite).unwrap_err(), EncodeError::NullNotAllowed);
    assert_eq!(to_sql_string(&Value::Bool(true), &FieldType::I32, false, Dialect::SQLite).unwrap_err(), EncodeError::TypeMismatch);
    assert_eq!(to_sql_string(&Value::Bool(false), &FieldType::Bool, false, Dialect::SQLite).unwrap(), "FALSE");
    let d = Value::Date(Date { year: 2024, month: 3, day: 9 });
    assert_eq!(to_sql_string(&d, &FieldType::Date, false, Dialect::SQLite).unwrap(), "'2024-03-09'");
    let bad = Value::Date(Date { year: 2024, month: 13, day: 9 });
    assert_eq!(to_sql_string(&bad, &FieldType::Date, false, Dialect::SQLite).unwrap_err(), EncodeError::OutOfRange);
}
