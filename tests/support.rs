use teo::conf::{Command, GoEntityGenerator, PythonEntityGenerator};
use teo::decode::{ColumnRead, DecodeStep, RowDecoder};
use teo::diagnostics::{Diagnostics, DiagnosticsError, DiagnosticsLog, DiagnosticsWarning, Span};
use teo::lexer::tokenize;
use teo::parser::{append_doc_desc, parse_comment_block, parse_comment_line};
use teo::pipeline::{
    AndModifier, CUIDModifier, DivideModifier, PipelineError, ValidateWithModifier, GtModifier, HasLengthModifier, InvalidModifier, IsEvenModifier, IsTrueModifier,
    LengthArgument, PadStartItem, PipelineErrorKind, ReverseModifier,
};
use teo::property::Property;
use teo::render::{display_path, lines_of, render_excerpt, render_log};
use teo::schema::Optionality;
use teo::text::trim;
use teo::value::{FieldType, Value};

fn span(l1: usize, c1: usize, l2: usize, c2: usize) -> Span {
    Span { start: 0, end: 1, start_position: (l1, c1), end_position: (l2, c2) }
}

#[test]
fn null_decoding_short_circuits() {
    assert_eq!(RowDecoder::decode(&FieldType::I32, true, None), DecodeStep::ProbeNull);
    assert_eq!(RowDecoder::decode(&FieldType::I32, true, Some(true)), DecodeStep::ReturnNull);
    assert_eq!(RowDecoder::decode(&FieldType::I32, true, Some(false)), DecodeStep::Read(ColumnRead::Int));
    assert_eq!(RowDecoder::decode(&FieldType::String, false, None), DecodeStep::Read(ColumnRead::String));
    assert_eq!(RowDecoder::decode(&FieldType::Decimal, false, None), DecodeStep::Unhandled);
    assert!(RowDecoder::number_from_i64(1 << 40, &FieldType::I32).is_none());
    assert!(matches!(RowDecoder::number_from_i64(-3, &FieldType::I64), Some(Value::Int(-3))));
}

#[test]
fn diagnostics_sort_errors_and_warnings() {
    let mut d = Diagnostics::new();
    assert!(!d.has_errors() && !d.has_warnings());
    d.insert(DiagnosticsWarning::new(span(1, 1, 1, 2), "w".to_string(), 1, "/a.teo".to_string()));
    assert!(d.has_warnings() && !d.has_errors());
    d.insert(DiagnosticsError::new(span(1, 1, 1, 2), "e".to_string(), 2, "/b.teo".to_string()));
    d.insert_unparsed_rule(span(2, 1, 2, 3), 3, "/c.teo".to_string());
    assert_eq!(d.errors().len(), 2);
    assert_eq!(d.warnings().len(), 1);
    assert_eq!(d.errors()[0].message(), "e");
    assert_eq!(d.errors()[1].message(), "SyntaxError: Unexpected content.");
    assert_eq!(d.errors()[1].source_id(), 3);
    assert_eq!(d.errors()[1].source_path(), "/c.teo");
    assert!(d.errors()[0].is_error() && d.warnings()[0].is_warning());
    let w = d.errors()[0].clone().into_warning();
    assert_eq!(w.message(), "e");
}

#[test]
fn excerpt_of_a_one_line_span() {
    let content = "model A {\n  id: Intt\n}\n";
    let e = DiagnosticsError::new(span(2, 7, 2, 11), "Unresolved type 'Intt'.".to_string(), 1, "/p/a.teo".to_string());
    let text = render_log(&e, "./a.teo", content).unwrap();
    assert_eq!(text, "Error: ./a.teo:2:7 - 2:11\n|   id: Intt\n|       ^^^^\nUnresolved type 'Intt'.");
}

#[test]
fn excerpt_of_a_span_over_lines() {
    let content = "ab\ncd\nef\ngh";
    assert_eq!(render_excerpt(&span(1, 2, 3, 1), content).unwrap(), "| ab\n|  ^\n| ...\n| ef\n| ^\n");
    assert_eq!(render_excerpt(&span(1, 1, 2, 2), content).unwrap(), "| ab\n| ^^\n| cd\n| ^^\n");
    assert!(render_excerpt(&span(9, 1, 9, 2), content).is_none());
    assert_eq!(lines_of("a\n\nb\n"), vec!["a", "", "b", ""]);
}

#[test]
fn shown_path_is_relative_with_dot() {
    assert_eq!(display_path("/work/app/schema.teo", "/work/app"), "./schema.teo");
    assert_eq!(display_path("/work/lib/x.teo", "/work/app"), "../lib/x.teo");
    assert_eq!(display_path("rel/x.teo", "/work"), "rel/x.teo");
}

#[test]
fn doc_descriptions_are_trimmed_and_joined() {
    assert_eq!(trim("  a b \t"), "a b");
    assert_eq!(append_doc_desc(String::new(), "  first ".to_string()), "first");
    assert_eq!(append_doc_desc("first".to_string(), " second".to_string()), "first second");
}

#[test]
fn property_accessors() {
    let mut p = Property::new("firstName".to_string());
    assert_eq!(p.localized_name(), "First Name");
    assert_eq!(p.name(), "firstName");
    assert!(!p.is_required() && p.is_optional());
    p.set_required();
    assert!(p.is_required());
    assert_eq!(p.optionality, Optionality::Required);
    p.set_optional();
    assert!(!p.is_required());
    assert!(!p.has_getter() && !p.has_setter());
    p.setter = Some(vec!["trim".to_string()]);
    assert!(p.has_setter());
    p.set_field_type(FieldType::I64);
    assert!(matches!(p.field_type(), FieldType::I64));
    p.finalize("BIGINT".to_string());
    assert_eq!(p.database_type(), "BIGINT");
    p.localized_name = Some("Given name".to_string());
    assert_eq!(p.localized_name(), "Given name");
}

#[test]
fn commands_by_name() {
    assert_eq!(Command::from_name("serve"), Some(Command::Serve));
    assert_eq!(Command::from_name("client"), Some(Command::Client));
    assert_eq!(Command::from_name("other"), None);
    let _ = GoEntityGenerator::new();
    let _ = PythonEntityGenerator::new();
}

fn text(v: Value) -> String {
    match v {
        Value::String(s) => s,
        other => panic!("not a string: {:?}", other),
    }
}

#[test]
fn pipeline_items() {
    assert_eq!(text(ReverseModifier::new().call(Value::String("abc".to_string())).unwrap()), "cba");
    match ReverseModifier::new().call(Value::Array(vec![Value::Int(1), Value::Int(2)])).unwrap() {
        Value::Array(v) => assert!(matches!(v.as_slice(), [Value::Int(2), Value::Int(1)])),
        other => panic!("{:?}", other),
    }
    assert!(ReverseModifier::new().call(Value::Int(1)).is_err());
    assert!(IsEvenModifier::new().call(Value::Int(4)).is_ok());
    assert!(IsEvenModifier::new().call(Value::Int(-3)).is_err());
    assert!(IsTrueModifier::new().call(Value::Bool(true)).is_ok());
    assert_eq!(IsTrueModifier::new().call(Value::Bool(false)).unwrap_err().kind, PipelineErrorKind::Invalid);
    assert_eq!(InvalidModifier::new().call(Value::Null).unwrap_err().message, "Value is invalid.");
    assert!(GtModifier::new(Value::Int(3)).call(Value::Int(4)).is_ok());
    assert!(GtModifier::new(Value::Int(3)).call(Value::Int(3)).is_err());
    assert!(matches!(AndModifier::new(Value::Int(9)).call(Value::Null), Value::Int(9)));
    assert!(matches!(AndModifier::new(Value::Int(9)).call(Value::Int(1)), Value::Int(1)));
    assert!(matches!(DivideModifier::new(Value::Int(2)).call(Value::Int(-7)), Ok(Value::Int(-3))));
    assert!(DivideModifier::new(Value::Int(0)).call(Value::Int(7)).is_err());
    let exact = HasLengthModifier::new(LengthArgument::exact(3));
    assert!(exact.call(Value::String("abc".to_string())).is_ok());
    assert_eq!(exact.call(Value::String("ab".to_string())).unwrap_err().message, "Value length is less than 3.");
    let range = HasLengthModifier::new(LengthArgument::range(1, 3));
    assert_eq!(range.call(Value::Array(vec![Value::Null, Value::Null, Value::Null])).unwrap_err().message, "Value length is greater than or equal to 3.");
    assert!(range.call(Value::Int(1)).is_err());
    assert_eq!(text(PadStartItem::new(Value::Int(3), '0').call(Value::String("5".to_string())).unwrap()), "005");
    assert_eq!(text(PadStartItem::new(Value::Int(1), '0').call(Value::String("55".to_string())).unwrap()), "55");
    assert!(PadStartItem::new(Value::Int(3), '0').call(Value::Int(5)).is_err());
}

#[test]
fn standard_registry_knows_common_decorators() {
    let r = teo::resolver::DecoratorRegistry::standard();
    assert!(r.field.iter().any(|n| n == "id"));
    assert!(r.model.iter().any(|n| n == "map"));
    assert!(r.relation.iter().any(|n| n == "relation"));
    assert!(r.property.iter().any(|n| n == "getter"));
}

#[test]
fn comment_lines_and_blocks() {
    assert_eq!(parse_comment_line("  @name  User list "), (Some("@name".to_string()), "User list".to_string()));
    assert_eq!(parse_comment_line(" plain text "), (None, "plain text".to_string()));
    let tokens = tokenize("/// @description first\n/// second\n/// @name N\n/// @other x\nmodel").unwrap();
    let (block, p) = parse_comment_block(&tokens, 0);
    assert_eq!(p, 4);
    assert_eq!(block.name.as_deref(), Some("N"));
    assert_eq!(block.desc.as_deref(), Some("first second"));
}

#[test]
fn cuid_and_validate_with() {
    let id = text(CUIDModifier::new().call(Value::Null, Some("cabc".to_string())).unwrap());
    assert_eq!(id, "cabc");
    assert!(CUIDModifier::new().call(Value::Null, None).is_err());
    let v = ValidateWithModifier::new(vec!["isEven".to_string()]);
    assert!(matches!(v.call(Value::Int(2), Ok(Value::Int(2))), Ok(Value::Int(2))));
    let failed = PipelineError { kind: PipelineErrorKind::Invalid, message: "odd".to_string() };
    let e = v.call(Value::Int(3), Err(failed)).unwrap_err();
    assert_eq!(e.kind, PipelineErrorKind::InternalServerError);
    assert_eq!(e.message, "odd");
}

#[test]
fn crlf_lines_lose_their_carriage_return() {
    assert_eq!(lines_of("a\r\nb\r\n"), vec!["a", "b", ""]);
}

#[test]
fn enum_columns_have_no_decoder() {
    let t = FieldType::Enum("Role".to_string());
    assert_eq!(RowDecoder::decode(&t, false, None), DecodeStep::Unhandled);
    assert_eq!(RowDecoder::decode(&t, true, Some(false)), DecodeStep::Unhandled);
}

#[test]
fn import_candidate_choice() {
    use_choose();
}

fn use_choose() {
    assert_eq!(teo::loader::choose_candidate(&vec![(true, true), (true, false), (false, false)]), Some(1));
    assert_eq!(teo::loader::choose_candidate(&vec![(true, false), (true, false), (true, false)]), Some(0));
    assert_eq!(teo::loader::choose_candidate(&vec![(false, false), (false, false), (true, true)]), Some(2));
    assert_eq!(teo::loader::choose_candidate(&vec![(true, true), (false, false), (false, false)]), None);
}
