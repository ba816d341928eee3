use teo::ast::{ArithOp, Arity, ConfigKind, Expression, Top};
use teo::diagnostics::{Diagnostics, DiagnosticsLog};
use teo::expr::parse_expression;
use teo::lexer::{tokenize, TokenKind};
use teo::loader::{import_candidates, import_requests, ImportLoader};
use teo::parser::{parse_type, ASTParser};
use teo::resolver::{resolve, DecoratorRegistry, Reference, ResolvedType, Resolution};
use teo::value::FieldType;

fn numeric(e: &Expression) -> &str {
    match e {
        Expression::Numeric(n, _) => n.as_str(),
        other => panic!("not a number: {:?}", other),
    }
}

#[test]
fn precedence_of_multiplication_over_addition() {
    let tokens = tokenize("2 + 3 * 4").unwrap();
    let (e, p) = parse_expression(&tokens, 0).unwrap();
    assert_eq!(p, tokens.len());
    match e {
        Expression::BinaryOp(lhs, ArithOp::Add, rhs) => {
            assert_eq!(numeric(&lhs), "2");
            match *rhs {
                Expression::BinaryOp(a, ArithOp::Mul, b) => {
                    assert_eq!(numeric(&a), "3");
                    assert_eq!(numeric(&b), "4");
                }
                other => panic!("unexpected {:?}", other),
            }
        }
        other => panic!("unexpected {:?}", other),
    }
}

#[test]
fn operators_of_equal_precedence_associate_left() {
    let tokens = tokenize("8 - 2 - 1 | 4").unwrap();
    let (e, _) = parse_expression(&tokens, 0).unwrap();
    match e {
        Expression::BinaryOp(lhs, ArithOp::BitOr, rhs) => {
            assert_eq!(numeric(&rhs), "4");
            match *lhs {
                Expression::BinaryOp(inner, ArithOp::Sub, one) => {
                    assert_eq!(numeric(&one), "1");
                    assert!(matches!(*inner, Expression::BinaryOp(_, ArithOp::Sub, _)));
                }
                other => panic!("unexpected {:?}", other),
            }
        }
        other => panic!("unexpected {:?}", other),
    }
}

#[test]
fn units_literals_and_coalescing() {
    let tokens = tokenize("a.b(1, x: \"s\")[0] ?? .active ?? [1, 2,] ?? {\"k\": null}").unwrap();
    let (e, p) = parse_expression(&tokens, 0).unwrap();
    assert_eq!(p, tokens.len());
    match e {
        Expression::NullishCoalescing(items, _) => {
            assert_eq!(items.len(), 4);
            match &items[0] {
                Expression::Unit(elements, _) => assert_eq!(elements.len(), 4),
                other => panic!("unexpected {:?}", other),
            }
            assert!(matches!(&items[1], Expression::EnumChoice(_, None, _)));
            match &items[2] {
                Expression::Array(elements, _) => assert_eq!(elements.len(), 2),
                other => panic!("unexpected {:?}", other),
            }
            assert!(matches!(&items[3], Expression::Dictionary(_, _)));
        }
        other => panic!("unexpected {:?}", other),
    }
}

#[test]
fn single_element_unit_is_not_wrapped() {
    let tokens = tokenize("name").unwrap();
    let (e, _) = parse_expression(&tokens, 0).unwrap();
    assert!(matches!(e, Expression::Identifier(_)));
}

#[test]
fn tokenizer_spans_and_doc_comments() {
    let tokens = tokenize("/// hi\nmodel  A // note\n").unwrap();
    assert_eq!(tokens.len(), 3);
    assert_eq!(tokens[0].kind, TokenKind::DocComment);
    assert_eq!(tokens[1].text, "model");
    assert_eq!(tokens[1].span.start_position, (2, 1));
    assert_eq!(tokens[2].span.start, 14);
    assert!(tokenize("\"open").is_err());
}

const SCHEMA: &str = "
import \"./other\"

/// @name Users
/// People who sign in.
@map(\"users\")
model User {
  @id @autoIncrement
  id: Int
  name: String?
  tags: String[]
  role: Role
  posts: Post[]
}

enum Role {
  admin
  @map(\"u\") user
}

model Post {
  id: Int @id
  author: User
}

let limit = User

server {
  bind (\"0.0.0.0\", 5100)
}

client ts {
  provider .typeScript
}
";

#[test]
fn parse_source_builds_declarations() {
    let mut parser = ASTParser::new();
    let mut diagnostics = Diagnostics::new();
    let id = parser.parse_source("/s/schema.teo".to_string(), SCHEMA, &mut diagnostics).unwrap();
    assert!(!diagnostics.has_errors());
    let source = parser.get_source(id).unwrap();
    assert_eq!(source.tops.len(), 7);
    assert_eq!(source.imports.len(), 1);
    assert_eq!(source.models.len(), 2);
    assert_eq!(source.enums.len(), 1);
    assert_eq!(source.constants.len(), 1);
    match &source.tops[1] {
        Top::Model(m) => {
            assert_eq!(m.identifier.name, "User");
            assert_eq!(m.fields.len(), 5);
            assert_eq!(m.fields[0].decorators.len(), 2);
            assert!(!m.fields[1].field_type.item_required);
            let c = m.comment_block.as_ref().unwrap();
            assert_eq!(c.name.as_deref(), Some("Users"));
            assert_eq!(c.desc.as_deref(), Some("People who sign in."));
            assert_eq!(m.decorators.len(), 1);
        }
        other => panic!("unexpected {:?}", other),
    }
    assert!(parser.server.is_some());
    assert_eq!(parser.clients.len(), 1);
    let ids: Vec<usize> = source.tops.iter().map(|t| t.id()).collect();
    assert!(ids.windows(2).all(|w| w[0] < w[1]));
    assert!(ids.iter().all(|i| *i > id));
}

#[test]
fn duplicated_server_block_in_one_file_is_fatal() {
    let mut parser = ASTParser::new();
    let mut diagnostics = Diagnostics::new();
    let r = parser.parse_source("/a.teo".to_string(), "server { }\nserver { }\n", &mut diagnostics);
    assert!(r.is_err());
    assert!(diagnostics.has_errors());
    assert_eq!(diagnostics.errors()[0].message(), "Duplicated configuration found.");
    assert!(parser.server.is_none());
}

#[test]
fn duplicated_server_block_across_files_is_fatal() {
    let mut parser = ASTParser::new();
    let mut diagnostics = Diagnostics::new();
    parser.parse_source("/a.teo".to_string(), "server { }\n", &mut diagnostics).unwrap();
    let r = parser.parse_source("/b.teo".to_string(), "connector { }\nserver { }\n", &mut diagnostics);
    assert!(r.is_err());
    assert!(diagnostics.has_errors());
    assert!(parser.connector.is_none());
    assert_eq!(parser.sources.len(), 1);
}

#[test]
fn entity_and_client_blocks_accumulate() {
    let mut parser = ASTParser::new();
    let mut diagnostics = Diagnostics::new();
    parser.parse_source("/a.teo".to_string(), "entity a { }\nentity b { }\nclient c { }\nclient d { }\n", &mut diagnostics).unwrap();
    assert_eq!(parser.entities.len(), 2);
    assert_eq!(parser.clients.len(), 2);
}

#[test]
fn unknown_top_level_content_is_fatal() {
    let mut parser = ASTParser::new();
    let mut diagnostics = Diagnostics::new();
    let r = parser.parse_source("/a.teo".to_string(), "model A {\n id: Int\n}\nbanana { }\n", &mut diagnostics);
    assert!(r.is_err());
    assert_eq!(diagnostics.errors()[0].message(), "SyntaxError: Unexpected content.");
    assert_eq!(diagnostics.errors()[0].span().start_position, (4, 1));
}

#[test]
fn same_path_is_parsed_once() {
    let mut parser = ASTParser::new();
    let mut diagnostics = Diagnostics::new();
    let a = parser.parse_source("/s/other.teo".to_string(), "model A {\n id: Int\n}\n", &mut diagnostics).unwrap();
    let b = parser.parse_source("/s/other.teo".to_string(), "model B {\n id: Int\n}\n", &mut diagnostics).unwrap();
    assert_eq!(a, b);
    assert_eq!(parser.sources.len(), 1);
    assert_eq!(parser.models.len(), 1);
}

#[test]
fn loader_visits_imports_depth_first_and_once() {
    let mut parser = ASTParser::new();
    let mut diagnostics = Diagnostics::new();
    let mut loader = ImportLoader::new("/s/main.teo".to_string());
    let main = loader.next_path(&parser).unwrap();
    assert_eq!(main, "/s/main.teo");
    parser.parse_source(main, "import \"./a\"\nimport \"./b\"\n", &mut diagnostics).unwrap();
    let requests = import_requests(&parser, 0).unwrap();
    assert_eq!(requests.len(), 2);
    assert_eq!(requests[0].relative, "./a");
    assert_eq!(requests[0].candidates, vec!["/s/./a", "/s/./a.teo", "/s/./a/index.teo"]);
    loader.push_imports(vec!["/s/a.teo".to_string(), "/s/b.teo".to_string()]);
    let next = loader.next_path(&parser).unwrap();
    assert_eq!(next, "/s/a.teo");
    parser.parse_source(next, "import \"b\"\n", &mut diagnostics).unwrap();
    loader.push_imports(vec!["/s/b.teo".to_string()]);
    let next = loader.next_path(&parser).unwrap();
    assert_eq!(next, "/s/b.teo");
    parser.parse_source(next, "import \"main.teo\"\n", &mut diagnostics).unwrap();
    loader.push_imports(vec!["/s/main.teo".to_string()]);
    assert_eq!(loader.next_path(&parser), None);
    assert_eq!(parser.sources.len(), 3);
}

#[test]
fn import_candidates_follow_the_three_steps() {
    assert_eq!(import_candidates("/x/y/main.teo", "../lib"), vec!["/x/y/../lib", "/x/y/../lib.teo", "/x/y/../lib/index.teo"]);
    assert_eq!(import_candidates("main.teo", "/abs/f.teo"), vec!["/abs/f.teo", "/abs/f.teo.teo", "/abs/f.teo/index.teo"]);
    assert_eq!(import_candidates("main.teo", "f"), vec!["./f", "./f.teo", "./f/index.teo"]);
}

fn registry() -> DecoratorRegistry {
    DecoratorRegistry {
        model: vec!["map".to_string()],
        field: vec!["id".to_string(), "autoIncrement".to_string(), "map".to_string()],
        relation: vec![],
        property: vec![],
    }
}

#[test]
fn resolver_types_fields_and_is_idempotent() {
    let mut parser = ASTParser::new();
    let mut diagnostics = Diagnostics::new();
    parser.parse_source("/s/schema.teo".to_string(), SCHEMA, &mut diagnostics).unwrap();
    let mut table = Resolution { resolved: vec![], field_types: vec![], references: vec![] };
    resolve(&parser, &registry(), &mut table, &mut diagnostics);
    assert!(!diagnostics.has_errors());
    assert_eq!(table.resolved.len(), 7);
    assert_eq!(table.field_types.len(), 7);
    assert!(matches!(table.field_types[0].resolved_type, ResolvedType::Scalar(FieldType::I32)));
    assert!(matches!(&table.field_types[2].resolved_type, ResolvedType::Scalar(FieldType::Array(_, false))));
    assert!(matches!(&table.field_types[3].resolved_type, ResolvedType::Scalar(FieldType::Enum(n)) if n == "Role"));
    assert!(matches!(table.field_types[4].resolved_type, ResolvedType::Model(_)));
    assert_eq!(table.references.len(), 1);
    assert!(table.references[0].1.is_model_ref());
    let before = (table.resolved.clone(), table.field_types.len(), table.references.len());
    resolve(&parser, &registry(), &mut table, &mut diagnostics);
    assert_eq!(before, (table.resolved.clone(), table.field_types.len(), table.references.len()));
    assert!(!diagnostics.has_errors());
}

#[test]
fn resolver_reports_unknown_names() {
    let mut parser = ASTParser::new();
    let mut diagnostics = Diagnostics::new();
    parser.parse_source("/s/x.teo".to_string(), "model A {\n  @weird\n  b: Nope\n  c: Int @weird\n}\nlet k = missing\n", &mut diagnostics).unwrap();
    let mut table = Resolution { resolved: vec![], field_types: vec![], references: vec![] };
    resolve(&parser, &registry(), &mut table, &mut diagnostics);
    let messages: Vec<String> = diagnostics.errors().iter().map(|e| e.message().to_string()).collect();
    assert_eq!(messages, vec!["Unresolved type 'Nope'.", "Undefined decorator '@weird'.", "Unresolved reference 'missing'."]);
    let count = diagnostics.errors().len();
    resolve(&parser, &registry(), &mut table, &mut diagnostics);
    assert_eq!(diagnostics.errors().len(), count);
    let r = Reference::ConstantReference(teo::resolver::IdReference { source_id: 1, top_id: 2 });
    assert!(r.is_constant_ref() && !r.is_model_ref());
    assert_eq!(ConfigKind::Server, ConfigKind::Server);
}

#[test]
fn interfaces_actions_and_datasets() {
    let text = "
interface Page<T> extends Base, Other<T> {
  items: T[]
  count: Int?
}
actions Auth {
  signIn: SignInInput -> SignInOutput
  upload: form UploadInput -> Result<String>[]?
}
dataset default autoseed {
  group User {
    record john { \"name\": \"John\" }
    record jane { \"name\": \"Jane\" }
  }
}
middleware timing(limit: Int)
";
    let mut parser = ASTParser::new();
    let mut diagnostics = Diagnostics::new();
    parser.parse_source("/s/i.teo".to_string(), text, &mut diagnostics).unwrap();
    assert!(!diagnostics.has_errors());
    let interfaces = parser.interfaces();
    assert_eq!(interfaces.len(), 1);
    assert_eq!(interfaces[0].name.args.len(), 1);
    assert_eq!(interfaces[0].extends.len(), 2);
    assert_eq!(interfaces[0].items.len(), 2);
    assert!(interfaces[0].items[1].kind.optional);
    let groups = parser.action_groups();
    assert_eq!(groups[0].actions.len(), 2);
    assert_eq!(groups[0].actions[1].input_format, teo::ast::ActionInputFormat::Form);
    assert!(groups[0].actions[1].output_type.collection_optional);
    match &parser.sources[0].tops[2] {
        Top::DataSet(d) => {
            assert!(d.auto_seed && !d.notrack);
            assert_eq!(d.groups[0].records.len(), 2);
            assert!(d.groups[0].records[0].id < d.groups[0].records[1].id);
        }
        other => panic!("unexpected {:?}", other),
    }
    assert_eq!(parser.middlewares().len(), 1);
    assert_eq!(parser.data_sets.len(), 1);
}

#[test]
fn session_getters_find_declarations() {
    let mut parser = ASTParser::new();
    let mut diagnostics = Diagnostics::new();
    parser.parse_source("/s/schema.teo".to_string(), SCHEMA, &mut diagnostics).unwrap();
    assert_eq!(parser.server().unwrap().kind, ConfigKind::Server);
    assert!(parser.connector().is_none() && parser.debug().is_none() && parser.test().is_none());
    assert_eq!(parser.clients().len(), 1);
    assert_eq!(parser.entities().len(), 0);
    let names: Vec<&str> = parser.models().iter().map(|m| m.identifier.name.as_str()).collect();
    assert_eq!(names, vec!["User", "Post"]);
    assert_eq!(parser.enums()[0].choices.len(), 2);
    assert_eq!(parser.enums()[0].choices[1].decorators.len(), 1);
}

#[test]
fn field_types_and_constant_references_resolve_by_name() {
    let mut parser = ASTParser::new();
    let mut diagnostics = Diagnostics::new();
    parser.parse_source("/s/schema.teo".to_string(), SCHEMA, &mut diagnostics).unwrap();
    let source = &parser.sources[0];
    match (&source.tops[1], &source.tops[4]) {
        (Top::Model(user), Top::Constant(limit)) => {
            let tags = teo::resolver::resolve_field_type(&parser, &user.fields[2].field_type);
            assert!(matches!(tags, Some(ResolvedType::Scalar(FieldType::Array(_, false)))));
            let role = teo::resolver::resolve_field_type(&parser, &user.fields[3].field_type);
            assert!(matches!(role, Some(ResolvedType::Scalar(FieldType::Enum(ref n))) if n == "Role"));
            let r = teo::resolver::resolve_constant_reference(&parser, limit).unwrap();
            assert_eq!(r.as_model_ref().unwrap().top_id, user.id);
        }
        other => panic!("unexpected {:?}", other),
    }
}

#[test]
fn interface_and_action_types_are_checked() {
    let text = "
interface Base { id: Int }
interface Page<T> extends Base { items: T[] next: Missing? }
actions Auth { signIn: Page<Base> -> Unknown }
";
    let mut parser = ASTParser::new();
    let mut diagnostics = Diagnostics::new();
    parser.parse_source("/s/t.teo".to_string(), text, &mut diagnostics).unwrap();
    let mut table = Resolution { resolved: vec![], field_types: vec![], references: vec![] };
    resolve(&parser, &registry(), &mut table, &mut diagnostics);
    let messages: Vec<String> = diagnostics.errors().iter().map(|e| e.message().to_string()).collect();
    assert_eq!(messages, vec!["Unresolved type 'Missing'.", "Unresolved type 'Unknown'."]);
}

#[test]
fn full_precedence_order() {
    let tokens = tokenize("a | b ^ c & d + e * f").unwrap();
    let (e, _) = parse_expression(&tokens, 0).unwrap();
    match e {
        Expression::BinaryOp(_, ArithOp::BitOr, r1) => match *r1 {
            Expression::BinaryOp(_, ArithOp::BitXor, r2) => match *r2 {
                Expression::BinaryOp(_, ArithOp::BitAnd, r3) => match *r3 {
                    Expression::BinaryOp(_, ArithOp::Add, r4) => assert!(matches!(*r4, Expression::BinaryOp(_, ArithOp::Mul, _))),
                    other => panic!("unexpected {:?}", other),
                },
                other => panic!("unexpected {:?}", other),
            },
            other => panic!("unexpected {:?}", other),
        },
        other => panic!("unexpected {:?}", other),
    }
}

#[test]
fn type_suffixes() {
    let cases = [("String?[]", Arity::Array, false, true), ("String[]?", Arity::Array, true, false), ("Int{}", Arity::Dictionary, true, true), ("Int?", Arity::Scalar, false, true)];
    for (text, arity, item, collection) in cases {
        let tokens = tokenize(text).unwrap();
        let (t, p) = parse_type(&tokens, 0).unwrap();
        assert_eq!(p, tokens.len());
        assert_eq!((t.arity, t.item_required, t.collection_required), (arity, item, collection));
    }
}

#[test]
fn next_path_keeps_earlier_unregistered_paths() {
    let mut parser = ASTParser::new();
    let mut diagnostics = Diagnostics::new();
    parser.parse_source("/s/b.teo".to_string(), "", &mut diagnostics).unwrap();
    let mut loader = ImportLoader::new("/s/a.teo".to_string());
    loader.push_imports(vec!["/s/c.teo".to_string(), "/s/b.teo".to_string()]);
    assert_eq!(loader.pending, vec!["/s/a.teo", "/s/b.teo", "/s/c.teo"]);
    assert_eq!(loader.next_path(&parser).as_deref(), Some("/s/c.teo"));
    assert_eq!(loader.pending, vec!["/s/a.teo", "/s/b.teo"]);
    assert_eq!(loader.next_path(&parser).as_deref(), Some("/s/a.teo"));
    assert!(loader.pending.is_empty());
}

#[test]
fn invalid_escape_in_import_is_an_error() {
    let mut parser = ASTParser::new();
    let mut diagnostics = Diagnostics::new();
    parser.parse_source("/s/a.teo".to_string(), "import \"./a\\q\"\n", &mut diagnostics).unwrap();
    assert!(import_requests(&parser, 0).is_err());
}

#[test]
fn parse_tokens_reports_duplicates_and_unsupported_content() {
    let mut parser = ASTParser::new();
    let mut diagnostics = Diagnostics::new();
    let tokens = tokenize("server { }\nserver { }\n").unwrap();
    assert!(parser.parse_tokens("/x.teo".to_string(), &tokens, &mut diagnostics).is_err());
    assert_eq!(diagnostics.errors().last().unwrap().message(), "Duplicated configuration found.");
    let tokens = tokenize("debug { }\nfoo { }\n").unwrap();
    assert!(parser.parse_tokens("/y.teo".to_string(), &tokens, &mut diagnostics).is_err());
    assert_eq!(diagnostics.errors().last().unwrap().message(), "SyntaxError: Unexpected content.");
    let tokens = tokenize("test { }\nentity e { }\n").unwrap();
    let id = parser.parse_tokens("/z.teo".to_string(), &tokens, &mut diagnostics).unwrap();
    assert_eq!(parser.get_source(id).unwrap().tops.len(), 2);
    let tokens = tokenize("test { }\n").unwrap();
    assert!(parser.parse_tokens("/w.teo".to_string(), &tokens, &mut diagnostics).is_err());
    assert_eq!(diagnostics.errors().last().unwrap().message(), "Duplicated configuration found.");
}
