//! The declaration parser and the compilation session that holds every parsed
//! source of one load, the lookup tables of declarations by (source id, item
//! id), and the id counter.
use vstd::prelude::*;
use crate::ast::{
    ASTEnum, ASTField, ASTImport, ASTModel, ActionDeclaration, ActionGroupDeclaration, ActionInputFormat, Arity,
    CommentBlock, ConfigBlock, ConfigItem, ConfigKind, Constant, DataSet, DataSetGroup, DataSetRecord, Decorator,
    EnumChoice, Identifier, InterfaceDeclaration, InterfaceItemDeclaration, InterfaceType, MiddlewareDeclaration,
    Source, Top, TypeExpr,
};
use crate::diagnostics::{Diagnostics, DiagnosticsError, LogRecord, Span};
use crate::expr::{error_at, identifier_at, is_symbol, kind_at, parse_chain, parse_expression, span_of, symbol_at, word_at, ParseError};
use crate::grammar::{declarations, item_end, Outcome, Shape, itype_end, itype_args_end, extends_end, interface_body_end, interface_end, action_end, actions_body_end, actions_end, flags_end, records_end, groups_end, dataset_end, choice_end, config_body_end, config_end, decorators_end, doc_end, enum_body_end, enum_end, field_end, import_end, let_end, middleware_end, model_body_end, model_end, names_end, parens_end, type_end};
use crate::lexer::{tokenize, Token, TokenKind};
use crate::text::{chars_of, str_eq, string_of, trim, trimmed};

verus! {

/// The number of configuration blocks of kind `k` among the declarations.
pub open spec fn tops_config_count(tops: Seq<Top>, k: ConfigKind) -> nat
    decreases tops.len(),
{
    if tops.len() == 0 {
        0
    } else {
        tops_config_count(tops.drop_last(), k) + if tops.last() matches Top::Config(c) && c.kind == k {
            1nat
        } else {
            0nat
        }
    }
}

/// The number of configuration blocks of kind `k` in all the sources.
pub open spec fn config_count(sources: Seq<Source>, k: ConfigKind) -> nat
    decreases sources.len(),
{
    if sources.len() == 0 {
        0
    } else {
        config_count(sources.drop_last(), k) + tops_config_count(sources.last().tops@, k)
    }
}

/// A singleton slot is filled exactly when its one block exists.
pub open spec fn slot_matches(slot: Option<(usize, usize)>, count: nat) -> bool {
    count <= 1 && (slot is Some <==> count == 1)
}

pub open spec fn has_path(sources: Seq<Source>, path: Seq<char>) -> bool {
    exists|i: int| 0 <= i < sources.len() && #[trigger] sources[i].path@ == path
}

/// No two sources share a path.
pub open spec fn paths_distinct(sources: Seq<Source>) -> bool {
    forall|i: int, j: int|
        0 <= i < sources.len() && 0 <= j < sources.len() && i != j ==> #[trigger] sources[i].path@
            != #[trigger] sources[j].path@
}

pub open spec fn ids_below(sources: Seq<Source>, bound: usize) -> bool {
    forall|i: int|
        0 <= i < sources.len() ==> #[trigger] sources[i].id < bound && forall|k: int|
            0 <= k < sources[i].tops@.len() ==> #[trigger] sources[i].tops@[k].spec_id() < bound
}

/// The compilation session of one schema load.
#[derive(Debug)]
pub struct ASTParser {
    pub sources: Vec<Source>,
    pub constants: Vec<(usize, usize)>,
    pub enums: Vec<(usize, usize)>,
    pub models: Vec<(usize, usize)>,
    pub connector: Option<(usize, usize)>,
    pub server: Option<(usize, usize)>,
    pub entities: Vec<(usize, usize)>,
    pub clients: Vec<(usize, usize)>,
    pub debug_conf: Option<(usize, usize)>,
    pub test_conf: Option<(usize, usize)>,
    pub middlewares: Vec<(usize, usize)>,
    pub data_sets: Vec<(usize, usize)>,
    pub interfaces: Vec<(usize, usize)>,
    pub action_groups: Vec<(usize, usize)>,
    pub next_id: usize,
}

/// `desc` extended by one more line of documentation.
pub open spec fn appended_desc(desc: Seq<char>, doc: Seq<char>) -> Seq<char> {
    if desc.len() == 0 {
        trimmed(doc)
    } else {
        desc + seq![' '] + trimmed(doc)
    }
}

/// Adds one line of documentation to a description.
pub fn append_doc_desc(desc: String, doc: String) -> (r: String)
    ensures
        r@ == appended_desc(desc@, doc@),
{
    let d = trim(doc.as_str());
    if desc.as_str().unicode_len() == 0 {
        d
    } else {
        let mut out = desc;
        out.push(' ');
        out.append(d.as_str());
        out
    }
}

pub open spec fn is_tag_char(c: char) -> bool {
    ('a' <= c && c <= 'z') || ('A' <= c && c <= 'Z') || c == '_'
}

/// Where the run of tag characters that starts at `k` ends.
pub open spec fn tag_end(t: Seq<char>, k: int) -> int
    decreases t.len() - k,
{
    if 0 <= k < t.len() && is_tag_char(t[k]) {
        tag_end(t, k + 1)
    } else {
        k
    }
}

/// A documentation line split into its `@word` tag, if it starts with one,
/// and its content, both without surrounding blanks.
pub open spec fn comment_line(text: Seq<char>) -> (Option<Seq<char>>, Seq<char>) {
    let t = trimmed(text);
    if t.len() > 0 && t[0] == '@' {
        let e = tag_end(t, 1);
        (Some(t.subrange(0, e)), trimmed(t.subrange(e, t.len() as int)))
    } else {
        (None, t)
    }
}

/// The name and the description that documentation lines give.
pub open spec fn doc_of(texts: Seq<Seq<char>>) -> (Seq<char>, Seq<char>)
    decreases texts.len(),
{
    if texts.len() == 0 {
        (Seq::empty(), Seq::empty())
    } else {
        let prev = doc_of(texts.drop_last());
        let line = comment_line(texts.last());
        match line.0 {
            Some(tag) => if tag == "@name"@ {
                (line.1, prev.1)
            } else if tag == "@description"@ {
                (prev.0, appended_desc(prev.1, line.1))
            } else {
                prev
            },
            None => (prev.0, appended_desc(prev.1, line.1)),
        }
    }
}

pub open spec fn texts_of(tokens: Seq<Token>) -> Seq<Seq<char>> {
    tokens.map_values(|t: Token| t.text@)
}

/// Splits a documentation line into its leading `@word` tag, if any, and its content.
pub fn parse_comment_line(text: &str) -> (r: (Option<String>, String))
    ensures
        comment_line(text@) == (match r.0 {
            Some(t) => Some(t@),
            None => None,
        }, r.1@),
{
    let t = trim(text);
    let cs = chars_of(t.as_str());
    let n = cs.len();
    if n > 0 && cs[0] == '@' {
        let mut k: usize = 1;
        while k < n && (('a' <= cs[k] && cs[k] <= 'z') || ('A' <= cs[k] && cs[k] <= 'Z') || cs[k] == '_')
            invariant
                1 <= k <= n == cs@.len(),
                tag_end(cs@, 1) == tag_end(cs@, k as int),
            decreases n - k,
        {
            k = k + 1;
        }
        let token = string_of(&cs, 0, k);
        let rest = string_of(&cs, k, n);
        (Some(token), trim(rest.as_str()))
    } else {
        (None, t)
    }
}

/// Consecutive `///` lines: `@name` gives the name, `@description` and untagged
/// lines make up the description.
pub fn parse_comment_block(tokens: &Vec<Token>, pos: usize) -> (r: (CommentBlock, usize))
    requires
        pos < tokens@.len() < usize::MAX,
        tokens@[pos as int].kind == TokenKind::DocComment,
    ensures
        r.1 == doc_end(tokens@, pos as int),
        pos < r.1 <= tokens@.len(),
        forall|k: int| pos <= k < r.1 ==> #[trigger] tokens@[k].kind == TokenKind::DocComment,
        r.1 == tokens@.len() || tokens@[r.1 as int].kind != TokenKind::DocComment,
        ({
            let d = doc_of(texts_of(tokens@.subrange(pos as int, r.1 as int)));
            &&& match r.0.name {
                Some(n) => n@ == d.0 && d.0.len() > 0,
                None => d.0.len() == 0,
            }
            &&& match r.0.desc {
                Some(n) => n@ == d.1 && d.1.len() > 0,
                None => d.1.len() == 0,
            }
        }),
{
    let mut name = String::new();
    let mut desc = String::new();
    let mut p = pos;
    while kind_at(tokens, p, TokenKind::DocComment)
        invariant
            pos <= p <= tokens@.len() < usize::MAX,
            doc_end(tokens@, pos as int) == doc_end(tokens@, p as int),
            forall|k: int| pos <= k < p ==> #[trigger] tokens@[k].kind == TokenKind::DocComment,
            doc_of(texts_of(tokens@.subrange(pos as int, p as int))) == (name@, desc@),
        decreases tokens@.len() - p,
    {
        let (token, doc) = parse_comment_line(tokens[p].text.as_str());
        proof {
            let next = texts_of(tokens@.subrange(pos as int, p + 1));
            assert(next.drop_last() =~= texts_of(tokens@.subrange(pos as int, p as int)));
            assert(next.last() == tokens@[p as int].text@);
        }
        match token {
            Some(t) => {
                if str_eq(t.as_str(), "@name") {
                    name = doc;
                } else if str_eq(t.as_str(), "@description") {
                    desc = append_doc_desc(desc, doc);
                }
            },
            None => {
                desc = append_doc_desc(desc, doc);
            },
        }
        p = p + 1;
    }
    let block = CommentBlock {
        name: if name.as_str().unicode_len() == 0 { None } else { Some(name) },
        desc: if desc.as_str().unicode_len() == 0 { None } else { Some(desc) },
        span: span_of(tokens, pos, p),
    };
    (block, p)
}

/// Decorators introduced by `marker` (`@` or `@@`), each followed by a unit.
pub fn parse_decorators(tokens: &Vec<Token>, pos: usize, marker: &str) -> (r: Result<(Vec<Decorator>, usize), ParseError>)
    requires
        pos <= tokens@.len() < usize::MAX,
    ensures
        match decorators_end(tokens@, pos as int, marker@) {
            Some(e) => r matches Ok((_, p)) && p == e,
            None => r is Err,
        },
        r matches Ok((_, p)) ==> pos <= p <= tokens@.len() && (is_symbol(tokens@, pos as int, marker@) ==> pos < p),
{
    let mut decorators: Vec<Decorator> = Vec::new();
    let mut p = pos;
    while symbol_at(tokens, p, marker)
        invariant
            pos <= p <= tokens@.len() < usize::MAX,
            decorators_end(tokens@, pos as int, marker@) == decorators_end(tokens@, p as int, marker@),
        decreases tokens@.len() - p,
    {
        let (expression, q) = parse_chain(tokens, p + 1)?;
        decorators.push(Decorator { expression, span: span_of(tokens, p, q) });
        p = q;
    }
    Ok((decorators, p))
}

/// The arity that the symbols at `q` give: `[]` an array, `{}` a dictionary.
pub open spec fn arity_at(tokens: Seq<Token>, q: int) -> Arity {
    if is_symbol(tokens, q, "["@) && is_symbol(tokens, q + 1, "]"@) {
        Arity::Array
    } else if is_symbol(tokens, q, "{"@) && is_symbol(tokens, q + 1, "}"@) {
        Arity::Dictionary
    } else {
        Arity::Scalar
    }
}

/// Where the arity symbols that start at `q` end.
pub open spec fn after_arity(tokens: Seq<Token>, q: int) -> int {
    if arity_at(tokens, q) == Arity::Scalar { q } else { q + 2 }
}

/// `Name`, then `?`, then `[]` or `{}`, then `?`.
pub fn parse_type(tokens: &Vec<Token>, pos: usize) -> (r: Result<(TypeExpr, usize), ParseError>)
    requires
        pos <= tokens@.len() < usize::MAX,
    ensures
        match type_end(tokens@, pos as int) {
            Some(e) => r matches Ok((_, p)) && p == e,
            None => r is Err,
        },
        r matches Ok((t, p)) ==> {
            &&& pos < p <= tokens@.len()
            &&& t.identifier.name@ == tokens@[pos as int].text@
            &&& t.identifier.span == tokens@[pos as int].span
            &&& t.item_required == !is_symbol(tokens@, pos + 1, "?"@)
            &&& ({
                let q = if t.item_required { pos + 1 } else { pos + 2 };
                let q2 = after_arity(tokens@, q);
                &&& t.arity == arity_at(tokens@, q)
                &&& t.collection_required == !(t.arity != Arity::Scalar && is_symbol(tokens@, q2, "?"@))
                &&& p == if t.collection_required { q2 } else { q2 + 1 }
            })
        },
        r is Err <==> !(pos < tokens@.len() && tokens@[pos as int].kind == TokenKind::Identifier),
{
    if !kind_at(tokens, pos, TokenKind::Identifier) {
        return Err(error_at(tokens, pos));
    }
    let identifier = identifier_at(tokens, pos);
    let mut p = pos + 1;
    let mut arity = Arity::Scalar;
    let mut item_required = true;
    let mut collection_required = true;
    if symbol_at(tokens, p, "?") {
        item_required = false;
        p = p + 1;
    }
    if symbol_at(tokens, p, "[") && symbol_at(tokens, p + 1, "]") {
        arity = Arity::Array;
        p = p + 2;
    } else if symbol_at(tokens, p, "{") && symbol_at(tokens, p + 1, "}") {
        arity = Arity::Dictionary;
        p = p + 2;
    }
    if arity != Arity::Scalar && symbol_at(tokens, p, "?") {
        collection_required = false;
        p = p + 1;
    }
    Ok((TypeExpr { identifier, arity, item_required, collection_required, span: span_of(tokens, pos, p) }, p))
}

/// A field: documentation, decorators, `name: Type`, and decorators after the type.
pub fn parse_field(tokens: &Vec<Token>, pos: usize) -> (r: Result<(ASTField, usize), ParseError>)
    requires
        pos < tokens@.len() < usize::MAX,
    ensures
        match field_end(tokens@, pos as int) {
            Some(e) => r matches Ok((_, p)) && p == e,
            None => r is Err,
        },
        r matches Ok((_, p)) ==> pos < p <= tokens@.len(),
{
    let mut p = pos;
    let mut comment_block: Option<CommentBlock> = None;
    if kind_at(tokens, p, TokenKind::DocComment) {
        let (block, q) = parse_comment_block(tokens, p);
        comment_block = Some(block);
        p = q;
    }
    let (mut decorators, q) = parse_decorators(tokens, p, "@")?;
    p = q;
    if !kind_at(tokens, p, TokenKind::Identifier) {
        return Err(error_at(tokens, p));
    }
    let identifier = identifier_at(tokens, p);
    p = p + 1;
    if symbol_at(tokens, p, ":") {
        p = p + 1;
    }
    let (field_type, q) = parse_type(tokens, p)?;
    p = q;
    let (mut after, q) = parse_decorators(tokens, p, "@")?;
    p = q;
    decorators.append(&mut after);
    let field = ASTField {
        comment_block,
        identifier,
        field_type,
        decorators,
        span: span_of(tokens, pos, p),
    };
    Ok((field, p))
}

/// `model Name { fields and @@decorators }` starting at the keyword.
pub fn parse_model(
    tokens: &Vec<Token>,
    pos: usize,
    start: usize,
    source_id: usize,
    item_id: usize,
    comment_block: Option<CommentBlock>,
    decorators: Vec<Decorator>,
) -> (r: Result<(ASTModel, usize), ParseError>)
    requires
        start <= pos < tokens@.len() < usize::MAX,
    ensures
        match model_end(tokens@, pos as int) {
            Some(e) => r matches Ok((_, p)) && p == e,
            None => r is Err,
        },
        r matches Ok((m, p)) ==> pos < p <= tokens@.len() && m.id == item_id && m.source_id == source_id,
        r matches Ok((m, _)) ==> m.identifier.name == tokens@[pos + 1].text && tokens@[pos + 1].kind == TokenKind::Identifier,
        !(pos + 1 < tokens@.len() && tokens@[pos + 1].kind == TokenKind::Identifier && is_symbol(tokens@, pos + 2, "{"@)) ==> r is Err,
{
    let mut decorators = decorators;
    if !kind_at(tokens, pos + 1, TokenKind::Identifier) || !symbol_at(tokens, pos + 2, "{") {
        return Err(error_at(tokens, pos + 1));
    }
    let identifier = identifier_at(tokens, pos + 1);
    let mut fields: Vec<ASTField> = Vec::new();
    let mut p = pos + 3;
    loop
        invariant_except_break
            model_end(tokens@, pos as int) == model_body_end(tokens@, p as int),
        invariant
            pos < p <= tokens@.len() < usize::MAX,
        ensures
            pos < p <= tokens@.len(),
            model_end(tokens@, pos as int) == Some(p as int),
        decreases tokens@.len() - p,
    {
        if p >= tokens.len() {
            return Err(error_at(tokens, p));
        }
        if symbol_at(tokens, p, "}") {
            p = p + 1;
            break;
        }
        if symbol_at(tokens, p, "@@") {
            let (mut more, q) = parse_decorators(tokens, p, "@@")?;
            decorators.append(&mut more);
            p = q;
        } else {
            let (field, q) = parse_field(tokens, p)?;
            fields.push(field);
            p = q;
        }
    }
    let model = ASTModel {
        id: item_id,
        source_id,
        identifier,
        comment_block,
        fields,
        decorators,
        span: span_of(tokens, start, p),
    };
    Ok((model, p))
}

/// An enum choice: documentation, decorators and a name.
pub fn parse_enum_choice(tokens: &Vec<Token>, pos: usize) -> (r: Result<(EnumChoice, usize), ParseError>)
    requires
        pos < tokens@.len() < usize::MAX,
    ensures
        match choice_end(tokens@, pos as int) {
            Some(e) => r matches Ok((_, p)) && p == e,
            None => r is Err,
        },
        r matches Ok((_, p)) ==> pos < p <= tokens@.len(),
{
    let mut p = pos;
    let mut comment: Option<CommentBlock> = None;
    if kind_at(tokens, p, TokenKind::DocComment) {
        let (block, q) = parse_comment_block(tokens, p);
        comment = Some(block);
        p = q;
    }
    let (choice_decorators, q) = parse_decorators(tokens, p, "@")?;
    p = q;
    if !kind_at(tokens, p, TokenKind::Identifier) {
        return Err(error_at(tokens, p));
    }
    let name = identifier_at(tokens, p);
    p = p + 1;
    Ok((EnumChoice::new(name, comment, choice_decorators, span_of(tokens, pos, p)), p))
}

/// `enum Name { choices and @@decorators }` starting at the keyword.
pub fn parse_enum(
    tokens: &Vec<Token>,
    pos: usize,
    start: usize,
    source_id: usize,
    item_id: usize,
    comment_block: Option<CommentBlock>,
    decorators: Vec<Decorator>,
) -> (r: Result<(ASTEnum, usize), ParseError>)
    requires
        start <= pos < tokens@.len() < usize::MAX,
    ensures
        match enum_end(tokens@, pos as int) {
            Some(e) => r matches Ok((_, p)) && p == e,
            None => r is Err,
        },
        r matches Ok((e, p)) ==> pos < p <= tokens@.len() && e.id == item_id && e.source_id == source_id,
        r matches Ok((e, _)) ==> e.identifier.name == tokens@[pos + 1].text && tokens@[pos + 1].kind == TokenKind::Identifier,
        !(pos + 1 < tokens@.len() && tokens@[pos + 1].kind == TokenKind::Identifier && is_symbol(tokens@, pos + 2, "{"@)) ==> r is Err,
{
    let mut decorators = decorators;
    if !kind_at(tokens, pos + 1, TokenKind::Identifier) || !symbol_at(tokens, pos + 2, "{") {
        return Err(error_at(tokens, pos + 1));
    }
    let identifier = identifier_at(tokens, pos + 1);
    let mut choices: Vec<EnumChoice> = Vec::new();
    let mut p = pos + 3;
    loop
        invariant_except_break
            enum_end(tokens@, pos as int) == enum_body_end(tokens@, p as int),
        invariant
            pos < p <= tokens@.len() < usize::MAX,
        ensures
            pos < p <= tokens@.len(),
            enum_end(tokens@, pos as int) == Some(p as int),
        decreases tokens@.len() - p,
    {
        if p >= tokens.len() {
            return Err(error_at(tokens, p));
        }
        if symbol_at(tokens, p, "}") {
            p = p + 1;
            break;
        }
        if symbol_at(tokens, p, "@@") {
            let (mut more, q) = parse_decorators(tokens, p, "@@")?;
            decorators.append(&mut more);
            p = q;
        } else {
            let (choice, q) = parse_enum_choice(tokens, p)?;
            choices.push(choice);
            p = q;
        }
    }
    Ok((ASTEnum::new(item_id, source_id, comment_block, identifier, decorators, choices, span_of(tokens, start, p)), p))
}

/// `let name = expression` starting at the keyword.
pub fn parse_let_declaration(tokens: &Vec<Token>, pos: usize, source_id: usize, item_id: usize) -> (r: Result<(Constant, usize), ParseError>)
    requires
        pos < tokens@.len() < usize::MAX,
    ensures
        match let_end(tokens@, pos as int) {
            Some(e) => r matches Ok((_, p)) && p == e,
            None => r is Err,
        },
        r matches Ok((c, p)) ==> pos < p <= tokens@.len() && c.id == item_id && c.source_id == source_id,
        r matches Ok((c, _)) ==> c.identifier.name == tokens@[pos + 1].text && tokens@[pos + 1].kind == TokenKind::Identifier,
        !(pos + 1 < tokens@.len() && tokens@[pos + 1].kind == TokenKind::Identifier && is_symbol(tokens@, pos + 2, "="@)) ==> r is Err,
{
    if !kind_at(tokens, pos + 1, TokenKind::Identifier) || !symbol_at(tokens, pos + 2, "=") {
        return Err(error_at(tokens, pos + 1));
    }
    let identifier = identifier_at(tokens, pos + 1);
    let (expression, p) = parse_expression(tokens, pos + 3)?;
    Ok((Constant { id: item_id, source_id, identifier, expression, span: span_of(tokens, pos, p) }, p))
}

/// `import "path"` or `import { a, b } from "path"`, starting at the keyword.
pub fn parse_import(tokens: &Vec<Token>, pos: usize, source_id: usize, item_id: usize) -> (r: Result<(ASTImport, usize), ParseError>)
    requires
        pos < tokens@.len() < usize::MAX,
    ensures
        match import_end(tokens@, pos as int) {
            Some(e) => r matches Ok((_, p)) && p == e,
            None => r is Err,
        },
        r matches Ok((i, p)) ==> {
            &&& pos + 1 < p <= tokens@.len()
            &&& i.id == item_id
            &&& i.source_id == source_id
            &&& tokens@[p - 1].kind == TokenKind::StringLiteral
            &&& i.source@ == tokens@[p - 1].text@
        },
        pos + 1 < tokens@.len() && tokens@[pos + 1].kind == TokenKind::StringLiteral ==> (r matches Ok((i, p))
            && p == pos + 2 && i.identifiers@.len() == 0 && i.source == tokens@[pos + 1].text),
{
    let mut identifiers: Vec<Identifier> = Vec::new();
    let mut p = pos + 1;
    if symbol_at(tokens, p, "{") {
        p = p + 1;
        loop
            invariant_except_break
                names_end(tokens@, pos + 2) == names_end(tokens@, p as int),
            invariant
                is_symbol(tokens@, pos + 1, "{"@),
                pos < p <= tokens@.len() < usize::MAX,
            ensures
                pos < p <= tokens@.len(),
                names_end(tokens@, pos + 2) == Some(p as int),
            decreases tokens@.len() - p,
        {
            if symbol_at(tokens, p, "}") {
                p = p + 1;
                break;
            }
            if !kind_at(tokens, p, TokenKind::Identifier) {
                return Err(error_at(tokens, p));
            }
            identifiers.push(identifier_at(tokens, p));
            p = p + 1;
            if symbol_at(tokens, p, ",") {
                p = p + 1;
            } else if !symbol_at(tokens, p, "}") {
                return Err(error_at(tokens, p));
            }
        }
        if !word_at(tokens, p, "from") {
            return Err(error_at(tokens, p));
        }
        p = p + 1;
    }
    if !kind_at(tokens, p, TokenKind::StringLiteral) {
        return Err(error_at(tokens, p));
    }
    let import = ASTImport {
        id: item_id,
        source_id,
        identifiers,
        source: tokens[p].text.clone(),
        source_span: tokens[p].span,
        span: span_of(tokens, pos, p + 1),
    };
    Ok((import, p + 1))
}

/// The kind of configuration block that a keyword opens.
pub open spec fn config_kind_of(keyword: Seq<char>) -> Option<ConfigKind> {
    if keyword == "server"@ {
        Some(ConfigKind::Server)
    } else if keyword == "connector"@ {
        Some(ConfigKind::Connector)
    } else if keyword == "entity"@ {
        Some(ConfigKind::Entity)
    } else if keyword == "client"@ {
        Some(ConfigKind::Client)
    } else if keyword == "debug"@ {
        Some(ConfigKind::Debug)
    } else if keyword == "test"@ {
        Some(ConfigKind::Test)
    } else {
        None
    }
}

pub fn config_kind(keyword: &str) -> (r: Option<ConfigKind>)
    ensures
        r == config_kind_of(keyword@),
{
    if str_eq(keyword, "server") {
        Some(ConfigKind::Server)
    } else if str_eq(keyword, "connector") {
        Some(ConfigKind::Connector)
    } else if str_eq(keyword, "entity") {
        Some(ConfigKind::Entity)
    } else if str_eq(keyword, "client") {
        Some(ConfigKind::Client)
    } else if str_eq(keyword, "debug") {
        Some(ConfigKind::Debug)
    } else if str_eq(keyword, "test") {
        Some(ConfigKind::Test)
    } else {
        None
    }
}

/// `keyword name? { name expression ... }` starting at the keyword.
pub fn parse_config_block(tokens: &Vec<Token>, pos: usize, kind: ConfigKind, source_id: usize, item_id: usize) -> (r: Result<(ConfigBlock, usize), ParseError>)
    requires
        pos < tokens@.len() < usize::MAX,
    ensures
        match config_end(tokens@, pos as int) {
            Some(e) => r matches Ok((_, p)) && p == e,
            None => r is Err,
        },
        r matches Ok((c, p)) ==> pos < p <= tokens@.len() && c.id == item_id && c.source_id == source_id
            && c.kind == kind,
        r matches Ok((c, _)) ==> if pos + 1 < tokens@.len() && tokens@[pos + 1].kind == TokenKind::Identifier {
            c.identifier matches Some(id) && id.name == tokens@[pos + 1].text && id.span == tokens@[pos + 1].span
        } else {
            c.identifier is None
        },
        !is_symbol(tokens@, if pos + 1 < tokens@.len() && tokens@[pos + 1].kind == TokenKind::Identifier {
            pos + 2
        } else {
            pos + 1
        }, "{"@) ==> r is Err,
        ({
            let b = if pos + 1 < tokens@.len() && tokens@[pos + 1].kind == TokenKind::Identifier { pos + 2 } else { pos + 1 };
            is_symbol(tokens@, b, "{"@) && is_symbol(tokens@, b + 1, "}"@) ==> (r matches Ok((c, p)) && c.items@.len() == 0 && p == b + 2)
        }),
{
    let mut p = pos + 1;
    let mut identifier: Option<Identifier> = None;
    if kind_at(tokens, p, TokenKind::Identifier) {
        identifier = Some(identifier_at(tokens, p));
        p = p + 1;
    }
    if !symbol_at(tokens, p, "{") {
        return Err(error_at(tokens, p));
    }
    let ghost b: int = p as int;
    let ghost empty = is_symbol(tokens@, b, "{"@) && is_symbol(tokens@, b + 1, "}"@);
    p = p + 1;
    let mut items: Vec<ConfigItem> = Vec::new();
    loop
        invariant_except_break
            empty ==> p == b + 1 && items@.len() == 0,
            config_end(tokens@, pos as int) == config_body_end(tokens@, p as int),
        invariant
            pos < p <= tokens@.len() < usize::MAX,
            empty == (is_symbol(tokens@, b, "{"@) && is_symbol(tokens@, b + 1, "}"@)),
            b == (if pos + 1 < tokens@.len() && tokens@[pos + 1].kind == TokenKind::Identifier { pos + 2 } else { pos + 1 }),
        ensures
            pos < p <= tokens@.len(),
            empty ==> p == b + 2 && items@.len() == 0,
            config_end(tokens@, pos as int) == Some(p as int),
        decreases tokens@.len() - p,
    {
        let close = symbol_at(tokens, p, "}");
        assert(empty ==> close);
        if close {
            p = p + 1;
            break;
        }
        assert(!empty);
        if kind_at(tokens, p, TokenKind::DocComment) {
            p = p + 1;
        } else {
            if !kind_at(tokens, p, TokenKind::Identifier) {
                return Err(error_at(tokens, p));
            }
            let name = identifier_at(tokens, p);
            let (expression, q) = parse_expression(tokens, p + 1)?;
            items.push(ConfigItem { identifier: name, expression, span: span_of(tokens, p, q) });
            p = q;
        }
    }
    Ok((ConfigBlock { id: item_id, source_id, kind, identifier, items, span: span_of(tokens, pos, p) }, p))
}

/// `middleware name(...)` starting at the keyword; the parameter list is skipped.
pub fn parse_middleware_declaration(tokens: &Vec<Token>, pos: usize, source_id: usize, item_id: usize) -> (r: Result<(MiddlewareDeclaration, usize), ParseError>)
    requires
        pos < tokens@.len() < usize::MAX,
    ensures
        match middleware_end(tokens@, pos as int) {
            Some(e) => r matches Ok((_, p)) && p == e,
            None => r is Err,
        },
        r matches Ok((m, p)) ==> pos < p <= tokens@.len() && m.id == item_id && m.source_id == source_id,
        r matches Ok((m, _)) ==> m.identifier.name == tokens@[pos + 1].text && tokens@[pos + 1].kind == TokenKind::Identifier,
        !(pos + 1 < tokens@.len() && tokens@[pos + 1].kind == TokenKind::Identifier) ==> r is Err,
{
    if !kind_at(tokens, pos + 1, TokenKind::Identifier) {
        return Err(error_at(tokens, pos + 1));
    }
    let identifier = identifier_at(tokens, pos + 1);
    let mut p = pos + 2;
    if symbol_at(tokens, p, "(") {
        let mut depth: usize = 1;
        p = p + 1;
        while depth > 0
            invariant
                pos < p <= tokens@.len() < usize::MAX,
                depth <= p,
                middleware_end(tokens@, pos as int) == parens_end(tokens@, p as int, depth as nat),
            decreases tokens@.len() - p,
        {
            if p >= tokens.len() {
                return Err(error_at(tokens, p));
            }
            if symbol_at(tokens, p, "(") {
                if depth == usize::MAX {
                    return Err(error_at(tokens, p));
                }
                depth = depth + 1;
            } else if symbol_at(tokens, p, ")") {
                depth = depth - 1;
            }
            p = p + 1;
        }
    }
    Ok((MiddlewareDeclaration { id: item_id, source_id, identifier, span: span_of(tokens, pos, p) }, p))
}

/// The category of a declaration.
#[derive(Clone, Copy, Debug, PartialEq, Eq, Structural)]
pub enum TopKind {
    Import,
    Constant,
    Model,
    Enum,
    Config,
    Middleware,
    DataSet,
    Interface,
    ActionGroup,
}

pub open spec fn top_kind(t: Top) -> TopKind {
    match t {
        Top::Import(_) => TopKind::Import,
        Top::Constant(_) => TopKind::Constant,
        Top::Model(_) => TopKind::Model,
        Top::Enum(_) => TopKind::Enum,
        Top::Config(_) => TopKind::Config,
        Top::Middleware(_) => TopKind::Middleware,
        Top::DataSet(_) => TopKind::DataSet,
        Top::Interface(_) => TopKind::Interface,
        Top::ActionGroup(_) => TopKind::ActionGroup,
    }
}

/// `ids` lists exactly the ids of the declarations of kind `kind`.
pub open spec fn index_matches(tops: Seq<Top>, ids: Seq<usize>, kind: TopKind) -> bool {
    forall|id: usize|
        #[trigger] ids.contains(id) <==> exists|k: int|
            0 <= k < tops.len() && top_kind(tops[k]) == kind && #[trigger] tops[k].spec_id() == id
}

/// The ids of the declarations of kind `kind`, in file order.
pub open spec fn kind_ids(tops: Seq<Top>, kind: TopKind) -> Seq<usize>
    decreases tops.len(),
{
    if tops.len() == 0 {
        Seq::empty()
    } else if top_kind(tops.last()) == kind {
        kind_ids(tops.drop_last(), kind).push(tops.last().spec_id())
    } else {
        kind_ids(tops.drop_last(), kind)
    }
}

/// The ids of the configuration blocks of kind `kind`, in file order.
pub open spec fn config_ids(tops: Seq<Top>, kind: ConfigKind) -> Seq<usize>
    decreases tops.len(),
{
    if tops.len() == 0 {
        Seq::empty()
    } else if tops.last() matches Top::Config(c) && c.kind == kind {
        config_ids(tops.drop_last(), kind).push(tops.last().spec_id())
    } else {
        config_ids(tops.drop_last(), kind)
    }
}

/// Each id paired with the id of its source, as the lookup tables hold them.
pub open spec fn paired(source_id: usize, ids: Seq<usize>) -> Seq<(usize, usize)> {
    ids.map_values(|i: usize| (source_id, i))
}

/// The declarations' ids increase in file order.
pub open spec fn ascending(tops: Seq<Top>) -> bool {
    forall|a: int, b: int| 0 <= a < b < tops.len() ==> #[trigger] tops[a].spec_id() < #[trigger] tops[b].spec_id()
}

proof fn lemma_paired_push(source_id: usize)
    ensures
        forall|ids: Seq<usize>, x: usize| #[trigger] paired(source_id, ids.push(x)) == paired(source_id, ids).push((source_id, x)),
        paired(source_id, Seq::empty()) == Seq::<(usize, usize)>::empty(),
{
    assert forall|ids: Seq<usize>, x: usize| #[trigger] paired(source_id, ids.push(x)) == paired(source_id, ids).push((source_id, x)) by {
        assert(paired(source_id, ids.push(x)) =~= paired(source_id, ids).push((source_id, x)));
    }
    assert(paired(source_id, Seq::empty()) =~= Seq::<(usize, usize)>::empty());
}

proof fn lemma_kind_ids_push(tops: Seq<Top>, t: Top)
    ensures
        forall|kind: TopKind| #[trigger] kind_ids(tops.push(t), kind) == if top_kind(t) == kind {
            kind_ids(tops, kind).push(t.spec_id())
        } else {
            kind_ids(tops, kind)
        },
        forall|kind: ConfigKind| #[trigger] config_ids(tops.push(t), kind) == if t matches Top::Config(c) && c.kind == kind {
            config_ids(tops, kind).push(t.spec_id())
        } else {
            config_ids(tops, kind)
        },
{
    assert(tops.push(t).drop_last() =~= tops);
}

/// A source's index sets partition its declarations by category, each in
/// file order, and the declarations' ids increase in file order.
pub open spec fn source_wf(s: Source) -> bool {
    &&& index_matches(s.tops@, s.imports@, TopKind::Import)
    &&& index_matches(s.tops@, s.constants@, TopKind::Constant)
    &&& index_matches(s.tops@, s.models@, TopKind::Model)
    &&& index_matches(s.tops@, s.enums@, TopKind::Enum)
    &&& s.imports@ == kind_ids(s.tops@, TopKind::Import)
    &&& s.constants@ == kind_ids(s.tops@, TopKind::Constant)
    &&& s.models@ == kind_ids(s.tops@, TopKind::Model)
    &&& s.enums@ == kind_ids(s.tops@, TopKind::Enum)
    &&& ascending(s.tops@)
    &&& forall|k: int| 0 <= k < s.tops@.len() ==> s.id < #[trigger] s.tops@[k].spec_id()
}

proof fn lemma_index_push(tops: Seq<Top>, ids: Seq<usize>, t: Top, kind: TopKind)
    requires
        index_matches(tops, ids, kind),
    ensures
        index_matches(tops.push(t), if top_kind(t) == kind { ids.push(t.spec_id()) } else { ids }, kind),
{
    let tops2 = tops.push(t);
    let ids2 = if top_kind(t) == kind { ids.push(t.spec_id()) } else { ids };
    assert forall|id: usize|
        #[trigger] ids2.contains(id) <==> exists|k: int|
            0 <= k < tops2.len() && top_kind(tops2[k]) == kind && #[trigger] tops2[k].spec_id() == id by {
        if ids2.contains(id) {
            if ids.contains(id) {
                let k = choose|k: int| 0 <= k < tops.len() && top_kind(tops[k]) == kind && #[trigger] tops[k].spec_id() == id;
                assert(tops2[k] == tops[k]);
            } else {
                let j = choose|j: int| 0 <= j < ids2.len() && ids2[j] == id;
                assert(top_kind(t) == kind);
                assert(j == ids.len());
                assert(tops2[tops.len() as int] == t);
            }
        }
        if exists|k: int| 0 <= k < tops2.len() && top_kind(tops2[k]) == kind && #[trigger] tops2[k].spec_id() == id {
            let k = choose|k: int| 0 <= k < tops2.len() && top_kind(tops2[k]) == kind && #[trigger] tops2[k].spec_id() == id;
            if k < tops.len() {
                assert(tops2[k] == tops[k]);
                assert(ids.contains(id));
                if top_kind(t) == kind {
                    let j = choose|j: int| 0 <= j < ids.len() && ids[j] == id;
                    assert(ids2[j] == id);
                }
            } else {
                assert(tops2[k] == t);
                assert(ids2[ids.len() as int] == id);
            }
        }
    }
}

/// The messages of the fatal diagnostics of a load: text that no production
/// matches, a repeated singleton configuration block, and ids used up.
pub open spec fn fatal_message(m: Seq<char>) -> bool {
    m == "SyntaxError: Unexpected content."@ || m == "Duplicated configuration found."@ || m == "Too many declarations."@
}

/// The shape of a declaration: its category and configuration kind.
pub open spec fn shape_of(t: Top) -> Shape {
    Shape {
        kind: top_kind(t),
        config: match t {
            Top::Config(c) => Some(c.kind),
            _ => None,
        },
    }
}

pub open spec fn shapes(tops: Seq<Top>) -> Seq<Shape> {
    tops.map_values(|t: Top| shape_of(t))
}

/// The outcome with the shapes `s` parsed before it.
pub open spec fn prepend(s: Seq<Shape>, o: Outcome) -> Outcome {
    match o {
        Outcome::Parsed(r) => Outcome::Parsed(s + r),
        other => other,
    }
}

/// The singleton configuration kinds that a session already holds a block of.
pub open spec fn slot_taken(p: ASTParser) -> Set<ConfigKind> {
    Set::new(|k: ConfigKind| (k == ConfigKind::Server && p.server is Some) || (k == ConfigKind::Connector
        && p.connector is Some) || (k == ConfigKind::Debug && p.debug_conf is Some) || (k == ConfigKind::Test
        && p.test_conf is Some))
}

proof fn lemma_declarations_step(t: Seq<Token>, start: int, taken: Set<ConfigKind>, b: int, shape: Shape, q: int)
    requires
        0 <= start <= b < t.len(),
        decorators_end(t, doc_end(t, start), "@"@) == Some(b),
        t[b].kind == TokenKind::Identifier,
        !crate::grammar::is_taken(taken, config_kind_of(t[b].text@)),
        item_end(t, b) == Some((shape, q)),
        start < q <= t.len(),
    ensures
        declarations(t, start, taken) == prepend(seq![shape], declarations(t, q, match shape.config {
            Some(c) => taken.insert(c),
            None => taken,
        })),
{
    let taken2 = match shape.config {
        Some(c) => taken.insert(c),
        None => taken,
    };
    match declarations(t, q, taken2) {
        Outcome::Parsed(rest) => {
            assert(seq![shape] + rest == seq![shape] + rest);
        },
        _ => {},
    }
}

proof fn lemma_prepend(a: Seq<Shape>, b: Seq<Shape>, o: Outcome)
    ensures
        prepend(a, prepend(b, o)) == prepend(a + b, o),
        prepend(Seq::empty(), o) == o,
        prepend(a, Outcome::Parsed(Seq::empty())) == Outcome::Parsed(a),
{
    match o {
        Outcome::Parsed(r) => {
            assert(a + (b + r) =~= (a + b) + r);
            assert(Seq::<Shape>::empty() + r =~= r);
        },
        _ => {},
    }
    assert(a + Seq::<Shape>::empty() =~= a);
}

proof fn lemma_ids_below_mono(sources: Seq<Source>, a: usize, b: usize)
    requires
        ids_below(sources, a),
        a <= b,
    ensures
        ids_below(sources, b),
{
    assert forall|i: int|
        0 <= i < sources.len() implies #[trigger] sources[i].id < b && forall|k: int|
            0 <= k < sources[i].tops@.len() ==> #[trigger] sources[i].tops@[k].spec_id() < b by {
        assert(sources[i].id < a);
        assert forall|k: int| 0 <= k < sources[i].tops@.len() implies #[trigger] sources[i].tops@[k].spec_id() < b by {
            assert(sources[i].tops@[k].spec_id() < a);
        }
    }
}

proof fn lemma_count_push(tops: Seq<Top>, t: Top, k: ConfigKind)
    ensures
        tops_config_count(tops.push(t), k) == tops_config_count(tops, k) + if t matches Top::Config(c) && c.kind == k {
            1nat
        } else {
            0nat
        },
{
    assert(tops.push(t).drop_last() =~= tops);
}

/// The blocks of a singleton kind parsed so far in this source agree with the
/// slot kept for it, and the session had none before.
pub open spec fn local_slot_ok(tops: Seq<Top>, local: Option<(usize, usize)>, global: Option<(usize, usize)>, k: ConfigKind) -> bool {
    &&& tops_config_count(tops, k) == if local is Some { 1nat } else { 0nat }
    &&& (local is Some ==> global is None)
}


/// Hands out the next id of the counter, or `None` once it is used up.
pub fn take_id(next: &mut usize) -> (r: Option<usize>)
    ensures
        match r {
            Some(id) => id == *old(next) && *final(next) == id + 1,
            None => *final(next) == *old(next) && *old(next) == usize::MAX,
        },
{
    if *next == usize::MAX {
        None
    } else {
        let id = *next;
        *next = *next + 1;
        Some(id)
    }
}

/// The flags of an interface type from its suffix, which starts at `a` and
/// ends at `p`: `?`, then `[]` or `{}`, then `?`.
pub open spec fn suffix_ok(tokens: Seq<Token>, a: int, t: InterfaceType, p: int) -> bool {
    let q = if t.optional { a + 1 } else { a };
    let q2 = after_arity(tokens, q);
    &&& t.optional == is_symbol(tokens, a, "?"@)
    &&& t.arity == arity_at(tokens, q)
    &&& t.collection_optional == (t.arity != Arity::Scalar && is_symbol(tokens, q2, "?"@))
    &&& p == if t.collection_optional { q2 + 1 } else { q2 }
}

/// Where the suffix of an interface type that ends at `p` starts.
pub open spec fn suffix_start(t: InterfaceType, p: int) -> int {
    p - (if t.collection_optional { 1int } else { 0int }) - (if t.arity != Arity::Scalar { 2int } else { 0int })
        - (if t.optional { 1int } else { 0int })
}

/// `Name<Arg, ...>`, then `[]` or `{}`, with `?` marking an optional item or
/// collection.
pub fn parse_interface_type(tokens: &Vec<Token>, pos: usize) -> (r: Result<(InterfaceType, usize), ParseError>)
    requires
        pos <= tokens@.len() < usize::MAX,
    ensures
        match itype_end(tokens@, pos as int) {
            Some(e) => r matches Ok((_, p)) && p == e,
            None => r is Err,
        },
        r matches Ok((t, p)) ==> pos < p <= tokens@.len() && t.name.name@ == tokens@[pos as int].text@
            && tokens@[pos as int].kind == TokenKind::Identifier,
        r matches Ok((t, p)) ==> pos < suffix_start(t, p as int) && suffix_ok(tokens@, suffix_start(t, p as int), t, p as int)
            && (!is_symbol(tokens@, pos + 1, "<"@) ==> suffix_start(t, p as int) == pos + 1 && t.args@.len() == 0),
        (pos < tokens@.len() && tokens@[pos as int].kind == TokenKind::Identifier) || r is Err,
    decreases tokens@.len() - pos,
{
    if !kind_at(tokens, pos, TokenKind::Identifier) {
        return Err(error_at(tokens, pos));
    }
    let name = identifier_at(tokens, pos);
    let mut p = pos + 1;
    let mut args: Vec<InterfaceType> = Vec::new();
    if symbol_at(tokens, p, "<") {
        p = p + 1;
        loop
            invariant_except_break
                itype_args_end(tokens@, pos + 2) == itype_args_end(tokens@, p as int),
            invariant
                pos < p <= tokens@.len() < usize::MAX,
                pos < tokens@.len() && tokens@[pos as int].kind == TokenKind::Identifier,
                is_symbol(tokens@, pos + 1, "<"@),
            ensures
                pos < p <= tokens@.len(),
                itype_args_end(tokens@, pos + 2) == Some(p as int),
            decreases tokens@.len() - p,
        {
            let (arg, q) = parse_interface_type(tokens, p)?;
            args.push(arg);
            p = q;
            if symbol_at(tokens, p, ",") {
                p = p + 1;
            } else if symbol_at(tokens, p, ">") {
                p = p + 1;
                break;
            } else {
                return Err(error_at(tokens, p));
            }
        }
    }
    let ghost a: int = p as int;
    assert(pos < a);
    assert(!is_symbol(tokens@, pos + 1, "<"@) ==> a == pos + 1 && args@.len() == 0);
    let mut optional = false;
    let mut collection_optional = false;
    let mut arity = Arity::Scalar;
    if symbol_at(tokens, p, "?") {
        optional = true;
        p = p + 1;
    }
    if symbol_at(tokens, p, "[") && symbol_at(tokens, p + 1, "]") {
        arity = Arity::Array;
        p = p + 2;
    } else if symbol_at(tokens, p, "{") && symbol_at(tokens, p + 1, "}") {
        arity = Arity::Dictionary;
        p = p + 2;
    }
    if arity != Arity::Scalar && symbol_at(tokens, p, "?") {
        collection_optional = true;
        p = p + 1;
    }
    let t = InterfaceType { name, args, span: span_of(tokens, pos, p), arity, collection_optional, optional };
    assert(suffix_ok(tokens@, a, t, p as int));
    assert(pos < a <= p && (!is_symbol(tokens@, pos + 1, "<"@) ==> a == pos + 1 && t.args@.len() == 0)
        && suffix_ok(tokens@, a, t, p as int));
    assert(suffix_start(t, p as int) == a);
    Ok((t, p))
}

/// `interface Name extends A, B { name: Type ... }` starting at the keyword.
pub fn parse_interface_declaration(tokens: &Vec<Token>, pos: usize, source_id: usize, item_id: usize) -> (r: Result<(InterfaceDeclaration, usize), ParseError>)
    requires
        pos < tokens@.len() < usize::MAX,
    ensures
        match interface_end(tokens@, pos as int) {
            Some(e) => r matches Ok((_, p)) && p == e,
            None => r is Err,
        },
        r matches Ok((d, p)) ==> pos < p <= tokens@.len() && d.id == item_id && d.source_id == source_id,
{
    let (name, q) = parse_interface_type(tokens, pos + 1)?;
    let mut p = q;
    let mut extends: Vec<InterfaceType> = Vec::new();
    if word_at(tokens, p, "extends") {
        p = p + 1;
        loop
            invariant_except_break
                interface_end(tokens@, pos as int) == (match extends_end(tokens@, p as int) {
                    Some(b) => if is_symbol(tokens@, b, "{"@) { interface_body_end(tokens@, b + 1) } else { None },
                    None => None,
                }),
            invariant
                pos < p <= tokens@.len() < usize::MAX,
            ensures
                pos < p <= tokens@.len(),
                interface_end(tokens@, pos as int) == (if is_symbol(tokens@, p as int, "{"@) { interface_body_end(tokens@, p + 1) } else { None }),
            decreases tokens@.len() - p,
        {
            let (t, q) = parse_interface_type(tokens, p)?;
            extends.push(t);
            p = q;
            if symbol_at(tokens, p, ",") {
                p = p + 1;
            } else {
                break;
            }
        }
    }
    if !symbol_at(tokens, p, "{") {
        return Err(error_at(tokens, p));
    }
    p = p + 1;
    let mut items: Vec<InterfaceItemDeclaration> = Vec::new();
    loop
        invariant_except_break
            interface_end(tokens@, pos as int) == interface_body_end(tokens@, p as int),
        invariant
            pos < p <= tokens@.len() < usize::MAX,
        ensures
            pos < p <= tokens@.len(),
            interface_end(tokens@, pos as int) == Some(p as int),
        decreases tokens@.len() - p,
    {
        if symbol_at(tokens, p, "}") {
            p = p + 1;
            break;
        }
        if kind_at(tokens, p, TokenKind::DocComment) {
            p = p + 1;
        } else {
            if !kind_at(tokens, p, TokenKind::Identifier) || !symbol_at(tokens, p + 1, ":") {
                return Err(error_at(tokens, p));
            }
            let item_name = identifier_at(tokens, p);
            let (kind, q) = parse_interface_type(tokens, p + 2)?;
            items.push(InterfaceItemDeclaration { name: item_name, kind, span: span_of(tokens, p, q) });
            p = q;
        }
    }
    Ok((InterfaceDeclaration { id: item_id, source_id, name, extends, items, span: span_of(tokens, pos, p) }, p))
}

/// `name: Input -> Output`, with `form` before the input for form-encoded requests.
pub fn parse_action_declaration(tokens: &Vec<Token>, pos: usize, source_id: usize, item_id: usize, group_id: usize) -> (r: Result<(ActionDeclaration, usize), ParseError>)
    requires
        pos < tokens@.len() < usize::MAX,
    ensures
        match action_end(tokens@, pos as int) {
            Some(e) => r matches Ok((_, p)) && p == e,
            None => r is Err,
        },
        r matches Ok((d, p)) ==> {
            &&& pos < p <= tokens@.len()
            &&& d.id == item_id
            &&& d.group_id == group_id
            &&& d.identifier.name@ == tokens@[pos as int].text@
            &&& d.input_type.name.name@ == tokens@[if d.input_format == ActionInputFormat::Form { pos + 3 } else { pos + 2 }].text@
            &&& (d.input_format == ActionInputFormat::Form <==> (tokens@[pos + 2].kind == TokenKind::Identifier
                && tokens@[pos + 2].text@ == "form"@ && pos + 3 < tokens@.len()
                && tokens@[pos + 3].kind == TokenKind::Identifier))
        },
{
    if !kind_at(tokens, pos, TokenKind::Identifier) || !symbol_at(tokens, pos + 1, ":") {
        return Err(error_at(tokens, pos));
    }
    let identifier = identifier_at(tokens, pos);
    let mut p = pos + 2;
    let mut input_format = ActionInputFormat::Json;
    if word_at(tokens, p, "form") && kind_at(tokens, p + 1, TokenKind::Identifier) {
        input_format = ActionInputFormat::Form;
        p = p + 1;
    }
    let (input_type, q) = parse_interface_type(tokens, p)?;
    p = q;
    if !symbol_at(tokens, p, "-") || !symbol_at(tokens, p + 1, ">") {
        return Err(error_at(tokens, p));
    }
    let (output_type, q) = parse_interface_type(tokens, p + 2)?;
    p = q;
    Ok((ActionDeclaration { id: item_id, source_id, group_id, identifier, input_type, output_type, input_format, span: span_of(tokens, pos, p) }, p))
}

/// `actions Name { action declarations }` starting at the keyword.
pub fn parse_action_group_declaration(tokens: &Vec<Token>, pos: usize, source_id: usize, item_id: usize, next: &mut usize) -> (r: Result<(ActionGroupDeclaration, usize), ParseError>)
    requires
        pos < tokens@.len() < usize::MAX,
    ensures
        r matches Ok((_, p)) ==> *final(next) <= *old(next) + (p - pos),
        match actions_end(tokens@, pos as int) {
            Some(e) => (r matches Ok((_, p)) ==> p == e) && (*old(next) + tokens@.len() < usize::MAX ==> r is Ok),
            None => r is Err,
        },
        *final(next) <= *old(next) + tokens@.len(),
        r matches Ok((d, p)) ==> pos < p <= tokens@.len() && d.id == item_id && d.source_id == source_id,
        r matches Ok((d, _)) ==> d.identifier.name == tokens@[pos + 1].text && tokens@[pos + 1].kind == TokenKind::Identifier,
        !(pos + 1 < tokens@.len() && tokens@[pos + 1].kind == TokenKind::Identifier && is_symbol(tokens@, pos + 2, "{"@)) ==> r is Err,
        *final(next) >= *old(next),
{
    if !kind_at(tokens, pos + 1, TokenKind::Identifier) || !symbol_at(tokens, pos + 2, "{") {
        return Err(error_at(tokens, pos + 1));
    }
    let identifier = identifier_at(tokens, pos + 1);
    let mut actions: Vec<ActionDeclaration> = Vec::new();
    let mut p = pos + 3;
    loop
        invariant_except_break
            actions_end(tokens@, pos as int) == actions_body_end(tokens@, p as int),
            *next <= *old(next) + (p - pos),
        invariant
            pos < p <= tokens@.len() < usize::MAX,
            *next >= *old(next),
        ensures
            pos < p <= tokens@.len(),
            *next >= *old(next),
            *next <= *old(next) + (p - pos),
            actions_end(tokens@, pos as int) == Some(p as int),
        decreases tokens@.len() - p,
    {
        if symbol_at(tokens, p, "}") {
            p = p + 1;
            break;
        }
        if kind_at(tokens, p, TokenKind::DocComment) {
            p = p + 1;
        } else {
            if p >= tokens.len() {
                return Err(error_at(tokens, p));
            }
            let action_id = match take_id(next) {
                Some(id) => id,
                None => {
                    return Err(error_at(tokens, p));
                },
            };
            let (action, q) = parse_action_declaration(tokens, p, source_id, action_id, item_id)?;
            actions.push(action);
            p = q;
        }
    }
    Ok((ActionGroupDeclaration { id: item_id, source_id, identifier, actions, span: span_of(tokens, pos, p) }, p))
}

/// `dataset name autoseed notrack { group Model { record name { ... } } }`
/// starting at the keyword; the two flags are optional.
pub fn parse_dataset_block(tokens: &Vec<Token>, pos: usize, source_id: usize, item_id: usize, next: &mut usize) -> (r: Result<(DataSet, usize), ParseError>)
    requires
        pos < tokens@.len() < usize::MAX,
    ensures
        r matches Ok((_, p)) ==> *final(next) <= *old(next) + (p - pos),
        match dataset_end(tokens@, pos as int) {
            Some(e) => (r matches Ok((_, p)) ==> p == e) && (*old(next) + tokens@.len() < usize::MAX ==> r is Ok),
            None => r is Err,
        },
        *final(next) <= *old(next) + tokens@.len(),
        r matches Ok((d, p)) ==> pos < p <= tokens@.len() && d.id == item_id && d.source_id == source_id,
        r matches Ok((d, _)) ==> d.identifier.name == tokens@[pos + 1].text && tokens@[pos + 1].kind == TokenKind::Identifier,
        !(pos + 1 < tokens@.len() && tokens@[pos + 1].kind == TokenKind::Identifier) ==> r is Err,
        *final(next) >= *old(next),
{
    if !kind_at(tokens, pos + 1, TokenKind::Identifier) {
        return Err(error_at(tokens, pos + 1));
    }
    let identifier = identifier_at(tokens, pos + 1);
    let mut p = pos + 2;
    let mut auto_seed = false;
    let mut notrack = false;
    while word_at(tokens, p, "autoseed") || word_at(tokens, p, "notrack")
        invariant
            pos < p <= tokens@.len() < usize::MAX,
            flags_end(tokens@, pos + 2) == flags_end(tokens@, p as int),
        decreases tokens@.len() - p,
    {
        if word_at(tokens, p, "autoseed") {
            auto_seed = true;
        } else {
            notrack = true;
        }
        p = p + 1;
    }
    if !symbol_at(tokens, p, "{") {
        return Err(error_at(tokens, p));
    }
    p = p + 1;
    let mut groups: Vec<DataSetGroup> = Vec::new();
    loop
        invariant_except_break
            dataset_end(tokens@, pos as int) == groups_end(tokens@, p as int),
            *next <= *old(next) + (p - pos),
        invariant
            pos < p <= tokens@.len() < usize::MAX,
            *next >= *old(next),
        ensures
            pos < p <= tokens@.len(),
            *next >= *old(next),
            *next <= *old(next) + (p - pos),
            dataset_end(tokens@, pos as int) == Some(p as int),
        decreases tokens@.len() - p,
    {
        if symbol_at(tokens, p, "}") {
            p = p + 1;
            break;
        }
        if !word_at(tokens, p, "group") || !kind_at(tokens, p + 1, TokenKind::Identifier) || !symbol_at(tokens, p + 2, "{") {
            return Err(error_at(tokens, p));
        }
        let group_start = p;
        let group_id = match take_id(next) {
            Some(id) => id,
            None => {
                return Err(error_at(tokens, p));
            },
        };
        let group_name = identifier_at(tokens, p + 1);
        let mut records: Vec<DataSetRecord> = Vec::new();
        p = p + 3;
        loop
            invariant_except_break
                dataset_end(tokens@, pos as int) == (match records_end(tokens@, p as int) {
                    Some(q) => if group_start < q <= tokens@.len() { groups_end(tokens@, q) } else { None },
                    None => None,
                }),
                *next <= *old(next) + (p - pos),
            invariant
                pos < p <= tokens@.len() < usize::MAX,
                group_start < p,
                pos < group_start,
                *next >= *old(next),
            ensures
                pos < p <= tokens@.len(),
                group_start < p,
                *next >= *old(next),
                *next <= *old(next) + (p - pos),
                dataset_end(tokens@, pos as int) == groups_end(tokens@, p as int),
            decreases tokens@.len() - p,
        {
            if symbol_at(tokens, p, "}") {
                p = p + 1;
                break;
            }
            if !word_at(tokens, p, "record") || !kind_at(tokens, p + 1, TokenKind::Identifier) || !symbol_at(tokens, p + 2, "{") {
                return Err(error_at(tokens, p));
            }
            let record_id = match take_id(next) {
                Some(id) => id,
                None => {
                    return Err(error_at(tokens, p));
                },
            };
            let record_name = identifier_at(tokens, p + 1);
            let (dictionary, q) = parse_expression(tokens, p + 2)?;
            records.push(DataSetRecord { id: record_id, source_id, identifier: record_name, span: span_of(tokens, p, q), dictionary });
            p = q;
        }
        groups.push(DataSetGroup { id: group_id, source_id, identifier: group_name, span: span_of(tokens, group_start, p), records });
    }
    Ok((DataSet { id: item_id, source_id, identifier, auto_seed, notrack, groups, span: span_of(tokens, pos, p) }, p))
}

/// The declaration that the keyword at `b` opens, parsed with the id
/// `item_id`; nested declarations take their ids from `next`.
pub fn parse_declaration(
    tokens: &Vec<Token>,
    b: usize,
    start: usize,
    source_id: usize,
    item_id: usize,
    comment_block: Option<CommentBlock>,
    decorators: Vec<Decorator>,
    next: &mut usize,
) -> (r: Result<(Top, usize), ParseError>)
    requires
        start <= b < tokens@.len() < usize::MAX,
        tokens@[b as int].kind == TokenKind::Identifier,
    ensures
        match item_end(tokens@, b as int) {
            Some((shape, e)) => (r matches Ok((t, q)) ==> q == e && shape_of(t) == shape)
                && (*old(next) + tokens@.len() < usize::MAX ==> r is Ok),
            None => r is Err,
        },
        r matches Ok((t, q)) ==> b < q <= tokens@.len() && t.spec_id() == item_id && *final(next) <= *old(next) + (q - b),
        *final(next) >= *old(next),
{
    let keyword = tokens[b].text.as_str();
    if str_eq(keyword, "import") {
        match parse_import(tokens, b, source_id, item_id) {
            Ok((t, q)) => {
                Ok((Top::Import(t), q))
            },
            Err(e) => Err(e),
        }
    } else if str_eq(keyword, "let") {
        match parse_let_declaration(tokens, b, source_id, item_id) {
            Ok((t, q)) => {
                Ok((Top::Constant(t), q))
            },
            Err(e) => Err(e),
        }
    } else if str_eq(keyword, "model") {
        match parse_model(tokens, b, start, source_id, item_id, comment_block, decorators) {
            Ok((t, q)) => {
                Ok((Top::Model(t), q))
            },
            Err(e) => Err(e),
        }
    } else if str_eq(keyword, "enum") {
        match parse_enum(tokens, b, start, source_id, item_id, comment_block, decorators) {
            Ok((t, q)) => {
                Ok((Top::Enum(t), q))
            },
            Err(e) => Err(e),
        }
    } else if str_eq(keyword, "middleware") {
        match parse_middleware_declaration(tokens, b, source_id, item_id) {
            Ok((t, q)) => {
                Ok((Top::Middleware(t), q))
            },
            Err(e) => Err(e),
        }
    } else if str_eq(keyword, "interface") {
        match parse_interface_declaration(tokens, b, source_id, item_id) {
            Ok((t, q)) => {
                Ok((Top::Interface(t), q))
            },
            Err(e) => Err(e),
        }
    } else if str_eq(keyword, "actions") {
        match parse_action_group_declaration(tokens, b, source_id, item_id, next) {
            Ok((t, q)) => {
                Ok((Top::ActionGroup(t), q))
            },
            Err(e) => Err(e),
        }
    } else if str_eq(keyword, "dataset") {
        match parse_dataset_block(tokens, b, source_id, item_id, next) {
            Ok((t, q)) => {
                Ok((Top::DataSet(t), q))
            },
            Err(e) => Err(e),
        }
    } else {
        match config_kind(keyword) {
            Some(k) => {
                match parse_config_block(tokens, b, k, source_id, item_id) {
                    Ok((t, q)) => Ok((Top::Config(t), q)),
                    Err(e) => Err(e),
                }
            },
            None => Err(error_at(tokens, b)),
        }
    }
}

impl ASTParser {
    /// What every session satisfies between loads of sources: one source per
    /// path, the singleton slots filled exactly when their one block exists,
    /// and every id already handed out.
    pub open spec fn wf(&self) -> bool {
        &&& paths_distinct(self.sources@)
        &&& slot_matches(self.server, config_count(self.sources@, ConfigKind::Server))
        &&& slot_matches(self.connector, config_count(self.sources@, ConfigKind::Connector))
        &&& slot_matches(self.debug_conf, config_count(self.sources@, ConfigKind::Debug))
        &&& slot_matches(self.test_conf, config_count(self.sources@, ConfigKind::Test))
        &&& ids_below(self.sources@, self.next_id)
        &&& forall|i: int| 0 <= i < self.sources@.len() ==> source_wf(#[trigger] self.sources@[i])
    }

    pub fn new() -> (r: Self)
        ensures
            r.wf(),
            r.sources@.len() == 0,
            r.next_id == 0,
    {
        ASTParser {
            sources: Vec::new(),
            constants: Vec::new(),
            enums: Vec::new(),
            models: Vec::new(),
            connector: None,
            server: None,
            entities: Vec::new(),
            clients: Vec::new(),
            debug_conf: None,
            test_conf: None,
            middlewares: Vec::new(),
            data_sets: Vec::new(),
            interfaces: Vec::new(),
            action_groups: Vec::new(),
            next_id: 0,
        }
    }

    /// A fresh id, larger than every id handed out before.
    pub fn next_id(&mut self) -> (r: Option<usize>)
        ensures
            match r {
                Some(id) => id == old(self).next_id && final(self).next_id == id + 1,
                None => final(self).next_id == old(self).next_id && old(self).next_id == usize::MAX,
            },
            final(self).sources == old(self).sources,
            final(self).server == old(self).server,
            final(self).connector == old(self).connector,
            final(self).debug_conf == old(self).debug_conf,
            final(self).test_conf == old(self).test_conf,
            final(self).constants == old(self).constants,
            final(self).enums == old(self).enums,
            final(self).models == old(self).models,
            final(self).entities == old(self).entities,
            final(self).clients == old(self).clients,
            final(self).middlewares == old(self).middlewares,
            final(self).data_sets == old(self).data_sets,
            final(self).interfaces == old(self).interfaces,
            final(self).action_groups == old(self).action_groups,
    {
        if self.next_id == usize::MAX {
            return None;
        }
        let id = self.next_id;
        self.next_id = self.next_id + 1;
        Some(id)
    }

    /// The index of the source with this path, if one was parsed.
    pub fn source_index_by_path(&self, path: &str) -> (r: Option<usize>)
        ensures
            match r {
                Some(i) => i < self.sources@.len() && self.sources@[i as int].path@ == path@,
                None => !has_path(self.sources@, path@),
            },
    {
        let mut i: usize = 0;
        while i < self.sources.len()
            invariant
                i <= self.sources@.len(),
                forall|j: int| 0 <= j < i ==> self.sources@[j].path@ != path@,
            decreases self.sources@.len() - i,
        {
            if str_eq(self.sources[i].path.as_str(), path) {
                return Some(i);
            }
            i = i + 1;
        }
        None
    }

    /// The declaration with item id `item_id` in the source with id `source_id`.
    pub fn find_top(&self, source_id: usize, item_id: usize) -> (r: Option<&Top>)
        ensures
            r matches Some(t) ==> t.spec_id() == item_id,
    {
        match self.get_source(source_id) {
            None => None,
            Some(source) => {
                let mut k: usize = 0;
                while k < source.tops.len()
                    invariant
                        k <= source.tops@.len(),
                    decreases source.tops@.len() - k,
                {
                    if source.tops[k].id() == item_id {
                        return Some(&source.tops[k]);
                    }
                    k = k + 1;
                }
                None
            },
        }
    }

    fn config_at(&self, at: Option<(usize, usize)>) -> (r: Option<&ConfigBlock>)
        ensures
            r matches Some(c) ==> at matches Some(a) && c.id == a.1,
    {
        match at {
            None => None,
            Some((sid, iid)) => match self.find_top(sid, iid) {
                Some(Top::Config(c)) => Some(c),
                _ => None,
            },
        }
    }

    /// The `server` block, once one was parsed.
    pub fn server(&self) -> (r: Option<&ConfigBlock>)
        ensures
            r matches Some(c) ==> self.server matches Some(a) && c.id == a.1,
    {
        self.config_at(self.server)
    }

    /// The `connector` block, once one was parsed.
    pub fn connector(&self) -> (r: Option<&ConfigBlock>)
        ensures
            r matches Some(c) ==> self.connector matches Some(a) && c.id == a.1,
    {
        self.config_at(self.connector)
    }

    /// The `debug` block, once one was parsed.
    pub fn debug(&self) -> (r: Option<&ConfigBlock>)
        ensures
            r matches Some(c) ==> self.debug_conf matches Some(a) && c.id == a.1,
    {
        self.config_at(self.debug_conf)
    }

    /// The `test` block, once one was parsed.
    pub fn test(&self) -> (r: Option<&ConfigBlock>)
        ensures
            r matches Some(c) ==> self.test_conf matches Some(a) && c.id == a.1,
    {
        self.config_at(self.test_conf)
    }

    fn configs_at(&self, table: &Vec<(usize, usize)>) -> (r: Vec<&ConfigBlock>)
        ensures
            r@.len() <= table@.len(),
    {
        let mut out: Vec<&ConfigBlock> = Vec::new();
        let mut i: usize = 0;
        while i < table.len()
            invariant
                i <= table@.len(),
                out@.len() <= i,
            decreases table@.len() - i,
        {
            match self.config_at(Some(table[i])) {
                Some(c) => out.push(c),
                None => {},
            }
            i = i + 1;
        }
        out
    }

    /// The `entity` blocks, in the order they were parsed.
    pub fn entities(&self) -> (r: Vec<&ConfigBlock>)
        ensures
            r@.len() <= self.entities@.len(),
    {
        self.configs_at(&self.entities)
    }

    /// The `client` blocks, in the order they were parsed.
    pub fn clients(&self) -> (r: Vec<&ConfigBlock>)
        ensures
            r@.len() <= self.clients@.len(),
    {
        self.configs_at(&self.clients)
    }

    /// The models of all sources, in the order they were parsed.
    pub fn models(&self) -> (r: Vec<&ASTModel>)
        ensures
            r@.len() <= self.models@.len(),
    {
        let mut out: Vec<&ASTModel> = Vec::new();
        let mut i: usize = 0;
        while i < self.models.len()
            invariant
                i <= self.models@.len(),
                out@.len() <= i,
            decreases self.models@.len() - i,
        {
            let (sid, iid) = self.models[i];
            match self.find_top(sid, iid) {
                Some(Top::Model(m)) => out.push(m),
                _ => {},
            }
            i = i + 1;
        }
        out
    }

    /// The enums of all sources, in the order they were parsed.
    pub fn enums(&self) -> (r: Vec<&ASTEnum>)
        ensures
            r@.len() <= self.enums@.len(),
    {
        let mut out: Vec<&ASTEnum> = Vec::new();
        let mut i: usize = 0;
        while i < self.enums.len()
            invariant
                i <= self.enums@.len(),
                out@.len() <= i,
            decreases self.enums@.len() - i,
        {
            let (sid, iid) = self.enums[i];
            match self.find_top(sid, iid) {
                Some(Top::Enum(e)) => out.push(e),
                _ => {},
            }
            i = i + 1;
        }
        out
    }

    /// The middleware declarations of all sources, in the order they were parsed.
    pub fn middlewares(&self) -> (r: Vec<&MiddlewareDeclaration>)
        ensures
            r@.len() <= self.middlewares@.len(),
    {
        let mut out: Vec<&MiddlewareDeclaration> = Vec::new();
        let mut i: usize = 0;
        while i < self.middlewares.len()
            invariant
                i <= self.middlewares@.len(),
                out@.len() <= i,
            decreases self.middlewares@.len() - i,
        {
            let (sid, iid) = self.middlewares[i];
            match self.find_top(sid, iid) {
                Some(Top::Middleware(m)) => out.push(m),
                _ => {},
            }
            i = i + 1;
        }
        out
    }

    /// The action groups of all sources, in the order they were parsed.
    pub fn action_groups(&self) -> (r: Vec<&ActionGroupDeclaration>)
        ensures
            r@.len() <= self.action_groups@.len(),
    {
        let mut out: Vec<&ActionGroupDeclaration> = Vec::new();
        let mut i: usize = 0;
        while i < self.action_groups.len()
            invariant
                i <= self.action_groups@.len(),
                out@.len() <= i,
            decreases self.action_groups@.len() - i,
        {
            let (sid, iid) = self.action_groups[i];
            match self.find_top(sid, iid) {
                Some(Top::ActionGroup(m)) => out.push(m),
                _ => {},
            }
            i = i + 1;
        }
        out
    }

    /// The interfaces of all sources, in the order they were parsed.
    pub fn interfaces(&self) -> (r: Vec<&InterfaceDeclaration>)
        ensures
            r@.len() <= self.interfaces@.len(),
    {
        let mut out: Vec<&InterfaceDeclaration> = Vec::new();
        let mut i: usize = 0;
        while i < self.interfaces.len()
            invariant
                i <= self.interfaces@.len(),
                out@.len() <= i,
            decreases self.interfaces@.len() - i,
        {
            let (sid, iid) = self.interfaces[i];
            match self.find_top(sid, iid) {
                Some(Top::Interface(m)) => out.push(m),
                _ => {},
            }
            i = i + 1;
        }
        out
    }

    pub fn get_source(&self, id: usize) -> (r: Option<&Source>)
        ensures
            r matches Some(s) ==> s.id == id,
    {
        let mut i: usize = 0;
        while i < self.sources.len()
            invariant
                i <= self.sources@.len(),
            decreases self.sources@.len() - i,
        {
            if self.sources[i].id == id {
                return Some(&self.sources[i]);
            }
            i = i + 1;
        }
        None
    }

    fn report(&self, diagnostics: &mut Diagnostics, span: Span, message: &str, source_id: usize, path: &String)
        ensures
            final(diagnostics).error_records() == old(diagnostics).error_records().push(
                LogRecord { span, message: message@, source_id, source_path: path@ },
            ),
    {
        diagnostics.insert(DiagnosticsError::new(span, String::from_str(message), source_id, path.clone()));
    }

    fn report_unparsed(&self, diagnostics: &mut Diagnostics, span: Span, source_id: usize, path: &String)
        ensures
            final(diagnostics).error_records() == old(diagnostics).error_records().push(
                LogRecord { span, message: "SyntaxError: Unexpected content."@, source_id, source_path: path@ },
            ),
    {
        diagnostics.insert_unparsed_rule(span, source_id, path.clone());
    }

    /// Parses the tokens of one source file and registers it under its path;
    /// see `parse_source`.
    #[verifier::spinoff_prover]
    #[verifier::rlimit(100)]
    pub fn parse_tokens(&mut self, path: String, tokens: &Vec<Token>, diagnostics: &mut Diagnostics) -> (r: Result<usize, ()>)
        requires
            old(self).wf(),
            tokens@.len() < usize::MAX / 8,
        ensures
            !has_path(old(self).sources@, path@) ==> (r is Ok ==> declarations(tokens@, 0, slot_taken(*old(self)))
                == Outcome::Parsed(shapes(final(self).sources@.last().tops@))),
            !has_path(old(self).sources@, path@) && old(self).next_id + 4 * tokens@.len() + 4 < usize::MAX ==> match declarations(
                tokens@,
                0,
                slot_taken(*old(self)),
            ) {
                Outcome::Parsed(_) => r is Ok,
                Outcome::Duplicate => r is Err && final(diagnostics).error_records().last().message == "Duplicated configuration found."@,
                Outcome::Unparsed => r is Err && final(diagnostics).error_records().last().message == "SyntaxError: Unexpected content."@,
            },
            final(self).next_id >= old(self).next_id,
            final(self).wf(),
            has_path(old(self).sources@, path@) ==> {
                &&& r matches Ok(id) && exists|i: int| 0 <= i < old(self).sources@.len() && old(self).sources@[i].path@ == path@ && old(self).sources@[i].id == id
                &&& final(self).sources@ == old(self).sources@
                &&& *final(diagnostics) == *old(diagnostics)
            },
            !has_path(old(self).sources@, path@) ==> match r {
                Ok(id) => {
                    &&& final(self).sources@.len() == old(self).sources@.len() + 1
                    &&& final(self).sources@.drop_last() == old(self).sources@
                    &&& final(self).sources@.last().path@ == path@
                    &&& final(self).sources@.last().id == id
                    &&& old(self).next_id <= id
                    &&& forall|k: int| 0 <= k < final(self).sources@.last().tops@.len()
                        ==> old(self).next_id <= #[trigger] final(self).sources@.last().tops@[k].spec_id()
                    &&& final(self).constants@ == old(self).constants@ + paired(id, kind_ids(final(self).sources@.last().tops@, TopKind::Constant))
                    &&& final(self).models@ == old(self).models@ + paired(id, kind_ids(final(self).sources@.last().tops@, TopKind::Model))
                    &&& final(self).enums@ == old(self).enums@ + paired(id, kind_ids(final(self).sources@.last().tops@, TopKind::Enum))
                    &&& final(self).middlewares@ == old(self).middlewares@ + paired(id, kind_ids(final(self).sources@.last().tops@, TopKind::Middleware))
                    &&& final(self).interfaces@ == old(self).interfaces@ + paired(id, kind_ids(final(self).sources@.last().tops@, TopKind::Interface))
                    &&& final(self).action_groups@ == old(self).action_groups@ + paired(id, kind_ids(final(self).sources@.last().tops@, TopKind::ActionGroup))
                    &&& final(self).data_sets@ == old(self).data_sets@ + paired(id, kind_ids(final(self).sources@.last().tops@, TopKind::DataSet))
                    &&& final(self).entities@ == old(self).entities@ + paired(id, config_ids(final(self).sources@.last().tops@, ConfigKind::Entity))
                    &&& final(self).clients@ == old(self).clients@ + paired(id, config_ids(final(self).sources@.last().tops@, ConfigKind::Client))
                },
                Err(_) => {
                    &&& final(self).sources@ == old(self).sources@
                    &&& final(diagnostics).error_records().len() == old(diagnostics).error_records().len() + 1
                    &&& final(diagnostics).error_records().drop_last() == old(diagnostics).error_records()
                    &&& final(diagnostics).error_records().last().source_path == path@
                    &&& fatal_message(final(diagnostics).error_records().last().message)
                },
            },
    {
        match self.source_index_by_path(path.as_str()) {
            Some(i) => {
                return Ok(self.sources[i].id);
            },
            None => {},
        }
        let start_span = Span { start: 0, end: 0, start_position: (1, 1), end_position: (1, 1) };
        let source_id = match self.next_id() {
            Some(id) => id,
            None => {
                self.report(diagnostics, start_span, "Too many declarations.", 0, &path);
                return Err(());
            },
        };
        let ghost old_self = *old(self);
        let mut tops: Vec<Top> = Vec::new();
        let mut imports: Vec<usize> = Vec::new();
        let mut constants: Vec<usize> = Vec::new();
        let mut enums: Vec<usize> = Vec::new();
        let mut models: Vec<usize> = Vec::new();
        let mut new_constants: Vec<(usize, usize)> = Vec::new();
        let mut new_enums: Vec<(usize, usize)> = Vec::new();
        let mut new_models: Vec<(usize, usize)> = Vec::new();
        let mut new_entities: Vec<(usize, usize)> = Vec::new();
        let mut new_clients: Vec<(usize, usize)> = Vec::new();
        let mut new_middlewares: Vec<(usize, usize)> = Vec::new();
        let mut new_data_sets: Vec<(usize, usize)> = Vec::new();
        let mut new_interfaces: Vec<(usize, usize)> = Vec::new();
        let mut new_action_groups: Vec<(usize, usize)> = Vec::new();
        let mut server: Option<(usize, usize)> = None;
        let mut connector: Option<(usize, usize)> = None;
        let mut debug: Option<(usize, usize)> = None;
        let mut test: Option<(usize, usize)> = None;
        let ghost bound = old_self.next_id + 4 * tokens@.len() + 4 < usize::MAX;
        let ghost overall = declarations(tokens@, 0, slot_taken(old_self));
        let ghost mut taken = slot_taken(old_self);
        proof {
            lemma_prepend(Seq::empty(), Seq::empty(), overall);
            assert(shapes(tops@) =~= Seq::<Shape>::empty());
        }
        let mut p: usize = 0;
        proof {
            lemma_paired_push(source_id);
        }
        while p < tokens.len()
            invariant
                tokens@.len() < usize::MAX / 8,
                p <= tokens@.len(),
                self.sources == old_self.sources,
                self.server == old_self.server,
                self.connector == old_self.connector,
                self.debug_conf == old_self.debug_conf,
                self.test_conf == old_self.test_conf,
                self.constants == old_self.constants,
                self.enums == old_self.enums,
                self.models == old_self.models,
                self.entities == old_self.entities,
                self.clients == old_self.clients,
                self.middlewares == old_self.middlewares,
                self.data_sets == old_self.data_sets,
                self.interfaces == old_self.interfaces,
                self.action_groups == old_self.action_groups,
                old_self == *old(self),
                old_self.wf(),
                !has_path(old_self.sources@, path@),
                old_self.next_id <= source_id < self.next_id,
                forall|k: int| 0 <= k < tops@.len() ==> #[trigger] tops@[k].spec_id() < self.next_id,
                local_slot_ok(tops@, server, self.server, ConfigKind::Server),
                local_slot_ok(tops@, connector, self.connector, ConfigKind::Connector),
                local_slot_ok(tops@, debug, self.debug_conf, ConfigKind::Debug),
                local_slot_ok(tops@, test, self.test_conf, ConfigKind::Test),
                index_matches(tops@, imports@, TopKind::Import),
                index_matches(tops@, constants@, TopKind::Constant),
                index_matches(tops@, models@, TopKind::Model),
                index_matches(tops@, enums@, TopKind::Enum),
                imports@ == kind_ids(tops@, TopKind::Import),
                constants@ == kind_ids(tops@, TopKind::Constant),
                models@ == kind_ids(tops@, TopKind::Model),
                enums@ == kind_ids(tops@, TopKind::Enum),
                new_constants@ == paired(source_id, kind_ids(tops@, TopKind::Constant)),
                new_models@ == paired(source_id, kind_ids(tops@, TopKind::Model)),
                new_enums@ == paired(source_id, kind_ids(tops@, TopKind::Enum)),
                new_middlewares@ == paired(source_id, kind_ids(tops@, TopKind::Middleware)),
                new_interfaces@ == paired(source_id, kind_ids(tops@, TopKind::Interface)),
                new_action_groups@ == paired(source_id, kind_ids(tops@, TopKind::ActionGroup)),
                new_data_sets@ == paired(source_id, kind_ids(tops@, TopKind::DataSet)),
                new_entities@ == paired(source_id, config_ids(tops@, ConfigKind::Entity)),
                new_clients@ == paired(source_id, config_ids(tops@, ConfigKind::Client)),
                ascending(tops@),
                forall|k: int| 0 <= k < tops@.len() ==> source_id < #[trigger] tops@[k].spec_id(),
                *diagnostics == *old(diagnostics),
                overall == declarations(tokens@, 0, slot_taken(old_self)),
                bound == (old_self.next_id + 4 * tokens@.len() + 4 < usize::MAX),
                overall == prepend(shapes(tops@), declarations(tokens@, p as int, taken)),
                self.next_id <= old_self.next_id + 1 + 2 * p,
                forall|k: ConfigKind| #[trigger] taken.contains(k) && k.is_singleton() ==> (match k {
                    ConfigKind::Server => server is Some || self.server is Some,
                    ConfigKind::Connector => connector is Some || self.connector is Some,
                    ConfigKind::Debug => debug is Some || self.debug_conf is Some,
                    ConfigKind::Test => test is Some || self.test_conf is Some,
                    _ => false,
                }),
                (server is Some || self.server is Some) ==> taken.contains(ConfigKind::Server),
                (connector is Some || self.connector is Some) ==> taken.contains(ConfigKind::Connector),
                (debug is Some || self.debug_conf is Some) ==> taken.contains(ConfigKind::Debug),
                (test is Some || self.test_conf is Some) ==> taken.contains(ConfigKind::Test),
            decreases tokens@.len() - p,
        {
            let start = p;
            let mut comment_block: Option<CommentBlock> = None;
            if kind_at(tokens, p, TokenKind::DocComment) {
                let (block, q) = parse_comment_block(tokens, p);
                comment_block = Some(block);
                p = q;
            }
            let decorators = match parse_decorators(tokens, p, "@") {
                Ok((d, q)) => {
                    p = q;
                    d
                },
                Err(e) => {
                    self.report_unparsed(diagnostics, e.span, source_id, &path);
                    return Err(());
                },
            };
            if p >= tokens.len() {
                continue;
            }
            if !kind_at(tokens, p, TokenKind::Identifier) {
                self.report_unparsed(diagnostics, tokens[p].span, source_id, &path);
                return Err(());
            }
            let item_id = match self.next_id() {
                Some(id) => id,
                None => {
                    proof { lemma_ids_below_mono(old_self.sources@, old_self.next_id, self.next_id); }
                    self.report(diagnostics, tokens[p].span, "Too many declarations.", source_id, &path);
                    return Err(());
                },
            };
            proof { lemma_ids_below_mono(old_self.sources@, old_self.next_id, self.next_id); }
            let ghost before = tops@;
            let keyword = tokens[p].text.as_str();
            let kind = config_kind(keyword);
            let taken_kind = match kind {
                Some(ConfigKind::Server) => server.is_some() || self.server.is_some(),
                Some(ConfigKind::Connector) => connector.is_some() || self.connector.is_some(),
                Some(ConfigKind::Debug) => debug.is_some() || self.debug_conf.is_some(),
                Some(ConfigKind::Test) => test.is_some() || self.test_conf.is_some(),
                _ => false,
            };
            if taken_kind {
                self.report(diagnostics, tokens[p].span, "Duplicated configuration found.", source_id, &path);
                return Err(());
            }
            let parsed = parse_declaration(tokens, p, start, source_id, item_id, comment_block, decorators, &mut self.next_id);
            match parsed {
                Ok((t, q)) => {
                    proof {
                        lemma_count_push(before, t, ConfigKind::Server);
                        lemma_count_push(before, t, ConfigKind::Connector);
                        lemma_count_push(before, t, ConfigKind::Debug);
                        lemma_count_push(before, t, ConfigKind::Test);
                        lemma_index_push(before, imports@, t, TopKind::Import);
                        lemma_index_push(before, constants@, t, TopKind::Constant);
                        lemma_index_push(before, models@, t, TopKind::Model);
                        lemma_index_push(before, enums@, t, TopKind::Enum);
                    }
                    let tid = t.id();
                    match &t {
                        Top::Config(c) => match c.kind {
                            ConfigKind::Server => server = Some((source_id, tid)),
                            ConfigKind::Connector => connector = Some((source_id, tid)),
                            ConfigKind::Debug => debug = Some((source_id, tid)),
                            ConfigKind::Test => test = Some((source_id, tid)),
                            _ => {},
                        },
                        _ => {},
                    }
                    match &t {
                        Top::Import(_) => imports.push(tid),
                        Top::Constant(_) => {
                            constants.push(tid);
                            new_constants.push((source_id, tid));
                        },
                        Top::Model(_) => {
                            models.push(tid);
                            new_models.push((source_id, tid));
                        },
                        Top::Enum(_) => {
                            enums.push(tid);
                            new_enums.push((source_id, tid));
                        },
                        Top::Middleware(_) => new_middlewares.push((source_id, tid)),
                        Top::Interface(_) => new_interfaces.push((source_id, tid)),
                        Top::ActionGroup(_) => new_action_groups.push((source_id, tid)),
                        Top::DataSet(_) => new_data_sets.push((source_id, tid)),
                        Top::Config(c) => match c.kind {
                            ConfigKind::Entity => new_entities.push((source_id, tid)),
                            ConfigKind::Client => new_clients.push((source_id, tid)),
                            _ => {},
                        },
                    }
                    proof {
                        lemma_kind_ids_push(before, t);
                        lemma_paired_push(source_id);
                        assert(t.spec_id() == item_id);
                    }
                    tops.push(t);
                    proof {
                        assert(tops@ == before.push(t));
                        let shape = shape_of(t);
                        let taken2 = match shape.config {
                            Some(c) => taken.insert(c),
                            None => taken,
                        };
                        lemma_declarations_step(tokens@, start as int, taken, p as int, shape, q as int);
                        lemma_prepend(shapes(before), seq![shape], declarations(tokens@, q as int, taken2));
                        assert(shapes(tops@) =~= shapes(before) + seq![shape]);
                        taken = taken2;
                    }
                    p = q;
                },
                Err(e) => {
                    proof { lemma_ids_below_mono(old_self.sources@, old_self.next_id, self.next_id); }
                    self.report_unparsed(diagnostics, e.span, source_id, &path);
                    return Err(());
                },
            }
        }
        let ghost tops_view = tops@;
        assert(source_wf(Source { id: source_id, path: path, tops: tops, imports: imports, constants: constants, enums: enums, models: models }));
        assert(forall|k: int| 0 <= k < tops_view.len() ==> #[trigger] tops_view[k].spec_id() < self.next_id);
        let source = Source { id: source_id, path, tops, imports, constants, enums, models };
        let ghost src = source;
        assert(src.tops@ == tops_view);
        self.sources.push(source);
        proof {
            let ss = self.sources@;
            assert(ss.drop_last() =~= old_self.sources@);
            assert forall|i: int, j: int|
                0 <= i < ss.len() && 0 <= j < ss.len() && i != j implies #[trigger] ss[i].path@
                    != #[trigger] ss[j].path@ by {
                if i < ss.len() - 1 && j < ss.len() - 1 {
                    assert(ss[i] == old_self.sources@[i] && ss[j] == old_self.sources@[j]);
                } else if i == ss.len() - 1 {
                    assert(ss[j] == old_self.sources@[j]);
                    assert(old_self.sources@[j].path@ != src.path@);
                } else {
                    assert(ss[i] == old_self.sources@[i]);
                    assert(old_self.sources@[i].path@ != src.path@);
                }
            }
            lemma_ids_below_mono(old_self.sources@, old_self.next_id, self.next_id);
            assert forall|i: int|
                0 <= i < ss.len() implies #[trigger] ss[i].id < self.next_id && forall|k: int|
                    0 <= k < ss[i].tops@.len() ==> #[trigger] ss[i].tops@[k].spec_id() < self.next_id by {
                if i < ss.len() - 1 {
                    assert(ss[i] == old_self.sources@[i]);
                    assert(old_self.sources@[i].id < self.next_id);
                    assert forall|k: int| 0 <= k < ss[i].tops@.len() implies #[trigger] ss[i].tops@[k].spec_id() < self.next_id by {
                        assert(old_self.sources@[i].tops@[k].spec_id() < self.next_id);
                    }
                } else {
                    assert(ss[i] == src);
                    assert forall|k: int| 0 <= k < ss[i].tops@.len() implies #[trigger] ss[i].tops@[k].spec_id() < self.next_id by {
                        assert(tops_view[k].spec_id() < self.next_id);
                    }
                }
            }
        }
        if server.is_some() {
            self.server = server;
        }
        if connector.is_some() {
            self.connector = connector;
        }
        if debug.is_some() {
            self.debug_conf = debug;
        }
        if test.is_some() {
            self.test_conf = test;
        }
        self.constants.append(&mut new_constants);
        self.enums.append(&mut new_enums);
        self.models.append(&mut new_models);
        self.entities.append(&mut new_entities);
        self.clients.append(&mut new_clients);
        self.middlewares.append(&mut new_middlewares);
        self.data_sets.append(&mut new_data_sets);
        self.interfaces.append(&mut new_interfaces);
        self.action_groups.append(&mut new_action_groups);
        proof {
            let ss = self.sources@;
            assert(ss.drop_last() =~= old_self.sources@);
            assert(ss.last() == src);
            assert(config_count(ss, ConfigKind::Server) == config_count(old_self.sources@, ConfigKind::Server)
                + tops_config_count(src.tops@, ConfigKind::Server));
            assert(config_count(ss, ConfigKind::Connector) == config_count(old_self.sources@, ConfigKind::Connector)
                + tops_config_count(src.tops@, ConfigKind::Connector));
            assert(config_count(ss, ConfigKind::Debug) == config_count(old_self.sources@, ConfigKind::Debug)
                + tops_config_count(src.tops@, ConfigKind::Debug));
            assert(config_count(ss, ConfigKind::Test) == config_count(old_self.sources@, ConfigKind::Test)
                + tops_config_count(src.tops@, ConfigKind::Test));
            assert(paths_distinct(ss));
            assert(ids_below(ss, self.next_id));
            assert forall|i: int| 0 <= i < ss.len() implies source_wf(#[trigger] ss[i]) by {
                if i < ss.len() - 1 {
                    assert(ss[i] == old_self.sources@[i]);
                }
            }
        }
        Ok(source_id)
    }

    /// Parses one source file and registers it under its path. A path that
    /// was parsed before is not parsed again: its source is kept as it is. A
    /// fatal problem (text that does not match the grammar, a second block of a
    /// singleton configuration) is recorded in `diagnostics` and gives `Err`.
    pub fn parse_source(&mut self, path: String, content: &str, diagnostics: &mut Diagnostics) -> (r: Result<usize, ()>)
        requires
            old(self).wf(),
            content@.len() < usize::MAX / 8,
        ensures
            final(self).next_id >= old(self).next_id,
            final(self).wf(),
            has_path(old(self).sources@, path@) ==> {
                &&& r matches Ok(id) && exists|i: int| 0 <= i < old(self).sources@.len() && old(self).sources@[i].path@ == path@ && old(self).sources@[i].id == id
                &&& final(self).sources@ == old(self).sources@
                &&& *final(diagnostics) == *old(diagnostics)
            },
            !has_path(old(self).sources@, path@) ==> match r {
                Ok(id) => {
                    &&& final(self).sources@.len() == old(self).sources@.len() + 1
                    &&& final(self).sources@.drop_last() == old(self).sources@
                    &&& final(self).sources@.last().path@ == path@
                    &&& final(self).sources@.last().id == id
                    &&& old(self).next_id <= id
                    &&& forall|k: int| 0 <= k < final(self).sources@.last().tops@.len()
                        ==> old(self).next_id <= #[trigger] final(self).sources@.last().tops@[k].spec_id()
                    &&& final(self).constants@ == old(self).constants@ + paired(id, kind_ids(final(self).sources@.last().tops@, TopKind::Constant))
                    &&& final(self).models@ == old(self).models@ + paired(id, kind_ids(final(self).sources@.last().tops@, TopKind::Model))
                    &&& final(self).enums@ == old(self).enums@ + paired(id, kind_ids(final(self).sources@.last().tops@, TopKind::Enum))
                    &&& final(self).middlewares@ == old(self).middlewares@ + paired(id, kind_ids(final(self).sources@.last().tops@, TopKind::Middleware))
                    &&& final(self).interfaces@ == old(self).interfaces@ + paired(id, kind_ids(final(self).sources@.last().tops@, TopKind::Interface))
                    &&& final(self).action_groups@ == old(self).action_groups@ + paired(id, kind_ids(final(self).sources@.last().tops@, TopKind::ActionGroup))
                    &&& final(self).data_sets@ == old(self).data_sets@ + paired(id, kind_ids(final(self).sources@.last().tops@, TopKind::DataSet))
                    &&& final(self).entities@ == old(self).entities@ + paired(id, config_ids(final(self).sources@.last().tops@, ConfigKind::Entity))
                    &&& final(self).clients@ == old(self).clients@ + paired(id, config_ids(final(self).sources@.last().tops@, ConfigKind::Client))
                },
                Err(_) => {
                    &&& final(self).sources@ == old(self).sources@
                    &&& final(diagnostics).error_records().len() == old(diagnostics).error_records().len() + 1
                    &&& final(diagnostics).error_records().drop_last() == old(diagnostics).error_records()
                    &&& final(diagnostics).error_records().last().source_path == path@
                    &&& fatal_message(final(diagnostics).error_records().last().message)
                },
            },
    {
        match self.source_index_by_path(path.as_str()) {
            Some(i) => {
                return Ok(self.sources[i].id);
            },
            None => {},
        }
        match tokenize(content) {
            Ok(tokens) => self.parse_tokens(path, &tokens, diagnostics),
            Err(e) => {
                let id = self.next_id;
                self.report_unparsed(diagnostics, e.span, id, &path);
                Err(())
            },
        }
    }

}

/// One source per path: two sources of a session with the same path are the
/// same source. Parsing a path that is registered already leaves the registry
/// as it is (see `ASTParser::parse_source`), so a file imported through two
/// relative paths that name it alike is parsed once and registered once.
pub proof fn law_one_source_per_path(parser: ASTParser, i: int, j: int)
    requires
        parser.wf(),
        0 <= i < parser.sources@.len(),
        0 <= j < parser.sources@.len(),
        parser.sources@[i].path@ == parser.sources@[j].path@,
    ensures
        i == j,
{
}

/// A session holds at most one `server`, `connector`, `debug` and `test`
/// block over all its sources. Since every successful `parse_source` keeps the
/// session well formed, a schema that declares one of these twice, in one file
/// or in two, cannot load: the parse of the second block fails.
pub proof fn law_singleton_configuration(parser: ASTParser)
    requires
        parser.wf(),
    ensures
        config_count(parser.sources@, ConfigKind::Server) <= 1,
        config_count(parser.sources@, ConfigKind::Connector) <= 1,
        config_count(parser.sources@, ConfigKind::Debug) <= 1,
        config_count(parser.sources@, ConfigKind::Test) <= 1,
{
}

/// `server { }` at position `p`: the keyword, then an empty block.
pub open spec fn empty_server_at(t: Seq<Token>, p: int) -> bool {
    &&& 0 <= p && p + 3 <= t.len()
    &&& t[p].kind == TokenKind::Identifier && t[p].text@ == "server"@
    &&& is_symbol(t, p + 1, "{"@)
    &&& is_symbol(t, p + 2, "}"@)
}

/// A file that opens with two `server { }` blocks fails with the
/// duplicate-configuration error, whatever the session held before: the
/// second block meets a slot that the first one took.
pub proof fn law_duplicate_server_in_one_file(t: Seq<Token>, taken: Set<ConfigKind>)
    requires
        empty_server_at(t, 0),
        empty_server_at(t, 3),
    ensures
        declarations(t, 0, taken) == Outcome::Duplicate,
{
    lemma_server_keyword(t[0]);
    lemma_server_keyword(t[3]);
    if taken.contains(ConfigKind::Server) {
        assert(crate::grammar::is_taken(taken, config_kind_of(t[0].text@)));
    } else {
        let taken2 = taken.insert(ConfigKind::Server);
        assert(crate::grammar::is_taken(taken2, config_kind_of(t[3].text@)));
        assert(declarations(t, 3, taken2) == Outcome::Duplicate);
        assert(item_end(t, 0) == Some((crate::grammar::Shape { kind: TopKind::Config, config: Some(ConfigKind::Server) }, 3int)));
    }
}

/// A file that opens with `server { }` fails with the duplicate-configuration
/// error when the session already holds a `server` block from another file.
pub proof fn law_duplicate_server_across_files(t: Seq<Token>, parser: ASTParser)
    requires
        empty_server_at(t, 0),
        parser.server is Some,
    ensures
        declarations(t, 0, slot_taken(parser)) == Outcome::Duplicate,
{
    lemma_server_keyword(t[0]);
    assert(slot_taken(parser).contains(ConfigKind::Server));
}

proof fn lemma_server_keyword(tok: Token)
    requires
        tok.text@ == "server"@,
    ensures
        config_kind_of(tok.text@) == Some(ConfigKind::Server),
        tok.text@ != "import"@ && tok.text@ != "let"@ && tok.text@ != "model"@ && tok.text@ != "enum"@
            && tok.text@ != "middleware"@ && tok.text@ != "interface"@ && tok.text@ != "actions"@
            && tok.text@ != "dataset"@,
{
    reveal_strlit("server");
    reveal_strlit("import");
    reveal_strlit("let");
    reveal_strlit("model");
    reveal_strlit("enum");
    reveal_strlit("middleware");
    reveal_strlit("interface");
    reveal_strlit("actions");
    reveal_strlit("dataset");
    assert(tok.text@[0] == 's');
    assert(tok.text@.len() == 6);
}

} // verus!
