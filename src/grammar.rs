//! The grammar of the schema language as spec functions over tokens: where
//! each production that starts at a position ends, or `None` where the tokens
//! do not match it. The parsers in `expr` and `parser` are held to these.
use vstd::prelude::*;
use crate::ast::{Arity, ConfigKind};
use crate::expr::{is_symbol, precedence_at};
use crate::lexer::{Token, TokenKind};
use crate::parser::{after_arity, arity_at, config_kind_of, TopKind};

verus! {

pub open spec fn kind_is(t: Seq<Token>, p: int, k: TokenKind) -> bool {
    0 <= p < t.len() && t[p].kind == k
}

pub open spec fn word_is(t: Seq<Token>, p: int, w: Seq<char>) -> bool {
    kind_is(t, p, TokenKind::Identifier) && t[p].text@ == w
}

/// An expression: alternatives joined by `??`.
pub open spec fn expr_end(t: Seq<Token>, pos: int) -> Option<int>
    decreases t.len() - pos, 6int,
{
    match arith_end(t, pos, 1) {
        Some(p) => if pos < p <= t.len() { coalesce_end(t, p) } else { None },
        None => None,
    }
}

pub open spec fn coalesce_end(t: Seq<Token>, p: int) -> Option<int>
    decreases t.len() - p, 5int,
{
    if is_symbol(t, p, "??"@) {
        match arith_end(t, p + 1, 1) {
            Some(q) => if p + 1 < q <= t.len() { coalesce_end(t, q) } else { None },
            None => None,
        }
    } else {
        Some(p)
    }
}

/// Operators of precedence at least `min` and their operands.
pub open spec fn arith_end(t: Seq<Token>, pos: int, min: int) -> Option<int>
    decreases t.len() - pos, 4int,
{
    match prefix_end(t, pos) {
        Some(p) => if pos < p <= t.len() { arith_loop_end(t, p, min) } else { None },
        None => None,
    }
}

pub open spec fn arith_loop_end(t: Seq<Token>, p: int, min: int) -> Option<int>
    decreases t.len() - p, 4int,
{
    if 0 <= p < t.len() && precedence_at(t, p) >= min {
        match arith_end(t, p + 1, precedence_at(t, p) + 1) {
            Some(q) => if p + 1 < q <= t.len() { arith_loop_end(t, q, min) } else { None },
            None => None,
        }
    } else {
        Some(p)
    }
}

pub open spec fn prefix_end(t: Seq<Token>, pos: int) -> Option<int>
    decreases t.len() - pos, 3int,
{
    if is_symbol(t, pos, "-"@) || is_symbol(t, pos, "~"@) || is_symbol(t, pos, "$"@) {
        unit_end(t, pos + 1)
    } else {
        unit_end(t, pos)
    }
}

pub open spec fn unit_end(t: Seq<Token>, pos: int) -> Option<int>
    decreases t.len() - pos, 2int,
{
    match chain_end(t, pos) {
        Some(p) => if pos < p <= t.len() {
            if is_symbol(t, p, ".."@) || is_symbol(t, p, "..."@) { chain_end(t, p + 1) } else { Some(p) }
        } else {
            None
        },
        None => None,
    }
}

pub open spec fn chain_end(t: Seq<Token>, pos: int) -> Option<int>
    decreases t.len() - pos, 1int,
{
    match primary_end(t, pos) {
        Some(p) => if pos < p <= t.len() { chain_loop_end(t, p) } else { None },
        None => None,
    }
}

pub open spec fn chain_loop_end(t: Seq<Token>, p: int) -> Option<int>
    decreases t.len() - p, 1int,
{
    if is_symbol(t, p, "."@) && kind_is(t, p + 1, TokenKind::Identifier) {
        chain_loop_end(t, p + 2)
    } else if is_symbol(t, p, "("@) {
        match args_end(t, p) {
            Some(q) => if p < q <= t.len() { chain_loop_end(t, q) } else { None },
            None => None,
        }
    } else if is_symbol(t, p, "["@) {
        match expr_end(t, p + 1) {
            Some(q) => if p + 1 < q <= t.len() && is_symbol(t, q, "]"@) { chain_loop_end(t, q + 1) } else { None },
            None => None,
        }
    } else {
        Some(p)
    }
}

/// `( arguments )` starting at the `(`.
pub open spec fn args_end(t: Seq<Token>, pos: int) -> Option<int>
    decreases t.len() - pos, 0int,
{
    if 0 <= pos < t.len() { args_loop_end(t, pos + 1) } else { None }
}

pub open spec fn args_loop_end(t: Seq<Token>, p: int) -> Option<int>
    decreases t.len() - p, 7int,
{
    if is_symbol(t, p, ")"@) {
        Some(p + 1)
    } else {
        let s = if kind_is(t, p, TokenKind::Identifier) && is_symbol(t, p + 1, ":"@) { p + 2 } else { p };
        match expr_end(t, s) {
            Some(q) => if s < q <= t.len() && p <= s {
                if is_symbol(t, q, ","@) {
                    args_loop_end(t, q + 1)
                } else if is_symbol(t, q, ")"@) {
                    args_loop_end(t, q)
                } else {
                    None
                }
            } else {
                None
            },
            None => None,
        }
    }
}

/// Expressions separated by commas up to `close`, from just after the opening symbol.
pub open spec fn list_end(t: Seq<Token>, p: int, close: Seq<char>) -> Option<int>
    decreases t.len() - p, 7int,
{
    if is_symbol(t, p, close) {
        Some(p + 1)
    } else {
        match expr_end(t, p) {
            Some(q) => if p < q <= t.len() {
                if is_symbol(t, q, ","@) {
                    list_end(t, q + 1, close)
                } else if is_symbol(t, q, close) {
                    list_end(t, q, close)
                } else {
                    None
                }
            } else {
                None
            },
            None => None,
        }
    }
}

/// `key: value` entries up to `}`, from just after the `{`.
pub open spec fn dict_end(t: Seq<Token>, p: int) -> Option<int>
    decreases t.len() - p, 7int,
{
    if is_symbol(t, p, "}"@) {
        Some(p + 1)
    } else {
        match expr_end(t, p) {
            Some(k) => if p < k <= t.len() && is_symbol(t, k, ":"@) {
                match expr_end(t, k + 1) {
                    Some(v) => if k + 1 < v <= t.len() {
                        if is_symbol(t, v, ","@) {
                            dict_end(t, v + 1)
                        } else if is_symbol(t, v, "}"@) {
                            dict_end(t, v)
                        } else {
                            None
                        }
                    } else {
                        None
                    },
                    None => None,
                }
            } else {
                None
            },
            None => None,
        }
    }
}

pub open spec fn primary_end(t: Seq<Token>, pos: int) -> Option<int>
    decreases t.len() - pos, 0int,
{
    if !(0 <= pos < t.len()) {
        None
    } else if t[pos].kind == TokenKind::Number || t[pos].kind == TokenKind::StringLiteral || t[pos].kind
        == TokenKind::RegExp || t[pos].kind == TokenKind::Identifier {
        Some(pos + 1)
    } else if t[pos].kind == TokenKind::DocComment {
        None
    } else if is_symbol(t, pos, "."@) && kind_is(t, pos + 1, TokenKind::Identifier) {
        if is_symbol(t, pos + 2, "("@) { args_end(t, pos + 2) } else { Some(pos + 2) }
    } else if is_symbol(t, pos, "("@) {
        list_end(t, pos + 1, ")"@)
    } else if is_symbol(t, pos, "["@) {
        list_end(t, pos + 1, "]"@)
    } else if is_symbol(t, pos, "{"@) {
        dict_end(t, pos + 1)
    } else {
        None
    }
}

/// Consecutive documentation lines.
pub open spec fn doc_end(t: Seq<Token>, p: int) -> int
    decreases t.len() - p,
{
    if kind_is(t, p, TokenKind::DocComment) { doc_end(t, p + 1) } else { p }
}

/// Decorators introduced by `marker`, each followed by a unit.
pub open spec fn decorators_end(t: Seq<Token>, p: int, marker: Seq<char>) -> Option<int>
    decreases t.len() - p,
{
    if is_symbol(t, p, marker) {
        match chain_end(t, p + 1) {
            Some(q) => if p + 1 < q <= t.len() { decorators_end(t, q, marker) } else { None },
            None => None,
        }
    } else {
        Some(p)
    }
}

/// `Name`, then `?`, then `[]` or `{}`, then `?`.
pub open spec fn type_end(t: Seq<Token>, pos: int) -> Option<int> {
    if kind_is(t, pos, TokenKind::Identifier) {
        let q = if is_symbol(t, pos + 1, "?"@) { pos + 2 } else { pos + 1 };
        let q2 = after_arity(t, q);
        Some(if arity_at(t, q) != Arity::Scalar && is_symbol(t, q2, "?"@) { q2 + 1 } else { q2 })
    } else {
        None
    }
}

/// A field: documentation, decorators, `name: Type`, decorators.
pub open spec fn field_end(t: Seq<Token>, pos: int) -> Option<int> {
    let a = doc_end(t, pos);
    match decorators_end(t, a, "@"@) {
        Some(b) => if kind_is(t, b, TokenKind::Identifier) {
            let c = if is_symbol(t, b + 1, ":"@) { b + 2 } else { b + 1 };
            match type_end(t, c) {
                Some(e) => decorators_end(t, e, "@"@),
                None => None,
            }
        } else {
            None
        },
        None => None,
    }
}

/// The body of a model after its `{`: fields and `@@` decorators up to `}`.
pub open spec fn model_body_end(t: Seq<Token>, p: int) -> Option<int>
    decreases t.len() - p,
{
    if !(0 <= p < t.len()) {
        None
    } else if is_symbol(t, p, "}"@) {
        Some(p + 1)
    } else if is_symbol(t, p, "@@"@) {
        match decorators_end(t, p, "@@"@) {
            Some(q) => if p < q <= t.len() { model_body_end(t, q) } else { None },
            None => None,
        }
    } else {
        match field_end(t, p) {
            Some(q) => if p < q <= t.len() { model_body_end(t, q) } else { None },
            None => None,
        }
    }
}

/// `model Name { ... }` from the keyword.
pub open spec fn model_end(t: Seq<Token>, pos: int) -> Option<int> {
    if kind_is(t, pos + 1, TokenKind::Identifier) && is_symbol(t, pos + 2, "{"@) { model_body_end(t, pos + 3) } else { None }
}

/// An enum choice: documentation, decorators, a name.
pub open spec fn choice_end(t: Seq<Token>, p: int) -> Option<int> {
    match decorators_end(t, doc_end(t, p), "@"@) {
        Some(b) => if kind_is(t, b, TokenKind::Identifier) { Some(b + 1) } else { None },
        None => None,
    }
}

pub open spec fn enum_body_end(t: Seq<Token>, p: int) -> Option<int>
    decreases t.len() - p,
{
    if !(0 <= p < t.len()) {
        None
    } else if is_symbol(t, p, "}"@) {
        Some(p + 1)
    } else if is_symbol(t, p, "@@"@) {
        match decorators_end(t, p, "@@"@) {
            Some(q) => if p < q <= t.len() { enum_body_end(t, q) } else { None },
            None => None,
        }
    } else {
        match choice_end(t, p) {
            Some(q) => if p < q <= t.len() { enum_body_end(t, q) } else { None },
            None => None,
        }
    }
}

/// `enum Name { ... }` from the keyword.
pub open spec fn enum_end(t: Seq<Token>, pos: int) -> Option<int> {
    if kind_is(t, pos + 1, TokenKind::Identifier) && is_symbol(t, pos + 2, "{"@) { enum_body_end(t, pos + 3) } else { None }
}

/// `let name = expression` from the keyword.
pub open spec fn let_end(t: Seq<Token>, pos: int) -> Option<int> {
    if kind_is(t, pos + 1, TokenKind::Identifier) && is_symbol(t, pos + 2, "="@) { expr_end(t, pos + 3) } else { None }
}

/// Names separated by commas up to `}`, from just after the `{`.
pub open spec fn names_end(t: Seq<Token>, p: int) -> Option<int>
    decreases t.len() - p,
{
    if is_symbol(t, p, "}"@) {
        Some(p + 1)
    } else if kind_is(t, p, TokenKind::Identifier) {
        if is_symbol(t, p + 1, ","@) {
            names_end(t, p + 2)
        } else if is_symbol(t, p + 1, "}"@) {
            names_end(t, p + 1)
        } else {
            None
        }
    } else {
        None
    }
}

/// `import "path"` or `import { names } from "path"` from the keyword.
pub open spec fn import_end(t: Seq<Token>, pos: int) -> Option<int> {
    if is_symbol(t, pos + 1, "{"@) {
        match names_end(t, pos + 2) {
            Some(q) => if word_is(t, q, "from"@) && kind_is(t, q + 1, TokenKind::StringLiteral) { Some(q + 2) } else { None },
            None => None,
        }
    } else if kind_is(t, pos + 1, TokenKind::StringLiteral) {
        Some(pos + 2)
    } else {
        None
    }
}

/// The items of a configuration block after its `{`, up to `}`.
pub open spec fn config_body_end(t: Seq<Token>, p: int) -> Option<int>
    decreases t.len() - p,
{
    if is_symbol(t, p, "}"@) {
        Some(p + 1)
    } else if kind_is(t, p, TokenKind::DocComment) {
        config_body_end(t, p + 1)
    } else if kind_is(t, p, TokenKind::Identifier) {
        match expr_end(t, p + 1) {
            Some(q) => if p + 1 < q <= t.len() { config_body_end(t, q) } else { None },
            None => None,
        }
    } else {
        None
    }
}

/// `keyword name? { name expression ... }` from the keyword.
pub open spec fn config_end(t: Seq<Token>, pos: int) -> Option<int> {
    let p = if kind_is(t, pos + 1, TokenKind::Identifier) { pos + 2 } else { pos + 1 };
    if is_symbol(t, p, "{"@) { config_body_end(t, p + 1) } else { None }
}

/// Skips to the `)` that closes `depth` open parentheses.
pub open spec fn parens_end(t: Seq<Token>, p: int, depth: nat) -> Option<int>
    decreases t.len() - p,
{
    if depth == 0 {
        Some(p)
    } else if !(0 <= p < t.len()) {
        None
    } else if is_symbol(t, p, "("@) {
        parens_end(t, p + 1, depth + 1)
    } else if is_symbol(t, p, ")"@) {
        parens_end(t, p + 1, (depth - 1) as nat)
    } else {
        parens_end(t, p + 1, depth)
    }
}

/// `middleware name(...)` from the keyword.
pub open spec fn middleware_end(t: Seq<Token>, pos: int) -> Option<int> {
    if kind_is(t, pos + 1, TokenKind::Identifier) {
        if is_symbol(t, pos + 2, "("@) { parens_end(t, pos + 3, 1) } else { Some(pos + 2) }
    } else {
        None
    }
}

/// An interface type: a name, generic arguments in `<...>`, and its suffix.
pub open spec fn itype_end(t: Seq<Token>, pos: int) -> Option<int>
    decreases t.len() - pos, 0int,
{
    if kind_is(t, pos, TokenKind::Identifier) {
        let a = if is_symbol(t, pos + 1, "<"@) { itype_args_end(t, pos + 2) } else { Some(pos + 1) };
        match a {
            Some(a) => {
                let q = if is_symbol(t, a, "?"@) { a + 1 } else { a };
                let q2 = after_arity(t, q);
                Some(if arity_at(t, q) != Arity::Scalar && is_symbol(t, q2, "?"@) { q2 + 1 } else { q2 })
            },
            None => None,
        }
    } else {
        None
    }
}

pub open spec fn itype_args_end(t: Seq<Token>, p: int) -> Option<int>
    decreases t.len() - p, 1int,
{
    match itype_end(t, p) {
        Some(q) => if p < q <= t.len() {
            if is_symbol(t, q, ","@) {
                itype_args_end(t, q + 1)
            } else if is_symbol(t, q, ">"@) {
                Some(q + 1)
            } else {
                None
            }
        } else {
            None
        },
        None => None,
    }
}

pub open spec fn extends_end(t: Seq<Token>, p: int) -> Option<int>
    decreases t.len() - p,
{
    match itype_end(t, p) {
        Some(q) => if p < q <= t.len() {
            if is_symbol(t, q, ","@) { extends_end(t, q + 1) } else { Some(q) }
        } else {
            None
        },
        None => None,
    }
}

pub open spec fn interface_body_end(t: Seq<Token>, p: int) -> Option<int>
    decreases t.len() - p,
{
    if is_symbol(t, p, "}"@) {
        Some(p + 1)
    } else if kind_is(t, p, TokenKind::DocComment) {
        interface_body_end(t, p + 1)
    } else if kind_is(t, p, TokenKind::Identifier) && is_symbol(t, p + 1, ":"@) {
        match itype_end(t, p + 2) {
            Some(q) => if p + 2 < q <= t.len() { interface_body_end(t, q) } else { None },
            None => None,
        }
    } else {
        None
    }
}

/// `interface Name extends A, B { name: Type ... }` from the keyword.
pub open spec fn interface_end(t: Seq<Token>, pos: int) -> Option<int> {
    match itype_end(t, pos + 1) {
        Some(q) => {
            let b = if word_is(t, q, "extends"@) { extends_end(t, q + 1) } else { Some(q) };
            match b {
                Some(b) => if is_symbol(t, b, "{"@) { interface_body_end(t, b + 1) } else { None },
                None => None,
            }
        },
        None => None,
    }
}

/// `name: Input -> Output`, with `form` before the input for form requests.
pub open spec fn action_end(t: Seq<Token>, pos: int) -> Option<int> {
    if kind_is(t, pos, TokenKind::Identifier) && is_symbol(t, pos + 1, ":"@) {
        let p = if word_is(t, pos + 2, "form"@) && kind_is(t, pos + 3, TokenKind::Identifier) { pos + 3 } else { pos + 2 };
        match itype_end(t, p) {
            Some(q) => if is_symbol(t, q, "-"@) && is_symbol(t, q + 1, ">"@) { itype_end(t, q + 2) } else { None },
            None => None,
        }
    } else {
        None
    }
}

pub open spec fn actions_body_end(t: Seq<Token>, p: int) -> Option<int>
    decreases t.len() - p,
{
    if is_symbol(t, p, "}"@) {
        Some(p + 1)
    } else if kind_is(t, p, TokenKind::DocComment) {
        actions_body_end(t, p + 1)
    } else {
        match action_end(t, p) {
            Some(q) => if p < q <= t.len() { actions_body_end(t, q) } else { None },
            None => None,
        }
    }
}

/// `actions Name { action declarations }` from the keyword.
pub open spec fn actions_end(t: Seq<Token>, pos: int) -> Option<int> {
    if kind_is(t, pos + 1, TokenKind::Identifier) && is_symbol(t, pos + 2, "{"@) { actions_body_end(t, pos + 3) } else { None }
}

pub open spec fn flags_end(t: Seq<Token>, p: int) -> int
    decreases t.len() - p,
{
    if word_is(t, p, "autoseed"@) || word_is(t, p, "notrack"@) { flags_end(t, p + 1) } else { p }
}

pub open spec fn records_end(t: Seq<Token>, p: int) -> Option<int>
    decreases t.len() - p,
{
    if is_symbol(t, p, "}"@) {
        Some(p + 1)
    } else if word_is(t, p, "record"@) && kind_is(t, p + 1, TokenKind::Identifier) && is_symbol(t, p + 2, "{"@) {
        match expr_end(t, p + 2) {
            Some(q) => if p + 2 < q <= t.len() { records_end(t, q) } else { None },
            None => None,
        }
    } else {
        None
    }
}

pub open spec fn groups_end(t: Seq<Token>, p: int) -> Option<int>
    decreases t.len() - p,
{
    if is_symbol(t, p, "}"@) {
        Some(p + 1)
    } else if word_is(t, p, "group"@) && kind_is(t, p + 1, TokenKind::Identifier) && is_symbol(t, p + 2, "{"@) {
        match records_end(t, p + 3) {
            Some(q) => if p < q <= t.len() { groups_end(t, q) } else { None },
            None => None,
        }
    } else {
        None
    }
}

/// `dataset name autoseed notrack { groups }` from the keyword.
pub open spec fn dataset_end(t: Seq<Token>, pos: int) -> Option<int> {
    if kind_is(t, pos + 1, TokenKind::Identifier) {
        let p = flags_end(t, pos + 2);
        if is_symbol(t, p, "{"@) { groups_end(t, p + 1) } else { None }
    } else {
        None
    }
}

/// The category of a top-level declaration, with its configuration kind.
pub struct Shape {
    pub kind: TopKind,
    pub config: Option<ConfigKind>,
}

/// The declaration that the keyword at `b` opens: its shape and where it ends.
pub open spec fn item_end(t: Seq<Token>, b: int) -> Option<(Shape, int)> {
    let w = t[b].text@;
    let end = if w == "import"@ {
        import_end(t, b)
    } else if w == "let"@ {
        let_end(t, b)
    } else if w == "model"@ {
        model_end(t, b)
    } else if w == "enum"@ {
        enum_end(t, b)
    } else if w == "middleware"@ {
        middleware_end(t, b)
    } else if w == "interface"@ {
        interface_end(t, b)
    } else if w == "actions"@ {
        actions_end(t, b)
    } else if w == "dataset"@ {
        dataset_end(t, b)
    } else if config_kind_of(w) is Some {
        config_end(t, b)
    } else {
        None
    };
    let kind = if w == "import"@ {
        TopKind::Import
    } else if w == "let"@ {
        TopKind::Constant
    } else if w == "model"@ {
        TopKind::Model
    } else if w == "enum"@ {
        TopKind::Enum
    } else if w == "middleware"@ {
        TopKind::Middleware
    } else if w == "interface"@ {
        TopKind::Interface
    } else if w == "actions"@ {
        TopKind::ActionGroup
    } else if w == "dataset"@ {
        TopKind::DataSet
    } else {
        TopKind::Config
    };
    let config = if kind == TopKind::Config { config_kind_of(w) } else { None };
    match end {
        Some(e) => Some((Shape { kind, config }, e)),
        None => None,
    }
}

/// How parsing a source's tokens ends.
pub enum Outcome {
    /// Every declaration parsed: their shapes, in file order.
    Parsed(Seq<Shape>),
    /// A second block of a singleton configuration kind.
    Duplicate,
    /// Text that no production matches.
    Unparsed,
}

/// Whether a configuration kind is a singleton that is already taken.
pub open spec fn is_taken(taken: Set<ConfigKind>, k: Option<ConfigKind>) -> bool {
    k matches Some(c) && c.is_singleton() && taken.contains(c)
}

/// The declarations from `p` on, given the singleton kinds already taken.
pub open spec fn declarations(t: Seq<Token>, p: int, taken: Set<ConfigKind>) -> Outcome
    decreases t.len() - p,
{
    if !(0 <= p < t.len()) {
        Outcome::Parsed(Seq::empty())
    } else {
        let a = doc_end(t, p);
        match decorators_end(t, a, "@"@) {
            None => Outcome::Unparsed,
            Some(b) => if !(0 <= b < t.len()) {
                Outcome::Parsed(Seq::empty())
            } else if t[b].kind != TokenKind::Identifier {
                Outcome::Unparsed
            } else if is_taken(taken, config_kind_of(t[b].text@)) {
                Outcome::Duplicate
            } else {
                match item_end(t, b) {
                    None => Outcome::Unparsed,
                    Some((shape, q)) => if p < q <= t.len() {
                        let taken2 = match shape.config {
                            Some(c) => taken.insert(c),
                            None => taken,
                        };
                        match declarations(t, q, taken2) {
                            Outcome::Parsed(rest) => Outcome::Parsed(seq![shape] + rest),
                            other => other,
                        }
                    } else {
                        Outcome::Unparsed
                    },
                }
            },
        }
    }
}

} // verus!
