//! Expressions: literals, units (`a.b(c)[d]`), ranges, prefix operators,
//! arithmetic by precedence climbing, and nullish coalescing.
use vstd::prelude::*;
use crate::ast::{precedence, precedence_ordered, Argument, ArithOp, Expression, Identifier};
use crate::diagnostics::Span;
use crate::lexer::{Token, TokenKind};
use crate::text::str_eq;
use crate::grammar::{args_end, args_loop_end, arith_end, arith_loop_end, chain_end, chain_loop_end, coalesce_end, dict_end, expr_end, list_end, prefix_end, primary_end, unit_end};

verus! {

/// Where the tokens stopped making sense.
#[derive(Debug)]
pub struct ParseError {
    pub span: Span,
}

pub open spec fn is_symbol(tokens: Seq<Token>, pos: int, s: Seq<char>) -> bool {
    0 <= pos < tokens.len() && tokens[pos].kind == TokenKind::Symbol && tokens[pos].text@ == s
}

/// The precedence of the operator that the token stands for, 0 for any other token.
pub open spec fn token_precedence(t: Token) -> int {
    if t.kind != TokenKind::Symbol {
        0
    } else if t.text@ == "|"@ {
        1
    } else if t.text@ == "^"@ {
        2
    } else if t.text@ == "&"@ {
        3
    } else if t.text@ == "+"@ || t.text@ == "-"@ {
        4
    } else if t.text@ == "*"@ || t.text@ == "/"@ || t.text@ == "%"@ {
        5
    } else {
        0
    }
}

pub open spec fn precedence_at(tokens: Seq<Token>, pos: int) -> int {
    if 0 <= pos < tokens.len() {
        token_precedence(tokens[pos])
    } else {
        0
    }
}

/// A one-token operand: a number or a name (other than `null`, `true` and
/// `false`) that no member access, call, subscript or range follows.
pub open spec fn operand_at(tokens: Seq<Token>, pos: int) -> Option<Expression> {
    if 0 <= pos < tokens.len() && !is_symbol(tokens, pos + 1, "."@) && !is_symbol(tokens, pos + 1, "("@)
        && !is_symbol(tokens, pos + 1, "["@) && !is_symbol(tokens, pos + 1, ".."@) && !is_symbol(tokens, pos + 1, "..."@) {
        if tokens[pos].kind == TokenKind::Number {
            Some(Expression::Numeric(tokens[pos].text, tokens[pos].span))
        } else if tokens[pos].kind == TokenKind::Identifier && tokens[pos].text@ != "null"@ && tokens[pos].text@
            != "true"@ && tokens[pos].text@ != "false"@ {
            Some(Expression::Identifier(Identifier { name: tokens[pos].text, span: tokens[pos].span }))
        } else {
            None
        }
    } else {
        None
    }
}

/// The operator that an operator token stands for.
pub open spec fn operator_of(t: Token) -> ArithOp {
    if t.text@ == "|"@ {
        ArithOp::BitOr
    } else if t.text@ == "^"@ {
        ArithOp::BitXor
    } else if t.text@ == "&"@ {
        ArithOp::BitAnd
    } else if t.text@ == "+"@ {
        ArithOp::Add
    } else if t.text@ == "-"@ {
        ArithOp::Sub
    } else if t.text@ == "*"@ {
        ArithOp::Mul
    } else if t.text@ == "/"@ {
        ArithOp::Div
    } else {
        ArithOp::Mod
    }
}

/// Precedence climbing over one-token operands: the operand at `pos`, then
/// every operator of precedence at least `min` with its right operand, which
/// takes in the operators that bind tighter. `None` where an operand is not a
/// one-token operand.
pub open spec fn climb(tokens: Seq<Token>, pos: int, min: int) -> Option<(Expression, int)>
    decreases tokens.len() - pos, 1int,
{
    if 0 <= pos < tokens.len() {
        match operand_at(tokens, pos) {
            Some(e) => climb_loop(tokens, e, pos + 1, min),
            None => None,
        }
    } else {
        None
    }
}

/// The loop of `climb`, with `lhs` parsed up to `p`.
pub open spec fn climb_loop(tokens: Seq<Token>, lhs: Expression, p: int, min: int) -> Option<(Expression, int)>
    decreases tokens.len() - p, 0int,
{
    if 0 <= p < tokens.len() && precedence_at(tokens, p) >= min {
        match climb(tokens, p + 1, precedence_at(tokens, p) + 1) {
            Some((rhs, q)) => if p < q <= tokens.len() {
                climb_loop(tokens, Expression::BinaryOp(Box::new(lhs), operator_of(tokens[p]), Box::new(rhs)), q, min)
            } else {
                None
            },
            None => None,
        }
    } else {
        Some((lhs, p))
    }
}

/// What the operator tokens stand for, and how tightly they bind.
pub proof fn lemma_operator_tokens(t: Token)
    requires
        t.kind == TokenKind::Symbol,
    ensures
        t.text@ == "+"@ ==> token_precedence(t) == 4 && operator_of(t) == ArithOp::Add,
        t.text@ == "-"@ ==> token_precedence(t) == 4 && operator_of(t) == ArithOp::Sub,
        t.text@ == "*"@ ==> token_precedence(t) == 5 && operator_of(t) == ArithOp::Mul,
{
    reveal_strlit("|");
    reveal_strlit("^");
    reveal_strlit("&");
    reveal_strlit("+");
    reveal_strlit("-");
    reveal_strlit("*");
    if t.text@ == "-"@ {
        assert(t.text@[0] == '-');
    }
    if t.text@ == "*"@ {
        assert(t.text@[0] == '*');
    }
    if t.text@ == "+"@ {
        assert(t.text@[0] == '+');
    }
}

/// `a + b * c` parses as `a + (b * c)` and `a * b + c` as `(a * b) + c`.
pub proof fn law_precedence(tokens: Seq<Token>)
    requires
        tokens.len() == 5,
        operand_at(tokens, 0) is Some,
        operand_at(tokens, 2) is Some,
        operand_at(tokens, 4) is Some,
        is_symbol(tokens, 1, "+"@),
        is_symbol(tokens, 3, "*"@),
    ensures
        climb(tokens, 0, 1) == Some((
            Expression::BinaryOp(
                Box::new(operand_at(tokens, 0)->0),
                ArithOp::Add,
                Box::new(Expression::BinaryOp(Box::new(operand_at(tokens, 2)->0), ArithOp::Mul, Box::new(operand_at(tokens, 4)->0))),
            ),
            5int,
        )),
{
    lemma_operator_tokens(tokens[1]);
    lemma_operator_tokens(tokens[3]);
    reveal_with_fuel(climb, 4);
    reveal_with_fuel(climb_loop, 6);

    assert(precedence_at(tokens, 5) == 0);
    assert(precedence_at(tokens, 3) == 5);
    assert(precedence_at(tokens, 1) == 4);
    assert(operator_of(tokens[1]) == ArithOp::Add);
    assert(operator_of(tokens[3]) == ArithOp::Mul);
    let a = operand_at(tokens, 0)->0;
    let b = operand_at(tokens, 2)->0;
    let c = operand_at(tokens, 4)->0;
    assert(climb(tokens, 4, 6) == Some((c, 5int)));
    let bc = Expression::BinaryOp(Box::new(b), ArithOp::Mul, Box::new(c));
    assert(climb_loop(tokens, bc, 5, 5) == Some((bc, 5int)));
    assert(climb(tokens, 2, 5) == Some((bc, 5int)));
    let abc = Expression::BinaryOp(Box::new(a), ArithOp::Add, Box::new(bc));
    assert(climb_loop(tokens, abc, 5, 1) == Some((abc, 5int)));
    assert(climb_loop(tokens, a, 1, 1) == Some((abc, 5int)));
}

/// Operators of one precedence associate to the left: `a - b - c` parses as `(a - b) - c`.
pub proof fn law_left_associative(tokens: Seq<Token>)
    requires
        tokens.len() == 5,
        operand_at(tokens, 0) is Some,
        operand_at(tokens, 2) is Some,
        operand_at(tokens, 4) is Some,
        is_symbol(tokens, 1, "-"@),
        is_symbol(tokens, 3, "-"@),
    ensures
        climb(tokens, 0, 1) == Some((
            Expression::BinaryOp(
                Box::new(Expression::BinaryOp(Box::new(operand_at(tokens, 0)->0), ArithOp::Sub, Box::new(operand_at(tokens, 2)->0))),
                ArithOp::Sub,
                Box::new(operand_at(tokens, 4)->0),
            ),
            5int,
        )),
{
    lemma_operator_tokens(tokens[1]);
    lemma_operator_tokens(tokens[3]);
    reveal_with_fuel(climb, 4);
    reveal_with_fuel(climb_loop, 6);

    assert(precedence_at(tokens, 5) == 0);
    assert(precedence_at(tokens, 3) == 4);
    assert(precedence_at(tokens, 1) == 4);
    assert(operator_of(tokens[1]) == ArithOp::Sub);
}

pub fn symbol_at(tokens: &Vec<Token>, pos: usize, s: &str) -> (r: bool)
    ensures
        r == is_symbol(tokens@, pos as int, s@),
{
    pos < tokens.len() && tokens[pos].kind == TokenKind::Symbol && str_eq(tokens[pos].text.as_str(), s)
}

/// Whether the token at `pos` is the identifier `s`.
pub fn word_at(tokens: &Vec<Token>, pos: usize, s: &str) -> (r: bool)
    ensures
        r == (pos < tokens@.len() && tokens@[pos as int].kind == TokenKind::Identifier
            && tokens@[pos as int].text@ == s@),
{
    pos < tokens.len() && tokens[pos].kind == TokenKind::Identifier && str_eq(tokens[pos].text.as_str(), s)
}

pub fn kind_at(tokens: &Vec<Token>, pos: usize, kind: TokenKind) -> (r: bool)
    ensures
        r == (pos < tokens@.len() && tokens@[pos as int].kind == kind),
{
    pos < tokens.len() && tokens[pos].kind == kind
}

fn operator_precedence(tokens: &Vec<Token>, pos: usize) -> (r: u8)
    ensures
        r as int == precedence_at(tokens@, pos as int),
{
    if pos >= tokens.len() || tokens[pos].kind != TokenKind::Symbol {
        return 0;
    }
    let s = tokens[pos].text.as_str();
    if str_eq(s, "|") {
        1
    } else if str_eq(s, "^") {
        2
    } else if str_eq(s, "&") {
        3
    } else if str_eq(s, "+") || str_eq(s, "-") {
        4
    } else if str_eq(s, "*") || str_eq(s, "/") || str_eq(s, "%") {
        5
    } else {
        0
    }
}

fn operator_at(tokens: &Vec<Token>, pos: usize) -> (r: ArithOp)
    requires
        precedence_at(tokens@, pos as int) > 0,
    ensures
        precedence(r) == precedence_at(tokens@, pos as int),
        r == operator_of(tokens@[pos as int]),
{
    let s = tokens[pos].text.as_str();
    if str_eq(s, "|") {
        ArithOp::BitOr
    } else if str_eq(s, "^") {
        ArithOp::BitXor
    } else if str_eq(s, "&") {
        ArithOp::BitAnd
    } else if str_eq(s, "+") {
        ArithOp::Add
    } else if str_eq(s, "-") {
        ArithOp::Sub
    } else if str_eq(s, "*") {
        ArithOp::Mul
    } else if str_eq(s, "/") {
        ArithOp::Div
    } else {
        ArithOp::Mod
    }
}

/// An error at the token at `pos`, or at the end of the text.
pub fn error_at(tokens: &Vec<Token>, pos: usize) -> (r: ParseError) {
    if pos < tokens.len() {
        ParseError { span: tokens[pos].span }
    } else if tokens.len() > 0 {
        ParseError { span: tokens[tokens.len() - 1].span }
    } else {
        ParseError { span: Span { start: 0, end: 0, start_position: (1, 1), end_position: (1, 1) } }
    }
}

/// The span from the token at `from` to the token before `to`.
pub fn span_of(tokens: &Vec<Token>, from: usize, to: usize) -> (r: Span)
    requires
        from < to <= tokens@.len(),
    ensures
        r.start == tokens@[from as int].span.start,
        r.end == tokens@[to - 1].span.end,
{
    let a = tokens[from].span;
    let b = tokens[to - 1].span;
    Span { start: a.start, end: b.end, start_position: a.start_position, end_position: b.end_position }
}

pub fn identifier_at(tokens: &Vec<Token>, pos: usize) -> (r: Identifier)
    requires
        pos < tokens@.len(),
    ensures
        r.name@ == tokens@[pos as int].text@,
        r.name == tokens@[pos as int].text,
        r.span == tokens@[pos as int].span,
{
    Identifier { name: tokens[pos].text.clone(), span: tokens[pos].span }
}

/// An expression: alternatives joined by `??`.
pub fn parse_expression(tokens: &Vec<Token>, pos: usize) -> (r: Result<(Expression, usize), ParseError>)
    requires
        tokens@.len() < usize::MAX,
    ensures
        match expr_end(tokens@, pos as int) {
            Some(e) => r matches Ok((_, p)) && p == e,
            None => r is Err,
        },
        r matches Ok((_, p)) ==> pos < p <= tokens@.len(),
        climb(tokens@, pos as int, 1) matches Some((e, q)) ==> (!is_symbol(tokens@, q, "??"@) ==> (r matches Ok((e2, p2))
            && e2 == e && p2 == q)),
    decreases tokens@.len() - pos, 6int,
{
    let (first, mut p) = parse_arith(tokens, pos, 1)?;
    if !symbol_at(tokens, p, "??") {
        return Ok((first, p));
    }
    let mut alternatives: Vec<Expression> = Vec::new();
    alternatives.push(first);
    while symbol_at(tokens, p, "??")
        invariant
            expr_end(tokens@, pos as int) == coalesce_end(tokens@, p as int),
            tokens@.len() < usize::MAX,
            climb(tokens@, pos as int, 1) matches Some((e, q)) ==> is_symbol(tokens@, q, "??"@),
            pos < p <= tokens@.len(),
        decreases tokens@.len() - p,
    {
        let (next, q) = parse_arith(tokens, p + 1, 1)?;
        alternatives.push(next);
        p = q;
    }
    Ok((Expression::NullishCoalescing(alternatives, span_of(tokens, pos, p)), p))
}

/// Operators of precedence at least `min` and their operands, by precedence climbing.
pub fn parse_arith(tokens: &Vec<Token>, pos: usize, min: u8) -> (r: Result<(Expression, usize), ParseError>)
    requires
        tokens@.len() < usize::MAX,
        1 <= min <= 6,
    ensures
        match arith_end(tokens@, pos as int, min as int) {
            Some(e) => r matches Ok((_, p)) && p == e,
            None => r is Err,
        },
        r matches Ok((e, p)) ==> {
            &&& pos < p <= tokens@.len()
            &&& precedence_ordered(e)
            &&& (e matches Expression::BinaryOp(_, op, _) ==> precedence(op) >= min)
            &&& precedence_at(tokens@, p as int) < min
        },
        climb(tokens@, pos as int, min as int) matches Some((e, q)) ==> (r matches Ok((e2, p2)) && e2 == e && p2 == q),
    decreases tokens@.len() - pos, 4int,
{
    let (mut lhs, mut p) = parse_prefix(tokens, pos)?;
    assert(!(lhs is BinaryOp));
    loop
        invariant
            arith_end(tokens@, pos as int, min as int) == arith_loop_end(tokens@, p as int, min as int),
            tokens@.len() < usize::MAX,
            pos < p <= tokens@.len(),
            1 <= min <= 6,
            precedence_ordered(lhs),
            lhs matches Expression::BinaryOp(_, op, _) ==> precedence(op) >= min
                && precedence_at(tokens@, p as int) <= precedence(op),
            climb(tokens@, pos as int, min as int) matches Some(res) ==> climb_loop(tokens@, lhs, p as int, min as int) == Some(res),
        ensures
            climb(tokens@, pos as int, min as int) matches Some(res) ==> res == (lhs, p as int),
            arith_end(tokens@, pos as int, min as int) == Some(p as int),
            pos < p <= tokens@.len(),
            precedence_ordered(lhs),
            lhs matches Expression::BinaryOp(_, op, _) ==> precedence(op) >= min,
            precedence_at(tokens@, p as int) < min,
        decreases tokens@.len() - p,
    {
        let prec = operator_precedence(tokens, p);
        if prec < min {
            break;
        }
        let op = operator_at(tokens, p);
        let (rhs, q) = parse_arith(tokens, p + 1, prec + 1)?;
        lhs = Expression::BinaryOp(Box::new(lhs), op, Box::new(rhs));
        p = q;
    }
    Ok((lhs, p))
}

/// `-unit`, `~unit`, `$unit`, or a unit.
pub fn parse_prefix(tokens: &Vec<Token>, pos: usize) -> (r: Result<(Expression, usize), ParseError>)
    requires
        tokens@.len() < usize::MAX,
    ensures
        match prefix_end(tokens@, pos as int) {
            Some(e) => r matches Ok((_, p)) && p == e,
            None => r is Err,
        },
        operand_at(tokens@, pos as int) matches Some(e) ==> (r matches Ok((e2, p2)) && e2 == e && p2 == pos + 1),
        r matches Ok((e, p)) ==> pos < p <= tokens@.len() && !(e is BinaryOp),
    decreases tokens@.len() - pos, 3int,
{
    if symbol_at(tokens, pos, "-") || symbol_at(tokens, pos, "~") || symbol_at(tokens, pos, "$") {
        let (inner, p) = parse_unit(tokens, pos + 1)?;
        let span = span_of(tokens, pos, p);
        let e = if symbol_at(tokens, pos, "-") {
            Expression::Negation(Box::new(inner), span)
        } else if symbol_at(tokens, pos, "~") {
            Expression::BitwiseNegation(Box::new(inner), span)
        } else {
            Expression::Pipeline(Box::new(inner), span)
        };
        Ok((e, p))
    } else {
        parse_unit(tokens, pos)
    }
}

/// A chained unit, optionally followed by `..` or `...` and the range's end.
pub fn parse_unit(tokens: &Vec<Token>, pos: usize) -> (r: Result<(Expression, usize), ParseError>)
    requires
        tokens@.len() < usize::MAX,
    ensures
        match unit_end(tokens@, pos as int) {
            Some(e) => r matches Ok((_, p)) && p == e,
            None => r is Err,
        },
        operand_at(tokens@, pos as int) matches Some(e) ==> (r matches Ok((e2, p2)) && e2 == e && p2 == pos + 1),
        r matches Ok((e, p)) ==> pos < p <= tokens@.len() && !(e is BinaryOp),
    decreases tokens@.len() - pos, 2int,
{
    let (start, p) = parse_chain(tokens, pos)?;
    if symbol_at(tokens, p, "..") || symbol_at(tokens, p, "...") {
        let closed = symbol_at(tokens, p, "...");
        let (end, q) = parse_chain(tokens, p + 1)?;
        Ok((Expression::Range(closed, Box::new(start), Box::new(end), span_of(tokens, pos, q)), q))
    } else {
        Ok((start, p))
    }
}

/// A primary expression followed by member names, argument lists and
/// subscripts. One element stands alone; more make a unit.
pub fn parse_chain(tokens: &Vec<Token>, pos: usize) -> (r: Result<(Expression, usize), ParseError>)
    requires
        tokens@.len() < usize::MAX,
    ensures
        match chain_end(tokens@, pos as int) {
            Some(e) => r matches Ok((_, p)) && p == e,
            None => r is Err,
        },
        r matches Ok((e, _)) ==> (e matches Expression::Unit(els, _) ==> els@.len() >= 2),
        operand_at(tokens@, pos as int) matches Some(e) ==> (r matches Ok((e2, p2)) && e2 == e && p2 == pos + 1),
        r matches Ok((e, p)) ==> pos < p <= tokens@.len() && !(e is BinaryOp),
    decreases tokens@.len() - pos, 1int,
{
    let (first, mut p) = parse_primary(tokens, pos)?;
    let mut elements: Vec<Expression> = Vec::new();
    elements.push(first);
    loop
        invariant
            chain_end(tokens@, pos as int) == chain_loop_end(tokens@, p as int),
            tokens@.len() < usize::MAX,
            pos < p <= tokens@.len(),
            elements@.len() >= 1,
            elements@.len() == 1 ==> !(elements@[0] is BinaryOp) && !(elements@[0] is Unit),
            operand_at(tokens@, pos as int) matches Some(e) ==> p == pos + 1 && elements@ == seq![e],
        ensures
            chain_end(tokens@, pos as int) == Some(p as int),
            pos < p <= tokens@.len(),
            elements@.len() >= 1,
            elements@.len() == 1 ==> !(elements@[0] is BinaryOp) && !(elements@[0] is Unit),
            operand_at(tokens@, pos as int) matches Some(e) ==> p == pos + 1 && elements@ == seq![e],
        decreases tokens@.len() - p,
    {
        if symbol_at(tokens, p, ".") && kind_at(tokens, p + 1, TokenKind::Identifier) {
            elements.push(Expression::Identifier(identifier_at(tokens, p + 1)));
            p = p + 2;
        } else if symbol_at(tokens, p, "(") {
            let (args, q) = parse_arguments(tokens, p)?;
            elements.push(Expression::ArgumentList(args, span_of(tokens, p, q)));
            p = q;
        } else if symbol_at(tokens, p, "[") {
            let (inner, q) = parse_expression(tokens, p + 1)?;
            if !symbol_at(tokens, q, "]") {
                return Err(error_at(tokens, q));
            }
            elements.push(Expression::Subscript(Box::new(inner), span_of(tokens, p, q + 1)));
            p = q + 1;
        } else {
            break;
        }
    }
    if elements.len() == 1 {
        let e = elements.pop().unwrap();
        Ok((e, p))
    } else {
        Ok((Expression::Unit(elements, span_of(tokens, pos, p)), p))
    }
}

/// `(a, name: b, ...)` starting at the `(`: the arguments and the position after `)`.
pub fn parse_arguments(tokens: &Vec<Token>, pos: usize) -> (r: Result<(Vec<Argument>, usize), ParseError>)
    requires
        tokens@.len() < usize::MAX,
        is_symbol(tokens@, pos as int, "("@),
    ensures
        match args_end(tokens@, pos as int) {
            Some(e) => r matches Ok((_, p)) && p == e,
            None => r is Err,
        },
        r matches Ok((_, p)) ==> pos < p <= tokens@.len(),
    decreases tokens@.len() - pos, 7int,
{
    let mut args: Vec<Argument> = Vec::new();
    let mut p = pos + 1;
    loop
        invariant
            args_end(tokens@, pos as int) == args_loop_end(tokens@, p as int),
            tokens@.len() < usize::MAX,
            pos < p <= tokens@.len(),
        decreases tokens@.len() - p,
    {
        if symbol_at(tokens, p, ")") {
            return Ok((args, p + 1));
        }
        let start = p;
        let mut name: Option<Identifier> = None;
        if kind_at(tokens, p, TokenKind::Identifier) && symbol_at(tokens, p + 1, ":") {
            name = Some(identifier_at(tokens, p));
            p = p + 2;
        }
        let (value, q) = parse_expression(tokens, p)?;
        args.push(Argument { name, value, span: span_of(tokens, start, q) });
        p = q;
        if symbol_at(tokens, p, ",") {
            p = p + 1;
        } else if !symbol_at(tokens, p, ")") {
            return Err(error_at(tokens, p));
        }
    }
}

/// Expressions separated by commas up to the closing symbol, a trailing comma
/// allowed; `pos` is just after the opening symbol.
fn parse_list(tokens: &Vec<Token>, pos: usize, close: &str) -> (r: Result<(Vec<Expression>, usize), ParseError>)
    requires
        pos <= tokens@.len(),
        tokens@.len() < usize::MAX,
    ensures
        match list_end(tokens@, pos as int, close@) {
            Some(e) => r matches Ok((_, p)) && p == e,
            None => r is Err,
        },
        r matches Ok((_, p)) ==> pos < p <= tokens@.len(),
    decreases tokens@.len() - pos, 7int,
{
    let mut items: Vec<Expression> = Vec::new();
    let mut p = pos;
    loop
        invariant
            list_end(tokens@, pos as int, close@) == list_end(tokens@, p as int, close@),
            tokens@.len() < usize::MAX,
            pos <= p <= tokens@.len(),
        decreases tokens@.len() - p,
    {
        if symbol_at(tokens, p, close) {
            return Ok((items, p + 1));
        }
        let (e, q) = parse_expression(tokens, p)?;
        items.push(e);
        p = q;
        if symbol_at(tokens, p, ",") {
            p = p + 1;
        } else if !symbol_at(tokens, p, close) {
            return Err(error_at(tokens, p));
        }
    }
}

/// `key: value, ...}` from just after the `{`: the entries and the position after `}`.
fn parse_dictionary(tokens: &Vec<Token>, start: usize) -> (r: Result<(Vec<(Expression, Expression)>, usize), ParseError>)
    requires
        0 < start <= tokens@.len() < usize::MAX,
    ensures
        match dict_end(tokens@, start as int) {
            Some(e) => r matches Ok((_, p)) && p == e,
            None => r is Err,
        },
        r matches Ok((_, p)) ==> start < p <= tokens@.len(),
    decreases tokens@.len() - start, 8int,
{
    let mut entries: Vec<(Expression, Expression)> = Vec::new();
    let mut p = start;
    loop
        invariant
            dict_end(tokens@, start as int) == dict_end(tokens@, p as int),
            tokens@.len() < usize::MAX,
            start <= p <= tokens@.len(),
        decreases tokens@.len() - p,
    {
        if symbol_at(tokens, p, "}") {
            return Ok((entries, p + 1));
        }
        let (key, q) = parse_expression(tokens, p)?;
        if !symbol_at(tokens, q, ":") {
            return Err(error_at(tokens, q));
        }
        let (value, q2) = parse_expression(tokens, q + 1)?;
        entries.push((key, value));
        p = q2;
        if symbol_at(tokens, p, ",") {
            p = p + 1;
        } else if !symbol_at(tokens, p, "}") {
            return Err(error_at(tokens, p));
        }
    }
}

/// A literal, a name, an enum choice, a group, a tuple, an array or a dictionary.
pub fn parse_primary(tokens: &Vec<Token>, pos: usize) -> (r: Result<(Expression, usize), ParseError>)
    requires
        tokens@.len() < usize::MAX,
    ensures
        match primary_end(tokens@, pos as int) {
            Some(e) => r matches Ok((_, p)) && p == e,
            None => r is Err,
        },
        r matches Ok((e, _)) ==> !(e is Unit),
        operand_at(tokens@, pos as int) matches Some(e) ==> (r matches Ok((e2, p2)) && e2 == e && p2 == pos + 1),
        r matches Ok((e, p)) ==> pos < p <= tokens@.len() && !(e is BinaryOp),
    decreases tokens@.len() - pos, 0int,
{
    if pos >= tokens.len() {
        return Err(error_at(tokens, pos));
    }
    let span = tokens[pos].span;
    match tokens[pos].kind {
        TokenKind::Number => Ok((Expression::Numeric(tokens[pos].text.clone(), span), pos + 1)),
        TokenKind::StringLiteral => Ok((Expression::StringLiteral(tokens[pos].text.clone(), span), pos + 1)),
        TokenKind::RegExp => Ok((Expression::RegExp(tokens[pos].text.clone(), span), pos + 1)),
        TokenKind::Identifier => {
            if word_at(tokens, pos, "null") {
                Ok((Expression::Null(span), pos + 1))
            } else if word_at(tokens, pos, "true") {
                Ok((Expression::Bool(true, span), pos + 1))
            } else if word_at(tokens, pos, "false") {
                Ok((Expression::Bool(false, span), pos + 1))
            } else {
                Ok((Expression::Identifier(identifier_at(tokens, pos)), pos + 1))
            }
        },
        TokenKind::DocComment => Err(error_at(tokens, pos)),
        TokenKind::Symbol => {
            if symbol_at(tokens, pos, ".") && kind_at(tokens, pos + 1, TokenKind::Identifier) {
                let name = identifier_at(tokens, pos + 1);
                if symbol_at(tokens, pos + 2, "(") {
                    let (args, q) = parse_arguments(tokens, pos + 2)?;
                    Ok((Expression::EnumChoice(name, Some(args), span_of(tokens, pos, q)), q))
                } else {
                    Ok((Expression::EnumChoice(name, None, span_of(tokens, pos, pos + 2)), pos + 2))
                }
            } else if symbol_at(tokens, pos, "(") {
                let (mut items, q) = parse_list(tokens, pos + 1, ")")?;
                let s = span_of(tokens, pos, q);
                if items.len() == 1 && !symbol_at(tokens, q - 2, ",") {
                    let inner = items.pop().unwrap();
                    Ok((Expression::Group(Box::new(inner), s), q))
                } else {
                    Ok((Expression::Tuple(items, s), q))
                }
            } else if symbol_at(tokens, pos, "[") {
                let (items, q) = parse_list(tokens, pos + 1, "]")?;
                Ok((Expression::Array(items, span_of(tokens, pos, q)), q))
            } else if symbol_at(tokens, pos, "{") {
                let (entries, q) = parse_dictionary(tokens, pos + 1)?;
                Ok((Expression::Dictionary(entries, span_of(tokens, pos, q)), q))
            } else {
                Err(error_at(tokens, pos))
            }
        },
    }
}

} // verus!
