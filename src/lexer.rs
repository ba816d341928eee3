//! The tokenizer of the schema language.
use vstd::prelude::*;
use crate::diagnostics::Span;
use crate::text::{chars_of, string_of};

verus! {

#[derive(Clone, Copy, Debug, PartialEq, Eq, Structural)]
pub enum TokenKind {
    Identifier,
    Number,
    /// A string literal, quotes and escapes included as written.
    StringLiteral,
    /// A regular expression literal, without its slashes.
    RegExp,
    /// The text of a `///` comment line, after the slashes.
    DocComment,
    Symbol,
}

#[derive(Debug)]
pub struct Token {
    pub kind: TokenKind,
    pub text: String,
    pub span: Span,
}

/// Why the text could not be split into tokens.
#[derive(Debug)]
pub struct LexError {
    pub span: Span,
}

pub open spec fn is_ident_start(c: char) -> bool {
    ('a' <= c && c <= 'z') || ('A' <= c && c <= 'Z') || c == '_'
}

pub open spec fn is_digit(c: char) -> bool {
    '0' <= c && c <= '9'
}

pub open spec fn is_ident_char(c: char) -> bool {
    is_ident_start(c) || is_digit(c)
}

/// A name of the language: a letter or `_`, then letters, digits and `_`.
pub open spec fn is_identifier(s: Seq<char>) -> bool {
    s.len() > 0 && is_ident_start(s[0]) && forall|i: int| 0 <= i < s.len() ==> is_ident_char(#[trigger] s[i])
}

/// The number of bytes that UTF-8 takes for the character.
pub open spec fn utf8_len(c: char) -> nat {
    if (c as u32) < 0x80 {
        1
    } else if (c as u32) < 0x800 {
        2
    } else if (c as u32) < 0x10000 {
        3
    } else {
        4
    }
}

/// What every token list that the tokenizer returns satisfies: the spans
/// are non-empty, in order and apart, and every identifier token is a name.
pub open spec fn tokens_wf(tokens: Seq<Token>) -> bool {
    &&& forall|k: int| 0 <= k < tokens.len() ==> #[trigger] tokens[k].span.start < tokens[k].span.end
    &&& forall|k: int| 0 <= k < tokens.len() - 1 ==> #[trigger] tokens[k].span.end <= tokens[k + 1].span.start
    &&& forall|k: int|
        0 <= k < tokens.len() && #[trigger] tokens[k].kind == TokenKind::Identifier ==> is_identifier(tokens[k].text@)
}

fn is_ident_start_char(c: char) -> (r: bool)
    ensures
        r == is_ident_start(c),
{
    ('a' <= c && c <= 'z') || ('A' <= c && c <= 'Z') || c == '_'
}

fn is_digit_char(c: char) -> (r: bool)
    ensures
        r == is_digit(c),
{
    '0' <= c && c <= '9'
}

fn utf8_width(c: char) -> (r: usize)
    ensures
        r == utf8_len(c),
{
    let u = c as u32;
    if u < 0x80 {
        1
    } else if u < 0x800 {
        2
    } else if u < 0x10000 {
        3
    } else {
        4
    }
}

/// A position in the text: index of the character, byte offset, line and column.
struct Cursor {
    index: usize,
    offset: usize,
    line: usize,
    col: usize,
}

/// Symbols of two or three characters, longest first.
fn symbol_len(cs: &Vec<char>, i: usize) -> (r: usize)
    requires
        i < cs@.len(),
    ensures
        1 <= r <= 3,
        i + r <= cs@.len(),
{
    let c = cs[i];
    let n = cs.len();
    if c == '.' && n - i > 2 && cs[i + 1] == '.' && cs[i + 2] == '.' {
        3
    } else if n - i > 1 && ((c == '.' && cs[i + 1] == '.') || (c == '@' && cs[i + 1] == '@') || (c
        == '?' && cs[i + 1] == '?')) {
        2
    } else {
        1
    }
}

/// The characters that make up symbols.
pub open spec fn symbol_char(c: char) -> bool {
    c == '{' || c == '}' || c == '(' || c == ')' || c == '[' || c == ']' || c == ',' || c == ':'
        || c == '.' || c == '@' || c == '?' || c == '=' || c == '+' || c == '-' || c == '*' || c
        == '/' || c == '%' || c == '&' || c == '^' || c == '|' || c == '~' || c == '!' || c == '$'
        || c == '<' || c == '>'
}

/// A character that never makes tokenizing fail: a name or number character,
/// blank space, or a symbol other than `/`, which may open a regular expression.
pub open spec fn plain_char(c: char) -> bool {
    is_ident_char(c) || c == ' ' || c == '\t' || c == '\r' || c == '\n' || (symbol_char(c) && c != '/')
}

fn is_symbol_char(c: char) -> (r: bool)
    ensures
        r == symbol_char(c),
{
    c == '{' || c == '}' || c == '(' || c == ')' || c == '[' || c == ']' || c == ',' || c == ':'
        || c == '.' || c == '@' || c == '?' || c == '=' || c == '+' || c == '-' || c == '*' || c
        == '/' || c == '%' || c == '&' || c == '^' || c == '|' || c == '~' || c == '!' || c == '$'
        || c == '<' || c == '>'
}

/// Whether a `/` after this token divides (rather than opening a regular expression).
fn ends_operand(t: &Token) -> bool {
    match t.kind {
        TokenKind::Identifier | TokenKind::Number | TokenKind::StringLiteral | TokenKind::RegExp => true,
        TokenKind::Symbol => {
            let s = t.text.as_str();
            s.unicode_len() == 1 && (s.get_char(0) == ')' || s.get_char(0) == ']')
        },
        TokenKind::DocComment => false,
    }
}

/// Splits schema text into tokens. Whitespace and `//` comments are dropped;
/// `///` comments are kept as doc comment tokens.
pub fn tokenize(content: &str) -> (r: Result<Vec<Token>, LexError>)
    requires
        content@.len() < usize::MAX / 8,
    ensures
        r matches Ok(tokens) ==> tokens_wf(tokens@) && tokens@.len() <= content@.len(),
        (forall|i: int| 0 <= i < content@.len() ==> plain_char(#[trigger] content@[i])) ==> r is Ok,
        r is Err ==> exists|i: int| 0 <= i < content@.len() && (content@[i] == '"' || content@[i] == '/' || !plain_char(#[trigger] content@[i])),
{
    let cs = chars_of(content);
    let n = cs.len();
    let mut tokens: Vec<Token> = Vec::new();
    let mut cur = Cursor { index: 0, offset: 0, line: 1, col: 1 };
    while cur.index < n
        invariant
            n == cs@.len(),
            n < usize::MAX / 8,
            cur.index <= n,
            cur.offset <= 4 * cur.index,
            cur.line <= cur.index + 1,
            cur.col <= cur.index + 1,
            tokens_wf(tokens@),
            tokens@.len() <= cur.index,
            tokens@.len() > 0 ==> tokens@.last().span.end <= cur.offset,
            cs@ == content@,
        decreases n - cur.index,
    {
        let c = cs[cur.index];
        if c == '\n' {
            cur = Cursor { index: cur.index + 1, offset: cur.offset + 1, line: cur.line + 1, col: 1 };
        } else if c == ' ' || c == '\t' || c == '\r' {
            cur = Cursor { index: cur.index + 1, offset: cur.offset + 1, line: cur.line, col: cur.col + 1 };
        } else {
            // Where the token's text starts and ends, in characters.
            let mut text_from = cur.index;
            let mut text_to = cur.index;
            let mut kind = TokenKind::Symbol;
            let mut keep = true;
            let mut end = cur.index;
            if c == '/' && cur.index + 1 < n && cs[cur.index + 1] == '/' {
                end = cur.index + 2;
                let doc = end < n && cs[end] == '/';
                if doc {
                    end = end + 1;
                }
                text_from = end;
                while end < n && cs[end] != '\n'
                    invariant
                        cur.index < end <= n,
                        text_from <= end,
                        n == cs@.len(),
                    decreases n - end,
                {
                    end = end + 1;
                }
                text_to = end;
                kind = TokenKind::DocComment;
                keep = doc;
            } else if is_ident_start_char(c) {
                end = cur.index + 1;
                while end < n && (is_ident_start_char(cs[end]) || is_digit_char(cs[end]))
                    invariant
                        cur.index < end <= n,
                        n == cs@.len(),
                        is_ident_start(cs@[cur.index as int]),
                        forall|k: int| cur.index <= k < end ==> is_ident_char(#[trigger] cs@[k]),
                    decreases n - end,
                {
                    end = end + 1;
                }
                text_to = end;
                kind = TokenKind::Identifier;
                assert(is_identifier(cs@.subrange(text_from as int, text_to as int)));
            } else if is_digit_char(c) {
                end = cur.index + 1;
                while end < n && (is_digit_char(cs[end]) || (cs[end] == '.' && end + 1 < n && is_digit_char(cs[end + 1])))
                    invariant
                        cur.index < end <= n,
                        n == cs@.len(),
                    decreases n - end,
                {
                    end = end + 1;
                }
                text_to = end;
                kind = TokenKind::Number;
            } else if c == '"' {
                end = cur.index + 1;
                let mut closed = false;
                while end < n && !closed && cs[end] != '\n'
                    invariant
                        cur.index < end <= n,
                        n == cs@.len(),
                    decreases n - end, if closed { 0int } else { 1int },
                {
                    if cs[end] == '\\' && end + 1 < n {
                        end = end + 2;
                    } else {
                        if cs[end] == '"' {
                            closed = true;
                        }
                        end = end + 1;
                    }
                }
                if !closed {
                    return Err(LexError { span: Span { start: cur.offset, end: cur.offset + 1, start_position: (cur.line, cur.col), end_position: (cur.line, cur.col + 1) } });
                }
                text_to = end;
                kind = TokenKind::StringLiteral;
            } else if c == '/' && !(tokens.len() > 0 && ends_operand(&tokens[tokens.len() - 1])) {
                end = cur.index + 1;
                let mut closed = false;
                while end < n && !closed && cs[end] != '\n'
                    invariant
                        cur.index < end <= n,
                        n == cs@.len(),
                        closed ==> end >= cur.index + 2,
                    decreases n - end, if closed { 0int } else { 1int },
                {
                    if cs[end] == '\\' && end + 1 < n {
                        end = end + 2;
                    } else {
                        if cs[end] == '/' {
                            closed = true;
                        }
                        end = end + 1;
                    }
                }
                if !closed {
                    return Err(LexError { span: Span { start: cur.offset, end: cur.offset + 1, start_position: (cur.line, cur.col), end_position: (cur.line, cur.col + 1) } });
                }
                text_from = cur.index + 1;
                text_to = end - 1;
                kind = TokenKind::RegExp;
            } else if is_symbol_char(c) {
                end = cur.index + symbol_len(&cs, cur.index);
                text_to = end;
            } else {
                return Err(LexError { span: Span { start: cur.offset, end: cur.offset + 1, start_position: (cur.line, cur.col), end_position: (cur.line, cur.col + 1) } });
            }
            assert(text_from <= text_to <= n);
            assert(cur.index < end);
            assert(kind == TokenKind::Identifier ==> is_identifier(cs@.subrange(text_from as int, text_to as int)));
            // Advance over the token, keeping count of bytes and columns.
            let mut offset = cur.offset;
            let mut k = cur.index;
            while k < end
                invariant
                    cur.index <= k <= end <= n,
                    n == cs@.len(),
                    n < usize::MAX / 8,
                    cur.offset <= 4 * cur.index,
                    offset <= cur.offset + 4 * (k - cur.index),
                    offset >= cur.offset + (k - cur.index),
                decreases end - k,
            {
                offset = offset + utf8_width(cs[k]);
                k = k + 1;
            }
            let span = Span {
                start: cur.offset,
                end: offset,
                start_position: (cur.line, cur.col),
                end_position: (cur.line, cur.col + (end - cur.index)),
            };
            if keep {
                let piece = string_of(&cs, text_from, text_to);
                let tok = Token { kind, text: piece, span };
                let ghost before = tokens@;
                tokens.push(tok);
                proof {
                    assert(tokens_wf(before));
                    assert(tokens@ == before.push(tok));
                    assert(before.len() > 0 ==> before.last().span.end <= tok.span.start);
                    assert(tok.span.start < tok.span.end);
                    assert forall|k: int| 0 <= k < tokens@.len() implies #[trigger] tokens@[k].span.start
                        < tokens@[k].span.end by {
                        if k < before.len() {
                            assert(tokens@[k] == before[k]);
                            assert(before[k].span.start < before[k].span.end);
                        }
                    }
                    assert forall|k: int| 0 <= k < tokens@.len() - 1 implies #[trigger] tokens@[k].span.end
                        <= tokens@[k + 1].span.start by {
                        if k < before.len() - 1 {
                            assert(tokens@[k] == before[k] && tokens@[k + 1] == before[k + 1]);
                        }
                    }
                    assert forall|k: int|
                        0 <= k < tokens@.len() && #[trigger] tokens@[k].kind == TokenKind::Identifier implies is_identifier(
                        tokens@[k].text@,
                    ) by {
                        if k < before.len() {
                            assert(tokens@[k] == before[k]);
                        }
                    }
                }
            }
            cur = Cursor { index: end, offset, line: cur.line, col: cur.col + (end - cur.index) };
        }
    }
    Ok(tokens)
}

} // verus!
