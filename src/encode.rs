//! The type- and dialect-directed encoder: the only way a value becomes SQL
//! text. Strings are quoted and escaped here, numbers and dates are written
//! here, and a value that does not fit its field's type is refused here.
use vstd::prelude::*;
use crate::text::{int_text, zero_padded, push_int, push_zero_padded, chars_of};
use crate::value::{Date, DateTime, Dialect, FieldType, Value};

verus! {

/// Why a value could not be written for a field.
#[derive(Clone, Copy, Debug, PartialEq, Eq, Structural)]
pub enum EncodeError {
    /// A null where the field is required.
    NullNotAllowed,
    /// A value whose kind does not fit the field's type.
    TypeMismatch,
    /// A number outside the range of the field's type, or an impossible date.
    OutOfRange,
}

/// The text of one character inside a quoted SQL string.
pub open spec fn escaped_char(c: char, d: Dialect) -> Seq<char> {
    if c == '\'' {
        seq!['\'', '\'']
    } else if c == '\\' && d == Dialect::MySQL {
        seq!['\\', '\\']
    } else {
        seq![c]
    }
}

/// The characters of `s` as they stand between the quotes of an SQL string.
pub open spec fn escaped(s: Seq<char>, d: Dialect) -> Seq<char>
    decreases s.len(),
{
    if s.len() == 0 {
        Seq::empty()
    } else {
        escaped(s.drop_last(), d) + escaped_char(s.last(), d)
    }
}

/// `s` as a quoted SQL string literal.
pub open spec fn quoted(s: Seq<char>, d: Dialect) -> Seq<char> {
    seq!['\''] + escaped(s, d) + seq!['\'']
}

/// `s` as a quoted `LIKE` pattern, with `%` on the edges that are left open.
pub open spec fn like_pattern(s: Seq<char>, open_start: bool, open_end: bool, d: Dialect) -> Seq<char> {
    seq!['\''] + (if open_start { seq!['%'] } else { Seq::empty() }) + escaped(s, d) + (if open_end {
        seq!['%']
    } else {
        Seq::empty()
    }) + seq!['\'']
}

pub open spec fn date_text(dt: Date) -> Seq<char> {
    zero_padded(dt.year as nat, 4) + seq!['-'] + zero_padded(dt.month as nat, 2) + seq!['-']
        + zero_padded(dt.day as nat, 2)
}

pub open spec fn date_time_text(t: DateTime) -> Seq<char> {
    date_text(t.date) + seq![' '] + zero_padded(t.hour as nat, 2) + seq![':'] + zero_padded(
        t.minute as nat,
        2,
    ) + seq![':'] + zero_padded(t.second as nat, 2)
}

/// Whether the integer fits the integer or numeric type `t`.
pub open spec fn int_fits(i: int, t: FieldType) -> bool {
    match t {
        FieldType::I32 => i32::MIN <= i <= i32::MAX,
        FieldType::U32 => 0 <= i <= u32::MAX,
        FieldType::U64 => 0 <= i,
        _ => true,
    }
}

/// The SQL text of a single (non-array) value for a field of type `t`.
pub open spec fn encode_scalar(v: Value, t: FieldType, optional: bool, d: Dialect) -> Result<Seq<char>, EncodeError> {
    match v {
        Value::Null => if optional {
            Ok(seq!['N', 'U', 'L', 'L'])
        } else {
            Err(EncodeError::NullNotAllowed)
        },
        Value::Bool(b) => if t is Bool {
            Ok(if b { seq!['T', 'R', 'U', 'E'] } else { seq!['F', 'A', 'L', 'S', 'E'] })
        } else {
            Err(EncodeError::TypeMismatch)
        },
        Value::Int(i) => if t.is_int_spec() || t is F32 || t is F64 || t is Decimal {
            if int_fits(i as int, t) {
                Ok(int_text(i as int))
            } else {
                Err(EncodeError::OutOfRange)
            }
        } else {
            Err(EncodeError::TypeMismatch)
        },
        Value::String(s) => if t is String || t is Enum || t is Decimal {
            Ok(quoted(s@, d))
        } else {
            Err(EncodeError::TypeMismatch)
        },
        Value::Date(dt) => if t is Date {
            if dt.is_valid() {
                Ok(quoted(date_text(dt), d))
            } else {
                Err(EncodeError::OutOfRange)
            }
        } else {
            Err(EncodeError::TypeMismatch)
        },
        Value::DateTime(dt) => if t is DateTime {
            if dt.is_valid() {
                Ok(quoted(date_time_text(dt), d))
            } else {
                Err(EncodeError::OutOfRange)
            }
        } else {
            Err(EncodeError::TypeMismatch)
        },
        _ => Err(EncodeError::TypeMismatch),
    }
}

/// The SQL texts of the elements of an array, each encoded for the element type.
pub open spec fn encode_elements(vs: Seq<Value>, t: FieldType, optional: bool, d: Dialect) -> Result<Seq<Seq<char>>, EncodeError>
    decreases vs.len(),
{
    if vs.len() == 0 {
        Ok(Seq::empty())
    } else {
        match encode_elements(vs.drop_last(), t, optional, d) {
            Err(e) => Err(e),
            Ok(parts) => match encode_scalar(vs.last(), t, optional, d) {
                Err(e) => Err(e),
                Ok(p) => Ok(parts.push(p)),
            },
        }
    }
}

/// The parts joined with the separator between each two.
pub open spec fn join(parts: Seq<Seq<char>>, sep: Seq<char>) -> Seq<char>
    decreases parts.len(),
{
    if parts.len() == 0 {
        Seq::empty()
    } else if parts.len() == 1 {
        parts[0]
    } else {
        join(parts.drop_last(), sep) + sep + parts.last()
    }
}

pub open spec fn views(v: Seq<String>) -> Seq<Seq<char>> {
    v.map_values(|s: String| s@)
}

/// The SQL text of a value for a field of type `t`: arrays become `ARRAY[...]`.
pub open spec fn encode(v: Value, t: FieldType, optional: bool, d: Dialect) -> Result<Seq<char>, EncodeError> {
    match t {
        FieldType::Array(element, element_optional) => match v {
            Value::Null => if optional {
                Ok(seq!['N', 'U', 'L', 'L'])
            } else {
                Err(EncodeError::NullNotAllowed)
            },
            Value::Array(vs) => match encode_elements(vs@, *element, element_optional, d) {
                Ok(parts) => Ok(seq!['A', 'R', 'R', 'A', 'Y', '['] + join(parts, seq![',', ' ']) + seq![']']),
                Err(e) => Err(e),
            },
            _ => Err(EncodeError::TypeMismatch),
        },
        _ => encode_scalar(v, t, optional, d),
    }
}

pub open spec fn result_view(r: Result<String, EncodeError>) -> Result<Seq<char>, EncodeError> {
    match r {
        Ok(s) => Ok(s@),
        Err(e) => Err(e),
    }
}

/// Appends the characters of `s` escaped for a quoted SQL string.
pub fn push_escaped(out: &mut String, s: &str, d: Dialect)
    ensures
        final(out)@ == old(out)@ + escaped(s@, d),
{
    let cs = chars_of(s);
    let ghost start = out@;
    let mut i: usize = 0;
    while i < cs.len()
        invariant
            i <= cs@.len(),
            cs@ == s@,
            out@ == start + escaped(cs@.subrange(0, i as int), d),
        decreases cs@.len() - i,
    {
        let c = cs[i];
        if c == '\'' {
            out.push('\'');
            out.push('\'');
        } else if c == '\\' && d == Dialect::MySQL {
            out.push('\\');
            out.push('\\');
        } else {
            out.push(c);
        }
        proof {
            let next = cs@.subrange(0, i + 1);
            assert(next.drop_last() =~= cs@.subrange(0, i as int));
        }
        i = i + 1;
        assert(out@ =~= start + escaped(cs@.subrange(0, i as int), d));
    }
    assert(cs@.subrange(0, cs@.len() as int) =~= s@);
}

/// `s` as a quoted SQL string literal.
pub fn quote(s: &str, d: Dialect) -> (r: String)
    ensures
        r@ == quoted(s@, d),
{
    let mut out = String::new();
    out.push('\'');
    push_escaped(&mut out, s, d);
    out.push('\'');
    assert(out@ =~= quoted(s@, d));
    out
}

/// `s` as a quoted `LIKE` pattern, open on the edges asked for.
pub fn like(s: &str, open_start: bool, open_end: bool, d: Dialect) -> (r: String)
    ensures
        r@ == like_pattern(s@, open_start, open_end, d),
{
    let mut out = String::new();
    out.push('\'');
    if open_start {
        out.push('%');
    }
    push_escaped(&mut out, s, d);
    if open_end {
        out.push('%');
    }
    out.push('\'');
    assert(out@ =~= like_pattern(s@, open_start, open_end, d));
    out
}

fn date_string(dt: &Date) -> (r: String)
    ensures
        r@ == date_text(*dt),
{
    let mut out = String::new();
    push_zero_padded(&mut out, dt.year as u64, 4);
    out.push('-');
    push_zero_padded(&mut out, dt.month as u64, 2);
    out.push('-');
    push_zero_padded(&mut out, dt.day as u64, 2);
    assert(out@ =~= date_text(*dt));
    out
}

fn date_time_string(t: &DateTime) -> (r: String)
    ensures
        r@ == date_time_text(*t),
{
    let mut out = date_string(&t.date);
    out.push(' ');
    push_zero_padded(&mut out, t.hour as u64, 2);
    out.push(':');
    push_zero_padded(&mut out, t.minute as u64, 2);
    out.push(':');
    push_zero_padded(&mut out, t.second as u64, 2);
    assert(out@ =~= date_time_text(*t));
    out
}

fn null_text() -> (r: String)
    ensures
        r@ == seq!['N', 'U', 'L', 'L'],
{
    let mut out = String::new();
    out.push('N');
    out.push('U');
    out.push('L');
    out.push('L');
    assert(out@ =~= seq!['N', 'U', 'L', 'L']);
    out
}

fn int_fits_type(i: i64, t: &FieldType) -> (r: bool)
    ensures
        r == int_fits(i as int, *t),
{
    match t {
        FieldType::I32 => -2147483648 <= i && i <= 2147483647,
        FieldType::U32 => 0 <= i && i <= 4294967295,
        FieldType::U64 => 0 <= i,
        _ => true,
    }
}

/// Writes a single (non-array) value for a field of type `t`.
pub fn to_sql_scalar(v: &Value, t: &FieldType, optional: bool, d: Dialect) -> (r: Result<String, EncodeError>)
    ensures
        result_view(r) == encode_scalar(*v, *t, optional, d),
{
    match v {
        Value::Null => if optional {
            Ok(null_text())
        } else {
            Err(EncodeError::NullNotAllowed)
        },
        Value::Bool(b) => match t {
            FieldType::Bool => {
                let mut out = String::new();
                if *b {
                    out.push('T');
                    out.push('R');
                    out.push('U');
                    out.push('E');
                    assert(out@ =~= seq!['T', 'R', 'U', 'E']);
                } else {
                    out.push('F');
                    out.push('A');
                    out.push('L');
                    out.push('S');
                    out.push('E');
                    assert(out@ =~= seq!['F', 'A', 'L', 'S', 'E']);
                }
                Ok(out)
            },
            _ => Err(EncodeError::TypeMismatch),
        },
        Value::Int(i) => match t {
            FieldType::I32 | FieldType::I64 | FieldType::U32 | FieldType::U64 | FieldType::F32
            | FieldType::F64 | FieldType::Decimal => {
                if int_fits_type(*i, t) {
                    let mut out = String::new();
                    push_int(&mut out, *i);
                    assert(out@ =~= int_text(*i as int));
                    Ok(out)
                } else {
                    Err(EncodeError::OutOfRange)
                }
            },
            _ => Err(EncodeError::TypeMismatch),
        },
        Value::String(s) => match t {
            FieldType::String | FieldType::Enum(_) | FieldType::Decimal => Ok(quote(s.as_str(), d)),
            _ => Err(EncodeError::TypeMismatch),
        },
        Value::Date(dt) => match t {
            FieldType::Date => {
                if dt.year <= 9999 && 1 <= dt.month && dt.month <= 12 && 1 <= dt.day && dt.day <= 31 {
                    let text = date_string(dt);
                    Ok(quote(text.as_str(), d))
                } else {
                    Err(EncodeError::OutOfRange)
                }
            },
            _ => Err(EncodeError::TypeMismatch),
        },
        Value::DateTime(dt) => match t {
            FieldType::DateTime => {
                if dt.date.year <= 9999 && 1 <= dt.date.month && dt.date.month <= 12 && 1 <= dt.date.day
                    && dt.date.day <= 31 && dt.hour < 24 && dt.minute < 60 && dt.second < 60 {
                    let text = date_time_string(dt);
                    Ok(quote(text.as_str(), d))
                } else {
                    Err(EncodeError::OutOfRange)
                }
            },
            _ => Err(EncodeError::TypeMismatch),
        },
        _ => Err(EncodeError::TypeMismatch),
    }
}

/// Writes each element of an array for the element type, in order.
pub fn to_sql_elements(vs: &Vec<Value>, t: &FieldType, optional: bool, d: Dialect) -> (r: Result<Vec<String>, EncodeError>)
    ensures
        match r {
            Ok(parts) => encode_elements(vs@, *t, optional, d) == Ok::<Seq<Seq<char>>, EncodeError>(views(parts@)),
            Err(e) => encode_elements(vs@, *t, optional, d) == Err::<Seq<Seq<char>>, EncodeError>(e),
        },
{
    let mut parts: Vec<String> = Vec::new();
    let mut i: usize = 0;
    assert(views(parts@) =~= Seq::<Seq<char>>::empty());
    while i < vs.len()
        invariant
            i <= vs@.len(),
            encode_elements(vs@.subrange(0, i as int), *t, optional, d) == Ok::<Seq<Seq<char>>, EncodeError>(views(parts@)),
        decreases vs@.len() - i,
    {
        let p = to_sql_scalar(&vs[i], t, optional, d);
        proof {
            assert(vs@.subrange(0, i + 1).drop_last() =~= vs@.subrange(0, i as int));
            assert(vs@.subrange(0, i + 1).last() == vs@[i as int]);
        }
        let ghost before = views(parts@);
        match p {
            Ok(s) => {
                parts.push(s);
                assert(views(parts@) =~= before.push(parts@.last()@));
            },
            Err(e) => {
                proof { lemma_elements_error_prefix(vs@, *t, optional, d, i as int + 1, e); }
                return Err(e);
            },
        }
        i = i + 1;
    }
    assert(vs@.subrange(0, vs@.len() as int) =~= vs@);
    Ok(parts)
}

/// Once a prefix of the elements fails to encode, the whole array fails the same way.
proof fn lemma_elements_error_prefix(vs: Seq<Value>, t: FieldType, optional: bool, d: Dialect, k: int, e: EncodeError)
    requires
        0 <= k <= vs.len(),
        encode_elements(vs.subrange(0, k), t, optional, d) == Err::<Seq<Seq<char>>, EncodeError>(e),
    ensures
        encode_elements(vs, t, optional, d) == Err::<Seq<Seq<char>>, EncodeError>(e),
    decreases vs.len() - k,
{
    if k < vs.len() {
        assert(vs.subrange(0, k + 1).drop_last() =~= vs.subrange(0, k));
        lemma_elements_error_prefix(vs, t, optional, d, k + 1, e);
    } else {
        assert(vs.subrange(0, k) =~= vs);
    }
}

/// Joins the parts with the separator between each two.
pub fn join_strings(parts: &Vec<String>, sep: &str) -> (r: String)
    ensures
        r@ == join(views(parts@), sep@),
{
    let mut out = String::new();
    let mut i: usize = 0;
    while i < parts.len()
        invariant
            i <= parts@.len(),
            out@ == join(views(parts@.subrange(0, i as int)), sep@),
        decreases parts@.len() - i,
    {
        proof {
            let next = views(parts@.subrange(0, i + 1));
            assert(next.drop_last() =~= views(parts@.subrange(0, i as int)));
            assert(next.last() == parts@[i as int]@);
            if i == 0 {
                assert(next.len() == 1);
            }
        }
        if i > 0 {
            out.append(sep);
        }
        out.append(parts[i].as_str());
        i = i + 1;
        proof {
            if i == 1 {
                assert(out@ =~= views(parts@.subrange(0, 1))[0]);
            }
        }
    }
    assert(parts@.subrange(0, parts@.len() as int) =~= parts@);
    out
}

/// Writes a value for a field of type `t`: the injection-safe boundary between
/// values and SQL text.
pub fn to_sql_string(v: &Value, t: &FieldType, optional: bool, d: Dialect) -> (r: Result<String, EncodeError>)
    ensures
        result_view(r) == encode(*v, *t, optional, d),
{
    match t {
        FieldType::Array(element, element_optional) => match v {
            Value::Null => if optional {
                Ok(null_text())
            } else {
                Err(EncodeError::NullNotAllowed)
            },
            Value::Array(vs) => match to_sql_elements(vs, element, *element_optional, d) {
                Ok(parts) => {
                    let mut out = String::new();
                    out.push('A');
                    out.push('R');
                    out.push('R');
                    out.push('A');
                    out.push('Y');
                    out.push('[');
                    let mut sep = String::new();
                    sep.push(',');
                    sep.push(' ');
                    let body = join_strings(&parts, sep.as_str());
                    out.append(body.as_str());
                    out.push(']');
                    assert(sep@ =~= seq![',', ' ']);
                    assert(out@ =~= seq!['A', 'R', 'R', 'A', 'Y', '['] + join(views(parts@), seq![',', ' ']) + seq![']']);
                    Ok(out)
                },
                Err(e) => Err(e),
            },
            _ => Err(EncodeError::TypeMismatch),
        },
        _ => to_sql_scalar(v, t, optional, d),
    }
}

} // verus!
