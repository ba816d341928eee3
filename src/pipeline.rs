//! Pipeline items that check or transform a single value.
use vstd::prelude::*;
use crate::text::{chars_of, decimal_text, push_decimal};
use crate::value::Value;

verus! {

/// Why an item stopped the pipeline.
#[derive(Clone, Copy, Debug, PartialEq, Eq, Structural)]
pub enum PipelineErrorKind {
    /// The value does not pass the check.
    Invalid,
    /// The item cannot be applied to the value.
    InternalServerError,
}

#[derive(Debug)]
pub struct PipelineError {
    pub kind: PipelineErrorKind,
    pub message: String,
}

fn fail(kind: PipelineErrorKind, message: &str) -> (r: PipelineError)
    ensures
        r.kind == kind,
        r.message@ == message@,
{
    PipelineError { kind, message: String::from_str(message) }
}

/// Reverses a string or an array.
#[derive(Debug, Copy, Clone)]
pub struct ReverseModifier {}

impl ReverseModifier {
    pub fn new() -> Self {
        ReverseModifier {}
    }

    pub fn call(&self, value: Value) -> (r: Result<Value, PipelineError>)
        ensures
            match value {
                Value::String(s) => r matches Ok(Value::String(t)) && t@ == s@.reverse(),
                Value::Array(v) => r matches Ok(Value::Array(w)) && w@ == v@.reverse(),
                _ => r matches Err(e) && e.kind == PipelineErrorKind::InternalServerError,
            },
    {
        match value {
            Value::String(s) => {
                let cs = chars_of(s.as_str());
                let mut out = String::new();
                let mut i: usize = cs.len();
                while i > 0
                    invariant
                        i <= cs@.len(),
                        cs@ == s@,
                        out@ == cs@.subrange(i as int, cs@.len() as int).reverse(),
                    decreases i,
                {
                    i = i - 1;
                    out.push(cs[i]);
                    assert(out@ =~= cs@.subrange(i as int, cs@.len() as int).reverse());
                }
                assert(cs@.subrange(0, cs@.len() as int) =~= cs@);
                Ok(Value::String(out))
            },
            Value::Array(v) => {
                let ghost original = v@;
                let mut v = v;
                let mut out: Vec<Value> = Vec::new();
                while v.len() > 0
                    invariant
                        v@ == original.subrange(0, v@.len() as int),
                        v@.len() <= original.len(),
                        out@ == original.subrange(v@.len() as int, original.len() as int).reverse(),
                    decreases v@.len(),
                {
                    let x = v.pop().unwrap();
                    out.push(x);
                    assert(out@ =~= original.subrange(v@.len() as int, original.len() as int).reverse());
                    assert(v@ =~= original.subrange(0, v@.len() as int));
                }
                assert(original.subrange(0, original.len() as int) =~= original);
                Ok(Value::Array(out))
            },
            _ => Err(fail(PipelineErrorKind::InternalServerError, "Value cannot be reversed.")),
        }
    }
}

/// Passes an even integer.
#[derive(Debug, Copy, Clone)]
pub struct IsEvenModifier {}

impl IsEvenModifier {
    pub fn new() -> Self {
        IsEvenModifier {}
    }

    pub fn call(&self, value: Value) -> (r: Result<Value, PipelineError>)
        ensures
            match value {
                Value::Int(i) => if i % 2 == 0 { r == Ok::<Value, PipelineError>(value) } else { r is Err },
                _ => r is Err,
            },
    {
        match value {
            Value::Int(i) => {
                if i % 2 == 0 {
                    Ok(value)
                } else {
                    Err(fail(PipelineErrorKind::InternalServerError, "Value is not even."))
                }
            },
            _ => Err(fail(PipelineErrorKind::InternalServerError, "Value is not number.")),
        }
    }
}

/// Passes `true`.
#[derive(Debug, Copy, Clone)]
pub struct IsTrueModifier {}

impl IsTrueModifier {
    pub fn new() -> Self {
        IsTrueModifier {}
    }

    pub fn call(&self, value: Value) -> (r: Result<Value, PipelineError>)
        ensures
            value matches Value::Bool(true) ==> r == Ok::<Value, PipelineError>(value),
            !(value matches Value::Bool(true)) ==> (r matches Err(e) && e.kind == PipelineErrorKind::Invalid),
    {
        match value {
            Value::Bool(true) => Ok(value),
            _ => Err(fail(PipelineErrorKind::Invalid, "isTrue: value is not true")),
        }
    }
}

/// Always fails.
#[derive(Debug, Copy, Clone)]
pub struct InvalidModifier {}

impl InvalidModifier {
    pub fn new() -> Self {
        InvalidModifier {}
    }

    pub fn call(&self, value: Value) -> (r: Result<Value, PipelineError>)
        ensures
            r matches Err(e) && e.kind == PipelineErrorKind::InternalServerError,
    {
        Err(fail(PipelineErrorKind::InternalServerError, "Value is invalid."))
    }
}

/// Passes an integer greater than the argument.
#[derive(Debug)]
pub struct GtModifier {
    pub argument: Value,
}

impl GtModifier {
    pub fn new(argument: Value) -> (r: Self)
        ensures
            r.argument == argument,
    {
        GtModifier { argument }
    }

    pub fn call(&self, value: Value) -> (r: Result<Value, PipelineError>)
        ensures
            (value matches Value::Int(a) && self.argument matches Value::Int(b) && a > b) ==> r
                == Ok::<Value, PipelineError>(value),
            !(value matches Value::Int(a) && self.argument matches Value::Int(b) && a > b) ==> (r matches Err(e)
                && e.kind == PipelineErrorKind::Invalid),
    {
        match (&value, &self.argument) {
            (Value::Int(a), Value::Int(b)) => {
                if *a > *b {
                    return Ok(value);
                }
            },
            _ => {},
        }
        Err(fail(PipelineErrorKind::Invalid, "gt: value is not greater than rhs"))
    }
}

/// Fills a null value with the argument, and passes any other value.
#[derive(Debug)]
pub struct AndModifier {
    pub value: Value,
}

impl AndModifier {
    pub fn new(value: Value) -> (r: Self)
        ensures
            r.value == value,
    {
        AndModifier { value }
    }

    pub fn call(self, value: Value) -> (r: Value)
        ensures
            value is Null ==> r == self.value,
            !(value is Null) ==> r == value,
    {
        match value {
            Value::Null => self.value,
            _ => value,
        }
    }
}

/// The quotient of `a` by `b`, rounded toward zero.
pub open spec fn quotient_toward_zero(a: int, b: int) -> int {
    let q = (if a < 0 { -a } else { a }) / (if b < 0 { -b } else { b });
    if (a < 0) != (b < 0) { -q } else { q }
}

/// Divides an integer by the argument, rounding toward zero.
#[derive(Debug)]
pub struct DivideModifier {
    pub argument: Value,
}

impl DivideModifier {
    pub fn new(argument: Value) -> (r: Self)
        ensures
            r.argument == argument,
    {
        DivideModifier { argument }
    }

    pub fn call(&self, value: Value) -> (r: Result<Value, PipelineError>)
        ensures
            match (value, self.argument) {
                (Value::Int(a), Value::Int(b)) => if b != 0 && !(a == i64::MIN && b == -1) {
                    r matches Ok(Value::Int(q)) && q == quotient_toward_zero(a as int, b as int)
                } else {
                    r is Err
                },
                _ => r is Err,
            },
    {
        match (&value, &self.argument) {
            (Value::Int(a), Value::Int(b)) => {
                if *b != 0 && !(*a == i64::MIN && *b == -1) {
                    let ua: i128 = if *a < 0 { -(*a as i128) } else { *a as i128 };
                    let ub: i128 = if *b < 0 { -(*b as i128) } else { *b as i128 };
                    let q: i128 = ua / ub;
                    assert(q <= ua) by (nonlinear_arith)
                        requires ua >= 0, ub >= 1, q == ua / ub;
                    assert(ub >= 2 ==> q <= ua / 2) by (nonlinear_arith)
                        requires ua >= 0, ub >= 1, q == ua / ub;
                    let signed: i128 = if (*a < 0) != (*b < 0) { -q } else { q };
                    Ok(Value::Int(signed as i64))
                } else {
                    Err(fail(PipelineErrorKind::InternalServerError, "divide: cannot divide by this value."))
                }
            },
            _ => Err(fail(PipelineErrorKind::InternalServerError, "divide: value is not an integer.")),
        }
    }
}

/// The length bounds of `hasLength`: `lower..upper`, or `lower...upper` when closed.
#[derive(Debug, Copy, Clone)]
pub struct LengthArgument {
    pub lower: usize,
    pub upper: usize,
    pub closed: bool,
}

impl LengthArgument {
    /// Exactly this length.
    pub fn exact(n: usize) -> (r: Self)
        ensures
            r.lower == n && r.upper == n && r.closed,
    {
        LengthArgument { lower: n, upper: n, closed: true }
    }

    /// A length in the half-open range `lower..upper`.
    pub fn range(lower: usize, upper: usize) -> (r: Self)
        ensures
            r.lower == lower && r.upper == upper && !r.closed,
    {
        LengthArgument { lower, upper, closed: false }
    }
}

/// Whether a length fits the bounds.
pub open spec fn length_ok(len: nat, a: LengthArgument) -> bool {
    len >= a.lower && if a.closed { len <= a.upper } else { len < a.upper }
}

/// Passes a string or an array whose length fits the bounds.
#[derive(Debug, Copy, Clone)]
pub struct HasLengthModifier {
    pub argument: LengthArgument,
}

impl HasLengthModifier {
    pub fn new(argument: LengthArgument) -> (r: Self)
        ensures
            r.argument == argument,
    {
        HasLengthModifier { argument }
    }

    fn message(prefix: &str, n: usize) -> (r: String)
        ensures
            r@ == prefix@ + decimal_text(n as nat) + seq!['.'],
    {
        let mut m = String::from_str(prefix);
        push_decimal(&mut m, n as u64);
        m.push('.');
        m
    }

    pub fn call(&self, value: Value) -> (r: Result<Value, PipelineError>)
        ensures
            match value {
                Value::String(s) => if length_ok(s@.len(), self.argument) {
                    r == Ok::<Value, PipelineError>(value)
                } else {
                    r matches Err(e) && e.kind == PipelineErrorKind::Invalid
                },
                Value::Array(v) => if length_ok(v@.len(), self.argument) {
                    r == Ok::<Value, PipelineError>(value)
                } else {
                    r matches Err(e) && e.kind == PipelineErrorKind::Invalid
                },
                _ => r matches Err(e) && e.kind == PipelineErrorKind::Invalid,
            },
    {
        let len = match &value {
            Value::String(s) => s.as_str().unicode_len(),
            Value::Array(v) => v.len(),
            _ => {
                return Err(fail(PipelineErrorKind::Invalid, "Value doesn't have length."));
            },
        };
        let a = self.argument;
        if len < a.lower {
            return Err(PipelineError {
                kind: PipelineErrorKind::Invalid,
                message: Self::message("Value length is less than ", a.lower),
            });
        }
        if a.closed {
            if len > a.upper {
                return Err(PipelineError {
                    kind: PipelineErrorKind::Invalid,
                    message: Self::message("Value length is greater than ", a.upper),
                });
            }
        } else {
            if len >= a.upper {
                return Err(PipelineError {
                    kind: PipelineErrorKind::Invalid,
                    message: Self::message("Value length is greater than or equal to ", a.upper),
                });
            }
        }
        Ok(value)
    }
}

/// Relies on the `pad` crate's `PadStr::pad` with right alignment and no
/// truncation: `s` with `c` added on the left up to the display width `width`.
pub uninterp spec fn padded_start(s: Seq<char>, width: nat, c: char) -> Seq<char>;

/// Relies on `pad::PadStr::pad`; the padding only ever adds characters on the
/// left, so the result ends with `s`.
#[verifier::external_body]
fn pad_start(s: &str, width: usize, c: char) -> (r: String)
    ensures
        r@ == padded_start(s@, width as nat, c),
        r@.len() >= s@.len(),
        r@.subrange(r@.len() - s@.len(), r@.len() as int) == s@,
{
    pad::PadStr::pad(s, width, c, pad::Alignment::Right, false)
}

/// Pads a string on the left with a character, up to a width.
#[derive(Debug)]
pub struct PadStartItem {
    pub width: Value,
    pub char: char,
}

impl PadStartItem {
    pub fn new(width: Value, char: char) -> (r: Self)
        ensures
            r.width == width,
            r.char == char,
    {
        PadStartItem { width, char }
    }

    pub fn call(&self, value: Value) -> (r: Result<Value, PipelineError>)
        ensures
            match (value, self.width) {
                (Value::String(s), Value::Int(w)) => if 0 <= w <= usize::MAX {
                    r matches Ok(Value::String(t)) && t@ == padded_start(s@, w as nat, self.char)
                } else {
                    r is Err
                },
                _ => r is Err,
            },
    {
        match (&value, &self.width) {
            (Value::String(s), Value::Int(w)) => {
                if *w >= 0 && (*w as u64) <= (usize::MAX as u64) {
                    Ok(Value::String(pad_start(s.as_str(), *w as usize, self.char)))
                } else {
                    Err(fail(PipelineErrorKind::InternalServerError, "padStart: width is not valid"))
                }
            },
            (Value::String(_), _) => Err(fail(PipelineErrorKind::InternalServerError, "padStart: width is not valid")),
            _ => Err(fail(PipelineErrorKind::InternalServerError, "padStart: value is not string")),
        }
    }
}

/// Replaces the value with a fresh CUID. The caller generates the identifier
/// (the generator reads the clock and the host) and hands it in; `None` stands
/// for a generator that failed.
#[derive(Debug, Copy, Clone)]
pub struct CUIDModifier {}

impl CUIDModifier {
    pub fn new() -> Self {
        CUIDModifier {}
    }

    pub fn call(&self, value: Value, generated: Option<String>) -> (r: Result<Value, PipelineError>)
        ensures
            match generated {
                Some(id) => r == Ok::<Value, PipelineError>(Value::String(id)),
                None => r matches Err(e) && e.kind == PipelineErrorKind::InternalServerError,
            },
    {
        match generated {
            Some(s) => Ok(Value::String(s)),
            None => Err(fail(PipelineErrorKind::InternalServerError, "cuid: an identifier could not be generated.")),
        }
    }
}

/// Checks the value with a nested pipeline, and passes it on unchanged when
/// that pipeline accepts it. The caller runs the nested pipeline and hands its
/// outcome to `call`.
#[derive(Debug)]
pub struct ValidateWithModifier {
    /// The names of the nested pipeline's items, in order.
    pub pipeline: Vec<String>,
}

impl ValidateWithModifier {
    pub fn new(pipeline: Vec<String>) -> (r: Self)
        ensures
            r.pipeline == pipeline,
    {
        ValidateWithModifier { pipeline }
    }

    pub fn call(&self, value: Value, outcome: Result<Value, PipelineError>) -> (r: Result<Value, PipelineError>)
        ensures
            outcome is Ok ==> r == Ok::<Value, PipelineError>(value),
            outcome matches Err(e) ==> (r matches Err(f) && f.kind == PipelineErrorKind::InternalServerError
                && f.message@ == e.message@),
    {
        match outcome {
            Ok(_) => Ok(value),
            Err(e) => Err(PipelineError { kind: PipelineErrorKind::InternalServerError, message: e.message }),
        }
    }
}

} // verus!
