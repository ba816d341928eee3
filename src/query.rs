//! Translation of filter and order documents into SQL `WHERE` and `ORDER BY`
//! fragments.
//!
//! A filter document is a dictionary. The keys `AND` and `OR` take an array of
//! nested documents, `NOT` takes one nested document, and every other key names
//! a field of the model. A field's value is either a bare value, compared for
//! equality, or a dictionary of operators, each translated on its own and joined
//! with `AND`. Every literal goes through the encoder.
use vstd::prelude::*;
use crate::encode::{
    encode, encode_elements, join, join_strings, like, like_pattern, quote, quoted, to_sql_elements,
    to_sql_string, views, EncodeError,
};
use crate::schema::{find_field, find_relation, Field, Model};
use crate::text::str_eq;
use crate::value::{Dialect, FieldType, Value};

verus! {

/// What went wrong while translating a document.
#[derive(Clone, Copy, Debug, PartialEq, Eq, Structural)]
pub enum QueryErrorKind {
    /// The document, or a nested one, is not a dictionary.
    ExpectedDictionary,
    /// `AND`, `OR`, `in` or `notIn` was not given an array.
    ExpectedArray,
    /// A filter operator that does not exist.
    UnknownOperator,
    /// A key that names neither a field nor a relation of the model.
    UnknownField,
    /// A filter on a relation, which is not implemented.
    RelationFilterUnsupported,
    /// An operator that the field's type does not support.
    OperatorNotApplicable,
    /// A value that the encoder refused for the field.
    ValueMismatch,
    /// An order direction other than `asc` and `desc`.
    InvalidDirection,
}

/// A translation failure, with the document key where it happened.
#[derive(Debug)]
pub struct QueryError {
    pub kind: QueryErrorKind,
    pub key: String,
}

impl QueryError {
    pub open spec fn view(&self) -> (QueryErrorKind, Seq<char>) {
        (self.kind, self.key@)
    }
}

pub open spec fn query_result(r: Result<String, QueryError>) -> Result<Seq<char>, (QueryErrorKind, Seq<char>)> {
    match r {
        Ok(s) => Ok(s@),
        Err(e) => Err(e.view()),
    }
}

pub open spec fn parts_result(r: Result<Vec<String>, QueryError>) -> Result<Seq<Seq<char>>, (QueryErrorKind, Seq<char>)> {
    match r {
        Ok(v) => Ok(views(v@)),
        Err(e) => Err(e.view()),
    }
}

/// `col op val`, with single spaces.
pub open spec fn item(col: Seq<char>, op: Seq<char>, val: Seq<char>) -> Seq<char> {
    col + seq![' '] + op + seq![' '] + val
}

pub open spec fn paren(s: Seq<char>) -> Seq<char> {
    seq!['('] + s + seq![')']
}

pub open spec fn lower_if(s: Seq<char>, case_insensitive: bool) -> Seq<char> {
    if case_insensitive {
        "LOWER("@ + s + seq![')']
    } else {
        s
    }
}

/// Parts combined with a connective: nothing gives `empty`, one part stands
/// as it is, and two or more are each put in parentheses.
pub open spec fn combine(parts: Seq<Seq<char>>, sep: Seq<char>, empty: Seq<char>) -> Seq<char> {
    if parts.len() == 0 {
        empty
    } else if parts.len() == 1 {
        parts[0]
    } else {
        join(parts.map_values(|p: Seq<char>| paren(p)), sep)
    }
}

/// Whether the operator dictionary asks for case-insensitive matching.
pub open spec fn has_i_mode(ops: Seq<(String, Value)>) -> bool {
    exists|i: int|
        0 <= i < ops.len() && #[trigger] ops[i].0@ == "mode"@ && (ops[i].1 matches Value::String(
            s,
        ) && s@ == "caseInsensitive"@)
}

pub open spec fn encoded_item(col: Seq<char>, op: Seq<char>, enc: Result<Seq<char>, EncodeError>, key: Seq<char>) -> Result<Option<Seq<char>>, (QueryErrorKind, Seq<char>)> {
    match enc {
        Ok(s) => Ok(Some(item(col, op, s))),
        Err(_) => Err((QueryErrorKind::ValueMismatch, key)),
    }
}

/// One operator of a field's operator dictionary: the SQL it stands for
/// (`None` for `mode`, which only changes its siblings), or why it fails.
pub open spec fn operator_filter(f: Field, key: Seq<char>, v: Value, ci: bool, d: Dialect) -> Result<Option<Seq<char>>, (QueryErrorKind, Seq<char>)> {
    let col = f.column_name@;
    let t = f.field_type;
    if key == "equals"@ {
        encoded_item(col, "="@, encode(v, t, f.is_optional_spec(), d), key)
    } else if key == "not"@ {
        encoded_item(col, "<>"@, encode(v, t, f.is_optional_spec(), d), key)
    } else if key == "gt"@ || key == "gte"@ || key == "lt"@ || key == "lte"@ {
        if t.is_comparable_spec() {
            let op = if key == "gt"@ {
                ">"@
            } else if key == "gte"@ {
                ">="@
            } else if key == "lt"@ {
                "<"@
            } else {
                "<="@
            };
            encoded_item(col, op, encode(v, t, false, d), key)
        } else {
            Err((QueryErrorKind::OperatorNotApplicable, key))
        }
    } else if key == "in"@ || key == "notIn"@ {
        match v {
            Value::Array(vs) => match encode_elements(vs@, t, f.is_optional_spec(), d) {
                Ok(parts) => Ok(
                    Some(item(col, if key == "in"@ { "IN"@ } else { "NOT IN"@ }, paren(join(parts, ", "@)))),
                ),
                Err(_) => Err((QueryErrorKind::ValueMismatch, key)),
            },
            _ => Err((QueryErrorKind::ExpectedArray, key)),
        }
    } else if key == "contains"@ || key == "startsWith"@ || key == "endsWith"@ || key == "matches"@ {
        if t is String {
            match v {
                Value::String(s) => {
                    let pattern = if key == "matches"@ {
                        quoted(s@, d)
                    } else {
                        like_pattern(s@, key != "startsWith"@, key != "endsWith"@, d)
                    };
                    let op = if key == "matches"@ { "REGEXP"@ } else { "LIKE"@ };
                    Ok(Some(item(lower_if(col, ci), op, lower_if(pattern, ci))))
                },
                _ => Err((QueryErrorKind::ValueMismatch, key)),
            }
        } else {
            Err((QueryErrorKind::OperatorNotApplicable, key))
        }
    } else if key == "mode"@ {
        Ok(None)
    } else if key == "has"@ || key == "hasEvery"@ || key == "hasSome"@ || key == "isEmpty"@
        || key == "length"@ {
        match t {
            FieldType::Array(element, element_optional) => if key == "has"@ {
                match encode(v, *element, element_optional, d) {
                    Ok(s) => Ok(Some(item(col, "@>"@, "ARRAY["@ + s + seq![']']))),
                    Err(_) => Err((QueryErrorKind::ValueMismatch, key)),
                }
            } else if key == "hasEvery"@ {
                encoded_item(col, "@>"@, encode(v, t, false, d), key)
            } else if key == "hasSome"@ {
                encoded_item(col, "&&"@, encode(v, t, false, d), key)
            } else if key == "isEmpty"@ {
                Ok(Some(item("ARRAY_LENGTH("@ + col + seq![')'], "="@, seq!['0'])))
            } else {
                encoded_item(
                    "ARRAY_LENGTH("@ + col + seq![')'],
                    "="@,
                    encode(v, FieldType::U64, false, d),
                    key,
                )
            },
            _ => Err((QueryErrorKind::OperatorNotApplicable, key)),
        }
    } else {
        Err((QueryErrorKind::UnknownOperator, key))
    }
}

/// The SQL of each operator of a dictionary, in order; the first failure wins.
pub open spec fn operator_filters(f: Field, ops: Seq<(String, Value)>, ci: bool, d: Dialect) -> Result<Seq<Seq<char>>, (QueryErrorKind, Seq<char>)>
    decreases ops.len(),
{
    if ops.len() == 0 {
        Ok(Seq::empty())
    } else {
        match operator_filters(f, ops.drop_last(), ci, d) {
            Err(e) => Err(e),
            Ok(parts) => match operator_filter(f, ops.last().0@, ops.last().1, ci, d) {
                Err(e) => Err(e),
                Ok(None) => Ok(parts),
                Ok(Some(p)) => Ok(parts.push(p)),
            },
        }
    }
}

/// The condition that a field's entry of a filter document stands for.
pub open spec fn field_filter(f: Field, v: Value, d: Dialect) -> Result<Seq<char>, (QueryErrorKind, Seq<char>)> {
    match v {
        Value::Dictionary(ops) => match operator_filters(f, ops@, has_i_mode(ops@), d) {
            Ok(parts) => Ok(combine(parts, " AND "@, "TRUE"@)),
            Err(e) => Err(e),
        },
        _ => match encode(v, f.field_type, f.is_optional_spec(), d) {
            Ok(s) => Ok(item(f.column_name@, "="@, s)),
            Err(_) => Err((QueryErrorKind::ValueMismatch, f.name@)),
        },
    }
}

/// The condition that a filter document stands for.
pub open spec fn where_doc(m: Model, doc: Value, d: Dialect) -> Result<Seq<char>, (QueryErrorKind, Seq<char>)>
    decreases doc, 0int,
{
    match doc {
        Value::Dictionary(entries) => match where_entries(m, entries@, d) {
            Ok(parts) => Ok(combine(parts, " AND "@, "TRUE"@)),
            Err(e) => Err(e),
        },
        _ => Err((QueryErrorKind::ExpectedDictionary, Seq::empty())),
    }
}

/// The condition of each entry of a filter document, in order.
pub open spec fn where_entries(m: Model, entries: Seq<(String, Value)>, d: Dialect) -> Result<Seq<Seq<char>>, (QueryErrorKind, Seq<char>)>
    decreases entries, 2int,
{
    if entries.len() == 0 {
        Ok(Seq::empty())
    } else {
        match where_entries(m, entries.drop_last(), d) {
            Err(e) => Err(e),
            Ok(parts) => match where_entry(m, entries.last().0@, entries.last().1, d) {
                Err(e) => Err(e),
                Ok(p) => Ok(parts.push(p)),
            },
        }
    }
}

/// The condition of each nested document of an `AND` or `OR` array, in order.
pub open spec fn where_list(m: Model, docs: Seq<Value>, d: Dialect) -> Result<Seq<Seq<char>>, (QueryErrorKind, Seq<char>)>
    decreases docs, 2int,
{
    if docs.len() == 0 {
        Ok(Seq::empty())
    } else {
        match where_list(m, docs.drop_last(), d) {
            Err(e) => Err(e),
            Ok(parts) => match where_doc(m, docs.last(), d) {
                Err(e) => Err(e),
                Ok(p) => Ok(parts.push(p)),
            },
        }
    }
}

/// The condition of one entry of a filter document.
pub open spec fn where_entry(m: Model, key: Seq<char>, v: Value, d: Dialect) -> Result<Seq<char>, (QueryErrorKind, Seq<char>)>
    decreases v, 1int,
{
    if key == "AND"@ || key == "OR"@ {
        match v {
            Value::Array(docs) => match where_list(m, docs@, d) {
                Ok(parts) => Ok(
                    if key == "AND"@ {
                        combine(parts, " AND "@, "TRUE"@)
                    } else {
                        combine(parts, " OR "@, "FALSE"@)
                    },
                ),
                Err(e) => Err(e),
            },
            _ => Err((QueryErrorKind::ExpectedArray, key)),
        }
    } else if key == "NOT"@ {
        match where_doc(m, v, d) {
            Ok(s) => Ok("NOT "@ + paren(s)),
            Err(e) => Err(e),
        }
    } else {
        match find_field(m.fields@, key) {
            Some(i) => field_filter(m.fields@[i], v, d),
            None => match find_relation(m.relations@, key) {
                Some(_) => Err((QueryErrorKind::RelationFilterUnsupported, key)),
                None => Err((QueryErrorKind::UnknownField, key)),
            },
        }
    }
}

/// The `ORDER BY` item of one entry of an order document: `None` for a key
/// that names no field, which is dropped.
pub open spec fn order_item(m: Model, key: Seq<char>, v: Value) -> Result<Option<Seq<char>>, (QueryErrorKind, Seq<char>)> {
    match find_field(m.fields@, key) {
        None => Ok(None),
        Some(i) => match v {
            Value::String(s) => if s@ == "asc"@ {
                Ok(Some(m.fields@[i].column_name@ + " ASC"@))
            } else if s@ == "desc"@ {
                Ok(Some(m.fields@[i].column_name@ + " DESC"@))
            } else {
                Err((QueryErrorKind::InvalidDirection, key))
            },
            _ => Err((QueryErrorKind::InvalidDirection, key)),
        },
    }
}

pub open spec fn order_items(m: Model, entries: Seq<(String, Value)>) -> Result<Seq<Seq<char>>, (QueryErrorKind, Seq<char>)>
    decreases entries.len(),
{
    if entries.len() == 0 {
        Ok(Seq::empty())
    } else {
        match order_items(m, entries.drop_last()) {
            Err(e) => Err(e),
            Ok(parts) => match order_item(m, entries.last().0@, entries.last().1) {
                Err(e) => Err(e),
                Ok(None) => Ok(parts),
                Ok(Some(p)) => Ok(parts.push(p)),
            },
        }
    }
}

/// The `ORDER BY` list that an order document stands for, in the document's order.
pub open spec fn order_by_doc(m: Model, doc: Value) -> Result<Seq<char>, (QueryErrorKind, Seq<char>)> {
    match doc {
        Value::Dictionary(entries) => match order_items(m, entries@) {
            Ok(parts) => Ok(join(parts, seq![','])),
            Err(e) => Err(e),
        },
        _ => Err((QueryErrorKind::ExpectedDictionary, Seq::empty())),
    }
}

/// `col = value` for one entry of a record identifier.
pub open spec fn identifier_item(m: Model, key: Seq<char>, v: Value, d: Dialect) -> Result<Seq<char>, (QueryErrorKind, Seq<char>)> {
    match find_field(m.fields@, key) {
        None => Err((QueryErrorKind::UnknownField, key)),
        Some(i) => match encode(v, m.fields@[i].field_type, m.fields@[i].is_optional_spec(), d) {
            Ok(s) => Ok(item(m.fields@[i].column_name@, "="@, s)),
            Err(_) => Err((QueryErrorKind::ValueMismatch, key)),
        },
    }
}

pub open spec fn identifier_items(m: Model, entries: Seq<(String, Value)>, d: Dialect) -> Result<Seq<Seq<char>>, (QueryErrorKind, Seq<char>)>
    decreases entries.len(),
{
    if entries.len() == 0 {
        Ok(Seq::empty())
    } else {
        match identifier_items(m, entries.drop_last(), d) {
            Err(e) => Err(e),
            Ok(parts) => match identifier_item(m, entries.last().0@, entries.last().1, d) {
                Err(e) => Err(e),
                Ok(p) => Ok(parts.push(p)),
            },
        }
    }
}

/// The condition that selects the record with the given identifier values.
pub open spec fn identifier_doc(m: Model, identifier: Value, d: Dialect) -> Result<Seq<char>, (QueryErrorKind, Seq<char>)> {
    match identifier {
        Value::Dictionary(entries) => match identifier_items(m, entries@, d) {
            Ok(parts) => Ok(join(parts, " AND "@)),
            Err(e) => Err(e),
        },
        _ => Err((QueryErrorKind::ExpectedDictionary, Seq::empty())),
    }
}

proof fn lemma_order_error_prefix(m: Model, entries: Seq<(String, Value)>, k: int, e: (QueryErrorKind, Seq<char>))
    requires
        0 <= k <= entries.len(),
        order_items(m, entries.subrange(0, k)) == Err::<Seq<Seq<char>>, (QueryErrorKind, Seq<char>)>(e),
    ensures
        order_items(m, entries) == Err::<Seq<Seq<char>>, (QueryErrorKind, Seq<char>)>(e),
    decreases entries.len() - k,
{
    if k < entries.len() {
        assert(entries.subrange(0, k + 1).drop_last() =~= entries.subrange(0, k));
        lemma_order_error_prefix(m, entries, k + 1, e);
    } else {
        assert(entries.subrange(0, k) =~= entries);
    }
}

proof fn lemma_identifier_error_prefix(m: Model, entries: Seq<(String, Value)>, d: Dialect, k: int, e: (QueryErrorKind, Seq<char>))
    requires
        0 <= k <= entries.len(),
        identifier_items(m, entries.subrange(0, k), d) == Err::<Seq<Seq<char>>, (QueryErrorKind, Seq<char>)>(e),
    ensures
        identifier_items(m, entries, d) == Err::<Seq<Seq<char>>, (QueryErrorKind, Seq<char>)>(e),
    decreases entries.len() - k,
{
    if k < entries.len() {
        assert(entries.subrange(0, k + 1).drop_last() =~= entries.subrange(0, k));
        lemma_identifier_error_prefix(m, entries, d, k + 1, e);
    } else {
        assert(entries.subrange(0, k) =~= entries);
    }
}

/// Once a prefix of the operators fails, the whole dictionary fails the same way.
proof fn lemma_operators_error_prefix(f: Field, ops: Seq<(String, Value)>, ci: bool, d: Dialect, k: int, e: (QueryErrorKind, Seq<char>))
    requires
        0 <= k <= ops.len(),
        operator_filters(f, ops.subrange(0, k), ci, d) == Err::<Seq<Seq<char>>, (QueryErrorKind, Seq<char>)>(e),
    ensures
        operator_filters(f, ops, ci, d) == Err::<Seq<Seq<char>>, (QueryErrorKind, Seq<char>)>(e),
    decreases ops.len() - k,
{
    if k < ops.len() {
        assert(ops.subrange(0, k + 1).drop_last() =~= ops.subrange(0, k));
        lemma_operators_error_prefix(f, ops, ci, d, k + 1, e);
    } else {
        assert(ops.subrange(0, k) =~= ops);
    }
}

/// Once a prefix of the entries fails, the whole document fails the same way.
proof fn lemma_entries_error_prefix(m: Model, entries: Seq<(String, Value)>, d: Dialect, k: int, e: (QueryErrorKind, Seq<char>))
    requires
        0 <= k <= entries.len(),
        where_entries(m, entries.subrange(0, k), d) == Err::<Seq<Seq<char>>, (QueryErrorKind, Seq<char>)>(e),
    ensures
        where_entries(m, entries, d) == Err::<Seq<Seq<char>>, (QueryErrorKind, Seq<char>)>(e),
    decreases entries.len() - k,
{
    if k < entries.len() {
        assert(entries.subrange(0, k + 1).drop_last() =~= entries.subrange(0, k));
        lemma_entries_error_prefix(m, entries, d, k + 1, e);
    } else {
        assert(entries.subrange(0, k) =~= entries);
    }
}

/// Once a prefix of the nested documents fails, the whole array fails the same way.
proof fn lemma_list_error_prefix(m: Model, docs: Seq<Value>, d: Dialect, k: int, e: (QueryErrorKind, Seq<char>))
    requires
        0 <= k <= docs.len(),
        where_list(m, docs.subrange(0, k), d) == Err::<Seq<Seq<char>>, (QueryErrorKind, Seq<char>)>(e),
    ensures
        where_list(m, docs, d) == Err::<Seq<Seq<char>>, (QueryErrorKind, Seq<char>)>(e),
    decreases docs.len() - k,
{
    if k < docs.len() {
        assert(docs.subrange(0, k + 1).drop_last() =~= docs.subrange(0, k));
        lemma_list_error_prefix(m, docs, d, k + 1, e);
    } else {
        assert(docs.subrange(0, k) =~= docs);
    }
}

fn text(s: &str) -> (r: String)
    ensures
        r@ == s@,
{
    String::from_str(s)
}

fn error(kind: QueryErrorKind, key: &str) -> (r: QueryError)
    ensures
        r.view() == (kind, key@),
{
    QueryError { kind, key: String::from_str(key) }
}

fn paren_string(s: &str) -> (r: String)
    ensures
        r@ == paren(s@),
{
    let mut out = String::new();
    out.push('(');
    out.append(s);
    out.push(')');
    assert(out@ =~= paren(s@));
    out
}

fn lower_string(s: String, case_insensitive: bool) -> (r: String)
    ensures
        r@ == lower_if(s@, case_insensitive),
{
    if case_insensitive {
        let mut out = String::from_str("LOWER(");
        out.append(s.as_str());
        out.push(')');
        assert(out@ =~= lower_if(s@, case_insensitive));
        out
    } else {
        s
    }
}

fn array_length_of(col: &str) -> (r: String)
    ensures
        r@ == "ARRAY_LENGTH("@ + col@ + seq![')'],
{
    let mut out = String::from_str("ARRAY_LENGTH(");
    out.append(col);
    out.push(')');
    out
}

/// Parts combined with a connective, as `combine` describes.
pub fn combine_parts(parts: &Vec<String>, sep: &str, empty: &str) -> (r: String)
    ensures
        r@ == combine(views(parts@), sep@, empty@),
{
    if parts.len() == 0 {
        String::from_str(empty)
    } else if parts.len() == 1 {
        parts[0].clone()
    } else {
        let mut wrapped: Vec<String> = Vec::new();
        let mut i: usize = 0;
        while i < parts.len()
            invariant
                i <= parts@.len(),
                views(wrapped@) == views(parts@).subrange(0, i as int).map_values(|p: Seq<char>| paren(p)),
            decreases parts@.len() - i,
        {
            let ghost before = views(wrapped@);
            wrapped.push(paren_string(parts[i].as_str()));
            i = i + 1;
            assert(views(wrapped@) =~= before.push(paren(parts@[i - 1]@)));
            assert(views(wrapped@) =~= views(parts@).subrange(0, i as int).map_values(|p: Seq<char>| paren(p)));
        }
        assert(views(parts@).subrange(0, parts@.len() as int) =~= views(parts@));
        join_strings(&wrapped, sep)
    }
}

pub struct Query {}

impl Query {
    /// `col op val`, with single spaces.
    pub fn where_item(col_name: &str, op: &str, val: &str) -> (r: String)
        ensures
            r@ == item(col_name@, op@, val@),
    {
        let mut out = String::from_str(col_name);
        out.push(' ');
        out.append(op);
        out.push(' ');
        out.append(val);
        assert(out@ =~= item(col_name@, op@, val@));
        out
    }

    /// Whether the operator dictionary asks for case-insensitive matching.
    pub fn has_i_mode(ops: &Vec<(String, Value)>) -> (r: bool)
        ensures
            r == has_i_mode(ops@),
    {
        let mut i: usize = 0;
        while i < ops.len()
            invariant
                i <= ops@.len(),
                forall|j: int|
                    0 <= j < i ==> !(#[trigger] ops@[j].0@ == "mode"@ && (ops@[j].1 matches Value::String(
                        s,
                    ) && s@ == "caseInsensitive"@)),
            decreases ops@.len() - i,
        {
            if str_eq(ops[i].0.as_str(), "mode") {
                match &ops[i].1 {
                    Value::String(s) => {
                        if str_eq(s.as_str(), "caseInsensitive") {
                            return true;
                        }
                    },
                    _ => {},
                }
            }
            i = i + 1;
        }
        false
    }

    /// `col op (v1, v2, ...)` for `in` and `notIn`.
    pub fn where_entry_array(f: &Field, key: &str, value: &Value, op: &str, d: Dialect) -> (r: Result<String, QueryError>)
        ensures
            query_result(r) == match *value {
                Value::Array(vs) => match encode_elements(vs@, f.field_type, f.is_optional_spec(), d) {
                    Ok(parts) => Ok(item(f.column_name@, op@, paren(join(parts, ", "@)))),
                    Err(_) => Err((QueryErrorKind::ValueMismatch, key@)),
                },
                _ => Err((QueryErrorKind::ExpectedArray, key@)),
            },
    {
        match value {
            Value::Array(vs) => match to_sql_elements(vs, &f.field_type, f.optionality.is_optional(), d) {
                Ok(parts) => {
                    let body = join_strings(&parts, ", ");
                    let list = paren_string(body.as_str());
                    Ok(Self::where_item(f.column_name.as_str(), op, list.as_str()))
                },
                Err(_) => Err(error(QueryErrorKind::ValueMismatch, key)),
            },
            _ => Err(error(QueryErrorKind::ExpectedArray, key)),
        }
    }

    fn encoded(col: &str, op: &str, enc: Result<String, EncodeError>, key: &str) -> (r: Result<Option<String>, QueryError>)
        ensures
            match r {
                Ok(Some(s)) => encoded_item(col@, op@, crate::encode::result_view(enc), key@) == Ok::<Option<Seq<char>>, (QueryErrorKind, Seq<char>)>(Some(s@)),
                Ok(None) => false,
                Err(e) => encoded_item(col@, op@, crate::encode::result_view(enc), key@) == Err::<Option<Seq<char>>, (QueryErrorKind, Seq<char>)>(e.view()),
            },
    {
        match enc {
            Ok(s) => Ok(Some(Self::where_item(col, op, s.as_str()))),
            Err(_) => Err(error(QueryErrorKind::ValueMismatch, key)),
        }
    }

    /// One operator of a field's operator dictionary.
    pub fn where_entry_item(f: &Field, key: &str, value: &Value, case_insensitive: bool, d: Dialect) -> (r: Result<Option<String>, QueryError>)
        ensures
            match r {
                Ok(Some(s)) => operator_filter(*f, key@, *value, case_insensitive, d) == Ok::<Option<Seq<char>>, (QueryErrorKind, Seq<char>)>(Some(s@)),
                Ok(None) => operator_filter(*f, key@, *value, case_insensitive, d) == Ok::<Option<Seq<char>>, (QueryErrorKind, Seq<char>)>(None),
                Err(e) => operator_filter(*f, key@, *value, case_insensitive, d) == Err::<Option<Seq<char>>, (QueryErrorKind, Seq<char>)>(e.view()),
            },
    {
        let col = f.column_name.as_str();
        let t = &f.field_type;
        let optional = f.optionality.is_optional();
        if str_eq(key, "equals") {
            Self::encoded(col, "=", to_sql_string(value, t, optional, d), key)
        } else if str_eq(key, "not") {
            Self::encoded(col, "<>", to_sql_string(value, t, optional, d), key)
        } else if str_eq(key, "gt") || str_eq(key, "gte") || str_eq(key, "lt") || str_eq(key, "lte") {
            if t.is_comparable() {
                let op = if str_eq(key, "gt") {
                    ">"
                } else if str_eq(key, "gte") {
                    ">="
                } else if str_eq(key, "lt") {
                    "<"
                } else {
                    "<="
                };
                Self::encoded(col, op, to_sql_string(value, t, false, d), key)
            } else {
                Err(error(QueryErrorKind::OperatorNotApplicable, key))
            }
        } else if str_eq(key, "in") || str_eq(key, "notIn") {
            let op = if str_eq(key, "in") { "IN" } else { "NOT IN" };
            match Self::where_entry_array(f, key, value, op, d) {
                Ok(s) => Ok(Some(s)),
                Err(e) => Err(e),
            }
        } else if str_eq(key, "contains") || str_eq(key, "startsWith") || str_eq(key, "endsWith")
            || str_eq(key, "matches") {
            match t {
                FieldType::String => match value {
                    Value::String(s) => {
                        let is_match = str_eq(key, "matches");
                        let pattern = if is_match {
                            quote(s.as_str(), d)
                        } else {
                            like(s.as_str(), !str_eq(key, "startsWith"), !str_eq(key, "endsWith"), d)
                        };
                        let op = if is_match { "REGEXP" } else { "LIKE" };
                        let lhs = lower_string(text(col), case_insensitive);
                        let rhs = lower_string(pattern, case_insensitive);
                        Ok(Some(Self::where_item(lhs.as_str(), op, rhs.as_str())))
                    },
                    _ => Err(error(QueryErrorKind::ValueMismatch, key)),
                },
                _ => Err(error(QueryErrorKind::OperatorNotApplicable, key)),
            }
        } else if str_eq(key, "mode") {
            Ok(None)
        } else if str_eq(key, "has") || str_eq(key, "hasEvery") || str_eq(key, "hasSome") || str_eq(
            key,
            "isEmpty",
        ) || str_eq(key, "length") {
            match t {
                FieldType::Array(element, element_optional) => {
                    if str_eq(key, "has") {
                        match to_sql_string(value, element, *element_optional, d) {
                            Ok(s) => {
                                let mut arr = String::from_str("ARRAY[");
                                arr.append(s.as_str());
                                arr.push(']');
                                assert(arr@ =~= "ARRAY["@ + s@ + seq![']']);
                                Ok(Some(Self::where_item(col, "@>", arr.as_str())))
                            },
                            Err(_) => Err(error(QueryErrorKind::ValueMismatch, key)),
                        }
                    } else if str_eq(key, "hasEvery") {
                        Self::encoded(col, "@>", to_sql_string(value, t, false, d), key)
                    } else if str_eq(key, "hasSome") {
                        Self::encoded(col, "&&", to_sql_string(value, t, false, d), key)
                    } else if str_eq(key, "isEmpty") {
                        let lhs = array_length_of(col);
                        let mut zero = String::new();
                        zero.push('0');
                        let r = Self::where_item(lhs.as_str(), "=", zero.as_str());
                        assert(zero@ =~= seq!['0']);
                        Ok(Some(r))
                    } else {
                        let lhs = array_length_of(col);
                        Self::encoded(lhs.as_str(), "=", to_sql_string(value, &FieldType::U64, false, d), key)
                    }
                },
                _ => Err(error(QueryErrorKind::OperatorNotApplicable, key)),
            }
        } else {
            Err(error(QueryErrorKind::UnknownOperator, key))
        }
    }

    /// The condition for a field's entry: an operator dictionary, or a bare
    /// value compared for equality.
    pub fn where_entry(f: &Field, value: &Value, d: Dialect) -> (r: Result<String, QueryError>)
        ensures
            query_result(r) == field_filter(*f, *value, d),
    {
        match value {
            Value::Dictionary(ops) => {
                let ci = Self::has_i_mode(ops);
                let mut parts: Vec<String> = Vec::new();
                let mut i: usize = 0;
                assert(views(parts@) =~= Seq::<Seq<char>>::empty());
                while i < ops.len()
                    invariant
                        i <= ops@.len(),
                        *value == Value::Dictionary(*ops),
                        ci == has_i_mode(ops@),
                        operator_filters(*f, ops@.subrange(0, i as int), ci, d) == Ok::<Seq<Seq<char>>, (QueryErrorKind, Seq<char>)>(views(parts@)),
                    decreases ops@.len() - i,
                {
                    let r = Self::where_entry_item(f, ops[i].0.as_str(), &ops[i].1, ci, d);
                    proof {
                        assert(ops@.subrange(0, i + 1).drop_last() =~= ops@.subrange(0, i as int));
                        assert(ops@.subrange(0, i + 1).last() == ops@[i as int]);
                    }
                    let ghost before = views(parts@);
                    match r {
                        Ok(Some(p)) => {
                            parts.push(p);
                            assert(views(parts@) =~= before.push(parts@.last()@));
                        },
                        Ok(None) => {},
                        Err(e) => {
                            proof {
                                lemma_operators_error_prefix(*f, ops@, ci, d, i as int + 1, e.view());
                                assert(operator_filters(*f, ops@, ci, d) == Err::<Seq<Seq<char>>, (QueryErrorKind, Seq<char>)>(e.view()));
                            }
                            return Err(e);
                        },
                    }
                    i = i + 1;
                }
                assert(ops@.subrange(0, ops@.len() as int) =~= ops@);
                Ok(combine_parts(&parts, " AND ", "TRUE"))
            },
            _ => match to_sql_string(value, &f.field_type, f.optionality.is_optional(), d) {
                Ok(s) => Ok(Self::where_item(f.column_name.as_str(), "=", s.as_str())),
                Err(_) => Err(error(QueryErrorKind::ValueMismatch, f.name.as_str())),
            },
        }
    }

    fn where_list(m: &Model, docs: &Vec<Value>, d: Dialect) -> (r: Result<Vec<String>, QueryError>)
        ensures
            parts_result(r) == where_list(*m, docs@, d),
        decreases docs, 2int,
    {
        let mut parts: Vec<String> = Vec::new();
        let mut i: usize = 0;
        assert(views(parts@) =~= Seq::<Seq<char>>::empty());
        while i < docs.len()
            invariant
                i <= docs@.len(),
                where_list(*m, docs@.subrange(0, i as int), d) == Ok::<Seq<Seq<char>>, (QueryErrorKind, Seq<char>)>(views(parts@)),
            decreases docs@.len() - i,
        {
            proof {
                assert(decreases_to!(docs => docs@));
                assert(decreases_to!(docs@ => docs@[i as int]));
            }
            let r = Self::where_clause(m, &docs[i], d);
            proof {
                assert(docs@.subrange(0, i + 1).drop_last() =~= docs@.subrange(0, i as int));
                assert(docs@.subrange(0, i + 1).last() == docs@[i as int]);
            }
            let ghost before = views(parts@);
            match r {
                Ok(p) => {
                    parts.push(p);
                    assert(views(parts@) =~= before.push(parts@.last()@));
                },
                Err(e) => {
                    proof { lemma_list_error_prefix(*m, docs@, d, i as int + 1, e.view()); }
                    return Err(e);
                },
            }
            i = i + 1;
        }
        assert(docs@.subrange(0, docs@.len() as int) =~= docs@);
        Ok(parts)
    }

    fn where_key(m: &Model, key: &str, value: &Value, d: Dialect) -> (r: Result<String, QueryError>)
        ensures
            query_result(r) == where_entry(*m, key@, *value, d),
        decreases value, 1int,
    {
        if str_eq(key, "AND") || str_eq(key, "OR") {
            match value {
                Value::Array(docs) => match Self::where_list(m, docs, d) {
                    Ok(parts) => {
                        if str_eq(key, "AND") {
                            Ok(combine_parts(&parts, " AND ", "TRUE"))
                        } else {
                            Ok(combine_parts(&parts, " OR ", "FALSE"))
                        }
                    },
                    Err(e) => Err(e),
                },
                _ => Err(error(QueryErrorKind::ExpectedArray, key)),
            }
        } else if str_eq(key, "NOT") {
            match Self::where_clause(m, value, d) {
                Ok(s) => {
                    let mut out = String::from_str("NOT ");
                    let inner = paren_string(s.as_str());
                    out.append(inner.as_str());
                    Ok(out)
                },
                Err(e) => Err(e),
            }
        } else {
            match m.field(key) {
                Some(f) => Self::where_entry(f, value, d),
                None => match m.relation(key) {
                    Some(_) => Err(error(QueryErrorKind::RelationFilterUnsupported, key)),
                    None => Err(error(QueryErrorKind::UnknownField, key)),
                },
            }
        }
    }

    /// The `WHERE` condition that a filter document stands for.
    pub fn where_clause(m: &Model, doc: &Value, d: Dialect) -> (r: Result<String, QueryError>)
        ensures
            query_result(r) == where_doc(*m, *doc, d),
        decreases doc, 0int,
    {
        match doc {
            Value::Dictionary(entries) => {
                let mut parts: Vec<String> = Vec::new();
                let mut i: usize = 0;
                assert(views(parts@) =~= Seq::<Seq<char>>::empty());
                while i < entries.len()
                    invariant
                        i <= entries@.len(),
                        *doc == Value::Dictionary(*entries),
                        where_entries(*m, entries@.subrange(0, i as int), d) == Ok::<Seq<Seq<char>>, (QueryErrorKind, Seq<char>)>(views(parts@)),
                    decreases entries@.len() - i,
                {
                    proof {
                        assert(decreases_to!(entries => entries@));
                        assert(decreases_to!(entries@ => entries@[i as int]));
                        assert(decreases_to!(entries@[i as int] => entries@[i as int].1));
                    }
                    let r = Self::where_key(m, entries[i].0.as_str(), &entries[i].1, d);
                    proof {
                        assert(entries@.subrange(0, i + 1).drop_last() =~= entries@.subrange(0, i as int));
                        assert(entries@.subrange(0, i + 1).last() == entries@[i as int]);
                    }
                    let ghost before = views(parts@);
                    match r {
                        Ok(p) => {
                            parts.push(p);
                            assert(views(parts@) =~= before.push(parts@.last()@));
                        },
                        Err(e) => {
                            proof { lemma_entries_error_prefix(*m, entries@, d, i as int + 1, e.view()); }
                            return Err(e);
                        },
                    }
                    i = i + 1;
                }
                assert(entries@.subrange(0, entries@.len() as int) =~= entries@);
                Ok(combine_parts(&parts, " AND ", "TRUE"))
            },
            _ => Err(QueryError { kind: QueryErrorKind::ExpectedDictionary, key: String::new() }),
        }
    }


    /// The condition that selects the record with the given identifier values.
    pub fn where_from_value(m: &Model, identifier: &Value, d: Dialect) -> (r: Result<String, QueryError>)
        ensures
            query_result(r) == identifier_doc(*m, *identifier, d),
    {
        match identifier {
            Value::Dictionary(entries) => {
                let mut parts: Vec<String> = Vec::new();
                let mut i: usize = 0;
                assert(views(parts@) =~= Seq::<Seq<char>>::empty());
                while i < entries.len()
                    invariant
                        i <= entries@.len(),
                        *identifier == Value::Dictionary(*entries),
                        identifier_items(*m, entries@.subrange(0, i as int), d) == Ok::<Seq<Seq<char>>, (QueryErrorKind, Seq<char>)>(views(parts@)),
                    decreases entries@.len() - i,
                {
                    let key = entries[i].0.as_str();
                    let r: Result<String, QueryError> = match m.field(key) {
                        None => Err(error(QueryErrorKind::UnknownField, key)),
                        Some(f) => match to_sql_string(&entries[i].1, &f.field_type, f.optionality.is_optional(), d) {
                            Ok(s) => Ok(Self::where_item(f.column_name.as_str(), "=", s.as_str())),
                            Err(_) => Err(error(QueryErrorKind::ValueMismatch, key)),
                        },
                    };
                    proof {
                        assert(entries@.subrange(0, i + 1).drop_last() =~= entries@.subrange(0, i as int));
                        assert(entries@.subrange(0, i + 1).last() == entries@[i as int]);
                    }
                    let ghost before = views(parts@);
                    match r {
                        Ok(p) => {
                            parts.push(p);
                            assert(views(parts@) =~= before.push(parts@.last()@));
                        },
                        Err(e) => {
                            proof { lemma_identifier_error_prefix(*m, entries@, d, i as int + 1, e.view()); }
                            return Err(e);
                        },
                    }
                    i = i + 1;
                }
                assert(entries@.subrange(0, entries@.len() as int) =~= entries@);
                Ok(join_strings(&parts, " AND "))
            },
            _ => Err(QueryError { kind: QueryErrorKind::ExpectedDictionary, key: String::new() }),
        }
    }

    /// The `ORDER BY` list that an order document stands for. Keys that name no
    /// field are dropped; a direction other than `asc` or `desc` fails.
    pub fn order_by(m: &Model, doc: &Value) -> (r: Result<String, QueryError>)
        ensures
            query_result(r) == order_by_doc(*m, *doc),
    {
        match doc {
            Value::Dictionary(entries) => {
                let mut parts: Vec<String> = Vec::new();
                let mut i: usize = 0;
                assert(views(parts@) =~= Seq::<Seq<char>>::empty());
                while i < entries.len()
                    invariant
                        i <= entries@.len(),
                        *doc == Value::Dictionary(*entries),
                        order_items(*m, entries@.subrange(0, i as int)) == Ok::<Seq<Seq<char>>, (QueryErrorKind, Seq<char>)>(views(parts@)),
                    decreases entries@.len() - i,
                {
                    let key = entries[i].0.as_str();
                    let r: Result<Option<String>, QueryError> = match m.field(key) {
                        None => Ok(None),
                        Some(f) => match &entries[i].1 {
                            Value::String(s) => {
                                if str_eq(s.as_str(), "asc") {
                                    let mut out = text(f.column_name.as_str());
                                    out.append(" ASC");
                                    Ok(Some(out))
                                } else if str_eq(s.as_str(), "desc") {
                                    let mut out = text(f.column_name.as_str());
                                    out.append(" DESC");
                                    Ok(Some(out))
                                } else {
                                    Err(error(QueryErrorKind::InvalidDirection, key))
                                }
                            },
                            _ => Err(error(QueryErrorKind::InvalidDirection, key)),
                        },
                    };
                    proof {
                        assert(entries@.subrange(0, i + 1).drop_last() =~= entries@.subrange(0, i as int));
                        assert(entries@.subrange(0, i + 1).last() == entries@[i as int]);
                    }
                    let ghost before = views(parts@);
                    match r {
                        Ok(Some(p)) => {
                            parts.push(p);
                            assert(views(parts@) =~= before.push(parts@.last()@));
                        },
                        Ok(None) => {},
                        Err(e) => {
                            proof { lemma_order_error_prefix(*m, entries@, i as int + 1, e.view()); }
                            return Err(e);
                        },
                    }
                    i = i + 1;
                }
                assert(entries@.subrange(0, entries@.len() as int) =~= entries@);
                let mut comma = String::new();
                comma.push(',');
                assert(comma@ =~= seq![',']);
                Ok(join_strings(&parts, comma.as_str()))
            },
            _ => Err(QueryError { kind: QueryErrorKind::ExpectedDictionary, key: String::new() }),
        }
    }

}

} // verus!
