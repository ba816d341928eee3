//! The resolver: links names to declarations, checks decorators against the
//! registry of known ones, and works out the type of every field. Its results
//! go to a side table keyed by item id; the parsed tree is never changed.
use vstd::prelude::*;
use crate::ast::{Arity, Decorator, Expression, InterfaceType, Source, Top, TypeExpr};
use crate::diagnostics::{Diagnostics, DiagnosticsError, Span};
use crate::parser::ASTParser;
use crate::text::str_eq;
use crate::value::FieldType;

verus! {

/// Where a declaration lives: the id of its source and its own id.
#[derive(Clone, Copy, Debug, PartialEq, Eq, Structural)]
pub struct IdReference {
    pub source_id: usize,
    pub top_id: usize,
}

/// What a name was resolved to.
#[derive(Clone, Copy, Debug, PartialEq, Eq, Structural)]
pub enum Reference {
    ModelReference(IdReference),
    ConstantReference(IdReference),
    EnumReference(IdReference),
    InterfaceReference(IdReference),
}

impl Reference {
    pub fn as_model_ref(&self) -> (r: Option<IdReference>)
        ensures
            r == (match *self {
                Reference::ModelReference(i) => Some(i),
                _ => None,
            }),
    {
        match self {
            Reference::ModelReference(r) => Some(*r),
            _ => None,
        }
    }

    pub fn is_model_ref(&self) -> (r: bool)
        ensures
            r == (*self is ModelReference),
    {
        self.as_model_ref().is_some()
    }

    pub fn as_constant_ref(&self) -> (r: Option<IdReference>)
        ensures
            r == (match *self {
                Reference::ConstantReference(i) => Some(i),
                _ => None,
            }),
    {
        match self {
            Reference::ConstantReference(c) => Some(*c),
            _ => None,
        }
    }

    pub fn is_constant_ref(&self) -> (r: bool)
        ensures
            r == (*self is ConstantReference),
    {
        self.as_constant_ref().is_some()
    }
}

/// What a field's type names.
#[derive(Debug)]
pub enum ResolvedType {
    /// A scalar or enum type, arity included.
    Scalar(FieldType),
    /// A relation to a model.
    Model(IdReference),
}

#[derive(Debug)]
pub struct FieldResolution {
    pub model_id: usize,
    pub field_index: usize,
    pub resolved_type: ResolvedType,
}

/// The names of the decorators that may be applied, by what they apply to.
#[derive(Debug)]
pub struct DecoratorRegistry {
    pub model: Vec<String>,
    pub field: Vec<String>,
    pub relation: Vec<String>,
    pub property: Vec<String>,
}

fn names_of(list: &[&str]) -> (r: Vec<String>)
    ensures
        r@.len() == list@.len(),
        forall|i: int| 0 <= i < list@.len() ==> #[trigger] r@[i]@ == list@[i]@,
{
    let mut out: Vec<String> = Vec::new();
    let mut i: usize = 0;
    while i < list.len()
        invariant
            i <= list@.len(),
            out@.len() == i,
            forall|j: int| 0 <= j < i ==> #[trigger] out@[j]@ == list@[j]@,
        decreases list@.len() - i,
    {
        out.push(String::from_str(list[i]));
        i = i + 1;
    }
    out
}

impl DecoratorRegistry {
    /// The decorators that the standard library of the schema language defines.
    pub fn standard() -> (r: Self)
        ensures
            r.model@.len() > 0 && r.field@.len() > 0 && r.relation@.len() > 0 && r.property@.len() > 0,
    {
        let model: [&str; 19] = [
            "map", "url", "id", "index", "unique", "migration", "beforeSave", "afterSave", "beforeDelete",
            "afterDelete", "canRead", "canMutate", "disableAction", "action", "identity", "generateClient",
            "generateEntity", "showInStudio", "synthesizeShapes",
        ];
        let field: [&str; 38] = [
            "map", "db", "readonly", "writeonly", "internal", "writeOnCreate", "writeOnce", "writeNonNull",
            "readwrite", "readIf", "writeIf", "presentWith", "presentWithout", "presentIf", "atomic",
            "nonatomic", "id", "autoIncrement", "default", "foreignKey", "index", "unique", "virtual",
            "inputOmissible", "outputOmissible", "onSet", "onSave", "onOutput", "auth", "identity",
            "queryable", "unqueryable", "sortable", "unsortable", "canRead", "canMutate", "migration",
            "dropped",
        ];
        let relation: [&str; 7] = ["relation", "onUpdate", "onDelete", "canRead", "canMutate", "readonly", "writeonly"];
        let property: [&str; 8] = ["getter", "setter", "cached", "deps", "index", "unique", "inputOmissible", "outputOmissible"];
        DecoratorRegistry {
            model: names_of(model.as_slice()),
            field: names_of(field.as_slice()),
            relation: names_of(relation.as_slice()),
            property: names_of(property.as_slice()),
        }
    }
}

/// The resolver's results: the ids of the declarations resolved so far, the
/// types of their fields, and the references of their constants.
#[derive(Debug)]
pub struct Resolution {
    pub resolved: Vec<usize>,
    pub field_types: Vec<FieldResolution>,
    pub references: Vec<(usize, Reference)>,
}

/// Every declaration of every source is resolved.
pub open spec fn all_resolved(parser: ASTParser, table: Resolution) -> bool {
    forall|i: int, k: int|
        0 <= i < parser.sources@.len() && 0 <= k < parser.sources@[i].tops@.len()
            ==> table.resolved@.contains(#[trigger] parser.sources@[i].tops@[k].spec_id())
}

/// The field type that a built-in type name stands for.
pub open spec fn builtin_type(name: Seq<char>) -> Option<FieldType> {
    if name == "Bool"@ {
        Some(FieldType::Bool)
    } else if name == "String"@ {
        Some(FieldType::String)
    } else if name == "Int"@ || name == "Int32"@ {
        Some(FieldType::I32)
    } else if name == "Int64"@ {
        Some(FieldType::I64)
    } else if name == "Float32"@ {
        Some(FieldType::F32)
    } else if name == "Float"@ || name == "Float64"@ {
        Some(FieldType::F64)
    } else if name == "Decimal"@ {
        Some(FieldType::Decimal)
    } else if name == "Date"@ {
        Some(FieldType::Date)
    } else if name == "DateTime"@ {
        Some(FieldType::DateTime)
    } else {
        None
    }
}

pub fn builtin(name: &str) -> (r: Option<FieldType>)
    ensures
        r == builtin_type(name@),
{
    if str_eq(name, "Bool") {
        Some(FieldType::Bool)
    } else if str_eq(name, "String") {
        Some(FieldType::String)
    } else if str_eq(name, "Int") || str_eq(name, "Int32") {
        Some(FieldType::I32)
    } else if str_eq(name, "Int64") {
        Some(FieldType::I64)
    } else if str_eq(name, "Float32") {
        Some(FieldType::F32)
    } else if str_eq(name, "Float") || str_eq(name, "Float64") {
        Some(FieldType::F64)
    } else if str_eq(name, "Decimal") {
        Some(FieldType::Decimal)
    } else if str_eq(name, "Date") {
        Some(FieldType::Date)
    } else if str_eq(name, "DateTime") {
        Some(FieldType::DateTime)
    } else {
        None
    }
}

pub fn contains_id(v: &Vec<usize>, id: usize) -> (r: bool)
    ensures
        r == v@.contains(id),
{
    let mut i: usize = 0;
    while i < v.len()
        invariant
            i <= v@.len(),
            forall|j: int| 0 <= j < i ==> v@[j] != id,
        decreases v@.len() - i,
    {
        if v[i] == id {
            assert(v@[i as int] == id);
            return true;
        }
        i = i + 1;
    }
    false
}

fn contains_name(v: &Vec<String>, name: &str) -> (r: bool)
    ensures
        r == exists|j: int| 0 <= j < v@.len() && #[trigger] v@[j]@ == name@,
{
    let mut i: usize = 0;
    while i < v.len()
        invariant
            i <= v@.len(),
            forall|j: int| 0 <= j < i ==> #[trigger] v@[j]@ != name@,
        decreases v@.len() - i,
    {
        if str_eq(v[i].as_str(), name) {
            return true;
        }
        i = i + 1;
    }
    false
}

/// The reference that the declaration `t` of source `s` gives to `name`:
/// a model, an enum or a constant declared under that name.
pub open spec fn named_ref(s: Source, t: Top, name: Seq<char>) -> Option<Reference> {
    let at = IdReference { source_id: s.id, top_id: t.spec_id() };
    match t {
        Top::Model(m) => if m.identifier.name@ == name { Some(Reference::ModelReference(at)) } else { None },
        Top::Enum(e) => if e.identifier.name@ == name { Some(Reference::EnumReference(at)) } else { None },
        Top::Constant(c) => if c.identifier.name@ == name { Some(Reference::ConstantReference(at)) } else { None },
        Top::Interface(d) => if d.name.name.name@ == name { Some(Reference::InterfaceReference(at)) } else { None },
        _ => None,
    }
}

/// Some declaration of the graph gives `name` the reference `r`.
pub open spec fn declares(sources: Seq<Source>, name: Seq<char>, r: Reference) -> bool {
    exists|i: int, k: int|
        0 <= i < sources.len() && 0 <= k < sources[i].tops@.len() && #[trigger] named_ref(sources[i], sources[i].tops@[k], name) == Some(r)
}

/// The declaration of this name anywhere in the graph, as a reference; the
/// first one in source order where several share the name.
pub fn find_declaration(parser: &ASTParser, name: &str) -> (r: Option<Reference>)
    ensures
        match r {
            Some(rf) => declares(parser.sources@, name@, rf),
            None => forall|i: int, k: int|
                0 <= i < parser.sources@.len() && 0 <= k < parser.sources@[i].tops@.len()
                    ==> #[trigger] named_ref(parser.sources@[i], parser.sources@[i].tops@[k], name@) is None,
        },
{
    let mut i: usize = 0;
    while i < parser.sources.len()
        invariant
            i <= parser.sources@.len(),
            forall|i2: int, k2: int|
                0 <= i2 < i && 0 <= k2 < parser.sources@[i2].tops@.len()
                    ==> #[trigger] named_ref(parser.sources@[i2], parser.sources@[i2].tops@[k2], name@) is None,
        decreases parser.sources@.len() - i,
    {
        let source = &parser.sources[i];
        let mut k: usize = 0;
        while k < source.tops.len()
            invariant
                i < parser.sources@.len(),
                *source == parser.sources@[i as int],
                k <= source.tops@.len(),
                forall|i2: int, k2: int|
                    0 <= i2 < i && 0 <= k2 < parser.sources@[i2].tops@.len()
                        ==> #[trigger] named_ref(parser.sources@[i2], parser.sources@[i2].tops@[k2], name@) is None,
                forall|k2: int| 0 <= k2 < k ==> #[trigger] named_ref(*source, source.tops@[k2], name@) is None,
            decreases source.tops@.len() - k,
        {
            proof {
                assert(named_ref(parser.sources@[i as int], parser.sources@[i as int].tops@[k as int], name@)
                    == named_ref(*source, source.tops@[k as int], name@));
            }
            let at = IdReference { source_id: source.id, top_id: source.tops[k].id() };
            match &source.tops[k] {
                Top::Model(m) => {
                    if str_eq(m.identifier.name.as_str(), name) {
                        return Some(Reference::ModelReference(at));
                    }
                },
                Top::Enum(e) => {
                    if str_eq(e.identifier.name.as_str(), name) {
                        return Some(Reference::EnumReference(at));
                    }
                },
                Top::Constant(c) => {
                    if str_eq(c.identifier.name.as_str(), name) {
                        return Some(Reference::ConstantReference(at));
                    }
                },
                Top::Interface(d) => {
                    if str_eq(d.name.name.name.as_str(), name) {
                        return Some(Reference::InterfaceReference(at));
                    }
                },
                _ => {},
            }
            k = k + 1;
        }
        proof {
            assert forall|i2: int, k2: int|
                0 <= i2 < i + 1 && 0 <= k2 < parser.sources@[i2].tops@.len()
                    implies #[trigger] named_ref(parser.sources@[i2], parser.sources@[i2].tops@[k2], name@) is None by {
                if i2 == i {
                    assert(named_ref(*source, source.tops@[k2], name@) is None);
                }
            }
        }
        i = i + 1;
    }
    None
}

/// The reference that `t` of source `s` gives to `name` when it is a model or an enum.
pub open spec fn named_type_ref(s: Source, t: Top, name: Seq<char>) -> Option<Reference> {
    match named_ref(s, t, name) {
        Some(Reference::ModelReference(at)) => Some(Reference::ModelReference(at)),
        Some(Reference::EnumReference(at)) => Some(Reference::EnumReference(at)),
        _ => None,
    }
}

/// Some model or enum of the graph gives `name` the reference `r`.
pub open spec fn declares_type(sources: Seq<Source>, name: Seq<char>, r: Reference) -> bool {
    exists|i: int, k: int|
        0 <= i < sources.len() && 0 <= k < sources[i].tops@.len() && #[trigger] named_type_ref(sources[i], sources[i].tops@[k], name) == Some(r)
}

/// The model or enum of this name anywhere in the graph, as a reference; the
/// first one in source order where several share the name.
pub fn find_type_declaration(parser: &ASTParser, name: &str) -> (r: Option<Reference>)
    ensures
        match r {
            Some(rf) => declares_type(parser.sources@, name@, rf),
            None => forall|i: int, k: int|
                0 <= i < parser.sources@.len() && 0 <= k < parser.sources@[i].tops@.len()
                    ==> #[trigger] named_type_ref(parser.sources@[i], parser.sources@[i].tops@[k], name@) is None,
        },
{
    let mut i: usize = 0;
    while i < parser.sources.len()
        invariant
            i <= parser.sources@.len(),
            forall|i2: int, k2: int|
                0 <= i2 < i && 0 <= k2 < parser.sources@[i2].tops@.len()
                    ==> #[trigger] named_type_ref(parser.sources@[i2], parser.sources@[i2].tops@[k2], name@) is None,
        decreases parser.sources@.len() - i,
    {
        let source = &parser.sources[i];
        let mut k: usize = 0;
        while k < source.tops.len()
            invariant
                i < parser.sources@.len(),
                *source == parser.sources@[i as int],
                k <= source.tops@.len(),
                forall|i2: int, k2: int|
                    0 <= i2 < i && 0 <= k2 < parser.sources@[i2].tops@.len()
                        ==> #[trigger] named_type_ref(parser.sources@[i2], parser.sources@[i2].tops@[k2], name@) is None,
                forall|k2: int| 0 <= k2 < k ==> #[trigger] named_type_ref(*source, source.tops@[k2], name@) is None,
            decreases source.tops@.len() - k,
        {
            proof {
                assert(named_type_ref(parser.sources@[i as int], parser.sources@[i as int].tops@[k as int], name@)
                    == named_type_ref(*source, source.tops@[k as int], name@));
            }
            let at = IdReference { source_id: source.id, top_id: source.tops[k].id() };
            match &source.tops[k] {
                Top::Model(m) => {
                    if str_eq(m.identifier.name.as_str(), name) {
                        return Some(Reference::ModelReference(at));
                    }
                },
                Top::Enum(e) => {
                    if str_eq(e.identifier.name.as_str(), name) {
                        return Some(Reference::EnumReference(at));
                    }
                },
                _ => {},
            }
            k = k + 1;
        }
        proof {
            assert forall|i2: int, k2: int|
                0 <= i2 < i + 1 && 0 <= k2 < parser.sources@[i2].tops@.len()
                    implies #[trigger] named_type_ref(parser.sources@[i2], parser.sources@[i2].tops@[k2], name@) is None by {
                if i2 == i {
                    assert(named_type_ref(*source, source.tops@[k2], name@) is None);
                }
            }
        }
        i = i + 1;
    }
    None
}

/// The leading identifier of a name or of a unit.
pub open spec fn leading_name(e: Expression) -> Option<String> {
    match e {
        Expression::Identifier(id) => Some(id.name),
        Expression::Unit(elements, _) => if elements@.len() > 0 {
            match elements@[0] {
                Expression::Identifier(id) => Some(id.name),
                _ => None,
            }
        } else {
            None
        },
        _ => None,
    }
}

/// The name a decorator applies: its leading identifier.
pub fn decorator_name(d: &Decorator) -> (r: Option<&String>)
    ensures
        match leading_name(d.expression) {
            Some(n) => r matches Some(m) && *m == n,
            None => r is None,
        },
{
    match &d.expression {
        Expression::Identifier(id) => Some(&id.name),
        Expression::Unit(elements, _) => {
            if elements.len() > 0 {
                match &elements[0] {
                    Expression::Identifier(id) => Some(&id.name),
                    _ => None,
                }
            } else {
                None
            }
        },
        _ => None,
    }
}

fn error(diagnostics: &mut Diagnostics, span: Span, message: String, source_id: usize, path: &String)
    ensures
        final(diagnostics).error_records().len() == old(diagnostics).error_records().len() + 1,
        final(diagnostics).warning_records() == old(diagnostics).warning_records(),
{
    diagnostics.insert(DiagnosticsError::new(span, message, source_id, path.clone()));
}

fn quoted_message(before: &str, name: &str, after: &str) -> String {
    let mut m = String::from_str(before);
    m.append(name);
    m.append(after);
    m
}

/// Whether the registry list holds the name.
pub open spec fn is_known(known: Seq<String>, name: Seq<char>) -> bool {
    exists|j: int| 0 <= j < known.len() && #[trigger] known[j]@ == name
}

/// The number of decorators that apply no name of the registry list.
pub open spec fn unknown_decorators(decorators: Seq<Decorator>, known: Seq<String>) -> nat
    decreases decorators.len(),
{
    if decorators.len() == 0 {
        0
    } else {
        unknown_decorators(decorators.drop_last(), known) + match leading_name(decorators.last().expression) {
            Some(n) => if is_known(known, n@) { 0nat } else { 1nat },
            None => 1nat,
        }
    }
}

/// Checks decorators against the registry list: one error for each that
/// applies an unknown name (or no name), and nothing else.
pub fn check_decorators(decorators: &Vec<Decorator>, known: &Vec<String>, diagnostics: &mut Diagnostics, source_id: usize, path: &String)
    ensures
        final(diagnostics).error_records().len() == old(diagnostics).error_records().len()
            + unknown_decorators(decorators@, known@),
        final(diagnostics).warning_records() == old(diagnostics).warning_records(),
{
    let mut i: usize = 0;
    while i < decorators.len()
        invariant
            i <= decorators@.len(),
            diagnostics.error_records().len() == old(diagnostics).error_records().len()
                + unknown_decorators(decorators@.subrange(0, i as int), known@),
            diagnostics.warning_records() == old(diagnostics).warning_records(),
        decreases decorators@.len() - i,
    {
        proof {
            assert(decorators@.subrange(0, i + 1).drop_last() =~= decorators@.subrange(0, i as int));
            assert(decorators@.subrange(0, i + 1).last() == decorators@[i as int]);
        }
        match decorator_name(&decorators[i]) {
            Some(name) => {
                if !contains_name(known, name.as_str()) {
                    let m = quoted_message("Undefined decorator '@", name.as_str(), "'.");
                    error(diagnostics, decorators[i].span, m, source_id, path);
                }
            },
            None => {
                error(diagnostics, decorators[i].span, String::from_str("Invalid decorator."), source_id, path);
            },
        }
        i = i + 1;
    }
    assert(decorators@.subrange(0, decorators@.len() as int) =~= decorators@);
}

/// The type a field's type expression stands for, given what its name resolved to.
pub fn field_type_of(t: &TypeExpr, base: FieldType) -> (r: Option<FieldType>)
    ensures
        match t.arity {
            Arity::Scalar => r == Some(base),
            Arity::Array => r == Some(FieldType::Array(Box::new(base), !t.item_required)),
            Arity::Dictionary => r is None,
        },
{
    match t.arity {
        Arity::Scalar => Some(base),
        Arity::Array => Some(FieldType::Array(Box::new(base), !t.item_required)),
        Arity::Dictionary => None,
    }
}

/// `rt` is what the type expression `t` names in the graph.
pub open spec fn resolved_ok(parser: ASTParser, t: TypeExpr, rt: ResolvedType) -> bool {
    match builtin_type(t.identifier.name@) {
        Some(b) => match t.arity {
            Arity::Scalar => rt == ResolvedType::Scalar(b),
            Arity::Array => rt == ResolvedType::Scalar(FieldType::Array(Box::new(b), !t.item_required)),
            Arity::Dictionary => false,
        },
        None => match rt {
            ResolvedType::Model(at) => declares_type(parser.sources@, t.identifier.name@, Reference::ModelReference(at)),
            ResolvedType::Scalar(ft) => (exists|at: IdReference| declares_type(parser.sources@, t.identifier.name@, Reference::EnumReference(at)))
                && match t.arity {
                    Arity::Array => ft matches FieldType::Array(e, _) && *e matches FieldType::Enum(n) && n@ == t.identifier.name@,
                    Arity::Scalar => ft matches FieldType::Enum(n) && n@ == t.identifier.name@,
                    Arity::Dictionary => false,
                },
        },
    }
}

/// An entry of the field-type table that the declaration `top` accounts for.
pub open spec fn field_entry_ok(parser: ASTParser, top: Top, e: FieldResolution) -> bool {
    top matches Top::Model(m) && e.model_id == m.id && e.field_index < m.fields@.len()
        && resolved_ok(parser, m.fields@[e.field_index as int].field_type, e.resolved_type)
}

/// Some model, enum, constant or interface of the graph has this name.
pub open spec fn name_declared(parser: ASTParser, name: Seq<char>) -> bool {
    exists|i: int, k: int|
        0 <= i < parser.sources@.len() && 0 <= k < parser.sources@[i].tops@.len()
            && #[trigger] named_ref(parser.sources@[i], parser.sources@[i].tops@[k], name) is Some
}

/// An entry of the reference table that the declaration `top` accounts for:
/// a constant whose expression leads with a name declared as that reference.
pub open spec fn reference_entry_ok(parser: ASTParser, top: Top, e: (usize, Reference)) -> bool {
    match top {
        Top::Constant(c) => e.0 == c.id && match leading_name(c.expression) {
            Some(n) => declares(parser.sources@, n@, e.1),
            None => false,
        },
        _ => false,
    }
}

/// What a field's type names: a built-in type (with its arity), an enum of the
/// graph, or a model of the graph (a relation). `None` where the name is
/// unknown, and for dictionaries, which no field type stands for.
pub fn resolve_field_type(parser: &ASTParser, t: &TypeExpr) -> (r: Option<ResolvedType>)
    ensures
        r matches Some(rt) ==> resolved_ok(*parser, *t, rt),
        match builtin_type(t.identifier.name@) {
            Some(b) => match t.arity {
                Arity::Scalar => r == Some(ResolvedType::Scalar(b)),
                Arity::Array => r == Some(ResolvedType::Scalar(FieldType::Array(Box::new(b), !t.item_required))),
                Arity::Dictionary => r is None,
            },
            None => match r {
                Some(ResolvedType::Model(at)) => declares_type(parser.sources@, t.identifier.name@, Reference::ModelReference(at)),
                Some(ResolvedType::Scalar(ft)) => (exists|at: IdReference| declares_type(parser.sources@, t.identifier.name@, Reference::EnumReference(at)))
                    && match t.arity {
                        Arity::Array => ft matches FieldType::Array(e, _) && *e matches FieldType::Enum(n) && n@ == t.identifier.name@,
                        _ => ft matches FieldType::Enum(n) && n@ == t.identifier.name@,
                    },
                None => (forall|i: int, k: int|
                    0 <= i < parser.sources@.len() && 0 <= k < parser.sources@[i].tops@.len()
                        ==> #[trigger] named_type_ref(parser.sources@[i], parser.sources@[i].tops@[k], t.identifier.name@) is None)
                    || (t.arity == Arity::Dictionary && exists|at: IdReference| declares_type(parser.sources@, t.identifier.name@, Reference::EnumReference(at))),
            },
        },
{
    let name = t.identifier.name.as_str();
    match builtin(name) {
        Some(base) => match field_type_of(t, base) {
            Some(ft) => Some(ResolvedType::Scalar(ft)),
            None => None,
        },
        None => match find_type_declaration(parser, name) {
            Some(Reference::EnumReference(_)) => match field_type_of(t, FieldType::Enum(String::from_str(name))) {
                Some(ft) => Some(ResolvedType::Scalar(ft)),
                None => None,
            },
            Some(Reference::ModelReference(at)) => Some(ResolvedType::Model(at)),
            _ => None,
        },
    }
}

/// What the leading name of a constant's expression refers to. `None` where
/// the expression has no leading name, or where nothing is declared under it.
pub fn resolve_constant_reference(parser: &ASTParser, c: &crate::ast::Constant) -> (r: Option<Reference>)
    ensures
        match leading_name(c.expression) {
            Some(n) => match r {
                Some(rf) => declares(parser.sources@, n@, rf),
                None => forall|i: int, k: int|
                    0 <= i < parser.sources@.len() && 0 <= k < parser.sources@[i].tops@.len()
                        ==> #[trigger] named_ref(parser.sources@[i], parser.sources@[i].tops@[k], n@) is None,
            },
            None => r is None,
        },
{
    let head: Option<&crate::ast::Identifier> = match &c.expression {
        Expression::Identifier(id) => Some(id),
        Expression::Unit(elements, _) => {
            if elements.len() > 0 {
                match &elements[0] {
                    Expression::Identifier(id) => Some(id),
                    _ => None,
                }
            } else {
                None
            }
        },
        _ => None,
    };
    match head {
        Some(id) => find_declaration(parser, id.name.as_str()),
        None => None,
    }
}

/// Whether a name of an interface type is known: a built-in type, a
/// declaration of the graph other than a constant, or one of the generic
/// parameters in scope.
pub open spec fn type_name_known(parser: ASTParser, params: Seq<InterfaceType>, name: Seq<char>) -> bool {
    builtin_type(name) is Some || (exists|rf: Reference| !(rf is ConstantReference) && declares(parser.sources@, name, rf))
        || (exists|j: int| 0 <= j < params.len() && #[trigger] params[j].name.name@ == name)
}

/// Reports each name in an interface type (its arguments included) that is
/// not known; returns whether all were known.
pub fn check_interface_type(
    parser: &ASTParser,
    params: &Vec<InterfaceType>,
    t: &InterfaceType,
    diagnostics: &mut Diagnostics,
    source_id: usize,
    path: &String,
) -> (r: bool)
    ensures
        !type_name_known(*parser, params@, t.name.name@) ==> !r,
        r ==> final(diagnostics).error_records().len() == old(diagnostics).error_records().len(),
        final(diagnostics).warning_records() == old(diagnostics).warning_records(),
    decreases t,
{
    let name = t.name.name.as_str();
    let mut known = builtin(name).is_some();
    if !known {
        match find_declaration(parser, name) {
            Some(Reference::ConstantReference(_)) | None => {},
            Some(_) => {
                known = true;
            },
        }
    }
    assert(known ==> type_name_known(*parser, params@, name@));
    if !known {
        let mut j: usize = 0;
        while j < params.len()
            invariant
                j <= params@.len(),
                known ==> type_name_known(*parser, params@, name@),
            decreases params@.len() - j,
        {
            if str_eq(params[j].name.name.as_str(), name) {
                assert(params@[j as int].name.name@ == name@);
                known = true;
            }
            j = j + 1;
        }
    }
    assert(known ==> type_name_known(*parser, params@, name@));
    let mut all = known;
    if !known {
        let m = quoted_message("Unresolved type '", name, "'.");
        error(diagnostics, t.name.span, m, source_id, path);
    }
    let mut a: usize = 0;
    while a < t.args.len()
        invariant
            a <= t.args@.len(),
            all ==> diagnostics.error_records().len() == old(diagnostics).error_records().len(),
            !type_name_known(*parser, params@, t.name.name@) ==> !all,
            diagnostics.warning_records() == old(diagnostics).warning_records(),
        decreases t.args@.len() - a,
    {
        proof {
            assert(decreases_to!(t.args => t.args@));
        }
        let ok = check_interface_type(parser, params, &t.args[a], diagnostics, source_id, path);
        all = all && ok;
        a = a + 1;
    }
    all
}

/// Resolves one declaration: checks its decorators, adds one entry for each
/// of its fields whose type resolves and one reference for a constant whose
/// leading name resolves, and reports an error for each that does not.
pub fn resolve_declaration(
    parser: &ASTParser,
    registry: &DecoratorRegistry,
    top: &Top,
    source_id: usize,
    path: &String,
    table: &mut Resolution,
    diagnostics: &mut Diagnostics,
)
    ensures
        final(table).resolved == old(table).resolved,
        final(table).field_types@.len() >= old(table).field_types@.len(),
        final(table).field_types@.subrange(0, old(table).field_types@.len() as int) == old(table).field_types@,
        forall|j: int|
            old(table).field_types@.len() <= j < final(table).field_types@.len() ==> field_entry_ok(
                *parser,
                *top,
                #[trigger] final(table).field_types@[j],
            ),
        match *top {
            Top::Constant(c) => match leading_name(c.expression) {
                Some(n) => if name_declared(*parser, n@) {
                    final(table).references@.len() == old(table).references@.len() + 1
                        && final(table).references@.drop_last() == old(table).references@
                        && reference_entry_ok(*parser, *top, final(table).references@.last())
                } else {
                    final(table).references@ == old(table).references@
                        && final(diagnostics).error_records().len() == old(diagnostics).error_records().len() + 1
                },
                None => final(table).references@ == old(table).references@,
            },
            _ => final(table).references@ == old(table).references@,
        },
{
    match top {
        Top::Model(model) => {
            check_decorators(&model.decorators, &registry.model, diagnostics, source_id, path);
            let mut f: usize = 0;
            while f < model.fields.len()
                invariant
                    f <= model.fields@.len(),
                    *top == Top::Model(*model),
                    table.resolved == old(table).resolved,
                    table.references == old(table).references,
                    table.field_types@.len() >= old(table).field_types@.len(),
                    table.field_types@.subrange(0, old(table).field_types@.len() as int) == old(table).field_types@,
                    forall|j: int|
                        old(table).field_types@.len() <= j < table.field_types@.len() ==> field_entry_ok(
                            *parser,
                            *top,
                            #[trigger] table.field_types@[j],
                        ),
                decreases model.fields@.len() - f,
            {
                let field = &model.fields[f];
                let name = field.field_type.identifier.name.as_str();
                let resolved = resolve_field_type(parser, &field.field_type);
                match resolved {
                    Some(rt) => {
                        let is_relation = match rt {
                            ResolvedType::Model(_) => true,
                            _ => false,
                        };
                        if is_relation {
                            check_decorators(&field.decorators, &registry.relation, diagnostics, source_id, path);
                        } else {
                            check_decorators(&field.decorators, &registry.field, diagnostics, source_id, path);
                        }
                        let ghost before = table.field_types@;
                        table.field_types.push(FieldResolution { model_id: model.id, field_index: f, resolved_type: rt });
                        proof {
                            assert(table.field_types@.subrange(0, old(table).field_types@.len() as int)
                                =~= before.subrange(0, old(table).field_types@.len() as int));
                            assert forall|j: int|
                                old(table).field_types@.len() <= j < table.field_types@.len() implies field_entry_ok(
                                    *parser,
                                    *top,
                                    #[trigger] table.field_types@[j],
                                ) by {
                                if j < before.len() {
                                    assert(table.field_types@[j] == before[j]);
                                }
                            }
                        }
                    },
                    None => {
                        let m = quoted_message("Unresolved type '", name, "'.");
                        error(diagnostics, field.field_type.span, m, source_id, path);
                    },
                }
                f = f + 1;
            }
        },
        Top::Constant(constant) => {
            match resolve_constant_reference(parser, constant) {
                Some(r) => table.references.push((constant.id, r)),
                None => match &constant.expression {
                    Expression::Identifier(id) => {
                        let m = quoted_message("Unresolved reference '", id.name.as_str(), "'.");
                        error(diagnostics, id.span, m, source_id, path);
                    },
                    Expression::Unit(elements, _) => {
                        if elements.len() > 0 {
                            match &elements[0] {
                                Expression::Identifier(id) => {
                                    let m = quoted_message("Unresolved reference '", id.name.as_str(), "'.");
                                    error(diagnostics, id.span, m, source_id, path);
                                },
                                _ => {},
                            }
                        }
                    },
                    _ => {},
                },
            }
        },
        Top::Interface(d) => {
            let params = &d.name.args;
            let mut e: usize = 0;
            while e < d.extends.len()
                invariant
                    e <= d.extends@.len(),
                    table.resolved == old(table).resolved,
                decreases d.extends@.len() - e,
            {
                check_interface_type(parser, params, &d.extends[e], diagnostics, source_id, path);
                e = e + 1;
            }
            let mut i: usize = 0;
            while i < d.items.len()
                invariant
                    i <= d.items@.len(),
                    table.resolved == old(table).resolved,
                decreases d.items@.len() - i,
            {
                check_interface_type(parser, params, &d.items[i].kind, diagnostics, source_id, path);
                i = i + 1;
            }
        },
        Top::ActionGroup(g) => {
            let no_params: Vec<InterfaceType> = Vec::new();
            let mut a: usize = 0;
            while a < g.actions.len()
                invariant
                    a <= g.actions@.len(),
                    table.resolved == old(table).resolved,
                decreases g.actions@.len() - a,
            {
                check_interface_type(parser, &no_params, &g.actions[a].input_type, diagnostics, source_id, path);
                check_interface_type(parser, &no_params, &g.actions[a].output_type, diagnostics, source_id, path);
                a = a + 1;
            }
        },
        _ => {},
    }
}

/// A field-type entry that some declaration of the graph accounts for.
pub open spec fn accounted_field(parser: ASTParser, e: FieldResolution) -> bool {
    exists|i: int, k: int|
        0 <= i < parser.sources@.len() && 0 <= k < parser.sources@[i].tops@.len()
            && #[trigger] field_entry_ok(parser, parser.sources@[i].tops@[k], e)
}

/// A reference entry that some constant of the graph accounts for.
pub open spec fn accounted_reference(parser: ASTParser, e: (usize, Reference)) -> bool {
    exists|i: int, k: int|
        0 <= i < parser.sources@.len() && 0 <= k < parser.sources@[i].tops@.len()
            && #[trigger] reference_entry_ok(parser, parser.sources@[i].tops@[k], e)
}

/// Resolves every declaration that the table does not list yet, and lists it.
/// Declarations already listed are left alone, so resolving a resolved graph
/// again changes nothing and reports nothing.
pub fn resolve(parser: &ASTParser, registry: &DecoratorRegistry, table: &mut Resolution, diagnostics: &mut Diagnostics)
    ensures
        all_resolved(*parser, *final(table)),
        forall|id: usize| old(table).resolved@.contains(id) ==> #[trigger] final(table).resolved@.contains(id),
        all_resolved(*parser, *old(table)) ==> *final(table) == *old(table) && *final(diagnostics) == *old(diagnostics),
        final(table).field_types@.len() >= old(table).field_types@.len(),
        final(table).field_types@.subrange(0, old(table).field_types@.len() as int) == old(table).field_types@,
        forall|j: int| old(table).field_types@.len() <= j < final(table).field_types@.len() ==> accounted_field(*parser, #[trigger] final(table).field_types@[j]),
        final(table).references@.len() >= old(table).references@.len(),
        final(table).references@.subrange(0, old(table).references@.len() as int) == old(table).references@,
        forall|j: int| old(table).references@.len() <= j < final(table).references@.len() ==> accounted_reference(*parser, #[trigger] final(table).references@[j]),
{
    let ghost was_resolved = all_resolved(*parser, *table);
    let mut i: usize = 0;
    while i < parser.sources.len()
        invariant
            i <= parser.sources@.len(),
            was_resolved == all_resolved(*parser, *old(table)),
            was_resolved ==> *table == *old(table) && *diagnostics == *old(diagnostics),
            forall|id: usize| old(table).resolved@.contains(id) ==> #[trigger] table.resolved@.contains(id),
            forall|i2: int, k2: int|
                0 <= i2 < i && 0 <= k2 < parser.sources@[i2].tops@.len() ==> table.resolved@.contains(
                    #[trigger] parser.sources@[i2].tops@[k2].spec_id(),
                ),
            table.field_types@.len() >= old(table).field_types@.len(),
            table.field_types@.subrange(0, old(table).field_types@.len() as int) == old(table).field_types@,
            forall|j: int| old(table).field_types@.len() <= j < table.field_types@.len() ==> accounted_field(*parser, #[trigger] table.field_types@[j]),
            table.references@.len() >= old(table).references@.len(),
            table.references@.subrange(0, old(table).references@.len() as int) == old(table).references@,
            forall|j: int| old(table).references@.len() <= j < table.references@.len() ==> accounted_reference(*parser, #[trigger] table.references@[j]),
        decreases parser.sources@.len() - i,
    {
        let source = &parser.sources[i];
        let mut k: usize = 0;
        while k < source.tops.len()
            invariant
                i < parser.sources@.len(),
                *source == parser.sources@[i as int],
                k <= source.tops@.len(),
                was_resolved == all_resolved(*parser, *old(table)),
                was_resolved ==> *table == *old(table) && *diagnostics == *old(diagnostics),
                forall|id: usize| old(table).resolved@.contains(id) ==> #[trigger] table.resolved@.contains(id),
                forall|i2: int, k2: int|
                    0 <= i2 < i && 0 <= k2 < parser.sources@[i2].tops@.len() ==> table.resolved@.contains(
                        #[trigger] parser.sources@[i2].tops@[k2].spec_id(),
                    ),
                forall|k2: int| 0 <= k2 < k ==> table.resolved@.contains(#[trigger] source.tops@[k2].spec_id()),
                table.field_types@.len() >= old(table).field_types@.len(),
                table.field_types@.subrange(0, old(table).field_types@.len() as int) == old(table).field_types@,
                forall|j: int| old(table).field_types@.len() <= j < table.field_types@.len() ==> accounted_field(*parser, #[trigger] table.field_types@[j]),
                table.references@.len() >= old(table).references@.len(),
                table.references@.subrange(0, old(table).references@.len() as int) == old(table).references@,
                forall|j: int| old(table).references@.len() <= j < table.references@.len() ==> accounted_reference(*parser, #[trigger] table.references@[j]),
            decreases source.tops@.len() - k,
        {
            let id = source.tops[k].id();
            if !contains_id(&table.resolved, id) {
                proof {
                    if was_resolved {
                        assert(old(table).resolved@.contains(parser.sources@[i as int].tops@[k as int].spec_id()));
                    }
                }
                let ghost ft0 = table.field_types@;
                let ghost rf0 = table.references@;
                resolve_declaration(parser, registry, &source.tops[k], source.id, &source.path, table, diagnostics);
                proof {
                    let top = parser.sources@[i as int].tops@[k as int];
                    assert(top == source.tops@[k as int]);
                    assert(table.field_types@.subrange(0, old(table).field_types@.len() as int)
                        =~= table.field_types@.subrange(0, ft0.len() as int).subrange(0, old(table).field_types@.len() as int));
                    assert forall|j: int| old(table).field_types@.len() <= j < table.field_types@.len()
                        implies accounted_field(*parser, #[trigger] table.field_types@[j]) by {
                        if j < ft0.len() {
                            assert(table.field_types@[j] == table.field_types@.subrange(0, ft0.len() as int)[j]);
                            assert(table.field_types@[j] == ft0[j]);
                        } else {
                            assert(field_entry_ok(*parser, parser.sources@[i as int].tops@[k as int], table.field_types@[j]));
                        }
                    }
                    if table.references@.len() > rf0.len() {
                        assert(table.references@.drop_last() == rf0);
                        assert(reference_entry_ok(*parser, parser.sources@[i as int].tops@[k as int], table.references@.last()));
                    }
                    assert(table.references@.subrange(0, old(table).references@.len() as int)
                        =~= rf0.subrange(0, old(table).references@.len() as int));
                    assert forall|j: int| old(table).references@.len() <= j < table.references@.len()
                        implies accounted_reference(*parser, #[trigger] table.references@[j]) by {
                        if j < rf0.len() {
                            assert(table.references@[j] == rf0[j]);
                        } else {
                            assert(j == table.references@.len() - 1);
                        }
                    }
                }
                let ghost before = table.resolved@;
                table.resolved.push(id);
                proof {
                    assert forall|x: usize| before.contains(x) implies #[trigger] table.resolved@.contains(x) by {
                        let j = choose|j: int| 0 <= j < before.len() && before[j] == x;
                        assert(table.resolved@[j] == x);
                    }
                    assert(table.resolved@[before.len() as int] == id);
                }
            }
            k = k + 1;
        }
        i = i + 1;
    }
}

} // verus!
