//! The resolved schema that queries are translated against: models, their
//! fields and their relations.
use vstd::prelude::*;
use crate::relation::Relation;
use crate::text::str_eq;
use crate::value::FieldType;

verus! {

/// Whether a field or property may hold null.
#[derive(Clone, Copy, Debug, PartialEq, Eq, Structural)]
pub enum Optionality {
    Optional,
    Required,
}

impl Optionality {
    pub fn is_optional(&self) -> (r: bool)
        ensures
            r == (*self == Optionality::Optional),
    {
        match self {
            Optionality::Optional => true,
            Optionality::Required => false,
        }
    }

    pub fn is_required(&self) -> (r: bool)
        ensures
            r == (*self == Optionality::Required),
    {
        match self {
            Optionality::Optional => false,
            Optionality::Required => true,
        }
    }
}

/// A scalar field of a model, stored in one column.
#[derive(Debug)]
pub struct Field {
    pub name: String,
    pub column_name: String,
    pub field_type: FieldType,
    pub optionality: Optionality,
}

impl Field {
    pub open spec fn is_optional_spec(&self) -> bool {
        self.optionality == Optionality::Optional
    }
}

/// A model: its scalar fields and its relations, in declaration order.
#[derive(Debug)]
pub struct Model {
    pub name: String,
    pub fields: Vec<Field>,
    pub relations: Vec<Relation>,
}

/// The index of the first field named `key`, if any.
pub open spec fn find_field(fields: Seq<Field>, key: Seq<char>) -> Option<int> {
    if exists|i: int|
        0 <= i < fields.len() && #[trigger] fields[i].name@ == key && forall|j: int|
            0 <= j < i ==> fields[j].name@ != key {
        Some(
            choose|i: int|
                0 <= i < fields.len() && #[trigger] fields[i].name@ == key && forall|j: int|
                    0 <= j < i ==> fields[j].name@ != key,
        )
    } else {
        None
    }
}

/// The index of the first relation named `key`, if any.
pub open spec fn find_relation(relations: Seq<Relation>, key: Seq<char>) -> Option<int> {
    if exists|i: int|
        0 <= i < relations.len() && #[trigger] relations[i].name@ == key && forall|j: int|
            0 <= j < i ==> relations[j].name@ != key {
        Some(
            choose|i: int|
                0 <= i < relations.len() && #[trigger] relations[i].name@ == key && forall|j: int|
                    0 <= j < i ==> relations[j].name@ != key,
        )
    } else {
        None
    }
}

impl Model {
    /// The first field of this name.
    pub fn field_index(&self, name: &str) -> (r: Option<usize>)
        ensures
            match r {
                Some(i) => find_field(self.fields@, name@) == Some(i as int),
                None => find_field(self.fields@, name@) is None,
            },
    {
        let mut i: usize = 0;
        while i < self.fields.len()
            invariant
                i <= self.fields@.len(),
                forall|j: int| 0 <= j < i ==> self.fields@[j].name@ != name@,
            decreases self.fields@.len() - i,
        {
            if str_eq(self.fields[i].name.as_str(), name) {
                let ghost k = i as int;
                assert(0 <= k < self.fields@.len() && self.fields@[k].name@ == name@ && forall|j: int|
                    0 <= j < k ==> self.fields@[j].name@ != name@);
                let ghost c = find_field(self.fields@, name@)->0;
                assert(c == k) by {
                    if c < k {
                        assert(self.fields@[c].name@ != name@);
                    }
                    if c > k {
                        assert(self.fields@[k].name@ != name@);
                    }
                };
                return Some(i);
            }
            i = i + 1;
        }
        None
    }

    /// The first field of this name.
    pub fn field(&self, name: &str) -> (r: Option<&Field>)
        ensures
            match find_field(self.fields@, name@) {
                Some(i) => r == Some(&self.fields@[i]),
                None => r is None,
            },
    {
        match self.field_index(name) {
            Some(i) => Some(&self.fields[i]),
            None => None,
        }
    }

    /// The first relation of this name.
    pub fn relation(&self, name: &str) -> (r: Option<&Relation>)
        ensures
            match find_relation(self.relations@, name@) {
                Some(i) => r == Some(&self.relations@[i]),
                None => r is None,
            },
    {
        let mut i: usize = 0;
        while i < self.relations.len()
            invariant
                i <= self.relations@.len(),
                forall|j: int| 0 <= j < i ==> self.relations@[j].name@ != name@,
            decreases self.relations@.len() - i,
        {
            if str_eq(self.relations[i].name.as_str(), name) {
                let ghost k = i as int;
                assert(0 <= k < self.relations@.len() && self.relations@[k].name@ == name@ && forall|j: int|
                    0 <= j < k ==> self.relations@[j].name@ != name@);
                let ghost c = find_relation(self.relations@, name@)->0;
                assert(c == k) by {
                    if c < k {
                        assert(self.relations@[c].name@ != name@);
                    }
                    if c > k {
                        assert(self.relations@[k].name@ != name@);
                    }
                };
                return Some(&self.relations[i]);
            }
            i = i + 1;
        }
        None
    }
}

} // verus!
