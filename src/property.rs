//! Computed properties of a model: a name, a type, and optional getter and
//! setter pipelines.
use vstd::prelude::*;
use crate::schema::Optionality;
use crate::value::FieldType;

verus! {

/// Relies on `inflector::cases::titlecase::to_title_case`: the words of `s`
/// capitalised and separated by single spaces, worked out from `s` alone.
pub uninterp spec fn title_case_of(s: Seq<char>) -> Seq<char>;

/// Relies on `inflector::cases::titlecase::to_title_case`.
#[verifier::external_body]
fn title_case(s: &str) -> (r: String)
    ensures
        r@ == title_case_of(s@),
{
    inflector::cases::titlecase::to_title_case(s)
}

#[derive(Debug)]
pub struct Property {
    pub name: String,
    pub localized_name: Option<String>,
    pub description: Option<String>,
    pub optionality: Optionality,
    pub field_type: Option<FieldType>,
    /// The column type that the connector picked for this property's type.
    pub database_type: Option<String>,
    pub dependencies: Vec<String>,
    /// The names of the items of the setter pipeline, if there is one.
    pub setter: Option<Vec<String>>,
    /// The names of the items of the getter pipeline, if there is one.
    pub getter: Option<Vec<String>>,
    pub input_omissible: bool,
    pub cached: bool,
}

impl Property {
    pub fn new(name: String) -> (r: Self)
        ensures
            r.name == name,
            r.localized_name is None,
            r.description is None,
            r.optionality == Optionality::Optional,
            r.field_type is None,
            r.database_type is None,
            r.dependencies@.len() == 0,
            r.setter is None,
            r.getter is None,
            !r.cached,
            !r.input_omissible,
    {
        Property {
            name,
            localized_name: None,
            description: None,
            optionality: Optionality::Optional,
            field_type: None,
            database_type: None,
            dependencies: Vec::new(),
            setter: None,
            getter: None,
            input_omissible: false,
            cached: false,
        }
    }

    /// The name shown to people: the one given, or the title case of the name.
    pub fn localized_name(&self) -> (r: String)
        ensures
            match self.localized_name {
                Some(ln) => r@ == ln@,
                None => r@ == title_case_of(self.name@),
            },
    {
        match &self.localized_name {
            Some(ln) => ln.clone(),
            None => title_case(self.name.as_str()),
        }
    }

    pub fn name(&self) -> (r: &str)
        ensures
            r@ == self.name@,
    {
        self.name.as_str()
    }

    pub fn database_type(&self) -> (r: &String)
        requires
            self.database_type is Some,
        ensures
            *r == self.database_type->0,
    {
        self.database_type.as_ref().unwrap()
    }

    pub fn is_required(&self) -> (r: bool)
        ensures
            r == (self.optionality == Optionality::Required),
    {
        self.optionality.is_required()
    }

    pub fn is_optional(&self) -> (r: bool)
        ensures
            r == (self.optionality == Optionality::Optional),
    {
        self.optionality.is_optional()
    }

    /// Records the column type that the connector picked for this property.
    pub fn finalize(&mut self, database_type: String)
        ensures
            final(self).database_type == Some(database_type),
            final(self).name == old(self).name,
            final(self).field_type == old(self).field_type,
            final(self).optionality == old(self).optionality,
    {
        self.database_type = Some(database_type);
    }

    pub fn set_required(&mut self)
        ensures
            final(self).optionality == Optionality::Required,
            final(self).name == old(self).name,
            final(self).field_type == old(self).field_type,
    {
        self.optionality = Optionality::Required;
    }

    pub fn set_optional(&mut self)
        ensures
            final(self).optionality == Optionality::Optional,
            final(self).name == old(self).name,
            final(self).field_type == old(self).field_type,
    {
        self.optionality = Optionality::Optional;
    }

    pub fn has_setter(&self) -> (r: bool)
        ensures
            r == self.setter is Some,
    {
        self.setter.is_some()
    }

    pub fn has_getter(&self) -> (r: bool)
        ensures
            r == self.getter is Some,
    {
        self.getter.is_some()
    }

    pub fn field_type(&self) -> (r: &FieldType)
        requires
            self.field_type is Some,
        ensures
            *r == self.field_type->0,
    {
        self.field_type.as_ref().unwrap()
    }

    pub fn set_field_type(&mut self, field_type: FieldType)
        ensures
            final(self).field_type == Some(field_type),
            final(self).name == old(self).name,
            final(self).optionality == old(self).optionality,
    {
        self.field_type = Some(field_type);
    }
}

} // verus!
