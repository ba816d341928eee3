//! Relations between models, as the resolved schema exposes them.
use vstd::prelude::*;
use crate::schema::Optionality;

verus! {

/// A link from one model to another through matching columns.
#[derive(Debug, Clone)]
pub struct Relation {
    pub name: String,
    pub localized_name: String,
    pub description: String,
    pub optionality: Optionality,
    /// The name of the model on the other side.
    pub model: String,
    /// The name of the join model, for a many-to-many relation.
    pub through: Option<String>,
    pub is_vec: bool,
    pub fields: Vec<String>,
    pub references: Vec<String>,
}

impl Relation {
    pub fn name(&self) -> (r: &str)
        ensures
            r@ == self.name@,
    {
        self.name.as_str()
    }

    pub fn localized_name(&self) -> (r: &str)
        ensures
            r@ == self.localized_name@,
    {
        self.localized_name.as_str()
    }

    pub fn description(&self) -> (r: &str)
        ensures
            r@ == self.description@,
    {
        self.description.as_str()
    }
}

} // verus!
