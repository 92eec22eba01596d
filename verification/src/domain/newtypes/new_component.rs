//! The request payload from which a catalog component is created.

use vstd::prelude::*;

use crate::domain::models::component::Price;

verus! {

/// A component as submitted by a caller, before an identifier is assigned.
#[derive(Debug, PartialEq)]
pub struct NewComponent {
    pub name: String,
    pub part_number: String,
    pub description: Option<String>,
    pub supplier: String,
    pub price: Price,
}

impl NewComponent {
    pub fn new(
        name: String,
        part_number: String,
        description: Option<String>,
        supplier: String,
        price: Price,
    ) -> (r: Self)
        ensures
            r == (NewComponent { name, part_number, description, supplier, price }),
    {
        NewComponent { name, part_number, description, supplier, price }
    }
}

} // verus!
