//! The request payload from which a BOM is first constructed.

use vstd::prelude::*;

use crate::domain::models::bom_change_event::BOMChangeEvent;

verus! {

/// The candidate event list for creating a BOM from scratch.
#[derive(Debug, PartialEq)]
pub struct NewBOM {
    pub events: Vec<BOMChangeEvent>,
}

impl NewBOM {
    pub fn new(events: Vec<BOMChangeEvent>) -> (r: Self)
        ensures
            r.events == events,
    {
        NewBOM { events }
    }
}

} // verus!
