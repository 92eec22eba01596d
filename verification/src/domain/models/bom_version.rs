//! One entry of the append-only version log.

use vstd::prelude::*;

use super::bom_change_event::BOMChangeEvent;
use super::bom_change_event::BOMChangeEventView;
use crate::fresh::fresh_id;
use crate::fresh::now_micros;

verus! {

/// One committed version transition of a BOM: the ordered batch of change
/// events that produced it. Entries are never mutated after creation, and a
/// BOM's entries are ordered by version ascending.
#[derive(Debug, PartialEq)]
pub struct BomVersion {
    pub id: u128,
    pub bom_id: u128,
    pub version: i32,
    pub changes: Box<Vec<BOMChangeEvent>>,
    pub created_at: i64,
}

/// The mathematical value of a [`BomVersion`].
#[verifier::ext_equal]
pub ghost struct BomVersionView {
    pub id: u128,
    pub bom_id: u128,
    pub version: i32,
    pub changes: Seq<BOMChangeEventView>,
    pub created_at: i64,
}

impl View for BomVersion {
    type V = BomVersionView;

    open spec fn view(&self) -> BomVersionView {
        BomVersionView {
            id: self.id,
            bom_id: self.bom_id,
            version: self.version,
            changes: self.changes.deep_view(),
            created_at: self.created_at,
        }
    }
}

impl Clone for BomVersion {
    fn clone(&self) -> (r: Self)
        ensures
            r@ == self@,
    {
        let r = BomVersion {
            id: self.id,
            bom_id: self.bom_id,
            version: self.version,
            changes: Box::new((*self.changes).clone()),
            created_at: self.created_at,
        };
        proof {
            assert(r.changes.deep_view() =~= self.changes.deep_view());
            assert(r@ =~= self@);
        }
        r
    }
}

impl DeepView for BomVersion {
    type V = BomVersionView;

    open spec fn deep_view(&self) -> BomVersionView {
        self.view()
    }
}

impl BomVersion {
    /// A fresh log entry for the given BOM: identity drawn anew, creation
    /// time read from the clock.
    pub fn new(bom_id: &u128, version: i32, changes: Box<Vec<BOMChangeEvent>>) -> (r: Self)
        ensures
            r.bom_id == *bom_id,
            r.version == version,
            r.changes == changes,
    {
        BomVersion {
            id: fresh_id(),
            bom_id: *bom_id,
            version,
            changes,
            created_at: now_micros(),
        }
    }
}

} // verus!
