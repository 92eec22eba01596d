//! Query parameters of the BOM routes.

use vstd::prelude::*;

verus! {

/// The two version boundaries a diff is requested for.
#[derive(Debug, PartialEq)]
pub struct VersionRange {
    pub from: i32,
    pub to: i32,
}

/// The version a historical read is requested for.
#[derive(Debug, PartialEq)]
pub struct VersionQuery {
    pub version: i32,
}

} // verus!
