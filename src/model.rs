use vstd::prelude::*;

verus! {

/// An academic unit of the catalog; its id is assigned upstream.
#[derive(Clone, Debug, PartialEq, Eq)]
pub struct Unit {
    pub id: i32,
    pub name: String,
}

/// A course of the catalog, keyed by its code; it belongs to one unit.
#[derive(Clone, Debug, PartialEq, Eq)]
pub struct Course {
    pub code: String,
    pub name: String,
    pub unit_id: i32,
}

/// A discovered evaluation report id and the course it was found under.
#[derive(Clone, Debug, PartialEq, Eq)]
pub struct SectionId {
    pub sid: i32,
    pub course_code: String,
}

} // verus!
