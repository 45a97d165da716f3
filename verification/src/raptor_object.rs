//! Heap object scaffolding: the data model is prepared for heap-allocated
//! reference values, but the evaluator currently executes only 32-bit
//! integer values.

use vstd::prelude::*;

verus! {

/// The type a heap object carries.
#[derive(Debug)]
pub enum RaptorType {
    Null,
    Int,
    Bool,
    Float,
    UserType { id: u32 },
}

/// The shape of a heap object.
#[derive(Debug)]
pub enum RaptorKind {
    Vector,
    Object,
}

/// A heap object: a typed, shaped block of raw words.
#[derive(Debug)]
pub struct RaptorObject {
    pub r_type: RaptorType,
    pub r_kind: RaptorKind,
    pub data: Vec<u32>,
}

impl RaptorObject {
    /// A fresh, empty object of null type.
    pub fn new() -> (r: RaptorObject)
        ensures
            r.r_type is Null,
            r.r_kind is Object,
            r.data@.len() == 0,
    {
        RaptorObject { r_type: RaptorType::Null, r_kind: RaptorKind::Object, data: Vec::new() }
    }
}

} // verus!
