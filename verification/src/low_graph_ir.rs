//! A lower-level graph IR: nested struct connections are flattened into
//! plain lists of read paths and written paths, one entry per leaf field.

use vstd::prelude::*;

verus! {

/// Whether a flattened node computes or stores.
#[derive(Debug, Clone, Copy, PartialEq, Eq, Structural)]
pub enum LowGraphType {
    Computation,
    Storage,
}

/// A graph node with flattened connections: the dotted paths that are read
/// and those that are written; a path both read and written appears in both
/// lists.
#[derive(Debug, PartialEq, Eq)]
pub struct LowGraphNode {
    pub name: String,
    pub tpe: LowGraphType,
    pub inputs: Vec<String>,
    pub outputs: Vec<String>,
}

} // verus!
