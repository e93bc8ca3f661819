//! A small IR for dataflow graphs whose nodes are computations or storage
//! and whose connections are possibly nested, directed fields. Pure data; it
//! accompanies the authorization logic when policies are derived from
//! dataflow manifests.

use vstd::prelude::*;

verus! {

/// Whether a field is read, written, or both.
#[derive(Debug, Clone, Copy, PartialEq, Eq, Structural)]
pub enum Direction {
    Input,
    Output,
    InOut,
}

/// A field's type: a primitive, or a struct of named fields.
#[derive(Debug, PartialEq, Eq)]
pub enum DataType {
    BaseType,
    StructType { fields: Vec<Field> },
}

/// A named, directed connection point of a node.
#[derive(Debug, PartialEq, Eq)]
pub struct Field {
    pub name: String,
    pub tpe: DataType,
    pub dir: Direction,
}

/// Whether a node computes or stores.
#[derive(Debug, Clone, Copy, PartialEq, Eq, Structural)]
pub enum NodeType {
    Computation,
    Storage,
}

/// A named graph node with its connections.
#[derive(Debug, PartialEq, Eq)]
pub struct GraphNode {
    pub name: String,
    pub connections: Vec<Field>,
    pub tpe: NodeType,
}

} // verus!
