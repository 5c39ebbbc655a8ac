//! Node classification: the kind of a node follows from the sign of its id
//! and the sign of its capacitance.

use vstd::prelude::*;

verus! {

/// The kind of a node.
/// * `Diffusion`: `id > 0` and `cp > 0`.
/// * `Arithmetic`: `id > 0` and `cp < 0`.
/// * `Boundary`: `id < 0` and `cp = 0`.
#[derive(Debug, Clone, Copy, PartialEq, Eq, Structural)]
pub enum NodeType {
    Diffusion,
    Arithmetic,
    Boundary,
}

/// The sign of a node's capacitance, which is all that its kind depends on.
#[derive(Debug, Clone, Copy, PartialEq, Eq, Structural)]
pub enum CapacitanceSign {
    Negative,
    Zero,
    Positive,
}

/// Why a node was rejected.
#[derive(Debug, Clone, Copy, PartialEq, Eq, Structural)]
pub enum NodeError {
    /// The id and the capacitance match none of the three kinds.
    InvalidNode,
}

/// The kind of a node with this id and capacitance sign, if any.
pub open spec fn node_kind(id: int, cp: CapacitanceSign) -> Option<NodeType> {
    if id > 0 && cp == CapacitanceSign::Positive {
        Some(NodeType::Diffusion)
    } else if id > 0 && cp == CapacitanceSign::Negative {
        Some(NodeType::Arithmetic)
    } else if id < 0 && cp == CapacitanceSign::Zero {
        Some(NodeType::Boundary)
    } else {
        None
    }
}

/// Classifies a node by the signs of its id and of its capacitance; a pair
/// that matches none of the three kinds is an invalid node.
pub fn classify_node(id: i32, cp: CapacitanceSign) -> (r: Result<NodeType, NodeError>)
    ensures
        r == match node_kind(id as int, cp) {
            Some(t) => Ok::<NodeType, NodeError>(t),
            None => Err(NodeError::InvalidNode),
        },
{
    match cp {
        CapacitanceSign::Positive if id > 0 => Ok(NodeType::Diffusion),
        CapacitanceSign::Negative if id > 0 => Ok(NodeType::Arithmetic),
        CapacitanceSign::Zero if id < 0 => Ok(NodeType::Boundary),
        _ => Err(NodeError::InvalidNode),
    }
}

} // verus!
