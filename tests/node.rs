use tmm_parser::{classify_node, CapacitanceSign, NodeError, NodeType};

fn sign_of(cp: f64) -> CapacitanceSign {
    if cp > 0.0 {
        CapacitanceSign::Positive
    } else if cp < 0.0 {
        CapacitanceSign::Negative
    } else {
        CapacitanceSign::Zero
    }
}

#[test]
fn node_classification_table() {
    assert_eq!(classify_node(10, sign_of(0.006)), Ok(NodeType::Diffusion));
    assert_eq!(classify_node(10, sign_of(-0.5)), Ok(NodeType::Arithmetic));
    assert_eq!(classify_node(-99, sign_of(0.0)), Ok(NodeType::Boundary));
    assert_eq!(classify_node(10, sign_of(0.0)), Err(NodeError::InvalidNode));
}

#[test]
fn invalid_node_pairs() {
    assert_eq!(classify_node(-5, CapacitanceSign::Positive), Err(NodeError::InvalidNode));
    assert_eq!(classify_node(-5, CapacitanceSign::Negative), Err(NodeError::InvalidNode));
    assert_eq!(classify_node(0, CapacitanceSign::Positive), Err(NodeError::InvalidNode));
    assert_eq!(classify_node(0, CapacitanceSign::Zero), Err(NodeError::InvalidNode));
}
