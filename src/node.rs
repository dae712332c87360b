use vstd::prelude::*;

verus! {

/// What occupies one board coordinate. A coordinate holds exactly one of these.
///
/// The payload of `SnakeBody` and `SnakeHead` is the owning snake's position in
/// the snapshot's snake list, which resolves to the snake's full record.
#[derive(Clone, Copy, Debug, PartialEq, Eq, Structural)]
pub enum NodeType {
    Empty,
    Food,
    SnakeBody(usize),
    SnakeHead(usize),
    Hazard,
}

impl NodeType {
    /// The snake that occupies a cell of this kind, if any.
    pub open spec fn owner(self) -> Option<usize> {
        match self {
            NodeType::SnakeBody(k) => Some(k),
            NodeType::SnakeHead(k) => Some(k),
            _ => None,
        }
    }
}

/// One cell of the board: its coordinate and what occupies it.
#[derive(Clone, Copy, Debug, PartialEq, Eq, Structural)]
pub struct Node {
    pub x: u32,
    pub y: u32,
    pub node_type: NodeType,
}

impl Node {
    /// The node at `(x, y)` holding `node_type`.
    pub fn new(x: u32, y: u32, node_type: NodeType) -> (r: Self)
        ensures
            r == (Node { x, y, node_type }),
    {
        Node { x, y, node_type }
    }
}

} // verus!
