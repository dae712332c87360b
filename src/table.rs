use vstd::prelude::*;
use index_vec::{Idx, IndexVec};
use crate::node::Node;

verus! {

/// Index of a row or of a column of the board; as wide as `usize`, so every
/// length that a `Vec` can have is a valid index bound.
#[derive(Clone, Copy, Debug, PartialEq, Eq, PartialOrd, Ord, Hash)]
pub struct NodeIdx {
    pub raw: usize,
}

impl Idx for NodeIdx {
    fn from_usize(idx: usize) -> Self {
        NodeIdx { raw: idx }
    }

    fn index(self) -> usize {
        self.raw
    }
}

/// Row-major table of nodes, `nodes[y][x]`, kept in `IndexVec`s.
#[verifier::external_body]
pub struct NodeTable {
    nodes: IndexVec<NodeIdx, IndexVec<NodeIdx, Node>>,
}

/// The rows of a table, each row the nodes of one `y`, by increasing `x`.
pub uninterp spec fn table_nodes(t: NodeTable) -> Seq<Seq<Node>>;

impl NodeTable {
    /// Relies on `IndexVec::from_vec`: the result holds the vector's items in order
    /// (it panics only where `NodeIdx::from_usize` would, which it never does).
    #[verifier::external_body]
    pub(crate) fn from_rows(rows: Vec<Vec<Node>>) -> (t: NodeTable)
        ensures
            table_nodes(t) == rows@.map_values(|r: Vec<Node>| r@),
    {
        NodeTable { nodes: IndexVec::from_vec(rows.into_iter().map(IndexVec::from_vec).collect()) }
    }

    /// Relies on indexing an `IndexVec` (through `IndexSlice`): it reads the item
    /// at that position.
    #[verifier::external_body]
    pub(crate) fn get_node(&self, x: usize, y: usize) -> (r: &Node)
        requires
            y < table_nodes(*self).len(),
            x < table_nodes(*self)[y as int].len(),
        ensures
            *r == table_nodes(*self)[y as int][x as int],
    {
        &self.nodes[NodeIdx { raw: y }][NodeIdx { raw: x }]
    }

    /// Relies on mutable indexing of an `IndexVec` (through `IndexSlice`): it hands
    /// out the item at that position, and only that item changes.
    #[verifier::external_body]
    pub(crate) fn get_node_mut(&mut self, x: usize, y: usize) -> (r: &mut Node)
        requires
            y < table_nodes(*old(self)).len(),
            x < table_nodes(*old(self))[y as int].len(),
        ensures
            *r == table_nodes(*old(self))[y as int][x as int],
            table_nodes(*final(self)) == table_nodes(*old(self)).update(
                y as int,
                table_nodes(*old(self))[y as int].update(x as int, *final(r)),
            ),
    {
        &mut self.nodes[NodeIdx { raw: y }][NodeIdx { raw: x }]
    }
}

} // verus!
