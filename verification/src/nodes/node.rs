//! A piece of syntax with its place in the source.
use crate::position::Position;
use vstd::prelude::*;

verus! {

/// A piece of syntax together with the range of source text that it covers.
#[derive(Debug, PartialEq, Eq)]
pub struct Node<N> {
    pub position: Position,
    pub node: N,
}

/// The mathematical value of a [`Node`].
pub ghost struct NodeView<V> {
    pub position: Position,
    pub node: V,
}

impl<N: DeepView> DeepView for Node<N> {
    type V = NodeView<N::V>;

    open spec fn deep_view(&self) -> NodeView<N::V> {
        NodeView { position: self.position, node: self.node.deep_view() }
    }
}

impl<N> Node<N> {
    /// Wraps `node` with the range `position`.
    pub fn new(position: Position, node: N) -> (n: Node<N>)
        ensures
            n.position == position,
            n.node == node,
    {
        Node { position, node }
    }
}

} // verus!
