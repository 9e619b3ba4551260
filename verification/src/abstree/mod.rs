//! The abstract syntax tree: its model, its node kinds, and the interface by
//! which a visitor walks it.

pub mod abs_decl;
pub mod abs_expr;
pub mod abs_position;
pub mod abs_stmt;
pub mod abs_type;
pub mod positioner;
pub mod tree;
pub mod visitor;

use crate::abstree::positioner::Positioner;
use crate::abstree::visitor::Visitor;
use vstd::prelude::*;

verus! {

/// A node of the tree: it has a span, and it accepts visitors.
pub trait AbsTree: Positioner {
    /// Hands the node to the method that the visitor has for its kind.
    fn accept<V: Visitor>(&self, visitor: &mut V);
}

} // verus!
