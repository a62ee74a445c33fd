//! A hierarchical template: a tree of named entries in which some entries hold
//! plain scalar values and others hold formulas that refer to other entries,
//! by identity or by dotted name-path.
//!
//! The [`Template`] owns every node. A node is a [`Leaf`], a [`Group`] or a
//! [`Meta`] node, and its identity is the order in which it was created; the
//! root group is node 0. Groups and leaves are created through the template
//! or through a handle, found again by path, given values or expressions, and
//! evaluated on demand.
//!
//! What the template is, mathematically, is a sequence of named nodes
//! ([`model::Store`]). Path resolution ([`model::resolve`]) and evaluation
//! ([`semantics::eval_node`]) are functions of that sequence, and every
//! operation says what it returns and how it changes the store in their terms.
//!
//! Some choices that the contracts fix:
//!
//! - Integer arithmetic wraps around in two's complement. A quotient is
//!   rounded toward zero. Division by zero has no value and is reported as
//!   [`EvalError::InvalidType`], and so is [`OpKind::Neg`], which is reserved.
//!   [`OpKind::Pow`] multiplies.
//! - An evaluation remembers the nodes it is in the middle of, and a node that
//!   comes up again fails with [`EvalError::InfiniteRecursion`].
//! - A successful evaluation caches the value of every node it computed. A
//!   failed one changes nothing.
//! - Giving a leaf a new value or expression does not invalidate its cache: a
//!   leaf that was evaluated keeps answering with the cached value.
//! - A failed creation changes nothing, and uses up no identity.

pub mod eval;
pub mod handle;
pub mod laws;
pub mod model;
pub mod node;
pub mod semantics;
pub mod shape;
pub mod template;
pub mod text;
pub mod tree;
pub mod value;

pub use handle::{GroupHandle, LeafHandle, MetaHandle, NodeHandle};
pub use node::{
    AddNodeError, Constraint, EditLeafError, EditMetaError, EvalError, EvalMetaStatus, Group, Leaf,
    Meta, Metadata, MetadataStart, Node,
};
pub use template::Template;
pub use tree::{Handle, NodeTree};
pub use value::{Expr, InfixOp, Integer, NodeId, OpKind, Value, ValueKind};
