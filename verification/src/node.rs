//! The three kinds of node, the payloads of meta nodes, the error types, and
//! their mathematical views.

use vstd::prelude::*;
use vstd::string::*;
use vstd::std_specs::cmp::PartialEqSpecImpl;
use crate::value::{
    Expr, ExprView, Integer, NodeId, Value, ValueKind, ValueView, copy_exprs, copy_opt_expr,
    copy_opt_value, copy_plain, copy_value, exprs_view, opt_expr_view, opt_value_view, same_value,
};

verus! {

/// A node with a single value
#[derive(Debug)]
pub struct Leaf {
    /// The ID of this node, for reference by other nodes
    pub id: NodeId,
    /// The type of value accessible by referring to the node
    pub value_kind: ValueKind,
    /// `Some` if the leaf contains a static value or a dynamic expression
    pub value: Option<Expr>,
    /// Cached output
    pub cached: Option<Value>,
    /// Whether the cache is valid
    pub cache_valid: bool,
    /// A deferred leaf is not evaluated until it is used by an action
    pub deferred: bool,
    /// The direct parent of this node, if any
    pub parent: Option<NodeId>,
    /// Metadata attached to this node
    pub metadata: Vec<NodeId>,
    /// Nodes this node refers to
    pub dependencies: Vec<NodeId>,
    /// Nodes that refer to this node
    pub dependents: Vec<NodeId>,
}

/// A node that can contain other nodes
#[derive(Debug)]
pub struct Group {
    /// The ID of this node, for reference by other nodes
    pub id: NodeId,
    /// Any children contained within this node
    pub children: Vec<NodeId>,
    /// The direct parent of this node, if any
    pub parent: Option<NodeId>,
    /// Metadata attached to this node
    pub metadata: Vec<NodeId>,
    /// Common meta node, only one can be attached per group
    pub common: Option<NodeId>,
}

/// A node that decorates its parent with derived or structural behaviour
#[derive(Debug)]
pub struct Meta {
    pub id: NodeId,
    pub parent: NodeId,
    pub data: Metadata,
    pub cached: Option<Value>,
    pub cache_valid: bool,
}

/// A bound on the integer value of a leaf. It is recorded, never enforced.
#[derive(Clone, Copy, Debug, PartialEq, Eq, Structural)]
pub enum Constraint {
    GreaterThan(Integer),
    GreaterOrEqual(Integer),
    LessThan(Integer),
    LessOrEqual(Integer),
    Equal(Integer),
}

/// The kind of meta node to create, with its payload still empty
#[derive(Clone, Copy, Debug, PartialEq, Eq, Structural)]
pub enum MetadataStart {
    Common,
    Sum,
    Ident,
    Concat,
    Constraint(Constraint),
}

/// The payload of a meta node
#[derive(Debug)]
pub enum Metadata {
    /// Owns an inner group that path resolution descends into
    Common { inner: NodeId },
    /// A list of integers, which add up to the node's value
    Sum(Vec<Integer>),
    /// The name of the nearest ancestor that a user named
    Ident,
    /// Expressions whose string values are joined in order
    Concat(Vec<Expr>),
    /// A bound on the value of the direct parent
    Constraint(Constraint),
}

/// A generic node
#[derive(Debug)]
pub enum Node {
    /// A node with a single value
    Leaf(Leaf),
    /// A node that may contain subnodes
    Group(Group),
    /// A node that fulfills a special purpose
    Meta(Meta),
}

#[derive(Clone, Copy, Debug, PartialEq, Eq, Structural)]
pub enum AddNodeError {
    ParentNotExists,
    ParentIsLeaf,
    InvalidParent,
    NameConflict,
    InvalidName,
}

#[derive(Clone, Copy, Debug, PartialEq, Eq, Structural)]
pub enum EditLeafError {
    NotExists,
    NotLeaf,
}

#[derive(Clone, Copy, Debug, PartialEq, Eq, Structural)]
pub enum EditMetaError {
    WrongKind,
}

#[derive(Debug, Eq)]
pub enum EvalError {
    NotALeaf(NodeId),
    InfiniteRecursion(NodeId),
    MissingInfo(NodeId),
    MissingDependency(NodeId),
    MissingPathDependency(String),
    InvalidIdentRef(NodeId),
    InvalidType,
    MetaType(NodeId),
    MissingParent(NodeId),
}

#[derive(Debug, Eq)]
pub enum EvalMetaStatus {
    Success(Value),
    Ident,
    WrongType,
    InvalidConcatElement,
    InternalEvalError(EvalError),
}

pub struct LeafView {
    pub id: NodeId,
    pub value_kind: ValueKind,
    pub value: Option<ExprView>,
    pub cached: Option<ValueView>,
    pub cache_valid: bool,
    pub deferred: bool,
    pub parent: Option<NodeId>,
    pub metadata: Seq<NodeId>,
    pub dependencies: Seq<NodeId>,
    pub dependents: Seq<NodeId>,
}

pub struct GroupView {
    pub id: NodeId,
    pub children: Seq<NodeId>,
    pub parent: Option<NodeId>,
    pub metadata: Seq<NodeId>,
    pub common: Option<NodeId>,
}

pub enum MetadataView {
    Common { inner: NodeId },
    Sum(Seq<Integer>),
    Ident,
    Concat(Seq<ExprView>),
    Constraint(Constraint),
}

pub struct MetaView {
    pub id: NodeId,
    pub parent: NodeId,
    pub data: MetadataView,
    pub cached: Option<ValueView>,
    pub cache_valid: bool,
}

pub enum NodeView {
    Leaf(LeafView),
    Group(GroupView),
    Meta(MetaView),
}

pub enum EvalErrorView {
    NotALeaf(NodeId),
    InfiniteRecursion(NodeId),
    MissingInfo(NodeId),
    MissingDependency(NodeId),
    MissingPathDependency(Seq<char>),
    InvalidIdentRef(NodeId),
    InvalidType,
    MetaType(NodeId),
    MissingParent(NodeId),
}

pub enum EvalMetaStatusView {
    Success(ValueView),
    Ident,
    WrongType,
    InvalidConcatElement,
    InternalEvalError(EvalErrorView),
}

impl View for Leaf {
    type V = LeafView;

    open spec fn view(&self) -> LeafView {
        LeafView {
            id: self.id,
            value_kind: self.value_kind,
            value: opt_expr_view(self.value),
            cached: opt_value_view(self.cached),
            cache_valid: self.cache_valid,
            deferred: self.deferred,
            parent: self.parent,
            metadata: self.metadata@,
            dependencies: self.dependencies@,
            dependents: self.dependents@,
        }
    }
}

impl View for Group {
    type V = GroupView;

    open spec fn view(&self) -> GroupView {
        GroupView {
            id: self.id,
            children: self.children@,
            parent: self.parent,
            metadata: self.metadata@,
            common: self.common,
        }
    }
}

impl View for Metadata {
    type V = MetadataView;

    open spec fn view(&self) -> MetadataView {
        match self {
            Metadata::Common { inner } => MetadataView::Common { inner: *inner },
            Metadata::Sum(elements) => MetadataView::Sum(elements@),
            Metadata::Ident => MetadataView::Ident,
            Metadata::Concat(elements) => MetadataView::Concat(exprs_view(elements@)),
            Metadata::Constraint(constraint) => MetadataView::Constraint(*constraint),
        }
    }
}

impl View for Meta {
    type V = MetaView;

    open spec fn view(&self) -> MetaView {
        MetaView {
            id: self.id,
            parent: self.parent,
            data: self.data@,
            cached: opt_value_view(self.cached),
            cache_valid: self.cache_valid,
        }
    }
}

impl View for Node {
    type V = NodeView;

    open spec fn view(&self) -> NodeView {
        match self {
            Node::Leaf(leaf) => NodeView::Leaf(leaf@),
            Node::Group(group) => NodeView::Group(group@),
            Node::Meta(meta) => NodeView::Meta(meta@),
        }
    }
}

impl View for EvalError {
    type V = EvalErrorView;

    open spec fn view(&self) -> EvalErrorView {
        match self {
            EvalError::NotALeaf(id) => EvalErrorView::NotALeaf(*id),
            EvalError::InfiniteRecursion(id) => EvalErrorView::InfiniteRecursion(*id),
            EvalError::MissingInfo(id) => EvalErrorView::MissingInfo(*id),
            EvalError::MissingDependency(id) => EvalErrorView::MissingDependency(*id),
            EvalError::MissingPathDependency(path) => EvalErrorView::MissingPathDependency(path@),
            EvalError::InvalidIdentRef(id) => EvalErrorView::InvalidIdentRef(*id),
            EvalError::InvalidType => EvalErrorView::InvalidType,
            EvalError::MetaType(id) => EvalErrorView::MetaType(*id),
            EvalError::MissingParent(id) => EvalErrorView::MissingParent(*id),
        }
    }
}

impl View for EvalMetaStatus {
    type V = EvalMetaStatusView;

    open spec fn view(&self) -> EvalMetaStatusView {
        match self {
            EvalMetaStatus::Success(value) => EvalMetaStatusView::Success(value@),
            EvalMetaStatus::Ident => EvalMetaStatusView::Ident,
            EvalMetaStatus::WrongType => EvalMetaStatusView::WrongType,
            EvalMetaStatus::InvalidConcatElement => EvalMetaStatusView::InvalidConcatElement,
            EvalMetaStatus::InternalEvalError(err) => EvalMetaStatusView::InternalEvalError(err@),
        }
    }
}

impl Clone for Leaf {
    fn clone(&self) -> (r: Self)
        ensures
            r@ == self@,
    {
        Leaf {
            id: self.id,
            value_kind: self.value_kind,
            value: copy_opt_expr(&self.value),
            cached: copy_opt_value(&self.cached),
            cache_valid: self.cache_valid,
            deferred: self.deferred,
            parent: self.parent,
            metadata: copy_plain(&self.metadata),
            dependencies: copy_plain(&self.dependencies),
            dependents: copy_plain(&self.dependents),
        }
    }
}

impl Clone for Group {
    fn clone(&self) -> (r: Self)
        ensures
            r@ == self@,
    {
        Group {
            id: self.id,
            children: copy_plain(&self.children),
            parent: self.parent,
            metadata: copy_plain(&self.metadata),
            common: self.common,
        }
    }
}

impl Clone for Metadata {
    fn clone(&self) -> (r: Self)
        ensures
            r@ == self@,
    {
        match self {
            Metadata::Common { inner } => Metadata::Common { inner: *inner },
            Metadata::Sum(elements) => Metadata::Sum(copy_plain(elements)),
            Metadata::Ident => Metadata::Ident,
            Metadata::Concat(elements) => Metadata::Concat(copy_exprs(elements)),
            Metadata::Constraint(constraint) => Metadata::Constraint(*constraint),
        }
    }
}

impl Clone for Meta {
    fn clone(&self) -> (r: Self)
        ensures
            r@ == self@,
    {
        Meta {
            id: self.id,
            parent: self.parent,
            data: self.data.clone(),
            cached: copy_opt_value(&self.cached),
            cache_valid: self.cache_valid,
        }
    }
}

impl Clone for Node {
    fn clone(&self) -> (r: Self)
        ensures
            r@ == self@,
    {
        match self {
            Node::Leaf(leaf) => Node::Leaf(leaf.clone()),
            Node::Group(group) => Node::Group(group.clone()),
            Node::Meta(meta) => Node::Meta(meta.clone()),
        }
    }
}

impl Clone for EvalError {
    fn clone(&self) -> (r: Self)
        ensures
            r@ == self@,
    {
        match self {
            EvalError::NotALeaf(id) => EvalError::NotALeaf(*id),
            EvalError::InfiniteRecursion(id) => EvalError::InfiniteRecursion(*id),
            EvalError::MissingInfo(id) => EvalError::MissingInfo(*id),
            EvalError::MissingDependency(id) => EvalError::MissingDependency(*id),
            EvalError::MissingPathDependency(path) => EvalError::MissingPathDependency(
                path.clone(),
            ),
            EvalError::InvalidIdentRef(id) => EvalError::InvalidIdentRef(*id),
            EvalError::InvalidType => EvalError::InvalidType,
            EvalError::MetaType(id) => EvalError::MetaType(*id),
            EvalError::MissingParent(id) => EvalError::MissingParent(*id),
        }
    }
}

impl Clone for EvalMetaStatus {
    fn clone(&self) -> (r: Self)
        ensures
            r@ == self@,
    {
        match self {
            EvalMetaStatus::Success(value) => EvalMetaStatus::Success(copy_value(value)),
            EvalMetaStatus::Ident => EvalMetaStatus::Ident,
            EvalMetaStatus::WrongType => EvalMetaStatus::WrongType,
            EvalMetaStatus::InvalidConcatElement => EvalMetaStatus::InvalidConcatElement,
            EvalMetaStatus::InternalEvalError(err) => EvalMetaStatus::InternalEvalError(
                err.clone(),
            ),
        }
    }
}

impl PartialEq for EvalError {
    fn eq(&self, other: &Self) -> (r: bool) {
        match (self, other) {
            (EvalError::NotALeaf(a), EvalError::NotALeaf(b)) => *a == *b,
            (EvalError::InfiniteRecursion(a), EvalError::InfiniteRecursion(b)) => *a == *b,
            (EvalError::MissingInfo(a), EvalError::MissingInfo(b)) => *a == *b,
            (EvalError::MissingDependency(a), EvalError::MissingDependency(b)) => *a == *b,
            (EvalError::MissingPathDependency(a), EvalError::MissingPathDependency(b)) => *a
                == *b,
            (EvalError::InvalidIdentRef(a), EvalError::InvalidIdentRef(b)) => *a == *b,
            (EvalError::InvalidType, EvalError::InvalidType) => true,
            (EvalError::MetaType(a), EvalError::MetaType(b)) => *a == *b,
            (EvalError::MissingParent(a), EvalError::MissingParent(b)) => *a == *b,
            _ => false,
        }
    }
}

impl PartialEqSpecImpl for EvalError {
    open spec fn obeys_eq_spec() -> bool {
        true
    }

    open spec fn eq_spec(&self, other: &Self) -> bool {
        self@ == other@
    }
}

impl PartialEq for EvalMetaStatus {
    fn eq(&self, other: &Self) -> (r: bool) {
        match (self, other) {
            (EvalMetaStatus::Success(a), EvalMetaStatus::Success(b)) => same_value(a, b),
            (EvalMetaStatus::Ident, EvalMetaStatus::Ident) => true,
            (EvalMetaStatus::WrongType, EvalMetaStatus::WrongType) => true,
            (EvalMetaStatus::InvalidConcatElement, EvalMetaStatus::InvalidConcatElement) => true,
            (EvalMetaStatus::InternalEvalError(a), EvalMetaStatus::InternalEvalError(b)) => *a
                == *b,
            _ => false,
        }
    }
}

impl PartialEqSpecImpl for EvalMetaStatus {
    open spec fn obeys_eq_spec() -> bool {
        true
    }

    open spec fn eq_spec(&self, other: &Self) -> bool {
        self@ == other@
    }
}

} // verus!
