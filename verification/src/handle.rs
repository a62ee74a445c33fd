//! Cursors: an identity together with the template that the node lives in.

use vstd::prelude::*;
use crate::model::{
    Store, add_child_error, common_inner, edit_error, is_group, is_leaf, is_meta, resolve,
    takes_payload, with_expr, with_group, with_leaf, with_payload,
};
use crate::node::{
    AddNodeError, EditLeafError, EditMetaError, EvalError, Group, Leaf, Metadata, Node, NodeView,
};
use crate::semantics::{eval_node, with_writes};
use crate::shape::well_formed;
use crate::template::Template;
use crate::value::{Expr, ExprView, NodeId, Value};

verus! {

/// A handle to a leaf node
#[derive(Debug)]
pub struct LeafHandle<'a> {
    pub id: NodeId,
    pub template: &'a mut Template,
}

/// A handle to a group node
#[derive(Debug)]
pub struct GroupHandle<'a> {
    pub id: NodeId,
    pub template: &'a mut Template,
}

/// A handle to a meta node
#[derive(Debug)]
pub struct MetaHandle<'a> {
    pub id: NodeId,
    pub template: &'a mut Template,
}

/// A handle to a node of any kind
#[derive(Debug)]
pub enum NodeHandle<'a> {
    Leaf(LeafHandle<'a>),
    Group(GroupHandle<'a>),
    Meta(MetaHandle<'a>),
}

impl<'a> LeafHandle<'a> {
    /// The store of the template that the handle points into.
    pub open spec fn store(&self) -> Store {
        self.template@
    }

    /// Gives the leaf a constant value. Its cache is not touched.
    pub fn set_value(&mut self, value: Value) -> (r: Result<&mut Self, EditLeafError>)
        ensures
            match r {
                Ok(handle) => {
                    &&& edit_error(old(self).store(), old(self).id) is None
                    &&& handle.id == old(self).id
                    &&& handle.store() == with_expr(
                        old(self).store(),
                        old(self).id,
                        ExprView::Literal(value@),
                    )
                    &&& well_formed(old(self).store()) ==> well_formed(handle.store())
                    &&& *final(self) == *final(handle)
                },
                Err(e) => {
                    &&& edit_error(old(self).store(), old(self).id) == Some(e)
                    &&& final(self).id == old(self).id
                    &&& final(self).store() == old(self).store()
                    &&& *final(final(self).template) == *final(old(self).template)
                },
            },
    {
        match self.template.set_leaf_value(self.id, value) {
            Ok(_) => Ok(self),
            Err(e) => Err(e),
        }
    }

    /// Gives the leaf an expression. Its cache is not touched.
    pub fn set_expr(&mut self, expr: Expr) -> (r: Result<&mut Self, EditLeafError>)
        ensures
            match r {
                Ok(handle) => {
                    &&& edit_error(old(self).store(), old(self).id) is None
                    &&& handle.id == old(self).id
                    &&& handle.store() == with_expr(
                        old(self).store(),
                        old(self).id,
                        expr@,
                    )
                    &&& well_formed(old(self).store()) ==> well_formed(handle.store())
                    &&& *final(self) == *final(handle)
                },
                Err(e) => {
                    &&& edit_error(old(self).store(), old(self).id) == Some(e)
                    &&& final(self).id == old(self).id
                    &&& final(self).store() == old(self).store()
                    &&& *final(final(self).template) == *final(old(self).template)
                },
            },
    {
        match self.template.set_leaf_expr(self.id, expr) {
            Ok(_) => Ok(self),
            Err(e) => Err(e),
        }
    }

    /// The expression of the leaf, if it has one.
    pub fn get_value(&self) -> (r: Option<&Expr>)
        ensures
            match r {
                Some(expr) => is_leaf(self.store(), self.id) && self.store()[self.id as int].0
                    ->Leaf_0.value == Some(expr@),
                None => !is_leaf(self.store(), self.id) || self.store()[self.id as int].0
                    ->Leaf_0.value is None,
            },
    {
        match self.template.get_leaf_by_id(self.id) {
            Some(leaf) => leaf.value.as_ref(),
            None => None,
        }
    }

    /// Evaluates the leaf; see [`Template::eval_leaf`].
    pub fn eval(&mut self) -> (r: Result<Value, EvalError>)
        ensures
            final(self).id == old(self).id,
            *final(final(self).template) == *final(old(self).template),
            well_formed(old(self).store()) ==> well_formed(final(self).store()),
            match eval_node(old(self).store(), old(self).id, Set::empty()) {
                Ok(done) => {
                    &&& r matches Ok(value) && value@ == done.value
                    &&& final(self).store() == with_writes(old(self).store(), done.writes)
                },
                Err(e) => {
                    &&& r matches Err(err) && err@ == e
                    &&& final(self).store() == old(self).store()
                },
            },
    {
        self.template.eval_leaf(self.id)
    }
}

impl<'a> GroupHandle<'a> {
    /// The store of the template that the handle points into.
    pub open spec fn store(&self) -> Store {
        self.template@
    }
}

/// The node that `path` leads to from the inner group of the common meta node
/// `meta`. From any other node it leads nowhere.
pub open spec fn resolve_inside(s: Store, meta: NodeId, path: Seq<char>) -> Option<NodeId> {
    match common_inner(s, meta) {
        Some(inner) => resolve(s, path, inner),
        None => None,
    }
}

/// Why a leaf or a group called `name` cannot be created in the inner group
/// of `meta`, if it cannot: `meta` must be a common meta node.
pub open spec fn add_inside_error(s: Store, meta: NodeId, name: Seq<char>) -> Option<
    AddNodeError,
> {
    match common_inner(s, meta) {
        Some(inner) => add_child_error(s, name, inner),
        None => Some(AddNodeError::InvalidParent),
    }
}

impl<'a> MetaHandle<'a> {
    /// The store of the template that the handle points into.
    pub open spec fn store(&self) -> Store {
        self.template@
    }

    /// The inner group, where this is a common meta node.
    pub fn check_common(&self) -> (r: Option<NodeId>)
        ensures
            r == common_inner(self.store(), self.id),
    {
        self.template.inner_of(self.id)
    }

    /// A handle to the node that `path` leads to from the inner group.
    pub fn get_handle(&mut self, path: &str) -> (r: Option<NodeHandle<'_>>)
        ensures
            final(self).id == old(self).id,
            *final(final(self).template) == *final(old(self).template),
            match r {
                Some(NodeHandle::Leaf(handle)) => {
                    &&& resolve_inside(old(self).store(), old(self).id, path@) == Some(handle.id)
                    &&& is_leaf(old(self).store(), handle.id)
                    &&& handle.store() == old(self).store()
                    &&& *final(self).template == *final(handle.template)
                },
                Some(NodeHandle::Group(handle)) => {
                    &&& resolve_inside(old(self).store(), old(self).id, path@) == Some(handle.id)
                    &&& is_group(old(self).store(), handle.id)
                    &&& handle.store() == old(self).store()
                    &&& *final(self).template == *final(handle.template)
                },
                Some(NodeHandle::Meta(handle)) => {
                    &&& resolve_inside(old(self).store(), old(self).id, path@) == Some(handle.id)
                    &&& is_meta(old(self).store(), handle.id)
                    &&& handle.store() == old(self).store()
                    &&& *final(self).template == *final(handle.template)
                },
                None => {
                    &&& resolve_inside(old(self).store(), old(self).id, path@) is None
                    &&& final(self).store() == old(self).store()
                },
            },
    {
        let inner = match self.check_common() {
            Some(inner) => inner,
            None => {
                return None;
            },
        };
        let id = match self.template.get_node_from(path, inner) {
            Some(id) => id,
            None => {
                return None;
            },
        };
        if self.template.is_leaf_id(id) {
            Some(NodeHandle::Leaf(LeafHandle { id, template: &mut *self.template }))
        } else if self.template.is_group_id(id) {
            Some(NodeHandle::Group(GroupHandle { id, template: &mut *self.template }))
        } else {
            Some(NodeHandle::Meta(MetaHandle { id, template: &mut *self.template }))
        }
    }

    /// A handle to the leaf that `path` leads to from the inner group.
    pub fn get_leaf_handle(&mut self, path: &str) -> (r: Option<LeafHandle<'_>>)
        ensures
            final(self).id == old(self).id,
            *final(final(self).template) == *final(old(self).template),
            match r {
                Some(handle) => {
                    &&& resolve_inside(old(self).store(), old(self).id, path@) == Some(handle.id)
                    &&& is_leaf(old(self).store(), handle.id)
                    &&& handle.store() == old(self).store()
                    &&& *final(self).template == *final(handle.template)
                },
                None => {
                    &&& resolve_inside(old(self).store(), old(self).id, path@) matches Some(id)
                        ==> !is_leaf(old(self).store(), id)
                    &&& final(self).store() == old(self).store()
                },
            },
    {
        match self.get_handle(path) {
            Some(NodeHandle::Leaf(leaf)) => Some(leaf),
            _ => None,
        }
    }

    /// A handle to the group that `path` leads to from the inner group.
    pub fn get_group_handle(&mut self, path: &str) -> (r: Option<GroupHandle<'_>>)
        ensures
            final(self).id == old(self).id,
            *final(final(self).template) == *final(old(self).template),
            match r {
                Some(handle) => {
                    &&& resolve_inside(old(self).store(), old(self).id, path@) == Some(handle.id)
                    &&& is_group(old(self).store(), handle.id)
                    &&& handle.store() == old(self).store()
                    &&& *final(self).template == *final(handle.template)
                },
                None => {
                    &&& resolve_inside(old(self).store(), old(self).id, path@) matches Some(id)
                        ==> !is_group(old(self).store(), id)
                    &&& final(self).store() == old(self).store()
                },
            },
    {
        match self.get_handle(path) {
            Some(NodeHandle::Group(group)) => Some(group),
            _ => None,
        }
    }

    /// The node that `path` leads to from the inner group.
    pub fn get_node(&self, path: &str) -> (r: Option<&Node>)
        ensures
            match r {
                Some(node) => resolve_inside(self.store(), self.id, path@) matches Some(id)
                    && self.store()[id as int].0 == node@,
                None => resolve_inside(self.store(), self.id, path@) is None,
            },
    {
        match self.check_common() {
            Some(inner) => match self.template.get_node_from(path, inner) {
                Some(id) => self.template.get_node_by_id(id),
                None => None,
            },
            None => None,
        }
    }

    /// The leaf that `path` leads to from the inner group.
    pub fn get_leaf(&self, path: &str) -> (r: Option<&Leaf>)
        ensures
            match r {
                Some(leaf) => resolve_inside(self.store(), self.id, path@) matches Some(id)
                    && self.store()[id as int].0 == NodeView::Leaf(leaf@),
                None => resolve_inside(self.store(), self.id, path@) matches Some(id)
                    ==> !is_leaf(self.store(), id),
            },
    {
        match self.get_node(path) {
            Some(Node::Leaf(leaf)) => Some(leaf),
            _ => None,
        }
    }

    /// The group that `path` leads to from the inner group.
    pub fn get_group(&self, path: &str) -> (r: Option<&Group>)
        ensures
            match r {
                Some(group) => resolve_inside(self.store(), self.id, path@) matches Some(id)
                    && self.store()[id as int].0 == NodeView::Group(group@),
                None => resolve_inside(self.store(), self.id, path@) matches Some(id)
                    ==> !is_group(self.store(), id),
            },
    {
        match self.get_node(path) {
            Some(Node::Group(group)) => Some(group),
            _ => None,
        }
    }

    /// Creates a leaf in the inner group, where this is a common meta node.
    pub fn add_leaf(&mut self, name: &str, deferred: bool) -> (r: Result<
        LeafHandle<'_>,
        AddNodeError,
    >)
        ensures
            final(self).id == old(self).id,
            *final(final(self).template) == *final(old(self).template),
            match r {
                Ok(handle) => {
                    &&& add_inside_error(old(self).store(), old(self).id, name@) is None
                    &&& handle.id == old(self).store().len()
                    &&& handle.store() == with_leaf(
                        old(self).store(),
                        name@,
                        common_inner(old(self).store(), old(self).id)->Some_0,
                        deferred,
                    )
                    &&& well_formed(old(self).store()) ==> well_formed(handle.store())
                    &&& *final(self).template == *final(handle.template)
                },
                Err(e) => {
                    &&& add_inside_error(old(self).store(), old(self).id, name@) == Some(e)
                    &&& final(self).store() == old(self).store()
                },
            },
    {
        match self.check_common() {
            Some(group) => self.template.add_leaf_to(name, group, deferred),
            None => Err(AddNodeError::InvalidParent),
        }
    }

    /// Creates a group in the inner group, where this is a common meta node.
    pub fn add_group(&mut self, name: &str) -> (r: Result<GroupHandle<'_>, AddNodeError>)
        ensures
            final(self).id == old(self).id,
            *final(final(self).template) == *final(old(self).template),
            match r {
                Ok(handle) => {
                    &&& add_inside_error(old(self).store(), old(self).id, name@) is None
                    &&& handle.id == old(self).store().len()
                    &&& handle.store() == with_group(
                        old(self).store(),
                        name@,
                        common_inner(old(self).store(), old(self).id)->Some_0,
                    )
                    &&& well_formed(old(self).store()) ==> well_formed(handle.store())
                    &&& *final(self).template == *final(handle.template)
                },
                Err(e) => {
                    &&& add_inside_error(old(self).store(), old(self).id, name@) == Some(e)
                    &&& final(self).store() == old(self).store()
                },
            },
    {
        match self.check_common() {
            Some(group) => self.template.add_group_to(name, group),
            None => Err(AddNodeError::InvalidParent),
        }
    }

    /// Replaces the payload by one of the same kind: a list of integers, a
    /// list of expressions or a constraint. Anything else is refused.
    pub fn set_value(&mut self, value: Metadata) -> (r: Result<(), EditMetaError>)
        ensures
            final(self).id == old(self).id,
            *final(final(self).template) == *final(old(self).template),
            well_formed(old(self).store()) ==> well_formed(final(self).store()),
            match r {
                Ok(_) => {
                    &&& takes_payload(old(self).store(), old(self).id, value@)
                    &&& final(self).store() == with_payload(
                        old(self).store(),
                        old(self).id,
                        value@,
                    )
                },
                Err(_) => {
                    &&& !takes_payload(old(self).store(), old(self).id, value@)
                    &&& final(self).store() == old(self).store()
                },
            },
    {
        self.template.set_meta_data(self.id, value)
    }
}

} // verus!
