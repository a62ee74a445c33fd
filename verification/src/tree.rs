//! What every handle can do, and what a handle on a node with a namespace can
//! do on top of that.

use vstd::prelude::*;
use crate::handle::{GroupHandle, LeafHandle, MetaHandle, NodeHandle};
use crate::model::{
    add_child_error, add_meta_error, is_group, is_leaf, is_meta, meta_id, resolve, with_group,
    with_leaf, with_meta,
};
use crate::node::{AddNodeError, Group, Leaf, Meta, MetadataStart, Node, NodeView};
use crate::template::Template;
use crate::value::NodeId;

verus! {

/// An identity together with the template that the node lives in.
pub trait Handle {
    /// The identity that the handle points at.
    spec fn at(&self) -> NodeId;

    /// The template that the handle points into.
    spec fn whole(&self) -> Template;

    fn get_template(&self) -> (template: &Template)
        ensures
            *template == self.whole(),
    ;

    fn get_template_mut(&mut self) -> (template: &mut Template)
        ensures
            *template == old(self).whole(),
            final(self).whole() == *final(template),
            final(self).at() == old(self).at(),
    ;

    fn get_id(&self) -> (id: NodeId)
        ensures
            id == self.at(),
    ;

    /// A handle to the meta node that `path` leads to from here.
    fn get_meta_handle(&mut self, path: &str) -> (r: Option<MetaHandle<'_>>)
        ensures
            final(self).at() == old(self).at(),
            match r {
                Some(handle) => {
                    &&& resolve(old(self).whole()@, path@, old(self).at()) == Some(handle.id)
                    &&& is_meta(old(self).whole()@, handle.id)
                    &&& handle.store() == old(self).whole()@
                    &&& final(self).whole() == *final(handle.template)
                },
                None => {
                    &&& resolve(old(self).whole()@, path@, old(self).at()) matches Some(id)
                        ==> !is_meta(old(self).whole()@, id)
                    &&& final(self).whole()@ == old(self).whole()@
                },
            },
    {
        let id = self.get_id();
        let template = self.get_template_mut();
        match template.get_node_from(path, id) {
            Some(found) => {
                if template.is_meta_id(found) {
                    Some(MetaHandle { id: found, template })
                } else {
                    None
                }
            },
            None => None,
        }
    }

    /// The meta node that `path` leads to from here.
    fn get_meta(&self, path: &str) -> (r: Option<&Meta>)
        ensures
            match r {
                Some(meta) => resolve(self.whole()@, path@, self.at()) matches Some(id)
                    && self.whole()@[id as int].0 == NodeView::Meta(meta@),
                None => resolve(self.whole()@, path@, self.at()) matches Some(id) ==> !is_meta(
                    self.whole()@,
                    id,
                ),
            },
    {
        let id = self.get_id();
        let template = self.get_template();
        match template.get_node_from(path, id) {
            Some(found) => template.get_meta_by_id(found),
            None => None,
        }
    }

    /// Attaches a meta node to the node of this handle; see
    /// [`Template::add_meta_to`].
    fn add_meta(&mut self, name: &str, start: MetadataStart) -> (r: Result<
        MetaHandle<'_>,
        AddNodeError,
    >)
        ensures
            final(self).at() == old(self).at(),
            match r {
                Ok(handle) => {
                    &&& add_meta_error(old(self).whole()@, name@, old(self).at(), start) is None
                    &&& handle.id == meta_id(old(self).whole()@, start)
                    &&& handle.store() == with_meta(
                        old(self).whole()@,
                        name@,
                        old(self).at(),
                        start,
                    )
                    &&& old(self).whole().wf() ==> handle.template.wf()
                    &&& final(self).whole() == *final(handle.template)
                },
                Err(e) => {
                    &&& add_meta_error(old(self).whole()@, name@, old(self).at(), start) == Some(
                        e,
                    )
                    &&& final(self).whole()@ == old(self).whole()@
                },
            },
    {
        let id = self.get_id();
        let template = self.get_template_mut();
        template.add_meta_to(name, id, start)
    }
}

impl Handle for Template {
    open spec fn at(&self) -> NodeId {
        0
    }

    open spec fn whole(&self) -> Template {
        *self
    }

    fn get_template(&self) -> (template: &Template) {
        self
    }

    fn get_template_mut(&mut self) -> (template: &mut Template) {
        self
    }

    fn get_id(&self) -> (id: NodeId) {
        0
    }
}

impl<'a> Handle for LeafHandle<'a> {
    open spec fn at(&self) -> NodeId {
        self.id
    }

    open spec fn whole(&self) -> Template {
        *self.template
    }

    fn get_template(&self) -> (template: &Template) {
        &*self.template
    }

    fn get_template_mut(&mut self) -> (template: &mut Template) {
        &mut *self.template
    }

    fn get_id(&self) -> (id: NodeId) {
        self.id
    }
}

impl<'a> Handle for GroupHandle<'a> {
    open spec fn at(&self) -> NodeId {
        self.id
    }

    open spec fn whole(&self) -> Template {
        *self.template
    }

    fn get_template(&self) -> (template: &Template) {
        &*self.template
    }

    fn get_template_mut(&mut self) -> (template: &mut Template) {
        &mut *self.template
    }

    fn get_id(&self) -> (id: NodeId) {
        self.id
    }
}

impl<'a> Handle for MetaHandle<'a> {
    open spec fn at(&self) -> NodeId {
        self.id
    }

    open spec fn whole(&self) -> Template {
        *self.template
    }

    fn get_template(&self) -> (template: &Template) {
        &*self.template
    }

    fn get_template_mut(&mut self) -> (template: &mut Template) {
        &mut *self.template
    }

    fn get_id(&self) -> (id: NodeId) {
        self.id
    }
}

/// A handle on a node that has a namespace: paths are followed, and leaves
/// and groups created, from the node of the handle.
pub trait NodeTree: Handle {
    /// A handle to the node that `path` leads to from here.
    fn get_handle(&mut self, path: &str) -> (r: Option<NodeHandle<'_>>)
        ensures
            final(self).at() == old(self).at(),
            match r {
                Some(NodeHandle::Leaf(handle)) => {
                    &&& resolve(old(self).whole()@, path@, old(self).at()) == Some(handle.id)
                    &&& is_leaf(old(self).whole()@, handle.id)
                    &&& handle.store() == old(self).whole()@
                    &&& final(self).whole() == *final(handle.template)
                },
                Some(NodeHandle::Group(handle)) => {
                    &&& resolve(old(self).whole()@, path@, old(self).at()) == Some(handle.id)
                    &&& is_group(old(self).whole()@, handle.id)
                    &&& handle.store() == old(self).whole()@
                    &&& final(self).whole() == *final(handle.template)
                },
                Some(NodeHandle::Meta(handle)) => {
                    &&& resolve(old(self).whole()@, path@, old(self).at()) == Some(handle.id)
                    &&& is_meta(old(self).whole()@, handle.id)
                    &&& handle.store() == old(self).whole()@
                    &&& final(self).whole() == *final(handle.template)
                },
                None => {
                    &&& resolve(old(self).whole()@, path@, old(self).at()) is None
                    &&& final(self).whole()@ == old(self).whole()@
                },
            },
    {
        let id = self.get_id();
        let template = self.get_template_mut();
        let found = match template.get_node_from(path, id) {
            Some(found) => found,
            None => {
                return None;
            },
        };
        if template.is_leaf_id(found) {
            Some(NodeHandle::Leaf(LeafHandle { id: found, template }))
        } else if template.is_group_id(found) {
            Some(NodeHandle::Group(GroupHandle { id: found, template }))
        } else {
            Some(NodeHandle::Meta(MetaHandle { id: found, template }))
        }
    }

    /// A handle to the leaf that `path` leads to from here.
    fn get_leaf_handle(&mut self, path: &str) -> (r: Option<LeafHandle<'_>>)
        ensures
            final(self).at() == old(self).at(),
            match r {
                Some(handle) => {
                    &&& resolve(old(self).whole()@, path@, old(self).at()) == Some(handle.id)
                    &&& is_leaf(old(self).whole()@, handle.id)
                    &&& handle.store() == old(self).whole()@
                    &&& final(self).whole() == *final(handle.template)
                },
                None => {
                    &&& resolve(old(self).whole()@, path@, old(self).at()) matches Some(id)
                        ==> !is_leaf(old(self).whole()@, id)
                    &&& final(self).whole()@ == old(self).whole()@
                },
            },
    {
        match self.get_handle(path) {
            Some(NodeHandle::Leaf(leaf)) => Some(leaf),
            _ => None,
        }
    }

    /// A handle to the group that `path` leads to from here.
    fn get_group_handle(&mut self, path: &str) -> (r: Option<GroupHandle<'_>>)
        ensures
            final(self).at() == old(self).at(),
            match r {
                Some(handle) => {
                    &&& resolve(old(self).whole()@, path@, old(self).at()) == Some(handle.id)
                    &&& is_group(old(self).whole()@, handle.id)
                    &&& handle.store() == old(self).whole()@
                    &&& final(self).whole() == *final(handle.template)
                },
                None => {
                    &&& resolve(old(self).whole()@, path@, old(self).at()) matches Some(id)
                        ==> !is_group(old(self).whole()@, id)
                    &&& final(self).whole()@ == old(self).whole()@
                },
            },
    {
        match self.get_handle(path) {
            Some(NodeHandle::Group(group)) => Some(group),
            _ => None,
        }
    }

    /// The node that `path` leads to from here.
    fn get_node(&self, path: &str) -> (r: Option<&Node>)
        ensures
            match r {
                Some(node) => resolve(self.whole()@, path@, self.at()) matches Some(id)
                    && self.whole()@[id as int].0 == node@,
                None => resolve(self.whole()@, path@, self.at()) is None,
            },
    {
        let id = self.get_id();
        let template = self.get_template();
        match template.get_node_from(path, id) {
            Some(found) => template.get_node_by_id(found),
            None => None,
        }
    }

    /// The leaf that `path` leads to from here.
    fn get_leaf(&self, path: &str) -> (r: Option<&Leaf>)
        ensures
            match r {
                Some(leaf) => resolve(self.whole()@, path@, self.at()) matches Some(id)
                    && self.whole()@[id as int].0 == NodeView::Leaf(leaf@),
                None => resolve(self.whole()@, path@, self.at()) matches Some(id) ==> !is_leaf(
                    self.whole()@,
                    id,
                ),
            },
    {
        match self.get_node(path) {
            Some(Node::Leaf(leaf)) => Some(leaf),
            _ => None,
        }
    }

    /// The group that `path` leads to from here.
    fn get_group(&self, path: &str) -> (r: Option<&Group>)
        ensures
            match r {
                Some(group) => resolve(self.whole()@, path@, self.at()) matches Some(id)
                    && self.whole()@[id as int].0 == NodeView::Group(group@),
                None => resolve(self.whole()@, path@, self.at()) matches Some(id) ==> !is_group(
                    self.whole()@,
                    id,
                ),
            },
    {
        match self.get_node(path) {
            Some(Node::Group(group)) => Some(group),
            _ => None,
        }
    }

    /// Creates a leaf under the node of this handle; see
    /// [`Template::add_leaf_to`].
    fn add_leaf(&mut self, name: &str, deferred: bool) -> (r: Result<LeafHandle<'_>, AddNodeError>)
        ensures
            final(self).at() == old(self).at(),
            match r {
                Ok(handle) => {
                    &&& add_child_error(old(self).whole()@, name@, old(self).at()) is None
                    &&& handle.id == old(self).whole()@.len()
                    &&& handle.store() == with_leaf(
                        old(self).whole()@,
                        name@,
                        old(self).at(),
                        deferred,
                    )
                    &&& old(self).whole().wf() ==> handle.template.wf()
                    &&& final(self).whole() == *final(handle.template)
                },
                Err(e) => {
                    &&& add_child_error(old(self).whole()@, name@, old(self).at()) == Some(e)
                    &&& final(self).whole()@ == old(self).whole()@
                },
            },
    {
        let id = self.get_id();
        let template = self.get_template_mut();
        template.add_leaf_to(name, id, deferred)
    }

    /// Creates a group under the node of this handle; see
    /// [`Template::add_group_to`].
    fn add_group(&mut self, name: &str) -> (r: Result<GroupHandle<'_>, AddNodeError>)
        ensures
            final(self).at() == old(self).at(),
            match r {
                Ok(handle) => {
                    &&& add_child_error(old(self).whole()@, name@, old(self).at()) is None
                    &&& handle.id == old(self).whole()@.len()
                    &&& handle.store() == with_group(old(self).whole()@, name@, old(self).at())
                    &&& old(self).whole().wf() ==> handle.template.wf()
                    &&& final(self).whole() == *final(handle.template)
                },
                Err(e) => {
                    &&& add_child_error(old(self).whole()@, name@, old(self).at()) == Some(e)
                    &&& final(self).whole()@ == old(self).whole()@
                },
            },
    {
        let id = self.get_id();
        let template = self.get_template_mut();
        template.add_group_to(name, id)
    }
}

impl NodeTree for Template {

}

impl<'a> NodeTree for GroupHandle<'a> {

}

impl<'a> NodeTree for MetaHandle<'a> {

}

} // verus!
