//! The node store: it owns every node with its name, hands out identities and
//! resolves paths.

use vstd::prelude::*;
use vstd::string::*;
use crate::handle::{GroupHandle, LeafHandle, MetaHandle};
use crate::laws::{law_group_is_found, law_leaf_is_found, law_meta_is_found};
use crate::model::{
    Store, add_child_error, add_meta_error, child_error, common_inner, edit_error, find_named,
    is_group, is_leaf, is_meta, kind_of_expr, kind_of_value, lemma_find_named_concat,
    lemma_resolve_bound, meta_id, namespace, resolve, start_data, takes_payload, with_attached,
    with_cached, with_child, with_common, with_expr, with_group, with_leaf, with_linked_child,
    with_meta, with_payload,
};
use crate::node::{
    AddNodeError, EditLeafError, EditMetaError, Group, GroupView, Leaf, Meta, Metadata,
    MetadataStart, Node, NodeView,
};
use crate::shape::{
    law_cache_keeps_shape, law_expr_keeps_shape, law_group_keeps_shape, law_leaf_keeps_shape,
    law_meta_keeps_shape, law_new_is_well_formed, law_payload_keeps_shape, well_formed,
};
use crate::text::{verify_name, head, head_length, rest, root_name, same_text};
use crate::value::{Expr, ExprView, NodeId, Value, ValueKind, exprs_view};

verus! {

/// The whole template: every node with its name, indexed by identity.
#[derive(Debug)]
pub struct Template {
    /// All nodes in the template; a node's identity is its index
    nodes: Vec<(Node, String)>,
}

/// The root group as it is in a new template.
pub open spec fn root_group() -> GroupView {
    GroupView {
        id: 0,
        children: Seq::empty(),
        parent: None,
        metadata: Seq::empty(),
        common: None,
    }
}

/// The store of a new template: the root group alone.
pub open spec fn new_store() -> Store {
    seq![(NodeView::Group(root_group()), root_name())]
}

impl View for Template {
    type V = Store;

    closed spec fn view(&self) -> Store {
        Seq::new(self.nodes@.len(), |i: int| (self.nodes@[i].0@, self.nodes@[i].1@))
    }
}

impl Clone for Template {
    /// A template of its own with the same nodes.
    fn clone(&self) -> (r: Self)
        ensures
            r@ == self@,
    {
        let mut nodes: Vec<(Node, String)> = Vec::new();
        let mut i: usize = 0;
        while i < self.nodes.len()
            invariant
                i <= self.nodes@.len(),
                nodes@.len() == i,
                forall|k: int|
                    0 <= k < i ==> (#[trigger] nodes@[k]).0@ == self.nodes@[k].0@ && nodes@[k].1@
                        == self.nodes@[k].1@,
            decreases self.nodes@.len() - i,
        {
            nodes.push((self.nodes[i].0.clone(), self.nodes[i].1.clone()));
            i += 1;
        }
        let r = Template { nodes };
        assert(r@ =~= self@);
        r
    }
}

impl Template {
    /// Whether the template has the shape that its operations keep; see
    /// [`well_formed`].
    pub open spec fn wf(&self) -> bool {
        well_formed(self@)
    }

    /// A template that holds the root group and nothing else.
    pub fn new() -> (template: Self)
        ensures
            template@ == new_store(),
            template.wf(),
    {
        proof {
            law_new_is_well_formed();
        }
        let mother_group = Group {
            id: 0,
            children: Vec::new(),
            parent: None,
            metadata: Vec::new(),
            common: None,
        };
        let mut nodes: Vec<(Node, String)> = Vec::new();
        nodes.push((Node::Group(mother_group), String::from_str("[THE MOTHER]")));
        let template = Template { nodes };
        assert(template@ =~= new_store());
        template
    }

    /// The identity that the next new node gets.
    pub fn new_id(&self) -> (id: NodeId)
        ensures
            id == self@.len(),
    {
        self.nodes.len()
    }

    /// The node `id` with its name.
    pub fn entry(&self, id: NodeId) -> (entry: &(Node, String))
        requires
            id < self@.len(),
        ensures
            entry.0@ == self@[id as int].0,
            entry.1@ == self@[id as int].1,
    {
        &self.nodes[id]
    }

    /// The first of `ids` that names a node called `name`.
    pub fn find_in(&self, ids: &Vec<NodeId>, name: &str) -> (found: Option<NodeId>)
        ensures
            found == find_named(self@, ids@, name@),
    {
        let mut i: usize = 0;
        assert(ids@.skip(0) =~= ids@);
        while i < ids.len()
            invariant
                i <= ids@.len(),
                find_named(self@, ids@, name@) == find_named(self@, ids@.skip(i as int), name@),
            decreases ids@.len() - i,
        {
            let id = ids[i];
            assert(ids@.skip(i as int)[0] == id);
            assert(ids@.skip(i as int).drop_first() =~= ids@.skip(i + 1));
            if id < self.nodes.len() && same_text(self.nodes[id].1.as_str(), name) {
                return Some(id);
            }
            i += 1;
        }
        assert(ids@.skip(i as int).len() == 0);
        None
    }

    /// Gets the ID of the node found at `path` relative to `parent`
    pub fn get_node_from(&self, path: &str, parent: NodeId) -> (found: Option<NodeId>)
        ensures
            found == resolve(self@, path@, parent),
            found matches Some(id) ==> id < self@.len(),
        decreases path@.len(), (if is_group(self@, parent) { 0nat } else { 1nat }),
    {
        proof {
            lemma_resolve_bound(self@, path@, parent);
        }
        if parent >= self.nodes.len() {
            return None;
        }
        let k = head_length(path);
        let n = path.unicode_len();
        let name = path.substring_char(0, k);
        assert(name@ == head(path@));
        let matched = match &self.nodes[parent].0 {
            Node::Group(group) => {
                proof {
                    lemma_find_named_concat(self@, group.children@, group.metadata@, name@);
                }
                match self.find_in(&group.children, name) {
                    Some(id) => Some(id),
                    None => self.find_in(&group.metadata, name),
                }
            },
            Node::Leaf(leaf) => self.find_in(&leaf.metadata, name),
            Node::Meta(meta) => match meta.data {
                Metadata::Common { inner } => {
                    if inner < self.nodes.len() {
                        match &self.nodes[inner].0 {
                            Node::Group(_) => {
                                return self.get_node_from(path, inner);
                            },
                            _ => {
                                return None;
                            },
                        }
                    } else {
                        return None;
                    }
                },
                _ => {
                    return None;
                },
            },
        };
        assert(matched == find_named(self@, namespace(self@[parent as int].0), head(path@)));
        match matched {
            None => None,
            Some(id) => {
                if k == n {
                    Some(id)
                } else {
                    let remaining = path.substring_char(k + 1, n);
                    assert(remaining@ == rest(path@));
                    self.get_node_from(remaining, id)
                }
            },
        }
    }

    /// Whether `id` names a group.
    pub fn is_group_id(&self, id: NodeId) -> (r: bool)
        ensures
            r == is_group(self@, id),
    {
        if id < self.nodes.len() {
            match &self.nodes[id].0 {
                Node::Group(_) => true,
                _ => false,
            }
        } else {
            false
        }
    }

    /// The inner group of the common meta node `id`, if `id` is one.
    pub fn inner_of(&self, id: NodeId) -> (r: Option<NodeId>)
        ensures
            r == common_inner(self@, id),
    {
        if id < self.nodes.len() {
            match &self.nodes[id].0 {
                Node::Meta(meta) => match meta.data {
                    Metadata::Common { inner } => Some(inner),
                    _ => None,
                },
                _ => None,
            }
        } else {
            None
        }
    }

    /// Appends `id` to the children of the group `at`.
    fn push_child(&mut self, at: NodeId, id: NodeId)
        requires
            is_group(old(self)@, at),
        ensures
            final(self)@ == with_child(old(self)@, at, id),
    {
        match &mut self.nodes[at].0 {
            Node::Group(group) => {
                group.children.push(id);
            },
            _ => {},
        }
        assert(self@ =~= with_child(old(self)@, at, id));
    }

    /// Appends `id` to the meta nodes of the group or leaf `at`.
    fn push_attached(&mut self, at: NodeId, id: NodeId)
        requires
            at < old(self)@.len(),
        ensures
            final(self)@ == with_attached(old(self)@, at, id),
    {
        match &mut self.nodes[at].0 {
            Node::Group(group) => {
                group.metadata.push(id);
            },
            Node::Leaf(leaf) => {
                leaf.metadata.push(id);
            },
            Node::Meta(_) => {},
        }
        assert(self@ =~= with_attached(old(self)@, at, id));
    }

    /// Appends a node with its name; its identity is the old node count.
    fn push_node(&mut self, node: Node, name: &str)
        ensures
            final(self)@ == old(self)@.push((node@, name@)),
    {
        self.nodes.push((node, String::from_str(name)));
        assert(self@ =~= old(self)@.push((node@, name@)));
    }

    /// Links the new node `id` under `parent`, where `parent` can take a child.
    fn add_child(&mut self, parent: NodeId, id: NodeId) -> (r: Result<(), AddNodeError>)
        ensures
            match r {
                Ok(_) => child_error(old(self)@, parent) is None && final(self)@
                    == with_linked_child(old(self)@, parent, id),
                Err(e) => child_error(old(self)@, parent) == Some(e) && final(self)@ == old(self)@,
            },
    {
        if parent >= self.nodes.len() {
            return Err(AddNodeError::ParentNotExists);
        }
        match self.inner_of(parent) {
            Some(inner) => {
                if self.is_group_id(inner) {
                    self.push_attached(inner, id);
                    Ok(())
                } else {
                    Err(AddNodeError::InvalidParent)
                }
            },
            None => {
                if self.is_group_id(parent) {
                    self.push_child(parent, id);
                    Ok(())
                } else {
                    Err(AddNodeError::ParentIsLeaf)
                }
            },
        }
    }

    /// Creates a leaf called `name` under `parent`.
    ///
    /// It fails, and leaves the template as it was, where the name is taken
    /// under `parent`, is not valid, or `parent` cannot take a child.
    pub fn add_leaf_to<'a>(&'a mut self, name: &str, parent: NodeId, deferred: bool) -> (r: Result<
        LeafHandle<'a>,
        AddNodeError,
    >)
        ensures
            match r {
                Ok(handle) => {
                    &&& add_child_error(old(self)@, name@, parent) is None
                    &&& handle.id == old(self)@.len()
                    &&& handle.template@ == with_leaf(old(self)@, name@, parent, deferred)
                    &&& resolve(handle.template@, name@, parent) == Some(handle.id)
                    &&& old(self).wf() ==> handle.template.wf()
                    &&& *final(self) == *final(handle.template)
                },
                Err(e) => {
                    &&& add_child_error(old(self)@, name@, parent) == Some(e)
                    &&& final(self)@ == old(self)@
                },
            },
    {
        if let Some(_) = self.get_node_from(name, parent) {
            return Err(AddNodeError::NameConflict);
        }
        if !verify_name(name) {
            return Err(AddNodeError::InvalidName);
        }
        let id = self.new_id();
        let leaf = Leaf {
            id,
            value_kind: ValueKind::Undefined,
            value: None,
            cached: None,
            cache_valid: false,
            deferred,
            parent: Some(parent),
            metadata: Vec::new(),
            dependencies: Vec::new(),
            dependents: Vec::new(),
        };
        match self.add_child(parent, id) {
            Ok(_) => {},
            Err(e) => {
                return Err(e);
            },
        }
        self.push_node(Node::Leaf(leaf), name);
        proof {
            vstd::std_specs::vec::axiom_spec_len(&self.nodes);
            law_leaf_is_found(old(self)@, name@, parent, deferred);
            if old(self).wf() {
                law_leaf_keeps_shape(old(self)@, name@, parent, deferred);
            }
        }
        Ok(LeafHandle { id, template: self })
    }

    /// Creates a group called `name` under `parent`.
    ///
    /// It fails, and leaves the template as it was, where the name is taken
    /// under `parent`, is not valid, or `parent` cannot take a child.
    pub fn add_group_to<'a>(&'a mut self, name: &str, parent: NodeId) -> (r: Result<
        GroupHandle<'a>,
        AddNodeError,
    >)
        ensures
            match r {
                Ok(handle) => {
                    &&& add_child_error(old(self)@, name@, parent) is None
                    &&& handle.id == old(self)@.len()
                    &&& handle.template@ == with_group(old(self)@, name@, parent)
                    &&& resolve(handle.template@, name@, parent) == Some(handle.id)
                    &&& old(self).wf() ==> handle.template.wf()
                    &&& *final(self) == *final(handle.template)
                },
                Err(e) => {
                    &&& add_child_error(old(self)@, name@, parent) == Some(e)
                    &&& final(self)@ == old(self)@
                },
            },
    {
        if let Some(_) = self.get_node_from(name, parent) {
            return Err(AddNodeError::NameConflict);
        }
        if !verify_name(name) {
            return Err(AddNodeError::InvalidName);
        }
        let id = self.new_id();
        let group = Group {
            id,
            children: Vec::new(),
            parent: Some(parent),
            metadata: Vec::new(),
            common: None,
        };
        match self.add_child(parent, id) {
            Ok(_) => {},
            Err(e) => {
                return Err(e);
            },
        }
        self.push_node(Node::Group(group), name);
        proof {
            vstd::std_specs::vec::axiom_spec_len(&self.nodes);
            law_group_is_found(old(self)@, name@, parent);
            if old(self).wf() {
                law_group_keeps_shape(old(self)@, name@, parent);
            }
        }
        Ok(GroupHandle { id, template: self })
    }

    /// Whether `id` names a group that has no common meta node yet.
    fn takes_common(&self, id: NodeId) -> (r: bool)
        ensures
            r == (is_group(self@, id) && self@[id as int].0->Group_0.common is None),
    {
        if id < self.nodes.len() {
            match &self.nodes[id].0 {
                Node::Group(group) => group.common.is_none(),
                _ => false,
            }
        } else {
            false
        }
    }

    /// Records the common meta node `id` on the group `at`.
    fn mark_common(&mut self, at: NodeId, id: NodeId)
        requires
            is_group(old(self)@, at),
        ensures
            final(self)@ == old(self)@.update(
                at as int,
                (
                    NodeView::Group(
                        GroupView {
                            metadata: old(self)@[at as int].0->Group_0.metadata.push(id),
                            common: Some(id),
                            ..old(self)@[at as int].0->Group_0
                        },
                    ),
                    old(self)@[at as int].1,
                ),
            ),
    {
        match &mut self.nodes[at].0 {
            Node::Group(group) => {
                group.metadata.push(id);
                group.common = Some(id);
            },
            _ => {},
        }
        assert(self@ =~= old(self)@.update(
            at as int,
            (
                NodeView::Group(
                    GroupView {
                        metadata: old(self)@[at as int].0->Group_0.metadata.push(id),
                        common: Some(id),
                        ..old(self)@[at as int].0->Group_0
                    },
                ),
                old(self)@[at as int].1,
            ),
        ));
    }

    /// The payload that a meta node of kind `start` begins with.
    fn start_payload(start: MetadataStart, inner: NodeId) -> (data: Metadata)
        ensures
            data@ == start_data(start, inner),
    {
        match start {
            MetadataStart::Common => Metadata::Common { inner },
            MetadataStart::Sum => Metadata::Sum(Vec::new()),
            MetadataStart::Ident => Metadata::Ident,
            MetadataStart::Concat => {
                let elements: Vec<Expr> = Vec::new();
                assert(exprs_view(elements@) =~= Seq::empty());
                Metadata::Concat(elements)
            },
            MetadataStart::Constraint(constraint) => Metadata::Constraint(constraint),
        }
    }

    /// Attaches a meta node of kind `start`, called `name`, to `parent_id`.
    ///
    /// It fails, and leaves the template as it was, where the name is taken
    /// under the parent, is not valid, or the parent cannot take the node.
    pub fn add_meta_to<'a>(&'a mut self, name: &str, parent_id: NodeId, start: MetadataStart) -> (r:
        Result<MetaHandle<'a>, AddNodeError>)
        ensures
            match r {
                Ok(handle) => {
                    &&& add_meta_error(old(self)@, name@, parent_id, start) is None
                    &&& handle.id == meta_id(old(self)@, start)
                    &&& handle.template@ == with_meta(old(self)@, name@, parent_id, start)
                    &&& resolve(handle.template@, name@, parent_id) == Some(handle.id)
                    &&& old(self).wf() ==> handle.template.wf()
                    &&& *final(self) == *final(handle.template)
                },
                Err(e) => {
                    &&& add_meta_error(old(self)@, name@, parent_id, start) == Some(e)
                    &&& final(self)@ == old(self)@
                },
            },
    {
        if let Some(_) = self.get_node_from(name, parent_id) {
            return Err(AddNodeError::NameConflict);
        }
        if !verify_name(name) {
            return Err(AddNodeError::InvalidName);
        }
        if parent_id >= self.nodes.len() {
            return Err(AddNodeError::ParentNotExists);
        }
        if let MetadataStart::Common = start {
            if !self.takes_common(parent_id) {
                return Err(AddNodeError::InvalidParent);
            }
            let inner = self.new_id();
            let group = Group {
                id: inner,
                children: Vec::new(),
                parent: Some(parent_id),
                metadata: Vec::new(),
                common: None,
            };
            self.push_node(Node::Group(group), "[COMMON INNER]");
            let id = self.new_id();
            self.mark_common(parent_id, id);
            let meta = Meta {
                id,
                parent: parent_id,
                data: Metadata::Common { inner },
                cached: None,
                cache_valid: false,
            };
            self.push_node(Node::Meta(meta), name);
            assert(self@ =~= with_common(old(self)@, name@, parent_id));
            proof {
                vstd::std_specs::vec::axiom_spec_len(&self.nodes);
                law_meta_is_found(old(self)@, name@, parent_id, start);
                if old(self).wf() {
                    law_meta_keeps_shape(old(self)@, name@, parent_id, start);
                }
            }
            return Ok(MetaHandle { id, template: self });
        }
        let at = match self.inner_of(parent_id) {
            Some(inner) => {
                if !self.is_group_id(inner) {
                    return Err(AddNodeError::InvalidParent);
                }
                inner
            },
            None => {
                if let Node::Meta(_) = &self.nodes[parent_id].0 {
                    return Err(AddNodeError::ParentIsLeaf);
                }
                parent_id
            },
        };
        let id = self.new_id();
        self.push_attached(at, id);
        let meta = Meta {
            id,
            parent: at,
            data: Self::start_payload(start, 0),
            cached: None,
            cache_valid: false,
        };
        self.push_node(Node::Meta(meta), name);
        proof {
            vstd::std_specs::vec::axiom_spec_len(&self.nodes);
            law_meta_is_found(old(self)@, name@, parent_id, start);
            if old(self).wf() {
                law_meta_keeps_shape(old(self)@, name@, parent_id, start);
            }
        }
        Ok(MetaHandle { id, template: self })
    }

    /// The tag of `value`.
    pub fn value_kind(value: &Value) -> (kind: ValueKind)
        ensures
            kind == kind_of_value(value@),
    {
        match value {
            Value::Integer(_) => ValueKind::Integer,
            Value::String(_) => ValueKind::String,
            Value::List(_) => ValueKind::List,
        }
    }

    /// The tag that a leaf gets with the expression `expr`.
    pub fn check_expr_type(&self, expr: &Expr) -> (kind: ValueKind)
        ensures
            kind == kind_of_expr(self@, expr@),
    {
        match expr {
            Expr::Literal(value) => Self::value_kind(value),
            Expr::Reference(id) => {
                if *id < self.nodes.len() {
                    match &self.nodes[*id].0 {
                        Node::Leaf(node) => node.value_kind,
                        _ => ValueKind::Undefined,
                    }
                } else {
                    ValueKind::Undefined
                }
            },
            Expr::IdentRef(_) => ValueKind::String,
            Expr::InfixOp(_) => ValueKind::Integer,
        }
    }

    /// Gives the leaf `id` the constant `value`. Its cache is not touched: a
    /// leaf that was evaluated keeps answering with the value it has cached.
    pub fn set_leaf_value(&mut self, id: NodeId, value: Value) -> (r: Result<(), EditLeafError>)
        ensures
            old(self).wf() ==> final(self).wf(),
            match r {
                Ok(_) => edit_error(old(self)@, id) is None && final(self)@ == with_expr(
                    old(self)@,
                    id,
                    ExprView::Literal(value@),
                ),
                Err(e) => edit_error(old(self)@, id) == Some(e) && final(self)@ == old(self)@,
            },
    {
        self.set_leaf_expr(id, Expr::Literal(value))
    }

    /// Gives the leaf `id` the expression `expr`. Its cache is not touched: a
    /// leaf that was evaluated keeps answering with the value it has cached.
    pub fn set_leaf_expr(&mut self, id: NodeId, expr: Expr) -> (r: Result<(), EditLeafError>)
        ensures
            old(self).wf() ==> final(self).wf(),
            match r {
                Ok(_) => edit_error(old(self)@, id) is None && final(self)@ == with_expr(
                    old(self)@,
                    id,
                    expr@,
                ),
                Err(e) => edit_error(old(self)@, id) == Some(e) && final(self)@ == old(self)@,
            },
    {
        let value_kind = self.check_expr_type(&expr);
        if id >= self.nodes.len() {
            return Err(EditLeafError::NotExists);
        }
        if !self.is_leaf_id(id) {
            return Err(EditLeafError::NotLeaf);
        }
        match &mut self.nodes[id].0 {
            Node::Leaf(node) => {
                node.value_kind = value_kind;
                node.value = Some(expr);
            },
            _ => {},
        }
        assert(self@ =~= with_expr(old(self)@, id, expr@));
        proof {
            if old(self).wf() {
                law_expr_keeps_shape(old(self)@, id, expr@);
            }
        }
        Ok(())
    }

    /// Writes `value` into the cache of the leaf or meta node `id`.
    pub fn store_cached(&mut self, id: NodeId, value: Value)
        ensures
            final(self)@ == with_cached(old(self)@, id, value@),
            old(self).wf() ==> final(self).wf(),
    {
        if id < self.nodes.len() {
            match &mut self.nodes[id].0 {
                Node::Leaf(leaf) => {
                    leaf.cached = Some(value);
                    leaf.cache_valid = true;
                },
                Node::Meta(meta) => {
                    meta.cached = Some(value);
                    meta.cache_valid = true;
                },
                Node::Group(_) => {},
            }
        }
        assert(self@ =~= with_cached(old(self)@, id, value@));
        proof {
            if old(self).wf() {
                law_cache_keeps_shape(old(self)@, id, value@);
            }
        }
    }

    /// The leaf `id`, if `id` names a leaf.
    pub fn get_leaf_by_id(&self, id: NodeId) -> (r: Option<&Leaf>)
        ensures
            match r {
                Some(leaf) => id < self@.len() && self@[id as int].0 == NodeView::Leaf(leaf@),
                None => !is_leaf(self@, id),
            },
    {
        if id < self.nodes.len() {
            match &self.nodes[id].0 {
                Node::Leaf(leaf) => Some(leaf),
                _ => None,
            }
        } else {
            None
        }
    }

    /// The group `id`, if `id` names a group.
    pub fn get_group_by_id(&self, id: NodeId) -> (r: Option<&Group>)
        ensures
            match r {
                Some(group) => id < self@.len() && self@[id as int].0 == NodeView::Group(group@),
                None => !is_group(self@, id),
            },
    {
        if id < self.nodes.len() {
            match &self.nodes[id].0 {
                Node::Group(group) => Some(group),
                _ => None,
            }
        } else {
            None
        }
    }

    /// The meta node `id`, if `id` names a meta node.
    pub fn get_meta_by_id(&self, id: NodeId) -> (r: Option<&Meta>)
        ensures
            match r {
                Some(meta) => id < self@.len() && self@[id as int].0 == NodeView::Meta(meta@),
                None => !is_meta(self@, id),
            },
    {
        if id < self.nodes.len() {
            match &self.nodes[id].0 {
                Node::Meta(meta) => Some(meta),
                _ => None,
            }
        } else {
            None
        }
    }

    /// The node `id` of any kind, if there is one.
    pub fn get_node_by_id(&self, id: NodeId) -> (r: Option<&Node>)
        ensures
            match r {
                Some(node) => id < self@.len() && self@[id as int].0 == node@,
                None => id >= self@.len(),
            },
    {
        if id < self.nodes.len() {
            Some(&self.nodes[id].0)
        } else {
            None
        }
    }

    /// Every node with its name, in the order of their identities.
    pub fn list_nodes(&self) -> (list: Vec<&(Node, String)>)
        ensures
            list@.len() == self@.len(),
            forall|i: int|
                0 <= i < list@.len() ==> (#[trigger] list@[i]).0@ == self@[i].0 && list@[i].1@
                    == self@[i].1,
    {
        let mut list: Vec<&(Node, String)> = Vec::new();
        let mut i: usize = 0;
        while i < self.nodes.len()
            invariant
                i <= self.nodes@.len(),
                list@.len() == i,
                forall|k: int|
                    0 <= k < i ==> (#[trigger] list@[k]).0@ == self@[k].0 && list@[k].1@
                        == self@[k].1,
            decreases self.nodes@.len() - i,
        {
            list.push(&self.nodes[i]);
            i += 1;
        }
        list
    }

    /// Whether `id` names a meta node.
    pub fn is_meta_id(&self, id: NodeId) -> (r: bool)
        ensures
            r == is_meta(self@, id),
    {
        if id < self.nodes.len() {
            match &self.nodes[id].0 {
                Node::Meta(_) => true,
                _ => false,
            }
        } else {
            false
        }
    }

    /// Whether `id` names a leaf.
    pub fn is_leaf_id(&self, id: NodeId) -> (r: bool)
        ensures
            r == is_leaf(self@, id),
    {
        if id < self.nodes.len() {
            match &self.nodes[id].0 {
                Node::Leaf(_) => true,
                _ => false,
            }
        } else {
            false
        }
    }

    /// Gives the meta node `id` the payload `data`, where that is of the kind
    /// the node has: a list of integers, a list of expressions or a constraint
    /// takes the place of another. Anything else is refused and changes nothing.
    pub fn set_meta_data(&mut self, id: NodeId, data: Metadata) -> (r: Result<(), EditMetaError>)
        ensures
            old(self).wf() ==> final(self).wf(),
            match r {
                Ok(_) => takes_payload(old(self)@, id, data@) && final(self)@ == with_payload(
                    old(self)@,
                    id,
                    data@,
                ),
                Err(_) => !takes_payload(old(self)@, id, data@) && final(self)@ == old(self)@,
            },
    {
        if id >= self.nodes.len() {
            return Err(EditMetaError::WrongKind);
        }
        let fits = match &self.nodes[id].0 {
            Node::Meta(meta) => match (&meta.data, &data) {
                (Metadata::Sum(_), Metadata::Sum(_)) => true,
                (Metadata::Concat(_), Metadata::Concat(_)) => true,
                (Metadata::Constraint(_), Metadata::Constraint(_)) => true,
                _ => false,
            },
            _ => false,
        };
        if !fits {
            return Err(EditMetaError::WrongKind);
        }
        match &mut self.nodes[id].0 {
            Node::Meta(meta) => {
                meta.data = data;
            },
            _ => {},
        }
        assert(self@ =~= with_payload(old(self)@, id, data@));
        proof {
            if old(self).wf() {
                law_payload_keeps_shape(old(self)@, id, data@);
            }
        }
        Ok(())
    }
}

} // verus!
