//! The store as a mathematical object: a sequence of named nodes, indexed by
//! identity, and the resolution of dotted paths in it.

use vstd::prelude::*;
use crate::node::{
    AddNodeError, EditLeafError, GroupView, LeafView, MetaView, MetadataStart, MetadataView,
    NodeView,
};
use crate::text::{head, inner_name, is_last, lemma_head_bounds, rest, valid_name};
use crate::value::{ExprView, NodeId, ValueKind, ValueView};

verus! {

/// The nodes of a template with their names. A node's identity is its index.
pub type Store = Seq<(NodeView, Seq<char>)>;

/// The first of `ids` that names a node of `s` called `name`.
pub open spec fn find_named(s: Store, ids: Seq<NodeId>, name: Seq<char>) -> Option<NodeId>
    decreases ids.len(),
{
    if ids.len() == 0 {
        None
    } else if ids[0] < s.len() && s[ids[0] as int].1 == name {
        Some(ids[0])
    } else {
        find_named(s, ids.drop_first(), name)
    }
}

/// The identities that a name is looked up among, starting from `node`: the
/// children and meta nodes of a group, the meta nodes of a leaf.
pub open spec fn namespace(node: NodeView) -> Seq<NodeId> {
    match node {
        NodeView::Group(group) => group.children + group.metadata,
        NodeView::Leaf(leaf) => leaf.metadata,
        NodeView::Meta(_) => Seq::empty(),
    }
}

/// Whether `id` names a group of `s`.
pub open spec fn is_group(s: Store, id: NodeId) -> bool {
    id < s.len() && s[id as int].0 is Group
}

/// The node that the dotted `path` leads to from `start`, if there is one.
///
/// From a group or a leaf the first segment is looked up in the namespace; the
/// last segment's match is the result, whatever its kind. A common meta node
/// hands the path on to its inner group; every other meta node is a dead end.
pub open spec fn resolve(s: Store, path: Seq<char>, start: NodeId) -> Option<NodeId>
    decreases path.len(), (if is_group(s, start) { 0nat } else { 1nat }),
{
    if start >= s.len() {
        None
    } else {
        match s[start as int].0 {
            NodeView::Meta(meta) => match meta.data {
                MetadataView::Common { inner } => if is_group(s, inner) {
                    resolve(s, path, inner)
                } else {
                    None
                },
                _ => None,
            },
            node => match find_named(s, namespace(node), head(path)) {
                None => None,
                Some(id) => if is_last(path) {
                    Some(id)
                } else {
                    proof {
                        lemma_head_bounds(path);
                    }
                    resolve(s, rest(path), id)
                },
            },
        }
    }
}

/// Looking a name up in two lists, one after the other.
pub proof fn lemma_find_named_concat(s: Store, a: Seq<NodeId>, b: Seq<NodeId>, name: Seq<char>)
    ensures
        find_named(s, a + b, name) == match find_named(s, a, name) {
            Some(id) => Some(id),
            None => find_named(s, b, name),
        },
    decreases a.len(),
{
    if a.len() == 0 {
        assert(a + b =~= b);
    } else {
        assert((a + b).drop_first() =~= a.drop_first() + b);
        lemma_find_named_concat(s, a.drop_first(), b, name);
    }
}

/// What is found names a node called `name`, and is one of `ids`.
pub proof fn lemma_find_named_some(s: Store, ids: Seq<NodeId>, name: Seq<char>)
    ensures
        match find_named(s, ids, name) {
            Some(id) => ids.contains(id) && id < s.len() && s[id as int].1 == name,
            None => forall|k: int|
                0 <= k < ids.len() ==> !(ids[k] < s.len() && s[#[trigger] ids[k] as int].1
                    == name),
        },
    decreases ids.len(),
{
    if ids.len() > 0 {
        let tail = ids.drop_first();
        lemma_find_named_some(s, tail, name);
        if !(ids[0] < s.len() && s[ids[0] as int].1 == name) {
            match find_named(s, tail, name) {
                Some(id) => {
                    let k = choose|k: int| 0 <= k < tail.len() && tail[k] == id;
                    assert(ids[k + 1] == id);
                },
                None => {
                    assert forall|k: int| 0 <= k < ids.len() implies !(ids[k] < s.len() && s[
                    #[trigger] ids[k] as int].1 == name) by {
                        if k > 0 {
                            assert(ids[k] == tail[k - 1]);
                        }
                    }
                },
            }
        }
    }
}

/// A leaf as it is when created: no value, no cache, nothing attached.
pub open spec fn new_leaf(id: NodeId, parent: NodeId, deferred: bool) -> LeafView {
    LeafView {
        id,
        value_kind: ValueKind::Undefined,
        value: None,
        cached: None,
        cache_valid: false,
        deferred,
        parent: Some(parent),
        metadata: Seq::empty(),
        dependencies: Seq::empty(),
        dependents: Seq::empty(),
    }
}

/// A group as it is when created: empty.
pub open spec fn new_group(id: NodeId, parent: NodeId) -> GroupView {
    GroupView {
        id,
        children: Seq::empty(),
        parent: Some(parent),
        metadata: Seq::empty(),
        common: None,
    }
}

/// The store with `id` appended to the children of the group `at`.
pub open spec fn with_child(s: Store, at: NodeId, id: NodeId) -> Store
    recommends
        is_group(s, at),
{
    let group = s[at as int].0->Group_0;
    s.update(
        at as int,
        (NodeView::Group(GroupView { children: group.children.push(id), ..group }), s[at as int].1),
    )
}

/// The store with `id` appended to the meta nodes of the group or leaf `at`.
pub open spec fn with_attached(s: Store, at: NodeId, id: NodeId) -> Store
    recommends
        at < s.len(),
        !(s[at as int].0 is Meta),
{
    match s[at as int].0 {
        NodeView::Group(group) => s.update(
            at as int,
            (
                NodeView::Group(GroupView { metadata: group.metadata.push(id), ..group }),
                s[at as int].1,
            ),
        ),
        NodeView::Leaf(leaf) => s.update(
            at as int,
            (
                NodeView::Leaf(LeafView { metadata: leaf.metadata.push(id), ..leaf }),
                s[at as int].1,
            ),
        ),
        NodeView::Meta(_) => s,
    }
}

/// The inner group of the common meta node `id`, if `id` is one.
pub open spec fn common_inner(s: Store, id: NodeId) -> Option<NodeId> {
    if id < s.len() {
        match s[id as int].0 {
            NodeView::Meta(meta) => match meta.data {
                MetadataView::Common { inner } => Some(inner),
                _ => None,
            },
            _ => None,
        }
    } else {
        None
    }
}

/// Why `parent` cannot take a leaf or a group as a child, if it cannot.
pub open spec fn child_error(s: Store, parent: NodeId) -> Option<AddNodeError> {
    if parent >= s.len() {
        Some(AddNodeError::ParentNotExists)
    } else {
        match s[parent as int].0 {
            NodeView::Group(_) => None,
            NodeView::Leaf(_) => Some(AddNodeError::ParentIsLeaf),
            NodeView::Meta(_) => match common_inner(s, parent) {
                Some(inner) => if is_group(s, inner) {
                    None
                } else {
                    Some(AddNodeError::InvalidParent)
                },
                None => Some(AddNodeError::ParentIsLeaf),
            },
        }
    }
}

/// Why a leaf or a group called `name` cannot be created under `parent`, if it
/// cannot: the first of a name that is taken, a name that is not valid, and a
/// parent that cannot take it.
pub open spec fn add_child_error(s: Store, name: Seq<char>, parent: NodeId) -> Option<
    AddNodeError,
> {
    if resolve(s, name, parent) is Some {
        Some(AddNodeError::NameConflict)
    } else if !valid_name(name) {
        Some(AddNodeError::InvalidName)
    } else {
        child_error(s, parent)
    }
}

/// The store with the new node `id` linked under `parent`: among the children
/// of a group, or among the meta nodes of a common meta node's inner group.
pub open spec fn with_linked_child(s: Store, parent: NodeId, id: NodeId) -> Store
    recommends
        child_error(s, parent) is None,
{
    match common_inner(s, parent) {
        Some(inner) => with_attached(s, inner, id),
        None => with_child(s, parent, id),
    }
}

/// The store after a leaf called `name` was created under `parent`.
pub open spec fn with_leaf(s: Store, name: Seq<char>, parent: NodeId, deferred: bool) -> Store
    recommends
        add_child_error(s, name, parent) is None,
{
    let id = s.len() as NodeId;
    with_linked_child(s, parent, id).push((NodeView::Leaf(new_leaf(id, parent, deferred)), name))
}

/// The store after a group called `name` was created under `parent`.
pub open spec fn with_group(s: Store, name: Seq<char>, parent: NodeId) -> Store
    recommends
        add_child_error(s, name, parent) is None,
{
    let id = s.len() as NodeId;
    with_linked_child(s, parent, id).push((NodeView::Group(new_group(id, parent)), name))
}

/// Why a meta node called `name` cannot be attached to `parent`, if it cannot:
/// the first of a name that is taken, a name that is not valid, a parent that
/// does not exist, and a parent that cannot take the node.
///
/// A common meta node goes on a group that has none yet, and on nothing else.
/// Any other meta node goes on a group, on a leaf, or into a common meta node.
pub open spec fn add_meta_error(
    s: Store,
    name: Seq<char>,
    parent: NodeId,
    start: MetadataStart,
) -> Option<AddNodeError> {
    if resolve(s, name, parent) is Some {
        Some(AddNodeError::NameConflict)
    } else if !valid_name(name) {
        Some(AddNodeError::InvalidName)
    } else if parent >= s.len() {
        Some(AddNodeError::ParentNotExists)
    } else if start is Common {
        if is_group(s, parent) && s[parent as int].0->Group_0.common is None {
            None
        } else {
            Some(AddNodeError::InvalidParent)
        }
    } else {
        match s[parent as int].0 {
            NodeView::Meta(_) => match common_inner(s, parent) {
                Some(inner) => if is_group(s, inner) {
                    None
                } else {
                    Some(AddNodeError::InvalidParent)
                },
                None => Some(AddNodeError::ParentIsLeaf),
            },
            _ => None,
        }
    }
}

/// The payload that a meta node of kind `start` begins with.
pub open spec fn start_data(start: MetadataStart, inner: NodeId) -> MetadataView {
    match start {
        MetadataStart::Common => MetadataView::Common { inner },
        MetadataStart::Sum => MetadataView::Sum(Seq::empty()),
        MetadataStart::Ident => MetadataView::Ident,
        MetadataStart::Concat => MetadataView::Concat(Seq::empty()),
        MetadataStart::Constraint(constraint) => MetadataView::Constraint(constraint),
    }
}

/// A meta node as it is when created.
pub open spec fn new_meta(id: NodeId, parent: NodeId, data: MetadataView) -> MetaView {
    MetaView { id, parent, data, cached: None, cache_valid: false }
}

/// The identity that a new meta node gets: a common meta node comes after its
/// inner group.
pub open spec fn meta_id(s: Store, start: MetadataStart) -> NodeId {
    if start is Common {
        (s.len() + 1) as NodeId
    } else {
        s.len() as NodeId
    }
}

/// The store after a common meta node called `name` was attached to the group
/// `parent`: the group records it, its inner group comes next, then the node.
pub open spec fn with_common(s: Store, name: Seq<char>, parent: NodeId) -> Store
    recommends
        is_group(s, parent),
{
    let inner = s.len() as NodeId;
    let id = (s.len() + 1) as NodeId;
    let group = s[parent as int].0->Group_0;
    let marked = GroupView { metadata: group.metadata.push(id), common: Some(id), ..group };
    s.update(parent as int, (NodeView::Group(marked), s[parent as int].1)).push(
        (NodeView::Group(new_group(inner, parent)), inner_name()),
    ).push((NodeView::Meta(new_meta(id, parent, MetadataView::Common { inner })), name))
}

/// The store after a meta node called `name` was attached to `parent`.
///
/// On a group or a leaf it joins the node's meta nodes. In a common meta node
/// it joins those of the inner group, which becomes its parent.
pub open spec fn with_meta(s: Store, name: Seq<char>, parent: NodeId, start: MetadataStart) -> Store
    recommends
        add_meta_error(s, name, parent, start) is None,
{
    if start is Common {
        with_common(s, name, parent)
    } else {
        let id = s.len() as NodeId;
        let at = match common_inner(s, parent) {
            Some(inner) => inner,
            None => parent,
        };
        with_attached(s, at, id).push((NodeView::Meta(new_meta(id, at, start_data(start, 0))), name))
    }
}

/// Whether `id` names a leaf of `s`.
pub open spec fn is_leaf(s: Store, id: NodeId) -> bool {
    id < s.len() && s[id as int].0 is Leaf
}

/// Whether `id` names a meta node of `s`.
pub open spec fn is_meta(s: Store, id: NodeId) -> bool {
    id < s.len() && s[id as int].0 is Meta
}

/// The tag of a value.
pub open spec fn kind_of_value(value: ValueView) -> ValueKind {
    match value {
        ValueView::Integer(_) => ValueKind::Integer,
        ValueView::String(_) => ValueKind::String,
        ValueView::List(_) => ValueKind::List,
    }
}

/// The tag that a leaf gets with the expression `expr`: that of a literal,
/// that of a referenced leaf, a string for an indirect reference, an integer
/// for an operation.
pub open spec fn kind_of_expr(s: Store, expr: ExprView) -> ValueKind {
    match expr {
        ExprView::Literal(value) => kind_of_value(value),
        ExprView::Reference(id) => if is_leaf(s, id) {
            s[id as int].0->Leaf_0.value_kind
        } else {
            ValueKind::Undefined
        },
        ExprView::IdentRef(_) => ValueKind::String,
        ExprView::InfixOp(_) => ValueKind::Integer,
    }
}

/// Why the leaf `id` cannot be edited, if it cannot.
pub open spec fn edit_error(s: Store, id: NodeId) -> Option<EditLeafError> {
    if id >= s.len() {
        Some(EditLeafError::NotExists)
    } else if !(s[id as int].0 is Leaf) {
        Some(EditLeafError::NotLeaf)
    } else {
        None
    }
}

/// The store after the leaf `id` was given the expression `expr`. The cache
/// of the leaf stays as it is.
pub open spec fn with_expr(s: Store, id: NodeId, expr: ExprView) -> Store
    recommends
        is_leaf(s, id),
{
    let leaf = s[id as int].0->Leaf_0;
    s.update(
        id as int,
        (
            NodeView::Leaf(
                LeafView { value_kind: kind_of_expr(s, expr), value: Some(expr), ..leaf },
            ),
            s[id as int].1,
        ),
    )
}

/// The store after `value` was written into the cache of the leaf or meta
/// node `id`. Nothing changes where `id` names a group or no node.
pub open spec fn with_cached(s: Store, id: NodeId, value: ValueView) -> Store {
    if id < s.len() {
        match s[id as int].0 {
            NodeView::Leaf(leaf) => s.update(
                id as int,
                (
                    NodeView::Leaf(LeafView { cached: Some(value), cache_valid: true, ..leaf }),
                    s[id as int].1,
                ),
            ),
            NodeView::Meta(meta) => s.update(
                id as int,
                (
                    NodeView::Meta(MetaView { cached: Some(value), cache_valid: true, ..meta }),
                    s[id as int].1,
                ),
            ),
            NodeView::Group(_) => s,
        }
    } else {
        s
    }
}

/// Whether a payload may take the place of another: a list of integers,
/// a list of expressions or a constraint replaces one of its own kind.
pub open spec fn same_kind(old_data: MetadataView, new_data: MetadataView) -> bool {
    ||| old_data is Sum && new_data is Sum
    ||| old_data is Concat && new_data is Concat
    ||| old_data is Constraint && new_data is Constraint
}

/// Whether the meta node `id` can take the payload `data`.
pub open spec fn takes_payload(s: Store, id: NodeId, data: MetadataView) -> bool {
    is_meta(s, id) && same_kind(s[id as int].0->Meta_0.data, data)
}

/// The store after the meta node `id` was given the payload `data`. The cache
/// of the node stays as it is.
pub open spec fn with_payload(s: Store, id: NodeId, data: MetadataView) -> Store
    recommends
        is_meta(s, id),
{
    let meta = s[id as int].0->Meta_0;
    s.update(id as int, (NodeView::Meta(MetaView { data, ..meta }), s[id as int].1))
}

/// A path leads to a node of the store.
pub proof fn lemma_resolve_bound(s: Store, path: Seq<char>, start: NodeId)
    ensures
        resolve(s, path, start) matches Some(id) ==> id < s.len(),
    decreases path.len(), (if is_group(s, start) { 0nat } else { 1nat }),
{
    if start < s.len() {
        match s[start as int].0 {
            NodeView::Meta(meta) => match meta.data {
                MetadataView::Common { inner } => {
                    if is_group(s, inner) {
                        lemma_resolve_bound(s, path, inner);
                    }
                },
                _ => {},
            },
            node => {
                lemma_find_named_some(s, namespace(node), head(path));
                match find_named(s, namespace(node), head(path)) {
                    None => {},
                    Some(id) => {
                        if !is_last(path) {
                            lemma_head_bounds(path);
                            lemma_resolve_bound(s, rest(path), id);
                        }
                    },
                }
            },
        }
    }
}

} // verus!
