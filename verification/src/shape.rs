//! The shape that every store built through the template has, and the proofs
//! that each operation keeps it.

use vstd::prelude::*;
use crate::laws::lemma_name_is_segment;
use crate::model::{
    Store, add_child_error, add_meta_error, common_inner, find_named, is_group, is_leaf,
    lemma_find_named_some, meta_id, namespace, resolve, takes_payload, with_cached, with_expr,
    with_group, with_leaf, with_linked_child, with_meta, with_payload,
};
use crate::node::{MetadataStart, MetadataView, NodeView};
use crate::semantics::with_writes;
use crate::template::new_store;
use crate::text::{inner_name, root_name, separator};
use crate::value::{ExprView, NodeId, ValueView};

verus! {

/// The reserved names hold no separator, and differ.
pub proof fn lemma_reserved_names()
    ensures
        !inner_name().contains(separator()),
        !root_name().contains(separator()),
        root_name() != inner_name(),
{
    reveal_strlit("[COMMON INNER]");
    reveal_strlit("[THE MOTHER]");
    assert(inner_name().len() == 14);
    assert(root_name().len() == 12);
    assert forall|i: int| 0 <= i < inner_name().len() implies inner_name()[i] != separator() by {
    }
    assert forall|i: int| 0 <= i < root_name().len() implies root_name()[i] != separator() by {
    }
}

/// Whether every one of `ids` names a node of a store with `n` nodes.
pub open spec fn links_in(ids: Seq<NodeId>, n: nat) -> bool {
    forall|k: int| 0 <= k < ids.len() ==> #[trigger] ids[k] < n
}

/// Whether the nodes that `ids` name are called differently, each from every
/// other.
pub open spec fn distinct_names(s: Store, ids: Seq<NodeId>) -> bool {
    forall|j: int, k: int|
        #![trigger ids[j], ids[k]]
        0 <= j < k < ids.len() ==> s[ids[j] as int].1 != s[ids[k] as int].1
}

/// Whether the node `i` is as the store's operations leave it: it knows its
/// own identity, its parent was created before it, its links lead to nodes
/// of the store, and no two nodes of its namespace share a name. Only the
/// root has no parent. The inner group of a common meta node was created
/// before the node.
pub open spec fn node_ok(s: Store, i: int) -> bool {
    &&& distinct_names(s, namespace(s[i].0))
    &&& node_linked(s, i)
}

/// The part of [`node_ok`] that is about identities and links.
pub open spec fn node_linked(s: Store, i: int) -> bool {
    match s[i].0 {
        NodeView::Leaf(leaf) => {
            &&& leaf.id == i
            &&& leaf.parent matches Some(parent) && parent < i
            &&& links_in(leaf.metadata, s.len())
        },
        NodeView::Group(group) => {
            &&& group.id == i
            &&& if i == 0 {
                group.parent is None
            } else {
                group.parent matches Some(parent) && parent < i
            }
            &&& links_in(group.children, s.len())
            &&& links_in(group.metadata, s.len())
            &&& group.common matches Some(common) ==> common_inner(s, common) is Some
        },
        NodeView::Meta(meta) => {
            &&& meta.id == i
            &&& meta.parent < i
            &&& meta.data matches MetadataView::Common { inner } ==> inner < i && is_group(
                s,
                inner,
            )
        },
    }
}

/// The shape of a store: the root group comes first, every node is in order,
/// no name holds a separator, and the names in a namespace differ.
pub open spec fn well_formed(s: Store) -> bool {
    &&& 1 <= s.len() <= usize::MAX
    &&& s[0].0 is Group
    &&& s[0].1 == root_name()
    &&& forall|i: int| 0 <= i < s.len() ==> #[trigger] node_ok(s, i)
    &&& forall|i: int| 0 <= i < s.len() ==> !(#[trigger] s[i]).1.contains(separator())
}

/// One store continues another: no node is gone, and each has kept its
/// kind, its name and its parent.
pub open spec fn continues(s: Store, later: Store) -> bool {
    &&& s.len() <= later.len()
    &&& forall|i: int|
        0 <= i < s.len() ==> {
            &&& (#[trigger] later[i]).1 == s[i].1
            &&& parent_of(later[i].0) == parent_of(s[i].0)
            &&& later[i].0 is Leaf == s[i].0 is Leaf
            &&& later[i].0 is Group == s[i].0 is Group
            &&& later[i].0 is Meta == s[i].0 is Meta
        }
}

/// The parent that a node records.
pub open spec fn parent_of(node: NodeView) -> Option<NodeId> {
    match node {
        NodeView::Leaf(leaf) => leaf.parent,
        NodeView::Group(group) => group.parent,
        NodeView::Meta(meta) => Some(meta.parent),
    }
}

/// The namespace of a node that is in order leads to nodes of the store.
proof fn lemma_links_of_namespace(s: Store, i: int)
    requires
        0 <= i < s.len(),
        node_linked(s, i),
    ensures
        links_in(namespace(s[i].0), s.len()),
{
    match s[i].0 {
        NodeView::Group(group) => {
            assert forall|k: int| 0 <= k < (group.children + group.metadata).len() implies (
            #[trigger] (group.children + group.metadata)[k]) < s.len() by {
                if k < group.children.len() {
                    assert(group.children[k] < s.len());
                } else {
                    assert(group.metadata[k - group.children.len()] < s.len());
                }
            }
        },
        _ => {},
    }
}

/// Names that differ keep differing where every node keeps its name.
proof fn lemma_distinct_kept(s: Store, later: Store, ids: Seq<NodeId>)
    requires
        s.len() <= later.len(),
        forall|i: int| 0 <= i < s.len() ==> (#[trigger] later[i]).1 == s[i].1,
        links_in(ids, s.len()),
        distinct_names(s, ids),
    ensures
        distinct_names(later, ids),
{
    assert forall|j: int, k: int|
        #![trigger ids[j], ids[k]]
        0 <= j < k < ids.len() implies later[ids[j] as int].1 != later[ids[k] as int].1 by {
        assert(ids[j] < s.len() && ids[k] < s.len());
        assert(later[ids[j] as int].1 == s[ids[j] as int].1);
        assert(later[ids[k] as int].1 == s[ids[k] as int].1);
    }
}

/// A namespace takes a node whose name none of its nodes carries, at the end
/// of either of its two lists.
proof fn lemma_distinct_extended(s: Store, first: Seq<NodeId>, second: Seq<NodeId>, id: NodeId)
    requires
        distinct_names(s, first + second),
        forall|k: int|
            0 <= k < (first + second).len() ==> s[(#[trigger] (first + second)[k]) as int].1
                != s[id as int].1,
    ensures
        distinct_names(s, first.push(id) + second),
        distinct_names(s, first + second.push(id)),
{
    let old_ids = first + second;
    let middle = first.push(id) + second;
    let end = first + second.push(id);
    assert forall|j: int, k: int|
        #![trigger middle[j], middle[k]]
        0 <= j < k < middle.len() implies s[middle[j] as int].1 != s[middle[k] as int].1 by {
        let a = first.len() as int;
        if j < a && k < a {
            assert(middle[j] == old_ids[j] && middle[k] == old_ids[k]);
        } else if j < a && k == a {
            assert(middle[j] == old_ids[j] && middle[k] == id);
        } else if j < a {
            assert(middle[j] == old_ids[j] && middle[k] == old_ids[k - 1]);
        } else if j == a {
            assert(middle[j] == id && middle[k] == old_ids[k - 1]);
        } else {
            assert(middle[j] == old_ids[j - 1] && middle[k] == old_ids[k - 1]);
        }
    }
    assert forall|j: int, k: int|
        #![trigger end[j], end[k]]
        0 <= j < k < end.len() implies s[end[j] as int].1 != s[end[k] as int].1 by {
        if k < old_ids.len() {
            assert(end[j] == old_ids[j] && end[k] == old_ids[k]);
        } else {
            assert(end[j] == old_ids[j] && end[k] == id);
        }
    }
}

/// Where a single name leads nowhere from a group or a leaf, no node of the
/// namespace carries it.
proof fn lemma_free_name(s: Store, later: Store, at: NodeId, name: Seq<char>)
    requires
        at < s.len(),
        !(s[at as int].0 is Meta),
        node_linked(s, at as int),
        !name.contains(separator()),
        resolve(s, name, at) is None,
        s.len() <= later.len(),
        forall|i: int| 0 <= i < s.len() ==> (#[trigger] later[i]).1 == s[i].1,
    ensures
        forall|k: int|
            0 <= k < namespace(s[at as int].0).len() ==> later[(#[trigger] namespace(
                s[at as int].0,
            )[k]) as int].1 != name,
{
    let ids = namespace(s[at as int].0);
    lemma_name_is_segment(name);
    lemma_links_of_namespace(s, at as int);
    lemma_find_named_some(s, ids, name);
    assert(find_named(s, ids, name) is None);
    assert forall|k: int| 0 <= k < ids.len() implies later[(#[trigger] ids[k]) as int].1
        != name by {
        assert(ids[k] < s.len());
        assert(later[ids[k] as int].1 == s[ids[k] as int].1);
    }
}

/// A new template is well formed.
pub proof fn law_new_is_well_formed()
    ensures
        well_formed(new_store()),
{
    lemma_reserved_names();
    assert(node_ok(new_store(), 0));
}

/// A node that was in order stays so when the store grows around it, as long
/// as the nodes it points at keep their kind.
proof fn lemma_node_stays_ok(s: Store, later: Store, i: int)
    requires
        0 <= i < s.len(),
        node_ok(s, i),
        continues(s, later),
        later[i].0 == s[i].0,
        forall|c: NodeId| common_inner(s, c) is Some ==> common_inner(later, c) is Some,
    ensures
        node_ok(later, i),
{
    lemma_links_of_namespace(s, i);
    lemma_distinct_kept(s, later, namespace(s[i].0));
    match s[i].0 {
        NodeView::Group(group) => {
            if group.common is Some {
                assert(common_inner(later, group.common->Some_0) is Some);
            }
        },
        NodeView::Meta(meta) => {
            if let MetadataView::Common { inner } = meta.data {
                assert(later[inner as int].0 is Group);
            }
        },
        NodeView::Leaf(_) => {},
    }
}

/// Creating a leaf keeps the store well formed and continues it.
pub proof fn law_leaf_keeps_shape(s: Store, name: Seq<char>, parent: NodeId, deferred: bool)
    requires
        well_formed(s),
        s.len() < usize::MAX,
        add_child_error(s, name, parent) is None,
    ensures
        well_formed(with_leaf(s, name, parent, deferred)),
        continues(s, with_leaf(s, name, parent, deferred)),
{
    let later = with_leaf(s, name, parent, deferred);
    assert(later.take(s.len() as int) =~= with_linked_child(s, parent, s.len() as NodeId));
    lemma_linked_keeps_shape(s, later, parent);
    assert(node_ok(later, s.len() as int));
}

/// Creating a group keeps the store well formed and continues it.
pub proof fn law_group_keeps_shape(s: Store, name: Seq<char>, parent: NodeId)
    requires
        well_formed(s),
        s.len() < usize::MAX,
        add_child_error(s, name, parent) is None,
    ensures
        well_formed(with_group(s, name, parent)),
        continues(s, with_group(s, name, parent)),
{
    let later = with_group(s, name, parent);
    assert(later.take(s.len() as int) =~= with_linked_child(s, parent, s.len() as NodeId));
    lemma_linked_keeps_shape(s, later, parent);
    assert(node_ok(later, s.len() as int));
}

/// What the two laws above share: the old nodes of a store that took one more
/// node under `parent` are in order.
proof fn lemma_linked_keeps_shape(s: Store, later: Store, parent: NodeId)
    requires
        well_formed(s),
        s.len() < usize::MAX,
        add_child_error(s, later[s.len() as int].1, parent) is None,
        later.len() == s.len() + 1,
        later.take(s.len() as int) == with_linked_child(s, parent, s.len() as NodeId),
        !(later[s.len() as int].0 is Meta),
    ensures
        continues(s, later),
        forall|i: int| 0 <= i < s.len() ==> #[trigger] node_ok(later, i),
{
    let id = s.len() as NodeId;
    let linked = with_linked_child(s, parent, id);
    let at = match common_inner(s, parent) {
        Some(inner) => inner,
        None => parent,
    };
    assert forall|i: int| 0 <= i < s.len() implies #[trigger] later[i] == linked[i] by {
        assert(later.take(s.len() as int)[i] == later[i]);
    }
    assert(continues(s, later));
    assert forall|c: NodeId| common_inner(s, c) is Some implies common_inner(later, c) is Some by {
        assert(later[c as int] == linked[c as int]);
    }
    assert forall|i: int| 0 <= i < s.len() implies #[trigger] node_ok(later, i) by {
        assert(node_ok(s, i));
        if i == at {
            assert(node_ok(s, at as int));
            let group = s[at as int].0->Group_0;
            if group.common is Some {
                assert(common_inner(later, group.common->Some_0) is Some);
            }
            let name = later[s.len() as int].1;
            assert(resolve(s, name, parent) == resolve(s, name, at));
            lemma_links_of_namespace(s, at as int);
            lemma_distinct_kept(s, later, group.children + group.metadata);
            lemma_free_name(s, later, at, name);
            lemma_distinct_extended(later, group.children, group.metadata, id);
        } else {
            lemma_node_stays_ok(s, later, i);
        }
    }
}

/// Attaching a meta node keeps the store well formed and continues it.
pub proof fn law_meta_keeps_shape(s: Store, name: Seq<char>, parent: NodeId, start: MetadataStart)
    requires
        well_formed(s),
        with_meta(s, name, parent, start).len() <= usize::MAX,
        add_meta_error(s, name, parent, start) is None,
    ensures
        well_formed(with_meta(s, name, parent, start)),
        continues(s, with_meta(s, name, parent, start)),
{
    let later = with_meta(s, name, parent, start);
    lemma_reserved_names();
    let at = if start is Common {
        parent
    } else {
        match common_inner(s, parent) {
            Some(inner) => inner,
            None => parent,
        }
    };
    assert(continues(s, later));
    assert forall|c: NodeId| common_inner(s, c) is Some implies common_inner(later, c) is Some by {
        assert(later[c as int].0 is Meta);
    }
    assert forall|i: int| 0 <= i < later.len() implies #[trigger] node_ok(later, i) by {
        if i < s.len() {
            assert(node_ok(s, i));
            if i == at {
                let id = meta_id(s, start);
                assert(later[id as int].1 == name);
                assert(resolve(s, name, parent) == resolve(s, name, at));
                lemma_links_of_namespace(s, at as int);
                lemma_free_name(s, later, at, name);
                match s[at as int].0 {
                    NodeView::Group(group) => {
                        if start is Common {
                            assert(common_inner(later, (s.len() + 1) as NodeId) is Some);
                        } else if group.common is Some {
                            assert(common_inner(later, group.common->Some_0) is Some);
                        }
                        lemma_distinct_kept(s, later, group.children + group.metadata);
                        lemma_distinct_extended(later, group.children, group.metadata, id);
                    },
                    NodeView::Leaf(leaf) => {
                        assert(Seq::<NodeId>::empty() + leaf.metadata =~= leaf.metadata);
                        assert(Seq::<NodeId>::empty() + leaf.metadata.push(id)
                            =~= leaf.metadata.push(id));
                        lemma_distinct_kept(s, later, leaf.metadata);
                        lemma_distinct_extended(later, Seq::empty(), leaf.metadata, id);
                    },
                    NodeView::Meta(_) => {},
                }
            } else {
                lemma_node_stays_ok(s, later, i);
            }
        }
    }
}

/// Giving a leaf an expression keeps the store well formed and continues it.
pub proof fn law_expr_keeps_shape(s: Store, id: NodeId, expr: ExprView)
    requires
        well_formed(s),
        is_leaf(s, id),
    ensures
        well_formed(with_expr(s, id, expr)),
        continues(s, with_expr(s, id, expr)),
{
    let later = with_expr(s, id, expr);
    assert(node_ok(s, id as int));
    lemma_same_links_keep_shape(s, later, id);
}

/// Writing a cache keeps the store well formed and continues it.
pub proof fn law_cache_keeps_shape(s: Store, id: NodeId, value: ValueView)
    requires
        well_formed(s),
    ensures
        well_formed(with_cached(s, id, value)),
        continues(s, with_cached(s, id, value)),
{
    let later = with_cached(s, id, value);
    if id < s.len() {
        assert(node_ok(s, id as int));
        match s[id as int].0 {
            NodeView::Meta(meta) => {
                if let MetadataView::Common { inner } = meta.data {
                    assert(later[inner as int] == s[inner as int]);
                }
            },
            _ => {},
        }
        lemma_same_links_keep_shape(s, later, id);
    }
}

/// Writing caches one after the other keeps the store well formed and
/// continues it.
pub proof fn law_writes_keep_shape(s: Store, writes: Seq<(NodeId, ValueView)>)
    requires
        well_formed(s),
    ensures
        well_formed(with_writes(s, writes)),
        continues(s, with_writes(s, writes)),
    decreases writes.len(),
{
    if writes.len() > 0 {
        let next = with_cached(s, writes[0].0, writes[0].1);
        law_cache_keeps_shape(s, writes[0].0, writes[0].1);
        law_writes_keep_shape(next, writes.drop_first());
    }
}

/// Replacing the payload of a meta node keeps the store well formed and
/// continues it.
pub proof fn law_payload_keeps_shape(s: Store, id: NodeId, data: MetadataView)
    requires
        well_formed(s),
        takes_payload(s, id, data),
    ensures
        well_formed(with_payload(s, id, data)),
        continues(s, with_payload(s, id, data)),
{
    let later = with_payload(s, id, data);
    assert(node_ok(s, id as int));
    lemma_same_links_keep_shape(s, later, id);
}

/// A store in which one node changed, but neither its kind, its links nor
/// what it is to a common meta node, is as well formed as it was.
proof fn lemma_same_links_keep_shape(s: Store, later: Store, id: NodeId)
    requires
        well_formed(s),
        id < s.len(),
        later.len() == s.len(),
        forall|i: int| 0 <= i < s.len() && i != id ==> #[trigger] later[i] == s[i],
        later[id as int].1 == s[id as int].1,
        node_ok(later, id as int),
        parent_of(later[id as int].0) == parent_of(s[id as int].0),
        later[id as int].0 is Leaf == s[id as int].0 is Leaf,
        later[id as int].0 is Group == s[id as int].0 is Group,
        later[id as int].0 is Meta == s[id as int].0 is Meta,
        common_inner(later, id) == common_inner(s, id),
    ensures
        well_formed(later),
        continues(s, later),
{
    assert forall|c: NodeId| common_inner(s, c) is Some implies common_inner(later, c) is Some by {
        if c != id {
            assert(later[c as int] == s[c as int]);
        }
    }
    assert forall|i: int| 0 <= i < later.len() implies #[trigger] node_ok(later, i) by {
        if i != id {
            assert(node_ok(s, i));
            lemma_node_stays_ok(s, later, i);
        }
    }
    assert forall|i: int| 0 <= i < later.len() implies !(#[trigger] later[i]).1.contains(
        separator(),
    ) by {
        assert(later[i].1 == s[i].1);
    }
}

} // verus!
