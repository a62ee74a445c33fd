//! Laws of the store and of evaluation, proved from the definitions.

use vstd::prelude::*;
use crate::model::{
    Store, add_child_error, add_meta_error, common_inner, find_named, is_group, is_leaf, is_meta,
    lemma_find_named_concat, lemma_find_named_some, meta_id, namespace, resolve, with_expr,
    with_group, with_leaf, with_linked_child, with_meta,
};
use crate::node::{AddNodeError, EvalErrorView, MetadataStart, NodeView};
use crate::model::with_cached;
use crate::semantics::{
    Done, apply_op, eval_expr, eval_infix, eval_node, owner, plain, recorded, truncated_quotient,
    with_writes,
};
use crate::shape::{lemma_reserved_names, node_ok, well_formed};
use crate::text::{
    head, inner_name, is_last, lemma_head_len, lemma_last_iff_no_separator, rest, separator,
    valid_name,
};
use crate::value::{ExprView, InfixOpView, Integer, NodeId, OpKind, ValueView};

verus! {

/// A name without a separator is its own first segment.
pub proof fn lemma_name_is_segment(name: Seq<char>)
    requires
        !name.contains(separator()),
    ensures
        is_last(name),
        head(name) == name,
{
    lemma_last_iff_no_separator(name);
    assert(name.take(name.len() as int) =~= name);
}

/// A path of two or more segments leads where the rest of it leads from the
/// node that its first segment names.
pub proof fn law_resolve_splits(s: Store, name: Seq<char>, more: Seq<char>, start: NodeId)
    requires
        !name.contains(separator()),
    ensures
        resolve(s, name + seq![separator()] + more, start) == match resolve(s, name, start) {
            Some(id) => resolve(s, more, id),
            None => None,
        },
{
    let path = name + seq![separator()] + more;
    lemma_name_is_segment(name);
    assert forall|j: int| 0 <= j < name.len() implies path[j] != separator() by {
        assert(path[j] == name[j]);
        assert(name.contains(name[j]));
    }
    assert(path[name.len() as int] == separator());
    lemma_head_len(path, name.len() as int);
    assert(head(path) =~= name);
    assert(rest(path) =~= more);
    assert(!is_last(path));
    if start < s.len() {
        match common_inner(s, start) {
            Some(inner) => {
                if is_group(s, inner) {
                    assert(resolve(s, path, start) == resolve(s, path, inner));
                    assert(resolve(s, name, start) == resolve(s, name, inner));
                }
            },
            None => {},
        }
    }
}

/// The path that names one node after the other, with separators in between.
pub open spec fn dotted(names: Seq<Seq<char>>) -> Seq<char>
    recommends
        names.len() > 0,
    decreases names.len(),
{
    if names.len() <= 1 {
        names[0]
    } else {
        names[0] + seq![separator()] + dotted(names.drop_first())
    }
}

/// A chain of nodes, each found under the one before by its name, is
/// resolved in one go by the dotted path of the names, however long it is.
pub proof fn law_chain_resolves(
    s: Store,
    start: NodeId,
    names: Seq<Seq<char>>,
    ids: Seq<NodeId>,
)
    requires
        names.len() == ids.len(),
        names.len() > 0,
        forall|i: int| 0 <= i < names.len() ==> !(#[trigger] names[i]).contains(separator()),
        resolve(s, names[0], start) == Some(ids[0]),
        forall|i: int|
            0 < i < names.len() ==> resolve(s, #[trigger] names[i], ids[i - 1]) == Some(ids[i]),
    ensures
        resolve(s, dotted(names), start) == Some(ids.last()),
    decreases names.len(),
{
    if names.len() > 1 {
        let later_names = names.drop_first();
        let later_ids = ids.drop_first();
        assert forall|i: int| 0 <= i < later_names.len() implies !(
        #[trigger] later_names[i]).contains(separator()) by {
            assert(later_names[i] == names[i + 1]);
        }
        assert(resolve(s, later_names[0], ids[0]) == Some(later_ids[0])) by {
            assert(later_names[0] == names[1]);
        }
        assert forall|i: int| 0 < i < later_names.len() implies resolve(
            s,
            #[trigger] later_names[i],
            later_ids[i - 1],
        ) == Some(later_ids[i]) by {
            assert(later_names[i] == names[i + 1]);
        }
        law_chain_resolves(s, ids[0], later_names, later_ids);
        law_resolve_splits(s, names[0], dotted(later_names), start);
        assert(later_ids.last() == ids.last());
    }
}

/// A lookup that ends with the newcomer finds it, where nothing else that is
/// looked at carries the name.
proof fn lemma_find_new(s: Store, ids: Seq<NodeId>, name: Seq<char>, id: NodeId)
    requires
        id < s.len(),
        s[id as int].1 == name,
        forall|k: int|
            0 <= k < ids.len() && ids[k] < s.len() && s[#[trigger] ids[k] as int].1 == name
                ==> ids[k] == id,
    ensures
        find_named(s, ids.push(id), name) == Some(id),
    decreases ids.len(),
{
    let all = ids.push(id);
    if ids.len() == 0 {
        assert(all[0] == id);
    } else {
        assert(all[0] == ids[0]);
        if !(ids[0] < s.len() && s[ids[0] as int].1 == name) {
            let tail = ids.drop_first();
            assert(all.drop_first() =~= tail.push(id));
            assert forall|k: int|
                0 <= k < tail.len() && tail[k] < s.len() && s[#[trigger] tail[k] as int].1
                    == name implies tail[k] == id by {
                assert(tail[k] == ids[k + 1]);
            }
            lemma_find_new(s, tail, name, id);
        }
    }
}

/// A lookup in a store that grew finds what it found before, or the newcomer,
/// where the old nodes kept their names and nothing else carries the name.
proof fn lemma_find_grown(
    s: Store,
    grown: Store,
    ids: Seq<NodeId>,
    name: Seq<char>,
    id: NodeId,
)
    requires
        find_named(s, ids, name) is None,
        s.len() <= grown.len(),
        forall|i: int| 0 <= i < s.len() ==> (#[trigger] grown[i]).1 == s[i].1,
        forall|i: int| s.len() <= i < grown.len() && (#[trigger] grown[i]).1 == name ==> i == id,
    ensures
        forall|k: int|
            0 <= k < ids.len() && ids[k] < grown.len() && grown[#[trigger] ids[k] as int].1
                == name ==> ids[k] == id,
{
    lemma_find_named_some(s, ids, name);
    assert forall|k: int|
        0 <= k < ids.len() && ids[k] < grown.len() && grown[#[trigger] ids[k] as int].1
            == name implies ids[k] == id by {
        if ids[k] < s.len() {
            assert(grown[ids[k] as int].1 == s[ids[k] as int].1);
        }
    }
}

/// After a leaf was created under `parent`, its name leads to it from there.
pub proof fn law_leaf_is_found(s: Store, name: Seq<char>, parent: NodeId, deferred: bool)
    requires
        s.len() <= usize::MAX,
        add_child_error(s, name, parent) is None,
    ensures
        resolve(with_leaf(s, name, parent, deferred), name, parent) == Some(s.len() as NodeId),
{
    let grown = with_leaf(s, name, parent, deferred);
    assert(grown.take(s.len() as int) =~= with_linked_child(s, parent, s.len() as NodeId));
    lemma_child_is_found(s, grown, name, parent);
}

/// After a group was created under `parent`, its name leads to it from there.
pub proof fn law_group_is_found(s: Store, name: Seq<char>, parent: NodeId)
    requires
        s.len() <= usize::MAX,
        add_child_error(s, name, parent) is None,
    ensures
        resolve(with_group(s, name, parent), name, parent) == Some(s.len() as NodeId),
{
    let grown = with_group(s, name, parent);
    assert(grown.take(s.len() as int) =~= with_linked_child(s, parent, s.len() as NodeId));
    lemma_child_is_found(s, grown, name, parent);
}

/// The common part of the two laws above: `grown` is `s` with one more node,
/// called `name` and linked under `parent`.
proof fn lemma_child_is_found(s: Store, grown: Store, name: Seq<char>, parent: NodeId)
    requires
        s.len() <= usize::MAX,
        add_child_error(s, name, parent) is None,
        grown.len() == s.len() + 1,
        grown[s.len() as int].1 == name,
        grown.take(s.len() as int) == with_linked_child(s, parent, s.len() as NodeId),
    ensures
        resolve(grown, name, parent) == Some(s.len() as NodeId),
{
    let id = s.len() as NodeId;
    let linked = with_linked_child(s, parent, id);
    lemma_name_is_segment(name);
    assert forall|i: int| 0 <= i < s.len() implies #[trigger] grown[i] == linked[i] by {
        assert(grown.take(s.len() as int)[i] == grown[i]);
    }
    match common_inner(s, parent) {
        Some(inner) => {
            let group = s[inner as int].0->Group_0;
            let ids = group.children + group.metadata;
            assert(resolve(s, name, parent) == resolve(s, name, inner));
            assert(find_named(s, ids, name) is None);
            lemma_find_grown(s, grown, ids, name, id);
            lemma_find_new(grown, ids, name, id);
            assert(ids.push(id) =~= group.children + group.metadata.push(id));
            assert(grown[parent as int] == s[parent as int]);
            assert(namespace(grown[inner as int].0) == group.children + group.metadata.push(id));
            assert(is_group(grown, inner));
            assert(resolve(grown, name, inner) == Some(id));
        },
        None => {
            let group = s[parent as int].0->Group_0;
            assert(find_named(s, group.children + group.metadata, name) is None);
            lemma_find_named_concat(s, group.children, group.metadata, name);
            lemma_find_grown(s, grown, group.children, name, id);
            lemma_find_new(grown, group.children, name, id);
            lemma_find_named_concat(grown, group.children.push(id), group.metadata, name);
            assert(namespace(grown[parent as int].0) == group.children.push(id) + group.metadata);
        },
    }
}

/// After a meta node was attached to `parent`, its name leads to it from
/// there.
pub proof fn law_meta_is_found(s: Store, name: Seq<char>, parent: NodeId, start: MetadataStart)
    requires
        with_meta(s, name, parent, start).len() <= usize::MAX,
        add_meta_error(s, name, parent, start) is None,
    ensures
        resolve(with_meta(s, name, parent, start), name, parent) == Some(meta_id(s, start)),
{
    let grown = with_meta(s, name, parent, start);
    let id = meta_id(s, start);
    lemma_name_is_segment(name);
    if start is Common {
        let group = s[parent as int].0->Group_0;
        let ids = group.children + group.metadata;
        assert(find_named(s, ids, name) is None);
        lemma_find_grown(s, grown, ids, name, id);
        lemma_find_new(grown, ids, name, id);
        assert(ids.push(id) =~= group.children + group.metadata.push(id));
        assert(namespace(grown[parent as int].0) == group.children + group.metadata.push(id));
    } else {
        match common_inner(s, parent) {
            Some(inner) => {
                let group = s[inner as int].0->Group_0;
                let ids = group.children + group.metadata;
                assert(resolve(s, name, parent) == resolve(s, name, inner));
                assert(find_named(s, ids, name) is None);
                lemma_find_grown(s, grown, ids, name, id);
                lemma_find_new(grown, ids, name, id);
                assert(ids.push(id) =~= group.children + group.metadata.push(id));
                assert(grown[parent as int] == s[parent as int]);
                assert(namespace(grown[inner as int].0) == group.children + group.metadata.push(
                    id,
                ));
                assert(is_group(grown, inner));
                assert(resolve(grown, name, inner) == Some(id));
            },
            None => {
                let ids = namespace(s[parent as int].0);
                assert(find_named(s, ids, name) is None);
                lemma_find_grown(s, grown, ids, name, id);
                lemma_find_new(grown, ids, name, id);
                match s[parent as int].0 {
                    NodeView::Group(group) => {
                        assert(ids.push(id) =~= group.children + group.metadata.push(id));
                        assert(namespace(grown[parent as int].0) == group.children
                            + group.metadata.push(id));
                    },
                    NodeView::Leaf(leaf) => {
                        assert(namespace(grown[parent as int].0) == leaf.metadata.push(id));
                    },
                    NodeView::Meta(_) => {},
                }
            },
        }
    }
}

/// The identities among which a name is looked up from `parent`: its own
/// namespace, or that of the inner group where `parent` is a common meta node.
pub open spec fn visible_from(s: Store, parent: NodeId) -> Seq<NodeId> {
    if parent >= s.len() {
        Seq::empty()
    } else {
        match common_inner(s, parent) {
            Some(inner) => if is_group(s, inner) {
                namespace(s[inner as int].0)
            } else {
                Seq::empty()
            },
            None => namespace(s[parent as int].0),
        }
    }
}

/// Whether a node called `name` is visible from `parent`.
pub open spec fn name_taken(s: Store, name: Seq<char>, parent: NodeId) -> bool {
    exists|k: int|
        0 <= k < visible_from(s, parent).len() && visible_from(s, parent)[k] < s.len() && s[(
        #[trigger] visible_from(s, parent)[k]) as int].1 == name
}

/// A single name leads somewhere from `parent` exactly when it is taken
/// there.
pub proof fn law_name_resolves_iff_taken(s: Store, name: Seq<char>, parent: NodeId)
    requires
        !name.contains(separator()),
    ensures
        resolve(s, name, parent) is Some <==> name_taken(s, name, parent),
{
    lemma_name_is_segment(name);
    let ids = visible_from(s, parent);
    lemma_find_named_some(s, ids, name);
    if parent < s.len() {
        match common_inner(s, parent) {
            Some(inner) => {
                if is_group(s, inner) {
                    assert(resolve(s, name, parent) == resolve(s, name, inner));
                    assert(resolve(s, name, inner) == find_named(s, ids, name));
                }
            },
            None => {
                assert(resolve(s, name, parent) == find_named(s, ids, name));
            },
        }
    }
    if find_named(s, ids, name) is Some {
        let id = find_named(s, ids, name)->Some_0;
        let k = choose|k: int| 0 <= k < ids.len() && ids[k] == id;
        assert(ids[k] < s.len() && s[ids[k] as int].1 == name);
    }
}

/// Creating a node under a name that is taken under the parent fails with a
/// name conflict, whatever the kind of the node.
pub proof fn law_name_conflict(s: Store, name: Seq<char>, parent: NodeId, start: MetadataStart)
    requires
        well_formed(s),
        name_taken(s, name, parent),
    ensures
        add_child_error(s, name, parent) == Some(AddNodeError::NameConflict),
        add_meta_error(s, name, parent, start) == Some(AddNodeError::NameConflict),
{
    let ids = visible_from(s, parent);
    let k = choose|k: int|
        0 <= k < ids.len() && ids[k] < s.len() && s[(#[trigger] ids[k]) as int].1 == name;
    assert(!s[ids[k] as int].1.contains(separator()));
    law_name_resolves_iff_taken(s, name, parent);
}

/// Creating a node under a parent that does not exist fails with
/// `ParentNotExists`, where the name is valid.
pub proof fn law_parent_missing(s: Store, name: Seq<char>, parent: NodeId, start: MetadataStart)
    requires
        valid_name(name),
        parent >= s.len(),
    ensures
        add_child_error(s, name, parent) == Some(AddNodeError::ParentNotExists),
        add_meta_error(s, name, parent, start) == Some(AddNodeError::ParentNotExists),
{
}

/// Creating a leaf or a group under a leaf fails with `ParentIsLeaf`, where
/// the name is valid and not taken by a meta node of that leaf.
pub proof fn law_parent_is_leaf(s: Store, name: Seq<char>, parent: NodeId)
    requires
        valid_name(name),
        is_leaf(s, parent),
        !name_taken(s, name, parent),
    ensures
        add_child_error(s, name, parent) == Some(AddNodeError::ParentIsLeaf),
{
    law_name_resolves_iff_taken(s, name, parent);
}

/// Whether the node `id` answers from its cache.
pub open spec fn has_cache(s: Store, id: NodeId) -> bool {
    id < s.len() && match s[id as int].0 {
        NodeView::Leaf(leaf) => leaf.cache_valid && leaf.cached is Some,
        NodeView::Meta(meta) => meta.cache_valid && meta.cached is Some,
        NodeView::Group(_) => false,
    }
}

/// The value in the cache of the node `id`.
pub open spec fn cache_of(s: Store, id: NodeId) -> Option<ValueView> {
    match s[id as int].0 {
        NodeView::Leaf(leaf) => leaf.cached,
        NodeView::Meta(meta) => meta.cached,
        NodeView::Group(_) => None,
    }
}

/// A leaf that holds a literal and has nothing cached evaluates to the
/// literal, and that value is cached.
pub proof fn law_literal(s: Store, id: NodeId, value: ValueView, visited: Set<NodeId>)
    requires
        is_leaf(s, id),
        s[id as int].0->Leaf_0.value == Some(ExprView::Literal(value)),
        !has_cache(s, id),
        !visited.contains(id),
    ensures
        eval_node(s, id, visited) == Ok::<Done, EvalErrorView>(
            Done { value, writes: seq![(id, value)] },
        ),
{
    assert(eval_expr(s, ExprView::Literal(value), visited.insert(id)) == plain(value));
    assert(Seq::<(NodeId, ValueView)>::empty().push((id, value)) =~= seq![(id, value)]);
}

/// An operation on two integer literals evaluates to the result of the
/// operation, and fails with `InvalidType` where the operation has none.
pub proof fn law_infix_of_literals(
    s: Store,
    a: Integer,
    b: Integer,
    kind: OpKind,
    visited: Set<NodeId>,
)
    ensures
        eval_infix(
            s,
            InfixOpView {
                lhs: ExprView::Literal(ValueView::Integer(a)),
                rhs: ExprView::Literal(ValueView::Integer(b)),
                kind,
            },
            visited,
        ) == match apply_op(kind, a, b) {
            Some(result) => plain(ValueView::Integer(result)),
            None => Err(EvalErrorView::InvalidType),
        },
{
    let lhs = ExprView::Literal(ValueView::Integer(a));
    let rhs = ExprView::Literal(ValueView::Integer(b));
    assert(eval_expr(s, lhs, visited) == plain(ValueView::Integer(a)));
    assert(eval_expr(s, rhs, visited) == plain(ValueView::Integer(b)));
    assert(Seq::<(NodeId, ValueView)>::empty() + Seq::<(NodeId, ValueView)>::empty() =~= Seq::<
        (NodeId, ValueView),
    >::empty());
}

/// Sums, differences and products are exact where they fit in 64 bits.
pub proof fn law_exact_arithmetic(a: Integer, b: Integer)
    ensures
        i64::MIN <= a + b <= i64::MAX ==> apply_op(OpKind::Add, a, b) == Some((a + b) as Integer),
        i64::MIN <= a - b <= i64::MAX ==> apply_op(OpKind::Sub, a, b) == Some((a - b) as Integer),
        i64::MIN <= a * b <= i64::MAX ==> apply_op(OpKind::Mul, a, b) == Some((a * b) as Integer),
        apply_op(OpKind::Pow, a, b) == apply_op(OpKind::Mul, a, b),
{
    let product = a * b;
    if i64::MIN <= product <= i64::MAX {
        if product >= 0 {
            assert(product % 0x1_0000_0000_0000_0000 == product);
        } else {
            assert(product % 0x1_0000_0000_0000_0000 == product + 0x1_0000_0000_0000_0000);
        }
    }
}

/// A quotient is rounded toward zero: the remainder is smaller than the
/// divisor and has the sign of the dividend. It fits in 64 bits except for the
/// least integer divided by -1, and a zero divisor has no result.
pub proof fn law_quotient(a: Integer, b: Integer)
    ensures
        b == 0 ==> apply_op(OpKind::Div, a, b) is None,
        b != 0 ==> ({
            let q = truncated_quotient(a as int, b as int);
            let r = a - q * b;
            &&& a >= 0 ==> 0 <= r
            &&& a <= 0 ==> r <= 0
            &&& b > 0 ==> -b < r < b
            &&& b < 0 ==> b < r < -b
            &&& (i64::MIN <= q <= i64::MAX) <==> !(a == i64::MIN && b == -1)
            &&& !(a == i64::MIN && b == -1) ==> apply_op(OpKind::Div, a, b) == Some(q as Integer)
            &&& a == i64::MIN && b == -1 ==> apply_op(OpKind::Div, a, b) == Some(i64::MIN)
        }),
{
    if b != 0 {
        lemma_truncated_quotient(a as int, b as int);
    }
}

/// The remainder of a quotient rounded toward zero, and the size of the
/// quotient.
proof fn lemma_truncated_quotient(a: int, b: int)
    requires
        b != 0,
    ensures
        ({
            let q = truncated_quotient(a, b);
            let r = a - q * b;
            &&& a >= 0 ==> 0 <= r
            &&& a <= 0 ==> r <= 0
            &&& b > 0 ==> -b < r < b
            &&& b < 0 ==> b < r < -b
            &&& a >= 0 ==> -a <= q <= a
            &&& a <= 0 ==> a <= q <= -a
            &&& (a < 0 && b > 0) ==> q <= 0
            &&& (a < 0 && b < -1) ==> q < -a
            &&& b == -1 ==> q == -a
        }),
{
    let x = if a < 0 { -a } else { a };
    let d = if b < 0 { -b } else { b };
    let m = x / d;
    let p = d * m;
    vstd::arithmetic::div_mod::lemma_fundamental_div_mod(x, d);
    vstd::arithmetic::div_mod::lemma_mod_bound(x, d);
    assert(x == p + x % d);
    assert(m >= 0 && m <= x && (d >= 2 && x > 0 ==> m < x) && (d == 1 ==> m == x))
        by (nonlinear_arith)
        requires
            x == d * m + x % d,
            0 <= x % d < d,
            d >= 1,
            x >= 0,
    ;
    let q = truncated_quotient(a, b);
    if a == 0 {
        assert(q * b == 0) by (nonlinear_arith)
            requires
                q == 0,
        ;
    } else if a > 0 && b > 0 {
        assert(q * b == p) by (nonlinear_arith)
            requires
                q == m,
                b == d,
                p == d * m,
        ;
    } else if a < 0 && b < 0 {
        assert(q * b == -p) by (nonlinear_arith)
            requires
                q == m,
                b == -d,
                p == d * m,
        ;
    } else if a < 0 {
        assert(q * b == -p) by (nonlinear_arith)
            requires
                q == -m,
                b == d,
                p == d * m,
        ;
    } else {
        assert(q * b == p) by (nonlinear_arith)
            requires
                q == -m,
                b == -d,
                p == d * m,
        ;
    }
}

/// Two leaves that refer to each other have no value: evaluating either one
/// fails with `InfiniteRecursion`.
pub proof fn law_reference_cycle(s: Store, a: NodeId, b: NodeId, visited: Set<NodeId>)
    requires
        is_leaf(s, a),
        is_leaf(s, b),
        s[a as int].0->Leaf_0.value == Some(ExprView::Reference(b)),
        s[b as int].0->Leaf_0.value == Some(ExprView::Reference(a)),
        !has_cache(s, a),
        !has_cache(s, b),
        !visited.contains(a),
        !visited.contains(b),
    ensures
        eval_node(s, a, visited) == Err::<Done, EvalErrorView>(
            EvalErrorView::InfiniteRecursion(a),
        ),
        eval_node(s, b, visited) == Err::<Done, EvalErrorView>(
            EvalErrorView::InfiniteRecursion(b),
        ),
{
    lemma_cycle_from(s, a, b, visited);
    lemma_cycle_from(s, b, a, visited);
}

proof fn lemma_cycle_from(s: Store, a: NodeId, b: NodeId, visited: Set<NodeId>)
    requires
        is_leaf(s, a),
        is_leaf(s, b),
        s[a as int].0->Leaf_0.value == Some(ExprView::Reference(b)),
        s[b as int].0->Leaf_0.value == Some(ExprView::Reference(a)),
        !has_cache(s, a),
        !has_cache(s, b),
        !visited.contains(a),
        !visited.contains(b),
    ensures
        eval_node(s, a, visited) == Err::<Done, EvalErrorView>(
            EvalErrorView::InfiniteRecursion(a),
        ),
{
    let first = visited.insert(a);
    assert(eval_node(s, a, visited) == recorded(
        a,
        eval_expr(s, ExprView::Reference(b), first),
    ));
    assert(eval_expr(s, ExprView::Reference(b), first) == eval_node(s, b, first));
    if a == b {
        assert(first.contains(b));
    } else {
        let second = first.insert(b);
        assert(eval_node(s, b, first) == recorded(
            b,
            eval_expr(s, ExprView::Reference(a), second),
        ));
        assert(eval_expr(s, ExprView::Reference(a), second) == eval_node(s, a, second));
        assert(second.contains(a));
    }
}

/// A node that has a valid cache answers from it, whatever its expression or
/// payload has become.
pub proof fn law_cache_answers(s: Store, id: NodeId, visited: Set<NodeId>)
    requires
        has_cache(s, id),
        !visited.contains(id),
    ensures
        eval_node(s, id, visited) == plain(cache_of(s, id)->Some_0),
{
}

/// Giving a leaf a new expression does not invalidate its cache: a leaf that
/// has a valid cache keeps evaluating to the cached value.
pub proof fn law_stale_cache(s: Store, id: NodeId, expr: ExprView, visited: Set<NodeId>)
    requires
        is_leaf(s, id),
        has_cache(s, id),
        !visited.contains(id),
    ensures
        eval_node(with_expr(s, id, expr), id, visited) == eval_node(s, id, visited),
        eval_node(s, id, visited) == plain(cache_of(s, id)->Some_0),
{
}

/// Whether a user named the node `id`: it is a leaf, or a group that is not
/// the inner group of a common meta node.
pub open spec fn user_named(s: Store, id: NodeId) -> bool {
    id < s.len() && match s[id as int].0 {
        NodeView::Leaf(_) => true,
        NodeView::Group(_) => s[id as int].1 != inner_name(),
        NodeView::Meta(_) => false,
    }
}

/// In a well-formed store every node has an owner: the walk upward ends at a
/// node that a user named, and no parent is missing.
pub proof fn law_owner_exists(s: Store, id: NodeId)
    requires
        well_formed(s),
        id < s.len(),
    ensures
        owner(s, id) matches Ok(named) && user_named(s, named) && named <= id,
    decreases id,
{
    assert(node_ok(s, id as int));
    lemma_reserved_names();
    match s[id as int].0 {
        NodeView::Meta(meta) => {
            law_owner_exists(s, meta.parent);
        },
        NodeView::Group(group) => {
            if s[id as int].1 == inner_name() {
                law_owner_exists(s, group.parent->Some_0);
            }
        },
        NodeView::Leaf(_) => {},
    }
}

/// In a well-formed store an `Ident` meta node that has nothing cached
/// evaluates to the name of its owner.
pub proof fn law_ident(s: Store, id: NodeId, visited: Set<NodeId>)
    requires
        well_formed(s),
        is_meta(s, id),
        s[id as int].0->Meta_0.data is Ident,
        !has_cache(s, id),
        !visited.contains(id),
    ensures
        owner(s, id) is Ok,
        eval_node(s, id, visited) == recorded(
            id,
            plain(ValueView::String(s[owner(s, id)->Ok_0 as int].1)),
        ),
{
    law_owner_exists(s, id);
}

/// Writing caches changes neither the number of nodes nor the kind of any.
pub proof fn lemma_writes_keep_kinds(s: Store, writes: Seq<(NodeId, ValueView)>)
    ensures
        with_writes(s, writes).len() == s.len(),
        forall|i: NodeId|
            #![trigger is_leaf(with_writes(s, writes), i)]
            #![trigger is_meta(with_writes(s, writes), i)]
            is_leaf(with_writes(s, writes), i) == is_leaf(s, i) && is_meta(
                with_writes(s, writes),
                i,
            ) == is_meta(s, i),
    decreases writes.len(),
{
    if writes.len() > 0 {
        lemma_writes_keep_kinds(with_cached(s, writes[0].0, writes[0].1), writes.drop_first());
    }
}

/// Writing one more cache entry after the others.
pub proof fn lemma_writes_push(
    s: Store,
    writes: Seq<(NodeId, ValueView)>,
    id: NodeId,
    value: ValueView,
)
    ensures
        with_writes(s, writes.push((id, value))) == with_cached(
            with_writes(s, writes),
            id,
            value,
        ),
    decreases writes.len(),
{
    let all = writes.push((id, value));
    if writes.len() == 0 {
        assert(all.drop_first() =~= Seq::empty());
        assert(with_writes(s, all) == with_writes(with_cached(s, id, value), Seq::empty()));
    } else {
        assert(all.drop_first() =~= writes.drop_first().push((id, value)));
        lemma_writes_push(
            with_cached(s, writes[0].0, writes[0].1),
            writes.drop_first(),
            id,
            value,
        );
    }
}

/// A node that was evaluated has its value cached: once the cache entries of
/// a successful evaluation are written, the node answers from its cache.
pub proof fn law_eval_caches(s: Store, id: NodeId, visited: Set<NodeId>)
    requires
        eval_node(s, id, visited) is Ok,
    ensures
        ({
            let done = eval_node(s, id, visited)->Ok_0;
            let later = with_writes(s, done.writes);
            has_cache(later, id) && cache_of(later, id) == Some(done.value)
        }),
{
    let done = eval_node(s, id, visited)->Ok_0;
    if !has_cache(s, id) {
        let before = done.writes.drop_last();
        assert(done.writes =~= before.push((id, done.value)));
        lemma_writes_push(s, before, id, done.value);
        lemma_writes_keep_kinds(s, before);
        let middle = with_writes(s, before);
        assert(is_leaf(middle, id) == is_leaf(s, id));
        assert(is_meta(middle, id) == is_meta(s, id));
    }
}

/// A leaf that was evaluated keeps its value when it is given a new
/// expression: evaluated again, it answers with the value it had.
pub proof fn law_stale_after_eval(s: Store, id: NodeId, expr: ExprView)
    requires
        is_leaf(s, id),
        eval_node(s, id, Set::empty()) is Ok,
    ensures
        ({
            let done = eval_node(s, id, Set::empty())->Ok_0;
            let edited = with_expr(with_writes(s, done.writes), id, expr);
            eval_node(edited, id, Set::empty()) == plain(done.value)
        }),
{
    let done = eval_node(s, id, Set::<NodeId>::empty())->Ok_0;
    law_eval_caches(s, id, Set::empty());
    lemma_writes_keep_kinds(s, done.writes);
    let later = with_writes(s, done.writes);
    assert(is_leaf(later, id) == is_leaf(s, id));
    law_stale_cache(later, id, expr, Set::empty());
}

} // verus!
