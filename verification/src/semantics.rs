//! What evaluation means: the value of a node or an expression in a store,
//! as mathematical functions of the store.

use vstd::prelude::*;
use crate::model::{Store, resolve, with_cached};
use crate::node::{EvalErrorView, MetadataView, NodeView};
use crate::text::inner_name;
use crate::value::{ExprView, InfixOpView, Integer, NodeId, OpKind, ValueView};

verus! {

/// A successful evaluation: the value, and the cache entries that it leaves
/// behind, one for each node that was computed on the way, in the order in
/// which they were finished.
pub struct Done {
    pub value: ValueView,
    pub writes: Seq<(NodeId, ValueView)>,
}

/// How an evaluation ends.
pub type Outcome = Result<Done, EvalErrorView>;

/// The quotient of `a` by `b`, rounded toward zero.
pub open spec fn truncated_quotient(a: int, b: int) -> int
    recommends
        b != 0,
{
    if a == 0 {
        0
    } else if a > 0 && b > 0 {
        a / b
    } else if a < 0 && b < 0 {
        (-a) / (-b)
    } else if a < 0 {
        -((-a) / b)
    } else {
        -(a / (-b))
    }
}

/// The result of an integer operation, if it has one.
///
/// Sums, differences and products wrap around in two's complement. `Pow`
/// multiplies. A quotient is rounded toward zero, and wraps in the one case
/// that overflows; a zero divisor has no result. `Neg` is reserved and has no
/// result either.
pub open spec fn apply_op(kind: OpKind, a: Integer, b: Integer) -> Option<Integer> {
    match kind {
        OpKind::Add => Some(vstd::wrapping::i64_specs::wrapping_add(a, b)),
        OpKind::Sub => Some(vstd::wrapping::i64_specs::wrapping_sub(a, b)),
        OpKind::Mul => Some(vstd::wrapping::i64_specs::wrapping_mul(a, b)),
        OpKind::Pow => Some(vstd::wrapping::i64_specs::wrapping_mul(a, b)),
        OpKind::Div => if b == 0 {
            None
        } else if i64::MIN <= truncated_quotient(a as int, b as int) <= i64::MAX {
            Some(truncated_quotient(a as int, b as int) as Integer)
        } else {
            Some(i64::MIN)
        },
        OpKind::Neg => None,
    }
}

/// The sum of `elements`, wrapping around in two's complement.
pub open spec fn wrapping_sum(elements: Seq<Integer>) -> Integer
    decreases elements.len(),
{
    if elements.len() == 0 {
        0
    } else {
        vstd::wrapping::i64_specs::wrapping_add(
            wrapping_sum(elements.drop_last()),
            elements.last(),
        )
    }
}

/// The nearest node, from `id` upward, that a user named: meta nodes are
/// passed over, and so is the inner group of a common meta node.
///
/// Identities are handed out in creation order, so a parent comes before its
/// children; a parent link that leads anywhere else counts as missing.
pub open spec fn owner(s: Store, id: NodeId) -> Result<NodeId, EvalErrorView>
    decreases id,
{
    if id >= s.len() {
        Err(EvalErrorView::MissingParent(id))
    } else {
        match s[id as int].0 {
            NodeView::Meta(meta) => if meta.parent < id {
                owner(s, meta.parent)
            } else {
                Err(EvalErrorView::MissingParent(id))
            },
            NodeView::Group(group) => if s[id as int].1 == inner_name() {
                match group.parent {
                    Some(parent) => if parent < id {
                        owner(s, parent)
                    } else {
                        Err(EvalErrorView::MissingParent(id))
                    },
                    None => Err(EvalErrorView::MissingParent(id)),
                }
            } else {
                Ok(id)
            },
            NodeView::Leaf(_) => Ok(id),
        }
    }
}

/// The nodes below `n` that are not in `visited`.
pub open spec fn unvisited(n: nat, visited: Set<NodeId>) -> Set<NodeId> {
    Set::new(|id: NodeId| id < n && !visited.contains(id))
}

/// How many nodes an evaluation can still enter.
pub open spec fn budget(n: nat, visited: Set<NodeId>) -> nat {
    unvisited(n, visited).len()
}

proof fn lemma_unvisited_finite(n: nat, visited: Set<NodeId>)
    ensures
        unvisited(n, visited).finite(),
    decreases n,
{
    if n == 0 {
        assert(unvisited(n, visited) =~= Set::empty());
    } else {
        let m = (n - 1) as nat;
        lemma_unvisited_finite(m, visited);
        if m <= usize::MAX && !visited.contains(m as NodeId) {
            assert(unvisited(n, visited) =~= unvisited(m, visited).insert(m as NodeId));
        } else {
            assert(unvisited(n, visited) =~= unvisited(m, visited));
        }
    }
}

/// Entering a node that was not visited uses up budget.
pub proof fn lemma_visit(n: nat, visited: Set<NodeId>, id: NodeId)
    requires
        id < n,
        !visited.contains(id),
    ensures
        budget(n, visited.insert(id)) < budget(n, visited),
{
    lemma_unvisited_finite(n, visited);
    assert(unvisited(n, visited.insert(id)) =~= unvisited(n, visited).remove(id));
    vstd::set::axiom_set_remove_len(unvisited(n, visited), id);
}

/// A result with one more cache entry: that of the node `id`, which has just
/// been computed.
pub open spec fn recorded(id: NodeId, outcome: Outcome) -> Outcome {
    match outcome {
        Ok(done) => Ok(Done { value: done.value, writes: done.writes.push((id, done.value)) }),
        Err(e) => Err(e),
    }
}

/// A value that needed no computation.
pub open spec fn plain(value: ValueView) -> Outcome {
    Ok(Done { value, writes: Seq::empty() })
}

/// How joining the string values of a list of expressions can fail.
pub enum JoinError {
    /// An element has a value that is no string
    NotAString,
    /// An element has no value
    Failed(EvalErrorView),
}

/// The text that a list of expressions joins to, with the cache entries.
pub struct Joined {
    pub text: Seq<char>,
    pub writes: Seq<(NodeId, ValueView)>,
}

/// The value of the node `id`, while the nodes in `visited` are being
/// evaluated further up.
///
/// A node in `visited` depends on itself. A group has no value. A leaf or a
/// meta node with a valid cache answers from it; otherwise a leaf has the
/// value of its expression, and a meta node that of its payload.
pub open spec fn eval_node(s: Store, id: NodeId, visited: Set<NodeId>) -> Outcome
    decreases budget(s.len(), visited), 0nat, ExprView::Reference(id),
{
    if visited.contains(id) {
        Err(EvalErrorView::InfiniteRecursion(id))
    } else if id >= s.len() {
        Err(EvalErrorView::MissingDependency(id))
    } else {
        proof {
            lemma_visit(s.len(), visited, id);
        }
        match s[id as int].0 {
            NodeView::Group(_) => Err(EvalErrorView::NotALeaf(id)),
            NodeView::Leaf(leaf) => if leaf.cache_valid && leaf.cached is Some {
                plain(leaf.cached->Some_0)
            } else {
                match leaf.value {
                    Some(expr) => recorded(id, eval_expr(s, expr, visited.insert(id))),
                    None => Err(EvalErrorView::MissingInfo(id)),
                }
            },
            NodeView::Meta(meta) => if meta.cache_valid && meta.cached is Some {
                plain(meta.cached->Some_0)
            } else {
                match meta.data {
                    MetadataView::Common { inner } => Err(EvalErrorView::MetaType(id)),
                    MetadataView::Constraint(_) => Err(EvalErrorView::MetaType(id)),
                    MetadataView::Sum(elements) => recorded(
                        id,
                        plain(ValueView::Integer(wrapping_sum(elements))),
                    ),
                    MetadataView::Ident => match owner(s, id) {
                        Ok(named) => recorded(id, plain(ValueView::String(s[named as int].1))),
                        Err(e) => Err(e),
                    },
                    MetadataView::Concat(elements) => match eval_concat(
                        s,
                        elements,
                        visited.insert(id),
                    ) {
                        Ok(joined) => recorded(
                            id,
                            Ok(
                                Done {
                                    value: ValueView::String(joined.text),
                                    writes: joined.writes,
                                },
                            ),
                        ),
                        Err(JoinError::NotAString) => Err(EvalErrorView::InvalidType),
                        Err(JoinError::Failed(e)) => Err(e),
                    },
                }
            },
        }
    }
}

/// The value of the expression `expr`, while the nodes in `visited` are being
/// evaluated further up.
pub open spec fn eval_expr(s: Store, expr: ExprView, visited: Set<NodeId>) -> Outcome
    decreases budget(s.len(), visited), 1nat, expr,
{
    match expr {
        ExprView::Literal(value) => plain(value),
        ExprView::Reference(id) => eval_node(s, id, visited),
        ExprView::IdentRef(id) => match eval_node(s, id, visited) {
            Err(e) => Err(e),
            Ok(named) => match named.value {
                ValueView::String(path) => match resolve(s, path, 0) {
                    Some(target) => match eval_node(s, target, visited) {
                        Ok(done) => Ok(
                            Done { value: done.value, writes: named.writes + done.writes },
                        ),
                        Err(e) => Err(e),
                    },
                    None => Err(EvalErrorView::MissingPathDependency(path)),
                },
                _ => Err(EvalErrorView::InvalidIdentRef(id)),
            },
        },
        ExprView::InfixOp(op) => eval_infix(s, *op, visited),
    }
}

/// The value of the operation `op`: both operands are evaluated, the left one
/// first, and both must be integers.
pub open spec fn eval_infix(s: Store, op: InfixOpView, visited: Set<NodeId>) -> Outcome
    decreases budget(s.len(), visited), 1nat, op,
{
    if op.kind is Neg {
        Err(EvalErrorView::InvalidType)
    } else {
        match eval_expr(s, op.lhs, visited) {
            Err(e) => Err(e),
            Ok(lhs) => match eval_expr(s, op.rhs, visited) {
                Err(e) => Err(e),
                Ok(rhs) => match (lhs.value, rhs.value) {
                    (ValueView::Integer(a), ValueView::Integer(b)) => match apply_op(
                        op.kind,
                        a,
                        b,
                    ) {
                        Some(result) => Ok(
                            Done {
                                value: ValueView::Integer(result),
                                writes: lhs.writes + rhs.writes,
                            },
                        ),
                        None => Err(EvalErrorView::InvalidType),
                    },
                    _ => Err(EvalErrorView::InvalidType),
                },
            },
        }
    }
}

/// The string values of `elements`, joined in order with nothing in between.
pub open spec fn eval_concat(s: Store, elements: Seq<ExprView>, visited: Set<NodeId>) -> Result<
    Joined,
    JoinError,
>
    decreases budget(s.len(), visited), 1nat, elements,
{
    if elements.len() == 0 {
        Ok(Joined { text: Seq::empty(), writes: Seq::empty() })
    } else {
        match eval_expr(s, elements[0], visited) {
            Err(e) => Err(JoinError::Failed(e)),
            Ok(first) => match first.value {
                ValueView::String(text) => match eval_concat(s, elements.drop_first(), visited) {
                    Ok(more) => Ok(
                        Joined { text: text + more.text, writes: first.writes + more.writes },
                    ),
                    Err(e) => Err(e),
                },
                _ => Err(JoinError::NotAString),
            },
        }
    }
}

/// The store after the cache entries `writes` were written, in order.
pub open spec fn with_writes(s: Store, writes: Seq<(NodeId, ValueView)>) -> Store
    decreases writes.len(),
{
    if writes.len() == 0 {
        s
    } else {
        with_writes(with_cached(s, writes[0].0, writes[0].1), writes.drop_first())
    }
}

} // verus!
