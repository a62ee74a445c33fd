//! The evaluator: it computes the value of a node or an expression, follows
//! references, refuses dependency cycles and records what it computed.

use vstd::prelude::*;
use vstd::string::*;
use crate::model::Store;
use crate::node::{
    EvalError, EvalErrorView, EvalMetaStatus, EvalMetaStatusView, Metadata, MetadataView, Node,
};
use crate::semantics::{
    JoinError, Joined, Outcome, apply_op, budget, eval_concat, eval_expr, eval_infix, eval_node,
    lemma_visit, owner, with_writes, wrapping_sum,
};
use crate::template::Template;
use crate::text::same_text;
use crate::value::{Expr, ExprView, InfixOp, Integer, NodeId, OpKind, Value, ValueView, exprs_view};

verus! {

/// The nodes of a chain of evaluations, as a set.
pub open spec fn chain_set(chain: Seq<NodeId>) -> Set<NodeId> {
    Set::new(|id: NodeId| chain.contains(id))
}

/// The cache entries of a list of computed values.
pub open spec fn writes_view(updates: Seq<(NodeId, Value)>) -> Seq<(NodeId, ValueView)> {
    Seq::new(updates.len(), |i: int| (updates[i].0, updates[i].1@))
}

/// Whether `result` is what `outcome` asks for, and the list of computed
/// values grew from `before` to `after` by the cache entries of `outcome`.
pub open spec fn evaluated(
    result: Result<Value, EvalError>,
    before: Seq<(NodeId, Value)>,
    after: Seq<(NodeId, Value)>,
    outcome: Outcome,
) -> bool {
    match outcome {
        Ok(done) => result matches Ok(value) && value@ == done.value && writes_view(after)
            == writes_view(before) + done.writes,
        Err(e) => result matches Err(err) && err@ == e,
    }
}

/// What a payload evaluates to, before the node turns it into its value.
pub open spec fn meta_status(s: Store, data: MetadataView, visited: Set<NodeId>) -> (
    EvalMetaStatusView,
    Seq<(NodeId, ValueView)>,
) {
    match data {
        MetadataView::Common { inner } => (EvalMetaStatusView::WrongType, Seq::empty()),
        MetadataView::Constraint(_) => (EvalMetaStatusView::WrongType, Seq::empty()),
        MetadataView::Sum(elements) => (
            EvalMetaStatusView::Success(ValueView::Integer(wrapping_sum(elements))),
            Seq::empty(),
        ),
        MetadataView::Ident => (EvalMetaStatusView::Ident, Seq::empty()),
        MetadataView::Concat(elements) => concat_status(s, elements, visited),
    }
}

/// What joining the string values of `elements` comes to.
pub open spec fn concat_status(s: Store, elements: Seq<ExprView>, visited: Set<NodeId>) -> (
    EvalMetaStatusView,
    Seq<(NodeId, ValueView)>,
) {
    match eval_concat(s, elements, visited) {
        Ok(joined) => (
            EvalMetaStatusView::Success(ValueView::String(joined.text)),
            joined.writes,
        ),
        Err(JoinError::NotAString) => (EvalMetaStatusView::InvalidConcatElement, Seq::empty()),
        Err(JoinError::Failed(e)) => (EvalMetaStatusView::InternalEvalError(e), Seq::empty()),
    }
}

/// Whether `status` is what `expected` asks for, and the list of computed
/// values grew accordingly where it is a success.
pub open spec fn meta_evaluated(
    status: EvalMetaStatus,
    before: Seq<(NodeId, Value)>,
    after: Seq<(NodeId, Value)>,
    expected: (EvalMetaStatusView, Seq<(NodeId, ValueView)>),
) -> bool {
    &&& status@ == expected.0
    &&& (status is Success || status is Ident || status is WrongType) ==> writes_view(after)
        == writes_view(before) + expected.1
}

/// Whether `id` is on the chain.
pub fn chain_has(chain: &Vec<NodeId>, id: NodeId) -> (r: bool)
    ensures
        r == chain_set(chain@).contains(id),
{
    let mut i: usize = 0;
    while i < chain.len()
        invariant
            i <= chain@.len(),
            forall|k: int| 0 <= k < i ==> chain@[k] != id,
        decreases chain@.len() - i,
    {
        if chain[i] == id {
            return true;
        }
        i += 1;
    }
    false
}

/// The result of an integer operation, if it has one.
pub fn int_op(kind: OpKind, lhs: Integer, rhs: Integer) -> (r: Option<Integer>)
    ensures
        r == apply_op(kind, lhs, rhs),
{
    match kind {
        OpKind::Add => Some(lhs.wrapping_add(rhs)),
        OpKind::Sub => Some(lhs.wrapping_sub(rhs)),
        OpKind::Mul => Some(lhs.wrapping_mul(rhs)),
        OpKind::Pow => Some(lhs.wrapping_mul(rhs)),
        OpKind::Div => {
            if rhs == 0 {
                None
            } else {
                match lhs.checked_div(rhs) {
                    Some(quotient) => Some(quotient),
                    None => Some(i64::MIN),
                }
            }
        },
        OpKind::Neg => None,
    }
}

/// The sum of `elements`, wrapping around in two's complement.
pub fn sum_of(elements: &Vec<Integer>) -> (total: Integer)
    ensures
        total == wrapping_sum(elements@),
{
    let mut total: Integer = 0;
    let mut i: usize = 0;
    while i < elements.len()
        invariant
            i <= elements@.len(),
            total == wrapping_sum(elements@.take(i as int)),
        decreases elements@.len() - i,
    {
        assert(elements@.take(i + 1).drop_last() =~= elements@.take(i as int));
        total = total.wrapping_add(elements[i]);
        i += 1;
    }
    assert(elements@.take(i as int) =~= elements@);
    total
}

/// The chain with one more node on it.
proof fn lemma_chain_push(chain: Seq<NodeId>, id: NodeId)
    ensures
        chain_set(chain.push(id)) == chain_set(chain).insert(id),
{
    assert forall|k: NodeId| chain.push(id).contains(k) == (chain.contains(k) || k == id) by {
        if chain.push(id).contains(k) {
            let i = choose|i: int| 0 <= i < chain.push(id).len() && chain.push(id)[i] == k;
            if i < chain.len() {
                assert(chain[i] == k);
            }
        }
        if chain.contains(k) {
            let i = choose|i: int| 0 <= i < chain.len() && chain[i] == k;
            assert(chain.push(id)[i] == k);
        }
        if k == id {
            assert(chain.push(id)[chain.len() as int] == k);
        }
    }
    assert forall|k: NodeId| #[trigger]
        chain_set(chain.push(id)).contains(k) == chain_set(chain).insert(id).contains(k) by {
        assert(chain.push(id).contains(k) == (chain.contains(k) || k == id));
    }
    assert(chain_set(chain.push(id)) =~= chain_set(chain).insert(id));
}

/// The cache entries of a list with one more value.
proof fn lemma_writes_push(updates: Seq<(NodeId, Value)>, id: NodeId, value: Value)
    ensures
        writes_view(updates.push((id, value))) == writes_view(updates).push((id, value@)),
{
    assert(writes_view(updates.push((id, value))) =~= writes_view(updates).push((id, value@)));
}

impl Template {
    /// The nearest node, from `id` upward, that a user named.
    pub fn owner_of(&self, id: NodeId) -> (r: Result<NodeId, EvalError>)
        ensures
            match r {
                Ok(named) => owner(self@, id) == Ok::<NodeId, EvalErrorView>(named) && named
                    < self@.len(),
                Err(e) => owner(self@, id) == Err::<NodeId, EvalErrorView>(e@),
            },
    {
        let mut current = id;
        loop
            invariant
                owner(self@, id) == owner(self@, current),
            decreases current,
        {
            if current >= self.new_id() {
                return Err(EvalError::MissingParent(current));
            }
            let entry = self.entry(current);
            let parent = match &entry.0 {
                Node::Meta(meta) => meta.parent,
                Node::Group(group) => {
                    if same_text(entry.1.as_str(), "[COMMON INNER]") {
                        match group.parent {
                            Some(parent) => parent,
                            None => {
                                return Err(EvalError::MissingParent(current));
                            },
                        }
                    } else {
                        return Ok(current);
                    }
                },
                Node::Leaf(_) => {
                    return Ok(current);
                },
            };
            if parent < current {
                current = parent;
            } else {
                return Err(EvalError::MissingParent(current));
            }
        }
    }

    /// Evaluates the node `id` without touching any cache. The nodes on
    /// `checked` are being evaluated further up; what is computed on the way
    /// is appended to `updates`.
    pub fn eval_leaf_inner(
        &self,
        id: NodeId,
        checked: &mut Vec<NodeId>,
        updates: &mut Vec<(NodeId, Value)>,
    ) -> (r: Result<Value, EvalError>)
        ensures
            final(checked)@ == old(checked)@,
            evaluated(
                r,
                old(updates)@,
                final(updates)@,
                eval_node(self@, id, chain_set(old(checked)@)),
            ),
        decreases budget(self@.len(), chain_set(old(checked)@)), 0nat, Expr::Reference(id),
    {
        if chain_has(checked, id) {
            return Err(EvalError::InfiniteRecursion(id));
        }
        if id >= self.new_id() {
            return Err(EvalError::MissingDependency(id));
        }
        proof {
            lemma_visit(self@.len(), chain_set(checked@), id);
            lemma_chain_push(checked@, id);
        }
        let ghost mut inner: Seq<(NodeId, ValueView)> = Seq::empty();
        let out = match &self.entry(id).0 {
            Node::Leaf(leaf) => {
                if leaf.cache_valid {
                    if let Some(cached) = &leaf.cached {
                        assert(writes_view(updates@) + Seq::empty() =~= writes_view(updates@));
                        return Ok(cached.clone());
                    }
                }
                match &leaf.value {
                    Some(expr) => {
                        checked.push(id);
                        let result = self.eval_expr_inner(expr, checked, updates);
                        checked.pop();
                        assert(checked@ =~= old(checked)@);
                        match result {
                            Ok(value) => {
                                proof {
                                    inner = eval_expr(
                                        self@,
                                        expr@,
                                        chain_set(old(checked)@).insert(id),
                                    )->Ok_0.writes;
                                }
                                value
                            },
                            Err(err) => {
                                return Err(err);
                            },
                        }
                    },
                    None => {
                        return Err(EvalError::MissingInfo(id));
                    },
                }
            },
            Node::Group(_) => {
                return Err(EvalError::NotALeaf(id));
            },
            Node::Meta(meta) => {
                if meta.cache_valid {
                    if let Some(cached) = &meta.cached {
                        assert(writes_view(updates@) + Seq::empty() =~= writes_view(updates@));
                        return Ok(cached.clone());
                    }
                }
                checked.push(id);
                let status = self.eval_meta_inner(&meta.data, checked, updates);
                checked.pop();
                assert(checked@ =~= old(checked)@);
                proof {
                    inner = meta_status(
                        self@,
                        meta.data@,
                        chain_set(old(checked)@).insert(id),
                    ).1;
                }
                match status {
                    EvalMetaStatus::Success(value) => value,
                    EvalMetaStatus::Ident => {
                        match self.owner_of(id) {
                            Ok(named) => Value::String(self.entry(named).1.clone()),
                            Err(err) => {
                                return Err(err);
                            },
                        }
                    },
                    EvalMetaStatus::WrongType => {
                        return Err(EvalError::MetaType(id));
                    },
                    EvalMetaStatus::InvalidConcatElement => {
                        return Err(EvalError::InvalidType);
                    },
                    EvalMetaStatus::InternalEvalError(err) => {
                        return Err(err);
                    },
                }
            },
        };
        let kept = out.clone();
        proof {
            lemma_writes_push(updates@, id, kept);
            assert((writes_view(old(updates)@) + inner).push((id, kept@)) =~= writes_view(
                old(updates)@,
            ) + inner.push((id, kept@)));
        }
        updates.push((id, kept));
        Ok(out)
    }

    /// Evaluates `expr` without touching any cache.
    pub fn eval_expr_inner(
        &self,
        expr: &Expr,
        checked: &mut Vec<NodeId>,
        updates: &mut Vec<(NodeId, Value)>,
    ) -> (r: Result<Value, EvalError>)
        ensures
            final(checked)@ == old(checked)@,
            evaluated(
                r,
                old(updates)@,
                final(updates)@,
                eval_expr(self@, expr@, chain_set(old(checked)@)),
            ),
        decreases budget(self@.len(), chain_set(old(checked)@)), 1nat, *expr,
    {
        match expr {
            Expr::Literal(literal) => {
                assert(writes_view(updates@) + Seq::empty() =~= writes_view(updates@));
                Ok(literal.clone())
            },
            Expr::Reference(ref_id) => self.eval_leaf_inner(*ref_id, checked, updates),
            Expr::IdentRef(ref_id) => {
                let referenced_path = match self.eval_leaf_inner(*ref_id, checked, updates) {
                    Ok(value) => value,
                    Err(err) => {
                        return Err(err);
                    },
                };
                if let Value::String(name) = referenced_path {
                    match self.get_node_from(name.as_str(), 0) {
                        Some(referenced_id) => {
                            let ghost middle = updates@;
                            let result = self.eval_leaf_inner(referenced_id, checked, updates);
                            proof {
                                let first = eval_node(self@, *ref_id, chain_set(checked@));
                                let second = eval_node(
                                    self@,
                                    referenced_id,
                                    chain_set(checked@),
                                );
                                if second is Ok {
                                    assert(writes_view(old(updates)@) + (first->Ok_0.writes
                                        + second->Ok_0.writes) =~= writes_view(middle)
                                        + second->Ok_0.writes);
                                }
                            }
                            result
                        },
                        None => Err(EvalError::MissingPathDependency(name)),
                    }
                } else {
                    Err(EvalError::InvalidIdentRef(*ref_id))
                }
            },
            Expr::InfixOp(op) => self.eval_infix_inner(op, checked, updates),
        }
    }

    /// Evaluates the operation `op` without touching any cache.
    pub fn eval_infix_inner(
        &self,
        op: &InfixOp,
        checked: &mut Vec<NodeId>,
        updates: &mut Vec<(NodeId, Value)>,
    ) -> (r: Result<Value, EvalError>)
        ensures
            final(checked)@ == old(checked)@,
            evaluated(
                r,
                old(updates)@,
                final(updates)@,
                eval_infix(self@, op@, chain_set(old(checked)@)),
            ),
        decreases budget(self@.len(), chain_set(old(checked)@)), 1nat, *op,
    {
        if let OpKind::Neg = op.kind {
            return Err(EvalError::InvalidType);
        }
        let lhs = match self.eval_expr_inner(&op.lhs, checked, updates) {
            Ok(value) => value,
            Err(err) => {
                return Err(err);
            },
        };
        let ghost middle = updates@;
        let rhs = match self.eval_expr_inner(&op.rhs, checked, updates) {
            Ok(value) => value,
            Err(err) => {
                return Err(err);
            },
        };
        proof {
            let first = eval_expr(self@, op@.lhs, chain_set(checked@));
            let second = eval_expr(self@, op@.rhs, chain_set(checked@));
            assert(writes_view(old(updates)@) + (first->Ok_0.writes + second->Ok_0.writes)
                =~= writes_view(middle) + second->Ok_0.writes);
        }
        match (lhs, rhs) {
            (Value::Integer(lhs), Value::Integer(rhs)) => match int_op(op.kind, lhs, rhs) {
                Some(result) => Ok(Value::Integer(result)),
                None => Err(EvalError::InvalidType),
            },
            _ => Err(EvalError::InvalidType),
        }
    }

    /// Evaluates the payload of a meta node without touching any cache.
    pub fn eval_meta_inner(
        &self,
        meta: &Metadata,
        checked: &mut Vec<NodeId>,
        updates: &mut Vec<(NodeId, Value)>,
    ) -> (status: EvalMetaStatus)
        ensures
            final(checked)@ == old(checked)@,
            meta_evaluated(
                status,
                old(updates)@,
                final(updates)@,
                meta_status(self@, meta@, chain_set(old(checked)@)),
            ),
        decreases budget(self@.len(), chain_set(old(checked)@)), 2nat, *meta,
    {
        match meta {
            Metadata::Common { inner: _ } => EvalMetaStatus::WrongType,
            Metadata::Sum(elements) => {
                assert(writes_view(updates@) + Seq::empty() =~= writes_view(updates@));
                EvalMetaStatus::Success(Value::Integer(sum_of(elements)))
            },
            Metadata::Ident => EvalMetaStatus::Ident,
            Metadata::Concat(elements) => self.concat_meta(elements, checked, updates),
            Metadata::Constraint(_) => EvalMetaStatus::WrongType,
        }
    }

    /// Joins the string values of `elements` without touching any cache.
    pub fn concat_meta(
        &self,
        elements: &Vec<Expr>,
        checked: &mut Vec<NodeId>,
        updates: &mut Vec<(NodeId, Value)>,
    ) -> (status: EvalMetaStatus)
        ensures
            final(checked)@ == old(checked)@,
            meta_evaluated(
                status,
                old(updates)@,
                final(updates)@,
                concat_status(self@, exprs_view(elements@), chain_set(old(checked)@)),
            ),
        decreases budget(self@.len(), chain_set(old(checked)@)), 1nat, *elements,
    {
        let mut output = String::new();
        let ghost all = exprs_view(elements@);
        let ghost visited = chain_set(checked@);
        let ghost mut written: Seq<(NodeId, ValueView)> = Seq::empty();
        let mut i: usize = 0;
        assert(all.skip(0) =~= all);
        assert(writes_view(updates@) + Seq::empty() =~= writes_view(updates@));
        while i < elements.len()
            invariant
                i <= elements@.len(),
                all == exprs_view(elements@),
                visited == chain_set(checked@),
                checked@ == old(checked)@,
                writes_view(updates@) == writes_view(old(updates)@) + written,
                eval_concat(self@, all, visited) == joined_after(
                    output@,
                    written,
                    eval_concat(self@, all.skip(i as int), visited),
                ),
            decreases elements@.len() - i,
        {
            proof {
                vstd::std_specs::vec::axiom_vec_index_decreases(*elements, i as int);
                assert(all.skip(i as int)[0] == elements@[i as int]@);
                assert(all.skip(i as int).drop_first() =~= all.skip(i + 1));
            }
            let ghost before = updates@;
            match self.eval_expr_inner(&elements[i], checked, updates) {
                Ok(value) => match value {
                    Value::String(text) => {
                        proof {
                            let first = eval_expr(self@, elements@[i as int]@, visited);
                            let more = eval_concat(self@, all.skip(i + 1), visited);
                            if more is Ok {
                                assert(output@ + (text@ + more->Ok_0.text) =~= (output@ + text@)
                                    + more->Ok_0.text);
                                assert(written + (first->Ok_0.writes + more->Ok_0.writes) =~= (
                                written + first->Ok_0.writes) + more->Ok_0.writes);
                            }
                            assert(writes_view(old(updates)@) + (written + first->Ok_0.writes)
                                =~= writes_view(before) + first->Ok_0.writes);
                            written = written + first->Ok_0.writes;
                        }
                        output.append(text.as_str());
                    },
                    _ => {
                        return EvalMetaStatus::InvalidConcatElement;
                    },
                },
                Err(err) => {
                    return EvalMetaStatus::InternalEvalError(err);
                },
            }
            i += 1;
        }
        assert(all.skip(i as int) =~= Seq::empty());
        assert(output@ + Seq::empty() =~= output@);
        assert(written + Seq::empty() =~= written);
        EvalMetaStatus::Success(Value::String(output))
    }
}

impl Template {
    /// Writes the computed values `updates` into the caches, in order.
    fn store_updates(&mut self, updates: &Vec<(NodeId, Value)>)
        ensures
            final(self)@ == with_writes(old(self)@, writes_view(updates@)),
            old(self).wf() ==> final(self).wf(),
    {
        let ghost all = writes_view(updates@);
        let mut i: usize = 0;
        assert(all.skip(0) =~= all);
        while i < updates.len()
            invariant
                i <= updates@.len(),
                all == writes_view(updates@),
                with_writes(old(self)@, all) == with_writes(self@, all.skip(i as int)),
                old(self).wf() ==> self.wf(),
            decreases updates@.len() - i,
        {
            proof {
                assert(all.skip(i as int)[0] == (updates@[i as int].0, updates@[i as int].1@));
                assert(all.skip(i as int).drop_first() =~= all.skip(i + 1));
            }
            self.store_cached(updates[i].0, updates[i].1.clone());
            i += 1;
        }
        assert(all.skip(i as int).len() == 0);
    }

    /// Evaluates the node `id`.
    ///
    /// A node with a valid cache answers from it. Otherwise the value is
    /// computed, and on success it is cached in `id` and in every node that was
    /// computed on the way. On failure the template stays as it was.
    pub fn eval_leaf(&mut self, id: NodeId) -> (r: Result<Value, EvalError>)
        ensures
            old(self).wf() ==> final(self).wf(),
            match eval_node(old(self)@, id, Set::empty()) {
                Ok(done) => {
                    &&& r matches Ok(value) && value@ == done.value
                    &&& final(self)@ == with_writes(old(self)@, done.writes)
                },
                Err(e) => {
                    &&& r matches Err(err) && err@ == e
                    &&& final(self)@ == old(self)@
                },
            },
    {
        let mut checked: Vec<NodeId> = Vec::new();
        let mut updates: Vec<(NodeId, Value)> = Vec::new();
        assert(chain_set(checked@) =~= Set::empty());
        assert(writes_view(updates@) =~= Seq::empty());
        let out = self.eval_leaf_inner(id, &mut checked, &mut updates);
        match out {
            Ok(value) => {
                proof {
                    let done = eval_node(self@, id, Set::empty())->Ok_0;
                    assert(Seq::<(NodeId, ValueView)>::empty() + done.writes =~= done.writes);
                }
                self.store_updates(&updates);
                Ok(value)
            },
            Err(err) => Err(err),
        }
    }

    /// Evaluates `expr` on its own. No cache is written.
    pub fn eval_expr(&self, expr: &Expr) -> (r: Result<Value, EvalError>)
        ensures
            match eval_expr(self@, expr@, Set::empty()) {
                Ok(done) => r matches Ok(value) && value@ == done.value,
                Err(e) => r matches Err(err) && err@ == e,
            },
    {
        let mut checked: Vec<NodeId> = Vec::new();
        let mut updates: Vec<(NodeId, Value)> = Vec::new();
        assert(chain_set(checked@) =~= Set::empty());
        self.eval_expr_inner(expr, &mut checked, &mut updates)
    }
}

impl InfixOp {
    /// Evaluates the operation on its own. No cache is written.
    pub fn eval(&self, template: &Template) -> (r: Result<Value, EvalError>)
        ensures
            match eval_infix(template@, self@, Set::empty()) {
                Ok(done) => r matches Ok(value) && value@ == done.value,
                Err(e) => r matches Err(err) && err@ == e,
            },
    {
        let mut checked: Vec<NodeId> = Vec::new();
        let mut updates: Vec<(NodeId, Value)> = Vec::new();
        assert(chain_set(checked@) =~= Set::empty());
        template.eval_infix_inner(self, &mut checked, &mut updates)
    }
}

/// What joining comes to when `text` and `writes` are already there and
/// `more` is still to come.
pub open spec fn joined_after(
    text: Seq<char>,
    writes: Seq<(NodeId, ValueView)>,
    more: Result<Joined, JoinError>,
) -> Result<Joined, JoinError> {
    match more {
        Ok(joined) => Ok(Joined { text: text + joined.text, writes: writes + joined.writes }),
        Err(e) => Err(e),
    }
}

} // verus!
