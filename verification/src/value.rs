//! Scalar values, the expressions that compute them, and their mathematical
//! views.

use vstd::prelude::*;
use vstd::string::*;
use vstd::std_specs::cmp::PartialEqSpecImpl;

verus! {

/// The identity of a node. Identity 0 belongs to the root group.
pub type NodeId = usize;

/// The number type of the template.
pub type Integer = i64;

/// The static tag that a leaf tracks beside its value.
#[derive(Clone, Copy, Debug, PartialEq, Eq, Structural)]
pub enum ValueKind {
    Undefined,
    Integer,
    String,
    List,
}

/// The kinds of operation an [`InfixOp`] can carry.
#[derive(Clone, Copy, Debug, PartialEq, Eq, Structural)]
pub enum OpKind {
    Add,
    Sub,
    Mul,
    Div,
    Pow,
    Neg,
}

/// A single value held by, or computed for, a node.
#[derive(Debug, Eq)]
pub enum Value {
    /// A 64 bit signed integer
    Integer(Integer),
    /// A UTF-8 string
    String(String),
    /// A list of expressions; its elements are not themselves evaluated
    List(Vec<Expr>),
}

/// An expression to be evaluated before being referenced.
#[derive(Debug, Eq)]
pub enum Expr {
    /// A constant
    Literal(Value),
    /// The value of another node
    Reference(NodeId),
    /// The value of the node whose path is the string value of the named node
    IdentRef(NodeId),
    /// A binary integer operation
    InfixOp(Box<InfixOp>),
}

/// An operation with a left hand side (lhs) and a right hand side (rhs).
#[derive(Debug, Eq)]
pub struct InfixOp {
    pub lhs: Expr,
    pub rhs: Expr,
    pub kind: OpKind,
}

/// What a [`Value`] is, mathematically.
pub enum ValueView {
    Integer(Integer),
    String(Seq<char>),
    List(Seq<ExprView>),
}

/// What an [`Expr`] is, mathematically.
pub enum ExprView {
    Literal(ValueView),
    Reference(NodeId),
    IdentRef(NodeId),
    InfixOp(Box<InfixOpView>),
}

/// What an [`InfixOp`] is, mathematically.
pub struct InfixOpView {
    pub lhs: ExprView,
    pub rhs: ExprView,
    pub kind: OpKind,
}

/// The view of a value: strings and lists become sequences.
pub open spec fn value_view(v: Value) -> ValueView
    decreases v,
{
    match v {
        Value::Integer(i) => ValueView::Integer(i),
        Value::String(s) => ValueView::String(s@),
        Value::List(l) => ValueView::List(exprs_view(l@)),
    }
}

/// The view of an expression.
pub open spec fn expr_view(e: Expr) -> ExprView
    decreases e,
{
    match e {
        Expr::Literal(v) => ExprView::Literal(value_view(v)),
        Expr::Reference(id) => ExprView::Reference(id),
        Expr::IdentRef(id) => ExprView::IdentRef(id),
        Expr::InfixOp(op) => ExprView::InfixOp(
            Box::new(
                InfixOpView { lhs: expr_view(op.lhs), rhs: expr_view(op.rhs), kind: op.kind },
            ),
        ),
    }
}

/// The views of a sequence of expressions, element by element.
pub open spec fn exprs_view(l: Seq<Expr>) -> Seq<ExprView>
    decreases l,
{
    Seq::new(
        l.len(),
        |i: int|
            if 0 <= i < l.len() {
                expr_view(l[i])
            } else {
                ExprView::Reference(0)
            },
    )
}

impl View for Value {
    type V = ValueView;

    open spec fn view(&self) -> ValueView {
        value_view(*self)
    }
}

impl View for Expr {
    type V = ExprView;

    open spec fn view(&self) -> ExprView {
        expr_view(*self)
    }
}

impl View for InfixOp {
    type V = InfixOpView;

    open spec fn view(&self) -> InfixOpView {
        InfixOpView { lhs: self.lhs@, rhs: self.rhs@, kind: self.kind }
    }
}

/// The view of an optional value.
pub open spec fn opt_value_view(v: Option<Value>) -> Option<ValueView> {
    match v {
        Some(v) => Some(v@),
        None => None,
    }
}

/// The view of an optional expression.
pub open spec fn opt_expr_view(e: Option<Expr>) -> Option<ExprView> {
    match e {
        Some(e) => Some(e@),
        None => None,
    }
}

/// A copy of a list of plain values.
pub fn copy_plain<T: Copy>(list: &Vec<T>) -> (r: Vec<T>)
    ensures
        r@ == list@,
{
    let mut out: Vec<T> = Vec::new();
    let mut i: usize = 0;
    while i < list.len()
        invariant
            i <= list@.len(),
            out@ == list@.take(i as int),
        decreases list@.len() - i,
    {
        out.push(list[i]);
        assert(out@ =~= list@.take(i + 1));
        i += 1;
    }
    assert(list@.take(list@.len() as int) =~= list@);
    out
}

/// A deep copy of an optional value.
pub fn copy_opt_value(value: &Option<Value>) -> (r: Option<Value>)
    ensures
        opt_value_view(r) == opt_value_view(*value),
{
    match value {
        Some(value) => Some(copy_value(value)),
        None => None,
    }
}

/// A deep copy of an optional expression.
pub fn copy_opt_expr(expr: &Option<Expr>) -> (r: Option<Expr>)
    ensures
        opt_expr_view(r) == opt_expr_view(*expr),
{
    match expr {
        Some(expr) => Some(copy_expr(expr)),
        None => None,
    }
}

/// A deep copy of a list of expressions.
pub fn copy_exprs(l: &Vec<Expr>) -> (r: Vec<Expr>)
    ensures
        exprs_view(r@) == exprs_view(l@),
    decreases *l,
{
    let mut out: Vec<Expr> = Vec::new();
    let mut i: usize = 0;
    while i < l.len()
        invariant
            i <= l@.len(),
            out@.len() == i,
            forall|k: int| 0 <= k < i ==> out@[k]@ == l@[k]@,
        decreases l@.len() - i,
    {
        proof {
            vstd::std_specs::vec::axiom_vec_index_decreases(*l, i as int);
        }
        out.push(copy_expr(&l[i]));
        i += 1;
    }
    assert(exprs_view(out@) =~= exprs_view(l@));
    out
}

/// A deep copy of a value.
pub fn copy_value(v: &Value) -> (r: Value)
    ensures
        r@ == v@,
    decreases *v,
{
    match v {
        Value::Integer(i) => Value::Integer(*i),
        Value::String(s) => Value::String(s.clone()),
        Value::List(l) => Value::List(copy_exprs(l)),
    }
}

/// A deep copy of an expression.
pub fn copy_expr(e: &Expr) -> (r: Expr)
    ensures
        r@ == e@,
    decreases *e,
{
    match e {
        Expr::Literal(v) => Expr::Literal(copy_value(v)),
        Expr::Reference(id) => Expr::Reference(*id),
        Expr::IdentRef(id) => Expr::IdentRef(*id),
        Expr::InfixOp(op) => {
            let lhs = copy_expr(&op.lhs);
            let rhs = copy_expr(&op.rhs);
            Expr::InfixOp(Box::new(InfixOp { lhs, rhs, kind: op.kind }))
        },
    }
}

impl Clone for Value {
    fn clone(&self) -> (r: Self)
        ensures
            r@ == self@,
    {
        copy_value(self)
    }
}

impl Clone for Expr {
    fn clone(&self) -> (r: Self)
        ensures
            r@ == self@,
    {
        copy_expr(self)
    }
}

impl Clone for InfixOp {
    fn clone(&self) -> (r: Self)
        ensures
            r@ == self@,
    {
        InfixOp { lhs: copy_expr(&self.lhs), rhs: copy_expr(&self.rhs), kind: self.kind }
    }
}

/// Whether two lists of expressions are the same, element by element.
pub fn same_exprs(a: &Vec<Expr>, b: &Vec<Expr>) -> (r: bool)
    ensures
        r == (exprs_view(a@) == exprs_view(b@)),
    decreases *a,
{
    if a.len() != b.len() {
        assert(exprs_view(a@).len() != exprs_view(b@).len());
        return false;
    }
    let mut i: usize = 0;
    while i < a.len()
        invariant
            i <= a@.len(),
            a@.len() == b@.len(),
            forall|k: int| 0 <= k < i ==> a@[k]@ == b@[k]@,
        decreases a@.len() - i,
    {
        proof {
            vstd::std_specs::vec::axiom_vec_index_decreases(*a, i as int);
        }
        if !same_expr(&a[i], &b[i]) {
            assert(exprs_view(a@)[i as int] != exprs_view(b@)[i as int]);
            return false;
        }
        i += 1;
    }
    assert(exprs_view(a@) =~= exprs_view(b@));
    true
}

/// Whether two values are the same.
pub fn same_value(a: &Value, b: &Value) -> (r: bool)
    ensures
        r == (a@ == b@),
    decreases *a,
{
    match (a, b) {
        (Value::Integer(x), Value::Integer(y)) => *x == *y,
        (Value::String(x), Value::String(y)) => *x == *y,
        (Value::List(x), Value::List(y)) => same_exprs(x, y),
        _ => false,
    }
}

/// Whether two expressions are the same.
pub fn same_expr(a: &Expr, b: &Expr) -> (r: bool)
    ensures
        r == (a@ == b@),
    decreases *a,
{
    match (a, b) {
        (Expr::Literal(x), Expr::Literal(y)) => same_value(x, y),
        (Expr::Reference(x), Expr::Reference(y)) => *x == *y,
        (Expr::IdentRef(x), Expr::IdentRef(y)) => *x == *y,
        (Expr::InfixOp(x), Expr::InfixOp(y)) => {
            same_expr(&x.lhs, &y.lhs) && same_expr(&x.rhs, &y.rhs) && x.kind == y.kind
        },
        _ => false,
    }
}

impl PartialEq for Value {
    fn eq(&self, other: &Self) -> (r: bool) {
        same_value(self, other)
    }
}

impl PartialEqSpecImpl for Value {
    open spec fn obeys_eq_spec() -> bool {
        true
    }

    open spec fn eq_spec(&self, other: &Self) -> bool {
        self@ == other@
    }
}

impl PartialEq for Expr {
    fn eq(&self, other: &Self) -> (r: bool) {
        same_expr(self, other)
    }
}

impl PartialEqSpecImpl for Expr {
    open spec fn obeys_eq_spec() -> bool {
        true
    }

    open spec fn eq_spec(&self, other: &Self) -> bool {
        self@ == other@
    }
}

impl PartialEq for InfixOp {
    fn eq(&self, other: &Self) -> (r: bool) {
        same_expr(&self.lhs, &other.lhs) && same_expr(&self.rhs, &other.rhs) && self.kind
            == other.kind
    }
}

impl PartialEqSpecImpl for InfixOp {
    open spec fn obeys_eq_spec() -> bool {
        true
    }

    open spec fn eq_spec(&self, other: &Self) -> bool {
        self@ == other@
    }
}

/// The tag of a value.
pub open spec fn kind_of(value: Value) -> ValueKind {
    match value {
        Value::Integer(_) => ValueKind::Integer,
        Value::String(_) => ValueKind::String,
        Value::List(_) => ValueKind::List,
    }
}

impl From<&Value> for ValueKind {
    fn from(value: &Value) -> (kind: Self) {
        match value {
            Value::Integer(_) => ValueKind::Integer,
            Value::String(_) => ValueKind::String,
            Value::List(_) => ValueKind::List,
        }
    }
}

impl vstd::std_specs::convert::FromSpecImpl<&Value> for ValueKind {
    open spec fn obeys_from_spec() -> bool {
        true
    }

    open spec fn from_spec(value: &Value) -> Self {
        kind_of(*value)
    }
}

impl From<&InfixOp> for ValueKind {
    /// An operation computes an integer.
    fn from(value: &InfixOp) -> (kind: Self) {
        ValueKind::Integer
    }
}

impl vstd::std_specs::convert::FromSpecImpl<&InfixOp> for ValueKind {
    open spec fn obeys_from_spec() -> bool {
        true
    }

    open spec fn from_spec(value: &InfixOp) -> Self {
        ValueKind::Integer
    }
}

impl From<Integer> for Value {
    fn from(value: Integer) -> (r: Self) {
        Value::Integer(value)
    }
}

impl vstd::std_specs::convert::FromSpecImpl<Integer> for Value {
    open spec fn obeys_from_spec() -> bool {
        true
    }

    open spec fn from_spec(value: Integer) -> Self {
        Value::Integer(value)
    }
}

impl From<String> for Value {
    fn from(value: String) -> (r: Self) {
        Value::String(value)
    }
}

impl vstd::std_specs::convert::FromSpecImpl<String> for Value {
    open spec fn obeys_from_spec() -> bool {
        true
    }

    open spec fn from_spec(value: String) -> Self {
        Value::String(value)
    }
}

impl From<Value> for Expr {
    fn from(value: Value) -> (r: Self) {
        Expr::Literal(value)
    }
}

impl vstd::std_specs::convert::FromSpecImpl<Value> for Expr {
    open spec fn obeys_from_spec() -> bool {
        true
    }

    open spec fn from_spec(value: Value) -> Self {
        Expr::Literal(value)
    }
}

impl From<Integer> for Expr {
    fn from(value: Integer) -> (r: Self) {
        Expr::Literal(Value::Integer(value))
    }
}

impl vstd::std_specs::convert::FromSpecImpl<Integer> for Expr {
    open spec fn obeys_from_spec() -> bool {
        true
    }

    open spec fn from_spec(value: Integer) -> Self {
        Expr::Literal(Value::Integer(value))
    }
}

impl From<String> for Expr {
    fn from(value: String) -> (r: Self) {
        Expr::Literal(Value::String(value))
    }
}

impl vstd::std_specs::convert::FromSpecImpl<String> for Expr {
    open spec fn obeys_from_spec() -> bool {
        true
    }

    open spec fn from_spec(value: String) -> Self {
        Expr::Literal(Value::String(value))
    }
}

} // verus!
