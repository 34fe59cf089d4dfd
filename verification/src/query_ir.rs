//! Semantic IR: the resolved meaning of a query, independent of any backend.
//!
//! A resolved path starts at a root object type and follows schema field
//! references. Its result cardinality combines the cardinalities of its
//! steps: a step through a multi link makes the path many; otherwise a step
//! through an optional field makes it optional; otherwise it is required.
use vstd::prelude::*;
use crate::query_ast::LiteralView;
use crate::schema::{Cardinality, FieldRef, FieldRefView, ObjectTypeRef, ObjectTypeRefView, ScalarType};
use crate::text::owned;

verus! {

/// Comparison operators of the IR.
#[derive(Debug, Clone, Copy, PartialEq, Eq, Structural)]
pub enum CompareOp {
    Eq,
    Ne,
    Lt,
    Le,
    Gt,
    Ge,
}

/// Membership operators of the IR.
#[derive(Debug, Clone, Copy, PartialEq, Eq, Structural)]
pub enum InOp {
    In,
    NotIn,
}

/// Sort direction of a resolved ordering item.
#[derive(Debug, Clone, Copy, PartialEq, Eq, Structural)]
pub enum OrderDirection {
    Asc,
    Desc,
}

/// Built-in string functions.
#[derive(Debug, Clone, Copy, PartialEq, Eq, Structural)]
pub enum StringFunctionKind {
    Concat,
    Str,
}

/// Binary arithmetic operators of the IR.
#[derive(Debug, Clone, Copy, PartialEq, Eq, Structural)]
pub enum ArithmeticOp {
    Add,
    Sub,
    Mul,
    Div,
    Mod,
}

impl CompareOp {
    /// Whether `a op b` holds of two integers: the relation the operator
    /// names.
    pub open spec fn holds(self, a: int, b: int) -> bool {
        match self {
            CompareOp::Eq => a == b,
            CompareOp::Ne => a != b,
            CompareOp::Lt => a < b,
            CompareOp::Le => a <= b,
            CompareOp::Gt => a > b,
            CompareOp::Ge => a >= b,
        }
    }
}

impl ArithmeticOp {
    /// The value of `a op b` for two integers: the operation the operator
    /// names.
    pub open spec fn apply(self, a: int, b: int) -> int {
        match self {
            ArithmeticOp::Add => a + b,
            ArithmeticOp::Sub => a - b,
            ArithmeticOp::Mul => a * b,
            ArithmeticOp::Div => a / b,
            ArithmeticOp::Mod => a % b,
        }
    }
}

/// Unary arithmetic operators of the IR.
#[derive(Debug, Clone, Copy, PartialEq, Eq, Structural)]
pub enum UnaryArithmeticOp {
    Plus,
    Minus,
}

impl UnaryArithmeticOp {
    /// The value of `op a` for an integer: the operation the operator names.
    pub open spec fn apply(self, a: int) -> int {
        match self {
            UnaryArithmeticOp::Plus => a,
            UnaryArithmeticOp::Minus => -a,
        }
    }
}

impl InOp {
    /// Whether the membership test holds of a value that is, or is not, a
    /// member of the list.
    pub open spec fn holds(self, member: bool) -> bool {
        match self {
            InOp::In => member,
            InOp::NotIn => !member,
        }
    }
}

impl OrderDirection {
    /// Whether rows come smallest first.
    pub open spec fn ascending(self) -> bool {
        self is Asc
    }
}

/// Errors of path construction.
#[derive(Debug, Clone, Copy, PartialEq, Eq, Structural)]
pub enum ResolvedPathError {
    EmptyPath,
}

/// Semantic kind of a path step.
#[derive(Debug, PartialEq, Eq)]
pub enum ResolvedPathStepKind {
    Scalar,
    Link { target_object_type: ObjectTypeRef },
}

/// One resolved step of a path.
#[derive(Debug, PartialEq, Eq)]
pub struct ResolvedPathStep {
    pub(crate) field: FieldRef,
    pub(crate) kind: ResolvedPathStepKind,
    pub(crate) cardinality: Cardinality,
}

/// A resolved field path from a root object type.
#[derive(Debug, PartialEq, Eq)]
pub struct ResolvedPath {
    pub(crate) root_object_type: ObjectTypeRef,
    pub(crate) steps: Vec<ResolvedPathStep>,
    pub(crate) result_cardinality: Cardinality,
}

pub ghost enum StepKindView {
    Scalar,
    Link(ObjectTypeRefView),
}

pub ghost struct StepView {
    pub field: FieldRefView,
    pub kind: StepKindView,
    pub cardinality: Cardinality,
}

pub ghost struct PathView {
    pub root: ObjectTypeRefView,
    pub steps: Seq<StepView>,
    pub cardinality: Cardinality,
}

impl View for ResolvedPathStepKind {
    type V = StepKindView;

    open spec fn view(&self) -> StepKindView {
        match self {
            ResolvedPathStepKind::Scalar => StepKindView::Scalar,
            ResolvedPathStepKind::Link { target_object_type } => StepKindView::Link(
                target_object_type@,
            ),
        }
    }
}

impl View for ResolvedPathStep {
    type V = StepView;

    open(crate) spec fn view(&self) -> StepView {
        StepView { field: self.field@, kind: self.kind@, cardinality: self.cardinality }
    }
}

pub open spec fn steps_view(s: Seq<ResolvedPathStep>) -> Seq<StepView> {
    s.map_values(|x: ResolvedPathStep| x@)
}

impl View for ResolvedPath {
    type V = PathView;

    open(crate) spec fn view(&self) -> PathView {
        PathView {
            root: self.root_object_type@,
            steps: steps_view(self.steps@),
            cardinality: self.result_cardinality,
        }
    }
}

/// Cardinality of following a value of cardinality `left` through a step of
/// cardinality `right`.
pub open spec fn combine(left: Cardinality, right: Cardinality) -> Cardinality {
    if left == Cardinality::Many || right == Cardinality::Many {
        Cardinality::Many
    } else if left == Cardinality::Optional || right == Cardinality::Optional {
        Cardinality::Optional
    } else {
        Cardinality::Required
    }
}

/// Result cardinality of a sequence of steps, starting from one required
/// root object.
pub open spec fn path_cardinality(steps: Seq<StepView>) -> Cardinality
    decreases steps.len(),
{
    if steps.len() == 0 {
        Cardinality::Required
    } else {
        combine(path_cardinality(steps.drop_last()), steps.last().cardinality)
    }
}

fn combine_cardinality(left: Cardinality, right: Cardinality) -> (r: Cardinality)
    ensures
        r == combine(left, right),
{
    match (left, right) {
        (Cardinality::Many, _) | (_, Cardinality::Many) => Cardinality::Many,
        (Cardinality::Optional, _) | (_, Cardinality::Optional) => Cardinality::Optional,
        (Cardinality::Required, Cardinality::Required) => Cardinality::Required,
    }
}

impl ResolvedPathStep {
    /// A step through a scalar field.
    pub fn scalar(field: FieldRef, cardinality: Cardinality) -> (r: Self)
        ensures
            r@ == (StepView { field: field@, kind: StepKindView::Scalar, cardinality }),
    {
        ResolvedPathStep { field, kind: ResolvedPathStepKind::Scalar, cardinality }
    }

    /// A step through a link to `target_object_type`.
    pub fn link(field: FieldRef, target_object_type: ObjectTypeRef, cardinality: Cardinality) -> (r:
        Self)
        ensures
            r@ == (StepView {
                field: field@,
                kind: StepKindView::Link(target_object_type@),
                cardinality,
            }),
    {
        ResolvedPathStep {
            field,
            kind: ResolvedPathStepKind::Link { target_object_type },
            cardinality,
        }
    }

    pub fn field(&self) -> (r: &FieldRef)
        ensures
            r@ == self@.field,
    {
        &self.field
    }

    pub fn kind(&self) -> (r: &ResolvedPathStepKind)
        ensures
            r@ == self@.kind,
    {
        &self.kind
    }

    pub fn cardinality(&self) -> (r: Cardinality)
        ensures
            r == self@.cardinality,
    {
        self.cardinality
    }
}

impl ResolvedPath {
    /// A path from `root_object_type` through `steps`; its result
    /// cardinality combines the steps' cardinalities. A path has at least
    /// one step.
    pub fn try_new(root_object_type: ObjectTypeRef, steps: Vec<ResolvedPathStep>) -> (r: Result<
        Self,
        ResolvedPathError,
    >)
        ensures
            r is Err <==> steps@.len() == 0,
            r matches Err(e) ==> e == ResolvedPathError::EmptyPath,
            r matches Ok(p) ==> p@ == (PathView {
                root: root_object_type@,
                steps: steps_view(steps@),
                cardinality: path_cardinality(steps_view(steps@)),
            }),
    {
        if steps.len() == 0 {
            return Err(ResolvedPathError::EmptyPath);
        }
        let mut result_cardinality = Cardinality::Required;
        let mut i: usize = 0;
        proof {
            assert(steps_view(steps@).take(0) =~= seq![]);
        }
        while i < steps.len()
            invariant
                i <= steps.len(),
                result_cardinality == path_cardinality(steps_view(steps@).take(i as int)),
            decreases steps.len() - i,
        {
            proof {
                let v = steps_view(steps@);
                assert(v.take(i + 1).drop_last() =~= v.take(i as int));
            }
            result_cardinality = combine_cardinality(result_cardinality, steps[i].cardinality());
            i += 1;
        }
        proof {
            assert(steps_view(steps@).take(steps.len() as int) =~= steps_view(steps@));
        }
        Ok(ResolvedPath { root_object_type, steps, result_cardinality })
    }

    pub fn root_object_type(&self) -> (r: &ObjectTypeRef)
        ensures
            r@ == self@.root,
    {
        &self.root_object_type
    }

    pub fn steps(&self) -> (r: &[ResolvedPathStep])
        ensures
            steps_view(r@) == self@.steps,
    {
        self.steps.as_slice()
    }

    pub fn result_cardinality(&self) -> (r: Cardinality)
        ensures
            r == self@.cardinality,
    {
        self.result_cardinality
    }
}

// ---------------------------------------------------------------------------
// Values, expressions, shapes and queries
// ---------------------------------------------------------------------------
/// Literal values of the IR; a decimal literal keeps its source text.
#[derive(Debug, Clone, PartialEq, Eq)]
pub enum Literal {
    String(String),
    Int64(i64),
    Float64(String),
    Bool(bool),
    Null,
}

/// Scalar value expressions used in filters, ordering and computed items.
#[derive(Debug, PartialEq, Eq)]
pub enum ValueExpr {
    Path(ResolvedPath),
    Literal(Literal),
    Arithmetic(ArithmeticExpr),
    UnaryArithmetic(UnaryArithmeticExpr),
    Cast(CastExpr),
    StringFunction(StringFunctionExpr),
}

/// A built-in string function applied to typed arguments, with the
/// cardinality of its result.
#[derive(Debug, PartialEq, Eq)]
pub struct StringFunctionExpr {
    pub(crate) kind: StringFunctionKind,
    pub(crate) args: Vec<StringFunctionArg>,
    pub(crate) cardinality: Cardinality,
}

/// One argument of a string function and its scalar type.
#[derive(Debug, PartialEq, Eq)]
pub struct StringFunctionArg {
    pub(crate) value: ValueExpr,
    pub(crate) scalar_type: ScalarType,
}

/// `left op right`, with the scalar type of the result.
#[derive(Debug, PartialEq, Eq)]
pub struct ArithmeticExpr {
    pub(crate) left: Box<ValueExpr>,
    pub(crate) op: ArithmeticOp,
    pub(crate) right: Box<ValueExpr>,
    pub(crate) scalar_type: ScalarType,
}

/// `op operand`, with the scalar type of the result.
#[derive(Debug, PartialEq, Eq)]
pub struct UnaryArithmeticExpr {
    pub(crate) op: UnaryArithmeticOp,
    pub(crate) operand: Box<ValueExpr>,
    pub(crate) scalar_type: ScalarType,
}

/// An explicit numeric cast.
#[derive(Debug, PartialEq, Eq)]
pub struct CastExpr {
    pub(crate) operand: Box<ValueExpr>,
    pub(crate) target_type: ScalarType,
}

/// A resolved comparison.
#[derive(Debug, PartialEq, Eq)]
pub struct CompareExpr {
    pub(crate) left: ValueExpr,
    pub(crate) op: CompareOp,
    pub(crate) right: ValueExpr,
}

/// A resolved membership test.
#[derive(Debug, PartialEq, Eq)]
pub struct InExpr {
    pub(crate) left: ValueExpr,
    pub(crate) op: InOp,
    pub(crate) right: Vec<ValueExpr>,
}

/// Resolved boolean expressions; a comparison with `null` becomes `IsNull`
/// or `IsNotNull`.
#[derive(Debug, PartialEq, Eq)]
pub enum Expr {
    Compare(CompareExpr),
    IsNull(ValueExpr),
    IsNotNull(ValueExpr),
    In(InExpr),
    And(Box<Expr>, Box<Expr>),
    Or(Box<Expr>, Box<Expr>),
    Not(Box<Expr>),
}

/// A resolved ordering item.
#[derive(Debug, PartialEq, Eq)]
pub struct OrderExpr {
    pub(crate) value: ValueExpr,
    pub(crate) direction: OrderDirection,
}

/// A resolved output field; a link field carries its nested shape.
#[derive(Debug, PartialEq, Eq)]
pub struct ResolvedShapeField {
    pub(crate) output_name: String,
    pub(crate) field: FieldRef,
    pub(crate) cardinality: Cardinality,
    pub(crate) child_shape: Option<ResolvedShape>,
}

/// A query-local computed output item.
#[derive(Debug, PartialEq, Eq)]
pub struct ResolvedComputedField {
    pub(crate) output_name: String,
    pub(crate) value: ValueExpr,
    pub(crate) scalar_type: ScalarType,
    pub(crate) cardinality: Cardinality,
}

/// One resolved output item.
#[derive(Debug, PartialEq, Eq)]
pub enum ResolvedShapeItem {
    Field(ResolvedShapeField),
    Computed(ResolvedComputedField),
}

/// A resolved result shape for one object source, items in query order.
#[derive(Debug, PartialEq, Eq)]
pub struct ResolvedShape {
    pub(crate) source_object_type: ObjectTypeRef,
    pub(crate) items: Vec<ResolvedShapeItem>,
}

/// A resolved select query.
#[derive(Debug, PartialEq, Eq)]
pub struct SelectQuery {
    pub(crate) root_object_type: ObjectTypeRef,
    pub(crate) shape: ResolvedShape,
    pub(crate) filter: Option<Expr>,
    pub(crate) order_by: Vec<OrderExpr>,
    pub(crate) limit: Option<i64>,
    pub(crate) offset: Option<i64>,
}

pub ghost enum ValueView {
    Path(PathView),
    Literal(LiteralView),
    Arithmetic(Box<ValueView>, ArithmeticOp, Box<ValueView>, ScalarType),
    UnaryArithmetic(UnaryArithmeticOp, Box<ValueView>, ScalarType),
    Cast(Box<ValueView>, ScalarType),
    StringFunction(StringFunctionKind, Seq<(ValueView, ScalarType)>, Cardinality),
}

pub ghost enum ExprView {
    Compare(ValueView, CompareOp, ValueView),
    IsNull(ValueView),
    IsNotNull(ValueView),
    In(ValueView, InOp, Seq<ValueView>),
    And(Box<ExprView>, Box<ExprView>),
    Or(Box<ExprView>, Box<ExprView>),
    Not(Box<ExprView>),
}

pub ghost enum ItemView {
    Field(Seq<char>, FieldRefView, Cardinality, Option<ShapeView>),
    Computed(Seq<char>, ValueView, ScalarType, Cardinality),
}

pub ghost struct ShapeView {
    pub source: ObjectTypeRefView,
    pub items: Seq<ItemView>,
}

pub ghost struct OrderView {
    pub value: ValueView,
    pub direction: OrderDirection,
}

pub ghost struct SelectView {
    pub root: ObjectTypeRefView,
    pub shape: ShapeView,
    pub filter: Option<ExprView>,
    pub order_by: Seq<OrderView>,
    pub limit: Option<i64>,
    pub offset: Option<i64>,
}

impl View for Literal {
    type V = LiteralView;

    open spec fn view(&self) -> LiteralView {
        match self {
            Literal::String(s) => LiteralView::String(s@),
            Literal::Int64(v) => LiteralView::Int64(*v),
            Literal::Float64(s) => LiteralView::Float64(s@),
            Literal::Bool(b) => LiteralView::Bool(*b),
            Literal::Null => LiteralView::Null,
        }
    }
}

pub open(crate) spec fn value_view(v: ValueExpr) -> ValueView
    decreases v,
{
    match v {
        ValueExpr::Path(p) => ValueView::Path(p@),
        ValueExpr::Literal(l) => ValueView::Literal(l@),
        ValueExpr::Arithmetic(a) => ValueView::Arithmetic(
            Box::new(value_view(*a.left)),
            a.op,
            Box::new(value_view(*a.right)),
            a.scalar_type,
        ),
        ValueExpr::UnaryArithmetic(u) => ValueView::UnaryArithmetic(
            u.op,
            Box::new(value_view(*u.operand)),
            u.scalar_type,
        ),
        ValueExpr::Cast(c) => ValueView::Cast(Box::new(value_view(*c.operand)), c.target_type),
        ValueExpr::StringFunction(f) => ValueView::StringFunction(
            f.kind,
            string_args_view(f.args@),
            f.cardinality,
        ),
    }
}

pub open(crate) spec fn string_args_view(s: Seq<StringFunctionArg>) -> Seq<(ValueView, ScalarType)>
    decreases s,
{
    if s.len() == 0 {
        seq![]
    } else {
        string_args_view(s.drop_last()).push((value_view(s.last().value), s.last().scalar_type))
    }
}

pub open(crate) spec fn values_view(s: Seq<ValueExpr>) -> Seq<ValueView> {
    s.map_values(|v: ValueExpr| value_view(v))
}

impl View for ValueExpr {
    type V = ValueView;

    open(crate) spec fn view(&self) -> ValueView {
        value_view(*self)
    }
}

pub open(crate) spec fn expr_view(e: Expr) -> ExprView
    decreases e,
{
    match e {
        Expr::Compare(c) => ExprView::Compare(value_view(c.left), c.op, value_view(c.right)),
        Expr::IsNull(v) => ExprView::IsNull(value_view(v)),
        Expr::IsNotNull(v) => ExprView::IsNotNull(value_view(v)),
        Expr::In(i) => ExprView::In(value_view(i.left), i.op, values_view(i.right@)),
        Expr::And(l, r) => ExprView::And(Box::new(expr_view(*l)), Box::new(expr_view(*r))),
        Expr::Or(l, r) => ExprView::Or(Box::new(expr_view(*l)), Box::new(expr_view(*r))),
        Expr::Not(x) => ExprView::Not(Box::new(expr_view(*x))),
    }
}

impl View for Expr {
    type V = ExprView;

    open(crate) spec fn view(&self) -> ExprView {
        expr_view(*self)
    }
}

pub open(crate) spec fn shape_view(s: ResolvedShape) -> ShapeView
    decreases s,
{
    ShapeView { source: s.source_object_type@, items: shape_items_view(s.items@) }
}

pub open(crate) spec fn shape_items_view(s: Seq<ResolvedShapeItem>) -> Seq<ItemView>
    decreases s,
{
    if s.len() == 0 {
        seq![]
    } else {
        shape_items_view(s.drop_last()).push(shape_item_view(s.last()))
    }
}

pub open(crate) spec fn shape_item_view(i: ResolvedShapeItem) -> ItemView
    decreases i,
{
    match i {
        ResolvedShapeItem::Field(f) => ItemView::Field(
            f.output_name@,
            f.field@,
            f.cardinality,
            match f.child_shape {
                Some(s) => Some(shape_view(s)),
                None => None,
            },
        ),
        ResolvedShapeItem::Computed(c) => ItemView::Computed(
            c.output_name@,
            value_view(c.value),
            c.scalar_type,
            c.cardinality,
        ),
    }
}

pub proof fn lemma_shape_items_view_push(s: Seq<ResolvedShapeItem>, x: ResolvedShapeItem)
    ensures
        shape_items_view(s.push(x)) == shape_items_view(s).push(shape_item_view(x)),
{
    assert(s.push(x).drop_last() =~= s);
}

pub proof fn lemma_shape_items_view_index(s: Seq<ResolvedShapeItem>)
    ensures
        shape_items_view(s).len() == s.len(),
        forall|i: int| 0 <= i < s.len() ==> #[trigger] shape_items_view(s)[i] == shape_item_view(s[i]),
    decreases s.len(),
{
    if s.len() > 0 {
        lemma_shape_items_view_index(s.drop_last());
        assert forall|i: int| 0 <= i < s.len() implies #[trigger] shape_items_view(s)[i]
            == shape_item_view(s[i]) by {
            if i < s.len() - 1 {
                assert(s.drop_last()[i] == s[i]);
            }
        }
    }
}

impl View for ResolvedShape {
    type V = ShapeView;

    open(crate) spec fn view(&self) -> ShapeView {
        shape_view(*self)
    }
}

impl View for ResolvedShapeItem {
    type V = ItemView;

    open(crate) spec fn view(&self) -> ItemView {
        shape_item_view(*self)
    }
}

impl View for OrderExpr {
    type V = OrderView;

    open(crate) spec fn view(&self) -> OrderView {
        OrderView { value: value_view(self.value), direction: self.direction }
    }
}

pub open(crate) spec fn orders_view(s: Seq<OrderExpr>) -> Seq<OrderView> {
    s.map_values(|o: OrderExpr| o@)
}

impl View for SelectQuery {
    type V = SelectView;

    open(crate) spec fn view(&self) -> SelectView {
        SelectView {
            root: self.root_object_type@,
            shape: shape_view(self.shape),
            filter: match self.filter {
                Some(e) => Some(expr_view(e)),
                None => None,
            },
            order_by: orders_view(self.order_by@),
            limit: self.limit,
            offset: self.offset,
        }
    }
}

// ---------------------------------------------------------------------------
// Field accessors for contracts
// ---------------------------------------------------------------------------
impl ArithmeticExpr {
    pub open(crate) spec fn spec_left(self) -> ValueExpr {
        *self.left
    }

    pub open(crate) spec fn spec_op(self) -> ArithmeticOp {
        self.op
    }

    pub open(crate) spec fn spec_right(self) -> ValueExpr {
        *self.right
    }

    pub open(crate) spec fn spec_scalar_type(self) -> ScalarType {
        self.scalar_type
    }
}

impl UnaryArithmeticExpr {
    pub open(crate) spec fn spec_op(self) -> UnaryArithmeticOp {
        self.op
    }

    pub open(crate) spec fn spec_operand(self) -> ValueExpr {
        *self.operand
    }

    pub open(crate) spec fn spec_scalar_type(self) -> ScalarType {
        self.scalar_type
    }
}

impl CastExpr {
    pub open(crate) spec fn spec_operand(self) -> ValueExpr {
        *self.operand
    }

    pub open(crate) spec fn spec_target_type(self) -> ScalarType {
        self.target_type
    }
}

impl CompareExpr {
    pub open(crate) spec fn spec_left(self) -> ValueExpr {
        self.left
    }

    pub open(crate) spec fn spec_op(self) -> CompareOp {
        self.op
    }

    pub open(crate) spec fn spec_right(self) -> ValueExpr {
        self.right
    }
}

impl InExpr {
    pub open(crate) spec fn spec_left(self) -> ValueExpr {
        self.left
    }

    pub open(crate) spec fn spec_op(self) -> InOp {
        self.op
    }

    pub open(crate) spec fn spec_right(self) -> Seq<ValueExpr> {
        self.right@
    }
}

impl ResolvedShapeField {
    pub open(crate) spec fn spec_output_name(self) -> Seq<char> {
        self.output_name@
    }

    pub open(crate) spec fn spec_field(self) -> FieldRefView {
        self.field@
    }

    pub open(crate) spec fn spec_cardinality(self) -> Cardinality {
        self.cardinality
    }

    pub open(crate) spec fn spec_child_shape(self) -> Option<ResolvedShape> {
        self.child_shape
    }
}

impl ResolvedComputedField {
    pub open(crate) spec fn spec_output_name(self) -> Seq<char> {
        self.output_name@
    }

    pub open(crate) spec fn spec_value(self) -> ValueExpr {
        self.value
    }

    pub open(crate) spec fn spec_scalar_type(self) -> ScalarType {
        self.scalar_type
    }

    pub open(crate) spec fn spec_cardinality(self) -> Cardinality {
        self.cardinality
    }
}

// ---------------------------------------------------------------------------
// Accessors
// ---------------------------------------------------------------------------
impl ArithmeticExpr {
    pub fn new(left: ValueExpr, op: ArithmeticOp, right: ValueExpr, scalar_type: ScalarType) -> (r:
        Self)
        ensures
            value_view(ValueExpr::Arithmetic(r)) == ValueView::Arithmetic(
                Box::new(left@),
                op,
                Box::new(right@),
                scalar_type,
            ),
    {
        ArithmeticExpr { left: Box::new(left), op, right: Box::new(right), scalar_type }
    }

    pub fn left(&self) -> (r: &ValueExpr)
        ensures
            *r == self.spec_left(),
    {
        &self.left
    }

    pub fn op(&self) -> (r: ArithmeticOp)
        ensures
            r == self.spec_op(),
    {
        self.op
    }

    pub fn right(&self) -> (r: &ValueExpr)
        ensures
            *r == self.spec_right(),
    {
        &self.right
    }

    pub fn scalar_type(&self) -> (r: ScalarType)
        ensures
            r == self.spec_scalar_type(),
    {
        self.scalar_type
    }
}

impl UnaryArithmeticExpr {
    pub fn new(op: UnaryArithmeticOp, operand: ValueExpr, scalar_type: ScalarType) -> (r: Self)
        ensures
            value_view(ValueExpr::UnaryArithmetic(r)) == ValueView::UnaryArithmetic(
                op,
                Box::new(operand@),
                scalar_type,
            ),
    {
        UnaryArithmeticExpr { op, operand: Box::new(operand), scalar_type }
    }

    pub fn op(&self) -> (r: UnaryArithmeticOp)
        ensures
            r == self.spec_op(),
    {
        self.op
    }

    pub fn operand(&self) -> (r: &ValueExpr)
        ensures
            *r == self.spec_operand(),
    {
        &self.operand
    }

    pub fn scalar_type(&self) -> (r: ScalarType)
        ensures
            r == self.spec_scalar_type(),
    {
        self.scalar_type
    }
}

impl CastExpr {
    pub fn new(operand: ValueExpr, target_type: ScalarType) -> (r: Self)
        ensures
            value_view(ValueExpr::Cast(r)) == ValueView::Cast(Box::new(operand@), target_type),
    {
        CastExpr { operand: Box::new(operand), target_type }
    }

    pub fn operand(&self) -> (r: &ValueExpr)
        ensures
            *r == self.spec_operand(),
    {
        &self.operand
    }

    pub fn target_type(&self) -> (r: ScalarType)
        ensures
            r == self.spec_target_type(),
    {
        self.target_type
    }
}

impl StringFunctionArg {
    pub open(crate) spec fn spec_value(self) -> ValueExpr {
        self.value
    }

    pub open(crate) spec fn spec_scalar_type(self) -> ScalarType {
        self.scalar_type
    }

    pub fn new(value: ValueExpr, scalar_type: ScalarType) -> (r: Self)
        ensures
            r.spec_value() == value,
            r.spec_scalar_type() == scalar_type,
    {
        StringFunctionArg { value, scalar_type }
    }

    pub fn value(&self) -> (r: &ValueExpr)
        ensures
            *r == self.spec_value(),
    {
        &self.value
    }

    pub fn scalar_type(&self) -> (r: ScalarType)
        ensures
            r == self.spec_scalar_type(),
    {
        self.scalar_type
    }
}

impl StringFunctionExpr {
    pub open(crate) spec fn spec_kind(self) -> StringFunctionKind {
        self.kind
    }

    pub open(crate) spec fn spec_args(self) -> Seq<StringFunctionArg> {
        self.args@
    }

    pub open(crate) spec fn spec_cardinality(self) -> Cardinality {
        self.cardinality
    }

    pub fn new(kind: StringFunctionKind, args: Vec<StringFunctionArg>, cardinality: Cardinality) -> (r:
        Self)
        ensures
            value_view(ValueExpr::StringFunction(r)) == ValueView::StringFunction(
                kind,
                string_args_view(args@),
                cardinality,
            ),
            r.spec_kind() == kind,
            r.spec_args() == args@,
            r.spec_cardinality() == cardinality,
    {
        StringFunctionExpr { kind, args, cardinality }
    }

    pub fn kind(&self) -> (r: StringFunctionKind)
        ensures
            r == self.spec_kind(),
    {
        self.kind
    }

    pub fn args(&self) -> (r: &[StringFunctionArg])
        ensures
            r@ == self.spec_args(),
    {
        self.args.as_slice()
    }

    pub fn cardinality(&self) -> (r: Cardinality)
        ensures
            r == self.spec_cardinality(),
    {
        self.cardinality
    }
}

impl CompareExpr {
    pub fn new(left: ValueExpr, op: CompareOp, right: ValueExpr) -> (r: Self)
        ensures
            expr_view(Expr::Compare(r)) == ExprView::Compare(left@, op, right@),
    {
        CompareExpr { left, op, right }
    }

    pub fn left(&self) -> (r: &ValueExpr)
        ensures
            *r == self.spec_left(),
    {
        &self.left
    }

    pub fn op(&self) -> (r: CompareOp)
        ensures
            r == self.spec_op(),
    {
        self.op
    }

    pub fn right(&self) -> (r: &ValueExpr)
        ensures
            *r == self.spec_right(),
    {
        &self.right
    }
}

impl InExpr {
    pub fn new(left: ValueExpr, op: InOp, right: Vec<ValueExpr>) -> (r: Self)
        ensures
            expr_view(Expr::In(r)) == ExprView::In(left@, op, values_view(right@)),
    {
        InExpr { left, op, right }
    }

    pub fn left(&self) -> (r: &ValueExpr)
        ensures
            *r == self.spec_left(),
    {
        &self.left
    }

    pub fn op(&self) -> (r: InOp)
        ensures
            r == self.spec_op(),
    {
        self.op
    }

    pub fn right(&self) -> (r: &[ValueExpr])
        ensures
            r@ == self.spec_right(),
    {
        self.right.as_slice()
    }
}

impl OrderExpr {
    pub fn new(value: ValueExpr, direction: OrderDirection) -> (r: Self)
        ensures
            r@ == (OrderView { value: value@, direction }),
    {
        OrderExpr { value, direction }
    }

    pub fn value(&self) -> (r: &ValueExpr)
        ensures
            r@ == self@.value,
    {
        &self.value
    }

    pub fn direction(&self) -> (r: OrderDirection)
        ensures
            r == self@.direction,
    {
        self.direction
    }
}

impl ResolvedShapeField {
    pub fn new(
        output_name: &str,
        field: FieldRef,
        cardinality: Cardinality,
        child_shape: Option<ResolvedShape>,
    ) -> (r: Self)
        ensures
            shape_item_view(ResolvedShapeItem::Field(r)) == ItemView::Field(
                output_name@,
                field@,
                cardinality,
                match child_shape {
                    Some(s) => Some(s@),
                    None => None,
                },
            ),
    {
        ResolvedShapeField { output_name: owned(output_name), field, cardinality, child_shape }
    }

    pub fn output_name(&self) -> (r: &str)
        ensures
            r@ == self.spec_output_name(),
    {
        self.output_name.as_str()
    }

    pub fn field(&self) -> (r: &FieldRef)
        ensures
            r@ == self.spec_field(),
    {
        &self.field
    }

    pub fn cardinality(&self) -> (r: Cardinality)
        ensures
            r == self.spec_cardinality(),
    {
        self.cardinality
    }

    pub fn child_shape(&self) -> (r: Option<&ResolvedShape>)
        ensures
            match r {
                Some(s) => self.spec_child_shape() == Some(*s),
                None => self.spec_child_shape() is None,
            },
    {
        self.child_shape.as_ref()
    }
}

impl ResolvedComputedField {
    pub fn new(output_name: &str, value: ValueExpr, scalar_type: ScalarType, cardinality: Cardinality) -> (r:
        Self)
        ensures
            shape_item_view(ResolvedShapeItem::Computed(r)) == ItemView::Computed(
                output_name@,
                value@,
                scalar_type,
                cardinality,
            ),
    {
        ResolvedComputedField { output_name: owned(output_name), value, scalar_type, cardinality }
    }

    pub fn output_name(&self) -> (r: &str)
        ensures
            r@ == self.spec_output_name(),
    {
        self.output_name.as_str()
    }

    pub fn value(&self) -> (r: &ValueExpr)
        ensures
            *r == self.spec_value(),
    {
        &self.value
    }

    pub fn scalar_type(&self) -> (r: ScalarType)
        ensures
            r == self.spec_scalar_type(),
    {
        self.scalar_type
    }

    pub fn cardinality(&self) -> (r: Cardinality)
        ensures
            r == self.spec_cardinality(),
    {
        self.cardinality
    }
}

/// The output name of an item view.
pub open spec fn item_output_name(i: ItemView) -> Seq<char> {
    match i {
        ItemView::Field(name, _, _, _) => name,
        ItemView::Computed(name, _, _, _) => name,
    }
}

/// The cardinality of an item view.
pub open spec fn item_cardinality(i: ItemView) -> Cardinality {
    match i {
        ItemView::Field(_, _, c, _) => c,
        ItemView::Computed(_, _, _, c) => c,
    }
}

impl ResolvedShapeItem {
    pub fn output_name(&self) -> (r: &str)
        ensures
            r@ == item_output_name(self@),
    {
        match self {
            ResolvedShapeItem::Field(field) => field.output_name(),
            ResolvedShapeItem::Computed(computed) => computed.output_name(),
        }
    }

    pub fn cardinality(&self) -> (r: Cardinality)
        ensures
            r == item_cardinality(self@),
    {
        match self {
            ResolvedShapeItem::Field(field) => field.cardinality(),
            ResolvedShapeItem::Computed(computed) => computed.cardinality(),
        }
    }

    pub fn as_field(&self) -> (r: Option<&ResolvedShapeField>)
        ensures
            r matches Some(f) ==> *self == ResolvedShapeItem::Field(*f),
            r is None <==> self is Computed,
    {
        match self {
            ResolvedShapeItem::Field(field) => Some(field),
            ResolvedShapeItem::Computed(_) => None,
        }
    }

    pub fn as_computed(&self) -> (r: Option<&ResolvedComputedField>)
        ensures
            r matches Some(c) ==> *self == ResolvedShapeItem::Computed(*c),
            r is None <==> self is Field,
    {
        match self {
            ResolvedShapeItem::Field(_) => None,
            ResolvedShapeItem::Computed(computed) => Some(computed),
        }
    }
}

/// The field items of a sequence of shape items, in order.
pub open spec fn field_items(s: Seq<ResolvedShapeItem>) -> Seq<ResolvedShapeField>
    decreases s.len(),
{
    if s.len() == 0 {
        Seq::empty()
    } else {
        let rest = field_items(s.drop_last());
        match s.last() {
            ResolvedShapeItem::Field(f) => rest.push(f),
            ResolvedShapeItem::Computed(_) => rest,
        }
    }
}

impl ResolvedShape {
    pub open(crate) spec fn spec_items(self) -> Seq<ResolvedShapeItem> {
        self.items@
    }

    /// A shape whose items are the given fields, in order.
    pub fn new(source_object_type: ObjectTypeRef, fields: Vec<ResolvedShapeField>) -> (r: Self)
        ensures
            r@.source == source_object_type@,
            r.spec_items() == fields@.map_values(|f: ResolvedShapeField| ResolvedShapeItem::Field(f)),
    {
        let mut items: Vec<ResolvedShapeItem> = Vec::new();
        let mut rest = fields;
        let ghost original = rest@;
        let total: usize = rest.len();
        let mut taken: usize = 0;
        while rest.len() > 0
            invariant
                taken + rest.len() == original.len(),
                original.len() == total,
                rest@ == original.skip(taken as int),
                items@ == original.take(taken as int).map_values(|f: ResolvedShapeField| ResolvedShapeItem::Field(f)),
            decreases rest.len(),
        {
            let f = rest.remove(0);
            proof {
                assert(f == original[taken as int]);
                assert(original.take(taken as int + 1) =~= original.take(taken as int).push(f));
                assert(rest@ =~= original.skip(taken as int + 1));
            }
            items.push(ResolvedShapeItem::Field(f));
            taken = taken + 1;
            proof {
                assert(items@ =~= original.take(taken as int).map_values(|f: ResolvedShapeField| ResolvedShapeItem::Field(f)));
            }
        }
        proof {
            assert(original.take(taken as int) =~= original);
        }
        ResolvedShape { source_object_type, items }
    }

    /// The field items of this shape, in query order; computed items are left out.
    pub fn fields(&self) -> (r: Vec<&ResolvedShapeField>)
        ensures
            r@.len() == field_items(self.spec_items()).len(),
            forall|i: int| 0 <= i < r@.len() ==> *#[trigger] r@[i] == field_items(self.spec_items())[i],
    {
        let mut out: Vec<&ResolvedShapeField> = Vec::new();
        let mut i: usize = 0;
        while i < self.items.len()
            invariant
                i <= self.items@.len(),
                out@.len() == field_items(self.items@.take(i as int)).len(),
                forall|j: int| 0 <= j < out@.len() ==> *#[trigger] out@[j] == field_items(self.items@.take(i as int))[j],
            decreases self.items@.len() - i,
        {
            proof {
                assert(self.items@.take(i as int + 1).drop_last() =~= self.items@.take(i as int));
            }
            match &self.items[i] {
                ResolvedShapeItem::Field(f) => {
                    out.push(f);
                },
                ResolvedShapeItem::Computed(_) => {},
            }
            i = i + 1;
        }
        proof {
            assert(self.items@.take(i as int) =~= self.items@);
        }
        out
    }

    pub fn with_items(source_object_type: ObjectTypeRef, items: Vec<ResolvedShapeItem>) -> (r: Self)
        ensures
            r@ == (ShapeView { source: source_object_type@, items: shape_items_view(items@) }),
    {
        ResolvedShape { source_object_type, items }
    }

    pub fn source_object_type(&self) -> (r: &ObjectTypeRef)
        ensures
            r@ == self@.source,
    {
        &self.source_object_type
    }

    pub fn items(&self) -> (r: &[ResolvedShapeItem])
        ensures
            shape_items_view(r@) == self@.items,
            r@ == self.spec_items(),
    {
        self.items.as_slice()
    }
}

impl SelectQuery {
    pub fn new(
        root_object_type: ObjectTypeRef,
        shape: ResolvedShape,
        filter: Option<Expr>,
        order_by: Vec<OrderExpr>,
        limit: Option<i64>,
        offset: Option<i64>,
    ) -> (r: Self)
        ensures
            r@ == (SelectView {
                root: root_object_type@,
                shape: shape@,
                filter: match filter {
                    Some(e) => Some(e@),
                    None => None,
                },
                order_by: orders_view(order_by@),
                limit,
                offset,
            }),
    {
        SelectQuery { root_object_type, shape, filter, order_by, limit, offset }
    }

    pub fn root_object_type(&self) -> (r: &ObjectTypeRef)
        ensures
            r@ == self@.root,
    {
        &self.root_object_type
    }

    pub fn shape(&self) -> (r: &ResolvedShape)
        ensures
            r@ == self@.shape,
    {
        &self.shape
    }

    pub fn filter(&self) -> (r: Option<&Expr>)
        ensures
            match r {
                Some(e) => self@.filter == Some(e@),
                None => self@.filter is None,
            },
    {
        self.filter.as_ref()
    }

    pub fn order_by(&self) -> (r: &[OrderExpr])
        ensures
            orders_view(r@) == self@.order_by,
    {
        self.order_by.as_slice()
    }

    pub fn limit(&self) -> (r: Option<i64>)
        ensures
            r == self@.limit,
    {
        self.limit
    }

    pub fn offset(&self) -> (r: Option<i64>)
        ensures
            r == self@.offset,
    {
        self.offset
    }
}

/// Path cardinality: a path is many exactly when one of its steps is many,
/// optional exactly when none is many and one is optional, and required
/// exactly when every step is required.
pub proof fn law_path_cardinality(steps: Seq<StepView>)
    ensures
        path_cardinality(steps) == Cardinality::Many <==> exists|k: int|
            0 <= k < steps.len() && #[trigger] steps[k].cardinality == Cardinality::Many,
        path_cardinality(steps) == Cardinality::Required <==> forall|k: int|
            0 <= k < steps.len() ==> #[trigger] steps[k].cardinality == Cardinality::Required,
        path_cardinality(steps) == Cardinality::Optional <==> (forall|k: int|
            0 <= k < steps.len() ==> #[trigger] steps[k].cardinality != Cardinality::Many) && exists|
            k: int,
        | 0 <= k < steps.len() && #[trigger] steps[k].cardinality == Cardinality::Optional,
    decreases steps.len(),
{
    lemma_path_cardinality_many_required(steps);
    if path_cardinality(steps) == Cardinality::Optional {
        let k = choose|k: int|
            0 <= k < steps.len() && #[trigger] steps[k].cardinality != Cardinality::Required;
        assert(steps[k].cardinality == Cardinality::Optional);
    }
    if (forall|k: int| 0 <= k < steps.len() ==> #[trigger] steps[k].cardinality != Cardinality::Many)
        && exists|k: int| 0 <= k < steps.len() && #[trigger] steps[k].cardinality == Cardinality::Optional {
        let k = choose|k: int|
            0 <= k < steps.len() && #[trigger] steps[k].cardinality == Cardinality::Optional;
        assert(steps[k].cardinality != Cardinality::Required);
    }
}

proof fn lemma_path_cardinality_many_required(steps: Seq<StepView>)
    ensures
        path_cardinality(steps) == Cardinality::Many <==> exists|k: int|
            0 <= k < steps.len() && #[trigger] steps[k].cardinality == Cardinality::Many,
        path_cardinality(steps) == Cardinality::Required <==> forall|k: int|
            0 <= k < steps.len() ==> #[trigger] steps[k].cardinality == Cardinality::Required,
    decreases steps.len(),
{
    if steps.len() > 0 {
        let init = steps.drop_last();
        lemma_path_cardinality_many_required(init);
        assert forall|k: int| 0 <= k < init.len() implies #[trigger] init[k] == steps[k] by {}
        if path_cardinality(steps) == Cardinality::Many {
            if path_cardinality(init) == Cardinality::Many {
                let k = choose|k: int|
                    0 <= k < init.len() && #[trigger] init[k].cardinality == Cardinality::Many;
                assert(steps[k].cardinality == Cardinality::Many);
            } else {
                assert(steps[steps.len() - 1].cardinality == Cardinality::Many);
            }
        }
        if exists|k: int| 0 <= k < steps.len() && #[trigger] steps[k].cardinality == Cardinality::Many {
            let k = choose|k: int|
                0 <= k < steps.len() && #[trigger] steps[k].cardinality == Cardinality::Many;
            if k < init.len() {
                assert(init[k].cardinality == Cardinality::Many);
            }
        }
        if path_cardinality(steps) == Cardinality::Required {
            assert forall|k: int| 0 <= k < steps.len() implies #[trigger] steps[k].cardinality
                == Cardinality::Required by {
                if k < init.len() {
                    assert(init[k].cardinality == Cardinality::Required);
                }
            }
        }
        if forall|k: int|
            0 <= k < steps.len() ==> #[trigger] steps[k].cardinality == Cardinality::Required {
            assert forall|k: int| 0 <= k < init.len() implies #[trigger] init[k].cardinality
                == Cardinality::Required by {
                assert(steps[k].cardinality == Cardinality::Required);
            }
            assert(steps[steps.len() - 1].cardinality == Cardinality::Required);
        }
    }
}

// ---------------------------------------------------------------------------
// Insert queries
// ---------------------------------------------------------------------------
/// What an insert assignment stores: a scalar value, the identifier of the
/// object a single link points to (kept apart from a scalar string), or an
/// explicit null.
#[derive(Debug, PartialEq, Eq)]
pub enum AssignmentValue {
    Scalar(ValueExpr),
    LinkId(String),
    Null,
}

pub ghost enum AssignmentValueView {
    Scalar(ValueView),
    LinkId(Seq<char>),
    Null,
}

pub ghost struct InsertView {
    pub root: ObjectTypeRefView,
    pub assignments: Seq<(FieldRefView, AssignmentValueView)>,
}

impl View for AssignmentValue {
    type V = AssignmentValueView;

    open(crate) spec fn view(&self) -> AssignmentValueView {
        match self {
            AssignmentValue::Scalar(v) => AssignmentValueView::Scalar(v@),
            AssignmentValue::LinkId(id) => AssignmentValueView::LinkId(id@),
            AssignmentValue::Null => AssignmentValueView::Null,
        }
    }
}

impl View for Assignment {
    type V = (FieldRefView, AssignmentValueView);

    open(crate) spec fn view(&self) -> (FieldRefView, AssignmentValueView) {
        (self.field@, self.value@)
    }
}

pub open spec fn assignments_view(s: Seq<Assignment>) -> Seq<(FieldRefView, AssignmentValueView)> {
    s.map_values(|a: Assignment| a@)
}

impl View for InsertQuery {
    type V = InsertView;

    open(crate) spec fn view(&self) -> InsertView {
        InsertView { root: self.root_object_type@, assignments: assignments_view(self.assignments@) }
    }
}

/// One resolved field assignment of an insert query.
#[derive(Debug, PartialEq, Eq)]
pub struct Assignment {
    pub(crate) field: FieldRef,
    pub(crate) value: AssignmentValue,
}

/// A resolved insert query: the object type to create and its assignments,
/// in query order.
#[derive(Debug, PartialEq, Eq)]
pub struct InsertQuery {
    pub(crate) root_object_type: ObjectTypeRef,
    pub(crate) assignments: Vec<Assignment>,
}

impl Assignment {
    pub open(crate) spec fn spec_field(self) -> FieldRef {
        self.field
    }

    pub open(crate) spec fn spec_value(self) -> AssignmentValue {
        self.value
    }

    pub fn new(field: FieldRef, value: AssignmentValue) -> (r: Self)
        ensures
            r.spec_field() == field,
            r.spec_value() == value,
    {
        Assignment { field, value }
    }

    pub fn field(&self) -> (r: &FieldRef)
        ensures
            *r == self.spec_field(),
    {
        &self.field
    }

    pub fn value(&self) -> (r: &AssignmentValue)
        ensures
            *r == self.spec_value(),
    {
        &self.value
    }
}

impl InsertQuery {
    pub open(crate) spec fn spec_root_object_type(self) -> ObjectTypeRef {
        self.root_object_type
    }

    pub open(crate) spec fn spec_assignments(self) -> Seq<Assignment> {
        self.assignments@
    }

    pub fn new(root_object_type: ObjectTypeRef, assignments: Vec<Assignment>) -> (r: Self)
        ensures
            r.spec_root_object_type() == root_object_type,
            r.spec_assignments() == assignments@,
    {
        InsertQuery { root_object_type, assignments }
    }

    pub fn root_object_type(&self) -> (r: &ObjectTypeRef)
        ensures
            *r == self.spec_root_object_type(),
    {
        &self.root_object_type
    }

    pub fn assignments(&self) -> (r: &[Assignment])
        ensures
            r@ == self.spec_assignments(),
    {
        self.assignments.as_slice()
    }
}

} // verus!
