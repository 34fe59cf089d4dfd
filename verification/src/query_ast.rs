//! Syntax tree of queries, before any schema is consulted.
//!
//! Names are still strings and paths are still sequences of field names.
//! A decimal literal keeps its source text: the tree records what was
//! written, and the numeric value is the business of later stages.
use vstd::prelude::*;
use crate::text::owned;

verus! {

/// Comparison operators.
#[derive(Debug, Clone, Copy, PartialEq, Eq, Structural)]
pub enum CompareOp {
    Eq,
    Ne,
    Lt,
    Le,
    Gt,
    Ge,
}

/// Binary arithmetic operators.
#[derive(Debug, Clone, Copy, PartialEq, Eq, Structural)]
pub enum ArithmeticOp {
    Add,
    Sub,
    Mul,
    Div,
    Mod,
}

impl CompareOp {
    /// Whether `a op b` holds of two integers: the relation the operator
    /// names.
    pub open spec fn holds(self, a: int, b: int) -> bool {
        match self {
            CompareOp::Eq => a == b,
            CompareOp::Ne => a != b,
            CompareOp::Lt => a < b,
            CompareOp::Le => a <= b,
            CompareOp::Gt => a > b,
            CompareOp::Ge => a >= b,
        }
    }
}

impl ArithmeticOp {
    /// The value of `a op b` for two integers: the operation the operator
    /// names.
    pub open spec fn apply(self, a: int, b: int) -> int {
        match self {
            ArithmeticOp::Add => a + b,
            ArithmeticOp::Sub => a - b,
            ArithmeticOp::Mul => a * b,
            ArithmeticOp::Div => a / b,
            ArithmeticOp::Mod => a % b,
        }
    }
}

/// Unary arithmetic operators.
#[derive(Debug, Clone, Copy, PartialEq, Eq, Structural)]
pub enum UnaryArithmeticOp {
    Plus,
    Minus,
}

/// Membership operators.
#[derive(Debug, Clone, Copy, PartialEq, Eq, Structural)]
pub enum InOp {
    In,
    NotIn,
}

/// Sort direction of an ordering item.
#[derive(Debug, Clone, Copy, PartialEq, Eq, Structural)]
pub enum OrderDirection {
    Asc,
    Desc,
}

impl UnaryArithmeticOp {
    /// The value of `op a` for an integer: the operation the operator names.
    pub open spec fn apply(self, a: int) -> int {
        match self {
            UnaryArithmeticOp::Plus => a,
            UnaryArithmeticOp::Minus => -a,
        }
    }
}

impl InOp {
    /// Whether the membership test holds of a value that is, or is not, a
    /// member of the list.
    pub open spec fn holds(self, member: bool) -> bool {
        match self {
            InOp::In => member,
            InOp::NotIn => !member,
        }
    }
}

impl OrderDirection {
    /// Whether rows come smallest first.
    pub open spec fn ascending(self) -> bool {
        self is Asc
    }
}

/// Whether a shape item selects a field or computes a value.
#[derive(Debug, Clone, Copy, PartialEq, Eq, Structural)]
pub enum ShapeItemKind {
    Field,
    Computed,
}

/// Literal values; a decimal literal keeps its source text.
#[derive(Debug, Clone, PartialEq, Eq)]
pub enum Literal {
    String(String),
    Int64(i64),
    Float64(String),
    Bool(bool),
    Null,
}

/// One field name of a path.
#[derive(Debug, Clone, PartialEq, Eq)]
pub struct PathStep {
    pub(crate) field_name: String,
}

/// An unresolved field path such as `.author.name`.
#[derive(Debug, Clone, PartialEq, Eq)]
pub struct Path {
    pub(crate) steps: Vec<PathStep>,
}

/// Expressions.
#[derive(Debug, PartialEq, Eq)]
pub enum Expr {
    Literal(Literal),
    Path(Path),
    Compare(CompareExpr),
    Arithmetic(ArithmeticExpr),
    UnaryArithmetic(UnaryArithmeticExpr),
    FunctionCall(FunctionCallExpr),
    And(Box<Expr>, Box<Expr>),
    Or(Box<Expr>, Box<Expr>),
    Not(Box<Expr>),
    In(InExpr),
}

/// `left op right` for a comparison operator.
#[derive(Debug, PartialEq, Eq)]
pub struct CompareExpr {
    pub(crate) left: Box<Expr>,
    pub(crate) op: CompareOp,
    pub(crate) right: Box<Expr>,
}

/// `left op right` for an arithmetic operator.
#[derive(Debug, PartialEq, Eq)]
pub struct ArithmeticExpr {
    pub(crate) left: Box<Expr>,
    pub(crate) op: ArithmeticOp,
    pub(crate) right: Box<Expr>,
}

/// `op operand` for a unary arithmetic operator.
#[derive(Debug, PartialEq, Eq)]
pub struct UnaryArithmeticExpr {
    pub(crate) op: UnaryArithmeticOp,
    pub(crate) operand: Box<Expr>,
}

/// `name(args...)`.
#[derive(Debug, PartialEq, Eq)]
pub struct FunctionCallExpr {
    pub(crate) name: String,
    pub(crate) args: Vec<Expr>,
}

/// `left in [right...]` or `left not in [right...]`.
#[derive(Debug, PartialEq, Eq)]
pub struct InExpr {
    pub(crate) left: Box<Expr>,
    pub(crate) op: InOp,
    pub(crate) right: Vec<Expr>,
}

/// A computed shape item `name := expr`.
#[derive(Debug, PartialEq, Eq)]
pub struct ComputedShapeItem {
    pub(crate) output_name: String,
    pub(crate) expr: Expr,
}

/// One item of a shape: a field path with an optional nested shape, or a
/// computed value. A computed item's path is its output name.
#[derive(Debug, PartialEq, Eq)]
pub struct ShapeItem {
    pub(crate) path: Path,
    pub(crate) child_shape: Option<Shape>,
    pub(crate) computed: Option<ComputedShapeItem>,
}

/// The result shape of a select query.
#[derive(Debug, PartialEq, Eq)]
pub struct Shape {
    pub(crate) items: Vec<ShapeItem>,
}

/// One ordering item.
#[derive(Debug, PartialEq, Eq)]
pub struct OrderExpr {
    pub(crate) expr: Expr,
    pub(crate) direction: OrderDirection,
}

/// A `select` query.
#[derive(Debug, PartialEq, Eq)]
pub struct SelectQuery {
    pub(crate) root_type_name: String,
    pub(crate) shape: Shape,
    pub(crate) filter: Option<Expr>,
    pub(crate) order_by: Vec<OrderExpr>,
    pub(crate) limit: Option<i64>,
    pub(crate) offset: Option<i64>,
}

/// `field := value` in an insert.
#[derive(Debug, Clone, PartialEq, Eq)]
pub struct Assignment {
    pub(crate) field_name: String,
    pub(crate) value: Literal,
}

/// An `insert` query.
#[derive(Debug, Clone, PartialEq, Eq)]
pub struct InsertQuery {
    pub(crate) root_type_name: String,
    pub(crate) assignments: Vec<Assignment>,
}

// ---------------------------------------------------------------------------
// Mathematical values
// ---------------------------------------------------------------------------
pub ghost enum LiteralView {
    String(Seq<char>),
    Int64(i64),
    Float64(Seq<char>),
    Bool(bool),
    Null,
}

pub ghost enum ExprView {
    Literal(LiteralView),
    Path(Seq<Seq<char>>),
    Compare(Box<ExprView>, CompareOp, Box<ExprView>),
    Arithmetic(Box<ExprView>, ArithmeticOp, Box<ExprView>),
    UnaryArithmetic(UnaryArithmeticOp, Box<ExprView>),
    FunctionCall(Seq<char>, Seq<ExprView>),
    And(Box<ExprView>, Box<ExprView>),
    Or(Box<ExprView>, Box<ExprView>),
    Not(Box<ExprView>),
    In(Box<ExprView>, InOp, Seq<ExprView>),
}

pub ghost enum ShapeItemView {
    Field(Seq<Seq<char>>, Option<Seq<ShapeItemView>>),
    Computed(Seq<char>, ExprView),
}

pub ghost struct OrderView {
    pub expr: ExprView,
    pub direction: OrderDirection,
}

pub ghost struct SelectView {
    pub root_type_name: Seq<char>,
    pub shape: Seq<ShapeItemView>,
    pub filter: Option<ExprView>,
    pub order_by: Seq<OrderView>,
    pub limit: Option<i64>,
    pub offset: Option<i64>,
}

pub ghost struct InsertView {
    pub root_type_name: Seq<char>,
    pub assignments: Seq<(Seq<char>, LiteralView)>,
}

impl View for Literal {
    type V = LiteralView;

    open spec fn view(&self) -> LiteralView {
        match self {
            Literal::String(s) => LiteralView::String(s@),
            Literal::Int64(v) => LiteralView::Int64(*v),
            Literal::Float64(s) => LiteralView::Float64(s@),
            Literal::Bool(b) => LiteralView::Bool(*b),
            Literal::Null => LiteralView::Null,
        }
    }
}

pub open(crate) spec fn steps_view(s: Seq<PathStep>) -> Seq<Seq<char>> {
    s.map_values(|p: PathStep| p.field_name@)
}

pub proof fn lemma_steps_view_len(s: Seq<PathStep>)
    ensures
        steps_view(s).len() == s.len(),
        forall|i: int| 0 <= i < s.len() ==> #[trigger] steps_view(s)[i] == s[i].spec_field_name(),
{
}

impl View for Path {
    type V = Seq<Seq<char>>;

    open(crate) spec fn view(&self) -> Seq<Seq<char>> {
        steps_view(self.steps@)
    }
}

pub open(crate) spec fn expr_view(e: Expr) -> ExprView
    decreases e,
{
    match e {
        Expr::Literal(l) => ExprView::Literal(l@),
        Expr::Path(p) => ExprView::Path(p@),
        Expr::Compare(c) => ExprView::Compare(
            Box::new(expr_view(*c.left)),
            c.op,
            Box::new(expr_view(*c.right)),
        ),
        Expr::Arithmetic(a) => ExprView::Arithmetic(
            Box::new(expr_view(*a.left)),
            a.op,
            Box::new(expr_view(*a.right)),
        ),
        Expr::UnaryArithmetic(u) => ExprView::UnaryArithmetic(u.op, Box::new(expr_view(*u.operand))),
        Expr::FunctionCall(f) => ExprView::FunctionCall(f.name@, exprs_view(f.args@)),
        Expr::And(l, r) => ExprView::And(Box::new(expr_view(*l)), Box::new(expr_view(*r))),
        Expr::Or(l, r) => ExprView::Or(Box::new(expr_view(*l)), Box::new(expr_view(*r))),
        Expr::Not(x) => ExprView::Not(Box::new(expr_view(*x))),
        Expr::In(i) => ExprView::In(Box::new(expr_view(*i.left)), i.op, exprs_view(i.right@)),
    }
}

pub open(crate) spec fn exprs_view(s: Seq<Expr>) -> Seq<ExprView>
    decreases s,
{
    if s.len() == 0 {
        seq![]
    } else {
        exprs_view(s.drop_last()).push(expr_view(s.last()))
    }
}

pub proof fn lemma_exprs_view_index(s: Seq<Expr>)
    ensures
        exprs_view(s).len() == s.len(),
        forall|i: int| 0 <= i < s.len() ==> #[trigger] exprs_view(s)[i] == expr_view(s[i]),
    decreases s.len(),
{
    if s.len() > 0 {
        lemma_exprs_view_index(s.drop_last());
        assert forall|i: int| 0 <= i < s.len() implies #[trigger] exprs_view(s)[i] == expr_view(s[i]) by {
            if i < s.len() - 1 {
                assert(s.drop_last()[i] == s[i]);
            }
        }
    }
}

pub proof fn lemma_items_view_index(s: Seq<ShapeItem>)
    ensures
        items_view(s).len() == s.len(),
        forall|i: int| 0 <= i < s.len() ==> #[trigger] items_view(s)[i] == item_view(s[i]),
    decreases s.len(),
{
    if s.len() > 0 {
        lemma_items_view_index(s.drop_last());
        assert forall|i: int| 0 <= i < s.len() implies #[trigger] items_view(s)[i] == item_view(s[i]) by {
            if i < s.len() - 1 {
                assert(s.drop_last()[i] == s[i]);
            }
        }
    }
}

impl View for Expr {
    type V = ExprView;

    open(crate) spec fn view(&self) -> ExprView {
        expr_view(*self)
    }
}

pub open(crate) spec fn shape_view(s: Shape) -> Seq<ShapeItemView>
    decreases s,
{
    items_view(s.items@)
}

pub open(crate) spec fn items_view(s: Seq<ShapeItem>) -> Seq<ShapeItemView>
    decreases s,
{
    if s.len() == 0 {
        seq![]
    } else {
        items_view(s.drop_last()).push(item_view(s.last()))
    }
}

pub open(crate) spec fn item_view(i: ShapeItem) -> ShapeItemView
    decreases i,
{
    match i.computed {
        Some(c) => ShapeItemView::Computed(c.output_name@, expr_view(c.expr)),
        None => ShapeItemView::Field(
            i.path@,
            match i.child_shape {
                Some(s) => Some(shape_view(s)),
                None => None,
            },
        ),
    }
}

impl View for ShapeItem {
    type V = ShapeItemView;

    open(crate) spec fn view(&self) -> ShapeItemView {
        item_view(*self)
    }
}

impl View for Shape {
    type V = Seq<ShapeItemView>;

    open(crate) spec fn view(&self) -> Seq<ShapeItemView> {
        shape_view(*self)
    }
}

impl View for OrderExpr {
    type V = OrderView;

    open(crate) spec fn view(&self) -> OrderView {
        OrderView { expr: self.expr@, direction: self.direction }
    }
}

pub open(crate) spec fn orders_view(s: Seq<OrderExpr>) -> Seq<OrderView> {
    s.map_values(|o: OrderExpr| o@)
}

pub open(crate) spec fn option_expr_view(e: Option<Expr>) -> Option<ExprView> {
    match e {
        Some(e) => Some(e@),
        None => None,
    }
}

impl View for SelectQuery {
    type V = SelectView;

    open(crate) spec fn view(&self) -> SelectView {
        SelectView {
            root_type_name: self.root_type_name@,
            shape: self.shape@,
            filter: option_expr_view(self.filter),
            order_by: orders_view(self.order_by@),
            limit: self.limit,
            offset: self.offset,
        }
    }
}

impl View for Assignment {
    type V = (Seq<char>, LiteralView);

    open(crate) spec fn view(&self) -> (Seq<char>, LiteralView) {
        (self.field_name@, self.value@)
    }
}

pub open(crate) spec fn assignments_view(s: Seq<Assignment>) -> Seq<(Seq<char>, LiteralView)> {
    s.map_values(|a: Assignment| a@)
}

impl View for InsertQuery {
    type V = InsertView;

    open(crate) spec fn view(&self) -> InsertView {
        InsertView {
            root_type_name: self.root_type_name@,
            assignments: assignments_view(self.assignments@),
        }
    }
}

// ---------------------------------------------------------------------------
// Field accessors for contracts
// ---------------------------------------------------------------------------
impl PathStep {
    pub open(crate) spec fn spec_field_name(self) -> Seq<char> {
        self.field_name@
    }
}

impl CompareExpr {
    pub open(crate) spec fn spec_left(self) -> Expr {
        *self.left
    }

    pub open(crate) spec fn spec_op(self) -> CompareOp {
        self.op
    }

    pub open(crate) spec fn spec_right(self) -> Expr {
        *self.right
    }
}

impl ArithmeticExpr {
    pub open(crate) spec fn spec_left(self) -> Expr {
        *self.left
    }

    pub open(crate) spec fn spec_op(self) -> ArithmeticOp {
        self.op
    }

    pub open(crate) spec fn spec_right(self) -> Expr {
        *self.right
    }
}

impl UnaryArithmeticExpr {
    pub open(crate) spec fn spec_op(self) -> UnaryArithmeticOp {
        self.op
    }

    pub open(crate) spec fn spec_operand(self) -> Expr {
        *self.operand
    }
}

impl FunctionCallExpr {
    pub open(crate) spec fn spec_name(self) -> Seq<char> {
        self.name@
    }

    pub open(crate) spec fn spec_args(self) -> Seq<Expr> {
        self.args@
    }
}

impl InExpr {
    pub open(crate) spec fn spec_left(self) -> Expr {
        *self.left
    }

    pub open(crate) spec fn spec_op(self) -> InOp {
        self.op
    }

    pub open(crate) spec fn spec_right(self) -> Seq<Expr> {
        self.right@
    }
}

impl ComputedShapeItem {
    pub open(crate) spec fn spec_output_name(self) -> Seq<char> {
        self.output_name@
    }

    pub open(crate) spec fn spec_expr(self) -> Expr {
        self.expr
    }
}

impl OrderExpr {
    pub open(crate) spec fn spec_expr(self) -> Expr {
        self.expr
    }

    pub open(crate) spec fn spec_direction(self) -> OrderDirection {
        self.direction
    }
}

impl SelectQuery {
    pub open(crate) spec fn spec_root_type_name(self) -> Seq<char> {
        self.root_type_name@
    }

    pub open(crate) spec fn spec_shape(self) -> Shape {
        self.shape
    }

    pub open(crate) spec fn spec_filter(self) -> Option<Expr> {
        self.filter
    }

    pub open(crate) spec fn spec_order_by(self) -> Seq<OrderExpr> {
        self.order_by@
    }

    pub open(crate) spec fn spec_limit(self) -> Option<i64> {
        self.limit
    }

    pub open(crate) spec fn spec_offset(self) -> Option<i64> {
        self.offset
    }
}

impl Shape {
    pub open(crate) spec fn spec_items(self) -> Seq<ShapeItem> {
        self.items@
    }
}

// ---------------------------------------------------------------------------
// Constructors and accessors
// ---------------------------------------------------------------------------
impl PathStep {
    pub fn new(field_name: &str) -> (r: Self)
        ensures
            r.spec_field_name() == field_name@,
    {
        PathStep { field_name: owned(field_name) }
    }

    pub fn field_name(&self) -> (r: &str)
        ensures
            r@ == self.spec_field_name(),
    {
        self.field_name.as_str()
    }
}

impl Path {
    pub fn new(steps: Vec<PathStep>) -> (r: Self)
        ensures
            r@ == steps_view(steps@),
    {
        Path { steps }
    }

    pub fn steps(&self) -> (r: &[PathStep])
        ensures
            steps_view(r@) == self@,
    {
        self.steps.as_slice()
    }
}

impl ShapeItem {
    /// A computed item's path is the one step of its output name, and it has
    /// no nested shape.
    #[verifier::type_invariant]
    spec fn computed_path_is_output_name(self) -> bool {
        match self.computed {
            Some(c) => self.path@ == seq![c.output_name@] && self.child_shape is None,
            None => true,
        }
    }

    /// A field item, with the nested shape of a link if one was written.
    pub fn new(path: Path, child_shape: Option<Shape>) -> (r: Self)
        ensures
            r@ == ShapeItemView::Field(
                path@,
                match child_shape {
                    Some(s) => Some(s@),
                    None => None,
                },
            ),
    {
        ShapeItem { path, child_shape, computed: None }
    }

    /// A computed item `output_name := expr`.
    pub fn computed(output_name: &str, expr: Expr) -> (r: Self)
        ensures
            r@ == ShapeItemView::Computed(output_name@, expr@),
    {
        let mut steps: Vec<PathStep> = Vec::new();
        let step = PathStep::new(output_name);
        steps.push(step);
        let path = Path::new(steps);
        proof {
            assert(path@ =~= seq![output_name@]);
        }
        ShapeItem {
            path,
            child_shape: None,
            computed: Some(ComputedShapeItem { output_name: owned(output_name), expr }),
        }
    }

    pub fn kind(&self) -> (r: ShapeItemKind)
        ensures
            r == ShapeItemKind::Computed <==> self@ is Computed,
    {
        match &self.computed {
            Some(_) => ShapeItemKind::Computed,
            None => ShapeItemKind::Field,
        }
    }

    /// The selected path; for a computed item, the one step of its output
    /// name.
    pub fn path(&self) -> (r: &Path)
        ensures
            self@ matches ShapeItemView::Field(p, _) ==> r@ == p,
            self@ matches ShapeItemView::Computed(n, _) ==> r@ == seq![n],
    {
        proof {
            use_type_invariant(self);
        }
        &self.path
    }

    pub open(crate) spec fn spec_child_shape(self) -> Option<Shape> {
        self.child_shape
    }

    pub fn child_shape(&self) -> (r: Option<&Shape>)
        ensures
            r matches Some(s) ==> self.spec_child_shape() == Some(*s),
            self@ matches ShapeItemView::Field(_, c) ==> match r {
                Some(s) => c == Some(s@),
                None => c is None,
            },
            self@ is Computed ==> r is None,
    {
        match &self.computed {
            Some(_) => None,
            None => self.child_shape.as_ref(),
        }
    }

    pub fn as_computed(&self) -> (r: Option<&ComputedShapeItem>)
        ensures
            match (r, self@) {
                (Some(c), ShapeItemView::Computed(name, e)) => c.spec_output_name() == name && c.spec_expr()@ == e,
                (None, ShapeItemView::Field(_, _)) => true,
                _ => false,
            },
    {
        self.computed.as_ref()
    }
}

impl ComputedShapeItem {
    pub fn output_name(&self) -> (r: &str)
        ensures
            r@ == self.spec_output_name(),
    {
        self.output_name.as_str()
    }

    pub fn expr(&self) -> (r: &Expr)
        ensures
            *r == self.spec_expr(),
    {
        &self.expr
    }
}

impl Shape {
    pub fn new(items: Vec<ShapeItem>) -> (r: Self)
        ensures
            r@ == items_view(items@),
    {
        Shape { items }
    }

    pub fn items(&self) -> (r: &[ShapeItem])
        ensures
            items_view(r@) == self@,
            r@ == self.spec_items(),
    {
        self.items.as_slice()
    }
}

impl CompareExpr {
    pub fn new(left: Expr, op: CompareOp, right: Expr) -> (r: Self)
        ensures
            r.spec_left() == left,
            r.spec_op() == op,
            r.spec_right() == right,
    {
        CompareExpr { left: Box::new(left), op, right: Box::new(right) }
    }

    pub fn left(&self) -> (r: &Expr)
        ensures
            *r == self.spec_left(),
    {
        &self.left
    }

    pub fn op(&self) -> (r: CompareOp)
        ensures
            r == self.spec_op(),
    {
        self.op
    }

    pub fn right(&self) -> (r: &Expr)
        ensures
            *r == self.spec_right(),
    {
        &self.right
    }
}

impl ArithmeticExpr {
    pub fn new(left: Expr, op: ArithmeticOp, right: Expr) -> (r: Self)
        ensures
            r.spec_left() == left,
            r.spec_op() == op,
            r.spec_right() == right,
    {
        ArithmeticExpr { left: Box::new(left), op, right: Box::new(right) }
    }

    pub fn left(&self) -> (r: &Expr)
        ensures
            *r == self.spec_left(),
    {
        &self.left
    }

    pub fn op(&self) -> (r: ArithmeticOp)
        ensures
            r == self.spec_op(),
    {
        self.op
    }

    pub fn right(&self) -> (r: &Expr)
        ensures
            *r == self.spec_right(),
    {
        &self.right
    }
}

impl UnaryArithmeticExpr {
    pub fn new(op: UnaryArithmeticOp, operand: Expr) -> (r: Self)
        ensures
            r.spec_op() == op,
            r.spec_operand() == operand,
    {
        UnaryArithmeticExpr { op, operand: Box::new(operand) }
    }

    pub fn op(&self) -> (r: UnaryArithmeticOp)
        ensures
            r == self.spec_op(),
    {
        self.op
    }

    pub fn operand(&self) -> (r: &Expr)
        ensures
            *r == self.spec_operand(),
    {
        &self.operand
    }
}

impl FunctionCallExpr {
    pub fn new(name: &str, args: Vec<Expr>) -> (r: Self)
        ensures
            r.spec_name() == name@,
            r.spec_args() == args@,
    {
        FunctionCallExpr { name: owned(name), args }
    }

    pub fn name(&self) -> (r: &str)
        ensures
            r@ == self.spec_name(),
    {
        self.name.as_str()
    }

    pub fn args(&self) -> (r: &[Expr])
        ensures
            r@ == self.spec_args(),
    {
        self.args.as_slice()
    }
}

impl InExpr {
    pub fn new(left: Expr, op: InOp, right: Vec<Expr>) -> (r: Self)
        ensures
            r.spec_left() == left,
            r.spec_op() == op,
            r.spec_right() == right@,
    {
        InExpr { left: Box::new(left), op, right }
    }

    pub fn left(&self) -> (r: &Expr)
        ensures
            *r == self.spec_left(),
    {
        &self.left
    }

    pub fn op(&self) -> (r: InOp)
        ensures
            r == self.spec_op(),
    {
        self.op
    }

    pub fn right(&self) -> (r: &[Expr])
        ensures
            r@ == self.spec_right(),
    {
        self.right.as_slice()
    }
}

impl OrderExpr {
    pub fn new(expr: Expr, direction: OrderDirection) -> (r: Self)
        ensures
            r.spec_expr() == expr,
            r.spec_direction() == direction,
    {
        OrderExpr { expr, direction }
    }

    pub fn expr(&self) -> (r: &Expr)
        ensures
            *r == self.spec_expr(),
    {
        &self.expr
    }

    pub fn direction(&self) -> (r: OrderDirection)
        ensures
            r == self.spec_direction(),
    {
        self.direction
    }
}

impl SelectQuery {
    pub fn new(
        root_type_name: &str,
        shape: Shape,
        filter: Option<Expr>,
        order_by: Vec<OrderExpr>,
        limit: Option<i64>,
        offset: Option<i64>,
    ) -> (r: Self)
        ensures
            r.spec_root_type_name() == root_type_name@,
            r.spec_shape() == shape,
            r.spec_filter() == filter,
            r.spec_order_by() == order_by@,
            r.spec_limit() == limit,
            r.spec_offset() == offset,
    {
        SelectQuery { root_type_name: owned(root_type_name), shape, filter, order_by, limit, offset }
    }

    pub fn root_type_name(&self) -> (r: &str)
        ensures
            r@ == self.spec_root_type_name(),
    {
        self.root_type_name.as_str()
    }

    pub fn shape(&self) -> (r: &Shape)
        ensures
            *r == self.spec_shape(),
    {
        &self.shape
    }

    pub fn filter(&self) -> (r: Option<&Expr>)
        ensures
            match r {
                Some(e) => self.spec_filter() == Some(*e),
                None => self.spec_filter() is None,
            },
    {
        self.filter.as_ref()
    }

    pub fn order_by(&self) -> (r: &[OrderExpr])
        ensures
            r@ == self.spec_order_by(),
    {
        self.order_by.as_slice()
    }

    pub fn limit(&self) -> (r: Option<i64>)
        ensures
            r == self.spec_limit(),
    {
        self.limit
    }

    pub fn offset(&self) -> (r: Option<i64>)
        ensures
            r == self.spec_offset(),
    {
        self.offset
    }
}

impl Assignment {
    pub fn new(field_name: &str, value: Literal) -> (r: Self)
        ensures
            r@ == (field_name@, value@),
    {
        Assignment { field_name: owned(field_name), value }
    }

    pub fn field_name(&self) -> (r: &str)
        ensures
            r@ == self@.0,
    {
        self.field_name.as_str()
    }

    pub fn value(&self) -> (r: &Literal)
        ensures
            r@ == self@.1,
    {
        &self.value
    }
}

impl InsertQuery {
    pub fn new(root_type_name: &str, assignments: Vec<Assignment>) -> (r: Self)
        ensures
            r@ == (InsertView {
                root_type_name: root_type_name@,
                assignments: assignments_view(assignments@),
            }),
    {
        InsertQuery { root_type_name: owned(root_type_name), assignments }
    }

    pub fn root_type_name(&self) -> (r: &str)
        ensures
            r@ == self@.root_type_name,
    {
        self.root_type_name.as_str()
    }

    pub fn assignments(&self) -> (r: &[Assignment])
        ensures
            assignments_view(r@) == self@.assignments,
    {
        self.assignments.as_slice()
    }
}

} // verus!
