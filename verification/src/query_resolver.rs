//! Semantic resolution of parsed queries against a schema catalog.
//!
//! The resolver turns the syntax tree into Semantic IR: it finds the root
//! object type, resolves shape items, paths, filters and ordering against the
//! catalog, checks the type rules of comparisons, membership tests and
//! arithmetic, and computes the cardinality of every value. It knows nothing
//! of SQLite.
use vstd::prelude::*;
use crate::query_ast::{self, ExprView as AstExpr, LiteralView, ShapeItemView as AstItem};
use crate::query_ir::{
    self, ArithmeticOp, CompareOp, ExprView, InOp, ItemView, OrderDirection, OrderView, PathView,
    ShapeView, StepKindView, StepView, UnaryArithmeticOp, ValueView, combine, path_cardinality,
};
use crate::schema::{
    Cardinality, Field, FieldRefView, ObjectTypeRef, ObjectTypeRefView, ScalarType, SchemaCatalog,
};
use crate::text::{owned, str_equal};

verus! {

/// Semantic errors of resolution.
#[derive(Debug, Clone, PartialEq, Eq)]
pub enum ResolveError {
    UnknownObjectType { name: String },
    UnknownField { object_type: String, field: String },
    NestedShapeOnScalarField { object_type: String, field: String },
    MissingShapeOnLinkField { object_type: String, field: String },
    UnsupportedPath,
    UnsupportedExpr { expr_type: String },
    UnsupportedLiteral { literal: String },
    IncompatibleOperandTypes { expected: String, actual: String },
    NonNumericArithmeticOperand { actual: String },
    NullComparisonOnNonOptionalPath { cardinality: String },
    DuplicateOutputName { name: String },
    AssignmentToImplicitField { object_type: String, field: String },
    IncompatibleAssignmentType { object_type: String, field: String, expected: String, actual: String },
    NullAssignmentToRequiredField { object_type: String, field: String },
    MissingRequiredField { object_type: String, field: String },
    MultiLinkAssignmentUnsupported { object_type: String, field: String },
}

pub ghost enum ResolveErrorView {
    UnknownObjectType(Seq<char>),
    UnknownField(Seq<char>, Seq<char>),
    NestedShapeOnScalarField(Seq<char>, Seq<char>),
    MissingShapeOnLinkField(Seq<char>, Seq<char>),
    UnsupportedPath,
    UnsupportedExpr(Seq<char>),
    UnsupportedLiteral(Seq<char>),
    IncompatibleOperandTypes(Seq<char>, Seq<char>),
    NonNumericArithmeticOperand(Seq<char>),
    NullComparisonOnNonOptionalPath(Seq<char>),
    DuplicateOutputName(Seq<char>),
    AssignmentToImplicitField(Seq<char>, Seq<char>),
    IncompatibleAssignmentType(Seq<char>, Seq<char>, Seq<char>, Seq<char>),
    NullAssignmentToRequiredField(Seq<char>, Seq<char>),
    MissingRequiredField(Seq<char>, Seq<char>),
    MultiLinkAssignmentUnsupported(Seq<char>, Seq<char>),
}

impl View for ResolveError {
    type V = ResolveErrorView;

    open spec fn view(&self) -> ResolveErrorView {
        match self {
            ResolveError::UnknownObjectType { name } => ResolveErrorView::UnknownObjectType(name@),
            ResolveError::UnknownField { object_type, field } => ResolveErrorView::UnknownField(
                object_type@,
                field@,
            ),
            ResolveError::NestedShapeOnScalarField { object_type, field } =>
                ResolveErrorView::NestedShapeOnScalarField(object_type@, field@),
            ResolveError::MissingShapeOnLinkField { object_type, field } =>
                ResolveErrorView::MissingShapeOnLinkField(object_type@, field@),
            ResolveError::UnsupportedPath => ResolveErrorView::UnsupportedPath,
            ResolveError::UnsupportedExpr { expr_type } => ResolveErrorView::UnsupportedExpr(
                expr_type@,
            ),
            ResolveError::UnsupportedLiteral { literal } => ResolveErrorView::UnsupportedLiteral(
                literal@,
            ),
            ResolveError::IncompatibleOperandTypes { expected, actual } =>
                ResolveErrorView::IncompatibleOperandTypes(expected@, actual@),
            ResolveError::NonNumericArithmeticOperand { actual } =>
                ResolveErrorView::NonNumericArithmeticOperand(actual@),
            ResolveError::NullComparisonOnNonOptionalPath { cardinality } =>
                ResolveErrorView::NullComparisonOnNonOptionalPath(cardinality@),
            ResolveError::DuplicateOutputName { name } => ResolveErrorView::DuplicateOutputName(
                name@,
            ),
            ResolveError::AssignmentToImplicitField { object_type, field } =>
                ResolveErrorView::AssignmentToImplicitField(object_type@, field@),
            ResolveError::IncompatibleAssignmentType { object_type, field, expected, actual } =>
                ResolveErrorView::IncompatibleAssignmentType(
                object_type@,
                field@,
                expected@,
                actual@,
            ),
            ResolveError::NullAssignmentToRequiredField { object_type, field } =>
                ResolveErrorView::NullAssignmentToRequiredField(object_type@, field@),
            ResolveError::MissingRequiredField { object_type, field } =>
                ResolveErrorView::MissingRequiredField(object_type@, field@),
            ResolveError::MultiLinkAssignmentUnsupported { object_type, field } =>
                ResolveErrorView::MultiLinkAssignmentUnsupported(object_type@, field@),
        }
    }
}

/// Where a typed value comes from, with its scalar type.
#[derive(Debug, Clone, Copy, PartialEq, Eq, Structural)]
pub enum ValueSource {
    Path(ScalarType),
    Literal(ScalarType),
    Computed(ScalarType),
}

// ---------------------------------------------------------------------------
// Type rules
// ---------------------------------------------------------------------------
pub open spec fn source_type(s: ValueSource) -> ScalarType {
    match s {
        ValueSource::Path(t) => t,
        ValueSource::Literal(t) => t,
        ValueSource::Computed(t) => t,
    }
}

pub open spec fn is_numeric(t: ScalarType) -> bool {
    t == ScalarType::Int64 || t == ScalarType::Float64
}

/// A literal of type `actual` fits a value of type `expected`: the same
/// type, or a string for a `uuid` or `datetime`.
pub open spec fn literal_fits(expected: ScalarType, actual: ScalarType) -> bool {
    expected == actual || (expected == ScalarType::Uuid && actual == ScalarType::Str) || (expected
        == ScalarType::DateTime && actual == ScalarType::Str)
}

/// Two values may be compared: the same type, or a literal that fits the
/// type of the other side.
pub open spec fn compatible(left: ValueSource, right: ValueSource) -> bool {
    match (left, right) {
        (ValueSource::Literal(l), ValueSource::Literal(r)) => l == r,
        (ValueSource::Literal(actual), expected) => literal_fits(source_type(expected), actual),
        (expected, ValueSource::Literal(actual)) => literal_fits(source_type(expected), actual),
        (l, r) => source_type(l) == source_type(r),
    }
}

pub open spec fn scalar_type_name(t: ScalarType) -> Seq<char> {
    match t {
        ScalarType::Str => "str"@,
        ScalarType::Int64 => "int64"@,
        ScalarType::Float64 => "float64"@,
        ScalarType::Bool => "bool"@,
        ScalarType::Uuid => "uuid"@,
        ScalarType::DateTime => "datetime"@,
    }
}

pub open spec fn cardinality_name(c: Cardinality) -> Seq<char> {
    match c {
        Cardinality::Optional => "optional"@,
        Cardinality::Required => "required"@,
        Cardinality::Many => "many"@,
    }
}

pub open spec fn mismatch(expected: ScalarType, actual: ScalarType) -> ResolveErrorView {
    ResolveErrorView::IncompatibleOperandTypes(scalar_type_name(expected), scalar_type_name(actual))
}

pub open spec fn numeric_check(t: ScalarType) -> Result<(), ResolveErrorView> {
    if is_numeric(t) {
        Ok(())
    } else {
        Err(ResolveErrorView::NonNumericArithmeticOperand(scalar_type_name(t)))
    }
}

/// Result type of `left op right`: both numeric and equal, and `int64` for
/// `%`.
pub open spec fn arithmetic_type(op: query_ast::ArithmeticOp, left: ScalarType, right: ScalarType) -> Result<
    ScalarType,
    ResolveErrorView,
> {
    if !is_numeric(left) {
        Err(ResolveErrorView::NonNumericArithmeticOperand(scalar_type_name(left)))
    } else if !is_numeric(right) {
        Err(ResolveErrorView::NonNumericArithmeticOperand(scalar_type_name(right)))
    } else if left != right {
        Err(mismatch(left, right))
    } else if op == query_ast::ArithmeticOp::Mod && left != ScalarType::Int64 {
        Err(mismatch(ScalarType::Int64, left))
    } else {
        Ok(left)
    }
}

pub open spec fn ir_arithmetic_op(op: query_ast::ArithmeticOp) -> ArithmeticOp {
    match op {
        query_ast::ArithmeticOp::Add => ArithmeticOp::Add,
        query_ast::ArithmeticOp::Sub => ArithmeticOp::Sub,
        query_ast::ArithmeticOp::Mul => ArithmeticOp::Mul,
        query_ast::ArithmeticOp::Div => ArithmeticOp::Div,
        query_ast::ArithmeticOp::Mod => ArithmeticOp::Mod,
    }
}

pub open spec fn ir_unary_op(op: query_ast::UnaryArithmeticOp) -> UnaryArithmeticOp {
    match op {
        query_ast::UnaryArithmeticOp::Plus => UnaryArithmeticOp::Plus,
        query_ast::UnaryArithmeticOp::Minus => UnaryArithmeticOp::Minus,
    }
}

pub open spec fn ir_compare_op(op: query_ast::CompareOp) -> CompareOp {
    match op {
        query_ast::CompareOp::Eq => CompareOp::Eq,
        query_ast::CompareOp::Ne => CompareOp::Ne,
        query_ast::CompareOp::Lt => CompareOp::Lt,
        query_ast::CompareOp::Le => CompareOp::Le,
        query_ast::CompareOp::Gt => CompareOp::Gt,
        query_ast::CompareOp::Ge => CompareOp::Ge,
    }
}

pub open spec fn ir_in_op(op: query_ast::InOp) -> InOp {
    match op {
        query_ast::InOp::In => InOp::In,
        query_ast::InOp::NotIn => InOp::NotIn,
    }
}

/// The target type of a numeric cast function: `i64` or `f64`.
pub open spec fn cast_target(name: Seq<char>) -> Result<ScalarType, ResolveErrorView> {
    if name == "i64"@ {
        Ok(ScalarType::Int64)
    } else if name == "f64"@ {
        Ok(ScalarType::Float64)
    } else {
        Err(ResolveErrorView::UnsupportedExpr("function call"@))
    }
}

// ---------------------------------------------------------------------------
// Values
// ---------------------------------------------------------------------------
/// A decimal text with a digit other than `0`.
pub open spec fn has_nonzero_digit(text: Seq<char>) -> bool {
    exists|k: int| 0 <= k < text.len() && crate::text::is_digit(#[trigger] text[k]) && text[k] != '0'
}

/// A numeric literal known to be non-zero, possibly under unary signs.
pub open spec fn nonzero_literal(v: ValueView) -> bool
    decreases v,
{
    match v {
        ValueView::Literal(LiteralView::Int64(n)) => n != 0,
        ValueView::Literal(LiteralView::Float64(text)) => has_nonzero_digit(text),
        ValueView::UnaryArithmetic(_, x, _) => nonzero_literal(*x),
        _ => false,
    }
}

/// The value mentions a path.
pub open spec fn contains_path(v: ValueView) -> bool
    decreases v,
{
    match v {
        ValueView::Path(_) => true,
        ValueView::Literal(_) => false,
        ValueView::Arithmetic(l, _, r, _) => contains_path(*l) || contains_path(*r),
        ValueView::UnaryArithmetic(_, x, _) => contains_path(*x),
        ValueView::Cast(x, _) => contains_path(*x),
        ValueView::StringFunction(_, args, _) => args_contain_path(args),
    }
}

/// Some argument of a string function mentions a path.
pub open spec fn args_contain_path(args: Seq<(ValueView, ScalarType)>) -> bool
    decreases args,
{
    if args.len() == 0 {
        false
    } else {
        args_contain_path(args.drop_last()) || contains_path(args.last().0)
    }
}

/// Cardinality of a value: a path's result cardinality, required for a
/// literal, combined over arithmetic; a division or remainder by something
/// other than a non-zero literal may give null, so a required quotient is
/// optional. A many-valued operand of an operator is an error.
pub open spec fn value_cardinality(v: ValueView) -> Result<Cardinality, ResolveErrorView>
    decreases v,
{
    match v {
        ValueView::Path(p) => Ok(p.cardinality),
        ValueView::Literal(_) => Ok(Cardinality::Required),
        ValueView::Arithmetic(l, op, r, _) => match value_cardinality(*l) {
            Err(e) => Err(e),
            Ok(cl) => match value_cardinality(*r) {
                Err(e) => Err(e),
                Ok(cr) => {
                    let c = combine(cl, cr);
                    let c = if c == Cardinality::Required && (op == ArithmeticOp::Div || op
                        == ArithmeticOp::Mod) && !nonzero_literal(*r) {
                        Cardinality::Optional
                    } else {
                        c
                    };
                    if c == Cardinality::Many {
                        Err(ResolveErrorView::UnsupportedPath)
                    } else {
                        Ok(c)
                    }
                },
            },
        },
        ValueView::UnaryArithmetic(_, x, _) => match value_cardinality(*x) {
            Err(e) => Err(e),
            Ok(c) => if c == Cardinality::Many {
                Err(ResolveErrorView::UnsupportedPath)
            } else {
                Ok(c)
            },
        },
        ValueView::Cast(x, _) => match value_cardinality(*x) {
            Err(e) => Err(e),
            Ok(c) => if c == Cardinality::Many {
                Err(ResolveErrorView::UnsupportedPath)
            } else {
                Ok(c)
            },
        },
        ValueView::StringFunction(_, _, c) => if c == Cardinality::Many {
            Err(ResolveErrorView::UnsupportedPath)
        } else {
            Ok(c)
        },
    }
}

/// Ordering needs single values: no path in the value may be many.
pub open spec fn single_valued(v: ValueView) -> Result<(), ResolveErrorView>
    decreases v,
{
    match v {
        ValueView::Path(p) => if p.cardinality == Cardinality::Many {
            Err(ResolveErrorView::UnsupportedPath)
        } else {
            Ok(())
        },
        ValueView::Literal(_) => Ok(()),
        ValueView::Arithmetic(l, _, r, _) => match single_valued(*l) {
            Err(e) => Err(e),
            Ok(_) => single_valued(*r),
        },
        ValueView::UnaryArithmetic(_, x, _) => single_valued(*x),
        ValueView::Cast(x, _) => single_valued(*x),
        ValueView::StringFunction(_, _, c) => if c == Cardinality::Many {
            Err(ResolveErrorView::UnsupportedPath)
        } else {
            Ok(())
        },
    }
}

/// The IR literal and source of a syntax literal; `null` is typed `str`.
pub open spec fn typed_literal(l: LiteralView) -> (ValueView, ValueSource) {
    (
        ValueView::Literal(l),
        ValueSource::Literal(
            match l {
                LiteralView::String(_) => ScalarType::Str,
                LiteralView::Int64(_) => ScalarType::Int64,
                LiteralView::Float64(_) => ScalarType::Float64,
                LiteralView::Bool(_) => ScalarType::Bool,
                LiteralView::Null => ScalarType::Str,
            },
        ),
    )
}

/// The steps of `path[k..]`, starting at the object type named `current`:
/// every step but the last is a link, the last is a scalar field.
pub open(crate) spec fn path_steps(c: SchemaCatalog, current: Seq<char>, path: Seq<Seq<char>>, k: int) -> Result<
    (Seq<StepView>, ScalarType),
    ResolveErrorView,
>
    decreases path.len() - k,
{
    if k < 0 || k >= path.len() {
        Err(ResolveErrorView::UnsupportedPath)
    } else {
        let name = path[k];
        let last = k == path.len() - 1;
        match c.spec_field(current, name) {
            None => Err(ResolveErrorView::UnknownField(current, name)),
            Some(f) => {
                let field_ref = c.spec_field_ref(current, name).unwrap();
                match f {
                    Field::Scalar(s) => if !last {
                        Err(ResolveErrorView::UnsupportedPath)
                    } else {
                        Ok(
                            (
                                seq![
                                    StepView {
                                        field: field_ref,
                                        kind: StepKindView::Scalar,
                                        cardinality: f.spec_cardinality(),
                                    },
                                ],
                                s.spec_scalar_type(),
                            ),
                        )
                    },
                    Field::Link(l) => if last {
                        Err(ResolveErrorView::UnsupportedPath)
                    } else {
                        match c.spec_type_ref(l.spec_target()) {
                            None => Err(ResolveErrorView::UnknownObjectType(l.spec_target())),
                            Some(target) => match path_steps(c, target.name, path, k + 1) {
                                Err(e) => Err(e),
                                Ok((rest, t)) => Ok(
                                    (
                                        seq![
                                            StepView {
                                                field: field_ref,
                                                kind: StepKindView::Link(target),
                                                cardinality: f.spec_cardinality(),
                                            },
                                        ] + rest,
                                        t,
                                    ),
                                ),
                            },
                        }
                    },
                }
            },
        }
    }
}

/// A path value from `source`.
pub open(crate) spec fn typed_path(c: SchemaCatalog, source: ObjectTypeRefView, path: Seq<Seq<char>>) -> Result<
    (ValueView, ValueSource),
    ResolveErrorView,
> {
    match path_steps(c, source.name, path, 0) {
        Err(e) => Err(e),
        Ok((steps, t)) => Ok(
            (
                ValueView::Path(
                    PathView { root: source, steps, cardinality: path_cardinality(steps) },
                ),
                ValueSource::Path(t),
            ),
        ),
    }
}

/// A typed scalar value expression.
pub open(crate) spec fn typed_value(c: SchemaCatalog, source: ObjectTypeRefView, e: AstExpr) -> Result<
    (ValueView, ValueSource),
    ResolveErrorView,
>
    decreases e,
{
    match e {
        AstExpr::Path(p) => typed_path(c, source, p),
        AstExpr::Literal(l) => Ok(typed_literal(l)),
        AstExpr::Arithmetic(l, op, r) => match typed_value(c, source, *l) {
            Err(err) => Err(err),
            Ok((lv, ls)) => match typed_value(c, source, *r) {
                Err(err) => Err(err),
                Ok((rv, rs)) => match arithmetic_type(op, source_type(ls), source_type(rs)) {
                    Err(err) => Err(err),
                    Ok(t) => Ok(
                        (
                            ValueView::Arithmetic(
                                Box::new(lv),
                                ir_arithmetic_op(op),
                                Box::new(rv),
                                t,
                            ),
                            ValueSource::Computed(t),
                        ),
                    ),
                },
            },
        },
        AstExpr::UnaryArithmetic(op, x) => match typed_value(c, source, *x) {
            Err(err) => Err(err),
            Ok((xv, xs)) => match numeric_check(source_type(xs)) {
                Err(err) => Err(err),
                Ok(_) => match value_cardinality(xv) {
                    Err(err) => Err(err),
                    Ok(card) => if card == Cardinality::Many {
                        Err(ResolveErrorView::UnsupportedPath)
                    } else {
                        Ok(
                            (
                                ValueView::UnaryArithmetic(
                                    ir_unary_op(op),
                                    Box::new(xv),
                                    source_type(xs),
                                ),
                                ValueSource::Computed(source_type(xs)),
                            ),
                        )
                    },
                },
            },
        },
        AstExpr::FunctionCall(name, args) => match cast_target(name) {
            Err(err) => Err(err),
            Ok(target) => if args.len() != 1 {
                Err(ResolveErrorView::UnsupportedExpr("numeric cast arity"@))
            } else {
                match typed_value(c, source, args[0]) {
                    Err(err) => Err(err),
                    Ok((xv, xs)) => match numeric_check(source_type(xs)) {
                        Err(err) => Err(err),
                        Ok(_) => match value_cardinality(xv) {
                            Err(err) => Err(err),
                            Ok(card) => if card == Cardinality::Many {
                                Err(ResolveErrorView::UnsupportedPath)
                            } else {
                                Ok(
                                    (
                                        ValueView::Cast(Box::new(xv), target),
                                        ValueSource::Computed(target),
                                    ),
                                )
                            },
                        },
                    },
                }
            },
        },
        AstExpr::Compare(_, _, _) => Err(ResolveErrorView::UnsupportedExpr("comparison value"@)),
        _ => Err(ResolveErrorView::UnsupportedExpr("boolean value"@)),
    }
}

/// A typed item of a membership list: literals, arithmetic and casts over
/// them, but no path and no `null`.
pub open spec fn membership_item(e: AstExpr) -> Result<(ValueView, ValueSource), ResolveErrorView>
    decreases e,
{
    match e {
        AstExpr::Literal(l) => if l == LiteralView::Null {
            Err(ResolveErrorView::UnsupportedExpr("null membership item"@))
        } else {
            Ok(typed_literal(l))
        },
        AstExpr::Arithmetic(l, op, r) => match membership_item(*l) {
            Err(err) => Err(err),
            Ok((lv, ls)) => match membership_item(*r) {
                Err(err) => Err(err),
                Ok((rv, rs)) => match arithmetic_type(op, source_type(ls), source_type(rs)) {
                    Err(err) => Err(err),
                    Ok(t) => Ok(
                        (
                            ValueView::Arithmetic(
                                Box::new(lv),
                                ir_arithmetic_op(op),
                                Box::new(rv),
                                t,
                            ),
                            ValueSource::Computed(t),
                        ),
                    ),
                },
            },
        },
        AstExpr::UnaryArithmetic(op, x) => match membership_item(*x) {
            Err(err) => Err(err),
            Ok((xv, xs)) => match numeric_check(source_type(xs)) {
                Err(err) => Err(err),
                Ok(_) => Ok(
                    (
                        ValueView::UnaryArithmetic(ir_unary_op(op), Box::new(xv), source_type(xs)),
                        ValueSource::Computed(source_type(xs)),
                    ),
                ),
            },
        },
        AstExpr::FunctionCall(name, args) => match cast_target(name) {
            Err(err) => Err(err),
            Ok(target) => if args.len() != 1 {
                Err(ResolveErrorView::UnsupportedExpr("numeric cast arity"@))
            } else {
                match membership_item(args[0]) {
                    Err(err) => Err(err),
                    Ok((xv, xs)) => match numeric_check(source_type(xs)) {
                        Err(err) => Err(err),
                        Ok(_) => Ok(
                            (ValueView::Cast(Box::new(xv), target), ValueSource::Computed(target)),
                        ),
                    },
                }
            },
        },
        _ => Err(ResolveErrorView::UnsupportedExpr("membership list item"@)),
    }
}

/// The items of `es[k..]`, each typed, or the first error in list order.
pub open spec fn membership_items(es: Seq<AstExpr>, k: int) -> Result<
    Seq<ValueView>,
    ResolveErrorView,
>
    decreases es.len() - k,
{
    if k < 0 || k >= es.len() {
        Ok(seq![])
    } else {
        match membership_item(es[k]) {
            Err(err) => Err(err),
            Ok((v, s)) => match membership_items(es, k + 1) {
                Err(err) => Err(err),
                Ok(rest) => Ok(seq![v] + rest),
            },
        }
    }
}

/// The first incompatible item of `es[k..]` against `left`, in list order,
/// if every item is typed.
pub open spec fn first_incompatible(es: Seq<AstExpr>, k: int, left: ValueSource) -> Option<ScalarType>
    decreases es.len() - k,
{
    if k < 0 || k >= es.len() {
        None
    } else {
        match membership_item(es[k]) {
            Err(_) => None,
            Ok((_, s)) => if !compatible(left, s) {
                Some(source_type(s))
            } else {
                first_incompatible(es, k + 1, left)
            },
        }
    }
}

/// A path value whose cardinality is optional, for a comparison with `null`.
pub open(crate) spec fn null_comparable(c: SchemaCatalog, source: ObjectTypeRefView, e: AstExpr) -> Result<
    ValueView,
    ResolveErrorView,
> {
    match typed_value(c, source, e) {
        Err(err) => Err(err),
        Ok((v, _)) => match v {
            ValueView::Path(p) => if p.cardinality == Cardinality::Optional {
                Ok(v)
            } else {
                Err(ResolveErrorView::NullComparisonOnNonOptionalPath(cardinality_name(p.cardinality)))
            },
            ValueView::Literal(_) => Err(ResolveErrorView::UnsupportedExpr("null comparison literal"@)),
            _ => Err(ResolveErrorView::UnsupportedExpr("null comparison value"@)),
        },
    }
}

/// `other = null` or `other != null`.
pub open(crate) spec fn null_compare(
    c: SchemaCatalog,
    source: ObjectTypeRefView,
    op: query_ast::CompareOp,
    other: AstExpr,
) -> Result<ExprView, ResolveErrorView> {
    if op == query_ast::CompareOp::Eq {
        match null_comparable(c, source, other) {
            Err(err) => Err(err),
            Ok(v) => Ok(ExprView::IsNull(v)),
        }
    } else if op == query_ast::CompareOp::Ne {
        match null_comparable(c, source, other) {
            Err(err) => Err(err),
            Ok(v) => Ok(ExprView::IsNotNull(v)),
        }
    } else {
        Err(ResolveErrorView::UnsupportedExpr("null comparison operator"@))
    }
}

pub open spec fn is_null(e: AstExpr) -> bool {
    e == AstExpr::Literal(LiteralView::Null)
}

/// A resolved filter expression.
pub open(crate) spec fn filter_expr(c: SchemaCatalog, source: ObjectTypeRefView, e: AstExpr) -> Result<
    ExprView,
    ResolveErrorView,
>
    decreases e,
{
    match e {
        AstExpr::Compare(l, op, r) => if is_null(*l) {
            null_compare(c, source, op, *r)
        } else if is_null(*r) {
            null_compare(c, source, op, *l)
        } else {
            match typed_value(c, source, *l) {
                Err(err) => Err(err),
                Ok((lv, ls)) => match typed_value(c, source, *r) {
                    Err(err) => Err(err),
                    Ok((rv, rs)) => if !compatible(ls, rs) {
                        Err(mismatch(source_type(ls), source_type(rs)))
                    } else {
                        Ok(ExprView::Compare(lv, ir_compare_op(op), rv))
                    },
                },
            }
        },
        AstExpr::And(l, r) => match filter_expr(c, source, *l) {
            Err(err) => Err(err),
            Ok(lv) => match filter_expr(c, source, *r) {
                Err(err) => Err(err),
                Ok(rv) => Ok(ExprView::And(Box::new(lv), Box::new(rv))),
            },
        },
        AstExpr::Or(l, r) => match filter_expr(c, source, *l) {
            Err(err) => Err(err),
            Ok(lv) => match filter_expr(c, source, *r) {
                Err(err) => Err(err),
                Ok(rv) => Ok(ExprView::Or(Box::new(lv), Box::new(rv))),
            },
        },
        AstExpr::Not(x) => match filter_expr(c, source, *x) {
            Err(err) => Err(err),
            Ok(xv) => Ok(ExprView::Not(Box::new(xv))),
        },
        AstExpr::In(l, op, items) => match typed_value(c, source, *l) {
            Err(err) => Err(err),
            Ok((lv, ls)) => if items.len() == 0 {
                Err(ResolveErrorView::UnsupportedExpr("empty membership list"@))
            } else {
                match membership_items(items, 0) {
                    Err(err) => Err(err),
                    Ok(values) => match first_incompatible(items, 0, ls) {
                        Some(t) => Err(mismatch(source_type(ls), t)),
                        None => Ok(ExprView::In(lv, ir_in_op(op), values)),
                    },
                }
            },
        },
        AstExpr::Literal(_) => Err(ResolveErrorView::UnsupportedExpr("literal"@)),
        AstExpr::Path(_) => Err(ResolveErrorView::UnsupportedExpr("path"@)),
        AstExpr::Arithmetic(_, _, _) => Err(ResolveErrorView::UnsupportedExpr("arithmetic value"@)),
        AstExpr::UnaryArithmetic(_, _) => Err(
            ResolveErrorView::UnsupportedExpr("unary arithmetic value"@),
        ),
        AstExpr::FunctionCall(_, _) => Err(ResolveErrorView::UnsupportedExpr("function call"@)),
    }
}

/// A resolved ordering value: a single-valued path, or arithmetic or a cast
/// over at least one path.
pub open(crate) spec fn order_value(c: SchemaCatalog, source: ObjectTypeRefView, e: AstExpr) -> Result<
    ValueView,
    ResolveErrorView,
> {
    match e {
        AstExpr::Path(p) => match typed_path(c, source, p) {
            Err(err) => Err(err),
            Ok((v, _)) => match single_valued(v) {
                Err(err) => Err(err),
                Ok(_) => Ok(v),
            },
        },
        AstExpr::Arithmetic(_, _, _) | AstExpr::UnaryArithmetic(_, _) | AstExpr::FunctionCall(
            _,
            _,
        ) => match typed_value(c, source, e) {
            Err(err) => Err(err),
            Ok((v, _)) => if !contains_path(v) {
                Err(ResolveErrorView::UnsupportedExpr("order value"@))
            } else {
                match single_valued(v) {
                    Err(err) => Err(err),
                    Ok(_) => Ok(v),
                }
            },
        },
        AstExpr::Literal(_) => Err(ResolveErrorView::UnsupportedExpr("order value"@)),
        AstExpr::Compare(_, _, _) => Err(ResolveErrorView::UnsupportedExpr("comparison value"@)),
        _ => Err(ResolveErrorView::UnsupportedExpr("boolean value"@)),
    }
}

/// Ordering items from `k` on.
pub open(crate) spec fn order_items(c: SchemaCatalog, source: ObjectTypeRefView, os: Seq<query_ast::OrderView>, k: int) -> Result<
    Seq<OrderView>,
    ResolveErrorView,
>
    decreases os.len() - k,
{
    if k < 0 || k >= os.len() {
        Ok(seq![])
    } else {
        match order_value(c, source, os[k].expr) {
            Err(err) => Err(err),
            Ok(v) => match order_items(c, source, os, k + 1) {
                Err(err) => Err(err),
                Ok(rest) => Ok(
                    seq![
                        OrderView {
                            value: v,
                            direction: match os[k].direction {
                                query_ast::OrderDirection::Asc => OrderDirection::Asc,
                                query_ast::OrderDirection::Desc => OrderDirection::Desc,
                            },
                        },
                    ] + rest,
                ),
            },
        }
    }
}

pub open spec fn is_computable(e: AstExpr) -> bool {
    e is Arithmetic || e is UnaryArithmetic || e is FunctionCall
}

/// One resolved shape item of the object type `source`.
pub open(crate) spec fn shape_item(c: SchemaCatalog, source: ObjectTypeRefView, item: AstItem) -> Result<
    ItemView,
    ResolveErrorView,
>
    decreases item, 0int,
{
    match item {
        AstItem::Field(path, child) => if path.len() != 1 {
            Err(ResolveErrorView::UnsupportedPath)
        } else {
            let name = path[0];
            match c.spec_field(source.name, name) {
                None => Err(ResolveErrorView::UnknownField(source.name, name)),
                Some(f) => {
                    let field_ref = c.spec_field_ref(source.name, name).unwrap();
                    match f {
                        Field::Scalar(_) => if child is Some {
                            Err(ResolveErrorView::NestedShapeOnScalarField(source.name, name))
                        } else {
                            Ok(ItemView::Field(name, field_ref, f.spec_cardinality(), None))
                        },
                        Field::Link(l) => match child {
                            None => Err(ResolveErrorView::MissingShapeOnLinkField(source.name, name)),
                            Some(items) => match c.spec_type_ref(l.spec_target()) {
                                None => Err(ResolveErrorView::UnknownObjectType(l.spec_target())),
                                Some(target) => match shape_items(c, target, items, 0, seq![]) {
                                    Err(err) => Err(err),
                                    Ok(resolved) => Ok(
                                        ItemView::Field(
                                            name,
                                            field_ref,
                                            f.spec_cardinality(),
                                            Some(ShapeView { source: target, items: resolved }),
                                        ),
                                    ),
                                },
                            },
                        },
                    }
                },
            }
        },
        AstItem::Computed(name, e) => if !is_computable(e) {
            Err(ResolveErrorView::UnsupportedExpr("computed projection"@))
        } else {
            match typed_value(c, source, e) {
                Err(err) => Err(err),
                Ok((v, s)) => if !contains_path(v) {
                    Err(ResolveErrorView::UnsupportedExpr("computed projection"@))
                } else {
                    match value_cardinality(v) {
                        Err(err) => Err(err),
                        Ok(card) => Ok(ItemView::Computed(name, v, source_type(s), card)),
                    }
                },
            }
        },
    }
}

/// Shape items from `k` on, after the resolved items `done`; an output name
/// may appear once.
pub open(crate) spec fn shape_items(
    c: SchemaCatalog,
    source: ObjectTypeRefView,
    items: Seq<AstItem>,
    k: int,
    done: Seq<ItemView>,
) -> Result<Seq<ItemView>, ResolveErrorView>
    decreases items, items.len() - k,
{
    if k < 0 || k >= items.len() {
        Ok(done)
    } else {
        match shape_item(c, source, items[k]) {
            Err(err) => Err(err),
            Ok(resolved) => if exists|j: int|
                0 <= j < done.len() && item_name(#[trigger] done[j]) == item_name(resolved) {
                Err(ResolveErrorView::DuplicateOutputName(item_name(resolved)))
            } else {
                shape_items(c, source, items, k + 1, done.push(resolved))
            },
        }
    }
}

pub open spec fn item_name(i: ItemView) -> Seq<char> {
    query_ir::item_output_name(i)
}

/// The resolution of a whole select query.
pub open(crate) spec fn select_spec(c: SchemaCatalog, q: query_ast::SelectView) -> Result<
    query_ir::SelectView,
    ResolveErrorView,
> {
    match c.spec_type_ref(q.root_type_name) {
        None => Err(ResolveErrorView::UnknownObjectType(q.root_type_name)),
        Some(root) => match (match q.filter {
            Some(e) => match filter_expr(c, root, e) {
                Err(err) => Err(err),
                Ok(f) => Ok(Some(f)),
            },
            None => Ok(None),
        }) {
            Err(err) => Err(err),
            Ok(filter) => match order_items(c, root, q.order_by, 0) {
                Err(err) => Err(err),
                Ok(order_by) => match shape_items(c, root, q.shape, 0, seq![]) {
                    Err(err) => Err(err),
                    Ok(items) => Ok(
                        query_ir::SelectView {
                            root,
                            shape: ShapeView { source: root, items },
                            filter,
                            order_by,
                            limit: q.limit,
                            offset: q.offset,
                        },
                    ),
                },
            },
        },
    }
}

/// No two items of `items` share an output name.
pub open spec fn output_names_distinct(items: Seq<ItemView>) -> bool {
    forall|i: int, j: int|
        0 <= i < j < items.len() ==> item_name(#[trigger] items[i]) != item_name(#[trigger] items[j])
}

/// Every nested shape under `items` has distinct output names.
pub open spec fn nested_names_distinct(items: Seq<ItemView>) -> bool
    decreases items,
{
    if items.len() == 0 {
        true
    } else {
        nested_names_distinct(items.drop_last()) && match items.last() {
            ItemView::Field(_, _, _, Some(child)) => output_names_distinct(child.items)
                && nested_names_distinct(child.items),
            _ => true,
        }
    }
}

proof fn lemma_shape_item_names(c: SchemaCatalog, source: ObjectTypeRefView, item: AstItem)
    requires
        shape_item(c, source, item) is Ok,
    ensures
        nested_names_distinct(seq![shape_item(c, source, item)->Ok_0]),
    decreases item, 0int,
{
    let r = shape_item(c, source, item)->Ok_0;
    assert(seq![r].drop_last() =~= Seq::<ItemView>::empty());
    assert(nested_names_distinct(Seq::<ItemView>::empty()));
    if let AstItem::Field(path, child) = item {
        let name = path[0];
        if let Some(f) = c.spec_field(source.name, name) {
            if let Field::Link(l) = f {
                if let Some(items) = child {
                    let target = c.spec_type_ref(l.spec_target()).unwrap();
                    lemma_shape_items_names(c, target, items, 0, seq![]);
                    let inner = shape_items(c, target, items, 0, seq![])->Ok_0;
                    assert(r == ItemView::Field(
                        name,
                        c.spec_field_ref(source.name, name).unwrap(),
                        f.spec_cardinality(),
                        Some(ShapeView { source: target, items: inner }),
                    ));
                    assert(seq![r].last() == r);
                }
            }
        }
    }
}

proof fn lemma_shape_items_names(
    c: SchemaCatalog,
    source: ObjectTypeRefView,
    items: Seq<AstItem>,
    k: int,
    done: Seq<ItemView>,
)
    requires
        output_names_distinct(done),
        nested_names_distinct(done),
        shape_items(c, source, items, k, done) is Ok,
    ensures
        output_names_distinct(shape_items(c, source, items, k, done)->Ok_0),
        nested_names_distinct(shape_items(c, source, items, k, done)->Ok_0),
    decreases items, items.len() - k,
{
    if 0 <= k < items.len() {
        let resolved = shape_item(c, source, items[k])->Ok_0;
        lemma_shape_item_names(c, source, items[k]);
        let next = done.push(resolved);
        assert forall|i: int, j: int| 0 <= i < j < next.len() implies item_name(#[trigger] next[i])
            != item_name(#[trigger] next[j]) by {
            if j == done.len() {
                assert(next[i] == done[i]);
            } else {
                assert(next[i] == done[i] && next[j] == done[j]);
            }
        }
        assert(next.drop_last() =~= done);
        assert(seq![resolved].drop_last() =~= Seq::<ItemView>::empty());
        lemma_shape_items_names(c, source, items, k + 1, next);
    }
}

/// Output names are unique within every shape of a resolved select: the
/// top-level shape and each nested link shape.
pub proof fn law_resolved_output_names_distinct(c: SchemaCatalog, q: query_ast::SelectView)
    requires
        select_spec(c, q) is Ok,
    ensures
        output_names_distinct(select_spec(c, q)->Ok_0.shape.items),
        nested_names_distinct(select_spec(c, q)->Ok_0.shape.items),
{
    let root = c.spec_type_ref(q.root_type_name).unwrap();
    lemma_shape_items_names(c, root, q.shape, 0, seq![]);
}

// ---------------------------------------------------------------------------
// Operators keep their meaning
// ---------------------------------------------------------------------------
/// A resolved comparison operator names the same relation as the written
/// one: it holds of two values exactly when the written operator does.
/// Distinct written operators therefore resolve to distinct ones.
pub proof fn law_compare_op_kept(op: query_ast::CompareOp, other: query_ast::CompareOp, a: int, b: int)
    ensures
        ir_compare_op(op).holds(a, b) == op.holds(a, b),
        ir_compare_op(op) == ir_compare_op(other) ==> op == other,
{
    if ir_compare_op(op) == ir_compare_op(other) && op != other {
        assert(forall|x: int, y: int| #[trigger] op.holds(x, y) == other.holds(x, y));
        assert(op.holds(0, 0) == other.holds(0, 0));
        assert(op.holds(0, 1) == other.holds(0, 1));
        assert(op.holds(1, 0) == other.holds(1, 0));
    }
}

/// A resolved arithmetic operator names the same operation as the written
/// one: it gives the same value of any two integers. Distinct written
/// operators therefore resolve to distinct ones.
pub proof fn law_arithmetic_op_kept(
    op: query_ast::ArithmeticOp,
    other: query_ast::ArithmeticOp,
    a: int,
    b: int,
)
    ensures
        ir_arithmetic_op(op).apply(a, b) == op.apply(a, b),
        ir_arithmetic_op(op) == ir_arithmetic_op(other) ==> op == other,
{
    if ir_arithmetic_op(op) == ir_arithmetic_op(other) && op != other {
        assert(forall|x: int, y: int| #[trigger] op.apply(x, y) == other.apply(x, y));
        assert(op.apply(7, 2) == other.apply(7, 2));
        assert(7int / 2 == 3) by (nonlinear_arith);
        assert(7int % 2 == 1) by (nonlinear_arith);
    }
}

/// Resolving a comparison of two values keeps its operator's meaning: the
/// resolved comparison holds of two values exactly when the written one does.
pub proof fn law_resolved_comparison_keeps_operator(
    c: SchemaCatalog,
    source: ObjectTypeRefView,
    l: AstExpr,
    op: query_ast::CompareOp,
    r: AstExpr,
    a: int,
    b: int,
)
    requires
        !is_null(l),
        !is_null(r),
    ensures
        filter_expr(c, source, AstExpr::Compare(Box::new(l), op, Box::new(r))) matches Ok(e) ==> e matches ExprView::Compare(_, resolved, _) && resolved.holds(a, b) == op.holds(a, b),
{
    law_compare_op_kept(op, op, a, b);
}

/// Resolving an arithmetic value keeps its operator's meaning: the resolved
/// operation gives the same value of any two integers as the written one.
pub proof fn law_resolved_arithmetic_keeps_operator(
    c: SchemaCatalog,
    source: ObjectTypeRefView,
    l: AstExpr,
    op: query_ast::ArithmeticOp,
    r: AstExpr,
    a: int,
    b: int,
)
    ensures
        typed_value(c, source, AstExpr::Arithmetic(Box::new(l), op, Box::new(r))) matches Ok((v, _)) ==> v matches ValueView::Arithmetic(_, resolved, _, _) && resolved.apply(a, b) == op.apply(a, b),
{
    law_arithmetic_op_kept(op, op, a, b);
}

/// A resolved unary operator names the same operation as the written one,
/// and distinct written operators resolve to distinct ones.
pub proof fn law_unary_op_kept(op: query_ast::UnaryArithmeticOp, other: query_ast::UnaryArithmeticOp, a: int)
    ensures
        ir_unary_op(op).apply(a) == op.apply(a),
        ir_unary_op(op) == ir_unary_op(other) ==> op == other,
{
    if ir_unary_op(op) == ir_unary_op(other) && op != other {
        assert(op.apply(1) == other.apply(1));
    }
}

/// A resolved membership operator holds exactly when the written one does,
/// and distinct written operators resolve to distinct ones.
pub proof fn law_in_op_kept(op: query_ast::InOp, other: query_ast::InOp, member: bool)
    ensures
        ir_in_op(op).holds(member) == op.holds(member),
        ir_in_op(op) == ir_in_op(other) ==> op == other,
{
    if ir_in_op(op) == ir_in_op(other) && op != other {
        assert(op.holds(true) == other.holds(true));
    }
}

/// Resolving a unary arithmetic value keeps its operator's meaning.
pub proof fn law_resolved_unary_keeps_operator(
    c: SchemaCatalog,
    source: ObjectTypeRefView,
    op: query_ast::UnaryArithmeticOp,
    x: AstExpr,
    a: int,
)
    ensures
        typed_value(c, source, AstExpr::UnaryArithmetic(op, Box::new(x))) matches Ok((v, _)) ==> v matches ValueView::UnaryArithmetic(resolved, _, _) && resolved.apply(a) == op.apply(a),
{
    law_unary_op_kept(op, op, a);
}

/// Resolving a membership test keeps its operator's meaning.
pub proof fn law_resolved_membership_keeps_operator(
    c: SchemaCatalog,
    source: ObjectTypeRefView,
    l: AstExpr,
    op: query_ast::InOp,
    items: Seq<AstExpr>,
    member: bool,
)
    ensures
        filter_expr(c, source, AstExpr::In(Box::new(l), op, items)) matches Ok(e) ==> e matches ExprView::In(_, resolved, _) && resolved.holds(member) == op.holds(member),
{
    law_in_op_kept(op, op, member);
}

/// Comparing with `null` becomes a null test: an operator that holds of
/// equal values (`=`) asks whether the other side is null, one that fails
/// on them (`!=`) whether it is not; ordering operators are refused.
pub proof fn law_null_comparison(c: SchemaCatalog, source: ObjectTypeRefView, x: AstExpr, op: query_ast::CompareOp)
    ensures
        filter_expr(
            c,
            source,
            AstExpr::Compare(Box::new(x), op, Box::new(AstExpr::Literal(LiteralView::Null))),
        ) matches Ok(e) ==> (e is IsNull && op.holds(0, 0) && !op.holds(0, 1)) || (e is IsNotNull
            && !op.holds(0, 0) && op.holds(0, 1)),
        filter_expr(
            c,
            source,
            AstExpr::Compare(Box::new(AstExpr::Literal(LiteralView::Null)), op, Box::new(x)),
        ) matches Ok(e) ==> (e is IsNull && op.holds(0, 0) && !op.holds(0, 1)) || (e is IsNotNull
            && !op.holds(0, 0) && op.holds(0, 1)),
{
}

/// Resolving ordering items keeps each item's direction.
pub proof fn law_order_directions_kept(
    c: SchemaCatalog,
    source: ObjectTypeRefView,
    os: Seq<query_ast::OrderView>,
    k: int,
)
    requires
        0 <= k,
    ensures
        order_items(c, source, os, k) matches Ok(rs) ==> rs.len() == os.len() - k || (k > os.len()
            && rs.len() == 0),
        order_items(c, source, os, k) matches Ok(rs) ==> forall|m: int|
            0 <= m < rs.len() ==> (#[trigger] rs[m]).direction.ascending() == os[k + m].direction.ascending(),
    decreases os.len() - k,
{
    if k < os.len() {
        law_order_directions_kept(c, source, os, k + 1);
        if let Ok(rs) = order_items(c, source, os, k) {
            if let Ok(rest) = order_items(c, source, os, k + 1) {
                assert forall|m: int| 0 <= m < rs.len() implies (#[trigger] rs[m]).direction.ascending()
                    == os[k + m].direction.ascending() by {
                    if m > 0 {
                        assert(rs[m] == rest[m - 1]);
                    }
                }
            }
        }
    }
}

// ---------------------------------------------------------------------------
// Resolver
// ---------------------------------------------------------------------------
/// A resolved value with the source of its scalar type.
struct TypedValueExpr {
    value: query_ir::ValueExpr,
    source: ValueSource,
}

spec fn typed_result(r: Result<TypedValueExpr, ResolveError>) -> Result<
    (ValueView, ValueSource),
    ResolveErrorView,
> {
    match r {
        Ok(t) => Ok((t.value@, t.source)),
        Err(e) => Err(e@),
    }
}

spec fn value_result(r: Result<query_ir::ValueExpr, ResolveError>) -> Result<ValueView, ResolveErrorView> {
    match r {
        Ok(v) => Ok(v@),
        Err(e) => Err(e@),
    }
}

spec fn unit_result(r: Result<(), ResolveError>) -> Result<(), ResolveErrorView> {
    match r {
        Ok(_) => Ok(()),
        Err(e) => Err(e@),
    }
}

fn unsupported_expr(expr_type: &str) -> (r: ResolveError)
    ensures
        r@ == ResolveErrorView::UnsupportedExpr(expr_type@),
{
    ResolveError::UnsupportedExpr { expr_type: owned(expr_type) }
}

fn scalar_type_name_str(scalar_type: ScalarType) -> (r: &'static str)
    ensures
        r@ == scalar_type_name(scalar_type),
{
    match scalar_type {
        ScalarType::Str => "str",
        ScalarType::Int64 => "int64",
        ScalarType::Float64 => "float64",
        ScalarType::Bool => "bool",
        ScalarType::Uuid => "uuid",
        ScalarType::DateTime => "datetime",
    }
}

fn cardinality_name_str(cardinality: Cardinality) -> (r: &'static str)
    ensures
        r@ == cardinality_name(cardinality),
{
    match cardinality {
        Cardinality::Optional => "optional",
        Cardinality::Required => "required",
        Cardinality::Many => "many",
    }
}

fn type_mismatch_error(expected: ScalarType, actual: ScalarType) -> (r: ResolveError)
    ensures
        r@ == mismatch(expected, actual),
{
    ResolveError::IncompatibleOperandTypes {
        expected: owned(scalar_type_name_str(expected)),
        actual: owned(scalar_type_name_str(actual)),
    }
}

fn source_scalar_type(source: ValueSource) -> (r: ScalarType)
    ensures
        r == source_type(source),
{
    match source {
        ValueSource::Path(t) => t,
        ValueSource::Literal(t) => t,
        ValueSource::Computed(t) => t,
    }
}

fn scalar_type_is_numeric(scalar_type: ScalarType) -> (r: bool)
    ensures
        r == is_numeric(scalar_type),
{
    scalar_type == ScalarType::Int64 || scalar_type == ScalarType::Float64
}

fn ensure_numeric_arithmetic_operand(scalar_type: ScalarType) -> (r: Result<(), ResolveError>)
    ensures
        unit_result(r) == numeric_check(scalar_type),
{
    if scalar_type_is_numeric(scalar_type) {
        return Ok(());
    }
    Err(ResolveError::NonNumericArithmeticOperand { actual: owned(scalar_type_name_str(scalar_type)) })
}

fn ensure_compatible_arithmetic_operand_types(
    op: query_ast::ArithmeticOp,
    left: ScalarType,
    right: ScalarType,
) -> (r: Result<ScalarType, ResolveError>)
    ensures
        match (r, arithmetic_type(op, left, right)) {
            (Ok(t), Ok(u)) => t == u,
            (Err(e), Err(v)) => e@ == v,
            _ => false,
        },
{
    ensure_numeric_arithmetic_operand(left)?;
    ensure_numeric_arithmetic_operand(right)?;
    if left != right {
        return Err(type_mismatch_error(left, right));
    }
    if op == query_ast::ArithmeticOp::Mod && left != ScalarType::Int64 {
        return Err(type_mismatch_error(ScalarType::Int64, left));
    }
    Ok(left)
}

fn literal_type_matches_scalar(expected: ScalarType, actual: ScalarType) -> (r: bool)
    ensures
        r == literal_fits(expected, actual),
{
    expected == actual || (expected == ScalarType::Uuid && actual == ScalarType::Str) || (expected
        == ScalarType::DateTime && actual == ScalarType::Str)
}

fn value_sources_are_compatible(left: ValueSource, right: ValueSource) -> (r: bool)
    ensures
        r == compatible(left, right),
{
    match (left, right) {
        (ValueSource::Literal(l), ValueSource::Literal(r)) => l == r,
        (ValueSource::Literal(actual), expected) => literal_type_matches_scalar(
            source_scalar_type(expected),
            actual,
        ),
        (expected, ValueSource::Literal(actual)) => literal_type_matches_scalar(
            source_scalar_type(expected),
            actual,
        ),
        (l, r) => source_scalar_type(l) == source_scalar_type(r),
    }
}

fn resolve_arithmetic_op(op: query_ast::ArithmeticOp) -> (r: ArithmeticOp)
    ensures
        r == ir_arithmetic_op(op),
{
    match op {
        query_ast::ArithmeticOp::Add => ArithmeticOp::Add,
        query_ast::ArithmeticOp::Sub => ArithmeticOp::Sub,
        query_ast::ArithmeticOp::Mul => ArithmeticOp::Mul,
        query_ast::ArithmeticOp::Div => ArithmeticOp::Div,
        query_ast::ArithmeticOp::Mod => ArithmeticOp::Mod,
    }
}

fn resolve_unary_arithmetic_op(op: query_ast::UnaryArithmeticOp) -> (r: UnaryArithmeticOp)
    ensures
        r == ir_unary_op(op),
{
    match op {
        query_ast::UnaryArithmeticOp::Plus => UnaryArithmeticOp::Plus,
        query_ast::UnaryArithmeticOp::Minus => UnaryArithmeticOp::Minus,
    }
}

fn resolve_compare_op(op: query_ast::CompareOp) -> (r: CompareOp)
    ensures
        r == ir_compare_op(op),
{
    match op {
        query_ast::CompareOp::Eq => CompareOp::Eq,
        query_ast::CompareOp::Ne => CompareOp::Ne,
        query_ast::CompareOp::Lt => CompareOp::Lt,
        query_ast::CompareOp::Le => CompareOp::Le,
        query_ast::CompareOp::Gt => CompareOp::Gt,
        query_ast::CompareOp::Ge => CompareOp::Ge,
    }
}

fn resolve_in_op(op: query_ast::InOp) -> (r: InOp)
    ensures
        r == ir_in_op(op),
{
    match op {
        query_ast::InOp::In => InOp::In,
        query_ast::InOp::NotIn => InOp::NotIn,
    }
}

fn numeric_cast_target(name: &str) -> (r: Result<ScalarType, ResolveError>)
    ensures
        match (r, cast_target(name@)) {
            (Ok(t), Ok(u)) => t == u,
            (Err(e), Err(v)) => e@ == v,
            _ => false,
        },
{
    if crate::text::str_equal(name, "i64") {
        Ok(ScalarType::Int64)
    } else if crate::text::str_equal(name, "f64") {
        Ok(ScalarType::Float64)
    } else {
        Err(unsupported_expr("function call"))
    }
}

fn text_has_nonzero_digit(text: &str) -> (r: bool)
    ensures
        r == has_nonzero_digit(text@),
{
    let chars = crate::text::chars_of(text);
    let mut i: usize = 0;
    while i < chars.len()
        invariant
            i <= chars.len(),
            chars@ == text@,
            forall|k: int|
                0 <= k < i ==> !(crate::text::is_digit(#[trigger] text@[k]) && text@[k] != '0'),
        decreases chars.len() - i,
    {
        if crate::text::digit_char(chars[i]) && chars[i] != '0' {
            return true;
        }
        i += 1;
    }
    false
}

fn is_nonzero_numeric_literal(value: &query_ir::ValueExpr) -> (r: bool)
    ensures
        r == nonzero_literal(value@),
    decreases value,
{
    match value {
        query_ir::ValueExpr::Literal(query_ir::Literal::Int64(n)) => *n != 0,
        query_ir::ValueExpr::Literal(query_ir::Literal::Float64(text)) => text_has_nonzero_digit(
            text.as_str(),
        ),
        query_ir::ValueExpr::UnaryArithmetic(unary) => is_nonzero_numeric_literal(unary.operand()),
        _ => false,
    }
}

fn value_expr_contains_path(value: &query_ir::ValueExpr) -> (r: bool)
    ensures
        r == contains_path(value@),
    decreases value,
{
    match value {
        query_ir::ValueExpr::Path(_) => true,
        query_ir::ValueExpr::Literal(_) => false,
        query_ir::ValueExpr::Arithmetic(arithmetic) => value_expr_contains_path(arithmetic.left())
            || value_expr_contains_path(arithmetic.right()),
        query_ir::ValueExpr::UnaryArithmetic(unary) => value_expr_contains_path(unary.operand()),
        query_ir::ValueExpr::Cast(cast) => value_expr_contains_path(cast.operand()),
        query_ir::ValueExpr::StringFunction(function) => {
            let args = function.args();
            let mut found = false;
            let mut i: usize = 0;
            while i < args.len()
                invariant
                    i <= args@.len(),
                    args@ == function.spec_args(),
                    *value == query_ir::ValueExpr::StringFunction(*function),
                    found == args_contain_path(query_ir::string_args_view(args@.take(i as int))),
                decreases args@.len() - i,
            {
                let arg = &args[i];
                proof {
                    let prev = args@.take(i as int);
                    let next = args@.take(i as int + 1);
                    assert(next.drop_last() =~= prev);
                    assert(next.last() == args@[i as int]);
                    let sv = query_ir::string_args_view(next);
                    assert(sv.drop_last() =~= query_ir::string_args_view(prev));
                    assert(decreases_to!(*value => (*value)->StringFunction_0));
                    assert(decreases_to!(function.args => function.args@));
                    assert(decreases_to!(function.args@ => function.args@[i as int]));
                    assert(decreases_to!(function.args@[i as int] => function.args@[i as int].value));
                }
                let here = value_expr_contains_path(arg.value());
                found = found || here;
                i = i + 1;
            }
            proof {
                assert(args@.take(i as int) =~= args@);
            }
            found
        },
    }
}

fn combine_cardinality(left: Cardinality, right: Cardinality) -> (r: Cardinality)
    ensures
        r == combine(left, right),
{
    if left == Cardinality::Many || right == Cardinality::Many {
        Cardinality::Many
    } else if left == Cardinality::Optional || right == Cardinality::Optional {
        Cardinality::Optional
    } else {
        Cardinality::Required
    }
}

fn value_expr_cardinality(value: &query_ir::ValueExpr) -> (r: Result<Cardinality, ResolveError>)
    ensures
        match (r, value_cardinality(value@)) {
            (Ok(c), Ok(d)) => c == d,
            (Err(e), Err(v)) => e@ == v,
            _ => false,
        },
    decreases value,
{
    match value {
        query_ir::ValueExpr::Path(path) => Ok(path.result_cardinality()),
        query_ir::ValueExpr::Literal(_) => Ok(Cardinality::Required),
        query_ir::ValueExpr::Arithmetic(arithmetic) => {
            let left = value_expr_cardinality(arithmetic.left())?;
            let right = value_expr_cardinality(arithmetic.right())?;
            let mut cardinality = combine_cardinality(left, right);
            let op = arithmetic.op();
            if cardinality == Cardinality::Required && (op == ArithmeticOp::Div || op
                == ArithmeticOp::Mod) && !is_nonzero_numeric_literal(arithmetic.right()) {
                cardinality = Cardinality::Optional;
            }
            if cardinality == Cardinality::Many {
                Err(ResolveError::UnsupportedPath)
            } else {
                Ok(cardinality)
            }
        },
        query_ir::ValueExpr::UnaryArithmetic(unary) => {
            let cardinality = value_expr_cardinality(unary.operand())?;
            if cardinality == Cardinality::Many {
                Err(ResolveError::UnsupportedPath)
            } else {
                Ok(cardinality)
            }
        },
        query_ir::ValueExpr::Cast(cast) => {
            let cardinality = value_expr_cardinality(cast.operand())?;
            if cardinality == Cardinality::Many {
                Err(ResolveError::UnsupportedPath)
            } else {
                Ok(cardinality)
            }
        },
        query_ir::ValueExpr::StringFunction(function) => {
            let cardinality = function.cardinality();
            if cardinality == Cardinality::Many {
                Err(ResolveError::UnsupportedPath)
            } else {
                Ok(cardinality)
            }
        },
    }
}

fn ensure_order_value_is_single_cardinality(value: &query_ir::ValueExpr) -> (r: Result<(), ResolveError>)
    ensures
        unit_result(r) == single_valued(value@),
    decreases value,
{
    match value {
        query_ir::ValueExpr::Path(path) => if path.result_cardinality() == Cardinality::Many {
            Err(ResolveError::UnsupportedPath)
        } else {
            Ok(())
        },
        query_ir::ValueExpr::Literal(_) => Ok(()),
        query_ir::ValueExpr::Arithmetic(arithmetic) => {
            ensure_order_value_is_single_cardinality(arithmetic.left())?;
            ensure_order_value_is_single_cardinality(arithmetic.right())
        },
        query_ir::ValueExpr::UnaryArithmetic(unary) => ensure_order_value_is_single_cardinality(
            unary.operand(),
        ),
        query_ir::ValueExpr::Cast(cast) => ensure_order_value_is_single_cardinality(cast.operand()),
        query_ir::ValueExpr::StringFunction(function) => if function.cardinality()
            == Cardinality::Many {
            Err(ResolveError::UnsupportedPath)
        } else {
            Ok(())
        },
    }
}

fn resolve_typed_literal_expr(literal: &query_ast::Literal) -> (r: TypedValueExpr)
    ensures
        (r.value@, r.source) == typed_literal(literal@),
{
    match literal {
        query_ast::Literal::String(value) => TypedValueExpr {
            value: query_ir::ValueExpr::Literal(query_ir::Literal::String(value.clone())),
            source: ValueSource::Literal(ScalarType::Str),
        },
        query_ast::Literal::Int64(value) => TypedValueExpr {
            value: query_ir::ValueExpr::Literal(query_ir::Literal::Int64(*value)),
            source: ValueSource::Literal(ScalarType::Int64),
        },
        query_ast::Literal::Float64(value) => TypedValueExpr {
            value: query_ir::ValueExpr::Literal(query_ir::Literal::Float64(value.clone())),
            source: ValueSource::Literal(ScalarType::Float64),
        },
        query_ast::Literal::Bool(value) => TypedValueExpr {
            value: query_ir::ValueExpr::Literal(query_ir::Literal::Bool(*value)),
            source: ValueSource::Literal(ScalarType::Bool),
        },
        query_ast::Literal::Null => TypedValueExpr {
            value: query_ir::ValueExpr::Literal(query_ir::Literal::Null),
            source: ValueSource::Literal(ScalarType::Str),
        },
    }
}

proof fn lemma_steps_view_push(s: Seq<query_ir::ResolvedPathStep>, x: query_ir::ResolvedPathStep)
    ensures
        query_ir::steps_view(s.push(x)) == query_ir::steps_view(s).push(x@),
{
    assert(query_ir::steps_view(s.push(x)) =~= query_ir::steps_view(s).push(x@));
}

fn resolve_typed_path_expr(
    catalog: &SchemaCatalog,
    source_object_type: &ObjectTypeRef,
    path: &query_ast::Path,
) -> (r: Result<TypedValueExpr, ResolveError>)
    ensures
        typed_result(r) == typed_path(*catalog, source_object_type@, path@),
{
    let steps = path.steps();
    let ghost names = path@;
    let ghost c = *catalog;
    let mut current = source_object_type.clone();
    let mut resolved_steps: Vec<query_ir::ResolvedPathStep> = Vec::new();
    let mut k: usize = 0;
    proof {
        assert(query_ir::steps_view(resolved_steps@) =~= seq![]);
        match path_steps(c, source_object_type@.name, names, 0) {
            Ok((rest, t)) => {
                assert(query_ir::steps_view(resolved_steps@) + rest =~= rest);
            },
            Err(e) => {},
        }
        query_ast::lemma_steps_view_len(steps@);
    }
    while k < steps.len()
        invariant
            c == *catalog,
            names == path@,
            query_ast::steps_view(steps@) == names,
            names.len() == steps@.len(),
            k <= steps.len(),
            path_steps(c, source_object_type@.name, names, 0) == match path_steps(
                c,
                current@.name,
                names,
                k as int,
            ) {
                Ok((rest, t)) => Ok((query_ir::steps_view(resolved_steps@) + rest, t)),
                Err(e) => Err(e),
            },
        decreases steps.len() - k,
    {
        let count = steps.len();
        let is_last = k == count - 1;
        let field_name = steps[k].field_name();
        proof {
            assert(names[k as int] == steps@[k as int].spec_field_name());
            crate::schema::law_field_lookup_agrees(c, current@.name, field_name@);
        }
        let field = match catalog.find_field(current.name(), field_name) {
            Some(field) => field,
            None => {
                return Err(
                    ResolveError::UnknownField {
                        object_type: owned(current.name()),
                        field: owned(field_name),
                    },
                );
            },
        };
        let field_ref = catalog.find_field_ref(current.name(), field_name).unwrap();
        match field {
            Field::Scalar(scalar) => {
                if !is_last {
                    return Err(ResolveError::UnsupportedPath);
                }
                let step = query_ir::ResolvedPathStep::scalar(field_ref, field.cardinality());
                let ghost before = resolved_steps@;
                resolved_steps.push(step);
                proof {
                    lemma_steps_view_push(before, step);
                    assert(query_ir::steps_view(before) + seq![step@] =~= query_ir::steps_view(
                        resolved_steps@,
                    ));
                }
                let scalar_type = scalar.scalar_type();
                let resolved_path = match query_ir::ResolvedPath::try_new(
                    source_object_type.clone(),
                    resolved_steps,
                ) {
                    Ok(p) => p,
                    Err(_) => {
                        return Err(ResolveError::UnsupportedPath);
                    },
                };
                return Ok(
                    TypedValueExpr {
                        value: query_ir::ValueExpr::Path(resolved_path),
                        source: ValueSource::Path(scalar_type),
                    },
                );
            },
            Field::Link(link) => {
                if is_last {
                    return Err(ResolveError::UnsupportedPath);
                }
                let target = match catalog.find_type_ref(link.target_type_name()) {
                    Some(target) => target,
                    None => {
                        return Err(
                            ResolveError::UnknownObjectType { name: owned(link.target_type_name()) },
                        );
                    },
                };
                let step = query_ir::ResolvedPathStep::link(
                    field_ref,
                    target.clone(),
                    field.cardinality(),
                );
                let ghost before = resolved_steps@;
                resolved_steps.push(step);
                proof {
                    lemma_steps_view_push(before, step);
                    match path_steps(c, target@.name, names, k + 1) {
                        Ok((rest, t)) => {
                            assert(query_ir::steps_view(before) + (seq![step@] + rest)
                                =~= query_ir::steps_view(resolved_steps@) + rest);
                        },
                        Err(e) => {},
                    }
                }
                current = target;
            },
        }
        k += 1;
    }
    Err(ResolveError::UnsupportedPath)
}

fn resolve_typed_value_expr(
    catalog: &SchemaCatalog,
    source_object_type: &ObjectTypeRef,
    expr: &query_ast::Expr,
) -> (r: Result<TypedValueExpr, ResolveError>)
    ensures
        typed_result(r) == typed_value(*catalog, source_object_type@, expr@),
    decreases expr,
{
    match expr {
        query_ast::Expr::Path(path) => resolve_typed_path_expr(catalog, source_object_type, path),
        query_ast::Expr::Literal(literal) => Ok(resolve_typed_literal_expr(literal)),
        query_ast::Expr::Arithmetic(arithmetic) => {
            let left = resolve_typed_value_expr(catalog, source_object_type, arithmetic.left())?;
            let right = resolve_typed_value_expr(catalog, source_object_type, arithmetic.right())?;
            let scalar_type = ensure_compatible_arithmetic_operand_types(
                arithmetic.op(),
                source_scalar_type(left.source),
                source_scalar_type(right.source),
            )?;
            let value = query_ir::ArithmeticExpr::new(
                left.value,
                resolve_arithmetic_op(arithmetic.op()),
                right.value,
                scalar_type,
            );
            Ok(
                TypedValueExpr {
                    value: query_ir::ValueExpr::Arithmetic(value),
                    source: ValueSource::Computed(scalar_type),
                },
            )
        },
        query_ast::Expr::UnaryArithmetic(unary) => {
            let operand = resolve_typed_value_expr(catalog, source_object_type, unary.operand())?;
            let scalar_type = source_scalar_type(operand.source);
            ensure_numeric_arithmetic_operand(scalar_type)?;
            if value_expr_cardinality(&operand.value)? == Cardinality::Many {
                return Err(ResolveError::UnsupportedPath);
            }
            let value = query_ir::UnaryArithmeticExpr::new(
                resolve_unary_arithmetic_op(unary.op()),
                operand.value,
                scalar_type,
            );
            Ok(
                TypedValueExpr {
                    value: query_ir::ValueExpr::UnaryArithmetic(value),
                    source: ValueSource::Computed(scalar_type),
                },
            )
        },
        query_ast::Expr::FunctionCall(function) => {
            let target_type = numeric_cast_target(function.name())?;
            let args = function.args();
            proof {
                query_ast::lemma_exprs_view_index(args@);
            }
            if args.len() != 1 {
                return Err(unsupported_expr("numeric cast arity"));
            }
            let operand = resolve_typed_value_expr(catalog, source_object_type, &args[0])?;
            let operand_type = source_scalar_type(operand.source);
            ensure_numeric_arithmetic_operand(operand_type)?;
            if value_expr_cardinality(&operand.value)? == Cardinality::Many {
                return Err(ResolveError::UnsupportedPath);
            }
            let value = query_ir::CastExpr::new(operand.value, target_type);
            Ok(
                TypedValueExpr {
                    value: query_ir::ValueExpr::Cast(value),
                    source: ValueSource::Computed(target_type),
                },
            )
        },
        query_ast::Expr::Compare(_) => Err(unsupported_expr("comparison value")),
        _ => Err(unsupported_expr("boolean value")),
    }
}

fn resolve_membership_item(expr: &query_ast::Expr) -> (r: Result<TypedValueExpr, ResolveError>)
    ensures
        typed_result(r) == membership_item(expr@),
    decreases expr,
{
    match expr {
        query_ast::Expr::Literal(literal) => {
            if let query_ast::Literal::Null = literal {
                return Err(unsupported_expr("null membership item"));
            }
            Ok(resolve_typed_literal_expr(literal))
        },
        query_ast::Expr::Arithmetic(arithmetic) => {
            let left = resolve_membership_item(arithmetic.left())?;
            let right = resolve_membership_item(arithmetic.right())?;
            let scalar_type = ensure_compatible_arithmetic_operand_types(
                arithmetic.op(),
                source_scalar_type(left.source),
                source_scalar_type(right.source),
            )?;
            let value = query_ir::ArithmeticExpr::new(
                left.value,
                resolve_arithmetic_op(arithmetic.op()),
                right.value,
                scalar_type,
            );
            Ok(
                TypedValueExpr {
                    value: query_ir::ValueExpr::Arithmetic(value),
                    source: ValueSource::Computed(scalar_type),
                },
            )
        },
        query_ast::Expr::UnaryArithmetic(unary) => {
            let operand = resolve_membership_item(unary.operand())?;
            let scalar_type = source_scalar_type(operand.source);
            ensure_numeric_arithmetic_operand(scalar_type)?;
            let value = query_ir::UnaryArithmeticExpr::new(
                resolve_unary_arithmetic_op(unary.op()),
                operand.value,
                scalar_type,
            );
            Ok(
                TypedValueExpr {
                    value: query_ir::ValueExpr::UnaryArithmetic(value),
                    source: ValueSource::Computed(scalar_type),
                },
            )
        },
        query_ast::Expr::FunctionCall(function) => {
            let target_type = numeric_cast_target(function.name())?;
            let args = function.args();
            proof {
                query_ast::lemma_exprs_view_index(args@);
            }
            if args.len() != 1 {
                return Err(unsupported_expr("numeric cast arity"));
            }
            let operand = resolve_membership_item(&args[0])?;
            ensure_numeric_arithmetic_operand(source_scalar_type(operand.source))?;
            let value = query_ir::CastExpr::new(operand.value, target_type);
            Ok(
                TypedValueExpr {
                    value: query_ir::ValueExpr::Cast(value),
                    source: ValueSource::Computed(target_type),
                },
            )
        },
        _ => Err(unsupported_expr("membership list item")),
    }
}

spec fn expr_result(r: Result<query_ir::Expr, ResolveError>) -> Result<ExprView, ResolveErrorView> {
    match r {
        Ok(e) => Ok(e@),
        Err(e) => Err(e@),
    }
}

fn is_null_literal(expr: &query_ast::Expr) -> (r: bool)
    ensures
        r == is_null(expr@),
{
    match expr {
        query_ast::Expr::Literal(query_ast::Literal::Null) => true,
        _ => false,
    }
}

fn resolve_null_comparable_path_value_expr(
    catalog: &SchemaCatalog,
    source_object_type: &ObjectTypeRef,
    expr: &query_ast::Expr,
) -> (r: Result<query_ir::ValueExpr, ResolveError>)
    ensures
        value_result(r) == null_comparable(*catalog, source_object_type@, expr@),
{
    let typed = resolve_typed_value_expr(catalog, source_object_type, expr)?;
    match typed.value {
        query_ir::ValueExpr::Path(path) => {
            let cardinality = path.result_cardinality();
            if cardinality == Cardinality::Optional {
                Ok(query_ir::ValueExpr::Path(path))
            } else {
                Err(
                    ResolveError::NullComparisonOnNonOptionalPath {
                        cardinality: owned(cardinality_name_str(cardinality)),
                    },
                )
            }
        },
        query_ir::ValueExpr::Literal(_) => Err(unsupported_expr("null comparison literal")),
        _ => Err(unsupported_expr("null comparison value")),
    }
}

fn resolve_null_compare_expr(
    catalog: &SchemaCatalog,
    source_object_type: &ObjectTypeRef,
    op: query_ast::CompareOp,
    compared: &query_ast::Expr,
) -> (r: Result<query_ir::Expr, ResolveError>)
    ensures
        expr_result(r) == null_compare(*catalog, source_object_type@, op, compared@),
{
    match op {
        query_ast::CompareOp::Eq => {
            let value = resolve_null_comparable_path_value_expr(
                catalog,
                source_object_type,
                compared,
            )?;
            Ok(query_ir::Expr::IsNull(value))
        },
        query_ast::CompareOp::Ne => {
            let value = resolve_null_comparable_path_value_expr(
                catalog,
                source_object_type,
                compared,
            )?;
            Ok(query_ir::Expr::IsNotNull(value))
        },
        _ => Err(unsupported_expr("null comparison operator")),
    }
}

fn resolve_compare_expr(
    catalog: &SchemaCatalog,
    source_object_type: &ObjectTypeRef,
    compare: &query_ast::CompareExpr,
) -> (r: Result<query_ir::Expr, ResolveError>)
    ensures
        expr_result(r) == filter_expr(
            *catalog,
            source_object_type@,
            query_ast::expr_view(query_ast::Expr::Compare(*compare)),
        ),
{
    if is_null_literal(compare.left()) {
        return resolve_null_compare_expr(catalog, source_object_type, compare.op(), compare.right());
    }
    if is_null_literal(compare.right()) {
        return resolve_null_compare_expr(catalog, source_object_type, compare.op(), compare.left());
    }
    let left = resolve_typed_value_expr(catalog, source_object_type, compare.left())?;
    let right = resolve_typed_value_expr(catalog, source_object_type, compare.right())?;
    if !value_sources_are_compatible(left.source, right.source) {
        return Err(
            type_mismatch_error(source_scalar_type(left.source), source_scalar_type(right.source)),
        );
    }
    let expr = query_ir::CompareExpr::new(left.value, resolve_compare_op(compare.op()), right.value);
    Ok(query_ir::Expr::Compare(expr))
}

spec fn in_outcome(es: Seq<AstExpr>, left: ValueView, source: ValueSource, op: InOp) -> Result<
    ExprView,
    ResolveErrorView,
> {
    match membership_items(es, 0) {
        Err(err) => Err(err),
        Ok(values) => match first_incompatible(es, 0, source) {
            Some(t) => Err(mismatch(source_type(source), t)),
            None => Ok(ExprView::In(left, op, values)),
        },
    }
}

fn resolve_in_expr(
    catalog: &SchemaCatalog,
    source_object_type: &ObjectTypeRef,
    in_expr: &query_ast::InExpr,
) -> (r: Result<query_ir::Expr, ResolveError>)
    ensures
        expr_result(r) == filter_expr(
            *catalog,
            source_object_type@,
            query_ast::expr_view(query_ast::Expr::In(*in_expr)),
        ),
{
    let left = resolve_typed_value_expr(catalog, source_object_type, in_expr.left())?;
    let op = resolve_in_op(in_expr.op());
    let items = in_expr.right();
    let ghost es = query_ast::exprs_view(items@);
    proof {
        query_ast::lemma_exprs_view_index(items@);
    }
    if items.len() == 0 {
        return Err(unsupported_expr("empty membership list"));
    }
    let ghost target = filter_expr(
        *catalog,
        source_object_type@,
        query_ast::expr_view(query_ast::Expr::In(*in_expr)),
    );
    assert(target == in_outcome(es, left.value@, left.source, op));
    let mut values: Vec<query_ir::ValueExpr> = Vec::new();
    let mut sources: Vec<ValueSource> = Vec::new();
    let mut k: usize = 0;
    proof {
        assert(query_ir::values_view(values@) =~= seq![]);
        if let Ok(rest) = membership_items(es, 0) {
            assert(query_ir::values_view(values@) + rest =~= rest);
        }
    }
    while k < items.len()
        invariant
            es == query_ast::exprs_view(items@),
            target == filter_expr(
                *catalog,
                source_object_type@,
                query_ast::expr_view(query_ast::Expr::In(*in_expr)),
            ),
            target == in_outcome(es, left.value@, left.source, op),
            es.len() == items@.len(),
            forall|i: int| 0 <= i < items@.len() ==> #[trigger] es[i] == query_ast::expr_view(
                items@[i],
            ),
            k <= items.len(),
            values@.len() == k,
            sources@.len() == k,
            forall|j: int|
                0 <= j < k ==> membership_item(es[j]) == Ok::<(ValueView, ValueSource), ResolveErrorView>(
                    (#[trigger] values@[j]@, sources@[j]),
                ),
            membership_items(es, 0) == match membership_items(es, k as int) {
                Ok(rest) => Ok(query_ir::values_view(values@) + rest),
                Err(e) => Err(e),
            },
        decreases items.len() - k,
    {
        assert(es[k as int] == query_ast::expr_view(items@[k as int]));
        let item = resolve_membership_item(&items[k])?;
        let ghost before = values@;
        values.push(item.value);
        sources.push(item.source);
        proof {
            assert(query_ir::values_view(values@) =~= query_ir::values_view(before).push(
                values@[k as int]@,
            ));
            if let Ok(rest) = membership_items(es, k + 1) {
                assert(query_ir::values_view(before) + (seq![values@[k as int]@] + rest)
                    =~= query_ir::values_view(values@) + rest);
            }
        }
        k += 1;
    }
    proof {
        assert(query_ir::values_view(values@) + seq![] =~= query_ir::values_view(values@));
    }
    let mut j: usize = 0;
    while j < sources.len()
        invariant
            es == query_ast::exprs_view(items@),
            target == filter_expr(
                *catalog,
                source_object_type@,
                query_ast::expr_view(query_ast::Expr::In(*in_expr)),
            ),
            target == in_outcome(es, left.value@, left.source, op),
            membership_items(es, 0) == Ok::<Seq<ValueView>, ResolveErrorView>(
                query_ir::values_view(values@),
            ),
            es.len() == sources@.len(),
            j <= sources.len(),
            forall|i: int|
                0 <= i < es.len() ==> membership_item(es[i]) == Ok::<
                    (ValueView, ValueSource),
                    ResolveErrorView,
                >((#[trigger] values@[i]@, sources@[i])),
            first_incompatible(es, 0, left.source) == first_incompatible(es, j as int, left.source),
        decreases sources.len() - j,
    {
        assert(membership_item(es[j as int]) == Ok::<(ValueView, ValueSource), ResolveErrorView>(
            (values@[j as int]@, sources@[j as int]),
        ));
        if !value_sources_are_compatible(left.source, sources[j]) {
            return Err(
                type_mismatch_error(source_scalar_type(left.source), source_scalar_type(sources[j])),
            );
        }
        j += 1;
    }
    let expr = query_ir::InExpr::new(left.value, op, values);
    Ok(query_ir::Expr::In(expr))
}

fn resolve_expr(catalog: &SchemaCatalog, source_object_type: &ObjectTypeRef, expr: &query_ast::Expr) -> (r:
    Result<query_ir::Expr, ResolveError>)
    ensures
        expr_result(r) == filter_expr(*catalog, source_object_type@, expr@),
    decreases expr,
{
    match expr {
        query_ast::Expr::Compare(compare) => resolve_compare_expr(catalog, source_object_type, compare),
        query_ast::Expr::And(left, right) => {
            let l = resolve_expr(catalog, source_object_type, left)?;
            let r = resolve_expr(catalog, source_object_type, right)?;
            Ok(query_ir::Expr::And(Box::new(l), Box::new(r)))
        },
        query_ast::Expr::Or(left, right) => {
            let l = resolve_expr(catalog, source_object_type, left)?;
            let r = resolve_expr(catalog, source_object_type, right)?;
            Ok(query_ir::Expr::Or(Box::new(l), Box::new(r)))
        },
        query_ast::Expr::Not(inner) => {
            let x = resolve_expr(catalog, source_object_type, inner)?;
            Ok(query_ir::Expr::Not(Box::new(x)))
        },
        query_ast::Expr::In(in_expr) => resolve_in_expr(catalog, source_object_type, in_expr),
        query_ast::Expr::Literal(_) => Err(unsupported_expr("literal")),
        query_ast::Expr::Path(_) => Err(unsupported_expr("path")),
        query_ast::Expr::Arithmetic(_) => Err(unsupported_expr("arithmetic value")),
        query_ast::Expr::UnaryArithmetic(_) => Err(unsupported_expr("unary arithmetic value")),
        query_ast::Expr::FunctionCall(_) => Err(unsupported_expr("function call")),
    }
}

fn resolve_order_value_expr(
    catalog: &SchemaCatalog,
    source_object_type: &ObjectTypeRef,
    expr: &query_ast::Expr,
) -> (r: Result<query_ir::ValueExpr, ResolveError>)
    ensures
        value_result(r) == order_value(*catalog, source_object_type@, expr@),
{
    match expr {
        query_ast::Expr::Path(path) => {
            let typed = resolve_typed_path_expr(catalog, source_object_type, path)?;
            ensure_order_value_is_single_cardinality(&typed.value)?;
            Ok(typed.value)
        },
        query_ast::Expr::Arithmetic(_) | query_ast::Expr::UnaryArithmetic(_)
        | query_ast::Expr::FunctionCall(_) => {
            let typed = resolve_typed_value_expr(catalog, source_object_type, expr)?;
            if !value_expr_contains_path(&typed.value) {
                return Err(unsupported_expr("order value"));
            }
            ensure_order_value_is_single_cardinality(&typed.value)?;
            Ok(typed.value)
        },
        query_ast::Expr::Literal(_) => Err(unsupported_expr("order value")),
        query_ast::Expr::Compare(_) => Err(unsupported_expr("comparison value")),
        _ => Err(unsupported_expr("boolean value")),
    }
}

fn resolve_order_items(
    catalog: &SchemaCatalog,
    source_object_type: &ObjectTypeRef,
    orders: &[query_ast::OrderExpr],
) -> (r: Result<Vec<query_ir::OrderExpr>, ResolveError>)
    ensures
        match (r, order_items(*catalog, source_object_type@, query_ast::orders_view(orders@), 0)) {
            (Ok(os), Ok(v)) => query_ir::orders_view(os@) == v,
            (Err(e), Err(v)) => e@ == v,
            _ => false,
        },
{
    let ghost ov = query_ast::orders_view(orders@);
    let mut resolved: Vec<query_ir::OrderExpr> = Vec::new();
    let mut k: usize = 0;
    proof {
        assert(query_ir::orders_view(resolved@) =~= seq![]);
        if let Ok(rest) = order_items(*catalog, source_object_type@, ov, 0) {
            assert(query_ir::orders_view(resolved@) + rest =~= rest);
        }
    }
    while k < orders.len()
        invariant
            ov == query_ast::orders_view(orders@),
            ov.len() == orders@.len(),
            k <= orders.len(),
            order_items(*catalog, source_object_type@, ov, 0) == match order_items(
                *catalog,
                source_object_type@,
                ov,
                k as int,
            ) {
                Ok(rest) => Ok(query_ir::orders_view(resolved@) + rest),
                Err(e) => Err(e),
            },
        decreases orders.len() - k,
    {
        let order = &orders[k];
        assert(ov[k as int] == order@);
        let value = resolve_order_value_expr(catalog, source_object_type, order.expr())?;
        let direction = match order.direction() {
            query_ast::OrderDirection::Asc => OrderDirection::Asc,
            query_ast::OrderDirection::Desc => OrderDirection::Desc,
        };
        let item = query_ir::OrderExpr::new(value, direction);
        let ghost before = resolved@;
        resolved.push(item);
        proof {
            assert(query_ir::orders_view(resolved@) =~= query_ir::orders_view(before).push(item@));
            if let Ok(rest) = order_items(*catalog, source_object_type@, ov, k + 1) {
                assert(query_ir::orders_view(before) + (seq![item@] + rest) =~= query_ir::orders_view(
                    resolved@,
                ) + rest);
            }
        }
        k += 1;
    }
    proof {
        assert(query_ir::orders_view(resolved@) + seq![] =~= query_ir::orders_view(resolved@));
    }
    Ok(resolved)
}

spec fn item_result(r: Result<query_ir::ResolvedShapeItem, ResolveError>) -> Result<
    ItemView,
    ResolveErrorView,
> {
    match r {
        Ok(i) => Ok(i@),
        Err(e) => Err(e@),
    }
}

spec fn shape_result(r: Result<query_ir::ResolvedShape, ResolveError>, source: ObjectTypeRefView) -> Result<
    ShapeView,
    ResolveErrorView,
> {
    match r {
        Ok(s) => Ok(s@),
        Err(e) => Err(e@),
    }
}

spec fn shape_outcome(r: Result<Seq<ItemView>, ResolveErrorView>, source: ObjectTypeRefView) -> Result<
    ShapeView,
    ResolveErrorView,
> {
    match r {
        Ok(items) => Ok(ShapeView { source, items }),
        Err(e) => Err(e),
    }
}

/// Whether `name` is among `names`, which are the names of `done`.
fn name_taken(names: &Vec<String>, name: &str, Ghost(done): Ghost<Seq<ItemView>>) -> (r: bool)
    requires
        names@.len() == done.len(),
        forall|q: int| 0 <= q < names@.len() ==> (#[trigger] names@[q])@ == item_name(done[q]),
    ensures
        r == exists|j: int| 0 <= j < done.len() && item_name(#[trigger] done[j]) == name@,
{
    let mut j: usize = 0;
    while j < names.len()
        invariant
            j <= names@.len(),
            names@.len() == done.len(),
            forall|q: int| 0 <= q < names@.len() ==> (#[trigger] names@[q])@ == item_name(done[q]),
            forall|q: int| 0 <= q < j ==> item_name(#[trigger] done[q]) != name@,
        decreases names.len() - j,
    {
        if crate::text::str_equal(names[j].as_str(), name) {
            proof {
                assert(item_name(done[j as int]) == name@);
            }
            return true;
        }
        j += 1;
    }
    false
}

/// The items of a shape of `source_object_type`, in query order; an output
/// name may appear once.
fn resolve_shape(
    catalog: &SchemaCatalog,
    source_object_type: ObjectTypeRef,
    items: &[query_ast::ShapeItem],
) -> (r: Result<query_ir::ResolvedShape, ResolveError>)
    ensures
        shape_result(r, source_object_type@) == shape_outcome(
            shape_items(
                *catalog,
                source_object_type@,
                query_ast::items_view(items@),
                0,
                seq![],
            ),
            source_object_type@,
        ),
    decreases items@, 2int,
{
    let ghost iv = query_ast::items_view(items@);
    let ghost src = source_object_type@;
    proof {
        query_ast::lemma_items_view_index(items@);
    }
    let mut resolved: Vec<query_ir::ResolvedShapeItem> = Vec::new();
    let mut names: Vec<String> = Vec::new();
    let mut k: usize = 0;
    proof {
        assert(query_ir::shape_items_view(resolved@) =~= seq![]);
    }
    while k < items.len()
        invariant
            iv == query_ast::items_view(items@),
            iv.len() == items@.len(),
            forall|i: int| 0 <= i < items@.len() ==> #[trigger] iv[i] == query_ast::item_view(
                items@[i],
            ),
            src == source_object_type@,
            k <= items.len(),
            names@.len() == resolved@.len(),
            query_ir::shape_items_view(resolved@).len() == resolved@.len(),
            forall|j: int|
                0 <= j < names@.len() ==> (#[trigger] names@[j])@ == item_name(
                    query_ir::shape_items_view(resolved@)[j],
                ),
            shape_items(*catalog, src, iv, 0, seq![]) == shape_items(
                *catalog,
                src,
                iv,
                k as int,
                query_ir::shape_items_view(resolved@),
            ),
        decreases items.len() - k,
    {
        let ghost done = query_ir::shape_items_view(resolved@);
        assert(iv[k as int] == query_ast::item_view(items@[k as int]));
        let item = resolve_shape_item(catalog, &source_object_type, &items[k])?;
        let name = item.output_name();
        if name_taken(&names, name, Ghost(done)) {
            return Err(ResolveError::DuplicateOutputName { name: owned(name) });
        }
        proof {
            query_ir::lemma_shape_items_view_push(resolved@, item);
        }
        names.push(owned(name));
        resolved.push(item);
        proof {
            assert(query_ir::shape_items_view(resolved@) == done.push(item@));
            assert forall|q: int| 0 <= q < names@.len() implies (#[trigger] names@[q])@ == item_name(
                query_ir::shape_items_view(resolved@)[q],
            ) by {
                if q < names@.len() - 1 {
                    assert(query_ir::shape_items_view(resolved@)[q] == done[q]);
                }
            }
        }
        k += 1;
    }
    Ok(query_ir::ResolvedShape::with_items(source_object_type, resolved))
}

/// One shape item.
fn resolve_shape_item(
    catalog: &SchemaCatalog,
    source_object_type: &ObjectTypeRef,
    item: &query_ast::ShapeItem,
) -> (r: Result<query_ir::ResolvedShapeItem, ResolveError>)
    ensures
        item_result(r) == shape_item(*catalog, source_object_type@, item@),
    decreases item, 1int,
{
    match item.as_computed() {
        Some(computed) => resolve_computed_shape_item(catalog, source_object_type, item, computed),
        None => resolve_shape_field(catalog, source_object_type, item),
    }
}

/// A field item: a scalar field without a nested shape, or a link with one.
fn resolve_shape_field(
    catalog: &SchemaCatalog,
    source_object_type: &ObjectTypeRef,
    item: &query_ast::ShapeItem,
) -> (r: Result<query_ir::ResolvedShapeItem, ResolveError>)
    requires
        item@ is Field,
    ensures
        item_result(r) == shape_item(*catalog, source_object_type@, item@),
    decreases item, 0int,
{
    let ghost c = *catalog;
    let path = item.path();
    let steps = path.steps();
    proof {
        query_ast::lemma_steps_view_len(steps@);
    }
    if steps.len() != 1 {
        return Err(ResolveError::UnsupportedPath);
    }
    let field_name = steps[0].field_name();
    let source_name = source_object_type.name();
    proof {
        crate::schema::law_field_lookup_agrees(c, source_name@, field_name@);
    }
    let field = match catalog.find_field(source_name, field_name) {
        Some(field) => field,
        None => {
            return Err(
                ResolveError::UnknownField { object_type: owned(source_name), field: owned(field_name) },
            );
        },
    };
    let field_ref = catalog.find_field_ref(source_name, field_name).unwrap();
    match field {
        Field::Scalar(_) => {
            if item.child_shape().is_some() {
                return Err(
                    ResolveError::NestedShapeOnScalarField {
                        object_type: owned(source_name),
                        field: owned(field_name),
                    },
                );
            }
            let resolved = query_ir::ResolvedShapeField::new(
                field_name,
                field_ref,
                field.cardinality(),
                None,
            );
            Ok(query_ir::ResolvedShapeItem::Field(resolved))
        },
        Field::Link(link) => {
            let child = match item.child_shape() {
                Some(child) => child,
                None => {
                    return Err(
                        ResolveError::MissingShapeOnLinkField {
                            object_type: owned(source_name),
                            field: owned(field_name),
                        },
                    );
                },
            };
            let target = match catalog.find_type_ref(link.target_type_name()) {
                Some(target) => target,
                None => {
                    return Err(
                        ResolveError::UnknownObjectType { name: owned(link.target_type_name()) },
                    );
                },
            };
            let child_items = child.items();
            proof {
                assert(item.spec_child_shape() == Some(*child));
                assert(decreases_to!(*item => child_items@));
            }
            let child_shape = resolve_shape(catalog, target, child_items)?;
            let resolved = query_ir::ResolvedShapeField::new(
                field_name,
                field_ref,
                field.cardinality(),
                Some(child_shape),
            );
            Ok(query_ir::ResolvedShapeItem::Field(resolved))
        },
    }
}

/// A computed item: arithmetic, a unary operator or a cast over a path.
fn resolve_computed_shape_item(
    catalog: &SchemaCatalog,
    source_object_type: &ObjectTypeRef,
    item: &query_ast::ShapeItem,
    computed: &query_ast::ComputedShapeItem,
) -> (r: Result<query_ir::ResolvedShapeItem, ResolveError>)
    requires
        item@ == query_ast::ShapeItemView::Computed(computed.spec_output_name(), computed.spec_expr()@),
    ensures
        item_result(r) == shape_item(*catalog, source_object_type@, item@),
{
    let expr = computed.expr();
    let supported = match expr {
        query_ast::Expr::Arithmetic(_) | query_ast::Expr::UnaryArithmetic(_)
        | query_ast::Expr::FunctionCall(_) => true,
        _ => false,
    };
    if !supported {
        return Err(unsupported_expr("computed projection"));
    }
    let typed = resolve_typed_value_expr(catalog, source_object_type, expr)?;
    if !value_expr_contains_path(&typed.value) {
        return Err(unsupported_expr("computed projection"));
    }
    let cardinality = value_expr_cardinality(&typed.value)?;
    let scalar_type = source_scalar_type(typed.source);
    let resolved = query_ir::ResolvedComputedField::new(
        computed.output_name(),
        typed.value,
        scalar_type,
        cardinality,
    );
    Ok(query_ir::ResolvedShapeItem::Computed(resolved))
}

/// Resolves a parsed select query against a catalog: the root object type,
/// then the filter, the ordering and the shape.
pub fn resolve_select(catalog: &SchemaCatalog, query: &query_ast::SelectQuery) -> (r: Result<
    query_ir::SelectQuery,
    ResolveError,
>)
    ensures
        match (r, select_spec(*catalog, query@)) {
            (Ok(q), Ok(v)) => q@ == v,
            (Err(e), Err(v)) => e@ == v,
            _ => false,
        },
{
    let root = match catalog.find_type_ref(query.root_type_name()) {
        Some(root) => root,
        None => {
            return Err(ResolveError::UnknownObjectType { name: owned(query.root_type_name()) });
        },
    };
    let filter = match query.filter() {
        Some(expr) => Some(resolve_expr(catalog, &root, expr)?),
        None => None,
    };
    let order_by = resolve_order_items(catalog, &root, query.order_by())?;
    let shape = resolve_shape(catalog, root.clone(), query.shape().items())?;
    Ok(query_ir::SelectQuery::new(root, shape, filter, order_by, query.limit(), query.offset()))
}

// ---------------------------------------------------------------------------
// Insert resolution
// ---------------------------------------------------------------------------
/// The scalar type of a non-null literal.
pub open spec fn literal_type(l: LiteralView) -> ScalarType {
    source_type(typed_literal(l).1)
}

/// One insert assignment `name := lit` on the object type `root`: the
/// implicit `id` cannot be assigned; a scalar takes a literal that fits its
/// type, a single link takes an object id string; `null` is allowed on
/// optional fields only; multi links cannot be assigned.
pub open(crate) spec fn insert_assignment(
    c: SchemaCatalog,
    root: ObjectTypeRefView,
    name: Seq<char>,
    lit: LiteralView,
) -> Result<(FieldRefView, query_ir::AssignmentValueView), ResolveErrorView> {
    match c.spec_field(root.name, name) {
        None => Err(ResolveErrorView::UnknownField(root.name, name)),
        Some(f) => {
            let field_ref = c.spec_field_ref(root.name, name).unwrap();
            if f matches Field::Scalar(s) && s.spec_is_implicit() {
                Err(ResolveErrorView::AssignmentToImplicitField(root.name, name))
            } else {
                match f {
                    Field::Scalar(s) => match lit {
                        LiteralView::Null => if f.spec_cardinality() == Cardinality::Required {
                            Err(ResolveErrorView::NullAssignmentToRequiredField(root.name, name))
                        } else {
                            Ok((field_ref, query_ir::AssignmentValueView::Null))
                        },
                        _ => if literal_fits(s.spec_scalar_type(), literal_type(lit)) {
                            Ok(
                                (
                                    field_ref,
                                    query_ir::AssignmentValueView::Scalar(ValueView::Literal(lit)),
                                ),
                            )
                        } else {
                            Err(
                                ResolveErrorView::IncompatibleAssignmentType(
                                    root.name,
                                    name,
                                    scalar_type_name(s.spec_scalar_type()),
                                    scalar_type_name(literal_type(lit)),
                                ),
                            )
                        },
                    },
                    Field::Link(l) => if l.spec_cardinality() == Cardinality::Many {
                        Err(ResolveErrorView::MultiLinkAssignmentUnsupported(root.name, name))
                    } else {
                        match lit {
                            LiteralView::Null => if l.spec_cardinality() == Cardinality::Required {
                                Err(ResolveErrorView::NullAssignmentToRequiredField(root.name, name))
                            } else {
                                Ok((field_ref, query_ir::AssignmentValueView::Null))
                            },
                            LiteralView::String(id) => Ok(
                                (field_ref, query_ir::AssignmentValueView::LinkId(id)),
                            ),
                            _ => Err(
                                ResolveErrorView::IncompatibleAssignmentType(
                                    root.name,
                                    name,
                                    "object id string"@,
                                    scalar_type_name(literal_type(lit)),
                                ),
                            ),
                        }
                    },
                }
            }
        },
    }
}

/// The assignments from `k` on, after the resolved ones `done`; the first
/// failing assignment decides the error.
pub open(crate) spec fn insert_assignments(
    c: SchemaCatalog,
    root: ObjectTypeRefView,
    asg: Seq<(Seq<char>, LiteralView)>,
    k: int,
    done: Seq<(FieldRefView, query_ir::AssignmentValueView)>,
) -> Result<Seq<(FieldRefView, query_ir::AssignmentValueView)>, ResolveErrorView>
    decreases asg.len() - k,
{
    if k < 0 || k >= asg.len() {
        Ok(done)
    } else {
        match insert_assignment(c, root, asg[k].0, asg[k].1) {
            Err(e) => Err(e),
            Ok(a) => insert_assignments(c, root, asg, k + 1, done.push(a)),
        }
    }
}

/// Some assignment targets the field `name`.
pub open spec fn assigns(asg: Seq<(Seq<char>, LiteralView)>, name: Seq<char>) -> bool {
    exists|j: int| 0 <= j < asg.len() && (#[trigger] asg[j]).0 == name
}

/// The first required declared field from `k` on that no assignment targets.
pub open(crate) spec fn first_missing(fields: Seq<Field>, asg: Seq<(Seq<char>, LiteralView)>, k: int) -> Option<
    Seq<char>,
>
    decreases fields.len() - k,
{
    if k < 0 || k >= fields.len() {
        None
    } else if fields[k].spec_cardinality() == Cardinality::Required && !assigns(
        asg,
        fields[k].name_view(),
    ) {
        Some(fields[k].name_view())
    } else {
        first_missing(fields, asg, k + 1)
    }
}

/// The resolution of an insert query: the root type, then each assignment
/// in order, then every required declared field must have been assigned.
pub open(crate) spec fn insert_spec(c: SchemaCatalog, q: query_ast::InsertView) -> Result<
    query_ir::InsertView,
    ResolveErrorView,
> {
    match c.spec_type_ref(q.root_type_name) {
        None => Err(ResolveErrorView::UnknownObjectType(q.root_type_name)),
        Some(root) => match insert_assignments(c, root, q.assignments, 0, seq![]) {
            Err(e) => Err(e),
            Ok(assignments) => match first_missing(
                c.spec_types()[c.type_index(q.root_type_name).unwrap()].spec_declared(),
                q.assignments,
                0,
            ) {
                Some(name) => Err(ResolveErrorView::MissingRequiredField(root.name, name)),
                None => Ok(query_ir::InsertView { root, assignments }),
            },
        },
    }
}

/// The output name a syntax shape item asks for: the last step of a field
/// path, or a computed item's name.
pub open spec fn ast_item_name(i: AstItem) -> Seq<char> {
    match i {
        AstItem::Field(path, _) => path.last(),
        AstItem::Computed(name, _) => name,
    }
}

proof fn lemma_order_items_len(c: SchemaCatalog, source: ObjectTypeRefView, os: Seq<query_ast::OrderView>, k: int)
    requires
        0 <= k <= os.len(),
        order_items(c, source, os, k) is Ok,
    ensures
        order_items(c, source, os, k)->Ok_0.len() == os.len() - k,
    decreases os.len() - k,
{
    if k < os.len() {
        lemma_order_items_len(c, source, os, k + 1);
    }
}

proof fn lemma_shape_items_names_follow(
    c: SchemaCatalog,
    source: ObjectTypeRefView,
    items: Seq<AstItem>,
    k: int,
    done: Seq<ItemView>,
)
    requires
        0 <= k <= items.len(),
        shape_items(c, source, items, k, done) is Ok,
    ensures
        shape_items(c, source, items, k, done)->Ok_0.len() == done.len() + items.len() - k,
        forall|j: int| 0 <= j < done.len() ==> shape_items(c, source, items, k, done)->Ok_0[j] == done[j],
        forall|j: int|
            k <= j < items.len() ==> item_name(shape_items(c, source, items, k, done)->Ok_0[done.len() + j - k])
                == ast_item_name(#[trigger] items[j]),
    decreases items.len() - k,
{
    if k < items.len() {
        let resolved = shape_item(c, source, items[k])->Ok_0;
        assert(item_name(resolved) == ast_item_name(items[k]));
        let next = done.push(resolved);
        lemma_shape_items_names_follow(c, source, items, k + 1, next);
        let out = shape_items(c, source, items, k, done)->Ok_0;
        assert(out == shape_items(c, source, items, k + 1, next)->Ok_0);
        assert forall|j: int| 0 <= j < done.len() implies out[j] == done[j] by {
            assert(next[j] == done[j]);
        }
        assert(next[done.len() as int] == resolved);
        assert(out[done.len() as int] == resolved);
        assert forall|j: int| k <= j < items.len() implies item_name(out[done.len() + j - k])
            == ast_item_name(#[trigger] items[j]) by {
            if j > k {
                assert(next.len() + j - (k + 1) == done.len() + j - k);
            }
        }
    }
}

/// A resolved select keeps what the query asked for: its root is the
/// catalog's reference to the named type, and the shape's source too; its
/// output names are the query's item names, in order; limit and offset are
/// carried over, there is one ordering item per query ordering item, and a
/// filter exactly when the query has one. An unknown root type is an error.
pub proof fn law_resolved_select_carries_query(c: SchemaCatalog, q: query_ast::SelectView)
    ensures
        c.spec_type_ref(q.root_type_name) is None ==> select_spec(c, q) == Err::<query_ir::SelectView, ResolveErrorView>(
            ResolveErrorView::UnknownObjectType(q.root_type_name),
        ),
        select_spec(c, q) matches Ok(v) ==> {
            &&& v.root == c.spec_type_ref(q.root_type_name).unwrap()
            &&& v.shape.source == v.root
            &&& v.limit == q.limit
            &&& v.offset == q.offset
            &&& v.order_by.len() == q.order_by.len()
            &&& (v.filter is Some <==> q.filter is Some)
            &&& v.shape.items.len() == q.shape.len()
            &&& forall|k: int| 0 <= k < q.shape.len() ==> item_name(v.shape.items[k]) == ast_item_name(#[trigger] q.shape[k])
        },
{
    if let Ok(v) = select_spec(c, q) {
        let root = c.spec_type_ref(q.root_type_name).unwrap();
        lemma_order_items_len(c, root, q.order_by, 0);
        lemma_shape_items_names_follow(c, root, q.shape, 0, seq![]);
    }
}

proof fn lemma_first_missing_none(fields: Seq<Field>, asg: Seq<(Seq<char>, LiteralView)>, j: int, k: int)
    requires
        0 <= j <= k < fields.len(),
        first_missing(fields, asg, j) is None,
    ensures
        fields[k].spec_cardinality() == Cardinality::Required ==> assigns(asg, fields[k].name_view()),
    decreases k - j,
{
    if j < k {
        lemma_first_missing_none(fields, asg, j + 1, k);
    }
}

/// A resolved insert assigns every required declared field of its object
/// type.
pub proof fn law_insert_assigns_required_fields(c: SchemaCatalog, q: query_ast::InsertView, k: int)
    requires
        insert_spec(c, q) is Ok,
        0 <= k < c.spec_types()[c.type_index(q.root_type_name).unwrap()].spec_declared().len(),
        c.spec_types()[c.type_index(q.root_type_name).unwrap()].spec_declared()[k].spec_cardinality()
            == Cardinality::Required,
    ensures
        assigns(
            q.assignments,
            c.spec_types()[c.type_index(q.root_type_name).unwrap()].spec_declared()[k].name_view(),
        ),
{
    let fields = c.spec_types()[c.type_index(q.root_type_name).unwrap()].spec_declared();
    lemma_first_missing_none(fields, q.assignments, 0, k);
}

fn resolve_insert_assignment(
    catalog: &SchemaCatalog,
    root: &ObjectTypeRef,
    assignment: &query_ast::Assignment,
) -> (r: Result<query_ir::Assignment, ResolveError>)
    ensures
        match (r, insert_assignment(*catalog, root@, assignment@.0, assignment@.1)) {
            (Ok(a), Ok(v)) => a@ == v,
            (Err(e), Err(v)) => e@ == v,
            _ => false,
        },
{
    let name = assignment.field_name();
    let field = match catalog.find_field(root.name(), name) {
        Some(field) => field,
        None => {
            return Err(
                ResolveError::UnknownField { object_type: owned(root.name()), field: owned(name) },
            );
        },
    };
    proof {
        crate::schema::law_field_lookup_agrees(*catalog, root@.name, name@);
    }
    let field_ref = match catalog.find_field_ref(root.name(), name) {
        Some(field_ref) => field_ref,
        None => {
            proof {
                assert(false);
            }
            return Err(ResolveError::UnsupportedPath);
        },
    };
    if field.is_implicit() {
        return Err(
            ResolveError::AssignmentToImplicitField {
                object_type: owned(root.name()),
                field: owned(name),
            },
        );
    }
    match field {
        Field::Scalar(scalar) => match assignment.value() {
            query_ast::Literal::Null => if field.cardinality() == Cardinality::Required {
                Err(
                    ResolveError::NullAssignmentToRequiredField {
                        object_type: owned(root.name()),
                        field: owned(name),
                    },
                )
            } else {
                Ok(query_ir::Assignment::new(field_ref, query_ir::AssignmentValue::Null))
            },
            literal => {
                let typed = resolve_typed_literal_expr(literal);
                let actual = source_scalar_type(typed.source);
                if literal_type_matches_scalar(scalar.scalar_type(), actual) {
                    Ok(
                        query_ir::Assignment::new(
                            field_ref,
                            query_ir::AssignmentValue::Scalar(typed.value),
                        ),
                    )
                } else {
                    Err(
                        ResolveError::IncompatibleAssignmentType {
                            object_type: owned(root.name()),
                            field: owned(name),
                            expected: owned(scalar_type_name_str(scalar.scalar_type())),
                            actual: owned(scalar_type_name_str(actual)),
                        },
                    )
                }
            },
        },
        Field::Link(link) => {
            if link.cardinality() == Cardinality::Many {
                return Err(
                    ResolveError::MultiLinkAssignmentUnsupported {
                        object_type: owned(root.name()),
                        field: owned(name),
                    },
                );
            }
            match assignment.value() {
                query_ast::Literal::Null => if link.cardinality() == Cardinality::Required {
                    Err(
                        ResolveError::NullAssignmentToRequiredField {
                            object_type: owned(root.name()),
                            field: owned(name),
                        },
                    )
                } else {
                    Ok(query_ir::Assignment::new(field_ref, query_ir::AssignmentValue::Null))
                },
                query_ast::Literal::String(id) => Ok(
                    query_ir::Assignment::new(
                        field_ref,
                        query_ir::AssignmentValue::LinkId(owned(id.as_str())),
                    ),
                ),
                literal => {
                    let typed = resolve_typed_literal_expr(literal);
                    let actual = source_scalar_type(typed.source);
                    Err(
                        ResolveError::IncompatibleAssignmentType {
                            object_type: owned(root.name()),
                            field: owned(name),
                            expected: owned("object id string"),
                            actual: owned(scalar_type_name_str(actual)),
                        },
                    )
                },
            }
        },
    }
}

fn is_assigned(assignments: &[query_ast::Assignment], name: &str) -> (r: bool)
    ensures
        r == assigns(query_ast::assignments_view(assignments@), name@),
{
    let ghost asg = query_ast::assignments_view(assignments@);
    let mut i: usize = 0;
    while i < assignments.len()
        invariant
            i <= assignments@.len(),
            asg == query_ast::assignments_view(assignments@),
            forall|j: int| 0 <= j < i ==> (#[trigger] asg[j]).0 != name@,
        decreases assignments@.len() - i,
    {
        proof {
            assert(asg[i as int] == assignments@[i as int]@);
        }
        if str_equal(assignments[i].field_name(), name) {
            return true;
        }
        i = i + 1;
    }
    false
}

/// Resolves an insert query against a catalog.
pub fn resolve_insert(catalog: &SchemaCatalog, query: &query_ast::InsertQuery) -> (r: Result<
    query_ir::InsertQuery,
    ResolveError,
>)
    ensures
        match (r, insert_spec(*catalog, query@)) {
            (Ok(q), Ok(v)) => q@ == v,
            (Err(e), Err(v)) => e@ == v,
            _ => false,
        },
{
    let root = match catalog.find_type_ref(query.root_type_name()) {
        Some(root) => root,
        None => {
            return Err(ResolveError::UnknownObjectType { name: owned(query.root_type_name()) });
        },
    };
    let ghost root_view = root@;
    let assignments = query.assignments();
    let ghost asg = query@.assignments;
    let mut resolved: Vec<query_ir::Assignment> = Vec::new();
    proof {
        assert(query_ir::assignments_view(resolved@) =~= Seq::<(FieldRefView, query_ir::AssignmentValueView)>::empty());
    }
    let mut i: usize = 0;
    while i < assignments.len()
        invariant
            i <= assignments@.len(),
            asg == query_ast::assignments_view(assignments@),
            asg == query@.assignments,
            root@ == root_view,
            catalog.spec_type_ref(query@.root_type_name) == Some(root_view),
            insert_assignments(*catalog, root_view, asg, 0, seq![]) == insert_assignments(
                *catalog,
                root_view,
                asg,
                i as int,
                query_ir::assignments_view(resolved@),
            ),
        decreases assignments@.len() - i,
    {
        proof {
            assert(asg[i as int] == assignments@[i as int]@);
        }
        let a = resolve_insert_assignment(catalog, &root, &assignments[i])?;
        let ghost before = query_ir::assignments_view(resolved@);
        resolved.push(a);
        proof {
            assert(query_ir::assignments_view(resolved@) =~= before.push(a@));
        }
        i = i + 1;
    }
    let ghost resolved_view = query_ir::assignments_view(resolved@);
    proof {
        assert(insert_assignments(*catalog, root_view, asg, 0, seq![]) == Ok::<
            Seq<(FieldRefView, query_ir::AssignmentValueView)>,
            ResolveErrorView,
        >(resolved_view));
    }
    let object_type = match catalog.find_type(query.root_type_name()) {
        Some(object_type) => object_type,
        None => {
            proof {
                assert(false);
            }
            return Err(ResolveError::UnsupportedPath);
        },
    };
    let fields = object_type.declared_fields();
    let ghost declared = catalog.spec_types()[catalog.type_index(query@.root_type_name).unwrap()].spec_declared();
    proof {
        assert(fields@ == declared);
    }
    let mut k: usize = 0;
    while k < fields.len()
        invariant
            k <= fields@.len(),
            fields@ == declared,
            asg == query_ast::assignments_view(assignments@),
            asg == query@.assignments,
            root@ == root_view,
            catalog.spec_type_ref(query@.root_type_name) == Some(root_view),
            declared == catalog.spec_types()[catalog.type_index(query@.root_type_name).unwrap()].spec_declared(),
            insert_assignments(*catalog, root_view, asg, 0, seq![]) == Ok::<
                Seq<(FieldRefView, query_ir::AssignmentValueView)>,
                ResolveErrorView,
            >(resolved_view),
            resolved_view == query_ir::assignments_view(resolved@),
            first_missing(declared, asg, 0) == first_missing(declared, asg, k as int),
        decreases fields@.len() - k,
    {
        let field = &fields[k];
        if field.cardinality() == Cardinality::Required && !is_assigned(assignments, field.name()) {
            return Err(
                ResolveError::MissingRequiredField {
                    object_type: owned(root.name()),
                    field: owned(field.name()),
                },
            );
        }
        k = k + 1;
    }
    Ok(query_ir::InsertQuery::new(root, resolved))
}

} // verus!
