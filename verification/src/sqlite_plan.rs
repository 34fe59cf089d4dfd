//! SQLite select planning: chooses the table, aliases, joined single links,
//! selected columns, predicate and ordering for a resolved select query.
//!
//! The root object table is aliased `root`. A single link is joined once,
//! aliased by the link's name, on `root.<link>_id = <link>.id`: as an inner
//! join when the link is required, a left join otherwise. A selected link
//! contributes its target's `id` and then its child fields; a path through a
//! single link reads the joined table.
//!
//! Planning covers the select subset that SQLite statements here can carry:
//! shapes of fields with at most one level of single-link nesting, a filter
//! that is an equality or a null test of a column or a non-decimal literal,
//! and ordering by columns.
use vstd::prelude::*;
use crate::query_ir::{
    self, CompareOp, ExprView, ItemView, OrderDirection, OrderView, PathView, SelectView, ShapeView,
    StepKindView, ValueView,
};
use crate::query_ast::LiteralView;
use crate::schema::{Cardinality, FieldRef, FieldRefView, ObjectTypeRef, ObjectTypeRefView};
use crate::text::{append_str, lower, owned, str_equal, to_ascii_lowercase};

verus! {

// ---------------------------------------------------------------------------
// Plan values
// ---------------------------------------------------------------------------
/// What a selected column stands for.
#[derive(Debug, Clone, Copy, PartialEq, Eq, Structural)]
pub enum SQLiteValueRole {
    RootScalar,
    RootId,
    LinkId,
    LinkScalar,
}

#[derive(Debug, Clone, Copy, PartialEq, Eq, Structural)]
pub enum SQLiteJoinKind {
    Inner,
    Left,
}

#[derive(Debug, Clone, Copy, PartialEq, Eq, Structural)]
pub enum SQLiteOrderDirection {
    Asc,
    Desc,
}

impl SQLiteOrderDirection {
    /// Whether rows come smallest first.
    pub open spec fn ascending(self) -> bool {
        self is Asc
    }
}

#[derive(Debug, Clone, Copy, PartialEq, Eq, Structural)]
pub enum SQLiteCompareOp {
    Eq,
}

/// The root object table of a select.
pub struct SQLiteObjectSource {
    pub(crate) object_type: ObjectTypeRef,
    pub(crate) table_name: String,
    pub(crate) alias: String,
    pub(crate) id_column: String,
}

/// One selected column and the output item it feeds.
pub struct SQLiteSelectValue {
    pub(crate) source_alias: String,
    pub(crate) column_name: String,
    pub(crate) output_name: String,
    pub(crate) field: FieldRef,
    pub(crate) role: SQLiteValueRole,
}

/// `left_alias.left_column = right_alias.right_column`.
pub struct SQLiteJoinOn {
    pub(crate) left_alias: String,
    pub(crate) left_column: String,
    pub(crate) right_alias: String,
    pub(crate) right_column: String,
}

/// Why a table is joined: a single link that the query reads.
pub enum SQLiteJoinReason {
    SelectedSingleLink { field: FieldRef },
}

/// A joined single-link target table.
pub struct SQLiteJoin {
    pub(crate) kind: SQLiteJoinKind,
    pub(crate) source_alias: String,
    pub(crate) target_table: String,
    pub(crate) target_alias: String,
    pub(crate) on: SQLiteJoinOn,
    pub(crate) reason: SQLiteJoinReason,
}

pub struct SQLiteColumnRef {
    pub(crate) source_alias: String,
    pub(crate) column_name: String,
}

pub enum SQLiteLiteral {
    String(String),
    Int64(i64),
    Bool(bool),
    Null,
}

pub enum SQLiteValueExpr {
    Column(SQLiteColumnRef),
    Literal(SQLiteLiteral),
}

pub struct SQLiteCompareExpr {
    pub(crate) left: SQLiteValueExpr,
    pub(crate) op: SQLiteCompareOp,
    pub(crate) right: SQLiteValueExpr,
}

pub enum SQLiteWhereExpr {
    Compare(SQLiteCompareExpr),
    IsNull(SQLiteValueExpr),
}

pub struct SQLiteOrderBy {
    pub(crate) source_alias: String,
    pub(crate) column_name: String,
    pub(crate) direction: SQLiteOrderDirection,
}

/// A structured SQLite select, before SQL rendering.
pub struct SQLiteSelectPlan {
    pub(crate) root_source: SQLiteObjectSource,
    pub(crate) selected_values: Vec<SQLiteSelectValue>,
    pub(crate) joins: Vec<SQLiteJoin>,
    pub(crate) order_by: Vec<SQLiteOrderBy>,
    pub(crate) limit: Option<i64>,
    pub(crate) offset: Option<i64>,
    pub(crate) filter: Option<SQLiteWhereExpr>,
}

// ---------------------------------------------------------------------------
// Views
// ---------------------------------------------------------------------------
pub ghost struct SourceView {
    pub object_type: ObjectTypeRefView,
    pub table_name: Seq<char>,
    pub alias: Seq<char>,
    pub id_column: Seq<char>,
}

pub ghost struct SelectedView {
    pub source_alias: Seq<char>,
    pub column_name: Seq<char>,
    pub output_name: Seq<char>,
    pub field: FieldRefView,
    pub role: SQLiteValueRole,
}

pub ghost struct JoinView {
    pub kind: SQLiteJoinKind,
    pub source_alias: Seq<char>,
    pub target_table: Seq<char>,
    pub target_alias: Seq<char>,
    pub left_alias: Seq<char>,
    pub left_column: Seq<char>,
    pub right_alias: Seq<char>,
    pub right_column: Seq<char>,
    pub field: FieldRefView,
}

pub ghost enum LiteralPlanView {
    String(Seq<char>),
    Int64(i64),
    Bool(bool),
    Null,
}

pub ghost enum SqlValueView {
    Column(Seq<char>, Seq<char>),
    Literal(LiteralPlanView),
}

pub ghost enum WhereView {
    Compare(SqlValueView, SQLiteCompareOp, SqlValueView),
    IsNull(SqlValueView),
}

pub ghost struct OrderByView {
    pub source_alias: Seq<char>,
    pub column_name: Seq<char>,
    pub direction: SQLiteOrderDirection,
}

pub ghost struct PlanView {
    pub root_source: SourceView,
    pub selected_values: Seq<SelectedView>,
    pub joins: Seq<JoinView>,
    pub order_by: Seq<OrderByView>,
    pub limit: Option<i64>,
    pub offset: Option<i64>,
    pub filter: Option<WhereView>,
}

impl View for SQLiteObjectSource {
    type V = SourceView;

    open(crate) spec fn view(&self) -> SourceView {
        SourceView {
            object_type: self.object_type@,
            table_name: self.table_name@,
            alias: self.alias@,
            id_column: self.id_column@,
        }
    }
}

impl View for SQLiteSelectValue {
    type V = SelectedView;

    open(crate) spec fn view(&self) -> SelectedView {
        SelectedView {
            source_alias: self.source_alias@,
            column_name: self.column_name@,
            output_name: self.output_name@,
            field: self.field@,
            role: self.role,
        }
    }
}

impl View for SQLiteJoin {
    type V = JoinView;

    open(crate) spec fn view(&self) -> JoinView {
        JoinView {
            kind: self.kind,
            source_alias: self.source_alias@,
            target_table: self.target_table@,
            target_alias: self.target_alias@,
            left_alias: self.on.left_alias@,
            left_column: self.on.left_column@,
            right_alias: self.on.right_alias@,
            right_column: self.on.right_column@,
            field: match self.reason {
                SQLiteJoinReason::SelectedSingleLink { field } => field@,
            },
        }
    }
}

impl View for SQLiteLiteral {
    type V = LiteralPlanView;

    open(crate) spec fn view(&self) -> LiteralPlanView {
        match self {
            SQLiteLiteral::String(s) => LiteralPlanView::String(s@),
            SQLiteLiteral::Int64(v) => LiteralPlanView::Int64(*v),
            SQLiteLiteral::Bool(b) => LiteralPlanView::Bool(*b),
            SQLiteLiteral::Null => LiteralPlanView::Null,
        }
    }
}

impl View for SQLiteValueExpr {
    type V = SqlValueView;

    open(crate) spec fn view(&self) -> SqlValueView {
        match self {
            SQLiteValueExpr::Column(c) => SqlValueView::Column(c.source_alias@, c.column_name@),
            SQLiteValueExpr::Literal(l) => SqlValueView::Literal(l@),
        }
    }
}

impl View for SQLiteCompareExpr {
    type V = (SqlValueView, SQLiteCompareOp, SqlValueView);

    open(crate) spec fn view(&self) -> (SqlValueView, SQLiteCompareOp, SqlValueView) {
        (self.left@, self.op, self.right@)
    }
}

impl View for SQLiteWhereExpr {
    type V = WhereView;

    open(crate) spec fn view(&self) -> WhereView {
        match self {
            SQLiteWhereExpr::Compare(c) => WhereView::Compare(c@.0, c@.1, c@.2),
            SQLiteWhereExpr::IsNull(v) => WhereView::IsNull(v@),
        }
    }
}

impl View for SQLiteOrderBy {
    type V = OrderByView;

    open(crate) spec fn view(&self) -> OrderByView {
        OrderByView {
            source_alias: self.source_alias@,
            column_name: self.column_name@,
            direction: self.direction,
        }
    }
}

pub open spec fn selected_view(s: Seq<SQLiteSelectValue>) -> Seq<SelectedView> {
    s.map_values(|x: SQLiteSelectValue| x@)
}

pub open spec fn joins_view(s: Seq<SQLiteJoin>) -> Seq<JoinView> {
    s.map_values(|x: SQLiteJoin| x@)
}

pub open spec fn order_by_view(s: Seq<SQLiteOrderBy>) -> Seq<OrderByView> {
    s.map_values(|x: SQLiteOrderBy| x@)
}

impl View for SQLiteSelectPlan {
    type V = PlanView;

    open(crate) spec fn view(&self) -> PlanView {
        PlanView {
            root_source: self.root_source@,
            selected_values: selected_view(self.selected_values@),
            joins: joins_view(self.joins@),
            order_by: order_by_view(self.order_by@),
            limit: self.limit,
            offset: self.offset,
            filter: match self.filter {
                Some(f) => Some(f@),
                None => None,
            },
        }
    }
}

// ---------------------------------------------------------------------------
// The plan, as mathematics
// ---------------------------------------------------------------------------
/// A path that reads a root column, or a scalar through one single link.
pub open spec fn path_plannable(p: PathView) -> bool {
    ||| p.steps.len() == 1
    ||| (p.steps.len() == 2 && p.steps[0].kind is Link && p.steps[0].cardinality != Cardinality::Many
        && p.steps[1].kind is Scalar)
}

pub open spec fn value_plannable(v: ValueView) -> bool {
    match v {
        ValueView::Path(p) => path_plannable(p),
        ValueView::Literal(l) => !(l is Float64),
        _ => false,
    }
}

pub open spec fn filter_plannable(e: ExprView) -> bool {
    match e {
        ExprView::Compare(l, op, r) => op == CompareOp::Eq && value_plannable(l) && value_plannable(r),
        ExprView::IsNull(v) => value_plannable(v),
        _ => false,
    }
}

/// A shape item that SQLite columns can carry: a root field, or a single
/// link with a shape of plain fields.
pub open spec fn item_plannable(i: ItemView) -> bool {
    match i {
        ItemView::Field(_, _, card, child) => match child {
            None => true,
            Some(s) => card != Cardinality::Many && forall|k: int|
                0 <= k < s.items.len() ==> (#[trigger] s.items[k] matches ItemView::Field(
                    _,
                    _,
                    _,
                    None,
                )),
        },
        ItemView::Computed(..) => false,
    }
}

/// Ordering reads a column.
pub open spec fn order_plannable(o: OrderView) -> bool {
    match o.value {
        ValueView::Path(p) => path_plannable(p),
        _ => false,
    }
}

pub open spec fn plannable(q: SelectView) -> bool {
    &&& forall|k: int| 0 <= k < q.shape.items.len() ==> item_plannable(#[trigger] q.shape.items[k])
    &&& match q.filter {
        Some(e) => filter_plannable(e),
        None => true,
    }
    &&& forall|k: int|
        0 <= k < q.order_by.len() ==> order_plannable(#[trigger] q.order_by[k])
}

pub open spec fn root_alias() -> Seq<char> {
    "root"@
}

/// The join of a single link from the root table.
pub open spec fn link_join(field: FieldRefView, target: ObjectTypeRefView, card: Cardinality) -> JoinView {
    JoinView {
        kind: if card == Cardinality::Required {
            SQLiteJoinKind::Inner
        } else {
            SQLiteJoinKind::Left
        },
        source_alias: root_alias(),
        target_table: lower(target.name),
        target_alias: field.name,
        left_alias: root_alias(),
        left_column: field.name + "_id"@,
        right_alias: field.name,
        right_column: "id"@,
        field,
    }
}

/// `joins` with `j` added, unless a join under the same alias is there.
pub open spec fn with_join(joins: Seq<JoinView>, j: JoinView) -> Seq<JoinView> {
    if exists|i: int| 0 <= i < joins.len() && (#[trigger] joins[i]).target_alias == j.target_alias {
        joins
    } else {
        joins.push(j)
    }
}

/// The column or literal a plannable value reads.
pub open spec fn value_sql(v: ValueView) -> SqlValueView {
    match v {
        ValueView::Path(p) => if p.steps.len() == 1 {
            SqlValueView::Column(root_alias(), p.steps[0].field.name)
        } else {
            SqlValueView::Column(p.steps[0].field.name, p.steps[1].field.name)
        },
        ValueView::Literal(l) => SqlValueView::Literal(
            match l {
                LiteralView::String(s) => LiteralPlanView::String(s),
                LiteralView::Int64(n) => LiteralPlanView::Int64(n),
                LiteralView::Bool(b) => LiteralPlanView::Bool(b),
                _ => LiteralPlanView::Null,
            },
        ),
        _ => SqlValueView::Literal(LiteralPlanView::Null),
    }
}

/// The joins after reading a value: a path through a link joins it.
pub open spec fn value_joins(joins: Seq<JoinView>, v: ValueView) -> Seq<JoinView> {
    match v {
        ValueView::Path(p) => if p.steps.len() == 2 {
            match p.steps[0].kind {
                StepKindView::Link(target) => with_join(
                    joins,
                    link_join(p.steps[0].field, target, p.steps[0].cardinality),
                ),
                StepKindView::Scalar => joins,
            }
        } else {
            joins
        },
        _ => joins,
    }
}

/// The selected columns of one shape item.
pub open spec fn item_values(i: ItemView) -> Seq<SelectedView> {
    match i {
        ItemView::Field(output, field, _, None) => seq![
            SelectedView {
                source_alias: root_alias(),
                column_name: field.name,
                output_name: output,
                field,
                role: if field.name == "id"@ {
                    SQLiteValueRole::RootId
                } else {
                    SQLiteValueRole::RootScalar
                },
            },
        ],
        ItemView::Field(output, field, _, Some(child)) => seq![
            SelectedView {
                source_alias: field.name,
                column_name: "id"@,
                output_name: output,
                field,
                role: SQLiteValueRole::LinkId,
            },
        ] + child.items.map_values(|c: ItemView| child_value(field.name, c)),
        ItemView::Computed(..) => seq![],
    }
}

/// A child field of a selected link, read from the link's alias.
pub open spec fn child_value(alias: Seq<char>, c: ItemView) -> SelectedView {
    match c {
        ItemView::Field(output, field, _, _) => SelectedView {
            source_alias: alias,
            column_name: field.name,
            output_name: output,
            field,
            role: SQLiteValueRole::LinkScalar,
        },
        ItemView::Computed(output, ..) => SelectedView {
            source_alias: alias,
            column_name: output,
            output_name: output,
            field: FieldRefView { id: 0, owner: ObjectTypeRefView { id: 0, name: seq![] }, name: seq![] },
            role: SQLiteValueRole::LinkScalar,
        },
    }
}

/// The joins after planning one shape item.
pub open spec fn item_joins(joins: Seq<JoinView>, i: ItemView) -> Seq<JoinView> {
    match i {
        ItemView::Field(_, field, card, Some(child)) => with_join(
            joins,
            link_join(field, child.source, card),
        ),
        _ => joins,
    }
}

/// Selected columns and joins of the shape items `items`, in order.
pub open spec fn plan_items(items: Seq<ItemView>) -> (Seq<SelectedView>, Seq<JoinView>)
    decreases items.len(),
{
    if items.len() == 0 {
        (seq![], seq![])
    } else {
        let (values, joins) = plan_items(items.drop_last());
        (values + item_values(items.last()), item_joins(joins, items.last()))
    }
}

pub open spec fn where_view(e: ExprView) -> WhereView {
    match e {
        ExprView::Compare(l, _, r) => WhereView::Compare(value_sql(l), SQLiteCompareOp::Eq, value_sql(r)),
        ExprView::IsNull(v) => WhereView::IsNull(value_sql(v)),
        _ => WhereView::IsNull(SqlValueView::Literal(LiteralPlanView::Null)),
    }
}

pub open spec fn filter_joins(joins: Seq<JoinView>, e: ExprView) -> Seq<JoinView> {
    match e {
        ExprView::Compare(l, _, r) => value_joins(value_joins(joins, l), r),
        ExprView::IsNull(v) => value_joins(joins, v),
        _ => joins,
    }
}

pub open spec fn direction_of(d: OrderDirection) -> SQLiteOrderDirection {
    match d {
        OrderDirection::Asc => SQLiteOrderDirection::Asc,
        OrderDirection::Desc => SQLiteOrderDirection::Desc,
    }
}

pub open spec fn order_by_item(o: OrderView) -> OrderByView {
    match value_sql(o.value) {
        SqlValueView::Column(alias, column) => OrderByView {
            source_alias: alias,
            column_name: column,
            direction: direction_of(o.direction),
        },
        SqlValueView::Literal(_) => OrderByView {
            source_alias: seq![],
            column_name: seq![],
            direction: direction_of(o.direction),
        },
    }
}

pub open spec fn order_joins(joins: Seq<JoinView>, os: Seq<OrderView>) -> Seq<JoinView>
    decreases os.len(),
{
    if os.len() == 0 {
        joins
    } else {
        value_joins(order_joins(joins, os.drop_last()), os.last().value)
    }
}

/// The complete plan of a select query.
pub open spec fn plan_spec(q: SelectView) -> PlanView {
    let (values, shape_joins) = plan_items(q.shape.items);
    let joins_after_filter = match q.filter {
        Some(e) => filter_joins(shape_joins, e),
        None => shape_joins,
    };
    PlanView {
        root_source: SourceView {
            object_type: q.root,
            table_name: lower(q.root.name),
            alias: root_alias(),
            id_column: "id"@,
        },
        selected_values: values,
        joins: order_joins(joins_after_filter, q.order_by),
        order_by: q.order_by.map_values(|o: OrderView| order_by_item(o)),
        limit: q.limit,
        offset: q.offset,
        filter: match q.filter {
            Some(e) => Some(where_view(e)),
            None => None,
        },
    }
}

// ---------------------------------------------------------------------------
// Join kinds
// ---------------------------------------------------------------------------
/// The link a shape item reads through, with its cardinality.
pub open spec fn item_link(i: ItemView) -> Option<(FieldRefView, Cardinality)> {
    match i {
        ItemView::Field(_, field, card, Some(_)) => Some((field, card)),
        _ => None,
    }
}

/// The link a value reads through, with its cardinality: the first step of
/// a two-step path, when it is a link.
pub open spec fn value_link(v: ValueView) -> Option<(FieldRefView, Cardinality)> {
    match v {
        ValueView::Path(p) => if p.steps.len() == 2 && p.steps[0].kind is Link {
            Some((p.steps[0].field, p.steps[0].cardinality))
        } else {
            None
        },
        _ => None,
    }
}

/// The values a filter compares or tests.
pub open spec fn filter_values(e: ExprView) -> Seq<ValueView> {
    match e {
        ExprView::Compare(l, _, r) => seq![l, r],
        ExprView::IsNull(v) => seq![v],
        _ => seq![],
    }
}

/// The links a query reads through, in its shape, its filter or its
/// ordering, each with its cardinality.
pub open spec fn query_links(q: SelectView) -> Set<(FieldRefView, Cardinality)> {
    Set::new(
        |x: (FieldRefView, Cardinality)|
            (exists|k: int| 0 <= k < q.shape.items.len() && item_link(#[trigger] q.shape.items[k]) == Some(x))
                || (exists|k: int|
                0 <= k < q.order_by.len() && value_link(#[trigger] q.order_by[k].value) == Some(x)) || (
            q.filter matches Some(e) && exists|k: int|
                0 <= k < filter_values(e).len() && value_link(#[trigger] filter_values(e)[k]) == Some(x)),
    )
}

/// Every join is of a link in `links`: an inner join when that link is
/// required, a left join otherwise, so no row is lost for want of an
/// optional link.
pub open spec fn joins_follow_links(js: Seq<JoinView>, links: Set<(FieldRefView, Cardinality)>) -> bool {
    forall|k: int|
        #![trigger js[k]]
        0 <= k < js.len() ==> exists|c: Cardinality|
            #[trigger] links.contains((js[k].field, c)) && ((js[k].kind == SQLiteJoinKind::Inner) == (c
                == Cardinality::Required))
}

proof fn lemma_with_link_join(
    js: Seq<JoinView>,
    links: Set<(FieldRefView, Cardinality)>,
    field: FieldRefView,
    target: ObjectTypeRefView,
    card: Cardinality,
)
    requires
        joins_follow_links(js, links),
        links.contains((field, card)),
    ensures
        joins_follow_links(with_join(js, link_join(field, target, card)), links),
{
    let j = link_join(field, target, card);
    let out = with_join(js, j);
    assert forall|k: int| #![trigger out[k]] 0 <= k < out.len() implies exists|c: Cardinality|
        #[trigger] links.contains((out[k].field, c)) && ((out[k].kind == SQLiteJoinKind::Inner) == (c
            == Cardinality::Required)) by {
        if k < js.len() {
            assert(out[k] == js[k]);
        } else {
            assert(out[k] == j);
            assert(links.contains((out[k].field, card)));
        }
    }
}

proof fn lemma_value_joins(js: Seq<JoinView>, links: Set<(FieldRefView, Cardinality)>, v: ValueView)
    requires
        joins_follow_links(js, links),
        value_link(v) matches Some(x) ==> links.contains(x),
    ensures
        joins_follow_links(value_joins(js, v), links),
{
    if let ValueView::Path(p) = v {
        if p.steps.len() == 2 {
            if let StepKindView::Link(target) = p.steps[0].kind {
                lemma_with_link_join(js, links, p.steps[0].field, target, p.steps[0].cardinality);
            }
        }
    }
}

proof fn lemma_plan_items_joins(items: Seq<ItemView>, links: Set<(FieldRefView, Cardinality)>)
    requires
        forall|k: int| 0 <= k < items.len() ==> (item_link(#[trigger] items[k]) matches Some(x) ==> links.contains(x)),
    ensures
        joins_follow_links(plan_items(items).1, links),
    decreases items.len(),
{
    if items.len() > 0 {
        let init = items.drop_last();
        assert forall|k: int| 0 <= k < init.len() implies (item_link(#[trigger] init[k]) matches Some(x)
            ==> links.contains(x)) by {
            assert(init[k] == items[k]);
        }
        lemma_plan_items_joins(init, links);
        let last = items.last();
        assert(item_link(items[items.len() - 1]) matches Some(x) ==> links.contains(x));
        if let ItemView::Field(_, field, card, Some(child)) = last {
            lemma_with_link_join(plan_items(init).1, links, field, child.source, card);
        }
    }
}

proof fn lemma_order_joins(js: Seq<JoinView>, links: Set<(FieldRefView, Cardinality)>, os: Seq<OrderView>)
    requires
        joins_follow_links(js, links),
        forall|k: int| 0 <= k < os.len() ==> (value_link(#[trigger] os[k].value) matches Some(x) ==> links.contains(x)),
    ensures
        joins_follow_links(order_joins(js, os), links),
    decreases os.len(),
{
    if os.len() > 0 {
        let init = os.drop_last();
        assert forall|k: int| 0 <= k < init.len() implies (value_link(#[trigger] init[k].value) matches Some(
            x,
        ) ==> links.contains(x)) by {
            assert(init[k] == os[k]);
        }
        lemma_order_joins(js, links, init);
        assert(value_link(os[os.len() - 1].value) matches Some(x) ==> links.contains(x));
        lemma_value_joins(order_joins(js, init), links, os.last().value);
    }
}

/// Each join of a planned select is of a link the query reads through, in
/// its shape, filter or ordering: an inner join exactly when that link is
/// required, a left join for an optional link, so rows whose optional link
/// is absent are kept.
pub proof fn law_join_kinds(q: SelectView)
    ensures
        joins_follow_links(plan_spec(q).joins, query_links(q)),
{
    let links = query_links(q);
    assert forall|k: int| 0 <= k < q.shape.items.len() implies (item_link(#[trigger] q.shape.items[k]) matches Some(
        x,
    ) ==> links.contains(x)) by {
        if let Some(x) = item_link(q.shape.items[k]) {
            assert(links.contains(x));
        }
    }
    lemma_plan_items_joins(q.shape.items, links);
    let shape_joins = plan_items(q.shape.items).1;
    let after_filter = match q.filter {
        Some(e) => filter_joins(shape_joins, e),
        None => shape_joins,
    };
    if let Some(e) = q.filter {
        let vs = filter_values(e);
        assert forall|k: int| 0 <= k < vs.len() implies (value_link(#[trigger] vs[k]) matches Some(x)
            ==> links.contains(x)) by {
            if let Some(x) = value_link(vs[k]) {
                assert(links.contains(x));
            }
        }
        match e {
            ExprView::Compare(l, _, r) => {
                assert(vs[0] == l);
                assert(vs[1] == r);
                lemma_value_joins(shape_joins, links, l);
                lemma_value_joins(value_joins(shape_joins, l), links, r);
            },
            ExprView::IsNull(v) => {
                assert(vs[0] == v);
                lemma_value_joins(shape_joins, links, v);
            },
            _ => {},
        }
    }
    assert forall|k: int| 0 <= k < q.order_by.len() implies (value_link(#[trigger] q.order_by[k].value) matches Some(
        x,
    ) ==> links.contains(x)) by {
        if let Some(x) = value_link(q.order_by[k].value) {
            assert(links.contains(x));
        }
    }
    lemma_order_joins(after_filter, links, q.order_by);
}

/// Planning keeps the order of the ordering items and each one's direction.
pub proof fn law_plan_directions(q: SelectView)
    ensures
        plan_spec(q).order_by.len() == q.order_by.len(),
        forall|k: int|
            0 <= k < q.order_by.len() ==> (#[trigger] plan_spec(q).order_by[k]).direction.ascending()
                == q.order_by[k].direction.ascending(),
{
}

// ---------------------------------------------------------------------------
// Planning
// ---------------------------------------------------------------------------
proof fn lemma_steps_index(steps: Seq<query_ir::ResolvedPathStep>, i: int)
    requires
        0 <= i < steps.len(),
    ensures
        query_ir::steps_view(steps)[i] == steps[i]@,
{
}

impl SQLiteValueExpr {
    /// The column or literal that a plannable IR value reads.
    pub fn from_ir(expr: &query_ir::ValueExpr) -> (r: Self)
        requires
            value_plannable(expr@),
        ensures
            r@ == value_sql(expr@),
    {
        match expr {
            query_ir::ValueExpr::Path(path) => {
                let steps = path.steps();
                proof {
                    lemma_steps_index(steps@, 0);
                }
                if steps.len() == 1 {
                    SQLiteValueExpr::Column(
                        SQLiteColumnRef {
                            source_alias: owned("root"),
                            column_name: owned(steps[0].field().name()),
                        },
                    )
                } else {
                    proof {
                        lemma_steps_index(steps@, 1);
                    }
                    SQLiteValueExpr::Column(
                        SQLiteColumnRef {
                            source_alias: owned(steps[0].field().name()),
                            column_name: owned(steps[1].field().name()),
                        },
                    )
                }
            },
            query_ir::ValueExpr::Literal(literal) => match literal {
                query_ir::Literal::String(s) => SQLiteValueExpr::Literal(
                    SQLiteLiteral::String(owned(s.as_str())),
                ),
                query_ir::Literal::Int64(n) => SQLiteValueExpr::Literal(SQLiteLiteral::Int64(*n)),
                query_ir::Literal::Bool(b) => SQLiteValueExpr::Literal(SQLiteLiteral::Bool(*b)),
                query_ir::Literal::Null => SQLiteValueExpr::Literal(SQLiteLiteral::Null),
                query_ir::Literal::Float64(_) => {
                    proof {
                        assert(false);
                    }
                    SQLiteValueExpr::Literal(SQLiteLiteral::Null)
                },
            },
            _ => {
                proof {
                    assert(false);
                }
                SQLiteValueExpr::Literal(SQLiteLiteral::Null)
            },
        }
    }
}

impl SQLiteCompareOp {
    pub fn from_ir(compare_op: query_ir::CompareOp) -> (r: Self)
        requires
            compare_op == CompareOp::Eq,
        ensures
            r == SQLiteCompareOp::Eq,
    {
        SQLiteCompareOp::Eq
    }
}

impl SQLiteOrderDirection {
    pub fn from_ir(direction: OrderDirection) -> (r: Self)
        ensures
            r == direction_of(direction),
    {
        match direction {
            OrderDirection::Asc => SQLiteOrderDirection::Asc,
            OrderDirection::Desc => SQLiteOrderDirection::Desc,
        }
    }
}

impl SQLiteCompareExpr {
    pub fn from_ir(compare: &query_ir::CompareExpr) -> (r: Self)
        requires
            filter_plannable(ExprView::Compare(compare.spec_left()@, compare.spec_op(), compare.spec_right()@)),
        ensures
            r@ == (value_sql(compare.spec_left()@), SQLiteCompareOp::Eq, value_sql(compare.spec_right()@)),
    {
        SQLiteCompareExpr {
            left: SQLiteValueExpr::from_ir(compare.left()),
            op: SQLiteCompareOp::from_ir(compare.op()),
            right: SQLiteValueExpr::from_ir(compare.right()),
        }
    }
}

impl SQLiteWhereExpr {
    pub fn from_ir(expr: &query_ir::Expr) -> (r: Self)
        requires
            filter_plannable(expr@),
        ensures
            r@ == where_view(expr@),
    {
        match expr {
            query_ir::Expr::Compare(compare) => SQLiteWhereExpr::Compare(SQLiteCompareExpr::from_ir(compare)),
            query_ir::Expr::IsNull(value) => SQLiteWhereExpr::IsNull(SQLiteValueExpr::from_ir(value)),
            _ => {
                proof {
                    assert(false);
                }
                SQLiteWhereExpr::IsNull(SQLiteValueExpr::Literal(SQLiteLiteral::Null))
            },
        }
    }
}

impl SQLiteOrderBy {
    /// The ordering column of a plannable order item.
    pub fn root_field(order: &query_ir::OrderExpr) -> (r: Self)
        requires
            order_plannable(order@),
        ensures
            r@ == order_by_item(order@),
    {
        let value = SQLiteValueExpr::from_ir(order.value());
        let direction = SQLiteOrderDirection::from_ir(order.direction());
        match value {
            SQLiteValueExpr::Column(column) => SQLiteOrderBy {
                source_alias: column.source_alias,
                column_name: column.column_name,
                direction,
            },
            SQLiteValueExpr::Literal(_) => SQLiteOrderBy {
                source_alias: String::new(),
                column_name: String::new(),
                direction,
            },
        }
    }
}

impl SQLiteSelectValue {
    /// A column of the root table selected under `output_name`.
    pub fn root_scalar(field: FieldRef, output_name: &str) -> (r: Self)
        ensures
            r@ == (SelectedView {
                source_alias: root_alias(),
                column_name: field@.name,
                output_name: output_name@,
                field: field@,
                role: SQLiteValueRole::RootScalar,
            }),
    {
        let column_name = owned(field.name());
        SQLiteSelectValue {
            source_alias: owned("root"),
            column_name,
            output_name: owned(output_name),
            field,
            role: SQLiteValueRole::RootScalar,
        }
    }
}

fn make_join(field: &FieldRef, target: &ObjectTypeRef, card: Cardinality) -> (r: SQLiteJoin)
    ensures
        r@ == link_join(field@, target@, card),
{
    let name = field.name();
    let mut left_column = owned(name);
    append_str(&mut left_column, "_id");
    SQLiteJoin {
        kind: if card == Cardinality::Required {
            SQLiteJoinKind::Inner
        } else {
            SQLiteJoinKind::Left
        },
        source_alias: owned("root"),
        target_table: to_ascii_lowercase(target.name()),
        target_alias: owned(name),
        on: SQLiteJoinOn {
            left_alias: owned("root"),
            left_column,
            right_alias: owned(name),
            right_column: owned("id"),
        },
        reason: SQLiteJoinReason::SelectedSingleLink { field: field.clone() },
    }
}

fn add_join(joins: &mut Vec<SQLiteJoin>, field: &FieldRef, target: &ObjectTypeRef, card: Cardinality)
    ensures
        joins_view(final(joins)@) == with_join(joins_view(old(joins)@), link_join(field@, target@, card)),
{
    let ghost before = joins_view(joins@);
    let name = field.name();
    let mut found = false;
    let mut i: usize = 0;
    while i < joins.len()
        invariant
            i <= joins@.len(),
            before == joins_view(joins@),
            name@ == field@.name,
            found <==> exists|k: int| 0 <= k < i && (#[trigger] before[k]).target_alias == name@,
        decreases joins@.len() - i,
    {
        let same = str_equal(joins[i].target_alias.as_str(), name);
        proof {
            assert(before[i as int] == joins@[i as int]@);
        }
        found = found || same;
        i = i + 1;
    }
    if !found {
        let join = make_join(field, target, card);
        joins.push(join);
        proof {
            assert(joins_view(joins@) =~= before.push(join@));
        }
    }
}

fn add_value_joins(joins: &mut Vec<SQLiteJoin>, value: &query_ir::ValueExpr)
    requires
        value_plannable(value@),
    ensures
        joins_view(final(joins)@) == value_joins(joins_view(old(joins)@), value@),
{
    match value {
        query_ir::ValueExpr::Path(path) => {
            let steps = path.steps();
            if steps.len() == 2 {
                proof {
                    lemma_steps_index(steps@, 0);
                }
                match steps[0].kind() {
                    query_ir::ResolvedPathStepKind::Link { target_object_type } => {
                        add_join(joins, steps[0].field(), target_object_type, steps[0].cardinality());
                    },
                    query_ir::ResolvedPathStepKind::Scalar => {},
                }
            }
        },
        _ => {},
    }
}

fn plan_item(item: &query_ir::ResolvedShapeItem, values: &mut Vec<SQLiteSelectValue>, joins: &mut Vec<SQLiteJoin>)
    requires
        item_plannable(item@),
    ensures
        selected_view(final(values)@) == selected_view(old(values)@) + item_values(item@),
        joins_view(final(joins)@) == item_joins(joins_view(old(joins)@), item@),
{
    let ghost start = selected_view(values@);
    match item {
        query_ir::ResolvedShapeItem::Field(f) => {
            let field = f.field();
            match f.child_shape() {
                None => {
                    let is_id = str_equal(field.name(), "id");
                    let value = SQLiteSelectValue {
                        source_alias: owned("root"),
                        column_name: owned(field.name()),
                        output_name: owned(f.output_name()),
                        field: field.clone(),
                        role: if is_id {
                            SQLiteValueRole::RootId
                        } else {
                            SQLiteValueRole::RootScalar
                        },
                    };
                    values.push(value);
                    proof {
                        assert(selected_view(values@) =~= start + item_values(item@));
                    }
                },
                Some(child) => {
                    let alias = field.name();
                    let link_value = SQLiteSelectValue {
                        source_alias: owned(alias),
                        column_name: owned("id"),
                        output_name: owned(f.output_name()),
                        field: field.clone(),
                        role: SQLiteValueRole::LinkId,
                    };
                    values.push(link_value);
                    let ghost head = start.push(link_value@);
                    proof {
                        assert(selected_view(values@) =~= head);
                    }
                    let items = child.items();
                    let ghost child_view = child@;
                    proof {
                        query_ir::lemma_shape_items_view_index(items@);
                    }
                    let mut k: usize = 0;
                    while k < items.len()
                        invariant
                            k <= items@.len(),
                            query_ir::shape_items_view(items@) == child_view.items,
                            child_view.items.len() == items@.len(),
                            forall|j: int| 0 <= j < child_view.items.len() ==> (#[trigger] child_view.items[j] matches ItemView::Field(_, _, _, None)),
                            forall|j: int| 0 <= j < items@.len() ==> #[trigger] query_ir::shape_items_view(items@)[j] == query_ir::shape_item_view(items@[j]),
                            alias@ == field@.name,
                            selected_view(values@) == head + child_view.items.take(k as int).map_values(|c: ItemView| child_value(field@.name, c)),
                        decreases items@.len() - k,
                    {
                        let ghost before = selected_view(values@);
                        proof {
                            assert(child_view.items[k as int] == query_ir::shape_item_view(items@[k as int]));
                        }
                        match &items[k] {
                            query_ir::ResolvedShapeItem::Field(cf) => {
                                let value = SQLiteSelectValue {
                                    source_alias: owned(alias),
                                    column_name: owned(cf.field().name()),
                                    output_name: owned(cf.output_name()),
                                    field: cf.field().clone(),
                                    role: SQLiteValueRole::LinkScalar,
                                };
                                values.push(value);
                                proof {
                                    assert(value@ == child_value(field@.name, child_view.items[k as int]));
                                    assert(child_view.items.take(k as int + 1) =~= child_view.items.take(k as int).push(child_view.items[k as int]));
                                    assert(selected_view(values@) =~= before.push(value@));
                                    assert(selected_view(values@) =~= head + child_view.items.take(k as int + 1).map_values(|c: ItemView| child_value(field@.name, c)));
                                }
                            },
                            query_ir::ResolvedShapeItem::Computed(_) => {
                                proof {
                                    assert(false);
                                }
                            },
                        }
                        k = k + 1;
                    }
                    proof {
                        assert(child_view.items.take(k as int) =~= child_view.items);
                        assert(selected_view(values@) =~= start + item_values(item@));
                    }
                    add_join(joins, field, child.source_object_type(), f.cardinality());
                },
            }
        },
        query_ir::ResolvedShapeItem::Computed(_) => {
            proof {
                assert(false);
            }
        },
    }
}

fn path_is_plannable(path: &query_ir::ResolvedPath) -> (r: bool)
    ensures
        r == path_plannable(path@),
{
    let steps = path.steps();
    if steps.len() == 1 {
        return true;
    }
    if steps.len() != 2 {
        return false;
    }
    proof {
        lemma_steps_index(steps@, 0);
        lemma_steps_index(steps@, 1);
    }
    let first_is_link = match steps[0].kind() {
        query_ir::ResolvedPathStepKind::Link { .. } => true,
        query_ir::ResolvedPathStepKind::Scalar => false,
    };
    let second_is_scalar = match steps[1].kind() {
        query_ir::ResolvedPathStepKind::Link { .. } => false,
        query_ir::ResolvedPathStepKind::Scalar => true,
    };
    first_is_link && steps[0].cardinality() != Cardinality::Many && second_is_scalar
}

fn value_is_plannable(value: &query_ir::ValueExpr) -> (r: bool)
    ensures
        r == value_plannable(value@),
{
    match value {
        query_ir::ValueExpr::Path(path) => path_is_plannable(path),
        query_ir::ValueExpr::Literal(literal) => match literal {
            query_ir::Literal::Float64(_) => false,
            _ => true,
        },
        _ => false,
    }
}

fn item_is_plannable(item: &query_ir::ResolvedShapeItem) -> (r: bool)
    ensures
        r == item_plannable(item@),
{
    match item {
        query_ir::ResolvedShapeItem::Field(f) => match f.child_shape() {
            None => true,
            Some(child) => {
                if f.cardinality() == Cardinality::Many {
                    return false;
                }
                let items = child.items();
                let ghost child_view = child@;
                proof {
                    query_ir::lemma_shape_items_view_index(items@);
                    assert(item@ matches ItemView::Field(_, _, _, Some(s)) && s == child_view);
                }
                let mut k: usize = 0;
                while k < items.len()
                    invariant
                        k <= items@.len(),
                        query_ir::shape_items_view(items@) == child_view.items,
                        child_view.items.len() == items@.len(),
                        item@ matches ItemView::Field(_, _, _, Some(s)) && s == child_view,
                        f.spec_cardinality() != Cardinality::Many,
                        *item == query_ir::ResolvedShapeItem::Field(*f),
                        forall|j: int| 0 <= j < items@.len() ==> #[trigger] query_ir::shape_items_view(items@)[j] == query_ir::shape_item_view(items@[j]),
                        forall|j: int| 0 <= j < k ==> (#[trigger] child_view.items[j] matches ItemView::Field(_, _, _, None)),
                    decreases items@.len() - k,
                {
                    proof {
                        assert(child_view.items[k as int] == query_ir::shape_item_view(items@[k as int]));
                    }
                    let plain = match &items[k] {
                        query_ir::ResolvedShapeItem::Field(cf) => cf.child_shape().is_none(),
                        query_ir::ResolvedShapeItem::Computed(_) => false,
                    };
                    if !plain {
                        proof {
                            assert(!(child_view.items[k as int] matches ItemView::Field(_, _, _, None)));
                            assert(item@ matches ItemView::Field(_, _, _, Some(s)) && s == child_view);
                            assert(!item_plannable(item@));
                        }
                        return false;
                    }
                    k = k + 1;
                }
                true
            },
        },
        query_ir::ResolvedShapeItem::Computed(_) => false,
    }
}

/// Whether `plan_select` can plan the query: the test a caller makes before
/// calling it.
pub fn is_plannable(ir: &query_ir::SelectQuery) -> (r: bool)
    ensures
        r == plannable(ir@),
{
    let items = ir.shape().items();
    let ghost item_views = ir@.shape.items;
    proof {
        query_ir::lemma_shape_items_view_index(items@);
    }
    let mut i: usize = 0;
    while i < items.len()
        invariant
            i <= items@.len(),
            query_ir::shape_items_view(items@) == item_views,
            item_views == ir@.shape.items,
            item_views.len() == items@.len(),
            forall|j: int| 0 <= j < items@.len() ==> #[trigger] query_ir::shape_items_view(items@)[j] == query_ir::shape_item_view(items@[j]),
            forall|j: int| 0 <= j < i ==> item_plannable(#[trigger] item_views[j]),
        decreases items@.len() - i,
    {
        proof {
            assert(item_views[i as int] == items@[i as int]@);
        }
        if !item_is_plannable(&items[i]) {
            proof {
                assert(!item_plannable(item_views[i as int]));
            }
            return false;
        }
        i = i + 1;
    }
    let filter_ok = match ir.filter() {
        None => true,
        Some(expr) => match expr {
            query_ir::Expr::Compare(compare) => compare.op() == CompareOp::Eq && value_is_plannable(
                compare.left(),
            ) && value_is_plannable(compare.right()),
            query_ir::Expr::IsNull(value) => value_is_plannable(value),
            _ => false,
        },
    };
    if !filter_ok {
        return false;
    }
    let orders = ir.order_by();
    let ghost order_views = ir@.order_by;
    let mut j: usize = 0;
    while j < orders.len()
        invariant
            j <= orders@.len(),
            query_ir::orders_view(orders@) == order_views,
            order_views == ir@.order_by,
            forall|k: int| 0 <= k < j ==> order_plannable(#[trigger] order_views[k]),
        decreases orders@.len() - j,
    {
        proof {
            assert(order_views[j as int] == orders@[j as int]@);
        }
        let ok = match orders[j].value() {
            query_ir::ValueExpr::Path(path) => path_is_plannable(path),
            _ => false,
        };
        if !ok {
            proof {
                assert(!order_plannable(order_views[j as int]));
            }
            return false;
        }
        j = j + 1;
    }
    true
}

/// Plans a resolved select for SQLite.
pub fn plan_select(ir: &query_ir::SelectQuery) -> (r: SQLiteSelectPlan)
    requires
        plannable(ir@),
    ensures
        r@ == plan_spec(ir@),
{
    let root = ir.root_object_type();
    let root_source = SQLiteObjectSource {
        object_type: root.clone(),
        table_name: to_ascii_lowercase(root.name()),
        alias: owned("root"),
        id_column: owned("id"),
    };
    let mut values: Vec<SQLiteSelectValue> = Vec::new();
    let mut joins: Vec<SQLiteJoin> = Vec::new();
    let items = ir.shape().items();
    let ghost item_views = ir@.shape.items;
    proof {
        query_ir::lemma_shape_items_view_index(items@);
    }
    let mut i: usize = 0;
    while i < items.len()
        invariant
            i <= items@.len(),
            query_ir::shape_items_view(items@) == item_views,
            item_views.len() == items@.len(),
            forall|j: int| 0 <= j < item_views.len() ==> item_plannable(#[trigger] item_views[j]),
            forall|j: int| 0 <= j < items@.len() ==> #[trigger] query_ir::shape_items_view(items@)[j] == query_ir::shape_item_view(items@[j]),
            (selected_view(values@), joins_view(joins@)) == plan_items(item_views.take(i as int)),
        decreases items@.len() - i,
    {
        proof {
            assert(item_views[i as int] == items@[i as int]@);
            assert(item_views.take(i as int + 1).drop_last() =~= item_views.take(i as int));
        }
        plan_item(&items[i], &mut values, &mut joins);
        i = i + 1;
    }
    proof {
        assert(item_views.take(i as int) =~= item_views);
    }
    let filter = match ir.filter() {
        Some(expr) => {
            match expr {
                query_ir::Expr::Compare(compare) => {
                    add_value_joins(&mut joins, compare.left());
                    add_value_joins(&mut joins, compare.right());
                },
                query_ir::Expr::IsNull(value) => {
                    add_value_joins(&mut joins, value);
                },
                _ => {},
            }
            Some(SQLiteWhereExpr::from_ir(expr))
        },
        None => None,
    };
    let ghost after_filter = joins_view(joins@);
    let orders = ir.order_by();
    let ghost order_views = ir@.order_by;
    let mut order_by: Vec<SQLiteOrderBy> = Vec::new();
    let mut j: usize = 0;
    while j < orders.len()
        invariant
            j <= orders@.len(),
            query_ir::orders_view(orders@) == order_views,
            forall|k: int| 0 <= k < order_views.len() ==> order_plannable(#[trigger] order_views[k]),
            joins_view(joins@) == order_joins(after_filter, order_views.take(j as int)),
            order_by_view(order_by@) == order_views.take(j as int).map_values(|o: OrderView| order_by_item(o)),
        decreases orders@.len() - j,
    {
        proof {
            assert(order_views[j as int] == orders@[j as int]@);
            assert(order_views.take(j as int + 1).drop_last() =~= order_views.take(j as int));
        }
        add_value_joins(&mut joins, orders[j].value());
        let item = SQLiteOrderBy::root_field(&orders[j]);
        let ghost before = order_by_view(order_by@);
        order_by.push(item);
        proof {
            assert(order_by_view(order_by@) =~= before.push(item@));
            assert(order_views.take(j as int + 1).map_values(|o: OrderView| order_by_item(o)) =~= order_views.take(j as int).map_values(|o: OrderView| order_by_item(o)).push(order_by_item(order_views[j as int])));
        }
        j = j + 1;
    }
    proof {
        assert(order_views.take(j as int) =~= order_views);
    }
    SQLiteSelectPlan {
        root_source,
        selected_values: values,
        joins,
        order_by,
        limit: ir.limit(),
        offset: ir.offset(),
        filter,
    }
}

// ---------------------------------------------------------------------------
// Accessors
// ---------------------------------------------------------------------------
impl SQLiteSelectPlan {
    pub fn root_source(&self) -> (r: &SQLiteObjectSource)
        ensures
            r@ == self@.root_source,
    {
        &self.root_source
    }

    pub fn selected_values(&self) -> (r: &[SQLiteSelectValue])
        ensures
            selected_view(r@) == self@.selected_values,
    {
        self.selected_values.as_slice()
    }

    pub fn joins(&self) -> (r: &[SQLiteJoin])
        ensures
            joins_view(r@) == self@.joins,
    {
        self.joins.as_slice()
    }

    pub fn order_by(&self) -> (r: &[SQLiteOrderBy])
        ensures
            order_by_view(r@) == self@.order_by,
    {
        self.order_by.as_slice()
    }

    pub fn limit(&self) -> (r: Option<i64>)
        ensures
            r == self@.limit,
    {
        self.limit
    }

    pub fn offset(&self) -> (r: Option<i64>)
        ensures
            r == self@.offset,
    {
        self.offset
    }

    pub fn filter(&self) -> (r: &Option<SQLiteWhereExpr>)
        ensures
            match r {
                Some(f) => self@.filter == Some(f@),
                None => self@.filter is None,
            },
    {
        &self.filter
    }
}

impl SQLiteSelectValue {
    pub fn source_alias(&self) -> (r: &str)
        ensures
            r@ == self@.source_alias,
    {
        self.source_alias.as_str()
    }

    pub fn column_name(&self) -> (r: &str)
        ensures
            r@ == self@.column_name,
    {
        self.column_name.as_str()
    }

    pub fn output_name(&self) -> (r: &str)
        ensures
            r@ == self@.output_name,
    {
        self.output_name.as_str()
    }

    pub fn field(&self) -> (r: &FieldRef)
        ensures
            r@ == self@.field,
    {
        &self.field
    }

    pub fn role(&self) -> (r: SQLiteValueRole)
        ensures
            r == self@.role,
    {
        self.role
    }
}

impl SQLiteObjectSource {
    pub fn object_type(&self) -> (r: &ObjectTypeRef)
        ensures
            r@ == self@.object_type,
    {
        &self.object_type
    }

    pub fn table_name(&self) -> (r: &str)
        ensures
            r@ == self@.table_name,
    {
        self.table_name.as_str()
    }

    pub fn alias(&self) -> (r: &str)
        ensures
            r@ == self@.alias,
    {
        self.alias.as_str()
    }

    pub fn id_column(&self) -> (r: &str)
        ensures
            r@ == self@.id_column,
    {
        self.id_column.as_str()
    }
}

impl SQLiteJoinOn {
    pub open(crate) spec fn spec_left_alias(&self) -> Seq<char> {
        self.left_alias@
    }

    pub open(crate) spec fn spec_left_column(&self) -> Seq<char> {
        self.left_column@
    }

    pub open(crate) spec fn spec_right_alias(&self) -> Seq<char> {
        self.right_alias@
    }

    pub open(crate) spec fn spec_right_column(&self) -> Seq<char> {
        self.right_column@
    }

    pub fn left_alias(&self) -> (r: &str)
        ensures
            r@ == self.spec_left_alias(),
    {
        self.left_alias.as_str()
    }

    pub fn left_column(&self) -> (r: &str)
        ensures
            r@ == self.spec_left_column(),
    {
        self.left_column.as_str()
    }

    pub fn right_alias(&self) -> (r: &str)
        ensures
            r@ == self.spec_right_alias(),
    {
        self.right_alias.as_str()
    }

    pub fn right_column(&self) -> (r: &str)
        ensures
            r@ == self.spec_right_column(),
    {
        self.right_column.as_str()
    }
}

impl SQLiteJoin {
    pub open(crate) spec fn spec_on(&self) -> SQLiteJoinOn {
        self.on
    }

    pub open(crate) spec fn spec_reason(&self) -> SQLiteJoinReason {
        self.reason
    }

    pub fn kind(&self) -> (r: SQLiteJoinKind)
        ensures
            r == self@.kind,
    {
        self.kind
    }

    pub fn source_alias(&self) -> (r: &str)
        ensures
            r@ == self@.source_alias,
    {
        self.source_alias.as_str()
    }

    pub fn target_table(&self) -> (r: &str)
        ensures
            r@ == self@.target_table,
    {
        self.target_table.as_str()
    }

    pub fn target_alias(&self) -> (r: &str)
        ensures
            r@ == self@.target_alias,
    {
        self.target_alias.as_str()
    }

    pub fn on(&self) -> (r: &SQLiteJoinOn)
        ensures
            *r == self.spec_on(),
            r.spec_left_alias() == self@.left_alias,
            r.spec_left_column() == self@.left_column,
            r.spec_right_alias() == self@.right_alias,
            r.spec_right_column() == self@.right_column,
    {
        &self.on
    }

    pub fn reason(&self) -> (r: &SQLiteJoinReason)
        ensures
            *r == self.spec_reason(),
            r matches SQLiteJoinReason::SelectedSingleLink { field } && field@ == self@.field,
    {
        &self.reason
    }
}

impl SQLiteOrderBy {
    pub fn source_alias(&self) -> (r: &str)
        ensures
            r@ == self@.source_alias,
    {
        self.source_alias.as_str()
    }

    pub fn column_name(&self) -> (r: &str)
        ensures
            r@ == self@.column_name,
    {
        self.column_name.as_str()
    }

    pub fn direction(&self) -> (r: SQLiteOrderDirection)
        ensures
            r == self@.direction,
    {
        self.direction
    }
}

impl SQLiteCompareExpr {
    pub fn left(&self) -> (r: &SQLiteValueExpr)
        ensures
            r@ == self@.0,
    {
        &self.left
    }

    pub fn op(&self) -> (r: SQLiteCompareOp)
        ensures
            r == self@.1,
    {
        self.op
    }

    pub fn right(&self) -> (r: &SQLiteValueExpr)
        ensures
            r@ == self@.2,
    {
        &self.right
    }
}

impl SQLiteColumnRef {
    pub open(crate) spec fn spec_source_alias(&self) -> Seq<char> {
        self.source_alias@
    }

    pub open(crate) spec fn spec_column_name(&self) -> Seq<char> {
        self.column_name@
    }

    pub fn source_alias(&self) -> (r: &str)
        ensures
            r@ == self.spec_source_alias(),
    {
        self.source_alias.as_str()
    }

    pub fn column_name(&self) -> (r: &str)
        ensures
            r@ == self.spec_column_name(),
    {
        self.column_name.as_str()
    }
}

} // verus!
