//! Renders a SQLite select plan as SQL text with `?` placeholders; literal
//! values travel separately as bind values, in placeholder order.
use vstd::prelude::*;
use crate::sqlite_plan::{
    JoinView, LiteralPlanView, OrderByView, PlanView, SQLiteCompareOp, SQLiteJoinKind, SQLiteLiteral,
    SQLiteOrderDirection, SQLiteSelectPlan, SQLiteValueExpr, SQLiteWhereExpr, SelectedView,
    SqlValueView, WhereView, joins_view, order_by_view, selected_view,
};
use crate::sqlite_schema::strings_view;
use crate::sqlite_schema_sqlgen::{join, render_join};
use crate::query_lexer::{Keyword, keyword_text};
use crate::text::{append_str, lower, decimal, digit_of, i64_to_string, owned, signed_decimal};

verus! {

/// A value bound to a `?` placeholder.
#[derive(Debug, Clone, PartialEq, Eq)]
pub enum SQLiteBindValue {
    String(String),
    Int64(i64),
    Bool(bool),
    Null,
}

/// Rendered select SQL and its bind values.
pub struct SQLiteSelectStatement {
    pub(crate) sql: String,
    pub(crate) bind_values: Vec<SQLiteBindValue>,
}

pub ghost enum BindView {
    String(Seq<char>),
    Int64(i64),
    Bool(bool),
    Null,
}

impl View for SQLiteBindValue {
    type V = BindView;

    open(crate) spec fn view(&self) -> BindView {
        match self {
            SQLiteBindValue::String(s) => BindView::String(s@),
            SQLiteBindValue::Int64(v) => BindView::Int64(*v),
            SQLiteBindValue::Bool(b) => BindView::Bool(*b),
            SQLiteBindValue::Null => BindView::Null,
        }
    }
}

pub open spec fn binds_view(s: Seq<SQLiteBindValue>) -> Seq<BindView> {
    s.map_values(|x: SQLiteBindValue| x@)
}

// ---------------------------------------------------------------------------
// The rendered text, as mathematics
// ---------------------------------------------------------------------------
pub open spec fn column_sql(alias: Seq<char>, column: Seq<char>) -> Seq<char> {
    alias + "."@ + column
}

pub open spec fn value_text(v: SqlValueView) -> Seq<char> {
    match v {
        SqlValueView::Column(alias, column) => column_sql(alias, column),
        SqlValueView::Literal(_) => "?"@,
    }
}

pub open spec fn bind_of(l: LiteralPlanView) -> BindView {
    match l {
        LiteralPlanView::String(s) => BindView::String(s),
        LiteralPlanView::Int64(v) => BindView::Int64(v),
        LiteralPlanView::Bool(b) => BindView::Bool(b),
        LiteralPlanView::Null => BindView::Null,
    }
}

pub open spec fn value_binds(v: SqlValueView) -> Seq<BindView> {
    match v {
        SqlValueView::Column(..) => seq![],
        SqlValueView::Literal(l) => seq![bind_of(l)],
    }
}

pub open spec fn select_clause(values: Seq<SelectedView>) -> Seq<char> {
    "SELECT "@ + join(
        values.map_values(|v: SelectedView| column_sql(v.source_alias, v.column_name)),
        ", "@,
    )
}

pub open spec fn join_kind_sql(k: SQLiteJoinKind) -> Seq<char> {
    match k {
        SQLiteJoinKind::Inner => "INNER JOIN"@,
        SQLiteJoinKind::Left => "LEFT JOIN"@,
    }
}

pub open spec fn join_clause(j: JoinView) -> Seq<char> {
    join_kind_sql(j.kind) + " "@ + j.target_table + " AS "@ + j.target_alias + " ON "@ + column_sql(
        j.left_alias,
        j.left_column,
    ) + " = "@ + column_sql(j.right_alias, j.right_column)
}

pub open spec fn where_clause(f: WhereView) -> Seq<char> {
    match f {
        WhereView::Compare(l, _, r) => "WHERE "@ + value_text(l) + " = "@ + value_text(r),
        WhereView::IsNull(v) => "WHERE "@ + value_text(v) + " IS NULL"@,
    }
}

pub open spec fn where_binds(f: WhereView) -> Seq<BindView> {
    match f {
        WhereView::Compare(l, _, r) => value_binds(l) + value_binds(r),
        WhereView::IsNull(v) => value_binds(v),
    }
}

pub open spec fn direction_sql(d: SQLiteOrderDirection) -> Seq<char> {
    match d {
        SQLiteOrderDirection::Asc => "ASC"@,
        SQLiteOrderDirection::Desc => "DESC"@,
    }
}

pub open spec fn order_item_sql(o: OrderByView) -> Seq<char> {
    column_sql(o.source_alias, o.column_name) + " "@ + direction_sql(o.direction)
}

pub open spec fn order_clause(os: Seq<OrderByView>) -> Seq<char> {
    "ORDER BY "@ + join(os.map_values(|o: OrderByView| order_item_sql(o)), ", "@)
}

/// The clauses of a select in order: `SELECT`, `FROM`, the joins, then
/// `WHERE`, `ORDER BY`, `LIMIT` and `OFFSET` where the plan has them.
pub open spec fn select_clauses(p: PlanView) -> Seq<Seq<char>> {
    seq![select_clause(p.selected_values), "FROM "@ + p.root_source.table_name + " AS "@ + p.root_source.alias]
        + p.joins.map_values(|j: JoinView| join_clause(j)) + match p.filter {
        Some(f) => seq![where_clause(f)],
        None => seq![],
    } + if p.order_by.len() == 0 {
        seq![]
    } else {
        seq![order_clause(p.order_by)]
    } + match p.limit {
        Some(v) => seq!["LIMIT "@ + signed_decimal(v as int)],
        None => seq![],
    } + match p.offset {
        Some(v) => seq!["OFFSET "@ + signed_decimal(v as int)],
        None => seq![],
    }
}

pub open spec fn select_sql(p: PlanView) -> Seq<char> {
    join(select_clauses(p), " "@)
}

pub open spec fn select_binds(p: PlanView) -> Seq<BindView> {
    match p.filter {
        Some(f) => where_binds(f),
        None => seq![],
    }
}

// ---------------------------------------------------------------------------
// Placeholders
// ---------------------------------------------------------------------------
/// Number of `?` characters in `s`.
pub open spec fn marks(s: Seq<char>) -> nat
    decreases s.len(),
{
    if s.len() == 0 {
        0
    } else {
        marks(s.drop_last()) + if s.last() == '?' {
            1nat
        } else {
            0nat
        }
    }
}

/// Total number of `?` characters in `parts`.
pub open spec fn sum_marks(parts: Seq<Seq<char>>) -> nat
    decreases parts.len(),
{
    if parts.len() == 0 {
        0
    } else {
        sum_marks(parts.drop_last()) + marks(parts.last())
    }
}

proof fn lemma_marks_append(a: Seq<char>, b: Seq<char>)
    ensures
        marks(a + b) == marks(a) + marks(b),
    decreases b.len(),
{
    if b.len() == 0 {
        assert(a + b =~= a);
    } else {
        lemma_marks_append(a, b.drop_last());
        assert((a + b).drop_last() =~= a + b.drop_last());
    }
}

proof fn lemma_literal_marks()
    ensures
        marks("SELECT "@) == 0,
        marks(", "@) == 0,
        marks("."@) == 0,
        marks("FROM "@) == 0,
        marks(" AS "@) == 0,
        marks("INNER JOIN"@) == 0,
        marks("LEFT JOIN"@) == 0,
        marks(" "@) == 0,
        marks(" ON "@) == 0,
        marks(" = "@) == 0,
        marks("WHERE "@) == 0,
        marks(" IS NULL"@) == 0,
        marks("ORDER BY "@) == 0,
        marks("ASC"@) == 0,
        marks("DESC"@) == 0,
        marks("LIMIT "@) == 0,
        marks("OFFSET "@) == 0,
        marks("?"@) == 1,
{
    reveal_with_fuel(marks, 11);
    reveal_strlit("SELECT ");
    reveal_strlit(", ");
    reveal_strlit(".");
    reveal_strlit("FROM ");
    reveal_strlit(" AS ");
    reveal_strlit("INNER JOIN");
    reveal_strlit("LEFT JOIN");
    reveal_strlit(" ");
    reveal_strlit(" ON ");
    reveal_strlit(" = ");
    reveal_strlit("WHERE ");
    reveal_strlit(" IS NULL");
    reveal_strlit("ORDER BY ");
    reveal_strlit("ASC");
    reveal_strlit("DESC");
    reveal_strlit("LIMIT ");
    reveal_strlit("OFFSET ");
    reveal_strlit("?");
}

proof fn lemma_marks_push(s: Seq<char>, c: char)
    ensures
        marks(s.push(c)) == marks(s) + if c == '?' {
            1nat
        } else {
            0nat
        },
{
    assert(s.push(c).drop_last() =~= s);
}

proof fn lemma_digit_not_mark(d: nat)
    requires
        d < 10,
    ensures
        digit_of(d) != '?',
{
    assert(digit_of(d) as u32 == 48 + d);
}

proof fn lemma_decimal_marks(v: nat)
    ensures
        marks(decimal(v)) == 0,
    decreases v,
{
    if v < 10 {
        lemma_digit_not_mark(v);
        lemma_marks_push(Seq::<char>::empty(), digit_of(v));
        assert(Seq::<char>::empty().push(digit_of(v)) =~= decimal(v));
    } else {
        lemma_decimal_marks(v / 10);
        lemma_digit_not_mark(v % 10);
        lemma_marks_push(decimal(v / 10), digit_of(v % 10));
    }
}

proof fn lemma_signed_decimal_marks(v: int)
    ensures
        marks(signed_decimal(v)) == 0,
{
    if v < 0 {
        lemma_decimal_marks((-v) as nat);
        lemma_marks_push(Seq::<char>::empty(), '-');
        assert(Seq::<char>::empty().push('-') =~= seq!['-']);
        lemma_marks_append(seq!['-'], decimal((-v) as nat));
    } else {
        lemma_decimal_marks(v as nat);
    }
}

proof fn lemma_join_marks(parts: Seq<Seq<char>>, sep: Seq<char>)
    requires
        marks(sep) == 0,
    ensures
        marks(join(parts, sep)) == sum_marks(parts),
    decreases parts.len(),
{
    if parts.len() == 1 {
        assert(parts.drop_last() =~= Seq::<Seq<char>>::empty());
        assert(sum_marks(parts.drop_last()) == 0);
    } else if parts.len() > 1 {
        lemma_join_marks(parts.drop_last(), sep);
        lemma_marks_append(join(parts.drop_last(), sep), sep);
        lemma_marks_append(join(parts.drop_last(), sep) + sep, parts.last());
    }
}

proof fn lemma_sum_marks_append(a: Seq<Seq<char>>, b: Seq<Seq<char>>)
    ensures
        sum_marks(a + b) == sum_marks(a) + sum_marks(b),
    decreases b.len(),
{
    if b.len() == 0 {
        assert(a + b =~= a);
    } else {
        lemma_sum_marks_append(a, b.drop_last());
        assert((a + b).drop_last() =~= a + b.drop_last());
    }
}

proof fn lemma_sum_marks_zero(parts: Seq<Seq<char>>)
    requires
        forall|k: int| 0 <= k < parts.len() ==> marks(#[trigger] parts[k]) == 0,
    ensures
        sum_marks(parts) == 0,
    decreases parts.len(),
{
    if parts.len() > 0 {
        let init = parts.drop_last();
        assert forall|k: int| 0 <= k < init.len() implies marks(#[trigger] init[k]) == 0 by {
            assert(init[k] == parts[k]);
        }
        lemma_sum_marks_zero(init);
    }
}

/// Marks of a concatenation of five parts.
proof fn lemma_marks5(a: Seq<char>, b: Seq<char>, c: Seq<char>, d: Seq<char>, e: Seq<char>)
    ensures
        marks(a + b + c + d + e) == marks(a) + marks(b) + marks(c) + marks(d) + marks(e),
{
    lemma_marks_append(a, b);
    lemma_marks_append(a + b, c);
    lemma_marks_append(a + b + c, d);
    lemma_marks_append(a + b + c + d, e);
}

/// A name that holds no `?`.
pub open spec fn clean(s: Seq<char>) -> bool {
    marks(s) == 0
}

/// A column reference whose alias and column hold no `?`; literals always
/// qualify.
pub open spec fn value_clean(v: SqlValueView) -> bool {
    match v {
        SqlValueView::Column(alias, column) => clean(alias) && clean(column),
        SqlValueView::Literal(_) => true,
    }
}

/// No name in the plan contains a `?`.
pub open spec fn plan_names_clean(p: PlanView) -> bool {
    &&& clean(p.root_source.table_name) && clean(p.root_source.alias)
    &&& forall|k: int| 0 <= k < p.selected_values.len() ==> clean((#[trigger] p.selected_values[k]).source_alias)
        && clean(p.selected_values[k].column_name)
    &&& forall|k: int| 0 <= k < p.joins.len() ==> {
        let j = #[trigger] p.joins[k];
        clean(j.target_table) && clean(j.target_alias) && clean(j.left_alias) && clean(j.left_column)
            && clean(j.right_alias) && clean(j.right_column)
    }
    &&& forall|k: int| 0 <= k < p.order_by.len() ==> clean((#[trigger] p.order_by[k]).source_alias)
        && clean(p.order_by[k].column_name)
    &&& match p.filter {
        Some(WhereView::Compare(l, _, r)) => value_clean(l) && value_clean(r),
        Some(WhereView::IsNull(v)) => value_clean(v),
        None => true,
    }
}

proof fn lemma_column_marks(alias: Seq<char>, column: Seq<char>)
    ensures
        marks(column_sql(alias, column)) == marks(alias) + marks(column),
{
    lemma_literal_marks();
    lemma_marks_append(alias, "."@);
    lemma_marks_append(alias + "."@, column);
}

proof fn lemma_value_marks(v: SqlValueView)
    requires
        value_clean(v),
    ensures
        marks(value_text(v)) == value_binds(v).len(),
{
    lemma_literal_marks();
    if let SqlValueView::Column(a, c) = v {
        lemma_column_marks(a, c);
    }
}

/// The rendered select has one `?` per bind value, provided no table,
/// alias or column name of the plan contains a `?`.
pub proof fn law_placeholders_match_binds(p: PlanView)
    requires
        plan_names_clean(p),
    ensures
        marks(select_sql(p)) == select_binds(p).len(),
{
    lemma_literal_marks();
    let cols = p.selected_values.map_values(|v: SelectedView| column_sql(v.source_alias, v.column_name));
    assert forall|k: int| 0 <= k < cols.len() implies marks(#[trigger] cols[k]) == 0 by {
        lemma_column_marks(p.selected_values[k].source_alias, p.selected_values[k].column_name);
    }
    lemma_sum_marks_zero(cols);
    lemma_join_marks(cols, ", "@);
    lemma_marks_append("SELECT "@, join(cols, ", "@));
    let select = select_clause(p.selected_values);
    let from = "FROM "@ + p.root_source.table_name + " AS "@ + p.root_source.alias;
    lemma_marks_append("FROM "@, p.root_source.table_name);
    lemma_marks_append("FROM "@ + p.root_source.table_name, " AS "@);
    lemma_marks_append("FROM "@ + p.root_source.table_name + " AS "@, p.root_source.alias);
    let joins = p.joins.map_values(|j: JoinView| join_clause(j));
    assert forall|k: int| 0 <= k < joins.len() implies marks(#[trigger] joins[k]) == 0 by {
        let j = p.joins[k];
        lemma_column_marks(j.left_alias, j.left_column);
        lemma_column_marks(j.right_alias, j.right_column);
        lemma_marks5(join_kind_sql(j.kind), " "@, j.target_table, " AS "@, j.target_alias);
        let head = join_kind_sql(j.kind) + " "@ + j.target_table + " AS "@ + j.target_alias;
        lemma_marks5(head, " ON "@, column_sql(j.left_alias, j.left_column), " = "@, column_sql(j.right_alias, j.right_column));
    }
    lemma_sum_marks_zero(joins);
    let wh: Seq<Seq<char>> = match p.filter {
        Some(f) => seq![where_clause(f)],
        None => seq![],
    };
    if let Some(f) = p.filter {
        match f {
            WhereView::Compare(l, _, r) => {
                lemma_value_marks(l);
                lemma_value_marks(r);
                lemma_marks5("WHERE "@, value_text(l), " = "@, value_text(r), seq![]);
                assert("WHERE "@ + value_text(l) + " = "@ + value_text(r) + Seq::<char>::empty() =~= where_clause(f));
            },
            WhereView::IsNull(v) => {
                lemma_value_marks(v);
                lemma_marks_append("WHERE "@, value_text(v));
                lemma_marks_append("WHERE "@ + value_text(v), " IS NULL"@);
            },
        }
        assert(wh.drop_last() =~= Seq::<Seq<char>>::empty());
    }
    let ord: Seq<Seq<char>> = if p.order_by.len() == 0 {
        seq![]
    } else {
        seq![order_clause(p.order_by)]
    };
    if p.order_by.len() > 0 {
        let items = p.order_by.map_values(|o: OrderByView| order_item_sql(o));
        assert forall|k: int| 0 <= k < items.len() implies marks(#[trigger] items[k]) == 0 by {
            let o = p.order_by[k];
            lemma_column_marks(o.source_alias, o.column_name);
            lemma_marks_append(column_sql(o.source_alias, o.column_name), " "@);
            lemma_marks_append(column_sql(o.source_alias, o.column_name) + " "@, direction_sql(o.direction));
        }
        lemma_sum_marks_zero(items);
        lemma_join_marks(items, ", "@);
        lemma_marks_append("ORDER BY "@, join(items, ", "@));
        assert(ord.drop_last() =~= Seq::<Seq<char>>::empty());
    }
    let lim: Seq<Seq<char>> = match p.limit {
        Some(v) => seq!["LIMIT "@ + signed_decimal(v as int)],
        None => seq![],
    };
    if let Some(v) = p.limit {
        lemma_signed_decimal_marks(v as int);
        lemma_marks_append("LIMIT "@, signed_decimal(v as int));
        assert(lim.drop_last() =~= Seq::<Seq<char>>::empty());
    }
    let off: Seq<Seq<char>> = match p.offset {
        Some(v) => seq!["OFFSET "@ + signed_decimal(v as int)],
        None => seq![],
    };
    if let Some(v) = p.offset {
        lemma_signed_decimal_marks(v as int);
        lemma_marks_append("OFFSET "@, signed_decimal(v as int));
        assert(off.drop_last() =~= Seq::<Seq<char>>::empty());
    }
    assert(sum_marks(Seq::<Seq<char>>::empty()) == 0);
    assert(marks(select) == 0);
    assert(marks(from) == 0);
    assert(sum_marks(joins) == 0);
    assert(sum_marks(wh) == select_binds(p).len());
    assert(sum_marks(ord) == 0);
    assert(sum_marks(lim) == 0);
    assert(sum_marks(off) == 0);
    let head: Seq<Seq<char>> = seq![select, from];
    assert(head.drop_last() =~= seq![select]);
    assert(seq![select].drop_last() =~= Seq::<Seq<char>>::empty());
    assert(sum_marks(seq![select]) == 0);
    assert(sum_marks(head) == 0);
    assert(select_clauses(p) =~= head + joins + wh + ord + lim + off);
    lemma_sum_marks_append(head, joins);
    lemma_sum_marks_append(head + joins, wh);
    lemma_sum_marks_append(head + joins + wh, ord);
    lemma_sum_marks_append(head + joins + wh + ord, lim);
    lemma_sum_marks_append(head + joins + wh + ord + lim, off);
    lemma_join_marks(select_clauses(p), " "@);
}

// ---------------------------------------------------------------------------
// Bind values and clause order
// ---------------------------------------------------------------------------
/// The operands of a filter, left to right.
pub open spec fn filter_operands(f: WhereView) -> Seq<SqlValueView> {
    match f {
        WhereView::Compare(l, _, r) => seq![l, r],
        WhereView::IsNull(v) => seq![v],
    }
}

/// The literals among `vs`, left to right.
pub open spec fn literal_operands(vs: Seq<SqlValueView>) -> Seq<LiteralPlanView> {
    vs.filter(|v: SqlValueView| v is Literal).map_values(|v: SqlValueView| v->Literal_0)
}

/// The bind values of a select are the literal operands of its filter, left
/// to right, each bound as the same value; without a filter there are none.
/// An `IS NULL` test of a column binds nothing and renders as
/// `WHERE <alias>.<column> IS NULL`.
pub proof fn law_select_binds(p: PlanView)
    ensures
        select_binds(p) == match p.filter {
            Some(f) => literal_operands(filter_operands(f)).map_values(|l: LiteralPlanView| bind_of(l)),
            None => Seq::<BindView>::empty(),
        },
        p.filter matches Some(WhereView::IsNull(SqlValueView::Column(a, c))) ==> select_binds(p)
            == Seq::<BindView>::empty() && where_clause(p.filter.unwrap()) == "WHERE "@ + a + "."@
            + c + " IS NULL"@,
{
    reveal_with_fuel(Seq::filter, 3);
    if let Some(f) = p.filter {
        let vs = filter_operands(f);
        let b = |l: LiteralPlanView| bind_of(l);
        match f {
            WhereView::Compare(l, _, r) => {
                assert(vs.drop_last() =~= seq![l]);
                assert(seq![l].drop_last() =~= Seq::<SqlValueView>::empty());
                assert(literal_operands(vs).map_values(b) =~= value_binds(l) + value_binds(r));
            },
            WhereView::IsNull(v) => {
                assert(vs.drop_last() =~= Seq::<SqlValueView>::empty());
                assert(literal_operands(vs).map_values(b) =~= value_binds(v));
            },
        }
    }
}

/// `parts`, each preceded by one space.
pub open spec fn spaced(parts: Seq<Seq<char>>) -> Seq<char>
    decreases parts.len(),
{
    if parts.len() == 0 {
        seq![]
    } else {
        spaced(parts.drop_last()) + " "@ + parts.last()
    }
}

/// One space and the text, where there is a text.
pub open spec fn spaced_opt(text: Option<Seq<char>>) -> Seq<char> {
    match text {
        Some(t) => " "@ + t,
        None => seq![],
    }
}

proof fn lemma_spaced_append(a: Seq<Seq<char>>, b: Seq<Seq<char>>)
    ensures
        spaced(a + b) == spaced(a) + spaced(b),
    decreases b.len(),
{
    if b.len() == 0 {
        assert(a + b =~= a);
        assert(spaced(a) + spaced(b) =~= spaced(a));
    } else {
        lemma_spaced_append(a, b.drop_last());
        assert((a + b).drop_last() =~= a + b.drop_last());
        assert(spaced(a + b) =~= spaced(a) + spaced(b));
    }
}

proof fn lemma_spaced_opt(o: Option<Seq<char>>)
    ensures
        spaced(opt_part(o)) == spaced_opt(o),
{
    if let Some(t) = o {
        assert(seq![t].drop_last() =~= Seq::<Seq<char>>::empty());
        assert(spaced(Seq::<Seq<char>>::empty()) + " "@ + t =~= " "@ + t);
    }
}

proof fn lemma_join_spaced(parts: Seq<Seq<char>>)
    requires
        parts.len() > 0,
    ensures
        join(parts, " "@) == parts[0] + spaced(parts.drop_first()),
    decreases parts.len(),
{
    if parts.len() == 1 {
        assert(parts.drop_first() =~= Seq::<Seq<char>>::empty());
        assert(parts[0] + spaced(parts.drop_first()) =~= parts[0]);
    } else {
        let init = parts.drop_last();
        lemma_join_spaced(init);
        assert(parts.drop_first().drop_last() =~= init.drop_first());
        assert(init[0] == parts[0]);
        assert(join(parts, " "@) =~= parts[0] + spaced(parts.drop_first()));
    }
}

/// `FROM <table> AS <alias>`.
pub open spec fn from_clause(p: PlanView) -> Seq<char> {
    "FROM "@ + p.root_source.table_name + " AS "@ + p.root_source.alias
}

/// The `WHERE` clause, where the plan has a filter.
pub open spec fn where_part(p: PlanView) -> Option<Seq<char>> {
    match p.filter {
        Some(f) => Some(where_clause(f)),
        None => None,
    }
}

/// The `ORDER BY` clause, where the plan orders its rows.
pub open spec fn order_part(p: PlanView) -> Option<Seq<char>> {
    if p.order_by.len() == 0 {
        None
    } else {
        Some(order_clause(p.order_by))
    }
}

/// The `LIMIT` clause, where the plan has a limit.
pub open spec fn limit_part(p: PlanView) -> Option<Seq<char>> {
    match p.limit {
        Some(v) => Some("LIMIT "@ + signed_decimal(v as int)),
        None => None,
    }
}

/// The `OFFSET` clause, where the plan has an offset.
pub open spec fn offset_part(p: PlanView) -> Option<Seq<char>> {
    match p.offset {
        Some(v) => Some("OFFSET "@ + signed_decimal(v as int)),
        None => None,
    }
}

spec fn opt_part(o: Option<Seq<char>>) -> Seq<Seq<char>> {
    match o {
        Some(t) => seq![t],
        None => Seq::<Seq<char>>::empty(),
    }
}

proof fn lemma_clause_parts(p: PlanView)
    ensures
        select_clauses(p) == seq![select_clause(p.selected_values)] + (seq![from_clause(p)]
            + p.joins.map_values(|j: JoinView| join_clause(j)) + opt_part(where_part(p)) + opt_part(
            order_part(p),
        ) + opt_part(limit_part(p)) + opt_part(offset_part(p))),
{
    assert(select_clauses(p) =~= seq![select_clause(p.selected_values)] + (seq![from_clause(p)]
        + p.joins.map_values(|j: JoinView| join_clause(j)) + opt_part(where_part(p)) + opt_part(
        order_part(p),
    ) + opt_part(limit_part(p)) + opt_part(offset_part(p))));
}

proof fn lemma_spaced_parts(p: PlanView)
    ensures
        spaced(seq![from_clause(p)] + p.joins.map_values(|j: JoinView| join_clause(j)) + opt_part(
            where_part(p),
        ) + opt_part(order_part(p)) + opt_part(limit_part(p)) + opt_part(offset_part(p)))
            == " "@ + from_clause(p) + spaced(p.joins.map_values(|j: JoinView| join_clause(j)))
            + spaced_opt(where_part(p)) + spaced_opt(order_part(p)) + spaced_opt(limit_part(p))
            + spaced_opt(offset_part(p)),
{
    let from = seq![from_clause(p)];
    let joins = p.joins.map_values(|j: JoinView| join_clause(j));
    lemma_spaced_opt(where_part(p));
    lemma_spaced_opt(order_part(p));
    lemma_spaced_opt(limit_part(p));
    lemma_spaced_opt(offset_part(p));
    assert(from.drop_last() =~= Seq::<Seq<char>>::empty());
    assert(spaced(Seq::<Seq<char>>::empty()) == Seq::<char>::empty());
    assert(spaced(from) =~= " "@ + from_clause(p));
    lemma_spaced_append(from, joins);
    lemma_spaced_append(from + joins, opt_part(where_part(p)));
    lemma_spaced_append(from + joins + opt_part(where_part(p)), opt_part(order_part(p)));
    lemma_spaced_append(
        from + joins + opt_part(where_part(p)) + opt_part(order_part(p)),
        opt_part(limit_part(p)),
    );
    lemma_spaced_append(
        from + joins + opt_part(where_part(p)) + opt_part(order_part(p)) + opt_part(limit_part(p)),
        opt_part(offset_part(p)),
    );
}

/// The SQL of a select is its clauses joined by single spaces, in this
/// order: `SELECT`, `FROM`, each join, then `WHERE`, `ORDER BY`, `LIMIT`
/// and `OFFSET` where the plan has them.
pub proof fn law_select_clause_order(p: PlanView)
    ensures
        select_sql(p) == select_clause(p.selected_values) + (" "@ + from_clause(p) + spaced(
            p.joins.map_values(|j: JoinView| join_clause(j)),
        ) + spaced_opt(where_part(p)) + spaced_opt(order_part(p)) + spaced_opt(limit_part(p))
            + spaced_opt(offset_part(p))),
{
    lemma_clause_parts(p);
    let rest = seq![from_clause(p)] + p.joins.map_values(|j: JoinView| join_clause(j)) + opt_part(
        where_part(p),
    ) + opt_part(order_part(p)) + opt_part(limit_part(p)) + opt_part(offset_part(p));
    let parts = seq![select_clause(p.selected_values)] + rest;
    assert(parts.drop_first() =~= rest);
    assert(parts[0] == select_clause(p.selected_values));
    lemma_join_spaced(parts);
    lemma_spaced_parts(p);
}

/// The SQL keyword of an ordering direction is the query language's own
/// keyword for it, in upper case: `ASC` for ascending, `DESC` otherwise.
pub proof fn law_direction_keywords(d: SQLiteOrderDirection)
    ensures
        lower(direction_sql(d)) == keyword_text(
            if d.ascending() {
                Keyword::Asc
            } else {
                Keyword::Desc
            },
        ),
{
    reveal_strlit("ASC");
    reveal_strlit("DESC");
    reveal_strlit("asc");
    reveal_strlit("desc");
    assert(lower("ASC"@) =~= "asc"@);
    assert(lower("DESC"@) =~= "desc"@);
}

// ---------------------------------------------------------------------------
// Rendering
// ---------------------------------------------------------------------------
fn render_column(alias: &str, column: &str) -> (r: String)
    ensures
        r@ == column_sql(alias@, column@),
{
    let mut out = owned(alias);
    append_str(&mut out, ".");
    append_str(&mut out, column);
    out
}

fn render_select_clause(plan: &SQLiteSelectPlan) -> (r: String)
    ensures
        r@ == select_clause(plan@.selected_values),
{
    let values = plan.selected_values();
    let ghost expected = plan@.selected_values.map_values(
        |v: SelectedView| column_sql(v.source_alias, v.column_name),
    );
    let mut columns: Vec<String> = Vec::new();
    let mut i: usize = 0;
    while i < values.len()
        invariant
            i <= values@.len(),
            selected_view(values@) == plan@.selected_values,
            expected == plan@.selected_values.map_values(
                |v: SelectedView| column_sql(v.source_alias, v.column_name),
            ),
            strings_view(columns@) == expected.take(i as int),
        decreases values@.len() - i,
    {
        let c = render_column(values[i].source_alias(), values[i].column_name());
        let ghost before = columns@;
        columns.push(c);
        proof {
            assert(selected_view(values@)[i as int] == values@[i as int]@);
            assert(strings_view(columns@) =~= strings_view(before).push(c@));
            assert(strings_view(columns@) =~= expected.take(i as int + 1));
        }
        i = i + 1;
    }
    proof {
        assert(expected.take(i as int) =~= expected);
    }
    let mut out = owned("SELECT ");
    let list = render_join(columns.as_slice(), ", ");
    append_str(&mut out, list.as_str());
    out
}

fn render_from_clause(plan: &SQLiteSelectPlan) -> (r: String)
    ensures
        r@ == "FROM "@ + plan@.root_source.table_name + " AS "@ + plan@.root_source.alias,
{
    let mut out = owned("FROM ");
    append_str(&mut out, plan.root_source().table_name());
    append_str(&mut out, " AS ");
    append_str(&mut out, plan.root_source().alias());
    out
}

fn render_compare_op(op: SQLiteCompareOp) -> (r: &'static str)
    ensures
        r@ == " = "@,
{
    match op {
        SQLiteCompareOp::Eq => " = ",
    }
}

fn render_value_expr(value: &SQLiteValueExpr, bind_values: &mut Vec<SQLiteBindValue>) -> (r: String)
    ensures
        r@ == value_text(value@),
        binds_view(final(bind_values)@) == binds_view(old(bind_values)@) + value_binds(value@),
{
    let ghost before = binds_view(bind_values@);
    match value {
        SQLiteValueExpr::Column(column) => {
            proof {
                assert(before + Seq::<BindView>::empty() =~= before);
            }
            render_column(column.source_alias(), column.column_name())
        },
        SQLiteValueExpr::Literal(literal) => {
            let bind = match literal {
                SQLiteLiteral::String(s) => SQLiteBindValue::String(owned(s.as_str())),
                SQLiteLiteral::Int64(v) => SQLiteBindValue::Int64(*v),
                SQLiteLiteral::Bool(b) => SQLiteBindValue::Bool(*b),
                SQLiteLiteral::Null => SQLiteBindValue::Null,
            };
            bind_values.push(bind);
            proof {
                assert(binds_view(bind_values@) =~= before.push(bind@));
            }
            owned("?")
        },
    }
}

fn render_where_clause(plan: &SQLiteSelectPlan) -> (r: (Option<String>, Vec<SQLiteBindValue>))
    ensures
        match plan@.filter {
            Some(f) => r.0 matches Some(s) && s@ == where_clause(f),
            None => r.0 is None,
        },
        binds_view(r.1@) == select_binds(plan@),
{
    match plan.filter() {
        None => (None, Vec::new()),
        Some(SQLiteWhereExpr::Compare(compare)) => {
            let mut bind_values: Vec<SQLiteBindValue> = Vec::new();
            let left = render_value_expr(compare.left(), &mut bind_values);
            let op = render_compare_op(compare.op());
            let right = render_value_expr(compare.right(), &mut bind_values);
            let mut out = owned("WHERE ");
            append_str(&mut out, left.as_str());
            append_str(&mut out, op);
            append_str(&mut out, right.as_str());
            proof {
                assert(Seq::<BindView>::empty() + value_binds(compare@.0) =~= value_binds(compare@.0));
            }
            (Some(out), bind_values)
        },
        Some(SQLiteWhereExpr::IsNull(value)) => {
            let mut bind_values: Vec<SQLiteBindValue> = Vec::new();
            let text = render_value_expr(value, &mut bind_values);
            let mut out = owned("WHERE ");
            append_str(&mut out, text.as_str());
            append_str(&mut out, " IS NULL");
            proof {
                assert(Seq::<BindView>::empty() + value_binds(value@) =~= value_binds(value@));
            }
            (Some(out), bind_values)
        },
    }
}

fn render_join_clauses(plan: &SQLiteSelectPlan) -> (r: Vec<String>)
    ensures
        strings_view(r@) == plan@.joins.map_values(|j: JoinView| join_clause(j)),
{
    let joins = plan.joins();
    let ghost expected = plan@.joins.map_values(|j: JoinView| join_clause(j));
    let mut out: Vec<String> = Vec::new();
    let mut i: usize = 0;
    while i < joins.len()
        invariant
            i <= joins@.len(),
            joins_view(joins@) == plan@.joins,
            expected == plan@.joins.map_values(|j: JoinView| join_clause(j)),
            strings_view(out@) == expected.take(i as int),
        decreases joins@.len() - i,
    {
        let join = &joins[i];
        let on = join.on();
        let mut clause = owned(
            match join.kind() {
                SQLiteJoinKind::Inner => "INNER JOIN",
                SQLiteJoinKind::Left => "LEFT JOIN",
            },
        );
        proof {
            assert(joins_view(joins@)[i as int] == joins@[i as int]@);
            assert(clause@ == join_kind_sql(join@.kind));
        }
        append_str(&mut clause, " ");
        append_str(&mut clause, join.target_table());
        append_str(&mut clause, " AS ");
        append_str(&mut clause, join.target_alias());
        append_str(&mut clause, " ON ");
        let left = render_column(on.left_alias(), on.left_column());
        append_str(&mut clause, left.as_str());
        append_str(&mut clause, " = ");
        let right = render_column(on.right_alias(), on.right_column());
        append_str(&mut clause, right.as_str());
        let ghost before = out@;
        out.push(clause);
        proof {
            assert(strings_view(out@) =~= strings_view(before).push(clause@));
            assert(strings_view(out@) =~= expected.take(i as int + 1));
        }
        i = i + 1;
    }
    proof {
        assert(expected.take(i as int) =~= expected);
    }
    out
}

fn render_order_clause(plan: &SQLiteSelectPlan) -> (r: Option<String>)
    ensures
        if plan@.order_by.len() == 0 {
            r is None
        } else {
            r matches Some(s) && s@ == order_clause(plan@.order_by)
        },
{
    let orders = plan.order_by();
    if orders.len() == 0 {
        return None;
    }
    let ghost expected = plan@.order_by.map_values(|o: OrderByView| order_item_sql(o));
    let mut items: Vec<String> = Vec::new();
    let mut i: usize = 0;
    while i < orders.len()
        invariant
            i <= orders@.len(),
            order_by_view(orders@) == plan@.order_by,
            expected == plan@.order_by.map_values(|o: OrderByView| order_item_sql(o)),
            strings_view(items@) == expected.take(i as int),
        decreases orders@.len() - i,
    {
        let order = &orders[i];
        let mut item = render_column(order.source_alias(), order.column_name());
        append_str(&mut item, " ");
        append_str(
            &mut item,
            match order.direction() {
                SQLiteOrderDirection::Asc => "ASC",
                SQLiteOrderDirection::Desc => "DESC",
            },
        );
        let ghost before = items@;
        items.push(item);
        proof {
            assert(order_by_view(orders@)[i as int] == orders@[i as int]@);
            assert(strings_view(items@) =~= strings_view(before).push(item@));
            assert(strings_view(items@) =~= expected.take(i as int + 1));
        }
        i = i + 1;
    }
    proof {
        assert(expected.take(i as int) =~= expected);
    }
    let mut out = owned("ORDER BY ");
    let list = render_join(items.as_slice(), ", ");
    append_str(&mut out, list.as_str());
    Some(out)
}

fn render_limit_clause(plan: &SQLiteSelectPlan) -> (r: Option<String>)
    ensures
        match plan@.limit {
            Some(v) => r matches Some(s) && s@ == "LIMIT "@ + signed_decimal(v as int),
            None => r is None,
        },
{
    match plan.limit() {
        None => None,
        Some(val) => {
            let mut out = owned("LIMIT ");
            let digits = i64_to_string(val);
            append_str(&mut out, digits.as_str());
            Some(out)
        },
    }
}

fn render_offset_clause(plan: &SQLiteSelectPlan) -> (r: Option<String>)
    ensures
        match plan@.offset {
            Some(v) => r matches Some(s) && s@ == "OFFSET "@ + signed_decimal(v as int),
            None => r is None,
        },
{
    match plan.offset() {
        None => None,
        Some(val) => {
            let mut out = owned("OFFSET ");
            let digits = i64_to_string(val);
            append_str(&mut out, digits.as_str());
            Some(out)
        },
    }
}

fn push_optional(clauses: &mut Vec<String>, clause: Option<String>)
    ensures
        strings_view(final(clauses)@) == strings_view(old(clauses)@) + match clause {
            Some(s) => seq![s@],
            None => Seq::<Seq<char>>::empty(),
        },
{
    let ghost before = strings_view(clauses@);
    match clause {
        Some(s) => {
            let ghost text = s@;
            clauses.push(s);
            proof {
                assert(strings_view(clauses@) =~= before + seq![text]);
            }
        },
        None => {
            proof {
                assert(before + Seq::<Seq<char>>::empty() =~= before);
            }
        },
    }
}

/// Renders a select plan as one SQL statement and its bind values.
pub fn render_select(plan: &SQLiteSelectPlan) -> (r: SQLiteSelectStatement)
    ensures
        r.spec_sql() == select_sql(plan@),
        r.spec_bind_values() == select_binds(plan@),
{
    let select_clause = render_select_clause(plan);
    let from_clause = render_from_clause(plan);
    let (where_clause, bind_values) = render_where_clause(plan);
    let order_clause = render_order_clause(plan);
    let limit_clause = render_limit_clause(plan);
    let offset_clause = render_offset_clause(plan);
    let join_clauses = render_join_clauses(plan);
    let mut clauses: Vec<String> = Vec::new();
    clauses.push(select_clause);
    clauses.push(from_clause);
    let ghost head = strings_view(clauses@);
    let mut k: usize = 0;
    let ghost joined = strings_view(join_clauses@);
    while k < join_clauses.len()
        invariant
            k <= join_clauses@.len(),
            joined == strings_view(join_clauses@),
            strings_view(clauses@) == head + joined.take(k as int),
        decreases join_clauses@.len() - k,
    {
        let ghost before = strings_view(clauses@);
        let c = owned(join_clauses[k].as_str());
        clauses.push(c);
        proof {
            assert(strings_view(clauses@) =~= before.push(c@));
            assert(joined.take(k as int + 1) =~= joined.take(k as int).push(joined[k as int]));
        }
        k = k + 1;
    }
    proof {
        assert(joined.take(k as int) =~= joined);
    }
    push_optional(&mut clauses, where_clause);
    push_optional(&mut clauses, order_clause);
    push_optional(&mut clauses, limit_clause);
    push_optional(&mut clauses, offset_clause);
    proof {
        assert(strings_view(clauses@) =~= select_clauses(plan@));
    }
    SQLiteSelectStatement { sql: render_join(clauses.as_slice(), " "), bind_values }
}

impl SQLiteSelectStatement {
    pub open(crate) spec fn spec_sql(&self) -> Seq<char> {
        self.sql@
    }

    pub open(crate) spec fn spec_bind_values(&self) -> Seq<BindView> {
        binds_view(self.bind_values@)
    }

    pub fn sql(&self) -> (r: &str)
        ensures
            r@ == self.spec_sql(),
    {
        self.sql.as_str()
    }

    pub fn bind_values(&self) -> (r: &[SQLiteBindValue])
        ensures
            binds_view(r@) == self.spec_bind_values(),
    {
        self.bind_values.as_slice()
    }
}

} // verus!
