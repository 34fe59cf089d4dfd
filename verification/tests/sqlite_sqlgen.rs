use gelite::query_ir::{
    ResolvedPath, ResolvedPathStep, ResolvedShape, ResolvedShapeField, SelectQuery, ValueExpr,
};
use gelite::schema::{Cardinality, FieldId, FieldRef, ObjectTypeId, ObjectTypeRef};
use gelite::sqlite_plan::plan_select;
use gelite::sqlite_sqlgen::{SQLiteBindValue, render_select};


#[test]
fn sqlite_sqlgen_can_render_simple_root_scalar_select() {
    let ir = post_query_with_shape(vec![post_title_shape_field()]);
    let plan = plan_select(&ir);

    let statement = render_select(&plan);

    assert_eq!(statement.sql(), "SELECT root.title FROM post AS root");
}

#[test]
fn sqlite_sqlgen_can_render_multiple_root_selected_values() {
    let ir = post_query_with_shape(vec![post_title_shape_field(), post_id_shape_field()]);
    let plan = plan_select(&ir);

    let statement = render_select(&plan);

    assert_eq!(
        statement.sql(),
        "SELECT root.title, root.id FROM post AS root"
    );
}

#[test]
fn sqlite_sqlgen_can_render_selected_single_link_join() {
    let ir = post_query_with_shape(vec![post_title_shape_field(), post_author_shape_field()]);
    let plan = plan_select(&ir);

    let statement = render_select(&plan);

    assert_eq!(
        statement.sql(),
        "SELECT root.title, author.id, author.name FROM post AS root INNER JOIN user AS author ON root.author_id = author.id"
    );
}

#[test]
fn sqlite_sqlgen_can_render_root_scalar_equals_string_filter() {
    let filter = gelite::query_ir::Expr::Compare(gelite::query_ir::CompareExpr::new(
        post_title_path_value(),
        gelite::query_ir::CompareOp::Eq,
        gelite::query_ir::ValueExpr::Literal(gelite::query_ir::Literal::String("Hello".to_string())),
    ));

    let ir = post_query_with_filter(filter);
    let plan = plan_select(&ir);

    let statement = render_select(&plan);

    assert_eq!(
        statement.sql(),
        "SELECT root.title FROM post AS root WHERE root.title = ?"
    );

    assert_eq!(
        statement.bind_values(),
        &[SQLiteBindValue::String("Hello".to_string())]
    );
}

#[test]
fn sqlite_sqlgen_can_render_single_link_scalar_equals_string_filter() {
    let filter = gelite::query_ir::Expr::Compare(gelite::query_ir::CompareExpr::new(
        post_author_name_path_value(),
        gelite::query_ir::CompareOp::Eq,
        gelite::query_ir::ValueExpr::Literal(gelite::query_ir::Literal::String("Sheri".to_string())),
    ));

    let ir = post_query_with_filter(filter);
    let plan = plan_select(&ir);

    let statement = render_select(&plan);

    assert_eq!(
        statement.sql(),
        "SELECT root.title FROM post AS root INNER JOIN user AS author ON root.author_id = author.id WHERE author.name = ?"
    );

    assert_eq!(
        statement.bind_values(),
        &[SQLiteBindValue::String("Sheri".to_string())]
    );
}

#[test]
fn sqlite_sqlgen_can_render_root_scalar_equals_int_filter() {
    let filter = gelite::query_ir::Expr::Compare(gelite::query_ir::CompareExpr::new(
        post_title_path_value(),
        gelite::query_ir::CompareOp::Eq,
        gelite::query_ir::ValueExpr::Literal(gelite::query_ir::Literal::Int64(42)),
    ));

    let ir = post_query_with_filter(filter);
    let plan = plan_select(&ir);

    let statement = render_select(&plan);

    assert_eq!(
        statement.sql(),
        "SELECT root.title FROM post AS root WHERE root.title = ?"
    );

    assert_eq!(statement.bind_values(), &[SQLiteBindValue::Int64(42)]);
}

#[test]
fn sqlite_sqlgen_can_render_root_scalar_equals_bool_filter() {
    let filter = gelite::query_ir::Expr::Compare(gelite::query_ir::CompareExpr::new(
        post_title_path_value(),
        gelite::query_ir::CompareOp::Eq,
        gelite::query_ir::ValueExpr::Literal(gelite::query_ir::Literal::Bool(true)),
    ));

    let ir = post_query_with_filter(filter);
    let plan = plan_select(&ir);

    let statement = render_select(&plan);

    assert_eq!(
        statement.sql(),
        "SELECT root.title FROM post AS root WHERE root.title = ?"
    );

    assert_eq!(statement.bind_values(), &[SQLiteBindValue::Bool(true)]);
}

#[test]
fn sqlite_sqlgen_can_render_root_scalar_is_null_filter() {
    let filter = gelite::query_ir::Expr::IsNull(post_title_path_value());

    let ir = post_query_with_filter(filter);
    let plan = plan_select(&ir);

    let statement = render_select(&plan);

    assert_eq!(
        statement.sql(),
        "SELECT root.title FROM post AS root WHERE root.title IS NULL"
    );

    assert!(statement.bind_values().is_empty());
}

#[test]
fn sqlite_sqlgen_can_render_order_by_root_scalar_field_desc() {
    let order_by = gelite::query_ir::OrderExpr::new(post_title_path_value(), gelite::query_ir::OrderDirection::Desc);

    let ir = post_query_with_order_by(vec![order_by]);
    let plan = plan_select(&ir);

    let statement = render_select(&plan);

    assert_eq!(
        statement.sql(),
        "SELECT root.title FROM post AS root ORDER BY root.title DESC"
    );
}

#[test]
fn sqlite_sqlgen_can_render_order_by_single_link_scalar_field() {
    let order_by = gelite::query_ir::OrderExpr::new(post_author_name_path_value(), gelite::query_ir::OrderDirection::Asc);

    let ir = post_query_with_order_by(vec![order_by]);
    let plan = plan_select(&ir);

    let statement = render_select(&plan);

    assert_eq!(
        statement.sql(),
        "SELECT root.title FROM post AS root INNER JOIN user AS author ON root.author_id = author.id ORDER BY author.name ASC"
    );
}

#[test]
fn sqlite_sqlgen_can_render_limit_and_offset() {
    let ir = post_query_with_limit_and_offset(10, 20);
    let plan = plan_select(&ir);

    let statement = render_select(&plan);

    assert_eq!(
        statement.sql(),
        "SELECT root.title FROM post AS root LIMIT 10 OFFSET 20"
    );
}

fn post_type() -> ObjectTypeRef {
    ObjectTypeRef::new(ObjectTypeId::new(1), "Post")
}

fn user_type() -> ObjectTypeRef {
    ObjectTypeRef::new(ObjectTypeId::new(2), "User")
}

fn post_id_field() -> FieldRef {
    FieldRef::new(FieldId::new(1), post_type(), "id")
}

fn post_title_field() -> FieldRef {
    FieldRef::new(FieldId::new(2), post_type(), "title")
}

fn post_author_field() -> FieldRef {
    FieldRef::new(FieldId::new(3), post_type(), "author")
}

fn user_name_field() -> FieldRef {
    FieldRef::new(FieldId::new(2), user_type(), "name")
}

fn post_title_shape_field() -> ResolvedShapeField {
    ResolvedShapeField::new("title", post_title_field(), Cardinality::Required, None)
}

fn post_id_shape_field() -> ResolvedShapeField {
    ResolvedShapeField::new("id", post_id_field(), Cardinality::Required, None)
}

fn post_author_shape_field() -> ResolvedShapeField {
    ResolvedShapeField::new(
        "author",
        post_author_field(),
        Cardinality::Required,
        Some(ResolvedShape::new(
            user_type(),
            vec![ResolvedShapeField::new(
                "name",
                user_name_field(),
                Cardinality::Required,
                None,
            )],
        )),
    )
}

fn post_title_path_value() -> ValueExpr {
    ValueExpr::Path(
        ResolvedPath::try_new(
            post_type(),
            vec![ResolvedPathStep::scalar(post_title_field(), Cardinality::Required)],
        )
        .expect("post title path should be valid"),
    )
}

fn post_author_name_path_value() -> ValueExpr {
    ValueExpr::Path(
        ResolvedPath::try_new(
            post_type(),
            vec![
                ResolvedPathStep::link(post_author_field(), user_type(), Cardinality::Required),
                ResolvedPathStep::scalar(user_name_field(), Cardinality::Required),
            ],
        )
        .expect("post author name path should be valid"),
    )
}

fn post_query_with_shape(fields: Vec<ResolvedShapeField>) -> SelectQuery {
    SelectQuery::new(
        post_type(),
        ResolvedShape::new(post_type(), fields),
        None,
        vec![],
        None,
        None,
    )
}

fn post_query_with_filter(filter: gelite::query_ir::Expr) -> SelectQuery {
    SelectQuery::new(
        post_type(),
        ResolvedShape::new(post_type(), vec![post_title_shape_field()]),
        Some(filter),
        vec![],
        None,
        None,
    )
}

fn post_query_with_order_by(order_by: Vec<gelite::query_ir::OrderExpr>) -> SelectQuery {
    SelectQuery::new(
        post_type(),
        ResolvedShape::new(post_type(), vec![post_title_shape_field()]),
        None,
        order_by,
        None,
        None,
    )
}

fn post_query_with_limit_and_offset(limit: i64, offset: i64) -> SelectQuery {
    SelectQuery::new(
        post_type(),
        ResolvedShape::new(post_type(), vec![post_title_shape_field()]),
        None,
        vec![],
        Some(limit),
        Some(offset),
    )
}

#[test]
fn rendered_select_has_one_placeholder_per_bind_value() {
    let compare = gelite::query_ir::Expr::Compare(gelite::query_ir::CompareExpr::new(
        post_title_path_value(),
        gelite::query_ir::CompareOp::Eq,
        gelite::query_ir::ValueExpr::Literal(gelite::query_ir::Literal::String("?".to_string())),
    ));
    let queries = vec![
        post_query_with_shape(vec![post_title_shape_field(), post_author_shape_field()]),
        post_query_with_filter(compare),
        post_query_with_filter(gelite::query_ir::Expr::IsNull(post_title_path_value())),
    ];
    let expected_binds = [0, 1, 0];

    for (ir, binds) in queries.iter().zip(expected_binds) {
        let statement = render_select(&plan_select(ir));
        let marks = statement.sql().chars().filter(|c| *c == '?').count();
        assert_eq!(statement.bind_values().len(), binds);
        assert_eq!(marks, binds);
    }
}

#[test]
fn rendered_select_lists_every_clause_in_order_with_single_spaces() {
    let filter = gelite::query_ir::Expr::Compare(gelite::query_ir::CompareExpr::new(
        post_author_name_path_value(),
        gelite::query_ir::CompareOp::Eq,
        gelite::query_ir::ValueExpr::Literal(gelite::query_ir::Literal::String("Sheri".to_string())),
    ));
    let order_by = gelite::query_ir::OrderExpr::new(post_title_path_value(), gelite::query_ir::OrderDirection::Desc);
    let ir = SelectQuery::new(
        post_type(),
        ResolvedShape::new(post_type(), vec![post_title_shape_field()]),
        Some(filter),
        vec![order_by],
        Some(5),
        Some(2),
    );

    let statement = render_select(&plan_select(&ir));

    assert_eq!(
        statement.sql(),
        "SELECT root.title FROM post AS root INNER JOIN user AS author ON root.author_id = author.id WHERE author.name = ? ORDER BY root.title DESC LIMIT 5 OFFSET 2"
    );
    assert_eq!(
        statement.bind_values(),
        &[SQLiteBindValue::String("Sheri".to_string())]
    );
}
