use gelite::schema::{Field, ObjectType, ScalarField, ScalarType, SchemaCatalog, SingleCardinality};
use gelite::sqlite_schema::{SQLiteValuePlan, plan_initial_schema};
use gelite::sqlite_schema_sqlgen::{RenderedSchemaStatement, render_create_table, render_initial_schema};

#[test]
fn render_create_table_for_catalog_fields_uses_composite_primary_key() {
    let catalog = SchemaCatalog::try_new(vec![]).unwrap();
    let plan = plan_initial_schema(&catalog);
    let catalog_fields = &plan.metadata_tables()[2];

    let sql = render_create_table(catalog_fields);

    assert_eq!(
        sql,
        "CREATE TABLE _engine_catalog_fields (object_id INTEGER NOT NULL, field_id INTEGER NOT NULL, name TEXT NOT NULL, field_kind TEXT NOT NULL, cardinality TEXT NOT NULL, scalar_type TEXT NULL, target_object_id INTEGER NULL, is_implicit INTEGER NOT NULL, is_unique INTEGER NOT NULL, PRIMARY KEY (object_id, field_id), FOREIGN KEY (object_id) REFERENCES _engine_catalog_objects(object_id), FOREIGN KEY (target_object_id) REFERENCES _engine_catalog_objects(object_id))"
    );
}

fn post_catalog() -> SchemaCatalog {
    SchemaCatalog::try_new(vec![ObjectType::new(
        "Post",
        vec![Field::Scalar(ScalarField::new(
            "title",
            ScalarType::Str,
            SingleCardinality::Required,
        ))],
    )])
    .expect("test catalog should be valid")
}

#[test]
fn render_create_table_marks_primary_key_and_unique_columns() {
    let catalog = SchemaCatalog::try_new(vec![]).unwrap();
    let plan = plan_initial_schema(&catalog);

    let sql = render_create_table(&plan.metadata_tables()[1]);

    assert_eq!(
        sql,
        "CREATE TABLE _engine_catalog_objects (object_id INTEGER NOT NULL PRIMARY KEY UNIQUE, name TEXT NOT NULL UNIQUE)"
    );
}

#[test]
fn render_initial_schema_creates_tables_before_metadata_inserts() {
    let catalog = post_catalog();
    let plan = plan_initial_schema(&catalog);

    let statements = render_initial_schema(&plan);

    let sql: Vec<String> = statements
        .iter()
        .map(|statement| match statement {
            RenderedSchemaStatement::Sql(sql) => sql.clone(),
            RenderedSchemaStatement::Insert(insert) => insert.sql().to_string(),
        })
        .collect();

    assert!(sql[0].starts_with("CREATE TABLE _engine_schema_versions ("));
    assert!(sql[1].starts_with("CREATE TABLE _engine_catalog_objects ("));
    assert!(sql[2].starts_with("CREATE TABLE _engine_catalog_fields ("));
    assert!(sql[3].starts_with("CREATE TABLE post ("));
    assert_eq!(
        sql[4],
        "INSERT INTO _engine_catalog_objects (object_id, name) VALUES (?, ?)"
    );
    assert_eq!(
        sql[5],
        "INSERT INTO _engine_catalog_fields (object_id, field_id, name, field_kind, cardinality, scalar_type, target_object_id, is_implicit, is_unique) VALUES (?, ?, ?, ?, ?, ?, ?, ?, ?)"
    );
    assert_eq!(sql.len(), 7);

    match &statements[4] {
        RenderedSchemaStatement::Insert(insert) => assert_eq!(
            insert.values(),
            &[SQLiteValuePlan::Integer(1), SQLiteValuePlan::Text("Post".to_string())]
        ),
        RenderedSchemaStatement::Sql(_) => panic!("catalog object insert should carry bind values"),
    }
}
