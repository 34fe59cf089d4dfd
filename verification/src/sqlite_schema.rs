//! SQLite schema planning: maps a validated [`SchemaCatalog`] to SQLite
//! metadata tables, object tables, relation tables and catalog metadata rows.
//!
//! The plan is structured data, not SQL text. Object types become tables
//! named by their lower-cased type name with a `TEXT` primary key `id`;
//! scalar fields become columns; single links become `<field>_id` columns
//! with a foreign key to the target table; multi links become relation
//! tables `<source>__<field>`.
use vstd::prelude::*;
use crate::schema::{
    Cardinality, Field, ObjectType, ScalarType, SchemaCatalog, law_link_targets_resolve,
    law_type_ref_is_positional, type_ref_view,
};
use crate::query_resolver::cardinality_name;
use crate::text::{concat, lower, owned, to_ascii_lowercase};

verus! {

/// SQLite type affinity of a column.
#[derive(Debug, Clone, Copy, PartialEq, Eq, Structural)]
pub enum SQLiteAffinity {
    Text,
    Integer,
    Real,
}

/// Kind of field recorded in the catalog metadata.
#[derive(Debug, Clone, Copy, PartialEq, Eq, Structural)]
pub enum SQLiteCatalogFieldKind {
    Scalar,
    Link,
}

/// A planned column.
pub struct SQLiteColumnPlan {
    pub(crate) name: String,
    pub(crate) affinity: SQLiteAffinity,
    pub(crate) nullable: bool,
    pub(crate) primary_key: bool,
    pub(crate) unique: bool,
}

/// A planned table-level foreign key.
pub struct SQLiteForeignKeyPlan {
    pub(crate) column_name: String,
    pub(crate) target_table: String,
    pub(crate) target_column: String,
}

/// A planned table-level primary key.
pub struct SQLitePrimaryKeyPlan {
    pub(crate) column_names: Vec<String>,
}

/// A planned table.
pub struct SQLiteTablePlan {
    pub(crate) name: String,
    pub(crate) columns: Vec<SQLiteColumnPlan>,
    pub(crate) foreign_keys: Vec<SQLiteForeignKeyPlan>,
    pub(crate) primary_key: Option<SQLitePrimaryKeyPlan>,
}

/// A row of the catalog objects metadata table.
pub struct SQLiteCatalogObjectRow {
    pub(crate) object_id: i64,
    pub(crate) name: String,
}

/// A row of the catalog fields metadata table.
pub struct SQLiteCatalogFieldRow {
    pub(crate) object_id: i64,
    pub(crate) field_id: i64,
    pub(crate) name: String,
    pub(crate) field_kind: SQLiteCatalogFieldKind,
    pub(crate) cardinality: Cardinality,
    pub(crate) scalar_type: Option<ScalarType>,
    pub(crate) target_object_id: Option<i64>,
    pub(crate) is_implicit: bool,
    pub(crate) is_unique: bool,
}

/// The plan for applying a catalog to an empty SQLite database.
pub struct SQLiteSchemaPlan {
    pub(crate) metadata_tables: Vec<SQLiteTablePlan>,
    pub(crate) object_tables: Vec<SQLiteTablePlan>,
    pub(crate) relation_tables: Vec<SQLiteTablePlan>,
    pub(crate) catalog_object_rows: Vec<SQLiteCatalogObjectRow>,
    pub(crate) catalog_field_rows: Vec<SQLiteCatalogFieldRow>,
}

/// A bindable value of a metadata insert.
#[derive(Debug, Clone, PartialEq, Eq)]
pub enum SQLiteValuePlan {
    Integer(i64),
    Text(String),
    Null,
}

/// An insert into a metadata table, before SQL rendering.
pub struct SQLiteInsertPlan {
    pub(crate) table_name: String,
    pub(crate) columns: Vec<String>,
    pub(crate) values: Vec<SQLiteValuePlan>,
}

// ---------------------------------------------------------------------------
// Views
// ---------------------------------------------------------------------------
pub ghost struct ColumnView {
    pub name: Seq<char>,
    pub affinity: SQLiteAffinity,
    pub nullable: bool,
    pub primary_key: bool,
    pub unique: bool,
}

pub ghost struct ForeignKeyView {
    pub column_name: Seq<char>,
    pub target_table: Seq<char>,
    pub target_column: Seq<char>,
}

pub ghost struct TableView {
    pub name: Seq<char>,
    pub columns: Seq<ColumnView>,
    pub foreign_keys: Seq<ForeignKeyView>,
    pub primary_key: Option<Seq<Seq<char>>>,
}

pub ghost struct ObjectRowView {
    pub object_id: i64,
    pub name: Seq<char>,
}

pub ghost struct FieldRowView {
    pub object_id: i64,
    pub field_id: i64,
    pub name: Seq<char>,
    pub field_kind: SQLiteCatalogFieldKind,
    pub cardinality: Cardinality,
    pub scalar_type: Option<ScalarType>,
    pub target_object_id: Option<i64>,
    pub is_implicit: bool,
    pub is_unique: bool,
}

pub ghost enum ValueView {
    Integer(i64),
    Text(Seq<char>),
    Null,
}

pub ghost struct InsertView {
    pub table_name: Seq<char>,
    pub columns: Seq<Seq<char>>,
    pub values: Seq<ValueView>,
}

pub ghost struct PlanView {
    pub metadata_tables: Seq<TableView>,
    pub object_tables: Seq<TableView>,
    pub relation_tables: Seq<TableView>,
    pub catalog_object_rows: Seq<ObjectRowView>,
    pub catalog_field_rows: Seq<FieldRowView>,
}

pub open spec fn strings_view(s: Seq<String>) -> Seq<Seq<char>> {
    s.map_values(|x: String| x@)
}

impl View for SQLiteColumnPlan {
    type V = ColumnView;

    open(crate) spec fn view(&self) -> ColumnView {
        ColumnView {
            name: self.name@,
            affinity: self.affinity,
            nullable: self.nullable,
            primary_key: self.primary_key,
            unique: self.unique,
        }
    }
}

impl View for SQLiteForeignKeyPlan {
    type V = ForeignKeyView;

    open(crate) spec fn view(&self) -> ForeignKeyView {
        ForeignKeyView {
            column_name: self.column_name@,
            target_table: self.target_table@,
            target_column: self.target_column@,
        }
    }
}

impl View for SQLitePrimaryKeyPlan {
    type V = Seq<Seq<char>>;

    open(crate) spec fn view(&self) -> Seq<Seq<char>> {
        strings_view(self.column_names@)
    }
}

pub open spec fn columns_view(s: Seq<SQLiteColumnPlan>) -> Seq<ColumnView> {
    s.map_values(|x: SQLiteColumnPlan| x@)
}

pub open spec fn foreign_keys_view(s: Seq<SQLiteForeignKeyPlan>) -> Seq<ForeignKeyView> {
    s.map_values(|x: SQLiteForeignKeyPlan| x@)
}

pub open spec fn primary_key_view(p: Option<SQLitePrimaryKeyPlan>) -> Option<Seq<Seq<char>>> {
    match p {
        Some(k) => Some(k@),
        None => None,
    }
}

impl View for SQLiteTablePlan {
    type V = TableView;

    open(crate) spec fn view(&self) -> TableView {
        TableView {
            name: self.name@,
            columns: columns_view(self.columns@),
            foreign_keys: foreign_keys_view(self.foreign_keys@),
            primary_key: primary_key_view(self.primary_key),
        }
    }
}

pub open spec fn tables_view(s: Seq<SQLiteTablePlan>) -> Seq<TableView> {
    s.map_values(|x: SQLiteTablePlan| x@)
}

impl View for SQLiteCatalogObjectRow {
    type V = ObjectRowView;

    open(crate) spec fn view(&self) -> ObjectRowView {
        ObjectRowView { object_id: self.object_id, name: self.name@ }
    }
}

impl View for SQLiteCatalogFieldRow {
    type V = FieldRowView;

    open(crate) spec fn view(&self) -> FieldRowView {
        FieldRowView {
            object_id: self.object_id,
            field_id: self.field_id,
            name: self.name@,
            field_kind: self.field_kind,
            cardinality: self.cardinality,
            scalar_type: self.scalar_type,
            target_object_id: self.target_object_id,
            is_implicit: self.is_implicit,
            is_unique: self.is_unique,
        }
    }
}

pub open spec fn object_rows_view(s: Seq<SQLiteCatalogObjectRow>) -> Seq<ObjectRowView> {
    s.map_values(|x: SQLiteCatalogObjectRow| x@)
}

pub open spec fn field_rows_view(s: Seq<SQLiteCatalogFieldRow>) -> Seq<FieldRowView> {
    s.map_values(|x: SQLiteCatalogFieldRow| x@)
}

impl View for SQLiteValuePlan {
    type V = ValueView;

    open spec fn view(&self) -> ValueView {
        match self {
            SQLiteValuePlan::Integer(v) => ValueView::Integer(*v),
            SQLiteValuePlan::Text(s) => ValueView::Text(s@),
            SQLiteValuePlan::Null => ValueView::Null,
        }
    }
}

pub open spec fn values_view(s: Seq<SQLiteValuePlan>) -> Seq<ValueView> {
    s.map_values(|x: SQLiteValuePlan| x@)
}

impl View for SQLiteInsertPlan {
    type V = InsertView;

    open(crate) spec fn view(&self) -> InsertView {
        InsertView {
            table_name: self.table_name@,
            columns: strings_view(self.columns@),
            values: values_view(self.values@),
        }
    }
}

pub open spec fn inserts_view(s: Seq<SQLiteInsertPlan>) -> Seq<InsertView> {
    s.map_values(|x: SQLiteInsertPlan| x@)
}

impl View for SQLiteSchemaPlan {
    type V = PlanView;

    open(crate) spec fn view(&self) -> PlanView {
        PlanView {
            metadata_tables: tables_view(self.metadata_tables@),
            object_tables: tables_view(self.object_tables@),
            relation_tables: tables_view(self.relation_tables@),
            catalog_object_rows: object_rows_view(self.catalog_object_rows@),
            catalog_field_rows: field_rows_view(self.catalog_field_rows@),
        }
    }
}

// ---------------------------------------------------------------------------
// The planned schema, as mathematics
// ---------------------------------------------------------------------------
pub open spec fn column(
    name: Seq<char>,
    affinity: SQLiteAffinity,
    nullable: bool,
    primary_key: bool,
    unique: bool,
) -> ColumnView {
    ColumnView { name, affinity, nullable, primary_key, unique }
}

pub open spec fn foreign_key(
    column_name: Seq<char>,
    target_table: Seq<char>,
    target_column: Seq<char>,
) -> ForeignKeyView {
    ForeignKeyView { column_name, target_table, target_column }
}

/// `_engine_schema_versions(version_id, checksum, applied_at, schema_snapshot)`.
pub open spec fn schema_versions_table() -> TableView {
    TableView {
        name: "_engine_schema_versions"@,
        columns: seq![
            column("version_id"@, SQLiteAffinity::Text, false, true, true),
            column("checksum"@, SQLiteAffinity::Text, false, false, false),
            column("applied_at"@, SQLiteAffinity::Text, false, false, false),
            column("schema_snapshot"@, SQLiteAffinity::Text, false, false, false),
        ],
        foreign_keys: seq![],
        primary_key: None,
    }
}

/// `_engine_catalog_objects(object_id, name)`.
pub open spec fn catalog_objects_table() -> TableView {
    TableView {
        name: "_engine_catalog_objects"@,
        columns: seq![
            column("object_id"@, SQLiteAffinity::Integer, false, true, true),
            column("name"@, SQLiteAffinity::Text, false, false, true),
        ],
        foreign_keys: seq![],
        primary_key: None,
    }
}

/// `_engine_catalog_fields(...)` keyed by `(object_id, field_id)`.
pub open spec fn catalog_fields_table() -> TableView {
    TableView {
        name: "_engine_catalog_fields"@,
        columns: seq![
            column("object_id"@, SQLiteAffinity::Integer, false, false, false),
            column("field_id"@, SQLiteAffinity::Integer, false, false, false),
            column("name"@, SQLiteAffinity::Text, false, false, false),
            column("field_kind"@, SQLiteAffinity::Text, false, false, false),
            column("cardinality"@, SQLiteAffinity::Text, false, false, false),
            column("scalar_type"@, SQLiteAffinity::Text, true, false, false),
            column("target_object_id"@, SQLiteAffinity::Integer, true, false, false),
            column("is_implicit"@, SQLiteAffinity::Integer, false, false, false),
            column("is_unique"@, SQLiteAffinity::Integer, false, false, false),
        ],
        foreign_keys: seq![
            foreign_key("object_id"@, "_engine_catalog_objects"@, "object_id"@),
            foreign_key("target_object_id"@, "_engine_catalog_objects"@, "object_id"@),
        ],
        primary_key: Some(seq!["object_id"@, "field_id"@]),
    }
}

pub open spec fn metadata_tables() -> Seq<TableView> {
    seq![schema_versions_table(), catalog_objects_table(), catalog_fields_table()]
}

/// Affinity of a scalar type in SQLite storage.
pub open spec fn affinity_of(scalar_type: ScalarType) -> SQLiteAffinity {
    match scalar_type {
        ScalarType::Str => SQLiteAffinity::Text,
        ScalarType::Int64 => SQLiteAffinity::Integer,
        ScalarType::Float64 => SQLiteAffinity::Real,
        ScalarType::Bool => SQLiteAffinity::Integer,
        ScalarType::Uuid => SQLiteAffinity::Text,
        ScalarType::DateTime => SQLiteAffinity::Text,
    }
}

/// The column stored on the object table for one declared field, if any.
pub open spec fn field_column(f: Field) -> Seq<ColumnView> {
    match f {
        Field::Scalar(s) => seq![
            column(
                s.spec_name(),
                affinity_of(s.spec_scalar_type()),
                f.spec_cardinality() != Cardinality::Required,
                false,
                s.spec_uniqueness() == crate::schema::Uniqueness::Unique,
            ),
        ],
        Field::Link(l) => if l.spec_cardinality() == Cardinality::Many {
            seq![]
        } else {
            seq![
                column(
                    l.spec_name() + "_id"@,
                    SQLiteAffinity::Text,
                    f.spec_cardinality() != Cardinality::Required,
                    false,
                    l.spec_uniqueness() == crate::schema::Uniqueness::Unique,
                ),
            ]
        },
    }
}

/// The foreign key of a single link column, if any.
pub open spec fn field_foreign_key(f: Field) -> Seq<ForeignKeyView> {
    match f {
        Field::Scalar(_) => seq![],
        Field::Link(l) => if l.spec_cardinality() == Cardinality::Many {
            seq![]
        } else {
            seq![foreign_key(l.spec_name() + "_id"@, lower(l.spec_target()), "id"@)]
        },
    }
}

pub open spec fn field_columns(fields: Seq<Field>) -> Seq<ColumnView>
    decreases fields.len(),
{
    if fields.len() == 0 {
        seq![]
    } else {
        field_columns(fields.drop_last()) + field_column(fields.last())
    }
}

pub open spec fn field_foreign_keys(fields: Seq<Field>) -> Seq<ForeignKeyView>
    decreases fields.len(),
{
    if fields.len() == 0 {
        seq![]
    } else {
        field_foreign_keys(fields.drop_last()) + field_foreign_key(fields.last())
    }
}

/// The table of one object type.
pub open spec fn object_table(t: ObjectType) -> TableView {
    TableView {
        name: lower(t.spec_name()),
        columns: seq![column("id"@, SQLiteAffinity::Text, false, true, true)] + field_columns(
            t.spec_declared(),
        ),
        foreign_keys: field_foreign_keys(t.spec_declared()),
        primary_key: None,
    }
}

pub open spec fn object_tables(types: Seq<ObjectType>) -> Seq<TableView> {
    types.map_values(|t: ObjectType| object_table(t))
}

/// The relation table of one declared field of `source`, if it is a multi link.
pub open spec fn relation_table(source: ObjectType, f: Field) -> Seq<TableView> {
    match f {
        Field::Link(l) => if l.spec_cardinality() == Cardinality::Many {
            seq![
                TableView {
                    name: lower(source.spec_name()) + "__"@ + l.spec_name(),
                    columns: seq![
                        column("source_id"@, SQLiteAffinity::Text, false, false, false),
                        column("target_id"@, SQLiteAffinity::Text, false, false, false),
                        column("position"@, SQLiteAffinity::Integer, true, false, false),
                    ],
                    foreign_keys: seq![
                        foreign_key("source_id"@, lower(source.spec_name()), "id"@),
                        foreign_key("target_id"@, lower(l.spec_target()), "id"@),
                    ],
                    primary_key: Some(seq!["source_id"@, "target_id"@]),
                },
            ]
        } else {
            seq![]
        },
        Field::Scalar(_) => seq![],
    }
}

pub open spec fn relation_tables_of(source: ObjectType, fields: Seq<Field>) -> Seq<TableView>
    decreases fields.len(),
{
    if fields.len() == 0 {
        seq![]
    } else {
        relation_tables_of(source, fields.drop_last()) + relation_table(source, fields.last())
    }
}

/// Relation tables of all multi links, by type then field order.
pub open spec fn relation_tables(types: Seq<ObjectType>) -> Seq<TableView>
    decreases types.len(),
{
    if types.len() == 0 {
        seq![]
    } else {
        relation_tables(types.drop_last()) + relation_tables_of(
            types.last(),
            types.last().spec_declared(),
        )
    }
}

/// One metadata row per object type, with `object_id = position + 1`.
pub open spec fn object_rows(types: Seq<ObjectType>) -> Seq<ObjectRowView> {
    Seq::new(
        types.len(),
        |i: int| ObjectRowView { object_id: (i + 1) as i64, name: types[i].spec_name() },
    )
}

/// The metadata row of the declared field at position `j` of type `i`.
pub open spec fn declared_field_row(c: SchemaCatalog, i: int, j: int) -> FieldRowView {
    let f = c.spec_types()[i].spec_declared()[j];
    match f {
        Field::Scalar(s) => FieldRowView {
            object_id: (i + 1) as i64,
            field_id: (j + 2) as i64,
            name: f.name_view(),
            field_kind: SQLiteCatalogFieldKind::Scalar,
            cardinality: f.spec_cardinality(),
            scalar_type: Some(s.spec_scalar_type()),
            target_object_id: None,
            is_implicit: false,
            is_unique: s.spec_uniqueness() == crate::schema::Uniqueness::Unique,
        },
        Field::Link(l) => FieldRowView {
            object_id: (i + 1) as i64,
            field_id: (j + 2) as i64,
            name: f.name_view(),
            field_kind: SQLiteCatalogFieldKind::Link,
            cardinality: f.spec_cardinality(),
            scalar_type: None,
            target_object_id: Some(c.spec_type_ref(l.spec_target()).unwrap().id as i64),
            is_implicit: false,
            is_unique: l.spec_uniqueness() == crate::schema::Uniqueness::Unique,
        },
    }
}

/// The metadata row of the implicit `id` field of type `i`.
pub open spec fn id_field_row(i: int) -> FieldRowView {
    FieldRowView {
        object_id: (i + 1) as i64,
        field_id: 1,
        name: "id"@,
        field_kind: SQLiteCatalogFieldKind::Scalar,
        cardinality: Cardinality::Required,
        scalar_type: Some(ScalarType::Uuid),
        target_object_id: None,
        is_implicit: true,
        is_unique: false,
    }
}

/// Rows of the declared fields `0..n` of type `i`.
pub open spec fn declared_field_rows(c: SchemaCatalog, i: int, n: int) -> Seq<FieldRowView>
    decreases n,
{
    if n <= 0 {
        seq![]
    } else {
        declared_field_rows(c, i, n - 1).push(declared_field_row(c, i, n - 1))
    }
}

/// Rows of all fields of the types `0..n`: the `id` row, then the declared
/// fields, type by type.
pub open spec fn field_rows(c: SchemaCatalog, n: int) -> Seq<FieldRowView>
    decreases n,
{
    if n <= 0 {
        seq![]
    } else {
        field_rows(c, n - 1) + seq![id_field_row(n - 1)] + declared_field_rows(
            c,
            n - 1,
            c.spec_types()[n - 1].spec_declared().len() as int,
        )
    }
}

/// The complete plan for a catalog.
pub open spec fn initial_schema(c: SchemaCatalog) -> PlanView {
    PlanView {
        metadata_tables: metadata_tables(),
        object_tables: object_tables(c.spec_types()),
        relation_tables: relation_tables(c.spec_types()),
        catalog_object_rows: object_rows(c.spec_types()),
        catalog_field_rows: field_rows(c, c.spec_types().len() as int),
    }
}

/// Number of field rows of the types `0..n`: the `id` row and one row per
/// declared field, type by type.
pub open spec fn field_row_count(c: SchemaCatalog, n: int) -> int
    decreases n,
{
    if n <= 0 {
        0
    } else {
        field_row_count(c, n - 1) + 1 + c.spec_types()[n - 1].spec_declared().len()
    }
}

/// The kind of a field row agrees with what it carries, and only the
/// implicit `id` row has field id 1 and the name `id`.
pub open spec fn field_row_consistent(r: FieldRowView) -> bool {
    &&& (r.field_kind == SQLiteCatalogFieldKind::Link) == (r.target_object_id is Some)
    &&& (r.target_object_id is Some) == (r.scalar_type is None)
    &&& r.is_implicit == (r.field_id == 1)
    &&& (r.field_id == 1) == (r.name == "id"@)
}

proof fn lemma_declared_rows(c: SchemaCatalog, i: int, n: int)
    requires
        c.well_formed(),
        0 <= i < c.spec_types().len(),
        0 <= n <= c.spec_types()[i].spec_declared().len(),
        c.spec_types()[i].spec_declared().len() < i64::MAX - 2,
    ensures
        declared_field_rows(c, i, n).len() == n,
        forall|k: int| 0 <= k < n ==> field_row_consistent(#[trigger] declared_field_rows(c, i, n)[k]),
    decreases n,
{
    reveal_strlit("id");
    if n > 0 {
        lemma_declared_rows(c, i, n - 1);
        let t = c.spec_types()[i];
        assert(crate::schema::no_declared_id_in(t));
        assert(!crate::schema::declares_id_at(t, n - 1));
        let row = declared_field_row(c, i, n - 1);
        assert(row.name != "id"@);
        assert(field_row_consistent(row));
        let rows = declared_field_rows(c, i, n);
        assert forall|k: int| 0 <= k < n implies field_row_consistent(#[trigger] rows[k]) by {
            if k < n - 1 {
                assert(rows[k] == declared_field_rows(c, i, n - 1)[k]);
            }
        }
    }
}

proof fn lemma_field_rows(c: SchemaCatalog, n: int)
    requires
        c.well_formed(),
        0 <= n <= c.spec_types().len(),
        forall|i: int| 0 <= i < c.spec_types().len() ==> (#[trigger] c.spec_types()[i]).spec_declared().len() < i64::MAX - 2,
    ensures
        field_rows(c, n).len() == field_row_count(c, n),
        forall|k: int| 0 <= k < field_rows(c, n).len() ==> field_row_consistent(#[trigger] field_rows(c, n)[k]),
    decreases n,
{
    reveal_strlit("id");
    if n > 0 {
        lemma_field_rows(c, n - 1);
        let len = c.spec_types()[n - 1].spec_declared().len() as int;
        lemma_declared_rows(c, n - 1, len);
        let prev = field_rows(c, n - 1);
        let decl = declared_field_rows(c, n - 1, len);
        let rows = field_rows(c, n);
        assert(field_row_consistent(id_field_row(n - 1)));
        assert forall|k: int| 0 <= k < rows.len() implies field_row_consistent(#[trigger] rows[k]) by {
            if k < prev.len() {
                assert(rows[k] == prev[k]);
            } else if k == prev.len() {
                assert(rows[k] == id_field_row(n - 1));
            } else {
                assert(rows[k] == decl[k - prev.len() - 1]);
            }
        }
    }
}

/// The catalog field rows: one `id` row plus one row per declared field for
/// every object type; a row is a link row exactly when it has a target and
/// exactly when it has no scalar type; and a row is implicit exactly when its
/// field id is 1, exactly when it is named `id`.
pub proof fn law_catalog_field_rows(c: SchemaCatalog)
    requires
        c.well_formed(),
        forall|i: int| 0 <= i < c.spec_types().len() ==> (#[trigger] c.spec_types()[i]).spec_declared().len() < i64::MAX - 2,
    ensures
        initial_schema(c).catalog_field_rows.len() == field_row_count(c, c.spec_types().len() as int),
        forall|k: int|
            0 <= k < initial_schema(c).catalog_field_rows.len() ==> field_row_consistent(
                #[trigger] initial_schema(c).catalog_field_rows[k],
            ),
{
    lemma_field_rows(c, c.spec_types().len() as int);
}

/// The catalog metadata names every object type once, in declaration order,
/// under the id of the catalog's own reference to that type.
pub proof fn law_object_rows_match_type_refs(c: SchemaCatalog, k: int)
    requires
        c.well_formed(),
        0 <= k < c.spec_types().len(),
        c.spec_types().len() <= i64::MAX,
    ensures
        initial_schema(c).catalog_object_rows.len() == c.spec_types().len(),
        initial_schema(c).catalog_object_rows[k].name == c.spec_types()[k].spec_name(),
        initial_schema(c).catalog_object_rows[k].object_id as int == c.spec_type_ref(
            c.spec_types()[k].spec_name(),
        ).unwrap().id as int,
{
    crate::schema::law_type_ref_is_positional(c, k);
}

// ---------------------------------------------------------------------------
// Object and relation tables, field by field
// ---------------------------------------------------------------------------
/// A declared field kept as a column of its type's table: a scalar, or a
/// link that is not `multi`.
pub open spec fn stored_on_table(f: Field) -> bool {
    match f {
        Field::Scalar(_) => true,
        Field::Link(l) => l.spec_cardinality() != Cardinality::Many,
    }
}

/// A link that is not `multi`.
pub open spec fn is_single_link(f: Field) -> bool {
    f is Link && stored_on_table(f)
}

/// A `multi` link.
pub open spec fn is_multi_link(f: Field) -> bool {
    !stored_on_table(f)
}

pub open spec fn field_name(f: Field) -> Seq<char> {
    match f {
        Field::Scalar(s) => s.spec_name(),
        Field::Link(l) => l.spec_name(),
    }
}

pub open spec fn link_target(f: Field) -> Seq<char> {
    match f {
        Field::Scalar(_) => seq![],
        Field::Link(l) => l.spec_target(),
    }
}

pub open spec fn field_is_unique(f: Field) -> bool {
    match f {
        Field::Scalar(s) => s.spec_uniqueness() == crate::schema::Uniqueness::Unique,
        Field::Link(l) => l.spec_uniqueness() == crate::schema::Uniqueness::Unique,
    }
}

/// The declared fields kept as columns, in declaration order.
pub open spec fn stored_fields(fields: Seq<Field>) -> Seq<Field> {
    fields.filter(|f: Field| stored_on_table(f))
}

/// The single links among `fields`, in declaration order.
pub open spec fn single_links(fields: Seq<Field>) -> Seq<Field> {
    fields.filter(|f: Field| is_single_link(f))
}

/// The `multi` links among `fields`, in declaration order.
pub open spec fn multi_links(fields: Seq<Field>) -> Seq<Field> {
    fields.filter(|f: Field| is_multi_link(f))
}

/// `col` is the column of the stored field `f`: named by the field, with
/// `_id` for a link; text for a link and the scalar's affinity otherwise;
/// nullable exactly when the field is optional; not a primary key; unique
/// exactly when the field is unique.
pub open spec fn column_of_field(col: ColumnView, f: Field) -> bool {
    &&& col.name == (if f is Link {
        field_name(f) + "_id"@
    } else {
        field_name(f)
    })
    &&& col.affinity == (match f {
        Field::Scalar(s) => affinity_of(s.spec_scalar_type()),
        Field::Link(_) => SQLiteAffinity::Text,
    })
    &&& col.nullable == (f.spec_cardinality() == Cardinality::Optional)
    &&& !col.primary_key
    &&& col.unique == field_is_unique(f)
}

/// The foreign key of a single link: `<field>_id` to the target table's `id`.
pub open spec fn link_foreign_key(f: Field) -> ForeignKeyView {
    foreign_key(field_name(f) + "_id"@, lower(link_target(f)), "id"@)
}

/// Name and foreign keys of the relation table of the `multi` link `f` of
/// `t`: `<type>__<field>`, keyed from `source_id` to the type's `id` and from
/// `target_id` to the target's `id`.
pub open spec fn link_table_summary(t: ObjectType, f: Field) -> (Seq<char>, Seq<ForeignKeyView>) {
    (
        lower(t.spec_name()) + "__"@ + field_name(f),
        seq![
            foreign_key("source_id"@, lower(t.spec_name()), "id"@),
            foreign_key("target_id"@, lower(link_target(f)), "id"@),
        ],
    )
}

pub open spec fn link_table_summaries(t: ObjectType, fields: Seq<Field>) -> Seq<
    (Seq<char>, Seq<ForeignKeyView>),
> {
    multi_links(fields).map_values(|f: Field| link_table_summary(t, f))
}

/// Name and foreign keys of each table, in order.
pub open spec fn table_summaries(tables: Seq<TableView>) -> Seq<(Seq<char>, Seq<ForeignKeyView>)> {
    tables.map_values(|r: TableView| (r.name, r.foreign_keys))
}

proof fn lemma_field_columns(fields: Seq<Field>)
    ensures
        field_columns(fields).len() == stored_fields(fields).len(),
        forall|k: int|
            0 <= k < stored_fields(fields).len() ==> column_of_field(
                #[trigger] field_columns(fields)[k],
                stored_fields(fields)[k],
            ),
        field_foreign_keys(fields) == single_links(fields).map_values(|f: Field| link_foreign_key(f)),
    decreases fields.len(),
{
    reveal_with_fuel(Seq::filter, 1);
    if fields.len() > 0 {
        let init = fields.drop_last();
        let f = fields.last();
        lemma_field_columns(init);
        let cols = field_columns(fields);
        let st = stored_fields(fields);
        assert(field_columns(init) + field_column(f) == cols);
        assert forall|k: int| 0 <= k < st.len() implies column_of_field(#[trigger] cols[k], st[k]) by {
            if k < stored_fields(init).len() {
                assert(cols[k] == field_columns(init)[k]);
                assert(st[k] == stored_fields(init)[k]);
            } else {
                assert(st[k] == f);
                assert(cols[k] == field_column(f)[0]);
            }
        }
        let fk = |g: Field| link_foreign_key(g);
        if is_single_link(f) {
            assert(single_links(fields) == single_links(init).push(f));
            assert(single_links(fields).map_values(fk) =~= single_links(init).map_values(fk).push(
                link_foreign_key(f),
            ));
        } else {
            assert(single_links(fields) == single_links(init));
        }
        assert(field_foreign_keys(fields) =~= single_links(fields).map_values(fk));
    }
}

proof fn lemma_relation_tables_of(t: ObjectType, fields: Seq<Field>)
    ensures
        table_summaries(relation_tables_of(t, fields)) == link_table_summaries(t, fields),
    decreases fields.len(),
{
    reveal_with_fuel(Seq::filter, 1);
    if fields.len() > 0 {
        let init = fields.drop_last();
        let f = fields.last();
        lemma_relation_tables_of(t, init);
        let g = |x: Field| link_table_summary(t, x);
        if is_multi_link(f) {
            assert(multi_links(fields) == multi_links(init).push(f));
            assert(multi_links(fields).map_values(g) =~= multi_links(init).map_values(g).push(
                link_table_summary(t, f),
            ));
        } else {
            assert(multi_links(fields) == multi_links(init));
        }
        assert(table_summaries(relation_tables_of(t, fields)) =~= table_summaries(
            relation_tables_of(t, init),
        ) + table_summaries(relation_table(t, f)));
        assert(table_summaries(relation_tables_of(t, fields)) =~= link_table_summaries(t, fields));
    }
}

proof fn lemma_relation_tables(types: Seq<ObjectType>)
    ensures
        table_summaries(relation_tables(types)) == types.map_values(
            |t: ObjectType| link_table_summaries(t, t.spec_declared()),
        ).flatten(),
    decreases types.len(),
{
    if types.len() > 0 {
        let init = types.drop_last();
        let t = types.last();
        let h = |u: ObjectType| link_table_summaries(u, u.spec_declared());
        lemma_relation_tables(init);
        lemma_relation_tables_of(t, t.spec_declared());
        assert(types.map_values(h) =~= init.map_values(h).push(h(t)));
        init.map_values(h).lemma_flatten_push(h(t));
        assert(table_summaries(relation_tables(types)) =~= table_summaries(relation_tables(init))
            + table_summaries(relation_tables_of(t, t.spec_declared())));
    }
}

/// The table of each object type: named by the lower-cased type name; an
/// `id` text primary key first, then one column per declared field that is
/// not a `multi` link, in declaration order, as `column_of_field` says;
/// and one foreign key per single link, in declaration order, from
/// `<field>_id` to the target table's `id`.
pub proof fn law_object_tables(c: SchemaCatalog, i: int)
    requires
        0 <= i < c.spec_types().len(),
    ensures
        initial_schema(c).object_tables.len() == c.spec_types().len(),
        initial_schema(c).object_tables[i].name == lower(c.spec_types()[i].spec_name()),
        initial_schema(c).object_tables[i].columns[0] == column(
            "id"@,
            SQLiteAffinity::Text,
            false,
            true,
            true,
        ),
        initial_schema(c).object_tables[i].columns.len() == 1 + stored_fields(
            c.spec_types()[i].spec_declared(),
        ).len(),
        forall|k: int|
            0 <= k < stored_fields(c.spec_types()[i].spec_declared()).len() ==> column_of_field(
                initial_schema(c).object_tables[i].columns.skip(1)[k],
                #[trigger] stored_fields(c.spec_types()[i].spec_declared())[k],
            ),
        initial_schema(c).object_tables[i].foreign_keys == single_links(
            c.spec_types()[i].spec_declared(),
        ).map_values(|f: Field| link_foreign_key(f)),
{
    let t = c.spec_types()[i];
    lemma_field_columns(t.spec_declared());
    let table = initial_schema(c).object_tables[i];
    assert(table == object_table(t));
    assert(table.columns.skip(1) =~= field_columns(t.spec_declared()));
}

/// The relation tables: one per `multi` link, type by type and field by
/// field in declaration order, each named `<lower-cased type>__<field>`
/// with foreign keys from `source_id` to the type's table and from
/// `target_id` to the target's table.
pub proof fn law_relation_tables(c: SchemaCatalog)
    ensures
        table_summaries(initial_schema(c).relation_tables) == c.spec_types().map_values(
            |t: ObjectType| link_table_summaries(t, t.spec_declared()),
        ).flatten(),
{
    lemma_relation_tables(c.spec_types());
}

// ---------------------------------------------------------------------------
// Proof helpers
// ---------------------------------------------------------------------------
proof fn lemma_take_next<A>(s: Seq<A>, j: int)
    requires
        0 <= j < s.len(),
    ensures
        s.take(j + 1).drop_last() == s.take(j),
        s.take(j + 1).last() == s[j],
        s.take(j + 1).len() == j + 1,
{
    assert(s.take(j + 1).drop_last() =~= s.take(j));
}

// ---------------------------------------------------------------------------
// Plan values
// ---------------------------------------------------------------------------
impl SQLiteColumnPlan {
    /// A planned column with its constraints.
    pub fn new(
        name: &str,
        affinity: SQLiteAffinity,
        nullable: bool,
        primary_key: bool,
        unique: bool,
    ) -> (r: Self)
        ensures
            r@ == column(name@, affinity, nullable, primary_key, unique),
    {
        SQLiteColumnPlan { name: owned(name), affinity, nullable, primary_key, unique }
    }

    pub fn affinity(&self) -> (r: SQLiteAffinity)
        ensures
            r == self@.affinity,
    {
        self.affinity
    }

    pub fn is_nullable(&self) -> (r: bool)
        ensures
            r == self@.nullable,
    {
        self.nullable
    }

    pub fn is_primary_key(&self) -> (r: bool)
        ensures
            r == self@.primary_key,
    {
        self.primary_key
    }

    pub fn is_unique(&self) -> (r: bool)
        ensures
            r == self@.unique,
    {
        self.unique
    }

    pub fn name(&self) -> (r: &str)
        ensures
            r@ == self@.name,
    {
        self.name.as_str()
    }
}

impl SQLiteForeignKeyPlan {
    pub fn new(column_name: &str, target_table: &str, target_column: &str) -> (r: Self)
        ensures
            r@ == foreign_key(column_name@, target_table@, target_column@),
    {
        SQLiteForeignKeyPlan {
            column_name: owned(column_name),
            target_table: owned(target_table),
            target_column: owned(target_column),
        }
    }

    pub fn column_name(&self) -> (r: &str)
        ensures
            r@ == self@.column_name,
    {
        self.column_name.as_str()
    }

    pub fn target_table(&self) -> (r: &str)
        ensures
            r@ == self@.target_table,
    {
        self.target_table.as_str()
    }

    pub fn target_column(&self) -> (r: &str)
        ensures
            r@ == self@.target_column,
    {
        self.target_column.as_str()
    }
}

impl SQLitePrimaryKeyPlan {
    pub fn new(column_names: Vec<String>) -> (r: Self)
        ensures
            r@ == strings_view(column_names@),
    {
        SQLitePrimaryKeyPlan { column_names }
    }

    pub fn column_names(&self) -> (r: &[String])
        ensures
            strings_view(r@) == self@,
    {
        self.column_names.as_slice()
    }
}

impl SQLiteTablePlan {
    /// A table without table-level constraints.
    pub fn new(name: &str, columns: Vec<SQLiteColumnPlan>) -> (r: Self)
        ensures
            r@ == (TableView {
                name: name@,
                columns: columns_view(columns@),
                foreign_keys: seq![],
                primary_key: None,
            }),
    {
        let r = Self::new_with_foreign_keys(name, columns, Vec::new());
        assert(foreign_keys_view(Seq::<SQLiteForeignKeyPlan>::empty()) =~= seq![]);
        r
    }

    /// A table with foreign keys and no table-level primary key.
    pub fn new_with_foreign_keys(
        name: &str,
        columns: Vec<SQLiteColumnPlan>,
        foreign_keys: Vec<SQLiteForeignKeyPlan>,
    ) -> (r: Self)
        ensures
            r@ == (TableView {
                name: name@,
                columns: columns_view(columns@),
                foreign_keys: foreign_keys_view(foreign_keys@),
                primary_key: None,
            }),
    {
        Self::new_with_constraints(name, columns, None, foreign_keys)
    }

    /// A table with an optional table-level primary key and foreign keys.
    pub fn new_with_constraints(
        name: &str,
        columns: Vec<SQLiteColumnPlan>,
        primary_key: Option<SQLitePrimaryKeyPlan>,
        foreign_keys: Vec<SQLiteForeignKeyPlan>,
    ) -> (r: Self)
        ensures
            r@ == (TableView {
                name: name@,
                columns: columns_view(columns@),
                foreign_keys: foreign_keys_view(foreign_keys@),
                primary_key: primary_key_view(primary_key),
            }),
    {
        SQLiteTablePlan { name: owned(name), columns, foreign_keys, primary_key }
    }

    pub fn name(&self) -> (r: &str)
        ensures
            r@ == self@.name,
    {
        self.name.as_str()
    }

    pub fn columns(&self) -> (r: &[SQLiteColumnPlan])
        ensures
            columns_view(r@) == self@.columns,
    {
        self.columns.as_slice()
    }

    pub fn foreign_keys(&self) -> (r: &[SQLiteForeignKeyPlan])
        ensures
            foreign_keys_view(r@) == self@.foreign_keys,
    {
        self.foreign_keys.as_slice()
    }

    pub fn primary_key(&self) -> (r: Option<&SQLitePrimaryKeyPlan>)
        ensures
            match r {
                Some(k) => self@.primary_key == Some(k@),
                None => self@.primary_key is None,
            },
    {
        self.primary_key.as_ref()
    }
}

impl SQLiteCatalogObjectRow {
    pub fn new(object_id: i64, name: &str) -> (r: Self)
        ensures
            r@ == (ObjectRowView { object_id, name: name@ }),
    {
        SQLiteCatalogObjectRow { object_id, name: owned(name) }
    }

    pub fn object_id(&self) -> (r: i64)
        ensures
            r == self@.object_id,
    {
        self.object_id
    }

    pub fn name(&self) -> (r: &str)
        ensures
            r@ == self@.name,
    {
        self.name.as_str()
    }
}

impl SQLiteCatalogFieldRow {
    pub fn new(
        object_id: i64,
        field_id: i64,
        name: &str,
        field_kind: SQLiteCatalogFieldKind,
        cardinality: Cardinality,
        scalar_type: Option<ScalarType>,
        target_object_id: Option<i64>,
        is_implicit: bool,
        is_unique: bool,
    ) -> (r: Self)
        ensures
            r@ == (FieldRowView {
                object_id,
                field_id,
                name: name@,
                field_kind,
                cardinality,
                scalar_type,
                target_object_id,
                is_implicit,
                is_unique,
            }),
    {
        SQLiteCatalogFieldRow {
            object_id,
            field_id,
            name: owned(name),
            field_kind,
            cardinality,
            scalar_type,
            target_object_id,
            is_implicit,
            is_unique,
        }
    }

    pub fn object_id(&self) -> (r: i64)
        ensures
            r == self@.object_id,
    {
        self.object_id
    }

    pub fn field_id(&self) -> (r: i64)
        ensures
            r == self@.field_id,
    {
        self.field_id
    }

    pub fn name(&self) -> (r: &str)
        ensures
            r@ == self@.name,
    {
        self.name.as_str()
    }

    pub fn field_kind(&self) -> (r: SQLiteCatalogFieldKind)
        ensures
            r == self@.field_kind,
    {
        self.field_kind
    }

    pub fn cardinality(&self) -> (r: Cardinality)
        ensures
            r == self@.cardinality,
    {
        self.cardinality
    }

    pub fn scalar_type(&self) -> (r: Option<ScalarType>)
        ensures
            r == self@.scalar_type,
    {
        self.scalar_type
    }

    pub fn target_object_id(&self) -> (r: Option<i64>)
        ensures
            r == self@.target_object_id,
    {
        self.target_object_id
    }

    pub fn is_implicit(&self) -> (r: bool)
        ensures
            r == self@.is_implicit,
    {
        self.is_implicit
    }

    pub fn is_unique(&self) -> (r: bool)
        ensures
            r == self@.is_unique,
    {
        self.is_unique
    }
}

impl SQLiteInsertPlan {
    pub fn table_name(&self) -> (r: &str)
        ensures
            r@ == self@.table_name,
    {
        self.table_name.as_str()
    }

    pub fn columns(&self) -> (r: &[String])
        ensures
            strings_view(r@) == self@.columns,
    {
        self.columns.as_slice()
    }

    pub fn values(&self) -> (r: &[SQLiteValuePlan])
        ensures
            values_view(r@) == self@.values,
    {
        self.values.as_slice()
    }
}

impl SQLiteSchemaPlan {
    pub fn metadata_tables(&self) -> (r: &[SQLiteTablePlan])
        ensures
            tables_view(r@) == self@.metadata_tables,
    {
        self.metadata_tables.as_slice()
    }

    pub fn object_tables(&self) -> (r: &[SQLiteTablePlan])
        ensures
            tables_view(r@) == self@.object_tables,
    {
        self.object_tables.as_slice()
    }

    pub fn relation_tables(&self) -> (r: &[SQLiteTablePlan])
        ensures
            tables_view(r@) == self@.relation_tables,
    {
        self.relation_tables.as_slice()
    }

    pub fn catalog_object_rows(&self) -> (r: &[SQLiteCatalogObjectRow])
        ensures
            object_rows_view(r@) == self@.catalog_object_rows,
    {
        self.catalog_object_rows.as_slice()
    }

    pub fn catalog_field_rows(&self) -> (r: &[SQLiteCatalogFieldRow])
        ensures
            field_rows_view(r@) == self@.catalog_field_rows,
    {
        self.catalog_field_rows.as_slice()
    }
}

// ---------------------------------------------------------------------------
// Planning
// ---------------------------------------------------------------------------
/// The three engine metadata tables.
fn plan_metadata_tables() -> (r: Vec<SQLiteTablePlan>)
    ensures
        tables_view(r@) == metadata_tables(),
{
    let mut versions: Vec<SQLiteColumnPlan> = Vec::new();
    versions.push(SQLiteColumnPlan::new("version_id", SQLiteAffinity::Text, false, true, true));
    versions.push(SQLiteColumnPlan::new("checksum", SQLiteAffinity::Text, false, false, false));
    versions.push(SQLiteColumnPlan::new("applied_at", SQLiteAffinity::Text, false, false, false));
    versions.push(
        SQLiteColumnPlan::new("schema_snapshot", SQLiteAffinity::Text, false, false, false),
    );
    proof {
        assert(columns_view(versions@) =~= schema_versions_table().columns);
    }
    let versions_table = SQLiteTablePlan::new("_engine_schema_versions", versions);

    let mut objects: Vec<SQLiteColumnPlan> = Vec::new();
    objects.push(SQLiteColumnPlan::new("object_id", SQLiteAffinity::Integer, false, true, true));
    objects.push(SQLiteColumnPlan::new("name", SQLiteAffinity::Text, false, false, true));
    proof {
        assert(columns_view(objects@) =~= catalog_objects_table().columns);
    }
    let objects_table = SQLiteTablePlan::new("_engine_catalog_objects", objects);

    let mut fields: Vec<SQLiteColumnPlan> = Vec::new();
    fields.push(SQLiteColumnPlan::new("object_id", SQLiteAffinity::Integer, false, false, false));
    fields.push(SQLiteColumnPlan::new("field_id", SQLiteAffinity::Integer, false, false, false));
    fields.push(SQLiteColumnPlan::new("name", SQLiteAffinity::Text, false, false, false));
    fields.push(SQLiteColumnPlan::new("field_kind", SQLiteAffinity::Text, false, false, false));
    fields.push(SQLiteColumnPlan::new("cardinality", SQLiteAffinity::Text, false, false, false));
    fields.push(SQLiteColumnPlan::new("scalar_type", SQLiteAffinity::Text, true, false, false));
    fields.push(
        SQLiteColumnPlan::new("target_object_id", SQLiteAffinity::Integer, true, false, false),
    );
    fields.push(SQLiteColumnPlan::new("is_implicit", SQLiteAffinity::Integer, false, false, false));
    fields.push(SQLiteColumnPlan::new("is_unique", SQLiteAffinity::Integer, false, false, false));
    let mut key_columns: Vec<String> = Vec::new();
    key_columns.push(owned("object_id"));
    key_columns.push(owned("field_id"));
    let mut field_keys: Vec<SQLiteForeignKeyPlan> = Vec::new();
    field_keys.push(
        SQLiteForeignKeyPlan::new("object_id", "_engine_catalog_objects", "object_id"),
    );
    field_keys.push(
        SQLiteForeignKeyPlan::new("target_object_id", "_engine_catalog_objects", "object_id"),
    );
    proof {
        assert(columns_view(fields@) =~= catalog_fields_table().columns);
        assert(strings_view(key_columns@) =~= seq!["object_id"@, "field_id"@]);
        assert(foreign_keys_view(field_keys@) =~= catalog_fields_table().foreign_keys);
    }
    let fields_table = SQLiteTablePlan::new_with_constraints(
        "_engine_catalog_fields",
        fields,
        Some(SQLitePrimaryKeyPlan::new(key_columns)),
        field_keys,
    );

    let mut tables: Vec<SQLiteTablePlan> = Vec::new();
    tables.push(versions_table);
    tables.push(objects_table);
    tables.push(fields_table);
    proof {
        assert(tables_view(tables@) =~= metadata_tables());
    }
    tables
}

/// SQLite affinity of a scalar type.
fn sqlite_affinity(scalar_type: ScalarType) -> (r: SQLiteAffinity)
    ensures
        r == affinity_of(scalar_type),
{
    match scalar_type {
        ScalarType::Str => SQLiteAffinity::Text,
        ScalarType::Int64 => SQLiteAffinity::Integer,
        ScalarType::Float64 => SQLiteAffinity::Real,
        ScalarType::Bool => SQLiteAffinity::Integer,
        ScalarType::Uuid => SQLiteAffinity::Text,
        ScalarType::DateTime => SQLiteAffinity::Text,
    }
}

/// The table of one object type: `id`, then one column per scalar field and
/// per single link, with a foreign key per single link.
fn plan_object_table(object_type: &ObjectType) -> (r: SQLiteTablePlan)
    ensures
        r@ == object_table(*object_type),
{
    let declared = object_type.declared_fields();
    let mut columns: Vec<SQLiteColumnPlan> = Vec::new();
    columns.push(SQLiteColumnPlan::new("id", SQLiteAffinity::Text, false, true, true));
    let mut foreign_keys: Vec<SQLiteForeignKeyPlan> = Vec::new();
    let ghost id_column = seq![column("id"@, SQLiteAffinity::Text, false, true, true)];
    proof {
        assert(declared@.take(0) =~= Seq::<Field>::empty());
        assert(columns_view(columns@) =~= id_column + field_columns(declared@.take(0)));
        assert(foreign_keys_view(foreign_keys@) =~= field_foreign_keys(declared@.take(0)));
    }
    let mut i: usize = 0;
    while i < declared.len()
        invariant
            i <= declared.len(),
            declared@ == object_type.spec_declared(),
            id_column == seq![column("id"@, SQLiteAffinity::Text, false, true, true)],
            columns_view(columns@) == id_column + field_columns(declared@.take(i as int)),
            foreign_keys_view(foreign_keys@) == field_foreign_keys(declared@.take(i as int)),
        decreases declared.len() - i,
    {
        let field = &declared[i];
        let ghost old_columns = columns@;
        let ghost old_keys = foreign_keys@;
        proof {
            lemma_take_next(declared@, i as int);
        }
        match field {
            Field::Scalar(scalar) => {
                columns.push(
                    SQLiteColumnPlan::new(
                        field.name(),
                        sqlite_affinity(scalar.scalar_type()),
                        field.cardinality() != Cardinality::Required,
                        false,
                        scalar.is_unique(),
                    ),
                );
                proof {
                    assert(columns_view(columns@) =~= columns_view(old_columns) + field_column(
                        *field,
                    ));
                    assert(foreign_keys@ == old_keys);
                    assert(field_foreign_key(*field) =~= seq![]);
                    assert(foreign_keys_view(foreign_keys@) =~= foreign_keys_view(old_keys)
                        + field_foreign_key(*field));
                }
            },
            Field::Link(link) => {
                if link.cardinality() != Cardinality::Many {
                    let column_name = concat(field.name(), "_id");
                    columns.push(
                        SQLiteColumnPlan::new(
                            column_name.as_str(),
                            SQLiteAffinity::Text,
                            field.cardinality() != Cardinality::Required,
                            false,
                            link.is_unique(),
                        ),
                    );
                    let target_table = to_ascii_lowercase(link.target_type_name());
                    foreign_keys.push(
                        SQLiteForeignKeyPlan::new(column_name.as_str(), target_table.as_str(), "id"),
                    );
                    proof {
                        assert(columns_view(columns@) =~= columns_view(old_columns) + field_column(
                            *field,
                        ));
                        assert(foreign_keys_view(foreign_keys@) =~= foreign_keys_view(old_keys)
                            + field_foreign_key(*field));
                    }
                } else {
                    proof {
                        assert(field_column(*field) =~= seq![]);
                        assert(field_foreign_key(*field) =~= seq![]);
                        assert(columns_view(columns@) =~= columns_view(old_columns) + field_column(
                            *field,
                        ));
                        assert(foreign_keys_view(foreign_keys@) =~= foreign_keys_view(old_keys)
                            + field_foreign_key(*field));
                    }
                }
            },
        }
        i += 1;
    }
    proof {
        assert(declared@.take(declared.len() as int) =~= declared@);
    }
    let name = to_ascii_lowercase(object_type.name());
    SQLiteTablePlan::new_with_foreign_keys(name.as_str(), columns, foreign_keys)
}

/// One table per object type, in definition order.
fn plan_objects(catalog: &SchemaCatalog) -> (r: Vec<SQLiteTablePlan>)
    ensures
        tables_view(r@) == object_tables(catalog.spec_types()),
{
    let types = catalog.object_types();
    let mut tables: Vec<SQLiteTablePlan> = Vec::new();
    let mut i: usize = 0;
    while i < types.len()
        invariant
            i <= types.len(),
            types@ == catalog.spec_types(),
            tables_view(tables@) == object_tables(types@.take(i as int)),
        decreases types.len() - i,
    {
        let ghost old_tables = tables@;
        let table = plan_object_table(&types[i]);
        tables.push(table);
        proof {
            assert(tables_view(old_tables).len() == old_tables.len());
            assert(object_tables(types@.take(i as int)).len() == i);
            assert(old_tables.len() == i);
            assert(tables@.len() == i + 1);
            assert(tables@[i as int]@ == object_table(types@[i as int]));
            assert(types@.take(i + 1)[i as int] == types@[i as int]);
            assert forall|k: int| 0 <= k < i + 1 implies tables_view(tables@)[k] == object_tables(
                types@.take(i + 1),
            )[k] by {
                if k < i {
                    assert(tables_view(old_tables)[k] == object_tables(types@.take(i as int))[k]);
                }
            }
            assert(tables_view(tables@) =~= object_tables(types@.take(i + 1)));
        }
        i += 1;
    }
    proof {
        assert(types@.take(types.len() as int) =~= types@);
    }
    tables
}

/// Appends the relation tables of the multi links of one object type.
fn plan_relation_tables_of(object_type: &ObjectType, tables: &mut Vec<SQLiteTablePlan>)
    ensures
        tables_view(final(tables)@) == tables_view(old(tables)@) + relation_tables_of(
            *object_type,
            object_type.spec_declared(),
        ),
{
    let declared = object_type.declared_fields();
    let ghost start = tables_view(tables@);
    let source_table = to_ascii_lowercase(object_type.name());
    proof {
        assert(declared@.take(0) =~= Seq::<Field>::empty());
        assert(tables_view(tables@) =~= start + relation_tables_of(*object_type, declared@.take(0)));
    }
    let mut i: usize = 0;
    while i < declared.len()
        invariant
            i <= declared.len(),
            declared@ == object_type.spec_declared(),
            source_table@ == lower(object_type.spec_name()),
            tables_view(tables@) == start + relation_tables_of(*object_type, declared@.take(i as int)),
        decreases declared.len() - i,
    {
        let field = &declared[i];
        let ghost old_tables = tables@;
        proof {
            lemma_take_next(declared@, i as int);
        }
        match field {
            Field::Link(link) => {
                if link.cardinality() == Cardinality::Many {
                    let target_table = to_ascii_lowercase(link.target_type_name());
                    let prefix = concat(source_table.as_str(), "__");
                    let name = concat(prefix.as_str(), field.name());
                    let mut columns: Vec<SQLiteColumnPlan> = Vec::new();
                    columns.push(
                        SQLiteColumnPlan::new("source_id", SQLiteAffinity::Text, false, false, false),
                    );
                    columns.push(
                        SQLiteColumnPlan::new("target_id", SQLiteAffinity::Text, false, false, false),
                    );
                    columns.push(
                        SQLiteColumnPlan::new("position", SQLiteAffinity::Integer, true, false, false),
                    );
                    let mut key_columns: Vec<String> = Vec::new();
                    key_columns.push(owned("source_id"));
                    key_columns.push(owned("target_id"));
                    let mut keys: Vec<SQLiteForeignKeyPlan> = Vec::new();
                    keys.push(SQLiteForeignKeyPlan::new("source_id", source_table.as_str(), "id"));
                    keys.push(SQLiteForeignKeyPlan::new("target_id", target_table.as_str(), "id"));
                    let ghost expected = relation_table(*object_type, *field)[0];
                    proof {
                        assert(columns_view(columns@) =~= expected.columns);
                        assert(strings_view(key_columns@) =~= seq!["source_id"@, "target_id"@]);
                        assert(foreign_keys_view(keys@) =~= expected.foreign_keys);
                    }
                    tables.push(
                        SQLiteTablePlan::new_with_constraints(
                            name.as_str(),
                            columns,
                            Some(SQLitePrimaryKeyPlan::new(key_columns)),
                            keys,
                        ),
                    );
                    proof {
                        assert(tables_view(tables@) =~= tables_view(old_tables) + relation_table(
                            *object_type,
                            *field,
                        ));
                    }
                } else {
                    proof {
                        assert(relation_table(*object_type, *field) =~= seq![]);
                        assert(tables_view(tables@) =~= tables_view(old_tables) + relation_table(
                            *object_type,
                            *field,
                        ));
                    }
                }
            },
            Field::Scalar(_) => {
                proof {
                    assert(relation_table(*object_type, *field) =~= seq![]);
                    assert(tables_view(tables@) =~= tables_view(old_tables) + relation_table(
                        *object_type,
                        *field,
                    ));
                }
            },
        }
        i += 1;
    }
    proof {
        assert(declared@.take(declared.len() as int) =~= declared@);
    }
}

/// One relation table per multi link, by object type then field order.
fn plan_relation_tables(catalog: &SchemaCatalog) -> (r: Vec<SQLiteTablePlan>)
    ensures
        tables_view(r@) == relation_tables(catalog.spec_types()),
{
    let types = catalog.object_types();
    let mut tables: Vec<SQLiteTablePlan> = Vec::new();
    let mut i: usize = 0;
    proof {
        assert(types@.take(0) =~= Seq::<ObjectType>::empty());
        assert(tables_view(tables@) =~= relation_tables(types@.take(0)));
    }
    while i < types.len()
        invariant
            i <= types.len(),
            types@ == catalog.spec_types(),
            tables_view(tables@) == relation_tables(types@.take(i as int)),
        decreases types.len() - i,
    {
        proof {
            lemma_take_next(types@, i as int);
        }
        plan_relation_tables_of(&types[i], &mut tables);
        i += 1;
    }
    proof {
        assert(types@.take(types.len() as int) =~= types@);
    }
    tables
}

/// One catalog object row per object type, with `object_id = position + 1`.
fn plan_catalog_object_rows(catalog: &SchemaCatalog) -> (r: Vec<SQLiteCatalogObjectRow>)
    ensures
        object_rows_view(r@) == object_rows(catalog.spec_types()),
{
    let types = catalog.object_types();
    let mut rows: Vec<SQLiteCatalogObjectRow> = Vec::new();
    let mut i: usize = 0;
    while i < types.len()
        invariant
            i <= types.len(),
            types@ == catalog.spec_types(),
            object_rows_view(rows@) == object_rows(types@.take(i as int)),
        decreases types.len() - i,
    {
        let count = types.len();
        assert(i < count);
        let ghost old_rows = rows@;
        rows.push(SQLiteCatalogObjectRow::new((i + 1) as i64, types[i].name()));
        proof {
            assert(object_rows_view(old_rows).len() == old_rows.len());
            assert(object_rows(types@.take(i as int)).len() == i);
            assert(rows@.len() == i + 1);
            assert forall|k: int| 0 <= k < i + 1 implies object_rows_view(rows@)[k] == object_rows(
                types@.take(i + 1),
            )[k] by {
                if k < i {
                    assert(object_rows_view(old_rows)[k] == object_rows(types@.take(i as int))[k]);
                }
            }
            assert(object_rows_view(rows@) =~= object_rows(types@.take(i + 1)));
        }
        i += 1;
    }
    proof {
        assert(types@.take(types.len() as int) =~= types@);
    }
    rows
}

proof fn lemma_field_rows_view_push(s: Seq<SQLiteCatalogFieldRow>, x: SQLiteCatalogFieldRow)
    ensures
        field_rows_view(s.push(x)) == field_rows_view(s).push(x@),
{
    assert(field_rows_view(s.push(x)) =~= field_rows_view(s).push(x@));
}

proof fn lemma_inserts_view_push(s: Seq<SQLiteInsertPlan>, x: SQLiteInsertPlan)
    ensures
        inserts_view(s.push(x)) == inserts_view(s).push(x@),
{
    assert(inserts_view(s.push(x)) =~= inserts_view(s).push(x@));
}

/// Catalog field rows: for each object type, the implicit `id` row (field
/// id 1), then one row per declared field (field id `position + 2`); link
/// rows carry the id of their target object type.
fn plan_catalog_field_rows(catalog: &SchemaCatalog) -> (r: Vec<SQLiteCatalogFieldRow>)
    ensures
        field_rows_view(r@) == field_rows(*catalog, catalog.spec_types().len() as int),
{
    proof {
        use_type_invariant(catalog);
    }
    let types = catalog.object_types();
    let mut rows: Vec<SQLiteCatalogFieldRow> = Vec::new();
    let mut i: usize = 0;
    proof {
        assert(field_rows_view(rows@) =~= field_rows(*catalog, 0));
    }
    while i < types.len()
        invariant
            i <= types.len(),
            types@ == catalog.spec_types(),
            catalog.well_formed(),
            field_rows_view(rows@) == field_rows(*catalog, i as int),
        decreases types.len() - i,
    {
        let count = types.len();
        assert(i < count);
        let object_id = (i + 1) as i64;
        let ghost before = rows@;
        let id_row = SQLiteCatalogFieldRow::new(
            object_id,
            1,
            "id",
            SQLiteCatalogFieldKind::Scalar,
            Cardinality::Required,
            Some(ScalarType::Uuid),
            None,
            true,
            false,
        );
        rows.push(id_row);
        proof {
            lemma_field_rows_view_push(before, id_row);
            assert(id_row@ == id_field_row(i as int));
            assert(field_rows_view(rows@) =~= field_rows(*catalog, i as int) + seq![
                id_field_row(i as int),
            ] + declared_field_rows(*catalog, i as int, 0));
        }
        let object_type = &types[i];
        let declared = object_type.declared_fields();
        let mut j: usize = 0;
        while j < declared.len()
            invariant
                i < types.len(),
                j <= declared.len(),
                types@ == catalog.spec_types(),
                catalog.well_formed(),
                *object_type == types@[i as int],
                declared@ == types@[i as int].spec_declared(),
                object_id == (i + 1) as i64,
                field_rows_view(rows@) == field_rows(*catalog, i as int) + seq![
                    id_field_row(i as int),
                ] + declared_field_rows(*catalog, i as int, j as int),
            decreases declared.len() - j,
        {
            proof {
                assert(types@[i as int].implicit_wf());
            }
            let field = &declared[j];
            let field_id = (j + 2) as i64;
            let ghost before_field = rows@;
            let row = match field {
                Field::Scalar(scalar) => SQLiteCatalogFieldRow::new(
                    object_id,
                    field_id,
                    field.name(),
                    SQLiteCatalogFieldKind::Scalar,
                    field.cardinality(),
                    Some(scalar.scalar_type()),
                    None,
                    false,
                    scalar.is_unique(),
                ),
                Field::Link(link) => {
                    let target = catalog.find_type_ref(link.target_type_name());
                    proof {
                        law_link_targets_resolve(*catalog, i as int, j as int, *link);
                    }
                    let target_ref = target.unwrap();
                    let target_object_id = target_ref.id().value() as i64;
                    SQLiteCatalogFieldRow::new(
                        object_id,
                        field_id,
                        field.name(),
                        SQLiteCatalogFieldKind::Link,
                        field.cardinality(),
                        None,
                        Some(target_object_id),
                        false,
                        link.is_unique(),
                    )
                },
            };
            proof {
                assert(row@ == declared_field_row(*catalog, i as int, j as int));
            }
            rows.push(row);
            proof {
                lemma_field_rows_view_push(before_field, row);
                assert(field_rows_view(rows@) =~= field_rows(*catalog, i as int) + seq![
                    id_field_row(i as int),
                ] + declared_field_rows(*catalog, i as int, j + 1));
            }
            j += 1;
        }
        proof {
            assert(field_rows_view(rows@) =~= field_rows(*catalog, i + 1));
        }
        i += 1;
    }
    rows
}

/// Plans the schema of an empty SQLite database for a validated catalog:
/// the metadata tables, one table per object type, one relation table per
/// multi link, and the catalog metadata rows.
pub fn plan_initial_schema(catalog: &SchemaCatalog) -> (r: SQLiteSchemaPlan)
    ensures
        r@ == initial_schema(*catalog),
{
    SQLiteSchemaPlan {
        metadata_tables: plan_metadata_tables(),
        object_tables: plan_objects(catalog),
        relation_tables: plan_relation_tables(catalog),
        catalog_object_rows: plan_catalog_object_rows(catalog),
        catalog_field_rows: plan_catalog_field_rows(catalog),
    }
}

// ---------------------------------------------------------------------------
// Metadata inserts
// ---------------------------------------------------------------------------
/// `1` for true, `0` for false.
pub open spec fn bool_value_view(b: bool) -> ValueView {
    if b {
        ValueView::Integer(1)
    } else {
        ValueView::Integer(0)
    }
}

pub open spec fn field_kind_value_view(k: SQLiteCatalogFieldKind) -> ValueView {
    match k {
        SQLiteCatalogFieldKind::Scalar => ValueView::Text("scalar"@),
        SQLiteCatalogFieldKind::Link => ValueView::Text("link"@),
    }
}

pub open spec fn cardinality_value_view(c: Cardinality) -> ValueView {
    match c {
        Cardinality::Optional => ValueView::Text("optional"@),
        Cardinality::Required => ValueView::Text("required"@),
        Cardinality::Many => ValueView::Text("many"@),
    }
}

/// The cardinality recorded in the catalog metadata is the cardinality's
/// schema-language name, the one the resolver reports it by (`optional`,
/// `required`, `many`), so distinct cardinalities are recorded distinctly.
pub proof fn law_cardinality_value_names(c: Cardinality, other: Cardinality)
    ensures
        cardinality_value_view(c) == ValueView::Text(cardinality_name(c)),
        cardinality_value_view(c) == cardinality_value_view(other) ==> c == other,
{
    reveal_strlit("optional");
    reveal_strlit("required");
    reveal_strlit("many");
    assert("optional"@[0] != "required"@[0]);
    assert("optional"@.len() != "many"@.len());
    assert("required"@.len() != "many"@.len());
}

/// The metadata insert of a declared field describes that field: its name,
/// its cardinality by its schema-language name, its scalar type by the
/// type's schema-language name (none for a link), whether it is unique,
/// and that it is declared, not implicit.
pub proof fn law_field_insert_describes_field(c: SchemaCatalog, i: int, j: int)
    requires
        0 <= i < c.spec_types().len(),
        0 <= j < c.spec_types()[i].spec_declared().len(),
    ensures
        field_insert(declared_field_row(c, i, j)).values.len() == 9,
        field_insert(declared_field_row(c, i, j)).values[2] == ValueView::Text(
            field_name(c.spec_types()[i].spec_declared()[j]),
        ),
        field_insert(declared_field_row(c, i, j)).values[4] == ValueView::Text(
            cardinality_name(c.spec_types()[i].spec_declared()[j].spec_cardinality()),
        ),
        field_insert(declared_field_row(c, i, j)).values[5] == match c.spec_types()[i].spec_declared()[j] {
            Field::Scalar(s) => ValueView::Text(s.spec_scalar_type().spec_name()),
            Field::Link(_) => ValueView::Null,
        },
        field_insert(declared_field_row(c, i, j)).values[7] == ValueView::Integer(0),
        field_insert(declared_field_row(c, i, j)).values[8] == ValueView::Integer(
            if field_is_unique(c.spec_types()[i].spec_declared()[j]) {
                1
            } else {
                0
            },
        ),
{
    let f = c.spec_types()[i].spec_declared()[j];
    law_cardinality_value_names(f.spec_cardinality(), f.spec_cardinality());
    law_bool_values(false);
    law_bool_values(field_is_unique(f));
}

/// A flag recorded in the catalog metadata is an integer that SQLite reads
/// as true exactly when the flag is set: `1` or `0`.
pub proof fn law_bool_values(b: bool)
    ensures
        bool_value_view(b) matches ValueView::Integer(n) && 0 <= n <= 1 && (n != 0) == b,
{
}

/// The field kind recorded in the catalog metadata tells scalars and links
/// apart.
pub proof fn law_field_kind_values_distinct(k: SQLiteCatalogFieldKind, other: SQLiteCatalogFieldKind)
    ensures
        field_kind_value_view(k) == field_kind_value_view(other) ==> k == other,
{
    reveal_strlit("scalar");
    reveal_strlit("link");
    assert("scalar"@.len() != "link"@.len());
}

/// The schema-language name of a scalar type, or `NULL`.
pub open spec fn scalar_type_value_view(t: Option<ScalarType>) -> ValueView {
    match t {
        Some(t) => ValueView::Text(t.spec_name()),
        None => ValueView::Null,
    }
}

pub open spec fn optional_integer_view(v: Option<i64>) -> ValueView {
    match v {
        Some(v) => ValueView::Integer(v),
        None => ValueView::Null,
    }
}

/// The insert of one catalog object row.
pub open spec fn object_insert(row: ObjectRowView) -> InsertView {
    InsertView {
        table_name: "_engine_catalog_objects"@,
        columns: seq!["object_id"@, "name"@],
        values: seq![ValueView::Integer(row.object_id), ValueView::Text(row.name)],
    }
}

/// The insert of one catalog field row, in the column order of
/// `_engine_catalog_fields`.
pub open spec fn field_insert(row: FieldRowView) -> InsertView {
    InsertView {
        table_name: "_engine_catalog_fields"@,
        columns: seq![
            "object_id"@,
            "field_id"@,
            "name"@,
            "field_kind"@,
            "cardinality"@,
            "scalar_type"@,
            "target_object_id"@,
            "is_implicit"@,
            "is_unique"@,
        ],
        values: seq![
            ValueView::Integer(row.object_id),
            ValueView::Integer(row.field_id),
            ValueView::Text(row.name),
            field_kind_value_view(row.field_kind),
            cardinality_value_view(row.cardinality),
            scalar_type_value_view(row.scalar_type),
            optional_integer_view(row.target_object_id),
            bool_value_view(row.is_implicit),
            bool_value_view(row.is_unique),
        ],
    }
}

fn bool_value(value: bool) -> (r: SQLiteValuePlan)
    ensures
        r@ == bool_value_view(value),
{
    if value {
        SQLiteValuePlan::Integer(1)
    } else {
        SQLiteValuePlan::Integer(0)
    }
}

fn field_kind_value(kind: SQLiteCatalogFieldKind) -> (r: SQLiteValuePlan)
    ensures
        r@ == field_kind_value_view(kind),
{
    match kind {
        SQLiteCatalogFieldKind::Scalar => SQLiteValuePlan::Text(owned("scalar")),
        SQLiteCatalogFieldKind::Link => SQLiteValuePlan::Text(owned("link")),
    }
}

fn optional_scalar_type_value(scalar_type: Option<ScalarType>) -> (r: SQLiteValuePlan)
    ensures
        r@ == scalar_type_value_view(scalar_type),
{
    match scalar_type {
        Some(ScalarType::Str) => SQLiteValuePlan::Text(owned("str")),
        Some(ScalarType::Int64) => SQLiteValuePlan::Text(owned("int64")),
        Some(ScalarType::Float64) => SQLiteValuePlan::Text(owned("float64")),
        Some(ScalarType::Bool) => SQLiteValuePlan::Text(owned("bool")),
        Some(ScalarType::Uuid) => SQLiteValuePlan::Text(owned("uuid")),
        Some(ScalarType::DateTime) => SQLiteValuePlan::Text(owned("datetime")),
        None => SQLiteValuePlan::Null,
    }
}

fn optional_i64_value(value: Option<i64>) -> (r: SQLiteValuePlan)
    ensures
        r@ == optional_integer_view(value),
{
    match value {
        Some(value) => SQLiteValuePlan::Integer(value),
        None => SQLiteValuePlan::Null,
    }
}

fn cardinality_value(cardinality: Cardinality) -> (r: SQLiteValuePlan)
    ensures
        r@ == cardinality_value_view(cardinality),
{
    match cardinality {
        Cardinality::Optional => SQLiteValuePlan::Text(owned("optional")),
        Cardinality::Required => SQLiteValuePlan::Text(owned("required")),
        Cardinality::Many => SQLiteValuePlan::Text(owned("many")),
    }
}

/// Inserts of the catalog object rows recorded in `plan`, in row order.
pub fn plan_catalog_object_inserts(plan: &SQLiteSchemaPlan) -> (r: Vec<SQLiteInsertPlan>)
    ensures
        inserts_view(r@) == plan@.catalog_object_rows.map_values(|row: ObjectRowView| object_insert(row)),
{
    let rows = plan.catalog_object_rows();
    let ghost expected = plan@.catalog_object_rows.map_values(|row: ObjectRowView| object_insert(row));
    let mut inserts: Vec<SQLiteInsertPlan> = Vec::new();
    let mut i: usize = 0;
    while i < rows.len()
        invariant
            i <= rows.len(),
            object_rows_view(rows@) == plan@.catalog_object_rows,
            expected == plan@.catalog_object_rows.map_values(|row: ObjectRowView| object_insert(row)),
            inserts_view(inserts@) == expected.take(i as int),
        decreases rows.len() - i,
    {
        let row = &rows[i];
        let mut columns: Vec<String> = Vec::new();
        columns.push(owned("object_id"));
        columns.push(owned("name"));
        let mut values: Vec<SQLiteValuePlan> = Vec::new();
        values.push(SQLiteValuePlan::Integer(row.object_id()));
        values.push(SQLiteValuePlan::Text(owned(row.name())));
        let insert = SQLiteInsertPlan {
            table_name: owned("_engine_catalog_objects"),
            columns,
            values,
        };
        let ghost before = inserts@;
        proof {
            assert(object_rows_view(rows@)[i as int] == rows@[i as int]@);
            assert(insert@.columns =~= object_insert(rows@[i as int]@).columns);
            assert(insert@.values =~= object_insert(rows@[i as int]@).values);
            assert(insert@ =~= object_insert(rows@[i as int]@));
        }
        inserts.push(insert);
        proof {
            lemma_inserts_view_push(before, insert);
            assert(inserts_view(inserts@) =~= expected.take(i + 1));
        }
        i += 1;
    }
    proof {
        assert(expected.take(rows.len() as int) =~= expected);
    }
    inserts
}

/// Inserts of the catalog field rows recorded in `plan`, in row order.
pub fn plan_catalog_field_inserts(plan: &SQLiteSchemaPlan) -> (r: Vec<SQLiteInsertPlan>)
    ensures
        inserts_view(r@) == plan@.catalog_field_rows.map_values(|row: FieldRowView| field_insert(row)),
{
    let rows = plan.catalog_field_rows();
    let ghost expected = plan@.catalog_field_rows.map_values(|row: FieldRowView| field_insert(row));
    let mut inserts: Vec<SQLiteInsertPlan> = Vec::new();
    let mut i: usize = 0;
    while i < rows.len()
        invariant
            i <= rows.len(),
            field_rows_view(rows@) == plan@.catalog_field_rows,
            expected == plan@.catalog_field_rows.map_values(|row: FieldRowView| field_insert(row)),
            inserts_view(inserts@) == expected.take(i as int),
        decreases rows.len() - i,
    {
        let row = &rows[i];
        let mut columns: Vec<String> = Vec::new();
        columns.push(owned("object_id"));
        columns.push(owned("field_id"));
        columns.push(owned("name"));
        columns.push(owned("field_kind"));
        columns.push(owned("cardinality"));
        columns.push(owned("scalar_type"));
        columns.push(owned("target_object_id"));
        columns.push(owned("is_implicit"));
        columns.push(owned("is_unique"));
        let mut values: Vec<SQLiteValuePlan> = Vec::new();
        values.push(SQLiteValuePlan::Integer(row.object_id()));
        values.push(SQLiteValuePlan::Integer(row.field_id()));
        values.push(SQLiteValuePlan::Text(owned(row.name())));
        values.push(field_kind_value(row.field_kind()));
        values.push(cardinality_value(row.cardinality()));
        values.push(optional_scalar_type_value(row.scalar_type()));
        values.push(optional_i64_value(row.target_object_id()));
        values.push(bool_value(row.is_implicit()));
        values.push(bool_value(row.is_unique()));
        let insert = SQLiteInsertPlan {
            table_name: owned("_engine_catalog_fields"),
            columns,
            values,
        };
        let ghost before = inserts@;
        proof {
            assert(field_rows_view(rows@)[i as int] == rows@[i as int]@);
            assert(insert@.columns =~= field_insert(rows@[i as int]@).columns);
            assert(insert@.values =~= field_insert(rows@[i as int]@).values);
            assert(insert@ =~= field_insert(rows@[i as int]@));
        }
        inserts.push(insert);
        proof {
            lemma_inserts_view_push(before, insert);
            assert(inserts_view(inserts@) =~= expected.take(i + 1));
        }
        i += 1;
    }
    proof {
        assert(expected.take(rows.len() as int) =~= expected);
    }
    inserts
}

} // verus!
