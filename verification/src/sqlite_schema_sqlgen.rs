//! Renders an initial SQLite schema plan as SQL: one `CREATE TABLE` per
//! planned table, then the catalog metadata inserts with `?` placeholders
//! and their bind values kept apart from the SQL text.
use vstd::prelude::*;
use crate::sqlite_schema::{
    ColumnView, ForeignKeyView, InsertView, PlanView, SQLiteAffinity, SQLiteColumnPlan,
    SQLiteForeignKeyPlan, SQLiteInsertPlan, SQLiteSchemaPlan, SQLiteTablePlan, SQLiteValuePlan,
    TableView, ValueView, FieldRowView, ObjectRowView, columns_view, field_insert, foreign_keys_view,
    inserts_view, object_insert, plan_catalog_field_inserts, plan_catalog_object_inserts,
    strings_view, tables_view, values_view,
};
use crate::text::{append_str, owned};

verus! {

/// One rendered schema statement: raw SQL, or an insert with bind values.
pub enum RenderedSchemaStatement {
    Sql(String),
    Insert(RenderedInsert),
}

/// An insert statement with `?` placeholders and the values to bind to
/// them, in order.
pub struct RenderedInsert {
    pub(crate) sql: String,
    pub(crate) values: Vec<SQLiteValuePlan>,
}

pub ghost enum StatementView {
    Sql(Seq<char>),
    Insert(Seq<char>, Seq<ValueView>),
}

impl View for RenderedSchemaStatement {
    type V = StatementView;

    open(crate) spec fn view(&self) -> StatementView {
        match self {
            RenderedSchemaStatement::Sql(sql) => StatementView::Sql(sql@),
            RenderedSchemaStatement::Insert(insert) => StatementView::Insert(
                insert.sql@,
                values_view(insert.values@),
            ),
        }
    }
}

pub open spec fn statements_view(s: Seq<RenderedSchemaStatement>) -> Seq<StatementView> {
    s.map_values(|x: RenderedSchemaStatement| x@)
}

// ---------------------------------------------------------------------------
// The rendered text, as mathematics
// ---------------------------------------------------------------------------
/// The parts joined by `sep`.
pub open spec fn join(parts: Seq<Seq<char>>, sep: Seq<char>) -> Seq<char>
    decreases parts.len(),
{
    if parts.len() == 0 {
        seq![]
    } else if parts.len() == 1 {
        parts[0]
    } else {
        join(parts.drop_last(), sep) + sep + parts.last()
    }
}

pub open spec fn affinity_name(a: SQLiteAffinity) -> Seq<char> {
    match a {
        SQLiteAffinity::Text => "TEXT"@,
        SQLiteAffinity::Integer => "INTEGER"@,
        SQLiteAffinity::Real => "REAL"@,
    }
}

/// `w` occurs in `s` as a run of consecutive characters.
pub open spec fn occurs_in(w: Seq<char>, s: Seq<char>) -> bool {
    exists|i: int| 0 <= i && i + w.len() <= s.len() && #[trigger] s.subrange(i, i + w.len()) == w
}

/// The affinity SQLite gives a column declared with the upper-case type
/// name `t`, by its rules taken in order: a name holding `INT` is INTEGER;
/// one holding `CHAR`, `CLOB` or `TEXT` is TEXT; one holding `BLOB`, or no
/// name, is BLOB; one holding `REAL`, `FLOA` or `DOUB` is REAL; any other
/// is NUMERIC. BLOB and NUMERIC, which no planned column has, are `None`.
pub open spec fn declared_type_affinity(t: Seq<char>) -> Option<SQLiteAffinity> {
    if occurs_in("INT"@, t) {
        Some(SQLiteAffinity::Integer)
    } else if occurs_in("CHAR"@, t) || occurs_in("CLOB"@, t) || occurs_in("TEXT"@, t) {
        Some(SQLiteAffinity::Text)
    } else if occurs_in("BLOB"@, t) || t.len() == 0 {
        None
    } else if occurs_in("REAL"@, t) || occurs_in("FLOA"@, t) || occurs_in("DOUB"@, t) {
        Some(SQLiteAffinity::Real)
    } else {
        None
    }
}

/// Number of times `c` occurs in `s`.
spec fn char_count(s: Seq<char>, c: char) -> nat
    decreases s.len(),
{
    if s.len() == 0 {
        0
    } else {
        char_count(s.drop_last(), c) + if s.last() == c {
            1nat
        } else {
            0nat
        }
    }
}

proof fn lemma_char_count_zero(s: Seq<char>, c: char, k: int)
    requires
        char_count(s, c) == 0,
        0 <= k < s.len(),
    ensures
        s[k] != c,
    decreases s.len(),
{
    if k < s.len() - 1 {
        assert(s.drop_last()[k] == s[k]);
        lemma_char_count_zero(s.drop_last(), c, k);
    }
}

/// A word whose first character is not in `s` does not occur in `s`.
proof fn lemma_absent(w: Seq<char>, s: Seq<char>)
    requires
        w.len() > 0,
        char_count(s, w[0]) == 0,
    ensures
        !occurs_in(w, s),
{
    assert forall|i: int| 0 <= i && i + w.len() <= s.len() implies #[trigger] s.subrange(i, i + w.len()) != w by {
        lemma_char_count_zero(s, w[0], i);
        assert(s.subrange(i, i + w.len())[0] == s[i]);
    }
}

proof fn lemma_occurs_at(w: Seq<char>, s: Seq<char>, i: int)
    requires
        0 <= i,
        i + w.len() <= s.len(),
        s.subrange(i, i + w.len()) =~= w,
    ensures
        occurs_in(w, s),
{
}

proof fn lemma_integer_name()
    ensures
        declared_type_affinity("INTEGER"@) == Some(SQLiteAffinity::Integer),
{
    reveal_strlit("INT");
    reveal_strlit("INTEGER");
    lemma_occurs_at("INT"@, "INTEGER"@, 0);
}

proof fn lemma_text_name()
    ensures
        declared_type_affinity("TEXT"@) == Some(SQLiteAffinity::Text),
{
    reveal_with_fuel(char_count, 5);
    reveal_strlit("INT");
    reveal_strlit("CHAR");
    reveal_strlit("CLOB");
    reveal_strlit("TEXT");
    lemma_absent("INT"@, "TEXT"@);
    lemma_occurs_at("TEXT"@, "TEXT"@, 0);
}

proof fn lemma_real_name()
    ensures
        declared_type_affinity("REAL"@) == Some(SQLiteAffinity::Real),
{
    reveal_with_fuel(char_count, 5);
    reveal_strlit("INT");
    reveal_strlit("CHAR");
    reveal_strlit("CLOB");
    reveal_strlit("TEXT");
    reveal_strlit("BLOB");
    reveal_strlit("REAL");
    lemma_absent("INT"@, "REAL"@);
    lemma_absent("CHAR"@, "REAL"@);
    lemma_absent("CLOB"@, "REAL"@);
    lemma_absent("TEXT"@, "REAL"@);
    lemma_absent("BLOB"@, "REAL"@);
    lemma_occurs_at("REAL"@, "REAL"@, 0);
}

/// The column type written for a planned affinity is one that SQLite gives
/// exactly that affinity, so distinct affinities are written distinctly.
pub proof fn law_affinity_names(a: SQLiteAffinity, other: SQLiteAffinity)
    ensures
        declared_type_affinity(affinity_name(a)) == Some(a),
        affinity_name(a) == affinity_name(other) ==> a == other,
{
    lemma_integer_name();
    lemma_text_name();
    lemma_real_name();
}

/// `name TYPE NOT NULL` or `name TYPE NULL`, then `PRIMARY KEY` and
/// `UNIQUE` where the column has them.
pub open spec fn column_definition(c: ColumnView) -> Seq<char> {
    c.name + " "@ + affinity_name(c.affinity) + (if c.nullable {
        " NULL"@
    } else {
        " NOT NULL"@
    }) + (if c.primary_key {
        " PRIMARY KEY"@
    } else {
        seq![]
    }) + (if c.unique {
        " UNIQUE"@
    } else {
        seq![]
    })
}

pub open spec fn primary_key_clause(columns: Seq<Seq<char>>) -> Seq<char> {
    "PRIMARY KEY ("@ + join(columns, ", "@) + ")"@
}

pub open spec fn foreign_key_clause(f: ForeignKeyView) -> Seq<char> {
    "FOREIGN KEY ("@ + f.column_name + ") REFERENCES "@ + f.target_table + "("@ + f.target_column
        + ")"@
}

/// Column definitions, then the table primary key, then the foreign keys.
pub open spec fn table_definitions(t: TableView) -> Seq<Seq<char>> {
    t.columns.map_values(|c: ColumnView| column_definition(c)) + match t.primary_key {
        Some(k) => seq![primary_key_clause(k)],
        None => seq![],
    } + t.foreign_keys.map_values(|f: ForeignKeyView| foreign_key_clause(f))
}

pub open spec fn create_table_sql(t: TableView) -> Seq<char> {
    "CREATE TABLE "@ + t.name + " ("@ + join(table_definitions(t), ", "@) + ")"@
}

/// `INSERT INTO table (c1, c2) VALUES (?, ?)`, one placeholder per value.
pub open spec fn insert_sql(i: InsertView) -> Seq<char> {
    "INSERT INTO "@ + i.table_name + " ("@ + join(i.columns, ", "@) + ") VALUES ("@ + join(
        Seq::new(i.values.len(), |k: int| "?"@),
        ", "@,
    ) + ")"@
}

pub open spec fn insert_statement(i: InsertView) -> StatementView {
    StatementView::Insert(insert_sql(i), i.values)
}

pub open spec fn create_statement(t: TableView) -> StatementView {
    StatementView::Sql(create_table_sql(t))
}

/// All statements of an initial schema: the tables in plan order (metadata,
/// object, relation), then the catalog object inserts, then the catalog
/// field inserts.
pub open spec fn initial_schema_statements(p: PlanView) -> Seq<StatementView> {
    (p.metadata_tables + p.object_tables + p.relation_tables).map_values(
        |t: TableView| create_statement(t),
    ) + p.catalog_object_rows.map_values(|r: ObjectRowView| insert_statement(object_insert(r)))
        + p.catalog_field_rows.map_values(|r: FieldRowView| insert_statement(field_insert(r)))
}

// ---------------------------------------------------------------------------
// Rendering
// ---------------------------------------------------------------------------
pub(crate) fn render_join(parts: &[String], sep: &str) -> (r: String)
    ensures
        r@ == join(strings_view(parts@), sep@),
{
    let mut out = String::new();
    let mut i: usize = 0;
    while i < parts.len()
        invariant
            i <= parts@.len(),
            out@ == join(strings_view(parts@.take(i as int)), sep@),
        decreases parts@.len() - i,
    {
        let ghost before = strings_view(parts@.take(i as int));
        proof {
            let next = strings_view(parts@.take(i as int + 1));
            assert(next.drop_last() =~= before);
            assert(next.last() == parts@[i as int]@);
        }
        if i > 0 {
            append_str(&mut out, sep);
        }
        append_str(&mut out, parts[i].as_str());
        i = i + 1;
    }
    proof {
        assert(parts@.take(i as int) =~= parts@);
    }
    out
}

fn render_affinity(a: SQLiteAffinity) -> (r: &'static str)
    ensures
        r@ == affinity_name(a),
{
    match a {
        SQLiteAffinity::Text => "TEXT",
        SQLiteAffinity::Integer => "INTEGER",
        SQLiteAffinity::Real => "REAL",
    }
}

fn render_column_definition(c: &SQLiteColumnPlan) -> (r: String)
    ensures
        r@ == column_definition(c@),
{
    let mut out = owned(c.name());
    append_str(&mut out, " ");
    append_str(&mut out, render_affinity(c.affinity()));
    if c.is_nullable() {
        append_str(&mut out, " NULL");
    } else {
        append_str(&mut out, " NOT NULL");
    }
    let ghost head = out@;
    if c.is_primary_key() {
        append_str(&mut out, " PRIMARY KEY");
    }
    let ghost with_key = out@;
    if c.is_unique() {
        append_str(&mut out, " UNIQUE");
    }
    proof {
        assert(with_key =~= head + (if c@.primary_key {
            " PRIMARY KEY"@
        } else {
            seq![]
        }));
        assert(out@ =~= with_key + (if c@.unique {
            " UNIQUE"@
        } else {
            seq![]
        }));
    }
    out
}

fn render_foreign_key_clause(f: &SQLiteForeignKeyPlan) -> (r: String)
    ensures
        r@ == foreign_key_clause(f@),
{
    let mut out = owned("FOREIGN KEY (");
    append_str(&mut out, f.column_name());
    append_str(&mut out, ") REFERENCES ");
    append_str(&mut out, f.target_table());
    append_str(&mut out, "(");
    append_str(&mut out, f.target_column());
    append_str(&mut out, ")");
    out
}

/// The `CREATE TABLE` statement of one planned table.
pub fn render_create_table(table: &SQLiteTablePlan) -> (r: String)
    ensures
        r@ == create_table_sql(table@),
{
    let columns = table.columns();
    let mut definitions: Vec<String> = Vec::new();
    let ghost col_defs = table@.columns.map_values(|c: ColumnView| column_definition(c));
    let mut i: usize = 0;
    while i < columns.len()
        invariant
            i <= columns@.len(),
            columns_view(columns@) == table@.columns,
            col_defs == table@.columns.map_values(|c: ColumnView| column_definition(c)),
            strings_view(definitions@) == col_defs.take(i as int),
        decreases columns@.len() - i,
    {
        let d = render_column_definition(&columns[i]);
        let ghost before = definitions@;
        definitions.push(d);
        proof {
            assert(columns_view(columns@)[i as int] == columns@[i as int]@);
            assert(strings_view(definitions@) =~= strings_view(before).push(d@));
            assert(strings_view(definitions@) =~= col_defs.take(i as int + 1));
        }
        i = i + 1;
    }
    proof {
        assert(col_defs.take(i as int) =~= col_defs);
    }
    let ghost pk_defs = match table@.primary_key {
        Some(k) => seq![primary_key_clause(k)],
        None => Seq::<Seq<char>>::empty(),
    };
    let ghost before_pk = definitions@;
    match table.primary_key() {
        Some(key) => {
            let mut clause = owned("PRIMARY KEY (");
            let names = render_join(key.column_names(), ", ");
            append_str(&mut clause, names.as_str());
            append_str(&mut clause, ")");
            definitions.push(clause);
            proof {
                assert(strings_view(definitions@) =~= strings_view(before_pk).push(clause@));
            }
        },
        None => {},
    }
    proof {
        assert(strings_view(definitions@) =~= col_defs + pk_defs);
    }
    let foreign_keys = table.foreign_keys();
    let ghost fk_defs = table@.foreign_keys.map_values(|f: ForeignKeyView| foreign_key_clause(f));
    let ghost base = col_defs + pk_defs;
    let mut j: usize = 0;
    while j < foreign_keys.len()
        invariant
            j <= foreign_keys@.len(),
            foreign_keys_view(foreign_keys@) == table@.foreign_keys,
            fk_defs == table@.foreign_keys.map_values(|f: ForeignKeyView| foreign_key_clause(f)),
            strings_view(definitions@) == base + fk_defs.take(j as int),
        decreases foreign_keys@.len() - j,
    {
        let d = render_foreign_key_clause(&foreign_keys[j]);
        let ghost before = definitions@;
        definitions.push(d);
        proof {
            assert(foreign_keys_view(foreign_keys@)[j as int] == foreign_keys@[j as int]@);
            assert(strings_view(definitions@) =~= strings_view(before).push(d@));
            assert(strings_view(definitions@) =~= base + fk_defs.take(j as int + 1));
        }
        j = j + 1;
    }
    proof {
        assert(fk_defs.take(j as int) =~= fk_defs);
        assert(strings_view(definitions@) =~= table_definitions(table@));
    }
    let mut out = owned("CREATE TABLE ");
    append_str(&mut out, table.name());
    append_str(&mut out, " (");
    let body = render_join(definitions.as_slice(), ", ");
    append_str(&mut out, body.as_str());
    append_str(&mut out, ")");
    out
}

fn copy_value(v: &SQLiteValuePlan) -> (r: SQLiteValuePlan)
    ensures
        r@ == v@,
{
    match v {
        SQLiteValuePlan::Integer(n) => SQLiteValuePlan::Integer(*n),
        SQLiteValuePlan::Text(s) => SQLiteValuePlan::Text(owned(s.as_str())),
        SQLiteValuePlan::Null => SQLiteValuePlan::Null,
    }
}

/// The insert statement of one planned metadata insert.
pub fn render_insert(insert: &SQLiteInsertPlan) -> (r: RenderedInsert)
    ensures
        r.spec_sql() == insert_sql(insert@),
        r.spec_values() == insert@.values,
{
    let values = insert.values();
    let mut placeholders: Vec<String> = Vec::new();
    let mut copied: Vec<SQLiteValuePlan> = Vec::new();
    let mut i: usize = 0;
    while i < values.len()
        invariant
            i <= values@.len(),
            values_view(values@) == insert@.values,
            strings_view(placeholders@) == Seq::new(i as nat, |k: int| "?"@),
            values_view(copied@) == values_view(values@).take(i as int),
        decreases values@.len() - i,
    {
        let ghost before_p = placeholders@;
        let ghost before_c = copied@;
        let mark = owned("?");
        placeholders.push(mark);
        let v = copy_value(&values[i]);
        copied.push(v);
        proof {
            assert(strings_view(placeholders@) =~= strings_view(before_p).push(mark@));
            assert(strings_view(placeholders@) =~= Seq::new(i as nat + 1, |k: int| "?"@));
            assert(values_view(copied@) =~= values_view(before_c).push(v@));
            assert(values_view(copied@) =~= values_view(values@).take(i as int + 1));
        }
        i = i + 1;
    }
    proof {
        assert(values_view(values@).take(i as int) =~= values_view(values@));
    }
    let mut sql = owned("INSERT INTO ");
    append_str(&mut sql, insert.table_name());
    append_str(&mut sql, " (");
    let columns = render_join(insert.columns(), ", ");
    append_str(&mut sql, columns.as_str());
    append_str(&mut sql, ") VALUES (");
    let marks = render_join(placeholders.as_slice(), ", ");
    append_str(&mut sql, marks.as_str());
    append_str(&mut sql, ")");
    RenderedInsert { sql, values: copied }
}

impl RenderedInsert {
    pub open(crate) spec fn spec_sql(&self) -> Seq<char> {
        self.sql@
    }

    pub open(crate) spec fn spec_values(&self) -> Seq<ValueView> {
        values_view(self.values@)
    }

    pub fn sql(&self) -> (r: &str)
        ensures
            r@ == self.spec_sql(),
    {
        self.sql.as_str()
    }

    pub fn values(&self) -> (r: &[SQLiteValuePlan])
        ensures
            values_view(r@) == self.spec_values(),
    {
        self.values.as_slice()
    }
}

fn push_create_tables(out: &mut Vec<RenderedSchemaStatement>, tables: &[SQLiteTablePlan])
    ensures
        statements_view(final(out)@) == statements_view(old(out)@) + tables_view(tables@).map_values(
            |t: TableView| create_statement(t),
        ),
{
    let ghost start = statements_view(out@);
    let ghost expected = tables_view(tables@).map_values(|t: TableView| create_statement(t));
    let mut i: usize = 0;
    while i < tables.len()
        invariant
            i <= tables@.len(),
            expected == tables_view(tables@).map_values(|t: TableView| create_statement(t)),
            statements_view(out@) == start + expected.take(i as int),
        decreases tables@.len() - i,
    {
        let sql = render_create_table(&tables[i]);
        let ghost before = out@;
        let statement = RenderedSchemaStatement::Sql(sql);
        out.push(statement);
        proof {
            assert(tables_view(tables@)[i as int] == tables@[i as int]@);
            assert(statements_view(out@) =~= statements_view(before).push(statement@));
            assert(statements_view(out@) =~= start + expected.take(i as int + 1));
        }
        i = i + 1;
    }
    proof {
        assert(expected.take(i as int) =~= expected);
    }
}

fn push_inserts(out: &mut Vec<RenderedSchemaStatement>, inserts: &Vec<SQLiteInsertPlan>)
    ensures
        statements_view(final(out)@) == statements_view(old(out)@) + inserts_view(inserts@).map_values(
            |i: InsertView| insert_statement(i),
        ),
{
    let ghost start = statements_view(out@);
    let ghost expected = inserts_view(inserts@).map_values(|i: InsertView| insert_statement(i));
    let mut i: usize = 0;
    while i < inserts.len()
        invariant
            i <= inserts@.len(),
            expected == inserts_view(inserts@).map_values(|i: InsertView| insert_statement(i)),
            statements_view(out@) == start + expected.take(i as int),
        decreases inserts@.len() - i,
    {
        let rendered = render_insert(&inserts[i]);
        let ghost before = out@;
        let statement = RenderedSchemaStatement::Insert(rendered);
        out.push(statement);
        proof {
            assert(inserts_view(inserts@)[i as int] == inserts@[i as int]@);
            assert(statements_view(out@) =~= statements_view(before).push(statement@));
            assert(statements_view(out@) =~= start + expected.take(i as int + 1));
        }
        i = i + 1;
    }
    proof {
        assert(expected.take(i as int) =~= expected);
    }
}

/// Every statement of an initial schema plan, in application order.
pub fn render_initial_schema(plan: &SQLiteSchemaPlan) -> (r: Vec<RenderedSchemaStatement>)
    ensures
        statements_view(r@) == initial_schema_statements(plan@),
{
    let mut out: Vec<RenderedSchemaStatement> = Vec::new();
    push_create_tables(&mut out, plan.metadata_tables());
    push_create_tables(&mut out, plan.object_tables());
    push_create_tables(&mut out, plan.relation_tables());
    let object_inserts = plan_catalog_object_inserts(plan);
    push_inserts(&mut out, &object_inserts);
    let field_inserts = plan_catalog_field_inserts(plan);
    push_inserts(&mut out, &field_inserts);
    proof {
        let p = plan@;
        let f = |t: TableView| create_statement(t);
        assert((p.metadata_tables + p.object_tables + p.relation_tables).map_values(f) =~= p.metadata_tables.map_values(f)
            + p.object_tables.map_values(f) + p.relation_tables.map_values(f));
        assert(inserts_view(object_inserts@).map_values(|i: InsertView| insert_statement(i))
            =~= p.catalog_object_rows.map_values(|r: ObjectRowView| insert_statement(object_insert(r))));
        assert(inserts_view(field_inserts@).map_values(|i: InsertView| insert_statement(i))
            =~= p.catalog_field_rows.map_values(|r: FieldRowView| insert_statement(field_insert(r))));
    }
    out
}

} // verus!
