//! The fluent statement types over the query builder: SELECT, UPDATE,
//! DELETE, INSERT and the insert-or-update variant. Each owns one builder;
//! predicate calls go through the builder, and compiling to SQL happens
//! once, at execution time. A compiled statement is single-use.

use vstd::prelude::*;
use crate::builder::{QueryBuilder, QueryBuilderView, StatementKind, spec_qmarks};
use crate::error::DbError;
use crate::model::Value;
use crate::strutil::{
    count_char, count_char_items, join_strs, lemma_count_char_append, lemma_count_char_join,
    lemma_count_char_zero, spec_join,
};

verus! {

/// A SELECT in the making.
pub struct Select {
    pub query: QueryBuilder,
}

impl Select {
    /// A fresh SELECT from `table` on the given datasource.
    pub fn new(datasource: u64, table: String) -> (r: Select)
        ensures
            r.query@.kind == StatementKind::SelectFrom,
            r.query@.datasource == datasource,
            r.query@.table == table@,
            r.query@.fields.len() == 0,
            r.query@.wheres.len() == 0,
            r.query@.group_by.len() == 0,
            r.query@.order_by.len() == 0,
            r.query@.limit is None,
            r.query@.offset is None,
            r.query@.arguments.len() == 0,
            r.query@.balanced(),
    {
        Select { query: QueryBuilder::new(StatementKind::SelectFrom, datasource, table) }
    }

    /// Add one select column.
    pub fn field(self, f: &str) -> (r: Select)
        ensures
            r.query@ == (QueryBuilderView { fields: self.query@.fields.push(f@), ..self.query@ }),
    {
        let mut s = self;
        s.query.field(f);
        s
    }

    /// Add several select columns, in order.
    pub fn fields(self, fs: &Vec<String>) -> (r: Select)
        ensures
            r.query@ == (QueryBuilderView {
                fields: self.query@.fields + fs@.map_values(|s: String| s@),
                ..self.query@
            }),
    {
        let mut s = self;
        s.query.fields(fs);
        s
    }

    /// Add every column of the mapping, in order.
    pub fn fields_all(self, columns: &Vec<String>) -> (r: Select)
        ensures
            r.query@ == (QueryBuilderView {
                fields: self.query@.fields + columns@.map_values(|s: String| s@),
                ..self.query@
            }),
    {
        let mut s = self;
        s.query.fields(columns);
        s
    }

    pub fn order_asc(self, f: &str) -> (r: Select)
        ensures
            r.query@ == (QueryBuilderView {
                order_by: self.query@.order_by.push(f@),
                ..self.query@
            }),
    {
        let mut s = self;
        s.query.order_asc(f);
        s
    }

    pub fn order_desc(self, f: &str) -> (r: Select)
        ensures
            r.query@ == (QueryBuilderView {
                order_by: self.query@.order_by.push(f@ + " DESC"@),
                ..self.query@
            }),
    {
        let mut s = self;
        s.query.order_desc(f);
        s
    }

    pub fn limit(self, l: u64) -> (r: Select)
        ensures
            r.query@ == (QueryBuilderView {
                limit: Some(crate::strutil::spec_dec(l as nat)),
                ..self.query@
            }),
    {
        let mut s = self;
        s.query.limit(l);
        s
    }

    pub fn offset(self, o: u64) -> (r: Select)
        ensures
            r.query@ == (QueryBuilderView {
                offset: Some(crate::strutil::spec_dec(o as nat)),
                ..self.query@
            }),
    {
        let mut s = self;
        s.query.offset(o);
        s
    }

    /// Compile to the final SELECT text.
    pub fn build_sql(&self) -> (r: Result<String, DbError>)
        requires
            self.query@.kind == StatementKind::SelectFrom,
        ensures
            self.query@.table.len() == 0 ==> r == Result::<String, DbError>::Err(
                DbError::NoTableName,
            ),
            self.query@.table.len() > 0 ==> (r matches Ok(s) && s@ == self.query@.spec_sql()),
    {
        self.query.build_sql()
    }
}

/// An UPDATE in the making.
pub struct Update {
    pub query: QueryBuilder,
}

impl Update {
    /// A fresh UPDATE of `table` on the given datasource.
    pub fn new(datasource: u64, table: String) -> (r: Update)
        ensures
            r.query@.kind == StatementKind::UpdateTable,
            r.query@.datasource == datasource,
            r.query@.table == table@,
            r.query@.sets.len() == 0,
            r.query@.wheres.len() == 0,
            r.query@.arguments.len() == 0,
            r.query@.balanced(),
    {
        Update { query: QueryBuilder::new(StatementKind::UpdateTable, datasource, table) }
    }

    /// Add one SET field with its bound value, fluently.
    pub fn set(self, f: &str, v: Value) -> (r: Update)
        ensures
            r.query@ == (QueryBuilderView {
                sets: self.query@.sets.push(f@ + " = ?"@),
                arguments: self.query@.arguments.push(v@),
                ..self.query@
            }),
    {
        let mut s = self;
        s.query.set(f, v);
        s
    }

    /// Add one SET field with its bound value, in place.
    pub fn set_ref(&mut self, f: &str, v: Value)
        ensures
            final(self).query@ == (QueryBuilderView {
                sets: old(self).query@.sets.push(f@ + " = ?"@),
                arguments: old(self).query@.arguments.push(v@),
                ..old(self).query@
            }),
    {
        self.query.set(f, v);
    }

    /// Compile to the final UPDATE text; an empty SET list is refused.
    pub fn build_sql(&self) -> (r: Result<String, DbError>)
        requires
            self.query@.kind == StatementKind::UpdateTable,
        ensures
            self.query@.table.len() == 0 ==> r == Result::<String, DbError>::Err(
                DbError::NoTableName,
            ),
            self.query@.table.len() > 0 && self.query@.sets.len() == 0 ==> r == Result::<
                String,
                DbError,
            >::Err(DbError::NoSetFields),
            self.query@.table.len() > 0 && self.query@.sets.len() > 0 ==> (r matches Ok(s) && s@
                == self.query@.spec_sql()),
    {
        self.query.build_sql()
    }
}

/// A DELETE in the making.
pub struct Delete {
    pub query: QueryBuilder,
}

impl Delete {
    /// A fresh DELETE from `table` on the given datasource.
    pub fn new(datasource: u64, table: String) -> (r: Delete)
        ensures
            r.query@.kind == StatementKind::DeleteFrom,
            r.query@.datasource == datasource,
            r.query@.table == table@,
            r.query@.wheres.len() == 0,
            r.query@.arguments.len() == 0,
            r.query@.balanced(),
    {
        Delete { query: QueryBuilder::new(StatementKind::DeleteFrom, datasource, table) }
    }

    /// Compile to the final DELETE text.
    pub fn build_sql(&self) -> (r: Result<String, DbError>)
        requires
            self.query@.kind == StatementKind::DeleteFrom,
        ensures
            self.query@.table.len() == 0 ==> r == Result::<String, DbError>::Err(
                DbError::NoTableName,
            ),
            self.query@.table.len() > 0 ==> (r matches Ok(s) && s@ == self.query@.spec_sql()),
    {
        self.query.build_sql()
    }
}

/// The verb an INSERT is issued with: a plain insert, an ignoring insert,
/// or a replacing insert.
#[derive(Clone, Copy, PartialEq, Eq, Structural)]
pub enum InsertVerb {
    Plain,
    Ignore,
    Replace,
}

pub open spec fn spec_insert_verb(v: InsertVerb) -> Seq<char> {
    match v {
        InsertVerb::Plain => "INSERT INTO "@,
        InsertVerb::Ignore => "INSERT IGNORE INTO "@,
        InsertVerb::Replace => "REPLACE INTO "@,
    }
}

/// An INSERT in the making: the target columns, the number of rows, and
/// the row values bound in declaration order, row by row.
pub struct Insert {
    pub query: QueryBuilder,
    pub columns: Vec<String>,
    pub verb: InsertVerb,
    pub size: usize,
}

impl Insert {
    pub open spec fn spec_rows_sql(self) -> Seq<char> {
        spec_insert_verb(self.verb) + self.query@.table + " ("@ + spec_join(
            self.columns@.map_values(|s: String| s@),
            ", "@,
        ) + ") VALUES "@ + spec_join(
            Seq::new(
                self.size as nat,
                |i: int| "("@ + spec_join(spec_qmarks(self.columns@.len() as nat), ", "@) + ")"@,
            ),
            ", "@,
        ) + ";"@
    }

    /// A fresh INSERT into `table` with the mapping's columns.
    pub fn new(datasource: u64, table: String, columns: Vec<String>) -> (r: Insert)
        ensures
            r.query@.kind == StatementKind::InsertInto,
            r.query@.datasource == datasource,
            r.query@.table == table@,
            r.query@.arguments.len() == 0,
            r.columns@ == columns@,
            r.verb == InsertVerb::Plain,
            r.size == 0,
    {
        Insert {
            query: QueryBuilder::new(StatementKind::InsertInto, datasource, table),
            columns,
            verb: InsertVerb::Plain,
            size: 0,
        }
    }

    /// One row: bind its values, in column order.
    pub fn insert(datasource: u64, table: String, columns: Vec<String>, row: &Vec<Value>) -> (r:
        Insert)
        requires
            row@.len() == columns@.len(),
        ensures
            r.query@.kind == StatementKind::InsertInto,
            r.query@.datasource == datasource,
            r.query@.table == table@,
            r.query@.arguments == row@.map_values(|v: Value| v@),
            r.columns@ == columns@,
            r.verb == InsertVerb::Plain,
            r.size == 1,
    {
        let mut t = Insert::new(datasource, table, columns);
        t.size = 1;
        let ghost a0 = t.query@.arguments;
        let mut j: usize = 0;
        while j < row.len()
            invariant
                0 <= j <= row@.len(),
                a0.len() == 0,
                t.query@.arguments == row@.map_values(|v: Value| v@).take(j as int),
                t.query@.kind == StatementKind::InsertInto,
                t.query@.datasource == datasource,
                t.query@.table == table@,
                t.columns@ == columns@,
                t.verb == InsertVerb::Plain,
                t.size == 1,
            decreases row@.len() - j,
        {
            t.query.add_arguments(row[j].clone_value());
            proof {
                assert(t.query@.arguments =~= row@.map_values(|v: Value| v@).take(j + 1));
            }
            j = j + 1;
        }
        proof {
            assert(row@.map_values(|v: Value| v@).take(row@.len() as int) =~= row@.map_values(
                |v: Value| v@,
            ));
        }
        t
    }

    /// Compile to the final INSERT text: the column list, then one
    /// placeholder row per bound row, under the chosen verb. An insert
    /// without a single row is refused.
    pub fn build_sql(&self) -> (r: Result<String, DbError>)
        ensures
            self.size == 0 ==> r == Result::<String, DbError>::Err(DbError::NoValues),
            self.size > 0 ==> (r matches Ok(s) && s@ == self.spec_rows_sql()),
    {
        if self.size == 0 {
            return Err(DbError::NoValues);
        }
        let verb = match self.verb {
            InsertVerb::Plain => "INSERT INTO ",
            InsertVerb::Ignore => "INSERT IGNORE INTO ",
            InsertVerb::Replace => "REPLACE INTO ",
        };
        let mut one_row = String::from_str("(");
        let mut phs: Vec<String> = Vec::new();
        let mut i: usize = 0;
        while i < self.columns.len()
            invariant
                0 <= i <= self.columns@.len(),
                phs@.map_values(|s: String| s@) == spec_qmarks(i as nat),
            decreases self.columns@.len() - i,
        {
            let ghost prev = phs@;
            let q = String::from_str("?");
            let ghost qv = q@;
            phs.push(q);
            proof {
                assert(qv == "?"@);
                assert(phs@.map_values(|s: String| s@) =~= prev.map_values(|s: String| s@).push(
                    qv,
                ));
                assert(prev.map_values(|s: String| s@).push(qv) =~= spec_qmarks((i + 1) as nat));
            }
            i = i + 1;
        }
        let row_text = one_row.concat(join_strs(&phs, ", ").as_str()).concat(")");
        let ghost rv = row_text@;
        proof {
            assert(rv =~= "("@ + spec_join(spec_qmarks(self.columns@.len() as nat), ", "@) + ")"@);
        }
        let mut rows: Vec<String> = Vec::new();
        let mut k: usize = 0;
        while k < self.size
            invariant
                0 <= k <= self.size,
                row_text@ == rv,
                rv == "("@ + spec_join(spec_qmarks(self.columns@.len() as nat), ", "@) + ")"@,
                rows@.map_values(|s: String| s@) == Seq::new(k as nat, |i: int| rv),
            decreases self.size - k,
        {
            let ghost prev = rows@;
            let item = row_text.clone();
            proof {
                assert(item@ == rv);
            }
            rows.push(item);
            proof {
                assert(rows@.map_values(|s: String| s@) =~= prev.map_values(|s: String| s@).push(
                    rv,
                ));
                assert(prev.map_values(|s: String| s@).push(rv) =~= Seq::new(
                    (k + 1) as nat,
                    |i: int| rv,
                ));
            }
            k = k + 1;
        }
        let sql = String::from_str(verb).concat(self.query.table.as_str()).concat(" (").concat(
            join_strs(&self.columns, ", ").as_str(),
        ).concat(") VALUES ").concat(join_strs(&rows, ", ").as_str()).concat(";");
        proof {
            assert(sql@ =~= self.spec_rows_sql());
        }
        Ok(sql)
    }
}

impl Insert {
    /// Several rows: bind each row's values, row by row, in column order.
    pub fn insert_bulk(datasource: u64, table: String, columns: Vec<String>, rows: &Vec<Vec<Value>>)
        -> (r: Insert)
        requires
            forall|i: int| 0 <= i < rows@.len() ==> (#[trigger] rows@[i])@.len() == columns@.len(),
        ensures
            r.query@.kind == StatementKind::InsertInto,
            r.query@.datasource == datasource,
            r.query@.table == table@,
            r.query@.arguments.len() == rows@.len() * columns@.len(),
            r.columns@ == columns@,
            r.verb == InsertVerb::Plain,
            r.size == rows@.len(),
    {
        let mut t = Insert::new(datasource, table, columns);
        t.size = rows.len();
        let mut i: usize = 0;
        while i < rows.len()
            invariant
                0 <= i <= rows@.len(),
                forall|k: int|
                    0 <= k < rows@.len() ==> (#[trigger] rows@[k])@.len() == t.columns@.len(),
                t.query@.arguments.len() == i * t.columns@.len(),
                t.query@.kind == StatementKind::InsertInto,
                t.query@.datasource == datasource,
                t.query@.table == table@,
                t.columns@ == columns@,
                t.verb == InsertVerb::Plain,
                t.size == rows@.len(),
            decreases rows@.len() - i,
        {
            let row = &rows[i];
            let ghost icount = i;
            let mut j: usize = 0;
            while j < row.len()
                invariant
                    0 <= j <= row@.len(),
                    i == icount,
                    row@.len() == t.columns@.len(),
                    t.query@.arguments.len() == i * t.columns@.len() + j,
                    t.query@.kind == StatementKind::InsertInto,
                    t.query@.datasource == datasource,
                    t.query@.table == table@,
                    t.columns@ == columns@,
                    t.verb == InsertVerb::Plain,
                    t.size == rows@.len(),
                decreases row@.len() - j,
            {
                t.query.add_arguments(row[j].clone_value());
                j = j + 1;
            }
            proof {
                assert((i + 1) * t.columns@.len() == i * t.columns@.len() + t.columns@.len())
                    by (nonlinear_arith);
            }
            i = i + 1;
        }
        t
    }

    /// Like [`Self::insert_bulk`], but conflicting rows are silently
    /// skipped: the statement is issued as `INSERT IGNORE INTO`.
    pub fn insert_ignore(
        datasource: u64,
        table: String,
        columns: Vec<String>,
        rows: &Vec<Vec<Value>>,
    ) -> (r: Insert)
        requires
            forall|i: int| 0 <= i < rows@.len() ==> (#[trigger] rows@[i])@.len() == columns@.len(),
        ensures
            r.query@.kind == StatementKind::InsertInto,
            r.query@.datasource == datasource,
            r.query@.table == table@,
            r.query@.arguments.len() == rows@.len() * columns@.len(),
            r.columns@ == columns@,
            r.verb == InsertVerb::Ignore,
            r.size == rows@.len(),
    {
        let mut t = Insert::insert_bulk(datasource, table, columns, rows);
        t.verb = InsertVerb::Ignore;
        t
    }

    /// Like [`Self::insert_bulk`], but conflicting rows are overwritten:
    /// the statement is issued as `REPLACE INTO`.
    pub fn insert_replace(
        datasource: u64,
        table: String,
        columns: Vec<String>,
        rows: &Vec<Vec<Value>>,
    ) -> (r: Insert)
        requires
            forall|i: int| 0 <= i < rows@.len() ==> (#[trigger] rows@[i])@.len() == columns@.len(),
        ensures
            r.query@.kind == StatementKind::InsertInto,
            r.query@.datasource == datasource,
            r.query@.table == table@,
            r.query@.arguments.len() == rows@.len() * columns@.len(),
            r.columns@ == columns@,
            r.verb == InsertVerb::Replace,
            r.size == rows@.len(),
    {
        let mut t = Insert::insert_bulk(datasource, table, columns, rows);
        t.verb = InsertVerb::Replace;
        t
    }
}

/// A constant sequence of fragments counts its element's characters once
/// per repetition.
pub proof fn lemma_count_items_repeat(n: nat, x: Seq<char>, c: char)
    ensures
        count_char_items(Seq::new(n, |i: int| x), c) == n * count_char(x, c),
    decreases n,
{
    if n == 0 {
        assert(Seq::new(0, |i: int| x).len() == 0);
    } else {
        lemma_count_items_repeat((n - 1) as nat, x, c);
        assert(Seq::new(n, |i: int| x).drop_last() =~= Seq::new((n - 1) as nat, |i: int| x));
        assert(Seq::new(n, |i: int| x).last() == x);
        assert(n * count_char(x, c) == (n - 1) * count_char(x, c) + count_char(x, c))
            by (nonlinear_arith);
    }
}

/// In the compiled INSERT of a statement whose caller-supplied texts are
/// free of placeholder tokens, the number of placeholder tokens equals the
/// number of bound rows times the number of columns: exactly the length of
/// the argument sequence the row constructors bind.
pub proof fn lemma_insert_placeholders_match_rows(ins: Insert)
    requires
        count_char_items(ins.columns@.map_values(|s: String| s@), '?') == 0,
        count_char(ins.query@.table, '?') == 0,
    ensures
        count_char(ins.spec_rows_sql(), '?') == ins.size * ins.columns@.len(),
{
    crate::builder::lemma_glue_zero();
    let m = ins.columns@.len();
    let row = "("@ + spec_join(spec_qmarks(m as nat), ", "@) + ")"@;
    crate::builder::lemma_qmarks_count(m as nat);
    lemma_count_char_join(spec_qmarks(m as nat), ", "@, '?');
    lemma_count_char_append("("@, spec_join(spec_qmarks(m as nat), ", "@), '?');
    lemma_count_char_append("("@ + spec_join(spec_qmarks(m as nat), ", "@), ")"@, '?');
    assert(count_char(row, '?') == m);
    lemma_count_items_repeat(ins.size as nat, row, '?');
    lemma_count_char_join(Seq::new(ins.size as nat, |i: int| row), ", "@, '?');
    lemma_count_char_join(ins.columns@.map_values(|s: String| s@), ", "@, '?');
    let verb = spec_insert_verb(ins.verb);
    reveal_strlit("INSERT INTO ");
    reveal_strlit("INSERT IGNORE INTO ");
    reveal_strlit("REPLACE INTO ");
    lemma_count_char_zero("INSERT INTO "@, '?');
    lemma_count_char_zero("INSERT IGNORE INTO "@, '?');
    lemma_count_char_zero("REPLACE INTO "@, '?');
    assert(count_char(verb, '?') == 0);
    let a = verb + ins.query@.table;
    let b = a + " ("@;
    let c = b + spec_join(ins.columns@.map_values(|s: String| s@), ", "@);
    let d = c + ") VALUES "@;
    let e = d + spec_join(Seq::new(ins.size as nat, |i: int| row), ", "@);
    lemma_count_char_append(verb, ins.query@.table, '?');
    lemma_count_char_append(a, " ("@, '?');
    lemma_count_char_append(b, spec_join(ins.columns@.map_values(|s: String| s@), ", "@), '?');
    lemma_count_char_append(c, ") VALUES "@, '?');
    lemma_count_char_append(d, spec_join(Seq::new(ins.size as nat, |i: int| row), ", "@), '?');
    lemma_count_char_append(e, ";"@, '?');
}

/// An insert-or-update in the making: an INSERT whose conflicting rows
/// update the named fields from the incoming row.
pub struct InsertUpdate {
    pub insert: Insert,
    pub fields: Vec<String>,
}

impl InsertUpdate {
    /// The compiled statement: the INSERT without its terminator, then the
    /// conflict clause updating each named field from the incoming row.
    pub open spec fn spec_insert_update_sql(self) -> Seq<char> {
        self.insert.spec_rows_sql().drop_last() + " AS new ON DUPLICATE KEY UPDATE "@ + spec_join(
            self.fields@.map_values(|f: String| f@ + " = new."@ + f@),
            ", "@,
        ) + ";"@
    }

    /// A fresh insert-or-update into `table`, with no update fields named
    /// yet.
    pub fn insert_update(datasource: u64, table: String, columns: Vec<String>, row: &Vec<Value>)
        -> (r: InsertUpdate)
        requires
            row@.len() == columns@.len(),
        ensures
            r.insert.query@.kind == StatementKind::InsertInto,
            r.insert.query@.datasource == datasource,
            r.insert.query@.table == table@,
            r.insert.query@.arguments == row@.map_values(|v: Value| v@),
            r.insert.columns@ == columns@,
            r.insert.size == 1,
            r.fields@.len() == 0,
    {
        InsertUpdate { insert: Insert::insert(datasource, table, columns, row), fields: Vec::new() }
    }

    /// A fresh insert-or-update of several rows into `table`, with no
    /// update fields named yet.
    pub fn insert_update_bulk(
        datasource: u64,
        table: String,
        columns: Vec<String>,
        rows: &Vec<Vec<Value>>,
    ) -> (r: InsertUpdate)
        requires
            forall|i: int| 0 <= i < rows@.len() ==> (#[trigger] rows@[i])@.len() == columns@.len(),
        ensures
            r.insert.query@.kind == StatementKind::InsertInto,
            r.insert.query@.datasource == datasource,
            r.insert.query@.table == table@,
            r.insert.query@.arguments.len() == rows@.len() * columns@.len(),
            r.insert.columns@ == columns@,
            r.insert.size == rows@.len(),
            r.fields@.len() == 0,
    {
        InsertUpdate {
            insert: Insert::insert_bulk(datasource, table, columns, rows),
            fields: Vec::new(),
        }
    }

    /// Name one field to update on conflict, fluently.
    pub fn field(self, f: &str) -> (r: InsertUpdate)
        ensures
            r.insert == self.insert,
            r.fields@.map_values(|s: String| s@) == self.fields@.map_values(|s: String| s@).push(
                f@,
            ),
    {
        let mut s = self;
        s.field_ref(f);
        s
    }

    /// Name one field to update on conflict, in place.
    pub fn field_ref(&mut self, f: &str)
        ensures
            final(self).insert == old(self).insert,
            final(self).fields@.map_values(|s: String| s@) == old(self).fields@.map_values(
                |s: String| s@,
            ).push(f@),
    {
        let ghost prev = self.fields@;
        self.fields.push(String::from_str(f));
        proof {
            assert(self.fields@.map_values(|s: String| s@) =~= prev.map_values(|s: String| s@)
                .push(f@));
        }
    }

    /// Name several fields to update on conflict, fluently.
    pub fn fields(self, fs: &Vec<String>) -> (r: InsertUpdate)
        ensures
            r.insert == self.insert,
            r.fields@.map_values(|s: String| s@) == self.fields@.map_values(|s: String| s@)
                + fs@.map_values(|s: String| s@),
    {
        let mut s = self;
        s.fields_ref(fs);
        s
    }

    /// Name several fields to update on conflict, in place.
    pub fn fields_ref(&mut self, fs: &Vec<String>)
        ensures
            final(self).insert == old(self).insert,
            final(self).fields@.map_values(|s: String| s@) == old(self).fields@.map_values(
                |s: String| s@,
            ) + fs@.map_values(|s: String| s@),
    {
        let ghost f0 = self.fields@.map_values(|s: String| s@);
        proof {
            assert(f0 + fs@.map_values(|s: String| s@).take(0) =~= f0);
        }
        let mut i: usize = 0;
        while i < fs.len()
            invariant
                0 <= i <= fs@.len(),
                self.insert == old(self).insert,
                f0 == old(self).fields@.map_values(|s: String| s@),
                self.fields@.map_values(|s: String| s@) == f0 + fs@.map_values(
                    |s: String| s@,
                ).take(i as int),
            decreases fs@.len() - i,
        {
            let ghost prev = self.fields@;
            self.fields.push(fs[i].clone());
            proof {
                assert(self.fields@.map_values(|s: String| s@) =~= prev.map_values(|s: String| s@)
                    .push(fs@.map_values(|s: String| s@)[i as int]));
                assert(self.fields@.map_values(|s: String| s@) =~= f0 + fs@.map_values(
                    |s: String| s@,
                ).take(i + 1));
            }
            i = i + 1;
        }
        proof {
            assert(fs@.map_values(|s: String| s@).take(fs@.len() as int) =~= fs@.map_values(
                |s: String| s@,
            ));
        }
    }

    /// Compile to the final insert-or-update text. An empty update-field
    /// list fails fast, before any round trip could be attempted.
    pub fn build_sql(&self) -> (r: Result<String, DbError>)
        ensures
            self.fields@.len() == 0 ==> r == Result::<String, DbError>::Err(
                DbError::EmptyUpdateFields,
            ),
            self.fields@.len() > 0 && self.insert.size == 0 ==> r == Result::<String, DbError>::Err(
                DbError::NoValues,
            ),
            self.fields@.len() > 0 && self.insert.size > 0 ==> (r matches Ok(s) && s@
                == self.spec_insert_update_sql()),
    {
        if self.fields.len() == 0 {
            return Err(DbError::EmptyUpdateFields);
        }
        let insert_sql = match self.insert.build_sql() {
            Ok(s) => s,
            Err(e) => {
                return Err(e);
            },
        };
        let mut items: Vec<String> = Vec::new();
        let mut i: usize = 0;
        while i < self.fields.len()
            invariant
                0 <= i <= self.fields@.len(),
                items@.map_values(|s: String| s@) == self.fields@.map_values(|s: String| s@).map_values(
                    |f: Seq<char>| f + " = new."@ + f,
                ).take(i as int),
            decreases self.fields@.len() - i,
        {
            let ghost prev = items@;
            let f = &self.fields[i];
            let item = f.clone().concat(" = new.").concat(f.as_str());
            let ghost iv = item@;
            items.push(item);
            proof {
                assert(items@.map_values(|s: String| s@) =~= prev.map_values(|s: String| s@).push(
                    iv,
                ));
                assert(prev.map_values(|s: String| s@).push(iv) =~= self.fields@.map_values(
                    |s: String| s@,
                ).map_values(|f: Seq<char>| f + " = new."@ + f).take(i + 1));
            }
            i = i + 1;
        }
        proof {
            let m = self.fields@.map_values(|s: String| s@).map_values(
                |f: Seq<char>| f + " = new."@ + f,
            );
            assert(m.take(self.fields@.len() as int) =~= m);
        }
        let ghost isv = insert_sql@;
        proof {
            reveal_strlit(";");
            assert(isv.len() > 0);
        }
        let n = insert_sql.as_str().unicode_len();
        let trimmed = insert_sql.as_str().substring_char(0, n - 1);
        proof {
            assert(trimmed@ =~= isv.drop_last());
        }
        let sql = String::from_str(trimmed).concat(" AS new ON DUPLICATE KEY UPDATE ").concat(
            join_strs(&items, ", ").as_str(),
        ).concat(";");
        proof {
            assert(self.fields@.map_values(|s: String| s@).map_values(
                |f: Seq<char>| f + " = new."@ + f,
            ) =~= self.fields@.map_values(|f: String| f@ + " = new."@ + f@));
            assert(sql@ =~= self.spec_insert_update_sql());
        }
        Ok(sql)
    }
}

} // verus!
