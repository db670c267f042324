//! The insert path: the INSERT statement over the insertable fields, and
//! the dialect's strategy for recovering database-generated values. MySQL
//! executes the insert and then queries the generated id and the remaining
//! default fields; Postgres appends a RETURNING clause and completes in a
//! single round trip.

use vstd::prelude::*;
use crate::attrs::GenError;
use crate::backend::Backend;
use crate::table::{FieldView, Table, TableView, idx_default, idx_insertable};
use crate::strutil::{join_comma, spec_join};

verus! {

/// The column list of the INSERT statement: the insertable fields' column
/// references, in declaration order.
pub open spec fn spec_insert_columns(fields: Seq<FieldView>, b: Backend) -> Seq<Seq<char>>
    decreases fields.len(),
{
    if fields.len() == 0 {
        Seq::empty()
    } else {
        spec_insert_columns(fields.drop_last(), b) + (if !fields.last().has_default {
            seq![fields.last().spec_column(b)]
        } else {
            Seq::empty()
        })
    }
}

/// The VALUES list of the INSERT statement: one placeholder per insertable
/// field, numbered in declaration order.
pub open spec fn spec_insert_placeholders(fields: Seq<FieldView>, b: Backend) -> Seq<Seq<char>>
    decreases fields.len(),
{
    if fields.len() == 0 {
        Seq::empty()
    } else {
        spec_insert_placeholders(fields.drop_last(), b) + (if !fields.last().has_default {
            seq![b.spec_placeholder((idx_insertable(fields.drop_last()).len() + 1) as nat)]
        } else {
            Seq::empty()
        })
    }
}

/// The select renderings of the database-defaulted fields, in declaration
/// order: what a RETURNING clause names.
pub open spec fn spec_returning_items(fields: Seq<FieldView>, b: Backend) -> Seq<Seq<char>>
    decreases fields.len(),
{
    if fields.len() == 0 {
        Seq::empty()
    } else {
        spec_returning_items(fields.drop_last(), b) + (if fields.last().has_default {
            seq![fields.last().spec_fmt_for_select(b)]
        } else {
            Seq::empty()
        })
    }
}

/// The select renderings of the database-defaulted fields other than the
/// id, in declaration order: what the follow-up query fetches.
pub open spec fn spec_default_except_id_items(
    fields: Seq<FieldView>,
    id: int,
    b: Backend,
) -> Seq<Seq<char>>
    decreases fields.len(),
{
    if fields.len() == 0 {
        Seq::empty()
    } else {
        spec_default_except_id_items(fields.drop_last(), id, b) + (if fields.last().has_default
            && fields.len() - 1 != id {
            seq![fields.last().spec_fmt_for_select(b)]
        } else {
            Seq::empty()
        })
    }
}

impl TableView {
    /// The plain INSERT statement over the insertable fields.
    pub open spec fn spec_insert_sql(self, b: Backend) -> Seq<char> {
        "INSERT INTO "@ + self.table + " ("@ + spec_join(spec_insert_columns(self.fields, b), ", "@)
            + ") VALUES ("@ + spec_join(spec_insert_placeholders(self.fields, b), ", "@) + ")"@
    }

    /// The INSERT statement with a RETURNING clause naming every
    /// database-defaulted field, or the plain INSERT when there is none.
    pub open spec fn spec_insert_sql_returning(self, b: Backend) -> Seq<char> {
        if spec_returning_items(self.fields, b).len() == 0 {
            self.spec_insert_sql(b)
        } else {
            self.spec_insert_sql(b) + " RETURNING "@ + spec_join(
                spec_returning_items(self.fields, b),
                ", "@,
            )
        }
    }

    /// The follow-up query that fetches the database-defaulted fields other
    /// than the id after an insert.
    pub open spec fn spec_query_default_sql(self, b: Backend) -> Seq<char> {
        "SELECT "@ + spec_join(spec_default_except_id_items(self.fields, self.id.unwrap(), b), ", "@)
            + " FROM "@ + self.table + " WHERE "@ + self.id_field().spec_column(b) + " = "@
            + b.spec_placeholder(1)
    }
}

/// How an insert recovers database-generated values once the row is in.
pub enum InsertPlan {
    /// Execute the insert, then run `id_query` to learn a database-generated
    /// id (absent when the caller supplies the id), then run `default_query`
    /// to fetch the other defaulted fields (absent when there are none).
    FollowUp { insert_sql: String, id_query: Option<String>, default_query: Option<String> },
    /// Execute the single statement; `fetch_row` says whether it returns a
    /// row of generated values (it does exactly when a RETURNING clause was
    /// appended). The full entity is then assembled by
    /// [`crate::table::Table::construct_row_returning`] from the caller's
    /// values and that row.
    Returning { insert_sql: String, fetch_row: bool },
}

impl Table {
    /// The column list of the INSERT statement.
    pub fn insert_columns(&self, b: &Backend) -> (r: Vec<String>)
        ensures
            r@.map_values(|s: String| s@) == spec_insert_columns(self@.fields, *b),
    {
        let mut r: Vec<String> = Vec::new();
        let mut i: usize = 0;
        while i < self.fields.len()
            invariant
                0 <= i <= self.fields.len(),
                r@.map_values(|s: String| s@) == spec_insert_columns(
                    self@.fields.take(i as int),
                    *b,
                ),
            decreases self.fields.len() - i,
        {
            proof {
                assert(self@.fields.take(i + 1).drop_last() =~= self@.fields.take(i as int));
                assert(self@.fields.take(i + 1).last() == self@.fields[i as int]);
            }
            if !self.fields[i].has_default {
                let ghost prev = r@;
                let item = self.fields[i].column(b);
                r.push(item);
                proof {
                    assert(r@.map_values(|s: String| s@) =~= prev.map_values(|s: String| s@)
                        + seq![self@.fields[i as int].spec_column(*b)]);
                }
            }
            i = i + 1;
        }
        proof {
            assert(self@.fields.take(self.fields@.len() as int) =~= self@.fields);
        }
        r
    }

    /// The VALUES placeholder list of the INSERT statement.
    pub fn insert_placeholders(&self, b: &Backend) -> (r: Vec<String>)
        ensures
            r@.map_values(|s: String| s@) == spec_insert_placeholders(self@.fields, *b),
    {
        let mut r: Vec<String> = Vec::new();
        let mut k: u64 = 0;
        let mut i: usize = 0;
        while i < self.fields.len()
            invariant
                0 <= i <= self.fields.len(),
                k == idx_insertable(self@.fields.take(i as int)).len(),
                r@.map_values(|s: String| s@) == spec_insert_placeholders(
                    self@.fields.take(i as int),
                    *b,
                ),
            decreases self.fields.len() - i,
        {
            proof {
                assert(self@.fields.take(i + 1).drop_last() =~= self@.fields.take(i as int));
                assert(self@.fields.take(i + 1).last() == self@.fields[i as int]);
                crate::table::lemma_idx_insertable_len(self@.fields.take(i as int));
            }
            if !self.fields[i].has_default {
                let ghost prev = r@;
                let item = b.placeholder(k + 1);
                r.push(item);
                k = k + 1;
                proof {
                    assert(r@.map_values(|s: String| s@) =~= prev.map_values(|s: String| s@)
                        + seq![
                        b.spec_placeholder(
                            (idx_insertable(self@.fields.take(i as int)).len() + 1) as nat,
                        ),
                    ]);
                }
            }
            i = i + 1;
        }
        proof {
            assert(self@.fields.take(self.fields@.len() as int) =~= self@.fields);
        }
        r
    }

    /// The plain INSERT statement over the insertable fields.
    pub fn insert_sql(&self, b: &Backend) -> (r: String)
        ensures
            r@ == self@.spec_insert_sql(*b),
    {
        let cols = self.insert_columns(b);
        let phs = self.insert_placeholders(b);
        let r = String::from_str("INSERT INTO ").concat(self.table.as_str()).concat(" (").concat(
            join_comma(&cols).as_str(),
        ).concat(") VALUES (").concat(join_comma(&phs).as_str()).concat(")");
        proof {
            assert(r@ =~= self@.spec_insert_sql(*b));
        }
        r
    }

    /// The RETURNING items: every database-defaulted field's select
    /// rendering.
    pub fn returning_items(&self, b: &Backend) -> (r: Vec<String>)
        ensures
            r@.map_values(|s: String| s@) == spec_returning_items(self@.fields, *b),
    {
        let mut r: Vec<String> = Vec::new();
        let mut i: usize = 0;
        while i < self.fields.len()
            invariant
                0 <= i <= self.fields.len(),
                r@.map_values(|s: String| s@) == spec_returning_items(
                    self@.fields.take(i as int),
                    *b,
                ),
            decreases self.fields.len() - i,
        {
            proof {
                assert(self@.fields.take(i + 1).drop_last() =~= self@.fields.take(i as int));
                assert(self@.fields.take(i + 1).last() == self@.fields[i as int]);
            }
            if self.fields[i].has_default {
                let ghost prev = r@;
                let item = self.fields[i].fmt_for_select(b);
                r.push(item);
                proof {
                    assert(r@.map_values(|s: String| s@) =~= prev.map_values(|s: String| s@)
                        + seq![self@.fields[i as int].spec_fmt_for_select(*b)]);
                }
            }
            i = i + 1;
        }
        proof {
            assert(self@.fields.take(self.fields@.len() as int) =~= self@.fields);
        }
        r
    }

    /// The id-recovery query of the follow-up strategy: present exactly when
    /// the id is database-generated.
    pub fn query_id_sql(&self) -> (r: Option<String>)
        requires
            self@.is_idable(),
        ensures
            r is Some <==> self@.id_field().has_default,
            r matches Some(s) ==> s@ == "SELECT LAST_INSERT_ID() AS id"@,
    {
        let id = self.id.unwrap();
        if self.fields[id].has_default {
            Some(String::from_str("SELECT LAST_INSERT_ID() AS id"))
        } else {
            None
        }
    }

    /// The follow-up query fetching the non-id defaulted fields: present
    /// exactly when there are any.
    pub fn query_default_sql(&self, b: &Backend) -> (r: Option<String>)
        requires
            self@.is_idable(),
        ensures
            r is Some <==> spec_default_except_id_items(
                self@.fields,
                self@.id.unwrap(),
                *b,
            ).len() > 0,
            r matches Some(s) ==> s@ == self@.spec_query_default_sql(*b),
    {
        let id = self.id.unwrap();
        let ghost idi = id as int;
        let mut items: Vec<String> = Vec::new();
        let mut i: usize = 0;
        while i < self.fields.len()
            invariant
                0 <= i <= self.fields.len(),
                self@.is_idable(),
                id == self@.id.unwrap(),
                idi == id as int,
                items@.map_values(|s: String| s@) == spec_default_except_id_items(
                    self@.fields.take(i as int),
                    idi,
                    *b,
                ),
            decreases self.fields.len() - i,
        {
            proof {
                assert(self@.fields.take(i + 1).drop_last() =~= self@.fields.take(i as int));
                assert(self@.fields.take(i + 1).last() == self@.fields[i as int]);
            }
            if self.fields[i].has_default && i != id {
                let ghost prev = items@;
                let item = self.fields[i].fmt_for_select(b);
                items.push(item);
                proof {
                    assert(items@.map_values(|s: String| s@) =~= prev.map_values(|s: String| s@)
                        + seq![self@.fields[i as int].spec_fmt_for_select(*b)]);
                }
            }
            i = i + 1;
        }
        proof {
            assert(self@.fields.take(self.fields@.len() as int) =~= self@.fields);
        }
        if items.len() == 0 {
            return None;
        }
        let r = String::from_str("SELECT ").concat(join_comma(&items).as_str()).concat(
            " FROM ",
        ).concat(self.table.as_str()).concat(" WHERE ").concat(
            self.fields[id].column(b).as_str(),
        ).concat(" = ").concat(b.placeholder(1).as_str());
        proof {
            assert(r@ =~= self@.spec_query_default_sql(*b));
        }
        Some(r)
    }

    /// The insert plan of the active dialect: nothing when the declaration
    /// has no insertable companion; the follow-up strategy for MySQL; the
    /// RETURNING strategy for Postgres. SQLite has no insert strategy in
    /// this generator and is refused.
    pub fn impl_insert(&self, b: &Backend) -> (r: Result<Option<InsertPlan>, GenError>)
        requires
            *b == Backend::MySql ==> self@.is_idable(),
        ensures
            self@.insertable is None ==> (r matches Ok(p) && p is None),
            self@.insertable is Some && *b == Backend::Sqlite ==> r == Result::<
                Option<InsertPlan>,
                GenError,
            >::Err(GenError::UnsupportedBackend),
            self@.insertable is Some && *b == Backend::MySql ==> (r matches Ok(p)
                && p matches Some(plan) && plan matches InsertPlan::FollowUp {
                insert_sql,
                id_query,
                default_query,
            } && {
                &&& insert_sql@ == self@.spec_insert_sql(*b)
                &&& (id_query is Some <==> self@.id_field().has_default)
                &&& (id_query matches Some(q) ==> q@ == "SELECT LAST_INSERT_ID() AS id"@)
                &&& (default_query is Some <==> spec_default_except_id_items(
                    self@.fields,
                    self@.id.unwrap(),
                    *b,
                ).len() > 0)
                &&& (default_query matches Some(q) ==> q@ == self@.spec_query_default_sql(*b))
            }),
            self@.insertable is Some && *b == Backend::Postgres ==> (r matches Ok(p)
                && p matches Some(plan) && plan matches InsertPlan::Returning {
                insert_sql,
                fetch_row,
            } && {
                &&& insert_sql@ == self@.spec_insert_sql_returning(*b)
                &&& fetch_row == (spec_returning_items(self@.fields, *b).len() > 0)
            }),
    {
        if self.insertable.is_none() {
            return Ok(None);
        }
        match b {
            Backend::Sqlite => Err(GenError::UnsupportedBackend),
            Backend::MySql => Ok(
                Some(
                    InsertPlan::FollowUp {
                        insert_sql: self.insert_sql(b),
                        id_query: self.query_id_sql(),
                        default_query: self.query_default_sql(b),
                    },
                ),
            ),
            Backend::Postgres => {
                let base = self.insert_sql(b);
                let ret = self.returning_items(b);
                if ret.len() == 0 {
                    Ok(Some(InsertPlan::Returning { insert_sql: base, fetch_row: false }))
                } else {
                    let sql = base.concat(" RETURNING ").concat(join_comma(&ret).as_str());
                    proof {
                        assert(sql@ =~= self@.spec_insert_sql_returning(*b));
                    }
                    Ok(Some(InsertPlan::Returning { insert_sql: sql, fetch_row: true }))
                }
            },
        }
    }
}

} // verus!
