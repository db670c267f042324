//! The fluent query builder's core: an accumulating SQL-fragment buffer
//! paired with an ordered list of bound values. Every value-bearing
//! predicate appends its placeholders to the buffer and its values to the
//! argument list in lock-step; compiling to final SQL text happens once, on
//! execution.

use vstd::prelude::*;
use crate::error::DbError;
use crate::model::{Value, ValueView};
use crate::strutil::{
    count_char, count_char_items, esc, join_comma, join_strs, lemma_count_char_append,
    lemma_count_char_join, lemma_count_char_singleton, lemma_count_char_zero, spec_esc, spec_join,
    u64_dec, spec_dec,
};

verus! {

#[derive(Clone, Copy, PartialEq, Eq, Structural)]
pub enum StatementKind {
    SelectFrom,
    UpdateTable,
    InsertInto,
    DeleteFrom,
}

pub struct QueryBuilder {
    pub kind: StatementKind,
    pub datasource: u64,
    pub table: String,
    pub fields: Vec<String>,
    pub sets: Vec<String>,
    pub values_rows: Vec<String>,
    pub group_by: Vec<String>,
    pub having: Option<String>,
    pub wheres: Vec<String>,
    pub order_by: Vec<String>,
    pub limit: Option<String>,
    pub offset: Option<String>,
    pub arguments: Vec<Value>,
}

pub ghost struct QueryBuilderView {
    pub kind: StatementKind,
    pub datasource: u64,
    pub table: Seq<char>,
    pub fields: Seq<Seq<char>>,
    pub sets: Seq<Seq<char>>,
    pub values_rows: Seq<Seq<char>>,
    pub group_by: Seq<Seq<char>>,
    pub having: Option<Seq<char>>,
    pub wheres: Seq<Seq<char>>,
    pub order_by: Seq<Seq<char>>,
    pub limit: Option<Seq<char>>,
    pub offset: Option<Seq<char>>,
    pub arguments: Seq<ValueView>,
}

impl View for QueryBuilder {
    type V = QueryBuilderView;

    open spec fn view(&self) -> QueryBuilderView {
        QueryBuilderView {
            kind: self.kind,
            datasource: self.datasource,
            table: self.table@,
            fields: self.fields@.map_values(|s: String| s@),
            sets: self.sets@.map_values(|s: String| s@),
            values_rows: self.values_rows@.map_values(|s: String| s@),
            group_by: self.group_by@.map_values(|s: String| s@),
            having: match self.having {
                Some(h) => Some(h@),
                None => None,
            },
            wheres: self.wheres@.map_values(|s: String| s@),
            order_by: self.order_by@.map_values(|s: String| s@),
            limit: match self.limit {
                Some(l) => Some(l@),
                None => None,
            },
            offset: match self.offset {
                Some(o) => Some(o@),
                None => None,
            },
            arguments: self.arguments@.map_values(|v: Value| v@),
        }
    }
}

/// Each condition wrapped in parentheses, as a multi-condition WHERE part
/// renders them.
pub open spec fn spec_parenthesize(ws: Seq<Seq<char>>) -> Seq<Seq<char>> {
    ws.map_values(|w: Seq<char>| "("@ + w + ")"@)
}

/// The WHERE part: empty for no conditions, the single condition bare, or
/// the parenthesized conditions joined with AND.
pub open spec fn spec_make_wheres(ws: Seq<Seq<char>>) -> Seq<char> {
    if ws.len() == 0 {
        Seq::empty()
    } else if ws.len() == 1 {
        " WHERE "@ + ws[0]
    } else {
        " WHERE "@ + spec_join(spec_parenthesize(ws), " AND "@)
    }
}

impl QueryBuilderView {
    pub open spec fn spec_fields_part(self) -> Seq<char> {
        if self.fields.len() == 0 {
            "*"@
        } else {
            spec_join(self.fields, ", "@)
        }
    }

    pub open spec fn spec_group_part(self) -> Seq<char> {
        if self.group_by.len() == 0 {
            Seq::empty()
        } else {
            " GROUP BY "@ + spec_join(self.group_by, ", "@) + (match self.having {
                Some(h) => " HAVING "@ + h,
                None => Seq::empty(),
            })
        }
    }

    pub open spec fn spec_order_part(self) -> Seq<char> {
        if self.order_by.len() == 0 {
            Seq::empty()
        } else {
            " ORDER BY "@ + spec_join(self.order_by, ", "@)
        }
    }

    pub open spec fn spec_limit_part(self) -> Seq<char> {
        match self.limit {
            Some(l) => " LIMIT "@ + l,
            None => Seq::empty(),
        }
    }

    pub open spec fn spec_offset_part(self) -> Seq<char> {
        match self.offset {
            Some(o) => " OFFSET "@ + o,
            None => Seq::empty(),
        }
    }

    pub open spec fn spec_select_sql(self) -> Seq<char> {
        "SELECT "@ + self.spec_fields_part() + " FROM "@ + self.table + spec_make_wheres(
            self.wheres,
        ) + self.spec_group_part() + self.spec_order_part() + self.spec_limit_part()
            + self.spec_offset_part() + ";"@
    }

    pub open spec fn spec_update_sql(self) -> Seq<char> {
        "UPDATE "@ + self.table + " SET "@ + spec_join(self.sets, ", "@) + spec_make_wheres(
            self.wheres,
        ) + ";"@
    }

    pub open spec fn spec_insert_sql(self) -> Seq<char> {
        "INSERT INTO "@ + self.table + " ("@ + spec_join(self.fields, ", "@) + ") VALUES "@
            + spec_join(self.values_rows, ", "@) + ";"@
    }

    pub open spec fn spec_delete_sql(self) -> Seq<char> {
        "DELETE FROM "@ + self.table + spec_make_wheres(self.wheres) + ";"@
    }

    /// The compiled SQL of this builder's statement kind.
    pub open spec fn spec_sql(self) -> Seq<char> {
        match self.kind {
            StatementKind::SelectFrom => self.spec_select_sql(),
            StatementKind::UpdateTable => self.spec_update_sql(),
            StatementKind::InsertInto => self.spec_insert_sql(),
            StatementKind::DeleteFrom => self.spec_delete_sql(),
        }
    }

    /// The placeholder tokens the argument-bearing fragments of this
    /// statement kind contribute to the compiled SQL.
    pub open spec fn args_qcount(self) -> nat {
        match self.kind {
            StatementKind::SelectFrom => count_char_items(self.wheres, '?'),
            StatementKind::UpdateTable => count_char_items(self.sets, '?') + count_char_items(
                self.wheres,
                '?',
            ),
            StatementKind::InsertInto => count_char_items(self.values_rows, '?'),
            StatementKind::DeleteFrom => count_char_items(self.wheres, '?'),
        }
    }

    /// The lock-step invariant: every placeholder appended to the fragment
    /// buffer has exactly one argument appended alongside, in order.
    pub open spec fn balanced(self) -> bool {
        self.args_qcount() == self.arguments.len()
    }

    /// No caller-supplied text outside the argument-bearing fragments holds
    /// a placeholder token.
    pub open spec fn clean(self) -> bool {
        &&& count_char(self.table, '?') == 0
        &&& count_char_items(self.fields, '?') == 0
        &&& count_char_items(self.group_by, '?') == 0
        &&& count_char_items(self.order_by, '?') == 0
        &&& (self.having matches Some(h) ==> count_char(h, '?') == 0)
        &&& (self.limit matches Some(l) ==> count_char(l, '?') == 0)
        &&& (self.offset matches Some(o) ==> count_char(o, '?') == 0)
    }
}

impl QueryBuilder {
    /// A fresh builder of the given kind, targeting `table` on the given
    /// datasource: no fragments, no arguments.
    pub fn new(kind: StatementKind, datasource: u64, table: String) -> (r: QueryBuilder)
        ensures
            r@.kind == kind,
            r@.datasource == datasource,
            r@.table == table@,
            r@.fields.len() == 0,
            r@.sets.len() == 0,
            r@.values_rows.len() == 0,
            r@.group_by.len() == 0,
            r@.having is None,
            r@.wheres.len() == 0,
            r@.order_by.len() == 0,
            r@.limit is None,
            r@.offset is None,
            r@.arguments.len() == 0,
            r@.balanced(),
    {
        let r = QueryBuilder {
            kind,
            datasource,
            table,
            fields: Vec::new(),
            sets: Vec::new(),
            values_rows: Vec::new(),
            group_by: Vec::new(),
            having: None,
            wheres: Vec::new(),
            order_by: Vec::new(),
            limit: None,
            offset: None,
            arguments: Vec::new(),
        };
        r
    }
}

/// Escaping only doubles quotes, so it never changes the count of any
/// other character.
pub proof fn lemma_esc_count(s: Seq<char>, c: char)
    requires
        c != '\'',
    ensures
        count_char(spec_esc(s), c) == count_char(s, c),
    decreases s.len(),
{
    if s.len() > 0 {
        lemma_esc_count(s.drop_last(), c);
        if s.last() == '\'' {
            lemma_count_char_append(spec_esc(s.drop_last()), seq!['\'', '\''], c);
            assert(seq!['\'', '\''].drop_last() =~= seq!['\'']);
            lemma_count_char_singleton('\'', c);
        } else {
            lemma_count_char_append(spec_esc(s.drop_last()), seq![s.last()], c);
            lemma_count_char_singleton(s.last(), c);
        }
    }
}

impl QueryBuilder {
    /// Append one condition with AND conjunction.
    fn push_and_where(&mut self, cond: String)
        ensures
            final(self)@ == (QueryBuilderView {
                wheres: old(self)@.wheres.push(cond@),
                ..old(self)@
            }),
            count_char_items(final(self)@.wheres, '?') == count_char_items(old(self)@.wheres, '?')
                + count_char(cond@, '?'),
    {
        let ghost pre = self@.wheres;
        let ghost cv = cond@;
        self.wheres.push(cond);
        proof {
            assert(self@.wheres =~= pre.push(cv));
            assert(self@.wheres.drop_last() =~= pre);
            assert(final(self)@ == (QueryBuilderView {
                wheres: old(self)@.wheres.push(cv),
                ..old(self)@
            }));
        }
    }

    /// Attach one condition to the last WHERE condition with OR, or open
    /// the WHERE list with it when there is none yet.
    fn push_or_where(&mut self, cond: String)
        ensures
            old(self)@.wheres.len() == 0 ==> final(self)@ == (QueryBuilderView {
                wheres: old(self)@.wheres.push(cond@),
                ..old(self)@
            }),
            old(self)@.wheres.len() > 0 ==> final(self)@ == (QueryBuilderView {
                wheres: old(self)@.wheres.drop_last().push(
                    old(self)@.wheres.last() + " OR "@ + cond@,
                ),
                ..old(self)@
            }),
            count_char_items(final(self)@.wheres, '?') == count_char_items(old(self)@.wheres, '?')
                + count_char(cond@, '?'),
    {
        let ghost pre = self@.wheres;
        let ghost cv = cond@;
        if self.wheres.len() == 0 {
            self.wheres.push(cond);
            proof {
                assert(self@.wheres =~= pre.push(cv));
                assert(self@.wheres.drop_last() =~= pre);
            }
        } else {
            let last = self.wheres.pop().unwrap();
            let ghost lv = last@;
            let glued = last.concat(" OR ").concat(cond.as_str());
            proof {
                reveal_strlit(" OR ");
                lemma_count_char_zero(" OR "@, '?');
                lemma_count_char_append(lv, " OR "@, '?');
                lemma_count_char_append(lv + " OR "@, cv, '?');
            }
            let ghost gv = glued@;
            self.wheres.push(glued);
            proof {
                assert(self@.wheres =~= pre.drop_last().push(gv));
                assert(self@.wheres.drop_last() =~= pre.drop_last());
                assert(gv == pre.last() + " OR "@ + cv);
                assert(count_char_items(pre, '?') == count_char_items(pre.drop_last(), '?')
                    + count_char(pre.last(), '?'));
            }
        }
    }

    /// Append one comparison condition `field <op> ?` and its bound value,
    /// in lock-step. `op` carries the one placeholder of the condition.
    fn and_where_cmp(&mut self, f: &str, op: &'static str, v: Value)
        requires
            count_char(op@, '?') == 1,
        ensures
            final(self)@ == (QueryBuilderView {
                wheres: old(self)@.wheres.push(f@ + op@),
                arguments: old(self)@.arguments.push(v@),
                ..old(self)@
            }),
            count_char_items(final(self)@.wheres, '?') == count_char_items(old(self)@.wheres, '?')
                + count_char(f@, '?') + 1,
            (old(self)@.balanced() && count_char(f@, '?') == 0 && old(self)@.kind
                != StatementKind::InsertInto) ==> final(self)@.balanced(),
    {
        let cond = String::from_str(f).concat(op);
        proof {
            lemma_count_char_append(f@, op@, '?');
        }
        let ghost pre = self@;
        self.push_and_where(cond);
        let ghost args0 = self@.arguments;
        self.arguments.push(v);
        proof {
            assert(self@.arguments =~= args0.push(v@));
        }
    }

    /// The OR-side of [`Self::and_where_cmp`].
    fn or_where_cmp(&mut self, f: &str, op: &'static str, v: Value)
        requires
            count_char(op@, '?') == 1,
        ensures
            old(self)@.wheres.len() == 0 ==> final(self)@ == (QueryBuilderView {
                wheres: old(self)@.wheres.push(f@ + op@),
                arguments: old(self)@.arguments.push(v@),
                ..old(self)@
            }),
            old(self)@.wheres.len() > 0 ==> final(self)@ == (QueryBuilderView {
                wheres: old(self)@.wheres.drop_last().push(
                    old(self)@.wheres.last() + " OR "@ + (f@ + op@),
                ),
                arguments: old(self)@.arguments.push(v@),
                ..old(self)@
            }),
            count_char_items(final(self)@.wheres, '?') == count_char_items(old(self)@.wheres, '?')
                + count_char(f@, '?') + 1,
            (old(self)@.balanced() && count_char(f@, '?') == 0 && old(self)@.kind
                != StatementKind::InsertInto) ==> final(self)@.balanced(),
    {
        let cond = String::from_str(f).concat(op);
        proof {
            lemma_count_char_append(f@, op@, '?');
        }
        self.push_or_where(cond);
        let ghost args0 = self@.arguments;
        self.arguments.push(v);
        proof {
            assert(self@.arguments =~= args0.push(v@));
        }
    }
}

/// The one-placeholder comparison fragments and the literal glue of the
/// builder hold exactly the placeholders they show.
pub proof fn lemma_cmp_literal_counts()
    ensures
        count_char(" = ?"@, '?') == 1,
        count_char(" <> ?"@, '?') == 1,
        count_char(" >= ?"@, '?') == 1,
        count_char(" <= ?"@, '?') == 1,
        count_char(" > ?"@, '?') == 1,
        count_char(" < ?"@, '?') == 1,
        count_char(" BETWEEN ? AND ?"@, '?') == 2,
        count_char(" NOT BETWEEN ? AND ?"@, '?') == 2,
        count_char(" IS NULL"@, '?') == 0,
        count_char(" IS NOT NULL"@, '?') == 0,
        count_char("?"@, '?') == 1,
{
    reveal_strlit(" = ?");
    reveal_strlit(" <> ?");
    reveal_strlit(" >= ?");
    reveal_strlit(" <= ?");
    reveal_strlit(" > ?");
    reveal_strlit(" < ?");
    reveal_strlit(" = ");
    reveal_strlit(" <> ");
    reveal_strlit(" >= ");
    reveal_strlit(" <= ");
    reveal_strlit(" > ");
    reveal_strlit(" < ");
    reveal_strlit("?");
    reveal_strlit(" BETWEEN ? AND ?");
    reveal_strlit(" NOT BETWEEN ? AND ?");
    reveal_strlit(" BETWEEN ");
    reveal_strlit(" NOT BETWEEN ");
    reveal_strlit(" AND ?");
    reveal_strlit(" AND ");
    reveal_strlit(" IS NULL");
    reveal_strlit(" IS NOT NULL");
    lemma_count_char_singleton('?', '?');
    assert("?"@ =~= seq!['?']);
    lemma_one_ph(" = ", " = ?");
    lemma_one_ph(" <> ", " <> ?");
    lemma_one_ph(" >= ", " >= ?");
    lemma_one_ph(" <= ", " <= ?");
    lemma_one_ph(" > ", " > ?");
    lemma_one_ph(" < ", " < ?");
    lemma_count_char_zero(" IS NULL"@, '?');
    lemma_count_char_zero(" IS NOT NULL"@, '?');
    lemma_count_char_zero(" BETWEEN "@, '?');
    lemma_count_char_zero(" NOT BETWEEN "@, '?');
    lemma_count_char_zero(" AND "@, '?');
    assert(" AND ?"@ =~= " AND "@ + "?"@);
    lemma_count_char_append(" AND "@, "?"@, '?');
    assert(" BETWEEN ? AND ?"@ =~= " BETWEEN "@ + "?"@ + " AND ?"@);
    lemma_count_char_append(" BETWEEN "@, "?"@, '?');
    lemma_count_char_append(" BETWEEN "@ + "?"@, " AND ?"@, '?');
    assert(" NOT BETWEEN ? AND ?"@ =~= " NOT BETWEEN "@ + "?"@ + " AND ?"@);
    lemma_count_char_append(" NOT BETWEEN "@, "?"@, '?');
    lemma_count_char_append(" NOT BETWEEN "@ + "?"@, " AND ?"@, '?');
}

/// `n` positional placeholder tokens, as an IN list or a VALUES row shows
/// them.
pub open spec fn spec_qmarks(n: nat) -> Seq<Seq<char>> {
    Seq::new(n, |i: int| "?"@)
}

pub proof fn lemma_qmarks_count(n: nat)
    ensures
        count_char_items(spec_qmarks(n), '?') == n,
    decreases n,
{
    reveal_strlit("?");
    if n > 0 {
        lemma_qmarks_count((n - 1) as nat);
        assert(spec_qmarks(n).drop_last() =~= spec_qmarks((n - 1) as nat));
        assert("?"@ =~= seq!['?']);
        lemma_count_char_singleton('?', '?');
    }
}

impl QueryBuilder {
    /// Append one more bound value without touching the fragment buffer;
    /// the matching placeholders are appended separately.
    pub fn add_arguments(&mut self, v: Value)
        ensures
            final(self)@ == (QueryBuilderView {
                arguments: old(self)@.arguments.push(v@),
                ..old(self)@
            }),
    {
        let ghost pre = self@.arguments;
        self.arguments.push(v);
        proof {
            assert(self@.arguments =~= pre.push(v@));
        }
    }

    pub fn and_where_eq(&mut self, f: &str, v: Value)
        ensures
            final(self)@ == (QueryBuilderView {
                wheres: old(self)@.wheres.push(f@ + " = ?"@),
                arguments: old(self)@.arguments.push(v@),
                ..old(self)@
            }),
            count_char_items(final(self)@.wheres, '?') == count_char_items(old(self)@.wheres, '?')
                + count_char(f@, '?') + 1,
            (old(self)@.balanced() && count_char(f@, '?') == 0 && old(self)@.kind
                != StatementKind::InsertInto) ==> final(self)@.balanced(),
    {
        proof {
            lemma_cmp_literal_counts();
        }
        self.and_where_cmp(f, " = ?", v)
    }

    pub fn and_where_ne(&mut self, f: &str, v: Value)
        ensures
            final(self)@ == (QueryBuilderView {
                wheres: old(self)@.wheres.push(f@ + " <> ?"@),
                arguments: old(self)@.arguments.push(v@),
                ..old(self)@
            }),
            count_char_items(final(self)@.wheres, '?') == count_char_items(old(self)@.wheres, '?')
                + count_char(f@, '?') + 1,
            (old(self)@.balanced() && count_char(f@, '?') == 0 && old(self)@.kind
                != StatementKind::InsertInto) ==> final(self)@.balanced(),
    {
        proof {
            lemma_cmp_literal_counts();
        }
        self.and_where_cmp(f, " <> ?", v)
    }

    pub fn and_where_ge(&mut self, f: &str, v: Value)
        ensures
            final(self)@ == (QueryBuilderView {
                wheres: old(self)@.wheres.push(f@ + " >= ?"@),
                arguments: old(self)@.arguments.push(v@),
                ..old(self)@
            }),
            count_char_items(final(self)@.wheres, '?') == count_char_items(old(self)@.wheres, '?')
                + count_char(f@, '?') + 1,
            (old(self)@.balanced() && count_char(f@, '?') == 0 && old(self)@.kind
                != StatementKind::InsertInto) ==> final(self)@.balanced(),
    {
        proof {
            lemma_cmp_literal_counts();
        }
        self.and_where_cmp(f, " >= ?", v)
    }

    pub fn and_where_le(&mut self, f: &str, v: Value)
        ensures
            final(self)@ == (QueryBuilderView {
                wheres: old(self)@.wheres.push(f@ + " <= ?"@),
                arguments: old(self)@.arguments.push(v@),
                ..old(self)@
            }),
            count_char_items(final(self)@.wheres, '?') == count_char_items(old(self)@.wheres, '?')
                + count_char(f@, '?') + 1,
            (old(self)@.balanced() && count_char(f@, '?') == 0 && old(self)@.kind
                != StatementKind::InsertInto) ==> final(self)@.balanced(),
    {
        proof {
            lemma_cmp_literal_counts();
        }
        self.and_where_cmp(f, " <= ?", v)
    }

    pub fn and_where_gt(&mut self, f: &str, v: Value)
        ensures
            final(self)@ == (QueryBuilderView {
                wheres: old(self)@.wheres.push(f@ + " > ?"@),
                arguments: old(self)@.arguments.push(v@),
                ..old(self)@
            }),
            count_char_items(final(self)@.wheres, '?') == count_char_items(old(self)@.wheres, '?')
                + count_char(f@, '?') + 1,
            (old(self)@.balanced() && count_char(f@, '?') == 0 && old(self)@.kind
                != StatementKind::InsertInto) ==> final(self)@.balanced(),
    {
        proof {
            lemma_cmp_literal_counts();
        }
        self.and_where_cmp(f, " > ?", v)
    }

    pub fn and_where_lt(&mut self, f: &str, v: Value)
        ensures
            final(self)@ == (QueryBuilderView {
                wheres: old(self)@.wheres.push(f@ + " < ?"@),
                arguments: old(self)@.arguments.push(v@),
                ..old(self)@
            }),
            count_char_items(final(self)@.wheres, '?') == count_char_items(old(self)@.wheres, '?')
                + count_char(f@, '?') + 1,
            (old(self)@.balanced() && count_char(f@, '?') == 0 && old(self)@.kind
                != StatementKind::InsertInto) ==> final(self)@.balanced(),
    {
        proof {
            lemma_cmp_literal_counts();
        }
        self.and_where_cmp(f, " < ?", v)
    }

    /// Append `field LIKE '<mask>'`, the mask escaped and inlined; no value
    /// is bound.
    pub fn and_where_like(&mut self, f: &str, mask: &str)
        ensures
            final(self)@ == (QueryBuilderView {
                wheres: old(self)@.wheres.push(f@ + " LIKE '"@ + spec_esc(mask@) + "'"@),
                ..old(self)@
            }),
            count_char_items(final(self)@.wheres, '?') == count_char_items(old(self)@.wheres, '?')
                + count_char(f@, '?') + count_char(spec_esc(mask@), '?'),
            (old(self)@.balanced() && count_char(f@, '?') == 0 && count_char(mask@, '?') == 0)
                ==> final(self)@.balanced(),
    {
        let cond = String::from_str(f).concat(" LIKE '").concat(esc(mask).as_str()).concat("'");
        proof {
            reveal_strlit(" LIKE '");
            reveal_strlit("'");
            lemma_count_char_zero(" LIKE '"@, '?');
            lemma_count_char_zero("'"@, '?');
            lemma_count_char_append(f@, " LIKE '"@, '?');
            lemma_count_char_append(f@ + " LIKE '"@, spec_esc(mask@), '?');
            lemma_count_char_append(f@ + " LIKE '"@ + spec_esc(mask@), "'"@, '?');
            lemma_esc_count(mask@, '?');
        }
        self.push_and_where(cond)
    }

    /// Append `field LIKE '%<mask>%'`, the mask escaped and inlined; no
    /// value is bound.
    pub fn and_where_like_any(&mut self, f: &str, mask: &str)
        ensures
            final(self)@ == (QueryBuilderView {
                wheres: old(self)@.wheres.push(f@ + " LIKE '%"@ + spec_esc(mask@) + "%'"@),
                ..old(self)@
            }),
            count_char_items(final(self)@.wheres, '?') == count_char_items(old(self)@.wheres, '?')
                + count_char(f@, '?') + count_char(spec_esc(mask@), '?'),
            (old(self)@.balanced() && count_char(f@, '?') == 0 && count_char(mask@, '?') == 0)
                ==> final(self)@.balanced(),
    {
        let cond = String::from_str(f).concat(" LIKE '%").concat(esc(mask).as_str()).concat("%'");
        proof {
            reveal_strlit(" LIKE '%");
            reveal_strlit("%'");
            lemma_count_char_zero(" LIKE '%"@, '?');
            lemma_count_char_zero("%'"@, '?');
            lemma_count_char_append(f@, " LIKE '%"@, '?');
            lemma_count_char_append(f@ + " LIKE '%"@, spec_esc(mask@), '?');
            lemma_count_char_append(f@ + " LIKE '%"@ + spec_esc(mask@), "%'"@, '?');
            lemma_esc_count(mask@, '?');
        }
        self.push_and_where(cond)
    }

    /// Append `field NOT LIKE '<mask>'`, the mask escaped and inlined; no
    /// value is bound.
    pub fn and_where_not_like(&mut self, f: &str, mask: &str)
        ensures
            final(self)@ == (QueryBuilderView {
                wheres: old(self)@.wheres.push(f@ + " NOT LIKE '"@ + spec_esc(mask@) + "'"@),
                ..old(self)@
            }),
            count_char_items(final(self)@.wheres, '?') == count_char_items(old(self)@.wheres, '?')
                + count_char(f@, '?') + count_char(spec_esc(mask@), '?'),
            (old(self)@.balanced() && count_char(f@, '?') == 0 && count_char(mask@, '?') == 0)
                ==> final(self)@.balanced(),
    {
        let cond = String::from_str(f).concat(" NOT LIKE '").concat(esc(mask).as_str()).concat(
            "'",
        );
        proof {
            reveal_strlit(" NOT LIKE '");
            reveal_strlit("'");
            lemma_count_char_zero(" NOT LIKE '"@, '?');
            lemma_count_char_zero("'"@, '?');
            lemma_count_char_append(f@, " NOT LIKE '"@, '?');
            lemma_count_char_append(f@ + " NOT LIKE '"@, spec_esc(mask@), '?');
            lemma_count_char_append(f@ + " NOT LIKE '"@ + spec_esc(mask@), "'"@, '?');
            lemma_esc_count(mask@, '?');
        }
        self.push_and_where(cond)
    }

    pub fn and_where_is_null(&mut self, f: &str)
        ensures
            final(self)@ == (QueryBuilderView {
                wheres: old(self)@.wheres.push(f@ + " IS NULL"@),
                ..old(self)@
            }),
            count_char_items(final(self)@.wheres, '?') == count_char_items(old(self)@.wheres, '?')
                + count_char(f@, '?'),
            (old(self)@.balanced() && count_char(f@, '?') == 0) ==> final(self)@.balanced(),
    {
        let cond = String::from_str(f).concat(" IS NULL");
        proof {
            lemma_cmp_literal_counts();
            lemma_count_char_append(f@, " IS NULL"@, '?');
        }
        self.push_and_where(cond)
    }

    pub fn and_where_is_not_null(&mut self, f: &str)
        ensures
            final(self)@ == (QueryBuilderView {
                wheres: old(self)@.wheres.push(f@ + " IS NOT NULL"@),
                ..old(self)@
            }),
            count_char_items(final(self)@.wheres, '?') == count_char_items(old(self)@.wheres, '?')
                + count_char(f@, '?'),
            (old(self)@.balanced() && count_char(f@, '?') == 0) ==> final(self)@.balanced(),
    {
        let cond = String::from_str(f).concat(" IS NOT NULL");
        proof {
            lemma_cmp_literal_counts();
            lemma_count_char_append(f@, " IS NOT NULL"@, '?');
        }
        self.push_and_where(cond)
    }

    /// Append `field BETWEEN ? AND ?` and bind the two bounds, in order.
    pub fn and_where_between(&mut self, f: &str, min: Value, max: Value)
        ensures
            final(self)@ == (QueryBuilderView {
                wheres: old(self)@.wheres.push(f@ + " BETWEEN ? AND ?"@),
                arguments: old(self)@.arguments.push(min@).push(max@),
                ..old(self)@
            }),
            count_char_items(final(self)@.wheres, '?') == count_char_items(old(self)@.wheres, '?')
                + count_char(f@, '?') + 2,
            (old(self)@.balanced() && count_char(f@, '?') == 0 && old(self)@.kind
                != StatementKind::InsertInto) ==> final(self)@.balanced(),
    {
        let cond = String::from_str(f).concat(" BETWEEN ? AND ?");
        proof {
            lemma_cmp_literal_counts();
            lemma_count_char_append(f@, " BETWEEN ? AND ?"@, '?');
        }
        self.push_and_where(cond);
        let ghost a0 = self@.arguments;
        self.arguments.push(min);
        proof {
            assert(self@.arguments =~= a0.push(min@));
        }
        let ghost a1 = self@.arguments;
        self.arguments.push(max);
        proof {
            assert(self@.arguments =~= a1.push(max@));
        }
    }

    /// The optional-bounds range check: both bounds give BETWEEN, one bound
    /// degrades to a one-sided comparison, none is a no-op.
    pub fn and_where_between_options(&mut self, f: &str, min: Option<Value>, max: Option<Value>)
        ensures
            min is Some && max is Some ==> final(self)@ == (QueryBuilderView {
                wheres: old(self)@.wheres.push(f@ + " BETWEEN ? AND ?"@),
                arguments: old(self)@.arguments.push(min.unwrap()@).push(max.unwrap()@),
                ..old(self)@
            }),
            min is Some && max is None ==> final(self)@ == (QueryBuilderView {
                wheres: old(self)@.wheres.push(f@ + " >= ?"@),
                arguments: old(self)@.arguments.push(min.unwrap()@),
                ..old(self)@
            }),
            min is None && max is Some ==> final(self)@ == (QueryBuilderView {
                wheres: old(self)@.wheres.push(f@ + " <= ?"@),
                arguments: old(self)@.arguments.push(max.unwrap()@),
                ..old(self)@
            }),
            min is None && max is None ==> *final(self) == *old(self),
            (old(self)@.balanced() && count_char(f@, '?') == 0 && old(self)@.kind
                != StatementKind::InsertInto) ==> final(self)@.balanced(),
    {
        match (min, max) {
            (Some(a), Some(b)) => self.and_where_between(f, a, b),
            (Some(a), None) => self.and_where_ge(f, a),
            (None, Some(b)) => self.and_where_le(f, b),
            _ => {},
        }
    }

    /// Append `field NOT BETWEEN ? AND ?` and bind the two bounds.
    pub fn and_where_not_between(&mut self, f: &str, min: Value, max: Value)
        ensures
            final(self)@ == (QueryBuilderView {
                wheres: old(self)@.wheres.push(f@ + " NOT BETWEEN ? AND ?"@),
                arguments: old(self)@.arguments.push(min@).push(max@),
                ..old(self)@
            }),
            count_char_items(final(self)@.wheres, '?') == count_char_items(old(self)@.wheres, '?')
                + count_char(f@, '?') + 2,
            (old(self)@.balanced() && count_char(f@, '?') == 0 && old(self)@.kind
                != StatementKind::InsertInto) ==> final(self)@.balanced(),
    {
        let cond = String::from_str(f).concat(" NOT BETWEEN ? AND ?");
        proof {
            lemma_cmp_literal_counts();
            lemma_count_char_append(f@, " NOT BETWEEN ? AND ?"@, '?');
        }
        self.push_and_where(cond);
        let ghost a0 = self@.arguments;
        self.arguments.push(min);
        proof {
            assert(self@.arguments =~= a0.push(min@));
        }
        let ghost a1 = self@.arguments;
        self.arguments.push(max);
        proof {
            assert(self@.arguments =~= a1.push(max@));
        }
    }
}

impl QueryBuilder {
    pub fn or_where_eq(&mut self, f: &str, v: Value)
        ensures
            old(self)@.wheres.len() == 0 ==> final(self)@ == (QueryBuilderView {
                wheres: old(self)@.wheres.push(f@ + " = ?"@),
                arguments: old(self)@.arguments.push(v@),
                ..old(self)@
            }),
            old(self)@.wheres.len() > 0 ==> final(self)@ == (QueryBuilderView {
                wheres: old(self)@.wheres.drop_last().push(
                    old(self)@.wheres.last() + " OR "@ + (f@ + " = ?"@),
                ),
                arguments: old(self)@.arguments.push(v@),
                ..old(self)@
            }),
            count_char_items(final(self)@.wheres, '?') == count_char_items(old(self)@.wheres, '?')
                + count_char(f@, '?') + 1,
            (old(self)@.balanced() && count_char(f@, '?') == 0 && old(self)@.kind
                != StatementKind::InsertInto) ==> final(self)@.balanced(),
    {
        proof {
            lemma_cmp_literal_counts();
        }
        self.or_where_cmp(f, " = ?", v)
    }

    pub fn or_where_ne(&mut self, f: &str, v: Value)
        ensures
            old(self)@.wheres.len() == 0 ==> final(self)@ == (QueryBuilderView {
                wheres: old(self)@.wheres.push(f@ + " <> ?"@),
                arguments: old(self)@.arguments.push(v@),
                ..old(self)@
            }),
            old(self)@.wheres.len() > 0 ==> final(self)@ == (QueryBuilderView {
                wheres: old(self)@.wheres.drop_last().push(
                    old(self)@.wheres.last() + " OR "@ + (f@ + " <> ?"@),
                ),
                arguments: old(self)@.arguments.push(v@),
                ..old(self)@
            }),
            count_char_items(final(self)@.wheres, '?') == count_char_items(old(self)@.wheres, '?')
                + count_char(f@, '?') + 1,
            (old(self)@.balanced() && count_char(f@, '?') == 0 && old(self)@.kind
                != StatementKind::InsertInto) ==> final(self)@.balanced(),
    {
        proof {
            lemma_cmp_literal_counts();
        }
        self.or_where_cmp(f, " <> ?", v)
    }

    pub fn or_where_ge(&mut self, f: &str, v: Value)
        ensures
            old(self)@.wheres.len() == 0 ==> final(self)@ == (QueryBuilderView {
                wheres: old(self)@.wheres.push(f@ + " >= ?"@),
                arguments: old(self)@.arguments.push(v@),
                ..old(self)@
            }),
            old(self)@.wheres.len() > 0 ==> final(self)@ == (QueryBuilderView {
                wheres: old(self)@.wheres.drop_last().push(
                    old(self)@.wheres.last() + " OR "@ + (f@ + " >= ?"@),
                ),
                arguments: old(self)@.arguments.push(v@),
                ..old(self)@
            }),
            count_char_items(final(self)@.wheres, '?') == count_char_items(old(self)@.wheres, '?')
                + count_char(f@, '?') + 1,
            (old(self)@.balanced() && count_char(f@, '?') == 0 && old(self)@.kind
                != StatementKind::InsertInto) ==> final(self)@.balanced(),
    {
        proof {
            lemma_cmp_literal_counts();
        }
        self.or_where_cmp(f, " >= ?", v)
    }

    pub fn or_where_le(&mut self, f: &str, v: Value)
        ensures
            old(self)@.wheres.len() == 0 ==> final(self)@ == (QueryBuilderView {
                wheres: old(self)@.wheres.push(f@ + " <= ?"@),
                arguments: old(self)@.arguments.push(v@),
                ..old(self)@
            }),
            old(self)@.wheres.len() > 0 ==> final(self)@ == (QueryBuilderView {
                wheres: old(self)@.wheres.drop_last().push(
                    old(self)@.wheres.last() + " OR "@ + (f@ + " <= ?"@),
                ),
                arguments: old(self)@.arguments.push(v@),
                ..old(self)@
            }),
            count_char_items(final(self)@.wheres, '?') == count_char_items(old(self)@.wheres, '?')
                + count_char(f@, '?') + 1,
            (old(self)@.balanced() && count_char(f@, '?') == 0 && old(self)@.kind
                != StatementKind::InsertInto) ==> final(self)@.balanced(),
    {
        proof {
            lemma_cmp_literal_counts();
        }
        self.or_where_cmp(f, " <= ?", v)
    }

    pub fn or_where_gt(&mut self, f: &str, v: Value)
        ensures
            old(self)@.wheres.len() == 0 ==> final(self)@ == (QueryBuilderView {
                wheres: old(self)@.wheres.push(f@ + " > ?"@),
                arguments: old(self)@.arguments.push(v@),
                ..old(self)@
            }),
            old(self)@.wheres.len() > 0 ==> final(self)@ == (QueryBuilderView {
                wheres: old(self)@.wheres.drop_last().push(
                    old(self)@.wheres.last() + " OR "@ + (f@ + " > ?"@),
                ),
                arguments: old(self)@.arguments.push(v@),
                ..old(self)@
            }),
            count_char_items(final(self)@.wheres, '?') == count_char_items(old(self)@.wheres, '?')
                + count_char(f@, '?') + 1,
            (old(self)@.balanced() && count_char(f@, '?') == 0 && old(self)@.kind
                != StatementKind::InsertInto) ==> final(self)@.balanced(),
    {
        proof {
            lemma_cmp_literal_counts();
        }
        self.or_where_cmp(f, " > ?", v)
    }

    pub fn or_where_lt(&mut self, f: &str, v: Value)
        ensures
            old(self)@.wheres.len() == 0 ==> final(self)@ == (QueryBuilderView {
                wheres: old(self)@.wheres.push(f@ + " < ?"@),
                arguments: old(self)@.arguments.push(v@),
                ..old(self)@
            }),
            old(self)@.wheres.len() > 0 ==> final(self)@ == (QueryBuilderView {
                wheres: old(self)@.wheres.drop_last().push(
                    old(self)@.wheres.last() + " OR "@ + (f@ + " < ?"@),
                ),
                arguments: old(self)@.arguments.push(v@),
                ..old(self)@
            }),
            count_char_items(final(self)@.wheres, '?') == count_char_items(old(self)@.wheres, '?')
                + count_char(f@, '?') + 1,
            (old(self)@.balanced() && count_char(f@, '?') == 0 && old(self)@.kind
                != StatementKind::InsertInto) ==> final(self)@.balanced(),
    {
        proof {
            lemma_cmp_literal_counts();
        }
        self.or_where_cmp(f, " < ?", v)
    }

    /// Append `field IN (<placeholders>)` with one placeholder and one
    /// bound value per element of `vals`, in order.
    pub fn and_where_in(&mut self, f: &str, vals: &Vec<Value>)
        ensures
            final(self)@ == (QueryBuilderView {
                wheres: old(self)@.wheres.push(f@ + " IN ("@ + spec_join(spec_qmarks(vals@.len()), ", "@) + ")"@),
                arguments: old(self)@.arguments + vals@.map_values(|v: Value| v@),
                ..old(self)@
            }),
            count_char_items(final(self)@.wheres, '?') == count_char_items(old(self)@.wheres, '?')
                + count_char(f@, '?') + vals@.len(),
            (old(self)@.balanced() && count_char(f@, '?') == 0 && old(self)@.kind
                != StatementKind::InsertInto) ==> final(self)@.balanced(),
    {
        let mut phs: Vec<String> = Vec::new();
        let mut i: usize = 0;
        while i < vals.len()
            invariant
                0 <= i <= vals@.len(),
                phs@.map_values(|s: String| s@) == spec_qmarks(i as nat),
            decreases vals@.len() - i,
        {
            let ghost prev = phs@;
            let q = String::from_str("?");
            let ghost qv = q@;
            phs.push(q);
            proof {
                assert(qv == "?"@);
                assert(phs@.map_values(|s: String| s@) =~= prev.map_values(|s: String| s@).push(
                    qv,
                ));
                assert(prev.map_values(|s: String| s@).push(qv) =~= spec_qmarks((i + 1) as nat));
            }
            i = i + 1;
        }
        let cond = String::from_str(f).concat(" IN (").concat(join_comma(&phs).as_str()).concat(
            ")",
        );
        proof {
            reveal_strlit(" IN (");
            reveal_strlit(")");
            reveal_strlit(", ");
            lemma_count_char_zero(" IN ("@, '?');
            lemma_count_char_zero(")"@, '?');
            lemma_count_char_zero(", "@, '?');
            lemma_qmarks_count(vals@.len());
            lemma_count_char_join(spec_qmarks(vals@.len()), ", "@, '?');
            lemma_count_char_append(f@, " IN ("@, '?');
            lemma_count_char_append(f@ + " IN ("@, spec_join(spec_qmarks(vals@.len()), ", "@), '?');
            lemma_count_char_append(
                f@ + " IN ("@ + spec_join(spec_qmarks(vals@.len()), ", "@),
                ")"@,
                '?',
            );
        }
        self.push_and_where(cond);
        let ghost mid = self@;
        let ghost a0 = self@.arguments;
        proof {
            assert(a0 + vals@.map_values(|v: Value| v@).take(0) =~= a0);
        }
        let mut j: usize = 0;
        while j < vals.len()
            invariant
                0 <= j <= vals@.len(),
                a0 == mid.arguments,
                self@ == (QueryBuilderView {
                    arguments: a0 + vals@.map_values(|v: Value| v@).take(j as int),
                    ..mid
                }),
            decreases vals@.len() - j,
        {
            let ghost ap = self@.arguments;
            self.arguments.push(vals[j].clone_value());
            proof {
                assert(self@.arguments =~= ap.push(vals@.map_values(|v: Value| v@)[j as int]));
                assert(self@.arguments =~= a0 + vals@.map_values(|v: Value| v@).take(j + 1));
            }
            j = j + 1;
        }
        proof {
            assert(vals@.map_values(|v: Value| v@).take(vals@.len() as int) =~= vals@.map_values(
                |v: Value| v@,
            ));
        }
    }

    /// Append `field NOT IN (<placeholders>)` with one placeholder and one
    /// bound value per element of `vals`, in order.
    pub fn and_where_not_in(&mut self, f: &str, vals: &Vec<Value>)
        ensures
            final(self)@ == (QueryBuilderView {
                wheres: old(self)@.wheres.push(f@ + " NOT IN ("@ + spec_join(spec_qmarks(vals@.len()), ", "@) + ")"@),
                arguments: old(self)@.arguments + vals@.map_values(|v: Value| v@),
                ..old(self)@
            }),
            count_char_items(final(self)@.wheres, '?') == count_char_items(old(self)@.wheres, '?')
                + count_char(f@, '?') + vals@.len(),
            (old(self)@.balanced() && count_char(f@, '?') == 0 && old(self)@.kind
                != StatementKind::InsertInto) ==> final(self)@.balanced(),
    {
        let mut phs: Vec<String> = Vec::new();
        let mut i: usize = 0;
        while i < vals.len()
            invariant
                0 <= i <= vals@.len(),
                phs@.map_values(|s: String| s@) == spec_qmarks(i as nat),
            decreases vals@.len() - i,
        {
            let ghost prev = phs@;
            let q = String::from_str("?");
            let ghost qv = q@;
            phs.push(q);
            proof {
                assert(qv == "?"@);
                assert(phs@.map_values(|s: String| s@) =~= prev.map_values(|s: String| s@).push(
                    qv,
                ));
                assert(prev.map_values(|s: String| s@).push(qv) =~= spec_qmarks((i + 1) as nat));
            }
            i = i + 1;
        }
        let cond = String::from_str(f).concat(" NOT IN (").concat(join_comma(&phs).as_str()).concat(
            ")",
        );
        proof {
            reveal_strlit(" NOT IN (");
            reveal_strlit(")");
            reveal_strlit(", ");
            lemma_count_char_zero(" NOT IN ("@, '?');
            lemma_count_char_zero(")"@, '?');
            lemma_count_char_zero(", "@, '?');
            lemma_qmarks_count(vals@.len());
            lemma_count_char_join(spec_qmarks(vals@.len()), ", "@, '?');
            lemma_count_char_append(f@, " NOT IN ("@, '?');
            lemma_count_char_append(f@ + " NOT IN ("@, spec_join(spec_qmarks(vals@.len()), ", "@), '?');
            lemma_count_char_append(
                f@ + " NOT IN ("@ + spec_join(spec_qmarks(vals@.len()), ", "@),
                ")"@,
                '?',
            );
        }
        self.push_and_where(cond);
        let ghost mid = self@;
        let ghost a0 = self@.arguments;
        proof {
            assert(a0 + vals@.map_values(|v: Value| v@).take(0) =~= a0);
        }
        let mut j: usize = 0;
        while j < vals.len()
            invariant
                0 <= j <= vals@.len(),
                a0 == mid.arguments,
                self@ == (QueryBuilderView {
                    arguments: a0 + vals@.map_values(|v: Value| v@).take(j as int),
                    ..mid
                }),
            decreases vals@.len() - j,
        {
            let ghost ap = self@.arguments;
            self.arguments.push(vals[j].clone_value());
            proof {
                assert(self@.arguments =~= ap.push(vals@.map_values(|v: Value| v@)[j as int]));
                assert(self@.arguments =~= a0 + vals@.map_values(|v: Value| v@).take(j + 1));
            }
            j = j + 1;
        }
        proof {
            assert(vals@.map_values(|v: Value| v@).take(vals@.len() as int) =~= vals@.map_values(
                |v: Value| v@,
            ));
        }
    }

    /// Append `field IN (<placeholders>)` with one placeholder and one
    /// bound value per element of `vals`, in order.
    pub fn or_where_in(&mut self, f: &str, vals: &Vec<Value>)
        ensures
            old(self)@.wheres.len() == 0 ==> final(self)@ == (QueryBuilderView {
                wheres: old(self)@.wheres.push(f@ + " IN ("@ + spec_join(spec_qmarks(vals@.len()), ", "@) + ")"@),
                arguments: old(self)@.arguments + vals@.map_values(|v: Value| v@),
                ..old(self)@
            }),
            old(self)@.wheres.len() > 0 ==> final(self)@ == (QueryBuilderView {
                wheres: old(self)@.wheres.drop_last().push(
                    old(self)@.wheres.last() + " OR "@ + (f@ + " IN ("@ + spec_join(spec_qmarks(vals@.len()), ", "@) + ")"@),
                ),
                arguments: old(self)@.arguments + vals@.map_values(|v: Value| v@),
                ..old(self)@
            }),
            count_char_items(final(self)@.wheres, '?') == count_char_items(old(self)@.wheres, '?')
                + count_char(f@, '?') + vals@.len(),
            (old(self)@.balanced() && count_char(f@, '?') == 0 && old(self)@.kind
                != StatementKind::InsertInto) ==> final(self)@.balanced(),
    {
        let mut phs: Vec<String> = Vec::new();
        let mut i: usize = 0;
        while i < vals.len()
            invariant
                0 <= i <= vals@.len(),
                phs@.map_values(|s: String| s@) == spec_qmarks(i as nat),
            decreases vals@.len() - i,
        {
            let ghost prev = phs@;
            let q = String::from_str("?");
            let ghost qv = q@;
            phs.push(q);
            proof {
                assert(qv == "?"@);
                assert(phs@.map_values(|s: String| s@) =~= prev.map_values(|s: String| s@).push(
                    qv,
                ));
                assert(prev.map_values(|s: String| s@).push(qv) =~= spec_qmarks((i + 1) as nat));
            }
            i = i + 1;
        }
        let cond = String::from_str(f).concat(" IN (").concat(join_comma(&phs).as_str()).concat(
            ")",
        );
        proof {
            reveal_strlit(" IN (");
            reveal_strlit(")");
            reveal_strlit(", ");
            lemma_count_char_zero(" IN ("@, '?');
            lemma_count_char_zero(")"@, '?');
            lemma_count_char_zero(", "@, '?');
            lemma_qmarks_count(vals@.len());
            lemma_count_char_join(spec_qmarks(vals@.len()), ", "@, '?');
            lemma_count_char_append(f@, " IN ("@, '?');
            lemma_count_char_append(f@ + " IN ("@, spec_join(spec_qmarks(vals@.len()), ", "@), '?');
            lemma_count_char_append(
                f@ + " IN ("@ + spec_join(spec_qmarks(vals@.len()), ", "@),
                ")"@,
                '?',
            );
        }
        self.push_or_where(cond);
        let ghost mid = self@;
        let ghost a0 = self@.arguments;
        proof {
            assert(a0 + vals@.map_values(|v: Value| v@).take(0) =~= a0);
        }
        let mut j: usize = 0;
        while j < vals.len()
            invariant
                0 <= j <= vals@.len(),
                a0 == mid.arguments,
                self@ == (QueryBuilderView {
                    arguments: a0 + vals@.map_values(|v: Value| v@).take(j as int),
                    ..mid
                }),
            decreases vals@.len() - j,
        {
            let ghost ap = self@.arguments;
            self.arguments.push(vals[j].clone_value());
            proof {
                assert(self@.arguments =~= ap.push(vals@.map_values(|v: Value| v@)[j as int]));
                assert(self@.arguments =~= a0 + vals@.map_values(|v: Value| v@).take(j + 1));
            }
            j = j + 1;
        }
        proof {
            assert(vals@.map_values(|v: Value| v@).take(vals@.len() as int) =~= vals@.map_values(
                |v: Value| v@,
            ));
        }
    }

    /// Append `field NOT IN (<placeholders>)` with one placeholder and one
    /// bound value per element of `vals`, in order.
    pub fn or_where_not_in(&mut self, f: &str, vals: &Vec<Value>)
        ensures
            old(self)@.wheres.len() == 0 ==> final(self)@ == (QueryBuilderView {
                wheres: old(self)@.wheres.push(f@ + " NOT IN ("@ + spec_join(spec_qmarks(vals@.len()), ", "@) + ")"@),
                arguments: old(self)@.arguments + vals@.map_values(|v: Value| v@),
                ..old(self)@
            }),
            old(self)@.wheres.len() > 0 ==> final(self)@ == (QueryBuilderView {
                wheres: old(self)@.wheres.drop_last().push(
                    old(self)@.wheres.last() + " OR "@ + (f@ + " NOT IN ("@ + spec_join(spec_qmarks(vals@.len()), ", "@) + ")"@),
                ),
                arguments: old(self)@.arguments + vals@.map_values(|v: Value| v@),
                ..old(self)@
            }),
            count_char_items(final(self)@.wheres, '?') == count_char_items(old(self)@.wheres, '?')
                + count_char(f@, '?') + vals@.len(),
            (old(self)@.balanced() && count_char(f@, '?') == 0 && old(self)@.kind
                != StatementKind::InsertInto) ==> final(self)@.balanced(),
    {
        let mut phs: Vec<String> = Vec::new();
        let mut i: usize = 0;
        while i < vals.len()
            invariant
                0 <= i <= vals@.len(),
                phs@.map_values(|s: String| s@) == spec_qmarks(i as nat),
            decreases vals@.len() - i,
        {
            let ghost prev = phs@;
            let q = String::from_str("?");
            let ghost qv = q@;
            phs.push(q);
            proof {
                assert(qv == "?"@);
                assert(phs@.map_values(|s: String| s@) =~= prev.map_values(|s: String| s@).push(
                    qv,
                ));
                assert(prev.map_values(|s: String| s@).push(qv) =~= spec_qmarks((i + 1) as nat));
            }
            i = i + 1;
        }
        let cond = String::from_str(f).concat(" NOT IN (").concat(join_comma(&phs).as_str()).concat(
            ")",
        );
        proof {
            reveal_strlit(" NOT IN (");
            reveal_strlit(")");
            reveal_strlit(", ");
            lemma_count_char_zero(" NOT IN ("@, '?');
            lemma_count_char_zero(")"@, '?');
            lemma_count_char_zero(", "@, '?');
            lemma_qmarks_count(vals@.len());
            lemma_count_char_join(spec_qmarks(vals@.len()), ", "@, '?');
            lemma_count_char_append(f@, " NOT IN ("@, '?');
            lemma_count_char_append(f@ + " NOT IN ("@, spec_join(spec_qmarks(vals@.len()), ", "@), '?');
            lemma_count_char_append(
                f@ + " NOT IN ("@ + spec_join(spec_qmarks(vals@.len()), ", "@),
                ")"@,
                '?',
            );
        }
        self.push_or_where(cond);
        let ghost mid = self@;
        let ghost a0 = self@.arguments;
        proof {
            assert(a0 + vals@.map_values(|v: Value| v@).take(0) =~= a0);
        }
        let mut j: usize = 0;
        while j < vals.len()
            invariant
                0 <= j <= vals@.len(),
                a0 == mid.arguments,
                self@ == (QueryBuilderView {
                    arguments: a0 + vals@.map_values(|v: Value| v@).take(j as int),
                    ..mid
                }),
            decreases vals@.len() - j,
        {
            let ghost ap = self@.arguments;
            self.arguments.push(vals[j].clone_value());
            proof {
                assert(self@.arguments =~= ap.push(vals@.map_values(|v: Value| v@)[j as int]));
                assert(self@.arguments =~= a0 + vals@.map_values(|v: Value| v@).take(j + 1));
            }
            j = j + 1;
        }
        proof {
            assert(vals@.map_values(|v: Value| v@).take(vals@.len() as int) =~= vals@.map_values(
                |v: Value| v@,
            ));
        }
    }
}

impl QueryBuilder {

    /// The OR-side of [`Self::and_where_like`].
    pub fn or_where_like(&mut self, f: &str, mask: &str)
        ensures
            old(self)@.wheres.len() == 0 ==> final(self)@ == (QueryBuilderView {
                wheres: old(self)@.wheres.push(f@ + " LIKE '"@ + spec_esc(mask@) + "'"@),
                ..old(self)@
            }),
            old(self)@.wheres.len() > 0 ==> final(self)@ == (QueryBuilderView {
                wheres: old(self)@.wheres.drop_last().push(
                    old(self)@.wheres.last() + " OR "@ + (f@ + " LIKE '"@ + spec_esc(mask@) + "'"@),
                ),
                ..old(self)@
            }),
            count_char_items(final(self)@.wheres, '?') == count_char_items(old(self)@.wheres, '?')
                + count_char(f@, '?') + count_char(spec_esc(mask@), '?'),
            (old(self)@.balanced() && count_char(f@, '?') == 0 && count_char(mask@, '?') == 0)
                ==> final(self)@.balanced(),
    {
        let cond = String::from_str(f).concat(" LIKE '").concat(esc(mask).as_str()).concat(
            "'",
        );
        proof {
            reveal_strlit(" LIKE '");
            reveal_strlit("'");
            lemma_count_char_zero(" LIKE '"@, '?');
            lemma_count_char_zero("'"@, '?');
            lemma_count_char_append(f@, " LIKE '"@, '?');
            lemma_count_char_append(f@ + " LIKE '"@, spec_esc(mask@), '?');
            lemma_count_char_append(f@ + " LIKE '"@ + spec_esc(mask@), "'"@, '?');
            lemma_esc_count(mask@, '?');
        }
        self.push_or_where(cond)
    }

    pub fn or_where_is_null(&mut self, f: &str)
        ensures
            old(self)@.wheres.len() == 0 ==> final(self)@ == (QueryBuilderView {
                wheres: old(self)@.wheres.push(f@ + " IS NULL"@),
                ..old(self)@
            }),
            old(self)@.wheres.len() > 0 ==> final(self)@ == (QueryBuilderView {
                wheres: old(self)@.wheres.drop_last().push(
                    old(self)@.wheres.last() + " OR "@ + (f@ + " IS NULL"@),
                ),
                ..old(self)@
            }),
            count_char_items(final(self)@.wheres, '?') == count_char_items(old(self)@.wheres, '?')
                + count_char(f@, '?'),
            (old(self)@.balanced() && count_char(f@, '?') == 0) ==> final(self)@.balanced(),
    {
        let cond = String::from_str(f).concat(" IS NULL");
        proof {
            lemma_cmp_literal_counts();
            lemma_count_char_append(f@, " IS NULL"@, '?');
        }
        self.push_or_where(cond)
    }

    pub fn or_where_is_not_null(&mut self, f: &str)
        ensures
            old(self)@.wheres.len() == 0 ==> final(self)@ == (QueryBuilderView {
                wheres: old(self)@.wheres.push(f@ + " IS NOT NULL"@),
                ..old(self)@
            }),
            old(self)@.wheres.len() > 0 ==> final(self)@ == (QueryBuilderView {
                wheres: old(self)@.wheres.drop_last().push(
                    old(self)@.wheres.last() + " OR "@ + (f@ + " IS NOT NULL"@),
                ),
                ..old(self)@
            }),
            count_char_items(final(self)@.wheres, '?') == count_char_items(old(self)@.wheres, '?')
                + count_char(f@, '?'),
            (old(self)@.balanced() && count_char(f@, '?') == 0) ==> final(self)@.balanced(),
    {
        let cond = String::from_str(f).concat(" IS NOT NULL");
        proof {
            lemma_cmp_literal_counts();
            lemma_count_char_append(f@, " IS NOT NULL"@, '?');
        }
        self.push_or_where(cond)
    }

    pub fn or_where_between(&mut self, f: &str, min: Value, max: Value)
        ensures
            old(self)@.wheres.len() == 0 ==> final(self)@ == (QueryBuilderView {
                wheres: old(self)@.wheres.push(f@ + " BETWEEN ? AND ?"@),
                arguments: old(self)@.arguments.push(min@).push(max@),
                ..old(self)@
            }),
            old(self)@.wheres.len() > 0 ==> final(self)@ == (QueryBuilderView {
                wheres: old(self)@.wheres.drop_last().push(
                    old(self)@.wheres.last() + " OR "@ + (f@ + " BETWEEN ? AND ?"@),
                ),
                arguments: old(self)@.arguments.push(min@).push(max@),
                ..old(self)@
            }),
            count_char_items(final(self)@.wheres, '?') == count_char_items(old(self)@.wheres, '?')
                + count_char(f@, '?') + 2,
            (old(self)@.balanced() && count_char(f@, '?') == 0 && old(self)@.kind
                != StatementKind::InsertInto) ==> final(self)@.balanced(),
    {
        let cond = String::from_str(f).concat(" BETWEEN ? AND ?");
        proof {
            lemma_cmp_literal_counts();
            lemma_count_char_append(f@, " BETWEEN ? AND ?"@, '?');
        }
        self.push_or_where(cond);
        let ghost a0 = self@.arguments;
        self.arguments.push(min);
        proof {
            assert(self@.arguments =~= a0.push(min@));
        }
        let ghost a1 = self@.arguments;
        self.arguments.push(max);
        proof {
            assert(self@.arguments =~= a1.push(max@));
        }
    }

    pub fn or_where_not_between(&mut self, f: &str, min: Value, max: Value)
        ensures
            old(self)@.wheres.len() == 0 ==> final(self)@ == (QueryBuilderView {
                wheres: old(self)@.wheres.push(f@ + " NOT BETWEEN ? AND ?"@),
                arguments: old(self)@.arguments.push(min@).push(max@),
                ..old(self)@
            }),
            old(self)@.wheres.len() > 0 ==> final(self)@ == (QueryBuilderView {
                wheres: old(self)@.wheres.drop_last().push(
                    old(self)@.wheres.last() + " OR "@ + (f@ + " NOT BETWEEN ? AND ?"@),
                ),
                arguments: old(self)@.arguments.push(min@).push(max@),
                ..old(self)@
            }),
            count_char_items(final(self)@.wheres, '?') == count_char_items(old(self)@.wheres, '?')
                + count_char(f@, '?') + 2,
            (old(self)@.balanced() && count_char(f@, '?') == 0 && old(self)@.kind
                != StatementKind::InsertInto) ==> final(self)@.balanced(),
    {
        let cond = String::from_str(f).concat(" NOT BETWEEN ? AND ?");
        proof {
            lemma_cmp_literal_counts();
            lemma_count_char_append(f@, " NOT BETWEEN ? AND ?"@, '?');
        }
        self.push_or_where(cond);
        let ghost a0 = self@.arguments;
        self.arguments.push(min);
        proof {
            assert(self@.arguments =~= a0.push(min@));
        }
        let ghost a1 = self@.arguments;
        self.arguments.push(max);
        proof {
            assert(self@.arguments =~= a1.push(max@));
        }
    }

    /// Add one GROUP BY column.
    pub fn group_by(&mut self, f: &str)
        ensures
            final(self)@ == (QueryBuilderView {
                group_by: old(self)@.group_by.push(f@),
                ..old(self)@
            }),
    {
        let ghost pre = self@.group_by;
        self.group_by.push(String::from_str(f));
        proof {
            assert(self@.group_by =~= pre.push(f@));
        }
    }

    /// Add the select item `COUNT(<field>) AS <name>`.
    pub fn count_as(&mut self, f: &str, name: &str)
        ensures
            final(self)@ == (QueryBuilderView {
                fields: old(self)@.fields.push("COUNT("@ + f@ + ") AS "@ + name@),
                ..old(self)@
            }),
    {
        let ghost pre = self@.fields;
        let item = String::from_str("COUNT(").concat(f).concat(") AS ").concat(name);
        self.fields.push(item);
        proof {
            assert(self@.fields =~= pre.push("COUNT("@ + f@ + ") AS "@ + name@));
        }
    }

    /// Set the HAVING condition.
    pub fn having(&mut self, cond: &str)
        ensures
            final(self)@ == (QueryBuilderView { having: Some(cond@), ..old(self)@ }),
    {
        self.having = Some(String::from_str(cond));
    }

    /// Add one select or insert column.
    pub fn field(&mut self, f: &str)
        ensures
            final(self)@ == (QueryBuilderView { fields: old(self)@.fields.push(f@), ..old(self)@ }),
    {
        let ghost pre = self@.fields;
        self.fields.push(String::from_str(f));
        proof {
            assert(self@.fields =~= pre.push(f@));
        }
    }

    /// Add several select or insert columns, in order.
    pub fn fields(&mut self, fs: &Vec<String>)
        ensures
            final(self)@ == (QueryBuilderView {
                fields: old(self)@.fields + fs@.map_values(|s: String| s@),
                ..old(self)@
            }),
    {
        let ghost mid = self@;
        let ghost f0 = self@.fields;
        proof {
            assert(f0 + fs@.map_values(|s: String| s@).take(0) =~= f0);
        }
        let mut i: usize = 0;
        while i < fs.len()
            invariant
                0 <= i <= fs@.len(),
                f0 == mid.fields,
                self@ == (QueryBuilderView {
                    fields: f0 + fs@.map_values(|s: String| s@).take(i as int),
                    ..mid
                }),
            decreases fs@.len() - i,
        {
            let ghost fp = self@.fields;
            self.fields.push(fs[i].clone());
            proof {
                assert(self@.fields =~= fp.push(fs@.map_values(|s: String| s@)[i as int]));
                assert(self@.fields =~= f0 + fs@.map_values(|s: String| s@).take(i + 1));
            }
            i = i + 1;
        }
        proof {
            assert(fs@.map_values(|s: String| s@).take(fs@.len() as int) =~= fs@.map_values(
                |s: String| s@,
            ));
        }
    }

    /// Add one ORDER BY item, descending when asked.
    pub fn order_by(&mut self, f: &str, desc: bool)
        ensures
            !desc ==> final(self)@ == (QueryBuilderView {
                order_by: old(self)@.order_by.push(f@),
                ..old(self)@
            }),
            desc ==> final(self)@ == (QueryBuilderView {
                order_by: old(self)@.order_by.push(f@ + " DESC"@),
                ..old(self)@
            }),
    {
        let ghost pre = self@.order_by;
        if desc {
            self.order_by.push(String::from_str(f).concat(" DESC"));
            proof {
                assert(self@.order_by =~= pre.push(f@ + " DESC"@));
            }
        } else {
            self.order_by.push(String::from_str(f));
            proof {
                assert(self@.order_by =~= pre.push(f@));
            }
        }
    }

    pub fn order_asc(&mut self, f: &str)
        ensures
            final(self)@ == (QueryBuilderView {
                order_by: old(self)@.order_by.push(f@),
                ..old(self)@
            }),
    {
        self.order_by(f, false)
    }

    pub fn order_desc(&mut self, f: &str)
        ensures
            final(self)@ == (QueryBuilderView {
                order_by: old(self)@.order_by.push(f@ + " DESC"@),
                ..old(self)@
            }),
    {
        self.order_by(f, true)
    }

    /// Set the LIMIT, rendered in decimal.
    pub fn limit(&mut self, l: u64)
        ensures
            final(self)@ == (QueryBuilderView { limit: Some(spec_dec(l as nat)), ..old(self)@ }),
    {
        self.limit = Some(u64_dec(l));
    }

    /// Set the OFFSET, rendered in decimal.
    pub fn offset(&mut self, o: u64)
        ensures
            final(self)@ == (QueryBuilderView { offset: Some(spec_dec(o as nat)), ..old(self)@ }),
    {
        self.offset = Some(u64_dec(o));
    }

    /// Add the SET fragment `field = ?` and bind its value, in lock-step.
    pub fn set(&mut self, f: &str, v: Value)
        ensures
            final(self)@ == (QueryBuilderView {
                sets: old(self)@.sets.push(f@ + " = ?"@),
                arguments: old(self)@.arguments.push(v@),
                ..old(self)@
            }),
            count_char_items(final(self)@.sets, '?') == count_char_items(old(self)@.sets, '?')
                + count_char(f@, '?') + 1,
            (old(self)@.balanced() && count_char(f@, '?') == 0 && old(self)@.kind
                == StatementKind::UpdateTable) ==> final(self)@.balanced(),
    {
        let ghost pre = self@.sets;
        let cond = String::from_str(f).concat(" = ?");
        proof {
            lemma_cmp_literal_counts();
            lemma_count_char_append(f@, " = ?"@, '?');
        }
        let ghost cv = cond@;
        self.sets.push(cond);
        proof {
            assert(self@.sets =~= pre.push(cv));
            assert(self@.sets.drop_last() =~= pre);
        }
        let ghost a0 = self@.arguments;
        self.arguments.push(v);
        proof {
            assert(self@.arguments =~= a0.push(v@));
        }
    }

    /// Append one VALUES row of `n` placeholders; the matching values are
    /// bound separately, via [`Self::add_arguments`].
    pub fn values_row(&mut self, n: usize)
        ensures
            final(self)@ == (QueryBuilderView {
                values_rows: old(self)@.values_rows.push(
                    "("@ + spec_join(spec_qmarks(n as nat), ", "@) + ")"@,
                ),
                ..old(self)@
            }),
            count_char_items(final(self)@.values_rows, '?') == count_char_items(
                old(self)@.values_rows,
                '?',
            ) + n,
    {
        let mut phs: Vec<String> = Vec::new();
        let mut i: usize = 0;
        while i < n
            invariant
                0 <= i <= n,
                phs@.map_values(|s: String| s@) == spec_qmarks(i as nat),
            decreases n - i,
        {
            let ghost prev = phs@;
            let q = String::from_str("?");
            let ghost qv = q@;
            phs.push(q);
            proof {
                assert(qv == "?"@);
                assert(phs@.map_values(|s: String| s@) =~= prev.map_values(|s: String| s@).push(
                    qv,
                ));
                assert(prev.map_values(|s: String| s@).push(qv) =~= spec_qmarks((i + 1) as nat));
            }
            i = i + 1;
        }
        let row = String::from_str("(").concat(join_comma(&phs).as_str()).concat(")");
        proof {
            reveal_strlit("(");
            reveal_strlit(")");
            reveal_strlit(", ");
            lemma_count_char_zero("("@, '?');
            lemma_count_char_zero(")"@, '?');
            lemma_count_char_zero(", "@, '?');
            lemma_qmarks_count(n as nat);
            lemma_count_char_join(spec_qmarks(n as nat), ", "@, '?');
            lemma_count_char_append("("@, spec_join(spec_qmarks(n as nat), ", "@), '?');
            lemma_count_char_append("("@ + spec_join(spec_qmarks(n as nat), ", "@), ")"@, '?');
        }
        let ghost pre = self@.values_rows;
        let ghost rv = row@;
        self.values_rows.push(row);
        proof {
            assert(self@.values_rows =~= pre.push(rv));
            assert(self@.values_rows.drop_last() =~= pre);
        }
    }
}


impl QueryBuilder {
    /// The WHERE part of the compiled SQL.
    fn make_wheres(&self) -> (r: String)
        ensures
            r@ == spec_make_wheres(self@.wheres),
    {
        let ghost ws = self@.wheres;
        if self.wheres.len() == 0 {
            let r = String::new();
            proof {
                assert(r@ =~= spec_make_wheres(ws));
            }
            r
        } else if self.wheres.len() == 1 {
            String::from_str(" WHERE ").concat(self.wheres[0].as_str())
        } else {
            let mut parens: Vec<String> = Vec::new();
            let mut i: usize = 0;
            while i < self.wheres.len()
                invariant
                    0 <= i <= self.wheres@.len(),
                    ws == self@.wheres,
                    parens@.map_values(|s: String| s@) == spec_parenthesize(ws.take(i as int)),
                decreases self.wheres@.len() - i,
            {
                let ghost prev = parens@;
                let item = String::from_str("(").concat(self.wheres[i].as_str()).concat(")");
                let ghost iv = item@;
                parens.push(item);
                proof {
                    assert(parens@.map_values(|s: String| s@) =~= prev.map_values(|s: String| s@)
                        + seq![iv]);
                    assert(spec_parenthesize(ws.take(i + 1)) =~= spec_parenthesize(
                        ws.take(i as int),
                    ) + seq![iv]);
                }
                i = i + 1;
            }
            proof {
                assert(ws.take(self.wheres@.len() as int) =~= ws);
            }
            String::from_str(" WHERE ").concat(join_strs(&parens, " AND ").as_str())
        }
    }

    /// Compile the accumulated fragments to the final SQL text. A missing
    /// table name, an update without SET fields, or an insert without
    /// VALUES is refused before any round trip could be attempted.
    pub fn build_sql(&self) -> (r: Result<String, DbError>)
        ensures
            self@.table.len() == 0 ==> r == Result::<String, DbError>::Err(DbError::NoTableName),
            self@.table.len() > 0 && self@.kind == StatementKind::UpdateTable && self@.sets.len()
                == 0 ==> r == Result::<String, DbError>::Err(DbError::NoSetFields),
            self@.table.len() > 0 && self@.kind == StatementKind::InsertInto
                && self@.values_rows.len() == 0 ==> r == Result::<String, DbError>::Err(
                DbError::NoValues,
            ),
            self@.table.len() > 0 && (self@.kind == StatementKind::UpdateTable ==> self@.sets.len()
                > 0) && (self@.kind == StatementKind::InsertInto ==> self@.values_rows.len() > 0)
                ==> (r matches Ok(s) && s@ == self@.spec_sql()),
    {
        if self.table.as_str().unicode_len() == 0 {
            proof {
                assert(self@.table.len() == 0);
            }
            return Err(DbError::NoTableName);
        }
        match self.kind {
            StatementKind::SelectFrom => {
                let fields_part = if self.fields.len() == 0 {
                    String::from_str("*")
                } else {
                    join_comma(&self.fields)
                };
                let group_part = if self.group_by.len() == 0 {
                    String::new()
                } else {
                    let h = match &self.having {
                        Some(h) => String::from_str(" HAVING ").concat(h.as_str()),
                        None => String::new(),
                    };
                    String::from_str(" GROUP BY ").concat(join_comma(&self.group_by).as_str())
                        .concat(h.as_str())
                };
                let order_part = if self.order_by.len() == 0 {
                    String::new()
                } else {
                    String::from_str(" ORDER BY ").concat(join_comma(&self.order_by).as_str())
                };
                let limit_part = match &self.limit {
                    Some(l) => String::from_str(" LIMIT ").concat(l.as_str()),
                    None => String::new(),
                };
                let offset_part = match &self.offset {
                    Some(o) => String::from_str(" OFFSET ").concat(o.as_str()),
                    None => String::new(),
                };
                let sql = String::from_str("SELECT ").concat(fields_part.as_str()).concat(
                    " FROM ",
                ).concat(self.table.as_str()).concat(self.make_wheres().as_str()).concat(
                    group_part.as_str(),
                ).concat(order_part.as_str()).concat(limit_part.as_str()).concat(
                    offset_part.as_str(),
                ).concat(";");
                proof {
                    assert(fields_part@ == self@.spec_fields_part());
                    assert(group_part@ =~= self@.spec_group_part());
                    assert(order_part@ =~= self@.spec_order_part());
                    assert(limit_part@ =~= self@.spec_limit_part());
                    assert(offset_part@ =~= self@.spec_offset_part());
                    assert(sql@ =~= self@.spec_select_sql());
                }
                Ok(sql)
            },
            StatementKind::UpdateTable => {
                if self.sets.len() == 0 {
                    return Err(DbError::NoSetFields);
                }
                let sql = String::from_str("UPDATE ").concat(self.table.as_str()).concat(
                    " SET ",
                ).concat(join_comma(&self.sets).as_str()).concat(self.make_wheres().as_str())
                    .concat(";");
                proof {
                    assert(sql@ =~= self@.spec_update_sql());
                }
                Ok(sql)
            },
            StatementKind::InsertInto => {
                if self.values_rows.len() == 0 {
                    return Err(DbError::NoValues);
                }
                let sql = String::from_str("INSERT INTO ").concat(self.table.as_str()).concat(
                    " (",
                ).concat(join_comma(&self.fields).as_str()).concat(") VALUES ").concat(
                    join_comma(&self.values_rows).as_str(),
                ).concat(";");
                proof {
                    assert(sql@ =~= self@.spec_insert_sql());
                }
                Ok(sql)
            },
            StatementKind::DeleteFrom => {
                let sql = String::from_str("DELETE FROM ").concat(self.table.as_str()).concat(
                    self.make_wheres().as_str(),
                ).concat(";");
                proof {
                    assert(sql@ =~= self@.spec_delete_sql());
                }
                Ok(sql)
            },
        }
    }
}

/// The literal glue of every compiled statement holds no placeholder
/// token.
pub proof fn lemma_glue_zero()
    ensures
        count_char("SELECT "@, '?') == 0,
        count_char(" FROM "@, '?') == 0,
        count_char(";"@, '?') == 0,
        count_char("*"@, '?') == 0,
        count_char(" GROUP BY "@, '?') == 0,
        count_char(" HAVING "@, '?') == 0,
        count_char(" ORDER BY "@, '?') == 0,
        count_char(" LIMIT "@, '?') == 0,
        count_char(" OFFSET "@, '?') == 0,
        count_char("UPDATE "@, '?') == 0,
        count_char(" SET "@, '?') == 0,
        count_char("INSERT INTO "@, '?') == 0,
        count_char(" ("@, '?') == 0,
        count_char(") VALUES "@, '?') == 0,
        count_char("DELETE FROM "@, '?') == 0,
        count_char(" WHERE "@, '?') == 0,
        count_char(" AND "@, '?') == 0,
        count_char(", "@, '?') == 0,
        count_char("("@, '?') == 0,
        count_char(")"@, '?') == 0,
{
    reveal_strlit("SELECT ");
    reveal_strlit(" FROM ");
    reveal_strlit(";");
    reveal_strlit("*");
    reveal_strlit(" GROUP BY ");
    reveal_strlit(" HAVING ");
    reveal_strlit(" ORDER BY ");
    reveal_strlit(" LIMIT ");
    reveal_strlit(" OFFSET ");
    reveal_strlit("UPDATE ");
    reveal_strlit(" SET ");
    reveal_strlit("INSERT INTO ");
    reveal_strlit(" (");
    reveal_strlit(") VALUES ");
    reveal_strlit("DELETE FROM ");
    reveal_strlit(" WHERE ");
    reveal_strlit(" AND ");
    reveal_strlit(", ");
    reveal_strlit("(");
    reveal_strlit(")");
    lemma_count_char_zero("SELECT "@, '?');
    lemma_count_char_zero(" FROM "@, '?');
    lemma_count_char_zero(";"@, '?');
    lemma_count_char_zero("*"@, '?');
    lemma_count_char_zero(" GROUP BY "@, '?');
    lemma_count_char_zero(" HAVING "@, '?');
    lemma_count_char_zero(" ORDER BY "@, '?');
    lemma_count_char_zero(" LIMIT "@, '?');
    lemma_count_char_zero(" OFFSET "@, '?');
    lemma_count_char_zero("UPDATE "@, '?');
    lemma_count_char_zero(" SET "@, '?');
    lemma_count_char_zero("INSERT INTO "@, '?');
    lemma_count_char_zero(" ("@, '?');
    lemma_count_char_zero(") VALUES "@, '?');
    lemma_count_char_zero("DELETE FROM "@, '?');
    lemma_count_char_zero(" WHERE "@, '?');
    lemma_count_char_zero(" AND "@, '?');
    lemma_count_char_zero(", "@, '?');
    lemma_count_char_zero("("@, '?');
    lemma_count_char_zero(")"@, '?');
}

/// Parenthesizing the conditions changes no placeholder count.
pub proof fn lemma_parenthesize_count(ws: Seq<Seq<char>>)
    ensures
        count_char_items(spec_parenthesize(ws), '?') == count_char_items(ws, '?'),
    decreases ws.len(),
{
    lemma_glue_zero();
    if ws.len() > 0 {
        lemma_parenthesize_count(ws.drop_last());
        assert(spec_parenthesize(ws).drop_last() =~= spec_parenthesize(ws.drop_last()));
        assert(spec_parenthesize(ws).last() == "("@ + ws.last() + ")"@);
        lemma_count_char_append("("@, ws.last(), '?');
        lemma_count_char_append("("@ + ws.last(), ")"@, '?');
    }
}

/// The WHERE part shows exactly the placeholders of its conditions.
pub proof fn lemma_make_wheres_count(ws: Seq<Seq<char>>)
    ensures
        count_char(spec_make_wheres(ws), '?') == count_char_items(ws, '?'),
{
    lemma_glue_zero();
    if ws.len() == 0 {
        assert(count_char(spec_make_wheres(ws), '?') == 0);
    } else if ws.len() == 1 {
        lemma_count_char_append(" WHERE "@, ws[0], '?');
        assert(ws.drop_last() =~= Seq::<Seq<char>>::empty());
        assert(count_char_items(Seq::<Seq<char>>::empty(), '?') == 0);
        assert(count_char_items(ws, '?') == count_char(ws.last(), '?'));
        assert(ws[0] == ws.last());
    } else {
        lemma_parenthesize_count(ws);
        lemma_count_char_join(spec_parenthesize(ws), " AND "@, '?');
        lemma_count_char_append(" WHERE "@, spec_join(spec_parenthesize(ws), " AND "@), '?');
    }
}

/// A joined list of marker-free items is marker-free.
pub proof fn lemma_join_zero(items: Seq<Seq<char>>, sep: Seq<char>)
    requires
        count_char_items(items, '?') == 0,
        count_char(sep, '?') == 0,
    ensures
        count_char(spec_join(items, sep), '?') == 0,
{
    lemma_count_char_join(items, sep, '?');
}

/// In the compiled SQL of a balanced builder whose caller-supplied texts
/// are free of placeholder tokens, the number of placeholder tokens equals
/// the length of the bound-argument sequence: the positions correspond one
/// to one, in order of appending.
pub proof fn lemma_placeholders_match_arguments(q: QueryBuilderView)
    requires
        q.balanced(),
        q.clean(),
    ensures
        count_char(q.spec_sql(), '?') == q.arguments.len(),
{
    lemma_glue_zero();
    lemma_make_wheres_count(q.wheres);
    match q.kind {
        StatementKind::SelectFrom => {
            if q.fields.len() > 0 {
                lemma_join_zero(q.fields, ", "@);
            }
            assert(count_char(q.spec_fields_part(), '?') == 0);
            if q.group_by.len() > 0 {
                lemma_join_zero(q.group_by, ", "@);
                match q.having {
                    Some(h) => {
                        lemma_count_char_append(" HAVING "@, h, '?');
                        lemma_count_char_append(" GROUP BY "@ + spec_join(q.group_by, ", "@),
                            " HAVING "@ + h, '?');
                        lemma_count_char_append(" GROUP BY "@, spec_join(q.group_by, ", "@), '?');
                    },
                    None => {
                        lemma_count_char_append(" GROUP BY "@ + spec_join(q.group_by, ", "@),
                            Seq::empty(), '?');
                        lemma_count_char_append(" GROUP BY "@, spec_join(q.group_by, ", "@), '?');
                    },
                }
            }
            assert(count_char(q.spec_group_part(), '?') == 0);
            if q.order_by.len() > 0 {
                lemma_join_zero(q.order_by, ", "@);
                lemma_count_char_append(" ORDER BY "@, spec_join(q.order_by, ", "@), '?');
            }
            assert(count_char(q.spec_order_part(), '?') == 0);
            match q.limit {
                Some(l) => {
                    lemma_count_char_append(" LIMIT "@, l, '?');
                },
                None => {},
            }
            assert(count_char(q.spec_limit_part(), '?') == 0);
            match q.offset {
                Some(o) => {
                    lemma_count_char_append(" OFFSET "@, o, '?');
                },
                None => {},
            }
            assert(count_char(q.spec_offset_part(), '?') == 0);
            let a = "SELECT "@ + q.spec_fields_part();
            let b = a + " FROM "@;
            let c = b + q.table;
            let d = c + spec_make_wheres(q.wheres);
            let e = d + q.spec_group_part();
            let f = e + q.spec_order_part();
            let g = f + q.spec_limit_part();
            let h = g + q.spec_offset_part();
            lemma_count_char_append("SELECT "@, q.spec_fields_part(), '?');
            lemma_count_char_append(a, " FROM "@, '?');
            lemma_count_char_append(b, q.table, '?');
            lemma_count_char_append(c, spec_make_wheres(q.wheres), '?');
            lemma_count_char_append(d, q.spec_group_part(), '?');
            lemma_count_char_append(e, q.spec_order_part(), '?');
            lemma_count_char_append(f, q.spec_limit_part(), '?');
            lemma_count_char_append(g, q.spec_offset_part(), '?');
            lemma_count_char_append(h, ";"@, '?');
        },
        StatementKind::UpdateTable => {
            lemma_count_char_join(q.sets, ", "@, '?');
            let a = "UPDATE "@ + q.table;
            let b = a + " SET "@;
            let c = b + spec_join(q.sets, ", "@);
            let d = c + spec_make_wheres(q.wheres);
            lemma_count_char_append("UPDATE "@, q.table, '?');
            lemma_count_char_append(a, " SET "@, '?');
            lemma_count_char_append(b, spec_join(q.sets, ", "@), '?');
            lemma_count_char_append(c, spec_make_wheres(q.wheres), '?');
            lemma_count_char_append(d, ";"@, '?');
        },
        StatementKind::InsertInto => {
            lemma_join_zero(q.fields, ", "@);
            lemma_count_char_join(q.values_rows, ", "@, '?');
            let a = "INSERT INTO "@ + q.table;
            let b = a + " ("@;
            let c = b + spec_join(q.fields, ", "@);
            let d = c + ") VALUES "@;
            let e = d + spec_join(q.values_rows, ", "@);
            lemma_count_char_append("INSERT INTO "@, q.table, '?');
            lemma_count_char_append(a, " ("@, '?');
            lemma_count_char_append(b, spec_join(q.fields, ", "@), '?');
            lemma_count_char_append(c, ") VALUES "@, '?');
            lemma_count_char_append(d, spec_join(q.values_rows, ", "@), '?');
            lemma_count_char_append(e, ";"@, '?');
        },
        StatementKind::DeleteFrom => {
            let a = "DELETE FROM "@ + q.table;
            let b = a + spec_make_wheres(q.wheres);
            lemma_count_char_append("DELETE FROM "@, q.table, '?');
            lemma_count_char_append(a, spec_make_wheres(q.wheres), '?');
            lemma_count_char_append(b, ";"@, '?');
        },
    }
}

/// Helper: a glue literal with no marker, followed by `?`, counts one.
proof fn lemma_one_ph(glue: &str, whole: &str)
    requires
        forall|i: int| 0 <= i < glue@.len() ==> glue@[i] != '?',
        whole@ =~= glue@ + "?"@,
        "?"@ =~= seq!['?'],
    ensures
        count_char(whole@, '?') == 1,
{
    lemma_count_char_zero(glue@, '?');
    lemma_count_char_singleton('?', '?');
    lemma_count_char_append(glue@, "?"@, '?');
}

} // verus!
