//! The code synthesizer: from an entity descriptor and a dialect it computes
//! the exact SQL text of every generated access method. Column and argument
//! order follow declaration order, except that the id is ordered last in
//! update statements, where it sits in the WHERE clause.

use vstd::prelude::*;
use crate::backend::Backend;
use crate::schema::{Schema, idx_mapped};
use crate::attrs::{Getter, GetterView};
use crate::table::{FieldView, Table, TableField, TableView, idx_except};
use crate::strutil::{count_char, join_comma, join_strs, lemma_count_char_append, spec_join};

verus! {

impl FieldView {
    /// The column reference of this field: the column name, quoted with the
    /// dialect's quote character when it collides with a reserved word.
    pub open spec fn spec_column(self, b: Backend) -> Seq<char> {
        if self.reserved_ident {
            seq![b.spec_quote()] + self.column_name + seq![b.spec_quote()]
        } else {
            self.column_name
        }
    }

    /// The select-list item of this field: the column reference, aliased to
    /// the field name when it differs from the column name, and carrying a
    /// storage-type coercion hint when the field is custom-typed.
    pub open spec fn spec_fmt_for_select(self, b: Backend) -> Seq<char> {
        if self.custom_type {
            self.spec_column(b) + " AS "@ + seq![b.spec_quote()] + self.field + ": _"@
                + seq![b.spec_quote()]
        } else if self.field == self.column_name {
            self.spec_column(b)
        } else {
            self.spec_column(b) + " AS "@ + self.field
        }
    }
}

/// The select-list items of the mapped fields, in declaration order.
pub open spec fn spec_select_items(fields: Seq<FieldView>, b: Backend) -> Seq<Seq<char>>
    decreases fields.len(),
{
    if fields.len() == 0 {
        Seq::empty()
    } else {
        spec_select_items(fields.drop_last(), b) + (if !fields.last().unmapped {
            seq![fields.last().spec_fmt_for_select(b)]
        } else {
            Seq::empty()
        })
    }
}

/// The comma-separated select column list of the mapped fields.
pub open spec fn spec_select_column_list(fields: Seq<FieldView>, b: Backend) -> Seq<char> {
    spec_join(spec_select_items(fields, b), ", "@)
}

impl TableView {
    pub open spec fn spec_get_sql(self, b: Backend) -> Seq<char> {
        "SELECT "@ + spec_select_column_list(self.fields, b) + " FROM "@ + self.table + " WHERE "@
            + self.id_field().spec_column(b) + " = "@ + b.spec_placeholder(1)
    }

    pub open spec fn spec_stream_all_sql(self, b: Backend) -> Seq<char> {
        "SELECT "@ + spec_select_column_list(self.fields, b) + " FROM "@ + self.table
    }

    pub open spec fn spec_stream_all_paginated_sql(self, b: Backend) -> Seq<char> {
        self.spec_stream_all_sql(b) + " LIMIT "@ + b.spec_placeholder(1) + " OFFSET "@
            + b.spec_placeholder(2)
    }

    pub open spec fn spec_delete_sql(self, b: Backend) -> Seq<char> {
        "DELETE FROM "@ + self.table + " WHERE "@ + self.id_field().spec_column(b) + " = "@
            + b.spec_placeholder(1)
    }

    pub open spec fn spec_setter_sql(self, b: Backend, f: FieldView) -> Seq<char> {
        "UPDATE "@ + self.table + " SET "@ + f.spec_column(b) + " = "@ + b.spec_placeholder(1)
            + " WHERE "@ + self.id_field().spec_column(b) + " = "@ + b.spec_placeholder(2)
    }

    pub open spec fn spec_getter_sql(self, b: Backend, f: FieldView) -> Seq<char> {
        "SELECT "@ + spec_select_column_list(self.fields, b) + " FROM "@ + self.table + " WHERE "@
            + f.spec_column(b) + " = "@ + b.spec_placeholder(1)
    }
}

/// How many of the first `m` fields are not the id.
pub open spec fn count_except(m: int, id: int) -> int {
    if 0 <= id < m {
        m - 1
    } else {
        m
    }
}

/// The SET-list items of the update statement: one `column = placeholder`
/// fragment per non-id field, placeholders numbered in declaration order.
pub open spec fn spec_update_items(fields: Seq<FieldView>, id: int, b: Backend) -> Seq<Seq<char>>
    decreases fields.len(),
{
    if fields.len() == 0 {
        Seq::empty()
    } else {
        spec_update_items(fields.drop_last(), id, b) + (if fields.len() - 1 != id {
            seq![
                fields.last().spec_column(b) + " = "@ + b.spec_placeholder(
                    (count_except(fields.len() - 1, id) + 1) as nat,
                ),
            ]
        } else {
            Seq::empty()
        })
    }
}

impl TableView {
    /// The WHERE clause of the update statement: the id column bound to the
    /// one placeholder that follows all SET placeholders.
    pub open spec fn spec_update_where(self, b: Backend) -> Seq<char> {
        " WHERE "@ + self.id_field().spec_column(b) + " = "@ + b.spec_placeholder(
            (count_except(self.fields.len() as int, self.id.unwrap()) + 1) as nat,
        )
    }

    pub open spec fn spec_update_sql(self, b: Backend) -> Seq<char> {
        "UPDATE "@ + self.table + " SET "@ + spec_join(
            spec_update_items(self.fields, self.id.unwrap(), b),
            ", "@,
        ) + self.spec_update_where(b)
    }

    /// The argument order of the update statement: every non-id field in
    /// declaration order, then the id, which is always bound last.
    pub open spec fn spec_update_args(self) -> Seq<int> {
        idx_except(self.fields.len() as int, self.id.unwrap()) + seq![self.id.unwrap()]
    }
}

impl TableField {
    /// The column reference of this field under dialect `b`.
    pub fn column(&self, b: &Backend) -> (r: String)
        ensures
            r@ == self@.spec_column(*b),
    {
        if self.reserved_ident {
            let q = b.quote_str();
            let r = String::from_str(q).concat(self.column_name.as_str()).concat(q);
            proof {
                assert(r@ =~= self@.spec_column(*b));
            }
            r
        } else {
            self.column_name.clone()
        }
    }

    /// The select-list item of this field under dialect `b`.
    pub fn fmt_for_select(&self, b: &Backend) -> (r: String)
        ensures
            r@ == self@.spec_fmt_for_select(*b),
    {
        if self.custom_type {
            let q = b.quote_str();
            let r = self.column(b).concat(" AS ").concat(q).concat(self.field.as_str()).concat(
                ": _",
            ).concat(q);
            proof {
                assert(r@ =~= self@.spec_fmt_for_select(*b));
            }
            r
        } else if self.field == self.column_name {
            self.column(b)
        } else {
            self.column(b).concat(" AS ").concat(self.field.as_str())
        }
    }
}

impl Table {
    /// The select-list items of the mapped fields, in declaration order.
    pub fn select_items(&self, b: &Backend) -> (r: Vec<String>)
        ensures
            r@.map_values(|s: String| s@) == spec_select_items(self@.fields, *b),
    {
        let mut r: Vec<String> = Vec::new();
        let mut i: usize = 0;
        while i < self.fields.len()
            invariant
                0 <= i <= self.fields.len(),
                r@.map_values(|s: String| s@) == spec_select_items(
                    self@.fields.take(i as int),
                    *b,
                ),
            decreases self.fields.len() - i,
        {
            proof {
                assert(self@.fields.take(i + 1).drop_last() =~= self@.fields.take(i as int));
                assert(self@.fields.take(i + 1).last() == self@.fields[i as int]);
            }
            if !self.fields[i].unmapped {
                let ghost prev = r@;
                let item = self.fields[i].fmt_for_select(b);
                r.push(item);
                proof {
                    assert(r@.map_values(|s: String| s@) =~= prev.map_values(|s: String| s@)
                        + seq![self@.fields[i as int].spec_fmt_for_select(*b)]);
                }
            }
            i = i + 1;
        }
        proof {
            assert(self@.fields.take(self.fields@.len() as int) =~= self@.fields);
        }
        r
    }

    /// The comma-separated select column list of the mapped fields.
    pub fn select_column_list(&self, b: &Backend) -> (r: String)
        ensures
            r@ == spec_select_column_list(self@.fields, *b),
    {
        let items = self.select_items(b);
        join_comma(&items)
    }

    /// The SQL of `get(id)`.
    pub fn get_sql(&self, b: &Backend) -> (r: String)
        requires
            self@.is_idable(),
        ensures
            r@ == self@.spec_get_sql(*b),
    {
        let id = self.id.unwrap();
        let r = String::from_str("SELECT ").concat(self.select_column_list(b).as_str()).concat(
            " FROM ",
        ).concat(self.table.as_str()).concat(" WHERE ").concat(
            self.fields[id].column(b).as_str(),
        ).concat(" = ").concat(b.placeholder(1).as_str());
        proof {
            assert(r@ =~= self@.spec_get_sql(*b));
        }
        r
    }

    /// The SQL of `stream_all()` and `all()`.
    pub fn stream_all_sql(&self, b: &Backend) -> (r: String)
        ensures
            r@ == self@.spec_stream_all_sql(*b),
    {
        let r = String::from_str("SELECT ").concat(self.select_column_list(b).as_str()).concat(
            " FROM ",
        ).concat(self.table.as_str());
        proof {
            assert(r@ =~= self@.spec_stream_all_sql(*b));
        }
        r
    }

    /// The SQL of `stream_all_paginated(offset, limit)` and
    /// `all_paginated(..)`.
    pub fn stream_all_paginated_sql(&self, b: &Backend) -> (r: String)
        ensures
            r@ == self@.spec_stream_all_paginated_sql(*b),
    {
        let r = self.stream_all_sql(b).concat(" LIMIT ").concat(b.placeholder(1).as_str()).concat(
            " OFFSET ",
        ).concat(b.placeholder(2).as_str());
        proof {
            assert(r@ =~= self@.spec_stream_all_paginated_sql(*b));
        }
        r
    }

    /// The SQL of `delete_row(id)` and `delete()`.
    pub fn delete_sql(&self, b: &Backend) -> (r: String)
        requires
            self@.is_idable(),
        ensures
            r@ == self@.spec_delete_sql(*b),
    {
        let id = self.id.unwrap();
        let r = String::from_str("DELETE FROM ").concat(self.table.as_str()).concat(
            " WHERE ",
        ).concat(self.fields[id].column(b).as_str()).concat(" = ").concat(
            b.placeholder(1).as_str(),
        );
        proof {
            assert(r@ =~= self@.spec_delete_sql(*b));
        }
        r
    }

    /// The SQL of the full-row update: one `column = placeholder` per non-id
    /// field in declaration order, then the id bound by the last placeholder
    /// in the WHERE clause.
    pub fn update_sql(&self, b: &Backend) -> (r: String)
        requires
            self@.is_idable(),
        ensures
            r@ == self@.spec_update_sql(*b),
    {
        let id = self.id.unwrap();
        let ghost idi = id as int;
        let mut items: Vec<String> = Vec::new();
        let mut nonid: u64 = 0;
        let mut i: usize = 0;
        while i < self.fields.len()
            invariant
                0 <= i <= self.fields.len(),
                self@.is_idable(),
                id == self@.id.unwrap(),
                idi == id as int,
                nonid == count_except(i as int, idi),
                items@.map_values(|s: String| s@) == spec_update_items(
                    self@.fields.take(i as int),
                    idi,
                    *b,
                ),
            decreases self.fields.len() - i,
        {
            proof {
                assert(self@.fields.take(i + 1).drop_last() =~= self@.fields.take(i as int));
                assert(self@.fields.take(i + 1).last() == self@.fields[i as int]);
            }
            if i != id {
                let ghost prev = items@;
                let item = self.fields[i].column(b).concat(" = ").concat(
                    b.placeholder(nonid + 1).as_str(),
                );
                items.push(item);
                nonid = nonid + 1;
                proof {
                    assert(item@ =~= self@.fields[i as int].spec_column(*b) + " = "@
                        + b.spec_placeholder((count_except(i as int, idi) + 1) as nat));
                    assert(items@.map_values(|s: String| s@) =~= prev.map_values(|s: String| s@)
                        + seq![item@]);
                }
            }
            i = i + 1;
        }
        proof {
            assert(self@.fields.take(self.fields@.len() as int) =~= self@.fields);
        }
        let assignments = join_comma(&items);
        let r = String::from_str("UPDATE ").concat(self.table.as_str()).concat(" SET ").concat(
            assignments.as_str(),
        ).concat(" WHERE ").concat(self.fields[id].column(b).as_str()).concat(" = ").concat(
            b.placeholder(nonid + 1).as_str(),
        );
        proof {
            assert(r@ =~= self@.spec_update_sql(*b));
        }
        r
    }

    /// The argument order of the full-row update: every non-id field in
    /// declaration order, then the id last.
    pub fn update_args(&self) -> (r: Vec<usize>)
        requires
            self@.is_idable(),
        ensures
            r@.map_values(|u: usize| u as int) == self@.spec_update_args(),
    {
        let mut r = self.fields_except_id();
        let ghost prev = r@;
        r.push(self.id.unwrap());
        proof {
            assert(r@.map_values(|u: usize| u as int) =~= prev.map_values(|u: usize| u as int)
                + seq![self@.id.unwrap()]);
        }
        r
    }

    /// The SQL of the setter for field `idx`.
    pub fn setter_sql(&self, b: &Backend, idx: usize) -> (r: String)
        requires
            self@.is_idable(),
            idx < self.fields@.len(),
        ensures
            r@ == self@.spec_setter_sql(*b, self@.fields[idx as int]),
    {
        let id = self.id.unwrap();
        let r = String::from_str("UPDATE ").concat(self.table.as_str()).concat(" SET ").concat(
            self.fields[idx].column(b).as_str(),
        ).concat(" = ").concat(b.placeholder(1).as_str()).concat(" WHERE ").concat(
            self.fields[id].column(b).as_str(),
        ).concat(" = ").concat(b.placeholder(2).as_str());
        proof {
            assert(r@ =~= self@.spec_setter_sql(*b, self@.fields[idx as int]));
        }
        r
    }

    /// The SQL of a getter keyed on field `idx`.
    pub fn getter_sql(&self, b: &Backend, idx: usize) -> (r: String)
        requires
            idx < self.fields@.len(),
        ensures
            r@ == self@.spec_getter_sql(*b, self@.fields[idx as int]),
    {
        let r = String::from_str("SELECT ").concat(self.select_column_list(b).as_str()).concat(
            " FROM ",
        ).concat(self.table.as_str()).concat(" WHERE ").concat(
            self.fields[idx].column(b).as_str(),
        ).concat(" = ").concat(b.placeholder(1).as_str());
        proof {
            assert(r@ =~= self@.spec_getter_sql(*b, self@.fields[idx as int]));
        }
        r
    }
}

/// The resolved name and argument type of a getter directive: the given
/// ones, or `by_<field>` and `&<type>` when absent.
pub open spec fn spec_or_fallback(g: GetterView, f: FieldView) -> (Seq<char>, Seq<char>) {
    (
        match g.func {
            Some(n) => n,
            None => "by_"@ + f.field,
        },
        match g.arg_ty {
            Some(t) => t,
            None => "&"@ + f.ty,
        },
    )
}

impl Getter {
    /// The getter's function name and argument type, with fallbacks derived
    /// from the field.
    pub fn or_fallback(&self, field: &TableField) -> (r: (String, String))
        ensures
            r.0@ == spec_or_fallback(self@, field@).0,
            r.1@ == spec_or_fallback(self@, field@).1,
    {
        let func = match &self.func {
            Some(n) => n.clone(),
            None => String::from_str("by_").concat(field.field.as_str()),
        };
        let arg = match &self.arg_ty {
            Some(t) => t.clone(),
            None => String::from_str("&").concat(field.ty.as_str()),
        };
        (func, arg)
    }
}

/// What a getter returns: exactly one row, zero or one row, or all
/// matching rows.
#[derive(Clone, Copy, PartialEq, Eq, Structural)]
pub enum GetterKind {
    One,
    Optional,
    Many,
}

/// One generated getter: its function name, its argument type, its return
/// shape, and the SQL it executes.
pub struct GetterPlan {
    pub func: String,
    pub arg_ty: String,
    pub kind: GetterKind,
    pub sql: String,
}

pub ghost struct GetterPlanView {
    pub func: Seq<char>,
    pub arg_ty: Seq<char>,
    pub kind: GetterKind,
    pub sql: Seq<char>,
}

impl View for GetterPlan {
    type V = GetterPlanView;

    open spec fn view(&self) -> GetterPlanView {
        GetterPlanView {
            func: self.func@,
            arg_ty: self.arg_ty@,
            kind: self.kind,
            sql: self.sql@,
        }
    }
}

/// The getters one field contributes: one per directive it carries, in the
/// order one-row, optional, many.
pub open spec fn spec_field_getters(t: TableView, b: Backend, f: FieldView) -> Seq<GetterPlanView> {
    (match f.get_one {
        Some(g) => seq![
            GetterPlanView {
                func: spec_or_fallback(g, f).0,
                arg_ty: spec_or_fallback(g, f).1,
                kind: GetterKind::One,
                sql: t.spec_getter_sql(b, f),
            },
        ],
        None => Seq::empty(),
    }) + (match f.get_optional {
        Some(g) => seq![
            GetterPlanView {
                func: spec_or_fallback(g, f).0,
                arg_ty: spec_or_fallback(g, f).1,
                kind: GetterKind::Optional,
                sql: t.spec_getter_sql(b, f),
            },
        ],
        None => Seq::empty(),
    }) + (match f.get_many {
        Some(g) => seq![
            GetterPlanView {
                func: spec_or_fallback(g, f).0,
                arg_ty: spec_or_fallback(g, f).1,
                kind: GetterKind::Many,
                sql: t.spec_getter_sql(b, f),
            },
        ],
        None => Seq::empty(),
    })
}

/// The getters of the first `i` fields, in declaration order.
pub open spec fn spec_getters_plan(t: TableView, b: Backend, i: int) -> Seq<GetterPlanView>
    decreases i,
{
    if i <= 0 {
        Seq::empty()
    } else {
        spec_getters_plan(t, b, i - 1) + spec_field_getters(t, b, t.fields[i - 1])
    }
}

/// One generated setter: its function name and the SQL it executes; on
/// success the in-memory field is set to the new value, so memory and
/// storage never diverge.
pub struct SetterPlan {
    pub func: String,
    pub sql: String,
}

pub ghost struct SetterPlanView {
    pub func: Seq<char>,
    pub sql: Seq<char>,
}

impl View for SetterPlan {
    type V = SetterPlanView;

    open spec fn view(&self) -> SetterPlanView {
        SetterPlanView { func: self.func@, sql: self.sql@ }
    }
}

/// The setters of the first `i` fields, in declaration order: one per
/// field carrying a setter directive.
pub open spec fn spec_setters_plan(t: TableView, b: Backend, i: int) -> Seq<SetterPlanView>
    decreases i,
{
    if i <= 0 {
        Seq::empty()
    } else {
        spec_setters_plan(t, b, i - 1) + (match t.fields[i - 1].setter {
            Some(name) => seq![
                SetterPlanView { func: name, sql: t.spec_setter_sql(b, t.fields[i - 1]) },
            ],
            None => Seq::empty(),
        })
    }
}

impl Table {
    /// Every getter the descriptor's directives ask for, in declaration
    /// order, field by field.
    #[verifier::rlimit(60)]
    pub fn getters(&self, b: &Backend) -> (r: Vec<GetterPlan>)
        ensures
            r@.map_values(|p: GetterPlan| p@) == spec_getters_plan(
                self@,
                *b,
                self@.fields.len() as int,
            ),
    {
        let mut r: Vec<GetterPlan> = Vec::new();
        let mut i: usize = 0;
        while i < self.fields.len()
            invariant
                0 <= i <= self.fields@.len(),
                r@.map_values(|p: GetterPlan| p@) == spec_getters_plan(self@, *b, i as int),
            decreases self.fields@.len() - i,
        {
            let f = &self.fields[i];
            let sql = self.getter_sql(b, i);
            if let Some(g) = &f.get_one {
                let ghost prev = r@;
                let (func, arg_ty) = g.or_fallback(f);
                r.push(GetterPlan { func, arg_ty, kind: GetterKind::One, sql: sql.clone() });
                proof {
                    assert(r@.map_values(|p: GetterPlan| p@) =~= prev.map_values(
                        |p: GetterPlan| p@,
                    ).push(r@.last()@));
                }
            }
            if let Some(g) = &f.get_optional {
                let ghost prev = r@;
                let (func, arg_ty) = g.or_fallback(f);
                r.push(GetterPlan { func, arg_ty, kind: GetterKind::Optional, sql: sql.clone() });
                proof {
                    assert(r@.map_values(|p: GetterPlan| p@) =~= prev.map_values(
                        |p: GetterPlan| p@,
                    ).push(r@.last()@));
                }
            }
            if let Some(g) = &f.get_many {
                let ghost prev = r@;
                let (func, arg_ty) = g.or_fallback(f);
                r.push(GetterPlan { func, arg_ty, kind: GetterKind::Many, sql });
                proof {
                    assert(r@.map_values(|p: GetterPlan| p@) =~= prev.map_values(
                        |p: GetterPlan| p@,
                    ).push(r@.last()@));
                }
            }
            proof {
                assert(r@.map_values(|p: GetterPlan| p@) =~= spec_getters_plan(
                    self@,
                    *b,
                    i + 1 as int,
                ));
            }
            i = i + 1;
        }
        r
    }

    /// Every setter the descriptor's directives ask for, in declaration
    /// order.
    pub fn setters(&self, b: &Backend) -> (r: Vec<SetterPlan>)
        requires
            self@.is_idable(),
        ensures
            r@.map_values(|p: SetterPlan| p@) == spec_setters_plan(
                self@,
                *b,
                self@.fields.len() as int,
            ),
    {
        let mut r: Vec<SetterPlan> = Vec::new();
        let mut i: usize = 0;
        while i < self.fields.len()
            invariant
                0 <= i <= self.fields@.len(),
                self@.is_idable(),
                r@.map_values(|p: SetterPlan| p@) == spec_setters_plan(self@, *b, i as int),
            decreases self.fields@.len() - i,
        {
            if let Some(name) = &self.fields[i].setter {
                let ghost prev = r@;
                let sql = self.setter_sql(b, i);
                r.push(SetterPlan { func: name.clone(), sql });
                proof {
                    assert(r@.map_values(|p: SetterPlan| p@) =~= prev.map_values(
                        |p: SetterPlan| p@,
                    ).push(r@.last()@));
                }
            }
            proof {
                assert(r@.map_values(|p: SetterPlan| p@) =~= spec_setters_plan(
                    self@,
                    *b,
                    i + 1 as int,
                ));
            }
            i = i + 1;
        }
        r
    }
}

/// The bound values of a paginated scan, in binding order: the limit
/// first, then the offset, matching the `LIMIT ? OFFSET ?` placeholder
/// order.
pub fn stream_all_paginated_binds(offset: i64, limit: i64) -> (r: Vec<i64>)
    ensures
        r@ == seq![limit, offset],
{
    let mut r: Vec<i64> = Vec::new();
    r.push(limit);
    r.push(offset);
    proof {
        assert(r@ =~= seq![limit, offset]);
    }
    r
}

/// The name under which generated code of an outside crate refers to the
/// result of folding a name to title case.
pub uninterp spec fn title_of(s: Seq<char>) -> Seq<char>;

/// Relies on Inflector's to_title_case: the result is a pure function of
/// the characters of the argument, and an empty string stays empty.
#[verifier::external_body]
fn to_title_case(s: &str) -> (r: String)
    ensures
        r@ == title_of(s@),
        s@.len() == 0 ==> r@.len() == 0,
{
    inflector::cases::titlecase::to_title_case(s)
}

impl Table {
    /// The name of the generated primary-key trait: `Pk` followed by the
    /// title-cased table name.
    pub fn table_trait(&self) -> (r: String)
        ensures
            r@ == "Pk"@ + title_of(self@.table),
    {
        String::from_str("Pk").concat(to_title_case(self.table.as_str()).as_str())
    }

    /// The trait the primary-key types hang off: the same name the table
    /// trait carries.
    pub fn primary_key_trait(&self) -> (r: String)
        ensures
            r@ == "Pk"@ + title_of(self@.table),
    {
        self.table_trait()
    }
}

impl TableField {
    /// The associated-type name of this field's primary key: `Pk` followed
    /// by the title-cased field name.
    pub fn fmt_for_pk(&self) -> (r: String)
        ensures
            r@ == "Pk"@ + title_of(self@.field),
    {
        String::from_str("Pk").concat(to_title_case(self.field.as_str()).as_str())
    }

    /// The associated-type declaration for this field's primary key, as the
    /// primary-key trait declares it.
    pub fn fmt_for_pk_decl(&self) -> (r: String)
        ensures
            r@ == "type "@ + ("Pk"@ + title_of(self@.field)) + ";"@,
    {
        String::from_str("type ").concat(self.fmt_for_pk().as_str()).concat(";")
    }

    /// The associated-type binding for this field's primary key, as the
    /// implementing block defines it.
    pub fn fmt_for_pk_binding(&self) -> (r: String)
        ensures
            r@ == "type "@ + ("Pk"@ + title_of(self@.field)) + " = "@ + self@.ty + ";"@,
    {
        String::from_str("type ").concat(self.fmt_for_pk().as_str()).concat(" = ").concat(
            self.ty.as_str(),
        ).concat(";")
    }
}

/// The column references of the mapped fields, in declaration order: what
/// the runtime mapping reports as its column list.
pub open spec fn spec_schema_columns(fields: Seq<FieldView>, b: Backend) -> Seq<Seq<char>>
    decreases fields.len(),
{
    if fields.len() == 0 {
        Seq::empty()
    } else {
        spec_schema_columns(fields.drop_last(), b) + (if !fields.last().unmapped {
            seq![fields.last().spec_column(b)]
        } else {
            Seq::empty()
        })
    }
}

impl Schema {
    /// The mapped fields' column references, in declaration order; this is
    /// also the order their values are bound in as insert arguments.
    pub fn columns(&self, b: &Backend) -> (r: Vec<String>)
        ensures
            r@.map_values(|s: String| s@) == spec_schema_columns(self@.fields, *b),
    {
        let mut r: Vec<String> = Vec::new();
        let mut i: usize = 0;
        while i < self.fields.len()
            invariant
                0 <= i <= self.fields@.len(),
                r@.map_values(|s: String| s@) == spec_schema_columns(
                    self@.fields.take(i as int),
                    *b,
                ),
            decreases self.fields@.len() - i,
        {
            proof {
                assert(self@.fields.take(i + 1).drop_last() =~= self@.fields.take(i as int));
                assert(self@.fields.take(i + 1).last() == self@.fields[i as int]);
            }
            if !self.fields[i].unmapped {
                let ghost prev = r@;
                let item = self.fields[i].column(b);
                r.push(item);
                proof {
                    assert(r@.map_values(|s: String| s@) =~= prev.map_values(|s: String| s@)
                        + seq![self@.fields[i as int].spec_column(*b)]);
                }
            }
            i = i + 1;
        }
        proof {
            assert(self@.fields.take(self.fields@.len() as int) =~= self@.fields);
        }
        r
    }

    /// Where each field's value comes from when a row is decoded: a mapped
    /// field is read from its column, an unmapped field is filled with a
    /// default.
    pub fn from_row_plan(&self, b: &Backend) -> (r: Vec<Option<String>>)
        ensures
            r@.len() == self@.fields.len(),
            forall|i: int|
                0 <= i < self@.fields.len() ==> match #[trigger] r@[i] {
                    Some(c) => !self@.fields[i].unmapped && c@ == self@.fields[i].spec_column(*b),
                    None => self@.fields[i].unmapped,
                },
    {
        let mut r: Vec<Option<String>> = Vec::new();
        let mut i: usize = 0;
        while i < self.fields.len()
            invariant
                0 <= i <= self.fields@.len(),
                r@.len() == i,
                forall|j: int|
                    0 <= j < i ==> match #[trigger] r@[j] {
                        Some(c) => !self@.fields[j].unmapped && c@ == self@.fields[j].spec_column(
                            *b,
                        ),
                        None => self@.fields[j].unmapped,
                    },
            decreases self.fields@.len() - i,
        {
            if self.fields[i].unmapped {
                r.push(None);
            } else {
                r.push(Some(self.fields[i].column(b)));
            }
            i = i + 1;
        }
        r
    }
}

/// The declaration items of the insertable companion: one public field per
/// insertable field of the entity, in declaration order.
pub open spec fn spec_insert_struct_fields(fields: Seq<FieldView>) -> Seq<Seq<char>>
    decreases fields.len(),
{
    if fields.len() == 0 {
        Seq::empty()
    } else {
        spec_insert_struct_fields(fields.drop_last()) + (if !fields.last().has_default {
            seq!["pub "@ + fields.last().field + ": "@ + fields.last().ty + ","@]
        } else {
            Seq::empty()
        })
    }
}

/// The conversion items of the companion's `From` impl: each insertable
/// field moved over from the full entity, in declaration order.
pub open spec fn spec_insert_struct_moves(fields: Seq<FieldView>) -> Seq<Seq<char>>
    decreases fields.len(),
{
    if fields.len() == 0 {
        Seq::empty()
    } else {
        spec_insert_struct_moves(fields.drop_last()) + (if !fields.last().has_default {
            seq![fields.last().field + ": v."@ + fields.last().field + ","@]
        } else {
            Seq::empty()
        })
    }
}

impl TableView {
    /// The declaration of the insertable companion structure.
    pub open spec fn spec_insert_struct(self, name: Seq<char>) -> Seq<char> {
        "pub struct "@ + name + " { "@ + spec_join(spec_insert_struct_fields(self.fields), " "@)
            + " }"@
    }

    /// The conversion from the full entity to its insertable companion.
    pub open spec fn spec_insert_struct_from(self, name: Seq<char>) -> Seq<char> {
        "impl From<"@ + self.ident + "> for "@ + name + " { fn from(v: "@ + self.ident
            + ") -> Self { Self { "@ + spec_join(spec_insert_struct_moves(self.fields), " "@)
            + " } } }"@
    }
}

impl Table {
    /// The source text of the insertable companion structure, holding only
    /// the fields the caller supplies at insert time; nothing when the
    /// declaration asks for no companion.
    pub fn insert_struct(&self) -> (r: Option<String>)
        ensures
            r is Some <==> self@.insertable is Some,
            r matches Some(s) ==> s@ == self@.spec_insert_struct(self@.insertable.unwrap()),
    {
        let name = match &self.insertable {
            Some(n) => n,
            None => {
                return None;
            },
        };
        let items = self.insert_struct_items();
        let r = String::from_str("pub struct ").concat(name.as_str()).concat(" { ").concat(
            join_strs(&items, " ").as_str(),
        ).concat(" }");
        proof {
            assert(r@ =~= self@.spec_insert_struct(self@.insertable.unwrap()));
        }
        Some(r)
    }

    /// The source text of the conversion from the full entity to the
    /// companion; nothing when the declaration asks for no companion.
    pub fn impl_from_for_insert_struct(&self) -> (r: Option<String>)
        ensures
            r is Some <==> self@.insertable is Some,
            r matches Some(s) ==> s@ == self@.spec_insert_struct_from(self@.insertable.unwrap()),
    {
        let name = match &self.insertable {
            Some(n) => n,
            None => {
                return None;
            },
        };
        let mut items: Vec<String> = Vec::new();
        let mut i: usize = 0;
        while i < self.fields.len()
            invariant
                0 <= i <= self.fields@.len(),
                items@.map_values(|s: String| s@) == spec_insert_struct_moves(
                    self@.fields.take(i as int),
                ),
            decreases self.fields@.len() - i,
        {
            proof {
                assert(self@.fields.take(i + 1).drop_last() =~= self@.fields.take(i as int));
                assert(self@.fields.take(i + 1).last() == self@.fields[i as int]);
            }
            if !self.fields[i].has_default {
                let ghost prev = items@;
                let item = self.fields[i].field.clone().concat(": v.").concat(
                    self.fields[i].field.as_str(),
                ).concat(",");
                let ghost iv = item@;
                items.push(item);
                proof {
                    assert(iv =~= self@.fields[i as int].field + ": v."@
                        + self@.fields[i as int].field + ","@);
                    assert(items@.map_values(|s: String| s@) =~= prev.map_values(|s: String| s@)
                        + seq![iv]);
                }
            }
            i = i + 1;
        }
        proof {
            assert(self@.fields.take(self.fields@.len() as int) =~= self@.fields);
        }
        let r = String::from_str("impl From<").concat(self.ident.as_str()).concat("> for ").concat(
            name.as_str(),
        ).concat(" { fn from(v: ").concat(self.ident.as_str()).concat(") -> Self { Self { ")
            .concat(join_strs(&items, " ").as_str()).concat(" } } }");
        proof {
            assert(r@ =~= self@.spec_insert_struct_from(self@.insertable.unwrap()));
        }
        Some(r)
    }

    fn insert_struct_items(&self) -> (r: Vec<String>)
        ensures
            r@.map_values(|s: String| s@) == spec_insert_struct_fields(self@.fields),
    {
        let mut items: Vec<String> = Vec::new();
        let mut i: usize = 0;
        while i < self.fields.len()
            invariant
                0 <= i <= self.fields@.len(),
                items@.map_values(|s: String| s@) == spec_insert_struct_fields(
                    self@.fields.take(i as int),
                ),
            decreases self.fields@.len() - i,
        {
            proof {
                assert(self@.fields.take(i + 1).drop_last() =~= self@.fields.take(i as int));
                assert(self@.fields.take(i + 1).last() == self@.fields[i as int]);
            }
            if !self.fields[i].has_default {
                let ghost prev = items@;
                let item = String::from_str("pub ").concat(self.fields[i].field.as_str()).concat(
                    ": ",
                ).concat(self.fields[i].ty.as_str()).concat(",");
                let ghost iv = item@;
                items.push(item);
                proof {
                    assert(iv =~= "pub "@ + self@.fields[i as int].field + ": "@
                        + self@.fields[i as int].ty + ","@);
                    assert(items@.map_values(|s: String| s@) =~= prev.map_values(|s: String| s@)
                        + seq![iv]);
                }
            }
            i = i + 1;
        }
        proof {
            assert(self@.fields.take(self.fields@.len() as int) =~= self@.fields);
        }
        items
    }
}

impl Table {
    /// Whether the id-based method group (get, update, delete, getters,
    /// setters) is generated for this descriptor: exactly when the
    /// declaration names an id. Without one the descriptor is insert-only,
    /// and only the whole-table scans and the insert path are emitted.
    pub fn id_operations_enabled(&self) -> (r: bool)
        ensures
            r == (self@.id is Some),
    {
        self.id.is_some()
    }
}

/// Everything the id-based access methods of one descriptor execute, under
/// one dialect.
pub struct TablePlan {
    pub get_sql: String,
    pub update_sql: String,
    pub update_args: Vec<usize>,
    pub delete_sql: String,
    pub stream_all_sql: String,
    pub stream_all_paginated_sql: String,
    pub getters: Vec<GetterPlan>,
    pub setters: Vec<SetterPlan>,
}

impl Table {
    /// The full id-based access plan of this descriptor: every statement
    /// and its argument order, exactly as the individual methods specify
    /// them.
    pub fn impl_table(&self, b: &Backend) -> (r: TablePlan)
        requires
            self@.is_idable(),
        ensures
            r.get_sql@ == self@.spec_get_sql(*b),
            r.update_sql@ == self@.spec_update_sql(*b),
            r.update_args@.map_values(|u: usize| u as int) == self@.spec_update_args(),
            r.delete_sql@ == self@.spec_delete_sql(*b),
            r.stream_all_sql@ == self@.spec_stream_all_sql(*b),
            r.stream_all_paginated_sql@ == self@.spec_stream_all_paginated_sql(*b),
            r.getters@.map_values(|p: GetterPlan| p@) == spec_getters_plan(
                self@,
                *b,
                self@.fields.len() as int,
            ),
            r.setters@.map_values(|p: SetterPlan| p@) == spec_setters_plan(
                self@,
                *b,
                self@.fields.len() as int,
            ),
    {
        TablePlan {
            get_sql: self.get_sql(b),
            update_sql: self.update_sql(b),
            update_args: self.update_args(),
            delete_sql: self.delete_sql(b),
            stream_all_sql: self.stream_all_sql(b),
            stream_all_paginated_sql: self.stream_all_paginated_sql(b),
            getters: self.getters(b),
            setters: self.setters(b),
        }
    }
}

/// What the runtime mapping of one declaration reports: its table, its
/// column list, and where each field comes from on decode.
pub struct SchemaPlan {
    pub table: String,
    pub columns: Vec<String>,
    pub from_row: Vec<Option<String>>,
}

impl Schema {
    /// The full runtime-mapping plan of this descriptor.
    pub fn impl_schema(&self, b: &Backend) -> (r: SchemaPlan)
        ensures
            r.table@ == self@.table,
            r.columns@.map_values(|s: String| s@) == spec_schema_columns(self@.fields, *b),
            r.from_row@.len() == self@.fields.len(),
            forall|i: int|
                0 <= i < self@.fields.len() ==> match #[trigger] r.from_row@[i] {
                    Some(c) => !self@.fields[i].unmapped && c@ == self@.fields[i].spec_column(*b),
                    None => self@.fields[i].unmapped,
                },
    {
        SchemaPlan {
            table: self.table.clone(),
            columns: self.columns(b),
            from_row: self.from_row_plan(b),
        }
    }
}

/// The generated SELECT's column list has exactly one item per mapped
/// field, in declaration order, and each item is that field's select
/// rendering.
pub proof fn lemma_select_list_matches_mapped(fields: Seq<FieldView>, b: Backend)
    ensures
        spec_select_items(fields, b).len() == idx_mapped(fields).len(),
        forall|k: int|
            0 <= k < idx_mapped(fields).len() ==> #[trigger] spec_select_items(fields, b)[k]
                == fields[idx_mapped(fields)[k]].spec_fmt_for_select(b),
    decreases fields.len(),
{
    if fields.len() > 0 {
        let pre = fields.drop_last();
        lemma_select_list_matches_mapped(pre, b);
        lemma_idx_mapped_bounds(pre);
        let items = spec_select_items(fields, b);
        let idxs = idx_mapped(fields);
        let pitems = spec_select_items(pre, b);
        let pidxs = idx_mapped(pre);
        assert forall|k: int|
            0 <= k < idxs.len() implies #[trigger] items[k] == fields[idxs[k]].spec_fmt_for_select(
            b,
        ) by {
            if k < pidxs.len() {
                assert(items[k] == pitems[k]);
                assert(idxs[k] == pidxs[k]);
                assert(0 <= pidxs[k] < pre.len());
                assert(fields[pidxs[k]] == pre[pidxs[k]]);
            } else {
                assert(!fields.last().unmapped);
                assert(items[k] == fields.last().spec_fmt_for_select(b));
                assert(idxs[k] == fields.len() - 1);
            }
        }
    }
}

/// Every index the mapped partition yields is in bounds.
pub proof fn lemma_idx_mapped_bounds(fields: Seq<FieldView>)
    ensures
        forall|k: int|
            0 <= k < idx_mapped(fields).len() ==> 0 <= #[trigger] idx_mapped(fields)[k]
                < fields.len(),
    decreases fields.len(),
{
    if fields.len() > 0 {
        let pre = fields.drop_last();
        lemma_idx_mapped_bounds(pre);
        let idxs = idx_mapped(fields);
        let pidxs = idx_mapped(pre);
        assert forall|k: int| 0 <= k < idxs.len() implies 0 <= #[trigger] idxs[k]
            < fields.len() by {
            if k < pidxs.len() {
                assert(idxs[k] == pidxs[k]);
            } else {
                assert(idxs[k] == fields.len() - 1);
            }
        }
    }
}

/// Aliasing is applied in a select item exactly when the field name differs
/// from the resolved column name or the field is custom-typed: otherwise the
/// item is the bare column reference.
pub proof fn lemma_select_aliasing(f: FieldView, b: Backend)
    ensures
        (f.spec_fmt_for_select(b) == f.spec_column(b)) <==> !(f.custom_type || f.field
            != f.column_name),
{
    reveal_strlit(" AS ");
    reveal_strlit(": _");
    if f.custom_type {
        assert(f.spec_fmt_for_select(b).len() > f.spec_column(b).len());
    } else if f.field != f.column_name {
        assert(f.spec_fmt_for_select(b).len() > f.spec_column(b).len());
    }
}

/// In the generated update statement, the WHERE clause binds exactly one
/// placeholder, the id, and the id is positioned last in the bound-argument
/// order, after every non-id field.
pub proof fn lemma_update_binds_id_last(t: TableView, b: Backend)
    requires
        t.is_idable(),
        count_char(t.id_field().spec_column(b), b.spec_marker()) == 0,
    ensures
        count_char(t.spec_update_where(b), b.spec_marker()) == 1,
        t.spec_update_args().len() == t.fields.len(),
        t.spec_update_args().last() == t.id.unwrap(),
        forall|j: int|
            0 <= j < t.spec_update_args().len() - 1 ==> #[trigger] t.spec_update_args()[j]
                != t.id.unwrap(),
{
    let m = b.spec_marker();
    let ph = b.spec_placeholder((count_except(t.fields.len() as int, t.id.unwrap()) + 1) as nat);
    lemma_literal_marker_counts();
    crate::backend::lemma_placeholder_one_marker(
        b,
        (count_except(t.fields.len() as int, t.id.unwrap()) + 1) as nat,
    );
    lemma_count_char_append(" WHERE "@, t.id_field().spec_column(b), m);
    lemma_count_char_append(" WHERE "@ + t.id_field().spec_column(b), " = "@, m);
    lemma_count_char_append(" WHERE "@ + t.id_field().spec_column(b) + " = "@, ph, m);
    lemma_idx_except_full(t.fields.len() as int, t.id.unwrap());
}

/// The literal glue of a WHERE clause holds no placeholder marker.
pub proof fn lemma_literal_marker_counts()
    ensures
        count_char(" WHERE "@, '?') == 0,
        count_char(" WHERE "@, '$') == 0,
        count_char(" = "@, '?') == 0,
        count_char(" = "@, '$') == 0,
{
    reveal_strlit(" WHERE ");
    reveal_strlit(" = ");
    crate::strutil::lemma_count_char_zero(" WHERE "@, '?');
    crate::strutil::lemma_count_char_zero(" WHERE "@, '$');
    crate::strutil::lemma_count_char_zero(" = "@, '?');
    crate::strutil::lemma_count_char_zero(" = "@, '$');
}

/// The non-id index list has one entry per non-id field, in order, and
/// never yields the id.
pub proof fn lemma_idx_except_full(len: int, id: int)
    requires
        0 <= id < len,
    ensures
        idx_except(len, id).len() == len - 1,
        forall|j: int|
            0 <= j < idx_except(len, id).len() ==> 0 <= #[trigger] idx_except(len, id)[j] < len
                && idx_except(len, id)[j] != id,
    decreases len,
{
    if len > 0 {
        if id < len - 1 {
            lemma_idx_except_full(len - 1, id);
        } else {
            lemma_idx_except_small(len - 1, id);
        }
    }
}

/// Below the id, the non-id index list is the identity.
pub proof fn lemma_idx_except_small(len: int, id: int)
    requires
        0 <= len <= id,
    ensures
        idx_except(len, id).len() == len,
        forall|j: int|
            0 <= j < idx_except(len, id).len() ==> 0 <= #[trigger] idx_except(len, id)[j] < len
                && idx_except(len, id)[j] != id,
    decreases len,
{
    if len > 0 {
        lemma_idx_except_small(len - 1, id);
    }
}

} // verus!
