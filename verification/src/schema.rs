//! The runtime-mapping descriptor: a declaration bound to a table and a
//! datasource, with the mapped / unmapped partition of its fields. It drives
//! the query-building side, while [`crate::table::Table`] drives the
//! id-based access methods.

use vstd::prelude::*;
use crate::attrs::{
    FieldKey, GenError, TableAttr, TableAttrView, TableKey, field_key_count, has_field_key,
    has_table_key, spec_field_key_name, spec_table_key_name, table_key_count, table_key_of,
    lemma_table_key_count_has,
};
use crate::table::{
    FieldDeclView, FieldView, TableDecl, TableDeclView, TableField, decl_fields_ok, field_decl_ok,
    field_resolves_to, first_table, lemma_first_table_has, lemma_has_table_key_take_step,
    lemma_table_key_count_take_le,
};
use crate::backend::Backend;

verus! {

/// The datasource named by the first datasource annotation, if any.
pub open spec fn first_datasource(attrs: Seq<TableAttrView>) -> Option<Seq<char>>
    decreases attrs.len(),
{
    if attrs.len() == 0 {
        None
    } else if first_datasource(attrs.drop_last()) is Some {
        first_datasource(attrs.drop_last())
    } else {
        match attrs.last() {
            TableAttrView::Datasource(d) => Some(d),
            _ => None,
        }
    }
}

/// The resolved queryable companion name: the given name, or
/// `Query<ident>` when the annotation names none, or absent when no
/// queryable annotation is given.
pub open spec fn spec_resolved_queryable(attrs: Seq<TableAttrView>, ident: Seq<char>) -> Option<
    Seq<char>,
>
    decreases attrs.len(),
{
    if attrs.len() == 0 {
        None
    } else if spec_resolved_queryable(attrs.drop_last(), ident) is Some {
        spec_resolved_queryable(attrs.drop_last(), ident)
    } else {
        match attrs.last() {
            TableAttrView::Queryable(o) => match o {
                Some(n) => Some(n),
                None => Some("Query"@ + ident),
            },
            _ => None,
        }
    }
}

/// A datasource annotation is present exactly when one resolves.
pub proof fn lemma_first_datasource_has(s: Seq<TableAttrView>)
    ensures
        first_datasource(s) is Some <==> has_table_key(s, TableKey::Datasource),
    decreases s.len(),
{
    if s.len() > 0 {
        lemma_first_datasource_has(s.drop_last());
        if first_datasource(s) is Some {
            if first_datasource(s.drop_last()) is Some {
                let j = choose|j: int|
                    0 <= j < s.drop_last().len() && table_key_of(s.drop_last()[j])
                        == TableKey::Datasource;
                assert(table_key_of(s[j]) == TableKey::Datasource);
            } else {
                assert(table_key_of(s[s.len() - 1]) == TableKey::Datasource);
            }
        }
        if has_table_key(s, TableKey::Datasource) && first_datasource(s.drop_last()) is None {
            let j = choose|j: int| 0 <= j < s.len() && table_key_of(s[j]) == TableKey::Datasource;
            if j < s.len() - 1 {
                assert(table_key_of(s.drop_last()[j]) == TableKey::Datasource);
            }
        }
    }
}

/// A declaration is acceptable as a runtime mapping when its three
/// recognized keys each occur at most once, a table name and a datasource
/// are given, and every field is well-formed.
pub open spec fn schema_decl_ok(d: TableDeclView) -> bool {
    &&& table_key_count(d.attrs, TableKey::Table) <= 1
    &&& table_key_count(d.attrs, TableKey::Datasource) <= 1
    &&& table_key_count(d.attrs, TableKey::Queryable) <= 1
    &&& has_table_key(d.attrs, TableKey::Table)
    &&& has_table_key(d.attrs, TableKey::Datasource)
    &&& decl_fields_ok(d.fields)
}

/// A validated runtime-mapping descriptor.
#[derive(Debug)]
pub struct Schema {
    pub ident: String,
    pub table: String,
    pub datasource: String,
    pub queryable: Option<String>,
    pub fields: Vec<TableField>,
}

pub ghost struct SchemaView {
    pub ident: Seq<char>,
    pub table: Seq<char>,
    pub datasource: Seq<char>,
    pub queryable: Option<Seq<char>>,
    pub fields: Seq<FieldView>,
}

impl View for Schema {
    type V = SchemaView;

    open spec fn view(&self) -> SchemaView {
        SchemaView {
            ident: self.ident@,
            table: self.table@,
            datasource: self.datasource@,
            queryable: match self.queryable {
                Some(q) => Some(q@),
                None => None,
            },
            fields: self.fields@.map_values(|f: TableField| f@),
        }
    }
}

/// Indices of the persisted fields, in declaration order.
pub open spec fn idx_mapped(fields: Seq<FieldView>) -> Seq<int>
    decreases fields.len(),
{
    if fields.len() == 0 {
        Seq::empty()
    } else {
        idx_mapped(fields.drop_last()) + (if !fields.last().unmapped {
            seq![fields.len() - 1]
        } else {
            Seq::empty()
        })
    }
}

/// Indices of the fields that are not persisted and are filled with a
/// default on load.
pub open spec fn idx_unmapped(fields: Seq<FieldView>) -> Seq<int>
    decreases fields.len(),
{
    if fields.len() == 0 {
        Seq::empty()
    } else {
        idx_unmapped(fields.drop_last()) + (if fields.last().unmapped {
            seq![fields.len() - 1]
        } else {
            Seq::empty()
        })
    }
}

impl Schema {
    /// Build a runtime-mapping descriptor from a declaration: resolve the
    /// declaration-level annotations (each at most once), require a table
    /// name and a datasource, and resolve every field in declaration order.
    pub fn try_from_decl(decl: &TableDecl, b: &Backend) -> (r: Result<Schema, GenError>)
        ensures
            r is Ok <==> schema_decl_ok(decl@),
            r matches Ok(s) ==> {
                let d = decl@;
                &&& s@.ident == d.ident
                &&& Some(s@.table) == first_table(d.attrs)
                &&& Some(s@.datasource) == first_datasource(d.attrs)
                &&& s@.queryable == spec_resolved_queryable(d.attrs, d.ident)
                &&& s@.fields.len() == d.fields.len()
                &&& (forall|j: int|
                    0 <= j < d.fields.len() ==> field_resolves_to(
                        d.fields[j],
                        *b,
                        #[trigger] s@.fields[j],
                    ) && s@.fields[j].pk == false)
            },
            r matches Err(e) ==> match e {
                GenError::DuplicateAttribute(k) => (exists|tk: TableKey|
                    table_key_count(decl@.attrs, tk) >= 2 && k@ == spec_table_key_name(tk)) || (
                exists|j: int, fk: FieldKey|
                    0 <= j < decl@.fields.len() && #[trigger] field_key_count(
                        decl@.fields[j].attrs,
                        fk,
                    ) >= 2 && k@ == spec_field_key_name(fk)),
                GenError::MissingAttribute(k) => (k@ == "table"@ && !has_table_key(
                    decl@.attrs,
                    TableKey::Table,
                )) || (k@ == "datasource"@ && !has_table_key(decl@.attrs, TableKey::Datasource)),
                GenError::UnmappedNotOption => exists|j: int|
                    0 <= j < decl@.fields.len() && has_field_key(
                        (#[trigger] decl@.fields[j]).attrs,
                        FieldKey::Unmapped,
                    ) && !decl@.fields[j].is_option,
                _ => false,
            },
    {
        let ghost avs = decl@.attrs;
        let ghost dfs = decl@.fields;
        let mut table_name: Option<String> = None;
        let mut datasource: Option<String> = None;
        let mut queryable: Option<String> = None;

        let n = decl.attrs.len();
        let mut i: usize = 0;
        while i < n
            invariant
                0 <= i <= n,
                n == decl.attrs.len(),
                avs == decl@.attrs,
                avs.len() == n,
                table_key_count(avs.take(i as int), TableKey::Table) <= 1,
                table_key_count(avs.take(i as int), TableKey::Datasource) <= 1,
                table_key_count(avs.take(i as int), TableKey::Queryable) <= 1,
                match table_name {
                    Some(t) => first_table(avs.take(i as int)) == Some(t@) && has_table_key(
                        avs.take(i as int),
                        TableKey::Table,
                    ),
                    None => first_table(avs.take(i as int)) is None && table_key_count(
                        avs.take(i as int),
                        TableKey::Table,
                    ) == 0,
                },
                match datasource {
                    Some(t) => first_datasource(avs.take(i as int)) == Some(t@) && has_table_key(
                        avs.take(i as int),
                        TableKey::Datasource,
                    ),
                    None => first_datasource(avs.take(i as int)) is None && table_key_count(
                        avs.take(i as int),
                        TableKey::Datasource,
                    ) == 0,
                },
                match queryable {
                    Some(t) => spec_resolved_queryable(avs.take(i as int), decl@.ident) == Some(
                        t@,
                    ) && has_table_key(avs.take(i as int), TableKey::Queryable),
                    None => spec_resolved_queryable(avs.take(i as int), decl@.ident) is None
                        && table_key_count(avs.take(i as int), TableKey::Queryable) == 0,
                },
            decreases n - i,
        {
            proof {
                assert(avs.take(i + 1).drop_last() =~= avs.take(i as int));
                assert(avs.take(i + 1).last() == avs[i as int]);
                assert(avs[i as int] == decl.attrs@[i as int]@);
                lemma_has_table_key_take_step(avs, i as int);
                lemma_table_key_count_has(avs.take(i as int), table_key_of(avs[i as int]));
                lemma_table_key_count_take_le(avs, i + 1, table_key_of(avs[i as int]));
            }
            match &decl.attrs[i] {
                TableAttr::Table(t) => {
                    if table_name.is_some() {
                        proof {
                            assert(table_key_count(avs, TableKey::Table) >= 2);
                            assert(spec_table_key_name(TableKey::Table) == "table"@);
                        }
                        return Err(GenError::DuplicateAttribute(String::from_str("table")));
                    }
                    table_name = Some(t.clone());
                },
                TableAttr::Datasource(x) => {
                    if datasource.is_some() {
                        proof {
                            assert(table_key_count(avs, TableKey::Datasource) >= 2);
                            assert(spec_table_key_name(TableKey::Datasource) == "datasource"@);
                        }
                        return Err(GenError::DuplicateAttribute(String::from_str("datasource")));
                    }
                    datasource = Some(x.clone());
                },
                TableAttr::Queryable(o) => {
                    if queryable.is_some() {
                        proof {
                            assert(table_key_count(avs, TableKey::Queryable) >= 2);
                            assert(spec_table_key_name(TableKey::Queryable) == "queryable"@);
                        }
                        return Err(GenError::DuplicateAttribute(String::from_str("queryable")));
                    }
                    queryable = Some(
                        match o {
                            Some(name) => name.clone(),
                            None => String::from_str("Query").concat(decl.ident.as_str()),
                        },
                    );
                },
                _ => {},
            }
            i = i + 1;
        }
        proof {
            assert(avs.take(n as int) =~= avs);
            lemma_first_table_has(avs);
            lemma_first_datasource_has(avs);
            lemma_table_key_count_has(avs, TableKey::Table);
            lemma_table_key_count_has(avs, TableKey::Datasource);
        }

        let datasource = match datasource {
            Some(d) => d,
            None => {
                return Err(GenError::MissingAttribute(String::from_str("datasource")));
            },
        };
        let table = match table_name {
            Some(t) => t,
            None => {
                return Err(GenError::MissingAttribute(String::from_str("table")));
            },
        };

        let m = decl.fields.len();
        let mut fields: Vec<TableField> = Vec::new();
        let mut j: usize = 0;
        while j < m
            invariant
                0 <= j <= m,
                m == decl.fields.len(),
                dfs == decl@.fields,
                dfs.len() == m,
                fields@.len() == j,
                forall|jj: int|
                    0 <= jj < j ==> field_resolves_to(dfs[jj], *b, (#[trigger] fields@[jj])@)
                        && fields@[jj]@.pk == false,
                forall|jj: int| 0 <= jj < j ==> field_decl_ok(#[trigger] dfs[jj]),
            decreases m - j,
        {
            proof {
                assert(dfs[j as int] == decl.fields@[j as int]@);
            }
            let f = match TableField::try_from_decl(&decl.fields[j], b) {
                Ok(f) => f,
                Err(e) => {
                    return Err(e);
                },
            };
            fields.push(f);
            j = j + 1;
        }

        Ok(Schema { ident: decl.ident.clone(), table, datasource, queryable, fields })
    }

    /// Indices of the persisted fields, in declaration order.
    pub fn mapped_fields(&self) -> (r: Vec<usize>)
        ensures
            r@.map_values(|u: usize| u as int) == idx_mapped(self@.fields),
    {
        let mut r: Vec<usize> = Vec::new();
        let mut i: usize = 0;
        while i < self.fields.len()
            invariant
                0 <= i <= self.fields.len(),
                r@.map_values(|u: usize| u as int) == idx_mapped(self@.fields.take(i as int)),
            decreases self.fields.len() - i,
        {
            proof {
                assert(self@.fields.take(i + 1).drop_last() =~= self@.fields.take(i as int));
                assert(self@.fields.take(i + 1).last() == self@.fields[i as int]);
            }
            if !self.fields[i].unmapped {
                let ghost prev = r@;
                r.push(i);
                proof {
                    assert(r@.map_values(|u: usize| u as int) =~= prev.map_values(
                        |u: usize| u as int,
                    ) + seq![i as int]);
                }
            }
            i = i + 1;
        }
        proof {
            assert(self@.fields.take(self.fields@.len() as int) =~= self@.fields);
        }
        r
    }

    /// Indices of the unmapped fields, in declaration order.
    pub fn unmapped_fields(&self) -> (r: Vec<usize>)
        ensures
            r@.map_values(|u: usize| u as int) == idx_unmapped(self@.fields),
    {
        let mut r: Vec<usize> = Vec::new();
        let mut i: usize = 0;
        while i < self.fields.len()
            invariant
                0 <= i <= self.fields.len(),
                r@.map_values(|u: usize| u as int) == idx_unmapped(self@.fields.take(i as int)),
            decreases self.fields.len() - i,
        {
            proof {
                assert(self@.fields.take(i + 1).drop_last() =~= self@.fields.take(i as int));
                assert(self@.fields.take(i + 1).last() == self@.fields[i as int]);
            }
            if self.fields[i].unmapped {
                let ghost prev = r@;
                r.push(i);
                proof {
                    assert(r@.map_values(|u: usize| u as int) =~= prev.map_values(
                        |u: usize| u as int,
                    ) + seq![i as int]);
                }
            }
            i = i + 1;
        }
        proof {
            assert(self@.fields.take(self.fields@.len() as int) =~= self@.fields);
        }
        r
    }
}

} // verus!
