//! The entity descriptor: a declaration's fields and annotations resolved
//! into a validated, ordered field list with an identified primary key.
//! Field order is preserved from the declaration; it governs the column and
//! argument order of every generated statement.

use vstd::prelude::*;
use crate::attrs::{
    FieldAttr, FieldAttrView, FieldKey, GenError, Getter, GetterView, TableAttr, TableAttrView,
    TableKey, field_key_of, field_key_count, has_field_key, lemma_field_key_count_has,
    spec_field_key_name, table_key_of, table_key_count, has_table_key, lemma_table_key_count_has,
    spec_table_key_name,
};
use crate::backend::Backend;

verus! {

/// One member of a struct-like declaration, as handed to the generator: its
/// name, its declared type (as text), whether that type is optional, and its
/// field-level annotations.
pub struct FieldDecl {
    pub name: String,
    pub ty: String,
    pub is_option: bool,
    pub attrs: Vec<FieldAttr>,
}

pub ghost struct FieldDeclView {
    pub name: Seq<char>,
    pub ty: Seq<char>,
    pub is_option: bool,
    pub attrs: Seq<FieldAttrView>,
}

impl View for FieldDecl {
    type V = FieldDeclView;

    open spec fn view(&self) -> FieldDeclView {
        FieldDeclView {
            name: self.name@,
            ty: self.ty@,
            is_option: self.is_option,
            attrs: self.attrs@.map_values(|a: FieldAttr| a@),
        }
    }
}

/// A whole declaration: its identifier, its declaration-level annotations,
/// and its members in declaration order.
pub struct TableDecl {
    pub ident: String,
    pub attrs: Vec<TableAttr>,
    pub fields: Vec<FieldDecl>,
}

pub ghost struct TableDeclView {
    pub ident: Seq<char>,
    pub attrs: Seq<TableAttrView>,
    pub fields: Seq<FieldDeclView>,
}

impl View for TableDecl {
    type V = TableDeclView;

    open spec fn view(&self) -> TableDeclView {
        TableDeclView {
            ident: self.ident@,
            attrs: self.attrs@.map_values(|a: TableAttr| a@),
            fields: self.fields@.map_values(|f: FieldDecl| f@),
        }
    }
}

/// A resolved field descriptor.
#[derive(Debug)]
pub struct TableField {
    pub field: String,
    pub ty: String,
    pub column_name: String,
    pub custom_type: bool,
    pub reserved_ident: bool,
    pub pk: bool,
    pub has_default: bool,
    pub unmapped: bool,
    pub get_one: Option<Getter>,
    pub get_optional: Option<Getter>,
    pub get_many: Option<Getter>,
    pub setter: Option<String>,
}

pub ghost struct FieldView {
    pub field: Seq<char>,
    pub ty: Seq<char>,
    pub column_name: Seq<char>,
    pub custom_type: bool,
    pub reserved_ident: bool,
    pub pk: bool,
    pub has_default: bool,
    pub unmapped: bool,
    pub get_one: Option<GetterView>,
    pub get_optional: Option<GetterView>,
    pub get_many: Option<GetterView>,
    pub setter: Option<Seq<char>>,
}

impl View for TableField {
    type V = FieldView;

    open spec fn view(&self) -> FieldView {
        FieldView {
            field: self.field@,
            ty: self.ty@,
            column_name: self.column_name@,
            custom_type: self.custom_type,
            reserved_ident: self.reserved_ident,
            pk: self.pk,
            has_default: self.has_default,
            unmapped: self.unmapped,
            get_one: match self.get_one {
                Some(g) => Some(g@),
                None => None,
            },
            get_optional: match self.get_optional {
                Some(g) => Some(g@),
                None => None,
            },
            get_many: match self.get_many {
                Some(g) => Some(g@),
                None => None,
            },
            setter: match self.setter {
                Some(s) => Some(s@),
                None => None,
            },
        }
    }
}

/// The column override of the first column annotation, if any.
pub open spec fn first_column(attrs: Seq<FieldAttrView>) -> Option<Seq<char>>
    decreases attrs.len(),
{
    if attrs.len() == 0 {
        None
    } else if first_column(attrs.drop_last()) is Some {
        first_column(attrs.drop_last())
    } else {
        match attrs.last() {
            FieldAttrView::Column(c) => Some(c),
            _ => None,
        }
    }
}

/// The resolved column name: the override if one is given, else the field's
/// own name.
pub open spec fn spec_resolved_column(attrs: Seq<FieldAttrView>, name: Seq<char>) -> Seq<char> {
    match first_column(attrs) {
        Some(c) => c,
        None => name,
    }
}

/// The resolved setter name: the given name, or `set_<field>` when the
/// annotation names none, or absent when no setter annotation is given.
pub open spec fn spec_resolved_setter(attrs: Seq<FieldAttrView>, name: Seq<char>) -> Option<
    Seq<char>,
>
    decreases attrs.len(),
{
    if attrs.len() == 0 {
        None
    } else if spec_resolved_setter(attrs.drop_last(), name) is Some {
        spec_resolved_setter(attrs.drop_last(), name)
    } else {
        match attrs.last() {
            FieldAttrView::Setter(o) => match o {
                Some(n) => Some(n),
                None => Some("set_"@ + name),
            },
            _ => None,
        }
    }
}

pub open spec fn first_get_one(attrs: Seq<FieldAttrView>) -> Option<GetterView>
    decreases attrs.len(),
{
    if attrs.len() == 0 {
        None
    } else if first_get_one(attrs.drop_last()) is Some {
        first_get_one(attrs.drop_last())
    } else {
        match attrs.last() {
            FieldAttrView::GetOne(g) => Some(g),
            _ => None,
        }
    }
}

pub open spec fn first_get_optional(attrs: Seq<FieldAttrView>) -> Option<GetterView>
    decreases attrs.len(),
{
    if attrs.len() == 0 {
        None
    } else if first_get_optional(attrs.drop_last()) is Some {
        first_get_optional(attrs.drop_last())
    } else {
        match attrs.last() {
            FieldAttrView::GetOptional(g) => Some(g),
            _ => None,
        }
    }
}

pub open spec fn first_get_many(attrs: Seq<FieldAttrView>) -> Option<GetterView>
    decreases attrs.len(),
{
    if attrs.len() == 0 {
        None
    } else if first_get_many(attrs.drop_last()) is Some {
        first_get_many(attrs.drop_last())
    } else {
        match attrs.last() {
            FieldAttrView::GetMany(g) => Some(g),
            _ => None,
        }
    }
}

/// A field declaration is well-formed when no annotation key repeats and an
/// unmapped marker only sits on an optional-valued field.
pub open spec fn field_decl_ok(d: FieldDeclView) -> bool {
    &&& forall|k: FieldKey| field_key_count(d.attrs, k) <= 1
    &&& has_field_key(d.attrs, FieldKey::Unmapped) ==> d.is_option
}

/// What resolving one well-formed field declaration yields.
pub open spec fn field_resolves_to(d: FieldDeclView, b: Backend, f: FieldView) -> bool {
    &&& f.field == d.name
    &&& f.ty == d.ty
    &&& f.column_name == spec_resolved_column(d.attrs, d.name)
    &&& f.custom_type == has_field_key(d.attrs, FieldKey::CustomType)
    &&& f.has_default == has_field_key(d.attrs, FieldKey::DefaultValue)
    &&& f.unmapped == has_field_key(d.attrs, FieldKey::Unmapped)
    &&& f.reserved_ident == b.spec_is_reserved(f.column_name)
    &&& f.get_one == first_get_one(d.attrs)
    &&& f.get_optional == first_get_optional(d.attrs)
    &&& f.get_many == first_get_many(d.attrs)
    &&& f.setter == spec_resolved_setter(d.attrs, d.name)
}

pub proof fn lemma_field_key_count_append(a: Seq<FieldAttrView>, b: Seq<FieldAttrView>, k: FieldKey)
    ensures
        field_key_count(a + b, k) == field_key_count(a, k) + field_key_count(b, k),
    decreases b.len(),
{
    if b.len() == 0 {
        assert(a + b =~= a);
    } else {
        lemma_field_key_count_append(a, b.drop_last(), k);
        assert((a + b).drop_last() =~= a + b.drop_last());
        assert((a + b).last() == b.last());
    }
}

pub proof fn lemma_field_key_count_take_le(s: Seq<FieldAttrView>, i: int, k: FieldKey)
    requires
        0 <= i <= s.len(),
    ensures
        field_key_count(s.take(i), k) <= field_key_count(s, k),
{
    assert(s =~= s.take(i) + s.skip(i));
    lemma_field_key_count_append(s.take(i), s.skip(i), k);
}

pub proof fn lemma_has_field_key_take_step(s: Seq<FieldAttrView>, i: int)
    requires
        0 <= i < s.len(),
    ensures
        forall|k: FieldKey|
            has_field_key(s.take(i + 1), k) == (has_field_key(s.take(i), k) || field_key_of(
                s[i],
            ) == k),
{
    let s1 = s.take(i + 1);
    let s0 = s.take(i);
    assert forall|k: FieldKey|
        has_field_key(s1, k) == (has_field_key(s0, k) || field_key_of(s[i]) == k) by {
        if has_field_key(s1, k) {
            let j = choose|j: int| 0 <= j < s1.len() && field_key_of(s1[j]) == k;
            if j < i {
                assert(field_key_of(s0[j]) == k);
            } else {
                assert(field_key_of(s[i]) == k);
            }
        }
        if has_field_key(s0, k) {
            let j = choose|j: int| 0 <= j < s0.len() && field_key_of(s0[j]) == k;
            assert(field_key_of(s1[j]) == k);
        }
        if field_key_of(s[i]) == k {
            assert(field_key_of(s1[i]) == k);
        }
    }
}

pub proof fn lemma_table_key_count_append(a: Seq<TableAttrView>, b: Seq<TableAttrView>, k: TableKey)
    ensures
        table_key_count(a + b, k) == table_key_count(a, k) + table_key_count(b, k),
    decreases b.len(),
{
    if b.len() == 0 {
        assert(a + b =~= a);
    } else {
        lemma_table_key_count_append(a, b.drop_last(), k);
        assert((a + b).drop_last() =~= a + b.drop_last());
        assert((a + b).last() == b.last());
    }
}

pub proof fn lemma_table_key_count_take_le(s: Seq<TableAttrView>, i: int, k: TableKey)
    requires
        0 <= i <= s.len(),
    ensures
        table_key_count(s.take(i), k) <= table_key_count(s, k),
{
    assert(s =~= s.take(i) + s.skip(i));
    lemma_table_key_count_append(s.take(i), s.skip(i), k);
}

pub proof fn lemma_has_table_key_take_step(s: Seq<TableAttrView>, i: int)
    requires
        0 <= i < s.len(),
    ensures
        forall|k: TableKey|
            has_table_key(s.take(i + 1), k) == (has_table_key(s.take(i), k) || table_key_of(
                s[i],
            ) == k),
{
    let s1 = s.take(i + 1);
    let s0 = s.take(i);
    assert forall|k: TableKey|
        has_table_key(s1, k) == (has_table_key(s0, k) || table_key_of(s[i]) == k) by {
        if has_table_key(s1, k) {
            let j = choose|j: int| 0 <= j < s1.len() && table_key_of(s1[j]) == k;
            if j < i {
                assert(table_key_of(s0[j]) == k);
            } else {
                assert(table_key_of(s[i]) == k);
            }
        }
        if has_table_key(s0, k) {
            let j = choose|j: int| 0 <= j < s0.len() && table_key_of(s0[j]) == k;
            assert(table_key_of(s1[j]) == k);
        }
        if table_key_of(s[i]) == k {
            assert(table_key_of(s1[i]) == k);
        }
    }
}

/// The table name of the first table annotation, if any.
pub open spec fn first_table(attrs: Seq<TableAttrView>) -> Option<Seq<char>>
    decreases attrs.len(),
{
    if attrs.len() == 0 {
        None
    } else if first_table(attrs.drop_last()) is Some {
        first_table(attrs.drop_last())
    } else {
        match attrs.last() {
            TableAttrView::Table(t) => Some(t),
            _ => None,
        }
    }
}

/// The field named by the first id annotation, if any.
pub open spec fn first_id(attrs: Seq<TableAttrView>) -> Option<Seq<char>>
    decreases attrs.len(),
{
    if attrs.len() == 0 {
        None
    } else if first_id(attrs.drop_last()) is Some {
        first_id(attrs.drop_last())
    } else {
        match attrs.last() {
            TableAttrView::Id(n) => Some(n),
            _ => None,
        }
    }
}

/// The resolved insertable companion name: the given name, or
/// `Insert<ident>` when the annotation names none, or absent when no
/// insertable annotation is given.
pub open spec fn spec_resolved_insertable(attrs: Seq<TableAttrView>, ident: Seq<char>) -> Option<
    Seq<char>,
>
    decreases attrs.len(),
{
    if attrs.len() == 0 {
        None
    } else if spec_resolved_insertable(attrs.drop_last(), ident) is Some {
        spec_resolved_insertable(attrs.drop_last(), ident)
    } else {
        match attrs.last() {
            TableAttrView::Insertable(o) => match o {
                Some(n) => Some(n),
                None => Some("Insert"@ + ident),
            },
            _ => None,
        }
    }
}

/// Every field declaration of `fields` is well-formed.
pub open spec fn decl_fields_ok(fields: Seq<FieldDeclView>) -> bool {
    forall|j: int| 0 <= j < fields.len() ==> field_decl_ok(#[trigger] fields[j])
}

/// Some field of `fields` carries a database-default annotation.
pub open spec fn decl_has_default(fields: Seq<FieldDeclView>) -> bool {
    exists|j: int|
        0 <= j < fields.len() && has_field_key(#[trigger] fields[j].attrs, FieldKey::DefaultValue)
}

/// A whole declaration is well-formed when its three recognized keys each
/// occur at most once, a table name is given, a given id names a field,
/// every field is well-formed, and a database default only occurs together
/// with an insertable companion.
pub open spec fn table_decl_ok(d: TableDeclView) -> bool {
    &&& table_key_count(d.attrs, TableKey::Table) <= 1
    &&& table_key_count(d.attrs, TableKey::Id) <= 1
    &&& table_key_count(d.attrs, TableKey::Insertable) <= 1
    &&& has_table_key(d.attrs, TableKey::Table)
    &&& (first_id(d.attrs) matches Some(n) ==> exists|j: int|
        0 <= j < d.fields.len() && (#[trigger] d.fields[j]).name == n)
    &&& decl_fields_ok(d.fields)
    &&& (decl_has_default(d.fields) ==> spec_resolved_insertable(d.attrs, d.ident) is Some)
}

/// A validated entity descriptor: the table name, the ordered resolved
/// fields, the index of the primary-key field when the declaration names
/// one, and the insertable companion's name when one is requested. A
/// descriptor without an id is insert-only: no id-based operations are
/// generated from it.
#[derive(Debug)]
pub struct Table {
    pub ident: String,
    pub table: String,
    pub id: Option<usize>,
    pub fields: Vec<TableField>,
    pub insertable: Option<String>,
}

pub ghost struct TableView {
    pub ident: Seq<char>,
    pub table: Seq<char>,
    pub id: Option<int>,
    pub fields: Seq<FieldView>,
    pub insertable: Option<Seq<char>>,
}

impl View for Table {
    type V = TableView;

    open spec fn view(&self) -> TableView {
        TableView {
            ident: self.ident@,
            table: self.table@,
            id: match self.id {
                Some(i) => Some(i as int),
                None => None,
            },
            fields: self.fields@.map_values(|f: TableField| f@),
            insertable: match self.insertable {
                Some(s) => Some(s@),
                None => None,
            },
        }
    }
}

impl TableView {
    /// The descriptor names a primary key, enabling id-based operations.
    pub open spec fn is_idable(self) -> bool {
        self.id matches Some(i) && 0 <= i < self.fields.len()
    }

    pub open spec fn id_field(self) -> FieldView
        recommends
            self.is_idable(),
    {
        self.fields[self.id.unwrap()]
    }
}

impl TableField {
    /// Resolve one field declaration against the chosen dialect: apply its
    /// annotations, each at most once, resolve the column name and the
    /// getter and setter directives, and detect reserved-word collisions.
    /// The primary-key flag is set by the owning declaration afterwards.
    pub fn try_from_decl(value: &FieldDecl, b: &Backend) -> (r: Result<TableField, GenError>)
        ensures
            r is Ok <==> field_decl_ok(value@),
            r matches Ok(f) ==> field_resolves_to(value@, *b, f@) && f@.pk == false,
            r matches Err(e) ==> match e {
                GenError::DuplicateAttribute(k) => exists|key: FieldKey|
                    field_key_count(value@.attrs, key) >= 2 && k@ == spec_field_key_name(key),
                GenError::UnmappedNotOption => has_field_key(value@.attrs, FieldKey::Unmapped)
                    && !value@.is_option,
                _ => false,
            },
    {
        let ghost avs = value@.attrs;
        let mut column: Option<String> = None;
        let mut custom_type: bool = false;
        let mut get_one: Option<Getter> = None;
        let mut get_optional: Option<Getter> = None;
        let mut get_many: Option<Getter> = None;
        let mut setter: Option<String> = None;
        let mut has_default: bool = false;
        let mut unmapped: bool = false;

        let n = value.attrs.len();
        let mut i: usize = 0;
        while i < n
            invariant
                0 <= i <= n,
                n == value.attrs.len(),
                avs == value@.attrs,
                avs.len() == n,
                forall|k: FieldKey| field_key_count(avs.take(i as int), k) <= 1,
                match column {
                    Some(c) => first_column(avs.take(i as int)) == Some(c@) && has_field_key(
                        avs.take(i as int),
                        FieldKey::Column,
                    ),
                    None => first_column(avs.take(i as int)) is None && field_key_count(
                        avs.take(i as int),
                        FieldKey::Column,
                    ) == 0,
                },
                custom_type == has_field_key(avs.take(i as int), FieldKey::CustomType),
                has_default == has_field_key(avs.take(i as int), FieldKey::DefaultValue),
                unmapped == has_field_key(avs.take(i as int), FieldKey::Unmapped),
                unmapped ==> value@.is_option,
                match get_one {
                    Some(g) => first_get_one(avs.take(i as int)) == Some(g@) && has_field_key(
                        avs.take(i as int),
                        FieldKey::GetOne,
                    ),
                    None => first_get_one(avs.take(i as int)) is None && field_key_count(
                        avs.take(i as int),
                        FieldKey::GetOne,
                    ) == 0,
                },
                match get_optional {
                    Some(g) => first_get_optional(avs.take(i as int)) == Some(g@) && has_field_key(
                        avs.take(i as int),
                        FieldKey::GetOptional,
                    ),
                    None => first_get_optional(avs.take(i as int)) is None && field_key_count(
                        avs.take(i as int),
                        FieldKey::GetOptional,
                    ) == 0,
                },
                match get_many {
                    Some(g) => first_get_many(avs.take(i as int)) == Some(g@) && has_field_key(
                        avs.take(i as int),
                        FieldKey::GetMany,
                    ),
                    None => first_get_many(avs.take(i as int)) is None && field_key_count(
                        avs.take(i as int),
                        FieldKey::GetMany,
                    ) == 0,
                },
                match setter {
                    Some(s) => spec_resolved_setter(avs.take(i as int), value@.name) == Some(s@)
                        && has_field_key(avs.take(i as int), FieldKey::Setter),
                    None => spec_resolved_setter(avs.take(i as int), value@.name) is None
                        && field_key_count(avs.take(i as int), FieldKey::Setter) == 0,
                },
            decreases n - i,
        {
            proof {
                assert(avs.take(i + 1).drop_last() =~= avs.take(i as int));
                assert(avs.take(i + 1).last() == avs[i as int]);
                assert(avs[i as int] == value.attrs@[i as int]@);
                lemma_has_field_key_take_step(avs, i as int);
                lemma_field_key_count_has(avs.take(i as int), field_key_of(avs[i as int]));
                lemma_field_key_count_take_le(avs, i + 1, field_key_of(avs[i as int]));
            }
            match &value.attrs[i] {
                FieldAttr::Column(c) => {
                    if column.is_some() {
                        proof {
                            assert(field_key_count(avs, FieldKey::Column) >= 2);
                            assert(spec_field_key_name(FieldKey::Column) == "column"@);
                        }
                        return Err(GenError::DuplicateAttribute(String::from_str("column")));
                    }
                    column = Some(c.clone());
                },
                FieldAttr::CustomType => {
                    if custom_type {
                        proof {
                            assert(field_key_count(avs, FieldKey::CustomType) >= 2);
                            assert(spec_field_key_name(FieldKey::CustomType) == "custom_type"@);
                        }
                        return Err(GenError::DuplicateAttribute(String::from_str("custom_type")));
                    }
                    custom_type = true;
                },
                FieldAttr::GetOne(g) => {
                    if get_one.is_some() {
                        proof {
                            assert(field_key_count(avs, FieldKey::GetOne) >= 2);
                            assert(spec_field_key_name(FieldKey::GetOne) == "get_one"@);
                        }
                        return Err(GenError::DuplicateAttribute(String::from_str("get_one")));
                    }
                    get_one = Some(g.clone_parts());
                },
                FieldAttr::GetOptional(g) => {
                    if get_optional.is_some() {
                        proof {
                            assert(field_key_count(avs, FieldKey::GetOptional) >= 2);
                            assert(spec_field_key_name(FieldKey::GetOptional) == "get_optional"@);
                        }
                        return Err(GenError::DuplicateAttribute(String::from_str("get_optional")));
                    }
                    get_optional = Some(g.clone_parts());
                },
                FieldAttr::GetMany(g) => {
                    if get_many.is_some() {
                        proof {
                            assert(field_key_count(avs, FieldKey::GetMany) >= 2);
                            assert(spec_field_key_name(FieldKey::GetMany) == "get_many"@);
                        }
                        return Err(GenError::DuplicateAttribute(String::from_str("get_many")));
                    }
                    get_many = Some(g.clone_parts());
                },
                FieldAttr::Setter(s) => {
                    if setter.is_some() {
                        proof {
                            assert(field_key_count(avs, FieldKey::Setter) >= 2);
                            assert(spec_field_key_name(FieldKey::Setter) == "set"@);
                        }
                        return Err(GenError::DuplicateAttribute(String::from_str("set")));
                    }
                    setter = Some(
                        match s {
                            Some(name) => name.clone(),
                            None => String::from_str("set_").concat(value.name.as_str()),
                        },
                    );
                },
                FieldAttr::DefaultValue => {
                    if has_default {
                        proof {
                            assert(field_key_count(avs, FieldKey::DefaultValue) >= 2);
                            assert(spec_field_key_name(FieldKey::DefaultValue) == "default"@);
                        }
                        return Err(GenError::DuplicateAttribute(String::from_str("default")));
                    }
                    has_default = true;
                },
                FieldAttr::Unmapped => {
                    if !value.is_option {
                        proof {
                            lemma_field_key_count_take_le(avs, i + 1, FieldKey::Unmapped);
                            lemma_field_key_count_has(avs, FieldKey::Unmapped);
                        }
                        return Err(GenError::UnmappedNotOption);
                    }
                    if unmapped {
                        proof {
                            assert(field_key_count(avs, FieldKey::Unmapped) >= 2);
                            assert(spec_field_key_name(FieldKey::Unmapped) == "unmapped"@);
                        }
                        return Err(GenError::DuplicateAttribute(String::from_str("unmapped")));
                    }
                    unmapped = true;
                },
            }
            proof {
                let ghost cur = field_key_of(avs[i as int]);
                assert(field_key_count(avs.take(i as int), cur) == 0);
                let s1 = avs.take(i + 1);
                assert forall|k: FieldKey| field_key_count(s1, k) <= 1 by {
                    if k != cur {
                        assert(field_key_count(s1, k) == field_key_count(avs.take(i as int), k));
                    } else {
                        assert(field_key_count(s1, k) <= 1);
                    }
                }
            }
            i = i + 1;
        }
        proof {
            assert(avs.take(n as int) =~= avs);
        }
        let column_name = match column {
            Some(c) => c,
            None => value.name.clone(),
        };
        let reserved_ident = b.is_reserved(column_name.as_str());
        Ok(
            TableField {
                field: value.name.clone(),
                ty: value.ty.clone(),
                column_name,
                custom_type,
                reserved_ident,
                pk: false,
                has_default,
                unmapped,
                get_one,
                get_optional,
                get_many,
                setter,
            },
        )
    }
}

/// A table annotation is present exactly when the first table name resolves.
pub proof fn lemma_first_table_has(s: Seq<TableAttrView>)
    ensures
        first_table(s) is Some <==> has_table_key(s, TableKey::Table),
    decreases s.len(),
{
    if s.len() > 0 {
        lemma_first_table_has(s.drop_last());
        if first_table(s) is Some {
            if first_table(s.drop_last()) is Some {
                let j = choose|j: int|
                    0 <= j < s.drop_last().len() && table_key_of(s.drop_last()[j])
                        == TableKey::Table;
                assert(table_key_of(s[j]) == TableKey::Table);
            } else {
                assert(table_key_of(s[s.len() - 1]) == TableKey::Table);
            }
        }
        if has_table_key(s, TableKey::Table) && first_table(s.drop_last()) is None {
            let j = choose|j: int| 0 <= j < s.len() && table_key_of(s[j]) == TableKey::Table;
            if j < s.len() - 1 {
                assert(table_key_of(s.drop_last()[j]) == TableKey::Table);
            }
        }
    }
}

impl Table {
    /// Build a validated entity descriptor from a declaration: resolve the
    /// declaration-level annotations (each at most once), require a table
    /// name, locate the field a given id annotation names, resolve every
    /// field in declaration order, and refuse a database default without an
    /// insertable companion.
    pub fn try_from_decl(decl: &TableDecl, b: &Backend) -> (r: Result<Table, GenError>)
        ensures
            r is Ok <==> table_decl_ok(decl@),
            r matches Ok(t) ==> {
                let d = decl@;
                &&& t@.ident == d.ident
                &&& Some(t@.table) == first_table(d.attrs)
                &&& t@.insertable == spec_resolved_insertable(d.attrs, d.ident)
                &&& (first_id(d.attrs) is None ==> t@.id is None)
                &&& (first_id(d.attrs) matches Some(n) ==> t@.id matches Some(idx) && 0 <= idx
                    < d.fields.len() && d.fields[idx].name == n && (forall|j: int|
                    0 <= j < idx ==> (#[trigger] d.fields[j]).name != n))
                &&& t@.fields.len() == d.fields.len()
                &&& (forall|j: int|
                    0 <= j < d.fields.len() ==> field_resolves_to(
                        d.fields[j],
                        *b,
                        #[trigger] t@.fields[j],
                    ) && (t@.fields[j].pk <==> t@.id == Some(j)))
            },
            r matches Err(e) ==> match e {
                GenError::DuplicateAttribute(k) => (exists|tk: TableKey|
                    table_key_count(decl@.attrs, tk) >= 2 && k@ == spec_table_key_name(tk)) || (
                exists|j: int, fk: FieldKey|
                    0 <= j < decl@.fields.len() && #[trigger] field_key_count(
                        decl@.fields[j].attrs,
                        fk,
                    ) >= 2 && k@ == spec_field_key_name(fk)),
                GenError::MissingAttribute(k) => k@ == "table"@ && !has_table_key(
                    decl@.attrs,
                    TableKey::Table,
                ),
                GenError::IdNotFound => first_id(decl@.attrs) matches Some(n) && !(exists|j: int|
                    0 <= j < decl@.fields.len() && (#[trigger] decl@.fields[j]).name == n),
                GenError::UnmappedNotOption => exists|j: int|
                    0 <= j < decl@.fields.len() && has_field_key(
                        (#[trigger] decl@.fields[j]).attrs,
                        FieldKey::Unmapped,
                    ) && !decl@.fields[j].is_option,
                GenError::DefaultWithoutInsertable => decl_has_default(decl@.fields)
                    && spec_resolved_insertable(decl@.attrs, decl@.ident) is None,
                _ => false,
            },
    {
        let ghost avs = decl@.attrs;
        let ghost dfs = decl@.fields;
        let mut table_name: Option<String> = None;
        let mut id_name: Option<String> = None;
        let mut insertable: Option<String> = None;

        let n = decl.attrs.len();
        let mut i: usize = 0;
        while i < n
            invariant
                0 <= i <= n,
                n == decl.attrs.len(),
                avs == decl@.attrs,
                avs.len() == n,
                table_key_count(avs.take(i as int), TableKey::Table) <= 1,
                table_key_count(avs.take(i as int), TableKey::Id) <= 1,
                table_key_count(avs.take(i as int), TableKey::Insertable) <= 1,
                match table_name {
                    Some(t) => first_table(avs.take(i as int)) == Some(t@) && has_table_key(
                        avs.take(i as int),
                        TableKey::Table,
                    ),
                    None => first_table(avs.take(i as int)) is None && table_key_count(
                        avs.take(i as int),
                        TableKey::Table,
                    ) == 0,
                },
                match id_name {
                    Some(t) => first_id(avs.take(i as int)) == Some(t@) && has_table_key(
                        avs.take(i as int),
                        TableKey::Id,
                    ),
                    None => first_id(avs.take(i as int)) is None && table_key_count(
                        avs.take(i as int),
                        TableKey::Id,
                    ) == 0,
                },
                match insertable {
                    Some(t) => spec_resolved_insertable(avs.take(i as int), decl@.ident) == Some(
                        t@,
                    ) && has_table_key(avs.take(i as int), TableKey::Insertable),
                    None => spec_resolved_insertable(avs.take(i as int), decl@.ident) is None
                        && table_key_count(avs.take(i as int), TableKey::Insertable) == 0,
                },
            decreases n - i,
        {
            proof {
                assert(avs.take(i + 1).drop_last() =~= avs.take(i as int));
                assert(avs.take(i + 1).last() == avs[i as int]);
                assert(avs[i as int] == decl.attrs@[i as int]@);
                lemma_has_table_key_take_step(avs, i as int);
                lemma_table_key_count_has(avs.take(i as int), table_key_of(avs[i as int]));
                lemma_table_key_count_take_le(avs, i + 1, table_key_of(avs[i as int]));
            }
            match &decl.attrs[i] {
                TableAttr::Table(t) => {
                    if table_name.is_some() {
                        proof {
                            assert(table_key_count(avs, TableKey::Table) >= 2);
                            assert(spec_table_key_name(TableKey::Table) == "table"@);
                        }
                        return Err(GenError::DuplicateAttribute(String::from_str("table")));
                    }
                    table_name = Some(t.clone());
                },
                TableAttr::Id(x) => {
                    if id_name.is_some() {
                        proof {
                            assert(table_key_count(avs, TableKey::Id) >= 2);
                            assert(spec_table_key_name(TableKey::Id) == "id"@);
                        }
                        return Err(GenError::DuplicateAttribute(String::from_str("id")));
                    }
                    id_name = Some(x.clone());
                },
                TableAttr::Insertable(o) => {
                    if insertable.is_some() {
                        proof {
                            assert(table_key_count(avs, TableKey::Insertable) >= 2);
                            assert(spec_table_key_name(TableKey::Insertable) == "insertable"@);
                        }
                        return Err(GenError::DuplicateAttribute(String::from_str("insertable")));
                    }
                    insertable = Some(
                        match o {
                            Some(name) => name.clone(),
                            None => String::from_str("Insert").concat(decl.ident.as_str()),
                        },
                    );
                },
                _ => {},
            }
            i = i + 1;
        }
        proof {
            assert(avs.take(n as int) =~= avs);
            lemma_first_table_has(avs);
            lemma_table_key_count_has(avs, TableKey::Table);
            assert(insertable is None ==> spec_resolved_insertable(decl@.attrs, decl@.ident) is None);
        }

        let table = match table_name {
            Some(t) => t,
            None => {
                return Err(GenError::MissingAttribute(String::from_str("table")));
            },
        };

        let m = decl.fields.len();
        let mut id_idx: Option<usize> = None;
        if let Some(idn) = &id_name {
            let mut j: usize = 0;
            let mut found: Option<usize> = None;
            while j < m
                invariant
                    0 <= j <= m,
                    m == decl.fields.len(),
                    dfs == decl@.fields,
                    dfs.len() == m,
                    match found {
                        Some(f) => 0 <= f < m && dfs[f as int].name == idn@ && (forall|jj: int|
                            0 <= jj < f ==> (#[trigger] dfs[jj]).name != idn@),
                        None => forall|jj: int| 0 <= jj < j ==> (#[trigger] dfs[jj]).name != idn@,
                    },
                decreases m - j,
            {
                proof {
                    assert(dfs[j as int] == decl.fields@[j as int]@);
                }
                if found.is_none() && decl.fields[j].name == *idn {
                    found = Some(j);
                }
                j = j + 1;
            }
            match found {
                Some(f) => {
                    id_idx = Some(f);
                },
                None => {
                    return Err(GenError::IdNotFound);
                },
            }
        }

        let mut fields: Vec<TableField> = Vec::new();
        let mut j: usize = 0;
        while j < m
            invariant
                0 <= j <= m,
                m == decl.fields.len(),
                dfs == decl@.fields,
                dfs.len() == m,
                fields@.len() == j,
                forall|jj: int|
                    0 <= jj < j ==> field_resolves_to(dfs[jj], *b, (#[trigger] fields@[jj])@) && (
                    fields@[jj]@.pk <==> (id_idx matches Some(f) && jj == f)),
                forall|jj: int| 0 <= jj < j ==> field_decl_ok(#[trigger] dfs[jj]),
            decreases m - j,
        {
            proof {
                assert(dfs[j as int] == decl.fields@[j as int]@);
            }
            let mut f = match TableField::try_from_decl(&decl.fields[j], b) {
                Ok(f) => f,
                Err(e) => {
                    return Err(e);
                },
            };
            if let Some(idx) = id_idx {
                if idx == j {
                    f.pk = true;
                }
            }
            fields.push(f);
            j = j + 1;
        }

        if insertable.is_none() {
            let mut j: usize = 0;
            while j < m
                invariant
                    0 <= j <= m,
                    m == decl.fields.len(),
                    dfs == decl@.fields,
                    dfs.len() == m,
                    fields@.len() == m,
                    spec_resolved_insertable(decl@.attrs, decl@.ident) is None,
                    forall|jj: int|
                        0 <= jj < m ==> field_resolves_to(dfs[jj], *b, (#[trigger] fields@[jj])@),
                    forall|jj: int|
                        0 <= jj < j ==> !has_field_key(
                            (#[trigger] dfs[jj]).attrs,
                            FieldKey::DefaultValue,
                        ),
                decreases m - j,
            {
                if fields[j].has_default {
                    proof {
                        assert(has_field_key(dfs[j as int].attrs, FieldKey::DefaultValue));
                        assert(decl_has_default(dfs));
                    }
                    return Err(GenError::DefaultWithoutInsertable);
                }
                j = j + 1;
            }
        }

        let r = Table { ident: decl.ident.clone(), table, id: id_idx, fields, insertable };
        Ok(r)
    }
}

/// Indices of the fields that are supplied by the caller at insert time:
/// those without a database default.
pub open spec fn idx_insertable(fields: Seq<FieldView>) -> Seq<int>
    decreases fields.len(),
{
    if fields.len() == 0 {
        Seq::empty()
    } else {
        idx_insertable(fields.drop_last()) + (if !fields.last().has_default {
            seq![fields.len() - 1]
        } else {
            Seq::empty()
        })
    }
}

/// The insertable partition never yields more indices than there are
/// fields.
pub proof fn lemma_idx_insertable_len(fields: Seq<FieldView>)
    ensures
        idx_insertable(fields).len() <= fields.len(),
    decreases fields.len(),
{
    if fields.len() > 0 {
        lemma_idx_insertable_len(fields.drop_last());
    }
}

/// Indices of the fields whose value the database computes.
pub open spec fn idx_default(fields: Seq<FieldView>) -> Seq<int>
    decreases fields.len(),
{
    if fields.len() == 0 {
        Seq::empty()
    } else {
        idx_default(fields.drop_last()) + (if fields.last().has_default {
            seq![fields.len() - 1]
        } else {
            Seq::empty()
        })
    }
}

/// Indices of the database-defaulted fields other than the id.
pub open spec fn idx_default_except(fields: Seq<FieldView>, id: int) -> Seq<int>
    decreases fields.len(),
{
    if fields.len() == 0 {
        Seq::empty()
    } else {
        idx_default_except(fields.drop_last(), id) + (if fields.last().has_default && fields.len()
            - 1 != id {
            seq![fields.len() - 1]
        } else {
            Seq::empty()
        })
    }
}

/// A prefix of the field list never has more insertable fields than the
/// whole list.
pub proof fn lemma_idx_insertable_take_le(fields: Seq<FieldView>, j: int)
    requires
        0 <= j <= fields.len(),
    ensures
        idx_insertable(fields.take(j)).len() <= idx_insertable(fields).len(),
    decreases fields.len(),
{
    if j == fields.len() {
        assert(fields.take(j) =~= fields);
    } else if fields.len() > 0 {
        assert(fields.drop_last().take(j) =~= fields.take(j));
        lemma_idx_insertable_take_le(fields.drop_last(), j);
    }
}

/// A prefix of the field list never has more non-id defaulted fields than
/// the whole list.
pub proof fn lemma_idx_default_except_take_le(fields: Seq<FieldView>, id: int, j: int)
    requires
        0 <= j <= fields.len(),
    ensures
        idx_default_except(fields.take(j), id).len() <= idx_default_except(fields, id).len(),
    decreases fields.len(),
{
    if j == fields.len() {
        assert(fields.take(j) =~= fields);
    } else if fields.len() > 0 {
        assert(fields.drop_last().take(j) =~= fields.take(j));
        lemma_idx_default_except_take_le(fields.drop_last(), id, j);
    }
}

/// A prefix of the field list never has more defaulted fields than the
/// whole list.
pub proof fn lemma_idx_default_take_le(fields: Seq<FieldView>, j: int)
    requires
        0 <= j <= fields.len(),
    ensures
        idx_default(fields.take(j)).len() <= idx_default(fields).len(),
    decreases fields.len(),
{
    if j == fields.len() {
        assert(fields.take(j) =~= fields);
    } else if fields.len() > 0 {
        assert(fields.drop_last().take(j) =~= fields.take(j));
        lemma_idx_default_take_le(fields.drop_last(), j);
    }
}

/// The defaulted partition never yields more indices than there are
/// fields.
pub proof fn lemma_idx_default_len(fields: Seq<FieldView>)
    ensures
        idx_default(fields).len() <= fields.len(),
    decreases fields.len(),
{
    if fields.len() > 0 {
        lemma_idx_default_len(fields.drop_last());
    }
}

/// The non-id defaulted partition never yields more indices than there are
/// fields.
pub proof fn lemma_idx_default_except_len(fields: Seq<FieldView>, id: int)
    ensures
        idx_default_except(fields, id).len() <= fields.len(),
    decreases fields.len(),
{
    if fields.len() > 0 {
        lemma_idx_default_except_len(fields.drop_last(), id);
    }
}

/// Indices of the fields marked primary key.
pub open spec fn idx_primary_key(fields: Seq<FieldView>) -> Seq<int>
    decreases fields.len(),
{
    if fields.len() == 0 {
        Seq::empty()
    } else {
        idx_primary_key(fields.drop_last()) + (if fields.last().pk {
            seq![fields.len() - 1]
        } else {
            Seq::empty()
        })
    }
}

/// Indices of every field but the one at `id`.
pub open spec fn idx_except(len: int, id: int) -> Seq<int>
    decreases len,
{
    if len <= 0 {
        Seq::empty()
    } else {
        idx_except(len - 1, id) + (if len - 1 != id {
            seq![len - 1]
        } else {
            Seq::empty()
        })
    }
}

impl Table {
    /// Indices of all fields except the primary key, in declaration order.
    pub fn fields_except_id(&self) -> (r: Vec<usize>)
        requires
            self@.is_idable(),
        ensures
            r@.map_values(|u: usize| u as int) == idx_except(
                self@.fields.len() as int,
                self@.id.unwrap(),
            ),
    {
        let id = self.id.unwrap();
        let mut r: Vec<usize> = Vec::new();
        let mut i: usize = 0;
        while i < self.fields.len()
            invariant
                0 <= i <= self.fields.len(),
                self@.is_idable(),
                id == self@.id.unwrap(),
                r@.map_values(|u: usize| u as int) == idx_except(i as int, id as int),
            decreases self.fields.len() - i,
        {
            if i != id {
                let ghost prev = r@;
                r.push(i);
                proof {
                    assert(r@.map_values(|u: usize| u as int) =~= prev.map_values(
                        |u: usize| u as int,
                    ) + seq![i as int]);
                }
            }
            i = i + 1;
        }
        r
    }

    /// Indices of the insertable fields, in declaration order.
    pub fn insertable_fields(&self) -> (r: Vec<usize>)
        ensures
            r@.map_values(|u: usize| u as int) == idx_insertable(self@.fields),
    {
        let mut r: Vec<usize> = Vec::new();
        let mut i: usize = 0;
        while i < self.fields.len()
            invariant
                0 <= i <= self.fields.len(),
                r@.map_values(|u: usize| u as int) == idx_insertable(self@.fields.take(i as int)),
            decreases self.fields.len() - i,
        {
            proof {
                assert(self@.fields.take(i + 1).drop_last() =~= self@.fields.take(i as int));
                assert(self@.fields.take(i + 1).last() == self@.fields[i as int]);
            }
            if !self.fields[i].has_default {
                let ghost prev = r@;
                r.push(i);
                proof {
                    assert(r@.map_values(|u: usize| u as int) =~= prev.map_values(
                        |u: usize| u as int,
                    ) + seq![i as int]);
                }
            }
            i = i + 1;
        }
        proof {
            assert(self@.fields.take(self.fields@.len() as int) =~= self@.fields);
        }
        r
    }

    /// Indices of the database-defaulted fields, in declaration order.
    pub fn default_fields(&self) -> (r: Vec<usize>)
        ensures
            r@.map_values(|u: usize| u as int) == idx_default(self@.fields),
    {
        let mut r: Vec<usize> = Vec::new();
        let mut i: usize = 0;
        while i < self.fields.len()
            invariant
                0 <= i <= self.fields.len(),
                r@.map_values(|u: usize| u as int) == idx_default(self@.fields.take(i as int)),
            decreases self.fields.len() - i,
        {
            proof {
                assert(self@.fields.take(i + 1).drop_last() =~= self@.fields.take(i as int));
                assert(self@.fields.take(i + 1).last() == self@.fields[i as int]);
            }
            if self.fields[i].has_default {
                let ghost prev = r@;
                r.push(i);
                proof {
                    assert(r@.map_values(|u: usize| u as int) =~= prev.map_values(
                        |u: usize| u as int,
                    ) + seq![i as int]);
                }
            }
            i = i + 1;
        }
        proof {
            assert(self@.fields.take(self.fields@.len() as int) =~= self@.fields);
        }
        r
    }

    /// Indices of the fields marked primary key, in declaration order.
    pub fn primary_key_fields(&self) -> (r: Vec<usize>)
        ensures
            r@.map_values(|u: usize| u as int) == idx_primary_key(self@.fields),
    {
        let mut r: Vec<usize> = Vec::new();
        let mut i: usize = 0;
        while i < self.fields.len()
            invariant
                0 <= i <= self.fields.len(),
                r@.map_values(|u: usize| u as int) == idx_primary_key(self@.fields.take(i as int)),
            decreases self.fields.len() - i,
        {
            proof {
                assert(self@.fields.take(i + 1).drop_last() =~= self@.fields.take(i as int));
                assert(self@.fields.take(i + 1).last() == self@.fields[i as int]);
            }
            if self.fields[i].pk {
                let ghost prev = r@;
                r.push(i);
                proof {
                    assert(r@.map_values(|u: usize| u as int) =~= prev.map_values(
                        |u: usize| u as int,
                    ) + seq![i as int]);
                }
            }
            i = i + 1;
        }
        proof {
            assert(self@.fields.take(self.fields@.len() as int) =~= self@.fields);
        }
        r
    }
}

} // verus!
