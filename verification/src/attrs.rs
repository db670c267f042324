//! Typed representation of the annotations a declaration may carry, at the
//! declaration level (table name, id field, insertable companion, datasource,
//! queryable companion) and at the field level (column override, custom type,
//! getter and setter directives, database default, unmapped marker).
//!
//! Each annotation key may be given at most once; a second occurrence is a
//! duplicate-attribute error naming the key.

use vstd::prelude::*;

verus! {

/// A getter directive: an optional function name and an optional argument
/// type, each falling back to a default derived from the field.
#[derive(Debug)]
pub struct Getter {
    pub func: Option<String>,
    pub arg_ty: Option<String>,
}

pub ghost struct GetterView {
    pub func: Option<Seq<char>>,
    pub arg_ty: Option<Seq<char>>,
}

impl View for Getter {
    type V = GetterView;

    open spec fn view(&self) -> GetterView {
        GetterView {
            func: match self.func {
                Some(f) => Some(f@),
                None => None,
            },
            arg_ty: match self.arg_ty {
                Some(t) => Some(t@),
                None => None,
            },
        }
    }
}

impl Getter {
    pub fn clone_parts(&self) -> (r: Getter)
        ensures
            r@ == self@,
    {
        Getter {
            func: match &self.func {
                Some(f) => Some(f.clone()),
                None => None,
            },
            arg_ty: match &self.arg_ty {
                Some(t) => Some(t.clone()),
                None => None,
            },
        }
    }
}

/// One field-level annotation.
pub enum FieldAttr {
    Column(String),
    CustomType,
    GetOne(Getter),
    GetOptional(Getter),
    GetMany(Getter),
    Setter(Option<String>),
    DefaultValue,
    Unmapped,
}

pub ghost enum FieldAttrView {
    Column(Seq<char>),
    CustomType,
    GetOne(GetterView),
    GetOptional(GetterView),
    GetMany(GetterView),
    Setter(Option<Seq<char>>),
    DefaultValue,
    Unmapped,
}

impl View for FieldAttr {
    type V = FieldAttrView;

    open spec fn view(&self) -> FieldAttrView {
        match self {
            FieldAttr::Column(c) => FieldAttrView::Column(c@),
            FieldAttr::CustomType => FieldAttrView::CustomType,
            FieldAttr::GetOne(g) => FieldAttrView::GetOne(g@),
            FieldAttr::GetOptional(g) => FieldAttrView::GetOptional(g@),
            FieldAttr::GetMany(g) => FieldAttrView::GetMany(g@),
            FieldAttr::Setter(s) => FieldAttrView::Setter(
                match s {
                    Some(n) => Some(n@),
                    None => None,
                },
            ),
            FieldAttr::DefaultValue => FieldAttrView::DefaultValue,
            FieldAttr::Unmapped => FieldAttrView::Unmapped,
        }
    }
}

/// The key of a field-level annotation, for duplicate detection.
#[derive(PartialEq, Eq, Structural, Clone, Copy)]
pub enum FieldKey {
    Column,
    CustomType,
    GetOne,
    GetOptional,
    GetMany,
    Setter,
    DefaultValue,
    Unmapped,
}

pub open spec fn field_key_of(a: FieldAttrView) -> FieldKey {
    match a {
        FieldAttrView::Column(_) => FieldKey::Column,
        FieldAttrView::CustomType => FieldKey::CustomType,
        FieldAttrView::GetOne(_) => FieldKey::GetOne,
        FieldAttrView::GetOptional(_) => FieldKey::GetOptional,
        FieldAttrView::GetMany(_) => FieldKey::GetMany,
        FieldAttrView::Setter(_) => FieldKey::Setter,
        FieldAttrView::DefaultValue => FieldKey::DefaultValue,
        FieldAttrView::Unmapped => FieldKey::Unmapped,
    }
}

/// The name under which a field-level key is reported in errors.
pub open spec fn spec_field_key_name(k: FieldKey) -> Seq<char> {
    match k {
        FieldKey::Column => "column"@,
        FieldKey::CustomType => "custom_type"@,
        FieldKey::GetOne => "get_one"@,
        FieldKey::GetOptional => "get_optional"@,
        FieldKey::GetMany => "get_many"@,
        FieldKey::Setter => "set"@,
        FieldKey::DefaultValue => "default"@,
        FieldKey::Unmapped => "unmapped"@,
    }
}

/// How many annotations in `attrs` carry the key `k`.
pub open spec fn field_key_count(attrs: Seq<FieldAttrView>, k: FieldKey) -> nat
    decreases attrs.len(),
{
    if attrs.len() == 0 {
        0
    } else {
        field_key_count(attrs.drop_last(), k) + (if field_key_of(attrs.last()) == k {
            1nat
        } else {
            0nat
        })
    }
}

pub open spec fn has_field_key(attrs: Seq<FieldAttrView>, k: FieldKey) -> bool {
    exists|i: int| 0 <= i < attrs.len() && field_key_of(attrs[i]) == k
}

pub proof fn lemma_field_key_count_has(attrs: Seq<FieldAttrView>, k: FieldKey)
    ensures
        has_field_key(attrs, k) <==> field_key_count(attrs, k) > 0,
    decreases attrs.len(),
{
    if attrs.len() > 0 {
        lemma_field_key_count_has(attrs.drop_last(), k);
        if field_key_of(attrs.last()) == k {
            assert(field_key_of(attrs[attrs.len() - 1]) == k);
        } else if has_field_key(attrs, k) {
            let i = choose|i: int| 0 <= i < attrs.len() && field_key_of(attrs[i]) == k;
            if i < attrs.len() - 1 {
                assert(field_key_of(attrs.drop_last()[i]) == k);
            }
        } else {
            if has_field_key(attrs.drop_last(), k) {
                let i = choose|i: int|
                    0 <= i < attrs.drop_last().len() && field_key_of(attrs.drop_last()[i]) == k;
                assert(field_key_of(attrs[i]) == k);
            }
        }
    }
}

/// One declaration-level annotation.
pub enum TableAttr {
    Table(String),
    Id(String),
    Insertable(Option<String>),
    Datasource(String),
    Queryable(Option<String>),
}

pub ghost enum TableAttrView {
    Table(Seq<char>),
    Id(Seq<char>),
    Insertable(Option<Seq<char>>),
    Datasource(Seq<char>),
    Queryable(Option<Seq<char>>),
}

impl View for TableAttr {
    type V = TableAttrView;

    open spec fn view(&self) -> TableAttrView {
        match self {
            TableAttr::Table(t) => TableAttrView::Table(t@),
            TableAttr::Id(i) => TableAttrView::Id(i@),
            TableAttr::Insertable(o) => TableAttrView::Insertable(
                match o {
                    Some(n) => Some(n@),
                    None => None,
                },
            ),
            TableAttr::Datasource(d) => TableAttrView::Datasource(d@),
            TableAttr::Queryable(o) => TableAttrView::Queryable(
                match o {
                    Some(n) => Some(n@),
                    None => None,
                },
            ),
        }
    }
}

/// The key of a declaration-level annotation, for duplicate detection.
#[derive(PartialEq, Eq, Structural, Clone, Copy)]
pub enum TableKey {
    Table,
    Id,
    Insertable,
    Datasource,
    Queryable,
}

pub open spec fn table_key_of(a: TableAttrView) -> TableKey {
    match a {
        TableAttrView::Table(_) => TableKey::Table,
        TableAttrView::Id(_) => TableKey::Id,
        TableAttrView::Insertable(_) => TableKey::Insertable,
        TableAttrView::Datasource(_) => TableKey::Datasource,
        TableAttrView::Queryable(_) => TableKey::Queryable,
    }
}

pub open spec fn spec_table_key_name(k: TableKey) -> Seq<char> {
    match k {
        TableKey::Table => "table"@,
        TableKey::Id => "id"@,
        TableKey::Insertable => "insertable"@,
        TableKey::Datasource => "datasource"@,
        TableKey::Queryable => "queryable"@,
    }
}

pub open spec fn table_key_count(attrs: Seq<TableAttrView>, k: TableKey) -> nat
    decreases attrs.len(),
{
    if attrs.len() == 0 {
        0
    } else {
        table_key_count(attrs.drop_last(), k) + (if table_key_of(attrs.last()) == k {
            1nat
        } else {
            0nat
        })
    }
}

pub open spec fn has_table_key(attrs: Seq<TableAttrView>, k: TableKey) -> bool {
    exists|i: int| 0 <= i < attrs.len() && table_key_of(attrs[i]) == k
}

pub proof fn lemma_table_key_count_has(attrs: Seq<TableAttrView>, k: TableKey)
    ensures
        has_table_key(attrs, k) <==> table_key_count(attrs, k) > 0,
    decreases attrs.len(),
{
    if attrs.len() > 0 {
        lemma_table_key_count_has(attrs.drop_last(), k);
        if table_key_of(attrs.last()) == k {
            assert(table_key_of(attrs[attrs.len() - 1]) == k);
        } else if has_table_key(attrs, k) {
            let i = choose|i: int| 0 <= i < attrs.len() && table_key_of(attrs[i]) == k;
            if i < attrs.len() - 1 {
                assert(table_key_of(attrs.drop_last()[i]) == k);
            }
        } else {
            if has_table_key(attrs.drop_last(), k) {
                let i = choose|i: int|
                    0 <= i < attrs.drop_last().len() && table_key_of(attrs.drop_last()[i]) == k;
                assert(table_key_of(attrs[i]) == k);
            }
        }
    }
}

/// A generation-time failure: the declaration cannot be turned into a valid
/// descriptor, and generation halts for it.
#[derive(Debug, PartialEq)]
pub enum GenError {
    /// An annotation key was given twice; carries the key's name.
    DuplicateAttribute(String),
    /// A required annotation is absent; carries the key's name.
    MissingAttribute(String),
    /// The id annotation does not name a field of the declaration.
    IdNotFound,
    /// The unmapped annotation sits on a field whose type is not optional.
    UnmappedNotOption,
    /// A field carries a database default but the declaration has no
    /// insertable companion.
    DefaultWithoutInsertable,
    /// The chosen dialect has no insert strategy in this generator.
    UnsupportedBackend,
}

pub open spec fn spec_gen_error_message(e: GenError) -> Seq<char> {
    match e {
        GenError::DuplicateAttribute(k) => "duplicate attribute: "@ + k@,
        GenError::MissingAttribute(k) => "missing attribute: "@ + k@,
        GenError::IdNotFound => "id does not refer to a field of the struct"@,
        GenError::UnmappedNotOption => "unmapped fields must be of type Option"@,
        GenError::DefaultWithoutInsertable => "default has no effect without insertable"@,
        GenError::UnsupportedBackend => "no insert strategy for this backend"@,
    }
}

impl GenError {
    /// A human-readable description of the failure.
    pub fn message(&self) -> (r: String)
        ensures
            r@ == spec_gen_error_message(*self),
    {
        match self {
            GenError::DuplicateAttribute(k) => String::from_str("duplicate attribute: ").concat(
                k.as_str(),
            ),
            GenError::MissingAttribute(k) => String::from_str("missing attribute: ").concat(
                k.as_str(),
            ),
            GenError::IdNotFound => String::from_str("id does not refer to a field of the struct"),
            GenError::UnmappedNotOption => String::from_str(
                "unmapped fields must be of type Option",
            ),
            GenError::DefaultWithoutInsertable => String::from_str(
                "default has no effect without insertable",
            ),
            GenError::UnsupportedBackend => String::from_str(
                "no insert strategy for this backend",
            ),
        }
    }
}

} // verus!
