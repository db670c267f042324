//! The patch structure: a subset of a table's fields that can be applied to
//! an in-memory entity and persisted as a partial UPDATE. The persisted
//! statement sets exactly the held fields, in order, and binds the id by the
//! last placeholder.

use vstd::prelude::*;
use crate::backend::Backend;
use crate::strutil::{join_comma, spec_join};

verus! {

/// One field held by a patch.
pub struct PatchField {
    pub ident: String,
    pub column: String,
    pub custom: bool,
    pub ty: String,
}

pub ghost struct PatchFieldView {
    pub ident: Seq<char>,
    pub column: Seq<char>,
    pub custom: bool,
    pub ty: Seq<char>,
}

impl View for PatchField {
    type V = PatchFieldView;

    open spec fn view(&self) -> PatchFieldView {
        PatchFieldView {
            ident: self.ident@,
            column: self.column@,
            custom: self.custom,
            ty: self.ty@,
        }
    }
}

/// A partial update: the target table, the id column, and the held fields.
pub struct Patch {
    pub ident: String,
    pub table_name: String,
    pub id_column: String,
    pub fields: Vec<PatchField>,
}

pub ghost struct PatchView {
    pub ident: Seq<char>,
    pub table_name: Seq<char>,
    pub id_column: Seq<char>,
    pub fields: Seq<PatchFieldView>,
}

impl View for Patch {
    type V = PatchView;

    open spec fn view(&self) -> PatchView {
        PatchView {
            ident: self.ident@,
            table_name: self.table_name@,
            id_column: self.id_column@,
            fields: self.fields@.map_values(|f: PatchField| f@),
        }
    }
}

/// The SET-list items of the patch statement: one `column = placeholder`
/// per held field, placeholders numbered in order.
pub open spec fn spec_patch_items(fields: Seq<PatchFieldView>, b: Backend) -> Seq<Seq<char>>
    decreases fields.len(),
{
    if fields.len() == 0 {
        Seq::empty()
    } else {
        spec_patch_items(fields.drop_last(), b) + seq![
            fields.last().column + " = "@ + b.spec_placeholder(fields.len() as nat),
        ]
    }
}

impl PatchView {
    /// The patch statement: set exactly the held fields, then the id bound
    /// by the last placeholder.
    pub open spec fn spec_patch_sql(self, b: Backend) -> Seq<char> {
        "UPDATE "@ + self.table_name + " SET "@ + spec_join(spec_patch_items(self.fields, b), ", "@)
            + " WHERE "@ + self.id_column + " = "@ + b.spec_placeholder(
            (self.fields.len() + 1) as nat,
        )
    }
}

impl Patch {
    /// The SQL that persists exactly the held fields of this patch.
    pub fn patch_sql(&self, b: &Backend) -> (r: String)
        requires
            self.fields@.len() < u64::MAX,
        ensures
            r@ == self@.spec_patch_sql(*b),
    {
        let mut items: Vec<String> = Vec::new();
        let mut i: usize = 0;
        while i < self.fields.len()
            invariant
                0 <= i <= self.fields.len(),
                self.fields@.len() < u64::MAX,
                items@.map_values(|s: String| s@) == spec_patch_items(
                    self@.fields.take(i as int),
                    *b,
                ),
            decreases self.fields.len() - i,
        {
            proof {
                assert(self@.fields.take(i + 1).drop_last() =~= self@.fields.take(i as int));
                assert(self@.fields.take(i + 1).last() == self@.fields[i as int]);
            }
            let ghost prev = items@;
            let item = self.fields[i].column.clone().concat(" = ").concat(
                b.placeholder((i as u64) + 1).as_str(),
            );
            items.push(item);
            proof {
                assert(item@ =~= self@.fields[i as int].column + " = "@ + b.spec_placeholder(
                    (i + 1) as nat,
                ));
                assert(items@.map_values(|s: String| s@) =~= prev.map_values(|s: String| s@)
                    + seq![item@]);
            }
            i = i + 1;
        }
        proof {
            assert(self@.fields.take(self.fields@.len() as int) =~= self@.fields);
        }
        let n = self.fields.len();
        let r = String::from_str("UPDATE ").concat(self.table_name.as_str()).concat(
            " SET ",
        ).concat(join_comma(&items).as_str()).concat(" WHERE ").concat(
            self.id_column.as_str(),
        ).concat(" = ").concat(b.placeholder((n as u64) + 1).as_str());
        proof {
            assert(r@ =~= self@.spec_patch_sql(*b));
        }
        r
    }
}

} // verus!
