//! Runtime values and the storage model the generated methods are proved
//! against. A bound value is one of a small set of plain shapes; a table's
//! state is modelled as a map from id to a row of values. The laws here say
//! that a setter is idempotent, that an insert followed by a get returns
//! the inserted row, and that deleting an absent row never reports success.

use vstd::prelude::*;
use vstd::pervasive::VecAdditionalExecFns;
use crate::error::DbError;
use crate::table::{
    Table, idx_default, idx_default_except, idx_insertable, lemma_idx_default_except_take_le,
    lemma_idx_default_len, lemma_idx_default_take_le, lemma_idx_insertable_take_le,
};

verus! {

/// One bound argument value.
#[derive(Debug, PartialEq)]
pub enum Value {
    Null,
    IntVal(i64),
    UintVal(u64),
    BoolVal(bool),
    Text(String),
}

pub ghost enum ValueView {
    Null,
    IntVal(i64),
    UintVal(u64),
    BoolVal(bool),
    Text(Seq<char>),
}

impl View for Value {
    type V = ValueView;

    open spec fn view(&self) -> ValueView {
        match self {
            Value::Null => ValueView::Null,
            Value::IntVal(v) => ValueView::IntVal(*v),
            Value::UintVal(v) => ValueView::UintVal(*v),
            Value::BoolVal(v) => ValueView::BoolVal(*v),
            Value::Text(s) => ValueView::Text(s@),
        }
    }
}

impl Value {
    pub fn clone_value(&self) -> (r: Value)
        ensures
            r@ == self@,
    {
        match self {
            Value::Null => Value::Null,
            Value::IntVal(v) => Value::IntVal(*v),
            Value::UintVal(v) => Value::UintVal(*v),
            Value::BoolVal(v) => Value::BoolVal(*v),
            Value::Text(s) => Value::Text(s.clone()),
        }
    }
}

/// The value the entity built after an insert holds at field `i`: the id
/// from the id recovery, an insertable field's value from the insert
/// struct, a defaulted field's value from what the database returned.
pub open spec fn spec_row_value(
    t: crate::table::TableView,
    idv: ValueView,
    ins: Seq<ValueView>,
    gen: Seq<ValueView>,
    i: int,
) -> ValueView {
    if i == t.id.unwrap() {
        idv
    } else if !t.fields[i].has_default {
        ins[idx_insertable(t.fields.take(i)).len() as int]
    } else {
        gen[idx_default_except(t.fields.take(i), t.id.unwrap()).len() as int]
    }
}

impl Table {
    /// Assemble the full entity after an insert: the id from the dialect's
    /// id recovery, the insertable fields from the caller's values in
    /// declaration order, and the defaulted fields from what the database
    /// generated, in declaration order.
    pub fn construct_row(
        &self,
        id_value: Value,
        inserted: &Vec<Value>,
        generated: &Vec<Value>,
    ) -> (r: Vec<Value>)
        requires
            self@.is_idable(),
            inserted@.len() == idx_insertable(self@.fields).len(),
            generated@.len() == idx_default_except(self@.fields, self@.id.unwrap()).len(),
        ensures
            r@.len() == self@.fields.len(),
            forall|i: int|
                0 <= i < self@.fields.len() ==> (#[trigger] r@[i])@ == spec_row_value(
                    self@,
                    id_value@,
                    inserted@.map_values(|v: Value| v@),
                    generated@.map_values(|v: Value| v@),
                    i,
                ),
    {
        let id = self.id.unwrap();
        let ghost idi = id as int;
        let mut r: Vec<Value> = Vec::new();
        let mut ins_k: usize = 0;
        let mut def_k: usize = 0;
        let mut i: usize = 0;
        while i < self.fields.len()
            invariant
                0 <= i <= self.fields.len(),
                self@.is_idable(),
                id == self@.id.unwrap(),
                idi == id as int,
                inserted@.len() == idx_insertable(self@.fields).len(),
                generated@.len() == idx_default_except(self@.fields, idi).len(),
                ins_k == idx_insertable(self@.fields.take(i as int)).len(),
                def_k == idx_default_except(self@.fields.take(i as int), idi).len(),
                r@.len() == i,
                forall|j: int|
                    0 <= j < i ==> (#[trigger] r@[j])@ == spec_row_value(
                        self@,
                        id_value@,
                        inserted@.map_values(|v: Value| v@),
                        generated@.map_values(|v: Value| v@),
                        j,
                    ),
            decreases self.fields.len() - i,
        {
            proof {
                assert(self@.fields.take(i + 1).drop_last() =~= self@.fields.take(i as int));
                assert(self@.fields.take(i + 1).last() == self@.fields[i as int]);
                lemma_idx_insertable_take_le(self@.fields, i + 1);
                lemma_idx_default_except_take_le(self@.fields, idi, i + 1);
                crate::table::lemma_idx_insertable_len(self@.fields.take(i as int));
                crate::table::lemma_idx_default_except_len(self@.fields.take(i as int), idi);
            }
            if i == id {
                r.push(id_value.clone_value());
                if !self.fields[i].has_default {
                    ins_k = ins_k + 1;
                }
            } else if !self.fields[i].has_default {
                r.push(inserted[ins_k].clone_value());
                ins_k = ins_k + 1;
            } else {
                r.push(generated[def_k].clone_value());
                def_k = def_k + 1;
            }
            i = i + 1;
        }
        proof {
            assert(self@.fields.take(self.fields@.len() as int) =~= self@.fields);
        }
        r
    }
}

/// The value the entity built from a RETURNING round trip holds at field
/// `i`: an unmapped field is filled with the given default, a defaulted
/// field comes from the returned row (which names every defaulted field,
/// the id included), and an insertable field comes from the caller's
/// values.
pub open spec fn spec_row_value_returning(
    t: crate::table::TableView,
    ins: Seq<ValueView>,
    ret: Seq<ValueView>,
    fill: ValueView,
    i: int,
) -> ValueView {
    if t.fields[i].unmapped {
        fill
    } else if t.fields[i].has_default {
        ret[idx_default(t.fields.take(i)).len() as int]
    } else {
        ins[idx_insertable(t.fields.take(i)).len() as int]
    }
}

impl Table {
    /// Assemble the full entity after a RETURNING insert: the insertable
    /// fields from the caller's values in declaration order, the defaulted
    /// fields from the row the statement returned, in declaration order,
    /// and each unmapped field filled with the given default value. No id
    /// recovery is needed: the returned row carries a generated id.
    pub fn construct_row_returning(
        &self,
        inserted: &Vec<Value>,
        returned: &Vec<Value>,
        fill: &Value,
    ) -> (r: Vec<Value>)
        requires
            inserted@.len() == idx_insertable(self@.fields).len(),
            returned@.len() == idx_default(self@.fields).len(),
        ensures
            r@.len() == self@.fields.len(),
            forall|i: int|
                0 <= i < self@.fields.len() ==> (#[trigger] r@[i])@ == spec_row_value_returning(
                    self@,
                    inserted@.map_values(|v: Value| v@),
                    returned@.map_values(|v: Value| v@),
                    fill@,
                    i,
                ),
    {
        let mut r: Vec<Value> = Vec::new();
        let mut ins_k: usize = 0;
        let mut def_k: usize = 0;
        let mut i: usize = 0;
        while i < self.fields.len()
            invariant
                0 <= i <= self.fields.len(),
                inserted@.len() == idx_insertable(self@.fields).len(),
                returned@.len() == idx_default(self@.fields).len(),
                ins_k == idx_insertable(self@.fields.take(i as int)).len(),
                def_k == idx_default(self@.fields.take(i as int)).len(),
                r@.len() == i,
                forall|j: int|
                    0 <= j < i ==> (#[trigger] r@[j])@ == spec_row_value_returning(
                        self@,
                        inserted@.map_values(|v: Value| v@),
                        returned@.map_values(|v: Value| v@),
                        fill@,
                        j,
                    ),
            decreases self.fields.len() - i,
        {
            proof {
                assert(self@.fields.take(i + 1).drop_last() =~= self@.fields.take(i as int));
                assert(self@.fields.take(i + 1).last() == self@.fields[i as int]);
                lemma_idx_insertable_take_le(self@.fields, i + 1);
                lemma_idx_default_take_le(self@.fields, i + 1);
                crate::table::lemma_idx_insertable_len(self@.fields.take(i as int));
                lemma_idx_default_len(self@.fields.take(i as int));
            }
            if self.fields[i].unmapped {
                r.push(fill.clone_value());
            } else if self.fields[i].has_default {
                r.push(returned[def_k].clone_value());
            } else {
                r.push(inserted[ins_k].clone_value());
            }
            if self.fields[i].has_default {
                def_k = def_k + 1;
            } else {
                ins_k = ins_k + 1;
            }
            i = i + 1;
        }
        proof {
            assert(self@.fields.take(self.fields@.len() as int) =~= self@.fields);
        }
        r
    }
}

/// Apply a patch to an in-memory entity: copy each held value onto the
/// entity at its field position, in order. No storage is touched.
pub open spec fn spec_apply_patch(
    row: Seq<ValueView>,
    ps: Seq<int>,
    vs: Seq<ValueView>,
) -> Seq<ValueView>
    recommends
        ps.len() == vs.len(),
    decreases ps.len(),
{
    if ps.len() == 0 {
        row
    } else {
        spec_apply_patch(row, ps.drop_last(), vs.drop_last()).update(ps.last(), vs.last())
    }
}

/// Copy each held patch value onto the entity at its field position.
pub fn apply_patch(entity: &mut Vec<Value>, positions: &Vec<usize>, values: &Vec<Value>)
    requires
        positions@.len() == values@.len(),
        forall|j: int| 0 <= j < positions@.len() ==> #[trigger] positions@[j] < old(entity)@.len(),
    ensures
        final(entity)@.map_values(|v: Value| v@) == spec_apply_patch(
            old(entity)@.map_values(|v: Value| v@),
            positions@.map_values(|u: usize| u as int),
            values@.map_values(|v: Value| v@),
        ),
{
    let ghost row0 = old(entity)@.map_values(|v: Value| v@);
    let ghost ps = positions@.map_values(|u: usize| u as int);
    let ghost vs = values@.map_values(|v: Value| v@);
    let mut j: usize = 0;
    while j < positions.len()
        invariant
            0 <= j <= positions@.len(),
            positions@.len() == values@.len(),
            ps == positions@.map_values(|u: usize| u as int),
            vs == values@.map_values(|v: Value| v@),
            entity@.len() == row0.len(),
            forall|jj: int| 0 <= jj < positions@.len() ==> #[trigger] positions@[jj] < row0.len(),
            entity@.map_values(|v: Value| v@) == spec_apply_patch(
                row0,
                ps.take(j as int),
                vs.take(j as int),
            ),
        decreases positions@.len() - j,
    {
        proof {
            assert(ps.take(j + 1).drop_last() =~= ps.take(j as int));
            assert(vs.take(j + 1).drop_last() =~= vs.take(j as int));
            assert(ps.take(j + 1).last() == ps[j as int]);
            assert(vs.take(j + 1).last() == vs[j as int]);
        }
        let ghost before = entity@;
        entity.set(positions[j], values[j].clone_value());
        proof {
            assert(entity@.map_values(|v: Value| v@) =~= before.map_values(|v: Value| v@).update(
                ps[j as int],
                vs[j as int],
            ));
        }
        j = j + 1;
    }
    proof {
        assert(ps.take(positions@.len() as int) =~= ps);
        assert(vs.take(positions@.len() as int) =~= vs);
    }
}

/// The storage model: one table's rows, keyed by id.
pub open spec fn spec_insert_row(
    m: Map<int, Seq<ValueView>>,
    id: int,
    row: Seq<ValueView>,
) -> Map<int, Seq<ValueView>> {
    m.insert(id, row)
}

pub open spec fn spec_get_row(m: Map<int, Seq<ValueView>>, id: int) -> Option<Seq<ValueView>> {
    if m.contains_key(id) {
        Some(m[id])
    } else {
        None
    }
}

/// A setter's persisted effect: replace one field of the addressed row;
/// a missing row is left untouched.
pub open spec fn spec_set_field(
    m: Map<int, Seq<ValueView>>,
    id: int,
    f: int,
    v: ValueView,
) -> Map<int, Seq<ValueView>> {
    if m.contains_key(id) {
        m.insert(id, m[id].update(f, v))
    } else {
        m
    }
}

/// A delete's effect: the new state, and how many rows were affected.
pub open spec fn spec_delete_row(m: Map<int, Seq<ValueView>>, id: int) -> (
    Map<int, Seq<ValueView>>,
    nat,
) {
    if m.contains_key(id) {
        (m.remove(id), 1)
    } else {
        (m, 0)
    }
}

/// What a generated delete reports from the round trip's affected-row
/// count: zero affected rows is a row-not-found failure, never a silent
/// success.
pub fn delete_outcome(rows_affected: u64) -> (r: Result<(), DbError>)
    ensures
        rows_affected == 0 ==> r == Result::<(), DbError>::Err(DbError::RowNotFound),
        rows_affected != 0 ==> r == Result::<(), DbError>::Ok(()),
{
    if rows_affected == 0 {
        Err(DbError::RowNotFound)
    } else {
        Ok(())
    }
}

/// What a multi-statement insert reports once the insert round trip has
/// succeeded: the generated values when the follow-up fetch returned them,
/// and otherwise a distinguishable failure saying the row is persisted but
/// could not be returned. The two round trips are not atomic as a unit;
/// this failure is surfaced, never hidden.
pub fn follow_up_outcome(fetched: Option<Vec<Value>>) -> (r: Result<Vec<Value>, DbError>)
    ensures
        fetched matches Some(vals) ==> (r matches Ok(out) && out@ == vals@),
        fetched is None ==> r == Result::<Vec<Value>, DbError>::Err(
            DbError::InsertedButNotReturned,
        ),
{
    match fetched {
        Some(vals) => Ok(vals),
        None => Err(DbError::InsertedButNotReturned),
    }
}

/// Calling a setter twice with the same value leaves both the persisted
/// state and the in-memory entity exactly as one call leaves them.
pub proof fn lemma_setter_idempotent(
    m: Map<int, Seq<ValueView>>,
    id: int,
    f: int,
    v: ValueView,
    entity: Seq<ValueView>,
)
    requires
        0 <= f < entity.len(),
        m.contains_key(id) ==> f < m[id].len(),
    ensures
        spec_set_field(spec_set_field(m, id, f, v), id, f, v) == spec_set_field(m, id, f, v),
        entity.update(f, v).update(f, v) == entity.update(f, v),
{
    if m.contains_key(id) {
        let once = spec_set_field(m, id, f, v);
        assert(once[id].update(f, v) =~= m[id].update(f, v));
        assert(spec_set_field(once, id, f, v) =~= once);
    }
    assert(entity.update(f, v).update(f, v) =~= entity.update(f, v));
}

/// An insert followed by a get of the same id returns exactly the inserted
/// row, database-generated defaults included, whatever the table held
/// before.
pub proof fn lemma_insert_get_roundtrip(m: Map<int, Seq<ValueView>>, id: int, row: Seq<ValueView>)
    ensures
        spec_get_row(spec_insert_row(m, id, row), id) == Some(row),
{
}

/// The full round trip of an insert: the entity assembled from the
/// caller's values and the database-generated ones is stored, and a get of
/// its id returns a row that agrees with the caller's values on every
/// insertable field and carries the generated values on every defaulted
/// field.
pub proof fn lemma_insert_roundtrip_populates_defaults(
    m: Map<int, Seq<ValueView>>,
    id: int,
    t: crate::table::TableView,
    idv: ValueView,
    ins: Seq<ValueView>,
    gen: Seq<ValueView>,
    row: Seq<ValueView>,
)
    requires
        t.is_idable(),
        row.len() == t.fields.len(),
        forall|i: int|
            0 <= i < t.fields.len() ==> #[trigger] row[i] == spec_row_value(t, idv, ins, gen, i),
    ensures
        spec_get_row(spec_insert_row(m, id, row), id) matches Some(got) && got.len()
            == t.fields.len() && (forall|i: int|
            0 <= i < t.fields.len() ==> #[trigger] got[i] == spec_row_value(t, idv, ins, gen, i)),
{
    lemma_insert_get_roundtrip(m, id, row);
}

/// Deleting an id the table does not hold affects no row, and the delete
/// therefore reports a row-not-found failure, never success.
pub proof fn lemma_delete_missing_fails(m: Map<int, Seq<ValueView>>, id: int)
    requires
        !m.contains_key(id),
    ensures
        spec_delete_row(m, id).1 == 0,
        spec_delete_row(m, id).0 == m,
{
}

/// Patching the stored row and patching an equal in-memory entity agree:
/// after a successful patch the two cannot diverge.
pub proof fn lemma_patch_consistency(
    m: Map<int, Seq<ValueView>>,
    id: int,
    ps: Seq<int>,
    vs: Seq<ValueView>,
    entity: Seq<ValueView>,
)
    requires
        m.contains_key(id),
        m[id] == entity,
    ensures
        spec_insert_row(m, id, spec_apply_patch(m[id], ps, vs))[id] == spec_apply_patch(
            entity,
            ps,
            vs,
        ),
{
}

} // verus!
