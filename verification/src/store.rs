use vstd::prelude::*;

use crate::values::{
    lemma_models_index, lemma_models_len, model, models, ValModel, Value, ValueError,
};

verus! {

/// The per-invocation store of value cells. A variable always names a cell;
/// binding one variable to another hands out the same cell number, so a write
/// through either lands in the one underlying value.
pub struct ValueStore {
    pub cells: Vec<Value>,
}

/// The elements a path can descend into: array elements or struct fields.
pub open spec fn sub_models(m: ValModel) -> Option<Seq<ValModel>> {
    match m {
        ValModel::Array(elems) => Some(elems),
        ValModel::Struct(elems, _) => Some(elems),
        _ => None,
    }
}

/// The sub-value reached from a value by a path of element indices.
pub open spec fn place_at(m: ValModel, path: Seq<usize>) -> Option<ValModel>
    decreases path.len(),
{
    if path.len() == 0 {
        Some(m)
    } else {
        match sub_models(m) {
            Some(elems) => if (path[0] as int) < elems.len() {
                place_at(elems[path[0] as int], path.drop_first())
            } else {
                None
            },
            None => None,
        }
    }
}

/// The value after writing `newm` at the place the path reaches, when that
/// place exists.
pub open spec fn updated_at(m: ValModel, path: Seq<usize>, newm: ValModel) -> Option<ValModel>
    decreases path.len(),
{
    if path.len() == 0 {
        Some(newm)
    } else {
        let i = path[0] as int;
        match m {
            ValModel::Array(elems) => if i < elems.len() {
                match updated_at(elems[i], path.drop_first(), newm) {
                    Some(u) => Some(ValModel::Array(elems.update(i, u))),
                    None => None,
                }
            } else {
                None
            },
            ValModel::Struct(elems, id) => if i < elems.len() {
                match updated_at(elems[i], path.drop_first(), newm) {
                    Some(u) => Some(ValModel::Struct(elems.update(i, u), id)),
                    None => None,
                }
            } else {
                None
            },
            _ => None,
        }
    }
}

/// A write lands where a read then finds it: reading back along the path of
/// an update returns the written value. This is the storage half of alias
/// correctness; the other half is that aliased handles hold the same cell
/// number and path, so they read the same place.
pub proof fn lemma_read_after_update(m: ValModel, path: Seq<usize>, newm: ValModel, u: ValModel)
    requires
        updated_at(m, path, newm) == Some(u),
    ensures
        place_at(u, path) == Some(newm),
    decreases path.len(),
{
    if path.len() > 0 {
        let i = path[0] as int;
        match m {
            ValModel::Array(elems) => {
                let inner = updated_at(elems[i], path.drop_first(), newm);
                lemma_read_after_update(elems[i], path.drop_first(), newm, inner.unwrap());
            },
            ValModel::Struct(elems, _) => {
                let inner = updated_at(elems[i], path.drop_first(), newm);
                lemma_read_after_update(elems[i], path.drop_first(), newm, inner.unwrap());
            },
            _ => (),
        }
    }
}

/// A place that can be read can be written: wherever the path reaches a
/// sub-value, an update along it exists.
pub proof fn lemma_updated_at_defined(m: ValModel, path: Seq<usize>, newm: ValModel)
    requires
        place_at(m, path) is Some,
    ensures
        updated_at(m, path, newm) is Some,
    decreases path.len(),
{
    if path.len() > 0 {
        match m {
            ValModel::Array(elems) => {
                lemma_updated_at_defined(elems[path[0] as int], path.drop_first(), newm);
            },
            ValModel::Struct(elems, _) => {
                lemma_updated_at_defined(elems[path[0] as int], path.drop_first(), newm);
            },
            _ => (),
        }
    }
}

/// A write changes nothing off its path: reading at a place that diverges
/// from the written path (at an index where the two differ) returns what was
/// there before.
pub proof fn lemma_read_elsewhere_after_update(
    m: ValModel,
    wpath: Seq<usize>,
    rpath: Seq<usize>,
    newm: ValModel,
    u: ValModel,
    k: int,
)
    requires
        updated_at(m, wpath, newm) == Some(u),
        0 <= k < wpath.len(),
        0 <= k < rpath.len(),
        forall|j: int| 0 <= j < k ==> wpath[j] == rpath[j],
        wpath[k] != rpath[k],
    ensures
        place_at(u, rpath) == place_at(m, rpath),
    decreases k,
{
    let i = wpath[0] as int;
    let ri = rpath[0] as int;
    match m {
        ValModel::Array(elems) => {
            let inner = updated_at(elems[i], wpath.drop_first(), newm);
            if k == 0 {
                assert(place_at(u, rpath) == place_at(m, rpath));
            } else {
                lemma_read_elsewhere_after_update(
                    elems[i],
                    wpath.drop_first(),
                    rpath.drop_first(),
                    newm,
                    inner.unwrap(),
                    k - 1,
                );
            }
        },
        ValModel::Struct(elems, _) => {
            let inner = updated_at(elems[i], wpath.drop_first(), newm);
            if k == 0 {
                assert(place_at(u, rpath) == place_at(m, rpath));
            } else {
                lemma_read_elsewhere_after_update(
                    elems[i],
                    wpath.drop_first(),
                    rpath.drop_first(),
                    newm,
                    inner.unwrap(),
                    k - 1,
                );
            }
        },
        _ => (),
    }
}

/// Read the sub-value of a value along a path, starting at the given depth.
fn read_in<'a>(v: &'a Value, path: &Vec<usize>, depth: usize) -> (r: Result<&'a Value, ValueError>)
    requires
        depth <= path@.len(),
    ensures
        place_at(model(*v), path@.skip(depth as int)) matches Some(m) ==> (r matches Ok(sub)
            && model(*sub) == m),
        place_at(model(*v), path@.skip(depth as int)) is None ==> r is Err,
    decreases path@.len() - depth,
{
    if depth == path.len() {
        proof {
            assert(path@.skip(depth as int) =~= Seq::<usize>::empty());
        }
        Ok(v)
    } else {
        let i = path[depth];
        proof {
            assert(path@.skip(depth as int).drop_first() =~= path@.skip(depth as int + 1));
            assert(path@.skip(depth as int)[0] == path@[depth as int]);
        }
        match v {
            Value::Array(values) => {
                proof {
                    lemma_models_len(values@);
                }
                if i < values.len() {
                    proof {
                        lemma_models_index(values@, i as int);
                    }
                    read_in(&values[i], path, depth + 1)
                } else {
                    Err(ValueError::OutOfBounds(i, values.len()))
                }
            },
            Value::Struct(fields, _) => {
                proof {
                    lemma_models_len(fields@);
                }
                if i < fields.len() {
                    proof {
                        lemma_models_index(fields@, i as int);
                    }
                    read_in(&fields[i], path, depth + 1)
                } else {
                    Err(ValueError::OutOfBounds(i, fields.len()))
                }
            },
            _ => Err(ValueError::SubValue),
        }
    }
}

/// Replace the sub-value of a value along a path, starting at the given
/// depth; the rest of the value is kept.
fn update_in(v: Value, path: &Vec<usize>, depth: usize, newv: Value) -> (r: Result<
    Value,
    ValueError,
>)
    requires
        depth <= path@.len(),
    ensures
        updated_at(model(v), path@.skip(depth as int), model(newv)) matches Some(u) ==> (r
            matches Ok(res) && model(res) == u),
        updated_at(model(v), path@.skip(depth as int), model(newv)) is None ==> r is Err,
    decreases path@.len() - depth,
{
    if depth == path.len() {
        proof {
            assert(path@.skip(depth as int) =~= Seq::<usize>::empty());
        }
        Ok(newv)
    } else {
        let i = path[depth];
        proof {
            assert(path@.skip(depth as int).drop_first() =~= path@.skip(depth as int + 1));
            assert(path@.skip(depth as int)[0] == path@[depth as int]);
        }
        match v {
            Value::Array(mut values) => {
                proof {
                    lemma_models_len(values@);
                }
                if i < values.len() {
                    let ghost before = values@;
                    proof {
                        lemma_models_index(before, i as int);
                    }
                    let elem = values.remove(i);
                    match update_in(elem, path, depth + 1, newv) {
                        Ok(updated) => {
                            values.insert(i, updated);
                            proof {
                                lemma_update_models(before, values@, i as int);
                            }
                            Ok(Value::Array(values))
                        },
                        Err(e) => Err(e),
                    }
                } else {
                    Err(ValueError::OutOfBounds(i, values.len()))
                }
            },
            Value::Struct(mut fields, id) => {
                proof {
                    lemma_models_len(fields@);
                }
                if i < fields.len() {
                    let ghost before = fields@;
                    proof {
                        lemma_models_index(before, i as int);
                    }
                    let elem = fields.remove(i);
                    match update_in(elem, path, depth + 1, newv) {
                        Ok(updated) => {
                            fields.insert(i, updated);
                            proof {
                                lemma_update_models(before, fields@, i as int);
                            }
                            Ok(Value::Struct(fields, id))
                        },
                        Err(e) => Err(e),
                    }
                } else {
                    Err(ValueError::OutOfBounds(i, fields.len()))
                }
            },
            _ => Err(ValueError::SubValue),
        }
    }
}

/// Removing and re-inserting an element updates the model sequence at its
/// position and nowhere else.
proof fn lemma_update_models(before: Seq<Value>, after: Seq<Value>, i: int)
    requires
        0 <= i < before.len(),
        after =~= before.remove(i).insert(i, after[i]),
    ensures
        models(after) =~= models(before).update(i, model(after[i])),
{
    lemma_models_len(before);
    lemma_models_len(after);
    assert forall|j: int| 0 <= j < after.len() implies models(after)[j] == models(before).update(
        i,
        model(after[i]),
    )[j] by {
        lemma_models_index(after, j);
        lemma_models_index(before, j);
        if j != i {
            assert(after[j] == before[j]);
        }
    }
}

impl ValueStore {
    /// An empty store.
    pub fn new() -> (r: ValueStore)
        ensures
            r.cells@.len() == 0,
    {
        ValueStore { cells: Vec::new() }
    }

    /// Put a value in a fresh cell and hand its number out.
    pub fn add_cell(&mut self, v: Value) -> (r: usize)
        ensures
            final(self).cells@ == old(self).cells@.push(v),
            r == old(self).cells@.len(),
    {
        let index = self.cells.len();
        self.cells.push(v);
        index
    }

    /// Read the sub-value of a cell along a path of element indices.
    pub fn read_place(&self, cell: usize, path: &Vec<usize>) -> (r: Result<&Value, ValueError>)
        ensures
            cell < self.cells@.len() ==> (place_at(model(self.cells@[cell as int]), path@)
                matches Some(m) ==> (r matches Ok(sub) && model(*sub) == m)),
            cell < self.cells@.len() && place_at(model(self.cells@[cell as int]), path@) is None
                ==> r is Err,
            cell >= self.cells@.len() ==> r == Err::<&Value, ValueError>(
                ValueError::OutOfBounds(cell, self.cells@.len() as usize),
            ),
    {
        if cell >= self.cells.len() {
            return Err(ValueError::OutOfBounds(cell, self.cells.len()));
        }
        proof {
            assert(path@.skip(0) =~= path@);
        }
        read_in(&self.cells[cell], path, 0)
    }

    /// Write a value at the sub-place of a cell. On success the cell holds
    /// the updated value and every other cell is untouched; on failure the
    /// store is unchanged.
    pub fn write_place(&mut self, cell: usize, path: &Vec<usize>, newv: Value) -> (r: Result<
        (),
        ValueError,
    >)
        ensures
            ({
                let cells = old(self).cells@;
                &&& (cell < cells.len() ==> (updated_at(
                    model(cells[cell as int]),
                    path@,
                    model(newv),
                ) matches Some(u) ==> (r is Ok && final(self).cells@.len() == cells.len()
                    && model(final(self).cells@[cell as int]) == u && (forall|j: int|
                    0 <= j < cells.len() && j != cell ==> final(self).cells@[j] == cells[j]))))
                &&& (cell < cells.len() && updated_at(
                    model(cells[cell as int]),
                    path@,
                    model(newv),
                ) is None ==> (r is Err && final(self).cells@ == cells))
                &&& (cell >= cells.len() ==> (r == Err::<(), ValueError>(
                    ValueError::OutOfBounds(cell, cells.len() as usize),
                ) && final(self).cells@ == cells))
            }),
    {
        if cell >= self.cells.len() {
            return Err(ValueError::OutOfBounds(cell, self.cells.len()));
        }
        proof {
            assert(path@.skip(0) =~= path@);
        }
        let current = self.cells[cell].duplicate();
        match update_in(current, path, 0, newv) {
            Ok(updated) => {
                let slot = &mut self.cells[cell];
                *slot = updated;
                Ok(())
            },
            Err(e) => Err(e),
        }
    }
}

} // verus!
