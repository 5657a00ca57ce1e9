use vstd::prelude::*;

use crate::store::{place_at, sub_models, updated_at, ValueStore};
use crate::values::{
    lemma_models_index, lemma_models_len, model, models, ValModel, Value, ValueError,
};

verus! {

/// An addressable handle onto a value location. A temporary owns its value; a
/// wrapper names a store cell and a path of element indices into it, so two
/// wrappers with the same cell and path are aliases of one location.
pub enum Path {
    Owned(Value),
    Wrapper(usize, Vec<usize>),
}

/// The value a path currently refers to, when its location exists.
pub open spec fn path_value(p: Path, store: ValueStore) -> Option<ValModel> {
    match p {
        Path::Owned(v) => Some(model(v)),
        Path::Wrapper(cell, idxs) => if (cell as int) < store.cells@.len() {
            place_at(model(store.cells@[cell as int]), idxs@)
        } else {
            None
        },
    }
}

/// Descending one step commutes with extending the index path by one.
pub proof fn lemma_place_at_push(m: ValModel, path: Seq<usize>, index: usize)
    ensures
        place_at(m, path.push(index)) == (match place_at(m, path) {
            Some(sub) => place_at(sub, seq![index]),
            None => None::<ValModel>,
        }),
    decreases path.len(),
{
    if path.len() == 0 {
        assert(path.push(index) =~= seq![index]);
    } else {
        assert(path.push(index).drop_first() =~= path.drop_first().push(index));
        match sub_models(m) {
            Some(elems) => {
                if (path[0] as int) < elems.len() {
                    lemma_place_at_push(elems[path[0] as int], path.drop_first(), index);
                }
            },
            None => (),
        }
    }
}

impl Path {
    /// Read the value behind the path.
    pub fn as_ref<'a>(&'a self, store: &'a ValueStore) -> (r: Result<&'a Value, ValueError>)
        ensures
            path_value(*self, *store) matches Some(m) ==> (r matches Ok(v) && model(*v) == m),
            path_value(*self, *store) is None ==> r is Err,
    {
        match self {
            Path::Owned(v) => Ok(v),
            Path::Wrapper(cell, idxs) => store.read_place(*cell, idxs),
        }
    }

    /// Read the boolean behind the path.
    pub fn as_bool(&self, store: &ValueStore) -> (r: Result<bool, ValueError>)
        ensures
            path_value(*self, *store) matches Some(m) ==> (m matches ValModel::Bool(b) ==> r
                == Ok::<bool, ValueError>(b)) && (!(m is Bool) ==> r is Err),
            path_value(*self, *store) is None ==> r is Err,
    {
        match self.as_ref(store) {
            Ok(v) => match v.as_bool() {
                Ok(b) => Ok(b),
                Err(e) => Err(e),
            },
            Err(e) => Err(e),
        }
    }

    /// Read the 32-bit number behind the path.
    pub fn as_u32(&self, store: &ValueStore) -> (r: Result<u32, ValueError>)
        ensures
            path_value(*self, *store) matches Some(m) ==> (m matches ValModel::U32(n) ==> r
                == Ok::<u32, ValueError>(n)) && (!(m is U32) ==> r is Err),
            path_value(*self, *store) is None ==> r is Err,
    {
        match self.as_ref(store) {
            Ok(v) => match v.as_u32() {
                Ok(n) => Ok(n),
                Err(e) => Err(e),
            },
            Err(e) => Err(e),
        }
    }

    /// Read the 64-bit number behind the path.
    pub fn as_u64(&self, store: &ValueStore) -> (r: Result<u64, ValueError>)
        ensures
            path_value(*self, *store) matches Some(m) ==> (m matches ValModel::U64(n) ==> r
                == Ok::<u64, ValueError>(n)) && (!(m is U64) ==> r is Err),
            path_value(*self, *store) is None ==> r is Err,
    {
        match self.as_ref(store) {
            Ok(v) => match v.as_u64() {
                Ok(n) => Ok(n),
                Err(e) => Err(e),
            },
            Err(e) => Err(e),
        }
    }

    /// Turn the path into a long-lived alias: an owned value moves into a
    /// fresh store cell and the path becomes a wrapper of that cell; a
    /// wrapper hands out a second handle of the same location.
    pub fn shareable(&mut self, store: &mut ValueStore) -> (r: Path)
        ensures
            (*old(self)) matches Path::Owned(v) ==> ({
                &&& final(store).cells@ == old(store).cells@.push(v)
                &&& *final(self) matches Path::Wrapper(c, p) && c as nat == old(
                    store,
                ).cells@.len() && p@.len() == 0
                &&& r matches Path::Wrapper(c2, p2) && c2 as nat == old(store).cells@.len()
                    && p2@.len() == 0
            }),
            (*old(self)) matches Path::Wrapper(c, p) ==> ({
                &&& *final(store) == *old(store)
                &&& *final(self) == *old(self)
                &&& r matches Path::Wrapper(c2, p2) && c2 == c && p2@ == p@
            }),
    {
        let mut taken = Path::Owned(Value::Null);
        core::mem::swap(self, &mut taken);
        match taken {
            Path::Owned(v) => {
                let cell = store.add_cell(v);
                *self = Path::Wrapper(cell, Vec::new());
                Path::Wrapper(cell, Vec::new())
            },
            Path::Wrapper(cell, idxs) => {
                let copy = copy_indices(&idxs);
                *self = Path::Wrapper(cell, idxs);
                Path::Wrapper(cell, copy)
            },
        }
    }

    /// Descend into the element at the given index of the composite the path
    /// refers to.
    pub fn get_sub_variable(self, index: usize, store: &ValueStore) -> (r: Result<
        Path,
        ValueError,
    >)
        ensures
            path_value(self, *store) matches Some(m) ==> ({
                &&& (place_at(m, seq![index]) matches Some(sub) ==> (r matches Ok(p2)
                    && path_value(p2, *store) == Some(sub)))
                &&& (sub_models(m) matches Some(elems) ==> (index >= elems.len() ==> (r
                    matches Err(e) && e matches ValueError::OutOfBounds(i2, l2) && i2 == index
                    && l2 as nat == elems.len())))
                &&& (sub_models(m) is None ==> r == Err::<Path, ValueError>(ValueError::SubValue))
            }),
            path_value(self, *store) is None ==> r is Err,
    {
        match self {
            Path::Owned(v) => {
                let ghost vm = model(v);
                proof {
                    assert(seq![index].drop_first() =~= Seq::<usize>::empty());
                    assert(seq![index][0] == index);
                }
                match v {
                    Value::Array(mut values) => {
                        proof {
                            lemma_models_len(values@);
                            assert(vm is Array);
                            assert(vm == ValModel::Array(models(values@)));
                            assert(sub_models(vm) == Some(models(values@)));
                        }
                        if index < values.len() {
                            proof {
                                lemma_models_index(values@, index as int);
                                assert(place_at(
                                    models(values@)[index as int],
                                    Seq::<usize>::empty(),
                                ) == Some(models(values@)[index as int]));
                                assert(place_at(vm, seq![index]) == Some(models(values@)[index as int]));
                            }
                            let elem = values.remove(index);
                            proof {
                                assert(path_value(Path::Owned(elem), *store) == place_at(vm, seq![index]));
                            }
                            Ok(Path::Owned(elem))
                        } else {
                            Err(ValueError::OutOfBounds(index, values.len()))
                        }
                    },
                    Value::Struct(mut fields, id) => {
                        proof {
                            lemma_models_len(fields@);
                            assert(vm is Struct);
                            assert(vm == ValModel::Struct(models(fields@), id));
                        }
                        if index < fields.len() {
                            proof {
                                lemma_models_index(fields@, index as int);
                                assert(place_at(
                                    models(fields@)[index as int],
                                    Seq::<usize>::empty(),
                                ) == Some(models(fields@)[index as int]));
                                assert(place_at(vm, seq![index]) == Some(models(fields@)[index as int]));
                            }
                            let elem = fields.remove(index);
                            Ok(Path::Owned(elem))
                        } else {
                            Err(ValueError::OutOfBounds(index, fields.len()))
                        }
                    },
                    _ => Err(ValueError::SubValue),
                }
            },
            Path::Wrapper(cell, mut idxs) => {
                // check that the place exists before extending the path
                let ghost cm = model(store.cells@[cell as int]);
                match store.read_place(cell, &idxs) {
                    Ok(current) => {
                        let ghost m = model(*current);
                        proof {
                            lemma_place_at_push(cm, idxs@, index);
                            assert(seq![index].drop_first() =~= Seq::<usize>::empty());
                            assert(seq![index][0] == index);
                            assert(place_at(cm, idxs@) == Some(m));
                        }
                        match current.as_sub_vec() {
                            Ok(values) => {
                                proof {
                                    lemma_models_len(values@);
                                    assert(m is Array || m is Struct);
                                    assert(sub_models(m) == Some(models(values@)));
                                }
                                if index < values.len() {
                                    proof {
                                        lemma_models_index(values@, index as int);
                                        assert(place_at(
                                            models(values@)[index as int],
                                            Seq::<usize>::empty(),
                                        ) == Some(models(values@)[index as int]));
                                        assert(place_at(m, seq![index]) == Some(
                                            models(values@)[index as int],
                                        ));
                                        assert(place_at(cm, idxs@.push(index)) == Some(
                                            models(values@)[index as int],
                                        ));
                                    }
                                    idxs.push(index);
                                    Ok(Path::Wrapper(cell, idxs))
                                } else {
                                    proof {
                                        assert(place_at(m, seq![index]) is None);
                                    }
                                    Err(ValueError::OutOfBounds(index, values.len()))
                                }
                            },
                            Err(e) => {
                                proof {
                                    assert(sub_models(m) is None);
                                    assert(place_at(m, seq![index]) is None);
                                }
                                Err(e)
                            },
                        }
                    },
                    Err(e) => Err(e),
                }
            },
        }
    }

    /// Materialise the value behind the path as an owned value.
    pub fn into_owned(self, store: &ValueStore) -> (r: Result<Value, ValueError>)
        ensures
            path_value(self, *store) matches Some(m) ==> (r matches Ok(v) && model(v) == m),
            path_value(self, *store) is None ==> r is Err,
    {
        match self {
            Path::Owned(v) => Ok(v),
            Path::Wrapper(cell, idxs) => match store.read_place(cell, &idxs) {
                Ok(v) => Ok(v.duplicate()),
                Err(e) => Err(e),
            },
        }
    }

    /// Write a value at the location the path refers to. A write through a
    /// wrapper lands in the store, where every alias of the location sees it.
    pub fn write(&mut self, store: &mut ValueStore, newv: Value) -> (r: Result<(), ValueError>)
        ensures
            (*old(self)) matches Path::Owned(_) ==> (r is Ok && *final(store) == *old(store)
                && *final(self) == Path::Owned(newv)),
            (*old(self)) matches Path::Wrapper(cell, idxs) ==> ({
                let cells = old(store).cells@;
                &&& *final(self) == *old(self)
                &&& (cell < cells.len() ==> (updated_at(
                    model(cells[cell as int]),
                    idxs@,
                    model(newv),
                ) matches Some(u) ==> (r is Ok && final(store).cells@.len() == cells.len()
                    && model(final(store).cells@[cell as int]) == u && (forall|j: int|
                    0 <= j < cells.len() && j != cell ==> final(store).cells@[j] == cells[j]))))
                &&& (cell < cells.len() && updated_at(
                    model(cells[cell as int]),
                    idxs@,
                    model(newv),
                ) is None ==> (r is Err && final(store).cells@ == cells))
                &&& (cell >= cells.len() ==> (r is Err && final(store).cells@ == cells))
            }),
    {
        let mut taken = Path::Owned(Value::Null);
        core::mem::swap(self, &mut taken);
        match taken {
            Path::Owned(_) => {
                *self = Path::Owned(newv);
                Ok(())
            },
            Path::Wrapper(cell, idxs) => {
                let result = store.write_place(cell, &idxs, newv);
                *self = Path::Wrapper(cell, idxs);
                result
            },
        }
    }
}

/// Copy a vector of element indices.
fn copy_indices(v: &Vec<usize>) -> (r: Vec<usize>)
    ensures
        r@ == v@,
{
    let mut out: Vec<usize> = Vec::new();
    let mut i: usize = 0;
    while i < v.len()
        invariant
            i <= v@.len(),
            out@ =~= v@.take(i as int),
        decreases v@.len() - i,
    {
        out.push(v[i]);
        i = i + 1;
    }
    proof {
        assert(out@ =~= v@);
    }
    out
}



} // verus!
