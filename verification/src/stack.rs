use vstd::prelude::*;

use crate::interpreter::InterpreterError;
use crate::path::{path_value, Path};
use crate::store::place_at;
use crate::values::model;
use crate::store::ValueStore;

verus! {

/// One variable binding: a variable identifier and the path it names.
pub struct VarEntry {
    pub id: u16,
    pub path: Path,
}

/// A scope is a mapping from variable identifiers to paths, kept as the
/// sequence of bindings in registration order; a later binding of an
/// identifier shadows an earlier one.
pub type Scope = Vec<VarEntry>;

/// The mapping a scope represents: the last binding of each identifier wins.
pub open spec fn scope_map(s: Seq<VarEntry>) -> Map<u16, Path>
    decreases s.len(),
{
    if s.len() == 0 {
        Map::empty()
    } else {
        scope_map(s.drop_last()).insert(s.last().id, s.last().path)
    }
}

/// The binding an identifier has among the first `n` scopes, youngest first.
pub open spec fn lookup_prefix(scopes: Seq<Scope>, n: int, id: u16) -> Option<Path>
    decreases n,
{
    if n <= 0 {
        None
    } else if scope_map(scopes[n - 1]@).dom().contains(id) {
        Some(scope_map(scopes[n - 1]@)[id])
    } else {
        lookup_prefix(scopes, n - 1, id)
    }
}

/// The binding an identifier has in a stack of scopes: the youngest scope
/// that knows the identifier answers.
pub open spec fn lookup_scopes(scopes: Seq<Scope>, id: u16) -> Option<Path> {
    lookup_prefix(scopes, scopes.len() as int, id)
}

/// Two scope stacks that agree on their first `n` scopes answer alike.
pub proof fn lemma_lookup_prefix_agree(a: Seq<Scope>, b: Seq<Scope>, n: int, id: u16)
    requires
        forall|k: int| 0 <= k < n ==> a[k] == b[k],
    ensures
        lookup_prefix(a, n, id) == lookup_prefix(b, n, id),
    decreases n,
{
    if n > 0 {
        lemma_lookup_prefix_agree(a, b, n - 1, id);
    }
}

/// A scope whose entries never carry the identifier maps nothing to it.
pub proof fn lemma_scope_map_absent(s: Seq<VarEntry>, id: u16)
    requires
        forall|k: int| 0 <= k < s.len() ==> (#[trigger] s[k]).id != id,
    ensures
        !scope_map(s).dom().contains(id),
    decreases s.len(),
{
    if s.len() > 0 {
        lemma_scope_map_absent(s.drop_last(), id);
    }
}

/// The last entry of an identifier in a scope decides its binding.
pub proof fn lemma_scope_map_last(s: Seq<VarEntry>, j: int, id: u16)
    requires
        0 <= j < s.len(),
        s[j].id == id,
        forall|k: int| j < k < s.len() ==> (#[trigger] s[k]).id != id,
    ensures
        scope_map(s).dom().contains(id),
        scope_map(s)[id] == s[j].path,
    decreases s.len(),
{
    if j == s.len() - 1 {
    } else {
        lemma_scope_map_last(s.drop_last(), j, id);
    }
}

/// Rebinding the last entry of an identifier replaces its binding and keeps
/// every other identifier's binding.
pub proof fn lemma_scope_map_update(s: Seq<VarEntry>, j: int, id: u16, p: Path)
    requires
        0 <= j < s.len(),
        s[j].id == id,
        forall|k: int| j < k < s.len() ==> (#[trigger] s[k]).id != id,
    ensures
        scope_map(s.update(j, VarEntry { id, path: p })) =~= scope_map(s).insert(id, p),
    decreases s.len(),
{
    let s2 = s.update(j, VarEntry { id, path: p });
    if j == s.len() - 1 {
        assert(s2.drop_last() =~= s.drop_last());
        assert(scope_map(s2) == scope_map(s.drop_last()).insert(id, p));
        assert(scope_map(s.drop_last()).insert(s.last().id, s.last().path).insert(id, p)
            =~= scope_map(s.drop_last()).insert(id, p));
    } else {
        assert(s2.drop_last() =~= s.drop_last().update(j, VarEntry { id, path: p }));
        lemma_scope_map_update(s.drop_last(), j, id, p);
        assert(s2.last() == s.last());
        assert(scope_map(s.drop_last()).insert(id, p).insert(s.last().id, s.last().path)
            =~= scope_map(s.drop_last()).insert(s.last().id, s.last().path).insert(id, p));
    }
}

/// The per-invocation context of the evaluator: a stack of scopes together
/// with the flags loops use to signal a break or a continue.
pub struct Stack {
    pub scopes: Vec<Scope>,
    pub loop_break: bool,
    pub loop_continue: bool,
}

impl Stack {
    /// Create a stack with no scope.
    pub fn new() -> (r: Stack)
        ensures
            r.scopes@.len() == 0,
            !r.loop_break,
            !r.loop_continue,
    {
        Stack { scopes: Vec::new(), loop_break: false, loop_continue: false }
    }

    /// Open a new scope.
    pub fn begin_scope(&mut self)
        ensures
            final(self).scopes@.len() == old(self).scopes@.len() + 1,
            forall|j: int|
                0 <= j < old(self).scopes@.len() ==> final(self).scopes@[j] == old(self).scopes@[j],
            final(self).scopes@.last()@.len() == 0,
            final(self).loop_break == old(self).loop_break,
            final(self).loop_continue == old(self).loop_continue,
    {
        self.scopes.push(Vec::new());
    }

    /// Close the youngest scope.
    pub fn end_scope(&mut self) -> (r: Result<(), InterpreterError>)
        ensures
            old(self).scopes@.len() > 0 ==> (r is Ok && final(self).scopes@ == old(
                self,
            ).scopes@.drop_last()),
            old(self).scopes@.len() == 0 ==> (r == Err::<(), InterpreterError>(
                InterpreterError::NoScopeFound,
            ) && *final(self) == *old(self)),
            final(self).loop_break == old(self).loop_break,
            final(self).loop_continue == old(self).loop_continue,
    {
        if self.scopes.len() == 0 {
            return Err(InterpreterError::NoScopeFound);
        }
        let ghost pre = self.scopes@;
        let _ = self.scopes.pop();
        proof {
            assert(self.scopes@ =~= pre.drop_last());
        }
        Ok(())
    }

    /// Empty the youngest scope without closing it.
    pub fn clear_last_scope(&mut self) -> (r: Result<(), InterpreterError>)
        ensures
            old(self).scopes@.len() > 0 ==> (r is Ok && final(self).scopes@.len() == old(
                self,
            ).scopes@.len() && final(self).scopes@.last()@.len() == 0 && (forall|j: int|
                0 <= j < old(self).scopes@.len() - 1 ==> final(self).scopes@[j] == old(
                    self,
                ).scopes@[j])),
            old(self).scopes@.len() == 0 ==> (r == Err::<(), InterpreterError>(
                InterpreterError::NoScopeFound,
            ) && *final(self) == *old(self)),
            final(self).loop_break == old(self).loop_break,
            final(self).loop_continue == old(self).loop_continue,
    {
        let n = self.scopes.len();
        if n == 0 {
            return Err(InterpreterError::NoScopeFound);
        }
        let scope = &mut self.scopes[n - 1];
        scope.clear();
        Ok(())
    }

    /// Register a variable in the youngest scope. Whether the identifier is
    /// already bound is not checked here; a later binding shadows an earlier
    /// one.
    pub fn register_variable(&mut self, id: u16, path: Path) -> (r: Result<(), InterpreterError>)
        ensures
            old(self).scopes@.len() > 0 ==> ({
                &&& r is Ok
                &&& final(self).scopes@.len() == old(self).scopes@.len()
                &&& (forall|j: int|
                    0 <= j < old(self).scopes@.len() - 1 ==> final(self).scopes@[j] == old(
                        self,
                    ).scopes@[j])
                &&& final(self).scopes@.last()@ == old(self).scopes@.last()@.push(
                    VarEntry { id, path },
                )
                &&& scope_map(final(self).scopes@.last()@) =~= scope_map(
                    old(self).scopes@.last()@,
                ).insert(id, path)
                &&& lookup_scopes(final(self).scopes@, id) == Some(path)
            }),
            old(self).scopes@.len() == 0 ==> (r == Err::<(), InterpreterError>(
                InterpreterError::NoScopeFound,
            ) && *final(self) == *old(self)),
            final(self).loop_break == old(self).loop_break,
            final(self).loop_continue == old(self).loop_continue,
    {
        let n = self.scopes.len();
        if n == 0 {
            return Err(InterpreterError::NoScopeFound);
        }
        let ghost pre = self.scopes@;
        let ghost entry = VarEntry { id, path };
        let scope = &mut self.scopes[n - 1];
        scope.push(VarEntry { id, path });
        proof {
            let news = self.scopes@.last()@;
            assert(news == pre.last()@.push(entry));
            assert(news.drop_last() =~= pre.last()@);
            assert(news.last() == entry);
            assert(scope_map(news) == scope_map(pre.last()@).insert(id, path));
            assert(lookup_prefix(self.scopes@, self.scopes@.len() as int, id) == Some(path));
        }
        Ok(())
    }

    /// Look a variable up, youngest scope first.
    pub fn get_variable(&self, id: u16) -> (r: Result<&Path, InterpreterError>)
        ensures
            lookup_scopes(self.scopes@, id) matches Some(p) ==> (r matches Ok(found) && *found
                == p),
            lookup_scopes(self.scopes@, id) is None ==> r == Err::<&Path, InterpreterError>(
                InterpreterError::VariableNotFound(id),
            ),
    {
        let mut i = self.scopes.len();
        while i > 0
            invariant
                i <= self.scopes@.len(),
                lookup_scopes(self.scopes@, id) == lookup_prefix(self.scopes@, i as int, id),
            decreases i,
        {
            i = i - 1;
            let scope = &self.scopes[i];
            let mut j = scope.len();
            while j > 0
                invariant
                    i < self.scopes@.len(),
                    scope@ == self.scopes@[i as int]@,
                    lookup_scopes(self.scopes@, id) == lookup_prefix(
                        self.scopes@,
                        i as int + 1,
                        id,
                    ),
                    j <= scope@.len(),
                    forall|k: int| j <= k < scope@.len() ==> (#[trigger] scope@[k]).id != id,
                decreases j,
            {
                j = j - 1;
                if scope[j].id == id {
                    proof {
                        lemma_scope_map_last(scope@, j as int, id);
                        assert(scope@ == self.scopes@[i as int]@);
                        assert(scope_map(self.scopes@[i as int]@).dom().contains(id));
                        assert(lookup_prefix(self.scopes@, i as int + 1, id) == Some(
                            scope_map(self.scopes@[i as int]@)[id],
                        ));
                    }
                    return Ok(&scope[j].path);
                }
            }
            proof {
                lemma_scope_map_absent(scope@, id);
                assert(lookup_prefix(self.scopes@, i as int + 1, id) == lookup_prefix(
                    self.scopes@,
                    i as int,
                    id,
                ));
            }
        }
        Err(InterpreterError::VariableNotFound(id))
    }

    /// Check whether a variable is bound.
    pub fn has_variable(&self, id: &u16) -> (r: bool)
        ensures
            r == (lookup_scopes(self.scopes@, *id) is Some),
    {
        match self.get_variable(*id) {
            Ok(_) => true,
            Err(_) => false,
        }
    }

    /// Remove the youngest binding of a variable and hand its path back.
    pub fn remove_variable(&mut self, id: u16) -> (r: Result<Path, InterpreterError>)
        ensures
            lookup_scopes(old(self).scopes@, id) is None ==> (r == Err::<Path, InterpreterError>(
                InterpreterError::VariableNotFound(id),
            ) && final(self).scopes@ == old(self).scopes@),
            lookup_scopes(old(self).scopes@, id) matches Some(p) ==> (r matches Ok(found) && found
                == p && final(self).scopes@.len() == old(self).scopes@.len()),
            final(self).loop_break == old(self).loop_break,
            final(self).loop_continue == old(self).loop_continue,
    {
        let ghost orig = self.scopes@;
        let ghost lb0 = self.loop_break;
        let ghost lc0 = self.loop_continue;
        let mut i = self.scopes.len();
        while i > 0
            invariant
                i <= self.scopes@.len(),
                self.scopes@ == orig,
                old(self).scopes@ == orig,
                old(self).loop_break == lb0,
                old(self).loop_continue == lc0,
                self.loop_break == lb0,
                self.loop_continue == lc0,
                lookup_scopes(orig, id) == lookup_prefix(orig, i as int, id),
            decreases i,
        {
            i = i - 1;
            let scope_len = self.scopes[i].len();
            let mut j = scope_len;
            while j > 0
                invariant
                    i < self.scopes@.len(),
                    self.scopes@ == orig,
                    old(self).scopes@ == orig,
                    old(self).loop_break == lb0,
                    old(self).loop_continue == lc0,
                    self.loop_break == lb0,
                    self.loop_continue == lc0,
                    lookup_scopes(orig, id) == lookup_prefix(orig, i as int + 1, id),
                    j <= self.scopes@[i as int]@.len(),
                    forall|k: int|
                        j <= k < self.scopes@[i as int]@.len() ==> (#[trigger] (self.scopes@[i as int]@[k])).id != id,
                decreases j,
            {
                j = j - 1;
                if self.scopes[i][j].id == id {
                    proof {
                        lemma_scope_map_last(orig[i as int]@, j as int, id);
                        assert(lookup_prefix(orig, i as int + 1, id) == Some(
                            scope_map(orig[i as int]@)[id],
                        ));
                    }
                    let scope = &mut self.scopes[i];
                    let entry = scope.remove(j);
                    proof {
                        assert(self.scopes@.len() == orig.len());
                    }
                    return Ok(entry.path);
                }
            }
            proof {
                lemma_scope_map_absent(self.scopes@[i as int]@, id);
                assert(lookup_prefix(orig, i as int + 1, id) == lookup_prefix(
                    orig,
                    i as int,
                    id,
                ));
            }
        }
        Err(InterpreterError::VariableNotFound(id))
    }

    /// Hand out an aliasing handle for a variable. An owned binding first
    /// moves into a store cell, so that the stored binding and the returned
    /// path are two handles of one location.
    pub fn get_variable_path(&mut self, store: &mut ValueStore, id: u16) -> (r: Result<
        Path,
        InterpreterError,
    >)
        ensures
            lookup_scopes(old(self).scopes@, id) is None ==> (r == Err::<Path, InterpreterError>(
                InterpreterError::VariableNotFound(id),
            ) && final(self).scopes@ == old(self).scopes@ && final(store).cells@ == old(
                store,
            ).cells@),
            lookup_scopes(old(self).scopes@, id) matches Some(p) ==> ({
                &&& r is Ok
                &&& final(self).scopes@.len() == old(self).scopes@.len()
                &&& old(store).cells@.len() <= final(store).cells@.len()
                &&& (forall|j: int|
                    0 <= j < old(store).cells@.len() ==> final(store).cells@[j] == old(
                        store,
                    ).cells@[j])
                &&& (lookup_scopes(final(self).scopes@, id) matches Some(stored) && stored
                    matches Path::Wrapper(c, q) && (r matches Ok(handed) && handed
                    matches Path::Wrapper(c2, q2) && c2 == c && q2@ == q@) && path_value(
                    stored,
                    *final(store),
                ) == path_value(p, *old(store)))
                &&& (forall|id2: u16|
                    id2 != id ==> lookup_scopes(final(self).scopes@, id2) == lookup_scopes(
                        old(self).scopes@,
                        id2,
                    ))
            }),
            final(self).loop_break == old(self).loop_break,
            final(self).loop_continue == old(self).loop_continue,
    {
        let ghost orig = self.scopes@;
        let ghost cells0 = store.cells@;
        let ghost lb0 = self.loop_break;
        let ghost lc0 = self.loop_continue;
        let mut i = self.scopes.len();
        while i > 0
            invariant
                i <= self.scopes@.len(),
                self.scopes@ == orig,
                old(self).scopes@ == orig,
                old(store).cells@ == cells0,
                old(self).loop_break == lb0,
                old(self).loop_continue == lc0,
                self.loop_break == lb0,
                self.loop_continue == lc0,
                store.cells@ == cells0,
                lookup_scopes(orig, id) == lookup_prefix(orig, i as int, id),
                forall|k: int|
                    i <= k < orig.len() ==> !scope_map(
                        (#[trigger] orig[k])@,
                    ).dom().contains(id),
            decreases i,
        {
            i = i - 1;
            let scope_len = self.scopes[i].len();
            let mut j = scope_len;
            while j > 0
                invariant
                    i < self.scopes@.len(),
                    self.scopes@ == orig,
                    old(self).scopes@ == orig,
                    old(store).cells@ == cells0,
                    old(self).loop_break == lb0,
                    old(self).loop_continue == lc0,
                    self.loop_break == lb0,
                    self.loop_continue == lc0,
                    store.cells@ == cells0,
                    lookup_scopes(orig, id) == lookup_prefix(orig, i as int + 1, id),
                    forall|k: int|
                        i < k < orig.len() ==> !scope_map(
                            (#[trigger] orig[k])@,
                        ).dom().contains(id),
                    j <= self.scopes@[i as int]@.len(),
                    forall|k: int|
                        j <= k < self.scopes@[i as int]@.len() ==> (#[trigger] (self.scopes@[i as int]@[k])).id != id,
                decreases j,
            {
                j = j - 1;
                if self.scopes[i][j].id == id {
                    proof {
                        lemma_scope_map_last(orig[i as int]@, j as int, id);
                        assert(lookup_prefix(orig, i as int + 1, id) == Some(
                            scope_map(orig[i as int]@)[id],
                        ));
                    }
                    let ghost oldpath = self.scopes@[i as int]@[j as int].path;
                    let handed = self.scopes[i][j].path.shareable(store);
                    proof {
                        let news = self.scopes@[i as int]@;
                        let newpath = news[j as int].path;
                        assert(news =~= orig[i as int]@.update(
                            j as int,
                            VarEntry { id, path: newpath },
                        ));
                        lemma_scope_map_update(orig[i as int]@, j as int, id, newpath);
                        assert(forall|k: int|
                            0 <= k < orig.len() && k != i ==> self.scopes@[k] == orig[k]);
                        lemma_lookup_scopes_update(orig, self.scopes@, i as int, id, newpath);
                        match oldpath {
                            Path::Owned(v) => {
                                assert(newpath matches Path::Wrapper(c, q) && c as nat
                                    == cells0.len() && q@.len() == 0);
                                match newpath {
                                    Path::Wrapper(c, q) => {
                                        assert(q@ =~= Seq::<usize>::empty());
                                        assert(store.cells@[c as int] == v);
                                        assert(place_at(model(v), q@) == Some(model(v)));
                                    },
                                    Path::Owned(_) => (),
                                }
                            },
                            Path::Wrapper(c, q) => {
                                assert(store.cells@ == cells0);
                            },
                        }
                    }
                    return Ok(handed);
                }
            }
            proof {
                lemma_scope_map_absent(self.scopes@[i as int]@, id);
                assert(lookup_prefix(orig, i as int + 1, id) == lookup_prefix(
                    orig,
                    i as int,
                    id,
                ));
            }
        }
        Err(InterpreterError::VariableNotFound(id))
    }

    /// Get the loop break flag.
    pub fn get_loop_break(&self) -> (r: bool)
        ensures
            r == self.loop_break,
    {
        self.loop_break
    }

    /// Set the loop break flag.
    pub fn set_loop_break(&mut self, value: bool)
        ensures
            *final(self) == (Stack { loop_break: value, ..*old(self) }),
    {
        self.loop_break = value;
    }

    /// Get the loop continue flag.
    pub fn get_loop_continue(&self) -> (r: bool)
        ensures
            r == self.loop_continue,
    {
        self.loop_continue
    }

    /// Set the loop continue flag.
    pub fn set_loop_continue(&mut self, value: bool)
        ensures
            *final(self) == (Stack { loop_continue: value, ..*old(self) }),
    {
        self.loop_continue = value;
    }
}

/// Rebinding an identifier in the youngest scope that knows it changes the
/// stack's answer for that identifier and nothing else.
pub proof fn lemma_lookup_scopes_update(
    orig: Seq<Scope>,
    news: Seq<Scope>,
    i: int,
    id: u16,
    p: Path,
)
    requires
        0 <= i < orig.len(),
        news.len() == orig.len(),
        forall|k: int| 0 <= k < orig.len() && k != i ==> news[k] == orig[k],
        scope_map(news[i]@) =~= scope_map(orig[i]@).insert(id, p),
        scope_map(orig[i]@).dom().contains(id),
        forall|k: int| i < k < orig.len() ==> !scope_map((#[trigger] orig[k])@).dom().contains(id),
    ensures
        lookup_scopes(news, id) == Some(p),
        forall|id2: u16| id2 != id ==> lookup_scopes(news, id2) == lookup_scopes(orig, id2),
{
    lemma_lookup_prefix_update(orig, news, i, orig.len() as int, id, p);
    assert forall|id2: u16| id2 != id implies lookup_scopes(news, id2) == lookup_scopes(
        orig,
        id2,
    ) by {
        lemma_lookup_prefix_other(orig, news, i, orig.len() as int, id, id2, p);
    }
}

proof fn lemma_lookup_prefix_update(
    orig: Seq<Scope>,
    news: Seq<Scope>,
    i: int,
    n: int,
    id: u16,
    p: Path,
)
    requires
        0 <= i < n <= orig.len(),
        news.len() == orig.len(),
        forall|k: int| 0 <= k < orig.len() && k != i ==> news[k] == orig[k],
        scope_map(news[i]@) =~= scope_map(orig[i]@).insert(id, p),
        forall|k: int| i < k < orig.len() ==> !scope_map((#[trigger] orig[k])@).dom().contains(id),
    ensures
        lookup_prefix(news, n, id) == Some(p),
    decreases n,
{
    if n - 1 == i {
    } else {
        lemma_lookup_prefix_update(orig, news, i, n - 1, id, p);
    }
}

proof fn lemma_lookup_prefix_other(
    orig: Seq<Scope>,
    news: Seq<Scope>,
    i: int,
    n: int,
    id: u16,
    id2: u16,
    p: Path,
)
    requires
        0 <= i < orig.len(),
        n <= orig.len(),
        news.len() == orig.len(),
        id2 != id,
        forall|k: int| 0 <= k < orig.len() && k != i ==> news[k] == orig[k],
        scope_map(news[i]@) =~= scope_map(orig[i]@).insert(id, p),
    ensures
        lookup_prefix(news, n, id2) == lookup_prefix(orig, n, id2),
    decreases n,
{
    if n > 0 {
        lemma_lookup_prefix_other(orig, news, i, n - 1, id, id2, p);
    }
}

} // verus!
