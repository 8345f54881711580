//! The stack of lexical scopes that code generation keeps while it lowers a
//! function: each scope maps variable names to what the code generator holds
//! for them (where the value lives, how it is laid out, its semantic type).
//! The innermost scope is the last one; a lookup searches from it outward.
use vstd::prelude::*;

use crate::name_map::{found_value, NameMap};

verus! {

/// What `name` resolves to in `scopes` (innermost last): its value in the
/// innermost scope that binds it.
pub open spec fn innermost<V>(scopes: Seq<Map<Seq<char>, V>>, name: Seq<char>) -> Option<V>
    decreases scopes.len(),
{
    if scopes.len() == 0 {
        None
    } else if scopes.last().contains_key(name) {
        Some(scopes.last()[name])
    } else {
        innermost(scopes.drop_last(), name)
    }
}

/// A stack of scopes, each mapping names to values.
pub struct ScopeStack<V> {
    scopes: Vec<NameMap<V>>,
}

impl<V> View for ScopeStack<V> {
    type V = Seq<Map<Seq<char>, V>>;

    closed spec fn view(&self) -> Seq<Map<Seq<char>, V>> {
        Seq::new(self.scopes@.len(), |i: int| self.scopes@[i]@)
    }
}

impl<V> ScopeStack<V> {
    /// An empty stack, without any scope.
    pub fn new() -> (r: ScopeStack<V>)
        ensures
            r@ == Seq::<Map<Seq<char>, V>>::empty(),
    {
        let r = ScopeStack { scopes: Vec::new() };
        proof {
            assert(r@ =~= Seq::<Map<Seq<char>, V>>::empty());
        }
        r
    }

    /// Pushes a new empty scope.
    pub fn push_scope(&mut self)
        ensures
            final(self)@ == old(self)@.push(Map::empty()),
    {
        self.scopes.push(NameMap::new());
        proof {
            assert(self@ =~= old(self)@.push(Map::empty()));
        }
    }

    /// Pops the innermost scope and returns its bindings.
    pub fn pop_scope(&mut self) -> (r: NameMap<V>)
        requires
            old(self)@.len() > 0,
        ensures
            final(self)@ == old(self)@.drop_last(),
            r@ == old(self)@.last(),
    {
        let r = self.scopes.pop().unwrap();
        proof {
            assert(self@ =~= old(self)@.drop_last());
        }
        r
    }

    /// Binds `name` to `value` in the innermost scope, replacing a binding of
    /// the same name there.
    pub fn declare(&mut self, name: &str, value: V)
        requires
            old(self)@.len() > 0,
        ensures
            final(self)@ == old(self)@.update(old(self)@.len() - 1, old(self)@.last().insert(name@, value)),
    {
        let mut scope = self.scopes.pop().unwrap();
        scope.insert(name.to_string(), value);
        self.scopes.push(scope);
        proof {
            assert(self@ =~= old(self)@.update(old(self)@.len() - 1, old(self)@.last().insert(name@, value)));
        }
    }

    /// Looks `name` up from the innermost scope outward.
    pub fn lookup(&self, name: &str) -> (r: Option<&V>)
        ensures
            found_value(r) == innermost(self@, name@),
    {
        let mut k: usize = self.scopes.len();
        proof {
            assert(self@.take(k as int) =~= self@);
        }
        while k > 0
            invariant
                0 <= k <= self.scopes@.len(),
                innermost(self@, name@) == innermost(self@.take(k as int), name@),
            decreases k,
        {
            proof {
                assert(self@.take(k as int).drop_last() =~= self@.take(k as int - 1));
                assert(self@.take(k as int).last() == self.scopes@[k - 1]@);
            }
            match self.scopes[k - 1].get(name) {
                Some(v) => {
                    return Some(v);
                },
                None => {},
            }
            k = k - 1;
        }
        None
    }
}

/// A value bound in the innermost scope is what a lookup of its name finds.
pub proof fn lemma_lookup_finds_innermost_declaration<V>(scopes: Seq<Map<Seq<char>, V>>, name: Seq<char>, value: V)
    requires
        scopes.len() > 0,
    ensures
        innermost(scopes.update(scopes.len() - 1, scopes.last().insert(name, value)), name) == Some(value),
{
}

/// Binding a name leaves what every other name resolves to unchanged.
pub proof fn lemma_declare_keeps_other_names<V>(scopes: Seq<Map<Seq<char>, V>>, name: Seq<char>, value: V, other: Seq<char>)
    requires
        scopes.len() > 0,
        other != name,
    ensures
        innermost(scopes.update(scopes.len() - 1, scopes.last().insert(name, value)), other) == innermost(scopes, other),
{
    let after = scopes.update(scopes.len() - 1, scopes.last().insert(name, value));
    assert(after.drop_last() =~= scopes.drop_last());
}

/// Pushing a scope and popping it again leaves every name resolving as before.
pub proof fn lemma_push_then_pop_restores<V>(scopes: Seq<Map<Seq<char>, V>>, name: Seq<char>)
    ensures
        innermost(scopes.push(Map::empty()).drop_last(), name) == innermost(scopes, name),
{
    assert(scopes.push(Map::empty()).drop_last() =~= scopes);
}

} // verus!
