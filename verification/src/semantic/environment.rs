//! Lexical scoping environment for HULK.
//!
//! A stack of scopes, each mapping variable names to their bindings, threaded
//! top-down through the passes that resolve names. The innermost scope is the
//! last one; a lookup searches from the innermost scope outward, so an inner
//! binding hides an outer one.
use vstd::prelude::*;

use crate::ast::SourceSpan;
use crate::semantic::types::{same_type, Type};

verus! {

/// A variable binding in the environment: its type and source location.
#[derive(Debug, Clone, PartialEq)]
pub struct Binding {
    pub ty: Type,
    pub span: SourceSpan,
}

impl Binding {
    pub fn new(ty: Type, span: SourceSpan) -> (r: Binding)
        ensures
            r.ty == ty,
            r.span == span,
    {
        Binding { ty, span }
    }
}

/// The bindings of one scope, keyed by name.
pub open spec fn scope_map(s: Seq<(String, Binding)>) -> Map<Seq<char>, Binding>
    decreases s.len(),
{
    if s.len() == 0 {
        Map::empty()
    } else {
        scope_map(s.drop_last()).insert(s.last().0@, s.last().1)
    }
}

/// No name is bound twice in one scope.
pub open spec fn distinct_keys(s: Seq<(String, Binding)>) -> bool {
    forall|i: int, j: int| 0 <= i < j < s.len() ==> s[i].0@ != s[j].0@
}

/// The binding that `name` resolves to in `scopes` (innermost scope last):
/// that of the innermost scope that binds it.
pub open spec fn resolve(scopes: Seq<Map<Seq<char>, Binding>>, name: Seq<char>) -> Option<Binding>
    decreases scopes.len(),
{
    if scopes.len() == 0 {
        None
    } else if scopes.last().contains_key(name) {
        Some(scopes.last()[name])
    } else {
        resolve(scopes.drop_last(), name)
    }
}

/// `scopes` after binding `name` to `b` in the innermost scope.
pub open spec fn declared(scopes: Seq<Map<Seq<char>, Binding>>, name: Seq<char>, b: Binding) -> Seq<Map<Seq<char>, Binding>> {
    scopes.update(scopes.len() - 1, scopes.last().insert(name, b))
}

/// The binding a lookup returned, by value.
pub open spec fn found(r: Option<&Binding>) -> Option<Binding> {
    match r {
        Some(b) => Some(*b),
        None => None,
    }
}

/// A stack of scopes, each mapping variable names to their bindings.
#[derive(Debug)]
pub struct Environment {
    scopes: Vec<Vec<(String, Binding)>>,
}

impl View for Environment {
    type V = Seq<Map<Seq<char>, Binding>>;

    closed spec fn view(&self) -> Seq<Map<Seq<char>, Binding>> {
        Seq::new(self.scopes@.len(), |i: int| scope_map(self.scopes@[i]@))
    }
}

/// Two bindings alike: types up to `same_type`, the same location.
pub open spec fn binding_alike(a: Binding, b: Binding) -> bool {
    same_type(a.ty, b.ty) && a.span == b.span
}

/// Two scope stacks alike: the same names in the same scopes, bound alike.
pub open spec fn scopes_alike(a: Seq<Map<Seq<char>, Binding>>, b: Seq<Map<Seq<char>, Binding>>) -> bool {
    &&& a.len() == b.len()
    &&& forall|i: int| 0 <= i < a.len() ==> (#[trigger] a[i]).dom() == b[i].dom()
    &&& forall|i: int, k: Seq<char>| 0 <= i < a.len() && #[trigger] a[i].contains_key(k) ==> binding_alike(a[i][k], b[i][k])
}

/// Binding one name alike in alike scope stacks keeps them alike.
pub proof fn lemma_declared_alike(a: Seq<Map<Seq<char>, Binding>>, b: Seq<Map<Seq<char>, Binding>>, n: Seq<char>, x: Binding, y: Binding)
    requires
        scopes_alike(a, b),
        a.len() >= 1,
        binding_alike(x, y),
    ensures
        scopes_alike(declared(a, n, x), declared(b, n, y)),
{
    let da = declared(a, n, x);
    let db = declared(b, n, y);
    let last = a.len() - 1;
    assert(da[last].dom() =~= db[last].dom());
    assert forall|i: int, k: Seq<char>| 0 <= i < da.len() && #[trigger] da[i].contains_key(k) implies binding_alike(da[i][k], db[i][k]) by {
        if i == last && k != n {
            assert(a[i].contains_key(k));
        }
    }
}

/// A scope whose entries have the same names as another's, bound alike,
/// binds the same names alike.
proof fn lemma_scope_map_alike(s: Seq<(String, Binding)>, t: Seq<(String, Binding)>)
    requires
        s.len() == t.len(),
        forall|j: int| 0 <= j < s.len() ==> (#[trigger] s[j]).0@ == t[j].0@ && binding_alike(s[j].1, t[j].1),
    ensures
        scope_map(s).dom() == scope_map(t).dom(),
        forall|k: Seq<char>| #[trigger] scope_map(s).contains_key(k) ==> binding_alike(scope_map(s)[k], scope_map(t)[k]),
    decreases s.len(),
{
    if s.len() > 0 {
        lemma_scope_map_alike(s.drop_last(), t.drop_last());
        assert(s.last().0@ == t.last().0@);
        assert(scope_map(s).dom() =~= scope_map(t).dom());
    }
}

impl Clone for Environment {
    /// A copy of every scope, binding for binding: the copy binds the same
    /// names in the same scopes.
    fn clone(&self) -> (r: Self)
        ensures
            scopes_alike(r@, self@),
            r@.len() >= 1,
    {
        proof {
            use_type_invariant(self);
        }
        let mut scopes: Vec<Vec<(String, Binding)>> = Vec::new();
        let mut i: usize = 0;
        while i < self.scopes.len()
            invariant
                0 <= i <= self.scopes@.len(),
                scopes@.len() == i,
                forall|k: int| 0 <= k < i ==> (#[trigger] scopes@[k])@.len() == self.scopes@[k]@.len(),
                forall|k: int, j: int| 0 <= k < i && 0 <= j < self.scopes@[k]@.len() ==> (#[trigger] scopes@[k]@[j]).0 == self.scopes@[k]@[j].0
                    && binding_alike(scopes@[k]@[j].1, self.scopes@[k]@[j].1),
            decreases self.scopes.len() - i,
        {
            let scope = &self.scopes[i];
            let mut copy: Vec<(String, Binding)> = Vec::new();
            let mut j: usize = 0;
            while j < scope.len()
                invariant
                    0 <= j <= scope@.len(),
                    copy@.len() == j,
                    forall|m: int| 0 <= m < j ==> (#[trigger] copy@[m]).0 == scope@[m].0 && binding_alike(copy@[m].1, scope@[m].1),
                decreases scope.len() - j,
            {
                let name = scope[j].0.clone();
                let binding = Binding { ty: scope[j].1.ty.duplicate(), span: scope[j].1.span };
                proof {
                    crate::semantic::types::lemma_same_type_reflexive(binding.ty);
                }
                copy.push((name, binding));
                j = j + 1;
            }
            scopes.push(copy);
            i = i + 1;
        }
        proof {
            assert forall|k: int| 0 <= k < scopes@.len() implies distinct_keys(#[trigger] scopes@[k]@) by {
                assert(distinct_keys(self.scopes@[k]@));
                assert forall|a: int, b: int| 0 <= a < b < scopes@[k]@.len() implies scopes@[k]@[a].0@ != scopes@[k]@[b].0@ by {
                    assert(scopes@[k]@[a].0 == self.scopes@[k]@[a].0);
                    assert(scopes@[k]@[b].0 == self.scopes@[k]@[b].0);
                }
            }
            assert forall|k: int| 0 <= k < scopes@.len() implies scope_map(scopes@[k]@).dom() == scope_map(self.scopes@[k]@).dom()
                && forall|n: Seq<char>| #[trigger] scope_map(scopes@[k]@).contains_key(n) ==> binding_alike(
                scope_map(scopes@[k]@)[n],
                scope_map(self.scopes@[k]@)[n],
            ) by {
                assert forall|j: int| 0 <= j < scopes@[k]@.len() implies (#[trigger] scopes@[k]@[j]).0@ == self.scopes@[k]@[j].0@
                    && binding_alike(scopes@[k]@[j].1, self.scopes@[k]@[j].1) by {
                    assert(scopes@[k]@[j].0 == self.scopes@[k]@[j].0);
                }
                lemma_scope_map_alike(scopes@[k]@, self.scopes@[k]@);
            }
        }
        Environment { scopes }
    }
}

impl Environment {
    /// There is at least the root scope, and no scope binds a name twice.
    #[verifier::type_invariant]
    spec fn wf(&self) -> bool {
        &&& self.scopes@.len() >= 1
        &&& forall|i: int| 0 <= i < self.scopes@.len() ==> distinct_keys(#[trigger] self.scopes@[i]@)
    }

    /// Creates a new environment with one root scope (initially empty).
    pub fn new() -> (r: Environment)
        ensures
            r@ == seq![Map::<Seq<char>, Binding>::empty()],
    {
        let root: Vec<(String, Binding)> = Vec::new();
        let mut scopes: Vec<Vec<(String, Binding)>> = Vec::new();
        scopes.push(root);
        let r = Environment { scopes };
        proof {
            assert(scope_map(root@) == Map::<Seq<char>, Binding>::empty());
            assert(r@ =~= seq![Map::<Seq<char>, Binding>::empty()]);
        }
        r
    }

    /// Takes the scopes out, leaving a single empty root scope in their place.
    fn take_scopes(&mut self) -> (r: Vec<Vec<(String, Binding)>>)
        ensures
            r@ == old(self).scopes@,
            r@.len() >= 1,
            forall|i: int| 0 <= i < r@.len() ==> distinct_keys(#[trigger] r@[i]@),
    {
        proof {
            use_type_invariant(&*self);
        }
        let mut scopes: Vec<Vec<(String, Binding)>> = Vec::new();
        scopes.push(Vec::new());
        std::mem::swap(&mut scopes, &mut self.scopes);
        scopes
    }

    /// Pushes a new empty scope onto the stack.
    pub fn push_scope(&mut self)
        ensures
            final(self)@.len() >= 1,
            final(self)@ == old(self)@.push(Map::empty()),
    {
        proof {
            use_type_invariant(&*self);
        }
        let scope: Vec<(String, Binding)> = Vec::new();
        let mut scopes = self.take_scopes();
        scopes.push(scope);
        self.scopes = scopes;
        proof {
            assert(scope_map(scope@) == Map::<Seq<char>, Binding>::empty());
            assert(self@ =~= old(self)@.push(Map::empty()));
        }
    }

    /// Pops the innermost scope, discarding all its bindings. The root scope
    /// is never popped.
    pub fn pop_scope(&mut self)
        requires
            old(self)@.len() > 1,
        ensures
            final(self)@.len() >= 1,
            final(self)@ == old(self)@.drop_last(),
    {
        proof {
            use_type_invariant(&*self);
        }
        let mut scopes = self.take_scopes();
        scopes.pop();
        self.scopes = scopes;
        proof {
            assert(self@ =~= old(self)@.drop_last());
        }
    }

    /// Declares a variable in the innermost scope, replacing a binding of the
    /// same name in that scope.
    #[verifier::loop_isolation(false)]
    pub fn declare(&mut self, name: &str, ty: Type, span: SourceSpan)
        ensures
            final(self)@.len() >= 1,
            final(self)@ == declared(old(self)@, name@, Binding { ty, span }),
    {
        proof {
            use_type_invariant(&*self);
        }
        let key = name.to_owned();
        let binding = Binding::new(ty, span);
        let mut scopes = self.take_scopes();
        let mut scope = scopes.pop().unwrap();
        let ghost before = scope@;
        let mut i: usize = 0;
        let mut found = false;
        while i < scope.len()
            invariant
                0 <= i <= scope.len(),
                scope@ == before,
                !found,
                forall|j: int| 0 <= j < i ==> #[trigger] scope@[j].0@ != key@,
            decreases scope.len() - i,
        {
            if scope[i].0.eq(&key) {
                found = true;
                break;
            }
            i = i + 1;
        }
        proof {
            lemma_scope_map_dom(before, key@);
        }
        if found {
            scope.set(i, (key, binding));
            proof {
                lemma_scope_map_update(before, i as int, (key, binding));
            }
        } else {
            proof {
                lemma_scope_map_push(before, (key, binding));
            }
            scope.push((key, binding));
        }
        scopes.push(scope);
        self.scopes = scopes;
        proof {
            assert(self@ =~= declared(old(self)@, name@, Binding { ty, span }));
        }
    }

    /// Looks up a variable name starting from the innermost scope outward.
    #[verifier::loop_isolation(false)]
    pub fn lookup(&self, name: &str) -> (r: Option<&Binding>)
        ensures
            found(r) == resolve(self@, name@),
    {
        proof {
            use_type_invariant(self);
        }
        let key = name.to_owned();
        let mut k: usize = self.scopes.len();
        proof {
            assert(self@.take(k as int) =~= self@);
        }
        while k > 0
            invariant
                0 <= k <= self.scopes@.len(),
                self.wf(),
                key@ == name@,
                resolve(self@, name@) == resolve(self@.take(k as int), name@),
            decreases k,
        {
            let scope = &self.scopes[k - 1];
            proof {
                assert(self@.take(k as int).drop_last() =~= self@.take(k as int - 1));
                lemma_scope_map_dom(scope@, key@);
            }
            let mut i: usize = 0;
            while i < scope.len()
                invariant
                    0 <= i <= scope.len(),
                    forall|j: int| 0 <= j < i ==> #[trigger] scope@[j].0@ != key@,
                decreases scope.len() - i,
            {
                if scope[i].0.eq(&key) {
                    proof {
                        lemma_scope_map_lookup(scope@, i as int);
                    }
                    return Some(&scope[i].1);
                }
                i = i + 1;
            }
            k = k - 1;
        }
        None
    }

    /// Returns `true` if the name is declared in any scope.
    pub fn is_declared(&self, name: &str) -> (r: bool)
        ensures
            r == resolve(self@, name@) is Some,
    {
        self.lookup(name).is_some()
    }

    /// Returns the current nesting depth (number of scopes).
    pub fn depth(&self) -> (r: usize)
        ensures
            r == self@.len(),
            r >= 1,
    {
        proof {
            use_type_invariant(self);
        }
        self.scopes.len()
    }
}

impl Default for Environment {
    fn default() -> (r: Environment)
        ensures
            r@ == seq![Map::<Seq<char>, Binding>::empty()],
    {
        Environment::new()
    }
}

/// One operation on an environment, as its view sees it.
pub enum EnvOp {
    Push,
    Pop,
    Declare(Seq<char>, Binding),
}

/// The scopes after `op`, as `push_scope`, `pop_scope` and `declare` state it.
pub open spec fn apply_op(scopes: Seq<Map<Seq<char>, Binding>>, op: EnvOp) -> Seq<Map<Seq<char>, Binding>> {
    match op {
        EnvOp::Push => scopes.push(Map::empty()),
        EnvOp::Pop => scopes.drop_last(),
        EnvOp::Declare(name, b) => declared(scopes, name, b),
    }
}

/// The scopes after the operations `ops`, in order.
pub open spec fn apply_ops(scopes: Seq<Map<Seq<char>, Binding>>, ops: Seq<EnvOp>) -> Seq<Map<Seq<char>, Binding>>
    decreases ops.len(),
{
    if ops.len() == 0 {
        scopes
    } else {
        apply_op(apply_ops(scopes, ops.drop_last()), ops.last())
    }
}

/// Every operation of `ops` may be called where it comes: a pop only while
/// more than the root scope is left, a declaration only with a scope.
pub open spec fn callable(scopes: Seq<Map<Seq<char>, Binding>>, ops: Seq<EnvOp>) -> bool {
    forall|k: int| 0 <= k < ops.len() ==> match #[trigger] ops[k] {
        EnvOp::Pop => apply_ops(scopes, ops.take(k)).len() > 1,
        EnvOp::Push => true,
        EnvOp::Declare(_, _) => apply_ops(scopes, ops.take(k)).len() >= 1,
    }
}

/// The number of pushes among `ops`.
pub open spec fn pushes(ops: Seq<EnvOp>) -> nat
    decreases ops.len(),
{
    if ops.len() == 0 {
        0
    } else {
        pushes(ops.drop_last()) + if ops.last() is Push { 1nat } else { 0nat }
    }
}

/// The number of pops among `ops`.
pub open spec fn pops(ops: Seq<EnvOp>) -> nat
    decreases ops.len(),
{
    if ops.len() == 0 {
        0
    } else {
        pops(ops.drop_last()) + if ops.last() is Pop { 1nat } else { 0nat }
    }
}

/// The depth is the starting depth plus the pushes minus the pops, and a
/// valid sequence of calls never leaves the root scope.
pub proof fn lemma_depth_counts(scopes: Seq<Map<Seq<char>, Binding>>, ops: Seq<EnvOp>)
    requires
        scopes.len() >= 1,
        callable(scopes, ops),
    ensures
        apply_ops(scopes, ops).len() == scopes.len() + pushes(ops) - pops(ops),
        apply_ops(scopes, ops).len() >= 1,
    decreases ops.len(),
{
    if ops.len() > 0 {
        let front = ops.drop_last();
        assert forall|k: int| 0 <= k < front.len() implies match #[trigger] front[k] {
            EnvOp::Pop => apply_ops(scopes, front.take(k)).len() > 1,
            EnvOp::Push => true,
            EnvOp::Declare(_, _) => apply_ops(scopes, front.take(k)).len() >= 1,
        } by {
            assert(front.take(k) =~= ops.take(k));
            assert(front[k] == ops[k]);
        }
        lemma_depth_counts(scopes, front);
        let k = ops.len() - 1;
        assert(ops.take(k) =~= front);
        assert(ops[k] == ops.last());
    }
}

/// From a new environment, the depth is one plus the pushes minus the pops.
pub proof fn lemma_depth_from_new(ops: Seq<EnvOp>)
    requires
        callable(seq![Map::<Seq<char>, Binding>::empty()], ops),
    ensures
        apply_ops(seq![Map::<Seq<char>, Binding>::empty()], ops).len() == 1 + pushes(ops) - pops(ops),
        apply_ops(seq![Map::<Seq<char>, Binding>::empty()], ops).len() >= 1,
{
    lemma_depth_counts(seq![Map::<Seq<char>, Binding>::empty()], ops);
}

/// Only declarations.
pub open spec fn all_declarations(ops: Seq<EnvOp>) -> bool {
    forall|k: int| 0 <= k < ops.len() ==> #[trigger] ops[k] is Declare
}

/// Declarations after a push only change the pushed scope.
proof fn lemma_declarations_stay_inner(scopes: Seq<Map<Seq<char>, Binding>>, decls: Seq<EnvOp>)
    requires
        all_declarations(decls),
    ensures
        apply_ops(scopes.push(Map::empty()), decls).len() == scopes.len() + 1,
        apply_ops(scopes.push(Map::empty()), decls).drop_last() == scopes,
    decreases decls.len(),
{
    if decls.len() > 0 {
        let front = decls.drop_last();
        assert forall|k: int| 0 <= k < front.len() implies #[trigger] front[k] is Declare by {
            assert(front[k] == decls[k]);
        }
        lemma_declarations_stay_inner(scopes, front);
        assert(decls[decls.len() - 1] is Declare);
        let before = apply_ops(scopes.push(Map::empty()), front);
        assert(apply_ops(scopes.push(Map::empty()), decls).drop_last() =~= before.drop_last());
    }
}

/// Pushing a scope, declaring in it, and popping it leaves the environment as
/// it was: the depth is back, and every name resolves as before.
pub proof fn lemma_pop_undoes_push(scopes: Seq<Map<Seq<char>, Binding>>, decls: Seq<EnvOp>, name: Seq<char>)
    requires
        all_declarations(decls),
    ensures
        apply_ops(scopes, seq![EnvOp::Push] + decls + seq![EnvOp::Pop]) == scopes,
        resolve(apply_ops(scopes, seq![EnvOp::Push] + decls + seq![EnvOp::Pop]), name) == resolve(scopes, name),
{
    lemma_apply_ops_split(scopes, seq![EnvOp::Push], decls + seq![EnvOp::Pop]);
    lemma_apply_one(scopes, EnvOp::Push);
    lemma_apply_ops_split(scopes.push(Map::empty()), decls, seq![EnvOp::Pop]);
    lemma_apply_one(apply_ops(scopes.push(Map::empty()), decls), EnvOp::Pop);
    lemma_declarations_stay_inner(scopes, decls);
    assert(seq![EnvOp::Push] + decls + seq![EnvOp::Pop] =~= seq![EnvOp::Push] + (decls + seq![EnvOp::Pop]));
}

/// Applying one operation.
proof fn lemma_apply_one(scopes: Seq<Map<Seq<char>, Binding>>, op: EnvOp)
    ensures
        apply_ops(scopes, seq![op]) == apply_op(scopes, op),
{
    let one = seq![op];
    assert(one.drop_last() =~= Seq::<EnvOp>::empty());
    assert(apply_ops(scopes, one.drop_last()) == scopes);
    assert(one.last() == op);
}

/// Applying `a + b` is applying `a`, then `b`.
proof fn lemma_apply_ops_split(scopes: Seq<Map<Seq<char>, Binding>>, a: Seq<EnvOp>, b: Seq<EnvOp>)
    ensures
        apply_ops(scopes, a + b) == apply_ops(apply_ops(scopes, a), b),
    decreases b.len(),
{
    if b.len() == 0 {
        assert(a + b =~= a);
    } else {
        lemma_apply_ops_split(scopes, a, b.drop_last());
        assert((a + b).drop_last() =~= a + b.drop_last());
        assert((a + b).last() == b.last());
    }
}

/// A lookup right after a declaration finds the declared binding, whatever
/// the outer scopes bind the name to.
pub proof fn lemma_lookup_after_declare(scopes: Seq<Map<Seq<char>, Binding>>, name: Seq<char>, b: Binding)
    requires
        scopes.len() >= 1,
    ensures
        resolve(declared(scopes, name, b), name) == Some(b),
{
}

/// Declaring a name leaves the resolution of every other name unchanged.
pub proof fn lemma_declare_keeps_other_names(
    scopes: Seq<Map<Seq<char>, Binding>>,
    name: Seq<char>,
    other: Seq<char>,
    b: Binding,
)
    requires
        scopes.len() >= 1,
        other != name,
    ensures
        resolve(declared(scopes, name, b), other) == resolve(scopes, other),
{
    assert(declared(scopes, name, b).drop_last() =~= scopes.drop_last());
}

/// A freshly pushed scope hides nothing: every name resolves as before.
pub proof fn lemma_push_scope_keeps_resolution(scopes: Seq<Map<Seq<char>, Binding>>, name: Seq<char>)
    ensures
        resolve(scopes.push(Map::empty()), name) == resolve(scopes, name),
{
    assert(scopes.push(Map::empty()).drop_last() =~= scopes);
}

/// Popping a scope undoes pushing it, together with every declaration made
/// in it in between.
pub proof fn lemma_pop_discards_inner_scope(
    scopes: Seq<Map<Seq<char>, Binding>>,
    inner: Map<Seq<char>, Binding>,
    name: Seq<char>,
)
    ensures
        scopes.push(inner).drop_last() == scopes,
        resolve(scopes.push(inner).drop_last(), name) == resolve(scopes, name),
{
    assert(scopes.push(inner).drop_last() =~= scopes);
}

/// A binding in an inner scope hides the bindings of the same name in the
/// scopes around it.
pub proof fn lemma_inner_binding_shadows(scopes: Seq<Map<Seq<char>, Binding>>, name: Seq<char>, b: Binding)
    ensures
        resolve(declared(scopes.push(Map::empty()), name, b), name) == Some(b),
{
}

proof fn lemma_scope_map_dom(s: Seq<(String, Binding)>, n: Seq<char>)
    ensures
        scope_map(s).contains_key(n) <==> exists|i: int| 0 <= i < s.len() && #[trigger] s[i].0@ == n,
    decreases s.len(),
{
    if s.len() > 0 {
        lemma_scope_map_dom(s.drop_last(), n);
        if scope_map(s.drop_last()).contains_key(n) {
            let i = choose|i: int| 0 <= i < s.drop_last().len() && #[trigger] s.drop_last()[i].0@ == n;
            assert(s[i].0@ == n);
        }
        if exists|i: int| 0 <= i < s.len() && #[trigger] s[i].0@ == n {
            let i = choose|i: int| 0 <= i < s.len() && #[trigger] s[i].0@ == n;
            if i < s.len() - 1 {
                assert(s.drop_last()[i].0@ == n);
            }
        }
    }
}

proof fn lemma_scope_map_push(s: Seq<(String, Binding)>, x: (String, Binding))
    ensures
        scope_map(s.push(x)) == scope_map(s).insert(x.0@, x.1),
{
    assert(s.push(x).drop_last() =~= s);
}

/// With distinct names, the entry at `i` is what the scope binds its name to.
proof fn lemma_scope_map_lookup(s: Seq<(String, Binding)>, i: int)
    requires
        distinct_keys(s),
        0 <= i < s.len(),
    ensures
        scope_map(s).contains_key(s[i].0@),
        scope_map(s)[s[i].0@] == s[i].1,
    decreases s.len(),
{
    if i < s.len() - 1 {
        lemma_scope_map_lookup(s.drop_last(), i);
        assert(s.drop_last()[i] == s[i]);
        assert(s.last().0@ != s[i].0@);
    }
}

/// Replacing the entry at `i` by one of the same name rebinds that name.
proof fn lemma_scope_map_update(s: Seq<(String, Binding)>, i: int, x: (String, Binding))
    requires
        distinct_keys(s),
        0 <= i < s.len(),
        s[i].0@ == x.0@,
    ensures
        scope_map(s.update(i, x)) == scope_map(s).insert(x.0@, x.1),
        distinct_keys(s.update(i, x)),
    decreases s.len(),
{
    if i < s.len() - 1 {
        lemma_scope_map_update(s.drop_last(), i, x);
        assert(s.update(i, x).drop_last() =~= s.drop_last().update(i, x));
        assert(s.last().0@ != x.0@);
        assert(scope_map(s.update(i, x)) =~= scope_map(s).insert(x.0@, x.1));
    } else {
        assert(s.update(i, x).drop_last() =~= s.drop_last());
        lemma_scope_map_dom(s.drop_last(), x.0@);
        assert(scope_map(s.update(i, x)) =~= scope_map(s).insert(x.0@, x.1));
    }
}

} // verus!
