//! Conformance between types: nominal for types (a type conforms to its
//! ancestors), structural for protocols (a type conforms to a protocol whose
//! every method it offers with contravariant parameter types and a covariant
//! return type), covariant through `Vector` and `Iterable`, with `Object` on
//! top and `Error`/`Unknown` conforming both ways so one mistake is reported
//! once. Structural checks can call each other without end on recursive
//! protocols; every check here looks at most a given number of levels deep.
use vstd::prelude::*;

use crate::name_map::{found_value, NameMap};
use crate::semantic::registry::{reaches, MethodSignature, ProtocolInfo, TypeInfo, TypeRegistry};
use crate::semantic::types::{same_type, types_equal, Type};
use crate::text::texts;

verus! {

/// The methods a type offers to a protocol: its flattened table once that has
/// been filled, its own methods before.
pub open spec fn offered_methods(t: TypeInfo) -> Map<Seq<char>, MethodSignature> {
    if t.flattened_methods.size() > 0 {
        t.flattened_methods@
    } else {
        t.methods@
    }
}

/// `a` conforms to `b`, looking at most `fuel` levels deep.
pub open spec fn conforms(reg: TypeRegistry, a: Type, b: Type, fuel: nat) -> bool
    decreases fuel, 0nat,
{
    if fuel == 0 {
        false
    } else if same_type(a, b) || a is Error || b is Error || a is Unknown || b is Unknown || b is Object {
        true
    } else {
        match a {
            Type::Named(x) => match b {
                Type::Named(y) => reaches(reg.types@, y@, x@, reg.types.size() + 1) || (reg.protocols@.contains_key(y@)
                    && implements(reg, x@, y@, (fuel - 1) as nat)),
                _ => false,
            },
            Type::Vector(x) => match b {
                Type::Vector(y) => conforms(reg, *x, *y, (fuel - 1) as nat),
                Type::Iterable(y) => conforms(reg, *x, *y, (fuel - 1) as nat),
                _ => false,
            },
            Type::Iterable(x) => match b {
                Type::Iterable(y) => conforms(reg, *x, *y, (fuel - 1) as nat),
                _ => false,
            },
            _ => false,
        }
    }
}

/// `offered` has a method `m` that satisfies the protocol's signature `wanted`:
/// the same number of parameters, each parameter type of the protocol
/// conforming to the method's, and the method's return type conforming to
/// the protocol's.
pub open spec fn satisfies(reg: TypeRegistry, offered: Map<Seq<char>, MethodSignature>, m: Seq<char>, wanted: MethodSignature, fuel: nat) -> bool
    decreases fuel, 1nat,
{
    &&& offered.contains_key(m)
    &&& offered[m].params@.len() == wanted.params@.len()
    &&& forall|k: int| 0 <= k < wanted.params@.len() ==> conforms(reg, #[trigger] wanted.params@[k].1, offered[m].params@[k].1, fuel)
    &&& conforms(reg, offered[m].return_type, wanted.return_type, fuel)
}

/// The signature that protocol `p` asks for method `m`, looking through the
/// protocols it extends (at most `fuel` levels): its own when it declares
/// `m`, else the first one that a protocol it extends asks for, in the order
/// the parents are written, each looked through in turn. This is the
/// protocol's flattened method set, its own methods overriding inherited ones.
pub open spec fn asked(protocols: Map<Seq<char>, ProtocolInfo>, p: Seq<char>, m: Seq<char>, fuel: nat) -> Option<MethodSignature>
    decreases fuel, 0nat,
{
    if fuel == 0 || !protocols.contains_key(p) {
        None
    } else if protocols[p].methods@.contains_key(m) {
        Some(protocols[p].methods@[m])
    } else {
        first_asked(protocols, texts(protocols[p].extends@), m, (fuel - 1) as nat)
    }
}

/// The first signature for `m` that one of the protocols `parents` asks for.
pub open spec fn first_asked(protocols: Map<Seq<char>, ProtocolInfo>, parents: Seq<Seq<char>>, m: Seq<char>, fuel: nat) -> Option<MethodSignature>
    decreases fuel, parents.len() + 1,
{
    if parents.len() == 0 {
        None
    } else {
        match asked(protocols, parents[0], m, fuel) {
            Some(w) => Some(w),
            None => first_asked(protocols, parents.drop_first(), m, fuel),
        }
    }
}

/// How deep the flattened method set of a protocol looks: one level more
/// than there are protocols.
pub open spec fn extension_depth(reg: TypeRegistry) -> nat {
    reg.protocols.size() + 1
}

/// The registered type `t` implements the registered protocol `p`: for every
/// method in the protocol's flattened method set (its own and those inherited
/// through `extends`), the type offers a method whose signature satisfies it.
pub open spec fn implements(reg: TypeRegistry, t: Seq<char>, p: Seq<char>, fuel: nat) -> bool
    decreases fuel, 2nat,
{
    &&& reg.types@.contains_key(t)
    &&& reg.protocols@.contains_key(p)
    &&& forall|m: Seq<char>| #[trigger] asked(reg.protocols@, p, m, extension_depth(reg)) matches Some(w) ==> satisfies(
        reg,
        offered_methods(reg.types@[t]),
        m,
        w,
        fuel,
    )
}

/// A signature that a protocol asks for is declared by some registered protocol.
proof fn lemma_asked_declared(protocols: Map<Seq<char>, ProtocolInfo>, p: Seq<char>, m: Seq<char>, fuel: nat)
    ensures
        asked(protocols, p, m, fuel) matches Some(w) ==> exists|q: Seq<char>| #[trigger] protocols.contains_key(q)
            && protocols[q].methods@.contains_key(m) && protocols[q].methods@[m] == w,
    decreases fuel, 0nat,
{
    if fuel > 0 && protocols.contains_key(p) && !protocols[p].methods@.contains_key(m) {
        lemma_first_asked_declared(protocols, texts(protocols[p].extends@), m, (fuel - 1) as nat);
    }
}

proof fn lemma_first_asked_declared(protocols: Map<Seq<char>, ProtocolInfo>, parents: Seq<Seq<char>>, m: Seq<char>, fuel: nat)
    ensures
        first_asked(protocols, parents, m, fuel) matches Some(w) ==> exists|q: Seq<char>| #[trigger] protocols.contains_key(q)
            && protocols[q].methods@.contains_key(m) && protocols[q].methods@[m] == w,
    decreases fuel, parents.len() + 1,
{
    if parents.len() > 0 {
        lemma_asked_declared(protocols, parents[0], m, fuel);
        lemma_first_asked_declared(protocols, parents.drop_first(), m, fuel);
    }
}

/// How deep the checks of a registry look: one level more than it has types
/// and protocols.
pub open spec fn conformance_depth(reg: TypeRegistry) -> nat {
    reg.types.size() + reg.protocols.size() + 1
}

fn depth_of(registry: &TypeRegistry) -> (r: u128)
    ensures
        r == conformance_depth(*registry),
{
    registry.types.len() as u128 + registry.protocols.len() as u128 + 1
}

/// Decides `conforms` at the given depth.
fn conforms_within(registry: &TypeRegistry, a: &Type, b: &Type, fuel: u128) -> (r: bool)
    ensures
        r == conforms(*registry, *a, *b, fuel as nat),
    decreases fuel, 0nat,
{
    if fuel == 0 {
        return false;
    }
    if types_equal(a, b) {
        return true;
    }
    match (a, b) {
        (Type::Error, _) | (_, Type::Error) | (Type::Unknown, _) | (_, Type::Unknown) | (_, Type::Object) => true,
        (Type::Named(x), Type::Named(y)) => {
            registry.is_ancestor(y.as_str(), x.as_str()) || (registry.protocols.contains_key(y.as_str())
                && implements_within(registry, x.as_str(), y.as_str(), fuel - 1))
        },
        (Type::Vector(x), Type::Vector(y)) => conforms_within(registry, x, y, fuel - 1),
        (Type::Vector(x), Type::Iterable(y)) => conforms_within(registry, x, y, fuel - 1),
        (Type::Iterable(x), Type::Iterable(y)) => conforms_within(registry, x, y, fuel - 1),
        _ => false,
    }
}

/// Decides `satisfies` at the given depth.
#[verifier::loop_isolation(false)]
fn satisfies_within(registry: &TypeRegistry, offered: &NameMap<MethodSignature>, m: &str, wanted: &MethodSignature, fuel: u128) -> (r: bool)
    ensures
        r == satisfies(*registry, offered@, m@, *wanted, fuel as nat),
    decreases fuel, 1nat,
{
    let sig = match offered.get(m) {
        Some(sig) => sig,
        None => {
            return false;
        },
    };
    if sig.params.len() != wanted.params.len() {
        return false;
    }
    let mut i: usize = 0;
    while i < wanted.params.len()
        invariant
            0 <= i <= wanted.params@.len(),
            sig.params@.len() == wanted.params@.len(),
            offered@[m@] == *sig,
            forall|k: int| 0 <= k < i ==> conforms(*registry, #[trigger] wanted.params@[k].1, sig.params@[k].1, fuel as nat),
        decreases wanted.params.len() - i,
    {
        if !conforms_within(registry, &wanted.params[i].1, &sig.params[i].1, fuel) {
            return false;
        }
        i = i + 1;
    }
    conforms_within(registry, &sig.return_type, &wanted.return_type, fuel)
}

/// The signature that protocol `p` asks for method `m` (see `asked`).
#[verifier::loop_isolation(false)]
fn asked_within<'a>(protocols: &'a NameMap<ProtocolInfo>, p: &str, m: &str, fuel: u128) -> (r: Option<&'a MethodSignature>)
    ensures
        found_value(r) == asked(protocols@, p@, m@, fuel as nat),
    decreases fuel,
{
    if fuel == 0 {
        return None;
    }
    let proto = match protocols.get(p) {
        Some(proto) => proto,
        None => {
            return None;
        },
    };
    match proto.methods.get(m) {
        Some(sig) => {
            return Some(sig);
        },
        None => {},
    }
    let ghost ps = texts(proto.extends@);
    let mut i: usize = 0;
    proof {
        assert(ps.subrange(0, ps.len() as int) =~= ps);
    }
    while i < proto.extends.len()
        invariant
            0 <= i <= proto.extends@.len(),
            ps == texts(proto.extends@),
            first_asked(protocols@, ps, m@, (fuel - 1) as nat) == first_asked(
                protocols@,
                ps.subrange(i as int, ps.len() as int),
                m@,
                (fuel - 1) as nat,
            ),
        decreases proto.extends.len() - i,
    {
        proof {
            let rest = ps.subrange(i as int, ps.len() as int);
            assert(rest[0] == proto.extends@[i as int]@);
            assert(rest.drop_first() =~= ps.subrange(i as int + 1, ps.len() as int));
        }
        match asked_within(protocols, proto.extends[i].as_str(), m, fuel - 1) {
            Some(sig) => {
                return Some(sig);
            },
            None => {},
        }
        i = i + 1;
    }
    proof {
        assert(ps.subrange(i as int, ps.len() as int) =~= Seq::<Seq<char>>::empty());
    }
    None
}

fn extension_depth_of(registry: &TypeRegistry) -> (r: u128)
    ensures
        r == extension_depth(*registry),
{
    registry.protocols.len() as u128 + 1
}

/// Decides `implements` at the given depth: every method that some
/// registered protocol declares is looked up in the flattened method set of
/// `protocol_name`, and checked when that set holds it.
#[verifier::loop_isolation(false)]
#[verifier::rlimit(40)]
fn implements_within(registry: &TypeRegistry, ty_name: &str, protocol_name: &str, fuel: u128) -> (r: bool)
    ensures
        r == implements(*registry, ty_name@, protocol_name@, fuel as nat),
    decreases fuel, 2nat,
{
    let info = match registry.lookup_type(ty_name) {
        Some(info) => info,
        None => {
            return false;
        },
    };
    if !registry.protocols.contains_key(protocol_name) {
        return false;
    }
    let offered = if info.flattened_methods.len() > 0 {
        &info.flattened_methods
    } else {
        &info.methods
    };
    let depth = extension_depth_of(registry);
    let ghost protos = registry.protocols@;
    let ghost p = protocol_name@;
    let ghost ed = extension_depth(*registry);
    let names = registry.protocols.keys();
    let ghost all = texts(names@);
    let mut i: usize = 0;
    while i < names.len()
        invariant
            0 <= i <= names@.len(),
            all == texts(names@),
            all.to_set() == protos.dom(),
            offered@ == offered_methods(*info),
            forall|k: int, m: Seq<char>|
                0 <= k < i && #[trigger] protos[all[k]].methods@.contains_key(m) ==> match #[trigger] asked(protos, p, m, ed) {
                    Some(w) => satisfies(*registry, offered@, m, w, fuel as nat),
                    None => true,
                },
        decreases names.len() - i,
    {
        let q = &names[i];
        proof {
            assert(all[i as int] == q@);
        }
        match registry.protocols.get(q.as_str()) {
            Some(proto) => {
                let methods = proto.methods.keys();
                let ghost ms = texts(methods@);
                let mut j: usize = 0;
                while j < methods.len()
                    invariant
                        0 <= j <= methods@.len(),
                        ms == texts(methods@),
                        ms.to_set() == proto.methods@.dom(),
                        forall|l: int| 0 <= l < j ==> match #[trigger] asked(protos, p, ms[l], ed) {
                            Some(w) => satisfies(*registry, offered@, ms[l], w, fuel as nat),
                            None => true,
                        },
                    decreases methods.len() - j,
                {
                    let m = &methods[j];
                    proof {
                        assert(ms[j as int] == m@);
                    }
                    match asked_within(&registry.protocols, protocol_name, m.as_str(), depth) {
                        Some(wanted) => {
                            if !satisfies_within(registry, offered, m.as_str(), wanted, fuel) {
                                return false;
                            }
                        },
                        None => {},
                    }
                    j = j + 1;
                }
                proof {
                    assert forall|k: int, m: Seq<char>|
                        0 <= k < i + 1 && #[trigger] protos[all[k]].methods@.contains_key(m) implies match #[trigger] asked(
                            protos,
                            p,
                            m,
                            ed,
                        ) {
                        Some(w) => satisfies(*registry, offered@, m, w, fuel as nat),
                        None => true,
                    } by {
                        if k == i {
                            assert(ms.to_set().contains(m));
                            let l = choose|l: int| 0 <= l < ms.len() && ms[l] == m;
                        }
                    }
                }
            },
            None => {
                proof {
                    assert(all.contains(q@));
                    assert(all.to_set().contains(q@));
                }
            },
        }
        i = i + 1;
    }
    proof {
        assert forall|m: Seq<char>| #[trigger] asked(protos, p, m, ed) is Some implies satisfies(
            *registry,
            offered_methods(*info),
            m,
            asked(protos, p, m, ed)->Some_0,
            fuel as nat,
        ) by {
            lemma_asked_declared(protos, p, m, ed);
            let q = choose|q: Seq<char>| #[trigger] protos.contains_key(q) && protos[q].methods@.contains_key(m)
                && protos[q].methods@[m] == asked(protos, p, m, ed)->Some_0;
            assert(all.to_set().contains(q));
            let k = choose|k: int| 0 <= k < all.len() && all[k] == q;
            assert(protos[all[k]].methods@.contains_key(m));
        }
    }
    true
}

/// Returns `true` when `a` conforms to `b` (see `conforms`), looking as deep
/// as the registry has types and protocols, plus one.
pub fn conforms_to(a: &Type, b: &Type, registry: &TypeRegistry) -> (r: bool)
    ensures
        r == conforms(*registry, *a, *b, conformance_depth(*registry)),
{
    conforms_within(registry, a, b, depth_of(registry))
}

impl TypeRegistry {
    /// Returns `true` when the registered type `ty_name` implements the
    /// registered protocol `protocol_name` (see `implements`).
    pub fn implements_protocol(&self, ty_name: &str, protocol_name: &str) -> (r: bool)
        ensures
            r == implements(*self, ty_name@, protocol_name@, conformance_depth(*self)),
    {
        implements_within(self, ty_name, protocol_name, depth_of(self))
    }
}

/// Every type conforms to itself and to `Object`.
pub proof fn lemma_conforms_reflexive(reg: TypeRegistry, t: Type, fuel: nat)
    requires
        fuel > 0,
    ensures
        conforms(reg, t, t, fuel),
        conforms(reg, t, Type::Object, fuel),
{
    crate::semantic::types::lemma_same_type_reflexive(t);
}

/// A registered type conforms to each of its ancestors.
pub proof fn lemma_conforms_to_ancestor(reg: TypeRegistry, x: String, y: String, fuel: nat)
    requires
        fuel > 0,
        reaches(reg.types@, y@, x@, reg.types.size() + 1),
    ensures
        conforms(reg, Type::Named(x), Type::Named(y), fuel),
{
}

} // verus!
