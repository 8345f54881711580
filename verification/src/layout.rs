//! Questions the code generator asks of the type hierarchy when it lays out
//! objects and vtables (the ancestors of a type, the type that declares a
//! method a type inherits, whether a type has subtypes) and of the semantic
//! types of the values it lowers.
use vstd::prelude::*;

use crate::ast::TypeRef;
use crate::semantic::hierarchy::{chain_ends, ends_within, parent_step};
use crate::semantic::registry::{parent_name, ProtocolInfo, TypeInfo, TypeRegistry};
use crate::semantic::types::Type;
use crate::text::texts;

verus! {

/// The names above `n` on its chain of parent links, root first, when the
/// chain ends within `fuel` links. The last one may be a name that is not a
/// registered type.
pub open spec fn chain_above(types: Map<Seq<char>, TypeInfo>, n: Seq<char>, fuel: nat) -> Seq<Seq<char>>
    decreases fuel,
{
    match parent_step(types, n) {
        None => Seq::empty(),
        Some(p) => if fuel == 0 {
            Seq::empty()
        } else {
            chain_above(types, p, (fuel - 1) as nat).push(p)
        },
    }
}

/// Any fuel within which the chain ends gives the same ancestors.
pub proof fn lemma_chain_above_fuel(types: Map<Seq<char>, TypeInfo>, n: Seq<char>, f1: nat, f2: nat)
    requires
        ends_within(types, n, f1),
        ends_within(types, n, f2),
    ensures
        chain_above(types, n, f1) == chain_above(types, n, f2),
    decreases f1,
{
    match parent_step(types, n) {
        None => {},
        Some(p) => {
            lemma_chain_above_fuel(types, p, (f1 - 1) as nat, (f2 - 1) as nat);
        },
    }
}

/// Collects the chain of parent names above `ty_name`, from the root down
/// to (but excluding) `ty_name` itself.
#[verifier::loop_isolation(false)]
pub fn collect_ancestors(ty_name: &str, registry: &TypeRegistry) -> (r: Vec<String>)
    requires
        chain_ends(registry.types@, ty_name@),
    ensures
        forall|fuel: nat| #[trigger] ends_within(registry.types@, ty_name@, fuel) ==> texts(r@) == chain_above(registry.types@, ty_name@, fuel),
{
    let ghost types = registry.types@;
    let ghost fuel0 = choose|fuel: nat| ends_within(types, ty_name@, fuel);
    let ghost mut fuel: nat = fuel0;
    let mut ancestors: Vec<String> = Vec::new();
    let mut current: String = ty_name.to_string();
    loop
        invariant
            ends_within(types, current@, fuel),
            chain_above(types, ty_name@, fuel0) == chain_above(types, current@, fuel) + texts(ancestors@),
        decreases fuel,
    {
        match registry.parent_of(current.as_str()) {
            Some(parent) => {
                proof {
                    assert(parent_step(types, current@) == Some(parent@));
                    assert(chain_above(types, current@, fuel) == chain_above(types, parent@, (fuel - 1) as nat).push(parent@));
                }
                let name = parent.clone();
                let ghost before = texts(ancestors@);
                ancestors.insert(0, name);
                proof {
                    assert(texts(ancestors@) =~= seq![parent@] + before);
                    assert(chain_above(types, parent@, (fuel - 1) as nat).push(parent@) + before
                        =~= chain_above(types, parent@, (fuel - 1) as nat) + texts(ancestors@));
                    fuel = (fuel - 1) as nat;
                }
                current = parent;
            },
            None => {
                proof {
                    assert(parent_step(types, current@) is None);
                    assert(chain_above(types, current@, fuel) =~= Seq::<Seq<char>>::empty());
                    assert(chain_above(types, ty_name@, fuel0) =~= texts(ancestors@));
                }
                break;
            },
        }
    }
    proof {
        assert forall|f: nat| #[trigger] ends_within(types, ty_name@, f) implies texts(ancestors@) == chain_above(types, ty_name@, f) by {
            lemma_chain_above_fuel(types, ty_name@, fuel0, f);
        }
    }
    ancestors
}

/// The search for the type that declares method `m`, starting at `n` and
/// following parent links for at most `fuel` links: `Some(result)` once it
/// stops, `None` while it is still going. It stops at the first type that
/// declares `m` (`Some(Some(that type))`), or with `Some(None)` at a name that
/// is not a registered type or at a type without a parent.
pub open spec fn owner_search(types: Map<Seq<char>, TypeInfo>, n: Seq<char>, m: Seq<char>, fuel: nat) -> Option<Option<Seq<char>>>
    decreases fuel,
{
    if !types.contains_key(n) {
        Some(None)
    } else if types[n].methods@.contains_key(m) {
        Some(Some(n))
    } else {
        match parent_name(types[n].parent) {
            None => Some(None),
            Some(p) => if fuel == 0 {
                None
            } else {
                owner_search(types, p, m, (fuel - 1) as nat)
            },
        }
    }
}

/// The search stops within some number of parent links.
pub open spec fn owner_search_stops(types: Map<Seq<char>, TypeInfo>, n: Seq<char>, m: Seq<char>) -> bool {
    exists|fuel: nat| #[trigger] owner_search(types, n, m, fuel) is Some
}

/// A search that has stopped gives the same result with more fuel.
pub proof fn lemma_owner_search_fuel(types: Map<Seq<char>, TypeInfo>, n: Seq<char>, m: Seq<char>, f1: nat, f2: nat)
    requires
        owner_search(types, n, m, f1) is Some,
        owner_search(types, n, m, f2) is Some,
    ensures
        owner_search(types, n, m, f1) == owner_search(types, n, m, f2),
    decreases f1,
{
    if types.contains_key(n) && !types[n].methods@.contains_key(m) {
        match parent_name(types[n].parent) {
            None => {},
            Some(p) => {
                lemma_owner_search_fuel(types, p, m, (f1 - 1) as nat, (f2 - 1) as nat);
            },
        }
    }
}

/// The type found by the search is registered and declares the method.
pub proof fn lemma_owner_declares(types: Map<Seq<char>, TypeInfo>, n: Seq<char>, m: Seq<char>, fuel: nat)
    requires
        owner_search(types, n, m, fuel) matches Some(Some(_)),
    ensures
        types.contains_key(owner_search(types, n, m, fuel)->Some_0->Some_0),
        types[owner_search(types, n, m, fuel)->Some_0->Some_0].methods@.contains_key(m),
    decreases fuel,
{
    if types.contains_key(n) && !types[n].methods@.contains_key(m) {
        match parent_name(types[n].parent) {
            None => {},
            Some(p) => {
                lemma_owner_declares(types, p, m, (fuel - 1) as nat);
            },
        }
    }
}

/// The view of an optional name.
pub open spec fn optional_text(o: Option<String>) -> Option<Seq<char>> {
    match o {
        Some(s) => Some(s@),
        None => None,
    }
}

/// Returns the name of the type that declares or overrides `method_name`,
/// searching `ty_name` and then its ancestors in order.
#[verifier::loop_isolation(false)]
pub fn owning_type_for_method(ty_name: &str, method_name: &str, registry: &TypeRegistry) -> (r: Option<String>)
    requires
        owner_search_stops(registry.types@, ty_name@, method_name@),
    ensures
        forall|fuel: nat| #[trigger] owner_search(registry.types@, ty_name@, method_name@, fuel) is Some
            ==> optional_text(r) == owner_search(registry.types@, ty_name@, method_name@, fuel)->Some_0,
{
    let ghost types = registry.types@;
    let ghost m = method_name@;
    let ghost fuel0 = choose|fuel: nat| #[trigger] owner_search(types, ty_name@, m, fuel) is Some;
    let ghost mut fuel: nat = fuel0;
    let mut current: String = ty_name.to_string();
    let mut result: Option<String> = None;
    loop
        invariant
            result is None,
            owner_search(types, current@, m, fuel) is Some,
            owner_search(types, ty_name@, m, fuel0) == owner_search(types, current@, m, fuel),
        decreases fuel,
    {
        match registry.lookup_type(current.as_str()) {
            None => {
                break;
            },
            Some(info) => {
                if info.methods.contains_key(method_name) {
                    result = Some(current);
                    break;
                }
                match &info.parent {
                    None => {
                        break;
                    },
                    Some(parent) => {
                        let next = parent.name.clone();
                        proof {
                            fuel = (fuel - 1) as nat;
                        }
                        current = next;
                    },
                }
            },
        }
    }
    proof {
        assert forall|f: nat| #[trigger] owner_search(types, ty_name@, m, f) is Some implies optional_text(result)
            == owner_search(types, ty_name@, m, f)->Some_0 by {
            lemma_owner_search_fuel(types, ty_name@, m, fuel0, f);
        }
    }
    result
}

/// Some registered type names `ty_name` as its parent.
pub open spec fn has_subtype(types: Map<Seq<char>, TypeInfo>, ty_name: Seq<char>) -> bool {
    exists|n: Seq<char>| #[trigger] types.contains_key(n) && parent_name(types[n].parent) == Some(ty_name)
}

/// Determines whether any registered type names `ty_name` as its parent.
pub fn has_subtypes(ty_name: &str, registry: &TypeRegistry) -> (r: bool)
    ensures
        r == has_subtype(registry.types@, ty_name@),
{
    let ghost types = registry.types@;
    let names = registry.types.keys();
    let ghost all = texts(names@);
    let target = ty_name.to_string();
    let mut i: usize = 0;
    while i < names.len()
        invariant
            0 <= i <= names@.len(),
            types == registry.types@,
            target@ == ty_name@,
            all == texts(names@),
            all.to_set() == types.dom(),
            forall|k: int| 0 <= k < i ==> parent_name(types[#[trigger] all[k]].parent) != Some(ty_name@),
        decreases names.len() - i,
    {
        let name = &names[i];
        proof {
            assert(all[i as int] == name@);
            assert(types.contains_key(name@)) by {
                assert(all.contains(name@));
                assert(all.to_set().contains(name@));
            }
        }
        match registry.types.get(name.as_str()) {
            Some(info) => match &info.parent {
                Some(parent) => {
                    if parent.name.eq(&target) {
                        proof {
                            assert(parent_name(types[name@].parent) == Some(ty_name@));
                        }
                        return true;
                    }
                },
                None => {},
            },
            None => {},
        }
        i = i + 1;
    }
    proof {
        if has_subtype(types, ty_name@) {
            let n = choose|n: Seq<char>| #[trigger] types.contains_key(n) && parent_name(types[n].parent) == Some(ty_name@);
            assert(all.to_set().contains(n));
            let k = choose|k: int| 0 <= k < all.len() && all[k] == n;
        }
    }
    false
}

/// Values of `ty` are heap pointers that are reference-counted: strings,
/// objects, vectors, iterables and named types.
pub fn is_heap_allocated_type(ty: &Type, registry: &TypeRegistry) -> (r: bool)
    ensures
        r == (ty is String || ty is Object || ty is Vector || ty is Iterable || ty is Named),
{
    match ty {
        Type::String | Type::Object | Type::Vector(_) | Type::Iterable(_) => true,
        Type::Named(_) => true,
        _ => false,
    }
}

/// The semantic type that the lowering gives a written type: the builtin
/// value types and `Object` by name, `Vector<..>` and `Iterable<..>` (with
/// arguments) with an unknown element type, a registered type or protocol by
/// its name, and anything else unknown.
pub open spec fn lowered_type_of(tr: TypeRef, types: Map<Seq<char>, TypeInfo>, protocols: Map<Seq<char>, ProtocolInfo>) -> Type {
    if tr.name@ == "Number"@ {
        Type::Number
    } else if tr.name@ == "String"@ {
        Type::String
    } else if tr.name@ == "Boolean"@ {
        Type::Boolean
    } else if tr.name@ == "Object"@ {
        Type::Object
    } else if tr.name@ == "Vector"@ && tr.args@.len() > 0 {
        Type::Vector(Box::new(Type::Unknown))
    } else if tr.name@ == "Iterable"@ && tr.args@.len() > 0 {
        Type::Iterable(Box::new(Type::Unknown))
    } else if types.contains_key(tr.name@) || protocols.contains_key(tr.name@) {
        Type::Named(tr.name)
    } else {
        Type::Unknown
    }
}

/// Resolves a written type to a semantic type, by name only (see `lowered_type_of`).
pub fn resolve_type_ref_to_type(tr: &TypeRef, registry: &TypeRegistry) -> (r: Type)
    ensures
        r == lowered_type_of(*tr, registry.types@, registry.protocols@),
{
    let name = tr.name.as_str();
    proof {
        reveal_strlit("Number");
        reveal_strlit("String");
        reveal_strlit("Boolean");
        reveal_strlit("Object");
        reveal_strlit("Vector");
        reveal_strlit("Iterable");
    }
    if tr.name.eq(&String::from_str("Number")) {
        Type::Number
    } else if tr.name.eq(&String::from_str("String")) {
        Type::String
    } else if tr.name.eq(&String::from_str("Boolean")) {
        Type::Boolean
    } else if tr.name.eq(&String::from_str("Object")) {
        Type::Object
    } else if tr.name.eq(&String::from_str("Vector")) && tr.args.len() > 0 {
        Type::Vector(Box::new(Type::Unknown))
    } else if tr.name.eq(&String::from_str("Iterable")) && tr.args.len() > 0 {
        Type::Iterable(Box::new(Type::Unknown))
    } else if registry.types.contains_key(name) || registry.protocols.contains_key(name) {
        Type::Named(tr.name.clone())
    } else {
        Type::Unknown
    }
}

/// Values of `ty` are reached through a protocol view: a named protocol, or an iterable.
pub fn is_protocol_or_iterable(ty: &Type, registry: &TypeRegistry) -> (r: bool)
    ensures
        r == ((ty matches Type::Named(n) && registry.protocols@.contains_key(n@)) || ty is Iterable),
{
    match ty {
        Type::Named(_) => registry.is_protocol(ty),
        Type::Iterable(_) => true,
        _ => false,
    }
}

} // verus!
