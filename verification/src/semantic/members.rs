//! Resolution helpers of the inference and checking passes: written types to
//! semantic types, and the attributes and methods a named type offers.
use vstd::prelude::*;

use crate::ast::TypeRef;
use crate::name_map::{found_value, map_get};
use crate::semantic::registry::{MethodSignature, TypeInfo, TypeRegistry};
use crate::semantic::types::{same_type, Type};

verus! {

/// The semantic type of a written type: the builtin value types and `Object`
/// by name; `Vector<T>` and `Iterable<T>` of the resolved first argument; any
/// other name, with or without arguments, a named type.
pub open spec fn resolved_type(tr: TypeRef) -> Type
    decreases tr,
{
    if tr.name@ == "Number"@ {
        Type::Number
    } else if tr.name@ == "String"@ {
        Type::String
    } else if tr.name@ == "Boolean"@ {
        Type::Boolean
    } else if tr.name@ == "Object"@ {
        Type::Object
    } else if tr.args@.len() > 0 && tr.name@ == "Vector"@ {
        Type::Vector(Box::new(resolved_type(tr.args@[0])))
    } else if tr.args@.len() > 0 && tr.name@ == "Iterable"@ {
        Type::Iterable(Box::new(resolved_type(tr.args@[0])))
    } else {
        Type::Named(tr.name)
    }
}

/// Converts a written type to a semantic type (see `resolved_type`).
pub fn resolve_type_ref(tr: &TypeRef) -> (r: Type)
    ensures
        r == resolved_type(*tr),
    decreases tr,
{
    proof {
        reveal_strlit("Number");
        reveal_strlit("String");
        reveal_strlit("Boolean");
        reveal_strlit("Object");
        reveal_strlit("Vector");
        reveal_strlit("Iterable");
    }
    if tr.name.eq(&String::from_str("Number")) {
        Type::Number
    } else if tr.name.eq(&String::from_str("String")) {
        Type::String
    } else if tr.name.eq(&String::from_str("Boolean")) {
        Type::Boolean
    } else if tr.name.eq(&String::from_str("Object")) {
        Type::Object
    } else if tr.args.len() == 0 {
        Type::Named(tr.name.clone())
    } else {
        proof {
            assert(decreases_to!(*tr => tr.args));
            assert(decreases_to!(tr.args => tr.args@));
            assert(decreases_to!(tr.args@ => tr.args@[0]));
        }
        if tr.name.eq(&String::from_str("Vector")) {
            Type::Vector(Box::new(resolve_type_ref(&tr.args[0])))
        } else if tr.name.eq(&String::from_str("Iterable")) {
            Type::Iterable(Box::new(resolve_type_ref(&tr.args[0])))
        } else {
            Type::Named(tr.name.clone())
        }
    }
}

/// The registered type that `ty` names, if it names one.
pub open spec fn named_info(types: Map<Seq<char>, TypeInfo>, ty: Type) -> Option<TypeInfo> {
    match ty {
        Type::Named(n) => map_get(types, n@),
        _ => None,
    }
}

/// The type that declares the attribute `member` of `ty`: `ty` itself when it
/// names a registered type with that attribute.
pub fn attribute_owner(registry: &TypeRegistry, ty: &Type, member: &str) -> (r: Option<Type>)
    ensures
        r == (match named_info(registry.types@, *ty) {
            Some(info) => if info.attributes@.contains_key(member@) {
                Some(*ty)
            } else {
                None
            },
            None => None,
        }),
{
    match ty {
        Type::Named(name) => match registry.lookup_type(name.as_str()) {
            Some(info) => {
                if info.attributes.contains_key(member) {
                    Some(Type::Named(name.clone()))
                } else {
                    None
                }
            },
            None => None,
        },
        _ => None,
    }
}

/// The signature of the method `method_name` in the flattened method table
/// of the registered type that `ty` names.
pub fn lookup_method<'a>(registry: &'a TypeRegistry, ty: &Type, method_name: &str) -> (r: Option<&'a MethodSignature>)
    ensures
        found_value(r) == (match named_info(registry.types@, *ty) {
            Some(info) => map_get(info.flattened_methods@, method_name@),
            None => None,
        }),
{
    match ty {
        Type::Named(name) => match registry.lookup_type(name.as_str()) {
            Some(info) => info.flattened_methods.get(method_name),
            None => None,
        },
        _ => None,
    }
}

/// The member `member` of the registered type that `ty` names, as the pair of
/// that type and the member's type: an attribute with a declared type first,
/// else a method of the flattened table (its return type), each a copy.
pub fn lookup_member(registry: &TypeRegistry, ty: &Type, member: &str) -> (r: Option<(Type, Type)>)
    ensures
        match named_info(registry.types@, *ty) {
            Some(info) => if info.attributes@.contains_key(member@) && info.attributes@[member@].declared_type is Some {
                r matches Some((owner, t)) && owner == *ty && same_type(t, info.attributes@[member@].declared_type->Some_0)
            } else if info.flattened_methods@.contains_key(member@) {
                r matches Some((owner, t)) && owner == *ty && same_type(t, info.flattened_methods@[member@].return_type)
            } else {
                r is None
            },
            None => r is None,
        },
{
    match ty {
        Type::Named(name) => match registry.lookup_type(name.as_str()) {
            Some(info) => {
                match info.attributes.get(member) {
                    Some(attr) => match &attr.declared_type {
                        Some(declared) => {
                            return Some((Type::Named(name.clone()), declared.duplicate()));
                        },
                        None => {},
                    },
                    None => {},
                }
                match info.flattened_methods.get(member) {
                    Some(method) => Some((Type::Named(name.clone()), method.return_type.duplicate())),
                    None => None,
                }
            },
            None => None,
        },
        _ => None,
    }
}

/// The element type of an iterable named type: a copy of the return type of
/// its own `current` method.
pub fn iterable_element_type(registry: &TypeRegistry, ty: &Type) -> (r: Option<Type>)
    ensures
        match named_info(registry.types@, *ty) {
            Some(info) => if info.methods@.contains_key("current"@) {
                r matches Some(t) && same_type(t, info.methods@["current"@].return_type)
            } else {
                r is None
            },
            None => r is None,
        },
{
    match ty {
        Type::Named(name) => match registry.lookup_type(name.as_str()) {
            Some(info) => match info.methods.get("current") {
                Some(sig) => Some(sig.return_type.duplicate()),
                None => None,
            },
            None => None,
        },
        _ => None,
    }
}

} // verus!
