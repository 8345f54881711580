//! Type registry: the global knowledge base of the types, protocols and
//! functions known to a HULK program, builtins included.
use vstd::prelude::*;

use crate::ast::{Expr, SourceSpan};
use crate::name_map::{map_get, NameMap};
use crate::semantic::types::{same_type, Type};

verus! {

/// The global registry of types, protocols, and functions.
#[derive(Debug)]
pub struct TypeRegistry {
    /// All user-defined and builtin types, keyed by their name.
    pub types: NameMap<TypeInfo>,
    /// All user-defined and builtin protocols, keyed by protocol name.
    pub protocols: NameMap<ProtocolInfo>,
    /// All user-defined and builtin global functions, keyed by function name.
    pub functions: NameMap<FunctionSignature>,
}

/// Information about a `type` declaration.
#[derive(Debug)]
pub struct TypeInfo {
    pub name: String,
    /// Constructor parameters of the type.
    pub params: Vec<(String, Type)>,
    /// Parent type and its constructor arguments, as written in source.
    pub parent: Option<ParentLink>,
    /// Own attributes (not yet including inherited ones).
    pub attributes: NameMap<AttributeInfo>,
    /// Own methods (not yet including inherited ones).
    pub methods: NameMap<MethodSignature>,
    /// Flattened method table (own + inherited).
    pub flattened_methods: NameMap<MethodSignature>,
    /// Marks the builtin value types (`Number`, `String`, `Boolean`), from
    /// which no type may inherit.
    pub is_builtin_value: bool,
    pub span: SourceSpan,
}

/// The `inherits Base(args)` clause, as written in source.
#[derive(Debug)]
pub struct ParentLink {
    pub name: String,
    pub args: Vec<Expr>,
}

/// Information about an attribute (field) of a type.
#[derive(Debug)]
pub struct AttributeInfo {
    /// `None` until inferred.
    pub declared_type: Option<Type>,
    pub span: SourceSpan,
}

/// Signature of a method (or protocol method).
#[derive(Debug)]
pub struct MethodSignature {
    pub params: Vec<(String, Type)>,
    pub return_type: Type,
    /// Owning type name, for `base` resolution.
    pub defined_in: String,
    pub span: SourceSpan,
}

/// Information about a `protocol` declaration.
#[derive(Debug)]
pub struct ProtocolInfo {
    pub name: String,
    /// Names of the protocols this one extends.
    pub extends: Vec<String>,
    pub methods: NameMap<MethodSignature>,
    pub flattened_methods: NameMap<MethodSignature>,
    pub span: SourceSpan,
}

/// Signature of a global function (builtin or user-defined).
#[derive(Debug)]
pub struct FunctionSignature {
    pub params: Vec<(String, Type)>,
    pub return_type: Type,
    pub span: SourceSpan,
}

/// Parameters by name and type.
pub open spec fn params_view(ps: Seq<(String, Type)>) -> Seq<(Seq<char>, Type)> {
    ps.map_values(|p: (String, Type)| (p.0@, p.1))
}

/// The name of the parent of a type, if it has one.
pub open spec fn parent_name(p: Option<ParentLink>) -> Option<Seq<char>> {
    match p {
        Some(link) => Some(link.name@),
        None => None,
    }
}

/// `ancestor` lies on the parent chain that starts at `current`, followed
/// through registered types for at most `fuel` types.
pub open spec fn reaches(types: Map<Seq<char>, TypeInfo>, ancestor: Seq<char>, current: Seq<char>, fuel: nat) -> bool
    decreases fuel,
{
    if fuel == 0 || !types.contains_key(current) {
        false
    } else if current == ancestor {
        true
    } else {
        match types[current].parent {
            Some(p) => reaches(types, ancestor, p.name@, (fuel - 1) as nat),
            None => false,
        }
    }
}

/// Two optional types are both absent, or both present and the same type.
pub open spec fn same_optional_type(a: Option<Type>, b: Option<Type>) -> bool {
    match (a, b) {
        (None, None) => true,
        (Some(x), Some(y)) => same_type(x, y),
        _ => false,
    }
}

/// `a` is a copy of the attribute `b`.
pub open spec fn attribute_copy(a: AttributeInfo, b: AttributeInfo) -> bool {
    a.span == b.span && same_optional_type(a.declared_type, b.declared_type)
}

/// `a` is a copy of the signature `b`: the same parameter names and types,
/// return type, declaring type and span.
pub open spec fn signature_copy(a: MethodSignature, b: MethodSignature) -> bool {
    &&& a.params@.len() == b.params@.len()
    &&& forall|k: int| 0 <= k < a.params@.len() ==> #[trigger] a.params@[k].0@ == b.params@[k].0@ && same_type(a.params@[k].1, b.params@[k].1)
    &&& same_type(a.return_type, b.return_type)
    &&& a.defined_in@ == b.defined_in@
    &&& a.span == b.span
}

impl AttributeInfo {
    /// A copy of the attribute.
    pub fn duplicate(&self) -> (r: AttributeInfo)
        ensures
            attribute_copy(r, *self),
    {
        let declared_type = match &self.declared_type {
            Some(t) => Some(t.duplicate()),
            None => None,
        };
        AttributeInfo { declared_type, span: self.span }
    }
}

impl MethodSignature {
    /// A copy of the signature.
    pub fn duplicate(&self) -> (r: MethodSignature)
        ensures
            signature_copy(r, *self),
    {
        let mut params: Vec<(String, Type)> = Vec::new();
        let mut i: usize = 0;
        while i < self.params.len()
            invariant
                0 <= i <= self.params@.len(),
                params@.len() == i,
                forall|k: int| 0 <= k < i ==> #[trigger] params@[k].0@ == self.params@[k].0@ && same_type(params@[k].1, self.params@[k].1),
            decreases self.params.len() - i,
        {
            let name = self.params[i].0.clone();
            let t = self.params[i].1.duplicate();
            params.push((name, t));
            i = i + 1;
        }
        MethodSignature {
            params,
            return_type: self.return_type.duplicate(),
            defined_in: self.defined_in.clone(),
            span: self.span,
        }
    }
}

impl TypeRegistry {
    /// Look up a type by name.
    pub fn lookup_type(&self, name: &str) -> (r: Option<&TypeInfo>)
        ensures
            crate::name_map::found_value(r) == map_get(self.types@, name@),
    {
        self.types.get(name)
    }

    /// Look up a protocol by name.
    pub fn lookup_protocol(&self, name: &str) -> (r: Option<&ProtocolInfo>)
        ensures
            crate::name_map::found_value(r) == map_get(self.protocols@, name@),
    {
        self.protocols.get(name)
    }

    /// Look up a function by name.
    pub fn lookup_function(&self, name: &str) -> (r: Option<&FunctionSignature>)
        ensures
            crate::name_map::found_value(r) == map_get(self.functions@, name@),
    {
        self.functions.get(name)
    }

    /// Returns `true` if the given type names a protocol.
    pub fn is_protocol(&self, ty: &Type) -> (r: bool)
        ensures
            r == (ty matches Type::Named(n) && self.protocols@.contains_key(n@)),
    {
        match ty {
            Type::Named(name) => self.protocols.contains_key(name.as_str()),
            _ => false,
        }
    }

    /// Returns `true` if `ancestor` is a nominal ancestor of `descendant` (or
    /// `descendant` itself): walks the parent chain of `descendant` through
    /// registered types. The walk visits at most one more type than there are
    /// types; a longer chain runs in a cycle, which never reaches `ancestor`.
    pub fn is_ancestor(&self, ancestor: &str, descendant: &str) -> (r: bool)
        ensures
            r == reaches(self.types@, ancestor@, descendant@, self.types.size() + 1),
    {
        let ghost types = self.types@;
        let target = ancestor.to_owned();
        let mut current = descendant.to_owned();
        let mut remaining: usize = self.types.len();
        loop
            invariant
                types == self.types@,
                target@ == ancestor@,
                reaches(types, ancestor@, descendant@, self.types.size() + 1) == reaches(
                    types,
                    ancestor@,
                    current@,
                    remaining as nat + 1,
                ),
            decreases remaining,
        {
            let info = match self.types.get(current.as_str()) {
                Some(info) => info,
                None => return false,
            };
            if current.eq(&target) {
                return true;
            }
            match &info.parent {
                Some(parent) => {
                    if remaining == 0 {
                        assert(!reaches(types, ancestor@, parent.name@, 0));
                        return false;
                    }
                    current = parent.name.clone();
                    remaining = remaining - 1;
                },
                None => return false,
            }
        }
    }

    /// Returns the parent name of a type, if any.
    pub fn parent_of(&self, ty_name: &str) -> (r: Option<String>)
        ensures
            match r {
                Some(p) => self.types@.contains_key(ty_name@) && parent_name(self.types@[ty_name@].parent)
                    == Some(p@),
                None => !self.types@.contains_key(ty_name@) || self.types@[ty_name@].parent is None,
            },
    {
        match self.lookup_type(ty_name) {
            Some(info) => match &info.parent {
                Some(parent) => Some(parent.name.clone()),
                None => None,
            },
            None => None,
        }
    }
}

// ---------------------------------------------------------------------------
// Builtin seeding
// ---------------------------------------------------------------------------

/// `t` describes the type `name` with parent `parent`.
pub open spec fn describes_type(t: TypeInfo, name: Seq<char>, parent: Option<Seq<char>>, is_value: bool) -> bool {
    &&& t.name@ == name
    &&& parent_name(t.parent) == parent
    &&& t.is_builtin_value == is_value
    &&& t.attributes@ == Map::<Seq<char>, AttributeInfo>::empty()
    &&& t.flattened_methods@ == Map::<Seq<char>, MethodSignature>::empty()
    &&& t.span == SourceSpan { line: 0, col: 0 }
}

/// `m` binds `name` to a method without parameters returning `ret`, defined in `owner`.
pub open spec fn has_method(m: Map<Seq<char>, MethodSignature>, name: Seq<char>, ret: Type, owner: Seq<char>) -> bool {
    &&& m.contains_key(name)
    &&& m[name].params@.len() == 0
    &&& m[name].return_type == ret
    &&& m[name].defined_in@ == owner
    &&& m[name].span == SourceSpan { line: 0, col: 0 }
}

/// `f` binds `name` to a function with parameters `params` returning `ret`.
pub open spec fn has_function(f: Map<Seq<char>, FunctionSignature>, name: Seq<char>, params: Seq<(Seq<char>, Type)>, ret: Type) -> bool {
    &&& f.contains_key(name)
    &&& params_view(f[name].params@) == params
    &&& f[name].return_type == ret
    &&& f[name].span == SourceSpan { line: 0, col: 0 }
}

/// The builtin types: `Object` is the root; `Number`, `String` and `Boolean`
/// inherit it and are value types; `Range(min: Number, max: Number)` inherits
/// it and iterates over numbers.
pub open spec fn builtin_types_hold(t: Map<Seq<char>, TypeInfo>) -> bool {
    &&& t.dom() == set!["Object"@, "Number"@, "String"@, "Boolean"@, "Range"@]
    &&& describes_type(t["Object"@], "Object"@, None, false)
    &&& t["Object"@].methods@ == Map::<Seq<char>, MethodSignature>::empty()
    &&& t["Object"@].params@.len() == 0
    &&& describes_type(t["Number"@], "Number"@, Some("Object"@), true)
    &&& describes_type(t["String"@], "String"@, Some("Object"@), true)
    &&& describes_type(t["Boolean"@], "Boolean"@, Some("Object"@), true)
    &&& t["Number"@].methods@ == Map::<Seq<char>, MethodSignature>::empty()
    &&& t["String"@].methods@ == Map::<Seq<char>, MethodSignature>::empty()
    &&& t["Boolean"@].methods@ == Map::<Seq<char>, MethodSignature>::empty()
    &&& t["Number"@].params@.len() == 0
    &&& t["String"@].params@.len() == 0
    &&& t["Boolean"@].params@.len() == 0
    &&& describes_type(t["Range"@], "Range"@, Some("Object"@), false)
    &&& params_view(t["Range"@].params@) == seq![("min"@, Type::Number), ("max"@, Type::Number)]
    &&& t["Range"@].methods@.dom() == set!["current"@, "next"@]
    &&& has_method(t["Range"@].methods@, "current"@, Type::Number, "Range"@)
    &&& has_method(t["Range"@].methods@, "next"@, Type::Boolean, "Range"@)
}

/// A builtin protocol extends nothing, has an empty flattened table and no
/// source location.
pub open spec fn builtin_protocol_frame(p: ProtocolInfo) -> bool {
    &&& p.extends@.len() == 0
    &&& p.flattened_methods@ == Map::<Seq<char>, MethodSignature>::empty()
    &&& p.span == SourceSpan { line: 0, col: 0 }
}

/// The builtin protocols `Iterable` (`next`, `current`) and `Enumerable` (`iter`).
pub open spec fn builtin_protocols_hold(p: Map<Seq<char>, ProtocolInfo>) -> bool {
    &&& p.dom() == set!["Iterable"@, "Enumerable"@]
    &&& builtin_protocol_frame(p["Iterable"@])
    &&& builtin_protocol_frame(p["Enumerable"@])
    &&& p["Iterable"@].name@ == "Iterable"@
    &&& p["Iterable"@].methods@.dom() == set!["next"@, "current"@]
    &&& has_method(p["Iterable"@].methods@, "next"@, Type::Boolean, "Iterable"@)
    &&& has_method(p["Iterable"@].methods@, "current"@, Type::Object, "Iterable"@)
    &&& p["Enumerable"@].name@ == "Enumerable"@
    &&& p["Enumerable"@].methods@.dom() == set!["iter"@]
    &&& has_method(p["Enumerable"@].methods@, "iter"@, Type::Iterable(Box::new(Type::Object)), "Enumerable"@)
}

/// The builtin functions `print`, `sqrt`, `sin`, `cos`, `exp`, `log`, `rand`,
/// `range`, and the constants `PI` and `E` as functions without parameters.
pub open spec fn builtin_functions_hold(f: Map<Seq<char>, FunctionSignature>) -> bool {
    let x = seq![("x"@, Type::Number)];
    &&& f.dom() == set!["print"@, "sqrt"@, "sin"@, "cos"@, "exp"@, "log"@, "rand"@, "range"@, "PI"@, "E"@]
    &&& has_function(f, "print"@, seq![("x"@, Type::Object)], Type::Object)
    &&& has_function(f, "sqrt"@, x, Type::Number)
    &&& has_function(f, "sin"@, x, Type::Number)
    &&& has_function(f, "cos"@, x, Type::Number)
    &&& has_function(f, "exp"@, x, Type::Number)
    &&& has_function(f, "log"@, seq![("base"@, Type::Number), ("x"@, Type::Number)], Type::Number)
    &&& has_function(f, "rand"@, Seq::empty(), Type::Number)
    &&& params_view(f["range"@].params@) == seq![("min"@, Type::Number), ("max"@, Type::Number)]
    &&& f["range"@].span == SourceSpan { line: 0, col: 0 }
    &&& (f["range"@].return_type matches Type::Named(n) && n@ == "Range"@)
    &&& has_function(f, "PI"@, Seq::empty(), Type::Number)
    &&& has_function(f, "E"@, Seq::empty(), Type::Number)
}

/// The builtins of HULK: their types, protocols and functions.
pub open spec fn seeded_builtins(r: TypeRegistry) -> bool {
    &&& builtin_types_hold(r.types@)
    &&& builtin_protocols_hold(r.protocols@)
    &&& builtin_functions_hold(r.functions@)
}

fn builtin_span() -> (r: SourceSpan)
    ensures
        r == (SourceSpan { line: 0, col: 0 }),
{
    SourceSpan::new(0, 0)
}

/// A method without parameters returning `return_type`, defined in `owner`.
fn builtin_method(return_type: Type, owner: &str) -> (r: MethodSignature)
    ensures
        r.params@.len() == 0,
        r.return_type == return_type,
        r.defined_in@ == owner@,
        r.span == (SourceSpan { line: 0, col: 0 }),
{
    MethodSignature { params: Vec::new(), return_type, defined_in: owner.to_owned(), span: builtin_span() }
}

/// The parameter `name: Number`.
fn number_param(name: &str) -> (r: (String, Type))
    ensures
        r.0@ == name@,
        r.1 == Type::Number,
{
    (name.to_owned(), Type::Number)
}

/// The parameter list `(x: Number)`.
fn x_param() -> (r: Vec<(String, Type)>)
    ensures
        params_view(r@) == seq![("x"@, Type::Number)],
{
    let mut params: Vec<(String, Type)> = Vec::new();
    params.push(number_param("x"));
    proof {
        assert(params_view(params@) =~= seq![("x"@, Type::Number)]);
    }
    params
}

/// The parameter list `(min: Number, max: Number)`.
fn bounds_params() -> (r: Vec<(String, Type)>)
    ensures
        params_view(r@) == seq![("min"@, Type::Number), ("max"@, Type::Number)],
{
    let mut params: Vec<(String, Type)> = Vec::new();
    params.push(number_param("min"));
    params.push(number_param("max"));
    proof {
        assert(params_view(params@) =~= seq![("min"@, Type::Number), ("max"@, Type::Number)]);
    }
    params
}

/// A builtin type: no parameters, no attributes and no methods unless given.
fn builtin_type(
    name: &str,
    parent: Option<&str>,
    params: Vec<(String, Type)>,
    methods: NameMap<MethodSignature>,
    is_builtin_value: bool,
) -> (r: TypeInfo)
    ensures
        describes_type(
            r,
            name@,
            match parent {
                Some(p) => Some(p@),
                None => None,
            },
            is_builtin_value,
        ),
        r.params == params,
        r.methods == methods,
{
    TypeInfo {
        name: name.to_owned(),
        params,
        parent: match parent {
            Some(p) => Some(ParentLink { name: p.to_owned(), args: Vec::new() }),
            None => None,
        },
        attributes: NameMap::new(),
        methods,
        flattened_methods: NameMap::new(),
        is_builtin_value,
        span: builtin_span(),
    }
}

/// A function signature with the given parameters and return type.
fn builtin_function(params: Vec<(String, Type)>, return_type: Type) -> (r: FunctionSignature)
    ensures
        r.params == params,
        r.return_type == return_type,
        r.span == (SourceSpan { line: 0, col: 0 }),
{
    FunctionSignature { params, return_type, span: builtin_span() }
}

/// The builtin types, `Object` first.
#[verifier::rlimit(40)]
fn builtin_types() -> (r: NameMap<TypeInfo>)
    ensures
        builtin_types_hold(r@),
        r.size() == 5,
{
    proof {
        reveal_strlit("Object");
        reveal_strlit("Number");
        reveal_strlit("String");
        reveal_strlit("Boolean");
        reveal_strlit("Range");
        reveal_strlit("current");
        reveal_strlit("next");
        assert("Object"@[0] == 'O' && "Number"@[0] == 'N' && "String"@[0] == 'S');
        assert("Boolean"@[0] == 'B' && "Range"@[0] == 'R');
        assert("current"@[0] == 'c' && "next"@[0] == 'n');
    }
    let mut types: NameMap<TypeInfo> = NameMap::new();
    types.insert(String::from_str("Object"), builtin_type("Object", None, Vec::new(), NameMap::new(), false));
    types.insert(String::from_str("Number"), builtin_type("Number", Some("Object"), Vec::new(), NameMap::new(), true));
    types.insert(String::from_str("String"), builtin_type("String", Some("Object"), Vec::new(), NameMap::new(), true));
    types.insert(
        String::from_str("Boolean"),
        builtin_type("Boolean", Some("Object"), Vec::new(), NameMap::new(), true),
    );
    let mut range_methods: NameMap<MethodSignature> = NameMap::new();
    range_methods.insert(String::from_str("current"), builtin_method(Type::Number, "Range"));
    range_methods.insert(String::from_str("next"), builtin_method(Type::Boolean, "Range"));
    types.insert(String::from_str("Range"), builtin_type("Range", Some("Object"), bounds_params(), range_methods, false));
    proof {
        assert(types@.dom() =~= set!["Object"@, "Number"@, "String"@, "Boolean"@, "Range"@]);
        assert(types@["Range"@].methods@.dom() =~= set!["current"@, "next"@]);
    }
    types
}

/// The builtin protocols, `Iterable` first.
fn builtin_protocols() -> (r: NameMap<ProtocolInfo>)
    ensures
        builtin_protocols_hold(r@),
        r.size() == 2,
{
    proof {
        reveal_strlit("Iterable");
        reveal_strlit("Enumerable");
        reveal_strlit("next");
        reveal_strlit("current");
        reveal_strlit("iter");
        assert("Iterable"@[0] == 'I' && "Enumerable"@[0] == 'E');
        assert("next"@[0] == 'n' && "current"@[0] == 'c');
    }
    let mut iterable_methods: NameMap<MethodSignature> = NameMap::new();
    iterable_methods.insert(String::from_str("next"), builtin_method(Type::Boolean, "Iterable"));
    iterable_methods.insert(String::from_str("current"), builtin_method(Type::Object, "Iterable"));
    let mut enumerable_methods: NameMap<MethodSignature> = NameMap::new();
    enumerable_methods.insert(
        String::from_str("iter"),
        builtin_method(Type::Iterable(Box::new(Type::Object)), "Enumerable"),
    );
    let mut protocols: NameMap<ProtocolInfo> = NameMap::new();
    protocols.insert(
        String::from_str("Iterable"),
        ProtocolInfo {
            name: String::from_str("Iterable"),
            extends: Vec::new(),
            methods: iterable_methods,
            flattened_methods: NameMap::new(),
            span: builtin_span(),
        },
    );
    protocols.insert(
        String::from_str("Enumerable"),
        ProtocolInfo {
            name: String::from_str("Enumerable"),
            extends: Vec::new(),
            methods: enumerable_methods,
            flattened_methods: NameMap::new(),
            span: builtin_span(),
        },
    );
    proof {
        assert(protocols@.dom() =~= set!["Iterable"@, "Enumerable"@]);
        assert(protocols@["Iterable"@].methods@.dom() =~= set!["next"@, "current"@]);
        assert(protocols@["Enumerable"@].methods@.dom() =~= set!["iter"@]);
    }
    protocols
}

/// The builtin functions, `print` first.
#[verifier::rlimit(60)]
fn builtin_functions() -> (r: NameMap<FunctionSignature>)
    ensures
        builtin_functions_hold(r@),
        r.size() == 10,
{
    proof {
        reveal_strlit("print");
        reveal_strlit("sqrt");
        reveal_strlit("sin");
        reveal_strlit("cos");
        reveal_strlit("exp");
        reveal_strlit("log");
        reveal_strlit("rand");
        reveal_strlit("range");
        reveal_strlit("PI");
        reveal_strlit("E");
        reveal_strlit("x");
        reveal_strlit("base");
        reveal_strlit("Range");
        assert("print"@[0] == 'p' && "sqrt"@[0] == 's' && "sin"@[0] == 's' && "cos"@[0] == 'c');
        assert("exp"@[0] == 'e' && "log"@[0] == 'l' && "rand"@[0] == 'r' && "range"@[0] == 'r');
        assert("sqrt"@.len() != "sin"@.len() && "rand"@[3] == 'd' && "range"@[3] == 'g');
        assert("PI"@[0] == 'P' && "E"@.len() == 1);
    }
    let mut functions: NameMap<FunctionSignature> = NameMap::new();
    let mut print_params: Vec<(String, Type)> = Vec::new();
    print_params.push((String::from_str("x"), Type::Object));
    let mut log_params: Vec<(String, Type)> = Vec::new();
    log_params.push(number_param("base"));
    log_params.push(number_param("x"));
    proof {
        assert(params_view(print_params@) =~= seq![("x"@, Type::Object)]);
        assert(params_view(log_params@) =~= seq![("base"@, Type::Number), ("x"@, Type::Number)]);
    }
    functions.insert(String::from_str("print"), builtin_function(print_params, Type::Object));
    functions.insert(String::from_str("sqrt"), builtin_function(x_param(), Type::Number));
    functions.insert(String::from_str("sin"), builtin_function(x_param(), Type::Number));
    functions.insert(String::from_str("cos"), builtin_function(x_param(), Type::Number));
    functions.insert(String::from_str("exp"), builtin_function(x_param(), Type::Number));
    functions.insert(String::from_str("log"), builtin_function(log_params, Type::Number));
    functions.insert(String::from_str("rand"), builtin_function(Vec::new(), Type::Number));
    functions.insert(
        String::from_str("range"),
        builtin_function(bounds_params(), Type::Named(String::from_str("Range"))),
    );
    functions.insert(String::from_str("PI"), builtin_function(Vec::new(), Type::Number));
    functions.insert(String::from_str("E"), builtin_function(Vec::new(), Type::Number));
    proof {
        assert(params_view(functions@["rand"@].params@) =~= Seq::empty());
        assert(params_view(functions@["PI"@].params@) =~= Seq::empty());
        assert(params_view(functions@["E"@].params@) =~= Seq::empty());
        assert(functions@.dom() =~= set!["print"@, "sqrt"@, "sin"@, "cos"@, "exp"@, "log"@, "rand"@, "range"@, "PI"@, "E"@]);
    }
    functions
}

/// Returns a registry pre-populated with all HULK builtins.
pub fn seeded_registry() -> (r: TypeRegistry)
    ensures
        seeded_builtins(r),
        r.types.size() == 5,
        r.protocols.size() == 2,
        r.functions.size() == 10,
{
    TypeRegistry { types: builtin_types(), protocols: builtin_protocols(), functions: builtin_functions() }
}

/// A type is an ancestor of itself once it is registered.
pub proof fn lemma_ancestor_reflexive(types: Map<Seq<char>, TypeInfo>, name: Seq<char>, fuel: nat)
    requires
        types.contains_key(name),
        fuel > 0,
    ensures
        reaches(types, name, name, fuel),
{
}

/// The parent of a registered type, and every ancestor of that parent, is an
/// ancestor of the type.
pub proof fn lemma_ancestor_through_parent(
    types: Map<Seq<char>, TypeInfo>,
    ancestor: Seq<char>,
    name: Seq<char>,
    fuel: nat,
)
    requires
        types.contains_key(name),
        types[name].parent is Some,
        name != ancestor,
        reaches(types, ancestor, types[name].parent->Some_0.name@, fuel),
    ensures
        reaches(types, ancestor, name, fuel + 1),
{
}

} // verus!
