//! Semantic types of HULK expressions.
use vstd::prelude::*;

use crate::text::join_text;

verus! {

/// The type of a HULK expression as seen by the semantic passes.
#[derive(Debug, PartialEq)]
pub enum Type {
    /// The builtin value type `Number`.
    Number,
    /// The builtin value type `String`.
    String,
    /// The builtin value type `Boolean`.
    Boolean,
    /// The root of the nominal hierarchy.
    Object,
    /// A user-defined type or protocol, or a builtin one such as `Range`.
    Named(String),
    /// `Vector<T>`.
    Vector(Box<Type>),
    /// `Iterable<T>`.
    Iterable(Box<Type>),
    /// A function value.
    Function { params: Vec<Type>, return_type: Box<Type> },
    /// Not inferred yet.
    Unknown,
    /// The type of an expression that already produced an error.
    Error,
}

/// How a type is written in diagnostics.
pub open spec fn type_name_text(t: Type) -> Seq<char>
    decreases t,
{
    match t {
        Type::Number => "Number"@,
        Type::String => "String"@,
        Type::Boolean => "Boolean"@,
        Type::Object => "Object"@,
        Type::Named(n) => n@,
        Type::Vector(inner) => "Vector<"@ + type_name_text(*inner) + ">"@,
        Type::Iterable(inner) => "Iterable<"@ + type_name_text(*inner) + ">"@,
        Type::Function { params, return_type } => "("@ + join_text(type_name_texts(params@), ", "@) + ") -> "@
            + type_name_text(*return_type),
        Type::Unknown => "Unknown"@,
        Type::Error => "Error"@,
    }
}

/// The renderings of a sequence of types.
pub open spec fn type_name_texts(s: Seq<Type>) -> Seq<Seq<char>>
    decreases s,
{
    if s.len() == 0 {
        Seq::empty()
    } else {
        type_name_texts(s.drop_last()).push(type_name_text(s.last()))
    }
}

pub proof fn lemma_type_name_texts_push(s: Seq<Type>, t: Type)
    ensures
        type_name_texts(s.push(t)) == type_name_texts(s).push(type_name_text(t)),
{
    assert(s.push(t).drop_last() =~= s);
}

impl Type {
    /// The type as written in diagnostics.
    pub fn to_string(&self) -> (r: String)
        ensures
            r@ == type_name_text(*self),
        decreases self,
    {
        match self {
            Type::Number => String::from_str("Number"),
            Type::String => String::from_str("String"),
            Type::Boolean => String::from_str("Boolean"),
            Type::Object => String::from_str("Object"),
            Type::Named(n) => n.clone(),
            Type::Vector(inner) => {
                let mut out = String::from_str("Vector<");
                out.append(inner.to_string().as_str());
                out.append(">");
                out
            },
            Type::Iterable(inner) => {
                let mut out = String::from_str("Iterable<");
                out.append(inner.to_string().as_str());
                out.append(">");
                out
            },
            Type::Function { params, return_type } => {
                let mut out = String::from_str("(");
                let rendered = render_types(params);
                out.append(crate::text::join(&rendered, ", ").as_str());
                out.append(") -> ");
                out.append(return_type.to_string().as_str());
                out
            },
            Type::Unknown => String::from_str("Unknown"),
            Type::Error => String::from_str("Error"),
        }
    }
}

/// The renderings of `types`, in order.
pub fn render_types(types: &Vec<Type>) -> (r: Vec<String>)
    ensures
        crate::text::texts(r@) == type_name_texts(types@),
    decreases types@,
{
    let mut out: Vec<String> = Vec::new();
    let mut i: usize = 0;
    while i < types.len()
        invariant
            0 <= i <= types.len(),
            crate::text::texts(out@) == type_name_texts(types@.take(i as int)),
        decreases types.len() - i,
    {
        proof {
            assert(types@.take(i as int + 1) =~= types@.take(i as int).push(types@[i as int]));
            lemma_type_name_texts_push(types@.take(i as int), types@[i as int]);
        }
        assert(decreases_to!(types@ => types@[i as int]));
        let s = types[i].to_string();
        proof {
            assert(crate::text::texts(out@.push(s)) =~= crate::text::texts(out@).push(s@));
        }
        out.push(s);
        i = i + 1;
    }
    proof {
        assert(types@.take(types@.len() as int) =~= types@);
    }
    out
}


/// Two types are the same: the same variant, with the same names and the
/// same component types.
pub open spec fn same_type(a: Type, b: Type) -> bool
    decreases a,
{
    match a {
        Type::Number => b is Number,
        Type::String => b is String,
        Type::Boolean => b is Boolean,
        Type::Object => b is Object,
        Type::Named(x) => b matches Type::Named(y) && x@ == y@,
        Type::Vector(x) => b matches Type::Vector(y) && same_type(*x, *y),
        Type::Iterable(x) => b matches Type::Iterable(y) && same_type(*x, *y),
        Type::Function { params, return_type } => b matches Type::Function { params: q, return_type: r }
            && same_types(params@, q@) && same_type(*return_type, *r),
        Type::Unknown => b is Unknown,
        Type::Error => b is Error,
    }
}

/// Two sequences of types have the same length and the same types, in order.
pub open spec fn same_types(s: Seq<Type>, t: Seq<Type>) -> bool
    decreases s,
{
    if s.len() == 0 {
        t.len() == 0
    } else {
        t.len() == s.len() && same_types(s.drop_last(), t.drop_last()) && same_type(s.last(), t.last())
    }
}

/// `same_types` compares position by position.
pub proof fn lemma_same_types_pointwise(s: Seq<Type>, t: Seq<Type>)
    ensures
        same_types(s, t) <==> (s.len() == t.len() && forall|k: int| 0 <= k < s.len() ==> same_type(#[trigger] s[k], t[k])),
    decreases s.len(),
{
    if s.len() > 0 && t.len() == s.len() {
        lemma_same_types_pointwise(s.drop_last(), t.drop_last());
        if forall|k: int| 0 <= k < s.len() ==> same_type(#[trigger] s[k], t[k]) {
            assert forall|k: int| 0 <= k < s.drop_last().len() implies same_type(#[trigger] s.drop_last()[k], t.drop_last()[k]) by {
                assert(same_type(s[k], t[k]));
            }
            assert(same_type(s[s.len() - 1], t[t.len() - 1]));
        }
        if same_types(s, t) {
            assert forall|k: int| 0 <= k < s.len() implies same_type(#[trigger] s[k], t[k]) by {
                if k < s.len() - 1 {
                    assert(same_type(s.drop_last()[k], t.drop_last()[k]));
                }
            }
        }
    }
}

impl Clone for Type {
    /// A copy of the type (see `duplicate`).
    fn clone(&self) -> (r: Self)
        ensures
            same_type(r, *self),
    {
        self.duplicate()
    }
}

impl Type {
    /// A copy of the type.
    #[verifier::loop_isolation(false)]
    pub fn duplicate(&self) -> (r: Type)
        ensures
            same_type(r, *self),
        decreases self,
    {
        match self {
            Type::Number => Type::Number,
            Type::String => Type::String,
            Type::Boolean => Type::Boolean,
            Type::Object => Type::Object,
            Type::Named(n) => Type::Named(n.clone()),
            Type::Vector(x) => Type::Vector(Box::new(x.duplicate())),
            Type::Iterable(x) => Type::Iterable(Box::new(x.duplicate())),
            Type::Function { params, return_type } => {
                let mut copies: Vec<Type> = Vec::new();
                let mut i: usize = 0;
                while i < params.len()
                    invariant
                        0 <= i <= params.len(),
                        copies@.len() == i,
                        forall|k: int| 0 <= k < i ==> same_type(#[trigger] copies@[k], params@[k]),
                    decreases params.len() - i,
                {
                    proof {
                        assert(decreases_to!(*self => *params));
                        assert(decreases_to!(*params => params@));
                        assert(decreases_to!(params@ => params@[i as int]));
                    }
                    let t = params[i].duplicate();
                    copies.push(t);
                    i = i + 1;
                }
                proof {
                    lemma_same_types_pointwise(copies@, params@);
                }
                Type::Function { params: copies, return_type: Box::new(return_type.duplicate()) }
            },
            Type::Unknown => Type::Unknown,
            Type::Error => Type::Error,
        }
    }
}

/// Every type is the same as itself.
pub proof fn lemma_same_type_reflexive(t: Type)
    ensures
        same_type(t, t),
    decreases t,
{
    match t {
        Type::Vector(x) => lemma_same_type_reflexive(*x),
        Type::Iterable(x) => lemma_same_type_reflexive(*x),
        Type::Function { params, return_type } => {
            assert forall|k: int| 0 <= k < params@.len() implies same_type(#[trigger] params@[k], params@[k]) by {
                assert(decreases_to!(t => params));
                assert(decreases_to!(params => params@));
                assert(decreases_to!(params@ => params@[k]));
                lemma_same_type_reflexive(params@[k]);
            }
            lemma_same_types_pointwise(params@, params@);
            lemma_same_type_reflexive(*return_type);
        },
        _ => {},
    }
}

/// Being the same type does not depend on the order of the two types.
pub proof fn lemma_same_type_symmetric(a: Type, b: Type)
    requires
        same_type(a, b),
    ensures
        same_type(b, a),
    decreases a,
{
    match (a, b) {
        (Type::Vector(x), Type::Vector(y)) => lemma_same_type_symmetric(*x, *y),
        (Type::Iterable(x), Type::Iterable(y)) => lemma_same_type_symmetric(*x, *y),
        (Type::Function { params: p, return_type: r }, Type::Function { params: q, return_type: t }) => {
            lemma_same_types_pointwise(p@, q@);
            assert forall|k: int| 0 <= k < q@.len() implies same_type(#[trigger] q@[k], p@[k]) by {
                assert(decreases_to!(a => p));
                assert(decreases_to!(p => p@));
                assert(decreases_to!(p@ => p@[k]));
                lemma_same_type_symmetric(p@[k], q@[k]);
            }
            lemma_same_types_pointwise(q@, p@);
            lemma_same_type_symmetric(*r, *t);
        },
        _ => {},
    }
}

/// Being the same type is transitive.
pub proof fn lemma_same_type_transitive(a: Type, b: Type, c: Type)
    requires
        same_type(a, b),
        same_type(b, c),
    ensures
        same_type(a, c),
    decreases a,
{
    match (a, b, c) {
        (Type::Vector(x), Type::Vector(y), Type::Vector(z)) => lemma_same_type_transitive(*x, *y, *z),
        (Type::Iterable(x), Type::Iterable(y), Type::Iterable(z)) => lemma_same_type_transitive(*x, *y, *z),
        (
            Type::Function { params: p, return_type: r },
            Type::Function { params: q, return_type: t },
            Type::Function { params: u, return_type: v },
        ) => {
            lemma_same_types_pointwise(p@, q@);
            lemma_same_types_pointwise(q@, u@);
            assert forall|k: int| 0 <= k < p@.len() implies same_type(#[trigger] p@[k], u@[k]) by {
                assert(decreases_to!(a => p));
                assert(decreases_to!(p => p@));
                assert(decreases_to!(p@ => p@[k]));
                lemma_same_type_transitive(p@[k], q@[k], u@[k]);
            }
            lemma_same_types_pointwise(p@, u@);
            lemma_same_type_transitive(*r, *t, *v);
        },
        _ => {},
    }
}

/// Decides whether `a` and `b` are the same type.
#[verifier::loop_isolation(false)]
pub fn types_equal(a: &Type, b: &Type) -> (r: bool)
    ensures
        r == same_type(*a, *b),
    decreases a,
{
    match (a, b) {
        (Type::Number, Type::Number) => true,
        (Type::String, Type::String) => true,
        (Type::Boolean, Type::Boolean) => true,
        (Type::Object, Type::Object) => true,
        (Type::Named(x), Type::Named(y)) => x.eq(y),
        (Type::Vector(x), Type::Vector(y)) => types_equal(x, y),
        (Type::Iterable(x), Type::Iterable(y)) => types_equal(x, y),
        (Type::Function { params: p, return_type: r }, Type::Function { params: q, return_type: t }) => {
            if p.len() != q.len() {
                proof {
                    lemma_same_types_pointwise(p@, q@);
                }
                return false;
            }
            let mut i: usize = 0;
            while i < p.len()
                invariant
                    0 <= i <= p.len(),
                    p.len() == q.len(),
                    forall|k: int| 0 <= k < i ==> same_type(#[trigger] p@[k], q@[k]),
                decreases p.len() - i,
            {
                proof {
                    assert(decreases_to!(*a => *p));
                    assert(decreases_to!(*p => p@));
                    assert(decreases_to!(p@ => p@[i as int]));
                }
                if !types_equal(&p[i], &q[i]) {
                    proof {
                        lemma_same_types_pointwise(p@, q@);
                    }
                    return false;
                }
                i = i + 1;
            }
            proof {
                lemma_same_types_pointwise(p@, q@);
            }
            types_equal(r, t)
        },
        (Type::Unknown, Type::Unknown) => true,
        (Type::Error, Type::Error) => true,
        _ => false,
    }
}

} // verus!
