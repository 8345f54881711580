//! Structural pattern matching of macro arguments.
//!
//! [`try_match`] compares a macro pattern (the shape of an expression) with a
//! concrete expression. On success it returns the captures: each capture
//! variable paired with the subtree it matched. A name is never captured twice.
use vstd::prelude::*;

use crate::ast::{literal_v, BinaryOp, Expr, ExprKind, ExprKindV, ExprV, Literal, LiteralV, MacroPattern, MacroPatternBind};

verus! {

/// The bit pattern of a NaN: all exponent bits set and a non-zero fraction.
pub open spec fn is_nan_bits(x: u64) -> bool {
    &&& x & 0x7ff0_0000_0000_0000u64 == 0x7ff0_0000_0000_0000u64
    &&& x & 0x000f_ffff_ffff_ffffu64 != 0
}

/// IEEE-754 equality of the doubles whose bit patterns are `a` and `b`: a NaN
/// equals nothing, the two zeros are equal, and otherwise equal values have
/// equal bit patterns.
pub open spec fn number_eq(a: u64, b: u64) -> bool {
    &&& !is_nan_bits(a)
    &&& !is_nan_bits(b)
    &&& (a == b || (a & 0x7fff_ffff_ffff_ffffu64 == 0 && b & 0x7fff_ffff_ffff_ffffu64 == 0))
}

/// Equality of literal values (numbers by value, not by their text).
pub open spec fn literal_eq(a: LiteralV, b: LiteralV) -> bool {
    match (a, b) {
        (LiteralV::Number { bits: x, .. }, LiteralV::Number { bits: y, .. }) => number_eq(x, y),
        (LiteralV::Str(x), LiteralV::Str(y)) => x == y,
        (LiteralV::Boolean(x), LiteralV::Boolean(y)) => x == y,
        _ => false,
    }
}

/// Adds the capture `name -> e` to the result of matching the inner pattern;
/// a name captured twice makes the match fail.
pub open spec fn capture(name: Option<String>, m: Option<Map<Seq<char>, ExprV>>, e: ExprV) -> Option<Map<Seq<char>, ExprV>> {
    match m {
        None => None,
        Some(m) => match name {
            None => Some(m),
            Some(n) => if m.contains_key(n@) {
                None
            } else {
                Some(m.insert(n@, e))
            },
        },
    }
}

/// Union of the captures of two operands, which must not share a name.
pub open spec fn merge(l: Map<Seq<char>, ExprV>, r: Map<Seq<char>, ExprV>) -> Option<Map<Seq<char>, ExprV>> {
    if l.dom().disjoint(r.dom()) {
        Some(l.union_prefer_right(r))
    } else {
        None
    }
}

/// The captures that matching `p` against `e` produces, or `None` when `p`
/// does not match `e`.
pub open spec fn matches(p: MacroPattern, e: ExprV) -> Option<Map<Seq<char>, ExprV>>
    decreases p,
{
    match p {
        MacroPattern::Wildcard => Some(Map::empty()),
        MacroPattern::Literal(l) => match e.kind {
            ExprKindV::Literal(el) => if literal_eq(el, literal_v(l)) {
                Some(Map::empty())
            } else {
                None
            },
            _ => None,
        },
        MacroPattern::Bind { name, ty: _, pattern } => capture(name, matches(*pattern, e), e),
        MacroPattern::BinaryExpr { op, left, right } => match e.kind {
            ExprKindV::Binary { op: eop, left: el, right: er } => if eop == op {
                match (matches_bind(*left, *el), matches_bind(*right, *er)) {
                    (Some(lm), Some(rm)) => merge(lm, rm),
                    _ => None,
                }
            } else {
                None
            },
            _ => None,
        },
        MacroPattern::UnaryExpr { op, operand } => match e.kind {
            ExprKindV::Unary { op: eop, expr } => if eop == op {
                matches_bind(*operand, *expr)
            } else {
                None
            },
            _ => None,
        },
    }
}

/// Matching of an operand position: the inner pattern, then the capture of its name.
pub open spec fn matches_bind(b: MacroPatternBind, e: ExprV) -> Option<Map<Seq<char>, ExprV>>
    decreases b,
{
    capture(b.name, matches(b.pattern, e), e)
}

/// The captures held by a vector of (name, subtree) pairs.
pub open spec fn captures_map<'a>(s: Seq<(String, &'a Expr)>) -> Map<Seq<char>, ExprV>
    decreases s.len(),
{
    if s.len() == 0 {
        Map::empty()
    } else {
        captures_map(s.drop_last()).insert(s.last().0@, s.last().1@)
    }
}

/// No name occurs twice.
pub open spec fn distinct_names<'a>(s: Seq<(String, &'a Expr)>) -> bool {
    forall|i: int, j: int| 0 <= i < j < s.len() ==> s[i].0@ != s[j].0@
}

/// The model of a match result: `None`, or the captures of a vector without a repeated name.
pub open spec fn captures_v<'a>(r: Option<Vec<(String, &'a Expr)>>) -> Option<Map<Seq<char>, ExprV>> {
    match r {
        None => None,
        Some(v) => Some(captures_map(v@)),
    }
}

pub open spec fn well_formed_captures<'a>(r: Option<Vec<(String, &'a Expr)>>) -> bool {
    match r {
        None => true,
        Some(v) => distinct_names(v@),
    }
}

/// The capture names written in a pattern, in order of appearance.
pub open spec fn pattern_names(p: MacroPattern) -> Seq<Seq<char>>
    decreases p,
{
    match p {
        MacroPattern::Wildcard => Seq::empty(),
        MacroPattern::Literal(_) => Seq::empty(),
        MacroPattern::Bind { name, ty: _, pattern } => pattern_names(*pattern) + name_seq(name),
        MacroPattern::BinaryExpr { op: _, left, right } => bind_names(*left) + bind_names(*right),
        MacroPattern::UnaryExpr { op: _, operand } => bind_names(*operand),
    }
}

pub open spec fn bind_names(b: MacroPatternBind) -> Seq<Seq<char>>
    decreases b,
{
    pattern_names(b.pattern) + name_seq(b.name)
}

pub open spec fn name_seq(name: Option<String>) -> Seq<Seq<char>> {
    match name {
        Some(n) => seq![n@],
        None => Seq::empty(),
    }
}

/// A successful match captures exactly the names written in the pattern, and
/// the pattern writes no name twice: a pattern that repeats a name matches
/// nothing.
pub proof fn lemma_match_captures_pattern_names(p: MacroPattern, e: ExprV)
    ensures
        matches(p, e) matches Some(m) ==> m.dom() =~= pattern_names(p).to_set() && pattern_names(p).no_duplicates(),
    decreases p,
{
    match p {
        MacroPattern::Wildcard => {},
        MacroPattern::Literal(_) => {},
        MacroPattern::Bind { name, ty: _, pattern } => {
            lemma_match_captures_pattern_names(*pattern, e);
            lemma_capture_names(name, matches(*pattern, e), pattern_names(*pattern), e);
        },
        MacroPattern::BinaryExpr { op, left, right } => {
            match e.kind {
                ExprKindV::Binary { op: eop, left: el, right: er } => {
                    lemma_bind_captures_names(*left, *el);
                    lemma_bind_captures_names(*right, *er);
                    if matches(p, e) is Some {
                        let lm = matches_bind(*left, *el)->Some_0;
                        let rm = matches_bind(*right, *er)->Some_0;
                        let a = bind_names(*left);
                        let b = bind_names(*right);
                        vstd::seq_lib::seq_to_set_distributes_over_add(a, b);
                        assert forall|i: int, j: int| 0 <= i < a.len() && 0 <= j < b.len() implies a[i] != b[j] by {
                            assert(a.to_set().contains(a[i]));
                            assert(b.to_set().contains(b[j]));
                        }
                        vstd::seq_lib::lemma_no_dup_in_concat(a, b);
                    }
                },
                _ => {},
            }
        },
        MacroPattern::UnaryExpr { op, operand } => {
            match e.kind {
                ExprKindV::Unary { op: eop, expr } => {
                    lemma_bind_captures_names(*operand, *expr);
                },
                _ => {},
            }
        },
    }
}

/// [`lemma_match_captures_pattern_names`] for an operand position.
pub proof fn lemma_bind_captures_names(b: MacroPatternBind, e: ExprV)
    ensures
        matches_bind(b, e) matches Some(m) ==> m.dom() =~= bind_names(b).to_set() && bind_names(b).no_duplicates(),
    decreases b,
{
    lemma_match_captures_pattern_names(b.pattern, e);
    lemma_capture_names(b.name, matches(b.pattern, e), pattern_names(b.pattern), e);
}

proof fn lemma_capture_names(name: Option<String>, m: Option<Map<Seq<char>, ExprV>>, names: Seq<Seq<char>>, e: ExprV)
    requires
        m matches Some(m0) ==> m0.dom() =~= names.to_set() && names.no_duplicates(),
    ensures
        capture(name, m, e) matches Some(m1) ==> m1.dom() =~= (names + name_seq(name)).to_set() && (names
            + name_seq(name)).no_duplicates(),
{
    match (name, m) {
        (Some(n), Some(m0)) => {
            if !m0.contains_key(n@) {
                let t = names + name_seq(name);
                vstd::seq_lib::seq_to_set_distributes_over_add(names, name_seq(name));
                assert(name_seq(name).to_set() =~= set![n@]) by {
                    assert(name_seq(name).to_set().contains(n@) ==> name_seq(name)[0] == n@);
                    assert(name_seq(name)[0] == n@);
                }
                assert forall|i: int, j: int| 0 <= i < names.len() && 0 <= j < 1 implies names[i] != seq![n@][j] by {
                    assert(names.to_set().contains(names[i]));
                }
                vstd::seq_lib::lemma_no_dup_in_concat(names, seq![n@]);
            }
        },
        (None, Some(m0)) => {
            assert(names + name_seq(name) =~= names);
        },
        _ => {},
    }
}

proof fn lemma_captures_dom<'a>(s: Seq<(String, &'a Expr)>, n: Seq<char>)
    ensures
        captures_map(s).contains_key(n) <==> exists|i: int| 0 <= i < s.len() && #[trigger] s[i].0@ == n,
    decreases s.len(),
{
    if s.len() > 0 {
        lemma_captures_dom(s.drop_last(), n);
        if captures_map(s.drop_last()).contains_key(n) {
            let i = choose|i: int| 0 <= i < s.drop_last().len() && #[trigger] s.drop_last()[i].0@ == n;
            assert(s[i].0@ == n);
        }
        if exists|i: int| 0 <= i < s.len() && #[trigger] s[i].0@ == n {
            let i = choose|i: int| 0 <= i < s.len() && #[trigger] s[i].0@ == n;
            if i < s.len() - 1 {
                assert(s.drop_last()[i].0@ == n);
            }
        }
    }
}

proof fn lemma_captures_push<'a>(s: Seq<(String, &'a Expr)>, x: (String, &'a Expr))
    ensures
        captures_map(s.push(x)) == captures_map(s).insert(x.0@, x.1@),
{
    assert(s.push(x).drop_last() =~= s);
}

/// Is there a capture named `name`?
fn contains_name<'a>(v: &Vec<(String, &'a Expr)>, name: &String) -> (r: bool)
    ensures
        r == captures_map(v@).contains_key(name@),
{
    proof {
        lemma_captures_dom(v@, name@);
    }
    let mut i: usize = 0;
    while i < v.len()
        invariant
            0 <= i <= v.len(),
            forall|j: int| 0 <= j < i ==> #[trigger] v@[j].0@ != name@,
            captures_map(v@).contains_key(name@) <==> exists|j: int| 0 <= j < v@.len() && #[trigger] v@[j].0@ == name@,
        decreases v.len() - i,
    {
        if v[i].0.eq(name) {
            return true;
        }
        i = i + 1;
    }
    false
}

/// Adds the capture of `name` (if any) to the captures of the inner pattern.
fn capture_into<'a>(map: Vec<(String, &'a Expr)>, name: &Option<String>, expr: &'a Expr) -> (r: Option<Vec<(String, &'a Expr)>>)
    requires
        distinct_names(map@),
    ensures
        captures_v(r) == capture(*name, Some(captures_map(map@)), expr@),
        well_formed_captures(r),
{
    let mut map = map;
    match name {
        Some(n) => {
            if contains_name(&map, n) {
                return None;
            }
            let entry = (n.clone(), expr);
            proof {
                lemma_captures_push(map@, entry);
                lemma_captures_dom(map@, n@);
                assert forall|a: int, b: int| 0 <= a < b < map@.push(entry).len() implies map@.push(entry)[a].0@
                    != map@.push(entry)[b].0@ by {
                    if b == map@.len() {
                        assert(map@[a].0@ != n@);
                    }
                }
            }
            map.push(entry);
            Some(map)
        },
        None => Some(map),
    }
}

/// Merges two capture vectors. Returns `None` if they share a name.
#[verifier::loop_isolation(false)]
fn merge_maps<'a>(left: Vec<(String, &'a Expr)>, right: Vec<(String, &'a Expr)>) -> (r: Option<Vec<(String, &'a Expr)>>)
    requires
        distinct_names(left@),
        distinct_names(right@),
    ensures
        captures_v(r) == merge(captures_map(left@), captures_map(right@)),
        well_formed_captures(r),
{
    let ghost l0 = captures_map(left@);
    let ghost r0 = captures_map(right@);
    let mut left = left;
    let mut i: usize = 0;
    while i < right.len()
        invariant
            0 <= i <= right.len(),
            distinct_names(left@),
            distinct_names(right@),
            captures_map(left@) == l0.union_prefer_right(captures_map(right@.take(i as int))),
            forall|j: int| 0 <= j < i ==> !l0.contains_key(#[trigger] right@[j].0@),
            r0 == captures_map(right@),
        decreases right.len() - i,
    {
        let k = right[i].0.clone();
        let v = right[i].1;
        proof {
            lemma_captures_dom(right@.take(i as int), k@);
            lemma_captures_dom(right@, k@);
            lemma_captures_dom(left@, k@);
        }
        if contains_name(&left, &k) {
            proof {
                assert(!captures_map(right@.take(i as int)).contains_key(k@)) by {
                    if exists|j: int| 0 <= j < i && #[trigger] right@.take(i as int)[j].0@ == k@ {
                        let j = choose|j: int| 0 <= j < i && #[trigger] right@.take(i as int)[j].0@ == k@;
                        assert(right@[j].0@ == right@[i as int].0@);
                    }
                }
                assert(l0.contains_key(k@));
                lemma_captures_dom(right@, k@);
                assert(right@[i as int].0@ == k@);
                assert(r0.contains_key(k@));
            }
            return None;
        }
        proof {
            lemma_captures_push(left@, (k, v));
            assert(right@.take(i as int + 1) =~= right@.take(i as int).push(right@[i as int]));
            lemma_captures_push(right@.take(i as int), right@[i as int]);
            lemma_captures_dom(left@, k@);
            assert forall|a: int, b: int| 0 <= a < b < left@.push((k, v)).len() implies left@.push((k, v))[a].0@ != left@.push((k, v))[b].0@ by {
                if b == left@.len() {
                    assert(left@[a].0@ != k@);
                }
            }
        }
        left.push((k, v));
        i = i + 1;
    }
    proof {
        assert(right@.take(right@.len() as int) =~= right@);
        assert forall|n: Seq<char>| l0.contains_key(n) implies !r0.contains_key(n) by {
            lemma_captures_dom(right@, n);
            if r0.contains_key(n) {
                let j = choose|j: int| 0 <= j < right@.len() && #[trigger] right@[j].0@ == n;
                assert(!l0.contains_key(right@[j].0@));
            }
        }
        assert(l0.dom().disjoint(r0.dom()));
    }
    Some(left)
}

/// IEEE-754 equality of two doubles given by their bit patterns.
fn numbers_equal(a: u64, b: u64) -> (r: bool)
    ensures
        r == number_eq(a, b),
{
    let a_nan = a & 0x7ff0_0000_0000_0000u64 == 0x7ff0_0000_0000_0000u64 && a & 0x000f_ffff_ffff_ffffu64 != 0;
    let b_nan = b & 0x7ff0_0000_0000_0000u64 == 0x7ff0_0000_0000_0000u64 && b & 0x000f_ffff_ffff_ffffu64 != 0;
    !a_nan && !b_nan && (a == b || (a & 0x7fff_ffff_ffff_ffffu64 == 0 && b & 0x7fff_ffff_ffff_ffffu64 == 0))
}

/// Do two literals denote the same value?
fn literals_equal(a: &Literal, b: &Literal) -> (r: bool)
    ensures
        r == literal_eq(literal_v(*a), literal_v(*b)),
{
    match (a, b) {
        (Literal::Number(x), Literal::Number(y)) => numbers_equal(x.bits, y.bits),
        (Literal::String(x), Literal::String(y)) => x.eq(y),
        (Literal::Boolean(x), Literal::Boolean(y)) => *x == *y,
        _ => false,
    }
}

/// Attempts to match a `pattern` against the concrete AST node `expr`.
///
/// Returns the captures when the pattern matches, `None` when it does not:
/// - `Wildcard` always matches, producing no captures;
/// - `Literal(lit)` matches a literal expression of the same value;
/// - `Bind` matches what its inner pattern matches and, when named, also
///   captures the whole expression (its type annotation plays no part);
/// - `BinaryExpr` / `UnaryExpr` match a node with the same operator whose
///   operands match the operand patterns.
/// A name captured more than once makes the match fail.
pub fn try_match<'a>(pattern: &MacroPattern, expr: &'a Expr) -> (r: Option<Vec<(String, &'a Expr)>>)
    ensures
        captures_v(r) == matches(*pattern, expr@),
        well_formed_captures(r),
    decreases pattern,
{
    match pattern {
        MacroPattern::Wildcard => {
            let v: Vec<(String, &'a Expr)> = Vec::new();
            proof {
                assert(v@ =~= Seq::<(String, &'a Expr)>::empty());
            }
            Some(v)
        },
        MacroPattern::Literal(lit) => {
            if let ExprKind::Literal(e_lit) = &expr.kind {
                if literals_equal(e_lit, lit) {
                    let v: Vec<(String, &'a Expr)> = Vec::new();
                    proof {
                        assert(v@ =~= Seq::<(String, &'a Expr)>::empty());
                    }
                    return Some(v);
                }
            }
            None
        },
        MacroPattern::Bind { name, ty: _, pattern: inner } => {
            let map = match try_match(inner, expr) {
                Some(m) => m,
                None => return None,
            };
            capture_into(map, name, expr)
        },
        MacroPattern::BinaryExpr { op, left, right } => {
            if let ExprKind::Binary(bin) = &expr.kind {
                if bin.op == *op {
                    let left_map = match match_bind(left, &bin.left) {
                        Some(m) => m,
                        None => return None,
                    };
                    let right_map = match match_bind(right, &bin.right) {
                        Some(m) => m,
                        None => return None,
                    };
                    return merge_maps(left_map, right_map);
                }
            }
            None
        },
        MacroPattern::UnaryExpr { op, operand } => {
            if let ExprKind::Unary(unary) = &expr.kind {
                if unary.op == *op {
                    return match_bind(operand, &unary.expr);
                }
            }
            None
        },
    }
}

/// Matches an operand position: the inner pattern, then the capture of the
/// whole operand under the position's name (its type annotation plays no part).
fn match_bind<'a>(bind: &MacroPatternBind, expr: &'a Expr) -> (r: Option<Vec<(String, &'a Expr)>>)
    ensures
        captures_v(r) == matches_bind(*bind, expr@),
        well_formed_captures(r),
    decreases bind,
{
    let map = match try_match(&bind.pattern, expr) {
        Some(m) => m,
        None => return None,
    };
    capture_into(map, &bind.name, expr)
}

} // verus!
