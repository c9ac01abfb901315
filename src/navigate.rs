//! Shape-matching primitives over the node model: callee names, positional
//! arguments, object properties and array elements.
use vstd::prelude::*;
use crate::node::{kind_of, ArrayExpr, Call, Expr, NodeKind, ObjectExpr, Property};

verus! {

/// Why one shape-matching step failed.
#[derive(Clone, Copy, Debug, PartialEq, Eq, Structural)]
pub enum ShapeError {
    /// Position `index` was asked of a list of `len` items.
    Arity { index: usize, len: usize },
    /// A node of kind `expected` was wanted where one of kind `found` stands.
    KindMismatch { expected: NodeKind, found: NodeKind },
    /// The object has no property under the wanted key.
    PropertyAbsent,
    /// Nothing in the searched sequence has the wanted shape.
    NotFound,
}

/// Whether two strings hold the same characters.
pub fn same_text(a: &str, b: &str) -> (r: bool)
    ensures
        r == (a@ == b@),
{
    let n = a.unicode_len();
    if n != b.unicode_len() {
        return false;
    }
    let mut i: usize = 0;
    while i < n
        invariant
            n == a@.len(),
            n == b@.len(),
            i <= n,
            a@.subrange(0, i as int) == b@.subrange(0, i as int),
        decreases n - i,
    {
        if a.get_char(i) != b.get_char(i) {
            return false;
        }
        assert(a@.subrange(0, i + 1) == a@.subrange(0, i as int).push(a@[i as int]));
        assert(b@.subrange(0, i + 1) == b@.subrange(0, i as int).push(b@[i as int]));
        i = i + 1;
    }
    assert(a@ == a@.subrange(0, n as int));
    assert(b@ == b@.subrange(0, n as int));
    true
}

/// The name of a callee: the identifier of a direct call, the property of a
/// static member call (`x.y(...)` is named `y`); other callees have none.
pub open spec fn callee_name(callee: Expr) -> Option<Seq<char>> {
    match callee {
        Expr::Ident(n) => Some(n@),
        Expr::Member(_, p) => Some(p@),
        _ => None,
    }
}

/// Whether `e` is a call whose callee is named `name`.
pub open spec fn is_call_named(e: Expr, name: Seq<char>) -> bool {
    e matches Expr::Call(c) && callee_name(*c.callee) == Some(name)
}

/// Whether the callee of `call` is named `name`.
pub fn has_callee_name(call: &Call, name: &str) -> (r: bool)
    ensures
        r == (callee_name(*call.callee) == Some(name@)),
{
    match &*call.callee {
        Expr::Ident(n) => same_text(n.as_str(), name),
        Expr::Member(_, p) => same_text(p.as_str(), name),
        _ => false,
    }
}

/// The first call in `nodes` whose callee is named `name`.
pub fn find_call_by_callee_name<'a>(nodes: &'a Vec<Expr>, name: &str) -> (r: Option<&'a Call>)
    ensures
        r matches Some(c) ==> exists|i: int|
            0 <= i < nodes@.len() && nodes@[i] == Expr::Call(*c) && is_call_named(nodes@[i], name@)
                && forall|j: int| 0 <= j < i ==> !is_call_named(#[trigger] nodes@[j], name@),
        r is None ==> forall|i: int| 0 <= i < nodes@.len() ==> !is_call_named(#[trigger] nodes@[i], name@),
{
    let mut i: usize = 0;
    while i < nodes.len()
        invariant
            i <= nodes@.len(),
            forall|j: int| 0 <= j < i ==> !is_call_named(#[trigger] nodes@[j], name@),
        decreases nodes@.len() - i,
    {
        if let Expr::Call(c) = &nodes[i] {
            if has_callee_name(c, name) {
                return Some(c);
            }
        }
        i = i + 1;
    }
    None
}

/// Argument `index` of `call`, or the arity failure.
pub open spec fn argument(call: Call, index: int) -> Result<Expr, ShapeError> {
    if 0 <= index < call.arguments@.len() {
        Ok(call.arguments@[index])
    } else {
        Err(ShapeError::Arity { index: index as usize, len: call.arguments@.len() as usize })
    }
}

/// Argument `index` of `call`; an `Arity` failure when there is none.
pub fn nth_argument<'a>(call: &'a Call, index: usize) -> (r: Result<&'a Expr, ShapeError>)
    ensures
        match r {
            Ok(e) => argument(*call, index as int) == Ok::<Expr, ShapeError>(*e),
            Err(err) => argument(*call, index as int) == Err::<Expr, ShapeError>(err),
        },
{
    if index < call.arguments.len() {
        Ok(&call.arguments[index])
    } else {
        Err(ShapeError::Arity { index, len: call.arguments.len() })
    }
}

/// The failure for an expression that is not of kind `expected`.
pub open spec fn mismatch(expected: NodeKind, e: Expr) -> ShapeError {
    ShapeError::KindMismatch { expected, found: kind_of(e) }
}

/// Argument `index` of `call` when it is of kind `kind`: an `Arity` failure
/// when there is none, a `KindMismatch` when it is of another kind.
pub fn nth_argument_as<'a>(call: &'a Call, index: usize, kind: NodeKind) -> (r: Result<&'a Expr, ShapeError>)
    ensures
        match r {
            Ok(e) => argument(*call, index as int) == Ok::<Expr, ShapeError>(*e) && kind_of(*e) == kind,
            Err(err) => match argument(*call, index as int) {
                Ok(a) => kind_of(a) != kind && err == mismatch(kind, a),
                Err(a) => err == a,
            },
        },
{
    let e = nth_argument(call, index)?;
    let found = e.kind();
    if found == kind {
        Ok(e)
    } else {
        Err(ShapeError::KindMismatch { expected: kind, found })
    }
}

/// `e` as an object literal, or the kind failure.
pub fn as_object(e: &Expr) -> (r: Result<&ObjectExpr, ShapeError>)
    ensures
        match r {
            Ok(o) => *e == Expr::Object(*o),
            Err(err) => e !is Object && err == mismatch(NodeKind::ObjectExpression, *e),
        },
{
    match e {
        Expr::Object(o) => Ok(o),
        _ => Err(ShapeError::KindMismatch { expected: NodeKind::ObjectExpression, found: e.kind() }),
    }
}

/// `e` as an array literal, or the kind failure.
pub fn as_array(e: &Expr) -> (r: Result<&ArrayExpr, ShapeError>)
    ensures
        match r {
            Ok(a) => *e == Expr::Array(*a),
            Err(err) => e !is Array && err == mismatch(NodeKind::ArrayExpression, *e),
        },
{
    match e {
        Expr::Array(a) => Ok(a),
        _ => Err(ShapeError::KindMismatch { expected: NodeKind::ArrayExpression, found: e.kind() }),
    }
}

/// The name of the identifier `e`, or the kind failure.
pub fn as_identifier(e: &Expr) -> (r: Result<&String, ShapeError>)
    ensures
        match r {
            Ok(n) => *e == Expr::Ident(*n),
            Err(err) => e !is Ident && err == mismatch(NodeKind::Identifier, *e),
        },
{
    match e {
        Expr::Ident(n) => Ok(n),
        _ => Err(ShapeError::KindMismatch { expected: NodeKind::Identifier, found: e.kind() }),
    }
}

/// Whether property `p` is declared under the static key `key`.
pub open spec fn key_is(p: Property, key: Seq<char>) -> bool {
    p.key matches Some(k) && k@ == key
}

/// The value of the last property of `props` declared under `key`: a later
/// declaration of a key shadows an earlier one, as in evaluation.
pub open spec fn last_property(props: Seq<Property>, key: Seq<char>) -> Option<Expr>
    decreases props.len(),
{
    if props.len() == 0 {
        None
    } else if key_is(props.last(), key) {
        Some(props.last().value)
    } else {
        last_property(props.drop_last(), key)
    }
}

/// Whether property `p` is declared under `key`.
fn property_has_key(p: &Property, key: &str) -> (r: bool)
    ensures
        r == key_is(*p, key@),
{
    match &p.key {
        Some(k) => same_text(k.as_str(), key),
        None => false,
    }
}

/// The value of the property of `obj` under `key`; of the last one when the
/// key is declared more than once.
pub fn object_property_by_key<'a>(obj: &'a ObjectExpr, key: &str) -> (r: Option<&'a Expr>)
    ensures
        match r {
            Some(e) => last_property(obj.properties@, key@) == Some(*e),
            None => last_property(obj.properties@, key@) is None,
        },
{
    let props = &obj.properties;
    let mut i: usize = props.len();
    assert(props@.subrange(0, i as int) == props@);
    while i > 0
        invariant
            props@ == obj.properties@,
            i <= props@.len(),
            last_property(props@, key@) == last_property(props@.subrange(0, i as int), key@),
        decreases i,
    {
        let ghost pre = props@.subrange(0, i as int);
        assert(pre.drop_last() == props@.subrange(0, i - 1));
        assert(pre.last() == props@[i - 1]);
        if property_has_key(&props[i - 1], key) {
            assert(pre.len() > 0 && key_is(pre.last(), key@));
            assert(last_property(pre, key@) == Some(pre.last().value));
            return Some(&props[i - 1].value);
        }
        i = i - 1;
    }
    None
}

/// The object literals among `elements`, in order; holes and other
/// elements are left out.
pub open spec fn objects_of(elements: Seq<Option<Expr>>) -> Seq<ObjectExpr>
    decreases elements.len(),
{
    if elements.len() == 0 {
        Seq::empty()
    } else {
        let init = objects_of(elements.drop_last());
        match elements.last() {
            Some(Expr::Object(o)) => init.push(o),
            _ => init,
        }
    }
}

/// The object literals among the elements of `arr`, in order.
pub fn array_of_object_literals<'a>(arr: &'a ArrayExpr) -> (r: Vec<&'a ObjectExpr>)
    ensures
        r@.len() == objects_of(arr.elements@).len(),
        forall|i: int| 0 <= i < r@.len() ==> *r@[i] == objects_of(arr.elements@)[i],
{
    let elems = &arr.elements;
    let mut out: Vec<&'a ObjectExpr> = Vec::new();
    let mut i: usize = 0;
    while i < elems.len()
        invariant
            i <= elems@.len(),
            out@.len() == objects_of(elems@.subrange(0, i as int)).len(),
            forall|j: int| 0 <= j < out@.len() ==> *out@[j] == objects_of(elems@.subrange(0, i as int))[j],
        decreases elems@.len() - i,
    {
        assert(elems@.subrange(0, i + 1).drop_last() == elems@.subrange(0, i as int));
        if let Some(Expr::Object(o)) = &elems[i] {
            out.push(o);
        }
        i = i + 1;
    }
    assert(elems@.subrange(0, elems@.len() as int) == elems@);
    out
}

} // verus!
