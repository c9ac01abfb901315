//! Renaming invariance: extraction reads shapes, literals and keys, never
//! the names that a bundler picks for bindings.
use vstd::prelude::*;
use crate::literal::{last_literal, literal_text};
use crate::diagnostics::Diagnostic;
use crate::extract::{extraction_of, Layout};
use crate::locate::{binds_function, bound_function, first_mount_call, mount_call_of, root_function_of, root_name_of, top_level_function};
use crate::navigate::{argument, callee_name, key_is, last_property, objects_of, ShapeError};
use crate::sections::{calls_of, returned_call, section_calls_of, section_function_of};
use crate::node::{ArrayExpr, Body, Call, Declarator, Expr, Function, ObjectExpr, Program, Property, Stmt};
use crate::records::{
    body_statements, candidates, declarator_arrays, objects_in, records_in, section_objects,
    statement_arrays, Item, Platform, Reward,
};

verus! {

/// Whether `b` is `a` with each identifier `x`, in references and in
/// bindings, renamed to `rn(x)`; keys, member names and literals stay.
pub open spec fn renamed(a: Expr, b: Expr, rn: spec_fn(Seq<char>) -> Seq<char>) -> bool
    decreases a,
{
    match a {
        Expr::Ident(x) => b matches Expr::Ident(y) && y@ == rn(x@),
        Expr::Str(x) => b matches Expr::Str(y) && y@ == x@,
        Expr::Num(x) => b matches Expr::Num(y) && y@ == x@,
        Expr::Call(c) => b matches Expr::Call(d) && renamed(*c.callee, *d.callee, rn)
            && c.arguments@.len() == d.arguments@.len() && forall|i: int|
            0 <= i < c.arguments@.len() ==> renamed(c.arguments@[i], d.arguments@[i], rn),
        Expr::Member(o, p) => b matches Expr::Member(o2, p2) && p2@ == p@ && renamed(*o, *o2, rn),
        Expr::ComputedMember(o) => b matches Expr::ComputedMember(o2) && renamed(*o, *o2, rn),
        Expr::Object(o) => b matches Expr::Object(o2) && o.properties@.len() == o2.properties@.len()
            && forall|i: int|
            0 <= i < o.properties@.len() ==> same_key(o.properties@[i].key, o2.properties@[i].key)
                && renamed(o.properties@[i].value, o2.properties@[i].value, rn),
        Expr::Array(arr) => b matches Expr::Array(arr2) && arr.elements@.len() == arr2.elements@.len()
            && forall|i: int|
            0 <= i < arr.elements@.len() ==> match (#[trigger] arr.elements@[i], arr2.elements@[i]) {
                (None, None) => true,
                (Some(x), Some(y)) => renamed(x, y, rn),
                _ => false,
            },
        Expr::Function(f) => b matches Expr::Function(g) && match (f.body, g.body) {
            (Body::Expression(x), Body::Expression(y)) => renamed(*x, *y, rn),
            (Body::Statements(s), Body::Statements(t)) => s@.len() == t@.len() && forall|i: int|
                0 <= i < s@.len() ==> renamed_stmt(s@[i], t@[i], rn),
            _ => false,
        },
        Expr::Other => b is Other,
    }
}

/// Whether two optional keys are the same text.
pub open spec fn same_key(a: Option<String>, b: Option<String>) -> bool {
    match (a, b) {
        (None, None) => true,
        (Some(x), Some(y)) => x@ == y@,
        _ => false,
    }
}

/// [`renamed`] for statements.
pub open spec fn renamed_stmt(a: Stmt, b: Stmt, rn: spec_fn(Seq<char>) -> Seq<char>) -> bool
    decreases a,
{
    match a {
        Stmt::Variables(ds) => b matches Stmt::Variables(es) && ds@.len() == es@.len() && forall|i: int|
            0 <= i < ds@.len() ==> match (#[trigger] ds@[i].name, es@[i].name) {
                (None, None) => true,
                (Some(x), Some(y)) => y@ == rn(x@),
                _ => false,
            } && match (ds@[i].init, es@[i].init) {
                (None, None) => true,
                (Some(x), Some(y)) => renamed(x, y, rn),
                _ => false,
            },
        Stmt::Expression(e) => b matches Stmt::Expression(f) && renamed(e, f, rn),
        Stmt::Return(r) => b matches Stmt::Return(s) && match (r, s) {
            (None, None) => true,
            (Some(x), Some(y)) => renamed(x, y, rn),
            _ => false,
        },
        Stmt::Other => b is Other,
    }
}

/// [`renamed`] for whole programs.
pub open spec fn renamed_program(p: Program, q: Program, rn: spec_fn(Seq<char>) -> Seq<char>) -> bool {
    p.body@.len() == q.body@.len() && forall|i: int|
        0 <= i < p.body@.len() ==> renamed_stmt(p.body@[i], q.body@[i], rn)
}

/// Whether `rn` renames distinct names apart.
pub open spec fn injective(rn: spec_fn(Seq<char>) -> Seq<char>) -> bool {
    forall|x: Seq<char>, y: Seq<char>| #[trigger] rn(x) == #[trigger] rn(y) ==> x == y
}

/// Property lists related by [`renamed`], position by position.
pub open spec fn renamed_props(a: Seq<Property>, b: Seq<Property>, rn: spec_fn(Seq<char>) -> Seq<char>) -> bool {
    a.len() == b.len() && forall|i: int|
        0 <= i < a.len() ==> same_key(#[trigger] a[i].key, b[i].key) && renamed(a[i].value, b[i].value, rn)
}

/// Object lists related by [`renamed`], position by position.
pub open spec fn renamed_objects(a: Seq<ObjectExpr>, b: Seq<ObjectExpr>, rn: spec_fn(Seq<char>) -> Seq<char>) -> bool {
    a.len() == b.len() && forall|i: int|
        0 <= i < a.len() ==> renamed(Expr::Object(#[trigger] a[i]), Expr::Object(b[i]), rn)
}

/// Array lists related by [`renamed`], position by position.
pub open spec fn renamed_arrays(a: Seq<ArrayExpr>, b: Seq<ArrayExpr>, rn: spec_fn(Seq<char>) -> Seq<char>) -> bool {
    a.len() == b.len() && forall|i: int|
        0 <= i < a.len() ==> renamed(Expr::Array(#[trigger] a[i]), Expr::Array(b[i]), rn)
}

/// Statement lists related by [`renamed_stmt`], position by position.
pub open spec fn renamed_stmts(a: Seq<Stmt>, b: Seq<Stmt>, rn: spec_fn(Seq<char>) -> Seq<char>) -> bool {
    a.len() == b.len() && forall|i: int| 0 <= i < a.len() ==> renamed_stmt(#[trigger] a[i], b[i], rn)
}

/// Two optional expressions that are both absent or related.
pub open spec fn renamed_opt(a: Option<Expr>, b: Option<Expr>, rn: spec_fn(Seq<char>) -> Seq<char>) -> bool {
    match (a, b) {
        (None, None) => true,
        (Some(x), Some(y)) => renamed(x, y, rn),
        _ => false,
    }
}

proof fn lemma_props_prefix(a: Seq<Property>, b: Seq<Property>, rn: spec_fn(Seq<char>) -> Seq<char>, n: int)
    requires
        renamed_props(a, b, rn),
        0 <= n <= a.len(),
    ensures
        renamed_props(a.subrange(0, n), b.subrange(0, n), rn),
{
    assert forall|i: int| 0 <= i < n implies same_key(#[trigger] a.subrange(0, n)[i].key, b.subrange(0, n)[i].key)
        && renamed(a.subrange(0, n)[i].value, b.subrange(0, n)[i].value, rn) by {
        assert(a.subrange(0, n)[i] == a[i]);
        assert(b.subrange(0, n)[i] == b[i]);
    }
}

proof fn lemma_last_property(a: Seq<Property>, b: Seq<Property>, key: Seq<char>, rn: spec_fn(Seq<char>) -> Seq<char>)
    requires
        renamed_props(a, b, rn),
    ensures
        renamed_opt(last_property(a, key), last_property(b, key), rn),
    decreases a.len(),
{
    if a.len() > 0 {
        let n = a.len() - 1;
        assert(same_key(a[n].key, b[n].key));
        assert(key_is(a.last(), key) == key_is(b.last(), key));
        lemma_props_prefix(a, b, rn, n);
        assert(a.drop_last() == a.subrange(0, n));
        assert(b.drop_last() == b.subrange(0, n));
        lemma_last_property(a.drop_last(), b.drop_last(), key, rn);
    }
}

proof fn lemma_last_literal(a: Seq<Property>, b: Seq<Property>, key: Seq<char>, rn: spec_fn(Seq<char>) -> Seq<char>)
    requires
        renamed_props(a, b, rn),
    ensures
        last_literal(a, key) == last_literal(b, key),
    decreases a.len(),
{
    if a.len() > 0 {
        let n = a.len() - 1;
        assert(same_key(a[n].key, b[n].key));
        assert(renamed(a[n].value, b[n].value, rn));
        assert(literal_text(a[n].value) == literal_text(b[n].value));
        assert(key_is(a.last(), key) == key_is(b.last(), key));
        lemma_props_prefix(a, b, rn, n);
        assert(a.drop_last() == a.subrange(0, n));
        assert(b.drop_last() == b.subrange(0, n));
        lemma_last_literal(a.drop_last(), b.drop_last(), key, rn);
    }
}

/// Related objects describe the same platform and the same reward.
proof fn lemma_decoded(a: ObjectExpr, b: ObjectExpr, rn: spec_fn(Seq<char>) -> Seq<char>)
    requires
        renamed(Expr::Object(a), Expr::Object(b), rn),
    ensures
        Platform::decoded(a) == Platform::decoded(b),
        Reward::decoded(a) == Reward::decoded(b),
{
    let (pa, pb) = (a.properties@, b.properties@);
    assert(renamed_props(pa, pb, rn));
    lemma_last_literal(pa, pb, "name"@, rn);
    lemma_last_literal(pa, pb, "image"@, rn);
    lemma_last_literal(pa, pb, "title"@, rn);
    lemma_last_literal(pa, pb, "description"@, rn);
    lemma_last_literal(pa, pb, "color"@, rn);
    lemma_last_literal(pa, pb, "tokens"@, rn);
    lemma_last_literal(pa, pb, "icon"@, rn);
}

proof fn lemma_objects_of(a: Seq<Option<Expr>>, b: Seq<Option<Expr>>, rn: spec_fn(Seq<char>) -> Seq<char>)
    requires
        a.len() == b.len(),
        forall|i: int| 0 <= i < a.len() ==> renamed_opt(#[trigger] a[i], b[i], rn),
    ensures
        renamed_objects(objects_of(a), objects_of(b), rn),
    decreases a.len(),
{
    if a.len() > 0 {
        let n = a.len() - 1;
        assert forall|i: int| 0 <= i < n implies renamed_opt(#[trigger] a.drop_last()[i], b.drop_last()[i], rn) by {
            assert(a.drop_last()[i] == a[i]);
        }
        lemma_objects_of(a.drop_last(), b.drop_last(), rn);
        assert(renamed_opt(a[n], b[n], rn));
        let (oa, ob) = (objects_of(a), objects_of(b));
        let (ia, ib) = (objects_of(a.drop_last()), objects_of(b.drop_last()));
        match (a.last(), b.last()) {
            (Some(Expr::Object(x)), Some(Expr::Object(y))) => {
                assert(oa == ia.push(x));
                assert(ob == ib.push(y));
                assert forall|i: int| 0 <= i < oa.len() implies renamed(Expr::Object(#[trigger] oa[i]), Expr::Object(ob[i]), rn) by {
                    if i < ia.len() {
                        assert(oa[i] == ia[i]);
                        assert(ob[i] == ib[i]);
                    }
                }
            },
            (Some(x), Some(y)) => {
                assert(x !is Object);
                assert(y !is Object);
            },
            _ => {},
        }
    }
}

proof fn lemma_objects_in(a: Seq<ArrayExpr>, b: Seq<ArrayExpr>, rn: spec_fn(Seq<char>) -> Seq<char>)
    requires
        renamed_arrays(a, b, rn),
    ensures
        renamed_objects(objects_in(a), objects_in(b), rn),
    decreases a.len(),
{
    if a.len() > 0 {
        let n = a.len() - 1;
        assert forall|i: int| 0 <= i < n implies renamed(Expr::Array(#[trigger] a.drop_last()[i]), Expr::Array(b.drop_last()[i]), rn) by {
            assert(a.drop_last()[i] == a[i]);
            assert(b.drop_last()[i] == b[i]);
        }
        lemma_objects_in(a.drop_last(), b.drop_last(), rn);
        let (ea, eb) = (a[n].elements@, b[n].elements@);
        assert(renamed(Expr::Array(a[n]), Expr::Array(b[n]), rn));
        assert forall|i: int| 0 <= i < ea.len() implies renamed_opt(#[trigger] ea[i], eb[i], rn) by {}
        lemma_objects_of(ea, eb, rn);
        let (ia, ib) = (objects_in(a.drop_last()), objects_in(b.drop_last()));
        let (la, lb) = (objects_of(ea), objects_of(eb));
        assert(objects_in(a) == ia + la);
        assert(objects_in(b) == ib + lb);
        assert forall|i: int| 0 <= i < ia.len() + la.len() implies renamed(Expr::Object(#[trigger] (ia + la)[i]), Expr::Object((ib + lb)[i]), rn) by {
            if i < ia.len() {
                assert((ia + la)[i] == ia[i]);
                assert((ib + lb)[i] == ib[i]);
            } else {
                assert((ia + la)[i] == la[i - ia.len()]);
                assert((ib + lb)[i] == lb[i - ia.len()]);
            }
        }
    }
}

proof fn lemma_declarator_arrays(a: Seq<Declarator>, b: Seq<Declarator>, rn: spec_fn(Seq<char>) -> Seq<char>)
    requires
        a.len() == b.len(),
        forall|i: int| 0 <= i < a.len() ==> renamed_opt(#[trigger] a[i].init, b[i].init, rn),
    ensures
        renamed_arrays(declarator_arrays(a), declarator_arrays(b), rn),
    decreases a.len(),
{
    if a.len() > 0 {
        let n = a.len() - 1;
        assert forall|i: int| 0 <= i < n implies renamed_opt(#[trigger] a.drop_last()[i].init, b.drop_last()[i].init, rn) by {
            assert(a.drop_last()[i] == a[i]);
            assert(b.drop_last()[i] == b[i]);
        }
        lemma_declarator_arrays(a.drop_last(), b.drop_last(), rn);
        assert(renamed_opt(a[n].init, b[n].init, rn));
        let (ra, rb) = (declarator_arrays(a), declarator_arrays(b));
        let (ia, ib) = (declarator_arrays(a.drop_last()), declarator_arrays(b.drop_last()));
        match (a.last().init, b.last().init) {
            (Some(Expr::Array(x)), Some(Expr::Array(y))) => {
                assert(ra == ia.push(x));
                assert(rb == ib.push(y));
                assert forall|i: int| 0 <= i < ra.len() implies renamed(Expr::Array(#[trigger] ra[i]), Expr::Array(rb[i]), rn) by {
                    if i < ia.len() {
                        assert(ra[i] == ia[i]);
                        assert(rb[i] == ib[i]);
                    }
                }
            },
            (Some(x), Some(y)) => {
                assert(x !is Array);
                assert(y !is Array);
            },
            _ => {},
        }
    }
}

proof fn lemma_statement_arrays(a: Seq<Stmt>, b: Seq<Stmt>, rn: spec_fn(Seq<char>) -> Seq<char>)
    requires
        renamed_stmts(a, b, rn),
    ensures
        renamed_arrays(statement_arrays(a), statement_arrays(b), rn),
    decreases a.len(),
{
    if a.len() > 0 {
        let n = a.len() - 1;
        assert forall|i: int| 0 <= i < n implies renamed_stmt(#[trigger] a.drop_last()[i], b.drop_last()[i], rn) by {
            assert(a.drop_last()[i] == a[i]);
            assert(b.drop_last()[i] == b[i]);
        }
        lemma_statement_arrays(a.drop_last(), b.drop_last(), rn);
        assert(renamed_stmt(a[n], b[n], rn));
        let (ia, ib) = (statement_arrays(a.drop_last()), statement_arrays(b.drop_last()));
        match (a.last(), b.last()) {
            (Stmt::Variables(ds), Stmt::Variables(es)) => {
                assert(a.last() == a[n] && b.last() == b[n]);
                assert(renamed_stmt(Stmt::Variables(ds), Stmt::Variables(es), rn));
                assert forall|i: int| 0 <= i < ds@.len() implies renamed_opt(#[trigger] ds@[i].init, es@[i].init, rn) by {
                    assert(ds@[i].name == ds@[i].name);
                }
                lemma_declarator_arrays(ds@, es@, rn);
                let (la, lb) = (declarator_arrays(ds@), declarator_arrays(es@));
                assert(statement_arrays(a) == ia + la);
                assert(statement_arrays(b) == ib + lb);
                assert forall|i: int| 0 <= i < ia.len() + la.len() implies renamed(Expr::Array(#[trigger] (ia + la)[i]), Expr::Array((ib + lb)[i]), rn) by {
                    if i < ia.len() {
                        assert((ia + la)[i] == ia[i]);
                        assert((ib + lb)[i] == ib[i]);
                    } else {
                        assert((ia + la)[i] == la[i - ia.len()]);
                        assert((ib + lb)[i] == lb[i - ia.len()]);
                    }
                }
            },
            _ => {
                assert(a.last() !is Variables);
                assert(b.last() !is Variables);
            },
        }
    }
}

/// Related functions bind related objects at the top of their bodies.
proof fn lemma_section_objects(f: Function, g: Function, rn: spec_fn(Seq<char>) -> Seq<char>)
    requires
        renamed(Expr::Function(f), Expr::Function(g), rn),
    ensures
        renamed_objects(section_objects(f), section_objects(g), rn),
{
    match (f.body, g.body) {
        (Body::Statements(s), Body::Statements(t)) => {
            assert(renamed_stmts(s@, t@, rn));
            lemma_statement_arrays(s@, t@, rn);
            lemma_objects_in(statement_arrays(s@), statement_arrays(t@), rn);
        },
        _ => {
            assert(body_statements(f) == Seq::<Stmt>::empty());
            assert(body_statements(g) == Seq::<Stmt>::empty());
            lemma_objects_in(Seq::<ArrayExpr>::empty(), Seq::<ArrayExpr>::empty(), rn);
        },
    }
}

proof fn lemma_candidates<T: Item>(a: Seq<ObjectExpr>, b: Seq<ObjectExpr>)
    requires
        a.len() == b.len(),
        forall|i: int| 0 <= i < a.len() ==> T::decoded(#[trigger] a[i]) == T::decoded(b[i]),
    ensures
        candidates::<T>(a) == candidates::<T>(b),
    decreases a.len(),
{
    if a.len() > 0 {
        let n = a.len() - 1;
        assert forall|i: int| 0 <= i < n implies T::decoded(#[trigger] a.drop_last()[i]) == T::decoded(b.drop_last()[i]) by {
            assert(a.drop_last()[i] == a[i]);
            assert(b.drop_last()[i] == b[i]);
        }
        lemma_candidates::<T>(a.drop_last(), b.drop_last());
        assert(T::decoded(a[n]) == T::decoded(b[n]));
    }
}

/// Related section functions hold the same records.
proof fn lemma_records(f: Function, g: Function, rn: spec_fn(Seq<char>) -> Seq<char>)
    requires
        renamed(Expr::Function(f), Expr::Function(g), rn),
    ensures
        records_in::<Platform>(f) == records_in::<Platform>(g),
        records_in::<Reward>(f) == records_in::<Reward>(g),
{
    lemma_section_objects(f, g, rn);
    let (a, b) = (section_objects(f), section_objects(g));
    assert forall|i: int| 0 <= i < a.len() implies Platform::decoded(#[trigger] a[i]) == Platform::decoded(b[i])
        && Reward::decoded(a[i]) == Reward::decoded(b[i]) by {
        lemma_decoded(a[i], b[i], rn);
    }
    lemma_candidates::<Platform>(a, b);
    lemma_candidates::<Reward>(a, b);
}

/// Call lists related by [`renamed`], position by position.
pub open spec fn renamed_calls(a: Seq<Call>, b: Seq<Call>, rn: spec_fn(Seq<char>) -> Seq<char>) -> bool {
    a.len() == b.len() && forall|i: int|
        0 <= i < a.len() ==> renamed(Expr::Call(#[trigger] a[i]), Expr::Call(b[i]), rn)
}

/// Two optional calls that are both absent or related.
pub open spec fn related_call(a: Option<Call>, b: Option<Call>, rn: spec_fn(Seq<char>) -> Seq<char>) -> bool {
    match (a, b) {
        (None, None) => true,
        (Some(x), Some(y)) => renamed(Expr::Call(x), Expr::Call(y), rn),
        _ => false,
    }
}

/// Two optional functions that are both absent or related.
pub open spec fn related_function(a: Option<Function>, b: Option<Function>, rn: spec_fn(Seq<char>) -> Seq<char>) -> bool {
    match (a, b) {
        (None, None) => true,
        (Some(x), Some(y)) => renamed(Expr::Function(x), Expr::Function(y), rn),
        _ => false,
    }
}

/// Two lookups of functions that found related functions or failed alike.
pub open spec fn related_lookup(a: Result<Function, Diagnostic>, b: Result<Function, Diagnostic>, rn: spec_fn(Seq<char>) -> Seq<char>) -> bool {
    match (a, b) {
        (Ok(x), Ok(y)) => renamed(Expr::Function(x), Expr::Function(y), rn),
        (Err(d), Err(e)) => d == e,
        _ => false,
    }
}

/// Two argument lookups that found related arguments or failed alike.
pub open spec fn related_argument(a: Result<Expr, ShapeError>, b: Result<Expr, ShapeError>, rn: spec_fn(Seq<char>) -> Seq<char>) -> bool {
    match (a, b) {
        (Ok(x), Ok(y)) => renamed(x, y, rn),
        (Err(d), Err(e)) => d == e,
        _ => false,
    }
}

proof fn lemma_argument(c: Call, d: Call, i: int, rn: spec_fn(Seq<char>) -> Seq<char>)
    requires
        renamed(Expr::Call(c), Expr::Call(d), rn),
    ensures
        related_argument(argument(c, i), argument(d, i), rn),
{
}

proof fn lemma_callee_name(a: Expr, b: Expr, cr: Seq<char>, rn: spec_fn(Seq<char>) -> Seq<char>)
    requires
        renamed(a, b, rn),
        injective(rn),
        rn(cr) == cr,
    ensures
        (callee_name(a) == Some(cr)) == (callee_name(b) == Some(cr)),
{
    if let Expr::Ident(x) = a {
        if rn(x@) == cr {
            assert(rn(x@) == rn(cr));
        }
    }
}

proof fn lemma_mount_call_of(s: Stmt, t: Stmt, cr: Seq<char>, rn: spec_fn(Seq<char>) -> Seq<char>)
    requires
        renamed_stmt(s, t, rn),
        injective(rn),
        rn(cr) == cr,
    ensures
        related_call(mount_call_of(s, cr), mount_call_of(t, cr), rn),
{
    if let Stmt::Expression(e) = s {
        let f = t->Expression_0;
        assert(renamed(e, f, rn));
        if let Expr::Call(outer) = e {
            let outer2 = f->Call_0;
            assert(renamed(*outer.callee, *outer2.callee, rn));
            if let Expr::Member(o, _) = *outer.callee {
                let o2 = (*outer2.callee)->Member_0;
                assert(renamed(*o, *o2, rn));
                if let Expr::Call(inner) = *o {
                    let inner2 = (*o2)->Call_0;
                    assert(renamed(*inner.callee, *inner2.callee, rn));
                    lemma_callee_name(*inner.callee, *inner2.callee, cr, rn);
                }
            }
        }
    }
}

proof fn lemma_first_mount_call(a: Seq<Stmt>, b: Seq<Stmt>, cr: Seq<char>, rn: spec_fn(Seq<char>) -> Seq<char>)
    requires
        renamed_stmts(a, b, rn),
        injective(rn),
        rn(cr) == cr,
    ensures
        related_call(first_mount_call(a, cr), first_mount_call(b, cr), rn),
    decreases a.len(),
{
    if a.len() > 0 {
        lemma_mount_call_of(a[0], b[0], cr, rn);
        assert forall|i: int| 0 <= i < a.len() - 1 implies renamed_stmt(#[trigger] a.drop_first()[i], b.drop_first()[i], rn) by {
            assert(a.drop_first()[i] == a[i + 1]);
            assert(b.drop_first()[i] == b[i + 1]);
        }
        lemma_first_mount_call(a.drop_first(), b.drop_first(), cr, rn);
    }
}

/// The root element's name, renamed.
pub open spec fn related_name(a: Result<Seq<char>, Diagnostic>, b: Result<Seq<char>, Diagnostic>, rn: spec_fn(Seq<char>) -> Seq<char>) -> bool {
    match (a, b) {
        (Ok(x), Ok(y)) => y == rn(x),
        (Err(d), Err(e)) => d == e,
        _ => false,
    }
}

proof fn lemma_root_name(p: Program, q: Program, cr: Seq<char>, rn: spec_fn(Seq<char>) -> Seq<char>)
    requires
        renamed_program(p, q, rn),
        injective(rn),
        rn(cr) == cr,
    ensures
        related_name(root_name_of(p, cr), root_name_of(q, cr), rn),
{
    assert(renamed_stmts(p.body@, q.body@, rn));
    lemma_first_mount_call(p.body@, q.body@, cr, rn);
    if let (Some(m), Some(m2)) = (first_mount_call(p.body@, cr), first_mount_call(q.body@, cr)) {
        lemma_argument(m, m2, 0, rn);
        if let (Ok(Expr::Call(r)), Ok(Expr::Call(r2))) = (argument(m, 0), argument(m2, 0)) {
            lemma_argument(r, r2, 1, rn);
            if let (Ok(Expr::Object(o)), Ok(Expr::Object(o2))) = (argument(r, 1), argument(r2, 1)) {
                assert(renamed_props(o.properties@, o2.properties@, rn));
                lemma_last_property(o.properties@, o2.properties@, "children"@, rn);
                if let (Some(Expr::Call(c)), Some(Expr::Call(c2))) = (
                    last_property(o.properties@, "children"@),
                    last_property(o2.properties@, "children"@),
                ) {
                    lemma_argument(c, c2, 0, rn);
                }
            }
        }
    }
}

proof fn lemma_bound_function(a: Seq<Declarator>, b: Seq<Declarator>, name: Seq<char>, rn: spec_fn(Seq<char>) -> Seq<char>)
    requires
        a.len() == b.len(),
        forall|i: int| 0 <= i < a.len() ==> match (#[trigger] a[i].name, b[i].name) {
            (None, None) => true,
            (Some(x), Some(y)) => y@ == rn(x@),
            _ => false,
        } && renamed_opt(a[i].init, b[i].init, rn),
        injective(rn),
    ensures
        related_function(bound_function(a, name), bound_function(b, rn(name)), rn),
    decreases a.len(),
{
    if a.len() > 0 {
        assert(renamed_opt(a[0].init, b[0].init, rn));
        if let (Some(x), Some(y)) = (a[0].name, b[0].name) {
            if rn(x@) == rn(name) {
                assert(x@ == name);
            }
        }
        assert(related_function(binds_function(a[0], name), binds_function(b[0], rn(name)), rn));
        assert forall|i: int| 0 <= i < a.len() - 1 implies match (#[trigger] a.drop_first()[i].name, b.drop_first()[i].name) {
            (None, None) => true,
            (Some(x), Some(y)) => y@ == rn(x@),
            _ => false,
        } && renamed_opt(a.drop_first()[i].init, b.drop_first()[i].init, rn) by {
            assert(a.drop_first()[i] == a[i + 1]);
            assert(b.drop_first()[i] == b[i + 1]);
            assert(a[i + 1].name == a[i + 1].name);
        }
        lemma_bound_function(a.drop_first(), b.drop_first(), name, rn);
    }
}

proof fn lemma_top_level_function(a: Seq<Stmt>, b: Seq<Stmt>, name: Seq<char>, rn: spec_fn(Seq<char>) -> Seq<char>)
    requires
        renamed_stmts(a, b, rn),
        injective(rn),
    ensures
        related_function(top_level_function(a, name), top_level_function(b, rn(name)), rn),
    decreases a.len(),
{
    if a.len() > 0 {
        assert(renamed_stmt(a[0], b[0], rn));
        if let (Stmt::Variables(ds), Stmt::Variables(es)) = (a[0], b[0]) {
            assert forall|i: int| 0 <= i < ds@.len() implies match (#[trigger] ds@[i].name, es@[i].name) {
                (None, None) => true,
                (Some(x), Some(y)) => y@ == rn(x@),
                _ => false,
            } && renamed_opt(ds@[i].init, es@[i].init, rn) by {}
            lemma_bound_function(ds@, es@, name, rn);
        }
        assert forall|i: int| 0 <= i < a.len() - 1 implies renamed_stmt(#[trigger] a.drop_first()[i], b.drop_first()[i], rn) by {
            assert(a.drop_first()[i] == a[i + 1]);
            assert(b.drop_first()[i] == b[i + 1]);
        }
        lemma_top_level_function(a.drop_first(), b.drop_first(), name, rn);
    }
}

proof fn lemma_root_function(p: Program, q: Program, cr: Seq<char>, rn: spec_fn(Seq<char>) -> Seq<char>)
    requires
        renamed_program(p, q, rn),
        injective(rn),
        rn(cr) == cr,
    ensures
        related_lookup(root_function_of(p, cr), root_function_of(q, cr), rn),
{
    lemma_root_name(p, q, cr, rn);
    if let Ok(n) = root_name_of(p, cr) {
        assert(renamed_stmts(p.body@, q.body@, rn));
        lemma_top_level_function(p.body@, q.body@, n, rn);
    }
}

proof fn lemma_calls_of(a: Seq<Option<Expr>>, b: Seq<Option<Expr>>, rn: spec_fn(Seq<char>) -> Seq<char>)
    requires
        a.len() == b.len(),
        forall|i: int| 0 <= i < a.len() ==> renamed_opt(#[trigger] a[i], b[i], rn),
    ensures
        renamed_calls(calls_of(a), calls_of(b), rn),
    decreases a.len(),
{
    if a.len() > 0 {
        let n = a.len() - 1;
        assert forall|i: int| 0 <= i < n implies renamed_opt(#[trigger] a.drop_last()[i], b.drop_last()[i], rn) by {
            assert(a.drop_last()[i] == a[i]);
        }
        lemma_calls_of(a.drop_last(), b.drop_last(), rn);
        assert(renamed_opt(a[n], b[n], rn));
        let (ca, cb) = (calls_of(a), calls_of(b));
        let (ia, ib) = (calls_of(a.drop_last()), calls_of(b.drop_last()));
        match (a.last(), b.last()) {
            (Some(Expr::Call(x)), Some(Expr::Call(y))) => {
                assert(ca == ia.push(x));
                assert(cb == ib.push(y));
                assert forall|i: int| 0 <= i < ca.len() implies renamed(Expr::Call(#[trigger] ca[i]), Expr::Call(cb[i]), rn) by {
                    if i < ia.len() {
                        assert(ca[i] == ia[i]);
                        assert(cb[i] == ib[i]);
                    }
                }
            },
            (Some(x), Some(y)) => {
                assert(x !is Call);
                assert(y !is Call);
            },
            _ => {},
        }
    }
}

/// Two lookups of section calls that found related calls or failed alike.
pub open spec fn related_sections(a: Result<Seq<Call>, Diagnostic>, b: Result<Seq<Call>, Diagnostic>, rn: spec_fn(Seq<char>) -> Seq<char>) -> bool {
    match (a, b) {
        (Ok(x), Ok(y)) => renamed_calls(x, y, rn),
        (Err(d), Err(e)) => d == e,
        _ => false,
    }
}

proof fn lemma_returned_call(f: Function, g: Function, rn: spec_fn(Seq<char>) -> Seq<char>)
    requires
        renamed(Expr::Function(f), Expr::Function(g), rn),
    ensures
        match (returned_call(f), returned_call(g)) {
            (Ok(x), Ok(y)) => renamed(Expr::Call(x), Expr::Call(y), rn),
            (Err(d), Err(e)) => d == e,
            _ => false,
        },
{
    match (f.body, g.body) {
        (Body::Expression(x), Body::Expression(y)) => {
            assert(renamed(*x, *y, rn));
        },
        (Body::Statements(s), Body::Statements(t)) => {
            if s@.len() > 0 {
                let n = s@.len() - 1;
                assert(renamed_stmt(s@[n], t@[n], rn));
                assert(s@.last() == s@[n] && t@.last() == t@[n]);
                if let (Stmt::Return(Some(x)), Stmt::Return(Some(y))) = (s@[n], t@[n]) {
                    assert(renamed(x, y, rn));
                }
            }
        },
        _ => {},
    }
}

proof fn lemma_section_calls(f: Function, g: Function, rn: spec_fn(Seq<char>) -> Seq<char>)
    requires
        renamed(Expr::Function(f), Expr::Function(g), rn),
    ensures
        related_sections(section_calls_of(f), section_calls_of(g), rn),
{
    lemma_returned_call(f, g, rn);
    if let (Ok(m), Ok(m2)) = (returned_call(f), returned_call(g)) {
        lemma_argument(m, m2, 1, rn);
        if let (Ok(Expr::Object(o)), Ok(Expr::Object(o2))) = (argument(m, 1), argument(m2, 1)) {
            assert(renamed_props(o.properties@, o2.properties@, rn));
            lemma_last_property(o.properties@, o2.properties@, "children"@, rn);
            if let (Some(Expr::Array(x)), Some(Expr::Array(y))) = (
                last_property(o.properties@, "children"@),
                last_property(o2.properties@, "children"@),
            ) {
                assert(renamed(Expr::Array(x), Expr::Array(y), rn));
                assert forall|i: int| 0 <= i < x.elements@.len() implies renamed_opt(#[trigger] x.elements@[i], y.elements@[i], rn) by {}
                lemma_calls_of(x.elements@, y.elements@, rn);
            }
        }
    }
}

proof fn lemma_section_function(p: Program, q: Program, a: Seq<Call>, b: Seq<Call>, index: int, rn: spec_fn(Seq<char>) -> Seq<char>)
    requires
        renamed_program(p, q, rn),
        renamed_calls(a, b, rn),
        injective(rn),
    ensures
        related_lookup(section_function_of(p, a, index), section_function_of(q, b, index), rn),
{
    if 0 <= index < a.len() {
        assert(renamed(Expr::Call(a[index]), Expr::Call(b[index]), rn));
        lemma_argument(a[index], b[index], 0, rn);
        if let Ok(Expr::Ident(n)) = argument(a[index], 0) {
            assert(renamed_stmts(p.body@, q.body@, rn));
            lemma_top_level_function(p.body@, q.body@, n@, rn);
        }
    }
}

/// Extraction does not depend on the names of bindings: renaming every
/// identifier of a program apart (distinct names to distinct names) leaves
/// its extraction unchanged, records, order and failures alike. The one
/// name read is the create-root callee's, which the renaming keeps.
pub proof fn extraction_ignores_renaming(p: Program, q: Program, layout: Layout, rn: spec_fn(Seq<char>) -> Seq<char>)
    requires
        renamed_program(p, q, rn),
        injective(rn),
        rn(layout.create_root@) == layout.create_root@,
    ensures
        extraction_of(q, layout) == extraction_of(p, layout),
{
    let cr = layout.create_root@;
    lemma_root_function(p, q, cr, rn);
    if let (Ok(f), Ok(g)) = (root_function_of(p, cr), root_function_of(q, cr)) {
        lemma_section_calls(f, g, rn);
        if let (Ok(a), Ok(b)) = (section_calls_of(f), section_calls_of(g)) {
            let pi = layout.platform_section as int;
            let ri = layout.reward_section as int;
            lemma_section_function(p, q, a, b, pi, rn);
            lemma_section_function(p, q, a, b, ri, rn);
            if let (Ok(x), Ok(y)) = (section_function_of(p, a, pi), section_function_of(q, b, pi)) {
                lemma_records(x, y, rn);
            }
            if let (Ok(x), Ok(y)) = (section_function_of(p, a, ri), section_function_of(q, b, ri)) {
                lemma_records(x, y, rn);
            }
        }
    }
}

} // verus!
