//! Resolving the sections the root element renders, by position, to their
//! own render functions.
use vstd::prelude::*;
use crate::diagnostics::{diag, Diagnostic, Step};
use crate::locate::{find_function, top_level_function};
use crate::navigate::{argument, as_array, as_identifier, as_object, last_property, mismatch, nth_argument, object_property_by_key, ShapeError};
use crate::node::{ArrayExpr, Body, Call, Expr, Function, NodeKind, Program, Stmt};
use crate::records::derefs;

verus! {

/// The call that function `f` returns: its abbreviated body, or the
/// argument of the `return` that ends its statement list.
pub open spec fn returned_call(f: Function) -> Result<Call, ShapeError> {
    match f.body {
        Body::Expression(e) => match *e {
            Expr::Call(c) => Ok(c),
            other => Err(mismatch(NodeKind::CallExpression, other)),
        },
        Body::Statements(stmts) => if stmts@.len() == 0 {
            Err(ShapeError::NotFound)
        } else {
            match stmts@.last() {
                Stmt::Return(Some(Expr::Call(c))) => Ok(c),
                Stmt::Return(Some(other)) => Err(mismatch(NodeKind::CallExpression, other)),
                _ => Err(ShapeError::NotFound),
            }
        },
    }
}

/// The calls among `elements`, in order; holes and other elements are
/// left out.
pub open spec fn calls_of(elements: Seq<Option<Expr>>) -> Seq<Call>
    decreases elements.len(),
{
    if elements.len() == 0 {
        Seq::empty()
    } else {
        let init = calls_of(elements.drop_last());
        match elements.last() {
            Some(Expr::Call(c)) => init.push(c),
            _ => init,
        }
    }
}

/// The section calls of the root render function `root`: the calls in the
/// `children` array of the props its returned call is given second.
pub open spec fn section_calls_of(root: Function) -> Result<Seq<Call>, Diagnostic> {
    match returned_call(root) {
        Err(e) => Err(diag(Step::RootReturn, e)),
        Ok(main) => match argument(main, 1) {
            Err(e) => Err(diag(Step::MainProps, e)),
            Ok(Expr::Object(props)) => match last_property(props.properties@, "children"@) {
                None => Err(diag(Step::MainChildren, ShapeError::PropertyAbsent)),
                Some(Expr::Array(arr)) => Ok(calls_of(arr.elements@)),
                Some(other) => Err(diag(Step::MainChildren, mismatch(NodeKind::ArrayExpression, other))),
            },
            Ok(other) => Err(diag(Step::MainProps, mismatch(NodeKind::ObjectExpression, other))),
        },
    }
}

/// The call `f` returns, as [`returned_call`] states.
pub fn get_returned_call(f: &Function) -> (r: Result<&Call, ShapeError>)
    ensures
        match r {
            Ok(c) => returned_call(*f) == Ok::<Call, ShapeError>(*c),
            Err(e) => returned_call(*f) == Err::<Call, ShapeError>(e),
        },
{
    match &f.body {
        Body::Expression(e) => match &**e {
            Expr::Call(c) => Ok(c),
            other => Err(ShapeError::KindMismatch { expected: NodeKind::CallExpression, found: other.kind() }),
        },
        Body::Statements(stmts) => {
            if stmts.len() == 0 {
                return Err(ShapeError::NotFound);
            }
            match &stmts[stmts.len() - 1] {
                Stmt::Return(Some(Expr::Call(c))) => Ok(c),
                Stmt::Return(Some(other)) => Err(
                    ShapeError::KindMismatch { expected: NodeKind::CallExpression, found: other.kind() },
                ),
                _ => Err(ShapeError::NotFound),
            }
        },
    }
}

/// The calls among the elements of `arr`, as [`calls_of`] states.
fn element_calls<'a>(arr: &'a ArrayExpr) -> (r: Vec<&'a Call>)
    ensures
        derefs(r@) == calls_of(arr.elements@),
{
    let elems = &arr.elements;
    let mut out: Vec<&'a Call> = Vec::new();
    let mut i: usize = 0;
    assert(derefs(out@) =~= calls_of(elems@.subrange(0, 0)));
    while i < elems.len()
        invariant
            elems@ == arr.elements@,
            i <= elems@.len(),
            derefs(out@) == calls_of(elems@.subrange(0, i as int)),
        decreases elems@.len() - i,
    {
        assert(elems@.subrange(0, i + 1).drop_last() == elems@.subrange(0, i as int));
        if let Some(Expr::Call(c)) = &elems[i] {
            let ghost prev = out@;
            out.push(c);
            assert(derefs(out@) =~= derefs(prev).push(*c));
        }
        i = i + 1;
    }
    assert(elems@.subrange(0, elems@.len() as int) == elems@);
    out
}

/// The section calls of the root render function, as [`section_calls_of`]
/// states.
pub fn get_all_top_level_elements<'a>(root: &'a Function) -> (r: Result<Vec<&'a Call>, Diagnostic>)
    ensures
        match r {
            Ok(calls) => section_calls_of(*root) == Ok::<Seq<Call>, Diagnostic>(derefs(calls@)),
            Err(d) => section_calls_of(*root) == Err::<Seq<Call>, Diagnostic>(d),
        },
{
    let main = match get_returned_call(root) {
        Ok(c) => c,
        Err(e) => return Err(Diagnostic { step: Step::RootReturn, error: e }),
    };
    let props = match nth_argument(main, 1) {
        Ok(e) => match as_object(e) {
            Ok(o) => o,
            Err(e) => return Err(Diagnostic { step: Step::MainProps, error: e }),
        },
        Err(e) => return Err(Diagnostic { step: Step::MainProps, error: e }),
    };
    let children = match object_property_by_key(props, "children") {
        Some(e) => match as_array(e) {
            Ok(a) => a,
            Err(e) => return Err(Diagnostic { step: Step::MainChildren, error: e }),
        },
        None => return Err(Diagnostic { step: Step::MainChildren, error: ShapeError::PropertyAbsent }),
    };
    Ok(element_calls(children))
}

/// The render function of the section at position `index` of `sections`:
/// the top-level function bound to the identifier the section call is
/// given first.
pub open spec fn section_function_of(p: Program, sections: Seq<Call>, index: int) -> Result<Function, Diagnostic> {
    if !(0 <= index < sections.len()) {
        Err(diag(Step::SectionIndex, ShapeError::Arity { index: index as usize, len: sections.len() as usize }))
    } else {
        match argument(sections[index], 0) {
            Err(e) => Err(diag(Step::SectionName, e)),
            Ok(Expr::Ident(n)) => match top_level_function(p.body@, n@) {
                Some(f) => Ok(f),
                None => Err(diag(Step::SectionFunction, ShapeError::NotFound)),
            },
            Ok(other) => Err(diag(Step::SectionName, mismatch(NodeKind::Identifier, other))),
        }
    }
}

/// The render function of section `index`, as [`section_function_of`]
/// states.
pub fn resolve_section<'a>(program: &'a Program, sections: &Vec<&'a Call>, index: usize) -> (r: Result<&'a Function, Diagnostic>)
    ensures
        match r {
            Ok(f) => section_function_of(*program, derefs(sections@), index as int) == Ok::<Function, Diagnostic>(*f),
            Err(d) => section_function_of(*program, derefs(sections@), index as int) == Err::<Function, Diagnostic>(d),
        },
{
    if index >= sections.len() {
        return Err(Diagnostic {
            step: Step::SectionIndex,
            error: ShapeError::Arity { index, len: sections.len() },
        });
    }
    let call: &Call = sections[index];
    assert(derefs(sections@)[index as int] == *call);
    let name = match nth_argument(call, 0) {
        Ok(e) => match as_identifier(e) {
            Ok(n) => n,
            Err(e) => return Err(Diagnostic { step: Step::SectionName, error: e }),
        },
        Err(e) => return Err(Diagnostic { step: Step::SectionName, error: e }),
    };
    match find_function(program, name.as_str()) {
        Some(f) => Ok(f),
        None => Err(Diagnostic { step: Step::SectionFunction, error: ShapeError::NotFound }),
    }
}

} // verus!
