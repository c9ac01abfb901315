//! Locating the application's root element: the mount call, the name of the
//! root render function, and top-level function bindings.
use vstd::prelude::*;
use crate::diagnostics::{diag, Diagnostic, Step};
use crate::navigate::{
    argument, as_identifier, as_object, callee_name, has_callee_name, last_property, mismatch,
    nth_argument, object_property_by_key, same_text, ShapeError,
};
use crate::node::{Call, Declarator, Expr, Function, NodeKind, Program, Stmt};

verus! {

/// The mount call of statement `s`: an expression statement
/// `a.b(..)` whose object `a` is a call of a callee named `create_root`.
pub open spec fn mount_call_of(s: Stmt, create_root: Seq<char>) -> Option<Call> {
    match s {
        Stmt::Expression(Expr::Call(outer)) => match *outer.callee {
            Expr::Member(object, _) => match *object {
                Expr::Call(inner) => if callee_name(*inner.callee) == Some(create_root) {
                    Some(outer)
                } else {
                    None
                },
                _ => None,
            },
            _ => None,
        },
        _ => None,
    }
}

/// The mount call of the first statement of `stmts` that holds one.
pub open spec fn first_mount_call(stmts: Seq<Stmt>, create_root: Seq<char>) -> Option<Call>
    decreases stmts.len(),
{
    if stmts.len() == 0 {
        None
    } else {
        match mount_call_of(stmts[0], create_root) {
            Some(c) => Some(c),
            None => first_mount_call(stmts.drop_first(), create_root),
        }
    }
}

/// The root element's name: the identifier passed first to the call under
/// `children` in the props of the mount call's first argument; or the first
/// of those expectations that fails.
pub open spec fn root_name_of(p: Program, create_root: Seq<char>) -> Result<Seq<char>, Diagnostic> {
    match first_mount_call(p.body@, create_root) {
        None => Err(diag(Step::MountCall, ShapeError::NotFound)),
        Some(mount) => match argument(mount, 0) {
            Err(e) => Err(diag(Step::RenderArgument, e)),
            Ok(Expr::Call(render)) => match argument(render, 1) {
                Err(e) => Err(diag(Step::RootProps, e)),
                Ok(Expr::Object(props)) => match last_property(props.properties@, "children"@) {
                    None => Err(diag(Step::RootChildren, ShapeError::PropertyAbsent)),
                    Some(Expr::Call(child)) => match argument(child, 0) {
                        Err(e) => Err(diag(Step::RootElementName, e)),
                        Ok(Expr::Ident(n)) => Ok(n@),
                        Ok(other) => Err(diag(Step::RootElementName, mismatch(NodeKind::Identifier, other))),
                    },
                    Some(other) => Err(diag(Step::RootChildren, mismatch(NodeKind::CallExpression, other))),
                },
                Ok(other) => Err(diag(Step::RootProps, mismatch(NodeKind::ObjectExpression, other))),
            },
            Ok(other) => Err(diag(Step::RenderArgument, mismatch(NodeKind::CallExpression, other))),
        },
    }
}

/// The mount call of `s`, as [`mount_call_of`] states.
fn mount_call<'a>(s: &'a Stmt, create_root: &str) -> (r: Option<&'a Call>)
    ensures
        match r {
            Some(c) => mount_call_of(*s, create_root@) == Some(*c),
            None => mount_call_of(*s, create_root@) is None,
        },
{
    if let Stmt::Expression(Expr::Call(outer)) = s {
        if let Expr::Member(object, _) = &*outer.callee {
            if let Expr::Call(inner) = &**object {
                if has_callee_name(inner, create_root) {
                    return Some(outer);
                }
            }
        }
    }
    None
}

/// The first mount call of the program, as [`first_mount_call`] states.
pub fn find_mount_call<'a>(program: &'a Program, create_root: &str) -> (r: Option<&'a Call>)
    ensures
        match r {
            Some(c) => first_mount_call(program.body@, create_root@) == Some(*c),
            None => first_mount_call(program.body@, create_root@) is None,
        },
{
    let stmts = &program.body;
    let mut i: usize = 0;
    assert(stmts@.subrange(0, stmts@.len() as int) == stmts@);
    while i < stmts.len()
        invariant
            stmts@ == program.body@,
            i <= stmts@.len(),
            first_mount_call(stmts@, create_root@) == first_mount_call(
                stmts@.subrange(i as int, stmts@.len() as int),
                create_root@,
            ),
        decreases stmts@.len() - i,
    {
        let ghost rest = stmts@.subrange(i as int, stmts@.len() as int);
        assert(rest.drop_first() == stmts@.subrange(i + 1, stmts@.len() as int));
        assert(rest[0] == stmts@[i as int]);
        if let Some(c) = mount_call(&stmts[i], create_root) {
            return Some(c);
        }
        i = i + 1;
    }
    None
}

/// The name of the application's root element, as [`root_name_of`] states.
pub fn get_root_element_name<'a>(program: &'a Program, create_root: &str) -> (r: Result<&'a String, Diagnostic>)
    ensures
        match r {
            Ok(n) => root_name_of(*program, create_root@) == Ok::<Seq<char>, Diagnostic>(n@),
            Err(d) => root_name_of(*program, create_root@) == Err::<Seq<char>, Diagnostic>(d),
        },
{
    let mount = match find_mount_call(program, create_root) {
        Some(c) => c,
        None => return Err(Diagnostic { step: Step::MountCall, error: ShapeError::NotFound }),
    };
    let render = match nth_argument(mount, 0) {
        Ok(Expr::Call(c)) => c,
        Ok(other) => return Err(Diagnostic {
            step: Step::RenderArgument,
            error: ShapeError::KindMismatch { expected: NodeKind::CallExpression, found: other.kind() },
        }),
        Err(e) => return Err(Diagnostic { step: Step::RenderArgument, error: e }),
    };
    let props = match nth_argument(render, 1) {
        Ok(e) => match as_object(e) {
            Ok(o) => o,
            Err(e) => return Err(Diagnostic { step: Step::RootProps, error: e }),
        },
        Err(e) => return Err(Diagnostic { step: Step::RootProps, error: e }),
    };
    let child = match object_property_by_key(props, "children") {
        Some(Expr::Call(c)) => c,
        Some(other) => return Err(Diagnostic {
            step: Step::RootChildren,
            error: ShapeError::KindMismatch { expected: NodeKind::CallExpression, found: other.kind() },
        }),
        None => return Err(Diagnostic { step: Step::RootChildren, error: ShapeError::PropertyAbsent }),
    };
    match nth_argument(child, 0) {
        Ok(e) => match as_identifier(e) {
            Ok(n) => Ok(n),
            Err(e) => Err(Diagnostic { step: Step::RootElementName, error: e }),
        },
        Err(e) => Err(Diagnostic { step: Step::RootElementName, error: e }),
    }
}

/// The function that declarator `d` binds to `name`, if it binds one.
pub open spec fn binds_function(d: Declarator, name: Seq<char>) -> Option<Function> {
    match (d.name, d.init) {
        (Some(n), Some(Expr::Function(f))) => if n@ == name {
            Some(f)
        } else {
            None
        },
        _ => None,
    }
}

/// The function that the first of `decls` binding one to `name` binds.
pub open spec fn bound_function(decls: Seq<Declarator>, name: Seq<char>) -> Option<Function>
    decreases decls.len(),
{
    if decls.len() == 0 {
        None
    } else {
        match binds_function(decls[0], name) {
            Some(f) => Some(f),
            None => bound_function(decls.drop_first(), name),
        }
    }
}

/// The function bound to `name` by the first variable declaration of
/// `stmts` that binds one to it.
pub open spec fn top_level_function(stmts: Seq<Stmt>, name: Seq<char>) -> Option<Function>
    decreases stmts.len(),
{
    if stmts.len() == 0 {
        None
    } else {
        match stmts[0] {
            Stmt::Variables(decls) => match bound_function(decls@, name) {
                Some(f) => Some(f),
                None => top_level_function(stmts.drop_first(), name),
            },
            _ => top_level_function(stmts.drop_first(), name),
        }
    }
}

/// The function bound to `name` in `decls`, as [`bound_function`] states.
fn find_in_declarators<'a>(decls: &'a Vec<Declarator>, name: &str) -> (r: Option<&'a Function>)
    ensures
        match r {
            Some(f) => bound_function(decls@, name@) == Some(*f),
            None => bound_function(decls@, name@) is None,
        },
{
    let mut k: usize = 0;
    assert(decls@.subrange(0, decls@.len() as int) == decls@);
    while k < decls.len()
        invariant
            k <= decls@.len(),
            bound_function(decls@, name@) == bound_function(
                decls@.subrange(k as int, decls@.len() as int),
                name@,
            ),
        decreases decls@.len() - k,
    {
        let ghost rest = decls@.subrange(k as int, decls@.len() as int);
        assert(rest.drop_first() == decls@.subrange(k + 1, decls@.len() as int));
        assert(rest[0] == decls@[k as int]);
        let d = &decls[k];
        if let (Some(n), Some(Expr::Function(f))) = (&d.name, &d.init) {
            if same_text(n.as_str(), name) {
                return Some(f);
            }
        }
        k = k + 1;
    }
    None
}

/// The top-level function bound to `name`, as [`top_level_function`]
/// states.
pub fn find_function<'a>(program: &'a Program, name: &str) -> (r: Option<&'a Function>)
    ensures
        match r {
            Some(f) => top_level_function(program.body@, name@) == Some(*f),
            None => top_level_function(program.body@, name@) is None,
        },
{
    let stmts = &program.body;
    let mut i: usize = 0;
    assert(stmts@.subrange(0, stmts@.len() as int) == stmts@);
    while i < stmts.len()
        invariant
            stmts@ == program.body@,
            i <= stmts@.len(),
            top_level_function(stmts@, name@) == top_level_function(
                stmts@.subrange(i as int, stmts@.len() as int),
                name@,
            ),
        decreases stmts@.len() - i,
    {
        let ghost rest = stmts@.subrange(i as int, stmts@.len() as int);
        assert(rest.drop_first() == stmts@.subrange(i + 1, stmts@.len() as int));
        assert(rest[0] == stmts@[i as int]);
        if let Stmt::Variables(decls) = &stmts[i] {
            if let Some(f) = find_in_declarators(decls, name) {
                return Some(f);
            }
        }
        i = i + 1;
    }
    None
}

/// The root element's render function: the top-level function bound to the
/// root element's name.
pub open spec fn root_function_of(p: Program, create_root: Seq<char>) -> Result<Function, Diagnostic> {
    match root_name_of(p, create_root) {
        Err(d) => Err(d),
        Ok(n) => match top_level_function(p.body@, n) {
            Some(f) => Ok(f),
            None => Err(diag(Step::RootFunction, ShapeError::NotFound)),
        },
    }
}

/// The root element's render function, as [`root_function_of`] states.
pub fn extract_root_element<'a>(program: &'a Program, create_root: &str) -> (r: Result<&'a Function, Diagnostic>)
    ensures
        match r {
            Ok(f) => root_function_of(*program, create_root@) == Ok::<Function, Diagnostic>(*f),
            Err(d) => root_function_of(*program, create_root@) == Err::<Function, Diagnostic>(d),
        },
{
    let name = get_root_element_name(program, create_root)?;
    match find_function(program, name.as_str()) {
        Some(f) => Ok(f),
        None => Err(Diagnostic { step: Step::RootFunction, error: ShapeError::NotFound }),
    }
}

} // verus!
