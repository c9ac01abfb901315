//! Failure reasons: which lookup failed, where in the tree, and why.
use vstd::prelude::*;
use crate::navigate::ShapeError;
use crate::node::NodeKind;

verus! {

/// The lookup during which a shape did not match.
#[derive(Clone, Copy, Debug, PartialEq, Eq, Structural)]
pub enum Step {
    /// The top-level statement `a.createRoot(..).render(..)`.
    MountCall,
    /// The first argument of the mount call, a call.
    RenderArgument,
    /// The second argument of that call, an object literal.
    RootProps,
    /// Its `children` property, a call.
    RootChildren,
    /// The first argument of that call, the root element's identifier.
    RootElementName,
    /// The top-level binding of the root element's name to a function.
    RootFunction,
    /// The call the root function returns.
    RootReturn,
    /// The second argument of that call, an object literal.
    MainProps,
    /// Its `children` property, an array literal of section calls.
    MainChildren,
    /// The requested position among the section calls.
    SectionIndex,
    /// The first argument of the section call, the section's identifier.
    SectionName,
    /// The top-level binding of the section's name to a function.
    SectionFunction,
}

/// A failed lookup: where it was made and what was found instead.
#[derive(Clone, Copy, Debug, PartialEq, Eq, Structural)]
pub struct Diagnostic {
    pub step: Step,
    pub error: ShapeError,
}

/// The diagnostic for `error` at `step`.
pub open spec fn diag(step: Step, error: ShapeError) -> Diagnostic {
    Diagnostic { step, error }
}

/// Why an extraction failed as a whole.
#[derive(Clone, Copy, Debug, PartialEq, Eq, Structural)]
pub enum ExtractError {
    /// The mount call, the root element or its list of sections is not
    /// where its shape puts it.
    RootNotFound(Diagnostic),
    /// The root element renders another number of sections than expected,
    /// so positions among them mean nothing.
    SectionCountMismatch { expected: usize, found: usize },
    /// Neither requested section could be resolved.
    SectionsUnresolved { platforms: Diagnostic, rewards: Diagnostic },
}

/// What was sought at a step, in words.
pub open spec fn step_text(step: Step) -> Seq<char> {
    match step {
        Step::MountCall => "the createRoot(..).render(..) mount call"@,
        Step::RenderArgument => "the call passed to render()"@,
        Step::RootProps => "the props object of the root element call"@,
        Step::RootChildren => "the 'children' call in the root element props"@,
        Step::RootElementName => "the root element identifier"@,
        Step::RootFunction => "the root element function"@,
        Step::RootReturn => "the call returned by the root element function"@,
        Step::MainProps => "the props object of the root element's returned call"@,
        Step::MainChildren => "the 'children' array of section calls"@,
        Step::SectionIndex => "the requested section position"@,
        Step::SectionName => "the section identifier"@,
        Step::SectionFunction => "the section function"@,
    }
}

/// The name of a node kind, in words.
pub open spec fn kind_text(kind: NodeKind) -> Seq<char> {
    match kind {
        NodeKind::Identifier => "an identifier"@,
        NodeKind::StringLiteral => "a string literal"@,
        NodeKind::NumericLiteral => "a numeric literal"@,
        NodeKind::CallExpression => "a call"@,
        NodeKind::StaticMember => "a member access"@,
        NodeKind::ComputedMember => "a computed member access"@,
        NodeKind::ObjectExpression => "an object literal"@,
        NodeKind::ArrayExpression => "an array literal"@,
        NodeKind::Function => "a function"@,
        NodeKind::OtherExpression => "another expression"@,
    }
}

/// Why a lookup failed, in words.
pub open spec fn error_text(e: ShapeError) -> Seq<char> {
    match e {
        ShapeError::Arity { .. } => "no item at that position"@,
        ShapeError::KindMismatch { expected, found } => "expected "@ + kind_text(expected) + ", found "@
            + kind_text(found),
        ShapeError::PropertyAbsent => "property absent"@,
        ShapeError::NotFound => "not found"@,
    }
}

/// A diagnostic in words: what was sought, then why it failed.
pub open spec fn message_of(d: Diagnostic) -> Seq<char> {
    step_text(d.step) + ": "@ + error_text(d.error)
}

impl Step {
    /// What was sought at this step, as [`step_text`] states.
    pub fn text(&self) -> (r: &'static str)
        ensures
            r@ == step_text(*self),
    {
        match self {
            Step::MountCall => "the createRoot(..).render(..) mount call",
            Step::RenderArgument => "the call passed to render()",
            Step::RootProps => "the props object of the root element call",
            Step::RootChildren => "the 'children' call in the root element props",
            Step::RootElementName => "the root element identifier",
            Step::RootFunction => "the root element function",
            Step::RootReturn => "the call returned by the root element function",
            Step::MainProps => "the props object of the root element's returned call",
            Step::MainChildren => "the 'children' array of section calls",
            Step::SectionIndex => "the requested section position",
            Step::SectionName => "the section identifier",
            Step::SectionFunction => "the section function",
        }
    }
}

/// The name of `kind`, as [`kind_text`] states.
pub fn kind_name(kind: NodeKind) -> (r: &'static str)
    ensures
        r@ == kind_text(kind),
{
    match kind {
        NodeKind::Identifier => "an identifier",
        NodeKind::StringLiteral => "a string literal",
        NodeKind::NumericLiteral => "a numeric literal",
        NodeKind::CallExpression => "a call",
        NodeKind::StaticMember => "a member access",
        NodeKind::ComputedMember => "a computed member access",
        NodeKind::ObjectExpression => "an object literal",
        NodeKind::ArrayExpression => "an array literal",
        NodeKind::Function => "a function",
        NodeKind::OtherExpression => "another expression",
    }
}

impl Diagnostic {
    /// This diagnostic in words, as [`message_of`] states.
    pub fn message(&self) -> (r: String)
        ensures
            r@ == message_of(*self),
    {
        let mut out = String::from_str(self.step.text());
        out.append(": ");
        match self.error {
            ShapeError::Arity { .. } => out.append("no item at that position"),
            ShapeError::KindMismatch { expected, found } => {
                out.append("expected ");
                out.append(kind_name(expected));
                out.append(", found ");
                out.append(kind_name(found));
            },
            ShapeError::PropertyAbsent => out.append("property absent"),
            ShapeError::NotFound => out.append("not found"),
        }
        out
    }
}

} // verus!
