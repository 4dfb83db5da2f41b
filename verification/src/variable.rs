//! Variable declaration helpers from the semantic analyzer: the mutability
//! and visibility of a declared variable, and the reserved-name check
//! applied to variable names.

use vstd::prelude::*;

use crate::text::str_eq;

verus! {

/// Whether an item is visible outside its module.
#[derive(Clone, Copy, Debug, PartialEq, Eq, Structural)]
pub enum Visibility {
    Private,
    Public,
}

/// A source region, as byte offsets into the file being compiled.
#[derive(Clone, Copy, Debug, PartialEq, Eq, Structural)]
pub struct Span {
    pub start: usize,
    pub end: usize,
}

/// An identifier occurring in a source file: its text and where it stands.
#[derive(Debug)]
pub struct Ident {
    pub name: String,
    pub span: Span,
}

pub ghost struct IdentView {
    pub name: Seq<char>,
    pub span: Span,
}

impl View for Ident {
    type V = IdentView;

    open spec fn view(&self) -> IdentView {
        IdentView { name: self.name@, span: self.span }
    }
}

impl Clone for Ident {
    fn clone(&self) -> (r: Self)
        ensures
            r@ == self@,
    {
        Ident { name: self.name.clone(), span: self.span }
    }
}

/// How a variable declaration may be used and seen.
///
/// A mutable variable is always private; only an exported constant is
/// public, and public together with mutable is invalid by construction.
#[derive(Clone, Copy, Debug, PartialEq, Eq, Structural)]
pub enum VariableMutability {
    /// Private and mutable.
    Mutable,
    /// Private and immutable.
    Immutable,
    /// Public and immutable.
    ExportedConst,
}

impl Default for VariableMutability {
    fn default() -> (r: Self)
        ensures
            r == VariableMutability::Immutable,
    {
        VariableMutability::Immutable
    }
}

impl VariableMutability {
    /// Whether the variable may be reassigned.
    pub fn is_mutable(&self) -> (r: bool)
        ensures
            r == (*self is Mutable),
    {
        matches!(self, VariableMutability::Mutable)
    }

    /// The visibility the mutability implies: only an exported constant is
    /// public.
    pub fn visibility(&self) -> (r: Visibility)
        ensures
            r == (if *self is ExportedConst {
                Visibility::Public
            } else {
                Visibility::Private
            }),
    {
        match self {
            VariableMutability::ExportedConst => Visibility::Public,
            _ => Visibility::Private,
        }
    }

    /// Whether the variable may not be reassigned.
    pub fn is_immutable(&self) -> (r: bool)
        ensures
            r == !(*self is Mutable),
    {
        !self.is_mutable()
    }
}

impl From<bool> for VariableMutability {
    /// As a bool, true means mutable.
    fn from(o: bool) -> (r: Self)
        ensures
            r == (if o {
                VariableMutability::Mutable
            } else {
                VariableMutability::Immutable
            }),
    {
        if o {
            VariableMutability::Mutable
        } else {
            VariableMutability::Immutable
        }
    }
}

impl vstd::std_specs::convert::FromSpecImpl<bool> for VariableMutability {
    open spec fn obeys_from_spec() -> bool {
        true
    }

    open spec fn from_spec(o: bool) -> Self {
        if o {
            VariableMutability::Mutable
        } else {
            VariableMutability::Immutable
        }
    }
}

impl From<VariableMutability> for bool {
    /// As a bool, true means mutable.
    fn from(o: VariableMutability) -> (r: bool)
        ensures
            r == (o is Mutable),
    {
        o.is_mutable()
    }
}

impl vstd::std_specs::convert::FromSpecImpl<VariableMutability> for bool {
    open spec fn obeys_from_spec() -> bool {
        true
    }

    open spec fn from_spec(o: VariableMutability) -> bool {
        o is Mutable
    }
}

/// An error raised while checking declarations.
#[derive(Debug)]
pub enum CompileError {
    /// The name is reserved and cannot be used for a variable.
    InvalidVariableName { name: String, span: Span },
}

/// A warning raised while checking declarations.
#[derive(Debug)]
pub struct CompileWarning {
    pub span: Span,
    pub msg: String,
}

/// The semantic analyzer's result shape: an optional value together with
/// accumulated warnings and errors.
#[derive(Debug)]
pub struct CompileResult<T> {
    pub value: Option<T>,
    pub warnings: Vec<CompileWarning>,
    pub errors: Vec<CompileError>,
}

/// Whether `s` is reserved and may not name a variable.
pub open spec fn is_reserved_name(s: Seq<char>) -> bool {
    s == "storage"@
}

/// Reject reserved variable names: a name equal to a reserved word yields
/// an `InvalidVariableName` error carrying the name's text and span, and
/// any other name passes with no value-level complaint.
pub fn check_if_name_is_invalid(name: &Ident) -> (r: CompileResult<()>)
    ensures
        !is_reserved_name(name@.name) ==> r.value == Some(()) && r.errors@.len() == 0,
        is_reserved_name(name@.name) ==> r.value is None && r.errors@.len() == 1 && (
        r.errors@[0] matches CompileError::InvalidVariableName { name: n, span } && n@
            == name@.name && span == name@.span),
        r.warnings@.len() == 0,
{
    if str_eq(name.name.as_str(), "storage") {
        let mut errors: Vec<CompileError> = Vec::new();
        errors.push(
            CompileError::InvalidVariableName { name: name.name.clone(), span: name.span },
        );
        CompileResult { value: None, warnings: Vec::new(), errors }
    } else {
        CompileResult { value: Some(()), warnings: Vec::new(), errors: Vec::new() }
    }
}

} // verus!
