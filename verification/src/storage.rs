//! Storage declaration helpers from the semantic analyzer: the typed field
//! of a contract's storage block.
//!
//! The type engine's identifiers and the typed expression behind a field's
//! initializer belong to the compiler; they are held here as the plain
//! values a storage field carries of them.

use vstd::prelude::*;

use crate::variable::Ident;
use crate::variable::IdentView;
use crate::variable::Span;

verus! {

/// An index into the type engine's table of resolved types.
#[derive(Clone, Copy, Debug, PartialEq, Eq, Structural)]
pub struct TypeId(pub usize);

/// What a storage field holds of its initializer expression: the resolved
/// type it returns and where it stands in the source.
#[derive(Clone, Copy, Debug, PartialEq, Eq, Structural)]
pub struct TypedExpression {
    pub return_type: TypeId,
    pub span: Span,
}

/// One typed field of a storage declaration: its name, its resolved type,
/// and its initializer.
#[derive(Debug)]
pub struct TypedStorageField {
    pub(crate) name: Ident,
    type_id: TypeId,
    initializer: TypedExpression,
}

pub ghost struct TypedStorageFieldView {
    pub name: IdentView,
    pub type_id: TypeId,
    pub initializer: TypedExpression,
}

impl View for TypedStorageField {
    type V = TypedStorageFieldView;

    closed spec fn view(&self) -> TypedStorageFieldView {
        TypedStorageFieldView {
            name: self.name@,
            type_id: self.type_id,
            initializer: self.initializer,
        }
    }
}

impl TypedStorageField {
    /// A storage field from its parts.
    pub fn new(name: Ident, type_id: TypeId, initializer: TypedExpression) -> (r: Self)
        ensures
            r@.name == name@,
            r@.type_id == type_id,
            r@.initializer == initializer,
    {
        TypedStorageField { name, type_id, initializer }
    }

    /// The field's name, as declared.
    pub fn name(&self) -> (r: &Ident)
        ensures
            r@ == self@.name,
    {
        &self.name
    }
}

} // verus!
