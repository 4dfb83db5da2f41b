//! Failures internal to the intermediate representation, surfaced to
//! compiler developers rather than to end users.

use vstd::prelude::*;

verus! {

/// An internal IR failure: a malformed construct found while building,
/// parsing, or verifying the intermediate representation.
#[derive(Debug)]
pub enum IrError {
    FunctionLocalClobbered(String, String),
    InvalidMetadatum,
    MismatchedReturnTypes(String),
    MisplacedTerminator(String),
    MissingBlock(String),
    MissingTerminator(String),
    NonUniquePhiLabels,
    ParseFailure(String, String),
    ValueNotFound(String),
    VerifyBranchToMissingBlock(String),
    VerifyCallToMissingFunction(String),
    VerifyArgumentValueIsNotArgument(String),
    VerifyUntypedValuePassedToFunction,
    VerifyCallArgTypeMismatch(String),
}

} // verus!
