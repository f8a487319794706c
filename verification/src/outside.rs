//! Declarations of outside types that the library's signatures carry.

use vstd::prelude::*;

verus! {

/// `anyhow::Error`, the error type of the program's fallible operations;
/// the library passes such errors through without looking inside.
#[verifier::external_type_specification]
#[verifier::external_body]
pub struct ExAnyhowError(anyhow::Error);

} // verus!
