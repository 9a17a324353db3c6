//! Types of other crates that pass through the decoder unopened.

use vstd::prelude::*;

verus! {

/// A JSON document as serde_json holds it.
#[verifier::external_type_specification]
#[verifier::external_body]
pub struct ExJsonTree(serde_json::Value);

} // verus!
