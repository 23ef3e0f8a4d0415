//! Values of outside crates that records carry through unchanged.

use vstd::prelude::*;

verus! {

/// A JSON value (`serde_json::Value`), carried as it is.
#[verifier::external_type_specification]
#[verifier::external_body]
pub struct ExJsonValue(serde_json::Value);

/// A date and time without time zone (`chrono::NaiveDateTime`), carried as it is.
#[verifier::external_type_specification]
#[verifier::external_body]
pub struct ExNaiveDateTime(chrono::NaiveDateTime);

} // verus!
