//! The wall clock.

use vstd::prelude::*;

verus! {

/// The current UTC time as text.
///
/// Trusted: calls `chrono::offset::Utc::now` and prints the value with
/// `{:?}`. The text differs from call to call, so nothing is claimed of it.
#[verifier::external_body]
pub(crate) fn utc_now_text() -> String {
    format!("{:?}", chrono::offset::Utc::now())
}

} // verus!
