//! Wrappers marking a payload as validated: a transport layer constructs
//! them only after decoding a request body or query string and running the
//! upstream validator over it.

use vstd::prelude::*;

verus! {

/// A payload decoded from a request body and validated upstream.
pub struct JSONValidate<T>(pub T);

/// A payload decoded from a query string and validated upstream.
pub struct QueryValidate<T>(pub T);

} // verus!
