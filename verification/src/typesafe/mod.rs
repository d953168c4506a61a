//! System One client abstraction and the request/response bodies.

pub mod api;
pub mod http;
pub mod stub;

use vstd::prelude::*;

use crate::error::TypesafeError;
use api::{SystemOneRequest, SystemOneResponse};

verus! {

/// Abstraction over the System One evaluation endpoint.
///
/// Implement this for real HTTP, stubs, or record/replay in tests. Nothing
/// is assumed of the answers: callers check their shape.
pub trait TypesafeClient {
    /// `r` is a result this client gives for `request`. An implementation
    /// that knows its answers states them here; by default any result is
    /// possible.
    open spec fn replies(&self, request: SystemOneRequest, r: Result<SystemOneResponse, TypesafeError>) -> bool {
        true
    }

    fn system_one(&self, request: &SystemOneRequest) -> (r: Result<SystemOneResponse, TypesafeError>)
        ensures
            self.replies(*request, r),
    ;
}

} // verus!
