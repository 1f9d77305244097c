//! What the catalog requests decide, separated from the HTTP layer:
//! validating a creation request and building the row to insert.

use vstd::prelude::*;

verus! {

use crate::clock::unix_now;
use crate::domain::service::{service_name_ok, NewService, Service, ServiceName};
use crate::entropy::random_u128;
use crate::text::trim_spec;

/// A catalog creation request body.
pub struct CreateService {
    pub name: String,
}

impl NewService {
    /// Validate a creation request: exactly the names `ServiceName::parse`
    /// accepts pass.
    pub fn try_from(value: CreateService) -> (r: Result<Self, String>)
        ensures
            r is Ok <==> service_name_ok(value.name@),
            r matches Ok(n) ==> n.name@ == trim_spec(value.name@),
            r matches Err(e) ==> e@ == value.name@ + " is not a valid service name."@,
    {
        match ServiceName::parse(value.name) {
            Ok(name) => Ok(NewService { name }),
            Err(e) => Err(e),
        }
    }
}

/// The catalog row a validated request becomes: a fresh random id and
/// the creation instant read from the clock.
pub fn new_service_row(new: NewService) -> (r: Service)
    ensures
        r.name@ == new.name@,
{
    Service { id: random_u128(), name: new.name, created_at: unix_now() }
}

} // verus!
