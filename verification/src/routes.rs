//! Decisions that the request handlers take before touching the database.

use vstd::prelude::*;

use crate::types::ListNew;

verus! {

/// A request that the service refuses.
#[derive(Debug, Clone, Copy, PartialEq, Eq, Structural)]
pub enum RouteError {
    /// The request lacks what the operation needs.
    BadRequest,
}

impl RouteError {
    /// The HTTP status code of the refusal.
    pub fn status_code(&self) -> (c: u16)
        ensures
            c == 400,
    {
        match self {
            RouteError::BadRequest => 400,
        }
    }
}

/// The name of a list to create: refused as a bad request when the body
/// carries no name (an empty name was already read as none).
pub fn new_list_name(list: &ListNew) -> (r: Result<String, RouteError>)
    ensures
        match list.name {
            Some(n) => r matches Ok(s) && s@ == n@,
            None => r == Err::<String, RouteError>(RouteError::BadRequest),
        },
{
    match &list.name {
        Some(n) => Ok(n.clone()),
        None => Err(RouteError::BadRequest),
    }
}

} // verus!
