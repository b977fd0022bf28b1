//! Payloads of the HTTP control API.
//!
//! The HTTP front end and its client are collaborators around the core;
//! these are the request and error bodies they exchange with it.

use vstd::prelude::*;

verus! {

/// The body of a request to create a guest.
#[derive(Debug, PartialEq, Eq)]
pub struct CreateModuleRequest {
    pub guest_name: String,
    pub module: Vec<u8>,
}

/// The body of a request to update a guest's module.
#[derive(Debug, PartialEq, Eq)]
pub struct UpdateModuleRequest {
    pub guest_name: String,
    pub module: Vec<u8>,
}

/// An error body returned by the control API.
#[derive(Debug, PartialEq, Eq)]
pub struct ApiError {
    pub message: String,
}

} // verus!
