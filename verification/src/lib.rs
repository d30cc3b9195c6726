//! Session-based authentication gate for a record-management web application.
//!
//! The crate covers the cookie-session subsystem: verifying a submitted
//! password against a stored digest, resolving a credential record by
//! username, generating opaque session tokens, a cache-backed session store
//! with sliding expiry, and the per-request gate that admits or denies a
//! request based on its session cookie.  The surrounding web machinery
//! (routing, template rendering, the relational store) is an external
//! collaborator and stays outside the library.
use vstd::prelude::*;

pub mod auth;
pub mod codec;
pub mod gate;
pub mod pets;
pub mod session;
pub mod settings;
pub mod text;
pub mod token;
pub mod user;

verus! {

/// Error carried to the request boundary, where a handler turns it into a
/// user-visible page.  It holds only a message for operators.
#[derive(Debug)]
pub struct AppError {
    pub inner: String,
}

impl AppError {
    pub fn new(message: String) -> (r: AppError)
        ensures
            r.inner@ == message@,
    {
        AppError { inner: message }
    }

    pub fn message(&self) -> (r: &String)
        ensures
            r@ == self.inner@,
    {
        &self.inner
    }
}

} // verus!
