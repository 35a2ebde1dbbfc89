//! Requests, responses and errors of the Kagi Search and Extract APIs.
pub mod client_builder;
pub mod error;
pub mod request;
pub mod response;
