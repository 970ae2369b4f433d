//! Requests to and answers from a results site.
pub mod requests;
pub mod responses;
