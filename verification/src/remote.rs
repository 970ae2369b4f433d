//! Uploading reads to the remote service.
pub mod remote_util;
pub mod requests;
pub mod responses;
pub mod uploader;
