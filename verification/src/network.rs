//! The services the portal talks to: the remote read service and results sites.
pub mod api;
pub mod results;
