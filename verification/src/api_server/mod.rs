//! The API: from a request to an action, and from an outcome to a response.

pub mod parsed_request;
pub mod request;
pub mod routes;
pub mod server;
