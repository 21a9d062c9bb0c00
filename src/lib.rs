//! An HTTP gateway core: bearer-token verification, service-name routing,
//! target-URI construction, request/response translation and the mapping of
//! every failure to a status code.

pub mod auth;
pub mod target;
pub mod registry;
pub mod forward;
pub mod pipeline;
