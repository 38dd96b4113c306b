//! A theme preference read from a request's cookies, and the two settings
//! handlers that use it.

pub mod cookie;
pub mod headers;
pub mod settings;
