//! The request-handling core of a small user-record service.

pub mod handler;
pub mod json;
pub mod number;
pub mod request;
pub mod response;
pub mod route;
pub mod sql;
pub mod text;
pub mod user;
