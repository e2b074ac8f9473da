//! A declarative builder and executor for HTTP requests, made for API
//! clients.
//!
//! A [`request::Request`] collects method, path template and parameters.
//! [`request::Request::execute`] assembles it under a
//! [`config::Configuration`] into what goes to the transport and starts an
//! [`exchange::Exchange`], a state machine that is told what the transport
//! did and decides how the execution ends. The library does no input or
//! output of its own.

pub mod auth;
pub mod config;
pub mod encoding;
pub mod exchange;
pub mod failure;
pub mod headers;
pub mod json;
pub mod params;
pub mod request;
pub mod substitution;
pub mod template;
pub mod text;
pub mod uri;
