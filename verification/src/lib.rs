//! A request-processing middleware layer: every inbound request gets a
//! correlation identifier and a context-enriched logging handle before it
//! reaches application logic.
//!
//! The pieces are a per-request extension store ([`store::Extensions`]), an
//! immutable structured-logging handle with child derivation
//! ([`logger::LoggerHandle`]), the two middleware stages
//! ([`log_initializer::Middleware`] and [`request_id::Middleware`]), and the
//! chain runtime ([`chain::Chain`]) that runs the stages in registration
//! order around a handler and unwinds their completion hooks in reverse.

pub mod chain;
pub mod log_initializer;
pub mod logger;
pub mod request_id;
pub mod state;
pub mod store;
