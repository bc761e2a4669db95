//! A verified library for keeping OAuth-style bearer tokens warm.
//!
//! One invocation resolves a set of named secrets from a parameter store,
//! performs a single token-refresh exchange, and writes the refreshed token
//! fields back to a remote secret store. The decision logic of each phase is
//! verified here; the network transport lives outside the library.
pub mod errors;
pub mod exchange;
pub mod orchestrator;
pub mod params;
pub mod request;
pub mod secrets;
pub mod text;
pub mod token;

pub use errors::RefreshError;
pub use exchange::RefreshCall;
pub use orchestrator::ResolveOutcome;
pub use orchestrator::WriteCall;
pub use params::ParameterMap;
pub use request::EventBridgePayload;
pub use request::Response;
pub use secrets::Secret;
pub use secrets::SecretItem;
pub use token::Token;
