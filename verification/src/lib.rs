//! Client side of the Debug Adapter Protocol: framing of messages on a byte
//! stream, correlation of requests with their responses, and the session
//! that issues the requests.
pub mod arguments;
pub mod client;
pub mod dispatcher;
pub mod framing;
pub mod json;
pub mod message;
pub mod receiver;
pub mod results;
pub mod supervisor;
