//! Signaling front-end of a VoIP gateway: call-setup request parsing, response
//! framing and the per-call setup state machine.
pub mod text;
pub mod headers;
pub mod parser;
pub mod response;
pub mod call;
pub mod laws;
