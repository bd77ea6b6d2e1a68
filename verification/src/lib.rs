//! A presence-gated unlock-key broker: a framed request/response protocol over
//! a local channel, an authenticated-encryption construct protecting every
//! payload, a handshake that transports a fresh session secret to the peer,
//! and a per-user key vault whose exports are gated by a user-presence check.

pub mod codec;
pub mod crypto;
pub mod errors;
pub mod framing;
pub mod json;
pub mod proto;
pub mod session;
pub mod vault;
