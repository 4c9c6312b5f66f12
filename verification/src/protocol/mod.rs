//! The SSH agent wire protocol.

pub mod base64_text;
pub mod codec;
pub mod fingerprint;
pub mod message;
pub mod wire;
