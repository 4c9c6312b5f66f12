//! Key filters: the rules that decide which of the upstream agent's keys
//! a filtered socket shows and signs with.

pub mod comment;
pub mod pubkey;
pub mod fingerprint;
pub mod keyfile;
pub mod keytype;
pub mod github;
pub mod rule;
pub mod evaluator;
pub mod groups;
