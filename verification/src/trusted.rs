//! Everything that is believed and not proved.
//!
//! The modules below hold the calls into code that is not verified here:
//! `dashmap`, `ipnet`, `serde_json` and a few functions of the standard
//! library. Each function states, in its contract, what the callee is taken
//! to do; the rest of the crate is verified against these contracts.

pub mod clock;
pub mod json;
pub mod maps;
pub mod net;
pub mod text;
