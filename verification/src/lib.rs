//! A streaming keystream transform, and the tools around it.
//!
//! The transform combines the bytes of a file with the bytes of a key file
//! by exclusive-or, chunk by chunk, and lets the result take the file's
//! place. The library holds the decisions and the arithmetic; the caller
//! performs each [`engine::Action`] on the files and reports back with an
//! [`engine::Event`]. In [`memory`] the same engine runs over files held in
//! memory, where what a run leaves behind is stated and proved.
//!
//! Beside the transform stand the derivation of the nonce ([`nonce`]), the
//! generator of key material ([`keygen`]) with its report ([`report`]), and
//! the digest tool ([`digest`]).

pub mod combine;
pub mod digest;
pub mod engine;
pub mod error;
pub mod kdf;
pub mod key_source;
pub mod keygen;
pub mod memory;
pub mod nonce;
pub mod report;
pub mod stream;
