//! Verified generator of the server-side API of a Wayland protocol.

pub mod names;
pub mod output;
pub mod protocol;
pub mod server_gen;
pub mod server_laws;
pub mod code_laws;
