//! Core of a peer-to-peer nearby-device file-sharing system: wire codec,
//! key-exchange handshake, encrypted transport, archive planning, transport
//! selection and the transfer session state machines.
pub mod archive;
pub mod cipher;
pub mod connect;
pub mod discovery;
pub mod errors;
pub mod handshake;
pub mod messages;
pub mod nearby;
pub mod session;
pub mod wire;
