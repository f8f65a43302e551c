//! Everything that speaks the Nearscreen protocol.
//!
//! Nothing here touches a socket: what arrives comes in as bytes and goes out as
//! [`ServerEvent`]s, and what is sent comes out as bytes.
pub mod address;
pub mod connection;
pub mod discovery;
pub mod protocol;
pub mod server;
pub mod service;
pub mod session;

pub use address::Address;
pub use discovery::{local_addresses, Interfaces};
pub use protocol::{Codec, Hello, HelloReply, Params, StreamConfig, DEFAULT_PORT};
pub use server::{
    hostname, Admission, AdmissionFn, AllowAll, Decision, Peer, ServerEvent, ServerOptions,
};
