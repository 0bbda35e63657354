//! Client core for a node that answers JSON-RPC calls at one address.
//!
//! A call is written as an envelope that carries the caller's secret, sent
//! through a transport, and the answer is classified as a success value or
//! as a transport error, a remote error or a protocol violation. Sending is
//! the transport's business; everything else is here, with contracts over
//! the mathematical model of JSON values in [`value`].

pub mod client;
pub mod envelope;
pub mod procedures;
pub mod response;
pub mod value;

pub use client::IdenaAPI;
pub use envelope::{RequestEnvelope, REQUEST_ID};
pub use response::{classify, settle, RpcError};
pub use value::{Number, Value};
