//! Message-routing and request/reply core of a node runtime.
//!
//! Every unit of work inside a node (a worker) is addressed by an opaque
//! name; messages move between workers, and between nodes, along a route:
//! an ordered sequence of addresses. This crate holds the router that owns
//! the address table, the route builder, the request/reply client protocol
//! with its correlation and timeout rules, the wire envelope codec, and the
//! error taxonomy shared by all of them. Network transports, timers and
//! persistence are collaborators: they feed plain values (connection
//! addresses, arrived replies, persisted node records) into the functions
//! here and carry the results back out.

#![verifier::loop_isolation(false)]

pub mod address;
pub mod route;
pub mod router;
pub mod envelope;
pub mod client;
pub mod background;
pub mod errors;
pub mod cli_state;
pub mod enroller;
