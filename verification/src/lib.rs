//! A resilient multi-connection client pool.
//!
//! The pool keeps one logical connection per backend server, guards each with
//! a circuit breaker, and routes every outgoing request to a healthy
//! connection by weighted selection. Transport channels are attached lazily
//! and torn down idempotently; all admission and routing decisions live here,
//! while the asynchronous transport plumbing stays outside the library.

pub mod breaker;
pub mod conn;
pub mod errors;
pub mod manage;
pub mod rng;
pub mod transport;
