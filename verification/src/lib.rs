//! A webhook task scheduler: a coordinator that owns a FIFO queue of tasks
//! and a fixed pool of worker slots, the worker's side of their protocol,
//! and the decisions of the HTTP boundary that feeds them.

pub mod task;
pub mod state;
pub mod coordinator;
pub mod laws;
pub mod worker;
pub mod auth;
pub mod web;
pub mod tls;
