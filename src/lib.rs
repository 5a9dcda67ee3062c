//! A payment validation-and-dispatch engine.
//!
//! Payment instructions are validated (structure first, then business rules),
//! moved through a lifecycle state machine, persisted in a repository keyed by
//! an idempotency key, and handed to a publisher exactly once when accepted.
use vstd::prelude::*;

pub mod config;
pub mod domain;
pub mod error;
pub mod lifecycle;
pub mod validation;
pub mod repository;
pub mod publisher;
pub mod mandate;
pub mod service;
pub mod clock;
pub mod guarantees;

verus! {

} // verus!
