//! A versioned process registry with a restriction-based authorization engine.
//!
//! A *process* is a named, versioned policy definition: a status together with
//! a list of restrictions. A *restriction* is a bounded-depth boolean
//! expression tree evaluated against a proposed transition (a sender plus
//! input and output records). The registry keeps an append-only version
//! history per identifier; validation looks a process up by its fully
//! qualified id and checks the transition against every restriction,
//! failing closed on any ambiguity.

pub mod registry;
pub mod restrictions;

pub use registry::{Error, Event, Pallet, Process, ProcessFullyQualifiedId, ProcessStatus};
pub use restrictions::{BinaryOperator, ProcessIO, Restriction};
