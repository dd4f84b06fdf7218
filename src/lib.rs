//! A dataflow execution engine for graphs of computational nodes.
//!
//! Nodes expose typed input/output pins (pulled values) and receive/send
//! pins (pushed events). Each node instance runs as an isolated actor; this
//! library holds the decisions those actors make: the per-node state machine
//! with its value cache and progress aggregation, the controller's boot and
//! routing rules, and the catalogue that resolves graph definitions. The
//! transport that carries messages between actors lives outside the library
//! and hands each message to the step functions here.
use vstd::prelude::*;

pub mod keyed;
pub mod ids;
pub mod value;
pub mod graph;
pub mod pin;
pub mod library;
pub mod catalogue;
pub mod node;
pub mod engine;
pub mod nodes;

verus! {

} // verus!
