//! Object-graph scanning and reference discovery for a Java virtual machine
//! whose heap is managed by an external garbage-collection engine.
//!
//! The library enumerates the reference slots of an object from its kind and
//! layout metadata, decides for reference objects (soft, weak, final, phantom)
//! whether their referent is discovered or treated as a strong edge, processes
//! the discovered lists once strong reachability is known, and batches root
//! slots for hand-over to the collector.

pub mod abi;
pub mod slot;
pub mod field_map;
pub mod reference_glue;
pub mod object_scanning;
pub mod scanning;
pub mod code_cache;
pub mod laws;
pub mod object_model;

