//! Traces the execution of programs that an engine carries out step by step, and chooses the shapes
//! of the tables that proofs of the execution are made from.

pub mod air;
pub mod batch;
pub mod batch_laws;
pub mod catalog;
pub mod checkpoint;
pub mod cluster;
pub mod config;
pub mod config_laws;
pub mod cycle;
pub mod defaults;
pub mod emit;
pub mod event_laws;
pub mod events;
pub mod executor;
pub mod finish;
pub mod laws;
pub mod maps;
pub mod math;
pub mod maximal;
pub mod memory;
pub mod memory_laws;
pub mod opcode;
pub mod ordered;
pub mod precompile;
pub mod record;
pub mod run;
pub mod search_laws;
pub mod shape;
pub mod shape_laws;
pub mod state;
pub mod step_laws;
