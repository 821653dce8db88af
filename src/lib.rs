//! Crafting-path library: item, synthesis and morph records are turned into a
//! directed dependency graph, which is then searched for shortest crafting paths.

pub mod records;
pub mod node;
pub mod graph;
pub mod build_spec;
pub mod respi;
pub mod ingest;
pub mod laws;
