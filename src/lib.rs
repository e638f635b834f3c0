//! A small block-diagram execution engine: blocks exchange events over
//! channels, wired from a declarative graph definition, and share one time
//! origin broadcast at start.

pub mod event;
pub mod port;
pub mod graph;
pub mod blocks;
pub mod clock;
pub mod runner;
pub mod model;
