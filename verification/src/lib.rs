//! Nucleus: the decisions of a small Linux container engine, verified. The library
//! reads memory limits, hands out addresses, names interfaces and files, and writes
//! down every host-side command and file write of a container run as data; the
//! program around it carries the steps out.
pub mod actions;
pub mod args;
pub mod container;
pub mod image;
pub mod ipam;
pub mod mapping;
pub mod memory;
pub mod orchestrator;
pub mod paths;
pub mod run;
pub mod state;
pub mod stats;
pub mod text;
