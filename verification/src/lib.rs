//! Measuring how a fixed artifact downloads through two CDN edges and their
//! origin store, over a walk of dated or versioned copies of it.

pub mod command;
pub mod crates;
pub mod probe;
pub mod releases;
pub mod runner;
