//! Step selection, parameter resolution and job dispatch for a fixed,
//! multi-stage long-read processing pipeline.

pub mod text;
pub mod step;
pub mod cli;
pub mod params;
pub mod config;
pub mod job;
pub mod executor;
pub mod stages;
