//! The coordination passes and what they are built from.

pub mod batch;
pub mod detector;
pub mod error;
pub mod handler;
pub mod host_meta;
pub mod migration;
pub mod pass;
