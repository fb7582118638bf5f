//! Coordination engine of a sharded key-value proxy cluster.
//!
//! The coordinator watches the fleet of proxies, reports and handles
//! failures, pushes host metadata down to proxies and commits finished slot
//! migrations. Every decision it takes is a verified function of what its
//! collaborators answered; the collaborators themselves are traits that the
//! embedding program implements.

pub mod common;
pub mod coordinator;
