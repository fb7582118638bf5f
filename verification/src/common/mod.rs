//! Data shared by every part of the cluster.

pub mod cluster;
pub mod future_group;
