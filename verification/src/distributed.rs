//! Clustering: consensus, membership, replication and failover.

pub mod consensus;
pub mod cluster;
pub mod replication;
pub mod failover;
