//! Backups and recovery: the archives backups write, their metadata, and
//! what recovery reads back from them.

pub mod manager;
pub mod recovery;
pub mod readback;
