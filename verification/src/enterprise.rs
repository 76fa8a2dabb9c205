//! Enterprise features: high availability and disaster recovery, and
//! alerting.

pub mod ha_dr;
pub mod monitoring;
