//! The server's view of its own health.

use vstd::prelude::*;
use crate::engine::database;

verus! {

/// Health states of the server.
#[derive(Debug, Clone, Copy, PartialEq, Eq, Structural)]
pub enum HealthState {
    Healthy,
    Degraded,
    Unhealthy,
}

/// The health of the server: its own state, the database's, and its
/// connections.  The uptime is in seconds since the Unix epoch.
#[derive(Debug, Clone, Copy, PartialEq, Eq, Structural)]
pub struct ServerHealthStatus {
    pub overall_status: HealthState,
    pub database_health: database::HealthState,
    pub active_connections: usize,
    pub max_connections: usize,
    pub uptime: u64,
}

/// The server's health from the database's and its connection count: it
/// is healthy when the database is and a connection is still free, and
/// degraded otherwise.
pub fn server_health(
    database_health: database::HealthState,
    active_connections: usize,
    max_connections: usize,
    uptime: u64,
) -> (r: ServerHealthStatus)
    ensures
        r.overall_status == if database_health == database::HealthState::Healthy && active_connections
            < max_connections {
            HealthState::Healthy
        } else {
            HealthState::Degraded
        },
        r.database_health == database_health,
        r.active_connections == active_connections,
        r.max_connections == max_connections,
        r.uptime == uptime,
{
    let healthy = match database_health {
        database::HealthState::Healthy => active_connections < max_connections,
        _ => false,
    };
    ServerHealthStatus {
        overall_status: if healthy {
            HealthState::Healthy
        } else {
            HealthState::Degraded
        },
        database_health,
        active_connections,
        max_connections,
        uptime,
    }
}

} // verus!
