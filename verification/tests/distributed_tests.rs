use auroradb::distributed::cluster::{ClusterConfig, ClusterManager, MembershipEvent, NodeState};
use auroradb::distributed::consensus::{ConsensusCommand, ConsensusManager, LogEntry, RaftState};
use auroradb::distributed::failover::{FailoverConfig, FailoverEvent, FailoverManager, FailureSeverity};
use auroradb::distributed::replication::{ReplicationError, ReplicationManager, ReplicationMode, ReplicationTopology};

fn cluster_config(auto_join: bool) -> ClusterConfig {
    ClusterConfig {
        cluster_name: "aurora".to_string(),
        node_id: "node-000".to_string(),
        bind_address: "10.0.0.10".to_string(),
        bind_port: 5432,
        seed_nodes: vec!["10.0.0.11:5432".to_string()],
        heartbeat_interval_ms: 1000,
        failure_detection_timeout_ms: 5000,
        max_nodes: 10,
        enable_auto_join: auto_join,
        enable_auto_leave: true,
    }
}

fn consensus() -> ConsensusManager {
    ConsensusManager::new(
        "node-001".to_string(),
        vec!["node-001".to_string(), "node-002".to_string(), "node-001".to_string()],
        100,
    )
}

#[test]
fn consensus_starts_with_the_genesis_entry() {
    let c = consensus();
    assert_eq!(c.get_current_term(), 0);
    assert_eq!(c.get_commit_index(), 0);
    assert_eq!(c.get_last_log_index(), 0);
    assert_eq!(c.get_last_log_term(), 0);
    assert!(c.is_leader());
    let stats = c.get_consensus_stats();
    assert_eq!(stats.cluster_size, 2);
    assert_eq!(stats.log_size, 1);
}

#[test]
fn consensus_votes_once_per_term() {
    let mut c = consensus();
    assert_eq!(c.handle_vote_request("node-002", 1, 0, 0), (true, 1));
    assert_eq!(c.handle_vote_request("node-003", 1, 0, 0), (false, 1));
    assert_eq!(c.handle_vote_request("node-003", 0, 5, 5), (false, 1));
    assert_eq!(c.handle_vote_request("node-003", 2, 0, 0), (true, 2));
}

#[test]
fn consensus_refuses_votes_for_stale_logs() {
    let mut c = consensus();
    c.propose_command(ConsensusCommand::DeleteOperation { key: "k".to_string() }, 5);
    c.force_election();
    assert_eq!(c.get_last_log_index(), 1);
    let term = c.get_current_term();
    assert_eq!(c.handle_vote_request("node-002", term + 1, 0, 0), (false, term + 1));
}

#[test]
fn consensus_appends_and_applies_entries() {
    let mut c = consensus();
    let entries = vec![
        LogEntry { term: 1, index: 1, command: ConsensusCommand::DeleteOperation { key: "a".to_string() }, timestamp: 7 },
        LogEntry { term: 1, index: 2, command: ConsensusCommand::Barrier { id: "b".to_string() }, timestamp: 8 },
    ];
    assert_eq!(c.handle_append_entries(1, "node-002", 0, 0, entries, 2), (true, 1));
    assert_eq!(c.get_last_log_index(), 2);
    assert_eq!(c.get_commit_index(), 2);
    let applied = c.apply_committed_entries();
    assert_eq!(applied.len(), 2);
    assert!(matches!(&applied[0], ConsensusCommand::DeleteOperation { key } if key == "a"));
    assert!(c.apply_committed_entries().is_empty());
    assert_eq!(c.handle_append_entries(0, "node-002", 0, 0, vec![], 0), (false, 1));
    assert_eq!(c.handle_append_entries(1, "node-002", 9, 1, vec![], 0), (false, 1));
}

#[test]
fn consensus_proposals_go_last_in_the_current_term() {
    let mut c = consensus();
    c.force_election();
    let idx = c.propose_command(ConsensusCommand::RemoveNode { node_id: "n".to_string() }, 9);
    assert_eq!(idx, 1);
    assert_eq!(c.get_last_log_index(), 1);
    assert_eq!(c.get_last_log_term(), c.get_current_term());
    assert_eq!(c.get_consensus_stats().current_term, 1);
    let _ = RaftState::Leader;
}

#[test]
fn cluster_initialises_and_joins_through_seeds() {
    let mut m = ClusterManager::new(cluster_config(true), 50);
    let events = m.initialize(60);
    assert_eq!(events.len(), 2);
    assert!(matches!(&events[0], MembershipEvent::NodeJoined(n) if n.node_id == "node-001"));
    let status = m.get_cluster_status();
    assert_eq!(status.total_nodes, 3);
    assert!(m.get_node("node-002").is_some());
    assert_eq!(m.get_current_leader(), None);
}

#[test]
fn cluster_failure_and_recovery_events() {
    let mut m = ClusterManager::new(cluster_config(true), 50);
    m.initialize(60);
    assert!(matches!(m.mark_node_failed("node-001"), Some(MembershipEvent::NodeFailed(id)) if id == "node-001"));
    assert_eq!(m.get_node("node-001").unwrap().state, NodeState::Unhealthy);
    assert!(m.mark_node_failed("ghost").is_none());
    assert!(matches!(m.mark_node_recovered("node-001"), Some(MembershipEvent::NodeRecovered(id)) if id == "node-001"));
    assert!(m.mark_node_recovered("node-001").is_none());
    assert!(m.is_node_healthy("node-001", 60));
}

#[test]
fn replication_limits_and_outcomes() {
    let mut r = ReplicationManager::new(ReplicationMode::Synchronous, ReplicationTopology::MasterSlave);
    for i in 0..10 {
        r.add_replica(format!("replica-{}", i), 1).unwrap();
    }
    assert_eq!(r.add_replica("replica-10".to_string(), 1), Err(ReplicationError::ReplicaLimitReached));
    let targets = vec!["a".to_string(), "b".to_string()];
    assert_eq!(r.replication_outcome(&targets, &vec![true, true]), Ok(()));
    assert_eq!(
        r.replication_outcome(&targets, &vec![true, false]),
        Err(ReplicationError::ReplicaFailed { node_id: "b".to_string() })
    );
    assert_eq!(r.majority(), 6);
    let semi = ReplicationManager::new(ReplicationMode::SemiSynchronous, ReplicationTopology::Ring);
    assert_eq!(semi.replication_outcome(&targets, &vec![false, false]), Err(ReplicationError::MajorityNotReached { successes: 0, majority: 1 }));
    assert!(r.remove_replica("replica-3").is_ok());
    assert_eq!(r.remove_replica("replica-3"), Err(ReplicationError::ReplicaNotFound { node_id: "replica-3".to_string() }));
}

fn failover_config() -> FailoverConfig {
    FailoverConfig {
        leader_election_timeout_ms: 150,
        failure_detection_timeout_ms: 5000,
        recovery_timeout_ms: 30000,
        max_retry_attempts: 3,
        enable_automatic_failover: true,
        enable_predictive_failover: false,
        minimum_quorum_size: 2,
    }
}

#[test]
fn failover_history_is_bounded_and_newest_last() {
    let cluster = ClusterManager::new(cluster_config(false), 0);
    let mut f = FailoverManager::new(failover_config(), cluster, consensus());
    for i in 0..1005u64 {
        f.record_failover_event(FailoverEvent::NodeRecovery { node_id: "n".to_string(), recovery_time: i });
    }
    let status = f.get_failover_status();
    assert_eq!(status.recent_recoveries, 1000);
    let _ = FailureSeverity::Critical;
}

#[test]
fn failover_handles_node_failure() {
    let mut cluster = ClusterManager::new(cluster_config(true), 0);
    cluster.initialize(1);
    let mut f = FailoverManager::new(failover_config(), cluster, consensus());
    let (event, retry) = f.handle_node_failure("node-002", 10);
    assert!(matches!(event, Some(MembershipEvent::NodeFailed(id)) if id == "node-002"));
    assert!(retry);
    let status = f.get_failover_status();
    assert!(status.recent_failures >= 1);
    assert!(status.automatic_failover_enabled);
}
