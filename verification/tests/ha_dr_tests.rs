use auroradb::enterprise::ha_dr::{
    BackupConfig, BackupRecoveryEngine, BackupType, ClusterConfig, ClusterStateManager, ConflictResolution,
    FailoverConfig, FailoverOrchestrator, HAConfig, HealthConfig, HealthMonitor, HighAvailabilityManager,
    LoadBalancer, LoadBalancerConfig, LoadBalancingAlgorithm, MaintenanceOutcome, MaintenanceType, NodeInfo,
    NodeRole, NodeStatus, ReplicationConfig, ReplicationCoordinator, SyncMode,
};
use auroradb::text::StringMap;

fn node(id: &str, role: NodeRole) -> NodeInfo {
    NodeInfo {
        id: id.to_string(),
        address: "127.0.0.1:8080".to_string(),
        region: "us-east-1".to_string(),
        role,
        status: NodeStatus::Active,
        last_heartbeat: 0,
    }
}

fn cluster(nodes: Vec<NodeInfo>, primary: Option<&str>, replicas: Vec<&str>) -> ClusterConfig {
    ClusterConfig {
        nodes,
        primary_node: primary.map(|p| p.to_string()),
        replica_nodes: replicas.into_iter().map(|r| r.to_string()).collect(),
        regions: StringMap::new(),
        shards: StringMap::new(),
        quorum_size: 1,
    }
}

fn replication_config() -> ReplicationConfig {
    ReplicationConfig {
        replication_factor: 3,
        max_lag_seconds: 30,
        sync_mode: SyncMode::Synchronous,
        conflict_resolution: ConflictResolution::LastWriteWins,
    }
}

fn backup_config() -> BackupConfig {
    BackupConfig {
        retention_days: 30,
        compression_enabled: true,
        encryption_enabled: true,
        storage_locations: vec!["s3://backups".to_string()],
    }
}

fn ha_config(cluster_config: ClusterConfig) -> HAConfig {
    HAConfig {
        cluster_config,
        failover_config: FailoverConfig {
            automatic_failover: true,
            failover_timeout_seconds: 30,
            minimum_replicas: 1,
            witness_nodes: vec![],
        },
        replication_config: replication_config(),
        backup_config: backup_config(),
        health_config: HealthConfig {
            health_check_interval_seconds: 30,
            unhealthy_threshold_seconds: 60,
            auto_healing_enabled: true,
        },
        load_balancer_config: LoadBalancerConfig {
            algorithm: LoadBalancingAlgorithm::RoundRobin,
            health_check_enabled: true,
            session_stickiness: false,
        },
    }
}

#[test]
fn test_cluster_state_manager() {
    let config = cluster(vec![node("node1", NodeRole::Primary)], Some("node1"), vec![]);
    let manager = ClusterStateManager::new(config).unwrap();
    let topology = manager.get_current_topology().unwrap();

    assert_eq!(topology.nodes.len(), 1);
    assert_eq!(topology.primary_node, Some("node1".to_string()));
}

#[test]
fn test_failover_orchestrator() {
    let config = FailoverConfig {
        automatic_failover: true,
        failover_timeout_seconds: 30,
        minimum_replicas: 1,
        witness_nodes: vec![],
    };

    let mut orchestrator = FailoverOrchestrator::new(config).unwrap();
    orchestrator.initiate_failover("failed_node").unwrap();

    assert_eq!(orchestrator.history_len(), 1);
    assert_eq!(orchestrator.failed_node_at(0), "failed_node");
}

#[test]
fn test_replication_coordinator() {
    let mut coordinator = ReplicationCoordinator::new(replication_config()).unwrap();

    let status = coordinator.get_status().unwrap();
    assert_eq!(status.total_nodes, 0);

    let new_nodes = vec!["node1".to_string(), "node2".to_string()];
    coordinator.expand_replication(&new_nodes).unwrap();

    let status_after = coordinator.get_status().unwrap();
    assert_eq!(status_after.total_nodes, 2);
}

#[test]
fn test_backup_recovery() {
    let mut backup_engine = BackupRecoveryEngine::new(backup_config()).unwrap();

    let backup_id = backup_engine.initiate_backup(BackupType::Full).unwrap();
    assert!(!backup_id.is_empty());

    let status = backup_engine.get_status().unwrap();
    assert_eq!(status.total_backups, 1);
    assert!(status.latest_backup.is_some());
}

#[test]
fn test_health_monitor() {
    let config = HealthConfig {
        health_check_interval_seconds: 30,
        unhealthy_threshold_seconds: 60,
        auto_healing_enabled: true,
    };

    let monitor = HealthMonitor::new(config).unwrap();
    monitor.verify_node_health("node1").unwrap();

    let health = monitor.get_cluster_health().unwrap();
    assert_eq!(health.total_nodes, 0);
}

#[test]
fn test_load_balancer() {
    let config = LoadBalancerConfig {
        algorithm: LoadBalancingAlgorithm::RoundRobin,
        health_check_enabled: true,
        session_stickiness: false,
    };

    let balancer = LoadBalancer::new(config).unwrap();

    balancer.add_node("node1").unwrap();
    balancer.drain_node("node1").unwrap();
    balancer.redistribute_load().unwrap();
}

#[test]
fn test_high_availability_manager() {
    let mut ha_manager = HighAvailabilityManager::new(ha_config(cluster(vec![], None, vec![]))).unwrap();

    let status = ha_manager.get_cluster_status().unwrap();
    assert!(status.last_updated > 0);

    assert!(matches!(ha_manager.perform_maintenance(MaintenanceType::CapacityExpansion), Ok(MaintenanceOutcome::Done)));
}

#[test]
fn primary_failure_promotes_the_first_replica() {
    let mut regions = StringMap::new();
    regions.insert("us-east-1".to_string(), vec!["p".to_string(), "r1".to_string(), "r2".to_string()]);
    let mut config = cluster(
        vec![node("p", NodeRole::Primary), node("r1", NodeRole::Replica), node("r2", NodeRole::Replica)],
        Some("p"),
        vec!["r1", "r2"],
    );
    config.regions = regions;
    let mut ha = HighAvailabilityManager::new(ha_config(config)).unwrap();
    ha.handle_node_failure("p").unwrap();
    let t = ha.get_cluster_status().unwrap().topology;
    assert_eq!(t.primary_node, Some("r1".to_string()));
    assert_eq!(t.replica_nodes, vec!["r2".to_string()]);
    assert_eq!(t.nodes.get("p").unwrap().status, NodeStatus::Failed);
    assert_eq!(t.nodes.get("r1").unwrap().role, NodeRole::Primary);
    assert_eq!(t.regions.get("us-east-1"), Some(&vec!["r1".to_string(), "r2".to_string()]));
}

#[test]
fn replica_failure_keeps_the_primary() {
    let config = cluster(vec![node("p", NodeRole::Primary), node("r1", NodeRole::Replica)], Some("p"), vec!["r1"]);
    let mut manager = ClusterStateManager::new(config).unwrap();
    manager.update_topology_after_failure("r1").unwrap();
    let t = manager.get_current_topology().unwrap();
    assert_eq!(t.primary_node, Some("p".to_string()));
    assert!(t.replica_nodes.is_empty());
}

#[test]
fn maintenance_plans_and_provisioning() {
    let config = cluster(vec![node("a", NodeRole::Primary), node("b", NodeRole::Replica)], Some("a"), vec!["b"]);
    let mut ha = HighAvailabilityManager::new(ha_config(config)).unwrap();
    match ha.perform_maintenance(MaintenanceType::RollingUpgrade).unwrap() {
        MaintenanceOutcome::UpgradeNodes(mut v) => {
            v.sort();
            assert_eq!(v, vec!["a".to_string(), "b".to_string()]);
        }
        MaintenanceOutcome::Done => panic!("a rolling upgrade lists the nodes to upgrade"),
    }
    assert!(matches!(ha.perform_maintenance(MaintenanceType::SchemaChange), Ok(MaintenanceOutcome::Done)));
    ha.perform_maintenance(MaintenanceType::CapacityExpansion).unwrap();
    let status = ha.get_cluster_status().unwrap();
    assert_eq!(status.replication_status.total_nodes, 3);
    assert_eq!(status.replication_status.active_nodes, 3);
    assert_eq!(status.replication_status.max_lag_seconds, 0);
    let manager = ClusterStateManager::new(cluster(vec![], None, vec![])).unwrap();
    assert_eq!(manager.provision_new_nodes(2).unwrap(), vec!["node_0".to_string(), "node_1".to_string()]);
}

#[test]
fn backups_are_recorded_with_location() {
    let mut engine = BackupRecoveryEngine::new(backup_config()).unwrap();
    let id = engine.initiate_backup(BackupType::Snapshot).unwrap();
    let id2 = engine.initiate_backup(BackupType::Incremental).unwrap();
    let status = engine.get_status().unwrap();
    assert_eq!(status.total_backups, 2);
    assert_eq!(status.total_size_bytes, 2 * 1024 * 1024 * 1024);
    assert_eq!(status.retention_days, 30);
    let latest = status.latest_backup.unwrap();
    assert_eq!(latest.id, id2);
    assert_eq!(latest.location, format!("s3://aurora-backups/{}", id2));
    assert_ne!(id, id2);
    assert_eq!(BackupType::Differential.as_str(), "differential");
    assert!(engine.restore_backup(&id, None).is_ok());
}
