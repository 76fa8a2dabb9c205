//! High availability and disaster recovery: cluster topology with failover,
//! replication and backup records, cluster health and maintenance.

use vstd::prelude::*;
use crate::ambient::{new_uuid_text, utc_now_seconds};
use crate::text::{
    StringMap, copy_opt_string, copy_strings, decimal, keys_unique, owned, push_decimal, push_text, remove_all,
    str_equal, views, without, contains_text,
};

verus! {

/// Node roles.
#[derive(Debug, Clone, Copy, PartialEq, Eq, Structural)]
pub enum NodeRole {
    Primary,
    Replica,
    Witness,
}

/// Node states.
#[derive(Debug, Clone, Copy, PartialEq, Eq, Structural)]
pub enum NodeStatus {
    Active,
    Inactive,
    Failed,
    Maintenance,
}

/// A node of the cluster.
#[derive(Debug)]
pub struct NodeInfo {
    pub id: String,
    pub address: String,
    pub region: String,
    pub role: NodeRole,
    pub status: NodeStatus,
    /// Seconds since the Unix epoch.
    pub last_heartbeat: i64,
}

/// The initial shape of the cluster.
#[derive(Debug)]
pub struct ClusterConfig {
    pub nodes: Vec<NodeInfo>,
    pub primary_node: Option<String>,
    pub replica_nodes: Vec<String>,
    pub regions: StringMap<Vec<String>>,
    pub shards: StringMap<Vec<String>>,
    pub quorum_size: usize,
}

/// Failover settings.
#[derive(Debug)]
pub struct FailoverConfig {
    pub automatic_failover: bool,
    pub failover_timeout_seconds: u64,
    pub minimum_replicas: usize,
    pub witness_nodes: Vec<String>,
}

/// Replication states.
#[derive(Debug, Clone, Copy, PartialEq, Eq, Structural)]
pub enum ReplicationStatus {
    Active,
    Lagging,
    Failed,
}

/// Replication settings.
#[derive(Debug, Clone, Copy, PartialEq, Eq, Structural)]
pub struct ReplicationConfig {
    pub replication_factor: usize,
    pub max_lag_seconds: u64,
    pub sync_mode: SyncMode,
    pub conflict_resolution: ConflictResolution,
}

/// Synchronisation modes.
#[derive(Debug, Clone, Copy, PartialEq, Eq, Structural)]
pub enum SyncMode {
    Synchronous,
    Asynchronous,
    SemiSynchronous,
}

/// Conflict resolution strategies.
#[derive(Debug, Clone, Copy, PartialEq, Eq, Structural)]
pub enum ConflictResolution {
    LastWriteWins,
    Manual,
    Custom,
}

/// Backup kinds.
#[derive(Debug, Clone, Copy, PartialEq, Eq, Structural)]
pub enum BackupType {
    Full,
    Incremental,
    Differential,
    Snapshot,
}

/// Backup states.
#[derive(Debug, Clone, Copy, PartialEq, Eq, Structural)]
pub enum BackupStatus {
    InProgress,
    Completed,
    Failed,
}

/// Health states.
#[derive(Debug, Clone, Copy, PartialEq, Eq, Structural)]
pub enum HealthStatus {
    Healthy,
    Degraded,
    Failed,
}

/// The health of the cluster.
#[derive(Debug, Clone, Copy, PartialEq, Eq, Structural)]
pub struct ClusterHealth {
    pub overall_status: HealthStatus,
    pub total_nodes: usize,
    pub healthy_nodes: usize,
    pub degraded_nodes: usize,
    pub failed_nodes: usize,
}

/// Health check settings.
#[derive(Debug, Clone, Copy, PartialEq, Eq, Structural)]
pub struct HealthConfig {
    pub health_check_interval_seconds: u64,
    pub unhealthy_threshold_seconds: u64,
    pub auto_healing_enabled: bool,
}

/// Load balancer settings.
#[derive(Debug, Clone, Copy, PartialEq, Eq, Structural)]
pub struct LoadBalancerConfig {
    pub algorithm: LoadBalancingAlgorithm,
    pub health_check_enabled: bool,
    pub session_stickiness: bool,
}

/// Load balancing algorithms.
#[derive(Debug, Clone, Copy, PartialEq, Eq, Structural)]
pub enum LoadBalancingAlgorithm {
    RoundRobin,
    LeastConnections,
    WeightedRoundRobin,
    IPHash,
}

/// Maintenance kinds.
#[derive(Debug, Clone, Copy, PartialEq, Eq, Structural)]
pub enum MaintenanceType {
    RollingUpgrade,
    SchemaChange,
    CapacityExpansion,
}

impl BackupType {
    /// The kind's name.
    pub fn as_str(&self) -> (r: &'static str)
        ensures
            r@ == backup_type_name(*self),
    {
        match self {
            BackupType::Full => "full",
            BackupType::Incremental => "incremental",
            BackupType::Differential => "differential",
            BackupType::Snapshot => "snapshot",
        }
    }
}

/// The name of a backup kind.
pub open spec fn backup_type_name(t: BackupType) -> Seq<char> {
    match t {
        BackupType::Full => "full"@,
        BackupType::Incremental => "incremental"@,
        BackupType::Differential => "differential"@,
        BackupType::Snapshot => "snapshot"@,
    }
}

/// A node with status `Failed` and otherwise the same.
pub open spec fn failed_node(n: NodeInfo) -> NodeInfo {
    NodeInfo { status: NodeStatus::Failed, ..n }
}

/// A node with role `Primary` and otherwise the same.
pub open spec fn promoted_node(n: NodeInfo) -> NodeInfo {
    NodeInfo { role: NodeRole::Primary, ..n }
}

/// Each list of a map of lists without `x`.
pub open spec fn lists_without(after: Map<Seq<char>, Vec<String>>, before: Map<Seq<char>, Vec<String>>, x: Seq<char>) -> bool {
    &&& after.dom() == before.dom()
    &&& forall|k: Seq<char>| #[trigger] after.contains_key(k) ==> views(after[k]@) == without(views(before[k]@), x)
}

/// The cluster's nodes and how they are arranged.
#[derive(Debug)]
pub struct ClusterTopology {
    pub nodes: StringMap<NodeInfo>,
    pub primary_node: Option<String>,
    pub replica_nodes: Vec<String>,
    /// Region to node ids.
    pub regions: StringMap<Vec<String>>,
    /// Shard to node ids.
    pub shards: StringMap<Vec<String>>,
}

/// Whether the list under `k` has `x` removed (when `done`) or is as it
/// was.
pub open spec fn entry_done(
    after: Map<Seq<char>, Vec<String>>,
    before: Map<Seq<char>, Vec<String>>,
    k: Seq<char>,
    x: Seq<char>,
    done: bool,
) -> bool {
    if done {
        views(after[k]@) == without(views(before[k]@), x)
    } else {
        after[k] == before[k]
    }
}

/// Removes `x` from every list of the map.
fn remove_from_lists(m: &mut StringMap<Vec<String>>, x: &str)
    ensures
        lists_without(final(m)@, old(m)@, x@),
{
    let n = m.len();
    let ghost start = m@;
    let ghost keys = m.entry_seq();
    let mut i: usize = 0;
    while i < n
        invariant
            i <= n,
            n == m.entry_seq().len(),
            n == keys.len(),
            start == old(m)@,
            keys == old(m).entry_seq(),
            keys_unique(keys),
            forall|j: int| 0 <= j < n ==> #[trigger] m.entry_seq()[j].0 == keys[j].0,
            m@.dom() == start.dom(),
            forall|j: int| 0 <= j < n ==> entry_done(m@, start, #[trigger] keys[j].0@, x@, j < i),
        decreases n - i,
    {
        let _ = m.entry_at(i);
        let ghost key = keys[i as int].0@;
        let ghost mid = m@;
        let mut list = m.swap_value(i, Vec::new());
        assert(entry_done(mid, start, key, x@, false));
        remove_all(&mut list, x);
        let _ = m.swap_value(i, list);
        assert(m@ =~= mid.insert(key, list));
        assert forall|j: int| 0 <= j < n implies entry_done(m@, start, #[trigger] keys[j].0@, x@, j < i + 1) by {
            if j != i {
                assert(keys[j].0@ != key);
                assert(entry_done(mid, start, keys[j].0@, x@, j < i));
            }
        }
        i = i + 1;
    }
    proof {
        m.lemma_view();
        assert forall|k: Seq<char>| #[trigger] m@.contains_key(k) implies views(m@[k]@) == without(
            views(start[k]@),
            x@,
        ) by {
            let j = choose|j: int| 0 <= j < m.entry_seq().len() && #[trigger] m.entry_seq()[j].0@ == k;
            assert(entry_done(m@, start, keys[j].0@, x@, j < n));
        }
    }
}


/// The nodes of a list by id; a later node replaces an earlier one with the
/// same id.
pub open spec fn node_map(ns: Seq<NodeInfo>) -> Map<Seq<char>, NodeInfo>
    decreases ns.len(),
{
    if ns.len() == 0 {
        Map::empty()
    } else {
        node_map(ns.drop_last()).insert(ns.last().id@, ns.last())
    }
}

impl NodeInfo {
    /// A copy of the node.
    pub fn duplicate(&self) -> (r: Self)
        ensures
            r == *self,
    {
        NodeInfo {
            id: self.id.clone(),
            address: self.address.clone(),
            region: self.region.clone(),
            role: self.role,
            status: self.status,
            last_heartbeat: self.last_heartbeat,
        }
    }
}

/// A node to hold a place while another is changed: empty names, an
/// inactive witness, no heartbeat.
fn placeholder_node() -> (r: NodeInfo)
    ensures
        r.id@.len() == 0,
        r.address@.len() == 0,
        r.region@.len() == 0,
        r.role == NodeRole::Witness,
        r.status == NodeStatus::Inactive,
        r.last_heartbeat == 0,
{
    NodeInfo {
        id: String::new(),
        address: String::new(),
        region: String::new(),
        role: NodeRole::Witness,
        status: NodeStatus::Inactive,
        last_heartbeat: 0,
    }
}

/// A copy of a map of lists.
fn copy_lists(m: &StringMap<Vec<String>>) -> (r: StringMap<Vec<String>>)
    ensures
        r@.dom() == m@.dom(),
        forall|k: Seq<char>| #[trigger] r@.contains_key(k) ==> views(r@[k]@) == views(m@[k]@),
{
    let n = m.len();
    let mut out: StringMap<Vec<String>> = StringMap::new();
    let mut i: usize = 0;
    while i < n
        invariant
            i <= n,
            n == m.entry_seq().len(),
            keys_unique(m.entry_seq()),
            forall|k: Seq<char>| #[trigger] out@.contains_key(k) <==> exists|j: int| 0 <= j < i && m.entry_seq()[j].0@ == k,
            forall|k: Seq<char>| #[trigger] out@.contains_key(k) ==> m@.contains_key(k) && views(out@[k]@) == views(m@[k]@),
        decreases n - i,
    {
        let (k, v) = m.entry_at(i);
        let ghost before = out@;
        out.insert(k.clone(), copy_strings(v));
        proof {
            assert forall|key: Seq<char>| #[trigger] out@.contains_key(key) <==> exists|j: int|
                0 <= j < i + 1 && m.entry_seq()[j].0@ == key by {
                if key == k@ {
                    assert(m.entry_seq()[i as int].0@ == key);
                } else if before.contains_key(key) {
                    let j = choose|j: int| 0 <= j < i && m.entry_seq()[j].0@ == key;
                    assert(m.entry_seq()[j].0@ == key);
                }
                if exists|j: int| 0 <= j < i + 1 && m.entry_seq()[j].0@ == key {
                    let j = choose|j: int| 0 <= j < i + 1 && m.entry_seq()[j].0@ == key;
                    if j < i {
                        assert(exists|j2: int| 0 <= j2 < i && m.entry_seq()[j2].0@ == key);
                    }
                }
            }
        }
        i = i + 1;
    }
    proof {
        m.lemma_view();
        assert(out@.dom() =~= m@.dom()) by {
            assert forall|k: Seq<char>| m@.contains_key(k) implies out@.contains_key(k) by {
                let j = choose|j: int| 0 <= j < m.entry_seq().len() && #[trigger] m.entry_seq()[j].0@ == k;
                assert(m.entry_seq()[j].0@ == k);
            }
        }
    }
    out
}

/// A copy of a map of nodes.
fn copy_nodes(m: &StringMap<NodeInfo>) -> (r: StringMap<NodeInfo>)
    ensures
        r@ == m@,
{
    let n = m.len();
    let mut out: StringMap<NodeInfo> = StringMap::new();
    let mut i: usize = 0;
    while i < n
        invariant
            i <= n,
            n == m.entry_seq().len(),
            keys_unique(m.entry_seq()),
            forall|k: Seq<char>| #[trigger] out@.contains_key(k) <==> exists|j: int| 0 <= j < i && m.entry_seq()[j].0@ == k,
            forall|k: Seq<char>| #[trigger] out@.contains_key(k) ==> m@.contains_key(k) && out@[k] == m@[k],
        decreases n - i,
    {
        let (k, v) = m.entry_at(i);
        let ghost before = out@;
        out.insert(k.clone(), v.duplicate());
        proof {
            assert forall|key: Seq<char>| #[trigger] out@.contains_key(key) <==> exists|j: int|
                0 <= j < i + 1 && m.entry_seq()[j].0@ == key by {
                if key == k@ {
                    assert(m.entry_seq()[i as int].0@ == key);
                } else if before.contains_key(key) {
                    let j = choose|j: int| 0 <= j < i && m.entry_seq()[j].0@ == key;
                    assert(m.entry_seq()[j].0@ == key);
                }
                if exists|j: int| 0 <= j < i + 1 && m.entry_seq()[j].0@ == key {
                    let j = choose|j: int| 0 <= j < i + 1 && m.entry_seq()[j].0@ == key;
                    if j < i {
                        assert(exists|j2: int| 0 <= j2 < i && m.entry_seq()[j2].0@ == key);
                    }
                }
            }
        }
        i = i + 1;
    }
    proof {
        m.lemma_view();
        assert(out@ =~= m@) by {
            assert forall|k: Seq<char>| m@.contains_key(k) implies out@.contains_key(k) by {
                let j = choose|j: int| 0 <= j < m.entry_seq().len() && #[trigger] m.entry_seq()[j].0@ == k;
                assert(m.entry_seq()[j].0@ == k);
            }
        }
    }
    out
}

/// Two topologies hold the same values.
pub open spec fn same_topology(a: ClusterTopology, b: ClusterTopology) -> bool {
    &&& a.nodes@ == b.nodes@
    &&& a.primary_node == b.primary_node
    &&& views(a.replica_nodes@) == views(b.replica_nodes@)
    &&& a.regions@.dom() == b.regions@.dom()
    &&& (forall|k: Seq<char>| #[trigger] a.regions@.contains_key(k) ==> views(a.regions@[k]@) == views(b.regions@[k]@))
    &&& a.shards@.dom() == b.shards@.dom()
    &&& (forall|k: Seq<char>| #[trigger] a.shards@.contains_key(k) ==> views(a.shards@[k]@) == views(b.shards@[k]@))
}

impl ClusterTopology {
    /// The topology a configuration describes.
    pub fn new(config: ClusterConfig) -> (r: Self)
        ensures
            r.nodes@ == node_map(config.nodes@),
            r.primary_node == config.primary_node,
            r.replica_nodes@ == config.replica_nodes@,
            r.regions@ == config.regions@,
            r.shards@ == config.shards@,
    {
        let mut nodes: StringMap<NodeInfo> = StringMap::new();
        let mut i: usize = 0;
        assert(config.nodes@.subrange(0, 0) =~= Seq::<NodeInfo>::empty());
        while i < config.nodes.len()
            invariant
                i <= config.nodes@.len(),
                nodes@ == node_map(config.nodes@.subrange(0, i as int)),
            decreases config.nodes@.len() - i,
        {
            let node = &config.nodes[i];
            let ghost next = config.nodes@.subrange(0, i + 1);
            assert(next.drop_last() =~= config.nodes@.subrange(0, i as int));
            nodes.insert(node.id.clone(), node.duplicate());
            i = i + 1;
        }
        assert(config.nodes@.subrange(0, config.nodes@.len() as int) =~= config.nodes@);
        ClusterTopology {
            nodes,
            primary_node: config.primary_node,
            replica_nodes: config.replica_nodes,
            regions: config.regions,
            shards: config.shards,
        }
    }

    /// A copy of the topology.
    pub fn duplicate(&self) -> (r: Self)
        ensures
            same_topology(r, *self),
    {
        ClusterTopology {
            nodes: copy_nodes(&self.nodes),
            primary_node: copy_opt_string(&self.primary_node),
            replica_nodes: copy_strings(&self.replica_nodes),
            regions: copy_lists(&self.regions),
            shards: copy_lists(&self.shards),
        }
    }

    /// Marks a node failed and takes it out of the replicas, the regions
    /// and the shards; the primary is left as it is.
    pub fn mark_node_failed(&mut self, node_id: &str)
        ensures
            old(self).nodes@.contains_key(node_id@) ==> final(self).nodes@ == old(self).nodes@.insert(
                node_id@,
                failed_node(old(self).nodes@[node_id@]),
            ),
            !old(self).nodes@.contains_key(node_id@) ==> final(self).nodes@ == old(self).nodes@,
            final(self).primary_node == old(self).primary_node,
            views(final(self).replica_nodes@) == without(views(old(self).replica_nodes@), node_id@),
            lists_without(final(self).regions@, old(self).regions@, node_id@),
            lists_without(final(self).shards@, old(self).shards@, node_id@),
    {
        match self.nodes.position(node_id) {
            Some(i) => {
                let mut node = self.nodes.swap_value(i, placeholder_node());
                node.status = NodeStatus::Failed;
                let _ = self.nodes.swap_value(i, node);
                assert(self.nodes@ =~= old(self).nodes@.insert(node_id@, failed_node(old(self).nodes@[node_id@])));
            },
            None => {},
        }
        remove_all(&mut self.replica_nodes, node_id);
        remove_from_lists(&mut self.regions, node_id);
        remove_from_lists(&mut self.shards, node_id);
    }

    /// Promotes the first replica, if any, to primary: it leaves the
    /// replicas and its node takes the primary role.
    pub fn elect_new_primary(&mut self)
        ensures
            old(self).replica_nodes@.len() == 0 ==> *final(self) == *old(self),
            old(self).replica_nodes@.len() > 0 ==> ({
                let new_primary = old(self).replica_nodes@[0]@;
                &&& final(self).primary_node matches Some(p) && p@ == new_primary
                &&& views(final(self).replica_nodes@) == without(views(old(self).replica_nodes@), new_primary)
                &&& old(self).nodes@.contains_key(new_primary) ==> final(self).nodes@ == old(self).nodes@.insert(
                    new_primary,
                    promoted_node(old(self).nodes@[new_primary]),
                )
                &&& !old(self).nodes@.contains_key(new_primary) ==> final(self).nodes@ == old(self).nodes@
                &&& final(self).regions@ == old(self).regions@
                &&& final(self).shards@ == old(self).shards@
            }),
    {
        if self.replica_nodes.len() == 0 {
            return;
        }
        let new_primary = self.replica_nodes[0].clone();
        self.primary_node = Some(new_primary.clone());
        remove_all(&mut self.replica_nodes, new_primary.as_str());
        match self.nodes.position(new_primary.as_str()) {
            Some(i) => {
                let mut node = self.nodes.swap_value(i, placeholder_node());
                node.role = NodeRole::Primary;
                let _ = self.nodes.swap_value(i, node);
                assert(self.nodes@ =~= old(self).nodes@.insert(
                    new_primary@,
                    promoted_node(old(self).nodes@[new_primary@]),
                ));
            },
            None => {},
        }
    }
}

/// Whether the topology's primary is `id`.
pub open spec fn primary_is(t: ClusterTopology, id: Seq<char>) -> bool {
    t.primary_node matches Some(p) && p@ == id
}

/// Keeps the topology of the cluster up to date.
#[derive(Debug)]
pub struct ClusterStateManager {
    topology: ClusterTopology,
    quorum_size: usize,
}

/// The ids `node_0`, `node_1`, ... up to `count` of them.
pub open spec fn provisioned_ids(count: nat) -> Seq<Seq<char>> {
    Seq::new(count, |i: int| "node_"@ + decimal(i as nat))
}

impl ClusterStateManager {
    /// The current topology.
    pub closed spec fn topology(&self) -> ClusterTopology {
        self.topology
    }

    /// A manager for the topology a configuration describes.
    pub fn new(config: ClusterConfig) -> (r: Result<Self, HaError>)
        ensures
            r matches Ok(m) && m.topology().nodes@ == node_map(config.nodes@) && m.topology().primary_node
                == config.primary_node && m.topology().replica_nodes@ == config.replica_nodes@,
    {
        let quorum_size = config.quorum_size;
        Ok(ClusterStateManager { topology: ClusterTopology::new(config), quorum_size })
    }

    /// Marks a node failed and, when it was the primary, elects a new one.
    pub fn update_topology_after_failure(&mut self, failed_node_id: &str) -> (r: Result<(), HaError>)
        ensures
            r is Ok,
            ({
                let was_primary = primary_is(old(self).topology(), failed_node_id@);
                let rest = without(views(old(self).topology().replica_nodes@), failed_node_id@);
                &&& (was_primary && rest.len() > 0) ==> primary_is(final(self).topology(), rest[0])
                    && views(final(self).topology().replica_nodes@) == without(rest, rest[0])
                &&& !(was_primary && rest.len() > 0) ==> final(self).topology().primary_node == old(
                    self,
                ).topology().primary_node && views(final(self).topology().replica_nodes@) == rest
            }),
            final(self).topology().nodes@.contains_key(failed_node_id@) ==> final(self).topology().nodes@[failed_node_id@].status
                == NodeStatus::Failed,
            final(self).topology().nodes@.dom() == old(self).topology().nodes@.dom(),
    {
        self.topology.mark_node_failed(failed_node_id);
        let is_primary = match &self.topology.primary_node {
            Some(p) => str_equal(p.as_str(), failed_node_id),
            None => false,
        };
        if is_primary {
            self.topology.elect_new_primary();
        }
        Ok(())
    }

    /// A copy of the current topology.
    pub fn get_current_topology(&self) -> (r: Result<ClusterTopology, HaError>)
        ensures
            r matches Ok(t) && same_topology(t, self.topology()),
    {
        Ok(self.topology.duplicate())
    }

    /// The ids of the nodes of the topology.
    pub fn get_active_nodes(&self) -> (r: Result<Vec<String>, HaError>)
        ensures
            r matches Ok(v) && v@.len() == self.topology().nodes@.len() && forall|k: Seq<char>|
                self.topology().nodes@.contains_key(k) <==> crate::text::contains_text(v@, k),
    {
        Ok(self.topology.nodes.key_list())
    }

    /// The ids of `count` new nodes: `node_0` to `node_{count-1}`.
    pub fn provision_new_nodes(&self, count: usize) -> (r: Result<Vec<String>, HaError>)
        ensures
            r matches Ok(v) && views(v@) == provisioned_ids(count as nat),
    {
        let mut out: Vec<String> = Vec::new();
        let mut i: usize = 0;
        while i < count
            invariant
                i <= count,
                views(out@) == provisioned_ids(i as nat),
            decreases count - i,
        {
            let mut id = String::new();
            push_text(&mut id, "node_");
            push_decimal(&mut id, i as u64);
            assert(id@ =~= "node_"@ + decimal(i as nat));
            let ghost before = views(out@);
            out.push(id);
            assert(views(out@) =~= before.push("node_"@ + decimal(i as nat)));
            i = i + 1;
            assert(views(out@) =~= provisioned_ids(i as nat));
        }
        Ok(out)
    }
}

/// Why a high-availability operation failed.
#[derive(Debug, Clone, Copy, PartialEq, Eq, Structural)]
pub enum HaError {
    /// A node that the cluster does not know.
    UnknownNode,
}

/// A recorded failover.
#[derive(Debug)]
pub struct FailoverEvent {
    pub id: String,
    /// Seconds since the Unix epoch.
    pub timestamp: i64,
    pub failed_node: String,
    pub new_primary: Option<String>,
    pub duration_ms: u64,
    pub success: bool,
}

/// Runs failovers and records them.
#[derive(Debug)]
pub struct FailoverOrchestrator {
    config: FailoverConfig,
    failover_history: Vec<FailoverEvent>,
}

impl FailoverOrchestrator {
    /// The failovers so far, oldest first.
    pub closed spec fn history(&self) -> Seq<FailoverEvent> {
        self.failover_history@
    }

    /// An orchestrator with no failovers yet.
    pub fn new(config: FailoverConfig) -> (r: Result<Self, HaError>)
        ensures
            r matches Ok(o) && o.history().len() == 0,
    {
        Ok(FailoverOrchestrator { config, failover_history: Vec::new() })
    }

    /// Records a successful failover of a node (new primary not yet known,
    /// no duration).
    pub fn initiate_failover(&mut self, failed_node_id: &str) -> (r: Result<(), HaError>)
        ensures
            r is Ok,
            final(self).history().len() == old(self).history().len() + 1,
            final(self).history().drop_last() == old(self).history(),
            final(self).history().last().failed_node@ == failed_node_id@,
            final(self).history().last().id@.len() == 36,
            final(self).history().last().new_primary is None,
            final(self).history().last().duration_ms == 0,
            final(self).history().last().success,
    {
        let event = FailoverEvent {
            id: new_uuid_text(),
            timestamp: utc_now_seconds(),
            failed_node: owned(failed_node_id),
            new_primary: None,
            duration_ms: 0,
            success: true,
        };
        self.failover_history.push(event);
        assert(self.failover_history@.drop_last() =~= old(self).failover_history@);
        Ok(())
    }

    /// The number of failovers recorded.
    pub fn history_len(&self) -> (r: usize)
        ensures
            r == self.history().len(),
    {
        self.failover_history.len()
    }

    /// The failed node of the failover at position `i`.
    pub fn failed_node_at(&self, i: usize) -> (r: &String)
        requires
            i < self.history().len(),
        ensures
            *r == self.history()[i as int].failed_node,
    {
        &self.failover_history[i].failed_node
    }
}

/// The replication state of a node.
#[derive(Debug)]
pub struct ReplicationState {
    pub node_id: String,
    pub lag_seconds: u64,
    pub status: ReplicationStatus,
    /// Seconds since the Unix epoch.
    pub last_sync: i64,
}

/// A summary of replication.  The average lag is in thousandths of a
/// second, rounded down.
#[derive(Debug)]
pub struct ReplicationStatusReport {
    pub total_nodes: usize,
    pub active_nodes: usize,
    pub failed_nodes: Vec<String>,
    pub average_lag_seconds: u64,
    pub max_lag_seconds: u64,
}

/// The sum of the lags of a list of states.
pub open spec fn lag_sum(es: Seq<(String, ReplicationState)>) -> nat
    decreases es.len(),
{
    if es.len() == 0 {
        0
    } else {
        lag_sum(es.drop_last()) + es.last().1.lag_seconds as nat
    }
}

/// The largest lag of a list of states (0 for none).
pub open spec fn lag_max(es: Seq<(String, ReplicationState)>) -> u64
    decreases es.len(),
{
    if es.len() == 0 {
        0
    } else if lag_max(es.drop_last()) >= es.last().1.lag_seconds {
        lag_max(es.drop_last())
    } else {
        es.last().1.lag_seconds
    }
}

/// The number of states with the given status.
pub open spec fn status_count(es: Seq<(String, ReplicationState)>, st: ReplicationStatus) -> nat
    decreases es.len(),
{
    if es.len() == 0 {
        0
    } else {
        status_count(es.drop_last(), st) + (if es.last().1.status == st {
            1nat
        } else {
            0nat
        })
    }
}

/// The ids of the failed nodes, in order.
pub open spec fn failed_ids(es: Seq<(String, ReplicationState)>) -> Seq<Seq<char>>
    decreases es.len(),
{
    if es.len() == 0 {
        Seq::empty()
    } else {
        failed_ids(es.drop_last()) + (if es.last().1.status == ReplicationStatus::Failed {
            seq![es.last().0@]
        } else {
            Seq::empty()
        })
    }
}

/// Coordinates replication across nodes.
#[derive(Debug)]
pub struct ReplicationCoordinator {
    config: ReplicationConfig,
    replication_status: StringMap<ReplicationState>,
}

impl ReplicationCoordinator {
    /// The state of each node, in the order nodes were added.
    pub closed spec fn states(&self) -> Seq<(String, ReplicationState)> {
        self.replication_status.entry_seq()
    }

    /// The state of each node, by id.
    pub closed spec fn state_map(&self) -> Map<Seq<char>, ReplicationState> {
        self.replication_status@
    }

    /// A coordinator without nodes.
    pub fn new(config: ReplicationConfig) -> (r: Result<Self, HaError>)
        ensures
            r matches Ok(c) && c.states().len() == 0 && c.state_map() == Map::<Seq<char>, ReplicationState>::empty(),
    {
        Ok(ReplicationCoordinator { config, replication_status: StringMap::new() })
    }

    /// Makes sure replicas have caught up (nothing to do here).
    pub fn ensure_consistency(&self) -> (r: Result<(), HaError>)
        ensures
            r is Ok,
    {
        Ok(())
    }

    /// Adds each new node as an active replica with no lag.
    pub fn expand_replication(&mut self, new_nodes: &[String]) -> (r: Result<(), HaError>)
        ensures
            r is Ok,
            final(self).state_map().dom() == old(self).state_map().dom() + Set::new(
                |k: Seq<char>| contains_text(new_nodes@, k),
            ),
            forall|k: Seq<char>|
                #[trigger] contains_text(new_nodes@, k) ==> final(self).state_map()[k].lag_seconds == 0
                    && final(self).state_map()[k].status == ReplicationStatus::Active
                    && final(self).state_map()[k].node_id@ == k,
            forall|k: Seq<char>|
                #[trigger] old(self).state_map().contains_key(k) && !contains_text(new_nodes@, k)
                    ==> final(self).state_map()[k] == old(self).state_map()[k],
    {
        let mut i: usize = 0;
        while i < new_nodes.len()
            invariant
                i <= new_nodes@.len(),
                self.replication_status@.dom() == old(self).replication_status@.dom() + Set::new(
                    |k: Seq<char>| contains_text(new_nodes@.subrange(0, i as int), k),
                ),
                forall|k: Seq<char>|
                    #[trigger] contains_text(new_nodes@.subrange(0, i as int), k) ==> self.replication_status@[k].lag_seconds
                        == 0 && self.replication_status@[k].status == ReplicationStatus::Active
                        && self.replication_status@[k].node_id@ == k,
                forall|k: Seq<char>|
                    #[trigger] old(self).replication_status@.contains_key(k) && !contains_text(
                        new_nodes@.subrange(0, i as int),
                        k,
                    ) ==> self.replication_status@[k] == old(self).replication_status@[k],
            decreases new_nodes@.len() - i,
        {
            let node_id = &new_nodes[i];
            let state = ReplicationState {
                node_id: node_id.clone(),
                lag_seconds: 0,
                status: ReplicationStatus::Active,
                last_sync: utc_now_seconds(),
            };
            proof {
                lemma_contains_step(new_nodes@, i as int);
            }
            self.replication_status.insert(node_id.clone(), state);
            proof {
                assert(self.replication_status@.dom() =~= old(self).replication_status@.dom() + Set::new(
                    |k: Seq<char>| contains_text(new_nodes@.subrange(0, i + 1), k),
                ));
            }
            i = i + 1;
        }
        proof {
            assert(new_nodes@.subrange(0, new_nodes@.len() as int) =~= new_nodes@);
            assert(self.replication_status@.dom() =~= old(self).replication_status@.dom() + Set::new(
                |k: Seq<char>| contains_text(new_nodes@, k),
            ));
        }
        Ok(())
    }

    /// The summary of replication: node counts, failed nodes (in the order
    /// they were added), average and largest lag.
    pub fn get_status(&self) -> (r: Result<ReplicationStatusReport, HaError>)
        requires
            lag_sum(self.states()) * 1000 <= u64::MAX,
        ensures
            r matches Ok(rep) && rep.total_nodes == self.states().len() && rep.active_nodes == status_count(
                self.states(),
                ReplicationStatus::Active,
            ) && views(rep.failed_nodes@) == failed_ids(self.states()) && rep.max_lag_seconds == lag_max(
                self.states(),
            ) && rep.average_lag_seconds == (if self.states().len() == 0 {
                0
            } else {
                lag_sum(self.states()) * 1000 / self.states().len()
            }),
    {
        let n = self.replication_status.len();
        let ghost es = self.replication_status.entry_seq();
        let mut sum: u64 = 0;
        let mut max: u64 = 0;
        let mut active: usize = 0;
        let mut failed: Vec<String> = Vec::new();
        let mut i: usize = 0;
        assert(es.subrange(0, 0) =~= Seq::<(String, ReplicationState)>::empty());
        while i < n
            invariant
                i <= n,
                n == es.len(),
                es == self.replication_status.entry_seq(),
                lag_sum(es) * 1000 <= u64::MAX,
                sum == lag_sum(es.subrange(0, i as int)),
                max == lag_max(es.subrange(0, i as int)),
                active == status_count(es.subrange(0, i as int), ReplicationStatus::Active),
                active <= i,
                views(failed@) == failed_ids(es.subrange(0, i as int)),
            decreases n - i,
        {
            let (k, st) = self.replication_status.entry_at(i);
            let ghost pre = es.subrange(0, i as int);
            let ghost next = es.subrange(0, i + 1);
            assert(next.drop_last() =~= pre);
            proof {
                lemma_lag_sum_prefix(es, i + 1);
            }
            sum = sum + st.lag_seconds;
            if st.lag_seconds > max {
                max = st.lag_seconds;
            }
            if st.status == ReplicationStatus::Active {
                active = active + 1;
            }
            if st.status == ReplicationStatus::Failed {
                let ghost before = views(failed@);
                failed.push(k.clone());
                assert(views(failed@) =~= before + seq![k@]);
            } else {
                assert(failed_ids(next) =~= failed_ids(pre));
            }
            i = i + 1;
        }
        assert(es.subrange(0, n as int) =~= es);
        let average: u64 = if n == 0 {
            0
        } else {
            sum * 1000 / (n as u64)
        };
        Ok(
            ReplicationStatusReport {
                total_nodes: n,
                active_nodes: active,
                failed_nodes: failed,
                average_lag_seconds: average,
                max_lag_seconds: max,
            },
        )
    }
}

/// A string is in the first `i + 1` strings when it is in the first `i` or
/// is string `i`.
proof fn lemma_contains_step(v: Seq<String>, i: int)
    requires
        0 <= i < v.len(),
    ensures
        forall|k: Seq<char>|
            #[trigger] contains_text(v.subrange(0, i + 1), k) <==> (contains_text(v.subrange(0, i), k) || k
                == v[i]@),
{
    assert forall|k: Seq<char>|
        #[trigger] contains_text(v.subrange(0, i + 1), k) <==> (contains_text(v.subrange(0, i), k) || k == v[i]@) by {
        if contains_text(v.subrange(0, i + 1), k) {
            let j = choose|j: int| 0 <= j < i + 1 && #[trigger] v.subrange(0, i + 1)[j]@ == k;
            if j < i {
                assert(v.subrange(0, i)[j]@ == k);
            }
        }
        if contains_text(v.subrange(0, i), k) {
            let j = choose|j: int| 0 <= j < i && #[trigger] v.subrange(0, i)[j]@ == k;
            assert(v.subrange(0, i + 1)[j]@ == k);
        }
        if k == v[i]@ {
            assert(v.subrange(0, i + 1)[i]@ == k);
        }
    }
}

/// A prefix's lag sum is no more than the whole's.
proof fn lemma_lag_sum_prefix(es: Seq<(String, ReplicationState)>, i: int)
    requires
        0 <= i <= es.len(),
    ensures
        lag_sum(es.subrange(0, i)) <= lag_sum(es),
    decreases es.len(),
{
    if i < es.len() {
        lemma_lag_sum_prefix(es.drop_last(), i);
        assert(es.drop_last().subrange(0, i) =~= es.subrange(0, i));
    } else {
        assert(es.subrange(0, i) =~= es);
    }
}

/// A backup that was made.
#[derive(Debug)]
pub struct BackupRecord {
    pub id: String,
    pub backup_type: BackupType,
    /// Seconds since the Unix epoch.
    pub start_time: i64,
    pub end_time: i64,
    pub size_bytes: u64,
    pub status: BackupStatus,
    pub location: String,
}

impl BackupRecord {
    /// A copy of the record.
    pub fn duplicate(&self) -> (r: Self)
        ensures
            r == *self,
    {
        BackupRecord {
            id: self.id.clone(),
            backup_type: self.backup_type,
            start_time: self.start_time,
            end_time: self.end_time,
            size_bytes: self.size_bytes,
            status: self.status,
            location: self.location.clone(),
        }
    }
}

/// A summary of the backups.
#[derive(Debug)]
pub struct BackupStatusReport {
    pub total_backups: usize,
    pub latest_backup: Option<BackupRecord>,
    pub total_size_bytes: u64,
    pub retention_days: u32,
}

/// Backup settings.
#[derive(Debug)]
pub struct BackupConfig {
    pub retention_days: u32,
    pub compression_enabled: bool,
    pub encryption_enabled: bool,
    pub storage_locations: Vec<String>,
}

/// The size recorded for every backup: 1 GiB.
pub const BACKUP_SIZE_BYTES: u64 = 1073741824;

/// The total size of a list of backups.
pub open spec fn backup_size_sum(bs: Seq<BackupRecord>) -> nat
    decreases bs.len(),
{
    if bs.len() == 0 {
        0
    } else {
        backup_size_sum(bs.drop_last()) + bs.last().size_bytes as nat
    }
}

/// Makes backups and keeps their records.
#[derive(Debug)]
pub struct BackupRecoveryEngine {
    config: BackupConfig,
    backup_history: Vec<BackupRecord>,
}

impl BackupRecoveryEngine {
    /// The backups made, oldest first.
    pub closed spec fn history(&self) -> Seq<BackupRecord> {
        self.backup_history@
    }

    /// How long backups are kept.
    pub closed spec fn retention(&self) -> u32 {
        self.config.retention_days
    }

    /// An engine with no backups.
    pub fn new(config: BackupConfig) -> (r: Result<Self, HaError>)
        ensures
            r matches Ok(e) && e.history().len() == 0 && e.retention() == config.retention_days,
    {
        Ok(BackupRecoveryEngine { config, backup_history: Vec::new() })
    }

    /// Records a completed backup of the given kind under a fresh id, at
    /// `s3://aurora-backups/{id}`, and returns the id.
    pub fn initiate_backup(&mut self, backup_type: BackupType) -> (r: Result<String, HaError>)
        ensures
            final(self).retention() == old(self).retention(),
            final(self).history().len() == old(self).history().len() + 1,
            final(self).history().drop_last() == old(self).history(),
            r matches Ok(id) && id@.len() == 36 && final(self).history().last().id@ == id@
                && final(self).history().last().backup_type == backup_type
                && final(self).history().last().size_bytes == BACKUP_SIZE_BYTES
                && final(self).history().last().status == BackupStatus::Completed
                && final(self).history().last().location@ == "s3://aurora-backups/"@ + id@,
    {
        let backup_id = new_uuid_text();
        let start_time = utc_now_seconds();
        let mut location = String::new();
        push_text(&mut location, "s3://aurora-backups/");
        push_text(&mut location, backup_id.as_str());
        assert(location@ =~= "s3://aurora-backups/"@ + backup_id@);
        let record = BackupRecord {
            id: backup_id.clone(),
            backup_type,
            start_time,
            end_time: utc_now_seconds(),
            size_bytes: BACKUP_SIZE_BYTES,
            status: BackupStatus::Completed,
            location,
        };
        self.backup_history.push(record);
        assert(self.backup_history@.drop_last() =~= old(self).backup_history@);
        Ok(backup_id)
    }

    /// Restores a backup (nothing to do here).
    pub fn restore_backup(&self, backup_id: &str, target_time: Option<i64>) -> (r: Result<(), HaError>)
        ensures
            r is Ok,
    {
        Ok(())
    }

    /// The summary of the backups.
    pub fn get_status(&self) -> (r: Result<BackupStatusReport, HaError>)
        requires
            backup_size_sum(self.history()) <= u64::MAX,
        ensures
            r matches Ok(rep) && rep.total_backups == self.history().len() && rep.total_size_bytes
                == backup_size_sum(self.history()) && rep.retention_days == self.retention() && (if self.history().len()
                == 0 {
                rep.latest_backup is None
            } else {
                rep.latest_backup == Some(self.history().last())
            }),
    {
        let n = self.backup_history.len();
        let mut total: u64 = 0;
        let mut i: usize = 0;
        assert(self.backup_history@.subrange(0, 0) =~= Seq::<BackupRecord>::empty());
        while i < n
            invariant
                i <= n,
                n == self.backup_history@.len(),
                backup_size_sum(self.backup_history@) <= u64::MAX,
                total == backup_size_sum(self.backup_history@.subrange(0, i as int)),
            decreases n - i,
        {
            let ghost next = self.backup_history@.subrange(0, i + 1);
            assert(next.drop_last() =~= self.backup_history@.subrange(0, i as int));
            proof {
                lemma_backup_sum_prefix(self.backup_history@, i + 1);
            }
            total = total + self.backup_history[i].size_bytes;
            i = i + 1;
        }
        assert(self.backup_history@.subrange(0, n as int) =~= self.backup_history@);
        let latest = if n == 0 {
            None
        } else {
            Some(self.backup_history[n - 1].duplicate())
        };
        Ok(
            BackupStatusReport {
                total_backups: n,
                latest_backup: latest,
                total_size_bytes: total,
                retention_days: self.config.retention_days,
            },
        )
    }
}

/// A prefix's total size is no more than the whole's.
proof fn lemma_backup_sum_prefix(bs: Seq<BackupRecord>, i: int)
    requires
        0 <= i <= bs.len(),
    ensures
        backup_size_sum(bs.subrange(0, i)) <= backup_size_sum(bs),
    decreases bs.len(),
{
    if i < bs.len() {
        lemma_backup_sum_prefix(bs.drop_last(), i);
        assert(bs.drop_last().subrange(0, i) =~= bs.subrange(0, i));
    } else {
        assert(bs.subrange(0, i) =~= bs);
    }
}

/// The health of a node; usages are in thousandths.
#[derive(Debug)]
pub struct NodeHealth {
    pub node_id: String,
    pub status: HealthStatus,
    pub cpu_usage: u32,
    pub memory_usage: u32,
    pub disk_usage: u32,
    /// Seconds since the Unix epoch.
    pub last_check: i64,
}

/// The number of nodes with the given health.
pub open spec fn health_count(es: Seq<(String, NodeHealth)>, st: HealthStatus) -> nat
    decreases es.len(),
{
    if es.len() == 0 {
        0
    } else {
        health_count(es.drop_last(), st) + (if es.last().1.status == st {
            1nat
        } else {
            0nat
        })
    }
}

/// Keeps the health of each node.
#[derive(Debug)]
pub struct HealthMonitor {
    config: HealthConfig,
    node_health: StringMap<NodeHealth>,
}

impl HealthMonitor {
    /// The health of each node, in the order nodes were added.
    pub closed spec fn healths(&self) -> Seq<(String, NodeHealth)> {
        self.node_health.entry_seq()
    }

    /// A monitor with no nodes.
    pub fn new(config: HealthConfig) -> (r: Result<Self, HaError>)
        ensures
            r matches Ok(m) && m.healths().len() == 0,
    {
        Ok(HealthMonitor { config, node_health: StringMap::new() })
    }

    /// Checks a node's health (nothing to do here).
    pub fn verify_node_health(&self, node_id: &str) -> (r: Result<(), HaError>)
        ensures
            r is Ok,
    {
        Ok(())
    }

    /// The health of the cluster: counts of nodes by health; healthy overall
    /// when every node is, degraded otherwise.
    pub fn get_cluster_health(&self) -> (r: Result<ClusterHealth, HaError>)
        ensures
            r matches Ok(h) && h.total_nodes == self.healths().len() && h.healthy_nodes == health_count(
                self.healths(),
                HealthStatus::Healthy,
            ) && h.degraded_nodes == health_count(self.healths(), HealthStatus::Degraded) && h.failed_nodes
                == health_count(self.healths(), HealthStatus::Failed) && h.overall_status == (if h.healthy_nodes
                == h.total_nodes {
                HealthStatus::Healthy
            } else {
                HealthStatus::Degraded
            }),
    {
        let n = self.node_health.len();
        let ghost es = self.node_health.entry_seq();
        let mut healthy: usize = 0;
        let mut degraded: usize = 0;
        let mut failed: usize = 0;
        let mut i: usize = 0;
        assert(es.subrange(0, 0) =~= Seq::<(String, NodeHealth)>::empty());
        while i < n
            invariant
                i <= n,
                n == es.len(),
                es == self.node_health.entry_seq(),
                healthy == health_count(es.subrange(0, i as int), HealthStatus::Healthy),
                degraded == health_count(es.subrange(0, i as int), HealthStatus::Degraded),
                failed == health_count(es.subrange(0, i as int), HealthStatus::Failed),
                healthy + degraded + failed <= i,
            decreases n - i,
        {
            let (_, h) = self.node_health.entry_at(i);
            let ghost next = es.subrange(0, i + 1);
            assert(next.drop_last() =~= es.subrange(0, i as int));
            match h.status {
                HealthStatus::Healthy => healthy = healthy + 1,
                HealthStatus::Degraded => degraded = degraded + 1,
                HealthStatus::Failed => failed = failed + 1,
            }
            i = i + 1;
        }
        assert(es.subrange(0, n as int) =~= es);
        Ok(
            ClusterHealth {
                overall_status: if healthy == n {
                    HealthStatus::Healthy
                } else {
                    HealthStatus::Degraded
                },
                total_nodes: n,
                healthy_nodes: healthy,
                degraded_nodes: degraded,
                failed_nodes: failed,
            },
        )
    }
}

/// Spreads load over the nodes.
#[derive(Debug)]
pub struct LoadBalancer {
    config: LoadBalancerConfig,
    node_weights: StringMap<u32>,
}

impl LoadBalancer {
    /// A balancer with no nodes.
    pub fn new(config: LoadBalancerConfig) -> (r: Result<Self, HaError>)
        ensures
            r is Ok,
    {
        Ok(LoadBalancer { config, node_weights: StringMap::new() })
    }

    /// Spreads load anew (nothing to do here).
    pub fn redistribute_load(&self) -> (r: Result<(), HaError>)
        ensures
            r is Ok,
    {
        Ok(())
    }

    /// Takes a node out of rotation (nothing to do here).
    pub fn drain_node(&self, node_id: &str) -> (r: Result<(), HaError>)
        ensures
            r is Ok,
    {
        Ok(())
    }

    /// Puts a node into rotation (nothing to do here).
    pub fn add_node(&self, node_id: &str) -> (r: Result<(), HaError>)
        ensures
            r is Ok,
    {
        Ok(())
    }

    /// Puts nodes into rotation, one by one.
    pub fn add_nodes(&self, node_ids: &[String]) -> (r: Result<(), HaError>)
        ensures
            r is Ok,
    {
        let mut i: usize = 0;
        while i < node_ids.len()
            invariant
                i <= node_ids@.len(),
            decreases node_ids@.len() - i,
        {
            let _ = self.add_node(node_ids[i].as_str());
            i = i + 1;
        }
        Ok(())
    }
}

/// All high-availability settings.
#[derive(Debug)]
pub struct HAConfig {
    pub cluster_config: ClusterConfig,
    pub failover_config: FailoverConfig,
    pub replication_config: ReplicationConfig,
    pub backup_config: BackupConfig,
    pub health_config: HealthConfig,
    pub load_balancer_config: LoadBalancerConfig,
}

/// The state of the whole cluster.
#[derive(Debug)]
pub struct ClusterStatus {
    pub topology: ClusterTopology,
    pub health: ClusterHealth,
    pub replication_status: ReplicationStatusReport,
    pub backup_status: BackupStatusReport,
    /// Seconds since the Unix epoch.
    pub last_updated: i64,
}

/// What maintenance leaves to do: nothing, or upgrading these nodes one
/// after another (drain, upgrade, add back, check health).
#[derive(Debug)]
pub enum MaintenanceOutcome {
    Done,
    UpgradeNodes(Vec<String>),
}

/// The number of nodes a capacity expansion adds.
pub const EXPANSION_NODES: usize = 3;

/// Central high-availability orchestration.
#[derive(Debug)]
pub struct HighAvailabilityManager {
    cluster_state: ClusterStateManager,
    failover_orchestrator: FailoverOrchestrator,
    replication_coordinator: ReplicationCoordinator,
    backup_recovery: BackupRecoveryEngine,
    health_monitor: HealthMonitor,
    load_balancer: LoadBalancer,
}

impl HighAvailabilityManager {
    /// The current topology.
    pub closed spec fn topology(&self) -> ClusterTopology {
        self.cluster_state.topology()
    }

    /// The failovers so far.
    pub closed spec fn failovers(&self) -> Seq<FailoverEvent> {
        self.failover_orchestrator.history()
    }

    /// The replication states.
    pub closed spec fn replication(&self) -> Map<Seq<char>, ReplicationState> {
        self.replication_coordinator.state_map()
    }

    /// The replication states in order.
    pub closed spec fn replication_states(&self) -> Seq<(String, ReplicationState)> {
        self.replication_coordinator.states()
    }

    /// The backups made.
    pub closed spec fn backups(&self) -> Seq<BackupRecord> {
        self.backup_recovery.history()
    }

    /// A manager for the given settings: the configured topology, and no
    /// failovers, replicas, backups or health records yet.
    pub fn new(config: HAConfig) -> (r: Result<Self, HaError>)
        ensures
            r matches Ok(m) && m.topology().nodes@ == node_map(config.cluster_config.nodes@)
                && m.topology().primary_node == config.cluster_config.primary_node && m.failovers().len() == 0
                && m.replication_states().len() == 0 && m.backups().len() == 0,
    {
        let cluster_state = match ClusterStateManager::new(config.cluster_config) {
            Ok(c) => c,
            Err(e) => return Err(e),
        };
        let failover_orchestrator = match FailoverOrchestrator::new(config.failover_config) {
            Ok(f) => f,
            Err(e) => return Err(e),
        };
        let replication_coordinator = match ReplicationCoordinator::new(config.replication_config) {
            Ok(c) => c,
            Err(e) => return Err(e),
        };
        let backup_recovery = match BackupRecoveryEngine::new(config.backup_config) {
            Ok(b) => b,
            Err(e) => return Err(e),
        };
        let health_monitor = match HealthMonitor::new(config.health_config) {
            Ok(h) => h,
            Err(e) => return Err(e),
        };
        let load_balancer = match LoadBalancer::new(config.load_balancer_config) {
            Ok(l) => l,
            Err(e) => return Err(e),
        };
        Ok(
            HighAvailabilityManager {
                cluster_state,
                failover_orchestrator,
                replication_coordinator,
                backup_recovery,
                health_monitor,
                load_balancer,
            },
        )
    }

    /// Handles a node failure: records a failover, marks the node failed
    /// (electing a new primary when it was the primary), then redistributes
    /// load and checks replication.
    pub fn handle_node_failure(&mut self, failed_node_id: &str) -> (r: Result<(), HaError>)
        ensures
            r is Ok,
            final(self).failovers().len() == old(self).failovers().len() + 1,
            final(self).failovers().last().failed_node@ == failed_node_id@,
            ({
                let was_primary = primary_is(old(self).topology(), failed_node_id@);
                let rest = without(views(old(self).topology().replica_nodes@), failed_node_id@);
                &&& (was_primary && rest.len() > 0) ==> primary_is(final(self).topology(), rest[0])
                    && views(final(self).topology().replica_nodes@) == without(rest, rest[0])
                &&& !(was_primary && rest.len() > 0) ==> final(self).topology().primary_node == old(
                    self,
                ).topology().primary_node && views(final(self).topology().replica_nodes@) == rest
            }),
            final(self).topology().nodes@.contains_key(failed_node_id@) ==> final(self).topology().nodes@[failed_node_id@].status
                == NodeStatus::Failed,
            final(self).replication() == old(self).replication(),
            final(self).backups() == old(self).backups(),
    {
        let _ = self.failover_orchestrator.initiate_failover(failed_node_id);
        let _ = self.cluster_state.update_topology_after_failure(failed_node_id);
        let _ = self.load_balancer.redistribute_load();
        let _ = self.replication_coordinator.ensure_consistency();
        Ok(())
    }

    /// Performs maintenance.  A schema change needs nothing more; a capacity
    /// expansion provisions three nodes, replicates to them and balances
    /// load onto them; a rolling upgrade returns the nodes to upgrade, in
    /// order.
    pub fn perform_maintenance(&mut self, maintenance_type: MaintenanceType) -> (r: Result<MaintenanceOutcome, HaError>)
        ensures
            final(self).topology() == old(self).topology(),
            final(self).failovers() == old(self).failovers(),
            final(self).backups() == old(self).backups(),
            maintenance_type == MaintenanceType::SchemaChange ==> (r matches Ok(MaintenanceOutcome::Done))
                && final(self).replication() == old(self).replication(),
            maintenance_type == MaintenanceType::RollingUpgrade ==> (r matches Ok(MaintenanceOutcome::UpgradeNodes(v))
                && v@.len() == old(self).topology().nodes@.len() && forall|k: Seq<char>|
                old(self).topology().nodes@.contains_key(k) <==> contains_text(v@, k))
                && final(self).replication() == old(self).replication(),
            maintenance_type == MaintenanceType::CapacityExpansion ==> (r matches Ok(MaintenanceOutcome::Done))
                && final(self).replication().dom() == old(self).replication().dom() + Set::new(
                |k: Seq<char>| provisioned_ids(EXPANSION_NODES as nat).contains(k),
            ),
    {
        match maintenance_type {
            MaintenanceType::RollingUpgrade => {
                match self.cluster_state.get_active_nodes() {
                    Ok(nodes) => Ok(MaintenanceOutcome::UpgradeNodes(nodes)),
                    Err(e) => Err(e),
                }
            },
            MaintenanceType::SchemaChange => Ok(MaintenanceOutcome::Done),
            MaintenanceType::CapacityExpansion => {
                let new_nodes = match self.cluster_state.provision_new_nodes(EXPANSION_NODES) {
                    Ok(v) => v,
                    Err(e) => return Err(e),
                };
                let _ = self.replication_coordinator.expand_replication(new_nodes.as_slice());
                let _ = self.load_balancer.add_nodes(new_nodes.as_slice());
                proof {
                    assert(Set::new(|k: Seq<char>| contains_text(new_nodes@, k)) =~= Set::new(
                        |k: Seq<char>| provisioned_ids(EXPANSION_NODES as nat).contains(k),
                    )) by {
                        assert forall|k: Seq<char>| contains_text(new_nodes@, k) <==> provisioned_ids(
                            EXPANSION_NODES as nat,
                        ).contains(k) by {
                            if contains_text(new_nodes@, k) {
                                let j = choose|j: int| 0 <= j < new_nodes@.len() && #[trigger] new_nodes@[j]@ == k;
                                assert(views(new_nodes@)[j] == k);
                            }
                            if provisioned_ids(EXPANSION_NODES as nat).contains(k) {
                                let j = choose|j: int|
                                    0 <= j < provisioned_ids(EXPANSION_NODES as nat).len() && provisioned_ids(
                                        EXPANSION_NODES as nat,
                                    )[j] == k;
                                assert(views(new_nodes@)[j] == k);
                                assert(new_nodes@[j]@ == k);
                            }
                        }
                    }
                }
                Ok(MaintenanceOutcome::Done)
            },
        }
    }

    /// The state of the whole cluster.
    pub fn get_cluster_status(&self) -> (r: Result<ClusterStatus, HaError>)
        requires
            lag_sum(self.replication_states()) * 1000 <= u64::MAX,
            backup_size_sum(self.backups()) <= u64::MAX,
        ensures
            r matches Ok(st) && same_topology(st.topology, self.topology()) && st.backup_status.total_backups
                == self.backups().len() && st.replication_status.total_nodes == self.replication_states().len(),
    {
        let topology = match self.cluster_state.get_current_topology() {
            Ok(t) => t,
            Err(e) => return Err(e),
        };
        let health = match self.health_monitor.get_cluster_health() {
            Ok(h) => h,
            Err(e) => return Err(e),
        };
        let replication_status = match self.replication_coordinator.get_status() {
            Ok(s) => s,
            Err(e) => return Err(e),
        };
        let backup_status = match self.backup_recovery.get_status() {
            Ok(b) => b,
            Err(e) => return Err(e),
        };
        Ok(ClusterStatus { topology, health, replication_status, backup_status, last_updated: utc_now_seconds() })
    }

    /// Makes a backup of the given kind and returns its id.
    pub fn initiate_backup(&mut self, backup_type: BackupType) -> (r: Result<String, HaError>)
        ensures
            final(self).backups().len() == old(self).backups().len() + 1,
            r matches Ok(id) && final(self).backups().last().id@ == id@ && final(self).backups().last().backup_type
                == backup_type,
            final(self).topology() == old(self).topology(),
    {
        self.backup_recovery.initiate_backup(backup_type)
    }

    /// Restores a backup, up to a point in time when one is given.
    pub fn restore_from_backup(&self, backup_id: &str, target_time: Option<i64>) -> (r: Result<(), HaError>)
        ensures
            r is Ok,
    {
        self.backup_recovery.restore_backup(backup_id, target_time)
    }
}
} // verus!
