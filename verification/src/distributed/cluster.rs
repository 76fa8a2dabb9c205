//! Cluster membership: the nodes of the cluster, their states and roles,
//! and the membership events that changes to them produce.

use vstd::prelude::*;
use crate::text::{StringMap, owned, str_equal, text_map, contains_text, distinct_strings, copy_strings};

verus! {

broadcast use vstd::string::group_string_axioms;

/// The life-cycle state of a cluster node.
#[derive(Debug, Clone, Copy, PartialEq, Eq, Structural)]
pub enum NodeState {
    Starting,
    Running,
    Unhealthy,
    Leaving,
    Left,
}

/// The roles a node can play in the cluster.
#[derive(Debug, Clone, Copy, PartialEq, Eq, Hash, Structural)]
pub enum NodeRole {
    Leader,
    Follower,
    Witness,
    LoadBalancer,
    Coordinator,
}

/// The name of a role, as `{:?}` prints it.
pub open spec fn role_name(r: NodeRole) -> Seq<char> {
    match r {
        NodeRole::Leader => "Leader"@,
        NodeRole::Follower => "Follower"@,
        NodeRole::Witness => "Witness"@,
        NodeRole::LoadBalancer => "LoadBalancer"@,
        NodeRole::Coordinator => "Coordinator"@,
    }
}

impl NodeRole {
    /// The name of the role, as `{:?}` prints it.
    pub fn name(&self) -> (r: &'static str)
        ensures
            r@ == role_name(*self),
    {
        match self {
            NodeRole::Leader => "Leader",
            NodeRole::Follower => "Follower",
            NodeRole::Witness => "Witness",
            NodeRole::LoadBalancer => "LoadBalancer",
            NodeRole::Coordinator => "Coordinator",
        }
    }
}

/// Information about one cluster node.
#[derive(Debug)]
pub struct ClusterNode {
    pub node_id: String,
    pub address: String,
    pub port: u16,
    pub state: NodeState,
    /// The node's roles, each at most once.
    pub roles: Vec<NodeRole>,
    pub region: String,
    pub zone: String,
    pub last_heartbeat: u64,
    pub metadata: StringMap<String>,
}

/// What a cluster node holds, as plain values.
pub struct ClusterNodeView {
    pub node_id: Seq<char>,
    pub address: Seq<char>,
    pub port: u16,
    pub state: NodeState,
    pub roles: Seq<NodeRole>,
    pub region: Seq<char>,
    pub zone: Seq<char>,
    pub last_heartbeat: u64,
    pub metadata: Map<Seq<char>, Seq<char>>,
}

impl View for ClusterNode {
    type V = ClusterNodeView;

    open spec fn view(&self) -> ClusterNodeView {
        ClusterNodeView {
            node_id: self.node_id@,
            address: self.address@,
            port: self.port,
            state: self.state,
            roles: self.roles@,
            region: self.region@,
            zone: self.zone@,
            last_heartbeat: self.last_heartbeat,
            metadata: text_map(self.metadata@),
        }
    }
}

/// A copy of a list of roles.
fn copy_roles(v: &Vec<NodeRole>) -> (r: Vec<NodeRole>)
    ensures
        r@ == v@,
{
    let mut out: Vec<NodeRole> = Vec::new();
    let mut i: usize = 0;
    while i < v.len()
        invariant
            i <= v.len(),
            out@ == v@.subrange(0, i as int),
        decreases v.len() - i,
    {
        out.push(v[i]);
        i = i + 1;
        assert(out@ =~= v@.subrange(0, i as int));
    }
    assert(out@ =~= v@);
    out
}

/// The roles of `roles` other than `role`, in order.
fn without_role(roles: &Vec<NodeRole>, role: NodeRole) -> (r: Vec<NodeRole>)
    ensures
        r@ == roles@.filter(|x: NodeRole| x != role),
{
    let mut out: Vec<NodeRole> = Vec::new();
    let mut i: usize = 0;
    while i < roles.len()
        invariant
            i <= roles.len(),
            out@ == roles@.subrange(0, i as int).filter(|x: NodeRole| x != role),
        decreases roles.len() - i,
    {
        proof {
            let post = roles@.subrange(0, i + 1);
            assert(post.drop_last() =~= roles@.subrange(0, i as int));
            reveal(Seq::filter);
        }
        if roles[i] != role {
            out.push(roles[i]);
        }
        i = i + 1;
    }
    assert(roles@.subrange(0, roles.len() as int) =~= roles@);
    out
}

/// Whether a list of roles holds `role`.
fn has_role(roles: &Vec<NodeRole>, role: NodeRole) -> (r: bool)
    ensures
        r == roles@.contains(role),
{
    let mut i: usize = 0;
    while i < roles.len()
        invariant
            i <= roles.len(),
            forall|j: int| 0 <= j < i ==> roles@[j] != role,
        decreases roles.len() - i,
    {
        if roles[i] == role {
            return true;
        }
        i = i + 1;
    }
    false
}

impl ClusterNode {
    /// A copy of the node.
    pub fn duplicate(&self) -> (r: Self)
        ensures
            r@ == self@,
    {
        ClusterNode {
            node_id: self.node_id.clone(),
            address: self.address.clone(),
            port: self.port,
            state: self.state,
            roles: copy_roles(&self.roles),
            region: self.region.clone(),
            zone: self.zone.clone(),
            last_heartbeat: self.last_heartbeat,
            metadata: self.metadata.duplicate(),
        }
    }
}

/// Cluster configuration.
#[derive(Debug)]
pub struct ClusterConfig {
    pub cluster_name: String,
    pub node_id: String,
    pub bind_address: String,
    pub bind_port: u16,
    /// Initial nodes to join.
    pub seed_nodes: Vec<String>,
    pub heartbeat_interval_ms: u64,
    pub failure_detection_timeout_ms: u64,
    pub max_nodes: usize,
    pub enable_auto_join: bool,
    pub enable_auto_leave: bool,
}

/// Changes to the membership of the cluster.
#[derive(Debug)]
pub enum MembershipEvent {
    NodeJoined(ClusterNode),
    NodeLeft(String),
    NodeFailed(String),
    NodeRecovered(String),
    LeadershipChanged { old_leader: Option<String>, new_leader: String },
}

/// A node that the named node could not be found for.
#[derive(Debug, PartialEq, Eq)]
pub enum ClusterError {
    NodeNotFound { node_id: String },
}

impl ClusterError {
    /// The error's message: "Node <id> not found".
    pub fn message(&self) -> (r: String)
        ensures
            self matches ClusterError::NodeNotFound { node_id } && r@ == "Node "@ + node_id@ + " not found"@,
    {
        match self {
            ClusterError::NodeNotFound { node_id } => {
                let mut s = owned("Node ");
                crate::text::push_text(&mut s, node_id.as_str());
                crate::text::push_text(&mut s, " not found");
                s
            },
        }
    }
}

/// A summary of the cluster.
#[derive(Debug)]
pub struct ClusterStatus {
    pub cluster_name: String,
    pub total_nodes: usize,
    pub healthy_nodes: usize,
    pub unhealthy_nodes: usize,
    /// The regions of the nodes, each once, in first-seen order.
    pub regions: Vec<String>,
    /// For each role some node plays, the number of nodes playing it.
    pub roles_distribution: StringMap<usize>,
    pub leader_node: Option<String>,
}

/// The nodes among `nodes` in state `st`.
pub open spec fn count_in_state(nodes: Seq<ClusterNode>, st: NodeState) -> nat
    decreases nodes.len(),
{
    if nodes.len() == 0 {
        0
    } else {
        count_in_state(nodes.drop_last(), st) + if nodes.last().state == st { 1nat } else { 0nat }
    }
}

/// The nodes among `nodes` that play `role`.
pub open spec fn count_with_role(nodes: Seq<ClusterNode>, role: NodeRole) -> nat
    decreases nodes.len(),
{
    if nodes.len() == 0 {
        0
    } else {
        count_with_role(nodes.drop_last(), role) + if nodes.last().roles@.contains(role) { 1nat } else { 0nat }
    }
}

/// The views of the nodes of `nodes` that play `role` (when given) and are
/// in `region` (when given), in order.
pub open spec fn selected(nodes: Seq<ClusterNode>, role: Option<NodeRole>, region: Option<Seq<char>>) -> Seq<ClusterNodeView>
    decreases nodes.len(),
{
    if nodes.len() == 0 {
        Seq::empty()
    } else {
        let rest = selected(nodes.drop_last(), role, region);
        let n = nodes.last();
        let keep = (match role { Some(x) => n.roles@.contains(x), None => true }) && (match region {
            Some(g) => n.region@ == g,
            None => true,
        });
        if keep { rest.push(n@) } else { rest }
    }
}

/// Selecting with no condition keeps every node.
pub proof fn lemma_selected_all(nodes: Seq<ClusterNode>)
    ensures
        selected(nodes, None, None) == node_views(nodes),
    decreases nodes.len(),
{
    if nodes.len() > 0 {
        lemma_selected_all(nodes.drop_last());
        assert(node_views(nodes) =~= node_views(nodes.drop_last()).push(nodes.last()@));
    } else {
        assert(node_views(nodes) =~= Seq::<ClusterNodeView>::empty());
    }
}

/// The nodes of a membership list, in order.
pub open spec fn member_nodes(entries: Seq<(String, ClusterNode)>) -> Seq<ClusterNode> {
    entries.map_values(|e: (String, ClusterNode)| e.1)
}

/// The plain views of a list of nodes.
pub open spec fn node_views(nodes: Seq<ClusterNode>) -> Seq<ClusterNodeView> {
    nodes.map_values(|n: ClusterNode| n@)
}

/// A node as it first appears: the region "us-east-1", zone "us-east-1a",
/// no roles and no metadata.
fn fresh_node(node_id: &str, address: &str, port: u16, state: NodeState, zone: &str, now: u64) -> (r: ClusterNode)
    ensures
        r@.node_id == node_id@,
        r@.address == address@,
        r@.port == port,
        r@.state == state,
        r@.roles.len() == 0,
        r@.region == "us-east-1"@,
        r@.zone == zone@,
        r@.last_heartbeat == now,
        r@.metadata == Map::<Seq<char>, Seq<char>>::empty(),
{
    let r = ClusterNode {
        node_id: owned(node_id),
        address: owned(address),
        port,
        state,
        roles: Vec::new(),
        region: owned("us-east-1"),
        zone: owned(zone),
        last_heartbeat: now,
        metadata: StringMap::new(),
    };
    assert(text_map(r.metadata@) =~= Map::<Seq<char>, Seq<char>>::empty());
    r
}

/// The membership of the cluster as this node sees it.
pub struct ClusterManager {
    config: ClusterConfig,
    local_node: ClusterNode,
    nodes: StringMap<ClusterNode>,
}

impl ClusterManager {
    /// The nodes, by id.
    pub closed spec fn members(&self) -> Map<Seq<char>, ClusterNodeView> {
        self.nodes@.map_values(|n: ClusterNode| n@)
    }

    /// The nodes, in the order they were first recorded.
    pub closed spec fn member_list(&self) -> Seq<ClusterNode> {
        member_nodes(self.nodes.entry_seq())
    }

    /// This node as it describes itself.
    pub closed spec fn local(&self) -> ClusterNodeView {
        self.local_node@
    }

    /// The configuration this manager was made with.
    pub closed spec fn config_of(&self) -> &ClusterConfig {
        &self.config
    }

    /// Each recorded node is filed under its own id.
    pub closed spec fn wf(&self) -> bool {
        forall|i: int| 0 <= i < self.nodes.entry_seq().len() ==> #[trigger] self.nodes.entry_seq()[i].0@
            == self.nodes.entry_seq()[i].1.node_id@
    }

    /// A manager with no recorded nodes, whose own node is in state
    /// `Starting` at the configured address, in region "us-east-1", zone
    /// "us-east-1a", with heartbeat `now`.
    pub fn new(config: ClusterConfig, now: u64) -> (r: Self)
        ensures
            r.wf(),
            r.members() == Map::<Seq<char>, ClusterNodeView>::empty(),
            r.local().node_id == config.node_id@,
            r.local().address == config.bind_address@,
            r.local().port == config.bind_port,
            r.local().state == NodeState::Starting,
            r.local().roles.len() == 0,
            r.local().region == "us-east-1"@,
            r.local().zone == "us-east-1a"@,
            r.local().last_heartbeat == now,
            r.config_of() == &config,
    {
        let local_node = fresh_node(
            config.node_id.as_str(),
            config.bind_address.as_str(),
            config.bind_port,
            NodeState::Starting,
            "us-east-1a",
            now,
        );
        let nodes = StringMap::new();
        let r = ClusterManager { config, local_node, nodes };
        proof {
            r.nodes.lemma_view();
            assert(r.members() =~= Map::<Seq<char>, ClusterNodeView>::empty());
        }
        r
    }

    /// Records `node` under its id (replacing a node with the same id).
    fn record(&mut self, node: ClusterNode)
        requires
            old(self).wf(),
        ensures
            final(self).wf(),
            final(self).members() == old(self).members().insert(node.node_id@, node@),
            final(self).local() == old(self).local(),
            final(self).config_of() == old(self).config_of(),
    {
        let ghost id = node.node_id@;
        let ghost nv = node@;
        let key = node.node_id.clone();
        let ghost before = self.nodes.entry_seq();
        let ghost gkey = key;
        let ghost gnode = node;
        self.nodes.insert(key, node);
        proof {
            self.nodes.lemma_view();
            let after = self.nodes.entry_seq();
            assert forall|i: int| 0 <= i < after.len() implies #[trigger] after[i].0@ == after[i].1.node_id@ by {
                if old(self).nodes@.contains_key(id) {
                    let p = choose|p: int|
                        0 <= p < before.len() && #[trigger] before[p].0@ == id && after == before.update(p, (gkey, gnode));
                    if i != p {
                        assert(after[i] == before[i]);
                    }
                } else {
                    if i < before.len() {
                        assert(after[i] == before[i]);
                    }
                }
            }
            assert(self.members() =~= old(self).members().insert(id, nv));
        }
    }

    /// Brings the node up: records it, joins the cluster through each seed
    /// node when auto-join is on, then records it again as `Running`.
    /// Returns the membership events of the joins, in order.
    pub fn initialize(&mut self, now: u64) -> (r: Vec<MembershipEvent>)
        requires
            old(self).wf(),
        ensures
            final(self).wf(),
            final(self).local() == (ClusterNodeView { state: NodeState::Running, ..old(self).local() }),
            final(self).members()[old(self).local().node_id] == final(self).local(),
            final(self).members().contains_key(old(self).local().node_id),
            (old(self).config_of().enable_auto_join && old(self).config_of().seed_nodes@.len() > 0) ==> {
                &&& final(self).members().contains_key("node-001"@)
                &&& final(self).members().contains_key("node-002"@)
            },
            r@.len() == if old(self).config_of().enable_auto_join {
                2 * old(self).config_of().seed_nodes@.len()
            } else {
                0
            },
            final(self).config_of() == old(self).config_of(),
    {
        let n0 = self.local_node.duplicate();
        self.record(n0);
        let mut events: Vec<MembershipEvent> = Vec::new();
        if self.config.enable_auto_join {
            let mut i: usize = 0;
            let seeds = self.config.seed_nodes.len();
            while i < seeds
                invariant
                    self.wf(),
                    i <= seeds,
                    seeds == self.config.seed_nodes@.len(),
                    self.config_of() == old(self).config_of(),
                    self.local() == old(self).local(),
                    events@.len() == 2 * i,
                    i > 0 ==> self.members().contains_key("node-001"@) && self.members().contains_key(
                        "node-002"@,
                    ),
                decreases seeds - i,
            {
                let mut joined = self.join_cluster(now);
                events.append(&mut joined);
                i = i + 1;
            }
        }
        self.local_node.state = NodeState::Running;
        let n1 = self.local_node.duplicate();
        self.record(n1);
        events
    }

    /// Joins the cluster: records the two nodes that the cluster reports,
    /// "node-001" (10.0.0.11:5432, zone "us-east-1a") and "node-002"
    /// (10.0.0.12:5432, zone "us-east-1b"), both running followers in region
    /// "us-east-1" with heartbeat `now`.  Returns the two join events.
    pub fn join_cluster(&mut self, now: u64) -> (r: Vec<MembershipEvent>)
        requires
            old(self).wf(),
        ensures
            final(self).wf(),
            final(self).members()["node-001"@] == (ClusterNodeView {
                node_id: "node-001"@,
                address: "10.0.0.11"@,
                port: 5432,
                state: NodeState::Running,
                roles: seq![NodeRole::Follower],
                region: "us-east-1"@,
                zone: "us-east-1a"@,
                last_heartbeat: now,
                metadata: Map::empty(),
            }),
            final(self).members()["node-002"@] == (ClusterNodeView {
                node_id: "node-002"@,
                address: "10.0.0.12"@,
                port: 5432,
                state: NodeState::Running,
                roles: seq![NodeRole::Follower],
                region: "us-east-1"@,
                zone: "us-east-1b"@,
                last_heartbeat: now,
                metadata: Map::empty(),
            }),
            final(self).members() == old(self).members().insert("node-001"@, final(self).members()["node-001"@]).insert(
                "node-002"@,
                final(self).members()["node-002"@],
            ),
            final(self).local() == old(self).local(),
            final(self).config_of() == old(self).config_of(),
            r@.len() == 2,
            r@[0] matches MembershipEvent::NodeJoined(n) && n@ == final(self).members()["node-001"@],
            r@[1] matches MembershipEvent::NodeJoined(n) && n@ == final(self).members()["node-002"@],
    {
        let mut node1 = fresh_node("node-001", "10.0.0.11", 5432, NodeState::Running, "us-east-1a", now);
        node1.roles.push(NodeRole::Follower);
        let mut node2 = fresh_node("node-002", "10.0.0.12", 5432, NodeState::Running, "us-east-1b", now);
        node2.roles.push(NodeRole::Follower);
        proof {
            reveal_strlit("node-001");
            reveal_strlit("node-002");
            assert(node1.roles@ =~= seq![NodeRole::Follower]);
            assert(node2.roles@ =~= seq![NodeRole::Follower]);
        }
        let c1 = node1.duplicate();
        let c2 = node2.duplicate();
        self.record(c1);
        self.record(c2);
        proof {
            assert("node-001"@[7] != "node-002"@[7]);
            assert("node-001"@ != "node-002"@);
            assert(self.members()["node-001"@] == node1@);
            assert(self.members()["node-002"@] == node2@);
        }
        let mut events: Vec<MembershipEvent> = Vec::new();
        events.push(MembershipEvent::NodeJoined(node1));
        events.push(MembershipEvent::NodeJoined(node2));
        events
    }

    /// Marks this node as having left the cluster (when it is recorded) and
    /// returns the leave event.
    pub fn leave_cluster(&mut self) -> (r: MembershipEvent)
        requires
            old(self).wf(),
        ensures
            final(self).wf(),
            old(self).members().contains_key(old(self).config_of().node_id@) ==> final(self).members()
                == old(self).members().insert(
                old(self).config_of().node_id@,
                ClusterNodeView { state: NodeState::Left, ..old(self).members()[old(self).config_of().node_id@] },
            ),
            !old(self).members().contains_key(old(self).config_of().node_id@) ==> final(self).members()
                == old(self).members(),
            r matches MembershipEvent::NodeLeft(id) && id@ == old(self).config_of().node_id@,
            final(self).local() == old(self).local(),
            final(self).config_of() == old(self).config_of(),
    {
        let id = self.config.node_id.clone();
        self.set_state_if(id.as_str(), NodeState::Left, None);
        MembershipEvent::NodeLeft(id)
    }

    /// Sets the state of the node `node_id` to `st` when it is recorded and
    /// its state satisfies `guard` (`None`: any state; `Some((s, true))`:
    /// state `s`; `Some((s, false))`: any state but `s`).  Returns whether
    /// it changed.
    fn set_state_if(&mut self, node_id: &str, st: NodeState, guard: Option<(NodeState, bool)>) -> (r: bool)
        requires
            old(self).wf(),
        ensures
            final(self).wf(),
            r == (old(self).members().contains_key(node_id@) && match guard {
                None => true,
                Some((s, true)) => old(self).members()[node_id@].state == s,
                Some((s, false)) => old(self).members()[node_id@].state != s,
            }),
            r ==> final(self).members() == old(self).members().insert(
                node_id@,
                ClusterNodeView { state: st, ..old(self).members()[node_id@] },
            ),
            !r ==> final(self).members() == old(self).members(),
            final(self).local() == old(self).local(),
            final(self).config_of() == old(self).config_of(),
    {
        match self.nodes.position(node_id) {
            Some(i) => {
                let (_, cur) = self.nodes.entry_at(i);
                let ok = match guard {
                    None => true,
                    Some((s, true)) => cur.state == s,
                    Some((s, false)) => cur.state != s,
                };
                if !ok {
                    return false;
                }
                let mut n = cur.duplicate();
                n.state = st;
                self.replace_node_at(i, n);
                true
            },
            None => false,
        }
    }

    /// Replaces the node recorded at position `i` by `n`, which has the same
    /// id.
    fn replace_node_at(&mut self, i: usize, n: ClusterNode)
        requires
            old(self).wf(),
            i < old(self).nodes.entry_seq().len(),
            n.node_id@ == old(self).nodes.entry_seq()[i as int].0@,
        ensures
            final(self).wf(),
            final(self).members() == old(self).members().insert(n.node_id@, n@),
            final(self).member_list() == old(self).member_list().update(i as int, n),
            final(self).local() == old(self).local(),
            final(self).config_of() == old(self).config_of(),
    {
        let ghost nv = n@;
        let ghost id = n.node_id@;
        let ghost gn = n;
        let ghost before = self.nodes.entry_seq();
        let _ = self.nodes.swap_value(i, n);
        proof {
            let after = self.nodes.entry_seq();
            assert forall|j: int| 0 <= j < after.len() implies #[trigger] after[j].0@ == after[j].1.node_id@ by {
                if j != i {
                    assert(after[j] == before[j]);
                }
            }
            assert(self.members() =~= old(self).members().insert(id, nv));
            assert(self.member_list() =~= old(self).member_list().update(i as int, gn));
        }
    }

    /// Marks `node_id` as unhealthy unless it has left; returns the failure
    /// event when its state changed.
    pub fn mark_node_failed(&mut self, node_id: &str) -> (r: Option<MembershipEvent>)
        requires
            old(self).wf(),
        ensures
            final(self).wf(),
            ({
                let changed = old(self).members().contains_key(node_id@) && old(self).members()[node_id@].state
                    != NodeState::Left;
                &&& changed ==> final(self).members() == old(self).members().insert(
                    node_id@,
                    ClusterNodeView { state: NodeState::Unhealthy, ..old(self).members()[node_id@] },
                )
                &&& changed ==> (r matches Some(MembershipEvent::NodeFailed(id)) && id@ == node_id@)
                &&& !changed ==> final(self).members() == old(self).members() && r is None
            }),
            final(self).local() == old(self).local(),
            final(self).config_of() == old(self).config_of(),
    {
        if self.set_state_if(node_id, NodeState::Unhealthy, Some((NodeState::Left, false))) {
            Some(MembershipEvent::NodeFailed(owned(node_id)))
        } else {
            None
        }
    }

    /// Marks an unhealthy `node_id` as running again; returns the recovery
    /// event when its state changed.
    pub fn mark_node_recovered(&mut self, node_id: &str) -> (r: Option<MembershipEvent>)
        requires
            old(self).wf(),
        ensures
            final(self).wf(),
            ({
                let changed = old(self).members().contains_key(node_id@) && old(self).members()[node_id@].state
                    == NodeState::Unhealthy;
                &&& changed ==> final(self).members() == old(self).members().insert(
                    node_id@,
                    ClusterNodeView { state: NodeState::Running, ..old(self).members()[node_id@] },
                )
                &&& changed ==> (r matches Some(MembershipEvent::NodeRecovered(id)) && id@ == node_id@)
                &&& !changed ==> final(self).members() == old(self).members() && r is None
            }),
            final(self).local() == old(self).local(),
            final(self).config_of() == old(self).config_of(),
    {
        if self.set_state_if(node_id, NodeState::Running, Some((NodeState::Unhealthy, true))) {
            Some(MembershipEvent::NodeRecovered(owned(node_id)))
        } else {
            None
        }
    }

    /// Refreshes the heartbeat of `node_id` to `now` when it is recorded.
    pub fn update_heartbeat(&mut self, node_id: &str, now: u64)
        requires
            old(self).wf(),
        ensures
            final(self).wf(),
            old(self).members().contains_key(node_id@) ==> final(self).members() == old(self).members().insert(
                node_id@,
                ClusterNodeView { last_heartbeat: now, ..old(self).members()[node_id@] },
            ),
            !old(self).members().contains_key(node_id@) ==> final(self).members() == old(self).members(),
            final(self).local() == old(self).local(),
            final(self).config_of() == old(self).config_of(),
    {
        match self.nodes.position(node_id) {
            Some(i) => {
                let (_, cur) = self.nodes.entry_at(i);
                let mut n = cur.duplicate();
                n.last_heartbeat = now;
                self.replace_node_at(i, n);
            },
            None => {},
        }
    }

    /// Gives `node_id` the role `role` (a role is held at most once).
    pub fn assign_role(&mut self, node_id: &str, role: NodeRole) -> (r: Result<(), ClusterError>)
        requires
            old(self).wf(),
        ensures
            final(self).wf(),
            match r {
                Ok(()) => {
                    &&& old(self).members().contains_key(node_id@)
                    &&& final(self).members() == old(self).members().insert(
                        node_id@,
                        ClusterNodeView {
                            roles: if old(self).members()[node_id@].roles.contains(role) {
                                old(self).members()[node_id@].roles
                            } else {
                                old(self).members()[node_id@].roles.push(role)
                            },
                            ..old(self).members()[node_id@]
                        },
                    )
                },
                Err(e) => {
                    &&& !old(self).members().contains_key(node_id@)
                    &&& final(self).members() == old(self).members()
                    &&& e matches ClusterError::NodeNotFound { node_id: id } && id@ == node_id@
                },
            },
            final(self).local() == old(self).local(),
            final(self).config_of() == old(self).config_of(),
    {
        match self.nodes.position(node_id) {
            Some(i) => {
                let (_, cur) = self.nodes.entry_at(i);
                let mut n = cur.duplicate();
                if !has_role(&n.roles, role) {
                    n.roles.push(role);
                }
                self.replace_node_at(i, n);
                Ok(())
            },
            None => Err(ClusterError::NodeNotFound { node_id: owned(node_id) }),
        }
    }

    /// Takes the role `role` away from `node_id`.
    pub fn remove_role(&mut self, node_id: &str, role: NodeRole) -> (r: Result<(), ClusterError>)
        requires
            old(self).wf(),
        ensures
            final(self).wf(),
            match r {
                Ok(()) => {
                    &&& old(self).members().contains_key(node_id@)
                    &&& final(self).members() == old(self).members().insert(
                        node_id@,
                        ClusterNodeView {
                            roles: old(self).members()[node_id@].roles.filter(|x: NodeRole| x != role),
                            ..old(self).members()[node_id@]
                        },
                    )
                },
                Err(e) => {
                    &&& !old(self).members().contains_key(node_id@)
                    &&& final(self).members() == old(self).members()
                    &&& e matches ClusterError::NodeNotFound { node_id: id } && id@ == node_id@
                },
            },
            final(self).local() == old(self).local(),
            final(self).config_of() == old(self).config_of(),
    {
        match self.nodes.position(node_id) {
            Some(i) => {
                let (_, cur) = self.nodes.entry_at(i);
                let mut n = cur.duplicate();
                n.roles = without_role(&cur.roles, role);
                self.replace_node_at(i, n);
                Ok(())
            },
            None => Err(ClusterError::NodeNotFound { node_id: owned(node_id) }),
        }
    }

    /// The node recorded as `node_id`, if any.
    pub fn get_node(&self, node_id: &str) -> (r: Option<ClusterNode>)
        requires
            self.wf(),
        ensures
            match r {
                Some(n) => self.members().contains_key(node_id@) && n@ == self.members()[node_id@],
                None => !self.members().contains_key(node_id@),
            },
    {
        match self.nodes.get(node_id) {
            Some(n) => Some(n.duplicate()),
            None => None,
        }
    }

    /// All recorded nodes, in the order they were first recorded.
    pub fn get_all_nodes(&self) -> (r: Vec<ClusterNode>)
        requires
            self.wf(),
        ensures
            node_views(r@) == node_views(self.member_list()),
    {
        let r = self.select_nodes(None, None);
        proof {
            lemma_selected_all(self.member_list());
        }
        r
    }

    /// The nodes that play `role`, in the order they were first recorded.
    pub fn get_nodes_by_role(&self, role: NodeRole) -> (r: Vec<ClusterNode>)
        requires
            self.wf(),
        ensures
            node_views(r@) == selected(self.member_list(), Some(role), None),
    {
        self.select_nodes(Some(role), None)
    }

    /// The nodes in region `region`, in the order they were first recorded.
    pub fn get_nodes_by_region(&self, region: &str) -> (r: Vec<ClusterNode>)
        requires
            self.wf(),
        ensures
            node_views(r@) == selected(self.member_list(), None, Some(region@)),
    {
        self.select_nodes(None, Some(region))
    }

    /// The nodes that play `role` (when given) and are in `region` (when
    /// given), in the order they were first recorded.
    fn select_nodes(&self, role: Option<NodeRole>, region: Option<&str>) -> (r: Vec<ClusterNode>)
        requires
            self.wf(),
        ensures
            node_views(r@) == selected(self.member_list(), role, match region { Some(g) => Some(g@), None => None }),
    {
        let ghost reg = match region { Some(g) => Some(g@), None => None::<Seq<char>> };
        let n = self.nodes.len();
        let mut out: Vec<ClusterNode> = Vec::new();
        let mut i: usize = 0;
        while i < n
            invariant
                i <= n,
                n == self.member_list().len(),
                reg == match region { Some(g) => Some(g@), None => None::<Seq<char>> },
                node_views(out@) == selected(self.member_list().subrange(0, i as int), role, reg),
            decreases n - i,
        {
            let (_, node) = self.nodes.entry_at(i);
            let keep_role = match role {
                Some(x) => has_role(&node.roles, x),
                None => true,
            };
            let keep_region = match region {
                Some(g) => str_equal(node.region.as_str(), g),
                None => true,
            };
            let ghost before = out@;
            if keep_role && keep_region {
                out.push(node.duplicate());
            }
            proof {
                let pre = self.member_list().subrange(0, i as int);
                let post = self.member_list().subrange(0, i + 1);
                assert(post.drop_last() =~= pre);
                assert(post.last() == *node);
                if keep_role && keep_region {
                    assert(node_views(out@) =~= node_views(before).push(node@));
                } else {
                    assert(node_views(out@) =~= node_views(before));
                }
            }
            i = i + 1;
        }
        assert(self.member_list().subrange(0, n as int) =~= self.member_list());
        out
    }

    /// The first recorded node that plays the leader role, if any.
    pub fn get_current_leader(&self) -> (r: Option<String>)
        requires
            self.wf(),
        ensures
            match r {
                Some(id) => exists|i: int|
                    0 <= i < self.member_list().len() && (#[trigger] self.member_list()[i]).roles@.contains(
                        NodeRole::Leader,
                    ) && self.member_list()[i].node_id == id && forall|j: int|
                        0 <= j < i ==> !(#[trigger] self.member_list()[j]).roles@.contains(NodeRole::Leader),
                None => forall|j: int|
                    0 <= j < self.member_list().len() ==> !(#[trigger] self.member_list()[j]).roles@.contains(
                        NodeRole::Leader,
                    ),
            },
    {
        let n = self.nodes.len();
        let mut i: usize = 0;
        while i < n
            invariant
                i <= n,
                n == self.member_list().len(),
                forall|j: int| 0 <= j < i ==> !(#[trigger] self.member_list()[j]).roles@.contains(NodeRole::Leader),
            decreases n - i,
        {
            let (_, node) = self.nodes.entry_at(i);
            if has_role(&node.roles, NodeRole::Leader) {
                assert(self.member_list()[i as int] == *node);
                return Some(node.node_id.clone());
            }
            assert(self.member_list()[i as int] == *node);
            i = i + 1;
        }
        None
    }

    /// Whether `node_id` is recorded, running, and has sent a heartbeat less
    /// than the failure-detection timeout (in whole seconds) before `now`.
    pub fn is_node_healthy(&self, node_id: &str, now: u64) -> (r: bool)
        requires
            self.wf(),
            self.members().contains_key(node_id@) ==> self.members()[node_id@].last_heartbeat <= now,
        ensures
            r == (self.members().contains_key(node_id@) && self.members()[node_id@].state == NodeState::Running
                && now - self.members()[node_id@].last_heartbeat < self.config_of().failure_detection_timeout_ms
                / 1000),
    {
        match self.nodes.get(node_id) {
            Some(node) => {
                let since = now - node.last_heartbeat;
                node.state == NodeState::Running && since < self.config.failure_detection_timeout_ms / 1000
            },
            None => false,
        }
    }

    /// A summary of the cluster: counts of all, running and unhealthy nodes,
    /// the regions, how many nodes play each role, and the leader.
    pub fn get_cluster_status(&self) -> (r: ClusterStatus)
        requires
            self.wf(),
        ensures
            r.cluster_name == self.config_of().cluster_name,
            r.total_nodes == self.member_list().len(),
            r.healthy_nodes == count_in_state(self.member_list(), NodeState::Running),
            r.unhealthy_nodes == count_in_state(self.member_list(), NodeState::Unhealthy),
            distinct_strings(r.regions@),
            forall|g: Seq<char>| #[trigger] contains_text(r.regions@, g) <==> exists|i: int|
                0 <= i < self.member_list().len() && (#[trigger] self.member_list()[i]).region@ == g,
            forall|role: NodeRole| #[trigger] r.roles_distribution@.contains_key(role_name(role))
                <==> count_with_role(self.member_list(), role) > 0,
            forall|role: NodeRole| count_with_role(self.member_list(), role) > 0 ==> #[trigger] r.roles_distribution@[role_name(role)]
                == count_with_role(self.member_list(), role),
            forall|k: Seq<char>| #[trigger] r.roles_distribution@.contains_key(k) ==> exists|role: NodeRole| k == role_name(role),
            r.leader_node is Some <==> exists|i: int|
                0 <= i < self.member_list().len() && (#[trigger] self.member_list()[i]).roles@.contains(NodeRole::Leader),
    {
        let list_len = self.nodes.len();
        let healthy = self.count_state(NodeState::Running);
        let unhealthy = self.count_state(NodeState::Unhealthy);
        let regions = self.regions();
        let mut dist: StringMap<usize> = StringMap::new();
        let roles = [NodeRole::Leader, NodeRole::Follower, NodeRole::Witness, NodeRole::LoadBalancer, NodeRole::Coordinator];
        proof {
            reveal_strlit("Leader");
            reveal_strlit("Follower");
            reveal_strlit("Witness");
            reveal_strlit("LoadBalancer");
            reveal_strlit("Coordinator");
            assert(forall|a: NodeRole, b: NodeRole| role_name(a) == role_name(b) ==> a == b) by {
                assert("Leader"@[0] != "Follower"@[0]);
                assert("Leader"@[0] != "Witness"@[0]);
                assert("Leader"@.len() != "LoadBalancer"@.len());
                assert("Leader"@[0] != "Coordinator"@[0]);
                assert("Follower"@[0] != "Witness"@[0]);
                assert("Follower"@[0] != "LoadBalancer"@[0]);
                assert("Follower"@[0] != "Coordinator"@[0]);
                assert("Witness"@[0] != "LoadBalancer"@[0]);
                assert("Witness"@[0] != "Coordinator"@[0]);
                assert("LoadBalancer"@[0] != "Coordinator"@[0]);
            }
        }
        let mut k: usize = 0;
        while k < 5
            invariant
                k <= 5,
                self.wf(),
                roles@ == seq![NodeRole::Leader, NodeRole::Follower, NodeRole::Witness, NodeRole::LoadBalancer, NodeRole::Coordinator],
                forall|a: NodeRole, b: NodeRole| role_name(a) == role_name(b) ==> a == b,
                forall|j: int| 0 <= j < k ==> (#[trigger] dist@.contains_key(role_name(roles@[j])) <==> count_with_role(self.member_list(), roles@[j]) > 0),
                forall|j: int| 0 <= j < k && count_with_role(self.member_list(), roles@[j]) > 0 ==> #[trigger] dist@[role_name(roles@[j])]
                    == count_with_role(self.member_list(), roles@[j]),
                forall|key: Seq<char>| #[trigger] dist@.contains_key(key) ==> exists|j: int| 0 <= j < k && key == role_name(roles@[j]),
            decreases 5 - k,
        {
            let role = roles[k];
            let c = self.count_role(role);
            if c > 0 {
                dist.insert(owned(role.name()), c);
            }
            proof {
                assert forall|key: Seq<char>| #[trigger] dist@.contains_key(key) implies exists|j: int| 0 <= j < k + 1 && key == role_name(roles@[j]) by {
                    if key == role_name(role) {
                        assert(key == role_name(roles@[k as int]));
                    }
                }
            }
            k = k + 1;
        }
        proof {
            assert forall|role: NodeRole| #[trigger] dist@.contains_key(role_name(role))
                <==> count_with_role(self.member_list(), role) > 0 by {
                let j: int = match role {
                    NodeRole::Leader => 0,
                    NodeRole::Follower => 1,
                    NodeRole::Witness => 2,
                    NodeRole::LoadBalancer => 3,
                    NodeRole::Coordinator => 4,
                };
                assert(roles@[j] == role);
            }
            assert forall|role: NodeRole| count_with_role(self.member_list(), role) > 0 implies #[trigger] dist@[role_name(role)]
                == count_with_role(self.member_list(), role) by {
                let j: int = match role {
                    NodeRole::Leader => 0,
                    NodeRole::Follower => 1,
                    NodeRole::Witness => 2,
                    NodeRole::LoadBalancer => 3,
                    NodeRole::Coordinator => 4,
                };
                assert(roles@[j] == role);
            }
            assert forall|key: Seq<char>| #[trigger] dist@.contains_key(key) implies exists|role: NodeRole| key == role_name(role) by {
                let j = choose|j: int| 0 <= j < 5 && key == role_name(roles@[j]);
                assert(key == role_name(roles@[j]));
            }
        }
        let leader = self.get_current_leader();
        ClusterStatus {
            cluster_name: self.config.cluster_name.clone(),
            total_nodes: list_len,
            healthy_nodes: healthy,
            unhealthy_nodes: unhealthy,
            regions,
            roles_distribution: dist,
            leader_node: leader,
        }
    }

    /// The number of recorded nodes in state `st`.
    fn count_state(&self, st: NodeState) -> (r: usize)
        requires
            self.wf(),
        ensures
            r == count_in_state(self.member_list(), st),
    {
        let n = self.nodes.len();
        let mut c: usize = 0;
        let mut i: usize = 0;
        while i < n
            invariant
                i <= n,
                n == self.member_list().len(),
                c == count_in_state(self.member_list().subrange(0, i as int), st),
                c <= i,
            decreases n - i,
        {
            let (_, node) = self.nodes.entry_at(i);
            proof {
                let post = self.member_list().subrange(0, i + 1);
                assert(post.drop_last() =~= self.member_list().subrange(0, i as int));
            }
            if node.state == st {
                c = c + 1;
            }
            i = i + 1;
        }
        assert(self.member_list().subrange(0, n as int) =~= self.member_list());
        c
    }

    /// The number of recorded nodes that play `role`.
    fn count_role(&self, role: NodeRole) -> (r: usize)
        requires
            self.wf(),
        ensures
            r == count_with_role(self.member_list(), role),
    {
        let n = self.nodes.len();
        let mut c: usize = 0;
        let mut i: usize = 0;
        while i < n
            invariant
                i <= n,
                n == self.member_list().len(),
                c == count_with_role(self.member_list().subrange(0, i as int), role),
                c <= i,
            decreases n - i,
        {
            let (_, node) = self.nodes.entry_at(i);
            proof {
                let post = self.member_list().subrange(0, i + 1);
                assert(post.drop_last() =~= self.member_list().subrange(0, i as int));
            }
            if has_role(&node.roles, role) {
                c = c + 1;
            }
            i = i + 1;
        }
        assert(self.member_list().subrange(0, n as int) =~= self.member_list());
        c
    }

    /// The regions of the recorded nodes, each once, in first-seen order.
    fn regions(&self) -> (r: Vec<String>)
        requires
            self.wf(),
        ensures
            distinct_strings(r@),
            forall|g: Seq<char>| #[trigger] contains_text(r@, g) <==> exists|i: int|
                0 <= i < self.member_list().len() && (#[trigger] self.member_list()[i]).region@ == g,
    {
        let n = self.nodes.len();
        let mut all: Vec<String> = Vec::new();
        let mut i: usize = 0;
        while i < n
            invariant
                i <= n,
                n == self.member_list().len(),
                all@.len() == i,
                forall|j: int| 0 <= j < i ==> #[trigger] all@[j] == self.member_list()[j].region,
            decreases n - i,
        {
            let (_, node) = self.nodes.entry_at(i);
            all.push(node.region.clone());
            i = i + 1;
        }
        let r = crate::distributed::consensus::distinct_of(all);
        proof {
            assert forall|g: Seq<char>| #[trigger] contains_text(r@, g) <==> exists|i: int|
                0 <= i < self.member_list().len() && (#[trigger] self.member_list()[i]).region@ == g by {
                if contains_text(all@, g) {
                    let j = choose|j: int| 0 <= j < all@.len() && #[trigger] all@[j]@ == g;
                    assert(self.member_list()[j].region@ == g);
                }
                if exists|i: int| 0 <= i < self.member_list().len() && (#[trigger] self.member_list()[i]).region@ == g {
                    let i = choose|i: int| 0 <= i < self.member_list().len() && (#[trigger] self.member_list()[i]).region@ == g;
                    assert(all@[i]@ == g);
                }
            }
        }
        r
    }
}

} // verus!
