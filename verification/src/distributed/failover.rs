//! Failover: reacting to node and leader failures, quorum checks, recovery,
//! and the history of failover events.

use vstd::prelude::*;
use crate::text::{owned, push_text, push_decimal, decimal};
use crate::distributed::cluster::{ClusterManager, ClusterNodeView, NodeState, MembershipEvent, count_in_state};
use crate::distributed::consensus::ConsensusManager;

verus! {

broadcast use vstd::string::group_string_axioms;

/// Failure severity levels.
#[derive(Debug, Clone, Copy, PartialEq, Eq, PartialOrd, Ord, Structural)]
pub enum FailureSeverity {
    Low,
    Medium,
    High,
    Critical,
}

/// Events in the failover history.
#[derive(Debug, PartialEq, Eq)]
pub enum FailoverEvent {
    LeaderFailure { old_leader: String, failure_time: u64 },
    LeaderElection { new_leader: String, election_time: u64 },
    NodeFailure { node_id: String, failure_time: u64 },
    NodeRecovery { node_id: String, recovery_time: u64 },
    ServiceDegradation { service: String, severity: FailureSeverity },
}

/// Failover configuration.
#[derive(Debug, Clone, Copy)]
pub struct FailoverConfig {
    pub leader_election_timeout_ms: u64,
    pub failure_detection_timeout_ms: u64,
    pub recovery_timeout_ms: u64,
    pub max_retry_attempts: u32,
    pub enable_automatic_failover: bool,
    pub enable_predictive_failover: bool,
    pub minimum_quorum_size: usize,
}

/// Kinds of predicted failure.
#[derive(Debug, Clone, Copy, PartialEq, Eq, Structural)]
pub enum PredictedFailureType {
    NodeCrash,
    NetworkPartition,
    ResourceExhaustion,
    DiskFailure,
    MemoryLeak,
}

/// The state of failover.
#[derive(Debug)]
pub struct FailoverStatus {
    pub current_leader: Option<String>,
    pub quorum_healthy: bool,
    pub active_predictions: usize,
    pub recent_failures: usize,
    pub recent_recoveries: usize,
    pub leader_changes: usize,
    pub automatic_failover_enabled: bool,
    pub predictive_failover_enabled: bool,
}

/// Why failover gave up.
#[derive(Debug, PartialEq, Eq)]
pub enum FailoverError {
    /// The node did not come back after this many attempts.
    RecoveryFailed { attempts: u32 },
}

impl FailoverError {
    /// The error's message.
    pub fn message(&self) -> (r: String)
        ensures
            self matches FailoverError::RecoveryFailed { attempts } && r@ == "Node recovery failed after "@
                + decimal(attempts as nat) + " attempts"@,
    {
        match self {
            FailoverError::RecoveryFailed { attempts } => {
                let mut s = owned("Node recovery failed after ");
                push_decimal(&mut s, *attempts as u64);
                push_text(&mut s, " attempts");
                s
            },
        }
    }
}

/// What a failover event says, as plain values.
pub enum EventView {
    LeaderFailure { old_leader: Seq<char>, failure_time: u64 },
    LeaderElection { new_leader: Seq<char>, election_time: u64 },
    NodeFailure { node_id: Seq<char>, failure_time: u64 },
    NodeRecovery { node_id: Seq<char>, recovery_time: u64 },
    ServiceDegradation { service: Seq<char>, severity: FailureSeverity },
}

impl View for FailoverEvent {
    type V = EventView;

    open spec fn view(&self) -> EventView {
        match self {
            FailoverEvent::LeaderFailure { old_leader, failure_time } => EventView::LeaderFailure {
                old_leader: old_leader@,
                failure_time: *failure_time,
            },
            FailoverEvent::LeaderElection { new_leader, election_time } => EventView::LeaderElection {
                new_leader: new_leader@,
                election_time: *election_time,
            },
            FailoverEvent::NodeFailure { node_id, failure_time } => EventView::NodeFailure {
                node_id: node_id@,
                failure_time: *failure_time,
            },
            FailoverEvent::NodeRecovery { node_id, recovery_time } => EventView::NodeRecovery {
                node_id: node_id@,
                recovery_time: *recovery_time,
            },
            FailoverEvent::ServiceDegradation { service, severity } => EventView::ServiceDegradation {
                service: service@,
                severity: *severity,
            },
        }
    }
}

/// The plain views of a list of events.
pub open spec fn event_views(h: Seq<FailoverEvent>) -> Seq<EventView> {
    h.map_values(|e: FailoverEvent| e@)
}

/// The kinds of failover event, for counting.
pub enum EventKind {
    LeaderFailure,
    LeaderElection,
    NodeFailure,
    NodeRecovery,
    ServiceDegradation,
}

/// Whether an event is of a kind.
pub open spec fn is_kind(e: EventView, k: EventKind) -> bool {
    match k {
        EventKind::LeaderFailure => e is LeaderFailure,
        EventKind::LeaderElection => e is LeaderElection,
        EventKind::NodeFailure => e is NodeFailure,
        EventKind::NodeRecovery => e is NodeRecovery,
        EventKind::ServiceDegradation => e is ServiceDegradation,
    }
}

/// The number of events of a kind.
pub open spec fn count_kind(h: Seq<EventView>, k: EventKind) -> nat
    decreases h.len(),
{
    if h.len() == 0 {
        0
    } else {
        count_kind(h.drop_last(), k) + if is_kind(h.last(), k) { 1nat } else { 0nat }
    }
}

/// The most events the history keeps.
pub const HISTORY_LIMIT: usize = 1000;

/// The history after recording `e`: appended, then the oldest event dropped
/// when the history has grown past its limit.
pub open spec fn history_after(h: Seq<EventView>, e: EventView) -> Seq<EventView> {
    if h.len() + 1 > HISTORY_LIMIT {
        h.push(e).drop_first()
    } else {
        h.push(e)
    }
}

/// The history after recording the events one after the other.
pub open spec fn history_after_all(h: Seq<EventView>, es: Seq<EventView>) -> Seq<EventView>
    decreases es.len(),
{
    if es.len() == 0 {
        h
    } else {
        history_after(history_after_all(h, es.drop_last()), es.last())
    }
}

/// The events that a leader failure records: the failure, then the
/// election of the leader that consensus names afterwards, if any.
pub open spec fn leader_failure_events(old_leader: Seq<char>, now: u64, new_leader: Option<Seq<char>>) -> Seq<EventView> {
    let f = seq![EventView::LeaderFailure { old_leader, failure_time: now }];
    match new_leader {
        Some(n) => f.push(EventView::LeaderElection { new_leader: n, election_time: now }),
        None => f,
    }
}

/// The event that the loss of quorum records.
pub open spec fn degradation_event() -> EventView {
    EventView::ServiceDegradation { service: "database_cluster"@, severity: FailureSeverity::Critical }
}

/// Failover for one node: it holds the node's view of the cluster and of
/// consensus, and the history of failover events.
pub struct FailoverManager {
    config: FailoverConfig,
    cluster_manager: ClusterManager,
    consensus_manager: ConsensusManager,
    predicted_failures: usize,
    failover_history: Vec<FailoverEvent>,
}

impl FailoverManager {
    /// The failover history, oldest first.
    pub closed spec fn history(&self) -> Seq<EventView> {
        event_views(self.failover_history@)
    }

    /// The cluster membership.
    pub closed spec fn cluster(&self) -> ClusterManager {
        self.cluster_manager
    }

    /// The consensus state.
    pub closed spec fn consensus(&self) -> ConsensusManager {
        self.consensus_manager
    }

    /// The configuration.
    pub closed spec fn config_of(&self) -> FailoverConfig {
        self.config
    }

    /// The number of failure predictions on record.
    pub closed spec fn predictions(&self) -> nat {
        self.predicted_failures as nat
    }

    /// The parts are well formed and the history within its limit.
    pub closed spec fn wf(&self) -> bool {
        &&& self.cluster_manager.wf()
        &&& self.consensus_manager.wf()
        &&& self.failover_history@.len() <= HISTORY_LIMIT
    }

    /// A manager with an empty history and no predictions.
    pub fn new(config: FailoverConfig, cluster_manager: ClusterManager, consensus_manager: ConsensusManager) -> (r: Self)
        requires
            cluster_manager.wf(),
            consensus_manager.wf(),
        ensures
            r.wf(),
            r.history().len() == 0,
            r.cluster() == cluster_manager,
            r.consensus() == consensus_manager,
            r.config_of() == config,
            r.predictions() == 0,
    {
        let r = FailoverManager {
            config,
            cluster_manager,
            consensus_manager,
            predicted_failures: 0,
            failover_history: Vec::new(),
        };
        assert(r.history() =~= Seq::<EventView>::empty());
        r
    }

    /// Appends an event to the history, dropping the oldest one when the
    /// history grows past `HISTORY_LIMIT` events.
    pub fn record_failover_event(&mut self, event: FailoverEvent)
        requires
            old(self).wf(),
        ensures
            final(self).wf(),
            final(self).history() == history_after(old(self).history(), event@),
            final(self).cluster() == old(self).cluster(),
            final(self).consensus() == old(self).consensus(),
            final(self).config_of() == old(self).config_of(),
            final(self).predictions() == old(self).predictions(),
    {
        let ghost ev = event@;
        self.failover_history.push(event);
        if self.failover_history.len() > HISTORY_LIMIT {
            let _ = self.failover_history.remove(0);
            assert(self.history() =~= old(self).history().push(ev).drop_first());
        } else {
            assert(self.history() =~= old(self).history().push(ev));
        }
    }

    /// Handles the failure of the leader `old_leader_id` at time `now`:
    /// records the failure, starts a new election term, and records the
    /// election of the leader that consensus then names, if any.
    pub fn handle_leader_failure(&mut self, old_leader_id: &str, now: u64)
        requires
            old(self).wf(),
            old(self).consensus().raft().current_term < u64::MAX,
        ensures
            final(self).wf(),
            final(self).history() == history_after_all(
                old(self).history(),
                leader_failure_events(
                    old_leader_id@,
                    now,
                    if old(self).consensus().members().len() > 0 { Some(old(self).consensus().members()[0]@) } else { None },
                ),
            ),
            final(self).consensus().raft().current_term == old(self).consensus().raft().current_term + 1,
            final(self).consensus().members() == old(self).consensus().members(),
            final(self).cluster() == old(self).cluster(),
            final(self).config_of() == old(self).config_of(),
            final(self).predictions() == old(self).predictions(),
    {
        let ghost h0 = self.history();
        self.record_failover_event(FailoverEvent::LeaderFailure { old_leader: owned(old_leader_id), failure_time: now });
        self.consensus_manager.force_election();
        let ghost h1 = self.history();
        match self.consensus_manager.get_current_leader() {
            Some(new_leader) => {
                let ghost nl = new_leader@;
                self.record_failover_event(FailoverEvent::LeaderElection { new_leader, election_time: now });
                proof {
                    let lf = EventView::LeaderFailure { old_leader: old_leader_id@, failure_time: now };
                    let es = leader_failure_events(old_leader_id@, now, Some(nl));
                    assert(es.drop_last() =~= seq![lf]);
                    assert(seq![lf].drop_last() =~= Seq::<EventView>::empty());
                    assert(history_after_all(h0, seq![lf].drop_last()) == h0);
                    assert(history_after_all(h0, seq![lf]) == history_after(h0, lf));
                    assert(history_after_all(h0, es) == history_after(history_after(h0, lf), es.last()));
                }
            },
            None => {
                proof {
                    let lf = EventView::LeaderFailure { old_leader: old_leader_id@, failure_time: now };
                    let es = leader_failure_events(old_leader_id@, now, None);
                    assert(es.drop_last() =~= Seq::<EventView>::empty());
                    assert(history_after_all(h0, es.drop_last()) == h0);
                    assert(history_after_all(h0, es) == history_after(h0, lf));
                }
            },
        }
    }

    /// Whether at least the quorum of nodes is running.
    pub fn is_quorum_healthy(&self) -> (r: bool)
        requires
            self.wf(),
        ensures
            r == (count_in_state(self.cluster().member_list(), NodeState::Running) >= self.config_of().minimum_quorum_size),
    {
        let status = self.cluster_manager.get_cluster_status();
        status.healthy_nodes >= self.config.minimum_quorum_size
    }

    /// Records a critical degradation of the cluster when fewer nodes than
    /// the quorum are running.
    pub fn check_quorum_status(&mut self)
        requires
            old(self).wf(),
        ensures
            final(self).wf(),
            final(self).history() == if count_in_state(old(self).cluster().member_list(), NodeState::Running)
                < old(self).config_of().minimum_quorum_size {
                history_after(old(self).history(), degradation_event())
            } else {
                old(self).history()
            },
            final(self).cluster() == old(self).cluster(),
            final(self).consensus() == old(self).consensus(),
            final(self).config_of() == old(self).config_of(),
            final(self).predictions() == old(self).predictions(),
    {
        if !self.is_quorum_healthy() {
            self.record_failover_event(FailoverEvent::ServiceDegradation {
                service: owned("database_cluster"),
                severity: FailureSeverity::Critical,
            });
        }
    }

    /// Handles the failure of `node_id` at time `now`: records the failure,
    /// marks the node failed, handles a leader failure when the node was the
    /// leader, and checks the quorum.  Returns the membership event of the
    /// node's failure (when its state changed) and whether recovery should
    /// be attempted (automatic failover is on).
    pub fn handle_node_failure(&mut self, node_id: &str, now: u64) -> (r: (Option<MembershipEvent>, bool))
        requires
            old(self).wf(),
            old(self).consensus().raft().current_term < u64::MAX,
        ensures
            final(self).wf(),
            r.1 == old(self).config_of().enable_automatic_failover,
            final(self).cluster().members().contains_key(node_id@) == old(self).cluster().members().contains_key(node_id@),
            (old(self).cluster().members().contains_key(node_id@) && old(self).cluster().members()[node_id@].state
                != NodeState::Left) ==> final(self).cluster().members()[node_id@].state == NodeState::Unhealthy,
            ({
                let members = old(self).consensus().members();
                let was_leader = members.len() > 0 && members[0]@ == node_id@;
                let after_failure = history_after(
                    old(self).history(),
                    EventView::NodeFailure { node_id: node_id@, failure_time: now },
                );
                let after_leader = if was_leader {
                    history_after_all(after_failure, leader_failure_events(node_id@, now, Some(members[0]@)))
                } else {
                    after_failure
                };
                final(self).history() == if count_in_state(final(self).cluster().member_list(), NodeState::Running)
                    < old(self).config_of().minimum_quorum_size {
                    history_after(after_leader, degradation_event())
                } else {
                    after_leader
                }
            }),
            final(self).config_of() == old(self).config_of(),
            final(self).predictions() == old(self).predictions(),
    {
        self.record_failover_event(FailoverEvent::NodeFailure { node_id: owned(node_id), failure_time: now });
        let membership = self.cluster_manager.mark_node_failed(node_id);
        let leader = self.consensus_manager.get_current_leader();
        match leader {
            Some(l) => {
                if crate::text::str_equal(l.as_str(), node_id) {
                    self.handle_leader_failure(l.as_str(), now);
                }
            },
            None => {},
        }
        self.check_quorum_status();
        (membership, self.config.enable_automatic_failover)
    }

    /// Records that `node_id` came back at time `now`: an unhealthy node is
    /// marked running, and the recovery is recorded.  Returns the membership
    /// event when the node's state changed.
    pub fn record_recovery(&mut self, node_id: &str, now: u64) -> (r: Option<MembershipEvent>)
        requires
            old(self).wf(),
        ensures
            final(self).wf(),
            final(self).history() == history_after(
                old(self).history(),
                EventView::NodeRecovery { node_id: node_id@, recovery_time: now },
            ),
            (old(self).cluster().members().contains_key(node_id@) && old(self).cluster().members()[node_id@].state
                == NodeState::Unhealthy) ==> final(self).cluster().members()[node_id@].state == NodeState::Running,
            final(self).consensus() == old(self).consensus(),
            final(self).config_of() == old(self).config_of(),
            final(self).predictions() == old(self).predictions(),
    {
        let membership = self.cluster_manager.mark_node_recovered(node_id);
        self.record_failover_event(FailoverEvent::NodeRecovery { node_id: owned(node_id), recovery_time: now });
        membership
    }

    /// The error for a node that did not recover within the configured number
    /// of attempts.
    pub fn recovery_failed(&self) -> (r: FailoverError)
        ensures
            r == (FailoverError::RecoveryFailed { attempts: self.config_of().max_retry_attempts }),
    {
        FailoverError::RecoveryFailed { attempts: self.config.max_retry_attempts }
    }

    /// The state of failover: the leader, whether the quorum is running,
    /// the number of predictions, and how many node failures, recoveries and
    /// leader elections the history holds.
    pub fn get_failover_status(&self) -> (r: FailoverStatus)
        requires
            self.wf(),
        ensures
            r.current_leader == if self.consensus().members().len() > 0 { Some(self.consensus().members()[0]) } else { None },
            r.quorum_healthy == (count_in_state(self.cluster().member_list(), NodeState::Running)
                >= self.config_of().minimum_quorum_size),
            r.active_predictions == self.predictions(),
            r.recent_failures == count_kind(self.history(), EventKind::NodeFailure),
            r.recent_recoveries == count_kind(self.history(), EventKind::NodeRecovery),
            r.leader_changes == count_kind(self.history(), EventKind::LeaderElection),
            r.automatic_failover_enabled == self.config_of().enable_automatic_failover,
            r.predictive_failover_enabled == self.config_of().enable_predictive_failover,
    {
        FailoverStatus {
            current_leader: self.consensus_manager.get_current_leader(),
            quorum_healthy: self.is_quorum_healthy(),
            active_predictions: self.predicted_failures,
            recent_failures: self.count_events(EventKind::NodeFailure),
            recent_recoveries: self.count_events(EventKind::NodeRecovery),
            leader_changes: self.count_events(EventKind::LeaderElection),
            automatic_failover_enabled: self.config.enable_automatic_failover,
            predictive_failover_enabled: self.config.enable_predictive_failover,
        }
    }

    /// The number of events in the history, and how many of them are node
    /// failures (the failure rate is their ratio).
    pub fn failure_counts(&self) -> (r: (usize, usize))
        requires
            self.wf(),
        ensures
            r.0 == self.history().len(),
            r.1 == count_kind(self.history(), EventKind::NodeFailure),
    {
        (self.failover_history.len(), self.count_events(EventKind::NodeFailure))
    }

    /// The number of events of kind `k` in the history.
    fn count_events(&self, k: EventKind) -> (r: usize)
        requires
            self.wf(),
        ensures
            r == count_kind(self.history(), k),
    {
        let n = self.failover_history.len();
        let mut c: usize = 0;
        let mut i: usize = 0;
        while i < n
            invariant
                i <= n,
                n == self.failover_history@.len(),
                c == count_kind(event_views(self.failover_history@).subrange(0, i as int), k),
                c <= i,
            decreases n - i,
        {
            proof {
                let s = event_views(self.failover_history@);
                assert(s.subrange(0, i + 1).drop_last() =~= s.subrange(0, i as int));
            }
            let e = &self.failover_history[i];
            let hit = match k {
                EventKind::LeaderFailure => matches!(e, FailoverEvent::LeaderFailure { .. }),
                EventKind::LeaderElection => matches!(e, FailoverEvent::LeaderElection { .. }),
                EventKind::NodeFailure => matches!(e, FailoverEvent::NodeFailure { .. }),
                EventKind::NodeRecovery => matches!(e, FailoverEvent::NodeRecovery { .. }),
                EventKind::ServiceDegradation => matches!(e, FailoverEvent::ServiceDegradation { .. }),
            };
            if hit {
                c = c + 1;
            }
            i = i + 1;
        }
        assert(event_views(self.failover_history@).subrange(0, n as int) =~= self.history());
        c
    }
}

} // verus!
