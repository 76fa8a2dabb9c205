//! Data replication: the replica set, replication lag, conflict resolution,
//! and what the acknowledgements of a replicated change amount to.

use vstd::prelude::*;
use crate::text::{StringMap, owned, push_text, push_decimal, decimal, contains_seq, text_contains};

verus! {

broadcast use vstd::string::group_string_axioms;

/// How many replicas must acknowledge a change.
#[derive(Debug, Clone, Copy, PartialEq, Eq, Structural)]
pub enum ReplicationMode {
    /// Wait for all replicas.
    Synchronous,
    /// Fire and forget.
    Asynchronous,
    /// Wait for a majority.
    SemiSynchronous,
}

/// Replication topology.
#[derive(Debug, Clone, Copy, PartialEq, Eq, Structural)]
pub enum ReplicationTopology {
    MasterSlave,
    MultiMaster,
    Ring,
    Star,
}

/// How far a replica lags behind.
#[derive(Debug)]
pub struct ReplicationLag {
    pub node_id: String,
    pub lag_seconds: u64,
    pub lag_bytes: u64,
    pub last_replication_time: u64,
}

/// Kinds of replication conflict.
#[derive(Debug)]
pub enum ConflictType {
    UpdateUpdate,
    InsertInsert,
    DeleteUpdate,
    Custom(String),
}

/// Two versions of the same row that replication found in conflict.
#[derive(Debug)]
pub struct ReplicationConflict {
    pub conflict_id: String,
    pub table_name: String,
    pub primary_key: StringMap<String>,
    pub local_version: Vec<u8>,
    pub remote_version: Vec<u8>,
    pub conflict_type: ConflictType,
    pub detected_at: u64,
}

/// How conflicts are resolved.
#[derive(Debug, Clone, Copy, PartialEq, Eq, Structural)]
pub enum ConflictResolutionStrategy {
    LastWriteWins,
    ManualResolution,
    CustomLogic,
    AIResolution,
}

/// What to do with a conflict.
#[derive(Debug, Clone, Copy, PartialEq, Eq, Structural)]
pub enum ConflictResolution {
    UseLocal,
    UseRemote,
    Merge,
    ManualInterventionRequired,
}

/// Kinds of change that are replicated.
#[derive(Debug, Clone, Copy, PartialEq, Eq, Structural)]
pub enum OperationType {
    Insert,
    Update,
    Delete,
}

/// A data change to replicate.
#[derive(Debug)]
pub struct DataChange {
    pub operation: OperationType,
    pub table_name: String,
    pub primary_key: StringMap<String>,
    pub before_data: Option<StringMap<Vec<u8>>>,
    pub after_data: Option<StringMap<Vec<u8>>>,
    pub timestamp: u64,
    pub transaction_id: String,
}

/// The state of replication.
#[derive(Debug, Clone, Copy)]
pub struct ReplicationStatus {
    pub mode: ReplicationMode,
    pub topology: ReplicationTopology,
    pub total_replicas: usize,
    pub healthy_replicas: usize,
    pub unhealthy_replicas: usize,
    pub average_lag_seconds: u64,
    pub active_conflicts: usize,
}

/// Replication statistics.
#[derive(Debug)]
pub struct ReplicationStats {
    pub total_replicas: usize,
    pub lag_distribution: Vec<u64>,
    pub conflict_resolution_strategy: ConflictResolutionStrategy,
    pub replication_mode: ReplicationMode,
    pub topology: ReplicationTopology,
}

/// Why replication refused or failed.
#[derive(Debug, PartialEq, Eq)]
pub enum ReplicationError {
    /// The replica set is full.
    ReplicaLimitReached,
    /// No replica of that name.
    ReplicaNotFound { node_id: String },
    /// A replica did not acknowledge a synchronous change.
    ReplicaFailed { node_id: String },
    /// Too few replicas acknowledged a semi-synchronous change.
    MajorityNotReached { successes: usize, majority: usize },
}

impl ReplicationError {
    /// The error's message.
    pub fn message(&self) -> (r: String)
        ensures
            r@ == replication_error_text(*self),
    {
        match self {
            ReplicationError::ReplicaLimitReached => owned("Maximum replica limit reached"),
            ReplicationError::ReplicaNotFound { node_id } => {
                let mut s = owned("Replica node ");
                push_text(&mut s, node_id.as_str());
                push_text(&mut s, " not found");
                s
            },
            ReplicationError::ReplicaFailed { node_id } => {
                let mut s = owned("Failed to replicate to ");
                push_text(&mut s, node_id.as_str());
                s
            },
            ReplicationError::MajorityNotReached { successes, majority } => {
                let mut s = owned("Failed to achieve majority replication (");
                push_decimal(&mut s, *successes as u64);
                push_text(&mut s, " of ");
                push_decimal(&mut s, *majority as u64);
                push_text(&mut s, ")");
                s
            },
        }
    }
}

/// The message of a replication error.
pub open spec fn replication_error_text(e: ReplicationError) -> Seq<char> {
    match e {
        ReplicationError::ReplicaLimitReached => "Maximum replica limit reached"@,
        ReplicationError::ReplicaNotFound { node_id } => "Replica node "@ + node_id@ + " not found"@,
        ReplicationError::ReplicaFailed { node_id } => "Failed to replicate to "@ + node_id@,
        ReplicationError::MajorityNotReached { successes, majority } => "Failed to achieve majority replication ("@
            + decimal(successes as nat) + " of "@ + decimal(majority as nat) + ")"@,
    }
}

/// The most replicas a manager keeps.
pub const MAX_REPLICAS: usize = 10;

/// The resolution that custom logic gives a conflict: for financial or
/// account tables the longer version wins (remote on a tie); elsewhere the
/// remote version wins.
pub open spec fn custom_resolution(table: Seq<char>, local_len: nat, remote_len: nat) -> ConflictResolution {
    if contains_seq(table, "financial"@) || contains_seq(table, "account"@) {
        if local_len > remote_len {
            ConflictResolution::UseLocal
        } else {
            ConflictResolution::UseRemote
        }
    } else {
        ConflictResolution::UseRemote
    }
}

/// The resolution a strategy gives a conflict.
pub open spec fn resolution_for(strategy: ConflictResolutionStrategy, table: Seq<char>, local_len: nat, remote_len: nat) -> ConflictResolution {
    match strategy {
        ConflictResolutionStrategy::LastWriteWins => ConflictResolution::UseRemote,
        ConflictResolutionStrategy::ManualResolution => ConflictResolution::ManualInterventionRequired,
        ConflictResolutionStrategy::CustomLogic => custom_resolution(table, local_len, remote_len),
        ConflictResolutionStrategy::AIResolution => ConflictResolution::UseLocal,
    }
}

/// The sum of a list of numbers.
pub open spec fn sum_u64(s: Seq<u64>) -> nat
    decreases s.len(),
{
    if s.len() == 0 {
        0
    } else {
        sum_u64(s.drop_last()) + (s.last() as nat)
    }
}

/// How many numbers of a list exceed `limit`.
pub open spec fn count_above(s: Seq<u64>, limit: u64) -> nat
    decreases s.len(),
{
    if s.len() == 0 {
        0
    } else {
        count_above(s.drop_last(), limit) + if s.last() > limit { 1nat } else { 0nat }
    }
}

/// The lag in seconds of each replica, in the order replicas were added.
pub open spec fn lag_seconds_of(entries: Seq<(String, ReplicationLag)>) -> Seq<u64> {
    entries.map_values(|e: (String, ReplicationLag)| e.1.lag_seconds)
}

/// The replica set and its replication state.
pub struct ReplicationManager {
    mode: ReplicationMode,
    topology: ReplicationTopology,
    replication_lag: StringMap<ReplicationLag>,
    conflicts: Vec<ReplicationConflict>,
    conflict_resolution_strategy: ConflictResolutionStrategy,
    max_replication_lag_seconds: u64,
}

impl ReplicationManager {
    /// The replicas, with their lag records.
    pub closed spec fn replicas(&self) -> Map<Seq<char>, ReplicationLag> {
        self.replication_lag@
    }

    /// The lag in seconds of each replica, in the order replicas were added.
    pub closed spec fn lags(&self) -> Seq<u64> {
        lag_seconds_of(self.replication_lag.entry_seq())
    }

    /// The replication mode.
    pub closed spec fn mode_of(&self) -> ReplicationMode {
        self.mode
    }

    /// The conflict-resolution strategy.
    pub closed spec fn strategy(&self) -> ConflictResolutionStrategy {
        self.conflict_resolution_strategy
    }

    /// The number of recorded conflicts.
    pub closed spec fn conflict_count(&self) -> nat {
        self.conflicts@.len()
    }

    /// The replica set never holds more than `MAX_REPLICAS` replicas.
    pub closed spec fn wf(&self) -> bool {
        &&& self.replication_lag@.len() <= MAX_REPLICAS
        &&& self.replication_lag.entry_seq().len() == self.replication_lag@.len()
        &&& self.max_replication_lag_seconds == 30
    }

    /// No replicas, no conflicts, last-write-wins resolution, and at most 30
    /// seconds of lag before a replica counts as unhealthy.
    pub fn new(mode: ReplicationMode, topology: ReplicationTopology) -> (r: Self)
        ensures
            r.wf(),
            r.replicas() == Map::<Seq<char>, ReplicationLag>::empty(),
            r.mode_of() == mode,
            r.strategy() == ConflictResolutionStrategy::LastWriteWins,
            r.conflict_count() == 0,
    {
        let r = ReplicationManager {
            mode,
            topology,
            replication_lag: StringMap::new(),
            conflicts: Vec::new(),
            conflict_resolution_strategy: ConflictResolutionStrategy::LastWriteWins,
            max_replication_lag_seconds: 30,
        };
        r
    }

    /// Adds `node_id` to the replica set with a fresh lag record (no lag,
    /// last replicated `now`); refused when the set already holds
    /// `MAX_REPLICAS` replicas.
    pub fn add_replica(&mut self, node_id: String, now: u64) -> (r: Result<(), ReplicationError>)
        requires
            old(self).wf(),
        ensures
            final(self).wf(),
            match r {
                Ok(()) => {
                    &&& old(self).replicas().len() < MAX_REPLICAS
                    &&& final(self).replicas().dom() == old(self).replicas().dom().insert(node_id@)
                    &&& final(self).replicas()[node_id@].node_id@ == node_id@
                    &&& final(self).replicas()[node_id@].lag_seconds == 0
                    &&& final(self).replicas()[node_id@].lag_bytes == 0
                    &&& final(self).replicas()[node_id@].last_replication_time == now
                    &&& forall|k: Seq<char>| k != node_id@ && #[trigger] old(self).replicas().contains_key(k)
                        ==> final(self).replicas()[k] == old(self).replicas()[k]
                },
                Err(e) => {
                    &&& old(self).replicas().len() >= MAX_REPLICAS
                    &&& e == ReplicationError::ReplicaLimitReached
                    &&& final(self).replicas() == old(self).replicas()
                },
            },
            final(self).mode_of() == old(self).mode_of(),
            final(self).strategy() == old(self).strategy(),
            final(self).conflict_count() == old(self).conflict_count(),
    {
        if self.replication_lag.len() >= MAX_REPLICAS {
            return Err(ReplicationError::ReplicaLimitReached);
        }
        let lag = ReplicationLag { node_id: node_id.clone(), lag_seconds: 0, lag_bytes: 0, last_replication_time: now };
        self.replication_lag.insert(node_id, lag);
        let _ = self.replication_lag.len();
        Ok(())
    }

    /// Removes `node_id` from the replica set.
    pub fn remove_replica(&mut self, node_id: &str) -> (r: Result<(), ReplicationError>)
        requires
            old(self).wf(),
        ensures
            final(self).wf(),
            match r {
                Ok(()) => {
                    &&& old(self).replicas().contains_key(node_id@)
                    &&& final(self).replicas() == old(self).replicas().remove(node_id@)
                },
                Err(e) => {
                    &&& !old(self).replicas().contains_key(node_id@)
                    &&& e matches ReplicationError::ReplicaNotFound { node_id: id } && id@ == node_id@
                    &&& final(self).replicas() == old(self).replicas()
                },
            },
            final(self).mode_of() == old(self).mode_of(),
            final(self).strategy() == old(self).strategy(),
            final(self).conflict_count() == old(self).conflict_count(),
    {
        let _ = self.replication_lag.len();
        if self.replication_lag.remove(node_id) {
            let _ = self.replication_lag.len();
            assert(self.replication_lag@.dom() =~= old(self).replication_lag@.dom().remove(node_id@));
            Ok(())
        } else {
            Err(ReplicationError::ReplicaNotFound { node_id: owned(node_id) })
        }
    }

    /// The replicas a change goes to, in the order they were added.
    pub fn replication_targets(&self) -> (r: Vec<String>)
        ensures
            r@.len() == self.replicas().len(),
            forall|k: Seq<char>| self.replicas().contains_key(k) <==> crate::text::contains_text(r@, k),
    {
        self.replication_lag.key_list()
    }

    /// The number of acknowledgements a semi-synchronous change needs: more
    /// than half of the replicas.
    pub fn majority(&self) -> (r: usize)
        requires
            self.wf(),
        ensures
            r == self.replicas().len() / 2 + 1,
    {
        self.replication_lag.len() / 2 + 1
    }

    /// What the acknowledgements of a replicated change amount to.
    /// Synchronous: `acks` answer the targets in order, and the first
    /// refusal fails the change.  Asynchronous: the change succeeds without
    /// waiting.  Semi-synchronous: `acks` come in arrival order, and the
    /// change succeeds once a majority has acknowledged.
    pub fn replication_outcome(&self, targets: &Vec<String>, acks: &Vec<bool>) -> (r: Result<(), ReplicationError>)
        requires
            self.wf(),
            self.mode_of() == ReplicationMode::Synchronous ==> acks@.len() == targets@.len(),
        ensures
            match self.mode_of() {
                ReplicationMode::Asynchronous => r is Ok,
                ReplicationMode::Synchronous => match r {
                    Ok(()) => forall|i: int| 0 <= i < acks@.len() ==> #[trigger] acks@[i],
                    Err(e) => exists|i: int|
                        0 <= i < acks@.len() && !#[trigger] acks@[i] && (forall|j: int| 0 <= j < i ==> #[trigger] acks@[j])
                            && e == (ReplicationError::ReplicaFailed { node_id: targets@[i] }),
                },
                ReplicationMode::SemiSynchronous => match r {
                    Ok(()) => count_true(acks@) >= self.replicas().len() / 2 + 1,
                    Err(e) => count_true(acks@) < self.replicas().len() / 2 + 1 && e == (
                    ReplicationError::MajorityNotReached {
                        successes: count_true(acks@) as usize,
                        majority: (self.replicas().len() / 2 + 1) as usize,
                    }),
                },
            },
    {
        match self.mode {
            ReplicationMode::Asynchronous => Ok(()),
            ReplicationMode::Synchronous => {
                let mut i: usize = 0;
                while i < acks.len()
                    invariant
                        i <= acks.len(),
                        self.mode == ReplicationMode::Synchronous,
                        acks@.len() == targets@.len(),
                        forall|j: int| 0 <= j < i ==> #[trigger] acks@[j],
                    decreases acks.len() - i,
                {
                    if !acks[i] {
                        let e = ReplicationError::ReplicaFailed { node_id: targets[i].clone() };
                        assert(!acks@[i as int] && (forall|j: int| 0 <= j < i ==> #[trigger] acks@[j])
                            && e == (ReplicationError::ReplicaFailed { node_id: targets@[i as int] }));
                        return Err(e);
                    }
                    i = i + 1;
                }
                Ok(())
            },
            ReplicationMode::SemiSynchronous => {
                let majority = self.majority();
                let mut successes: usize = 0;
                let mut i: usize = 0;
                while i < acks.len()
                    invariant
                        i <= acks.len(),
                        self.mode == ReplicationMode::SemiSynchronous,
                        successes == count_true(acks@.subrange(0, i as int)),
                        successes < majority,
                        majority == self.replicas().len() / 2 + 1,
                    decreases acks.len() - i,
                {
                    proof {
                        assert(acks@.subrange(0, i + 1).drop_last() =~= acks@.subrange(0, i as int));
                    }
                    if acks[i] {
                        successes = successes + 1;
                        assert(successes == count_true(acks@.subrange(0, i + 1)));
                        if successes >= majority {
                            proof {
                                lemma_count_true_prefix(acks@, i + 1);
                            }
                            assert(count_true(acks@) >= self.replicas().len() / 2 + 1);
                            return Ok(());
                        }
                    }
                    i = i + 1;
                }
                assert(acks@.subrange(0, acks@.len() as int) =~= acks@);
                Err(ReplicationError::MajorityNotReached { successes, majority })
            },
        }
    }

    /// Whether replication is healthy: no replica lags too far behind and no
    /// conflict is open.
    pub fn is_replication_healthy(&self) -> (r: bool)
        requires
            self.wf(),
            sum_u64(self.lags()) <= u64::MAX,
        ensures
            r == (count_above(self.lags(), 30) == 0 && self.conflict_count() == 0),
    {
        let status = self.get_replication_status();
        status.unhealthy_replicas == 0 && status.active_conflicts == 0
    }

    /// Replication statistics: the lag of each replica in the order they
    /// were added, the strategy, the mode and the topology.
    pub fn get_replication_stats(&self) -> (r: ReplicationStats)
        requires
            self.wf(),
        ensures
            r.total_replicas == self.replicas().len(),
            r.lag_distribution@ == self.lags(),
            r.conflict_resolution_strategy == self.strategy(),
            r.replication_mode == self.mode_of(),
    {
        let n = self.replication_lag.len();
        let mut lags: Vec<u64> = Vec::new();
        let mut i: usize = 0;
        while i < n
            invariant
                i <= n,
                n == self.replication_lag.entry_seq().len(),
                lags@ == lag_seconds_of(self.replication_lag.entry_seq()).subrange(0, i as int),
            decreases n - i,
        {
            let (_, lag) = self.replication_lag.entry_at(i);
            lags.push(lag.lag_seconds);
            i = i + 1;
            assert(lags@ =~= lag_seconds_of(self.replication_lag.entry_seq()).subrange(0, i as int));
        }
        assert(lags@ =~= self.lags());
        ReplicationStats {
            total_replicas: n,
            lag_distribution: lags,
            conflict_resolution_strategy: self.conflict_resolution_strategy,
            replication_mode: self.mode,
            topology: self.topology,
        }
    }

    /// Resolves a conflict by the manager's strategy.
    pub fn handle_conflict(&self, conflict: &ReplicationConflict) -> (r: ConflictResolution)
        ensures
            r == resolution_for(
                self.strategy(),
                conflict.table_name@,
                conflict.local_version@.len(),
                conflict.remote_version@.len(),
            ),
    {
        match self.conflict_resolution_strategy {
            ConflictResolutionStrategy::LastWriteWins => ConflictResolution::UseRemote,
            ConflictResolutionStrategy::ManualResolution => ConflictResolution::ManualInterventionRequired,
            ConflictResolutionStrategy::CustomLogic => resolve_conflict_custom(conflict),
            ConflictResolutionStrategy::AIResolution => ConflictResolution::UseLocal,
        }
    }

    /// The state of replication: replicas lagging more than the allowed
    /// seconds count as unhealthy; the average lag is the whole-second mean.
    pub fn get_replication_status(&self) -> (r: ReplicationStatus)
        requires
            self.wf(),
            sum_u64(self.lags()) <= u64::MAX,
        ensures
            r.mode == self.mode_of(),
            r.total_replicas == self.replicas().len(),
            r.unhealthy_replicas == count_above(self.lags(), 30),
            r.healthy_replicas == self.replicas().len() - count_above(self.lags(), 30),
            r.average_lag_seconds == if self.lags().len() == 0 { 0 } else { sum_u64(self.lags()) / self.lags().len() },
            r.active_conflicts == self.conflict_count(),
    {
        let n = self.replication_lag.len();
        let mut total: u64 = 0;
        let mut unhealthy: usize = 0;
        let mut i: usize = 0;
        while i < n
            invariant
                self.wf(),
                i <= n,
                n == self.replication_lag.entry_seq().len(),
                total == sum_u64(lag_seconds_of(self.replication_lag.entry_seq()).subrange(0, i as int)),
                unhealthy == count_above(lag_seconds_of(self.replication_lag.entry_seq()).subrange(0, i as int), 30),
                unhealthy <= i,
                sum_u64(lag_seconds_of(self.replication_lag.entry_seq())) <= u64::MAX,
            decreases n - i,
        {
            let (_, lag) = self.replication_lag.entry_at(i);
            proof {
                let s = lag_seconds_of(self.replication_lag.entry_seq());
                assert(s.subrange(0, i + 1).drop_last() =~= s.subrange(0, i as int));
                assert(s[i as int] == lag.lag_seconds);
                lemma_sum_prefix(s, i + 1);
            }
            if lag.lag_seconds > self.max_replication_lag_seconds {
                unhealthy = unhealthy + 1;
            }
            total = total + lag.lag_seconds;
            i = i + 1;
        }
        assert(lag_seconds_of(self.replication_lag.entry_seq()).subrange(0, n as int) =~= self.lags());
        let avg = if n > 0 { total / (n as u64) } else { 0 };
        ReplicationStatus {
            mode: self.mode,
            topology: self.topology,
            total_replicas: n,
            healthy_replicas: n - unhealthy,
            unhealthy_replicas: unhealthy,
            average_lag_seconds: avg,
            active_conflicts: self.conflicts.len(),
        }
    }
}

/// A prefix sums to no more than the whole list.
pub proof fn lemma_sum_prefix(s: Seq<u64>, k: int)
    requires
        0 <= k <= s.len(),
    ensures
        sum_u64(s.subrange(0, k)) <= sum_u64(s),
    decreases s.len() - k,
{
    if k < s.len() {
        lemma_sum_prefix(s, k + 1);
        assert(s.subrange(0, k + 1).drop_last() =~= s.subrange(0, k));
    } else {
        assert(s.subrange(0, k) =~= s);
    }
}

/// The number of `true`s in a list.
pub open spec fn count_true(s: Seq<bool>) -> nat
    decreases s.len(),
{
    if s.len() == 0 {
        0
    } else {
        count_true(s.drop_last()) + if s.last() { 1nat } else { 0nat }
    }
}

/// A prefix has no more `true`s than the whole list.
pub proof fn lemma_count_true_prefix(s: Seq<bool>, k: int)
    requires
        0 <= k <= s.len(),
    ensures
        count_true(s.subrange(0, k)) <= count_true(s),
    decreases s.len() - k,
{
    if k < s.len() {
        lemma_count_true_prefix(s, k + 1);
        assert(s.subrange(0, k + 1).drop_last() =~= s.subrange(0, k));
    } else {
        assert(s.subrange(0, k) =~= s);
    }
}

/// Custom conflict logic: for financial or account tables the longer
/// version wins (remote on a tie); elsewhere the remote version wins.
fn resolve_conflict_custom(conflict: &ReplicationConflict) -> (r: ConflictResolution)
    ensures
        r == custom_resolution(conflict.table_name@, conflict.local_version@.len(), conflict.remote_version@.len()),
{
    if text_contains(conflict.table_name.as_str(), "financial") || text_contains(conflict.table_name.as_str(), "account") {
        if conflict.local_version.len() > conflict.remote_version.len() {
            ConflictResolution::UseLocal
        } else {
            ConflictResolution::UseRemote
        }
    } else {
        ConflictResolution::UseRemote
    }
}

} // verus!
