//! Raft consensus: terms, votes, the replicated log, and applying committed
//! entries.

use vstd::prelude::*;
use crate::text::{StringMap, contains_text, distinct_strings, owned, str_equal, push_decimal, decimal, copy_bytes};

verus! {

broadcast use vstd::string::group_string_axioms;

/// Raft server states.
#[derive(Debug, Clone, Copy, PartialEq, Eq, Structural)]
pub enum RaftState {
    Follower,
    Candidate,
    Leader,
}

/// Commands that the cluster agrees on.
#[derive(Debug)]
pub enum ConsensusCommand {
    /// Cluster management.
    AddNode { node_id: String, address: String },
    RemoveNode { node_id: String },
    /// Data operations.
    WriteOperation { key: String, value: Vec<u8> },
    DeleteOperation { key: String },
    /// Configuration changes.
    UpdateConfig { config: StringMap<String> },
    /// Barrier for synchronization.
    Barrier { id: String },
}

/// What a command says, as plain values.
pub enum CommandView {
    AddNode { node_id: Seq<char>, address: Seq<char> },
    RemoveNode { node_id: Seq<char> },
    WriteOperation { key: Seq<char>, value: Seq<u8> },
    DeleteOperation { key: Seq<char> },
    UpdateConfig { config: Map<Seq<char>, Seq<char>> },
    Barrier { id: Seq<char> },
}

impl View for ConsensusCommand {
    type V = CommandView;

    open spec fn view(&self) -> CommandView {
        match self {
            ConsensusCommand::AddNode { node_id, address } => CommandView::AddNode {
                node_id: node_id@,
                address: address@,
            },
            ConsensusCommand::RemoveNode { node_id } => CommandView::RemoveNode { node_id: node_id@ },
            ConsensusCommand::WriteOperation { key, value } => CommandView::WriteOperation {
                key: key@,
                value: value@,
            },
            ConsensusCommand::DeleteOperation { key } => CommandView::DeleteOperation { key: key@ },
            ConsensusCommand::UpdateConfig { config } => CommandView::UpdateConfig {
                config: crate::text::text_map(config@),
            },
            ConsensusCommand::Barrier { id } => CommandView::Barrier { id: id@ },
        }
    }
}

impl ConsensusCommand {
    /// A copy of the command.
    pub fn duplicate(&self) -> (r: Self)
        ensures
            r@ == self@,
    {
        match self {
            ConsensusCommand::AddNode { node_id, address } => ConsensusCommand::AddNode {
                node_id: node_id.clone(),
                address: address.clone(),
            },
            ConsensusCommand::RemoveNode { node_id } => ConsensusCommand::RemoveNode {
                node_id: node_id.clone(),
            },
            ConsensusCommand::WriteOperation { key, value } => ConsensusCommand::WriteOperation {
                key: key.clone(),
                value: copy_bytes(value),
            },
            ConsensusCommand::DeleteOperation { key } => ConsensusCommand::DeleteOperation {
                key: key.clone(),
            },
            ConsensusCommand::UpdateConfig { config } => ConsensusCommand::UpdateConfig {
                config: config.duplicate(),
            },
            ConsensusCommand::Barrier { id } => ConsensusCommand::Barrier { id: id.clone() },
        }
    }
}

/// One entry of the replicated log.
#[derive(Debug)]
pub struct LogEntry {
    pub term: u64,
    pub index: u64,
    pub command: ConsensusCommand,
    pub timestamp: u64,
}

/// What a log entry says, as plain values.
pub struct EntryView {
    pub term: u64,
    pub index: u64,
    pub command: CommandView,
    pub timestamp: u64,
}

impl View for LogEntry {
    type V = EntryView;

    open spec fn view(&self) -> EntryView {
        EntryView { term: self.term, index: self.index, command: self.command@, timestamp: self.timestamp }
    }
}

/// The plain views of a list of commands.
pub open spec fn command_views(s: Seq<ConsensusCommand>) -> Seq<CommandView> {
    s.map_values(|c: ConsensusCommand| c@)
}

/// The plain view of a log.
pub open spec fn log_view(log: Seq<LogEntry>) -> Seq<EntryView> {
    log.map_values(|e: LogEntry| e@)
}

impl LogEntry {
    /// A copy of the entry.
    pub fn duplicate(&self) -> (r: Self)
        ensures
            r@ == self@,
    {
        LogEntry {
            term: self.term,
            index: self.index,
            command: self.command.duplicate(),
            timestamp: self.timestamp,
        }
    }
}

/// The persistent and volatile Raft state of one server.
pub struct RaftConsensusState {
    pub current_term: u64,
    pub voted_for: Option<String>,
    pub log: Vec<LogEntry>,
    pub commit_index: u64,
    pub last_applied: u64,
    pub next_index: StringMap<u64>,
    pub match_index: StringMap<u64>,
}

/// Summary of a server's consensus state.
#[derive(Debug, Clone, Copy)]
pub struct ConsensusStats {
    pub current_term: u64,
    pub commit_index: u64,
    pub last_applied: u64,
    pub log_size: usize,
    pub is_leader: bool,
    pub cluster_size: usize,
}

/// The term of the last entry of a log (0 for an empty log).
pub open spec fn last_term(log: Seq<EntryView>) -> u64 {
    if log.len() == 0 {
        0
    } else {
        log.last().term
    }
}

/// The index of the last entry of a non-empty log.
pub open spec fn last_index(log: Seq<EntryView>) -> u64 {
    (log.len() - 1) as u64
}

/// Raft's "at least as up-to-date" test: a candidate whose last entry has a
/// later term, or the same term and an index at least ours.
pub open spec fn log_up_to_date(log: Seq<EntryView>, cand_last_index: u64, cand_last_term: u64) -> bool {
    cand_last_term > last_term(log) || (cand_last_term == last_term(log) && cand_last_index
        >= last_index(log))
}

/// The log after receiving one entry from the leader: an entry at a position
/// already held with another term cuts the log back to that position before
/// it is appended; an entry past the end is appended; an entry that agrees
/// with ours changes nothing.
pub open spec fn receive_entry(log: Seq<EntryView>, e: EntryView) -> Seq<EntryView> {
    let i = e.index as int;
    if i < log.len() && log[i].term != e.term {
        log.subrange(0, i).push(e)
    } else if i >= log.len() {
        log.push(e)
    } else {
        log
    }
}

/// The log after receiving the entries one after the other.
pub open spec fn receive_entries(log: Seq<EntryView>, entries: Seq<EntryView>) -> Seq<EntryView>
    decreases entries.len(),
{
    if entries.len() == 0 {
        log
    } else {
        receive_entry(receive_entries(log, entries.drop_last()), entries.last())
    }
}

/// Whether the leader's view of the entry before its new ones agrees with
/// our log: index 0 always does; another index must exist with that term.
pub open spec fn prev_entry_matches(log: Seq<EntryView>, prev_log_index: u64, prev_log_term: u64) -> bool {
    prev_log_index == 0 || (prev_log_index < log.len() && log[prev_log_index as int].term
        == prev_log_term)
}

/// The commands of the entries at positions `from + 1 ..= to` that the log
/// holds, in order; positions past the end are skipped.
pub open spec fn committed_commands(log: Seq<EntryView>, from: nat, to: nat) -> Seq<CommandView>
    decreases to - from,
{
    if to <= from {
        Seq::empty()
    } else {
        let rest = committed_commands(log, from, (to - 1) as nat);
        if to < log.len() {
            rest.push(log[to as int].command)
        } else {
            rest
        }
    }
}

/// The base election timeout in milliseconds.
pub const ELECTION_TIMEOUT_MS: u64 = 150;

/// The heartbeat interval in milliseconds.
pub const HEARTBEAT_INTERVAL_MS: u64 = 50;

/// The consensus state of one server of the cluster.
pub struct ConsensusManager {
    node_id: String,
    state: RaftConsensusState,
    cluster_nodes: Vec<String>,
    election_timeout: u64,
    heartbeat_interval: u64,
}


impl ConsensusManager {
    /// The server's Raft state.
    pub closed spec fn raft(&self) -> RaftConsensusState {
        self.state
    }

    /// The server's log, as plain values.
    pub closed spec fn log(&self) -> Seq<EntryView> {
        log_view(self.state.log@)
    }

    /// The server's id.
    pub closed spec fn node(&self) -> Seq<char> {
        self.node_id@
    }

    /// The members of the cluster, each once.
    pub closed spec fn members(&self) -> Seq<String> {
        self.cluster_nodes@
    }

    /// The base election timeout of this server.
    pub closed spec fn election_timeout_ms(&self) -> u64 {
        self.election_timeout
    }

    /// Well-formedness: the log is never empty, members are distinct, and
    /// the timing constants are in place.
    pub closed spec fn wf(&self) -> bool {
        &&& self.state.log@.len() >= 1
        &&& distinct_strings(self.cluster_nodes@)
        &&& self.election_timeout == ELECTION_TIMEOUT_MS
        &&& self.heartbeat_interval == HEARTBEAT_INTERVAL_MS
    }

    /// A server in term 0 that has voted for nobody, whose log holds only the
    /// genesis barrier (term 0, index 0, stamped `now`).  `cluster_nodes`
    /// is taken as a set: a repeated name counts once.
    pub fn new(node_id: String, cluster_nodes: Vec<String>, now: u64) -> (r: Self)
        ensures
            r.wf(),
            r.node() == node_id@,
            r.raft().current_term == 0,
            r.raft().voted_for is None,
            r.log() == seq![EntryView { term: 0, index: 0, command: CommandView::Barrier { id: "genesis"@ }, timestamp: now }],
            r.raft().commit_index == 0,
            r.raft().last_applied == 0,
            r.raft().next_index@ == Map::<Seq<char>, u64>::empty(),
            r.raft().match_index@ == Map::<Seq<char>, u64>::empty(),
            r.election_timeout_ms() == ELECTION_TIMEOUT_MS,
            forall|s: Seq<char>| #[trigger] contains_text(cluster_nodes@, s) <==> contains_text(r.members(), s),
    {
        let mut log: Vec<LogEntry> = Vec::new();
        log.push(LogEntry {
            term: 0,
            index: 0,
            command: ConsensusCommand::Barrier { id: owned("genesis") },
            timestamp: now,
        });
        let members = distinct_of(cluster_nodes);
        ConsensusManager {
            node_id,
            state: RaftConsensusState {
                current_term: 0,
                voted_for: None,
                log,
                commit_index: 0,
                last_applied: 0,
                next_index: StringMap::new(),
                match_index: StringMap::new(),
            },
            cluster_nodes: members,
            election_timeout: ELECTION_TIMEOUT_MS,
            heartbeat_interval: HEARTBEAT_INTERVAL_MS,
        }
    }

    /// Appends `command` to the log under the current term, stamped with
    /// `timestamp`, and returns its index (the log's length before).
    pub fn propose_command(&mut self, command: ConsensusCommand, timestamp: u64) -> (r: u64)
        requires
            old(self).wf(),
            old(self).log().len() < u64::MAX,
        ensures
            final(self).wf(),
            r == old(self).log().len(),
            final(self).log() == old(self).log().push(
                EntryView { term: old(self).raft().current_term, index: r, command: command@, timestamp },
            ),
            final(self).raft().current_term == old(self).raft().current_term,
            final(self).raft().voted_for == old(self).raft().voted_for,
            final(self).raft().commit_index == old(self).raft().commit_index,
            final(self).raft().last_applied == old(self).raft().last_applied,
            final(self).node() == old(self).node(),
            final(self).members() == old(self).members(),
    {
        let next_index = self.state.log.len() as u64;
        let entry = LogEntry { term: self.state.current_term, index: next_index, command, timestamp };
        self.state.log.push(entry);
        next_index
    }

    /// The barrier that announces the entry at `log_index` to the command
    /// stream: its id is `log_` followed by the index.
    pub fn barrier_for(log_index: u64) -> (r: ConsensusCommand)
        ensures
            r matches ConsensusCommand::Barrier { id } && id@ == "log_"@ + decimal(log_index as nat),
    {
        let mut id = owned("log_");
        push_decimal(&mut id, log_index);
        ConsensusCommand::Barrier { id }
    }

    /// The current leader as this server sees it: the first member of the
    /// cluster, or none when the cluster is empty.
    pub fn get_current_leader(&self) -> (r: Option<String>)
        requires
            self.wf(),
        ensures
            self.members().len() == 0 ==> r is None,
            self.members().len() > 0 ==> r == Some(self.members()[0]),
    {
        if self.cluster_nodes.len() == 0 {
            None
        } else {
            Some(self.cluster_nodes[0].clone())
        }
    }

    /// Whether this server is the designated leader ("node-001").
    pub fn is_leader(&self) -> (r: bool)
        requires
            self.wf(),
        ensures
            r == (self.node() == "node-001"@),
    {
        str_equal(self.node_id.as_str(), "node-001")
    }

    /// The current term.
    pub fn get_current_term(&self) -> (r: u64)
        requires
            self.wf(),
        ensures
            r == self.raft().current_term,
    {
        self.state.current_term
    }

    /// The commit index.
    pub fn get_commit_index(&self) -> (r: u64)
        requires
            self.wf(),
        ensures
            r == self.raft().commit_index,
    {
        self.state.commit_index
    }

    /// The index of the last log entry.
    pub fn get_last_log_index(&self) -> (r: u64)
        requires
            self.wf(),
        ensures
            r == last_index(self.log()),
            r + 1 == self.log().len(),
    {
        (self.state.log.len() - 1) as u64
    }

    /// The term of the last log entry.
    pub fn get_last_log_term(&self) -> (r: u64)
        requires
            self.wf(),
        ensures
            r == last_term(self.log()),
    {
        let n = self.state.log.len();
        self.state.log[n - 1].term
    }

    /// Whether a candidate whose log ends at `candidate_last_log_index` with
    /// term `candidate_last_log_term` is at least as up to date as we are.
    pub fn is_log_up_to_date(&self, candidate_last_log_index: u64, candidate_last_log_term: u64) -> (r: bool)
        requires
            self.wf(),
        ensures
            r == log_up_to_date(self.log(), candidate_last_log_index, candidate_last_log_term),
    {
        let last_log_term = self.get_last_log_term();
        let last_log_index = self.get_last_log_index();
        candidate_last_log_term > last_log_term || (candidate_last_log_term == last_log_term
            && candidate_last_log_index >= last_log_index)
    }

    /// Answers a vote request: a request from an older term is refused; a
    /// newer term is adopted (forgetting our vote); the vote is granted when
    /// we have not voted in this term and the candidate's log is at least as
    /// up to date as ours.  Returns whether the vote was granted and our term.
    pub fn handle_vote_request(
        &mut self,
        candidate_id: &str,
        candidate_term: u64,
        candidate_last_log_index: u64,
        candidate_last_log_term: u64,
    ) -> (r: (bool, u64))
        requires
            old(self).wf(),
        ensures
            final(self).wf(),
            ({
                let o = old(self).raft();
                let f = final(self).raft();
                &&& f.log == o.log
                &&& f.commit_index == o.commit_index
                &&& f.last_applied == o.last_applied
                &&& final(self).node() == old(self).node()
                &&& final(self).members() == old(self).members()
                &&& if candidate_term < o.current_term {
                    &&& r == (false, o.current_term)
                    &&& f.current_term == o.current_term
                    &&& f.voted_for == o.voted_for
                } else {
                    let voted = if candidate_term > o.current_term { None::<String> } else { o.voted_for };
                    let grant = voted is None && log_up_to_date(old(self).log(), candidate_last_log_index, candidate_last_log_term);
                    &&& f.current_term == candidate_term
                    &&& r == (grant, candidate_term)
                    &&& grant ==> (f.voted_for matches Some(c) && c@ == candidate_id@)
                    &&& !grant ==> f.voted_for == voted
                }
            }),
    {
        if candidate_term < self.state.current_term {
            return (false, self.state.current_term);
        }
        if candidate_term > self.state.current_term {
            self.state.current_term = candidate_term;
            self.state.voted_for = None;
        }
        let up_to_date = self.is_log_up_to_date(candidate_last_log_index, candidate_last_log_term);
        let vote_granted = self.state.voted_for.is_none() && up_to_date;
        if vote_granted {
            self.state.voted_for = Some(owned(candidate_id));
        }
        (vote_granted, self.state.current_term)
    }

    /// Answers an append request (which also serves as a heartbeat): a
    /// request from an older term is refused; a newer term is adopted
    /// (forgetting our vote); the request is refused when our log has no
    /// entry at `prev_log_index` with term `prev_log_term` (index 0 always
    /// matches); otherwise the entries are received in order and, when the
    /// leader's commit index is beyond ours, ours moves to the smaller of it
    /// and our last log index.  Returns whether the request was accepted and
    /// our term.
    pub fn handle_append_entries(
        &mut self,
        leader_term: u64,
        leader_id: &str,
        prev_log_index: u64,
        prev_log_term: u64,
        entries: Vec<LogEntry>,
        leader_commit: u64,
    ) -> (r: (bool, u64))
        requires
            old(self).wf(),
        ensures
            final(self).wf(),
            ({
                let o = old(self).raft();
                let f = final(self).raft();
                &&& final(self).node() == old(self).node()
                &&& final(self).members() == old(self).members()
                &&& f.last_applied == o.last_applied
                &&& if leader_term < o.current_term {
                    &&& r == (false, o.current_term)
                    &&& f.current_term == o.current_term
                    &&& f.voted_for == o.voted_for
                    &&& f.log == o.log
                    &&& f.commit_index == o.commit_index
                } else {
                    let voted = if leader_term > o.current_term { None::<String> } else { o.voted_for };
                    &&& f.current_term == leader_term
                    &&& f.voted_for == voted
                    &&& if !prev_entry_matches(old(self).log(), prev_log_index, prev_log_term) {
                        &&& r == (false, leader_term)
                        &&& f.log == o.log
                        &&& f.commit_index == o.commit_index
                    } else {
                        let new_log = receive_entries(old(self).log(), log_view(entries@));
                        &&& r == (true, leader_term)
                        &&& final(self).log() == new_log
                        &&& f.commit_index == if leader_commit > o.commit_index {
                            if leader_commit < last_index(new_log) { leader_commit } else { last_index(new_log) }
                        } else {
                            o.commit_index
                        }
                    }
                }
            }),
    {
        if leader_term < self.state.current_term {
            return (false, self.state.current_term);
        }
        if leader_term > self.state.current_term {
            self.state.current_term = leader_term;
            self.state.voted_for = None;
        }
        if prev_log_index > 0 {
            if prev_log_index < self.state.log.len() as u64 {
                if self.state.log[prev_log_index as usize].term != prev_log_term {
                    return (false, self.state.current_term);
                }
            } else {
                return (false, self.state.current_term);
            }
        }
        let ghost start_log = log_view(self.state.log@);
        let ghost ev = log_view(entries@);
        let mut k: usize = 0;
        while k < entries.len()
            invariant
                k <= entries.len(),
                ev == log_view(entries@),
                log_view(self.state.log@) == receive_entries(start_log, ev.subrange(0, k as int)),
                self.node_id == old(self).node_id,
                self.cluster_nodes == old(self).cluster_nodes,
                self.state.current_term == leader_term,
                self.state.voted_for == (if leader_term > old(self).state.current_term { None::<String> } else { old(self).state.voted_for }),
                self.state.commit_index == old(self).state.commit_index,
                self.state.last_applied == old(self).state.last_applied,
                start_log == old(self).log(),
                self.state.log@.len() >= 1,
                distinct_strings(self.cluster_nodes@),
                self.election_timeout == ELECTION_TIMEOUT_MS,
                self.heartbeat_interval == HEARTBEAT_INTERVAL_MS,
            decreases entries.len() - k,
        {
            let entry = entries[k].duplicate();
            let index = entry.index;
            let ghost before = log_view(self.state.log@);
            let ghost before_raw = self.state.log@;
            if index < self.state.log.len() as u64 {
                if self.state.log[index as usize].term != entry.term {
                    self.state.log.truncate(index as usize);
                }
            }
            if index >= self.state.log.len() as u64 {
                self.state.log.push(entry);
            }
            proof {
                let sub = ev.subrange(0, k + 1);
                assert(sub.drop_last() =~= ev.subrange(0, k as int));
                assert(sub.last() == ev[k as int]);
                assert(log_view(self.state.log@) =~= receive_entry(before, ev[k as int]));
            }
            k = k + 1;
        }
        proof {
            assert(ev.subrange(0, ev.len() as int) =~= ev);
        }
        if leader_commit > self.state.commit_index {
            let last = (self.state.log.len() - 1) as u64;
            self.state.commit_index = if leader_commit < last { leader_commit } else { last };
        }
        (true, self.state.current_term)
    }

    /// Applies the committed entries not yet applied: moves the applied index
    /// up to the commit index and returns, in order, the commands of the
    /// entries passed over that the log holds.
    pub fn apply_committed_entries(&mut self) -> (r: Vec<ConsensusCommand>)
        requires
            old(self).wf(),
        ensures
            final(self).wf(),
            ({
                let o = old(self).raft();
                let f = final(self).raft();
                &&& f.current_term == o.current_term
                &&& f.voted_for == o.voted_for
                &&& f.log == o.log
                &&& f.commit_index == o.commit_index
                &&& f.last_applied == if o.last_applied < o.commit_index { o.commit_index } else { o.last_applied }
                &&& command_views(r@) == committed_commands(old(self).log(), o.last_applied as nat, f.last_applied as nat)
            }),
            final(self).node() == old(self).node(),
            final(self).members() == old(self).members(),
    {
        let mut applied: Vec<ConsensusCommand> = Vec::new();
        let ghost start = self.state.last_applied;
        while self.state.last_applied < self.state.commit_index
            invariant
                start <= self.state.last_applied,
                start < old(self).raft().commit_index ==> self.state.last_applied <= old(self).raft().commit_index,
                start >= old(self).raft().commit_index ==> self.state.last_applied == start,
                self.state.commit_index == old(self).raft().commit_index,
                self.state.log == old(self).raft().log,
                self.state.current_term == old(self).raft().current_term,
                self.state.voted_for == old(self).raft().voted_for,
                start == old(self).raft().last_applied,
                command_views(applied@) == committed_commands(log_view(self.state.log@), start as nat, self.state.last_applied as nat),
                self.node_id == old(self).node_id,
                self.cluster_nodes == old(self).cluster_nodes,
                self.election_timeout == old(self).election_timeout,
                self.heartbeat_interval == old(self).heartbeat_interval,
                self.state.log@.len() >= 1,
                distinct_strings(self.cluster_nodes@),
                self.election_timeout == ELECTION_TIMEOUT_MS,
                self.heartbeat_interval == HEARTBEAT_INTERVAL_MS,
            decreases self.state.commit_index - self.state.last_applied,
        {
            self.state.last_applied = self.state.last_applied + 1;
            let i = self.state.last_applied;
            if i < self.state.log.len() as u64 {
                let c = self.state.log[i as usize].command.duplicate();
                applied.push(c);
            }
        }
        applied
    }

    /// Starts a new election round: the term goes up by one and this server
    /// votes for itself.
    pub fn force_election(&mut self)
        requires
            old(self).wf(),
            old(self).raft().current_term < u64::MAX,
        ensures
            final(self).wf(),
            final(self).raft().current_term == old(self).raft().current_term + 1,
            final(self).raft().voted_for matches Some(v) && v@ == old(self).node(),
            final(self).raft().log == old(self).raft().log,
            final(self).raft().commit_index == old(self).raft().commit_index,
            final(self).raft().last_applied == old(self).raft().last_applied,
            final(self).node() == old(self).node(),
            final(self).members() == old(self).members(),
    {
        self.state.current_term = self.state.current_term + 1;
        self.state.voted_for = Some(self.node_id.clone());
    }

    /// The delay before this server starts an election: the base timeout plus
    /// a random share of it, so that servers do not time out together.
    pub fn election_delay_ms(&self) -> (r: u64)
        requires
            self.wf(),
        ensures
            self.election_timeout_ms() <= r < 2 * self.election_timeout_ms(),
    {
        let jitter = crate::ambient::random_u64() % self.election_timeout;
        self.election_timeout + jitter
    }

    /// A summary of the consensus state.
    pub fn get_consensus_stats(&self) -> (r: ConsensusStats)
        requires
            self.wf(),
        ensures
            r.current_term == self.raft().current_term,
            r.commit_index == self.raft().commit_index,
            r.last_applied == self.raft().last_applied,
            r.log_size == self.log().len(),
            r.is_leader == (self.node() == "node-001"@),
            r.cluster_size == self.members().len(),
    {
        ConsensusStats {
            current_term: self.state.current_term,
            commit_index: self.state.commit_index,
            last_applied: self.state.last_applied,
            log_size: self.state.log.len(),
            is_leader: self.is_leader(),
            cluster_size: self.cluster_nodes.len(),
        }
    }
}

/// The strings of `v` with later repeats dropped, in first-seen order.
pub fn distinct_of(v: Vec<String>) -> (r: Vec<String>)
    ensures
        distinct_strings(r@),
        forall|s: Seq<char>| #[trigger] contains_text(v@, s) <==> contains_text(r@, s),
{
    let mut out: Vec<String> = Vec::new();
    let mut i: usize = 0;
    while i < v.len()
        invariant
            i <= v.len(),
            distinct_strings(out@),
            forall|s: Seq<char>| #[trigger] contains_text(v@.subrange(0, i as int), s) <==> contains_text(out@, s),
        decreases v.len() - i,
    {
        let mut seen = false;
        let mut j: usize = 0;
        while j < out.len()
            invariant
                i < v.len(),
                j <= out.len(),
                seen == contains_text(out@.subrange(0, j as int), v@[i as int]@),
            decreases out.len() - j,
        {
            proof {
                let a = out@.subrange(0, j as int);
                let b = out@.subrange(0, j + 1);
                assert(b.drop_last() =~= a);
                if contains_text(b, v@[i as int]@) {
                    let x = choose|x: int| 0 <= x < b.len() && #[trigger] b[x]@ == v@[i as int]@;
                    if x < a.len() {
                        assert(a[x] == b[x]);
                    }
                }
                if contains_text(a, v@[i as int]@) {
                    let x = choose|x: int| 0 <= x < a.len() && #[trigger] a[x]@ == v@[i as int]@;
                    assert(b[x] == a[x]);
                }
            }
            if str_equal(out[j].as_str(), v[i].as_str()) {
                seen = true;
                assert(out@.subrange(0, j + 1)[j as int] == out@[j as int]);
            }
            j = j + 1;
        }
        assert(out@.subrange(0, out@.len() as int) =~= out@);
        let ghost before = out@;
        if !seen {
            out.push(v[i].clone());
        }
        proof {
            let pre = v@.subrange(0, i as int);
            let post = v@.subrange(0, i + 1);
            assert(post.drop_last() =~= pre);
            assert forall|s: Seq<char>| #[trigger] contains_text(post, s) <==> contains_text(out@, s) by {
                if contains_text(post, s) {
                    let a = choose|a: int| 0 <= a < post.len() && #[trigger] post[a]@ == s;
                    if a < pre.len() {
                        assert(pre[a] == post[a]);
                        assert(contains_text(pre, s));
                        assert(contains_text(before, s));
                        let x = choose|x: int| 0 <= x < before.len() && #[trigger] before[x]@ == s;
                        assert(out@[x] == before[x]);
                    } else if seen {
                        let x = choose|x: int| 0 <= x < before.len() && #[trigger] before[x]@ == v@[i as int]@;
                        assert(out@[x] == before[x]);
                    } else {
                        assert(out@[before.len() as int]@ == s);
                    }
                }
                if contains_text(out@, s) {
                    let x = choose|x: int| 0 <= x < out@.len() && #[trigger] out@[x]@ == s;
                    if x < before.len() {
                        assert(before[x] == out@[x]);
                        assert(contains_text(pre, s));
                        let a = choose|a: int| 0 <= a < pre.len() && #[trigger] pre[a]@ == s;
                        assert(post[a] == pre[a]);
                    } else {
                        assert(post[i as int] == v@[i as int]);
                    }
                }
            }
            if !seen {
                assert forall|a: int, b: int|
                    0 <= a < out@.len() && 0 <= b < out@.len() && a != b implies #[trigger] out@[a]@
                    != #[trigger] out@[b]@ by {
                    if a < before.len() && b < before.len() {
                        assert(out@[a] == before[a] && out@[b] == before[b]);
                    } else if a < before.len() {
                        assert(out@[a] == before[a]);
                    } else {
                        assert(out@[b] == before[b]);
                    }
                }
            }
        }
        i = i + 1;
    }
    assert(v@.subrange(0, v@.len() as int) =~= v@);
    out
}

/// Law (log replication): when a follower accepts entries whose indices run
/// on from `prev + 1`, and its log reaches `prev`, then afterwards every one
/// of them sits at its own index with its own term, and the log up to
/// `prev` is untouched.  (An entry already held with the same term is
/// kept as it was.)
pub proof fn law_received_entries_in_place(log: Seq<EntryView>, prev: u64, entries: Seq<EntryView>)
    requires
        prev < log.len(),
        forall|k: int| 0 <= k < entries.len() ==> #[trigger] entries[k].index == prev + 1 + k,
    ensures
        receive_entries(log, entries).len() >= prev + 1 + entries.len(),
        forall|k: int|
            0 <= k < entries.len() ==> #[trigger] receive_entries(log, entries)[prev + 1 + k].term
                == entries[k].term,
        forall|j: int| 0 <= j <= prev ==> #[trigger] receive_entries(log, entries)[j] == log[j],
    decreases entries.len(),
{
    if entries.len() > 0 {
        let init = entries.drop_last();
        law_received_entries_in_place(log, prev, init);
        let l0 = receive_entries(log, init);
        let e = entries.last();
        let n = entries.len() - 1;
        assert(e.index == prev + 1 + n);
        let l1 = receive_entry(l0, e);
        assert(l1 == receive_entries(log, entries));
        assert forall|k: int| 0 <= k < entries.len() implies #[trigger] l1[prev + 1 + k].term
            == entries[k].term by {
            if k < n {
                assert(init[k] == entries[k]);
                assert(l0[prev + 1 + k].term == init[k].term);
            }
        }
    }
}

/// Law (proposal): the entry a leader proposes becomes the last of its log,
/// at the index that the proposal returned, with the leader's term.
pub proof fn law_proposed_entry_is_last(log: Seq<EntryView>, e: EntryView)
    requires
        log.len() < u64::MAX,
    ensures
        last_index(log.push(e)) == log.len(),
        last_term(log.push(e)) == e.term,
        log.push(e)[log.len() as int] == e,
{
}

/// Law (state machine application): when the commit point lies within the
/// log, applying takes exactly the entries after the applied point up to
/// the commit point, one command per entry, in log order.
pub proof fn law_applied_commands_are_log_suffix(log: Seq<EntryView>, from: nat, to: nat)
    requires
        from <= to,
        to < log.len(),
    ensures
        committed_commands(log, from, to).len() == to - from,
        forall|k: int|
            0 <= k < to - from ==> #[trigger] committed_commands(log, from, to)[k] == log[from + 1
                + k].command,
    decreases to - from,
{
    if from < to {
        law_applied_commands_are_log_suffix(log, from, (to - 1) as nat);
        let rest = committed_commands(log, from, (to - 1) as nat);
        assert(committed_commands(log, from, to) == rest.push(log[to as int].command));
    }
}


/// Law (applying is idempotent): once the committed entries are applied,
/// the applied index stays where it is and applying again yields no
/// commands, until the commit index moves.
pub proof fn law_second_apply_is_empty(log: Seq<EntryView>, last_applied: u64, commit_index: u64)
    ensures
        ({
            let after = if last_applied < commit_index { commit_index } else { last_applied };
            &&& (if after < commit_index { commit_index } else { after }) == after
            &&& committed_commands(log, after as nat, after as nat).len() == 0
        }),
{
}


/// Law (election restriction): a candidate whose last log term is older
/// than the voter's last log term is never up to date, whatever the log
/// lengths; one whose last term is newer always is; with equal last terms
/// the longer (or equal) log is.
pub proof fn law_up_to_date_compares_terms_first(log: Seq<EntryView>, cand_last_index: u64, cand_last_term: u64)
    requires
        0 < log.len() <= u64::MAX,
    ensures
        cand_last_term < last_term(log) ==> !log_up_to_date(log, cand_last_index, cand_last_term),
        cand_last_term > last_term(log) ==> log_up_to_date(log, cand_last_index, cand_last_term),
        cand_last_term == last_term(log) ==> (log_up_to_date(log, cand_last_index, cand_last_term) <==> cand_last_index
            >= log.len() - 1),
{
}

} // verus!
