//! Property graphs: nodes and relationships with labels, types, properties
//! and embeddings, with indexes by label, by type and by adjacency.
//! Floating-point property values and embeddings are held as the bits of
//! their IEEE-754 encodings.

use std::collections::HashMap;
use vstd::prelude::*;
use crate::ambient::{system_clock_nanos, to_lowercase, utc_now_seconds, lowercase_text};
use crate::text::{StringMap, contains_seq, contains_text, owned, str_equal, strings_contain, text_contains};

verus! {

broadcast use vstd::std_specs::hash::group_hash_axioms;

/// A node's identifier.
#[derive(Debug, Clone, Copy, PartialEq, Eq, Structural, Hash, PartialOrd, Ord)]
pub struct NodeId(pub u64);

/// A relationship's identifier.
#[derive(Debug, Clone, Copy, PartialEq, Eq, Structural, Hash, PartialOrd, Ord)]
pub struct RelationshipId(pub u64);

/// Graph traversal direction.
#[derive(Debug, Clone, Copy, PartialEq, Eq, Structural)]
pub enum Direction {
    Outgoing,
    Incoming,
    Both,
}

/// Graph algorithms.
#[derive(Debug, Clone, Copy, PartialEq, Eq, Structural)]
pub enum GraphAlgorithm {
    PageRank,
    BetweennessCentrality,
    ClosenessCentrality,
    CommunityDetection,
}

/// Path finding algorithms.
#[derive(Debug, Clone, Copy, PartialEq, Eq, Structural)]
pub enum PathAlgorithm {
    Dijkstra,
    AStar,
    Bidirectional,
}

/// A property value.  A float is kept as the bits of its `f64`, a vector as
/// the bits of its `f32` components.
#[derive(Debug, PartialEq)]
pub enum PropertyValue {
    String(String),
    Integer(i64),
    Float(u64),
    Boolean(bool),
    Vector(Vec<u32>),
    List(Vec<PropertyValue>),
    MapValue(Vec<(String, PropertyValue)>),
}

/// A node of the graph.
#[derive(Debug)]
pub struct Node {
    pub id: NodeId,
    pub labels: Vec<String>,
    pub properties: StringMap<PropertyValue>,
    /// The bits of the `f32` components.
    pub embedding: Option<Vec<u32>>,
    pub created_at: i64,
    pub updated_at: i64,
}

/// A relationship between two nodes.
#[derive(Debug)]
pub struct Relationship {
    pub id: RelationshipId,
    pub rel_type: String,
    pub start_node: NodeId,
    pub end_node: NodeId,
    pub properties: StringMap<PropertyValue>,
    /// The bits of the `f32` components.
    pub embedding: Option<Vec<u32>>,
    pub direction: Direction,
    pub created_at: i64,
    pub updated_at: i64,
}

/// Graph counters.
#[derive(Debug, Clone, Copy, PartialEq, Eq, Structural)]
pub struct GraphStatistics {
    pub node_count: usize,
    pub relationship_count: usize,
    pub label_count: usize,
    pub relationship_type_count: usize,
    /// In thousandths.
    pub average_degree_thousandths: u64,
    pub connected_components: usize,
}

/// Why a graph operation failed.
#[derive(Debug, Clone, PartialEq)]
pub enum GraphError {
    InvalidArgument(String),
    /// The system clock reads a time before the Unix epoch.
    ClockBeforeEpoch,
}

/// What a graph query asks for.
#[derive(Debug, Clone, Copy, PartialEq, Eq, Structural)]
pub enum GraphQueryKind {
    Match,
    ShortestPath,
    VectorSimilarity,
}

/// `s` with `x` added at the end unless it is there already.
pub open spec fn add_unique(s: Seq<u64>, x: u64) -> Seq<u64> {
    if s.contains(x) {
        s
    } else {
        s.push(x)
    }
}

/// The members listed under a key of an index (none for a missing key).
pub open spec fn index_members(m: Map<Seq<char>, Vec<u64>>, k: Seq<char>) -> Seq<u64> {
    if m.contains_key(k) {
        m[k]@
    } else {
        Seq::empty()
    }
}

/// The ids of a list of nodes.
pub open spec fn node_id_seq(ids: Seq<NodeId>) -> Seq<u64> {
    ids.map_values(|n: NodeId| n.0)
}

/// The entries of an adjacency log for a node, in order.
pub open spec fn entries_for(log: Seq<(u64, u64, Direction)>, node: u64) -> Seq<(u64, Direction)>
    decreases log.len(),
{
    if log.len() == 0 {
        Seq::empty()
    } else if log.last().0 == node {
        entries_for(log.drop_last(), node).push((log.last().1, log.last().2))
    } else {
        entries_for(log.drop_last(), node)
    }
}

/// The ids, in order, whose node in `m` carries the label `label`.
pub open spec fn labelled(order: Seq<u64>, m: Map<u64, Node>, label: Seq<char>) -> Seq<u64>
    decreases order.len(),
{
    if order.len() == 0 {
        Seq::empty()
    } else if contains_text(m[order.last()].labels@, label) {
        labelled(order.drop_last(), m, label).push(order.last())
    } else {
        labelled(order.drop_last(), m, label)
    }
}

/// The ids, in order, whose relationship in `m` has the type `rel_type`.
pub open spec fn typed(order: Seq<u64>, m: Map<u64, Relationship>, rel_type: Seq<char>) -> Seq<u64>
    decreases order.len(),
{
    if order.len() == 0 {
        Seq::empty()
    } else if m[order.last()].rel_type@ == rel_type {
        typed(order.drop_last(), m, rel_type).push(order.last())
    } else {
        typed(order.drop_last(), m, rel_type)
    }
}

/// The kind of a query from its lowercase text: a MATCH query, a shortest
/// path query or a similarity query, tried in that order.
pub open spec fn query_kind_of(lower: Seq<char>) -> Option<GraphQueryKind> {
    if contains_seq(lower, "match"@) {
        Some(GraphQueryKind::Match)
    } else if contains_seq(lower, "shortestpath"@) {
        Some(GraphQueryKind::ShortestPath)
    } else if contains_seq(lower, "similar"@) {
        Some(GraphQueryKind::VectorSimilarity)
    } else {
        None
    }
}

/// A property graph.
#[derive(Debug)]
pub struct PropertyGraph {
    nodes: HashMap<u64, Node>,
    /// Node ids in the order they were first created.
    node_order: Vec<u64>,
    relationships: HashMap<u64, Relationship>,
    /// Relationship ids in the order they were first created.
    relationship_order: Vec<u64>,
    /// Outgoing entries `(node, relationship, direction)`, in order.
    adjacency_list: Vec<(u64, u64, Direction)>,
    /// Incoming entries `(node, relationship, direction)`, in order.
    reverse_adjacency: Vec<(u64, u64, Direction)>,
    /// Node ids by label.
    node_labels: StringMap<Vec<u64>>,
    /// Relationship ids by type.
    relationship_types: StringMap<Vec<u64>>,
    stats: GraphStatistics,
}

impl PropertyGraph {
    /// The nodes by id.
    pub closed spec fn node_map(&self) -> Map<u64, Node> {
        self.nodes@
    }

    /// The node ids in the order they were first created.
    pub closed spec fn node_order_seq(&self) -> Seq<u64> {
        self.node_order@
    }

    /// The relationships by id.
    pub closed spec fn relationship_map(&self) -> Map<u64, Relationship> {
        self.relationships@
    }

    /// The relationship ids in the order they were first created.
    pub closed spec fn relationship_order_seq(&self) -> Seq<u64> {
        self.relationship_order@
    }

    /// The outgoing adjacency entries, in the order they were made.
    pub closed spec fn outgoing_log(&self) -> Seq<(u64, u64, Direction)> {
        self.adjacency_list@
    }

    /// The incoming adjacency entries, in the order they were made.
    pub closed spec fn incoming_log(&self) -> Seq<(u64, u64, Direction)> {
        self.reverse_adjacency@
    }

    /// The node ids listed under a label, in the order they were added.
    pub closed spec fn label_members(&self, label: Seq<char>) -> Seq<u64> {
        index_members(self.node_labels@, label)
    }

    /// The relationship ids listed under a type, in the order they were
    /// added.
    pub closed spec fn type_members(&self, rel_type: Seq<char>) -> Seq<u64> {
        index_members(self.relationship_types@, rel_type)
    }

    /// The counters.
    pub closed spec fn stats_view(&self) -> GraphStatistics {
        self.stats
    }

    /// The creation orders list each id once, and exactly the ids present.
    pub closed spec fn wf(&self) -> bool {
        &&& self.node_order@.no_duplicates()
        &&& forall|id: u64| #[trigger] self.nodes@.contains_key(id) <==> self.node_order@.contains(id)
        &&& self.relationship_order@.no_duplicates()
        &&& forall|id: u64| #[trigger] self.relationships@.contains_key(id) <==> self.relationship_order@.contains(id)
    }

    /// An empty graph with zero counters.
    pub fn new() -> (r: Self)
        ensures
            r.wf(),
            r.node_map() == Map::<u64, Node>::empty(),
            r.node_order_seq().len() == 0,
            r.relationship_map() == Map::<u64, Relationship>::empty(),
            r.relationship_order_seq().len() == 0,
            r.outgoing_log().len() == 0,
            r.incoming_log().len() == 0,
            forall|l: Seq<char>| #[trigger] r.label_members(l).len() == 0,
            forall|t: Seq<char>| #[trigger] r.type_members(t).len() == 0,
            r.stats_view() == (GraphStatistics {
                node_count: 0,
                relationship_count: 0,
                label_count: 0,
                relationship_type_count: 0,
                average_degree_thousandths: 0,
                connected_components: 0,
            }),
    {
        PropertyGraph {
            nodes: HashMap::new(),
            node_order: Vec::new(),
            relationships: HashMap::new(),
            relationship_order: Vec::new(),
            adjacency_list: Vec::new(),
            reverse_adjacency: Vec::new(),
            node_labels: StringMap::new(),
            relationship_types: StringMap::new(),
            stats: GraphStatistics {
                node_count: 0,
                relationship_count: 0,
                label_count: 0,
                relationship_type_count: 0,
                average_degree_thousandths: 0,
                connected_components: 0,
            },
        }
    }

    /// Creates node `id` at time `now` (seconds since the Unix epoch) with
    /// its labels, properties and embedding: a node already under `id` is
    /// replaced, `id` is listed under each of its labels, and the node
    /// count goes up by one.
    pub fn create_node_at(
        &mut self,
        id: u64,
        now: i64,
        labels: Vec<String>,
        properties: StringMap<PropertyValue>,
        embedding: Option<Vec<u32>>,
    ) -> (r: NodeId)
        requires
            old(self).wf(),
            old(self).stats_view().node_count < usize::MAX,
        ensures
            final(self).wf(),
            r == NodeId(id),
            final(self).node_map() == old(self).node_map().insert(
                id,
                (Node {
                    id: NodeId(id),
                    labels,
                    properties,
                    embedding,
                    created_at: now,
                    updated_at: now,
                }),
            ),
            final(self).node_order_seq() == add_unique(old(self).node_order_seq(), id),
            forall|l: Seq<char>| #[trigger] final(self).label_members(l) == if contains_text(labels@, l) {
                add_unique(old(self).label_members(l), id)
            } else {
                old(self).label_members(l)
            },
            final(self).relationship_map() == old(self).relationship_map(),
            final(self).relationship_order_seq() == old(self).relationship_order_seq(),
            final(self).outgoing_log() == old(self).outgoing_log(),
            final(self).incoming_log() == old(self).incoming_log(),
            forall|t: Seq<char>| #[trigger] final(self).type_members(t) == old(self).type_members(t),
            final(self).stats_view() == (GraphStatistics {
                node_count: (old(self).stats_view().node_count + 1) as usize,
                ..old(self).stats_view()
            }),
    {
        let mut i: usize = 0;
        while i < labels.len()
            invariant
                i <= labels@.len(),
                forall|l: Seq<char>| #[trigger] index_members(self.node_labels@, l) == if contains_text(
                    labels@.subrange(0, i as int),
                    l,
                ) {
                    add_unique(index_members(old(self).node_labels@, l), id)
                } else {
                    index_members(old(self).node_labels@, l)
                },
                self.nodes == old(self).nodes,
                self.node_order == old(self).node_order,
                self.relationships == old(self).relationships,
                self.relationship_order == old(self).relationship_order,
                self.adjacency_list == old(self).adjacency_list,
                self.reverse_adjacency == old(self).reverse_adjacency,
                self.relationship_types == old(self).relationship_types,
                self.stats == old(self).stats,
            decreases labels@.len() - i,
        {
            let ghost before = self.node_labels@;
            index_add(&mut self.node_labels, labels[i].as_str(), id);
            proof {
                let pre = labels@.subrange(0, i as int);
                let post = labels@.subrange(0, i + 1);
                assert forall|l: Seq<char>| #[trigger] contains_text(post, l) == (contains_text(pre, l) || l
                    == labels@[i as int]@) by {
                    if contains_text(pre, l) {
                        let j = choose|j: int| 0 <= j < pre.len() && #[trigger] pre[j]@ == l;
                        assert(post[j] == pre[j]);
                    }
                    if l == labels@[i as int]@ {
                        assert(post[i as int] == labels@[i as int]);
                    }
                    if contains_text(post, l) {
                        let j = choose|j: int| 0 <= j < post.len() && #[trigger] post[j]@ == l;
                        if j < i {
                            assert(pre[j] == post[j]);
                        }
                    }
                }
                assert forall|l: Seq<char>| #[trigger] index_members(self.node_labels@, l) == if contains_text(
                    post,
                    l,
                ) {
                    add_unique(index_members(old(self).node_labels@, l), id)
                } else {
                    index_members(old(self).node_labels@, l)
                } by {
                    assert(index_members(self.node_labels@, l) == if l == labels@[i as int]@ {
                        add_unique(index_members(before, l), id)
                    } else {
                        index_members(before, l)
                    });
                    let o = index_members(old(self).node_labels@, l);
                    assert(index_members(before, l) == if contains_text(pre, l) {
                        add_unique(o, id)
                    } else {
                        o
                    });
                    if !o.contains(id) {
                        assert(o.push(id)[o.len() as int] == id);
                        assert(o.push(id).contains(id));
                    }
                }
            }
            i = i + 1;
        }
        assert(labels@.subrange(0, labels@.len() as int) =~= labels@);
        let node = Node { id: NodeId(id), labels, properties, embedding, created_at: now, updated_at: now };
        let had = self.nodes.contains_key(&id);
        self.nodes.insert(id, node);
        if !had {
            self.node_order.push(id);
        }
        self.stats.node_count = self.stats.node_count + 1;
        proof {
            assert forall|k: u64| #[trigger] self.nodes@.contains_key(k) <==> self.node_order@.contains(k) by {
                if !had && k == id {
                    assert(self.node_order@[self.node_order@.len() - 1] == id);
                }
                if !had && self.node_order@.contains(k) && k != id {
                    let j = choose|j: int| 0 <= j < self.node_order@.len() && self.node_order@[j] == k;
                    assert(old(self).node_order@[j] == k);
                }
                if !had && old(self).node_order@.contains(k) {
                    let j = choose|j: int| 0 <= j < old(self).node_order@.len() && old(self).node_order@[j] == k;
                    assert(self.node_order@[j] == k);
                }
            }
            if !had {
                assert(!old(self).node_order@.contains(id));
            }
        }
        NodeId(id)
    }

    /// Creates relationship `id` of type `rel_type` from `start_node` to
    /// `end_node` at time `now` (seconds since the Unix epoch), when both
    /// nodes exist: a relationship already under `id` is replaced, the
    /// adjacency lists of both ends get an entry, `id` is listed under its
    /// type, and the relationship count goes up by one.  Otherwise the graph
    /// is left as it was and the call fails.
    pub fn create_relationship_at(
        &mut self,
        id: u64,
        now: i64,
        start_node: NodeId,
        end_node: NodeId,
        rel_type: String,
        properties: StringMap<PropertyValue>,
        embedding: Option<Vec<u32>>,
    ) -> (r: Result<RelationshipId, GraphError>)
        requires
            old(self).wf(),
            old(self).stats_view().relationship_count < usize::MAX,
        ensures
            final(self).wf(),
            !(old(self).node_map().contains_key(start_node.0) && old(self).node_map().contains_key(end_node.0)) ==> {
                &&& r matches Err(GraphError::InvalidArgument(m)) && m@ == "Start or end node does not exist"@
                &&& *final(self) == *old(self)
            },
            (old(self).node_map().contains_key(start_node.0) && old(self).node_map().contains_key(end_node.0)) ==> {
                &&& r == Ok::<RelationshipId, GraphError>(RelationshipId(id))
                &&& final(self).relationship_map() == old(self).relationship_map().insert(
                    id,
                    (Relationship {
                        id: RelationshipId(id),
                        rel_type,
                        start_node,
                        end_node,
                        properties,
                        embedding,
                        direction: Direction::Outgoing,
                        created_at: now,
                        updated_at: now,
                    }),
                )
                &&& final(self).relationship_order_seq() == add_unique(old(self).relationship_order_seq(), id)
                &&& final(self).outgoing_log() == old(self).outgoing_log().push((start_node.0, id, Direction::Outgoing))
                &&& final(self).incoming_log() == old(self).incoming_log().push((end_node.0, id, Direction::Incoming))
                &&& forall|t: Seq<char>| #[trigger] final(self).type_members(t) == if t == rel_type@ {
                    add_unique(old(self).type_members(t), id)
                } else {
                    old(self).type_members(t)
                }
                &&& final(self).node_map() == old(self).node_map()
                &&& final(self).node_order_seq() == old(self).node_order_seq()
                &&& forall|l: Seq<char>| #[trigger] final(self).label_members(l) == old(self).label_members(l)
                &&& final(self).stats_view() == (GraphStatistics {
                    relationship_count: (old(self).stats_view().relationship_count + 1) as usize,
                    ..old(self).stats_view()
                })
            },
    {
        if !self.nodes.contains_key(&start_node.0) || !self.nodes.contains_key(&end_node.0) {
            return Err(GraphError::InvalidArgument(owned("Start or end node does not exist")));
        }
        index_add(&mut self.relationship_types, rel_type.as_str(), id);
        let rel = Relationship {
            id: RelationshipId(id),
            rel_type,
            start_node,
            end_node,
            properties,
            embedding,
            direction: Direction::Outgoing,
            created_at: now,
            updated_at: now,
        };
        let had = self.relationships.contains_key(&id);
        self.relationships.insert(id, rel);
        if !had {
            self.relationship_order.push(id);
        }
        self.adjacency_list.push((start_node.0, id, Direction::Outgoing));
        self.reverse_adjacency.push((end_node.0, id, Direction::Incoming));
        self.stats.relationship_count = self.stats.relationship_count + 1;
        proof {
            assert forall|k: u64| #[trigger] self.relationships@.contains_key(k) <==> self.relationship_order@.contains(k) by {
                if !had && k == id {
                    assert(self.relationship_order@[self.relationship_order@.len() - 1] == id);
                }
                if !had && self.relationship_order@.contains(k) && k != id {
                    let j = choose|j: int| 0 <= j < self.relationship_order@.len() && self.relationship_order@[j] == k;
                    assert(old(self).relationship_order@[j] == k);
                }
                if !had && old(self).relationship_order@.contains(k) {
                    let j = choose|j: int| 0 <= j < old(self).relationship_order@.len() && old(self).relationship_order@[j] == k;
                    assert(self.relationship_order@[j] == k);
                }
            }
            if !had {
                assert(!old(self).relationship_order@.contains(id));
            }
        }
        Ok(RelationshipId(id))
    }

    /// Creates a node now: its id is the system clock in nanoseconds, its
    /// times the clock in seconds (see `create_node_at`).  Fails, leaving
    /// the graph as it was, when the clock reads a time before the Unix
    /// epoch.
    pub fn create_node(
        &mut self,
        labels: Vec<String>,
        properties: StringMap<PropertyValue>,
        embedding: Option<Vec<u32>>,
    ) -> (r: Result<NodeId, GraphError>)
        requires
            old(self).wf(),
            old(self).stats_view().node_count < usize::MAX,
        ensures
            final(self).wf(),
            match r {
                Ok(n) => {
                    let now = final(self).node_map()[n.0].created_at;
                    &&& final(self).node_map() == old(self).node_map().insert(
                        n.0,
                        (Node { id: n, labels, properties, embedding, created_at: now, updated_at: now }),
                    )
                    &&& final(self).node_order_seq() == add_unique(old(self).node_order_seq(), n.0)
                    &&& forall|l: Seq<char>| #[trigger] final(self).label_members(l) == if contains_text(labels@, l) {
                        add_unique(old(self).label_members(l), n.0)
                    } else {
                        old(self).label_members(l)
                    }
                    &&& final(self).relationship_map() == old(self).relationship_map()
                    &&& final(self).relationship_order_seq() == old(self).relationship_order_seq()
                    &&& final(self).outgoing_log() == old(self).outgoing_log()
                    &&& final(self).incoming_log() == old(self).incoming_log()
                    &&& forall|t: Seq<char>| #[trigger] final(self).type_members(t) == old(self).type_members(t)
                    &&& final(self).stats_view() == (GraphStatistics {
                        node_count: (old(self).stats_view().node_count + 1) as usize,
                        ..old(self).stats_view()
                    })
                },
                Err(e) => e == GraphError::ClockBeforeEpoch && *final(self) == *old(self),
            },
    {
        let id = match system_clock_nanos() {
            Some(t) => t,
            None => return Err(GraphError::ClockBeforeEpoch),
        };
        let now = utc_now_seconds();
        Ok(self.create_node_at(id, now, labels, properties, embedding))
    }

    /// Creates a relationship now (see `create_relationship_at`): fails when
    /// either node is missing; else its id is the system clock in
    /// nanoseconds and its times the clock in seconds, and it fails when the
    /// clock reads a time before the Unix epoch.  A failure leaves the graph
    /// as it was.
    pub fn create_relationship(
        &mut self,
        start_node: NodeId,
        end_node: NodeId,
        rel_type: String,
        properties: StringMap<PropertyValue>,
        embedding: Option<Vec<u32>>,
    ) -> (r: Result<RelationshipId, GraphError>)
        requires
            old(self).wf(),
            old(self).stats_view().relationship_count < usize::MAX,
        ensures
            final(self).wf(),
            !(old(self).node_map().contains_key(start_node.0) && old(self).node_map().contains_key(end_node.0)) ==> {
                &&& r matches Err(GraphError::InvalidArgument(m)) && m@ == "Start or end node does not exist"@
                &&& *final(self) == *old(self)
            },
            (old(self).node_map().contains_key(start_node.0) && old(self).node_map().contains_key(end_node.0)) ==> match r {
                Ok(rid) => {
                    let now = final(self).relationship_map()[rid.0].created_at;
                    &&& final(self).relationship_map() == old(self).relationship_map().insert(
                        rid.0,
                        (Relationship {
                            id: rid,
                            rel_type,
                            start_node,
                            end_node,
                            properties,
                            embedding,
                            direction: Direction::Outgoing,
                            created_at: now,
                            updated_at: now,
                        }),
                    )
                    &&& final(self).relationship_order_seq() == add_unique(old(self).relationship_order_seq(), rid.0)
                    &&& final(self).outgoing_log() == old(self).outgoing_log().push((start_node.0, rid.0, Direction::Outgoing))
                    &&& final(self).incoming_log() == old(self).incoming_log().push((end_node.0, rid.0, Direction::Incoming))
                    &&& forall|t: Seq<char>| #[trigger] final(self).type_members(t) == if t == rel_type@ {
                        add_unique(old(self).type_members(t), rid.0)
                    } else {
                        old(self).type_members(t)
                    }
                    &&& final(self).node_map() == old(self).node_map()
                    &&& final(self).node_order_seq() == old(self).node_order_seq()
                    &&& forall|l: Seq<char>| #[trigger] final(self).label_members(l) == old(self).label_members(l)
                    &&& final(self).stats_view() == (GraphStatistics {
                        relationship_count: (old(self).stats_view().relationship_count + 1) as usize,
                        ..old(self).stats_view()
                    })
                },
                Err(e) => e == GraphError::ClockBeforeEpoch && *final(self) == *old(self),
            },
    {
        if !self.nodes.contains_key(&start_node.0) || !self.nodes.contains_key(&end_node.0) {
            return Err(GraphError::InvalidArgument(owned("Start or end node does not exist")));
        }
        let id = match system_clock_nanos() {
            Some(t) => t,
            None => return Err(GraphError::ClockBeforeEpoch),
        };
        let now = utc_now_seconds();
        self.create_relationship_at(id, now, start_node, end_node, rel_type, properties, embedding)
    }

    /// The counters.
    pub fn statistics(&self) -> (r: &GraphStatistics)
        ensures
            *r == self.stats_view(),
    {
        &self.stats
    }

    /// Whether a node has the id.
    pub fn contains_node(&self, id: NodeId) -> (r: bool)
        ensures
            r == self.node_map().contains_key(id.0),
    {
        self.nodes.contains_key(&id.0)
    }

    /// Whether a relationship has the id.
    pub fn contains_relationship(&self, id: RelationshipId) -> (r: bool)
        ensures
            r == self.relationship_map().contains_key(id.0),
    {
        self.relationships.contains_key(&id.0)
    }

    /// The node with the id, if any.
    pub fn node(&self, id: NodeId) -> (r: Option<&Node>)
        ensures
            match r {
                Some(n) => self.node_map().contains_key(id.0) && *n == self.node_map()[id.0],
                None => !self.node_map().contains_key(id.0),
            },
    {
        self.nodes.get(&id.0)
    }

    /// The relationship with the id, if any.
    pub fn relationship(&self, id: RelationshipId) -> (r: Option<&Relationship>)
        ensures
            match r {
                Some(x) => self.relationship_map().contains_key(id.0) && *x == self.relationship_map()[id.0],
                None => !self.relationship_map().contains_key(id.0),
            },
    {
        self.relationships.get(&id.0)
    }

    /// The node ids in the order they were first created.
    pub fn node_ids(&self) -> (r: Vec<NodeId>)
        ensures
            node_id_seq(r@) == self.node_order_seq(),
    {
        ids_of(&self.node_order)
    }

    /// The relationship ids in the order they were first created.
    pub fn relationship_ids(&self) -> (r: Vec<RelationshipId>)
        ensures
            r@.map_values(|x: RelationshipId| x.0) == self.relationship_order_seq(),
    {
        let mut out: Vec<RelationshipId> = Vec::new();
        let mut i: usize = 0;
        while i < self.relationship_order.len()
            invariant
                i <= self.relationship_order@.len(),
                out@.len() == i,
                forall|j: int| 0 <= j < i ==> #[trigger] out@[j].0 == self.relationship_order@[j],
            decreases self.relationship_order@.len() - i,
        {
            out.push(RelationshipId(self.relationship_order[i]));
            i = i + 1;
        }
        assert(out@.map_values(|x: RelationshipId| x.0) =~= self.relationship_order@);
        out
    }

    /// The outgoing adjacency entries of a node, in the order they were made.
    pub fn outgoing(&self, node: NodeId) -> (r: Vec<(RelationshipId, Direction)>)
        ensures
            r@.map_values(|e: (RelationshipId, Direction)| (e.0.0, e.1)) == entries_for(self.outgoing_log(), node.0),
    {
        log_entries(&self.adjacency_list, node.0)
    }

    /// The incoming adjacency entries of a node, in the order they were made.
    pub fn incoming(&self, node: NodeId) -> (r: Vec<(RelationshipId, Direction)>)
        ensures
            r@.map_values(|e: (RelationshipId, Direction)| (e.0.0, e.1)) == entries_for(self.incoming_log(), node.0),
    {
        log_entries(&self.reverse_adjacency, node.0)
    }

    /// The node ids listed under a label.
    pub fn nodes_with_label(&self, label: &str) -> (r: Vec<NodeId>)
        ensures
            node_id_seq(r@) == self.label_members(label@),
    {
        match self.node_labels.get(label) {
            Some(v) => ids_of(v),
            None => {
                let out: Vec<NodeId> = Vec::new();
                assert(node_id_seq(out@) =~= Seq::<u64>::empty());
                out
            },
        }
    }

    /// The relationship ids listed under a type.
    pub fn relationships_of_type(&self, rel_type: &str) -> (r: Vec<RelationshipId>)
        ensures
            r@.map_values(|x: RelationshipId| x.0) == self.type_members(rel_type@),
    {
        let mut out: Vec<RelationshipId> = Vec::new();
        match self.relationship_types.get(rel_type) {
            Some(v) => {
                let mut i: usize = 0;
                while i < v.len()
                    invariant
                        i <= v@.len(),
                        out@.len() == i,
                        forall|j: int| 0 <= j < i ==> #[trigger] out@[j].0 == v@[j],
                    decreases v@.len() - i,
                {
                    out.push(RelationshipId(v[i]));
                    i = i + 1;
                }
                assert(out@.map_values(|x: RelationshipId| x.0) =~= v@);
            },
            None => {
                assert(out@.map_values(|x: RelationshipId| x.0) =~= Seq::<u64>::empty());
            },
        }
        out
    }

    /// The nodes a similarity search looks at: those under the label asked
    /// for, or every node.
    pub fn search_candidates(&self, node_filter: Option<&str>) -> (r: Vec<NodeId>)
        ensures
            node_id_seq(r@) == match node_filter {
                Some(l) => self.label_members(l@),
                None => self.node_order_seq(),
            },
    {
        match node_filter {
            Some(l) => self.nodes_with_label(l),
            None => self.node_ids(),
        }
    }

    /// The selection of a MATCH query: when the text names `Person`, the
    /// nodes labelled `Person`; when it names `KNOWS`, the relationships of
    /// type `KNOWS`; each in creation order.
    pub fn execute_match_query(&self, query: &str) -> (r: (Vec<NodeId>, Vec<RelationshipId>))
        requires
            self.wf(),
        ensures
            node_id_seq(r.0@) == if contains_seq(query@, "Person"@) {
                labelled(self.node_order_seq(), self.node_map(), "Person"@)
            } else {
                Seq::empty()
            },
            r.1@.map_values(|x: RelationshipId| x.0) == if contains_seq(query@, "KNOWS"@) {
                typed(self.relationship_order_seq(), self.relationship_map(), "KNOWS"@)
            } else {
                Seq::empty()
            },
    {
        let mut nodes: Vec<NodeId> = Vec::new();
        let mut rels: Vec<RelationshipId> = Vec::new();
        if text_contains(query, "Person") {
            let mut i: usize = 0;
            while i < self.node_order.len()
                invariant
                    i <= self.node_order@.len(),
                    self.wf(),
                    node_id_seq(nodes@) == labelled(self.node_order@.subrange(0, i as int), self.nodes@, "Person"@),
                decreases self.node_order@.len() - i,
            {
                let id = self.node_order[i];
                let ghost pre = self.node_order@.subrange(0, i as int);
                assert(self.node_order@.subrange(0, i + 1).drop_last() =~= pre);
                assert(self.node_order@.contains(id));
                let n = match self.nodes.get(&id) {
                    Some(n) => n,
                    None => {
                        proof {
                            assert(false);
                        }
                        return (nodes, rels);
                    },
                };
                if strings_contain(&n.labels, "Person") {
                    nodes.push(NodeId(id));
                    assert(node_id_seq(nodes@) =~= labelled(pre, self.nodes@, "Person"@).push(id));
                }
                i = i + 1;
            }
            assert(self.node_order@.subrange(0, i as int) =~= self.node_order@);
        } else {
            assert(node_id_seq(nodes@) =~= Seq::<u64>::empty());
        }
        if text_contains(query, "KNOWS") {
            let mut i: usize = 0;
            while i < self.relationship_order.len()
                invariant
                    i <= self.relationship_order@.len(),
                    self.wf(),
                    node_id_seq(nodes@) == if contains_seq(query@, "Person"@) {
                        labelled(self.node_order@, self.nodes@, "Person"@)
                    } else {
                        Seq::empty()
                    },
                    rels@.map_values(|x: RelationshipId| x.0) == typed(
                        self.relationship_order@.subrange(0, i as int),
                        self.relationships@,
                        "KNOWS"@,
                    ),
                decreases self.relationship_order@.len() - i,
            {
                let id = self.relationship_order[i];
                let ghost pre = self.relationship_order@.subrange(0, i as int);
                assert(self.relationship_order@.subrange(0, i + 1).drop_last() =~= pre);
                assert(self.relationship_order@.contains(id));
                let x = match self.relationships.get(&id) {
                    Some(x) => x,
                    None => {
                        proof {
                            assert(false);
                        }
                        return (nodes, rels);
                    },
                };
                if str_equal(x.rel_type.as_str(), "KNOWS") {
                    rels.push(RelationshipId(id));
                    assert(rels@.map_values(|x: RelationshipId| x.0) =~= typed(pre, self.relationships@, "KNOWS"@).push(id));
                }
                i = i + 1;
            }
            assert(self.relationship_order@.subrange(0, i as int) =~= self.relationship_order@);
        } else {
            assert(rels@.map_values(|x: RelationshipId| x.0) =~= Seq::<u64>::empty());
        }
        (nodes, rels)
    }

    /// Each node in a community of its own, numbered from 0 in creation
    /// order.
    pub fn community_detection(&self) -> (r: Vec<(NodeId, u64)>)
        ensures
            r@.len() == self.node_order_seq().len(),
            forall|i: int| 0 <= i < r@.len() ==> #[trigger] r@[i] == (NodeId(self.node_order_seq()[i]), i as u64),
    {
        let mut out: Vec<(NodeId, u64)> = Vec::new();
        let mut i: usize = 0;
        while i < self.node_order.len()
            invariant
                i <= self.node_order@.len(),
                out@.len() == i,
                forall|j: int| 0 <= j < i ==> #[trigger] out@[j] == (NodeId(self.node_order@[j]), j as u64),
            decreases self.node_order@.len() - i,
        {
            out.push((NodeId(self.node_order[i]), i as u64));
            i = i + 1;
        }
        out
    }
}

/// The kind of a graph query, from its lowercase text (see
/// `query_kind_of`); nothing for an unsupported query.
pub fn query_kind(query: &str) -> (r: Option<GraphQueryKind>)
    ensures
        r == query_kind_of(lowercase_text(query@)),
{
    let lower = to_lowercase(query);
    if text_contains(lower.as_str(), "match") {
        Some(GraphQueryKind::Match)
    } else if text_contains(lower.as_str(), "shortestpath") {
        Some(GraphQueryKind::ShortestPath)
    } else if text_contains(lower.as_str(), "similar") {
        Some(GraphQueryKind::VectorSimilarity)
    } else {
        None
    }
}

/// Node ids from plain ids, in order.
fn ids_of(v: &Vec<u64>) -> (r: Vec<NodeId>)
    ensures
        node_id_seq(r@) == v@,
{
    let mut out: Vec<NodeId> = Vec::new();
    let mut i: usize = 0;
    while i < v.len()
        invariant
            i <= v@.len(),
            out@.len() == i,
            forall|j: int| 0 <= j < i ==> #[trigger] out@[j].0 == v@[j],
        decreases v@.len() - i,
    {
        out.push(NodeId(v[i]));
        i = i + 1;
    }
    assert(node_id_seq(out@) =~= v@);
    out
}

/// The entries of an adjacency log for a node (see `entries_for`).
fn log_entries(log: &Vec<(u64, u64, Direction)>, node: u64) -> (r: Vec<(RelationshipId, Direction)>)
    ensures
        r@.map_values(|e: (RelationshipId, Direction)| (e.0.0, e.1)) == entries_for(log@, node),
{
    let mut out: Vec<(RelationshipId, Direction)> = Vec::new();
    let mut i: usize = 0;
    while i < log.len()
        invariant
            i <= log@.len(),
            out@.map_values(|e: (RelationshipId, Direction)| (e.0.0, e.1)) == entries_for(log@.subrange(0, i as int), node),
        decreases log@.len() - i,
    {
        let e = log[i];
        let ghost pre = log@.subrange(0, i as int);
        assert(log@.subrange(0, i + 1).drop_last() =~= pre);
        if e.0 == node {
            out.push((RelationshipId(e.1), e.2));
            assert(out@.map_values(|e: (RelationshipId, Direction)| (e.0.0, e.1)) =~= entries_for(pre, node).push((e.1, e.2)));
        }
        i = i + 1;
    }
    assert(log@.subrange(0, i as int) =~= log@);
    out
}

/// Adds `id` under key `k` of an index unless it is listed there already.
fn index_add(index: &mut StringMap<Vec<u64>>, k: &str, id: u64)
    ensures
        forall|j: Seq<char>| #[trigger] index_members(final(index)@, j) == if j == k@ {
            add_unique(index_members(old(index)@, j), id)
        } else {
            index_members(old(index)@, j)
        },
{
    let mut members: Vec<u64> = Vec::new();
    match index.get(k) {
        Some(v) => {
            let mut i: usize = 0;
            while i < v.len()
                invariant
                    i <= v@.len(),
                    members@ == v@.subrange(0, i as int),
                decreases v@.len() - i,
            {
                members.push(v[i]);
                i = i + 1;
                assert(members@ =~= v@.subrange(0, i as int));
            }
            assert(members@ =~= v@);
        },
        None => {},
    }
    assert(members@ == index_members(index@, k@));
    let mut found = false;
    let mut i: usize = 0;
    while i < members.len()
        invariant
            i <= members@.len(),
            found <==> exists|j: int| 0 <= j < i && members@[j] == id,
        decreases members@.len() - i,
    {
        if members[i] == id {
            found = true;
        }
        i = i + 1;
    }
    proof {
        if found {
            let j = choose|j: int| 0 <= j < members@.len() && members@[j] == id;
            assert(members@.contains(id));
        } else {
            assert(!members@.contains(id));
        }
    }
    if !found {
        members.push(id);
    }
    let ghost before = index@;
    index.insert(owned(k), members);
    proof {
        assert forall|j: Seq<char>| #[trigger] index_members(index@, j) == if j == k@ {
            add_unique(index_members(before, j), id)
        } else {
            index_members(before, j)
        } by {
            if j != k@ {
                assert(index@.contains_key(j) == before.contains_key(j));
                if before.contains_key(j) {
                    assert(index@[j] == before[j]);
                }
            }
        }
    }
}

} // verus!
