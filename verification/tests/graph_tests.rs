use auroradb::advanced::graph::{
    query_kind, Direction, GraphError, GraphQueryKind, NodeId, PropertyGraph, PropertyValue, RelationshipId,
};
use auroradb::text::StringMap;

fn props(entries: Vec<(&str, PropertyValue)>) -> StringMap<PropertyValue> {
    let mut m = StringMap::new();
    for (k, v) in entries {
        m.insert(k.to_string(), v);
    }
    m
}

#[test]
fn test_create_graph() {
    let graph = PropertyGraph::new();
    assert_eq!(graph.statistics().node_count, 0);
    assert_eq!(graph.statistics().relationship_count, 0);
}

#[test]
fn test_create_node() {
    let mut graph = PropertyGraph::new();
    let properties = props(vec![
        ("name", PropertyValue::String("Alice".to_string())),
        ("age", PropertyValue::Integer(30)),
    ]);
    let node_id = graph.create_node(vec!["Person".to_string()], properties, None).unwrap();
    assert_eq!(graph.statistics().node_count, 1);
    assert!(graph.contains_node(node_id));
}

#[test]
fn test_create_relationship() {
    let mut graph = PropertyGraph::new();
    let alice_id = graph.create_node(vec!["Person".to_string()], StringMap::new(), None).unwrap();
    let bob_id = graph.create_node(vec!["Person".to_string()], StringMap::new(), None).unwrap();
    let rel_id = graph
        .create_relationship(alice_id, bob_id, "KNOWS".to_string(), props(vec![("since", PropertyValue::Integer(2020))]), None)
        .unwrap();
    assert_eq!(graph.statistics().relationship_count, 1);
    assert!(graph.contains_relationship(rel_id));
}

#[test]
fn test_property_values() {
    let string_val = PropertyValue::String("test".to_string());
    let int_val = PropertyValue::Integer(42);
    let float_val = PropertyValue::Float(3.14f64.to_bits());
    let bool_val = PropertyValue::Boolean(true);
    assert_eq!(string_val, PropertyValue::String("test".to_string()));
    assert_eq!(int_val, PropertyValue::Integer(42));
    assert_eq!(float_val, PropertyValue::Float(3.14f64.to_bits()));
    assert_eq!(bool_val, PropertyValue::Boolean(true));
}

#[test]
fn graph_nodes_at_given_ids_and_indexes() {
    let mut graph = PropertyGraph::new();
    let a = graph.create_node_at(1, 100, vec!["Person".to_string(), "Admin".to_string()], StringMap::new(), None);
    let b = graph.create_node_at(2, 101, vec!["Person".to_string()], StringMap::new(), Some(vec![1.0f32.to_bits()]));
    let c = graph.create_node_at(3, 102, vec!["Item".to_string()], StringMap::new(), None);
    assert_eq!((a, b, c), (NodeId(1), NodeId(2), NodeId(3)));
    assert_eq!(graph.nodes_with_label("Person"), vec![NodeId(1), NodeId(2)]);
    assert_eq!(graph.nodes_with_label("Admin"), vec![NodeId(1)]);
    assert!(graph.nodes_with_label("Nobody").is_empty());
    assert_eq!(graph.search_candidates(None), vec![NodeId(1), NodeId(2), NodeId(3)]);
    assert_eq!(graph.search_candidates(Some("Item")), vec![NodeId(3)]);
    assert_eq!(graph.node(NodeId(2)).unwrap().created_at, 101);
    assert_eq!(graph.statistics().node_count, 3);
    // the same id again replaces the node, keeps its place, and still counts
    graph.create_node_at(1, 200, vec!["Person".to_string()], StringMap::new(), None);
    assert_eq!(graph.node_ids(), vec![NodeId(1), NodeId(2), NodeId(3)]);
    assert_eq!(graph.node(NodeId(1)).unwrap().created_at, 200);
    assert_eq!(graph.statistics().node_count, 4);
    assert_eq!(graph.community_detection(), vec![(NodeId(1), 0), (NodeId(2), 1), (NodeId(3), 2)]);
}

#[test]
fn graph_relationships_need_both_ends() {
    let mut graph = PropertyGraph::new();
    graph.create_node_at(1, 0, vec!["Person".to_string()], StringMap::new(), None);
    graph.create_node_at(2, 0, vec!["Person".to_string()], StringMap::new(), None);
    let err = graph.create_relationship_at(10, 5, NodeId(1), NodeId(9), "KNOWS".to_string(), StringMap::new(), None);
    assert_eq!(err, Err(GraphError::InvalidArgument("Start or end node does not exist".to_string())));
    assert_eq!(graph.statistics().relationship_count, 0);
    let ok = graph.create_relationship_at(10, 5, NodeId(1), NodeId(2), "KNOWS".to_string(), StringMap::new(), None);
    assert_eq!(ok, Ok(RelationshipId(10)));
    assert_eq!(graph.outgoing(NodeId(1)), vec![(RelationshipId(10), Direction::Outgoing)]);
    assert_eq!(graph.incoming(NodeId(2)), vec![(RelationshipId(10), Direction::Incoming)]);
    assert!(graph.outgoing(NodeId(2)).is_empty());
    assert_eq!(graph.relationships_of_type("KNOWS"), vec![RelationshipId(10)]);
    assert_eq!(graph.relationship(RelationshipId(10)).unwrap().start_node, NodeId(1));
}

#[test]
fn graph_match_query_selects_people_and_knows() {
    let mut graph = PropertyGraph::new();
    graph.create_node_at(1, 0, vec!["Person".to_string()], StringMap::new(), None);
    graph.create_node_at(2, 0, vec!["Item".to_string()], StringMap::new(), None);
    graph.create_node_at(3, 0, vec!["Person".to_string()], StringMap::new(), None);
    graph.create_relationship_at(7, 0, NodeId(1), NodeId(3), "KNOWS".to_string(), StringMap::new(), None).unwrap();
    graph.create_relationship_at(8, 0, NodeId(1), NodeId(2), "OWNS".to_string(), StringMap::new(), None).unwrap();
    let (nodes, rels) = graph.execute_match_query("MATCH (p:Person)-[:KNOWS]->(p2:Person)");
    assert_eq!(nodes, vec![NodeId(1), NodeId(3)]);
    assert_eq!(rels, vec![RelationshipId(7)]);
    let (nodes, rels) = graph.execute_match_query("MATCH (n) RETURN n");
    assert!(nodes.is_empty() && rels.is_empty());
    assert_eq!(query_kind("MATCH (p:Person)"), Some(GraphQueryKind::Match));
    assert_eq!(query_kind("ShortestPath(a, b)"), Some(GraphQueryKind::ShortestPath));
    assert_eq!(query_kind("find SIMILAR items"), Some(GraphQueryKind::VectorSimilarity));
    assert_eq!(query_kind("DELETE everything"), None);
}
