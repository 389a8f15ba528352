use ten_graph::connection::{GraphConnection, GraphDestination, GraphLoc, GraphMessageFlow};
use ten_graph::graph::Graph;
use ten_graph::kinds::GraphNodeType;
use ten_graph::node::{AtomicFilter, Filter, FilterOperator, GraphNode};
use ten_graph::selector::{evaluate_filter, settle_atomic, SelectorError};

fn extension(name: &str) -> GraphNode {
    GraphNode::new_extension_node(
        name.to_string(),
        "test_addon".to_string(),
        Some("test_group".to_string()),
        None,
        None,
    )
}

fn exact(value: &str) -> Filter {
    Filter::Atomic(AtomicFilter {
        field: "name".to_string(),
        operator: FilterOperator::Exact,
        value: value.to_string(),
    })
}

fn regex(value: &str) -> Filter {
    Filter::Atomic(AtomicFilter {
        field: "name".to_string(),
        operator: FilterOperator::Regex,
        value: value.to_string(),
    })
}

fn selector(name: &str, filter: Filter) -> GraphNode {
    GraphNode::new_selector_node(name.to_string(), filter)
}

fn loc(node_type: GraphNodeType, name: &str) -> GraphLoc {
    GraphLoc::with_app_and_type_and_name(None, node_type, name.to_string()).unwrap()
}

fn flow(name: &str, dests: Vec<(GraphNodeType, &str)>) -> GraphMessageFlow {
    GraphMessageFlow::new(
        Some(name.to_string()),
        None,
        dests
            .into_iter()
            .map(|(t, n)| GraphDestination::new(None, t, n.to_string()).unwrap())
            .collect(),
        vec![],
    )
}

fn graph_with_selectors() -> Graph {
    let mut from_selector =
        GraphConnection::new(loc(GraphNodeType::Selector, "selector_for_ext_1_and_2_and_3"));
    from_selector.data = Some(vec![flow("hi", vec![(GraphNodeType::Extension, "test_extension_4")])]);
    let mut from_three = GraphConnection::new(loc(GraphNodeType::Extension, "test_extension_3"));
    from_three.cmd =
        Some(vec![flow("hello_world", vec![(GraphNodeType::Selector, "selector_for_ext_1_and_2")])]);
    Graph {
        nodes: vec![
            extension("test_extension_1"),
            extension("test_extension_2"),
            extension("test_extension_3"),
            extension("test_extension_4"),
            selector("selector_for_ext_1_and_2", regex("test_extension_[1-2]")),
            selector("selector_for_ext_1_and_2_and_3", regex("test_extension_[1-3]")),
            selector(
                "selector_for_ext_1_or_3",
                Filter::Or { or: vec![exact("test_extension_1"), exact("test_extension_3")] },
            ),
        ],
        connections: Some(vec![from_selector, from_three]),
        exposed_messages: None,
        exposed_properties: None,
    }
}

#[test]
fn test_graph_with_selector() {
    let graph = graph_with_selectors().flatten_selectors().unwrap();

    // test_extension_1,2,3 --data--> test_extension_4
    // test_extension_3     --cmd --> test_extension_1,2
    // ----merged---
    // test_extension_1     --data--> test_extension_4
    // test_extension_2     --data--> test_extension_4
    // test_extension_3     --cmd --> test_extension_1,2
    //                      --data--> test_extension_4

    assert_eq!(graph.connections.as_ref().unwrap().len(), 3);

    // Get the connection of test_extension_1
    let connection = graph
        .connections
        .as_ref()
        .unwrap()
        .iter()
        .find(|c| c.loc.extension == Some("test_extension_1".to_string()))
        .unwrap();

    assert!(connection.data.is_some());
    let data = connection.data.as_ref().unwrap();
    assert_eq!(data.len(), 1);
    assert_eq!(data[0].name.as_deref(), Some("hi"));
    assert_eq!(data[0].dest.len(), 1);
    assert_eq!(data[0].dest[0].loc.extension, Some("test_extension_4".to_string()));

    let connection = graph
        .connections
        .as_ref()
        .unwrap()
        .iter()
        .find(|c| c.loc.extension == Some("test_extension_2".to_string()))
        .unwrap();
    assert!(connection.data.is_some());
    let data = connection.data.as_ref().unwrap();
    assert_eq!(data.len(), 1);
    assert_eq!(data[0].name.as_deref(), Some("hi"));
    assert_eq!(data[0].dest.len(), 1);
    assert_eq!(data[0].dest[0].loc.extension, Some("test_extension_4".to_string()));

    let connection = graph
        .connections
        .as_ref()
        .unwrap()
        .iter()
        .find(|c| c.loc.extension == Some("test_extension_3".to_string()))
        .unwrap();

    assert!(connection.cmd.is_some());
    let cmd = connection.cmd.as_ref().unwrap();
    assert_eq!(cmd.len(), 1);
    assert_eq!(cmd[0].name.as_deref(), Some("hello_world"));
    assert_eq!(cmd[0].dest.len(), 2);
    assert!(cmd[0].dest.iter().any(|d| d.loc.extension == Some("test_extension_1".to_string())));
    assert!(cmd[0].dest.iter().any(|d| d.loc.extension == Some("test_extension_2".to_string())));

    assert!(connection.data.is_some());
    let data = connection.data.as_ref().unwrap();
    assert_eq!(data.len(), 1);
    assert_eq!(data[0].name.as_deref(), Some("hi"));
    assert_eq!(data[0].dest.len(), 1);
    assert_eq!(data[0].dest[0].loc.extension, Some("test_extension_4".to_string()));
}

#[test]
fn test_get_nodes_by_selector_node_name() {
    let graph = graph_with_selectors();
    let nodes = graph.get_nodes_by_selector_node_name("selector_for_ext_1_and_2").unwrap();
    assert_eq!(nodes.len(), 2);
    assert_eq!(nodes[0].get_name(), "test_extension_1");
    assert_eq!(nodes[1].get_name(), "test_extension_2");

    let nodes = graph.get_nodes_by_selector_node_name("selector_for_ext_1_and_2_and_3").unwrap();
    assert_eq!(nodes.len(), 3);
    assert_eq!(nodes[0].get_name(), "test_extension_1");
    assert_eq!(nodes[1].get_name(), "test_extension_2");
    assert_eq!(nodes[2].get_name(), "test_extension_3");

    let nodes = graph.get_nodes_by_selector_node_name("selector_for_ext_1_or_3").unwrap();
    assert_eq!(nodes.len(), 2);
    assert_eq!(nodes[0].get_name(), "test_extension_1");
    assert_eq!(nodes[1].get_name(), "test_extension_3");
}

#[test]
fn flattening_leaves_out_the_selector_nodes_and_keeps_the_graph() {
    let graph = graph_with_selectors();
    let before = graph.clone();
    let flat = graph.flatten_selectors().unwrap();
    assert_eq!(flat.nodes.len(), 4);
    assert!(flat.nodes.iter().all(|n| n.get_type() == GraphNodeType::Extension));
    assert_eq!(graph, before);
    // The connections come in the order in which their sources were met.
    let sources: Vec<_> = flat
        .connections
        .as_ref()
        .unwrap()
        .iter()
        .map(|c| c.loc.extension.clone().unwrap())
        .collect();
    assert_eq!(sources, vec!["test_extension_1", "test_extension_2", "test_extension_3"]);
    assert!(flat
        .connections
        .as_ref()
        .unwrap()
        .iter()
        .all(|c| c.loc.selector.is_none()
            && c.cmd.iter().flatten().all(|f| f.dest.iter().all(|d| d.loc.selector.is_none()))));
}

#[test]
fn resolving_a_selector_twice_gives_the_same_result() {
    let graph = graph_with_selectors();
    let names = |g: &Graph| -> Vec<String> {
        g.get_nodes_by_selector_node_name("selector_for_ext_1_and_2_and_3")
            .unwrap()
            .iter()
            .map(|n| n.get_name().to_string())
            .collect()
    };
    let first = names(&graph);
    assert_eq!(first, names(&graph));
    let mut unique = first.clone();
    unique.dedup();
    assert_eq!(unique, first);
}

#[test]
fn an_unknown_selector_fails() {
    let graph = graph_with_selectors();
    assert_eq!(
        graph.get_nodes_by_selector_node_name("nobody").err(),
        Some(SelectorError::SelectorNotFound { name: "nobody".to_string() })
    );
    // An extension of that name is no selector.
    assert_eq!(
        graph.get_nodes_by_selector_node_name("test_extension_1").err(),
        Some(SelectorError::SelectorNotFound { name: "test_extension_1".to_string() })
    );
    let mut dangling = graph.clone();
    dangling.connections.as_mut().unwrap()[1].cmd.as_mut().unwrap()[0].dest[0].loc.selector =
        Some("nobody".to_string());
    assert_eq!(
        dangling.flatten_selectors(),
        Err(SelectorError::SelectorNotFound { name: "nobody".to_string() })
    );
}

#[test]
fn an_invalid_pattern_fails_even_when_no_node_is_asked() {
    let graph = Graph {
        nodes: vec![selector(
            "broken",
            Filter::Or { or: vec![exact("a"), regex("(unclosed")] },
        )],
        connections: None,
        exposed_messages: None,
        exposed_properties: None,
    };
    assert_eq!(
        graph.get_nodes_by_selector_node_name("broken").err(),
        Some(SelectorError::InvalidPattern { selector: "broken".to_string() })
    );
}

#[test]
fn expressions_combine_patterns() {
    let all = Filter::And { and: vec![regex("^ext_"), regex("_[0-9]+$")] };
    assert_eq!(evaluate_filter(&all, "ext_12"), Some(true));
    assert_eq!(evaluate_filter(&all, "ext_x"), Some(false));
    assert_eq!(evaluate_filter(&all, "my_ext_12"), Some(false));
    let any = Filter::Or { or: vec![exact("a"), Filter::And { and: vec![] }] };
    assert_eq!(evaluate_filter(&any, "zzz"), Some(true));
    assert_eq!(evaluate_filter(&Filter::Or { or: vec![] }, "a"), Some(false));
    assert_eq!(evaluate_filter(&Filter::And { and: vec![] }, "a"), Some(true));
    // An exact pattern is no regular expression, and a regular expression
    // matches anywhere in the name.
    assert_eq!(evaluate_filter(&exact("a.c"), "abc"), Some(false));
    assert_eq!(evaluate_filter(&regex("a.c"), "xabcx"), Some(true));
    assert_eq!(evaluate_filter(&regex("["), "a"), None);
    assert_eq!(
        evaluate_filter(&Filter::Or { or: vec![exact("a"), regex("[")] }, "a"),
        None
    );
}

#[test]
fn patterns_are_settled_from_the_engine_answer() {
    assert_eq!(settle_atomic("name", FilterOperator::Exact, "a", "a", None), Some(true));
    assert_eq!(settle_atomic("name", FilterOperator::Exact, "a", "b", Some(true)), Some(false));
    assert_eq!(settle_atomic("name", FilterOperator::Regex, "a", "b", Some(true)), Some(true));
    assert_eq!(settle_atomic("name", FilterOperator::Regex, "a", "a", None), None);
    assert_eq!(settle_atomic("addon", FilterOperator::Exact, "a", "a", Some(true)), None);
}

#[test]
fn selected_sources_collapse_into_one_flow_per_name() {
    // Two selectors that overlap send the same message to the same place.
    let mut one = GraphConnection::new(loc(GraphNodeType::Selector, "selector_for_ext_1_and_2"));
    one.cmd = Some(vec![flow("m", vec![(GraphNodeType::Extension, "test_extension_4")])]);
    let mut two = GraphConnection::new(loc(GraphNodeType::Selector, "selector_for_ext_1_or_3"));
    two.cmd = Some(vec![flow(
        "m",
        vec![
            (GraphNodeType::Extension, "test_extension_4"),
            (GraphNodeType::Extension, "test_extension_2"),
        ],
    )]);
    let mut graph = graph_with_selectors();
    graph.connections = Some(vec![one, two]);
    let flat = graph.flatten_selectors().unwrap();
    let connections = flat.connections.unwrap();
    assert_eq!(connections.len(), 3);
    let dests = |i: usize| -> Vec<String> {
        let cmd = connections[i].cmd.as_ref().unwrap();
        assert_eq!(cmd.len(), 1);
        cmd[0].dest.iter().map(|d| d.loc.extension.clone().unwrap()).collect()
    };
    assert_eq!(connections[0].loc.extension, Some("test_extension_1".to_string()));
    assert_eq!(dests(0), vec!["test_extension_4", "test_extension_2"]);
    assert_eq!(connections[1].loc.extension, Some("test_extension_2".to_string()));
    assert_eq!(dests(1), vec!["test_extension_4"]);
    assert_eq!(connections[2].loc.extension, Some("test_extension_3".to_string()));
    assert_eq!(dests(2), vec!["test_extension_4", "test_extension_2"]);
}

#[test]
fn selector_errors_in_words() {
    assert_eq!(
        SelectorError::SelectorNotFound { name: "s".to_string() }.to_string(),
        "Selector node 's' not found"
    );
    assert_eq!(
        SelectorError::InvalidPattern { selector: "s".to_string() }.to_string(),
        "Selector node 's' has a pattern that cannot be evaluated"
    );
}

#[test]
fn a_pattern_over_another_field_cannot_be_evaluated() {
    let over_addon = Filter::Atomic(AtomicFilter {
        field: "addon".to_string(),
        operator: FilterOperator::Exact,
        value: "test_addon".to_string(),
    });
    assert_eq!(evaluate_filter(&over_addon, "test_addon"), None);
    let graph = Graph {
        nodes: vec![extension("e"), selector("s", Filter::And { and: vec![exact("e"), over_addon] })],
        connections: None,
        exposed_messages: None,
        exposed_properties: None,
    };
    assert_eq!(
        graph.get_nodes_by_selector_node_name("s").err(),
        Some(SelectorError::InvalidPattern { selector: "s".to_string() })
    );
}
