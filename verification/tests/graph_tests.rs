use ten_graph::builder::{
    add_message_flow_to_connection, add_to_flow, check_connection_exists, graph_add_connection,
};
use ten_graph::connection::{
    is_app_default_loc_or_none, GraphConnection, GraphDestination, GraphLoc, GraphMessageFlow,
    GraphSource,
};
use ten_graph::conversion::{
    MsgAndResultConversion, MsgConversion, MsgConversionMode, MsgConversionRule, MsgConversionType,
};
use ten_graph::error::{
    ConnectionError, ConversionError, DestError, FlowError, GraphError, LocError, RuleError,
    ValidationError,
};
use ten_graph::graph::Graph;
use ten_graph::kinds::{
    exposed_message_type, AppUriDeclarationState, GraphExposedMessageType, GraphNodeType,
    MsgDirection, MsgType,
};
use ten_graph::node::GraphNode;

fn ext(name: &str, app: Option<&str>) -> GraphNode {
    GraphNode::new_extension_node(
        name.to_string(),
        format!("{}_addon", name),
        None,
        app.map(|a| a.to_string()),
        None,
    )
}

fn ext_loc(name: &str, app: Option<&str>) -> GraphLoc {
    GraphLoc::with_app_and_type_and_name(
        app.map(|a| a.to_string()),
        GraphNodeType::Extension,
        name.to_string(),
    )
    .unwrap()
}

fn graph_of(nodes: Vec<GraphNode>) -> Graph {
    Graph { nodes, connections: None, exposed_messages: None, exposed_properties: None }
}

fn flow(name: &str, dests: Vec<GraphDestination>) -> GraphMessageFlow {
    GraphMessageFlow::new(Some(name.to_string()), None, dests, vec![])
}

fn dest(name: &str, app: Option<&str>) -> GraphDestination {
    GraphDestination::new(app.map(|a| a.to_string()), GraphNodeType::Extension, name.to_string())
        .unwrap()
}

#[test]
fn location_construction_and_classification() {
    let empty = GraphLoc::new();
    assert_eq!(
        empty,
        GraphLoc { app: None, extension: None, subgraph: None, selector: None }
    );
    assert_eq!(GraphLoc::default(), empty);
    assert_eq!(empty.get_node_type(), Err(LocError::UnknownNodeType));
    assert_eq!(empty.get_node_type_str(), Err(LocError::UnknownNodeType));
    assert_eq!(empty.get_node_name(), Err(LocError::UnknownNodeType));
    assert_eq!(empty.validate_node_type(), Err(LocError::UnknownNodeType));

    let e = GraphLoc::with_app_and_type_and_name(
        Some("msgpack://a/".to_string()),
        GraphNodeType::Extension,
        "x".to_string(),
    )
    .unwrap();
    assert_eq!(e.extension, Some("x".to_string()));
    assert_eq!(e.subgraph, None);
    assert_eq!(e.selector, None);
    assert_eq!(e.get_app_uri(), &Some("msgpack://a/".to_string()));
    assert_eq!(e.get_node_type(), Ok(GraphNodeType::Extension));
    assert_eq!(e.get_node_type_str(), Ok("extension"));
    assert_eq!(e.get_node_name(), Ok(&"x".to_string()));
    assert_eq!(e.validate_node_type(), Ok(()));

    let s = GraphLoc::with_app_and_type_and_name(None, GraphNodeType::Subgraph, "s".to_string())
        .unwrap();
    assert_eq!(s.subgraph, Some("s".to_string()));
    assert_eq!(s.get_node_type_str(), Ok("subgraph"));
    let sel = GraphLoc::with_app_and_type_and_name(None, GraphNodeType::Selector, "q".to_string())
        .unwrap();
    assert_eq!(sel.selector, Some("q".to_string()));
    assert_eq!(sel.get_node_type(), Ok(GraphNodeType::Selector));
    assert_eq!(sel.get_node_type_str(), Ok("selector"));
    assert_eq!(sel.get_node_name(), Ok(&"q".to_string()));
}

#[test]
fn location_with_two_discriminants_is_not_well_formed() {
    let both = GraphLoc {
        app: None,
        extension: Some("x".to_string()),
        subgraph: Some("s".to_string()),
        selector: None,
    };
    assert_eq!(both.validate_node_type(), Err(LocError::UnknownNodeType));
    // The extension takes precedence when the kind is asked.
    assert_eq!(both.get_node_type(), Ok(GraphNodeType::Extension));
    assert_eq!(both.get_node_name(), Ok(&"x".to_string()));
}

#[test]
fn locations_match_only_when_all_fields_agree() {
    let a = ext_loc("x", Some("app1"));
    assert!(a.matches(&ext_loc("x", Some("app1"))));
    assert!(!a.matches(&ext_loc("x", Some("app2"))));
    assert!(!a.matches(&ext_loc("x", None)));
    assert!(!a.matches(&ext_loc("y", Some("app1"))));
    let sub = GraphLoc::with_app_and_type_and_name(
        Some("app1".to_string()),
        GraphNodeType::Subgraph,
        "x".to_string(),
    )
    .unwrap();
    assert!(!a.matches(&sub));
    assert!(a.clone().matches(&a));
}

#[test]
fn app_field_rules() {
    let (none, uniform, mixed) = (
        AppUriDeclarationState::NoneDeclared,
        AppUriDeclarationState::UniformDeclared,
        AppUriDeclarationState::MixedDeclared,
    );
    let plain = ext_loc("x", None);
    let with_app = ext_loc("x", Some("msgpack://a/"));
    let local = ext_loc("x", Some("localhost"));
    assert_eq!(plain.validate_app_field(&none), Ok(()));
    assert_eq!(
        plain.validate_app_field(&uniform),
        Err(LocError::AppUriShouldBeDeclared { single_app: false })
    );
    assert_eq!(
        plain.validate_app_field(&mixed),
        Err(LocError::AppUriShouldBeDeclared { single_app: false })
    );
    assert_eq!(with_app.validate_app_field(&uniform), Ok(()));
    assert_eq!(
        with_app.validate_app_field(&none),
        Err(LocError::AppUriShouldNotBeDeclared { single_app: true })
    );
    assert_eq!(
        local.validate_app_field(&none),
        Err(LocError::LocalhostForbidden { single_app: true })
    );
    assert_eq!(
        local.validate_app_field(&uniform),
        Err(LocError::LocalhostForbidden { single_app: false })
    );
    // Subgraphs and selectors carry no application.
    let sub = GraphLoc::with_app_and_type_and_name(
        Some("localhost".to_string()),
        GraphNodeType::Subgraph,
        "s".to_string(),
    )
    .unwrap();
    assert_eq!(sub.validate_app_field(&none), Ok(()));
    assert!(none.is_single_app_graph());
    assert!(!uniform.is_single_app_graph());
}

#[test]
fn node_existence() {
    let graph = graph_of(vec![
        ext("a", None),
        GraphNode::new_subgraph_node("s".to_string(), None, "s.json".to_string()),
    ]);
    assert_eq!(ext_loc("a", None).check_node_exists(&graph), Ok(()));
    assert_eq!(
        ext_loc("s", None).check_node_exists(&graph),
        Err(GraphError::NodeNotFound { node_type: GraphNodeType::Extension, name: "s".to_string() })
    );
    let sub = GraphLoc::with_app_and_type_and_name(None, GraphNodeType::Subgraph, "s".to_string())
        .unwrap();
    assert_eq!(sub.check_node_exists(&graph), Ok(()));
    assert_eq!(GraphLoc::new().check_node_exists(&graph), Err(GraphError::UnknownNodeType));
}

#[test]
fn flow_naming_rules() {
    let d = || vec![dest("b", None)];
    assert_eq!(flow("m", d()).validate_name_mutual_exclusivity(), Ok(()));
    let both = GraphMessageFlow::new(Some("m".to_string()), Some(vec!["n".to_string()]), d(), vec![]);
    assert_eq!(both.validate_name_mutual_exclusivity(), Err(FlowError::BothNameAndNames));
    let neither = GraphMessageFlow::new(None, None, d(), vec![]);
    assert_eq!(neither.validate_name_mutual_exclusivity(), Err(FlowError::NeitherNameNorNames));
    let empty = GraphMessageFlow::new(None, Some(vec![]), d(), vec![]);
    assert_eq!(empty.validate_name_mutual_exclusivity(), Err(FlowError::EmptyNames));
    let many = GraphMessageFlow::new(None, Some(vec!["a".to_string(), "b".to_string()]), d(), vec![]);
    assert_eq!(many.validate_name_mutual_exclusivity(), Ok(()));
}

#[test]
fn validation_reports_the_first_failure_with_its_path() {
    let state = AppUriDeclarationState::NoneDeclared;
    let mut conn = GraphConnection::new(ext_loc("a", None));
    conn.cmd = Some(vec![
        flow("c0", vec![dest("b", None)]),
        flow("c1", vec![dest("b", None), dest("c", None)]),
        flow("c2", vec![dest("b", Some("localhost")), dest("c", Some("msgpack://x/"))]),
    ]);
    conn.data = Some(vec![GraphMessageFlow::new(None, None, vec![], vec![])]);
    assert_eq!(
        conn.validate_and_complete(&state),
        Err(ConnectionError::Flow {
            kind: MsgType::Cmd,
            index: 2,
            error: FlowError::Dest {
                index: 0,
                error: DestError::Loc { cause: LocError::LocalhostForbidden { single_app: true } }
            }
        })
    );
    conn.cmd.as_mut().unwrap()[2].dest.remove(0);
    assert_eq!(
        conn.validate_and_complete(&state),
        Err(ConnectionError::Flow {
            kind: MsgType::Cmd,
            index: 2,
            error: FlowError::Dest {
                index: 0,
                error: DestError::Loc { cause: LocError::AppUriShouldNotBeDeclared { single_app: true } }
            }
        })
    );
    conn.cmd.as_mut().unwrap().pop();
    assert_eq!(
        conn.validate_and_complete(&state),
        Err(ConnectionError::Flow {
            kind: MsgType::Data,
            index: 0,
            error: FlowError::NeitherNameNorNames
        })
    );
    conn.data = None;
    conn.video_frame = Some(vec![flow("v", vec![])]);
    assert_eq!(conn.validate_and_complete(&state), Ok(()));
    conn.loc.app = Some("msgpack://x/".to_string());
    assert_eq!(
        conn.validate_and_complete(&state),
        Err(ConnectionError::Loc {
            cause: LocError::AppUriShouldNotBeDeclared { single_app: true }
        })
    );
    assert_eq!(conn.get_app_uri(), &Some("msgpack://x/".to_string()));
}

#[test]
fn destination_and_flow_validation() {
    let state = AppUriDeclarationState::UniformDeclared;
    let mut d = dest("b", None);
    assert_eq!(d.get_app_uri(), &None);
    assert_eq!(
        d.validate_and_complete(&state),
        Err(DestError::Loc { cause: LocError::AppUriShouldBeDeclared { single_app: false } })
    );
    let mut f = flow("m", vec![dest("a", Some("x")), dest("b", None)]);
    assert_eq!(
        f.validate_and_complete(&state),
        Err(FlowError::Dest {
            index: 1,
            error: DestError::Loc { cause: LocError::AppUriShouldBeDeclared { single_app: false } }
        })
    );
    let source = GraphSource { loc: ext_loc("z", None) };
    assert_eq!(source.clone(), source);
}

#[test]
fn declaration_states() {
    assert_eq!(graph_of(vec![]).app_uri_declaration_state(), AppUriDeclarationState::NoneDeclared);
    assert_eq!(
        graph_of(vec![ext("a", None), ext("b", None)]).app_uri_declaration_state(),
        AppUriDeclarationState::NoneDeclared
    );
    assert_eq!(
        graph_of(vec![ext("a", Some("x")), ext("b", Some("y"))]).app_uri_declaration_state(),
        AppUriDeclarationState::UniformDeclared
    );
    assert_eq!(
        graph_of(vec![ext("a", Some("x")), ext("b", None)]).app_uri_declaration_state(),
        AppUriDeclarationState::MixedDeclared
    );
    // A subgraph declares nothing and is asked for nothing.
    assert_eq!(
        graph_of(vec![
            ext("a", Some("x")),
            GraphNode::new_subgraph_node("s".to_string(), None, "s.json".to_string())
        ])
        .app_uri_declaration_state(),
        AppUriDeclarationState::UniformDeclared
    );
}

#[test]
fn mixed_declaration_is_refused_whichever_node_is_the_source() {
    for (src, dst) in [("a", "b"), ("b", "a")] {
        let mut graph = graph_of(vec![ext("a", Some("msgpack://x/")), ext("b", None)]);
        let mut conn = GraphConnection::new(ext_loc(src, None));
        conn.cmd = Some(vec![flow("m", vec![dest(dst, None)])]);
        graph.connections = Some(vec![conn]);
        assert_eq!(graph.validate_and_complete(), Err(ValidationError::MixedAppDeclaration));
    }
}

#[test]
fn graph_validation_reports_the_connection_index() {
    let mut graph = graph_of(vec![ext("a", None), ext("b", None)]);
    let mut ok = GraphConnection::new(ext_loc("a", None));
    ok.cmd = Some(vec![flow("m", vec![dest("b", None)])]);
    let mut bad = GraphConnection::new(ext_loc("b", None));
    bad.audio_frame = Some(vec![flow("m", vec![dest("a", Some("localhost"))])]);
    graph.connections = Some(vec![ok, bad]);
    assert_eq!(
        graph.validate_and_complete(),
        Err(ValidationError::Connection {
            index: 1,
            error: ConnectionError::Flow {
                kind: MsgType::AudioFrame,
                index: 0,
                error: FlowError::Dest {
                    index: 0,
                    error: DestError::Loc { cause: LocError::LocalhostForbidden { single_app: true } }
                }
            }
        })
    );
    graph.connections.as_mut().unwrap().pop();
    assert_eq!(graph.validate_and_complete(), Ok(()));
}

#[test]
fn merging_flows_is_idempotent() {
    let mut flows = None;
    add_to_flow(&mut flows, flow("m", vec![dest("b", None)]));
    add_to_flow(&mut flows, flow("m", vec![dest("b", None)]));
    assert_eq!(flows.as_ref().unwrap().len(), 1);
    assert_eq!(flows.as_ref().unwrap()[0].dest.len(), 1);
    add_to_flow(&mut flows, flow("m", vec![dest("c", None)]));
    add_to_flow(&mut flows, flow("n", vec![dest("b", None)]));
    // The application is part of a destination's identity.
    add_to_flow(&mut flows, flow("m", vec![dest("b", Some("x"))]));
    let flows = flows.unwrap();
    assert_eq!(flows.len(), 2);
    assert_eq!(flows[0].dest, vec![dest("b", None), dest("c", None), dest("b", Some("x"))]);
    assert_eq!(flows[1].name, Some("n".to_string()));
}

#[test]
fn merging_takes_only_the_first_destination_into_an_existing_flow() {
    let mut flows = Some(vec![flow("m", vec![dest("a", None)])]);
    add_to_flow(&mut flows, flow("m", vec![dest("b", None), dest("c", None)]));
    assert_eq!(flows.unwrap()[0].dest, vec![dest("a", None), dest("b", None)]);
}

#[test]
fn flows_go_to_the_list_of_their_kind() {
    let mut conn = GraphConnection::new(ext_loc("a", None));
    for (kind, name) in [
        (MsgType::Cmd, "c"),
        (MsgType::Data, "d"),
        (MsgType::AudioFrame, "a"),
        (MsgType::VideoFrame, "v"),
    ] {
        assert_eq!(
            add_message_flow_to_connection(&mut conn, &kind, flow(name, vec![dest("b", None)])),
            Ok(())
        );
    }
    assert_eq!(conn.cmd.unwrap()[0].name, Some("c".to_string()));
    assert_eq!(conn.data.unwrap()[0].name, Some("d".to_string()));
    assert_eq!(conn.audio_frame.unwrap()[0].name, Some("a".to_string()));
    assert_eq!(conn.video_frame.unwrap()[0].name, Some("v".to_string()));
}

fn add(
    graph: &mut Graph,
    src: &str,
    dst: &str,
    kind: MsgType,
    names: &[&str],
) -> Result<(), GraphError> {
    graph_add_connection(
        graph,
        ext_loc(src, None),
        ext_loc(dst, None),
        kind,
        names.iter().map(|n| n.to_string()).collect(),
        None,
        Ok(()),
    )
}

#[test]
fn adding_a_connection_creates_connection_and_flow() {
    let mut graph = graph_of(vec![ext("a", None), ext("b", None), ext("c", None)]);
    assert_eq!(add(&mut graph, "a", "b", MsgType::Cmd, &["m"]), Ok(()));
    assert_eq!(add(&mut graph, "a", "c", MsgType::Cmd, &["m"]), Ok(()));
    assert_eq!(add(&mut graph, "a", "c", MsgType::Data, &["x", "y"]), Ok(()));
    assert_eq!(add(&mut graph, "b", "c", MsgType::Cmd, &["m"]), Ok(()));
    let connections = graph.connections.as_ref().unwrap();
    assert_eq!(connections.len(), 2);
    assert!(connections[0].loc.matches(&ext_loc("a", None)));
    let cmd = connections[0].cmd.as_ref().unwrap();
    assert_eq!(cmd.len(), 1);
    assert_eq!(cmd[0].name, Some("m".to_string()));
    assert_eq!(cmd[0].dest, vec![dest("b", None), dest("c", None)]);
    let data = connections[0].data.as_ref().unwrap();
    assert_eq!(data[0].name, None);
    assert_eq!(data[0].names, Some(vec!["x".to_string(), "y".to_string()]));
    assert!(connections[1].loc.matches(&ext_loc("b", None)));
}

#[test]
fn adding_the_same_connection_twice_is_refused_and_changes_nothing() {
    let mut graph = graph_of(vec![ext("a", None), ext("b", None)]);
    assert_eq!(add(&mut graph, "a", "b", MsgType::Cmd, &["m"]), Ok(()));
    let before = graph.clone();
    assert_eq!(
        add(&mut graph, "a", "b", MsgType::Cmd, &["m"]),
        Err(GraphError::ConnectionAlreadyExists {
            msg_type: MsgType::Cmd,
            msg_name: "m".to_string(),
            src_type: GraphNodeType::Extension,
            src_name: "a".to_string(),
            dest_type: GraphNodeType::Extension,
            dest_name: "b".to_string(),
        })
    );
    assert_eq!(graph, before);
    assert_eq!(graph.connections.as_ref().unwrap()[0].cmd.as_ref().unwrap()[0].dest.len(), 1);
    // Another kind of message is another connection.
    assert_eq!(add(&mut graph, "a", "b", MsgType::Data, &["m"]), Ok(()));
}

#[test]
fn failures_of_adding_leave_the_graph_unchanged() {
    let mut graph = graph_of(vec![ext("a", None), ext("b", None)]);
    assert_eq!(add(&mut graph, "a", "b", MsgType::Cmd, &["m"]), Ok(()));
    let before = graph.clone();

    assert_eq!(
        add(&mut graph, "zz", "b", MsgType::Cmd, &["n"]),
        Err(GraphError::NodeNotFound {
            node_type: GraphNodeType::Extension,
            name: "zz".to_string()
        })
    );
    assert_eq!(
        add(&mut graph, "a", "zz", MsgType::Cmd, &["n"]),
        Err(GraphError::NodeNotFound {
            node_type: GraphNodeType::Extension,
            name: "zz".to_string()
        })
    );
    assert_eq!(add(&mut graph, "a", "b", MsgType::Cmd, &[]), Err(GraphError::EmptyMessageName));
    assert_eq!(
        graph_add_connection(
            &mut graph,
            ext_loc("a", None),
            ext_loc("b", None),
            MsgType::Cmd,
            vec!["n".to_string()],
            Some(MsgAndResultConversion { msg: None, result: None }),
            Err("schema mismatch".to_string()),
        ),
        Err(GraphError::SchemaMismatch { reason: "schema mismatch".to_string() })
    );
    // An existing connection is reported before the schema verdict is read.
    assert!(matches!(
        graph_add_connection(
            &mut graph,
            ext_loc("a", None),
            ext_loc("b", None),
            MsgType::Cmd,
            vec!["m".to_string()],
            None,
            Err("schema mismatch".to_string()),
        ),
        Err(GraphError::ConnectionAlreadyExists { .. })
    ));
    assert_eq!(graph, before);
}

#[test]
fn an_add_that_invalidates_the_graph_is_rolled_back() {
    let mut graph = graph_of(vec![ext("a", Some("msgpack://x/")), ext("b", Some("msgpack://y/"))]);
    let before = graph.clone();
    // The nodes are found by kind and name; the locations fail because they
    // name no application although the nodes do.
    assert_eq!(
        add(&mut graph, "a", "b", MsgType::Cmd, &["m"]),
        Err(GraphError::Invalid {
            error: ValidationError::Connection {
                index: 0,
                error: ConnectionError::Loc {
                    cause: LocError::AppUriShouldBeDeclared { single_app: false }
                }
            }
        })
    );
    let mut mixed = graph_of(vec![ext("a", None), ext("b", Some("msgpack://y/"))]);
    let mixed_before = mixed.clone();
    assert_eq!(
        add(&mut mixed, "a", "b", MsgType::Cmd, &["m"]),
        Err(GraphError::Invalid { error: ValidationError::MixedAppDeclaration })
    );
    assert_eq!(mixed, mixed_before);
    let mut local = graph_of(vec![ext("a", None), ext("b", None)]);
    assert_eq!(
        graph_add_connection(
            &mut local,
            ext_loc("a", None),
            ext_loc("b", Some("localhost")),
            MsgType::Cmd,
            vec!["m".to_string()],
            None,
            Ok(()),
        ),
        Err(GraphError::Invalid {
            error: ValidationError::Connection {
                index: 0,
                error: ConnectionError::Flow {
                    kind: MsgType::Cmd,
                    index: 0,
                    error: FlowError::Dest {
                        index: 0,
                        error: DestError::Loc { cause: LocError::LocalhostForbidden { single_app: true } }
                    }
                }
            }
        })
    );
    assert_eq!(local.connections, None);
    assert_eq!(graph, before);
}

#[test]
fn existing_connections_are_found_by_name_and_destination() {
    let mut graph = graph_of(vec![ext("a", None), ext("b", None), ext("c", None)]);
    assert_eq!(add(&mut graph, "a", "b", MsgType::Cmd, &["m"]), Ok(()));
    let names = |v: &[&str]| v.iter().map(|s| s.to_string()).collect::<Vec<_>>();
    let a = ext_loc("a", None);
    let b = ext_loc("b", None);
    let c = ext_loc("c", None);
    assert!(check_connection_exists(&graph, &a, &b, &MsgType::Cmd, &names(&["x", "m"])).is_err());
    assert_eq!(check_connection_exists(&graph, &a, &b, &MsgType::Cmd, &names(&["x"])), Ok(()));
    assert_eq!(check_connection_exists(&graph, &a, &c, &MsgType::Cmd, &names(&["m"])), Ok(()));
    assert_eq!(check_connection_exists(&graph, &b, &b, &MsgType::Cmd, &names(&["m"])), Ok(()));
    assert_eq!(check_connection_exists(&graph, &a, &b, &MsgType::Data, &names(&["m"])), Ok(()));
}

#[test]
fn a_connection_under_several_names_is_refused_the_second_time() {
    let mut graph = graph_of(vec![ext("a", None), ext("b", None)]);
    assert_eq!(add(&mut graph, "a", "b", MsgType::Cmd, &["x", "y"]), Ok(()));
    let before = graph.clone();
    assert_eq!(
        add(&mut graph, "a", "b", MsgType::Cmd, &["x", "y"]),
        Err(GraphError::ConnectionAlreadyExists {
            msg_type: MsgType::Cmd,
            msg_name: "x".to_string(),
            src_type: GraphNodeType::Extension,
            src_name: "a".to_string(),
            dest_type: GraphNodeType::Extension,
            dest_name: "b".to_string(),
        })
    );
    assert_eq!(graph, before);
}

#[test]
fn flows_under_different_lists_of_names_stay_apart() {
    let under = |names: &[&str], to: &str| {
        GraphMessageFlow::new(
            None,
            Some(names.iter().map(|n| n.to_string()).collect()),
            vec![dest(to, None)],
            vec![],
        )
    };
    let mut flows = Some(vec![under(&["a", "b"], "x")]);
    add_to_flow(&mut flows, under(&["c", "d"], "y"));
    let flows = flows.unwrap();
    assert_eq!(flows.len(), 2);
    assert_eq!(flows[0], under(&["a", "b"], "x"));
    assert_eq!(flows[1], under(&["c", "d"], "y"));
    // The same list is the same flow; the order of the names counts.
    let mut flows = Some(flows);
    add_to_flow(&mut flows, under(&["a", "b"], "y"));
    add_to_flow(&mut flows, under(&["b", "a"], "y"));
    let flows = flows.unwrap();
    assert_eq!(flows.len(), 3);
    assert_eq!(flows[0].dest, vec![dest("x", None), dest("y", None)]);
    // A single name and a list of that one name are different namings.
    let mut flows = Some(vec![flow("a", vec![dest("x", None)])]);
    add_to_flow(&mut flows, under(&["a"], "y"));
    assert_eq!(flows.unwrap().len(), 2);
}

#[test]
fn a_connection_under_several_names_gains_a_flow_of_its_own() {
    let mut graph = graph_of(vec![ext("a", None), ext("b", None), ext("c", None)]);
    assert_eq!(add(&mut graph, "a", "b", MsgType::Cmd, &["a1", "a2"]), Ok(()));
    assert_eq!(add(&mut graph, "a", "c", MsgType::Cmd, &["c1", "c2"]), Ok(()));
    assert_eq!(add(&mut graph, "a", "c", MsgType::Cmd, &["a1", "a2"]), Ok(()));
    let cmd = graph.connections.as_ref().unwrap()[0].cmd.as_ref().unwrap();
    assert_eq!(cmd.len(), 2);
    assert_eq!(cmd[0].name, None);
    assert_eq!(cmd[0].names, Some(vec!["a1".to_string(), "a2".to_string()]));
    assert_eq!(cmd[0].dest, vec![dest("b", None), dest("c", None)]);
    assert_eq!(cmd[0].source, vec![]);
    assert_eq!(cmd[1].names, Some(vec!["c1".to_string(), "c2".to_string()]));
    assert_eq!(cmd[1].dest, vec![dest("c", None)]);
}

#[test]
fn a_destination_listed_under_a_list_of_names_is_found() {
    let mut graph = graph_of(vec![ext("a", None), ext("b", None)]);
    let mut conn = GraphConnection::new(ext_loc("a", None));
    conn.cmd = Some(vec![GraphMessageFlow::new(
        None,
        Some(vec!["m".to_string(), "n".to_string()]),
        vec![dest("b", None)],
        vec![],
    )]);
    graph.connections = Some(vec![conn]);
    let before = graph.clone();
    for (names, reported) in [
        (vec!["m"], "m"),
        (vec!["n"], "n"),
        (vec!["z", "n", "m"], "n"),
    ] {
        assert_eq!(
            add(&mut graph, "a", "b", MsgType::Cmd, &names),
            Err(GraphError::ConnectionAlreadyExists {
                msg_type: MsgType::Cmd,
                msg_name: reported.to_string(),
                src_type: GraphNodeType::Extension,
                src_name: "a".to_string(),
                dest_type: GraphNodeType::Extension,
                dest_name: "b".to_string(),
            })
        );
        assert_eq!(graph, before);
    }
    assert_eq!(add(&mut graph, "a", "b", MsgType::Cmd, &["z"]), Ok(()));
    assert_eq!(add(&mut graph, "a", "b", MsgType::Data, &["m"]), Ok(()));
}

fn fixed(path: &str, value: Option<&str>) -> MsgConversionRule {
    MsgConversionRule {
        path: path.to_string(),
        conversion_mode: MsgConversionMode::FixedValue,
        original_path: None,
        value: value.map(|v| v.to_string()),
    }
}

fn copied(path: &str, original_path: Option<&str>) -> MsgConversionRule {
    MsgConversionRule {
        path: path.to_string(),
        conversion_mode: MsgConversionMode::FromOriginal,
        original_path: original_path.map(|v| v.to_string()),
        value: None,
    }
}

fn conversion(rules: Vec<MsgConversionRule>) -> MsgConversion {
    MsgConversion { conversion_type: MsgConversionType::PerProperty, rules, keep_original: None }
}

#[test]
fn conversion_rules_must_hold_what_their_mode_needs() {
    assert_eq!(fixed("a", Some("1")).validate(), Ok(()));
    assert_eq!(fixed("a", None).validate(), Err(RuleError::MissingValue));
    assert_eq!(copied("a", Some("b")).validate(), Ok(()));
    assert_eq!(copied("a", None).validate(), Err(RuleError::MissingOriginalPath));
    // What the mode does not need may be there or not.
    let mut both = fixed("a", Some("true"));
    both.original_path = Some("b".to_string());
    assert_eq!(both.validate(), Ok(()));

    let good = conversion(vec![fixed("a", Some("\"x\"")), copied("b", Some("c"))]);
    let bad = conversion(vec![fixed("a", Some("1")), copied("b", None), fixed("c", None)]);
    assert_eq!(good.first_invalid_rule(), None);
    assert_eq!(bad.first_invalid_rule(), Some((1, RuleError::MissingOriginalPath)));
    assert_eq!(MsgAndResultConversion { msg: None, result: None }.validate(), Ok(()));
    assert_eq!(
        MsgAndResultConversion { msg: Some(conversion(vec![fixed("a", Some("\"x\"")), copied("b", Some("c"))])), result: Some(conversion(vec![fixed("a", Some("1")), copied("b", None), fixed("c", None)])) }
            .validate(),
        Err(ConversionError::Result { rule: 1, error: RuleError::MissingOriginalPath })
    );
    assert_eq!(
        MsgAndResultConversion { msg: Some(bad), result: Some(conversion(vec![fixed("z", None)])) }
            .validate(),
        Err(ConversionError::Msg { rule: 1, error: RuleError::MissingOriginalPath })
    );
}

#[test]
fn a_destination_with_an_invalid_conversion_rule_is_refused() {
    let state = AppUriDeclarationState::NoneDeclared;
    let invalid = || MsgAndResultConversion {
        msg: Some(conversion(vec![fixed("a", None)])),
        result: None,
    };
    let mut d = dest("b", None);
    d.msg_conversion = Some(invalid());
    assert_eq!(
        d.validate_and_complete(&state),
        Err(DestError::Conversion {
            error: ConversionError::Msg { rule: 0, error: RuleError::MissingValue }
        })
    );
    // The location is looked at first.
    d.loc.app = Some("localhost".to_string());
    assert_eq!(
        d.validate_and_complete(&state),
        Err(DestError::Loc { cause: LocError::LocalhostForbidden { single_app: true } })
    );
    d.loc.app = None;
    let mut conn = GraphConnection::new(ext_loc("a", None));
    conn.data = Some(vec![flow("m", vec![dest("c", None), d])]);
    let expected = ConnectionError::Flow {
        kind: MsgType::Data,
        index: 0,
        error: FlowError::Dest {
            index: 1,
            error: DestError::Conversion {
                error: ConversionError::Msg { rule: 0, error: RuleError::MissingValue },
            },
        },
    };
    assert_eq!(conn.validate_and_complete(&state), Err(expected));
    assert_eq!(
        expected.to_string(),
        "data[0]: dest[1]: invalid msg_conversion: msg.rules[0]: 'value' is required when \
         conversion_mode is 'fixed_value'"
    );

    let mut graph = graph_of(vec![ext("a", None), ext("b", None)]);
    assert_eq!(
        graph_add_connection(
            &mut graph,
            ext_loc("a", None),
            ext_loc("b", None),
            MsgType::Cmd,
            vec!["m".to_string()],
            Some(invalid()),
            Ok(()),
        ),
        Err(GraphError::Invalid {
            error: ValidationError::Connection {
                index: 0,
                error: ConnectionError::Flow {
                    kind: MsgType::Cmd,
                    index: 0,
                    error: FlowError::Dest {
                        index: 0,
                        error: DestError::Conversion {
                            error: ConversionError::Msg { rule: 0, error: RuleError::MissingValue },
                        },
                    },
                },
            },
        })
    );
    assert_eq!(graph.connections, None);
    let valid = MsgAndResultConversion {
        msg: Some(conversion(vec![copied("a", Some("b"))])),
        result: Some(conversion(vec![fixed("ok", Some("true"))])),
    };
    assert_eq!(
        graph_add_connection(
            &mut graph,
            ext_loc("a", None),
            ext_loc("b", None),
            MsgType::Cmd,
            vec!["m".to_string()],
            Some(valid.clone()),
            Ok(()),
        ),
        Ok(())
    );
    let kept = &graph.connections.as_ref().unwrap()[0].cmd.as_ref().unwrap()[0].dest[0];
    assert_eq!(kept.msg_conversion, Some(valid));
}

#[test]
fn exposed_categories() {
    assert_eq!(
        exposed_message_type(MsgType::Cmd, MsgDirection::In),
        GraphExposedMessageType::CmdIn
    );
    assert_eq!(
        exposed_message_type(MsgType::VideoFrame, MsgDirection::Out),
        GraphExposedMessageType::VideoFrameOut
    );
    for t in [
        GraphExposedMessageType::CmdIn,
        GraphExposedMessageType::CmdOut,
        GraphExposedMessageType::DataIn,
        GraphExposedMessageType::DataOut,
        GraphExposedMessageType::AudioFrameIn,
        GraphExposedMessageType::AudioFrameOut,
        GraphExposedMessageType::VideoFrameIn,
        GraphExposedMessageType::VideoFrameOut,
    ] {
        assert_eq!(exposed_message_type(t.msg_type(), t.direction()), t);
    }
}

#[test]
fn the_default_application_is_left_out() {
    assert!(is_app_default_loc_or_none(&None));
    assert!(is_app_default_loc_or_none(&Some("localhost".to_string())));
    assert!(!is_app_default_loc_or_none(&Some("msgpack://127.0.0.1:8001/".to_string())));
    assert!(!is_app_default_loc_or_none(&Some("".to_string())));
}

#[test]
fn validation_errors_in_words() {
    let error = ValidationError::Connection {
        index: 12,
        error: ConnectionError::Flow {
            kind: MsgType::Cmd,
            index: 2,
            error: FlowError::Dest {
                index: 0,
                error: DestError::Loc { cause: LocError::LocalhostForbidden { single_app: true } },
            },
        },
    };
    assert_eq!(
        error.to_string(),
        "connections[12]: cmd[2]: dest[0]: 'localhost' is not allowed in graph definition \
         (single-app graph)"
    );
    assert_eq!(
        ConnectionError::Flow {
            kind: MsgType::VideoFrame,
            index: 100,
            error: FlowError::EmptyNames
        }
        .to_string(),
        "video_frame[100]: 'names' field is empty, must contain at least one name"
    );
    assert_eq!(
        ConnectionError::Loc { cause: LocError::AppUriShouldBeDeclared { single_app: false } }
            .to_string(),
        "'app' field should be declared, as the nodes of the graph declare it (multi-app graph)"
    );
    assert!(ValidationError::MixedAppDeclaration.to_string().contains("not a mix of both"));
    assert!(FlowError::BothNameAndNames.to_string().contains("mutually exclusive"));
    assert!(FlowError::NeitherNameNorNames.to_string().contains("one must be provided"));
    assert!(LocError::UnknownNodeType.to_string().contains("Unknown node type"));
    assert!(LocError::AppUriShouldNotBeDeclared { single_app: true }
        .to_string()
        .contains("should not be declared"));
}

#[test]
fn edit_errors_in_words() {
    assert_eq!(
        GraphError::NodeNotFound { node_type: GraphNodeType::Subgraph, name: "s".to_string() }
            .to_string(),
        "subgraph node 's' not found in graph"
    );
    assert_eq!(
        GraphError::ConnectionAlreadyExists {
            msg_type: MsgType::AudioFrame,
            msg_name: "pcm".to_string(),
            src_type: GraphNodeType::Extension,
            src_name: "a".to_string(),
            dest_type: GraphNodeType::Subgraph,
            dest_name: "b".to_string(),
        }
        .to_string(),
        "Connection already exists: src: extension 'a', msg_type: audio_frame, msg_name: pcm, \
         dest: subgraph 'b'"
    );
    assert_eq!(GraphError::SchemaMismatch { reason: "why".to_string() }.to_string(), "why");
    assert_eq!(GraphError::EmptyMessageName.to_string(), "Message name is empty");
    assert_eq!(
        GraphError::Invalid { error: ValidationError::MixedAppDeclaration }.to_string(),
        ValidationError::MixedAppDeclaration.to_string()
    );
    assert_eq!(GraphError::UnknownNodeType.to_string(), LocError::UnknownNodeType.to_string());
}

#[test]
fn a_shadowed_destination_is_not_added() {
    // Destinations are told apart by extension and application alone, so a
    // second subgraph under the same message name is taken for the first.
    let sub = |name: &str| {
        GraphLoc::with_app_and_type_and_name(None, GraphNodeType::Subgraph, name.to_string())
            .unwrap()
    };
    let mut graph = graph_of(vec![
        ext("a", None),
        GraphNode::new_subgraph_node("s1".to_string(), None, "s1.json".to_string()),
        GraphNode::new_subgraph_node("s2".to_string(), None, "s2.json".to_string()),
    ]);
    let add_sub = |graph: &mut Graph, name: &str| {
        graph_add_connection(
            graph,
            ext_loc("a", None),
            sub(name),
            MsgType::Cmd,
            vec!["m".to_string()],
            None,
            Ok(()),
        )
    };
    assert_eq!(add_sub(&mut graph, "s1"), Ok(()));
    let before = graph.clone();
    assert_eq!(add_sub(&mut graph, "s2"), Ok(()));
    assert_eq!(graph, before);
    assert_eq!(add_sub(&mut graph, "s2"), Ok(()));
    assert_eq!(graph, before);
    // The destination that is there is refused as existing.
    assert!(matches!(
        add_sub(&mut graph, "s1"),
        Err(GraphError::ConnectionAlreadyExists { .. })
    ));
}

#[test]
fn conversion_errors_in_words() {
    assert_eq!(
        ConversionError::Result { rule: 3, error: RuleError::MissingOriginalPath }.to_string(),
        "result.rules[3]: 'original_path' is required when conversion_mode is 'from_original'"
    );
    assert_eq!(
        DestError::Conversion {
            error: ConversionError::Msg { rule: 0, error: RuleError::MissingValue }
        }
        .to_string(),
        "invalid msg_conversion: msg.rules[0]: 'value' is required when conversion_mode is \
         'fixed_value'"
    );
    assert_eq!(
        DestError::Loc { cause: LocError::UnknownNodeType }.to_string(),
        LocError::UnknownNodeType.to_string()
    );
}
