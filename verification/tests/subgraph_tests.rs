use ten_graph::connection::GraphLoc;
use ten_graph::graph::{Graph, GraphExposedMessage};
use ten_graph::kinds::{GraphExposedMessageType, GraphNodeType, MsgDirection, MsgType};
use ten_graph::location::ResolveError;
use ten_graph::node::GraphNode;
use ten_graph::subgraph::{LoadedGraph, SubgraphError, Target};

fn extension(name: &str, addon: &str) -> GraphNode {
    GraphNode::new_extension_node(name.to_string(), addon.to_string(), None, None, None)
}

fn subgraph(name: &str, import_uri: &str) -> GraphNode {
    GraphNode::new_subgraph_node(name.to_string(), None, import_uri.to_string())
}

fn exposed(
    msg_type: GraphExposedMessageType,
    name: &str,
    extension: Option<&str>,
    subgraph: Option<&str>,
) -> GraphExposedMessage {
    GraphExposedMessage {
        msg_type,
        name: name.to_string(),
        extension: extension.map(|s| s.to_string()),
        subgraph: subgraph.map(|s| s.to_string()),
    }
}

fn graph(nodes: Vec<GraphNode>, exposed_messages: Option<Vec<GraphExposedMessage>>) -> Graph {
    Graph { nodes, connections: None, exposed_messages, exposed_properties: None }
}

fn loaded(uri: &str, graph: Graph) -> LoadedGraph {
    LoadedGraph { uri: uri.to_string(), graph }
}

fn outer() -> Graph {
    graph(vec![extension("top", "top_addon"), subgraph("sub", "sub/graph.json")], None)
}

fn middle() -> Graph {
    graph(
        vec![extension("worker", "worker_addon"), subgraph("inner", "../deep/inner.json")],
        Some(vec![
            exposed(GraphExposedMessageType::CmdIn, "start", Some("worker"), None),
            exposed(GraphExposedMessageType::CmdIn, "stop", None, Some("inner")),
            exposed(GraphExposedMessageType::DataOut, "report", Some("ghost"), None),
            exposed(GraphExposedMessageType::DataIn, "nothing", None, None),
        ]),
    )
}

fn innermost() -> Graph {
    graph(
        vec![extension("stopper", "stopper_addon")],
        Some(vec![exposed(GraphExposedMessageType::CmdIn, "stop", Some("stopper"), None)]),
    )
}

fn documents() -> Vec<LoadedGraph> {
    vec![
        loaded("file:///app/sub/graph.json", middle()),
        loaded("file:///app/deep/inner.json", innermost()),
    ]
}

fn resolve(
    docs: &Vec<LoadedGraph>,
    name: &str,
    kind: MsgType,
    msg: &str,
    direction: MsgDirection,
    depth: usize,
) -> Result<String, SubgraphError> {
    outer()
        .get_extension_node_from_subgraph_using_exposed_message(
            &Some("file:///app".to_string()),
            name,
            &kind,
            msg,
            direction,
            docs,
            depth,
        )
        .map(|n| n.addon)
}

#[test]
fn an_exposed_message_leads_to_its_extension() {
    assert_eq!(
        resolve(&documents(), "sub", MsgType::Cmd, "start", MsgDirection::In, 8),
        Ok("worker_addon".to_string())
    );
}

#[test]
fn nested_subgraphs_are_followed_relative_to_their_document() {
    assert_eq!(
        resolve(&documents(), "sub", MsgType::Cmd, "stop", MsgDirection::In, 8),
        Ok("stopper_addon".to_string())
    );
    // Two documents are entered on the way.
    assert_eq!(
        resolve(&documents(), "sub", MsgType::Cmd, "stop", MsgDirection::In, 2),
        Ok("stopper_addon".to_string())
    );
    assert_eq!(
        resolve(&documents(), "sub", MsgType::Cmd, "stop", MsgDirection::In, 1),
        Err(SubgraphError::DepthExceeded { subgraph: "inner".to_string() })
    );
}

#[test]
fn a_missing_document_is_asked_for_by_its_location() {
    let mut docs = documents();
    docs.pop();
    assert_eq!(
        resolve(&docs, "sub", MsgType::Cmd, "stop", MsgDirection::In, 8),
        Err(SubgraphError::NotLoaded { uri: "file:///app/deep/inner.json".to_string() })
    );
    assert_eq!(
        resolve(&vec![], "sub", MsgType::Cmd, "start", MsgDirection::In, 8),
        Err(SubgraphError::NotLoaded { uri: "file:///app/sub/graph.json".to_string() })
    );
}

#[test]
fn resolution_failures() {
    let docs = documents();
    assert_eq!(
        resolve(&docs, "nobody", MsgType::Cmd, "start", MsgDirection::In, 8),
        Err(SubgraphError::SubgraphNodeMissing { name: "nobody".to_string() })
    );
    // An extension of that name is no subgraph.
    assert_eq!(
        resolve(&docs, "top", MsgType::Cmd, "start", MsgDirection::In, 8),
        Err(SubgraphError::SubgraphNodeMissing { name: "top".to_string() })
    );
    assert_eq!(
        resolve(&docs, "sub", MsgType::Cmd, "start", MsgDirection::Out, 8),
        Err(SubgraphError::MessageNotExposed {
            subgraph: "sub".to_string(),
            msg_name: "start".to_string(),
            msg_type: GraphExposedMessageType::CmdOut,
        })
    );
    assert_eq!(
        resolve(&docs, "sub", MsgType::Data, "nothing", MsgDirection::In, 8),
        Err(SubgraphError::ExposedMessageMissingExtension {
            subgraph: "sub".to_string(),
            msg_name: "nothing".to_string(),
        })
    );
    assert_eq!(
        resolve(&docs, "sub", MsgType::Data, "report", MsgDirection::Out, 8),
        Err(SubgraphError::SubgraphTargetUnresolved {
            subgraph: "sub".to_string(),
            target: "ghost".to_string(),
        })
    );
    assert_eq!(
        resolve(&docs, "sub", MsgType::Cmd, "start", MsgDirection::In, 0),
        Err(SubgraphError::DepthExceeded { subgraph: "sub".to_string() })
    );
}

#[test]
fn documents_that_refer_to_each_other_end_in_depth_exceeded() {
    let looping = graph(
        vec![subgraph("again", "loop.json")],
        Some(vec![exposed(GraphExposedMessageType::CmdIn, "m", None, Some("again"))]),
    );
    let start = graph(vec![subgraph("again", "loop.json")], None);
    let docs = vec![loaded("/w/loop.json", looping)];
    assert_eq!(
        start.get_extension_node_from_subgraph_using_exposed_message(
            &Some("/w".to_string()),
            "again",
            &MsgType::Cmd,
            "m",
            MsgDirection::In,
            &docs,
            16,
        ),
        Err(SubgraphError::DepthExceeded { subgraph: "again".to_string() })
    );
}

#[test]
fn an_import_reference_that_cannot_be_resolved() {
    let g = graph(vec![subgraph("s", "/abs/graph.json")], None);
    assert_eq!(
        g.get_extension_node_from_subgraph_using_exposed_message(
            &None,
            "s",
            &MsgType::Cmd,
            "m",
            MsgDirection::In,
            &vec![],
            4,
        ),
        Err(SubgraphError::Unresolvable {
            subgraph: "s".to_string(),
            error: ResolveError::AbsolutePathNotSupported,
        })
    );
}

#[test]
fn targets_inside_a_document() {
    let doc = middle();
    assert_eq!(
        Graph::resolve_subgraph_to_extension("sub", "start", GraphExposedMessageType::CmdIn, &doc),
        Ok("worker".to_string())
    );
    assert_eq!(
        Graph::resolve_subgraph_to_extension("sub", "stop", GraphExposedMessageType::CmdIn, &doc),
        Ok("inner".to_string())
    );
    match doc.find_target_in_document("sub", "start", GraphExposedMessageType::CmdIn) {
        Ok(Target::Extension { node }) => assert_eq!(node.addon, "worker_addon"),
        other => panic!("unexpected target {:?}", other),
    }
    assert_eq!(
        doc.find_target_in_document("sub", "stop", GraphExposedMessageType::CmdIn),
        Ok(Target::Nested { subgraph: "inner".to_string() })
    );
    let bare = graph(vec![], None);
    assert_eq!(
        Graph::resolve_subgraph_to_extension("s", "m", GraphExposedMessageType::DataOut, &bare),
        Err(SubgraphError::MessageNotExposed {
            subgraph: "s".to_string(),
            msg_name: "m".to_string(),
            msg_type: GraphExposedMessageType::DataOut,
        })
    );
}

#[test]
fn inbound_categories_by_name() {
    assert_eq!(
        Graph::get_exposed_message_type_for_dest_subgraph("cmd"),
        Ok(GraphExposedMessageType::CmdIn)
    );
    assert_eq!(
        Graph::get_exposed_message_type_for_dest_subgraph("data"),
        Ok(GraphExposedMessageType::DataIn)
    );
    assert_eq!(
        Graph::get_exposed_message_type_for_dest_subgraph("audio_frame"),
        Ok(GraphExposedMessageType::AudioFrameIn)
    );
    assert_eq!(
        Graph::get_exposed_message_type_for_dest_subgraph("video_frame"),
        Ok(GraphExposedMessageType::VideoFrameIn)
    );
    assert_eq!(
        Graph::get_exposed_message_type_for_dest_subgraph("cmd_in"),
        Err(SubgraphError::UnknownMessageType { text: "cmd_in".to_string() })
    );
}

#[test]
fn addons_behind_locations() {
    let g = graph(
        vec![
            GraphNode::new_extension_node(
                "e".to_string(),
                "first".to_string(),
                None,
                Some("app1".to_string()),
                None,
            ),
            GraphNode::new_extension_node(
                "e".to_string(),
                "second".to_string(),
                None,
                Some("app2".to_string()),
                None,
            ),
            subgraph("sub", "sub/graph.json"),
        ],
        None,
    );
    let docs = documents();
    let base = Some("file:///app".to_string());
    let ask = |loc: &GraphLoc| {
        g.get_addon_name_of_node(&base, loc, &MsgType::Cmd, "start", MsgDirection::In, &docs, 4)
    };
    let on = |app: &str| {
        GraphLoc::with_app_and_type_and_name(
            Some(app.to_string()),
            GraphNodeType::Extension,
            "e".to_string(),
        )
        .unwrap()
    };
    assert_eq!(ask(&on("app2")), Ok("second".to_string()));
    assert_eq!(ask(&on("app1")), Ok("first".to_string()));
    assert_eq!(ask(&on("app3")), Err(SubgraphError::ExtensionNotFound { name: "e".to_string() }));
    let sub = GraphLoc::with_app_and_type_and_name(None, GraphNodeType::Subgraph, "sub".to_string())
        .unwrap();
    assert_eq!(ask(&sub), Ok("worker_addon".to_string()));
    let sel = GraphLoc::with_app_and_type_and_name(None, GraphNodeType::Selector, "s".to_string())
        .unwrap();
    assert_eq!(ask(&sel), Err(SubgraphError::SelectorNotSupported));
    assert_eq!(ask(&GraphLoc::new()), Err(SubgraphError::UnknownNodeType));
    assert_eq!(
        g.get_addon_name_of_extension(&None, "e"),
        Err(SubgraphError::ExtensionNotFound { name: "e".to_string() })
    );
}

#[test]
fn subgraph_errors_in_words() {
    assert_eq!(
        SubgraphError::MessageNotExposed {
            subgraph: "x".to_string(),
            msg_name: "y".to_string(),
            msg_type: GraphExposedMessageType::AudioFrameOut,
        }
        .to_string(),
        "subgraph 'x': message 'y' of type 'audio_frame_out' is not exposed"
    );
    assert_eq!(
        SubgraphError::Unresolvable {
            subgraph: "x".to_string(),
            error: ResolveError::BaseDirRequired,
        }
        .to_string(),
        "subgraph 'x': base_dir cannot be None when uri is a relative path"
    );
    assert_eq!(
        SubgraphError::SubgraphTargetUnresolved {
            subgraph: "x".to_string(),
            target: "t".to_string()
        }
        .to_string(),
        "subgraph 'x': extension or subgraph 't' not found"
    );
    assert_eq!(
        SubgraphError::ExposedMessageMissingExtension {
            subgraph: "x".to_string(),
            msg_name: "m".to_string()
        }
        .to_string(),
        "subgraph 'x': exposed message 'm' does not specify an extension"
    );
    assert_eq!(
        SubgraphError::SubgraphNodeMissing { name: "x".to_string() }.to_string(),
        "Subgraph 'x' is not found in nodes"
    );
    assert_eq!(
        SubgraphError::NotLoaded { uri: "file:///g.json".to_string() }.to_string(),
        "The graph at 'file:///g.json' is not loaded"
    );
    assert_eq!(
        SubgraphError::DepthExceeded { subgraph: "x".to_string() }.to_string(),
        "subgraph 'x': nesting is too deep"
    );
    assert_eq!(
        SubgraphError::ExtensionNotFound { name: "e".to_string() }.to_string(),
        "Extension 'e' is not found in nodes"
    );
    assert_eq!(
        SubgraphError::UnknownMessageType { text: "z".to_string() }.to_string(),
        "Unknown message type: z"
    );
    assert!(SubgraphError::SelectorNotSupported.to_string().contains("Selector"));
    assert!(SubgraphError::UnknownNodeType.to_string().contains("Unknown node type"));
}
