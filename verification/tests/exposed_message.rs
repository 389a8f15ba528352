use ten_graph::connection::{GraphConnection, GraphDestination, GraphLoc, GraphMessageFlow};
use ten_graph::graph::{Graph, GraphExposedMessage};
use ten_graph::kinds::{GraphExposedMessageType, GraphNodeType};
use ten_graph::node::GraphNode;
use ten_graph::proxy::ProxyError;

fn extension(name: &str, addon: &str) -> GraphNode {
    GraphNode::new_extension_node(
        name.to_string(),
        addon.to_string(),
        Some("some_group".to_string()),
        None,
        None,
    )
}

#[test]
fn test_inject_graph_proxy_with_cmd_in() {
    // Create a graph with cmd_in exposed message.
    let graph = Graph {
        nodes: vec![GraphNode::new_extension_node(
            "function_entry".to_string(),
            "function_entry_addon".to_string(),
            Some("some_group".to_string()),
            None,
            None,
        )],
        connections: None,
        exposed_messages: Some(vec![GraphExposedMessage {
            msg_type: GraphExposedMessageType::CmdIn,
            name: "function_call".to_string(),
            extension: Some("function_entry".to_string()),
            subgraph: None,
        }]),
        exposed_properties: None,
    };

    // Inject graph_proxy
    let result = graph.inject_graph_proxy_from_exposed_messages(None);
    assert!(result.is_ok());

    let new_graph = result.unwrap();
    assert!(new_graph.is_some());

    let new_graph = new_graph.unwrap();

    // Verify that ten:graph_proxy node was added
    assert_eq!(new_graph.nodes.len(), 2);
    assert!(new_graph.nodes.iter().any(|node| node.get_name() == "ten:graph_proxy"));

    // Verify connections were created
    let connections = new_graph.connections.unwrap();
    assert!(!connections.is_empty());

    // Find the connection from ten:graph_proxy
    let proxy_conn = connections
        .iter()
        .find(|conn| conn.loc.extension == Some("ten:graph_proxy".to_string()))
        .expect("Connection from ten:graph_proxy should exist");

    // Verify cmd connection exists
    assert!(proxy_conn.cmd.is_some());
    let cmd_flows = proxy_conn.cmd.as_ref().unwrap();
    assert_eq!(cmd_flows.len(), 1);
    assert_eq!(cmd_flows[0].name, Some("function_call".to_string()));

    // Verify destination
    assert_eq!(cmd_flows[0].dest.len(), 1);
    assert_eq!(cmd_flows[0].dest[0].loc.extension, Some("function_entry".to_string()));
}

#[test]
fn test_inject_graph_proxy_with_cmd_out() {
    // Create a graph with cmd_out exposed message.
    let graph = Graph {
        nodes: vec![GraphNode::new_extension_node(
            "tts".to_string(),
            "tts_addon".to_string(),
            Some("some_group".to_string()),
            None,
            None,
        )],
        connections: None,
        exposed_messages: Some(vec![GraphExposedMessage {
            msg_type: GraphExposedMessageType::CmdOut,
            name: "tts_complete".to_string(),
            extension: Some("tts".to_string()),
            subgraph: None,
        }]),
        exposed_properties: None,
    };

    // Inject graph_proxy
    let result = graph.inject_graph_proxy_from_exposed_messages(None);
    assert!(result.is_ok());

    let new_graph = result.unwrap();
    assert!(new_graph.is_some());

    let new_graph = new_graph.unwrap();

    // Verify that ten:graph_proxy node was added
    assert_eq!(new_graph.nodes.len(), 2);

    // Verify connections were created
    let connections = new_graph.connections.unwrap();
    assert!(!connections.is_empty());

    // Find the connection from tts
    let tts_conn = connections
        .iter()
        .find(|conn| conn.loc.extension == Some("tts".to_string()))
        .expect("Connection from tts should exist");

    // Verify cmd connection exists
    assert!(tts_conn.cmd.is_some());
    let cmd_flows = tts_conn.cmd.as_ref().unwrap();
    assert_eq!(cmd_flows.len(), 1);
    assert_eq!(cmd_flows[0].name, Some("tts_complete".to_string()));

    // Verify destination is ten:graph_proxy
    assert_eq!(cmd_flows[0].dest.len(), 1);
    assert_eq!(cmd_flows[0].dest[0].loc.extension, Some("ten:graph_proxy".to_string()));
}

#[test]
fn test_inject_graph_proxy_with_multiple_message_types() {
    // Create a graph with multiple message types.
    let graph = Graph {
        nodes: vec![
            GraphNode::new_extension_node(
                "function_entry".to_string(),
                "function_entry_addon".to_string(),
                Some("some_group".to_string()),
                None,
                None,
            ),
            GraphNode::new_extension_node(
                "tts".to_string(),
                "tts_addon".to_string(),
                Some("some_group".to_string()),
                None,
                None,
            ),
        ],
        connections: None,
        exposed_messages: Some(vec![
            GraphExposedMessage {
                msg_type: GraphExposedMessageType::CmdIn,
                name: "function_call".to_string(),
                extension: Some("function_entry".to_string()),
                subgraph: None,
            },
            GraphExposedMessage {
                msg_type: GraphExposedMessageType::AudioFrameOut,
                name: "pcm_frame".to_string(),
                extension: Some("tts".to_string()),
                subgraph: None,
            },
            GraphExposedMessage {
                msg_type: GraphExposedMessageType::DataIn,
                name: "input_data".to_string(),
                extension: Some("function_entry".to_string()),
                subgraph: None,
            },
            GraphExposedMessage {
                msg_type: GraphExposedMessageType::VideoFrameOut,
                name: "video_output".to_string(),
                extension: Some("tts".to_string()),
                subgraph: None,
            },
        ]),
        exposed_properties: None,
    };

    // Inject graph_proxy
    let result = graph.inject_graph_proxy_from_exposed_messages(None);
    assert!(result.is_ok());

    let new_graph = result.unwrap();
    assert!(new_graph.is_some());

    let new_graph = new_graph.unwrap();

    // Verify that ten:graph_proxy node was added
    assert_eq!(new_graph.nodes.len(), 3);

    // Verify connections were created
    let connections = new_graph.connections.unwrap();
    assert_eq!(connections.len(), 2);

    // Find the connection from ten:graph_proxy (for *_in messages)
    let proxy_conn = connections
        .iter()
        .find(|conn| conn.loc.extension == Some("ten:graph_proxy".to_string()))
        .expect("Connection from ten:graph_proxy should exist");

    // Verify cmd_in and data_in connections
    assert!(proxy_conn.cmd.is_some());
    assert!(proxy_conn.data.is_some());
    assert_eq!(proxy_conn.cmd.as_ref().unwrap().len(), 1);
    assert_eq!(proxy_conn.data.as_ref().unwrap().len(), 1);

    // Find the connection from tts (for *_out messages)
    let tts_conn = connections
        .iter()
        .find(|conn| conn.loc.extension == Some("tts".to_string()))
        .expect("Connection from tts should exist");

    // Verify audio_frame_out and video_frame_out connections
    assert!(tts_conn.audio_frame.is_some());
    assert!(tts_conn.video_frame.is_some());
    assert_eq!(tts_conn.audio_frame.as_ref().unwrap().len(), 1);
    assert_eq!(tts_conn.video_frame.as_ref().unwrap().len(), 1);
}

#[test]
fn test_inject_graph_proxy_with_host_loc_property() {
    // Create a graph with exposed message.
    let graph = Graph {
        nodes: vec![GraphNode::new_extension_node(
            "function_entry".to_string(),
            "function_entry_addon".to_string(),
            Some("some_group".to_string()),
            None,
            None,
        )],
        connections: None,
        exposed_messages: Some(vec![GraphExposedMessage {
            msg_type: GraphExposedMessageType::CmdIn,
            name: "function_call".to_string(),
            extension: Some("function_entry".to_string()),
            subgraph: None,
        }]),
        exposed_properties: None,
    };

    // Create host_loc property
    let mut host_loc = serde_json::Map::new();
    host_loc.insert("app".to_string(), serde_json::Value::from("http://localhost:8000"));
    host_loc.insert("graph".to_string(), serde_json::Value::from("parent_graph"));
    host_loc.insert("extension".to_string(), serde_json::Value::from("caller_extension"));
    let host_loc = serde_json::Value::Object(host_loc);

    // Inject graph_proxy with host_loc
    let result = graph.inject_graph_proxy_from_exposed_messages(Some(&host_loc.to_string()));
    assert!(result.is_ok());

    let new_graph = result.unwrap();
    assert!(new_graph.is_some());

    let new_graph = new_graph.unwrap();

    // Find the ten:graph_proxy node
    let proxy_node = new_graph
        .nodes
        .iter()
        .find(|node| node.get_name() == "ten:graph_proxy")
        .expect("ten:graph_proxy node should exist");

    // Verify the property was set
    if let ten_graph::node::GraphNode::Extension {
        content,
    } = proxy_node
    {
        assert!(content.property.is_some());
        let property: serde_json::Value =
            serde_json::from_str(content.property.as_ref().unwrap()).unwrap();
        assert!(property["host_loc"].is_object());
        assert_eq!(property["host_loc"]["app"].as_str().unwrap(), "http://localhost:8000");
    } else {
        panic!("ten:graph_proxy should be an extension node");
    }
}

#[test]
fn test_inject_graph_proxy_with_no_exposed_messages() {
    // Create a graph without exposed messages.
    let graph = Graph {
        nodes: vec![GraphNode::new_extension_node(
            "ext_a".to_string(),
            "ext_a_addon".to_string(),
            Some("some_group".to_string()),
            None,
            None,
        )],
        connections: None,
        exposed_messages: None,
        exposed_properties: None,
    };

    // Inject graph_proxy should return None
    let result = graph.inject_graph_proxy_from_exposed_messages(None);
    assert!(result.is_ok());
    assert!(result.unwrap().is_none());
}

#[test]
fn test_inject_graph_proxy_with_empty_exposed_messages() {
    // Create a graph with empty exposed messages.
    let graph = Graph {
        nodes: vec![GraphNode::new_extension_node(
            "ext_a".to_string(),
            "ext_a_addon".to_string(),
            Some("some_group".to_string()),
            None,
            None,
        )],
        connections: None,
        exposed_messages: Some(vec![]),
        exposed_properties: None,
    };

    // Inject graph_proxy should return None
    let result = graph.inject_graph_proxy_from_exposed_messages(None);
    assert!(result.is_ok());
    assert!(result.unwrap().is_none());
}

#[test]
fn test_inject_graph_proxy_extension_not_found() {
    // Create a graph with exposed message referencing non-existent extension.
    let graph = Graph {
        nodes: vec![GraphNode::new_extension_node(
            "ext_a".to_string(),
            "ext_a_addon".to_string(),
            Some("some_group".to_string()),
            None,
            None,
        )],
        connections: None,
        exposed_messages: Some(vec![GraphExposedMessage {
            msg_type: GraphExposedMessageType::CmdIn,
            name: "some_cmd".to_string(),
            extension: Some("non_existent_ext".to_string()),
            subgraph: None,
        }]),
        exposed_properties: None,
    };

    // Inject graph_proxy should fail
    let result = graph.inject_graph_proxy_from_exposed_messages(None);
    assert!(result.is_err());
    let err_msg = result.unwrap_err().to_string();
    assert!(err_msg.contains("non_existent_ext"));
    assert!(err_msg.contains("does not exist"));
}

#[test]
fn test_inject_graph_proxy_already_exists() {
    // Create a graph that already has a node named ten:graph_proxy.
    let graph = Graph {
        nodes: vec![
            GraphNode::new_extension_node(
                "ten:graph_proxy".to_string(),
                "some_addon".to_string(),
                Some("some_group".to_string()),
                None,
                None,
            ),
            GraphNode::new_extension_node(
                "function_entry".to_string(),
                "function_entry_addon".to_string(),
                Some("some_group".to_string()),
                None,
                None,
            ),
        ],
        connections: None,
        exposed_messages: Some(vec![GraphExposedMessage {
            msg_type: GraphExposedMessageType::CmdIn,
            name: "function_call".to_string(),
            extension: Some("function_entry".to_string()),
            subgraph: None,
        }]),
        exposed_properties: None,
    };

    // Inject graph_proxy should fail
    let result = graph.inject_graph_proxy_from_exposed_messages(None);
    assert!(result.is_err());
    let err_msg = result.unwrap_err().to_string();
    assert!(err_msg.contains("ten:graph_proxy"));
    assert!(err_msg.contains("already contains"));
}

#[test]
fn proxy_for_a_single_inbound_command() {
    let graph = Graph {
        nodes: vec![extension("entry", "entry_addon")],
        connections: None,
        exposed_messages: Some(vec![GraphExposedMessage {
            msg_type: GraphExposedMessageType::CmdIn,
            name: "call".to_string(),
            extension: Some("entry".to_string()),
            subgraph: None,
        }]),
        exposed_properties: None,
    };
    let with_proxy = graph.inject_graph_proxy_from_exposed_messages(None).unwrap().unwrap();
    assert_eq!(with_proxy.nodes.len(), 2);
    assert_eq!(with_proxy.nodes[0], graph.nodes[0]);
    match &with_proxy.nodes[1] {
        GraphNode::Extension { content } => {
            assert_eq!(content.name, "ten:graph_proxy");
            assert_eq!(content.property, None);
            assert_eq!(content.app, None);
        }
        _ => panic!("the proxy is an extension"),
    }
    let connections = with_proxy.connections.unwrap();
    assert_eq!(connections.len(), 1);
    let conn: &GraphConnection = &connections[0];
    assert_eq!(conn.loc.extension, Some("ten:graph_proxy".to_string()));
    assert!(conn.data.is_none() && conn.audio_frame.is_none() && conn.video_frame.is_none());
    let cmd = conn.cmd.as_ref().unwrap();
    assert_eq!(cmd.len(), 1);
    assert_eq!(cmd[0].name, Some("call".to_string()));
    assert_eq!(cmd[0].names, None);
    assert_eq!(cmd[0].dest.len(), 1);
    assert_eq!(cmd[0].dest[0].loc.extension, Some("entry".to_string()));
    assert_eq!(with_proxy.exposed_messages, graph.exposed_messages);
}

#[test]
fn proxy_keeps_prior_connections_and_merges_by_name() {
    let prior = GraphConnection {
        loc: GraphLoc::with_app_and_type_and_name(None, GraphNodeType::Extension, "a".to_string())
            .unwrap(),
        cmd: Some(vec![GraphMessageFlow::new(
            Some("done".to_string()),
            None,
            vec![GraphDestination::new(None, GraphNodeType::Extension, "b".to_string()).unwrap()],
            vec![],
        )]),
        data: None,
        audio_frame: None,
        video_frame: None,
    };
    let exposed = |msg_type, name: &str, ext: &str| GraphExposedMessage {
        msg_type,
        name: name.to_string(),
        extension: Some(ext.to_string()),
        subgraph: None,
    };
    let graph = Graph {
        nodes: vec![extension("a", "x"), extension("b", "y")],
        connections: Some(vec![prior]),
        exposed_messages: Some(vec![
            exposed(GraphExposedMessageType::CmdOut, "done", "a"),
            exposed(GraphExposedMessageType::CmdIn, "go", "a"),
            exposed(GraphExposedMessageType::CmdIn, "go", "b"),
            exposed(GraphExposedMessageType::CmdIn, "go", "a"),
        ]),
        exposed_properties: None,
    };
    let with_proxy = graph.inject_graph_proxy_from_exposed_messages(None).unwrap().unwrap();
    assert_eq!(with_proxy.nodes.len(), graph.nodes.len() + 1);
    let connections = with_proxy.connections.unwrap();
    assert_eq!(connections.len(), 2);
    // The prior flow is still first, with its destination first.
    let from_a = connections[0].cmd.as_ref().unwrap();
    assert_eq!(from_a.len(), 1);
    assert_eq!(from_a[0].name, Some("done".to_string()));
    assert_eq!(from_a[0].dest.len(), 2);
    assert_eq!(from_a[0].dest[0].loc.extension, Some("b".to_string()));
    assert_eq!(from_a[0].dest[1].loc.extension, Some("ten:graph_proxy".to_string()));
    // Inbound exposures of one name gather under one flow, without repeats.
    let from_proxy = connections[1].cmd.as_ref().unwrap();
    assert_eq!(from_proxy.len(), 1);
    assert_eq!(from_proxy[0].dest.len(), 2);
    assert_eq!(from_proxy[0].dest[0].loc.extension, Some("a".to_string()));
    assert_eq!(from_proxy[0].dest[1].loc.extension, Some("b".to_string()));
    // The graph that was asked is unchanged.
    assert_eq!(graph.connections.as_ref().unwrap()[0].cmd.as_ref().unwrap()[0].dest.len(), 1);
}

#[test]
fn proxy_refuses_an_exposed_message_without_extension() {
    let graph = Graph {
        nodes: vec![extension("a", "x")],
        connections: None,
        exposed_messages: Some(vec![GraphExposedMessage {
            msg_type: GraphExposedMessageType::DataOut,
            name: "d".to_string(),
            extension: None,
            subgraph: Some("inner".to_string()),
        }]),
        exposed_properties: None,
    };
    assert_eq!(
        graph.inject_graph_proxy_from_exposed_messages(None),
        Err(ProxyError::ExposedMessageMissingExtension { msg_name: "d".to_string() })
    );
}

#[test]
fn proxy_property_holds_the_host_location_verbatim() {
    let graph = Graph {
        nodes: vec![extension("a", "x")],
        connections: None,
        exposed_messages: Some(vec![GraphExposedMessage {
            msg_type: GraphExposedMessageType::DataOut,
            name: "d".to_string(),
            extension: Some("a".to_string()),
            subgraph: None,
        }]),
        exposed_properties: None,
    };
    let host = "{\"app\": \"msgpack://h:1/\"}".to_string();
    let with_proxy = graph.inject_graph_proxy_from_exposed_messages(Some(&host)).unwrap().unwrap();
    match &with_proxy.nodes[1] {
        GraphNode::Extension { content } => assert_eq!(
            content.property,
            Some("{\"host_loc\":{\"app\": \"msgpack://h:1/\"}}".to_string())
        ),
        _ => panic!("the proxy is an extension"),
    }
}
