//! Synthesis of the boundary proxy: one extension node that stands for the
//! messages a graph exposes, wired to the extensions that implement them.

use vstd::prelude::*;
use crate::builder::{
    build_flow, clone_connections, connections_extend, connections_or_empty,
    lemma_connections_extend_trans, lemma_merge_leaves_other_sources,
    lemma_merged_connections_extend, merge_into_connections, merged_connections, new_flow,
};
use crate::connection::{
    connection_views, ConnectionView, DestView, FlowView, GraphConnection, GraphDestination,
    GraphLoc, LocView,
};
use crate::graph::{
    clone_opt_exposed, clone_opt_exposed_properties, exposed_views, has_node, nodes_contain,
    ExposedView, Graph, GraphExposedMessage, GraphView,
};
use crate::kinds::{direction_of_exposed, kind_of_exposed, GraphNodeType, MsgDirection};
use crate::node::{clone_nodes, node_views, ExtensionView, GraphNode, NodeView};
use crate::text::{str_eq, texts};

verus! {

/// Why the boundary proxy could not be synthesized.
#[derive(Debug, PartialEq, Eq)]
pub enum ProxyError {
    /// The graph already has a node with the name reserved for the proxy.
    ProxyNodeNameCollision,
    /// An exposed message names an extension that the graph does not have.
    ExposedExtensionNotFound { name: String },
    /// An exposed message names no extension.
    ExposedMessageMissingExtension { msg_name: String },
}

/// The mathematical view of [`ProxyError`].
pub enum ProxyErrorView {
    ProxyNodeNameCollision,
    ExposedExtensionNotFound { name: Seq<char> },
    ExposedMessageMissingExtension { msg_name: Seq<char> },
}

impl View for ProxyError {
    type V = ProxyErrorView;

    open spec fn view(&self) -> ProxyErrorView {
        match *self {
            ProxyError::ProxyNodeNameCollision => ProxyErrorView::ProxyNodeNameCollision,
            ProxyError::ExposedExtensionNotFound { name } => {
                ProxyErrorView::ExposedExtensionNotFound { name: name@ }
            },
            ProxyError::ExposedMessageMissingExtension {
                msg_name,
            } => ProxyErrorView::ExposedMessageMissingExtension { msg_name: msg_name@ },
        }
    }
}

impl ProxyErrorView {
    /// The error in words.
    pub open spec fn message(self) -> Seq<char> {
        match self {
            ProxyErrorView::ProxyNodeNameCollision => {
                "Graph already contains a node named 'ten:graph_proxy'"@
            },
            ProxyErrorView::ExposedExtensionNotFound { name } => "Extension '"@ + name
                + "' referenced in exposed messages does not exist in the graph"@,
            ProxyErrorView::ExposedMessageMissingExtension { msg_name } => "Exposed message '"@
                + msg_name + "' does not specify an extension"@,
        }
    }
}

impl ProxyError {
    /// The error in words.
    pub fn to_string(&self) -> (r: String)
        ensures
            r@ == self@.message(),
    {
        match self {
            ProxyError::ProxyNodeNameCollision => String::from_str(
                "Graph already contains a node named 'ten:graph_proxy'",
            ),
            ProxyError::ExposedExtensionNotFound { name } => {
                let mut text = String::from_str("Extension '");
                text.append(name.as_str());
                text.append("' referenced in exposed messages does not exist in the graph");
                text
            },
            ProxyError::ExposedMessageMissingExtension { msg_name } => {
                let mut text = String::from_str("Exposed message '");
                text.append(msg_name.as_str());
                text.append("' does not specify an extension");
                text
            },
        }
    }
}

/// The name reserved for the proxy node.
pub open spec fn proxy_name() -> Seq<char> {
    "ten:graph_proxy"@
}

/// The addon that implements the proxy node.
pub open spec fn proxy_addon() -> Seq<char> {
    "ten:graph_proxy"@
}

/// The location of the extension `name`, with no application named.
pub open spec fn extension_loc(name: Seq<char>) -> LocView {
    LocView { app: None, extension: Some(name), subgraph: None, selector: None }
}

/// The property of the proxy node: nothing, or the host location stored
/// verbatim under the key `host_loc` of a JSON object.
pub open spec fn proxy_property(host_loc: Option<Seq<char>>) -> Option<Seq<char>> {
    match host_loc {
        Some(loc) => Some("{\"host_loc\":"@ + loc + "}"@),
        None => None,
    }
}

/// The proxy node.
pub open spec fn proxy_node(host_loc: Option<Seq<char>>) -> NodeView {
    NodeView::Extension(
        ExtensionView {
            name: proxy_name(),
            addon: proxy_addon(),
            extension_group: None,
            app: None,
            property: proxy_property(host_loc),
        },
    )
}

/// Whether a node is named `name`, whatever its kind.
pub open spec fn has_node_named(nodes: Seq<NodeView>, name: Seq<char>) -> bool {
    exists|i: int| 0 <= i < nodes.len() && (#[trigger] nodes[i]).name() == name
}

/// The flow under `name` to the one destination `to`, without conversion.
pub open spec fn proxy_flow(name: Seq<char>, to: LocView) -> FlowView {
    new_flow(seq![name], DestView { loc: to, msg_conversion: None })
}

/// The connections after one exposed message has been wired: an inbound
/// message leads from the proxy to the extension that implements it, which
/// must be a node of the graph; an outbound message leads from the extension
/// that sends it to the proxy.
pub open spec fn proxy_step(
    connections: Seq<ConnectionView>,
    nodes: Seq<NodeView>,
    message: ExposedView,
) -> Result<Seq<ConnectionView>, ProxyErrorView> {
    match message.extension {
        None => Err(ProxyErrorView::ExposedMessageMissingExtension { msg_name: message.name }),
        Some(extension) => if direction_of_exposed(message.msg_type) == MsgDirection::In {
            if has_node(nodes, GraphNodeType::Extension, extension) {
                Ok(
                    merged_connections(
                        connections,
                        extension_loc(proxy_name()),
                        kind_of_exposed(message.msg_type),
                        proxy_flow(message.name, extension_loc(extension)),
                    ),
                )
            } else {
                Err(ProxyErrorView::ExposedExtensionNotFound { name: extension })
            }
        } else {
            Ok(
                merged_connections(
                    connections,
                    extension_loc(extension),
                    kind_of_exposed(message.msg_type),
                    proxy_flow(message.name, extension_loc(proxy_name())),
                ),
            )
        },
    }
}

/// The connections after the first `n` exposed messages have been wired in
/// order, or the failure of the first message that cannot be.
pub open spec fn proxy_wired(
    connections: Seq<ConnectionView>,
    nodes: Seq<NodeView>,
    messages: Seq<ExposedView>,
    n: nat,
) -> Result<Seq<ConnectionView>, ProxyErrorView>
    decreases n,
{
    if n == 0 {
        Ok(connections)
    } else {
        match proxy_wired(connections, nodes, messages, (n - 1) as nat) {
            Err(e) => Err(e),
            Ok(c) => proxy_step(c, nodes, messages[n - 1]),
        }
    }
}

impl GraphView {
    /// The graph with its boundary proxy: nothing if the graph exposes no
    /// message; else the graph with the proxy node added after its nodes and
    /// every exposed message wired.
    pub open spec fn with_proxy(self, host_loc: Option<Seq<char>>) -> Result<
        Option<GraphView>,
        ProxyErrorView,
    > {
        match self.exposed_messages {
            None => Ok(None),
            Some(messages) => if messages.len() == 0 {
                Ok(None)
            } else if has_node_named(self.nodes, proxy_name()) {
                Err(ProxyErrorView::ProxyNodeNameCollision)
            } else {
                match proxy_wired(
                    connections_or_empty(self.connections),
                    self.nodes,
                    messages,
                    messages.len(),
                ) {
                    Err(e) => Err(e),
                    Ok(connections) => Ok(
                        Some(
                            GraphView {
                                nodes: self.nodes.push(proxy_node(host_loc)),
                                connections: Some(connections),
                                ..self
                            },
                        ),
                    ),
                }
            },
        }
    }
}

/// The view of the outcome of a proxy synthesis.
pub open spec fn proxied(r: Result<Option<Graph>, ProxyError>) -> Result<
    Option<GraphView>,
    ProxyErrorView,
> {
    match r {
        Ok(Some(g)) => Ok(Some(g@)),
        Ok(None) => Ok(None),
        Err(e) => Err(e@),
    }
}

/// The location of the extension `name`, with no application named.
pub fn extension_location(name: &str) -> (r: GraphLoc)
    ensures
        r@ == extension_loc(name@),
{
    GraphLoc { app: None, extension: Some(name.to_owned()), subgraph: None, selector: None }
}

/// Wires one exposed message into the connections.
pub fn wire_exposed_message(
    connections: &mut Vec<GraphConnection>,
    nodes: &Vec<GraphNode>,
    message: &GraphExposedMessage,
) -> (r: Result<(), ProxyError>)
    ensures
        (match proxy_step(connection_views(old(connections)@), node_views(nodes@), message@) {
            Ok(next) => r is Ok && connection_views(final(connections)@) == next,
            Err(e) => r matches Err(x) && x@ == e,
        }),
{
    let extension = match &message.extension {
        Some(e) => e,
        None => {
            return Err(
                ProxyError::ExposedMessageMissingExtension { msg_name: message.name.clone() },
            );
        },
    };
    let kind = message.msg_type.msg_type();
    let mut names: Vec<String> = Vec::new();
    names.push(message.name.clone());
    assert(texts(names@) =~= seq![message@.name]);
    match message.msg_type.direction() {
        MsgDirection::In => {
            if !nodes_contain(nodes, GraphNodeType::Extension, extension.as_str()) {
                return Err(ProxyError::ExposedExtensionNotFound { name: extension.clone() });
            }
            let to = GraphDestination {
                loc: extension_location(extension.as_str()),
                msg_conversion: None,
            };
            let flow = build_flow(names, to);
            merge_into_connections(connections, extension_location("ten:graph_proxy"), kind, flow);
        },
        MsgDirection::Out => {
            let to = GraphDestination {
                loc: extension_location("ten:graph_proxy"),
                msg_conversion: None,
            };
            let flow = build_flow(names, to);
            merge_into_connections(connections, extension_location(extension.as_str()), kind, flow);
        },
    }
    Ok(())
}

/// Tests whether a node is named `name`, whatever its kind.
pub fn contains_node_named(nodes: &Vec<GraphNode>, name: &str) -> (r: bool)
    ensures
        r == has_node_named(node_views(nodes@), name@),
{
    let ghost views = node_views(nodes@);
    let mut i: usize = 0;
    while i < nodes.len()
        invariant
            i <= nodes.len(),
            views == node_views(nodes@),
            forall|j: int| 0 <= j < i ==> (#[trigger] views[j]).name() != name@,
        decreases nodes.len() - i,
    {
        assert(views[i as int] == nodes@[i as int]@);
        if str_eq(nodes[i].get_name(), name) {
            return true;
        }
        i += 1;
    }
    false
}

/// Builds the proxy node.
pub fn build_proxy_node(host_loc: Option<&String>) -> (r: GraphNode)
    ensures
        r@ == proxy_node(
            match host_loc {
                Some(s) => Some(s@),
                None => None,
            },
        ),
{
    let property = match host_loc {
        Some(loc) => {
            let mut text = String::from_str("{\"host_loc\":");
            text.append(loc.as_str());
            text.append("}");
            Some(text)
        },
        None => None,
    };
    GraphNode::new_extension_node(
        String::from_str("ten:graph_proxy"),
        String::from_str("ten:graph_proxy"),
        None,
        None,
        property,
    )
}

impl Graph {
    /// Synthesizes the boundary proxy of the graph.
    ///
    /// A graph that exposes no message is not changed, and `None` is
    /// returned. Otherwise a new graph is returned: the nodes of this graph
    /// followed by one extension node under the reserved name
    /// `ten:graph_proxy`, whose property holds `host_loc` under the key
    /// `host_loc` if it is given; and the connections of this graph with one
    /// flow merged in for every exposed message, in order: from the proxy to
    /// the implementing extension for an inbound message, from the sending
    /// extension to the proxy for an outbound one. This graph itself is never
    /// changed.
    pub fn inject_graph_proxy_from_exposed_messages(&self, host_loc: Option<&String>) -> (r: Result<
        Option<Graph>,
        ProxyError,
    >)
        ensures
            proxied(r) == self@.with_proxy(
                match host_loc {
                    Some(s) => Some(s@),
                    None => None,
                },
            ),
    {
        let messages = match &self.exposed_messages {
            Some(m) => m,
            None => { return Ok(None); },
        };
        if messages.len() == 0 {
            return Ok(None);
        }
        if contains_node_named(&self.nodes, "ten:graph_proxy") {
            return Err(ProxyError::ProxyNodeNameCollision);
        }
        let mut connections = match &self.connections {
            Some(c) => clone_connections(c),
            None => Vec::new(),
        };
        assert(connection_views(connections@) =~= connections_or_empty(self@.connections));
        let ghost start = connection_views(connections@);
        let ghost views = exposed_views(messages@);
        let mut i: usize = 0;
        while i < messages.len()
            invariant
                i <= messages.len(),
                views == exposed_views(messages@),
                self@.exposed_messages == Some(views),
                views.len() > 0,
                !has_node_named(self@.nodes, proxy_name()),
                start == connections_or_empty(self@.connections),
                proxy_wired(start, node_views(self.nodes@), views, i as nat) == Ok::<
                    Seq<ConnectionView>,
                    ProxyErrorView,
                >(connection_views(connections@)),
            decreases messages.len() - i,
        {
            assert(views[i as int] == messages@[i as int]@);
            let ghost wired = connection_views(connections@);
            match wire_exposed_message(&mut connections, &self.nodes, &messages[i]) {
                Err(e) => {
                    proof {
                        assert(proxy_step(wired, node_views(self.nodes@), views[i as int]) is Err);
                        assert(proxy_wired(start, node_views(self.nodes@), views, (i + 1) as nat)
                            is Err);
                        lemma_wiring_fails_for_good(
                            start,
                            node_views(self.nodes@),
                            views,
                            (i + 1) as nat,
                            views.len(),
                        );
                    }
                    return Err(e);
                },
                Ok(_) => {},
            }
            i += 1;
        }
        let mut nodes = clone_nodes(&self.nodes);
        let ghost before = node_views(nodes@);
        let proxy = build_proxy_node(host_loc);
        nodes.push(proxy);
        assert(node_views(nodes@) =~= before.push(proxy@));
        Ok(
            Some(
                Graph {
                    nodes,
                    connections: Some(connections),
                    exposed_messages: clone_opt_exposed(&self.exposed_messages),
                    exposed_properties: clone_opt_exposed_properties(&self.exposed_properties),
                },
            ),
        )
    }
}

/// Once an exposed message cannot be wired, the wiring of any longer prefix
/// fails in the same way.
pub proof fn lemma_wiring_fails_for_good(
    connections: Seq<ConnectionView>,
    nodes: Seq<NodeView>,
    messages: Seq<ExposedView>,
    n: nat,
    m: nat,
)
    requires
        n <= m,
        proxy_wired(connections, nodes, messages, n) is Err,
    ensures
        proxy_wired(connections, nodes, messages, m) == proxy_wired(connections, nodes, messages, n),
    decreases m - n,
{
    if n < m {
        lemma_wiring_fails_for_good(connections, nodes, messages, n, (m - 1) as nat);
    }
}

/// Wiring exposed messages only adds to the connections.
pub proof fn lemma_wiring_extends(
    connections: Seq<ConnectionView>,
    nodes: Seq<NodeView>,
    messages: Seq<ExposedView>,
    n: nat,
)
    requires
        proxy_wired(connections, nodes, messages, n) is Ok,
    ensures
        connections_extend(connections, proxy_wired(connections, nodes, messages, n)->Ok_0),
    decreases n,
{
    if n > 0 {
        lemma_wiring_extends(connections, nodes, messages, (n - 1) as nat);
        let before = proxy_wired(connections, nodes, messages, (n - 1) as nat)->Ok_0;
        let message = messages[n - 1];
        let extension = message.extension->0;
        if direction_of_exposed(message.msg_type) == MsgDirection::In {
            lemma_merged_connections_extend(
                before,
                extension_loc(proxy_name()),
                kind_of_exposed(message.msg_type),
                proxy_flow(message.name, extension_loc(extension)),
            );
        } else {
            lemma_merged_connections_extend(
                before,
                extension_loc(extension),
                kind_of_exposed(message.msg_type),
                proxy_flow(message.name, extension_loc(proxy_name())),
            );
        }
        lemma_connections_extend_trans(
            connections,
            before,
            proxy_wired(connections, nodes, messages, n)->Ok_0,
        );
    }
}

/// The source of the flow that wires an exposed message: the proxy for an
/// inbound message, the extension that sends it for an outbound one.
pub open spec fn wired_source(message: ExposedView) -> LocView {
    if direction_of_exposed(message.msg_type) == MsgDirection::In {
        extension_loc(proxy_name())
    } else {
        match message.extension {
            Some(extension) => extension_loc(extension),
            None => extension_loc(proxy_name()),
        }
    }
}

/// Wiring leaves every connection unmodified whose source is neither the
/// proxy nor an extension that sends an exposed message.
pub proof fn lemma_wiring_leaves_other_sources(
    connections: Seq<ConnectionView>,
    nodes: Seq<NodeView>,
    messages: Seq<ExposedView>,
    n: nat,
    i: int,
)
    requires
        n <= messages.len(),
        0 <= i < connections.len(),
        proxy_wired(connections, nodes, messages, n) is Ok,
        forall|m: int| 0 <= m < n ==> wired_source(#[trigger] messages[m]) != connections[i].loc,
    ensures
        i < proxy_wired(connections, nodes, messages, n)->Ok_0.len(),
        proxy_wired(connections, nodes, messages, n)->Ok_0[i] == connections[i],
    decreases n,
{
    if n > 0 {
        lemma_wiring_leaves_other_sources(connections, nodes, messages, (n - 1) as nat, i);
        let before = proxy_wired(connections, nodes, messages, (n - 1) as nat)->Ok_0;
        let message = messages[n - 1];
        assert(wired_source(message) != connections[i].loc);
        lemma_merge_leaves_other_sources(
            before,
            wired_source(message),
            kind_of_exposed(message.msg_type),
            if direction_of_exposed(message.msg_type) == MsgDirection::In {
                proxy_flow(message.name, extension_loc(message.extension->0))
            } else {
                proxy_flow(message.name, extension_loc(proxy_name()))
            },
            i,
        );
    }
}

/// Proxy synthesis is a pure addition. Where it gives a new graph, that
/// graph has exactly one node more, the proxy, after the nodes of the old
/// graph, which are unchanged; every connection, flow and destination of the
/// old graph is still there, at its place; and what the graph exposes is
/// unchanged. A graph that exposes no message gives no new graph. That the
/// connections from sources which no exposed message touches are unmodified
/// is `lemma_wiring_leaves_other_sources`.
pub proof fn lemma_proxy_is_pure_addition(g: GraphView, host_loc: Option<Seq<char>>)
    ensures
        (g.exposed_messages is None || g.exposed_messages->0.len() == 0) ==> g.with_proxy(host_loc)
            == Ok::<Option<GraphView>, ProxyErrorView>(None),
        (g.with_proxy(host_loc) matches Ok(Some(next)) ==> {
            &&& next.nodes.len() == g.nodes.len() + 1
            &&& next.nodes.drop_last() == g.nodes
            &&& next.nodes.last() == proxy_node(host_loc)
            &&& connections_extend(
                connections_or_empty(g.connections),
                connections_or_empty(next.connections),
            )
            &&& next.exposed_messages == g.exposed_messages
            &&& next.exposed_properties == g.exposed_properties
        }),
{
    if let Ok(Some(next)) = g.with_proxy(host_loc) {
        let messages = g.exposed_messages->0;
        lemma_wiring_extends(
            connections_or_empty(g.connections),
            g.nodes,
            messages,
            messages.len(),
        );
        assert(next.nodes.drop_last() =~= g.nodes);
    }
}

} // verus!
