//! The graph document: nodes, connections and what the graph exposes.

use vstd::prelude::*;
use crate::connection::{
    connection_views, ConnectionView, GraphConnection, GraphLoc, LocView,
};
use crate::builder::clone_connections;
use crate::error::{edited, GraphError, GraphErrorView, ValidationError};
use crate::kinds::{AppUriDeclarationState, GraphExposedMessageType, GraphNodeType};
use crate::node::{clone_nodes, node_views, GraphNode, NodeView};
use crate::connection::clone_opt_string;
use crate::text::{opt_text, str_eq};

verus! {

/// A message that may cross the graph's boundary, and the extension or
/// nested subgraph inside the graph that implements it.
#[derive(Debug, PartialEq, Eq)]
pub struct GraphExposedMessage {
    pub msg_type: GraphExposedMessageType,
    pub name: String,
    pub extension: Option<String>,
    pub subgraph: Option<String>,
}

/// The mathematical view of [`GraphExposedMessage`].
pub struct ExposedView {
    pub msg_type: GraphExposedMessageType,
    pub name: Seq<char>,
    pub extension: Option<Seq<char>>,
    pub subgraph: Option<Seq<char>>,
}

impl View for GraphExposedMessage {
    type V = ExposedView;

    open spec fn view(&self) -> ExposedView {
        ExposedView {
            msg_type: self.msg_type,
            name: self.name@,
            extension: opt_text(self.extension),
            subgraph: opt_text(self.subgraph),
        }
    }
}

/// The views of a sequence of exposed messages.
pub open spec fn exposed_views(v: Seq<GraphExposedMessage>) -> Seq<ExposedView> {
    Seq::new(v.len(), |i: int| v[i]@)
}

/// A property of an inner node that the graph exposes under its own name.
#[derive(Debug, PartialEq, Eq)]
pub struct GraphExposedProperty {
    pub extension: Option<String>,
    pub subgraph: Option<String>,
    pub name: String,
}

/// The mathematical view of [`GraphExposedProperty`].
pub struct ExposedPropertyView {
    pub extension: Option<Seq<char>>,
    pub subgraph: Option<Seq<char>>,
    pub name: Seq<char>,
}

impl View for GraphExposedProperty {
    type V = ExposedPropertyView;

    open spec fn view(&self) -> ExposedPropertyView {
        ExposedPropertyView {
            extension: opt_text(self.extension),
            subgraph: opt_text(self.subgraph),
            name: self.name@,
        }
    }
}

/// The views of a sequence of exposed properties.
pub open spec fn exposed_property_views(v: Seq<GraphExposedProperty>) -> Seq<ExposedPropertyView> {
    Seq::new(v.len(), |i: int| v[i]@)
}

/// A graph document.
#[derive(Debug, PartialEq, Eq)]
pub struct Graph {
    pub nodes: Vec<GraphNode>,
    pub connections: Option<Vec<GraphConnection>>,
    pub exposed_messages: Option<Vec<GraphExposedMessage>>,
    pub exposed_properties: Option<Vec<GraphExposedProperty>>,
}

/// The mathematical view of [`Graph`].
pub struct GraphView {
    pub nodes: Seq<NodeView>,
    pub connections: Option<Seq<ConnectionView>>,
    pub exposed_messages: Option<Seq<ExposedView>>,
    pub exposed_properties: Option<Seq<ExposedPropertyView>>,
}

/// The view of an optional list of connections.
pub open spec fn opt_connection_views(o: Option<Vec<GraphConnection>>) -> Option<
    Seq<ConnectionView>,
> {
    match o {
        Some(v) => Some(connection_views(v@)),
        None => None,
    }
}

/// The view of an optional list of exposed messages.
pub open spec fn opt_exposed_views(o: Option<Vec<GraphExposedMessage>>) -> Option<
    Seq<ExposedView>,
> {
    match o {
        Some(v) => Some(exposed_views(v@)),
        None => None,
    }
}

/// The view of an optional list of exposed properties.
pub open spec fn opt_exposed_property_views(o: Option<Vec<GraphExposedProperty>>) -> Option<
    Seq<ExposedPropertyView>,
> {
    match o {
        Some(v) => Some(exposed_property_views(v@)),
        None => None,
    }
}

impl View for Graph {
    type V = GraphView;

    open spec fn view(&self) -> GraphView {
        GraphView {
            nodes: node_views(self.nodes@),
            connections: opt_connection_views(self.connections),
            exposed_messages: opt_exposed_views(self.exposed_messages),
            exposed_properties: opt_exposed_property_views(self.exposed_properties),
        }
    }
}

impl Clone for GraphExposedMessage {
    fn clone(&self) -> (r: Self)
        ensures
            r@ == self@,
    {
        GraphExposedMessage {
            msg_type: self.msg_type,
            name: self.name.clone(),
            extension: clone_opt_string(&self.extension),
            subgraph: clone_opt_string(&self.subgraph),
        }
    }
}

impl Clone for GraphExposedProperty {
    fn clone(&self) -> (r: Self)
        ensures
            r@ == self@,
    {
        GraphExposedProperty {
            extension: clone_opt_string(&self.extension),
            subgraph: clone_opt_string(&self.subgraph),
            name: self.name.clone(),
        }
    }
}

/// A copy of an optional list of exposed messages.
pub fn clone_opt_exposed(o: &Option<Vec<GraphExposedMessage>>) -> (r: Option<
    Vec<GraphExposedMessage>,
>)
    ensures
        opt_exposed_views(r) == opt_exposed_views(*o),
{
    match o {
        Some(v) => {
            let mut out: Vec<GraphExposedMessage> = Vec::new();
            let mut i: usize = 0;
            while i < v.len()
                invariant
                    i <= v.len(),
                    out@.len() == i,
                    forall|j: int| 0 <= j < i ==> out@[j]@ == v@[j]@,
                decreases v.len() - i,
            {
                out.push(v[i].clone());
                i += 1;
            }
            assert(exposed_views(out@) =~= exposed_views(v@));
            Some(out)
        },
        None => None,
    }
}

/// A copy of an optional list of exposed properties.
pub fn clone_opt_exposed_properties(o: &Option<Vec<GraphExposedProperty>>) -> (r: Option<
    Vec<GraphExposedProperty>,
>)
    ensures
        opt_exposed_property_views(r) == opt_exposed_property_views(*o),
{
    match o {
        Some(v) => {
            let mut out: Vec<GraphExposedProperty> = Vec::new();
            let mut i: usize = 0;
            while i < v.len()
                invariant
                    i <= v.len(),
                    out@.len() == i,
                    forall|j: int| 0 <= j < i ==> out@[j]@ == v@[j]@,
                decreases v.len() - i,
            {
                out.push(v[i].clone());
                i += 1;
            }
            assert(exposed_property_views(out@) =~= exposed_property_views(v@));
            Some(out)
        },
        None => None,
    }
}

impl Clone for Graph {
    fn clone(&self) -> (r: Self)
        ensures
            r@ == self@,
    {
        let connections = match &self.connections {
            Some(c) => Some(clone_connections(c)),
            None => None,
        };
        Graph {
            nodes: clone_nodes(&self.nodes),
            connections,
            exposed_messages: clone_opt_exposed(&self.exposed_messages),
            exposed_properties: clone_opt_exposed_properties(&self.exposed_properties),
        }
    }
}

/// Whether no node declares an application.
pub open spec fn none_declares_app(nodes: Seq<NodeView>) -> bool {
    forall|i: int| 0 <= i < nodes.len() ==> (#[trigger] nodes[i]).app() is None
}

/// Whether every extension declares an application.
pub open spec fn all_declare_app(nodes: Seq<NodeView>) -> bool {
    forall|i: int|
        0 <= i < nodes.len() && (#[trigger] nodes[i]) is Extension ==> nodes[i].app() is Some
}

/// How the nodes declare the applications that host them. Only an extension
/// can declare one; subgraphs and selectors count for nothing here.
pub open spec fn declaration_state(nodes: Seq<NodeView>) -> AppUriDeclarationState {
    if none_declares_app(nodes) {
        AppUriDeclarationState::NoneDeclared
    } else if all_declare_app(nodes) {
        AppUriDeclarationState::UniformDeclared
    } else {
        AppUriDeclarationState::MixedDeclared
    }
}

/// Whether the nodes hold one of kind `node_type` named `name`.
pub open spec fn has_node(nodes: Seq<NodeView>, node_type: GraphNodeType, name: Seq<char>) -> bool {
    exists|i: int|
        0 <= i < nodes.len() && (#[trigger] nodes[i]).name() == name && nodes[i].node_type()
            == node_type
}

/// The verdict on the connections from index `from` on: the first failure
/// in order, with its index.
pub open spec fn connections_checked(
    connections: Seq<ConnectionView>,
    state: AppUriDeclarationState,
    from: nat,
) -> Result<(), ValidationError>
    decreases connections.len() - from,
{
    if from >= connections.len() {
        Ok(())
    } else {
        match connections[from as int].checked(state) {
            Err(error) => Err(ValidationError::Connection { index: from as usize, error }),
            Ok(_) => connections_checked(connections, state, from + 1),
        }
    }
}

/// The verdict on a graph with these nodes and connections: a graph in
/// which some nodes declare an application and some do not is refused before
/// anything else; then the connections are checked in order.
pub open spec fn parts_validated(
    nodes: Seq<NodeView>,
    connections: Option<Seq<ConnectionView>>,
) -> Result<(), ValidationError> {
    if declaration_state(nodes) == AppUriDeclarationState::MixedDeclared {
        Err(ValidationError::MixedAppDeclaration)
    } else {
        match connections {
            Some(c) => connections_checked(c, declaration_state(nodes), 0),
            None => Ok(()),
        }
    }
}

impl GraphView {
    /// How the nodes of the graph declare applications.
    pub open spec fn state(self) -> AppUriDeclarationState {
        declaration_state(self.nodes)
    }

    /// The verdict on the graph.
    pub open spec fn validated(self) -> Result<(), ValidationError> {
        parts_validated(self.nodes, self.connections)
    }

    /// The verdict on a location that must name a node of the graph.
    pub open spec fn node_checked(self, loc: LocView) -> Result<(), GraphErrorView> {
        match (loc.node_type(), loc.node_name()) {
            (Some(node_type), Some(name)) => if has_node(self.nodes, node_type, name) {
                Ok(())
            } else {
                Err(GraphErrorView::NodeNotFound { node_type, name })
            },
            _ => Err(GraphErrorView::UnknownNodeType),
        }
    }
}

/// Determines how nodes declare the applications that host them.
pub fn declaration_state_of(nodes: &Vec<GraphNode>) -> (r: AppUriDeclarationState)
    ensures
        r == declaration_state(node_views(nodes@)),
{
    let ghost views = node_views(nodes@);
    let mut declared = false;
    let mut undeclared = false;
    let mut i: usize = 0;
    while i < nodes.len()
        invariant
            i <= nodes.len(),
            views == node_views(nodes@),
            declared == exists|j: int| 0 <= j < i && (#[trigger] views[j]).app() is Some,
            undeclared == exists|j: int|
                0 <= j < i && (#[trigger] views[j]) is Extension && views[j].app() is None,
        decreases nodes.len() - i,
    {
        assert(views[i as int] == nodes@[i as int]@);
        match &nodes[i] {
            GraphNode::Extension { content } => {
                if content.app.is_some() {
                    declared = true;
                } else {
                    undeclared = true;
                }
            },
            _ => {},
        }
        i += 1;
    }
    if !declared {
        AppUriDeclarationState::NoneDeclared
    } else if !undeclared {
        AppUriDeclarationState::UniformDeclared
    } else {
        AppUriDeclarationState::MixedDeclared
    }
}

/// The verdict on a graph with these nodes and connections.
pub fn check_parts(nodes: &Vec<GraphNode>, connections: &Option<Vec<GraphConnection>>) -> (r:
    Result<(), ValidationError>)
    ensures
        r == parts_validated(node_views(nodes@), opt_connection_views(*connections)),
{
    let state = declaration_state_of(nodes);
    if state == AppUriDeclarationState::MixedDeclared {
        return Err(ValidationError::MixedAppDeclaration);
    }
    match connections {
        Some(list) => {
            let ghost views = connection_views(list@);
            let mut i: usize = 0;
            while i < list.len()
                invariant
                    i <= list.len(),
                    views == connection_views(list@),
                    opt_connection_views(*connections) == Some(views),
                    state == declaration_state(node_views(nodes@)),
                    state != AppUriDeclarationState::MixedDeclared,
                    connections_checked(views, state, 0) == connections_checked(
                        views,
                        state,
                        i as nat,
                    ),
                decreases list.len() - i,
            {
                assert(views[i as int] == list@[i as int]@);
                match list[i].check(&state) {
                    Err(error) => {
                        return Err(ValidationError::Connection { index: i, error });
                    },
                    Ok(_) => {},
                }
                i += 1;
            }
            Ok(())
        },
        None => Ok(()),
    }
}

impl Graph {
    /// Determines how the nodes of the graph declare applications.
    pub fn app_uri_declaration_state(&self) -> (r: AppUriDeclarationState)
        ensures
            r == self@.state(),
    {
        declaration_state_of(&self.nodes)
    }

    /// The verdict on the graph.
    pub fn check(&self) -> (r: Result<(), ValidationError>)
        ensures
            r == self@.validated(),
    {
        check_parts(&self.nodes, &self.connections)
    }

    /// Validates the graph: the way its nodes declare applications is
    /// determined first, and a mix of declaring and undeclaring nodes is
    /// refused; then every connection, every flow by kind and every
    /// destination is checked in order, and the first failure is returned
    /// with the indices that lead to it. The graph is left as it is.
    pub fn validate_and_complete(&mut self) -> (r: Result<(), ValidationError>)
        ensures
            r == old(self)@.validated(),
            *final(self) == *old(self),
    {
        self.check()
    }

    /// Whether the graph holds a node of kind `node_type` named `name`.
    pub fn contains_node(&self, node_type: GraphNodeType, name: &str) -> (r: bool)
        ensures
            r == has_node(self@.nodes, node_type, name@),
    {
        nodes_contain(&self.nodes, node_type, name)
    }
}

/// Tests whether the nodes hold one of kind `node_type` named `name`.
pub fn nodes_contain(nodes: &Vec<GraphNode>, node_type: GraphNodeType, name: &str) -> (r: bool)
    ensures
        r == has_node(node_views(nodes@), node_type, name@),
{
    let ghost views = node_views(nodes@);
    let mut i: usize = 0;
    while i < nodes.len()
        invariant
            i <= nodes.len(),
            views == node_views(nodes@),
            forall|j: int|
                0 <= j < i ==> !((#[trigger] views[j]).name() == name@ && views[j].node_type()
                    == node_type),
        decreases nodes.len() - i,
    {
        assert(views[i as int] == nodes@[i as int]@);
        if nodes[i].get_type() == node_type && str_eq(nodes[i].get_name(), name) {
            return true;
        }
        i += 1;
    }
    false
}

impl GraphLoc {
    /// Checks that the location names a node of the graph: one of the same
    /// kind and the same name.
    pub fn check_node_exists(&self, graph: &Graph) -> (r: Result<(), GraphError>)
        ensures
            edited(r) == graph@.node_checked(self@),
    {
        let node_type = match self.get_node_type() {
            Ok(t) => t,
            Err(_) => { return Err(GraphError::UnknownNodeType); },
        };
        let name = match self.get_node_name() {
            Ok(n) => n,
            Err(_) => { return Err(GraphError::UnknownNodeType); },
        };
        if graph.contains_node(node_type, name.as_str()) {
            Ok(())
        } else {
            Err(GraphError::NodeNotFound { node_type, name: name.clone() })
        }
    }
}

/// A graph in which one extension declares an application and another does
/// not is refused, whatever its connections are and whichever of the two
/// nodes is a source or a destination.
pub proof fn lemma_mixed_declaration_is_refused(g: GraphView, declaring: int, undeclaring: int)
    requires
        0 <= declaring < g.nodes.len(),
        0 <= undeclaring < g.nodes.len(),
        g.nodes[declaring] is Extension,
        g.nodes[declaring].app() is Some,
        g.nodes[undeclaring] is Extension,
        g.nodes[undeclaring].app() is None,
    ensures
        g.state() == AppUriDeclarationState::MixedDeclared,
        g.validated() == Err::<(), ValidationError>(ValidationError::MixedAppDeclaration),
{
}

/// The connections pass exactly when each of them does.
pub proof fn lemma_connections_checked(
    connections: Seq<ConnectionView>,
    state: AppUriDeclarationState,
    from: nat,
)
    ensures
        connections_checked(connections, state, from) is Ok <==> forall|i: int|
            from <= i < connections.len() ==> (#[trigger] connections[i]).checked(state) is Ok,
    decreases connections.len() - from,
{
    if from < connections.len() {
        lemma_connections_checked(connections, state, from + 1);
    }
}

/// A graph is valid exactly when its nodes do not mix declaring and
/// undeclaring extensions and every one of its connections passes.
pub proof fn lemma_validated(g: GraphView)
    ensures
        (g.validated() is Ok <==> {
            &&& g.state() != AppUriDeclarationState::MixedDeclared
            &&& g.connections matches Some(c) ==> forall|i: int|
                0 <= i < c.len() ==> (#[trigger] c[i]).checked(g.state()) is Ok
        }),
{
    if let Some(c) = g.connections {
        lemma_connections_checked(c, g.state(), 0);
    }
}

} // verus!
