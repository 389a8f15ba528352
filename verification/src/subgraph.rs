//! Resolution of a message that a subgraph exposes to the extension that
//! implements it, through any number of nested subgraphs.
//!
//! Documents are loaded by the caller. The resolution works on the documents
//! it is given and, where one is missing, says which location to load.

use vstd::prelude::*;
use crate::connection::{GraphLoc, LocView};
use crate::graph::{exposed_views, ExposedView, Graph, GraphExposedMessage, GraphView};
use crate::kinds::{
    exposed_message_type, exposed_type_of, exposed_type_str, exposed_type_text,
    GraphExposedMessageType, GraphNodeType, MsgDirection, MsgType,
};
use crate::location::{
    base_dir_of, get_base_dir_of_uri, get_real_path_from_import_uri, opt_str, resolved_location,
    ResolveError, ResolveErrorView,
};
use crate::node::{
    node_views, ExtensionNode, ExtensionView, GraphNode, NodeView, SubgraphNode, SubgraphView,
};
use crate::text::{opt_str_eq, opt_text, str_eq};

verus! {

/// Why a message could not be traced through a subgraph.
#[derive(Debug, PartialEq, Eq)]
pub enum SubgraphError {
    /// The graph has no subgraph node of this name.
    SubgraphNodeMissing { name: String },
    /// The nesting is deeper than allowed; the documents may refer to each
    /// other in a cycle.
    DepthExceeded { subgraph: String },
    /// The import reference of the subgraph could not be resolved.
    Unresolvable { subgraph: String, error: ResolveError },
    /// The document at `uri` is needed and was not given.
    NotLoaded { uri: String },
    /// The subgraph exposes no message of this category and name.
    MessageNotExposed { subgraph: String, msg_name: String, msg_type: GraphExposedMessageType },
    /// The exposed message names neither an extension nor a subgraph.
    ExposedMessageMissingExtension { subgraph: String, msg_name: String },
    /// The subgraph has no extension and no subgraph named `target`.
    SubgraphTargetUnresolved { subgraph: String, target: String },
    /// The graph has no extension of this name on this application.
    ExtensionNotFound { name: String },
    /// The location names no node.
    UnknownNodeType,
    /// The location names a selector, which stands for no single node.
    SelectorNotSupported,
    /// The text names no kind of message.
    UnknownMessageType { text: String },
}

/// The mathematical view of [`SubgraphError`].
pub enum SubgraphErrorView {
    SubgraphNodeMissing { name: Seq<char> },
    DepthExceeded { subgraph: Seq<char> },
    Unresolvable { subgraph: Seq<char>, error: ResolveErrorView },
    NotLoaded { uri: Seq<char> },
    MessageNotExposed { subgraph: Seq<char>, msg_name: Seq<char>, msg_type: GraphExposedMessageType },
    ExposedMessageMissingExtension { subgraph: Seq<char>, msg_name: Seq<char> },
    SubgraphTargetUnresolved { subgraph: Seq<char>, target: Seq<char> },
    ExtensionNotFound { name: Seq<char> },
    UnknownNodeType,
    SelectorNotSupported,
    UnknownMessageType { text: Seq<char> },
}

impl View for SubgraphError {
    type V = SubgraphErrorView;

    open spec fn view(&self) -> SubgraphErrorView {
        match *self {
            SubgraphError::SubgraphNodeMissing { name } => SubgraphErrorView::SubgraphNodeMissing {
                name: name@,
            },
            SubgraphError::DepthExceeded { subgraph } => SubgraphErrorView::DepthExceeded {
                subgraph: subgraph@,
            },
            SubgraphError::Unresolvable { subgraph, error } => SubgraphErrorView::Unresolvable {
                subgraph: subgraph@,
                error: error@,
            },
            SubgraphError::NotLoaded { uri } => SubgraphErrorView::NotLoaded { uri: uri@ },
            SubgraphError::MessageNotExposed {
                subgraph,
                msg_name,
                msg_type,
            } => SubgraphErrorView::MessageNotExposed {
                subgraph: subgraph@,
                msg_name: msg_name@,
                msg_type,
            },
            SubgraphError::ExposedMessageMissingExtension {
                subgraph,
                msg_name,
            } => SubgraphErrorView::ExposedMessageMissingExtension {
                subgraph: subgraph@,
                msg_name: msg_name@,
            },
            SubgraphError::SubgraphTargetUnresolved {
                subgraph,
                target,
            } => SubgraphErrorView::SubgraphTargetUnresolved {
                subgraph: subgraph@,
                target: target@,
            },
            SubgraphError::ExtensionNotFound { name } => SubgraphErrorView::ExtensionNotFound {
                name: name@,
            },
            SubgraphError::UnknownNodeType => SubgraphErrorView::UnknownNodeType,
            SubgraphError::SelectorNotSupported => SubgraphErrorView::SelectorNotSupported,
            SubgraphError::UnknownMessageType { text } => SubgraphErrorView::UnknownMessageType {
                text: text@,
            },
        }
    }
}

impl SubgraphErrorView {
    /// The error in words: a failure inside a subgraph names the subgraph
    /// first, then the message or the cause.
    pub open spec fn message(self) -> Seq<char> {
        match self {
            SubgraphErrorView::SubgraphNodeMissing { name } => "Subgraph '"@ + name
                + "' is not found in nodes"@,
            SubgraphErrorView::DepthExceeded { subgraph } => "subgraph '"@ + subgraph
                + "': nesting is too deep"@,
            SubgraphErrorView::Unresolvable { subgraph, error } => "subgraph '"@ + subgraph
                + "': "@ + error.message(),
            SubgraphErrorView::NotLoaded { uri } => "The graph at '"@ + uri + "' is not loaded"@,
            SubgraphErrorView::MessageNotExposed { subgraph, msg_name, msg_type } => "subgraph '"@
                + subgraph + "': message '"@ + msg_name + "' of type '"@ + exposed_type_text(
                msg_type,
            ) + "' is not exposed"@,
            SubgraphErrorView::ExposedMessageMissingExtension { subgraph, msg_name } => {
                "subgraph '"@ + subgraph + "': exposed message '"@ + msg_name
                    + "' does not specify an extension"@
            },
            SubgraphErrorView::SubgraphTargetUnresolved { subgraph, target } => "subgraph '"@
                + subgraph + "': extension or subgraph '"@ + target + "' not found"@,
            SubgraphErrorView::ExtensionNotFound { name } => "Extension '"@ + name
                + "' is not found in nodes"@,
            SubgraphErrorView::UnknownNodeType => {
                "Unknown node type, must be one of extension, subgraph or selector"@
            },
            SubgraphErrorView::SelectorNotSupported => {
                "Selector nodes stand for no single node"@
            },
            SubgraphErrorView::UnknownMessageType { text } => "Unknown message type: "@ + text,
        }
    }
}

/// Writes `head`, `middle` and `tail` one after the other.
fn three(head: &str, middle: &str, tail: &str) -> (r: String)
    ensures
        r@ == head@ + middle@ + tail@,
{
    let mut text = String::from_str(head);
    text.append(middle);
    text.append(tail);
    text
}

impl SubgraphError {
    /// The error in words.
    pub fn to_string(&self) -> (r: String)
        ensures
            r@ == self@.message(),
    {
        match self {
            SubgraphError::SubgraphNodeMissing { name } => three(
                "Subgraph '",
                name.as_str(),
                "' is not found in nodes",
            ),
            SubgraphError::DepthExceeded { subgraph } => three(
                "subgraph '",
                subgraph.as_str(),
                "': nesting is too deep",
            ),
            SubgraphError::Unresolvable { subgraph, error } => {
                let mut text = three("subgraph '", subgraph.as_str(), "': ");
                text.append(error.to_string().as_str());
                text
            },
            SubgraphError::NotLoaded { uri } => three(
                "The graph at '",
                uri.as_str(),
                "' is not loaded",
            ),
            SubgraphError::MessageNotExposed { subgraph, msg_name, msg_type } => {
                let mut text = three("subgraph '", subgraph.as_str(), "': message '");
                text.append(msg_name.as_str());
                text.append("' of type '");
                text.append(exposed_type_str(*msg_type));
                text.append("' is not exposed");
                text
            },
            SubgraphError::ExposedMessageMissingExtension { subgraph, msg_name } => {
                let mut text = three("subgraph '", subgraph.as_str(), "': exposed message '");
                text.append(msg_name.as_str());
                text.append("' does not specify an extension");
                text
            },
            SubgraphError::SubgraphTargetUnresolved { subgraph, target } => {
                let mut text = three("subgraph '", subgraph.as_str(), "': extension or subgraph '");
                text.append(target.as_str());
                text.append("' not found");
                text
            },
            SubgraphError::ExtensionNotFound { name } => three(
                "Extension '",
                name.as_str(),
                "' is not found in nodes",
            ),
            SubgraphError::UnknownNodeType => String::from_str(
                "Unknown node type, must be one of extension, subgraph or selector",
            ),
            SubgraphError::SelectorNotSupported => String::from_str(
                "Selector nodes stand for no single node",
            ),
            SubgraphError::UnknownMessageType { text } => {
                let mut out = String::from_str("Unknown message type: ");
                out.append(text.as_str());
                out
            },
        }
    }
}

/// What an exposed message leads to inside the document of a subgraph.
#[derive(Debug, PartialEq, Eq)]
pub enum Target {
    /// The extension that implements the message.
    Extension { node: ExtensionNode },
    /// A nested subgraph, in which the search goes on.
    Nested { subgraph: String },
}

/// The mathematical view of [`Target`].
pub enum TargetView {
    Extension { node: ExtensionView },
    Nested { subgraph: Seq<char> },
}

impl View for Target {
    type V = TargetView;

    open spec fn view(&self) -> TargetView {
        match *self {
            Target::Extension { node } => TargetView::Extension { node: node@ },
            Target::Nested { subgraph } => TargetView::Nested { subgraph: subgraph@ },
        }
    }
}

/// A graph document together with the location it was loaded from.
#[derive(Debug, PartialEq, Eq)]
pub struct LoadedGraph {
    pub uri: String,
    pub graph: Graph,
}

/// The mathematical view of [`LoadedGraph`].
pub struct LoadedView {
    pub uri: Seq<char>,
    pub graph: GraphView,
}

impl View for LoadedGraph {
    type V = LoadedView;

    open spec fn view(&self) -> LoadedView {
        LoadedView { uri: self.uri@, graph: self.graph@ }
    }
}

/// The views of a sequence of loaded documents.
pub open spec fn loaded_views(v: Seq<LoadedGraph>) -> Seq<LoadedView> {
    Seq::new(v.len(), |i: int| v[i]@)
}

/// The first subgraph node named `name`, from index `from` on.
pub open spec fn subgraph_node(nodes: Seq<NodeView>, name: Seq<char>, from: nat) -> Option<
    SubgraphView,
>
    decreases nodes.len() - from,
{
    if from >= nodes.len() {
        None
    } else {
        match nodes[from as int] {
            NodeView::Subgraph(s) => if s.name == name {
                Some(s)
            } else {
                subgraph_node(nodes, name, from + 1)
            },
            _ => subgraph_node(nodes, name, from + 1),
        }
    }
}

/// The first extension node named `name`, from index `from` on.
pub open spec fn extension_node(nodes: Seq<NodeView>, name: Seq<char>, from: nat) -> Option<
    ExtensionView,
>
    decreases nodes.len() - from,
{
    if from >= nodes.len() {
        None
    } else {
        match nodes[from as int] {
            NodeView::Extension(e) => if e.name == name {
                Some(e)
            } else {
                extension_node(nodes, name, from + 1)
            },
            _ => extension_node(nodes, name, from + 1),
        }
    }
}

/// The first extension node named `name` on application `app`, from index
/// `from` on.
pub open spec fn extension_on_app(
    nodes: Seq<NodeView>,
    app: Option<Seq<char>>,
    name: Seq<char>,
    from: nat,
) -> Option<ExtensionView>
    decreases nodes.len() - from,
{
    if from >= nodes.len() {
        None
    } else {
        match nodes[from as int] {
            NodeView::Extension(e) => if e.name == name && e.app == app {
                Some(e)
            } else {
                extension_on_app(nodes, app, name, from + 1)
            },
            _ => extension_on_app(nodes, app, name, from + 1),
        }
    }
}

/// The first exposed message of category `msg_type` named `name`, from index
/// `from` on.
pub open spec fn exposed_entry(
    messages: Seq<ExposedView>,
    msg_type: GraphExposedMessageType,
    name: Seq<char>,
    from: nat,
) -> Option<ExposedView>
    decreases messages.len() - from,
{
    if from >= messages.len() {
        None
    } else if messages[from as int].msg_type == msg_type && messages[from as int].name == name {
        Some(messages[from as int])
    } else {
        exposed_entry(messages, msg_type, name, from + 1)
    }
}

/// The first document loaded from `uri`, from index `from` on.
pub open spec fn document_at(docs: Seq<LoadedView>, uri: Seq<char>, from: nat) -> Option<GraphView>
    decreases docs.len() - from,
{
    if from >= docs.len() {
        None
    } else if docs[from as int].uri == uri {
        Some(docs[from as int].graph)
    } else {
        document_at(docs, uri, from + 1)
    }
}

/// The exposed messages of an optional list; an absent list holds none.
pub open spec fn exposed_or_empty(o: Option<Seq<ExposedView>>) -> Seq<ExposedView> {
    match o {
        Some(m) => m,
        None => Seq::empty(),
    }
}

impl GraphView {
    /// The name of the node that implements the message `msg_name` of
    /// category `msg_type`, which this graph, the document of the subgraph
    /// `subgraph`, must expose: the extension that the first matching
    /// exposed message names, or else the subgraph that it names.
    pub open spec fn exposed_target(
        self,
        subgraph: Seq<char>,
        msg_name: Seq<char>,
        msg_type: GraphExposedMessageType,
    ) -> Result<Seq<char>, SubgraphErrorView> {
        match exposed_entry(exposed_or_empty(self.exposed_messages), msg_type, msg_name, 0) {
            Some(entry) => match entry.extension {
                Some(extension) => Ok(extension),
                None => match entry.subgraph {
                    Some(nested) => Ok(nested),
                    None => Err(
                        SubgraphErrorView::ExposedMessageMissingExtension { subgraph, msg_name },
                    ),
                },
            },
            None => Err(SubgraphErrorView::MessageNotExposed { subgraph, msg_name, msg_type }),
        }
    }

    /// What the exposed message leads to in this graph, the document of the
    /// subgraph `subgraph`: the extension of the target's name if there is
    /// one, else the nested subgraph of that name.
    pub open spec fn target_in_document(
        self,
        subgraph: Seq<char>,
        msg_name: Seq<char>,
        msg_type: GraphExposedMessageType,
    ) -> Result<TargetView, SubgraphErrorView> {
        match self.exposed_target(subgraph, msg_name, msg_type) {
            Err(e) => Err(e),
            Ok(target) => match extension_node(self.nodes, target, 0) {
                Some(node) => Ok(TargetView::Extension { node }),
                None => match subgraph_node(self.nodes, target, 0) {
                    Some(_) => Ok(TargetView::Nested { subgraph: target }),
                    None => Err(SubgraphErrorView::SubgraphTargetUnresolved { subgraph, target }),
                },
            },
        }
    }

    /// The extension that implements the message `msg_name` of category
    /// `msg_type` exposed by the subgraph node `subgraph` of this graph,
    /// whose relative references are resolved against `base_dir`.
    ///
    /// The document of the subgraph is found among `docs` under the location
    /// that its import reference resolves to. Where the exposed message
    /// leads to a nested subgraph, the search goes on in that document, with
    /// the base directory of the document's own location. At most `depth`
    /// documents are entered.
    pub open spec fn extension_through(
        self,
        base_dir: Option<Seq<char>>,
        subgraph: Seq<char>,
        msg_name: Seq<char>,
        msg_type: GraphExposedMessageType,
        docs: Seq<LoadedView>,
        depth: nat,
    ) -> Result<ExtensionView, SubgraphErrorView>
        decreases depth,
    {
        match subgraph_node(self.nodes, subgraph, 0) {
            None => Err(SubgraphErrorView::SubgraphNodeMissing { name: subgraph }),
            Some(node) => if depth == 0 {
                Err(SubgraphErrorView::DepthExceeded { subgraph })
            } else {
                match resolved_location(node.import_uri, base_dir, None) {
                    Err(error) => Err(SubgraphErrorView::Unresolvable { subgraph, error }),
                    Ok(uri) => match document_at(docs, uri, 0) {
                        None => Err(SubgraphErrorView::NotLoaded { uri }),
                        Some(doc) => match doc.target_in_document(subgraph, msg_name, msg_type) {
                            Err(e) => Err(e),
                            Ok(TargetView::Extension { node }) => Ok(node),
                            Ok(TargetView::Nested { subgraph: nested }) => match base_dir_of(uri) {
                                Err(error) => Err(
                                    SubgraphErrorView::Unresolvable { subgraph, error },
                                ),
                                Ok(dir) => doc.extension_through(
                                    Some(dir),
                                    nested,
                                    msg_name,
                                    msg_type,
                                    docs,
                                    (depth - 1) as nat,
                                ),
                            },
                        },
                    },
                }
            },
        }
    }
}

/// The view of the outcome of a lookup that gives a name.
pub open spec fn named(r: Result<String, SubgraphError>) -> Result<Seq<char>, SubgraphErrorView> {
    match r {
        Ok(s) => Ok(s@),
        Err(e) => Err(e@),
    }
}

/// The view of the outcome of a lookup in a document.
pub open spec fn targeted(r: Result<Target, SubgraphError>) -> Result<TargetView, SubgraphErrorView> {
    match r {
        Ok(t) => Ok(t@),
        Err(e) => Err(e@),
    }
}

/// The view of the outcome of a resolution.
pub open spec fn resolved(r: Result<ExtensionNode, SubgraphError>) -> Result<
    ExtensionView,
    SubgraphErrorView,
> {
    match r {
        Ok(n) => Ok(n@),
        Err(e) => Err(e@),
    }
}

/// The exposed-message category, on the receiving side, of a message kind
/// written as text.
pub open spec fn inbound_type_of(msg_type: Seq<char>) -> Option<GraphExposedMessageType> {
    if msg_type == "cmd"@ {
        Some(GraphExposedMessageType::CmdIn)
    } else if msg_type == "data"@ {
        Some(GraphExposedMessageType::DataIn)
    } else if msg_type == "audio_frame"@ {
        Some(GraphExposedMessageType::AudioFrameIn)
    } else if msg_type == "video_frame"@ {
        Some(GraphExposedMessageType::VideoFrameIn)
    } else {
        None
    }
}

/// Finds the first subgraph node named `name`.
pub fn find_subgraph_node<'a>(nodes: &'a Vec<GraphNode>, name: &str) -> (r: Option<
    &'a SubgraphNode,
>)
    ensures
        (match r {
            Some(s) => subgraph_node(node_views(nodes@), name@, 0) == Some(s@),
            None => subgraph_node(node_views(nodes@), name@, 0).is_none(),
        }),
{
    let ghost views = node_views(nodes@);
    let mut i: usize = 0;
    while i < nodes.len()
        invariant
            i <= nodes.len(),
            views == node_views(nodes@),
            subgraph_node(views, name@, 0) == subgraph_node(views, name@, i as nat),
        decreases nodes.len() - i,
    {
        assert(views[i as int] == nodes@[i as int]@);
        match &nodes[i] {
            GraphNode::Subgraph { content } => {
                if str_eq(content.name.as_str(), name) {
                    return Some(content);
                }
            },
            _ => {},
        }
        i += 1;
    }
    None
}

/// Finds the first extension node named `name`.
pub fn find_extension_node<'a>(nodes: &'a Vec<GraphNode>, name: &str) -> (r: Option<
    &'a ExtensionNode,
>)
    ensures
        (match r {
            Some(e) => extension_node(node_views(nodes@), name@, 0) == Some(e@),
            None => extension_node(node_views(nodes@), name@, 0).is_none(),
        }),
{
    let ghost views = node_views(nodes@);
    let mut i: usize = 0;
    while i < nodes.len()
        invariant
            i <= nodes.len(),
            views == node_views(nodes@),
            extension_node(views, name@, 0) == extension_node(views, name@, i as nat),
        decreases nodes.len() - i,
    {
        assert(views[i as int] == nodes@[i as int]@);
        match &nodes[i] {
            GraphNode::Extension { content } => {
                if str_eq(content.name.as_str(), name) {
                    return Some(content);
                }
            },
            _ => {},
        }
        i += 1;
    }
    None
}

/// Finds the first document loaded from `uri`.
pub fn find_document<'a>(documents: &'a Vec<LoadedGraph>, uri: &str) -> (r: Option<&'a Graph>)
    ensures
        (match r {
            Some(g) => document_at(loaded_views(documents@), uri@, 0) == Some(g@),
            None => document_at(loaded_views(documents@), uri@, 0).is_none(),
        }),
{
    let ghost views = loaded_views(documents@);
    let mut i: usize = 0;
    while i < documents.len()
        invariant
            i <= documents.len(),
            views == loaded_views(documents@),
            document_at(views, uri@, 0) == document_at(views, uri@, i as nat),
        decreases documents.len() - i,
    {
        assert(views[i as int] == documents@[i as int]@);
        if str_eq(documents[i].uri.as_str(), uri) {
            return Some(&documents[i].graph);
        }
        i += 1;
    }
    None
}

/// Finds the first exposed message of category `msg_type` named `name`.
pub fn find_exposed<'a>(
    messages: &'a Vec<GraphExposedMessage>,
    msg_type: GraphExposedMessageType,
    name: &str,
) -> (r: Option<&'a GraphExposedMessage>)
    ensures
        (match r {
            Some(m) => exposed_entry(exposed_views(messages@), msg_type, name@, 0) == Some(m@),
            None => exposed_entry(exposed_views(messages@), msg_type, name@, 0).is_none(),
        }),
{
    let ghost views = exposed_views(messages@);
    let mut i: usize = 0;
    while i < messages.len()
        invariant
            i <= messages.len(),
            views == exposed_views(messages@),
            exposed_entry(views, msg_type, name@, 0) == exposed_entry(
                views,
                msg_type,
                name@,
                i as nat,
            ),
        decreases messages.len() - i,
    {
        assert(views[i as int] == messages@[i as int]@);
        if messages[i].msg_type == msg_type && str_eq(messages[i].name.as_str(), name) {
            return Some(&messages[i]);
        }
        i += 1;
    }
    None
}

/// A string slice borrowed from an optional string.
pub fn as_opt_str(o: &Option<String>) -> (r: Option<&str>)
    ensures
        opt_str(r) == opt_text(*o),
{
    match o {
        Some(s) => Some(s.as_str()),
        None => None,
    }
}

impl Graph {
    /// Looks up, in `subgraph`, the document of the subgraph node
    /// `subgraph_name`, the exposed message `msg_name` of category
    /// `msg_type`, and returns the name of the node that implements it.
    pub fn resolve_subgraph_to_extension(
        subgraph_name: &str,
        msg_name: &str,
        msg_type: GraphExposedMessageType,
        subgraph: &Graph,
    ) -> (r: Result<String, SubgraphError>)
        ensures
            named(r) == subgraph@.exposed_target(subgraph_name@, msg_name@, msg_type),
    {
        let found = match &subgraph.exposed_messages {
            Some(messages) => find_exposed(messages, msg_type, msg_name),
            None => {
                assert(exposed_or_empty(subgraph@.exposed_messages) =~= Seq::empty());
                None
            },
        };
        match found {
            Some(entry) => match &entry.extension {
                Some(extension) => Ok(extension.clone()),
                None => match &entry.subgraph {
                    Some(nested) => Ok(nested.clone()),
                    None => Err(
                        SubgraphError::ExposedMessageMissingExtension {
                            subgraph: subgraph_name.to_owned(),
                            msg_name: msg_name.to_owned(),
                        },
                    ),
                },
            },
            None => Err(
                SubgraphError::MessageNotExposed {
                    subgraph: subgraph_name.to_owned(),
                    msg_name: msg_name.to_owned(),
                    msg_type,
                },
            ),
        }
    }

    /// The exposed-message category under which a subgraph receives
    /// messages of the kind written as `msg_type`.
    pub fn get_exposed_message_type_for_dest_subgraph(msg_type: &str) -> (r: Result<
        GraphExposedMessageType,
        SubgraphError,
    >)
        ensures
            (match inbound_type_of(msg_type@) {
                Some(t) => r matches Ok(x) && x == t,
                None => r matches Err(e) && e@ == (SubgraphErrorView::UnknownMessageType {
                    text: msg_type@,
                }),
            }),
    {
        if str_eq(msg_type, "cmd") {
            Ok(GraphExposedMessageType::CmdIn)
        } else if str_eq(msg_type, "data") {
            Ok(GraphExposedMessageType::DataIn)
        } else if str_eq(msg_type, "audio_frame") {
            Ok(GraphExposedMessageType::AudioFrameIn)
        } else if str_eq(msg_type, "video_frame") {
            Ok(GraphExposedMessageType::VideoFrameIn)
        } else {
            Err(SubgraphError::UnknownMessageType { text: msg_type.to_owned() })
        }
    }

    /// Follows the exposed message `msg_name` of category `msg_type` inside
    /// this graph, the loaded document of the subgraph `subgraph_name`: to
    /// the extension that implements it, or to the nested subgraph in which
    /// the search goes on.
    pub fn find_target_in_document(
        &self,
        subgraph_name: &str,
        msg_name: &str,
        msg_type: GraphExposedMessageType,
    ) -> (r: Result<Target, SubgraphError>)
        ensures
            targeted(r) == self@.target_in_document(subgraph_name@, msg_name@, msg_type),
    {
        let target = match Graph::resolve_subgraph_to_extension(
            subgraph_name,
            msg_name,
            msg_type,
            self,
        ) {
            Ok(t) => t,
            Err(e) => { return Err(e); },
        };
        match find_extension_node(&self.nodes, target.as_str()) {
            Some(node) => Ok(Target::Extension { node: node.clone() }),
            None => match find_subgraph_node(&self.nodes, target.as_str()) {
                Some(_) => Ok(Target::Nested { subgraph: target }),
                None => Err(
                    SubgraphError::SubgraphTargetUnresolved {
                        subgraph: subgraph_name.to_owned(),
                        target,
                    },
                ),
            },
        }
    }

    /// Finds the extension that implements the message `msg_name`, of kind
    /// `msg_type` in direction `msg_direction`, which the subgraph node
    /// `subgraph_name` of this graph exposes.
    ///
    /// `documents` are the graph documents that have been loaded, each with
    /// the location it was loaded from. The import reference of the subgraph
    /// is resolved against `base_dir`; if the document at that location is
    /// not among `documents`, the result is `NotLoaded` with the location,
    /// and the caller may load it and ask again. Nested subgraphs are
    /// resolved relative to the location of the document that declares them.
    /// At most `max_depth` documents are entered, so that documents that
    /// refer to each other in a cycle end in `DepthExceeded`.
    pub fn get_extension_node_from_subgraph_using_exposed_message(
        &self,
        base_dir: &Option<String>,
        subgraph_name: &str,
        msg_type: &MsgType,
        msg_name: &str,
        msg_direction: MsgDirection,
        documents: &Vec<LoadedGraph>,
        max_depth: usize,
    ) -> (r: Result<ExtensionNode, SubgraphError>)
        ensures
            resolved(r) == self@.extension_through(
                opt_text(*base_dir),
                subgraph_name@,
                msg_name@,
                exposed_type_of(*msg_type, msg_direction),
                loaded_views(documents@),
                max_depth as nat,
            ),
        decreases max_depth,
    {
        let node = match find_subgraph_node(&self.nodes, subgraph_name) {
            Some(n) => n,
            None => {
                return Err(SubgraphError::SubgraphNodeMissing { name: subgraph_name.to_owned() });
            },
        };
        if max_depth == 0 {
            return Err(SubgraphError::DepthExceeded { subgraph: subgraph_name.to_owned() });
        }
        let exposed_type = exposed_message_type(*msg_type, msg_direction);
        let uri = match get_real_path_from_import_uri(
            node.graph.import_uri.as_str(),
            as_opt_str(base_dir),
            None,
        ) {
            Ok(u) => u,
            Err(error) => {
                return Err(
                    SubgraphError::Unresolvable { subgraph: subgraph_name.to_owned(), error },
                );
            },
        };
        let document = match find_document(documents, uri.as_str()) {
            Some(d) => d,
            None => { return Err(SubgraphError::NotLoaded { uri }); },
        };
        match document.find_target_in_document(subgraph_name, msg_name, exposed_type) {
            Err(e) => Err(e),
            Ok(Target::Extension { node }) => Ok(node),
            Ok(Target::Nested { subgraph }) => {
                let dir = match get_base_dir_of_uri(uri.as_str()) {
                    Ok(d) => d,
                    Err(error) => {
                        return Err(
                            SubgraphError::Unresolvable {
                                subgraph: subgraph_name.to_owned(),
                                error,
                            },
                        );
                    },
                };
                document.get_extension_node_from_subgraph_using_exposed_message(
                    &Some(dir),
                    subgraph.as_str(),
                    msg_type,
                    msg_name,
                    msg_direction,
                    documents,
                    max_depth - 1,
                )
            },
        }
    }

    /// The addon of the first extension named `name` on application `app`.
    pub fn get_addon_name_of_extension(&self, app: &Option<String>, name: &str) -> (r: Result<
        String,
        SubgraphError,
    >)
        ensures
            (named(r) == match extension_on_app(self@.nodes, opt_text(*app), name@, 0) {
                Some(e) => Ok::<Seq<char>, SubgraphErrorView>(e.addon),
                None => Err::<Seq<char>, SubgraphErrorView>(
                    SubgraphErrorView::ExtensionNotFound { name: name@ },
                ),
            }),
    {
        let ghost views = node_views(self.nodes@);
        let mut i: usize = 0;
        while i < self.nodes.len()
            invariant
                i <= self.nodes.len(),
                views == node_views(self.nodes@),
                extension_on_app(views, opt_text(*app), name@, 0) == extension_on_app(
                    views,
                    opt_text(*app),
                    name@,
                    i as nat,
                ),
            decreases self.nodes.len() - i,
        {
            assert(views[i as int] == self.nodes@[i as int]@);
            match &self.nodes[i] {
                GraphNode::Extension { content } => {
                    if str_eq(content.name.as_str(), name) && opt_str_eq(&content.app, app) {
                        return Ok(content.addon.clone());
                    }
                },
                _ => {},
            }
            i += 1;
        }
        Err(SubgraphError::ExtensionNotFound { name: name.to_owned() })
    }

    /// The addon behind a location: that of the extension it names, or, for
    /// a subgraph, that of the extension which implements the message
    /// `msg_name` that the subgraph exposes. A selector has no addon.
    pub fn get_addon_name_of_node(
        &self,
        base_dir: &Option<String>,
        loc: &GraphLoc,
        msg_type: &MsgType,
        msg_name: &str,
        msg_direction: MsgDirection,
        documents: &Vec<LoadedGraph>,
        max_depth: usize,
    ) -> (r: Result<String, SubgraphError>)
        ensures
            named(r) == self@.addon_behind(
                opt_text(*base_dir),
                loc@,
                msg_name@,
                exposed_type_of(*msg_type, msg_direction),
                loaded_views(documents@),
                max_depth as nat,
            ),
    {
        if let Some(extension) = &loc.extension {
            self.get_addon_name_of_extension(&loc.app, extension.as_str())
        } else if let Some(subgraph) = &loc.subgraph {
            match self.get_extension_node_from_subgraph_using_exposed_message(
                base_dir,
                subgraph.as_str(),
                msg_type,
                msg_name,
                msg_direction,
                documents,
                max_depth,
            ) {
                Ok(node) => Ok(node.addon),
                Err(e) => Err(e),
            }
        } else if loc.selector.is_some() {
            Err(SubgraphError::SelectorNotSupported)
        } else {
            Err(SubgraphError::UnknownNodeType)
        }
    }
}

impl GraphView {
    /// The addon behind a location.
    pub open spec fn addon_behind(
        self,
        base_dir: Option<Seq<char>>,
        loc: LocView,
        msg_name: Seq<char>,
        msg_type: GraphExposedMessageType,
        docs: Seq<LoadedView>,
        depth: nat,
    ) -> Result<Seq<char>, SubgraphErrorView> {
        match loc.node_type() {
            Some(GraphNodeType::Extension) => match extension_on_app(
                self.nodes,
                loc.app,
                loc.extension->0,
                0,
            ) {
                Some(e) => Ok(e.addon),
                None => Err(SubgraphErrorView::ExtensionNotFound { name: loc.extension->0 }),
            },
            Some(GraphNodeType::Subgraph) => match self.extension_through(
                base_dir,
                loc.subgraph->0,
                msg_name,
                msg_type,
                docs,
                depth,
            ) {
                Ok(node) => Ok(node.addon),
                Err(e) => Err(e),
            },
            Some(GraphNodeType::Selector) => Err(SubgraphErrorView::SelectorNotSupported),
            None => Err(SubgraphErrorView::UnknownNodeType),
        }
    }
}

/// The depth bound only cuts resolutions short: an outcome other than
/// `DepthExceeded` stays the same under every larger bound.
pub proof fn lemma_larger_bound_keeps_outcome(
    g: GraphView,
    base_dir: Option<Seq<char>>,
    subgraph: Seq<char>,
    msg_name: Seq<char>,
    msg_type: GraphExposedMessageType,
    docs: Seq<LoadedView>,
    depth: nat,
    larger: nat,
)
    requires
        depth <= larger,
        !(g.extension_through(base_dir, subgraph, msg_name, msg_type, docs, depth) matches Err(
            SubgraphErrorView::DepthExceeded { .. },
        )),
    ensures
        g.extension_through(base_dir, subgraph, msg_name, msg_type, docs, larger)
            == g.extension_through(base_dir, subgraph, msg_name, msg_type, docs, depth),
    decreases depth,
{
    if let Some(node) = subgraph_node(g.nodes, subgraph, 0) {
        if depth > 0 {
            if let Ok(uri) = resolved_location(node.import_uri, base_dir, None) {
                if let Some(doc) = document_at(docs, uri, 0) {
                    if let Ok(TargetView::Nested { subgraph: nested }) = doc.target_in_document(
                        subgraph,
                        msg_name,
                        msg_type,
                    ) {
                        if let Ok(dir) = base_dir_of(uri) {
                            lemma_larger_bound_keeps_outcome(
                                doc,
                                Some(dir),
                                nested,
                                msg_name,
                                msg_type,
                                docs,
                                (depth - 1) as nat,
                                (larger - 1) as nat,
                            );
                        }
                    }
                }
            }
        }
    }
}

proof fn lemma_document_stays(docs: Seq<LoadedView>, more: LoadedView, uri: Seq<char>, from: nat)
    requires
        document_at(docs, uri, from) is Some,
    ensures
        document_at(docs.push(more), uri, from) == document_at(docs, uri, from),
    decreases docs.len() - from,
{
    if from < docs.len() {
        assert(docs.push(more)[from as int] == docs[from as int]);
        if docs[from as int].uri != uri {
            lemma_document_stays(docs, more, uri, from + 1);
        }
    }
}

/// Loading one more document changes no outcome but `NotLoaded`: a
/// resolution that did not stop for want of a document gives the same
/// outcome when another document has been added after those given.
pub proof fn lemma_more_documents_keep_outcome(
    g: GraphView,
    base_dir: Option<Seq<char>>,
    subgraph: Seq<char>,
    msg_name: Seq<char>,
    msg_type: GraphExposedMessageType,
    docs: Seq<LoadedView>,
    more: LoadedView,
    depth: nat,
)
    requires
        !(g.extension_through(base_dir, subgraph, msg_name, msg_type, docs, depth) matches Err(
            SubgraphErrorView::NotLoaded { .. },
        )),
    ensures
        g.extension_through(base_dir, subgraph, msg_name, msg_type, docs.push(more), depth)
            == g.extension_through(base_dir, subgraph, msg_name, msg_type, docs, depth),
    decreases depth,
{
    if let Some(node) = subgraph_node(g.nodes, subgraph, 0) {
        if depth > 0 {
            if let Ok(uri) = resolved_location(node.import_uri, base_dir, None) {
                if let Some(doc) = document_at(docs, uri, 0) {
                    lemma_document_stays(docs, more, uri, 0);
                    if let Ok(TargetView::Nested { subgraph: nested }) = doc.target_in_document(
                        subgraph,
                        msg_name,
                        msg_type,
                    ) {
                        if let Ok(dir) = base_dir_of(uri) {
                            lemma_more_documents_keep_outcome(
                                doc,
                                Some(dir),
                                nested,
                                msg_name,
                                msg_type,
                                docs,
                                more,
                                (depth - 1) as nat,
                            );
                        }
                    }
                }
            }
        }
    }
}

} // verus!
