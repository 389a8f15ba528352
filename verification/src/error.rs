//! The failures of graph operations, as values.

use vstd::prelude::*;
use crate::kinds::{
    msg_type_str, msg_type_text, node_type_str, node_type_text, GraphNodeType, MsgType,
};
use crate::text::{decimal, decimal_string};

verus! {

/// What is wrong with one location.
#[derive(Clone, Copy, Debug, PartialEq, Eq, Structural)]
pub enum LocError {
    /// The location names no extension, subgraph or selector, or more than
    /// one of them.
    UnknownNodeType,
    /// The nodes of the graph declare an application; the location must too.
    AppUriShouldBeDeclared { single_app: bool },
    /// No node of the graph declares an application; the location may not.
    AppUriShouldNotBeDeclared { single_app: bool },
    /// The location names `localhost`, which stands for the undeclared
    /// application and may not be written.
    LocalhostForbidden { single_app: bool },
}

/// How a graph is called by the number of its deployments.
pub open spec fn mode_text(single_app: bool) -> Seq<char> {
    if single_app {
        " (single-app graph)"@
    } else {
        " (multi-app graph)"@
    }
}

impl LocError {
    /// The error in words; it names the kind of graph.
    pub open spec fn message(self) -> Seq<char> {
        match self {
            LocError::UnknownNodeType => {
                "Unknown node type, must be one of extension, subgraph or selector"@
            },
            LocError::AppUriShouldBeDeclared { single_app } => {
                "'app' field should be declared, as the nodes of the graph declare it"@
                    + mode_text(single_app)
            },
            LocError::AppUriShouldNotBeDeclared { single_app } => {
                "'app' field should not be declared, as no node of the graph declares it"@
                    + mode_text(single_app)
            },
            LocError::LocalhostForbidden { single_app } => {
                "'localhost' is not allowed in graph definition"@ + mode_text(single_app)
            },
        }
    }

    /// The error in words.
    pub fn to_string(&self) -> (r: String)
        ensures
            r@ == self.message(),
    {
        let (head, single_app) = match self {
            LocError::UnknownNodeType => {
                return String::from_str(
                    "Unknown node type, must be one of extension, subgraph or selector",
                );
            },
            LocError::AppUriShouldBeDeclared { single_app } => (
                "'app' field should be declared, as the nodes of the graph declare it",
                *single_app,
            ),
            LocError::AppUriShouldNotBeDeclared { single_app } => (
                "'app' field should not be declared, as no node of the graph declares it",
                *single_app,
            ),
            LocError::LocalhostForbidden { single_app } => (
                "'localhost' is not allowed in graph definition",
                *single_app,
            ),
        };
        let mut text = String::from_str(head);
        if single_app {
            text.append(" (single-app graph)");
        } else {
            text.append(" (multi-app graph)");
        }
        text
    }
}

/// A step of the path to a failure: `name[index]: `.
pub open spec fn step_text(name: Seq<char>, index: nat) -> Seq<char> {
    name + "["@ + decimal(index) + "]: "@
}

/// Writes a step of the path to a failure and, after it, the failure.
pub fn prefixed(name: &str, index: usize, rest: String) -> (r: String)
    ensures
        r@ == step_text(name@, index as nat) + rest@,
{
    let mut text = String::from_str(name);
    text.append("[");
    text.append(decimal_string(index).as_str());
    text.append("]: ");
    text.append(rest.as_str());
    text
}

/// What is wrong with one rule of a conversion.
#[derive(Clone, Copy, Debug, PartialEq, Eq, Structural)]
pub enum RuleError {
    /// The rule sets a fixed value and holds none.
    MissingValue,
    /// The rule takes the value from the message as it was sent and names no
    /// property of it.
    MissingOriginalPath,
}

impl RuleError {
    /// The error in words.
    pub open spec fn message(self) -> Seq<char> {
        match self {
            RuleError::MissingValue => {
                "'value' is required when conversion_mode is 'fixed_value'"@
            },
            RuleError::MissingOriginalPath => {
                "'original_path' is required when conversion_mode is 'from_original'"@
            },
        }
    }

    /// The error in words.
    pub fn to_string(&self) -> (r: String)
        ensures
            r@ == self.message(),
    {
        match self {
            RuleError::MissingValue => String::from_str(
                "'value' is required when conversion_mode is 'fixed_value'",
            ),
            RuleError::MissingOriginalPath => String::from_str(
                "'original_path' is required when conversion_mode is 'from_original'",
            ),
        }
    }
}

/// What is wrong with a conversion of message and result.
#[derive(Clone, Copy, Debug, PartialEq, Eq, Structural)]
pub enum ConversionError {
    /// The rule at `rule` of the conversion of the message is invalid.
    Msg { rule: usize, error: RuleError },
    /// The rule at `rule` of the conversion of the result is invalid.
    Result { rule: usize, error: RuleError },
}

impl ConversionError {
    /// The error in words, with the rule it lies in.
    pub open spec fn message(self) -> Seq<char> {
        match self {
            ConversionError::Msg { rule, error } => step_text("msg.rules"@, rule as nat)
                + error.message(),
            ConversionError::Result { rule, error } => step_text("result.rules"@, rule as nat)
                + error.message(),
        }
    }

    /// The error in words.
    pub fn to_string(&self) -> (r: String)
        ensures
            r@ == self.message(),
    {
        match self {
            ConversionError::Msg { rule, error } => prefixed("msg.rules", *rule, error.to_string()),
            ConversionError::Result { rule, error } => prefixed(
                "result.rules",
                *rule,
                error.to_string(),
            ),
        }
    }
}

/// What is wrong with one destination.
#[derive(Clone, Copy, Debug, PartialEq, Eq, Structural)]
pub enum DestError {
    /// The location is invalid.
    Loc { cause: LocError },
    /// The conversion rule is invalid.
    Conversion { error: ConversionError },
}

impl DestError {
    /// The error in words.
    pub open spec fn message(self) -> Seq<char> {
        match self {
            DestError::Loc { cause } => cause.message(),
            DestError::Conversion { error } => "invalid msg_conversion: "@ + error.message(),
        }
    }

    /// The error in words.
    pub fn to_string(&self) -> (r: String)
        ensures
            r@ == self.message(),
    {
        match self {
            DestError::Loc { cause } => cause.to_string(),
            DestError::Conversion { error } => {
                let mut text = String::from_str("invalid msg_conversion: ");
                text.append(error.to_string().as_str());
                text
            },
        }
    }
}

/// What is wrong with one message flow.
#[derive(Clone, Copy, Debug, PartialEq, Eq, Structural)]
pub enum FlowError {
    /// The flow has both a single name and a list of names.
    BothNameAndNames,
    /// The flow has neither a single name nor a list of names.
    NeitherNameNorNames,
    /// The flow's list of names is empty.
    EmptyNames,
    /// The destination at `index` is invalid.
    Dest { index: usize, error: DestError },
}

impl FlowError {
    /// The error in words, with the index of the destination it lies in.
    pub open spec fn message(self) -> Seq<char> {
        match self {
            FlowError::BothNameAndNames => {
                "Both 'name' and 'names' fields are specified, but they are mutually exclusive"@
            },
            FlowError::NeitherNameNorNames => {
                "Neither 'name' nor 'names' field is specified, but one must be provided"@
            },
            FlowError::EmptyNames => "'names' field is empty, must contain at least one name"@,
            FlowError::Dest { index, error } => step_text("dest"@, index as nat) + error.message(),
        }
    }

    /// The error in words.
    pub fn to_string(&self) -> (r: String)
        ensures
            r@ == self.message(),
    {
        match self {
            FlowError::BothNameAndNames => String::from_str(
                "Both 'name' and 'names' fields are specified, but they are mutually exclusive",
            ),
            FlowError::NeitherNameNorNames => String::from_str(
                "Neither 'name' nor 'names' field is specified, but one must be provided",
            ),
            FlowError::EmptyNames => String::from_str(
                "'names' field is empty, must contain at least one name",
            ),
            FlowError::Dest { index, error } => prefixed("dest", *index, error.to_string()),
        }
    }
}

/// What is wrong with one connection.
#[derive(Clone, Copy, Debug, PartialEq, Eq, Structural)]
pub enum ConnectionError {
    /// The source location is invalid.
    Loc { cause: LocError },
    /// The flow of kind `kind` at `index` is invalid.
    Flow { kind: MsgType, index: usize, error: FlowError },
}

impl ConnectionError {
    /// The error in words, with the kind and index of the flow it lies in.
    pub open spec fn message(self) -> Seq<char> {
        match self {
            ConnectionError::Loc { cause } => cause.message(),
            ConnectionError::Flow { kind, index, error } => step_text(
                msg_type_text(kind),
                index as nat,
            ) + error.message(),
        }
    }

    /// The error in words.
    pub fn to_string(&self) -> (r: String)
        ensures
            r@ == self.message(),
    {
        match self {
            ConnectionError::Loc { cause } => cause.to_string(),
            ConnectionError::Flow { kind, index, error } => prefixed(
                msg_type_str(*kind),
                *index,
                error.to_string(),
            ),
        }
    }
}

/// What is wrong with a graph as a whole.
#[derive(Clone, Copy, Debug, PartialEq, Eq, Structural)]
pub enum ValidationError {
    /// Some nodes declare an application and some do not.
    MixedAppDeclaration,
    /// The connection at `index` is invalid.
    Connection { index: usize, error: ConnectionError },
}

impl ValidationError {
    /// The error in words, with the index of the connection it lies in.
    pub open spec fn message(self) -> Seq<char> {
        match self {
            ValidationError::MixedAppDeclaration => {
                "Either all nodes should have 'app' declared, or none should, but not a mix of both"@
            },
            ValidationError::Connection { index, error } => step_text(
                "connections"@,
                index as nat,
            ) + error.message(),
        }
    }

    /// The error in words.
    pub fn to_string(&self) -> (r: String)
        ensures
            r@ == self.message(),
    {
        match self {
            ValidationError::MixedAppDeclaration => String::from_str(
                "Either all nodes should have 'app' declared, or none should, but not a mix of both",
            ),
            ValidationError::Connection { index, error } => prefixed(
                "connections",
                *index,
                error.to_string(),
            ),
        }
    }
}

/// Why a graph could not be edited.
#[derive(Debug, PartialEq, Eq)]
pub enum GraphError {
    /// A location names no node.
    UnknownNodeType,
    /// The graph has no node of this kind and name.
    NodeNotFound { node_type: GraphNodeType, name: String },
    /// The source already sends the message to the destination.
    ConnectionAlreadyExists {
        msg_type: MsgType,
        msg_name: String,
        src_type: GraphNodeType,
        src_name: String,
        dest_type: GraphNodeType,
        dest_name: String,
    },
    /// The schema validator refused the connection.
    SchemaMismatch { reason: String },
    /// No message name was given.
    EmptyMessageName,
    /// The graph that the edit leads to is invalid.
    Invalid { error: ValidationError },
}

/// The mathematical view of [`GraphError`].
pub enum GraphErrorView {
    UnknownNodeType,
    NodeNotFound { node_type: GraphNodeType, name: Seq<char> },
    ConnectionAlreadyExists {
        msg_type: MsgType,
        msg_name: Seq<char>,
        src_type: GraphNodeType,
        src_name: Seq<char>,
        dest_type: GraphNodeType,
        dest_name: Seq<char>,
    },
    SchemaMismatch { reason: Seq<char> },
    EmptyMessageName,
    Invalid { error: ValidationError },
}

impl View for GraphError {
    type V = GraphErrorView;

    open spec fn view(&self) -> GraphErrorView {
        match *self {
            GraphError::UnknownNodeType => GraphErrorView::UnknownNodeType,
            GraphError::NodeNotFound { node_type, name } => GraphErrorView::NodeNotFound {
                node_type,
                name: name@,
            },
            GraphError::ConnectionAlreadyExists {
                msg_type,
                msg_name,
                src_type,
                src_name,
                dest_type,
                dest_name,
            } => GraphErrorView::ConnectionAlreadyExists {
                msg_type,
                msg_name: msg_name@,
                src_type,
                src_name: src_name@,
                dest_type,
                dest_name: dest_name@,
            },
            GraphError::SchemaMismatch { reason } => GraphErrorView::SchemaMismatch {
                reason: reason@,
            },
            GraphError::EmptyMessageName => GraphErrorView::EmptyMessageName,
            GraphError::Invalid { error } => GraphErrorView::Invalid { error },
        }
    }
}

impl GraphErrorView {
    /// The error in words: it names the nodes, the kind of message and the
    /// message that it is about.
    pub open spec fn message(self) -> Seq<char> {
        match self {
            GraphErrorView::UnknownNodeType => LocError::UnknownNodeType.message(),
            GraphErrorView::NodeNotFound { node_type, name } => node_type_text(node_type)
                + " node '"@ + name + "' not found in graph"@,
            GraphErrorView::ConnectionAlreadyExists {
                msg_type,
                msg_name,
                src_type,
                src_name,
                dest_type,
                dest_name,
            } => "Connection already exists: src: "@ + node_type_text(src_type) + " '"@ + src_name
                + "', msg_type: "@ + msg_type_text(msg_type) + ", msg_name: "@ + msg_name
                + ", dest: "@ + node_type_text(dest_type) + " '"@ + dest_name + "'"@,
            GraphErrorView::SchemaMismatch { reason } => reason,
            GraphErrorView::EmptyMessageName => "Message name is empty"@,
            GraphErrorView::Invalid { error } => error.message(),
        }
    }
}

impl GraphError {
    /// The error in words.
    pub fn to_string(&self) -> (r: String)
        ensures
            r@ == self@.message(),
    {
        match self {
            GraphError::UnknownNodeType => LocError::UnknownNodeType.to_string(),
            GraphError::NodeNotFound { node_type, name } => {
                let mut text = String::from_str(node_type_str(*node_type));
                text.append(" node '");
                text.append(name.as_str());
                text.append("' not found in graph");
                text
            },
            GraphError::ConnectionAlreadyExists {
                msg_type,
                msg_name,
                src_type,
                src_name,
                dest_type,
                dest_name,
            } => {
                let mut text = String::from_str("Connection already exists: src: ");
                text.append(node_type_str(*src_type));
                text.append(" '");
                text.append(src_name.as_str());
                text.append("', msg_type: ");
                text.append(msg_type_str(*msg_type));
                text.append(", msg_name: ");
                text.append(msg_name.as_str());
                text.append(", dest: ");
                text.append(node_type_str(*dest_type));
                text.append(" '");
                text.append(dest_name.as_str());
                text.append("'");
                text
            },
            GraphError::SchemaMismatch { reason } => reason.clone(),
            GraphError::EmptyMessageName => String::from_str("Message name is empty"),
            GraphError::Invalid { error } => error.to_string(),
        }
    }
}

/// The view of the outcome of a check or an edit.
pub open spec fn edited(r: Result<(), GraphError>) -> Result<(), GraphErrorView> {
    match r {
        Ok(_) => Ok(()),
        Err(e) => Err(e@),
    }
}

} // verus!
