//! The small enumerations that classify nodes and messages.

use vstd::prelude::*;

verus! {

/// The kind of a graph participant.
#[derive(Clone, Copy, Debug, PartialEq, Eq, Structural)]
pub enum GraphNodeType {
    Extension,
    Subgraph,
    Selector,
}

/// The kind of a message channel.
#[derive(Clone, Copy, Debug, PartialEq, Eq, Structural)]
pub enum MsgType {
    Cmd,
    Data,
    AudioFrame,
    VideoFrame,
}

/// The direction in which a message crosses a graph's boundary.
#[derive(Clone, Copy, Debug, PartialEq, Eq, Structural)]
pub enum MsgDirection {
    In,
    Out,
}

/// The kind and direction of an exposed message.
#[derive(Clone, Copy, Debug, PartialEq, Eq, Structural)]
pub enum GraphExposedMessageType {
    CmdIn,
    CmdOut,
    DataIn,
    DataOut,
    AudioFrameIn,
    AudioFrameOut,
    VideoFrameIn,
    VideoFrameOut,
}

/// How the nodes of a graph declare the application that hosts them.
#[derive(Clone, Copy, Debug, PartialEq, Eq, Structural)]
pub enum AppUriDeclarationState {
    /// No node declares an application: the graph lives in one implicit
    /// deployment.
    NoneDeclared,
    /// Every node declares an application.
    UniformDeclared,
    /// Some nodes declare an application and some do not. Such a graph is
    /// invalid.
    MixedDeclared,
}

impl AppUriDeclarationState {
    /// Whether the graph lives in a single, implicit deployment.
    pub open spec fn single_app(&self) -> bool {
        *self == AppUriDeclarationState::NoneDeclared
    }

    /// Whether the graph lives in a single, implicit deployment, in which no
    /// location names an application.
    #[verifier::when_used_as_spec(single_app)]
    pub fn is_single_app_graph(&self) -> (r: bool)
        ensures
            r == self.single_app(),
    {
        match self {
            AppUriDeclarationState::NoneDeclared => true,
            _ => false,
        }
    }
}

/// How a kind of message is written.
pub open spec fn msg_type_text(kind: MsgType) -> Seq<char> {
    match kind {
        MsgType::Cmd => "cmd"@,
        MsgType::Data => "data"@,
        MsgType::AudioFrame => "audio_frame"@,
        MsgType::VideoFrame => "video_frame"@,
    }
}

/// How a kind of node is written.
pub open spec fn node_type_text(t: GraphNodeType) -> Seq<char> {
    match t {
        GraphNodeType::Extension => "extension"@,
        GraphNodeType::Subgraph => "subgraph"@,
        GraphNodeType::Selector => "selector"@,
    }
}

/// How an exposed-message category is written.
pub open spec fn exposed_type_text(t: GraphExposedMessageType) -> Seq<char> {
    match t {
        GraphExposedMessageType::CmdIn => "cmd_in"@,
        GraphExposedMessageType::CmdOut => "cmd_out"@,
        GraphExposedMessageType::DataIn => "data_in"@,
        GraphExposedMessageType::DataOut => "data_out"@,
        GraphExposedMessageType::AudioFrameIn => "audio_frame_in"@,
        GraphExposedMessageType::AudioFrameOut => "audio_frame_out"@,
        GraphExposedMessageType::VideoFrameIn => "video_frame_in"@,
        GraphExposedMessageType::VideoFrameOut => "video_frame_out"@,
    }
}

/// Writes a kind of message.
pub fn msg_type_str(kind: MsgType) -> (r: &'static str)
    ensures
        r@ == msg_type_text(kind),
{
    match kind {
        MsgType::Cmd => "cmd",
        MsgType::Data => "data",
        MsgType::AudioFrame => "audio_frame",
        MsgType::VideoFrame => "video_frame",
    }
}

/// Writes a kind of node.
pub fn node_type_str(t: GraphNodeType) -> (r: &'static str)
    ensures
        r@ == node_type_text(t),
{
    match t {
        GraphNodeType::Extension => "extension",
        GraphNodeType::Subgraph => "subgraph",
        GraphNodeType::Selector => "selector",
    }
}

/// Writes an exposed-message category.
pub fn exposed_type_str(t: GraphExposedMessageType) -> (r: &'static str)
    ensures
        r@ == exposed_type_text(t),
{
    match t {
        GraphExposedMessageType::CmdIn => "cmd_in",
        GraphExposedMessageType::CmdOut => "cmd_out",
        GraphExposedMessageType::DataIn => "data_in",
        GraphExposedMessageType::DataOut => "data_out",
        GraphExposedMessageType::AudioFrameIn => "audio_frame_in",
        GraphExposedMessageType::AudioFrameOut => "audio_frame_out",
        GraphExposedMessageType::VideoFrameIn => "video_frame_in",
        GraphExposedMessageType::VideoFrameOut => "video_frame_out",
    }
}

/// The exposed-message category of a message kind and a direction.
pub open spec fn exposed_type_of(
    msg_type: MsgType,
    direction: MsgDirection,
) -> GraphExposedMessageType {
    match (msg_type, direction) {
        (MsgType::Cmd, MsgDirection::In) => GraphExposedMessageType::CmdIn,
        (MsgType::Cmd, MsgDirection::Out) => GraphExposedMessageType::CmdOut,
        (MsgType::Data, MsgDirection::In) => GraphExposedMessageType::DataIn,
        (MsgType::Data, MsgDirection::Out) => GraphExposedMessageType::DataOut,
        (MsgType::AudioFrame, MsgDirection::In) => GraphExposedMessageType::AudioFrameIn,
        (MsgType::AudioFrame, MsgDirection::Out) => GraphExposedMessageType::AudioFrameOut,
        (MsgType::VideoFrame, MsgDirection::In) => GraphExposedMessageType::VideoFrameIn,
        (MsgType::VideoFrame, MsgDirection::Out) => GraphExposedMessageType::VideoFrameOut,
    }
}

/// Maps a message kind and a direction to one of the eight exposed-message
/// categories.
pub fn exposed_message_type(msg_type: MsgType, direction: MsgDirection) -> (r:
    GraphExposedMessageType)
    ensures
        r == exposed_type_of(msg_type, direction),
{
    match direction {
        MsgDirection::Out => match msg_type {
            MsgType::Cmd => GraphExposedMessageType::CmdOut,
            MsgType::Data => GraphExposedMessageType::DataOut,
            MsgType::AudioFrame => GraphExposedMessageType::AudioFrameOut,
            MsgType::VideoFrame => GraphExposedMessageType::VideoFrameOut,
        },
        MsgDirection::In => match msg_type {
            MsgType::Cmd => GraphExposedMessageType::CmdIn,
            MsgType::Data => GraphExposedMessageType::DataIn,
            MsgType::AudioFrame => GraphExposedMessageType::AudioFrameIn,
            MsgType::VideoFrame => GraphExposedMessageType::VideoFrameIn,
        },
    }
}

/// The message kind of an exposed-message category.
pub open spec fn kind_of_exposed(t: GraphExposedMessageType) -> MsgType {
    match t {
        GraphExposedMessageType::CmdIn | GraphExposedMessageType::CmdOut => MsgType::Cmd,
        GraphExposedMessageType::DataIn | GraphExposedMessageType::DataOut => MsgType::Data,
        GraphExposedMessageType::AudioFrameIn | GraphExposedMessageType::AudioFrameOut => {
            MsgType::AudioFrame
        },
        GraphExposedMessageType::VideoFrameIn | GraphExposedMessageType::VideoFrameOut => {
            MsgType::VideoFrame
        },
    }
}

/// The direction of an exposed-message category.
pub open spec fn direction_of_exposed(t: GraphExposedMessageType) -> MsgDirection {
    match t {
        GraphExposedMessageType::CmdIn
        | GraphExposedMessageType::DataIn
        | GraphExposedMessageType::AudioFrameIn
        | GraphExposedMessageType::VideoFrameIn => MsgDirection::In,
        _ => MsgDirection::Out,
    }
}

impl GraphExposedMessageType {
    /// The message kind of this category.
    pub fn msg_type(&self) -> (r: MsgType)
        ensures
            r == kind_of_exposed(*self),
    {
        match self {
            GraphExposedMessageType::CmdIn | GraphExposedMessageType::CmdOut => MsgType::Cmd,
            GraphExposedMessageType::DataIn | GraphExposedMessageType::DataOut => MsgType::Data,
            GraphExposedMessageType::AudioFrameIn | GraphExposedMessageType::AudioFrameOut => {
                MsgType::AudioFrame
            },
            GraphExposedMessageType::VideoFrameIn | GraphExposedMessageType::VideoFrameOut => {
                MsgType::VideoFrame
            },
        }
    }

    /// The direction of this category.
    pub fn direction(&self) -> (r: MsgDirection)
        ensures
            r == direction_of_exposed(*self),
    {
        match self {
            GraphExposedMessageType::CmdIn
            | GraphExposedMessageType::DataIn
            | GraphExposedMessageType::AudioFrameIn
            | GraphExposedMessageType::VideoFrameIn => MsgDirection::In,
            _ => MsgDirection::Out,
        }
    }
}

} // verus!
