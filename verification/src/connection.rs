//! Locations, destinations, message flows and connections.

use vstd::prelude::*;
use crate::conversion::{
    clone_opt_rule, opt_rule_checked, opt_rule_view, MsgAndResultConversion,
    MsgAndResultConversionView,
};
use crate::error::{ConnectionError, DestError, FlowError, LocError};
use crate::kinds::{node_type_str, node_type_text, AppUriDeclarationState, GraphNodeType, MsgType};
use crate::text::{opt_str_eq, opt_text, str_eq, texts};

verus! {

/// A copy of an optional string.
pub fn clone_opt_string(o: &Option<String>) -> (r: Option<String>)
    ensures
        opt_text(r) == opt_text(*o),
{
    match o {
        Some(s) => Some(s.clone()),
        None => None,
    }
}

/// A copy of a list of strings.
pub fn clone_strings(v: &Vec<String>) -> (r: Vec<String>)
    ensures
        texts(r@) == texts(v@),
{
    let mut out: Vec<String> = Vec::new();
    let mut i: usize = 0;
    while i < v.len()
        invariant
            i <= v.len(),
            out@.len() == i,
            forall|j: int| 0 <= j < i ==> out@[j]@ == v@[j]@,
        decreases v.len() - i,
    {
        out.push(v[i].clone());
        i += 1;
    }
    assert(texts(out@) =~= texts(v@));
    out
}

/// The view of an optional list of strings.
pub open spec fn opt_texts(o: Option<Vec<String>>) -> Option<Seq<Seq<char>>> {
    match o {
        Some(v) => Some(texts(v@)),
        None => None,
    }
}

/// Whether an application is left out when a location is written: it is
/// when none is named, and when the name is `localhost`, the name of the
/// undeclared application.
pub open spec fn app_is_default(app: Option<Seq<char>>) -> bool {
    match app {
        Some(uri) => uri == "localhost"@,
        None => true,
    }
}

/// Tests whether an application is left out when a location is written.
pub fn is_app_default_loc_or_none(app: &Option<String>) -> (r: bool)
    ensures
        r == app_is_default(opt_text(*app)),
{
    match app {
        Some(uri) => str_eq(uri.as_str(), "localhost"),
        None => true,
    }
}

/// Identifies a participant of a graph: an extension, a subgraph or a
/// selector, and for an extension optionally the application that hosts it.
#[derive(Debug, PartialEq, Eq, Hash)]
pub struct GraphLoc {
    pub app: Option<String>,
    pub extension: Option<String>,
    pub subgraph: Option<String>,
    pub selector: Option<String>,
}

/// The mathematical view of [`GraphLoc`].
pub struct LocView {
    pub app: Option<Seq<char>>,
    pub extension: Option<Seq<char>>,
    pub subgraph: Option<Seq<char>>,
    pub selector: Option<Seq<char>>,
}

impl View for GraphLoc {
    type V = LocView;

    open spec fn view(&self) -> LocView {
        LocView {
            app: opt_text(self.app),
            extension: opt_text(self.extension),
            subgraph: opt_text(self.subgraph),
            selector: opt_text(self.selector),
        }
    }
}

impl LocView {
    /// The location that names nothing.
    pub open spec fn empty() -> LocView {
        LocView { app: None, extension: None, subgraph: None, selector: None }
    }

    /// The location of the node `name` of kind `node_type`, hosted by `app`.
    pub open spec fn of(app: Option<Seq<char>>, node_type: GraphNodeType, name: Seq<char>) -> LocView {
        match node_type {
            GraphNodeType::Extension => LocView {
                app,
                extension: Some(name),
                subgraph: None,
                selector: None,
            },
            GraphNodeType::Subgraph => LocView {
                app,
                extension: None,
                subgraph: Some(name),
                selector: None,
            },
            GraphNodeType::Selector => LocView {
                app,
                extension: None,
                subgraph: None,
                selector: Some(name),
            },
        }
    }

    /// The kind of node that the location names: the first of extension,
    /// subgraph and selector that is set.
    pub open spec fn node_type(self) -> Option<GraphNodeType> {
        if self.extension is Some {
            Some(GraphNodeType::Extension)
        } else if self.subgraph is Some {
            Some(GraphNodeType::Subgraph)
        } else if self.selector is Some {
            Some(GraphNodeType::Selector)
        } else {
            None
        }
    }

    /// The name of the node that the location names.
    pub open spec fn node_name(self) -> Option<Seq<char>> {
        if self.extension is Some {
            self.extension
        } else if self.subgraph is Some {
            self.subgraph
        } else {
            self.selector
        }
    }

    /// How many of extension, subgraph and selector are set.
    pub open spec fn discriminants(self) -> nat {
        (if self.extension is Some { 1nat } else { 0nat })
            + (if self.subgraph is Some { 1nat } else { 0nat })
            + (if self.selector is Some { 1nat } else { 0nat })
    }

    /// Whether exactly one of extension, subgraph and selector is set.
    pub open spec fn well_formed(self) -> bool {
        self.discriminants() == 1
    }

    /// The verdict on the location's application field in a graph whose
    /// nodes declare applications as `state` says.
    ///
    /// Subgraphs and selectors carry no application. An extension may never
    /// name `localhost`; it must name an application if the nodes do, and
    /// may not if they do not.
    pub open spec fn app_field_checked(self, state: AppUriDeclarationState) -> Result<(), LocError> {
        if self.selector is Some || self.subgraph is Some {
            Ok(())
        } else {
            match self.app {
                Some(app) => if app == "localhost"@ {
                    Err(LocError::LocalhostForbidden { single_app: state.single_app() })
                } else if state == AppUriDeclarationState::NoneDeclared {
                    Err(LocError::AppUriShouldNotBeDeclared { single_app: state.single_app() })
                } else {
                    Ok(())
                },
                None => if state != AppUriDeclarationState::NoneDeclared {
                    Err(LocError::AppUriShouldBeDeclared { single_app: state.single_app() })
                } else {
                    Ok(())
                },
            }
        }
    }
}

impl Clone for GraphLoc {
    fn clone(&self) -> (r: Self)
        ensures
            r@ == self@,
    {
        GraphLoc {
            app: clone_opt_string(&self.app),
            extension: clone_opt_string(&self.extension),
            subgraph: clone_opt_string(&self.subgraph),
            selector: clone_opt_string(&self.selector),
        }
    }
}

impl Default for GraphLoc {
    fn default() -> (r: Self)
        ensures
            r@ == LocView::empty(),
    {
        GraphLoc::new()
    }
}

impl GraphLoc {
    /// The location that names nothing.
    pub fn new() -> (r: Self)
        ensures
            r@ == LocView::empty(),
    {
        GraphLoc { app: None, extension: None, subgraph: None, selector: None }
    }

    /// The location of the node `node_name` of kind `node_type`, hosted by
    /// `app`. This never fails.
    pub fn with_app_and_type_and_name(
        app: Option<String>,
        node_type: GraphNodeType,
        node_name: String,
    ) -> (r: Result<Self, LocError>)
        ensures
            r matches Ok(loc) && loc@ == LocView::of(opt_text(app), node_type, node_name@),
    {
        match node_type {
            GraphNodeType::Extension => Ok(
                GraphLoc { app, extension: Some(node_name), subgraph: None, selector: None },
            ),
            GraphNodeType::Subgraph => Ok(
                GraphLoc { app, extension: None, subgraph: Some(node_name), selector: None },
            ),
            GraphNodeType::Selector => Ok(
                GraphLoc { app, extension: None, subgraph: None, selector: Some(node_name) },
            ),
        }
    }

    /// The kind of node that the location names; fails if it names none.
    pub fn get_node_type(&self) -> (r: Result<GraphNodeType, LocError>)
        ensures
            (match self@.node_type() {
                Some(t) => r == Ok::<GraphNodeType, LocError>(t),
                None => r == Err::<GraphNodeType, LocError>(LocError::UnknownNodeType),
            }),
    {
        if self.extension.is_some() {
            Ok(GraphNodeType::Extension)
        } else if self.subgraph.is_some() {
            Ok(GraphNodeType::Subgraph)
        } else if self.selector.is_some() {
            Ok(GraphNodeType::Selector)
        } else {
            Err(LocError::UnknownNodeType)
        }
    }

    /// The written name of the kind of node that the location names; fails
    /// if it names none.
    pub fn get_node_type_str(&self) -> (r: Result<&'static str, LocError>)
        ensures
            (match self@.node_type() {
                Some(t) => r matches Ok(s) && s@ == node_type_text(t),
                None => r matches Err(e) && e == LocError::UnknownNodeType,
            }),
    {
        match self.get_node_type() {
            Ok(t) => Ok(node_type_str(t)),
            Err(e) => Err(e),
        }
    }

    /// The name of the node that the location names; fails if it names none.
    pub fn get_node_name(&self) -> (r: Result<&String, LocError>)
        ensures
            (match self@.node_name() {
                Some(name) => r matches Ok(s) && s@ == name,
                None => r matches Err(e) && e == LocError::UnknownNodeType,
            }),
    {
        match &self.extension {
            Some(name) => Ok(name),
            None => match &self.subgraph {
                Some(name) => Ok(name),
                None => match &self.selector {
                    Some(name) => Ok(name),
                    None => Err(LocError::UnknownNodeType),
                },
            },
        }
    }

    /// The application that hosts the node, if one is named.
    pub fn get_app_uri(&self) -> (r: &Option<String>)
        ensures
            opt_text(*r) == self@.app,
    {
        &self.app
    }

    /// Whether two locations are equal: all four fields must agree.
    pub fn matches(&self, other: &GraphLoc) -> (r: bool)
        ensures
            r == (self@ == other@),
    {
        opt_str_eq(&self.app, &other.app) && opt_str_eq(&self.extension, &other.extension)
            && opt_str_eq(&self.subgraph, &other.subgraph) && opt_str_eq(
            &self.selector,
            &other.selector,
        )
    }

    /// Checks that exactly one of extension, subgraph and selector is set.
    pub fn validate_node_type(&self) -> (r: Result<(), LocError>)
        ensures
            (r == if self@.well_formed() {
                Ok::<(), LocError>(())
            } else {
                Err::<(), LocError>(LocError::UnknownNodeType)
            }),
    {
        let mut count: u8 = 0;
        if self.extension.is_some() {
            count += 1;
        }
        if self.subgraph.is_some() {
            count += 1;
        }
        if self.selector.is_some() {
            count += 1;
        }
        if count == 1 {
            Ok(())
        } else {
            Err(LocError::UnknownNodeType)
        }
    }

    /// Checks the application field against the way the graph's nodes
    /// declare applications.
    pub fn validate_app_field(&self, app_uri_declaration_state: &AppUriDeclarationState) -> (r:
        Result<(), LocError>)
        ensures
            r == self@.app_field_checked(*app_uri_declaration_state),
    {
        if self.selector.is_some() || self.subgraph.is_some() {
            return Ok(());
        }
        let single_app = app_uri_declaration_state.is_single_app_graph();
        match &self.app {
            Some(app) => {
                if str_eq(app.as_str(), "localhost") {
                    Err(LocError::LocalhostForbidden { single_app })
                } else if single_app {
                    Err(LocError::AppUriShouldNotBeDeclared { single_app })
                } else {
                    Ok(())
                }
            },
            None => {
                if !single_app {
                    Err(LocError::AppUriShouldBeDeclared { single_app })
                } else {
                    Ok(())
                }
            },
        }
    }
}

/// A destination of a message flow: a location and optionally a rule that
/// converts the message and its result on the way.
#[derive(Debug, PartialEq, Eq)]
pub struct GraphDestination {
    pub loc: GraphLoc,
    pub msg_conversion: Option<MsgAndResultConversion>,
}

/// The mathematical view of [`GraphDestination`].
pub struct DestView {
    pub loc: LocView,
    pub msg_conversion: Option<MsgAndResultConversionView>,
}

impl DestView {
    /// The verdict on a destination: that on the application field of its
    /// location, then that on its conversion rule, if it has one.
    pub open spec fn checked(self, state: AppUriDeclarationState) -> Result<(), DestError> {
        match self.loc.app_field_checked(state) {
            Err(cause) => Err(DestError::Loc { cause }),
            Ok(_) => match opt_rule_checked(self.msg_conversion) {
                Err(error) => Err(DestError::Conversion { error }),
                Ok(_) => Ok(()),
            },
        }
    }
}

impl View for GraphDestination {
    type V = DestView;

    open spec fn view(&self) -> DestView {
        DestView { loc: self.loc@, msg_conversion: opt_rule_view(self.msg_conversion) }
    }
}

/// The views of a sequence of destinations.
pub open spec fn dest_views(v: Seq<GraphDestination>) -> Seq<DestView> {
    Seq::new(v.len(), |i: int| v[i]@)
}

impl Clone for GraphDestination {
    fn clone(&self) -> (r: Self)
        ensures
            r@ == self@,
    {
        GraphDestination {
            loc: self.loc.clone(),
            msg_conversion: clone_opt_rule(&self.msg_conversion),
        }
    }
}

impl GraphDestination {
    /// The destination at the node `node_name` of kind `node_type`, hosted
    /// by `app`, without a conversion rule. This never fails.
    pub fn new(app: Option<String>, node_type: GraphNodeType, node_name: String) -> (r: Result<
        Self,
        LocError,
    >)
        ensures
            r matches Ok(d) && d@ == (DestView {
                loc: LocView::of(opt_text(app), node_type, node_name@),
                msg_conversion: None,
            }),
    {
        match GraphLoc::with_app_and_type_and_name(app, node_type, node_name) {
            Ok(loc) => Ok(GraphDestination { loc, msg_conversion: None }),
            Err(e) => Err(e),
        }
    }

    /// The verdict on this destination: that on the application field of
    /// its location, then that on its conversion rule, if it has one.
    pub fn check(&self, app_uri_declaration_state: &AppUriDeclarationState) -> (r: Result<
        (),
        DestError,
    >)
        ensures
            r == self@.checked(*app_uri_declaration_state),
    {
        match self.loc.validate_app_field(app_uri_declaration_state) {
            Err(cause) => { return Err(DestError::Loc { cause }); },
            Ok(_) => {},
        }
        match &self.msg_conversion {
            Some(rule) => match rule.validate() {
                Err(error) => Err(DestError::Conversion { error }),
                Ok(_) => Ok(()),
            },
            None => Ok(()),
        }
    }

    /// Checks the destination: its location against the way the graph's
    /// nodes declare applications, then its conversion rule. The destination
    /// is left as it is.
    pub fn validate_and_complete(
        &mut self,
        app_uri_declaration_state: &AppUriDeclarationState,
    ) -> (r: Result<(), DestError>)
        ensures
            r == old(self)@.checked(*app_uri_declaration_state),
            *final(self) == *old(self),
    {
        self.check(app_uri_declaration_state)
    }

    /// The application that hosts the destination, if one is named.
    pub fn get_app_uri(&self) -> (r: &Option<String>)
        ensures
            opt_text(*r) == self@.loc.app,
    {
        self.loc.get_app_uri()
    }
}

/// A source of a message flow: the location that a message is received from.
#[derive(Debug, PartialEq, Eq)]
pub struct GraphSource {
    pub loc: GraphLoc,
}

/// The mathematical view of [`GraphSource`].
pub struct SourceView {
    pub loc: LocView,
}

impl View for GraphSource {
    type V = SourceView;

    open spec fn view(&self) -> SourceView {
        SourceView { loc: self.loc@ }
    }
}

/// The views of a sequence of sources.
pub open spec fn source_views(v: Seq<GraphSource>) -> Seq<SourceView> {
    Seq::new(v.len(), |i: int| v[i]@)
}

impl Clone for GraphSource {
    fn clone(&self) -> (r: Self)
        ensures
            r@ == self@,
    {
        GraphSource { loc: self.loc.clone() }
    }
}

/// A copy of a list of destinations.
pub fn clone_dests(v: &Vec<GraphDestination>) -> (r: Vec<GraphDestination>)
    ensures
        dest_views(r@) == dest_views(v@),
{
    let mut out: Vec<GraphDestination> = Vec::new();
    let mut i: usize = 0;
    while i < v.len()
        invariant
            i <= v.len(),
            out@.len() == i,
            forall|j: int| 0 <= j < i ==> out@[j]@ == v@[j]@,
        decreases v.len() - i,
    {
        out.push(v[i].clone());
        i += 1;
    }
    assert(dest_views(out@) =~= dest_views(v@));
    out
}

/// A copy of a list of sources.
pub fn clone_sources(v: &Vec<GraphSource>) -> (r: Vec<GraphSource>)
    ensures
        source_views(r@) == source_views(v@),
{
    let mut out: Vec<GraphSource> = Vec::new();
    let mut i: usize = 0;
    while i < v.len()
        invariant
            i <= v.len(),
            out@.len() == i,
            forall|j: int| 0 <= j < i ==> out@[j]@ == v@[j]@,
        decreases v.len() - i,
    {
        out.push(v[i].clone());
        i += 1;
    }
    assert(source_views(out@) =~= source_views(v@));
    out
}

/// Messages of one kind, under one name or a list of names, with the
/// destinations they are sent to and the sources they are received from.
#[derive(Debug, PartialEq, Eq)]
pub struct GraphMessageFlow {
    pub name: Option<String>,
    pub names: Option<Vec<String>>,
    pub dest: Vec<GraphDestination>,
    pub source: Vec<GraphSource>,
}

/// The mathematical view of [`GraphMessageFlow`].
pub struct FlowView {
    pub name: Option<Seq<char>>,
    pub names: Option<Seq<Seq<char>>>,
    pub dest: Seq<DestView>,
    pub source: Seq<SourceView>,
}

impl View for GraphMessageFlow {
    type V = FlowView;

    open spec fn view(&self) -> FlowView {
        FlowView {
            name: opt_text(self.name),
            names: opt_texts(self.names),
            dest: dest_views(self.dest@),
            source: source_views(self.source@),
        }
    }
}

/// The views of a sequence of flows.
pub open spec fn flow_views(v: Seq<GraphMessageFlow>) -> Seq<FlowView> {
    Seq::new(v.len(), |i: int| v[i]@)
}

/// The view of an optional list of flows.
pub open spec fn opt_flow_views(o: Option<Vec<GraphMessageFlow>>) -> Option<Seq<FlowView>> {
    match o {
        Some(v) => Some(flow_views(v@)),
        None => None,
    }
}

/// The verdict on the destinations from index `from` on: the first failure
/// in order, with its index.
pub open spec fn dests_checked(
    dests: Seq<DestView>,
    state: AppUriDeclarationState,
    from: nat,
) -> Result<(), FlowError>
    decreases dests.len() - from,
{
    if from >= dests.len() {
        Ok(())
    } else {
        match dests[from as int].checked(state) {
            Err(error) => Err(FlowError::Dest { index: from as usize, error }),
            Ok(_) => dests_checked(dests, state, from + 1),
        }
    }
}

impl FlowView {
    /// The verdict on the flow's naming: exactly one of a single name and a
    /// list of names must be given, and a list must not be empty.
    pub open spec fn names_checked(self) -> Result<(), FlowError> {
        match (self.name, self.names) {
            (Some(_), Some(_)) => Err(FlowError::BothNameAndNames),
            (None, None) => Err(FlowError::NeitherNameNorNames),
            (None, Some(names)) => if names.len() == 0 {
                Err(FlowError::EmptyNames)
            } else {
                Ok(())
            },
            (Some(_), None) => Ok(()),
        }
    }

    /// The verdict on the flow: that on its naming, then the first failure
    /// among its destinations.
    pub open spec fn checked(self, state: AppUriDeclarationState) -> Result<(), FlowError> {
        match self.names_checked() {
            Err(e) => Err(e),
            Ok(_) => dests_checked(self.dest, state, 0),
        }
    }
}

impl Clone for GraphMessageFlow {
    fn clone(&self) -> (r: Self)
        ensures
            r@ == self@,
    {
        let names = match &self.names {
            Some(v) => Some(clone_strings(v)),
            None => None,
        };
        GraphMessageFlow {
            name: clone_opt_string(&self.name),
            names,
            dest: clone_dests(&self.dest),
            source: clone_sources(&self.source),
        }
    }
}

impl GraphMessageFlow {
    /// A flow with the given fields.
    pub fn new(
        name: Option<String>,
        names: Option<Vec<String>>,
        dest: Vec<GraphDestination>,
        source: Vec<GraphSource>,
    ) -> (r: Self)
        ensures
            r.name == name,
            r.names == names,
            r.dest == dest,
            r.source == source,
    {
        GraphMessageFlow { name, names, dest, source }
    }

    /// Checks that exactly one of `name` and `names` is given, and that
    /// `names`, if given, is not empty.
    pub fn validate_name_mutual_exclusivity(&self) -> (r: Result<(), FlowError>)
        ensures
            r == self@.names_checked(),
    {
        match (&self.name, &self.names) {
            (Some(_), Some(_)) => Err(FlowError::BothNameAndNames),
            (None, None) => Err(FlowError::NeitherNameNorNames),
            (None, Some(names)) => {
                if names.len() == 0 {
                    Err(FlowError::EmptyNames)
                } else {
                    Ok(())
                }
            },
            (Some(_), None) => Ok(()),
        }
    }

    /// The verdict on the flow: its naming is checked first, then each
    /// destination in order; the first failure is returned.
    pub fn check(&self, app_uri_declaration_state: &AppUriDeclarationState) -> (r: Result<
        (),
        FlowError,
    >)
        ensures
            r == self@.checked(*app_uri_declaration_state),
    {
        match self.validate_name_mutual_exclusivity() {
            Err(e) => { return Err(e); },
            Ok(_) => {},
        }
        let ghost dests = dest_views(self.dest@);
        let mut i: usize = 0;
        while i < self.dest.len()
            invariant
                i <= self.dest.len(),
                dests == dest_views(self.dest@),
                self@.names_checked() is Ok,
                dests_checked(dests, *app_uri_declaration_state, 0) == dests_checked(
                    dests,
                    *app_uri_declaration_state,
                    i as nat,
                ),
            decreases self.dest.len() - i,
        {
            assert(dests[i as int] == self.dest@[i as int]@);
            match self.dest[i].check(app_uri_declaration_state) {
                Err(error) => { return Err(FlowError::Dest { index: i, error }); },
                Ok(_) => {},
            }
            i += 1;
        }
        Ok(())
    }

    /// Checks the flow: its naming, then each destination in order, by its
    /// location and its conversion rule. The flow is left as it is.
    pub fn validate_and_complete(
        &mut self,
        app_uri_declaration_state: &AppUriDeclarationState,
    ) -> (r: Result<(), FlowError>)
        ensures
            r == old(self)@.checked(*app_uri_declaration_state),
            *final(self) == *old(self),
    {
        self.check(app_uri_declaration_state)
    }
}

/// A copy of a list of flows.
pub fn clone_flows(v: &Vec<GraphMessageFlow>) -> (r: Vec<GraphMessageFlow>)
    ensures
        flow_views(r@) == flow_views(v@),
{
    let mut out: Vec<GraphMessageFlow> = Vec::new();
    let mut i: usize = 0;
    while i < v.len()
        invariant
            i <= v.len(),
            out@.len() == i,
            forall|j: int| 0 <= j < i ==> out@[j]@ == v@[j]@,
        decreases v.len() - i,
    {
        out.push(v[i].clone());
        i += 1;
    }
    assert(flow_views(out@) =~= flow_views(v@));
    out
}

/// A copy of an optional list of flows.
pub fn clone_opt_flows(o: &Option<Vec<GraphMessageFlow>>) -> (r: Option<Vec<GraphMessageFlow>>)
    ensures
        opt_flow_views(r) == opt_flow_views(*o),
{
    match o {
        Some(v) => Some(clone_flows(v)),
        None => None,
    }
}

/// The flows that leave one source location, by message kind.
#[derive(Debug, PartialEq, Eq)]
pub struct GraphConnection {
    pub loc: GraphLoc,
    pub cmd: Option<Vec<GraphMessageFlow>>,
    pub data: Option<Vec<GraphMessageFlow>>,
    pub audio_frame: Option<Vec<GraphMessageFlow>>,
    pub video_frame: Option<Vec<GraphMessageFlow>>,
}

/// The mathematical view of [`GraphConnection`].
pub struct ConnectionView {
    pub loc: LocView,
    pub cmd: Option<Seq<FlowView>>,
    pub data: Option<Seq<FlowView>>,
    pub audio_frame: Option<Seq<FlowView>>,
    pub video_frame: Option<Seq<FlowView>>,
}

impl View for GraphConnection {
    type V = ConnectionView;

    open spec fn view(&self) -> ConnectionView {
        ConnectionView {
            loc: self.loc@,
            cmd: opt_flow_views(self.cmd),
            data: opt_flow_views(self.data),
            audio_frame: opt_flow_views(self.audio_frame),
            video_frame: opt_flow_views(self.video_frame),
        }
    }
}

/// The views of a sequence of connections.
pub open spec fn connection_views(v: Seq<GraphConnection>) -> Seq<ConnectionView> {
    Seq::new(v.len(), |i: int| v[i]@)
}

/// The verdict on the flows of kind `kind` from index `from` on: the first
/// failure in order, with kind and index.
pub open spec fn flows_checked(
    flows: Seq<FlowView>,
    state: AppUriDeclarationState,
    kind: MsgType,
    from: nat,
) -> Result<(), ConnectionError>
    decreases flows.len() - from,
{
    if from >= flows.len() {
        Ok(())
    } else {
        match flows[from as int].checked(state) {
            Err(error) => Err(ConnectionError::Flow { kind, index: from as usize, error }),
            Ok(_) => flows_checked(flows, state, kind, from + 1),
        }
    }
}

/// The flows of an optional list; an absent list holds none.
pub open spec fn flows_or_empty(o: Option<Seq<FlowView>>) -> Seq<FlowView> {
    match o {
        Some(f) => f,
        None => Seq::empty(),
    }
}

/// The verdict on an optional list of flows; an absent list is in order.
pub open spec fn opt_flows_checked(
    flows: Option<Seq<FlowView>>,
    state: AppUriDeclarationState,
    kind: MsgType,
) -> Result<(), ConnectionError> {
    match flows {
        Some(f) => flows_checked(f, state, kind, 0),
        None => Ok(()),
    }
}

impl ConnectionView {
    /// The connection from `loc` without any flow.
    pub open spec fn bare(loc: LocView) -> ConnectionView {
        ConnectionView { loc, cmd: None, data: None, audio_frame: None, video_frame: None }
    }

    /// The flows of one kind.
    pub open spec fn flows(self, kind: MsgType) -> Option<Seq<FlowView>> {
        match kind {
            MsgType::Cmd => self.cmd,
            MsgType::Data => self.data,
            MsgType::AudioFrame => self.audio_frame,
            MsgType::VideoFrame => self.video_frame,
        }
    }

    /// The connection with the flows of one kind replaced.
    pub open spec fn with_flows(self, kind: MsgType, flows: Option<Seq<FlowView>>) -> ConnectionView {
        match kind {
            MsgType::Cmd => ConnectionView { cmd: flows, ..self },
            MsgType::Data => ConnectionView { data: flows, ..self },
            MsgType::AudioFrame => ConnectionView { audio_frame: flows, ..self },
            MsgType::VideoFrame => ConnectionView { video_frame: flows, ..self },
        }
    }

    /// The verdict on the connection: that on the application field of its
    /// source, then the first failure among the command, data, audio-frame
    /// and video-frame flows, in this order.
    pub open spec fn checked(self, state: AppUriDeclarationState) -> Result<(), ConnectionError> {
        match self.loc.app_field_checked(state) {
            Err(cause) => Err(ConnectionError::Loc { cause }),
            Ok(_) => match opt_flows_checked(self.cmd, state, MsgType::Cmd) {
                Err(e) => Err(e),
                Ok(_) => match opt_flows_checked(self.data, state, MsgType::Data) {
                    Err(e) => Err(e),
                    Ok(_) => match opt_flows_checked(
                        self.audio_frame,
                        state,
                        MsgType::AudioFrame,
                    ) {
                        Err(e) => Err(e),
                        Ok(_) => opt_flows_checked(self.video_frame, state, MsgType::VideoFrame),
                    },
                },
            },
        }
    }
}

/// Checks an optional list of flows of kind `kind` in order and returns the
/// first failure.
pub fn check_flows(
    flows: &Option<Vec<GraphMessageFlow>>,
    app_uri_declaration_state: &AppUriDeclarationState,
    kind: MsgType,
) -> (r: Result<(), ConnectionError>)
    ensures
        r == opt_flows_checked(opt_flow_views(*flows), *app_uri_declaration_state, kind),
{
    match flows {
        Some(list) => {
            let ghost views = flow_views(list@);
            let mut i: usize = 0;
            while i < list.len()
                invariant
                    i <= list.len(),
                    views == flow_views(list@),
                    opt_flow_views(*flows) == Some(views),
                    flows_checked(views, *app_uri_declaration_state, kind, 0) == flows_checked(
                        views,
                        *app_uri_declaration_state,
                        kind,
                        i as nat,
                    ),
                decreases list.len() - i,
            {
                assert(views[i as int] == list@[i as int]@);
                match list[i].check(app_uri_declaration_state) {
                    Err(error) => { return Err(ConnectionError::Flow { kind, index: i, error }); },
                    Ok(_) => {},
                }
                i += 1;
            }
            Ok(())
        },
        None => Ok(()),
    }
}

impl Clone for GraphConnection {
    fn clone(&self) -> (r: Self)
        ensures
            r@ == self@,
    {
        GraphConnection {
            loc: self.loc.clone(),
            cmd: clone_opt_flows(&self.cmd),
            data: clone_opt_flows(&self.data),
            audio_frame: clone_opt_flows(&self.audio_frame),
            video_frame: clone_opt_flows(&self.video_frame),
        }
    }
}

impl GraphConnection {
    /// The connection from `loc` without any flow.
    pub fn new(loc: GraphLoc) -> (r: Self)
        ensures
            r@ == ConnectionView::bare(loc@),
            r.loc == loc,
    {
        GraphConnection { loc, cmd: None, data: None, audio_frame: None, video_frame: None }
    }

    /// The flows of one kind.
    pub fn flows(&self, kind: MsgType) -> (r: &Option<Vec<GraphMessageFlow>>)
        ensures
            opt_flow_views(*r) == self@.flows(kind),
    {
        match kind {
            MsgType::Cmd => &self.cmd,
            MsgType::Data => &self.data,
            MsgType::AudioFrame => &self.audio_frame,
            MsgType::VideoFrame => &self.video_frame,
        }
    }

    /// The verdict on the connection: the source's application field is
    /// checked first, then the flows of each kind in order.
    pub fn check(&self, app_uri_declaration_state: &AppUriDeclarationState) -> (r: Result<
        (),
        ConnectionError,
    >)
        ensures
            r == self@.checked(*app_uri_declaration_state),
    {
        match self.loc.validate_app_field(app_uri_declaration_state) {
            Err(cause) => { return Err(ConnectionError::Loc { cause }); },
            Ok(_) => {},
        }
        match check_flows(&self.cmd, app_uri_declaration_state, MsgType::Cmd) {
            Err(e) => { return Err(e); },
            Ok(_) => {},
        }
        match check_flows(&self.data, app_uri_declaration_state, MsgType::Data) {
            Err(e) => { return Err(e); },
            Ok(_) => {},
        }
        match check_flows(&self.audio_frame, app_uri_declaration_state, MsgType::AudioFrame) {
            Err(e) => { return Err(e); },
            Ok(_) => {},
        }
        check_flows(&self.video_frame, app_uri_declaration_state, MsgType::VideoFrame)
    }

    /// Checks the connection against the way the graph's nodes declare
    /// applications: its source, then every flow by kind, then every
    /// destination, by its location and its conversion rule, stopping at the
    /// first failure, which is returned with the kind and the indices that
    /// lead to it. The connection is left as it is.
    pub fn validate_and_complete(
        &mut self,
        app_uri_declaration_state: &AppUriDeclarationState,
    ) -> (r: Result<(), ConnectionError>)
        ensures
            r == old(self)@.checked(*app_uri_declaration_state),
            *final(self) == *old(self),
    {
        self.check(app_uri_declaration_state)
    }

    /// The application that hosts the source, if one is named.
    pub fn get_app_uri(&self) -> (r: &Option<String>)
        ensures
            opt_text(*r) == self@.loc.app,
    {
        self.loc.get_app_uri()
    }
}

/// The destinations pass exactly when each of them does: a failure is
/// reported at the first that does not, and at no other. The destinations
/// are as many as a vector can hold.
pub proof fn lemma_dests_checked(dests: Seq<DestView>, state: AppUriDeclarationState, from: nat)
    requires
        dests.len() <= usize::MAX,
    ensures
        dests_checked(dests, state, from) is Ok <==> forall|k: int|
            from <= k < dests.len() ==> (#[trigger] dests[k]).checked(state) is Ok,
        (dests_checked(dests, state, from) matches Err(FlowError::Dest { index, error }) ==> {
            &&& from <= index < dests.len()
            &&& dests[index as int].checked(state) == Err::<(), DestError>(error)
            &&& forall|k: int| from <= k < index ==> (#[trigger] dests[k]).checked(state) is Ok
        }),
        dests_checked(dests, state, from) is Err ==> dests_checked(dests, state, from)->Err_0
            is Dest,
    decreases dests.len() - from,
{
    if from < dests.len() {
        lemma_dests_checked(dests, state, from + 1);
    }
}

/// The destinations pass exactly when each of them does.
pub proof fn lemma_dests_pass(dests: Seq<DestView>, state: AppUriDeclarationState, from: nat)
    ensures
        dests_checked(dests, state, from) is Ok <==> forall|k: int|
            from <= k < dests.len() ==> (#[trigger] dests[k]).checked(state) is Ok,
    decreases dests.len() - from,
{
    if from < dests.len() {
        lemma_dests_pass(dests, state, from + 1);
    }
}

/// A flow passes exactly when its naming is in order and every one of its
/// destinations has a location that is in order and, if it has a conversion
/// rule, a valid one.
pub proof fn lemma_flow_checked(f: FlowView, state: AppUriDeclarationState)
    ensures
        (f.checked(state) is Ok <==> {
            &&& f.names_checked() is Ok
            &&& forall|k: int|
                0 <= k < f.dest.len() ==> {
                    &&& (#[trigger] f.dest[k]).loc.app_field_checked(state) is Ok
                    &&& opt_rule_checked(f.dest[k].msg_conversion) is Ok
                }
        }),
{
    lemma_dests_pass(f.dest, state, 0);
    if f.checked(state) is Ok {
        assert forall|k: int| 0 <= k < f.dest.len() implies {
            &&& (#[trigger] f.dest[k]).loc.app_field_checked(state) is Ok
            &&& opt_rule_checked(f.dest[k].msg_conversion) is Ok
        } by {
            assert(f.dest[k].checked(state) is Ok);
        }
    }
    if f.names_checked() is Ok && (forall|k: int|
        0 <= k < f.dest.len() ==> {
            &&& (#[trigger] f.dest[k]).loc.app_field_checked(state) is Ok
            &&& opt_rule_checked(f.dest[k].msg_conversion) is Ok
        }) {
        assert forall|k: int| 0 <= k < f.dest.len() implies (#[trigger] f.dest[k]).checked(state)
            is Ok by {
            assert(f.dest[k].loc.app_field_checked(state) is Ok);
        }
    }
}

/// The flows pass exactly when each of them does.
pub proof fn lemma_flows_checked(
    flows: Seq<FlowView>,
    state: AppUriDeclarationState,
    kind: MsgType,
    from: nat,
)
    ensures
        flows_checked(flows, state, kind, from) is Ok <==> forall|j: int|
            from <= j < flows.len() ==> (#[trigger] flows[j]).checked(state) is Ok,
    decreases flows.len() - from,
{
    if from < flows.len() {
        lemma_flows_checked(flows, state, kind, from + 1);
    }
}

/// A connection passes exactly when the application field of its source is
/// in order and every flow of every kind passes.
pub proof fn lemma_connection_checked(c: ConnectionView, state: AppUriDeclarationState)
    ensures
        (c.checked(state) is Ok <==> {
            &&& c.loc.app_field_checked(state) is Ok
            &&& forall|kind: MsgType, j: int|
                #![trigger c.flows(kind), flows_or_empty(c.flows(kind))[j]]
                0 <= j < flows_or_empty(c.flows(kind)).len() ==> flows_or_empty(c.flows(kind))[j].checked(
                    state,
                ) is Ok
        }),
{
    lemma_flows_checked(flows_or_empty(c.cmd), state, MsgType::Cmd, 0);
    lemma_flows_checked(flows_or_empty(c.data), state, MsgType::Data, 0);
    lemma_flows_checked(flows_or_empty(c.audio_frame), state, MsgType::AudioFrame, 0);
    lemma_flows_checked(flows_or_empty(c.video_frame), state, MsgType::VideoFrame, 0);
    assert(c.flows(MsgType::Cmd) == c.cmd);
    assert(c.flows(MsgType::Data) == c.data);
    assert(c.flows(MsgType::AudioFrame) == c.audio_frame);
    assert(c.flows(MsgType::VideoFrame) == c.video_frame);
    if c.checked(state) is Ok {
        assert forall|kind: MsgType, j: int|
            #![trigger c.flows(kind), flows_or_empty(c.flows(kind))[j]]
            0 <= j < flows_or_empty(c.flows(kind)).len() implies flows_or_empty(c.flows(kind))[j].checked(
            state,
        ) is Ok by {
            match kind {
                MsgType::Cmd => {},
                MsgType::Data => {},
                MsgType::AudioFrame => {},
                MsgType::VideoFrame => {},
            }
        }
    }
}

} // verus!
