//! Adding a connection to a graph.
//!
//! The edit is transactional: the graph is changed only when every check
//! and the validation of the resulting graph have passed.

use vstd::prelude::*;
use crate::connection::{
    connection_views, dest_views, flow_views, flows_or_empty, opt_flow_views, opt_texts,
    source_views, ConnectionView, DestView, FlowView, GraphConnection, GraphDestination, GraphLoc,
    GraphMessageFlow, LocView,
};
use crate::conversion::{opt_rule_view, MsgAndResultConversion};
use crate::error::{edited, GraphError, GraphErrorView};
use crate::graph::{check_parts, Graph, GraphView};
use crate::kinds::MsgType;
use crate::text::{opt_str_eq, texts};

verus! {

/// Whether two flows have the same naming: the same single name and the
/// same list of names. The naming is the identity of a flow among the flows
/// of one kind.
pub open spec fn same_naming(a: FlowView, b: FlowView) -> bool {
    a.name == b.name && a.names == b.names
}

/// The index, from `from` on, of the first flow with the naming of `flow`.
pub open spec fn flow_index(flows: Seq<FlowView>, flow: FlowView, from: nat) -> Option<nat>
    decreases flows.len() - from,
{
    if from >= flows.len() {
        None
    } else if same_naming(flows[from as int], flow) {
        Some(from)
    } else {
        flow_index(flows, flow, from + 1)
    }
}

/// Whether a destination with the extension and application of `d` is among
/// `dests`. Subgraph and selector fields do not count here.
pub open spec fn has_dest(dests: Seq<DestView>, d: DestView) -> bool {
    exists|i: int|
        0 <= i < dests.len() && (#[trigger] dests[i]).loc.extension == d.loc.extension
            && dests[i].loc.app == d.loc.app
}

/// The flows after `flow` has been merged into them: the first flow of the
/// same naming gains the first destination of `flow`, unless `flow` has
/// none or the flow already has a destination with that extension and
/// application; when no flow has that naming, `flow` is added at the end.
pub open spec fn merged_flows(flows: Seq<FlowView>, flow: FlowView) -> Seq<FlowView> {
    match flow_index(flows, flow, 0) {
        Some(i) => if flow.dest.len() == 0 || has_dest(flows[i as int].dest, flow.dest[0]) {
            flows
        } else {
            flows.update(
                i as int,
                FlowView { dest: flows[i as int].dest.push(flow.dest[0]), ..flows[i as int] },
            )
        },
        None => flows.push(flow),
    }
}

/// Whether `dest` is among the destinations, all four fields agreeing.
pub open spec fn lists_dest(dests: Seq<DestView>, dest: LocView) -> bool {
    exists|i: int| 0 <= i < dests.len() && (#[trigger] dests[i]).loc == dest
}

/// Whether the flow carries messages named `name`: as its single name, or
/// as one of its list of names.
pub open spec fn flow_carries(flow: FlowView, name: Seq<char>) -> bool {
    flow.name == Some(name) || (flow.names is Some && flow.names->0.contains(name))
}

/// The first of `names`, from index `from` on, that the flow carries.
pub open spec fn first_carried(flow: FlowView, names: Seq<Seq<char>>, from: nat) -> Option<
    Seq<char>,
>
    decreases names.len() - from,
{
    if from >= names.len() {
        None
    } else if flow_carries(flow, names[from as int]) {
        Some(names[from as int])
    } else {
        first_carried(flow, names, from + 1)
    }
}

/// The first of `names` under which the flow already leads to `dest`, if it
/// lists `dest` at all.
pub open spec fn flow_hit(flow: FlowView, names: Seq<Seq<char>>, dest: LocView) -> Option<
    Seq<char>,
> {
    if lists_dest(flow.dest, dest) {
        first_carried(flow, names, 0)
    } else {
        None
    }
}

/// The name under which the first flow, from index `from` on, that carries
/// one of `names` and lists `dest` does so.
pub open spec fn first_hit_in_flows(
    flows: Seq<FlowView>,
    names: Seq<Seq<char>>,
    dest: LocView,
    from: nat,
) -> Option<Seq<char>>
    decreases flows.len() - from,
{
    if from >= flows.len() {
        None
    } else {
        match flow_hit(flows[from as int], names, dest) {
            Some(name) => Some(name),
            None => first_hit_in_flows(flows, names, dest, from + 1),
        }
    }
}

/// The message name under which a connection, from index `from` on, already
/// leads from `src` to `dest` with messages of kind `kind`.
pub open spec fn first_hit(
    connections: Seq<ConnectionView>,
    src: LocView,
    dest: LocView,
    kind: MsgType,
    names: Seq<Seq<char>>,
    from: nat,
) -> Option<Seq<char>>
    decreases connections.len() - from,
{
    if from >= connections.len() {
        None
    } else {
        let c = connections[from as int];
        let hit = if c.loc == src {
            first_hit_in_flows(flows_or_empty(c.flows(kind)), names, dest, 0)
        } else {
            None
        };
        match hit {
            Some(name) => Some(name),
            None => first_hit(connections, src, dest, kind, names, from + 1),
        }
    }
}

/// The connections of an optional list; an absent list holds none.
pub open spec fn connections_or_empty(o: Option<Seq<ConnectionView>>) -> Seq<ConnectionView> {
    match o {
        Some(c) => c,
        None => Seq::empty(),
    }
}

/// The error that reports an existing connection under `msg_name`.
pub open spec fn already_exists(
    src: LocView,
    dest: LocView,
    kind: MsgType,
    msg_name: Seq<char>,
) -> GraphErrorView {
    match (src.node_type(), src.node_name(), dest.node_type(), dest.node_name()) {
        (Some(src_type), Some(src_name), Some(dest_type), Some(dest_name)) => {
            GraphErrorView::ConnectionAlreadyExists {
                msg_type: kind,
                msg_name,
                src_type,
                src_name,
                dest_type,
                dest_name,
            }
        },
        _ => GraphErrorView::UnknownNodeType,
    }
}

/// The index, from `from` on, of the first connection whose source is `src`.
pub open spec fn connection_index(
    connections: Seq<ConnectionView>,
    src: LocView,
    from: nat,
) -> Option<nat>
    decreases connections.len() - from,
{
    if from >= connections.len() {
        None
    } else if connections[from as int].loc == src {
        Some(from)
    } else {
        connection_index(connections, src, from + 1)
    }
}

/// The flow that carries `names` to one destination: under a single name if
/// there is exactly one, under the list otherwise.
pub open spec fn new_flow(names: Seq<Seq<char>>, dest: DestView) -> FlowView {
    FlowView {
        name: if names.len() == 1 {
            Some(names[0])
        } else {
            None
        },
        names: if names.len() == 1 {
            None
        } else {
            Some(names)
        },
        dest: seq![dest],
        source: Seq::empty(),
    }
}

/// The connections after `flow` of kind `kind` has been merged into the
/// first connection from `src`, which is created at the end if there is
/// none.
pub open spec fn merged_connections(
    connections: Seq<ConnectionView>,
    src: LocView,
    kind: MsgType,
    flow: FlowView,
) -> Seq<ConnectionView> {
    let all = match connection_index(connections, src, 0) {
        Some(_) => connections,
        None => connections.push(ConnectionView::bare(src)),
    };
    let at = match connection_index(connections, src, 0) {
        Some(i) => i as int,
        None => connections.len() as int,
    };
    all.update(
        at,
        all[at].with_flows(kind, Some(merged_flows(flows_or_empty(all[at].flows(kind)), flow))),
    )
}

/// The view of the verdict of a schema validator.
pub open spec fn schema_view(r: Result<(), String>) -> Result<(), Seq<char>> {
    match r {
        Ok(_) => Ok(()),
        Err(e) => Err(e@),
    }
}

impl GraphView {
    /// The verdict on a connection that is to be added: it must not exist
    /// yet under any of the names.
    pub open spec fn connection_is_new(
        self,
        src: LocView,
        dest: LocView,
        kind: MsgType,
        names: Seq<Seq<char>>,
    ) -> Result<(), GraphErrorView> {
        match first_hit(connections_or_empty(self.connections), src, dest, kind, names, 0) {
            Some(name) => Err(already_exists(src, dest, kind, name)),
            None => Ok(()),
        }
    }

    /// The graph with a flow merged into the connection from `src`.
    pub open spec fn with_flow(self, src: LocView, kind: MsgType, flow: FlowView) -> GraphView {
        GraphView {
            connections: Some(
                merged_connections(connections_or_empty(self.connections), src, kind, flow),
            ),
            ..self
        }
    }

    /// The outcome of adding a connection: the new graph, or the first
    /// failure among these checks, in order. Source and destination must
    /// name nodes of the graph; the connection must not exist yet; the
    /// schema validator must have agreed; a message name must be given; the
    /// resulting graph must be valid.
    pub open spec fn connection_added(
        self,
        src: LocView,
        dest: DestView,
        kind: MsgType,
        names: Seq<Seq<char>>,
        schema: Result<(), Seq<char>>,
    ) -> Result<GraphView, GraphErrorView> {
        if let Err(e) = self.node_checked(src) {
            Err(e)
        } else if let Err(e) = self.node_checked(dest.loc) {
            Err(e)
        } else if let Err(e) = self.connection_is_new(src, dest.loc, kind, names) {
            Err(e)
        } else if let Err(reason) = schema {
            Err(GraphErrorView::SchemaMismatch { reason })
        } else if names.len() == 0 {
            Err(GraphErrorView::EmptyMessageName)
        } else {
            let next = self.with_flow(src, kind, new_flow(names, dest));
            match next.validated() {
                Ok(_) => Ok(next),
                Err(error) => Err(GraphErrorView::Invalid { error }),
            }
        }
    }
}

/// Tests whether two optional lists of names hold the same names.
pub fn opt_names_eq(a: &Option<Vec<String>>, b: &Option<Vec<String>>) -> (r: bool)
    ensures
        r == (opt_texts(*a) == opt_texts(*b)),
{
    match (a, b) {
        (Some(x), Some(y)) => {
            if x.len() != y.len() {
                assert(texts(x@).len() != texts(y@).len());
                return false;
            }
            let mut i: usize = 0;
            while i < x.len()
                invariant
                    i <= x.len(),
                    x.len() == y.len(),
                    opt_texts(*a) == Some(texts(x@)),
                    opt_texts(*b) == Some(texts(y@)),
                    forall|j: int| 0 <= j < i ==> x@[j]@ == y@[j]@,
                decreases x.len() - i,
            {
                if x[i] != y[i] {
                    assert(texts(x@)[i as int] != texts(y@)[i as int]);
                    return false;
                }
                i += 1;
            }
            assert(texts(x@) =~= texts(y@));
            true
        },
        (None, None) => true,
        _ => false,
    }
}

/// Finds the first flow with the naming of `flow`.
pub fn find_flow(flows: &Vec<GraphMessageFlow>, flow: &GraphMessageFlow) -> (r: Option<usize>)
    ensures
        (match r {
            Some(i) => flow_index(flow_views(flows@), flow@, 0) == Some(i as nat) && i
                < flows.len(),
            None => flow_index(flow_views(flows@), flow@, 0).is_none(),
        }),
{
    let ghost views = flow_views(flows@);
    let mut i: usize = 0;
    while i < flows.len()
        invariant
            i <= flows.len(),
            views == flow_views(flows@),
            flow_index(views, flow@, 0) == flow_index(views, flow@, i as nat),
        decreases flows.len() - i,
    {
        assert(views[i as int] == flows@[i as int]@);
        if opt_str_eq(&flows[i].name, &flow.name) && opt_names_eq(&flows[i].names, &flow.names) {
            return Some(i);
        }
        i += 1;
    }
    None
}

/// Tests whether a destination with the extension and application of `d` is
/// among `dests`.
pub fn dest_present(dests: &Vec<GraphDestination>, d: &GraphDestination) -> (r: bool)
    ensures
        r == has_dest(dest_views(dests@), d@),
{
    let ghost views = dest_views(dests@);
    let mut i: usize = 0;
    while i < dests.len()
        invariant
            i <= dests.len(),
            views == dest_views(dests@),
            forall|j: int|
                0 <= j < i ==> !((#[trigger] views[j]).loc.extension == d@.loc.extension
                    && views[j].loc.app == d@.loc.app),
        decreases dests.len() - i,
    {
        assert(views[i as int] == dests@[i as int]@);
        if opt_str_eq(&dests[i].loc.extension, &d.loc.extension) && opt_str_eq(
            &dests[i].loc.app,
            &d.loc.app,
        ) {
            return true;
        }
        i += 1;
    }
    false
}

/// Merges a flow into a list of flows of one kind, which is created if it is
/// absent. A flow of the same naming gains the first destination of
/// `message_flow`, unless it has one with that extension and application
/// already; a `message_flow` without destinations adds nothing to it.
/// Merging the same flow twice changes nothing the second time.
pub fn add_to_flow(
    flow_collection: &mut Option<Vec<GraphMessageFlow>>,
    message_flow: GraphMessageFlow,
)
    ensures
        opt_flow_views(*final(flow_collection)) == Some(
            merged_flows(flows_or_empty(opt_flow_views(*old(flow_collection))), message_flow@),
        ),
{
    let mut flows = match flow_collection.take() {
        Some(v) => v,
        None => Vec::new(),
    };
    let ghost before = flow_views(flows@);
    assert(before =~= flows_or_empty(opt_flow_views(*old(flow_collection))));
    match find_flow(&flows, &message_flow) {
        Some(i) => {
            assert(before[i as int] == flows@[i as int]@);
            if message_flow.dest.len() > 0 && !dest_present(
                &flows[i].dest,
                &message_flow.dest[0],
            ) {
                assert(message_flow@.dest[0] == message_flow.dest@[0]@);
                let d = message_flow.dest[0].clone();
                let ghost old_dests = dest_views(flows@[i as int].dest@);
                flows[i].dest.push(d);
                assert(dest_views(flows@[i as int].dest@) =~= old_dests.push(d@));
                assert(flow_views(flows@) =~= before.update(
                    i as int,
                    FlowView { dest: old_dests.push(d@), ..before[i as int] },
                ));
            }
        },
        None => {
            let ghost added = message_flow@;
            flows.push(message_flow);
            assert(flow_views(flows@) =~= before.push(added));
        },
    }
    *flow_collection = Some(flows);
}

/// Merges a flow into the flows of kind `msg_type` of a connection. This
/// never fails.
pub fn add_message_flow_to_connection(
    connection: &mut GraphConnection,
    msg_type: &MsgType,
    message_flow: GraphMessageFlow,
) -> (r: Result<(), GraphError>)
    ensures
        r is Ok,
        final(connection)@ == old(connection)@.with_flows(
            *msg_type,
            Some(merged_flows(flows_or_empty(old(connection)@.flows(*msg_type)), message_flow@)),
        ),
{
    match msg_type {
        MsgType::Cmd => add_to_flow(&mut connection.cmd, message_flow),
        MsgType::Data => add_to_flow(&mut connection.data, message_flow),
        MsgType::AudioFrame => add_to_flow(&mut connection.audio_frame, message_flow),
        MsgType::VideoFrame => add_to_flow(&mut connection.video_frame, message_flow),
    }
    Ok(())
}

/// Tests whether `name` is among `names`.
pub fn names_contain(names: &Vec<String>, name: &String) -> (r: bool)
    ensures
        r == texts(names@).contains(name@),
{
    let ghost all = texts(names@);
    let mut i: usize = 0;
    while i < names.len()
        invariant
            i <= names.len(),
            all == texts(names@),
            forall|j: int| 0 <= j < i ==> all[j] != name@,
        decreases names.len() - i,
    {
        assert(all[i as int] == names@[i as int]@);
        if names[i] == *name {
            return true;
        }
        i += 1;
    }
    false
}

/// Tests whether `dest` is among the destinations, all four fields agreeing.
pub fn dest_listed(dests: &Vec<GraphDestination>, dest: &GraphLoc) -> (r: bool)
    ensures
        r == lists_dest(dest_views(dests@), dest@),
{
    let ghost views = dest_views(dests@);
    let mut i: usize = 0;
    while i < dests.len()
        invariant
            i <= dests.len(),
            views == dest_views(dests@),
            forall|j: int| 0 <= j < i ==> (#[trigger] views[j]).loc != dest@,
        decreases dests.len() - i,
    {
        assert(views[i as int] == dests@[i as int]@);
        if dests[i].loc.matches(dest) {
            return true;
        }
        i += 1;
    }
    false
}

/// Tests whether the flow carries messages named `name`.
pub fn flow_carries_name(flow: &GraphMessageFlow, name: &String) -> (r: bool)
    ensures
        r == flow_carries(flow@, name@),
{
    let single = match &flow.name {
        Some(n) => *n == *name,
        None => false,
    };
    if single {
        return true;
    }
    match &flow.names {
        Some(list) => names_contain(list, name),
        None => false,
    }
}

/// Finds the first of `names` that the flow carries.
pub fn first_carried_name<'a>(flow: &GraphMessageFlow, names: &'a Vec<String>) -> (r: Option<
    &'a String,
>)
    ensures
        (match r {
            Some(name) => first_carried(flow@, texts(names@), 0) == Some(name@),
            None => first_carried(flow@, texts(names@), 0).is_none(),
        }),
{
    let ghost all = texts(names@);
    let mut i: usize = 0;
    while i < names.len()
        invariant
            i <= names.len(),
            all == texts(names@),
            first_carried(flow@, all, 0) == first_carried(flow@, all, i as nat),
        decreases names.len() - i,
    {
        assert(all[i as int] == names@[i as int]@);
        if flow_carries_name(flow, &names[i]) {
            return Some(&names[i]);
        }
        i += 1;
    }
    None
}

/// Finds the first flow that carries one of `names` and lists `dest`, and
/// returns the first of `names` that it carries.
pub fn find_hit<'a>(flows: &Vec<GraphMessageFlow>, names: &'a Vec<String>, dest: &GraphLoc) -> (r:
    Option<&'a String>)
    ensures
        (match r {
            Some(name) => first_hit_in_flows(flow_views(flows@), texts(names@), dest@, 0) == Some(
                name@,
            ),
            None => first_hit_in_flows(flow_views(flows@), texts(names@), dest@, 0).is_none(),
        }),
{
    let ghost views = flow_views(flows@);
    let mut i: usize = 0;
    while i < flows.len()
        invariant
            i <= flows.len(),
            views == flow_views(flows@),
            first_hit_in_flows(views, texts(names@), dest@, 0) == first_hit_in_flows(
                views,
                texts(names@),
                dest@,
                i as nat,
            ),
        decreases flows.len() - i,
    {
        assert(views[i as int] == flows@[i as int]@);
        if dest_listed(&flows[i].dest, dest) {
            match first_carried_name(&flows[i], names) {
                Some(name) => { return Some(name); },
                None => {},
            }
        }
        i += 1;
    }
    None
}

/// Checks that the graph does not yet lead messages of kind `msg_type` under
/// one of `msg_names` from `src` to `dest`.
pub fn check_connection_exists(
    graph: &Graph,
    src: &GraphLoc,
    dest: &GraphLoc,
    msg_type: &MsgType,
    msg_names: &Vec<String>,
) -> (r: Result<(), GraphError>)
    ensures
        edited(r) == graph@.connection_is_new(src@, dest@, *msg_type, texts(msg_names@)),
{
    let connections = match &graph.connections {
        Some(c) => c,
        None => { return Ok(()); },
    };
    let ghost views = connection_views(connections@);
    let ghost names = texts(msg_names@);
    let mut i: usize = 0;
    while i < connections.len()
        invariant
            i <= connections.len(),
            views == connection_views(connections@),
            names == texts(msg_names@),
            graph@.connections == Some(views),
            first_hit(views, src@, dest@, *msg_type, names, 0) == first_hit(
                views,
                src@,
                dest@,
                *msg_type,
                names,
                i as nat,
            ),
        decreases connections.len() - i,
    {
        assert(views[i as int] == connections@[i as int]@);
        let conn = &connections[i];
        if conn.loc.matches(src) {
            match conn.flows(*msg_type) {
                Some(flows) => {
                    match find_hit(flows, msg_names, dest) {
                        Some(name) => {
                            return Err(existing_connection(src, dest, *msg_type, name));
                        },
                        None => {},
                    }
                },
                None => {},
            }
        }
        i += 1;
    }
    Ok(())
}

/// The error that reports an existing connection under `msg_name`.
pub fn existing_connection(
    src: &GraphLoc,
    dest: &GraphLoc,
    msg_type: MsgType,
    msg_name: &String,
) -> (r: GraphError)
    ensures
        r@ == already_exists(src@, dest@, msg_type, msg_name@),
{
    let src_type = match src.get_node_type() {
        Ok(t) => t,
        Err(_) => { return GraphError::UnknownNodeType; },
    };
    let src_name = match src.get_node_name() {
        Ok(n) => n.clone(),
        Err(_) => { return GraphError::UnknownNodeType; },
    };
    let dest_type = match dest.get_node_type() {
        Ok(t) => t,
        Err(_) => { return GraphError::UnknownNodeType; },
    };
    let dest_name = match dest.get_node_name() {
        Ok(n) => n.clone(),
        Err(_) => { return GraphError::UnknownNodeType; },
    };
    GraphError::ConnectionAlreadyExists {
        msg_type,
        msg_name: msg_name.clone(),
        src_type,
        src_name,
        dest_type,
        dest_name,
    }
}

/// A copy of a list of connections.
pub fn clone_connections(v: &Vec<GraphConnection>) -> (r: Vec<GraphConnection>)
    ensures
        connection_views(r@) == connection_views(v@),
{
    let mut out: Vec<GraphConnection> = Vec::new();
    let mut i: usize = 0;
    while i < v.len()
        invariant
            i <= v.len(),
            out@.len() == i,
            forall|j: int| 0 <= j < i ==> out@[j]@ == v@[j]@,
        decreases v.len() - i,
    {
        out.push(v[i].clone());
        i += 1;
    }
    assert(connection_views(out@) =~= connection_views(v@));
    out
}

/// Finds the first connection whose source is `src`.
pub fn find_connection(connections: &Vec<GraphConnection>, src: &GraphLoc) -> (r: Option<usize>)
    ensures
        (match r {
            Some(i) => connection_index(connection_views(connections@), src@, 0) == Some(i as nat)
                && i < connections.len(),
            None => connection_index(connection_views(connections@), src@, 0).is_none(),
        }),
{
    let ghost views = connection_views(connections@);
    let mut i: usize = 0;
    while i < connections.len()
        invariant
            i <= connections.len(),
            views == connection_views(connections@),
            connection_index(views, src@, 0) == connection_index(views, src@, i as nat),
        decreases connections.len() - i,
    {
        assert(views[i as int] == connections@[i as int]@);
        if connections[i].loc.matches(src) {
            return Some(i);
        }
        i += 1;
    }
    None
}

/// Merges a flow of kind `msg_type` into the first connection from `src`,
/// which is created at the end of the list if there is none.
pub fn merge_into_connections(
    connections: &mut Vec<GraphConnection>,
    src: GraphLoc,
    msg_type: MsgType,
    message_flow: GraphMessageFlow,
)
    ensures
        connection_views(final(connections)@) == merged_connections(
            connection_views(old(connections)@),
            src@,
            msg_type,
            message_flow@,
        ),
{
    let ghost before = connection_views(connections@);
    let ghost source = src@;
    let at = match find_connection(connections, &src) {
        Some(i) => i,
        None => {
            let fresh = GraphConnection::new(src);
            connections.push(fresh);
            assert(connection_views(connections@) =~= before.push(ConnectionView::bare(source)));
            connections.len() - 1
        },
    };
    let ghost all = connection_views(connections@);
    assert(all[at as int] == connections@[at as int]@);
    let _ = add_message_flow_to_connection(&mut connections[at], &msg_type, message_flow);
    assert(connection_views(connections@) =~= all.update(
        at as int,
        all[at as int].with_flows(
            msg_type,
            Some(merged_flows(flows_or_empty(all[at as int].flows(msg_type)), message_flow@)),
        ),
    ));
}

/// Builds the flow that carries `msg_names` to `destination`: under a single
/// name if there is exactly one, under the list otherwise.
pub fn build_flow(msg_names: Vec<String>, destination: GraphDestination) -> (r: GraphMessageFlow)
    ensures
        r@ == new_flow(texts(msg_names@), destination@),
{
    let ghost d = destination@;
    let mut dest: Vec<GraphDestination> = Vec::new();
    dest.push(destination);
    assert(dest_views(dest@) =~= seq![d]);
    let source = Vec::new();
    assert(source_views(source@) =~= Seq::empty());
    if msg_names.len() == 1 {
        let name = msg_names[0].clone();
        assert(texts(msg_names@)[0] == msg_names@[0]@);
        GraphMessageFlow::new(Some(name), None, dest, source)
    } else {
        GraphMessageFlow::new(None, Some(msg_names), dest, source)
    }
}

/// Adds a connection that carries messages of kind `msg_type` under
/// `msg_names` from `src` to `dest`.
///
/// `schema` is the verdict of the schema validator on the connection with
/// its conversion rule. The checks are made in this order: `src` and `dest`
/// must name nodes of the graph; no flow of that kind from `src` may lead to
/// `dest` already under one of `msg_names`, be it as the flow's single name
/// or as one of its list of names; the schema validator must have agreed; a
/// message name must be given. Then one flow is built, under the single name
/// if one name is given and under the list otherwise, and merged into the
/// connection from `src`: the flow of the same naming gains the destination,
/// and a flow of another naming is never touched. The resulting graph is
/// validated, the conversion rule included. On any failure the graph is left
/// exactly as it was.
pub fn graph_add_connection(
    graph: &mut Graph,
    src: GraphLoc,
    dest: GraphLoc,
    msg_type: MsgType,
    msg_names: Vec<String>,
    msg_conversion: Option<MsgAndResultConversion>,
    schema: Result<(), String>,
) -> (r: Result<(), GraphError>)
    ensures
        (match old(graph)@.connection_added(
            src@,
            DestView { loc: dest@, msg_conversion: opt_rule_view(msg_conversion) },
            msg_type,
            texts(msg_names@),
            schema_view(schema),
        ) {
            Ok(next) => r is Ok && final(graph)@ == next,
            Err(e) => edited(r) == Err::<(), GraphErrorView>(e) && *final(graph) == *old(graph),
        }),
{
    match src.check_node_exists(graph) {
        Err(e) => { return Err(e); },
        Ok(_) => {},
    }
    match dest.check_node_exists(graph) {
        Err(e) => { return Err(e); },
        Ok(_) => {},
    }
    match check_connection_exists(graph, &src, &dest, &msg_type, &msg_names) {
        Err(e) => { return Err(e); },
        Ok(_) => {},
    }
    match schema {
        Err(reason) => { return Err(GraphError::SchemaMismatch { reason }); },
        Ok(_) => {},
    }
    if msg_names.len() == 0 {
        return Err(GraphError::EmptyMessageName);
    }
    let destination = GraphDestination { loc: dest, msg_conversion };
    let flow = build_flow(msg_names, destination);
    let mut candidate = match &graph.connections {
        Some(c) => clone_connections(c),
        None => Vec::new(),
    };
    assert(connection_views(candidate@) =~= connections_or_empty(graph@.connections));
    merge_into_connections(&mut candidate, src, msg_type, flow);
    let candidate = Some(candidate);
    match check_parts(&graph.nodes, &candidate) {
        Ok(_) => {
            graph.connections = candidate;
            Ok(())
        },
        Err(error) => Err(GraphError::Invalid { error }),
    }
}

/// Whether every destination of every flow of the connections names exactly
/// one of extension, subgraph and selector.
pub open spec fn destinations_well_formed(connections: Seq<ConnectionView>) -> bool {
    forall|kind: MsgType, i: int, j: int, k: int|
        0 <= i < connections.len() && 0 <= j < flows_or_empty(connections[i].flows(kind)).len()
            && 0 <= k < flows_or_empty(connections[i].flows(kind))[j].dest.len()
            ==> (#[trigger] flows_or_empty(connections[i].flows(kind))[j].dest[k]).loc.well_formed()
}

/// The first flow of a naming is a flow of that naming, and none before it
/// is.
pub proof fn lemma_flow_index(flows: Seq<FlowView>, flow: FlowView, from: nat)
    ensures
        (match flow_index(flows, flow, from) {
            Some(i) => from <= i < flows.len() && same_naming(flows[i as int], flow)
                && forall|j: int| from <= j < i ==> !same_naming(#[trigger] flows[j], flow),
            None => forall|j: int|
                from <= j < flows.len() ==> !same_naming(#[trigger] flows[j], flow),
        }),
    decreases flows.len() - from,
{
    if from < flows.len() && !same_naming(flows[from as int], flow) {
        lemma_flow_index(flows, flow, from + 1);
    }
}

/// The first connection from a source is a connection from that source, and
/// none before it is.
pub proof fn lemma_connection_index(connections: Seq<ConnectionView>, src: LocView, from: nat)
    ensures
        (match connection_index(connections, src, from) {
            Some(i) => from <= i < connections.len() && connections[i as int].loc == src
                && forall|j: int| from <= j < i ==> (#[trigger] connections[j]).loc != src,
            None => forall|j: int|
                from <= j < connections.len() ==> (#[trigger] connections[j]).loc != src,
        }),
    decreases connections.len() - from,
{
    if from < connections.len() && connections[from as int].loc != src {
        lemma_connection_index(connections, src, from + 1);
    }
}

proof fn lemma_hit_in_flows_found(
    flows: Seq<FlowView>,
    names: Seq<Seq<char>>,
    dest: LocView,
    from: nat,
    at: nat,
)
    requires
        from <= at < flows.len(),
        flow_hit(flows[at as int], names, dest) is Some,
        forall|j: int| from <= j < at ==> flow_hit(#[trigger] flows[j], names, dest) is None,
    ensures
        first_hit_in_flows(flows, names, dest, from) == flow_hit(flows[at as int], names, dest),
    decreases at - from,
{
    if from < at {
        assert(flow_hit(flows[from as int], names, dest) is None);
        lemma_hit_in_flows_found(flows, names, dest, from + 1, at);
    }
}

proof fn lemma_hit_in_flows_none(
    flows: Seq<FlowView>,
    names: Seq<Seq<char>>,
    dest: LocView,
    from: nat,
)
    requires
        first_hit_in_flows(flows, names, dest, from).is_none(),
    ensures
        forall|j: int| from <= j < flows.len() ==> flow_hit(#[trigger] flows[j], names, dest) is None,
    decreases flows.len() - from,
{
    if from < flows.len() {
        lemma_hit_in_flows_none(flows, names, dest, from + 1);
    }
}

proof fn lemma_hit_found(
    connections: Seq<ConnectionView>,
    src: LocView,
    dest: LocView,
    kind: MsgType,
    names: Seq<Seq<char>>,
    from: nat,
    at: nat,
    name: Seq<char>,
)
    requires
        from <= at < connections.len(),
        connections[at as int].loc == src,
        first_hit_in_flows(flows_or_empty(connections[at as int].flows(kind)), names, dest, 0)
            == Some(name),
        forall|j: int| from <= j < at ==> (#[trigger] connections[j]).loc != src,
    ensures
        first_hit(connections, src, dest, kind, names, from) == Some(name),
    decreases at - from,
{
    if from < at {
        assert(connections[from as int].loc != src);
        lemma_hit_found(connections, src, dest, kind, names, from + 1, at, name);
    }
}

proof fn lemma_hit_none(
    connections: Seq<ConnectionView>,
    src: LocView,
    dest: LocView,
    kind: MsgType,
    names: Seq<Seq<char>>,
    from: nat,
)
    requires
        first_hit(connections, src, dest, kind, names, from).is_none(),
    ensures
        forall|j: int|
            from <= j < connections.len() && (#[trigger] connections[j]).loc == src
                ==> first_hit_in_flows(
                flows_or_empty(connections[j].flows(kind)),
                names,
                dest,
                0,
            ).is_none(),
    decreases connections.len() - from,
{
    if from < connections.len() {
        lemma_hit_none(connections, src, dest, kind, names, from + 1);
    }
}

/// Whether the destination `dest` is shadowed in the flow of the naming of
/// `flow` that leads from `src`: the flow has a destination with the
/// extension and application of `dest`, so that merging `dest` into it adds
/// nothing.
pub open spec fn destination_shadowed(
    connections: Seq<ConnectionView>,
    src: LocView,
    kind: MsgType,
    flow: FlowView,
    dest: DestView,
) -> bool {
    match connection_index(connections, src, 0) {
        Some(i) => match flow_index(flows_or_empty(connections[i as int].flows(kind)), flow, 0) {
            Some(j) => has_dest(flows_or_empty(connections[i as int].flows(kind))[j as int].dest, dest),
            None => false,
        },
        None => false,
    }
}

/// A flow built for `names` carries the first of them.
proof fn lemma_new_flow_carries_first(names: Seq<Seq<char>>, dest: DestView, other: FlowView)
    requires
        names.len() > 0,
        same_naming(other, new_flow(names, dest)),
    ensures
        first_carried(other, names, 0) == Some(names[0]),
{
    if names.len() > 1 {
        assert(other.names == Some(names));
        assert(names.contains(names[0]));
    }
}

/// After a flow for `names` has been merged into flows of which none leads
/// to `dest` under one of `names`, and in which `dest` is not shadowed, the
/// first flow that leads to `dest` under one of `names` is the merged one,
/// under the first of `names`.
proof fn lemma_merged_flow_hits(flows: Seq<FlowView>, names: Seq<Seq<char>>, dest: DestView)
    requires
        names.len() > 0,
        flow_index(flows, new_flow(names, dest), 0) matches Some(j) ==> !has_dest(
            flows[j as int].dest,
            dest,
        ),
        forall|j: int| 0 <= j < flows.len() ==> flow_hit(#[trigger] flows[j], names, dest.loc) is None,
    ensures
        first_hit_in_flows(merged_flows(flows, new_flow(names, dest)), names, dest.loc, 0) == Some(
            names[0],
        ),
{
    let flow = new_flow(names, dest);
    let merged = merged_flows(flows, flow);
    assert(flow.dest[0] == dest);
    lemma_flow_index(flows, flow, 0);
    let at: nat = match flow_index(flows, flow, 0) {
        Some(i) => i,
        None => flows.len(),
    };
    let listed = merged[at as int].dest;
    assert(listed[listed.len() - 1].loc == dest.loc);
    assert(lists_dest(listed, dest.loc));
    lemma_new_flow_carries_first(names, dest, merged[at as int]);
    assert(flow_hit(merged[at as int], names, dest.loc) == Some(names[0]));
    assert forall|j: int| 0 <= j < at implies flow_hit(#[trigger] merged[j], names, dest.loc)
        is None by {
        assert(merged[j] == flows[j]);
    }
    lemma_hit_in_flows_found(merged, names, dest.loc, 0, at);
}

/// Adding a connection is not repeated: once a connection has been added,
/// adding the same connection again is refused as existing under the first
/// of its message names, whatever the schema validator says. The refused
/// edit leaves the graph, and so the destinations of the flow, as they were.
///
/// This holds unless the destination is shadowed, in which case the first
/// edit adds nothing and the second succeeds like the first.
pub proof fn lemma_second_add_is_refused(
    g: GraphView,
    src: LocView,
    dest: DestView,
    kind: MsgType,
    names: Seq<Seq<char>>,
    schema: Result<(), Seq<char>>,
    again: Result<(), Seq<char>>,
)
    requires
        g.connection_added(src, dest, kind, names, schema) is Ok,
        !destination_shadowed(
            connections_or_empty(g.connections),
            src,
            kind,
            new_flow(names, dest),
            dest,
        ),
    ensures
        names.len() > 0,
        g.connection_added(src, dest, kind, names, schema)->Ok_0.connection_added(
            src,
            dest,
            kind,
            names,
            again,
        ) == Err::<GraphView, GraphErrorView>(already_exists(src, dest.loc, kind, names[0])),
        already_exists(src, dest.loc, kind, names[0]) is ConnectionAlreadyExists,
{
    let flow = new_flow(names, dest);
    let next = g.with_flow(src, kind, flow);
    assert(g.connection_added(src, dest, kind, names, schema) == Ok::<GraphView, GraphErrorView>(
        next,
    ));
    let before = connections_or_empty(g.connections);
    let after = merged_connections(before, src, kind, flow);
    lemma_connection_index(before, src, 0);
    let at: nat = match connection_index(before, src, 0) {
        Some(i) => i,
        None => before.len(),
    };
    let all = match connection_index(before, src, 0) {
        Some(_) => before,
        None => before.push(ConnectionView::bare(src)),
    };
    let flows = flows_or_empty(all[at as int].flows(kind));
    assert(after[at as int].loc == src);
    assert(flows_or_empty(after[at as int].flows(kind)) == merged_flows(flows, flow));
    assert(first_hit(before, src, dest.loc, kind, names, 0).is_none());
    lemma_hit_none(before, src, dest.loc, kind, names, 0);
    if connection_index(before, src, 0) is Some {
        assert(before[at as int].loc == src);
        lemma_hit_in_flows_none(flows, names, dest.loc, 0);
    } else {
        assert(flows =~= Seq::<FlowView>::empty());
    }
    lemma_merged_flow_hits(flows, names, dest);
    assert forall|j: int| 0 <= j < at implies (#[trigger] after[j]).loc != src by {
        assert(after[j] == before[j]);
    }
    lemma_hit_found(after, src, dest.loc, kind, names, 0, at, names[0]);
    assert(next.nodes == g.nodes);
    assert(connections_or_empty(next.connections) == after);
}

/// Where the edit is repeated: a shadowed destination is not added, so that
/// the same edit passes the same checks again and leaves the graph as the
/// first edit left it.
pub proof fn lemma_shadowed_add_changes_nothing(
    g: GraphView,
    src: LocView,
    dest: DestView,
    kind: MsgType,
    names: Seq<Seq<char>>,
    schema: Result<(), Seq<char>>,
)
    requires
        g.connection_added(src, dest, kind, names, schema) is Ok,
        destination_shadowed(
            connections_or_empty(g.connections),
            src,
            kind,
            new_flow(names, dest),
            dest,
        ),
    ensures
        g.connection_added(src, dest, kind, names, schema)->Ok_0.connections == Some(
            connections_or_empty(g.connections),
        ),
{
    let before = connections_or_empty(g.connections);
    let flow = new_flow(names, dest);
    lemma_connection_index(before, src, 0);
    let i = connection_index(before, src, 0)->0;
    let flows = flows_or_empty(before[i as int].flows(kind));
    lemma_flow_index(flows, flow, 0);
    assert(flow.dest[0] == dest);
    assert(merged_flows(flows, flow) == flows);
    assert(before[i as int].flows(kind) is Some);
    assert(before[i as int].with_flows(kind, Some(flows)) == before[i as int]);
    assert(merged_connections(before, src, kind, flow) =~= before);
}

/// A well-formed extension destination is never shadowed when the
/// connection can be added: among well-formed destinations, one with its
/// extension and application is the destination itself, which the graph
/// would then hold already.
pub proof fn lemma_extension_is_not_shadowed(
    g: GraphView,
    src: LocView,
    dest: DestView,
    kind: MsgType,
    names: Seq<Seq<char>>,
    schema: Result<(), Seq<char>>,
)
    requires
        dest.loc.extension is Some,
        dest.loc.well_formed(),
        destinations_well_formed(connections_or_empty(g.connections)),
        g.connection_added(src, dest, kind, names, schema) is Ok,
    ensures
        !destination_shadowed(
            connections_or_empty(g.connections),
            src,
            kind,
            new_flow(names, dest),
            dest,
        ),
{
    let before = connections_or_empty(g.connections);
    let flow = new_flow(names, dest);
    lemma_connection_index(before, src, 0);
    if let Some(i) = connection_index(before, src, 0) {
        let flows = flows_or_empty(before[i as int].flows(kind));
        lemma_flow_index(flows, flow, 0);
        if let Some(j) = flow_index(flows, flow, 0) {
            let target = flows[j as int];
            if has_dest(target.dest, dest) {
                let k = choose|k: int|
                    0 <= k < target.dest.len() && (#[trigger] target.dest[k]).loc.extension
                        == dest.loc.extension && target.dest[k].loc.app == dest.loc.app;
                assert(flows_or_empty(before[i as int].flows(kind))[j as int].dest[k].loc.well_formed());
                assert(target.dest[k].loc == dest.loc);
                assert(lists_dest(target.dest, dest.loc));
                lemma_new_flow_carries_first(names, dest, target);
                assert(flow_hit(target, names, dest.loc) is Some);
                assert(first_hit(before, src, dest.loc, kind, names, 0).is_none());
                lemma_hit_none(before, src, dest.loc, kind, names, 0);
                lemma_hit_in_flows_none(flows, names, dest.loc, 0);
                assert(false);
            }
        }
    }
}

/// Whether `new` is `old` with destinations added at the end, and nothing
/// else changed.
pub open spec fn flow_extends(old: FlowView, new: FlowView) -> bool {
    &&& new.name == old.name
    &&& new.names == old.names
    &&& new.source == old.source
    &&& old.dest.len() <= new.dest.len()
    &&& forall|k: int| 0 <= k < old.dest.len() ==> new.dest[k] == old.dest[k]
}

/// Whether `new` holds every flow of `old` at its index, possibly with
/// destinations added, and possibly more flows after them.
pub open spec fn flows_extend(old: Seq<FlowView>, new: Seq<FlowView>) -> bool {
    &&& old.len() <= new.len()
    &&& forall|j: int| 0 <= j < old.len() ==> flow_extends(old[j], #[trigger] new[j])
}

/// Whether `new` is the connection `old` with flows and destinations added.
pub open spec fn connection_extends(old: ConnectionView, new: ConnectionView) -> bool {
    &&& new.loc == old.loc
    &&& forall|kind: MsgType|
        flows_extend(
            flows_or_empty(old.flows(kind)),
            #[trigger] flows_or_empty(new.flows(kind)),
        )
}

/// Whether `new` holds every connection of `old` at its index, possibly with
/// flows and destinations added, and possibly more connections after them.
pub open spec fn connections_extend(old: Seq<ConnectionView>, new: Seq<ConnectionView>) -> bool {
    &&& old.len() <= new.len()
    &&& forall|i: int| 0 <= i < old.len() ==> connection_extends(old[i], #[trigger] new[i])
}

/// Merging a flow into flows only adds to them.
pub proof fn lemma_merged_flows_extend(flows: Seq<FlowView>, flow: FlowView)
    ensures
        flows_extend(flows, merged_flows(flows, flow)),
{
    lemma_flow_index(flows, flow, 0);
}

/// Merging a flow into connections only adds to them: every connection that
/// was there is still there, at its place, with every flow and destination
/// it had.
pub proof fn lemma_merged_connections_extend(
    connections: Seq<ConnectionView>,
    src: LocView,
    kind: MsgType,
    flow: FlowView,
)
    ensures
        connections_extend(connections, merged_connections(connections, src, kind, flow)),
{
    lemma_connection_index(connections, src, 0);
    let after = merged_connections(connections, src, kind, flow);
    assert forall|i: int| 0 <= i < connections.len() implies connection_extends(
        connections[i],
        #[trigger] after[i],
    ) by {
        let old = connections[i];
        let new = after[i];
        assert forall|k: MsgType|
            flows_extend(flows_or_empty(old.flows(k)), #[trigger] flows_or_empty(new.flows(k))) by {
            if connection_index(connections, src, 0) == Some(i as nat) && k == kind {
                lemma_merged_flows_extend(flows_or_empty(old.flows(kind)), flow);
            }
        }
    }
}

/// Merging a flow changes one connection alone: every connection from
/// another source is left exactly as it was.
pub proof fn lemma_merge_leaves_other_sources(
    connections: Seq<ConnectionView>,
    src: LocView,
    kind: MsgType,
    flow: FlowView,
    i: int,
)
    requires
        0 <= i < connections.len(),
        connections[i].loc != src,
    ensures
        i < merged_connections(connections, src, kind, flow).len(),
        merged_connections(connections, src, kind, flow)[i] == connections[i],
{
    lemma_connection_index(connections, src, 0);
}

/// Extension of connections is transitive.
pub proof fn lemma_connections_extend_trans(
    a: Seq<ConnectionView>,
    b: Seq<ConnectionView>,
    c: Seq<ConnectionView>,
)
    requires
        connections_extend(a, b),
        connections_extend(b, c),
    ensures
        connections_extend(a, c),
{
    assert forall|i: int| 0 <= i < a.len() implies connection_extends(a[i], #[trigger] c[i]) by {
        assert(connection_extends(a[i], b[i]));
        assert(connection_extends(b[i], c[i]));
        assert forall|k: MsgType|
            flows_extend(flows_or_empty(a[i].flows(k)), #[trigger] flows_or_empty(c[i].flows(k))) by {
            let fa = flows_or_empty(a[i].flows(k));
            let fb = flows_or_empty(b[i].flows(k));
            let fc = flows_or_empty(c[i].flows(k));
            assert(flows_extend(fa, fb));
            assert(flows_extend(fb, fc));
            assert forall|j: int| 0 <= j < fa.len() implies flow_extends(fa[j], #[trigger] fc[j]) by {
                assert(flow_extends(fa[j], fb[j]));
                assert(flow_extends(fb[j], fc[j]));
            }
        }
    }
}

/// Adding a connection is a pure addition: the nodes and what the graph
/// exposes stay as they are, and every connection, flow and destination
/// that was there is still there, at its place.
pub proof fn lemma_add_is_pure_addition(
    g: GraphView,
    src: LocView,
    dest: DestView,
    kind: MsgType,
    names: Seq<Seq<char>>,
    schema: Result<(), Seq<char>>,
)
    requires
        g.connection_added(src, dest, kind, names, schema) is Ok,
    ensures
        ({
            let next = g.connection_added(src, dest, kind, names, schema)->Ok_0;
            &&& next.nodes == g.nodes
            &&& next.exposed_messages == g.exposed_messages
            &&& next.exposed_properties == g.exposed_properties
            &&& next.validated() is Ok
            &&& connections_extend(
                connections_or_empty(g.connections),
                connections_or_empty(next.connections),
            )
        }),
{
    lemma_merged_connections_extend(
        connections_or_empty(g.connections),
        src,
        kind,
        new_flow(names, dest),
    );
}

/// Whether no two connections share a source.
pub open spec fn sources_distinct(connections: Seq<ConnectionView>) -> bool {
    forall|i: int, j: int|
        0 <= i < j < connections.len() ==> (#[trigger] connections[i]).loc != (
        #[trigger] connections[j]).loc
}

/// Whether no two flows share a naming.
pub open spec fn namings_distinct(flows: Seq<FlowView>) -> bool {
    forall|i: int, j: int|
        0 <= i < j < flows.len() ==> !same_naming(#[trigger] flows[i], #[trigger] flows[j])
}

proof fn lemma_flow_index_found(flows: Seq<FlowView>, flow: FlowView, from: nat, at: nat)
    requires
        from <= at < flows.len(),
        same_naming(flows[at as int], flow),
        forall|j: int| from <= j < at ==> !same_naming(#[trigger] flows[j], flow),
    ensures
        flow_index(flows, flow, from) == Some(at),
    decreases at - from,
{
    if from < at {
        assert(!same_naming(flows[from as int], flow));
        lemma_flow_index_found(flows, flow, from + 1, at);
    }
}

/// Merging is idempotent: merging a flow that has just been merged changes
/// nothing.
pub proof fn lemma_merge_is_idempotent(flows: Seq<FlowView>, flow: FlowView)
    ensures
        merged_flows(merged_flows(flows, flow), flow) == merged_flows(flows, flow),
{
    lemma_flow_index(flows, flow, 0);
    let once = merged_flows(flows, flow);
    match flow_index(flows, flow, 0) {
        Some(i) => {
            if flow.dest.len() > 0 && !has_dest(flows[i as int].dest, flow.dest[0]) {
                assert forall|j: int| 0 <= j < i implies !same_naming(#[trigger] once[j], flow) by {
                    assert(once[j] == flows[j]);
                }
                lemma_flow_index_found(once, flow, 0, i);
                let grown = once[i as int].dest;
                assert(grown[grown.len() - 1] == flow.dest[0]);
            }
        },
        None => {
            let at = flows.len();
            assert forall|j: int| 0 <= j < at implies !same_naming(#[trigger] once[j], flow) by {
                assert(once[j] == flows[j]);
            }
            lemma_flow_index_found(once, flow, 0, at);
            if flow.dest.len() > 0 {
                assert(once[at as int].dest[0] == flow.dest[0]);
            }
        },
    }
}

/// Merging keeps flows apart by naming: if no two flows shared a naming,
/// none do afterwards.
pub proof fn lemma_merge_keeps_namings_distinct(flows: Seq<FlowView>, flow: FlowView)
    requires
        namings_distinct(flows),
    ensures
        namings_distinct(merged_flows(flows, flow)),
{
    lemma_flow_index(flows, flow, 0);
    let after = merged_flows(flows, flow);
    assert forall|i: int, j: int| 0 <= i < j < after.len() implies !same_naming(
        #[trigger] after[i],
        #[trigger] after[j],
    ) by {
        if j < flows.len() {
            assert(same_naming(after[i], flows[i]));
            assert(same_naming(after[j], flows[j]));
            assert(!same_naming(flows[i], flows[j]));
        } else {
            assert(same_naming(after[i], flows[i]));
            assert(!same_naming(flows[i], flow));
        }
    }
}

/// Merging keeps one connection per source: if no two connections shared a
/// source, none do afterwards.
pub proof fn lemma_merge_keeps_sources_distinct(
    connections: Seq<ConnectionView>,
    src: LocView,
    kind: MsgType,
    flow: FlowView,
)
    requires
        sources_distinct(connections),
    ensures
        sources_distinct(merged_connections(connections, src, kind, flow)),
{
    lemma_connection_index(connections, src, 0);
    let after = merged_connections(connections, src, kind, flow);
    assert forall|i: int, j: int| 0 <= i < j < after.len() implies (#[trigger] after[i]).loc != (
    #[trigger] after[j]).loc by {
        if j < connections.len() {
            assert(after[i].loc == connections[i].loc);
            assert(after[j].loc == connections[j].loc);
        } else {
            assert(after[i].loc == connections[i].loc);
            assert(after[j].loc == src);
        }
    }
}

} // verus!
