//! Selectors: named boolean expressions over extension names, and the pass
//! that replaces every reference to a selector by the extensions it selects.

use vstd::prelude::*;
use crate::builder::{
    connection_index, connections_or_empty, dest_present, find_connection, find_flow, flow_index,
    has_dest, lemma_connection_index, lemma_flow_index, sources_distinct,
};
use crate::connection::{
    clone_opt_string, clone_sources, clone_strings, connection_views, dest_views, flow_views,
    flows_or_empty, opt_flow_views, ConnectionView, DestView, FlowView, GraphConnection,
    GraphDestination, GraphLoc, GraphMessageFlow, LocView,
};
use crate::conversion::{clone_opt_rule, opt_rule_view, MsgAndResultConversionView};
use crate::graph::{clone_opt_exposed, clone_opt_exposed_properties, Graph, GraphView};
use crate::node::{
    filter_view, filter_views, lemma_filter_views_index, node_views, Filter, FilterOperator,
    FilterView, GraphNode, NodeView, SelectorNode, SelectorView,
};
use crate::text::str_eq;

verus! {

/// Whether `Regex::new` accepts the pattern.
pub uninterp spec fn regex_compiles(pattern: Seq<char>) -> bool;

/// Whether the regular expression `pattern`, once compiled, has a match
/// somewhere in `text`, as `Regex::is_match` tells.
pub uninterp spec fn regex_matches(pattern: Seq<char>, text: Seq<char>) -> bool;

/// Compiles `pattern` with `Regex::new` and searches `text` with
/// `Regex::is_match`.
///
/// Trusted: whether the pattern compiles depends on the pattern alone, and
/// whether it matches on pattern and text alone.
#[verifier::external_body]
pub(crate) fn regex_is_match(pattern: &str, text: &str) -> (r: Option<bool>)
    ensures
        (r == if regex_compiles(pattern@) {
            Some(regex_matches(pattern@, text@))
        } else {
            None::<bool>
        }),
{
    match regex::Regex::new(pattern) {
        Ok(re) => Some(re.is_match(text)),
        Err(_) => None,
    }
}

/// Why a selector could not be resolved.
#[derive(Debug, PartialEq, Eq)]
pub enum SelectorError {
    /// The graph has no selector node of this name.
    SelectorNotFound { name: String },
    /// A pattern of the selector cannot be evaluated: it is over another
    /// field than `name`, or it is no regular expression.
    InvalidPattern { selector: String },
}

/// The mathematical view of [`SelectorError`].
pub enum SelectorErrorView {
    SelectorNotFound { name: Seq<char> },
    InvalidPattern { selector: Seq<char> },
}

impl View for SelectorError {
    type V = SelectorErrorView;

    open spec fn view(&self) -> SelectorErrorView {
        match *self {
            SelectorError::SelectorNotFound { name } => SelectorErrorView::SelectorNotFound {
                name: name@,
            },
            SelectorError::InvalidPattern { selector } => SelectorErrorView::InvalidPattern {
                selector: selector@,
            },
        }
    }
}

impl SelectorErrorView {
    /// The error in words.
    pub open spec fn message(self) -> Seq<char> {
        match self {
            SelectorErrorView::SelectorNotFound { name } => "Selector node '"@ + name
                + "' not found"@,
            SelectorErrorView::InvalidPattern { selector } => "Selector node '"@ + selector
                + "' has a pattern that cannot be evaluated"@,
        }
    }
}

impl SelectorError {
    /// The error in words.
    pub fn to_string(&self) -> (r: String)
        ensures
            r@ == self@.message(),
    {
        match self {
            SelectorError::SelectorNotFound { name } => {
                let mut text = String::from_str("Selector node '");
                text.append(name.as_str());
                text.append("' not found");
                text
            },
            SelectorError::InvalidPattern { selector } => {
                let mut text = String::from_str("Selector node '");
                text.append(selector.as_str());
                text.append("' has a pattern that cannot be evaluated");
                text
            },
        }
    }
}

/// Whether every pattern of the expression can be evaluated: it must be
/// over the field `name`; an exact pattern then always can, a regular
/// expression must compile.
pub open spec fn filter_valid(f: FilterView) -> bool
    decreases f,
{
    match f {
        FilterView::Atomic { field, operator, value } => field == "name"@ && (operator
            == FilterOperator::Exact || regex_compiles(value)),
        FilterView::And { and } => forall|i: int|
            0 <= i < and.len() ==> filter_valid(#[trigger] and[i]),
        FilterView::Or { or } => forall|i: int| 0 <= i < or.len() ==> filter_valid(#[trigger] or[i]),
    }
}

/// Whether the expression holds of a name: an exact pattern holds of the
/// name equal to it, a regular expression of a name it matches in; a
/// conjunction holds if all its operands do, a disjunction if one does.
pub open spec fn filter_matches(f: FilterView, name: Seq<char>) -> bool
    decreases f,
{
    match f {
        FilterView::Atomic { field, operator, value } => match operator {
            FilterOperator::Exact => name == value,
            FilterOperator::Regex => regex_matches(value, name),
        },
        FilterView::And { and } => forall|i: int|
            0 <= i < and.len() ==> filter_matches(#[trigger] and[i], name),
        FilterView::Or { or } => exists|i: int|
            0 <= i < or.len() && filter_matches(#[trigger] or[i], name),
    }
}

/// The verdict of an expression on a name: nothing if a pattern cannot be
/// evaluated.
pub open spec fn filter_verdict(f: FilterView, name: Seq<char>) -> Option<bool> {
    if filter_valid(f) {
        Some(filter_matches(f, name))
    } else {
        None
    }
}

/// What a pattern settles about a name, given what the regular-expression
/// engine says of pattern and name.
pub open spec fn atomic_verdict(
    field: Seq<char>,
    operator: FilterOperator,
    value: Seq<char>,
    name: Seq<char>,
    engine: Option<bool>,
) -> Option<bool> {
    if field != "name"@ {
        None
    } else {
        match operator {
            FilterOperator::Exact => Some(name == value),
            FilterOperator::Regex => engine,
        }
    }
}

/// Settles a pattern over `field` on a name; `engine` is the answer of the
/// regular-expression engine for pattern and name, which an exact pattern
/// does not need. A pattern over another field than `name` settles nothing.
pub fn settle_atomic(
    field: &str,
    operator: FilterOperator,
    value: &str,
    name: &str,
    engine: Option<bool>,
) -> (r: Option<bool>)
    ensures
        r == atomic_verdict(field@, operator, value@, name@, engine),
{
    if !str_eq(field, "name") {
        return None;
    }
    match operator {
        FilterOperator::Exact => Some(str_eq(name, value)),
        FilterOperator::Regex => engine,
    }
}

/// What a conjunction and a disjunction say is what their operands say.
proof fn lemma_operands_verdict(operands: Seq<FilterView>, name: Seq<char>)
    ensures
        filter_valid(FilterView::And { and: operands }) == forall|j: int|
            0 <= j < operands.len() ==> filter_valid(#[trigger] operands[j]),
        filter_valid(FilterView::Or { or: operands }) == forall|j: int|
            0 <= j < operands.len() ==> filter_valid(#[trigger] operands[j]),
        filter_matches(FilterView::And { and: operands }, name) == forall|j: int|
            0 <= j < operands.len() ==> filter_matches(#[trigger] operands[j], name),
        filter_matches(FilterView::Or { or: operands }, name) == exists|j: int|
            0 <= j < operands.len() && filter_matches(#[trigger] operands[j], name),
{
    reveal_with_fuel(filter_valid, 2);
    reveal_with_fuel(filter_matches, 2);
    let conjunction = FilterView::And { and: operands };
    let disjunction = FilterView::Or { or: operands };
    assert(conjunction->and == operands);
    assert(disjunction->or == operands);
    if forall|j: int| 0 <= j < operands.len() ==> filter_valid(#[trigger] operands[j]) {
        assert(filter_valid(conjunction));
        assert(filter_valid(disjunction));
    } else {
        let j = choose|j: int| 0 <= j < operands.len() && !filter_valid(#[trigger] operands[j]);
        assert(!filter_valid(conjunction->and[j]));
        assert(!filter_valid(disjunction->or[j]));
    }
    if forall|j: int| 0 <= j < operands.len() ==> filter_matches(#[trigger] operands[j], name) {
        assert(filter_matches(conjunction, name));
    } else {
        let j = choose|j: int|
            0 <= j < operands.len() && !filter_matches(#[trigger] operands[j], name);
        assert(!filter_matches(conjunction->and[j], name));
    }
    if exists|j: int| 0 <= j < operands.len() && filter_matches(#[trigger] operands[j], name) {
        let j = choose|j: int|
            0 <= j < operands.len() && filter_matches(#[trigger] operands[j], name);
        assert(filter_matches(disjunction->or[j], name));
    } else {
        assert(!filter_matches(disjunction, name));
    }
}

/// Evaluates the operands of a conjunction (`all`) or a disjunction on a
/// name. Every operand is evaluated, so that a pattern that cannot be
/// evaluated is always found.
fn evaluate_operands(operands: &Vec<Filter>, name: &str, all: bool) -> (r: Option<bool>)
    ensures
        r == filter_verdict(
            if all {
                FilterView::And { and: filter_views(operands@, operands@.len()) }
            } else {
                FilterView::Or { or: filter_views(operands@, operands@.len()) }
            },
            name@,
        ),
    decreases operands,
{
    let ghost views = filter_views(operands@, operands@.len());
    proof {
        lemma_filter_views_index(operands@, operands@.len());
    }
    let mut valid = true;
    let mut every = true;
    let mut some = false;
    let mut i: usize = 0;
    while i < operands.len()
        invariant
            i <= operands.len(),
            views == filter_views(operands@, operands@.len()),
            views.len() == operands@.len(),
            forall|j: int| 0 <= j < views.len() ==> views[j] == filter_view(operands@[j]),
            valid == forall|j: int| 0 <= j < i ==> filter_valid(#[trigger] views[j]),
            valid ==> every == forall|j: int|
                0 <= j < i ==> filter_matches(#[trigger] views[j], name@),
            valid ==> some == exists|j: int|
                0 <= j < i && filter_matches(#[trigger] views[j], name@),
        decreases operands.len() - i,
    {
        match evaluate_filter(&operands[i], name) {
            Some(holds) => {
                if !holds {
                    every = false;
                    assert(!filter_matches(views[i as int], name@));
                } else {
                    some = true;
                    assert(filter_matches(views[i as int], name@));
                }
            },
            None => {
                valid = false;
                assert(!filter_valid(views[i as int]));
            },
        }
        i += 1;
    }
    proof {
        lemma_operands_verdict(views, name@);
    }
    if !valid {
        None
    } else if all {
        Some(every)
    } else {
        Some(some)
    }
}

/// Evaluates a selector expression on a name. The result is nothing if a
/// pattern of the expression cannot be evaluated.
pub fn evaluate_filter(filter: &Filter, name: &str) -> (r: Option<bool>)
    ensures
        r == filter_verdict(filter@, name@),
    decreases filter,
{
    match filter {
        Filter::Atomic(a) => {
            let engine = match a.operator {
                FilterOperator::Exact => None,
                FilterOperator::Regex => regex_is_match(a.value.as_str(), name),
            };
            settle_atomic(a.field.as_str(), a.operator, a.value.as_str(), name, engine)
        },
        Filter::And { and } => evaluate_operands(and, name, true),
        Filter::Or { or } => evaluate_operands(or, name, false),
    }
}

/// The first selector node named `name`, from index `from` on.
pub open spec fn selector_node(nodes: Seq<NodeView>, name: Seq<char>, from: nat) -> Option<
    SelectorView,
>
    decreases nodes.len() - from,
{
    if from >= nodes.len() {
        None
    } else {
        match nodes[from as int] {
            NodeView::Selector(s) => if s.name == name {
                Some(s)
            } else {
                selector_node(nodes, name, from + 1)
            },
            _ => selector_node(nodes, name, from + 1),
        }
    }
}

/// Whether the expression selects the node: it must be an extension, and
/// the expression must hold of its name.
pub open spec fn is_selected(node: NodeView, f: FilterView) -> bool {
    node is Extension && filter_matches(f, node.name())
}

/// The positions, among the first `n` nodes, of the nodes that the
/// expression selects, in increasing order.
pub open spec fn selected_positions(nodes: Seq<NodeView>, f: FilterView, n: nat) -> Seq<int>
    decreases n,
{
    if n == 0 || n > nodes.len() {
        Seq::empty()
    } else {
        let before = selected_positions(nodes, f, (n - 1) as nat);
        if is_selected(nodes[n - 1], f) {
            before.push(n - 1)
        } else {
            before
        }
    }
}

/// The nodes that the expression selects, in the order in which the graph
/// declares them.
pub open spec fn selected(nodes: Seq<NodeView>, f: FilterView) -> Seq<NodeView> {
    Seq::new(
        selected_positions(nodes, f, nodes.len()).len(),
        |k: int| nodes[selected_positions(nodes, f, nodes.len())[k]],
    )
}

impl GraphView {
    /// The nodes that the selector `name` stands for: the extensions of the
    /// graph of whose names its expression holds, in declaration order.
    pub open spec fn nodes_selected_by(self, name: Seq<char>) -> Result<
        Seq<NodeView>,
        SelectorErrorView,
    > {
        match selector_node(self.nodes, name, 0) {
            None => Err(SelectorErrorView::SelectorNotFound { name }),
            Some(s) => if filter_valid(s.filter) {
                Ok(selected(self.nodes, s.filter))
            } else {
                Err(SelectorErrorView::InvalidPattern { selector: name })
            },
        }
    }
}

/// The views of the nodes that a list refers to.
pub open spec fn ref_views(v: Seq<&GraphNode>) -> Seq<NodeView> {
    Seq::new(v.len(), |i: int| v[i]@)
}

/// The view of the outcome of a selection.
pub open spec fn selection(r: Result<Vec<&GraphNode>, SelectorError>) -> Result<
    Seq<NodeView>,
    SelectorErrorView,
> {
    match r {
        Ok(v) => Ok(ref_views(v@)),
        Err(e) => Err(e@),
    }
}

/// Finds the first selector node named `name`.
pub fn find_selector_node<'a>(nodes: &'a Vec<GraphNode>, name: &str) -> (r: Option<
    &'a SelectorNode,
>)
    ensures
        (match r {
            Some(s) => selector_node(node_views(nodes@), name@, 0) == Some(s@),
            None => selector_node(node_views(nodes@), name@, 0).is_none(),
        }),
{
    let ghost views = node_views(nodes@);
    let mut i: usize = 0;
    while i < nodes.len()
        invariant
            i <= nodes.len(),
            views == node_views(nodes@),
            selector_node(views, name@, 0) == selector_node(views, name@, i as nat),
        decreases nodes.len() - i,
    {
        assert(views[i as int] == nodes@[i as int]@);
        match &nodes[i] {
            GraphNode::Selector { content } => {
                if str_eq(content.name.as_str(), name) {
                    return Some(content);
                }
            },
            _ => {},
        }
        i += 1;
    }
    None
}

/// Collects the extensions of whose names the expression holds, in order.
/// The result is nothing if a pattern of the expression cannot be evaluated.
pub fn select_nodes<'a>(nodes: &'a Vec<GraphNode>, filter: &Filter) -> (r: Option<
    Vec<&'a GraphNode>,
>)
    ensures
        (match r {
            Some(v) => filter_valid(filter@) && ref_views(v@) == selected(
                node_views(nodes@),
                filter@,
            ),
            None => !filter_valid(filter@),
        }),
{
    if evaluate_filter(filter, "").is_none() {
        return None;
    }
    let ghost views = node_views(nodes@);
    let mut out: Vec<&'a GraphNode> = Vec::new();
    let mut i: usize = 0;
    while i < nodes.len()
        invariant
            i <= nodes.len(),
            views == node_views(nodes@),
            filter_valid(filter@),
            out@.len() == selected_positions(views, filter@, i as nat).len(),
            forall|k: int|
                0 <= k < out@.len() ==> (#[trigger] out@[k])@ == views[selected_positions(
                    views,
                    filter@,
                    i as nat,
                )[k]],
        decreases nodes.len() - i,
    {
        assert(views[i as int] == nodes@[i as int]@);
        let node = &nodes[i];
        let picked = match node {
            GraphNode::Extension { content } => {
                match evaluate_filter(filter, content.name.as_str()) {
                    Some(holds) => holds,
                    None => false,
                }
            },
            _ => false,
        };
        assert(picked == is_selected(views[i as int], filter@));
        if picked {
            out.push(node);
        }
        i += 1;
    }
    assert(ref_views(out@) =~= selected(views, filter@));
    Some(out)
}

impl Graph {
    /// The nodes that the selector node `selector_name` stands for: the
    /// extensions of the graph of whose names its expression holds, in the
    /// order in which the graph declares them, each once.
    pub fn get_nodes_by_selector_node_name(&self, selector_name: &str) -> (r: Result<
        Vec<&GraphNode>,
        SelectorError,
    >)
        ensures
            selection(r) == self@.nodes_selected_by(selector_name@),
    {
        let selector = match find_selector_node(&self.nodes, selector_name) {
            Some(s) => s,
            None => {
                return Err(SelectorError::SelectorNotFound { name: selector_name.to_owned() });
            },
        };
        match select_nodes(&self.nodes, &selector.filter) {
            Some(v) => Ok(v),
            None => Err(SelectorError::InvalidPattern { selector: selector_name.to_owned() }),
        }
    }
}

/// A selection is ordered, free of repetitions and complete: the selected
/// positions lie in the graph, each holds a selected node, they increase
/// strictly, and no position of a selected node is left out. Since the
/// selection is a function of the nodes and the expression alone, resolving
/// the same selector twice against unchanged nodes gives the same result.
pub proof fn lemma_selection_is_ordered(nodes: Seq<NodeView>, f: FilterView, n: nat)
    requires
        n <= nodes.len(),
    ensures
        forall|k: int|
            0 <= k < selected_positions(nodes, f, n).len() ==> 0 <= (#[trigger] selected_positions(
                nodes,
                f,
                n,
            )[k]) < n && is_selected(nodes[selected_positions(nodes, f, n)[k]], f),
        forall|k1: int, k2: int|
            0 <= k1 < k2 < selected_positions(nodes, f, n).len() ==> (#[trigger] selected_positions(
                nodes,
                f,
                n,
            )[k1]) < (#[trigger] selected_positions(nodes, f, n)[k2]),
        forall|i: int|
            0 <= i < n && is_selected(#[trigger] nodes[i], f) ==> selected_positions(
                nodes,
                f,
                n,
            ).contains(i),
    decreases n,
{
    if n > 0 {
        lemma_selection_is_ordered(nodes, f, (n - 1) as nat);
        let before = selected_positions(nodes, f, (n - 1) as nat);
        let now = selected_positions(nodes, f, n);
        assert forall|i: int| 0 <= i < n && is_selected(#[trigger] nodes[i], f) implies now.contains(
            i,
        ) by {
            if i < n - 1 {
                assert(before.contains(i));
                let k = choose|k: int| 0 <= k < before.len() && before[k] == i;
                assert(now[k] == i);
            } else {
                assert(now[now.len() - 1] == i);
            }
        }
    }
}

/// The location of a node: its name as an extension, on its application.
pub open spec fn node_loc(node: NodeView) -> LocView {
    LocView { app: node.app(), extension: Some(node.name()), subgraph: None, selector: None }
}

/// The locations of nodes, in order.
pub open spec fn node_locs(nodes: Seq<NodeView>) -> Seq<LocView> {
    Seq::new(nodes.len(), |i: int| node_loc(nodes[i]))
}

/// Destinations at the given locations, each with the conversion rule
/// `msg_conversion`.
pub open spec fn dests_at(
    locs: Seq<LocView>,
    msg_conversion: Option<MsgAndResultConversionView>,
) -> Seq<DestView> {
    Seq::new(locs.len(), |i: int| DestView { loc: locs[i], msg_conversion })
}

/// `have` after the destinations of `new` from index `from` on have been
/// taken in, in order: each is added at the end unless a destination with
/// its extension and application is there already.
pub open spec fn absorbed_dests(have: Seq<DestView>, new: Seq<DestView>, from: nat) -> Seq<DestView>
    decreases new.len() - from,
{
    if from >= new.len() {
        have
    } else if has_dest(have, new[from as int]) {
        absorbed_dests(have, new, from + 1)
    } else {
        absorbed_dests(have.push(new[from as int]), new, from + 1)
    }
}

/// The flows after `flow` has been taken in: the first flow of the same
/// naming absorbs its destinations; if there is none, `flow` is added at the
/// end.
pub open spec fn absorbed_flow(flows: Seq<FlowView>, flow: FlowView) -> Seq<FlowView> {
    match flow_index(flows, flow, 0) {
        Some(i) => flows.update(
            i as int,
            FlowView { dest: absorbed_dests(flows[i as int].dest, flow.dest, 0), ..flows[i as int] },
        ),
        None => flows.push(flow),
    }
}

/// The flows after the flows of `new` from index `from` on have been taken
/// in, in order.
pub open spec fn absorbed_flows(flows: Seq<FlowView>, new: Seq<FlowView>, from: nat) -> Seq<FlowView>
    decreases new.len() - from,
{
    if from >= new.len() {
        flows
    } else {
        absorbed_flows(absorbed_flow(flows, new[from as int]), new, from + 1)
    }
}

/// The flows of one kind after those of `new` have been taken in; an absent
/// list of new flows changes nothing.
pub open spec fn absorbed_kind(have: Option<Seq<FlowView>>, new: Option<Seq<FlowView>>) -> Option<
    Seq<FlowView>,
> {
    match new {
        Some(flows) => Some(absorbed_flows(flows_or_empty(have), flows, 0)),
        None => have,
    }
}

/// The connection after the flows of `new` have been taken in, kind by kind.
pub open spec fn absorbed_connection(have: ConnectionView, new: ConnectionView) -> ConnectionView {
    ConnectionView {
        loc: have.loc,
        cmd: absorbed_kind(have.cmd, new.cmd),
        data: absorbed_kind(have.data, new.data),
        audio_frame: absorbed_kind(have.audio_frame, new.audio_frame),
        video_frame: absorbed_kind(have.video_frame, new.video_frame),
    }
}

/// The connections after the flows of `new` have been placed at the source
/// `src`: the first connection from `src` takes them in; if there is none,
/// one is added at the end.
pub open spec fn placed(connections: Seq<ConnectionView>, src: LocView, new: ConnectionView) -> Seq<
    ConnectionView,
> {
    match connection_index(connections, src, 0) {
        Some(i) => connections.update(i as int, absorbed_connection(connections[i as int], new)),
        None => connections.push(absorbed_connection(ConnectionView::bare(src), new)),
    }
}

/// The connections after the flows of `new` have been placed at each of the
/// sources from index `from` on, in order.
pub open spec fn spread(
    connections: Seq<ConnectionView>,
    sources: Seq<LocView>,
    new: ConnectionView,
    from: nat,
) -> Seq<ConnectionView>
    decreases sources.len() - from,
{
    if from >= sources.len() {
        connections
    } else {
        spread(placed(connections, sources[from as int], new), sources, new, from + 1)
    }
}

/// The nodes other than selectors among those from index `from` on, added
/// to `kept` in order.
pub open spec fn concrete_nodes(nodes: Seq<NodeView>, from: nat, kept: Seq<NodeView>) -> Seq<NodeView>
    decreases nodes.len() - from,
{
    if from >= nodes.len() {
        kept
    } else if nodes[from as int] is Selector {
        concrete_nodes(nodes, from + 1, kept)
    } else {
        concrete_nodes(nodes, from + 1, kept.push(nodes[from as int]))
    }
}

impl GraphView {
    /// The locations that a location stands for: a selector stands for the
    /// extensions it selects, anything else for itself.
    pub open spec fn locations_of(self, loc: LocView) -> Result<Seq<LocView>, SelectorErrorView> {
        match loc.selector {
            Some(name) => match self.nodes_selected_by(name) {
                Ok(nodes) => Ok(node_locs(nodes)),
                Err(e) => Err(e),
            },
            None => Ok(seq![loc]),
        }
    }

    /// The destinations from index `from` on, each replaced by what it
    /// stands for and added to `done`; the first selector that cannot be
    /// resolved fails the whole.
    pub open spec fn dests_expanded(
        self,
        dests: Seq<DestView>,
        from: nat,
        done: Seq<DestView>,
    ) -> Result<Seq<DestView>, SelectorErrorView>
        decreases dests.len() - from,
    {
        if from >= dests.len() {
            Ok(done)
        } else {
            match self.locations_of(dests[from as int].loc) {
                Err(e) => Err(e),
                Ok(locs) => self.dests_expanded(
                    dests,
                    from + 1,
                    done + dests_at(locs, dests[from as int].msg_conversion),
                ),
            }
        }
    }

    /// The flows from index `from` on, each with its destinations expanded
    /// and added to `done`.
    pub open spec fn flows_expanded(
        self,
        flows: Seq<FlowView>,
        from: nat,
        done: Seq<FlowView>,
    ) -> Result<Seq<FlowView>, SelectorErrorView>
        decreases flows.len() - from,
    {
        if from >= flows.len() {
            Ok(done)
        } else {
            match self.dests_expanded(flows[from as int].dest, 0, Seq::empty()) {
                Err(e) => Err(e),
                Ok(dest) => self.flows_expanded(
                    flows,
                    from + 1,
                    done.push(FlowView { dest, ..flows[from as int] }),
                ),
            }
        }
    }

    /// An optional list of flows with the destinations of each expanded.
    pub open spec fn kind_expanded(self, flows: Option<Seq<FlowView>>) -> Result<
        Option<Seq<FlowView>>,
        SelectorErrorView,
    > {
        match flows {
            None => Ok(None),
            Some(f) => match self.flows_expanded(f, 0, Seq::empty()) {
                Ok(done) => Ok(Some(done)),
                Err(e) => Err(e),
            },
        }
    }

    /// A connection with the destinations of all its flows expanded; the
    /// kinds are taken in the order command, data, audio frame, video frame.
    pub open spec fn connection_expanded(self, c: ConnectionView) -> Result<
        ConnectionView,
        SelectorErrorView,
    > {
        match self.kind_expanded(c.cmd) {
            Err(e) => Err(e),
            Ok(cmd) => match self.kind_expanded(c.data) {
                Err(e) => Err(e),
                Ok(data) => match self.kind_expanded(c.audio_frame) {
                    Err(e) => Err(e),
                    Ok(audio_frame) => match self.kind_expanded(c.video_frame) {
                        Err(e) => Err(e),
                        Ok(video_frame) => Ok(
                            ConnectionView { loc: c.loc, cmd, data, audio_frame, video_frame },
                        ),
                    },
                },
            },
        }
    }

    /// The connections from index `from` on, flattened into `done`: the
    /// sources that the connection's source stands for are resolved, then
    /// its destinations are expanded, then its flows are placed at each of
    /// the sources.
    pub open spec fn connections_flattened(
        self,
        connections: Seq<ConnectionView>,
        from: nat,
        done: Seq<ConnectionView>,
    ) -> Result<Seq<ConnectionView>, SelectorErrorView>
        decreases connections.len() - from,
    {
        if from >= connections.len() {
            Ok(done)
        } else {
            match self.locations_of(connections[from as int].loc) {
                Err(e) => Err(e),
                Ok(sources) => match self.connection_expanded(connections[from as int]) {
                    Err(e) => Err(e),
                    Ok(expanded) => self.connections_flattened(
                        connections,
                        from + 1,
                        spread(done, sources, expanded, 0),
                    ),
                },
            }
        }
    }

    /// The graph without selectors: the selector nodes are left out, and in
    /// the connections every source and destination that names a selector
    /// is replaced by the extensions that the selector stands for. Flows
    /// that come to the same source under the same naming are merged, their
    /// destinations accumulating without repetition.
    pub open spec fn selectors_expanded(self) -> Result<GraphView, SelectorErrorView> {
        let nodes = concrete_nodes(self.nodes, 0, Seq::empty());
        match self.connections {
            None => Ok(GraphView { nodes, ..self }),
            Some(c) => match self.connections_flattened(c, 0, Seq::empty()) {
                Err(e) => Err(e),
                Ok(flat) => Ok(GraphView { nodes, connections: Some(flat), ..self }),
            },
        }
    }
}

/// The views of a sequence of locations.
pub open spec fn loc_views(v: Seq<GraphLoc>) -> Seq<LocView> {
    Seq::new(v.len(), |i: int| v[i]@)
}

/// The view of the outcome of an expansion of destinations.
pub open spec fn expanded_dests(r: Result<Vec<GraphDestination>, SelectorError>) -> Result<
    Seq<DestView>,
    SelectorErrorView,
> {
    match r {
        Ok(v) => Ok(dest_views(v@)),
        Err(e) => Err(e@),
    }
}

/// The view of the outcome of an expansion of locations.
pub open spec fn expanded_locs(r: Result<Vec<GraphLoc>, SelectorError>) -> Result<
    Seq<LocView>,
    SelectorErrorView,
> {
    match r {
        Ok(v) => Ok(loc_views(v@)),
        Err(e) => Err(e@),
    }
}

/// The view of the outcome of an expansion of flows.
pub open spec fn expanded_flows(r: Result<Vec<GraphMessageFlow>, SelectorError>) -> Result<
    Seq<FlowView>,
    SelectorErrorView,
> {
    match r {
        Ok(v) => Ok(flow_views(v@)),
        Err(e) => Err(e@),
    }
}

/// The view of the outcome of an expansion of an optional list of flows.
pub open spec fn expanded_kind(r: Result<Option<Vec<GraphMessageFlow>>, SelectorError>) -> Result<
    Option<Seq<FlowView>>,
    SelectorErrorView,
> {
    match r {
        Ok(o) => Ok(opt_flow_views(o)),
        Err(e) => Err(e@),
    }
}

/// The view of the outcome of an expansion of a connection.
pub open spec fn expanded_connection(r: Result<GraphConnection, SelectorError>) -> Result<
    ConnectionView,
    SelectorErrorView,
> {
    match r {
        Ok(c) => Ok(c@),
        Err(e) => Err(e@),
    }
}

/// The view of the outcome of a pass over a graph.
pub open spec fn flattened(r: Result<Graph, SelectorError>) -> Result<GraphView, SelectorErrorView> {
    match r {
        Ok(g) => Ok(g@),
        Err(e) => Err(e@),
    }
}

/// The location of a node: its name as an extension, on its application.
pub fn location_of_node(node: &GraphNode) -> (r: GraphLoc)
    ensures
        r@ == node_loc(node@),
{
    GraphLoc {
        app: clone_opt_string(node.get_app_uri()),
        extension: Some(node.get_name().to_owned()),
        subgraph: None,
        selector: None,
    }
}

/// Resolves a location to the locations it stands for.
pub fn expand_location(graph: &Graph, loc: &GraphLoc) -> (r: Result<Vec<GraphLoc>, SelectorError>)
    ensures
        expanded_locs(r) == graph@.locations_of(loc@),
{
    let mut out: Vec<GraphLoc> = Vec::new();
    match &loc.selector {
        Some(name) => {
            let nodes = match graph.get_nodes_by_selector_node_name(name.as_str()) {
                Ok(n) => n,
                Err(e) => { return Err(e); },
            };
            let ghost views = ref_views(nodes@);
            let mut i: usize = 0;
            while i < nodes.len()
                invariant
                    i <= nodes.len(),
                    views == ref_views(nodes@),
                    out@.len() == i,
                    forall|j: int| 0 <= j < i ==> (#[trigger] out@[j])@ == node_loc(views[j]),
                decreases nodes.len() - i,
            {
                assert(views[i as int] == nodes@[i as int]@);
                out.push(location_of_node(nodes[i]));
                i += 1;
            }
            assert(loc_views(out@) =~= node_locs(views));
        },
        None => {
            out.push(loc.clone());
            assert(loc_views(out@) =~= seq![loc@]);
        },
    }
    Ok(out)
}

/// Replaces every destination by the destinations it stands for.
pub fn expand_destinations(graph: &Graph, dests: &Vec<GraphDestination>) -> (r: Result<
    Vec<GraphDestination>,
    SelectorError,
>)
    ensures
        expanded_dests(r) == graph@.dests_expanded(dest_views(dests@), 0, Seq::empty()),
{
    let ghost views = dest_views(dests@);
    let mut out: Vec<GraphDestination> = Vec::new();
    assert(dest_views(out@) =~= Seq::empty());
    let mut i: usize = 0;
    while i < dests.len()
        invariant
            i <= dests.len(),
            views == dest_views(dests@),
            graph@.dests_expanded(views, 0, Seq::empty()) == graph@.dests_expanded(
                views,
                i as nat,
                dest_views(out@),
            ),
        decreases dests.len() - i,
    {
        assert(views[i as int] == dests@[i as int]@);
        let locs = match expand_location(graph, &dests[i].loc) {
            Ok(l) => l,
            Err(e) => { return Err(e); },
        };
        let ghost before = dest_views(out@);
        let ghost targets = loc_views(locs@);
        let ghost rule = views[i as int].msg_conversion;
        let mut k: usize = 0;
        while k < locs.len()
            invariant
                k <= locs.len(),
                targets == loc_views(locs@),
                rule == opt_rule_view(dests@[i as int].msg_conversion),
                i < dests.len(),
                dest_views(out@) == before + dests_at(targets, rule).take(k as int),
            decreases locs.len() - k,
        {
            assert(targets[k as int] == locs@[k as int]@);
            let ghost so_far = dest_views(out@);
            let d = GraphDestination {
                loc: locs[k].clone(),
                msg_conversion: clone_opt_rule(&dests[i].msg_conversion),
            };
            out.push(d);
            assert(dest_views(out@) =~= so_far.push(d@));
            assert(dests_at(targets, rule).take(k + 1) =~= dests_at(targets, rule).take(
                k as int,
            ).push(d@));
            assert(before + dests_at(targets, rule).take(k as int).push(d@) =~= (before
                + dests_at(targets, rule).take(k as int)).push(d@));
            k += 1;
        }
        assert(dests_at(targets, rule).take(locs.len() as int) =~= dests_at(targets, rule));
        i += 1;
    }
    Ok(out)
}

/// Expands the destinations of every flow.
pub fn expand_flows(graph: &Graph, flows: &Vec<GraphMessageFlow>) -> (r: Result<
    Vec<GraphMessageFlow>,
    SelectorError,
>)
    ensures
        expanded_flows(r) == graph@.flows_expanded(flow_views(flows@), 0, Seq::empty()),
{
    let ghost views = flow_views(flows@);
    let mut out: Vec<GraphMessageFlow> = Vec::new();
    assert(flow_views(out@) =~= Seq::empty());
    let mut i: usize = 0;
    while i < flows.len()
        invariant
            i <= flows.len(),
            views == flow_views(flows@),
            graph@.flows_expanded(views, 0, Seq::empty()) == graph@.flows_expanded(
                views,
                i as nat,
                flow_views(out@),
            ),
        decreases flows.len() - i,
    {
        assert(views[i as int] == flows@[i as int]@);
        let dest = match expand_destinations(graph, &flows[i].dest) {
            Ok(d) => d,
            Err(e) => { return Err(e); },
        };
        let names = match &flows[i].names {
            Some(n) => Some(clone_strings(n)),
            None => None,
        };
        let flow = GraphMessageFlow {
            name: clone_opt_string(&flows[i].name),
            names,
            dest,
            source: clone_sources(&flows[i].source),
        };
        let ghost before = flow_views(out@);
        out.push(flow);
        assert(flow_views(out@) =~= before.push(flow@));
        i += 1;
    }
    Ok(out)
}

/// Expands the destinations of every flow of an optional list.
pub fn expand_kind(graph: &Graph, flows: &Option<Vec<GraphMessageFlow>>) -> (r: Result<
    Option<Vec<GraphMessageFlow>>,
    SelectorError,
>)
    ensures
        expanded_kind(r) == graph@.kind_expanded(opt_flow_views(*flows)),
{
    match flows {
        None => Ok(None),
        Some(f) => match expand_flows(graph, f) {
            Ok(done) => Ok(Some(done)),
            Err(e) => Err(e),
        },
    }
}

/// Expands the destinations of all flows of a connection.
pub fn expand_connection(graph: &Graph, connection: &GraphConnection) -> (r: Result<
    GraphConnection,
    SelectorError,
>)
    ensures
        expanded_connection(r) == graph@.connection_expanded(connection@),
{
    let cmd = match expand_kind(graph, &connection.cmd) {
        Ok(f) => f,
        Err(e) => { return Err(e); },
    };
    let data = match expand_kind(graph, &connection.data) {
        Ok(f) => f,
        Err(e) => { return Err(e); },
    };
    let audio_frame = match expand_kind(graph, &connection.audio_frame) {
        Ok(f) => f,
        Err(e) => { return Err(e); },
    };
    let video_frame = match expand_kind(graph, &connection.video_frame) {
        Ok(f) => f,
        Err(e) => { return Err(e); },
    };
    Ok(GraphConnection { loc: connection.loc.clone(), cmd, data, audio_frame, video_frame })
}

/// Takes destinations in: each is added at the end unless a destination
/// with its extension and application is there already.
pub fn absorb_destinations(have: &mut Vec<GraphDestination>, new: &Vec<GraphDestination>)
    ensures
        dest_views(final(have)@) == absorbed_dests(dest_views(old(have)@), dest_views(new@), 0),
{
    let ghost incoming = dest_views(new@);
    let mut i: usize = 0;
    while i < new.len()
        invariant
            i <= new.len(),
            incoming == dest_views(new@),
            absorbed_dests(dest_views(old(have)@), incoming, 0) == absorbed_dests(
                dest_views(have@),
                incoming,
                i as nat,
            ),
        decreases new.len() - i,
    {
        assert(incoming[i as int] == new@[i as int]@);
        if !dest_present(have, &new[i]) {
            let ghost before = dest_views(have@);
            let d = new[i].clone();
            have.push(d);
            assert(dest_views(have@) =~= before.push(d@));
        }
        i += 1;
    }
}

/// Takes a flow in: the first flow of the same naming absorbs its
/// destinations; if there is none, a copy of the flow is added at the end.
pub fn absorb_flow(flows: &mut Vec<GraphMessageFlow>, flow: &GraphMessageFlow)
    ensures
        flow_views(final(flows)@) == absorbed_flow(flow_views(old(flows)@), flow@),
{
    let ghost before = flow_views(flows@);
    match find_flow(flows, flow) {
        Some(i) => {
            assert(before[i as int] == flows@[i as int]@);
            let ghost target = before[i as int];
            absorb_destinations(&mut flows[i].dest, &flow.dest);
            assert(flow_views(flows@) =~= before.update(
                i as int,
                FlowView { dest: absorbed_dests(target.dest, flow@.dest, 0), ..target },
            ));
        },
        None => {
            let copy = flow.clone();
            flows.push(copy);
            assert(flow_views(flows@) =~= before.push(flow@));
        },
    }
}

/// Takes the flows of one kind in; an absent list of new flows changes
/// nothing.
pub fn absorb_kind(have: &mut Option<Vec<GraphMessageFlow>>, new: &Option<Vec<GraphMessageFlow>>)
    ensures
        opt_flow_views(*final(have)) == absorbed_kind(
            opt_flow_views(*old(have)),
            opt_flow_views(*new),
        ),
{
    let incoming = match new {
        Some(f) => f,
        None => { return ; },
    };
    let mut flows = match have.take() {
        Some(v) => v,
        None => Vec::new(),
    };
    assert(flow_views(flows@) =~= flows_or_empty(opt_flow_views(*old(have))));
    let ghost start = flow_views(flows@);
    let ghost views = flow_views(incoming@);
    let mut i: usize = 0;
    while i < incoming.len()
        invariant
            i <= incoming.len(),
            views == flow_views(incoming@),
            absorbed_flows(start, views, 0) == absorbed_flows(flow_views(flows@), views, i as nat),
        decreases incoming.len() - i,
    {
        assert(views[i as int] == incoming@[i as int]@);
        absorb_flow(&mut flows, &incoming[i]);
        i += 1;
    }
    *have = Some(flows);
}

/// Takes the flows of a connection in, kind by kind.
pub fn absorb_connection(have: &mut GraphConnection, new: &GraphConnection)
    ensures
        final(have)@ == absorbed_connection(old(have)@, new@),
{
    absorb_kind(&mut have.cmd, &new.cmd);
    absorb_kind(&mut have.data, &new.data);
    absorb_kind(&mut have.audio_frame, &new.audio_frame);
    absorb_kind(&mut have.video_frame, &new.video_frame);
}

/// Places the flows of `new` at the source `src`: the first connection from
/// `src` takes them in; if there is none, one is added at the end.
pub fn place_connection(connections: &mut Vec<GraphConnection>, src: GraphLoc, new: &GraphConnection)
    ensures
        connection_views(final(connections)@) == placed(
            connection_views(old(connections)@),
            src@,
            new@,
        ),
{
    let ghost before = connection_views(connections@);
    match find_connection(connections, &src) {
        Some(i) => {
            assert(before[i as int] == connections@[i as int]@);
            absorb_connection(&mut connections[i], new);
            assert(connection_views(connections@) =~= before.update(
                i as int,
                absorbed_connection(before[i as int], new@),
            ));
        },
        None => {
            let mut fresh = GraphConnection::new(src);
            absorb_connection(&mut fresh, new);
            connections.push(fresh);
            assert(connection_views(connections@) =~= before.push(fresh@));
        },
    }
}

/// Keeps the nodes other than selectors.
pub fn concrete_nodes_of(nodes: &Vec<GraphNode>) -> (r: Vec<GraphNode>)
    ensures
        node_views(r@) == concrete_nodes(node_views(nodes@), 0, Seq::empty()),
{
    let ghost views = node_views(nodes@);
    let mut out: Vec<GraphNode> = Vec::new();
    assert(node_views(out@) =~= Seq::empty());
    let mut i: usize = 0;
    while i < nodes.len()
        invariant
            i <= nodes.len(),
            views == node_views(nodes@),
            concrete_nodes(views, 0, Seq::empty()) == concrete_nodes(
                views,
                i as nat,
                node_views(out@),
            ),
        decreases nodes.len() - i,
    {
        assert(views[i as int] == nodes@[i as int]@);
        match &nodes[i] {
            GraphNode::Selector { .. } => {},
            _ => {
                let ghost before = node_views(out@);
                let copy = nodes[i].clone();
                out.push(copy);
                assert(node_views(out@) =~= before.push(copy@));
            },
        }
        i += 1;
    }
    out
}

impl Graph {
    /// Expands the selectors of the graph into a new graph without them.
    ///
    /// The selector nodes are left out. Every connection whose source names
    /// a selector is replaced by one connection for each extension that the
    /// selector stands for, and every destination that names a selector by
    /// one destination for each such extension, in the order in which the
    /// graph declares them. Flows that come to the same source under the
    /// same naming are merged into one, whose destinations accumulate
    /// without repetition. A selector that the graph does not define fails
    /// the pass. This graph itself is never changed.
    pub fn flatten_selectors(&self) -> (r: Result<Graph, SelectorError>)
        ensures
            flattened(r) == self@.selectors_expanded(),
    {
        let nodes = concrete_nodes_of(&self.nodes);
        let exposed_messages = clone_opt_exposed(&self.exposed_messages);
        let exposed_properties = clone_opt_exposed_properties(&self.exposed_properties);
        let connections = match &self.connections {
            None => {
                return Ok(Graph { nodes, connections: None, exposed_messages, exposed_properties });
            },
            Some(c) => c,
        };
        let ghost views = connection_views(connections@);
        let mut done: Vec<GraphConnection> = Vec::new();
        assert(connection_views(done@) =~= Seq::empty());
        let mut i: usize = 0;
        while i < connections.len()
            invariant
                i <= connections.len(),
                views == connection_views(connections@),
                self@.connections == Some(views),
                self@.connections_flattened(views, 0, Seq::empty())
                    == self@.connections_flattened(views, i as nat, connection_views(done@)),
            decreases connections.len() - i,
        {
            assert(views[i as int] == connections@[i as int]@);
            let sources = match expand_location(self, &connections[i].loc) {
                Ok(s) => s,
                Err(e) => { return Err(e); },
            };
            let expanded = match expand_connection(self, &connections[i]) {
                Ok(c) => c,
                Err(e) => { return Err(e); },
            };
            let ghost start = connection_views(done@);
            let ghost locs = loc_views(sources@);
            let mut k: usize = 0;
            while k < sources.len()
                invariant
                    k <= sources.len(),
                    locs == loc_views(sources@),
                    spread(start, locs, expanded@, 0) == spread(
                        connection_views(done@),
                        locs,
                        expanded@,
                        k as nat,
                    ),
                decreases sources.len() - k,
            {
                assert(locs[k as int] == sources@[k as int]@);
                place_connection(&mut done, sources[k].clone(), &expanded);
                k += 1;
            }
            i += 1;
        }
        Ok(Graph { nodes, connections: Some(done), exposed_messages, exposed_properties })
    }
}

/// Whether no destination names a selector.
pub open spec fn no_selector_dests(dests: Seq<DestView>) -> bool {
    forall|k: int| 0 <= k < dests.len() ==> (#[trigger] dests[k]).loc.selector is None
}

/// Whether no destination of any flow names a selector.
pub open spec fn no_selector_flows(flows: Seq<FlowView>) -> bool {
    forall|j: int| 0 <= j < flows.len() ==> no_selector_dests((#[trigger] flows[j]).dest)
}

/// Whether no destination of any flow of the connection names a selector.
pub open spec fn concrete_flows(c: ConnectionView) -> bool {
    &&& no_selector_flows(flows_or_empty(c.cmd))
    &&& no_selector_flows(flows_or_empty(c.data))
    &&& no_selector_flows(flows_or_empty(c.audio_frame))
    &&& no_selector_flows(flows_or_empty(c.video_frame))
}

/// Whether neither the source nor any destination of the connection names a
/// selector.
pub open spec fn concrete_connection(c: ConnectionView) -> bool {
    c.loc.selector is None && concrete_flows(c)
}

/// Whether no connection names a selector anywhere.
pub open spec fn concrete_connections(connections: Seq<ConnectionView>) -> bool {
    forall|i: int| 0 <= i < connections.len() ==> concrete_connection(#[trigger] connections[i])
}

proof fn lemma_locations_are_concrete(g: GraphView, loc: LocView)
    ensures
        g.locations_of(loc) matches Ok(locs) ==> forall|i: int|
            0 <= i < locs.len() ==> (#[trigger] locs[i]).selector is None,
{
}

proof fn lemma_dests_expanded_concrete(
    g: GraphView,
    dests: Seq<DestView>,
    from: nat,
    done: Seq<DestView>,
)
    requires
        no_selector_dests(done),
    ensures
        g.dests_expanded(dests, from, done) matches Ok(r) ==> no_selector_dests(r),
    decreases dests.len() - from,
{
    if from < dests.len() {
        lemma_locations_are_concrete(g, dests[from as int].loc);
        if let Ok(locs) = g.locations_of(dests[from as int].loc) {
            let added = dests_at(locs, dests[from as int].msg_conversion);
            let next = done + added;
            assert forall|k: int| 0 <= k < next.len() implies (#[trigger] next[k]).loc.selector
                is None by {
                if k < done.len() {
                    assert(next[k] == done[k]);
                } else {
                    assert(next[k] == added[k - done.len()]);
                    assert(added[k - done.len()].loc == locs[k - done.len()]);
                }
            }
            lemma_dests_expanded_concrete(g, dests, from + 1, next);
        }
    }
}

proof fn lemma_flows_expanded_concrete(
    g: GraphView,
    flows: Seq<FlowView>,
    from: nat,
    done: Seq<FlowView>,
)
    requires
        no_selector_flows(done),
    ensures
        g.flows_expanded(flows, from, done) matches Ok(r) ==> no_selector_flows(r),
    decreases flows.len() - from,
{
    if from < flows.len() {
        let none = Seq::<DestView>::empty();
        lemma_dests_expanded_concrete(g, flows[from as int].dest, 0, none);
        if let Ok(dest) = g.dests_expanded(flows[from as int].dest, 0, none) {
            let flow = FlowView { dest, ..flows[from as int] };
            let next = done.push(flow);
            assert forall|j: int| 0 <= j < next.len() implies no_selector_dests(
                (#[trigger] next[j]).dest,
            ) by {
                if j < done.len() {
                    assert(next[j] == done[j]);
                }
            }
            lemma_flows_expanded_concrete(g, flows, from + 1, next);
        }
    }
}

proof fn lemma_kind_expanded_concrete(g: GraphView, flows: Option<Seq<FlowView>>)
    ensures
        g.kind_expanded(flows) matches Ok(r) ==> no_selector_flows(flows_or_empty(r)),
{
    if let Some(f) = flows {
        lemma_flows_expanded_concrete(g, f, 0, Seq::empty());
    }
}

proof fn lemma_connection_expanded_concrete(g: GraphView, c: ConnectionView)
    ensures
        g.connection_expanded(c) matches Ok(e) ==> concrete_flows(e),
{
    lemma_kind_expanded_concrete(g, c.cmd);
    lemma_kind_expanded_concrete(g, c.data);
    lemma_kind_expanded_concrete(g, c.audio_frame);
    lemma_kind_expanded_concrete(g, c.video_frame);
}

proof fn lemma_absorbed_dests_concrete(have: Seq<DestView>, new: Seq<DestView>, from: nat)
    requires
        no_selector_dests(have),
        no_selector_dests(new),
    ensures
        no_selector_dests(absorbed_dests(have, new, from)),
    decreases new.len() - from,
{
    if from < new.len() {
        if has_dest(have, new[from as int]) {
            lemma_absorbed_dests_concrete(have, new, from + 1);
        } else {
            let next = have.push(new[from as int]);
            assert forall|k: int| 0 <= k < next.len() implies (#[trigger] next[k]).loc.selector
                is None by {
                if k < have.len() {
                    assert(next[k] == have[k]);
                }
            }
            lemma_absorbed_dests_concrete(next, new, from + 1);
        }
    }
}

proof fn lemma_absorbed_flow_concrete(flows: Seq<FlowView>, flow: FlowView)
    requires
        no_selector_flows(flows),
        no_selector_dests(flow.dest),
    ensures
        no_selector_flows(absorbed_flow(flows, flow)),
{
    lemma_flow_index(flows, flow, 0);
    let after = absorbed_flow(flows, flow);
    match flow_index(flows, flow, 0) {
        Some(i) => {
            lemma_absorbed_dests_concrete(flows[i as int].dest, flow.dest, 0);
            assert forall|j: int| 0 <= j < after.len() implies no_selector_dests(
                (#[trigger] after[j]).dest,
            ) by {
                if j != i {
                    assert(after[j] == flows[j]);
                }
            }
        },
        None => {
            assert forall|j: int| 0 <= j < after.len() implies no_selector_dests(
                (#[trigger] after[j]).dest,
            ) by {
                if j < flows.len() {
                    assert(after[j] == flows[j]);
                }
            }
        },
    }
}

proof fn lemma_absorbed_flows_concrete(flows: Seq<FlowView>, new: Seq<FlowView>, from: nat)
    requires
        no_selector_flows(flows),
        no_selector_flows(new),
    ensures
        no_selector_flows(absorbed_flows(flows, new, from)),
    decreases new.len() - from,
{
    if from < new.len() {
        assert(no_selector_dests(new[from as int].dest));
        lemma_absorbed_flow_concrete(flows, new[from as int]);
        lemma_absorbed_flows_concrete(absorbed_flow(flows, new[from as int]), new, from + 1);
    }
}

proof fn lemma_absorbed_kind_concrete(have: Option<Seq<FlowView>>, new: Option<Seq<FlowView>>)
    requires
        no_selector_flows(flows_or_empty(have)),
        no_selector_flows(flows_or_empty(new)),
    ensures
        no_selector_flows(flows_or_empty(absorbed_kind(have, new))),
{
    if let Some(f) = new {
        lemma_absorbed_flows_concrete(flows_or_empty(have), f, 0);
    }
}

proof fn lemma_absorbed_connection_concrete(have: ConnectionView, new: ConnectionView)
    requires
        concrete_connection(have),
        concrete_flows(new),
    ensures
        concrete_connection(absorbed_connection(have, new)),
{
    lemma_absorbed_kind_concrete(have.cmd, new.cmd);
    lemma_absorbed_kind_concrete(have.data, new.data);
    lemma_absorbed_kind_concrete(have.audio_frame, new.audio_frame);
    lemma_absorbed_kind_concrete(have.video_frame, new.video_frame);
}

proof fn lemma_placed_concrete(connections: Seq<ConnectionView>, src: LocView, new: ConnectionView)
    requires
        concrete_connections(connections),
        src.selector is None,
        concrete_flows(new),
    ensures
        concrete_connections(placed(connections, src, new)),
{
    lemma_connection_index(connections, src, 0);
    let after = placed(connections, src, new);
    match connection_index(connections, src, 0) {
        Some(i) => {
            lemma_absorbed_connection_concrete(connections[i as int], new);
            assert forall|j: int| 0 <= j < after.len() implies concrete_connection(
                #[trigger] after[j],
            ) by {
                if j != i {
                    assert(after[j] == connections[j]);
                }
            }
        },
        None => {
            let bare = ConnectionView::bare(src);
            assert(flows_or_empty(bare.cmd) =~= Seq::empty());
            assert(flows_or_empty(bare.data) =~= Seq::empty());
            assert(flows_or_empty(bare.audio_frame) =~= Seq::empty());
            assert(flows_or_empty(bare.video_frame) =~= Seq::empty());
            lemma_absorbed_connection_concrete(bare, new);
            assert forall|j: int| 0 <= j < after.len() implies concrete_connection(
                #[trigger] after[j],
            ) by {
                if j < connections.len() {
                    assert(after[j] == connections[j]);
                }
            }
        },
    }
}

proof fn lemma_spread_concrete(
    connections: Seq<ConnectionView>,
    sources: Seq<LocView>,
    new: ConnectionView,
    from: nat,
)
    requires
        concrete_connections(connections),
        forall|i: int| 0 <= i < sources.len() ==> (#[trigger] sources[i]).selector is None,
        concrete_flows(new),
    ensures
        concrete_connections(spread(connections, sources, new, from)),
    decreases sources.len() - from,
{
    if from < sources.len() {
        lemma_placed_concrete(connections, sources[from as int], new);
        lemma_spread_concrete(placed(connections, sources[from as int], new), sources, new, from + 1);
    }
}

proof fn lemma_flattened_concrete(
    g: GraphView,
    connections: Seq<ConnectionView>,
    from: nat,
    done: Seq<ConnectionView>,
)
    requires
        concrete_connections(done),
    ensures
        g.connections_flattened(connections, from, done) matches Ok(r) ==> concrete_connections(r),
    decreases connections.len() - from,
{
    if from < connections.len() {
        let c = connections[from as int];
        lemma_locations_are_concrete(g, c.loc);
        lemma_connection_expanded_concrete(g, c);
        if let Ok(sources) = g.locations_of(c.loc) {
            if let Ok(expanded) = g.connection_expanded(c) {
                lemma_spread_concrete(done, sources, expanded, 0);
                lemma_flattened_concrete(
                    g,
                    connections,
                    from + 1,
                    spread(done, sources, expanded, 0),
                );
            }
        }
    }
}

proof fn lemma_concrete_nodes(nodes: Seq<NodeView>, from: nat, kept: Seq<NodeView>)
    requires
        forall|i: int| 0 <= i < kept.len() ==> !((#[trigger] kept[i]) is Selector),
    ensures
        forall|i: int|
            0 <= i < concrete_nodes(nodes, from, kept).len() ==> !((#[trigger] concrete_nodes(
                nodes,
                from,
                kept,
            )[i]) is Selector),
    decreases nodes.len() - from,
{
    if from < nodes.len() {
        if nodes[from as int] is Selector {
            lemma_concrete_nodes(nodes, from + 1, kept);
        } else {
            let next = kept.push(nodes[from as int]);
            assert forall|i: int| 0 <= i < next.len() implies !((#[trigger] next[i]) is Selector) by {
                if i < kept.len() {
                    assert(next[i] == kept[i]);
                }
            }
            lemma_concrete_nodes(nodes, from + 1, next);
        }
    }
}

/// A graph whose selectors have been expanded holds no selector: none among
/// its nodes, none as the source of a connection, none as a destination.
/// What the graph exposes is unchanged.
pub proof fn lemma_expansion_leaves_no_selector(g: GraphView)
    ensures
        (g.selectors_expanded() matches Ok(flat) ==> {
            &&& forall|i: int| 0 <= i < flat.nodes.len() ==> !((#[trigger] flat.nodes[i]) is Selector)
            &&& concrete_connections(connections_or_empty(flat.connections))
            &&& flat.exposed_messages == g.exposed_messages
            &&& flat.exposed_properties == g.exposed_properties
        }),
{
    lemma_concrete_nodes(g.nodes, 0, Seq::empty());
    if let Some(c) = g.connections {
        lemma_flattened_concrete(g, c, 0, Seq::empty());
    }
}

proof fn lemma_placed_keeps_sources_distinct(
    connections: Seq<ConnectionView>,
    src: LocView,
    new: ConnectionView,
)
    requires
        sources_distinct(connections),
    ensures
        sources_distinct(placed(connections, src, new)),
{
    lemma_connection_index(connections, src, 0);
    let after = placed(connections, src, new);
    assert forall|i: int, j: int| 0 <= i < j < after.len() implies (#[trigger] after[i]).loc != (
    #[trigger] after[j]).loc by {
        assert(after[i].loc == connections[i].loc);
        if j < connections.len() {
            assert(after[j].loc == connections[j].loc);
        } else {
            assert(after[j].loc == src);
        }
    }
}

proof fn lemma_spread_keeps_sources_distinct(
    connections: Seq<ConnectionView>,
    sources: Seq<LocView>,
    new: ConnectionView,
    from: nat,
)
    requires
        sources_distinct(connections),
    ensures
        sources_distinct(spread(connections, sources, new, from)),
    decreases sources.len() - from,
{
    if from < sources.len() {
        lemma_placed_keeps_sources_distinct(connections, sources[from as int], new);
        lemma_spread_keeps_sources_distinct(
            placed(connections, sources[from as int], new),
            sources,
            new,
            from + 1,
        );
    }
}

proof fn lemma_flattened_sources_distinct(
    g: GraphView,
    connections: Seq<ConnectionView>,
    from: nat,
    done: Seq<ConnectionView>,
)
    requires
        sources_distinct(done),
    ensures
        g.connections_flattened(connections, from, done) matches Ok(r) ==> sources_distinct(r),
    decreases connections.len() - from,
{
    if from < connections.len() {
        let c = connections[from as int];
        if let Ok(sources) = g.locations_of(c.loc) {
            if let Ok(expanded) = g.connection_expanded(c) {
                lemma_spread_keeps_sources_distinct(done, sources, expanded, 0);
                lemma_flattened_sources_distinct(
                    g,
                    connections,
                    from + 1,
                    spread(done, sources, expanded, 0),
                );
            }
        }
    }
}

/// A graph whose selectors have been expanded has at most one connection
/// for each source.
pub proof fn lemma_expansion_gives_one_connection_per_source(g: GraphView)
    ensures
        g.selectors_expanded() matches Ok(flat) ==> sources_distinct(
            connections_or_empty(flat.connections),
        ),
{
    if let Some(c) = g.connections {
        lemma_flattened_sources_distinct(g, c, 0, Seq::empty());
    }
}

} // verus!
