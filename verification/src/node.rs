//! The participants of a graph: extensions, subgraphs and selectors.

use vstd::prelude::*;
use crate::kinds::GraphNodeType;
use crate::connection::clone_opt_string;
use crate::text::opt_text;

verus! {

/// How the pattern of a selector is compared with a name.
#[derive(Clone, Copy, Debug, PartialEq, Eq, Structural)]
pub enum FilterOperator {
    /// The name must equal the pattern.
    Exact,
    /// The pattern is a regular expression that must match in the name.
    Regex,
}

/// One pattern over a field of a node. Only the field `name` can be
/// evaluated.
#[derive(Debug, PartialEq, Eq)]
pub struct AtomicFilter {
    pub field: String,
    pub operator: FilterOperator,
    pub value: String,
}

/// A boolean expression over patterns.
#[derive(Debug, PartialEq, Eq)]
pub enum Filter {
    Atomic(AtomicFilter),
    /// Every operand must hold.
    And { and: Vec<Filter> },
    /// At least one operand must hold.
    Or { or: Vec<Filter> },
}

/// The mathematical view of [`Filter`].
pub enum FilterView {
    Atomic { field: Seq<char>, operator: FilterOperator, value: Seq<char> },
    And { and: Seq<FilterView> },
    Or { or: Seq<FilterView> },
}

/// The view of a filter.
pub open spec fn filter_view(f: Filter) -> FilterView
    decreases f, 0nat,
{
    match f {
        Filter::Atomic(a) => FilterView::Atomic {
            field: a.field@,
            operator: a.operator,
            value: a.value@,
        },
        Filter::And { and } => FilterView::And { and: filter_views(and@, and@.len()) },
        Filter::Or { or } => FilterView::Or { or: filter_views(or@, or@.len()) },
    }
}

/// The views of the first `n` filters of `v`.
pub open spec fn filter_views(v: Seq<Filter>, n: nat) -> Seq<FilterView>
    decreases v, n,
{
    if n == 0 || n > v.len() {
        Seq::empty()
    } else {
        filter_views(v, (n - 1) as nat).push(filter_view(v[n - 1]))
    }
}

impl View for Filter {
    type V = FilterView;

    open spec fn view(&self) -> FilterView {
        filter_view(*self)
    }
}

/// The views of the first `n` filters depend on the views of those filters
/// alone.
pub proof fn lemma_filter_views_agree(a: Seq<Filter>, b: Seq<Filter>, n: nat)
    requires
        n <= a.len(),
        n <= b.len(),
        forall|j: int| 0 <= j < n ==> filter_view(a[j]) == filter_view(b[j]),
    ensures
        filter_views(a, n) == filter_views(b, n),
    decreases n,
{
    if n > 0 {
        lemma_filter_views_agree(a, b, (n - 1) as nat);
    }
}

/// The views of the filters of a list are the views of its members, in
/// order.
pub proof fn lemma_filter_views_index(v: Seq<Filter>, n: nat)
    requires
        n <= v.len(),
    ensures
        filter_views(v, n).len() == n,
        forall|j: int| 0 <= j < n ==> (#[trigger] filter_views(v, n)[j]) == filter_view(v[j]),
    decreases n,
{
    if n > 0 {
        lemma_filter_views_index(v, (n - 1) as nat);
    }
}

/// A copy of a list of filters.
pub fn clone_filters(v: &Vec<Filter>) -> (r: Vec<Filter>)
    ensures
        filter_views(r@, r@.len()) == filter_views(v@, v@.len()),
        r@.len() == v@.len(),
    decreases v,
{
    let mut out: Vec<Filter> = Vec::new();
    let mut i: usize = 0;
    while i < v.len()
        invariant
            i <= v.len(),
            out@.len() == i,
            forall|j: int| 0 <= j < i ==> filter_view(out@[j]) == filter_view(v@[j]),
        decreases v.len() - i,
    {
        let copy = v[i].clone();
        out.push(copy);
        i += 1;
    }
    proof {
        lemma_filter_views_agree(out@, v@, v@.len());
    }
    out
}

impl Clone for Filter {
    fn clone(&self) -> (r: Self)
        ensures
            r@ == self@,
        decreases self,
    {
        match self {
            Filter::Atomic(a) => Filter::Atomic(
                AtomicFilter {
                    field: a.field.clone(),
                    operator: a.operator,
                    value: a.value.clone(),
                },
            ),
            Filter::And { and } => Filter::And { and: clone_filters(and) },
            Filter::Or { or } => Filter::Or { or: clone_filters(or) },
        }
    }
}

/// An extension: an addon instance with a name.
#[derive(Debug, PartialEq, Eq)]
pub struct ExtensionNode {
    pub name: String,
    pub addon: String,
    pub extension_group: Option<String>,
    pub app: Option<String>,
    /// The static property payload, as serialized JSON.
    pub property: Option<String>,
}

/// The mathematical view of [`ExtensionNode`].
pub struct ExtensionView {
    pub name: Seq<char>,
    pub addon: Seq<char>,
    pub extension_group: Option<Seq<char>>,
    pub app: Option<Seq<char>>,
    pub property: Option<Seq<char>>,
}

impl View for ExtensionNode {
    type V = ExtensionView;

    open spec fn view(&self) -> ExtensionView {
        ExtensionView {
            name: self.name@,
            addon: self.addon@,
            extension_group: opt_text(self.extension_group),
            app: opt_text(self.app),
            property: opt_text(self.property),
        }
    }
}

impl Clone for ExtensionNode {
    fn clone(&self) -> (r: Self)
        ensures
            r@ == self@,
    {
        ExtensionNode {
            name: self.name.clone(),
            addon: self.addon.clone(),
            extension_group: clone_opt_string(&self.extension_group),
            app: clone_opt_string(&self.app),
            property: clone_opt_string(&self.property),
        }
    }
}

/// Where the document of a subgraph is found.
#[derive(Debug, PartialEq, Eq)]
pub struct GraphResource {
    pub import_uri: String,
}

/// A subgraph: another graph document embedded as one node.
#[derive(Debug, PartialEq, Eq)]
pub struct SubgraphNode {
    pub name: String,
    /// The static property payload, as serialized JSON.
    pub property: Option<String>,
    pub graph: GraphResource,
}

/// The mathematical view of [`SubgraphNode`].
pub struct SubgraphView {
    pub name: Seq<char>,
    pub property: Option<Seq<char>>,
    pub import_uri: Seq<char>,
}

impl View for SubgraphNode {
    type V = SubgraphView;

    open spec fn view(&self) -> SubgraphView {
        SubgraphView {
            name: self.name@,
            property: opt_text(self.property),
            import_uri: self.graph.import_uri@,
        }
    }
}

/// A selector: a named expression that stands for the extensions it matches.
#[derive(Debug, PartialEq, Eq)]
pub struct SelectorNode {
    pub name: String,
    pub filter: Filter,
}

/// The mathematical view of [`SelectorNode`].
pub struct SelectorView {
    pub name: Seq<char>,
    pub filter: FilterView,
}

impl View for SelectorNode {
    type V = SelectorView;

    open spec fn view(&self) -> SelectorView {
        SelectorView { name: self.name@, filter: self.filter@ }
    }
}

impl Clone for SubgraphNode {
    fn clone(&self) -> (r: Self)
        ensures
            r@ == self@,
    {
        SubgraphNode {
            name: self.name.clone(),
            property: clone_opt_string(&self.property),
            graph: GraphResource { import_uri: self.graph.import_uri.clone() },
        }
    }
}

impl Clone for SelectorNode {
    fn clone(&self) -> (r: Self)
        ensures
            r@ == self@,
    {
        SelectorNode { name: self.name.clone(), filter: self.filter.clone() }
    }
}

/// A participant of a graph.
#[derive(Debug, PartialEq, Eq)]
#[allow(inconsistent_fields)]
pub enum GraphNode {
    Extension { content: ExtensionNode },
    Subgraph { content: SubgraphNode },
    Selector { content: SelectorNode },
}

/// The mathematical view of [`GraphNode`].
pub enum NodeView {
    Extension(ExtensionView),
    Subgraph(SubgraphView),
    Selector(SelectorView),
}

impl NodeView {
    /// The name of the node.
    pub open spec fn name(self) -> Seq<char> {
        match self {
            NodeView::Extension(e) => e.name,
            NodeView::Subgraph(s) => s.name,
            NodeView::Selector(s) => s.name,
        }
    }

    /// The kind of the node.
    pub open spec fn node_type(self) -> GraphNodeType {
        match self {
            NodeView::Extension(_) => GraphNodeType::Extension,
            NodeView::Subgraph(_) => GraphNodeType::Subgraph,
            NodeView::Selector(_) => GraphNodeType::Selector,
        }
    }

    /// The application that the node declares; only an extension can.
    pub open spec fn app(self) -> Option<Seq<char>> {
        match self {
            NodeView::Extension(e) => e.app,
            _ => None,
        }
    }
}

impl View for GraphNode {
    type V = NodeView;

    open spec fn view(&self) -> NodeView {
        match *self {
            GraphNode::Extension { content } => NodeView::Extension(content@),
            GraphNode::Subgraph { content } => NodeView::Subgraph(content@),
            GraphNode::Selector { content } => NodeView::Selector(content@),
        }
    }
}

/// The views of a sequence of nodes.
pub open spec fn node_views(v: Seq<GraphNode>) -> Seq<NodeView> {
    Seq::new(v.len(), |i: int| v[i]@)
}

impl Clone for GraphNode {
    fn clone(&self) -> (r: Self)
        ensures
            r@ == self@,
    {
        match self {
            GraphNode::Extension { content } => GraphNode::Extension { content: content.clone() },
            GraphNode::Subgraph { content } => GraphNode::Subgraph { content: content.clone() },
            GraphNode::Selector { content } => GraphNode::Selector { content: content.clone() },
        }
    }
}

/// A copy of a list of nodes.
pub fn clone_nodes(v: &Vec<GraphNode>) -> (r: Vec<GraphNode>)
    ensures
        node_views(r@) == node_views(v@),
{
    let mut out: Vec<GraphNode> = Vec::new();
    let mut i: usize = 0;
    while i < v.len()
        invariant
            i <= v.len(),
            out@.len() == i,
            forall|j: int| 0 <= j < i ==> out@[j]@ == v@[j]@,
        decreases v.len() - i,
    {
        out.push(v[i].clone());
        i += 1;
    }
    assert(node_views(out@) =~= node_views(v@));
    out
}

impl GraphNode {
    /// An extension node with the given fields.
    pub fn new_extension_node(
        name: String,
        addon: String,
        extension_group: Option<String>,
        app: Option<String>,
        property: Option<String>,
    ) -> (r: Self)
        ensures
            r@ == NodeView::Extension(
                ExtensionView {
                    name: name@,
                    addon: addon@,
                    extension_group: opt_text(extension_group),
                    app: opt_text(app),
                    property: opt_text(property),
                },
            ),
    {
        GraphNode::Extension {
            content: ExtensionNode { name, addon, extension_group, app, property },
        }
    }

    /// A subgraph node that imports the document at `import_uri`.
    pub fn new_subgraph_node(name: String, property: Option<String>, import_uri: String) -> (r:
        Self)
        ensures
            r@ == NodeView::Subgraph(
                SubgraphView { name: name@, property: opt_text(property), import_uri: import_uri@ },
            ),
    {
        GraphNode::Subgraph {
            content: SubgraphNode { name, property, graph: GraphResource { import_uri } },
        }
    }

    /// A selector node with the given expression.
    pub fn new_selector_node(name: String, filter: Filter) -> (r: Self)
        ensures
            r@ == NodeView::Selector(SelectorView { name: name@, filter: filter@ }),
    {
        GraphNode::Selector { content: SelectorNode { name, filter } }
    }

    /// The name of the node.
    pub fn get_name(&self) -> (r: &str)
        ensures
            r@ == self@.name(),
    {
        match self {
            GraphNode::Extension { content } => content.name.as_str(),
            GraphNode::Subgraph { content } => content.name.as_str(),
            GraphNode::Selector { content } => content.name.as_str(),
        }
    }

    /// The kind of the node.
    pub fn get_type(&self) -> (r: GraphNodeType)
        ensures
            r == self@.node_type(),
    {
        match self {
            GraphNode::Extension { .. } => GraphNodeType::Extension,
            GraphNode::Subgraph { .. } => GraphNodeType::Subgraph,
            GraphNode::Selector { .. } => GraphNodeType::Selector,
        }
    }

    /// The application that the node declares.
    pub fn get_app_uri(&self) -> (r: &Option<String>)
        ensures
            opt_text(*r) == self@.app(),
    {
        match self {
            GraphNode::Extension { content } => &content.app,
            _ => &None,
        }
    }
}

} // verus!
