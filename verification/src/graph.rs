//! The graph that a forest is turned into: labelled vertices and directed edges, kept in a
//! `daggy::Dag`.
//!
//! Verus does not look inside the `daggy::Dag`. What it holds is named by [`dag_nodes`] and
//! [`dag_edges`], and everything stated here about those two names is taken on trust from
//! the sources of `daggy` and `petgraph`.

use vstd::prelude::*;

verus! {

/// A directed acyclic graph whose vertices carry a label and whose edges carry a text.
///
/// Vertices and edges are only ever added, each behind those that are already there, so
/// that the index of a vertex or an edge never changes. The graph is a `daggy::Dag` with
/// indices as wide as `usize`, so that it takes as many vertices and edges as memory holds.
/// Verus does not look into it: [`dag_nodes`] and [`dag_edges`] name what it holds.
#[verifier::external_body]
pub struct Dag {
    graph: daggy::Dag<String, &'static str, usize>,
}

/// An edge of the model: the vertex it leaves, the vertex it enters, and its text.
pub type Edge = (int, int, Seq<char>);

/// The labels of the vertices of `dag`, by vertex index.
pub uninterp spec fn dag_nodes(dag: Dag) -> Seq<Seq<char>>;

/// The edges of `dag`, by edge index.
pub uninterp spec fn dag_edges(dag: Dag) -> Seq<(int, int, Seq<char>)>;

/// `daggy::Dag::new`: the new graph has no vertex and no edge.
#[verifier::external_body]
pub(crate) fn dag_new() -> (dag: Dag)
    ensures
        dag_nodes(dag) == Seq::<Seq<char>>::empty(),
        dag_edges(dag) == Seq::<Edge>::empty(),
{
    Dag { graph: daggy::Dag::new() }
}

/// `daggy::Dag::add_node`: the vertex is added behind the others and its index returned;
/// the edges stay as they are. With indices as wide as `usize` the call does not panic for
/// want of an index.
#[verifier::external_body]
pub(crate) fn dag_add_node(dag: &mut Dag, label: String) -> (vertex: usize)
    ensures
        vertex == dag_nodes(*old(dag)).len(),
        dag_nodes(*final(dag)) == dag_nodes(*old(dag)).push(label@),
        dag_edges(*final(dag)) == dag_edges(*old(dag)),
{
    dag.graph.add_node(label).index()
}

/// `daggy::Dag::add_child`: the vertex is added behind the others and its index returned;
/// one edge, from `parent` to the new vertex and carrying `text`, is added behind the other
/// edges. The call panics where `parent` is no vertex of the graph, which `requires` leaves
/// out.
#[verifier::external_body]
pub(crate) fn dag_add_child(dag: &mut Dag, parent: usize, text: &'static str, label: String) -> (vertex: usize)
    requires
        parent < dag_nodes(*old(dag)).len(),
    ensures
        vertex == dag_nodes(*old(dag)).len(),
        dag_nodes(*final(dag)) == dag_nodes(*old(dag)).push(label@),
        dag_edges(*final(dag)) == dag_edges(*old(dag)).push(
            (parent as int, vertex as int, text@),
        ),
{
    dag.graph.add_child(daggy::NodeIndex::new(parent), text, label).1.index()
}

/// `daggy::Dag::node_count`: the number of vertices.
#[verifier::external_body]
pub(crate) fn dag_node_count(dag: &Dag) -> (count: usize)
    ensures
        count == dag_nodes(*dag).len(),
{
    dag.graph.node_count()
}

/// `daggy::Dag::edge_count`: the number of edges.
#[verifier::external_body]
pub(crate) fn dag_edge_count(dag: &Dag) -> (count: usize)
    ensures
        count == dag_edges(*dag).len(),
{
    dag.graph.edge_count()
}

/// `daggy::Dag::raw_nodes`, read at one index: a copy of the label of that vertex.
#[verifier::external_body]
pub(crate) fn dag_node_label(dag: &Dag, vertex: usize) -> (label: String)
    requires
        vertex < dag_nodes(*dag).len(),
    ensures
        label@ == dag_nodes(*dag)[vertex as int],
{
    dag.graph.raw_nodes()[vertex].weight.clone()
}

/// `daggy::Dag::raw_edges`, read at one index: the vertex that the edge leaves, the vertex
/// that it enters, and its text.
#[verifier::external_body]
pub(crate) fn dag_edge(dag: &Dag, edge: usize) -> (ends: (usize, usize, &'static str))
    requires
        edge < dag_edges(*dag).len(),
    ensures
        (ends.0 as int, ends.1 as int, ends.2@) == dag_edges(*dag)[edge as int],
{
    let raw = &dag.graph.raw_edges()[edge];
    (raw.source().index(), raw.target().index(), raw.weight)
}

/// What `petgraph::dot::Dot` writes for a graph with these vertex labels and these edges.
pub uninterp spec fn dot_text(nodes: Seq<Seq<char>>, edges: Seq<(int, int, Seq<char>)>) -> Seq<
    char,
>;

/// `petgraph::dot::Dot::new` and its `Display`, through `format!`: the text is a function of
/// the labels and the edges alone, named [`dot_text`]. Nothing more is claimed of it.
#[verifier::external_body]
pub(crate) fn dag_dot(dag: &Dag) -> (text: String)
    ensures
        text@ == dot_text(dag_nodes(*dag), dag_edges(*dag)),
{
    format!("{}", petgraph::dot::Dot::new(&dag.graph))
}

impl Dag {
    /// A graph without vertices and edges.
    pub fn new() -> (dag: Dag)
        ensures
            dag_nodes(dag) == Seq::<Seq<char>>::empty(),
            dag_edges(dag) == Seq::<Edge>::empty(),
    {
        dag_new()
    }

    /// The graph in the DOT language: one statement for each vertex, then one for each edge.
    pub fn to_dot(&self) -> (text: String)
        ensures
            text@ == dot_text(dag_nodes(*self), dag_edges(*self)),
    {
        dag_dot(self)
    }


    /// The number of vertices.
    pub fn node_count(&self) -> (count: usize)
        ensures
            count == dag_nodes(*self).len(),
    {
        dag_node_count(self)
    }

    /// The number of edges.
    pub fn edge_count(&self) -> (count: usize)
        ensures
            count == dag_edges(*self).len(),
    {
        dag_edge_count(self)
    }

    /// The label of the vertex with index `vertex`, if there is such a vertex.
    pub fn label(&self, vertex: usize) -> (label: Option<String>)
        ensures
            match label {
                Some(text) => vertex < dag_nodes(*self).len() && text@ == dag_nodes(
                    *self,
                )[vertex as int],
                None => vertex >= dag_nodes(*self).len(),
            },
    {
        if vertex < dag_node_count(self) {
            Some(dag_node_label(self, vertex))
        } else {
            None
        }
    }

    /// The edge with index `edge`, if there is such an edge: the vertex it leaves, the vertex
    /// it enters, and its text.
    pub fn edge(&self, edge: usize) -> (ends: Option<(usize, usize, &'static str)>)
        ensures
            match ends {
                Some((source, target, text)) => edge < dag_edges(*self).len() && (
                    source as int,
                    target as int,
                    text@,
                ) == dag_edges(*self)[edge as int],
                None => edge >= dag_edges(*self).len(),
            },
    {
        if edge < dag_edge_count(self) {
            Some(dag_edge(self, edge))
        } else {
            None
        }
    }
}

} // verus!
