//! From a forest to a graph: one vertex for each node, one edge from each parent to each of
//! its children.
//!
//! The vertices are numbered in pre-order: a node, then its children in order, each with
//! all that is below it before the next. The edges come in the same order, each where the
//! node that it enters is added.

use crate::graph::{
    dag_add_child, dag_add_node, dag_edges, dag_new, dag_node_count, dag_nodes, dot_text, Dag,
    Edge,
};
use crate::text::lemma_concat_assoc;
use crate::tree::{
    forest_view, lemma_children_view, lemma_forest_view_ends, lemma_forest_view_step, Node,
    NodeView,
};
use vstd::prelude::*;

verus! {

/// The edge that enters `vertex`: one from its parent where it has a parent, none where it
/// is a root. The edge carries the empty text.
pub open spec fn link(parent: Option<int>, vertex: int) -> Seq<Edge> {
    match parent {
        Some(parent) => seq![(parent, vertex, Seq::<char>::empty())],
        None => Seq::empty(),
    }
}

/// The parent of a vertex as the model has it.
pub open spec fn parent_view(parent: Option<usize>) -> Option<int> {
    match parent {
        Some(parent) => Some(parent as int),
        None => None,
    }
}

impl NodeView {
    /// The number of nodes of this tree.
    pub open spec fn size(self) -> nat
        decreases self,
    {
        1 + forest_size(self.children)
    }

    /// The labels of the nodes of this tree, in pre-order.
    pub open spec fn labels(self) -> Seq<Seq<char>>
        decreases self,
    {
        seq![self.label()] + forest_labels(self.children)
    }

    /// The edges that this tree brings when its root becomes the vertex `at`, below
    /// `parent` where there is one: the edge that enters the root, then those of the
    /// children, which follow the root in the numbering.
    pub open spec fn edges(self, parent: Option<int>, at: int) -> Seq<Edge>
        decreases self,
    {
        link(parent, at) + forest_edges(self.children, Some(at), at + 1)
    }
}

/// The number of nodes of all `trees` together.
pub open spec fn forest_size(trees: Seq<NodeView>) -> nat
    decreases trees,
{
    if trees.len() == 0 {
        0
    } else {
        forest_size(trees.drop_last()) + trees.last().size()
    }
}

/// The labels of all `trees`, tree by tree, each in pre-order.
pub open spec fn forest_labels(trees: Seq<NodeView>) -> Seq<Seq<char>>
    decreases trees,
{
    if trees.len() == 0 {
        Seq::empty()
    } else {
        forest_labels(trees.drop_last()) + trees.last().labels()
    }
}

/// The edges that `trees` bring when the root of the first becomes the vertex `at` and
/// each tree follows the one before it, all of them below `parent` where there is one.
pub open spec fn forest_edges(trees: Seq<NodeView>, parent: Option<int>, at: int) -> Seq<Edge>
    decreases trees,
{
    if trees.len() == 0 {
        Seq::empty()
    } else {
        let front = trees.drop_last();
        forest_edges(front, parent, at) + trees.last().edges(parent, at + forest_size(front))
    }
}

/// A tree has as many labels as nodes, and one edge for each node but the root, which has
/// one only below a parent.
pub proof fn lemma_tree_counts(tree: NodeView, parent: Option<int>, at: int)
    ensures
        tree.labels().len() == tree.size(),
        tree.edges(parent, at).len() == tree.size() - 1 + link(parent, at).len(),
        link(parent, at).len() == if parent is Some {
            1nat
        } else {
            0nat
        },
    decreases tree,
{
    lemma_forest_counts(tree.children, Some(at), at + 1);
}

/// A forest has as many labels as nodes, and one edge for each node that is not a root;
/// below a parent, one for each node.
pub proof fn lemma_forest_counts(trees: Seq<NodeView>, parent: Option<int>, at: int)
    ensures
        forest_labels(trees).len() == forest_size(trees),
        forest_size(trees) >= trees.len(),
        forest_edges(trees, parent, at).len() == if parent is Some {
            forest_size(trees) as int
        } else {
            forest_size(trees) - trees.len()
        },
    decreases trees,
{
    if trees.len() > 0 {
        let front = trees.drop_last();
        lemma_forest_counts(front, parent, at);
        lemma_tree_counts(trees.last(), parent, at + forest_size(front));
    }
}

/// Whether `edges` have the shape of a forest laid out on the vertices from `at` up to, but
/// not including, `end`, below `parent` where there is one.
///
/// Every edge enters one of those vertices, leaves a vertex with a smaller index, which is
/// one of those vertices or the parent, and carries the empty text. The edges come in the
/// order of the vertices that they enter, so that no two enter the same vertex.
pub open spec fn forest_shaped(edges: Seq<Edge>, parent: Option<int>, at: int, end: int) -> bool {
    &&& forall|k: int|
        0 <= k < edges.len() ==> {
            let edge = #[trigger] edges[k];
            &&& at <= edge.1 < end
            &&& edge.0 < edge.1
            &&& at <= edge.0 || parent == Some(edge.0)
            &&& edge.2 == Seq::<char>::empty()
        }
    &&& forall|j: int, k: int|
        0 <= j < k < edges.len() ==> (#[trigger] edges[j]).1 < (#[trigger] edges[k]).1
}

/// The edges of a tree are forest shaped on the vertices that the tree takes. With no edge
/// to a smaller or the same index there is no cycle, and with at most one edge that enters
/// a vertex, no vertex has two parents.
pub proof fn lemma_tree_edges_shape(tree: NodeView, parent: Option<int>, at: int)
    requires
        parent matches Some(parent) ==> parent < at,
    ensures
        forest_shaped(tree.edges(parent, at), parent, at, at + tree.size()),
    decreases tree,
{
    let entering = link(parent, at);
    let below = forest_edges(tree.children, Some(at), at + 1);
    lemma_forest_edges_shape(tree.children, Some(at), at + 1);
    let edges = tree.edges(parent, at);
    assert forall|k: int| 0 <= k < edges.len() implies ({
        let edge = #[trigger] edges[k];
        &&& at <= edge.1 < at + tree.size()
        &&& edge.0 < edge.1
        &&& at <= edge.0 || parent == Some(edge.0)
        &&& edge.2 == Seq::<char>::empty()
    }) by {
        if k >= entering.len() {
            assert(edges[k] == below[k - entering.len()]);
        }
    }
    assert forall|j: int, k: int| 0 <= j < k < edges.len() implies (#[trigger] edges[j]).1
        < (#[trigger] edges[k]).1 by {
        assert(edges[k] == below[k - entering.len()]);
        if j >= entering.len() {
            assert(edges[j] == below[j - entering.len()]);
        }
    }
}

/// The edges of a forest are forest shaped on the vertices that the forest takes.
pub proof fn lemma_forest_edges_shape(trees: Seq<NodeView>, parent: Option<int>, at: int)
    requires
        parent matches Some(parent) ==> parent < at,
    ensures
        forest_shaped(forest_edges(trees, parent, at), parent, at, at + forest_size(trees)),
    decreases trees,
{
    if trees.len() > 0 {
        let front = trees.drop_last();
        let middle = at + forest_size(front);
        let before = forest_edges(front, parent, at);
        let after = trees.last().edges(parent, middle);
        lemma_forest_edges_shape(front, parent, at);
        lemma_tree_edges_shape(trees.last(), parent, middle);
        let edges = forest_edges(trees, parent, at);
        assert forall|k: int| 0 <= k < edges.len() implies ({
            let edge = #[trigger] edges[k];
            &&& at <= edge.1 < at + forest_size(trees)
            &&& edge.0 < edge.1
            &&& at <= edge.0 || parent == Some(edge.0)
            &&& edge.2 == Seq::<char>::empty()
        }) by {
            if k < before.len() {
                assert(edges[k] == before[k]);
            } else {
                assert(edges[k] == after[k - before.len()]);
            }
        }
        assert forall|j: int, k: int| 0 <= j < k < edges.len() implies (#[trigger] edges[j]).1
            < (#[trigger] edges[k]).1 by {
            if k < before.len() {
                assert(edges[j] == before[j]);
                assert(edges[k] == before[k]);
            } else {
                assert(edges[k] == after[k - before.len()]);
                if j < before.len() {
                    assert(edges[j] == before[j]);
                } else {
                    assert(edges[j] == after[j - before.len()]);
                }
            }
        }
    }
}

impl Node {
    /// Adds this tree to `dag`: a vertex for the node, labelled with its description, an
    /// edge with the empty text from `parent_ix` to that vertex where a parent is given,
    /// and then each child in order, below the new vertex. Returns the new vertex.
    ///
    /// The vertices are added behind those that `dag` holds, in pre-order, and the edges
    /// behind its edges. `parent_ix` has to be a vertex of `dag`.
    pub fn add_to_dag(&self, dag: &mut Dag, parent_ix: Option<usize>) -> (ix: usize)
        requires
            parent_ix matches Some(parent) ==> parent < dag_nodes(*old(dag)).len(),
        ensures
            ix == dag_nodes(*old(dag)).len(),
            dag_nodes(*final(dag)) == dag_nodes(*old(dag)) + self@.labels(),
            dag_edges(*final(dag)) == dag_edges(*old(dag)) + self@.edges(
                parent_view(parent_ix),
                ix as int,
            ),
        decreases self,
    {
        let ghost nodes = dag_nodes(*dag);
        let ghost edges = dag_edges(*dag);
        let ghost parent = parent_view(parent_ix);
        let ghost children = self@.children;
        proof {
            lemma_children_view(self);
            lemma_forest_view_ends(self.children@);
            reveal_strlit("");
            assert(""@ =~= Seq::<char>::empty());
        }
        let ix = match parent_ix {
            Some(parent_ix) => dag_add_child(dag, parent_ix, "", self.description()),
            None => dag_add_node(dag, self.description()),
        };
        let ghost first = seq![self@.label()];
        let ghost entering = link(parent, ix as int);
        let ghost below = Some(ix as int);
        proof {
            assert(dag_nodes(*dag) =~= nodes + (first + forest_labels(children.take(0))));
            assert(dag_edges(*dag) =~= edges + (entering + forest_edges(
                children.take(0),
                below,
                ix + 1,
            )));
        }
        let mut i: usize = 0;
        while i < self.children.len()
            invariant
                i <= self.children.len(),
                children == self@.children,
                children == forest_view(self.children@),
                ix == nodes.len(),
                first == seq![self@.label()],
                below == Some(ix as int),
                dag_nodes(*dag) == nodes + (first + forest_labels(children.take(i as int))),
                dag_edges(*dag) == edges + (entering + forest_edges(
                    children.take(i as int),
                    below,
                    ix + 1,
                )),
            decreases self.children.len() - i,
        {
            let ghost done = children.take(i as int);
            let ghost child = self.children[i as int]@;
            let ghost at = ix + 1 + forest_size(done);
            proof {
                lemma_forest_view_step(self.children@, i as int);
                lemma_forest_counts(done, below, ix + 1);
            }
            let vertex = self.children[i].add_to_dag(dag, Some(ix));
            proof {
                lemma_concat_assoc(nodes, first + forest_labels(done), child.labels());
                lemma_concat_assoc(first, forest_labels(done), child.labels());
                let done_edges = forest_edges(done, below, ix + 1);
                lemma_concat_assoc(edges, entering + done_edges, child.edges(below, at));
                lemma_concat_assoc(entering, done_edges, child.edges(below, at));
            }
            i += 1;
        }
        ix
    }

    /// Adds this tree to `dag` as [`Node::add_to_dag`] does, where `parent_ix` is a vertex
    /// of `dag` or no parent is given, and returns the new vertex. Where `parent_ix` is no
    /// vertex of `dag`, `dag` stays as it is and nothing is returned.
    pub fn try_add_to_dag(&self, dag: &mut Dag, parent_ix: Option<usize>) -> (ix: Option<usize>)
        ensures
            ix is Some <==> (parent_ix matches Some(parent) ==> parent < dag_nodes(
                *old(dag),
            ).len()),
            match ix {
                Some(ix) => {
                    &&& ix == dag_nodes(*old(dag)).len()
                    &&& dag_nodes(*final(dag)) == dag_nodes(*old(dag)) + self@.labels()
                    &&& dag_edges(*final(dag)) == dag_edges(*old(dag)) + self@.edges(
                        parent_view(parent_ix),
                        ix as int,
                    )
                },
                None => {
                    &&& dag_nodes(*final(dag)) == dag_nodes(*old(dag))
                    &&& dag_edges(*final(dag)) == dag_edges(*old(dag))
                },
            },
    {
        if let Some(parent) = parent_ix {
            if parent >= dag_node_count(dag) {
                return None;
            }
        }
        Some(self.add_to_dag(dag, parent_ix))
    }
}

/// Builds the graph of a forest: the trees of `roots` in order, each added as
/// [`Node::add_to_dag`] adds it, without a parent.
///
/// The graph has one vertex for each node, labelled with its description, and one edge for
/// each node that is not a root, from its parent.
pub fn forest_as_dag(roots: &[Node]) -> (dag: Dag)
    ensures
        dag_nodes(dag) == forest_labels(forest_view(roots@)),
        dag_edges(dag) == forest_edges(forest_view(roots@), None, 0),
        dag_nodes(dag).len() == forest_size(forest_view(roots@)),
        dag_edges(dag).len() == forest_size(forest_view(roots@)) - roots@.len(),
{
    let ghost trees = forest_view(roots@);
    let mut dag = dag_new();
    let mut i: usize = 0;
    proof {
        lemma_forest_view_ends(roots@);
    }
    while i < roots.len()
        invariant
            i <= roots.len(),
            trees == forest_view(roots@),
            dag_nodes(dag) == forest_labels(trees.take(i as int)),
            dag_edges(dag) == forest_edges(trees.take(i as int), None, 0),
        decreases roots.len() - i,
    {
        proof {
            lemma_forest_view_step(roots@, i as int);
            lemma_forest_counts(trees.take(i as int), None, 0);
        }
        let vertex = roots[i].add_to_dag(&mut dag, None);
        i += 1;
    }
    proof {
        lemma_forest_counts(trees, None, 0);
    }
    dag
}

/// Building the graph of the same forest again gives the same graph: two graphs that both
/// meet the contract of [`forest_as_dag`] for sequences of nodes with the same views have
/// the same vertices and the same edges, and so the same text in the DOT language.
pub proof fn lemma_graph_is_repeatable(
    first_roots: Seq<Node>,
    second_roots: Seq<Node>,
    first: Dag,
    second: Dag,
)
    requires
        forest_view(first_roots) == forest_view(second_roots),
        dag_nodes(first) == forest_labels(forest_view(first_roots)),
        dag_edges(first) == forest_edges(forest_view(first_roots), None, 0),
        dag_nodes(second) == forest_labels(forest_view(second_roots)),
        dag_edges(second) == forest_edges(forest_view(second_roots), None, 0),
    ensures
        dag_nodes(first) == dag_nodes(second),
        dag_edges(first) == dag_edges(second),
        dot_text(dag_nodes(first), dag_edges(first)) == dot_text(
            dag_nodes(second),
            dag_edges(second),
        ),
{
}

/// The graph of a forest has one vertex for each node and one edge for each node that is
/// not a root.
pub proof fn lemma_graph_counts(trees: Seq<NodeView>)
    ensures
        forest_labels(trees).len() == forest_size(trees),
        forest_edges(trees, None, 0).len() == forest_size(trees) - trees.len(),
{
    lemma_forest_counts(trees, None, 0);
}

} // verus!
