//! The structural rule of a layout tree and its check.
//!
//! A node has a layout exactly when it has children. The check walks a tree in pre-order
//! and stops at the first node that breaks the rule.

use crate::render::{debug_list, debug_list_text};
use crate::text::{lemma_concat_assoc, quote, quoted};
use crate::tree::{
    forest_view, lemma_children_view, lemma_forest_view_ends, lemma_forest_view_step, Node,
    NodeView,
};
use vstd::prelude::*;
use vstd::string::*;

verus! {

/// A node that breaks the structural rule.
///
/// `context` is the name of that node, or `anonymous` where it has none. No ancestor of the
/// node adds anything to it.
#[derive(Debug)]
pub enum StructuralError {
    /// The node has a layout and no children. `layout` is the value of that layout.
    LayoutWithoutChildren { context: String, layout: String },
    /// The node has children and no layout. `children` is the rendering of the whole list
    /// of children.
    ChildrenWithoutLayout { context: String, children: String },
}

/// What a [`StructuralError`] stands for.
pub enum Violation {
    LayoutWithoutChildren { context: Seq<char>, layout: Seq<char> },
    ChildrenWithoutLayout { context: Seq<char>, children: Seq<char> },
}

impl View for StructuralError {
    type V = Violation;

    open spec fn view(&self) -> Violation {
        match *self {
            StructuralError::LayoutWithoutChildren { context, layout } => {
                Violation::LayoutWithoutChildren { context: context@, layout: layout@ }
            },
            StructuralError::ChildrenWithoutLayout { context, children } => {
                Violation::ChildrenWithoutLayout { context: context@, children: children@ }
            },
        }
    }
}

impl Violation {
    /// The name of the offending node, or `anonymous`.
    pub open spec fn context(self) -> Seq<char> {
        match self {
            Violation::LayoutWithoutChildren { context, .. } => context,
            Violation::ChildrenWithoutLayout { context, .. } => context,
        }
    }

    /// The sentence that describes the violation.
    pub open spec fn message(self) -> Seq<char> {
        match self {
            Violation::LayoutWithoutChildren { layout, .. } => {
                "container with layout "@ + crate::render::debug_layout(layout)
                    + " but no children!"@
            },
            Violation::ChildrenWithoutLayout { children, .. } => {
                "container with children "@ + children + " but no layout!"@
            },
        }
    }
}

impl NodeView {
    /// Whether this node itself obeys the rule: it has a layout exactly when it has children.
    pub open spec fn obeys_rule(self) -> bool {
        self.layout is Some <==> self.children.len() > 0
    }

    /// Whether this node and all nodes below it obey the rule.
    pub open spec fn well_formed(self) -> bool
        decreases self,
    {
        &&& self.obeys_rule()
        &&& forall|i: int|
            0 <= i < self.children.len() ==> (#[trigger] self.children[i]).well_formed()
    }

    /// The name under which a violation at this node is reported.
    pub open spec fn context(self) -> Seq<char> {
        match self.name {
            Some(name) => name,
            None => "anonymous"@,
        }
    }

    /// The violation at this node itself, if it breaks the rule.
    pub open spec fn violation_here(self) -> Option<Violation> {
        if self.layout is Some && self.children.len() == 0 {
            Some(
                Violation::LayoutWithoutChildren {
                    context: self.context(),
                    layout: self.layout->0,
                },
            )
        } else if self.layout is None && self.children.len() > 0 {
            Some(
                Violation::ChildrenWithoutLayout {
                    context: self.context(),
                    children: debug_list(self.children),
                },
            )
        } else {
            None
        }
    }

    /// The first violation in this tree in pre-order: that of the node itself, else the
    /// first one among its children.
    pub open spec fn first_violation(self) -> Option<Violation>
        decreases self,
    {
        match self.violation_here() {
            Some(violation) => Some(violation),
            None => first_violation_among(self.children),
        }
    }
}

/// The first violation in a sequence of trees: that of the earliest tree that has one.
pub open spec fn first_violation_among(trees: Seq<NodeView>) -> Option<Violation>
    decreases trees,
{
    if trees.len() == 0 {
        None
    } else {
        match first_violation_among(trees.drop_last()) {
            Some(violation) => Some(violation),
            None => trees.last().first_violation(),
        }
    }
}

/// What a check reports: nothing where there is no violation, else the first one.
pub open spec fn outcome(result: Result<(), StructuralError>) -> Option<Violation> {
    match result {
        Ok(_) => None,
        Err(error) => Some(error@),
    }
}

/// A tree has no violation exactly when it is well formed.
pub proof fn lemma_no_violation_iff_well_formed(tree: NodeView)
    ensures
        tree.first_violation() is None <==> tree.well_formed(),
    decreases tree,
{
    lemma_none_among_iff_all_well_formed(tree.children);
}

/// A sequence of trees has no violation exactly when each of them is well formed.
pub proof fn lemma_none_among_iff_all_well_formed(trees: Seq<NodeView>)
    ensures
        first_violation_among(trees) is None <==> forall|i: int|
            0 <= i < trees.len() ==> (#[trigger] trees[i]).well_formed(),
    decreases trees,
{
    if trees.len() > 0 {
        let front = trees.drop_last();
        lemma_none_among_iff_all_well_formed(front);
        lemma_no_violation_iff_well_formed(trees.last());
        assert forall|i: int| 0 <= i < front.len() implies front[i] == trees[i] by {}
        if first_violation_among(trees) is None {
            assert forall|i: int| 0 <= i < trees.len() implies (#[trigger] trees[i]).well_formed() by {
                if i < front.len() {
                    assert(front[i].well_formed());
                }
            }
        }
        if forall|i: int| 0 <= i < trees.len() ==> (#[trigger] trees[i]).well_formed() {
            assert forall|i: int| 0 <= i < front.len() implies (#[trigger] front[i]).well_formed() by {
                assert(trees[i].well_formed());
            }
        }
    }
}

/// Among trees of which the first `k` are well formed and the next is not, the violation
/// reported is that of the tree at `k`: nothing behind it is looked at, and nothing before
/// it has anything to report.
pub proof fn lemma_first_invalid_tree_is_reported(trees: Seq<NodeView>, k: int)
    requires
        0 <= k < trees.len(),
        forall|i: int| 0 <= i < k ==> (#[trigger] trees[i]).well_formed(),
        !trees[k].well_formed(),
    ensures
        first_violation_among(trees) == trees[k].first_violation(),
        first_violation_among(trees) is Some,
    decreases trees.len(),
{
    let front = trees.drop_last();
    lemma_no_violation_iff_well_formed(trees[k]);
    if k == trees.len() - 1 {
        assert forall|i: int| 0 <= i < front.len() implies (#[trigger] front[i]).well_formed() by {
            assert(trees[i].well_formed());
        }
        lemma_none_among_iff_all_well_formed(front);
    } else {
        assert forall|i: int| 0 <= i < k implies (#[trigger] front[i]).well_formed() by {
            assert(trees[i].well_formed());
        }
        assert(front[k] == trees[k]);
        lemma_first_invalid_tree_is_reported(front, k);
    }
}

/// In a tree whose root obeys the rule, whose first `k` children are well formed and whose
/// next child is not, the violation reported is that of the child at `k`.
pub proof fn lemma_first_invalid_child_is_reported(tree: NodeView, k: int)
    requires
        tree.obeys_rule(),
        0 <= k < tree.children.len(),
        forall|i: int| 0 <= i < k ==> (#[trigger] tree.children[i]).well_formed(),
        !tree.children[k].well_formed(),
    ensures
        tree.first_violation() == tree.children[k].first_violation(),
        tree.first_violation() is Some,
{
    lemma_first_invalid_tree_is_reported(tree.children, k);
}

/// A node whose children are all well formed passes the check exactly when it has a layout
/// and children, or neither.
pub proof fn lemma_check_of_node(tree: NodeView)
    requires
        forall|i: int| 0 <= i < tree.children.len() ==> (#[trigger] tree.children[i]).well_formed(),
    ensures
        tree.first_violation() is None <==> (tree.layout is Some) == (tree.children.len() != 0),
{
    lemma_no_violation_iff_well_formed(tree);
}

/// Checking the same forest again reports the same: two results that both meet the contract
/// of [`validate_forest`] for sequences of nodes with the same views stand for the same
/// outcome.
pub proof fn lemma_check_is_repeatable(
    first_roots: Seq<Node>,
    second_roots: Seq<Node>,
    first: Result<(), StructuralError>,
    second: Result<(), StructuralError>,
)
    requires
        forest_view(first_roots) == forest_view(second_roots),
        outcome(first) == first_violation_among(forest_view(first_roots)),
        outcome(second) == first_violation_among(forest_view(second_roots)),
    ensures
        outcome(first) == outcome(second),
        first is Ok <==> second is Ok,
{
}

impl StructuralError {
    /// The name of the offending node, or `anonymous` where it has none.
    pub fn context(&self) -> (context: &str)
        ensures
            context@ == self@.context(),
    {
        match self {
            StructuralError::LayoutWithoutChildren { context, .. } => context.as_str(),
            StructuralError::ChildrenWithoutLayout { context, .. } => context.as_str(),
        }
    }

    /// The sentence that describes the violation. It holds the rendering of the offending
    /// layout, or of the children that should not be there.
    pub fn message(&self) -> (message: String)
        ensures
            message@ == self@.message(),
    {
        match self {
            StructuralError::LayoutWithoutChildren { layout, .. } => {
                let mut message = String::from_str("container with layout ");
                message.append("Layout(");
                message.append(quote(layout.as_str()).as_str());
                message.append(")");
                message.append(" but no children!");
                proof {
                    let head = "container with layout "@;
                    lemma_concat_assoc(head, "Layout("@, quoted(layout@));
                    lemma_concat_assoc(head, "Layout("@ + quoted(layout@), ")"@);
                }
                message
            },
            StructuralError::ChildrenWithoutLayout { children, .. } => {
                let mut message = String::from_str("container with children ");
                message.append(children.as_str());
                message.append(" but no layout!");
                message
            },
        }
    }
}

impl Node {
    /// The name under which a violation at this node is reported: its name, or `anonymous`.
    fn error_context(&self) -> (context: String)
        ensures
            context@ == self@.context(),
    {
        match &self.name {
            Some(name) => name.clone(),
            None => String::from_str("anonymous"),
        }
    }

    /// Checks this tree against the structural rule, the node itself first and then its
    /// children in order, each child wholly before the next.
    ///
    /// The check succeeds exactly when every node of the tree has a layout and children, or
    /// neither. Otherwise it fails with the first violation in pre-order, reported under the
    /// name of the offending node alone.
    pub fn validate(&self) -> (result: Result<(), StructuralError>)
        ensures
            outcome(result) == self@.first_violation(),
            result is Ok <==> self@.well_formed(),
            (forall|i: int|
                0 <= i < self@.children.len() ==> (#[trigger] self@.children[i]).well_formed())
                ==> (result is Ok <==> (self@.layout is Some) == (self@.children.len() != 0)),
        decreases self,
    {
        proof {
            lemma_children_view(self);
            lemma_no_violation_iff_well_formed(self@);
        }
        match &self.layout {
            Some(layout) => {
                if self.children.len() == 0 {
                    return Err(
                        StructuralError::LayoutWithoutChildren {
                            context: self.error_context(),
                            layout: layout.0.clone(),
                        },
                    );
                }
            },
            None => {
                if self.children.len() != 0 {
                    return Err(
                        StructuralError::ChildrenWithoutLayout {
                            context: self.error_context(),
                            children: debug_list_text(&self.children),
                        },
                    );
                }
            },
        }
        let ghost children = forest_view(self.children@);
        let mut i: usize = 0;
        proof {
            lemma_forest_view_ends(self.children@);
        }
        while i < self.children.len()
            invariant
                i <= self.children.len(),
                children == forest_view(self.children@),
                children == self@.children,
                self@.violation_here() is None,
                first_violation_among(children.take(i as int)) is None,
            decreases self.children.len() - i,
        {
            proof {
                lemma_forest_view_step(self.children@, i as int);
            }
            match self.children[i].validate() {
                Ok(_) => {},
                Err(error) => {
                    proof {
                        lemma_violation_in_prefix(children, i + 1);
                        lemma_no_violation_iff_well_formed(self@);
                    }
                    return Err(error);
                },
            }
            i += 1;
        }
        Ok(())
    }
}

/// A violation found among the first `n` trees is the violation of the whole sequence.
pub proof fn lemma_violation_in_prefix(trees: Seq<NodeView>, n: int)
    requires
        0 <= n <= trees.len(),
        first_violation_among(trees.take(n)) is Some,
    ensures
        first_violation_among(trees) == first_violation_among(trees.take(n)),
    decreases trees.len(),
{
    if n < trees.len() {
        let front = trees.drop_last();
        assert(front.take(n) == trees.take(n));
        lemma_violation_in_prefix(front, n);
    } else {
        assert(trees.take(n) == trees);
    }
}

/// Looks for the first tree of a forest that breaks the structural rule: its index and its
/// first violation, or nothing where every tree is well formed.
///
/// The trees are checked in order, and those behind the one found are not looked at.
pub fn first_invalid_tree(roots: &[Node]) -> (found: Option<(usize, StructuralError)>)
    ensures
        match found {
            Some((index, error)) => {
                &&& index < roots@.len()
                &&& forall|i: int| 0 <= i < index ==> (#[trigger] roots@[i])@.well_formed()
                &&& !roots@[index as int]@.well_formed()
                &&& Some(error@) == roots@[index as int]@.first_violation()
                &&& Some(error@) == first_violation_among(forest_view(roots@))
            },
            None => {
                &&& forall|i: int| 0 <= i < roots@.len() ==> (#[trigger] roots@[i])@.well_formed()
                &&& first_violation_among(forest_view(roots@)) is None
            },
        },
{
    let ghost trees = forest_view(roots@);
    let mut i: usize = 0;
    proof {
        lemma_forest_view_ends(roots@);
    }
    while i < roots.len()
        invariant
            i <= roots.len(),
            trees == forest_view(roots@),
            forall|k: int| 0 <= k < i ==> (#[trigger] roots@[k])@.well_formed(),
            first_violation_among(trees.take(i as int)) is None,
        decreases roots.len() - i,
    {
        proof {
            lemma_forest_view_step(roots@, i as int);
        }
        match roots[i].validate() {
            Ok(_) => {},
            Err(error) => {
                proof {
                    lemma_violation_in_prefix(trees, i + 1);
                }
                return Some((i, error));
            },
        }
        i += 1;
    }
    None
}

/// Checks each tree of a forest in order and stops at the first that fails.
///
/// The check succeeds exactly when every tree is well formed. Otherwise it fails with the
/// first violation of the earliest tree that has one; the trees behind it are not looked at.
pub fn validate_forest(roots: &[Node]) -> (result: Result<(), StructuralError>)
    ensures
        outcome(result) == first_violation_among(forest_view(roots@)),
        result is Ok <==> forall|i: int|
            0 <= i < roots@.len() ==> (#[trigger] roots@[i])@.well_formed(),
{
    match first_invalid_tree(roots) {
        Some((_, error)) => Err(error),
        None => Ok(()),
    }
}

} // verus!
