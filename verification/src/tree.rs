//! The layout tree: its nodes, their mathematical view, and the label shown for each node.

use crate::text::{join, join_strings, views};
use vstd::prelude::*;
use vstd::string::*;

verus! {

/// How a container is placed on screen. It changes only the label of a node.
#[derive(Debug, Clone, Copy, PartialEq, Eq, Structural)]
pub enum ContainerKind {
    /// A tiled container.
    Container,
    /// A floating container.
    Floating,
}

impl ContainerKind {
    /// The text that this kind adds to a label, if it adds any.
    pub open spec fn suffix(self) -> Option<Seq<char>> {
        match self {
            ContainerKind::Floating => Some("(float)"@),
            ContainerKind::Container => None,
        }
    }

    /// The text that this kind adds to a label: `(float)` for a floating container, nothing
    /// for a tiled one.
    pub fn as_suffix(&self) -> (suffix: Option<&'static str>)
        ensures
            match suffix {
                Some(text) => self.suffix() == Some(text@),
                None => self.suffix() is None,
            },
    {
        match self {
            ContainerKind::Floating => Some("(float)"),
            _ => None,
        }
    }
}

/// The name of the arrangement that a container applies to its children.
#[derive(Debug)]
pub struct Layout(pub String);

impl Clone for Layout {
    fn clone(&self) -> (copy: Self)
        ensures
            copy@ == self@,
    {
        Layout(self.0.clone())
    }
}

impl View for Layout {
    type V = Seq<char>;

    open spec fn view(&self) -> Seq<char> {
        self.0@
    }
}

/// One element of a layout tree, owning its children in on-screen order.
#[derive(Debug)]
pub struct Node {
    pub name: Option<String>,
    pub kind: ContainerKind,
    pub layout: Option<Layout>,
    pub children: Vec<Node>,
}

/// What a [`Node`] stands for: its texts as character sequences, its children as a sequence.
pub struct NodeView {
    pub name: Option<Seq<char>>,
    pub kind: ContainerKind,
    pub layout: Option<Seq<char>>,
    pub children: Seq<NodeView>,
}

impl View for Node {
    type V = NodeView;

    open spec fn view(&self) -> NodeView
        decreases self,
    {
        NodeView {
            name: match self.name {
                Some(name) => Some(name@),
                None => None,
            },
            kind: self.kind,
            layout: match self.layout {
                Some(layout) => Some(layout@),
                None => None,
            },
            children: Seq::new(
                self.children@.len(),
                |i: int|
                    if 0 <= i < self.children@.len() {
                        self.children@[i]@
                    } else {
                        arbitrary()
                    },
            ),
        }
    }
}

/// The views of a sequence of nodes, in the same order.
pub open spec fn forest_view(nodes: Seq<Node>) -> Seq<NodeView> {
    Seq::new(nodes.len(), |i: int| nodes[i]@)
}

/// The children of a node's view are the views of its children.
pub proof fn lemma_children_view(node: &Node)
    ensures
        node@.children == forest_view(node.children@),
{
    reveal_with_fuel(<Node as View>::view, 2);
    assert(node@.children =~= forest_view(node.children@));
}

/// The views of the first `i + 1` nodes are the views of the first `i`, followed by the view
/// of the node at `i`.
pub proof fn lemma_forest_view_step(nodes: Seq<Node>, i: int)
    requires
        0 <= i < nodes.len(),
    ensures
        forest_view(nodes).take(i + 1).drop_last() == forest_view(nodes).take(i),
        forest_view(nodes).take(i + 1).last() == nodes[i]@,
{
}

/// The views of no nodes are the empty sequence, and the views of all nodes are all views.
pub proof fn lemma_forest_view_ends(nodes: Seq<Node>)
    ensures
        forest_view(nodes).take(0) == Seq::<NodeView>::empty(),
        forest_view(nodes).take(nodes.len() as int) == forest_view(nodes),
{
}

impl NodeView {
    /// The layout as it appears in a label: between angle brackets.
    pub open spec fn bracketed(layout: Seq<char>) -> Seq<char> {
        "<"@ + layout + ">"@
    }

    /// The pieces that make up the label, in order: the name, the bracketed layout, the
    /// suffix of the kind; each only where the node has it.
    pub open spec fn label_parts(self) -> Seq<Seq<char>> {
        let name = match self.name {
            Some(name) => seq![name],
            None => seq![],
        };
        let layout = match self.layout {
            Some(layout) => seq![Self::bracketed(layout)],
            None => seq![],
        };
        let suffix = match self.kind.suffix() {
            Some(suffix) => seq![suffix],
            None => seq![],
        };
        name + layout + suffix
    }

    /// The label: the pieces separated by single spaces, or `[anon]` where that leaves no
    /// character at all.
    pub open spec fn label(self) -> Seq<char> {
        let joined = join(self.label_parts(), " "@);
        if joined.len() == 0 {
            "[anon]"@
        } else {
            joined
        }
    }

    /// Whether no piece of the label holds a character: the node has no layout, its kind
    /// has no suffix, and its name is missing or empty.
    pub open spec fn is_anonymous(self) -> bool {
        &&& self.name matches Some(name) ==> name.len() == 0
        &&& self.layout is None
        &&& self.kind.suffix() is None
    }

    /// The label is never empty, and it is `[anon]` for a node that is anonymous.
    pub proof fn lemma_label(self)
        ensures
            self.label().len() > 0,
            self.is_anonymous() ==> self.label() == "[anon]"@,
            !self.is_anonymous() ==> self.label() == join(self.label_parts(), " "@),
    {
        reveal_strlit("[anon]");
        reveal_strlit("<");
        reveal_strlit(">");
        reveal_strlit("(float)");
        reveal_strlit(" ");
        let parts = self.label_parts();
        let space = " "@;
        if parts.len() == 1 {
            assert(join(parts, space) == parts[0]);
            if self.layout is Some {
                assert(parts[0] == Self::bracketed(self.layout->0));
            } else if self.kind.suffix() is Some {
                assert(parts[0] == "(float)"@);
            } else {
                assert(parts[0] == self.name->0);
            }
        } else if parts.len() >= 2 {
            assert(join(parts, space) == join(parts.drop_last(), space) + space + parts.last());
        }
    }
}

impl Node {
    /// The label shown for this node. It is never empty.
    ///
    /// It is made of the name, the layout between angle brackets and the suffix of the kind,
    /// each only where the node has it, separated by single spaces. A node for which that
    /// leaves no character, because it has no layout, a kind without suffix, and no name or
    /// an empty one, is labelled `[anon]`.
    pub fn description(&self) -> (label: String)
        ensures
            label@ == self@.label(),
            label@.len() > 0,
            self@.is_anonymous() ==> label@ == "[anon]"@,
    {
        let mut parts: Vec<String> = Vec::with_capacity(3);
        if let Some(name) = &self.name {
            parts.push(name.clone());
        }
        if let Some(layout) = &self.layout {
            let mut bracketed = String::from_str("<");
            bracketed.append(layout.0.as_str());
            bracketed.append(">");
            parts.push(bracketed);
        }
        if let Some(suffix) = self.kind.as_suffix() {
            parts.push(String::from_str(suffix));
        }
        assert(views(parts@) == self@.label_parts());
        proof {
            self@.lemma_label();
        }
        let joined = join_strings(&parts, " ");
        if joined.as_str().is_empty() {
            String::from_str("[anon]")
        } else {
            joined
        }
    }
}

} // verus!
