//! The structural rendering of a tree, as it appears in error messages: every field of
//! every node, written out by name.

use crate::text::{lemma_concat_assoc, quote, quoted};
use crate::tree::{
    forest_view, lemma_children_view, lemma_forest_view_ends, lemma_forest_view_step,
    ContainerKind, Layout, Node, NodeView,
};
use vstd::prelude::*;
use vstd::string::*;

verus! {

impl ContainerKind {
    /// The name of the kind.
    pub open spec fn debug_text(self) -> Seq<char> {
        match self {
            ContainerKind::Container => "Container"@,
            ContainerKind::Floating => "Floating"@,
        }
    }
}

/// The rendering of an optional name: `None`, or the quoted name inside `Some(..)`.
pub open spec fn debug_name(name: Option<Seq<char>>) -> Seq<char> {
    match name {
        Some(name) => "Some("@ + quoted(name) + ")"@,
        None => "None"@,
    }
}

/// The rendering of a layout: the quoted value inside `Layout(..)`.
pub open spec fn debug_layout(layout: Seq<char>) -> Seq<char> {
    "Layout("@ + quoted(layout) + ")"@
}

/// The rendering of an optional layout: `None`, or the rendered layout inside `Some(..)`.
pub open spec fn debug_optional_layout(layout: Option<Seq<char>>) -> Seq<char> {
    match layout {
        Some(layout) => "Some("@ + debug_layout(layout) + ")"@,
        None => "None"@,
    }
}

impl NodeView {
    /// The rendering of a node: its four fields by name, the children as a list.
    pub open spec fn debug_text(self) -> Seq<char>
        decreases self,
    {
        "Node { name: "@ + debug_name(self.name) + ", kind: "@ + self.kind.debug_text()
            + ", layout: "@ + debug_optional_layout(self.layout) + ", children: "@ + debug_list(
            self.children,
        ) + " }"@
    }
}

/// The renderings of `nodes`, in order, with a comma and a space between each two.
pub open spec fn debug_items(nodes: Seq<NodeView>) -> Seq<char>
    decreases nodes, 0nat,
{
    if nodes.len() == 0 {
        Seq::empty()
    } else if nodes.len() == 1 {
        nodes[0].debug_text()
    } else {
        debug_items(nodes.drop_last()) + ", "@ + nodes.last().debug_text()
    }
}

/// The rendering of a list of nodes: the items between square brackets.
pub open spec fn debug_list(nodes: Seq<NodeView>) -> Seq<char>
    decreases nodes, 1nat,
{
    "["@ + debug_items(nodes) + "]"@
}

/// Appends the rendering of an optional name to `out`.
fn write_debug_name(name: &Option<String>, out: &mut String)
    ensures
        final(out)@ == old(out)@ + debug_name(
            match *name {
                Some(name) => Some(name@),
                None => None,
            },
        ),
{
    let ghost before = out@;
    match name {
        Some(name) => {
            let rendered = quote(name.as_str());
            out.append("Some(");
            out.append(rendered.as_str());
            out.append(")");
            proof {
                lemma_concat_assoc(before, "Some("@, quoted(name@));
                lemma_concat_assoc(before, "Some("@ + quoted(name@), ")"@);
            }
        },
        None => {
            out.append("None");
        },
    }
}

/// Appends the rendering of an optional layout to `out`.
fn write_debug_layout(layout: &Option<Layout>, out: &mut String)
    ensures
        final(out)@ == old(out)@ + debug_optional_layout(
            match *layout {
                Some(layout) => Some(layout@),
                None => None,
            },
        ),
{
    let ghost before = out@;
    match layout {
        Some(layout) => {
            let rendered = quote(layout.0.as_str());
            let ghost inner = debug_layout(layout@);
            out.append("Some(");
            out.append("Layout(");
            out.append(rendered.as_str());
            out.append(")");
            out.append(")");
            proof {
                let head = before + "Some("@;
                lemma_concat_assoc(head, "Layout("@, quoted(layout@));
                lemma_concat_assoc(head, "Layout("@ + quoted(layout@), ")"@);
                lemma_concat_assoc(before, "Some("@, inner);
                lemma_concat_assoc(before, "Some("@ + inner, ")"@);
            }
        },
        None => {
            out.append("None");
        },
    }
}

impl ContainerKind {
    /// The name of the kind.
    pub fn debug_name(&self) -> (name: &'static str)
        ensures
            name@ == self.debug_text(),
    {
        match self {
            ContainerKind::Container => "Container",
            ContainerKind::Floating => "Floating",
        }
    }
}

impl Node {
    /// Appends the rendering of this node to `out`.
    pub fn write_debug(&self, out: &mut String)
        ensures
            final(out)@ == old(out)@ + self@.debug_text(),
        decreases self,
    {
        let ghost before = out@;
        let ghost view = self@;
        proof {
            lemma_children_view(self);
        }
        out.append("Node { name: ");
        let ghost mut text = "Node { name: "@;
        write_debug_name(&self.name, out);
        proof {
            lemma_concat_assoc(before, text, debug_name(view.name));
            text = text + debug_name(view.name);
        }
        out.append(", kind: ");
        proof {
            lemma_concat_assoc(before, text, ", kind: "@);
            text = text + ", kind: "@;
        }
        out.append(self.kind.debug_name());
        proof {
            lemma_concat_assoc(before, text, view.kind.debug_text());
            text = text + view.kind.debug_text();
        }
        out.append(", layout: ");
        proof {
            lemma_concat_assoc(before, text, ", layout: "@);
            text = text + ", layout: "@;
        }
        write_debug_layout(&self.layout, out);
        proof {
            lemma_concat_assoc(before, text, debug_optional_layout(view.layout));
            text = text + debug_optional_layout(view.layout);
        }
        out.append(", children: ");
        proof {
            lemma_concat_assoc(before, text, ", children: "@);
            text = text + ", children: "@;
        }
        write_debug_list(&self.children, out);
        proof {
            lemma_concat_assoc(before, text, debug_list(view.children));
            text = text + debug_list(view.children);
        }
        out.append(" }");
        proof {
            lemma_concat_assoc(before, text, " }"@);
            text = text + " }"@;
            assert(text == view.debug_text());
        }
    }

    /// The rendering of this node.
    pub fn debug_text(&self) -> (rendered: String)
        ensures
            rendered@ == self@.debug_text(),
    {
        let mut rendered = String::new();
        self.write_debug(&mut rendered);
        assert(Seq::<char>::empty() + self@.debug_text() =~= self@.debug_text());
        rendered
    }
}

/// Appends the rendering of the list `nodes` to `out`.
pub fn write_debug_list(nodes: &Vec<Node>, out: &mut String)
    ensures
        final(out)@ == old(out)@ + debug_list(forest_view(nodes@)),
    decreases nodes,
{
    let ghost before = out@;
    let ghost views = forest_view(nodes@);
    out.append("[");
    let ghost mut text = "["@;
    let mut i: usize = 0;
    proof {
        lemma_forest_view_ends(nodes@);
        assert(text =~= "["@ + debug_items(views.take(0)));
    }
    while i < nodes.len()
        invariant
            i <= nodes.len(),
            views == forest_view(nodes@),
            text == "["@ + debug_items(views.take(i as int)),
            out@ == before + text,
        decreases nodes.len() - i,
    {
        let ghost done = debug_items(views.take(i as int));
        let ghost item = nodes[i as int]@.debug_text();
        proof {
            lemma_forest_view_step(nodes@, i as int);
        }
        if i > 0 {
            out.append(", ");
            proof {
                lemma_concat_assoc(before, text, ", "@);
                lemma_concat_assoc("["@, done, ", "@);
                text = text + ", "@;
            }
        }
        nodes[i].write_debug(out);
        proof {
            lemma_concat_assoc(before, text, item);
            if i > 0 {
                lemma_concat_assoc("["@, done + ", "@, item);
            } else {
                assert(done =~= Seq::<char>::empty());
                assert("["@ + done =~= "["@);
            }
            text = text + item;
        }
        i += 1;
    }
    out.append("]");
    proof {
        lemma_concat_assoc(before, text, "]"@);
    }
}

/// The rendering of the list `nodes`.
pub fn debug_list_text(nodes: &Vec<Node>) -> (rendered: String)
    ensures
        rendered@ == debug_list(forest_view(nodes@)),
{
    let mut rendered = String::new();
    write_debug_list(nodes, &mut rendered);
    assert(Seq::<char>::empty() + debug_list(forest_view(nodes@)) =~= debug_list(
        forest_view(nodes@),
    ));
    rendered
}

} // verus!
