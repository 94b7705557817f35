//! Layout trees of a tiling window manager: their structural check, and the graph of a
//! forest of them.
//!
//! A [`Node`] is one element of a layout tree. [`Node::validate`] and [`validate_forest`]
//! check that every node has a layout exactly when it has children, and report the first
//! node that does not. [`forest_as_dag`] turns a forest into a [`Dag`] with one vertex for
//! each node and one edge from each parent to each of its children, and [`Dag::to_dot`]
//! writes that graph in the DOT language.

pub mod dag;
pub mod graph;
pub mod input;
pub mod render;
pub mod text;
pub mod tree;
pub mod validate;

pub use dag::forest_as_dag;
pub use graph::Dag;
pub use input::is_not_comment;
pub use tree::{ContainerKind, Layout, Node};
pub use validate::{first_invalid_tree, validate_forest, StructuralError};
