use layout_dag::render::{debug_list_text, write_debug_list};
use layout_dag::{ContainerKind, Layout, Node};

fn leaf() -> Node {
    Node { name: None, kind: ContainerKind::Container, layout: None, children: Vec::new() }
}

fn sample() -> Node {
    let floating = Node {
        name: Some("say \"hi\"".to_string()),
        kind: ContainerKind::Floating,
        layout: None,
        children: Vec::new(),
    };
    let inner = Node {
        name: None,
        kind: ContainerKind::Container,
        layout: Some(Layout("tabbed".to_string())),
        children: vec![leaf(), floating],
    };
    Node {
        name: Some("root".to_string()),
        kind: ContainerKind::Container,
        layout: Some(Layout("splith".to_string())),
        children: vec![inner, leaf()],
    }
}

#[test]
fn leaf_is_rendered_field_by_field() {
    assert_eq!(
        leaf().debug_text(),
        "Node { name: None, kind: Container, layout: None, children: [] }"
    );
}

#[test]
fn named_container_is_rendered_field_by_field() {
    let subject = Node {
        name: Some("a".to_string()),
        kind: ContainerKind::Floating,
        layout: Some(Layout("splitv".to_string())),
        children: vec![leaf()],
    };
    assert_eq!(
        subject.debug_text(),
        "Node { name: Some(\"a\"), kind: Floating, layout: Some(Layout(\"splitv\")), children: \
         [Node { name: None, kind: Container, layout: None, children: [] }] }"
    );
}

#[test]
fn rendering_agrees_with_derived_debug() {
    let subject = sample();
    assert_eq!(subject.debug_text(), format!("{:?}", subject));
}

#[test]
fn list_rendering_agrees_with_derived_debug() {
    let subject = sample();
    assert_eq!(debug_list_text(&subject.children), format!("{:?}", subject.children));
}

#[test]
fn empty_list_is_a_pair_of_brackets() {
    assert_eq!(debug_list_text(&Vec::new()), "[]");
}

#[test]
fn writing_appends_to_what_is_there() {
    let mut out = String::from("seen: ");
    leaf().write_debug(&mut out);
    assert_eq!(out, "seen: Node { name: None, kind: Container, layout: None, children: [] }");
    write_debug_list(&vec![leaf()], &mut out);
    assert_eq!(
        out,
        "seen: Node { name: None, kind: Container, layout: None, children: [] }\
         [Node { name: None, kind: Container, layout: None, children: [] }]"
    );
}

#[test]
fn kind_names_are_the_variant_names() {
    assert_eq!(ContainerKind::Container.debug_name(), "Container");
    assert_eq!(ContainerKind::Floating.debug_name(), "Floating");
}

#[test]
fn names_are_quoted_and_escaped() {
    let subject = Node {
        name: Some("tab\there".to_string()),
        kind: ContainerKind::Container,
        layout: None,
        children: Vec::new(),
    };
    assert_eq!(
        subject.debug_text(),
        "Node { name: Some(\"tab\\there\"), kind: Container, layout: None, children: [] }"
    );
}
