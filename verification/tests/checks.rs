use layout_dag::validate::StructuralError;
use layout_dag::{first_invalid_tree, validate_forest, ContainerKind, Layout, Node};

fn leaf() -> Node {
    Node { name: None, kind: ContainerKind::Container, layout: None, children: Vec::new() }
}

fn named_leaf(name: &str) -> Node {
    Node {
        name: Some(name.to_string()),
        kind: ContainerKind::Container,
        layout: None,
        children: Vec::new(),
    }
}

fn container(name: Option<&str>, layout: Option<&str>, children: Vec<Node>) -> Node {
    Node {
        name: name.map(|text| text.to_string()),
        kind: ContainerKind::Container,
        layout: layout.map(|text| Layout(text.to_string())),
        children,
    }
}

#[test]
fn leaf_without_layout_is_valid() {
    let subject = leaf();
    assert!(subject.validate().is_ok());
    assert_eq!(subject.description(), "[anon]");
}

#[test]
fn layout_without_children_is_rejected() {
    let subject = container(None, Some("splith"), Vec::new());
    let error = subject.validate().unwrap_err();
    assert!(matches!(error, StructuralError::LayoutWithoutChildren { .. }));
    assert!(error.message().contains("splith"));
    assert_eq!(error.message(), "container with layout Layout(\"splith\") but no children!");
    assert_eq!(error.context(), "anonymous");
}

#[test]
fn layout_without_children_carries_the_layout() {
    let subject = container(Some("ws"), Some("tabbed"), Vec::new());
    match subject.validate() {
        Err(StructuralError::LayoutWithoutChildren { context, layout }) => {
            assert_eq!(context, "ws");
            assert_eq!(layout, "tabbed");
        }
        other => panic!("unexpected outcome: {:?}", other),
    }
}

#[test]
fn floating_named_leaf_is_valid() {
    let subject = Node {
        name: Some("foo".to_string()),
        kind: ContainerKind::Floating,
        layout: None,
        children: Vec::new(),
    };
    assert!(subject.validate().is_ok());
    assert_eq!(subject.description(), "foo (float)");
}

#[test]
fn container_with_layout_and_leaves_is_valid() {
    let subject = container(None, Some("splith"), vec![leaf(), leaf()]);
    assert!(subject.validate().is_ok());
}

#[test]
fn children_without_layout_are_rejected() {
    let subject = container(Some("top"), None, vec![leaf()]);
    let error = subject.validate().unwrap_err();
    assert!(matches!(error, StructuralError::ChildrenWithoutLayout { .. }));
    assert_eq!(error.context(), "top");
    assert_eq!(
        error.message(),
        "container with children [Node { name: None, kind: Container, layout: None, children: [] }] but no layout!"
    );
}

#[test]
fn children_without_layout_lists_every_child() {
    let floating = Node {
        name: Some("b".to_string()),
        kind: ContainerKind::Floating,
        layout: None,
        children: Vec::new(),
    };
    let subject = container(None, None, vec![named_leaf("a"), floating]);
    match subject.validate() {
        Err(StructuralError::ChildrenWithoutLayout { context, children }) => {
            assert_eq!(context, "anonymous");
            assert_eq!(
                children,
                "[Node { name: Some(\"a\"), kind: Container, layout: None, children: [] }, \
                 Node { name: Some(\"b\"), kind: Floating, layout: None, children: [] }]"
            );
        }
        other => panic!("unexpected outcome: {:?}", other),
    }
}

#[test]
fn success_iff_layout_matches_children() {
    let layouts = [None, Some("splith")];
    let counts = [0usize, 1, 3];
    for layout in layouts {
        for count in counts {
            let mut children = Vec::new();
            for _ in 0..count {
                children.push(leaf());
            }
            let subject = container(None, layout, children);
            assert_eq!(subject.validate().is_ok(), layout.is_some() == (count != 0));
        }
    }
}

#[test]
fn violation_below_a_valid_root_is_found() {
    let bad = container(Some("inner"), Some("tabbed"), Vec::new());
    let subject = container(Some("outer"), Some("splith"), vec![leaf(), bad]);
    let error = subject.validate().unwrap_err();
    assert_eq!(error.context(), "inner");
    assert_eq!(error.message(), "container with layout Layout(\"tabbed\") but no children!");
}

#[test]
fn context_is_the_failing_node_alone() {
    let bad = container(None, Some("tabbed"), Vec::new());
    let middle = container(Some("middle"), Some("splitv"), vec![bad]);
    let subject = container(Some("outer"), Some("splith"), vec![middle]);
    let error = subject.validate().unwrap_err();
    assert_eq!(error.context(), "anonymous");
}

#[test]
fn node_is_checked_before_its_children() {
    let bad_child = container(Some("child"), Some("tabbed"), Vec::new());
    let subject = container(Some("parent"), None, vec![bad_child]);
    let error = subject.validate().unwrap_err();
    assert_eq!(error.context(), "parent");
    assert!(matches!(error, StructuralError::ChildrenWithoutLayout { .. }));
}

#[test]
fn first_invalid_child_is_reported() {
    let second = container(Some("second"), Some("tabbed"), Vec::new());
    let third = container(Some("third"), None, vec![leaf()]);
    let subject = container(Some("root"), Some("splith"), vec![named_leaf("first"), second, third]);
    let error = subject.validate().unwrap_err();
    assert_eq!(error.context(), "second");
}

#[test]
fn first_child_is_checked_wholly_before_the_next() {
    let deep = container(Some("deep"), Some("stacked"), Vec::new());
    let first = container(Some("first"), Some("splitv"), vec![leaf(), deep]);
    let second = container(Some("second"), Some("tabbed"), Vec::new());
    let subject = container(Some("root"), Some("splith"), vec![first, second]);
    let error = subject.validate().unwrap_err();
    assert_eq!(error.context(), "deep");
}

#[test]
fn second_child_at_depth_is_reported() {
    let bad = container(Some("bad"), None, vec![leaf()]);
    let inner = container(Some("inner"), Some("splitv"), vec![named_leaf("good"), bad]);
    let subject = container(Some("root"), Some("splith"), vec![inner]);
    let error = subject.validate().unwrap_err();
    assert_eq!(error.context(), "bad");
    assert!(matches!(error, StructuralError::ChildrenWithoutLayout { .. }));
}

#[test]
fn empty_forest_is_valid() {
    let forest: Vec<Node> = Vec::new();
    assert!(validate_forest(&forest).is_ok());
}

#[test]
fn forest_of_valid_trees_is_valid() {
    let forest = vec![leaf(), container(None, Some("splith"), vec![leaf(), leaf()]), named_leaf("x")];
    assert!(validate_forest(&forest).is_ok());
}

#[test]
fn forest_reports_only_the_second_tree() {
    let second = container(Some("second"), Some("splith"), Vec::new());
    let forest = vec![named_leaf("first"), second];
    let error = validate_forest(&forest).unwrap_err();
    assert_eq!(error.context(), "second");
    assert_eq!(error.message(), "container with layout Layout(\"splith\") but no children!");
}

#[test]
fn forest_stops_at_the_first_invalid_tree() {
    let second = container(Some("second"), Some("splith"), Vec::new());
    let third = container(Some("third"), None, vec![leaf()]);
    let forest = vec![leaf(), second, third];
    let error = validate_forest(&forest).unwrap_err();
    assert_eq!(error.context(), "second");
}

#[test]
fn forest_agrees_with_the_trees() {
    let bad = container(Some("bad"), None, vec![leaf()]);
    let forest = vec![leaf(), bad, leaf()];
    let of_forest = validate_forest(&forest).unwrap_err();
    let of_tree = forest[1].validate().unwrap_err();
    assert_eq!(of_forest.context(), of_tree.context());
    assert_eq!(of_forest.message(), of_tree.message());
}

#[test]
fn validation_is_the_same_each_time() {
    let bad = container(Some("bad"), Some("tabbed"), Vec::new());
    let forest = vec![container(None, Some("splith"), vec![leaf(), bad])];
    let first = validate_forest(&forest).unwrap_err();
    let second = validate_forest(&forest).unwrap_err();
    assert_eq!(first.context(), second.context());
    assert_eq!(first.message(), second.message());
    let good = vec![leaf()];
    assert!(validate_forest(&good).is_ok());
    assert!(validate_forest(&good).is_ok());
}

#[test]
fn layout_in_the_message_is_escaped() {
    let subject = container(None, Some("a\"b\\c\n"), Vec::new());
    let error = subject.validate().unwrap_err();
    assert_eq!(
        error.message(),
        "container with layout Layout(\"a\\\"b\\\\c\\n\") but no children!"
    );
}

#[test]
fn empty_layout_counts_as_a_layout() {
    let subject = container(None, Some(""), Vec::new());
    let error = subject.validate().unwrap_err();
    assert!(matches!(error, StructuralError::LayoutWithoutChildren { .. }));
    assert_eq!(error.message(), "container with layout Layout(\"\") but no children!");
}

#[test]
fn first_invalid_tree_is_none_for_valid_trees() {
    let forest = vec![leaf(), container(None, Some("splith"), vec![leaf()])];
    assert!(first_invalid_tree(&forest).is_none());
    assert!(first_invalid_tree(&[]).is_none());
}

#[test]
fn first_invalid_tree_gives_the_index_and_the_violation() {
    let second = container(Some("second"), Some("splith"), Vec::new());
    let third = container(Some("third"), None, vec![leaf()]);
    let forest = vec![leaf(), second, third];
    let (index, error) = first_invalid_tree(&forest).unwrap();
    assert_eq!(index, 1);
    assert_eq!(error.context(), "second");
    assert!(matches!(error, StructuralError::LayoutWithoutChildren { .. }));
}

#[test]
fn first_invalid_tree_agrees_with_the_forest_check() {
    let bad = container(Some("bad"), None, vec![leaf()]);
    let forest = vec![bad, leaf()];
    let (index, found) = first_invalid_tree(&forest).unwrap();
    let reported = validate_forest(&forest).unwrap_err();
    assert_eq!(index, 0);
    assert_eq!(found.context(), reported.context());
    assert_eq!(found.message(), reported.message());
}
