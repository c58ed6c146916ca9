use quillion_client::vdom::content::ElementContent;
use quillion_client::vdom::diff::Differ;
use quillion_client::vdom::ops::{ChildSource, DomOp};
use quillion_client::vdom::render::DomRenderer;
use quillion_client::vdom::VirtualDom;

fn el(tag: &str) -> ElementContent {
    ElementContent {
        tag: tag.to_string(),
        attributes: Vec::new(),
        text: None,
        children: Vec::new(),
        key: None,
    }
}

fn keyed(tag: &str, key: &str) -> ElementContent {
    let mut e = el(tag);
    e.key = Some(key.to_string());
    e
}

fn is_identity_rebuild(op: &DomOp) -> bool {
    match op {
        DomOp::RebuildChildren { sources, .. } => sources
            .iter()
            .enumerate()
            .all(|(i, s)| *s == ChildSource::Reuse { old_index: i }),
        _ => false,
    }
}

#[test]
fn equal_trees_produce_no_document_churn() {
    let mut root = el("div");
    root.attributes.push(("class".to_string(), "box".to_string()));
    root.children.push(keyed("span", "a"));
    root.children.push(keyed("span", "b"));
    let mut same = el("div");
    same.attributes.push(("class".to_string(), "box".to_string()));
    same.children.push(keyed("span", "a"));
    same.children.push(keyed("span", "b"));

    let differ = Differ::new();
    let mut ops: Vec<DomOp> = Vec::new();
    differ.diff_and_patch(&root, &same, &vec![0], &vec![0], &mut ops);
    assert!(ops.iter().all(is_identity_rebuild), "ops: {:?}", ops);
}

#[test]
fn keyed_children_are_reused_and_reordered() {
    let mut old_root = el("ul");
    old_root.children.push(keyed("li", "a"));
    old_root.children.push(keyed("li", "b"));
    old_root.children.push(keyed("li", "c"));
    let mut new_root = el("ul");
    new_root.children.push(keyed("li", "c"));
    new_root.children.push(keyed("li", "a"));

    let differ = Differ::new();
    let mut ops: Vec<DomOp> = Vec::new();
    differ.diff_and_patch(&old_root, &new_root, &vec![0], &vec![0], &mut ops);

    let rebuild = ops
        .iter()
        .filter_map(|op| match op {
            DomOp::RebuildChildren { path, sources, .. } if path == &vec![0] => Some(sources),
            _ => None,
        })
        .next()
        .expect("the root's children are rebuilt");
    assert_eq!(
        *rebuild,
        vec![
            ChildSource::Reuse { old_index: 2 },
            ChildSource::Reuse { old_index: 0 },
        ]
    );
    // the node for "b" is reused nowhere: the rebuild drops it
    assert!(!rebuild.contains(&ChildSource::Reuse { old_index: 1 }));
}

#[test]
fn single_attribute_change_updates_exactly_that_attribute() {
    let mut old_root = el("div");
    old_root.attributes.push(("class".to_string(), "x".to_string()));
    old_root.attributes.push(("id".to_string(), "root".to_string()));
    let mut new_root = el("div");
    new_root.attributes.push(("class".to_string(), "y".to_string()));
    new_root.attributes.push(("id".to_string(), "root".to_string()));

    let differ = Differ::new();
    let mut ops: Vec<DomOp> = Vec::new();
    differ.diff_and_patch(&old_root, &new_root, &vec![0], &vec![0], &mut ops);

    let changes: Vec<&DomOp> = ops.iter().filter(|op| !is_identity_rebuild(op)).collect();
    assert_eq!(changes.len(), 1);
    match changes[0] {
        DomOp::SetAttribute { path, name, value } => {
            assert_eq!(path, &vec![0]);
            assert_eq!(name, "class");
            assert_eq!(value, "y");
        }
        other => panic!("unexpected op: {:?}", other),
    }
}

#[test]
fn removed_attribute_is_removed() {
    let mut old_root = el("div");
    old_root.attributes.push(("class".to_string(), "x".to_string()));
    old_root.attributes.push(("hidden".to_string(), "true".to_string()));
    let mut new_root = el("div");
    new_root.attributes.push(("class".to_string(), "x".to_string()));

    let differ = Differ::new();
    let mut ops: Vec<DomOp> = Vec::new();
    differ.diff_and_patch(&old_root, &new_root, &vec![0], &vec![0], &mut ops);
    assert!(ops.iter().any(|op| matches!(
        op,
        DomOp::RemoveAttribute { name, .. } if name == "hidden"
    )));
    assert!(!ops.iter().any(|op| matches!(op, DomOp::SetAttribute { .. })));
}

#[test]
fn text_change_sets_text() {
    let mut old_root = el("p");
    old_root.text = Some("before".to_string());
    let mut new_root = el("p");
    new_root.text = Some("after".to_string());

    let differ = Differ::new();
    let mut ops: Vec<DomOp> = Vec::new();
    differ.diff_and_patch(&old_root, &new_root, &vec![0], &vec![0], &mut ops);
    assert!(ops.iter().any(|op| matches!(
        op,
        DomOp::SetText { text: Some(t), .. } if t == "after"
    )));
}

#[test]
fn tag_change_replaces_the_node() {
    let old_root = el("div");
    let new_root = el("section");
    let differ = Differ::new();
    let mut ops: Vec<DomOp> = Vec::new();
    differ.diff_and_patch(&old_root, &new_root, &vec![0], &vec![0], &mut ops);
    assert_eq!(ops.len(), 1);
    assert!(matches!(&ops[0], DomOp::Replace { path, .. } if path == &vec![0]));
}

#[test]
fn unkeyed_children_are_rebuilt_fresh_even_when_equal() {
    let mut old_root = el("div");
    old_root.children.push(el("span"));
    let mut new_root = el("div");
    new_root.children.push(el("span"));

    let differ = Differ::new();
    let mut ops: Vec<DomOp> = Vec::new();
    differ.diff_and_patch(&old_root, &new_root, &vec![0], &vec![0], &mut ops);
    let rebuild = ops
        .iter()
        .find_map(|op| match op {
            DomOp::RebuildChildren { sources, .. } => Some(sources),
            _ => None,
        })
        .unwrap();
    // only keyed children are matched: an unkeyed child is built fresh
    assert_eq!(*rebuild, vec![ChildSource::Fresh { new_index: 0 }]);
}

#[test]
fn duplicate_sibling_keys_match_the_last_old_child() {
    let mut first = keyed("li", "a");
    first.text = Some("1".to_string());
    let mut second = keyed("li", "a");
    second.text = Some("2".to_string());
    let mut old_root = el("ul");
    old_root.children.push(first);
    old_root.children.push(second);
    let mut wanted = keyed("li", "a");
    wanted.text = Some("1".to_string());
    let mut new_root = el("ul");
    new_root.children.push(wanted);

    let differ = Differ::new();
    let mut ops: Vec<DomOp> = Vec::new();
    differ.diff_and_patch(&old_root, &new_root, &vec![0], &vec![0], &mut ops);
    let rebuild = ops
        .iter()
        .find_map(|op| match op {
            DomOp::RebuildChildren { path, sources, .. } if path == &vec![0] => Some(sources),
            _ => None,
        })
        .unwrap();
    assert_eq!(*rebuild, vec![ChildSource::Reuse { old_index: 1 }]);
    // the reused node carried the other text, so it is rewritten
    assert!(ops.iter().any(|op| matches!(
        op,
        DomOp::SetText { text: Some(t), .. } if t == "1"
    )));
}

#[test]
fn full_render_iff_no_snapshot_or_root_count_differs_from_one() {
    let current = "/".to_string();
    let mut vdom = VirtualDom::new();

    // no snapshot yet: full
    let plan = vdom.render_page(vec![el("div")], None, None, &current);
    assert!(plan.full);
    assert!(plan.ops.is_empty());
    // the snapshot is committed only once the plan was applied
    assert!(vdom.previous_vdom.is_none());
    vdom.commit(&plan);
    assert!(vdom.previous_vdom.is_some());

    // snapshot present, one root: incremental
    let plan = vdom.render_page(vec![el("div")], None, None, &current);
    assert!(!plan.full);
    vdom.commit(&plan);

    // two roots: full, even with a snapshot
    let plan = vdom.render_page(vec![el("div"), el("aside")], None, None, &current);
    assert!(plan.full);
    vdom.commit(&plan);

    // zero roots: full; committing the plan clears the snapshot
    let plan = vdom.render_page(vec![], None, None, &current);
    assert!(plan.full);
    assert!(plan.snapshot.is_none());
    vdom.commit(&plan);
    assert!(vdom.previous_vdom.is_none());

    // next render is full again
    let plan = vdom.render_page(vec![el("div")], None, None, &current);
    assert!(plan.full);
}

#[test]
fn uncommitted_plan_leaves_the_snapshot_alone() {
    let current = "/".to_string();
    let mut vdom = VirtualDom::new();
    let plan = vdom.render_page(vec![el("div")], None, None, &current);
    assert!(plan.full);
    // the document update failed: no commit, the snapshot stays empty and
    // the next render is full again
    assert!(vdom.previous_vdom.is_none());
    let plan = vdom.render_page(vec![el("div")], None, None, &current);
    assert!(plan.full);
}

#[test]
fn moved_keyed_child_with_tag_change_is_replaced_from_its_new_position() {
    let mut old_root = el("ul");
    old_root.children.push(keyed("div", "a"));
    old_root.children.push(keyed("span", "b"));
    let mut new_root = el("ul");
    new_root.children.push(keyed("p", "b"));
    new_root.children.push(keyed("div", "a"));

    let differ = Differ::new();
    let mut ops: Vec<DomOp> = Vec::new();
    differ.diff_and_patch(&old_root, &new_root, &vec![0], &vec![0], &mut ops);

    // the moved "b" child changed tag: its live node (old position 1) is
    // replaced by the new tree's node at the child's new position 0
    assert!(ops.iter().any(|op| matches!(
        op,
        DomOp::Replace { path, new_path }
            if path == &vec![0, 1] && new_path == &vec![0, 0]
    )));
    let rebuild = ops
        .iter()
        .find_map(|op| match op {
            DomOp::RebuildChildren { path, sources, .. } if path == &vec![0] => Some(sources),
            _ => None,
        })
        .unwrap();
    assert_eq!(
        *rebuild,
        vec![
            ChildSource::Reuse { old_index: 1 },
            ChildSource::Reuse { old_index: 0 },
        ]
    );
}

#[test]
fn render_page_handles_path_and_css() {
    let current = "/here".to_string();
    let mut vdom = VirtualDom::new();
    let rules = vec![(
        "body".to_string(),
        vec![
            ("color".to_string(), "red".to_string()),
            ("margin".to_string(), "0".to_string()),
        ],
    )];
    let plan = vdom.render_page(
        vec![el("div")],
        Some("/there".to_string()),
        Some(rules),
        &current,
    );
    assert_eq!(plan.history_push.as_deref(), Some("/there"));
    assert_eq!(
        plan.css_text.as_deref(),
        Some("body {\n  color: red;\n  margin: 0;\n}")
    );

    // same path: no history entry
    let plan = vdom.render_page(vec![el("div")], Some("/here".to_string()), None, &current);
    assert!(plan.history_push.is_none());
    assert!(plan.css_text.is_none());
}

#[test]
fn css_text_joins_rules_with_newlines() {
    let renderer = DomRenderer::new();
    let rules = vec![
        (
            "a".to_string(),
            vec![("color".to_string(), "blue".to_string())],
        ),
        ("p".to_string(), vec![("margin".to_string(), "1em".to_string())]),
    ];
    assert_eq!(
        renderer.apply_css_rules(&rules),
        "a {\n  color: blue;\n}\np {\n  margin: 1em;\n}"
    );
}

#[test]
fn update_history_only_on_changed_path() {
    assert!(DomRenderer::update_history(
        &"/a".to_string(),
        &"/b".to_string()
    ));
    assert!(!DomRenderer::update_history(
        &"/a".to_string(),
        &"/a".to_string()
    ));
}
