use satz_studio::model::{AttrRow, AttrType, ResourceKind, ResourceNode, SourceValue, StrPart};
use satz_studio::resources::{
    find_node, kind_icon, kind_label, label_of, lock_reason, node_at_line, supporting_of,
    type_label,
};

fn attr(id: usize, key: &str, line: u32) -> AttrRow {
    AttrRow {
        id,
        key: key.to_string(),
        value: SourceValue::Str { raw: String::new(), parts: vec![StrPart::Lit(String::new())] },
        typed: AttrType::Str,
        required: false,
        optional: true,
        computed: false,
        editable: true,
        line,
    }
}

fn node(id: usize, key: &str, line: u32, attrs: Vec<AttrRow>, children: Vec<ResourceNode>) -> ResourceNode {
    ResourceNode {
        id,
        kind: ResourceKind::Resource,
        key: key.to_string(),
        label: None,
        tf_type: Some("google_folder".to_string()),
        line,
        attrs,
        children,
    }
}

#[test]
fn a_line_selects_the_node_whose_attribute_it_is_else_the_innermost_block_open_there() {
    let outline = vec![node(
        1,
        "google_folder",
        1,
        vec![],
        vec![
            node(
                2,
                "infra",
                2,
                vec![attr(3, "display_name", 3)],
                vec![node(4, "google_project", 4, vec![], vec![node(5, "infra", 5, vec![attr(6, "name", 6)], vec![])])],
            ),
            node(10, "logging", 10, vec![attr(11, "display_name", 11)], vec![]),
        ],
    )];
    assert_eq!(node_at_line(&outline, 3), Some(2));
    assert_eq!(node_at_line(&outline, 6), Some(5));
    assert_eq!(node_at_line(&outline, 11), Some(10));
    assert_eq!(node_at_line(&outline, 5), Some(5));
    assert_eq!(node_at_line(&outline, 7), Some(5));
    assert_eq!(node_at_line(&outline, 1), Some(1));
    assert_eq!(node_at_line(&outline, 13), Some(10));
    let empty: Vec<ResourceNode> = Vec::new();
    assert_eq!(node_at_line(&empty, 3), None);
    assert_eq!(find_node(&outline, 5).map(|n| n.key.as_str()), Some("infra"));
    assert_eq!(find_node(&outline, 99), None);
}

#[test]
fn a_lock_names_its_reason() {
    let mut r = attr(1, "import-id", 1);
    r.editable = false;
    assert_eq!(lock_reason(&r, true), Some("written by satz adopt"));
    let mut c = attr(1, "id", 1);
    c.editable = false;
    c.computed = true;
    c.optional = false;
    assert_eq!(lock_reason(&c, true), Some("computed by the provider"));
    let mut u = attr(1, "x", 1);
    u.editable = false;
    assert_eq!(lock_reason(&u, false), Some("not in the schema"));
    assert_eq!(lock_reason(&attr(1, "name", 1), true), None);
    assert_eq!(lock_reason(&u, true), Some("read-only"));
}

#[test]
fn a_tree_row_names_a_resource_and_counts_a_map() {
    let mut n = node(1, "infra", 1, vec![], vec![]);
    n.label = Some("acme-infra".into());
    assert_eq!(label_of(&n), "acme-infra");
    assert_eq!(supporting_of(&n), "google_folder");
    let mut map = node(2, "google_folder", 1, vec![], vec![node(3, "a", 2, vec![], vec![])]);
    map.kind = ResourceKind::ResourceMap;
    map.label = Some("ignored".into());
    assert_eq!(label_of(&map), "google_folder");
    assert_eq!(supporting_of(&map), "1 resource");
    map.children.push(node(4, "b", 3, vec![], vec![]));
    assert_eq!(supporting_of(&map), "2 resources");
    map.kind = ResourceKind::Config;
    assert_eq!(supporting_of(&map), "");
    assert_eq!(kind_icon(ResourceKind::MemberGrant), "person");
    assert_eq!(kind_label(ResourceKind::Unknown), "not in the schema");
}

#[test]
fn a_type_reads_in_words() {
    let mut a = attr(1, "x", 1);
    a.typed = AttrType::ListOf(Box::new(AttrType::MapOf(Box::new(AttrType::Number))));
    assert_eq!(type_label(&a), "list of map of number");
    a.typed = AttrType::Unknown;
    assert_eq!(type_label(&a), "untyped");
}
