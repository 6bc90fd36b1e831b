use attr_helpers::{
    get_macro_attr_value_ident, get_macro_nested_attr_value_ident,
    get_namespace_nested_metas_vec_from_metas, get_namespace_nested_metas_vec_from_nested_metas,
    HelperError, Lit, MetaNode, MetaPath, NestedMeta,
};

fn path(segments: &[&str]) -> MetaPath {
    MetaPath {
        leading_colon: false,
        segments: segments.iter().map(|s| s.to_string()).collect(),
    }
}

fn kv(key: &str, value: &str) -> MetaNode {
    MetaNode::KeyValue(path(&[key]), Lit::Str(value.to_string()))
}

fn list(name: &str, children: Vec<NestedMeta>) -> MetaNode {
    MetaNode::List(path(&[name]), children)
}

fn names(items: &[&str]) -> Vec<String> {
    items.iter().map(|s| s.to_string()).collect()
}

#[test]
fn top_level_key_resolves() {
    let node = kv("key", "value");
    let r = get_macro_attr_value_ident(vec![&node], "key", None, None);
    assert_eq!(r.unwrap(), Some("value".to_string()));
}

#[test]
fn top_level_other_key_is_none() {
    let node = kv("key", "value");
    let r = get_macro_attr_value_ident(vec![&node], "other", None, None);
    assert_eq!(r.unwrap(), None);
}

#[test]
fn nested_key_found_at_full_namespace() {
    let tree = list("outer", vec![NestedMeta::Node(list("inner", vec![NestedMeta::Node(kv(
        "key", "value",
    ))]))]);
    let r = get_macro_attr_value_ident(
        vec![&tree],
        "key",
        Some(names(&["outer", "inner"])),
        None,
    );
    assert_eq!(r.unwrap(), Some("value".to_string()));
}

#[test]
fn nested_key_one_level_short_is_none() {
    let tree = list("outer", vec![NestedMeta::Node(list("inner", vec![NestedMeta::Node(kv(
        "key", "value",
    ))]))]);
    let r = get_macro_attr_value_ident(vec![&tree], "key", Some(names(&["outer"])), None);
    assert_eq!(r.unwrap(), None);
}

#[test]
fn first_sibling_group_wins() {
    let first = list("col", vec![NestedMeta::Node(kv("name", "a"))]);
    let second = list("col", vec![NestedMeta::Node(kv("name", "b"))]);
    let r = get_macro_attr_value_ident(
        vec![&first, &second],
        "name",
        Some(names(&["col"])),
        None,
    );
    assert_eq!(r.unwrap(), Some("a".to_string()));
}

#[test]
fn second_group_reached_when_first_lacks_key() {
    let first = list("col", vec![NestedMeta::Node(kv("other", "a"))]);
    let second = list("col", vec![NestedMeta::Node(kv("name", "b"))]);
    let r = get_macro_attr_value_ident(
        vec![&first, &second],
        "name",
        Some(names(&["col"])),
        None,
    );
    assert_eq!(r.unwrap(), Some("b".to_string()));
}

#[test]
fn disallowed_key_in_first_group_rejects_resolution() {
    // the target key exists in the second candidate group, but the first
    // group holds a key off the allow-list, so resolution fails first
    let first = list("ns", vec![NestedMeta::Node(kv("c", "x"))]);
    let second = list("ns", vec![NestedMeta::Node(kv("a", "y"))]);
    let r = get_macro_attr_value_ident(
        vec![&first, &second],
        "a",
        Some(names(&["ns"])),
        Some(names(&["a", "b"])),
    );
    match r {
        Err(HelperError::Disallowed(p, l)) => {
            assert_eq!(p.segments, names(&["c"]));
            assert_eq!(l, names(&["a", "b"]));
        },
        _ => panic!("expected the disallowed-key error"),
    }
}

#[test]
fn absent_key_in_valid_tree_is_none() {
    let first = list("ns", vec![NestedMeta::Node(kv("a", "x"))]);
    let second = list("ns", vec![NestedMeta::Node(kv("b", "y"))]);
    let r = get_macro_attr_value_ident(
        vec![&first, &second],
        "missing",
        Some(names(&["ns"])),
        Some(names(&["a", "b", "missing"])),
    );
    assert_eq!(r.unwrap(), None);
}

#[test]
fn top_level_scan_validates_node_by_node() {
    // direct scan: the matching node comes before the disallowed one, so the
    // value is returned without the later node being validated
    let good = kv("a", "y");
    let bad = kv("c", "x");
    let r = get_macro_attr_value_ident(
        vec![&good, &bad],
        "a",
        None,
        Some(names(&["a", "b"])),
    );
    assert_eq!(r.unwrap(), Some("y".to_string()));
}

#[test]
fn nested_scan_validates_whole_group_first() {
    // group resolution: the whole group is validated before it is searched,
    // so the disallowed key after the match still rejects the resolution
    let nodes = vec![NestedMeta::Node(kv("a", "y")), NestedMeta::Node(kv("c", "x"))];
    let refs: Vec<&NestedMeta> = nodes.iter().collect();
    let r = get_macro_nested_attr_value_ident(refs, "a", None, Some(names(&["a", "b"])));
    match r {
        Err(HelperError::Disallowed(p, l)) => {
            assert_eq!(p.segments, names(&["c"]));
            assert_eq!(l, names(&["a", "b"]));
        },
        _ => panic!("expected the disallowed-key error"),
    }
}

#[test]
fn nested_resolution_descends_namespaces() {
    let nodes = vec![NestedMeta::Node(list("inner", vec![NestedMeta::Node(kv(
        "key", "value",
    ))]))];
    let refs: Vec<&NestedMeta> = nodes.iter().collect();
    let r = get_macro_nested_attr_value_ident(refs, "key", Some(names(&["inner"])), None);
    assert_eq!(r.unwrap(), Some("value".to_string()));
}

#[test]
fn marker_and_bare_literal_nodes_are_passed_over() {
    let marker = MetaNode::Marker(path(&["ignore"]));
    let tree = list("ns", vec![
        NestedMeta::Lit(Lit::Str("stray".to_string())),
        NestedMeta::Node(kv("key", "value")),
    ]);
    let r = get_macro_attr_value_ident(
        vec![&marker, &tree],
        "key",
        Some(names(&["ns"])),
        Some(names(&["key"])),
    );
    assert_eq!(r.unwrap(), Some("value".to_string()));
}

#[test]
fn leading_colon_key_is_no_identifier() {
    // a key written `::key` is not a plain identifier: it never matches the
    // target key, and under an allow-list it matches no allowed name either
    let colon_kv = MetaNode::KeyValue(
        MetaPath { leading_colon: true, segments: vec!["key".to_string()] },
        Lit::Str("value".to_string()),
    );
    let r = get_macro_attr_value_ident(vec![&colon_kv], "key", None, None);
    assert_eq!(r.unwrap(), None);
    let rejected = get_macro_attr_value_ident(vec![&colon_kv], "key", None, Some(names(&["key"])));
    assert!(matches!(rejected, Err(HelperError::Disallowed(_, _))));
}

#[test]
fn non_string_literal_value_does_not_match() {
    let node = MetaNode::KeyValue(path(&["key"]), Lit::Other);
    let r = get_macro_attr_value_ident(vec![&node], "key", None, None);
    assert_eq!(r.unwrap(), None);
}

#[test]
fn namespace_matches_last_path_segment() {
    let tree = MetaNode::List(path(&["sqlx", "arel"]), vec![NestedMeta::Node(kv(
        "name", "users",
    ))]);
    let r = get_macro_attr_value_ident(vec![&tree], "name", Some(names(&["arel"])), None);
    assert_eq!(r.unwrap(), Some("users".to_string()));
    let miss = get_macro_attr_value_ident(vec![&tree], "name", Some(names(&["sqlx"])), None);
    assert_eq!(miss.unwrap(), None);
}

#[test]
fn descent_from_metas_gathers_sibling_groups() {
    let first = list("col", vec![NestedMeta::Node(kv("name", "a"))]);
    let second = list("col", vec![
        NestedMeta::Node(kv("name", "b")),
        NestedMeta::Node(kv("kind", "c")),
    ]);
    let r = get_namespace_nested_metas_vec_from_metas(vec![&first, &second], names(&["col"]));
    let groups = r.unwrap().unwrap();
    assert_eq!(groups.len(), 2);
    assert_eq!(groups[0].len(), 1);
    assert_eq!(groups[1].len(), 2);
}

#[test]
fn descent_from_metas_with_empty_namespace_is_none() {
    let first = list("col", vec![NestedMeta::Node(kv("name", "a"))]);
    let r = get_namespace_nested_metas_vec_from_metas(vec![&first], Vec::new());
    assert!(r.unwrap().is_none());
}

#[test]
fn descent_from_nested_with_empty_namespace_is_whole_input() {
    let nodes = vec![NestedMeta::Node(kv("name", "a")), NestedMeta::Node(kv("kind", "b"))];
    let refs: Vec<&NestedMeta> = nodes.iter().collect();
    let r = get_namespace_nested_metas_vec_from_nested_metas(refs, Vec::new());
    let groups = r.unwrap().unwrap();
    assert_eq!(groups.len(), 1);
    assert_eq!(groups[0].len(), 2);
}

#[test]
fn descent_without_match_is_none() {
    let first = list("col", vec![NestedMeta::Node(kv("name", "a"))]);
    let r = get_namespace_nested_metas_vec_from_metas(vec![&first], names(&["row"]));
    assert!(r.unwrap().is_none());
}
