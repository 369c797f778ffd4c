use indexmap::IndexMap;
use openapi_merge::document::{Components, Document, Operation, PathEntry, PathItem};
use openapi_merge::ext::{Method, OpenAPIExt};
use openapi_merge::ordered::{merge_handle_list, merge_handle_map};

fn handles(pairs: &[(&str, u64)]) -> IndexMap<String, u64> {
    pairs.iter().map(|(k, v)| (k.to_string(), *v)).collect()
}

fn entries(m: &IndexMap<String, u64>) -> Vec<(String, u64)> {
    m.iter().map(|(k, v)| (k.clone(), *v)).collect()
}

fn op(body: u64, tags: &[&str]) -> Operation {
    Operation { tags: tags.iter().map(|t| t.to_string()).collect(), body }
}

fn item(entry: &PathEntry) -> &PathItem {
    match entry {
        PathEntry::Item(item) => item,
        PathEntry::Reference { .. } => panic!("expected a path item"),
    }
}

#[test]
fn map_merge_keeps_existing_and_appends_new_in_order() {
    let mut base = handles(&[("a", 1), ("b", 2)]);
    merge_handle_map(&mut base, handles(&[("c", 3), ("b", 20), ("d", 4)]));
    assert_eq!(
        entries(&base),
        vec![("a".to_string(), 1), ("b".to_string(), 2), ("c".to_string(), 3), ("d".to_string(), 4)]
    );
}

#[test]
fn map_merge_with_itself_or_empty_changes_nothing() {
    let mut base = handles(&[("a", 1), ("b", 2)]);
    merge_handle_map(&mut base, handles(&[("a", 1), ("b", 2)]));
    merge_handle_map(&mut base, IndexMap::new());
    assert_eq!(entries(&base), vec![("a".to_string(), 1), ("b".to_string(), 2)]);
}

#[test]
fn map_merge_into_empty_gives_other() {
    let mut base = IndexMap::new();
    merge_handle_map(&mut base, handles(&[("x", 9), ("y", 8)]));
    assert_eq!(entries(&base), vec![("x".to_string(), 9), ("y".to_string(), 8)]);
}

#[test]
fn tag_merge_appends_missing_tags_once() {
    let mut tags = vec![1, 2];
    merge_handle_list(&mut tags, vec![2, 3, 3, 1, 4]);
    assert_eq!(tags, vec![1, 2, 3, 4]);
}

#[test]
fn method_names_ignore_ascii_case() {
    assert_eq!(Method::parse("get"), Some(Method::Get));
    assert_eq!(Method::parse("GET"), Some(Method::Get));
    assert_eq!(Method::parse("Patch"), Some(Method::Patch));
    assert_eq!(Method::parse("TRACE"), Some(Method::Trace));
    assert_eq!(Method::parse("connect"), None);
    assert_eq!(Method::parse(""), None);
}

#[test]
fn merge_operation_adds_a_new_path() {
    let mut doc = Document::empty();
    doc.merge_operation("/pets", "post", &op(7, &["pets"]));
    assert_eq!(doc.paths.len(), 1);
    let entry = doc.paths.get("/pets").unwrap();
    let it = item(entry);
    assert_eq!(it.post.as_ref().map(|o| o.body), Some(7));
    assert!(it.get.is_none());
}

#[test]
fn merge_operation_never_replaces_an_operation() {
    let mut doc = Document::empty();
    doc.merge_operation("/pets", "get", &op(1, &[]));
    doc.merge_operation("/pets", "GET", &op(2, &[]));
    doc.merge_operation("/pets", "put", &op(3, &[]));
    let it = item(doc.paths.get("/pets").unwrap());
    assert_eq!(it.get.as_ref().map(|o| o.body), Some(1));
    assert_eq!(it.put.as_ref().map(|o| o.body), Some(3));
    assert_eq!(doc.paths.len(), 1);
}

#[test]
fn merge_operation_leaves_references_alone() {
    let mut doc = Document::empty();
    doc.paths.insert("/ref".to_string(), PathEntry::Reference { reference: "#/x".to_string() });
    doc.merge_operation("/ref", "get", &op(1, &[]));
    match doc.paths.get("/ref").unwrap() {
        PathEntry::Reference { reference } => assert_eq!(reference, "#/x"),
        PathEntry::Item(_) => panic!("reference was replaced"),
    }
}

#[test]
fn merge_operation_with_unknown_method_still_adds_the_path() {
    let mut doc = Document::empty();
    doc.merge_operation("/x", "connect", &op(1, &[]));
    let it = item(doc.paths.get("/x").unwrap());
    assert!(it.get.is_none() && it.post.is_none() && it.trace.is_none());
}

#[test]
fn operations_come_path_by_path_in_method_order() {
    let mut doc = Document::empty();
    doc.merge_operation("/b", "trace", &op(1, &[]));
    doc.merge_operation("/b", "get", &op(2, &[]));
    doc.merge_operation("/a", "delete", &op(3, &[]));
    doc.paths.insert("/r".to_string(), PathEntry::Reference { reference: "#/r".to_string() });
    let ops: Vec<(String, String, u64)> = doc
        .operations()
        .into_iter()
        .map(|(p, m, o)| (p.to_string(), m.to_string(), o.body))
        .collect();
    assert_eq!(
        ops,
        vec![
            ("/b".to_string(), "get".to_string(), 2),
            ("/b".to_string(), "trace".to_string(), 1),
            ("/a".to_string(), "delete".to_string(), 3),
        ]
    );
}

#[test]
fn merge_components_creates_and_merges() {
    let mut doc = Document::empty();
    let mut c = Components::empty();
    c.schemas = handles(&[("Pet", 1)]);
    doc.merge_components(Some(c));
    let mut c2 = Components::empty();
    c2.schemas = handles(&[("Pet", 2), ("Owner", 3)]);
    c2.links = handles(&[("l", 4)]);
    doc.merge_components(Some(c2));
    doc.merge_components(None);
    let comps = doc.components.as_ref().unwrap();
    assert_eq!(entries(&comps.schemas), vec![("Pet".to_string(), 1), ("Owner".to_string(), 3)]);
    assert_eq!(entries(&comps.links), vec![("l".to_string(), 4)]);
}

#[test]
fn merge_components_of_nothing_keeps_none() {
    let mut doc = Document::empty();
    doc.merge_components(None);
    assert!(doc.components.is_none());
}

#[test]
fn merge_security_changes_nothing() {
    let mut doc = Document::empty();
    doc.security = Some(5);
    doc.merge_security(Some(9));
    assert_eq!(doc.security, Some(5));
}

#[test]
fn merge_tags_and_extensions() {
    let mut doc = Document::empty();
    doc.tags = vec![10];
    doc.extensions = handles(&[("x-a", 1)]);
    doc.merge_tags(vec![11, 10]);
    doc.merge_extensions(handles(&[("x-a", 2), ("x-b", 3)]));
    assert_eq!(doc.tags, vec![10, 11]);
    assert_eq!(entries(&doc.extensions), vec![("x-a".to_string(), 1), ("x-b".to_string(), 3)]);
}
