use std::time::Duration;

use openapi_merge::document::{Document, Operation};
use openapi_merge::input::{Dispute, PrefixOrSuffix};
use openapi_merge::{Input, InputSource, OpenAPIExt, OperationSelection};

fn strings(v: &[&str]) -> Vec<String> {
    v.iter().map(|s| s.to_string()).collect()
}

fn op(tags: &[&str]) -> Operation {
    Operation { tags: strings(tags), body: 0 }
}

fn selection(wanted: Option<&[&str]>, unwanted: Option<&[&str]>) -> OperationSelection {
    OperationSelection { include_tags: wanted.map(strings), exclude_tags: unwanted.map(strings) }
}

fn input_with(selection: Option<OperationSelection>) -> Input {
    Input {
        source: InputSource::InputFile { input_file: "a.json".to_string() },
        operation_selection: selection,
        description: None,
        path_modification: None,
        openapi: Document::empty(),
        load_time: Duration::ZERO,
    }
}

#[test]
fn selection_without_lists_takes_everything() {
    let s = selection(None, None);
    assert!(s.filter_operation(&op(&[])));
    assert!(s.filter_operation(&op(&["a"])));
}

#[test]
fn excluded_tag_drops_the_operation() {
    let s = selection(None, Some(&["deprecated"]));
    assert!(!s.filter_operation(&op(&["x", "deprecated"])));
    assert!(s.filter_operation(&op(&["x"])));
}

#[test]
fn include_list_takes_only_its_tags() {
    let s = selection(Some(&["public"]), None);
    assert!(s.filter_operation(&op(&["public", "v1"])));
    assert!(!s.filter_operation(&op(&["internal"])));
    assert!(!s.filter_operation(&op(&[])));
}

#[test]
fn exclusion_wins_over_inclusion() {
    let s = selection(Some(&["a"]), Some(&["b"]));
    assert!(!s.filter_operation(&op(&["a", "b"])));
    assert!(s.filter_operation(&op(&["a"])));
}

#[test]
fn empty_include_list_takes_nothing() {
    let s = selection(Some(&[]), None);
    assert!(!s.filter_operation(&op(&["a"])));
}

#[test]
fn input_operations_apply_the_selection() {
    let mut input = input_with(Some(selection(None, Some(&["old"]))));
    input.openapi.merge_operation("/a", "get", &Operation { tags: strings(&["old"]), body: 1 });
    input.openapi.merge_operation("/a", "post", &Operation { tags: strings(&["new"]), body: 2 });
    let ops: Vec<u64> = input.operations().into_iter().map(|(_, _, o)| o.body).collect();
    assert_eq!(ops, vec![2]);
    let all = input_with(None);
    assert!(all.operations().is_empty());
}

#[test]
fn taking_parts_of_an_input_leaves_nothing_behind() {
    let mut input = input_with(None);
    input.openapi.tags = vec![1, 2];
    input.openapi.security = Some(3);
    assert_eq!(input.tags(), vec![1, 2]);
    assert!(input.openapi.tags.is_empty());
    assert_eq!(input.security(), Some(3));
    assert_eq!(input.openapi.security, None);
    assert!(input.components().is_none());
    assert!(input.extensions().is_empty());
}

#[test]
fn dispute_prefix_applies_only_when_always() {
    let d = Dispute { always_apply: Some(true), dispute: PrefixOrSuffix::prefix("SomePrefix") };
    assert_eq!(d.need_prefix(), Some("SomePrefix"));
    assert_eq!(d.need_suffix(), None);
    let d = Dispute { always_apply: None, dispute: PrefixOrSuffix::prefix("SomePrefix") };
    assert_eq!(d.need_prefix(), None);
    let d = Dispute { always_apply: Some(false), dispute: PrefixOrSuffix::prefix("SomePrefix") };
    assert_eq!(d.need_prefix(), None);
}

#[test]
fn dispute_suffix_applies_only_when_always() {
    let d = Dispute { always_apply: Some(true), dispute: PrefixOrSuffix::suffix("SomeSuffix") };
    assert_eq!(d.need_suffix(), Some("SomeSuffix"));
    assert_eq!(d.need_prefix(), None);
    assert_eq!(d.dispute, PrefixOrSuffix::Suffix { suffix: "SomeSuffix".to_string() });
    assert_eq!(d.dispute.get_suffix(), Some("SomeSuffix"));
    assert_eq!(d.dispute.get_prefix(), None);
}

#[test]
fn input_source_load_joins_onto_the_base() {
    let s = InputSource::InputFile { input_file: "mod1/openapi.json".to_string() };
    assert_eq!(s.load("conf"), "conf/mod1/openapi.json");
    let abs = InputSource::InputFile { input_file: "/abs/openapi.json".to_string() };
    assert_eq!(abs.load("conf"), "/abs/openapi.json");
}

#[test]
fn input_source_as_text() {
    let s = InputSource::InputFile { input_file: "a/b.json".to_string() };
    assert_eq!(s.to_string(), "a/b.json");
    let u = InputSource::InputUrl { input_url: "https://example.com/x.json".to_string() };
    assert_eq!(u.to_string(), "https://example.com/x.json");
}
