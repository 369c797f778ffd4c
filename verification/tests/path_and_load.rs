use std::time::Duration;

use openapi_merge::document::{Document, Operation, PathEntry};
use openapi_merge::input::path::modify_path;
use openapi_merge::input::LoadError;
use openapi_merge::{Input, InputSource, MergeConfig, OpenAPIExt, PathModification};

fn modification(strip: Option<&str>, prepend: Option<&str>) -> PathModification {
    PathModification { strip_start: strip.map(String::from), prepend: prepend.map(String::from) }
}

fn input(doc: Document, m: Option<PathModification>) -> Input {
    Input {
        source: InputSource::InputFile { input_file: "a.json".to_string() },
        operation_selection: None,
        description: None,
        path_modification: m,
        openapi: doc,
        load_time: Duration::ZERO,
    }
}

#[test]
fn strip_then_prepend() {
    let m = modification(Some("/a"), Some("/b"));
    assert_eq!(m.apply("/a/x"), "/b/x");
    assert_eq!(m.apply("/c/x"), "/b/c/x");
}

#[test]
fn strip_only_where_found() {
    let m = modification(Some("/api"), None);
    assert_eq!(m.apply("/api/pets"), "/pets");
    assert_eq!(m.apply("/ap"), "/ap");
    assert_eq!(m.apply("/pets"), "/pets");
}

#[test]
fn prepend_only_and_no_modification() {
    assert_eq!(modification(None, Some("/v1")).apply("/pets"), "/v1/pets");
    assert_eq!(modification(None, None).apply("/pets"), "/pets");
    assert_eq!(modify_path(&None, "/pets"), "/pets");
    assert_eq!(modify_path(&Some(modification(Some("/é"), Some("/ü"))), "/é/x"), "/ü/x");
}

#[test]
fn merged_operations_land_at_modified_paths() {
    let base = Document::empty();
    let mut other = Document::empty();
    other.merge_operation("/a/x", "get", &Operation { tags: vec![], body: 5 });
    let mut config = MergeConfig::default();
    config.inputs = vec![input(base, None), input(other, Some(modification(Some("/a"), Some("/b"))))];
    let m = config.into_merge().merge().unwrap();
    assert!(m.merged.paths.get("/a/x").is_none());
    match m.merged.paths.get("/b/x") {
        Some(PathEntry::Item(item)) => assert_eq!(item.get.as_ref().map(|o| o.body), Some(5)),
        _ => panic!("operation not merged at the modified path"),
    }
}

#[test]
fn load_parses_an_openapi_document() {
    let text = r#"{"openapi":"3.0.0","info":{"title":"t","version":"1"},"paths":{"/pets":{"get":{"responses":{}}}}}"#;
    let (i, api) = input(Document::empty(), None).load(text).unwrap();
    assert_eq!(api.openapi, "3.0.0");
    assert!(api.paths.paths.contains_key("/pets"));
    assert!(i.path_modification.is_none());
}

#[test]
fn load_rejects_text_that_is_no_document() {
    match input(Document::empty(), None).load("not json") {
        Err(LoadError::Parse(_)) => {}
        Ok(_) => panic!("parsed text that is not JSON"),
    }
    assert!(input(Document::empty(), None).load(r#"{"openapi":"3.0.0"}"#).is_err());
}
