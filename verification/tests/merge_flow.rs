use std::time::Duration;

use indexmap::IndexMap;
use openapi_merge::document::{Components, Document, Operation};
use openapi_merge::file_path::dir_or_current;
use openapi_merge::merge::MergeError;
use openapi_merge::{Input, InputSource, Merge, MergeConfig, OpenAPIExt, OperationSelection};

fn input(file: &str, doc: Document, selection: Option<OperationSelection>) -> Input {
    Input {
        source: InputSource::InputFile { input_file: file.to_string() },
        operation_selection: selection,
        description: None,
        path_modification: None,
        openapi: doc,
        load_time: Duration::ZERO,
    }
}

fn handles(pairs: &[(&str, u64)]) -> IndexMap<String, u64> {
    pairs.iter().map(|(k, v)| (k.to_string(), *v)).collect()
}

fn config(inputs: Vec<Input>) -> MergeConfig {
    let mut c = MergeConfig::default();
    c.inputs = inputs;
    c.output = "out.json".to_string();
    c.source = "conf/merge.json".to_string();
    c
}

#[test]
fn merge_without_inputs_fails() {
    let r = config(Vec::new()).into_merge().merge();
    match r {
        Err(e) => {
            assert_eq!(e, MergeError::NoInputs);
            assert_eq!(e.message(), "At least one input required");
        }
        Ok(_) => panic!("merge without inputs succeeded"),
    }
}

#[test]
fn merge_of_one_input_is_its_document() {
    let mut doc = Document::empty();
    doc.tags = vec![4, 5];
    doc.merge_operation("/a", "get", &Operation { tags: vec!["old".to_string()], body: 1 });
    let sel = OperationSelection { include_tags: None, exclude_tags: Some(vec!["old".to_string()]) };
    let m = config(vec![input("a.json", doc, Some(sel))]).into_merge().merge().unwrap();
    assert_eq!(m.merged.tags, vec![4, 5]);
    // The base's own selection is not applied to its operations.
    assert_eq!(m.merged.operations().len(), 1);
    assert!(m.config.inputs.is_empty());
    assert_eq!(m.config.output, "out.json");
}

#[test]
fn first_input_wins_and_later_ones_add() {
    let mut base = Document::empty();
    base.details = Some(100);
    base.tags = vec![1];
    base.extensions = handles(&[("x-a", 1)]);
    base.merge_operation("/pets", "get", &Operation { tags: vec![], body: 10 });
    let mut c = Components::empty();
    c.schemas = handles(&[("Pet", 1)]);
    base.components = Some(c);

    let mut other = Document::empty();
    other.details = Some(200);
    other.security = Some(7);
    other.tags = vec![2, 1];
    other.extensions = handles(&[("x-a", 2), ("x-b", 3)]);
    other.merge_operation("/pets", "get", &Operation { tags: vec![], body: 20 });
    other.merge_operation("/pets", "post", &Operation { tags: vec![], body: 21 });
    other.merge_operation("/owners", "get", &Operation { tags: vec!["internal".to_string()], body: 22 });
    let mut c2 = Components::empty();
    c2.schemas = handles(&[("Pet", 2), ("Owner", 3)]);
    other.components = Some(c2);
    let sel = OperationSelection { include_tags: None, exclude_tags: Some(vec!["internal".to_string()]) };

    let m = config(vec![input("base.json", base, None), input("other.json", other, Some(sel))])
        .into_merge()
        .merge()
        .unwrap();
    let d = &m.merged;
    assert_eq!(d.details, Some(100));
    assert_eq!(d.security, None);
    assert_eq!(d.tags, vec![1, 2]);
    let ext: Vec<(String, u64)> = d.extensions.iter().map(|(k, v)| (k.clone(), *v)).collect();
    assert_eq!(ext, vec![("x-a".to_string(), 1), ("x-b".to_string(), 3)]);
    let schemas: Vec<(String, u64)> =
        d.components.as_ref().unwrap().schemas.iter().map(|(k, v)| (k.clone(), *v)).collect();
    assert_eq!(schemas, vec![("Pet".to_string(), 1), ("Owner".to_string(), 3)]);
    let ops: Vec<(String, String, u64)> =
        d.operations().into_iter().map(|(p, m, o)| (p.to_string(), m.to_string(), o.body)).collect();
    assert_eq!(
        ops,
        vec![("/pets".to_string(), "get".to_string(), 10), ("/pets".to_string(), "post".to_string(), 21)]
    );
}

#[test]
fn later_inputs_merge_in_order() {
    let mut a = Document::empty();
    a.tags = vec![1];
    let mut b = Document::empty();
    b.tags = vec![2];
    b.extensions = handles(&[("x", 2)]);
    let mut c = Document::empty();
    c.tags = vec![3, 2];
    c.extensions = handles(&[("x", 3), ("y", 3)]);
    let m = config(vec![input("a", a, None), input("b", b, None), input("c", c, None)])
        .into_merge()
        .merge()
        .unwrap();
    assert_eq!(m.merged.tags, vec![1, 2, 3]);
    let ext: Vec<(String, u64)> = m.merged.extensions.iter().map(|(k, v)| (k.clone(), *v)).collect();
    assert_eq!(ext, vec![("x".to_string(), 2), ("y".to_string(), 3)]);
}

#[test]
fn output_is_relative_to_the_configuration() {
    let mut c = MergeConfig::default();
    c.source = "conf/merge.json".to_string();
    c.output = "rest-api/user-facing-openapi.json".to_string();
    assert_eq!(c.base_dir(), "conf");
    assert_eq!(c.output(), "conf/rest-api/user-facing-openapi.json");
    c.output = "/abs/out.json".to_string();
    assert_eq!(c.output(), "/abs/out.json");
}

#[test]
fn output_next_to_a_configuration_in_the_current_directory() {
    let mut c = MergeConfig::default();
    c.source = "merge.json".to_string();
    c.output = "out.json".to_string();
    assert_eq!(c.base_dir(), "");
    assert_eq!(c.output(), "out.json");
    c.source = String::new();
    assert_eq!(c.base_dir(), ".");
    assert_eq!(c.output(), "./out.json");
}

#[test]
fn missing_parent_means_current_directory() {
    assert_eq!(dir_or_current(None), ".");
    assert_eq!(dir_or_current(Some("conf".to_string())), "conf");
}

#[test]
fn a_fresh_merge_is_empty() {
    let m = Merge::default();
    assert!(m.merged.paths.is_empty());
    assert!(m.merged.tags.is_empty());
    assert!(m.config.inputs.is_empty());
    let m2 = Merge::from(MergeConfig::default());
    assert!(m2.merged.components.is_none());
}
