//! Merging the inputs of a configuration into one document.
use vstd::prelude::*;
use std::time::Duration;
use crate::clock::{elapsed, now, zero_duration};
use crate::config::MergeConfig;
use crate::document::{ComponentsView, Document, DocumentView, OpView, ops_view, doc_ops};
use crate::ext::{
    OpenAPIExt, law_merge_operations_keeps, law_paths_extend_trans, merge_components_spec,
    merge_operations_spec, paths_extend,
};
use crate::index_map::{has_key, keys_unique};
use crate::input::operation::OperationSelectionView;
use crate::input::path::{PathModificationView, modification_view, modified_path, modify_path};
use crate::input::{Input, select_ops, selection_view};
use crate::ordered::{
    law_merge_entries_keeps_base, law_merge_entries_keys, law_merge_items_contents,
    law_merge_items_keeps_base, merge_entries, merge_items,
};

verus! {

/// Why a merge failed.
#[derive(Debug, PartialEq, Eq, Structural)]
pub enum MergeError {
    /// The configuration names no input.
    NoInputs,
}

impl MergeError {
    /// What went wrong, in words.
    pub fn message(&self) -> (r: &str)
        ensures
            r@ == "At least one input required"@,
    {
        match self {
            MergeError::NoInputs => "At least one input required",
        }
    }
}

/// A merge: its configuration, the merged document, and timings.
pub struct Merge {
    pub config: MergeConfig,
    pub merged: Document,
    pub merge_time: Duration,
    pub save_time: Duration,
}

/// A document after another input's document is merged into it: components,
/// tags and extensions are added where the document lacks them, the
/// operations that the input's selection takes are offered one by one, each
/// at its path as the input's path modification rewrites it, and everything
/// else stays as it is. Security requirements are not merged.
pub open spec fn merge_into_spec(
    base: DocumentView,
    other: DocumentView,
    sel: Option<OperationSelectionView>,
    m: Option<PathModificationView>,
) -> DocumentView {
    DocumentView {
        details: base.details,
        paths: merge_operations_spec(base.paths, move_ops(select_ops(doc_ops(other.paths), sel), m)),
        components: merge_components_spec(base.components, other.components),
        security: base.security,
        tags: merge_items(base.tags, other.tags),
        extensions: merge_entries(base.extensions, other.extensions),
    }
}

/// The operations of `ops`, each moved to the path that the modification
/// gives for its own.
pub open spec fn move_ops(ops: Seq<OpView>, m: Option<PathModificationView>) -> Seq<OpView> {
    ops.map_values(|o: OpView| (modified_path(m, o.0), o.1, o.2))
}

/// The document of each input, with its selection and path modification.
pub open spec fn input_parts(inputs: Seq<Input>) -> Seq<(DocumentView, Option<OperationSelectionView>, Option<PathModificationView>)> {
    inputs.map_values(
        |i: Input|
            (i.openapi@, selection_view(i.operation_selection), modification_view(i.path_modification)),
    )
}

/// `base` after each of `others` is merged into it in turn.
pub open spec fn merge_all(base: DocumentView, others: Seq<(DocumentView, Option<OperationSelectionView>, Option<PathModificationView>)>) -> DocumentView
    decreases others.len(),
{
    if others.len() == 0 {
        base
    } else {
        let acc = merge_all(base, others.drop_last());
        merge_into_spec(acc, others.last().0, others.last().1, others.last().2)
    }
}

/// The document that merging `inputs` gives: the first one's document with
/// each later one merged into it in turn.
pub open spec fn merged_inputs(inputs: Seq<Input>) -> DocumentView
    recommends
        inputs.len() > 0,
{
    merge_all(inputs[0].openapi@, input_parts(inputs.skip(1)))
}

/// Merges the document of `other` into that of `base`; the other fields of
/// `base` stay as they are.
pub fn merge_into_base(base: Input, other: Input) -> (r: Input)
    ensures
        r.openapi@ == merge_into_spec(
            base.openapi@,
            other.openapi@,
            selection_view(other.operation_selection),
            modification_view(other.path_modification),
        ),
        r.same_besides_document(&base),
{
    let ghost other0 = other.openapi@;
    let Input { source, operation_selection, description, path_modification, openapi, load_time } = base;
    let mut other = other;
    let mut openapi = openapi;
    openapi.merge_components(other.components());
    openapi.merge_security(other.security());
    openapi.merge_tags(other.tags());
    openapi.merge_extensions(other.extensions());
    let ghost mid = openapi@;
    let ops = other.operations();
    let ghost sel = selection_view(other.operation_selection);
    let ghost pm = modification_view(other.path_modification);
    let ghost moved = move_ops(ops_view(ops@), pm);
    assert(ops_view(ops@) == select_ops(doc_ops(other0.paths), sel));
    let mut i: usize = 0;
    assert(moved.take(0) =~= Seq::<OpView>::empty());
    while i < ops.len()
        invariant
            i <= ops@.len(),
            moved == move_ops(ops_view(ops@), pm),
            pm == modification_view(other.path_modification),
            openapi@ == (DocumentView {
                paths: merge_operations_spec(mid.paths, moved.take(i as int)),
                ..mid
            }),
        decreases ops@.len() - i,
    {
        let (path, method, operation) = ops[i];
        let target = modify_path(&other.path_modification, path);
        assert(moved.take(i + 1).drop_last() =~= moved.take(i as int));
        assert(moved.take(i + 1).last() == (target@, method@, operation@));
        openapi.merge_operation(target.as_str(), method, operation);
        i = i + 1;
    }
    assert(moved.take(ops@.len() as int) =~= moved);
    Input { source, operation_selection, description, path_modification, openapi, load_time }
}

impl Merge {
    /// Merges the inputs of the configuration, in order, into the first
    /// one's document, and records how long it took; the configuration is
    /// left without inputs. Fails when there is no input.
    pub fn merge(self) -> (r: Result<Merge, MergeError>)
        ensures
            r is Err <==> self.config.inputs@.len() == 0,
            r matches Ok(m) ==> {
                &&& m.merged@ == merged_inputs(self.config.inputs@)
                &&& m.config == (MergeConfig { inputs: m.config.inputs, ..self.config })
                &&& m.config.inputs@.len() == 0
                &&& m.save_time == self.save_time
            },
    {
        let start = now();
        let Merge { config, merged: _, merge_time: _, save_time } = self;
        let mut config = config;
        let mut inputs: Vec<Input> = Vec::new();
        std::mem::swap(&mut inputs, &mut config.inputs);
        if inputs.len() == 0 {
            return Err(MergeError::NoInputs);
        }
        let ghost all = inputs@;
        let mut acc = inputs.remove(0);
        let ghost n = all.len();
        let mut k: usize = 1;
        assert(input_parts(all.skip(1)).take(0) =~= Seq::<(DocumentView, Option<OperationSelectionView>, Option<PathModificationView>)>::empty());
        while inputs.len() > 0
            invariant
                1 <= k <= n,
                n == all.len(),
                n <= usize::MAX,
                inputs@ == all.subrange(k as int, n as int),
                acc.openapi@ == merge_all(all[0].openapi@, input_parts(all.skip(1)).take(k - 1)),
            decreases inputs@.len(),
        {
            assert(k < n);
            let other = inputs.remove(0);
            let ghost parts = input_parts(all.skip(1));
            assert(parts.take(k as int).drop_last() =~= parts.take(k - 1));
            assert(other == all[k as int]);
            assert(parts.take(k as int).last() == parts[k - 1]);
            assert(all.skip(1)[k - 1] == all[k as int]);
            acc = merge_into_base(acc, other);
            k = k + 1;
        }
        assert(input_parts(all.skip(1)).take(n - 1) =~= input_parts(all.skip(1)));
        let merged = acc.openapi;
        let merge_time = elapsed(&start);
        Ok(Merge { config, merged, merge_time, save_time })
    }
}

impl From<MergeConfig> for Merge {
    /// The merge of a configuration, with nothing merged yet.
    fn from(config: MergeConfig) -> (r: Merge)
        ensures
            r.config == config,
            r.merged@ == DocumentView::empty(),
    {
        Merge { config, merged: Document::empty(), merge_time: zero_duration(), save_time: zero_duration() }
    }
}

impl vstd::std_specs::convert::FromSpecImpl<MergeConfig> for Merge {
    open spec fn obeys_from_spec() -> bool {
        false
    }

    open spec fn from_spec(config: MergeConfig) -> Merge {
        choose|m: Merge| m.config == config && m.merged@ == DocumentView::empty()
    }
}

impl Default for Merge {
    /// The merge of the default configuration, with nothing merged yet.
    fn default() -> (r: Merge)
        ensures
            r.config.inputs@.len() == 0,
            r.merged@ == DocumentView::empty(),
    {
        Merge::from(MergeConfig::default())
    }
}

/// `b` starts with `a`.
pub open spec fn is_prefix<T>(a: Seq<T>, b: Seq<T>) -> bool {
    a.len() <= b.len() && b.subrange(0, a.len() as int) == a
}

/// `b` keeps every entry of the component maps of `a`, in place.
pub open spec fn components_extend(a: Option<ComponentsView>, b: Option<ComponentsView>) -> bool {
    match a {
        None => true,
        Some(ca) => match b {
            None => false,
            Some(cb) => {
                &&& is_prefix(ca.schemas, cb.schemas)
                &&& is_prefix(ca.responses, cb.responses)
                &&& is_prefix(ca.parameters, cb.parameters)
                &&& is_prefix(ca.examples, cb.examples)
                &&& is_prefix(ca.request_bodies, cb.request_bodies)
                &&& is_prefix(ca.headers, cb.headers)
                &&& is_prefix(ca.security_schemes, cb.security_schemes)
                &&& is_prefix(ca.links, cb.links)
                &&& is_prefix(ca.callbacks, cb.callbacks)
                &&& is_prefix(ca.extensions, cb.extensions)
            },
        },
    }
}

/// `b` keeps everything that `a` holds: the same other fields and security
/// requirements, and every tag, extension, component and operation of `a`
/// where it was; what `b` adds comes after.
pub open spec fn doc_extends(a: DocumentView, b: DocumentView) -> bool {
    &&& b.details == a.details
    &&& b.security == a.security
    &&& is_prefix(a.tags, b.tags)
    &&& is_prefix(a.extensions, b.extensions)
    &&& components_extend(a.components, b.components)
    &&& paths_extend(a.paths, b.paths)
}

proof fn lemma_prefix_refl<T>(a: Seq<T>)
    ensures
        is_prefix(a, a),
{
    assert(a.subrange(0, a.len() as int) =~= a);
}

proof fn lemma_prefix_trans<T>(a: Seq<T>, b: Seq<T>, c: Seq<T>)
    requires
        is_prefix(a, b),
        is_prefix(b, c),
    ensures
        is_prefix(a, c),
{
    assert(c.subrange(0, a.len() as int) =~= b.subrange(0, a.len() as int));
}

proof fn lemma_entries_prefix<V>(a: Seq<(Seq<char>, V)>, b: Seq<(Seq<char>, V)>)
    ensures
        is_prefix(a, merge_entries(a, b)),
{
    law_merge_entries_keeps_base(a, b);
}

proof fn lemma_components_extend(a: Option<ComponentsView>, b: Option<ComponentsView>)
    ensures
        components_extend(a, merge_components_spec(a, b)),
{
    match (a, b) {
        (Some(ca), None) => {
            lemma_prefix_refl(ca.schemas);
            lemma_prefix_refl(ca.responses);
            lemma_prefix_refl(ca.parameters);
            lemma_prefix_refl(ca.examples);
            lemma_prefix_refl(ca.request_bodies);
            lemma_prefix_refl(ca.headers);
            lemma_prefix_refl(ca.security_schemes);
            lemma_prefix_refl(ca.links);
            lemma_prefix_refl(ca.callbacks);
            lemma_prefix_refl(ca.extensions);
        },
        (Some(ca), Some(cb)) => {
            lemma_entries_prefix(ca.schemas, cb.schemas);
            lemma_entries_prefix(ca.responses, cb.responses);
            lemma_entries_prefix(ca.parameters, cb.parameters);
            lemma_entries_prefix(ca.examples, cb.examples);
            lemma_entries_prefix(ca.request_bodies, cb.request_bodies);
            lemma_entries_prefix(ca.headers, cb.headers);
            lemma_entries_prefix(ca.security_schemes, cb.security_schemes);
            lemma_entries_prefix(ca.links, cb.links);
            lemma_entries_prefix(ca.callbacks, cb.callbacks);
            lemma_entries_prefix(ca.extensions, cb.extensions);
        },
        _ => {},
    }
}

proof fn lemma_components_extend_trans(a: Option<ComponentsView>, b: Option<ComponentsView>, c: Option<ComponentsView>)
    requires
        components_extend(a, b),
        components_extend(b, c),
    ensures
        components_extend(a, c),
{
    match (a, b, c) {
        (Some(ca), Some(cb), Some(cc)) => {
            lemma_prefix_trans(ca.schemas, cb.schemas, cc.schemas);
            lemma_prefix_trans(ca.responses, cb.responses, cc.responses);
            lemma_prefix_trans(ca.parameters, cb.parameters, cc.parameters);
            lemma_prefix_trans(ca.examples, cb.examples, cc.examples);
            lemma_prefix_trans(ca.request_bodies, cb.request_bodies, cc.request_bodies);
            lemma_prefix_trans(ca.headers, cb.headers, cc.headers);
            lemma_prefix_trans(ca.security_schemes, cb.security_schemes, cc.security_schemes);
            lemma_prefix_trans(ca.links, cb.links, cc.links);
            lemma_prefix_trans(ca.callbacks, cb.callbacks, cc.callbacks);
            lemma_prefix_trans(ca.extensions, cb.extensions, cc.extensions);
        },
        _ => {},
    }
}

/// Merging another document in keeps everything the document held, and
/// keeps distinct paths distinct.
pub proof fn law_merge_into_keeps(
    base: DocumentView,
    other: DocumentView,
    sel: Option<OperationSelectionView>,
    m: Option<PathModificationView>,
)
    ensures
        doc_extends(base, merge_into_spec(base, other, sel, m)),
        keys_unique(base.paths) ==> keys_unique(merge_into_spec(base, other, sel, m).paths),
{
    law_merge_items_keeps_base(base.tags, other.tags);
    law_merge_entries_keeps_base(base.extensions, other.extensions);
    lemma_components_extend(base.components, other.components);
    law_merge_operations_keeps(base.paths, move_ops(select_ops(doc_ops(other.paths), sel), m));
}

/// Merging inputs in turn keeps everything the base document held.
pub proof fn law_merge_all_keeps(base: DocumentView, others: Seq<(DocumentView, Option<OperationSelectionView>, Option<PathModificationView>)>)
    ensures
        doc_extends(base, merge_all(base, others)),
        keys_unique(base.paths) ==> keys_unique(merge_all(base, others).paths),
    decreases others.len(),
{
    if others.len() == 0 {
        lemma_prefix_refl(base.tags);
        lemma_prefix_refl(base.extensions);
        lemma_components_extend(base.components, None);
        law_merge_operations_keeps(base.paths, Seq::empty());
    } else {
        law_merge_all_keeps(base, others.drop_last());
        let acc = merge_all(base, others.drop_last());
        law_merge_into_keeps(acc, others.last().0, others.last().1, others.last().2);
        let r = merge_all(base, others);
        lemma_prefix_trans(base.tags, acc.tags, r.tags);
        lemma_prefix_trans(base.extensions, acc.extensions, r.extensions);
        lemma_components_extend_trans(base.components, acc.components, r.components);
        law_paths_extend_trans(base.paths, acc.paths, r.paths);
    }
}

/// The first input wins: the merged document holds everything the first
/// input's document held, where it held it (its other fields, security
/// requirements, tags, extensions, components, and operations); later
/// inputs only add.
pub proof fn law_merge_keeps_first(inputs: Seq<Input>)
    requires
        inputs.len() > 0,
    ensures
        doc_extends(inputs[0].openapi@, merged_inputs(inputs)),
{
    law_merge_all_keeps(inputs[0].openapi@, input_parts(inputs.skip(1)));
}

/// Merging a single input gives its document unchanged.
pub proof fn law_merge_single(input: Input)
    ensures
        merged_inputs(seq![input]) == input.openapi@,
{
    assert(input_parts(seq![input].skip(1)) =~= Seq::empty());
}

/// A tag is in the merged document exactly when some input's document
/// has it.
proof fn lemma_merge_all_tags(
    base: DocumentView,
    others: Seq<(DocumentView, Option<OperationSelectionView>, Option<PathModificationView>)>,
    t: u64,
)
    ensures
        merge_all(base, others).tags.contains(t) <==> (base.tags.contains(t) || exists|j: int|
            0 <= j < others.len() && (#[trigger] others[j]).0.tags.contains(t)),
    decreases others.len(),
{
    if others.len() > 0 {
        let o = others.drop_last();
        lemma_merge_all_tags(base, o, t);
        law_merge_items_contents(merge_all(base, o).tags, others.last().0.tags, t);
        if exists|j: int| 0 <= j < o.len() && (#[trigger] o[j]).0.tags.contains(t) {
            let j = choose|j: int| 0 <= j < o.len() && (#[trigger] o[j]).0.tags.contains(t);
            assert(others[j] == o[j]);
        }
        if exists|j: int| 0 <= j < others.len() && (#[trigger] others[j]).0.tags.contains(t) {
            let j = choose|j: int| 0 <= j < others.len() && (#[trigger] others[j]).0.tags.contains(t);
            if j < o.len() {
                assert(others[j] == o[j]);
            }
        }
    }
}

/// No tag is lost or invented: a tag is in the merged document exactly when
/// some input's document has it.
pub proof fn law_merge_tags_complete(inputs: Seq<Input>, t: u64)
    requires
        inputs.len() > 0,
    ensures
        merged_inputs(inputs).tags.contains(t) <==> exists|k: int|
            0 <= k < inputs.len() && (#[trigger] inputs[k]).openapi@.tags.contains(t),
{
    let parts = input_parts(inputs.skip(1));
    lemma_merge_all_tags(inputs[0].openapi@, parts, t);
    if exists|j: int| 0 <= j < parts.len() && (#[trigger] parts[j]).0.tags.contains(t) {
        let j = choose|j: int| 0 <= j < parts.len() && (#[trigger] parts[j]).0.tags.contains(t);
        assert(inputs[j + 1] == inputs.skip(1)[j]);
    }
    if exists|k: int| 0 <= k < inputs.len() && (#[trigger] inputs[k]).openapi@.tags.contains(t) {
        let k = choose|k: int| 0 <= k < inputs.len() && (#[trigger] inputs[k]).openapi@.tags.contains(t);
        if k > 0 {
            assert(inputs.skip(1)[k - 1] == inputs[k]);
            assert(parts[k - 1].0 == inputs[k].openapi@);
        }
    }
}

/// An extension name is in the merged document exactly when some input's
/// document has it.
proof fn lemma_merge_all_extensions(
    base: DocumentView,
    others: Seq<(DocumentView, Option<OperationSelectionView>, Option<PathModificationView>)>,
    k: Seq<char>,
)
    ensures
        has_key(merge_all(base, others).extensions, k) <==> (has_key(base.extensions, k) || exists|j: int|
            0 <= j < others.len() && has_key((#[trigger] others[j]).0.extensions, k)),
    decreases others.len(),
{
    if others.len() > 0 {
        let o = others.drop_last();
        lemma_merge_all_extensions(base, o, k);
        law_merge_entries_keys(merge_all(base, o).extensions, others.last().0.extensions, k);
        if exists|j: int| 0 <= j < o.len() && has_key((#[trigger] o[j]).0.extensions, k) {
            let j = choose|j: int| 0 <= j < o.len() && has_key((#[trigger] o[j]).0.extensions, k);
            assert(others[j] == o[j]);
        }
        if exists|j: int| 0 <= j < others.len() && has_key((#[trigger] others[j]).0.extensions, k) {
            let j = choose|j: int| 0 <= j < others.len() && has_key((#[trigger] others[j]).0.extensions, k);
            if j < o.len() {
                assert(others[j] == o[j]);
            }
        }
    }
}

/// No extension is lost or invented: a name is among the merged document's
/// extensions exactly when some input's document has it.
pub proof fn law_merge_extensions_complete(inputs: Seq<Input>, k: Seq<char>)
    requires
        inputs.len() > 0,
    ensures
        has_key(merged_inputs(inputs).extensions, k) <==> exists|i: int|
            0 <= i < inputs.len() && has_key((#[trigger] inputs[i]).openapi@.extensions, k),
{
    let parts = input_parts(inputs.skip(1));
    lemma_merge_all_extensions(inputs[0].openapi@, parts, k);
    if exists|j: int| 0 <= j < parts.len() && has_key((#[trigger] parts[j]).0.extensions, k) {
        let j = choose|j: int| 0 <= j < parts.len() && has_key((#[trigger] parts[j]).0.extensions, k);
        assert(inputs[j + 1] == inputs.skip(1)[j]);
    }
    if exists|i: int| 0 <= i < inputs.len() && has_key((#[trigger] inputs[i]).openapi@.extensions, k) {
        let i = choose|i: int| 0 <= i < inputs.len() && has_key((#[trigger] inputs[i]).openapi@.extensions, k);
        if i > 0 {
            assert(inputs.skip(1)[i - 1] == inputs[i]);
            assert(parts[i - 1].0 == inputs[i].openapi@);
        }
    }
}

} // verus!
