//! Merging one OpenAPI document into another.
use vstd::prelude::*;
use crate::document::{
    Components, ComponentsView, Document, DocumentView, Operation, OperationView, PathEntry,
    PathEntryView, PathItem, PathItemView, OpView, components_view, doc_ops, entry_ops, item_ops,
    slot_ops,
};
use crate::index_map::{handle_entries, has_key, keys_unique, path_or_insert_empty};
use crate::ordered::{
    law_merge_entries_into_empty, law_merge_entries_keys, merge_entries, merge_handle_list, merge_handle_map, merge_items,
};
use indexmap::IndexMap;

verus! {

/// `s` with each ASCII upper-case letter replaced by its lower-case form.
pub open spec fn ascii_lowercase(s: Seq<char>) -> Seq<char> {
    s.map_values(|c: char| if 'A' <= c && c <= 'Z' { ((c as u32) + 32) as char } else { c })
}

/// `str::to_ascii_lowercase`: ASCII letters 'A' to 'Z' become 'a' to 'z',
/// every other character stays as it is.
#[verifier::external_body]
fn to_ascii_lowercase(s: &str) -> (r: String)
    ensures
        r@ == ascii_lowercase(s@),
{
    s.to_ascii_lowercase()
}

/// The HTTP methods that a path item holds an operation for.
#[derive(PartialEq, Eq, Structural, Clone, Copy, Debug)]
pub enum Method {
    Get,
    Put,
    Post,
    Delete,
    Options,
    Head,
    Patch,
    Trace,
}

/// The method that a method name denotes, whatever the case of its ASCII
/// letters; `None` for a name that is not one of the eight.
pub open spec fn method_of(name: Seq<char>) -> Option<Method> {
    let l = ascii_lowercase(name);
    if l == "get"@ {
        Some(Method::Get)
    } else if l == "put"@ {
        Some(Method::Put)
    } else if l == "post"@ {
        Some(Method::Post)
    } else if l == "delete"@ {
        Some(Method::Delete)
    } else if l == "options"@ {
        Some(Method::Options)
    } else if l == "head"@ {
        Some(Method::Head)
    } else if l == "patch"@ {
        Some(Method::Patch)
    } else if l == "trace"@ {
        Some(Method::Trace)
    } else {
        None
    }
}

impl Method {
    /// The method that `name` denotes, ignoring the case of ASCII letters.
    pub fn parse(name: &str) -> (r: Option<Method>)
        ensures
            r == method_of(name@),
    {
        let l = to_ascii_lowercase(name);
        if l == "get".to_owned() {
            Some(Method::Get)
        } else if l == "put".to_owned() {
            Some(Method::Put)
        } else if l == "post".to_owned() {
            Some(Method::Post)
        } else if l == "delete".to_owned() {
            Some(Method::Delete)
        } else if l == "options".to_owned() {
            Some(Method::Options)
        } else if l == "head".to_owned() {
            Some(Method::Head)
        } else if l == "patch".to_owned() {
            Some(Method::Patch)
        } else if l == "trace".to_owned() {
            Some(Method::Trace)
        } else {
            None
        }
    }
}

/// The operation that a path item holds for a method.
pub open spec fn slot(item: PathItemView, m: Method) -> Option<OperationView> {
    match m {
        Method::Get => item.get,
        Method::Put => item.put,
        Method::Post => item.post,
        Method::Delete => item.delete,
        Method::Options => item.options,
        Method::Head => item.head,
        Method::Patch => item.patch,
        Method::Trace => item.trace,
    }
}

/// The path item with the operation for a method set to `op`.
pub open spec fn with_slot(item: PathItemView, m: Method, op: OperationView) -> PathItemView {
    match m {
        Method::Get => PathItemView { get: Some(op), ..item },
        Method::Put => PathItemView { put: Some(op), ..item },
        Method::Post => PathItemView { post: Some(op), ..item },
        Method::Delete => PathItemView { delete: Some(op), ..item },
        Method::Options => PathItemView { options: Some(op), ..item },
        Method::Head => PathItemView { head: Some(op), ..item },
        Method::Patch => PathItemView { patch: Some(op), ..item },
        Method::Trace => PathItemView { trace: Some(op), ..item },
    }
}

impl PathItem {
    /// Whether the path item holds no operation for `m`.
    pub fn is_vacant(&self, m: Method) -> (r: bool)
        ensures
            r == (slot(self@, m) is None),
    {
        match m {
            Method::Get => self.get.is_none(),
            Method::Put => self.put.is_none(),
            Method::Post => self.post.is_none(),
            Method::Delete => self.delete.is_none(),
            Method::Options => self.options.is_none(),
            Method::Head => self.head.is_none(),
            Method::Patch => self.patch.is_none(),
            Method::Trace => self.trace.is_none(),
        }
    }

    /// Sets the operation for `m`.
    pub fn set(&mut self, m: Method, op: Operation)
        ensures
            final(self)@ == with_slot(old(self)@, m, op@),
    {
        match m {
            Method::Get => self.get = Some(op),
            Method::Put => self.put = Some(op),
            Method::Post => self.post = Some(op),
            Method::Delete => self.delete = Some(op),
            Method::Options => self.options = Some(op),
            Method::Head => self.head = Some(op),
            Method::Patch => self.patch = Some(op),
            Method::Trace => self.trace = Some(op),
        }
    }
}

/// A path item after `op` is offered for the method named `method`: it is
/// taken only where the name denotes one of the eight methods and the item
/// has no operation for it yet.
pub open spec fn update_item_spec(item: PathItemView, method: Seq<char>, op: OperationView) -> PathItemView {
    match method_of(method) {
        Some(m) => if slot(item, m) is None {
            with_slot(item, m, op)
        } else {
            item
        },
        None => item,
    }
}

/// A path entry after `op` is offered to it: a reference stays as it is.
pub open spec fn update_entry_spec(entry: PathEntryView, method: Seq<char>, op: OperationView) -> PathEntryView {
    match entry {
        PathEntryView::Reference(r) => PathEntryView::Reference(r),
        PathEntryView::Item(item) => PathEntryView::Item(update_item_spec(item, method, op)),
    }
}

/// Offers `operation` to a path item for the method named `method`.
pub fn update_path_item(item: &mut PathItem, method: &str, operation: &Operation)
    ensures
        final(item)@ == update_item_spec(old(item)@, method@, operation@),
{
    match Method::parse(method) {
        Some(m) => {
            if item.is_vacant(m) {
                item.set(m, operation.duplicate());
            }
        },
        None => {},
    }
}

/// Offers `operation` to a path entry for the method named `method`.
pub fn update_item(entry: &mut PathEntry, method: &str, operation: &Operation)
    ensures
        final(entry)@ == update_entry_spec(old(entry)@, method@, operation@),
{
    match entry {
        PathEntry::Reference { .. } => {},
        PathEntry::Item(item) => update_path_item(item, method, operation),
    }
}

/// The index of the entry with key `path`.
pub open spec fn path_index(paths: Seq<(Seq<char>, PathEntryView)>, path: Seq<char>) -> int {
    choose|i: int| 0 <= i < paths.len() && #[trigger] paths[i].0 == path
}

/// The paths after `op` is offered for `path` and the method named `method`:
/// a path that is not there yet gets an empty path item first, appended at
/// the end.
pub open spec fn merge_operation_spec(
    paths: Seq<(Seq<char>, PathEntryView)>,
    path: Seq<char>,
    method: Seq<char>,
    op: OperationView,
) -> Seq<(Seq<char>, PathEntryView)> {
    if has_key(paths, path) {
        let i = path_index(paths, path);
        paths.update(i, (path, update_entry_spec(paths[i].1, method, op)))
    } else {
        paths.push((path, update_entry_spec(PathEntryView::Item(PathItemView::empty()), method, op)))
    }
}

/// The paths after each operation of `ops` is offered in turn.
pub open spec fn merge_operations_spec(paths: Seq<(Seq<char>, PathEntryView)>, ops: Seq<OpView>) -> Seq<
    (Seq<char>, PathEntryView),
>
    decreases ops.len(),
{
    if ops.len() == 0 {
        paths
    } else {
        let acc = merge_operations_spec(paths, ops.drop_last());
        merge_operation_spec(acc, ops.last().0, ops.last().1, ops.last().2)
    }
}

/// The components after those of `other` are merged in, map by map.
pub open spec fn merge_component_maps(base: ComponentsView, other: ComponentsView) -> ComponentsView {
    ComponentsView {
        schemas: merge_entries(base.schemas, other.schemas),
        responses: merge_entries(base.responses, other.responses),
        parameters: merge_entries(base.parameters, other.parameters),
        examples: merge_entries(base.examples, other.examples),
        request_bodies: merge_entries(base.request_bodies, other.request_bodies),
        headers: merge_entries(base.headers, other.headers),
        security_schemes: merge_entries(base.security_schemes, other.security_schemes),
        links: merge_entries(base.links, other.links),
        callbacks: merge_entries(base.callbacks, other.callbacks),
        extensions: merge_entries(base.extensions, other.extensions),
    }
}

/// A document's components after `other` is merged in: nothing changes
/// without `other`; a document without components gets empty ones first.
pub open spec fn merge_components_spec(base: Option<ComponentsView>, other: Option<ComponentsView>) -> Option<
    ComponentsView,
> {
    match other {
        None => base,
        Some(o) => Some(
            merge_component_maps(
                match base {
                    Some(b) => b,
                    None => ComponentsView::empty(),
                },
                o,
            ),
        ),
    }
}

/// No map of the components holds two entries with one key.
pub open spec fn components_keys_unique(c: ComponentsView) -> bool {
    &&& keys_unique(c.schemas)
    &&& keys_unique(c.responses)
    &&& keys_unique(c.parameters)
    &&& keys_unique(c.examples)
    &&& keys_unique(c.request_bodies)
    &&& keys_unique(c.headers)
    &&& keys_unique(c.security_schemes)
    &&& keys_unique(c.links)
    &&& keys_unique(c.callbacks)
    &&& keys_unique(c.extensions)
}

/// Merging the parts of another document into a document.
pub trait OpenAPIExt {
    fn merge_components(&mut self, components: Option<Components>);

    fn merge_security(&mut self, security: Option<u64>);

    fn merge_tags(&mut self, tags: Vec<u64>);

    fn merge_extensions(&mut self, extensions: IndexMap<String, u64>);

    fn merge_operation(&mut self, path: &str, method: &str, operation: &Operation);
}

impl OpenAPIExt for Document {
    /// Merges components map by map; what the document holds under a name wins.
    fn merge_components(&mut self, components: Option<Components>)
        ensures
            final(self)@ == (DocumentView {
                components: merge_components_spec(old(self)@.components, components_view(components)),
                ..old(self)@
            }),
            components matches Some(c) ==> components_keys_unique(c@),
            old(self)@.components is None ==> final(self)@.components == components_view(components),
    {
        match components {
            None => {},
            Some(c) => {
                let ghost cv = c@;
                let mut base = match self.components.take() {
                    Some(b) => b,
                    None => Components::empty(),
                };
                merge_handle_map(&mut base.schemas, c.schemas);
                merge_handle_map(&mut base.responses, c.responses);
                merge_handle_map(&mut base.parameters, c.parameters);
                merge_handle_map(&mut base.examples, c.examples);
                merge_handle_map(&mut base.request_bodies, c.request_bodies);
                merge_handle_map(&mut base.headers, c.headers);
                merge_handle_map(&mut base.security_schemes, c.security_schemes);
                merge_handle_map(&mut base.links, c.links);
                merge_handle_map(&mut base.callbacks, c.callbacks);
                merge_handle_map(&mut base.extensions, c.extensions);
                proof {
                    law_merge_entries_into_empty(cv.schemas);
                    law_merge_entries_into_empty(cv.responses);
                    law_merge_entries_into_empty(cv.parameters);
                    law_merge_entries_into_empty(cv.examples);
                    law_merge_entries_into_empty(cv.request_bodies);
                    law_merge_entries_into_empty(cv.headers);
                    law_merge_entries_into_empty(cv.security_schemes);
                    law_merge_entries_into_empty(cv.links);
                    law_merge_entries_into_empty(cv.callbacks);
                    law_merge_entries_into_empty(cv.extensions);
                }
                self.components = Some(base);
            },
        }
    }

    /// Security requirements are not merged: the document stays as it is.
    fn merge_security(&mut self, security: Option<u64>)
        ensures
            final(self)@ == old(self)@,
    {
    }

    /// Appends each tag that the document does not hold yet, in order.
    fn merge_tags(&mut self, tags: Vec<u64>)
        ensures
            final(self)@ == (DocumentView { tags: merge_items(old(self)@.tags, tags@), ..old(self)@ }),
    {
        merge_handle_list(&mut self.tags, tags);
    }

    /// Merges extensions; what the document holds under a name wins.
    fn merge_extensions(&mut self, extensions: IndexMap<String, u64>)
        ensures
            final(self)@ == (DocumentView {
                extensions: merge_entries(old(self)@.extensions, handle_entries(extensions)),
                ..old(self)@
            }),
            keys_unique(handle_entries(extensions)),
    {
        merge_handle_map(&mut self.extensions, extensions);
    }

    /// Offers `operation` for `path` and the method named `method`: it is
    /// taken where the path's item has no operation for that method yet.
    fn merge_operation(&mut self, path: &str, method: &str, operation: &Operation)
        ensures
            final(self)@ == (DocumentView {
                paths: merge_operation_spec(old(self)@.paths, path@, method@, operation@),
                ..old(self)@
            }),
    {
        let entry = path_or_insert_empty(&mut self.paths, path.to_owned());
        update_item(entry, method, operation);
    }
}

/// Every operation of `a` is in `b` for the same method, and the rest of
/// the item is the same.
pub open spec fn item_extends(a: PathItemView, b: PathItemView) -> bool {
    &&& b.details == a.details
    &&& forall|m: Method| (#[trigger] slot(a, m)) is Some ==> slot(b, m) == slot(a, m)
}

/// `b` keeps what `a` holds: a reference stays the same reference, a path
/// item keeps its operations.
pub open spec fn entry_extends(a: PathEntryView, b: PathEntryView) -> bool {
    match a {
        PathEntryView::Reference(_) => b == a,
        PathEntryView::Item(ia) => match b {
            PathEntryView::Item(ib) => item_extends(ia, ib),
            PathEntryView::Reference(_) => false,
        },
    }
}

/// `b` keeps the paths of `a`, in the same places, each extending the
/// entry it had; new paths come after them.
pub open spec fn paths_extend(a: Seq<(Seq<char>, PathEntryView)>, b: Seq<(Seq<char>, PathEntryView)>) -> bool {
    &&& a.len() <= b.len()
    &&& forall|i: int| 0 <= i < a.len() ==> (#[trigger] b[i]).0 == a[i].0 && entry_extends(a[i].1, b[i].1)
}

proof fn lemma_item_update_extends(item: PathItemView, method: Seq<char>, op: OperationView)
    ensures
        item_extends(item, update_item_spec(item, method, op)),
{
    let r = update_item_spec(item, method, op);
    assert forall|m: Method| (#[trigger] slot(item, m)) is Some implies slot(r, m) == slot(item, m) by {
        match method_of(method) {
            Some(m0) => {
                if slot(item, m0) is None {
                    assert(m != m0);
                }
            },
            None => {},
        }
    }
}

proof fn lemma_entry_update_extends(entry: PathEntryView, method: Seq<char>, op: OperationView)
    ensures
        entry_extends(entry, update_entry_spec(entry, method, op)),
{
    match entry {
        PathEntryView::Reference(_) => {},
        PathEntryView::Item(item) => lemma_item_update_extends(item, method, op),
    }
}

proof fn lemma_entry_extends_refl(e: PathEntryView)
    ensures
        entry_extends(e, e),
{
    match e {
        PathEntryView::Reference(_) => {},
        PathEntryView::Item(it) => {
            assert(item_extends(it, it));
        },
    }
}

proof fn lemma_entry_extends_trans(a: PathEntryView, b: PathEntryView, c: PathEntryView)
    requires
        entry_extends(a, b),
        entry_extends(b, c),
    ensures
        entry_extends(a, c),
{
    match a {
        PathEntryView::Reference(_) => {},
        PathEntryView::Item(ia) => {
            let ib = b->Item_0;
            let ic = c->Item_0;
            assert forall|m: Method| (#[trigger] slot(ia, m)) is Some implies slot(ic, m) == slot(ia, m) by {
                assert(slot(ib, m) == slot(ia, m));
            }
        },
    }
}

/// Keeping what is there is transitive.
pub proof fn law_paths_extend_trans(
    a: Seq<(Seq<char>, PathEntryView)>,
    b: Seq<(Seq<char>, PathEntryView)>,
    c: Seq<(Seq<char>, PathEntryView)>,
)
    requires
        paths_extend(a, b),
        paths_extend(b, c),
    ensures
        paths_extend(a, c),
{
    assert forall|i: int| 0 <= i < a.len() implies (#[trigger] c[i]).0 == a[i].0 && entry_extends(a[i].1, c[i].1) by {
        assert(entry_extends(a[i].1, b[i].1));
        assert(entry_extends(b[i].1, c[i].1));
        lemma_entry_extends_trans(a[i].1, b[i].1, c[i].1);
    }
}

/// Offering an operation never replaces one that is there, never changes a
/// reference, never moves a path, and keeps distinct paths distinct.
pub proof fn law_merge_operation_keeps(
    paths: Seq<(Seq<char>, PathEntryView)>,
    path: Seq<char>,
    method: Seq<char>,
    op: OperationView,
)
    ensures
        paths_extend(paths, merge_operation_spec(paths, path, method, op)),
        keys_unique(paths) ==> keys_unique(merge_operation_spec(paths, path, method, op)),
{
    let r = merge_operation_spec(paths, path, method, op);
    if has_key(paths, path) {
        let i = path_index(paths, path);
        lemma_entry_update_extends(paths[i].1, method, op);
        assert forall|j: int| 0 <= j < paths.len() implies (#[trigger] r[j]).0 == paths[j].0 && entry_extends(
            paths[j].1,
            r[j].1,
        ) by {
            if j != i {
                assert(r[j] == paths[j]);
                lemma_entry_extends_refl(paths[j].1);
            }
        }
        if keys_unique(paths) {
            assert forall|a: int, b: int| 0 <= a < r.len() && 0 <= b < r.len() && a != b implies #[trigger] r[a].0
                != #[trigger] r[b].0 by {
                assert(r[a].0 == paths[a].0 && r[b].0 == paths[b].0);
            }
        }
    } else {
        assert forall|j: int| 0 <= j < paths.len() implies (#[trigger] r[j]).0 == paths[j].0 && entry_extends(
            paths[j].1,
            r[j].1,
        ) by {
            assert(r[j] == paths[j]);
            lemma_entry_extends_refl(paths[j].1);
        }
        if keys_unique(paths) {
            assert forall|a: int, b: int| 0 <= a < r.len() && 0 <= b < r.len() && a != b implies #[trigger] r[a].0
                != #[trigger] r[b].0 by {
                if a == paths.len() {
                    assert(paths[b].0 != path);
                } else if b == paths.len() {
                    assert(paths[a].0 != path);
                } else {
                    assert(r[a] == paths[a] && r[b] == paths[b]);
                }
            }
        }
    }
}

/// Offering operations one after another never replaces one that is there,
/// never changes a reference, never moves a path, and keeps distinct paths
/// distinct.
pub proof fn law_merge_operations_keeps(paths: Seq<(Seq<char>, PathEntryView)>, ops: Seq<OpView>)
    ensures
        paths_extend(paths, merge_operations_spec(paths, ops)),
        keys_unique(paths) ==> keys_unique(merge_operations_spec(paths, ops)),
    decreases ops.len(),
{
    if ops.len() == 0 {
        assert forall|i: int| 0 <= i < paths.len() implies (#[trigger] paths[i]).0 == paths[i].0 && entry_extends(
            paths[i].1,
            paths[i].1,
        ) by {
            lemma_entry_extends_refl(paths[i].1);
        }
    } else {
        law_merge_operations_keeps(paths, ops.drop_last());
        let acc = merge_operations_spec(paths, ops.drop_last());
        law_merge_operation_keeps(acc, ops.last().0, ops.last().1, ops.last().2);
        law_paths_extend_trans(paths, acc, merge_operations_spec(paths, ops));
    }
}

/// An operation offered for one of the eight methods is taken where the
/// path is new, or where its path item has no operation for that method.
pub proof fn law_merge_operation_fills(
    paths: Seq<(Seq<char>, PathEntryView)>,
    path: Seq<char>,
    method: Seq<char>,
    op: OperationView,
)
    requires
        keys_unique(paths),
        method_of(method) is Some,
        !has_key(paths, path) || (paths[path_index(paths, path)].1 is Item && slot(
            paths[path_index(paths, path)].1->Item_0,
            method_of(method)->0,
        ) is None),
    ensures
        forall|j: int|
            0 <= j < merge_operation_spec(paths, path, method, op).len() && (#[trigger] merge_operation_spec(
                paths,
                path,
                method,
                op,
            )[j]).0 == path ==> merge_operation_spec(paths, path, method, op)[j].1 is Item && slot(
                merge_operation_spec(paths, path, method, op)[j].1->Item_0,
                method_of(method)->0,
            ) == Some(op),
        has_key(merge_operation_spec(paths, path, method, op), path),
{
    let r = merge_operation_spec(paths, path, method, op);
    let m = method_of(method)->0;
    law_merge_operation_keeps(paths, path, method, op);
    if has_key(paths, path) {
        let i = path_index(paths, path);
        assert(r[i].0 == path);
        assert forall|j: int| 0 <= j < r.len() && (#[trigger] r[j]).0 == path implies r[j].1 is Item && slot(
            r[j].1->Item_0,
            m,
        ) == Some(op) by {
            if j != i {
                assert(r[i].0 == r[j].0);
            }
            assert(slot(with_slot(paths[i].1->Item_0, m, op), m) == Some(op));
        }
    } else {
        let i = paths.len() as int;
        assert(r[i].0 == path);
        assert forall|j: int| 0 <= j < r.len() && (#[trigger] r[j]).0 == path implies r[j].1 is Item && slot(
            r[j].1->Item_0,
            m,
        ) == Some(op) by {
            if j != i {
                assert(r[j] == paths[j]);
            }
            assert(slot(with_slot(PathItemView::empty(), m, op), m) == Some(op));
        }
    }
}

/// Merging components yields components, and each of their ten maps holds
/// exactly the names that the document's map or the incoming map holds.
pub proof fn law_merge_components_keys(base: Option<ComponentsView>, other: ComponentsView, k: Seq<char>)
    ensures
        merge_components_spec(base, Some(other)) is Some,
        has_key(merge_components_spec(base, Some(other))->0.schemas, k) <==> ((base is Some && has_key(
            base->0.schemas,
            k,
        )) || has_key(other.schemas, k)),
        has_key(merge_components_spec(base, Some(other))->0.responses, k) <==> ((base is Some && has_key(
            base->0.responses,
            k,
        )) || has_key(other.responses, k)),
        has_key(merge_components_spec(base, Some(other))->0.parameters, k) <==> ((base is Some && has_key(
            base->0.parameters,
            k,
        )) || has_key(other.parameters, k)),
        has_key(merge_components_spec(base, Some(other))->0.examples, k) <==> ((base is Some && has_key(
            base->0.examples,
            k,
        )) || has_key(other.examples, k)),
        has_key(merge_components_spec(base, Some(other))->0.request_bodies, k) <==> ((base is Some && has_key(
            base->0.request_bodies,
            k,
        )) || has_key(other.request_bodies, k)),
        has_key(merge_components_spec(base, Some(other))->0.headers, k) <==> ((base is Some && has_key(
            base->0.headers,
            k,
        )) || has_key(other.headers, k)),
        has_key(merge_components_spec(base, Some(other))->0.security_schemes, k) <==> ((base is Some && has_key(
            base->0.security_schemes,
            k,
        )) || has_key(other.security_schemes, k)),
        has_key(merge_components_spec(base, Some(other))->0.links, k) <==> ((base is Some && has_key(
            base->0.links,
            k,
        )) || has_key(other.links, k)),
        has_key(merge_components_spec(base, Some(other))->0.callbacks, k) <==> ((base is Some && has_key(
            base->0.callbacks,
            k,
        )) || has_key(other.callbacks, k)),
        has_key(merge_components_spec(base, Some(other))->0.extensions, k) <==> ((base is Some && has_key(
            base->0.extensions,
            k,
        )) || has_key(other.extensions, k)),
{
    let b = match base {
        Some(b) => b,
        None => ComponentsView::empty(),
    };
    law_merge_entries_keys(b.schemas, other.schemas, k);
    law_merge_entries_keys(b.responses, other.responses, k);
    law_merge_entries_keys(b.parameters, other.parameters, k);
    law_merge_entries_keys(b.examples, other.examples, k);
    law_merge_entries_keys(b.request_bodies, other.request_bodies, k);
    law_merge_entries_keys(b.headers, other.headers, k);
    law_merge_entries_keys(b.security_schemes, other.security_schemes, k);
    law_merge_entries_keys(b.links, other.links, k);
    law_merge_entries_keys(b.callbacks, other.callbacks, k);
    law_merge_entries_keys(b.extensions, other.extensions, k);
}

/// Each of the eight method names, in any mix of ASCII case, denotes its own
/// method, and no other name denotes a method.
pub proof fn law_method_names(name: Seq<char>)
    ensures
        ascii_lowercase(name) == "get"@ ==> method_of(name) == Some(Method::Get),
        ascii_lowercase(name) == "put"@ ==> method_of(name) == Some(Method::Put),
        ascii_lowercase(name) == "post"@ ==> method_of(name) == Some(Method::Post),
        ascii_lowercase(name) == "delete"@ ==> method_of(name) == Some(Method::Delete),
        ascii_lowercase(name) == "options"@ ==> method_of(name) == Some(Method::Options),
        ascii_lowercase(name) == "head"@ ==> method_of(name) == Some(Method::Head),
        ascii_lowercase(name) == "patch"@ ==> method_of(name) == Some(Method::Patch),
        ascii_lowercase(name) == "trace"@ ==> method_of(name) == Some(Method::Trace),
        method_of(name) is Some <==> (ascii_lowercase(name) == "get"@ || ascii_lowercase(name) == "put"@ || ascii_lowercase(name) == "post"@ || ascii_lowercase(name) == "delete"@ || ascii_lowercase(name) == "options"@ || ascii_lowercase(name) == "head"@ || ascii_lowercase(name) == "patch"@ || ascii_lowercase(name) == "trace"@),
{
    reveal_strlit("get");
    reveal_strlit("put");
    reveal_strlit("post");
    reveal_strlit("delete");
    reveal_strlit("options");
    reveal_strlit("head");
    reveal_strlit("patch");
    reveal_strlit("trace");
    assert("get"@.len() == 3 && "get"@[0] == 'g');
    assert("put"@.len() == 3 && "put"@[0] == 'p');
    assert("post"@.len() == 4 && "post"@[0] == 'p');
    assert("delete"@.len() == 6 && "delete"@[0] == 'd');
    assert("options"@.len() == 7 && "options"@[0] == 'o');
    assert("head"@.len() == 4 && "head"@[0] == 'h');
    assert("patch"@.len() == 5 && "patch"@[0] == 'p');
    assert("trace"@.len() == 5 && "trace"@[0] == 't');
}

/// The eight method names that operations are listed under denote their
/// methods.
proof fn lemma_listed_method_names()
    ensures
        method_of("get"@) == Some(Method::Get),
        method_of("put"@) == Some(Method::Put),
        method_of("post"@) == Some(Method::Post),
        method_of("delete"@) == Some(Method::Delete),
        method_of("options"@) == Some(Method::Options),
        method_of("head"@) == Some(Method::Head),
        method_of("patch"@) == Some(Method::Patch),
        method_of("trace"@) == Some(Method::Trace),
{
    reveal_strlit("get");
    assert(ascii_lowercase("get"@) =~= "get"@);
    law_method_names("get"@);
    reveal_strlit("put");
    assert(ascii_lowercase("put"@) =~= "put"@);
    law_method_names("put"@);
    reveal_strlit("post");
    assert(ascii_lowercase("post"@) =~= "post"@);
    law_method_names("post"@);
    reveal_strlit("delete");
    assert(ascii_lowercase("delete"@) =~= "delete"@);
    law_method_names("delete"@);
    reveal_strlit("options");
    assert(ascii_lowercase("options"@) =~= "options"@);
    law_method_names("options"@);
    reveal_strlit("head");
    assert(ascii_lowercase("head"@) =~= "head"@);
    law_method_names("head"@);
    reveal_strlit("patch");
    assert(ascii_lowercase("patch"@) =~= "patch"@);
    law_method_names("patch"@);
    reveal_strlit("trace");
    assert(ascii_lowercase("trace"@) =~= "trace"@);
    law_method_names("trace"@);
}

/// Whether `e` is the operation that `item` holds for the method that `e`
/// names, under `path`.
pub open spec fn listed_from(path: Seq<char>, item: PathItemView, e: OpView) -> bool {
    &&& e.0 == path
    &&& method_of(e.1) is Some
    &&& slot(item, method_of(e.1)->0) == Some(e.2)
}

proof fn lemma_all_concat<A>(a: Seq<A>, b: Seq<A>, pred: spec_fn(A) -> bool)
    requires
        forall|k: int| 0 <= k < a.len() ==> pred(#[trigger] a[k]),
        forall|k: int| 0 <= k < b.len() ==> pred(#[trigger] b[k]),
    ensures
        forall|k: int| 0 <= k < (a + b).len() ==> pred(#[trigger] (a + b)[k]),
{
    assert forall|k: int| 0 <= k < (a + b).len() implies pred(#[trigger] (a + b)[k]) by {
        if k < a.len() {
            assert((a + b)[k] == a[k]);
        } else {
            assert((a + b)[k] == b[k - a.len()]);
        }
    }
}

proof fn lemma_slot_ops_sound(path: Seq<char>, item: PathItemView, name: Seq<char>, m: Method)
    requires
        method_of(name) == Some(m),
    ensures
        forall|k: int|
            0 <= k < slot_ops(path, name, slot(item, m)).len() ==> listed_from(
                path,
                item,
                #[trigger] slot_ops(path, name, slot(item, m))[k],
            ),
{
}

proof fn lemma_item_ops_sound(path: Seq<char>, item: PathItemView)
    ensures
        forall|k: int| 0 <= k < item_ops(path, item).len() ==> listed_from(path, item, #[trigger] item_ops(path, item)[k]),
{
    lemma_listed_method_names();
    let pred = |e: OpView| listed_from(path, item, e);
    lemma_slot_ops_sound(path, item, "get"@, Method::Get);
    lemma_slot_ops_sound(path, item, "put"@, Method::Put);
    lemma_all_concat(slot_ops(path, "get"@, item.get), slot_ops(path, "put"@, item.put), pred);
    lemma_slot_ops_sound(path, item, "post"@, Method::Post);
    lemma_all_concat((slot_ops(path, "get"@, item.get) + slot_ops(path, "put"@, item.put)), slot_ops(path, "post"@, item.post), pred);
    lemma_slot_ops_sound(path, item, "delete"@, Method::Delete);
    lemma_all_concat(((slot_ops(path, "get"@, item.get) + slot_ops(path, "put"@, item.put)) + slot_ops(path, "post"@, item.post)), slot_ops(path, "delete"@, item.delete), pred);
    lemma_slot_ops_sound(path, item, "options"@, Method::Options);
    lemma_all_concat((((slot_ops(path, "get"@, item.get) + slot_ops(path, "put"@, item.put)) + slot_ops(path, "post"@, item.post)) + slot_ops(path, "delete"@, item.delete)), slot_ops(path, "options"@, item.options), pred);
    lemma_slot_ops_sound(path, item, "head"@, Method::Head);
    lemma_all_concat(((((slot_ops(path, "get"@, item.get) + slot_ops(path, "put"@, item.put)) + slot_ops(path, "post"@, item.post)) + slot_ops(path, "delete"@, item.delete)) + slot_ops(path, "options"@, item.options)), slot_ops(path, "head"@, item.head), pred);
    lemma_slot_ops_sound(path, item, "patch"@, Method::Patch);
    lemma_all_concat((((((slot_ops(path, "get"@, item.get) + slot_ops(path, "put"@, item.put)) + slot_ops(path, "post"@, item.post)) + slot_ops(path, "delete"@, item.delete)) + slot_ops(path, "options"@, item.options)) + slot_ops(path, "head"@, item.head)), slot_ops(path, "patch"@, item.patch), pred);
    lemma_slot_ops_sound(path, item, "trace"@, Method::Trace);
    lemma_all_concat(((((((slot_ops(path, "get"@, item.get) + slot_ops(path, "put"@, item.put)) + slot_ops(path, "post"@, item.post)) + slot_ops(path, "delete"@, item.delete)) + slot_ops(path, "options"@, item.options)) + slot_ops(path, "head"@, item.head)) + slot_ops(path, "patch"@, item.patch)), slot_ops(path, "trace"@, item.trace), pred);
    assert(item_ops(path, item) == (((((((slot_ops(path, "get"@, item.get) + slot_ops(path, "put"@, item.put)) + slot_ops(path, "post"@, item.post)) + slot_ops(path, "delete"@, item.delete)) + slot_ops(path, "options"@, item.options)) + slot_ops(path, "head"@, item.head)) + slot_ops(path, "patch"@, item.patch)) + slot_ops(path, "trace"@, item.trace)));
}

/// Every operation that a document lists is the one that its path's item
/// holds for the method it is listed under: the listed path has a path item
/// in the document, the listed name denotes a method, and that item's
/// operation for that method is the listed operation.
pub proof fn law_operations_listed_by_method(paths: Seq<(Seq<char>, PathEntryView)>, k: int)
    requires
        0 <= k < doc_ops(paths).len(),
    ensures
        exists|i: int|
            0 <= i < paths.len() && (#[trigger] paths[i]).0 == doc_ops(paths)[k].0 && paths[i].1 is Item
                && method_of(doc_ops(paths)[k].1) is Some && slot(
                paths[i].1->Item_0,
                method_of(doc_ops(paths)[k].1)->0,
            ) == Some(doc_ops(paths)[k].2),
    decreases paths.len(),
{
    let pre = paths.drop_last();
    let last = paths.last();
    assert(doc_ops(paths) == doc_ops(pre) + entry_ops(last.0, last.1));
    if k < doc_ops(pre).len() {
        law_operations_listed_by_method(pre, k);
        let i = choose|i: int|
            0 <= i < pre.len() && (#[trigger] pre[i]).0 == doc_ops(pre)[k].0 && pre[i].1 is Item
                && method_of(doc_ops(pre)[k].1) is Some && slot(
                pre[i].1->Item_0,
                method_of(doc_ops(pre)[k].1)->0,
            ) == Some(doc_ops(pre)[k].2);
        assert(paths[i] == pre[i]);
        assert(doc_ops(paths)[k] == doc_ops(pre)[k]);
    } else {
        let j = k - doc_ops(pre).len();
        assert(doc_ops(paths)[k] == entry_ops(last.0, last.1)[j]);
        match last.1 {
            PathEntryView::Item(item) => {
                lemma_item_ops_sound(last.0, item);
                assert(listed_from(last.0, item, item_ops(last.0, item)[j]));
                assert(paths[paths.len() - 1] == last);
            },
            PathEntryView::Reference(_) => {},
        }
    }
}

} // verus!
