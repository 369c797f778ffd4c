//! The parts of an OpenAPI document that merging reads and changes.
//!
//! Values that merging only moves around (schemas, responses, the body of an
//! operation, a tag, an extension value, ...) are held as handles: integers
//! that stand for them. Equal tags carry equal handles.
use vstd::prelude::*;
use indexmap::IndexMap;
use crate::index_map::{handle_entries, keys_unique, new_handle_map, new_path_map, path_entries, path_map_iter};

verus! {

/// An operation: the tags it is filed under, and a handle for the rest of it.
pub struct Operation {
    pub tags: Vec<String>,
    pub body: u64,
}

/// What an operation holds, as plain values.
pub struct OperationView {
    pub tags: Seq<Seq<char>>,
    pub body: u64,
}

impl View for Operation {
    type V = OperationView;

    open spec fn view(&self) -> OperationView {
        OperationView { tags: self.tags.deep_view(), body: self.body }
    }
}

impl Operation {
    /// A copy of the operation.
    pub fn duplicate(&self) -> (r: Operation)
        ensures
            r@ == self@,
    {
        let tags = self.tags.clone();
        assert(tags.deep_view() =~= self.tags.deep_view());
        Operation { tags, body: self.body }
    }
}

/// The view of an optional operation.
pub open spec fn op_view(op: Option<Operation>) -> Option<OperationView> {
    match op {
        Some(o) => Some(o@),
        None => None,
    }
}

/// A path item: its operations by method, and a handle for its other fields
/// (`None` for a path item that has nothing but its operations).
pub struct PathItem {
    pub get: Option<Operation>,
    pub put: Option<Operation>,
    pub post: Option<Operation>,
    pub delete: Option<Operation>,
    pub options: Option<Operation>,
    pub head: Option<Operation>,
    pub patch: Option<Operation>,
    pub trace: Option<Operation>,
    pub details: Option<u64>,
}

/// What a path item holds, as plain values.
pub struct PathItemView {
    pub get: Option<OperationView>,
    pub put: Option<OperationView>,
    pub post: Option<OperationView>,
    pub delete: Option<OperationView>,
    pub options: Option<OperationView>,
    pub head: Option<OperationView>,
    pub patch: Option<OperationView>,
    pub trace: Option<OperationView>,
    pub details: Option<u64>,
}

impl View for PathItem {
    type V = PathItemView;

    open spec fn view(&self) -> PathItemView {
        PathItemView {
            get: op_view(self.get),
            put: op_view(self.put),
            post: op_view(self.post),
            delete: op_view(self.delete),
            options: op_view(self.options),
            head: op_view(self.head),
            patch: op_view(self.patch),
            trace: op_view(self.trace),
            details: self.details,
        }
    }
}

impl PathItemView {
    /// The path item with no operation and nothing else.
    pub open spec fn empty() -> PathItemView {
        PathItemView {
            get: None,
            put: None,
            post: None,
            delete: None,
            options: None,
            head: None,
            patch: None,
            trace: None,
            details: None,
        }
    }
}

impl PathItem {
    /// A path item with no operation and nothing else.
    pub fn empty() -> (r: PathItem)
        ensures
            r@ == PathItemView::empty(),
    {
        PathItem {
            get: None,
            put: None,
            post: None,
            delete: None,
            options: None,
            head: None,
            patch: None,
            trace: None,
            details: None,
        }
    }
}

/// What a path maps to: a reference to a path item, or a path item.
pub enum PathEntry {
    Reference { reference: String },
    Item(PathItem),
}

/// What a path entry holds, as plain values.
pub enum PathEntryView {
    Reference(Seq<char>),
    Item(PathItemView),
}

impl View for PathEntry {
    type V = PathEntryView;

    open spec fn view(&self) -> PathEntryView {
        match self {
            PathEntry::Reference { reference } => PathEntryView::Reference(reference@),
            PathEntry::Item(item) => PathEntryView::Item(item@),
        }
    }
}

impl PathEntry {
    /// A path entry holding an empty path item.
    pub fn empty_item() -> (r: PathEntry)
        ensures
            r@ == PathEntryView::Item(PathItemView::empty()),
    {
        PathEntry::Item(PathItem::empty())
    }
}

/// The reusable objects of a document, each map from names to handles.
pub struct Components {
    pub schemas: IndexMap<String, u64>,
    pub responses: IndexMap<String, u64>,
    pub parameters: IndexMap<String, u64>,
    pub examples: IndexMap<String, u64>,
    pub request_bodies: IndexMap<String, u64>,
    pub headers: IndexMap<String, u64>,
    pub security_schemes: IndexMap<String, u64>,
    pub links: IndexMap<String, u64>,
    pub callbacks: IndexMap<String, u64>,
    pub extensions: IndexMap<String, u64>,
}

/// The entries of the maps of a `Components`, as plain values.
pub struct ComponentsView {
    pub schemas: Seq<(Seq<char>, u64)>,
    pub responses: Seq<(Seq<char>, u64)>,
    pub parameters: Seq<(Seq<char>, u64)>,
    pub examples: Seq<(Seq<char>, u64)>,
    pub request_bodies: Seq<(Seq<char>, u64)>,
    pub headers: Seq<(Seq<char>, u64)>,
    pub security_schemes: Seq<(Seq<char>, u64)>,
    pub links: Seq<(Seq<char>, u64)>,
    pub callbacks: Seq<(Seq<char>, u64)>,
    pub extensions: Seq<(Seq<char>, u64)>,
}

impl View for Components {
    type V = ComponentsView;

    open spec fn view(&self) -> ComponentsView {
        ComponentsView {
            schemas: handle_entries(self.schemas),
            responses: handle_entries(self.responses),
            parameters: handle_entries(self.parameters),
            examples: handle_entries(self.examples),
            request_bodies: handle_entries(self.request_bodies),
            headers: handle_entries(self.headers),
            security_schemes: handle_entries(self.security_schemes),
            links: handle_entries(self.links),
            callbacks: handle_entries(self.callbacks),
            extensions: handle_entries(self.extensions),
        }
    }
}

impl ComponentsView {
    /// Components with no entries.
    pub open spec fn empty() -> ComponentsView {
        ComponentsView {
            schemas: Seq::empty(),
            responses: Seq::empty(),
            parameters: Seq::empty(),
            examples: Seq::empty(),
            request_bodies: Seq::empty(),
            headers: Seq::empty(),
            security_schemes: Seq::empty(),
            links: Seq::empty(),
            callbacks: Seq::empty(),
            extensions: Seq::empty(),
        }
    }
}

impl Components {
    /// Components with no entries.
    pub fn empty() -> (r: Components)
        ensures
            r@ == ComponentsView::empty(),
    {
        Components {
            schemas: new_handle_map(),
            responses: new_handle_map(),
            parameters: new_handle_map(),
            examples: new_handle_map(),
            request_bodies: new_handle_map(),
            headers: new_handle_map(),
            security_schemes: new_handle_map(),
            links: new_handle_map(),
            callbacks: new_handle_map(),
            extensions: new_handle_map(),
        }
    }
}

/// The view of optional components.
pub open spec fn components_view(c: Option<Components>) -> Option<ComponentsView> {
    match c {
        Some(c) => Some(c@),
        None => None,
    }
}

/// An OpenAPI document: its paths, components, security requirements
/// (a handle), tags (handles), extensions, and a handle for its other fields
/// (`None` for a document that has nothing else).
pub struct Document {
    pub details: Option<u64>,
    pub paths: IndexMap<String, PathEntry>,
    pub components: Option<Components>,
    pub security: Option<u64>,
    pub tags: Vec<u64>,
    pub extensions: IndexMap<String, u64>,
}

/// What a document holds, as plain values.
pub struct DocumentView {
    pub details: Option<u64>,
    pub paths: Seq<(Seq<char>, PathEntryView)>,
    pub components: Option<ComponentsView>,
    pub security: Option<u64>,
    pub tags: Seq<u64>,
    pub extensions: Seq<(Seq<char>, u64)>,
}

impl View for Document {
    type V = DocumentView;

    open spec fn view(&self) -> DocumentView {
        DocumentView {
            details: self.details,
            paths: path_entries(self.paths),
            components: components_view(self.components),
            security: self.security,
            tags: self.tags@,
            extensions: handle_entries(self.extensions),
        }
    }
}

impl DocumentView {
    /// The document with nothing in it.
    pub open spec fn empty() -> DocumentView {
        DocumentView {
            details: None,
            paths: Seq::empty(),
            components: None,
            security: None,
            tags: Seq::empty(),
            extensions: Seq::empty(),
        }
    }
}

impl Document {
    /// The document with nothing in it.
    pub fn empty() -> (r: Document)
        ensures
            r@ == DocumentView::empty(),
    {
        Document {
            details: None,
            paths: new_path_map(),
            components: None,
            security: None,
            tags: Vec::new(),
            extensions: new_handle_map(),
        }
    }
}

/// An operation of a document, by path and method name.
pub type OpView = (Seq<char>, Seq<char>, OperationView);

/// The operations of a list of operation references, as plain values.
pub open spec fn ops_view(ops: Seq<(&str, &str, &Operation)>) -> Seq<OpView> {
    ops.map_values(|t: (&str, &str, &Operation)| (t.0@, t.1@, t.2@))
}

/// The operation for one method of a path, if the path item holds one.
pub open spec fn slot_ops(path: Seq<char>, method: Seq<char>, op: Option<OperationView>) -> Seq<OpView> {
    match op {
        Some(o) => seq![(path, method, o)],
        None => Seq::empty(),
    }
}

/// The operations of a path item, in the order get, put, post, delete,
/// options, head, patch, trace.
pub open spec fn item_ops(path: Seq<char>, item: PathItemView) -> Seq<OpView> {
    slot_ops(path, "get"@, item.get) + slot_ops(path, "put"@, item.put) + slot_ops(path, "post"@, item.post)
        + slot_ops(path, "delete"@, item.delete) + slot_ops(path, "options"@, item.options)
        + slot_ops(path, "head"@, item.head) + slot_ops(path, "patch"@, item.patch)
        + slot_ops(path, "trace"@, item.trace)
}

/// The operations of a path entry: none for a reference.
pub open spec fn entry_ops(path: Seq<char>, entry: PathEntryView) -> Seq<OpView> {
    match entry {
        PathEntryView::Reference(_) => Seq::empty(),
        PathEntryView::Item(item) => item_ops(path, item),
    }
}

/// The operations of a document's paths, path by path in the paths' order.
pub open spec fn doc_ops(paths: Seq<(Seq<char>, PathEntryView)>) -> Seq<OpView>
    decreases paths.len(),
{
    if paths.len() == 0 {
        Seq::empty()
    } else {
        doc_ops(paths.drop_last()) + entry_ops(paths.last().0, paths.last().1)
    }
}

/// Appends the operation `op` of `path` for `method`, if there is one.
fn push_slot<'a>(
    ops: &mut Vec<(&'a str, &'a str, &'a Operation)>,
    path: &'a str,
    method: &'a str,
    op: &'a Option<Operation>,
)
    ensures
        ops_view(final(ops)@) == ops_view(old(ops)@) + slot_ops(path@, method@, op_view(*op)),
{
    match op {
        Some(o) => {
            ops.push((path, method, o));
            assert(ops_view(ops@) =~= ops_view(old(ops)@) + slot_ops(path@, method@, op_view(*op)));
        },
        None => {
            assert(ops_view(ops@) =~= ops_view(old(ops)@) + slot_ops(path@, method@, op_view(*op)));
        },
    }
}

impl PathItem {
    /// Appends the operations of this path item, under `path`, in the order
    /// get, put, post, delete, options, head, patch, trace.
    fn push_ops<'a>(&'a self, path: &'a str, ops: &mut Vec<(&'a str, &'a str, &'a Operation)>)
        ensures
            ops_view(final(ops)@) == ops_view(old(ops)@) + item_ops(path@, self@),
    {
        push_slot(ops, path, "get", &self.get);
        push_slot(ops, path, "put", &self.put);
        push_slot(ops, path, "post", &self.post);
        push_slot(ops, path, "delete", &self.delete);
        push_slot(ops, path, "options", &self.options);
        push_slot(ops, path, "head", &self.head);
        push_slot(ops, path, "patch", &self.patch);
        push_slot(ops, path, "trace", &self.trace);
        assert(ops_view(ops@) =~= ops_view(old(ops)@) + item_ops(path@, self@));
    }
}

impl Document {
    /// The operations of the document with their paths and method names:
    /// path by path in the order of the paths, skipping references, and
    /// within a path in the order get, put, post, delete, options, head,
    /// patch, trace. The document's paths are distinct.
    pub fn operations(&self) -> (r: Vec<(&str, &str, &Operation)>)
        ensures
            ops_view(r@) == doc_ops(self@.paths),
            keys_unique(self@.paths),
    {
        let ghost pe = path_entries(self.paths);
        let entries = path_map_iter(&self.paths);
        assert forall|a: int, b: int| 0 <= a < pe.len() && 0 <= b < pe.len() && a != b implies #[trigger] pe[a].0
            != #[trigger] pe[b].0 by {
            assert(entries@[a].0@ != entries@[b].0@);
        }
        let mut r: Vec<(&str, &str, &Operation)> = Vec::new();
        let mut i: usize = 0;
        assert(ops_view(r@) =~= doc_ops(pe.take(0)));
        while i < entries.len()
            invariant
                i <= entries@.len(),
                entries@.len() == pe.len(),
                forall|j: int|
                    0 <= j < entries@.len() ==> (#[trigger] entries@[j]).0@ == pe[j].0 && entries@[j].1@
                        == pe[j].1,
                ops_view(r@) == doc_ops(pe.take(i as int)),
            decreases entries@.len() - i,
        {
            let (path, entry) = entries[i];
            assert(pe.take(i + 1).drop_last() =~= pe.take(i as int));
            match entry {
                PathEntry::Reference { .. } => {
                    assert(ops_view(r@) =~= doc_ops(pe.take(i + 1)));
                },
                PathEntry::Item(item) => {
                    item.push_ops(path.as_str(), &mut r);
                },
            }
            i = i + 1;
        }
        assert(pe.take(pe.len() as int) =~= pe);
        r
    }
}

} // verus!
