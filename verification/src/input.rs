//! One input of a merge: where its document comes from, what is taken from
//! it, and the document once loaded.
use vstd::prelude::*;
use std::time::Duration;
use indexmap::IndexMap;
use crate::document::{
    Components, Document, DocumentView, OpView, Operation, components_view, doc_ops, ops_view,
};
use crate::index_map::{handle_entries, new_handle_map};
use crate::openapi_json::{openapi_parses, parse_openapi};
use openapiv3::OpenAPI;

pub mod description;
pub mod dispute;
pub mod operation;
pub mod path;
pub mod source;

pub use self::description::{Description, Title};
pub use self::dispute::{Dispute, PrefixOrSuffix};
pub use self::operation::OperationSelection;
pub use self::path::PathModification;
pub use self::source::InputSource;
use self::operation::OperationSelectionView;

verus! {

/// An input: its source, which of its operations are taken, how its
/// description and paths are to be carried over, its document and how long
/// loading it took.
pub struct Input {
    pub source: InputSource,
    pub operation_selection: Option<OperationSelection>,
    pub description: Option<Description>,
    pub path_modification: Option<PathModification>,
    pub openapi: Document,
    pub load_time: Duration,
}

/// Why an input's document could not be loaded.
#[derive(Debug)]
pub enum LoadError {
    /// The text is not JSON of an OpenAPI document.
    Parse(serde_json::Error),
}

/// The view of an optional operation selection.
pub open spec fn selection_view(s: Option<OperationSelection>) -> Option<OperationSelectionView> {
    match s {
        Some(s) => Some(s@),
        None => None,
    }
}

/// Whether an operation with these tags is taken under an optional
/// selection: always without one.
pub open spec fn selected(sel: Option<OperationSelectionView>, tags: Seq<Seq<char>>) -> bool {
    match sel {
        Some(s) => s.selects(tags),
        None => true,
    }
}

/// The operations of `ops` that are taken under `sel`, in order.
pub open spec fn select_ops(ops: Seq<OpView>, sel: Option<OperationSelectionView>) -> Seq<OpView>
    decreases ops.len(),
{
    if ops.len() == 0 {
        Seq::empty()
    } else {
        let acc = select_ops(ops.drop_last(), sel);
        if selected(sel, ops.last().2.tags) {
            acc.push(ops.last())
        } else {
            acc
        }
    }
}

impl Input {
    /// The other fields stay as they are between `self` and `other`.
    pub open spec fn same_besides_document(&self, other: &Input) -> bool {
        &&& self.source == other.source
        &&& self.operation_selection == other.operation_selection
        &&& self.description == other.description
        &&& self.path_modification == other.path_modification
        &&& self.load_time == other.load_time
    }

    /// Loads the input's document from the JSON text of its source: the
    /// parsed document beside the input, unchanged; fails exactly when the
    /// text does not parse.
    pub fn load(self, text: &str) -> (r: Result<(Input, OpenAPI), LoadError>)
        ensures
            r is Ok <==> openapi_parses(text@),
            r matches Ok((i, _)) ==> i == self,
    {
        self.with_parsed(parse_openapi(text))
    }

    /// The outcome of loading the input, given what parsing its text gave:
    /// the document beside the input, unchanged, or the parse error.
    pub fn with_parsed(self, parsed: Result<OpenAPI, serde_json::Error>) -> (r: Result<(Input, OpenAPI), LoadError>)
        ensures
            match parsed {
                Ok(d) => r == Ok::<(Input, OpenAPI), LoadError>((self, d)),
                Err(e) => r == Err::<(Input, OpenAPI), LoadError>(LoadError::Parse(e)),
            },
    {
        match parsed {
            Ok(d) => Ok((self, d)),
            Err(e) => Err(LoadError::Parse(e)),
        }
    }

    /// The operations of the input's document that its selection takes, in
    /// the order of `Document::operations`.
    pub fn operations(&self) -> (r: Vec<(&str, &str, &Operation)>)
        ensures
            ops_view(r@) == select_ops(doc_ops(self.openapi@.paths), selection_view(self.operation_selection)),
    {
        let all = self.openapi.operations();
        let ghost sel = selection_view(self.operation_selection);
        let mut r: Vec<(&str, &str, &Operation)> = Vec::new();
        let mut i: usize = 0;
        assert(ops_view(all@).take(0) =~= Seq::<OpView>::empty());
        while i < all.len()
            invariant
                i <= all@.len(),
                sel == selection_view(self.operation_selection),
                ops_view(r@) == select_ops(ops_view(all@).take(i as int), sel),
            decreases all@.len() - i,
        {
            let t = all[i];
            assert(ops_view(all@).take(i + 1).drop_last() =~= ops_view(all@).take(i as int));
            if self.filter_operation(t.2) {
                r.push(t);
                assert(ops_view(r@) =~= select_ops(ops_view(all@).take(i as int), sel).push((t.0@, t.1@, t.2@)));
            }
            i = i + 1;
        }
        assert(ops_view(all@).take(all@.len() as int) =~= ops_view(all@));
        r
    }

    /// Whether the input's selection takes `operation`: always without one.
    fn filter_operation(&self, operation: &Operation) -> (r: bool)
        ensures
            r == selected(selection_view(self.operation_selection), operation@.tags),
    {
        match &self.operation_selection {
            Some(selection) => selection.filter_operation(operation),
            None => true,
        }
    }

    /// Takes the document's components, leaving none.
    pub fn components(&mut self) -> (r: Option<Components>)
        ensures
            components_view(r) == old(self).openapi@.components,
            final(self).openapi@ == (DocumentView { components: None, ..old(self).openapi@ }),
            final(self).same_besides_document(old(self)),
    {
        self.openapi.components.take()
    }

    /// Takes the document's security requirements, leaving none.
    pub fn security(&mut self) -> (r: Option<u64>)
        ensures
            r == old(self).openapi@.security,
            final(self).openapi@ == (DocumentView { security: None, ..old(self).openapi@ }),
            final(self).same_besides_document(old(self)),
    {
        self.openapi.security.take()
    }

    /// Takes the document's tags, leaving none.
    pub fn tags(&mut self) -> (r: Vec<u64>)
        ensures
            r@ == old(self).openapi@.tags,
            final(self).openapi@ == (DocumentView { tags: Seq::empty(), ..old(self).openapi@ }),
            final(self).same_besides_document(old(self)),
    {
        let mut tags: Vec<u64> = Vec::new();
        std::mem::swap(&mut tags, &mut self.openapi.tags);
        tags
    }

    /// Takes the document's extensions, leaving none.
    pub fn extensions(&mut self) -> (r: IndexMap<String, u64>)
        ensures
            handle_entries(r) == old(self).openapi@.extensions,
            final(self).openapi@ == (DocumentView { extensions: Seq::empty(), ..old(self).openapi@ }),
            final(self).same_besides_document(old(self)),
    {
        let mut extensions = new_handle_map();
        std::mem::swap(&mut extensions, &mut self.openapi.extensions);
        extensions
    }
}

} // verus!
