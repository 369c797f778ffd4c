//! Which operations of an input are taken into the result.
use vstd::prelude::*;
use crate::document::Operation;

verus! {

/// Tags whose operations are taken (`include_tags`) or dropped
/// (`exclude_tags`).
#[derive(Debug)]
pub struct OperationSelection {
    pub include_tags: Option<Vec<String>>,
    pub exclude_tags: Option<Vec<String>>,
}

/// The tag lists of an `OperationSelection`, as plain values.
pub struct OperationSelectionView {
    pub include_tags: Option<Seq<Seq<char>>>,
    pub exclude_tags: Option<Seq<Seq<char>>>,
}

impl View for OperationSelection {
    type V = OperationSelectionView;

    open spec fn view(&self) -> OperationSelectionView {
        OperationSelectionView {
            include_tags: self.include_tags.deep_view(),
            exclude_tags: self.exclude_tags.deep_view(),
        }
    }
}

/// Whether some tag of `list` is among `tags`.
pub open spec fn shares_tag(list: Seq<Seq<char>>, tags: Seq<Seq<char>>) -> bool {
    exists|i: int| 0 <= i < list.len() && tags.contains(#[trigger] list[i])
}

impl OperationSelectionView {
    /// Whether an operation with these tags is taken: not if it carries an
    /// excluded tag; otherwise, with an include list, only if it carries one
    /// of its tags; without one, always.
    pub open spec fn selects(self, tags: Seq<Seq<char>>) -> bool {
        if self.exclude_tags is Some && shares_tag(self.exclude_tags->0, tags) {
            false
        } else {
            match self.include_tags {
                Some(wanted) => shares_tag(wanted, tags),
                None => true,
            }
        }
    }
}

/// Whether `tags` holds `tag`.
fn has_tag(tags: &Vec<String>, tag: &String) -> (r: bool)
    ensures
        r == tags.deep_view().contains(tag@),
{
    let mut i: usize = 0;
    while i < tags.len()
        invariant
            i <= tags@.len(),
            forall|j: int| 0 <= j < i ==> tags@[j]@ != tag@,
        decreases tags@.len() - i,
    {
        if tags[i] == *tag {
            assert(tags.deep_view()[i as int] == tag@);
            return true;
        }
        i = i + 1;
    }
    assert forall|j: int| 0 <= j < tags.deep_view().len() implies tags.deep_view()[j] != tag@ by {
        assert(tags.deep_view()[j] == tags@[j]@);
    }
    false
}

/// Whether some tag of `list` is among `tags`.
fn any_tag_in(list: &Vec<String>, tags: &Vec<String>) -> (r: bool)
    ensures
        r == shares_tag(list.deep_view(), tags.deep_view()),
{
    let mut i: usize = 0;
    while i < list.len()
        invariant
            i <= list@.len(),
            forall|j: int| 0 <= j < i ==> !tags.deep_view().contains(#[trigger] list.deep_view()[j]),
        decreases list@.len() - i,
    {
        if has_tag(tags, &list[i]) {
            assert(tags.deep_view().contains(list.deep_view()[i as int]));
            return true;
        }
        i = i + 1;
    }
    false
}

impl OperationSelection {
    /// Whether `operation` is taken: not if it carries an excluded tag;
    /// otherwise, with an include list, only if it carries one of its tags;
    /// without one, always.
    pub fn filter_operation(&self, operation: &Operation) -> (r: bool)
        ensures
            r == self@.selects(operation@.tags),
    {
        if let Some(exclude) = &self.exclude_tags {
            if any_tag_in(exclude, &operation.tags) {
                return false;
            }
        }
        if let Some(wanted) = &self.include_tags {
            if any_tag_in(wanted, &operation.tags) {
                return true;
            } else {
                return false;
            }
        }
        true
    }
}

/// An excluded tag wins over an included one; without lists, every
/// operation is taken.
pub proof fn law_exclude_wins(sel: OperationSelectionView, tags: Seq<Seq<char>>)
    ensures
        sel.exclude_tags is Some && shares_tag(sel.exclude_tags->0, tags) ==> !sel.selects(tags),
        sel.exclude_tags is None && sel.include_tags is None ==> sel.selects(tags),
        sel.include_tags is Some && !shares_tag(sel.include_tags->0, tags) ==> !sel.selects(tags),
{
}

/// An operation is taken exactly when no excluded tag is among its tags and,
/// with an include list, some included tag is among its tags, wherever it
/// stands in either list.
pub proof fn law_selection_by_tags(sel: OperationSelectionView, tags: Seq<Seq<char>>)
    ensures
        sel.selects(tags) <==> (!(sel.exclude_tags is Some && exists|i: int, j: int|
            0 <= i < sel.exclude_tags->0.len() && 0 <= j < tags.len() && #[trigger] sel.exclude_tags->0[i]
                == #[trigger] tags[j])) && (sel.include_tags is None || exists|i: int, j: int|
            0 <= i < sel.include_tags->0.len() && 0 <= j < tags.len() && #[trigger] sel.include_tags->0[i]
                == #[trigger] tags[j]),
{
    if sel.exclude_tags is Some {
        let ex = sel.exclude_tags->0;
        if shares_tag(ex, tags) {
            let i = choose|i: int| 0 <= i < ex.len() && tags.contains(#[trigger] ex[i]);
            let j = choose|j: int| 0 <= j < tags.len() && tags[j] == ex[i];
            assert(ex[i] == tags[j]);
        }
        if exists|i: int, j: int| 0 <= i < ex.len() && 0 <= j < tags.len() && #[trigger] ex[i] == #[trigger] tags[j] {
            let (i, j) = choose|i: int, j: int| 0 <= i < ex.len() && 0 <= j < tags.len() && #[trigger] ex[i] == #[trigger] tags[j];
            assert(tags.contains(ex[i]));
        }
    }
    if sel.include_tags is Some {
        let w = sel.include_tags->0;
        if shares_tag(w, tags) {
            let i = choose|i: int| 0 <= i < w.len() && tags.contains(#[trigger] w[i]);
            let j = choose|j: int| 0 <= j < tags.len() && tags[j] == w[i];
            assert(w[i] == tags[j]);
        }
        if exists|i: int, j: int| 0 <= i < w.len() && 0 <= j < tags.len() && #[trigger] w[i] == #[trigger] tags[j] {
            let (i, j) = choose|i: int, j: int| 0 <= i < w.len() && 0 <= j < tags.len() && #[trigger] w[i] == #[trigger] tags[j];
            assert(tags.contains(w[i]));
        }
    }
}

} // verus!
