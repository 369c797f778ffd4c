//! The configuration of a merge.
use vstd::prelude::*;
use std::time::Duration;
use crate::clock::zero_duration;
use crate::document::{Document, DocumentView};
use crate::file_path::{dir_or_current, dir_or_current_spec, join_path, joined_path, parent_of, parent_path};
use crate::input::Input;
use crate::merge::Merge;

verus! {

/// The inputs to merge, in order (the first is the base), the file to write
/// the result to (relative to the configuration's directory, or absolute),
/// the configuration file itself, and timings.
pub struct MergeConfig {
    pub inputs: Vec<Input>,
    pub output: String,
    pub source: String,
    pub load_time: Duration,
    pub merged: Document,
    pub merge_time: Duration,
    pub save_time: Duration,
}

impl MergeConfig {
    /// The directory of the configuration file, which relative paths start
    /// from: the parent of `source`, or `"."` when it has none.
    pub open spec fn base_dir_spec(&self) -> Seq<char> {
        dir_or_current_spec(parent_path(self.source@))
    }

    /// The directory of the configuration file, which relative paths start
    /// from: the parent of `source`, or `"."` when it has none.
    pub fn base_dir(&self) -> (r: String)
        ensures
            r@ == self.base_dir_spec(),
    {
        dir_or_current(parent_of(self.source.as_str()))
    }

    /// The file to write the result to: `output` joined onto the directory
    /// of the configuration file.
    pub fn output(&self) -> (r: String)
        ensures
            r@ == joined_path(self.base_dir_spec(), self.output@),
    {
        let base = self.base_dir();
        join_path(base.as_str(), self.output.as_str())
    }

    /// The merge that this configuration describes.
    pub fn into_merge(self) -> (r: Merge)
        ensures
            r.config == self,
            r.merged@ == DocumentView::empty(),
    {
        Merge::from(self)
    }
}

impl Default for MergeConfig {
    /// A configuration with no input and empty paths.
    fn default() -> (r: MergeConfig)
        ensures
            r.inputs@.len() == 0,
            r.output@.len() == 0,
            r.source@.len() == 0,
            r.merged@ == DocumentView::empty(),
    {
        MergeConfig {
            inputs: Vec::new(),
            output: String::new(),
            source: String::new(),
            load_time: zero_duration(),
            merged: Document::empty(),
            merge_time: zero_duration(),
            save_time: zero_duration(),
        }
    }
}

} // verus!
