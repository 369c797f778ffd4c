//! How an input's description is to be carried into the result.
use vstd::prelude::*;

verus! {

/// Whether to append the input's description, and under which title.
#[derive(Debug)]
pub struct Description {
    pub append: bool,
    pub title: Option<Title>,
}

/// A title: its text and, optionally, its heading level.
#[derive(Debug)]
pub struct Title {
    pub heading_level: Option<u8>,
    pub value: String,
}

} // verus!
