//! Where an input's document comes from.
use vstd::prelude::*;
use crate::file_path::{join_path, joined_path};

verus! {

/// A file (a path relative to the configuration's directory, or absolute)
/// or a URL.
#[derive(Debug)]
pub enum InputSource {
    InputFile { input_file: String },
    InputUrl { input_url: String },
}

impl InputSource {
    /// The file that the input's document is loaded from: the input file
    /// joined onto `base`. Loading from a URL is not supported.
    pub fn load(&self, base: &str) -> (r: String)
        requires
            self is InputFile,
        ensures
            r@ == joined_path(base@, self->input_file@),
    {
        match self {
            InputSource::InputFile { input_file } => join_path(base, input_file.as_str()),
            InputSource::InputUrl { .. } => {
                assert(false);
                String::new()
            },
        }
    }

    /// The file or URL, as text.
    pub fn to_string(&self) -> (r: String)
        ensures
            r@ == match self {
                InputSource::InputFile { input_file } => input_file@,
                InputSource::InputUrl { input_url } => input_url@,
            },
    {
        match self {
            InputSource::InputFile { input_file } => input_file.clone(),
            InputSource::InputUrl { input_url } => input_url.clone(),
        }
    }
}

} // verus!
