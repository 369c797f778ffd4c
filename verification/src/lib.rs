//! Merging OpenAPI documents: the first input is the base, and each later
//! input adds the components, tags, extensions and operations that the
//! base lacks.
pub mod clock;
pub mod config;
pub mod document;
pub mod ext;
pub mod file_path;
pub mod index_map;
pub mod input;
pub mod merge;
pub mod openapi_json;
pub mod ordered;

pub use config::MergeConfig;
pub use ext::OpenAPIExt;
pub use input::Description;
pub use input::Dispute;
pub use input::Input;
pub use input::InputSource;
pub use input::OperationSelection;
pub use input::PathModification;
pub use merge::Merge;
