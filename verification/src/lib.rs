//! Verified core of a workshop content publishing tool.
//!
//! The centre of the crate is the content staging pipeline: building a
//! filter rule set out of user globs and ignore files, walking a source
//! tree, and producing the filtered copy that is uploaded. Around it sit
//! the small validated data types the tool works with: tags, item
//! metadata and command arguments.

pub mod item;
pub mod laws;
pub mod matcher;
pub mod preview;
pub mod rules;
pub mod stage;
pub mod tags;
pub mod text;

pub use tags::check_tags_are_predefined;
pub use tags::Tag;
pub use tags::TagError;
