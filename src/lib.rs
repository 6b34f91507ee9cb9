//! Data model of a part-of-speech tagger: the closed tag vocabulary, and the
//! transition and emission tables loaded from YAML sources.

pub mod document;
pub mod error;
pub mod loader;
pub mod pairs;
pub mod table;
pub mod tag;
pub mod tagger;

pub use document::Node;
pub use error::DataError;
pub use table::{EmissionTable, TagRow, TransitionMatrix};
pub use tag::Tag;
pub use tagger::{Possibility, TagData};
