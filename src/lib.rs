//! Resolves bioacoustic catalogue identifiers, derives file names and metadata
//! for a recording, and merges entries into a de-duplicated catalogue index.
pub mod text;
pub mod ids;
pub mod names;
pub mod date;
pub mod json;
pub mod record;
pub mod response;
pub mod index;
pub mod plan;
