//! URI and file-content utilities.

pub mod file;
pub mod uri;
