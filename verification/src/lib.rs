//! Path containment, library scanning and portable manifests for a local
//! document library, with the rules stated as contracts and proved.

pub mod access;
pub mod content;
pub mod corpus;
pub mod corpus_cache;
pub mod errors;
pub mod import;
pub mod import_laws;
pub mod manifest;
pub mod model;
pub mod ordering;
pub mod outcome;
pub mod paths;
pub mod paths_laws;
pub mod registry;
pub mod scanner;
pub mod scanner_laws;
pub mod secrets;
pub mod text;
