//! Parsing filenames, matching them against the online database and
//! building new names.

pub mod batch_proofs;
pub mod file_scanner;
pub mod filename_parser;
pub mod parser_proofs;
pub mod renamer;
pub mod tmdb;
