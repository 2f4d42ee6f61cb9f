//! Reel: the logic of a media file organizer.
//!
//! The library reads what the name of a video file says about its media
//! ([`utils::filename_parser`]), decides what to ask an online database
//! and what to make of its answers ([`utils::tmdb`]), builds new filenames
//! from templates and steers the renaming ([`utils::renamer`]), and puts
//! scanned files in order ([`utils::file_scanner`]). It sends no request
//! and touches no file: a program around it does, and hands it what it
//! found.
//!
//! Searches with regular expressions are made by the `regex` crate
//! ([`matcher`]); everything else is proved against the specifications
//! that stand beside it.

pub mod matcher;
pub mod model;
pub mod settings;
pub mod text;
pub mod utils;
