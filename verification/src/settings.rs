//! The settings that a program keeps between its runs.

use crate::model::{copy_text, text_of};
use std::path::PathBuf;
use vstd::prelude::*;

verus! {

/// The settings that a program keeps between its runs.
#[derive(Debug)]
pub struct AppSettings {
    pub tmdb_api_key: Option<String>,
    pub last_input_directory: Option<PathBuf>,
    pub last_output_directory: Option<PathBuf>,
    pub selected_pattern: Option<String>,
}

impl Default for AppSettings {
    fn default() -> (settings: AppSettings)
        ensures
            settings.tmdb_api_key is None,
            settings.last_input_directory is None,
            settings.last_output_directory is None,
            settings.selected_pattern is None,
    {
        AppSettings {
            tmdb_api_key: None,
            last_input_directory: None,
            last_output_directory: None,
            selected_pattern: None,
        }
    }
}

impl Clone for AppSettings {
    fn clone(&self) -> (copy: AppSettings)
        ensures
            text_of(copy.tmdb_api_key) == text_of(self.tmdb_api_key),
            copy.last_input_directory == self.last_input_directory,
            copy.last_output_directory == self.last_output_directory,
            text_of(copy.selected_pattern) == text_of(self.selected_pattern),
    {
        AppSettings {
            tmdb_api_key: copy_text(&self.tmdb_api_key),
            last_input_directory: match &self.last_input_directory {
                Some(path) => Some(path.clone()),
                None => None,
            },
            last_output_directory: match &self.last_output_directory {
                Some(path) => Some(path.clone()),
                None => None,
            },
            selected_pattern: copy_text(&self.selected_pattern),
        }
    }
}

impl AppSettings {
    /// The credential that the user has saved.
    pub fn get_api_key(&self) -> (key: Option<String>)
        ensures
            text_of(key) == text_of(self.tmdb_api_key),
    {
        copy_text(&self.tmdb_api_key)
    }

    /// Replaces the saved credential and nothing else.
    pub fn set_api_key(&mut self, key: Option<String>)
        ensures
            final(self).tmdb_api_key == key,
            final(self).last_input_directory == old(self).last_input_directory,
            final(self).last_output_directory == old(self).last_output_directory,
            final(self).selected_pattern == old(self).selected_pattern,
    {
        self.tmdb_api_key = key;
    }
}

} // verus!
