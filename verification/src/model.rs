//! The records that the library works on.

use crate::text::{contains, has, lowercased, to_chars, to_lowercase, trim, trimmed};
use std::path::PathBuf;
use vstd::prelude::*;
use vstd::string::*;

verus! {

/// What kind of media a file holds.
#[derive(Debug, Clone, Copy, PartialEq, Eq, Structural)]
pub enum MediaType {
    Unknown,
    Movie,
    TvShow,
}

impl Default for MediaType {
    fn default() -> (kind: MediaType)
        ensures
            kind == MediaType::Unknown,
    {
        MediaType::Unknown
    }
}

impl MediaType {
    /// The name shown for this kind.
    pub open spec fn display_text(self) -> Seq<char> {
        match self {
            MediaType::Unknown => "Unknown"@,
            MediaType::Movie => "Movie"@,
            MediaType::TvShow => "TV Show"@,
        }
    }

    /// The abbreviation shown for this kind.
    pub open spec fn short_text(self) -> Seq<char> {
        match self {
            MediaType::Unknown => "?"@,
            MediaType::Movie => "M"@,
            MediaType::TvShow => "TV"@,
        }
    }

    pub fn display_name(&self) -> (name: &'static str)
        ensures
            name@ == self.display_text(),
    {
        match self {
            MediaType::Unknown => "Unknown",
            MediaType::Movie => "Movie",
            MediaType::TvShow => "TV Show",
        }
    }

    pub fn short_name(&self) -> (name: &'static str)
        ensures
            name@ == self.short_text(),
    {
        match self {
            MediaType::Unknown => "?",
            MediaType::Movie => "M",
            MediaType::TvShow => "TV",
        }
    }
}

/// The view of an optional string.
pub open spec fn text_of(s: Option<String>) -> Option<Seq<char>> {
    match s {
        Some(s) => Some(s@),
        None => None,
    }
}

/// Copies an optional string.
pub fn copy_text(s: &Option<String>) -> (copy: Option<String>)
    ensures
        text_of(copy) == text_of(*s),
{
    match s {
        Some(s) => Some(s.clone()),
        None => None,
    }
}

/// What a filename says about its media, as plain values.
pub struct ParsedMediaInfoView {
    pub title: Seq<char>,
    pub year: Option<u32>,
    pub season: Option<u32>,
    pub episode: Option<u32>,
    pub episode_title: Option<Seq<char>>,
    pub quality: Option<Seq<char>>,
    pub source: Option<Seq<char>>,
    pub codec: Option<Seq<char>>,
    pub audio: Option<Seq<char>>,
    pub group: Option<Seq<char>>,
}

/// What a filename says about its media.
#[derive(Debug)]
pub struct ParsedMediaInfo {
    pub title: String,
    pub year: Option<u32>,
    pub season: Option<u32>,
    pub episode: Option<u32>,
    pub episode_title: Option<String>,
    pub quality: Option<String>,
    pub source: Option<String>,
    pub codec: Option<String>,
    pub audio: Option<String>,
    pub group: Option<String>,
}

impl View for ParsedMediaInfo {
    type V = ParsedMediaInfoView;

    open spec fn view(&self) -> ParsedMediaInfoView {
        ParsedMediaInfoView {
            title: self.title@,
            year: self.year,
            season: self.season,
            episode: self.episode,
            episode_title: text_of(self.episode_title),
            quality: text_of(self.quality),
            source: text_of(self.source),
            codec: text_of(self.codec),
            audio: text_of(self.audio),
            group: text_of(self.group),
        }
    }
}

impl ParsedMediaInfoView {
    /// The record that says nothing.
    pub open spec fn empty() -> ParsedMediaInfoView {
        ParsedMediaInfoView {
            title: Seq::empty(),
            year: None,
            season: None,
            episode: None,
            episode_title: None,
            quality: None,
            source: None,
            codec: None,
            audio: None,
            group: None,
        }
    }
}

impl Default for ParsedMediaInfo {
    fn default() -> (info: ParsedMediaInfo)
        ensures
            info@ == ParsedMediaInfoView::empty(),
    {
        ParsedMediaInfo {
            title: String::new(),
            year: None,
            season: None,
            episode: None,
            episode_title: None,
            quality: None,
            source: None,
            codec: None,
            audio: None,
            group: None,
        }
    }
}

impl Clone for ParsedMediaInfo {
    fn clone(&self) -> (copy: ParsedMediaInfo)
        ensures
            copy@ == self@,
    {
        ParsedMediaInfo {
            title: self.title.clone(),
            year: self.year,
            season: self.season,
            episode: self.episode,
            episode_title: copy_text(&self.episode_title),
            quality: copy_text(&self.quality),
            source: copy_text(&self.source),
            codec: copy_text(&self.codec),
            audio: copy_text(&self.audio),
            group: copy_text(&self.group),
        }
    }
}

/// The views of a list of strings.
pub open spec fn texts_of(list: Seq<String>) -> Seq<Seq<char>> {
    list.map_values(|s: String| s@)
}

/// Copies a list of strings.
pub fn copy_texts(list: &Vec<String>) -> (copy: Vec<String>)
    ensures
        texts_of(copy@) == texts_of(list@),
{
    let mut copy: Vec<String> = Vec::new();
    let mut i: usize = 0;
    while i < list.len()
        invariant
            i <= list.len(),
            copy.len() == i,
            forall|j: int| 0 <= j < i ==> copy@[j]@ == list@[j]@,
        decreases list.len() - i,
    {
        copy.push(list[i].clone());
        i += 1;
    }
    assert(texts_of(copy@) =~= texts_of(list@));
    copy
}

/// A vote average as the bit pattern of a 32-bit IEEE 754 number. The
/// library carries it and never computes with it.
#[derive(Debug, Clone, Copy, PartialEq, Eq, Structural)]
pub struct Rating {
    pub bits: u32,
}

/// What the online database says about a title, as plain values.
pub struct MediaMetadataView {
    pub tmdb_id: u64,
    pub title: Seq<char>,
    pub original_title: Option<Seq<char>>,
    pub year: Option<u32>,
    pub overview: Option<Seq<char>>,
    pub poster_path: Option<Seq<char>>,
    pub backdrop_path: Option<Seq<char>>,
    pub vote_average: Option<Rating>,
    pub genres: Seq<Seq<char>>,
    pub season_number: Option<u32>,
    pub episode_number: Option<u32>,
    pub episode_title: Option<Seq<char>>,
    pub air_date: Option<Seq<char>>,
    pub show_name: Option<Seq<char>>,
}

/// What the online database says about a title.
#[derive(Debug)]
pub struct MediaMetadata {
    pub tmdb_id: u64,
    pub title: String,
    pub original_title: Option<String>,
    pub year: Option<u32>,
    pub overview: Option<String>,
    pub poster_path: Option<String>,
    pub backdrop_path: Option<String>,
    pub vote_average: Option<Rating>,
    pub genres: Vec<String>,
    pub season_number: Option<u32>,
    pub episode_number: Option<u32>,
    pub episode_title: Option<String>,
    pub air_date: Option<String>,
    pub show_name: Option<String>,
}

impl View for MediaMetadata {
    type V = MediaMetadataView;

    open spec fn view(&self) -> MediaMetadataView {
        MediaMetadataView {
            tmdb_id: self.tmdb_id,
            title: self.title@,
            original_title: text_of(self.original_title),
            year: self.year,
            overview: text_of(self.overview),
            poster_path: text_of(self.poster_path),
            backdrop_path: text_of(self.backdrop_path),
            vote_average: self.vote_average,
            genres: texts_of(self.genres@),
            season_number: self.season_number,
            episode_number: self.episode_number,
            episode_title: text_of(self.episode_title),
            air_date: text_of(self.air_date),
            show_name: text_of(self.show_name),
        }
    }
}

impl MediaMetadataView {
    /// The record with no title and nothing known.
    pub open spec fn empty() -> MediaMetadataView {
        MediaMetadataView {
            tmdb_id: 0,
            title: Seq::empty(),
            original_title: None,
            year: None,
            overview: None,
            poster_path: None,
            backdrop_path: None,
            vote_average: None,
            genres: Seq::empty(),
            season_number: None,
            episode_number: None,
            episode_title: None,
            air_date: None,
            show_name: None,
        }
    }
}

impl Default for MediaMetadata {
    fn default() -> (metadata: MediaMetadata)
        ensures
            metadata@ == MediaMetadataView::empty(),
    {
        let metadata = MediaMetadata {
            tmdb_id: 0,
            title: String::new(),
            original_title: None,
            year: None,
            overview: None,
            poster_path: None,
            backdrop_path: None,
            vote_average: None,
            genres: Vec::new(),
            season_number: None,
            episode_number: None,
            episode_title: None,
            air_date: None,
            show_name: None,
        };
        assert(metadata@.genres =~= Seq::empty());
        metadata
    }
}

impl Clone for MediaMetadata {
    fn clone(&self) -> (copy: MediaMetadata)
        ensures
            copy@ == self@,
    {
        MediaMetadata {
            tmdb_id: self.tmdb_id,
            title: self.title.clone(),
            original_title: copy_text(&self.original_title),
            year: self.year,
            overview: copy_text(&self.overview),
            poster_path: copy_text(&self.poster_path),
            backdrop_path: copy_text(&self.backdrop_path),
            vote_average: self.vote_average,
            genres: copy_texts(&self.genres),
            season_number: self.season_number,
            episode_number: self.episode_number,
            episode_title: copy_text(&self.episode_title),
            air_date: copy_text(&self.air_date),
            show_name: copy_text(&self.show_name),
        }
    }
}

/// One entry of a search in the online database, as plain values.
pub struct SearchResultView {
    pub tmdb_id: u64,
    pub title: Seq<char>,
    pub year: Option<u32>,
    pub media_type: MediaType,
    pub overview: Option<Seq<char>>,
    pub poster_path: Option<Seq<char>>,
    pub vote_average: Option<Rating>,
}

/// One entry of a search in the online database.
#[derive(Debug)]
pub struct SearchResult {
    pub tmdb_id: u64,
    pub title: String,
    pub year: Option<u32>,
    pub media_type: MediaType,
    pub overview: Option<String>,
    pub poster_path: Option<String>,
    pub vote_average: Option<Rating>,
}

impl View for SearchResult {
    type V = SearchResultView;

    open spec fn view(&self) -> SearchResultView {
        SearchResultView {
            tmdb_id: self.tmdb_id,
            title: self.title@,
            year: self.year,
            media_type: self.media_type,
            overview: text_of(self.overview),
            poster_path: text_of(self.poster_path),
            vote_average: self.vote_average,
        }
    }
}

impl Clone for SearchResult {
    fn clone(&self) -> (copy: SearchResult)
        ensures
            copy@ == self@,
    {
        SearchResult {
            tmdb_id: self.tmdb_id,
            title: self.title.clone(),
            year: self.year,
            media_type: self.media_type,
            overview: copy_text(&self.overview),
            poster_path: copy_text(&self.poster_path),
            vote_average: self.vote_average,
        }
    }
}

/// A pair of templates for new filenames, as plain values.
pub struct RenamePatternView {
    pub name: Seq<char>,
    pub movie_pattern: Seq<char>,
    pub tv_pattern: Seq<char>,
}

/// A pair of templates for new filenames: one for movies, one for
/// episodes.
#[derive(Debug)]
pub struct RenamePattern {
    pub name: String,
    pub movie_pattern: String,
    pub tv_pattern: String,
}

impl View for RenamePattern {
    type V = RenamePatternView;

    open spec fn view(&self) -> RenamePatternView {
        RenamePatternView {
            name: self.name@,
            movie_pattern: self.movie_pattern@,
            tv_pattern: self.tv_pattern@,
        }
    }
}

impl RenamePatternView {
    pub open spec fn default_preset() -> RenamePatternView {
        RenamePatternView {
            name: "Default"@,
            movie_pattern: "{title} ({year})"@,
            tv_pattern: "{show} - S{season:02}E{episode:02} - {episode_title}"@,
        }
    }

    pub open spec fn plex_preset() -> RenamePatternView {
        RenamePatternView {
            name: "Plex"@,
            movie_pattern: "{title} ({year})"@,
            tv_pattern: "{show} - s{season:02}e{episode:02} - {episode_title}"@,
        }
    }

    pub open spec fn jellyfin_preset() -> RenamePatternView {
        RenamePatternView {
            name: "Jellyfin"@,
            movie_pattern: "{title} ({year})"@,
            tv_pattern: "{show} S{season:02}E{episode:02} {episode_title}"@,
        }
    }
}

impl Default for RenamePattern {
    fn default() -> (pattern: RenamePattern)
        ensures
            pattern@ == RenamePatternView::default_preset(),
    {
        RenamePattern {
            name: String::from_str("Default"),
            movie_pattern: String::from_str("{title} ({year})"),
            tv_pattern: String::from_str("{show} - S{season:02}E{episode:02} - {episode_title}"),
        }
    }
}

impl Clone for RenamePattern {
    fn clone(&self) -> (copy: RenamePattern)
        ensures
            copy@ == self@,
    {
        RenamePattern {
            name: self.name.clone(),
            movie_pattern: self.movie_pattern.clone(),
            tv_pattern: self.tv_pattern.clone(),
        }
    }
}

impl RenamePattern {
    pub fn plex() -> (pattern: RenamePattern)
        ensures
            pattern@ == RenamePatternView::plex_preset(),
    {
        RenamePattern {
            name: String::from_str("Plex"),
            movie_pattern: String::from_str("{title} ({year})"),
            tv_pattern: String::from_str("{show} - s{season:02}e{episode:02} - {episode_title}"),
        }
    }

    pub fn jellyfin() -> (pattern: RenamePattern)
        ensures
            pattern@ == RenamePatternView::jellyfin_preset(),
    {
        RenamePattern {
            name: String::from_str("Jellyfin"),
            movie_pattern: String::from_str("{title} ({year})"),
            tv_pattern: String::from_str("{show} S{season:02}E{episode:02} {episode_title}"),
        }
    }

    /// The built-in presets, in the order in which they are offered.
    pub fn all_patterns() -> (patterns: Vec<RenamePattern>)
        ensures
            patterns.len() == 3,
            patterns[0]@ == RenamePatternView::default_preset(),
            patterns[1]@ == RenamePatternView::plex_preset(),
            patterns[2]@ == RenamePatternView::jellyfin_preset(),
    {
        let mut patterns: Vec<RenamePattern> = Vec::new();
        patterns.push(RenamePattern::default());
        patterns.push(RenamePattern::plex());
        patterns.push(RenamePattern::jellyfin());
        patterns
    }
}

/// The credential that the library brings along: none. A program that
/// ships with a credential of its own hands it to the lookup.
pub open spec fn default_api_key() -> Seq<char> {
    Seq::empty()
}

/// The credential to use where the user has given none.
pub fn get_default_api_key() -> (key: String)
    ensures
        key@ == default_api_key(),
{
    String::new()
}

/// Whether there is a credential to use where the user has given none.
pub fn has_default_api_key() -> (has: bool)
    ensures
        has == (default_api_key().len() > 0),
{
    !get_default_api_key().as_str().is_empty()
}

/// The extensions of video files, in lower case.
pub const VIDEO_EXTENSIONS: [&'static str; 12] = [
    "mkv",
    "mp4",
    "avi",
    "mov",
    "wmv",
    "flv",
    "webm",
    "m4v",
    "mpg",
    "mpeg",
    "ts",
    "m2ts",
];

/// The extensions of video files, in lower case.
pub open spec fn video_extensions() -> Seq<Seq<char>> {
    seq![
        "mkv"@,
        "mp4"@,
        "avi"@,
        "mov"@,
        "wmv"@,
        "flv"@,
        "webm"@,
        "m4v"@,
        "mpg"@,
        "mpeg"@,
        "ts"@,
        "m2ts"@,
    ]
}

/// Tests whether `lower`, an extension in lower case, is that of a video
/// file.
pub fn is_video_extension(lower: &str) -> (yes: bool)
    ensures
        yes == video_extensions().contains(lower@),
{
    let known = VIDEO_EXTENSIONS;
    assert(known@.map_values(|e: &'static str| e@) =~= video_extensions());
    let wanted = lower.to_owned();
    let mut i: usize = 0;
    while i < known.len()
        invariant
            i <= known.len(),
            wanted@ == lower@,
            known@.map_values(|e: &'static str| e@) == video_extensions(),
            forall|j: int| 0 <= j < i ==> video_extensions()[j] != lower@,
        decreases known.len() - i,
    {
        let candidate = known[i].to_owned();
        assert(candidate@ == video_extensions()[i as int]);
        if candidate == wanted {
            return true;
        }
        i += 1;
    }
    false
}

/// Tests whether `extension`, in any case, is that of a video file.
pub fn is_video_file(extension: &str) -> (yes: bool)
    ensures
        yes == video_extensions().contains(lowercased(extension@)),
{
    let lower = to_lowercase(extension);
    is_video_extension(lower.as_str())
}

/// `std::path::PathBuf`, a path of the file system. The library carries
/// paths and looks into none.
#[verifier::external_type_specification]
#[verifier::external_body]
pub struct ExPathBuf(PathBuf);

/// Taken on trust of `PathBuf::clone`: the copy is equal to the path that
/// it copies.
pub assume_specification[ <PathBuf as Clone>::clone ](path: &PathBuf) -> (copy: PathBuf)
    ensures
        copy == *path,
;

/// The view of optional information read from a filename.
pub open spec fn parsed_of(info: Option<ParsedMediaInfo>) -> Option<ParsedMediaInfoView> {
    match info {
        Some(info) => Some(info@),
        None => None,
    }
}

/// The view of optional metadata.
pub open spec fn metadata_of(metadata: Option<MediaMetadata>) -> Option<MediaMetadataView> {
    match metadata {
        Some(metadata) => Some(metadata@),
        None => None,
    }
}

/// A media file, as plain values.
pub struct MediaFileView {
    pub path: PathBuf,
    pub filename: Seq<char>,
    pub extension: Seq<char>,
    pub size_bytes: u64,
    pub media_type: MediaType,
    pub parsed_info: Option<ParsedMediaInfoView>,
    pub matched_metadata: Option<MediaMetadataView>,
    pub new_filename: Option<Seq<char>>,
    pub is_selected: bool,
}

/// A media file with what is known of it so far.
#[derive(Debug)]
pub struct MediaFile {
    pub path: PathBuf,
    pub filename: String,
    pub extension: String,
    pub size_bytes: u64,
    pub media_type: MediaType,
    pub parsed_info: Option<ParsedMediaInfo>,
    pub matched_metadata: Option<MediaMetadata>,
    pub new_filename: Option<String>,
    pub is_selected: bool,
}

impl View for MediaFile {
    type V = MediaFileView;

    open spec fn view(&self) -> MediaFileView {
        MediaFileView {
            path: self.path,
            filename: self.filename@,
            extension: self.extension@,
            size_bytes: self.size_bytes,
            media_type: self.media_type,
            parsed_info: parsed_of(self.parsed_info),
            matched_metadata: metadata_of(self.matched_metadata),
            new_filename: text_of(self.new_filename),
            is_selected: self.is_selected,
        }
    }
}

impl Clone for MediaFile {
    fn clone(&self) -> (copy: MediaFile)
        ensures
            copy@ == self@,
    {
        MediaFile {
            path: self.path.clone(),
            filename: self.filename.clone(),
            extension: self.extension.clone(),
            size_bytes: self.size_bytes,
            media_type: self.media_type,
            parsed_info: match &self.parsed_info {
                Some(info) => Some(info.clone()),
                None => None,
            },
            matched_metadata: match &self.matched_metadata {
                Some(metadata) => Some(metadata.clone()),
                None => None,
            },
            new_filename: copy_text(&self.new_filename),
            is_selected: self.is_selected,
        }
    }
}

impl MediaFile {
    /// The record of a file at `path` of which nothing is known yet but
    /// its name, its extension and its size.
    pub fn new(path: PathBuf, filename: String, extension: String, size_bytes: u64) -> (file:
        MediaFile)
        ensures
            file@ == (MediaFileView {
                path,
                filename: filename@,
                extension: extension@,
                size_bytes,
                media_type: MediaType::Unknown,
                parsed_info: None,
                matched_metadata: None,
                new_filename: None,
                is_selected: false,
            }),
    {
        MediaFile {
            path,
            filename,
            extension,
            size_bytes,
            media_type: MediaType::Unknown,
            parsed_info: None,
            matched_metadata: None,
            new_filename: None,
            is_selected: false,
        }
    }
}

/// The views of a list of files.
pub open spec fn media_files_view(files: Seq<MediaFile>) -> Seq<MediaFileView> {
    files.map_values(|f: MediaFile| f@)
}

/// What a program shows and works on: the files, what the user looks for
/// among them, the state of the lookup and of the renaming.
#[derive(Debug)]
pub struct AppState {
    pub files: Vec<MediaFile>,
    pub selected_file_index: Option<usize>,
    pub search_query: String,
    pub loading: bool,
    pub status: String,
    pub search_results: Vec<SearchResult>,
    pub search_loading: bool,
    pub search_input: String,
    /// The credential that the user has entered, empty where the built-in
    /// one is used.
    pub tmdb_api_key: String,
    pub using_default_key: bool,
    /// Whether the credential was accepted, once that is known.
    pub api_key_valid: Option<bool>,
    pub api_key_verifying: bool,
    pub rename_pattern: RenamePattern,
    pub output_directory: Option<PathBuf>,
    pub show_rename_confirm: bool,
    /// Old and new names of the files about to be renamed.
    pub rename_preview: Vec<(String, String)>,
}

/// Whether a file is shown when the user looks for `query`: always where
/// the query is blank, else where the file's name holds the query, both
/// taken in lower case.
pub open spec fn is_shown(file: MediaFileView, query: Seq<char>) -> bool {
    trimmed(query).len() == 0 || contains(lowercased(file.filename), lowercased(query))
}

/// The positions of the files that are shown for `query`, in order.
pub open spec fn shown_indices(files: Seq<MediaFileView>, query: Seq<char>) -> Seq<usize>
    decreases files.len(),
{
    if files.len() == 0 {
        Seq::empty()
    } else {
        let earlier = shown_indices(files.drop_last(), query);
        if is_shown(files.last(), query) {
            earlier.push((files.len() - 1) as usize)
        } else {
            earlier
        }
    }
}

/// Whether a file is ready to be renamed: it is selected and has a new
/// name.
pub open spec fn is_ready(file: MediaFileView) -> bool {
    file.is_selected && file.new_filename is Some
}

/// The positions of the files for which `wanted` holds, in order.
pub open spec fn indices_where(files: Seq<MediaFileView>, wanted: spec_fn(MediaFileView) -> bool)
    -> Seq<usize>
    decreases files.len(),
{
    if files.len() == 0 {
        Seq::empty()
    } else {
        let earlier = indices_where(files.drop_last(), wanted);
        if wanted(files.last()) {
            earlier.push((files.len() - 1) as usize)
        } else {
            earlier
        }
    }
}

impl AppState {
    /// The state of a program that has just started.
    pub fn new() -> (state: AppState)
        ensures
            state.files@.len() == 0,
            state.selected_file_index is None,
            state.search_query@.len() == 0,
            !state.loading,
            state.status@ == "Add files or folders to get started"@,
            state.search_results@.len() == 0,
            !state.search_loading,
            state.search_input@.len() == 0,
            state.tmdb_api_key@.len() == 0,
            state.using_default_key == (default_api_key().len() > 0),
            state.api_key_valid is None,
            !state.api_key_verifying,
            state.rename_pattern@ == RenamePatternView::default_preset(),
            state.output_directory is None,
            !state.show_rename_confirm,
            state.rename_preview@.len() == 0,
    {
        AppState {
            files: Vec::new(),
            selected_file_index: None,
            search_query: String::new(),
            loading: false,
            status: String::from_str("Add files or folders to get started"),
            search_results: Vec::new(),
            search_loading: false,
            search_input: String::new(),
            tmdb_api_key: String::new(),
            using_default_key: has_default_api_key(),
            api_key_valid: None,
            api_key_verifying: false,
            rename_pattern: RenamePattern::default(),
            output_directory: None,
            show_rename_confirm: false,
            rename_preview: Vec::new(),
        }
    }

    /// The credential in use: the built-in one or the user's.
    pub fn effective_api_key(&self) -> (key: String)
        ensures
            key@ == if self.using_default_key {
                default_api_key()
            } else {
                self.tmdb_api_key@
            },
    {
        if self.using_default_key {
            get_default_api_key()
        } else {
            self.tmdb_api_key.clone()
        }
    }

    /// The files that are shown for the user's query, each with its
    /// position.
    pub fn filtered_files(&self) -> (found: Vec<(usize, &MediaFile)>)
        ensures
            found@.map_values(|p: (usize, &MediaFile)| p.0) == shown_indices(
                media_files_view(self.files@),
                self.search_query@,
            ),
            forall|k: int|
                0 <= k < found.len() ==> (#[trigger] found[k]).0 < self.files.len() && *found[k].1
                    == self.files[found[k].0 as int],
    {
        let blank = trim(&to_chars(self.search_query.as_str())).len() == 0;
        let query = to_chars(to_lowercase(self.search_query.as_str()).as_str());
        let mut found: Vec<(usize, &MediaFile)> = Vec::new();
        let ghost views = media_files_view(self.files@);
        let mut i: usize = 0;
        assert(found@.map_values(|p: (usize, &MediaFile)| p.0) =~= Seq::empty());
        while i < self.files.len()
            invariant
                i <= self.files.len(),
                views == media_files_view(self.files@),
                blank == (trimmed(self.search_query@).len() == 0),
                query@ == lowercased(self.search_query@),
                found@.map_values(|p: (usize, &MediaFile)| p.0) == shown_indices(
                    views.take(i as int),
                    self.search_query@,
                ),
                forall|k: int|
                    0 <= k < found.len() ==> (#[trigger] found[k]).0 < self.files.len()
                        && *found[k].1 == self.files[found[k].0 as int],
            decreases self.files.len() - i,
        {
            assert(views.take(i + 1).drop_last() =~= views.take(i as int));
            let file = &self.files[i];
            let ghost before = found@.map_values(|p: (usize, &MediaFile)| p.0);
            if blank || has(&to_chars(to_lowercase(file.filename.as_str()).as_str()), &query) {
                found.push((i, file));
                assert(found@.map_values(|p: (usize, &MediaFile)| p.0) =~= before.push(i));
            }
            i += 1;
        }
        assert(views.take(self.files@.len() as int) =~= views);
        found
    }

    /// The file that the user has selected.
    pub fn selected_file(&self) -> (file: Option<&MediaFile>)
        ensures
            match file {
                Some(file) => self.selected_file_index matches Some(at) && at < self.files.len()
                    && *file == self.files[at as int],
                None => self.selected_file_index matches Some(at) ==> at >= self.files.len(),
            },
    {
        match self.selected_file_index {
            Some(at) => if at < self.files.len() {
                Some(&self.files[at])
            } else {
                None
            },
            None => None,
        }
    }

    /// This state with other files.
    pub open spec fn with_files(self, files: Vec<MediaFile>) -> AppState {
        AppState { files, ..self }
    }

    /// The file that the user has selected, to be changed in place: what
    /// is done to it is done to the list of files, and to nothing else.
    pub fn selected_file_mut(&mut self) -> (file: Option<&mut MediaFile>)
        ensures
            match file {
                Some(file) => {
                    &&& old(self).selected_file_index matches Some(at) && at < old(self).files.len()
                        && *file == old(self).files[at as int] && final(self).files@ == old(
                        self,
                    ).files@.update(at as int, *final(file))
                    &&& *final(self) == old(self).with_files(final(self).files)
                },
                None => {
                    &&& old(self).selected_file_index matches Some(at) ==> at >= old(
                        self,
                    ).files.len()
                    &&& *final(self) == *old(self)
                },
            },
    {
        match self.selected_file_index {
            Some(at) => if at < self.files.len() {
                Some(&mut self.files[at])
            } else {
                None
            },
            None => None,
        }
    }

    /// How many files have metadata.
    pub fn files_with_matches(&self) -> (count: usize)
        ensures
            count == indices_where(
                media_files_view(self.files@),
                |f: MediaFileView| f.matched_metadata is Some,
            ).len(),
    {
        let ghost views = media_files_view(self.files@);
        let ghost wanted = |f: MediaFileView| f.matched_metadata is Some;
        let mut count: usize = 0;
        let mut i: usize = 0;
        while i < self.files.len()
            invariant
                i <= self.files.len(),
                count <= i,
                views == media_files_view(self.files@),
                wanted == |f: MediaFileView| f.matched_metadata is Some,
                count == indices_where(views.take(i as int), wanted).len(),
            decreases self.files.len() - i,
        {
            assert(views.take(i + 1).drop_last() =~= views.take(i as int));
            if self.files[i].matched_metadata.is_some() {
                count += 1;
            }
            i += 1;
        }
        assert(views.take(self.files@.len() as int) =~= views);
        count
    }

    /// The files that are ready to be renamed, in order.
    pub fn files_ready_for_rename(&self) -> (ready: Vec<&MediaFile>)
        ensures
            ready@.map_values(|f: &MediaFile| *f) == indices_where(
                media_files_view(self.files@),
                |f: MediaFileView| is_ready(f),
            ).map_values(|at: usize| self.files[at as int]),
    {
        let ghost views = media_files_view(self.files@);
        let ghost wanted = |f: MediaFileView| is_ready(f);
        let ghost pick = |at: usize| self.files[at as int];
        let mut ready: Vec<&MediaFile> = Vec::new();
        let mut i: usize = 0;
        assert(ready@.map_values(|f: &MediaFile| *f) =~= Seq::<usize>::empty().map_values(pick));
        while i < self.files.len()
            invariant
                i <= self.files.len(),
                views == media_files_view(self.files@),
                wanted == |f: MediaFileView| is_ready(f),
                pick == |at: usize| self.files[at as int],
                ready@.map_values(|f: &MediaFile| *f) == indices_where(
                    views.take(i as int),
                    wanted,
                ).map_values(pick),
            decreases self.files.len() - i,
        {
            assert(views.take(i + 1).drop_last() =~= views.take(i as int));
            let file = &self.files[i];
            let ghost earlier = indices_where(views.take(i as int), wanted);
            let ghost before = ready@.map_values(|f: &MediaFile| *f);
            assert(views.take(i + 1).last() == file@);
            assert(wanted(file@) == is_ready(file@));
            if file.is_selected && file.new_filename.is_some() {
                ready.push(file);
                assert(ready@.map_values(|f: &MediaFile| *f) =~= before.push(*file));
                assert(earlier.push(i).map_values(pick) =~= earlier.map_values(pick).push(*file));
            }
            i += 1;
        }
        assert(views.take(self.files@.len() as int) =~= views);
        ready
    }
}

} // verus!
