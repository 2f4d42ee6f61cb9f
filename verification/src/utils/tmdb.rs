//! Matching files against the online media database.
//!
//! The library decides what to ask and what to make of each answer; its
//! caller sends the requests. [`BatchMatcher`] is the batch lookup as a
//! state machine: its stage names the request that is due, and
//! [`BatchMatcher::advance`] takes the answer.

use crate::model::{
    copy_text, copy_texts, text_of, texts_of, MediaFile, MediaFileView, MediaMetadata,
    MediaMetadataView, MediaType, Rating, SearchResult, SearchResultView,
};
use crate::text::{
    decimal, from_chars, lowercased, parse_u32, parsed_u32, to_chars, to_decimal, to_lowercase,
};
use crate::utils::batch_proofs::{file_indices, lemma_next, lemma_started};
use vstd::prelude::*;
use vstd::string::*;
use vstd::utf8::encode_utf8;

verus! {

/// One file of a batch lookup, as plain values.
pub struct BatchFileInfoView {
    pub index: usize,
    pub title: Seq<char>,
    pub year: Option<u32>,
    pub season: Option<u32>,
    pub episode: Option<u32>,
    pub media_type: MediaType,
}

/// One file of a batch lookup. `index` is the caller's key for the file.
#[derive(Debug)]
pub struct BatchFileInfo {
    pub index: usize,
    pub title: String,
    pub year: Option<u32>,
    pub season: Option<u32>,
    pub episode: Option<u32>,
    pub media_type: MediaType,
}

impl View for BatchFileInfo {
    type V = BatchFileInfoView;

    open spec fn view(&self) -> BatchFileInfoView {
        BatchFileInfoView {
            index: self.index,
            title: self.title@,
            year: self.year,
            season: self.season,
            episode: self.episode,
            media_type: self.media_type,
        }
    }
}

impl Clone for BatchFileInfo {
    fn clone(&self) -> (copy: BatchFileInfo)
        ensures
            copy@ == self@,
    {
        BatchFileInfo {
            index: self.index,
            title: self.title.clone(),
            year: self.year,
            season: self.season,
            episode: self.episode,
            media_type: self.media_type,
        }
    }
}

/// What to look up for the file at position `index`: the title, year,
/// season and episode that its name gave. An episode whose name gave no
/// title is looked up by the name of its folder, where it has one.
pub open spec fn request_for(index: usize, file: MediaFileView, folder: Option<Seq<char>>)
    -> BatchFileInfoView {
    let parsed_title = match file.parsed_info {
        Some(parsed) => parsed.title,
        None => Seq::empty(),
    };
    BatchFileInfoView {
        index,
        title: match folder {
            Some(folder) if parsed_title.len() == 0 && file.media_type == MediaType::TvShow =>
                folder,
            _ => parsed_title,
        },
        year: match file.parsed_info {
            Some(parsed) => parsed.year,
            None => None,
        },
        season: match file.parsed_info {
            Some(parsed) => parsed.season,
            None => None,
        },
        episode: match file.parsed_info {
            Some(parsed) => parsed.episode,
            None => None,
        },
        media_type: file.media_type,
    }
}

/// Makes the lookup request for the file at position `index`. `folder` is
/// the name of the folder that holds the file.
pub fn lookup_request(index: usize, file: &MediaFile, folder: Option<&str>) -> (request:
    BatchFileInfo)
    ensures
        request@ == request_for(
            index,
            file@,
            match folder {
                Some(folder) => Some(folder@),
                None => None,
            },
        ),
{
    let mut title = match &file.parsed_info {
        Some(parsed) => parsed.title.clone(),
        None => String::new(),
    };
    if title.as_str().is_empty() && file.media_type == MediaType::TvShow {
        match folder {
            Some(folder) => {
                title = folder.to_owned();
            },
            None => {},
        }
    }
    BatchFileInfo {
        index,
        title,
        year: match &file.parsed_info {
            Some(parsed) => parsed.year,
            None => None,
        },
        season: match &file.parsed_info {
            Some(parsed) => parsed.season,
            None => None,
        },
        episode: match &file.parsed_info {
            Some(parsed) => parsed.episode,
            None => None,
        },
        media_type: file.media_type,
    }
}

/// The views of a list of files.
pub open spec fn files_view(files: Seq<BatchFileInfo>) -> Seq<BatchFileInfoView> {
    files.map_values(|f: BatchFileInfo| f@)
}

/// What the database says about one episode, as plain values.
pub struct EpisodeDetailsView {
    pub name: Seq<char>,
    pub overview: Option<Seq<char>>,
    pub still_path: Option<Seq<char>>,
    pub air_date: Option<Seq<char>>,
    pub vote_average: Option<Rating>,
}

/// What the database says about one episode.
#[derive(Debug)]
pub struct EpisodeDetails {
    pub name: String,
    pub overview: Option<String>,
    pub still_path: Option<String>,
    pub air_date: Option<String>,
    pub vote_average: Option<Rating>,
}

impl View for EpisodeDetails {
    type V = EpisodeDetailsView;

    open spec fn view(&self) -> EpisodeDetailsView {
        EpisodeDetailsView {
            name: self.name@,
            overview: text_of(self.overview),
            still_path: text_of(self.still_path),
            air_date: text_of(self.air_date),
            vote_average: self.vote_average,
        }
    }
}

/// The metadata of an episode: what the database says about the episode
/// where it says something, and about the show for the rest.
pub open spec fn merged_episode(
    show: MediaMetadataView,
    tmdb_id: u64,
    season: u32,
    episode: u32,
    details: EpisodeDetailsView,
) -> MediaMetadataView {
    MediaMetadataView {
        tmdb_id,
        title: show.title,
        original_title: show.original_title,
        year: show.year,
        overview: details.overview,
        poster_path: if details.still_path is Some {
            details.still_path
        } else {
            show.poster_path
        },
        backdrop_path: show.backdrop_path,
        vote_average: if details.vote_average is Some {
            details.vote_average
        } else {
            show.vote_average
        },
        genres: show.genres,
        season_number: Some(season),
        episode_number: Some(episode),
        episode_title: Some(details.name),
        air_date: details.air_date,
        show_name: show.show_name,
    }
}

/// The metadata of a show with the numbers of one of its episodes.
pub open spec fn numbered_show(show: MediaMetadataView, season: u32, episode: u32)
    -> MediaMetadataView {
    MediaMetadataView { season_number: Some(season), episode_number: Some(episode), ..show }
}

/// Joins what the database says about an episode with what it says about
/// the show.
pub fn merge_episode(
    show: &MediaMetadata,
    tmdb_id: u64,
    season: u32,
    episode: u32,
    details: &EpisodeDetails,
) -> (metadata: MediaMetadata)
    ensures
        metadata@ == merged_episode(show@, tmdb_id, season, episode, details@),
{
    let shown = show.clone();
    MediaMetadata {
        tmdb_id,
        title: shown.title,
        original_title: shown.original_title,
        year: shown.year,
        overview: copy_text(&details.overview),
        poster_path: if details.still_path.is_some() {
            copy_text(&details.still_path)
        } else {
            shown.poster_path
        },
        backdrop_path: shown.backdrop_path,
        vote_average: if details.vote_average.is_some() {
            details.vote_average
        } else {
            shown.vote_average
        },
        genres: shown.genres,
        season_number: Some(season),
        episode_number: Some(episode),
        episode_title: Some(details.name.clone()),
        air_date: copy_text(&details.air_date),
        show_name: shown.show_name,
    }
}

/// Puts the numbers of an episode on the metadata of its show.
pub fn number_show(show: &MediaMetadata, season: u32, episode: u32) -> (metadata: MediaMetadata)
    ensures
        metadata@ == numbered_show(show@, season, episode),
{
    let mut metadata = show.clone();
    metadata.season_number = Some(season);
    metadata.episode_number = Some(episode);
    metadata
}

/// How many episodes are asked for at once.
pub const BATCH_SIZE: usize = 5;

/// How long to wait after a movie and after a batch of episodes, in
/// milliseconds.
pub const PAUSE_MILLIS: u64 = 100;

/// The error for a lookup without a credential.
pub open spec fn no_key_text() -> Seq<char> {
    "TMDB API key not set"@
}

/// The error for a file without a title.
pub open spec fn no_title_text() -> Seq<char> {
    "No title parsed"@
}

/// The error for a search that found nothing.
pub open spec fn no_results_text() -> Seq<char> {
    "No results found"@
}

/// The result for one file, as plain values: the file's index, then the
/// metadata or the reason why there is none.
pub type OutcomeView = (usize, Result<MediaMetadataView, Seq<char>>);

/// The result for one file.
pub type Outcome = (usize, Result<MediaMetadata, String>);

/// The view of a result.
pub open spec fn outcome_view(outcome: Outcome) -> OutcomeView {
    (
        outcome.0,
        match outcome.1 {
            Ok(metadata) => Ok(metadata@),
            Err(reason) => Err(reason@),
        },
    )
}

/// The views of a list of results.
pub open spec fn outcomes_view(outcomes: Seq<Outcome>) -> Seq<OutcomeView> {
    outcomes.map_values(|o: Outcome| outcome_view(o))
}

/// The episodes of one show, as plain values.
pub struct ShowGroupView {
    pub key: Seq<char>,
    pub episodes: Seq<BatchFileInfoView>,
}

/// The episodes of one show: the files whose titles are equal in lower
/// case. `key` is that lower-case title.
#[derive(Debug)]
pub struct ShowGroup {
    pub key: String,
    pub episodes: Vec<BatchFileInfo>,
}

impl View for ShowGroup {
    type V = ShowGroupView;

    open spec fn view(&self) -> ShowGroupView {
        ShowGroupView { key: self.key@, episodes: files_view(self.episodes@) }
    }
}

/// The views of a list of groups.
pub open spec fn groups_view(groups: Seq<ShowGroup>) -> Seq<ShowGroupView> {
    groups.map_values(|g: ShowGroup| g@)
}

/// Where a batch lookup stands: each stage but the last waits for one
/// answer.
#[derive(Debug, Clone, Copy, PartialEq, Eq, Structural)]
pub enum Stage {
    /// The search for the movie under the cursor is due.
    SearchMovie,
    /// The details of the movie that the search found are due.
    MovieDetails,
    /// The wait after a movie is due.
    MoviePause,
    /// The search for the show under the cursor is due.
    SearchShow,
    /// The details of the show that the search found are due.
    ShowDetails,
    /// The next batch of episodes of the show under the cursor is due.
    Episodes,
    /// The wait after a batch of episodes is due.
    EpisodePause,
    /// Every file has its result.
    Done,
}

/// What the caller is to do next.
#[derive(Debug)]
pub enum Request {
    SearchMovies { title: String, year: Option<u32> },
    MovieDetails { id: u64 },
    SearchTv { title: String, year: Option<u32> },
    TvDetails { id: u64 },
    /// Ask for these episodes of show `id` at the same time; `None` stands
    /// for a file whose season or episode is unknown, for which nothing is
    /// asked.
    Episodes { id: u64, wanted: Vec<Option<(u32, u32)>> },
    Pause { millis: u64 },
    Finished,
}

/// What the caller is to do next, as plain values.
pub enum RequestView {
    SearchMovies { title: Seq<char>, year: Option<u32> },
    MovieDetails { id: u64 },
    SearchTv { title: Seq<char>, year: Option<u32> },
    TvDetails { id: u64 },
    Episodes { id: u64, wanted: Seq<Option<(u32, u32)>> },
    Pause { millis: u64 },
    Finished,
}

impl View for Request {
    type V = RequestView;

    open spec fn view(&self) -> RequestView {
        match *self {
            Request::SearchMovies { title, year } => RequestView::SearchMovies {
                title: title@,
                year,
            },
            Request::MovieDetails { id } => RequestView::MovieDetails { id },
            Request::SearchTv { title, year } => RequestView::SearchTv { title: title@, year },
            Request::TvDetails { id } => RequestView::TvDetails { id },
            Request::Episodes { id, wanted } => RequestView::Episodes { id, wanted: wanted@ },
            Request::Pause { millis } => RequestView::Pause { millis },
            Request::Finished => RequestView::Finished,
        }
    }
}

/// The answer to a request.
#[derive(Debug)]
pub enum Reply {
    /// The answer to a search: the entries found, best first.
    Found(Result<Vec<SearchResult>, String>),
    /// The answer to a request for details.
    Details(Result<MediaMetadata, String>),
    /// The answer to a request for episodes, one entry for each entry of
    /// the request: `None` where nothing was asked, the episode is not
    /// there or the request failed.
    Episodes(Vec<Option<EpisodeDetails>>),
    /// The wait is over.
    Paused,
}

/// The answer to a request, as plain values.
pub enum ReplyView {
    Found(Result<Seq<SearchResultView>, Seq<char>>),
    Details(Result<MediaMetadataView, Seq<char>>),
    Episodes(Seq<Option<EpisodeDetailsView>>),
    Paused,
}

/// The view of an optional episode.
pub open spec fn episode_view(details: Option<EpisodeDetails>) -> Option<EpisodeDetailsView> {
    match details {
        Some(d) => Some(d@),
        None => None,
    }
}

impl View for Reply {
    type V = ReplyView;

    open spec fn view(&self) -> ReplyView {
        match *self {
            Reply::Found(Ok(list)) => ReplyView::Found(
                Ok(list@.map_values(|r: SearchResult| r@)),
            ),
            Reply::Found(Err(reason)) => ReplyView::Found(Err(reason@)),
            Reply::Details(Ok(metadata)) => ReplyView::Details(Ok(metadata@)),
            Reply::Details(Err(reason)) => ReplyView::Details(Err(reason@)),
            Reply::Episodes(list) => ReplyView::Episodes(
                list@.map_values(|d: Option<EpisodeDetails>| episode_view(d)),
            ),
            Reply::Paused => ReplyView::Paused,
        }
    }
}

/// A batch lookup, as plain values.
pub struct BatchMatcherView {
    pub results: Seq<OutcomeView>,
    pub movies: Seq<BatchFileInfoView>,
    pub shows: Seq<ShowGroupView>,
    pub stage: Stage,
    pub movie_at: usize,
    pub show_at: usize,
    pub episode_at: usize,
    pub target: u64,
    pub show: MediaMetadataView,
}

/// A batch lookup under way.
///
/// `results` holds the results so far. `movies` are the files that are
/// looked up one by one and `shows` the groups of episodes, both in the
/// order in which they are worked off; `movie_at`, `show_at` and
/// `episode_at` point at the first file that has no result yet. `target`
/// is the database's key for the movie or show under the cursor and `show`
/// the show's metadata, once they are known.
#[derive(Debug)]
pub struct BatchMatcher {
    pub results: Vec<Outcome>,
    pub movies: Vec<BatchFileInfo>,
    pub shows: Vec<ShowGroup>,
    pub stage: Stage,
    pub movie_at: usize,
    pub show_at: usize,
    pub episode_at: usize,
    pub target: u64,
    pub show: MediaMetadata,
}

impl View for BatchMatcher {
    type V = BatchMatcherView;

    open spec fn view(&self) -> BatchMatcherView {
        BatchMatcherView {
            results: outcomes_view(self.results@),
            movies: files_view(self.movies@),
            shows: groups_view(self.shows@),
            stage: self.stage,
            movie_at: self.movie_at,
            show_at: self.show_at,
            episode_at: self.episode_at,
            target: self.target,
            show: self.show@,
        }
    }
}

/// The same failure for each of `files`.
pub open spec fn failures(files: Seq<BatchFileInfoView>, reason: Seq<char>) -> Seq<OutcomeView> {
    files.map_values(|f: BatchFileInfoView| (f.index, Err::<MediaMetadataView, Seq<char>>(reason)))
}

/// What is asked about an episode: its season and number, where the file
/// has both.
pub open spec fn wanted_of(file: BatchFileInfoView) -> Option<(u32, u32)> {
    match (file.season, file.episode) {
        (Some(season), Some(episode)) => Some((season, episode)),
        _ => None,
    }
}

/// The result for an episode of a show whose metadata is `show`, given
/// what the database said about the episode. Without an answer the result
/// is the show's metadata, with the file's season and episode where it has
/// both.
pub open spec fn episode_outcome(
    show: MediaMetadataView,
    tmdb_id: u64,
    file: BatchFileInfoView,
    details: Option<EpisodeDetailsView>,
) -> OutcomeView {
    (
        file.index,
        Ok(
            match wanted_of(file) {
                Some((season, episode)) => match details {
                    Some(d) => merged_episode(show, tmdb_id, season, episode, d),
                    None => numbered_show(show, season, episode),
                },
                None => show,
            },
        ),
    )
}

/// The index of the first group with `key`, looking from `from` on.
pub open spec fn group_with(shows: Seq<ShowGroupView>, key: Seq<char>, from: int) -> Option<int>
    decreases shows.len() - from,
{
    if from < 0 || from >= shows.len() {
        None
    } else if shows[from].key == key {
        Some(from)
    } else {
        group_with(shows, key, from + 1)
    }
}

/// `shows` with `file` added to the group of its title, which is a new
/// last group where no group has that title yet.
pub open spec fn joined(shows: Seq<ShowGroupView>, file: BatchFileInfoView) -> Seq<ShowGroupView> {
    let key = lowercased(file.title);
    match group_with(shows, key, 0) {
        Some(g) => shows.update(
            g,
            ShowGroupView { key: shows[g].key, episodes: shows[g].episodes.push(file) },
        ),
        None => shows.push(ShowGroupView { key, episodes: seq![file] }),
    }
}

impl BatchMatcherView {
    /// A lookup of nothing.
    pub open spec fn blank() -> BatchMatcherView {
        BatchMatcherView {
            results: Seq::empty(),
            movies: Seq::empty(),
            shows: Seq::empty(),
            stage: Stage::Done,
            movie_at: 0,
            show_at: 0,
            episode_at: 0,
            target: 0,
            show: MediaMetadataView::empty(),
        }
    }

    /// This lookup with `file` sorted in: a file without a title fails at
    /// once, an episode joins its show, any other file is a movie.
    pub open spec fn with_file(self, file: BatchFileInfoView) -> BatchMatcherView {
        if file.title.len() == 0 {
            BatchMatcherView {
                results: self.results.push((file.index, Err(no_title_text()))),
                ..self
            }
        } else if file.media_type == MediaType::TvShow {
            BatchMatcherView { shows: joined(self.shows, file), ..self }
        } else {
            BatchMatcherView { movies: self.movies.push(file), ..self }
        }
    }

    /// The lookup of `files`, sorted in one after the other.
    pub open spec fn sorted(files: Seq<BatchFileInfoView>) -> BatchMatcherView
        decreases files.len(),
    {
        if files.len() == 0 {
            BatchMatcherView::blank()
        } else {
            BatchMatcherView::sorted(files.drop_last()).with_file(files.last())
        }
    }

    /// This lookup at the stage that its cursors call for: movies first,
    /// then shows.
    pub open spec fn resumed(self) -> BatchMatcherView {
        BatchMatcherView {
            stage: if self.movie_at < self.movies.len() {
                Stage::SearchMovie
            } else if self.show_at < self.shows.len() {
                Stage::SearchShow
            } else {
                Stage::Done
            },
            ..self
        }
    }

    /// The lookup of `files` before its first request. Without a
    /// credential every file fails and nothing is asked.
    pub open spec fn started(api_key: Seq<char>, files: Seq<BatchFileInfoView>)
        -> BatchMatcherView {
        if api_key.len() == 0 {
            BatchMatcherView { results: failures(files, no_key_text()), ..Self::blank() }
        } else {
            Self::sorted(files).resumed()
        }
    }

    /// The episodes of the show under the cursor.
    pub open spec fn group(self) -> Seq<BatchFileInfoView> {
        self.shows[self.show_at as int].episodes
    }

    /// How many episodes the batch that is due holds.
    pub open spec fn batch_len(self) -> int {
        if self.group().len() - self.episode_at < BATCH_SIZE {
            self.group().len() - self.episode_at
        } else {
            BATCH_SIZE as int
        }
    }

    /// The episodes of the batch that is due.
    pub open spec fn batch(self) -> Seq<BatchFileInfoView> {
        self.group().subrange(self.episode_at as int, self.episode_at + self.batch_len())
    }

    /// The request that is due.
    pub open spec fn request(self) -> RequestView {
        match self.stage {
            Stage::SearchMovie if self.movie_at < self.movies.len() => RequestView::SearchMovies {
                title: self.movies[self.movie_at as int].title,
                year: self.movies[self.movie_at as int].year,
            },
            Stage::MovieDetails => RequestView::MovieDetails { id: self.target },
            Stage::SearchShow if self.show_at < self.shows.len() && self.group().len() > 0 =>
                RequestView::SearchTv { title: self.group()[0].title, year: self.group()[0].year },
            Stage::ShowDetails => RequestView::TvDetails { id: self.target },
            Stage::Episodes if self.show_at < self.shows.len() && self.episode_at
                < self.group().len() => RequestView::Episodes {
                id: self.target,
                wanted: self.batch().map_values(|f: BatchFileInfoView| wanted_of(f)),
            },
            Stage::MoviePause | Stage::EpisodePause => RequestView::Pause { millis: PAUSE_MILLIS },
            _ => RequestView::Finished,
        }
    }

    /// Whether `reply` answers the request that is due.
    pub open spec fn accepts(self, reply: ReplyView) -> bool {
        match self.stage {
            Stage::SearchMovie => reply is Found && self.movie_at < self.movies.len(),
            Stage::MovieDetails => reply is Details && self.movie_at < self.movies.len(),
            Stage::MoviePause => reply is Paused,
            Stage::SearchShow => reply is Found && self.show_at < self.shows.len(),
            Stage::ShowDetails => reply is Details && self.show_at < self.shows.len(),
            Stage::Episodes => {
                &&& self.show_at < self.shows.len()
                &&& self.episode_at < self.group().len()
                &&& reply matches ReplyView::Episodes(list) && list.len() == self.batch_len()
            },
            Stage::EpisodePause => reply is Paused && self.show_at < self.shows.len(),
            Stage::Done => false,
        }
    }

    /// This lookup once the movie under the cursor has its result.
    pub open spec fn movie_done(self, found: Result<MediaMetadataView, Seq<char>>)
        -> BatchMatcherView {
        BatchMatcherView {
            results: self.results.push((self.movies[self.movie_at as int].index, found)),
            movie_at: (self.movie_at + 1) as usize,
            stage: Stage::MoviePause,
            ..self
        }
    }

    /// This lookup once the show under the cursor is left behind.
    pub open spec fn show_done(self) -> BatchMatcherView {
        BatchMatcherView { show_at: (self.show_at + 1) as usize, episode_at: 0, ..self }.resumed()
    }

    /// This lookup once the show under the cursor has failed: each of its
    /// episodes fails for the same reason.
    pub open spec fn show_failed(self, reason: Seq<char>) -> BatchMatcherView {
        BatchMatcherView {
            results: self.results + failures(self.group(), reason),
            ..self
        }.show_done()
    }

    /// The results of the batch that is due, given the answers for it.
    pub open spec fn batch_outcomes(self, list: Seq<Option<EpisodeDetailsView>>) -> Seq<
        OutcomeView,
    > {
        Seq::new(
            self.batch_len() as nat,
            |k: int| episode_outcome(self.show, self.target, self.batch()[k], list[k]),
        )
    }

    /// This lookup after `reply`, which it accepts.
    pub open spec fn next(self, reply: ReplyView) -> BatchMatcherView {
        match (self.stage, reply) {
            (Stage::SearchMovie, ReplyView::Found(Ok(list))) => if list.len() > 0 {
                BatchMatcherView { stage: Stage::MovieDetails, target: list[0].tmdb_id, ..self }
            } else {
                self.movie_done(Err(no_results_text()))
            },
            (Stage::SearchMovie, ReplyView::Found(Err(reason))) => self.movie_done(Err(reason)),
            (Stage::MovieDetails, ReplyView::Details(found)) => self.movie_done(found),
            (Stage::MoviePause, ReplyView::Paused) => self.resumed(),
            (Stage::SearchShow, ReplyView::Found(Ok(list))) => if list.len() > 0 {
                BatchMatcherView { stage: Stage::ShowDetails, target: list[0].tmdb_id, ..self }
            } else {
                self.show_failed(no_results_text())
            },
            (Stage::SearchShow, ReplyView::Found(Err(reason))) => self.show_failed(reason),
            (Stage::ShowDetails, ReplyView::Details(Ok(show))) => BatchMatcherView {
                stage: Stage::Episodes,
                episode_at: 0,
                show,
                ..self
            },
            (Stage::ShowDetails, ReplyView::Details(Err(reason))) => self.show_failed(reason),
            (Stage::Episodes, ReplyView::Episodes(list)) => BatchMatcherView {
                results: self.results + self.batch_outcomes(list),
                episode_at: (self.episode_at + self.batch_len()) as usize,
                stage: Stage::EpisodePause,
                ..self
            },
            (Stage::EpisodePause, ReplyView::Paused) => if self.episode_at < self.group().len() {
                BatchMatcherView { stage: Stage::Episodes, ..self }
            } else {
                self.show_done()
            },
            _ => self,
        }
    }
}

/// The view of a lookup's answer for one file.
pub open spec fn found_view(found: Result<MediaMetadata, String>) -> Result<
    MediaMetadataView,
    Seq<char>,
> {
    match found {
        Ok(metadata) => Ok(metadata@),
        Err(reason) => Err(reason@),
    }
}

/// Adds the same failure for each of `files` to `results`.
fn push_failures(results: &mut Vec<Outcome>, files: &Vec<BatchFileInfo>, reason: &str)
    ensures
        outcomes_view(final(results)@) == outcomes_view(old(results)@) + failures(
            files_view(files@),
            reason@,
        ),
{
    let mut k: usize = 0;
    while k < files.len()
        invariant
            k <= files.len(),
            outcomes_view(results@) == outcomes_view(old(results)@) + failures(
                files_view(files@).take(k as int),
                reason@,
            ),
        decreases files.len() - k,
    {
        let ghost before = results@;
        results.push((files[k].index, Err(String::from_str(reason))));
        assert(outcomes_view(results@) =~= outcomes_view(before).push(
            (files@[k as int].index, Err(reason@)),
        ));
        assert(failures(files_view(files@).take(k + 1), reason@) =~= failures(
            files_view(files@).take(k as int),
            reason@,
        ).push((files@[k as int].index, Err(reason@))));
        k += 1;
    }
    assert(files_view(files@).take(files@.len() as int) =~= files_view(files@));
}

/// Adds the results of one batch of episodes to `results`.
fn push_batch(
    results: &mut Vec<Outcome>,
    show: &MediaMetadata,
    target: u64,
    group: &Vec<BatchFileInfo>,
    from: usize,
    count: usize,
    list: &Vec<Option<EpisodeDetails>>,
)
    requires
        from + count <= group.len(),
        list.len() == count,
    ensures
        outcomes_view(final(results)@) == outcomes_view(old(results)@) + Seq::new(
            count as nat,
            |k: int|
                episode_outcome(
                    show@,
                    target,
                    files_view(group@)[from + k],
                    episode_view(list@[k]),
                ),
        ),
{
    let mut k: usize = 0;
    while k < count
        invariant
            k <= count,
            from + count <= group.len(),
            list.len() == count,
            outcomes_view(results@) == outcomes_view(old(results)@) + Seq::new(
                k as nat,
                |j: int|
                    episode_outcome(
                        show@,
                        target,
                        files_view(group@)[from + j],
                        episode_view(list@[j]),
                    ),
            ),
        decreases count - k,
    {
        let file = &group[from + k];
        let metadata = match (file.season, file.episode) {
            (Some(season), Some(episode)) => match &list[k] {
                Some(details) => merge_episode(show, target, season, episode, details),
                None => number_show(show, season, episode),
            },
            _ => show.clone(),
        };
        let ghost before = results@;
        let ghost outcome = episode_outcome(
            show@,
            target,
            files_view(group@)[from + k],
            episode_view(list@[k as int]),
        );
        results.push((file.index, Ok(metadata)));
        assert(outcomes_view(results@) =~= outcomes_view(before).push(outcome));
        assert(Seq::new(
            (k + 1) as nat,
            |j: int|
                episode_outcome(
                    show@,
                    target,
                    files_view(group@)[from + j],
                    episode_view(list@[j]),
                ),
        ) =~= Seq::new(
            k as nat,
            |j: int|
                episode_outcome(
                    show@,
                    target,
                    files_view(group@)[from + j],
                    episode_view(list@[j]),
                ),
        ).push(outcome));
        k += 1;
    }
}

impl BatchMatcher {
    /// Sets the stage that the cursors call for.
    fn resume(&mut self)
        ensures
            final(self)@ == old(self)@.resumed(),
    {
        self.stage = if self.movie_at < self.movies.len() {
            Stage::SearchMovie
        } else if self.show_at < self.shows.len() {
            Stage::SearchShow
        } else {
            Stage::Done
        };
    }

    /// Records the result of the movie under the cursor.
    fn finish_movie(&mut self, found: Result<MediaMetadata, String>)
        requires
            old(self).movie_at < old(self).movies.len(),
        ensures
            final(self)@ == old(self)@.movie_done(found_view(found)),
    {
        let index = self.movies[self.movie_at].index;
        self.results.push((index, found));
        self.movie_at = self.movie_at + 1;
        self.stage = Stage::MoviePause;
        assert(self@.results =~= old(self)@.results.push((index, found_view(found))));
    }

    /// Leaves the show under the cursor behind.
    fn leave_show(&mut self)
        requires
            old(self).show_at < old(self).shows.len(),
        ensures
            final(self)@ == old(self)@.show_done(),
    {
        self.show_at = self.show_at + 1;
        self.episode_at = 0;
        self.resume();
    }

    /// Fails every episode of the show under the cursor.
    fn fail_show(&mut self, reason: &str)
        requires
            old(self).show_at < old(self).shows.len(),
        ensures
            final(self)@ == old(self)@.show_failed(reason@),
    {
        push_failures(&mut self.results, &self.shows[self.show_at].episodes, reason);
        self.leave_show();
    }

    /// The request that is due.
    pub fn request(&self) -> (request: Request)
        ensures
            request@ == self@.request(),
    {
        match self.stage {
            Stage::SearchMovie => {
                if self.movie_at < self.movies.len() {
                    let movie = &self.movies[self.movie_at];
                    Request::SearchMovies { title: movie.title.clone(), year: movie.year }
                } else {
                    Request::Finished
                }
            },
            Stage::MovieDetails => Request::MovieDetails { id: self.target },
            Stage::SearchShow => {
                if self.show_at < self.shows.len() && self.shows[self.show_at].episodes.len() > 0 {
                    let first = &self.shows[self.show_at].episodes[0];
                    Request::SearchTv { title: first.title.clone(), year: first.year }
                } else {
                    Request::Finished
                }
            },
            Stage::ShowDetails => Request::TvDetails { id: self.target },
            Stage::Episodes => {
                if self.show_at >= self.shows.len() {
                    return Request::Finished;
                }
                let group = &self.shows[self.show_at].episodes;
                if self.episode_at >= group.len() {
                    return Request::Finished;
                }
                let count = if group.len() - self.episode_at < BATCH_SIZE {
                    group.len() - self.episode_at
                } else {
                    BATCH_SIZE
                };
                let mut wanted: Vec<Option<(u32, u32)>> = Vec::new();
                let mut k: usize = 0;
                while k < count
                    invariant
                        k <= count,
                        self.episode_at + count <= group.len(),
                        wanted.len() == k,
                        forall|j: int|
                            0 <= j < k ==> wanted@[j] == wanted_of(
                                files_view(group@)[self.episode_at + j],
                            ),
                    decreases count - k,
                {
                    let file = &group[self.episode_at + k];
                    wanted.push(
                        match (file.season, file.episode) {
                            (Some(season), Some(episode)) => Some((season, episode)),
                            _ => None,
                        },
                    );
                    k += 1;
                }
                assert(wanted@ =~= self@.batch().map_values(|f: BatchFileInfoView| wanted_of(f)));
                Request::Episodes { id: self.target, wanted }
            },
            Stage::MoviePause | Stage::EpisodePause => Request::Pause { millis: PAUSE_MILLIS },
            Stage::Done => Request::Finished,
        }
    }

    /// Sorts `file` in: a file without a title fails at once, an episode
    /// joins its show, any other file is a movie.
    fn add_file(&mut self, file: BatchFileInfo)
        ensures
            final(self)@ == old(self)@.with_file(file@),
    {
        if file.title.as_str().is_empty() {
            self.results.push((file.index, Err(String::from_str("No title parsed"))));
            assert(self@.results =~= old(self)@.results.push((file.index, Err(no_title_text()))));
        } else if file.media_type == MediaType::TvShow {
            let key = to_lowercase(file.title.as_str());
            let mut g: usize = 0;
            while g < self.shows.len() && !(self.shows[g].key == key)
                invariant
                    g <= self.shows.len(),
                    *self == *old(self),
                    group_with(self@.shows, key@, 0) == group_with(self@.shows, key@, g as int),
                decreases self.shows.len() - g,
            {
                g += 1;
            }
            if g < self.shows.len() {
                assert(group_with(old(self)@.shows, key@, g as int) == Some(g as int));
                self.shows[g].episodes.push(file);
                assert(self.shows@[g as int]@.episodes =~= old(self)@.shows[g as int].episodes.push(
                    file@,
                ));
                assert(self@.shows =~= joined(old(self)@.shows, file@));
            } else {
                let mut episodes: Vec<BatchFileInfo> = Vec::new();
                episodes.push(file);
                let group = ShowGroup { key, episodes };
                assert(group@.episodes =~= seq![file@]);
                self.shows.push(group);
                assert(self@.shows =~= joined(old(self)@.shows, file@));
            }
        } else {
            self.movies.push(file);
            assert(self@.movies =~= old(self)@.movies.push(file@));
        }
    }

    /// Whether every file has its result.
    pub fn is_finished(&self) -> (done: bool)
        ensures
            done == (self@.stage == Stage::Done),
    {
        self.stage == Stage::Done
    }

    /// Takes the answer to the request that was due. An answer of another
    /// kind, or one that holds the wrong number of episodes, is not
    /// accepted and changes nothing.
    pub fn advance(&mut self, reply: Reply) -> (accepted: bool)
        ensures
            accepted == old(self)@.accepts(reply@),
            final(self)@ == if accepted {
                old(self)@.next(reply@)
            } else {
                old(self)@
            },
            old(self)@.well_formed() ==> final(self)@.well_formed(),
            old(self)@.well_formed() ==> final(self)@.accounted() == old(self)@.accounted(),
            old(self)@.well_formed() && accepted ==> 0 <= final(self)@.work() < old(self)@.work(),
    {
        proof {
            if old(self)@.well_formed() && old(self)@.accepts(reply@) {
                lemma_next(old(self)@, reply@);
            }
        }
        match self.stage {
            Stage::SearchMovie => {
                if self.movie_at >= self.movies.len() {
                    return false;
                }
                match reply {
                    Reply::Found(Ok(list)) => {
                        if list.len() > 0 {
                            self.target = list[0].tmdb_id;
                            self.stage = Stage::MovieDetails;
                        } else {
                            self.finish_movie(Err(String::from_str("No results found")));
                        }
                        true
                    },
                    Reply::Found(Err(reason)) => {
                        self.finish_movie(Err(reason));
                        true
                    },
                    _ => false,
                }
            },
            Stage::MovieDetails => {
                if self.movie_at >= self.movies.len() {
                    return false;
                }
                match reply {
                    Reply::Details(found) => {
                        self.finish_movie(found);
                        true
                    },
                    _ => false,
                }
            },
            Stage::MoviePause => match reply {
                Reply::Paused => {
                    self.resume();
                    true
                },
                _ => false,
            },
            Stage::SearchShow => {
                if self.show_at >= self.shows.len() {
                    return false;
                }
                match reply {
                    Reply::Found(Ok(list)) => {
                        if list.len() > 0 {
                            self.target = list[0].tmdb_id;
                            self.stage = Stage::ShowDetails;
                        } else {
                            self.fail_show("No results found");
                        }
                        true
                    },
                    Reply::Found(Err(reason)) => {
                        self.fail_show(reason.as_str());
                        true
                    },
                    _ => false,
                }
            },
            Stage::ShowDetails => {
                if self.show_at >= self.shows.len() {
                    return false;
                }
                match reply {
                    Reply::Details(Ok(show)) => {
                        self.show = show;
                        self.episode_at = 0;
                        self.stage = Stage::Episodes;
                        true
                    },
                    Reply::Details(Err(reason)) => {
                        self.fail_show(reason.as_str());
                        true
                    },
                    _ => false,
                }
            },
            Stage::Episodes => {
                if self.show_at >= self.shows.len() {
                    return false;
                }
                let total = self.shows[self.show_at].episodes.len();
                if self.episode_at >= total {
                    return false;
                }
                let count = if total - self.episode_at < BATCH_SIZE {
                    total - self.episode_at
                } else {
                    BATCH_SIZE
                };
                match reply {
                    Reply::Episodes(list) => {
                        if list.len() != count {
                            return false;
                        }
                        push_batch(
                            &mut self.results,
                            &self.show,
                            self.target,
                            &self.shows[self.show_at].episodes,
                            self.episode_at,
                            count,
                            &list,
                        );
                        assert(self@.results =~= old(self)@.results + old(self)@.batch_outcomes(
                            reply@->Episodes_0,
                        ));
                        self.episode_at = self.episode_at + count;
                        self.stage = Stage::EpisodePause;
                        true
                    },
                    _ => false,
                }
            },
            Stage::EpisodePause => {
                if self.show_at >= self.shows.len() {
                    return false;
                }
                match reply {
                    Reply::Paused => {
                        if self.episode_at < self.shows[self.show_at].episodes.len() {
                            self.stage = Stage::Episodes;
                        } else {
                            self.leave_show();
                        }
                        true
                    },
                    _ => false,
                }
            },
            Stage::Done => false,
        }
    }
}

/// Begins the lookup of `files` with the credential `api_key`.
///
/// Without a credential every file fails at once. Otherwise files without
/// a title fail at once, movies and files of unknown kind are looked up
/// one by one, and episodes are grouped by their title in lower case, so
/// that each show is searched for once.
pub fn batch_match_files(api_key: &str, files: Vec<BatchFileInfo>) -> (matcher: BatchMatcher)
    ensures
        matcher@ == BatchMatcherView::started(api_key@, files_view(files@)),
        matcher@.well_formed(),
        matcher@.accounted() == file_indices(files_view(files@)),
{
    proof {
        assert(files_view(files@).len() == files.len());
        lemma_started(api_key@, files_view(files@));
    }
    let mut matcher = BatchMatcher {
        results: Vec::new(),
        movies: Vec::new(),
        shows: Vec::new(),
        stage: Stage::Done,
        movie_at: 0,
        show_at: 0,
        episode_at: 0,
        target: 0,
        show: MediaMetadata::default(),
    };
    assert(matcher@.results =~= Seq::empty());
    assert(matcher@.movies =~= Seq::empty());
    assert(matcher@.shows =~= Seq::empty());
    if api_key.is_empty() {
        push_failures(&mut matcher.results, &files, "TMDB API key not set");
        assert(matcher@.results =~= failures(files_view(files@), no_key_text()));
        return matcher;
    }
    let mut i: usize = 0;
    while i < files.len()
        invariant
            i <= files.len(),
            matcher@ == BatchMatcherView::sorted(files_view(files@).take(i as int)),
        decreases files.len() - i,
    {
        assert(files_view(files@).take(i + 1).drop_last() =~= files_view(files@).take(i as int));
        matcher.add_file(files[i].clone());
        i += 1;
    }
    assert(files_view(files@).take(files@.len() as int) =~= files_view(files@));
    matcher.resume();
    matcher
}

/// The bytes that stand for themselves in a URL: ASCII letters and digits,
/// `-`, `_`, `.` and `~`.
pub open spec fn is_unreserved(b: u8) -> bool {
    ||| 0x61 <= b <= 0x7a
    ||| 0x41 <= b <= 0x5a
    ||| 0x30 <= b <= 0x39
    ||| b == 0x2d
    ||| b == 0x5f
    ||| b == 0x2e
    ||| b == 0x7e
}

/// The hexadecimal digit for `n`, which is below sixteen, in upper case.
pub open spec fn hex_digit(n: u8) -> char {
    if n < 10 {
        ((48 + n) as u8) as char
    } else {
        ((55 + n) as u8) as char
    }
}

/// A byte as it stands in a URL: itself where it is unreserved, else `%`
/// and its two hexadecimal digits.
pub open spec fn escaped(b: u8) -> Seq<char> {
    if is_unreserved(b) {
        seq![b as char]
    } else {
        seq!['%', hex_digit(b / 16), hex_digit(b % 16)]
    }
}

/// Bytes as they stand in a URL.
pub open spec fn percent_encoded(bytes: Seq<u8>) -> Seq<char>
    decreases bytes.len(),
{
    if bytes.len() == 0 {
        Seq::empty()
    } else {
        percent_encoded(bytes.drop_last()) + escaped(bytes.last())
    }
}

/// A text as it stands in a URL: each byte of its UTF-8 form escaped. A
/// space becomes `%20`.
pub open spec fn encoded(s: Seq<char>) -> Seq<char> {
    percent_encoded(encode_utf8(s))
}

/// Writes the hexadecimal digit for `n`.
fn hex(n: u8) -> (c: char)
    requires
        n < 16,
    ensures
        c == hex_digit(n),
{
    if n < 10 {
        (48 + n) as char
    } else {
        (55 + n) as char
    }
}

/// Escapes a text for use in a URL.
pub fn encode(s: &str) -> (out: String)
    ensures
        out@ == encoded(s@),
{
    let bytes = s.as_bytes();
    let mut out: Vec<char> = Vec::new();
    let mut i: usize = 0;
    while i < bytes.len()
        invariant
            i <= bytes.len(),
            bytes@ == encode_utf8(s@),
            out@ == percent_encoded(bytes@.take(i as int)),
        decreases bytes.len() - i,
    {
        let b = bytes[i];
        assert(bytes@.take(i + 1).drop_last() =~= bytes@.take(i as int));
        let ghost before = out@;
        if (0x61 <= b && b <= 0x7a) || (0x41 <= b && b <= 0x5a) || (0x30 <= b && b <= 0x39) || b
            == 0x2d || b == 0x5f || b == 0x2e || b == 0x7e {
            out.push(b as char);
            assert(out@ =~= before + seq![b as char]);
        } else {
            out.push('%');
            out.push(hex(b / 16));
            out.push(hex(b % 16));
            assert(out@ =~= before + seq!['%', hex_digit(b / 16), hex_digit(b % 16)]);
        }
        i += 1;
    }
    assert(bytes@.take(bytes@.len() as int) =~= bytes@);
    from_chars(&out)
}

/// Where the database answers.
pub open spec fn base_url() -> Seq<char> {
    "https://api.themoviedb.org/3"@
}

/// The part of a URL that limits a search to a year.
pub open spec fn year_filter(name: Seq<char>, year: Option<u32>) -> Seq<char> {
    match year {
        Some(year) => name + decimal(year as nat),
        None => Seq::empty(),
    }
}

/// The URL of a search of the kind `kind` for `query` with the
/// credential `api_key`.
pub open spec fn search_url(kind: Seq<char>, api_key: Seq<char>, query: Seq<char>) -> Seq<char> {
    base_url() + "/search/"@ + kind + "?api_key="@ + api_key + "&query="@ + encoded(query)
        + "&include_adult=false"@
}

/// The URL that tells whether `api_key` is accepted.
pub open spec fn configuration_url(api_key: Seq<char>) -> Seq<char> {
    base_url() + "/configuration?api_key="@ + api_key
}

/// The URL of the details of the entry `id` of the kind `kind`.
pub open spec fn details_url(kind: Seq<char>, id: u64, api_key: Seq<char>) -> Seq<char> {
    base_url() + kind + decimal(id as nat) + "?api_key="@ + api_key
}

/// The URL of the details of one episode of the show `id`.
pub open spec fn episode_url(id: u64, season: u32, episode: u32, api_key: Seq<char>) -> Seq<char> {
    base_url() + "/tv/"@ + decimal(id as nat) + "/season/"@ + decimal(season as nat)
        + "/episode/"@ + decimal(episode as nat) + "?api_key="@ + api_key
}

/// Appends the decimal numeral of `n`.
fn append_number(url: &mut String, n: u64)
    ensures
        final(url)@ == old(url)@ + decimal(n as nat),
{
    url.append(from_chars(&to_decimal(n)).as_str());
}

/// A credential for the database, from which the URLs of its requests
/// are made.
#[derive(Debug)]
pub struct TmdbClient {
    pub api_key: String,
}

impl TmdbClient {
    pub fn new(api_key: String) -> (client: TmdbClient)
        ensures
            client.api_key == api_key,
    {
        TmdbClient { api_key }
    }

    /// The URL of a search of the kind `kind` for `query`.
    fn search(&self, kind: &str, query: &str) -> (url: String)
        ensures
            url@ == search_url(kind@, self.api_key@, query@),
    {
        let mut url = String::from_str("https://api.themoviedb.org/3");
        url.append("/search/");
        url.append(kind);
        url.append("?api_key=");
        url.append(self.api_key.as_str());
        url.append("&query=");
        url.append(encode(query).as_str());
        url.append("&include_adult=false");
        url
    }

    /// The URL of the details of the entry `id` of the kind `kind`.
    fn details(&self, kind: &str, id: u64) -> (url: String)
        ensures
            url@ == details_url(kind@, id, self.api_key@),
    {
        let mut url = String::from_str("https://api.themoviedb.org/3");
        url.append(kind);
        append_number(&mut url, id);
        url.append("?api_key=");
        url.append(self.api_key.as_str());
        url
    }

    /// The URL of the request that tells whether the credential is
    /// accepted.
    pub fn verify_api_key_url(&self) -> (url: String)
        ensures
            url@ == configuration_url(self.api_key@),
    {
        let mut url = String::from_str("https://api.themoviedb.org/3");
        url.append("/configuration?api_key=");
        url.append(self.api_key.as_str());
        url
    }

    /// The URL of a search for movies, of the year `year` where one is
    /// given.
    pub fn search_movies_url(&self, query: &str, year: Option<u32>) -> (url: String)
        ensures
            url@ == search_url("movie"@, self.api_key@, query@) + year_filter("&year="@, year),
    {
        let mut url = self.search("movie", query);
        match year {
            Some(year) => {
                let ghost before = url@;
                url.append("&year=");
                append_number(&mut url, year as u64);
                assert(url@ =~= before + ("&year="@ + decimal(year as nat)));
            },
            None => {
                assert(url@ + Seq::empty() =~= url@);
            },
        }
        url
    }

    /// The URL of a search for shows, first aired in `year` where one is
    /// given.
    pub fn search_tv_url(&self, query: &str, year: Option<u32>) -> (url: String)
        ensures
            url@ == search_url("tv"@, self.api_key@, query@) + year_filter(
                "&first_air_date_year="@,
                year,
            ),
    {
        let mut url = self.search("tv", query);
        match year {
            Some(year) => {
                let ghost before = url@;
                url.append("&first_air_date_year=");
                append_number(&mut url, year as u64);
                assert(url@ =~= before + ("&first_air_date_year="@ + decimal(year as nat)));
            },
            None => {
                assert(url@ + Seq::empty() =~= url@);
            },
        }
        url
    }

    /// The URL of a search for movies and shows alike.
    pub fn search_multi_url(&self, query: &str) -> (url: String)
        ensures
            url@ == search_url("multi"@, self.api_key@, query@),
    {
        self.search("multi", query)
    }

    /// The URL of the details of a movie.
    pub fn movie_details_url(&self, movie_id: u64) -> (url: String)
        ensures
            url@ == details_url("/movie/"@, movie_id, self.api_key@),
    {
        self.details("/movie/", movie_id)
    }

    /// The URL of the details of a show.
    pub fn tv_details_url(&self, tv_id: u64) -> (url: String)
        ensures
            url@ == details_url("/tv/"@, tv_id, self.api_key@),
    {
        self.details("/tv/", tv_id)
    }

    /// The URL of the details of an episode.
    pub fn episode_details_url(&self, tv_id: u64, season: u32, episode: u32) -> (url: String)
        ensures
            url@ == episode_url(tv_id, season, episode, self.api_key@),
    {
        let mut url = String::from_str("https://api.themoviedb.org/3");
        url.append("/tv/");
        append_number(&mut url, tv_id);
        url.append("/season/");
        append_number(&mut url, season as u64);
        url.append("/episode/");
        append_number(&mut url, episode as u64);
        url.append("?api_key=");
        url.append(self.api_key.as_str());
        url
    }
}

/// The position of the first `c` in `s`, or the length of `s` where it
/// holds none.
pub open spec fn first_index_of(s: Seq<char>, c: char) -> int
    decreases s.len(),
{
    if s.len() == 0 || s[0] == c {
        0
    } else {
        1 + first_index_of(s.skip(1), c)
    }
}

/// The year of a date written as year, dash, month, dash, day: the number
/// before the first dash.
pub open spec fn year_of_date(date: Option<Seq<char>>) -> Option<u32> {
    match date {
        Some(date) => parsed_u32(date.take(first_index_of(date, '-'))),
        None => None,
    }
}

proof fn lemma_first_index_of(s: Seq<char>, c: char, n: int)
    requires
        0 <= n <= s.len(),
        forall|j: int| 0 <= j < n ==> s[j] != c,
        n < s.len() ==> s[n] == c,
    ensures
        first_index_of(s, c) == n,
    decreases n,
{
    if n > 0 {
        lemma_first_index_of(s.skip(1), c, n - 1);
    }
}

/// Reads the year off a date.
pub fn date_year(date: &Option<String>) -> (year: Option<u32>)
    ensures
        year == year_of_date(text_of(*date)),
{
    match date {
        Some(date) => {
            let chars = to_chars(date.as_str());
            let mut digits: Vec<char> = Vec::new();
            let mut i: usize = 0;
            while i < chars.len() && chars[i] != '-'
                invariant
                    i <= chars.len(),
                    digits@ == chars@.take(i as int),
                    forall|j: int| 0 <= j < i ==> chars@[j] != '-',
                decreases chars.len() - i,
            {
                digits.push(chars[i]);
                assert(digits@ =~= chars@.take(i + 1));
                i += 1;
            }
            proof {
                lemma_first_index_of(chars@, '-', i as int);
            }
            parse_u32(&digits)
        },
        None => None,
    }
}

/// One entry of a search as the database sends it, as plain values.
pub struct TmdbSearchResultView {
    pub id: u64,
    pub title: Option<Seq<char>>,
    pub name: Option<Seq<char>>,
    pub overview: Option<Seq<char>>,
    pub poster_path: Option<Seq<char>>,
    pub release_date: Option<Seq<char>>,
    pub first_air_date: Option<Seq<char>>,
    pub vote_average: Option<Rating>,
    pub media_type: Option<Seq<char>>,
}

/// One entry of a search as the database sends it.
#[derive(Debug)]
pub struct TmdbSearchResult {
    pub id: u64,
    pub title: Option<String>,
    pub name: Option<String>,
    pub overview: Option<String>,
    pub poster_path: Option<String>,
    pub release_date: Option<String>,
    pub first_air_date: Option<String>,
    pub vote_average: Option<Rating>,
    pub media_type: Option<String>,
}

impl View for TmdbSearchResult {
    type V = TmdbSearchResultView;

    open spec fn view(&self) -> TmdbSearchResultView {
        TmdbSearchResultView {
            id: self.id,
            title: text_of(self.title),
            name: text_of(self.name),
            overview: text_of(self.overview),
            poster_path: text_of(self.poster_path),
            release_date: text_of(self.release_date),
            first_air_date: text_of(self.first_air_date),
            vote_average: self.vote_average,
            media_type: text_of(self.media_type),
        }
    }
}

/// `first`, else `second`, else nothing.
pub open spec fn first_of(first: Option<Seq<char>>, second: Option<Seq<char>>) -> Seq<char> {
    match first {
        Some(text) => text,
        None => match second {
            Some(text) => text,
            None => Seq::empty(),
        },
    }
}

/// A search entry read as a movie: titled by its title, else its name,
/// and dated by its release.
pub open spec fn as_movie(raw: TmdbSearchResultView) -> SearchResultView {
    SearchResultView {
        tmdb_id: raw.id,
        title: first_of(raw.title, raw.name),
        year: year_of_date(raw.release_date),
        media_type: MediaType::Movie,
        overview: raw.overview,
        poster_path: raw.poster_path,
        vote_average: raw.vote_average,
    }
}

/// A search entry read as a show: titled by its name, else its title, and
/// dated by its first airing.
pub open spec fn as_show(raw: TmdbSearchResultView) -> SearchResultView {
    SearchResultView {
        tmdb_id: raw.id,
        title: first_of(raw.name, raw.title),
        year: year_of_date(raw.first_air_date),
        media_type: MediaType::TvShow,
        overview: raw.overview,
        poster_path: raw.poster_path,
        vote_average: raw.vote_average,
    }
}

/// The entries of a search of the kind `kind`: all of them read as movies
/// or as shows where the search was for one kind, and where it was for
/// both, those that the database marks `movie` or `tv`, read as marked.
pub open spec fn search_results(kind: MediaType, raws: Seq<TmdbSearchResultView>) -> Seq<
    SearchResultView,
>
    decreases raws.len(),
{
    if raws.len() == 0 {
        Seq::empty()
    } else {
        let earlier = search_results(kind, raws.drop_last());
        let raw = raws.last();
        match kind {
            MediaType::Movie => earlier.push(as_movie(raw)),
            MediaType::TvShow => earlier.push(as_show(raw)),
            MediaType::Unknown => if raw.media_type == Some("movie"@) {
                earlier.push(as_movie(raw))
            } else if raw.media_type == Some("tv"@) {
                earlier.push(as_show(raw))
            } else {
                earlier
            },
        }
    }
}

/// Picks `first`, else `second`, else the empty text.
fn pick(first: &Option<String>, second: &Option<String>) -> (text: String)
    ensures
        text@ == first_of(text_of(*first), text_of(*second)),
{
    match first {
        Some(text) => text.clone(),
        None => match second {
            Some(text) => text.clone(),
            None => String::new(),
        },
    }
}

/// Reads a search entry as a movie.
pub fn movie_result(raw: &TmdbSearchResult) -> (result: SearchResult)
    ensures
        result@ == as_movie(raw@),
{
    SearchResult {
        tmdb_id: raw.id,
        title: pick(&raw.title, &raw.name),
        year: date_year(&raw.release_date),
        media_type: MediaType::Movie,
        overview: copy_text(&raw.overview),
        poster_path: copy_text(&raw.poster_path),
        vote_average: raw.vote_average,
    }
}

/// Reads a search entry as a show.
pub fn tv_result(raw: &TmdbSearchResult) -> (result: SearchResult)
    ensures
        result@ == as_show(raw@),
{
    SearchResult {
        tmdb_id: raw.id,
        title: pick(&raw.name, &raw.title),
        year: date_year(&raw.first_air_date),
        media_type: MediaType::TvShow,
        overview: copy_text(&raw.overview),
        poster_path: copy_text(&raw.poster_path),
        vote_average: raw.vote_average,
    }
}

/// Tests whether an optional text is `word`.
fn is_text(text: &Option<String>, word: &str) -> (same: bool)
    ensures
        same == (text_of(*text) == Some(word@)),
{
    match text {
        Some(text) => {
            let word = String::from_str(word);
            *text == word
        },
        None => false,
    }
}

/// Reads the entries of a search of the kind `kind`.
pub fn read_search_results(kind: MediaType, raws: &Vec<TmdbSearchResult>) -> (results: Vec<
    SearchResult,
>)
    ensures
        results@.map_values(|r: SearchResult| r@) == search_results(
            kind,
            raws@.map_values(|r: TmdbSearchResult| r@),
        ),
{
    let mut results: Vec<SearchResult> = Vec::new();
    let ghost raw_views = raws@.map_values(|r: TmdbSearchResult| r@);
    let mut i: usize = 0;
    assert(results@.map_values(|r: SearchResult| r@) =~= Seq::empty());
    while i < raws.len()
        invariant
            i <= raws.len(),
            raw_views == raws@.map_values(|r: TmdbSearchResult| r@),
            results@.map_values(|r: SearchResult| r@) == search_results(
                kind,
                raw_views.take(i as int),
            ),
        decreases raws.len() - i,
    {
        assert(raw_views.take(i + 1).drop_last() =~= raw_views.take(i as int));
        let raw = &raws[i];
        let ghost before = results@.map_values(|r: SearchResult| r@);
        match kind {
            MediaType::Movie => {
                results.push(movie_result(raw));
                assert(results@.map_values(|r: SearchResult| r@) =~= before.push(as_movie(raw@)));
            },
            MediaType::TvShow => {
                results.push(tv_result(raw));
                assert(results@.map_values(|r: SearchResult| r@) =~= before.push(as_show(raw@)));
            },
            MediaType::Unknown => {
                if is_text(&raw.media_type, "movie") {
                    results.push(movie_result(raw));
                    assert(results@.map_values(|r: SearchResult| r@) =~= before.push(
                        as_movie(raw@),
                    ));
                } else if is_text(&raw.media_type, "tv") {
                    results.push(tv_result(raw));
                    assert(results@.map_values(|r: SearchResult| r@) =~= before.push(
                        as_show(raw@),
                    ));
                }
            },
        }
        i += 1;
    }
    assert(raw_views.take(raws@.len() as int) =~= raw_views);
    results
}

/// The details of a movie or of a show as the database sends them, as
/// plain values. `title` is the movie's title or the show's name.
pub struct TmdbDetailsView {
    pub id: u64,
    pub title: Seq<char>,
    pub original_title: Option<Seq<char>>,
    pub overview: Option<Seq<char>>,
    pub poster_path: Option<Seq<char>>,
    pub backdrop_path: Option<Seq<char>>,
    pub date: Option<Seq<char>>,
    pub vote_average: Option<Rating>,
    pub genres: Seq<Seq<char>>,
}

/// The details of a movie or of a show as the database sends them.
/// `title` is the movie's title or the show's name, `date` the day of
/// release or of the first airing, `genres` the names of the genres.
#[derive(Debug)]
pub struct TmdbDetails {
    pub id: u64,
    pub title: String,
    pub original_title: Option<String>,
    pub overview: Option<String>,
    pub poster_path: Option<String>,
    pub backdrop_path: Option<String>,
    pub date: Option<String>,
    pub vote_average: Option<Rating>,
    pub genres: Vec<String>,
}

impl View for TmdbDetails {
    type V = TmdbDetailsView;

    open spec fn view(&self) -> TmdbDetailsView {
        TmdbDetailsView {
            id: self.id,
            title: self.title@,
            original_title: text_of(self.original_title),
            overview: text_of(self.overview),
            poster_path: text_of(self.poster_path),
            backdrop_path: text_of(self.backdrop_path),
            date: text_of(self.date),
            vote_average: self.vote_average,
            genres: texts_of(self.genres@),
        }
    }
}

/// The metadata that the details of a movie make, or of a show where
/// `show` is set: a show's name is also the name of the show of its
/// episodes.
pub open spec fn details_metadata(raw: TmdbDetailsView, show: bool) -> MediaMetadataView {
    MediaMetadataView {
        tmdb_id: raw.id,
        title: raw.title,
        original_title: raw.original_title,
        year: year_of_date(raw.date),
        overview: raw.overview,
        poster_path: raw.poster_path,
        backdrop_path: raw.backdrop_path,
        vote_average: raw.vote_average,
        genres: raw.genres,
        show_name: if show {
            Some(raw.title)
        } else {
            None
        },
        ..MediaMetadataView::empty()
    }
}

/// Makes metadata of the details of a movie.
pub fn movie_metadata(raw: &TmdbDetails) -> (metadata: MediaMetadata)
    ensures
        metadata@ == details_metadata(raw@, false),
{
    MediaMetadata {
        tmdb_id: raw.id,
        title: raw.title.clone(),
        original_title: copy_text(&raw.original_title),
        year: date_year(&raw.date),
        overview: copy_text(&raw.overview),
        poster_path: copy_text(&raw.poster_path),
        backdrop_path: copy_text(&raw.backdrop_path),
        vote_average: raw.vote_average,
        genres: copy_texts(&raw.genres),
        season_number: None,
        episode_number: None,
        episode_title: None,
        air_date: None,
        show_name: None,
    }
}

/// Makes metadata of the details of a show.
pub fn tv_metadata(raw: &TmdbDetails) -> (metadata: MediaMetadata)
    ensures
        metadata@ == details_metadata(raw@, true),
{
    MediaMetadata {
        tmdb_id: raw.id,
        title: raw.title.clone(),
        original_title: copy_text(&raw.original_title),
        year: date_year(&raw.date),
        overview: copy_text(&raw.overview),
        poster_path: copy_text(&raw.poster_path),
        backdrop_path: copy_text(&raw.backdrop_path),
        vote_average: raw.vote_average,
        genres: copy_texts(&raw.genres),
        season_number: None,
        episode_number: None,
        episode_title: None,
        air_date: None,
        show_name: Some(raw.title.clone()),
    }
}

/// The URL that tells whether `api_key` is accepted. No credential is
/// none that is accepted: there is nothing to ask then.
pub fn verify_api_key(api_key: &str) -> (url: Option<String>)
    ensures
        match url {
            Some(url) => api_key@.len() > 0 && url@ == configuration_url(api_key@),
            None => api_key@.len() == 0,
        },
{
    if api_key.is_empty() {
        return None;
    }
    Some(TmdbClient::new(api_key.to_owned()).verify_api_key_url())
}

/// The URL of a search for `query` among media of the kind `media_type`:
/// movies, shows, or both where the kind is unknown. A year narrows a
/// search for one kind only.
pub open spec fn search_media_url(
    api_key: Seq<char>,
    query: Seq<char>,
    media_type: MediaType,
    year: Option<u32>,
) -> Seq<char> {
    match media_type {
        MediaType::Movie => search_url("movie"@, api_key, query) + year_filter("&year="@, year),
        MediaType::TvShow => search_url("tv"@, api_key, query) + year_filter(
            "&first_air_date_year="@,
            year,
        ),
        MediaType::Unknown => search_url("multi"@, api_key, query),
    }
}

/// The URL of a search for `query`, or the error for a lookup without a
/// credential. The answer is read with `read_search_results` for the same
/// kind.
pub fn search_media(api_key: &str, query: &str, media_type: MediaType, year: Option<u32>) -> (url:
    Result<String, String>)
    ensures
        match url {
            Ok(url) => api_key@.len() > 0 && url@ == search_media_url(
                api_key@,
                query@,
                media_type,
                year,
            ),
            Err(reason) => api_key@.len() == 0 && reason@ == no_key_text(),
        },
{
    if api_key.is_empty() {
        return Err(String::from_str("TMDB API key not set"));
    }
    let client = TmdbClient::new(api_key.to_owned());
    Ok(
        match media_type {
            MediaType::Movie => client.search_movies_url(query, year),
            MediaType::TvShow => client.search_tv_url(query, year),
            MediaType::Unknown => client.search_multi_url(query),
        },
    )
}

/// Which details to ask for.
#[derive(Debug, Clone, Copy, PartialEq, Eq, Structural)]
pub enum DetailsRequest {
    /// The details of a movie.
    Movie { id: u64 },
    /// The details of a show.
    Show { id: u64 },
    /// The details of an episode, and those of its show. Where the
    /// episode cannot be had, the show's metadata with the episode's
    /// numbers stands in for it.
    Episode { id: u64, season: u32, episode: u32 },
}

/// The details to ask for about a search entry: a movie's for a movie and
/// for an entry of unknown kind, an episode's for a show where season and
/// episode are known, else the show's.
pub open spec fn details_for(result: SearchResultView, season: Option<u32>, episode: Option<u32>)
    -> DetailsRequest {
    match result.media_type {
        MediaType::TvShow => match (season, episode) {
            (Some(season), Some(episode)) => DetailsRequest::Episode {
                id: result.tmdb_id,
                season,
                episode,
            },
            _ => DetailsRequest::Show { id: result.tmdb_id },
        },
        _ => DetailsRequest::Movie { id: result.tmdb_id },
    }
}

/// Decides which details to ask for about a search entry, or gives the
/// error for a lookup without a credential.
pub fn fetch_metadata(
    api_key: &str,
    result: &SearchResult,
    season: Option<u32>,
    episode: Option<u32>,
) -> (request: Result<DetailsRequest, String>)
    ensures
        match request {
            Ok(request) => api_key@.len() > 0 && request == details_for(result@, season, episode),
            Err(reason) => api_key@.len() == 0 && reason@ == no_key_text(),
        },
{
    if api_key.is_empty() {
        return Err(String::from_str("TMDB API key not set"));
    }
    Ok(
        match result.media_type {
            MediaType::TvShow => match (season, episode) {
                (Some(season), Some(episode)) => DetailsRequest::Episode {
                    id: result.tmdb_id,
                    season,
                    episode,
                },
                _ => DetailsRequest::Show { id: result.tmdb_id },
            },
            _ => DetailsRequest::Movie { id: result.tmdb_id },
        },
    )
}

/// The metadata of an episode that was asked for, given the show's
/// metadata and the answer about the episode: the two joined where the
/// episode was found, else the show's with the episode's numbers.
pub fn episode_metadata(
    show: &MediaMetadata,
    tmdb_id: u64,
    season: u32,
    episode: u32,
    details: &Option<EpisodeDetails>,
) -> (metadata: MediaMetadata)
    ensures
        metadata@ == (match episode_view(*details) {
            Some(d) => merged_episode(show@, tmdb_id, season, episode, d),
            None => numbered_show(show@, season, episode),
        }),
{
    match details {
        Some(details) => merge_episode(show, tmdb_id, season, episode, details),
        None => number_show(show, season, episode),
    }
}


/// The characters that an escaped text is made of: the unreserved ones,
/// the percent sign and the hexadecimal digits in upper case.
pub open spec fn is_url_safe(c: char) -> bool {
    ||| 'a' <= c <= 'z'
    ||| 'A' <= c <= 'Z'
    ||| '0' <= c <= '9'
    ||| c == '-'
    ||| c == '_'
    ||| c == '.'
    ||| c == '~'
    ||| c == '%'
}

proof fn lemma_percent_encoded(bytes: Seq<u8>)
    ensures
        forall|i: int|
            0 <= i < percent_encoded(bytes).len() ==> is_url_safe(
                #[trigger] percent_encoded(bytes)[i],
            ),
        bytes.len() <= percent_encoded(bytes).len() <= 3 * bytes.len(),
    decreases bytes.len(),
{
    if bytes.len() > 0 {
        lemma_percent_encoded(bytes.drop_last());
        let before = percent_encoded(bytes.drop_last());
        let b = bytes.last();
        let tail = escaped(b);
        assert forall|k: int| 0 <= k < tail.len() implies is_url_safe(#[trigger] tail[k]) by {
            assert(is_url_safe(hex_digit(b / 16)));
            assert(is_url_safe(hex_digit(b % 16)));
        }
        assert forall|i: int| 0 <= i < percent_encoded(bytes).len() implies is_url_safe(
            #[trigger] percent_encoded(bytes)[i],
        ) by {
            if i < before.len() {
                assert(percent_encoded(bytes)[i] == before[i]);
            } else {
                assert(percent_encoded(bytes)[i] == tail[i - before.len()]);
            }
        }
    }
}

/// An escaped text holds nothing but unreserved characters, percent signs
/// and hexadecimal digits, whatever the text was.
pub proof fn lemma_encoded_safe(s: Seq<char>)
    ensures
        forall|i: int| 0 <= i < encoded(s).len() ==> is_url_safe(#[trigger] encoded(s)[i]),
{
    lemma_percent_encoded(encode_utf8(s));
}

} // verus!
