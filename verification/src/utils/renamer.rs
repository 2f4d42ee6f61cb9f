//! Building new filenames from metadata and a template.

use crate::model::{
    media_files_view, MediaFile, MediaFileView, MediaMetadata, MediaMetadataView, MediaType,
    ParsedMediaInfoView, RenamePattern, RenamePatternView,
};
use crate::text::{
    is_whitespace, leading_whitespace, lemma_whitespace_bounds, trailing_whitespace,
    append, decimal, decimal_two, ends_with, from_chars, has_suffix, replace, replaced, squeeze,
    squeezed, to_chars, to_decimal, to_decimal_two, trim, trimmed,
};
use crate::utils::tmdb::{outcomes_view, Outcome, OutcomeView};
use std::path::PathBuf;
use vstd::prelude::*;
use vstd::string::*;

verus! {

/// The characters that no filename may hold on some system.
pub open spec fn is_forbidden(c: char) -> bool {
    ||| c == '/'
    ||| c == '\\'
    ||| c == ':'
    ||| c == '*'
    ||| c == '?'
    ||| c == '"'
    ||| c == '<'
    ||| c == '>'
    ||| c == '|'
}

/// `s` without its forbidden characters.
pub open spec fn permitted(s: Seq<char>) -> Seq<char> {
    s.filter(|c: char| !is_forbidden(c))
}

/// `s` as it may stand in a filename: without forbidden characters, with
/// each run of spaces made one space, and without white space at its
/// ends.
pub open spec fn sanitized(s: Seq<char>) -> Seq<char> {
    trimmed(squeezed(permitted(s)))
}

/// Removes the forbidden characters.
fn permit(s: &Vec<char>) -> (out: Vec<char>)
    ensures
        out@ == permitted(s@),
{
    let mut out: Vec<char> = Vec::new();
    let mut i: usize = 0;
    assert(s@.take(0).filter(|c: char| !is_forbidden(c)) =~= Seq::empty()) by {
        reveal(Seq::filter);
    }
    while i < s.len()
        invariant
            i <= s.len(),
            out@ == permitted(s@.take(i as int)),
        decreases s.len() - i,
    {
        let c = s[i];
        assert(s@.take(i + 1).drop_last() =~= s@.take(i as int));
        assert(permitted(s@.take(i + 1)) == if !is_forbidden(c) {
            permitted(s@.take(i as int)).push(c)
        } else {
            permitted(s@.take(i as int))
        }) by {
            reveal(Seq::filter);
        }
        if !(c == '/' || c == '\\' || c == ':' || c == '*' || c == '?' || c == '"' || c == '<'
            || c == '>' || c == '|') {
            out.push(c);
        }
        i += 1;
    }
    assert(s@.take(s@.len() as int) =~= s@);
    out
}

/// Makes a text fit for a filename.
pub fn sanitize_filename(s: &str) -> (out: String)
    ensures
        out@ == sanitized(s@),
{
    from_chars(&trim(&squeeze(&permit(&to_chars(s)))))
}

/// `first` where it is there, else `second`.
pub open spec fn or_else<T>(first: Option<T>, second: Option<T>) -> Option<T> {
    if first is Some {
        first
    } else {
        second
    }
}

/// The values that take the places of a template's placeholders. A value
/// that is missing removes its placeholder.
pub struct Fields {
    pub title: Seq<char>,
    pub year: Option<u32>,
    pub show: Seq<char>,
    pub season: Option<u32>,
    pub episode: Option<u32>,
    pub episode_title: Option<Seq<char>>,
}

/// The values for a file: those of the database where it has them, else
/// those read from the filename. The show's name is the database's name
/// of the show, else the database's title.
pub open spec fn fields_of(parsed: Option<ParsedMediaInfoView>, metadata: MediaMetadataView)
    -> Fields {
    Fields {
        title: sanitized(metadata.title),
        year: or_else(
            metadata.year,
            match parsed {
                Some(p) => p.year,
                None => None,
            },
        ),
        show: sanitized(
            match metadata.show_name {
                Some(show) => show,
                None => metadata.title,
            },
        ),
        season: or_else(
            metadata.season_number,
            match parsed {
                Some(p) => p.season,
                None => None,
            },
        ),
        episode: or_else(
            metadata.episode_number,
            match parsed {
                Some(p) => p.episode,
                None => None,
            },
        ),
        episode_title: match or_else(
            metadata.episode_title,
            match parsed {
                Some(p) => p.episode_title,
                None => None,
            },
        ) {
            Some(title) => Some(sanitized(title)),
            None => None,
        },
    }
}

/// `text` with the number `n` in place of the placeholders `padded`, with
/// two digits at least, and `plain`, as it is; both are removed where the
/// number is missing.
pub open spec fn with_number(text: Seq<char>, padded: Seq<char>, plain: Seq<char>, n: Option<u32>)
    -> Seq<char> {
    match n {
        Some(n) => replaced(
            replaced(text, padded, decimal_two(n as nat)),
            plain,
            decimal(n as nat),
        ),
        None => replaced(replaced(text, padded, Seq::empty()), plain, Seq::empty()),
    }
}

/// `template` with its placeholders filled in, one kind after the other:
/// title, year, show, season, episode, episode title. A missing year also
/// removes the empty brackets that it leaves.
pub open spec fn filled(template: Seq<char>, fields: Fields) -> Seq<char> {
    let text = replaced(template, "{title}"@, fields.title);
    let text = match fields.year {
        Some(year) => replaced(text, "{year}"@, decimal(year as nat)),
        None => replaced(replaced(text, "{year}"@, Seq::empty()), " ()"@, Seq::empty()),
    };
    let text = replaced(text, "{show}"@, fields.show);
    let text = with_number(text, "{season:02}"@, "{season}"@, fields.season);
    let text = with_number(text, "{episode:02}"@, "{episode}"@, fields.episode);
    replaced(
        text,
        "{episode_title}"@,
        match fields.episode_title {
            Some(title) => title,
            None => Seq::empty(),
        },
    )
}

/// `text` without a ` -` at its end.
pub open spec fn without_dash(text: Seq<char>) -> Seq<char> {
    if ends_with(text, " -"@) {
        text.take(text.len() - 2)
    } else {
        text
    }
}

/// A filled template without the separators that removed placeholders
/// leave behind.
pub open spec fn neatened(text: Seq<char>) -> Seq<char> {
    let text = trimmed(text);
    let text = replaced(text, " - ."@, "."@);
    let text = replaced(text, " -."@, "."@);
    let text = replaced(text, "  - "@, " "@);
    let text = replaced(text, " -  "@, " "@);
    trimmed(without_dash(squeezed(text)))
}

/// The template for a kind of media: the one for episodes for an episode,
/// the one for movies for anything else.
pub open spec fn template_for(kind: MediaType, pattern: RenamePatternView) -> Seq<char> {
    if kind == MediaType::TvShow {
        pattern.tv_pattern
    } else {
        pattern.movie_pattern
    }
}

/// The new name of a file: its template filled in and neatened, a dot and
/// the file's extension.
pub open spec fn rendered(
    file: MediaFileView,
    metadata: MediaMetadataView,
    pattern: RenamePatternView,
) -> Seq<char> {
    neatened(
        filled(template_for(file.media_type, pattern), fields_of(file.parsed_info, metadata)),
    ) + "."@ + file.extension
}

/// Replaces every occurrence of `pat` in `text` by `to`.
fn put(text: &Vec<char>, pat: &str, to: &Vec<char>) -> (out: Vec<char>)
    ensures
        out@ == replaced(text@, pat@, to@),
{
    replace(text, &to_chars(pat), to)
}

/// Fills in a number, or removes its placeholders.
fn put_number(text: &Vec<char>, padded: &str, plain: &str, n: Option<u32>) -> (out: Vec<char>)
    ensures
        out@ == with_number(text@, padded@, plain@, n),
{
    match n {
        Some(n) => put(&put(text, padded, &to_decimal_two(n)), plain, &to_decimal(n as u64)),
        None => {
            let nothing: Vec<char> = Vec::new();
            put(&put(text, padded, &nothing), plain, &nothing)
        },
    }
}

/// Removes the separators that removed placeholders leave behind.
fn neaten(text: &Vec<char>) -> (out: Vec<char>)
    ensures
        out@ == neatened(text@),
{
    let text = trim(text);
    let text = put(&text, " - .", &to_chars("."));
    let text = put(&text, " -.", &to_chars("."));
    let text = put(&text, "  - ", &to_chars(" "));
    let text = put(&text, " -  ", &to_chars(" "));
    let mut text = squeeze(&text);
    let dash = to_chars(" -");
    proof {
        reveal_strlit(" -");
    }
    if has_suffix(&text, &dash) {
        text.truncate(text.len() - 2);
    }
    trim(&text)
}

/// Builds the new name of `file` from `metadata` and the template of
/// `pattern` for the file's kind.
pub fn generate_filename(
    file: &MediaFile,
    metadata: &MediaMetadata,
    pattern: &RenamePattern,
) -> (name: String)
    ensures
        name@ == rendered(file@, metadata@, pattern@),
{
    let template = match file.media_type {
        MediaType::TvShow => &pattern.tv_pattern,
        _ => &pattern.movie_pattern,
    };
    let nothing: Vec<char> = Vec::new();
    let text = to_chars(template.as_str());
    let title = sanitize_filename(metadata.title.as_str());
    let text = put(&text, "{title}", &to_chars(title.as_str()));
    let year = match metadata.year {
        Some(year) => Some(year),
        None => match &file.parsed_info {
            Some(parsed) => parsed.year,
            None => None,
        },
    };
    let text = match year {
        Some(year) => put(&text, "{year}", &to_decimal(year as u64)),
        None => put(&put(&text, "{year}", &nothing), " ()", &nothing),
    };
    let show = match &metadata.show_name {
        Some(show) => sanitize_filename(show.as_str()),
        None => sanitize_filename(metadata.title.as_str()),
    };
    let text = put(&text, "{show}", &to_chars(show.as_str()));
    let season = match metadata.season_number {
        Some(season) => Some(season),
        None => match &file.parsed_info {
            Some(parsed) => parsed.season,
            None => None,
        },
    };
    let text = put_number(&text, "{season:02}", "{season}", season);
    let episode = match metadata.episode_number {
        Some(episode) => Some(episode),
        None => match &file.parsed_info {
            Some(parsed) => parsed.episode,
            None => None,
        },
    };
    let text = put_number(&text, "{episode:02}", "{episode}", episode);
    let episode_title = match &metadata.episode_title {
        Some(title) => Some(sanitize_filename(title.as_str())),
        None => match &file.parsed_info {
            Some(parsed) => match &parsed.episode_title {
                Some(title) => Some(sanitize_filename(title.as_str())),
                None => None,
            },
            None => None,
        },
    };
    let text = match episode_title {
        Some(title) => put(&text, "{episode_title}", &to_chars(title.as_str())),
        None => put(&text, "{episode_title}", &nothing),
    };
    let mut name = neaten(&text);
    append(&mut name, &to_chars("."));
    append(&mut name, &to_chars(file.extension.as_str()));
    from_chars(&name)
}

/// The old and the new name of each of `files` that has metadata, in the
/// order of the files.
pub open spec fn previewed(files: Seq<MediaFileView>, pattern: RenamePatternView) -> Seq<
    (Seq<char>, Seq<char>),
>
    decreases files.len(),
{
    if files.len() == 0 {
        Seq::empty()
    } else {
        let earlier = previewed(files.drop_last(), pattern);
        match files.last().matched_metadata {
            Some(metadata) => earlier.push(
                (files.last().filename, rendered(files.last(), metadata, pattern)),
            ),
            None => earlier,
        }
    }
}

/// The views of a list of pairs of names.
pub open spec fn pairs_view(pairs: Seq<(String, String)>) -> Seq<(Seq<char>, Seq<char>)> {
    pairs.map_values(|p: (String, String)| (p.0@, p.1@))
}

/// Pairs the name of each file that has metadata with its new name.
pub fn generate_preview(files: &[MediaFile], pattern: &RenamePattern) -> (preview: Vec<
    (String, String),
>)
    ensures
        pairs_view(preview@) == previewed(media_files_view(files@), pattern@),
{
    let mut preview: Vec<(String, String)> = Vec::new();
    let mut i: usize = 0;
    assert(pairs_view(preview@) =~= Seq::empty());
    while i < files.len()
        invariant
            i <= files.len(),
            pairs_view(preview@) == previewed(media_files_view(files@).take(i as int), pattern@),
        decreases files.len() - i,
    {
        assert(media_files_view(files@).take(i + 1).drop_last() =~= media_files_view(files@).take(
            i as int,
        ));
        let file = &files[i];
        let ghost before = preview@;
        match &file.matched_metadata {
            Some(metadata) => {
                let name = generate_filename(file, metadata, pattern);
                preview.push((file.filename.clone(), name));
                assert(pairs_view(preview@) =~= pairs_view(before).push(
                    (file.filename@, rendered(file@, metadata@, pattern@)),
                ));
            },
            None => {},
        }
        i += 1;
    }
    assert(media_files_view(files@).take(files@.len() as int) =~= media_files_view(files@));
    preview
}

/// `file` with the metadata `metadata` and the new name that it gives.
pub open spec fn matched_file(
    file: MediaFileView,
    metadata: MediaMetadataView,
    pattern: RenamePatternView,
) -> MediaFileView {
    MediaFileView {
        matched_metadata: Some(metadata),
        new_filename: Some(rendered(file, metadata, pattern)),
        ..file
    }
}

/// `files` with the results of a lookup applied, one after the other:
/// each file for which metadata was found takes the metadata and its new
/// name. A failed lookup changes nothing, and neither does a result for a
/// file that is not there.
pub open spec fn with_matches(
    files: Seq<MediaFileView>,
    results: Seq<OutcomeView>,
    pattern: RenamePatternView,
) -> Seq<MediaFileView>
    decreases results.len(),
{
    if results.len() == 0 {
        files
    } else {
        let earlier = with_matches(files, results.drop_last(), pattern);
        match results.last().1 {
            Ok(metadata) if results.last().0 < files.len() => earlier.update(
                results.last().0 as int,
                matched_file(earlier[results.last().0 as int], metadata, pattern),
            ),
            _ => earlier,
        }
    }
}

/// How many of `results` bring metadata for one of `count` files.
pub open spec fn matches_in(results: Seq<OutcomeView>, count: nat) -> nat
    decreases results.len(),
{
    if results.len() == 0 {
        0
    } else {
        let here: nat = if results.last().1 is Ok && results.last().0 < count {
            1
        } else {
            0
        };
        matches_in(results.drop_last(), count) + here
    }
}

/// Gives each file the metadata that the lookup found for it, and the new
/// name that the metadata gives. Returns how many results were applied.
pub fn apply_matches(files: &mut Vec<MediaFile>, results: &Vec<Outcome>, pattern: &RenamePattern) -> (applied:
    usize)
    ensures
        media_files_view(final(files)@) == with_matches(
            media_files_view(old(files)@),
            outcomes_view(results@),
            pattern@,
        ),
        applied == matches_in(outcomes_view(results@), old(files)@.len()),
{
    let ghost given = media_files_view(files@);
    let ghost found = outcomes_view(results@);
    let mut applied: usize = 0;
    let mut i: usize = 0;
    while i < results.len()
        invariant
            i <= results.len(),
            applied <= i,
            files.len() == old(files).len(),
            given == media_files_view(old(files)@),
            found == outcomes_view(results@),
            media_files_view(files@) == with_matches(given, found.take(i as int), pattern@),
            applied == matches_in(found.take(i as int), given.len()),
        decreases results.len() - i,
    {
        assert(found.take(i + 1).drop_last() =~= found.take(i as int));
        assert(found.take(i + 1).last() == found[i as int]);
        let index = results[i].0;
        match &results[i].1 {
            Ok(metadata) => {
                if index < files.len() {
                    let ghost before = media_files_view(files@);
                    let name = generate_filename(&files[index], metadata, pattern);
                    files[index].new_filename = Some(name);
                    files[index].matched_metadata = Some(metadata.clone());
                    assert(media_files_view(files@) =~= before.update(
                        index as int,
                        matched_file(before[index as int], metadata@, pattern@),
                    ));
                    applied += 1;
                }
            },
            Err(_) => {},
        }
        i += 1;
    }
    assert(found.take(results@.len() as int) =~= found);
    applied
}

/// `files` with the new name of each file that has metadata made anew.
pub open spec fn renamed_anew(files: Seq<MediaFileView>, pattern: RenamePatternView) -> Seq<
    MediaFileView,
> {
    files.map_values(
        |file: MediaFileView|
            match file.matched_metadata {
                Some(metadata) => MediaFileView {
                    new_filename: Some(rendered(file, metadata, pattern)),
                    ..file
                },
                None => file,
            },
    )
}

/// Makes the new name of each file that has metadata anew, as after a
/// change of the template.
pub fn regenerate_filenames(files: &mut Vec<MediaFile>, pattern: &RenamePattern)
    ensures
        media_files_view(final(files)@) == renamed_anew(media_files_view(old(files)@), pattern@),
{
    let ghost given = media_files_view(files@);
    let mut i: usize = 0;
    while i < files.len()
        invariant
            i <= files.len(),
            files.len() == old(files).len(),
            given == media_files_view(old(files)@),
            forall|k: int|
                0 <= k < i ==> (#[trigger] files[k])@ == renamed_anew(given, pattern@)[k],
            forall|k: int| i <= k < files.len() ==> (#[trigger] files[k])@ == given[k],
        decreases files.len() - i,
    {
        let name = match &files[i].matched_metadata {
            Some(metadata) => Some(generate_filename(&files[i], metadata, pattern)),
            None => None,
        };
        if name.is_some() {
            files[i].new_filename = name;
        }
        i += 1;
    }
    assert(media_files_view(files@) =~= renamed_anew(given, pattern@));
}

/// Where a batch of renames stands.
#[derive(Debug, Clone, Copy, PartialEq, Eq, Structural)]
pub enum RenameStage {
    /// The destination of the file under the cursor is to be looked at.
    Inspect,
    /// The file under the cursor is to be moved.
    Move,
    /// Every file was moved or passed over.
    Done,
    /// The batch was given up; what was moved before stays moved.
    Failed,
}

/// What the caller is to do next with the file at `at`.
#[derive(Debug, Clone, Copy, PartialEq, Eq, Structural)]
pub enum RenameRequest {
    /// Join the file's new name to the output directory, or to the file's
    /// own directory where there is none, and see whether the result is
    /// the file's own path and whether something exists there.
    Inspect { at: usize },
    /// Create the directories that the destination lacks and move the
    /// file there.
    Move { at: usize },
    /// Nothing more.
    Finished,
}

/// What the caller has found or done.
#[derive(Debug)]
pub enum RenameReply {
    /// The destination: whether it is the file's own path, whether
    /// something exists there, and how it is written.
    Inspected { same: bool, exists: bool, destination: String },
    /// The move: the name that the file had, or why it failed.
    Moved(Result<String, String>),
}

/// What the caller has found or done, as plain values.
pub enum RenameReplyView {
    Inspected { same: bool, exists: bool, destination: Seq<char> },
    Moved(Result<Seq<char>, Seq<char>>),
}

impl View for RenameReply {
    type V = RenameReplyView;

    open spec fn view(&self) -> RenameReplyView {
        match *self {
            RenameReply::Inspected { same, exists, destination } => RenameReplyView::Inspected {
                same,
                exists,
                destination: destination@,
            },
            RenameReply::Moved(Ok(name)) => RenameReplyView::Moved(Ok(name@)),
            RenameReply::Moved(Err(reason)) => RenameReplyView::Moved(Err(reason@)),
        }
    }
}

/// A batch of renames, as plain values.
pub struct RenameBatchView {
    pub files: Seq<(PathBuf, Seq<char>)>,
    pub output_dir: Option<PathBuf>,
    pub at: usize,
    pub stage: RenameStage,
    pub renamed: Seq<(Seq<char>, Seq<char>)>,
    pub error: Seq<char>,
}

/// A batch of renames under way: the files with their new names, the
/// directory to move them to, the cursor, and the old and new names of
/// the files moved so far.
#[derive(Debug)]
pub struct RenameBatch {
    pub files: Vec<(PathBuf, String)>,
    pub output_dir: Option<PathBuf>,
    pub at: usize,
    pub stage: RenameStage,
    pub renamed: Vec<(String, String)>,
    pub error: String,
}

impl View for RenameBatch {
    type V = RenameBatchView;

    open spec fn view(&self) -> RenameBatchView {
        RenameBatchView {
            files: self.files@.map_values(|f: (PathBuf, String)| (f.0, f.1@)),
            output_dir: self.output_dir,
            at: self.at,
            stage: self.stage,
            renamed: pairs_view(self.renamed@),
            error: self.error@,
        }
    }
}

/// The error for a destination at which something exists already.
pub open spec fn collision_text(destination: Seq<char>) -> Seq<char> {
    "Destination already exists: "@ + destination
}

impl RenameBatchView {
    /// The batch of `files` before its first request.
    pub open spec fn started(files: Seq<(PathBuf, Seq<char>)>, output_dir: Option<PathBuf>)
        -> RenameBatchView {
        RenameBatchView {
            files,
            output_dir,
            at: 0,
            stage: RenameStage::Inspect,
            renamed: Seq::empty(),
            error: Seq::empty(),
        }.settled()
    }

    /// This batch at the stage that its cursor calls for.
    pub open spec fn settled(self) -> RenameBatchView {
        RenameBatchView {
            stage: if self.at < self.files.len() {
                RenameStage::Inspect
            } else {
                RenameStage::Done
            },
            ..self
        }
    }

    /// This batch with its cursor on the next file.
    pub open spec fn passed(self) -> RenameBatchView {
        RenameBatchView { at: (self.at + 1) as usize, ..self }.settled()
    }

    /// This batch given up for `reason`.
    pub open spec fn failed(self, reason: Seq<char>) -> RenameBatchView {
        RenameBatchView { stage: RenameStage::Failed, error: reason, ..self }
    }

    /// The request that is due.
    pub open spec fn request(self) -> RenameRequest {
        match self.stage {
            RenameStage::Inspect if self.at < self.files.len() => RenameRequest::Inspect {
                at: self.at,
            },
            RenameStage::Move if self.at < self.files.len() => RenameRequest::Move { at: self.at },
            _ => RenameRequest::Finished,
        }
    }

    /// Whether `reply` answers the request that is due.
    pub open spec fn accepts(self, reply: RenameReplyView) -> bool {
        self.at < self.files.len() && match self.stage {
            RenameStage::Inspect => reply is Inspected,
            RenameStage::Move => reply is Moved,
            _ => false,
        }
    }

    /// This batch after `reply`, which it accepts. A destination that is
    /// the file's own path is passed over. One at which something exists
    /// ends the batch, and so does a move that fails; what was moved
    /// before stays in the record.
    pub open spec fn next(self, reply: RenameReplyView) -> RenameBatchView {
        match (self.stage, reply) {
            (RenameStage::Inspect, RenameReplyView::Inspected { same, exists, destination }) => {
                if same {
                    self.passed()
                } else if exists {
                    self.failed(collision_text(destination))
                } else {
                    RenameBatchView { stage: RenameStage::Move, ..self }
                }
            },
            (RenameStage::Move, RenameReplyView::Moved(Ok(name))) => RenameBatchView {
                renamed: self.renamed.push((name, self.files[self.at as int].1)),
                ..self
            }.passed(),
            (RenameStage::Move, RenameReplyView::Moved(Err(reason))) => self.failed(reason),
            _ => self,
        }
    }

    /// What the batch has come to: the old and new names of the files
    /// moved, or why it was given up. Nothing while it is under way.
    pub open spec fn outcome(self) -> Option<Result<Seq<(Seq<char>, Seq<char>)>, Seq<char>>> {
        match self.stage {
            RenameStage::Done => Some(Ok(self.renamed)),
            RenameStage::Failed => Some(Err(self.error)),
            _ => None,
        }
    }

    /// The batch after the answers `replies`, given one after the other;
    /// an answer that is not accepted is passed over.
    pub open spec fn run(self, replies: Seq<RenameReplyView>) -> RenameBatchView
        decreases replies.len(),
    {
        if replies.len() == 0 {
            self
        } else if self.accepts(replies[0]) {
            self.next(replies[0]).run(replies.skip(1))
        } else {
            self.run(replies.skip(1))
        }
    }
}

impl RenameBatch {
    /// Sets the stage that the cursor calls for.
    fn settle(&mut self)
        ensures
            final(self)@ == old(self)@.settled(),
    {
        self.stage = if self.at < self.files.len() {
            RenameStage::Inspect
        } else {
            RenameStage::Done
        };
    }

    /// The request that is due.
    pub fn request(&self) -> (request: RenameRequest)
        ensures
            request == self@.request(),
    {
        if self.at < self.files.len() {
            match self.stage {
                RenameStage::Inspect => RenameRequest::Inspect { at: self.at },
                RenameStage::Move => RenameRequest::Move { at: self.at },
                _ => RenameRequest::Finished,
            }
        } else {
            RenameRequest::Finished
        }
    }

    /// Takes the answer to the request that was due. An answer of another
    /// kind is not accepted and changes nothing.
    pub fn advance(&mut self, reply: RenameReply) -> (accepted: bool)
        ensures
            accepted == old(self)@.accepts(reply@),
            final(self)@ == if accepted {
                old(self)@.next(reply@)
            } else {
                old(self)@
            },
    {
        if self.at >= self.files.len() {
            return false;
        }
        match (self.stage, reply) {
            (RenameStage::Inspect, RenameReply::Inspected { same, exists, destination }) => {
                if same {
                    self.at = self.at + 1;
                    self.settle();
                } else if exists {
                    let mut reason = String::from_str("Destination already exists: ");
                    reason.append(destination.as_str());
                    self.error = reason;
                    self.stage = RenameStage::Failed;
                } else {
                    self.stage = RenameStage::Move;
                }
                true
            },
            (RenameStage::Move, RenameReply::Moved(Ok(name))) => {
                let new_name = self.files[self.at].1.clone();
                self.renamed.push((name, new_name));
                assert(self@.renamed =~= old(self)@.renamed.push(
                    (name@, old(self)@.files[old(self).at as int].1),
                ));
                self.at = self.at + 1;
                self.settle();
                true
            },
            (RenameStage::Move, RenameReply::Moved(Err(reason))) => {
                self.error = reason;
                self.stage = RenameStage::Failed;
                true
            },
            _ => false,
        }
    }

    /// What the batch has come to.
    pub fn outcome(self) -> (outcome: Option<Result<Vec<(String, String)>, String>>)
        ensures
            match outcome {
                Some(Ok(renamed)) => self@.outcome() == Some(
                    Ok::<Seq<(Seq<char>, Seq<char>)>, Seq<char>>(pairs_view(renamed@)),
                ),
                Some(Err(reason)) => self@.outcome() == Some(
                    Err::<Seq<(Seq<char>, Seq<char>)>, Seq<char>>(reason@),
                ),
                None => self@.outcome() is None,
            },
    {
        match self.stage {
            RenameStage::Done => Some(Ok(self.renamed)),
            RenameStage::Failed => Some(Err(self.error)),
            _ => None,
        }
    }
}

/// Begins the renaming of `files`, each given with its new name, into
/// `output_dir`, or within their own directories where there is none.
pub fn rename_files(files: Vec<(PathBuf, String)>, output_dir: Option<PathBuf>) -> (batch:
    RenameBatch)
    ensures
        batch@ == RenameBatchView::started(
            files@.map_values(|f: (PathBuf, String)| (f.0, f.1@)),
            output_dir,
        ),
{
    let mut batch = RenameBatch {
        files,
        output_dir,
        at: 0,
        stage: RenameStage::Inspect,
        renamed: Vec::new(),
        error: String::new(),
    };
    assert(batch@.renamed =~= Seq::empty());
    batch.settle();
    batch
}

/// A destination at which something exists ends the batch with an error
/// that names it, and the moves made before it stay made and recorded:
/// once the batch has failed it asks for nothing and takes no answer.
pub proof fn lemma_collision_ends_batch(s: RenameBatchView, destination: Seq<char>)
    requires
        s.stage == RenameStage::Inspect,
        s.at < s.files.len(),
    ensures
        ({
            let hit = RenameReplyView::Inspected { same: false, exists: true, destination };
            let end = s.next(hit);
            &&& s.accepts(hit)
            &&& end.outcome() == Some(
                Err::<Seq<(Seq<char>, Seq<char>)>, Seq<char>>(collision_text(destination)),
            )
            &&& end.renamed == s.renamed
            &&& end.request() == RenameRequest::Finished
            &&& forall|replies: Seq<RenameReplyView>| #[trigger] end.run(replies) == end
        }),
{
    let hit = RenameReplyView::Inspected { same: false, exists: true, destination };
    let end = s.next(hit);
    assert forall|replies: Seq<RenameReplyView>| #[trigger] end.run(replies) == end by {
        lemma_failed_stays(end, replies);
    }
}

/// A batch that has failed or is done stays as it is.
pub proof fn lemma_failed_stays(s: RenameBatchView, replies: Seq<RenameReplyView>)
    requires
        s.stage == RenameStage::Failed || s.stage == RenameStage::Done,
    ensures
        s.run(replies) == s,
    decreases replies.len(),
{
    if replies.len() > 0 {
        lemma_failed_stays(s, replies.skip(1));
    }
}

/// The record of moves only grows: what a batch has moved is at the
/// beginning of the record of every later state, and each file is looked
/// at before it is moved.
pub proof fn lemma_moves_recorded(s: RenameBatchView, replies: Seq<RenameReplyView>)
    requires
        s.files.len() <= usize::MAX,
    ensures
        s.renamed.is_prefix_of(s.run(replies).renamed),
        s.run(replies).files == s.files,
        s.at <= s.run(replies).at,
    decreases replies.len(),
{
    if replies.len() > 0 {
        if s.accepts(replies[0]) {
            let n = s.next(replies[0]);
            lemma_moves_recorded(n, replies.skip(1));
            assert(s.renamed.is_prefix_of(n.renamed));
        } else {
            lemma_moves_recorded(s, replies.skip(1));
        }
    }
}


/// Squeezing keeps what holds of every character, keeps the last
/// character, and leaves no two spaces side by side.
proof fn lemma_squeezed(s: Seq<char>, holds: spec_fn(char) -> bool)
    requires
        forall|i: int| 0 <= i < s.len() ==> holds(#[trigger] s[i]),
    ensures
        forall|i: int| 0 <= i < squeezed(s).len() ==> holds(#[trigger] squeezed(s)[i]),
        s.len() > 0 ==> squeezed(s).len() > 0 && squeezed(s).last() == s.last(),
        forall|i: int|
            0 < i < squeezed(s).len() ==> !(squeezed(s)[i - 1] == ' ' && #[trigger] squeezed(s)[i]
                == ' '),
    decreases s.len(),
{
    if s.len() > 0 {
        let front = s.drop_last();
        assert forall|i: int| 0 <= i < front.len() implies holds(#[trigger] front[i]) by {
            assert(front[i] == s[i]);
        }
        lemma_squeezed(front, holds);
        if s.len() >= 2 {
            assert(front.last() == s[s.len() - 2]);
        }
        let q = squeezed(s);
        let before = squeezed(front);
        assert forall|i: int| 0 <= i < q.len() implies holds(#[trigger] q[i]) by {
            if i < before.len() {
                assert(q[i] == before[i]);
            }
        }
        assert forall|i: int| 0 < i < q.len() implies !(q[i - 1] == ' ' && #[trigger] q[i]
            == ' ') by {
            if i < before.len() {
                assert(q[i] == before[i]);
                assert(q[i - 1] == before[i - 1]);
            } else {
                assert(q[i - 1] == before[i - 1]);
            }
        }
    }
}

/// A sanitized text holds no forbidden character and no two spaces side
/// by side, and neither begins nor ends with white space.
pub proof fn lemma_sanitized(s: Seq<char>)
    ensures
        forall|i: int| 0 <= i < sanitized(s).len() ==> !is_forbidden(#[trigger] sanitized(s)[i]),
        forall|i: int|
            0 < i < sanitized(s).len() ==> !(sanitized(s)[i - 1] == ' ' && #[trigger] sanitized(
                s,
            )[i] == ' '),
        sanitized(s).len() > 0 ==> !is_whitespace(sanitized(s)[0]) && !is_whitespace(
            sanitized(s).last(),
        ),
{
    let allowed = |c: char| !is_forbidden(c);
    let kept = permitted(s);
    assert forall|i: int| 0 <= i < kept.len() implies allowed(#[trigger] kept[i]) by {
        s.lemma_filter_pred(allowed, i);
    }
    lemma_squeezed(kept, allowed);
    let q = squeezed(kept);
    lemma_whitespace_bounds(q);
    let from = leading_whitespace(q) as int;
    let rest = q.skip(from);
    lemma_whitespace_bounds(rest);
    let t = sanitized(s);
    assert(t == rest.take(rest.len() - trailing_whitespace(rest)));
    assert forall|i: int| 0 <= i < t.len() implies !is_forbidden(#[trigger] t[i]) by {
        assert(t[i] == q[from + i]);
        assert(allowed(q[from + i]));
    }
    assert forall|i: int| 0 < i < t.len() implies !(t[i - 1] == ' ' && #[trigger] t[i] == ' ') by {
        assert(t[i] == q[from + i]);
        assert(t[i - 1] == q[from + i - 1]);
    }
    if t.len() > 0 {
        assert(t[0] == rest[0]);
        assert(t.last() == rest[rest.len() - trailing_whitespace(rest) - 1]);
    }
}

/// A new name ends with a dot and the file's extension.
pub proof fn lemma_rendered_extension(
    file: MediaFileView,
    metadata: MediaMetadataView,
    pattern: RenamePatternView,
)
    ensures
        ends_with(rendered(file, metadata, pattern), "."@ + file.extension),
{
    let name = rendered(file, metadata, pattern);
    let tail = "."@ + file.extension;
    assert(name.subrange(name.len() - tail.len(), name.len() as int) =~= tail);
}

} // verus!
