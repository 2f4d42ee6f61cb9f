//! Reading media information out of filenames.
//!
//! A filename is cut at its last dot and its separators become spaces.
//! Patterns are then tried in a fixed order and the first that matches
//! decides: season and episode together, an episode alone, a title with a
//! year, and at last the whole name as a title of unknown kind.

use crate::matcher::{
    after, before, captured, captures, is_match, matched, replace_all, slice, substituted,
    Captured, Span,
};
use crate::model::{text_of, MediaType, ParsedMediaInfo, ParsedMediaInfoView};
use crate::text::{
    from_chars, parse_u32, parsed_u32, squeeze_whitespace, squeezed_whitespace, to_chars, trim,
    trimmed,
};
use vstd::prelude::*;
use vstd::string::*;

verus! {

/// The position of the last `c` in `s`.
pub open spec fn last_index_of(s: Seq<char>, c: char) -> Option<int>
    decreases s.len(),
{
    if s.len() == 0 {
        None
    } else if s.last() == c {
        Some(s.len() - 1)
    } else {
        last_index_of(s.drop_last(), c)
    }
}

/// A filename without its extension: what stands before the last dot, or
/// the whole name where it has no dot.
pub open spec fn stem_of(filename: Seq<char>) -> Seq<char> {
    match last_index_of(filename, '.') {
        Some(dot) => filename.take(dot),
        None => filename,
    }
}

/// The characters that separate words in filenames.
pub open spec fn is_separator(c: char) -> bool {
    c == '.' || c == '_' || c == '-'
}

/// `stem` with a space in place of each separator.
pub open spec fn normalized(stem: Seq<char>) -> Seq<char> {
    stem.map_values(
        |c: char|
            if is_separator(c) {
                ' '
            } else {
                c
            },
    )
}

/// Cuts the extension off a filename and puts spaces for its separators.
/// Returns the stem and the stem with spaces.
pub fn normalize(filename: &str) -> (parts: (String, String))
    ensures
        parts.0@ == stem_of(filename@),
        parts.1@ == normalized(stem_of(filename@)),
{
    let chars = to_chars(filename);
    let mut end: usize = chars.len();
    assert(chars@.take(chars@.len() as int) =~= chars@);
    while end > 0 && chars[end - 1] != '.'
        invariant
            end <= chars.len(),
            last_index_of(chars@, '.') == last_index_of(chars@.take(end as int), '.'),
        decreases end,
    {
        assert(chars@.take(end as int).drop_last() =~= chars@.take(end - 1));
        end -= 1;
    }
    let stop: usize = if end == 0 {
        chars.len()
    } else {
        end - 1
    };
    let mut stem: Vec<char> = Vec::new();
    let mut spaced: Vec<char> = Vec::new();
    let mut i: usize = 0;
    while i < stop
        invariant
            i <= stop <= chars.len(),
            stem@ == chars@.take(i as int),
            spaced@ == normalized(chars@.take(i as int)),
        decreases stop - i,
    {
        let c = chars[i];
        stem.push(c);
        spaced.push(
            if c == '.' || c == '_' || c == '-' {
                ' '
            } else {
                c
            },
        );
        assert(stem@ =~= chars@.take(i + 1));
        assert(spaced@ =~= normalized(chars@.take(i + 1)));
        i += 1;
    }
    (from_chars(&stem), from_chars(&spaced))
}

/// The patterns of what is cut out of a title, in the order in which they
/// are applied: resolutions, sources, codecs, audio formats, editions,
/// channel layouts, and anything in square or round brackets.
pub open spec fn noise_patterns() -> Seq<Seq<char>> {
    seq![
        r"(?i)\b(720p|1080p|2160p|4k|uhd)\b"@,
        r"(?i)\b(bluray|bdrip|brrip|webrip|web-dl|hdtv|dvdrip|hdrip)\b"@,
        r"(?i)\b(x264|x265|h264|h265|hevc|avc|xvid)\b"@,
        r"(?i)\b(aac|ac3|dts|dts-hd|atmos|truehd|flac|mp3)\b"@,
        r"(?i)\b(proper|repack|extended|unrated|directors cut)\b"@,
        r"(?i)\b(multi|dual|5\.1|7\.1)\b"@,
        r"\[.*?\]"@,
        r"\(.*?\)"@,
    ]
}

/// `text` with a space in place of each match of each of `patterns`, one
/// pattern after the other.
pub open spec fn stripped(text: Seq<char>, patterns: Seq<Seq<char>>) -> Seq<char>
    decreases patterns.len(),
{
    if patterns.len() == 0 {
        text
    } else {
        substituted(patterns.last(), stripped(text, patterns.drop_last()), " "@)
    }
}

/// `text` with each run of white space made one space, and none at its
/// ends.
pub open spec fn tidied(text: Seq<char>) -> Seq<char> {
    trimmed(squeezed_whitespace(text))
}

/// A title without its noise.
pub open spec fn cleaned(title: Seq<char>) -> Seq<char> {
    tidied(stripped(title, noise_patterns()))
}

/// The views of a list of patterns.
pub open spec fn patterns_view(patterns: Seq<&'static str>) -> Seq<Seq<char>> {
    patterns.map_values(|p: &'static str| p@)
}

/// Puts a space in place of each match of each of `patterns`.
pub fn strip(text: &str, patterns: &[&'static str]) -> (out: String)
    ensures
        out@ == stripped(text@, patterns_view(patterns@)),
{
    let mut out = text.to_owned();
    let mut i: usize = 0;
    while i < patterns.len()
        invariant
            i <= patterns.len(),
            out@ == stripped(text@, patterns_view(patterns@).take(i as int)),
        decreases patterns.len() - i,
    {
        assert(patterns_view(patterns@).take(i + 1).drop_last() =~= patterns_view(patterns@).take(
            i as int,
        ));
        out = replace_all(patterns[i], out.as_str(), " ");
        i += 1;
    }
    assert(patterns_view(patterns@).take(patterns@.len() as int) =~= patterns_view(patterns@));
    out
}

/// Makes each run of white space one space and removes it at the ends.
pub fn tidy(text: &str) -> (out: String)
    ensures
        out@ == tidied(text@),
{
    from_chars(&trim(&squeeze_whitespace(&to_chars(text))))
}

/// Cleans a title: cuts out what `noise_patterns` describe, then tidies
/// the white space.
pub fn clean_title(title: &str) -> (out: String)
    ensures
        out@ == cleaned(title@),
{
    let patterns: [&'static str; 8] = [
        r"(?i)\b(720p|1080p|2160p|4k|uhd)\b",
        r"(?i)\b(bluray|bdrip|brrip|webrip|web-dl|hdtv|dvdrip|hdrip)\b",
        r"(?i)\b(x264|x265|h264|h265|hevc|avc|xvid)\b",
        r"(?i)\b(aac|ac3|dts|dts-hd|atmos|truehd|flac|mp3)\b",
        r"(?i)\b(proper|repack|extended|unrated|directors cut)\b",
        r"(?i)\b(multi|dual|5\.1|7\.1)\b",
        r"\[.*?\]",
        r"\(.*?\)",
    ];
    assert(patterns_view(patterns@) =~= noise_patterns());
    let bare = strip(title, patterns.as_slice());
    tidy(bare.as_str())
}

/// Cleans the text that follows the episode's number.
pub fn extract_episode_title(text: &str) -> (out: String)
    ensures
        out@ == cleaned(text@),
{
    clean_title(text)
}

/// The resolution tags and their labels, in the order of their precedence.
pub open spec fn quality_tags() -> Seq<(Seq<char>, Seq<char>)> {
    seq![
        (r"(?i)\b2160p\b"@, "2160p"@),
        (r"(?i)\b4k\b"@, "4K"@),
        (r"(?i)\buhd\b"@, "UHD"@),
        (r"(?i)\b1080p\b"@, "1080p"@),
        (r"(?i)\b720p\b"@, "720p"@),
        (r"(?i)\b480p\b"@, "480p"@),
    ]
}

/// The source tags and their labels, in the order of their precedence.
pub open spec fn source_tags() -> Seq<(Seq<char>, Seq<char>)> {
    seq![
        (r"(?i)\bbluray\b"@, "BluRay"@),
        (r"(?i)\bbdrip\b"@, "BDRip"@),
        (r"(?i)\bweb-?dl\b"@, "WEB-DL"@),
        (r"(?i)\bwebrip\b"@, "WEBRip"@),
        (r"(?i)\bhdtv\b"@, "HDTV"@),
        (r"(?i)\bdvdrip\b"@, "DVDRip"@),
    ]
}

/// The codec tags and their labels, in the order of their precedence.
pub open spec fn codec_tags() -> Seq<(Seq<char>, Seq<char>)> {
    seq![
        (r"(?i)\bx265\b"@, "x265"@),
        (r"(?i)\bhevc\b"@, "HEVC"@),
        (r"(?i)\bh\.?265\b"@, "H.265"@),
        (r"(?i)\bx264\b"@, "x264"@),
        (r"(?i)\bh\.?264\b"@, "H.264"@),
        (r"(?i)\bavc\b"@, "AVC"@),
    ]
}

/// The audio tags and their labels, in the order of their precedence.
pub open spec fn audio_tags() -> Seq<(Seq<char>, Seq<char>)> {
    seq![
        (r"(?i)\bdts-?hd\b"@, "DTS-HD"@),
        (r"(?i)\batmos\b"@, "Atmos"@),
        (r"(?i)\btruehd\b"@, "TrueHD"@),
        (r"(?i)\bdts\b"@, "DTS"@),
        (r"(?i)\bac3\b"@, "AC3"@),
        (r"(?i)\baac\b"@, "AAC"@),
        (r"(?i)\bflac\b"@, "FLAC"@),
    ]
}

/// The label of the first entry of `tags`, from `from` on, whose pattern
/// matches in `text`.
pub open spec fn first_tag(tags: Seq<(Seq<char>, Seq<char>)>, text: Seq<char>, from: int)
    -> Option<Seq<char>>
    decreases tags.len() - from,
{
    if from < 0 || from >= tags.len() {
        None
    } else if matched(tags[from].0, text) {
        Some(tags[from].1)
    } else {
        first_tag(tags, text, from + 1)
    }
}

/// The views of a list of tags.
pub open spec fn tags_view(tags: Seq<(&'static str, &'static str)>) -> Seq<(Seq<char>, Seq<char>)> {
    tags.map_values(|t: (&'static str, &'static str)| (t.0@, t.1@))
}

/// Finds the label of the first of `tags` whose pattern matches in `text`.
pub fn find_tag(tags: &[(&'static str, &'static str)], text: &str) -> (label: Option<String>)
    ensures
        text_of(label) == first_tag(tags_view(tags@), text@, 0),
{
    let mut i: usize = 0;
    while i < tags.len()
        invariant
            i <= tags.len(),
            first_tag(tags_view(tags@), text@, 0) == first_tag(tags_view(tags@), text@, i as int),
        decreases tags.len() - i,
    {
        if is_match(tags[i].0, text) {
            return Some(tags[i].1.to_owned());
        }
        i += 1;
    }
    None
}

/// The pattern of a release group: a dash and letters or digits at the
/// very end.
pub open spec fn group_pattern() -> Seq<char> {
    r"-([A-Za-z0-9]+)$"@
}

/// What is no release group though it stands where one would.
pub open spec fn not_groups() -> Seq<Seq<char>> {
    seq!["720p"@, "1080p"@, "2160p"@, "x264"@, "x265"@, "HEVC"@, "AAC"@, "DTS"@]
}

/// `c` in lower case where it is an upper-case ASCII letter.
pub open spec fn ascii_lower(c: char) -> char {
    if 'A' <= c <= 'Z' {
        ((c as u8) + 32) as char
    } else {
        c
    }
}

/// Whether `a` and `b` are equal but for the case of ASCII letters.
pub open spec fn same_ignoring_case(a: Seq<char>, b: Seq<char>) -> bool {
    &&& a.len() == b.len()
    &&& forall|i: int| 0 <= i < a.len() ==> ascii_lower(#[trigger] a[i]) == ascii_lower(b[i])
}

/// Whether one of `words` is `name` but for the case of ASCII letters.
pub open spec fn listed(words: Seq<Seq<char>>, name: Seq<char>) -> bool {
    exists|i: int| 0 <= i < words.len() && same_ignoring_case(#[trigger] words[i], name)
}

/// The release group that a match of `group_pattern` names, if it names
/// one.
pub open spec fn group_named(text: Seq<char>, found: Option<Captured>) -> Option<Seq<char>> {
    match found {
        Some(Captured { first: Some(span), .. }) => if listed(not_groups(), span.of(text)) {
            None
        } else {
            Some(span.of(text))
        },
        _ => None,
    }
}

/// The release group at the end of `text`.
pub open spec fn release_group(text: Seq<char>) -> Option<Seq<char>> {
    group_named(trimmed(text), captured(group_pattern(), trimmed(text)))
}

/// Tests whether `a` and `b` are equal but for the case of ASCII letters.
pub fn eq_ignoring_case(a: &Vec<char>, b: &Vec<char>) -> (same: bool)
    ensures
        same == same_ignoring_case(a@, b@),
{
    if a.len() != b.len() {
        return false;
    }
    let mut i: usize = 0;
    while i < a.len()
        invariant
            i <= a.len(),
            a.len() == b.len(),
            forall|j: int| 0 <= j < i ==> ascii_lower(#[trigger] a@[j]) == ascii_lower(b@[j]),
        decreases a.len() - i,
    {
        let x = a[i];
        let y = b[i];
        let lx = if 'A' <= x && x <= 'Z' {
            ((x as u8) + 32) as char
        } else {
            x
        };
        let ly = if 'A' <= y && y <= 'Z' {
            ((y as u8) + 32) as char
        } else {
            y
        };
        if lx != ly {
            return false;
        }
        i += 1;
    }
    true
}

/// Reads the release group off a match of `group_pattern` in `text`.
pub fn group_from_match(text: &str, found: Option<Captured>) -> (group: Option<String>)
    requires
        found matches Some(c) ==> c.fits(text@),
    ensures
        text_of(group) == group_named(text@, found),
{
    let span = match found {
        Some(Captured { first: Some(span), .. }) => span,
        _ => { return None; },
    };
    let name = slice(text, span);
    let letters = to_chars(name);
    let words: [&'static str; 8] = ["720p", "1080p", "2160p", "x264", "x265", "HEVC", "AAC", "DTS"];
    assert(patterns_view(words@) =~= not_groups());
    let mut i: usize = 0;
    while i < words.len()
        invariant
            i <= words.len(),
            patterns_view(words@) == not_groups(),
            letters@ == span.of(text@),
            found matches Some(c) && c.first == Some(span),
            forall|j: int| 0 <= j < i ==> !same_ignoring_case(#[trigger] not_groups()[j], letters@),
        decreases words.len() - i,
    {
        let word = to_chars(words[i]);
        assert(word@ == not_groups()[i as int]);
        if eq_ignoring_case(&word, &letters) {
            assert(0 <= i < not_groups().len() && same_ignoring_case(
                not_groups()[i as int],
                letters@,
            ));
            return None;
        }
        i += 1;
    }
    Some(name.to_owned())
}

/// `info` with the tags that `text` holds: in each category the first tag
/// of the category's list that occurs anywhere in `text`, and the release
/// group at its end. What `text` does not hold stays as it is.
pub open spec fn tagged(info: ParsedMediaInfoView, text: Seq<char>) -> ParsedMediaInfoView {
    ParsedMediaInfoView {
        quality: either(first_tag(quality_tags(), text, 0), info.quality),
        source: either(first_tag(source_tags(), text, 0), info.source),
        codec: either(first_tag(codec_tags(), text, 0), info.codec),
        audio: either(first_tag(audio_tags(), text, 0), info.audio),
        group: either(release_group(text), info.group),
        ..info
    }
}

/// `found` where it is there, else `kept`.
pub open spec fn either(found: Option<Seq<char>>, kept: Option<Seq<char>>) -> Option<Seq<char>> {
    if found is Some {
        found
    } else {
        kept
    }
}

/// Reads quality, source, codec, audio format and release group out of
/// `text` into `info`.
///
/// Each category takes the first tag of its list that occurs anywhere in
/// `text`, whatever stands first in `text`. A release group needs a dash
/// before it: in a name that `normalize` has put spaces into, none is
/// left to find.
pub fn extract_quality_info(text: &str, info: &mut ParsedMediaInfo)
    ensures
        final(info)@ == tagged(old(info)@, text@),
{
    let quality: [(&'static str, &'static str); 6] = [
        (r"(?i)\b2160p\b", "2160p"),
        (r"(?i)\b4k\b", "4K"),
        (r"(?i)\buhd\b", "UHD"),
        (r"(?i)\b1080p\b", "1080p"),
        (r"(?i)\b720p\b", "720p"),
        (r"(?i)\b480p\b", "480p"),
    ];
    assert(tags_view(quality@) =~= quality_tags());
    let found = find_tag(quality.as_slice(), text);
    if found.is_some() {
        info.quality = found;
    }
    let source: [(&'static str, &'static str); 6] = [
        (r"(?i)\bbluray\b", "BluRay"),
        (r"(?i)\bbdrip\b", "BDRip"),
        (r"(?i)\bweb-?dl\b", "WEB-DL"),
        (r"(?i)\bwebrip\b", "WEBRip"),
        (r"(?i)\bhdtv\b", "HDTV"),
        (r"(?i)\bdvdrip\b", "DVDRip"),
    ];
    assert(tags_view(source@) =~= source_tags());
    let found = find_tag(source.as_slice(), text);
    if found.is_some() {
        info.source = found;
    }
    let codec: [(&'static str, &'static str); 6] = [
        (r"(?i)\bx265\b", "x265"),
        (r"(?i)\bhevc\b", "HEVC"),
        (r"(?i)\bh\.?265\b", "H.265"),
        (r"(?i)\bx264\b", "x264"),
        (r"(?i)\bh\.?264\b", "H.264"),
        (r"(?i)\bavc\b", "AVC"),
    ];
    assert(tags_view(codec@) =~= codec_tags());
    let found = find_tag(codec.as_slice(), text);
    if found.is_some() {
        info.codec = found;
    }
    let audio: [(&'static str, &'static str); 7] = [
        (r"(?i)\bdts-?hd\b", "DTS-HD"),
        (r"(?i)\batmos\b", "Atmos"),
        (r"(?i)\btruehd\b", "TrueHD"),
        (r"(?i)\bdts\b", "DTS"),
        (r"(?i)\bac3\b", "AC3"),
        (r"(?i)\baac\b", "AAC"),
        (r"(?i)\bflac\b", "FLAC"),
    ];
    assert(tags_view(audio@) =~= audio_tags());
    let found = find_tag(audio.as_slice(), text);
    if found.is_some() {
        info.audio = found;
    }
    let ends = from_chars(&trim(&to_chars(text)));
    let found = group_from_match(ends.as_str(), captures(r"-([A-Za-z0-9]+)$", ends.as_str()));
    if found.is_some() {
        info.group = found;
    }
}

/// The patterns that give season and episode together, in the order in
/// which they are tried: `S01E02`, `1x02`, `Season 1 ... Episode 2`.
pub open spec fn season_episode_patterns() -> Seq<Seq<char>> {
    seq![
        r"(?i)[Ss](\d{1,2})[Ee](\d{1,2})"@,
        r"(?i)(\d{1,2})[xX](\d{1,2})"@,
        r"(?i)Season\s*(\d{1,2}).*Episode\s*(\d{1,2})"@,
    ]
}

/// The patterns that give an episode alone, in the order in which they
/// are tried: `Episode 12`, `Ep.12`, `E12`.
pub open spec fn episode_patterns() -> Seq<Seq<char>> {
    seq![r"(?i)Episode\s*(\d{1,3})"@, r"(?i)\bEp\.?\s*(\d{1,3})"@, r"(?i)\bE(\d{1,3})\b"@]
}

/// The pattern of a title that a year of four digits follows.
pub open spec fn movie_pattern() -> Seq<char> {
    r"(.+?)[\s\.\-_]+\(?(\d{4})\)?"@
}

/// The first year that counts as one.
pub const FIRST_YEAR: u32 = 1900;

/// The last year that counts as one.
pub const LAST_YEAR: u32 = 2030;

/// Whether a match has the groups that are asked of it: the first, and
/// the second too where `both` is set.
pub open spec fn has_groups(found: Captured, both: bool) -> bool {
    found.first is Some && (both ==> found.second is Some)
}

/// The match of the first of `patterns`, from `from` on, that matches in
/// `text` with the groups asked for.
pub open spec fn first_capture(patterns: Seq<Seq<char>>, text: Seq<char>, both: bool, from: int)
    -> Option<Captured>
    decreases patterns.len() - from,
{
    if from < 0 || from >= patterns.len() {
        None
    } else {
        match captured(patterns[from], text) {
            Some(found) if has_groups(found, both) => Some(found),
            _ => first_capture(patterns, text, both, from + 1),
        }
    }
}

/// The text that `found` holds if it is not empty.
pub open spec fn unless_empty(found: Seq<char>) -> Option<Seq<char>> {
    if found.len() > 0 {
        Some(found)
    } else {
        None
    }
}

/// What a name says that holds an episode marker at `marker`: the title
/// stands before the marker and the episode's title after it, and the
/// tags are looked for in the whole name.
pub open spec fn episode_info(
    text: Seq<char>,
    marker: Span,
    season: Option<u32>,
    episode: Option<u32>,
) -> ParsedMediaInfoView {
    tagged(
        ParsedMediaInfoView {
            title: cleaned(trimmed(marker.before(text))),
            season,
            episode,
            episode_title: unless_empty(cleaned(trimmed(marker.after(text)))),
            ..ParsedMediaInfoView::empty()
        },
        text,
    )
}

/// The year that `digits` denote, if it is one between `FIRST_YEAR` and
/// `LAST_YEAR`.
pub open spec fn year_of(digits: Seq<char>) -> Option<u32> {
    match parsed_u32(digits) {
        Some(year) if FIRST_YEAR <= year <= LAST_YEAR => Some(year),
        _ => None,
    }
}

/// The title and the year of a name that matches `movie_pattern` with a
/// year that counts as one.
pub open spec fn movie_of(text: Seq<char>, found: Option<Captured>) -> Option<(Seq<char>, u32)> {
    match found {
        Some(Captured { first: Some(title), second: Some(digits), .. }) => match year_of(
            digits.of(text),
        ) {
            Some(year) => Some((title.of(text), year)),
            None => None,
        },
        _ => None,
    }
}

/// What a name of a movie says.
pub open spec fn movie_info(text: Seq<char>, title: Seq<char>, year: u32) -> ParsedMediaInfoView {
    tagged(
        ParsedMediaInfoView {
            title: cleaned(title),
            year: Some(year),
            ..ParsedMediaInfoView::empty()
        },
        text,
    )
}

/// What a name says in which nothing was recognised.
pub open spec fn unknown_info(text: Seq<char>) -> ParsedMediaInfoView {
    tagged(ParsedMediaInfoView { title: cleaned(text), ..ParsedMediaInfoView::empty() }, text)
}

/// The number that stands at `span`, where it is there.
pub open spec fn number_at(text: Seq<char>, span: Option<Span>) -> Option<u32> {
    match span {
        Some(span) => parsed_u32(span.of(text)),
        None => None,
    }
}

/// The kind of media and the information that a normalised name holds.
pub open spec fn classified(text: Seq<char>) -> (MediaType, ParsedMediaInfoView) {
    match first_capture(season_episode_patterns(), text, true, 0) {
        Some(found) => (
            MediaType::TvShow,
            episode_info(
                text,
                found.whole,
                number_at(text, found.first),
                number_at(text, found.second),
            ),
        ),
        None => match first_capture(episode_patterns(), text, false, 0) {
            Some(found) => (
                MediaType::TvShow,
                episode_info(text, found.whole, Some(1), number_at(text, found.first)),
            ),
            None => match movie_of(text, captured(movie_pattern(), text)) {
                Some((title, year)) => (MediaType::Movie, movie_info(text, title, year)),
                None => (MediaType::Unknown, unknown_info(text)),
            },
        },
    }
}

/// The kind of media and the information that a filename holds.
pub open spec fn parsed(filename: Seq<char>) -> (MediaType, ParsedMediaInfoView) {
    classified(normalized(stem_of(filename)))
}

/// Searches `text` with each of `patterns` in turn until one matches with
/// the groups asked for.
pub fn capture_first(patterns: &[&'static str], text: &str, both: bool) -> (found: Option<
    Captured,
>)
    ensures
        found == first_capture(patterns_view(patterns@), text@, both, 0),
        found matches Some(c) ==> c.fits(text@),
{
    let mut i: usize = 0;
    while i < patterns.len()
        invariant
            i <= patterns.len(),
            first_capture(patterns_view(patterns@), text@, both, 0) == first_capture(
                patterns_view(patterns@),
                text@,
                both,
                i as int,
            ),
        decreases patterns.len() - i,
    {
        match captures(patterns[i], text) {
            Some(found) => {
                if found.first.is_some() && (!both || found.second.is_some()) {
                    return Some(found);
                }
            },
            None => {},
        }
        i += 1;
    }
    None
}

/// Reads the number that stands at `span`.
pub fn read_number(text: &str, span: Option<Span>) -> (number: Option<u32>)
    requires
        span matches Some(s) ==> s.fits(text@),
    ensures
        number == number_at(text@, span),
{
    match span {
        Some(span) => parse_u32(&to_chars(slice(text, span))),
        None => None,
    }
}

/// Builds the information of a name that holds an episode marker at
/// `marker`.
pub fn episode_from_match(
    text: &str,
    marker: Span,
    season: Option<u32>,
    episode: Option<u32>,
) -> (info: ParsedMediaInfo)
    requires
        marker.fits(text@),
    ensures
        info@ == episode_info(text@, marker, season, episode),
{
    let title = clean_title(from_chars(&trim(&to_chars(before(text, marker)))).as_str());
    let rest = clean_title(from_chars(&trim(&to_chars(after(text, marker)))).as_str());
    let mut info = ParsedMediaInfo::default();
    info.title = title;
    info.season = season;
    info.episode = episode;
    if !rest.as_str().is_empty() {
        info.episode_title = Some(rest);
    }
    extract_quality_info(text, &mut info);
    info
}

/// Reads the year that `digits` denote.
pub fn read_year(digits: &str) -> (year: Option<u32>)
    ensures
        year == year_of(digits@),
{
    match parse_u32(&to_chars(digits)) {
        Some(year) => if FIRST_YEAR <= year && year <= LAST_YEAR {
            Some(year)
        } else {
            None
        },
        None => None,
    }
}

/// Reads title and year off a match of `movie_pattern`.
pub fn movie_from_match(text: &str, found: Option<Captured>) -> (movie: Option<(String, u32)>)
    requires
        found matches Some(c) ==> c.fits(text@),
    ensures
        match movie {
            Some((title, year)) => movie_of(text@, found) == Some((title@, year)),
            None => movie_of(text@, found) is None,
        },
{
    match found {
        Some(Captured { first: Some(title), second: Some(digits), .. }) => match read_year(
            slice(text, digits),
        ) {
            Some(year) => Some((slice(text, title).to_owned(), year)),
            None => None,
        },
        _ => None,
    }
}

/// Classifies a normalised name and reads its information.
pub fn classify(text: &str) -> (result: (MediaType, ParsedMediaInfo))
    ensures
        result.0 == classified(text@).0,
        result.1@ == classified(text@).1,
{
    let both: [&'static str; 3] = [
        r"(?i)[Ss](\d{1,2})[Ee](\d{1,2})",
        r"(?i)(\d{1,2})[xX](\d{1,2})",
        r"(?i)Season\s*(\d{1,2}).*Episode\s*(\d{1,2})",
    ];
    assert(patterns_view(both@) =~= season_episode_patterns());
    if let Some(found) = capture_first(both.as_slice(), text, true) {
        let season = read_number(text, found.first);
        let episode = read_number(text, found.second);
        return (MediaType::TvShow, episode_from_match(text, found.whole, season, episode));
    }
    let alone: [&'static str; 3] = [
        r"(?i)Episode\s*(\d{1,3})",
        r"(?i)\bEp\.?\s*(\d{1,3})",
        r"(?i)\bE(\d{1,3})\b",
    ];
    assert(patterns_view(alone@) =~= episode_patterns());
    if let Some(found) = capture_first(alone.as_slice(), text, false) {
        let episode = read_number(text, found.first);
        return (MediaType::TvShow, episode_from_match(text, found.whole, Some(1), episode));
    }
    let mut info = ParsedMediaInfo::default();
    match movie_from_match(text, captures(r"(.+?)[\s\.\-_]+\(?(\d{4})\)?", text)) {
        Some((title, year)) => {
            info.title = clean_title(title.as_str());
            info.year = Some(year);
            extract_quality_info(text, &mut info);
            (MediaType::Movie, info)
        },
        None => {
            info.title = clean_title(text);
            extract_quality_info(text, &mut info);
            (MediaType::Unknown, info)
        },
    }
}

/// Reads the kind of media and the information that a filename holds.
///
/// The name is normalised, then classified by the first pattern that
/// matches: see `classified`. Tags are looked for in the whole normalised
/// name, in which no dash is left, so that no release group is found.
pub fn parse_filename(filename: &str) -> (result: (MediaType, ParsedMediaInfo))
    ensures
        result.0 == parsed(filename@).0,
        result.1@ == parsed(filename@).1,
{
    let (_, text) = normalize(filename);
    classify(text.as_str())
}

} // verus!
