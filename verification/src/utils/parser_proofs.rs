//! What holds of every filename that is parsed, and of every title that
//! is cleaned.

use crate::matcher::{captured, Captured};
use crate::model::MediaType;
use crate::text::{
    decimal, decimal_two, is_whitespace, leading_whitespace, lemma_leading_whitespace,
    lemma_parse_decimal, lemma_trailing_whitespace, lemma_whitespace_bounds, squeezed_whitespace,
    trailing_whitespace, trimmed,
};
use crate::matcher::matched;
use crate::utils::filename_parser::{
    first_tag, is_separator, last_index_of,
    cleaned, episode_patterns, first_capture, has_groups, movie_pattern, noise_patterns,
    normalized, number_at, parsed, season_episode_patterns, stem_of, stripped, tidied, FIRST_YEAR,
    LAST_YEAR,
};
use vstd::prelude::*;

verus! {

/// Every white-space character of `s` is a space that follows a character
/// which is none.
pub open spec fn single_spaced(s: Seq<char>) -> bool {
    forall|i: int|
        0 <= i < s.len() && is_whitespace(#[trigger] s[i]) ==> s[i] == ' ' && (i > 0
            ==> !is_whitespace(s[i - 1]))
}

/// `s` is single spaced and neither begins nor ends with white space.
pub open spec fn is_tidy(s: Seq<char>) -> bool {
    &&& single_spaced(s)
    &&& s.len() > 0 ==> !is_whitespace(s[0]) && !is_whitespace(s.last())
}

proof fn lemma_squeezed_single_spaced(s: Seq<char>)
    ensures
        single_spaced(squeezed_whitespace(s)),
        squeezed_whitespace(s).len() == 0 <==> s.len() == 0,
        s.len() > 0 ==> (is_whitespace(squeezed_whitespace(s).last()) <==> is_whitespace(s.last())),
    decreases s.len(),
{
    if s.len() > 0 {
        lemma_squeezed_single_spaced(s.drop_last());
        let before = squeezed_whitespace(s.drop_last());
        let q = squeezed_whitespace(s);
        if s.len() >= 2 {
            assert(s.drop_last().last() == s[s.len() - 2]);
        }
        assert forall|i: int| 0 <= i < q.len() && is_whitespace(#[trigger] q[i]) implies q[i]
            == ' ' && (i > 0 ==> !is_whitespace(q[i - 1])) by {
            if i < before.len() {
                assert(q[i] == before[i]);
                if i > 0 {
                    assert(q[i - 1] == before[i - 1]);
                }
            }
        }
    }
}

proof fn lemma_single_spaced_squeezed(s: Seq<char>)
    requires
        single_spaced(s),
    ensures
        squeezed_whitespace(s) == s,
    decreases s.len(),
{
    if s.len() > 0 {
        let front = s.drop_last();
        assert forall|i: int| 0 <= i < front.len() && is_whitespace(#[trigger] front[i]) implies
            front[i] == ' ' && (i > 0 ==> !is_whitespace(front[i - 1])) by {
            assert(front[i] == s[i]);
        }
        lemma_single_spaced_squeezed(front);
        assert(is_whitespace(s.last()) ==> s[s.len() - 1] == ' ');
        assert(front.push(s.last()) =~= s);
    } else {
        assert(squeezed_whitespace(s) =~= s);
    }
}

/// Trimming a text that is single spaced leaves a tidy text.
proof fn lemma_trimmed_tidy(s: Seq<char>)
    requires
        single_spaced(s),
    ensures
        is_tidy(trimmed(s)),
{
    lemma_whitespace_bounds(s);
    let from = leading_whitespace(s) as int;
    let rest = s.skip(from);
    lemma_whitespace_bounds(rest);
    let t = trimmed(s);
    assert forall|i: int| 0 <= i < t.len() && is_whitespace(#[trigger] t[i]) implies t[i] == ' '
        && (i > 0 ==> !is_whitespace(t[i - 1])) by {
        assert(t[i] == s[from + i]);
        if i > 0 {
            assert(t[i - 1] == s[from + i - 1]);
        }
    }
    if t.len() > 0 {
        assert(t[0] == rest[0]);
        assert(t.last() == rest[rest.len() - trailing_whitespace(rest) - 1]);
    }
}

/// A tidy text stays as it is when it is tidied.
proof fn lemma_tidy_fixed(s: Seq<char>)
    requires
        is_tidy(s),
    ensures
        tidied(s) == s,
{
    lemma_single_spaced_squeezed(s);
    lemma_leading_whitespace(s, 0);
    assert(s.skip(0) =~= s);
    lemma_trailing_whitespace(s, 0);
    assert(s.take(s.len() as int) =~= s);
}

/// Tidying white space yields a tidy text, and tidying twice changes
/// nothing more.
pub proof fn lemma_tidied_once(s: Seq<char>)
    ensures
        is_tidy(tidied(s)),
        tidied(tidied(s)) == tidied(s),
{
    lemma_squeezed_single_spaced(s);
    lemma_trimmed_tidy(squeezed_whitespace(s));
    lemma_tidy_fixed(tidied(s));
}

/// Cleaning a title a second time changes nothing, provided that the
/// cleaned title holds nothing more to cut out. (Where it does, as in a
/// title with two spaces between `directors` and `cut`, the second
/// cleaning cuts out what the first one's tidying has brought together.)
pub proof fn lemma_cleaned_once(title: Seq<char>)
    requires
        stripped(cleaned(title), noise_patterns()) == cleaned(title),
    ensures
        cleaned(cleaned(title)) == cleaned(title),
{
    lemma_tidied_once(stripped(title, noise_patterns()));
}

/// A name in which the first of the patterns for season and episode
/// matches, as in `Show.S01E02.mkv` or `show.s01e02.mkv`, is that of an
/// episode, and its season and episode are the numbers that the pattern's
/// two groups hold.
pub proof fn lemma_season_and_episode(filename: Seq<char>, found: Captured)
    requires
        captured(season_episode_patterns()[0], normalized(stem_of(filename))) == Some(found),
        has_groups(found, true),
    ensures
        parsed(filename).0 == MediaType::TvShow,
        parsed(filename).1.season == number_at(normalized(stem_of(filename)), found.first),
        parsed(filename).1.episode == number_at(normalized(stem_of(filename)), found.second),
        parsed(filename).1.year is None,
{
    let text = normalized(stem_of(filename));
    assert(first_capture(season_episode_patterns(), text, true, 0) == Some(found));
}

/// A name in which any pattern for episodes matches is that of an
/// episode; one in which only an episode's number is found belongs to
/// season 1.
pub proof fn lemma_episode_markers(filename: Seq<char>)
    ensures
        ({
            let text = normalized(stem_of(filename));
            let both = first_capture(season_episode_patterns(), text, true, 0);
            let alone = first_capture(episode_patterns(), text, false, 0);
            &&& both is Some || alone is Some <==> parsed(filename).0 == MediaType::TvShow
            &&& both is None && alone is Some ==> parsed(filename).1.season == Some(1u32)
        }),
{
}

/// A name without episode markers in which a title is followed by four
/// digits is that of a movie of that year where the digits denote a year
/// from `FIRST_YEAR` to `LAST_YEAR`, and of unknown kind and without a
/// year where they do not.
pub proof fn lemma_movie_with_year(filename: Seq<char>, found: Captured)
    requires
        first_capture(season_episode_patterns(), normalized(stem_of(filename)), true, 0) is None,
        first_capture(episode_patterns(), normalized(stem_of(filename)), false, 0) is None,
        captured(movie_pattern(), normalized(stem_of(filename))) == Some(found),
        has_groups(found, true),
    ensures
        ({
            let text = normalized(stem_of(filename));
            match number_at(text, found.second) {
                Some(year) if FIRST_YEAR <= year <= LAST_YEAR => {
                    &&& parsed(filename).0 == MediaType::Movie
                    &&& parsed(filename).1.year == Some(year)
                },
                _ => {
                    &&& parsed(filename).0 == MediaType::Unknown
                    &&& parsed(filename).1.year is None
                },
            }
        }),
{
}

/// The season and the episode that parsing gives are both there or both
/// missing, unless only an episode's number was found, and a year lies
/// between `FIRST_YEAR` and `LAST_YEAR`.
pub proof fn lemma_parsed_year(filename: Seq<char>)
    ensures
        parsed(filename).1.year matches Some(year) ==> FIRST_YEAR <= year <= LAST_YEAR,
        parsed(filename).0 != MediaType::TvShow ==> parsed(filename).1.season is None
            && parsed(filename).1.episode is None,
        parsed(filename).0 != MediaType::Movie ==> parsed(filename).1.year is None,
{
}

/// Numbers that a template writes, with two digits or as they are, are
/// read back as the same numbers wherever a pattern's groups cover them.
pub proof fn lemma_numbers_read_back(
    text: Seq<char>,
    found: Captured,
    season: u32,
    episode: u32,
)
    requires
        found.first matches Some(span) && (span.of(text) == decimal_two(season as nat) || span.of(
            text,
        ) == decimal(season as nat)),
        found.second matches Some(span) && (span.of(text) == decimal_two(episode as nat)
            || span.of(text) == decimal(episode as nat)),
    ensures
        number_at(text, found.first) == Some(season),
        number_at(text, found.second) == Some(episode),
{
    lemma_parse_decimal(season);
    lemma_parse_decimal(episode);
}


/// The stem of a filename is the filename up to its last dot, and holds
/// the whole filename where there is no dot.
pub proof fn lemma_stem(filename: Seq<char>)
    ensures
        stem_of(filename).is_prefix_of(filename),
        !filename.contains('.') ==> stem_of(filename) == filename,
        filename.contains('.') ==> {
            let dot = stem_of(filename).len() as int;
            &&& dot < filename.len()
            &&& filename[dot] == '.'
            &&& forall|i: int| dot < i < filename.len() ==> filename[i] != '.'
        },
{
    lemma_last_index_of(filename, '.');
}

proof fn lemma_last_index_of(s: Seq<char>, c: char)
    ensures
        match last_index_of(s, c) {
            Some(at) => 0 <= at < s.len() && s[at] == c && forall|i: int|
                at < i < s.len() ==> s[i] != c,
            None => !s.contains(c),
        },
    decreases s.len(),
{
    if s.len() > 0 && s.last() != c {
        lemma_last_index_of(s.drop_last(), c);
        match last_index_of(s.drop_last(), c) {
            Some(at) => {
                assert(s.drop_last()[at] == s[at]);
                assert forall|i: int| at < i < s.len() implies s[i] != c by {
                    if i < s.len() - 1 {
                        assert(s.drop_last()[i] == s[i]);
                    }
                }
            },
            None => {
                if s.contains(c) {
                    let i = choose|i: int| 0 <= i < s.len() && s[i] == c;
                    assert(s.drop_last()[i] == c);
                    assert(s.drop_last().contains(c));
                }
            },
        }
    }
}

/// A normalised stem is as long as the stem and holds no separator: where
/// the stem has one it has a space, and elsewhere what the stem has.
pub proof fn lemma_normalized(stem: Seq<char>)
    ensures
        normalized(stem).len() == stem.len(),
        forall|i: int|
            0 <= i < stem.len() ==> !is_separator(#[trigger] normalized(stem)[i]) && normalized(
                stem,
            )[i] == if is_separator(stem[i]) {
                ' '
            } else {
                stem[i]
            },
{
}

/// The tag of a category is the label of the first entry of the
/// category's list whose pattern matches, wherever in the text the match
/// is; there is none where no pattern of the list matches.
pub proof fn lemma_first_tag(tags: Seq<(Seq<char>, Seq<char>)>, text: Seq<char>, from: int)
    requires
        0 <= from,
    ensures
        match first_tag(tags, text, from) {
            Some(label) => exists|at: int|
                {
                    &&& from <= at < tags.len()
                    &&& #[trigger] tags[at] == (tags[at].0, label)
                    &&& matched(tags[at].0, text)
                    &&& forall|earlier: int|
                        from <= earlier < at ==> !matched((#[trigger] tags[earlier]).0, text)
                },
            None => forall|at: int| from <= at < tags.len() ==> !matched((#[trigger] tags[at]).0, text),
        },
    decreases tags.len() - from,
{
    if from < tags.len() {
        if matched(tags[from].0, text) {
            assert(tags[from] == (tags[from].0, tags[from].1));
        } else {
            lemma_first_tag(tags, text, from + 1);
            match first_tag(tags, text, from + 1) {
                Some(label) => {
                    let at = choose|at: int|
                        {
                            &&& from + 1 <= at < tags.len()
                            &&& #[trigger] tags[at] == (tags[at].0, label)
                            &&& matched(tags[at].0, text)
                            &&& forall|earlier: int|
                                from + 1 <= earlier < at ==> !matched(
                                    (#[trigger] tags[earlier]).0,
                                    text,
                                )
                        };
                    assert forall|earlier: int| from <= earlier < at implies !matched(
                        (#[trigger] tags[earlier]).0,
                        text,
                    ) by {}
                },
                None => {},
            }
        }
    }
}

} // verus!
