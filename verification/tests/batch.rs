use reel::model::{MediaMetadata, MediaType, Rating, SearchResult};
use reel::utils::tmdb::{
    batch_match_files, BatchFileInfo, BatchMatcher, EpisodeDetails, Reply, Request, Stage,
    BATCH_SIZE, PAUSE_MILLIS,
};

fn file(index: usize, title: &str, kind: MediaType, numbers: Option<(u32, u32)>) -> BatchFileInfo {
    BatchFileInfo {
        index,
        title: title.to_string(),
        year: None,
        season: numbers.map(|n| n.0),
        episode: numbers.map(|n| n.1),
        media_type: kind,
    }
}

fn hit(id: u64, title: &str, kind: MediaType) -> SearchResult {
    SearchResult {
        tmdb_id: id,
        title: title.to_string(),
        year: None,
        media_type: kind,
        overview: None,
        poster_path: None,
        vote_average: None,
    }
}

fn titled(id: u64, title: &str) -> MediaMetadata {
    MediaMetadata { tmdb_id: id, title: title.to_string(), ..Default::default() }
}

fn show(id: u64, name: &str) -> MediaMetadata {
    MediaMetadata {
        tmdb_id: id,
        title: name.to_string(),
        show_name: Some(name.to_string()),
        poster_path: Some("/show.jpg".to_string()),
        vote_average: Some(Rating { bits: 9.0f32.to_bits() }),
        ..Default::default()
    }
}

fn episode(name: &str) -> EpisodeDetails {
    EpisodeDetails {
        name: name.to_string(),
        overview: Some("what happens".to_string()),
        still_path: None,
        air_date: Some("2008-01-20".to_string()),
        vote_average: None,
    }
}

/// Counts of the requests that a lookup made.
struct Calls {
    movie_searches: usize,
    movie_details: usize,
    show_searches: usize,
    show_details: usize,
    episode_batches: usize,
    episodes_asked: usize,
    pauses: usize,
}

/// Runs a lookup to its end against a database that knows every title
/// but those that begin with `Missing`, and every episode but number 99.
fn run(matcher: &mut BatchMatcher) -> Calls {
    let mut calls = Calls {
        movie_searches: 0,
        movie_details: 0,
        show_searches: 0,
        show_details: 0,
        episode_batches: 0,
        episodes_asked: 0,
        pauses: 0,
    };
    let mut steps = 0;
    loop {
        steps += 1;
        assert!(steps < 1000);
        let reply = match matcher.request() {
            Request::SearchMovies { title, .. } => {
                calls.movie_searches += 1;
                if title.starts_with("Missing") {
                    Reply::Found(Ok(vec![]))
                } else if title.starts_with("Broken") {
                    Reply::Found(Err("Network error: down".to_string()))
                } else {
                    Reply::Found(Ok(vec![hit(7, &title, MediaType::Movie), hit(8, "other", MediaType::Movie)]))
                }
            },
            Request::MovieDetails { id } => {
                calls.movie_details += 1;
                Reply::Details(Ok(titled(id, "A Movie")))
            },
            Request::SearchTv { title, .. } => {
                calls.show_searches += 1;
                if title.starts_with("Missing") {
                    Reply::Found(Ok(vec![]))
                } else {
                    Reply::Found(Ok(vec![hit(1396, &title, MediaType::TvShow)]))
                }
            },
            Request::TvDetails { id } => {
                calls.show_details += 1;
                Reply::Details(Ok(show(id, "Breaking Bad")))
            },
            Request::Episodes { id, wanted } => {
                assert_eq!(id, 1396);
                assert!(wanted.len() <= BATCH_SIZE);
                assert!(!wanted.is_empty());
                calls.episode_batches += 1;
                calls.episodes_asked += wanted.iter().filter(|w| w.is_some()).count();
                Reply::Episodes(
                    wanted
                        .iter()
                        .map(|w| match w {
                            Some((_, 99)) => None,
                            Some((_, number)) => Some(episode(&format!("Episode {}", number))),
                            None => None,
                        })
                        .collect(),
                )
            },
            Request::Pause { millis } => {
                assert_eq!(millis, PAUSE_MILLIS);
                calls.pauses += 1;
                Reply::Paused
            },
            Request::Finished => break,
        };
        assert!(matcher.advance(reply));
    }
    assert!(matcher.is_finished());
    calls
}

fn indices(matcher: &BatchMatcher) -> Vec<usize> {
    let mut found: Vec<usize> = matcher.results.iter().map(|r| r.0).collect();
    found.sort();
    found
}

#[test]
fn test_batch_without_credential_fails_every_file() {
    let files = vec![
        file(4, "The Matrix", MediaType::Movie, None),
        file(9, "Breaking Bad", MediaType::TvShow, Some((1, 1))),
    ];
    let matcher = batch_match_files("", files);
    assert!(matcher.is_finished());
    assert!(matches!(matcher.request(), Request::Finished));
    assert_eq!(matcher.results.len(), 2);
    assert_eq!(matcher.results[0].0, 4);
    assert_eq!(matcher.results[1].0, 9);
    for result in &matcher.results {
        assert_eq!(result.1.as_ref().err().unwrap(), "TMDB API key not set");
    }
}

#[test]
fn test_batch_without_title_fails_without_request() {
    let mut matcher = batch_match_files("key", vec![file(3, "", MediaType::Movie, None)]);
    let calls = run(&mut matcher);
    assert_eq!(calls.movie_searches, 0);
    assert_eq!(matcher.results.len(), 1);
    assert_eq!(matcher.results[0].0, 3);
    assert_eq!(matcher.results[0].1.as_ref().err().unwrap(), "No title parsed");
}

#[test]
fn test_batch_answers_every_file_once() {
    let files = vec![
        file(0, "Breaking Bad", MediaType::TvShow, Some((1, 1))),
        file(1, "The Matrix", MediaType::Movie, None),
        file(2, "", MediaType::TvShow, Some((1, 2))),
        file(3, "breaking bad", MediaType::TvShow, Some((1, 2))),
        file(4, "Missing Movie", MediaType::Unknown, None),
        file(5, "Missing Show", MediaType::TvShow, Some((2, 2))),
        file(6, "Missing Show", MediaType::TvShow, None),
        file(7, "Broken Movie", MediaType::Movie, None),
    ];
    let mut matcher = batch_match_files("key", files);
    run(&mut matcher);
    assert_eq!(indices(&matcher), vec![0, 1, 2, 3, 4, 5, 6, 7]);
}

#[test]
fn test_batch_searches_once_for_each_show() {
    let files = vec![
        file(0, "Breaking Bad", MediaType::TvShow, Some((1, 1))),
        file(1, "BREAKING BAD", MediaType::TvShow, Some((1, 2))),
    ];
    let mut matcher = batch_match_files("key", files);
    assert_eq!(matcher.shows.len(), 1);
    assert_eq!(matcher.shows[0].key, "breaking bad");
    let calls = run(&mut matcher);
    assert_eq!(calls.show_searches, 1);
    assert_eq!(calls.show_details, 1);
    assert_eq!(calls.episode_batches, 1);
    assert_eq!(calls.episodes_asked, 2);
    assert_eq!(calls.pauses, 1);
    assert_eq!(indices(&matcher), vec![0, 1]);
    let first = matcher.results[0].1.as_ref().unwrap();
    assert_eq!(first.title, "Breaking Bad");
    assert_eq!(first.show_name, Some("Breaking Bad".to_string()));
    assert_eq!(first.season_number, Some(1));
    assert_eq!(first.episode_number, Some(1));
    assert_eq!(first.episode_title, Some("Episode 1".to_string()));
    assert_eq!(first.air_date, Some("2008-01-20".to_string()));
    assert_eq!(first.poster_path, Some("/show.jpg".to_string()));
    assert_eq!(first.vote_average, Some(Rating { bits: 9.0f32.to_bits() }));
}

#[test]
fn test_batch_asks_for_episodes_five_at_a_time() {
    let mut files = Vec::new();
    for number in 1..=12 {
        files.push(file(number as usize, "Breaking Bad", MediaType::TvShow, Some((1, number))));
    }
    let mut matcher = batch_match_files("key", files);
    let calls = run(&mut matcher);
    assert_eq!(calls.show_searches, 1);
    assert_eq!(calls.show_details, 1);
    assert_eq!(calls.episode_batches, 3);
    assert_eq!(calls.episodes_asked, 12);
    assert_eq!(calls.pauses, 3);
    assert_eq!(matcher.results.len(), 12);
}

#[test]
fn test_batch_falls_back_to_the_show() {
    let files = vec![
        file(0, "Breaking Bad", MediaType::TvShow, Some((3, 99))),
        file(1, "Breaking Bad", MediaType::TvShow, None),
    ];
    let mut matcher = batch_match_files("key", files);
    let calls = run(&mut matcher);
    assert_eq!(calls.episodes_asked, 1);
    let missing = matcher.results[0].1.as_ref().unwrap();
    assert_eq!(missing.season_number, Some(3));
    assert_eq!(missing.episode_number, Some(99));
    assert_eq!(missing.episode_title, None);
    assert_eq!(missing.show_name, Some("Breaking Bad".to_string()));
    let unnumbered = matcher.results[1].1.as_ref().unwrap();
    assert_eq!(unnumbered.season_number, None);
    assert_eq!(unnumbered.episode_number, None);
    assert_eq!(unnumbered.title, "Breaking Bad");
}

#[test]
fn test_batch_show_not_found_fails_its_episodes() {
    let files = vec![
        file(0, "Missing Show", MediaType::TvShow, Some((1, 1))),
        file(1, "missing show", MediaType::TvShow, Some((1, 2))),
        file(2, "Breaking Bad", MediaType::TvShow, Some((1, 1))),
    ];
    let mut matcher = batch_match_files("key", files);
    let calls = run(&mut matcher);
    assert_eq!(calls.show_searches, 2);
    assert_eq!(calls.show_details, 1);
    assert_eq!(matcher.results.len(), 3);
    assert_eq!(matcher.results[0].0, 0);
    assert_eq!(matcher.results[0].1.as_ref().err().unwrap(), "No results found");
    assert_eq!(matcher.results[1].0, 1);
    assert_eq!(matcher.results[1].1.as_ref().err().unwrap(), "No results found");
    assert!(matcher.results[2].1.is_ok());
}

#[test]
fn test_batch_movies_are_looked_up_one_by_one() {
    let files = vec![
        file(0, "The Matrix", MediaType::Movie, None),
        file(1, "Missing Movie", MediaType::Movie, None),
        file(2, "Broken Movie", MediaType::Unknown, None),
        file(3, "The Matrix", MediaType::Movie, None),
    ];
    let mut matcher = batch_match_files("key", files);
    assert_eq!(matcher.stage, Stage::SearchMovie);
    let calls = run(&mut matcher);
    assert_eq!(calls.movie_searches, 4);
    assert_eq!(calls.movie_details, 2);
    assert_eq!(calls.pauses, 4);
    assert_eq!(matcher.results[0].1.as_ref().unwrap().tmdb_id, 7);
    assert_eq!(matcher.results[1].1.as_ref().err().unwrap(), "No results found");
    assert_eq!(matcher.results[2].1.as_ref().err().unwrap(), "Network error: down");
    assert_eq!(matcher.results[3].1.as_ref().unwrap().title, "A Movie");
}

#[test]
fn test_batch_refuses_an_answer_of_another_kind() {
    let mut matcher = batch_match_files("key", vec![file(0, "The Matrix", MediaType::Movie, None)]);
    assert!(!matcher.advance(Reply::Paused));
    assert!(!matcher.advance(Reply::Details(Ok(titled(1, "x")))));
    assert_eq!(matcher.stage, Stage::SearchMovie);
    assert!(matcher.results.is_empty());
    assert!(matcher.advance(Reply::Found(Ok(vec![hit(603, "The Matrix", MediaType::Movie)]))));
    assert_eq!(matcher.stage, Stage::MovieDetails);
    assert!(matches!(matcher.request(), Request::MovieDetails { id: 603 }));
}

#[test]
fn test_batch_refuses_a_batch_of_the_wrong_size() {
    let files = vec![
        file(0, "Breaking Bad", MediaType::TvShow, Some((1, 1))),
        file(1, "Breaking Bad", MediaType::TvShow, Some((1, 2))),
    ];
    let mut matcher = batch_match_files("key", files);
    assert!(matcher.advance(Reply::Found(Ok(vec![hit(1396, "Breaking Bad", MediaType::TvShow)]))));
    assert!(matcher.advance(Reply::Details(Ok(show(1396, "Breaking Bad")))));
    assert_eq!(matcher.stage, Stage::Episodes);
    assert!(!matcher.advance(Reply::Episodes(vec![None])));
    assert!(matcher.results.is_empty());
    assert!(matcher.advance(Reply::Episodes(vec![None, Some(episode("Two"))])));
    assert_eq!(matcher.results.len(), 2);
    assert_eq!(matcher.stage, Stage::EpisodePause);
}

#[test]
fn test_batch_show_details_failure_fails_its_episodes() {
    let files = vec![
        file(5, "Breaking Bad", MediaType::TvShow, Some((1, 1))),
        file(6, "Breaking Bad", MediaType::TvShow, Some((1, 2))),
        file(7, "The Matrix", MediaType::Movie, None),
    ];
    let mut matcher = batch_match_files("key", files);
    assert!(matches!(matcher.request(), Request::SearchMovies { .. }));
    assert!(matcher.advance(Reply::Found(Ok(vec![hit(603, "The Matrix", MediaType::Movie)]))));
    assert!(matcher.advance(Reply::Details(Err("Parse error: bad".to_string()))));
    assert!(matches!(matcher.request(), Request::Pause { .. }));
    assert!(matcher.advance(Reply::Paused));
    assert!(matches!(matcher.request(), Request::SearchTv { .. }));
    assert!(matcher.advance(Reply::Found(Ok(vec![hit(1396, "Breaking Bad", MediaType::TvShow)]))));
    assert!(matches!(matcher.request(), Request::TvDetails { id: 1396 }));
    assert!(matcher.advance(Reply::Details(Err("Network error: gone".to_string()))));
    assert!(matcher.is_finished());
    assert_eq!(matcher.results.len(), 3);
    assert_eq!(matcher.results[0].0, 7);
    assert_eq!(matcher.results[0].1.as_ref().err().unwrap(), "Parse error: bad");
    assert_eq!(matcher.results[1].0, 5);
    assert_eq!(matcher.results[1].1.as_ref().err().unwrap(), "Network error: gone");
    assert_eq!(matcher.results[2].0, 6);
    assert_eq!(matcher.results[2].1.as_ref().err().unwrap(), "Network error: gone");
}

#[test]
fn test_batch_show_search_failure_fails_its_episodes() {
    let files = vec![
        file(1, "Breaking Bad", MediaType::TvShow, Some((1, 1))),
        file(2, "Breaking Bad", MediaType::TvShow, Some((1, 2))),
    ];
    let mut matcher = batch_match_files("key", files);
    assert!(matcher.advance(Reply::Found(Err("Network error: down".to_string()))));
    assert!(matcher.is_finished());
    assert_eq!(matcher.results.len(), 2);
    for result in &matcher.results {
        assert_eq!(result.1.as_ref().err().unwrap(), "Network error: down");
    }
}

#[test]
fn test_batch_uses_the_first_title_and_year_of_a_show() {
    let mut first = file(0, "Doctor Who", MediaType::TvShow, Some((13, 6)));
    first.year = Some(2005);
    let mut second = file(1, "DOCTOR WHO", MediaType::TvShow, Some((13, 7)));
    second.year = Some(1963);
    let matcher = batch_match_files("key", vec![first, second]);
    match matcher.request() {
        Request::SearchTv { title, year } => {
            assert_eq!(title, "Doctor Who");
            assert_eq!(year, Some(2005));
        }
        other => panic!("{:?}", other),
    }
}
