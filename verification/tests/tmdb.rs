use reel::model::{MediaFile, MediaMetadata, MediaType, ParsedMediaInfo, Rating, SearchResult};
use reel::utils::tmdb::{
    date_year, encode, episode_metadata, fetch_metadata, lookup_request, merge_episode,
    movie_metadata, movie_result, number_show, read_search_results, search_media, tv_metadata,
    tv_result, verify_api_key, DetailsRequest, EpisodeDetails, TmdbClient, TmdbDetails,
    TmdbSearchResult,
};
use std::path::PathBuf;

fn raw(id: u64, title: Option<&str>, name: Option<&str>, kind: Option<&str>) -> TmdbSearchResult {
    TmdbSearchResult {
        id,
        title: title.map(|s| s.to_string()),
        name: name.map(|s| s.to_string()),
        overview: Some("about".to_string()),
        poster_path: Some("/p.jpg".to_string()),
        release_date: Some("1999-03-31".to_string()),
        first_air_date: Some("2008-01-20".to_string()),
        vote_average: Some(Rating { bits: 8.7f32.to_bits() }),
        media_type: kind.map(|s| s.to_string()),
    }
}

fn details(id: u64, title: &str, date: Option<&str>) -> TmdbDetails {
    TmdbDetails {
        id,
        title: title.to_string(),
        original_title: Some("Original".to_string()),
        overview: Some("about".to_string()),
        poster_path: Some("/p.jpg".to_string()),
        backdrop_path: Some("/b.jpg".to_string()),
        date: date.map(|s| s.to_string()),
        vote_average: Some(Rating { bits: 8.7f32.to_bits() }),
        genres: vec!["Action".to_string(), "Sci-Fi".to_string()],
    }
}

fn show() -> MediaMetadata {
    tv_metadata(&details(1396, "Breaking Bad", Some("2008-01-20")))
}

#[test]
fn test_encode_keeps_unreserved_characters() {
    assert_eq!(encode("AZaz09-_.~"), "AZaz09-_.~");
}

#[test]
fn test_encode_space() {
    assert_eq!(encode("The Matrix"), "The%20Matrix");
}

#[test]
fn test_encode_reserved_ascii() {
    assert_eq!(encode("a&b=c/d?e+f"), "a%26b%3Dc%2Fd%3Fe%2Bf");
}

#[test]
fn test_encode_multibyte_characters() {
    assert_eq!(encode("Amélie"), "Am%C3%A9lie");
    assert_eq!(encode("千と千尋"), "%E5%8D%83%E3%81%A8%E5%8D%83%E5%B0%8B");
    assert_eq!(encode("\u{1F600}"), "%F0%9F%98%80");
}

#[test]
fn test_encode_empty() {
    assert_eq!(encode(""), "");
}

#[test]
fn test_search_urls() {
    let client = TmdbClient::new("k3y".to_string());
    assert_eq!(
        client.search_movies_url("The Matrix", Some(1999)),
        "https://api.themoviedb.org/3/search/movie?api_key=k3y&query=The%20Matrix&include_adult=false&year=1999"
    );
    assert_eq!(
        client.search_movies_url("Dune", None),
        "https://api.themoviedb.org/3/search/movie?api_key=k3y&query=Dune&include_adult=false"
    );
    assert_eq!(
        client.search_tv_url("Doctor Who", Some(2005)),
        "https://api.themoviedb.org/3/search/tv?api_key=k3y&query=Doctor%20Who&include_adult=false&first_air_date_year=2005"
    );
    assert_eq!(
        client.search_multi_url("x"),
        "https://api.themoviedb.org/3/search/multi?api_key=k3y&query=x&include_adult=false"
    );
}

#[test]
fn test_details_urls() {
    let client = TmdbClient::new("k3y".to_string());
    assert_eq!(client.movie_details_url(603), "https://api.themoviedb.org/3/movie/603?api_key=k3y");
    assert_eq!(client.tv_details_url(1396), "https://api.themoviedb.org/3/tv/1396?api_key=k3y");
    assert_eq!(
        client.episode_details_url(1396, 5, 14),
        "https://api.themoviedb.org/3/tv/1396/season/5/episode/14?api_key=k3y"
    );
    assert_eq!(
        client.movie_details_url(u64::MAX),
        "https://api.themoviedb.org/3/movie/18446744073709551615?api_key=k3y"
    );
    assert_eq!(client.verify_api_key_url(), "https://api.themoviedb.org/3/configuration?api_key=k3y");
}

#[test]
fn test_verify_api_key_needs_a_key() {
    assert_eq!(verify_api_key(""), None);
    assert_eq!(
        verify_api_key("abc"),
        Some("https://api.themoviedb.org/3/configuration?api_key=abc".to_string())
    );
}

#[test]
fn test_search_media_needs_a_key() {
    assert_eq!(
        search_media("", "The Matrix", MediaType::Movie, None),
        Err("TMDB API key not set".to_string())
    );
}

#[test]
fn test_search_media_by_kind() {
    assert_eq!(
        search_media("k", "a b", MediaType::Movie, Some(2001)).unwrap(),
        "https://api.themoviedb.org/3/search/movie?api_key=k&query=a%20b&include_adult=false&year=2001"
    );
    assert_eq!(
        search_media("k", "a b", MediaType::TvShow, Some(2001)).unwrap(),
        "https://api.themoviedb.org/3/search/tv?api_key=k&query=a%20b&include_adult=false&first_air_date_year=2001"
    );
    assert_eq!(
        search_media("k", "a b", MediaType::Unknown, Some(2001)).unwrap(),
        "https://api.themoviedb.org/3/search/multi?api_key=k&query=a%20b&include_adult=false"
    );
}

#[test]
fn test_date_year() {
    assert_eq!(date_year(&Some("1999-03-31".to_string())), Some(1999));
    assert_eq!(date_year(&Some("2008".to_string())), Some(2008));
    assert_eq!(date_year(&Some("".to_string())), None);
    assert_eq!(date_year(&Some("-1999".to_string())), None);
    assert_eq!(date_year(&Some("19x9-01-01".to_string())), None);
    assert_eq!(date_year(&None), None);
}

#[test]
fn test_movie_result_prefers_title() {
    let result = movie_result(&raw(603, Some("The Matrix"), Some("Matrix Show"), None));
    assert_eq!(result.tmdb_id, 603);
    assert_eq!(result.title, "The Matrix");
    assert_eq!(result.year, Some(1999));
    assert_eq!(result.media_type, MediaType::Movie);
    assert_eq!(result.overview, Some("about".to_string()));
    assert_eq!(result.poster_path, Some("/p.jpg".to_string()));
    assert_eq!(result.vote_average, Some(Rating { bits: 8.7f32.to_bits() }));
    assert_eq!(movie_result(&raw(1, None, Some("Named"), None)).title, "Named");
    assert_eq!(movie_result(&raw(1, None, None, None)).title, "");
}

#[test]
fn test_tv_result_prefers_name() {
    let result = tv_result(&raw(1396, Some("A Title"), Some("Breaking Bad"), None));
    assert_eq!(result.title, "Breaking Bad");
    assert_eq!(result.year, Some(2008));
    assert_eq!(result.media_type, MediaType::TvShow);
    assert_eq!(tv_result(&raw(1, Some("Titled"), None, None)).title, "Titled");
}

#[test]
fn test_read_search_results_of_one_kind_keeps_all() {
    let raws = vec![raw(1, Some("a"), None, Some("person")), raw(2, Some("b"), None, None)];
    let movies = read_search_results(MediaType::Movie, &raws);
    assert_eq!(movies.len(), 2);
    assert_eq!(movies[0].media_type, MediaType::Movie);
    let shows = read_search_results(MediaType::TvShow, &raws);
    assert_eq!(shows.len(), 2);
    assert_eq!(shows[1].media_type, MediaType::TvShow);
    assert_eq!(shows[1].tmdb_id, 2);
}

#[test]
fn test_read_search_results_of_both_kinds_keeps_the_marked() {
    let raws = vec![
        raw(1, Some("Film"), Some("n1"), Some("movie")),
        raw(2, Some("t2"), Some("Person"), Some("person")),
        raw(3, Some("t3"), Some("Series"), Some("tv")),
        raw(4, Some("t4"), Some("n4"), None),
    ];
    let results: Vec<SearchResult> = read_search_results(MediaType::Unknown, &raws);
    assert_eq!(results.len(), 2);
    assert_eq!(results[0].tmdb_id, 1);
    assert_eq!(results[0].title, "Film");
    assert_eq!(results[0].media_type, MediaType::Movie);
    assert_eq!(results[0].year, Some(1999));
    assert_eq!(results[1].tmdb_id, 3);
    assert_eq!(results[1].title, "Series");
    assert_eq!(results[1].media_type, MediaType::TvShow);
    assert_eq!(results[1].year, Some(2008));
}

#[test]
fn test_movie_metadata() {
    let metadata = movie_metadata(&details(603, "The Matrix", Some("1999-03-31")));
    assert_eq!(metadata.tmdb_id, 603);
    assert_eq!(metadata.title, "The Matrix");
    assert_eq!(metadata.original_title, Some("Original".to_string()));
    assert_eq!(metadata.year, Some(1999));
    assert_eq!(metadata.genres, vec!["Action".to_string(), "Sci-Fi".to_string()]);
    assert_eq!(metadata.backdrop_path, Some("/b.jpg".to_string()));
    assert_eq!(metadata.show_name, None);
    assert_eq!(metadata.season_number, None);
}

#[test]
fn test_tv_metadata_names_the_show() {
    let metadata = show();
    assert_eq!(metadata.title, "Breaking Bad");
    assert_eq!(metadata.show_name, Some("Breaking Bad".to_string()));
    assert_eq!(metadata.year, Some(2008));
    assert_eq!(metadata.episode_title, None);
}

#[test]
fn test_merge_episode() {
    let details = EpisodeDetails {
        name: "Pilot".to_string(),
        overview: Some("It begins".to_string()),
        still_path: Some("/still.jpg".to_string()),
        air_date: Some("2008-01-20".to_string()),
        vote_average: None,
    };
    let merged = merge_episode(&show(), 1396, 1, 1, &details);
    assert_eq!(merged.tmdb_id, 1396);
    assert_eq!(merged.title, "Breaking Bad");
    assert_eq!(merged.overview, Some("It begins".to_string()));
    assert_eq!(merged.poster_path, Some("/still.jpg".to_string()));
    assert_eq!(merged.backdrop_path, Some("/b.jpg".to_string()));
    assert_eq!(merged.vote_average, Some(Rating { bits: 8.7f32.to_bits() }));
    assert_eq!(merged.season_number, Some(1));
    assert_eq!(merged.episode_number, Some(1));
    assert_eq!(merged.episode_title, Some("Pilot".to_string()));
    assert_eq!(merged.air_date, Some("2008-01-20".to_string()));
    assert_eq!(merged.show_name, Some("Breaking Bad".to_string()));
    assert_eq!(merged.genres.len(), 2);
}

#[test]
fn test_merge_episode_falls_back_to_the_show_poster() {
    let details = EpisodeDetails {
        name: "Pilot".to_string(),
        overview: None,
        still_path: None,
        air_date: None,
        vote_average: Some(Rating { bits: 9.1f32.to_bits() }),
    };
    let merged = merge_episode(&show(), 1396, 1, 1, &details);
    assert_eq!(merged.poster_path, Some("/p.jpg".to_string()));
    assert_eq!(merged.vote_average, Some(Rating { bits: 9.1f32.to_bits() }));
    assert_eq!(merged.overview, None);
}

#[test]
fn test_number_show() {
    let numbered = number_show(&show(), 2, 7);
    assert_eq!(numbered.season_number, Some(2));
    assert_eq!(numbered.episode_number, Some(7));
    assert_eq!(numbered.episode_title, None);
    assert_eq!(numbered.title, "Breaking Bad");
}

#[test]
fn test_episode_metadata_without_episode() {
    let metadata = episode_metadata(&show(), 1396, 2, 7, &None);
    assert_eq!(metadata.season_number, Some(2));
    assert_eq!(metadata.episode_number, Some(7));
    assert_eq!(metadata.episode_title, None);
}

#[test]
fn test_fetch_metadata_decides_by_kind() {
    let mut result = SearchResult {
        tmdb_id: 42,
        title: "t".to_string(),
        year: None,
        media_type: MediaType::Movie,
        overview: None,
        poster_path: None,
        vote_average: None,
    };
    assert_eq!(
        fetch_metadata("", &result, None, None),
        Err("TMDB API key not set".to_string())
    );
    assert_eq!(fetch_metadata("k", &result, Some(1), Some(2)), Ok(DetailsRequest::Movie { id: 42 }));
    result.media_type = MediaType::Unknown;
    assert_eq!(fetch_metadata("k", &result, Some(1), Some(2)), Ok(DetailsRequest::Movie { id: 42 }));
    result.media_type = MediaType::TvShow;
    assert_eq!(
        fetch_metadata("k", &result, Some(1), Some(2)),
        Ok(DetailsRequest::Episode { id: 42, season: 1, episode: 2 })
    );
    assert_eq!(fetch_metadata("k", &result, Some(1), None), Ok(DetailsRequest::Show { id: 42 }));
    assert_eq!(fetch_metadata("k", &result, None, None), Ok(DetailsRequest::Show { id: 42 }));
}

#[test]
fn test_lookup_request_takes_what_the_name_gave() {
    let mut file = MediaFile::new(
        PathBuf::from("/shows/Breaking Bad/e1.mkv"),
        "e1.mkv".to_string(),
        "mkv".to_string(),
        1,
    );
    let bare = lookup_request(3, &file, Some("Breaking Bad"));
    assert_eq!(bare.index, 3);
    assert_eq!(bare.title, "");
    assert_eq!(bare.media_type, MediaType::Unknown);
    file.media_type = MediaType::TvShow;
    file.parsed_info = Some(ParsedMediaInfo { season: Some(1), episode: Some(2), ..Default::default() });
    let by_folder = lookup_request(4, &file, Some("Breaking Bad"));
    assert_eq!(by_folder.title, "Breaking Bad");
    assert_eq!(by_folder.season, Some(1));
    assert_eq!(by_folder.episode, Some(2));
    assert_eq!(by_folder.year, None);
    assert_eq!(lookup_request(4, &file, None).title, "");
    file.parsed_info =
        Some(ParsedMediaInfo { title: "Named".to_string(), year: Some(2008), ..Default::default() });
    let by_name = lookup_request(5, &file, Some("Breaking Bad"));
    assert_eq!(by_name.title, "Named");
    assert_eq!(by_name.year, Some(2008));
    file.media_type = MediaType::Movie;
    file.parsed_info = Some(ParsedMediaInfo::default());
    assert_eq!(lookup_request(6, &file, Some("Movies")).title, "");
}
