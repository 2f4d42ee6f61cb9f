use reel::model::MediaFile;
use reel::utils::file_scanner::{lex_le_chars, sort_by_name};
use std::path::PathBuf;

fn named(directory: &str, name: &str) -> MediaFile {
    MediaFile::new(
        PathBuf::from(format!("{}/{}", directory, name)),
        name.to_string(),
        "mkv".to_string(),
        0,
    )
}

fn chars(s: &str) -> Vec<char> {
    s.chars().collect()
}

#[test]
fn test_lex_le_is_the_order_of_strings() {
    let words = ["", "a", "A", "ab", "abc", "abd", "b", "é", "z", "zz", "千", "\u{1F600}", "a\u{1F600}"];
    for a in words {
        for b in words {
            assert_eq!(lex_le_chars(&chars(a), &chars(b)), a <= b, "{:?} {:?}", a, b);
        }
    }
}

#[test]
fn test_sort_by_name_ignores_case() {
    let files = vec![
        named("/m", "zebra.mkv"),
        named("/m", "Alpha.mkv"),
        named("/m", "beta.mkv"),
        named("/m", "ALPHA2.mkv"),
    ];
    let names: Vec<String> = sort_by_name(files).into_iter().map(|f| f.filename).collect();
    assert_eq!(names, vec!["Alpha.mkv", "ALPHA2.mkv", "beta.mkv", "zebra.mkv"]);
}

#[test]
fn test_sort_by_name_keeps_the_order_of_equal_names() {
    let files = vec![
        named("/c", "Movie.mkv"),
        named("/a", "movie.mkv"),
        named("/b", "MOVIE.mkv"),
        named("/d", "another.mkv"),
    ];
    let sorted = sort_by_name(files);
    let paths: Vec<String> = sorted.iter().map(|f| f.path.display().to_string()).collect();
    assert_eq!(paths, vec!["/d/another.mkv", "/c/Movie.mkv", "/a/movie.mkv", "/b/MOVIE.mkv"]);
}

#[test]
fn test_sort_by_name_is_like_a_stable_sort() {
    let names = ["b", "B", "a", "c", "A", "b", "", "ab", "Ab", "aB", "é", "É", "Z", "z"];
    let files: Vec<MediaFile> =
        names.iter().enumerate().map(|(i, n)| named(&format!("/{}", i), n)).collect();
    let mut expected: Vec<(String, String)> =
        files.iter().map(|f| (f.filename.clone(), f.path.display().to_string())).collect();
    expected.sort_by(|a, b| a.0.to_lowercase().cmp(&b.0.to_lowercase()));
    let sorted: Vec<(String, String)> = sort_by_name(files)
        .into_iter()
        .map(|f| (f.filename.clone(), f.path.display().to_string()))
        .collect();
    assert_eq!(sorted, expected);
}

#[test]
fn test_sort_by_name_of_nothing() {
    assert!(sort_by_name(Vec::new()).is_empty());
}
