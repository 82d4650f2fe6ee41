use hermit_core::resolvers::{is_sample_clip, should_ignore_path, sort_name};

#[test]
fn ignores_artwork_and_sample_files() {
    assert!(should_ignore_path("/media/Movie/small.jpg"));
    assert!(should_ignore_path("/media/Movie/AlbumArt.jpg"));
    assert!(should_ignore_path("/media/Movie/sample.mkv"));
    assert!(should_ignore_path("/media/Movie/movie.sample.webm"));
    assert!(should_ignore_path("/media/Movie/minta.mkv"));
    // A real movie file is not ignored.
    assert!(!should_ignore_path("/media/Movie/movie.mkv"));
}

#[test]
fn ignores_trash_and_metadata_directories() {
    assert!(should_ignore_path("/media/metadata/poster.jpg"));
    assert!(should_ignore_path("/media/Show/extrafanart/1.jpg"));
    assert!(should_ignore_path("/media/@eaDir/thumb.jpg"));
    assert!(should_ignore_path("/media/$RECYCLE.BIN/x"));
    assert!(should_ignore_path("/media/System Volume Information/x"));
}

#[test]
fn ignores_hidden_files_and_trickplay() {
    assert!(should_ignore_path("/media/Movie/.DS_Store"));
    assert!(should_ignore_path("/media/Movie/movie.trickplay"));
    assert!(!should_ignore_path("/media/Movie/movie.mkv"));
}

#[test]
fn sort_name_strips_leading_articles() {
    assert_eq!(sort_name("The Matrix"), "matrix");
    assert_eq!(sort_name("A Beautiful Mind"), "beautiful mind");
    assert_eq!(sort_name("An Education"), "education");
    // Not a leading article word — left intact (lower-cased).
    assert_eq!(sort_name("Theatre of Blood"), "theatre of blood");
    // Article-only name is kept.
    assert_eq!(sort_name("The"), "the");
}

#[test]
fn sort_name_lowers_letters_beyond_ascii() {
    assert_eq!(sort_name("ÉCLAIR"), "éclair");
    assert_eq!(sort_name(""), "");
}

#[test]
fn sample_clips_are_told_by_stem_and_extension() {
    assert!(is_sample_clip("sample.mkv", "sample"));
    assert!(!is_sample_clip("sampler.mkv", "sample"));
    assert!(!is_sample_clip("movie.mkv", "sample"));
}

#[test]
fn case_slashes_and_trailing_slashes_do_not_matter() {
    for path in [
        "/media/Movie/sample.mkv",
        "/media/metadata/poster.jpg",
        "/media/Movie/movie.trickplay",
        "/media/Movie/movie.mkv",
        "/media/.hidden",
        "",
    ] {
        let ignored = should_ignore_path(path);
        assert_eq!(should_ignore_path(&path.to_ascii_uppercase()), ignored, "{path}");
        assert_eq!(should_ignore_path(&path.replace('/', "\\")), ignored, "{path}");
        assert_eq!(should_ignore_path(&format!("{path}/")), ignored, "{path}");
        assert_eq!(should_ignore_path(&format!("{path}\\")), ignored, "{path}");
    }
}

#[test]
fn articles_case_and_outer_space_are_not_sorted() {
    for word in ["the", "The", "A", "an", "AN"] {
        for name in ["Matrix", "  Two  Towers ", "the"] {
            assert_eq!(sort_name(&format!("{word} {name}")), name.trim().to_lowercase());
        }
    }
    assert_eq!(sort_name(" \t The Matrix\n"), sort_name("The Matrix"));
    assert_eq!(sort_name("\u{a0}Été "), sort_name("Été"));
    assert_eq!(sort_name("THE MATRIX"), sort_name("the matrix"));
    // Any white space behind the article will do.
    assert_eq!(sort_name("The\tMatrix"), "matrix");
    assert_eq!(sort_name("An\u{a0} Education"), "education");
}
