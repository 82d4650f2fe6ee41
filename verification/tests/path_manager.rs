use hermit_core::guid::Guid;
use hermit_core::path_manager::{safe_leaf_file_name, ApplicationPaths, HermitPathManager};

const ID: &str = "0a1b2c3d-4e5f-6789-abcd-ef0123456789";

fn manager() -> HermitPathManager {
    HermitPathManager::new(ApplicationPaths {
        data_path: "/srv/data".to_owned(),
        internal_metadata_path: "/srv/metadata".to_owned(),
        trickplay_path: "/srv/data/trickplay".to_owned(),
    })
}

fn id() -> Guid {
    Guid::from_u128(uuid::Uuid::parse_str(ID).unwrap().as_u128())
}

#[test]
fn subtitle_and_attachment_paths_require_guid() {
    let m = manager();
    let id = "0a1b2c3d-4e5f-6789-abcd-ef0123456789";
    let folder = m.subtitle_folder_path(id).expect("guid folder");
    assert!(folder.ends_with("subtitles/0a/0a1b2c3d-4e5f-6789-abcd-ef0123456789"));
    let path = m.subtitle_path(id, 2, ".srt").expect("subtitle path");
    assert!(path.ends_with("/2.srt"));

    assert_eq!(m.subtitle_folder_path("not-a-guid"), None);
    assert_eq!(m.subtitle_path("not-a-guid", 0, ".srt"), None);
}

#[test]
fn attachment_rejects_unsafe_leaf_name() {
    let m = manager();
    let id = "0a1b2c3d-4e5f-6789-abcd-ef0123456789";
    assert!(m.attachment_path(id, "font.ttf").is_some());
    assert_eq!(m.attachment_path(id, "../escape").into_iter().count(), 0);
    assert_eq!(m.attachment_path(id, "sub/dir"), None);
}

#[test]
fn trickplay_directory_variants() {
    let m = manager();
    let id = id();
    let internal = m.trickplay_directory(id, "/media/movie.mkv", false);
    assert!(internal.ends_with("trickplay/0a/0a1b2c3d-4e5f-6789-abcd-ef0123456789"));

    let with_media = m.trickplay_directory(id, "/media/movie.mkv", true);
    assert_eq!(with_media, "/media/movie.trickplay");
}

#[test]
fn chapter_image_paths_use_internal_metadata_layout() {
    let m = manager();
    let id = id();
    let folder = m.chapter_image_folder_path(id, "/media/movie.mkv");
    assert!(folder.contains("/library/0a/0a1b2c3d4e5f6789abcdef0123456789/chapters"));
    let path = m.chapter_image_path(id, "/media/movie.mkv", 12_345);
    assert!(path.ends_with("/chapters/12345.jpg"));
}

#[test]
fn extracted_data_paths_include_all_folders() {
    let m = manager();
    let id = id();
    let paths = m.extracted_data_paths(id, "/media/movie.mkv");
    // attachments, subtitles, trickplay(internal), trickplay(with-media), chapters
    assert_eq!(paths.len(), 5);
    assert!(paths.iter().any(|p| p.contains("attachments")));
    assert!(paths.iter().any(|p| p.contains("subtitles")));
    assert!(paths.iter().any(|p| p.ends_with("movie.trickplay")));
    assert!(paths.iter().any(|p| p.contains("/chapters")));
}

#[test]
fn extracted_data_paths_skip_with_media_when_no_path() {
    let m = manager();
    let id = Guid::from_u128(uuid::Uuid::new_v4().as_u128());
    let paths = m.extracted_data_paths(id, "");
    // No media path → no with-media trickplay folder.
    assert_eq!(paths.len(), 4);
}

#[test]
fn attachment_path_is_exact() {
    let m = manager();
    assert_eq!(
        m.attachment_path(ID, "font.ttf").as_deref(),
        Some("/srv/data/attachments/0a/0a1b2c3d-4e5f-6789-abcd-ef0123456789/font.ttf")
    );
    // An identifier is accepted in any spelling and written in one.
    assert_eq!(
        m.attachment_folder_path("0A1B2C3D4E5F6789ABCDEF0123456789"),
        m.attachment_folder_path(ID)
    );
}

#[test]
fn safe_names_hold_no_separator() {
    assert_eq!(safe_leaf_file_name("a.ttf").as_deref(), Some("a.ttf"));
    assert_eq!(safe_leaf_file_name(""), None);
    assert_eq!(safe_leaf_file_name("."), None);
    assert_eq!(safe_leaf_file_name(".."), None);
    assert_eq!(safe_leaf_file_name("a\\b"), None);
    assert_eq!(safe_leaf_file_name("a\0b"), None);
    assert_eq!(safe_leaf_file_name("..."), Some("...".to_owned()));
}

#[test]
fn a_dot_in_the_name_stays_beside_the_media() {
    let m = manager();
    assert_eq!(
        m.trickplay_directory(id(), "/media/my.movie.mkv", true),
        "/media/my.movie.trickplay"
    );
}

#[test]
fn all_spellings_of_an_identifier_share_a_folder() {
    let m = manager();
    let folder = m.subtitle_folder_path(ID).unwrap();
    for spelling in [
        "0a1b2c3d4e5f6789abcdef0123456789",
        "0A1B2C3D4E5F6789ABCDEF0123456789",
        "0A1B2C3D-4E5F-6789-ABCD-EF0123456789",
        "{0a1b2c3d-4e5f-6789-abcd-ef0123456789}",
        "urn:uuid:0a1b2c3d-4e5f-6789-abcd-ef0123456789",
    ] {
        assert_eq!(m.subtitle_folder_path(spelling).as_ref(), Some(&folder), "{spelling}");
    }
    for other in ["{0a1b2c3d4e5f6789abcdef0123456789}", "0a1b2c3d-4e5f-6789-abcd-ef012345678", ""] {
        assert_eq!(m.subtitle_folder_path(other), None, "{other}");
    }
}
