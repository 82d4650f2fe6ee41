use hermit_core::lyric_manager::{
    apply_metadata_tag, downloaded, parse_by_format, parse_lrc, parse_lrc_timestamp, parse_txt,
    provider_key, read_sidecar, save_lyric, search_request_for, search_results, sidecar_candidates, sidecar_for,
    AudioRow, HermitLyricManager, LyricMetadata, LyricProviderInfo, LyricResponse,
    RemoteLyricInfo,
};
use hermit_core::model::BaseItemKind;
use hermit_core::service_error::ServiceError;

fn providers() -> HermitLyricManager {
    HermitLyricManager::new().with_providers(vec![
        LyricProviderInfo { name: "Fake".to_owned(), id: "f00d".to_owned() },
        LyricProviderInfo { name: "Second".to_owned(), id: "beef".to_owned() },
    ])
}

#[test]
fn parses_synced_lrc_with_metadata() {
    let lrc = "[ar:Beatles]\n[ti:Hey Jude]\n[00:12.34]First line\n[01:05.00]Second line\n";
    let dto = parse_lrc(lrc);
    assert_eq!(dto.metadata.artist.as_deref(), Some("Beatles"));
    assert_eq!(dto.metadata.title.as_deref(), Some("Hey Jude"));
    assert_eq!(dto.metadata.is_synced, Some(true));
    assert_eq!(dto.lyrics.len(), 2);
    assert_eq!(dto.lyrics[0].text, "First line");
    // 12.34s → 12_340 ms → ticks.
    assert_eq!(dto.lyrics[0].start, Some(12_340 * 10_000));
    assert_eq!(dto.lyrics[1].start, Some(65_000 * 10_000));
}

#[test]
fn parses_plain_txt_unsynced() {
    let dto = parse_txt("Line one\n\nLine two\n");
    assert_eq!(dto.metadata.is_synced, Some(false));
    assert_eq!(dto.lyrics.len(), 2);
    assert!(dto.lyrics[0].start.is_none());
    assert_eq!(dto.lyrics[1].text, "Line two");
}

#[test]
fn timestamps_have_minutes_and_seconds() {
    assert_eq!(parse_lrc_timestamp("00:01"), Some(10_000_000));
    assert_eq!(parse_lrc_timestamp("01:02.5"), Some(62_500 * 10_000));
    assert_eq!(parse_lrc_timestamp("01:02.50"), Some(62_500 * 10_000));
    assert_eq!(parse_lrc_timestamp("01:02.505"), Some(62_505 * 10_000));
    assert_eq!(parse_lrc_timestamp(" 1 : 2 . 5 "), Some(62_500 * 10_000));
    assert_eq!(parse_lrc_timestamp("ar:Beatles"), None);
    assert_eq!(parse_lrc_timestamp("00:xx"), None);
    assert_eq!(parse_lrc_timestamp("00:01.x"), None);
    assert_eq!(parse_lrc_timestamp("12"), None);
}

#[test]
fn timed_lines_are_sorted_and_repeated() {
    let dto = parse_lrc("[00:05][00:01]Refrain\r\n[00:03] Verse \nno time\n[broken");
    let texts: Vec<(&str, Option<i64>)> =
        dto.lyrics.iter().map(|l| (l.text.as_str(), l.start)).collect();
    assert_eq!(
        texts,
        vec![
            ("Refrain", Some(10_000_000)),
            ("Verse", Some(30_000_000)),
            ("Refrain", Some(50_000_000)),
        ]
    );
}

#[test]
fn lines_without_times_are_not_synced() {
    let dto = parse_lrc("[ti:Song]\nwords\n");
    assert_eq!(dto.metadata.is_synced, Some(false));
    assert!(dto.lyrics.is_empty());
}

#[test]
fn every_tag_sets_its_fact() {
    let mut m = LyricMetadata::default();
    apply_metadata_tag(&mut m, "AR", "artist");
    apply_metadata_tag(&mut m, "al", "album");
    apply_metadata_tag(&mut m, "ti", "title");
    apply_metadata_tag(&mut m, "au", "author");
    apply_metadata_tag(&mut m, "by", "by");
    apply_metadata_tag(&mut m, "re", "first");
    apply_metadata_tag(&mut m, "creator", "creator");
    apply_metadata_tag(&mut m, "ve", "one");
    apply_metadata_tag(&mut m, "version", "two");
    apply_metadata_tag(&mut m, "length", "03:00");
    apply_metadata_tag(&mut m, "offset", " 250 ");
    apply_metadata_tag(&mut m, "unknown", "x");
    assert_eq!(m.artist.as_deref(), Some("artist"));
    assert_eq!(m.album.as_deref(), Some("album"));
    assert_eq!(m.title.as_deref(), Some("title"));
    assert_eq!(m.author.as_deref(), Some("author"));
    assert_eq!(m.by.as_deref(), Some("by"));
    assert_eq!(m.creator.as_deref(), Some("creator"));
    assert_eq!(m.version.as_deref(), Some("two"));
    assert_eq!(m.length, Some(180_000 * 10_000));
    assert_eq!(m.offset, Some(250 * 10_000));
    assert_eq!(m.is_synced, None);
    apply_metadata_tag(&mut m, "offset", "soon");
    assert_eq!(m.offset, None);
}

#[test]
fn search_builds_request_and_namespaces_results() {
    let request = search_request_for(&AudioRow {
        path: Some("/music/song.flac".to_owned()),
        name: Some("I Want to Live".to_owned()),
        album: Some("Baldur's Gate 3".to_owned()),
        album_artists: Some("Borislav Slavov".to_owned()),
        artists: Some("Borislav Slavov|Extra Artist".to_owned()),
        run_time_ticks: Some(233 * 10_000_000),
    });
    assert_eq!(request.song_name.as_deref(), Some("I Want to Live"));
    assert_eq!(request.album_name.as_deref(), Some("Baldur's Gate 3"));
    assert_eq!(
        request.artist_names,
        Some(vec!["Borislav Slavov".to_owned(), "Extra Artist".to_owned()])
    );
    assert_eq!(request.album_artists_names, Some(vec!["Borislav Slavov".to_owned()]));
    assert_eq!(request.duration, Some(233 * 10_000_000));
    assert_eq!(request.media_path.as_deref(), Some("/music/song.flac"));

    let results = search_results(
        "f00d",
        vec![RemoteLyricInfo {
            id: "42_synced".to_owned(),
            provider_name: "Fake".to_owned(),
            metadata: LyricMetadata {
                artist: Some("Borislav Slavov".to_owned()),
                is_synced: Some(true),
                ..LyricMetadata::default()
            },
            lyrics: LyricResponse {
                format: "lrc".to_owned(),
                text: "[00:01.00]Hello".to_owned(),
            },
        }],
    );
    assert_eq!(results.len(), 1);
    assert_eq!(results[0].id, "f00d_42_synced");
    assert_eq!(results[0].provider_name, "Fake");
    assert_eq!(results[0].lyrics.lyrics[0].text, "Hello");
    assert_eq!(results[0].lyrics.lyrics[0].start, Some(1_000 * 10_000));
    assert_eq!(results[0].lyrics.metadata.artist.as_deref(), Some("Borislav Slavov"));
}

#[test]
fn an_empty_column_asks_for_no_names() {
    let request = search_request_for(&AudioRow {
        path: Some(String::new()),
        name: None,
        album: None,
        album_artists: Some("||".to_owned()),
        artists: None,
        run_time_ticks: None,
    });
    assert_eq!(request.media_path, None);
    assert_eq!(request.album_artists_names, None);
    assert_eq!(request.artist_names, None);
}

#[test]
fn search_skips_failing_provider_and_falls_through() {
    let m = providers();
    assert_eq!(m.next_provider(0, 0), Some(0));
    // The first one failed, which counts as finding nothing.
    assert_eq!(m.next_provider(1, 0), Some(1));
    assert_eq!(m.next_provider(2, 0), None);
    assert_eq!(m.next_provider(1, 3), None);
}

#[test]
fn download_saves_synced_sidecar_as_lrc() {
    let m = providers();
    let path = Some("/music/song.flac".to_owned());
    let route = m.route_download(&path, "f00d_42_synced").unwrap().unwrap();
    assert_eq!(route.provider, 0);
    assert_eq!(route.local_id, "42_synced");

    let saved = downloaded(
        "/music/song.flac",
        LyricResponse { format: "LRC".to_owned(), text: "[00:17.12]I want to live".to_owned() },
    );
    assert_eq!(saved.path, "/music/song.lrc");
    assert_eq!(saved.text, "[00:17.12]I want to live");
    assert_eq!(saved.lyrics.metadata.is_synced, Some(true));
    assert_eq!(saved.lyrics.lyrics[0].text, "I want to live");

    let read_back = read_sidecar(&saved.path, &saved.text);
    assert_eq!(read_back.lyrics[0].text, saved.lyrics.lyrics[0].text);
    assert_eq!(read_back.lyrics[0].start, saved.lyrics.lyrics[0].start);
    assert_eq!(read_back.metadata.is_synced, saved.lyrics.metadata.is_synced);
}

#[test]
fn download_saves_plain_sidecar_as_txt() {
    let saved = downloaded(
        "/music/song.mp3",
        LyricResponse {
            format: "txt".to_owned(),
            text: "I want to live\nSomewhere I belong".to_owned(),
        },
    );
    assert_eq!(saved.path, "/music/song.txt");
    assert_eq!(saved.lyrics.metadata.is_synced, Some(false));
    assert_eq!(saved.lyrics.lyrics.len(), 2);
}

#[test]
fn download_unknown_provider_id_returns_none() {
    let m = providers();
    let path = Some("/music/song.flac".to_owned());
    assert!(m.route_download(&path, "deadbeef_42_synced").unwrap().is_none());
    // Without an underscore the whole is both parts.
    let route = m.route_download(&path, "beef").unwrap().unwrap();
    assert_eq!(route.provider, 1);
    assert_eq!(route.local_id, "beef");
}

#[test]
fn download_without_providers_is_rejected() {
    let m = HermitLyricManager::new();
    assert!(matches!(
        m.route_download(&Some("/a".to_owned()), "x_y"),
        Err(ServiceError::InvalidInput(t)) if t == "no remote lyric provider is configured"
    ));
    assert!(matches!(
        providers().route_download(&None, "x_y"),
        Err(ServiceError::NotFound(t)) if t == "item has no media path for lyrics"
    ));
}

#[test]
fn supported_providers_only_for_audio() {
    let m = providers();
    let infos = m.get_supported_providers(Some(BaseItemKind::Audio));
    assert_eq!(infos.len(), 2);
    assert_eq!(infos[0].name, "Fake");
    assert_eq!(infos[0].id, "f00d");
    assert!(m.get_supported_providers(Some(BaseItemKind::Movie)).is_empty());
    assert!(m.get_supported_providers(None).is_empty());
}

#[test]
fn uploads_are_read_back() {
    for (format, path) in [
        (".LRC", "/music/song.lrc"),
        (" elrc ", "/music/song.elrc"),
        ("txt", "/music/song.txt"),
        ("srt", "/music/song.lrc"),
    ] {
        let saved =
            save_lyric(Some("/music/song.flac".to_owned()), format, "[00:01]one\ntwo").unwrap();
        assert_eq!(saved.path, path);
        let again = read_sidecar(&saved.path, &saved.text);
        assert_eq!(again.lyrics.len(), saved.lyrics.lyrics.len());
        assert_eq!(again.lyrics[0].text, saved.lyrics.lyrics[0].text);
        assert_eq!(again.metadata.is_synced, saved.lyrics.metadata.is_synced);
    }
    assert!(matches!(
        save_lyric(None, "lrc", "x"),
        Err(ServiceError::NotFound(t)) if t == "item has no media path for lyrics"
    ));
    assert!(save_lyric(Some(String::new()), "lrc", "x").is_err());
}

#[test]
fn the_first_sidecar_counts() {
    let all = sidecar_candidates("/music/song.flac");
    assert_eq!(all, vec!["/music/song.lrc", "/music/song.elrc", "/music/song.txt"]);
    assert_eq!(
        sidecar_for("/music/song.flac", &vec![false, true, true]).as_deref(),
        Some("/music/song.elrc")
    );
    assert_eq!(sidecar_for("/music/song.flac", &vec![false, false, false]), None);
}

#[test]
fn the_format_tells_how_to_read() {
    assert_eq!(parse_by_format("TXT", "[00:01]x").metadata.is_synced, Some(false));
    assert_eq!(parse_by_format("lrc", "[00:01]x").metadata.is_synced, Some(true));
    assert_eq!(read_sidecar("/music/song", "[00:01]x").metadata.is_synced, Some(false));
}

#[test]
fn zeros_behind_the_fraction_do_not_matter() {
    for time in ["0:0", "1:2", "12:34", "0099:0059", "9999:9999"] {
        let whole = parse_lrc_timestamp(time);
        assert!(whole.is_some());
        assert_eq!(parse_lrc_timestamp(&format!("{time}.0")), whole);
        for digit in 0..10 {
            let tenths = parse_lrc_timestamp(&format!("{time}.{digit}"));
            assert!(tenths.is_some());
            assert_eq!(parse_lrc_timestamp(&format!("{time}.{digit}0")), tenths);
            assert_eq!(parse_lrc_timestamp(&format!("{time}.{digit}00")), tenths);
        }
    }
}

#[test]
fn a_provider_is_known_by_its_name_in_lower_case() {
    assert_eq!(provider_key("LrcLib"), "lrclib");
    assert_eq!(provider_key("\u{c9}cho"), "\u{e9}cho");
}
