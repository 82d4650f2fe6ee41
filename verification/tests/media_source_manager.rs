use hermit_core::guid::parse_guid;
use hermit_core::json::guid_json;
use hermit_core::media_attachment_repository::AttachmentStreamInfoEntity;
use hermit_core::media_source_manager::{
    attachments_dto, container_of, static_media_sources, stream_dto_to_entity, stream_to_dto,
    DoubleRates, HermitMediaSourceManager, MediaProtocol, MediaSourceInfo, RatedStreamRow,
    SingleRates, SourceItemRow,
};
use hermit_core::service_error::ServiceError;

fn item(path: Option<&str>) -> SourceItemRow {
    SourceItemRow {
        id: "id".to_owned(),
        path: path.map(str::to_owned),
        name: Some("M".to_owned()),
        size: Some(9),
        run_time_ticks: Some(100),
    }
}

fn source() -> MediaSourceInfo {
    static_media_sources(Some(item(Some("/media/m.mkv"))), &Vec::new()).remove(0)
}

#[test]
fn static_source_carries_path_and_streams() {
    let sources = static_media_sources(Some(item(Some("/media/m.mkv"))), &Vec::new());
    assert_eq!(sources.len(), 1);
    assert_eq!(sources[0].path.as_deref(), Some("/media/m.mkv"));
    assert_eq!(sources[0].container.as_deref(), Some("mkv"));
    assert_eq!(sources[0].run_time_ticks, Some(100));
    assert_eq!(sources[0].size, Some(9));
    assert_eq!(sources[0].protocol, MediaProtocol::File);
    assert!(sources[0].media_streams.is_empty());
}

#[test]
fn missing_item_yields_no_sources() {
    assert!(static_media_sources(None, &Vec::new()).is_empty());
}

#[test]
fn the_container_is_the_lower_case_extension() {
    assert_eq!(container_of(&item(Some("/a/B.MKV"))), Some("mkv".to_owned()));
    assert_eq!(container_of(&item(Some("/a.b/c"))), None);
    assert_eq!(container_of(&item(Some("c."))), None);
    assert_eq!(container_of(&item(None)), None);
}

#[test]
fn live_stream_open_get_close_round_trips() {
    let mut live = HermitMediaSourceManager::new();
    let id = live.open_live_stream(source());
    let other = live.open_live_stream(source());
    assert_ne!(id, other);
    for text in [&id, &other] {
        let read = parse_guid(text).expect("an identifier");
        assert_ne!(read.value, 0);
        assert_eq!(guid_json(read), format!("\"{text}\""));
    }
    let opened = live.get_live_stream(&id).expect("get");
    assert!(opened.requires_closing);
    assert_eq!(opened.live_stream_id, Some(id.clone()));
    assert_eq!(opened.path.as_deref(), Some("/media/m.mkv"));

    live.close_live_stream(&id);
    match live.get_live_stream(&id) {
        Err(ServiceError::NotFound(m)) => assert_eq!(m, format!("live stream {id}")),
        _ => panic!("still open"),
    }
    assert!(live.get_live_stream(&other).is_ok());
}

#[test]
fn a_stored_stream_is_shown_again() {
    let nothing = SingleRates { average: 0, real: 0 };
    let mut shown = stream_to_dto(&hermit_stream(), nothing);
    assert_eq!(shown.index, 3);
    assert_eq!(shown.language.as_deref(), Some("eng"));
    assert_eq!(shown.width, Some(1920));
    assert_eq!(shown.level, Some(4.1f64.to_bits()));
    shown.title = Some("Main".to_owned());
    shown.real_frame_rate = Some(25.0f32.to_bits());
    let wide = DoubleRates { average: 1, real: 25.0f64.to_bits() };
    let stored = stream_dto_to_entity("item", &shown, wide);
    assert_eq!(stored.item_id, "item");
    assert_eq!(stored.stream_index, 3);
    assert_eq!(stored.average_frame_rate, None);
    assert_eq!(stored.real_frame_rate, Some(25.0f64.to_bits()));
    let single = SingleRates { average: 1, real: 25.0f32.to_bits() };
    let again = stream_to_dto(&stored, single);
    assert_eq!(format!("{again:?}"), format!("{shown:?}"));
}

#[test]
fn frame_rates_are_shown_in_single_precision() {
    let rate = 24000.0f64 / 1001.0;
    let mut row = hermit_stream();
    row.average_frame_rate = Some(rate.to_bits());
    let rates = SingleRates { average: (rate as f32).to_bits(), real: 7 };
    let shown = stream_to_dto(&row, rates);
    assert_eq!(shown.average_frame_rate, Some(23.976025f32.to_bits()));
    assert_eq!(shown.real_frame_rate, None);
    let sources = static_media_sources(
        Some(item(Some("/media/m.mkv"))),
        &vec![RatedStreamRow { row, rates }],
    );
    let streams = &sources[0].media_streams;
    assert_eq!(streams.len(), 1);
    assert_eq!(streams[0].average_frame_rate, Some(23.976025f32.to_bits()));
}

fn hermit_stream() -> hermit_core::media_stream_repository::MediaStreamInfoEntity {
    hermit_core::media_stream_repository::MediaStreamInfoEntity {
        item_id: "item".to_owned(),
        stream_index: 3,
        aspect_ratio: Some("16:9".to_owned()),
        average_frame_rate: None,
        bit_depth: Some(10),
        bit_rate: Some(1_000),
        bl_present_flag: Some(1),
        channel_layout: None,
        channels: None,
        codec: Some("hevc".to_owned()),
        codec_tag: None,
        codec_time_base: None,
        color_primaries: None,
        color_space: None,
        color_transfer: None,
        comment: None,
        dv_bl_signal_compatibility_id: None,
        dv_level: None,
        dv_profile: None,
        dv_version_major: None,
        dv_version_minor: None,
        el_present_flag: None,
        hdr10_plus_present_flag: Some(true),
        height: Some(1080),
        is_anamorphic: None,
        is_avc: None,
        is_default: true,
        is_external: false,
        is_forced: false,
        is_hearing_impaired: None,
        is_interlaced: None,
        is_original: false,
        key_frames: None,
        language: Some("eng".to_owned()),
        level: Some(4.1f64.to_bits()),
        nal_length_size: None,
        path: None,
        pixel_format: None,
        profile: None,
        real_frame_rate: None,
        ref_frames: None,
        rotation: None,
        rpu_present_flag: None,
        sample_rate: None,
        stream_type: hermit_core::model::MediaStreamType::Video,
        time_base: None,
        title: None,
        width: Some(1920),
    }
}

#[test]
fn attachments_are_shown() {
    let shown = attachments_dto(&vec![AttachmentStreamInfoEntity {
        item_id: "x".to_owned(),
        index: 5,
        codec: Some("ttf".to_owned()),
        codec_tag: None,
        comment: Some("c".to_owned()),
        filename: Some("a.ttf".to_owned()),
        mime_type: Some("font/ttf".to_owned()),
    }]);
    assert_eq!(shown.len(), 1);
    assert_eq!(shown[0].index, 5);
    assert_eq!(shown[0].file_name.as_deref(), Some("a.ttf"));
    assert_eq!(shown[0].mime_type.as_deref(), Some("font/ttf"));
    assert_eq!(shown[0].delivery_url, None);
}
