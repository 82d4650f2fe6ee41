//! The statements, run against an in-memory SQLite database.
use hermit_core::guid::{guid_to_db, Guid};
use hermit_core::item_type_lookup::ItemTypeNames;
use hermit_core::items_query::InternalItemsQuery;
use hermit_core::linked_children_service::{
    affected_parents_query, artists_query, find_artists, linked_children_query, linked_ids,
    manual_parents_query, reroute_linked_children, upsert_linked_child_query, MANUAL_CHILD_TYPE,
};
use hermit_core::media_attachment_repository::{
    media_attachments_query, save_media_attachments, AttachmentStreamInfoEntity,
    MediaAttachmentQuery,
};
use hermit_core::media_segment_manager::{
    create_segment, delete_all_provider_segments_query, delete_provider_segments_query,
    delete_segment_query, delete_segments_query, get_segments, has_segments, is_type_supported,
    segment_count_query, segments_query, type_discriminant, MediaSegmentDto, MediaSegmentType,
};
use hermit_core::media_stream_repository::{
    media_streams_query, save_media_streams, stream_languages_query, MediaStreamInfoEntity,
    MediaStreamQuery,
};
use hermit_core::model::{BaseItemKind, ItemSortBy, MediaStreamType, PermissionKind, SortOrder};
use hermit_core::next_up_batch::{next_ids, next_up_batch, watched_ids, BatchRows};
use hermit_core::next_up_service::{
    episodes_by_ids_query, next_up_series_query, plan_batch, EpisodeRow,
    NextUpEpisodeBatchResult, PositionRow, WatchedRow,
};
use hermit_core::people_repository::{
    clear_credits_query, names_by_item, page_names, page_people, people_names_by_items_query,
    people_names_query, people_query, CreditUpdate, InternalPeopleQuery, PersonRow,
};
use hermit_core::playback_metrics::{
    record_decision, record_started, record_stopped, PlaybackDecision,
};
use hermit_core::similar_items_manager::{
    liked_query, movie_recommendations, people_sources, recently_played_query,
    similar_items_query, wanted_categories, RecommendationType, Seed, SimilarItemsRecommendation,
};
use hermit_core::sql::{BindValue, Piece, SqlBuilder};
use hermit_core::subtitle_manager::{
    after_removal, delete_subtitle_query, file_to_remove, no_providers, subtitle_path_query,
    Removal,
};
use hermit_core::service_error::ServiceError;
use hermit_core::table::Table;
use hermit_core::time::Timestamp;
use hermit_core::translate_query::{build_query, QueryShape};
use hermit_core::trickplay_manager::{
    delete_trickplay_query, get_trickplay_manifest, resolutions, resolutions_query,
    save_trickplay_query, trickplay_items_query, TrickplayInfoEntity,
};
use hermit_core::user_entity_ext::{
    has_permission, permission_query, seed_defaults, set_permission_queries,
};
use hermit_core::user_manager::{
    admin_count_query, clear_profile_image_query, delete_user_queries, insert_user_query,
    name_clash_query, permissions_query, preferences_query, profile_image_query,
    profile_image_queries, rename_query, schedules_query, user_by_id_query, user_by_name_query,
};
use hermit_core::user_view_manager::{latest_queries, user_views_query};
use sqlx::sqlite::{SqliteArguments, SqliteRow};
use sqlx::{Connection, Row, Sqlite, SqliteConnection};

const SCHEMA: &str = r#"
CREATE TABLE "BaseItems" ("Id" TEXT COLLATE NOCASE PRIMARY KEY, "Type" TEXT, "Name" TEXT,
  "CleanName" TEXT, "SortName" TEXT, "Path" TEXT, "IsFolder" INTEGER DEFAULT 0,
  "IsVirtualItem" INTEGER DEFAULT 0, "OwnerId" TEXT, "ExtraType" INTEGER,
  "PrimaryVersionId" TEXT, "ParentId" TEXT COLLATE NOCASE, "TopParentId" TEXT COLLATE NOCASE,
  "SeriesPresentationUniqueKey" TEXT, "PresentationUniqueKey" TEXT, "ParentIndexNumber" INTEGER,
  "IndexNumber" INTEGER, "DateCreated" TEXT, "MediaType" TEXT, "ProductionYear" INTEGER,
  "CommunityRating" REAL, "RunTimeTicks" INTEGER);
CREATE TABLE "UserData" ("ItemId" TEXT COLLATE NOCASE, "UserId" TEXT COLLATE NOCASE,
  "Played" INTEGER, "LastPlayedDate" TEXT, "IsFavorite" INTEGER DEFAULT 0, "Rating" REAL,
  "PlaybackPositionTicks" INTEGER DEFAULT 0, "PlayCount" INTEGER DEFAULT 0);
CREATE TABLE "AncestorIds" ("ItemId" TEXT COLLATE NOCASE, "ParentItemId" TEXT COLLATE NOCASE);
CREATE TABLE "LinkedChildren" ("ParentId" TEXT COLLATE NOCASE, "ChildId" TEXT COLLATE NOCASE,
  "ChildType" INTEGER, "SortOrder" INTEGER, PRIMARY KEY ("ParentId", "ChildId"));
CREATE TABLE "Peoples" ("Id" TEXT COLLATE NOCASE PRIMARY KEY, "Name" TEXT, "PersonType" TEXT);
CREATE TABLE "PeopleBaseItemMap" ("ItemId" TEXT COLLATE NOCASE, "PeopleId" TEXT COLLATE NOCASE,
  "Role" TEXT, "ListOrder" INTEGER, "SortOrder" INTEGER);
CREATE TABLE "ItemValues" ("ItemValueId" TEXT PRIMARY KEY, "Type" INTEGER, "Value" TEXT,
  "CleanValue" TEXT);
CREATE TABLE "ItemValuesMap" ("ItemId" TEXT COLLATE NOCASE, "ItemValueId" TEXT);
CREATE TABLE "MediaStreamInfos" ("ItemId" TEXT COLLATE NOCASE, "StreamIndex" INTEGER,
  "AspectRatio", "AverageFrameRate", "BitDepth", "BitRate", "BlPresentFlag", "ChannelLayout",
  "Channels", "Codec" TEXT, "CodecTag", "CodecTimeBase", "ColorPrimaries", "ColorSpace",
  "ColorTransfer", "Comment", "DvBlSignalCompatibilityId", "DvLevel", "DvProfile",
  "DvVersionMajor", "DvVersionMinor", "ElPresentFlag", "Hdr10PlusPresentFlag", "Height",
  "IsAnamorphic", "IsAvc", "IsDefault", "IsExternal" INTEGER, "IsForced", "IsHearingImpaired",
  "IsInterlaced", "IsOriginal", "KeyFrames", "Language" TEXT, "Level" REAL, "NalLengthSize",
  "Path" TEXT, "PixelFormat", "Profile", "RealFrameRate", "RefFrames", "Rotation",
  "RpuPresentFlag", "SampleRate", "StreamType" INTEGER, "TimeBase", "Title", "Width" INTEGER);
CREATE TABLE "AttachmentStreamInfos" ("ItemId" TEXT COLLATE NOCASE, "Index" INTEGER,
  "Codec" TEXT, "CodecTag" TEXT, "Comment" TEXT, "Filename" TEXT, "MimeType" TEXT);
CREATE TABLE "MediaSegments" ("Id" TEXT COLLATE NOCASE PRIMARY KEY, "EndTicks" INTEGER,
  "ItemId" TEXT COLLATE NOCASE, "SegmentProviderId" TEXT, "StartTicks" INTEGER, "Type" INTEGER);
CREATE TABLE "TrickplayInfos" ("ItemId" TEXT COLLATE NOCASE, "Width" INTEGER,
  "Bandwidth" INTEGER, "Height" INTEGER, "Interval" INTEGER, "ThumbnailCount" INTEGER,
  "TileHeight" INTEGER, "TileWidth" INTEGER, PRIMARY KEY ("ItemId", "Width"));
CREATE TABLE "PlaybackSessions" ("PlaySessionId" TEXT PRIMARY KEY, "ItemId" TEXT, "UserId" TEXT,
  "Client" TEXT, "DeviceId" TEXT, "PlayMethod" TEXT, "TranscodeReasons" TEXT, "Container" TEXT,
  "VideoCodec" TEXT, "AudioCodec" TEXT, "TargetContainer" TEXT, "TargetVideoCodec" TEXT,
  "TargetAudioCodec" TEXT, "DecidedAt" TEXT, "StartedAt" TEXT, "StoppedAt" TEXT,
  "PositionTicks" INTEGER);
CREATE TABLE "Users" ("Id" TEXT COLLATE NOCASE PRIMARY KEY, "AuthenticationProviderId" TEXT,
  "DisplayCollectionsView", "DisplayMissingEpisodes", "EnableAutoLogin", "EnableLocalPassword",
  "EnableNextEpisodeAutoPlay", "EnableUserPreferenceAccess", "HidePlayedInLatest",
  "CastReceiverId" TEXT, "InternalId" INTEGER, "InvalidLoginAttemptCount" INTEGER,
  "MaxActiveSessions" INTEGER, "MustUpdatePassword", "NormalizedUsername" TEXT,
  "PasswordResetProviderId" TEXT, "PlayDefaultAudioTrack", "RememberAudioSelections",
  "RememberSubtitleSelections", "RowVersion" INTEGER, "SubtitleMode" INTEGER,
  "SyncPlayAccess" INTEGER, "Username" TEXT);
CREATE TABLE "Permissions" ("Kind" INTEGER, "RowVersion" INTEGER,
  "UserId" TEXT COLLATE NOCASE, "Value" INTEGER);
CREATE TABLE "Preferences" ("Kind" INTEGER, "RowVersion" INTEGER,
  "UserId" TEXT COLLATE NOCASE, "Value" TEXT);
CREATE TABLE "AccessSchedules" ("Id" INTEGER, "UserId" TEXT COLLATE NOCASE,
  "DayOfWeek" INTEGER, "StartHour" REAL, "EndHour" REAL);
CREATE TABLE "ImageInfos" ("UserId" TEXT COLLATE NOCASE, "Path" TEXT, "LastModified" TEXT);
"#;

fn sql_text(builder: &SqlBuilder) -> String {
    let mut out = String::new();
    for piece in &builder.pieces {
        match piece {
            Piece::Sql(text) => out.push_str(text),
            Piece::Bind(_) => out.push('?'),
        }
    }
    out
}

fn moment(t: &Timestamp) -> String {
    let seconds = t.nanos.div_euclid(1_000_000_000) as i64;
    let nanos = t.nanos.rem_euclid(1_000_000_000) as u32;
    let at = chrono::DateTime::from_timestamp(seconds, nanos).expect("a point in the calendar");
    format!("{}.{:07}", at.format("%Y-%m-%d %H:%M:%S"), nanos / 100)
}

fn bound<'q>(
    text: &'q str,
    builder: &SqlBuilder,
) -> sqlx::query::Query<'q, Sqlite, SqliteArguments<'q>> {
    let mut q = sqlx::query(text);
    for piece in &builder.pieces {
        let Piece::Bind(value) = piece else { continue };
        q = match value {
            BindValue::Text(v) => q.bind(v.clone()),
            BindValue::OptionalText(v) => q.bind(v.clone()),
            BindValue::Int(v) => q.bind(*v),
            BindValue::OptionalInt(v) => q.bind(*v),
            BindValue::Flag(v) => q.bind(*v),
            BindValue::OptionalFlag(v) => q.bind(*v),
            BindValue::Time(t) => q.bind(moment(t)),
            BindValue::OptionalTime(t) => q.bind(t.as_ref().map(moment)),
            BindValue::StoredTime(t) => q.bind(moment(t)),
            BindValue::Real(bits) => q.bind(f64::from_bits(*bits)),
            BindValue::OptionalReal(bits) => q.bind(bits.map(f64::from_bits)),
            BindValue::ValueType(k) => q.bind(*k as i64),
            BindValue::Permission(k) => q.bind(*k as i64),
            BindValue::Preference(k) => q.bind(*k as i64),
            BindValue::StreamType(k) => q.bind(*k as i64),
        };
    }
    q
}

struct Db {
    rt: tokio::runtime::Runtime,
    conn: SqliteConnection,
}

impl Db {
    fn new() -> Db {
        let rt = tokio::runtime::Builder::new_current_thread()
            .enable_all()
            .build()
            .expect("runtime");
        let mut conn =
            rt.block_on(SqliteConnection::connect("sqlite::memory:")).expect("connect");
        for statement in SCHEMA.split(';').filter(|s| !s.trim().is_empty()) {
            rt.block_on(sqlx::query(statement).execute(&mut conn)).expect("create table");
        }
        Db { rt, conn }
    }

    fn raw(&mut self, text: &str) {
        self.rt.block_on(sqlx::query(text).execute(&mut self.conn)).expect("statement");
    }

    fn run(&mut self, builder: &SqlBuilder) -> u64 {
        let text = sql_text(builder);
        let q = bound(&text, builder);
        match self.rt.block_on(q.execute(&mut self.conn)) {
            Ok(done) => done.rows_affected(),
            Err(e) => panic!("{e}: {text}"),
        }
    }

    fn run_all(&mut self, builders: &[SqlBuilder]) {
        for b in builders {
            self.run(b);
        }
    }

    fn rows(&mut self, builder: &SqlBuilder) -> Vec<SqliteRow> {
        let text = sql_text(builder);
        let q = bound(&text, builder);
        match self.rt.block_on(q.fetch_all(&mut self.conn)) {
            Ok(rows) => rows,
            Err(e) => panic!("{e}: {text}"),
        }
    }

    fn texts(&mut self, builder: &SqlBuilder) -> Vec<String> {
        self.rows(builder).iter().map(|r| r.get::<String, _>(0)).collect()
    }

    fn named(&mut self, builder: &SqlBuilder) -> Vec<Option<String>> {
        self.rows(builder).iter().map(|r| r.get::<Option<String>, _>("Name")).collect()
    }

    fn seed_item(&mut self, id: Guid, kind: BaseItemKind, name: &str) {
        let stored = names().stored_type_name(kind).expect("a type name");
        self.raw(&format!(
            r#"INSERT INTO "BaseItems" ("Id", "Type", "Name", "CleanName", "SortName")
               VALUES ('{}', '{stored}', '{name}', '{}', '{name}')"#,
            guid_to_db(id),
            name.to_lowercase(),
        ));
    }

    fn seed_genre(&mut self, item: Guid, genre: &str) {
        self.raw(&format!(
            r#"INSERT INTO "ItemValues" VALUES ('{genre}', 2, '{genre}', '{}')
               ON CONFLICT DO NOTHING"#,
            genre.to_lowercase(),
        ));
        self.raw(&format!(
            r#"INSERT INTO "ItemValuesMap" VALUES ('{}', '{genre}')"#,
            guid_to_db(item),
        ));
    }

    fn seed_movie(&mut self, id: Guid, name: &str, genres: &[&str]) {
        self.seed_item(id, BaseItemKind::Movie, name);
        for genre in genres {
            self.seed_genre(id, genre);
        }
    }

    fn seed_episode(&mut self, id: Guid, key: &str, season: i64, episode: i64, top: Guid) {
        self.seed_item(id, BaseItemKind::Episode, &format!("S{season}E{episode}"));
        self.raw(&format!(
            r#"UPDATE "BaseItems" SET "SeriesPresentationUniqueKey" = '{key}',
               "ParentIndexNumber" = {season}, "IndexNumber" = {episode}, "TopParentId" = '{}'
               WHERE "Id" = '{}'"#,
            guid_to_db(top),
            guid_to_db(id),
        ));
    }

    fn seed_played(&mut self, user: Guid, item: Guid, last_played: &str) {
        self.raw(&format!(
            r#"INSERT INTO "UserData" ("ItemId", "UserId", "Played", "LastPlayedDate")
               VALUES ('{}', '{}', 1, '{last_played}')"#,
            guid_to_db(item),
            guid_to_db(user),
        ));
    }

    fn update_people(&mut self, item: Guid, people: &[PersonRow]) {
        let mut update = CreditUpdate::new(item, people);
        self.run(&clear_credits_query(item));
        while let Some(lookup) = update.lookup() {
            let existing = self.texts(&lookup).into_iter().next();
            if let Some(insert) = update.settle(existing) {
                self.run(&insert);
            }
        }
        self.run_all(&update.finish());
    }

    fn get_people(&mut self, query: &InternalPeopleQuery) -> (Vec<PersonRow>, i32) {
        let rows: Vec<PersonRow> = self
            .rows(&people_query(query))
            .iter()
            .map(|r| PersonRow { id: r.get(0), name: r.get(1), person_type: r.get(2) })
            .collect();
        let page = page_people(rows, query);
        (page.items, page.total_record_count.expect("a count"))
    }

    fn positions(&mut self, builder: &SqlBuilder) -> Vec<PositionRow> {
        self.rows(builder)
            .iter()
            .map(|r| PositionRow {
                key: r.get(0),
                id: r.get(1),
                season: r.get(2),
                episode: r.get(3),
            })
            .collect()
    }

    fn episodes(&mut self, builder: &SqlBuilder) -> Vec<EpisodeRow> {
        self.rows(builder)
            .iter()
            .map(|r| EpisodeRow {
                id: r.get("Id"),
                series_key: r.get("SeriesPresentationUniqueKey"),
                season: r.get("ParentIndexNumber"),
                episode: r.get("IndexNumber"),
            })
            .collect()
    }

    fn batch(
        &mut self,
        user: Guid,
        keys: &[String],
        specials: bool,
        rewatching: bool,
    ) -> Table<String, NextUpEpisodeBatchResult> {
        let user = guid_to_db(user);
        let plan = plan_batch(Some(&user), keys, specials, rewatching, &names())
            .expect("a plan")
            .expect("keys were given");
        let mut rows = BatchRows {
            played: self.positions(&plan.played),
            by_date: Vec::new(),
            unplayed: self.positions(&plan.unplayed),
            replayable: Vec::new(),
            watched: Vec::new(),
            next: Vec::new(),
            specials: Vec::new(),
        };
        if let Some(q) = &plan.by_date {
            rows.by_date = self
                .rows(q)
                .iter()
                .map(|r| WatchedRow { key: r.get(0), id: r.get(1) })
                .collect();
        }
        if let Some(q) = &plan.replayable {
            rows.replayable = self.positions(q);
        }
        if let Some(q) = &plan.specials {
            rows.specials = self.episodes(q);
        }
        if let Some(q) = episodes_by_ids_query(&watched_ids(&rows)) {
            rows.watched = self.episodes(&q);
        }
        if let Some(q) = episodes_by_ids_query(&next_ids(keys, &rows)) {
            rows.next = self.episodes(&q);
        }
        next_up_batch(keys, rows, specials, rewatching)
    }

    fn streams(&mut self, query: &MediaStreamQuery) -> Vec<(i64, Option<String>)> {
        self.rows(&media_streams_query(query))
            .iter()
            .map(|r| (r.get("StreamIndex"), r.get("Language")))
            .collect()
    }

    fn segments(
        &mut self,
        item: Guid,
        types: Option<&Vec<MediaSegmentType>>,
    ) -> Vec<MediaSegmentDto> {
        let rows = self
            .rows(&segments_query(item))
            .iter()
            .map(|r| {
                let kind: i64 = r.get("Type");
                Ok(MediaSegmentDto {
                    id: id_of(&r.get::<String, _>("Id")),
                    item_id: id_of(&r.get::<String, _>("ItemId")),
                    segment_type: segment_kind(kind),
                    start_ticks: r.get("StartTicks"),
                    end_ticks: r.get("EndTicks"),
                })
            })
            .collect();
        get_segments(rows, types).expect("readable rows")
    }

    fn segment_count(&mut self, item: Guid) -> i64 {
        self.rows(&segment_count_query(item))[0].get(0)
    }

    fn trickplay(&mut self, builder: &SqlBuilder) -> Vec<TrickplayInfoEntity> {
        self.rows(builder)
            .iter()
            .map(|r| TrickplayInfoEntity {
                item_id: r.get("ItemId"),
                width: r.get("Width"),
                bandwidth: r.get("Bandwidth"),
                height: r.get("Height"),
                interval: r.get("Interval"),
                thumbnail_count: r.get("ThumbnailCount"),
                tile_height: r.get("TileHeight"),
                tile_width: r.get("TileWidth"),
            })
            .collect()
    }
}

fn id_of(text: &str) -> Guid {
    Guid::from_u128(uuid::Uuid::parse_str(text).expect("an identifier").as_u128())
}

fn segment_kind(number: i64) -> MediaSegmentType {
    let all = [
        MediaSegmentType::Unknown,
        MediaSegmentType::Commercial,
        MediaSegmentType::Preview,
        MediaSegmentType::Recap,
        MediaSegmentType::Outro,
        MediaSegmentType::Intro,
    ];
    all.into_iter()
        .find(|k| i64::from(type_discriminant(*k)) == number)
        .expect("a kind of segment")
}

fn names() -> ItemTypeNames {
    let e = |kind: BaseItemKind, name: &str| {
        (kind, format!("MediaBrowser.Controller.Entities.{name}"))
    };
    ItemTypeNames {
        entries: vec![
            e(BaseItemKind::Movie, "Movies.Movie"),
            e(BaseItemKind::Episode, "TV.Episode"),
            e(BaseItemKind::Series, "TV.Series"),
            e(BaseItemKind::Playlist, "Playlists.Playlist"),
            e(BaseItemKind::BoxSet, "Movies.BoxSet"),
            e(BaseItemKind::MusicArtist, "Audio.MusicArtist"),
            e(BaseItemKind::CollectionFolder, "CollectionFolder"),
            e(BaseItemKind::UserView, "UserView"),
        ],
    }
}

fn g(n: u128) -> Guid {
    Guid::from_u128(n)
}

fn person(name: &str, person_type: &str) -> PersonRow {
    PersonRow {
        id: String::new(),
        name: name.to_owned(),
        person_type: Some(person_type.to_owned()),
    }
}

fn everyone() -> InternalPeopleQuery {
    InternalPeopleQuery {
        item_id: Guid::nil(),
        parent_id: None,
        person_types: Vec::new(),
        exclude_person_types: Vec::new(),
        max_list_order: None,
        name_contains: None,
        name_starts_with: None,
        name_less_than: None,
        name_starts_with_or_greater: None,
        user_id: None,
        is_favorite: None,
        start_index: None,
        limit: 0,
    }
}

fn people_of(item: Guid) -> InternalPeopleQuery {
    let mut q = everyone();
    q.item_id = item;
    q
}

fn stream(index: i64, kind: MediaStreamType, language: Option<&str>) -> MediaStreamInfoEntity {
    MediaStreamInfoEntity {
        item_id: String::new(),
        stream_index: index,
        aspect_ratio: None,
        average_frame_rate: None,
        bit_depth: None,
        bit_rate: None,
        bl_present_flag: None,
        channel_layout: None,
        channels: None,
        codec: Some("h264".to_owned()),
        codec_tag: None,
        codec_time_base: None,
        color_primaries: None,
        color_space: None,
        color_transfer: None,
        comment: None,
        dv_bl_signal_compatibility_id: None,
        dv_level: None,
        dv_profile: None,
        dv_version_major: None,
        dv_version_minor: None,
        el_present_flag: None,
        hdr10_plus_present_flag: None,
        height: None,
        is_anamorphic: None,
        is_avc: None,
        is_default: false,
        is_external: false,
        is_forced: false,
        is_hearing_impaired: None,
        is_interlaced: None,
        is_original: false,
        key_frames: None,
        language: language.map(str::to_owned),
        level: Some(4.1f64.to_bits()),
        nal_length_size: None,
        path: None,
        pixel_format: None,
        profile: None,
        real_frame_rate: None,
        ref_frames: None,
        rotation: None,
        rpu_present_flag: None,
        sample_rate: None,
        stream_type: kind,
        time_base: None,
        title: None,
        width: Some(1920),
    }
}

fn external_subtitle(index: i64, path: Option<&str>) -> MediaStreamInfoEntity {
    let mut s = stream(index, MediaStreamType::Subtitle, Some("eng"));
    s.is_external = true;
    s.path = path.map(str::to_owned);
    s
}

#[test]
fn upsert_get_and_type_filter() {
    let mut db = Db::new();
    let (parent, child_a, child_b) = (g(0x11), g(0x12), g(0x13));
    db.run(&upsert_linked_child_query(parent, child_a, MANUAL_CHILD_TYPE));
    db.run(&upsert_linked_child_query(parent, child_b, 1));

    let all = db.texts(&linked_children_query(parent, None));
    assert_eq!(linked_ids(&all).len(), 2);
    let manual = db.texts(&linked_children_query(parent, Some(MANUAL_CHILD_TYPE)));
    assert_eq!(linked_ids(&manual), vec![child_a]);

    db.run(&upsert_linked_child_query(parent, child_b, MANUAL_CHILD_TYPE));
    let manual = db.texts(&linked_children_query(parent, Some(MANUAL_CHILD_TYPE)));
    assert_eq!(linked_ids(&manual).len(), 2);
}

#[test]
fn manual_linked_parents_and_reroute() {
    let mut db = Db::new();
    let (parent1, parent2, from_child, to_child) = (g(0x21), g(0x22), g(0x23), g(0x24));
    db.seed_item(parent1, BaseItemKind::Playlist, "P");
    db.seed_item(parent2, BaseItemKind::BoxSet, "B");
    db.run(&upsert_linked_child_query(parent1, from_child, MANUAL_CHILD_TYPE));
    db.run(&upsert_linked_child_query(parent2, from_child, MANUAL_CHILD_TYPE));

    let every = manual_parents_query(&names(), from_child, None).expect("a query");
    assert_eq!(db.texts(&every).len(), 2);
    let playlists = manual_parents_query(&names(), from_child, Some(BaseItemKind::Playlist))
        .expect("a query");
    assert_eq!(linked_ids(&db.texts(&playlists)), vec![parent1]);
    assert!(manual_parents_query(&names(), from_child, Some(BaseItemKind::Year)).is_none());

    let affected = db.texts(&affected_parents_query(from_child));
    let reroute = reroute_linked_children(&affected, from_child, to_child);
    assert_eq!(reroute.parents.len(), 2);
    db.run_all(&reroute.statements);
    assert!(db.texts(&every).is_empty());
    let moved = manual_parents_query(&names(), to_child, None).expect("a query");
    assert_eq!(db.texts(&moved).len(), 2);
}

#[test]
fn rerouting_keeps_one_link_where_both_children_were_linked() {
    let mut db = Db::new();
    let (parent, from_child, to_child) = (g(0x31), g(0x32), g(0x33));
    db.run(&upsert_linked_child_query(parent, from_child, MANUAL_CHILD_TYPE));
    db.run(&upsert_linked_child_query(parent, to_child, MANUAL_CHILD_TYPE));
    let affected = db.texts(&affected_parents_query(from_child));
    let reroute = reroute_linked_children(&affected, from_child, to_child);
    db.run_all(&reroute.statements);
    let left = db.texts(&linked_children_query(parent, None));
    assert_eq!(linked_ids(&left), vec![to_child]);
}

#[test]
fn find_artists_matches_case_insensitively() {
    let mut db = Db::new();
    db.seed_item(g(0x41), BaseItemKind::MusicArtist, "The Beatles");
    db.seed_item(g(0x42), BaseItemKind::MusicArtist, "Queen");
    let wanted = vec!["the beatles".to_owned(), "Unknown".to_owned()];
    let rows = db.named(&artists_query(&names(), &wanted).expect("a query"));
    assert_eq!(rows, vec![Some("The Beatles".to_owned())]);
    let found = find_artists(&wanted, &rows);
    assert_eq!(found.entries.len(), 1);
    assert_eq!(found.get(&"the beatles".to_owned()), Some(&vec![0]));
    assert!(!found.contains(&"Unknown".to_owned()));
    assert!(artists_query(&names(), &Vec::new()).is_none());
}

#[test]
fn update_and_get_people_for_item_in_credit_order() {
    let mut db = Db::new();
    let item = g(0x51);
    db.update_people(
        item,
        &[person("Alice", "Actor"), person("Bob", "Director"), person("Carol", "Actor")],
    );
    let (people, total) = db.get_people(&people_of(item));
    assert_eq!(total, 3);
    assert_eq!(people[0].name, "Alice");
    assert_eq!(people[1].name, "Bob");
    assert_eq!(people[2].name, "Carol");
}

#[test]
fn person_type_filter_and_names() {
    let mut db = Db::new();
    let item = g(0x52);
    db.update_people(item, &[person("Alice", "Actor"), person("Bob", "Director")]);
    let mut actors = people_of(item);
    actors.person_types = vec!["Actor".to_owned()];
    let (people, _) = db.get_people(&actors);
    assert_eq!(people.len(), 1);
    assert_eq!(people[0].name, "Alice");

    let all = people_of(item);
    let names = page_names(db.texts(&people_names_query(&all)), &all);
    assert_eq!(names, vec!["Alice".to_owned(), "Bob".to_owned()]);
}

#[test]
fn the_remaining_people_filters() {
    let mut db = Db::new();
    let item = g(0x53);
    db.update_people(
        item,
        &[person("alice", "Actor"), person("bob", "Director"), person("carol", "Actor")],
    );
    let mut q = people_of(item);
    q.exclude_person_types = vec!["Director".to_owned()];
    assert_eq!(db.get_people(&q).1, 2);
    let mut q = people_of(item);
    q.name_contains = Some("ARO".to_owned());
    assert_eq!(db.get_people(&q).0[0].name, "carol");
    let mut q = people_of(item);
    q.name_starts_with = Some("B".to_owned());
    assert_eq!(db.get_people(&q).0[0].name, "bob");
    let mut q = people_of(item);
    q.name_less_than = Some("B".to_owned());
    assert_eq!(db.get_people(&q).0[0].name, "alice");
    let mut q = people_of(item);
    q.name_starts_with_or_greater = Some("b".to_owned());
    assert_eq!(db.get_people(&q).1, 2);
    let mut q = people_of(item);
    q.max_list_order = Some(0);
    assert_eq!(db.get_people(&q).1, 1);
    let mut q = people_of(item);
    q.start_index = Some(1);
    q.limit = 1;
    let (people, total) = db.get_people(&q);
    assert_eq!((people[0].name.as_str(), total), ("bob", 3));
}

#[test]
fn names_by_items_groups_and_dedupes() {
    let mut db = Db::new();
    let (item_a, item_b) = (g(0x54), g(0x55));
    db.update_people(item_a, &[person("Alice", "Actor")]);
    db.update_people(item_b, &[person("Alice", "Actor"), person("Bob", "Director")]);
    let pairs = |db: &mut Db, q: SqlBuilder| -> Vec<(String, String)> {
        db.rows(&q).iter().map(|r| (r.get(0), r.get(1))).collect()
    };
    let q = people_names_by_items_query(&[item_a, item_b], &[]).expect("a query");
    let map = names_by_item(&pairs(&mut db, q));
    assert_eq!(map.get(&item_a).map(Vec::len), Some(1));
    assert_eq!(map.get(&item_b).map(Vec::len), Some(2));

    let q = people_names_by_items_query(&[item_b], &["Director".to_owned()]).expect("a query");
    let map = names_by_item(&pairs(&mut db, q));
    assert_eq!(map.get(&item_b), Some(&vec!["Bob".to_owned()]));
    assert!(people_names_by_items_query(&[], &[]).is_none());
}

#[test]
fn no_item_scope_collapses_by_name() {
    let mut db = Db::new();
    db.update_people(g(0x56), &[person("Alice", "Actor")]);
    db.update_people(g(0x57), &[person("Alice", "GuestStar")]);
    let (people, _) = db.get_people(&everyone());
    assert_eq!(people.len(), 1);
    assert_eq!(people[0].name, "Alice");
}

#[test]
fn similar_items_share_a_genre_and_exclude_the_seed() {
    let mut db = Db::new();
    let seed = g(0x101);
    db.seed_movie(seed, "Alien", &["SciFi", "Horror"]);
    db.seed_movie(g(0x102), "Aliens", &["SciFi", "Action"]);
    db.seed_movie(g(0x103), "Amelie", &["Romance"]);
    let kind = names().stored_type_name(BaseItemKind::Movie).expect("a type name");
    let q = similar_items_query(seed, Some(&kind), &[], None).expect("a query");
    assert_eq!(db.named(&q), vec![Some("Aliens".to_owned())]);
    let q = similar_items_query(seed, Some(&kind), &[g(0x102)], None).expect("a query");
    assert!(db.rows(&q).is_empty());
}

#[test]
fn weighted_score_ranks_shared_director_over_shared_genre() {
    let mut db = Db::new();
    let (seed, a, b, c) = (g(0x201), g(0x202), g(0x203), g(0x204));
    db.seed_movie(seed, "Seed", &["SciFi"]);
    db.seed_movie(a, "SharesDirector", &["Drama"]);
    db.seed_movie(b, "SharesGenre", &["SciFi"]);
    db.seed_movie(c, "SharesNothing", &["Romance"]);
    db.update_people(seed, &[person("Chris Director", "Director")]);
    db.update_people(a, &[person("Chris Director", "Director")]);
    let kind = names().stored_type_name(BaseItemKind::Movie).expect("a type name");
    let q = similar_items_query(seed, Some(&kind), &[], None).expect("a query");
    assert_eq!(
        db.named(&q),
        vec![Some("SharesDirector".to_owned()), Some("SharesGenre".to_owned())]
    );
}

#[test]
fn missing_seed_yields_no_similar_items() {
    assert!(similar_items_query(g(99), None, &[], None).is_none());
}

#[test]
fn recommendations_are_empty_without_watch_history() {
    let mut db = Db::new();
    let user = g(0x301);
    db.seed_movie(g(0x302), "Unwatched A", &["SciFi"]);
    db.seed_movie(g(0x303), "Unwatched B", &["SciFi"]);
    assert_eq!(wanted_categories(true, 6), Some(6));
    let played = recently_played_query(user, Guid::nil());
    assert!(db.rows(&build_query(&played, QueryShape::FullRows, &names())).is_empty());
    let liked = liked_query(user, Guid::nil(), Vec::new());
    assert!(db.rows(&build_query(&liked, QueryShape::FullRows, &names())).is_empty());
    let recs: Vec<SimilarItemsRecommendation<String>> =
        movie_recommendations(Vec::new(), Vec::new(), Vec::new(), Vec::new(), 6);
    assert!(recs.is_empty());
}

#[test]
fn recommendations_from_recently_played() {
    let mut db = Db::new();
    let (user, played, similar) = (g(0x311), g(0x312), g(0x313));
    db.seed_movie(played, "Played", &["SciFi", "Horror"]);
    db.seed_movie(similar, "Similar", &["SciFi"]);
    db.seed_played(user, played, "2021-01-01 00:00:00");

    let query = recently_played_query(user, Guid::nil());
    let rows = db.rows(&build_query(&query, QueryShape::FullRows, &names()));
    assert_eq!(rows.len(), 1);
    let seed_id: String = rows[0].get("Id");
    assert_eq!(people_sources(&[id_of(&seed_id)]), vec![played]);
    let kind: String = rows[0].get("Type");
    let q = similar_items_query(played, Some(&kind), &[], Some(5)).expect("a query");
    let items = db.named(&q);
    let seed = Seed { id: seed_id, name: rows[0].get("Name"), items };
    let recs = movie_recommendations(vec![seed], Vec::new(), Vec::new(), Vec::new(), 6);
    assert_eq!(recs.len(), 1);
    assert_eq!(recs[0].baseline_item_name, "Played");
    assert_eq!(recs[0].recommendation_type, RecommendationType::SimilarToRecentlyPlayed);
    assert_eq!(recs[0].items, vec![Some("Similar".to_owned())]);
}

#[test]
fn series_keys_ordered_by_recent_play() {
    let mut db = Db::new();
    let (top, user) = (g(0x401), g(0x402));
    db.seed_episode(g(0x403), "series-a", 1, 1, top);
    db.seed_episode(g(0x404), "series-b", 1, 1, top);
    db.seed_played(user, g(0x403), "2020-01-01 00:00:00");
    db.seed_played(user, g(0x404), "2021-01-01 00:00:00");
    let cutoff = Timestamp { nanos: 946_684_800_000_000_000 };
    let id = guid_to_db(user);
    let q = next_up_series_query(Some(&id), &[top], cutoff, &names())
        .expect("a user")
        .expect("a parent");
    assert_eq!(db.texts(&q), vec!["series-b".to_owned(), "series-a".to_owned()]);
    let late = Timestamp { nanos: 1_600_000_000_000_000_000 };
    let q = next_up_series_query(Some(&id), &[top], late, &names())
        .expect("a user")
        .expect("a parent");
    assert_eq!(db.texts(&q), vec!["series-b".to_owned()]);
    let q = next_up_series_query(Some(&id), &[top], Timestamp::earliest(), &names())
        .expect("a user")
        .expect("a parent");
    assert_eq!(db.texts(&q).len(), 2);
}

#[test]
fn next_up_picks_episode_after_last_watched() {
    let mut db = Db::new();
    let (top, user) = (g(0x411), g(0x412));
    let (e1, e2, e3) = (g(0x413), g(0x414), g(0x415));
    db.seed_episode(e1, "series-a", 1, 1, top);
    db.seed_episode(e2, "series-a", 1, 2, top);
    db.seed_episode(e3, "series-a", 1, 3, top);
    db.seed_played(user, e1, "2021-01-01 00:00:00");
    db.seed_played(user, e2, "2021-01-02 00:00:00");
    let batch = db.batch(user, &["series-a".to_owned()], false, false);
    let series = batch.get(&"series-a".to_owned()).expect("series present");
    let ids = |row: &Option<EpisodeRow>| row.as_ref().map(|e| e.id.clone());
    assert_eq!(ids(&series.last_watched), Some(guid_to_db(e2)));
    assert_eq!(ids(&series.next_up), Some(guid_to_db(e3)));
    assert!(series.last_watched_for_rewatching.is_none());
}

#[test]
fn rewatching_goes_on_after_the_newest_play() {
    let mut db = Db::new();
    let (top, user) = (g(0x421), g(0x422));
    let (e1, e2, e3) = (g(0x423), g(0x424), g(0x425));
    db.seed_episode(e1, "series-a", 1, 1, top);
    db.seed_episode(e2, "series-a", 1, 2, top);
    db.seed_episode(e3, "series-a", 1, 3, top);
    db.seed_played(user, e1, "2021-03-01 00:00:00");
    db.seed_played(user, e2, "2021-01-02 00:00:00");
    db.seed_played(user, e3, "2021-01-03 00:00:00");
    let batch = db.batch(user, &["series-a".to_owned()], false, true);
    let series = batch.get(&"series-a".to_owned()).expect("series present");
    let ids = |row: &Option<EpisodeRow>| row.as_ref().map(|e| e.id.clone());
    assert_eq!(ids(&series.last_watched), Some(guid_to_db(e3)));
    assert_eq!(ids(&series.next_up), None);
    assert_eq!(ids(&series.last_watched_for_rewatching), Some(guid_to_db(e1)));
    assert_eq!(ids(&series.next_played_for_rewatching), Some(guid_to_db(e2)));
}

#[test]
fn specials_included_when_requested() {
    let mut db = Db::new();
    let (top, user) = (g(0x431), g(0x432));
    let (e1, special) = (g(0x433), g(0x434));
    db.seed_episode(e1, "series-a", 1, 1, top);
    db.seed_episode(special, "series-a", 0, 1, top);
    db.seed_played(user, e1, "2021-01-01 00:00:00");
    let batch = db.batch(user, &["series-a".to_owned()], true, false);
    let series = batch.get(&"series-a".to_owned()).expect("series present");
    assert_eq!(series.specials.len(), 1);
    assert_eq!(series.specials[0].id, guid_to_db(special));
}

#[test]
fn save_filter_and_languages() {
    let mut db = Db::new();
    let item = g(0x501);
    let all = vec![
        stream(0, MediaStreamType::Video, None),
        stream(1, MediaStreamType::Audio, Some("eng")),
        stream(2, MediaStreamType::Subtitle, None),
    ];
    db.run_all(&save_media_streams(item, &all));
    let every =
        db.streams(&MediaStreamQuery { item_id: item, stream_type: None, index: None });
    assert_eq!(every.len(), 3);
    assert_eq!(every[0].0, 0);
    let audio = db.streams(&MediaStreamQuery {
        item_id: item,
        stream_type: Some(MediaStreamType::Audio),
        index: None,
    });
    assert_eq!(audio, vec![(1, Some("eng".to_owned()))]);
    let second =
        db.streams(&MediaStreamQuery { item_id: item, stream_type: None, index: Some(2) });
    assert_eq!(second, vec![(2, None)]);
    let langs = db.texts(&stream_languages_query(MediaStreamType::Subtitle));
    assert_eq!(langs, vec!["und".to_owned()]);

    let q = MediaStreamQuery { item_id: item, stream_type: None, index: Some(1) };
    let row = &db.rows(&media_streams_query(&q))[0];
    assert_eq!(row.get::<f64, _>("Level"), 4.1);
    assert_eq!(row.get::<i64, _>("Width"), 1920);
    assert_eq!(row.get::<String, _>("Codec"), "h264");

    db.run_all(&save_media_streams(item, &vec![stream(7, MediaStreamType::Lyric, None)]));
    let every =
        db.streams(&MediaStreamQuery { item_id: item, stream_type: None, index: None });
    assert_eq!(every, vec![(7, None)]);
}

#[test]
fn saved_streams_are_read_in_order_and_others_stay() {
    let mut db = Db::new();
    let of = |item_id: Guid| MediaStreamQuery { item_id, stream_type: None, index: None };
    let (item, other) = (g(0x521), g(0x522));
    let audio = |index: i64, language: &str| stream(index, MediaStreamType::Audio, Some(language));
    let told = |rows: &[(i64, &str)]| -> Vec<(i64, Option<String>)> {
        rows.iter().map(|(i, l)| (*i, Some((*l).to_owned()))).collect()
    };
    db.run_all(&save_media_streams(other, &vec![audio(4, "swe")]));
    db.run_all(&save_media_streams(item, &vec![audio(0, "old"), audio(5, "old")]));
    db.run_all(&save_media_streams(item, &vec![audio(2, "fra"), audio(0, "eng")]));
    assert_eq!(db.streams(&of(item)), told(&[(0, "eng"), (2, "fra")]));
    let rows = db.rows(&media_streams_query(&of(item)));
    assert_eq!(rows[0].get::<String, _>("ItemId"), "00000000-0000-0000-0000-000000000521");
    assert_eq!(rows[0].get::<Option<String>, _>("Codec").as_deref(), Some("h264"));
    assert_eq!(rows[0].get::<Option<f64>, _>("Level"), Some(4.1));
    assert_eq!(rows[0].get::<Option<i64>, _>("Width"), Some(1920));
    assert_eq!(rows[0].get::<Option<i64>, _>("Height"), None);
    assert_eq!(db.streams(&of(other)), told(&[(4, "swe")]));
    db.run_all(&save_media_streams(item, &Vec::new()));
    assert!(db.streams(&of(item)).is_empty());
    assert_eq!(db.streams(&of(other)), told(&[(4, "swe")]));
}

#[test]
fn save_replaces_and_filter_by_index() {
    let mut db = Db::new();
    let item = g(0x511);
    let attachment = |index: i64, codec: &str| AttachmentStreamInfoEntity {
        item_id: String::new(),
        index,
        codec: Some(codec.to_owned()),
        codec_tag: None,
        comment: None,
        filename: Some(format!("a{index}.ttf")),
        mime_type: None,
    };
    db.run_all(&save_media_attachments(item, &vec![attachment(0, "ttf"), attachment(1, "otf")]));
    let all = media_attachments_query(&MediaAttachmentQuery { item_id: item, index: None });
    assert_eq!(db.rows(&all).len(), 2);
    let one = media_attachments_query(&MediaAttachmentQuery { item_id: item, index: Some(1) });
    let rows = db.rows(&one);
    assert_eq!(rows.len(), 1);
    assert_eq!(rows[0].get::<String, _>("Codec"), "otf");
    assert_eq!(rows[0].get::<String, _>("Filename"), "a1.ttf");
    db.run_all(&save_media_attachments(item, &Vec::new()));
    assert!(db.rows(&all).is_empty());
}

fn segment(item: Guid, kind: MediaSegmentType, start: i64, end: i64) -> MediaSegmentDto {
    MediaSegmentDto {
        id: Guid::nil(),
        item_id: item,
        segment_type: kind,
        start_ticks: start,
        end_ticks: end,
    }
}

#[test]
fn create_query_and_delete_round_trip() {
    let mut db = Db::new();
    let item = g(0x521);
    assert!(!has_segments(db.segment_count(item)));

    let (outro, _) = create_segment(&segment(item, MediaSegmentType::Outro, 900, 1000), "prov");
    db.run(&outro);
    let (insert, created) =
        create_segment(&segment(item, MediaSegmentType::Intro, 0, 100), "prov");
    assert!(!created.id.is_nil());
    db.run(&insert);
    assert!(has_segments(db.segment_count(item)));

    let all = db.segments(item, None);
    assert_eq!(all.len(), 2);
    assert_eq!(all[0].segment_type, MediaSegmentType::Intro);
    assert_eq!(all[0].id, created.id);
    let outros = db.segments(item, Some(&vec![MediaSegmentType::Outro]));
    assert_eq!(outros.len(), 1);
    assert_eq!(outros[0].segment_type, MediaSegmentType::Outro);

    db.run(&delete_segment_query(created.id));
    assert_eq!(db.segments(item, None).len(), 1);
    db.run(&delete_segments_query(item));
    assert!(!has_segments(db.segment_count(item)));
}

#[test]
fn provider_segments_are_deleted_by_type() {
    let mut db = Db::new();
    let (item, other) = (g(0x531), g(0x532));
    for (at, kind, provider) in [
        (item, MediaSegmentType::Intro, "p"),
        (item, MediaSegmentType::Outro, "p"),
        (item, MediaSegmentType::Recap, "q"),
        (other, MediaSegmentType::Intro, "p"),
    ] {
        let (insert, _) = create_segment(&segment(at, kind, 0, 1), provider);
        db.run(&insert);
    }
    assert_eq!(
        db.run(&delete_provider_segments_query(item, "p", Some(MediaSegmentType::Intro))),
        1
    );
    assert_eq!(db.run(&delete_all_provider_segments_query("p", Some(MediaSegmentType::Recap))), 0);
    assert_eq!(db.run(&delete_all_provider_segments_query("p", None)), 2);
    assert_eq!(db.run(&delete_provider_segments_query(item, "q", None)), 1);
}

#[test]
fn type_support_and_no_providers() {
    let episode = names().stored_type_name(BaseItemKind::Episode).expect("a type name");
    let series = names().stored_type_name(BaseItemKind::Series).expect("a type name");
    let videos = vec![BaseItemKind::Movie, BaseItemKind::Episode];
    assert!(is_type_supported(&names(), Some(&episode), &videos));
    assert!(!is_type_supported(&names(), Some(&series), &videos));
    assert!(!is_type_supported(&names(), None, &videos));
}

#[test]
fn save_upsert_query_and_delete() {
    let mut db = Db::new();
    let item = g(0x541);
    let info = |width: i32| TrickplayInfoEntity {
        item_id: guid_to_db(item),
        width,
        bandwidth: 500_000,
        height: width * 9 / 16,
        interval: 10_000,
        thumbnail_count: 240,
        tile_height: 10,
        tile_width: 10,
    };
    db.run(&save_trickplay_query(&info(320)));
    db.run(&save_trickplay_query(&info(640)));
    let res = resolutions(db.trickplay(&resolutions_query(item)));
    assert_eq!(res.entries.len(), 2);
    assert!(res.contains(&320));

    let mut bumped = info(320);
    bumped.bandwidth = 999_999;
    db.run(&save_trickplay_query(&bumped));
    let res = resolutions(db.trickplay(&resolutions_query(item)));
    assert_eq!(res.entries.len(), 2);
    assert_eq!(res.get(&320).map(|i| i.bandwidth), Some(999_999));
    assert_eq!(res.get(&640).map(|i| (i.height, i.thumbnail_count)), Some((360, 240)));

    let nested = get_trickplay_manifest(item, res);
    assert_eq!(nested.entries.len(), 1);
    let key = uuid::Uuid::from_u128(item.value).to_string();
    assert_eq!(nested.get(&key).map(|r| r.entries.len()), Some(2));

    assert_eq!(db.trickplay(&trickplay_items_query(10, 0)).len(), 2);
    assert_eq!(db.trickplay(&trickplay_items_query(10, 1)).len(), 1);
    db.run(&delete_trickplay_query(item));
    let res = resolutions(db.trickplay(&resolutions_query(item)));
    assert!(res.entries.is_empty());
}

#[test]
fn delete_removes_external_stream_and_sidecar() {
    let mut db = Db::new();
    let item = g(0x551);
    db.run_all(&save_media_streams(
        item,
        &vec![external_subtitle(2, Some("/tmp/movie.eng.srt")), external_subtitle(3, None)],
    ));
    let path_of = |db: &mut Db, index: i32| -> Option<Option<String>> {
        db.rows(&subtitle_path_query(item, index)).first().map(|r| r.get("Path"))
    };
    let row = path_of(&mut db, 2);
    assert_eq!(file_to_remove(row), Some("/tmp/movie.eng.srt".to_owned()));
    assert!(after_removal(Removal::Removed).is_ok());
    assert_eq!(db.run(&delete_subtitle_query(item, 2)), 1);
    let row = path_of(&mut db, 3);
    assert_eq!(row, Some(None));
    assert_eq!(file_to_remove(row), None);

    let remaining = db.streams(&MediaStreamQuery {
        item_id: item,
        stream_type: Some(MediaStreamType::Subtitle),
        index: None,
    });
    assert_eq!(remaining.len(), 1);
    assert_eq!(remaining[0].0, 3);
}

#[test]
fn delete_missing_index_is_idempotent() {
    let mut db = Db::new();
    let item = g(0x561);
    assert!(db.rows(&subtitle_path_query(item, 9)).is_empty());
    assert_eq!(file_to_remove(None), None);
    assert_eq!(db.run(&delete_subtitle_query(item, 9)), 0);
    assert!(after_removal(Removal::Missing).is_ok());
    match after_removal(Removal::Failed("denied".to_owned())) {
        Err(ServiceError::Backend(m)) => assert!(m.contains("denied")),
        other => panic!("unexpected {other:?}"),
    }
}

#[test]
fn provider_paths_are_empty_or_rejected() {
    assert!(matches!(no_providers(), ServiceError::InvalidInput(_)));
}

#[test]
fn decision_start_stop_lifecycle_writes_one_row() {
    let mut db = Db::new();
    let psid = "b0a1".to_owned();
    db.run(&record_decision(&PlaybackDecision {
        play_session_id: psid.clone(),
        item_id: g(0x571),
        user_id: g(0x572),
        client: Some("Jellyfin Web".to_owned()),
        device_id: None,
        play_method: "Transcode".to_owned(),
        transcode_reasons: "AudioCodecNotSupported".to_owned(),
        container: Some("mkv".to_owned()),
        video_codec: Some("hevc".to_owned()),
        audio_codec: Some("eac3".to_owned()),
        target_container: Some("mp4".to_owned()),
        target_video_codec: None,
        target_audio_codec: Some("aac".to_owned()),
    }));
    db.run(&record_started(&psid));
    db.run(&record_stopped(&psid, Some(1234)));
    let mut read = SqlBuilder::new(r#"SELECT * FROM "PlaybackSessions" WHERE "PlaySessionId" = "#);
    read.push_text(&psid);
    let rows = db.rows(&read);
    assert_eq!(rows.len(), 1);
    let row = &rows[0];
    assert_eq!(row.get::<String, _>("PlayMethod"), "Transcode");
    assert_eq!(row.get::<String, _>("TranscodeReasons"), "AudioCodecNotSupported");
    assert_eq!(row.get::<String, _>("TargetAudioCodec"), "aac");
    assert!(row.get::<Option<String>, _>("StartedAt").is_some());
    assert!(row.get::<Option<String>, _>("StoppedAt").is_some());
    assert_eq!(row.get::<Option<i64>, _>("PositionTicks"), Some(1234));
}

#[test]
fn unknown_session_updates_are_harmless_noops() {
    let mut db = Db::new();
    assert_eq!(db.run(&record_started("nope")), 0);
    assert_eq!(db.run(&record_stopped("nope", None)), 0);
}

#[test]
fn user_views_are_the_collection_folders() {
    let mut db = Db::new();
    db.seed_item(g(0x102), BaseItemKind::CollectionFolder, "Shows");
    db.seed_item(g(0x101), BaseItemKind::CollectionFolder, "Movies");
    db.seed_item(g(0x103), BaseItemKind::Movie, "A film");
    let q = build_query(&user_views_query(), QueryShape::FullRows, &names());
    assert_eq!(db.named(&q), vec![Some("Movies".to_owned()), Some("Shows".to_owned())]);
}

#[test]
fn latest_items_group_under_each_view() {
    let mut db = Db::new();
    let (view, film) = (g(0x101), g(0x104));
    db.seed_item(view, BaseItemKind::CollectionFolder, "Movies");
    db.seed_item(film, BaseItemKind::Movie, "A film");
    db.raw(&format!(
        r#"INSERT INTO "AncestorIds" VALUES ('{}', '{}')"#,
        guid_to_db(film),
        guid_to_db(view),
    ));
    let views = build_query(&user_views_query(), QueryShape::IdsOnly, &names());
    let ids = db.texts(&views);
    let grouped = latest_queries(&ids);
    assert_eq!(grouped.len(), 1);
    assert_eq!(id_of(&ids[grouped[0].view]), view);
    let latest = build_query(&grouped[0].query, QueryShape::FullRows, &names());
    assert_eq!(db.named(&latest), vec![Some("A film".to_owned())]);
    assert!(latest_queries(&vec!["no identifier".to_owned()]).is_empty());
}

#[test]
fn items_are_filtered_sorted_paged_and_counted() {
    let mut db = Db::new();
    for (n, name) in [(0x601, "Delta"), (0x602, "Alpha"), (0x603, "Charlie"), (0x604, "Bravo")] {
        db.seed_movie(g(n), name, &["SciFi"]);
    }
    db.seed_movie(g(0x605), "Echo", &["Romance"]);
    let query = InternalItemsQuery {
        include_item_types: vec![BaseItemKind::Movie],
        genres: vec!["SciFi".to_owned()],
        order_by: vec![(ItemSortBy::SortName, SortOrder::Ascending)],
        start_index: Some(1),
        limit: Some(2),
        ..InternalItemsQuery::default()
    };
    let q = build_query(&query, QueryShape::FullRows, &names());
    assert_eq!(db.named(&q), vec![Some("Bravo".to_owned()), Some("Charlie".to_owned())]);
    let count = build_query(&query, QueryShape::Count, &names());
    assert_eq!(db.rows(&count)[0].get::<i64, _>(0), 4);

    let by_name = InternalItemsQuery {
        name_starts_with: Some("Ch".to_owned()),
        ..InternalItemsQuery::default()
    };
    let q = build_query(&by_name, QueryShape::FullRows, &names());
    assert_eq!(db.named(&q), vec![Some("Charlie".to_owned())]);

    let without = InternalItemsQuery {
        exclude_item_ids: vec![g(0x601), g(0x602), g(0x603)],
        order_by: vec![(ItemSortBy::SortName, SortOrder::Descending)],
        ..InternalItemsQuery::default()
    };
    let q = build_query(&without, QueryShape::FullRows, &names());
    assert_eq!(db.named(&q), vec![Some("Echo".to_owned()), Some("Bravo".to_owned())]);
}

#[test]
fn a_user_is_made_renamed_and_deleted() {
    let mut db = Db::new();
    let user = g(0x701);
    db.run(&insert_user_query(user, "Provider", 1, "Anna"));
    let id = guid_to_db(user);
    db.run_all(&seed_defaults(&id));
    let found = db.rows(&user_by_name_query("aNNa"));
    assert_eq!(found.len(), 1);
    assert_eq!(found[0].get::<String, _>("Username"), "Anna");
    assert!(db.rows(&name_clash_query("ANNA", user)).is_empty());
    assert_eq!(db.rows(&name_clash_query("ANNA", g(0x702))).len(), 1);
    assert_eq!(db.run(&rename_query(user, "Berta")), 1);
    assert!(db.rows(&user_by_name_query("anna")).is_empty());
    assert_eq!(db.rows(&user_by_name_query("berta")).len(), 1);

    let admin = permission_query(&id, PermissionKind::IsAdministrator);
    let value = |db: &mut Db| db.rows(&admin).first().map(|r| r.get::<bool, _>(0));
    assert!(!has_permission(value(&mut db)));
    db.run_all(&set_permission_queries(&id, PermissionKind::IsAdministrator, true));
    assert!(has_permission(value(&mut db)));
    assert_eq!(db.rows(&admin).len(), 1);
    assert_eq!(db.rows(&admin_count_query())[0].get::<i64, _>(0), 1);

    assert_eq!(db.rows(&user_by_id_query(user)).len(), 1);
    assert!(db.rows(&user_by_id_query(g(0x702))).is_empty());
    assert_eq!(db.rows(&permissions_query(&id)).len(), 24);
    assert_eq!(db.rows(&preferences_query(&id)).len(), 13);
    assert!(db.rows(&schedules_query(&id)).is_empty());
    let at = Timestamp { nanos: 0 };
    db.run_all(&profile_image_queries(&id, "/a/profile.png", at));
    db.run_all(&profile_image_queries(&id, "/b/profile.png", at));
    let images = db.rows(&profile_image_query(user));
    assert_eq!(images.len(), 1);
    assert_eq!(images[0].get::<String, _>("Path"), "/b/profile.png");
    assert_eq!(db.run(&clear_profile_image_query(&id)), 1);
    assert!(db.rows(&profile_image_query(user)).is_empty());

    db.run_all(&delete_user_queries(user));
    assert!(db.rows(&user_by_name_query("berta")).is_empty());
    assert!(db.rows(&admin).is_empty());
}
