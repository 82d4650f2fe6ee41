//! Playback metrics: one row for each decision how to play an item, which is
//! completed when playing starts and stops.
use vstd::prelude::*;

use crate::guid::{db_text, guid_to_db, Guid};
use crate::sql::{
    binds, copy_text, give, give_all, opt_int, push_value, say, BindValue, BindView, PieceView,
    Sql, SqlBuilder,
};
use crate::text::opt_text;
use crate::time::{now, Timestamp};

verus! {

/// A decision how to play an item.
#[derive(Debug, Clone)]
pub struct PlaybackDecision {
    pub play_session_id: String,
    pub item_id: Guid,
    pub user_id: Guid,
    pub client: Option<String>,
    pub device_id: Option<String>,
    pub play_method: String,
    pub transcode_reasons: String,
    pub container: Option<String>,
    pub video_codec: Option<String>,
    pub audio_codec: Option<String>,
    pub target_container: Option<String>,
    pub target_video_codec: Option<String>,
    pub target_audio_codec: Option<String>,
}

/// The values of a decision's row, in the order of the columns.
pub open spec fn decision_values(d: PlaybackDecision, at: Timestamp) -> Seq<BindView> {
    seq![
        BindView::Text(d.play_session_id@),
        BindView::Text(db_text(d.item_id.value)),
        BindView::Text(db_text(d.user_id.value)),
        BindView::OptionalText(opt_text(d.client)),
        BindView::OptionalText(opt_text(d.device_id)),
        BindView::Text(d.play_method@),
        BindView::Text(d.transcode_reasons@),
        BindView::OptionalText(opt_text(d.container)),
        BindView::OptionalText(opt_text(d.video_codec)),
        BindView::OptionalText(opt_text(d.audio_codec)),
        BindView::OptionalText(opt_text(d.target_container)),
        BindView::OptionalText(opt_text(d.target_video_codec)),
        BindView::OptionalText(opt_text(d.target_audio_codec)),
        BindView::StoredTime(at),
    ]
}

/// The statement that stores a decision made at the time `at`. A session that has
/// a row keeps it.
pub open spec fn decision_sql(d: PlaybackDecision, at: Timestamp) -> Sql {
    say(
        give_all(
            seq![
                PieceView::Sql(
                    r#"INSERT INTO "PlaybackSessions" ("PlaySessionId", "ItemId", "UserId", "Client", "DeviceId", "PlayMethod", "TranscodeReasons", "Container", "VideoCodec", "AudioCodec", "TargetContainer", "TargetVideoCodec", "TargetAudioCodec", "DecidedAt") VALUES ("#@,
                ),
            ],
            decision_values(d, at),
        ),
        r#") ON CONFLICT("PlaySessionId") DO NOTHING"#@,
    )
}

/// The statement that stores a decision made at the time `at`.
pub fn decision_query(d: &PlaybackDecision, at: Timestamp) -> (r: SqlBuilder)
    ensures
        r@ == decision_sql(*d, at),
{
    let mut v: Vec<BindValue> = Vec::new();
    assert(binds(v@) =~= Seq::<BindView>::empty());
    push_value(&mut v, BindValue::Text(d.play_session_id.clone()));
    push_value(&mut v, BindValue::Text(guid_to_db(d.item_id)));
    push_value(&mut v, BindValue::Text(guid_to_db(d.user_id)));
    push_value(&mut v, BindValue::OptionalText(copy_text(&d.client)));
    push_value(&mut v, BindValue::OptionalText(copy_text(&d.device_id)));
    push_value(&mut v, BindValue::Text(d.play_method.clone()));
    push_value(&mut v, BindValue::Text(d.transcode_reasons.clone()));
    push_value(&mut v, BindValue::OptionalText(copy_text(&d.container)));
    push_value(&mut v, BindValue::OptionalText(copy_text(&d.video_codec)));
    push_value(&mut v, BindValue::OptionalText(copy_text(&d.audio_codec)));
    push_value(&mut v, BindValue::OptionalText(copy_text(&d.target_container)));
    push_value(&mut v, BindValue::OptionalText(copy_text(&d.target_video_codec)));
    push_value(&mut v, BindValue::OptionalText(copy_text(&d.target_audio_codec)));
    push_value(&mut v, BindValue::StoredTime(at));
    assert(binds(v@) =~= decision_values(*d, at));
    let mut qb: SqlBuilder = SqlBuilder::new(
        r#"INSERT INTO "PlaybackSessions" ("PlaySessionId", "ItemId", "UserId", "Client", "DeviceId", "PlayMethod", "TranscodeReasons", "Container", "VideoCodec", "AudioCodec", "TargetContainer", "TargetVideoCodec", "TargetAudioCodec", "DecidedAt") VALUES ("#,
    );
    qb.push_all(v.as_slice());
    qb.push(r#") ON CONFLICT("PlaySessionId") DO NOTHING"#);
    qb
}

/// The statement that stores a decision made now.
pub fn record_decision(decision: &PlaybackDecision) -> (r: SqlBuilder)
    ensures
        exists|at: Timestamp|
            at.in_calendar() && at.nanos >= 0 && r@ == #[trigger] decision_sql(*decision, at),
{
    let at: Timestamp = now();
    decision_query(decision, at)
}

/// The statement that notes that playing started at the time `at`, unless it
/// started before.
pub open spec fn started_sql(play_session_id: Seq<char>, at: Timestamp) -> Sql {
    give(
        say(
            give(
                seq![
                    PieceView::Sql(
                        r#"UPDATE "PlaybackSessions" SET "StartedAt" = COALESCE("StartedAt", "#@,
                    ),
                ],
                BindView::StoredTime(at),
            ),
            r#") WHERE "PlaySessionId" = "#@,
        ),
        BindView::Text(play_session_id),
    )
}

/// The statement that notes that playing started at the time `at`.
pub fn started_query(play_session_id: &str, at: Timestamp) -> (r: SqlBuilder)
    ensures
        r@ == started_sql(play_session_id@, at),
{
    let mut qb: SqlBuilder = SqlBuilder::new(
        r#"UPDATE "PlaybackSessions" SET "StartedAt" = COALESCE("StartedAt", "#,
    );
    qb.push_bind(BindValue::StoredTime(at));
    qb.push(r#") WHERE "PlaySessionId" = "#);
    qb.push_text(play_session_id);
    qb
}

/// The statement that notes that playing started now.
pub fn record_started(play_session_id: &str) -> (r: SqlBuilder)
    ensures
        exists|at: Timestamp|
            at.in_calendar() && at.nanos >= 0 && r@ == #[trigger] started_sql(play_session_id@, at),
{
    let at: Timestamp = now();
    started_query(play_session_id, at)
}

/// The statement that notes that playing stopped at the time `at`, and where.
pub open spec fn stopped_sql(
    play_session_id: Seq<char>,
    position_ticks: Option<i64>,
    at: Timestamp,
) -> Sql {
    let a = give(
        seq![PieceView::Sql(r#"UPDATE "PlaybackSessions" SET "StoppedAt" = "#@)],
        BindView::StoredTime(at),
    );
    let b = give(
        say(a, r#", "PositionTicks" = "#@),
        BindView::OptionalInt(opt_int(position_ticks)),
    );
    give(say(b, r#" WHERE "PlaySessionId" = "#@), BindView::Text(play_session_id))
}

/// The statement that notes that playing stopped at the time `at`, and where.
pub fn stopped_query(play_session_id: &str, position_ticks: Option<i64>, at: Timestamp) -> (r:
    SqlBuilder)
    ensures
        r@ == stopped_sql(play_session_id@, position_ticks, at),
{
    let mut qb: SqlBuilder = SqlBuilder::new(r#"UPDATE "PlaybackSessions" SET "StoppedAt" = "#);
    qb.push_bind(BindValue::StoredTime(at));
    qb.push(r#", "PositionTicks" = "#);
    qb.push_bind(BindValue::OptionalInt(position_ticks));
    qb.push(r#" WHERE "PlaySessionId" = "#);
    qb.push_text(play_session_id);
    qb
}

/// The statement that notes that playing stopped now, and where.
pub fn record_stopped(play_session_id: &str, position_ticks: Option<i64>) -> (r: SqlBuilder)
    ensures
        exists|at: Timestamp|
            at.in_calendar() && at.nanos >= 0 && r@ == #[trigger] stopped_sql(
                play_session_id@,
                position_ticks,
                at,
            ),
{
    let at: Timestamp = now();
    stopped_query(play_session_id, position_ticks, at)
}

} // verus!
