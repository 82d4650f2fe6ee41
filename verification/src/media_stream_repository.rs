//! Statements for the streams of media files.
//!
//! Frame rates and levels are double-precision numbers, which are carried by
//! their bits.
use vstd::prelude::*;

use crate::guid::{guid_text, hyphenated_text, law_text_names_one_guid, Guid};
use crate::media_source_manager::StreamRowView;
use crate::model::MediaStreamType;
use crate::sql::{
    binds, copy_text, give, give_all, opt_int, push_value, say, sql_list, BindValue, BindView,
    PieceView, Sql, SqlBuilder,
};
use crate::text::opt_text;

verus! {

/// The row of a stream.
#[derive(Debug, Clone)]
pub struct MediaStreamInfoEntity {
    pub item_id: String,
    pub stream_index: i64,
    pub aspect_ratio: Option<String>,
    pub average_frame_rate: Option<u64>,
    pub bit_depth: Option<i64>,
    pub bit_rate: Option<i64>,
    pub bl_present_flag: Option<i64>,
    pub channel_layout: Option<String>,
    pub channels: Option<i64>,
    pub codec: Option<String>,
    pub codec_tag: Option<String>,
    pub codec_time_base: Option<String>,
    pub color_primaries: Option<String>,
    pub color_space: Option<String>,
    pub color_transfer: Option<String>,
    pub comment: Option<String>,
    pub dv_bl_signal_compatibility_id: Option<i64>,
    pub dv_level: Option<i64>,
    pub dv_profile: Option<i64>,
    pub dv_version_major: Option<i64>,
    pub dv_version_minor: Option<i64>,
    pub el_present_flag: Option<i64>,
    pub hdr10_plus_present_flag: Option<bool>,
    pub height: Option<i64>,
    pub is_anamorphic: Option<bool>,
    pub is_avc: Option<bool>,
    pub is_default: bool,
    pub is_external: bool,
    pub is_forced: bool,
    pub is_hearing_impaired: Option<bool>,
    pub is_interlaced: Option<bool>,
    pub is_original: bool,
    pub key_frames: Option<String>,
    pub language: Option<String>,
    pub level: Option<u64>,
    pub nal_length_size: Option<String>,
    pub path: Option<String>,
    pub pixel_format: Option<String>,
    pub profile: Option<String>,
    pub real_frame_rate: Option<u64>,
    pub ref_frames: Option<i64>,
    pub rotation: Option<i64>,
    pub rpu_present_flag: Option<i64>,
    pub sample_rate: Option<i64>,
    pub stream_type: MediaStreamType,
    pub time_base: Option<String>,
    pub title: Option<String>,
    pub width: Option<i64>,
}

/// Which streams are wanted.
#[derive(Debug, Clone, Copy)]
pub struct MediaStreamQuery {
    pub item_id: Guid,
    pub stream_type: Option<MediaStreamType>,
    pub index: Option<i32>,
}

/// The statement for the streams of an item, in the order of their indices.
pub open spec fn media_streams_sql(f: MediaStreamQuery) -> Sql {
    let a = give(
        seq![PieceView::Sql(r#"SELECT * FROM "MediaStreamInfos" WHERE "ItemId" = "#@)],
        BindView::Text(hyphenated_text(f.item_id.value)),
    );
    let b = match f.index {
        Some(n) => give(say(a, r#" AND "StreamIndex" = "#@), BindView::Int(n as int)),
        None => a,
    };
    let c = match f.stream_type {
        Some(t) => give(say(b, r#" AND "StreamType" = "#@), BindView::StreamType(t)),
        None => b,
    };
    say(c, r#" ORDER BY "StreamIndex""#@)
}

/// The statement for the streams of an item.
pub fn media_streams_query(filter: &MediaStreamQuery) -> (r: SqlBuilder)
    ensures
        r@ == media_streams_sql(*filter),
{
    let mut qb: SqlBuilder = SqlBuilder::new(
        r#"SELECT * FROM "MediaStreamInfos" WHERE "ItemId" = "#,
    );
    qb.push_bind(BindValue::Text(guid_text(filter.item_id)));
    qb.push_int(r#" AND "StreamIndex" = "#, filter.index);
    if let Some(t) = filter.stream_type {
        qb.push(r#" AND "StreamType" = "#);
        qb.push_bind(BindValue::StreamType(t));
    }
    qb.push(r#" ORDER BY "StreamIndex""#);
    qb
}

/// The statement for the languages of the streams of a type. A stream without a
/// language counts as `und`.
pub open spec fn stream_languages_sql(stream_type: MediaStreamType) -> Sql {
    give(
        seq![
            PieceView::Sql(
                r#"SELECT DISTINCT CASE WHEN "Language" IS NULL OR "Language" = '' THEN 'und' ELSE "Language" END FROM "MediaStreamInfos" WHERE "StreamType" = "#@,
            ),
        ],
        BindView::StreamType(stream_type),
    )
}

/// The statement for the languages of the streams of a type.
pub fn stream_languages_query(stream_type: MediaStreamType) -> (r: SqlBuilder)
    ensures
        r@ == stream_languages_sql(stream_type),
{
    let mut qb: SqlBuilder = SqlBuilder::new(
        r#"SELECT DISTINCT CASE WHEN "Language" IS NULL OR "Language" = '' THEN 'und' ELSE "Language" END FROM "MediaStreamInfos" WHERE "StreamType" = "#,
    );
    qb.push_bind(BindValue::StreamType(stream_type));
    qb
}

/// The values of a stream's row, in the order of the columns. The row belongs to
/// the item that is saved, whatever it says itself.
#[verifier::opaque]
pub open spec fn stream_values(item_id: Guid, s: MediaStreamInfoEntity) -> Seq<BindView> {
    seq![
        BindView::Text(hyphenated_text(item_id.value)),
        BindView::Int(s.stream_index as int),
        BindView::OptionalText(opt_text(s.aspect_ratio)),
        BindView::OptionalReal(s.average_frame_rate),
        BindView::OptionalInt(opt_int(s.bit_depth)),
        BindView::OptionalInt(opt_int(s.bit_rate)),
        BindView::OptionalInt(opt_int(s.bl_present_flag)),
        BindView::OptionalText(opt_text(s.channel_layout)),
        BindView::OptionalInt(opt_int(s.channels)),
        BindView::OptionalText(opt_text(s.codec)),
        BindView::OptionalText(opt_text(s.codec_tag)),
        BindView::OptionalText(opt_text(s.codec_time_base)),
        BindView::OptionalText(opt_text(s.color_primaries)),
        BindView::OptionalText(opt_text(s.color_space)),
        BindView::OptionalText(opt_text(s.color_transfer)),
        BindView::OptionalText(opt_text(s.comment)),
        BindView::OptionalInt(opt_int(s.dv_bl_signal_compatibility_id)),
        BindView::OptionalInt(opt_int(s.dv_level)),
        BindView::OptionalInt(opt_int(s.dv_profile)),
        BindView::OptionalInt(opt_int(s.dv_version_major)),
        BindView::OptionalInt(opt_int(s.dv_version_minor)),
        BindView::OptionalInt(opt_int(s.el_present_flag)),
        BindView::OptionalFlag(s.hdr10_plus_present_flag),
        BindView::OptionalInt(opt_int(s.height)),
        BindView::OptionalFlag(s.is_anamorphic),
        BindView::OptionalFlag(s.is_avc),
        BindView::Flag(s.is_default),
        BindView::Flag(s.is_external),
        BindView::Flag(s.is_forced),
        BindView::OptionalFlag(s.is_hearing_impaired),
        BindView::OptionalFlag(s.is_interlaced),
        BindView::Flag(s.is_original),
        BindView::OptionalText(opt_text(s.key_frames)),
        BindView::OptionalText(opt_text(s.language)),
        BindView::OptionalReal(s.level),
        BindView::OptionalText(opt_text(s.nal_length_size)),
        BindView::OptionalText(opt_text(s.path)),
        BindView::OptionalText(opt_text(s.pixel_format)),
        BindView::OptionalText(opt_text(s.profile)),
        BindView::OptionalReal(s.real_frame_rate),
        BindView::OptionalInt(opt_int(s.ref_frames)),
        BindView::OptionalInt(opt_int(s.rotation)),
        BindView::OptionalInt(opt_int(s.rpu_present_flag)),
        BindView::OptionalInt(opt_int(s.sample_rate)),
        BindView::StreamType(s.stream_type),
        BindView::OptionalText(opt_text(s.time_base)),
        BindView::OptionalText(opt_text(s.title)),
        BindView::OptionalInt(opt_int(s.width)),
    ]
}

#[verifier::rlimit(60)]
#[verifier::spinoff_prover]
fn stream_binds(item_id: Guid, s: &MediaStreamInfoEntity) -> (r: Vec<BindValue>)
    ensures
        binds(r@) == stream_values(item_id, *s),
{
    let mut v: Vec<BindValue> = Vec::new();
    assert(binds(v@) =~= Seq::<BindView>::empty());
    push_value(&mut v, BindValue::Text(guid_text(item_id)));
    push_value(&mut v, BindValue::Int(s.stream_index));
    push_value(&mut v, BindValue::OptionalText(copy_text(&s.aspect_ratio)));
    push_value(&mut v, BindValue::OptionalReal(s.average_frame_rate));
    push_value(&mut v, BindValue::OptionalInt(s.bit_depth));
    push_value(&mut v, BindValue::OptionalInt(s.bit_rate));
    push_value(&mut v, BindValue::OptionalInt(s.bl_present_flag));
    push_value(&mut v, BindValue::OptionalText(copy_text(&s.channel_layout)));
    push_value(&mut v, BindValue::OptionalInt(s.channels));
    push_value(&mut v, BindValue::OptionalText(copy_text(&s.codec)));
    push_value(&mut v, BindValue::OptionalText(copy_text(&s.codec_tag)));
    push_value(&mut v, BindValue::OptionalText(copy_text(&s.codec_time_base)));
    push_value(&mut v, BindValue::OptionalText(copy_text(&s.color_primaries)));
    push_value(&mut v, BindValue::OptionalText(copy_text(&s.color_space)));
    push_value(&mut v, BindValue::OptionalText(copy_text(&s.color_transfer)));
    push_value(&mut v, BindValue::OptionalText(copy_text(&s.comment)));
    push_value(&mut v, BindValue::OptionalInt(s.dv_bl_signal_compatibility_id));
    push_value(&mut v, BindValue::OptionalInt(s.dv_level));
    push_value(&mut v, BindValue::OptionalInt(s.dv_profile));
    push_value(&mut v, BindValue::OptionalInt(s.dv_version_major));
    push_value(&mut v, BindValue::OptionalInt(s.dv_version_minor));
    push_value(&mut v, BindValue::OptionalInt(s.el_present_flag));
    push_value(&mut v, BindValue::OptionalFlag(s.hdr10_plus_present_flag));
    push_value(&mut v, BindValue::OptionalInt(s.height));
    push_value(&mut v, BindValue::OptionalFlag(s.is_anamorphic));
    push_value(&mut v, BindValue::OptionalFlag(s.is_avc));
    push_value(&mut v, BindValue::Flag(s.is_default));
    push_value(&mut v, BindValue::Flag(s.is_external));
    push_value(&mut v, BindValue::Flag(s.is_forced));
    push_value(&mut v, BindValue::OptionalFlag(s.is_hearing_impaired));
    push_value(&mut v, BindValue::OptionalFlag(s.is_interlaced));
    push_value(&mut v, BindValue::Flag(s.is_original));
    push_value(&mut v, BindValue::OptionalText(copy_text(&s.key_frames)));
    push_value(&mut v, BindValue::OptionalText(copy_text(&s.language)));
    push_value(&mut v, BindValue::OptionalReal(s.level));
    push_value(&mut v, BindValue::OptionalText(copy_text(&s.nal_length_size)));
    push_value(&mut v, BindValue::OptionalText(copy_text(&s.path)));
    push_value(&mut v, BindValue::OptionalText(copy_text(&s.pixel_format)));
    push_value(&mut v, BindValue::OptionalText(copy_text(&s.profile)));
    push_value(&mut v, BindValue::OptionalReal(s.real_frame_rate));
    push_value(&mut v, BindValue::OptionalInt(s.ref_frames));
    push_value(&mut v, BindValue::OptionalInt(s.rotation));
    push_value(&mut v, BindValue::OptionalInt(s.rpu_present_flag));
    push_value(&mut v, BindValue::OptionalInt(s.sample_rate));
    push_value(&mut v, BindValue::StreamType(s.stream_type));
    push_value(&mut v, BindValue::OptionalText(copy_text(&s.time_base)));
    push_value(&mut v, BindValue::OptionalText(copy_text(&s.title)));
    push_value(&mut v, BindValue::OptionalInt(s.width));
    proof {
        reveal(stream_values);
    }
    v
}

/// How the statement that stores a stream begins: with the columns.
pub open spec fn insert_head() -> PieceView {
    PieceView::Sql(
        r#"INSERT INTO "MediaStreamInfos" ("ItemId", "StreamIndex", "AspectRatio", "AverageFrameRate", "BitDepth", "BitRate", "BlPresentFlag", "ChannelLayout", "Channels", "Codec", "CodecTag", "CodecTimeBase", "ColorPrimaries", "ColorSpace", "ColorTransfer", "Comment", "DvBlSignalCompatibilityId", "DvLevel", "DvProfile", "DvVersionMajor", "DvVersionMinor", "ElPresentFlag", "Hdr10PlusPresentFlag", "Height", "IsAnamorphic", "IsAvc", "IsDefault", "IsExternal", "IsForced", "IsHearingImpaired", "IsInterlaced", "IsOriginal", "KeyFrames", "Language", "Level", "NalLengthSize", "Path", "PixelFormat", "Profile", "RealFrameRate", "RefFrames", "Rotation", "RpuPresentFlag", "SampleRate", "StreamType", "TimeBase", "Title", "Width") VALUES ("#@,
    )
}

/// How the statement that removes the streams of an item begins.
pub open spec fn delete_head() -> PieceView {
    PieceView::Sql(r#"DELETE FROM "MediaStreamInfos" WHERE "ItemId" = "#@)
}

/// The statement that stores a stream.
pub open spec fn insert_stream_sql(item_id: Guid, s: MediaStreamInfoEntity) -> Sql {
    say(give_all(seq![insert_head()], stream_values(item_id, s)), ")"@)
}

fn insert_stream_query(item_id: Guid, s: &MediaStreamInfoEntity) -> (r: SqlBuilder)
    ensures
        r@ == insert_stream_sql(item_id, *s),
{
    let values: Vec<BindValue> = stream_binds(item_id, s);
    let mut qb: SqlBuilder = SqlBuilder::new(
        r#"INSERT INTO "MediaStreamInfos" ("ItemId", "StreamIndex", "AspectRatio", "AverageFrameRate", "BitDepth", "BitRate", "BlPresentFlag", "ChannelLayout", "Channels", "Codec", "CodecTag", "CodecTimeBase", "ColorPrimaries", "ColorSpace", "ColorTransfer", "Comment", "DvBlSignalCompatibilityId", "DvLevel", "DvProfile", "DvVersionMajor", "DvVersionMinor", "ElPresentFlag", "Hdr10PlusPresentFlag", "Height", "IsAnamorphic", "IsAvc", "IsDefault", "IsExternal", "IsForced", "IsHearingImpaired", "IsInterlaced", "IsOriginal", "KeyFrames", "Language", "Level", "NalLengthSize", "Path", "PixelFormat", "Profile", "RealFrameRate", "RefFrames", "Rotation", "RpuPresentFlag", "SampleRate", "StreamType", "TimeBase", "Title", "Width") VALUES ("#,
    );
    qb.push_all(values.as_slice());
    qb.push(")");
    qb
}

/// The statement that removes the streams of an item.
pub open spec fn delete_streams_sql(item_id: Guid) -> Sql {
    give(seq![delete_head()], BindView::Text(hyphenated_text(item_id.value)))
}

/// The statements that store the streams of an item in the place of those that it
/// has: first the old ones are removed, then the new ones are stored, in order.
pub open spec fn save_streams_sql(item_id: Guid, streams: Seq<MediaStreamInfoEntity>) -> Seq<Sql> {
    seq![delete_streams_sql(item_id)] + streams.map_values(
        |s: MediaStreamInfoEntity| insert_stream_sql(item_id, s),
    )
}

/// The statements that store the streams of an item in the place of those that it
/// has. They belong in one transaction.
pub fn save_media_streams(item_id: Guid, streams: &Vec<MediaStreamInfoEntity>) -> (r: Vec<
    SqlBuilder,
>)
    ensures
        sql_list(r@) == save_streams_sql(item_id, streams@),
{
    let mut qb: SqlBuilder = SqlBuilder::new(
        r#"DELETE FROM "MediaStreamInfos" WHERE "ItemId" = "#,
    );
    qb.push_bind(BindValue::Text(guid_text(item_id)));
    let mut out: Vec<SqlBuilder> = vec![qb];
    let ghost all = save_streams_sql(item_id, streams@);
    let mut i: usize = 0;
    assert(sql_list(out@) =~= all.take(1));
    while i < streams.len()
        invariant
            i <= streams.len(),
            all == save_streams_sql(item_id, streams@),
            sql_list(out@) == all.take(i + 1),
        decreases streams.len() - i,
    {
        let ghost before = sql_list(out@);
        let q: SqlBuilder = insert_stream_query(item_id, &streams[i]);
        assert(q@ == all[i + 1]);
        out.push(q);
        i += 1;
        assert(sql_list(out@) =~= before.push(q@));
        assert(all.take(i + 1) =~= all.take(i as int).push(all[i as int]));
    }
    assert(all.take(all.len() as int) =~= all);
    out
}

// ---------------------------------------------------------------------------
// What the statements do to the table
// ---------------------------------------------------------------------------
/// A row of the table: its values, in the order of the columns.
pub type StoredStream = Seq<BindView>;

/// The values that a statement gives, in their order.
pub open spec fn given_values(q: Sql) -> Seq<BindView>
    decreases q.len(),
{
    if q.len() == 0 {
        Seq::empty()
    } else {
        match q.last() {
            PieceView::Bind(v) => given_values(q.drop_last()).push(v),
            PieceView::Sql(_) => given_values(q.drop_last()),
        }
    }
}

/// Whether a row belongs to another item than the one with the given identifier.
pub open spec fn is_of_another(row: StoredStream, item_id: BindView) -> bool {
    row[0] != item_id
}

/// The table after a statement that stores a stream, which adds a row of the values
/// that it gives, or after one that removes the streams of an item, which leaves the
/// rows of others.
pub open spec fn table_after(rows: Seq<StoredStream>, q: Sql) -> Seq<StoredStream> {
    if q.len() > 0 && q[0] == insert_head() {
        rows.push(given_values(q))
    } else if q.len() > 0 && q[0] == delete_head() {
        rows.filter(|row: StoredStream| is_of_another(row, given_values(q)[0]))
    } else {
        rows
    }
}

/// The table after statements, one after the other.
pub open spec fn table_after_all(rows: Seq<StoredStream>, list: Seq<Sql>) -> Seq<StoredStream>
    decreases list.len(),
{
    if list.len() == 0 {
        rows
    } else {
        table_after(table_after_all(rows, list.drop_last()), list.last())
    }
}

/// The table after a transaction of statements: as it was, if the transaction was not
/// committed.
pub open spec fn table_after_transaction(
    rows: Seq<StoredStream>,
    list: Seq<Sql>,
    committed: bool,
) -> Seq<StoredStream> {
    if committed {
        table_after_all(rows, list)
    } else {
        rows
    }
}

/// The index of the stream in a row.
pub open spec fn index_in(row: StoredStream) -> int {
    match row[1] {
        BindView::Int(n) => n,
        _ => 0,
    }
}

/// Whether a row is wanted.
pub open spec fn is_wanted(f: MediaStreamQuery, row: StoredStream) -> bool {
    &&& row[0] == BindView::Text(hyphenated_text(f.item_id.value))
    &&& f.index matches Some(n) ==> row[1] == BindView::Int(n as int)
    &&& f.stream_type matches Some(t) ==> row[44] == BindView::StreamType(t)
}

/// Whether rows are in the order of their indices.
pub open spec fn by_index(rows: Seq<StoredStream>) -> bool {
    forall|i: int, j: int|
        0 <= i < j < rows.len() ==> index_in(#[trigger] rows[i]) <= index_in(#[trigger] rows[j])
}

/// Whether `answer` answers the statement for the wanted streams: it holds the
/// wanted rows of the table, in the order of their indices.
pub open spec fn is_answer(
    f: MediaStreamQuery,
    rows: Seq<StoredStream>,
    answer: Seq<StoredStream>,
) -> bool {
    &&& answer.to_multiset() == rows.filter(
        |row: StoredStream| is_wanted(f, row),
    ).to_multiset()
    &&& by_index(answer)
}

/// The rows of the streams of an item.
pub open spec fn stored_streams(item_id: Guid, streams: Seq<MediaStreamInfoEntity>) -> Seq<
    StoredStream,
> {
    streams.map_values(|s: MediaStreamInfoEntity| stream_values(item_id, s))
}

/// What a row is found and ordered by.
proof fn lemma_row_key(item_id: Guid, s: MediaStreamInfoEntity)
    ensures
        stream_values(item_id, s)[0] == BindView::Text(hyphenated_text(item_id.value)),
        index_in(stream_values(item_id, s)) == s.stream_index,
{
    reveal(stream_values);
}

proof fn lemma_given_all(acc: Sql, values: Seq<BindView>)
    ensures
        given_values(give_all(acc, values)) == given_values(acc) + values,
        give_all(acc, values).len() >= acc.len(),
        acc.len() > 0 ==> give_all(acc, values)[0] == acc[0],
    decreases values.len(),
{
    if values.len() > 0 {
        let head = give_all(acc, values.drop_last());
        lemma_given_all(acc, values.drop_last());
        let mid = if values.len() > 1 {
            say(head, ", "@)
        } else {
            head
        };
        if values.len() > 1 {
            assert(mid.drop_last() =~= head);
        }
        assert(given_values(mid) == given_values(head));
        assert(give(mid, values.last()).drop_last() =~= mid);
        assert((given_values(acc) + values.drop_last()).push(values.last()) =~= given_values(acc)
            + values);
    } else {
        assert(given_values(acc) + values =~= given_values(acc));
    }
}

proof fn lemma_insert_adds(rows: Seq<StoredStream>, item_id: Guid, s: MediaStreamInfoEntity)
    ensures
        table_after(rows, insert_stream_sql(item_id, s)) == rows.push(stream_values(item_id, s)),
{
    let head: Sql = seq![insert_head()];
    let values = stream_values(item_id, s);
    let q = insert_stream_sql(item_id, s);
    assert(head.drop_last() =~= Seq::<PieceView>::empty());
    assert(given_values(head.drop_last()) =~= Seq::<BindView>::empty());
    assert(given_values(head) =~= Seq::<BindView>::empty());
    lemma_given_all(head, values);
    assert(q.drop_last() =~= give_all(head, values));
    assert(given_values(head) + values =~= values);
}

proof fn lemma_heads_differ()
    ensures
        insert_head() != delete_head(),
{
    reveal_strlit(r#"DELETE FROM "MediaStreamInfos" WHERE "ItemId" = "#);
    reveal_strlit(
        r#"INSERT INTO "MediaStreamInfos" ("ItemId", "StreamIndex", "AspectRatio", "AverageFrameRate", "BitDepth", "BitRate", "BlPresentFlag", "ChannelLayout", "Channels", "Codec", "CodecTag", "CodecTimeBase", "ColorPrimaries", "ColorSpace", "ColorTransfer", "Comment", "DvBlSignalCompatibilityId", "DvLevel", "DvProfile", "DvVersionMajor", "DvVersionMinor", "ElPresentFlag", "Hdr10PlusPresentFlag", "Height", "IsAnamorphic", "IsAvc", "IsDefault", "IsExternal", "IsForced", "IsHearingImpaired", "IsInterlaced", "IsOriginal", "KeyFrames", "Language", "Level", "NalLengthSize", "Path", "PixelFormat", "Profile", "RealFrameRate", "RefFrames", "Rotation", "RpuPresentFlag", "SampleRate", "StreamType", "TimeBase", "Title", "Width") VALUES ("#,
    );
    assert(insert_head()->Sql_0[0] != delete_head()->Sql_0[0]);
}

proof fn lemma_delete_leaves_others(rows: Seq<StoredStream>, item_id: Guid)
    ensures
        table_after(rows, delete_streams_sql(item_id)) == rows_of_others(rows, item_id),
{
    lemma_heads_differ();
    let q = delete_streams_sql(item_id);
    let head: Sql = seq![delete_head()];
    let id = BindView::Text(hyphenated_text(item_id.value));
    assert(q.drop_last() =~= head);
    assert(head.drop_last() =~= Seq::<PieceView>::empty());
    assert(given_values(head.drop_last()) =~= Seq::<BindView>::empty());
    assert(given_values(head) =~= Seq::<BindView>::empty());
    assert(given_values(q) =~= given_values(head).push(id));
    assert((|row: StoredStream| is_of_another(row, given_values(q)[0])) =~= (
    |row: StoredStream| is_of_another(row, id)));
}

/// The rows that belong to other items.
pub open spec fn rows_of_others(rows: Seq<StoredStream>, item_id: Guid) -> Seq<StoredStream> {
    rows.filter(
        |row: StoredStream| is_of_another(row, BindView::Text(hyphenated_text(item_id.value))),
    )
}

/// Saving the streams of an item puts them in the place of those that it had, behind
/// the rows of other items, which stay as they are.
pub proof fn law_saved_streams_replace_the_old(
    rows: Seq<StoredStream>,
    item_id: Guid,
    streams: Seq<MediaStreamInfoEntity>,
)
    ensures
        table_after_all(rows, save_streams_sql(item_id, streams)) == rows_of_others(rows, item_id)
            + stored_streams(item_id, streams),
    decreases streams.len(),
{
    let all = save_streams_sql(item_id, streams);
    if streams.len() == 0 {
        assert(all.drop_last() =~= Seq::<Sql>::empty());
        assert(all.last() == delete_streams_sql(item_id));
        assert(table_after_all(rows, all.drop_last()) == rows);
        lemma_delete_leaves_others(rows, item_id);
        assert(rows_of_others(rows, item_id) + stored_streams(item_id, streams)
            =~= rows_of_others(rows, item_id));
    } else {
        let before = streams.drop_last();
        law_saved_streams_replace_the_old(rows, item_id, before);
        assert(all.drop_last() =~= save_streams_sql(item_id, before));
        assert(all.last() == insert_stream_sql(item_id, streams.last()));
        let t = table_after_all(rows, save_streams_sql(item_id, before));
        lemma_insert_adds(t, item_id, streams.last());
        assert(stored_streams(item_id, streams) =~= stored_streams(item_id, before).push(
            stream_values(item_id, streams.last()),
        ));
        assert(t.push(stream_values(item_id, streams.last())) =~= rows_of_others(rows, item_id)
            + stored_streams(item_id, streams));
    }
}

proof fn lemma_filter_none(rows: Seq<StoredStream>, p: spec_fn(StoredStream) -> bool)
    requires
        forall|i: int| 0 <= i < rows.len() ==> !p(#[trigger] rows[i]),
    ensures
        rows.filter(p) == Seq::<StoredStream>::empty(),
    decreases rows.len(),
{
    reveal(Seq::filter);
    if rows.len() > 0 {
        let l = rows.drop_last();
        assert forall|i: int| 0 <= i < l.len() implies !p(#[trigger] l[i]) by {
            assert(l[i] == rows[i]);
        }
        lemma_filter_none(l, p);
        assert(!p(rows[rows.len() - 1]));
    }
}

proof fn lemma_filter_twice(
    rows: Seq<StoredStream>,
    p: spec_fn(StoredStream) -> bool,
    q: spec_fn(StoredStream) -> bool,
)
    requires
        forall|row: StoredStream| #[trigger] q(row) ==> p(row),
    ensures
        rows.filter(p).filter(q) == rows.filter(q),
    decreases rows.len(),
{
    reveal(Seq::filter);
    if rows.len() > 0 {
        let l = rows.drop_last();
        lemma_filter_twice(l, p, q);
        let row = rows.last();
        if p(row) {
            assert(l.filter(p).push(row).drop_last() =~= l.filter(p));
        } else {
            assert(!q(row));
        }
    }
}

proof fn lemma_filter_all(rows: Seq<StoredStream>, p: spec_fn(StoredStream) -> bool)
    requires
        forall|i: int| 0 <= i < rows.len() ==> p(#[trigger] rows[i]),
    ensures
        rows.filter(p) == rows,
    decreases rows.len(),
{
    reveal(Seq::filter);
    if rows.len() > 0 {
        let l = rows.drop_last();
        assert forall|i: int| 0 <= i < l.len() implies p(#[trigger] l[i]) by {
            assert(l[i] == rows[i]);
        }
        lemma_filter_all(l, p);
        assert(p(rows[rows.len() - 1]));
        assert(l.push(rows.last()) =~= rows);
    } else {
        assert(rows.filter(p) =~= rows);
    }
}

/// Two lists of the same rows, each in the order of the indices, are the same where
/// no two rows share an index.
proof fn lemma_one_order(a: Seq<StoredStream>, b: Seq<StoredStream>)
    requires
        a.to_multiset() == b.to_multiset(),
        by_index(a),
        strictly_by_index(b),
    ensures
        a == b,
    decreases b.len(),
{
    a.to_multiset_ensures();
    b.to_multiset_ensures();
    assert(a.len() == a.to_multiset().len() && b.len() == b.to_multiset().len());
    if b.len() > 0 {
        let last = a.len() - 1;
        assert(a.contains(a[last]));
        assert(b.to_multiset().count(a[last]) > 0);
        assert(b.contains(a[last]));
        let k = choose|k: int| 0 <= k < b.len() && b[k] == a[last];
        assert(b.contains(b[last]));
        assert(a.to_multiset().count(b[last]) > 0);
        assert(a.contains(b[last]));
        let m = choose|m: int| 0 <= m < a.len() && a[m] == b[last];
        assert(index_in(a[m]) <= index_in(a[last]));
        assert(k == last);
        assert(a.remove(last) =~= a.drop_last());
        assert(b.remove(last) =~= b.drop_last());
        assert(a.drop_last().to_multiset() =~= b.drop_last().to_multiset());
        lemma_one_order(a.drop_last(), b.drop_last());
        assert forall|i: int| 0 <= i < a.len() implies a[i] == b[i] by {
            if i < last {
                assert(a.drop_last()[i] == b.drop_last()[i]);
            }
        }
        assert(a =~= b);
    } else {
        assert(a =~= b);
    }
}

/// The streams that were saved for an item are what is read of it: the wanted ones,
/// in the order of their indices, and none of those that it had before.
pub proof fn law_saved_streams_are_read(
    rows: Seq<StoredStream>,
    f: MediaStreamQuery,
    streams: Seq<MediaStreamInfoEntity>,
    answer: Seq<StoredStream>,
)
    requires
        is_answer(
            f,
            table_after_transaction(rows, save_streams_sql(f.item_id, streams), true),
            answer,
        ),
    ensures
        answer.to_multiset() == stored_streams(f.item_id, streams).filter(
            |row: StoredStream| is_wanted(f, row),
        ).to_multiset(),
        by_index(answer),
{
    let p = |row: StoredStream| is_wanted(f, row);
    let others = rows_of_others(rows, f.item_id);
    let saved = stored_streams(f.item_id, streams);
    law_saved_streams_replace_the_old(rows, f.item_id, streams);
    Seq::filter_distributes_over_add(others, saved, p);
    let id = BindView::Text(hyphenated_text(f.item_id.value));
    let another = |row: StoredStream| is_of_another(row, id);
    assert forall|i: int| 0 <= i < others.len() implies !p(#[trigger] others[i]) by {
        rows.lemma_filter_pred(another, i);
        assert(another(others[i]));
    }
    lemma_filter_none(others, p);
    assert(Seq::<StoredStream>::empty() + saved.filter(p) =~= saved.filter(p));
}

/// Whether no two streams share an index.
pub open spec fn distinct_indices(streams: Seq<MediaStreamInfoEntity>) -> bool {
    forall|i: int, j: int|
        0 <= i < j < streams.len() ==> (#[trigger] streams[i]).stream_index != (
        #[trigger] streams[j]).stream_index
}

/// Whether rows are in the order of their indices, which all differ.
pub open spec fn strictly_by_index(rows: Seq<StoredStream>) -> bool {
    forall|i: int, j: int|
        0 <= i < j < rows.len() ==> index_in(#[trigger] rows[i]) < index_in(#[trigger] rows[j])
}

/// Rows of streams that share no index do not share one in the order of the indices
/// either.
proof fn lemma_strict_order(
    item_id: Guid,
    streams: Seq<MediaStreamInfoEntity>,
    answer: Seq<StoredStream>,
)
    requires
        distinct_indices(streams),
        answer.to_multiset() == stored_streams(item_id, streams).to_multiset(),
        by_index(answer),
    ensures
        strictly_by_index(answer),
{
    let saved = stored_streams(item_id, streams);
    assert forall|i: int, j: int| 0 <= i < saved.len() && 0 <= j < saved.len() && index_in(
        #[trigger] saved[i],
    ) == index_in(#[trigger] saved[j]) implies i == j by {
        lemma_row_key(item_id, streams[i]);
        lemma_row_key(item_id, streams[j]);
        assert(streams[i].stream_index == streams[j].stream_index);
    }
    assert(saved.no_duplicates()) by {
        assert forall|i: int, j: int|
            0 <= i < saved.len() && 0 <= j < saved.len() && i != j implies saved[i] != saved[j] by {
            assert(index_in(saved[i]) != index_in(saved[j]));
        }
    }
    saved.lemma_multiset_has_no_duplicates();
    answer.lemma_multiset_has_no_duplicates_conv();
    answer.to_multiset_ensures();
    saved.to_multiset_ensures();
    assert forall|i: int, j: int| 0 <= i < j < answer.len() implies index_in(#[trigger] answer[i])
        < index_in(#[trigger] answer[j]) by {
        assert(answer.contains(answer[i]) && answer.contains(answer[j]));
        assert(saved.to_multiset().count(answer[i]) > 0);
        assert(saved.to_multiset().count(answer[j]) > 0);
        assert(saved.contains(answer[i]) && saved.contains(answer[j]));
        let k = choose|k: int| 0 <= k < saved.len() && saved[k] == answer[i];
        let m = choose|m: int| 0 <= m < saved.len() && saved[m] == answer[j];
        if index_in(answer[i]) == index_in(answer[j]) {
            assert(index_in(saved[k]) == index_in(saved[m]));
            assert(answer[i] == answer[j]);
        }
    }
}

/// Reading all streams of an item gives exactly those that were saved last, in the
/// order of their indices, if no two shared one. There is no other answer.
pub proof fn law_saved_streams_are_read_in_order(
    rows: Seq<StoredStream>,
    f: MediaStreamQuery,
    streams: Seq<MediaStreamInfoEntity>,
    answer: Seq<StoredStream>,
)
    requires
        f.index is None,
        f.stream_type is None,
        distinct_indices(streams),
        is_answer(
            f,
            table_after_transaction(rows, save_streams_sql(f.item_id, streams), true),
            answer,
        ),
    ensures
        answer.to_multiset() == stored_streams(f.item_id, streams).to_multiset(),
        answer.len() == streams.len(),
        strictly_by_index(answer),
        forall|other: Seq<StoredStream>| #[trigger]
            is_answer(
                f,
                table_after_transaction(rows, save_streams_sql(f.item_id, streams), true),
                other,
            ) ==> other == answer,
        strictly_by_index(stored_streams(f.item_id, streams)) ==> answer == stored_streams(
            f.item_id,
            streams,
        ),
{
    let p = |row: StoredStream| is_wanted(f, row);
    let saved = stored_streams(f.item_id, streams);
    law_saved_streams_are_read(rows, f, streams, answer);
    assert forall|i: int| 0 <= i < saved.len() implies p(#[trigger] saved[i]) by {
        lemma_row_key(f.item_id, streams[i]);
    }
    lemma_filter_all(saved, p);
    lemma_strict_order(f.item_id, streams, answer);
    answer.to_multiset_ensures();
    saved.to_multiset_ensures();
    assert(answer.len() == answer.to_multiset().len());
    assert(saved.len() == saved.to_multiset().len());
    assert forall|other: Seq<StoredStream>| #[trigger]
        is_answer(
            f,
            table_after_transaction(rows, save_streams_sql(f.item_id, streams), true),
            other,
        ) implies other == answer by {
        law_saved_streams_are_read(rows, f, streams, other);
        lemma_one_order(other, answer);
    }
    if strictly_by_index(saved) {
        lemma_one_order(answer, saved);
    }
}

/// Saving streams that fails changes nothing of what is read.
pub proof fn law_failed_save_changes_nothing(
    rows: Seq<StoredStream>,
    item_id: Guid,
    f: MediaStreamQuery,
    streams: Seq<MediaStreamInfoEntity>,
    answer: Seq<StoredStream>,
)
    ensures
        is_answer(
            f,
            table_after_transaction(rows, save_streams_sql(item_id, streams), false),
            answer,
        ) <==> is_answer(f, rows, answer),
{
}

/// Saving the streams of an item changes nothing of what is read of another, whether
/// it succeeds or not.
pub proof fn law_saving_keeps_other_items(
    rows: Seq<StoredStream>,
    item_id: Guid,
    f: MediaStreamQuery,
    streams: Seq<MediaStreamInfoEntity>,
    committed: bool,
    answer: Seq<StoredStream>,
)
    requires
        f.item_id.value != item_id.value,
    ensures
        is_answer(
            f,
            table_after_transaction(rows, save_streams_sql(item_id, streams), committed),
            answer,
        ) <==> is_answer(f, rows, answer),
{
    let p = |row: StoredStream| is_wanted(f, row);
    let others = rows_of_others(rows, item_id);
    let saved = stored_streams(item_id, streams);
    law_saved_streams_replace_the_old(rows, item_id, streams);
    Seq::filter_distributes_over_add(others, saved, p);
    if hyphenated_text(f.item_id.value) == hyphenated_text(item_id.value) {
        law_text_names_one_guid(f.item_id.value, item_id.value);
    }
    assert forall|i: int| 0 <= i < saved.len() implies !p(#[trigger] saved[i]) by {
        lemma_row_key(item_id, streams[i]);
    }
    lemma_filter_none(saved, p);
    let id = BindView::Text(hyphenated_text(item_id.value));
    lemma_filter_twice(rows, |row: StoredStream| is_of_another(row, id), p);
    assert(others.filter(p) + Seq::<StoredStream>::empty() =~= others.filter(p));
}

/// The text of a value.
pub open spec fn text_in(v: BindView) -> Seq<char> {
    match v {
        BindView::Text(s) => s,
        _ => Seq::empty(),
    }
}

/// The text of a value, if it has one.
pub open spec fn opt_text_in(v: BindView) -> Option<Seq<char>> {
    match v {
        BindView::OptionalText(s) => s,
        _ => None,
    }
}

/// The number of a value.
pub open spec fn int_in(v: BindView) -> i64 {
    match v {
        BindView::Int(n) => n as i64,
        _ => 0,
    }
}

/// The number of a value, if it has one.
#[verifier::opaque]
pub open spec fn opt_int_in(v: BindView) -> Option<i64> {
    match v {
        BindView::OptionalInt(Some(n)) => Some(n as i64),
        _ => None,
    }
}

/// The flag of a value.
pub open spec fn flag_in(v: BindView) -> bool {
    match v {
        BindView::Flag(b) => b,
        _ => false,
    }
}

/// The flag of a value, if it has one.
pub open spec fn opt_flag_in(v: BindView) -> Option<bool> {
    match v {
        BindView::OptionalFlag(b) => b,
        _ => None,
    }
}

/// The real number of a value, if it has one.
pub open spec fn opt_real_in(v: BindView) -> Option<u64> {
    match v {
        BindView::OptionalReal(b) => b,
        _ => None,
    }
}

/// The type of stream of a value.
pub open spec fn stream_type_in(v: BindView) -> MediaStreamType {
    match v {
        BindView::StreamType(t) => t,
        _ => MediaStreamType::Data,
    }
}

/// The stream that a row of the table holds.
pub open spec fn stream_in(row: StoredStream) -> StreamRowView {
    StreamRowView {
        item_id: text_in(row[0]),
        stream_index: int_in(row[1]),
        stream_type: stream_type_in(row[44]),
        codec: opt_text_in(row[9]),
        codec_tag: opt_text_in(row[10]),
        language: opt_text_in(row[33]),
        title: opt_text_in(row[46]),
        comment: opt_text_in(row[15]),
        time_base: opt_text_in(row[45]),
        codec_time_base: opt_text_in(row[11]),
        profile: opt_text_in(row[38]),
        aspect_ratio: opt_text_in(row[2]),
        path: opt_text_in(row[36]),
        channel_layout: opt_text_in(row[7]),
        pixel_format: opt_text_in(row[37]),
        color_space: opt_text_in(row[13]),
        color_transfer: opt_text_in(row[14]),
        color_primaries: opt_text_in(row[12]),
        nal_length_size: opt_text_in(row[35]),
        key_frames: opt_text_in(row[32]),
        is_default: flag_in(row[26]),
        is_forced: flag_in(row[28]),
        is_external: flag_in(row[27]),
        is_original: flag_in(row[31]),
        is_interlaced: opt_flag_in(row[30]),
        is_hearing_impaired: opt_flag_in(row[29]),
        is_avc: opt_flag_in(row[25]),
        is_anamorphic: opt_flag_in(row[24]),
        hdr10_plus_present_flag: opt_flag_in(row[22]),
        bit_rate: opt_int_in(row[5]),
        bit_depth: opt_int_in(row[4]),
        channels: opt_int_in(row[8]),
        sample_rate: opt_int_in(row[43]),
        ref_frames: opt_int_in(row[40]),
        height: opt_int_in(row[23]),
        width: opt_int_in(row[47]),
        rotation: opt_int_in(row[41]),
        bl_present_flag: opt_int_in(row[6]),
        dv_bl_signal_compatibility_id: opt_int_in(row[16]),
        dv_level: opt_int_in(row[17]),
        dv_profile: opt_int_in(row[18]),
        dv_version_major: opt_int_in(row[19]),
        dv_version_minor: opt_int_in(row[20]),
        el_present_flag: opt_int_in(row[21]),
        rpu_present_flag: opt_int_in(row[42]),
        level: opt_real_in(row[34]),
        average_frame_rate: opt_real_in(row[3]),
        real_frame_rate: opt_real_in(row[39]),
    }
}

proof fn lemma_optional_int(n: Option<i64>)
    ensures
        opt_int_in(BindView::OptionalInt(opt_int(n))) == n,
{
    reveal(opt_int_in);
}

proof fn lemma_stream_in(v: StoredStream, item_id: Guid, s: MediaStreamInfoEntity)
    requires
        v[0] == BindView::Text(hyphenated_text(item_id.value)),
        v[1] == BindView::Int(s.stream_index as int),
        v[2] == BindView::OptionalText(opt_text(s.aspect_ratio)),
        v[3] == BindView::OptionalReal(s.average_frame_rate),
        v[4] == BindView::OptionalInt(opt_int(s.bit_depth)),
        v[5] == BindView::OptionalInt(opt_int(s.bit_rate)),
        v[6] == BindView::OptionalInt(opt_int(s.bl_present_flag)),
        v[7] == BindView::OptionalText(opt_text(s.channel_layout)),
        v[8] == BindView::OptionalInt(opt_int(s.channels)),
        v[9] == BindView::OptionalText(opt_text(s.codec)),
        v[10] == BindView::OptionalText(opt_text(s.codec_tag)),
        v[11] == BindView::OptionalText(opt_text(s.codec_time_base)),
        v[12] == BindView::OptionalText(opt_text(s.color_primaries)),
        v[13] == BindView::OptionalText(opt_text(s.color_space)),
        v[14] == BindView::OptionalText(opt_text(s.color_transfer)),
        v[15] == BindView::OptionalText(opt_text(s.comment)),
        v[16] == BindView::OptionalInt(opt_int(s.dv_bl_signal_compatibility_id)),
        v[17] == BindView::OptionalInt(opt_int(s.dv_level)),
        v[18] == BindView::OptionalInt(opt_int(s.dv_profile)),
        v[19] == BindView::OptionalInt(opt_int(s.dv_version_major)),
        v[20] == BindView::OptionalInt(opt_int(s.dv_version_minor)),
        v[21] == BindView::OptionalInt(opt_int(s.el_present_flag)),
        v[22] == BindView::OptionalFlag(s.hdr10_plus_present_flag),
        v[23] == BindView::OptionalInt(opt_int(s.height)),
        v[24] == BindView::OptionalFlag(s.is_anamorphic),
        v[25] == BindView::OptionalFlag(s.is_avc),
        v[26] == BindView::Flag(s.is_default),
        v[27] == BindView::Flag(s.is_external),
        v[28] == BindView::Flag(s.is_forced),
        v[29] == BindView::OptionalFlag(s.is_hearing_impaired),
        v[30] == BindView::OptionalFlag(s.is_interlaced),
        v[31] == BindView::Flag(s.is_original),
        v[32] == BindView::OptionalText(opt_text(s.key_frames)),
        v[33] == BindView::OptionalText(opt_text(s.language)),
        v[34] == BindView::OptionalReal(s.level),
        v[35] == BindView::OptionalText(opt_text(s.nal_length_size)),
        v[36] == BindView::OptionalText(opt_text(s.path)),
        v[37] == BindView::OptionalText(opt_text(s.pixel_format)),
        v[38] == BindView::OptionalText(opt_text(s.profile)),
        v[39] == BindView::OptionalReal(s.real_frame_rate),
        v[40] == BindView::OptionalInt(opt_int(s.ref_frames)),
        v[41] == BindView::OptionalInt(opt_int(s.rotation)),
        v[42] == BindView::OptionalInt(opt_int(s.rpu_present_flag)),
        v[43] == BindView::OptionalInt(opt_int(s.sample_rate)),
        v[44] == BindView::StreamType(s.stream_type),
        v[45] == BindView::OptionalText(opt_text(s.time_base)),
        v[46] == BindView::OptionalText(opt_text(s.title)),
        v[47] == BindView::OptionalInt(opt_int(s.width)),
    ensures
        stream_in(v) == (StreamRowView { item_id: hyphenated_text(item_id.value), ..s@ }),
{
    lemma_optional_int(s.bit_depth);
    lemma_optional_int(s.bit_rate);
    lemma_optional_int(s.bl_present_flag);
    lemma_optional_int(s.channels);
    lemma_optional_int(s.dv_bl_signal_compatibility_id);
    lemma_optional_int(s.dv_level);
    lemma_optional_int(s.dv_profile);
    lemma_optional_int(s.dv_version_major);
    lemma_optional_int(s.dv_version_minor);
    lemma_optional_int(s.el_present_flag);
    lemma_optional_int(s.height);
    lemma_optional_int(s.ref_frames);
    lemma_optional_int(s.rotation);
    lemma_optional_int(s.rpu_present_flag);
    lemma_optional_int(s.sample_rate);
    lemma_optional_int(s.width);
}

/// The row that is stored for a stream holds that stream, as one of the item that it
/// was saved for.
#[verifier::rlimit(60)]
#[verifier::spinoff_prover]
pub proof fn law_row_holds_the_stream(item_id: Guid, s: MediaStreamInfoEntity)
    ensures
        stream_in(stream_values(item_id, s)) == (StreamRowView {
            item_id: hyphenated_text(item_id.value),
            ..s@
        }),
{
    reveal(stream_values);
    lemma_stream_in(stream_values(item_id, s), item_id, s);
}

} // verus!
