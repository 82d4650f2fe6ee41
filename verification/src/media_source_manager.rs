//! Media sources: what a client can play of an item, and the live streams that
//! are open.
use vstd::prelude::*;

use crate::guid::{guid_text, hyphenated_text, new_guid, Guid};
use crate::media_attachment_repository::AttachmentStreamInfoEntity;
use crate::media_stream_repository::MediaStreamInfoEntity;
use crate::model::MediaStreamType;
use crate::paths::{extension, path_extension};
use crate::service_error::{ErrorView, ServiceError};
use crate::sql::copy_text;
use crate::table::Table;
use crate::text::{concat, lowercase, opt_text, to_lowercase};

verus! {

// ---------------------------------------------------------------------------
// Streams
// ---------------------------------------------------------------------------
/// What a client sees of a stream. Its level is a double-precision number and its
/// frame rates are single-precision ones, which are carried by their bits.
#[derive(Debug, Clone)]
pub struct MediaStream {
    pub index: i32,
    pub stream_type: MediaStreamType,
    pub codec: Option<String>,
    pub codec_tag: Option<String>,
    pub language: Option<String>,
    pub title: Option<String>,
    pub comment: Option<String>,
    pub time_base: Option<String>,
    pub codec_time_base: Option<String>,
    pub profile: Option<String>,
    pub aspect_ratio: Option<String>,
    pub path: Option<String>,
    pub channel_layout: Option<String>,
    pub pixel_format: Option<String>,
    pub color_space: Option<String>,
    pub color_transfer: Option<String>,
    pub color_primaries: Option<String>,
    pub nal_length_size: Option<String>,
    pub is_interlaced: bool,
    pub is_hearing_impaired: bool,
    pub is_default: bool,
    pub is_forced: bool,
    pub is_external: bool,
    pub is_original: bool,
    pub is_avc: Option<bool>,
    pub is_anamorphic: Option<bool>,
    pub bit_rate: Option<i32>,
    pub bit_depth: Option<i32>,
    pub channels: Option<i32>,
    pub sample_rate: Option<i32>,
    pub ref_frames: Option<i32>,
    pub height: Option<i32>,
    pub width: Option<i32>,
    pub rotation: Option<i32>,
    pub level: Option<u64>,
    pub average_frame_rate: Option<u32>,
    pub real_frame_rate: Option<u32>,
}

/// What a stream stands for.
pub struct StreamView {
    pub index: i32,
    pub stream_type: MediaStreamType,
    pub codec: Option<Seq<char>>,
    pub codec_tag: Option<Seq<char>>,
    pub language: Option<Seq<char>>,
    pub title: Option<Seq<char>>,
    pub comment: Option<Seq<char>>,
    pub time_base: Option<Seq<char>>,
    pub codec_time_base: Option<Seq<char>>,
    pub profile: Option<Seq<char>>,
    pub aspect_ratio: Option<Seq<char>>,
    pub path: Option<Seq<char>>,
    pub channel_layout: Option<Seq<char>>,
    pub pixel_format: Option<Seq<char>>,
    pub color_space: Option<Seq<char>>,
    pub color_transfer: Option<Seq<char>>,
    pub color_primaries: Option<Seq<char>>,
    pub nal_length_size: Option<Seq<char>>,
    pub is_interlaced: bool,
    pub is_hearing_impaired: bool,
    pub is_default: bool,
    pub is_forced: bool,
    pub is_external: bool,
    pub is_original: bool,
    pub is_avc: Option<bool>,
    pub is_anamorphic: Option<bool>,
    pub bit_rate: Option<i32>,
    pub bit_depth: Option<i32>,
    pub channels: Option<i32>,
    pub sample_rate: Option<i32>,
    pub ref_frames: Option<i32>,
    pub height: Option<i32>,
    pub width: Option<i32>,
    pub rotation: Option<i32>,
    pub level: Option<u64>,
    pub average_frame_rate: Option<u32>,
    pub real_frame_rate: Option<u32>,
}

impl View for MediaStream {
    type V = StreamView;

    open spec fn view(&self) -> StreamView {
        StreamView {
            index: self.index,
            stream_type: self.stream_type,
            codec: opt_text(self.codec),
            codec_tag: opt_text(self.codec_tag),
            language: opt_text(self.language),
            title: opt_text(self.title),
            comment: opt_text(self.comment),
            time_base: opt_text(self.time_base),
            codec_time_base: opt_text(self.codec_time_base),
            profile: opt_text(self.profile),
            aspect_ratio: opt_text(self.aspect_ratio),
            path: opt_text(self.path),
            channel_layout: opt_text(self.channel_layout),
            pixel_format: opt_text(self.pixel_format),
            color_space: opt_text(self.color_space),
            color_transfer: opt_text(self.color_transfer),
            color_primaries: opt_text(self.color_primaries),
            nal_length_size: opt_text(self.nal_length_size),
            is_interlaced: self.is_interlaced,
            is_hearing_impaired: self.is_hearing_impaired,
            is_default: self.is_default,
            is_forced: self.is_forced,
            is_external: self.is_external,
            is_original: self.is_original,
            is_avc: self.is_avc,
            is_anamorphic: self.is_anamorphic,
            bit_rate: self.bit_rate,
            bit_depth: self.bit_depth,
            channels: self.channels,
            sample_rate: self.sample_rate,
            ref_frames: self.ref_frames,
            height: self.height,
            width: self.width,
            rotation: self.rotation,
            level: self.level,
            average_frame_rate: self.average_frame_rate,
            real_frame_rate: self.real_frame_rate,
        }
    }
}

/// What the row of a stream stands for.
pub struct StreamRowView {
    pub item_id: Seq<char>,
    pub stream_index: i64,
    pub stream_type: MediaStreamType,
    pub codec: Option<Seq<char>>,
    pub codec_tag: Option<Seq<char>>,
    pub language: Option<Seq<char>>,
    pub title: Option<Seq<char>>,
    pub comment: Option<Seq<char>>,
    pub time_base: Option<Seq<char>>,
    pub codec_time_base: Option<Seq<char>>,
    pub profile: Option<Seq<char>>,
    pub aspect_ratio: Option<Seq<char>>,
    pub path: Option<Seq<char>>,
    pub channel_layout: Option<Seq<char>>,
    pub pixel_format: Option<Seq<char>>,
    pub color_space: Option<Seq<char>>,
    pub color_transfer: Option<Seq<char>>,
    pub color_primaries: Option<Seq<char>>,
    pub nal_length_size: Option<Seq<char>>,
    pub key_frames: Option<Seq<char>>,
    pub is_default: bool,
    pub is_forced: bool,
    pub is_external: bool,
    pub is_original: bool,
    pub is_interlaced: Option<bool>,
    pub is_hearing_impaired: Option<bool>,
    pub is_avc: Option<bool>,
    pub is_anamorphic: Option<bool>,
    pub hdr10_plus_present_flag: Option<bool>,
    pub bit_rate: Option<i64>,
    pub bit_depth: Option<i64>,
    pub channels: Option<i64>,
    pub sample_rate: Option<i64>,
    pub ref_frames: Option<i64>,
    pub height: Option<i64>,
    pub width: Option<i64>,
    pub rotation: Option<i64>,
    pub bl_present_flag: Option<i64>,
    pub dv_bl_signal_compatibility_id: Option<i64>,
    pub dv_level: Option<i64>,
    pub dv_profile: Option<i64>,
    pub dv_version_major: Option<i64>,
    pub dv_version_minor: Option<i64>,
    pub el_present_flag: Option<i64>,
    pub rpu_present_flag: Option<i64>,
    pub level: Option<u64>,
    pub average_frame_rate: Option<u64>,
    pub real_frame_rate: Option<u64>,
}

impl View for MediaStreamInfoEntity {
    type V = StreamRowView;

    open spec fn view(&self) -> StreamRowView {
        StreamRowView {
            item_id: self.item_id@,
            stream_index: self.stream_index,
            stream_type: self.stream_type,
            codec: opt_text(self.codec),
            codec_tag: opt_text(self.codec_tag),
            language: opt_text(self.language),
            title: opt_text(self.title),
            comment: opt_text(self.comment),
            time_base: opt_text(self.time_base),
            codec_time_base: opt_text(self.codec_time_base),
            profile: opt_text(self.profile),
            aspect_ratio: opt_text(self.aspect_ratio),
            path: opt_text(self.path),
            channel_layout: opt_text(self.channel_layout),
            pixel_format: opt_text(self.pixel_format),
            color_space: opt_text(self.color_space),
            color_transfer: opt_text(self.color_transfer),
            color_primaries: opt_text(self.color_primaries),
            nal_length_size: opt_text(self.nal_length_size),
            key_frames: opt_text(self.key_frames),
            is_default: self.is_default,
            is_forced: self.is_forced,
            is_external: self.is_external,
            is_original: self.is_original,
            is_interlaced: self.is_interlaced,
            is_hearing_impaired: self.is_hearing_impaired,
            is_avc: self.is_avc,
            is_anamorphic: self.is_anamorphic,
            hdr10_plus_present_flag: self.hdr10_plus_present_flag,
            bit_rate: self.bit_rate,
            bit_depth: self.bit_depth,
            channels: self.channels,
            sample_rate: self.sample_rate,
            ref_frames: self.ref_frames,
            height: self.height,
            width: self.width,
            rotation: self.rotation,
            bl_present_flag: self.bl_present_flag,
            dv_bl_signal_compatibility_id: self.dv_bl_signal_compatibility_id,
            dv_level: self.dv_level,
            dv_profile: self.dv_profile,
            dv_version_major: self.dv_version_major,
            dv_version_minor: self.dv_version_minor,
            el_present_flag: self.el_present_flag,
            rpu_present_flag: self.rpu_present_flag,
            level: self.level,
            average_frame_rate: self.average_frame_rate,
            real_frame_rate: self.real_frame_rate,
        }
    }
}

/// The number as a 32-bit integer, if it is one.
pub open spec fn as_i32(n: i64) -> Option<i32> {
    if i32::MIN <= n <= i32::MAX {
        Some(n as i32)
    } else {
        None
    }
}

/// An optional number as a 32-bit integer; a number that is none is left out.
pub open spec fn narrowed(n: Option<i64>) -> Option<i32> {
    match n {
        Some(n) => as_i32(n),
        None => None,
    }
}

/// An optional 32-bit integer as a 64-bit one.
pub open spec fn widened(n: Option<i32>) -> Option<i64> {
    match n {
        Some(n) => Some(n as i64),
        None => None,
    }
}

fn to_i32(n: i64) -> (r: Option<i32>)
    ensures
        r == as_i32(n),
{
    if -2147483648 <= n && n <= 2147483647 {
        Some(n as i32)
    } else {
        None
    }
}

fn narrow(n: Option<i64>) -> (r: Option<i32>)
    ensures
        r == narrowed(n),
{
    match n {
        Some(n) => to_i32(n),
        None => None,
    }
}

fn widen(n: Option<i32>) -> (r: Option<i64>)
    ensures
        r == widened(n),
{
    match n {
        Some(n) => Some(n as i64),
        None => None,
    }
}

/// The frame rates of a stream's row in single precision, by their bits. Where the
/// row lacks a rate, the number counts for nothing.
#[derive(Debug, Clone, Copy)]
pub struct SingleRates {
    pub average: u32,
    pub real: u32,
}

/// The frame rates that a client sees of a stream in double precision, by their
/// bits. Where the stream lacks a rate, the number counts for nothing.
#[derive(Debug, Clone, Copy)]
pub struct DoubleRates {
    pub average: u64,
    pub real: u64,
}

/// The rate in single precision, if there is one in double precision.
pub open spec fn single_rate(stored: Option<u64>, single: u32) -> Option<u32> {
    match stored {
        Some(_) => Some(single),
        None => None,
    }
}

/// The rate in double precision, if there is one in single precision.
pub open spec fn double_rate(shown: Option<u32>, double: u64) -> Option<u64> {
    match shown {
        Some(_) => Some(double),
        None => None,
    }
}

fn to_single(stored: Option<u64>, single: u32) -> (r: Option<u32>)
    ensures
        r == single_rate(stored, single),
{
    match stored {
        Some(_) => Some(single),
        None => None,
    }
}

fn to_double(shown: Option<u32>, double: u64) -> (r: Option<u64>)
    ensures
        r == double_rate(shown, double),
{
    match shown {
        Some(_) => Some(double),
        None => None,
    }
}

/// What a client sees of a stream's row. An index that is no 32-bit integer is
/// shown as 0, and other numbers that are none are left out. Frame rates are shown
/// in single precision.
pub open spec fn shown_stream(row: StreamRowView, rates: SingleRates) -> StreamView {
    StreamView {
        index: match as_i32(row.stream_index) {
            Some(n) => n,
            None => 0,
        },
        stream_type: row.stream_type,
        codec: row.codec,
        codec_tag: row.codec_tag,
        language: row.language,
        title: row.title,
        comment: row.comment,
        time_base: row.time_base,
        codec_time_base: row.codec_time_base,
        profile: row.profile,
        aspect_ratio: row.aspect_ratio,
        path: row.path,
        channel_layout: row.channel_layout,
        pixel_format: row.pixel_format,
        color_space: row.color_space,
        color_transfer: row.color_transfer,
        color_primaries: row.color_primaries,
        nal_length_size: None,
        is_interlaced: row.is_interlaced == Some(true),
        is_hearing_impaired: row.is_hearing_impaired == Some(true),
        is_default: row.is_default,
        is_forced: row.is_forced,
        is_external: row.is_external,
        is_original: row.is_original,
        is_avc: row.is_avc,
        is_anamorphic: row.is_anamorphic,
        bit_rate: narrowed(row.bit_rate),
        bit_depth: narrowed(row.bit_depth),
        channels: narrowed(row.channels),
        sample_rate: narrowed(row.sample_rate),
        ref_frames: narrowed(row.ref_frames),
        height: narrowed(row.height),
        width: narrowed(row.width),
        rotation: None,
        level: row.level,
        average_frame_rate: single_rate(row.average_frame_rate, rates.average),
        real_frame_rate: single_rate(row.real_frame_rate, rates.real),
    }
}

/// What a client sees of a stream's row, whose frame rates are `rates` in single
/// precision.
pub fn stream_to_dto(row: &MediaStreamInfoEntity, rates: SingleRates) -> (r: MediaStream)
    ensures
        r@ == shown_stream(row@, rates),
{
    MediaStream {
        index: match to_i32(row.stream_index) {
            Some(n) => n,
            None => 0,
        },
        stream_type: row.stream_type,
        codec: copy_text(&row.codec),
        codec_tag: copy_text(&row.codec_tag),
        language: copy_text(&row.language),
        title: copy_text(&row.title),
        comment: copy_text(&row.comment),
        time_base: copy_text(&row.time_base),
        codec_time_base: copy_text(&row.codec_time_base),
        profile: copy_text(&row.profile),
        aspect_ratio: copy_text(&row.aspect_ratio),
        path: copy_text(&row.path),
        channel_layout: copy_text(&row.channel_layout),
        pixel_format: copy_text(&row.pixel_format),
        color_space: copy_text(&row.color_space),
        color_transfer: copy_text(&row.color_transfer),
        color_primaries: copy_text(&row.color_primaries),
        nal_length_size: None,
        is_interlaced: row.is_interlaced.unwrap_or(false),
        is_hearing_impaired: row.is_hearing_impaired.unwrap_or(false),
        is_default: row.is_default,
        is_forced: row.is_forced,
        is_external: row.is_external,
        is_original: row.is_original,
        is_avc: row.is_avc,
        is_anamorphic: row.is_anamorphic,
        bit_rate: narrow(row.bit_rate),
        bit_depth: narrow(row.bit_depth),
        channels: narrow(row.channels),
        sample_rate: narrow(row.sample_rate),
        ref_frames: narrow(row.ref_frames),
        height: narrow(row.height),
        width: narrow(row.width),
        rotation: None,
        level: row.level,
        average_frame_rate: to_single(row.average_frame_rate, rates.average),
        real_frame_rate: to_single(row.real_frame_rate, rates.real),
    }
}

/// The row for a stream of the item `item_id`. What a client does not see is left
/// empty. Frame rates are stored in double precision.
pub open spec fn stored_stream(
    item_id: Seq<char>,
    s: StreamView,
    rates: DoubleRates,
) -> StreamRowView {
    StreamRowView {
        item_id,
        stream_index: s.index as i64,
        stream_type: s.stream_type,
        codec: s.codec,
        codec_tag: s.codec_tag,
        language: s.language,
        title: s.title,
        comment: s.comment,
        time_base: s.time_base,
        codec_time_base: s.codec_time_base,
        profile: s.profile,
        aspect_ratio: s.aspect_ratio,
        path: s.path,
        channel_layout: s.channel_layout,
        pixel_format: s.pixel_format,
        color_space: s.color_space,
        color_transfer: s.color_transfer,
        color_primaries: s.color_primaries,
        nal_length_size: s.nal_length_size,
        key_frames: None,
        is_default: s.is_default,
        is_forced: s.is_forced,
        is_external: s.is_external,
        is_original: s.is_original,
        is_interlaced: Some(s.is_interlaced),
        is_hearing_impaired: Some(s.is_hearing_impaired),
        is_avc: s.is_avc,
        is_anamorphic: s.is_anamorphic,
        hdr10_plus_present_flag: None,
        bit_rate: widened(s.bit_rate),
        bit_depth: widened(s.bit_depth),
        channels: widened(s.channels),
        sample_rate: widened(s.sample_rate),
        ref_frames: widened(s.ref_frames),
        height: widened(s.height),
        width: widened(s.width),
        rotation: widened(s.rotation),
        bl_present_flag: None,
        dv_bl_signal_compatibility_id: None,
        dv_level: None,
        dv_profile: None,
        dv_version_major: None,
        dv_version_minor: None,
        el_present_flag: None,
        rpu_present_flag: None,
        level: s.level,
        average_frame_rate: double_rate(s.average_frame_rate, rates.average),
        real_frame_rate: double_rate(s.real_frame_rate, rates.real),
    }
}

/// The row for a stream of the item `item_id`, whose frame rates are `rates` in
/// double precision.
pub fn stream_dto_to_entity(
    item_id: &str,
    s: &MediaStream,
    rates: DoubleRates,
) -> (r: MediaStreamInfoEntity)
    ensures
        r@ == stored_stream(item_id@, s@, rates),
{
    MediaStreamInfoEntity {
        item_id: item_id.to_owned(),
        stream_index: s.index as i64,
        stream_type: s.stream_type,
        codec: copy_text(&s.codec),
        codec_tag: copy_text(&s.codec_tag),
        language: copy_text(&s.language),
        title: copy_text(&s.title),
        comment: copy_text(&s.comment),
        time_base: copy_text(&s.time_base),
        codec_time_base: copy_text(&s.codec_time_base),
        profile: copy_text(&s.profile),
        aspect_ratio: copy_text(&s.aspect_ratio),
        path: copy_text(&s.path),
        channel_layout: copy_text(&s.channel_layout),
        pixel_format: copy_text(&s.pixel_format),
        color_space: copy_text(&s.color_space),
        color_transfer: copy_text(&s.color_transfer),
        color_primaries: copy_text(&s.color_primaries),
        nal_length_size: copy_text(&s.nal_length_size),
        key_frames: None,
        is_default: s.is_default,
        is_forced: s.is_forced,
        is_external: s.is_external,
        is_original: s.is_original,
        is_interlaced: Some(s.is_interlaced),
        is_hearing_impaired: Some(s.is_hearing_impaired),
        is_avc: s.is_avc,
        is_anamorphic: s.is_anamorphic,
        hdr10_plus_present_flag: None,
        bit_rate: widen(s.bit_rate),
        bit_depth: widen(s.bit_depth),
        channels: widen(s.channels),
        sample_rate: widen(s.sample_rate),
        ref_frames: widen(s.ref_frames),
        height: widen(s.height),
        width: widen(s.width),
        rotation: widen(s.rotation),
        bl_present_flag: None,
        dv_bl_signal_compatibility_id: None,
        dv_level: None,
        dv_profile: None,
        dv_version_major: None,
        dv_version_minor: None,
        el_present_flag: None,
        rpu_present_flag: None,
        level: s.level,
        average_frame_rate: to_double(s.average_frame_rate, rates.average),
        real_frame_rate: to_double(s.real_frame_rate, rates.real),
    }
}

/// A stream that is stored and read again is the same, except for the rotation
/// and the size of its lengths, which are not read. Its frame rates are `single`,
/// which are those that it had where taking a number to double precision and back
/// keeps it.
pub proof fn law_stored_stream_is_shown_again(
    item_id: Seq<char>,
    s: StreamView,
    double: DoubleRates,
    single: SingleRates,
)
    ensures
        shown_stream(stored_stream(item_id, s, double), single) == (StreamView {
            rotation: None,
            nal_length_size: None,
            average_frame_rate: match s.average_frame_rate {
                Some(_) => Some(single.average),
                None => None,
            },
            real_frame_rate: match s.real_frame_rate {
                Some(_) => Some(single.real),
                None => None,
            },
            ..s
        }),
{
}

/// A row of a stream, with its frame rates in single precision.
#[derive(Debug, Clone)]
pub struct RatedStreamRow {
    pub row: MediaStreamInfoEntity,
    pub rates: SingleRates,
}

/// What clients see of rows.
pub open spec fn shown_streams(rows: Seq<RatedStreamRow>) -> Seq<StreamView> {
    rows.map_values(|r: RatedStreamRow| shown_stream(r.row@, r.rates))
}

/// What streams stand for.
pub open spec fn stream_views(v: Seq<MediaStream>) -> Seq<StreamView> {
    v.map_values(|s: MediaStream| s@)
}

/// What clients see of the rows of an item's streams.
pub fn streams_dto(rows: &Vec<RatedStreamRow>) -> (r: Vec<MediaStream>)
    ensures
        stream_views(r@) == shown_streams(rows@),
{
    let mut out: Vec<MediaStream> = Vec::new();
    let mut i: usize = 0;
    while i < rows.len()
        invariant
            i <= rows.len(),
            out@.len() == i,
            forall|j: int| 0 <= j < i ==> (#[trigger] out@[j])@ == shown_stream(
                rows@[j].row@,
                rows@[j].rates,
            ),
        decreases rows.len() - i,
    {
        out.push(stream_to_dto(&rows[i].row, rows[i].rates));
        i += 1;
    }
    assert(stream_views(out@) =~= shown_streams(rows@));
    out
}

// ---------------------------------------------------------------------------
// Attachments
// ---------------------------------------------------------------------------
/// What a client sees of an attachment.
#[derive(Debug, Clone)]
pub struct MediaAttachment {
    pub index: i32,
    pub codec: Option<String>,
    pub codec_tag: Option<String>,
    pub comment: Option<String>,
    pub file_name: Option<String>,
    pub mime_type: Option<String>,
    pub delivery_url: Option<String>,
}

impl MediaAttachment {
    /// Whether this is what a client sees of `row`.
    pub open spec fn shows(&self, row: AttachmentStreamInfoEntity) -> bool {
        &&& self.index == (match as_i32(row.index) {
            Some(n) => n,
            None => 0,
        })
        &&& opt_text(self.codec) == opt_text(row.codec)
        &&& opt_text(self.codec_tag) == opt_text(row.codec_tag)
        &&& opt_text(self.comment) == opt_text(row.comment)
        &&& opt_text(self.file_name) == opt_text(row.filename)
        &&& opt_text(self.mime_type) == opt_text(row.mime_type)
        &&& self.delivery_url is None
    }
}

/// What a client sees of an attachment's row.
pub fn attachment_to_dto(row: &AttachmentStreamInfoEntity) -> (r: MediaAttachment)
    ensures
        r.shows(*row),
{
    MediaAttachment {
        index: match to_i32(row.index) {
            Some(n) => n,
            None => 0,
        },
        codec: copy_text(&row.codec),
        codec_tag: copy_text(&row.codec_tag),
        comment: copy_text(&row.comment),
        file_name: copy_text(&row.filename),
        mime_type: copy_text(&row.mime_type),
        delivery_url: None,
    }
}

/// What clients see of the rows of an item's attachments.
pub fn attachments_dto(rows: &Vec<AttachmentStreamInfoEntity>) -> (r: Vec<MediaAttachment>)
    ensures
        r@.len() == rows@.len(),
        forall|i: int| 0 <= i < r@.len() ==> (#[trigger] r@[i]).shows(rows@[i]),
{
    let mut out: Vec<MediaAttachment> = Vec::new();
    let mut i: usize = 0;
    while i < rows.len()
        invariant
            i <= rows.len(),
            out@.len() == i,
            forall|j: int| 0 <= j < i ==> (#[trigger] out@[j]).shows(rows@[j]),
        decreases rows.len() - i,
    {
        out.push(attachment_to_dto(&rows[i]));
        i += 1;
    }
    out
}

// ---------------------------------------------------------------------------
// Sources
// ---------------------------------------------------------------------------
/// How a source is reached.
#[derive(Debug, Clone, Copy, PartialEq, Eq, Structural)]
pub enum MediaProtocol {
    File,
    Http,
}

/// What kind of source it is.
#[derive(Debug, Clone, Copy, PartialEq, Eq, Structural)]
pub enum MediaSourceType {
    Default,
    Grouping,
    Placeholder,
}

/// The row of an item, as far as its sources need it.
#[derive(Debug, Clone)]
pub struct SourceItemRow {
    pub id: String,
    pub path: Option<String>,
    pub name: Option<String>,
    pub size: Option<i64>,
    pub run_time_ticks: Option<i64>,
}

/// Something that a client can play.
#[derive(Debug, Clone)]
pub struct MediaSourceInfo {
    pub id: Option<String>,
    pub path: Option<String>,
    pub name: Option<String>,
    pub container: Option<String>,
    pub size: Option<i64>,
    pub run_time_ticks: Option<i64>,
    pub media_streams: Vec<MediaStream>,
    pub protocol: MediaProtocol,
    pub source_type: MediaSourceType,
    pub supports_direct_play: bool,
    pub supports_direct_stream: bool,
    pub supports_transcoding: bool,
    pub requires_closing: bool,
    pub live_stream_id: Option<String>,
}

/// The container of the file at a path: its extension in lower case.
pub open spec fn container(path: Option<Seq<char>>) -> Option<Seq<char>> {
    match path {
        None => None,
        Some(p) => match extension(p) {
            None => None,
            Some(e) => if lowercase(e).len() > 0 {
                Some(lowercase(e))
            } else {
                None
            },
        },
    }
}

/// The container of an item's file.
pub fn container_of(item: &SourceItemRow) -> (r: Option<String>)
    ensures
        opt_text(r) == container(opt_text(item.path)),
{
    match &item.path {
        None => None,
        Some(p) => match path_extension(p.as_str()) {
            None => None,
            Some(e) => {
                let low: String = to_lowercase(e.as_str());
                if low.as_str().unicode_len() > 0 {
                    Some(low)
                } else {
                    None
                }
            },
        },
    }
}

/// The source that an item itself is: its file, with its streams, to be played in
/// any way.
pub fn static_source(item: &SourceItemRow, streams: Vec<MediaStream>) -> (r: MediaSourceInfo)
    ensures
        opt_text(r.id) == Some(item.id@),
        opt_text(r.path) == opt_text(item.path),
        opt_text(r.name) == opt_text(item.name),
        opt_text(r.container) == container(opt_text(item.path)),
        r.size == item.size,
        r.run_time_ticks == item.run_time_ticks,
        r.media_streams == streams,
        r.protocol == MediaProtocol::File,
        r.source_type == MediaSourceType::Default,
        r.supports_direct_play && r.supports_direct_stream && r.supports_transcoding,
        !r.requires_closing,
        r.live_stream_id is None,
{
    MediaSourceInfo {
        id: Some(item.id.clone()),
        path: copy_text(&item.path),
        name: copy_text(&item.name),
        container: container_of(item),
        size: item.size,
        run_time_ticks: item.run_time_ticks,
        media_streams: streams,
        protocol: MediaProtocol::File,
        source_type: MediaSourceType::Default,
        supports_direct_play: true,
        supports_direct_stream: true,
        supports_transcoding: true,
        requires_closing: false,
        live_stream_id: None,
    }
}

/// The sources of an item: itself, if it exists.
pub fn static_media_sources(
    item: Option<SourceItemRow>,
    rows: &Vec<RatedStreamRow>,
) -> (r: Vec<MediaSourceInfo>)
    ensures
        item is None ==> r@.len() == 0,
        item matches Some(i) ==> {
            &&& r@.len() == 1
            &&& opt_text(r@[0].id) == Some(i.id@)
            &&& opt_text(r@[0].path) == opt_text(i.path)
            &&& opt_text(r@[0].name) == opt_text(i.name)
            &&& opt_text(r@[0].container) == container(opt_text(i.path))
            &&& r@[0].size == i.size
            &&& r@[0].run_time_ticks == i.run_time_ticks
            &&& stream_views(r@[0].media_streams@) == shown_streams(rows@)
            &&& r@[0].protocol == MediaProtocol::File
            &&& r@[0].source_type == MediaSourceType::Default
            &&& r@[0].supports_direct_play && r@[0].supports_direct_stream
                && r@[0].supports_transcoding
            &&& !r@[0].requires_closing
            &&& r@[0].live_stream_id is None
        },
{
    match item {
        None => Vec::new(),
        Some(i) => {
            let streams: Vec<MediaStream> = streams_dto(rows);
            vec![static_source(&i, streams)]
        },
    }
}

// ---------------------------------------------------------------------------
// Live streams
// ---------------------------------------------------------------------------
/// The live streams that are open, under their identifiers.
#[derive(Debug, Clone)]
pub struct HermitMediaSourceManager {
    pub streams: Table<String, MediaSourceInfo>,
}

impl View for HermitMediaSourceManager {
    type V = Map<Seq<char>, MediaSourceInfo>;

    open spec fn view(&self) -> Map<Seq<char>, MediaSourceInfo> {
        self.streams@
    }
}

/// Whether `opened` is `source` as a live stream with the identifier `id`.
pub open spec fn is_opened(opened: MediaSourceInfo, source: MediaSourceInfo, id: Seq<char>) -> bool {
    &&& opt_text(opened.live_stream_id) == Some(id)
    &&& opened == (MediaSourceInfo {
        live_stream_id: opened.live_stream_id,
        requires_closing: true,
        ..source
    })
}

/// Whether `key` is the text of `id`, which is not the empty identifier.
pub open spec fn is_minted(key: Seq<char>, id: Guid) -> bool {
    id.value != 0 && key == hyphenated_text(id.value)
}

impl HermitMediaSourceManager {
    /// No identifier occurs twice.
    pub open spec fn wf(&self) -> bool {
        self.streams.wf()
    }

    /// No live streams.
    pub fn new() -> (r: Self)
        ensures
            r.wf(),
            r@ == Map::<Seq<char>, MediaSourceInfo>::empty(),
    {
        HermitMediaSourceManager { streams: Table::new() }
    }

    /// Keeps `source` as a live stream under the identifier `id`, which is
    /// returned as text.
    pub fn open_as(&mut self, id: Guid, source: MediaSourceInfo) -> (r: String)
        requires
            old(self).wf(),
        ensures
            final(self).wf(),
            r@ == hyphenated_text(id.value),
            final(self)@.contains_key(r@),
            is_opened(final(self)@[r@], source, r@),
            final(self)@.remove(r@) == old(self)@.remove(r@),
    {
        let key: String = guid_text(id);
        let mut opened: MediaSourceInfo = source;
        opened.live_stream_id = Some(key.clone());
        opened.requires_closing = true;
        self.streams.insert(key.clone(), opened);
        assert(self@.remove(key@) =~= old(self)@.remove(key@));
        key
    }

    /// Keeps `source` as a live stream under a new identifier, which is returned
    /// as text.
    pub fn open_live_stream(&mut self, source: MediaSourceInfo) -> (r: String)
        requires
            old(self).wf(),
        ensures
            final(self).wf(),
            exists|id: Guid| #[trigger] is_minted(r@, id),
            final(self)@.contains_key(r@),
            is_opened(final(self)@[r@], source, r@),
            final(self)@.remove(r@) == old(self)@.remove(r@),
    {
        let id: Guid = new_guid();
        let key: String = self.open_as(id, source);
        assert(is_minted(key@, id));
        key
    }

    /// The live stream with the identifier `id`.
    pub fn get_live_stream(&self, id: &str) -> (r: Result<&MediaSourceInfo, ServiceError>)
        requires
            self.wf(),
        ensures
            match r {
                Ok(s) => self@.contains_key(id@) && *s == self@[id@],
                Err(e) => !self@.contains_key(id@) && e@ == ErrorView::NotFound(
                    "live stream "@ + id@,
                ),
            },
    {
        match self.streams.get(&id.to_owned()) {
            Some(s) => Ok(s),
            None => Err(ServiceError::NotFound(concat("live stream ", id))),
        }
    }

    /// Closes the live stream with the identifier `id`, if it is open.
    pub fn close_live_stream(&mut self, id: &str)
        requires
            old(self).wf(),
        ensures
            final(self).wf(),
            final(self)@ == old(self)@.remove(id@),
    {
        let gone: Option<MediaSourceInfo> = self.streams.remove(&id.to_owned());
    }
}

/// A live stream is there from when it is opened until it is closed, and neither
/// touches the others: `opened` is what an opening leaves of `before`, and
/// `closed` what closing it leaves of that.
pub proof fn law_live_stream_lives_until_closed(
    before: Map<Seq<char>, MediaSourceInfo>,
    opened: Map<Seq<char>, MediaSourceInfo>,
    closed: Map<Seq<char>, MediaSourceInfo>,
    id: Seq<char>,
)
    requires
        opened.contains_key(id),
        opened.remove(id) == before.remove(id),
        closed == opened.remove(id),
    ensures
        !closed.contains_key(id),
        forall|k: Seq<char>|
            k != id ==> (#[trigger] closed.contains_key(k) <==> before.contains_key(k)) && (
            before.contains_key(k) ==> opened[k] == before[k] && closed[k] == before[k]),
{
    assert forall|k: Seq<char>| k != id implies (#[trigger] closed.contains_key(k)
        <==> before.contains_key(k)) && (before.contains_key(k) ==> opened[k] == before[k]
        && closed[k] == before[k]) by {
        assert(before.remove(id).contains_key(k) <==> before.contains_key(k));
        assert(opened.remove(id).contains_key(k) <==> opened.contains_key(k));
        if before.contains_key(k) {
            assert(before.remove(id)[k] == before[k]);
            assert(opened.remove(id)[k] == opened[k]);
        }
    }
}

} // verus!
