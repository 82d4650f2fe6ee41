//! Media segments: the intros, outros and other spans of an item.
use vstd::prelude::*;

use crate::guid::{db_text, guid_to_db, new_guid, Guid};
use crate::item_type_lookup::ItemTypeNames;
use crate::model::BaseItemKind;
use crate::service_error::{ErrorView, ServiceError};
use crate::sql::{
    binds, give, give_all, push_value, say, BindValue, BindView, PieceView, Sql, SqlBuilder,
};

verus! {

/// What a segment is.
#[derive(Debug, Clone, Copy, PartialEq, Eq, Structural)]
pub enum MediaSegmentType {
    Unknown,
    Commercial,
    Preview,
    Recap,
    Outro,
    Intro,
}

/// A span of an item, in ticks.
#[derive(Debug, Clone, Copy, PartialEq, Eq, Structural)]
pub struct MediaSegmentDto {
    pub id: Guid,
    pub item_id: Guid,
    pub segment_type: MediaSegmentType,
    pub start_ticks: i64,
    pub end_ticks: i64,
}

/// The number that is stored for a type.
pub open spec fn type_number(kind: MediaSegmentType) -> int {
    match kind {
        MediaSegmentType::Unknown => 0,
        MediaSegmentType::Commercial => 1,
        MediaSegmentType::Preview => 2,
        MediaSegmentType::Recap => 3,
        MediaSegmentType::Outro => 4,
        MediaSegmentType::Intro => 5,
    }
}

/// The number that is stored for a type.
pub fn type_discriminant(kind: MediaSegmentType) -> (r: i32)
    ensures
        r == type_number(kind),
{
    match kind {
        MediaSegmentType::Unknown => 0,
        MediaSegmentType::Commercial => 1,
        MediaSegmentType::Preview => 2,
        MediaSegmentType::Recap => 3,
        MediaSegmentType::Outro => 4,
        MediaSegmentType::Intro => 5,
    }
}

/// Types with the same number are the same.
pub proof fn law_type_numbers_differ(a: MediaSegmentType, b: MediaSegmentType)
    requires
        type_number(a) == type_number(b),
    ensures
        a == b,
{
}

fn holds_kind(kinds: &Vec<BaseItemKind>, kind: BaseItemKind) -> (r: bool)
    ensures
        r == kinds@.contains(kind),
{
    let mut i: usize = 0;
    while i < kinds.len()
        invariant
            i <= kinds.len(),
            forall|j: int| 0 <= j < i ==> #[trigger] kinds@[j] != kind,
        decreases kinds.len() - i,
    {
        if kinds[i] == kind {
            assert(kinds@[i as int] == kind);
            return true;
        }
        i += 1;
    }
    false
}

/// Whether items of the stored type `stored_type` can have segments: those that
/// are video. `None` stands for an item that does not exist.
pub fn is_type_supported(
    names: &ItemTypeNames,
    stored_type: Option<&str>,
    video_kinds: &Vec<BaseItemKind>,
) -> (r: bool)
    ensures
        r == (stored_type matches Some(t) && names.kind_of(t@) matches Some(k)
            && video_kinds@.contains(k)),
{
    match stored_type {
        None => false,
        Some(t) => match names.kind_from_type_name(t) {
            None => false,
            Some(kind) => holds_kind(video_kinds, kind),
        },
    }
}

// ---------------------------------------------------------------------------
// Statements
// ---------------------------------------------------------------------------
/// The statement that stores a segment.
pub open spec fn insert_segment_sql(s: MediaSegmentDto, provider_id: Seq<char>) -> Sql {
    say(
        give_all(
            seq![
                PieceView::Sql(
                    r#"INSERT INTO "MediaSegments" ("Id", "EndTicks", "ItemId", "SegmentProviderId", "StartTicks", "Type") VALUES ("#@,
                ),
            ],
            seq![
                BindView::Text(db_text(s.id.value)),
                BindView::Int(s.end_ticks as int),
                BindView::Text(db_text(s.item_id.value)),
                BindView::Text(provider_id),
                BindView::Int(s.start_ticks as int),
                BindView::Int(type_number(s.segment_type)),
            ],
        ),
        ")"@,
    )
}

/// Creates a segment: the statement that stores it, and the segment. One without
/// an identifier gets a new one.
pub fn create_segment(segment: &MediaSegmentDto, segment_provider_id: &str) -> (r: (
    SqlBuilder,
    MediaSegmentDto,
))
    ensures
        r.0@ == insert_segment_sql(r.1, segment_provider_id@),
        r.1 == (MediaSegmentDto { id: r.1.id, ..*segment }),
        segment.id.value != 0 ==> r.1.id == segment.id,
        r.1.id.value != 0,
{
    let id: Guid = if segment.id.is_nil() {
        new_guid()
    } else {
        segment.id
    };
    let made: MediaSegmentDto = MediaSegmentDto {
        id,
        item_id: segment.item_id,
        segment_type: segment.segment_type,
        start_ticks: segment.start_ticks,
        end_ticks: segment.end_ticks,
    };
    let mut v: Vec<BindValue> = Vec::new();
    assert(binds(v@) =~= Seq::<BindView>::empty());
    push_value(&mut v, BindValue::Text(guid_to_db(made.id)));
    push_value(&mut v, BindValue::Int(made.end_ticks));
    push_value(&mut v, BindValue::Text(guid_to_db(made.item_id)));
    push_value(&mut v, BindValue::Text(segment_provider_id.to_owned()));
    push_value(&mut v, BindValue::Int(made.start_ticks));
    push_value(&mut v, BindValue::Int(type_discriminant(made.segment_type) as i64));
    assert(binds(v@) =~= seq![
        BindView::Text(db_text(made.id.value)),
        BindView::Int(made.end_ticks as int),
        BindView::Text(db_text(made.item_id.value)),
        BindView::Text(segment_provider_id@),
        BindView::Int(made.start_ticks as int),
        BindView::Int(type_number(made.segment_type)),
    ]);
    let mut qb: SqlBuilder = SqlBuilder::new(
        r#"INSERT INTO "MediaSegments" ("Id", "EndTicks", "ItemId", "SegmentProviderId", "StartTicks", "Type") VALUES ("#,
    );
    qb.push_all(v.as_slice());
    qb.push(")");
    (qb, made)
}

/// A statement that ends with an identifier.
pub open spec fn with_id(text: Seq<char>, id: Guid) -> Sql {
    give(seq![PieceView::Sql(text)], BindView::Text(db_text(id.value)))
}

fn query_with_id(text: &'static str, id: Guid) -> (r: SqlBuilder)
    ensures
        r@ == with_id(text@, id),
{
    let mut qb: SqlBuilder = SqlBuilder::new(text);
    qb.push_bind(BindValue::Text(guid_to_db(id)));
    qb
}

/// The statement that removes a segment.
pub fn delete_segment_query(segment_id: Guid) -> (r: SqlBuilder)
    ensures
        r@ == with_id(r#"DELETE FROM "MediaSegments" WHERE "Id" = "#@, segment_id),
{
    query_with_id(r#"DELETE FROM "MediaSegments" WHERE "Id" = "#, segment_id)
}

/// The statement that removes the segments of an item.
pub fn delete_segments_query(item_id: Guid) -> (r: SqlBuilder)
    ensures
        r@ == with_id(r#"DELETE FROM "MediaSegments" WHERE "ItemId" = "#@, item_id),
{
    query_with_id(r#"DELETE FROM "MediaSegments" WHERE "ItemId" = "#, item_id)
}

/// `acc`, narrowed to a type where one is given.
pub open spec fn of_type(acc: Sql, type_filter: Option<MediaSegmentType>) -> Sql {
    match type_filter {
        Some(kind) => give(say(acc, r#" AND "Type" = "#@), BindView::Int(type_number(kind))),
        None => acc,
    }
}

fn push_type(qb: &mut SqlBuilder, type_filter: Option<MediaSegmentType>)
    ensures
        final(qb)@ == of_type(old(qb)@, type_filter),
{
    if let Some(kind) = type_filter {
        qb.push(r#" AND "Type" = "#);
        qb.push_bind(BindValue::Int(type_discriminant(kind) as i64));
    }
}

/// The statement that removes the segments that a provider gave an item, of one
/// type or of all.
pub fn delete_provider_segments_query(
    item_id: Guid,
    provider_id: &str,
    type_filter: Option<MediaSegmentType>,
) -> (r: SqlBuilder)
    ensures
        r@ == of_type(
            give(
                say(
                    with_id(r#"DELETE FROM "MediaSegments" WHERE "ItemId" = "#@, item_id),
                    r#" AND "SegmentProviderId" = "#@,
                ),
                BindView::Text(provider_id@),
            ),
            type_filter,
        ),
{
    let mut qb: SqlBuilder = query_with_id(
        r#"DELETE FROM "MediaSegments" WHERE "ItemId" = "#,
        item_id,
    );
    qb.push(r#" AND "SegmentProviderId" = "#);
    qb.push_text(provider_id);
    push_type(&mut qb, type_filter);
    qb
}

/// The statement that removes the segments that a provider gave, of one type or
/// of all.
pub fn delete_all_provider_segments_query(
    provider_id: &str,
    type_filter: Option<MediaSegmentType>,
) -> (r: SqlBuilder)
    ensures
        r@ == of_type(
            give(
                seq![
                    PieceView::Sql(
                        r#"DELETE FROM "MediaSegments" WHERE "SegmentProviderId" = "#@,
                    ),
                ],
                BindView::Text(provider_id@),
            ),
            type_filter,
        ),
{
    let mut qb: SqlBuilder = SqlBuilder::new(
        r#"DELETE FROM "MediaSegments" WHERE "SegmentProviderId" = "#,
    );
    qb.push_text(provider_id);
    push_type(&mut qb, type_filter);
    qb
}

/// The statement for the segments of an item, in the order in which they begin.
pub fn segments_query(item_id: Guid) -> (r: SqlBuilder)
    ensures
        r@ == say(
            with_id(r#"SELECT * FROM "MediaSegments" WHERE "ItemId" = "#@, item_id),
            r#" ORDER BY "StartTicks""#@,
        ),
{
    let mut qb: SqlBuilder = query_with_id(
        r#"SELECT * FROM "MediaSegments" WHERE "ItemId" = "#,
        item_id,
    );
    qb.push(r#" ORDER BY "StartTicks""#);
    qb
}

/// The statement that counts the segments of an item.
pub fn segment_count_query(item_id: Guid) -> (r: SqlBuilder)
    ensures
        r@ == with_id(r#"SELECT COUNT(*) FROM "MediaSegments" WHERE "ItemId" = "#@, item_id),
{
    query_with_id(r#"SELECT COUNT(*) FROM "MediaSegments" WHERE "ItemId" = "#, item_id)
}

/// Whether an item has segments, of which `count` were counted.
pub fn has_segments(count: i64) -> (r: bool)
    ensures
        r == (count > 0),
{
    count > 0
}

// ---------------------------------------------------------------------------
// Reading
// ---------------------------------------------------------------------------
/// Whether a segment is wanted: no types, or an empty list of them, stand for
/// all.
pub open spec fn is_wanted(
    types: Option<Seq<MediaSegmentType>>,
    kind: MediaSegmentType,
) -> bool {
    match types {
        Some(types) => types.len() == 0 || types.contains(kind),
        None => true,
    }
}

/// The segments of the given types, in their order.
pub open spec fn wanted(
    rows: Seq<MediaSegmentDto>,
    types: Option<Seq<MediaSegmentType>>,
) -> Seq<MediaSegmentDto> {
    rows.filter(|s: MediaSegmentDto| is_wanted(types, s.segment_type))
}

/// The types that are asked for.
pub open spec fn asked(types: Option<&Vec<MediaSegmentType>>) -> Option<Seq<MediaSegmentType>> {
    match types {
        Some(v) => Some(v@),
        None => None,
    }
}

fn holds_type(types: &Vec<MediaSegmentType>, kind: MediaSegmentType) -> (r: bool)
    ensures
        r == types@.contains(kind),
{
    let mut i: usize = 0;
    while i < types.len()
        invariant
            i <= types.len(),
            forall|j: int| 0 <= j < i ==> #[trigger] types@[j] != kind,
        decreases types.len() - i,
    {
        if types[i] == kind {
            assert(types@[i as int] == kind);
            return true;
        }
        i += 1;
    }
    false
}

fn wants(types: Option<&Vec<MediaSegmentType>>, kind: MediaSegmentType) -> (r: bool)
    ensures
        r == is_wanted(asked(types), kind),
{
    match types {
        None => true,
        Some(v) => v.len() == 0 || holds_type(v, kind),
    }
}

/// The first row that could not be read, if there is one.
pub open spec fn first_fault(rows: Seq<Result<MediaSegmentDto, String>>) -> Option<Seq<char>>
    decreases rows.len(),
{
    if rows.len() == 0 {
        None
    } else {
        match rows[0] {
            Err(e) => Some(e@),
            Ok(_) => first_fault(rows.drop_first()),
        }
    }
}

/// The rows that could be read.
pub open spec fn read_rows(rows: Seq<Result<MediaSegmentDto, String>>) -> Seq<MediaSegmentDto> {
    rows.map_values(|r: Result<MediaSegmentDto, String>| r->Ok_0)
}

/// The segments of the given types. A row that could not be read is an error,
/// whatever types are asked for.
pub fn get_segments(
    rows: Vec<Result<MediaSegmentDto, String>>,
    types: Option<&Vec<MediaSegmentType>>,
) -> (r: Result<Vec<MediaSegmentDto>, ServiceError>)
    ensures
        match first_fault(rows@) {
            Some(m) => r matches Err(e) && e@ == ErrorView::Backend(m),
            None => r matches Ok(v) && v@ == wanted(read_rows(rows@), asked(types)),
        },
{
    let ghost all = rows@;
    let ghost keep = |s: MediaSegmentDto| is_wanted(asked(types), s.segment_type);
    let ghost read = read_rows(all);
    let mut rest: Vec<Result<MediaSegmentDto, String>> = rows;
    let mut out: Vec<MediaSegmentDto> = Vec::new();
    let ghost mut done: int = 0;
    proof {
        assert(all.skip(0) =~= all);
        assert(read.take(0) =~= Seq::<MediaSegmentDto>::empty());
        reveal(Seq::filter);
        assert(out@ =~= read.take(0).filter(keep));
    }
    while rest.len() > 0
        invariant
            0 <= done <= all.len(),
            all == rows@,
            rest@ == all.skip(done),
            read == read_rows(all),
            keep == (|s: MediaSegmentDto| is_wanted(asked(types), s.segment_type)),
            first_fault(all) == first_fault(rest@),
            out@ == read.take(done).filter(keep),
        decreases rest.len(),
    {
        let ghost before = rest@;
        let row: Result<MediaSegmentDto, String> = rest.remove(0);
        assert(before.drop_first() =~= rest@);
        assert(before[0] == all[done]);
        match row {
            Err(m) => {
                return Err(ServiceError::Backend(m));
            },
            Ok(s) => {
                proof {
                    reveal(Seq::filter);
                    assert(read[done] == s);
                    assert(read.take(done + 1).drop_last() =~= read.take(done));
                    assert(read.take(done + 1).last() == s);
                    assert(rest@ =~= all.skip(done + 1));
                    done = done + 1;
                }
                if wants(types, s.segment_type) {
                    out.push(s);
                }
            },
        }
    }
    assert(read.take(read.len() as int) =~= read);
    assert(done == all.len());
    Ok(out)
}

} // verus!
