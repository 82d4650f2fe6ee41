//! From a library query's filter to the SQL statement that answers it.
//!
//! Every filter field that is set contributes one `AND` predicate over the
//! `BaseItems` table (aliased `bi`); an order and a page follow. Identifiers are
//! bound as rows store them, upper case and hyphenated.
use vstd::prelude::*;

use crate::guid::{db_text, guid_to_db, Guid};
use crate::item_type_lookup::ItemTypeNames;
use crate::items_query::InternalItemsQuery;
use crate::model::{
    media_type_name, media_type_text, BaseItemKind, ItemSortBy, ItemValueType, MediaType, SortOrder,
};
use crate::number_text::{decimal, int_text};
use crate::sql::{
    filled, give, give_all, guid_binds, guid_values, int_binds, int_values, non_blank, say,
    say_either, say_filled, say_flag, say_in, say_int, say_real, say_time, text_binds, text_values,
    type_binds, type_values, BindValue, BindView, PieceView, Sql, SqlBuilder,
};
use crate::text::{
    blank, concat, concat3, is_blank, lowercase, texts, to_lowercase, trim_matches, trimmed_of,
};
use crate::text_util::{clean_value, get_clean_value};
use crate::time::{now, Timestamp};

verus! {

/// The placeholder row that every query leaves out.
pub const PLACEHOLDER_ID: &'static str = "00000000-0000-0000-0000-000000000001";

/// The predicate of an item without an owner: the column is empty, or holds the
/// nil identifier.
pub const NO_OWNER: &'static str =
    r#"(bi."OwnerId" IS NULL OR bi."OwnerId" = '00000000-0000-0000-0000-000000000000')"#;

/// What a query selects.
#[derive(Debug, Clone, Copy, PartialEq, Eq, Structural)]
pub enum QueryShape {
    /// Every column.
    FullRows,
    /// Only the id.
    IdsOnly,
    /// How many rows there are. No order and no page follow.
    Count,
    /// How many rows there are of each type. No order and no page follow.
    TypeCounts,
}

// ---------------------------------------------------------------------------
// The statement
// ---------------------------------------------------------------------------
/// The beginning of the statement.
pub open spec fn select_text(shape: QueryShape) -> Seq<char> {
    match shape {
        QueryShape::FullRows => r#"SELECT bi.* FROM "BaseItems" AS bi WHERE bi."Id" <> "#@,
        QueryShape::IdsOnly => r#"SELECT bi."Id" FROM "BaseItems" AS bi WHERE bi."Id" <> "#@,
        QueryShape::Count => r#"SELECT COUNT(*) FROM "BaseItems" AS bi WHERE bi."Id" <> "#@,
        QueryShape::TypeCounts => {
            r#"SELECT bi."Type", COUNT(*) FROM "BaseItems" AS bi WHERE bi."Id" <> "#@
        },
    }
}

/// The placeholder row's id, and every predicate of the filter.
pub open spec fn where_clause(
    f: InternalItemsQuery,
    names: ItemTypeNames,
    at: Timestamp,
) -> Sql {
    predicates(give(Seq::empty(), BindView::Text(PLACEHOLDER_ID@)), f, names, at)
}

/// What follows the predicates.
pub open spec fn tail_clause(f: InternalItemsQuery, shape: QueryShape) -> Sql {
    match shape {
        QueryShape::Count => Seq::empty(),
        QueryShape::TypeCounts => say(Seq::empty(), r#" GROUP BY bi."Type""#@),
        QueryShape::FullRows | QueryShape::IdsOnly => paging(order_by(Seq::empty(), f), f),
    }
}

/// The whole statement for a filter.
pub open spec fn item_query(
    f: InternalItemsQuery,
    shape: QueryShape,
    names: ItemTypeNames,
    at: Timestamp,
) -> Sql {
    say(Seq::empty(), select_text(shape)) + where_clause(f, names, at) + tail_clause(f, shape)
}

/// Whatever a query selects, it selects from the same rows: behind their first
/// pieces, the statements of two shapes begin with the same predicates.
pub proof fn law_shapes_share_their_predicates(
    f: InternalItemsQuery,
    one: QueryShape,
    other: QueryShape,
    names: ItemTypeNames,
    at: Timestamp,
)
    ensures
        item_query(f, one, names, at)[0] == PieceView::Sql(select_text(one)),
        item_query(f, one, names, at).skip(1) == where_clause(f, names, at) + tail_clause(f, one),
        item_query(f, other, names, at).skip(1) == where_clause(f, names, at) + tail_clause(
            f,
            other,
        ),
{
    assert(item_query(f, one, names, at).skip(1) =~= where_clause(f, names, at) + tail_clause(
        f,
        one,
    ));
    assert(item_query(f, other, names, at).skip(1) =~= where_clause(f, names, at) + tail_clause(
        f,
        other,
    ));
}

/// A filter of which no field is set leaves out the placeholder, alternate
/// versions and owned items that are no extras, and nothing else.
pub proof fn law_unrestricted_filter(
    f: InternalItemsQuery,
    names: ItemTypeNames,
    at: Timestamp,
)
    requires
        f.is_unrestricted(),
    ensures
        where_clause(f, names, at) == say(
            say(
                say(
                    give(Seq::empty(), BindView::Text(PLACEHOLDER_ID@)),
                    r#" AND bi."PrimaryVersionId" IS NULL AND ("#@,
                ),
                NO_OWNER@,
            ),
            r#" OR bi."ExtraType" IS NOT NULL)"#@,
        ),
{
    assert(texts(f.names@) =~= Seq::<Seq<char>>::empty());
    assert(texts(f.genres@) =~= Seq::<Seq<char>>::empty());
    assert(texts(f.tags@) =~= Seq::<Seq<char>>::empty());
    assert(texts(f.exclude_tags@) =~= Seq::<Seq<char>>::empty());
}

/// Every predicate of a filter, in order.
pub open spec fn predicates(
    acc: Sql,
    f: InternalItemsQuery,
    names: ItemTypeNames,
    at: Timestamp,
) -> Sql {
    let a = size_predicates(acc, f);
    let b = kind_predicates(a, f, names);
    let c = place_predicates(b, f);
    let d = number_predicates(c, f);
    let e = date_predicates(d, f, at);
    let g = say_filled(e, r#" AND bi."ExternalSeriesId" = "#@, f.external_series_id);
    let h = say_filled(g, r#" AND bi."ExternalId" = "#@, f.external_id);
    let i = name_predicates(h, f);
    let j = user_data_predicates(i, f);
    let k = item_value_predicates(j, f, all_tags(f), all_exclude_tags(f));
    let l = people_predicates(k, f);
    let m = rating_predicates(l, f);
    let n = owner_predicates(m, f);
    let o = provider_predicates(n, f);
    let p = state_predicates(o, f);
    let q = ancestor_predicates(p, f);
    let r = say_filled(
        q,
        r#" AND bi."SeriesPresentationUniqueKey" = "#@,
        f.series_presentation_unique_key,
    );
    let s = dead_predicates(r, f);
    season_predicate(s, f)
}

/// Width, height and the lock.
pub open spec fn size_predicates(acc: Sql, f: InternalItemsQuery) -> Sql {
    let a = if f.is_hd is Some || f.is_4k is Some {
        resolution_predicate(acc, f)
    } else {
        acc
    };
    let b = say_int(a, r#" AND bi."Width" >= "#@, f.min_width);
    let c = say_int(b, r#" AND bi."Height" >= "#@, f.min_height);
    let d = say_int(c, r#" AND bi."Width" <= "#@, f.max_width);
    let e = say_int(d, r#" AND bi."Height" <= "#@, f.max_height);
    say_flag(e, r#" AND bi."IsLocked" = "#@, f.is_locked)
}

/// The resolution classes asked for, one of which must hold. Where none is asked
/// for, nothing matches.
pub open spec fn resolution_predicate(acc: Sql, f: InternalItemsQuery) -> Sql {
    let standard = f.is_hd == Some(false);
    let high = f.is_hd == Some(true);
    let ultra = f.is_4k == Some(true);
    let a = say(acc, r#" AND (bi."Width" > 0 AND ("#@);
    let b = if standard {
        say(a, r#"bi."Width" < 1200"#@)
    } else if high {
        say(
            a,
            r#"(bi."Width" >= 1200 AND NOT (bi."Width" >= 3800 OR bi."Height" >= 2100))"#@,
        )
    } else {
        a
    };
    let c = if ultra {
        say(
            if standard || high {
                say(b, " OR "@)
            } else {
                b
            },
            r#"(bi."Width" >= 3800 OR bi."Height" >= 2100)"#@,
        )
    } else if !standard && !high {
        say(b, "0"@)
    } else {
        b
    };
    say(c, "))"@)
}

/// Whether the filter already targets movies, so that `is_movie` adds nothing.
pub open spec fn targets_movies(f: InternalItemsQuery) -> bool {
    f.include_item_types@.len() == 0 || f.include_item_types@.contains(BaseItemKind::Movie)
        || f.include_item_types@.contains(BaseItemKind::Trailer)
}

/// `%` on both sides.
pub open spec fn anywhere(s: Seq<char>) -> Seq<char> {
    "%"@ + s + "%"@
}

/// The pattern that a clean value is found by.
pub open spec fn clean_pattern(s: Seq<char>) -> Seq<char> {
    anywhere(trimmed_of(clean_value(s), '%'))
}

/// What the item is, and the search term.
pub open spec fn kind_predicates(acc: Sql, f: InternalItemsQuery, names: ItemTypeNames) -> Sql {
    let a = match f.is_movie {
        Some(movie) => if movie && targets_movies(f) {
            acc
        } else {
            give(say(acc, r#" AND bi."IsMovie" = "#@), BindView::Flag(movie))
        },
        None => acc,
    };
    let b = say_flag(a, r#" AND bi."IsSeries" = "#@, f.is_series);
    let c = match filled(f.search_term) {
        Some(term) => {
            let d = give(say(b, r#" AND (bi."CleanName" LIKE "#@), BindView::Text(clean_pattern(term)));
            let e = give(
                say(d, r#" OR (bi."OriginalTitle" IS NOT NULL AND bi."OriginalTitle" LIKE "#@),
                BindView::Text(anywhere(term)),
            );
            say(e, "))"@)
        },
        None => b,
    };
    let d = say_flag(c, r#" AND bi."IsFolder" = "#@, f.is_folder);
    type_filters(d, f, names)
}

/// The stored names of those kinds that have one.
pub open spec fn stored_names(kinds: Seq<BaseItemKind>, names: ItemTypeNames) -> Seq<Seq<char>>
    decreases kinds.len(),
{
    if kinds.len() == 0 {
        Seq::empty()
    } else {
        let head = stored_names(kinds.drop_last(), names);
        match names.name_of(kinds.last()) {
            Some(name) => head.push(name),
            None => head,
        }
    }
}

/// The kinds to look for or, where there are none, those to leave out.
pub open spec fn type_filters(acc: Sql, f: InternalItemsQuery, names: ItemTypeNames) -> Sql {
    if f.include_item_types@.len() == 0 {
        let excludes = stored_names(f.exclude_item_types@, names);
        if excludes.len() == 0 {
            acc
        } else {
            say_in(say(acc, " AND NOT "@), r#"bi."Type""#@, text_values(excludes))
        }
    } else {
        say_in(
            say(acc, " AND "@),
            r#"bi."Type""#@,
            text_values(stored_names(f.include_item_types@, names)),
        )
    }
}

/// Where the item stands: channel, parent, path, key.
pub open spec fn place_predicates(acc: Sql, f: InternalItemsQuery) -> Sql {
    let a = if f.channel_ids@.len() > 0 {
        say_in(
            say(acc, r#" AND bi."ChannelId" IS NOT NULL AND "#@),
            r#"bi."ChannelId""#@,
            guid_values(f.channel_ids@),
        )
    } else {
        acc
    };
    let b = parent_predicate(a, f);
    let c = say_filled(b, r#" AND bi."Path" = "#@, f.path);
    say_filled(c, r#" AND bi."PresentationUniqueKey" = "#@, f.presentation_unique_key)
}

/// The parent: any ancestor, the physical parent alone, or the physical parent
/// and the folders that link to the item.
pub open spec fn parent_predicate(acc: Sql, f: InternalItemsQuery) -> Sql {
    let id = BindView::Text(db_text(f.parent_id.value));
    if f.parent_id.value == 0 {
        acc
    } else if f.recursive {
        say(
            give(
                say(
                    acc,
                    r#" AND EXISTS (SELECT 1 FROM "AncestorIds" a WHERE a."ItemId" = bi."Id" AND a."ParentItemId" = "#@,
                ),
                id,
            ),
            ")"@,
        )
    } else if f.physical_children_only {
        give(say(acc, r#" AND bi."ParentId" = "#@), id)
    } else {
        let a = give(say(acc, r#" AND (bi."ParentId" = "#@), id);
        let b = give(
            say(
                a,
                r#" OR bi."Id" IN (SELECT "ChildId" FROM "HermitLinkedChildren" WHERE "ParentId" = "#@,
            ),
            id,
        );
        say(b, r#" AND "ChildType" = 0))"#@)
    }
}

/// Ratings and index numbers.
pub open spec fn number_predicates(acc: Sql, f: InternalItemsQuery) -> Sql {
    let a = say_real(acc, r#" AND bi."CommunityRating" >= "#@, f.min_community_rating);
    let b = say_real(a, r#" AND bi."CriticRating" >= "#@, f.min_critic_rating);
    let c = say_int(b, r#" AND bi."IndexNumber" >= "#@, f.min_index_number);
    let d = match f.min_parent_and_index_number {
        Some((parent, index)) => {
            let p = BindView::Int(parent as int);
            let x = give(say(c, r#" AND ((bi."ParentIndexNumber" = "#@), p);
            let y = give(say(x, r#" AND bi."IndexNumber" >= "#@), BindView::Int(index as int));
            let z = give(say(y, r#") OR bi."ParentIndexNumber" > "#@), p);
            say(z, ")"@)
        },
        None => c,
    };
    let e = say_int(d, r#" AND bi."IndexNumber" = "#@, f.index_number);
    let g = say_int(e, r#" AND bi."ParentIndexNumber" = "#@, f.parent_index_number);
    match f.parent_index_number_not_equals {
        Some(n) => say(
            give(say(g, r#" AND (bi."ParentIndexNumber" <> "#@), BindView::Int(n as int)),
            r#" OR bi."ParentIndexNumber" IS NULL)"#@,
        ),
        None => g,
    }
}

/// Dates. `has_aired` stands for a bound on the end date at the present time.
pub open spec fn date_predicates(acc: Sql, f: InternalItemsQuery, at: Timestamp) -> Sql {
    let min_end = if f.has_aired == Some(false) {
        Some(at)
    } else {
        f.min_end_date
    };
    let max_end = if f.has_aired == Some(true) {
        Some(at)
    } else {
        f.max_end_date
    };
    let last_saved = if f.min_date_last_saved is Some {
        f.min_date_last_saved
    } else {
        f.min_date_last_saved_for_user
    };
    let now = BindView::StoredTime(at);
    let a = say_time(acc, r#" AND bi."EndDate" >= "#@, min_end);
    let b = say_time(a, r#" AND bi."EndDate" <= "#@, max_end);
    let c = say_time(b, r#" AND bi."StartDate" >= "#@, f.min_start_date);
    let d = say_time(c, r#" AND bi."StartDate" <= "#@, f.max_start_date);
    let e = say_time(d, r#" AND bi."PremiereDate" >= "#@, f.min_premiere_date);
    let g = say_time(e, r#" AND bi."PremiereDate" <= "#@, f.max_premiere_date);
    let h = say_time(g, r#" AND bi."DateCreated" >= "#@, f.min_date_created);
    let i = match last_saved {
        Some(t) => say(
            give(
                say(h, r#" AND (bi."DateLastSaved" IS NOT NULL AND bi."DateLastSaved" >= "#@),
                BindView::StoredTime(t),
            ),
            ")"@,
        ),
        None => h,
    };
    let j = match f.is_airing {
        Some(true) => give(
            say(give(say(i, r#" AND bi."StartDate" <= "#@), now), r#" AND bi."EndDate" >= "#@),
            now,
        ),
        Some(false) => give(
            say(give(say(i, r#" AND bi."StartDate" > "#@), now), r#" AND bi."EndDate" < "#@),
            now,
        ),
        None => i,
    };
    match f.is_unaired {
        Some(true) => give(say(j, r#" AND bi."PremiereDate" >= "#@), now),
        Some(false) => give(say(j, r#" AND bi."PremiereDate" < "#@), now),
        None => j,
    }
}

/// The clean forms of those names that are not blank.
pub open spec fn clean_names(names: Seq<Seq<char>>) -> Seq<Seq<char>>
    decreases names.len(),
{
    if names.len() == 0 {
        Seq::empty()
    } else {
        let head = clean_names(names.drop_last());
        if is_blank(names.last()) {
            head
        } else {
            head.push(clean_value(names.last()))
        }
    }
}

/// Exact names, names that hold a text, and ranges of sort names.
pub open spec fn name_predicates(acc: Sql, f: InternalItemsQuery) -> Sql {
    let a = match filled(f.name) {
        Some(name) => if f.use_raw_name == Some(true) {
            give(say(acc, r#" AND lower(bi."Name") = "#@), BindView::Text(lowercase(name)))
        } else {
            give(say(acc, r#" AND bi."CleanName" = "#@), BindView::Text(clean_value(name)))
        },
        None => acc,
    };
    let cleans = clean_names(texts(f.names@));
    let b = if cleans.len() > 0 {
        say(give_all(say(a, r#" AND bi."CleanName" IN ("#@), text_values(cleans)), ")"@)
    } else {
        a
    };
    let c = match filled(f.name_contains) {
        Some(part) => {
            let pattern = BindView::Text(clean_pattern(part));
            let d = give(say(b, r#" AND (bi."CleanName" LIKE "#@), pattern);
            let e = give(say(d, r#" OR bi."OriginalTitle" LIKE "#@), pattern);
            say(e, ")"@)
        },
        None => b,
    };
    let d = match filled(f.name_starts_with) {
        Some(prefix) => give(
            say(c, r#" AND lower(bi."SortName") LIKE "#@),
            BindView::Text(lowercase(prefix) + "%"@),
        ),
        None => c,
    };
    let e = match filled(f.name_starts_with_or_greater) {
        Some(bound) => give(
            say(d, r#" AND lower(bi."SortName") >= "#@),
            BindView::Text(lowercase(bound)),
        ),
        None => d,
    };
    match filled(f.name_less_than) {
        Some(bound) => give(
            say(e, r#" AND lower(bi."SortName") < "#@),
            BindView::Text(lowercase(bound)),
        ),
        None => e,
    }
}

/// Whether the user's data for the item meet a condition.
pub open spec fn user_data_exists(
    acc: Sql,
    user: Guid,
    condition: Seq<char>,
    want: Option<bool>,
) -> Sql {
    match want {
        Some(w) => {
            let a = say(
                acc,
                if w {
                    " AND EXISTS "@
                } else {
                    " AND NOT EXISTS "@
                },
            );
            let b = say(
                a,
                r#"(SELECT 1 FROM "UserData" ud WHERE ud."ItemId" = bi."Id" AND ud."UserId" = "#@,
            );
            say(give(b, BindView::Text(db_text(user.value))), condition)
        },
        None => acc,
    }
}

/// What the user's data say of the item. Without a user there is nothing to ask.
pub open spec fn user_data_predicates(acc: Sql, f: InternalItemsQuery) -> Sql {
    match f.user_id {
        Some(user) => {
            let a = user_data_exists(acc, user, r#" AND ud."IsFavorite" = 1)"#@, f.is_favorite);
            let b = user_data_exists(
                a,
                user,
                r#" AND ud."IsFavorite" = 1)"#@,
                f.is_favorite_or_liked,
            );
            let c = user_data_exists(b, user, r#" AND ud."Rating" >= 7)"#@, f.is_liked);
            let d = user_data_exists(c, user, r#" AND ud."Played" = 1)"#@, f.is_played);
            user_data_exists(d, user, r#" AND ud."PlaybackPositionTicks" > 0)"#@, f.is_resumable)
        },
        None => acc,
    }
}

/// The tags to look for: those of the filter, and the names of the flags that
/// ask for one.
pub open spec fn all_tags(f: InternalItemsQuery) -> Seq<Seq<char>> {
    let a = if f.is_sports == Some(true) {
        texts(f.tags@).push("Sports"@)
    } else {
        texts(f.tags@)
    };
    let b = if f.is_news == Some(true) {
        a.push("News"@)
    } else {
        a
    };
    if f.is_kids == Some(true) {
        b.push("Kids"@)
    } else {
        b
    }
}

/// The tags to leave out: those of the filter, and the names of the flags that
/// ask for it.
pub open spec fn all_exclude_tags(f: InternalItemsQuery) -> Seq<Seq<char>> {
    let a = if f.is_sports == Some(false) {
        texts(f.exclude_tags@).push("Sports"@)
    } else {
        texts(f.exclude_tags@)
    };
    let b = if f.is_news == Some(false) {
        a.push("News"@)
    } else {
        a
    };
    if f.is_kids == Some(false) {
        b.push("Kids"@)
    } else {
        b
    }
}

/// The clean form of every value.
pub open spec fn clean_values(v: Seq<Seq<char>>) -> Seq<Seq<char>> {
    Seq::new(v.len(), |i: int| clean_value(v[i]))
}

/// The beginning of a predicate over the item's values of the given types.
pub open spec fn item_values_of(acc: Sql, types: Seq<ItemValueType>, want: bool) -> Sql {
    let a = say(
        acc,
        if want {
            " AND EXISTS "@
        } else {
            " AND NOT EXISTS "@
        },
    );
    let b = say(
        a,
        r#"(SELECT 1 FROM "ItemValuesMap" ivm JOIN "ItemValues" iv ON iv."ItemValueId" = ivm."ItemValueId" WHERE ivm."ItemId" = bi."Id" AND "#@,
    );
    say_in(b, r#"iv."Type""#@, type_values(types))
}

/// Whether the item has one of the given values. No values, no predicate.
pub open spec fn item_value_exists(
    acc: Sql,
    types: Seq<ItemValueType>,
    values: Seq<Seq<char>>,
    want: bool,
) -> Sql {
    if values.len() == 0 {
        acc
    } else {
        let a = say(item_values_of(acc, types, want), " AND "@);
        say(say_in(a, r#"iv."CleanValue""#@, text_values(clean_values(values))), ")"@)
    }
}

/// Whether the item has the name of one of the given items as a value. No items,
/// no predicate.
pub open spec fn referenced_item(
    acc: Sql,
    types: Seq<ItemValueType>,
    ids: Seq<Guid>,
    exclude: bool,
) -> Sql {
    if ids.len() == 0 {
        acc
    } else {
        let a = say(
            item_values_of(acc, types, !exclude),
            r#" AND iv."CleanValue" IN (SELECT ref."CleanName" FROM "BaseItems" ref WHERE "#@,
        );
        say(say_in(a, r#"ref."Id""#@, guid_values(ids)), "))"@)
    }
}

/// Genres, studios, artists, albums and tags.
pub open spec fn item_value_predicates(
    acc: Sql,
    f: InternalItemsQuery,
    tags: Seq<Seq<char>>,
    exclude_tags: Seq<Seq<char>>,
) -> Sql {
    let genre = seq![ItemValueType::Genre];
    let artists = seq![ItemValueType::Artist, ItemValueType::AlbumArtist];
    let a = item_value_exists(acc, genre, texts(f.genres@), true);
    let b = referenced_item(a, genre, f.genre_ids@, false);
    let c = referenced_item(b, seq![ItemValueType::Studios], f.studio_ids@, false);
    let d = referenced_item(c, artists, f.artist_ids@, false);
    let e = referenced_item(d, seq![ItemValueType::AlbumArtist], f.album_artist_ids@, false);
    let g = referenced_item(e, artists, f.exclude_artist_ids@, true);
    let h = if f.album_ids@.len() > 0 {
        say_in(
            say(g, r#" AND bi."ParentId" IS NOT NULL AND "#@),
            r#"bi."ParentId""#@,
            guid_values(f.album_ids@),
        )
    } else {
        g
    };
    let i = item_value_exists(h, seq![ItemValueType::Tags], tags, true);
    item_value_exists(i, seq![ItemValueType::Tags], exclude_tags, false)
}

/// The people credited on the item.
pub open spec fn people_predicates(acc: Sql, f: InternalItemsQuery) -> Sql {
    let a = match filled(f.person) {
        Some(name) => say(
            give(
                say(
                    acc,
                    r#" AND EXISTS (SELECT 1 FROM "PeopleBaseItemMap" pm JOIN "Peoples" pp ON pp."Id" = pm."PeopleId" WHERE pm."ItemId" = bi."Id" AND pp."Name" = "#@,
                ),
                BindView::Text(name),
            ),
            ")"@,
        ),
        None => acc,
    };
    if f.person_ids@.len() > 0 {
        say(
            say_in(
                say(
                    a,
                    r#" AND EXISTS (SELECT 1 FROM "PeopleBaseItemMap" pm WHERE pm."ItemId" = bi."Id" AND "#@,
                ),
                r#"pm."PeopleId""#@,
                guid_values(f.person_ids@),
            ),
            ")"@,
        )
    } else {
        a
    }
}

/// The overview and the official rating.
pub open spec fn rating_predicates(acc: Sql, f: InternalItemsQuery) -> Sql {
    let a = say_either(
        acc,
        f.has_overview,
        r#" AND (bi."Overview" IS NOT NULL AND bi."Overview" <> '')"#@,
        r#" AND (bi."Overview" IS NULL OR bi."Overview" = '')"#@,
    );
    let b = say_either(
        a,
        f.has_official_rating,
        r#" AND (bi."OfficialRating" IS NOT NULL AND bi."OfficialRating" <> '')"#@,
        r#" AND (bi."OfficialRating" IS NULL OR bi."OfficialRating" = '')"#@,
    );
    if f.official_ratings@.len() > 0 {
        say_in(
            say(b, " AND "@),
            r#"bi."OfficialRating""#@,
            text_values(texts(f.official_ratings@)),
        )
    } else {
        b
    }
}

/// Ownership and extras. A query that says nothing of either leaves out
/// alternate versions and owned items that are no extras.
pub open spec fn owner_predicates(acc: Sql, f: InternalItemsQuery) -> Sql {
    let a = match f.has_owner_id {
        Some(true) => say(say(acc, " AND NOT "@), NO_OWNER@),
        Some(false) => say(say(acc, " AND "@), NO_OWNER@),
        None => if f.owner_ids@.len() == 0 && f.extra_types@.len() == 0 && !f.include_owned_items {
            let lead = if f.is_resumable == Some(true) {
                " AND ("@
            } else {
                r#" AND bi."PrimaryVersionId" IS NULL AND ("#@
            };
            say(say(say(acc, lead), NO_OWNER@), r#" OR bi."ExtraType" IS NOT NULL)"#@)
        } else {
            acc
        },
    };
    let b = if f.owner_ids@.len() > 0 {
        say_in(
            say(a, r#" AND bi."OwnerId" IS NOT NULL AND "#@),
            r#"bi."OwnerId""#@,
            guid_values(f.owner_ids@),
        )
    } else {
        a
    };
    if f.extra_types@.len() > 0 {
        say_in(
            say(b, r#" AND bi."ExtraType" IS NOT NULL AND "#@),
            r#"bi."ExtraType""#@,
            int_values(f.extra_types@),
        )
    } else {
        b
    }
}

/// Whether the item has an id of the given provider.
pub open spec fn has_provider(acc: Sql, flag: Option<bool>, provider: Seq<char>) -> Sql {
    match flag {
        Some(has) => {
            let a = say(
                acc,
                if has {
                    " AND EXISTS "@
                } else {
                    " AND NOT EXISTS "@
                },
            );
            let b = say(
                a,
                r#"(SELECT 1 FROM "BaseItemProviders" p WHERE p."ItemId" = bi."Id" AND lower(p."ProviderId") = "#@,
            );
            say(give(b, BindView::Text(provider)), ")"@)
        },
        None => acc,
    }
}

/// One alternative for each provider and value.
pub open spec fn provider_pairs(acc: Sql, pairs: Seq<(String, String)>) -> Sql
    decreases pairs.len(),
{
    if pairs.len() == 0 {
        acc
    } else {
        let head = provider_pairs(acc, pairs.drop_last());
        let a = if pairs.len() > 1 {
            say(head, " OR "@)
        } else {
            head
        };
        let b = give(
            say(a, r#"(lower(p."ProviderId") = "#@),
            BindView::Text(lowercase(pairs.last().0@)),
        );
        let c = give(
            say(b, r#" AND lower(p."ProviderValue") = "#@),
            BindView::Text(lowercase(pairs.last().1@)),
        );
        say(c, ")"@)
    }
}

/// The ids that metadata providers give the item.
pub open spec fn provider_predicates(acc: Sql, f: InternalItemsQuery) -> Sql {
    let a = has_provider(acc, f.has_imdb_id, "imdb"@);
    let b = has_provider(a, f.has_tmdb_id, "tmdb"@);
    let c = has_provider(b, f.has_tvdb_id, "tvdb"@);
    if f.any_provider_id_equals@.len() > 0 {
        let d = say(
            c,
            r#" AND EXISTS (SELECT 1 FROM "BaseItemProviders" p WHERE p."ItemId" = bi."Id" AND ("#@,
        );
        say(provider_pairs(d, f.any_provider_id_equals@), "))"@)
    } else {
        c
    }
}

/// The stored names of media types.
pub open spec fn media_names(v: Seq<MediaType>) -> Seq<Seq<char>> {
    Seq::new(v.len(), |i: int| media_type_text(v[i]))
}

/// Years, virtual items, specials, media types and ids.
pub open spec fn state_predicates(acc: Sql, f: InternalItemsQuery) -> Sql {
    let a = if f.years@.len() > 0 {
        say_in(say(acc, " AND "@), r#"bi."ProductionYear""#@, int_values(f.years@))
    } else {
        acc
    };
    let b = say_flag(
        a,
        r#" AND bi."IsVirtualItem" = "#@,
        if f.is_virtual_item is Some {
            f.is_virtual_item
        } else {
            f.is_missing
        },
    );
    let c = say_either(
        b,
        f.is_special_season,
        r#" AND bi."IndexNumber" = 0"#@,
        r#" AND bi."IndexNumber" <> 0"#@,
    );
    let d = if f.media_types@.len() > 0 {
        say_in(
            say(c, " AND "@),
            r#"bi."MediaType""#@,
            text_values(media_names(f.media_types@)),
        )
    } else {
        c
    };
    let e = if f.item_ids@.len() > 0 {
        say_in(say(d, " AND "@), r#"bi."Id""#@, guid_values(f.item_ids@))
    } else {
        d
    };
    if f.exclude_item_ids@.len() > 0 {
        say_in(say(e, " AND NOT "@), r#"bi."Id""#@, guid_values(f.exclude_item_ids@))
    } else {
        e
    }
}

/// The library and the folders above the item.
pub open spec fn ancestor_predicates(acc: Sql, f: InternalItemsQuery) -> Sql {
    let a = if f.top_parent_ids@.len() > 0 {
        say_in(
            say(acc, r#" AND bi."TopParentId" IS NOT NULL AND "#@),
            r#"bi."TopParentId""#@,
            guid_values(f.top_parent_ids@),
        )
    } else {
        acc
    };
    if f.ancestor_ids@.len() > 0 {
        say(
            say_in(
                say(
                    a,
                    r#" AND EXISTS (SELECT 1 FROM "AncestorIds" a WHERE a."ItemId" = bi."Id" AND "#@,
                ),
                r#"a."ParentItemId""#@,
                guid_values(f.ancestor_ids@),
            ),
            ")"@,
        )
    } else {
        a
    }
}

/// Whether no item value of the given types has this item's name any more.
pub open spec fn dead_item_value(acc: Sql, types: Seq<ItemValueType>, flag: Option<bool>) -> Sql {
    if flag == Some(true) {
        say(
            say_in(
                say(
                    acc,
                    r#" AND NOT EXISTS (SELECT 1 FROM "ItemValues" iv WHERE iv."Value" = bi."Name" AND "#@,
                ),
                r#"iv."Type""#@,
                type_values(types),
            ),
            ")"@,
        )
    } else {
        acc
    }
}

/// Items that nothing refers to any more. Only a `true` narrows.
pub open spec fn dead_predicates(acc: Sql, f: InternalItemsQuery) -> Sql {
    let a = if f.is_dead_person == Some(true) {
        say(
            acc,
            r#" AND NOT EXISTS (SELECT 1 FROM "Peoples" p WHERE p."Name" = bi."Name")"#@,
        )
    } else {
        acc
    };
    let b = dead_item_value(a, seq![ItemValueType::Genre], f.is_dead_genre);
    let c = dead_item_value(b, seq![ItemValueType::Studios], f.is_dead_studio);
    dead_item_value(
        c,
        seq![ItemValueType::Artist, ItemValueType::AlbumArtist],
        f.is_dead_artist,
    )
}

/// The season during which an episode aired: its own, or the one that its stored
/// data place it after or before.
pub open spec fn season_predicate(acc: Sql, f: InternalItemsQuery) -> Sql {
    match f.aired_during_season {
        Some(season) => {
            let n = BindView::Int(season as int);
            if season < 1 {
                give(say(acc, r#" AND bi."ParentIndexNumber" = "#@), n)
            } else {
                let a = give(say(acc, r#" AND (bi."ParentIndexNumber" = "#@), n);
                let b = give(
                    say(a, r#" OR (bi."Data" IS NOT NULL AND (bi."Data" LIKE "#@),
                    BindView::Text(
                        r#"%"AirsAfterSeasonNumber":"#@ + decimal(season as int) + "%"@,
                    ),
                );
                let c = give(
                    say(b, r#" OR bi."Data" LIKE "#@),
                    BindView::Text(
                        r#"%"AirsBeforeSeasonNumber":"#@ + decimal(season as int) + "%"@,
                    ),
                );
                say(c, ")))"@)
            }
        },
        None => acc,
    }
}

/// The column that a sort key stands for. Keys that no column of the item holds
/// stand for the sort name.
pub open spec fn order_text(by: ItemSortBy) -> Seq<char> {
    match by {
        ItemSortBy::Random => "RANDOM()"@,
        ItemSortBy::Runtime => r#"bi."RunTimeTicks""#@,
        ItemSortBy::DateCreated => r#"bi."DateCreated""#@,
        ItemSortBy::DateLastContentAdded => r#"bi."DateLastMediaAdded""#@,
        ItemSortBy::PremiereDate => r#"bi."PremiereDate""#@,
        ItemSortBy::StartDate => r#"bi."StartDate""#@,
        ItemSortBy::Album => r#"bi."Album""#@,
        ItemSortBy::CommunityRating => r#"bi."CommunityRating""#@,
        ItemSortBy::CriticRating => r#"bi."CriticRating""#@,
        ItemSortBy::ProductionYear => r#"bi."ProductionYear""#@,
        ItemSortBy::VideoBitRate => r#"bi."TotalBitrate""#@,
        ItemSortBy::ParentIndexNumber => r#"bi."ParentIndexNumber""#@,
        ItemSortBy::IndexNumber => r#"bi."IndexNumber""#@,
        ItemSortBy::AiredEpisodeOrder => {
            r#"(CASE WHEN bi."ParentIndexNumber" = 0 THEN 1000000 ELSE COALESCE(bi."ParentIndexNumber", 0) END) * 100000 + COALESCE(bi."IndexNumber", 0)"#@
        },
        ItemSortBy::IsFolder => r#"bi."IsFolder""#@,
        ItemSortBy::OfficialRating => r#"bi."InheritedParentalRatingValue""#@,
        ItemSortBy::SeriesSortName => r#"bi."SeriesName""#@,
        _ => r#"bi."SortName""#@,
    }
}

/// The sort keys that count: all but `Default`.
pub open spec fn sort_keys(keys: Seq<(ItemSortBy, SortOrder)>) -> Seq<(ItemSortBy, SortOrder)>
    decreases keys.len(),
{
    if keys.len() == 0 {
        Seq::empty()
    } else if keys.last().0 == ItemSortBy::Default {
        sort_keys(keys.drop_last())
    } else {
        sort_keys(keys.drop_last()).push(keys.last())
    }
}

/// The columns and directions, with commas between them.
pub open spec fn order_terms(acc: Sql, keys: Seq<(ItemSortBy, SortOrder)>) -> Sql
    decreases keys.len(),
{
    if keys.len() == 0 {
        acc
    } else {
        let head = order_terms(acc, keys.drop_last());
        let a = if keys.len() > 1 {
            say(head, ", "@)
        } else {
            head
        };
        say(
            say(a, order_text(keys.last().0)),
            match keys.last().1 {
                SortOrder::Ascending => " ASC"@,
                SortOrder::Descending => " DESC"@,
            },
        )
    }
}

/// Whether a key sorts by name.
pub open spec fn sorts_by_name(keys: Seq<(ItemSortBy, SortOrder)>) -> bool {
    exists|i: int|
        0 <= i < keys.len() && ((#[trigger] keys[i]).0 == ItemSortBy::SortName || keys[i].0
            == ItemSortBy::Name)
}

/// The order of the result, with the sort name to break ties.
pub open spec fn order_by(acc: Sql, f: InternalItemsQuery) -> Sql {
    let keys = sort_keys(f.order_by@);
    let a = say(acc, " ORDER BY "@);
    if keys.len() == 0 {
        say(a, r#"bi."SortName""#@)
    } else if sorts_by_name(keys) {
        order_terms(a, keys)
    } else {
        say(order_terms(a, keys), r#", bi."SortName" ASC"#@)
    }
}

/// The page of the result.
pub open spec fn paging(acc: Sql, f: InternalItemsQuery) -> Sql {
    let skip = match f.start_index {
        Some(n) => n,
        None => 0,
    };
    let offset = BindView::Int(skip as int);
    match f.limit {
        Some(limit) => {
            let a = give(say(acc, " LIMIT "@), BindView::Int(limit as int));
            if skip > 0 {
                give(say(a, " OFFSET "@), offset)
            } else {
                a
            }
        },
        None => if skip > 0 {
            give(say(acc, " LIMIT -1 OFFSET "@), offset)
        } else {
            acc
        },
    }
}

// ---------------------------------------------------------------------------
// Building it
// ---------------------------------------------------------------------------
/// The statement that answers `filter` at the present time.
///
/// The clock is read once; apart from that the statement is fixed by the filter
/// (see `build_query_at`).
pub fn build_query(
    filter: &InternalItemsQuery,
    shape: QueryShape,
    names: &ItemTypeNames,
) -> (r: SqlBuilder)
    ensures
        exists|at: Timestamp|
            at.in_calendar() && at.nanos >= 0 && r@ == #[trigger] item_query(
                *filter,
                shape,
                *names,
                at,
            ),
{
    build_query_at(filter, shape, names, now())
}

/// The statement that answers `filter` at the time `at`. An order and a page
/// follow for rows and ids only.
pub fn build_query_at(
    filter: &InternalItemsQuery,
    shape: QueryShape,
    names: &ItemTypeNames,
    at: Timestamp,
) -> (r: SqlBuilder)
    ensures
        r@ == item_query(*filter, shape, *names, at),
{
    let mut body: SqlBuilder = SqlBuilder::empty();
    body.push_text(PLACEHOLDER_ID);
    append_predicates(&mut body, filter, names, at);
    let mut tail: SqlBuilder = SqlBuilder::empty();
    match shape {
        QueryShape::Count => {},
        QueryShape::TypeCounts => {
            tail.push(r#" GROUP BY bi."Type""#);
        },
        QueryShape::FullRows | QueryShape::IdsOnly => {
            append_order_by(&mut tail, filter);
            append_paging(&mut tail, filter);
        },
    }
    let mut qb: SqlBuilder = SqlBuilder::empty();
    qb.push(
        match shape {
            QueryShape::FullRows => r#"SELECT bi.* FROM "BaseItems" AS bi WHERE bi."Id" <> "#,
            QueryShape::IdsOnly => r#"SELECT bi."Id" FROM "BaseItems" AS bi WHERE bi."Id" <> "#,
            QueryShape::Count => r#"SELECT COUNT(*) FROM "BaseItems" AS bi WHERE bi."Id" <> "#,
            QueryShape::TypeCounts => {
                r#"SELECT bi."Type", COUNT(*) FROM "BaseItems" AS bi WHERE bi."Id" <> "#
            },
        },
    );
    qb.append(body);
    qb.append(tail);
    qb
}

/// Appends every predicate of `filter`.
pub fn append_predicates(
    qb: &mut SqlBuilder,
    filter: &InternalItemsQuery,
    names: &ItemTypeNames,
    at: Timestamp,
)
    ensures
        final(qb)@ == predicates(old(qb)@, *filter, *names, at),
{
    let tags: Vec<String> = collect_tags(filter, true);
    let exclude_tags: Vec<String> = collect_tags(filter, false);
    append_size_predicates(qb, filter);
    append_kind_predicates(qb, filter, names);
    append_place_predicates(qb, filter);
    append_number_predicates(qb, filter);
    append_date_predicates(qb, filter, at);
    qb.push_filled(r#" AND bi."ExternalSeriesId" = "#, &filter.external_series_id);
    qb.push_filled(r#" AND bi."ExternalId" = "#, &filter.external_id);
    append_name_predicates(qb, filter);
    append_user_data_predicates(qb, filter);
    append_item_value_predicates(qb, filter, tags.as_slice(), exclude_tags.as_slice());
    append_people_predicates(qb, filter);
    append_rating_predicates(qb, filter);
    append_owner_predicates(qb, filter);
    append_provider_predicates(qb, filter);
    append_state_predicates(qb, filter);
    append_ancestor_predicates(qb, filter);
    qb.push_filled(
        r#" AND bi."SeriesPresentationUniqueKey" = "#,
        &filter.series_presentation_unique_key,
    );
    append_dead_predicates(qb, filter);
    append_season_predicate(qb, filter);
}

fn copy_texts(v: &[String]) -> (r: Vec<String>)
    ensures
        texts(r@) == texts(v@),
{
    let mut out: Vec<String> = Vec::new();
    let mut i: usize = 0;
    while i < v.len()
        invariant
            i <= v.len(),
            out@.len() == i,
            forall|j: int| 0 <= j < i ==> #[trigger] out@[j]@ == v@[j]@,
        decreases v.len() - i,
    {
        out.push(v[i].clone());
        i += 1;
    }
    assert(texts(out@) =~= texts(v@));
    out
}

fn push_tag(tags: &mut Vec<String>, flag: Option<bool>, want: bool, name: &str)
    ensures
        texts(final(tags)@) == if flag == Some(want) {
            texts(old(tags)@).push(name@)
        } else {
            texts(old(tags)@)
        },
{
    let wanted: bool = match flag {
        Some(b) => b == want,
        None => false,
    };
    if wanted {
        tags.push(name.to_owned());
        assert(texts(tags@) =~= texts(old(tags)@).push(name@));
    }
}

/// The tags to look for, or those to leave out.
fn collect_tags(filter: &InternalItemsQuery, want: bool) -> (r: Vec<String>)
    ensures
        texts(r@) == if want {
            all_tags(*filter)
        } else {
            all_exclude_tags(*filter)
        },
{
    let mut tags: Vec<String> = if want {
        copy_texts(filter.tags.as_slice())
    } else {
        copy_texts(filter.exclude_tags.as_slice())
    };
    push_tag(&mut tags, filter.is_sports, want, "Sports");
    push_tag(&mut tags, filter.is_news, want, "News");
    push_tag(&mut tags, filter.is_kids, want, "Kids");
    tags
}

fn append_size_predicates(qb: &mut SqlBuilder, filter: &InternalItemsQuery)
    ensures
        final(qb)@ == size_predicates(old(qb)@, *filter),
{
    if filter.is_hd.is_some() || filter.is_4k.is_some() {
        append_resolution_predicate(qb, filter);
    }
    qb.push_int(r#" AND bi."Width" >= "#, filter.min_width);
    qb.push_int(r#" AND bi."Height" >= "#, filter.min_height);
    qb.push_int(r#" AND bi."Width" <= "#, filter.max_width);
    qb.push_int(r#" AND bi."Height" <= "#, filter.max_height);
    qb.push_flag(r#" AND bi."IsLocked" = "#, filter.is_locked);
}

fn is_true(flag: Option<bool>) -> (r: bool)
    ensures
        r == (flag == Some(true)),
{
    match flag {
        Some(b) => b,
        None => false,
    }
}

fn is_false(flag: Option<bool>) -> (r: bool)
    ensures
        r == (flag == Some(false)),
{
    match flag {
        Some(b) => !b,
        None => false,
    }
}

/// Appends the resolution classes asked for.
fn append_resolution_predicate(qb: &mut SqlBuilder, filter: &InternalItemsQuery)
    ensures
        final(qb)@ == resolution_predicate(old(qb)@, *filter),
{
    let standard: bool = is_false(filter.is_hd);
    let high: bool = is_true(filter.is_hd);
    let ultra: bool = is_true(filter.is_4k);
    qb.push(r#" AND (bi."Width" > 0 AND ("#);
    if standard {
        qb.push(r#"bi."Width" < 1200"#);
    } else if high {
        qb.push(r#"(bi."Width" >= 1200 AND NOT (bi."Width" >= 3800 OR bi."Height" >= 2100))"#);
    }
    if ultra {
        if standard || high {
            qb.push(" OR ");
        }
        qb.push(r#"(bi."Width" >= 3800 OR bi."Height" >= 2100)"#);
    } else if !standard && !high {
        qb.push("0");
    }
    qb.push("))");
}

fn has_kind(kinds: &[BaseItemKind], kind: BaseItemKind) -> (r: bool)
    ensures
        r == kinds@.contains(kind),
{
    let mut i: usize = 0;
    while i < kinds.len()
        invariant
            i <= kinds.len(),
            forall|j: int| 0 <= j < i ==> kinds@[j] != kind,
        decreases kinds.len() - i,
    {
        if kinds[i] == kind {
            assert(kinds@[i as int] == kind);
            return true;
        }
        i += 1;
    }
    false
}

fn pattern_anywhere(s: &str) -> (r: String)
    ensures
        r@ == anywhere(s@),
{
    concat3("%", s, "%")
}

fn pattern_of_clean(s: &str) -> (r: String)
    ensures
        r@ == clean_pattern(s@),
{
    pattern_anywhere(trim_matches(get_clean_value(s).as_str(), '%').as_str())
}

fn append_kind_predicates(
    qb: &mut SqlBuilder,
    filter: &InternalItemsQuery,
    names: &ItemTypeNames,
)
    ensures
        final(qb)@ == kind_predicates(old(qb)@, *filter, *names),
{
    if let Some(movie) = filter.is_movie {
        let targets: bool = filter.include_item_types.len() == 0 || has_kind(
            filter.include_item_types.as_slice(),
            BaseItemKind::Movie,
        ) || has_kind(filter.include_item_types.as_slice(), BaseItemKind::Trailer);
        if !(movie && targets) {
            qb.push(r#" AND bi."IsMovie" = "#);
            qb.push_bind(BindValue::Flag(movie));
        }
    }
    qb.push_flag(r#" AND bi."IsSeries" = "#, filter.is_series);
    if let Some(term) = non_blank(&filter.search_term) {
        qb.push(r#" AND (bi."CleanName" LIKE "#);
        qb.push_text(pattern_of_clean(term).as_str());
        qb.push(r#" OR (bi."OriginalTitle" IS NOT NULL AND bi."OriginalTitle" LIKE "#);
        qb.push_text(pattern_anywhere(term).as_str());
        qb.push("))");
    }
    qb.push_flag(r#" AND bi."IsFolder" = "#, filter.is_folder);
    append_type_filters(qb, filter, names);
}

fn collect_stored_names(kinds: &[BaseItemKind], names: &ItemTypeNames) -> (r: Vec<String>)
    ensures
        texts(r@) == stored_names(kinds@, *names),
{
    let mut out: Vec<String> = Vec::new();
    let mut i: usize = 0;
    assert(texts(out@) =~= stored_names(kinds@.take(0), *names));
    while i < kinds.len()
        invariant
            i <= kinds.len(),
            texts(out@) == stored_names(kinds@.take(i as int), *names),
        decreases kinds.len() - i,
    {
        let ghost before = texts(out@);
        assert(kinds@.take(i + 1).drop_last() =~= kinds@.take(i as int));
        if let Some(name) = names.stored_type_name(kinds[i]) {
            let ghost text = name@;
            out.push(name);
            assert(texts(out@) =~= before.push(text));
        }
        i += 1;
    }
    assert(kinds@.take(kinds@.len() as int) =~= kinds@);
    out
}

/// Appends the kinds to look for, or those to leave out.
fn append_type_filters(qb: &mut SqlBuilder, filter: &InternalItemsQuery, names: &ItemTypeNames)
    ensures
        final(qb)@ == type_filters(old(qb)@, *filter, *names),
{
    if filter.include_item_types.len() == 0 {
        let excludes: Vec<String> = collect_stored_names(
            filter.exclude_item_types.as_slice(),
            names,
        );
        assert(texts(excludes@).len() == excludes@.len());
        if excludes.len() > 0 {
            qb.push(" AND NOT ");
            qb.push_in_list(r#"bi."Type""#, text_binds(excludes.as_slice()).as_slice());
        }
    } else {
        let includes: Vec<String> = collect_stored_names(
            filter.include_item_types.as_slice(),
            names,
        );
        qb.push(" AND ");
        qb.push_in_list(r#"bi."Type""#, text_binds(includes.as_slice()).as_slice());
    }
}

fn append_place_predicates(qb: &mut SqlBuilder, filter: &InternalItemsQuery)
    ensures
        final(qb)@ == place_predicates(old(qb)@, *filter),
{
    if filter.channel_ids.len() > 0 {
        qb.push(r#" AND bi."ChannelId" IS NOT NULL AND "#);
        qb.push_in_list(
            r#"bi."ChannelId""#,
            guid_binds(filter.channel_ids.as_slice()).as_slice(),
        );
    }
    append_parent_predicate(qb, filter);
    qb.push_filled(r#" AND bi."Path" = "#, &filter.path);
    qb.push_filled(r#" AND bi."PresentationUniqueKey" = "#, &filter.presentation_unique_key);
}

fn append_parent_predicate(qb: &mut SqlBuilder, filter: &InternalItemsQuery)
    ensures
        final(qb)@ == parent_predicate(old(qb)@, *filter),
{
    if filter.parent_id.is_nil() {
        return;
    }
    let id: String = guid_to_db(filter.parent_id);
    if filter.recursive {
        qb.push(
            r#" AND EXISTS (SELECT 1 FROM "AncestorIds" a WHERE a."ItemId" = bi."Id" AND a."ParentItemId" = "#,
        );
        qb.push_text(id.as_str());
        qb.push(")");
    } else if filter.physical_children_only {
        qb.push(r#" AND bi."ParentId" = "#);
        qb.push_text(id.as_str());
    } else {
        qb.push(r#" AND (bi."ParentId" = "#);
        qb.push_text(id.as_str());
        qb.push(
            r#" OR bi."Id" IN (SELECT "ChildId" FROM "HermitLinkedChildren" WHERE "ParentId" = "#,
        );
        qb.push_text(id.as_str());
        qb.push(r#" AND "ChildType" = 0))"#);
    }
}

fn append_number_predicates(qb: &mut SqlBuilder, filter: &InternalItemsQuery)
    ensures
        final(qb)@ == number_predicates(old(qb)@, *filter),
{
    qb.push_real(r#" AND bi."CommunityRating" >= "#, filter.min_community_rating);
    qb.push_real(r#" AND bi."CriticRating" >= "#, filter.min_critic_rating);
    qb.push_int(r#" AND bi."IndexNumber" >= "#, filter.min_index_number);
    if let Some((parent, index)) = filter.min_parent_and_index_number {
        qb.push(r#" AND ((bi."ParentIndexNumber" = "#);
        qb.push_bind(BindValue::Int(parent as i64));
        qb.push(r#" AND bi."IndexNumber" >= "#);
        qb.push_bind(BindValue::Int(index as i64));
        qb.push(r#") OR bi."ParentIndexNumber" > "#);
        qb.push_bind(BindValue::Int(parent as i64));
        qb.push(")");
    }
    qb.push_int(r#" AND bi."IndexNumber" = "#, filter.index_number);
    qb.push_int(r#" AND bi."ParentIndexNumber" = "#, filter.parent_index_number);
    if let Some(n) = filter.parent_index_number_not_equals {
        qb.push(r#" AND (bi."ParentIndexNumber" <> "#);
        qb.push_bind(BindValue::Int(n as i64));
        qb.push(r#" OR bi."ParentIndexNumber" IS NULL)"#);
    }
}

/// Appends the date ranges.
fn append_date_predicates(qb: &mut SqlBuilder, filter: &InternalItemsQuery, at: Timestamp)
    ensures
        final(qb)@ == date_predicates(old(qb)@, *filter, at),
{
    let mut min_end: Option<Timestamp> = filter.min_end_date;
    let mut max_end: Option<Timestamp> = filter.max_end_date;
    match filter.has_aired {
        Some(true) => {
            max_end = Some(at);
        },
        Some(false) => {
            min_end = Some(at);
        },
        None => {},
    }
    qb.push_time(r#" AND bi."EndDate" >= "#, min_end);
    qb.push_time(r#" AND bi."EndDate" <= "#, max_end);
    qb.push_time(r#" AND bi."StartDate" >= "#, filter.min_start_date);
    qb.push_time(r#" AND bi."StartDate" <= "#, filter.max_start_date);
    qb.push_time(r#" AND bi."PremiereDate" >= "#, filter.min_premiere_date);
    qb.push_time(r#" AND bi."PremiereDate" <= "#, filter.max_premiere_date);
    qb.push_time(r#" AND bi."DateCreated" >= "#, filter.min_date_created);
    let last_saved: Option<Timestamp> = if filter.min_date_last_saved.is_some() {
        filter.min_date_last_saved
    } else {
        filter.min_date_last_saved_for_user
    };
    if let Some(d) = last_saved {
        qb.push(r#" AND (bi."DateLastSaved" IS NOT NULL AND bi."DateLastSaved" >= "#);
        qb.push_bind(BindValue::StoredTime(d));
        qb.push(")");
    }
    match filter.is_airing {
        Some(true) => {
            qb.push(r#" AND bi."StartDate" <= "#);
            qb.push_bind(BindValue::StoredTime(at));
            qb.push(r#" AND bi."EndDate" >= "#);
            qb.push_bind(BindValue::StoredTime(at));
        },
        Some(false) => {
            qb.push(r#" AND bi."StartDate" > "#);
            qb.push_bind(BindValue::StoredTime(at));
            qb.push(r#" AND bi."EndDate" < "#);
            qb.push_bind(BindValue::StoredTime(at));
        },
        None => {},
    }
    match filter.is_unaired {
        Some(true) => {
            qb.push(r#" AND bi."PremiereDate" >= "#);
            qb.push_bind(BindValue::StoredTime(at));
        },
        Some(false) => {
            qb.push(r#" AND bi."PremiereDate" < "#);
            qb.push_bind(BindValue::StoredTime(at));
        },
        None => {},
    }
}

fn collect_clean_names(names: &[String]) -> (r: Vec<String>)
    ensures
        texts(r@) == clean_names(texts(names@)),
{
    let ghost all = texts(names@);
    let mut out: Vec<String> = Vec::new();
    let mut i: usize = 0;
    assert(texts(out@) =~= clean_names(all.take(0)));
    while i < names.len()
        invariant
            i <= names.len(),
            all == texts(names@),
            texts(out@) == clean_names(all.take(i as int)),
        decreases names.len() - i,
    {
        let ghost before = texts(out@);
        assert(all.take(i + 1).drop_last() =~= all.take(i as int));
        assert(all.take(i + 1).last() == names@[i as int]@);
        if !blank(names[i].as_str()) {
            let clean: String = get_clean_value(names[i].as_str());
            let ghost text = clean@;
            out.push(clean);
            assert(texts(out@) =~= before.push(text));
        }
        i += 1;
    }
    assert(all.take(all.len() as int) =~= all);
    out
}

fn collect_clean_values(values: &[String]) -> (r: Vec<String>)
    ensures
        texts(r@) == clean_values(texts(values@)),
{
    let mut out: Vec<String> = Vec::new();
    let mut i: usize = 0;
    while i < values.len()
        invariant
            i <= values.len(),
            out@.len() == i,
            forall|j: int| 0 <= j < i ==> #[trigger] out@[j]@ == clean_value(values@[j]@),
        decreases values.len() - i,
    {
        out.push(get_clean_value(values[i].as_str()));
        i += 1;
    }
    assert(texts(out@) =~= clean_values(texts(values@)));
    out
}

/// Appends exact names, names that hold a text, and ranges of sort names.
fn append_name_predicates(qb: &mut SqlBuilder, filter: &InternalItemsQuery)
    ensures
        final(qb)@ == name_predicates(old(qb)@, *filter),
{
    if let Some(name) = non_blank(&filter.name) {
        if is_true(filter.use_raw_name) {
            qb.push(r#" AND lower(bi."Name") = "#);
            qb.push_text(to_lowercase(name).as_str());
        } else {
            qb.push(r#" AND bi."CleanName" = "#);
            qb.push_text(get_clean_value(name).as_str());
        }
    }
    let cleans: Vec<String> = collect_clean_names(filter.names.as_slice());
    assert(texts(cleans@).len() == cleans@.len());
    if cleans.len() > 0 {
        qb.push(r#" AND bi."CleanName" IN ("#);
        qb.push_all(text_binds(cleans.as_slice()).as_slice());
        qb.push(")");
    }
    if let Some(part) = non_blank(&filter.name_contains) {
        let pattern: String = pattern_of_clean(part);
        qb.push(r#" AND (bi."CleanName" LIKE "#);
        qb.push_text(pattern.as_str());
        qb.push(r#" OR bi."OriginalTitle" LIKE "#);
        qb.push_text(pattern.as_str());
        qb.push(")");
    }
    if let Some(prefix) = non_blank(&filter.name_starts_with) {
        qb.push(r#" AND lower(bi."SortName") LIKE "#);
        qb.push_text(concat(to_lowercase(prefix).as_str(), "%").as_str());
    }
    if let Some(bound) = non_blank(&filter.name_starts_with_or_greater) {
        qb.push(r#" AND lower(bi."SortName") >= "#);
        qb.push_text(to_lowercase(bound).as_str());
    }
    if let Some(bound) = non_blank(&filter.name_less_than) {
        qb.push(r#" AND lower(bi."SortName") < "#);
        qb.push_text(to_lowercase(bound).as_str());
    }
}

fn push_user_data_exists(
    qb: &mut SqlBuilder,
    user: Guid,
    condition: &'static str,
    want: Option<bool>,
)
    ensures
        final(qb)@ == user_data_exists(old(qb)@, user, condition@, want),
{
    if let Some(w) = want {
        qb.push(
            if w {
                " AND EXISTS "
            } else {
                " AND NOT EXISTS "
            },
        );
        qb.push(r#"(SELECT 1 FROM "UserData" ud WHERE ud."ItemId" = bi."Id" AND ud."UserId" = "#);
        qb.push_text(guid_to_db(user).as_str());
        qb.push(condition);
    }
}

fn append_user_data_predicates(qb: &mut SqlBuilder, filter: &InternalItemsQuery)
    ensures
        final(qb)@ == user_data_predicates(old(qb)@, *filter),
{
    if let Some(user) = filter.user_id {
        push_user_data_exists(qb, user, r#" AND ud."IsFavorite" = 1)"#, filter.is_favorite);
        push_user_data_exists(
            qb,
            user,
            r#" AND ud."IsFavorite" = 1)"#,
            filter.is_favorite_or_liked,
        );
        push_user_data_exists(qb, user, r#" AND ud."Rating" >= 7)"#, filter.is_liked);
        push_user_data_exists(qb, user, r#" AND ud."Played" = 1)"#, filter.is_played);
        push_user_data_exists(
            qb,
            user,
            r#" AND ud."PlaybackPositionTicks" > 0)"#,
            filter.is_resumable,
        );
    }
}

fn push_item_values_of(qb: &mut SqlBuilder, types: &[ItemValueType], want: bool)
    ensures
        final(qb)@ == item_values_of(old(qb)@, types@, want),
{
    qb.push(
        if want {
            " AND EXISTS "
        } else {
            " AND NOT EXISTS "
        },
    );
    qb.push(
        r#"(SELECT 1 FROM "ItemValuesMap" ivm JOIN "ItemValues" iv ON iv."ItemValueId" = ivm."ItemValueId" WHERE ivm."ItemId" = bi."Id" AND "#,
    );
    qb.push_in_list(r#"iv."Type""#, type_binds(types).as_slice());
}

fn push_item_value_exists(
    qb: &mut SqlBuilder,
    types: &[ItemValueType],
    values: &[String],
    want: bool,
)
    ensures
        final(qb)@ == item_value_exists(old(qb)@, types@, texts(values@), want),
{
    if values.len() == 0 {
        return;
    }
    push_item_values_of(qb, types, want);
    qb.push(" AND ");
    let cleans: Vec<String> = collect_clean_values(values);
    qb.push_in_list(r#"iv."CleanValue""#, text_binds(cleans.as_slice()).as_slice());
    qb.push(")");
}

fn push_referenced_item(qb: &mut SqlBuilder, types: &[ItemValueType], ids: &[Guid], exclude: bool)
    ensures
        final(qb)@ == referenced_item(old(qb)@, types@, ids@, exclude),
{
    if ids.len() == 0 {
        return;
    }
    push_item_values_of(qb, types, !exclude);
    qb.push(r#" AND iv."CleanValue" IN (SELECT ref."CleanName" FROM "BaseItems" ref WHERE "#);
    qb.push_in_list(r#"ref."Id""#, guid_binds(ids).as_slice());
    qb.push("))");
}

/// Appends genres, studios, artists, albums and tags.
fn append_item_value_predicates(
    qb: &mut SqlBuilder,
    filter: &InternalItemsQuery,
    tags: &[String],
    exclude_tags: &[String],
)
    ensures
        final(qb)@ == item_value_predicates(
            old(qb)@,
            *filter,
            texts(tags@),
            texts(exclude_tags@),
        ),
{
    let genre: Vec<ItemValueType> = vec![ItemValueType::Genre];
    let studios: Vec<ItemValueType> = vec![ItemValueType::Studios];
    let artists: Vec<ItemValueType> = vec![ItemValueType::Artist, ItemValueType::AlbumArtist];
    let album_artist: Vec<ItemValueType> = vec![ItemValueType::AlbumArtist];
    let tag_type: Vec<ItemValueType> = vec![ItemValueType::Tags];
    proof {
        assert(genre@ =~= seq![ItemValueType::Genre]);
        assert(studios@ =~= seq![ItemValueType::Studios]);
        assert(artists@ =~= seq![ItemValueType::Artist, ItemValueType::AlbumArtist]);
        assert(album_artist@ =~= seq![ItemValueType::AlbumArtist]);
        assert(tag_type@ =~= seq![ItemValueType::Tags]);
    }
    push_item_value_exists(qb, genre.as_slice(), filter.genres.as_slice(), true);
    push_referenced_item(qb, genre.as_slice(), filter.genre_ids.as_slice(), false);
    push_referenced_item(qb, studios.as_slice(), filter.studio_ids.as_slice(), false);
    push_referenced_item(qb, artists.as_slice(), filter.artist_ids.as_slice(), false);
    push_referenced_item(qb, album_artist.as_slice(), filter.album_artist_ids.as_slice(), false);
    push_referenced_item(qb, artists.as_slice(), filter.exclude_artist_ids.as_slice(), true);
    if filter.album_ids.len() > 0 {
        qb.push(r#" AND bi."ParentId" IS NOT NULL AND "#);
        qb.push_in_list(
            r#"bi."ParentId""#,
            guid_binds(filter.album_ids.as_slice()).as_slice(),
        );
    }
    push_item_value_exists(qb, tag_type.as_slice(), tags, true);
    push_item_value_exists(qb, tag_type.as_slice(), exclude_tags, false);
}

fn append_people_predicates(qb: &mut SqlBuilder, filter: &InternalItemsQuery)
    ensures
        final(qb)@ == people_predicates(old(qb)@, *filter),
{
    if let Some(name) = non_blank(&filter.person) {
        qb.push(
            r#" AND EXISTS (SELECT 1 FROM "PeopleBaseItemMap" pm JOIN "Peoples" pp ON pp."Id" = pm."PeopleId" WHERE pm."ItemId" = bi."Id" AND pp."Name" = "#,
        );
        qb.push_text(name);
        qb.push(")");
    }
    if filter.person_ids.len() > 0 {
        qb.push(
            r#" AND EXISTS (SELECT 1 FROM "PeopleBaseItemMap" pm WHERE pm."ItemId" = bi."Id" AND "#,
        );
        qb.push_in_list(
            r#"pm."PeopleId""#,
            guid_binds(filter.person_ids.as_slice()).as_slice(),
        );
        qb.push(")");
    }
}

fn append_rating_predicates(qb: &mut SqlBuilder, filter: &InternalItemsQuery)
    ensures
        final(qb)@ == rating_predicates(old(qb)@, *filter),
{
    qb.push_either(
        filter.has_overview,
        r#" AND (bi."Overview" IS NOT NULL AND bi."Overview" <> '')"#,
        r#" AND (bi."Overview" IS NULL OR bi."Overview" = '')"#,
    );
    qb.push_either(
        filter.has_official_rating,
        r#" AND (bi."OfficialRating" IS NOT NULL AND bi."OfficialRating" <> '')"#,
        r#" AND (bi."OfficialRating" IS NULL OR bi."OfficialRating" = '')"#,
    );
    if filter.official_ratings.len() > 0 {
        qb.push(" AND ");
        qb.push_in_list(
            r#"bi."OfficialRating""#,
            text_binds(filter.official_ratings.as_slice()).as_slice(),
        );
    }
}

fn append_owner_predicates(qb: &mut SqlBuilder, filter: &InternalItemsQuery)
    ensures
        final(qb)@ == owner_predicates(old(qb)@, *filter),
{
    match filter.has_owner_id {
        Some(true) => {
            qb.push(" AND NOT ");
            qb.push(NO_OWNER);
        },
        Some(false) => {
            qb.push(" AND ");
            qb.push(NO_OWNER);
        },
        None => {
            if filter.owner_ids.len() == 0 && filter.extra_types.len() == 0
                && !filter.include_owned_items {
                qb.push(
                    if is_true(filter.is_resumable) {
                        " AND ("
                    } else {
                        r#" AND bi."PrimaryVersionId" IS NULL AND ("#
                    },
                );
                qb.push(NO_OWNER);
                qb.push(r#" OR bi."ExtraType" IS NOT NULL)"#);
            }
        },
    }
    if filter.owner_ids.len() > 0 {
        qb.push(r#" AND bi."OwnerId" IS NOT NULL AND "#);
        qb.push_in_list(r#"bi."OwnerId""#, guid_binds(filter.owner_ids.as_slice()).as_slice());
    }
    if filter.extra_types.len() > 0 {
        qb.push(r#" AND bi."ExtraType" IS NOT NULL AND "#);
        qb.push_in_list(r#"bi."ExtraType""#, int_binds(filter.extra_types.as_slice()).as_slice());
    }
}

fn push_has_provider(qb: &mut SqlBuilder, flag: Option<bool>, provider: &str)
    ensures
        final(qb)@ == has_provider(old(qb)@, flag, provider@),
{
    if let Some(has) = flag {
        qb.push(
            if has {
                " AND EXISTS "
            } else {
                " AND NOT EXISTS "
            },
        );
        qb.push(
            r#"(SELECT 1 FROM "BaseItemProviders" p WHERE p."ItemId" = bi."Id" AND lower(p."ProviderId") = "#,
        );
        qb.push_text(provider);
        qb.push(")");
    }
}

fn append_provider_predicates(qb: &mut SqlBuilder, filter: &InternalItemsQuery)
    ensures
        final(qb)@ == provider_predicates(old(qb)@, *filter),
{
    push_has_provider(qb, filter.has_imdb_id, "imdb");
    push_has_provider(qb, filter.has_tmdb_id, "tmdb");
    push_has_provider(qb, filter.has_tvdb_id, "tvdb");
    if filter.any_provider_id_equals.len() > 0 {
        qb.push(
            r#" AND EXISTS (SELECT 1 FROM "BaseItemProviders" p WHERE p."ItemId" = bi."Id" AND ("#,
        );
        push_provider_pairs(qb, filter.any_provider_id_equals.as_slice());
        qb.push("))");
    }
}

fn push_provider_pairs(qb: &mut SqlBuilder, pairs: &[(String, String)])
    ensures
        final(qb)@ == provider_pairs(old(qb)@, pairs@),
{
    let ghost start = qb@;
    let mut i: usize = 0;
    while i < pairs.len()
        invariant
            i <= pairs.len(),
            qb@ == provider_pairs(start, pairs@.take(i as int)),
        decreases pairs.len() - i,
    {
        assert(pairs@.take(i + 1).drop_last() =~= pairs@.take(i as int));
        if i > 0 {
            qb.push(" OR ");
        }
        qb.push(r#"(lower(p."ProviderId") = "#);
        qb.push_text(to_lowercase(pairs[i].0.as_str()).as_str());
        qb.push(r#" AND lower(p."ProviderValue") = "#);
        qb.push_text(to_lowercase(pairs[i].1.as_str()).as_str());
        qb.push(")");
        i += 1;
    }
    assert(pairs@.take(pairs@.len() as int) =~= pairs@);
}

fn collect_media_names(media: &[MediaType]) -> (r: Vec<String>)
    ensures
        texts(r@) == media_names(media@),
{
    let mut out: Vec<String> = Vec::new();
    let mut i: usize = 0;
    while i < media.len()
        invariant
            i <= media.len(),
            out@.len() == i,
            forall|j: int| 0 <= j < i ==> #[trigger] out@[j]@ == media_type_text(media@[j]),
        decreases media.len() - i,
    {
        out.push(media_type_name(media[i]));
        i += 1;
    }
    assert(texts(out@) =~= media_names(media@));
    out
}

fn append_state_predicates(qb: &mut SqlBuilder, filter: &InternalItemsQuery)
    ensures
        final(qb)@ == state_predicates(old(qb)@, *filter),
{
    if filter.years.len() > 0 {
        qb.push(" AND ");
        qb.push_in_list(r#"bi."ProductionYear""#, int_binds(filter.years.as_slice()).as_slice());
    }
    qb.push_flag(
        r#" AND bi."IsVirtualItem" = "#,
        if filter.is_virtual_item.is_some() {
            filter.is_virtual_item
        } else {
            filter.is_missing
        },
    );
    qb.push_either(
        filter.is_special_season,
        r#" AND bi."IndexNumber" = 0"#,
        r#" AND bi."IndexNumber" <> 0"#,
    );
    if filter.media_types.len() > 0 {
        let media: Vec<String> = collect_media_names(filter.media_types.as_slice());
        qb.push(" AND ");
        qb.push_in_list(r#"bi."MediaType""#, text_binds(media.as_slice()).as_slice());
    }
    if filter.item_ids.len() > 0 {
        qb.push(" AND ");
        qb.push_in_list(r#"bi."Id""#, guid_binds(filter.item_ids.as_slice()).as_slice());
    }
    if filter.exclude_item_ids.len() > 0 {
        qb.push(" AND NOT ");
        qb.push_in_list(r#"bi."Id""#, guid_binds(filter.exclude_item_ids.as_slice()).as_slice());
    }
}

fn append_ancestor_predicates(qb: &mut SqlBuilder, filter: &InternalItemsQuery)
    ensures
        final(qb)@ == ancestor_predicates(old(qb)@, *filter),
{
    if filter.top_parent_ids.len() > 0 {
        qb.push(r#" AND bi."TopParentId" IS NOT NULL AND "#);
        qb.push_in_list(
            r#"bi."TopParentId""#,
            guid_binds(filter.top_parent_ids.as_slice()).as_slice(),
        );
    }
    if filter.ancestor_ids.len() > 0 {
        qb.push(r#" AND EXISTS (SELECT 1 FROM "AncestorIds" a WHERE a."ItemId" = bi."Id" AND "#);
        qb.push_in_list(
            r#"a."ParentItemId""#,
            guid_binds(filter.ancestor_ids.as_slice()).as_slice(),
        );
        qb.push(")");
    }
}

fn push_dead_item_value(qb: &mut SqlBuilder, types: &[ItemValueType], flag: Option<bool>)
    ensures
        final(qb)@ == dead_item_value(old(qb)@, types@, flag),
{
    if is_true(flag) {
        qb.push(
            r#" AND NOT EXISTS (SELECT 1 FROM "ItemValues" iv WHERE iv."Value" = bi."Name" AND "#,
        );
        qb.push_in_list(r#"iv."Type""#, type_binds(types).as_slice());
        qb.push(")");
    }
}

fn append_dead_predicates(qb: &mut SqlBuilder, filter: &InternalItemsQuery)
    ensures
        final(qb)@ == dead_predicates(old(qb)@, *filter),
{
    let genre: Vec<ItemValueType> = vec![ItemValueType::Genre];
    let studios: Vec<ItemValueType> = vec![ItemValueType::Studios];
    let artists: Vec<ItemValueType> = vec![ItemValueType::Artist, ItemValueType::AlbumArtist];
    proof {
        assert(genre@ =~= seq![ItemValueType::Genre]);
        assert(studios@ =~= seq![ItemValueType::Studios]);
        assert(artists@ =~= seq![ItemValueType::Artist, ItemValueType::AlbumArtist]);
    }
    if is_true(filter.is_dead_person) {
        qb.push(r#" AND NOT EXISTS (SELECT 1 FROM "Peoples" p WHERE p."Name" = bi."Name")"#);
    }
    push_dead_item_value(qb, genre.as_slice(), filter.is_dead_genre);
    push_dead_item_value(qb, studios.as_slice(), filter.is_dead_studio);
    push_dead_item_value(qb, artists.as_slice(), filter.is_dead_artist);
}

fn append_season_predicate(qb: &mut SqlBuilder, filter: &InternalItemsQuery)
    ensures
        final(qb)@ == season_predicate(old(qb)@, *filter),
{
    if let Some(season) = filter.aired_during_season {
        if season < 1 {
            qb.push(r#" AND bi."ParentIndexNumber" = "#);
            qb.push_bind(BindValue::Int(season as i64));
        } else {
            let number: String = int_text(season as i64);
            let after: String = concat3(
                r#"%"AirsAfterSeasonNumber":"#,
                number.as_str(),
                "%",
            );
            let before: String = concat3(
                r#"%"AirsBeforeSeasonNumber":"#,
                number.as_str(),
                "%",
            );
            qb.push(r#" AND (bi."ParentIndexNumber" = "#);
            qb.push_bind(BindValue::Int(season as i64));
            qb.push(r#" OR (bi."Data" IS NOT NULL AND (bi."Data" LIKE "#);
            qb.push_text(after.as_str());
            qb.push(r#" OR bi."Data" LIKE "#);
            qb.push_text(before.as_str());
            qb.push(")))");
        }
    }
}

fn order_column(by: ItemSortBy) -> (r: &'static str)
    ensures
        r@ == order_text(by),
{
    match by {
        ItemSortBy::Random => "RANDOM()",
        ItemSortBy::Runtime => r#"bi."RunTimeTicks""#,
        ItemSortBy::DateCreated => r#"bi."DateCreated""#,
        ItemSortBy::DateLastContentAdded => r#"bi."DateLastMediaAdded""#,
        ItemSortBy::PremiereDate => r#"bi."PremiereDate""#,
        ItemSortBy::StartDate => r#"bi."StartDate""#,
        ItemSortBy::Album => r#"bi."Album""#,
        ItemSortBy::CommunityRating => r#"bi."CommunityRating""#,
        ItemSortBy::CriticRating => r#"bi."CriticRating""#,
        ItemSortBy::ProductionYear => r#"bi."ProductionYear""#,
        ItemSortBy::VideoBitRate => r#"bi."TotalBitrate""#,
        ItemSortBy::ParentIndexNumber => r#"bi."ParentIndexNumber""#,
        ItemSortBy::IndexNumber => r#"bi."IndexNumber""#,
        ItemSortBy::AiredEpisodeOrder => {
            r#"(CASE WHEN bi."ParentIndexNumber" = 0 THEN 1000000 ELSE COALESCE(bi."ParentIndexNumber", 0) END) * 100000 + COALESCE(bi."IndexNumber", 0)"#
        },
        ItemSortBy::IsFolder => r#"bi."IsFolder""#,
        ItemSortBy::OfficialRating => r#"bi."InheritedParentalRatingValue""#,
        ItemSortBy::SeriesSortName => r#"bi."SeriesName""#,
        _ => r#"bi."SortName""#,
    }
}

fn collect_sort_keys(keys: &[(ItemSortBy, SortOrder)]) -> (r: Vec<(ItemSortBy, SortOrder)>)
    ensures
        r@ == sort_keys(keys@),
{
    let mut out: Vec<(ItemSortBy, SortOrder)> = Vec::new();
    let mut i: usize = 0;
    while i < keys.len()
        invariant
            i <= keys.len(),
            out@ == sort_keys(keys@.take(i as int)),
        decreases keys.len() - i,
    {
        assert(keys@.take(i + 1).drop_last() =~= keys@.take(i as int));
        if keys[i].0 != ItemSortBy::Default {
            out.push(keys[i]);
        }
        i += 1;
    }
    assert(keys@.take(keys@.len() as int) =~= keys@);
    out
}

/// Appends the order.
fn append_order_by(qb: &mut SqlBuilder, filter: &InternalItemsQuery)
    ensures
        final(qb)@ == order_by(old(qb)@, *filter),
{
    let keys: Vec<(ItemSortBy, SortOrder)> = collect_sort_keys(filter.order_by.as_slice());
    qb.push(" ORDER BY ");
    if keys.len() == 0 {
        qb.push(r#"bi."SortName""#);
        return;
    }
    let ghost start = qb@;
    let mut by_name: bool = false;
    let mut i: usize = 0;
    while i < keys.len()
        invariant
            i <= keys.len(),
            qb@ == order_terms(start, keys@.take(i as int)),
            by_name == (exists|j: int|
                0 <= j < i && ((#[trigger] keys@[j]).0 == ItemSortBy::SortName || keys@[j].0
                    == ItemSortBy::Name)),
        decreases keys.len() - i,
    {
        assert(keys@.take(i + 1).drop_last() =~= keys@.take(i as int));
        if i > 0 {
            qb.push(", ");
        }
        qb.push(order_column(keys[i].0));
        qb.push(
            match keys[i].1 {
                SortOrder::Ascending => " ASC",
                SortOrder::Descending => " DESC",
            },
        );
        if keys[i].0 == ItemSortBy::SortName || keys[i].0 == ItemSortBy::Name {
            by_name = true;
            assert(keys@[i as int].0 == ItemSortBy::SortName || keys@[i as int].0
                == ItemSortBy::Name);
        }
        i += 1;
    }
    assert(keys@.take(keys@.len() as int) =~= keys@);
    if !by_name {
        qb.push(r#", bi."SortName" ASC"#);
    }
}

/// Appends the page.
fn append_paging(qb: &mut SqlBuilder, filter: &InternalItemsQuery)
    ensures
        final(qb)@ == paging(old(qb)@, *filter),
{
    let skip: i32 = match filter.start_index {
        Some(n) => n,
        None => 0,
    };
    if let Some(limit) = filter.limit {
        qb.push(" LIMIT ");
        qb.push_bind(BindValue::Int(limit as i64));
        if skip > 0 {
            qb.push(" OFFSET ");
            qb.push_bind(BindValue::Int(skip as i64));
        }
    } else if skip > 0 {
        qb.push(" LIMIT -1 OFFSET ");
        qb.push_bind(BindValue::Int(skip as i64));
    }
}

} // verus!
