//! Items like another one, and movies to recommend.
//!
//! Candidates share something with the item they are like, and each thing shared
//! has a weight: ten for a genre, five for a tag or a studio, fifty for a
//! director, fifteen for an actor. The highest sum comes first.
//!
//! Movies are recommended from what a user has watched and liked. Each seed (a
//! recently played or liked movie, a director or an actor of recently played
//! movies) gives one category, and the categories are merged in turn.
use vstd::prelude::*;

use crate::guid::{guid_in, guid_text, hyphenated_text, parse_guid, Guid};
use crate::items_query::InternalItemsQuery;
use crate::model::{BaseItemKind, ItemSortBy, SortOrder};
use crate::paging::{front, least, move_front, rest};
use crate::sort::{in_order, is_order, law_sorted, sort_by, sorted};
use crate::sql::{
    give, give_all, plain_guid_binds, plain_guid_values, say, text_binds, text_values, BindValue,
    BindView, Sql, SqlBuilder,
};
use crate::text::{opt_text, texts};

verus! {

/// How many similar items there are where no limit is given.
pub const DEFAULT_SIMILAR_LIMIT: i32 = 10;

/// How many recently played movies are seeds.
pub const RECENTLY_PLAYED_LIMIT: i32 = 7;

/// How many liked movies are seeds.
pub const LIKED_LIMIT: i32 = 10;

/// Of how many recently played movies the directors and actors are seeds.
pub const PEOPLE_SOURCE_LIMIT: usize = 6;

/// Why a category is recommended. The order of the variants is the order in which
/// categories are shown.
#[derive(Debug, Clone, Copy, PartialEq, Eq, Structural)]
pub enum RecommendationType {
    SimilarToRecentlyPlayed,
    SimilarToLikedItem,
    HasDirectorFromRecentlyPlayed,
    HasActorFromRecentlyPlayed,
}

/// A category of recommended items.
#[derive(Debug, Clone)]
pub struct SimilarItemsRecommendation<T> {
    /// The name of the seed.
    pub baseline_item_name: String,
    /// What identifies the category.
    pub category_id: Guid,
    /// Why it is recommended.
    pub recommendation_type: RecommendationType,
    /// The items.
    pub items: Vec<T>,
}

// ---------------------------------------------------------------------------
// Similar items
// ---------------------------------------------------------------------------
/// The statement for items like the seed, the best first.
pub open spec fn similar_sql(
    seed: Seq<char>,
    seed_type: Seq<char>,
    exclude: Seq<Guid>,
    limit: int,
) -> Sql {
    let a = give(
        say(
            say(
                say(
                    say(
                        Seq::empty(),
                        r#"SELECT bi.* FROM (SELECT scored."cand" AS id, SUM(scored."w") AS score FROM ("#@,
                    ),
                    r#"SELECT ivm2."ItemId" AS "cand", CASE iv0."Type" WHEN 2 THEN 10 WHEN 3 THEN 5 WHEN 4 THEN 5 ELSE 0 END AS "w""#@,
                ),
                r#" FROM "ItemValuesMap" ivm0 JOIN "ItemValues" iv0 ON iv0."ItemValueId" = ivm0."ItemValueId""#@,
            ),
            r#" JOIN "ItemValuesMap" ivm2 ON ivm2."ItemValueId" = ivm0."ItemValueId" WHERE ivm0."ItemId" = "#@,
        ),
        BindView::Text(seed),
    );
    let b = give(
        say(
            say(
                say(
                    say(
                        a,
                        r#" AND iv0."Type" IN (2, 3, 4) UNION ALL "#@,
                    ),
                    r#"SELECT pm2."ItemId" AS "cand", CASE p0."PersonType" WHEN 'Director' THEN 50 ELSE 15 END AS "w""#@,
                ),
                r#" FROM "PeopleBaseItemMap" pm0 JOIN "Peoples" p0 ON p0."Id" = pm0."PeopleId""#@,
            ),
            r#" JOIN "PeopleBaseItemMap" pm2 ON pm2."PeopleId" = pm0."PeopleId" WHERE pm0."ItemId" = "#@,
        ),
        BindView::Text(seed),
    );
    let c = give(
        say(
            b,
            r#" AND p0."PersonType" IN ('Director', 'Actor', 'GuestStar')) scored WHERE scored."cand" <> "#@,
        ),
        BindView::Text(seed),
    );
    let d = give(
        say(
            c,
            r#" GROUP BY scored."cand") s JOIN "BaseItems" bi ON bi."Id" = s.id WHERE bi."Type" = "#@,
        ),
        BindView::Text(seed_type),
    );
    let e = if exclude.len() == 0 {
        d
    } else {
        say(give_all(say(d, r#" AND bi."Id" NOT IN ("#@), plain_guid_values(exclude)), ")"@)
    };
    give(
        say(e, r#" ORDER BY s.score DESC, bi."SortName" ASC, bi."Id" ASC LIMIT "#@),
        BindView::Int(
            if limit > 0 {
                limit
            } else {
                0
            },
        ),
    )
}

/// The statement for items of type `seed_type` like the seed, without the seed
/// and the excluded ones, the best first.
pub fn weighted_similar_items_query(
    seed_id: Guid,
    seed_type: &str,
    exclude_ids: &[Guid],
    limit: i32,
) -> (r: SqlBuilder)
    ensures
        r@ == similar_sql(
            hyphenated_text(seed_id.value),
            seed_type@,
            exclude_ids@,
            limit as int,
        ),
{
    let seed: String = guid_text(seed_id);
    let mut qb: SqlBuilder = SqlBuilder::empty();
    qb.push(r#"SELECT bi.* FROM (SELECT scored."cand" AS id, SUM(scored."w") AS score FROM ("#);
    qb.push(
        r#"SELECT ivm2."ItemId" AS "cand", CASE iv0."Type" WHEN 2 THEN 10 WHEN 3 THEN 5 WHEN 4 THEN 5 ELSE 0 END AS "w""#,
    );
    qb.push(
        r#" FROM "ItemValuesMap" ivm0 JOIN "ItemValues" iv0 ON iv0."ItemValueId" = ivm0."ItemValueId""#,
    );
    qb.push(
        r#" JOIN "ItemValuesMap" ivm2 ON ivm2."ItemValueId" = ivm0."ItemValueId" WHERE ivm0."ItemId" = "#,
    );
    qb.push_text(seed.as_str());
    qb.push(r#" AND iv0."Type" IN (2, 3, 4) UNION ALL "#);
    qb.push(
        r#"SELECT pm2."ItemId" AS "cand", CASE p0."PersonType" WHEN 'Director' THEN 50 ELSE 15 END AS "w""#,
    );
    qb.push(r#" FROM "PeopleBaseItemMap" pm0 JOIN "Peoples" p0 ON p0."Id" = pm0."PeopleId""#);
    qb.push(
        r#" JOIN "PeopleBaseItemMap" pm2 ON pm2."PeopleId" = pm0."PeopleId" WHERE pm0."ItemId" = "#,
    );
    qb.push_text(seed.as_str());
    qb.push(
        r#" AND p0."PersonType" IN ('Director', 'Actor', 'GuestStar')) scored WHERE scored."cand" <> "#,
    );
    qb.push_text(seed.as_str());
    qb.push(
        r#" GROUP BY scored."cand") s JOIN "BaseItems" bi ON bi."Id" = s.id WHERE bi."Type" = "#,
    );
    qb.push_text(seed_type);
    if exclude_ids.len() > 0 {
        qb.push(r#" AND bi."Id" NOT IN ("#);
        let excluded: Vec<BindValue> = plain_guid_binds(exclude_ids);
        qb.push_all(excluded.as_slice());
        qb.push(")");
    }
    qb.push(r#" ORDER BY s.score DESC, bi."SortName" ASC, bi."Id" ASC LIMIT "#);
    qb.push_bind(
        BindValue::Int(
            if limit > 0 {
                limit as i64
            } else {
                0
            },
        ),
    );
    qb
}

/// The statement for items like the one whose row was looked up, of its own type.
/// There is none where the item was not found.
pub fn similar_items_query(
    item_id: Guid,
    seed_type: Option<&str>,
    exclude_artist_ids: &[Guid],
    limit: Option<i32>,
) -> (r: Option<SqlBuilder>)
    ensures
        match r {
            Some(qb) => seed_type is Some && qb@ == similar_sql(
                hyphenated_text(item_id.value),
                seed_type->0@,
                exclude_artist_ids@,
                match limit {
                    Some(n) => n as int,
                    None => DEFAULT_SIMILAR_LIMIT as int,
                },
            ),
            None => seed_type is None,
        },
{
    match seed_type {
        Some(kind) => {
            let n: i32 = match limit {
                Some(n) => n,
                None => DEFAULT_SIMILAR_LIMIT,
            };
            Some(weighted_similar_items_query(item_id, kind, exclude_artist_ids, n))
        },
        None => None,
    }
}

/// The statement for the names of the people with one of the given credits on one
/// of the given items.
pub open spec fn people_names_sql(ids: Seq<Guid>, kinds: Seq<Seq<char>>) -> Sql {
    let a = give_all(
        say(
            Seq::empty(),
            r#"SELECT DISTINCT p."Name" FROM "PeopleBaseItemMap" pm JOIN "Peoples" p ON p."Id" = pm."PeopleId" WHERE pm."ItemId" IN ("#@,
        ),
        plain_guid_values(ids),
    );
    say(give_all(say(a, r#") AND p."PersonType" IN ("#@), text_values(kinds)), ")"@)
}

/// The statement for the names of people; none where no item or no credit is
/// asked for.
pub fn people_names_query(item_ids: &[Guid], person_types: &[String]) -> (r: Option<SqlBuilder>)
    ensures
        match r {
            Some(qb) => item_ids@.len() > 0 && person_types@.len() > 0 && qb@ == people_names_sql(
                item_ids@,
                texts(person_types@),
            ),
            None => item_ids@.len() == 0 || person_types@.len() == 0,
        },
{
    if item_ids.len() == 0 || person_types.len() == 0 {
        return None;
    }
    let mut qb: SqlBuilder = SqlBuilder::empty();
    qb.push(
        r#"SELECT DISTINCT p."Name" FROM "PeopleBaseItemMap" pm JOIN "Peoples" p ON p."Id" = pm."PeopleId" WHERE pm."ItemId" IN ("#,
    );
    let ids: Vec<BindValue> = plain_guid_binds(item_ids);
    qb.push_all(ids.as_slice());
    qb.push(r#") AND p."PersonType" IN ("#);
    let kinds: Vec<BindValue> = text_binds(person_types);
    qb.push_all(kinds.as_slice());
    qb.push(")");
    Some(qb)
}

// ---------------------------------------------------------------------------
// Where recommendations come from
// ---------------------------------------------------------------------------
/// How many categories are wanted. There are none without a user, or where the
/// limit is not positive.
pub fn wanted_categories(user_found: bool, category_limit: i32) -> (r: Option<usize>)
    ensures
        r == if user_found && category_limit > 0 {
            Some(category_limit as usize)
        } else {
            None
        },
{
    if user_found && category_limit > 0 {
        Some(category_limit as usize)
    } else {
        None
    }
}

/// Whether `q` asks for the movies that the user played last, and for nothing
/// else.
pub open spec fn asks_for_recently_played(
    q: InternalItemsQuery,
    user_id: Guid,
    parent_id: Guid,
) -> bool {
    &&& q.parent_id == parent_id
    &&& q.include_item_types@ == seq![BaseItemKind::Movie]
    &&& q.recursive
    &&& q.is_played == Some(true)
    &&& q.limit == Some(RECENTLY_PLAYED_LIMIT)
    &&& q.order_by@ == seq![(ItemSortBy::DatePlayed, SortOrder::Descending)]
    &&& q.user_id == Some(user_id)
    &&& exists|d: InternalItemsQuery| #[trigger]
        d.is_unrestricted() && q == (InternalItemsQuery {
            parent_id: q.parent_id,
            include_item_types: q.include_item_types,
            recursive: q.recursive,
            is_played: q.is_played,
            limit: q.limit,
            order_by: q.order_by,
            user_id: q.user_id,
            ..d
        })
}

/// The query for the movies that the user played last.
pub fn recently_played_query(user_id: Guid, parent_id: Guid) -> (r: InternalItemsQuery)
    ensures
        asks_for_recently_played(r, user_id, parent_id),
{
    let d: InternalItemsQuery = InternalItemsQuery::default();
    let ghost plain = d;
    let q: InternalItemsQuery = InternalItemsQuery {
        parent_id,
        include_item_types: vec![BaseItemKind::Movie],
        recursive: true,
        is_played: Some(true),
        limit: Some(RECENTLY_PLAYED_LIMIT),
        order_by: vec![(ItemSortBy::DatePlayed, SortOrder::Descending)],
        user_id: Some(user_id),
        ..d
    };
    assert(plain.is_unrestricted());
    assert(q.include_item_types@ =~= seq![BaseItemKind::Movie]);
    assert(q.order_by@ =~= seq![(ItemSortBy::DatePlayed, SortOrder::Descending)]);
    q
}

/// Whether `q` asks for movies that the user likes and has not played recently,
/// and for nothing else.
pub open spec fn asks_for_liked(
    q: InternalItemsQuery,
    user_id: Guid,
    parent_id: Guid,
    played: Seq<Guid>,
) -> bool {
    &&& q.parent_id == parent_id
    &&& q.include_item_types@ == seq![BaseItemKind::Movie]
    &&& q.recursive
    &&& q.is_favorite_or_liked == Some(true)
    &&& q.limit == Some(LIKED_LIMIT)
    &&& q.exclude_item_ids@ == played
    &&& q.user_id == Some(user_id)
    &&& exists|d: InternalItemsQuery| #[trigger]
        d.is_unrestricted() && q == (InternalItemsQuery {
            parent_id: q.parent_id,
            include_item_types: q.include_item_types,
            recursive: q.recursive,
            is_favorite_or_liked: q.is_favorite_or_liked,
            limit: q.limit,
            exclude_item_ids: q.exclude_item_ids,
            user_id: q.user_id,
            ..d
        })
}

/// The query for movies that the user likes, without those played recently.
pub fn liked_query(user_id: Guid, parent_id: Guid, played_ids: Vec<Guid>) -> (r:
    InternalItemsQuery)
    ensures
        asks_for_liked(r, user_id, parent_id, played_ids@),
{
    let d: InternalItemsQuery = InternalItemsQuery::default();
    let ghost plain = d;
    let q: InternalItemsQuery = InternalItemsQuery {
        parent_id,
        include_item_types: vec![BaseItemKind::Movie],
        recursive: true,
        is_favorite_or_liked: Some(true),
        limit: Some(LIKED_LIMIT),
        exclude_item_ids: played_ids,
        user_id: Some(user_id),
        ..d
    };
    assert(plain.is_unrestricted());
    assert(q.include_item_types@ =~= seq![BaseItemKind::Movie]);
    q
}

/// Whether `q` asks for the movies of a person that the user has not played, and
/// for nothing else; of a director, those they directed.
pub open spec fn asks_for_person(
    q: InternalItemsQuery,
    name: Seq<char>,
    recommendation_type: RecommendationType,
    item_limit: i32,
    user_id: Guid,
) -> bool {
    &&& q.include_item_types@ == seq![BaseItemKind::Movie]
    &&& q.recursive
    &&& opt_text(q.person) == Some(name)
    &&& texts(q.person_types@) == if recommendation_type
        == RecommendationType::HasDirectorFromRecentlyPlayed {
        seq!["Director"@]
    } else {
        Seq::empty()
    }
    &&& q.is_played == Some(false)
    &&& q.limit == Some(item_limit)
    &&& q.user_id == Some(user_id)
    &&& exists|d: InternalItemsQuery| #[trigger]
        d.is_unrestricted() && q == (InternalItemsQuery {
            include_item_types: q.include_item_types,
            recursive: q.recursive,
            person: q.person,
            person_types: q.person_types,
            is_played: q.is_played,
            limit: q.limit,
            user_id: q.user_id,
            ..d
        })
}

/// The query for the movies of a person that the user has not played.
pub fn person_query(
    name: &str,
    recommendation_type: RecommendationType,
    item_limit: i32,
    user_id: Guid,
) -> (r: InternalItemsQuery)
    ensures
        asks_for_person(r, name@, recommendation_type, item_limit, user_id),
{
    let mut person_types: Vec<String> = Vec::new();
    if recommendation_type == RecommendationType::HasDirectorFromRecentlyPlayed {
        person_types.push("Director".to_owned());
        assert(texts(person_types@) =~= seq!["Director"@]);
    } else {
        assert(texts(person_types@) =~= Seq::<Seq<char>>::empty());
    }
    let d: InternalItemsQuery = InternalItemsQuery::default();
    let ghost plain = d;
    let q: InternalItemsQuery = InternalItemsQuery {
        include_item_types: vec![BaseItemKind::Movie],
        recursive: true,
        person: Some(name.to_owned()),
        person_types,
        is_played: Some(false),
        limit: Some(item_limit),
        user_id: Some(user_id),
        ..d
    };
    assert(plain.is_unrestricted());
    assert(q.include_item_types@ =~= seq![BaseItemKind::Movie]);
    q
}

/// The recently played movies whose directors and actors are seeds.
pub fn people_sources(played_ids: &[Guid]) -> (r: Vec<Guid>)
    ensures
        r@ == front(played_ids@, PEOPLE_SOURCE_LIMIT as int),
{
    let mut out: Vec<Guid> = Vec::new();
    let mut i: usize = 0;
    while i < played_ids.len() && i < PEOPLE_SOURCE_LIMIT
        invariant
            i <= played_ids.len(),
            i <= PEOPLE_SOURCE_LIMIT,
            out@ == played_ids@.take(i as int),
        decreases played_ids.len() - i,
    {
        out.push(played_ids[i]);
        assert(out@ =~= played_ids@.take(i + 1));
        i += 1;
    }
    out
}

/// The credits that count as directing.
pub fn directing_credits() -> (r: Vec<String>)
    ensures
        texts(r@) == seq!["Director"@],
{
    let v: Vec<String> = vec!["Director".to_owned()];
    assert(texts(v@) =~= seq!["Director"@]);
    v
}

/// The credits that count as acting.
pub fn acting_credits() -> (r: Vec<String>)
    ensures
        texts(r@) == seq!["Actor"@, "GuestStar"@],
{
    let v: Vec<String> = vec!["Actor".to_owned(), "GuestStar".to_owned()];
    assert(texts(v@) =~= seq!["Actor"@, "GuestStar"@]);
    v
}

/// The category of items like a movie; none where its id cannot be read or
/// nothing is like it.
pub fn similar_category<T>(
    seed_id: &str,
    seed_name: Option<String>,
    recommendation_type: RecommendationType,
    items: Vec<T>,
) -> (r: Option<SimilarItemsRecommendation<T>>)
    ensures
        match r {
            Some(c) => {
                &&& guid_in(seed_id@) == Some(c.category_id)
                &&& items@.len() > 0
                &&& c.baseline_item_name@ == match opt_text(seed_name) {
                    Some(name) => name,
                    None => Seq::empty(),
                }
                &&& c.recommendation_type == recommendation_type
                &&& c.items == items
            },
            None => guid_in(seed_id@) is None || items@.len() == 0,
        },
{
    let category_id: Guid = match parse_guid(seed_id) {
        Some(id) => id,
        None => {
            return None;
        },
    };
    if items.len() == 0 {
        return None;
    }
    let baseline_item_name: String = match seed_name {
        Some(name) => name,
        None => String::new(),
    };
    Some(SimilarItemsRecommendation { baseline_item_name, category_id, recommendation_type, items })
}

/// The category of a person's movies; none where there is no movie.
pub fn person_category<T>(
    name: &str,
    category_id: Guid,
    recommendation_type: RecommendationType,
    items: Vec<T>,
) -> (r: Option<SimilarItemsRecommendation<T>>)
    ensures
        match r {
            Some(c) => {
                &&& items@.len() > 0
                &&& c.baseline_item_name@ == name@
                &&& c.category_id == category_id
                &&& c.recommendation_type == recommendation_type
                &&& c.items == items
            },
            None => items@.len() == 0,
        },
{
    if items.len() == 0 {
        return None;
    }
    Some(
        SimilarItemsRecommendation {
            baseline_item_name: name.to_owned(),
            category_id,
            recommendation_type,
            items,
        },
    )
}

// ---------------------------------------------------------------------------
// Merging the categories
// ---------------------------------------------------------------------------
/// The four streams merged in turn: two of the first, two of the second, one of
/// the third and one of the fourth, as far as each reaches, and so on.
pub open spec fn merged<T>(a: Seq<T>, b: Seq<T>, c: Seq<T>, d: Seq<T>) -> Seq<T>
    decreases a.len() + b.len() + c.len() + d.len(),
{
    if a.len() + b.len() + c.len() + d.len() == 0 {
        Seq::empty()
    } else {
        front(a, 2) + front(b, 2) + front(c, 1) + front(d, 1) + merged(
            rest(a, 2),
            rest(b, 2),
            rest(c, 1),
            rest(d, 1),
        )
    }
}

/// The place of a type among the types.
pub open spec fn rank(t: RecommendationType) -> int {
    match t {
        RecommendationType::SimilarToRecentlyPlayed => 0,
        RecommendationType::SimilarToLikedItem => 1,
        RecommendationType::HasDirectorFromRecentlyPlayed => 2,
        RecommendationType::HasActorFromRecentlyPlayed => 3,
    }
}

/// The order by type.
pub open spec fn by_type<T>() -> spec_fn(
    SimilarItemsRecommendation<T>,
    SimilarItemsRecommendation<T>,
) -> bool {
    |x: SimilarItemsRecommendation<T>, y: SimilarItemsRecommendation<T>|
        rank(x.recommendation_type) < rank(y.recommendation_type)
}

/// The place of a type among the types.
fn type_rank(t: RecommendationType) -> (r: u8)
    ensures
        r == rank(t),
{
    match t {
        RecommendationType::SimilarToRecentlyPlayed => 0,
        RecommendationType::SimilarToLikedItem => 1,
        RecommendationType::HasDirectorFromRecentlyPlayed => 2,
        RecommendationType::HasActorFromRecentlyPlayed => 3,
    }
}

/// Merges the four streams in turn, keeps the first `cat_limit` categories, and
/// orders those by type; categories of one type stay in the order in which they
/// came.
pub fn round_robin_categories<T>(
    similar_to_played: Vec<SimilarItemsRecommendation<T>>,
    similar_to_liked: Vec<SimilarItemsRecommendation<T>>,
    has_director: Vec<SimilarItemsRecommendation<T>>,
    has_actor: Vec<SimilarItemsRecommendation<T>>,
    cat_limit: usize,
) -> (r: Vec<SimilarItemsRecommendation<T>>)
    ensures
        r@ == sorted(
            front(
                merged(
                    similar_to_played@,
                    similar_to_liked@,
                    has_director@,
                    has_actor@,
                ),
                cat_limit as int,
            ),
            by_type::<T>(),
        ),
{
    let ghost all = merged(similar_to_played@, similar_to_liked@, has_director@, has_actor@);
    let mut a: Vec<SimilarItemsRecommendation<T>> = similar_to_played;
    let mut b: Vec<SimilarItemsRecommendation<T>> = similar_to_liked;
    let mut c: Vec<SimilarItemsRecommendation<T>> = has_director;
    let mut d: Vec<SimilarItemsRecommendation<T>> = has_actor;
    let mut out: Vec<SimilarItemsRecommendation<T>> = Vec::new();
    assert(all =~= out@ + merged(a@, b@, c@, d@));
    while out.len() < cat_limit && (a.len() > 0 || b.len() > 0 || c.len() > 0 || d.len() > 0)
        invariant
            all == out@ + merged(a@, b@, c@, d@),
        decreases a@.len() + b@.len() + c@.len() + d@.len(),
    {
        let ghost (a0, b0, c0, d0, before) = (a@, b@, c@, d@, out@);
        move_front(&mut a, 2, &mut out);
        move_front(&mut b, 2, &mut out);
        move_front(&mut c, 1, &mut out);
        move_front(&mut d, 1, &mut out);
        assert(out@ + merged(a@, b@, c@, d@) =~= before + merged(a0, b0, c0, d0));
    }
    if out.len() >= cat_limit {
        out.truncate(cat_limit);
        assert(out@ =~= front(all, cat_limit as int));
    } else {
        assert(merged(a@, b@, c@, d@) =~= Seq::empty());
        assert(out@ =~= front(all, cat_limit as int));
    }
    let ghost less = by_type::<T>();
    let before = |x: &SimilarItemsRecommendation<T>, y: &SimilarItemsRecommendation<T>| -> (q: bool)
        ensures
            q == (rank(x.recommendation_type) < rank(y.recommendation_type)),
        { type_rank(x.recommendation_type) < type_rank(y.recommendation_type) };
    sort_by(out, before, Ghost(less))
}

proof fn lemma_merged_len<T>(a: Seq<T>, b: Seq<T>, c: Seq<T>, d: Seq<T>)
    ensures
        merged(a, b, c, d).len() == a.len() + b.len() + c.len() + d.len(),
    decreases a.len() + b.len() + c.len() + d.len(),
{
    if a.len() + b.len() + c.len() + d.len() > 0 {
        lemma_merged_len(rest(a, 2), rest(b, 2), rest(c, 1), rest(d, 1));
    }
}

/// As many categories are recommended as there are, up to the limit, and those of
/// a type that is shown earlier come earlier.
pub proof fn law_recommendations_are_limited_and_ordered<T>(
    a: Seq<SimilarItemsRecommendation<T>>,
    b: Seq<SimilarItemsRecommendation<T>>,
    c: Seq<SimilarItemsRecommendation<T>>,
    d: Seq<SimilarItemsRecommendation<T>>,
    cat_limit: usize,
)
    ensures
        ({
            let r = sorted(front(merged(a, b, c, d), cat_limit as int), by_type::<T>());
            &&& r.len() == least(cat_limit as int, (a.len() + b.len() + c.len() + d.len()) as int)
            &&& r.to_multiset() == front(merged(a, b, c, d), cat_limit as int).to_multiset()
            &&& forall|i: int, j: int|
                0 <= i < j < r.len() ==> rank((#[trigger] r[i]).recommendation_type) <= rank(
                    (#[trigger] r[j]).recommendation_type,
                )
        }),
{
    lemma_merged_len(a, b, c, d);
    let s = front(merged(a, b, c, d), cat_limit as int);
    assert(is_order(by_type::<T>()));
    law_sorted(s, by_type::<T>());
    let r = sorted(s, by_type::<T>());
    assert(in_order(r, by_type::<T>()));
    assert forall|i: int, j: int| 0 <= i < j < r.len() implies rank(
        (#[trigger] r[i]).recommendation_type,
    ) <= rank((#[trigger] r[j]).recommendation_type) by {
        assert(!by_type::<T>()(r[j], r[i]));
    }
}

/// Seeds that the user played or liked count double: while all four streams last,
/// the first six categories are two of the first, two of the second, one of the
/// third and one of the fourth.
pub proof fn law_played_and_liked_count_double<T>(a: Seq<T>, b: Seq<T>, c: Seq<T>, d: Seq<T>)
    requires
        a.len() >= 2,
        b.len() >= 2,
        c.len() >= 1,
        d.len() >= 1,
    ensures
        front(merged(a, b, c, d), 6) == seq![a[0], a[1], b[0], b[1], c[0], d[0]],
{
    lemma_merged_len(a, b, c, d);
    assert(front(merged(a, b, c, d), 6) =~= seq![a[0], a[1], b[0], b[1], c[0], d[0]]);
}

// ---------------------------------------------------------------------------
// The recommendations
// ---------------------------------------------------------------------------
/// A movie that others are compared with, and the items like it.
#[derive(Debug, Clone)]
pub struct Seed<T> {
    pub id: String,
    pub name: Option<String>,
    pub items: Vec<T>,
}

/// A person, the category that their movies stand in, and those movies.
#[derive(Debug, Clone)]
pub struct PersonMovies<T> {
    pub name: String,
    pub category_id: Guid,
    pub items: Vec<T>,
}

/// Where the seeds stand that give a category: those with a readable id and with
/// items like them.
pub open spec fn seed_places<T>(seeds: Seq<Seed<T>>) -> Seq<int>
    decreases seeds.len(),
{
    if seeds.len() == 0 {
        Seq::empty()
    } else if guid_in(seeds.last().id@) is Some && seeds.last().items@.len() > 0 {
        seed_places(seeds.drop_last()).push(seeds.len() - 1)
    } else {
        seed_places(seeds.drop_last())
    }
}

/// Whether a category is that of a seed.
pub open spec fn is_seed_category<T>(
    c: SimilarItemsRecommendation<T>,
    seed: Seed<T>,
    kind: RecommendationType,
) -> bool {
    &&& Some(c.category_id) == guid_in(seed.id@)
    &&& c.baseline_item_name@ == match opt_text(seed.name) {
        Some(name) => name,
        None => Seq::empty(),
    }
    &&& c.recommendation_type == kind
    &&& c.items == seed.items
}

/// Whether the categories are those of the seeds, in their order.
pub open spec fn are_seed_categories<T>(
    r: Seq<SimilarItemsRecommendation<T>>,
    seeds: Seq<Seed<T>>,
    kind: RecommendationType,
) -> bool {
    &&& r.len() == seed_places(seeds).len()
    &&& forall|i: int|
        0 <= i < r.len() ==> is_seed_category(
            #[trigger] r[i],
            seeds[seed_places(seeds)[i]],
            kind,
        )
}

/// Where the people stand that give a category: those with movies.
pub open spec fn person_places<T>(people: Seq<PersonMovies<T>>) -> Seq<int>
    decreases people.len(),
{
    if people.len() == 0 {
        Seq::empty()
    } else if people.last().items@.len() > 0 {
        person_places(people.drop_last()).push(people.len() - 1)
    } else {
        person_places(people.drop_last())
    }
}

/// Whether a category is that of a person.
pub open spec fn is_person_category<T>(
    c: SimilarItemsRecommendation<T>,
    person: PersonMovies<T>,
    kind: RecommendationType,
) -> bool {
    &&& c.category_id == person.category_id
    &&& c.baseline_item_name@ == person.name@
    &&& c.recommendation_type == kind
    &&& c.items == person.items
}

/// Whether the categories are those of the people, in their order.
pub open spec fn are_person_categories<T>(
    r: Seq<SimilarItemsRecommendation<T>>,
    people: Seq<PersonMovies<T>>,
    kind: RecommendationType,
) -> bool {
    &&& r.len() == person_places(people).len()
    &&& forall|i: int|
        0 <= i < r.len() ==> is_person_category(
            #[trigger] r[i],
            people[person_places(people)[i]],
            kind,
        )
}

proof fn lemma_seed_places<T>(seeds: Seq<Seed<T>>)
    ensures
        forall|i: int|
            0 <= i < seed_places(seeds).len() ==> 0 <= #[trigger] seed_places(seeds)[i]
                < seeds.len(),
    decreases seeds.len(),
{
    if seeds.len() > 0 {
        let before = seed_places(seeds.drop_last());
        lemma_seed_places(seeds.drop_last());
        assert forall|i: int| 0 <= i < seed_places(seeds).len() implies 0 <= #[trigger] seed_places(seeds)[i]
            < seeds.len() by {
            if i < before.len() {
                assert(0 <= before[i] < seeds.len());
            }
        }
    }
}

proof fn lemma_person_places<T>(people: Seq<PersonMovies<T>>)
    ensures
        forall|i: int|
            0 <= i < person_places(people).len() ==> 0 <= #[trigger] person_places(people)[i]
                < people.len(),
    decreases people.len(),
{
    if people.len() > 0 {
        let before = person_places(people.drop_last());
        lemma_person_places(people.drop_last());
        assert forall|i: int| 0 <= i < person_places(people).len() implies 0 <= #[trigger] person_places(people)[i]
            < people.len() by {
            if i < before.len() {
                assert(0 <= before[i] < people.len());
            }
        }
    }
}

/// The categories of the first `cat_limit` seeds.
pub fn seed_categories<T>(seeds: Vec<Seed<T>>, kind: RecommendationType, cat_limit: usize) -> (r:
    Vec<SimilarItemsRecommendation<T>>)
    ensures
        are_seed_categories(r@, front(seeds@, cat_limit as int), kind),
{
    let ghost all = front(seeds@, cat_limit as int);
    let mut left: Vec<Seed<T>> = seeds;
    left.truncate(cat_limit);
    assert(left@ =~= all);
    let mut out: Vec<SimilarItemsRecommendation<T>> = Vec::new();
    let ghost mut done: int = 0;
    while left.len() > 0
        invariant
            0 <= done <= all.len(),
            left@ == all.skip(done),
            are_seed_categories(out@, all.take(done), kind),
        decreases left.len(),
    {
        let ghost before = out@;
        let seed: Seed<T> = left.remove(0);
        proof {
            assert(seed == all[done]);
            assert(all.take(done + 1).drop_last() =~= all.take(done));
            assert(all.take(done + 1).last() == all[done]);
            assert(left@ =~= all.skip(done + 1));
            lemma_seed_places(all.take(done));
        }
        if let Some(c) = similar_category(seed.id.as_str(), seed.name, kind, seed.items) {
            out.push(c);
        }
        proof {
            assert forall|i: int| 0 <= i < out@.len() implies is_seed_category(
                #[trigger] out@[i],
                all.take(done + 1)[seed_places(all.take(done + 1))[i]],
                kind,
            ) by {
                if i < before.len() {
                    assert(is_seed_category(
                        before[i],
                        all.take(done)[seed_places(all.take(done))[i]],
                        kind,
                    ));
                }
            }
            done = done + 1;
        }
    }
    assert(all.take(done) =~= all);
    out
}

/// The categories of people.
pub fn person_categories<T>(people: Vec<PersonMovies<T>>, kind: RecommendationType) -> (r: Vec<
    SimilarItemsRecommendation<T>,
>)
    ensures
        are_person_categories(r@, people@, kind),
{
    let ghost all = people@;
    let mut left: Vec<PersonMovies<T>> = people;
    let mut out: Vec<SimilarItemsRecommendation<T>> = Vec::new();
    let ghost mut done: int = 0;
    assert(left@ =~= all.skip(0));
    while left.len() > 0
        invariant
            0 <= done <= all.len(),
            left@ == all.skip(done),
            are_person_categories(out@, all.take(done), kind),
        decreases left.len(),
    {
        let ghost before = out@;
        let person: PersonMovies<T> = left.remove(0);
        proof {
            assert(person == all[done]);
            assert(all.take(done + 1).drop_last() =~= all.take(done));
            assert(all.take(done + 1).last() == all[done]);
            assert(left@ =~= all.skip(done + 1));
            lemma_person_places(all.take(done));
        }
        if let Some(c) = person_category(
            person.name.as_str(),
            person.category_id,
            kind,
            person.items,
        ) {
            out.push(c);
        }
        proof {
            assert forall|i: int| 0 <= i < out@.len() implies is_person_category(
                #[trigger] out@[i],
                all.take(done + 1)[person_places(all.take(done + 1))[i]],
                kind,
            ) by {
                if i < before.len() {
                    assert(is_person_category(
                        before[i],
                        all.take(done)[person_places(all.take(done))[i]],
                        kind,
                    ));
                }
            }
            done = done + 1;
        }
    }
    assert(all.take(done) =~= all);
    out
}

/// Whether these are the recommendations for what was found: the categories of the
/// first seeds and of the people, merged in turn, cut off and ordered by type.
pub open spec fn are_recommendations<T>(
    r: Seq<SimilarItemsRecommendation<T>>,
    played: Seq<Seed<T>>,
    liked: Seq<Seed<T>>,
    directors: Seq<PersonMovies<T>>,
    actors: Seq<PersonMovies<T>>,
    cat_limit: int,
) -> bool {
    exists|
        a: Seq<SimilarItemsRecommendation<T>>,
        b: Seq<SimilarItemsRecommendation<T>>,
        c: Seq<SimilarItemsRecommendation<T>>,
        d: Seq<SimilarItemsRecommendation<T>>,
    |
        {
            &&& are_seed_categories(
                a,
                front(played, cat_limit),
                RecommendationType::SimilarToRecentlyPlayed,
            )
            &&& are_seed_categories(
                b,
                front(liked, cat_limit),
                RecommendationType::SimilarToLikedItem,
            )
            &&& are_person_categories(
                c,
                directors,
                RecommendationType::HasDirectorFromRecentlyPlayed,
            )
            &&& are_person_categories(d, actors, RecommendationType::HasActorFromRecentlyPlayed)
            &&& r == sorted(front(#[trigger] merged(a, b, c, d), cat_limit), by_type::<T>())
        }
}

/// The movies to recommend, out of what was found for the movies that a user
/// played and liked and for the people behind them.
pub fn movie_recommendations<T>(
    played: Vec<Seed<T>>,
    liked: Vec<Seed<T>>,
    directors: Vec<PersonMovies<T>>,
    actors: Vec<PersonMovies<T>>,
    cat_limit: usize,
) -> (r: Vec<SimilarItemsRecommendation<T>>)
    ensures
        are_recommendations(r@, played@, liked@, directors@, actors@, cat_limit as int),
{
    let a: Vec<SimilarItemsRecommendation<T>> = seed_categories(
        played,
        RecommendationType::SimilarToRecentlyPlayed,
        cat_limit,
    );
    let b: Vec<SimilarItemsRecommendation<T>> = seed_categories(
        liked,
        RecommendationType::SimilarToLikedItem,
        cat_limit,
    );
    let c: Vec<SimilarItemsRecommendation<T>> = person_categories(
        directors,
        RecommendationType::HasDirectorFromRecentlyPlayed,
    );
    let d: Vec<SimilarItemsRecommendation<T>> = person_categories(
        actors,
        RecommendationType::HasActorFromRecentlyPlayed,
    );
    round_robin_categories(a, b, c, d, cat_limit)
}

/// Where nothing was played or liked and nobody stands behind it, nothing is
/// recommended.
pub proof fn law_no_history_no_recommendations<T>(
    r: Seq<SimilarItemsRecommendation<T>>,
    cat_limit: nat,
)
    requires
        are_recommendations(
            r,
            Seq::empty(),
            Seq::empty(),
            Seq::empty(),
            Seq::empty(),
            cat_limit as int,
        ),
    ensures
        r.len() == 0,
{
    let none = Seq::<Seed<T>>::empty();
    assert(front(none, cat_limit as int) =~= none);
    let (a, b, c, d) = choose|
        a: Seq<SimilarItemsRecommendation<T>>,
        b: Seq<SimilarItemsRecommendation<T>>,
        c: Seq<SimilarItemsRecommendation<T>>,
        d: Seq<SimilarItemsRecommendation<T>>,
    |
        {
            &&& are_seed_categories(
                a,
                front(none, cat_limit as int),
                RecommendationType::SimilarToRecentlyPlayed,
            )
            &&& are_seed_categories(
                b,
                front(none, cat_limit as int),
                RecommendationType::SimilarToLikedItem,
            )
            &&& are_person_categories(
                c,
                Seq::empty(),
                RecommendationType::HasDirectorFromRecentlyPlayed,
            )
            &&& are_person_categories(
                d,
                Seq::empty(),
                RecommendationType::HasActorFromRecentlyPlayed,
            )
            &&& r == sorted(front(#[trigger] merged(a, b, c, d), cat_limit as int), by_type::<T>())
        };
    lemma_merged_len(a, b, c, d);
    assert(front(merged(a, b, c, d), cat_limit as int) =~= Seq::empty());
    law_sorted(front(merged(a, b, c, d), cat_limit as int), by_type::<T>());
}

} // verus!
