//! Which episode of a series a user should watch next.
//!
//! The rows come from a handful of statements. `BatchQueries` holds those that
//! are known at the start; the rows of chosen episodes are fetched by
//! `episodes_by_ids_query`, once for the last watched ones and once for the next
//! ones. The module `next_up_batch` puts the answers together.
use vstd::prelude::*;

use crate::guid::{guid_in, parse_guid, Guid};
use crate::item_type_lookup::ItemTypeNames;
use crate::model::BaseItemKind;
use crate::service_error::{ErrorView, ServiceError};
use crate::sql::{
    copy_text, give, give_all, plain_guid_binds, plain_guid_values, say, text_binds,
    text_values, BindValue, BindView, Sql, SqlBuilder,
};
use crate::table::{group_of, lemma_same_keys, lemma_table_entry, Table};
use crate::text::{opt_text, texts};
use crate::time::Timestamp;
use crate::translate_query::PLACEHOLDER_ID;

verus! {

// ---------------------------------------------------------------------------
// Rows
// ---------------------------------------------------------------------------
/// Whether a statement asks for episodes that the user has played, or for those
/// that they have not.
#[derive(Debug, Clone, Copy, PartialEq, Eq, Structural)]
pub enum Played {
    Only,
    Not,
}

/// An episode's id with its season and episode number.
#[derive(Debug, Clone, Copy, PartialEq, Eq, Structural)]
pub struct EpisodePos {
    pub id: Guid,
    pub season: Option<i64>,
    pub episode: Option<i64>,
}

/// A row of a position statement: the series key, the stored id, and the numbers.
#[derive(Debug, Clone)]
pub struct PositionRow {
    pub key: String,
    pub id: String,
    pub season: Option<i64>,
    pub episode: Option<i64>,
}

/// A series key and the stored id of one of the series' episodes.
#[derive(Debug, Clone)]
pub struct WatchedRow {
    pub key: String,
    pub id: String,
}

/// What next-up reads of an episode's row.
#[derive(Debug, Clone)]
pub struct EpisodeRow {
    pub id: String,
    pub series_key: Option<String>,
    pub season: Option<i64>,
    pub episode: Option<i64>,
}

/// What an episode's row stands for.
pub struct RowView {
    pub id: Seq<char>,
    pub series_key: Option<Seq<char>>,
    pub season: Option<i64>,
    pub episode: Option<i64>,
}

impl View for EpisodeRow {
    type V = RowView;

    open spec fn view(&self) -> RowView {
        RowView {
            id: self.id@,
            series_key: opt_text(self.series_key),
            season: self.season,
            episode: self.episode,
        }
    }
}

/// What a list of rows stands for.
pub open spec fn row_views(v: Seq<EpisodeRow>) -> Seq<RowView> {
    Seq::new(v.len(), |i: int| v[i]@)
}

impl EpisodeRow {
    /// The same row once more.
    pub fn duplicate(&self) -> (r: Self)
        ensures
            r@ == self@,
    {
        EpisodeRow {
            id: self.id.clone(),
            series_key: copy_text(&self.series_key),
            season: self.season,
            episode: self.episode,
        }
    }
}

/// The same rows once more.
pub fn duplicate_rows(v: &[EpisodeRow]) -> (r: Vec<EpisodeRow>)
    ensures
        row_views(r@) == row_views(v@),
{
    let mut out: Vec<EpisodeRow> = Vec::new();
    let mut i: usize = 0;
    while i < v.len()
        invariant
            i <= v.len(),
            out@.len() == i,
            forall|j: int| 0 <= j < i ==> (#[trigger] out@[j])@ == v@[j]@,
        decreases v.len() - i,
    {
        out.push(v[i].duplicate());
        i += 1;
    }
    assert(row_views(out@) =~= row_views(v@));
    out
}

// ---------------------------------------------------------------------------
// The order of episodes
// ---------------------------------------------------------------------------
/// The number, or the least one where there is none.
pub open spec fn or_least(n: Option<i64>) -> i64 {
    match n {
        Some(v) => v,
        None => i64::MIN,
    }
}

/// What an episode is ordered by: its season, and then its number. A missing
/// number comes before all others.
pub open spec fn key_of(p: EpisodePos) -> (i64, i64) {
    (or_least(p.season), or_least(p.episode))
}

/// Whether the position `a` comes before the position `b`.
pub open spec fn earlier(a: (i64, i64), b: (i64, i64)) -> bool {
    a.0 < b.0 || (a.0 == b.0 && a.1 < b.1)
}

/// Where the last of the highest positions stands in a list that is not empty.
pub open spec fn highest_index(ps: Seq<EpisodePos>) -> int
    decreases ps.len(),
{
    if ps.len() <= 1 {
        0
    } else {
        let h = highest_index(ps.drop_last());
        if earlier(key_of(ps.last()), key_of(ps[h])) {
            h
        } else {
            ps.len() - 1
        }
    }
}

/// The id of the highest-numbered episode.
pub open spec fn highest(ps: Seq<EpisodePos>) -> Option<Guid> {
    if ps.len() == 0 {
        None
    } else {
        Some(ps[highest_index(ps)].id)
    }
}

/// Whether an episode comes after a position; where there is no position, every
/// episode does.
pub open spec fn comes_after(p: EpisodePos, after: Option<(i64, i64)>) -> bool {
    match after {
        Some(a) => earlier(a, key_of(p)),
        None => true,
    }
}

/// Where the first of the lowest positions after `after` stands.
pub open spec fn next_index(ps: Seq<EpisodePos>, after: Option<(i64, i64)>) -> Option<int>
    decreases ps.len(),
{
    if ps.len() == 0 {
        None
    } else {
        match next_index(ps.drop_last(), after) {
            Some(n) => if comes_after(ps.last(), after) && earlier(key_of(ps.last()), key_of(ps[n])) {
                Some(ps.len() - 1)
            } else {
                Some(n)
            },
            None => if comes_after(ps.last(), after) {
                Some(ps.len() - 1)
            } else {
                None
            },
        }
    }
}

/// The id of the first episode after `after`.
pub open spec fn next_after(ps: Seq<EpisodePos>, after: Option<(i64, i64)>) -> Option<Guid> {
    match next_index(ps, after) {
        Some(n) => Some(ps[n].id),
        None => None,
    }
}

/// The last watched episode is one of the played ones, none of them comes after
/// it, and of those that share its number it is the last in the list.
pub proof fn law_highest_is_last(ps: Seq<EpisodePos>)
    requires
        ps.len() > 0,
    ensures
        0 <= highest_index(ps) < ps.len(),
        forall|j: int|
            0 <= j < ps.len() ==> !earlier(key_of(ps[highest_index(ps)]), key_of(#[trigger] ps[j])),
        forall|j: int|
            highest_index(ps) < j < ps.len() ==> earlier(
                key_of(#[trigger] ps[j]),
                key_of(ps[highest_index(ps)]),
            ),
    decreases ps.len(),
{
    if ps.len() > 1 {
        let head = ps.drop_last();
        law_highest_is_last(head);
        let h = highest_index(head);
        assert(forall|j: int| 0 <= j < head.len() ==> head[j] == ps[j]);
        assert forall|j: int| 0 <= j < ps.len() implies !earlier(
            key_of(ps[highest_index(ps)]),
            key_of(#[trigger] ps[j]),
        ) by {
            if j < head.len() {
                assert(!earlier(key_of(head[h]), key_of(head[j])));
            }
        }
        assert forall|j: int| highest_index(ps) < j < ps.len() implies earlier(
            key_of(#[trigger] ps[j]),
            key_of(ps[highest_index(ps)]),
        ) by {
            if j < head.len() {
                assert(earlier(key_of(head[j]), key_of(head[h])));
            }
        }
    }
}

/// The next episode is one of the candidates and comes after the position; no
/// candidate lies between, and there is a next episode as soon as one candidate
/// comes after the position.
pub proof fn law_next_comes_right_after(ps: Seq<EpisodePos>, after: Option<(i64, i64)>)
    ensures
        match next_index(ps, after) {
            Some(n) => {
                &&& 0 <= n < ps.len()
                &&& comes_after(ps[n], after)
                &&& forall|j: int|
                    0 <= j < ps.len() && comes_after(#[trigger] ps[j], after) ==> !earlier(
                        key_of(ps[j]),
                        key_of(ps[n]),
                    )
                &&& forall|j: int|
                    0 <= j < n && comes_after(#[trigger] ps[j], after) ==> earlier(
                        key_of(ps[n]),
                        key_of(ps[j]),
                    )
            },
            None => forall|j: int| 0 <= j < ps.len() ==> !comes_after(#[trigger] ps[j], after),
        },
    decreases ps.len(),
{
    if ps.len() > 0 {
        let head = ps.drop_last();
        law_next_comes_right_after(head, after);
        assert(forall|j: int| 0 <= j < head.len() ==> #[trigger] head[j] == ps[j]);
        match next_index(head, after) {
            Some(n) => {
                let m = next_index(ps, after)->0;
                assert(comes_after(head[n], after));
                assert forall|j: int|
                    0 <= j < ps.len() && comes_after(#[trigger] ps[j], after) implies !earlier(
                    key_of(ps[j]),
                    key_of(ps[m]),
                ) by {
                    if j < head.len() {
                        assert(!earlier(key_of(head[j]), key_of(head[n])));
                    }
                }
                assert forall|j: int|
                    0 <= j < m && comes_after(#[trigger] ps[j], after) implies earlier(
                    key_of(ps[m]),
                    key_of(ps[j]),
                ) by {
                    assert(!earlier(key_of(head[j]), key_of(head[n])));
                    if m == n {
                        assert(earlier(key_of(head[n]), key_of(head[j])));
                    }
                }
            },
            None => {
                assert forall|j: int| 0 <= j < head.len() implies !comes_after(#[trigger] ps[j], after) by {
                    assert(!comes_after(head[j], after));
                }
            },
        }
    }
}

/// What an episode is ordered by.
pub fn sort_key(season: Option<i64>, episode: Option<i64>) -> (r: (i64, i64))
    ensures
        r == (or_least(season), or_least(episode)),
{
    let s: i64 = match season {
        Some(v) => v,
        None => i64::MIN,
    };
    let e: i64 = match episode {
        Some(v) => v,
        None => i64::MIN,
    };
    (s, e)
}

fn is_earlier(a: (i64, i64), b: (i64, i64)) -> (r: bool)
    ensures
        r == earlier(a, b),
{
    a.0 < b.0 || (a.0 == b.0 && a.1 < b.1)
}

/// The season and episode number of a row that has both.
pub fn position_of(row: &EpisodeRow) -> (r: Option<(i64, i64)>)
    ensures
        r == row_position(row@),
{
    match (row.season, row.episode) {
        (Some(s), Some(e)) => Some((s, e)),
        _ => None,
    }
}

/// The season and episode number of a row that has both.
pub open spec fn row_position(row: RowView) -> Option<(i64, i64)> {
    match (row.season, row.episode) {
        (Some(s), Some(e)) => Some((s, e)),
        _ => None,
    }
}

/// The id of the highest-numbered episode.
pub fn highest_position(positions: &[EpisodePos]) -> (r: Option<Guid>)
    ensures
        r == highest(positions@),
{
    if positions.len() == 0 {
        return None;
    }
    let mut h: usize = 0;
    let mut i: usize = 1;
    while i < positions.len()
        invariant
            1 <= i <= positions.len(),
            h < i,
            h == highest_index(positions@.take(i as int)),
        decreases positions.len() - i,
    {
        assert(positions@.take(i + 1).drop_last() =~= positions@.take(i as int));
        let a: (i64, i64) = sort_key(positions[i].season, positions[i].episode);
        let b: (i64, i64) = sort_key(positions[h].season, positions[h].episode);
        if !is_earlier(a, b) {
            h = i;
        }
        i += 1;
    }
    assert(positions@.take(positions@.len() as int) =~= positions@);
    Some(positions[h].id)
}

/// The id of the first episode after `after`, in season and episode order; of the
/// very first one where `after` is `None`.
pub fn first_after(positions: &[EpisodePos], after: Option<(i64, i64)>) -> (r: Option<Guid>)
    ensures
        r == next_after(positions@, after),
{
    let mut best: Option<usize> = None;
    let mut i: usize = 0;
    while i < positions.len()
        invariant
            i <= positions.len(),
            match best {
                Some(b) => b < i && next_index(positions@.take(i as int), after) == Some(b as int),
                None => next_index(positions@.take(i as int), after) is None,
            },
        decreases positions.len() - i,
    {
        assert(positions@.take(i + 1).drop_last() =~= positions@.take(i as int));
        let k: (i64, i64) = sort_key(positions[i].season, positions[i].episode);
        let wanted: bool = match after {
            Some(a) => is_earlier(a, k),
            None => true,
        };
        if wanted {
            best = match best {
                Some(b) => {
                    if is_earlier(k, sort_key(positions[b].season, positions[b].episode)) {
                        Some(i)
                    } else {
                        Some(b)
                    }
                },
                None => Some(i),
            };
        }
        i += 1;
    }
    assert(positions@.take(positions@.len() as int) =~= positions@);
    match best {
        Some(b) => Some(positions[b].id),
        None => None,
    }
}

// ---------------------------------------------------------------------------
// Statements
// ---------------------------------------------------------------------------
/// `acc` and then the keys, or `NULL` where there is none.
pub open spec fn keys_sql(acc: Sql, keys: Seq<Seq<char>>) -> Sql {
    if keys.len() == 0 {
        say(acc, "NULL"@)
    } else {
        give_all(acc, text_values(keys))
    }
}

/// Appends the keys, or `NULL` where there is none.
pub fn push_key_placeholders(qb: &mut SqlBuilder, keys: &[String])
    ensures
        final(qb)@ == keys_sql(old(qb)@, texts(keys@)),
{
    if keys.len() == 0 {
        qb.push("NULL");
        return;
    }
    let values: Vec<BindValue> = text_binds(keys);
    qb.push_all(values.as_slice());
}

/// The statement for series by their most recent play, newest first.
pub open spec fn series_keys_sql(
    episode_type: Seq<char>,
    user_id: Seq<char>,
    top_parents: Seq<Guid>,
    cutoff: Timestamp,
) -> Sql {
    let a = give(
        say(
            Seq::empty(),
            r#"SELECT bi."SeriesPresentationUniqueKey" AS key, MAX(ud."LastPlayedDate") AS last_played FROM "BaseItems" bi JOIN "UserData" ud ON ud."ItemId" = bi."Id" WHERE bi."Type" = "#@,
        ),
        BindView::Text(episode_type),
    );
    let b = give(say(a, r#" AND ud."UserId" = "#@), BindView::Text(user_id));
    let c = give(say(b, r#" AND ud."ItemId" <> "#@), BindView::Text(PLACEHOLDER_ID@));
    let d = give_all(
        say(
            c,
            r#" AND bi."SeriesPresentationUniqueKey" IS NOT NULL AND bi."TopParentId" IN ("#@,
        ),
        plain_guid_values(top_parents),
    );
    say(
        give(
            say(
                d,
                r#") GROUP BY bi."SeriesPresentationUniqueKey" HAVING last_played IS NOT NULL AND last_played >= "#@,
            ),
            BindView::Time(cutoff),
        ),
        " ORDER BY last_played DESC"@,
    )
}

/// The statement for the positions of played or unplayed episodes.
pub open spec fn positions_sql(
    episode_type: Seq<char>,
    user_id: Seq<char>,
    keys: Seq<Seq<char>>,
    played: Played,
    real_only: bool,
) -> Sql {
    let a = give(
        say(
            Seq::empty(),
            r#"SELECT bi."SeriesPresentationUniqueKey", bi."Id", bi."ParentIndexNumber", bi."IndexNumber" FROM "BaseItems" bi WHERE bi."Type" = "#@,
        ),
        BindView::Text(episode_type),
    );
    let b = say(
        a,
        match played {
            Played::Only => {
                r#" AND bi."ParentIndexNumber" <> 0 AND EXISTS (SELECT 1 FROM "UserData" ud WHERE ud."ItemId" = bi."Id" AND ud."UserId" = "#@
            },
            Played::Not => {
                r#" AND bi."ParentIndexNumber" <> 0 AND NOT EXISTS (SELECT 1 FROM "UserData" ud WHERE ud."ItemId" = bi."Id" AND ud."UserId" = "#@
            },
        },
    );
    let c = say(give(b, BindView::Text(user_id)), r#" AND ud."Played" = 1)"#@);
    let d = if real_only {
        say(c, r#" AND bi."IsVirtualItem" = 0"#@)
    } else {
        c
    };
    say(keys_sql(say(d, r#" AND bi."SeriesPresentationUniqueKey" IN ("#@), keys), ")"@)
}

/// The statement for played episodes, the most recently played first.
pub open spec fn by_date_sql(
    episode_type: Seq<char>,
    user_id: Seq<char>,
    keys: Seq<Seq<char>>,
) -> Sql {
    let a = give(
        say(
            Seq::empty(),
            r#"SELECT bi."SeriesPresentationUniqueKey", bi."Id", ud."LastPlayedDate" FROM "BaseItems" bi JOIN "UserData" ud ON ud."ItemId" = bi."Id" WHERE bi."Type" = "#@,
        ),
        BindView::Text(episode_type),
    );
    let b = give(say(a, r#" AND ud."UserId" = "#@), BindView::Text(user_id));
    let c = give(
        say(b, r#" AND ud."Played" = 1 AND ud."ItemId" <> "#@),
        BindView::Text(PLACEHOLDER_ID@),
    );
    say(
        keys_sql(
            say(
                c,
                r#" AND bi."ParentIndexNumber" <> 0 AND bi."SeriesPresentationUniqueKey" IN ("#@,
            ),
            keys,
        ),
        r#") ORDER BY ud."LastPlayedDate" DESC"#@,
    )
}

/// The statement for the specials of series: season zero, not virtual.
pub open spec fn specials_sql(episode_type: Seq<char>, keys: Seq<Seq<char>>) -> Sql {
    let a = give(
        say(Seq::empty(), r#"SELECT * FROM "BaseItems" WHERE "Type" = "#@),
        BindView::Text(episode_type),
    );
    say(
        keys_sql(
            say(
                a,
                r#" AND "ParentIndexNumber" = 0 AND "IsVirtualItem" = 0 AND "SeriesPresentationUniqueKey" IN ("#@,
            ),
            keys,
        ),
        ")"@,
    )
}

/// The statement for the rows of the given episodes.
pub open spec fn episodes_sql(ids: Seq<Guid>) -> Sql {
    say(
        give_all(
            say(Seq::empty(), r#"SELECT * FROM "BaseItems" WHERE "Id" IN ("#@),
            plain_guid_values(ids),
        ),
        ")"@,
    )
}

fn build_series_keys_query(
    episode_type: &str,
    user_id: &str,
    top_parents: &[Guid],
    cutoff: Timestamp,
) -> (r: SqlBuilder)
    ensures
        r@ == series_keys_sql(episode_type@, user_id@, top_parents@, cutoff),
{
    let mut qb: SqlBuilder = SqlBuilder::empty();
    qb.push(
        r#"SELECT bi."SeriesPresentationUniqueKey" AS key, MAX(ud."LastPlayedDate") AS last_played FROM "BaseItems" bi JOIN "UserData" ud ON ud."ItemId" = bi."Id" WHERE bi."Type" = "#,
    );
    qb.push_text(episode_type);
    qb.push(r#" AND ud."UserId" = "#);
    qb.push_text(user_id);
    qb.push(r#" AND ud."ItemId" <> "#);
    qb.push_text(PLACEHOLDER_ID);
    qb.push(r#" AND bi."SeriesPresentationUniqueKey" IS NOT NULL AND bi."TopParentId" IN ("#);
    let parents: Vec<BindValue> = plain_guid_binds(top_parents);
    qb.push_all(parents.as_slice());
    qb.push(
        r#") GROUP BY bi."SeriesPresentationUniqueKey" HAVING last_played IS NOT NULL AND last_played >= "#,
    );
    qb.push_bind(BindValue::Time(cutoff));
    qb.push(" ORDER BY last_played DESC");
    qb
}

/// The statement for the positions of played or unplayed episodes.
pub fn episode_positions_query(
    episode_type: &str,
    user_id: &str,
    series_keys: &[String],
    played: Played,
    real_only: bool,
) -> (r: SqlBuilder)
    ensures
        r@ == positions_sql(episode_type@, user_id@, texts(series_keys@), played, real_only),
{
    let mut qb: SqlBuilder = SqlBuilder::empty();
    qb.push(
        r#"SELECT bi."SeriesPresentationUniqueKey", bi."Id", bi."ParentIndexNumber", bi."IndexNumber" FROM "BaseItems" bi WHERE bi."Type" = "#,
    );
    qb.push_text(episode_type);
    match played {
        Played::Only => qb.push(
            r#" AND bi."ParentIndexNumber" <> 0 AND EXISTS (SELECT 1 FROM "UserData" ud WHERE ud."ItemId" = bi."Id" AND ud."UserId" = "#,
        ),
        Played::Not => qb.push(
            r#" AND bi."ParentIndexNumber" <> 0 AND NOT EXISTS (SELECT 1 FROM "UserData" ud WHERE ud."ItemId" = bi."Id" AND ud."UserId" = "#,
        ),
    }
    qb.push_text(user_id);
    qb.push(r#" AND ud."Played" = 1)"#);
    if real_only {
        qb.push(r#" AND bi."IsVirtualItem" = 0"#);
    }
    qb.push(r#" AND bi."SeriesPresentationUniqueKey" IN ("#);
    push_key_placeholders(&mut qb, series_keys);
    qb.push(")");
    qb
}

/// The statement for played episodes, the most recently played first.
pub fn last_watched_by_play_date_query(
    episode_type: &str,
    user_id: &str,
    series_keys: &[String],
) -> (r: SqlBuilder)
    ensures
        r@ == by_date_sql(episode_type@, user_id@, texts(series_keys@)),
{
    let mut qb: SqlBuilder = SqlBuilder::empty();
    qb.push(
        r#"SELECT bi."SeriesPresentationUniqueKey", bi."Id", ud."LastPlayedDate" FROM "BaseItems" bi JOIN "UserData" ud ON ud."ItemId" = bi."Id" WHERE bi."Type" = "#,
    );
    qb.push_text(episode_type);
    qb.push(r#" AND ud."UserId" = "#);
    qb.push_text(user_id);
    qb.push(r#" AND ud."Played" = 1 AND ud."ItemId" <> "#);
    qb.push_text(PLACEHOLDER_ID);
    qb.push(r#" AND bi."ParentIndexNumber" <> 0 AND bi."SeriesPresentationUniqueKey" IN ("#);
    push_key_placeholders(&mut qb, series_keys);
    qb.push(r#") ORDER BY ud."LastPlayedDate" DESC"#);
    qb
}

/// The statement for the specials of series.
pub fn specials_query(episode_type: &str, series_keys: &[String]) -> (r: SqlBuilder)
    ensures
        r@ == specials_sql(episode_type@, texts(series_keys@)),
{
    let mut qb: SqlBuilder = SqlBuilder::empty();
    qb.push(r#"SELECT * FROM "BaseItems" WHERE "Type" = "#);
    qb.push_text(episode_type);
    qb.push(
        r#" AND "ParentIndexNumber" = 0 AND "IsVirtualItem" = 0 AND "SeriesPresentationUniqueKey" IN ("#,
    );
    push_key_placeholders(&mut qb, series_keys);
    qb.push(")");
    qb
}

/// The statement for the rows of the given episodes; none where no id is given.
pub fn episodes_by_ids_query(ids: &[Guid]) -> (r: Option<SqlBuilder>)
    ensures
        match r {
            Some(qb) => ids@.len() > 0 && qb@ == episodes_sql(ids@),
            None => ids@.len() == 0,
        },
{
    if ids.len() == 0 {
        return None;
    }
    let mut qb: SqlBuilder = SqlBuilder::empty();
    qb.push(r#"SELECT * FROM "BaseItems" WHERE "Id" IN ("#);
    let values: Vec<BindValue> = plain_guid_binds(ids);
    qb.push_all(values.as_slice());
    qb.push(")");
    Some(qb)
}

/// The stored type name of episodes.
fn episode_type(names: &ItemTypeNames) -> (r: Result<String, ServiceError>)
    ensures
        match r {
            Ok(name) => names.name_of(BaseItemKind::Episode) == Some(name@),
            Err(e) => names.name_of(BaseItemKind::Episode) is None && e@ == ErrorView::Backend(
                "no stored type name for Episode"@,
            ),
        },
{
    match names.stored_type_name(BaseItemKind::Episode) {
        Some(name) => Ok(name),
        None => Err(ServiceError::Backend("no stored type name for Episode".to_owned())),
    }
}

/// The statement that finds the series with something to watch next. There is
/// none where no library is asked for; without a user, or without a type name for
/// episodes, the request fails.
pub fn next_up_series_query(
    user_id: Option<&str>,
    top_parent_ids: &[Guid],
    cutoff: Timestamp,
    names: &ItemTypeNames,
) -> (r: Result<Option<SqlBuilder>, ServiceError>)
    ensures
        match r {
            Ok(None) => user_id is Some && top_parent_ids@.len() == 0,
            Ok(Some(qb)) => {
                &&& user_id is Some
                &&& top_parent_ids@.len() > 0
                &&& names.name_of(BaseItemKind::Episode) is Some
                &&& qb@ == series_keys_sql(
                    names.name_of(BaseItemKind::Episode)->0,
                    user_id->0@,
                    top_parent_ids@,
                    cutoff,
                )
            },
            Err(e) => if user_id is None {
                e@ == ErrorView::InvalidInput("next-up requires a user"@)
            } else {
                top_parent_ids@.len() > 0 && names.name_of(BaseItemKind::Episode) is None && e@
                    == ErrorView::Backend("no stored type name for Episode"@)
            },
        },
{
    let user: &str = match user_id {
        Some(user) => user,
        None => {
            return Err(ServiceError::InvalidInput("next-up requires a user".to_owned()));
        },
    };
    if top_parent_ids.len() == 0 {
        return Ok(None);
    }
    match episode_type(names) {
        Ok(kind) => Ok(
            Some(build_series_keys_query(kind.as_str(), user, top_parent_ids, cutoff)),
        ),
        Err(e) => Err(e),
    }
}

/// The first of the series keys, as many as the limit says. A negative limit is
/// none.
pub fn limit_series_keys(keys: Vec<String>, limit: Option<i32>) -> (r: Vec<String>)
    ensures
        r@ == match limit {
            Some(n) => if 0 <= n < keys@.len() {
                keys@.take(n as int)
            } else {
                keys@
            },
            None => keys@,
        },
{
    let mut out: Vec<String> = keys;
    if let Some(n) = limit {
        if n >= 0 {
            out.truncate(n as usize);
        }
    }
    out
}

/// The statements of a batch that are known before anything is fetched.
#[derive(Debug, Clone)]
pub struct BatchQueries {
    /// The positions of what the user has played.
    pub played: SqlBuilder,
    /// What the user has played, by date: only for rewatching.
    pub by_date: Option<SqlBuilder>,
    /// The specials, where they are wanted.
    pub specials: Option<SqlBuilder>,
    /// The positions of what the user has not played.
    pub unplayed: SqlBuilder,
    /// The positions of what the user has played, without virtual episodes: only
    /// for rewatching.
    pub replayable: Option<SqlBuilder>,
}

/// The statement in `q`, if there is one.
pub open spec fn opt_sql(q: Option<SqlBuilder>) -> Option<Sql> {
    match q {
        Some(qb) => Some(qb@),
        None => None,
    }
}

impl BatchQueries {
    /// Whether these are the statements for the given series.
    pub open spec fn fits(
        &self,
        kind: Seq<char>,
        user: Seq<char>,
        keys: Seq<Seq<char>>,
        include_specials: bool,
        rewatching: bool,
    ) -> bool {
        &&& self.played@ == positions_sql(kind, user, keys, Played::Only, false)
        &&& opt_sql(self.by_date) == if rewatching {
            Some(by_date_sql(kind, user, keys))
        } else {
            None
        }
        &&& opt_sql(self.specials) == if include_specials {
            Some(specials_sql(kind, keys))
        } else {
            None
        }
        &&& self.unplayed@ == positions_sql(kind, user, keys, Played::Not, true)
        &&& opt_sql(self.replayable) == if rewatching {
            Some(positions_sql(kind, user, keys, Played::Only, true))
        } else {
            None
        }
    }
}

/// The statements of a batch. There are none where no series is asked for;
/// without a user, or without a type name for episodes, the request fails.
pub fn plan_batch(
    user_id: Option<&str>,
    series_keys: &[String],
    include_specials: bool,
    rewatching: bool,
    names: &ItemTypeNames,
) -> (r: Result<Option<BatchQueries>, ServiceError>)
    ensures
        match r {
            Ok(None) => user_id is Some && series_keys@.len() == 0,
            Ok(Some(q)) => {
                &&& user_id is Some
                &&& series_keys@.len() > 0
                &&& names.name_of(BaseItemKind::Episode) is Some
                &&& q.fits(
                    names.name_of(BaseItemKind::Episode)->0,
                    user_id->0@,
                    texts(series_keys@),
                    include_specials,
                    rewatching,
                )
            },
            Err(e) => if user_id is None {
                e@ == ErrorView::InvalidInput("next-up requires a user"@)
            } else {
                series_keys@.len() > 0 && names.name_of(BaseItemKind::Episode) is None && e@
                    == ErrorView::Backend("no stored type name for Episode"@)
            },
        },
{
    let user: &str = match user_id {
        Some(user) => user,
        None => {
            return Err(ServiceError::InvalidInput("next-up requires a user".to_owned()));
        },
    };
    if series_keys.len() == 0 {
        return Ok(None);
    }
    let kind: String = match episode_type(names) {
        Ok(kind) => kind,
        Err(e) => {
            return Err(e);
        },
    };
    let kind: &str = kind.as_str();
    Ok(
        Some(
            BatchQueries {
                played: episode_positions_query(kind, user, series_keys, Played::Only, false),
                by_date: if rewatching {
                    Some(last_watched_by_play_date_query(kind, user, series_keys))
                } else {
                    None
                },
                specials: if include_specials {
                    Some(specials_query(kind, series_keys))
                } else {
                    None
                },
                unplayed: episode_positions_query(kind, user, series_keys, Played::Not, true),
                replayable: if rewatching {
                    Some(episode_positions_query(kind, user, series_keys, Played::Only, true))
                } else {
                    None
                },
            },
        ),
    )
}

// ---------------------------------------------------------------------------
// What the rows say
// ---------------------------------------------------------------------------
/// The positions that the rows hold for a series, in their order. Rows whose id
/// cannot be read are left out.
pub open spec fn positions_for(rows: Seq<PositionRow>, key: Seq<char>) -> Seq<EpisodePos>
    decreases rows.len(),
{
    if rows.len() == 0 {
        Seq::empty()
    } else {
        let head = positions_for(rows.drop_last(), key);
        let row = rows.last();
        match guid_in(row.id@) {
            Some(id) => if row.key@ == key {
                head.push(EpisodePos { id, season: row.season, episode: row.episode })
            } else {
                head
            },
            None => head,
        }
    }
}

/// The positions of each series.
pub fn group_by_key(rows: &[PositionRow]) -> (r: Table<String, Vec<EpisodePos>>)
    ensures
        r.wf(),
        forall|key: Seq<char>| #[trigger]
            r@.contains_key(key) == (positions_for(rows@, key).len() > 0),
        forall|key: Seq<char>| #[trigger] group_of(r@, key) == positions_for(rows@, key),
{
    let mut map: Table<String, Vec<EpisodePos>> = Table::new();
    let mut i: usize = 0;
    while i < rows.len()
        invariant
            i <= rows.len(),
            map.wf(),
            forall|key: Seq<char>| #[trigger]
                map@.contains_key(key) == (positions_for(rows@.take(i as int), key).len() > 0),
            forall|key: Seq<char>| #[trigger]
                group_of(map@, key) == positions_for(rows@.take(i as int), key),
        decreases rows.len() - i,
    {
        assert(rows@.take(i + 1).drop_last() =~= rows@.take(i as int));
        assert(rows@.take(i + 1).last() == rows@[i as int]);
        let row: &PositionRow = &rows[i];
        if let Some(id) = parse_guid(row.id.as_str()) {
            map.push_into(
                row.key.clone(),
                EpisodePos { id, season: row.season, episode: row.episode },
            );
        }
        i += 1;
    }
    assert(rows@.take(rows@.len() as int) =~= rows@);
    map
}

/// The last watched episode of each series: the highest-numbered one of those
/// played.
pub fn last_watched_by_key(played: &[PositionRow]) -> (r: Table<String, Guid>)
    ensures
        r.wf(),
        forall|key: Seq<char>| #[trigger]
            r@.contains_key(key) == (positions_for(played@, key).len() > 0),
        forall|key: Seq<char>| #[trigger]
            r@.contains_key(key) ==> Some(r@[key]) == highest(positions_for(played@, key)),
{
    let groups: Table<String, Vec<EpisodePos>> = group_by_key(played);
    let mut out: Table<String, Guid> = Table { entries: Vec::new() };
    let mut i: usize = 0;
    while i < groups.entries.len()
        invariant
            i <= groups.entries.len(),
            groups.wf(),
            forall|key: Seq<char>| #[trigger]
                groups@.contains_key(key) == (positions_for(played@, key).len() > 0),
            forall|key: Seq<char>| #[trigger] group_of(groups@, key) == positions_for(played@, key),
            out.entries@.len() == i,
            forall|j: int|
                0 <= j < i ==> (#[trigger] out.entries@[j]).0@ == groups.entries@[j].0@ && Some(
                    out.entries@[j].1,
                ) == highest(positions_for(played@, groups.entries@[j].0@)),
        decreases groups.entries.len() - i,
    {
        proof {
            lemma_table_entry(groups, i as int);
            assert(group_of(groups@, groups.entries@[i as int].0@) == groups.entries@[i as int].1@);
        }
        if let Some(last) = highest_position(groups.entries[i].1.as_slice()) {
            out.entries.push((groups.entries[i].0.clone(), last));
        }
        i += 1;
    }
    proof {
        lemma_same_keys(groups, out);
        assert forall|key: Seq<char>| #[trigger] out@.contains_key(key) implies Some(out@[key])
            == highest(positions_for(played@, key)) by {
            let j = choose|j: int| out.at(j, key);
            assert(out.at(j, key));
            lemma_table_entry(out, j);
        }
    }
    out
}

/// The first id that the rows hold for a series and that can be read.
pub open spec fn newest_for(rows: Seq<WatchedRow>, key: Seq<char>) -> Option<Guid>
    decreases rows.len(),
{
    if rows.len() == 0 {
        None
    } else {
        match newest_for(rows.drop_last(), key) {
            Some(id) => Some(id),
            None => if rows.last().key@ == key {
                guid_in(rows.last().id@)
            } else {
                None
            },
        }
    }
}

/// The value for a key, if the map has one.
pub open spec fn at_key<K, V>(m: Map<K, V>, k: K) -> Option<V> {
    if m.contains_key(k) {
        Some(m[k])
    } else {
        None
    }
}

/// The most recently played episode of each series, where the rows come newest
/// first.
pub fn newest_by_key(rows: &[WatchedRow]) -> (r: Table<String, Guid>)
    ensures
        r.wf(),
        forall|key: Seq<char>| #[trigger] at_key(r@, key) == newest_for(rows@, key),
{
    let mut out: Table<String, Guid> = Table::new();
    let mut i: usize = 0;
    while i < rows.len()
        invariant
            i <= rows.len(),
            out.wf(),
            forall|key: Seq<char>| #[trigger]
                at_key(out@, key) == newest_for(rows@.take(i as int), key),
        decreases rows.len() - i,
    {
        assert(rows@.take(i + 1).drop_last() =~= rows@.take(i as int));
        assert(rows@.take(i + 1).last() == rows@[i as int]);
        let ghost before = out@;
        let row: &WatchedRow = &rows[i];
        if let Some(id) = parse_guid(row.id.as_str()) {
            if !out.contains(&row.key) {
                out.insert(row.key.clone(), id);
            }
        }
        assert forall|key: Seq<char>| #[trigger] at_key(out@, key) == newest_for(
            rows@.take(i + 1),
            key,
        ) by {
            assert(at_key(before, key) == newest_for(rows@.take(i as int), key));
        }
        i += 1;
    }
    assert(rows@.take(rows@.len() as int) =~= rows@);
    out
}

/// The rows of a series, in their order.
pub open spec fn rows_for(rows: Seq<RowView>, key: Seq<char>) -> Seq<RowView>
    decreases rows.len(),
{
    if rows.len() == 0 {
        Seq::empty()
    } else {
        let head = rows_for(rows.drop_last(), key);
        if rows.last().series_key == Some(key) {
            head.push(rows.last())
        } else {
            head
        }
    }
}

/// The specials of each series.
pub fn specials_by_key(rows: Vec<EpisodeRow>) -> (r: Table<String, Vec<EpisodeRow>>)
    ensures
        r.wf(),
        forall|key: Seq<char>|
            row_views(#[trigger] group_of(r@, key)) == rows_for(row_views(rows@), key),
{
    let ghost all = row_views(rows@);
    let mut out: Table<String, Vec<EpisodeRow>> = Table::new();
    let mut i: usize = 0;
    assert forall|key: Seq<char>| row_views(#[trigger] group_of(out@, key)) == rows_for(
        all.take(0),
        key,
    ) by {
        assert(row_views(group_of(out@, key)) =~= Seq::<RowView>::empty());
    }
    while i < rows.len()
        invariant
            i <= rows.len(),
            all == row_views(rows@),
            out.wf(),
            forall|key: Seq<char>|
                row_views(#[trigger] group_of(out@, key)) == rows_for(all.take(i as int), key),
        decreases rows.len() - i,
    {
        assert(all.take(i + 1).drop_last() =~= all.take(i as int));
        assert(all.take(i + 1).last() == rows@[i as int]@);
        let ghost before = out@;
        let ghost row = rows@[i as int]@;
        let copy: EpisodeRow = rows[i].duplicate();
        let ghost copied = copy;
        match copy_text(&rows[i].series_key) {
            Some(key) => {
                out.push_into(key, copy);
                assert forall|k: Seq<char>| row_views(#[trigger] group_of(out@, k)) == rows_for(
                    all.take(i + 1),
                    k,
                ) by {
                    let g = group_of(before, k);
                    assert(row_views(g) == rows_for(all.take(i as int), k));
                    if row.series_key == Some(k) {
                        assert(row_views(g.push(copied)) =~= row_views(g).push(row));
                    }
                }
            },
            None => {
                assert forall|k: Seq<char>| row_views(#[trigger] group_of(out@, k)) == rows_for(
                    all.take(i + 1),
                    k,
                ) by {
                    assert(row_views(group_of(before, k)) == rows_for(all.take(i as int), k));
                }
            },
        }
        i += 1;
    }
    assert(all.take(all.len() as int) =~= all);
    out
}

/// The row with the given id: the last one where there are several.
pub open spec fn row_with(rows: Seq<RowView>, id: Guid) -> Option<RowView>
    decreases rows.len(),
{
    if rows.len() == 0 {
        None
    } else if guid_in(rows.last().id) == Some(id) {
        Some(rows.last())
    } else {
        row_with(rows.drop_last(), id)
    }
}

/// The row for a key, if the table has one.
pub open spec fn row_at(m: Map<Guid, EpisodeRow>, id: Guid) -> Option<RowView> {
    if m.contains_key(id) {
        Some(m[id]@)
    } else {
        None
    }
}

/// The rows by their ids. Rows whose id cannot be read are left out.
pub fn rows_by_id(rows: Vec<EpisodeRow>) -> (r: Table<Guid, EpisodeRow>)
    ensures
        r.wf(),
        forall|id: Guid| #[trigger] row_at(r@, id) == row_with(row_views(rows@), id),
{
    let ghost all = row_views(rows@);
    let mut out: Table<Guid, EpisodeRow> = Table::new();
    let mut i: usize = 0;
    while i < rows.len()
        invariant
            i <= rows.len(),
            all == row_views(rows@),
            out.wf(),
            forall|id: Guid| #[trigger] row_at(out@, id) == row_with(all.take(i as int), id),
        decreases rows.len() - i,
    {
        assert(all.take(i + 1).drop_last() =~= all.take(i as int));
        assert(all.take(i + 1).last() == rows@[i as int]@);
        let ghost before = out@;
        if let Some(id) = parse_guid(rows[i].id.as_str()) {
            out.insert(id, rows[i].duplicate());
        }
        assert forall|id: Guid| #[trigger] row_at(out@, id) == row_with(all.take(i + 1), id) by {
            assert(row_at(before, id) == row_with(all.take(i as int), id));
        }
        i += 1;
    }
    assert(all.take(all.len() as int) =~= all);
    out
}

/// Whether an id is one of the table's values.
pub open spec fn is_value(m: Map<Seq<char>, Guid>, id: Guid) -> bool {
    exists|key: Seq<char>| #[trigger] m.contains_key(key) && m[key] == id
}

fn push_values(t: &Table<String, Guid>, out: &mut Vec<Guid>)
    requires
        t.wf(),
    ensures
        forall|id: Guid| #[trigger]
            final(out)@.contains(id) == (old(out)@.contains(id) || is_value(t@, id)),
{
    let ghost start = out@;
    let mut i: usize = 0;
    while i < t.entries.len()
        invariant
            i <= t.entries.len(),
            out@.len() == start.len() + i,
            forall|j: int| 0 <= j < start.len() ==> #[trigger] out@[j] == start[j],
            forall|j: int| 0 <= j < i ==> out@[start.len() + j] == (#[trigger] t.entries@[j]).1,
        decreases t.entries.len() - i,
    {
        out.push(t.entries[i].1);
        i += 1;
    }
    assert forall|id: Guid| #[trigger] out@.contains(id) == (start.contains(id) || is_value(t@, id)) by {
        if out@.contains(id) {
            let n = choose|n: int| 0 <= n < out@.len() && out@[n] == id;
            if n < start.len() {
                assert(start[n] == id);
            } else {
                let j = n - start.len();
                assert(out@[start.len() + j] == t.entries@[j].1);
                lemma_table_entry(*t, j);
                assert(t@.contains_key(t.entries@[j].0@));
            }
        }
        if start.contains(id) {
            let n = choose|n: int| 0 <= n < start.len() && start[n] == id;
            assert(out@[n] == id);
        }
        if is_value(t@, id) {
            let key = choose|key: Seq<char>| #[trigger] t@.contains_key(key) && t@[key] == id;
            assert(t.has(key));
            let j = choose|j: int| t.at(j, key);
            lemma_table_entry(*t, j);
            assert(t.entries@[j].1 == id);
            assert(out@[start.len() + j] == id);
        }
    }
}

/// The ids of the episodes whose rows are needed: those that either table holds.
pub fn chosen_ids(one: &Table<String, Guid>, other: &Table<String, Guid>) -> (r: Vec<Guid>)
    requires
        one.wf(),
        other.wf(),
    ensures
        forall|id: Guid| #[trigger] r@.contains(id) == (is_value(one@, id) || is_value(other@, id)),
{
    let mut out: Vec<Guid> = Vec::new();
    push_values(one, &mut out);
    push_values(other, &mut out);
    out
}

// ---------------------------------------------------------------------------
// What comes next
// ---------------------------------------------------------------------------
/// The position of a series' last watched episode, where its row is there and has
/// both numbers.
pub open spec fn watched_position(
    last: Map<Seq<char>, Guid>,
    rows: Map<Guid, EpisodeRow>,
    key: Seq<char>,
) -> Option<(i64, i64)> {
    match at_key(last, key) {
        Some(id) => match row_at(rows, id) {
            Some(row) => row_position(row),
            None => None,
        },
        None => None,
    }
}

/// The next episode of a series: the first unplayed one after the last watched
/// one.
pub open spec fn next_up_for(
    unplayed: Map<Seq<char>, Vec<EpisodePos>>,
    last: Map<Seq<char>, Guid>,
    rows: Map<Guid, EpisodeRow>,
    key: Seq<char>,
) -> Option<Guid> {
    next_after(group_of(unplayed, key), watched_position(last, rows, key))
}

/// The next episode of a series that is watched again: the first played one after
/// the most recently played one, whose row must be there.
pub open spec fn next_played_for(
    played: Map<Seq<char>, Vec<EpisodePos>>,
    by_date: Map<Seq<char>, Guid>,
    rows: Map<Guid, EpisodeRow>,
    key: Seq<char>,
) -> Option<Guid> {
    match at_key(by_date, key) {
        Some(id) => match row_at(rows, id) {
            Some(row) => next_after(group_of(played, key), row_position(row)),
            None => None,
        },
        None => None,
    }
}

/// The next episode of each of the series.
pub fn next_up_by_key(
    series_keys: &[String],
    unplayed: &Table<String, Vec<EpisodePos>>,
    last: &Table<String, Guid>,
    rows: &Table<Guid, EpisodeRow>,
) -> (r: Table<String, Guid>)
    requires
        unplayed.wf(),
        last.wf(),
        rows.wf(),
    ensures
        r.wf(),
        forall|key: Seq<char>| #[trigger]
            at_key(r@, key) == if texts(series_keys@).contains(key) {
                next_up_for(unplayed@, last@, rows@, key)
            } else {
                None
            },
{
    let ghost keys = texts(series_keys@);
    let mut out: Table<String, Guid> = Table::new();
    let mut i: usize = 0;
    while i < series_keys.len()
        invariant
            i <= series_keys.len(),
            keys == texts(series_keys@),
            unplayed.wf(),
            last.wf(),
            rows.wf(),
            out.wf(),
            forall|key: Seq<char>| #[trigger]
                at_key(out@, key) == if keys.take(i as int).contains(key) {
                    next_up_for(unplayed@, last@, rows@, key)
                } else {
                    None
                },
        decreases series_keys.len() - i,
    {
        let ghost before = out@;
        let key: &String = &series_keys[i];
        let after: Option<(i64, i64)> = match last.get(key) {
            Some(id) => match rows.get(id) {
                Some(row) => position_of(row),
                None => None,
            },
            None => None,
        };
        assert(after == watched_position(last@, rows@, key@));
        let next: Option<Guid> = match unplayed.get(key) {
            Some(candidates) => first_after(candidates.as_slice(), after),
            None => None,
        };
        assert(next == next_up_for(unplayed@, last@, rows@, key@));
        if let Some(id) = next {
            out.insert(key.clone(), id);
        }
        proof {
            lemma_take_contains(keys, i as int);
            assert forall|k: Seq<char>| #[trigger] at_key(out@, k) == if keys.take(i + 1).contains(k) {
                next_up_for(unplayed@, last@, rows@, k)
            } else {
                None
            } by {
                assert(at_key(before, k) == if keys.take(i as int).contains(k) {
                    next_up_for(unplayed@, last@, rows@, k)
                } else {
                    None
                });
                assert(keys.take(i + 1).contains(k) == (keys.take(i as int).contains(k) || k
                    == key@));
            }
        }
        i += 1;
    }
    assert(keys.take(keys.len() as int) =~= keys);
    out
}

/// The next episode of each of the series that is watched again.
pub fn next_played_by_key(
    series_keys: &[String],
    played: &Table<String, Vec<EpisodePos>>,
    by_date: &Table<String, Guid>,
    rows: &Table<Guid, EpisodeRow>,
) -> (r: Table<String, Guid>)
    requires
        played.wf(),
        by_date.wf(),
        rows.wf(),
    ensures
        r.wf(),
        forall|key: Seq<char>| #[trigger]
            at_key(r@, key) == if texts(series_keys@).contains(key) {
                next_played_for(played@, by_date@, rows@, key)
            } else {
                None
            },
{
    let ghost keys = texts(series_keys@);
    let mut out: Table<String, Guid> = Table::new();
    let mut i: usize = 0;
    while i < series_keys.len()
        invariant
            i <= series_keys.len(),
            keys == texts(series_keys@),
            played.wf(),
            by_date.wf(),
            rows.wf(),
            out.wf(),
            forall|key: Seq<char>| #[trigger]
                at_key(out@, key) == if keys.take(i as int).contains(key) {
                    next_played_for(played@, by_date@, rows@, key)
                } else {
                    None
                },
        decreases series_keys.len() - i,
    {
        let ghost before = out@;
        let key: &String = &series_keys[i];
        let next: Option<Guid> = match by_date.get(key) {
            Some(id) => match rows.get(id) {
                Some(row) => match played.get(key) {
                    Some(candidates) => first_after(candidates.as_slice(), position_of(row)),
                    None => None,
                },
                None => None,
            },
            None => None,
        };
        assert(next == next_played_for(played@, by_date@, rows@, key@));
        if let Some(id) = next {
            out.insert(key.clone(), id);
        }
        proof {
            lemma_take_contains(keys, i as int);
            assert forall|k: Seq<char>| #[trigger] at_key(out@, k) == if keys.take(i + 1).contains(k) {
                next_played_for(played@, by_date@, rows@, k)
            } else {
                None
            } by {
                assert(at_key(before, k) == if keys.take(i as int).contains(k) {
                    next_played_for(played@, by_date@, rows@, k)
                } else {
                    None
                });
                assert(keys.take(i + 1).contains(k) == (keys.take(i as int).contains(k) || k
                    == key@));
            }
        }
        i += 1;
    }
    assert(keys.take(keys.len() as int) =~= keys);
    out
}

proof fn lemma_take_contains(s: Seq<Seq<char>>, i: int)
    requires
        0 <= i < s.len(),
    ensures
        forall|k: Seq<char>| #[trigger]
            s.take(i + 1).contains(k) == (s.take(i).contains(k) || k == s[i]),
{
    assert forall|k: Seq<char>| #[trigger] s.take(i + 1).contains(k) == (s.take(i).contains(k) || k
        == s[i]) by {
        if s.take(i + 1).contains(k) {
            let longer = s.take(i + 1);
            let n = choose|n: int| 0 <= n < longer.len() && longer[n] == k;
            if n < i {
                assert(s.take(i)[n] == k);
            }
        }
        if s.take(i).contains(k) {
            let n = choose|n: int| 0 <= n < i && s.take(i)[n] == k;
            assert(s.take(i + 1)[n] == k);
        }
        assert(s.take(i + 1)[i] == s[i]);
    }
}

// ---------------------------------------------------------------------------
// The answer
// ---------------------------------------------------------------------------
/// What next-up finds for one series.
#[derive(Debug, Clone)]
pub struct NextUpEpisodeBatchResult {
    /// The last watched episode.
    pub last_watched: Option<EpisodeRow>,
    /// The next episode.
    pub next_up: Option<EpisodeRow>,
    /// The specials, where they were asked for.
    pub specials: Vec<EpisodeRow>,
    /// The most recently played episode, where rewatching was asked for.
    pub last_watched_for_rewatching: Option<EpisodeRow>,
    /// The played episode after it, where rewatching was asked for.
    pub next_played_for_rewatching: Option<EpisodeRow>,
}

/// What a series' result stands for.
#[verifier::ext_equal]
pub struct BatchView {
    pub last_watched: Option<RowView>,
    pub next_up: Option<RowView>,
    pub specials: Seq<RowView>,
    pub last_watched_for_rewatching: Option<RowView>,
    pub next_played_for_rewatching: Option<RowView>,
}

/// What an optional row stands for.
pub open spec fn opt_row(r: Option<EpisodeRow>) -> Option<RowView> {
    match r {
        Some(row) => Some(row@),
        None => None,
    }
}

impl View for NextUpEpisodeBatchResult {
    type V = BatchView;

    open spec fn view(&self) -> BatchView {
        BatchView {
            last_watched: opt_row(self.last_watched),
            next_up: opt_row(self.next_up),
            specials: row_views(self.specials@),
            last_watched_for_rewatching: opt_row(self.last_watched_for_rewatching),
            next_played_for_rewatching: opt_row(self.next_played_for_rewatching),
        }
    }
}

/// What was chosen for each series, and the rows of what was chosen.
#[derive(Debug)]
pub struct Choices {
    /// The last watched episode of each series.
    pub last_watched: Table<String, Guid>,
    /// The next episode of each series.
    pub next_up: Table<String, Guid>,
    /// The most recently played episode of each series.
    pub last_by_date: Table<String, Guid>,
    /// The next played episode of each series.
    pub next_played: Table<String, Guid>,
    /// The rows of the watched episodes.
    pub watched_rows: Table<Guid, EpisodeRow>,
    /// The rows of the next episodes.
    pub next_rows: Table<Guid, EpisodeRow>,
}

impl Choices {
    /// No table has a key twice.
    pub open spec fn wf(&self) -> bool {
        &&& self.last_watched.wf()
        &&& self.next_up.wf()
        &&& self.last_by_date.wf()
        &&& self.next_played.wf()
        &&& self.watched_rows.wf()
        &&& self.next_rows.wf()
    }

    /// The result for a series, with the given specials.
    pub open spec fn result_for(
        &self,
        key: Seq<char>,
        specials: Seq<RowView>,
        rewatching: bool,
    ) -> BatchView {
        BatchView {
            last_watched: looked_up(self.last_watched@, self.watched_rows@, key),
            next_up: looked_up(self.next_up@, self.next_rows@, key),
            specials,
            last_watched_for_rewatching: if rewatching {
                looked_up(self.last_by_date@, self.watched_rows@, key)
            } else {
                None
            },
            next_played_for_rewatching: if rewatching {
                looked_up(self.next_played@, self.next_rows@, key)
            } else {
                None
            },
        }
    }
}

/// The row of the episode that was chosen for a series.
pub open spec fn looked_up(
    ids: Map<Seq<char>, Guid>,
    rows: Map<Guid, EpisodeRow>,
    key: Seq<char>,
) -> Option<RowView> {
    match at_key(ids, key) {
        Some(id) => row_at(rows, id),
        None => None,
    }
}

fn look_up(ids: &Table<String, Guid>, rows: &Table<Guid, EpisodeRow>, key: &String) -> (r: Option<
    EpisodeRow,
>)
    requires
        ids.wf(),
        rows.wf(),
    ensures
        opt_row(r) == looked_up(ids@, rows@, key@),
{
    match ids.get(key) {
        Some(id) => match rows.get(id) {
            Some(row) => Some(row.duplicate()),
            None => None,
        },
        None => None,
    }
}

/// The specials that a series gets: those of its rows, where they were asked for
/// and an earlier mention of the series has not used them up.
pub open spec fn specials_left(
    rows: Seq<RowView>,
    earlier_keys: Seq<Seq<char>>,
    key: Seq<char>,
    include_specials: bool,
) -> Seq<RowView> {
    if include_specials && !earlier_keys.contains(key) {
        rows_for(rows, key)
    } else {
        Seq::empty()
    }
}

/// The results of all series. Where a key is mentioned twice, the later mention
/// counts.
pub open spec fn results(
    keys: Seq<Seq<char>>,
    choices: Choices,
    specials: Seq<RowView>,
    include_specials: bool,
    rewatching: bool,
) -> Map<Seq<char>, BatchView>
    decreases keys.len(),
{
    if keys.len() == 0 {
        Map::empty()
    } else {
        let head = keys.drop_last();
        results(head, choices, specials, include_specials, rewatching).insert(
            keys.last(),
            choices.result_for(
                keys.last(),
                specials_left(specials, head, keys.last(), include_specials),
                rewatching,
            ),
        )
    }
}

/// What a table of results stands for.
pub open spec fn result_views(m: Map<Seq<char>, NextUpEpisodeBatchResult>) -> Map<
    Seq<char>,
    BatchView,
> {
    Map::new(|k: Seq<char>| m.contains_key(k), |k: Seq<char>| m[k]@)
}

/// Every series that was asked for gets a result, and no other does; a series
/// that is mentioned once gets all its specials.
pub proof fn law_every_series_is_answered(
    keys: Seq<Seq<char>>,
    choices: Choices,
    specials: Seq<RowView>,
    include_specials: bool,
    rewatching: bool,
)
    ensures
        forall|k: Seq<char>| #[trigger]
            results(keys, choices, specials, include_specials, rewatching).contains_key(k)
                == keys.contains(k),
        keys.no_duplicates() ==> forall|k: Seq<char>| #[trigger]
            keys.contains(k) ==> results(
                keys,
                choices,
                specials,
                include_specials,
                rewatching,
            )[k] == choices.result_for(
                k,
                specials_left(specials, Seq::empty(), k, include_specials),
                rewatching,
            ),
    decreases keys.len(),
{
    if keys.len() > 0 {
        let head = keys.drop_last();
        let n = head.len() as int;
        law_every_series_is_answered(head, choices, specials, include_specials, rewatching);
        assert(head =~= keys.take(n));
        assert(keys =~= keys.take(n + 1));
        lemma_take_contains(keys, n);
        if keys.no_duplicates() {
            assert(head.no_duplicates());
            assert(!head.contains(keys.last())) by {
                if head.contains(keys.last()) {
                    let m = choose|m: int| 0 <= m < n && head[m] == keys.last();
                    assert(keys[m] == keys[n]);
                }
            }
        }
    }
}

/// The results of all series, from what was chosen and the rows of the specials.
pub fn assemble_batch(
    series_keys: &[String],
    choices: &Choices,
    specials: Vec<EpisodeRow>,
    include_specials: bool,
    rewatching: bool,
) -> (r: Table<String, NextUpEpisodeBatchResult>)
    requires
        choices.wf(),
    ensures
        r.wf(),
        result_views(r@) == results(
            texts(series_keys@),
            *choices,
            row_views(specials@),
            include_specials,
            rewatching,
        ),
{
    let ghost keys = texts(series_keys@);
    let ghost rows = row_views(specials@);
    let mut left: Table<String, Vec<EpisodeRow>> = specials_by_key(specials);
    let mut out: Table<String, NextUpEpisodeBatchResult> = Table::new();
    let mut i: usize = 0;
    assert(result_views(out@) =~= results(
        keys.take(0),
        *choices,
        rows,
        include_specials,
        rewatching,
    ));
    while i < series_keys.len()
        invariant
            i <= series_keys.len(),
            keys == texts(series_keys@),
            choices.wf(),
            left.wf(),
            out.wf(),
            forall|key: Seq<char>|
                row_views(#[trigger] group_of(left@, key)) == if include_specials && keys.take(
                    i as int,
                ).contains(key) {
                    Seq::empty()
                } else {
                    rows_for(rows, key)
                },
            result_views(out@) == results(
                keys.take(i as int),
                *choices,
                rows,
                include_specials,
                rewatching,
            ),
        decreases series_keys.len() - i,
    {
        let ghost before = out@;
        let ghost left_before = left@;
        let key: &String = &series_keys[i];
        proof {
            lemma_take_contains(keys, i as int);
            assert(keys.take(i + 1).drop_last() =~= keys.take(i as int));
            assert(row_views(group_of(left_before, key@)) == if include_specials && keys.take(
                i as int,
            ).contains(key@) {
                Seq::empty()
            } else {
                rows_for(rows, key@)
            });
        }
        let mine: Vec<EpisodeRow> = if include_specials {
            match left.remove(key) {
                Some(v) => v,
                None => Vec::new(),
            }
        } else {
            Vec::new()
        };
        assert(row_views(mine@) =~= specials_left(
            rows,
            keys.take(i as int),
            key@,
            include_specials,
        ));
        let batch: NextUpEpisodeBatchResult = NextUpEpisodeBatchResult {
            last_watched: look_up(&choices.last_watched, &choices.watched_rows, key),
            next_up: look_up(&choices.next_up, &choices.next_rows, key),
            specials: mine,
            last_watched_for_rewatching: if rewatching {
                look_up(&choices.last_by_date, &choices.watched_rows, key)
            } else {
                None
            },
            next_played_for_rewatching: if rewatching {
                look_up(&choices.next_played, &choices.next_rows, key)
            } else {
                None
            },
        };
        let ghost batched = batch;
        assert(batched@ == choices.result_for(
            key@,
            specials_left(rows, keys.take(i as int), key@, include_specials),
            rewatching,
        ));
        out.insert(key.clone(), batch);
        proof {
            assert(result_views(out@) =~= result_views(before).insert(key@, batched@));
            assert forall|k: Seq<char>| row_views(#[trigger] group_of(left@, k))
                == if include_specials && keys.take(i + 1).contains(k) {
                Seq::empty()
            } else {
                rows_for(rows, k)
            } by {
                assert(row_views(group_of(left_before, k)) == if include_specials && keys.take(
                    i as int,
                ).contains(k) {
                    Seq::empty()
                } else {
                    rows_for(rows, k)
                });
                if include_specials && k == key@ {
                    assert(row_views(group_of(left@, k)) =~= Seq::<RowView>::empty());
                }
            }
        }
        i += 1;
    }
    assert(keys.take(keys.len() as int) =~= keys);
    out
}

} // verus!
