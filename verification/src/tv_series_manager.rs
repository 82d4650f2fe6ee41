//! A user's "next up" list.
//!
//! The list covers one series, or every series with something left to watch in
//! the libraries asked for. The episodes come from `next_up_service`; here stand
//! the scope of the request, the choice of episodes, and the page.
use vstd::prelude::*;

use crate::guid::{guid_text, hyphenated_text, read_guids, readable, Guid};
use crate::items_query::InternalItemsQuery;
use crate::next_up_service::{
    result_views, row_views, BatchView, EpisodeRow, NextUpEpisodeBatchResult, RowView,
};
use crate::paging::{count_of, page_items, page_of, Page};
use crate::service_error::{ErrorView, ServiceError};
use crate::table::Table;
use crate::text::{concat, opt_text, texts};
use crate::time::{Timestamp, EARLIEST_NANOS};

verus! {

/// What a "next up" request asks for.
#[derive(Debug, Clone)]
pub struct NextUpQuery {
    /// Whose list it is.
    pub user_id: Guid,
    /// The library to look in; all of them where there is none.
    pub parent_id: Option<Guid>,
    /// The one series to look at.
    pub series_id: Option<Guid>,
    /// Where the page starts.
    pub start_index: Option<i32>,
    /// How long the page is.
    pub limit: Option<i32>,
    /// How long ago the last play may be.
    pub next_up_date_cutoff: Option<Timestamp>,
    /// Whether the length of the whole list is wanted.
    pub enable_total_record_count: bool,
    /// Whether episodes that are watched again count.
    pub enable_rewatching: bool,
}

/// What next-up reads of a series' row.
#[derive(Debug, Clone)]
pub struct SeriesRow {
    pub id: String,
    pub presentation_unique_key: Option<String>,
}

/// The key that the episodes of a series carry: its presentation key where that
/// is not empty, else its id.
pub open spec fn presentation_key(series: SeriesRow) -> Seq<char> {
    match opt_text(series.presentation_unique_key) {
        Some(key) => if key.len() > 0 {
            key
        } else {
            series.id@
        },
        None => series.id@,
    }
}

/// The key that the episodes of a series carry.
pub fn series_presentation_key(series: &SeriesRow) -> (r: String)
    ensures
        r@ == presentation_key(*series),
{
    match &series.presentation_unique_key {
        Some(key) => {
            if key.as_str().unicode_len() > 0 {
                key.clone()
            } else {
                series.id.clone()
            }
        },
        None => series.id.clone(),
    }
}

/// Where to look for episodes.
#[derive(Debug, Clone)]
pub enum NextUpScope {
    /// In the series with this key.
    Series(String),
    /// In the libraries.
    Libraries,
}

/// Where to look: in the series that was asked for, if there is one and it was
/// found, else in the libraries.
pub fn scope_of(series: Option<&SeriesRow>) -> (r: NextUpScope)
    ensures
        match r {
            NextUpScope::Series(key) => series is Some && key@ == presentation_key(*series->0),
            NextUpScope::Libraries => series is None,
        },
{
    match series {
        Some(row) => NextUpScope::Series(series_presentation_key(row)),
        None => NextUpScope::Libraries,
    }
}

/// The user, or the error for one that does not exist.
pub fn require_user<T>(user: Option<T>, user_id: Guid) -> (r: Result<T, ServiceError>)
    ensures
        match r {
            Ok(u) => user == Some(u),
            Err(e) => user is None && e@ == ErrorView::NotFound(
                "user "@ + hyphenated_text(user_id.value),
            ),
        },
{
    match user {
        Some(u) => Ok(u),
        None => Err(ServiceError::NotFound(concat("user ", guid_text(user_id).as_str()))),
    }
}

/// The query for the top-level folders.
pub fn top_folders_query() -> (r: InternalItemsQuery)
    ensures
        r.is_folder == Some(true),
        exists|d: InternalItemsQuery| #[trigger]
            d.is_unrestricted() && r == (InternalItemsQuery { is_folder: Some(true), ..d }),
{
    let d: InternalItemsQuery = InternalItemsQuery::default();
    let ghost plain = d;
    let q: InternalItemsQuery = InternalItemsQuery { is_folder: Some(true), ..d };
    assert(plain.is_unrestricted());
    q
}

/// The libraries to look in: the one that was asked for, if it exists; where none
/// was asked for, the folders whose id can be read.
pub fn resolve_top_parents(
    parent_id: Option<Guid>,
    parent_exists: bool,
    folder_ids: &[String],
) -> (r: Vec<Guid>)
    ensures
        r@ == match parent_id {
            Some(parent) => if parent_exists {
                seq![parent]
            } else {
                seq![]
            },
            None => readable(texts(folder_ids@)),
        },
{
    match parent_id {
        Some(parent) => {
            if parent_exists {
                vec![parent]
            } else {
                Vec::new()
            }
        },
        None => read_guids(folder_ids),
    }
}

/// How many series to look at: a few more than the page holds.
pub fn series_limit(limit: Option<i32>) -> (r: Option<i32>)
    requires
        limit matches Some(n) ==> n <= i32::MAX - 10,
    ensures
        r == match limit {
            Some(n) => Some((n + 10) as i32),
            None => None,
        },
{
    match limit {
        Some(n) => Some(n + 10),
        None => None,
    }
}

/// How long ago the last play may be: as long as one likes where nothing is said.
pub fn date_cutoff(cutoff: Option<Timestamp>) -> (r: Timestamp)
    ensures
        r == match cutoff {
            Some(t) => t,
            None => (Timestamp { nanos: EARLIEST_NANOS }),
        },
{
    match cutoff {
        Some(t) => t,
        None => Timestamp::earliest(),
    }
}

/// A search for the series that a user watches.
#[derive(Debug, Clone)]
pub struct SeriesSearch {
    pub top_parents: Vec<Guid>,
    pub cutoff: Timestamp,
    pub limit: Option<i32>,
}

/// The search through the libraries; none where there is no library to search.
pub fn library_search(query: &NextUpQuery, top_parents: Vec<Guid>) -> (r: Option<SeriesSearch>)
    requires
        query.limit matches Some(n) ==> n <= i32::MAX - 10,
    ensures
        match r {
            Some(s) => {
                &&& top_parents@.len() > 0
                &&& s.top_parents == top_parents
                &&& s.cutoff == match query.next_up_date_cutoff {
                    Some(t) => t,
                    None => (Timestamp { nanos: EARLIEST_NANOS }),
                }
                &&& s.limit == match query.limit {
                    Some(n) => Some((n + 10) as i32),
                    None => None,
                }
            },
            None => top_parents@.len() == 0,
        },
{
    if top_parents.len() == 0 {
        return None;
    }
    Some(
        SeriesSearch {
            top_parents,
            cutoff: date_cutoff(query.next_up_date_cutoff),
            limit: series_limit(query.limit),
        },
    )
}

/// The episodes of one series' result.
pub open spec fn picked_of(b: BatchView, rewatching: bool) -> Seq<RowView> {
    let fresh = match b.next_up {
        Some(row) => seq![row],
        None => seq![],
    };
    let again = match b.next_played_for_rewatching {
        Some(row) => if rewatching {
            seq![row]
        } else {
            seq![]
        },
        None => seq![],
    };
    fresh + again
}

/// The episodes of all series, in the order of the keys.
pub open spec fn picked(
    keys: Seq<Seq<char>>,
    batch: Map<Seq<char>, BatchView>,
    rewatching: bool,
) -> Seq<RowView>
    decreases keys.len(),
{
    if keys.len() == 0 {
        Seq::empty()
    } else {
        picked(keys.drop_last(), batch, rewatching) + if batch.contains_key(keys.last()) {
            picked_of(batch[keys.last()], rewatching)
        } else {
            Seq::empty()
        }
    }
}

fn push_picks(result: &NextUpEpisodeBatchResult, rewatching: bool, out: &mut Vec<EpisodeRow>)
    ensures
        row_views(final(out)@) == row_views(old(out)@) + picked_of(result@, rewatching),
{
    let ghost start = row_views(out@);
    if let Some(next) = &result.next_up {
        out.push(next.duplicate());
    }
    if rewatching {
        if let Some(again) = &result.next_played_for_rewatching {
            out.push(again.duplicate());
        }
    }
    assert(row_views(out@) =~= start + picked_of(result@, rewatching));
}

/// The episodes of all series, in the order of the keys: for each series the next
/// one, and then, for rewatching, the next played one.
pub fn pick_episodes(
    series_keys: &[String],
    batch: &Table<String, NextUpEpisodeBatchResult>,
    rewatching: bool,
) -> (r: Vec<EpisodeRow>)
    requires
        batch.wf(),
    ensures
        row_views(r@) == picked(texts(series_keys@), result_views(batch@), rewatching),
{
    let ghost keys = texts(series_keys@);
    let ghost results = result_views(batch@);
    let mut out: Vec<EpisodeRow> = Vec::new();
    let mut i: usize = 0;
    assert(row_views(out@) =~= picked(keys.take(0), results, rewatching));
    while i < series_keys.len()
        invariant
            i <= series_keys.len(),
            keys == texts(series_keys@),
            results == result_views(batch@),
            batch.wf(),
            row_views(out@) == picked(keys.take(i as int), results, rewatching),
        decreases series_keys.len() - i,
    {
        assert(keys.take(i + 1).drop_last() =~= keys.take(i as int));
        assert(keys.take(i + 1).last() == series_keys@[i as int]@);
        if let Some(result) = batch.get(&series_keys[i]) {
            push_picks(result, rewatching, &mut out);
        }
        i += 1;
    }
    assert(keys.take(keys.len() as int) =~= keys);
    out
}

/// A "next up" list without episodes.
pub fn empty_result<T>(query: &NextUpQuery) -> (r: Page<T>)
    ensures
        r.start_index == query.start_index,
        r.total_record_count == if query.enable_total_record_count {
            Some(0i32)
        } else {
            None
        },
        r.items@.len() == 0,
{
    Page {
        start_index: query.start_index,
        total_record_count: if query.enable_total_record_count {
            Some(0)
        } else {
            None
        },
        items: Vec::new(),
    }
}

/// The page of the episodes that was asked for.
pub fn to_result<T>(episodes: Vec<T>, query: &NextUpQuery) -> (r: Page<T>)
    ensures
        r.start_index == query.start_index,
        r.total_record_count == if query.enable_total_record_count {
            Some(count_of(episodes@.len() as int))
        } else {
            None
        },
        r.items@ == page_items(episodes@, query.start_index, query.limit),
{
    page_of(episodes, query.start_index, query.limit, query.enable_total_record_count)
}

} // verus!
