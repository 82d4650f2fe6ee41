//! What next-up answers, straight from the rows of its statements.
use vstd::prelude::*;

use crate::guid::Guid;
use crate::next_up_service::{
    assemble_batch, at_key, chosen_ids, duplicate_rows, group_by_key, highest, is_value,
    last_watched_by_key, law_every_series_is_answered, newest_by_key, newest_for, next_after,
    next_played_by_key, next_played_for, next_up_by_key, next_up_for, positions_for, result_views,
    results, row_at, row_position, row_views, row_with, rows_by_id, rows_for, BatchView, Choices,
    EpisodePos, EpisodeRow, NextUpEpisodeBatchResult, PositionRow, RowView, WatchedRow,
};
use crate::table::{group_of, Table};
use crate::text::texts;

verus! {

/// The rows that the statements of a batch gave. Those of the episodes themselves
/// are looked up by what was found before: `watched` by [`watched_ids`], `next` by
/// [`next_ids`].
#[derive(Debug, Clone)]
pub struct BatchRows {
    /// The played episodes.
    pub played: Vec<PositionRow>,
    /// The played episodes, the newest play first, where rewatching was asked for.
    pub by_date: Vec<WatchedRow>,
    /// The episodes that were not played.
    pub unplayed: Vec<PositionRow>,
    /// The played episodes that exist, where rewatching was asked for.
    pub replayable: Vec<PositionRow>,
    /// The episodes that were watched last.
    pub watched: Vec<EpisodeRow>,
    /// The episodes that come next.
    pub next: Vec<EpisodeRow>,
    /// The specials, where they were asked for.
    pub specials: Vec<EpisodeRow>,
}

/// The row of an episode that was chosen.
pub open spec fn row_of(rows: Seq<EpisodeRow>, id: Option<Guid>) -> Option<RowView> {
    match id {
        Some(id) => row_with(row_views(rows), id),
        None => None,
    }
}

impl BatchRows {
    /// The last watched episode of a series: the highest-numbered played one.
    pub open spec fn last_watched(&self, key: Seq<char>) -> Option<Guid> {
        highest(positions_for(self.played@, key))
    }

    /// The next episode of a series: the first unplayed one after the last watched
    /// one.
    pub open spec fn next_up(&self, key: Seq<char>) -> Option<Guid> {
        next_after(
            positions_for(self.unplayed@, key),
            match row_of(self.watched@, self.last_watched(key)) {
                Some(row) => row_position(row),
                None => None,
            },
        )
    }

    /// The next episode of a series that is watched again: the first played one
    /// after the one that was played most recently.
    pub open spec fn next_played(&self, key: Seq<char>) -> Option<Guid> {
        match row_of(self.watched@, newest_for(self.by_date@, key)) {
            Some(row) => next_after(positions_for(self.replayable@, key), row_position(row)),
            None => None,
        }
    }

    /// The answer for a series.
    pub open spec fn answer(
        &self,
        key: Seq<char>,
        with_specials: bool,
        rewatching: bool,
    ) -> BatchView {
        BatchView {
            last_watched: row_of(self.watched@, self.last_watched(key)),
            next_up: row_of(self.next@, self.next_up(key)),
            specials: if with_specials {
                rows_for(row_views(self.specials@), key)
            } else {
                Seq::empty()
            },
            last_watched_for_rewatching: if rewatching {
                row_of(self.watched@, newest_for(self.by_date@, key))
            } else {
                None
            },
            next_played_for_rewatching: if rewatching {
                row_of(self.next@, self.next_played(key))
            } else {
                None
            },
        }
    }
}

/// Whether a key is mentioned more than once.
pub open spec fn repeated(keys: Seq<Seq<char>>, key: Seq<char>) -> bool {
    exists|i: int, j: int|
        0 <= i < j < keys.len() && #[trigger] keys[i] == key && #[trigger] keys[j] == key
}

proof fn lemma_results(
    keys: Seq<Seq<char>>,
    choices: Choices,
    specials: Seq<RowView>,
    include_specials: bool,
    rewatching: bool,
    key: Seq<char>,
)
    requires
        keys.contains(key),
    ensures
        results(keys, choices, specials, include_specials, rewatching)[key]
            == choices.result_for(
            key,
            if include_specials && !repeated(keys, key) {
                rows_for(specials, key)
            } else {
                Seq::empty()
            },
            rewatching,
        ),
    decreases keys.len(),
{
    let head = keys.drop_last();
    let n = head.len() as int;
    if keys.last() == key {
        if head.contains(key) {
            let i = choose|i: int| 0 <= i < head.len() && head[i] == key;
            assert(keys[i] == key && keys[n] == key);
        } else if repeated(keys, key) {
            let (i, j) = choose|i: int, j: int|
                0 <= i < j < keys.len() && #[trigger] keys[i] == key && #[trigger] keys[j] == key;
            assert(head[i] == key);
        }
    } else {
        let m = choose|m: int| 0 <= m < keys.len() && keys[m] == key;
        assert(head[m] == key);
        lemma_results(head, choices, specials, include_specials, rewatching, key);
        if repeated(keys, key) {
            let (i, j) = choose|i: int, j: int|
                0 <= i < j < keys.len() && #[trigger] keys[i] == key && #[trigger] keys[j] == key;
            assert(head[i] == key && head[j] == key);
        }
        if repeated(head, key) {
            let (i, j) = choose|i: int, j: int|
                0 <= i < j < head.len() && #[trigger] head[i] == key && #[trigger] head[j] == key;
            assert(keys[i] == key && keys[j] == key);
        }
    }
}

/// Whether the choices are those that the rows lead to.
spec fn fits(choices: Choices, rows: BatchRows, keys: Seq<Seq<char>>) -> bool {
    &&& choices.wf()
    &&& forall|k: Seq<char>| #[trigger] at_key(choices.last_watched@, k) == rows.last_watched(k)
    &&& forall|k: Seq<char>| #[trigger]
        at_key(choices.last_by_date@, k) == newest_for(rows.by_date@, k)
    &&& forall|k: Seq<char>| #[trigger]
        at_key(choices.next_up@, k) == if keys.contains(k) {
            rows.next_up(k)
        } else {
            None
        }
    &&& forall|k: Seq<char>| #[trigger]
        at_key(choices.next_played@, k) == if keys.contains(k) {
            rows.next_played(k)
        } else {
            None
        }
    &&& forall|id: Guid| #[trigger]
        row_at(choices.watched_rows@, id) == row_with(row_views(rows.watched@), id)
    &&& forall|id: Guid| #[trigger]
        row_at(choices.next_rows@, id) == row_with(row_views(rows.next@), id)
}

fn choose_episodes(series_keys: &[String], rows: &BatchRows) -> (r: Choices)
    ensures
        fits(r, *rows, texts(series_keys@)),
{
    let ghost keys = texts(series_keys@);
    let last_watched: Table<String, Guid> = last_watched_by_key(rows.played.as_slice());
    let last_by_date: Table<String, Guid> = newest_by_key(rows.by_date.as_slice());
    let copied: Vec<EpisodeRow> = duplicate_rows(rows.watched.as_slice());
    let watched_rows: Table<Guid, EpisodeRow> = rows_by_id(copied);
    let unplayed: Table<String, Vec<EpisodePos>> = group_by_key(rows.unplayed.as_slice());
    let replayable: Table<String, Vec<EpisodePos>> = group_by_key(rows.replayable.as_slice());
    let next_up: Table<String, Guid> = next_up_by_key(
        series_keys,
        &unplayed,
        &last_watched,
        &watched_rows,
    );
    let next_played: Table<String, Guid> = next_played_by_key(
        series_keys,
        &replayable,
        &last_by_date,
        &watched_rows,
    );
    let copied: Vec<EpisodeRow> = duplicate_rows(rows.next.as_slice());
    let next_rows: Table<Guid, EpisodeRow> = rows_by_id(copied);
    proof {
        assert forall|k: Seq<char>| #[trigger] at_key(last_watched@, k) == rows.last_watched(
            k,
        ) by {
            let ps = positions_for(rows.played@, k);
            assert(last_watched@.contains_key(k) == (ps.len() > 0));
        }
        assert forall|k: Seq<char>| #[trigger]
            at_key(next_up@, k) == if keys.contains(k) {
                rows.next_up(k)
            } else {
                None
            } by {
            if keys.contains(k) {
                assert(at_key(next_up@, k) == next_up_for(
                    unplayed@,
                    last_watched@,
                    watched_rows@,
                    k,
                ));
                assert(group_of(unplayed@, k) == positions_for(rows.unplayed@, k));
                assert(at_key(last_watched@, k) == rows.last_watched(k));
                if let Some(id) = rows.last_watched(k) {
                    assert(row_at(watched_rows@, id) == row_with(row_views(rows.watched@), id));
                }
            }
        }
        assert forall|k: Seq<char>| #[trigger]
            at_key(next_played@, k) == if keys.contains(k) {
                rows.next_played(k)
            } else {
                None
            } by {
            if keys.contains(k) {
                assert(at_key(next_played@, k) == next_played_for(
                    replayable@,
                    last_by_date@,
                    watched_rows@,
                    k,
                ));
                assert(group_of(replayable@, k) == positions_for(rows.replayable@, k));
                assert(at_key(last_by_date@, k) == newest_for(rows.by_date@, k));
                if let Some(id) = newest_for(rows.by_date@, k) {
                    assert(row_at(watched_rows@, id) == row_with(row_views(rows.watched@), id));
                }
            }
        }
    }
    Choices { last_watched, next_up, last_by_date, next_played, watched_rows, next_rows }
}

/// The episodes whose rows are needed first: the last watched ones, by number and
/// by date.
pub fn watched_ids(rows: &BatchRows) -> (r: Vec<Guid>)
    ensures
        forall|id: Guid| #[trigger]
            r@.contains(id) == exists|key: Seq<char>| #[trigger]
                rows.last_watched(key) == Some(id) || newest_for(rows.by_date@, key) == Some(id),
{
    let none: Vec<String> = Vec::new();
    let choices: Choices = choose_episodes(none.as_slice(), rows);
    let ids: Vec<Guid> = chosen_ids(&choices.last_watched, &choices.last_by_date);
    proof {
        assert forall|id: Guid| #[trigger]
            ids@.contains(id) == exists|key: Seq<char>| #[trigger]
                rows.last_watched(key) == Some(id) || newest_for(rows.by_date@, key) == Some(
                    id,
                ) by {
            if is_value(choices.last_watched@, id) {
                let key = choose|key: Seq<char>| #[trigger]
                    choices.last_watched@.contains_key(key) && choices.last_watched@[key] == id;
                assert(at_key(choices.last_watched@, key) == rows.last_watched(key));
            }
            if is_value(choices.last_by_date@, id) {
                let key = choose|key: Seq<char>| #[trigger]
                    choices.last_by_date@.contains_key(key) && choices.last_by_date@[key] == id;
                assert(at_key(choices.last_by_date@, key) == newest_for(rows.by_date@, key));
                assert(rows.last_watched(key) == rows.last_watched(key));
            }
            if exists|key: Seq<char>| #[trigger]
                rows.last_watched(key) == Some(id) || newest_for(rows.by_date@, key) == Some(id) {
                let key = choose|key: Seq<char>| #[trigger]
                    rows.last_watched(key) == Some(id) || newest_for(rows.by_date@, key) == Some(
                        id,
                    );
                assert(at_key(choices.last_watched@, key) == rows.last_watched(key));
                assert(at_key(choices.last_by_date@, key) == newest_for(rows.by_date@, key));
                if rows.last_watched(key) == Some(id) {
                    assert(choices.last_watched@.contains_key(key));
                } else {
                    assert(choices.last_by_date@.contains_key(key));
                }
            }
        }
    }
    ids
}

/// The episodes whose rows are needed then: those that come next.
pub fn next_ids(series_keys: &[String], rows: &BatchRows) -> (r: Vec<Guid>)
    ensures
        forall|id: Guid| #[trigger]
            r@.contains(id) == exists|key: Seq<char>|
                texts(series_keys@).contains(key) && (#[trigger] rows.next_up(key) == Some(id)
                    || rows.next_played(key) == Some(id)),
{
    let ghost keys = texts(series_keys@);
    let choices: Choices = choose_episodes(series_keys, rows);
    let ids: Vec<Guid> = chosen_ids(&choices.next_up, &choices.next_played);
    proof {
        assert forall|id: Guid| #[trigger]
            ids@.contains(id) == exists|key: Seq<char>|
                keys.contains(key) && (#[trigger] rows.next_up(key) == Some(id)
                    || rows.next_played(key) == Some(id)) by {
            if is_value(choices.next_up@, id) {
                let key = choose|key: Seq<char>| #[trigger]
                    choices.next_up@.contains_key(key) && choices.next_up@[key] == id;
                assert(at_key(choices.next_up@, key) == Some(id));
                assert(rows.next_up(key) == Some(id));
            }
            if is_value(choices.next_played@, id) {
                let key = choose|key: Seq<char>| #[trigger]
                    choices.next_played@.contains_key(key) && choices.next_played@[key] == id;
                assert(at_key(choices.next_played@, key) == Some(id));
                assert(rows.next_up(key) == rows.next_up(key));
            }
            if exists|key: Seq<char>|
                keys.contains(key) && (#[trigger] rows.next_up(key) == Some(id)
                    || rows.next_played(key) == Some(id)) {
                let key = choose|key: Seq<char>|
                    keys.contains(key) && (#[trigger] rows.next_up(key) == Some(id)
                        || rows.next_played(key) == Some(id));
                assert(at_key(choices.next_up@, key) == rows.next_up(key));
                assert(at_key(choices.next_played@, key) == rows.next_played(key));
                if rows.next_up(key) == Some(id) {
                    assert(choices.next_up@.contains_key(key));
                } else {
                    assert(choices.next_played@.contains_key(key));
                }
            }
        }
    }
    ids
}

/// The answers for all series. A series that is mentioned more than once gets its
/// specials with an earlier mention, which the last one replaces.
pub fn next_up_batch(
    series_keys: &[String],
    rows: BatchRows,
    include_specials: bool,
    rewatching: bool,
) -> (r: Table<String, NextUpEpisodeBatchResult>)
    ensures
        r.wf(),
        forall|key: Seq<char>| #[trigger]
            r@.contains_key(key) == texts(series_keys@).contains(key),
        forall|key: Seq<char>| #[trigger]
            r@.contains_key(key) ==> r@[key]@ == rows.answer(
                key,
                include_specials && !repeated(texts(series_keys@), key),
                rewatching,
            ),
{
    let ghost keys = texts(series_keys@);
    let choices: Choices = choose_episodes(series_keys, &rows);
    let ghost specials = row_views(rows.specials@);
    let r: Table<String, NextUpEpisodeBatchResult> = assemble_batch(
        series_keys,
        &choices,
        rows.specials,
        include_specials,
        rewatching,
    );
    proof {
        law_every_series_is_answered(keys, choices, specials, include_specials, rewatching);
        let answers = results(keys, choices, specials, include_specials, rewatching);
        assert forall|key: Seq<char>| #[trigger] r@.contains_key(key) == keys.contains(key) by {
            assert(result_views(r@).contains_key(key) == answers.contains_key(key));
        }
        assert forall|key: Seq<char>| #[trigger] r@.contains_key(key) implies r@[key]@
            == rows.answer(key, include_specials && !repeated(keys, key), rewatching) by {
            lemma_results(keys, choices, specials, include_specials, rewatching, key);
            assert(result_views(r@)[key] == answers[key]);
            assert(at_key(choices.last_watched@, key) == rows.last_watched(key));
            assert(at_key(choices.last_by_date@, key) == newest_for(rows.by_date@, key));
            assert(at_key(choices.next_up@, key) == rows.next_up(key));
            assert(at_key(choices.next_played@, key) == rows.next_played(key));
            assert(r@[key]@ =~= rows.answer(
                key,
                include_specials && !repeated(keys, key),
                rewatching,
            ));
        }
    }
    r
}

} // verus!
