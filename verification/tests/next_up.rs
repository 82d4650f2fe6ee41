use hermit_core::guid::Guid;
use hermit_core::item_type_lookup::ItemTypeNames;
use hermit_core::next_up_service::{
    first_after, highest_position, limit_series_keys, next_up_series_query, plan_batch,
    EpisodePos, EpisodeRow, NextUpEpisodeBatchResult,
};
use hermit_core::people_repository::{distinct_people, names_by_item, CreditUpdate, PersonRow};
use hermit_core::service_error::ServiceError;
use hermit_core::similar_items_manager::{
    acting_credits, directing_credits, movie_recommendations, people_sources, person_category, person_query,
    round_robin_categories, similar_category, wanted_categories, PersonMovies,
    RecommendationType, Seed, SimilarItemsRecommendation,
};
use hermit_core::table::Table;
use hermit_core::time::{Timestamp, EARLIEST_NANOS};
use hermit_core::tv_series_manager::{
    date_cutoff, empty_result, library_search, pick_episodes, require_user, resolve_top_parents, scope_of,
    series_limit, to_result, NextUpQuery, NextUpScope, SeriesRow,
};

fn g(n: u128) -> Guid {
    Guid::from_u128(n)
}

fn row(id: &str) -> EpisodeRow {
    EpisodeRow { id: id.to_owned(), series_key: None, season: Some(1), episode: Some(1) }
}

fn result(next_up: Option<EpisodeRow>, again: Option<EpisodeRow>) -> NextUpEpisodeBatchResult {
    NextUpEpisodeBatchResult {
        last_watched: None,
        next_up,
        specials: Vec::new(),
        last_watched_for_rewatching: None,
        next_played_for_rewatching: again,
    }
}

fn query() -> NextUpQuery {
    NextUpQuery {
        user_id: g(5),
        parent_id: None,
        series_id: None,
        start_index: None,
        limit: None,
        next_up_date_cutoff: None,
        enable_total_record_count: true,
        enable_rewatching: false,
    }
}

fn no_names() -> ItemTypeNames {
    ItemTypeNames { entries: Vec::new() }
}

#[test]
fn library_wide_next_up_projects_picked_episodes() {
    let mut batch = Table::new();
    batch.insert("series-a".to_owned(), result(Some(row("ep")), None));
    let picked = pick_episodes(&["series-a".to_owned()], &batch, false);
    let page = to_result(picked, &query());
    assert_eq!(page.items.len(), 1);
    assert_eq!(page.items[0].id, "ep");
    assert_eq!(page.total_record_count, Some(1));
}

#[test]
fn rewatched_episodes_follow_the_fresh_ones() {
    let mut batch = Table::new();
    batch.insert("a".to_owned(), result(Some(row("new")), Some(row("old"))));
    batch.insert("b".to_owned(), result(None, Some(row("b-old"))));
    let keys = ["b".to_owned(), "a".to_owned(), "missing".to_owned()];
    let ids = |rewatching: bool| -> Vec<String> {
        pick_episodes(&keys, &batch, rewatching).into_iter().map(|e| e.id).collect()
    };
    assert_eq!(ids(false), vec!["new"]);
    assert_eq!(ids(true), vec!["b-old", "new", "old"]);
}

#[test]
fn missing_user_is_not_found() {
    let missing: Result<u8, ServiceError> = require_user(None, g(5));
    assert!(matches!(missing, Err(ServiceError::NotFound(_))));
    assert!(matches!(require_user(Some(7), g(5)), Ok(7)));
}

#[test]
fn limit_and_start_index_paginate() {
    let mut batch = Table::new();
    let mut keys = Vec::new();
    for i in 0..3 {
        let key = format!("series-{i}");
        batch.insert(key.clone(), result(Some(row(&key)), None));
        keys.push(key);
    }
    let mut q = query();
    q.start_index = Some(1);
    q.limit = Some(1);
    let page = to_result(pick_episodes(&keys, &batch, false), &q);
    assert_eq!(page.total_record_count, Some(3));
    assert_eq!(page.items.len(), 1);
    assert_eq!(page.items[0].id, "series-1");
    assert_eq!(page.start_index, Some(1));
    q.enable_total_record_count = false;
    let none = empty_result::<EpisodeRow>(&q);
    assert_eq!((none.items.len(), none.total_record_count), (0, None));
}

#[test]
fn the_search_is_scoped() {
    let series = |key: Option<&str>| SeriesRow {
        id: "sid".to_owned(),
        presentation_unique_key: key.map(str::to_owned),
    };
    assert!(matches!(scope_of(Some(&series(Some("key")))), NextUpScope::Series(k) if k == "key"));
    assert!(matches!(scope_of(Some(&series(None))), NextUpScope::Series(k) if k == "sid"));
    assert!(matches!(scope_of(None), NextUpScope::Libraries));
    assert_eq!(resolve_top_parents(Some(g(1)), true, &[]), vec![g(1)]);
    assert!(resolve_top_parents(Some(g(1)), false, &[]).is_empty());
    let folders = ["junk".to_owned(), "00000000-0000-0000-0000-000000000009".to_owned()];
    assert_eq!(resolve_top_parents(None, false, &folders), vec![g(9)]);
    assert_eq!(series_limit(Some(5)), Some(15));
    let mut q = query();
    q.limit = Some(5);
    assert!(library_search(&q, Vec::new()).is_none());
    let search = library_search(&q, vec![g(9)]).expect("a library");
    assert_eq!((search.top_parents, search.limit), (vec![g(9)], Some(15)));
    assert_eq!(search.cutoff.nanos, EARLIEST_NANOS);
    assert_eq!(date_cutoff(None).nanos, EARLIEST_NANOS);
    assert_eq!(date_cutoff(Some(Timestamp { nanos: 3 })).nanos, 3);
}

#[test]
fn the_highest_position_is_the_last_one() {
    let pos = |n: u128, season: i64, episode: i64| EpisodePos {
        id: g(n),
        season: Some(season),
        episode: Some(episode),
    };
    let all = [pos(1, 1, 9), pos(2, 2, 1), pos(3, 1, 10)];
    assert_eq!(highest_position(&all), Some(g(2)));
    assert_eq!(highest_position(&[]), None);
    assert_eq!(first_after(&all, Some((1, 9))), Some(g(3)));
    assert_eq!(first_after(&all, None), Some(g(1)));
    assert_eq!(first_after(&all, Some((2, 1))), None);
}

#[test]
fn series_keys_are_limited() {
    let keys = vec!["a".to_owned(), "b".to_owned(), "c".to_owned()];
    assert_eq!(limit_series_keys(keys.clone(), Some(2)), vec!["a", "b"]);
    assert_eq!(limit_series_keys(keys.clone(), None), keys);
}

#[test]
fn next_up_needs_a_user_and_a_type_name() {
    let cutoff = Timestamp { nanos: 0 };
    assert!(matches!(
        next_up_series_query(None, &[g(1)], cutoff, &no_names()),
        Err(ServiceError::InvalidInput(m)) if m == "next-up requires a user"
    ));
    assert!(matches!(next_up_series_query(Some("u"), &[], cutoff, &no_names()), Ok(None)));
    assert!(matches!(
        next_up_series_query(Some("u"), &[g(1)], cutoff, &no_names()),
        Err(ServiceError::Backend(m)) if m == "no stored type name for Episode"
    ));
    assert!(matches!(
        plan_batch(None, &[], false, false, &no_names()),
        Err(ServiceError::InvalidInput(_))
    ));
    assert!(matches!(plan_batch(Some("u"), &[], false, false, &no_names()), Ok(None)));
}

#[test]
fn people_are_credited_once() {
    let person = |name: &str, kind: Option<&str>| PersonRow {
        id: String::new(),
        name: name.to_owned(),
        person_type: kind.map(str::to_owned),
    };
    let all = [
        person("Alice", Some("Actor")),
        person("ALICE", Some("Actor")),
        person("Alice", Some("Director")),
        person("Bob", None),
    ];
    let kept = distinct_people(&all);
    let names: Vec<&str> = kept.iter().map(|p| p.name.as_str()).collect();
    assert_eq!(names.first(), Some(&"Alice"));
    assert!(names.contains(&"Bob"));
    assert_eq!(distinct_people(&kept).len(), kept.len());
}

#[test]
fn people_are_settled_in_turn() {
    let person = |id: &str, name: &str| PersonRow {
        id: id.to_owned(),
        name: name.to_owned(),
        person_type: None,
    };
    let people = [person("", "Ann"), person("own", " Bob "), person("", "Cid"), person("", "ann")];
    let mut update = CreditUpdate::new(Guid::from_u128(7), &people);
    assert_eq!(update.people.len(), 3);

    assert!(update.lookup().is_some());
    assert!(update.settle_with(Some("found".to_owned()), Guid::from_u128(1)).is_none());
    let insert = update.settle_with(None, Guid::from_u128(2)).expect("a new row");
    assert!(format!("{:?}", insert.pieces).contains("\"Bob\""));
    assert!(update.lookup().is_some());
    assert!(update.settle_with(None, Guid::from_u128(3)).is_some());
    assert!(update.lookup().is_none());

    assert_eq!(update.ids, ["found", "own", "00000000-0000-0000-0000-000000000003"]);
    let statements = update.finish();
    assert_eq!(statements.len(), 4);
    assert!(format!("{:?}", statements[0].pieces).contains("DELETE FROM"));
    let second = format!("{:?}", statements[2].pieces);
    assert!(second.contains("Text(\"own\")") && second.contains("Int(1)"));
}

#[test]
fn names_are_listed_once_per_item() {
    let a = "00000000-0000-0000-0000-00000000000a".to_owned();
    let rows = vec![
        (a.clone(), "Alice".to_owned()),
        ("junk".to_owned(), "Zed".to_owned()),
        (a.clone(), "Bob".to_owned()),
        (a, "Alice".to_owned()),
    ];
    let map = names_by_item(&rows);
    assert_eq!(map.entries.len(), 1);
    assert_eq!(map.get(&g(10)), Some(&vec!["Alice".to_owned(), "Bob".to_owned()]));
}

fn category(kind: RecommendationType, name: &str) -> SimilarItemsRecommendation<u8> {
    SimilarItemsRecommendation {
        baseline_item_name: name.to_owned(),
        category_id: g(1),
        recommendation_type: kind,
        items: vec![1],
    }
}

#[test]
fn categories_take_turns() {
    let played = RecommendationType::SimilarToRecentlyPlayed;
    let liked = RecommendationType::SimilarToLikedItem;
    let director = RecommendationType::HasDirectorFromRecentlyPlayed;
    let actor = RecommendationType::HasActorFromRecentlyPlayed;
    let out = round_robin_categories(
        vec![category(played, "p1"), category(played, "p2"), category(played, "p3")],
        vec![category(liked, "l1")],
        vec![category(director, "d1"), category(director, "d2")],
        vec![category(actor, "a1")],
        6,
    );
    assert_eq!(out.len(), 6);
    let count = |kind: RecommendationType| {
        out.iter().filter(|c| c.recommendation_type == kind).count()
    };
    assert!(count(played) >= 2);
    assert_eq!(count(liked), 1);
    // Kinds stand together, in the order in which they are declared.
    let ranks: Vec<u8> = out.iter().map(|c| c.recommendation_type as u8).collect();
    let mut sorted = ranks.clone();
    sorted.sort();
    assert_eq!(ranks, sorted);
}

#[test]
fn categories_need_items() {
    let kind = RecommendationType::SimilarToLikedItem;
    assert!(similar_category::<u8>("id", None, kind, Vec::new()).is_none());
    let made = similar_category(
        "00000000-0000-0000-0000-000000000007",
        Some("Base".to_owned()),
        kind,
        vec![1u8],
    )
    .expect("a category");
    assert_eq!(made.category_id, g(7));
    assert_eq!(made.baseline_item_name, "Base");
    assert!(person_category::<u8>("P", g(3), kind, Vec::new()).is_none());
    let made = person_category("P", g(3), kind, vec![1u8]).expect("a category");
    assert_eq!((made.baseline_item_name.as_str(), made.category_id), ("P", g(3)));
}

#[test]
fn recommendation_queries_are_bounded() {
    assert_eq!(wanted_categories(false, 6), None);
    assert_eq!(wanted_categories(true, 0), None);
    assert_eq!(wanted_categories(true, 4), Some(4));
    let ids: Vec<Guid> = (1..=9).map(g).collect();
    assert_eq!(people_sources(&ids).len(), 6);
    assert_eq!(directing_credits(), vec!["Director".to_owned()]);
    assert_eq!(acting_credits(), vec!["Actor".to_owned(), "GuestStar".to_owned()]);
    let q = person_query("Ann", RecommendationType::HasDirectorFromRecentlyPlayed, 5, g(4));
    assert_eq!(q.person.as_deref(), Some("Ann"));
    assert_eq!(q.user_id, Some(g(4)));
    assert_eq!(q.person_types, vec!["Director".to_owned()]);
}

#[test]
fn recommendations_skip_what_is_empty_and_unreadable() {
    let seed = |id: &str, items: Vec<u8>| Seed { id: id.to_owned(), name: None, items };
    let good = "00000000-0000-0000-0000-000000000007";
    let director = PersonMovies { name: "Ann".to_owned(), category_id: g(3), items: vec![5u8] };
    let nobody = PersonMovies { name: "Bea".to_owned(), category_id: g(4), items: Vec::new() };
    let out = movie_recommendations(
        vec![seed("junk", vec![1]), seed(good, Vec::new()), seed(good, vec![2])],
        vec![seed(good, vec![3])],
        vec![nobody, director],
        Vec::new(),
        3,
    );
    let shown: Vec<(u8, u8)> =
        out.iter().map(|c| (c.recommendation_type as u8, c.items[0])).collect();
    assert_eq!(shown, vec![(0, 2), (1, 3), (2, 5)]);
    assert_eq!(out[2].baseline_item_name, "Ann");
    // Only the first movies are compared with.
    let out = movie_recommendations(
        vec![seed("junk", vec![1]), seed(good, vec![2])],
        Vec::new(),
        Vec::new(),
        Vec::new(),
        1,
    );
    assert!(out.is_empty());
}
