use hermit_core::guid::Guid;
use hermit_core::item_type_lookup::ItemTypeNames;
use hermit_core::items_query::InternalItemsQuery;
use hermit_core::model::{BaseItemKind, ItemSortBy, SortOrder};
use hermit_core::sql::{Piece, SqlBuilder};
use hermit_core::time::Timestamp;
use hermit_core::translate_query::{build_query_at, QueryShape};

fn shown(q: &SqlBuilder) -> String {
    let mut out = String::new();
    for piece in &q.pieces {
        match piece {
            Piece::Sql(text) => out.push_str(text),
            Piece::Bind(value) => out.push_str(&format!("<{value:?}>")),
        }
    }
    out
}

fn names() -> ItemTypeNames {
    ItemTypeNames {
        entries: vec![
            (BaseItemKind::Movie, "M".to_owned()),
            (BaseItemKind::Series, "S".to_owned()),
        ],
    }
}

fn translated(filter: &InternalItemsQuery, shape: QueryShape) -> String {
    shown(&build_query_at(filter, shape, &names(), Timestamp { nanos: 0 }))
}

fn predicates(text: &str) -> &str {
    let from = text.find(" WHERE ").expect("predicates");
    let rest = &text[from..];
    match rest.find(" ORDER BY ").or_else(|| rest.find(" LIMIT ")).or_else(|| rest.find(" GROUP BY "))
    {
        Some(to) => &rest[..to],
        None => rest,
    }
}

#[test]
fn the_shapes_of_a_query_share_their_predicates() {
    let filter = InternalItemsQuery {
        include_item_types: vec![BaseItemKind::Movie, BaseItemKind::Series],
        years: vec![1999],
        ..InternalItemsQuery::default()
    };
    let full = translated(&filter, QueryShape::FullRows);
    for shape in [QueryShape::IdsOnly, QueryShape::Count, QueryShape::TypeCounts] {
        assert_eq!(predicates(&translated(&filter, shape)), predicates(&full));
    }
    assert!(full.contains(r#"<Text("M")>, <Text("S")>"#));
    assert!(full.contains("<Int(1999)>"));
}

#[test]
fn a_query_without_restrictions_only_hides_the_placeholder() {
    let text = translated(&InternalItemsQuery::default(), QueryShape::Count);
    assert!(text.contains(r#"bi."Id" <> "#) || text.contains("00000000-0000-0000-0000-000000000001"));
    assert!(!text.contains("EXISTS"));
    assert!(!text.contains("ORDER BY"));
}

#[test]
fn sort_keys_are_listed_in_turn() {
    let filter = InternalItemsQuery {
        order_by: vec![
            (ItemSortBy::ProductionYear, SortOrder::Descending),
            (ItemSortBy::SortName, SortOrder::Ascending),
        ],
        limit: Some(3),
        start_index: Some(6),
        ..InternalItemsQuery::default()
    };
    let text = translated(&filter, QueryShape::FullRows);
    let order = &text[text.find(" ORDER BY ").expect("an order")..];
    let year = order.find(r#"bi."ProductionYear""#).expect("the year");
    let name = order.find(r#"bi."SortName""#).expect("the name");
    assert!(year < name);
    assert!(order[year..name].contains("DESC"));
    assert!(order.contains(" LIMIT <Int(3)>"));
    assert!(order.contains(" OFFSET <Int(6)>"));
    assert!(!translated(&filter, QueryShape::Count).contains("LIMIT"));
}

#[test]
fn tri_state_flags_choose_their_predicate() {
    let hd = |is_hd: Option<bool>| {
        translated(
            &InternalItemsQuery { is_hd, ..InternalItemsQuery::default() },
            QueryShape::Count,
        )
    };
    let plain = hd(None);
    assert_ne!(hd(Some(true)), plain);
    assert_ne!(hd(Some(false)), plain);
    assert_ne!(hd(Some(true)), hd(Some(false)));
    assert!(hd(Some(true)).contains(r#"bi."Width""#));
}

#[test]
fn identifiers_are_bound_as_columns_hold_them() {
    let filter = InternalItemsQuery {
        item_ids: vec![Guid::from_u128(0xab)],
        ..InternalItemsQuery::default()
    };
    let text = translated(&filter, QueryShape::IdsOnly);
    assert!(text.contains(r#"<Text("00000000-0000-0000-0000-0000000000AB")>"#));
}

#[test]
fn dates_are_bound_as_columns_hold_them() {
    let filter = InternalItemsQuery {
        min_premiere_date: Some(Timestamp { nanos: 5 }),
        ..InternalItemsQuery::default()
    };
    let text = translated(&filter, QueryShape::FullRows);
    assert!(text.contains(r#" AND bi."PremiereDate" >= <StoredTime(Timestamp { nanos: 5 })>"#));
}
