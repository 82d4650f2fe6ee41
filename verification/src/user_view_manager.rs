//! A user's views: the library folders of the home screen, and what is new in
//! each.
use vstd::prelude::*;

use crate::guid::{guid_in, parse_guid, Guid};
use crate::items_query::InternalItemsQuery;
use crate::model::{BaseItemKind, ItemSortBy, SortOrder};
use crate::text::texts;

verus! {

/// How many items are listed as new in a view.
pub const DEFAULT_LATEST_LIMIT: i32 = 20;

/// Whether `q` asks for the views, by name, and for nothing else.
pub open spec fn asks_for_views(q: InternalItemsQuery) -> bool {
    &&& q.include_item_types@ == seq![BaseItemKind::CollectionFolder, BaseItemKind::UserView]
    &&& q.order_by@ == seq![(ItemSortBy::SortName, SortOrder::Ascending)]
    &&& exists|d: InternalItemsQuery| #[trigger]
        d.is_unrestricted() && q == (InternalItemsQuery {
            include_item_types: q.include_item_types,
            order_by: q.order_by,
            ..d
        })
}

/// The query for the views.
pub fn user_views_query() -> (r: InternalItemsQuery)
    ensures
        asks_for_views(r),
{
    let d: InternalItemsQuery = InternalItemsQuery::default();
    let ghost plain = d;
    let q: InternalItemsQuery = InternalItemsQuery {
        include_item_types: vec![BaseItemKind::CollectionFolder, BaseItemKind::UserView],
        order_by: vec![(ItemSortBy::SortName, SortOrder::Ascending)],
        ..d
    };
    assert(plain.is_unrestricted());
    assert(q.include_item_types@ =~= seq![BaseItemKind::CollectionFolder, BaseItemKind::UserView]);
    assert(q.order_by@ =~= seq![(ItemSortBy::SortName, SortOrder::Ascending)]);
    q
}

/// Whether `q` asks for what is new in a view: the items below it that are no
/// folders, the newest first, and for nothing else.
pub open spec fn asks_for_latest(q: InternalItemsQuery, view: Guid) -> bool {
    &&& q.parent_id == view
    &&& q.recursive
    &&& q.is_folder == Some(false)
    &&& q.limit == Some(DEFAULT_LATEST_LIMIT)
    &&& q.order_by@ == seq![(ItemSortBy::DateCreated, SortOrder::Descending)]
    &&& exists|d: InternalItemsQuery| #[trigger]
        d.is_unrestricted() && q == (InternalItemsQuery {
            parent_id: q.parent_id,
            recursive: q.recursive,
            is_folder: q.is_folder,
            limit: q.limit,
            order_by: q.order_by,
            ..d
        })
}

/// The query for what is new in a view.
pub fn latest_query(view: Guid) -> (r: InternalItemsQuery)
    ensures
        asks_for_latest(r, view),
{
    let d: InternalItemsQuery = InternalItemsQuery::default();
    let ghost plain = d;
    let q: InternalItemsQuery = InternalItemsQuery {
        parent_id: view,
        recursive: true,
        is_folder: Some(false),
        limit: Some(DEFAULT_LATEST_LIMIT),
        order_by: vec![(ItemSortBy::DateCreated, SortOrder::Descending)],
        ..d
    };
    assert(plain.is_unrestricted());
    assert(q.order_by@ =~= seq![(ItemSortBy::DateCreated, SortOrder::Descending)]);
    q
}

/// A view to list what is new in: its place among the views, and the query.
#[derive(Debug, Clone)]
pub struct LatestQuery {
    pub view: usize,
    pub query: InternalItemsQuery,
}

/// The places of the texts that are identifiers.
pub open spec fn readable_places(ids: Seq<Seq<char>>) -> Seq<int>
    decreases ids.len(),
{
    if ids.len() == 0 {
        Seq::empty()
    } else {
        let head = readable_places(ids.drop_last());
        if guid_in(ids.last()) is Some {
            head.push(ids.len() - 1)
        } else {
            head
        }
    }
}

/// The queries for what is new in the views with these identifiers, in their
/// order. A view whose identifier cannot be read is left out.
pub fn latest_queries(view_ids: &Vec<String>) -> (r: Vec<LatestQuery>)
    ensures
        r@.len() == readable_places(texts(view_ids@)).len(),
        forall|i: int|
            0 <= i < r@.len() ==> {
                &&& (#[trigger] r@[i]).view == readable_places(texts(view_ids@))[i]
                &&& r@[i].view < view_ids@.len()
                &&& guid_in(view_ids@[r@[i].view as int]@) is Some
                &&& asks_for_latest(r@[i].query, guid_in(view_ids@[r@[i].view as int]@)->0)
            },
{
    let ghost all = texts(view_ids@);
    let mut out: Vec<LatestQuery> = Vec::new();
    let mut i: usize = 0;
    while i < view_ids.len()
        invariant
            i <= view_ids.len(),
            all == texts(view_ids@),
            out@.len() == readable_places(all.take(i as int)).len(),
            forall|j: int|
                0 <= j < out@.len() ==> {
                    &&& (#[trigger] out@[j]).view == readable_places(all.take(i as int))[j]
                    &&& out@[j].view < view_ids@.len()
                    &&& guid_in(view_ids@[out@[j].view as int]@) is Some
                    &&& asks_for_latest(
                        out@[j].query,
                        guid_in(view_ids@[out@[j].view as int]@)->0,
                    )
                },
        decreases view_ids.len() - i,
    {
        assert(all.take(i + 1).drop_last() =~= all.take(i as int));
        assert(all.take(i + 1).last() == view_ids@[i as int]@);
        if let Some(id) = parse_guid(view_ids[i].as_str()) {
            out.push(LatestQuery { view: i, query: latest_query(id) });
        }
        i += 1;
    }
    assert(all.take(all.len() as int) =~= all);
    out
}

} // verus!
