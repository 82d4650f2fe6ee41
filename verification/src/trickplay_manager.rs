//! Trickplay: the rows that describe the preview images of an item, one for each
//! width.
use vstd::prelude::*;

use crate::guid::{guid_text, hyphenated_text, Guid};
use crate::sql::{
    binds, give, give_all, push_value, say, BindValue, BindView, PieceView, Sql, SqlBuilder,
};
use crate::table::Table;

verus! {

/// The row that describes the preview images of one width.
#[derive(Debug, Clone)]
pub struct TrickplayInfoEntity {
    pub item_id: String,
    pub width: i32,
    pub bandwidth: i32,
    pub height: i32,
    pub interval: i32,
    pub thumbnail_count: i32,
    pub tile_height: i32,
    pub tile_width: i32,
}

/// The statement for the rows of an item, by width.
pub fn resolutions_query(item_id: Guid) -> (r: SqlBuilder)
    ensures
        r@ == say(
            give(
                seq![PieceView::Sql(r#"SELECT * FROM "TrickplayInfos" WHERE "ItemId" = "#@)],
                BindView::Text(hyphenated_text(item_id.value)),
            ),
            r#" ORDER BY "Width""#@,
        ),
{
    let mut qb: SqlBuilder = SqlBuilder::new(
        r#"SELECT * FROM "TrickplayInfos" WHERE "ItemId" = "#,
    );
    qb.push_bind(BindValue::Text(guid_text(item_id)));
    qb.push(r#" ORDER BY "Width""#);
    qb
}

/// The statement for a page of all rows.
pub fn trickplay_items_query(limit: i32, offset: i32) -> (r: SqlBuilder)
    ensures
        r@ == give(
            say(
                give(
                    seq![
                        PieceView::Sql(
                            r#"SELECT * FROM "TrickplayInfos" ORDER BY "ItemId", "Width" LIMIT "#@,
                        ),
                    ],
                    BindView::Int(limit as int),
                ),
                " OFFSET "@,
            ),
            BindView::Int(offset as int),
        ),
{
    let mut qb: SqlBuilder = SqlBuilder::new(
        r#"SELECT * FROM "TrickplayInfos" ORDER BY "ItemId", "Width" LIMIT "#,
    );
    qb.push_bind(BindValue::Int(limit as i64));
    qb.push(" OFFSET ");
    qb.push_bind(BindValue::Int(offset as i64));
    qb
}

/// The values of a row, in the order of the columns.
pub open spec fn trickplay_values(t: TrickplayInfoEntity) -> Seq<BindView> {
    seq![
        BindView::Text(t.item_id@),
        BindView::Int(t.width as int),
        BindView::Int(t.bandwidth as int),
        BindView::Int(t.height as int),
        BindView::Int(t.interval as int),
        BindView::Int(t.thumbnail_count as int),
        BindView::Int(t.tile_height as int),
        BindView::Int(t.tile_width as int),
    ]
}

/// The statement that stores a row, in the place of the one with the same item
/// and width.
pub open spec fn save_trickplay_sql(t: TrickplayInfoEntity) -> Sql {
    say(
        give_all(
            seq![
                PieceView::Sql(
                    r#"INSERT INTO "TrickplayInfos" ("ItemId", "Width", "Bandwidth", "Height", "Interval", "ThumbnailCount", "TileHeight", "TileWidth") VALUES ("#@,
                ),
            ],
            trickplay_values(t),
        ),
        r#") ON CONFLICT ("ItemId", "Width") DO UPDATE SET "Bandwidth" = excluded."Bandwidth", "Height" = excluded."Height", "Interval" = excluded."Interval", "ThumbnailCount" = excluded."ThumbnailCount", "TileHeight" = excluded."TileHeight", "TileWidth" = excluded."TileWidth""#@,
    )
}

/// The statement that stores a row.
pub fn save_trickplay_query(info: &TrickplayInfoEntity) -> (r: SqlBuilder)
    ensures
        r@ == save_trickplay_sql(*info),
{
    let mut v: Vec<BindValue> = Vec::new();
    assert(binds(v@) =~= Seq::<BindView>::empty());
    push_value(&mut v, BindValue::Text(info.item_id.clone()));
    push_value(&mut v, BindValue::Int(info.width as i64));
    push_value(&mut v, BindValue::Int(info.bandwidth as i64));
    push_value(&mut v, BindValue::Int(info.height as i64));
    push_value(&mut v, BindValue::Int(info.interval as i64));
    push_value(&mut v, BindValue::Int(info.thumbnail_count as i64));
    push_value(&mut v, BindValue::Int(info.tile_height as i64));
    push_value(&mut v, BindValue::Int(info.tile_width as i64));
    assert(binds(v@) =~= trickplay_values(*info));
    let mut qb: SqlBuilder = SqlBuilder::new(
        r#"INSERT INTO "TrickplayInfos" ("ItemId", "Width", "Bandwidth", "Height", "Interval", "ThumbnailCount", "TileHeight", "TileWidth") VALUES ("#,
    );
    qb.push_all(v.as_slice());
    qb.push(
        r#") ON CONFLICT ("ItemId", "Width") DO UPDATE SET "Bandwidth" = excluded."Bandwidth", "Height" = excluded."Height", "Interval" = excluded."Interval", "ThumbnailCount" = excluded."ThumbnailCount", "TileHeight" = excluded."TileHeight", "TileWidth" = excluded."TileWidth""#,
    );
    qb
}

/// The statement that removes the rows of an item.
pub fn delete_trickplay_query(item_id: Guid) -> (r: SqlBuilder)
    ensures
        r@ == give(
            seq![PieceView::Sql(r#"DELETE FROM "TrickplayInfos" WHERE "ItemId" = "#@)],
            BindView::Text(hyphenated_text(item_id.value)),
        ),
{
    let mut qb: SqlBuilder = SqlBuilder::new(
        r#"DELETE FROM "TrickplayInfos" WHERE "ItemId" = "#,
    );
    qb.push_bind(BindValue::Text(guid_text(item_id)));
    qb
}

/// The rows by their width; of several with the same width the last counts.
pub open spec fn by_width(rows: Seq<TrickplayInfoEntity>) -> Map<i32, TrickplayInfoEntity>
    decreases rows.len(),
{
    if rows.len() == 0 {
        Map::empty()
    } else {
        by_width(rows.drop_last()).insert(rows.last().width, rows.last())
    }
}

/// The rows by their width.
pub fn resolutions(rows: Vec<TrickplayInfoEntity>) -> (r: Table<i32, TrickplayInfoEntity>)
    ensures
        r.wf(),
        r@ == by_width(rows@),
        r.entries@.len() == 0 <==> rows@.len() == 0,
{
    let ghost all = rows@;
    let mut rest: Vec<TrickplayInfoEntity> = rows;
    let mut out: Table<i32, TrickplayInfoEntity> = Table::new();
    let ghost mut done: int = 0;
    assert(all.skip(0) =~= all);
    assert(all.take(0) =~= Seq::<TrickplayInfoEntity>::empty());
    while rest.len() > 0
        invariant
            0 <= done <= all.len(),
            rest@ == all.skip(done),
            out.wf(),
            out@ == by_width(all.take(done)),
            out.entries@.len() == 0 <==> done == 0,
        decreases rest.len(),
    {
        let row: TrickplayInfoEntity = rest.remove(0);
        proof {
            assert(row == all[done]);
            assert(all.take(done + 1).drop_last() =~= all.take(done));
            assert(all.take(done + 1).last() == row);
            assert(rest@ =~= all.skip(done + 1));
            done = done + 1;
        }
        let width: i32 = row.width;
        out.insert(width, row);
        assert(out@.contains_key(width));
        assert(out.has(width));
    }
    assert(all.take(all.len() as int) =~= all);
    assert(done == all.len());
    out
}

/// The manifest of an item: its resolutions under the identifier of its media
/// source, which is the item's own. An item without resolutions has an empty one.
pub fn get_trickplay_manifest(
    item_id: Guid,
    resolutions: Table<i32, TrickplayInfoEntity>,
) -> (r: Table<String, Table<i32, TrickplayInfoEntity>>)
    ensures
        r.wf(),
        r@ == (if resolutions.entries@.len() == 0 {
            Map::empty()
        } else {
            Map::<Seq<char>, Table<i32, TrickplayInfoEntity>>::empty().insert(
                hyphenated_text(item_id.value),
                resolutions,
            )
        }),
{
    let mut out: Table<String, Table<i32, TrickplayInfoEntity>> = Table::new();
    if resolutions.entries.len() > 0 {
        out.insert(guid_text(item_id), resolutions);
    }
    out
}

/// A width that is among the rows is in the table, with a row of that width.
pub proof fn law_every_width_is_found(rows: Seq<TrickplayInfoEntity>, i: int)
    requires
        0 <= i < rows.len(),
    ensures
        by_width(rows).contains_key(rows[i].width),
        by_width(rows)[rows[i].width].width == rows[i].width,
    decreases rows.len(),
{
    if i < rows.len() - 1 {
        law_every_width_is_found(rows.drop_last(), i);
        assert(rows.drop_last()[i] == rows[i]);
    }
}

} // verus!
