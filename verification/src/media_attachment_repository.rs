//! Statements for the attachments of media files.
use vstd::prelude::*;

use crate::guid::{guid_text, hyphenated_text, Guid};
use crate::sql::{
    binds, copy_text, give, give_all, push_value, say, say_int, sql_list, BindValue, BindView,
    PieceView, Sql, SqlBuilder,
};
use crate::text::opt_text;

verus! {

/// The row of an attachment.
#[derive(Debug, Clone)]
pub struct AttachmentStreamInfoEntity {
    pub item_id: String,
    pub index: i64,
    pub codec: Option<String>,
    pub codec_tag: Option<String>,
    pub comment: Option<String>,
    pub filename: Option<String>,
    pub mime_type: Option<String>,
}

/// Which attachments are wanted.
#[derive(Debug, Clone, Copy)]
pub struct MediaAttachmentQuery {
    pub item_id: Guid,
    pub index: Option<i32>,
}

/// The statement for the attachments of an item, in the order of their indices.
pub open spec fn media_attachments_sql(f: MediaAttachmentQuery) -> Sql {
    say(
        say_int(
            give(
                seq![PieceView::Sql(r#"SELECT * FROM "AttachmentStreamInfos" WHERE "ItemId" = "#@)],
                BindView::Text(hyphenated_text(f.item_id.value)),
            ),
            r#" AND "Index" = "#@,
            f.index,
        ),
        r#" ORDER BY "Index""#@,
    )
}

/// The statement for the attachments of an item.
pub fn media_attachments_query(filter: &MediaAttachmentQuery) -> (r: SqlBuilder)
    ensures
        r@ == media_attachments_sql(*filter),
{
    let mut qb: SqlBuilder = SqlBuilder::new(
        r#"SELECT * FROM "AttachmentStreamInfos" WHERE "ItemId" = "#,
    );
    qb.push_bind(BindValue::Text(guid_text(filter.item_id)));
    qb.push_int(r#" AND "Index" = "#, filter.index);
    qb.push(r#" ORDER BY "Index""#);
    qb
}

/// The values of an attachment's row, in the order of the columns. The row
/// belongs to the item that is saved, whatever it says itself.
pub open spec fn attachment_values(item_id: Guid, a: AttachmentStreamInfoEntity) -> Seq<BindView> {
    seq![
        BindView::Text(hyphenated_text(item_id.value)),
        BindView::Int(a.index as int),
        BindView::OptionalText(opt_text(a.codec)),
        BindView::OptionalText(opt_text(a.codec_tag)),
        BindView::OptionalText(opt_text(a.comment)),
        BindView::OptionalText(opt_text(a.filename)),
        BindView::OptionalText(opt_text(a.mime_type)),
    ]
}

/// The statement that stores an attachment.
pub open spec fn insert_attachment_sql(item_id: Guid, a: AttachmentStreamInfoEntity) -> Sql {
    say(
        give_all(
            seq![
                PieceView::Sql(
                    r#"INSERT INTO "AttachmentStreamInfos" ("ItemId", "Index", "Codec", "CodecTag", "Comment", "Filename", "MimeType") VALUES ("#@,
                ),
            ],
            attachment_values(item_id, a),
        ),
        ")"@,
    )
}

fn insert_attachment_query(item_id: Guid, a: &AttachmentStreamInfoEntity) -> (r: SqlBuilder)
    ensures
        r@ == insert_attachment_sql(item_id, *a),
{
    let mut v: Vec<BindValue> = Vec::new();
    assert(binds(v@) =~= Seq::<BindView>::empty());
    push_value(&mut v, BindValue::Text(guid_text(item_id)));
    push_value(&mut v, BindValue::Int(a.index));
    push_value(&mut v, BindValue::OptionalText(copy_text(&a.codec)));
    push_value(&mut v, BindValue::OptionalText(copy_text(&a.codec_tag)));
    push_value(&mut v, BindValue::OptionalText(copy_text(&a.comment)));
    push_value(&mut v, BindValue::OptionalText(copy_text(&a.filename)));
    push_value(&mut v, BindValue::OptionalText(copy_text(&a.mime_type)));
    assert(binds(v@) =~= attachment_values(item_id, *a));
    let mut qb: SqlBuilder = SqlBuilder::new(
        r#"INSERT INTO "AttachmentStreamInfos" ("ItemId", "Index", "Codec", "CodecTag", "Comment", "Filename", "MimeType") VALUES ("#,
    );
    qb.push_all(v.as_slice());
    qb.push(")");
    qb
}

/// The statement that removes the attachments of an item.
pub open spec fn delete_attachments_sql(item_id: Guid) -> Sql {
    give(
        seq![PieceView::Sql(r#"DELETE FROM "AttachmentStreamInfos" WHERE "ItemId" = "#@)],
        BindView::Text(hyphenated_text(item_id.value)),
    )
}

/// The statements that store the attachments of an item in the place of those
/// that it has: first the old ones are removed, then the new ones are stored, in
/// order.
pub open spec fn save_attachments_sql(
    item_id: Guid,
    attachments: Seq<AttachmentStreamInfoEntity>,
) -> Seq<Sql> {
    seq![delete_attachments_sql(item_id)] + attachments.map_values(
        |a: AttachmentStreamInfoEntity| insert_attachment_sql(item_id, a),
    )
}

/// The statements that store the attachments of an item in the place of those
/// that it has. They belong in one transaction.
pub fn save_media_attachments(
    item_id: Guid,
    attachments: &Vec<AttachmentStreamInfoEntity>,
) -> (r: Vec<SqlBuilder>)
    ensures
        sql_list(r@) == save_attachments_sql(item_id, attachments@),
{
    let mut qb: SqlBuilder = SqlBuilder::new(
        r#"DELETE FROM "AttachmentStreamInfos" WHERE "ItemId" = "#,
    );
    qb.push_bind(BindValue::Text(guid_text(item_id)));
    let mut out: Vec<SqlBuilder> = vec![qb];
    let ghost all = save_attachments_sql(item_id, attachments@);
    let mut i: usize = 0;
    assert(sql_list(out@) =~= all.take(1));
    while i < attachments.len()
        invariant
            i <= attachments.len(),
            all == save_attachments_sql(item_id, attachments@),
            sql_list(out@) == all.take(i + 1),
        decreases attachments.len() - i,
    {
        let ghost before = sql_list(out@);
        let q: SqlBuilder = insert_attachment_query(item_id, &attachments[i]);
        assert(q@ == all[i + 1]);
        out.push(q);
        i += 1;
        assert(sql_list(out@) =~= before.push(q@));
        assert(all.take(i + 1) =~= all.take(i as int).push(all[i as int]));
    }
    assert(all.take(all.len() as int) =~= all);
    out
}

} // verus!
