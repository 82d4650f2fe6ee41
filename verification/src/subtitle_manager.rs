//! External subtitles: removing them from an item.
use vstd::prelude::*;

use crate::guid::{guid_text, hyphenated_text, Guid};
use crate::model::MediaStreamType;
use crate::service_error::{ErrorView, ServiceError};
use crate::sql::{give, say, BindValue, BindView, PieceView, Sql, SqlBuilder};
use crate::text::opt_text;

verus! {

/// The error of everything that needs a subtitle provider: there are none.
pub fn no_providers() -> (r: ServiceError)
    ensures
        r@ == ErrorView::InvalidInput("subtitle providers are not enabled on this server"@),
{
    ServiceError::InvalidInput("subtitle providers are not enabled on this server".to_owned())
}

/// A statement on the external subtitle stream of an item at an index.
pub open spec fn external_subtitle_sql(head: Seq<char>, item_id: Guid, index: i32) -> Sql {
    let a = give(seq![PieceView::Sql(head)], BindView::Text(hyphenated_text(item_id.value)));
    let b = give(say(a, r#" AND "StreamIndex" = "#@), BindView::Int(index as int));
    let c = give(
        say(b, r#" AND "StreamType" = "#@),
        BindView::StreamType(MediaStreamType::Subtitle),
    );
    say(c, r#" AND "IsExternal" = 1"#@)
}

fn external_subtitle_query(head: &'static str, item_id: Guid, index: i32) -> (r: SqlBuilder)
    ensures
        r@ == external_subtitle_sql(head@, item_id, index),
{
    let mut qb: SqlBuilder = SqlBuilder::new(head);
    qb.push_bind(BindValue::Text(guid_text(item_id)));
    qb.push(r#" AND "StreamIndex" = "#);
    qb.push_bind(BindValue::Int(index as i64));
    qb.push(r#" AND "StreamType" = "#);
    qb.push_bind(BindValue::StreamType(MediaStreamType::Subtitle));
    qb.push(r#" AND "IsExternal" = 1"#);
    qb
}

/// The statement for the file of an external subtitle stream.
pub fn subtitle_path_query(item_id: Guid, index: i32) -> (r: SqlBuilder)
    ensures
        r@ == external_subtitle_sql(
            r#"SELECT "Path" FROM "MediaStreamInfos" WHERE "ItemId" = "#@,
            item_id,
            index,
        ),
{
    external_subtitle_query(
        r#"SELECT "Path" FROM "MediaStreamInfos" WHERE "ItemId" = "#,
        item_id,
        index,
    )
}

/// The statement that removes an external subtitle stream.
pub fn delete_subtitle_query(item_id: Guid, index: i32) -> (r: SqlBuilder)
    ensures
        r@ == external_subtitle_sql(
            r#"DELETE FROM "MediaStreamInfos" WHERE "ItemId" = "#@,
            item_id,
            index,
        ),
{
    external_subtitle_query(
        r#"DELETE FROM "MediaStreamInfos" WHERE "ItemId" = "#,
        item_id,
        index,
    )
}

/// The file to remove: the one that the row names. `None` outside stands for a
/// row that does not exist, `None` inside for one that names no file.
pub fn file_to_remove(row: Option<Option<String>>) -> (r: Option<String>)
    ensures
        opt_text(r) == (match row {
            Some(Some(p)) => if p@.len() > 0 {
                Some(p@)
            } else {
                None
            },
            _ => None,
        }),
{
    match row {
        Some(Some(p)) => if p.as_str().unicode_len() > 0 {
            Some(p)
        } else {
            None
        },
        _ => None,
    }
}

/// How removing a file went.
#[derive(Debug, Clone)]
pub enum Removal {
    Removed,
    /// There was no such file.
    Missing,
    Failed(String),
}

/// Whether the row is removed too: a file that is not there is as good as one
/// that was removed.
pub fn after_removal(removal: Removal) -> (r: Result<(), ServiceError>)
    ensures
        r is Ok <==> !(removal is Failed),
        r matches Err(e) ==> (removal matches Removal::Failed(m) && e@ == ErrorView::Backend(m@)),
{
    match removal {
        Removal::Failed(m) => Err(ServiceError::Backend(m)),
        _ => Ok(()),
    }
}

} // verus!
