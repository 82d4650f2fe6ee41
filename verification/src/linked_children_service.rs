//! Linked children: the entries of playlists and collections, and the artists
//! with given names.
use vstd::prelude::*;

use crate::guid::{guid_text, hyphenated_text, read_guids, readable, Guid};
use crate::item_type_lookup::ItemTypeNames;
use crate::model::BaseItemKind;
use crate::sql::{
    give, give_all, say, say_int, sql_list, text_binds, text_values, BindValue, BindView,
    PieceView, Sql, SqlBuilder,
};
use crate::table::Table;
use crate::text::{lowercase, same_text, texts, to_lowercase};

verus! {

/// The stored type of a child that was linked by hand.
pub const MANUAL_CHILD_TYPE: i32 = 0;

/// A bound identifier.
pub open spec fn id_value(id: Guid) -> BindView {
    BindView::Text(hyphenated_text(id.value))
}

// ---------------------------------------------------------------------------
// Children and parents
// ---------------------------------------------------------------------------
/// The statement for the children of a parent, of one type or of all, in their
/// order.
pub fn linked_children_query(parent_id: Guid, child_type: Option<i32>) -> (r: SqlBuilder)
    ensures
        r@ == say(
            say_int(
                give(
                    seq![
                        PieceView::Sql(
                            r#"SELECT "ChildId" FROM "LinkedChildren" WHERE "ParentId" = "#@,
                        ),
                    ],
                    id_value(parent_id),
                ),
                r#" AND "ChildType" = "#@,
                child_type,
            ),
            r#" ORDER BY "SortOrder""#@,
        ),
{
    let mut qb: SqlBuilder = SqlBuilder::new(
        r#"SELECT "ChildId" FROM "LinkedChildren" WHERE "ParentId" = "#,
    );
    qb.push_bind(BindValue::Text(guid_text(parent_id)));
    qb.push_int(r#" AND "ChildType" = "#, child_type);
    qb.push(r#" ORDER BY "SortOrder""#);
    qb
}

/// The identifiers in rows of identifiers. What cannot be read is left out.
pub fn linked_ids(rows: &Vec<String>) -> (r: Vec<Guid>)
    ensures
        r@ == readable(texts(rows@)),
{
    read_guids(rows.as_slice())
}

/// The statement for the parents to which a child was linked by hand.
pub open spec fn manual_parents_sql(child_id: Guid) -> Sql {
    give(
        say(
            give(
                seq![
                    PieceView::Sql(
                        r#"SELECT DISTINCT "ParentId" FROM "LinkedChildren" WHERE "ChildId" = "#@,
                    ),
                ],
                id_value(child_id),
            ),
            r#" AND "ChildType" = "#@,
        ),
        BindView::Int(MANUAL_CHILD_TYPE as int),
    )
}

/// The statement for the parents of a type to which a child was linked by hand.
pub open spec fn manual_parents_of_type_sql(child_id: Guid, stored_type: Seq<char>) -> Sql {
    let a = give(
        seq![
            PieceView::Sql(
                r#"SELECT DISTINCT lc."ParentId" FROM "LinkedChildren" lc JOIN "BaseItems" bi ON bi."Id" = lc."ParentId" WHERE lc."ChildId" = "#@,
            ),
        ],
        id_value(child_id),
    );
    let b = give(say(a, r#" AND lc."ChildType" = "#@), BindView::Int(MANUAL_CHILD_TYPE as int));
    give(say(b, r#" AND bi."Type" = "#@), BindView::Text(stored_type))
}

fn all_manual_parents_query(child_id: Guid) -> (r: SqlBuilder)
    ensures
        r@ == manual_parents_sql(child_id),
{
    let mut qb: SqlBuilder = SqlBuilder::new(
        r#"SELECT DISTINCT "ParentId" FROM "LinkedChildren" WHERE "ChildId" = "#,
    );
    qb.push_bind(BindValue::Text(guid_text(child_id)));
    qb.push(r#" AND "ChildType" = "#);
    qb.push_bind(BindValue::Int(MANUAL_CHILD_TYPE as i64));
    qb
}

/// The statement for the parents to which a child was linked by hand, of one kind
/// or of all. There is none for a kind that no row has: nothing is found then.
pub fn manual_parents_query(
    names: &ItemTypeNames,
    child_id: Guid,
    parent_type: Option<BaseItemKind>,
) -> (r: Option<SqlBuilder>)
    ensures
        match parent_type {
            None => r matches Some(q) && q@ == manual_parents_sql(child_id),
            Some(kind) => match names.name_of(kind) {
                Some(name) => r matches Some(q) && q@ == manual_parents_of_type_sql(child_id, name),
                None => r is None,
            },
        },
{
    match parent_type {
        None => Some(all_manual_parents_query(child_id)),
        Some(kind) => match names.stored_type_name(kind) {
            None => None,
            Some(name) => {
                let mut qb: SqlBuilder = SqlBuilder::new(
                    r#"SELECT DISTINCT lc."ParentId" FROM "LinkedChildren" lc JOIN "BaseItems" bi ON bi."Id" = lc."ParentId" WHERE lc."ChildId" = "#,
                );
                qb.push_bind(BindValue::Text(guid_text(child_id)));
                qb.push(r#" AND lc."ChildType" = "#);
                qb.push_bind(BindValue::Int(MANUAL_CHILD_TYPE as i64));
                qb.push(r#" AND bi."Type" = "#);
                qb.push_text(name.as_str());
                Some(qb)
            },
        },
    }
}

// ---------------------------------------------------------------------------
// Rerouting
// ---------------------------------------------------------------------------
/// The statement that removes the links to a child from parents that another
/// child is linked to as well.
pub open spec fn drop_doubles_sql(from: Guid, to: Guid) -> Sql {
    let manual = BindView::Int(MANUAL_CHILD_TYPE as int);
    let a = give(
        seq![PieceView::Sql(r#"DELETE FROM "LinkedChildren" WHERE "ChildId" = "#@)],
        id_value(from),
    );
    let b = give(say(a, r#" AND "ChildType" = "#@), manual);
    let c = give(
        say(
            b,
            r#" AND "ParentId" IN (SELECT "ParentId" FROM "LinkedChildren" WHERE "ChildId" = "#@,
        ),
        id_value(to),
    );
    say(give(say(c, r#" AND "ChildType" = "#@), manual), ")"@)
}

/// The statement that makes links to a child links to another.
pub open spec fn retarget_sql(from: Guid, to: Guid) -> Sql {
    let a = give(
        seq![PieceView::Sql(r#"UPDATE "LinkedChildren" SET "ChildId" = "#@)],
        id_value(to),
    );
    let b = give(say(a, r#" WHERE "ChildId" = "#@), id_value(from));
    give(say(b, r#" AND "ChildType" = "#@), BindView::Int(MANUAL_CHILD_TYPE as int))
}

/// The statement for the parents that rerouting affects.
pub fn affected_parents_query(from_child_id: Guid) -> (r: SqlBuilder)
    ensures
        r@ == manual_parents_sql(from_child_id),
{
    all_manual_parents_query(from_child_id)
}

/// What rerouting does: the statements, and the parents that it affects.
#[derive(Debug, Clone)]
pub struct Reroute {
    pub statements: Vec<SqlBuilder>,
    pub parents: Vec<Guid>,
}

/// Makes the links that were made by hand to one child links to another.
/// `affected` are the rows of the parents that are linked to it. Without any there
/// is nothing to do; else the links that would become doubles are removed first.
/// The statements belong in one transaction.
pub fn reroute_linked_children(
    affected: &Vec<String>,
    from_child_id: Guid,
    to_child_id: Guid,
) -> (r: Reroute)
    ensures
        sql_list(r.statements@) == (if affected@.len() == 0 {
            Seq::empty()
        } else {
            seq![
                drop_doubles_sql(from_child_id, to_child_id),
                retarget_sql(from_child_id, to_child_id),
            ]
        }),
        r.parents@ == readable(texts(affected@)),
{
    let parents: Vec<Guid> = read_guids(affected.as_slice());
    let mut statements: Vec<SqlBuilder> = Vec::new();
    assert(sql_list(statements@) =~= Seq::<Sql>::empty());
    if affected.len() > 0 {
        let mut a: SqlBuilder = SqlBuilder::new(
            r#"DELETE FROM "LinkedChildren" WHERE "ChildId" = "#,
        );
        a.push_bind(BindValue::Text(guid_text(from_child_id)));
        a.push(r#" AND "ChildType" = "#);
        a.push_bind(BindValue::Int(MANUAL_CHILD_TYPE as i64));
        a.push(
            r#" AND "ParentId" IN (SELECT "ParentId" FROM "LinkedChildren" WHERE "ChildId" = "#,
        );
        a.push_bind(BindValue::Text(guid_text(to_child_id)));
        a.push(r#" AND "ChildType" = "#);
        a.push_bind(BindValue::Int(MANUAL_CHILD_TYPE as i64));
        a.push(")");
        let mut b: SqlBuilder = SqlBuilder::new(r#"UPDATE "LinkedChildren" SET "ChildId" = "#);
        b.push_bind(BindValue::Text(guid_text(to_child_id)));
        b.push(r#" WHERE "ChildId" = "#);
        b.push_bind(BindValue::Text(guid_text(from_child_id)));
        b.push(r#" AND "ChildType" = "#);
        b.push_bind(BindValue::Int(MANUAL_CHILD_TYPE as i64));
        statements.push(a);
        statements.push(b);
        assert(sql_list(statements@) =~= seq![
            drop_doubles_sql(from_child_id, to_child_id),
            retarget_sql(from_child_id, to_child_id),
        ]);
    }
    Reroute { statements, parents }
}

/// The statement that links a child to a parent; a link that is there gets the
/// new type.
pub fn upsert_linked_child_query(parent_id: Guid, child_id: Guid, child_type: i32) -> (r:
    SqlBuilder)
    ensures
        r@ == say(
            give_all(
                seq![
                    PieceView::Sql(
                        r#"INSERT INTO "LinkedChildren" ("ParentId", "ChildId", "ChildType", "SortOrder") VALUES ("#@,
                    ),
                ],
                seq![id_value(parent_id), id_value(child_id), BindView::Int(child_type as int)],
            ),
            r#", NULL) ON CONFLICT("ParentId", "ChildId") DO UPDATE SET "ChildType" = excluded."ChildType""#@,
        ),
{
    let values: Vec<BindValue> = vec![
        BindValue::Text(guid_text(parent_id)),
        BindValue::Text(guid_text(child_id)),
        BindValue::Int(child_type as i64),
    ];
    assert(crate::sql::binds(values@) =~= seq![
        id_value(parent_id),
        id_value(child_id),
        BindView::Int(child_type as int),
    ]);
    let mut qb: SqlBuilder = SqlBuilder::new(
        r#"INSERT INTO "LinkedChildren" ("ParentId", "ChildId", "ChildType", "SortOrder") VALUES ("#,
    );
    qb.push_all(values.as_slice());
    qb.push(
        r#", NULL) ON CONFLICT("ParentId", "ChildId") DO UPDATE SET "ChildType" = excluded."ChildType""#,
    );
    qb
}

// ---------------------------------------------------------------------------
// Artists
// ---------------------------------------------------------------------------
/// The texts in lower case.
pub open spec fn lowered(v: Seq<Seq<char>>) -> Seq<Seq<char>> {
    v.map_values(|s: Seq<char>| lowercase(s))
}

fn lower_all(v: &Vec<String>) -> (r: Vec<String>)
    ensures
        texts(r@) == lowered(texts(v@)),
{
    let mut out: Vec<String> = Vec::new();
    let mut i: usize = 0;
    while i < v.len()
        invariant
            i <= v.len(),
            out@.len() == i,
            forall|j: int| 0 <= j < i ==> (#[trigger] out@[j])@ == lowercase(v@[j]@),
        decreases v.len() - i,
    {
        out.push(to_lowercase(v[i].as_str()));
        i += 1;
    }
    assert(texts(out@) =~= lowered(texts(v@)));
    out
}

/// The statement for the artists with one of the names, whatever the case.
pub open spec fn artists_sql(stored_type: Seq<char>, names: Seq<Seq<char>>) -> Sql {
    say(
        give_all(
            say(
                give(
                    seq![PieceView::Sql(r#"SELECT * FROM "BaseItems" WHERE "Type" = "#@)],
                    BindView::Text(stored_type),
                ),
                r#" AND LOWER("Name") IN ("#@,
            ),
            text_values(lowered(names)),
        ),
        ")"@,
    )
}

/// The statement for the artists with one of the names. There is none without
/// names, or where rows do not store artists: nothing is found then.
pub fn artists_query(names: &ItemTypeNames, artist_names: &Vec<String>) -> (r: Option<SqlBuilder>)
    ensures
        match names.name_of(BaseItemKind::MusicArtist) {
            Some(t) => if artist_names@.len() > 0 {
                r matches Some(q) && q@ == artists_sql(t, texts(artist_names@))
            } else {
                r is None
            },
            None => r is None,
        },
{
    if artist_names.len() == 0 {
        return None;
    }
    match names.stored_type_name(BaseItemKind::MusicArtist) {
        None => None,
        Some(t) => {
            let lower: Vec<String> = lower_all(artist_names);
            let values: Vec<BindValue> = text_binds(lower.as_slice());
            let mut qb: SqlBuilder = SqlBuilder::new(
                r#"SELECT * FROM "BaseItems" WHERE "Type" = "#,
            );
            qb.push_text(t.as_str());
            qb.push(r#" AND LOWER("Name") IN ("#);
            qb.push_all(values.as_slice());
            qb.push(")");
            Some(qb)
        },
    }
}

/// Whether a row has the name, whatever the case.
pub open spec fn is_called(row: Option<String>, name: Seq<char>) -> bool {
    row matches Some(n) && lowercase(n@) == lowercase(name)
}

/// The places of the rows that have the name, in their order.
pub open spec fn places_called(rows: Seq<Option<String>>, name: Seq<char>) -> Seq<usize>
    decreases rows.len(),
{
    if rows.len() == 0 {
        Seq::empty()
    } else {
        let head = places_called(rows.drop_last(), name);
        if is_called(rows.last(), name) {
            head.push((rows.len() - 1) as usize)
        } else {
            head
        }
    }
}

fn find_called(rows: &Vec<Option<String>>, name: &str) -> (r: Vec<usize>)
    ensures
        r@ == places_called(rows@, name@),
{
    let lower: String = to_lowercase(name);
    let mut out: Vec<usize> = Vec::new();
    let mut i: usize = 0;
    while i < rows.len()
        invariant
            i <= rows.len(),
            lower@ == lowercase(name@),
            out@ == places_called(rows@.take(i as int), name@),
        decreases rows.len() - i,
    {
        assert(rows@.take(i + 1).drop_last() =~= rows@.take(i as int));
        assert(rows@.take(i + 1).last() == rows@[i as int]);
        if let Some(n) = &rows[i] {
            let own: String = to_lowercase(n.as_str());
            if same_text(own.as_str(), lower.as_str()) {
                out.push(i);
            }
        }
        i += 1;
    }
    assert(rows@.take(rows@.len() as int) =~= rows@);
    out
}

/// Whether `found` holds, under each of the names that some row has, the places of
/// the rows that have it, and nothing else.
pub open spec fn groups(
    found: Map<Seq<char>, Vec<usize>>,
    names: Seq<Seq<char>>,
    rows: Seq<Option<String>>,
) -> bool {
    &&& forall|k: Seq<char>| #[trigger]
        found.contains_key(k) <==> names.contains(k) && places_called(rows, k).len() > 0
    &&& forall|k: Seq<char>| #[trigger]
        found.contains_key(k) ==> found[k]@ == places_called(rows, k)
}

/// The rows under the names that were asked for: the places of the rows with each
/// name. `rows` holds the names of the rows. A name that no row has is left out.
pub fn find_artists(artist_names: &Vec<String>, rows: &Vec<Option<String>>) -> (r: Table<
    String,
    Vec<usize>,
>)
    ensures
        r.wf(),
        groups(r@, texts(artist_names@), rows@),
{
    let ghost all = texts(artist_names@);
    let mut out: Table<String, Vec<usize>> = Table::new();
    let mut i: usize = 0;
    assert(all.take(0) =~= Seq::<Seq<char>>::empty());
    while i < artist_names.len()
        invariant
            i <= artist_names.len(),
            all == texts(artist_names@),
            out.wf(),
            groups(out@, all.take(i as int), rows@),
        decreases artist_names.len() - i,
    {
        let ghost name = artist_names@[i as int]@;
        let ghost before = out@;
        let matches_: Vec<usize> = find_called(rows, artist_names[i].as_str());
        let hit: bool = matches_.len() > 0;
        if hit {
            out.insert(artist_names[i].clone(), matches_);
        }
        proof {
            let now = all.take(i + 1);
            let then = all.take(i as int);
            assert(now =~= then.push(name));
            assert forall|k: Seq<char>| now.contains(k) <==> then.contains(k) || k == name by {
                if then.contains(k) {
                    let j = choose|j: int| 0 <= j < then.len() && then[j] == k;
                    assert(now[j] == k);
                }
                if k == name {
                    assert(now[i as int] == k);
                }
            }
            assert forall|k: Seq<char>| #[trigger]
                out@.contains_key(k) <==> now.contains(k) && places_called(rows@, k).len() > 0 by {
                assert(before.contains_key(k) <==> then.contains(k) && places_called(
                    rows@,
                    k,
                ).len() > 0);
            }
            assert forall|k: Seq<char>| #[trigger] out@.contains_key(k) implies out@[k]@
                == places_called(rows@, k) by {
                if k != name {
                    assert(before.contains_key(k));
                }
            }
        }
        i += 1;
    }
    assert(all.take(all.len() as int) =~= all);
    out
}

} // verus!
