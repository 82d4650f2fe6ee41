//! People, and their credits on items.
//!
//! There is one row per name and credit type; credits tie such rows to items. A
//! query for an item's people keeps the order of its credits; any other query
//! shows each name once, whatever its letters' case.
use vstd::prelude::*;

use crate::guid::{guid_in, guid_text, hyphenated_text, new_guid, parse_guid, Guid};
use crate::paging::{count_of, front, least, record_count, rest, Page};
use crate::sql::{
    copy_text, filled, give, give_all, non_blank, plain_guid_binds, plain_guid_values, say,
    text_binds, text_values, BindValue, BindView, Sql, SqlBuilder,
};
use crate::table::{group_of, Table};
use crate::text::{
    blank, char_is_alphabetic, char_is_numeric, concat, concat3, contains_text, is_alphabetic,
    is_blank, is_numeric, lowercase, opt_text, texts, to_lowercase, to_uppercase, trim, trimmed,
    uppercase,
};

verus! {

/// The stored type name of a person's own item.
pub const PERSON_TYPE_NAME: &'static str = "MediaBrowser.Controller.Entities.Person";

/// Which people a query asks for.
#[derive(Debug, Clone)]
pub struct InternalPeopleQuery {
    /// The item they are credited on; the nil identifier for any.
    pub item_id: Guid,
    /// A folder above the item.
    pub parent_id: Option<Guid>,
    /// Credit types of which the person has one.
    pub person_types: Vec<String>,
    /// Credit types that the person does not have.
    pub exclude_person_types: Vec<String>,
    /// The last place in the item's credits.
    pub max_list_order: Option<i32>,
    /// Text that the name holds, whatever its letters' case.
    pub name_contains: Option<String>,
    /// How the name begins.
    pub name_starts_with: Option<String>,
    /// What the name comes before.
    pub name_less_than: Option<String>,
    /// What the name does not come before.
    pub name_starts_with_or_greater: Option<String>,
    /// The user whose favorites are asked for.
    pub user_id: Option<Guid>,
    /// Whether the person is a favorite of that user.
    pub is_favorite: Option<bool>,
    /// Where the page starts.
    pub start_index: Option<i32>,
    /// How long the page is; not positive for no limit.
    pub limit: i32,
}

/// A person with a credit type.
#[derive(Debug, Clone)]
pub struct PersonRow {
    pub id: String,
    pub name: String,
    pub person_type: Option<String>,
}

/// What a person stands for.
pub struct PersonView {
    pub id: Seq<char>,
    pub name: Seq<char>,
    pub person_type: Option<Seq<char>>,
}

impl View for PersonRow {
    type V = PersonView;

    open spec fn view(&self) -> PersonView {
        PersonView {
            id: self.id@,
            name: self.name@,
            person_type: opt_text(self.person_type),
        }
    }
}

/// What a list of people stands for.
pub open spec fn person_views(v: Seq<PersonRow>) -> Seq<PersonView> {
    Seq::new(v.len(), |i: int| v[i]@)
}

// ---------------------------------------------------------------------------
// Credit types
// ---------------------------------------------------------------------------
/// Whether every character is a letter or a digit.
pub open spec fn is_alphanumeric_text(s: Seq<char>) -> bool {
    forall|i: int|
        0 <= i < s.len() ==> char_is_alphabetic(#[trigger] s[i]) || char_is_numeric(s[i])
}

/// Whether a credit type can be asked for: it is not blank, and holds letters and
/// digits only.
pub open spec fn valid_person_type(s: Seq<char>) -> bool {
    !is_blank(s) && is_alphanumeric_text(s)
}

/// Whether a credit type can be asked for.
pub fn is_valid_person_type(value: &str) -> (r: bool)
    ensures
        r == valid_person_type(value@),
{
    if blank(value) {
        return false;
    }
    let mut ok: bool = true;
    for c in it: value.chars()
        invariant
            it.seq() == value@,
            ok == is_alphanumeric_text(value@.take(it.index())),
    {
        let ghost n = it.index();
        assert(value@.take(n + 1) =~= value@.take(n).push(c));
        let word: bool = is_alphabetic(c) || is_numeric(c);
        proof {
            let longer = value@.take(n + 1);
            let shorter = value@.take(n);
            if is_alphanumeric_text(longer) {
                assert(longer[n] == c);
                assert forall|i: int| 0 <= i < shorter.len() implies char_is_alphabetic(
                    #[trigger] shorter[i],
                ) || char_is_numeric(shorter[i]) by {
                    assert(longer[i] == shorter[i]);
                }
            }
            if is_alphanumeric_text(shorter) && (char_is_alphabetic(c) || char_is_numeric(c)) {
                assert forall|i: int| 0 <= i < longer.len() implies char_is_alphabetic(
                    #[trigger] longer[i],
                ) || char_is_numeric(longer[i]) by {
                    if i < n {
                        assert(longer[i] == shorter[i]);
                    }
                }
            }
        }
        ok = ok && word;
    }
    assert(value@.take(value@.len() as int) =~= value@);
    ok
}

/// The credit types that can be asked for, in their order.
pub open spec fn valid_types(v: Seq<Seq<char>>) -> Seq<Seq<char>>
    decreases v.len(),
{
    if v.len() == 0 {
        Seq::empty()
    } else if valid_person_type(v.last()) {
        valid_types(v.drop_last()).push(v.last())
    } else {
        valid_types(v.drop_last())
    }
}

fn keep_valid_types(v: &[String]) -> (r: Vec<String>)
    ensures
        texts(r@) == valid_types(texts(v@)),
{
    let ghost all = texts(v@);
    let mut out: Vec<String> = Vec::new();
    let mut i: usize = 0;
    assert(texts(out@) =~= valid_types(all.take(0)));
    while i < v.len()
        invariant
            i <= v.len(),
            all == texts(v@),
            texts(out@) == valid_types(all.take(i as int)),
        decreases v.len() - i,
    {
        assert(all.take(i + 1).drop_last() =~= all.take(i as int));
        assert(all.take(i + 1).last() == v@[i as int]@);
        let ghost before = out@;
        if is_valid_person_type(v[i].as_str()) {
            out.push(v[i].clone());
            assert(texts(out@) =~= texts(before).push(v@[i as int]@));
        }
        i += 1;
    }
    assert(all.take(all.len() as int) =~= all);
    out
}

// ---------------------------------------------------------------------------
// Predicates
// ---------------------------------------------------------------------------
/// `acc`, and the item they are credited on.
pub open spec fn item_predicate(acc: Sql, f: InternalPeopleQuery) -> Sql {
    if f.item_id.value == 0 {
        acc
    } else {
        say(
            give(
                say(
                    acc,
                    r#" AND EXISTS (SELECT 1 FROM "PeopleBaseItemMap" mx WHERE mx."PeopleId" = p."Id" AND mx."ItemId" = "#@,
                ),
                BindView::Text(hyphenated_text(f.item_id.value)),
            ),
            ")"@,
        )
    }
}

/// `acc`, and the folder above the item.
pub open spec fn parent_predicate(acc: Sql, f: InternalPeopleQuery) -> Sql {
    match f.parent_id {
        Some(parent) => say(
            give(
                say(
                    acc,
                    r#" AND EXISTS (SELECT 1 FROM "PeopleBaseItemMap" mp JOIN "AncestorIds" a ON a."ItemId" = mp."ItemId" WHERE mp."PeopleId" = p."Id" AND a."ParentItemId" = "#@,
                ),
                BindView::Text(hyphenated_text(parent.value)),
            ),
            ")"@,
        ),
        None => acc,
    }
}

/// `acc`, and the credit types of which the person has one. Types that cannot be
/// asked for do not count.
pub open spec fn included_types(acc: Sql, types: Seq<Seq<char>>) -> Sql {
    let valid = valid_types(types);
    if valid.len() == 0 {
        acc
    } else {
        say(give_all(say(acc, r#" AND p."PersonType" IN ("#@), text_values(valid)), ")"@)
    }
}

/// `acc`, and the credit types that the person does not have.
pub open spec fn excluded_types(acc: Sql, types: Seq<Seq<char>>) -> Sql {
    let valid = valid_types(types);
    if valid.len() == 0 {
        acc
    } else {
        say(
            give_all(
                say(acc, r#" AND (p."PersonType" IS NULL OR p."PersonType" NOT IN ("#@),
                text_values(valid),
            ),
            "))"@,
        )
    }
}

/// `acc`, and the last place in the item's credits.
pub open spec fn order_predicate(acc: Sql, f: InternalPeopleQuery) -> Sql {
    match f.max_list_order {
        Some(n) => if f.item_id.value == 0 {
            acc
        } else {
            say(
                give(
                    say(
                        give(
                            say(
                                acc,
                                r#" AND EXISTS (SELECT 1 FROM "PeopleBaseItemMap" mo WHERE mo."PeopleId" = p."Id" AND mo."ItemId" = "#@,
                            ),
                            BindView::Text(hyphenated_text(f.item_id.value)),
                        ),
                        r#" AND mo."ListOrder" <= "#@,
                    ),
                    BindView::Int(n as int),
                ),
                ")"@,
            )
        },
        None => acc,
    }
}

/// `acc`, and what the name holds, begins with, comes before and does not come
/// before.
pub open spec fn name_predicates(acc: Sql, f: InternalPeopleQuery) -> Sql {
    let a = match filled(f.name_contains) {
        Some(s) => give(
            say(acc, r#" AND UPPER(p."Name") LIKE "#@),
            BindView::Text("%"@ + uppercase(s) + "%"@),
        ),
        None => acc,
    };
    let b = match filled(f.name_starts_with) {
        Some(s) => give(say(a, r#" AND p."Name" LIKE "#@), BindView::Text(lowercase(s) + "%"@)),
        None => a,
    };
    let c = match filled(f.name_less_than) {
        Some(s) => give(say(b, r#" AND p."Name" < "#@), BindView::Text(lowercase(s))),
        None => b,
    };
    match filled(f.name_starts_with_or_greater) {
        Some(s) => give(say(c, r#" AND p."Name" >= "#@), BindView::Text(lowercase(s))),
        None => c,
    }
}

/// `acc` and then every predicate of the query.
pub open spec fn people_predicates(acc: Sql, f: InternalPeopleQuery) -> Sql {
    name_predicates(
        order_predicate(
            excluded_types(
                included_types(
                    parent_predicate(item_predicate(acc, f), f),
                    texts(f.person_types@),
                ),
                texts(f.exclude_person_types@),
            ),
            f,
        ),
        f,
    )
}

fn push_item(qb: &mut SqlBuilder, filter: &InternalPeopleQuery)
    ensures
        final(qb)@ == item_predicate(old(qb)@, *filter),
{
    if !filter.item_id.is_nil() {
        qb.push(
            r#" AND EXISTS (SELECT 1 FROM "PeopleBaseItemMap" mx WHERE mx."PeopleId" = p."Id" AND mx."ItemId" = "#,
        );
        qb.push_bind(BindValue::Text(guid_text(filter.item_id)));
        qb.push(")");
    }
}

fn push_parent(qb: &mut SqlBuilder, filter: &InternalPeopleQuery)
    ensures
        final(qb)@ == parent_predicate(old(qb)@, *filter),
{
    if let Some(parent) = filter.parent_id {
        qb.push(
            r#" AND EXISTS (SELECT 1 FROM "PeopleBaseItemMap" mp JOIN "AncestorIds" a ON a."ItemId" = mp."ItemId" WHERE mp."PeopleId" = p."Id" AND a."ParentItemId" = "#,
        );
        qb.push_bind(BindValue::Text(guid_text(parent)));
        qb.push(")");
    }
}

fn push_included(qb: &mut SqlBuilder, types: &[String])
    ensures
        final(qb)@ == included_types(old(qb)@, texts(types@)),
{
    let valid: Vec<String> = keep_valid_types(types);
    assert(texts(valid@).len() == valid@.len());
    if valid.len() > 0 {
        qb.push(r#" AND p."PersonType" IN ("#);
        let values: Vec<BindValue> = text_binds(valid.as_slice());
        qb.push_all(values.as_slice());
        qb.push(")");
    }
}

fn push_excluded(qb: &mut SqlBuilder, types: &[String])
    ensures
        final(qb)@ == excluded_types(old(qb)@, texts(types@)),
{
    let valid: Vec<String> = keep_valid_types(types);
    assert(texts(valid@).len() == valid@.len());
    if valid.len() > 0 {
        qb.push(r#" AND (p."PersonType" IS NULL OR p."PersonType" NOT IN ("#);
        let values: Vec<BindValue> = text_binds(valid.as_slice());
        qb.push_all(values.as_slice());
        qb.push("))");
    }
}

fn push_order(qb: &mut SqlBuilder, filter: &InternalPeopleQuery)
    ensures
        final(qb)@ == order_predicate(old(qb)@, *filter),
{
    if let Some(max_order) = filter.max_list_order {
        if !filter.item_id.is_nil() {
            qb.push(
                r#" AND EXISTS (SELECT 1 FROM "PeopleBaseItemMap" mo WHERE mo."PeopleId" = p."Id" AND mo."ItemId" = "#,
            );
            qb.push_bind(BindValue::Text(guid_text(filter.item_id)));
            qb.push(r#" AND mo."ListOrder" <= "#);
            qb.push_bind(BindValue::Int(max_order as i64));
            qb.push(")");
        }
    }
}

fn push_names(qb: &mut SqlBuilder, filter: &InternalPeopleQuery)
    ensures
        final(qb)@ == name_predicates(old(qb)@, *filter),
{
    if let Some(contains) = non_blank(&filter.name_contains) {
        qb.push(r#" AND UPPER(p."Name") LIKE "#);
        qb.push_bind(BindValue::Text(concat3("%", to_uppercase(contains).as_str(), "%")));
    }
    if let Some(prefix) = non_blank(&filter.name_starts_with) {
        qb.push(r#" AND p."Name" LIKE "#);
        qb.push_bind(BindValue::Text(concat(to_lowercase(prefix).as_str(), "%")));
    }
    if let Some(less) = non_blank(&filter.name_less_than) {
        qb.push(r#" AND p."Name" < "#);
        qb.push_bind(BindValue::Text(to_lowercase(less)));
    }
    if let Some(first) = non_blank(&filter.name_starts_with_or_greater) {
        qb.push(r#" AND p."Name" >= "#);
        qb.push_bind(BindValue::Text(to_lowercase(first)));
    }
}

/// Appends every predicate of the query.
pub fn push_predicates(qb: &mut SqlBuilder, filter: &InternalPeopleQuery)
    ensures
        final(qb)@ == people_predicates(old(qb)@, *filter),
{
    push_item(qb, filter);
    push_parent(qb, filter);
    push_included(qb, filter.person_types.as_slice());
    push_excluded(qb, filter.exclude_person_types.as_slice());
    push_order(qb, filter);
    push_names(qb, filter);
}

// ---------------------------------------------------------------------------
// Statements
// ---------------------------------------------------------------------------
/// `acc`, and whether the person is a favorite, where a user is given.
pub open spec fn favorite_predicate(acc: Sql, f: InternalPeopleQuery) -> Sql {
    match (f.user_id, f.is_favorite) {
        (Some(user), Some(is_favorite)) => {
            let a = give(
                say(
                    acc,
                    r#" AND EXISTS (SELECT 1 FROM "UserData" ud JOIN "BaseItems" bi ON bi."Id" = ud."ItemId" WHERE bi."Type" = "#@,
                ),
                BindView::Text(PERSON_TYPE_NAME@),
            );
            let b = give(
                say(a, r#" AND bi."Name" = p."Name" AND ud."UserId" = "#@),
                BindView::Text(hyphenated_text(user.value)),
            );
            say(
                give(
                    say(b, r#" AND ud."IsFavorite" = "#@),
                    BindView::Int(
                        if is_favorite {
                            1
                        } else {
                            0
                        },
                    ),
                ),
                ")"@,
            )
        },
        _ => acc,
    }
}

/// The beginning of a statement for people.
pub open spec fn people_base(head: Seq<char>, f: InternalPeopleQuery) -> Sql {
    favorite_predicate(say(Seq::empty(), head), f)
}

fn base_query(head: &'static str, filter: &InternalPeopleQuery) -> (r: SqlBuilder)
    ensures
        r@ == people_base(head@, *filter),
{
    let mut qb: SqlBuilder = SqlBuilder::empty();
    qb.push(head);
    match (filter.user_id, filter.is_favorite) {
        (Some(user_id), Some(is_favorite)) => {
            qb.push(
                r#" AND EXISTS (SELECT 1 FROM "UserData" ud JOIN "BaseItems" bi ON bi."Id" = ud."ItemId" WHERE bi."Type" = "#,
            );
            qb.push_text(PERSON_TYPE_NAME);
            qb.push(r#" AND bi."Name" = p."Name" AND ud."UserId" = "#);
            qb.push_bind(BindValue::Text(guid_text(user_id)));
            qb.push(r#" AND ud."IsFavorite" = "#);
            qb.push_bind(
                BindValue::Int(
                    if is_favorite {
                        1
                    } else {
                        0
                    },
                ),
            );
            qb.push(")");
        },
        _ => {},
    }
    qb
}

/// The statement for people. Those of an item come in the order of its credits;
/// otherwise there is one row for each name, and the names are in order.
pub open spec fn people_sql(f: InternalPeopleQuery) -> Sql {
    let a = people_predicates(
        people_base(
            r#"SELECT p."Id", p."Name", p."PersonType" FROM "Peoples" p WHERE 1 = 1"#@,
            f,
        ),
        f,
    );
    if f.item_id.value == 0 {
        say(
            a,
            r#" AND p."Id" IN (SELECT MIN(p2."Id") FROM "Peoples" p2 GROUP BY LOWER(p2."Name")) ORDER BY p."Name""#@,
        )
    } else {
        say(
            give(
                say(
                    a,
                    r#" ORDER BY (SELECT MIN(mo."ListOrder") FROM "PeopleBaseItemMap" mo WHERE mo."PeopleId" = p."Id" AND mo."ItemId" = "#@,
                ),
                BindView::Text(hyphenated_text(f.item_id.value)),
            ),
            r#"), p."PersonType", p."Name""#@,
        )
    }
}

/// The statement for people.
pub fn people_query(filter: &InternalPeopleQuery) -> (r: SqlBuilder)
    ensures
        r@ == people_sql(*filter),
{
    let mut qb: SqlBuilder = base_query(
        r#"SELECT p."Id", p."Name", p."PersonType" FROM "Peoples" p WHERE 1 = 1"#,
        filter,
    );
    push_predicates(&mut qb, filter);
    if filter.item_id.is_nil() {
        qb.push(
            r#" AND p."Id" IN (SELECT MIN(p2."Id") FROM "Peoples" p2 GROUP BY LOWER(p2."Name")) ORDER BY p."Name""#,
        );
    } else {
        qb.push(
            r#" ORDER BY (SELECT MIN(mo."ListOrder") FROM "PeopleBaseItemMap" mo WHERE mo."PeopleId" = p."Id" AND mo."ItemId" = "#,
        );
        qb.push_bind(BindValue::Text(guid_text(filter.item_id)));
        qb.push(r#"), p."PersonType", p."Name""#);
    }
    qb
}

/// The statement for names of people.
pub open spec fn names_sql(f: InternalPeopleQuery) -> Sql {
    say(
        people_predicates(
            people_base(r#"SELECT DISTINCT p."Name" FROM "Peoples" p WHERE 1 = 1"#@, f),
            f,
        ),
        r#" ORDER BY p."Name""#@,
    )
}

/// The statement for names of people.
pub fn people_names_query(filter: &InternalPeopleQuery) -> (r: SqlBuilder)
    ensures
        r@ == names_sql(*filter),
{
    let mut qb: SqlBuilder = base_query(
        r#"SELECT DISTINCT p."Name" FROM "Peoples" p WHERE 1 = 1"#,
        filter,
    );
    push_predicates(&mut qb, filter);
    qb.push(r#" ORDER BY p."Name""#);
    qb
}

/// The page of a list that a people query asks for.
pub open spec fn people_page<T>(s: Seq<T>, f: InternalPeopleQuery) -> Seq<T> {
    let tail = match f.start_index {
        Some(n) => if n > 0 {
            rest(s, n as int)
        } else {
            s
        },
        None => s,
    };
    if f.limit > 0 {
        front(tail, f.limit as int)
    } else {
        tail
    }
}

fn take_people<T>(rows: Vec<T>, filter: &InternalPeopleQuery) -> (r: Vec<T>)
    ensures
        r@ == people_page(rows@, *filter),
{
    let ghost all = rows@;
    let mut page: Vec<T> = rows;
    if let Some(n) = filter.start_index {
        if n > 0 {
            let start: usize = n as usize;
            page = if start < page.len() {
                page.split_off(start)
            } else {
                Vec::new()
            };
            assert(page@ =~= rest(all, n as int));
        }
    }
    if filter.limit > 0 {
        let ghost tail = page@;
        page.truncate(filter.limit as usize);
        assert(page@ =~= front(tail, filter.limit as int));
    }
    page
}

/// The page of people that the query asks for, with where it starts and how many
/// people there are in all.
pub fn page_people<T>(rows: Vec<T>, filter: &InternalPeopleQuery) -> (r: Page<T>)
    ensures
        r.start_index == Some(
            match filter.start_index {
                Some(n) => n,
                None => 0i32,
            },
        ),
        r.total_record_count == Some(count_of(rows@.len() as int)),
        r.items@ == people_page(rows@, *filter),
{
    let start: i32 = match filter.start_index {
        Some(n) => n,
        None => 0,
    };
    let total: i32 = record_count(rows.len());
    Page {
        start_index: Some(start),
        total_record_count: Some(total),
        items: take_people(rows, filter),
    }
}

/// The page of names that the query asks for.
pub fn page_names(names: Vec<String>, filter: &InternalPeopleQuery) -> (r: Vec<String>)
    ensures
        r@ == people_page(names@, *filter),
{
    take_people(names, filter)
}

// ---------------------------------------------------------------------------
// Names by item
// ---------------------------------------------------------------------------
/// The statement for the names of the people credited on items, in the order of
/// the credits.
pub open spec fn names_by_items_sql(ids: Seq<Guid>, types: Seq<Seq<char>>) -> Sql {
    let a = say(
        give_all(
            say(
                Seq::empty(),
                r#"SELECT m."ItemId", p."Name" FROM "PeopleBaseItemMap" m JOIN "Peoples" p ON p."Id" = m."PeopleId" WHERE m."ItemId" IN ("#@,
            ),
            plain_guid_values(ids),
        ),
        ")"@,
    );
    say(included_types(a, types), r#" ORDER BY m."ListOrder""#@)
}

/// The statement for the names of the people credited on items; none where no
/// item is asked for.
pub fn people_names_by_items_query(item_ids: &[Guid], person_types: &[String]) -> (r: Option<
    SqlBuilder,
>)
    ensures
        match r {
            Some(qb) => item_ids@.len() > 0 && qb@ == names_by_items_sql(
                item_ids@,
                texts(person_types@),
            ),
            None => item_ids@.len() == 0,
        },
{
    if item_ids.len() == 0 {
        return None;
    }
    let mut qb: SqlBuilder = SqlBuilder::empty();
    qb.push(
        r#"SELECT m."ItemId", p."Name" FROM "PeopleBaseItemMap" m JOIN "Peoples" p ON p."Id" = m."PeopleId" WHERE m."ItemId" IN ("#,
    );
    let ids: Vec<BindValue> = plain_guid_binds(item_ids);
    qb.push_all(ids.as_slice());
    qb.push(")");
    push_included(&mut qb, person_types);
    qb.push(r#" ORDER BY m."ListOrder""#);
    Some(qb)
}

/// The names that the rows (an item's id and a name) hold for an item, each once,
/// in their order. Empty names do not count.
pub open spec fn names_for(rows: Seq<(String, String)>, id: Guid) -> Seq<Seq<char>>
    decreases rows.len(),
{
    if rows.len() == 0 {
        Seq::empty()
    } else {
        let head = names_for(rows.drop_last(), id);
        let name = rows.last().1@;
        if name.len() == 0 || guid_in(rows.last().0@) != Some(id) || head.contains(name) {
            head
        } else {
            head.push(name)
        }
    }
}

/// No name occurs twice among those of an item.
pub proof fn law_names_are_distinct(rows: Seq<(String, String)>, id: Guid)
    ensures
        names_for(rows, id).no_duplicates(),
    decreases rows.len(),
{
    if rows.len() > 0 {
        law_names_are_distinct(rows.drop_last(), id);
    }
}

/// The names of each item.
pub fn names_by_item(rows: &[(String, String)]) -> (r: Table<Guid, Vec<String>>)
    ensures
        r.wf(),
        forall|id: Guid| texts(#[trigger] group_of(r@, id)) == names_for(rows@, id),
        forall|id: Guid| #[trigger] r@.contains_key(id) == (names_for(rows@, id).len() > 0),
{
    let mut out: Table<Guid, Vec<String>> = Table::new();
    let mut i: usize = 0;
    assert forall|id: Guid| texts(#[trigger] group_of(out@, id)) == names_for(rows@.take(0), id) by {
        assert(texts(group_of(out@, id)) =~= Seq::<Seq<char>>::empty());
    }
    while i < rows.len()
        invariant
            i <= rows.len(),
            out.wf(),
            forall|id: Guid|
                texts(#[trigger] group_of(out@, id)) == names_for(rows@.take(i as int), id),
            forall|id: Guid| #[trigger]
                out@.contains_key(id) == (names_for(rows@.take(i as int), id).len() > 0),
        decreases rows.len() - i,
    {
        assert(rows@.take(i + 1).drop_last() =~= rows@.take(i as int));
        assert(rows@.take(i + 1).last() == rows@[i as int]);
        let ghost before = out@;
        let name: &String = &rows[i].1;
        let mut wanted: Option<Guid> = None;
        if name.as_str().unicode_len() > 0 {
            if let Some(id) = parse_guid(rows[i].0.as_str()) {
                assert(texts(group_of(before, id)) == names_for(rows@.take(i as int), id));
                let known: bool = match out.get(&id) {
                    Some(names) => contains_text(names.as_slice(), name.as_str()),
                    None => false,
                };
                assert(known == names_for(rows@.take(i as int), id).contains(name@));
                if !known {
                    wanted = Some(id);
                }
            }
        }
        if let Some(id) = wanted {
            let copy: String = name.clone();
            let ghost copied = copy;
            out.push_into(id, copy);
            assert(texts(group_of(before, id).push(copied)) =~= texts(group_of(before, id)).push(
                name@,
            ));
        }
        assert forall|id: Guid| texts(#[trigger] group_of(out@, id)) == names_for(
            rows@.take(i + 1),
            id,
        ) by {
            assert(texts(group_of(before, id)) == names_for(rows@.take(i as int), id));
        }
        assert forall|id: Guid| #[trigger] out@.contains_key(id) == (names_for(
            rows@.take(i + 1),
            id,
        ).len() > 0) by {
            assert(before.contains_key(id) == (names_for(rows@.take(i as int), id).len() > 0));
        }
        i += 1;
    }
    assert(rows@.take(rows@.len() as int) =~= rows@);
    out
}

// ---------------------------------------------------------------------------
// Changing an item's credits
// ---------------------------------------------------------------------------
/// What two entries share if they mean the same person with the same credit type.
pub open spec fn person_key(p: PersonView) -> Seq<char> {
    lowercase(trimmed(p.name)) + "-"@ + match p.person_type {
        Some(t) => t,
        None => Seq::empty(),
    }
}

/// The keys of people.
pub open spec fn person_keys(v: Seq<PersonView>) -> Seq<Seq<char>> {
    Seq::new(v.len(), |i: int| person_key(v[i]))
}

/// The people without those that an earlier entry means already.
pub open spec fn distinct(v: Seq<PersonView>) -> Seq<PersonView>
    decreases v.len(),
{
    if v.len() == 0 {
        Seq::empty()
    } else {
        let head = distinct(v.drop_last());
        if person_keys(v.drop_last()).contains(person_key(v.last())) {
            head
        } else {
            head.push(v.last())
        }
    }
}

/// Every person that is named gets one credit: the keys of the distinct people are
/// those of all people, and each occurs once.
pub proof fn law_each_person_is_credited_once(v: Seq<PersonView>)
    ensures
        person_keys(distinct(v)).no_duplicates(),
        forall|k: Seq<char>| #[trigger]
            person_keys(distinct(v)).contains(k) == person_keys(v).contains(k),
    decreases v.len(),
{
    if v.len() > 0 {
        let head = v.drop_last();
        law_each_person_is_credited_once(head);
        let key = person_key(v.last());
        assert(person_keys(v) =~= person_keys(head).push(key));
        lemma_push_contains(person_keys(head), key);
        if person_keys(head).contains(key) {
            assert forall|k: Seq<char>| #[trigger] person_keys(distinct(v)).contains(k)
                == person_keys(v).contains(k) by {
                assert(person_keys(distinct(head)).contains(k) == person_keys(head).contains(k));
            }
        } else {
            assert(person_keys(distinct(v)) =~= person_keys(distinct(head)).push(key));
            lemma_push_contains(person_keys(distinct(head)), key);
            assert(!person_keys(distinct(head)).contains(key));
            assert(person_keys(distinct(v)).no_duplicates()) by {
                let ks = person_keys(distinct(head));
                assert forall|i: int, j: int|
                    0 <= i < ks.push(key).len() && 0 <= j < ks.push(key).len() && i != j implies ks.push(
                    key,
                )[i] != ks.push(key)[j] by {
                    if i == ks.len() {
                        assert(ks.contains(ks[j]));
                    } else if j == ks.len() {
                        assert(ks.contains(ks[i]));
                    }
                }
            }
            assert forall|k: Seq<char>| #[trigger] person_keys(distinct(v)).contains(k)
                == person_keys(v).contains(k) by {
                assert(person_keys(distinct(head)).contains(k) == person_keys(head).contains(k));
            }
        }
    }
}

proof fn lemma_push_contains(s: Seq<Seq<char>>, x: Seq<char>)
    ensures
        forall|k: Seq<char>| #[trigger] s.push(x).contains(k) == (s.contains(k) || k == x),
{
    assert forall|k: Seq<char>| #[trigger] s.push(x).contains(k) == (s.contains(k) || k == x) by {
        let longer = s.push(x);
        if longer.contains(k) {
            let n = choose|n: int| 0 <= n < longer.len() && longer[n] == k;
            if n < s.len() {
                assert(s[n] == k);
            }
        }
        if s.contains(k) {
            let n = choose|n: int| 0 <= n < s.len() && s[n] == k;
            assert(longer[n] == k);
        }
        assert(longer[s.len() as int] == x);
    }
}

fn key_text(person: &PersonRow) -> (r: String)
    ensures
        r@ == person_key(person@),
{
    let name: String = to_lowercase(trim(person.name.as_str()).as_str());
    match &person.person_type {
        Some(t) => concat3(name.as_str(), "-", t.as_str()),
        None => {
            let r: String = concat(name.as_str(), "-");
            assert(r@ + Seq::<char>::empty() =~= r@);
            r
        },
    }
}

impl PersonRow {
    /// The same person once more.
    pub fn duplicate(&self) -> (r: Self)
        ensures
            r@ == self@,
    {
        PersonRow {
            id: self.id.clone(),
            name: self.name.clone(),
            person_type: copy_text(&self.person_type),
        }
    }
}

/// The people to credit: those named, without those that an earlier entry means
/// already.
pub fn distinct_people(people: &[PersonRow]) -> (r: Vec<PersonRow>)
    ensures
        person_views(r@) == distinct(person_views(people@)),
{
    let ghost all = person_views(people@);
    let mut seen: Vec<String> = Vec::new();
    let mut out: Vec<PersonRow> = Vec::new();
    let mut i: usize = 0;
    assert(texts(seen@) =~= person_keys(all.take(0)));
    assert(person_views(out@) =~= distinct(all.take(0)));
    while i < people.len()
        invariant
            i <= people.len(),
            all == person_views(people@),
            texts(seen@) == person_keys(all.take(i as int)),
            person_views(out@) == distinct(all.take(i as int)),
        decreases people.len() - i,
    {
        assert(all.take(i + 1).drop_last() =~= all.take(i as int));
        assert(all.take(i + 1).last() == people@[i as int]@);
        let key: String = key_text(&people[i]);
        if !contains_text(seen.as_slice(), key.as_str()) {
            let copy: PersonRow = people[i].duplicate();
            let ghost before = out@;
            let ghost copied = copy;
            out.push(copy);
            assert(person_views(out@) =~= person_views(before).push(copied@));
        }
        let ghost keys = texts(seen@);
        let ghost k = key@;
        seen.push(key);
        assert(texts(seen@) =~= keys.push(k));
        assert(person_keys(all.take(i + 1)) =~= person_keys(all.take(i as int)).push(k));
        i += 1;
    }
    assert(all.take(all.len() as int) =~= all);
    out
}

/// The statement that removes an item's credits.
pub open spec fn clear_credits_sql(item_id: Guid) -> Sql {
    give(
        say(Seq::empty(), r#"DELETE FROM "PeopleBaseItemMap" WHERE "ItemId" = "#@),
        BindView::Text(hyphenated_text(item_id.value)),
    )
}

/// The statement that removes an item's credits.
pub fn clear_credits_query(item_id: Guid) -> (r: SqlBuilder)
    ensures
        r@ == clear_credits_sql(item_id),
{
    let mut qb: SqlBuilder = SqlBuilder::empty();
    qb.push(r#"DELETE FROM "PeopleBaseItemMap" WHERE "ItemId" = "#);
    qb.push_bind(BindValue::Text(guid_text(item_id)));
    qb
}

/// The statement that looks a person up by name, whatever its letters' case, and
/// credit type.
pub open spec fn find_person_sql(p: PersonView) -> Sql {
    let a = give(
        say(Seq::empty(), r#"SELECT "Id" FROM "Peoples" WHERE LOWER("Name") = LOWER("#@),
        BindView::Text(trimmed(p.name)),
    );
    let b = give(say(a, r#") AND ("PersonType" IS "#@), BindView::OptionalText(p.person_type));
    say(
        give(say(b, r#" OR "PersonType" = "#@), BindView::OptionalText(p.person_type)),
        ") LIMIT 1"@,
    )
}

/// The statement that looks a person up.
pub fn find_person_query(person: &PersonRow) -> (r: SqlBuilder)
    ensures
        r@ == find_person_sql(person@),
{
    let mut qb: SqlBuilder = SqlBuilder::empty();
    qb.push(r#"SELECT "Id" FROM "Peoples" WHERE LOWER("Name") = LOWER("#);
    qb.push_bind(BindValue::Text(trim(person.name.as_str())));
    qb.push(r#") AND ("PersonType" IS "#);
    qb.push_bind(BindValue::OptionalText(copy_text(&person.person_type)));
    qb.push(r#" OR "PersonType" = "#);
    qb.push_bind(BindValue::OptionalText(copy_text(&person.person_type)));
    qb.push(") LIMIT 1");
    qb
}

/// The statement that adds a person under an id.
pub open spec fn insert_person_sql(id: Seq<char>, p: PersonView) -> Sql {
    let a = give(
        say(Seq::empty(), r#"INSERT INTO "Peoples" ("Id", "Name", "PersonType") VALUES ("#@),
        BindView::Text(id),
    );
    let b = give(say(a, ", "@), BindView::Text(trimmed(p.name)));
    say(give(say(b, ", "@), BindView::OptionalText(p.person_type)), ")"@)
}

/// A person's id, and the statement that adds the person where they are new.
#[derive(Debug, Clone)]
pub struct SettledPerson {
    pub id: String,
    pub insert: Option<SqlBuilder>,
}

impl SettledPerson {
    /// Whether this settles `p`: under the id of the row that was found; else
    /// under their own id, or under a new one where that is empty.
    pub open spec fn settles(&self, p: PersonView, existing: Option<Seq<char>>, fresh: Guid) -> bool {
        match existing {
            Some(id) => self.id@ == id && self.insert is None,
            None => {
                &&& self.id@ == if p.id.len() > 0 {
                    p.id
                } else {
                    hyphenated_text(fresh.value)
                }
                &&& self.insert matches Some(qb) && qb@ == insert_person_sql(self.id@, p)
            },
        }
    }
}

/// A person's id, given the row that was found and an id for a new person.
pub fn settle_person(person: &PersonRow, existing: Option<String>, fresh: Guid) -> (r:
    SettledPerson)
    ensures
        r.settles(person@, opt_text(existing), fresh),
{
    match existing {
        Some(id) => SettledPerson { id, insert: None },
        None => {
            let id: String = if person.id.as_str().unicode_len() > 0 {
                person.id.clone()
            } else {
                guid_text(fresh)
            };
            let mut qb: SqlBuilder = SqlBuilder::empty();
            qb.push(r#"INSERT INTO "Peoples" ("Id", "Name", "PersonType") VALUES ("#);
            qb.push_text(id.as_str());
            qb.push(", ");
            qb.push_bind(BindValue::Text(trim(person.name.as_str())));
            qb.push(", ");
            qb.push_bind(BindValue::OptionalText(copy_text(&person.person_type)));
            qb.push(")");
            SettledPerson { id, insert: Some(qb) }
        },
    }
}

/// The statement that adds a credit at a place.
pub open spec fn credit_sql(item_id: Guid, people_id: Seq<char>, place: int) -> Sql {
    let a = give(
        say(
            Seq::empty(),
            r#"INSERT INTO "PeopleBaseItemMap" ("ItemId", "PeopleId", "Role", "ListOrder", "SortOrder") VALUES ("#@,
        ),
        BindView::Text(hyphenated_text(item_id.value)),
    );
    let b = give(say(a, ", "@), BindView::Text(people_id));
    let c = give(say(b, ", '', "@), BindView::Int(place));
    say(give(say(c, ", "@), BindView::Int(place)), ")"@)
}

fn credit_query(item_id: Guid, people_id: &str, place: i64) -> (r: SqlBuilder)
    ensures
        r@ == credit_sql(item_id, people_id@, place as int),
{
    let mut qb: SqlBuilder = SqlBuilder::empty();
    qb.push(
        r#"INSERT INTO "PeopleBaseItemMap" ("ItemId", "PeopleId", "Role", "ListOrder", "SortOrder") VALUES ("#,
    );
    qb.push_bind(BindValue::Text(guid_text(item_id)));
    qb.push(", ");
    qb.push_text(people_id);
    qb.push(", '', ");
    qb.push_bind(BindValue::Int(place));
    qb.push(", ");
    qb.push_bind(BindValue::Int(place));
    qb.push(")");
    qb
}

/// The statements that credit people on an item, each at the place it has in the
/// list.
pub fn credit_queries(item_id: Guid, people_ids: &[String]) -> (r: Vec<SqlBuilder>)
    ensures
        r@.len() == people_ids@.len(),
        forall|i: int|
            0 <= i < r@.len() ==> (#[trigger] r@[i])@ == credit_sql(
                item_id,
                people_ids@[i]@,
                least(i, i64::MAX as int),
            ),
{
    let mut out: Vec<SqlBuilder> = Vec::new();
    let mut i: usize = 0;
    while i < people_ids.len()
        invariant
            i <= people_ids.len(),
            out@.len() == i,
            forall|j: int|
                0 <= j < i ==> (#[trigger] out@[j])@ == credit_sql(
                    item_id,
                    people_ids@[j]@,
                    least(j, i64::MAX as int),
                ),
        decreases people_ids.len() - i,
    {
        let place: i64 = if (i as u64) < (i64::MAX as u64) {
            i as i64
        } else {
            i64::MAX
        };
        out.push(credit_query(item_id, people_ids[i].as_str(), place));
        i += 1;
    }
    out
}

/// The replacement of an item's credits, person by person.
///
/// Every person is looked up in turn; one that is not found is added. When all
/// have an id, their credits take the place of the old ones.
#[derive(Debug, Clone)]
pub struct CreditUpdate {
    pub item_id: Guid,
    /// The people to credit, each once.
    pub people: Vec<PersonRow>,
    /// The ids of those that have been looked up.
    pub ids: Vec<String>,
}

impl CreditUpdate {
    /// Whether no more people have an id than there are.
    pub open spec fn wf(&self) -> bool {
        self.ids@.len() <= self.people@.len()
    }

    /// Whether this credits `people` on an item.
    pub open spec fn credits(&self, item_id: Guid, people: Seq<PersonView>) -> bool {
        self.item_id == item_id && person_views(self.people@) == distinct(people)
    }

    /// Whether every person has an id.
    pub open spec fn settled(&self) -> bool {
        self.ids@.len() == self.people@.len()
    }

    /// The update that credits `people` on an item, with nobody looked up.
    pub fn new(item_id: Guid, people: &[PersonRow]) -> (r: Self)
        ensures
            r.wf(),
            r.credits(item_id, person_views(people@)),
            r.ids@.len() == 0,
    {
        CreditUpdate { item_id, people: distinct_people(people), ids: Vec::new() }
    }

    /// The lookup of the person whose turn it is; none where every person has an id.
    pub fn lookup(&self) -> (r: Option<SqlBuilder>)
        requires
            self.wf(),
        ensures
            match r {
                Some(qb) => !self.settled() && qb@ == find_person_sql(
                    self.people@[self.ids@.len() as int]@,
                ),
                None => self.settled(),
            },
    {
        if self.ids.len() < self.people.len() {
            Some(find_person_query(&self.people[self.ids.len()]))
        } else {
            None
        }
    }

    /// Whether `next` follows from giving an id to the person whose turn it is:
    /// that person is settled by `insert`, and nothing else has changed.
    pub open spec fn settles_next(
        &self,
        existing: Option<Seq<char>>,
        fresh: Guid,
        next: Self,
        insert: Option<SqlBuilder>,
    ) -> bool {
        &&& next.wf()
        &&& next.item_id == self.item_id
        &&& next.people@ == self.people@
        &&& next.ids@.len() == self.ids@.len() + 1
        &&& next.ids@.drop_last() == self.ids@
        &&& (SettledPerson { id: next.ids@.last(), insert }).settles(
            self.people@[self.ids@.len() as int]@,
            existing,
            fresh,
        )
    }

    /// Gives the person whose turn it is the id that was found, and otherwise their
    /// own or `fresh`; then the result adds them.
    pub fn settle_with(&mut self, existing: Option<String>, fresh: Guid) -> (r: Option<SqlBuilder>)
        requires
            old(self).wf(),
            !old(self).settled(),
        ensures
            old(self).settles_next(opt_text(existing), fresh, *final(self), r),
    {
        let ghost before = self.ids@;
        let settled: SettledPerson = settle_person(
            &self.people[self.ids.len()],
            existing,
            fresh,
        );
        let SettledPerson { id, insert } = settled;
        self.ids.push(id);
        assert(self.ids@.drop_last() =~= before);
        insert
    }

    /// Gives the person whose turn it is an id. That of a new person without one is
    /// random.
    pub fn settle(&mut self, existing: Option<String>) -> (r: Option<SqlBuilder>)
        requires
            old(self).wf(),
            !old(self).settled(),
        ensures
            exists|fresh: Guid|
                fresh.value != 0 && #[trigger] old(self).settles_next(
                    opt_text(existing),
                    fresh,
                    *final(self),
                    r,
                ),
    {
        self.settle_with(existing, new_guid())
    }

    /// The statements that put the credits in the place of the old ones, each at the
    /// place that its person has.
    pub fn finish(&self) -> (r: Vec<SqlBuilder>)
        requires
            self.settled(),
        ensures
            r@.len() == self.people@.len() + 1,
            r@[0]@ == clear_credits_sql(self.item_id),
            forall|i: int|
                0 <= i < self.people@.len() ==> (#[trigger] r@[i + 1])@ == credit_sql(
                    self.item_id,
                    self.ids@[i]@,
                    least(i, i64::MAX as int),
                ),
    {
        let mut out: Vec<SqlBuilder> = Vec::new();
        out.push(clear_credits_query(self.item_id));
        let mut credits: Vec<SqlBuilder> = credit_queries(self.item_id, self.ids.as_slice());
        out.append(&mut credits);
        out
    }
}

} // verus!
