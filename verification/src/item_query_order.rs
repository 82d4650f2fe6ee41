//! In which order the statement for a filter asks for items, and which of them it takes.
use vstd::prelude::*;

use crate::items_query::InternalItemsQuery;
use crate::model::{ItemSortBy, SortOrder};
use crate::sql::{give, say, BindView, PieceView, Sql};
use crate::sql_meaning::{
    chars, column_text, flat, hole, lemma_flat_give, lemma_flat_say, lemma_said_in_turn,
    lemma_said_nothing, less, nothing, Db, Row, Said, Val,
};
use crate::translate_query::{
    order_by, order_terms, order_text, paging, sort_keys, sorts_by_name, tail_clause, QueryShape,
};

verus! {

// ---------------------------------------------------------------------------
// Orders
// ---------------------------------------------------------------------------
/// What rows are ordered by.
pub enum Rank {
    /// A column of the item.
    Column(Seq<char>),
    /// A number that is drawn anew for each row.
    Drawn,
    /// A number made of two columns: the first, or a million where it is zero, times a hundred
    /// thousand, and the second; either column counts for zero where it is missing.
    Combined { first: Seq<char>, second: Seq<char> },
}

/// One step of an order.
pub struct Step {
    pub rank: Rank,
    pub direction: Direction,
}

/// The direction of a step.
pub enum Direction {
    /// As it is where none is named: from the least.
    Unnamed,
    Up,
    Down,
}

/// The number in a column, or zero where it is missing.
pub open spec fn number_or_zero(v: Val) -> int {
    match v {
        Val::Int(n) => n,
        _ => 0,
    }
}

/// The rank of a row; `draw` gives the numbers that are drawn.
pub open spec fn rank_of(rank: Rank, row: Row, draw: spec_fn(Row) -> Val) -> Val {
    match rank {
        Rank::Column(name) => row(name),
        Rank::Drawn => draw(row),
        Rank::Combined { first, second } => {
            let n = if row(first) == Val::Int(0) {
                1000000
            } else {
                number_or_zero(row(first))
            };
            Val::Int(n * 100000 + number_or_zero(row(second)))
        },
    }
}

/// Whether a rank comes before another, from the least; a missing one comes first.
pub open spec fn ranks_before(a: Val, b: Val, db: Db) -> bool {
    if a is Null {
        !(b is Null)
    } else {
        less(a, b, db)
    }
}

/// Whether a step puts a row before another.
pub open spec fn step_before(s: Step, a: Row, b: Row, draw: spec_fn(Row) -> Val, db: Db) -> bool {
    let x = rank_of(s.rank, a, draw);
    let y = rank_of(s.rank, b, draw);
    match s.direction {
        Direction::Down => ranks_before(y, x, db),
        _ => ranks_before(x, y, db),
    }
}

/// Whether a step does not tell two rows apart.
pub open spec fn step_ties(s: Step, a: Row, b: Row, draw: spec_fn(Row) -> Val) -> bool {
    rank_of(s.rank, a, draw) == rank_of(s.rank, b, draw)
}

/// Whether no step tells two rows apart.
pub open spec fn all_tie(steps: Seq<Step>, a: Row, b: Row, draw: spec_fn(Row) -> Val) -> bool {
    forall|i: int| 0 <= i < steps.len() ==> step_ties(#[trigger] steps[i], a, b, draw)
}

/// Whether an order puts a row before another: the first step that tells them apart does.
pub open spec fn precedes(
    steps: Seq<Step>,
    a: Row,
    b: Row,
    draw: spec_fn(Row) -> Val,
    db: Db,
) -> bool {
    exists|i: int|
        0 <= i < steps.len() && step_before(#[trigger] steps[i], a, b, draw, db) && all_tie(
            steps.take(i),
            a,
            b,
            draw,
        )
}

/// The text of a rank.
pub open spec fn rank_text(rank: Rank) -> Said {
    match rank {
        Rank::Column(name) => column_text("bi"@, name),
        Rank::Drawn => chars("RANDOM()"@),
        Rank::Combined { first, second } => chars("(CASE WHEN "@) + column_text("bi"@, first) + chars(
            " = 0 THEN 1000000 ELSE COALESCE("@,
        ) + column_text("bi"@, first) + chars(", 0) END) * 100000 + COALESCE("@) + column_text(
            "bi"@,
            second,
        ) + chars(", 0)"@),
    }
}

/// The text of a direction.
pub open spec fn direction_text(d: Direction) -> Said {
    match d {
        Direction::Unnamed => nothing(),
        Direction::Up => chars(" ASC"@),
        Direction::Down => chars(" DESC"@),
    }
}

/// The text of a step.
pub open spec fn step_text(s: Step) -> Said {
    rank_text(s.rank) + direction_text(s.direction)
}

/// The text of an order.
pub open spec fn steps_text(steps: Seq<Step>) -> Said
    decreases steps.len(),
{
    if steps.len() == 0 {
        nothing()
    } else if steps.len() == 1 {
        step_text(steps[0])
    } else {
        steps_text(steps.drop_last()) + chars(", "@) + step_text(steps.last())
    }
}

// ---------------------------------------------------------------------------
// Pages
// ---------------------------------------------------------------------------
/// Which of the rows a statement takes.
pub enum Page {
    All,
    First(int),
    From { count: int, skip: int },
    Behind(int),
}

/// The text of a page.
pub open spec fn page_text(p: Page) -> Said {
    match p {
        Page::All => nothing(),
        Page::First(n) => chars(" LIMIT "@) + hole(BindView::Int(n)),
        Page::From { count, skip } => chars(" LIMIT "@) + hole(BindView::Int(count)) + chars(
            " OFFSET "@,
        ) + hole(BindView::Int(skip)),
        Page::Behind(skip) => chars(" LIMIT -1 OFFSET "@) + hole(BindView::Int(skip)),
    }
}

/// The rows from one on, at most so many of them; a negative count sets no bound.
pub open spec fn cut<A>(rows: Seq<A>, count: int, skip: int) -> Seq<A> {
    let from = if skip < 0 {
        0
    } else if skip < rows.len() {
        skip
    } else {
        rows.len() as int
    };
    let rest = rows.skip(from);
    if 0 <= count < rest.len() {
        rest.take(count)
    } else {
        rest
    }
}

/// The rows that a page takes.
pub open spec fn taken<A>(rows: Seq<A>, p: Page) -> Seq<A> {
    match p {
        Page::All => rows,
        Page::First(n) => cut(rows, n, 0),
        Page::From { count, skip } => cut(rows, count, skip),
        Page::Behind(skip) => cut(rows, -1, skip),
    }
}

// ---------------------------------------------------------------------------
// What a filter asks for
// ---------------------------------------------------------------------------
/// What a filter sorts an item by.
pub open spec fn sort_value(by: ItemSortBy, row: Row, draw: spec_fn(Row) -> Val) -> Val {
    match by {
        ItemSortBy::Random => draw(row),
        ItemSortBy::Runtime => row("RunTimeTicks"@),
        ItemSortBy::DateCreated => row("DateCreated"@),
        ItemSortBy::DateLastContentAdded => row("DateLastMediaAdded"@),
        ItemSortBy::PremiereDate => row("PremiereDate"@),
        ItemSortBy::StartDate => row("StartDate"@),
        ItemSortBy::Album => row("Album"@),
        ItemSortBy::CommunityRating => row("CommunityRating"@),
        ItemSortBy::CriticRating => row("CriticRating"@),
        ItemSortBy::ProductionYear => row("ProductionYear"@),
        ItemSortBy::VideoBitRate => row("TotalBitrate"@),
        ItemSortBy::ParentIndexNumber => row("ParentIndexNumber"@),
        ItemSortBy::IndexNumber => row("IndexNumber"@),
        ItemSortBy::AiredEpisodeOrder => {
            // Specials, which are of season zero, come behind every season.
            let season = if row("ParentIndexNumber"@) == Val::Int(0) {
                1000000
            } else {
                number_or_zero(row("ParentIndexNumber"@))
            };
            Val::Int(season * 100000 + number_or_zero(row("IndexNumber"@)))
        },
        ItemSortBy::IsFolder => row("IsFolder"@),
        ItemSortBy::OfficialRating => row("InheritedParentalRatingValue"@),
        ItemSortBy::SeriesSortName => row("SeriesName"@),
        _ => row("SortName"@),
    }
}

/// Whether two items are the same to a key of a filter; the default key tells none apart.
pub open spec fn key_ties(
    key: (ItemSortBy, SortOrder),
    a: Row,
    b: Row,
    draw: spec_fn(Row) -> Val,
) -> bool {
    key.0 == ItemSortBy::Default || sort_value(key.0, a, draw) == sort_value(key.0, b, draw)
}

/// Whether a key of a filter puts an item before another.
pub open spec fn key_before(
    key: (ItemSortBy, SortOrder),
    a: Row,
    b: Row,
    draw: spec_fn(Row) -> Val,
    db: Db,
) -> bool {
    let x = sort_value(key.0, a, draw);
    let y = sort_value(key.0, b, draw);
    key.0 != ItemSortBy::Default && match key.1 {
        SortOrder::Ascending => ranks_before(x, y, db),
        SortOrder::Descending => ranks_before(y, x, db),
    }
}

/// Whether no key of a filter tells two items apart.
pub open spec fn keys_tie(
    keys: Seq<(ItemSortBy, SortOrder)>,
    a: Row,
    b: Row,
    draw: spec_fn(Row) -> Val,
) -> bool {
    forall|i: int| 0 <= i < keys.len() ==> key_ties(#[trigger] keys[i], a, b, draw)
}

/// Whether the first key of a filter that tells two items apart puts one before the other.
pub open spec fn keys_before(
    keys: Seq<(ItemSortBy, SortOrder)>,
    a: Row,
    b: Row,
    draw: spec_fn(Row) -> Val,
    db: Db,
) -> bool {
    exists|i: int|
        0 <= i < keys.len() && key_before(#[trigger] keys[i], a, b, draw, db) && keys_tie(
            keys.take(i),
            a,
            b,
            draw,
        )
}

/// Whether a filter puts an item before another: by its keys, and by the sort name where they
/// do not tell the two apart.
pub open spec fn is_before(
    f: InternalItemsQuery,
    a: Row,
    b: Row,
    draw: spec_fn(Row) -> Val,
    db: Db,
) -> bool {
    ||| keys_before(f.order_by@, a, b, draw, db)
    ||| keys_tie(f.order_by@, a, b, draw) && ranks_before(a("SortName"@), b("SortName"@), db)
}

/// The items that a filter takes of those that it wants: from its start index on, and no more
/// than its limit, where that is not negative.
pub open spec fn is_page<A>(f: InternalItemsQuery, rows: Seq<A>, out: Seq<A>) -> bool {
    let skip = match f.start_index {
        Some(n) => if n > 0 {
            n as int
        } else {
            0
        },
        None => 0,
    };
    let left = if skip < rows.len() {
        rows.len() - skip
    } else {
        0
    };
    &&& out.len() == match f.limit {
        Some(n) => if 0 <= n < left {
            n as int
        } else {
            left
        },
        None => left,
    }
    &&& forall|i: int| 0 <= i < out.len() ==> #[trigger] out[i] == rows[skip + i]
}

// ---------------------------------------------------------------------------
// Proofs
// ---------------------------------------------------------------------------
spec fn key_rank(by: ItemSortBy) -> Rank {
    match by {
        ItemSortBy::Random => Rank::Drawn,
        ItemSortBy::Runtime => Rank::Column("RunTimeTicks"@),
        ItemSortBy::DateCreated => Rank::Column("DateCreated"@),
        ItemSortBy::DateLastContentAdded => Rank::Column("DateLastMediaAdded"@),
        ItemSortBy::PremiereDate => Rank::Column("PremiereDate"@),
        ItemSortBy::StartDate => Rank::Column("StartDate"@),
        ItemSortBy::Album => Rank::Column("Album"@),
        ItemSortBy::CommunityRating => Rank::Column("CommunityRating"@),
        ItemSortBy::CriticRating => Rank::Column("CriticRating"@),
        ItemSortBy::ProductionYear => Rank::Column("ProductionYear"@),
        ItemSortBy::VideoBitRate => Rank::Column("TotalBitrate"@),
        ItemSortBy::ParentIndexNumber => Rank::Column("ParentIndexNumber"@),
        ItemSortBy::IndexNumber => Rank::Column("IndexNumber"@),
        ItemSortBy::AiredEpisodeOrder => Rank::Combined {
            first: "ParentIndexNumber"@,
            second: "IndexNumber"@,
        },
        ItemSortBy::IsFolder => Rank::Column("IsFolder"@),
        ItemSortBy::OfficialRating => Rank::Column("InheritedParentalRatingValue"@),
        ItemSortBy::SeriesSortName => Rank::Column("SeriesName"@),
        _ => Rank::Column("SortName"@),
    }
}

spec fn key_step(key: (ItemSortBy, SortOrder)) -> Step {
    Step {
        rank: key_rank(key.0),
        direction: match key.1 {
            SortOrder::Ascending => Direction::Up,
            SortOrder::Descending => Direction::Down,
        },
    }
}

spec fn steps_of(keys: Seq<(ItemSortBy, SortOrder)>) -> Seq<Step> {
    Seq::new(keys.len(), |i: int| key_step(keys[i]))
}

proof fn lemma_rank_text(by: ItemSortBy)
    ensures
        chars(order_text(by)) == rank_text(key_rank(by)),
{
    match by {
        ItemSortBy::Runtime => {
            assert(chars(r#"bi."RunTimeTicks""#@) =~= column_text("bi"@, "RunTimeTicks"@)) by {
                reveal(Said::spec_add);
                reveal_strlit(r#"bi."RunTimeTicks""#);
                reveal_strlit("bi");
                reveal_strlit(".");
                reveal_strlit("\"");
                reveal_strlit("RunTimeTicks");
            }
        },
        ItemSortBy::DateCreated => {
            assert(chars(r#"bi."DateCreated""#@) =~= column_text("bi"@, "DateCreated"@)) by {
                reveal(Said::spec_add);
                reveal_strlit(r#"bi."DateCreated""#);
                reveal_strlit("bi");
                reveal_strlit(".");
                reveal_strlit("\"");
                reveal_strlit("DateCreated");
            }
        },
        ItemSortBy::DateLastContentAdded => {
            assert(chars(r#"bi."DateLastMediaAdded""#@) =~= column_text("bi"@, "DateLastMediaAdded"@)) by {
                reveal(Said::spec_add);
                reveal_strlit(r#"bi."DateLastMediaAdded""#);
                reveal_strlit("bi");
                reveal_strlit(".");
                reveal_strlit("\"");
                reveal_strlit("DateLastMediaAdded");
            }
        },
        ItemSortBy::PremiereDate => {
            assert(chars(r#"bi."PremiereDate""#@) =~= column_text("bi"@, "PremiereDate"@)) by {
                reveal(Said::spec_add);
                reveal_strlit(r#"bi."PremiereDate""#);
                reveal_strlit("bi");
                reveal_strlit(".");
                reveal_strlit("\"");
                reveal_strlit("PremiereDate");
            }
        },
        ItemSortBy::StartDate => {
            assert(chars(r#"bi."StartDate""#@) =~= column_text("bi"@, "StartDate"@)) by {
                reveal(Said::spec_add);
                reveal_strlit(r#"bi."StartDate""#);
                reveal_strlit("bi");
                reveal_strlit(".");
                reveal_strlit("\"");
                reveal_strlit("StartDate");
            }
        },
        ItemSortBy::Album => {
            assert(chars(r#"bi."Album""#@) =~= column_text("bi"@, "Album"@)) by {
                reveal(Said::spec_add);
                reveal_strlit(r#"bi."Album""#);
                reveal_strlit("bi");
                reveal_strlit(".");
                reveal_strlit("\"");
                reveal_strlit("Album");
            }
        },
        ItemSortBy::CommunityRating => {
            assert(chars(r#"bi."CommunityRating""#@) =~= column_text("bi"@, "CommunityRating"@)) by {
                reveal(Said::spec_add);
                reveal_strlit(r#"bi."CommunityRating""#);
                reveal_strlit("bi");
                reveal_strlit(".");
                reveal_strlit("\"");
                reveal_strlit("CommunityRating");
            }
        },
        ItemSortBy::CriticRating => {
            assert(chars(r#"bi."CriticRating""#@) =~= column_text("bi"@, "CriticRating"@)) by {
                reveal(Said::spec_add);
                reveal_strlit(r#"bi."CriticRating""#);
                reveal_strlit("bi");
                reveal_strlit(".");
                reveal_strlit("\"");
                reveal_strlit("CriticRating");
            }
        },
        ItemSortBy::ProductionYear => {
            assert(chars(r#"bi."ProductionYear""#@) =~= column_text("bi"@, "ProductionYear"@)) by {
                reveal(Said::spec_add);
                reveal_strlit(r#"bi."ProductionYear""#);
                reveal_strlit("bi");
                reveal_strlit(".");
                reveal_strlit("\"");
                reveal_strlit("ProductionYear");
            }
        },
        ItemSortBy::VideoBitRate => {
            assert(chars(r#"bi."TotalBitrate""#@) =~= column_text("bi"@, "TotalBitrate"@)) by {
                reveal(Said::spec_add);
                reveal_strlit(r#"bi."TotalBitrate""#);
                reveal_strlit("bi");
                reveal_strlit(".");
                reveal_strlit("\"");
                reveal_strlit("TotalBitrate");
            }
        },
        ItemSortBy::ParentIndexNumber => {
            assert(chars(r#"bi."ParentIndexNumber""#@) =~= column_text("bi"@, "ParentIndexNumber"@)) by {
                reveal(Said::spec_add);
                reveal_strlit(r#"bi."ParentIndexNumber""#);
                reveal_strlit("bi");
                reveal_strlit(".");
                reveal_strlit("\"");
                reveal_strlit("ParentIndexNumber");
            }
        },
        ItemSortBy::IndexNumber => {
            assert(chars(r#"bi."IndexNumber""#@) =~= column_text("bi"@, "IndexNumber"@)) by {
                reveal(Said::spec_add);
                reveal_strlit(r#"bi."IndexNumber""#);
                reveal_strlit("bi");
                reveal_strlit(".");
                reveal_strlit("\"");
                reveal_strlit("IndexNumber");
            }
        },
        ItemSortBy::IsFolder => {
            assert(chars(r#"bi."IsFolder""#@) =~= column_text("bi"@, "IsFolder"@)) by {
                reveal(Said::spec_add);
                reveal_strlit(r#"bi."IsFolder""#);
                reveal_strlit("bi");
                reveal_strlit(".");
                reveal_strlit("\"");
                reveal_strlit("IsFolder");
            }
        },
        ItemSortBy::OfficialRating => {
            assert(chars(r#"bi."InheritedParentalRatingValue""#@) =~= column_text("bi"@, "InheritedParentalRatingValue"@)) by {
                reveal(Said::spec_add);
                reveal_strlit(r#"bi."InheritedParentalRatingValue""#);
                reveal_strlit("bi");
                reveal_strlit(".");
                reveal_strlit("\"");
                reveal_strlit("InheritedParentalRatingValue");
            }
        },
        ItemSortBy::SeriesSortName => {
            assert(chars(r#"bi."SeriesName""#@) =~= column_text("bi"@, "SeriesName"@)) by {
                reveal(Said::spec_add);
                reveal_strlit(r#"bi."SeriesName""#);
                reveal_strlit("bi");
                reveal_strlit(".");
                reveal_strlit("\"");
                reveal_strlit("SeriesName");
            }
        },
        ItemSortBy::Random => {},
        ItemSortBy::AiredEpisodeOrder => {
            assert(chars(
                r#"(CASE WHEN bi."ParentIndexNumber" = 0 THEN 1000000 ELSE COALESCE(bi."ParentIndexNumber", 0) END) * 100000 + COALESCE(bi."IndexNumber", 0)"#@,
            ) =~= rank_text(key_rank(by))) by {
                reveal(Said::spec_add);
                reveal_strlit(r#"(CASE WHEN bi."ParentIndexNumber" = 0 THEN 1000000 ELSE COALESCE(bi."ParentIndexNumber", 0) END) * 100000 + COALESCE(bi."IndexNumber", 0)"#);
                reveal_strlit("(CASE WHEN ");
                reveal_strlit("bi");
                reveal_strlit(".");
                reveal_strlit("\"");
                reveal_strlit("ParentIndexNumber");
                reveal_strlit(" = 0 THEN 1000000 ELSE COALESCE(");
                reveal_strlit(", 0) END) * 100000 + COALESCE(");
                reveal_strlit("IndexNumber");
                reveal_strlit(", 0)");
            }
        },
        _ => {
            assert(chars(r#"bi."SortName""#@) =~= column_text("bi"@, "SortName"@)) by {
                reveal(Said::spec_add);
                reveal_strlit(r#"bi."SortName""#);
                reveal_strlit("bi");
                reveal_strlit(".");
                reveal_strlit("\"");
                reveal_strlit("SortName");
            }
        },
    }
}

proof fn lemma_order_terms(acc: Sql, keys: Seq<(ItemSortBy, SortOrder)>)
    ensures
        flat(order_terms(acc, keys)) == flat(acc) + steps_text(steps_of(keys)),
    decreases keys.len(),
{
    if keys.len() == 0 {
        assert(flat(acc) + steps_text(steps_of(keys)) == flat(acc)) by {
            broadcast use {lemma_said_in_turn, lemma_said_nothing};

        }
    } else {
        let head = order_terms(acc, keys.drop_last());
        lemma_order_terms(acc, keys.drop_last());
        assert(steps_of(keys).drop_last() =~= steps_of(keys.drop_last()));
        let key = keys.last();
        assert(steps_of(keys).last() == key_step(key));
        let a = if keys.len() > 1 {
            say(head, ", "@)
        } else {
            head
        };
        let t = match key.1 {
            SortOrder::Ascending => " ASC"@,
            SortOrder::Descending => " DESC"@,
        };
        lemma_flat_say(head, ", "@);
        lemma_flat_say(a, order_text(key.0));
        lemma_flat_say(say(a, order_text(key.0)), t);
        lemma_rank_text(key.0);
        assert(step_text(key_step(key)) == chars(order_text(key.0)) + chars(t));
        assert(order_terms(acc, keys) == say(say(a, order_text(key.0)), t));
        if keys.len() > 1 {
            assert(flat(order_terms(acc, keys)) == flat(acc) + steps_text(steps_of(keys))) by {
                broadcast use {lemma_said_in_turn, lemma_said_nothing};

            }
        } else {
            assert(keys.drop_last().len() == 0);
            assert(head == acc);
            assert(steps_of(keys)[0] == key_step(key));
            assert(flat(order_terms(acc, keys)) == flat(acc) + steps_text(steps_of(keys))) by {
                broadcast use {lemma_said_in_turn, lemma_said_nothing};

            }
        }
    }
}

proof fn lemma_one_more_step(
    steps: Seq<Step>,
    s: Step,
    a: Row,
    b: Row,
    draw: spec_fn(Row) -> Val,
    db: Db,
)
    ensures
        all_tie(steps.push(s), a, b, draw) <==> all_tie(steps, a, b, draw) && step_ties(s, a, b, draw),
        precedes(steps.push(s), a, b, draw, db) <==> precedes(steps, a, b, draw, db) || (all_tie(
            steps,
            a,
            b,
            draw,
        ) && step_before(s, a, b, draw, db)),
{
    let more = steps.push(s);
    let n = steps.len() as int;
    assert(more[n] == s);
    assert(more.take(n) =~= steps);
    assert forall|i: int| 0 <= i < n implies more.take(i) =~= #[trigger] steps.take(i) by {}
    assert forall|i: int| 0 <= i < n implies #[trigger] more[i] == steps[i] by {}
    if all_tie(more, a, b, draw) {
        assert forall|i: int| 0 <= i < n implies step_ties(#[trigger] steps[i], a, b, draw) by {
            assert(more[i] == steps[i]);
        }
    }
    if precedes(steps, a, b, draw, db) {
        let i = choose|i: int|
            0 <= i < steps.len() && step_before(#[trigger] steps[i], a, b, draw, db) && all_tie(
                steps.take(i),
                a,
                b,
                draw,
            );
        assert(more[i] == steps[i]);
        assert(more.take(i) == steps.take(i));
    }
    if precedes(more, a, b, draw, db) {
        let i = choose|i: int|
            0 <= i < more.len() && step_before(#[trigger] more[i], a, b, draw, db) && all_tie(
                more.take(i),
                a,
                b,
                draw,
            );
        if i < n {
            assert(more[i] == steps[i]);
            assert(more.take(i) == steps.take(i));
        }
    }
}

proof fn lemma_one_more_key(
    keys: Seq<(ItemSortBy, SortOrder)>,
    k: (ItemSortBy, SortOrder),
    a: Row,
    b: Row,
    draw: spec_fn(Row) -> Val,
    db: Db,
)
    ensures
        keys_tie(keys.push(k), a, b, draw) <==> keys_tie(keys, a, b, draw) && key_ties(k, a, b, draw),
        keys_before(keys.push(k), a, b, draw, db) <==> keys_before(keys, a, b, draw, db) || (
        keys_tie(keys, a, b, draw) && key_before(k, a, b, draw, db)),
{
    let more = keys.push(k);
    let n = keys.len() as int;
    assert(more[n] == k);
    assert(more.take(n) =~= keys);
    assert forall|i: int| 0 <= i < n implies more.take(i) =~= #[trigger] keys.take(i) by {}
    assert forall|i: int| 0 <= i < n implies #[trigger] more[i] == keys[i] by {}
    if keys_tie(more, a, b, draw) {
        assert forall|i: int| 0 <= i < n implies key_ties(#[trigger] keys[i], a, b, draw) by {
            assert(more[i] == keys[i]);
        }
    }
    if keys_before(keys, a, b, draw, db) {
        let i = choose|i: int|
            0 <= i < keys.len() && key_before(#[trigger] keys[i], a, b, draw, db) && keys_tie(
                keys.take(i),
                a,
                b,
                draw,
            );
        assert(more[i] == keys[i]);
        assert(more.take(i) == keys.take(i));
    }
    if keys_before(more, a, b, draw, db) {
        let i = choose|i: int|
            0 <= i < more.len() && key_before(#[trigger] more[i], a, b, draw, db) && keys_tie(
                more.take(i),
                a,
                b,
                draw,
            );
        if i < n {
            assert(more[i] == keys[i]);
            assert(more.take(i) == keys.take(i));
        }
    }
}

proof fn lemma_steps_are_keys(
    keys: Seq<(ItemSortBy, SortOrder)>,
    a: Row,
    b: Row,
    draw: spec_fn(Row) -> Val,
    db: Db,
)
    ensures
        all_tie(steps_of(sort_keys(keys)), a, b, draw) <==> keys_tie(keys, a, b, draw),
        precedes(steps_of(sort_keys(keys)), a, b, draw, db) <==> keys_before(keys, a, b, draw, db),
    decreases keys.len(),
{
    if keys.len() > 0 {
        let rest = keys.drop_last();
        let k = keys.last();
        lemma_steps_are_keys(rest, a, b, draw, db);
        lemma_one_more_key(rest, k, a, b, draw, db);
        assert(rest.push(k) =~= keys);
        if k.0 != ItemSortBy::Default {
            let s = key_step(k);
            let steps = steps_of(sort_keys(rest));
            assert(steps_of(sort_keys(keys)) =~= steps.push(s));
            lemma_one_more_step(steps, s, a, b, draw, db);
            assert(rank_of(s.rank, a, draw) == sort_value(k.0, a, draw));
            assert(rank_of(s.rank, b, draw) == sort_value(k.0, b, draw));
        }
    }
}

spec fn order_steps(f: InternalItemsQuery) -> Seq<Step> {
    let keys = sort_keys(f.order_by@);
    let name = Rank::Column("SortName"@);
    if keys.len() == 0 {
        seq![Step { rank: name, direction: Direction::Unnamed }]
    } else if sorts_by_name(keys) {
        steps_of(keys)
    } else {
        steps_of(keys).push(Step { rank: name, direction: Direction::Up })
    }
}

proof fn lemma_order_is_the_filters(
    f: InternalItemsQuery,
    a: Row,
    b: Row,
    draw: spec_fn(Row) -> Val,
    db: Db,
)
    ensures
        precedes(order_steps(f), a, b, draw, db) <==> is_before(f, a, b, draw, db),
{
    let keys = sort_keys(f.order_by@);
    let steps = steps_of(keys);
    lemma_steps_are_keys(f.order_by@, a, b, draw, db);
    let name = Rank::Column("SortName"@);
    if keys.len() == 0 {
        let s = Step { rank: name, direction: Direction::Unnamed };
        assert(steps =~= Seq::<Step>::empty());
        assert(order_steps(f) =~= steps.push(s));
        lemma_one_more_step(steps, s, a, b, draw, db);
    } else if sorts_by_name(keys) {
        let i = choose|i: int|
            0 <= i < keys.len() && ((#[trigger] keys[i]).0 == ItemSortBy::SortName || keys[i].0
                == ItemSortBy::Name);
        assert(steps[i] == key_step(keys[i]));
        if all_tie(steps, a, b, draw) {
            assert(step_ties(steps[i], a, b, draw));
            assert(a("SortName"@) == b("SortName"@));
        }
    } else {
        lemma_one_more_step(steps, Step { rank: name, direction: Direction::Up }, a, b, draw, db);
    }
}

proof fn lemma_order_by(acc: Sql, f: InternalItemsQuery)
    ensures
        flat(order_by(acc, f)) == flat(acc) + chars(" ORDER BY "@) + steps_text(order_steps(f)),
{
    let keys = sort_keys(f.order_by@);
    let a = say(acc, " ORDER BY "@);
    lemma_flat_say(acc, " ORDER BY "@);
    let column = r#"bi."SortName""#@;
    assert(chars(column) =~= column_text("bi"@, "SortName"@)) by {
        reveal(Said::spec_add);
        reveal_strlit(r#"bi."SortName""#);
        reveal_strlit("bi");
        reveal_strlit(".");
        reveal_strlit("\"");
        reveal_strlit("SortName");
    }
    let name = Rank::Column("SortName"@);
    if keys.len() == 0 {
        let s = Step { rank: name, direction: Direction::Unnamed };
        lemma_flat_say(a, column);
        assert(order_steps(f)[0] == s);
        assert(step_text(s) == chars(column)) by {
            broadcast use {lemma_said_in_turn, lemma_said_nothing};

        }
    } else {
        lemma_order_terms(a, keys);
        if !sorts_by_name(keys) {
            let t = r#", bi."SortName" ASC"#@;
            let s = Step { rank: name, direction: Direction::Up };
            assert(chars(t) =~= chars(", "@) + (column_text("bi"@, "SortName"@) + chars(" ASC"@))) by {
                reveal(Said::spec_add);
                reveal_strlit(r#", bi."SortName" ASC"#);
                reveal_strlit(", ");
                reveal_strlit("bi");
                reveal_strlit(".");
                reveal_strlit("\"");
                reveal_strlit("SortName");
                reveal_strlit(" ASC");
            }
            lemma_flat_say(order_terms(a, keys), t);
            assert(order_steps(f).drop_last() =~= steps_of(keys));
            assert(order_steps(f).last() == s);
            assert(order_steps(f).len() > 1);
            assert(steps_text(order_steps(f)) == steps_text(steps_of(keys)) + chars(", "@) + step_text(
                s,
            ));
            assert(flat(order_by(acc, f)) == flat(acc) + chars(" ORDER BY "@) + steps_text(
                order_steps(f),
            )) by {
                broadcast use {lemma_said_in_turn, lemma_said_nothing};

            }
        }
    }
}

spec fn page_asked(f: InternalItemsQuery) -> Page {
    let skip = match f.start_index {
        Some(n) => n as int,
        None => 0,
    };
    match f.limit {
        Some(n) => if skip > 0 {
            Page::From { count: n as int, skip }
        } else {
            Page::First(n as int)
        },
        None => if skip > 0 {
            Page::Behind(skip)
        } else {
            Page::All
        },
    }
}

proof fn lemma_paging(acc: Sql, f: InternalItemsQuery)
    ensures
        flat(paging(acc, f)) == flat(acc) + page_text(page_asked(f)),
{
    let skip = match f.start_index {
        Some(n) => n as int,
        None => 0,
    };
    let offset = BindView::Int(skip);
    match f.limit {
        Some(n) => {
            let v = BindView::Int(n as int);
            let a = say(acc, " LIMIT "@);
            let b = give(a, v);
            lemma_flat_say(acc, " LIMIT "@);
            lemma_flat_give(a, v);
            if skip > 0 {
                lemma_flat_say(b, " OFFSET "@);
                lemma_flat_give(say(b, " OFFSET "@), offset);
            }
            assert(flat(paging(acc, f)) == flat(acc) + page_text(page_asked(f))) by {
                broadcast use {lemma_said_in_turn, lemma_said_nothing};

            }
        },
        None => {
            if skip > 0 {
                let t = " LIMIT -1 OFFSET "@;
                lemma_flat_say(acc, t);
                lemma_flat_give(say(acc, t), offset);
            }
            assert(flat(paging(acc, f)) == flat(acc) + page_text(page_asked(f))) by {
                broadcast use {lemma_said_in_turn, lemma_said_nothing};

            }
        },
    }
}

/// Whether what follows the conditions of a statement puts its rows in an order, and takes a
/// page of them.
pub open spec fn says_order(said: Said, steps: Seq<Step>, page: Page) -> bool {
    &&& steps.len() > 0
    &&& said == chars(" ORDER BY "@) + steps_text(steps) + page_text(page)
}

/// A statement for items puts them in the order of the filter: by its keys in turn, each in its
/// direction, and last by the sort name.
pub proof fn law_items_come_in_the_filters_order(f: InternalItemsQuery, shape: QueryShape) -> (r: (
    Seq<Step>,
    Page,
))
    requires
        shape is FullRows || shape is IdsOnly,
    ensures
        says_order(flat(tail_clause(f, shape)), r.0, r.1),
        forall|a: Row, b: Row, draw: spec_fn(Row) -> Val, db: Db| #[trigger]
            precedes(r.0, a, b, draw, db) <==> is_before(f, a, b, draw, db),
        forall|rows: Seq<Row>| is_page(f, rows, #[trigger] taken(rows, r.1)),
{
    let empty = Seq::<PieceView>::empty();
    let steps = order_steps(f);
    let page = page_asked(f);
    lemma_order_by(empty, f);
    lemma_paging(order_by(empty, f), f);
    assert(flat(empty) + chars(" ORDER BY "@) =~= chars(" ORDER BY "@)) by {
        reveal(Said::spec_add);
    }
    assert forall|a: Row, b: Row, draw: spec_fn(Row) -> Val, db: Db| #[trigger]
        precedes(steps, a, b, draw, db) <==> is_before(f, a, b, draw, db) by {
        lemma_order_is_the_filters(f, a, b, draw, db);
    }
    assert forall|rows: Seq<Row>| is_page(f, rows, #[trigger] taken(rows, page)) by {}
    (steps, page)
}

/// Counts come in no order and are not cut; those by type are one for each type.
pub proof fn law_counts_are_whole(f: InternalItemsQuery)
    ensures
        flat(tail_clause(f, QueryShape::Count)) == nothing(),
        flat(tail_clause(f, QueryShape::TypeCounts)) == chars(" GROUP BY "@) + column_text(
            "bi"@,
            "Type"@,
        ),
{
    let t = r#" GROUP BY bi."Type""#@;
    lemma_flat_say(Seq::<PieceView>::empty(), t);
    assert(flat(tail_clause(f, QueryShape::TypeCounts)) =~= chars(t)) by {
        reveal(Said::spec_add);
    }
    assert(chars(t) =~= chars(" GROUP BY "@) + column_text("bi"@, "Type"@)) by {
        reveal(Said::spec_add);
        reveal_strlit(r#" GROUP BY bi."Type""#);
        reveal_strlit(" GROUP BY ");
        reveal_strlit("bi");
        reveal_strlit(".");
        reveal_strlit("\"");
        reveal_strlit("Type");
    }
}

} // verus!
