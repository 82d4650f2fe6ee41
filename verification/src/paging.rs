//! Pages of lists.
use vstd::prelude::*;

verus! {

/// One page of a longer list.
#[derive(Debug, Clone)]
pub struct Page<T> {
    /// Where the page starts, as it was asked for.
    pub start_index: Option<i32>,
    /// How long the whole list is, where that was asked for.
    pub total_record_count: Option<i32>,
    /// The page itself.
    pub items: Vec<T>,
}

/// The least of two numbers.
pub open spec fn least(a: int, b: int) -> int {
    if a < b {
        a
    } else {
        b
    }
}

/// The first `n` items, or all of them where there are fewer.
pub open spec fn front<T>(s: Seq<T>, n: int) -> Seq<T> {
    s.take(least(n, s.len() as int))
}

/// What follows the first `n` items.
pub open spec fn rest<T>(s: Seq<T>, n: int) -> Seq<T> {
    s.skip(least(n, s.len() as int))
}

/// Where a page starts: at the index that is asked for, unless that is negative.
pub open spec fn page_start(start_index: Option<i32>) -> int {
    match start_index {
        Some(n) => if n >= 0 {
            n as int
        } else {
            0
        },
        None => 0,
    }
}

/// The items of a page. A limit that is not positive is none.
pub open spec fn page_items<T>(s: Seq<T>, start_index: Option<i32>, limit: Option<i32>) -> Seq<T> {
    let tail = rest(s, page_start(start_index));
    match limit {
        Some(n) => if n > 0 {
            front(tail, n as int)
        } else {
            tail
        },
        None => tail,
    }
}

/// A length as a count: the greatest count where it is beyond that.
pub open spec fn count_of(len: int) -> i32 {
    least(len, i32::MAX as int) as i32
}

/// Moves the first `n` items of one list behind another.
pub fn move_front<T>(from: &mut Vec<T>, n: usize, to: &mut Vec<T>)
    ensures
        final(to)@ == old(to)@ + front(old(from)@, n as int),
        final(from)@ == rest(old(from)@, n as int),
{
    let ghost all = from@;
    let ghost start = to@;
    let mut i: usize = 0;
    assert(all.skip(0) =~= all);
    assert(start + all.take(0) =~= start);
    while i < n && from.len() > 0
        invariant
            i <= n,
            i <= all.len(),
            from@ == all.skip(i as int),
            to@ == start + all.take(i as int),
        decreases n - i,
    {
        let item: T = from.remove(0);
        assert(item == all[i as int]);
        to.push(item);
        assert(from@ =~= all.skip(i + 1));
        assert(to@ =~= start + all.take(i + 1));
        i += 1;
    }
    assert(i == least(n as int, all.len() as int));
}

/// A length as a count: the greatest count where it is beyond that.
pub fn record_count(len: usize) -> (r: i32)
    ensures
        r == count_of(len as int),
{
    if len <= i32::MAX as usize {
        len as i32
    } else {
        i32::MAX
    }
}

/// The items of a page.
pub fn take_page<T>(items: Vec<T>, start_index: Option<i32>, limit: Option<i32>) -> (r: Vec<T>)
    ensures
        r@ == page_items(items@, start_index, limit),
{
    let start: usize = match start_index {
        Some(n) => {
            if n >= 0 {
                n as usize
            } else {
                0
            }
        },
        None => 0,
    };
    let ghost all = items@;
    let mut head: Vec<T> = items;
    let mut page: Vec<T> = if start < head.len() {
        head.split_off(start)
    } else {
        Vec::new()
    };
    assert(page@ =~= rest(all, start as int));
    if let Some(n) = limit {
        if n > 0 {
            let ghost tail = page@;
            page.truncate(n as usize);
            assert(page@ =~= front(tail, n as int));
        }
    }
    page
}

/// A page with its numbers.
pub fn page_of<T>(
    items: Vec<T>,
    start_index: Option<i32>,
    limit: Option<i32>,
    enable_total_record_count: bool,
) -> (r: Page<T>)
    ensures
        r.start_index == start_index,
        r.total_record_count == if enable_total_record_count {
            Some(count_of(items@.len() as int))
        } else {
            None
        },
        r.items@ == page_items(items@, start_index, limit),
{
    let total: Option<i32> = if enable_total_record_count {
        Some(record_count(items.len()))
    } else {
        None
    };
    Page { start_index, total_record_count: total, items: take_page(items, start_index, limit) }
}

} // verus!
