//! Decimal numbers as text.
use vstd::prelude::*;

use crate::text::string_of;

verus! {

/// The value of a decimal digit, or `-1` for any other character.
pub open spec fn digit_value(c: char) -> int {
    if '0' <= c && c <= '9' {
        c as u32 - '0' as u32
    } else {
        -1
    }
}

/// Whether `s` is one decimal digit or more, and nothing else.
pub open spec fn is_digits(s: Seq<char>) -> bool {
    &&& s.len() > 0
    &&& forall|i: int| 0 <= i < s.len() ==> digit_value(#[trigger] s[i]) >= 0
}

/// The number that the decimal digits `s` stand for.
pub open spec fn digits_value(s: Seq<char>) -> int
    decreases s.len(),
{
    if s.len() == 0 {
        0
    } else {
        10 * digits_value(s.drop_last()) + digit_value(s.last())
    }
}

/// The decimal digits of `n`, without leading zeros.
pub open spec fn digits_of(n: nat) -> Seq<char>
    decreases n,
{
    if n < 10 {
        seq![('0' as u32 + n) as char]
    } else {
        digits_of(n / 10).push(('0' as u32 + n % 10) as char)
    }
}

/// `n` in decimal, with a minus sign before a negative number.
pub open spec fn decimal(n: int) -> Seq<char> {
    if n < 0 {
        seq!['-'] + digits_of((-n) as nat)
    } else {
        digits_of(n as nat)
    }
}

/// The number that `s` stands for: an optional sign, then digits.
pub open spec fn parsed_int(s: Seq<char>) -> Option<int> {
    if s.len() > 0 && s[0] == '-' && is_digits(s.drop_first()) {
        Some(-digits_value(s.drop_first()))
    } else if s.len() > 0 && s[0] == '+' && is_digits(s.drop_first()) {
        Some(digits_value(s.drop_first()))
    } else if is_digits(s) {
        Some(digits_value(s))
    } else {
        None
    }
}

/// The number that `s` stands for, where it lies between `lo` and `hi`.
pub open spec fn parsed_between(s: Seq<char>, lo: int, hi: int) -> Option<int> {
    match parsed_int(s) {
        Some(n) => if lo <= n <= hi {
            Some(n)
        } else {
            None
        },
        None => None,
    }
}

/// The largest magnitude that any caller asks for.
pub const MAGNITUDE_LIMIT: u64 = 0x8000_0000_0000_0000;

/// The value of the digits in `cs` from index `from` on: `Some` where they are
/// digits and their value is at most `2^63`.
fn magnitude(cs: &[char], from: usize) -> (r: Option<u64>)
    requires
        from <= cs.len(),
    ensures
        r matches Some(v) ==> is_digits(cs@.skip(from as int)) && v == digits_value(
            cs@.skip(from as int),
        ) && v <= MAGNITUDE_LIMIT,
        r is None ==> !is_digits(cs@.skip(from as int)) || digits_value(cs@.skip(from as int))
            > MAGNITUDE_LIMIT,
{
    let ghost d = cs@.skip(from as int);
    if from == cs.len() {
        return None;
    }
    let mut i: usize = from;
    let mut v: u64 = 0;
    let mut over: bool = false;
    while i < cs.len()
        invariant
            from <= i <= cs.len(),
            d == cs@.skip(from as int),
            forall|j: int| 0 <= j < i - from ==> digit_value(#[trigger] d[j]) >= 0,
            !over ==> v == digits_value(d.take(i - from)) && v <= MAGNITUDE_LIMIT,
            over ==> digits_value(d.take(i - from)) > MAGNITUDE_LIMIT,
        decreases cs.len() - i,
    {
        let c: char = cs[i];
        assert(d[i - from] == c);
        if !('0' <= c && c <= '9') {
            assert(digit_value(d[i - from]) < 0);
            return None;
        }
        let ghost k = i - from;
        assert(d.take(k + 1).drop_last() =~= d.take(k));
        assert(d.take(k + 1).last() == c);
        let dv: u64 = (c as u64) - ('0' as u64);
        if !over {
            if v > (MAGNITUDE_LIMIT - dv) / 10 {
                over = true;
            } else {
                v = v * 10 + dv;
            }
        }
        i += 1;
    }
    assert(d.take(d.len() as int) =~= d);
    if over {
        None
    } else {
        Some(v)
    }
}

/// The number that `cs` stands for, where it fits `i64`.
pub fn parse_i64_chars(cs: &[char]) -> (r: Option<i64>)
    ensures
        r is Some <==> parsed_between(cs@, i64::MIN as int, i64::MAX as int) is Some,
        r matches Some(n) ==> parsed_int(cs@) == Some(n as int),
{
    if cs.len() == 0 {
        return None;
    }
    proof {
        assert(cs@.skip(1) =~= cs@.drop_first());
        assert(cs@.skip(0) =~= cs@);
        if cs@[0] == '-' || cs@[0] == '+' {
            assert(digit_value(cs@[0]) < 0);
        }
    }
    if cs[0] == '-' {
        match magnitude(cs, 1) {
            Some(v) => {
                if v == MAGNITUDE_LIMIT {
                    Some(i64::MIN)
                } else {
                    Some(-(v as i64))
                }
            },
            None => None,
        }
    } else {
        let from: usize = if cs[0] == '+' {
            1
        } else {
            0
        };
        match magnitude(cs, from) {
            Some(v) => {
                if v == MAGNITUDE_LIMIT {
                    None
                } else {
                    Some(v as i64)
                }
            },
            None => None,
        }
    }
}

/// The number that `cs` stands for, where it fits `i32`.
pub fn parse_i32_chars(cs: &[char]) -> (r: Option<i32>)
    ensures
        r is Some <==> parsed_between(cs@, i32::MIN as int, i32::MAX as int) is Some,
        r matches Some(n) ==> parsed_int(cs@) == Some(n as int),
{
    match parse_i64_chars(cs) {
        Some(n) => {
            if -2147483648 <= n && n <= 2147483647 {
                Some(n as i32)
            } else {
                None
            }
        },
        None => None,
    }
}

fn digits_text(n: u64) -> (r: Vec<char>)
    ensures
        r@ == digits_of(n as nat),
    decreases n,
{
    let mut out: Vec<char> = if n < 10 {
        Vec::new()
    } else {
        digits_text(n / 10)
    };
    out.push((('0' as u8) + ((n % 10) as u8)) as char);
    if n < 10 {
        assert(out@ =~= digits_of(n as nat));
    }
    out
}

/// `n` in decimal.
pub fn int_text(n: i64) -> (r: String)
    ensures
        r@ == decimal(n as int),
{
    if n >= 0 {
        string_of(digits_text(n as u64).as_slice())
    } else {
        let m: u64 = if n == i64::MIN {
            MAGNITUDE_LIMIT
        } else {
            (-n) as u64
        };
        let mut digits: Vec<char> = digits_text(m);
        let mut out: Vec<char> = vec!['-'];
        out.append(&mut digits);
        string_of(out.as_slice())
    }
}

proof fn lemma_digits_of_round_trip(n: nat)
    ensures
        is_digits(digits_of(n)),
        digits_value(digits_of(n)) == n,
    decreases n,
{
    if n < 10 {
        let s = digits_of(n);
        assert(s.drop_last() =~= Seq::<char>::empty());
        reveal_with_fuel(digits_value, 2);
    } else {
        lemma_digits_of_round_trip(n / 10);
        let s = digits_of(n);
        assert(s.drop_last() =~= digits_of(n / 10));
        assert forall|i: int| 0 <= i < s.len() implies digit_value(#[trigger] s[i]) >= 0 by {
            if i < s.len() - 1 {
                assert(s[i] == digits_of(n / 10)[i]);
            }
        }
    }
}

/// Reading a number back from its decimal text gives the number.
pub proof fn law_decimal_round_trip(n: int)
    ensures
        parsed_int(decimal(n)) == Some(n),
{
    if n < 0 {
        lemma_digits_of_round_trip((-n) as nat);
        assert(decimal(n).drop_first() =~= digits_of((-n) as nat));
    } else {
        lemma_digits_of_round_trip(n as nat);
        let s = digits_of(n as nat);
        assert(digit_value(s[0]) >= 0);
    }
}

} // verus!
