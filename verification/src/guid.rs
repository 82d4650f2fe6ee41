//! Item, user and session identifiers.
use vstd::prelude::*;

use crate::text::{
    ascii_lower, ascii_lower_char, ascii_upper, is_free_of, texts, to_ascii_uppercase,
};

verus! {

/// A 128-bit identifier. The all-zero one means "none".
#[derive(Clone, Copy, Debug, PartialEq, Eq, Structural)]
pub struct Guid {
    pub value: u128,
}

/// The lower-case hexadecimal digit for a value below sixteen.
pub open spec fn hex_digit(v: int) -> char {
    if v < 10 {
        ('0' as u32 + v) as char
    } else {
        ('a' as u32 + (v - 10)) as char
    }
}

/// Sixteen to the power of `n`.
pub open spec fn pow16(n: nat) -> nat
    decreases n,
{
    if n == 0 {
        1
    } else {
        16 * pow16((n - 1) as nat)
    }
}

/// The `k`-th hexadecimal digit of `v`, of thirty-two, from the left.
pub open spec fn nibble(v: u128, k: int) -> int {
    (v as int / pow16((31 - k) as nat) as int) % 16
}

/// The thirty-two hexadecimal digits of `v`, without hyphens.
pub open spec fn simple_text(v: u128) -> Seq<char> {
    Seq::new(32, |k: int| hex_digit(nibble(v, k)))
}

/// The hexadecimal digits of `v` in groups of eight, four, four, four and
/// twelve, with hyphens between the groups.
pub open spec fn hyphenated_text(v: u128) -> Seq<char> {
    let d = simple_text(v);
    d.subrange(0, 8) + seq!['-'] + d.subrange(8, 12) + seq!['-'] + d.subrange(12, 16) + seq!['-']
        + d.subrange(16, 20) + seq!['-'] + d.subrange(20, 32)
}

/// Whether the characters spell `v`: its digits with or without hyphens; those with
/// hyphens in braces, too, or behind `urn:uuid:`. Letters may be in either case.
pub open spec fn spells(s: Seq<char>, v: u128) -> bool {
    let l = ascii_lower(s);
    ||| l == simple_text(v)
    ||| l == hyphenated_text(v)
    ||| l == "{"@ + hyphenated_text(v) + "}"@
    ||| l == "urn:uuid:"@ + hyphenated_text(v)
}

/// The identifier that the given characters spell, if they spell one.
#[verifier::opaque]
pub open spec fn guid_in(s: Seq<char>) -> Option<Guid> {
    if exists|v: u128| spells(s, v) {
        Some(Guid { value: choose|v: u128| spells(s, v) })
    } else {
        None
    }
}

impl Guid {
    /// The identifier with the given bits.
    pub fn from_u128(value: u128) -> (r: Self)
        ensures
            r == (Guid { value }),
    {
        Guid { value }
    }

    /// The identifier that stands for "none".
    pub fn nil() -> (r: Self)
        ensures
            r == (Guid { value: 0 }),
    {
        Guid { value: 0 }
    }

    /// Whether this is the "none" identifier.
    pub fn is_nil(&self) -> (r: bool)
        ensures
            r == (self.value == 0),
    {
        self.value == 0
    }
}

/// `uuid::Uuid::parse_str`: thirty-two hexadecimal digits in either case, plain or
/// with hyphens in their places; those with hyphens also in braces or behind
/// `urn:uuid:`, in either case. Anything else is refused.
#[verifier::external_body]
fn read_guid(s: &str) -> (r: Option<Guid>)
    ensures
        match r {
            Some(id) => spells(s@, id.value),
            None => forall|v: u128| !#[trigger] spells(s@, v),
        },
{
    uuid::Uuid::parse_str(s).ok().map(|u| Guid { value: u.as_u128() })
}

/// The identifier that `s` spells, if it spells one. The hyphenated and the plain
/// text of an identifier spell it.
pub fn parse_guid(s: &str) -> (r: Option<Guid>)
    ensures
        r == guid_in(s@),
        forall|v: u128| #[trigger] spells(s@, v) ==> r == Some(Guid { value: v }),
        forall|v: u128| s@ == #[trigger] hyphenated_text(v) ==> r == Some(Guid { value: v }),
        forall|v: u128| s@ == #[trigger] simple_text(v) ==> r == Some(Guid { value: v }),
{
    let r: Option<Guid> = read_guid(s);
    proof {
        reveal(guid_in);
        assert forall|v: u128| #[trigger] spells(s@, v) implies r == Some(Guid { value: v }) by {
            law_text_spells_one_guid(s@, v, r->0.value);
        }
        assert forall|v: u128| s@ == #[trigger] hyphenated_text(v) implies spells(s@, v) by {
            lemma_text_is_lower_case(v);
        }
        assert forall|v: u128| s@ == #[trigger] simple_text(v) implies spells(s@, v) by {
            lemma_text_is_lower_case(v);
        }
    }
    r
}

/// `uuid::Uuid`'s `Display`: the hyphenated lower-case form.
#[verifier::external_body]
pub(crate) fn guid_text(id: Guid) -> (r: String)
    ensures
        r@ == hyphenated_text(id.value),
{
    uuid::Uuid::from_u128(id.value).to_string()
}

/// `uuid::Uuid::simple`: the lower-case form without hyphens.
#[verifier::external_body]
pub(crate) fn guid_simple_text(id: Guid) -> (r: String)
    ensures
        r@ == simple_text(id.value),
{
    uuid::Uuid::from_u128(id.value).simple().to_string()
}

/// `uuid::Uuid::new_v4`: a random identifier. Its version and variant bits are
/// set, so it is never the "none" identifier.
#[verifier::external_body]
pub(crate) fn new_guid() -> (r: Guid)
    ensures
        r.value != 0,
{
    Guid { value: uuid::Uuid::new_v4().as_u128() }
}

/// The identifier as database columns hold it: hyphenated, in upper case.
pub open spec fn db_text(v: u128) -> Seq<char> {
    ascii_upper(hyphenated_text(v))
}

/// The identifier as database columns hold it.
pub fn guid_to_db(id: Guid) -> (r: String)
    ensures
        r@ == db_text(id.value),
{
    to_ascii_uppercase(guid_text(id).as_str())
}

/// The identifiers that can be read out of the texts, in their order.
pub open spec fn readable(v: Seq<Seq<char>>) -> Seq<Guid>
    decreases v.len(),
{
    if v.len() == 0 {
        Seq::empty()
    } else {
        let head = readable(v.drop_last());
        match guid_in(v.last()) {
            Some(id) => head.push(id),
            None => head,
        }
    }
}

/// The texts of identifiers.
pub open spec fn hyphenated_texts(ids: Seq<Guid>) -> Seq<Seq<char>> {
    Seq::new(ids.len(), |i: int| hyphenated_text(ids[i].value))
}

/// The identifiers that can be read out of the texts, in their order. The texts of
/// identifiers give those identifiers back.
pub fn read_guids(v: &[String]) -> (r: Vec<Guid>)
    ensures
        r@ == readable(texts(v@)),
        forall|ids: Seq<Guid>| texts(v@) == #[trigger] hyphenated_texts(ids) ==> r@ == ids,
{
    let ghost all = texts(v@);
    let mut out: Vec<Guid> = Vec::new();
    let mut i: usize = 0;
    while i < v.len()
        invariant
            i <= v.len(),
            all == texts(v@),
            out@ == readable(all.take(i as int)),
            forall|ids: Seq<Guid>|
                all == #[trigger] hyphenated_texts(ids) ==> out@ == ids.take(i as int),
        decreases v.len() - i,
    {
        let ghost before = out@;
        assert(all.take(i + 1).drop_last() =~= all.take(i as int));
        assert(all.take(i + 1).last() == v@[i as int]@);
        if let Some(id) = parse_guid(v[i].as_str()) {
            out.push(id);
        }
        assert forall|ids: Seq<Guid>| all == #[trigger] hyphenated_texts(ids) implies out@
            == ids.take(i + 1) by {
            assert(before == ids.take(i as int));
            assert(hyphenated_texts(ids).len() == ids.len());
            assert(hyphenated_texts(ids)[i as int] == hyphenated_text(ids[i as int].value));
            assert(all[i as int] == hyphenated_text(ids[i as int].value));
            assert(out@ == before.push(ids[i as int]));
            assert(out@ =~= ids.take(i + 1));
        }
        i += 1;
    }
    assert(all.take(all.len() as int) =~= all);
    assert forall|ids: Seq<Guid>| texts(v@) == #[trigger] hyphenated_texts(ids) implies out@ == ids by {
        assert(hyphenated_texts(ids).len() == ids.len());
        assert(ids.take(ids.len() as int) =~= ids);
    }
    out
}

/// The texts of identifiers.
pub fn write_guids(ids: &[Guid]) -> (r: Vec<String>)
    ensures
        texts(r@) == hyphenated_texts(ids@),
{
    let mut out: Vec<String> = Vec::new();
    let mut i: usize = 0;
    while i < ids.len()
        invariant
            i <= ids.len(),
            out@.len() == i,
            forall|j: int| 0 <= j < i ==> (#[trigger] out@[j])@ == hyphenated_text(ids@[j].value),
        decreases ids.len() - i,
    {
        out.push(guid_text(ids[i]));
        i += 1;
    }
    assert(texts(out@) =~= hyphenated_texts(ids@));
    out
}

proof fn lemma_nibble(v: u128, k: int)
    requires
        0 <= k < 32,
    ensures
        0 <= nibble(v, k) < 16,
{
}

/// The text of an identifier holds digits, letters and hyphens only: no comma.
pub proof fn lemma_guid_text_is_free_of_commas(v: u128)
    ensures
        is_free_of(hyphenated_text(v), ','),
{
    let d = simple_text(v);
    assert forall|k: int| 0 <= k < 32 implies #[trigger] d[k] != ',' by {
        lemma_nibble(v, k);
        let n = nibble(v, k);
        if n < 10 {
            assert(('0' as u32 + n) as char != ',');
        } else {
            assert(('a' as u32 + (n - 10)) as char != ',');
        }
    }
    let t = hyphenated_text(v);
    assert forall|i: int| 0 <= i < t.len() implies #[trigger] t[i] != ',' by {
        if i < 8 {
            assert(t[i] == d[i]);
        } else if i == 8 {
            assert(t[i] == '-');
        } else if i < 13 {
            assert(t[i] == d[i - 1]);
        } else if i == 13 {
            assert(t[i] == '-');
        } else if i < 18 {
            assert(t[i] == d[i - 2]);
        } else if i == 18 {
            assert(t[i] == '-');
        } else if i < 23 {
            assert(t[i] == d[i - 3]);
        } else if i == 23 {
            assert(t[i] == '-');
        } else {
            assert(t[i] == d[i - 4]);
        }
    }
}

proof fn lemma_same_quotient(a: u128, b: u128, n: nat)
    requires
        n <= 32,
        forall|k: int| 0 <= k < 32 ==> #[trigger] nibble(a, k) == nibble(b, k),
    ensures
        pow16(n) > 0,
        a as int / pow16(n) as int == b as int / pow16(n) as int,
    decreases 32 - n,
{
    lemma_pow16_positive(n);
    if n == 32 {
        assert(pow16(32) == 0x1_0000_0000_0000_0000_0000_0000_0000_0000int) by {
            reveal_with_fuel(pow16, 33);
        }
        assert(a as int / 0x1_0000_0000_0000_0000_0000_0000_0000_0000int == 0);
        assert(b as int / 0x1_0000_0000_0000_0000_0000_0000_0000_0000int == 0);
    } else {
        lemma_same_quotient(a, b, n + 1);
        let d = pow16(n) as int;
        let x = a as int / d;
        let y = b as int / d;
        vstd::arithmetic::div_mod::lemma_div_denominator(a as int, d, 16);
        vstd::arithmetic::div_mod::lemma_div_denominator(b as int, d, 16);
        assert(pow16(n + 1) == 16 * pow16(n));
        assert(d * 16 == pow16(n + 1) as int);
        assert(x / 16 == y / 16);
        assert(nibble(a, 31 - n) == nibble(b, 31 - n));
        assert(x % 16 == y % 16);
        assert(x == y);
    }
}

proof fn lemma_pow16_positive(n: nat)
    ensures
        pow16(n) > 0,
    decreases n,
{
    if n > 0 {
        lemma_pow16_positive((n - 1) as nat);
    }
}

proof fn lemma_hex_digit(v: int, w: int)
    requires
        0 <= v < 16,
        0 <= w < 16,
        hex_digit(v) == hex_digit(w),
    ensures
        v == w,
{
    assert((hex_digit(v) as u32) == (if v < 10 {
        48 + v
    } else {
        87 + v
    }));
    assert((hex_digit(w) as u32) == (if w < 10 {
        48 + w
    } else {
        87 + w
    }));
}

proof fn lemma_text_is_lower_case(v: u128)
    ensures
        ascii_lower(simple_text(v)) == simple_text(v),
        ascii_lower(hyphenated_text(v)) == hyphenated_text(v),
{
    let d = simple_text(v);
    assert forall|k: int| 0 <= k < 32 implies ascii_lower_char(#[trigger] d[k]) == d[k] by {
        lemma_nibble(v, k);
        let n = nibble(v, k);
        if n < 10 {
            assert(('0' as u32 + n) as char <= '9');
        } else {
            assert(('a' as u32 + (n - 10)) as char >= 'a');
        }
    }
    assert(ascii_lower(d) =~= d);
    assert(ascii_lower(hyphenated_text(v)) =~= hyphenated_text(v));
}

proof fn lemma_same_digits(a: u128, b: u128)
    requires
        simple_text(a) == simple_text(b),
    ensures
        a == b,
{
    let d = simple_text(a);
    let e = simple_text(b);
    assert forall|k: int| 0 <= k < 32 implies #[trigger] nibble(a, k) == nibble(b, k) by {
        assert(d[k] == e[k]);
        lemma_nibble(a, k);
        lemma_nibble(b, k);
        lemma_hex_digit(nibble(a, k), nibble(b, k));
    }
    lemma_same_quotient(a, b, 0);
    assert(pow16(0) == 1);
}

/// Two identifiers with the same text are the same identifier.
pub proof fn law_text_names_one_guid(a: u128, b: u128)
    requires
        hyphenated_text(a) == hyphenated_text(b),
    ensures
        a == b,
{
    let s = hyphenated_text(a);
    let t = hyphenated_text(b);
    let d = simple_text(a);
    let e = simple_text(b);
    assert forall|k: int| 0 <= k < 32 implies #[trigger] d[k] == e[k] by {
        let i = if k < 8 {
            k
        } else if k < 12 {
            k + 1
        } else if k < 16 {
            k + 2
        } else if k < 20 {
            k + 3
        } else {
            k + 4
        };
        assert(s[i] == d[k]);
        assert(t[i] == e[k]);
    }
    assert(d =~= e);
    lemma_same_digits(a, b);
}

/// No text spells two identifiers.
pub proof fn law_text_spells_one_guid(s: Seq<char>, a: u128, b: u128)
    requires
        spells(s, a),
        spells(s, b),
    ensures
        a == b,
{
    reveal_strlit("{");
    reveal_strlit("}");
    reveal_strlit("urn:uuid:");
    let l = ascii_lower(s);
    let x = hyphenated_text(a);
    let y = hyphenated_text(b);
    assert(x.len() == 36 && y.len() == 36);
    if l.len() == 32 {
        lemma_same_digits(a, b);
    } else {
        if l.len() == 38 {
            assert(x =~= l.subrange(1, 37));
            assert(y =~= l.subrange(1, 37));
        } else if l.len() == 45 {
            assert(x =~= l.skip(9));
            assert(y =~= l.skip(9));
        }
        law_text_names_one_guid(a, b);
    }
}

/// A text that spells an identifier is read as that identifier, and no other text is
/// read as one.
pub proof fn law_spelled_guid_is_read(s: Seq<char>, v: u128)
    ensures
        spells(s, v) <==> guid_in(s) == Some(Guid { value: v }),
{
    reveal(guid_in);
    if spells(s, v) {
        law_text_spells_one_guid(s, v, guid_in(s)->0.value);
    }
}

} // verus!
