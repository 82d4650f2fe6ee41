//! Text: the operations on characters and strings that the managers share.
//!
//! A string stands for the sequence of its characters (`s@`). What the Unicode
//! tables decide (case mapping, letters, digits, white space) comes from std
//! through the trusted items at the top of this file; everything else is proved.
use vstd::prelude::*;
use vstd::slice::slice_subrange;

verus! {

// ---------------------------------------------------------------------------
// What std decides
// ---------------------------------------------------------------------------
/// What `char::is_whitespace` returns.
pub uninterp spec fn unicode_whitespace(c: char) -> bool;

/// What `char::is_alphabetic` returns.
pub uninterp spec fn unicode_alphabetic(c: char) -> bool;

/// What `char::is_numeric` returns.
pub uninterp spec fn unicode_numeric(c: char) -> bool;

/// What `str::to_lowercase` makes of the given characters.
pub uninterp spec fn unicode_lowercase(s: Seq<char>) -> Seq<char>;

/// What `str::to_uppercase` makes of the given characters.
pub uninterp spec fn unicode_uppercase(s: Seq<char>) -> Seq<char>;

/// Whether `c` is white space. Of the ASCII characters the tab to the carriage
/// return and the space are; of the others the Unicode tables decide.
pub open spec fn char_is_whitespace(c: char) -> bool {
    if (c as u32) < 128 {
        9 <= c as u32 <= 13 || c == ' '
    } else {
        unicode_whitespace(c)
    }
}

/// Whether `c` is a letter. Of the ASCII characters `a` to `z` and `A` to `Z`
/// are; of the others the Unicode tables decide.
pub open spec fn char_is_alphabetic(c: char) -> bool {
    if (c as u32) < 128 {
        ('a' <= c && c <= 'z') || ('A' <= c && c <= 'Z')
    } else {
        unicode_alphabetic(c)
    }
}

/// Whether `c` is a number. Of the ASCII characters the digits are; of the
/// others the Unicode tables decide.
pub open spec fn char_is_numeric(c: char) -> bool {
    if (c as u32) < 128 {
        '0' <= c && c <= '9'
    } else {
        unicode_numeric(c)
    }
}

/// `s` in lower case. In an ASCII text every letter becomes its lower-case
/// letter; of any other text the Unicode tables decide.
pub open spec fn lowercase(s: Seq<char>) -> Seq<char> {
    if is_ascii_text(s) {
        ascii_lower(s)
    } else {
        unicode_lowercase(s)
    }
}

/// `s` in upper case. In an ASCII text every letter becomes its upper-case
/// letter; of any other text the Unicode tables decide.
pub open spec fn uppercase(s: Seq<char>) -> Seq<char> {
    if is_ascii_text(s) {
        ascii_upper(s)
    } else {
        unicode_uppercase(s)
    }
}

/// `String::push` of std: `c` is appended.
pub assume_specification[ String::push ](s: &mut String, c: char)
    ensures
        final(s)@ == old(s)@.push(c),
;

/// `String::push_str` of std: the characters of `t` are appended.
pub assume_specification[ String::push_str ](s: &mut String, t: &str)
    ensures
        final(s)@ == old(s)@ + t@,
;

/// `char::is_whitespace` of std: the Unicode `White_Space` property. Of the
/// ASCII characters it holds of the tab to the carriage return, and of the space.
#[verifier::external_body]
pub(crate) fn is_whitespace(c: char) -> (r: bool)
    ensures
        r == unicode_whitespace(c),
        (c as u32) < 128 ==> r == (9 <= c as u32 <= 13 || c == ' '),
{
    c.is_whitespace()
}

/// `char::is_alphabetic` of std: the Unicode `Alphabetic` property. Of the ASCII
/// characters it holds of the letters.
#[verifier::external_body]
pub(crate) fn is_alphabetic(c: char) -> (r: bool)
    ensures
        r == unicode_alphabetic(c),
        (c as u32) < 128 ==> r == (('a' <= c && c <= 'z') || ('A' <= c && c <= 'Z')),
{
    c.is_alphabetic()
}

/// `char::is_numeric` of std: one of the Unicode general categories for numbers.
/// Of the ASCII characters it holds of the digits.
#[verifier::external_body]
pub(crate) fn is_numeric(c: char) -> (r: bool)
    ensures
        r == unicode_numeric(c),
        (c as u32) < 128 ==> r == ('0' <= c && c <= '9'),
{
    c.is_numeric()
}

/// `str::to_lowercase` of std. A string of ASCII characters becomes the same
/// string with its letters in lower case.
#[verifier::external_body]
pub(crate) fn to_lowercase(s: &str) -> (r: String)
    ensures
        r@ == unicode_lowercase(s@),
        is_ascii_text(s@) ==> r@ == ascii_lower(s@),
{
    s.to_lowercase()
}

/// `str::to_uppercase` of std. A string of ASCII characters becomes the same
/// string with its letters in upper case.
#[verifier::external_body]
pub(crate) fn to_uppercase(s: &str) -> (r: String)
    ensures
        r@ == unicode_uppercase(s@),
        is_ascii_text(s@) ==> r@ == ascii_upper(s@),
{
    s.to_uppercase()
}

// ---------------------------------------------------------------------------
// ASCII
// ---------------------------------------------------------------------------
/// Whether every character is an ASCII character.
pub open spec fn is_ascii_text(s: Seq<char>) -> bool {
    forall|i: int| 0 <= i < s.len() ==> (#[trigger] s[i] as u32) < 128
}

/// An ASCII upper-case letter becomes its lower-case letter; others stay.
pub open spec fn ascii_lower_char(c: char) -> char {
    if 'A' <= c && c <= 'Z' {
        (c as u32 + 32) as char
    } else {
        c
    }
}

/// An ASCII lower-case letter becomes its upper-case letter; others stay.
pub open spec fn ascii_upper_char(c: char) -> char {
    if 'a' <= c && c <= 'z' {
        (c as u32 - 32) as char
    } else {
        c
    }
}

/// Every ASCII letter in lower case.
pub open spec fn ascii_lower(s: Seq<char>) -> Seq<char> {
    Seq::new(s.len(), |i: int| ascii_lower_char(s[i]))
}

/// Every ASCII letter in upper case.
pub open spec fn ascii_upper(s: Seq<char>) -> Seq<char> {
    Seq::new(s.len(), |i: int| ascii_upper_char(s[i]))
}

/// Equality up to the case of ASCII letters.
pub open spec fn same_ignoring_case(a: Seq<char>, b: Seq<char>) -> bool {
    ascii_lower(a) == ascii_lower(b)
}

/// `c` with an ASCII upper-case letter made lower case.
pub fn lower_ascii_char(c: char) -> (r: char)
    ensures
        r == ascii_lower_char(c),
{
    if 'A' <= c && c <= 'Z' {
        ((c as u8) + 32) as char
    } else {
        c
    }
}

/// `c` with an ASCII lower-case letter made upper case.
pub fn upper_ascii_char(c: char) -> (r: char)
    ensures
        r == ascii_upper_char(c),
{
    if 'a' <= c && c <= 'z' {
        ((c as u8) - 32) as char
    } else {
        c
    }
}

// ---------------------------------------------------------------------------
// Between strings and characters
// ---------------------------------------------------------------------------
/// The texts that a list of strings stands for.
pub open spec fn texts(v: Seq<String>) -> Seq<Seq<char>> {
    Seq::new(v.len(), |i: int| v[i]@)
}

/// The text that an optional string stands for.
pub open spec fn opt_text(v: Option<String>) -> Option<Seq<char>> {
    match v {
        Some(s) => Some(s@),
        None => None,
    }
}

/// The characters of `s`, in order.
pub fn chars_of(s: &str) -> (r: Vec<char>)
    ensures
        r@ == s@,
{
    let mut out: Vec<char> = Vec::new();
    for c in it: s.chars()
        invariant
            it.seq() == s@,
            out@ == s@.take(it.index() as int),
    {
        out.push(c);
        assert(out@ =~= s@.take(it.index() as int + 1));
    }
    assert(s@.take(s@.len() as int) =~= s@);
    out
}

/// The string made of `cs`.
pub fn string_of(cs: &[char]) -> (r: String)
    ensures
        r@ == cs@,
{
    let mut out: String = String::new();
    let mut i: usize = 0;
    while i < cs.len()
        invariant
            i <= cs.len(),
            out@ == cs@.take(i as int),
        decreases cs.len() - i,
    {
        out.push(cs[i]);
        i += 1;
        assert(cs@.take(i as int) =~= cs@.take(i - 1).push(cs@[i - 1]));
    }
    assert(cs@.take(cs@.len() as int) =~= cs@);
    out
}

/// Whether two strings hold the same characters.
pub fn same_text(a: &str, b: &str) -> (r: bool)
    ensures
        r == (a@ == b@),
{
    a.to_owned() == b.to_owned()
}

/// Whether two character slices are equal.
pub fn same_chars(a: &[char], b: &[char]) -> (r: bool)
    ensures
        r == (a@ == b@),
{
    if a.len() != b.len() {
        return false;
    }
    let mut i: usize = 0;
    while i < a.len()
        invariant
            i <= a.len(),
            a@.len() == b@.len(),
            forall|j: int| 0 <= j < i ==> a@[j] == b@[j],
        decreases a.len() - i,
    {
        if a[i] != b[i] {
            return false;
        }
        i += 1;
    }
    assert(a@ =~= b@);
    true
}

/// Whether two strings are equal up to the case of ASCII letters.
pub fn eq_ignore_ascii_case(a: &str, b: &str) -> (r: bool)
    ensures
        r == same_ignoring_case(a@, b@),
{
    let x: Vec<char> = chars_of(a);
    let y: Vec<char> = chars_of(b);
    if x.len() != y.len() {
        assert(ascii_lower(a@).len() != ascii_lower(b@).len());
        return false;
    }
    let mut i: usize = 0;
    while i < x.len()
        invariant
            i <= x.len(),
            x@ == a@,
            y@ == b@,
            x@.len() == y@.len(),
            forall|j: int|
                0 <= j < i ==> ascii_lower_char(#[trigger] x@[j]) == ascii_lower_char(y@[j]),
        decreases x.len() - i,
    {
        if lower_ascii_char(x[i]) != lower_ascii_char(y[i]) {
            assert(ascii_lower(a@)[i as int] != ascii_lower(b@)[i as int]);
            return false;
        }
        i += 1;
    }
    assert(ascii_lower(a@) =~= ascii_lower(b@));
    true
}

/// `s` with its ASCII letters in upper case.
pub fn to_ascii_uppercase(s: &str) -> (r: String)
    ensures
        r@ == ascii_upper(s@),
{
    let cs: Vec<char> = chars_of(s);
    let mut out: String = String::new();
    let mut i: usize = 0;
    while i < cs.len()
        invariant
            i <= cs.len(),
            cs@ == s@,
            out@ == ascii_upper(s@).take(i as int),
        decreases cs.len() - i,
    {
        out.push(upper_ascii_char(cs[i]));
        i += 1;
        assert(ascii_upper(s@).take(i as int) =~= ascii_upper(s@).take(i - 1).push(
            ascii_upper_char(s@[i - 1]),
        ));
    }
    assert(ascii_upper(s@).take(s@.len() as int) =~= ascii_upper(s@));
    out
}

/// `s` with its ASCII letters in lower case.
pub fn to_ascii_lowercase(s: &str) -> (r: String)
    ensures
        r@ == ascii_lower(s@),
{
    let cs: Vec<char> = chars_of(s);
    let mut out: String = String::new();
    let mut i: usize = 0;
    while i < cs.len()
        invariant
            i <= cs.len(),
            cs@ == s@,
            out@ == ascii_lower(s@).take(i as int),
        decreases cs.len() - i,
    {
        out.push(lower_ascii_char(cs[i]));
        i += 1;
        assert(ascii_lower(s@).take(i as int) =~= ascii_lower(s@).take(i - 1).push(
            ascii_lower_char(s@[i - 1]),
        ));
    }
    assert(ascii_lower(s@).take(s@.len() as int) =~= ascii_lower(s@));
    out
}

/// Two strings put one after the other.
pub fn concat(a: &str, b: &str) -> (r: String)
    ensures
        r@ == a@ + b@,
{
    let mut out: String = a.to_owned();
    out.push_str(b);
    out
}

/// Three strings put one after the other.
pub fn concat3(a: &str, b: &str, c: &str) -> (r: String)
    ensures
        r@ == a@ + b@ + c@,
{
    let mut out: String = a.to_owned();
    out.push_str(b);
    out.push_str(c);
    out
}

// ---------------------------------------------------------------------------
// Trimming
// ---------------------------------------------------------------------------
/// White space, as a predicate on characters.
pub open spec fn whitespace() -> spec_fn(char) -> bool {
    |c: char| char_is_whitespace(c)
}

/// Being the character `d`, as a predicate on characters.
pub open spec fn is_char(d: char) -> spec_fn(char) -> bool {
    |c: char| c == d
}

/// Being one of two characters, as a predicate on characters.
pub open spec fn is_either(a: char, b: char) -> spec_fn(char) -> bool {
    |c: char| c == a || c == b
}

/// `s` without the leading characters of which `p` holds.
pub open spec fn strip_start(s: Seq<char>, p: spec_fn(char) -> bool) -> Seq<char>
    decreases s.len(),
{
    if s.len() > 0 && p(s[0]) {
        strip_start(s.drop_first(), p)
    } else {
        s
    }
}

/// `s` without the trailing characters of which `p` holds.
pub open spec fn strip_end(s: Seq<char>, p: spec_fn(char) -> bool) -> Seq<char>
    decreases s.len(),
{
    if s.len() > 0 && p(s.last()) {
        strip_end(s.drop_last(), p)
    } else {
        s
    }
}

/// `s` without leading and trailing white space.
pub open spec fn trimmed(s: Seq<char>) -> Seq<char> {
    strip_end(strip_start(s, whitespace()), whitespace())
}

/// `s` without leading and trailing `d`.
pub open spec fn trimmed_of(s: Seq<char>, d: char) -> Seq<char> {
    strip_end(strip_start(s, is_char(d)), is_char(d))
}

/// Whether `s` is empty or holds white space only.
pub open spec fn is_blank(s: Seq<char>) -> bool {
    forall|i: int| 0 <= i < s.len() ==> char_is_whitespace(#[trigger] s[i])
}

proof fn lemma_strip_start_blank(s: Seq<char>)
    ensures
        strip_start(s, whitespace()).len() == 0 <==> is_blank(s),
    decreases s.len(),
{
    if s.len() > 0 && whitespace()(s[0]) {
        lemma_strip_start_blank(s.drop_first());
        if is_blank(s) {
            assert forall|i: int| 0 <= i < s.drop_first().len() implies char_is_whitespace(
                #[trigger] s.drop_first()[i],
            ) by {
                assert(s.drop_first()[i] == s[i + 1]);
            }
        } else {
            let k = choose|i: int| 0 <= i < s.len() && !char_is_whitespace(#[trigger] s[i]);
            assert(s.drop_first()[k - 1] == s[k]);
        }
    }
}

proof fn lemma_strip_start_head(s: Seq<char>, p: spec_fn(char) -> bool)
    ensures
        strip_start(s, p).len() > 0 ==> !p(strip_start(s, p)[0]),
    decreases s.len(),
{
    if s.len() > 0 && p(s[0]) {
        lemma_strip_start_head(s.drop_first(), p);
    }
}

proof fn lemma_strip_end_keeps_head(s: Seq<char>, p: spec_fn(char) -> bool)
    requires
        s.len() > 0,
        !p(s[0]),
    ensures
        strip_end(s, p).len() > 0,
        strip_end(s, p)[0] == s[0],
    decreases s.len(),
{
    if p(s.last()) {
        lemma_strip_end_keeps_head(s.drop_last(), p);
    }
}

/// A text is blank exactly when trimming leaves nothing of it.
pub proof fn law_blank_is_trimmed_away(s: Seq<char>)
    ensures
        is_blank(s) <==> trimmed(s).len() == 0,
{
    lemma_strip_start_blank(s);
    lemma_strip_start_head(s, whitespace());
    let t = strip_start(s, whitespace());
    if t.len() > 0 {
        lemma_strip_end_keeps_head(t, whitespace());
    }
}

/// Stripping the front does not reach beyond a part of which something stays.
pub proof fn lemma_strip_start_append(a: Seq<char>, t: Seq<char>, p: spec_fn(char) -> bool)
    requires
        strip_start(a, p).len() > 0,
    ensures
        strip_start(a + t, p) == strip_start(a, p) + t,
    decreases a.len(),
{
    if a.len() > 0 && p(a[0]) {
        lemma_strip_start_append(a.drop_first(), t, p);
        assert((a + t).drop_first() =~= a.drop_first() + t);
    }
}

/// Stripping the end does not reach beyond a part of which something stays.
pub proof fn lemma_strip_end_append(t: Seq<char>, b: Seq<char>, p: spec_fn(char) -> bool)
    requires
        strip_end(b, p).len() > 0,
    ensures
        strip_end(t + b, p) == t + strip_end(b, p),
    decreases b.len(),
{
    if b.len() > 0 && p(b.last()) {
        lemma_strip_end_append(t, b.drop_last(), p);
        assert((t + b).drop_last() =~= t + b.drop_last());
    }
}

/// Where every character goes, nothing stays; where one does not, something stays.
pub proof fn lemma_strips_to_nothing(s: Seq<char>, p: spec_fn(char) -> bool)
    ensures
        strip_start(s, p).len() == 0 <==> (forall|i: int| 0 <= i < s.len() ==> p(#[trigger] s[i])),
        strip_end(s, p).len() == 0 <==> (forall|i: int| 0 <= i < s.len() ==> p(#[trigger] s[i])),
    decreases s.len(),
{
    if s.len() > 0 {
        let f = s.drop_first();
        let l = s.drop_last();
        lemma_strips_to_nothing(f, p);
        lemma_strips_to_nothing(l, p);
        if forall|i: int| 0 <= i < f.len() ==> p(#[trigger] f[i]) {
            assert forall|i: int| 0 < i < s.len() implies p(#[trigger] s[i]) by {
                assert(f[i - 1] == s[i]);
            }
        }
        if forall|i: int| 0 <= i < s.len() ==> p(#[trigger] s[i]) {
            assert forall|i: int| 0 <= i < f.len() implies p(#[trigger] f[i]) by {
                assert(f[i] == s[i + 1]);
            }
        }
        if forall|i: int| 0 <= i < l.len() ==> p(#[trigger] l[i]) {
            assert forall|i: int| 0 <= i < s.len() - 1 implies p(#[trigger] s[i]) by {
                assert(l[i] == s[i]);
            }
        }
    }
}

/// Stripping at one end and stripping at the other may be swapped.
pub proof fn lemma_strips_commute(s: Seq<char>, p: spec_fn(char) -> bool)
    ensures
        strip_end(strip_start(s, p), p) == strip_start(strip_end(s, p), p),
    decreases s.len(),
{
    if s.len() > 0 && p(s[0]) {
        let f = s.drop_first();
        lemma_strips_commute(f, p);
        lemma_strips_to_nothing(f, p);
        assert(s =~= seq![s[0]] + f);
        if strip_end(f, p).len() > 0 {
            lemma_strip_end_append(seq![s[0]], f, p);
            assert((seq![s[0]] + strip_end(f, p)).drop_first() =~= strip_end(f, p));
        } else {
            assert forall|i: int| 0 <= i < s.len() implies p(#[trigger] s[i]) by {
                if i > 0 {
                    assert(s[i] == f[i - 1]);
                }
            }
            lemma_strips_to_nothing(s, p);
            assert(strip_end(s, p) =~= Seq::empty());
            assert(strip_start(f, p) =~= Seq::empty());
        }
    } else if s.len() > 0 {
        lemma_strip_end_keeps_head(s, p);
    }
}

/// Stripping what is stripped at both ends changes nothing.
pub proof fn lemma_strips_are_stable(s: Seq<char>, p: spec_fn(char) -> bool)
    ensures
        ({
            let t = strip_end(strip_start(s, p), p);
            strip_end(strip_start(t, p), p) == t
        }),
{
    let f = strip_start(s, p);
    lemma_strip_start_head(s, p);
    lemma_strip_end_tail(f, p);
    if f.len() > 0 {
        lemma_strip_end_keeps_head(f, p);
    }
}

proof fn lemma_strip_end_tail(s: Seq<char>, p: spec_fn(char) -> bool)
    ensures
        strip_end(s, p).len() > 0 ==> !p(strip_end(s, p).last()),
    decreases s.len(),
{
    if s.len() > 0 && p(s.last()) {
        lemma_strip_end_tail(s.drop_last(), p);
    }
}

/// White space around a text does not matter to what trimming leaves of it.
pub proof fn law_outer_space_is_trimmed(x: Seq<char>, s: Seq<char>, y: Seq<char>)
    requires
        is_blank(x),
        is_blank(y),
    ensures
        trimmed(x + s + y) == trimmed(s),
{
    let p = whitespace();
    lemma_strip_start_through(x, s + y);
    assert(x + s + y =~= x + (s + y));
    if is_blank(s) {
        assert(is_blank(s + y));
        law_blank_is_trimmed_away(s);
        law_blank_is_trimmed_away(s + y);
        assert(trimmed(s) =~= trimmed(s + y));
    } else {
        lemma_strip_start_blank(s);
        lemma_strip_start_append(s, y, p);
        lemma_strip_end_through(strip_start(s, p), y);
    }
}

proof fn lemma_strip_start_through(x: Seq<char>, t: Seq<char>)
    requires
        is_blank(x),
    ensures
        strip_start(x + t, whitespace()) == strip_start(t, whitespace()),
    decreases x.len(),
{
    if x.len() > 0 {
        let f = x.drop_first();
        assert forall|i: int| 0 <= i < f.len() implies char_is_whitespace(#[trigger] f[i]) by {
            assert(f[i] == x[i + 1]);
        }
        lemma_strip_start_through(f, t);
        assert((x + t).drop_first() =~= f + t);
        assert(char_is_whitespace(x[0]));
    } else {
        assert(x + t =~= t);
    }
}

proof fn lemma_strip_end_through(t: Seq<char>, y: Seq<char>)
    requires
        is_blank(y),
    ensures
        strip_end(t + y, whitespace()) == strip_end(t, whitespace()),
    decreases y.len(),
{
    if y.len() > 0 {
        let l = y.drop_last();
        assert(is_blank(l));
        lemma_strip_end_through(t, l);
        assert((t + y).drop_last() =~= t + l);
        assert(char_is_whitespace(y[y.len() - 1]));
    } else {
        assert(t + y =~= t);
    }
}

/// The first index at or after which no leading white space is left.
fn skip_whitespace(cs: &[char]) -> (r: usize)
    ensures
        r <= cs.len(),
        strip_start(cs@, whitespace()) == cs@.subrange(r as int, cs@.len() as int),
{
    let mut i: usize = 0;
    assert(cs@.subrange(0, cs@.len() as int) =~= cs@);
    while i < cs.len() && is_whitespace(cs[i])
        invariant
            i <= cs.len(),
            strip_start(cs@, whitespace()) == strip_start(
                cs@.subrange(i as int, cs@.len() as int),
                whitespace(),
            ),
        decreases cs.len() - i,
    {
        assert(cs@.subrange(i as int, cs@.len() as int).drop_first() =~= cs@.subrange(
            i + 1,
            cs@.len() as int,
        ));
        i += 1;
    }
    i
}

/// `cs` without leading white space.
pub fn trim_start_chars(cs: &[char]) -> (r: &[char])
    ensures
        r@ == strip_start(cs@, whitespace()),
{
    let i: usize = skip_whitespace(cs);
    slice_subrange(cs, i, cs.len())
}

/// `cs` without trailing white space.
pub fn trim_end_chars(cs: &[char]) -> (r: &[char])
    ensures
        r@ == strip_end(cs@, whitespace()),
{
    let mut n: usize = cs.len();
    assert(cs@.subrange(0, cs@.len() as int) =~= cs@);
    while n > 0 && is_whitespace(cs[n - 1])
        invariant
            n <= cs.len(),
            strip_end(cs@, whitespace()) == strip_end(cs@.subrange(0, n as int), whitespace()),
        decreases n,
    {
        assert(cs@.subrange(0, n as int).drop_last() =~= cs@.subrange(0, n - 1));
        n -= 1;
    }
    slice_subrange(cs, 0, n)
}

/// `cs` without leading and trailing white space.
pub fn trim_chars(cs: &[char]) -> (r: &[char])
    ensures
        r@ == trimmed(cs@),
{
    trim_end_chars(trim_start_chars(cs))
}

/// `s` without leading and trailing white space.
pub fn trim(s: &str) -> (r: String)
    ensures
        r@ == trimmed(s@),
{
    let cs: Vec<char> = chars_of(s);
    string_of(trim_chars(cs.as_slice()))
}

/// `s` without leading and trailing `d`.
pub fn trim_matches(s: &str, d: char) -> (r: String)
    ensures
        r@ == trimmed_of(s@, d),
{
    let all: Vec<char> = chars_of(s);
    let cs: &[char] = all.as_slice();
    let mut i: usize = 0;
    assert(cs@.subrange(0, cs@.len() as int) =~= cs@);
    while i < cs.len() && cs[i] == d
        invariant
            i <= cs.len(),
            strip_start(cs@, is_char(d)) == strip_start(
                cs@.subrange(i as int, cs@.len() as int),
                is_char(d),
            ),
        decreases cs.len() - i,
    {
        assert(cs@.subrange(i as int, cs@.len() as int).drop_first() =~= cs@.subrange(
            i + 1,
            cs@.len() as int,
        ));
        i += 1;
    }
    let ghost head = strip_start(cs@, is_char(d));
    assert(head == cs@.subrange(i as int, cs@.len() as int));
    let mut n: usize = cs.len();
    while n > i && cs[n - 1] == d
        invariant
            i <= n <= cs.len(),
            strip_end(head, is_char(d)) == strip_end(
                cs@.subrange(i as int, n as int),
                is_char(d),
            ),
        decreases n,
    {
        assert(cs@.subrange(i as int, n as int).drop_last() =~= cs@.subrange(i as int, n - 1));
        n -= 1;
    }
    string_of(slice_subrange(cs, i, n))
}

/// `cs` without leading `d`.
pub fn trim_start_of(cs: &[char], d: char) -> (r: &[char])
    ensures
        r@ == strip_start(cs@, is_char(d)),
{
    let mut i: usize = 0;
    assert(cs@.subrange(0, cs@.len() as int) =~= cs@);
    while i < cs.len() && cs[i] == d
        invariant
            i <= cs.len(),
            strip_start(cs@, is_char(d)) == strip_start(
                cs@.subrange(i as int, cs@.len() as int),
                is_char(d),
            ),
        decreases cs.len() - i,
    {
        assert(cs@.subrange(i as int, cs@.len() as int).drop_first() =~= cs@.subrange(
            i + 1,
            cs@.len() as int,
        ));
        i += 1;
    }
    slice_subrange(cs, i, cs.len())
}

/// `cs` without trailing `d`.
pub fn trim_end_of(cs: &[char], d: char) -> (r: &[char])
    ensures
        r@ == strip_end(cs@, is_char(d)),
{
    let mut n: usize = cs.len();
    assert(cs@.subrange(0, cs@.len() as int) =~= cs@);
    while n > 0 && cs[n - 1] == d
        invariant
            n <= cs.len(),
            strip_end(cs@, is_char(d)) == strip_end(cs@.subrange(0, n as int), is_char(d)),
        decreases n,
    {
        assert(cs@.subrange(0, n as int).drop_last() =~= cs@.subrange(0, n - 1));
        n -= 1;
    }
    slice_subrange(cs, 0, n)
}

/// Whether `s` is empty or white space only.
pub fn blank(s: &str) -> (r: bool)
    ensures
        r == is_blank(s@),
{
    let cs: Vec<char> = chars_of(s);
    let mut i: usize = 0;
    while i < cs.len()
        invariant
            i <= cs.len(),
            cs@ == s@,
            forall|j: int| 0 <= j < i ==> char_is_whitespace(#[trigger] s@[j]),
        decreases cs.len() - i,
    {
        if !is_whitespace(cs[i]) {
            return false;
        }
        i += 1;
    }
    true
}

// ---------------------------------------------------------------------------
// Searching
// ---------------------------------------------------------------------------
/// Whether `s` begins with `t`.
pub open spec fn begins_with(s: Seq<char>, t: Seq<char>) -> bool {
    t.len() <= s.len() && s.take(t.len() as int) == t
}

/// Whether `s` ends with `t`.
pub open spec fn ends_in(s: Seq<char>, t: Seq<char>) -> bool {
    t.len() <= s.len() && s.skip(s.len() - t.len()) == t
}

/// The index of the first character of which `p` holds, or the length.
pub open spec fn first_index(s: Seq<char>, p: spec_fn(char) -> bool) -> int
    decreases s.len(),
{
    if s.len() == 0 || p(s[0]) {
        0
    } else {
        1 + first_index(s.drop_first(), p)
    }
}

/// The index of the last `d`, or `-1`.
pub open spec fn last_index(s: Seq<char>, d: char) -> int
    decreases s.len(),
{
    if s.len() == 0 {
        -1
    } else if s.last() == d {
        s.len() - 1
    } else {
        last_index(s.drop_last(), d)
    }
}

/// Where the first match stands: nothing before it matches.
pub proof fn lemma_first_index(s: Seq<char>, p: spec_fn(char) -> bool)
    ensures
        0 <= first_index(s, p) <= s.len(),
        first_index(s, p) < s.len() ==> p(s[first_index(s, p)]),
        forall|i: int| 0 <= i < first_index(s, p) ==> !p(#[trigger] s[i]),
    decreases s.len(),
{
    if s.len() > 0 && !p(s[0]) {
        let t = s.drop_first();
        lemma_first_index(t, p);
        assert forall|i: int| 0 <= i < first_index(s, p) implies !p(#[trigger] s[i]) by {
            if i > 0 {
                assert(s[i] == t[i - 1]);
            }
        }
        if first_index(s, p) < s.len() {
            assert(s[first_index(s, p)] == t[first_index(t, p)]);
        }
    }
}

/// The index that `lemma_first_index` describes is the only one.
pub proof fn lemma_first_index_unique(s: Seq<char>, p: spec_fn(char) -> bool, k: int)
    requires
        0 <= k <= s.len(),
        k < s.len() ==> p(s[k]),
        forall|i: int| 0 <= i < k ==> !p(#[trigger] s[i]),
    ensures
        first_index(s, p) == k,
{
    lemma_first_index(s, p);
    let f = first_index(s, p);
    if f < k {
        assert(!p(s[f]));
    }
    if k < f {
        assert(!p(s[k]));
    }
}

/// The index of the last `d`: nothing after it is a `d`.
pub proof fn lemma_last_index(s: Seq<char>, d: char)
    ensures
        -1 <= last_index(s, d) < s.len(),
        last_index(s, d) >= 0 ==> s[last_index(s, d)] == d,
        forall|i: int| last_index(s, d) < i < s.len() ==> #[trigger] s[i] != d,
    decreases s.len(),
{
    if s.len() > 0 && s.last() != d {
        let t = s.drop_last();
        lemma_last_index(t, d);
        assert forall|i: int| last_index(s, d) < i < s.len() implies #[trigger] s[i] != d by {
            if i < t.len() {
                assert(s[i] == t[i]);
            }
        }
        if last_index(s, d) >= 0 {
            assert(s[last_index(s, d)] == t[last_index(t, d)]);
        }
    }
}

/// The index of the first character that is `a` or `b`, or the length.
pub fn find_either(cs: &[char], a: char, b: char) -> (r: usize)
    ensures
        r == first_index(cs@, is_either(a, b)),
        r <= cs.len(),
{
    let mut i: usize = 0;
    while i < cs.len()
        invariant
            i <= cs.len(),
            forall|j: int| 0 <= j < i ==> #[trigger] cs@[j] != a && cs@[j] != b,
        decreases cs.len() - i,
    {
        if cs[i] == a || cs[i] == b {
            proof {
                lemma_first_index_unique(cs@, is_either(a, b), i as int);
            }
            return i;
        }
        i += 1;
    }
    proof {
        lemma_first_index_unique(cs@, is_either(a, b), i as int);
    }
    i
}

/// The index of the first `d`, or the length.
pub fn find_char(cs: &[char], d: char) -> (r: usize)
    ensures
        r == first_index(cs@, is_char(d)),
        r <= cs.len(),
{
    assert(is_either(d, d) =~= is_char(d));
    find_either(cs, d, d)
}

/// The index of the last `d`, if there is one.
pub fn rfind_char(cs: &[char], d: char) -> (r: Option<usize>)
    ensures
        r is Some <==> last_index(cs@, d) >= 0,
        r matches Some(i) ==> i == last_index(cs@, d) && i < cs.len(),
{
    let mut n: usize = cs.len();
    assert(cs@.take(cs@.len() as int) =~= cs@);
    while n > 0
        invariant
            n <= cs.len(),
            last_index(cs@, d) == last_index(cs@.take(n as int), d),
        decreases n,
    {
        assert(cs@.take(n as int).drop_last() =~= cs@.take(n - 1));
        assert(cs@.take(n as int).last() == cs@[n - 1]);
        if cs[n - 1] == d {
            return Some(n - 1);
        }
        n -= 1;
    }
    None
}

/// Whether `cs` begins with `t`.
pub fn starts_with_chars(cs: &[char], t: &[char]) -> (r: bool)
    ensures
        r == begins_with(cs@, t@),
{
    if t.len() > cs.len() {
        return false;
    }
    same_chars(slice_subrange(cs, 0, t.len()), t)
}

/// Whether `cs` ends with `t`.
pub fn ends_with_chars(cs: &[char], t: &[char]) -> (r: bool)
    ensures
        r == ends_in(cs@, t@),
{
    if t.len() > cs.len() {
        return false;
    }
    let tail: &[char] = slice_subrange(cs, cs.len() - t.len(), cs.len());
    assert(tail@ =~= cs@.skip(cs@.len() - t@.len()));
    same_chars(tail, t)
}

// ---------------------------------------------------------------------------
// Splitting and joining
// ---------------------------------------------------------------------------
/// The parts of `s` between the characters of which `p` holds. There is always
/// one part more than there are such characters.
pub open spec fn split(s: Seq<char>, p: spec_fn(char) -> bool) -> Seq<Seq<char>>
    decreases s.len(),
    via split_decreases
{
    let i = first_index(s, p);
    if i < s.len() {
        seq![s.take(i)] + split(s.skip(i + 1), p)
    } else {
        seq![s]
    }
}

#[via_fn]
proof fn split_decreases(s: Seq<char>, p: spec_fn(char) -> bool) {
    lemma_first_index(s, p);
}

/// A separator at the end adds an empty part.
pub proof fn lemma_split_trailing(s: Seq<char>, d: char, p: spec_fn(char) -> bool)
    requires
        p(d),
    ensures
        split(s.push(d), p) == split(s, p).push(Seq::empty()),
    decreases s.len(),
{
    let t = s.push(d);
    let i = first_index(s, p);
    lemma_first_index(s, p);
    assert forall|j: int| 0 <= j < i implies !p(#[trigger] t[j]) by {
        assert(t[j] == s[j]);
    }
    if i < s.len() {
        assert(t[i] == s[i]);
        lemma_first_index_unique(t, p, i);
        lemma_split_trailing(s.skip(i + 1), d, p);
        assert(t.take(i) =~= s.take(i));
        assert(t.skip(i + 1) =~= s.skip(i + 1).push(d));
    } else {
        lemma_first_index_unique(t, p, i);
        assert(t.take(i) =~= s);
        assert(t.skip(i + 1) =~= Seq::empty());
        assert(split(Seq::empty(), p) =~= seq![Seq::empty()]);
    }
    assert(split(t, p) =~= split(s, p).push(Seq::empty()));
}

/// An end of the text without a separator is an end of its last part.
pub proof fn lemma_end_of_last_part(s: Seq<char>, t: Seq<char>, p: spec_fn(char) -> bool)
    requires
        ends_in(s, t),
        forall|i: int| 0 <= i < t.len() ==> !p(#[trigger] t[i]),
    ensures
        split(s, p).len() > 0,
        ends_in(split(s, p).last(), t),
    decreases s.len(),
{
    let i = first_index(s, p);
    lemma_first_index(s, p);
    if i < s.len() {
        let at = s.len() - t.len();
        if i >= at {
            assert(t[i - at] == s[i]);
        }
        assert(s.skip(i + 1).skip(at - i - 1) =~= s.skip(at));
        lemma_end_of_last_part(s.skip(i + 1), t, p);
    }
}

/// The parts put together again, with `d` between them.
pub open spec fn join(parts: Seq<Seq<char>>, d: Seq<char>) -> Seq<char>
    decreases parts.len(),
{
    if parts.len() == 0 {
        Seq::empty()
    } else if parts.len() == 1 {
        parts[0]
    } else {
        join(parts.drop_last(), d) + d + parts.last()
    }
}

/// Whether `d` is none of the characters.
pub open spec fn is_free_of(s: Seq<char>, d: char) -> bool {
    forall|i: int| 0 <= i < s.len() ==> #[trigger] s[i] != d
}

proof fn lemma_join_front(parts: Seq<Seq<char>>, d: Seq<char>)
    requires
        parts.len() > 1,
    ensures
        join(parts, d) == parts[0] + d + join(parts.drop_first(), d),
    decreases parts.len(),
{
    let tail = parts.drop_first();
    if parts.len() == 2 {
        assert(parts.drop_last() =~= seq![parts[0]]);
        assert(join(parts.drop_last(), d) == parts[0]);
        assert(tail.len() == 1);
        assert(join(tail, d) == parts[1]);
    } else {
        let head = parts.drop_last();
        lemma_join_front(head, d);
        assert(head.drop_first() =~= tail.drop_last());
        assert(tail.last() == parts.last());
        assert(join(parts, d) == join(head, d) + d + parts.last());
        assert(join(tail, d) == join(tail.drop_last(), d) + d + tail.last());
        assert(join(parts, d) =~= parts[0] + d + join(tail, d));
    }
}

/// Splitting undoes joining: parts that do not hold the separator come back as
/// they were.
pub proof fn law_split_undoes_join(parts: Seq<Seq<char>>, d: char)
    requires
        parts.len() > 0,
        forall|i: int| 0 <= i < parts.len() ==> is_free_of(#[trigger] parts[i], d),
    ensures
        split(join(parts, seq![d]), is_char(d)) == parts,
    decreases parts.len(),
{
    let p = is_char(d);
    let text = join(parts, seq![d]);
    assert(is_free_of(parts[0], d));
    if parts.len() == 1 {
        lemma_first_index_unique(text, p, text.len() as int);
        assert(split(text, p) =~= parts);
    } else {
        lemma_join_front(parts, seq![d]);
        let k = parts[0].len() as int;
        assert(text[k] == d);
        assert forall|j: int| 0 <= j < k implies !p(#[trigger] text[j]) by {
            assert(text[j] == parts[0][j]);
        }
        lemma_first_index_unique(text, p, k);
        assert(text.take(k) =~= parts[0]);
        assert(text.skip(k + 1) =~= join(parts.drop_first(), seq![d]));
        assert forall|i: int| 0 <= i < parts.drop_first().len() implies is_free_of(
            #[trigger] parts.drop_first()[i],
            d,
        ) by {
            assert(is_free_of(parts[i + 1], d));
        }
        law_split_undoes_join(parts.drop_first(), d);
        assert(split(text, p) =~= parts);
    }
}

/// `s` cut at its first `d`: what stands before it, and what stands behind it.
pub open spec fn split_once(s: Seq<char>, d: char) -> Option<(Seq<char>, Seq<char>)> {
    let i = first_index(s, is_char(d));
    if i < s.len() {
        Some((s.take(i), s.skip(i + 1)))
    } else {
        None
    }
}

/// `cs` cut at its first `d`.
pub fn split_once_chars(cs: &[char], d: char) -> (r: Option<(&[char], &[char])>)
    ensures
        match r {
            Some(p) => split_once(cs@, d) == Some((p.0@, p.1@)),
            None => split_once(cs@, d) is None,
        },
{
    let i: usize = find_char(cs, d);
    if i < cs.len() {
        let head: &[char] = slice_subrange(cs, 0, i);
        let tail: &[char] = slice_subrange(cs, i + 1, cs.len());
        assert(head@ =~= cs@.take(i as int));
        assert(tail@ =~= cs@.skip(i + 1));
        Some((head, tail))
    } else {
        None
    }
}

/// A line without the carriage return that may end it.
pub open spec fn without_return(s: Seq<char>) -> Seq<char> {
    if s.len() > 0 && s.last() == '\r' {
        s.drop_last()
    } else {
        s
    }
}

/// The lines of `s`. A line ends with a line feed, or with a carriage return
/// and a line feed; the last one need not.
pub open spec fn lines_of(s: Seq<char>) -> Seq<Seq<char>>
    decreases s.len(),
    via lines_of_decreases
{
    let i = first_index(s, is_char('\n'));
    if i < s.len() {
        seq![without_return(s.take(i))] + lines_of(s.skip(i + 1))
    } else if s.len() > 0 {
        seq![s]
    } else {
        Seq::empty()
    }
}

#[via_fn]
proof fn lines_of_decreases(s: Seq<char>) {
    lemma_first_index(s, is_char('\n'));
}

/// The lines of `s`.
pub fn text_lines(s: &str) -> (r: Vec<String>)
    ensures
        texts(r@) == lines_of(s@),
{
    let all: Vec<char> = chars_of(s);
    let cs: &[char] = all.as_slice();
    let mut out: Vec<String> = Vec::new();
    let mut start: usize = 0;
    let ghost whole = lines_of(cs@);
    assert(cs@.skip(0) =~= cs@);
    assert(texts(out@) + lines_of(cs@.skip(0)) =~= whole);
    loop
        invariant_except_break
            start <= cs.len(),
            whole == texts(out@) + lines_of(cs@.skip(start as int)),
        ensures
            texts(out@) == whole,
        decreases cs.len() - start,
    {
        let rest: &[char] = slice_subrange(cs, start, cs.len());
        assert(rest@ =~= cs@.skip(start as int));
        let i: usize = find_char(rest, '\n');
        let ghost before = texts(out@);
        if i < rest.len() {
            let n: usize = if i > 0 && rest[i - 1] == '\r' {
                i - 1
            } else {
                i
            };
            let part: &[char] = slice_subrange(rest, 0, n);
            assert(part@ =~= without_return(rest@.take(i as int)));
            out.push(string_of(part));
            assert(rest@.skip(i + 1) =~= cs@.skip(start + i + 1));
            assert(texts(out@) =~= before.push(part@));
            assert(before + (seq![part@] + lines_of(rest@.skip(i + 1))) =~= before.push(part@)
                + lines_of(rest@.skip(i + 1)));
            start = start + i + 1;
        } else {
            if rest.len() > 0 {
                out.push(string_of(rest));
                assert(texts(out@) =~= before.push(rest@));
                assert(before + seq![rest@] =~= before.push(rest@));
            } else {
                assert(before + Seq::<Seq<char>>::empty() =~= before);
            }
            break;
        }
    }
    out
}

/// The parts of `cs` between the occurrences of `a` and `b`.
pub fn split_either(cs: &[char], a: char, b: char) -> (r: Vec<String>)
    ensures
        texts(r@) == split(cs@, is_either(a, b)),
{
    let mut out: Vec<String> = Vec::new();
    let mut start: usize = 0;
    let ghost whole = split(cs@, is_either(a, b));
    assert(cs@.skip(0) =~= cs@);
    assert(texts(out@) + split(cs@.skip(0), is_either(a, b)) =~= whole);
    loop
        invariant_except_break
            start <= cs.len(),
            whole == texts(out@) + split(cs@.skip(start as int), is_either(a, b)),
        ensures
            texts(out@) == whole,
        decreases cs.len() - start,
    {
        let rest: &[char] = slice_subrange(cs, start, cs.len());
        assert(rest@ =~= cs@.skip(start as int));
        let i: usize = find_either(rest, a, b);
        let ghost before = texts(out@);
        if i < rest.len() {
            let part: &[char] = slice_subrange(rest, 0, i);
            assert(part@ =~= rest@.take(i as int));
            out.push(string_of(part));
            assert(rest@.skip(i + 1) =~= cs@.skip(start + i + 1));
            assert(texts(out@) =~= before.push(part@));
            assert(before + (seq![part@] + split(rest@.skip(i + 1), is_either(a, b)))
                =~= before.push(part@) + split(rest@.skip(i + 1), is_either(a, b)));
            start = start + i + 1;
        } else {
            out.push(string_of(rest));
            assert(texts(out@) =~= before.push(rest@));
            assert(before + seq![rest@] =~= before.push(rest@));
            break;
        }
    }
    out
}

/// The parts of `cs` between the occurrences of `d`.
pub fn split_chars(cs: &[char], d: char) -> (r: Vec<String>)
    ensures
        texts(r@) == split(cs@, is_char(d)),
{
    assert(is_either(d, d) =~= is_char(d));
    split_either(cs, d, d)
}

/// The parts put together, with `d` between them.
pub fn join_texts(parts: &[String], d: &str) -> (r: String)
    ensures
        r@ == join(texts(parts@), d@),
{
    let mut out: String = String::new();
    let mut i: usize = 0;
    assert(texts(parts@).take(0) =~= Seq::<Seq<char>>::empty());
    while i < parts.len()
        invariant
            i <= parts.len(),
            out@ == join(texts(parts@).take(i as int), d@),
        decreases parts.len() - i,
    {
        if i > 0 {
            out.push_str(d);
        }
        out.push_str(parts[i].as_str());
        i += 1;
        let ghost done = texts(parts@).take(i as int);
        assert(done.drop_last() =~= texts(parts@).take(i - 1));
        assert(done.last() == parts@[i - 1]@);
        if i == 1 {
            assert(Seq::<char>::empty() + parts@[0]@ =~= parts@[0]@);
        }
    }
    assert(texts(parts@).take(parts@.len() as int) =~= texts(parts@));
    out
}

/// Whether one of the strings holds exactly the characters of `needle`.
pub fn contains_text(v: &[String], needle: &str) -> (r: bool)
    ensures
        r == texts(v@).contains(needle@),
{
    let mut i: usize = 0;
    while i < v.len()
        invariant
            i <= v.len(),
            forall|j: int| 0 <= j < i ==> #[trigger] v@[j]@ != needle@,
        decreases v.len() - i,
    {
        if same_text(v[i].as_str(), needle) {
            assert(texts(v@)[i as int] == needle@);
            return true;
        }
        i += 1;
    }
    assert forall|j: int| 0 <= j < texts(v@).len() implies texts(v@)[j] != needle@ by {
        assert(v@[j]@ != needle@);
    }
    false
}

} // verus!
