//! Text normalization shared by the item store and its queries.
//!
//! A normalized "clean" value stands beside every display name, so that name,
//! genre, tag and artist lookups ignore diacritics and punctuation. Queries
//! normalize their filter values in the same way.
use vstd::prelude::*;

use crate::text::{
    ascii_lower, ascii_lower_char, blank, char_is_alphabetic, char_is_numeric, char_is_whitespace,
    chars_of, is_alphabetic, is_ascii_text, is_blank, is_numeric, law_blank_is_trimmed_away,
    lemma_strip_end_append, lemma_strip_start_append, lemma_strips_are_stable,
    lemma_strips_commute, lemma_strips_to_nothing, lowercase, same_ignoring_case, string_of,
    strip_end, strip_start, to_lowercase, trim_chars, trimmed, whitespace,
};

verus! {

/// The base letters of an accented letter or a ligature of Latin-1 or Latin
/// Extended-A; any other character stands for itself.
pub open spec fn folded(ch: char) -> Seq<char> {
    match ch {
        'à' | 'á' | 'â' | 'ã' | 'ä' | 'å' | 'À' | 'Á' | 'Â' | 'Ã' | 'Ä' | 'Å' | 'ā' | 'ă'
        | 'ą' | 'Ā' | 'Ă' | 'Ą' => seq!['a'],
        'æ' | 'Æ' => seq!['a', 'e'],
        'ç' | 'Ç' | 'ć' | 'ĉ' | 'ċ' | 'č' | 'Ć' | 'Ĉ' | 'Ċ' | 'Č' => seq!['c'],
        'ď' | 'đ' | 'Ď' | 'Đ' => seq!['d'],
        'è' | 'é' | 'ê' | 'ë' | 'È' | 'É' | 'Ê' | 'Ë' | 'ē' | 'ĕ' | 'ė' | 'ę' | 'ě' | 'Ē'
        | 'Ĕ' | 'Ė' | 'Ę' | 'Ě' => seq!['e'],
        'ĝ' | 'ğ' | 'ġ' | 'ģ' | 'Ĝ' | 'Ğ' | 'Ġ' | 'Ģ' => seq!['g'],
        'ĥ' | 'ħ' | 'Ĥ' | 'Ħ' => seq!['h'],
        'ì' | 'í' | 'î' | 'ï' | 'Ì' | 'Í' | 'Î' | 'Ï' | 'ĩ' | 'ī' | 'ĭ' | 'į' | 'ı' | 'Ĩ'
        | 'Ī' | 'Ĭ' | 'Į' | 'İ' => seq!['i'],
        'ĳ' | 'Ĳ' => seq!['i', 'j'],
        'ĵ' | 'Ĵ' => seq!['j'],
        'ķ' | 'Ķ' => seq!['k'],
        'ĺ' | 'ļ' | 'ľ' | 'ŀ' | 'ł' | 'Ĺ' | 'Ļ' | 'Ľ' | 'Ŀ' | 'Ł' => seq!['l'],
        'ñ' | 'Ñ' | 'ń' | 'ņ' | 'ň' | 'ŉ' | 'Ń' | 'Ņ' | 'Ň' => seq!['n'],
        'ò' | 'ó' | 'ô' | 'õ' | 'ö' | 'ø' | 'Ò' | 'Ó' | 'Ô' | 'Õ' | 'Ö' | 'Ø' | 'ō' | 'ŏ'
        | 'ő' | 'Ō' | 'Ŏ' | 'Ő' => seq!['o'],
        'œ' | 'Œ' => seq!['o', 'e'],
        'ŕ' | 'ŗ' | 'ř' | 'Ŕ' | 'Ŗ' | 'Ř' => seq!['r'],
        'ś' | 'ŝ' | 'ş' | 'š' | 'ſ' | 'Ś' | 'Ŝ' | 'Ş' | 'Š' => seq!['s'],
        'ß' => seq!['s', 's'],
        'ţ' | 'ť' | 'ŧ' | 'Ţ' | 'Ť' | 'Ŧ' => seq!['t'],
        'ù' | 'ú' | 'û' | 'ü' | 'Ù' | 'Ú' | 'Û' | 'Ü' | 'ũ' | 'ū' | 'ŭ' | 'ů' | 'ű' | 'ų'
        | 'Ũ' | 'Ū' | 'Ŭ' | 'Ů' | 'Ű' | 'Ų' => seq!['u'],
        'ŵ' | 'Ŵ' => seq!['w'],
        'ý' | 'ÿ' | 'Ý' | 'ŷ' | 'Ŷ' | 'Ÿ' => seq!['y'],
        'ź' | 'ż' | 'ž' | 'Ź' | 'Ż' | 'Ž' => seq!['z'],
        _ => seq![ch],
    }
}

/// Every character folded, in order.
pub open spec fn folded_text(s: Seq<char>) -> Seq<char>
    decreases s.len(),
{
    if s.len() == 0 {
        Seq::empty()
    } else {
        folded_text(s.drop_last()) + folded(s.last())
    }
}

/// Letters and digits are kept; everything else separates words.
pub open spec fn is_word_char(c: char) -> bool {
    char_is_alphabetic(c) || char_is_numeric(c)
}

/// The word characters of `s`, with one space for every run of others.
pub open spec fn spaced_words(s: Seq<char>) -> Seq<char>
    decreases s.len(),
{
    if s.len() == 0 {
        Seq::empty()
    } else if is_word_char(s.last()) {
        spaced_words(s.drop_last()).push(s.last())
    } else if s.len() > 1 && !is_word_char(s[s.len() - 2]) {
        spaced_words(s.drop_last())
    } else {
        spaced_words(s.drop_last()).push(' ')
    }
}

/// The stored "clean" form of a display value.
pub open spec fn clean_value(s: Seq<char>) -> Seq<char> {
    if is_blank(s) {
        s
    } else {
        trimmed(spaced_words(lowercase(folded_text(s))))
    }
}

/// Whether `t` holds word characters and spaces only, and no two neighbours of
/// which neither is a word character.
pub open spec fn is_clean(t: Seq<char>) -> bool {
    &&& forall|i: int| 0 <= i < t.len() ==> is_word_char(#[trigger] t[i]) || t[i] == ' '
    &&& forall|i: int, j: int|
        0 <= i && j == i + 1 && j < t.len() ==> is_word_char(#[trigger] t[i]) || is_word_char(
            #[trigger] t[j],
        )
}

proof fn lemma_spaced_words_clean(s: Seq<char>)
    ensures
        is_clean(spaced_words(s)),
        s.len() > 0 && is_word_char(s.last()) ==> spaced_words(s).len() > 0 && spaced_words(
            s,
        ).last() == s.last(),
    decreases s.len(),
{
    if s.len() > 0 {
        let t = s.drop_last();
        lemma_spaced_words_clean(t);
        if is_word_char(s.last()) {
        } else if s.len() > 1 && !is_word_char(s[s.len() - 2]) {
        } else if s.len() > 1 {
            assert(t.last() == s[s.len() - 2]);
        }
    }
}

proof fn lemma_strip_clean(t: Seq<char>, p: spec_fn(char) -> bool)
    requires
        is_clean(t),
    ensures
        is_clean(strip_start(t, p)),
        is_clean(strip_end(t, p)),
    decreases t.len(),
{
    if t.len() > 0 {
        assert(is_clean(t.drop_first())) by {
            let u = t.drop_first();
            assert forall|i: int, j: int| 0 <= i && j == i + 1 && j < u.len() implies is_word_char(
                #[trigger] u[i],
            ) || is_word_char(#[trigger] u[j]) by {
                assert(u[i] == t[i + 1] && u[j] == t[j + 1]);
            }
        }
        assert(is_clean(t.drop_last()));
        lemma_strip_clean(t.drop_first(), p);
        lemma_strip_clean(t.drop_last(), p);
    }
}

/// The clean form of a value that is not blank holds letters, digits and
/// spaces only, and its spaces stand alone.
pub proof fn law_clean_value_is_clean(s: Seq<char>)
    requires
        !is_blank(s),
    ensures
        is_clean(clean_value(s)),
{
    let t = spaced_words(lowercase(folded_text(s)));
    lemma_spaced_words_clean(lowercase(folded_text(s)));
    lemma_strip_clean(t, whitespace());
    lemma_strip_clean(strip_start(t, whitespace()), whitespace());
}

proof fn lemma_ascii_is_folded(s: Seq<char>)
    requires
        is_ascii_text(s),
    ensures
        folded_text(s) == s,
    decreases s.len(),
{
    if s.len() > 0 {
        lemma_ascii_is_folded(s.drop_last());
        assert((s[s.len() - 1] as u32) < 128);
        assert(folded(s.last()) == seq![s.last()]);
        assert(s.drop_last() + seq![s.last()] =~= s);
    } else {
        assert(folded_text(s) =~= s);
    }
}

/// Of an ASCII text that is not blank, the clean form is a matter of its lower
/// case alone.
proof fn lemma_ascii_clean_value(s: Seq<char>)
    requires
        is_ascii_text(s),
        !is_blank(s),
    ensures
        clean_value(s) == trimmed(spaced_words(ascii_lower(s))),
        is_ascii_text(ascii_lower(s)),
{
    lemma_ascii_is_folded(s);
    assert forall|i: int| 0 <= i < ascii_lower(s).len() implies (#[trigger] ascii_lower(
        s,
    )[i] as u32) < 128 by {
        assert((s[i] as u32) < 128);
    }
}

/// The first and the last character of the words are those of the text, where
/// they are word characters, and spaces elsewhere.
proof fn lemma_spaced_words_ends(s: Seq<char>)
    requires
        s.len() > 0,
    ensures
        spaced_words(s).len() > 0,
        spaced_words(s)[0] == (if is_word_char(s[0]) {
            s[0]
        } else {
            ' '
        }),
        spaced_words(s).last() == (if is_word_char(s.last()) {
            s.last()
        } else {
            ' '
        }),
    decreases s.len(),
{
    reveal_with_fuel(spaced_words, 2);
    if s.len() > 1 {
        assert(s.drop_last().last() == s[s.len() - 2]);
        lemma_spaced_words_ends(s.drop_last());
    }
}

/// The words of two texts in a row: where both are without a word character at
/// the seam, one of the two spaces goes.
proof fn lemma_spaced_words_append(s: Seq<char>, t: Seq<char>)
    requires
        s.len() > 0,
        t.len() > 0,
    ensures
        spaced_words(s + t) == spaced_words(s) + (if !is_word_char(s.last()) && !is_word_char(
            t[0],
        ) {
            spaced_words(t).drop_first()
        } else {
            spaced_words(t)
        }),
    decreases t.len(),
{
    let l = t.drop_last();
    assert((s + t).drop_last() =~= s + l);
    assert((s + t).last() == t.last());
    if t.len() == 1 {
        assert(s + l =~= s);
        assert((s + t)[(s + t).len() - 2] == s.last());
        reveal_with_fuel(spaced_words, 2);
        assert(spaced_words(l) =~= Seq::empty());
        assert(spaced_words(t).drop_first() =~= Seq::empty());
        assert(spaced_words(s + t) =~= spaced_words(s) + (if !is_word_char(s.last())
            && !is_word_char(t[0]) {
            spaced_words(t).drop_first()
        } else {
            spaced_words(t)
        }));
    } else {
        assert((s + t)[(s + t).len() - 2] == t[t.len() - 2]);
        lemma_spaced_words_append(s, l);
        lemma_spaced_words_ends(l);
        assert(l[0] == t[0]);
        assert(spaced_words(s + t) =~= spaced_words(s) + (if !is_word_char(s.last())
            && !is_word_char(t[0]) {
            spaced_words(t).drop_first()
        } else {
            spaced_words(t)
        }));
    }
}

/// The words of a text without a word character are one space.
proof fn lemma_no_words(s: Seq<char>)
    requires
        s.len() > 0,
        forall|i: int| 0 <= i < s.len() ==> !is_word_char(#[trigger] s[i]),
    ensures
        spaced_words(s) == seq![' '],
    decreases s.len(),
{
    reveal_with_fuel(spaced_words, 2);
    if s.len() > 1 {
        assert(s[s.len() - 2] == s.drop_last().last());
        lemma_no_words(s.drop_last());
    }
    assert(spaced_words(s) =~= seq![' ']);
}

/// Whether `s` holds a letter or a digit.
pub open spec fn has_word(s: Seq<char>) -> bool {
    exists|i: int| 0 <= i < s.len() && is_word_char(#[trigger] s[i])
}

/// The words keep every word character.
proof fn lemma_word_is_kept(s: Seq<char>, i: int)
    requires
        0 <= i < s.len(),
        is_word_char(s[i]),
    ensures
        spaced_words(s).contains(s[i]),
    decreases s.len(),
{
    let l = s.drop_last();
    if i == l.len() {
        lemma_spaced_words_ends(s);
        assert(spaced_words(s)[spaced_words(s).len() - 1] == s[i]);
    } else {
        lemma_word_is_kept(l, i);
        assert(l[i] == s[i]);
        let k = choose|k: int|
            0 <= k < spaced_words(l).len() && #[trigger] spaced_words(l)[k] == s[i];
        assert(spaced_words(s)[k] == s[i]);
    }
}

proof fn lemma_words_are_ascii(s: Seq<char>)
    requires
        is_ascii_text(s),
    ensures
        is_ascii_text(spaced_words(s)),
    decreases s.len(),
{
    if s.len() > 0 {
        assert((s[s.len() - 1] as u32) < 128);
        lemma_words_are_ascii(s.drop_last());
    }
}

/// Trimming takes exactly the space at either end of the words.
proof fn lemma_words_are_trimmed(s: Seq<char>)
    requires
        is_ascii_text(s),
        has_word(s),
    ensures
        strip_end(spaced_words(s), whitespace()) == (if is_word_char(s.last()) {
            spaced_words(s)
        } else {
            spaced_words(s).drop_last()
        }),
        strip_start(spaced_words(s), whitespace()) == (if is_word_char(s[0]) {
            spaced_words(s)
        } else {
            spaced_words(s).drop_first()
        }),
        strip_end(spaced_words(s), whitespace()).len() > 0,
        strip_start(spaced_words(s), whitespace()).len() > 0,
{
    let w = spaced_words(s);
    let p = whitespace();
    lemma_spaced_words_ends(s);
    lemma_spaced_words_clean(s);
    lemma_words_are_ascii(s);
    let i = choose|i: int| 0 <= i < s.len() && is_word_char(#[trigger] s[i]);
    lemma_word_is_kept(s, i);
    let k = choose|k: int| 0 <= k < w.len() && w[k] == s[i];
    assert(is_word_char(w[k]) && (w[k] as u32) < 128);
    lemma_strips_to_nothing(w, p);
    assert(!p(w[k]));
    assert forall|j: int| 0 <= j < w.len() && is_word_char(#[trigger] w[j]) implies !p(w[j]) by {
        assert((w[j] as u32) < 128);
    }
    reveal_with_fuel(strip_end, 3);
    reveal_with_fuel(strip_start, 3);
    if !is_word_char(s.last()) {
        assert(w.len() >= 2);
        assert(!is_word_char(' '));
        assert(is_word_char(w[w.len() - 2]) || is_word_char(w[w.len() - 1]));
        assert(w.drop_last().last() == w[w.len() - 2]);
    }
    if !is_word_char(s[0]) {
        assert(w.len() >= 2);
        assert(is_word_char(w[0]) || is_word_char(w[1]));
        assert(w.drop_first()[0] == w[1]);
    }
}

/// What separates two ASCII texts that hold letters or digits does not matter:
/// the clean form of the whole is the clean forms of the two with one space
/// between them.
pub proof fn law_separators_are_one_space(a: Seq<char>, sep: Seq<char>, b: Seq<char>)
    requires
        is_ascii_text(a),
        is_ascii_text(sep),
        is_ascii_text(b),
        has_word(a),
        has_word(b),
        sep.len() > 0,
        !has_word(sep),
    ensures
        clean_value(a + sep + b) == clean_value(a) + seq![' '] + clean_value(b),
{
    let p = whitespace();
    let s = a + sep + b;
    let la = ascii_lower(a);
    let lb = ascii_lower(b);
    assert(is_ascii_text(s));
    let i = choose|i: int| 0 <= i < a.len() && is_word_char(#[trigger] a[i]);
    let j = choose|j: int| 0 <= j < b.len() && is_word_char(#[trigger] b[j]);
    assert((a[i] as u32) < 128 && (b[j] as u32) < 128);
    assert(!is_blank(a)) by {
        assert(!char_is_whitespace(a[i]));
    }
    assert(!is_blank(b)) by {
        assert(!char_is_whitespace(b[j]));
    }
    assert(!is_blank(s)) by {
        assert(s[i] == a[i]);
        assert(!char_is_whitespace(s[i]));
    }
    lemma_ascii_clean_value(a);
    lemma_ascii_clean_value(b);
    lemma_ascii_clean_value(s);
    assert(ascii_lower(s) =~= la + sep + lb) by {
        assert forall|k: int| 0 <= k < sep.len() implies ascii_lower_char(#[trigger] sep[k])
            == sep[k] by {
            assert((sep[k] as u32) < 128);
            assert(!is_word_char(sep[k]));
        }
    }
    assert(is_word_char(la[i]) && is_word_char(lb[j]));
    lemma_words_are_trimmed(la);
    lemma_words_are_trimmed(lb);
    assert forall|k: int| 0 <= k < sep.len() implies !is_word_char(#[trigger] sep[k]) by {}
    lemma_no_words(sep);
    lemma_spaced_words_append(la, sep);
    lemma_spaced_words_append(la + sep, lb);
    lemma_spaced_words_ends(la);
    lemma_spaced_words_ends(lb);
    assert((la + sep).last() == sep.last() && !is_word_char(sep[sep.len() - 1]));
    let front = strip_end(spaced_words(la), p);
    let back = strip_start(spaced_words(lb), p);
    assert(!is_word_char(sep[0]));
    assert(spaced_words(la + sep) =~= front + seq![' ']) by {
        assert(seq![' '].drop_first() =~= Seq::empty());
        if !is_word_char(la.last()) {
            assert(spaced_words(la) =~= spaced_words(la).drop_last() + seq![' ']);
        }
    }
    assert(spaced_words(la + sep + lb) =~= front + seq![' '] + back);
    lemma_strips_commute(spaced_words(la), p);
    lemma_strips_to_nothing(spaced_words(la), p);
    lemma_strips_to_nothing(spaced_words(lb), p);
    law_blank_is_trimmed_away(spaced_words(la));
    law_blank_is_trimmed_away(spaced_words(lb));
    assert(front + seq![' '] + back =~= front + (seq![' '] + back));
    lemma_strip_start_append(front, seq![' '] + back, p);
    let head = strip_start(front, p);
    assert(head + (seq![' '] + back) =~= (head + seq![' ']) + back);
    lemma_strip_end_append(head + seq![' '], back, p);
}

/// Two ASCII texts that differ in the case of letters only have one clean form.
pub proof fn law_letter_case_is_lost(a: Seq<char>, b: Seq<char>)
    requires
        is_ascii_text(a),
        is_ascii_text(b),
        same_ignoring_case(a, b),
    ensures
        clean_value(a) == clean_value(b),
{
    assert(ascii_lower(a).len() == ascii_lower(b).len());
    assert forall|i: int| 0 <= i < a.len() implies ascii_lower_char(a[i]) == ascii_lower_char(
        b[i],
    ) && char_is_whitespace(#[trigger] a[i]) == char_is_whitespace(#[trigger] b[i]) by {
        assert(ascii_lower(a)[i] == ascii_lower(b)[i]);
        assert((a[i] as u32) < 128 && (b[i] as u32) < 128);
    }
    if is_blank(a) {
        assert forall|i: int| 0 <= i < b.len() implies char_is_whitespace(#[trigger] b[i])
            && a[i] == b[i] by {
            assert(char_is_whitespace(a[i]));
            assert((a[i] as u32) < 128 && (b[i] as u32) < 128);
        }
        assert(a =~= b);
    } else {
        let k = choose|k: int| 0 <= k < a.len() && !char_is_whitespace(#[trigger] a[k]);
        assert(!char_is_whitespace(b[k]));
        lemma_ascii_clean_value(a);
        lemma_ascii_clean_value(b);
    }
}

/// Whether every character is an ASCII character and no upper-case letter.
spec fn is_lower_ascii(s: Seq<char>) -> bool {
    forall|i: int|
        0 <= i < s.len() ==> (#[trigger] s[i] as u32) < 128 && !('A' <= s[i] && s[i] <= 'Z')
}

proof fn lemma_words_are_lower(s: Seq<char>)
    requires
        is_lower_ascii(s),
    ensures
        is_lower_ascii(spaced_words(s)),
    decreases s.len(),
{
    if s.len() > 0 {
        assert((s[s.len() - 1] as u32) < 128);
        assert(is_lower_ascii(s.drop_last()));
        lemma_words_are_lower(s.drop_last());
    }
}

proof fn lemma_strip_lower(s: Seq<char>, p: spec_fn(char) -> bool)
    requires
        is_lower_ascii(s),
    ensures
        is_lower_ascii(strip_start(s, p)),
        is_lower_ascii(strip_end(s, p)),
    decreases s.len(),
{
    if s.len() > 0 {
        let f = s.drop_first();
        assert forall|i: int| 0 <= i < f.len() implies (#[trigger] f[i] as u32) < 128 && !('A'
            <= f[i] && f[i] <= 'Z') by {
            assert(f[i] == s[i + 1]);
        }
        lemma_strip_lower(f, p);
        lemma_strip_lower(s.drop_last(), p);
    }
}

proof fn lemma_clean_text_stays(t: Seq<char>)
    requires
        is_clean(t),
    ensures
        spaced_words(t) == t,
    decreases t.len(),
{
    if t.len() > 0 {
        let l = t.drop_last();
        assert(is_clean(l));
        lemma_clean_text_stays(l);
        assert(is_word_char(t[t.len() - 1]) || t[t.len() - 1] == ' ');
        if t.len() > 1 {
            assert(is_word_char(t[t.len() - 2]) || is_word_char(t[t.len() - 1]));
        }
        assert(l.push(t.last()) =~= t);
    }
    assert(spaced_words(t) =~= t);
}

/// Whether folding and lower-casing leave a text as it is.
pub open spec fn is_folded_lower(t: Seq<char>) -> bool {
    lowercase(folded_text(t)) == t
}

/// Cleaning a text twice is cleaning it once, where folding and lower-casing leave
/// what comes out of the first time as it is. There are texts for which they do not,
/// such as one with a letter that is folded only in lower case.
pub proof fn law_cleaning_again(s: Seq<char>)
    requires
        is_blank(s) || is_blank(clean_value(s)) || is_folded_lower(clean_value(s)),
    ensures
        clean_value(clean_value(s)) == clean_value(s),
{
    let t = clean_value(s);
    let p = whitespace();
    if !is_blank(s) && !is_blank(t) {
        let w = spaced_words(lowercase(folded_text(s)));
        law_clean_value_is_clean(s);
        lemma_clean_text_stays(t);
        lemma_strips_commute(w, p);
        lemma_strips_are_stable(w, p);
    }
}

/// Cleaning a text twice is cleaning it once, where folding leaves ASCII characters
/// only: so it is with an ASCII text, and with accented letters that are folded.
pub proof fn law_cleaning_twice(s: Seq<char>)
    requires
        is_ascii_text(s) || is_ascii_text(folded_text(s)),
    ensures
        clean_value(clean_value(s)) == clean_value(s),
{
    if is_ascii_text(s) {
        lemma_ascii_is_folded(s);
    }
    let t = clean_value(s);
    let p = whitespace();
    if !is_blank(s) && !is_blank(t) {
        let f = folded_text(s);
        let low = ascii_lower(f);
        assert(lowercase(f) == low);
        assert(is_lower_ascii(low)) by {
            assert forall|i: int| 0 <= i < low.len() implies (#[trigger] low[i] as u32) < 128
                && !('A' <= low[i] && low[i] <= 'Z') by {
                assert((f[i] as u32) < 128);
            }
        }
        let w = spaced_words(low);
        lemma_words_are_lower(low);
        lemma_strip_lower(w, p);
        lemma_strip_lower(strip_start(w, p), p);
        lemma_ascii_is_folded(t);
        assert(ascii_lower(t) =~= t);
    }
    law_cleaning_again(s);
}

/// Folds a single character to its diacritic-free base characters.
pub fn fold_char(ch: char) -> (r: Vec<char>)
    ensures
        r@ == folded(ch),
{
    match ch {
        'à' | 'á' | 'â' | 'ã' | 'ä' | 'å' | 'À' | 'Á' | 'Â' | 'Ã' | 'Ä' | 'Å' | 'ā' | 'ă'
        | 'ą' | 'Ā' | 'Ă' | 'Ą' => vec!['a'],
        'æ' | 'Æ' => vec!['a', 'e'],
        'ç' | 'Ç' | 'ć' | 'ĉ' | 'ċ' | 'č' | 'Ć' | 'Ĉ' | 'Ċ' | 'Č' => vec!['c'],
        'ď' | 'đ' | 'Ď' | 'Đ' => vec!['d'],
        'è' | 'é' | 'ê' | 'ë' | 'È' | 'É' | 'Ê' | 'Ë' | 'ē' | 'ĕ' | 'ė' | 'ę' | 'ě' | 'Ē'
        | 'Ĕ' | 'Ė' | 'Ę' | 'Ě' => vec!['e'],
        'ĝ' | 'ğ' | 'ġ' | 'ģ' | 'Ĝ' | 'Ğ' | 'Ġ' | 'Ģ' => vec!['g'],
        'ĥ' | 'ħ' | 'Ĥ' | 'Ħ' => vec!['h'],
        'ì' | 'í' | 'î' | 'ï' | 'Ì' | 'Í' | 'Î' | 'Ï' | 'ĩ' | 'ī' | 'ĭ' | 'į' | 'ı' | 'Ĩ'
        | 'Ī' | 'Ĭ' | 'Į' | 'İ' => vec!['i'],
        'ĳ' | 'Ĳ' => vec!['i', 'j'],
        'ĵ' | 'Ĵ' => vec!['j'],
        'ķ' | 'Ķ' => vec!['k'],
        'ĺ' | 'ļ' | 'ľ' | 'ŀ' | 'ł' | 'Ĺ' | 'Ļ' | 'Ľ' | 'Ŀ' | 'Ł' => vec!['l'],
        'ñ' | 'Ñ' | 'ń' | 'ņ' | 'ň' | 'ŉ' | 'Ń' | 'Ņ' | 'Ň' => vec!['n'],
        'ò' | 'ó' | 'ô' | 'õ' | 'ö' | 'ø' | 'Ò' | 'Ó' | 'Ô' | 'Õ' | 'Ö' | 'Ø' | 'ō' | 'ŏ'
        | 'ő' | 'Ō' | 'Ŏ' | 'Ő' => vec!['o'],
        'œ' | 'Œ' => vec!['o', 'e'],
        'ŕ' | 'ŗ' | 'ř' | 'Ŕ' | 'Ŗ' | 'Ř' => vec!['r'],
        'ś' | 'ŝ' | 'ş' | 'š' | 'ſ' | 'Ś' | 'Ŝ' | 'Ş' | 'Š' => vec!['s'],
        'ß' => vec!['s', 's'],
        'ţ' | 'ť' | 'ŧ' | 'Ţ' | 'Ť' | 'Ŧ' => vec!['t'],
        'ù' | 'ú' | 'û' | 'ü' | 'Ù' | 'Ú' | 'Û' | 'Ü' | 'ũ' | 'ū' | 'ŭ' | 'ů' | 'ű' | 'ų'
        | 'Ũ' | 'Ū' | 'Ŭ' | 'Ů' | 'Ű' | 'Ų' => vec!['u'],
        'ŵ' | 'Ŵ' => vec!['w'],
        'ý' | 'ÿ' | 'Ý' | 'ŷ' | 'Ŷ' | 'Ÿ' => vec!['y'],
        'ź' | 'ż' | 'ž' | 'Ź' | 'Ż' | 'Ž' => vec!['z'],
        other => vec![other],
    }
}

fn fold_text(s: &str) -> (r: String)
    ensures
        r@ == folded_text(s@),
{
    let cs: Vec<char> = chars_of(s);
    let mut out: Vec<char> = Vec::new();
    let mut i: usize = 0;
    while i < cs.len()
        invariant
            i <= cs.len(),
            cs@ == s@,
            out@ == folded_text(s@.take(i as int)),
        decreases cs.len() - i,
    {
        let mut part: Vec<char> = fold_char(cs[i]);
        out.append(&mut part);
        i += 1;
        assert(s@.take(i as int).drop_last() =~= s@.take(i - 1));
    }
    assert(s@.take(s@.len() as int) =~= s@);
    string_of(out.as_slice())
}

/// What follows the case mapping: the words of `lowered`, with one space
/// between them.
pub fn clean_words(lowered: &str) -> (r: String)
    ensures
        r@ == trimmed(spaced_words(lowered@)),
{
    let cs: Vec<char> = chars_of(lowered);
    let mut out: Vec<char> = Vec::new();
    let mut last_was_space: bool = false;
    let mut i: usize = 0;
    while i < cs.len()
        invariant
            i <= cs.len(),
            cs@ == lowered@,
            out@ == spaced_words(lowered@.take(i as int)),
            last_was_space == (i > 0 && !is_word_char(lowered@[i - 1])),
        decreases cs.len() - i,
    {
        let c: char = cs[i];
        let keep: bool = is_alphabetic(c) || is_numeric(c);
        proof {
            assert(lowered@.take(i + 1).drop_last() =~= lowered@.take(i as int));
            if i > 0 {
                assert(lowered@.take(i + 1)[i - 1] == lowered@[i - 1]);
            }
        }
        if keep {
            out.push(c);
            last_was_space = false;
        } else {
            if !last_was_space {
                out.push(' ');
                last_was_space = true;
            }
        }
        i += 1;
    }
    assert(lowered@.take(lowered@.len() as int) =~= lowered@);
    string_of(trim_chars(out.as_slice()))
}

/// Normalizes a display value into its stored "clean" form: diacritics are
/// removed and case is lowered, every character that is neither a letter nor a
/// digit separates words, and the words stand with one space between them.
///
/// A blank value is returned unchanged.
pub fn get_clean_value(value: &str) -> (r: String)
    ensures
        r@ == clean_value(value@),
{
    if blank(value) {
        return value.to_owned();
    }
    clean_words(to_lowercase(fold_text(value).as_str()).as_str())
}

} // verus!
