//! Languages, countries and parental ratings.
//!
//! Languages come from a table with one language on each line: the three-letter
//! code, the other three-letter code some languages have, the two-letter code,
//! and the English name, with `|` between them. Ratings are texts such as
//! `PG-13` that stand for a score; the higher the score, the older the viewer
//! should be.
use vstd::prelude::*;
use vstd::slice::slice_subrange;

use crate::number_text::{parse_i32_chars, parsed_between};
use crate::sort::{in_order, is_order, law_sorted, lemma_sorted_through, sort_by, sorted};
use crate::text::{
    ascii_lower, ascii_upper, begins_with, chars_of, eq_ignore_ascii_case, find_char, is_char,
    is_either, lemma_first_index, lines_of, opt_text, same_ignoring_case, same_text, split,
    split_chars, split_either, split_once, split_once_chars, starts_with_chars, string_of,
    strip_end, text_lines, texts, to_ascii_lowercase, to_ascii_uppercase, trim, trim_chars,
    trim_end_of, trimmed,
};

verus! {

/// The country whose ratings count where none is configured.
pub const DEFAULT_METADATA_COUNTRY_CODE: &'static str = "US";

/// A language.
#[derive(Debug, Clone)]
pub struct CultureDto {
    pub name: String,
    pub display_name: String,
    pub two_letter_iso_language_name: String,
    pub three_letter_iso_language_name: Option<String>,
    pub three_letter_iso_language_names: Vec<String>,
}

/// What a language stands for.
pub struct CultureView {
    pub name: Seq<char>,
    pub display_name: Seq<char>,
    pub two: Seq<char>,
    pub three: Option<Seq<char>>,
    pub threes: Seq<Seq<char>>,
}

impl View for CultureDto {
    type V = CultureView;

    open spec fn view(&self) -> CultureView {
        CultureView {
            name: self.name@,
            display_name: self.display_name@,
            two: self.two_letter_iso_language_name@,
            three: opt_text(self.three_letter_iso_language_name),
            threes: texts(self.three_letter_iso_language_names@),
        }
    }
}

/// What languages stand for.
pub open spec fn culture_views(v: Seq<CultureDto>) -> Seq<CultureView> {
    v.map_values(|c: CultureDto| c@)
}

/// A country.
#[derive(Debug, Clone)]
pub struct CountryInfo {
    pub name: String,
    pub display_name: String,
    pub two_letter_iso_region_name: String,
    pub three_letter_iso_region_name: String,
}

/// A language of the user interface.
#[derive(Debug, Clone)]
pub struct LocalizationOption {
    pub name: String,
    pub value: String,
}

/// How strict a rating is; the second number orders ratings with the same score.
#[derive(Debug, Clone, Copy, PartialEq, Eq, Structural)]
pub struct ParentalRatingScore {
    pub score: i32,
    pub sub_score: Option<i32>,
}

impl ParentalRatingScore {
    /// A score.
    pub fn new(score: i32, sub_score: Option<i32>) -> (r: Self)
        ensures
            r.score == score,
            r.sub_score == sub_score,
    {
        ParentalRatingScore { score, sub_score }
    }
}

/// A rating and its score, if it has one.
#[derive(Debug, Clone)]
pub struct ParentalRating {
    pub name: String,
    pub rating_score: Option<ParentalRatingScore>,
}

/// What a rating stands for.
pub struct RatingView {
    pub name: Seq<char>,
    pub score: Option<ParentalRatingScore>,
}

impl View for ParentalRating {
    type V = RatingView;

    open spec fn view(&self) -> RatingView {
        RatingView { name: self.name@, score: self.rating_score }
    }
}

/// What ratings stand for.
pub open spec fn rating_views(v: Seq<ParentalRating>) -> Seq<RatingView> {
    v.map_values(|r: ParentalRating| r@)
}

/// Ratings that share a score.
#[derive(Debug, Clone)]
pub struct ParentalRatingEntry {
    pub rating_strings: Vec<String>,
    pub rating_score: Option<ParentalRatingScore>,
}

/// What the manager is built over: the language table, the countries, and the
/// ratings of the United States.
#[derive(Debug, Clone)]
pub struct LocalizationData {
    pub iso6392: String,
    pub countries: Vec<CountryInfo>,
    pub us_ratings: Vec<ParentalRatingEntry>,
}

// ---------------------------------------------------------------------------
// Lists of named values
// ---------------------------------------------------------------------------
/// Values under names. No name occurs twice in a list that `put` or `put_new`
/// made.
pub type Named<V> = Seq<(Seq<char>, V)>;

/// Where the name stands first, or the length.
pub open spec fn place<V>(s: Named<V>, name: Seq<char>) -> int
    decreases s.len(),
{
    if s.len() == 0 || s[0].0 == name {
        0
    } else {
        1 + place(s.drop_first(), name)
    }
}

/// The value under a name.
pub open spec fn found<V>(s: Named<V>, name: Seq<char>) -> Option<V> {
    if place(s, name) < s.len() {
        Some(s[place(s, name)].1)
    } else {
        None
    }
}

/// The list with a value under a name, in the place of the one that was there.
pub open spec fn put<V>(s: Named<V>, name: Seq<char>, value: V) -> Named<V> {
    if place(s, name) < s.len() {
        s.update(place(s, name), (name, value))
    } else {
        s.push((name, value))
    }
}

/// The list with a value under a name, unless there is one already.
pub open spec fn put_new<V>(s: Named<V>, name: Seq<char>, value: V) -> Named<V> {
    if place(s, name) < s.len() {
        s
    } else {
        s.push((name, value))
    }
}

proof fn lemma_place<V>(s: Named<V>, name: Seq<char>, k: int)
    requires
        0 <= k <= s.len(),
        k < s.len() ==> s[k].0 == name,
        forall|i: int| 0 <= i < k ==> (#[trigger] s[i]).0 != name,
    ensures
        place(s, name) == k,
    decreases s.len(),
{
    if k > 0 {
        let t = s.drop_first();
        assert(s[0].0 != name);
        assert forall|i: int| 0 <= i < k - 1 implies (#[trigger] t[i]).0 != name by {
            assert(t[i] == s[i + 1]);
        }
        lemma_place(t, name, k - 1);
    }
}

/// The ratings that a list holds.
pub open spec fn score_views(v: Seq<(String, ParentalRatingScore)>) -> Named<ParentalRatingScore> {
    v.map_values(|p: (String, ParentalRatingScore)| (p.0@, p.1))
}

/// The codes that a list holds.
pub open spec fn code_views(v: Seq<(String, String)>) -> Named<Seq<char>> {
    v.map_values(|p: (String, String)| (p.0@, p.1@))
}

fn score_place(v: &Vec<(String, ParentalRatingScore)>, name: &str) -> (r: usize)
    ensures
        r == place(score_views(v@), name@),
        r <= v@.len(),
{
    let mut i: usize = 0;
    let ghost s = score_views(v@);
    while i < v.len()
        invariant
            i <= v.len(),
            s == score_views(v@),
            forall|j: int| 0 <= j < i ==> (#[trigger] s[j]).0 != name@,
        decreases v.len() - i,
    {
        if same_text(v[i].0.as_str(), name) {
            proof {
                lemma_place(s, name@, i as int);
            }
            return i;
        }
        assert(s[i as int].0 != name@);
        i += 1;
    }
    proof {
        lemma_place(s, name@, i as int);
    }
    i
}

fn find_score(v: &Vec<(String, ParentalRatingScore)>, name: &str) -> (r: Option<
    ParentalRatingScore,
>)
    ensures
        r == found(score_views(v@), name@),
{
    let i: usize = score_place(v, name);
    if i < v.len() {
        Some(v[i].1)
    } else {
        None
    }
}

fn put_score(v: &mut Vec<(String, ParentalRatingScore)>, name: &str, score: ParentalRatingScore)
    ensures
        score_views(final(v)@) == put(score_views(old(v)@), name@, score),
{
    let i: usize = score_place(v, name);
    let ghost before = score_views(v@);
    if i < v.len() {
        v.set(i, (name.to_owned(), score));
        assert(score_views(v@) =~= before.update(i as int, (name@, score)));
    } else {
        v.push((name.to_owned(), score));
        assert(score_views(v@) =~= before.push((name@, score)));
    }
}

fn code_place(v: &Vec<(String, String)>, name: &str) -> (r: usize)
    ensures
        r == place(code_views(v@), name@),
        r <= v@.len(),
{
    let mut i: usize = 0;
    let ghost s = code_views(v@);
    while i < v.len()
        invariant
            i <= v.len(),
            s == code_views(v@),
            forall|j: int| 0 <= j < i ==> (#[trigger] s[j]).0 != name@,
        decreases v.len() - i,
    {
        if same_text(v[i].0.as_str(), name) {
            proof {
                lemma_place(s, name@, i as int);
            }
            return i;
        }
        assert(s[i as int].0 != name@);
        i += 1;
    }
    proof {
        lemma_place(s, name@, i as int);
    }
    i
}

// ---------------------------------------------------------------------------
// Languages
// ---------------------------------------------------------------------------
/// The column `i` of a row, or nothing.
pub open spec fn column(cols: Seq<Seq<char>>, i: int) -> Seq<char> {
    if i < cols.len() {
        cols[i]
    } else {
        Seq::empty()
    }
}

/// The columns of a row of the language table.
pub open spec fn columns(line: Seq<char>) -> Seq<Seq<char>> {
    split(line, is_char('|'))
}

/// Whether a row gives a language: it has a two-letter code and a name.
pub open spec fn gives_culture(cols: Seq<Seq<char>>) -> bool {
    column(cols, 2).len() > 0 && column(cols, 3).len() > 0
}

/// The language that a row gives. A two-letter code with a region is its name;
/// else the English name is.
pub open spec fn culture(cols: Seq<Seq<char>>) -> CultureView {
    let t = column(cols, 0);
    let b = column(cols, 1);
    let two = column(cols, 2);
    CultureView {
        name: if two.contains('-') {
            two
        } else {
            column(cols, 3)
        },
        display_name: column(cols, 3),
        two,
        three: Some(t),
        threes: if b.len() == 0 {
            seq![t]
        } else {
            seq![t, b]
        },
    }
}

/// The languages that the rows of the table give.
pub open spec fn cultures_of(lines: Seq<Seq<char>>) -> Seq<CultureView>
    decreases lines.len(),
{
    if lines.len() == 0 {
        Seq::empty()
    } else {
        let head = cultures_of(lines.drop_last());
        let cols = columns(lines.last());
        if gives_culture(cols) {
            head.push(culture(cols))
        } else {
            head
        }
    }
}

/// The three-letter codes under the other three-letter codes, in lower case. The
/// first row with a code counts.
pub open spec fn codes_of(lines: Seq<Seq<char>>) -> Named<Seq<char>>
    decreases lines.len(),
{
    if lines.len() == 0 {
        Seq::empty()
    } else {
        let head = codes_of(lines.drop_last());
        let cols = columns(lines.last());
        if gives_culture(cols) && column(cols, 1).len() > 0 {
            put_new(head, ascii_lower(column(cols, 1)), column(cols, 0))
        } else {
            head
        }
    }
}

fn column_text(cols: &Vec<String>, i: usize) -> (r: String)
    ensures
        r@ == column(texts(cols@), i as int),
{
    if i < cols.len() {
        cols[i].clone()
    } else {
        let r: String = String::new();
        assert(r@ =~= Seq::<char>::empty());
        r
    }
}

fn holds_char(s: &str, d: char) -> (r: bool)
    ensures
        r == s@.contains(d),
{
    let cs: Vec<char> = chars_of(s);
    let i: usize = find_char(cs.as_slice(), d);
    proof {
        lemma_first_index(s@, is_char(d));
        if s@.contains(d) {
            let k = choose|k: int| 0 <= k < s@.len() && s@[k] == d;
            if k < i {
                assert(!is_char(d)(s@[k]));
            }
        }
    }
    i < cs.len()
}

/// Notes the language that a row gives, and its codes.
fn load_row(cultures: &mut Vec<CultureDto>, codes: &mut Vec<(String, String)>, line: &str)
    ensures
        culture_views(final(cultures)@) == (if gives_culture(columns(line@)) {
            culture_views(old(cultures)@).push(culture(columns(line@)))
        } else {
            culture_views(old(cultures)@)
        }),
        code_views(final(codes)@) == (if gives_culture(columns(line@)) && column(
            columns(line@),
            1,
        ).len() > 0 {
            put_new(
                code_views(old(codes)@),
                ascii_lower(column(columns(line@), 1)),
                column(columns(line@), 0),
            )
        } else {
            code_views(old(codes)@)
        }),
{
    let cs: Vec<char> = chars_of(line);
    let cols: Vec<String> = split_chars(cs.as_slice(), '|');
    let t: String = column_text(&cols, 0);
    let b: String = column_text(&cols, 1);
    let two: String = column_text(&cols, 2);
    let display: String = column_text(&cols, 3);
    if two.as_str().unicode_len() == 0 || display.as_str().unicode_len() == 0 {
        return;
    }
    let name: String = if holds_char(two.as_str(), '-') {
        two.clone()
    } else {
        display.clone()
    };
    let mut threes: Vec<String> = vec![t.clone()];
    if b.as_str().unicode_len() > 0 {
        let key: String = to_ascii_lowercase(b.as_str());
        let ghost before = code_views(codes@);
        if code_place(codes, key.as_str()) == codes.len() {
            codes.push((key, t.clone()));
            assert(code_views(codes@) =~= before.push((ascii_lower(b@), t@)));
        }
        threes.push(b);
    }
    let ghost before = culture_views(cultures@);
    let made: CultureDto = CultureDto {
        name,
        display_name: display,
        two_letter_iso_language_name: two,
        three_letter_iso_language_name: Some(t),
        three_letter_iso_language_names: threes,
    };
    proof {
        if b@.len() == 0 {
            assert(texts(threes@) =~= seq![t@]);
        } else {
            assert(texts(threes@) =~= seq![t@, b@]);
        }
        assert(made@ == culture(columns(line@)));
    }
    cultures.push(made);
    assert(culture_views(cultures@) =~= before.push(made@));
}

/// Whether a token names a language: by one of its names or codes, whatever the
/// case.
pub open spec fn names_culture(language: Seq<char>, c: CultureView) -> bool {
    ||| same_ignoring_case(language, c.display_name)
    ||| same_ignoring_case(language, c.name)
    ||| same_ignoring_case(language, c.two)
    ||| exists|i: int| 0 <= i < c.threes.len() && same_ignoring_case(language, #[trigger] c.threes[i])
}

fn is_named(language: &str, c: &CultureDto) -> (r: bool)
    ensures
        r == names_culture(language@, c@),
{
    if eq_ignore_ascii_case(language, c.display_name.as_str()) || eq_ignore_ascii_case(
        language,
        c.name.as_str(),
    ) || eq_ignore_ascii_case(language, c.two_letter_iso_language_name.as_str()) {
        return true;
    }
    let mut i: usize = 0;
    let ghost threes = c@.threes;
    while i < c.three_letter_iso_language_names.len()
        invariant
            i <= c.three_letter_iso_language_names.len(),
            threes == texts(c.three_letter_iso_language_names@),
            threes == c@.threes,
            forall|j: int| 0 <= j < i ==> !same_ignoring_case(language@, #[trigger] threes[j]),
        decreases c.three_letter_iso_language_names.len() - i,
    {
        if eq_ignore_ascii_case(language, c.three_letter_iso_language_names[i].as_str()) {
            assert(same_ignoring_case(language@, threes[i as int]));
            return true;
        }
        assert(threes[i as int] == c.three_letter_iso_language_names@[i as int]@);
        i += 1;
    }
    false
}

/// The first language that a token names.
pub open spec fn culture_named(s: Seq<CultureView>, language: Seq<char>) -> Option<CultureView>
    decreases s.len(),
{
    if s.len() == 0 {
        None
    } else if names_culture(language, s[0]) {
        Some(s[0])
    } else {
        culture_named(s.drop_first(), language)
    }
}

/// The language that a token names; an empty token names none.
pub open spec fn language_info(s: Seq<CultureView>, language: Seq<char>) -> Option<CultureView> {
    if language.len() == 0 {
        None
    } else {
        culture_named(s, language)
    }
}

// ---------------------------------------------------------------------------
// Ratings
// ---------------------------------------------------------------------------
/// The ratings of a country.
#[derive(Debug, Clone)]
pub struct RatingSystem {
    pub country: String,
    pub ratings: Vec<(String, ParentalRatingScore)>,
}

/// What the ratings of a country stand for.
pub struct SystemView {
    pub country: Seq<char>,
    pub ratings: Named<ParentalRatingScore>,
}

impl View for RatingSystem {
    type V = SystemView;

    open spec fn view(&self) -> SystemView {
        SystemView { country: self.country@, ratings: score_views(self.ratings@) }
    }
}

/// What the ratings of countries stand for.
pub open spec fn system_views(v: Seq<RatingSystem>) -> Seq<SystemView> {
    v.map_values(|s: RatingSystem| s@)
}

/// The list with each of the names put under the score.
pub open spec fn put_all(
    s: Named<ParentalRatingScore>,
    names: Seq<Seq<char>>,
    score: ParentalRatingScore,
) -> Named<ParentalRatingScore>
    decreases names.len(),
{
    if names.len() == 0 {
        s
    } else {
        put(put_all(s, names.drop_last(), score), names.last(), score)
    }
}

/// The ratings that entries give. An entry without a score gives none.
pub open spec fn ratings_of(entries: Seq<ParentalRatingEntry>) -> Named<ParentalRatingScore>
    decreases entries.len(),
{
    if entries.len() == 0 {
        Seq::empty()
    } else {
        let head = ratings_of(entries.drop_last());
        let e = entries.last();
        match e.rating_score {
            Some(score) => put_all(head, texts(e.rating_strings@), score),
            None => head,
        }
    }
}

fn load_entry(v: &mut Vec<(String, ParentalRatingScore)>, e: &ParentalRatingEntry)
    ensures
        score_views(final(v)@) == (match e.rating_score {
            Some(score) => put_all(score_views(old(v)@), texts(e.rating_strings@), score),
            None => score_views(old(v)@),
        }),
{
    match e.rating_score {
        None => {},
        Some(score) => {
            let ghost before = score_views(v@);
            let ghost all = texts(e.rating_strings@);
            let mut i: usize = 0;
            while i < e.rating_strings.len()
                invariant
                    i <= e.rating_strings.len(),
                    all == texts(e.rating_strings@),
                    score_views(v@) == put_all(before, all.take(i as int), score),
                decreases e.rating_strings.len() - i,
            {
                put_score(v, e.rating_strings[i].as_str(), score);
                i += 1;
                assert(all.take(i as int).drop_last() =~= all.take(i - 1));
                assert(all.take(i as int).last() == e.rating_strings@[i - 1]@);
            }
            assert(all.take(all.len() as int) =~= all);
        },
    }
}

fn load_ratings(entries: &Vec<ParentalRatingEntry>) -> (r: Vec<(String, ParentalRatingScore)>)
    ensures
        score_views(r@) == ratings_of(entries@),
{
    let mut out: Vec<(String, ParentalRatingScore)> = Vec::new();
    let mut i: usize = 0;
    assert(score_views(out@) =~= ratings_of(entries@.take(0)));
    while i < entries.len()
        invariant
            i <= entries.len(),
            score_views(out@) == ratings_of(entries@.take(i as int)),
        decreases entries.len() - i,
    {
        load_entry(&mut out, &entries[i]);
        i += 1;
        assert(entries@.take(i as int).drop_last() =~= entries@.take(i - 1));
    }
    assert(entries@.take(entries@.len() as int) =~= entries@);
    out
}

/// The ratings of the country with the given code, whatever its case.
pub open spec fn system_for(s: Seq<SystemView>, code: Seq<char>) -> Option<
    Named<ParentalRatingScore>,
>
    decreases s.len(),
{
    if s.len() == 0 {
        None
    } else if s[0].country == ascii_upper(code) {
        Some(s[0].ratings)
    } else {
        system_for(s.drop_first(), code)
    }
}

/// The score of a rating in the first country that has it.
pub open spec fn found_anywhere(s: Seq<SystemView>, name: Seq<char>) -> Option<
    ParentalRatingScore,
>
    decreases s.len(),
{
    if s.len() == 0 {
        None
    } else if found(s[0].ratings, name) is Some {
        found(s[0].ratings, name)
    } else {
        found_anywhere(s.drop_first(), name)
    }
}

/// The number that a rating is, with plus signs behind it or without.
pub open spec fn rating_number(rating: Seq<char>) -> Option<int> {
    parsed_between(strip_end(rating, is_char('+')), i32::MIN as int, i32::MAX as int)
}

fn parse_number(cs: &[char]) -> (r: Option<i32>)
    ensures
        match r {
            Some(n) => rating_number(cs@) == Some(n as int),
            None => rating_number(cs@) is None,
        },
{
    parse_i32_chars(trim_end_of(cs, '+'))
}

/// The number that a rating is, with plus signs behind it or without.
pub fn parse_rating_as_score(rating: &str) -> (r: Option<i32>)
    ensures
        match r {
            Some(n) => rating_number(rating@) == Some(n as int),
            None => rating_number(rating@) is None,
        },
{
    parse_number(chars_of(rating).as_slice())
}

/// The score that a number stands for.
pub open spec fn age(n: int) -> ParentalRatingScore {
    ParentalRatingScore { score: n as i32, sub_score: None }
}

/// Whether a rating says that there is none.
pub open spec fn is_unrated(rating: Seq<char>) -> bool {
    ||| same_ignoring_case("n/a"@, rating)
    ||| same_ignoring_case("unrated"@, rating)
    ||| same_ignoring_case("not rated"@, rating)
    ||| same_ignoring_case("nr"@, rating)
}

/// `s` without `p` at its front, however often it stands there.
pub open spec fn without_prefix(s: Seq<char>, p: Seq<char>) -> Seq<char>
    decreases s.len(),
{
    if p.len() > 0 && begins_with(s, p) {
        without_prefix(s.skip(p.len() as int), p)
    } else {
        s
    }
}

fn strip_prefix_chars<'a>(cs: &'a [char], p: &[char]) -> (r: &'a [char])
    requires
        p@.len() > 0,
    ensures
        r@ == without_prefix(cs@, p@),
{
    let mut rest: &[char] = cs;
    while starts_with_chars(rest, p)
        invariant
            p@.len() > 0,
            without_prefix(rest@, p@) == without_prefix(cs@, p@),
        decreases rest@.len(),
    {
        let next: &[char] = slice_subrange(rest, p.len(), rest.len());
        assert(next@ =~= rest@.skip(p@.len() as int));
        rest = next;
    }
    rest
}

/// A rating without the words that announce one.
pub open spec fn cleaned(rating: Seq<char>) -> Seq<char> {
    trimmed(
        without_prefix(
            without_prefix(without_prefix(rating, "Rated :"@), "Rated:"@),
            "Rated "@,
        ),
    )
}

fn clean(rating: &str) -> (r: String)
    ensures
        r@ == cleaned(rating@),
{
    proof {
        reveal_strlit("Rated :");
        reveal_strlit("Rated:");
        reveal_strlit("Rated ");
    }
    let a: Vec<char> = chars_of("Rated :");
    let b: Vec<char> = chars_of("Rated:");
    let c: Vec<char> = chars_of("Rated ");
    let cs: Vec<char> = chars_of(rating);
    let s: &[char] = strip_prefix_chars(cs.as_slice(), a.as_slice());
    let s: &[char] = strip_prefix_chars(s, b.as_slice());
    let s: &[char] = strip_prefix_chars(s, c.as_slice());
    string_of(trim_chars(s))
}

/// The score of a rating that names its country before `sep`: one of that
/// country's ratings, or a number.
pub open spec fn prefixed(s: Seq<SystemView>, rating: Seq<char>, sep: char) -> Option<
    ParentalRatingScore,
> {
    match split_once(rating, sep) {
        None => None,
        Some((country, rest)) => match system_for(s, trimmed(country)) {
            None => None,
            Some(ratings) => if trimmed(rest).len() == 0 {
                None
            } else if found(ratings, trimmed(rest)) is Some {
                found(ratings, trimmed(rest))
            } else {
                match rating_number(trimmed(rest)) {
                    Some(n) => Some(age(n)),
                    None => None,
                }
            },
        },
    }
}

/// The score of one rating: none where it says that there is none; a number is
/// its own score; a name is looked up in the country, then in every country, and
/// then read as a country and a rating.
pub open spec fn single_score(s: Seq<SystemView>, rating: Seq<char>, country: Seq<char>) -> Option<
    ParentalRatingScore,
> {
    if is_unrated(rating) {
        None
    } else {
        match rating_number(rating) {
            Some(n) => Some(age(n)),
            None => {
                let name = cleaned(rating);
                let own = match system_for(s, country) {
                    Some(ratings) => found(ratings, name),
                    None => None,
                };
                if own is Some {
                    own
                } else if found_anywhere(s, name) is Some {
                    found_anywhere(s, name)
                } else if prefixed(s, name, ':') is Some {
                    prefixed(s, name, ':')
                } else {
                    prefixed(s, name, '-')
                }
            },
        }
    }
}

/// The score of the first of several ratings that has one.
pub open spec fn first_score(
    s: Seq<SystemView>,
    parts: Seq<Seq<char>>,
    country: Seq<char>,
) -> Option<ParentalRatingScore>
    decreases parts.len(),
{
    if parts.len() == 0 {
        None
    } else if trimmed(parts[0]).len() > 0 && single_score(s, trimmed(parts[0]), country) is Some {
        single_score(s, trimmed(parts[0]), country)
    } else {
        first_score(s, parts.drop_first(), country)
    }
}

/// The score of a rating that may be several with slashes between them.
pub open spec fn rating_score(s: Seq<SystemView>, rating: Seq<char>, country: Seq<char>) -> Option<
    ParentalRatingScore,
> {
    first_score(s, split(rating, is_char('/')), country)
}

// ---------------------------------------------------------------------------
// The list of ratings
// ---------------------------------------------------------------------------
/// The ratings of a country, as a list.
pub open spec fn listed(ratings: Option<Named<ParentalRatingScore>>) -> Seq<RatingView> {
    match ratings {
        Some(s) => s.map_values(
            |p: (Seq<char>, ParentalRatingScore)| RatingView { name: p.0, score: Some(p.1) },
        ),
        None => Seq::empty(),
    }
}

/// Whether a rating has this score.
pub open spec fn has_score(r: RatingView, score: int) -> bool {
    r.score matches Some(s) && s.score == score
}

/// Whether one of the ratings has this score.
pub open spec fn any_score(s: Seq<RatingView>, score: int) -> bool {
    exists|i: int| 0 <= i < s.len() && has_score(#[trigger] s[i], score)
}

/// Whether one of the ratings has this name.
pub open spec fn any_named(s: Seq<RatingView>, name: Seq<char>) -> bool {
    exists|i: int| 0 <= i < s.len() && (#[trigger] s[i]).name == name
}

/// Whether a rating is for the age of 21 or more.
pub open spec fn is_adult(r: RatingView) -> bool {
    r.score matches Some(s) && s.score >= 21
}

/// Whether one of the ratings is for the age of 21 or more.
pub open spec fn any_adult(s: Seq<RatingView>) -> bool {
    exists|i: int| 0 <= i < s.len() && is_adult(#[trigger] s[i])
}

/// A rating under a number.
pub open spec fn common(name: Seq<char>, score: int) -> RatingView {
    RatingView { name, score: Some(age(score)) }
}

/// The ratings with one for the score, which is added where there is none.
pub open spec fn with_score(s: Seq<RatingView>, name: Seq<char>, score: int) -> Seq<RatingView> {
    if any_score(s, score) {
        s
    } else {
        s.push(common(name, score))
    }
}

/// The ratings with the one for what has no rating.
pub open spec fn with_unrated(s: Seq<RatingView>) -> Seq<RatingView> {
    if any_named(s, "Unrated"@) {
        s
    } else {
        s.push(RatingView { name: "Unrated"@, score: None })
    }
}

/// The ratings with one for the age of 21 or more.
pub open spec fn with_adult(s: Seq<RatingView>) -> Seq<RatingView> {
    if any_adult(s) {
        s
    } else {
        s.push(common("21"@, 21))
    }
}

/// The ratings with the common ones added where they are missing.
pub open spec fn backfilled(s: Seq<RatingView>) -> Seq<RatingView> {
    let s = with_unrated(s);
    let s = with_score(s, "Approved"@, 0);
    let s = with_score(s, "10"@, 10);
    let s = with_score(s, "13"@, 13);
    let s = with_score(s, "14"@, 14);
    let s = with_adult(s);
    let s = with_score(s, "XXX"@, 1000);
    with_score(s, "Banned"@, 1001)
}

/// By what ratings are ordered first; what has no score comes first.
pub open spec fn main_score(r: RatingView) -> int {
    match r.score {
        Some(s) => s.score as int,
        None => i32::MIN as int,
    }
}

/// By what ratings are ordered next; what has none comes first.
pub open spec fn sub_score(r: RatingView) -> int {
    match r.score {
        Some(s) => match s.sub_score {
            Some(n) => n as int,
            None => i32::MIN - 1,
        },
        None => i32::MIN - 1,
    }
}

/// Ratings by their scores.
pub open spec fn by_score() -> spec_fn(RatingView, RatingView) -> bool {
    |a: RatingView, b: RatingView|
        main_score(a) < main_score(b) || (main_score(a) == main_score(b) && sub_score(a)
            < sub_score(b))
}

/// The ratings of a country with the common ones, by their scores.
pub open spec fn parental_ratings(ratings: Option<Named<ParentalRatingScore>>) -> Seq<RatingView> {
    sorted(backfilled(listed(ratings)), by_score())
}

fn scores_below(a: &ParentalRating, b: &ParentalRating) -> (r: bool)
    ensures
        r == by_score()(a@, b@),
{
    let (x, p): (i32, Option<i32>) = match a.rating_score {
        Some(s) => (s.score, s.sub_score),
        None => (i32::MIN, None),
    };
    let (y, q): (i32, Option<i32>) = match b.rating_score {
        Some(s) => (s.score, s.sub_score),
        None => (i32::MIN, None),
    };
    x < y || (x == y && match (p, q) {
        (Some(m), Some(n)) => m < n,
        (None, Some(_)) => true,
        (_, None) => false,
    })
}

fn push_common(v: &mut Vec<ParentalRating>, name: &str, score: Option<ParentalRatingScore>)
    ensures
        rating_views(final(v)@) == rating_views(old(v)@).push((RatingView { name: name@, score })),
{
    let ghost before = rating_views(v@);
    let r: ParentalRating = ParentalRating { name: name.to_owned(), rating_score: score };
    v.push(r);
    assert(rating_views(v@) =~= before.push(r@));
}

fn add_score(v: &mut Vec<ParentalRating>, name: &str, score: i32)
    ensures
        rating_views(final(v)@) == with_score(rating_views(old(v)@), name@, score as int),
{
    let ghost s = rating_views(v@);
    let mut i: usize = 0;
    while i < v.len()
        invariant
            i <= v.len(),
            s == rating_views(v@),
            s == rating_views(old(v)@),
            forall|j: int| 0 <= j < i ==> !has_score(#[trigger] s[j], score as int),
        decreases v.len() - i,
    {
        assert(s[i as int] == v@[i as int]@);
        match v[i].rating_score {
            Some(x) => if x.score == score {
                assert(has_score(s[i as int], score as int));
                return;
            },
            None => {},
        }
        i += 1;
    }
    push_common(v, name, Some(ParentalRatingScore::new(score, None)));
}

fn add_adult(v: &mut Vec<ParentalRating>)
    ensures
        rating_views(final(v)@) == with_adult(rating_views(old(v)@)),
{
    let ghost s = rating_views(v@);
    let mut i: usize = 0;
    while i < v.len()
        invariant
            i <= v.len(),
            s == rating_views(v@),
            s == rating_views(old(v)@),
            forall|j: int| 0 <= j < i ==> !is_adult(#[trigger] s[j]),
        decreases v.len() - i,
    {
        assert(s[i as int] == v@[i as int]@);
        match v[i].rating_score {
            Some(x) => if x.score >= 21 {
                assert(is_adult(s[i as int]));
                return;
            },
            None => {},
        }
        i += 1;
    }
    push_common(v, "21", Some(ParentalRatingScore::new(21, None)));
}

fn add_unrated(v: &mut Vec<ParentalRating>)
    ensures
        rating_views(final(v)@) == with_unrated(rating_views(old(v)@)),
{
    let ghost s = rating_views(v@);
    let mut i: usize = 0;
    while i < v.len()
        invariant
            i <= v.len(),
            s == rating_views(v@),
            s == rating_views(old(v)@),
            forall|j: int| 0 <= j < i ==> (#[trigger] s[j]).name != "Unrated"@,
        decreases v.len() - i,
    {
        assert(s[i as int] == v@[i as int]@);
        if same_text(v[i].name.as_str(), "Unrated") {
            assert(s[i as int].name == "Unrated"@);
            return;
        }
        i += 1;
    }
    push_common(v, "Unrated", None);
}

// ---------------------------------------------------------------------------
// The manager
// ---------------------------------------------------------------------------
/// The languages, countries and ratings that the server knows.
#[derive(Debug, Clone)]
pub struct LocalizationManager {
    pub cultures: Vec<CultureDto>,
    /// Three-letter codes under the other three-letter codes.
    pub iso6392_b_to_t: Vec<(String, String)>,
    pub countries: Vec<CountryInfo>,
    pub parental_ratings: Vec<RatingSystem>,
    /// The country whose ratings count where none is given.
    pub metadata_country_code: String,
}

/// What the manager knows.
pub struct LocalizationView {
    pub cultures: Seq<CultureView>,
    pub codes: Named<Seq<char>>,
    pub systems: Seq<SystemView>,
    pub country: Seq<char>,
}

impl View for LocalizationManager {
    type V = LocalizationView;

    open spec fn view(&self) -> LocalizationView {
        LocalizationView {
            cultures: culture_views(self.cultures@),
            codes: code_views(self.iso6392_b_to_t@),
            systems: system_views(self.parental_ratings@),
            country: self.metadata_country_code@,
        }
    }
}

/// The options for the language of the user interface: names and values.
pub open spec fn localization_options() -> Seq<(Seq<char>, Seq<char>)> {
    seq![
        ("Afrikaans"@, "af"@),
        ("العربية"@, "ar"@),
        ("Беларуская"@, "be"@),
        ("Български"@, "bg-BG"@),
        ("বাংলা (বাংলাদেশ)"@, "bn"@),
        ("Català"@, "ca"@),
        ("Čeština"@, "cs"@),
        ("Cymraeg"@, "cy"@),
        ("Dansk"@, "da"@),
        ("Deutsch"@, "de"@),
        ("English (United Kingdom)"@, "en-GB"@),
        ("English"@, "en-US"@),
        ("Ελληνικά"@, "el"@),
        ("Esperanto"@, "eo"@),
        ("Español"@, "es"@),
        ("Español americano"@, "es_419"@),
        ("Español (Argentina)"@, "es-AR"@),
        ("Español (Dominicana)"@, "es_DO"@),
        ("Español (México)"@, "es-MX"@),
        ("Eesti"@, "et"@),
        ("Basque"@, "eu"@),
        ("فارسی"@, "fa"@),
        ("Suomi"@, "fi"@),
        ("Filipino"@, "fil"@),
        ("Français"@, "fr"@),
        ("Français (Canada)"@, "fr-CA"@),
        ("Galego"@, "gl"@),
        ("Schwiizerdütsch"@, "gsw"@),
        ("עִבְרִית"@, "he"@),
        ("हिन्दी"@, "hi"@),
        ("Hrvatski"@, "hr"@),
        ("Magyar"@, "hu"@),
        ("Bahasa Indonesia"@, "id"@),
        ("Íslenska"@, "is"@),
        ("Italiano"@, "it"@),
        ("日本語"@, "ja"@),
        ("Qazaqşa"@, "kk"@),
        ("한국어"@, "ko"@),
        ("Lietuvių"@, "lt"@),
        ("Latviešu"@, "lv"@),
        ("Македонски"@, "mk"@),
        ("മലയാളം"@, "ml"@),
        ("मराठी"@, "mr"@),
        ("Bahasa Melayu"@, "ms"@),
        ("Norsk bokmål"@, "nb"@),
        ("नेपाली"@, "ne"@),
        ("Nederlands"@, "nl"@),
        ("Norsk nynorsk"@, "nn"@),
        ("ਪੰਜਾਬੀ"@, "pa"@),
        ("Polski"@, "pl"@),
        ("Pirate"@, "pr"@),
        ("Português"@, "pt"@),
        ("Português (Brasil)"@, "pt-BR"@),
        ("Português (Portugal)"@, "pt-PT"@),
        ("Românește"@, "ro"@),
        ("Русский"@, "ru"@),
        ("Slovenčina"@, "sk"@),
        ("Slovenščina"@, "sl-SI"@),
        ("Shqip"@, "sq"@),
        ("Српски"@, "sr"@),
        ("Svenska"@, "sv"@),
        ("தமிழ்"@, "ta"@),
        ("తెలుగు"@, "te"@),
        ("ภาษาไทย"@, "th"@),
        ("Türkçe"@, "tr"@),
        ("Українська"@, "uk"@),
        ("اُردُو"@, "ur_PK"@),
        ("Tiếng Việt"@, "vi"@),
        ("汉语 (简体字)"@, "zh-CN"@),
        ("漢語 (繁體字)"@, "zh-TW"@),
        ("廣東話 (香港)"@, "zh-HK"@),
    ]
}

/// What options stand for.
pub open spec fn option_views(v: Seq<LocalizationOption>) -> Seq<(Seq<char>, Seq<char>)> {
    v.map_values(|o: LocalizationOption| (o.name@, o.value@))
}

fn push_option(v: &mut Vec<LocalizationOption>, name: &str, value: &str)
    ensures
        option_views(final(v)@) == option_views(old(v)@).push((name@, value@)),
{
    let ghost before = option_views(v@);
    v.push(LocalizationOption { name: name.to_owned(), value: value.to_owned() });
    assert(option_views(v@) =~= before.push((name@, value@)));
}

impl LocalizationManager {
    /// A manager over the given data, with the country whose ratings count where
    /// none is given.
    pub fn new(metadata_country_code: &str, data: LocalizationData) -> (r: Self)
        ensures
            r@.cultures == cultures_of(lines_of(data.iso6392@)),
            r@.codes == codes_of(lines_of(data.iso6392@)),
            r@.systems == seq![
                SystemView { country: "US"@, ratings: ratings_of(data.us_ratings@) },
            ],
            r@.country == ascii_upper(metadata_country_code@),
            r.countries == data.countries,
    {
        let rows: Vec<String> = text_lines(data.iso6392.as_str());
        let ghost all = lines_of(data.iso6392@);
        let mut cultures: Vec<CultureDto> = Vec::new();
        let mut codes: Vec<(String, String)> = Vec::new();
        let mut i: usize = 0;
        assert(culture_views(cultures@) =~= cultures_of(all.take(0)));
        assert(code_views(codes@) =~= codes_of(all.take(0)));
        while i < rows.len()
            invariant
                i <= rows.len(),
                texts(rows@) == all,
                culture_views(cultures@) == cultures_of(all.take(i as int)),
                code_views(codes@) == codes_of(all.take(i as int)),
            decreases rows.len() - i,
        {
            load_row(&mut cultures, &mut codes, rows[i].as_str());
            i += 1;
            assert(all.take(i as int).drop_last() =~= all.take(i - 1));
            assert(all.take(i as int).last() == rows@[i - 1]@);
        }
        assert(all.take(all.len() as int) =~= all);
        let us: RatingSystem = RatingSystem {
            country: "US".to_owned(),
            ratings: load_ratings(&data.us_ratings),
        };
        let systems: Vec<RatingSystem> = vec![us];
        assert(system_views(systems@) =~= seq![us@]);
        LocalizationManager {
            cultures,
            iso6392_b_to_t: codes,
            countries: data.countries,
            parental_ratings: systems,
            metadata_country_code: to_ascii_uppercase(metadata_country_code),
        }
    }

    /// The languages.
    pub fn get_cultures(&self) -> (r: &Vec<CultureDto>)
        ensures
            *r == self.cultures,
    {
        &self.cultures
    }

    /// The countries.
    pub fn get_countries(&self) -> (r: &Vec<CountryInfo>)
        ensures
            *r == self.countries,
    {
        &self.countries
    }

    /// The options for the language of the user interface.
    pub fn get_localization_options(&self) -> (r: Vec<LocalizationOption>)
        ensures
            option_views(r@) == localization_options(),
    {
        let mut out: Vec<LocalizationOption> = Vec::new();
        assert(option_views(out@) =~= Seq::<(Seq<char>, Seq<char>)>::empty());
        push_option(&mut out, "Afrikaans", "af");
        push_option(&mut out, "العربية", "ar");
        push_option(&mut out, "Беларуская", "be");
        push_option(&mut out, "Български", "bg-BG");
        push_option(&mut out, "বাংলা (বাংলাদেশ)", "bn");
        push_option(&mut out, "Català", "ca");
        push_option(&mut out, "Čeština", "cs");
        push_option(&mut out, "Cymraeg", "cy");
        push_option(&mut out, "Dansk", "da");
        push_option(&mut out, "Deutsch", "de");
        push_option(&mut out, "English (United Kingdom)", "en-GB");
        push_option(&mut out, "English", "en-US");
        push_option(&mut out, "Ελληνικά", "el");
        push_option(&mut out, "Esperanto", "eo");
        push_option(&mut out, "Español", "es");
        push_option(&mut out, "Español americano", "es_419");
        push_option(&mut out, "Español (Argentina)", "es-AR");
        push_option(&mut out, "Español (Dominicana)", "es_DO");
        push_option(&mut out, "Español (México)", "es-MX");
        push_option(&mut out, "Eesti", "et");
        push_option(&mut out, "Basque", "eu");
        push_option(&mut out, "فارسی", "fa");
        push_option(&mut out, "Suomi", "fi");
        push_option(&mut out, "Filipino", "fil");
        push_option(&mut out, "Français", "fr");
        push_option(&mut out, "Français (Canada)", "fr-CA");
        push_option(&mut out, "Galego", "gl");
        push_option(&mut out, "Schwiizerdütsch", "gsw");
        push_option(&mut out, "עִבְרִית", "he");
        push_option(&mut out, "हिन्दी", "hi");
        push_option(&mut out, "Hrvatski", "hr");
        push_option(&mut out, "Magyar", "hu");
        push_option(&mut out, "Bahasa Indonesia", "id");
        push_option(&mut out, "Íslenska", "is");
        push_option(&mut out, "Italiano", "it");
        push_option(&mut out, "日本語", "ja");
        push_option(&mut out, "Qazaqşa", "kk");
        push_option(&mut out, "한국어", "ko");
        push_option(&mut out, "Lietuvių", "lt");
        push_option(&mut out, "Latviešu", "lv");
        push_option(&mut out, "Македонски", "mk");
        push_option(&mut out, "മലയാളം", "ml");
        push_option(&mut out, "मराठी", "mr");
        push_option(&mut out, "Bahasa Melayu", "ms");
        push_option(&mut out, "Norsk bokmål", "nb");
        push_option(&mut out, "नेपाली", "ne");
        push_option(&mut out, "Nederlands", "nl");
        push_option(&mut out, "Norsk nynorsk", "nn");
        push_option(&mut out, "ਪੰਜਾਬੀ", "pa");
        push_option(&mut out, "Polski", "pl");
        push_option(&mut out, "Pirate", "pr");
        push_option(&mut out, "Português", "pt");
        push_option(&mut out, "Português (Brasil)", "pt-BR");
        push_option(&mut out, "Português (Portugal)", "pt-PT");
        push_option(&mut out, "Românește", "ro");
        push_option(&mut out, "Русский", "ru");
        push_option(&mut out, "Slovenčina", "sk");
        push_option(&mut out, "Slovenščina", "sl-SI");
        push_option(&mut out, "Shqip", "sq");
        push_option(&mut out, "Српски", "sr");
        push_option(&mut out, "Svenska", "sv");
        push_option(&mut out, "தமிழ்", "ta");
        push_option(&mut out, "తెలుగు", "te");
        push_option(&mut out, "ภาษาไทย", "th");
        push_option(&mut out, "Türkçe", "tr");
        push_option(&mut out, "Українська", "uk");
        push_option(&mut out, "اُردُو", "ur_PK");
        push_option(&mut out, "Tiếng Việt", "vi");
        push_option(&mut out, "汉语 (简体字)", "zh-CN");
        push_option(&mut out, "漢語 (繁體字)", "zh-TW");
        push_option(&mut out, "廣東話 (香港)", "zh-HK");
        out
    }

    /// The language that a token names, by any of its names or codes.
    pub fn find_language_info(&self, language: &str) -> (r: Option<&CultureDto>)
        ensures
            match r {
                Some(c) => language_info(self@.cultures, language@) == Some(c@),
                None => language_info(self@.cultures, language@) is None,
            },
    {
        if language.unicode_len() == 0 {
            return None;
        }
        let ghost s = culture_views(self.cultures@);
        let mut i: usize = 0;
        assert(s.skip(0) =~= s);
        while i < self.cultures.len()
            invariant
                i <= self.cultures.len(),
                s == culture_views(self.cultures@),
                s == self@.cultures,
                language@.len() > 0,
                culture_named(s, language@) == culture_named(s.skip(i as int), language@),
            decreases self.cultures.len() - i,
        {
            assert(s.skip(i as int)[0] == self.cultures@[i as int]@);
            assert(s.skip(i as int).drop_first() =~= s.skip(i + 1));
            if is_named(language, &self.cultures[i]) {
                return Some(&self.cultures[i]);
            }
            i += 1;
        }
        None
    }

    /// The name of the language that a token names, up to the first semicolon or
    /// comma.
    pub fn get_language_display_name(&self, language: &str) -> (r: Option<String>)
        ensures
            opt_text(r) == (match language_info(self@.cultures, language@) {
                Some(c) => Some(trimmed(split(c.display_name, is_either(';', ','))[0])),
                None => None,
            }),
    {
        match self.find_language_info(language) {
            None => None,
            Some(c) => {
                let cs: Vec<char> = chars_of(c.display_name.as_str());
                let parts: Vec<String> = split_either(cs.as_slice(), ';', ',');
                assert(texts(parts@).len() > 0);
                assert(texts(parts@)[0] == parts@[0]@);
                Some(trim(parts[0].as_str()))
            },
        }
    }

    /// The three-letter code of the language with the other three-letter code
    /// `iso_b`.
    pub fn try_get_iso6392_t_from_b(&self, iso_b: &str) -> (r: Option<String>)
        ensures
            opt_text(r) == (match found(self@.codes, ascii_lower(iso_b@)) {
                Some(t) => if t.len() > 0 {
                    Some(t)
                } else {
                    None
                },
                None => None,
            }),
    {
        let key: String = to_ascii_lowercase(iso_b);
        let i: usize = code_place(&self.iso6392_b_to_t, key.as_str());
        if i < self.iso6392_b_to_t.len() {
            assert(self@.codes[i as int].1 == self.iso6392_b_to_t@[i as int].1@);
            if self.iso6392_b_to_t[i].1.as_str().unicode_len() > 0 {
                return Some(self.iso6392_b_to_t[i].1.clone());
            }
        }
        None
    }

    /// The ratings of the country with the given code.
    fn parental_ratings_for(&self, country_code: &str) -> (r: Option<
        &Vec<(String, ParentalRatingScore)>,
    >)
        ensures
            match r {
                Some(v) => system_for(self@.systems, country_code@) == Some(score_views(v@)),
                None => system_for(self@.systems, country_code@) is None,
            },
    {
        let code: String = to_ascii_uppercase(country_code);
        let ghost s = system_views(self.parental_ratings@);
        let mut i: usize = 0;
        assert(s.skip(0) =~= s);
        while i < self.parental_ratings.len()
            invariant
                i <= self.parental_ratings.len(),
                s == system_views(self.parental_ratings@),
                s == self@.systems,
                code@ == ascii_upper(country_code@),
                system_for(s, country_code@) == system_for(s.skip(i as int), country_code@),
            decreases self.parental_ratings.len() - i,
        {
            assert(s.skip(i as int)[0] == self.parental_ratings@[i as int]@);
            assert(s.skip(i as int).drop_first() =~= s.skip(i + 1));
            if same_text(self.parental_ratings[i].country.as_str(), code.as_str()) {
                return Some(&self.parental_ratings[i].ratings);
            }
            i += 1;
        }
        None
    }

    fn find_anywhere(&self, name: &str) -> (r: Option<ParentalRatingScore>)
        ensures
            r == found_anywhere(self@.systems, name@),
    {
        let ghost s = system_views(self.parental_ratings@);
        let mut i: usize = 0;
        assert(s.skip(0) =~= s);
        while i < self.parental_ratings.len()
            invariant
                i <= self.parental_ratings.len(),
                s == system_views(self.parental_ratings@),
                s == self@.systems,
                found_anywhere(s, name@) == found_anywhere(s.skip(i as int), name@),
            decreases self.parental_ratings.len() - i,
        {
            assert(s.skip(i as int)[0] == self.parental_ratings@[i as int]@);
            assert(s.skip(i as int).drop_first() =~= s.skip(i + 1));
            let score: Option<ParentalRatingScore> = find_score(
                &self.parental_ratings[i].ratings,
                name,
            );
            if score.is_some() {
                return score;
            }
            i += 1;
        }
        None
    }

    fn find_prefixed(&self, rating: &str, sep: char) -> (r: Option<ParentalRatingScore>)
        ensures
            r == prefixed(self@.systems, rating@, sep),
    {
        let cs: Vec<char> = chars_of(rating);
        match split_once_chars(cs.as_slice(), sep) {
            None => None,
            Some((country, rest)) => {
                let suffix: &[char] = trim_chars(rest);
                if suffix.len() == 0 {
                    return None;
                }
                let code: String = string_of(trim_chars(country));
                match self.parental_ratings_for(code.as_str()) {
                    None => None,
                    Some(ratings) => {
                        let name: String = string_of(suffix);
                        let score: Option<ParentalRatingScore> = find_score(
                            ratings,
                            name.as_str(),
                        );
                        if score.is_some() {
                            score
                        } else {
                            match parse_number(suffix) {
                                Some(n) => Some(ParentalRatingScore::new(n, None)),
                                None => None,
                            }
                        }
                    },
                }
            },
        }
    }

    /// The ratings of the server's country with the common ones, by their scores.
    pub fn get_parental_ratings(&self) -> (r: Vec<ParentalRating>)
        ensures
            rating_views(r@) == parental_ratings(system_for(self@.systems, self@.country)),
    {
        let mut out: Vec<ParentalRating> = Vec::new();
        let ghost own = listed(system_for(self@.systems, self@.country));
        match self.parental_ratings_for(self.metadata_country_code.as_str()) {
            Some(ratings) => {
                let mut i: usize = 0;
                assert(rating_views(out@) =~= own.take(0));
                while i < ratings.len()
                    invariant
                        i <= ratings.len(),
                        own == listed(Some(score_views(ratings@))),
                        rating_views(out@) == own.take(i as int),
                    decreases ratings.len() - i,
                {
                    push_common(&mut out, ratings[i].0.as_str(), Some(ratings[i].1));
                    i += 1;
                    assert(own.take(i as int) =~= own.take(i - 1).push(own[i - 1]));
                }
                assert(own.take(own.len() as int) =~= own);
            },
            None => {
                assert(rating_views(out@) =~= own);
            },
        }
        add_unrated(&mut out);
        add_score(&mut out, "Approved", 0);
        add_score(&mut out, "10", 10);
        add_score(&mut out, "13", 13);
        add_score(&mut out, "14", 14);
        add_adult(&mut out);
        add_score(&mut out, "XXX", 1000);
        add_score(&mut out, "Banned", 1001);
        let ghost less = |a: ParentalRating, b: ParentalRating| by_score()(a@, b@);
        let before = |a: &ParentalRating, b: &ParentalRating| -> (c: bool)
            ensures
                c == by_score()(a@, b@),
            { scores_below(a, b) };
        proof {
            lemma_sorted_through(out@, less, |r: ParentalRating| r@, by_score());
        }
        sort_by(out, before, Ghost(less))
    }

    /// The score of a rating; `country_code` says whose ratings count first.
    pub fn get_rating_score(&self, rating: &str, country_code: Option<&str>) -> (r: Option<
        ParentalRatingScore,
    >)
        ensures
            r == rating_score(
                self@.systems,
                rating@,
                match country_code {
                    Some(c) => c@,
                    None => self@.country,
                },
            ),
    {
        let country: &str = match country_code {
            Some(c) => c,
            None => self.metadata_country_code.as_str(),
        };
        let cs: Vec<char> = chars_of(rating);
        let parts: Vec<String> = split_chars(cs.as_slice(), '/');
        let ghost all = split(rating@, is_char('/'));
        let mut i: usize = 0;
        assert(all.skip(0) =~= all);
        while i < parts.len()
            invariant
                i <= parts.len(),
                texts(parts@) == all,
                all == split(rating@, is_char('/')),
                country@ == (match country_code {
                    Some(c) => c@,
                    None => self@.country,
                }),
                first_score(self@.systems, all, country@) == first_score(
                    self@.systems,
                    all.skip(i as int),
                    country@,
                ),
            decreases parts.len() - i,
        {
            assert(all.skip(i as int)[0] == parts@[i as int]@);
            assert(all.skip(i as int).drop_first() =~= all.skip(i + 1));
            let value: String = trim(parts[i].as_str());
            if value.as_str().unicode_len() > 0 {
                let score: Option<ParentalRatingScore> = self.single_rating_score(
                    value.as_str(),
                    country,
                );
                if score.is_some() {
                    return score;
                }
            }
            i += 1;
        }
        None
    }

    /// The score of one rating.
    pub fn single_rating_score(&self, rating: &str, country: &str) -> (r: Option<
        ParentalRatingScore,
    >)
        ensures
            r == single_score(self@.systems, rating@, country@),
    {
        if eq_ignore_ascii_case("n/a", rating) || eq_ignore_ascii_case("unrated", rating)
            || eq_ignore_ascii_case("not rated", rating) || eq_ignore_ascii_case("nr", rating) {
            return None;
        }
        match parse_rating_as_score(rating) {
            Some(n) => {
                return Some(ParentalRatingScore::new(n, None));
            },
            None => {},
        }
        let name: String = clean(rating);
        let own: Option<ParentalRatingScore> = match self.parental_ratings_for(country) {
            Some(ratings) => find_score(ratings, name.as_str()),
            None => None,
        };
        if own.is_some() {
            return own;
        }
        let other: Option<ParentalRatingScore> = self.find_anywhere(name.as_str());
        if other.is_some() {
            return other;
        }
        let tagged: Option<ParentalRatingScore> = self.find_prefixed(name.as_str(), ':');
        if tagged.is_some() {
            return tagged;
        }
        self.find_prefixed(name.as_str(), '-')
    }
}

// ---------------------------------------------------------------------------
// Laws
// ---------------------------------------------------------------------------
/// What stays of a list that something may be added to.
proof fn lemma_kept(s: Seq<RatingView>, t: Seq<RatingView>, r: RatingView)
    requires
        t == s || t == s.push(r),
    ensures
        forall|n: int| #[trigger] any_score(s, n) ==> any_score(t, n),
        forall|n: Seq<char>| #[trigger] any_named(s, n) ==> any_named(t, n),
        any_adult(s) ==> any_adult(t),
        t.len() > s.len() ==> t[s.len() as int] == r,
{
    assert forall|n: int| #[trigger] any_score(s, n) implies any_score(t, n) by {
        let i = choose|i: int| 0 <= i < s.len() && has_score(#[trigger] s[i], n);
        assert(has_score(t[i], n));
    }
    assert forall|n: Seq<char>| #[trigger] any_named(s, n) implies any_named(t, n) by {
        let i = choose|i: int| 0 <= i < s.len() && (#[trigger] s[i]).name == n;
        assert(t[i].name == n);
    }
    if any_adult(s) {
        let i = choose|i: int| 0 <= i < s.len() && is_adult(#[trigger] s[i]);
        assert(is_adult(t[i]));
    }
}

proof fn lemma_with_score(s: Seq<RatingView>, name: Seq<char>, score: int)
    requires
        i32::MIN <= score <= i32::MAX,
    ensures
        any_score(with_score(s, name, score), score),
        forall|n: int| #[trigger] any_score(s, n) ==> any_score(with_score(s, name, score), n),
        forall|n: Seq<char>| #[trigger]
            any_named(s, n) ==> any_named(with_score(s, name, score), n),
        any_adult(s) ==> any_adult(with_score(s, name, score)),
{
    let t = with_score(s, name, score);
    lemma_kept(s, t, common(name, score));
    if !any_score(s, score) {
        assert(has_score(t[s.len() as int], score));
    }
}

/// What a list is sorted into has the same ratings.
proof fn lemma_sorted_ratings(s: Seq<RatingView>, less: spec_fn(RatingView, RatingView) -> bool)
    ensures
        forall|n: int| #[trigger] any_score(s, n) ==> any_score(sorted(s, less), n),
        forall|n: Seq<char>| #[trigger] any_named(s, n) ==> any_named(sorted(s, less), n),
        any_adult(s) ==> any_adult(sorted(s, less)),
{
    law_sorted(s, less);
    let t = sorted(s, less);
    broadcast use vstd::seq_lib::group_to_multiset_ensures;

    assert forall|i: int| 0 <= i < s.len() implies t.contains(#[trigger] s[i]) by {
        assert(s.contains(s[i]));
        assert(s.to_multiset().count(s[i]) > 0);
        assert(t.to_multiset().count(s[i]) > 0);
    }
    assert forall|n: int| #[trigger] any_score(s, n) implies any_score(t, n) by {
        let i = choose|i: int| 0 <= i < s.len() && has_score(#[trigger] s[i], n);
        let k = choose|k: int| 0 <= k < t.len() && t[k] == s[i];
        assert(has_score(t[k], n));
    }
    assert forall|n: Seq<char>| #[trigger] any_named(s, n) implies any_named(t, n) by {
        let i = choose|i: int| 0 <= i < s.len() && (#[trigger] s[i]).name == n;
        let k = choose|k: int| 0 <= k < t.len() && t[k] == s[i];
        assert(t[k].name == n);
    }
    if any_adult(s) {
        let i = choose|i: int| 0 <= i < s.len() && is_adult(#[trigger] s[i]);
        let k = choose|k: int| 0 <= k < t.len() && t[k] == s[i];
        assert(is_adult(t[k]));
    }
}

/// The list of ratings is ordered by score, and whatever ratings the country has,
/// there is one for what is not rated, one for each of the common scores, and one
/// for the age of 21 or more.
pub proof fn law_common_ratings_are_listed(ratings: Option<Named<ParentalRatingScore>>)
    ensures
        in_order(parental_ratings(ratings), by_score()),
        any_named(parental_ratings(ratings), "Unrated"@),
        any_score(parental_ratings(ratings), 0),
        any_score(parental_ratings(ratings), 10),
        any_score(parental_ratings(ratings), 13),
        any_score(parental_ratings(ratings), 14),
        any_adult(parental_ratings(ratings)),
        any_score(parental_ratings(ratings), 1000),
        any_score(parental_ratings(ratings), 1001),
{
    let s0 = listed(ratings);
    let s1 = with_unrated(s0);
    let s2 = with_score(s1, "Approved"@, 0);
    let s3 = with_score(s2, "10"@, 10);
    let s4 = with_score(s3, "13"@, 13);
    let s5 = with_score(s4, "14"@, 14);
    let s6 = with_adult(s5);
    let s7 = with_score(s6, "XXX"@, 1000);
    lemma_kept(s0, s1, RatingView { name: "Unrated"@, score: None });
    assert(any_named(s1, "Unrated"@)) by {
        if !any_named(s0, "Unrated"@) {
            assert(s1[s0.len() as int].name == "Unrated"@);
        }
    }
    lemma_with_score(s1, "Approved"@, 0);
    lemma_with_score(s2, "10"@, 10);
    lemma_with_score(s3, "13"@, 13);
    lemma_with_score(s4, "14"@, 14);
    lemma_kept(s5, s6, common("21"@, 21));
    assert(any_adult(s6)) by {
        if !any_adult(s5) {
            assert(is_adult(s6[s5.len() as int]));
        }
    }
    lemma_with_score(s6, "XXX"@, 1000);
    lemma_with_score(s7, "Banned"@, 1001);
    lemma_sorted_ratings(backfilled(s0), by_score());
    law_sorted(backfilled(s0), by_score());
    assert(is_order(by_score()));
}

/// A number is its own score, in every country.
pub proof fn law_number_is_its_own_score(
    systems: Seq<SystemView>,
    rating: Seq<char>,
    country: Seq<char>,
)
    requires
        rating_number(rating) is Some,
        !is_unrated(rating),
    ensures
        single_score(systems, rating, country) == Some(
            ParentalRatingScore { score: rating_number(rating)->0 as i32, sub_score: None },
        ),
{
}

} // verus!
