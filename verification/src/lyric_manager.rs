//! Lyrics: reading timed and plain lyric files, naming the files that stand
//! beside a media file, and routing searches and downloads to providers.
//!
//! A lyric file stands beside its media file, under the same name with another
//! extension. A timed file (`lrc`, `elrc`) holds lines that begin with tags in
//! square brackets: times at which the line is sung, or facts about the song.
//! Times are in ticks of 100 nanoseconds.
use vstd::prelude::*;
use vstd::slice::slice_subrange;

use crate::model::BaseItemKind;
use crate::number_text::{
    digit_value, digits_value, is_digits, parse_i64_chars, parsed_between, parsed_int,
};
use crate::paths::{
    extension, file_name, law_extension_is_replaced, path_extension, path_with_extension,
    replace_extension,
};
use crate::service_error::{ErrorView, ServiceError};
use crate::sort::{in_order, is_order, law_sorted, lemma_sorted_through, sort_by, sorted};
use crate::sql::opt_int;
use crate::text::{
    ascii_lower, chars_of, concat3, eq_ignore_ascii_case, first_index, is_char, lemma_first_index,
    lemma_first_index_unique,
    lines_of, lowercase, opt_text, same_ignoring_case, same_text, split, split_chars, split_once,
    split_once_chars, string_of, strip_end, strip_start, text_lines, texts, to_ascii_lowercase,
    to_lowercase, trim_chars, trim_end_chars, trim_start_chars, trim_start_of, trimmed, whitespace,
};

verus! {

/// How many ticks a millisecond has.
pub const TICKS_PER_MS: i64 = 10_000;

/// What a lyric file says about its song.
#[derive(Debug, Clone)]
pub struct LyricMetadata {
    pub artist: Option<String>,
    pub album: Option<String>,
    pub title: Option<String>,
    pub author: Option<String>,
    /// How long the song is, in ticks.
    pub length: Option<i64>,
    pub by: Option<String>,
    /// By how much the times are off, in ticks.
    pub offset: Option<i64>,
    pub creator: Option<String>,
    pub version: Option<String>,
    /// Whether the lines have times.
    pub is_synced: Option<bool>,
}

/// What metadata stands for.
pub struct MetadataView {
    pub artist: Option<Seq<char>>,
    pub album: Option<Seq<char>>,
    pub title: Option<Seq<char>>,
    pub author: Option<Seq<char>>,
    pub length: Option<int>,
    pub by: Option<Seq<char>>,
    pub offset: Option<int>,
    pub creator: Option<Seq<char>>,
    pub version: Option<Seq<char>>,
    pub is_synced: Option<bool>,
}

impl View for LyricMetadata {
    type V = MetadataView;

    open spec fn view(&self) -> MetadataView {
        MetadataView {
            artist: opt_text(self.artist),
            album: opt_text(self.album),
            title: opt_text(self.title),
            author: opt_text(self.author),
            length: opt_int(self.length),
            by: opt_text(self.by),
            offset: opt_int(self.offset),
            creator: opt_text(self.creator),
            version: opt_text(self.version),
            is_synced: self.is_synced,
        }
    }
}

/// Metadata that says nothing.
pub open spec fn no_metadata() -> MetadataView {
    MetadataView {
        artist: None,
        album: None,
        title: None,
        author: None,
        length: None,
        by: None,
        offset: None,
        creator: None,
        version: None,
        is_synced: None,
    }
}

impl Default for LyricMetadata {
    fn default() -> (r: Self)
        ensures
            r@ == no_metadata(),
    {
        LyricMetadata {
            artist: None,
            album: None,
            title: None,
            author: None,
            length: None,
            by: None,
            offset: None,
            creator: None,
            version: None,
            is_synced: None,
        }
    }
}

/// One line of lyrics, with the time at which it is sung if that is known.
#[derive(Debug, Clone)]
pub struct LyricLine {
    pub text: String,
    pub start: Option<i64>,
}

/// What a line stands for.
pub struct LineView {
    pub text: Seq<char>,
    pub start: Option<int>,
}

impl View for LyricLine {
    type V = LineView;

    open spec fn view(&self) -> LineView {
        LineView { text: self.text@, start: opt_int(self.start) }
    }
}

/// What lines stand for.
pub open spec fn line_views(lines: Seq<LyricLine>) -> Seq<LineView> {
    lines.map_values(|l: LyricLine| l@)
}

/// The lyrics of a song.
#[derive(Debug, Clone)]
pub struct LyricDto {
    pub metadata: LyricMetadata,
    pub lyrics: Vec<LyricLine>,
}

/// What lyrics stand for.
pub struct LyricView {
    pub metadata: MetadataView,
    pub lyrics: Seq<LineView>,
}

impl View for LyricDto {
    type V = LyricView;

    open spec fn view(&self) -> LyricView {
        LyricView { metadata: self.metadata@, lyrics: line_views(self.lyrics@) }
    }
}

// ---------------------------------------------------------------------------
// Times
// ---------------------------------------------------------------------------
/// A number taken modulo the range of a signed 64-bit integer.
pub open spec fn wrapped(n: int) -> int {
    (n + 0x8000_0000_0000_0000) % 0x1_0000_0000_0000_0000 - 0x8000_0000_0000_0000
}

/// The signed 64-bit integer that a text stands for.
pub open spec fn int64(s: Seq<char>) -> Option<int> {
    parsed_between(s, i64::MIN as int, i64::MAX as int)
}

/// The milliseconds that a fraction of a second stands for: one digit is tenths,
/// two are hundredths, anything else is milliseconds.
pub open spec fn fraction_ms(digits: int, value: int) -> int {
    if digits == 1 {
        value * 100
    } else if digits == 2 {
        value * 10
    } else {
        value
    }
}

/// Minutes, seconds and milliseconds as ticks.
pub open spec fn ticks_of(minutes: int, seconds: int, ms: int) -> int {
    ((minutes * 60 + seconds) * 1000 + ms) * TICKS_PER_MS
}

/// The ticks that `mm:ss`, `mm:ss.f`, `mm:ss.ff` or `mm:ss.fff` stands for;
/// `None` for anything else. Blanks around the numbers do not count, and sums
/// that are too large wrap.
pub open spec fn timestamp(s: Seq<char>) -> Option<int> {
    match split_once(s, ':') {
        None => None,
        Some((m, rest)) => match (int64(trimmed(m)), split_once(rest, '.')) {
            (None, _) => None,
            (Some(minutes), None) => match int64(trimmed(rest)) {
                None => None,
                Some(seconds) => Some(wrapped(ticks_of(minutes, seconds, 0))),
            },
            (Some(minutes), Some((sec, frac))) => match (int64(trimmed(sec)), int64(
                trimmed(frac),
            )) {
                (Some(seconds), Some(value)) => Some(
                    wrapped(
                        ticks_of(
                            minutes,
                            seconds,
                            fraction_ms(trimmed(frac).len() as int, value),
                        ),
                    ),
                ),
                _ => None,
            },
        },
    }
}

fn wrap_i64(n: i128) -> (r: i64)
    requires
        -0x1_0000_0000_0000_0000_0000_0000 < n < 0x1_0000_0000_0000_0000_0000_0000,
    ensures
        r == wrapped(n as int),
{
    let up: i128 = n + 0x8000_0000_0000_0000 + 0x1_0000_0000_0000_0000_0000_0000;
    let low: i128 = up % 0x1_0000_0000_0000_0000;
    assert(low == (n + 0x8000_0000_0000_0000) % 0x1_0000_0000_0000_0000);
    (low - 0x8000_0000_0000_0000) as i64
}

fn ticks(minutes: i64, seconds: i64, ms: i128) -> (r: i64)
    requires
        -1000 * 0x8000_0000_0000_0000 <= ms <= 1000 * 0x8000_0000_0000_0000,
    ensures
        r == wrapped(ticks_of(minutes as int, seconds as int, ms as int)),
{
    let whole: i128 = (minutes as i128 * 60 + seconds as i128) * 1000;
    wrap_i64((whole + ms) * 10_000)
}

fn parse_timestamp(cs: &[char]) -> (r: Option<i64>)
    ensures
        opt_int(r) == timestamp(cs@),
{
    let (m, rest) = match split_once_chars(cs, ':') {
        None => {
            return None;
        },
        Some(p) => p,
    };
    let minutes: i64 = match parse_i64_chars(trim_chars(m)) {
        None => {
            return None;
        },
        Some(n) => n,
    };
    match split_once_chars(rest, '.') {
        None => match parse_i64_chars(trim_chars(rest)) {
            None => None,
            Some(seconds) => Some(ticks(minutes, seconds, 0)),
        },
        Some((sec, frac)) => {
            let digits: &[char] = trim_chars(frac);
            match (parse_i64_chars(trim_chars(sec)), parse_i64_chars(digits)) {
                (Some(seconds), Some(value)) => {
                    let ms: i128 = if digits.len() == 1 {
                        value as i128 * 100
                    } else if digits.len() == 2 {
                        value as i128 * 10
                    } else {
                        value as i128
                    };
                    Some(ticks(minutes, seconds, ms))
                },
                _ => None,
            }
        },
    }
}

/// The ticks that a time in a lyric file stands for; `None` where the text is no
/// time.
pub fn parse_lrc_timestamp(inner: &str) -> (r: Option<i64>)
    ensures
        opt_int(r) == timestamp(inner@),
{
    parse_timestamp(chars_of(inner).as_slice())
}

// ---------------------------------------------------------------------------
// Laws of times
// ---------------------------------------------------------------------------
/// The text `minutes:seconds`.
pub open spec fn whole_time(minutes: Seq<char>, seconds: Seq<char>) -> Seq<char> {
    minutes + seq![':'] + seconds
}

/// The text `minutes:seconds.fraction`.
pub open spec fn split_time(
    minutes: Seq<char>,
    seconds: Seq<char>,
    fraction: Seq<char>,
) -> Seq<char> {
    minutes + seq![':'] + (seconds + seq!['.'] + fraction)
}

proof fn lemma_digits_are_trimmed(s: Seq<char>)
    requires
        is_digits(s),
    ensures
        trimmed(s) == s,
        parsed_int(s) == Some(digits_value(s)),
{
    assert(digit_value(s[0]) >= 0);
    assert(digit_value(s[s.len() - 1]) >= 0);
}

proof fn lemma_cut_behind_digits(s: Seq<char>, d: char, rest: Seq<char>)
    requires
        is_digits(s),
        digit_value(d) < 0,
    ensures
        split_once(s + seq![d] + rest, d) == Some((s, rest)),
{
    let t = s + seq![d] + rest;
    assert forall|i: int| 0 <= i < s.len() implies !is_char(d)(#[trigger] t[i]) by {
        assert(t[i] == s[i]);
    }
    assert(t[s.len() as int] == d);
    lemma_first_index_unique(t, is_char(d), s.len() as int);
    assert(t.take(s.len() as int) =~= s);
    assert(t.skip(s.len() as int + 1) =~= rest);
}

proof fn lemma_split_time(m: Seq<char>, s: Seq<char>, f: Seq<char>)
    requires
        is_digits(m),
        is_digits(s),
        is_digits(f),
        digits_value(m) <= i64::MAX,
        digits_value(s) <= i64::MAX,
        digits_value(f) <= i64::MAX,
    ensures
        timestamp(split_time(m, s, f)) == Some(
            wrapped(
                ticks_of(
                    digits_value(m),
                    digits_value(s),
                    fraction_ms(f.len() as int, digits_value(f)),
                ),
            ),
        ),
{
    lemma_digits_are_trimmed(m);
    lemma_digits_are_trimmed(s);
    lemma_digits_are_trimmed(f);
    lemma_digits_are_positive(m);
    lemma_digits_are_positive(s);
    lemma_digits_are_positive(f);
    lemma_cut_behind_digits(m, ':', s + seq!['.'] + f);
    lemma_cut_behind_digits(s, '.', f);
}

proof fn lemma_digits_are_positive(s: Seq<char>)
    requires
        forall|i: int| 0 <= i < s.len() ==> digit_value(#[trigger] s[i]) >= 0,
    ensures
        digits_value(s) >= 0,
    decreases s.len(),
{
    if s.len() > 0 {
        lemma_digits_are_positive(s.drop_last());
        assert(digit_value(s[s.len() - 1]) >= 0);
    }
}

proof fn lemma_zero_behind(s: Seq<char>)
    requires
        is_digits(s),
    ensures
        is_digits(s.push('0')),
        digits_value(s.push('0')) == 10 * digits_value(s),
{
    assert(s.push('0').drop_last() =~= s);
    assert(digit_value('0') == 0);
}

proof fn lemma_short_digits(s: Seq<char>)
    requires
        is_digits(s),
        s.len() <= 2,
    ensures
        digits_value(s) < 100,
{
    reveal_with_fuel(digits_value, 3);
    assert(digit_value(s[0]) <= 9);
    assert(digit_value(s[s.len() - 1]) <= 9);
    assert(s.drop_last().drop_last().len() == 0 || s.len() == 1);
}

/// A zero behind the fraction of a second does not matter, up to milliseconds:
/// `m:s.f`, `m:s.f0` and `m:s.f00` are one time.
pub proof fn law_zeros_behind_the_fraction(m: Seq<char>, s: Seq<char>, f: Seq<char>)
    requires
        is_digits(m),
        is_digits(s),
        is_digits(f),
        digits_value(m) <= i64::MAX,
        digits_value(s) <= i64::MAX,
        f.len() <= 2,
    ensures
        timestamp(split_time(m, s, f)) is Some,
        timestamp(split_time(m, s, f)) == timestamp(split_time(m, s, f.push('0'))),
        f.len() == 1 ==> timestamp(split_time(m, s, f)) == timestamp(
            split_time(m, s, f.push('0').push('0')),
        ),
{
    lemma_short_digits(f);
    lemma_zero_behind(f);
    lemma_zero_behind(f.push('0'));
    lemma_split_time(m, s, f);
    lemma_split_time(m, s, f.push('0'));
    lemma_split_time(m, s, f.push('0').push('0'));
}

/// A time in whole seconds is the time with the fraction zero: `m:s` and `m:s.0`
/// are one time.
pub proof fn law_whole_seconds(m: Seq<char>, s: Seq<char>)
    requires
        is_digits(m),
        is_digits(s),
        digits_value(m) <= i64::MAX,
        digits_value(s) <= i64::MAX,
    ensures
        timestamp(whole_time(m, s)) is Some,
        timestamp(whole_time(m, s)) == timestamp(split_time(m, s, seq!['0'])),
{
    let zero = seq!['0'];
    assert(is_digits(zero) && digits_value(zero) == 0) by {
        assert(digit_value('0') == 0);
        reveal_with_fuel(digits_value, 2);
    }
    lemma_split_time(m, s, zero);
    lemma_digits_are_trimmed(m);
    lemma_digits_are_trimmed(s);
    lemma_digits_are_positive(m);
    lemma_digits_are_positive(s);
    lemma_cut_behind_digits(m, ':', s);
    assert(split_once(s, '.') is None) by {
        assert forall|i: int| 0 <= i < s.len() implies !is_char('.')(#[trigger] s[i]) by {
            assert(digit_value(s[i]) >= 0);
        }
        lemma_first_index_unique(s, is_char('.'), s.len() as int);
    }
}

// ---------------------------------------------------------------------------
// Tags
// ---------------------------------------------------------------------------
/// The ticks that a number of milliseconds stands for.
pub open spec fn offset_ticks(s: Seq<char>) -> Option<int> {
    match int64(trimmed(s)) {
        Some(ms) => Some(wrapped(ms * TICKS_PER_MS)),
        None => None,
    }
}

/// The metadata with a fact set by the tag `tag`. A tag that is not known
/// changes nothing.
pub open spec fn with_tag(m: MetadataView, tag: Seq<char>, value: Seq<char>) -> MetadataView {
    let t = ascii_lower(tag);
    if t == "ar"@ {
        MetadataView { artist: Some(value), ..m }
    } else if t == "al"@ {
        MetadataView { album: Some(value), ..m }
    } else if t == "ti"@ {
        MetadataView { title: Some(value), ..m }
    } else if t == "au"@ {
        MetadataView { author: Some(value), ..m }
    } else if t == "by"@ {
        MetadataView { by: Some(value), ..m }
    } else if t == "re"@ || t == "creator"@ {
        MetadataView { creator: Some(value), ..m }
    } else if t == "ve"@ || t == "version"@ {
        MetadataView { version: Some(value), ..m }
    } else if t == "length"@ {
        MetadataView { length: timestamp(value), ..m }
    } else if t == "offset"@ {
        MetadataView { offset: offset_ticks(value), ..m }
    } else {
        m
    }
}

fn parse_offset(value: &str) -> (r: Option<i64>)
    ensures
        opt_int(r) == offset_ticks(value@),
{
    let cs: Vec<char> = chars_of(value);
    match parse_i64_chars(trim_chars(cs.as_slice())) {
        Some(ms) => Some(wrap_i64(ms as i128 * 10_000)),
        None => None,
    }
}

/// Sets a fact about the song.
pub fn apply_metadata_tag(metadata: &mut LyricMetadata, tag: &str, value: &str)
    ensures
        final(metadata)@ == with_tag(old(metadata)@, tag@, value@),
{
    let t: String = to_ascii_lowercase(tag);
    let t: &str = t.as_str();
    if same_text(t, "ar") {
        metadata.artist = Some(value.to_owned());
    } else if same_text(t, "al") {
        metadata.album = Some(value.to_owned());
    } else if same_text(t, "ti") {
        metadata.title = Some(value.to_owned());
    } else if same_text(t, "au") {
        metadata.author = Some(value.to_owned());
    } else if same_text(t, "by") {
        metadata.by = Some(value.to_owned());
    } else if same_text(t, "re") || same_text(t, "creator") {
        metadata.creator = Some(value.to_owned());
    } else if same_text(t, "ve") || same_text(t, "version") {
        metadata.version = Some(value.to_owned());
    } else if same_text(t, "length") {
        metadata.length = parse_lrc_timestamp(value);
    } else if same_text(t, "offset") {
        metadata.offset = parse_offset(value);
    }
}

/// The tag in square brackets that `s` begins with, and what follows it, without
/// leading blanks.
pub open spec fn tag_of(s: Seq<char>) -> Option<(Seq<char>, Seq<char>)> {
    if s.len() > 0 && s[0] == '[' {
        match split_once(s.drop_first(), ']') {
            Some((inner, rest)) => Some((inner, strip_start(rest, whitespace()))),
            None => None,
        }
    } else {
        None
    }
}

proof fn lemma_strip_start_len(s: Seq<char>, p: spec_fn(char) -> bool)
    ensures
        strip_start(s, p).len() <= s.len(),
    decreases s.len(),
{
    if s.len() > 0 && p(s[0]) {
        lemma_strip_start_len(s.drop_first(), p);
    }
}

proof fn lemma_tag_len(s: Seq<char>)
    ensures
        tag_of(s) matches Some((inner, rest)) ==> rest.len() < s.len(),
{
    if tag_of(s) is Some {
        let t = s.drop_first();
        lemma_first_index(t, is_char(']'));
        lemma_strip_start_len(t.skip(first_index(t, is_char(']')) + 1), whitespace());
    }
}

/// The metadata after one tag: a tag that is no time and holds a colon sets a
/// fact.
pub open spec fn after_tag(m: MetadataView, inner: Seq<char>) -> MetadataView {
    if timestamp(inner) is Some {
        m
    } else {
        match split_once(inner, ':') {
            Some((tag, value)) => with_tag(m, trimmed(tag), trimmed(value)),
            None => m,
        }
    }
}

/// The metadata after the tags that a line begins with.
pub open spec fn after_tags(m: MetadataView, s: Seq<char>) -> MetadataView
    decreases s.len(),
    via after_tags_decreases
{
    match tag_of(s) {
        Some((inner, rest)) => after_tags(after_tag(m, inner), rest),
        None => m,
    }
}

#[via_fn]
proof fn after_tags_decreases(m: MetadataView, s: Seq<char>) {
    lemma_tag_len(s);
}

/// The times among the tags that a line begins with.
pub open spec fn times_of(s: Seq<char>) -> Seq<int>
    decreases s.len(),
    via times_of_decreases
{
    match tag_of(s) {
        Some((inner, rest)) => match timestamp(inner) {
            Some(t) => seq![t] + times_of(rest),
            None => times_of(rest),
        },
        None => Seq::empty(),
    }
}

#[via_fn]
proof fn times_of_decreases(s: Seq<char>) {
    lemma_tag_len(s);
}

/// What follows the tags that a line begins with.
pub open spec fn words_of(s: Seq<char>) -> Seq<char>
    decreases s.len(),
    via words_of_decreases
{
    match tag_of(s) {
        Some((inner, rest)) => words_of(rest),
        None => trimmed(s),
    }
}

#[via_fn]
proof fn words_of_decreases(s: Seq<char>) {
    lemma_tag_len(s);
}

// ---------------------------------------------------------------------------
// Timed lyrics
// ---------------------------------------------------------------------------
/// The metadata that the lines of a file give.
pub open spec fn metadata_of(lines: Seq<Seq<char>>) -> MetadataView
    decreases lines.len(),
{
    if lines.len() == 0 {
        no_metadata()
    } else {
        after_tags(metadata_of(lines.drop_last()), trimmed(lines.last()))
    }
}

/// The line that is sung at the time `at`.
pub open spec fn line_at(text: Seq<char>, at: int) -> LineView {
    LineView { text, start: Some(at) }
}

/// The text of a line, once for each of its times.
pub open spec fn timed(text: Seq<char>, times: Seq<int>) -> Seq<LineView> {
    Seq::new(times.len(), |i: int| line_at(text, times[i]))
}

/// The lines that have times, once for each time, in the order of the file.
pub open spec fn timed_lines(lines: Seq<Seq<char>>) -> Seq<LineView>
    decreases lines.len(),
{
    if lines.len() == 0 {
        Seq::empty()
    } else {
        let s = trimmed(lines.last());
        timed_lines(lines.drop_last()) + timed(words_of(s), times_of(s))
    }
}

/// When a line is sung; at the beginning where no time is known.
pub open spec fn start_of(l: LineView) -> int {
    match l.start {
        Some(t) => t,
        None => 0,
    }
}

/// Lines in the order in which they are sung.
pub open spec fn by_start() -> spec_fn(LineView, LineView) -> bool {
    |a: LineView, b: LineView| start_of(a) < start_of(b)
}

/// The lyrics that a timed file holds.
pub open spec fn timed_lyrics(content: Seq<char>) -> LyricView {
    let lines = timed_lines(lines_of(content));
    LyricView {
        metadata: MetadataView {
            is_synced: Some(lines.len() > 0),
            ..metadata_of(lines_of(content))
        },
        lyrics: sorted(lines, by_start()),
    }
}

/// The integers that times stand for.
pub open spec fn ints(v: Seq<i64>) -> Seq<int> {
    Seq::new(v.len(), |i: int| v[i] as int)
}

/// Takes the tags off the front of a line: notes the facts that they give, and
/// returns the times and the words.
fn read_line(metadata: &mut LyricMetadata, line: &str) -> (r: (Vec<i64>, String))
    ensures
        final(metadata)@ == after_tags(old(metadata)@, trimmed(line@)),
        ints(r.0@) == times_of(trimmed(line@)),
        r.1@ == words_of(trimmed(line@)),
{
    let all: Vec<char> = chars_of(line);
    let mut rest: &[char] = trim_chars(all.as_slice());
    let mut times: Vec<i64> = Vec::new();
    let ghost s = rest@;
    let ghost m = metadata@;
    assert(ints(times@) + times_of(rest@) =~= times_of(s));
    loop
        invariant_except_break
            after_tags(m, s) == after_tags(metadata@, rest@),
            times_of(s) == ints(times@) + times_of(rest@),
            words_of(s) == words_of(rest@),
        ensures
            metadata@ == after_tags(m, s),
            ints(times@) == times_of(s),
            words_of(s) == trimmed(rest@),
        decreases rest@.len(),
    {
        proof {
            lemma_tag_len(rest@);
        }
        if rest.len() == 0 || rest[0] != '[' {
            assert(ints(times@) + Seq::<int>::empty() =~= ints(times@));
            break;
        }
        let stripped: &[char] = slice_subrange(rest, 1, rest.len());
        assert(stripped@ =~= rest@.drop_first());
        match split_once_chars(stripped, ']') {
            None => {
                assert(ints(times@) + Seq::<int>::empty() =~= ints(times@));
                break;
            },
            Some((inner, tail)) => {
                match parse_timestamp(inner) {
                    Some(t) => {
                        let ghost before = ints(times@);
                        let ghost later = times_of(strip_start(tail@, whitespace()));
                        times.push(t);
                        assert(ints(times@) =~= before.push(t as int));
                        assert(before + (seq![t as int] + later) =~= before.push(t as int)
                            + later);
                    },
                    None => match split_once_chars(inner, ':') {
                        Some((tag, value)) => {
                            let tag: String = string_of(trim_chars(tag));
                            let value: String = string_of(trim_chars(value));
                            apply_metadata_tag(metadata, tag.as_str(), value.as_str());
                        },
                        None => {},
                    },
                }
                rest = trim_start_chars(tail);
            },
        }
    }
    (times, string_of(trim_chars(rest)))
}

/// Adds a line for each time.
fn push_timed(lines: &mut Vec<LyricLine>, text: &str, times: &Vec<i64>)
    ensures
        line_views(final(lines)@) == line_views(old(lines)@) + timed(text@, ints(times@)),
{
    let ghost before = line_views(lines@);
    let ghost all = timed(text@, ints(times@));
    let mut i: usize = 0;
    assert(before + all.take(0) =~= before);
    while i < times.len()
        invariant
            i <= times.len(),
            all == timed(text@, ints(times@)),
            line_views(lines@) == before + all.take(i as int),
        decreases times.len() - i,
    {
        let line: LyricLine = LyricLine { text: text.to_owned(), start: Some(times[i]) };
        let ghost shown = line_views(lines@);
        assert(line@ == all[i as int]);
        lines.push(line);
        i += 1;
        assert(line_views(lines@) =~= shown.push(all[i - 1]));
        assert(before + all.take(i as int) =~= (before + all.take(i - 1)).push(all[i - 1]));
    }
    assert(all.take(all.len() as int) =~= all);
}

fn start_or_zero(l: &LyricLine) -> (r: i64)
    ensures
        r == start_of(l@),
{
    match l.start {
        Some(t) => t,
        None => 0,
    }
}

/// Reads a timed lyric file: the facts it gives, and its lines in the order in
/// which they are sung.
pub fn parse_lrc(content: &str) -> (r: LyricDto)
    ensures
        r@ == timed_lyrics(content@),
{
    let rows: Vec<String> = text_lines(content);
    let ghost all = lines_of(content@);
    let mut metadata: LyricMetadata = LyricMetadata::default();
    let mut lines: Vec<LyricLine> = Vec::new();
    let mut i: usize = 0;
    assert(line_views(lines@) =~= timed_lines(all.take(0)));
    while i < rows.len()
        invariant
            i <= rows.len(),
            texts(rows@) == all,
            metadata@ == metadata_of(all.take(i as int)),
            line_views(lines@) == timed_lines(all.take(i as int)),
        decreases rows.len() - i,
    {
        let (times, text) = read_line(&mut metadata, rows[i].as_str());
        push_timed(&mut lines, text.as_str(), &times);
        i += 1;
        assert(all.take(i as int).drop_last() =~= all.take(i - 1));
        assert(all.take(i as int).last() == rows@[i - 1]@);
    }
    assert(all.take(all.len() as int) =~= all);
    assert(all.len() == rows.len());
    let ghost less = |a: LyricLine, b: LyricLine| start_of(a@) < start_of(b@);
    let before = |a: &LyricLine, b: &LyricLine| -> (c: bool)
        ensures
            c == (start_of(a@) < start_of(b@)),
        { start_or_zero(a) < start_or_zero(b) };
    metadata.is_synced = Some(lines.len() > 0);
    proof {
        lemma_sorted_through(lines@, less, |l: LyricLine| l@, by_start());
        assert(line_views(lines@).len() == lines@.len());
    }
    LyricDto { metadata, lyrics: sort_by(lines, before, Ghost(less)) }
}

/// The lines of a timed file come in the order in which they are sung, and it
/// counts as timed exactly when it has one.
pub proof fn law_timed_lines_are_in_order(content: Seq<char>)
    ensures
        in_order(timed_lyrics(content).lyrics, by_start()),
        timed_lyrics(content).metadata.is_synced == Some(timed_lyrics(content).lyrics.len() > 0),
{
    let lines = timed_lines(lines_of(content));
    law_sorted(lines, by_start());
    assert(is_order(by_start()));
}

// ---------------------------------------------------------------------------
// Plain lyrics
// ---------------------------------------------------------------------------
/// The lines that hold more than blanks, without the blanks that end them.
pub open spec fn plain_lines(lines: Seq<Seq<char>>) -> Seq<LineView>
    decreases lines.len(),
{
    if lines.len() == 0 {
        Seq::empty()
    } else {
        let head = plain_lines(lines.drop_last());
        let text = strip_end(lines.last(), whitespace());
        if trimmed(text).len() == 0 {
            head
        } else {
            head.push(LineView { text, start: None })
        }
    }
}

/// The lyrics that a plain file holds.
pub open spec fn plain_lyrics(content: Seq<char>) -> LyricView {
    LyricView {
        metadata: MetadataView { is_synced: Some(false), ..no_metadata() },
        lyrics: plain_lines(lines_of(content)),
    }
}

/// Reads a plain lyric file: its lines, without times.
pub fn parse_txt(content: &str) -> (r: LyricDto)
    ensures
        r@ == plain_lyrics(content@),
{
    let rows: Vec<String> = text_lines(content);
    let ghost all = lines_of(content@);
    let mut lines: Vec<LyricLine> = Vec::new();
    let mut i: usize = 0;
    assert(line_views(lines@) =~= plain_lines(all.take(0)));
    while i < rows.len()
        invariant
            i <= rows.len(),
            texts(rows@) == all,
            line_views(lines@) == plain_lines(all.take(i as int)),
        decreases rows.len() - i,
    {
        let cs: Vec<char> = chars_of(rows[i].as_str());
        let text: &[char] = trim_end_chars(cs.as_slice());
        let ghost before = line_views(lines@);
        if trim_chars(text).len() > 0 {
            let line: LyricLine = LyricLine { text: string_of(text), start: None };
            lines.push(line);
            assert(line_views(lines@) =~= before.push(line@));
        }
        i += 1;
        assert(all.take(i as int).drop_last() =~= all.take(i - 1));
        assert(all.take(i as int).last() == rows@[i - 1]@);
    }
    assert(all.take(all.len() as int) =~= all);
    let mut metadata: LyricMetadata = LyricMetadata::default();
    metadata.is_synced = Some(false);
    LyricDto { metadata, lyrics: lines }
}

/// The lyrics that a text of the given format holds: `txt` is plain, anything
/// else is timed.
pub open spec fn lyrics_of_format(format: Seq<char>, text: Seq<char>) -> LyricView {
    if same_ignoring_case(format, "txt"@) {
        plain_lyrics(text)
    } else {
        timed_lyrics(text)
    }
}

/// Reads lyrics of the given format.
pub fn parse_by_format(format: &str, text: &str) -> (r: LyricDto)
    ensures
        r@ == lyrics_of_format(format@, text@),
{
    if eq_ignore_ascii_case(format, "txt") {
        parse_txt(text)
    } else {
        parse_lrc(text)
    }
}

// ---------------------------------------------------------------------------
// Files beside the media
// ---------------------------------------------------------------------------
/// The extensions of lyric files, the first being looked for first.
pub open spec fn lyric_extensions() -> Seq<Seq<char>> {
    seq!["lrc"@, "elrc"@, "txt"@]
}

/// The paths at which lyrics for a media file may stand, in the order in which
/// they are looked for.
pub open spec fn sidecars(media_path: Seq<char>) -> Seq<Seq<char>> {
    seq![
        path_with_extension(media_path, "lrc"@),
        path_with_extension(media_path, "elrc"@),
        path_with_extension(media_path, "txt"@),
    ]
}

/// The paths at which lyrics for a media file may stand. Deleting the lyrics of
/// an item removes what stands there.
pub fn sidecar_candidates(media_path: &str) -> (r: Vec<String>)
    ensures
        texts(r@) == sidecars(media_path@),
{
    let a: String = replace_extension(media_path, "lrc");
    let b: String = replace_extension(media_path, "elrc");
    let c: String = replace_extension(media_path, "txt");
    let r: Vec<String> = vec![a, b, c];
    assert(texts(r@) =~= sidecars(media_path@));
    r
}

/// The lyric file of a media file: the first of its candidates that is there.
/// `present` says of each candidate whether it is.
pub fn sidecar_for(media_path: &str, present: &Vec<bool>) -> (r: Option<String>)
    requires
        present@.len() == 3,
    ensures
        match r {
            Some(p) => exists|i: int|
                #![trigger present@[i]]
                0 <= i < 3 && present@[i] && p@ == sidecars(media_path@)[i] && forall|j: int|
                    0 <= j < i ==> !#[trigger] present@[j],
            None => forall|i: int| 0 <= i < 3 ==> !#[trigger] present@[i],
        },
{
    let all: Vec<String> = sidecar_candidates(media_path);
    assert(texts(all@).len() == 3);
    let mut i: usize = 0;
    while i < 3
        invariant
            i <= 3,
            present@.len() == 3,
            all@.len() == 3,
            texts(all@) == sidecars(media_path@),
            forall|j: int| 0 <= j < i ==> !#[trigger] present@[j],
        decreases 3 - i,
    {
        if present[i] {
            assert(all@[i as int]@ == sidecars(media_path@)[i as int]) by {
                assert(texts(all@)[i as int] == all@[i as int]@);
            }
            return Some(all[i].clone());
        }
        i += 1;
    }
    None
}

/// The lyrics that the lyric file at `path` holds: a file with an extension
/// other than `txt` is timed.
pub open spec fn lyrics_at(path: Seq<char>, content: Seq<char>) -> LyricView {
    match extension(path) {
        Some(ext) => if same_ignoring_case(ext, "txt"@) {
            plain_lyrics(content)
        } else {
            timed_lyrics(content)
        },
        None => plain_lyrics(content),
    }
}

/// Reads the lyric file at `sidecar`, which holds `content`.
pub fn read_sidecar(sidecar: &str, content: &str) -> (r: LyricDto)
    ensures
        r@ == lyrics_at(sidecar@, content@),
{
    match path_extension(sidecar) {
        Some(ext) => if eq_ignore_ascii_case(ext.as_str(), "txt") {
            parse_txt(content)
        } else {
            parse_lrc(content)
        },
        None => parse_txt(content),
    }
}

/// A lyric file to write, and the lyrics that it holds.
#[derive(Debug, Clone)]
pub struct SavedLyric {
    pub path: String,
    pub text: String,
    pub lyrics: LyricDto,
}

/// The extension for an uploaded file: the given one, without blanks and leading
/// dots and in lower case, if lyric files have it; else `lrc`.
pub open spec fn upload_extension(format: Seq<char>) -> Seq<char> {
    let e = ascii_lower(strip_start(trimmed(format), is_char('.')));
    if lyric_extensions().contains(e) {
        e
    } else {
        "lrc"@
    }
}

fn upload_extension_of(format: &str) -> (r: String)
    ensures
        r@ == upload_extension(format@),
{
    let cs: Vec<char> = chars_of(format);
    let bare: String = string_of(trim_start_of(trim_chars(cs.as_slice()), '.'));
    let e: String = to_ascii_lowercase(bare.as_str());
    proof {
        let l = lyric_extensions();
        assert(l[0] == "lrc"@ && l[1] == "elrc"@ && l[2] == "txt"@);
        if l.contains(e@) {
            let k = choose|k: int| 0 <= k < l.len() && l[k] == e@;
            assert(k == 0 || k == 1 || k == 2);
        }
    }
    if same_text(e.as_str(), "lrc") || same_text(e.as_str(), "elrc") || same_text(
        e.as_str(),
        "txt",
    ) {
        e
    } else {
        "lrc".to_owned()
    }
}

/// The lyrics that an upload holds.
pub open spec fn uploaded_lyrics(format: Seq<char>, text: Seq<char>) -> LyricView {
    if upload_extension(format) == "txt"@ {
        plain_lyrics(text)
    } else {
        timed_lyrics(text)
    }
}

/// The error for an item without a media path.
pub open spec fn no_media_path() -> ErrorView {
    ErrorView::NotFound("item has no media path for lyrics"@)
}

/// An item's media path, unless it is empty.
pub fn item_path(path: Option<String>) -> (r: Option<String>)
    ensures
        opt_text(r) == media_path_of(opt_text(path)),
{
    match path {
        Some(p) => if p.as_str().unicode_len() > 0 {
            Some(p)
        } else {
            None
        },
        None => None,
    }
}

/// A media path, unless it is empty.
pub open spec fn media_path_of(path: Option<Seq<char>>) -> Option<Seq<char>> {
    match path {
        Some(p) => if p.len() > 0 {
            Some(p)
        } else {
            None
        },
        None => None,
    }
}

/// An upload: where to write it, and the lyrics that it holds.
pub fn save_lyric(path: Option<String>, format: &str, lyrics: &str) -> (r: Result<
    SavedLyric,
    ServiceError,
>)
    ensures
        r is Ok <==> media_path_of(opt_text(path)) is Some,
        match r {
            Ok(s) => {
                &&& s.path@ == path_with_extension(path->0@, upload_extension(format@))
                &&& s.text@ == lyrics@
                &&& s.lyrics@ == uploaded_lyrics(format@, lyrics@)
            },
            Err(e) => e@ == no_media_path(),
        },
{
    match item_path(path) {
        None => Err(ServiceError::NotFound("item has no media path for lyrics".to_owned())),
        Some(p) => {
            let ext: String = upload_extension_of(format);
            let parsed: LyricDto = if same_text(ext.as_str(), "txt") {
                parse_txt(lyrics)
            } else {
                parse_lrc(lyrics)
            };
            Ok(
                SavedLyric {
                    path: replace_extension(p.as_str(), ext.as_str()),
                    text: lyrics.to_owned(),
                    lyrics: parsed,
                },
            )
        },
    }
}

/// What was uploaded is read back: the file that was written holds the lyrics
/// that the upload gave.
pub proof fn law_upload_reads_back(media_path: Seq<char>, format: Seq<char>, text: Seq<char>)
    requires
        file_name(media_path) is Some,
    ensures
        lyrics_at(path_with_extension(media_path, upload_extension(format)), text)
            == uploaded_lyrics(format, text),
{
    let e = upload_extension(format);
    let l = lyric_extensions();
    assert(l[0] == "lrc"@ && l[1] == "elrc"@ && l[2] == "txt"@);
    reveal_strlit("lrc");
    reveal_strlit("elrc");
    reveal_strlit("txt");
    assert(l.contains(e)) by {
        if !l.contains(ascii_lower(strip_start(trimmed(format), is_char('.')))) {
            assert(l[0] == e);
        }
    }
    let k = choose|k: int| 0 <= k < l.len() && l[k] == e;
    assert(k == 0 || k == 1 || k == 2);
    assert(e == "lrc"@ || e == "elrc"@ || e == "txt"@);
    law_extension_is_replaced(media_path, e);
    if e != "txt"@ {
        assert(ascii_lower(e) =~= e);
        assert(ascii_lower("txt"@) =~= "txt"@);
    }
}

// ---------------------------------------------------------------------------
// Providers
// ---------------------------------------------------------------------------
/// A remote lyric provider: its name, and the identifier made from it.
#[derive(Debug, Clone)]
pub struct LyricProviderInfo {
    pub name: String,
    pub id: String,
}

/// What the identifier of a provider is made from: its name in lower case.
pub fn provider_key(name: &str) -> (r: String)
    ensures
        r@ == lowercase(name@),
{
    to_lowercase(name)
}

/// Lyrics as a provider sends them.
#[derive(Debug, Clone)]
pub struct LyricResponse {
    pub format: String,
    pub text: String,
}

/// What a provider found.
#[derive(Debug, Clone)]
pub struct RemoteLyricInfo {
    pub id: String,
    pub provider_name: String,
    pub metadata: LyricMetadata,
    pub lyrics: LyricResponse,
}

/// What a search shows of what a provider found.
#[derive(Debug, Clone)]
pub struct RemoteLyricInfoDto {
    pub id: String,
    pub provider_name: String,
    pub lyrics: LyricDto,
}

impl RemoteLyricInfoDto {
    /// Whether this shows `found`, of the provider with the identifier
    /// `namespace`: the identifier names the provider too, the text is read, and
    /// the metadata is the provider's.
    pub open spec fn shows(&self, namespace: Seq<char>, found: RemoteLyricInfo) -> bool {
        &&& self.id@ == namespace + "_"@ + found.id@
        &&& self.provider_name@ == found.provider_name@
        &&& self.lyrics@ == (LyricView {
            metadata: found.metadata@,
            lyrics: lyrics_of_format(found.lyrics.format@, found.lyrics.text@).lyrics,
        })
    }
}

/// What a search shows of what the provider with the identifier `namespace`
/// found.
pub fn search_results(namespace: &str, results: Vec<RemoteLyricInfo>) -> (r: Vec<
    RemoteLyricInfoDto,
>)
    ensures
        r@.len() == results@.len(),
        forall|i: int| 0 <= i < r@.len() ==> (#[trigger] r@[i]).shows(namespace@, results@[i]),
{
    let ghost all = results@;
    let mut rest: Vec<RemoteLyricInfo> = results;
    let mut out: Vec<RemoteLyricInfoDto> = Vec::new();
    assert(all.skip(0) =~= all);
    while rest.len() > 0
        invariant
            out@.len() <= all.len(),
            rest@ == all.skip(out@.len() as int),
            forall|i: int|
                0 <= i < out@.len() ==> (#[trigger] out@[i]).shows(namespace@, all[i]),
        decreases rest.len(),
    {
        let found: RemoteLyricInfo = rest.remove(0);
        assert(found == all[out@.len() as int]);
        let parsed: LyricDto = parse_by_format(
            found.lyrics.format.as_str(),
            found.lyrics.text.as_str(),
        );
        let shown: RemoteLyricInfoDto = RemoteLyricInfoDto {
            id: concat3(namespace, "_", found.id.as_str()),
            provider_name: found.provider_name,
            lyrics: LyricDto { metadata: found.metadata, lyrics: parsed.lyrics },
        };
        assert(rest@ =~= all.skip(out@.len() as int + 1));
        out.push(shown);
    }
    out
}

/// The row of an audio item, as far as a search needs it.
#[derive(Debug, Clone)]
pub struct AudioRow {
    pub path: Option<String>,
    pub name: Option<String>,
    pub album: Option<String>,
    /// Names with `|` between them.
    pub album_artists: Option<String>,
    /// Names with `|` between them.
    pub artists: Option<String>,
    pub run_time_ticks: Option<i64>,
}

/// What a provider is asked for.
#[derive(Debug, Clone)]
pub struct LyricSearchRequest {
    pub media_path: Option<String>,
    pub song_name: Option<String>,
    pub album_name: Option<String>,
    pub album_artists_names: Option<Vec<String>>,
    pub artist_names: Option<Vec<String>>,
    pub duration: Option<i64>,
}

/// The texts that are not empty.
pub open spec fn filled(parts: Seq<Seq<char>>) -> Seq<Seq<char>> {
    parts.filter(|p: Seq<char>| p.len() > 0)
}

/// The names in a column that holds names with `|` between them; `None` where it
/// holds none.
pub open spec fn names_in(stored: Option<Seq<char>>) -> Option<Seq<Seq<char>>> {
    match stored {
        None => None,
        Some(s) => if filled(split(s, is_char('|'))).len() > 0 {
            Some(filled(split(s, is_char('|'))))
        } else {
            None
        },
    }
}

/// The texts that an optional list of strings stands for.
pub open spec fn opt_texts(v: Option<Vec<String>>) -> Option<Seq<Seq<char>>> {
    match v {
        Some(v) => Some(texts(v@)),
        None => None,
    }
}

fn split_multi(stored: &Option<String>) -> (r: Option<Vec<String>>)
    ensures
        opt_texts(r) == names_in(opt_text(*stored)),
{
    match stored {
        None => None,
        Some(s) => {
            let cs: Vec<char> = chars_of(s.as_str());
            let parts: Vec<String> = split_chars(cs.as_slice(), '|');
            let ghost all = split(s@, is_char('|'));
            let mut out: Vec<String> = Vec::new();
            let mut i: usize = 0;
            proof {
                assert(all.take(0) =~= Seq::<Seq<char>>::empty());
                assert(filled(all.take(0)).len() == 0) by {
                    all.take(0).lemma_filter_len(|p: Seq<char>| p.len() > 0);
                }
                assert(texts(out@) =~= filled(all.take(0)));
            }
            while i < parts.len()
                invariant
                    i <= parts.len(),
                    texts(parts@) == all,
                    texts(out@) == filled(all.take(i as int)),
                decreases parts.len() - i,
            {
                let ghost before = texts(out@);
                proof {
                    reveal(Seq::filter);
                    assert(all.take(i + 1).drop_last() =~= all.take(i as int));
                    assert(all.take(i + 1).last() == parts@[i as int]@);
                }
                if parts[i].as_str().unicode_len() > 0 {
                    out.push(parts[i].clone());
                    assert(texts(out@) =~= before.push(parts@[i as int]@));
                }
                i += 1;
            }
            assert(all.take(all.len() as int) =~= all);
            if out.len() > 0 {
                Some(out)
            } else {
                assert(texts(out@).len() == 0);
                None
            }
        },
    }
}

/// What providers are asked for, for an item.
pub fn search_request_for(item: &AudioRow) -> (r: LyricSearchRequest)
    ensures
        opt_text(r.media_path) == media_path_of(opt_text(item.path)),
        opt_text(r.song_name) == opt_text(item.name),
        opt_text(r.album_name) == opt_text(item.album),
        opt_texts(r.album_artists_names) == names_in(opt_text(item.album_artists)),
        opt_texts(r.artist_names) == names_in(opt_text(item.artists)),
        r.duration == item.run_time_ticks,
{
    LyricSearchRequest {
        media_path: item_path(item.path.clone()),
        song_name: item.name.clone(),
        album_name: item.album.clone(),
        album_artists_names: split_multi(&item.album_artists),
        artist_names: split_multi(&item.artists),
        duration: item.run_time_ticks,
    }
}

/// Which provider a download goes to, and under which identifier that provider
/// knows it.
#[derive(Debug, Clone)]
pub struct DownloadRoute {
    pub provider: usize,
    pub local_id: String,
}

/// The parts of a lyric identifier: the provider's identifier, and the one by
/// which the provider knows the lyrics. Without an underscore both are the whole.
pub open spec fn id_parts(lyric_id: Seq<char>) -> (Seq<char>, Seq<char>) {
    match split_once(lyric_id, '_') {
        Some(p) => p,
        None => (lyric_id, lyric_id),
    }
}

/// The first provider with the identifier `id`.
pub open spec fn provider_at(providers: Seq<LyricProviderInfo>, id: Seq<char>, i: int) -> bool {
    &&& 0 <= i < providers.len()
    &&& providers[i].id@ == id
    &&& forall|j: int| 0 <= j < i ==> (#[trigger] providers[j]).id@ != id
}

/// The remote lyric providers that searches and downloads go to.
#[derive(Debug, Clone)]
pub struct HermitLyricManager {
    pub providers: Vec<LyricProviderInfo>,
}

impl HermitLyricManager {
    /// A manager without providers.
    pub fn new() -> (r: Self)
        ensures
            r.providers@.len() == 0,
    {
        HermitLyricManager { providers: Vec::new() }
    }

    /// The manager with these providers.
    pub fn with_providers(self, providers: Vec<LyricProviderInfo>) -> (r: Self)
        ensures
            r.providers == providers,
    {
        HermitLyricManager { providers }
    }

    /// Which provider to ask next, after `asked` of them have been and the last
    /// found `found` results. Providers are asked one after the other until one
    /// finds something.
    pub fn next_provider(&self, asked: usize, found: usize) -> (r: Option<usize>)
        ensures
            r == (if found == 0 && asked < self.providers@.len() {
                Some(asked)
            } else {
                None::<usize>
            }),
    {
        if found == 0 && asked < self.providers.len() {
            Some(asked)
        } else {
            None
        }
    }

    /// Where a download goes; `None` where no provider has the identifier.
    pub fn route_download(&self, path: &Option<String>, lyric_id: &str) -> (r: Result<
        Option<DownloadRoute>,
        ServiceError,
    >)
        ensures
            self.providers@.len() == 0 ==> (r matches Err(e) && e@ == ErrorView::InvalidInput(
                "no remote lyric provider is configured"@,
            )),
            self.providers@.len() > 0 && media_path_of(opt_text(*path)) is None ==> (
            r matches Err(e) && e@ == no_media_path()),
            self.providers@.len() > 0 && media_path_of(opt_text(*path)) is Some ==> match r {
                Ok(Some(route)) => {
                    &&& provider_at(
                        self.providers@,
                        id_parts(lyric_id@).0,
                        route.provider as int,
                    )
                    &&& route.local_id@ == id_parts(lyric_id@).1
                },
                Ok(None) => forall|i: int|
                    0 <= i < self.providers@.len() ==> (#[trigger] self.providers@[i]).id@
                        != id_parts(lyric_id@).0,
                Err(_) => false,
            },
    {
        if self.providers.len() == 0 {
            return Err(
                ServiceError::InvalidInput("no remote lyric provider is configured".to_owned()),
            );
        }
        if item_path(path.clone()).is_none() {
            return Err(ServiceError::NotFound("item has no media path for lyrics".to_owned()));
        }
        let cs: Vec<char> = chars_of(lyric_id);
        let (namespace, local_id): (String, String) = match split_once_chars(cs.as_slice(), '_') {
            Some((a, b)) => (string_of(a), string_of(b)),
            None => (lyric_id.to_owned(), lyric_id.to_owned()),
        };
        let mut i: usize = 0;
        while i < self.providers.len()
            invariant
                i <= self.providers.len(),
                self.providers@.len() > 0,
                media_path_of(opt_text(*path)) is Some,
                (namespace@, local_id@) == id_parts(lyric_id@),
                forall|j: int|
                    0 <= j < i ==> (#[trigger] self.providers@[j]).id@ != id_parts(lyric_id@).0,
            decreases self.providers.len() - i,
        {
            if same_text(self.providers[i].id.as_str(), namespace.as_str()) {
                return Ok(Some(DownloadRoute { provider: i, local_id }));
            }
            i += 1;
        }
        Ok(None)
    }

    /// The providers that can be asked for an item: all of them for audio, none
    /// for anything else.
    pub fn get_supported_providers(&self, kind: Option<BaseItemKind>) -> (r: Vec<
        LyricProviderInfo,
    >)
        ensures
            kind != Some(BaseItemKind::Audio) ==> r@.len() == 0,
            kind == Some(BaseItemKind::Audio) ==> {
                &&& r@.len() == self.providers@.len()
                &&& forall|i: int|
                    0 <= i < r@.len() ==> (#[trigger] r@[i]).name@ == self.providers@[i].name@
                        && r@[i].id@ == self.providers@[i].id@
            },
    {
        let mut out: Vec<LyricProviderInfo> = Vec::new();
        let is_audio: bool = match kind {
            Some(BaseItemKind::Audio) => true,
            _ => false,
        };
        if !is_audio {
            return out;
        }
        let mut i: usize = 0;
        while i < self.providers.len()
            invariant
                i <= self.providers.len(),
                out@.len() == i,
                forall|j: int|
                    0 <= j < i ==> (#[trigger] out@[j]).name@ == self.providers@[j].name@
                        && out@[j].id@ == self.providers@[j].id@,
            decreases self.providers.len() - i,
        {
            let p: &LyricProviderInfo = &self.providers[i];
            out.push(LyricProviderInfo { name: p.name.clone(), id: p.id.clone() });
            i += 1;
        }
        out
    }
}

/// A download: where to write what the provider sent, and the lyrics that it
/// holds. The file stands beside the media file, with the format as its
/// extension.
pub fn downloaded(path: &str, response: LyricResponse) -> (r: SavedLyric)
    ensures
        r.path@ == path_with_extension(path@, lowercase(response.format@)),
        r.text@ == response.text@,
        r.lyrics@ == lyrics_of_format(response.format@, response.text@),
{
    let ext: String = to_lowercase(response.format.as_str());
    SavedLyric {
        path: replace_extension(path, ext.as_str()),
        lyrics: parse_by_format(response.format.as_str(), response.text.as_str()),
        text: response.text,
    }
}

} // verus!
