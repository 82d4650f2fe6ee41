//! Path and name rules of the library scanner: which paths it ignores, and the
//! key by which a name is sorted.
use vstd::prelude::*;
use vstd::slice::slice_subrange;

use crate::text::{
    ascii_lower, begins_with, char_is_whitespace, chars_of, concat, contains_text, ends_in,
    ends_with_chars, first_index, is_ascii_text, is_blank, is_either, is_whitespace, last_index,
    law_blank_is_trimmed_away, law_outer_space_is_trimmed, lemma_end_of_last_part,
    lemma_first_index, lemma_first_index_unique, lemma_last_index, lemma_split_trailing,
    lemma_strip_end_append, lemma_strips_are_stable, lemma_strips_commute, lemma_strips_to_nothing,
    lowercase, rfind_char, same_chars, same_ignoring_case, same_text, split, split_either,
    starts_with_chars, string_of, strip_end, strip_start, texts, to_lowercase, trim,
    trim_start_chars, trimmed, whitespace,
};

verus! {

/// One rule of the ignore table.
#[derive(Debug, Clone, Copy)]
pub enum IgnoreRule {
    /// The file name (the last path segment) equals this.
    FileNameEquals(&'static str),
    /// The file extension equals this.
    ExtensionEquals(&'static str),
    /// The file name is `<stem>.<ext>` or `*.<stem>.<ext>`, with a short
    /// extension.
    SampleClip(&'static str),
    /// Some path segment equals this.
    PathSegmentEquals(&'static str),
    /// Some path segment ends with this.
    PathSegmentSuffix(&'static str),
}

/// The rules by which a path is ignored. They are held against the lower-case
/// path.
pub open spec fn ignore_table() -> Seq<IgnoreRule> {
    seq![
        IgnoreRule::FileNameEquals("small.jpg"),
        IgnoreRule::FileNameEquals("albumart.jpg"),
        IgnoreRule::FileNameEquals("thumbs.db"),
        IgnoreRule::SampleClip("sample"),
        IgnoreRule::SampleClip("minta"),
        IgnoreRule::ExtensionEquals("bts"),
        IgnoreRule::ExtensionEquals("sync"),
        IgnoreRule::ExtensionEquals("trickplay"),
        IgnoreRule::PathSegmentSuffix(".trickplay"),
        IgnoreRule::PathSegmentEquals("metadata"),
        IgnoreRule::PathSegmentEquals("sample"),
        IgnoreRule::PathSegmentEquals("minta"),
        IgnoreRule::PathSegmentEquals("ps3_update"),
        IgnoreRule::PathSegmentEquals("ps3_vprm"),
        IgnoreRule::PathSegmentEquals("extrafanart"),
        IgnoreRule::PathSegmentEquals("extrathumbs"),
        IgnoreRule::PathSegmentEquals(".actors"),
        IgnoreRule::PathSegmentEquals(".wd_tv"),
        IgnoreRule::PathSegmentEquals("lost+found"),
        IgnoreRule::PathSegmentEquals("subs"),
        IgnoreRule::PathSegmentEquals(".snapshots"),
        IgnoreRule::PathSegmentEquals(".snapshot"),
        IgnoreRule::PathSegmentEquals("temprec"),
        IgnoreRule::PathSegmentEquals("tempsbe"),
        IgnoreRule::PathSegmentEquals("eadir"),
        IgnoreRule::PathSegmentEquals("@eadir"),
        IgnoreRule::PathSegmentEquals("#recycle"),
        IgnoreRule::PathSegmentEquals("@recycle"),
        IgnoreRule::PathSegmentEquals(".@__thumb"),
        IgnoreRule::PathSegmentEquals("$recycle.bin"),
        IgnoreRule::PathSegmentEquals("system volume information"),
        IgnoreRule::PathSegmentEquals(".grab"),
        IgnoreRule::PathSegmentEquals(".zfs"),
    ]
}

fn ignore_rules() -> (r: Vec<IgnoreRule>)
    ensures
        r@ == ignore_table(),
{
    vec![
        IgnoreRule::FileNameEquals("small.jpg"),
        IgnoreRule::FileNameEquals("albumart.jpg"),
        IgnoreRule::FileNameEquals("thumbs.db"),
        IgnoreRule::SampleClip("sample"),
        IgnoreRule::SampleClip("minta"),
        IgnoreRule::ExtensionEquals("bts"),
        IgnoreRule::ExtensionEquals("sync"),
        IgnoreRule::ExtensionEquals("trickplay"),
        IgnoreRule::PathSegmentSuffix(".trickplay"),
        IgnoreRule::PathSegmentEquals("metadata"),
        IgnoreRule::PathSegmentEquals("sample"),
        IgnoreRule::PathSegmentEquals("minta"),
        IgnoreRule::PathSegmentEquals("ps3_update"),
        IgnoreRule::PathSegmentEquals("ps3_vprm"),
        IgnoreRule::PathSegmentEquals("extrafanart"),
        IgnoreRule::PathSegmentEquals("extrathumbs"),
        IgnoreRule::PathSegmentEquals(".actors"),
        IgnoreRule::PathSegmentEquals(".wd_tv"),
        IgnoreRule::PathSegmentEquals("lost+found"),
        IgnoreRule::PathSegmentEquals("subs"),
        IgnoreRule::PathSegmentEquals(".snapshots"),
        IgnoreRule::PathSegmentEquals(".snapshot"),
        IgnoreRule::PathSegmentEquals("temprec"),
        IgnoreRule::PathSegmentEquals("tempsbe"),
        IgnoreRule::PathSegmentEquals("eadir"),
        IgnoreRule::PathSegmentEquals("@eadir"),
        IgnoreRule::PathSegmentEquals("#recycle"),
        IgnoreRule::PathSegmentEquals("@recycle"),
        IgnoreRule::PathSegmentEquals(".@__thumb"),
        IgnoreRule::PathSegmentEquals("$recycle.bin"),
        IgnoreRule::PathSegmentEquals("system volume information"),
        IgnoreRule::PathSegmentEquals(".grab"),
        IgnoreRule::PathSegmentEquals(".zfs"),
    ]
}

/// What stands before the last dot of a file name that has one.
pub open spec fn stem_of(file_name: Seq<char>) -> Seq<char> {
    file_name.take(last_index(file_name, '.'))
}

/// What stands after the last dot of a file name that has one.
pub open spec fn extension_of(file_name: Seq<char>) -> Seq<char> {
    file_name.skip(last_index(file_name, '.') + 1)
}

/// Whether `file_name` is `<stem>.<ext>` or `*.<stem>.<ext>`, where `<ext>` is
/// one to five characters long.
pub open spec fn sample_clip(file_name: Seq<char>, stem: Seq<char>) -> bool {
    &&& last_index(file_name, '.') >= 0
    &&& 1 <= extension_of(file_name).len() <= 5
    &&& stem_of(file_name) == stem || ends_in(stem_of(file_name), "."@ + stem)
}

/// Whether a rule holds of a lower-case path, given its segments and its file
/// name.
pub open spec fn rule_holds(
    rule: IgnoreRule,
    lower_path: Seq<char>,
    segments: Seq<Seq<char>>,
    file_name: Seq<char>,
) -> bool {
    match rule {
        IgnoreRule::FileNameEquals(name) => file_name == name@,
        IgnoreRule::ExtensionEquals(ext) => last_index(file_name, '.') >= 0 && extension_of(
            file_name,
        ) == ext@,
        IgnoreRule::SampleClip(stem) => sample_clip(file_name, stem@),
        IgnoreRule::PathSegmentEquals(seg) => segments.contains(seg@),
        IgnoreRule::PathSegmentSuffix(suffix) => (exists|i: int|
            0 <= i < segments.len() && ends_in(#[trigger] segments[i], suffix@)) || ends_in(
            lower_path,
            suffix@,
        ),
    }
}

/// The elements that are not empty.
pub open spec fn non_empty(parts: Seq<Seq<char>>) -> Seq<Seq<char>>
    decreases parts.len(),
{
    if parts.len() == 0 {
        Seq::empty()
    } else if parts.last().len() == 0 {
        non_empty(parts.drop_last())
    } else {
        non_empty(parts.drop_last()).push(parts.last())
    }
}

/// The segments of a path, between slashes of either kind.
pub open spec fn path_segments(path: Seq<char>) -> Seq<Seq<char>> {
    non_empty(split(path, is_either('/', '\\')))
}

/// The last segment of a path; empty where there is none.
pub open spec fn file_name_of(path: Seq<char>) -> Seq<char> {
    let segments = path_segments(path);
    if segments.len() == 0 {
        Seq::empty()
    } else {
        segments.last()
    }
}

/// Whether a file name is hidden: it begins with a dot and is neither the
/// current nor the parent directory.
pub open spec fn is_hidden(file_name: Seq<char>) -> bool {
    file_name.len() > 0 && file_name[0] == '.' && file_name != "."@ && file_name != ".."@
}

/// Whether the scanner ignores a path that is in lower case.
pub open spec fn ignored_lower(lower: Seq<char>) -> bool {
    is_hidden(file_name_of(lower)) || exists|k: int|
        0 <= k < ignore_table().len() && rule_holds(
            #[trigger] ignore_table()[k],
            lower,
            path_segments(lower),
            file_name_of(lower),
        )
}

/// Whether `file_name` is `<stem>.<ext>` or `*.<stem>.<ext>`, where `<ext>` is
/// one to five characters long.
pub fn is_sample_clip(file_name: &str, stem: &str) -> (r: bool)
    ensures
        r == sample_clip(file_name@, stem@),
{
    let cs: Vec<char> = chars_of(file_name);
    let st: Vec<char> = chars_of(stem);
    proof {
        lemma_last_index(file_name@, '.');
    }
    match rfind_char(cs.as_slice(), '.') {
        None => false,
        Some(i) => {
            let ext_len: usize = cs.len() - i - 1;
            if ext_len == 0 || ext_len > 5 {
                return false;
            }
            let base: &[char] = slice_subrange(cs.as_slice(), 0, i);
            assert(base@ =~= stem_of(file_name@));
            if same_chars(base, st.as_slice()) {
                return true;
            }
            let dotted: Vec<char> = chars_of(concat(".", stem).as_str());
            ends_with_chars(base, dotted.as_slice())
        },
    }
}

fn has_extension(file_name: &str, ext: &str) -> (r: bool)
    ensures
        r == (last_index(file_name@, '.') >= 0 && extension_of(file_name@) == ext@),
{
    let cs: Vec<char> = chars_of(file_name);
    let want: Vec<char> = chars_of(ext);
    match rfind_char(cs.as_slice(), '.') {
        None => false,
        Some(i) => {
            let e: &[char] = slice_subrange(cs.as_slice(), i + 1, cs.len());
            assert(e@ =~= extension_of(file_name@));
            same_chars(e, want.as_slice())
        },
    }
}

fn any_ends_with(segments: &[String], suffix: &str) -> (r: bool)
    ensures
        r == (exists|i: int|
            0 <= i < texts(segments@).len() && ends_in(#[trigger] texts(segments@)[i], suffix@)),
{
    let tail: Vec<char> = chars_of(suffix);
    let mut i: usize = 0;
    while i < segments.len()
        invariant
            i <= segments.len(),
            tail@ == suffix@,
            forall|j: int| 0 <= j < i ==> !ends_in(#[trigger] texts(segments@)[j], suffix@),
        decreases segments.len() - i,
    {
        let seg: Vec<char> = chars_of(segments[i].as_str());
        assert(seg@ == texts(segments@)[i as int]);
        if ends_with_chars(seg.as_slice(), tail.as_slice()) {
            return true;
        }
        i += 1;
    }
    false
}

impl IgnoreRule {
    /// Whether this rule holds of the lower-case `lower_path`, which has the
    /// given segments and file name.
    pub fn matches(self, lower_path: &str, segments: &[String], file_name: &str) -> (r: bool)
        ensures
            r == rule_holds(self, lower_path@, texts(segments@), file_name@),
    {
        match self {
            IgnoreRule::FileNameEquals(name) => same_text(file_name, name),
            IgnoreRule::ExtensionEquals(ext) => has_extension(file_name, ext),
            IgnoreRule::SampleClip(stem) => is_sample_clip(file_name, stem),
            IgnoreRule::PathSegmentEquals(seg) => contains_text(segments, seg),
            IgnoreRule::PathSegmentSuffix(suffix) => {
                any_ends_with(segments, suffix) || ends_with_chars(
                    chars_of(lower_path).as_slice(),
                    chars_of(suffix).as_slice(),
                )
            },
        }
    }
}

fn segments_of(path: &str) -> (r: Vec<String>)
    ensures
        texts(r@) == path_segments(path@),
{
    let parts: Vec<String> = split_either(chars_of(path).as_slice(), '/', '\\');
    let ghost all = texts(parts@);
    let mut out: Vec<String> = Vec::new();
    let mut i: usize = 0;
    assert(texts(out@) =~= non_empty(all.take(0)));
    while i < parts.len()
        invariant
            i <= parts.len(),
            all == texts(parts@),
            texts(out@) == non_empty(all.take(i as int)),
        decreases parts.len() - i,
    {
        let ghost before = texts(out@);
        assert(all.take(i + 1).drop_last() =~= all.take(i as int));
        assert(all.take(i + 1).last() == parts@[i as int]@);
        if !parts[i].as_str().is_empty() {
            out.push(parts[i].clone());
            assert(texts(out@) =~= before.push(parts@[i as int]@));
        }
        i += 1;
    }
    assert(all.take(all.len() as int) =~= all);
    out
}

/// Whether the scanner ignores `lower`, a path in lower case.
pub fn should_ignore_lower_path(lower: &str) -> (r: bool)
    ensures
        r == ignored_lower(lower@),
{
    let segments: Vec<String> = segments_of(lower);
    let file_name: String = if segments.len() == 0 {
        String::new()
    } else {
        segments[segments.len() - 1].clone()
    };
    assert(file_name@ == file_name_of(lower@));
    let name_chars: Vec<char> = chars_of(file_name.as_str());
    if name_chars.len() > 0 && name_chars[0] == '.' && !same_text(
        file_name.as_str(),
        ".",
    ) && !same_text(file_name.as_str(), "..") {
        return true;
    }
    let rules: Vec<IgnoreRule> = ignore_rules();
    let mut k: usize = 0;
    while k < rules.len()
        invariant
            k <= rules.len(),
            rules@ == ignore_table(),
            texts(segments@) == path_segments(lower@),
            file_name@ == file_name_of(lower@),
            forall|j: int|
                0 <= j < k ==> !rule_holds(
                    #[trigger] ignore_table()[j],
                    lower@,
                    path_segments(lower@),
                    file_name_of(lower@),
                ),
        decreases rules.len() - k,
    {
        if rules[k].matches(lower, segments.as_slice(), file_name.as_str()) {
            assert(rule_holds(
                ignore_table()[k as int],
                lower@,
                path_segments(lower@),
                file_name_of(lower@),
            ));
            return true;
        }
        k += 1;
    }
    false
}

/// Whether the scanner ignores `path`: its file name is hidden, or a rule of the
/// ignore table holds of it. Case is ignored.
pub fn should_ignore_path(path: &str) -> (r: bool)
    ensures
        r == ignored_lower(lowercase(path@)),
{
    should_ignore_lower_path(to_lowercase(path).as_str())
}

/// What is left of a lower-case name behind the article `word`, if the name
/// begins with that word, white space follows it and something is left.
pub open spec fn after_article(lower: Seq<char>, word: Seq<char>) -> Option<Seq<char>> {
    let n = word.len() as int;
    if begins_with(lower, word) && n < lower.len() && char_is_whitespace(lower[n]) {
        let rest = strip_start(lower.skip(n), whitespace());
        if rest.len() > 0 {
            Some(rest)
        } else {
            None
        }
    } else {
        None
    }
}

/// The sort key of a lower-case name: the name without a leading article.
pub open spec fn sort_key_of(lower: Seq<char>) -> Seq<char> {
    match after_article(lower, "the"@) {
        Some(rest) => rest,
        None => match after_article(lower, "a"@) {
            Some(rest) => rest,
            None => match after_article(lower, "an"@) {
                Some(rest) => rest,
                None => lower,
            },
        },
    }
}

/// The sort key of a name that is not empty is not empty.
pub proof fn law_sort_key_is_not_empty(lower: Seq<char>)
    requires
        lower.len() > 0,
    ensures
        sort_key_of(lower).len() > 0,
{
}

// ---------------------------------------------------------------------------
// Laws of ignored paths
// ---------------------------------------------------------------------------
/// `path` with every backslash made a slash.
pub open spec fn slashed(path: Seq<char>) -> Seq<char> {
    Seq::new(
        path.len(),
        |i: int|
            if path[i] == '\\' {
                '/'
            } else {
                path[i]
            },
    )
}

proof fn lemma_slashed_segments(s: Seq<char>)
    ensures
        split(slashed(s), is_either('/', '\\')) == split(s, is_either('/', '\\')),
    decreases s.len(),
{
    let p = is_either('/', '\\');
    let t = slashed(s);
    let i = first_index(s, p);
    lemma_first_index(s, p);
    assert forall|j: int| 0 <= j < i implies !p(#[trigger] t[j]) && t[j] == s[j] by {
        assert(!p(s[j]));
    }
    if i < s.len() {
        assert(p(t[i]));
        lemma_first_index_unique(t, p, i);
        lemma_slashed_segments(s.skip(i + 1));
        assert(t.take(i) =~= s.take(i));
        assert(t.skip(i + 1) =~= slashed(s.skip(i + 1)));
    } else {
        lemma_first_index_unique(t, p, i);
        assert(t =~= s);
    }
}

/// The rules that look at the whole path look for one suffix.
proof fn lemma_one_suffix(k: int)
    requires
        0 <= k < ignore_table().len(),
        ignore_table()[k] is PathSegmentSuffix,
    ensures
        ignore_table()[k] == IgnoreRule::PathSegmentSuffix(".trickplay"),
        forall|i: int|
            0 <= i < ".trickplay"@.len() ==> !is_either('/', '\\')(#[trigger] ".trickplay"@[i]),
        ".trickplay"@.len() > 0,
{
    reveal_strlit(".trickplay");
    assert(k == 8);
}

/// Two lower-case paths with the same segments are ignored alike, where they
/// are alike in whether they end in each suffix or whether a segment does.
proof fn lemma_ignored_alike(a: Seq<char>, b: Seq<char>)
    requires
        path_segments(a) == path_segments(b),
        forall|k: int|
            0 <= k < ignore_table().len() ==> rule_holds(
                #[trigger] ignore_table()[k],
                a,
                path_segments(a),
                file_name_of(a),
            ) == rule_holds(ignore_table()[k], b, path_segments(b), file_name_of(b)),
    ensures
        ignored_lower(a) == ignored_lower(b),
{
}

proof fn lemma_slashed_lower(lower: Seq<char>)
    ensures
        ignored_lower(slashed(lower)) == ignored_lower(lower),
{
    let t = slashed(lower);
    lemma_slashed_segments(lower);
    assert forall|k: int| 0 <= k < ignore_table().len() implies rule_holds(
        #[trigger] ignore_table()[k],
        t,
        path_segments(t),
        file_name_of(t),
    ) == rule_holds(
        ignore_table()[k],
        lower,
        path_segments(lower),
        file_name_of(lower),
    ) by {
        if ignore_table()[k] is PathSegmentSuffix {
            lemma_one_suffix(k);
            let suffix = ".trickplay"@;
            if lower.len() >= suffix.len() {
                let at = lower.len() - suffix.len();
                if t.skip(at) == suffix {
                    assert forall|i: int| 0 <= i < suffix.len() implies lower.skip(at)[i]
                        == suffix[i] by {
                        assert(t.skip(at)[i] == t[at + i]);
                        assert(!is_either('/', '\\')(suffix[i]));
                    }
                    assert(lower.skip(at) =~= suffix);
                }
                if lower.skip(at) == suffix {
                    assert forall|i: int| 0 <= i < suffix.len() implies t.skip(at)[i]
                        == suffix[i] by {
                        assert(lower.skip(at)[i] == lower[at + i]);
                        assert(!is_either('/', '\\')(suffix[i]));
                    }
                    assert(t.skip(at) =~= suffix);
                }
            }
        }
    }
    lemma_ignored_alike(t, lower);
}

/// The kind of slash does not matter: two lower-case paths that differ in it
/// only are ignored alike.
pub proof fn law_kind_of_slash(a: Seq<char>, b: Seq<char>)
    requires
        slashed(a) == slashed(b),
    ensures
        ignored_lower(a) == ignored_lower(b),
{
    lemma_slashed_lower(a);
    lemma_slashed_lower(b);
}

/// A slash of either kind behind a lower-case path does not matter.
pub proof fn law_trailing_slash(lower: Seq<char>, slash: char)
    requires
        slash == '/' || slash == '\\',
    ensures
        ignored_lower(lower.push(slash)) == ignored_lower(lower),
{
    let p = is_either('/', '\\');
    let t = lower.push(slash);
    let parts = split(lower, p);
    lemma_split_trailing(lower, slash, p);
    assert(parts.push(Seq::empty()).drop_last() =~= parts);
    assert(path_segments(t) == path_segments(lower));
    assert forall|k: int| 0 <= k < ignore_table().len() implies rule_holds(
        #[trigger] ignore_table()[k],
        t,
        path_segments(t),
        file_name_of(t),
    ) == rule_holds(
        ignore_table()[k],
        lower,
        path_segments(lower),
        file_name_of(lower),
    ) by {
        if ignore_table()[k] is PathSegmentSuffix {
            lemma_one_suffix(k);
            let suffix = ".trickplay"@;
            if ends_in(t, suffix) {
                assert(t.skip(t.len() - suffix.len())[suffix.len() - 1] == slash);
                assert(!p(suffix[suffix.len() - 1]));
            }
            if ends_in(lower, suffix) {
                lemma_end_of_last_part(lower, suffix, p);
                assert(parts.last().len() > 0);
                let segments = path_segments(lower);
                assert(segments.last() == parts.last());
                assert(ends_in(segments[segments.len() - 1], suffix));
            }
        }
    }
    lemma_ignored_alike(t, lower);
}

/// For ASCII paths, neither the case of letters nor the kind of slash matters.
pub proof fn law_ascii_paths_are_ignored_alike(a: Seq<char>, b: Seq<char>)
    requires
        is_ascii_text(a),
        is_ascii_text(b),
        same_ignoring_case(slashed(a), slashed(b)),
    ensures
        ignored_lower(lowercase(a)) == ignored_lower(lowercase(b)),
{
    assert(slashed(ascii_lower(a)) =~= ascii_lower(slashed(a)));
    assert(slashed(ascii_lower(b)) =~= ascii_lower(slashed(b)));
    law_kind_of_slash(ascii_lower(a), ascii_lower(b));
}

/// For ASCII paths, a slash of either kind behind the path does not matter.
pub proof fn law_ascii_trailing_slash(path: Seq<char>, slash: char)
    requires
        is_ascii_text(path),
        slash == '/' || slash == '\\',
    ensures
        ignored_lower(lowercase(path.push(slash))) == ignored_lower(lowercase(path)),
{
    assert(ascii_lower(path.push(slash)) =~= ascii_lower(path).push(slash));
    law_trailing_slash(ascii_lower(path), slash);
}

// ---------------------------------------------------------------------------
// Laws of sort keys
// ---------------------------------------------------------------------------
/// Whether `word` is a leading article, in lower case.
pub open spec fn is_article(word: Seq<char>) -> bool {
    word == "the"@ || word == "a"@ || word == "an"@
}

/// An article before a lower-case name goes, with the white space behind it.
pub proof fn law_article_goes(word: Seq<char>, space: char, rest: Seq<char>)
    requires
        is_article(word),
        char_is_whitespace(space),
        !is_blank(rest),
    ensures
        sort_key_of(word + seq![space] + rest) == strip_start(rest, whitespace()),
{
    reveal_strlit("the");
    reveal_strlit("a");
    reveal_strlit("an");
    let lower = word + seq![space] + rest;
    let n = word.len() as int;
    lemma_strips_to_nothing(rest, whitespace());
    assert(lower.take(n) =~= word);
    assert(lower[n] == space);
    assert(lower.skip(n).drop_first() =~= rest);
    if word == "a"@ || word == "an"@ {
        assert(lower[0] == 'a');
        assert(lower.take(3)[0] == 'a' || lower.len() < 3);
    }
    if word == "an"@ {
        assert(lower[1] == 'n');
    }
}

/// White space around a name does not matter to its sort key.
pub proof fn law_outer_space_is_not_sorted(x: Seq<char>, name: Seq<char>, y: Seq<char>)
    requires
        is_blank(x),
        is_blank(y),
    ensures
        sort_key_of(lowercase(trimmed(x + name + y))) == sort_key_of(lowercase(trimmed(name))),
{
    law_outer_space_is_trimmed(x, name, y);
}

proof fn lemma_strips_of_lower(s: Seq<char>)
    requires
        is_ascii_text(s),
    ensures
        strip_start(ascii_lower(s), whitespace()) == ascii_lower(strip_start(s, whitespace())),
        strip_end(ascii_lower(s), whitespace()) == ascii_lower(strip_end(s, whitespace())),
        is_ascii_text(strip_start(s, whitespace())),
        is_ascii_text(strip_end(s, whitespace())),
    decreases s.len(),
{
    if s.len() > 0 {
        let f = s.drop_first();
        let l = s.drop_last();
        assert((s[0] as u32) < 128 && (s[s.len() - 1] as u32) < 128);
        assert forall|i: int| 0 <= i < f.len() implies (#[trigger] f[i] as u32) < 128 by {
            assert(f[i] == s[i + 1]);
        }
        lemma_strips_of_lower(f);
        lemma_strips_of_lower(l);
        assert(ascii_lower(s).drop_first() =~= ascii_lower(f));
        assert(ascii_lower(s).drop_last() =~= ascii_lower(l));
    }
}

/// The case of ASCII letters does not matter to the sort key of an ASCII name.
pub proof fn law_letter_case_is_not_sorted(a: Seq<char>, b: Seq<char>)
    requires
        is_ascii_text(a),
        is_ascii_text(b),
        same_ignoring_case(a, b),
    ensures
        sort_key_of(lowercase(trimmed(a))) == sort_key_of(lowercase(trimmed(b))),
{
    lemma_strips_of_lower(a);
    lemma_strips_of_lower(b);
    lemma_strips_of_lower(strip_start(a, whitespace()));
    lemma_strips_of_lower(strip_start(b, whitespace()));
}

/// An article in any case before an ASCII name goes: the sort key of `the {s}`
/// is `s`, trimmed and in lower case.
pub proof fn law_article_is_not_sorted(word: Seq<char>, s: Seq<char>)
    requires
        is_article(ascii_lower(word)),
        is_ascii_text(s),
        !is_blank(s),
    ensures
        sort_key_of(lowercase(trimmed(word + seq![' '] + s))) == lowercase(trimmed(s)),
{
    reveal_strlit("the");
    reveal_strlit("a");
    reveal_strlit("an");
    let p = whitespace();
    let name = word + seq![' '] + s;
    assert(ascii_lower(word).len() == word.len());
    assert forall|i: int| 0 <= i < word.len() implies (#[trigger] word[i] as u32) < 128
        && !char_is_whitespace(word[i]) by {
        let c = ascii_lower(word)[i];
        assert(c == 't' || c == 'h' || c == 'e' || c == 'a' || c == 'n');
    }
    assert(name[0] == word[0]);
    lemma_strips_to_nothing(s, p);
    lemma_strip_end_append(word + seq![' '], s, p);
    let e = strip_end(s, p);
    assert(trimmed(name) == word + seq![' '] + e);
    lemma_strips_of_lower(s);
    lemma_strips_of_lower(e);
    lemma_strips_commute(s, p);
    assert(is_ascii_text(word + seq![' '] + e));
    assert(ascii_lower(word + seq![' '] + e) =~= ascii_lower(word) + seq![' '] + ascii_lower(e));
    assert(!is_blank(ascii_lower(e))) by {
        lemma_strips_are_stable(s, p);
        law_blank_is_trimmed_away(s);
        law_blank_is_trimmed_away(ascii_lower(e));
        law_blank_is_trimmed_away(e);
        lemma_strips_to_nothing(ascii_lower(e), p);
        lemma_strips_to_nothing(e, p);
    }
    law_article_goes(ascii_lower(word), ' ', ascii_lower(e));
}

fn strip_article(lower: &str, word: &str) -> (r: Option<String>)
    ensures
        r is Some == after_article(lower@, word@) is Some,
        r matches Some(s) ==> s@ == after_article(lower@, word@)->0,
{
    let cs: Vec<char> = chars_of(lower);
    let lead: Vec<char> = chars_of(word);
    let n: usize = lead.len();
    if !starts_with_chars(cs.as_slice(), lead.as_slice()) || n >= cs.len() || !is_whitespace(cs[n]) {
        return None;
    }
    let tail: &[char] = slice_subrange(cs.as_slice(), n, cs.len());
    assert(tail@ =~= lower@.skip(n as int));
    let rest: &[char] = trim_start_chars(tail);
    if rest.len() > 0 {
        Some(string_of(rest))
    } else {
        None
    }
}

/// What follows the case mapping: a lower-case name without its leading article.
pub fn sort_name_of_lower(lower: &str) -> (r: String)
    ensures
        r@ == sort_key_of(lower@),
{
    if let Some(rest) = strip_article(lower, "the") {
        return rest;
    }
    if let Some(rest) = strip_article(lower, "a") {
        return rest;
    }
    if let Some(rest) = strip_article(lower, "an") {
        return rest;
    }
    lower.to_owned()
}

/// The key by which a display name is sorted: trimmed, in lower case, and
/// without one leading article (`the`, `a` or `an`), which is a word of its own:
/// white space follows it.
///
/// A name that is only an article is kept.
pub fn sort_name(name: &str) -> (r: String)
    ensures
        r@ == sort_key_of(lowercase(trimmed(name@))),
{
    sort_name_of_lower(to_lowercase(trim(name).as_str()).as_str())
}

} // verus!
