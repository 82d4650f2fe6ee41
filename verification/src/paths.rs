//! Slash-separated file paths: joining them, and taking them apart.
//!
//! A path is read as a sequence of components between slashes. Empty components
//! and `.` do not count, except a `.` at the very beginning.
use vstd::prelude::*;
use vstd::slice::slice_subrange;

use crate::text::{
    chars_of, is_free_of, last_index, lemma_last_index, opt_text, rfind_char, string_of,
};

verus! {

/// `leaf` below `base`. An absolute `leaf` stands for itself.
pub open spec fn joined(base: Seq<char>, leaf: Seq<char>) -> Seq<char> {
    if leaf.len() > 0 && leaf[0] == '/' {
        leaf
    } else if base.len() == 0 || base.last() == '/' {
        base + leaf
    } else {
        base.push('/') + leaf
    }
}

/// Whether a path begins with the component `.`.
pub open spec fn begins_at_current(s: Seq<char>) -> bool {
    s.len() > 0 && s[0] == '.' && (s.len() == 1 || s[1] == '/')
}

/// Where the components begin: behind the root, or behind a leading `.`.
pub open spec fn body_start(s: Seq<char>) -> int {
    if s.len() > 0 && (s[0] == '/' || begins_at_current(s)) {
        1
    } else {
        0
    }
}

/// The index of the last slash at or after `b`; `b - 1` where there is none.
pub open spec fn last_slash(s: Seq<char>, b: int) -> int {
    b + last_index(s.skip(b), '/')
}

/// The last component of `s`, whose components begin at `b`.
pub open spec fn last_component(s: Seq<char>, b: int) -> Seq<char> {
    s.skip(last_slash(s, b) + 1)
}

/// What stands before the last component and its slash.
pub open spec fn before_last(s: Seq<char>, b: int) -> Seq<char> {
    if last_slash(s, b) >= b {
        s.take(last_slash(s, b))
    } else {
        s.take(b)
    }
}

/// `s` without trailing components that do not count.
pub open spec fn without_tail(s: Seq<char>, b: int) -> Seq<char>
    decreases s.len(),
    via without_tail_decreases
{
    if 0 <= b < s.len() && (last_component(s, b) == ""@ || last_component(s, b) == "."@) {
        without_tail(before_last(s, b), b)
    } else {
        s
    }
}

#[via_fn]
proof fn without_tail_decreases(s: Seq<char>, b: int) {
    if 0 <= b < s.len() {
        lemma_last_index(s.skip(b), '/');
    }
}

/// The file name: the last component, unless there is none or it is `..`.
pub open spec fn file_name(s: Seq<char>) -> Option<Seq<char>> {
    let b = body_start(s);
    let t = without_tail(s, b);
    if t.len() > b && last_component(t, b) != ".."@ {
        Some(last_component(t, b))
    } else {
        None
    }
}

/// The path without its last component; `None` where there is none to take.
pub open spec fn parent(s: Seq<char>) -> Option<Seq<char>> {
    let b = body_start(s);
    let t = without_tail(s, b);
    if t.len() > b {
        Some(without_tail(before_last(t, b), b))
    } else if begins_at_current(s) {
        Some(Seq::empty())
    } else {
        None
    }
}

/// A file name up to its last dot, unless the name begins with that dot or has
/// none.
pub open spec fn stem_of_name(name: Seq<char>) -> Seq<char> {
    if last_index(name, '.') > 0 {
        name.take(last_index(name, '.'))
    } else {
        name
    }
}

/// What stands behind the last dot of a file name, unless the name begins with
/// that dot or has none.
pub open spec fn extension_of_name(name: Seq<char>) -> Option<Seq<char>> {
    if last_index(name, '.') > 0 {
        Some(name.skip(last_index(name, '.') + 1))
    } else {
        None
    }
}

/// The stem of a path's file name.
pub open spec fn file_stem(s: Seq<char>) -> Option<Seq<char>> {
    match file_name(s) {
        Some(name) => Some(stem_of_name(name)),
        None => None,
    }
}

/// The extension of a path's file name.
pub open spec fn extension(s: Seq<char>) -> Option<Seq<char>> {
    match file_name(s) {
        Some(name) => extension_of_name(name),
        None => None,
    }
}

/// What stands before the file name.
pub open spec fn before_name(s: Seq<char>) -> Seq<char> {
    let b = body_start(s);
    let t = without_tail(s, b);
    t.take(last_slash(t, b) + 1)
}

/// A path with the extension of its file name replaced; an empty extension is
/// left out with its dot. A path without a file name stays as it is.
pub open spec fn path_with_extension(s: Seq<char>, ext: Seq<char>) -> Seq<char> {
    match file_stem(s) {
        Some(stem) => if ext.len() == 0 {
            before_name(s) + stem
        } else {
            before_name(s) + stem.push('.') + ext
        },
        None => s,
    }
}

/// `leaf` below `base`.
pub fn join_path(base: &str, leaf: &str) -> (r: String)
    ensures
        r@ == joined(base@, leaf@),
{
    let l: Vec<char> = chars_of(leaf);
    if l.len() > 0 && l[0] == '/' {
        return leaf.to_owned();
    }
    let b: Vec<char> = chars_of(base);
    let mut out: String = base.to_owned();
    if b.len() > 0 && b[b.len() - 1] != '/' {
        out.push('/');
    }
    out.push_str(leaf);
    out
}

fn find_body_start(cs: &[char]) -> (r: usize)
    ensures
        r == body_start(cs@),
        r <= cs.len(),
{
    if cs.len() > 0 && (cs[0] == '/' || (cs[0] == '.' && (cs.len() == 1 || cs[1] == '/'))) {
        1
    } else {
        0
    }
}

/// Where the last component of `cs` begins, and where what stands before it
/// (without the slash between them) ends.
fn split_last(cs: &[char], b: usize) -> (r: (usize, usize))
    requires
        b < cs.len(),
    ensures
        r.0 <= cs.len(),
        r.1 < cs.len(),
        b <= r.1 <= r.0,
        cs@.subrange(r.0 as int, cs@.len() as int) == last_component(cs@, b as int),
        cs@.subrange(0, r.1 as int) == before_last(cs@, b as int),
{
    let body: &[char] = slice_subrange(cs, b, cs.len());
    assert(body@ =~= cs@.skip(b as int));
    proof {
        lemma_last_index(body@, '/');
    }
    match rfind_char(body, '/') {
        Some(i) => (b + i + 1, b + i),
        None => (b, b),
    }
}

fn is_dot(cs: &[char]) -> (r: bool)
    ensures
        r == (cs@ == "."@),
{
    proof {
        reveal_strlit(".");
    }
    let r: bool = cs.len() == 1 && cs[0] == '.';
    proof {
        if r {
            assert(cs@ =~= "."@);
        }
    }
    r
}

fn is_dot_dot(cs: &[char]) -> (r: bool)
    ensures
        r == (cs@ == ".."@),
{
    proof {
        reveal_strlit("..");
    }
    let r: bool = cs.len() == 2 && cs[0] == '.' && cs[1] == '.';
    proof {
        if r {
            assert(cs@ =~= ".."@);
        }
    }
    r
}

/// The length that is left of `cs` without trailing components that do not
/// count.
fn trim_tail(cs: &[char], b: usize) -> (r: usize)
    requires
        b <= cs.len(),
    ensures
        b <= r <= cs.len(),
        cs@.subrange(0, r as int) == without_tail(cs@, b as int),
{
    let mut n: usize = cs.len();
    proof {
        reveal_strlit("");
    }
    assert(cs@.subrange(0, n as int) =~= cs@);
    while n > b
        invariant
            b <= n <= cs.len(),
            "".view().len() == 0,
            without_tail(cs@, b as int) == without_tail(cs@.subrange(0, n as int), b as int),
        decreases n,
    {
        let part: &[char] = slice_subrange(cs, 0, n);
        let (start, cut) = split_last(part, b);
        let comp: &[char] = slice_subrange(part, start, part.len());
        if comp.len() == 0 || is_dot(comp) {
            proof {
                if comp.len() == 0 {
                    assert(comp@ =~= ""@);
                }
                assert(part@.subrange(0, cut as int) =~= cs@.subrange(0, cut as int));
            }
            n = cut;
        } else {
            assert(comp@ != ""@);
            return n;
        }
    }
    n
}

/// The file name of a path.
pub fn path_file_name(path: &str) -> (r: Option<String>)
    ensures
        opt_text(r) == file_name(path@),
{
    let all: Vec<char> = chars_of(path);
    let cs: &[char] = all.as_slice();
    let b: usize = find_body_start(cs);
    let n: usize = trim_tail(cs, b);
    if n <= b {
        return None;
    }
    let t: &[char] = slice_subrange(cs, 0, n);
    let (start, cut) = split_last(t, b);
    let comp: &[char] = slice_subrange(t, start, t.len());
    if is_dot_dot(comp) {
        None
    } else {
        Some(string_of(comp))
    }
}

/// The path without its last component.
pub fn path_parent(path: &str) -> (r: Option<String>)
    ensures
        opt_text(r) == parent(path@),
{
    let all: Vec<char> = chars_of(path);
    let cs: &[char] = all.as_slice();
    let b: usize = find_body_start(cs);
    let n: usize = trim_tail(cs, b);
    if n > b {
        let t: &[char] = slice_subrange(cs, 0, n);
        let (start, cut) = split_last(t, b);
        let head: &[char] = slice_subrange(t, 0, cut);
        let m: usize = trim_tail(head, b);
        Some(string_of(slice_subrange(head, 0, m)))
    } else if cs.len() > 0 && cs[0] == '.' && (cs.len() == 1 || cs[1] == '/') {
        Some(String::new())
    } else {
        None
    }
}

/// The stem of a path's file name.
pub fn path_file_stem(path: &str) -> (r: Option<String>)
    ensures
        opt_text(r) == file_stem(path@),
{
    match path_file_name(path) {
        None => None,
        Some(name) => {
            let cs: Vec<char> = chars_of(name.as_str());
            match rfind_char(cs.as_slice(), '.') {
                Some(i) if i > 0 => {
                    let stem: &[char] = slice_subrange(cs.as_slice(), 0, i);
                    assert(stem@ =~= stem_of_name(name@));
                    Some(string_of(stem))
                },
                _ => Some(name),
            }
        },
    }
}

/// The extension of a path's file name.
pub fn path_extension(path: &str) -> (r: Option<String>)
    ensures
        opt_text(r) == extension(path@),
{
    match path_file_name(path) {
        None => None,
        Some(name) => {
            let cs: Vec<char> = chars_of(name.as_str());
            match rfind_char(cs.as_slice(), '.') {
                Some(i) if i > 0 => {
                    let ext: &[char] = slice_subrange(cs.as_slice(), i + 1, cs.len());
                    assert(ext@ =~= name@.skip(last_index(name@, '.') + 1));
                    Some(string_of(ext))
                },
                _ => None,
            }
        },
    }
}

/// A path with the extension of its file name replaced.
pub fn replace_extension(path: &str, ext: &str) -> (r: String)
    ensures
        r@ == path_with_extension(path@, ext@),
{
    let all: Vec<char> = chars_of(path);
    let cs: &[char] = all.as_slice();
    let b: usize = find_body_start(cs);
    let n: usize = trim_tail(cs, b);
    if n <= b {
        return path.to_owned();
    }
    let t: &[char] = slice_subrange(cs, 0, n);
    let (start, cut) = split_last(t, b);
    proof {
        lemma_last_index(t@.skip(b as int), '/');
    }
    match path_file_stem(path) {
        None => path.to_owned(),
        Some(stem) => {
            let mut out: String = string_of(slice_subrange(t, 0, start));
            assert(out@ =~= before_name(path@)) by {
                assert(last_component(t@, b as int).len() == t@.len() - start);
                assert(last_component(t@, b as int).len() == t@.len() - (last_slash(t@, b as int)
                    + 1));
            }
            out.push_str(stem.as_str());
            if ext.unicode_len() > 0 {
                out.push('.');
                out.push_str(ext);
            }
            proof {
                if ext@.len() == 0 {
                    assert(out@ =~= before_name(path@) + stem@);
                } else {
                    assert(out@ =~= before_name(path@) + stem@.push('.') + ext@);
                }
            }
            out
        },
    }
}

/// A file name holds no slash and is no component that does not count.
proof fn lemma_file_name(s: Seq<char>)
    requires
        file_name(s) is Some,
    ensures
        file_name(s)->0.len() > 0,
        is_free_of(file_name(s)->0, '/'),
        body_start(s) <= before_name(s).len(),
        before_name(s).len() > 0 ==> before_name(s).last() == '/' || before_name(s).len()
            == body_start(s),
        before_name(s).len() > 0 ==> before_name(s)[0] == s[0],
        before_name(s).len() > 1 ==> before_name(s)[1] == s[1],
        before_name(s).len() <= s.len(),
        begins_at_current(s) ==> before_name(s).len() > 1,
{
    let b = body_start(s);
    lemma_without_tail(s, b);
    let t = without_tail(s, b);
    let body = t.skip(b);
    lemma_last_index(body, '/');
    let k = last_slash(t, b);
    let name = last_component(t, b);
    reveal_strlit("");
    assert(name != ""@);
    assert(name.len() > 0) by {
        if name.len() == 0 {
            assert(name =~= ""@);
        }
    }
    assert forall|i: int| 0 <= i < name.len() implies #[trigger] name[i] != '/' by {
        assert(name[i] == body[k + 1 + i - b]);
    }
    if k >= b {
        assert(t[k] == body[k - b]);
        assert(before_name(s).last() == t[k]);
    }
    if begins_at_current(s) {
        assert(t[1] == s[1]);
        assert(body[0] == t[1]);
    }
}

proof fn lemma_without_tail(s: Seq<char>, b: int)
    requires
        0 <= b <= s.len(),
    ensures
        b <= without_tail(s, b).len() <= s.len(),
        without_tail(s, b) == s.take(without_tail(s, b).len() as int),
        without_tail(s, b).len() > b ==> last_component(without_tail(s, b), b) != ""@
            && last_component(without_tail(s, b), b) != "."@,
    decreases s.len(),
{
    if b < s.len() {
        lemma_last_index(s.skip(b), '/');
    }
    if b < s.len() && (last_component(s, b) == ""@ || last_component(s, b) == "."@) {
        let h = before_last(s, b);
        lemma_without_tail(h, b);
        assert(h.take(without_tail(h, b).len() as int) =~= s.take(without_tail(h, b).len() as int));
    } else {
        assert(s.take(s.len() as int) =~= s);
    }
}

/// A new file name in the place of the old one.
proof fn lemma_renamed(s: Seq<char>, leaf: Seq<char>)
    requires
        file_name(s) is Some,
        leaf.len() >= 3,
        is_free_of(leaf, '/'),
    ensures
        file_name(before_name(s) + leaf) == Some(leaf),
        before_name(before_name(s) + leaf) == before_name(s),
{
    lemma_file_name(s);
    let head = before_name(s);
    let b = body_start(s);
    let r = head + leaf;
    assert(body_start(r) == b) by {
        if head.len() > 0 {
            assert(r[0] == s[0]);
        }
        if head.len() > 1 {
            assert(r[1] == s[1]);
        }
        if head.len() == 0 {
            assert(r[0] == leaf[0] && r[1] == leaf[1]);
        }
        if head.len() == 1 {
            assert(r[1] == leaf[0]);
        }
    }
    let body = r.skip(b);
    let k = head.len() - b - 1;
    lemma_last_index(body, '/');
    assert forall|i: int| k < i < body.len() implies #[trigger] body[i] != '/' by {
        assert(body[i] == leaf[i - k - 1]);
    }
    if k >= 0 {
        assert(body[k] == head.last());
    }
    assert(last_slash(r, b) == head.len() - 1);
    assert(last_component(r, b) =~= leaf);
    reveal_strlit("");
    reveal_strlit(".");
    reveal_strlit("..");
    assert(without_tail(r, b) == r);
    assert(r.take(last_slash(r, b) + 1) =~= head);
}

/// A stem with an extension comes apart again.
proof fn lemma_stem_and_extension(stem: Seq<char>, ext: Seq<char>)
    requires
        stem.len() > 0,
        is_free_of(ext, '.'),
    ensures
        stem_of_name(stem.push('.') + ext) == stem,
        extension_of_name(stem.push('.') + ext) == Some(ext),
{
    let leaf = stem.push('.') + ext;
    let d = stem.len() as int;
    lemma_last_index(leaf, '.');
    assert(leaf[d] == '.');
    assert forall|i: int| d < i < leaf.len() implies #[trigger] leaf[i] != '.' by {
        assert(leaf[i] == ext[i - d - 1]);
    }
    assert(last_index(leaf, '.') == d);
    assert(leaf.take(d) =~= stem);
    assert(leaf.skip(d + 1) =~= ext);
}

/// A path that gets an extension has it, and keeps the rest: the same stem, in
/// the same place.
pub proof fn law_extension_is_replaced(s: Seq<char>, ext: Seq<char>)
    requires
        file_name(s) is Some,
        ext.len() > 0,
        is_free_of(ext, '/'),
        is_free_of(ext, '.'),
    ensures
        extension(path_with_extension(s, ext)) == Some(ext),
        file_stem(path_with_extension(s, ext)) == file_stem(s),
        before_name(path_with_extension(s, ext)) == before_name(s),
{
    lemma_file_name(s);
    let name = file_name(s)->0;
    let stem = stem_of_name(name);
    lemma_last_index(name, '.');
    assert(stem.len() > 0);
    let leaf = stem.push('.') + ext;
    assert(path_with_extension(s, ext) =~= before_name(s) + leaf);
    assert forall|i: int| 0 <= i < leaf.len() implies #[trigger] leaf[i] != '/' by {
        if i < stem.len() {
            assert(leaf[i] == name[i]);
        } else if i > stem.len() {
            assert(leaf[i] == ext[i - stem.len() - 1]);
        }
    }
    lemma_renamed(s, leaf);
    lemma_stem_and_extension(stem, ext);
}

/// A single name below a folder is the file name of the path that they make: no
/// name leads out of its folder.
pub proof fn law_name_stays_in_its_folder(base: Seq<char>, leaf: Seq<char>)
    requires
        leaf.len() > 0,
        is_free_of(leaf, '/'),
        leaf != "."@,
        leaf != ".."@,
    ensures
        file_name(joined(base, leaf)) == Some(leaf),
        before_name(joined(base, leaf)) == (if base.len() == 0 || base.last() == '/' {
            base
        } else {
            base.push('/')
        }),
{
    let head = if base.len() == 0 || base.last() == '/' {
        base
    } else {
        base.push('/')
    };
    let r = joined(base, leaf);
    assert(leaf[0] != '/');
    assert(r =~= head + leaf);
    reveal_strlit("");
    reveal_strlit(".");
    reveal_strlit("..");
    if head.len() == 0 {
        assert(r =~= leaf);
        if leaf.len() == 1 && leaf[0] == '.' {
            assert(leaf =~= "."@);
        }
        if leaf.len() > 1 {
            assert(leaf[1] != '/');
        }
    } else {
        assert(r[head.len() - 1] == '/');
    }
    let b = body_start(r);
    assert(b <= head.len());
    let body = r.skip(b);
    let k = head.len() - b - 1;
    lemma_last_index(body, '/');
    assert forall|i: int| k < i < body.len() implies #[trigger] body[i] != '/' by {
        assert(body[i] == leaf[i - k - 1]);
    }
    if k >= 0 {
        assert(body[k] == r[head.len() - 1]);
    }
    assert(last_slash(r, b) == head.len() - 1);
    assert(last_component(r, b) =~= leaf);
    assert(leaf != ""@);
    assert(without_tail(r, b) == r);
    assert(r.take(last_slash(r, b) + 1) =~= head);
}

} // verus!
