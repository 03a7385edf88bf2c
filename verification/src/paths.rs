//! Paths as text: separators, names and parents.
//!
//! A path is a sequence of characters in which `/` separates segments. A
//! *name* is a segment that is neither empty nor the single dot, so doubled
//! and trailing separators and `.` segments do not count. The segment `..`
//! is a name for the purpose of finding a parent, but it is never a file or
//! directory name.

use vstd::prelude::*;
use crate::text::{append_chars, chars_of, slice_of, string_of};

verus! {

/// The length of `s` without its trailing separators.
pub open spec fn trimmed_len(s: Seq<char>) -> int
    decreases s.len(),
{
    if s.len() > 0 && s.last() == '/' {
        trimmed_len(s.drop_last())
    } else {
        s.len() as int
    }
}

/// The index at which the last segment of `s` starts: just behind the last
/// separator of `s`, or 0 where `s` holds none.
pub open spec fn segment_start(s: Seq<char>) -> int
    decreases s.len(),
{
    if s.len() > 0 && s.last() != '/' {
        segment_start(s.drop_last())
    } else {
        s.len() as int
    }
}

/// The segment `.`, which stands for the directory it is found in.
pub open spec fn dot() -> Seq<char> {
    seq!['.']
}

/// The segment `..`, which stands for the parent directory.
pub open spec fn dotdot() -> Seq<char> {
    seq!['.', '.']
}

/// The range `(begin, end)` of the last name in `s`, or `None` where `s`
/// holds no name.
pub open spec fn last_name(s: Seq<char>) -> Option<(int, int)>
    decreases s.len(),
{
    let end = trimmed_len(s);
    let begin = segment_start(s.take(end));
    if end == 0 {
        None
    } else if s.subrange(begin, end) == dot() {
        proof {
            lemma_trimmed_len_bounds(s);
            lemma_segment_start_bounds(s.take(end));
        }
        last_name(s.take(begin))
    } else {
        Some((begin, end))
    }
}

/// The final name of the path `s`: what a file or directory at `s` is
/// called. There is none where `s` holds no name or ends in `..`.
pub open spec fn file_name_of(s: Seq<char>) -> Option<Seq<char>> {
    match last_name(s) {
        Some((begin, end)) => if s.subrange(begin, end) == dotdot() {
            None
        } else {
            Some(s.subrange(begin, end))
        },
        None => None,
    }
}

/// Whether `s` begins with a dot that is a segment of its own and has
/// more behind it: the path is written from the current directory.
pub open spec fn starts_at_dot(s: Seq<char>) -> bool {
    s.len() > 1 && s[0] == '.' && s[1] == '/'
}

/// The path `s` without its last name and what separates it from the
/// rest: the directory that holds `s`. For a single name below the root
/// this is the root `/`; for a single name written from the current
/// directory, as in `./name`, it is `.`; for a single name alone it is
/// empty. A path without a name has no parent, but for the current
/// directory itself, written `.`, whose parent is empty.
pub open spec fn parent_of(s: Seq<char>) -> Option<Seq<char>> {
    match last_name(s) {
        Some((begin, end)) => match last_name(s.take(begin)) {
            Some((b, e)) => Some(s.take(e)),
            None => if s[0] == '/' {
                Some(seq!['/'])
            } else if starts_at_dot(s) {
                Some(dot())
            } else {
                Some(Seq::empty())
            },
        },
        None => if s.len() > 0 && s[0] == '.' {
            Some(Seq::empty())
        } else {
            None
        },
    }
}

/// The name of the directory that holds `s`.
pub open spec fn parent_name_of(s: Seq<char>) -> Option<Seq<char>> {
    match last_name(s) {
        Some((begin, end)) => file_name_of(s.take(begin)),
        None => None,
    }
}

/// The path of `name` inside the directory `base`. An absolute `name`
/// stands for itself.
pub open spec fn joined(base: Seq<char>, name: Seq<char>) -> Seq<char> {
    if name.len() > 0 && name[0] == '/' {
        name
    } else if base.len() == 0 || base.last() == '/' {
        base + name
    } else {
        base + seq!['/'] + name
    }
}

/// What is trimmed from a path are separators, all that stand at its
/// end.
pub proof fn lemma_trimmed_len_bounds(s: Seq<char>)
    ensures
        0 <= trimmed_len(s) <= s.len(),
        trimmed_len(s) > 0 ==> s[trimmed_len(s) - 1] != '/',
        forall|k: int| trimmed_len(s) <= k < s.len() ==> s[k] == '/',
    decreases s.len(),
{
    if s.len() > 0 && s.last() == '/' {
        lemma_trimmed_len_bounds(s.drop_last());
        assert forall|k: int| trimmed_len(s) <= k < s.len() implies s[k] == '/' by {
            if k < s.len() - 1 {
                assert(s.drop_last()[k] == s[k]);
            }
        }
    }
}

/// The last segment holds no separator and stands behind one, or at the
/// start of the path.
pub proof fn lemma_segment_start_bounds(s: Seq<char>)
    ensures
        0 <= segment_start(s) <= s.len(),
        segment_start(s) > 0 ==> s[segment_start(s) - 1] == '/',
        forall|k: int| segment_start(s) <= k < s.len() ==> s[k] != '/',
        s.len() > 0 && s.last() != '/' ==> segment_start(s) < s.len(),
    decreases s.len(),
{
    if s.len() > 0 && s.last() != '/' {
        lemma_segment_start_bounds(s.drop_last());
        assert forall|k: int| segment_start(s) <= k < s.len() implies s[k] != '/' by {
            if k < s.len() - 1 {
                assert(s.drop_last()[k] == s[k]);
            }
        }
    }
}

/// A name found in `s` lies inside `s`, is not empty, holds no separator
/// and is not the single dot.
pub proof fn lemma_last_name_is_name(s: Seq<char>)
    ensures
        (last_name(s) matches Some((begin, end)) ==> {
            &&& 0 <= begin < end <= s.len()
            &&& forall|k: int| begin <= k < end ==> s[k] != '/'
            &&& s.subrange(begin, end) != dot()
        }),
    decreases s.len(),
{
    let end = trimmed_len(s);
    let begin = segment_start(s.take(end));
    lemma_trimmed_len_bounds(s);
    lemma_segment_start_bounds(s.take(end));
    if end != 0 && s.subrange(begin, end) == dot() {
        lemma_last_name_is_name(s.take(begin));
        assert(s.take(begin) == s.take(end).take(begin));
        if let Some((b, e)) = last_name(s.take(begin)) {
            assert forall|k: int| b <= k < e implies s[k] != '/' by {
                assert(s.take(begin)[k] == s[k]);
            }
            assert(s.take(begin).subrange(b, e) == s.subrange(b, e));
        }
    } else if end != 0 {
        assert forall|k: int| begin <= k < end implies s[k] != '/' by {
            assert(s.take(end)[k] == s[k]);
        }
    }
}

/// Whether the character at `k` is no part of a name: it is a separator,
/// or a dot that is a segment of its own.
pub open spec fn is_filler(s: Seq<char>, k: int) -> bool {
    s[k] == '/' || (s[k] == '.' && (k == 0 || s[k - 1] == '/') && (k + 1 == s.len() || s[k + 1]
        == '/'))
}

/// The last name of a path is a whole segment, and nothing but separators
/// and single dots follows it. A path without a name holds nothing else.
pub proof fn lemma_last_name_is_last(s: Seq<char>)
    ensures
        match last_name(s) {
            Some((begin, end)) => {
                &&& 0 <= begin < end <= s.len()
                &&& begin == 0 || s[begin - 1] == '/'
                &&& end == s.len() || s[end] == '/'
                &&& forall|k: int| end <= k < s.len() ==> is_filler(s, k)
            },
            None => forall|k: int| 0 <= k < s.len() ==> is_filler(s, k),
        },
    decreases s.len(),
{
    let end = trimmed_len(s);
    let begin = segment_start(s.take(end));
    lemma_trimmed_len_bounds(s);
    lemma_segment_start_bounds(s.take(end));
    lemma_last_name_is_name(s);
    if end == 0 {
    } else if s.subrange(begin, end) == dot() {
        let shorter = s.take(begin);
        lemma_last_name_is_last(shorter);
        lemma_last_name_is_name(shorter);
        assert(s.subrange(begin, end).len() == 1);
        assert(s.subrange(begin, end)[0] == s[begin]);
        if begin > 0 {
            assert(s.take(end)[begin - 1] == s[begin - 1]);
        }
        assert forall|k: int| 0 <= k < begin && is_filler(shorter, k) implies is_filler(s, k) by {
            assert(shorter[k] == s[k]);
            if k > 0 {
                assert(shorter[k - 1] == s[k - 1]);
            }
            if k + 1 < begin {
                assert(shorter[k + 1] == s[k + 1]);
            }
        }
        match last_name(shorter) {
            Some((b, e)) => {
                if b > 0 {
                    assert(shorter[b - 1] == s[b - 1]);
                }
                assert(shorter[e - 1] == s[e - 1]);
                if e < begin {
                    assert(shorter[e] == s[e]);
                }
                assert forall|k: int| e <= k < s.len() implies is_filler(s, k) by {
                    if k < begin {
                        assert(is_filler(shorter, k));
                    }
                }
            },
            None => {
                assert forall|k: int| 0 <= k < s.len() implies is_filler(s, k) by {
                    if k < begin {
                        assert(is_filler(shorter, k));
                    }
                }
            },
        }
    } else {
        if begin > 0 {
            assert(s.take(end)[begin - 1] == s[begin - 1]);
        }
    }
}

/// A file name is not empty and holds no separator.
pub proof fn lemma_file_name_is_name(s: Seq<char>)
    ensures
        file_name_of(s) matches Some(name) ==> name.len() > 0 && !name.contains('/'),
{
    lemma_last_name_is_name(s);
    if let Some((begin, end)) = last_name(s) {
        let name = s.subrange(begin, end);
        assert forall|k: int| 0 <= k < name.len() implies name[k] != '/' by {
            assert(name[k] == s[begin + k]);
        }
    }
}

/// The name of the holding directory is not empty and holds no separator.
pub proof fn lemma_parent_name_is_name(s: Seq<char>)
    ensures
        parent_name_of(s) matches Some(name) ==> name.len() > 0 && !name.contains('/'),
{
    if let Some((begin, end)) = last_name(s) {
        lemma_file_name_is_name(s.take(begin));
    }
}

/// Whether `name` can be the name of a file or directory: it is not empty,
/// holds no separator and is neither `.` nor `..`.
pub open spec fn is_plain_name(name: Seq<char>) -> bool {
    &&& name.len() > 0
    &&& !name.contains('/')
    &&& name != dot()
    &&& name != dotdot()
}

/// The path of the entry `name` of the directory `dir`, written with one
/// separator between them.
pub open spec fn child(dir: Seq<char>, name: Seq<char>) -> Seq<char> {
    dir + seq!['/'] + name
}

/// The last segment of a path that ends in a name starts behind the
/// separator before that name.
proof fn lemma_segment_start_of_child(dir: Seq<char>, name: Seq<char>)
    requires
        !name.contains('/'),
    ensures
        segment_start(child(dir, name)) == dir.len() + 1,
    decreases name.len(),
{
    let s = child(dir, name);
    if name.len() == 0 {
        assert(s.last() == '/');
    } else {
        assert(s.last() == name.last());
        assert(name.contains(name.last()));
        assert(s.drop_last() == child(dir, name.drop_last()));
        assert forall|k: int| 0 <= k < name.drop_last().len() implies name.drop_last()[k]
            != '/' by {
            assert(name.contains(name[k]));
        }
        lemma_segment_start_of_child(dir, name.drop_last());
    }
}

/// A separator at the end of a path changes nothing about its names.
proof fn lemma_last_name_ignores_trailing_separator(s: Seq<char>)
    ensures
        last_name(s.push('/')) == last_name(s),
{
    let longer = s.push('/');
    assert(longer.drop_last() == s);
    lemma_trimmed_len_bounds(s);
    let end = trimmed_len(s);
    assert(longer.take(end) == s.take(end));
    lemma_segment_start_bounds(s.take(end));
    let begin = segment_start(s.take(end));
    assert(longer.subrange(begin, end) == s.subrange(begin, end));
    assert(longer.take(begin) == s.take(begin));
}

/// The last name of the path of an entry is the name of the entry.
pub proof fn lemma_last_name_of_child(dir: Seq<char>, name: Seq<char>)
    requires
        name.len() > 0,
        !name.contains('/'),
        name != dot(),
    ensures
        ({
            let begin = dir.len() as int + 1;
            &&& last_name(child(dir, name)) == Some((begin, begin + name.len()))
            &&& child(dir, name).subrange(begin, begin + name.len()) == name
            &&& child(dir, name).take(begin) == dir.push('/')
        }),
{
    let s = child(dir, name);
    assert(s.last() == name.last());
    assert(name.contains(name.last()));
    assert(trimmed_len(s) == s.len());
    assert(s.take(s.len() as int) == s);
    lemma_segment_start_of_child(dir, name);
    assert(s.subrange(dir.len() as int + 1, s.len() as int) == name);
    assert(s.take(dir.len() as int + 1) == dir.push('/'));
}

/// The path of an entry of a directory names the entry, inside the
/// directory: its file name is the entry's name, the name of its parent is
/// the file name of the directory, and where the directory ends in a name
/// its parent is the directory.
pub proof fn lemma_child_names(dir: Seq<char>, name: Seq<char>)
    requires
        is_plain_name(name),
    ensures
        file_name_of(child(dir, name)) == Some(name),
        parent_name_of(child(dir, name)) == file_name_of(dir),
        last_name(dir) matches Some((begin, end)) && end == dir.len() ==> parent_of(
            child(dir, name),
        ) == Some(dir),
{
    let s = child(dir, name);
    lemma_last_name_of_child(dir, name);
    lemma_last_name_ignores_trailing_separator(dir);
    if let Some((begin, end)) = last_name(dir) {
        lemma_last_name_is_name(dir);
        assert(dir.push('/').subrange(begin, end) == dir.subrange(begin, end));
        if end == dir.len() {
            assert(s.take(end) == dir);
        }
    }
}

/// Finds the last name in the first `len` characters of `v`.
fn find_last_name(v: &Vec<char>, len: usize) -> (r: Option<(usize, usize)>)
    requires
        len <= v.len(),
    ensures
        match r {
            Some((begin, end)) => last_name(v@.take(len as int)) == Some((begin as int, end as int))
                && begin < end <= len,
            None => last_name(v@.take(len as int)) is None,
        },
{
    let mut limit: usize = len;
    loop
        invariant
            limit <= len <= v.len(),
            last_name(v@.take(len as int)) == last_name(v@.take(limit as int)),
        decreases limit,
    {
        let ghost s = v@.take(limit as int);
        let mut end: usize = limit;
        assert(s.take(limit as int) == s);
        while end > 0 && v[end - 1] == '/'
            invariant
                end <= limit <= v.len(),
                s == v@.take(limit as int),
                trimmed_len(s) == trimmed_len(s.take(end as int)),
            decreases end,
        {
            assert(s.take(end as int).drop_last() == s.take(end - 1));
            end = end - 1;
        }
        if end == 0 {
            return None;
        }
        let mut begin: usize = end;
        while begin > 0 && v[begin - 1] != '/'
            invariant
                begin <= end <= limit <= v.len(),
                s == v@.take(limit as int),
                segment_start(s.take(end as int)) == segment_start(s.take(begin as int)),
            decreases begin,
        {
            assert(s.take(begin as int).drop_last() == s.take(begin - 1));
            begin = begin - 1;
        }
        proof {
            lemma_segment_start_bounds(s.take(end as int));
            assert(s.subrange(begin as int, end as int).len() == end - begin);
            assert(s.subrange(begin as int, end as int)[0] == v@[begin as int]);
        }
        if end - begin == 1 && v[begin] == '.' {
            assert(s.subrange(begin as int, end as int) == dot());
            assert(s.take(begin as int) == v@.take(begin as int));
            limit = begin;
        } else {
            assert(s.subrange(begin as int, end as int) != dot());
            return Some((begin, end));
        }
    }
}

/// Whether the characters `v[begin..end]` are the segment `..`.
fn is_dotdot(v: &Vec<char>, begin: usize, end: usize) -> (b: bool)
    requires
        begin <= end <= v.len(),
    ensures
        b == (v@.subrange(begin as int, end as int) == dotdot()),
{
    if end - begin == 2 && v[begin] == '.' && v[begin + 1] == '.' {
        assert(v@.subrange(begin as int, end as int) == dotdot());
        true
    } else {
        if end - begin == 2 {
            assert(v@.subrange(begin as int, end as int)[0] == v@[begin as int]);
            assert(v@.subrange(begin as int, end as int)[1] == v@[begin + 1]);
        } else {
            assert(v@.subrange(begin as int, end as int).len() != 2);
        }
        false
    }
}

/// The final name among the first `len` characters of `v`.
fn name_before(v: &Vec<char>, len: usize) -> (r: Option<Vec<char>>)
    requires
        len <= v.len(),
    ensures
        match r {
            Some(name) => file_name_of(v@.take(len as int)) == Some(name@),
            None => file_name_of(v@.take(len as int)) is None,
        },
{
    match find_last_name(v, len) {
        Some((begin, end)) => {
            assert(v@.take(len as int).subrange(begin as int, end as int) == v@.subrange(
                begin as int,
                end as int,
            ));
            if is_dotdot(v, begin, end) {
                None
            } else {
                Some(slice_of(v, begin, end))
            }
        },
        None => None,
    }
}

/// The final name of `path`, as characters.
pub fn file_name_chars(path: &Vec<char>) -> (r: Option<Vec<char>>)
    ensures
        match r {
            Some(name) => file_name_of(path@) == Some(name@),
            None => file_name_of(path@) is None,
        },
{
    assert(path@.take(path.len() as int) == path@);
    name_before(path, path.len())
}

/// The name of the directory that holds `path`, as characters.
pub fn parent_name_chars(path: &Vec<char>) -> (r: Option<Vec<char>>)
    ensures
        match r {
            Some(name) => parent_name_of(path@) == Some(name@),
            None => parent_name_of(path@) is None,
        },
{
    assert(path@.take(path.len() as int) == path@);
    match find_last_name(path, path.len()) {
        Some((begin, end)) => name_before(path, begin),
        None => None,
    }
}

/// The directory that holds `path`, as characters.
pub fn parent_chars(path: &Vec<char>) -> (r: Option<Vec<char>>)
    ensures
        match r {
            Some(dir) => parent_of(path@) == Some(dir@),
            None => parent_of(path@) is None,
        },
{
    assert(path@.take(path.len() as int) == path@);
    match find_last_name(path, path.len()) {
        Some((begin, end)) => match find_last_name(path, begin) {
            Some((b, e)) => {
                assert(path@.subrange(0, e as int) == path@.take(e as int));
                Some(slice_of(path, 0, e))
            },
            None => {
                let mut dir: Vec<char> = Vec::new();
                if path[0] == '/' {
                    dir.push('/');
                } else if path.len() > 1 && path[0] == '.' && path[1] == '/' {
                    dir.push('.');
                }
                assert(path[0] == '/' ==> dir@ == seq!['/']);
                assert(path[0] != '/' && starts_at_dot(path@) ==> dir@ == dot());
                Some(dir)
            },
        },
        None => if path.len() > 0 && path[0] == '.' {
            Some(Vec::new())
        } else {
            None
        },
    }
}

/// The path of `name` inside the directory `base`, as characters.
pub fn join_chars(base: &Vec<char>, name: &Vec<char>) -> (out: Vec<char>)
    ensures
        out@ == joined(base@, name@),
{
    let mut out: Vec<char> = Vec::new();
    if name.len() > 0 && name[0] == '/' {
        append_chars(&mut out, name);
        assert(out@ == name@);
        return out;
    }
    append_chars(&mut out, base);
    assert(out@ == base@);
    if base.len() > 0 && base[base.len() - 1] != '/' {
        out.push('/');
    }
    append_chars(&mut out, name);
    out
}

/// The final name of `path`: what the file or directory at `path` is
/// called. `None` where `path` holds no name or ends in `..`.
pub fn file_name(path: &str) -> (r: Option<String>)
    ensures
        match r {
            Some(name) => file_name_of(path@) == Some(name@),
            None => file_name_of(path@) is None,
        },
{
    let chars = chars_of(path);
    match file_name_chars(&chars) {
        Some(name) => Some(string_of(&name)),
        None => None,
    }
}

/// The name of the directory that holds `path`. `None` where `path` has
/// fewer than two names or the directory is `..`.
pub fn parent_name(path: &str) -> (r: Option<String>)
    ensures
        match r {
            Some(name) => parent_name_of(path@) == Some(name@),
            None => parent_name_of(path@) is None,
        },
{
    let chars = chars_of(path);
    match parent_name_chars(&chars) {
        Some(name) => Some(string_of(&name)),
        None => None,
    }
}

/// The directory that holds `path`: `/` for a name below the root, `.`
/// for a name written as `./name`, empty for a name alone and for `.`
/// itself. `None` for any other path without a name.
pub fn parent(path: &str) -> (r: Option<String>)
    ensures
        match r {
            Some(dir) => parent_of(path@) == Some(dir@),
            None => parent_of(path@) is None,
        },
{
    let chars = chars_of(path);
    match parent_chars(&chars) {
        Some(dir) => Some(string_of(&dir)),
        None => None,
    }
}

/// The path of `name` inside the directory `base`.
pub fn join(base: &str, name: &str) -> (out: String)
    ensures
        out@ == joined(base@, name@),
{
    let out = join_chars(&chars_of(base), &chars_of(name));
    string_of(&out)
}

} // verus!
