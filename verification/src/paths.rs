//! Paths as plain text: joining, the final component, its stem and
//! extension, and the path of a sibling. Which characters separate the
//! components of a path depends on the kind of system, and is an input.

use vstd::prelude::*;
use vstd::string::*;
use crate::text::{chars_of, string_of_range};

verus! {

/// The kind of system that paths are written for.
#[derive(Clone, Copy, Debug, PartialEq, Eq, Structural)]
pub enum PathStyle {
    /// Components are separated by `/`.
    Posix,
    /// Components are separated by `\` or by `/`; `\` is put between them
    /// where a path is built.
    Windows,
}

impl PathStyle {
    /// Whether `c` separates the components of a path.
    pub open spec fn separates(self, c: char) -> bool {
        c == '/' || (self == PathStyle::Windows && c == '\\')
    }

    /// The character that is put between the components of a path.
    pub open spec fn separator(self) -> char {
        match self {
            PathStyle::Posix => '/',
            PathStyle::Windows => '\\',
        }
    }

    /// Whether `c` separates the components of a path.
    pub fn is_separator(self, c: char) -> (b: bool)
        ensures
            b == self.separates(c),
    {
        c == '/' || (self == PathStyle::Windows && c == '\\')
    }

    /// The character that is put between the components of a path.
    pub fn main_separator(self) -> (c: char)
        ensures
            c == self.separator(),
            self.separates(c),
    {
        match self {
            PathStyle::Posix => '/',
            PathStyle::Windows => '\\',
        }
    }
}

/// The character that separates a file name's stem from its extension.
pub const DOT: char = '.';

/// Index of the last occurrence of `c` in `s`, or -1 if there is none.
pub open spec fn last_index_of(s: Seq<char>, c: char) -> int
    decreases s.len(),
{
    if s.len() == 0 {
        -1
    } else if s.last() == c {
        s.len() - 1
    } else {
        last_index_of(s.drop_last(), c)
    }
}

/// `last_index_of` finds an occurrence of `c` after which there is no other,
/// and answers -1 only where `c` does not occur.
pub proof fn lemma_last_index_of(s: Seq<char>, c: char)
    ensures
        -1 <= last_index_of(s, c) < s.len(),
        last_index_of(s, c) >= 0 ==> s[last_index_of(s, c)] == c,
        forall|i: int| last_index_of(s, c) < i < s.len() ==> s[i] != c,
    decreases s.len(),
{
    if s.len() > 0 && s.last() != c {
        let head = s.drop_last();
        lemma_last_index_of(head, c);
        assert forall|i: int| last_index_of(s, c) < i < s.len() implies s[i] != c by {
            if i < head.len() {
                assert(head[i] != c);
            }
        }
    }
}

/// An index that holds `c` and has no `c` after it is the last index of `c`.
pub proof fn lemma_last_index_is(s: Seq<char>, c: char, k: int)
    requires
        -1 <= k < s.len(),
        k >= 0 ==> s[k] == c,
        forall|i: int| k < i < s.len() ==> s[i] != c,
    ensures
        last_index_of(s, c) == k,
{
    lemma_last_index_of(s, c);
}

/// Whether `c` occurs nowhere in `s`.
pub open spec fn lacks(s: Seq<char>, c: char) -> bool {
    forall|i: int| 0 <= i < s.len() ==> s[i] != c
}

/// Index of the last separator in `s`, or -1 if there is none.
pub open spec fn last_separator(s: Seq<char>, style: PathStyle) -> int
    decreases s.len(),
{
    if s.len() == 0 {
        -1
    } else if style.separates(s.last()) {
        s.len() - 1
    } else {
        last_separator(s.drop_last(), style)
    }
}

/// `last_separator` finds a separator after which there is no other, and
/// answers -1 only where there is none.
pub proof fn lemma_last_separator(s: Seq<char>, style: PathStyle)
    ensures
        -1 <= last_separator(s, style) < s.len(),
        last_separator(s, style) >= 0 ==> style.separates(s[last_separator(s, style)]),
        forall|i: int| last_separator(s, style) < i < s.len() ==> !style.separates(s[i]),
    decreases s.len(),
{
    if s.len() > 0 && !style.separates(s.last()) {
        let head = s.drop_last();
        lemma_last_separator(head, style);
        assert forall|i: int| last_separator(s, style) < i < s.len() implies !style.separates(
            s[i],
        ) by {
            if i < head.len() {
                assert(!style.separates(head[i]));
            }
        }
    }
}

/// An index that holds a separator and has none after it is the index of
/// the last separator.
pub proof fn lemma_last_separator_is(s: Seq<char>, style: PathStyle, k: int)
    requires
        -1 <= k < s.len(),
        k >= 0 ==> style.separates(s[k]),
        forall|i: int| k < i < s.len() ==> !style.separates(s[i]),
    ensures
        last_separator(s, style) == k,
{
    lemma_last_separator(s, style);
}

/// Whether `s` holds no separator.
pub open spec fn lacks_separator(s: Seq<char>, style: PathStyle) -> bool {
    forall|i: int| 0 <= i < s.len() ==> !style.separates(s[i])
}

/// `base` followed by `part`: a `part` that starts with a separator stands
/// alone; otherwise one separator is put between the two unless `base` is
/// empty or already ends with one.
pub open spec fn joined(base: Seq<char>, part: Seq<char>, style: PathStyle) -> Seq<char> {
    if part.len() > 0 && style.separates(part[0]) {
        part
    } else if base.len() > 0 && !style.separates(base.last()) {
        base.push(style.separator()) + part
    } else {
        base + part
    }
}

/// Index at which the final component of `p` starts.
pub open spec fn name_start(p: Seq<char>, style: PathStyle) -> int {
    last_separator(p, style) + 1
}

/// The final component of `p`: what follows its last separator.
pub open spec fn file_name(p: Seq<char>, style: PathStyle) -> Seq<char> {
    p.subrange(name_start(p, style), p.len() as int)
}

/// The directory that holds the final component of `p`: what precedes its
/// last separator, the root for a path directly beneath it, and the empty
/// text for a path without a separator.
pub open spec fn directory(p: Seq<char>, style: PathStyle) -> Seq<char> {
    let k = last_separator(p, style);
    if k < 0 {
        Seq::empty()
    } else if k == 0 {
        p.subrange(0, 1)
    } else {
        p.subrange(0, k)
    }
}

/// The path beside `p` whose final component is `name`.
pub open spec fn sibling(p: Seq<char>, name: Seq<char>, style: PathStyle) -> Seq<char> {
    p.subrange(0, name_start(p, style)) + name
}

/// Whether a file name has an extension: a dot that is not its first character.
pub open spec fn has_extension(name: Seq<char>) -> bool {
    last_index_of(name, DOT) > 0
}

/// The file name without its extension and the dot before it.
pub open spec fn stem(name: Seq<char>) -> Seq<char> {
    if has_extension(name) {
        name.subrange(0, last_index_of(name, DOT))
    } else {
        name
    }
}

/// What follows the last dot of a file name that has an extension; empty otherwise.
pub open spec fn extension(name: Seq<char>) -> Seq<char> {
    if has_extension(name) {
        name.subrange(last_index_of(name, DOT) + 1, name.len() as int)
    } else {
        Seq::empty()
    }
}

/// A name without separators, put behind a directory, is the final component
/// of the result.
pub proof fn lemma_file_name_of_joined(base: Seq<char>, name: Seq<char>, style: PathStyle)
    requires
        lacks_separator(name, style),
    ensures
        file_name(joined(base, name, style), style) == name,
        name_start(joined(base, name, style), style) == joined(base, name, style).len()
            - name.len(),
{
    let p = joined(base, name, style);
    let k = p.len() - name.len() - 1;
    assert(forall|i: int| k < i < p.len() ==> p[i] == name[i - k - 1]);
    if k >= 0 {
        if base.len() > 0 && !style.separates(base.last()) {
            assert(p[k] == style.separator());
        } else {
            assert(p =~= base + name);
            assert(p[k] == base.last());
        }
    }
    lemma_last_separator_is(p, style, k);
    assert(file_name(p, style) =~= name);
}

/// A sibling named without separators has that name, and lies where the path
/// it was derived from lies.
pub proof fn lemma_sibling(p: Seq<char>, name: Seq<char>, style: PathStyle)
    requires
        lacks_separator(name, style),
    ensures
        file_name(sibling(p, name, style), style) == name,
        directory(sibling(p, name, style), style) == directory(p, style),
        name_start(sibling(p, name, style), style) == name_start(p, style),
{
    lemma_last_separator(p, style);
    let q = sibling(p, name, style);
    let k = last_separator(p, style);
    assert(forall|i: int| k < i < q.len() ==> q[i] == name[i - k - 1]);
    if k >= 0 {
        assert(q[k] == p[k]);
    }
    lemma_last_separator_is(q, style, k);
    assert(file_name(q, style) =~= name);
    if k > 0 {
        assert(q.subrange(0, k) =~= p.subrange(0, k));
    }
    if k == 0 {
        assert(q.subrange(0, 1) =~= p.subrange(0, 1));
    }
}

/// A file name put together from a stem, a dot and an extension without dots
/// splits into the two again, provided the stem is not empty.
pub proof fn lemma_split_extension(s: Seq<char>, e: Seq<char>)
    requires
        s.len() > 0,
        lacks(e, DOT),
    ensures
        has_extension(s.push(DOT) + e),
        stem(s.push(DOT) + e) == s,
        extension(s.push(DOT) + e) == e,
{
    let n = s.push(DOT) + e;
    let k = s.len() as int;
    assert(forall|i: int| k < i < n.len() ==> n[i] == e[i - k - 1]);
    lemma_last_index_is(n, DOT, k);
    assert(n.subrange(0, k) =~= s);
    assert(n.subrange(k + 1, n.len() as int) =~= e);
}

/// Finds the last occurrence of `c` in `v[from..to]`; the answer counts from `from`.
pub fn last_index_in(v: &Vec<char>, c: char, from: usize, to: usize) -> (r: Option<usize>)
    requires
        from <= to <= v.len(),
    ensures
        match r {
            Some(i) => i < to - from && i == last_index_of(
                v@.subrange(from as int, to as int),
                c,
            ),
            None => last_index_of(v@.subrange(from as int, to as int), c) == -1,
        },
{
    let mut j: usize = to;
    while j > from
        invariant
            from <= j <= to <= v.len(),
            last_index_of(v@.subrange(from as int, to as int), c) == last_index_of(
                v@.subrange(from as int, j as int),
                c,
            ),
        decreases j,
    {
        let ghost part = v@.subrange(from as int, j as int);
        assert(part.last() == v@[j - 1]);
        assert(part.drop_last() =~= v@.subrange(from as int, j - 1));
        if v[j - 1] == c {
            return Some(j - 1 - from);
        }
        j -= 1;
    }
    None
}

/// The index at which the final component of the path `v` starts.
pub fn name_start_in(v: &Vec<char>, style: PathStyle) -> (start: usize)
    ensures
        start == name_start(v@, style),
        start <= v.len(),
{
    let mut j: usize = v.len();
    assert(v@.take(j as int) =~= v@);
    while j > 0
        invariant
            j <= v.len(),
            last_separator(v@, style) == last_separator(v@.take(j as int), style),
        decreases j,
    {
        let ghost part = v@.take(j as int);
        assert(part.last() == v@[j - 1]);
        assert(part.drop_last() =~= v@.take(j - 1));
        if style.is_separator(v[j - 1]) {
            return j;
        }
        j -= 1;
    }
    0
}

/// Joins `part` to `base`.
pub fn join(base: &str, part: &str, style: PathStyle) -> (r: String)
    ensures
        r@ == joined(base@, part@, style),
{
    let b = chars_of(base);
    let p = chars_of(part);
    if p.len() > 0 && style.is_separator(p[0]) {
        return String::from_str(part);
    }
    let mut r = String::from_str(base);
    if b.len() > 0 && !style.is_separator(b[b.len() - 1]) {
        r.push(style.main_separator());
    }
    r.append(part);
    r
}

/// The final component of `path`.
pub fn file_name_of(path: &str, style: PathStyle) -> (r: String)
    ensures
        r@ == file_name(path@, style),
{
    let v = chars_of(path);
    let start = name_start_in(&v, style);
    string_of_range(&v, start, v.len())
}

/// The directory that holds the final component of `path`.
pub fn directory_of(path: &str, style: PathStyle) -> (r: String)
    ensures
        r@ == directory(path@, style),
{
    let v = chars_of(path);
    let start = name_start_in(&v, style);
    if start == 0 {
        String::new()
    } else if start == 1 {
        string_of_range(&v, 0, 1)
    } else {
        string_of_range(&v, 0, start - 1)
    }
}

/// The path beside `path` whose final component is `name`.
pub fn sibling_of(path: &str, name: &str, style: PathStyle) -> (r: String)
    ensures
        r@ == sibling(path@, name@, style),
{
    let v = chars_of(path);
    let start = name_start_in(&v, style);
    let mut r = string_of_range(&v, 0, start);
    r.append(name);
    r
}

} // verus!
