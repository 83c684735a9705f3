//! Paths as sequences of characters: file names, extensions and containment.
//!
//! Paths are compared as text, component separator `/`. Nothing here touches the
//! file system.

use vstd::prelude::*;

verus! {

/// Index of the last occurrence of `c` in `s`, or -1 if there is none.
pub open spec fn last_index_of(s: Seq<char>, c: char) -> int
    decreases s.len(),
{
    if s.len() == 0 {
        -1
    } else if s.last() == c {
        s.len() - 1
    } else {
        last_index_of(s.drop_last(), c)
    }
}

/// Index at which the file name, the part after the last `/`, begins.
pub open spec fn name_start(s: Seq<char>) -> int {
    last_index_of(s, '/') + 1
}

/// Index at which the extension begins, if the path has one: the last `.` must lie in
/// the file name, not at its start, and be followed by at least one character.
pub open spec fn extension_start(s: Seq<char>) -> Option<int> {
    let dot = last_index_of(s, '.');
    if dot > name_start(s) && dot + 1 < s.len() {
        Some(dot + 1)
    } else {
        None
    }
}

/// The extension of the path's file name, without the dot.
pub open spec fn extension(s: Seq<char>) -> Option<Seq<char>> {
    match extension_start(s) {
        Some(i) => Some(s.skip(i)),
        None => None,
    }
}

/// Whether `path` is `dir` itself or lies below it, component by component. An empty
/// `dir` contains nothing.
pub open spec fn is_under(path: Seq<char>, dir: Seq<char>) -> bool {
    &&& dir.len() > 0
    &&& dir.len() <= path.len()
    &&& path.take(dir.len() as int) == dir
    &&& (path.len() == dir.len() || dir.last() == '/' || path[dir.len() as int] == '/')
}

/// A path that cannot name a file: empty, or holding a NUL character.
pub open spec fn is_malformed(path: Seq<char>) -> bool {
    path.len() == 0 || path.contains('\0')
}

/// `last_index_of` yields -1 or the position of an occurrence after which there is no other.
pub proof fn lemma_last_index_of(s: Seq<char>, c: char)
    ensures
        -1 <= last_index_of(s, c) < s.len(),
        last_index_of(s, c) >= 0 ==> s[last_index_of(s, c)] == c,
        forall|k: int| last_index_of(s, c) < k < s.len() ==> s[k] != c,
    decreases s.len(),
{
    if s.len() > 0 && s.last() != c {
        lemma_last_index_of(s.drop_last(), c);
        assert forall|k: int| last_index_of(s, c) < k < s.len() implies s[k] != c by {
            if k < s.len() - 1 {
                assert(s.drop_last()[k] == s[k]);
            }
        }
    }
}

/// A path that ends in `/` names a directory and has no extension.
pub proof fn lemma_directory_has_no_extension(s: Seq<char>)
    requires
        s.len() > 0,
        s.last() == '/',
    ensures
        extension(s) is None,
{
    lemma_last_index_of(s, '.');
}

/// An occurrence with none after it is the last one; with no occurrence the answer is -1.
pub proof fn lemma_last_index_is(s: Seq<char>, c: char, i: int)
    requires
        -1 <= i < s.len(),
        i >= 0 ==> s[i] == c,
        forall|k: int| i < k < s.len() ==> s[k] != c,
    ensures
        last_index_of(s, c) == i,
{
    lemma_last_index_of(s, c);
}

/// The characters of a string, in order.
pub fn chars_of(s: &str) -> (v: Vec<char>)
    ensures
        v@ == s@,
{
    let mut v: Vec<char> = Vec::new();
    for c in it: s.chars()
        invariant
            v@ == it.seq().take(it.index() as int),
            it.seq() == s@,
    {
        v.push(c);
    }
    v
}

/// Position of the last `c` in `v`, if any.
pub fn find_last(v: &Vec<char>, c: char) -> (r: Option<usize>)
    ensures
        match r {
            Some(i) => i < v.len() && i as int == last_index_of(v@, c),
            None => last_index_of(v@, c) == -1,
        },
{
    let mut i: usize = v.len();
    while i > 0
        invariant
            i <= v.len(),
            forall|k: int| i <= k < v.len() ==> v@[k] != c,
        decreases i,
    {
        i = i - 1;
        if v[i] == c {
            proof {
                lemma_last_index_is(v@, c, i as int);
            }
            return Some(i);
        }
    }
    proof {
        lemma_last_index_is(v@, c, -1);
    }
    None
}

/// Position at which the extension of `v` begins, if it has one.
pub fn find_extension(v: &Vec<char>) -> (r: Option<usize>)
    ensures
        match r {
            Some(i) => extension_start(v@) == Some(i as int) && i < v.len(),
            None => extension_start(v@) is None,
        },
{
    proof {
        lemma_last_index_of(v@, '/');
        lemma_last_index_of(v@, '.');
    }
    let start: usize = match find_last(v, '/') {
        Some(i) => i + 1,
        None => 0,
    };
    match find_last(v, '.') {
        Some(dot) => {
            if dot > start && dot + 1 < v.len() {
                Some(dot + 1)
            } else {
                None
            }
        },
        None => None,
    }
}

/// Whether the part of `a` from `from` on equals `b`.
pub fn tail_equals(a: &Vec<char>, from: usize, b: &Vec<char>) -> (r: bool)
    requires
        from <= a.len(),
    ensures
        r == (a@.skip(from as int) == b@),
{
    if a.len() - from != b.len() {
        return false;
    }
    let mut i: usize = 0;
    while i < b.len()
        invariant
            from <= a.len(),
            a.len() - from == b.len(),
            i <= b.len(),
            forall|k: int| 0 <= k < i ==> a@[from + k] == b@[k],
        decreases b.len() - i,
    {
        if a[from + i] != b[i] {
            assert(a@.skip(from as int)[i as int] != b@[i as int]);
            return false;
        }
        i = i + 1;
    }
    assert(a@.skip(from as int) =~= b@);
    true
}

/// Whether `path` is `dir` or lies below it.
pub fn under(path: &Vec<char>, dir: &Vec<char>) -> (r: bool)
    ensures
        r == is_under(path@, dir@),
{
    let n = dir.len();
    if n == 0 || n > path.len() {
        return false;
    }
    let mut i: usize = 0;
    while i < n
        invariant
            n == dir.len(),
            0 < n <= path.len(),
            i <= n,
            forall|k: int| 0 <= k < i ==> path@[k] == dir@[k],
        decreases n - i,
    {
        if path[i] != dir[i] {
            assert(path@.take(n as int)[i as int] != dir@[i as int]);
            return false;
        }
        i = i + 1;
    }
    assert(path@.take(n as int) =~= dir@);
    path.len() == n || dir[n - 1] == '/' || path[n] == '/'
}

/// Whether `path` cannot name a file.
pub fn malformed(path: &Vec<char>) -> (r: bool)
    ensures
        r == is_malformed(path@),
{
    if path.len() == 0 {
        return true;
    }
    let mut i: usize = 0;
    while i < path.len()
        invariant
            i <= path.len(),
            forall|k: int| 0 <= k < i ==> path@[k] != '\0',
        decreases path.len() - i,
    {
        if path[i] == '\0' {
            return true;
        }
        i = i + 1;
    }
    false
}

} // verus!
