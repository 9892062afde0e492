use vstd::prelude::*;

verus! {

/// The extensions that every scanner mounts by default.
pub open spec fn supported_ext(e: Seq<char>) -> bool {
    e == seq!['m', 'k', 'v'] || e == seq!['m', 'p', '4'] || e == seq!['a', 'v', 'i']
}

/// Index of the last occurrence of `c` in `s`, or -1.
pub open spec fn last_index_of(s: Seq<char>, c: char) -> int
    decreases s.len(),
{
    if s.len() == 0 {
        -1
    } else if s.last() == c {
        s.len() - 1
    } else {
        last_index_of(s.drop_last(), c)
    }
}

/// Some component of the path starts with a dot.
pub open spec fn hidden(p: Seq<char>) -> bool {
    exists|i: int| 0 <= i < p.len() && #[trigger] p[i] == '.' && (i == 0 || p[i - 1] == '/')
}

/// The last component of a path; none where the path ends in a separator or
/// its last component is `.` or `..`.
pub open spec fn file_name_of(p: Seq<char>) -> Option<Seq<char>> {
    let n = p.subrange(last_index_of(p, '/') + 1, p.len() as int);
    if n.len() == 0 || n == seq!['.'] || n == seq!['.', '.'] {
        None
    } else {
        Some(n)
    }
}

/// The extension of a file name: what follows its last dot, where that dot
/// is not the name's first character.
pub open spec fn extension_of_name(n: Seq<char>) -> Option<Seq<char>> {
    let k = last_index_of(n, '.');
    if k <= 0 {
        None
    } else {
        Some(n.subrange(k + 1, n.len() as int))
    }
}

/// A file name without its extension.
pub open spec fn stem_of_name(n: Seq<char>) -> Seq<char> {
    let k = last_index_of(n, '.');
    if k <= 0 {
        n
    } else {
        n.subrange(0, k)
    }
}

pub open spec fn extension_of(p: Seq<char>) -> Option<Seq<char>> {
    match file_name_of(p) {
        Some(n) => extension_of_name(n),
        None => None,
    }
}

/// The bare file name of a path: its last component without the extension.
pub open spec fn bare_name_of(p: Seq<char>) -> Option<Seq<char>> {
    match file_name_of(p) {
        Some(n) => Some(stem_of_name(n)),
        None => None,
    }
}

pub open spec fn has_supported_ext(p: Seq<char>) -> bool {
    match extension_of(p) {
        Some(e) => supported_ext(e),
        None => false,
    }
}

/// A walked path is mounted when no component is hidden and its extension
/// is supported.
pub open spec fn mountable(p: Seq<char>) -> bool {
    !hidden(p) && has_supported_ext(p)
}

proof fn lemma_last_index_is(s: Seq<char>, c: char, k: int)
    requires
        -1 <= k < s.len(),
        k >= 0 ==> s[k] == c,
        forall|j: int| k < j < s.len() ==> s[j] != c,
    ensures
        last_index_of(s, c) == k,
    decreases s.len(),
{
    if s.len() > 0 && k < s.len() - 1 {
        lemma_last_index_is(s.drop_last(), c, k);
    }
}

/// Relies on str::chars collected into a Vec: the characters of the string in order.
#[verifier::external_body]
pub(crate) fn chars_of(s: &str) -> (r: Vec<char>)
    ensures
        r@ == s@,
{
    s.chars().collect()
}

/// Relies on collecting chars into a String: the string of the characters
/// of `v` from `lo` up to `hi`.
#[verifier::external_body]
pub(crate) fn string_of(v: &Vec<char>, lo: usize, hi: usize) -> (r: String)
    requires
        lo <= hi <= v.len(),
    ensures
        r@ == v@.subrange(lo as int, hi as int),
{
    v[lo..hi].iter().collect()
}

fn last_index(v: &Vec<char>, lo: usize, c: char) -> (r: usize)
    requires
        lo <= v.len(),
    ensures
        lo <= r <= v.len(),
        r < v.len() ==> v@[r as int] == c,
        forall|j: int| r < j < v.len() && lo <= j ==> v@[j] != c,
        r == v.len() ==> forall|j: int| lo <= j < v.len() ==> v@[j] != c,
{
    let mut i: usize = v.len();
    while i > lo
        invariant
            lo <= i <= v.len(),
            forall|j: int| i <= j < v.len() ==> v@[j] != c,
        decreases i,
    {
        if v[i - 1] == c {
            return i - 1;
        }
        i = i - 1;
    }
    v.len()
}

/// Start of the last component and the index of the last dot in it (or the
/// length where there is none).
fn split_points(v: &Vec<char>) -> (r: (usize, usize))
    ensures
        r.0 == last_index_of(v@, '/') + 1,
        r.0 <= r.1 <= v.len(),
        r.1 < v.len() ==> r.1 - r.0 == last_index_of(v@.subrange(r.0 as int, v.len() as int), '.'),
        r.1 == v.len() ==> last_index_of(v@.subrange(r.0 as int, v.len() as int), '.') == -1,
{
    let s = last_index(v, 0, '/');
    let start: usize = if s < v.len() { s + 1 } else { 0 };
    proof {
        if s < v.len() {
            lemma_last_index_is(v@, '/', s as int);
        } else {
            lemma_last_index_is(v@, '/', -1);
        }
    }
    let d = last_index(v, start, '.');
    proof {
        let n = v@.subrange(start as int, v.len() as int);
        if d < v.len() {
            lemma_last_index_is(n, '.', d - start);
        } else {
            lemma_last_index_is(n, '.', -1);
        }
    }
    (start, d)
}

fn is_dot_name(v: &Vec<char>, start: usize) -> (r: bool)
    requires
        start <= v.len(),
    ensures
        r == (v@.subrange(start as int, v.len() as int) == seq!['.']
            || v@.subrange(start as int, v.len() as int) == seq!['.', '.']),
{
    let n = v.len() - start;
    let r = if n == 1 {
        v[start] == '.'
    } else if n == 2 {
        v[start] == '.' && v[start + 1] == '.'
    } else {
        false
    };
    proof {
        let s = v@.subrange(start as int, v.len() as int);
        if n == 1 {
            assert(s.len() == 1 && s[0] == v@[start as int]);
            if r { assert(s =~= seq!['.']); }
        } else if n == 2 {
            assert(s.len() == 2 && s[0] == v@[start as int] && s[1] == v@[start + 1]);
            if r { assert(s =~= seq!['.', '.']); }
        } else {
            assert(s.len() != 1 && s.len() != 2);
        }
    }
    r
}

/// Whether some component of `path` starts with a dot.
pub fn is_hidden_path(path: &str) -> (r: bool)
    ensures
        r == hidden(path@),
{
    let v = chars_of(path);
    let mut i: usize = 0;
    while i < v.len()
        invariant
            i <= v.len(),
            v@ == path@,
            forall|j: int| 0 <= j < i ==> !(#[trigger] v@[j] == '.' && (j == 0 || v@[j - 1] == '/')),
        decreases v.len() - i,
    {
        if v[i] == '.' && (i == 0 || v[i - 1] == '/') {
            return true;
        }
        i = i + 1;
    }
    false
}

/// The last component of `path`, where it has one.
pub fn file_name(path: &str) -> (r: Option<String>)
    ensures
        r is Some <==> file_name_of(path@) is Some,
        r is Some ==> r->0@ == file_name_of(path@)->0,
{
    let v = chars_of(path);
    let (start, _d) = split_points(&v);
    if start == v.len() || is_dot_name(&v, start) {
        None
    } else {
        Some(string_of(&v, start, v.len()))
    }
}

fn is_supported_tail(v: &Vec<char>, from: usize) -> (r: bool)
    requires
        from <= v.len(),
    ensures
        r == supported_ext(v@.subrange(from as int, v.len() as int)),
{
    let ghost e = v@.subrange(from as int, v.len() as int);
    if v.len() - from != 3 {
        assert(e.len() != 3);
        return false;
    }
    let (a, b, c) = (v[from], v[from + 1], v[from + 2]);
    assert(e[0] == a && e[1] == b && e[2] == c);
    let r = (a == 'm' && b == 'k' && c == 'v') || (a == 'm' && b == 'p' && c == '4') || (a == 'a'
        && b == 'v' && c == 'i');
    proof {
        if a == 'm' && b == 'k' && c == 'v' {
            assert(e =~= seq!['m', 'k', 'v']);
        }
        if a == 'm' && b == 'p' && c == '4' {
            assert(e =~= seq!['m', 'p', '4']);
        }
        if a == 'a' && b == 'v' && c == 'i' {
            assert(e =~= seq!['a', 'v', 'i']);
        }
    }
    r
}

/// Whether the extension of `path` is one of `mkv`, `mp4` and `avi`.
pub fn has_supported_extension(path: &str) -> (r: bool)
    ensures
        r == has_supported_ext(path@),
{
    let v = chars_of(path);
    let (start, d) = split_points(&v);
    let ghost n = v@.subrange(start as int, v.len() as int);
    if start == v.len() || is_dot_name(&v, start) {
        return false;
    }
    if d == v.len() || d == start {
        return false;
    }
    let r = is_supported_tail(&v, d + 1);
    assert(n.subrange(d - start + 1, n.len() as int) =~= v@.subrange(d + 1, v.len() as int));
    r
}

/// Whether a walked path is to be mounted: no hidden component and a
/// supported extension.
pub fn should_mount(path: &str) -> (r: bool)
    ensures
        r == mountable(path@),
{
    !is_hidden_path(path) && has_supported_extension(path)
}

/// The last component of `path` without its extension, where it has a last
/// component.
pub fn bare_file_name(path: &str) -> (r: Option<String>)
    ensures
        r is Some <==> bare_name_of(path@) is Some,
        r is Some ==> r->0@ == bare_name_of(path@)->0,
{
    let v = chars_of(path);
    let (start, d) = split_points(&v);
    if start == v.len() || is_dot_name(&v, start) {
        return None;
    }
    let ghost n = v@.subrange(start as int, v.len() as int);
    if d == v.len() || d == start {
        Some(string_of(&v, start, v.len()))
    } else {
        assert(n.subrange(0, d - start) =~= v@.subrange(start as int, d as int));
        Some(string_of(&v, start, d))
    }
}

} // verus!
