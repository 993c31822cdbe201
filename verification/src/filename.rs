use vstd::prelude::*;
use crate::numeral::{spec_decimal, usize_to_string};

verus! {

/// The index of the first occurrence of `c` in `s`, or `s.len()` if
/// `c` does not occur.
pub open spec fn find_first(s: Seq<char>, c: char) -> int
    decreases s.len(),
{
    if s.len() == 0 {
        0
    } else if s.first() == c {
        0
    } else {
        1 + find_first(s.drop_first(), c)
    }
}

/// The index of the last occurrence of `c` in `s`, or `-1` if `c`
/// does not occur.
pub open spec fn find_last(s: Seq<char>, c: char) -> int
    decreases s.len(),
{
    if s.len() == 0 {
        -1
    } else if s.last() == c {
        s.len() - 1
    } else {
        find_last(s.drop_last(), c)
    }
}

/// `find_first(s, c)` is the unique position `i` such that `c` does not
/// occur before `i` and either `i` is the end of `s` or `s[i] == c`.
pub proof fn lemma_find_first_is(s: Seq<char>, c: char, i: int)
    requires
        0 <= i <= s.len(),
        forall|j: int| 0 <= j < i ==> s[j] != c,
        i < s.len() ==> s[i] == c,
    ensures
        find_first(s, c) == i,
    decreases s.len(),
{
    if s.len() == 0 {
    } else if s.first() == c {
        assert(i == 0);
    } else {
        assert(i >= 1);
        lemma_find_first_is(s.drop_first(), c, i - 1);
    }
}

/// `find_last(s, c)` is the unique position `i` such that `c` does not
/// occur after `i` and either `i` is `-1` or `s[i] == c`.
pub proof fn lemma_find_last_is(s: Seq<char>, c: char, i: int)
    requires
        -1 <= i < s.len(),
        forall|j: int| i < j < s.len() ==> s[j] != c,
        i >= 0 ==> s[i] == c,
    ensures
        find_last(s, c) == i,
    decreases s.len(),
{
    if s.len() == 0 {
    } else if s.last() == c {
        assert(i == s.len() - 1);
    } else {
        assert(i < s.len() - 1);
        lemma_find_last_is(s.drop_last(), c, i);
    }
}

/// Bounds of `find_last`, and that it points at an occurrence.
pub proof fn lemma_find_last_bounds(s: Seq<char>, c: char)
    ensures
        -1 <= find_last(s, c) < s.len(),
        find_last(s, c) >= 0 ==> s[find_last(s, c)] == c,
    decreases s.len(),
{
    if s.len() == 0 {
    } else if s.last() == c {
    } else {
        lemma_find_last_bounds(s.drop_last(), c);
    }
}

/// The URL up to but not including its first `?`: the part of the URL
/// whose trailing path segment names the file.
pub open spec fn spec_strip_query(u: Seq<char>) -> Seq<char> {
    u.take(find_first(u, '?'))
}

/// The part of `p` after its last `/` (all of `p` if it has none).
pub open spec fn spec_last_segment(p: Seq<char>) -> Seq<char> {
    p.subrange(find_last(p, '/') + 1, p.len() as int)
}

/// The extension of the file name `seg`: the part after the last `.`,
/// provided that dot is not the leading character (a name such as
/// `.config` has no extension).
pub open spec fn spec_extension(seg: Seq<char>) -> Option<Seq<char>> {
    let d = find_last(seg, '.');
    if d >= 1 {
        Some(seg.subrange(d + 1, seg.len() as int))
    } else {
        None
    }
}

/// The extension that a download saved from `u` is given: the extension
/// of the last path segment of `u`, query string ignored.
pub open spec fn spec_url_extension(u: Seq<char>) -> Option<Seq<char>> {
    spec_extension(spec_last_segment(spec_strip_query(u)))
}

/// The name of the file a download from `u` with success index `index`
/// is written to: the decimal index, then `.` and the URL's extension
/// if it has one.
pub open spec fn spec_file_name(index: nat, u: Seq<char>) -> Seq<char> {
    match spec_url_extension(u) {
        Some(e) => spec_decimal(index) + seq!['.'] + e,
        None => spec_decimal(index),
    }
}

/// Returns `u` up to but not including its first `?`.
pub fn strip_query<'a>(u: &'a str) -> (r: &'a str)
    ensures
        r@ == spec_strip_query(u@),
{
    let len = u.unicode_len();
    let mut i: usize = 0;
    while i < len
        invariant
            i <= len,
            len == u@.len(),
            forall|j: int| 0 <= j < i ==> u@[j] != '?',
        decreases len - i,
    {
        if u.get_char(i) == '?' {
            proof {
                lemma_find_first_is(u@, '?', i as int);
            }
            return u.substring_char(0, i);
        }
        i += 1;
    }
    proof {
        lemma_find_first_is(u@, '?', len as int);
        assert(u@.take(len as int) =~= u@);
    }
    u
}

/// Returns the part of `p` after its last `/` (all of `p` if it has none).
pub fn last_segment<'a>(p: &'a str) -> (r: &'a str)
    ensures
        r@ == spec_last_segment(p@),
{
    let len = p.unicode_len();
    let mut i: usize = 0;
    let mut start: usize = 0;
    while i < len
        invariant
            i <= len,
            start <= i,
            len == p@.len(),
            start >= 1 ==> p@[start as int - 1] == '/',
            forall|j: int| start <= j < i ==> p@[j] != '/',
            start == 0 ==> forall|j: int| 0 <= j < i ==> p@[j] != '/',
        decreases len - i,
    {
        if p.get_char(i) == '/' {
            start = i + 1;
        }
        i += 1;
    }
    proof {
        lemma_find_last_is(p@, '/', start as int - 1);
    }
    p.substring_char(start, len)
}

/// Returns the extension of the file name `seg`, if it has one.
pub fn segment_extension<'a>(seg: &'a str) -> (r: Option<&'a str>)
    ensures
        r is Some <==> spec_extension(seg@) is Some,
        r is Some ==> r->Some_0@ == spec_extension(seg@)->Some_0,
{
    let len = seg.unicode_len();
    let mut i: usize = 0;
    let mut dot: usize = 0;
    let mut found = false;
    while i < len
        invariant
            i <= len,
            len == seg@.len(),
            found ==> dot < i && seg@[dot as int] == '.',
            found ==> forall|j: int| dot < j < i ==> seg@[j] != '.',
            !found ==> forall|j: int| 0 <= j < i ==> seg@[j] != '.',
        decreases len - i,
    {
        if seg.get_char(i) == '.' {
            dot = i;
            found = true;
        }
        i += 1;
    }
    proof {
        if found {
            lemma_find_last_is(seg@, '.', dot as int);
        } else {
            lemma_find_last_is(seg@, '.', -1);
        }
    }
    if found && dot >= 1 {
        Some(seg.substring_char(dot + 1, len))
    } else {
        None
    }
}

/// Returns the extension a download from `u` is given, if any: the
/// extension of the last path segment of `u`, query string ignored.
pub fn url_extension<'a>(u: &'a str) -> (r: Option<&'a str>)
    ensures
        r is Some <==> spec_url_extension(u@) is Some,
        r is Some ==> r->Some_0@ == spec_url_extension(u@)->Some_0,
{
    let stripped = strip_query(u);
    let seg = last_segment(stripped);
    segment_extension(seg)
}

/// Builds the file name for a download from `u` with success index
/// `index`: the decimal index, then `.` and the URL's extension if it
/// has one (e.g. index 3 and a `.../3.jpg?x=1` URL give `3.jpg`).
pub fn file_name_for(index: usize, u: &str) -> (r: String)
    ensures
        r@ == spec_file_name(index as nat, u@),
{
    let base = usize_to_string(index);
    match url_extension(u) {
        Some(ext) => {
            proof {
                reveal_strlit(".");
            }
            let with_dot = base.concat(".");
            let r = with_dot.concat(ext);
            proof {
                assert(r@ =~= spec_file_name(index as nat, u@));
            }
            r
        },
        None => base,
    }
}

/// The query string of a URL plays no part in the derived extension:
/// appending `?` and any query to a query-free URL leaves the
/// extension unchanged.
pub proof fn lemma_extension_ignores_query(base: Seq<char>, query: Seq<char>)
    requires
        !base.contains('?'),
    ensures
        spec_url_extension(base + seq!['?'] + query) == spec_url_extension(base),
{
    let u = base + seq!['?'] + query;
    assert forall|j: int| 0 <= j < base.len() implies u[j] != '?' by {
        assert(u[j] == base[j]);
        assert(!base.contains('?'));
    }
    lemma_find_first_is(u, '?', base.len() as int);
    lemma_find_first_is(base, '?', base.len() as int);
    assert(u.take(base.len() as int) =~= base);
    assert(base.take(base.len() as int) =~= base);
}

/// A URL whose last path segment has no dot yields a bare-index file
/// name, with no extension and no dot.
pub proof fn lemma_no_extension_bare_index(index: nat, u: Seq<char>)
    requires
        !spec_last_segment(spec_strip_query(u)).contains('.'),
    ensures
        spec_file_name(index, u) == spec_decimal(index),
{
    let seg = spec_last_segment(spec_strip_query(u));
    lemma_find_last_bounds(seg, '.');
    assert(find_last(seg, '.') < 0) by {
        if find_last(seg, '.') >= 0 {
            assert(seg[find_last(seg, '.')] == '.');
            assert(seg.contains('.'));
        }
    }
}

} // verus!
