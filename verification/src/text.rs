//! Character-level text: conversion, comparison, trimming, searching and
//! replacing. Every parser of this crate works on `Vec<char>` and states
//! its contract over `Seq<char>`, the view of `str` and `String`.

use vstd::prelude::*;

verus! {

/// The characters of `s`, in order.
pub fn chars_of(s: &str) -> (v: Vec<char>)
    ensures
        v@ == s@,
{
    let mut v: Vec<char> = Vec::new();
    for c in it: s.chars()
        invariant
            it.seq() == s@,
            v@ == s@.take(it.index() as int),
    {
        v.push(c);
    }
    v
}

/// `String::from_iter` over the characters of a slice: the string that
/// holds exactly these characters in this order.
#[verifier::external_body]
pub(crate) fn text_of(chars: &[char]) -> (s: String)
    ensures
        s@ == chars@,
{
    String::from_iter(chars.iter())
}

/// A copy of the part `[from, to)` of `v`.
pub fn slice_of(v: &[char], from: usize, to: usize) -> (r: Vec<char>)
    requires
        from <= to <= v.len(),
    ensures
        r@ == v@.subrange(from as int, to as int),
{
    let mut r: Vec<char> = Vec::new();
    let mut i: usize = from;
    while i < to
        invariant
            from <= i <= to <= v.len(),
            r@ == v@.subrange(from as int, i as int),
        decreases to - i,
    {
        r.push(v[i]);
        i = i + 1;
        assert(r@ =~= v@.subrange(from as int, i as int));
    }
    r
}

/// Appends `more` to `out`.
pub fn push_all(out: &mut Vec<char>, more: &[char])
    ensures
        final(out)@ == old(out)@ + more@,
{
    let mut i: usize = 0;
    while i < more.len()
        invariant
            i <= more.len(),
            out@ == old(out)@ + more@.take(i as int),
        decreases more.len() - i,
    {
        out.push(more[i]);
        i = i + 1;
        assert(out@ =~= old(out)@ + more@.take(i as int));
    }
    assert(more@.take(more.len() as int) =~= more@);
}

/// Whether two slices hold the same characters.
pub fn same_text(a: &[char], b: &[char]) -> (r: bool)
    ensures
        r == (a@ == b@),
{
    if a.len() != b.len() {
        return false;
    }
    let mut i: usize = 0;
    while i < a.len()
        invariant
            i <= a.len(),
            a.len() == b.len(),
            a@.take(i as int) == b@.take(i as int),
        decreases a.len() - i,
    {
        if a[i] != b[i] {
            return false;
        }
        i = i + 1;
        assert(a@.take(i as int) =~= a@.take(i - 1).push(a@[i - 1]));
        assert(b@.take(i as int) =~= b@.take(i - 1).push(b@[i - 1]));
    }
    assert(a@.take(a.len() as int) =~= a@);
    assert(b@.take(b.len() as int) =~= b@);
    true
}

/// Whether `needle` stands in `hay` at index `at`.
pub open spec fn occurs_at(hay: Seq<char>, needle: Seq<char>, at: int) -> bool {
    0 <= at && at + needle.len() <= hay.len() && hay.subrange(at, at + needle.len()) == needle
}

/// Whether `needle` occurs somewhere in `hay`.
pub open spec fn contains_text(hay: Seq<char>, needle: Seq<char>) -> bool {
    exists|at: int| occurs_at(hay, needle, at)
}

/// Whether `needle` stands in `hay` at index `at`.
pub fn matches_at(hay: &[char], needle: &[char], at: usize) -> (r: bool)
    ensures
        r == occurs_at(hay@, needle@, at as int),
{
    if at > hay.len() || needle.len() > hay.len() - at {
        return false;
    }
    let mut i: usize = 0;
    while i < needle.len()
        invariant
            i <= needle.len(),
            at + needle.len() <= hay.len(),
            hay@.subrange(at as int, at + i) == needle@.take(i as int),
        decreases needle.len() - i,
    {
        if hay[at + i] != needle[i] {
            assert(hay@.subrange(at as int, at + needle.len())[i as int] == hay@[at + i]);
            return false;
        }
        i = i + 1;
        assert(hay@.subrange(at as int, at + i) =~= hay@.subrange(at as int, at + i - 1).push(
            hay@[at + i - 1],
        ));
        assert(needle@.take(i as int) =~= needle@.take(i - 1).push(needle@[i - 1]));
    }
    assert(needle@.take(needle.len() as int) =~= needle@);
    true
}

/// Whether `hay` begins with `prefix`.
pub fn starts_with(hay: &[char], prefix: &[char]) -> (r: bool)
    ensures
        r == prefix@.is_prefix_of(hay@),
{
    let r = matches_at(hay, prefix, 0);
    proof {
        if r {
            assert(hay@.subrange(0, prefix@.len() as int) == prefix@);
            assert(prefix@.is_prefix_of(hay@));
        }
        if prefix@.is_prefix_of(hay@) {
            assert(hay@.subrange(0, prefix@.len() as int) =~= prefix@);
        }
    }
    r
}

/// The index of the first occurrence of `needle` in `hay` at or after
/// `from`, if there is one.
pub fn find_text(hay: &[char], needle: &[char], from: usize) -> (r: Option<usize>)
    ensures
        match r {
            Some(at) => from <= at && occurs_at(hay@, needle@, at as int) && forall|j: int|
                from <= j < at ==> !occurs_at(hay@, needle@, j),
            None => forall|j: int| from <= j ==> !occurs_at(hay@, needle@, j),
        },
{
    if from > hay.len() || needle.len() > hay.len() - from {
        return None;
    }
    let last: usize = hay.len() - needle.len();
    let mut i: usize = from;
    loop
        invariant
            from <= i <= last,
            last == hay.len() - needle.len(),
            forall|j: int| from <= j < i ==> !occurs_at(hay@, needle@, j),
        decreases last - i,
    {
        if matches_at(hay, needle, i) {
            return Some(i);
        }
        if i == last {
            return None;
        }
        i = i + 1;
    }
}

/// The index of the first `c` in `s`, or the length of `s` if it holds none.
pub open spec fn first_index(s: Seq<char>, c: char) -> int
    decreases s.len(),
{
    if s.len() == 0 || s[0] == c {
        0
    } else {
        1 + first_index(s.skip(1), c)
    }
}

/// `first_index` is the one index before which no `c` stands and at which,
/// if it is inside `s`, one does.
pub proof fn lemma_first_index(s: Seq<char>, c: char, i: int)
    requires
        0 <= i <= s.len(),
        forall|j: int| 0 <= j < i ==> s[j] != c,
        i < s.len() ==> s[i] == c,
    ensures
        first_index(s, c) == i,
    decreases s.len(),
{
    if s.len() == 0 || s[0] == c {
    } else {
        let t = s.skip(1);
        assert forall|j: int| 0 <= j < i - 1 implies t[j] != c by {
            assert(t[j] == s[j + 1]);
        }
        lemma_first_index(t, c, i - 1);
    }
}

/// The part of `s` before its first `c`; all of `s` if it holds none.
pub open spec fn before_char(s: Seq<char>, c: char) -> Seq<char> {
    s.take(first_index(s, c))
}

/// The index of the first `c` in `v`, or the length of `v`.
pub fn find_char(v: &[char], c: char) -> (i: usize)
    ensures
        i == first_index(v@, c),
        i <= v.len(),
{
    let mut i: usize = 0;
    while i < v.len() && v[i] != c
        invariant
            i <= v.len(),
            forall|j: int| 0 <= j < i ==> v@[j] != c,
        decreases v.len() - i,
    {
        i = i + 1;
    }
    proof {
        lemma_first_index(v@, c, i as int);
    }
    i
}

/// The characters that `str::trim` removes: Unicode's `White_Space`.
pub open spec fn is_space(c: char) -> bool {
    let n = c as u32;
    (0x09 <= n <= 0x0d) || n == 0x20 || n == 0x85 || n == 0xa0 || n == 0x1680 || (0x2000 <= n
        <= 0x200a) || n == 0x2028 || n == 0x2029 || n == 0x202f || n == 0x205f || n == 0x3000
}

/// Whether `c` is white space.
pub fn is_space_char(c: char) -> (r: bool)
    ensures
        r == is_space(c),
{
    let n: u32 = c as u32;
    (0x09 <= n && n <= 0x0d) || n == 0x20 || n == 0x85 || n == 0xa0 || n == 0x1680 || (0x2000 <= n
        && n <= 0x200a) || n == 0x2028 || n == 0x2029 || n == 0x202f || n == 0x205f || n == 0x3000
}

/// `s` without its leading white space.
pub open spec fn trim_start(s: Seq<char>) -> Seq<char>
    decreases s.len(),
{
    if s.len() > 0 && is_space(s[0]) {
        trim_start(s.skip(1))
    } else {
        s
    }
}

/// `s` without its trailing white space.
pub open spec fn trim_end(s: Seq<char>) -> Seq<char>
    decreases s.len(),
{
    if s.len() > 0 && is_space(s.last()) {
        trim_end(s.drop_last())
    } else {
        s
    }
}

/// `s` without leading and trailing white space.
pub open spec fn trimmed(s: Seq<char>) -> Seq<char> {
    trim_end(trim_start(s))
}

/// `trim_start` drops exactly the leading run of white space.
pub proof fn lemma_trim_start(s: Seq<char>, a: int)
    requires
        0 <= a <= s.len(),
        forall|j: int| 0 <= j < a ==> is_space(s[j]),
        a < s.len() ==> !is_space(s[a]),
    ensures
        trim_start(s) == s.skip(a),
    decreases s.len(),
{
    if s.len() > 0 && is_space(s[0]) {
        let t = s.skip(1);
        assert forall|j: int| 0 <= j < a - 1 implies is_space(t[j]) by {
            assert(t[j] == s[j + 1]);
        }
        lemma_trim_start(t, a - 1);
        assert(t.skip(a - 1) =~= s.skip(a));
    } else {
        assert(s.skip(0) =~= s);
    }
}

/// `trim_end` drops exactly the trailing run of white space.
pub proof fn lemma_trim_end(s: Seq<char>, b: int)
    requires
        0 <= b <= s.len(),
        forall|j: int| b <= j < s.len() ==> is_space(s[j]),
        b > 0 ==> !is_space(s[b - 1]),
    ensures
        trim_end(s) == s.take(b),
    decreases s.len(),
{
    if s.len() > 0 && is_space(s.last()) {
        let t = s.drop_last();
        lemma_trim_end(t, b);
        assert(t.take(b) =~= s.take(b));
    } else {
        assert(s.take(s.len() as int) =~= s);
    }
}

/// The bounds of the trimmed part of `v[from..to]`.
pub fn trim_bounds(v: &[char], from: usize, to: usize) -> (r: (usize, usize))
    requires
        from <= to <= v.len(),
    ensures
        from <= r.0 <= r.1 <= to,
        v@.subrange(r.0 as int, r.1 as int) == trimmed(v@.subrange(from as int, to as int)),
{
    let mut a: usize = from;
    while a < to && is_space_char(v[a])
        invariant
            from <= a <= to <= v.len(),
            forall|j: int| from <= j < a ==> is_space(v@[j]),
        decreases to - a,
    {
        a = a + 1;
    }
    let mut b: usize = to;
    while b > a && is_space_char(v[b - 1])
        invariant
            a <= b <= to <= v.len(),
            forall|j: int| b <= j < to ==> is_space(v@[j]),
        decreases b,
    {
        b = b - 1;
    }
    proof {
        let s = v@.subrange(from as int, to as int);
        lemma_trim_start(s, a - from);
        let t = s.skip(a - from);
        assert(t =~= v@.subrange(a as int, to as int));
        lemma_trim_end(t, b - a);
        assert(t.take(b - a) =~= v@.subrange(a as int, b as int));
    }
    (a, b)
}

/// A list entry as it counts: what stands before the first `#`, trimmed.
pub open spec fn entry_text(line: Seq<char>) -> Seq<char> {
    trimmed(before_char(line, '#'))
}

/// The entry that a list line holds: the line without its `#` comment and
/// without the white space around what is left.
pub fn entry_of(line: &[char]) -> (r: Vec<char>)
    ensures
        r@ == entry_text(line@),
{
    let cut = find_char(line, '#');
    let (a, b) = trim_bounds(line, 0, cut);
    assert(line@.subrange(0, cut as int) =~= line@.take(cut as int));
    slice_of(line, a, b)
}

/// `hay` with every occurrence of `needle` replaced by `with`, taking the
/// occurrences from the left and never overlapping, as `str::replace` does.
pub open spec fn replaced(hay: Seq<char>, needle: Seq<char>, with: Seq<char>) -> Seq<char>
    decreases hay.len(),
{
    if needle.len() == 0 || hay.len() == 0 {
        hay
    } else if needle.is_prefix_of(hay) {
        with + replaced(hay.skip(needle.len() as int), needle, with)
    } else {
        seq![hay[0]] + replaced(hay.skip(1), needle, with)
    }
}

/// `hay` with every occurrence of the non-empty `needle` replaced by `with`.
pub fn replace_all(hay: &[char], needle: &[char], with: &[char]) -> (r: Vec<char>)
    requires
        needle.len() > 0,
    ensures
        r@ == replaced(hay@, needle@, with@),
{
    let mut out: Vec<char> = Vec::new();
    let mut i: usize = 0;
    assert(hay@.skip(0) =~= hay@);
    assert(out@ + replaced(hay@, needle@, with@) =~= replaced(hay@, needle@, with@));
    while i < hay.len()
        invariant
            i <= hay.len(),
            needle.len() > 0,
            out@ + replaced(hay@.skip(i as int), needle@, with@) == replaced(
                hay@,
                needle@,
                with@,
            ),
        decreases hay.len() - i,
    {
        let ghost rest = hay@.skip(i as int);
        let ghost before = out@;
        if matches_at(hay, needle, i) {
            assert(rest.subrange(0, needle@.len() as int) =~= hay@.subrange(
                i as int,
                i + needle@.len(),
            ));
            assert(needle@.is_prefix_of(rest));
            push_all(&mut out, with);
            i = i + needle.len();
            assert(rest.skip(needle@.len() as int) =~= hay@.skip(i as int));
            assert(out@ + replaced(hay@.skip(i as int), needle@, with@) =~= before + replaced(
                rest,
                needle@,
                with@,
            ));
        } else {
            assert(!needle@.is_prefix_of(rest)) by {
                if needle@.is_prefix_of(rest) {
                    assert(rest.subrange(0, needle@.len() as int) =~= hay@.subrange(
                        i as int,
                        i + needle@.len(),
                    ));
                }
            }
            out.push(hay[i]);
            i = i + 1;
            assert(rest.skip(1) =~= hay@.skip(i as int));
            assert(out@ + replaced(hay@.skip(i as int), needle@, with@) =~= before + replaced(
                rest,
                needle@,
                with@,
            ));
        }
    }
    assert(out@ + Seq::<char>::empty() =~= out@);
    out
}

} // verus!

verus! {

/// Whether two strings hold the same characters.
pub fn same_str(a: &str, b: &str) -> (r: bool)
    ensures
        r == (a@ == b@),
{
    let x = a.as_bytes();
    let y = b.as_bytes();
    proof {
        vstd::utf8::encode_utf8_decode_utf8(a@);
        vstd::utf8::encode_utf8_decode_utf8(b@);
    }
    if x.len() != y.len() {
        return false;
    }
    let mut i: usize = 0;
    while i < x.len()
        invariant
            i <= x.len(),
            x.len() == y.len(),
            x@ == vstd::utf8::encode_utf8(a@),
            y@ == vstd::utf8::encode_utf8(b@),
            x@.take(i as int) == y@.take(i as int),
        decreases x.len() - i,
    {
        if x[i] != y[i] {
            return false;
        }
        i = i + 1;
        assert(x@.take(i as int) =~= x@.take(i - 1).push(x@[i - 1]));
        assert(y@.take(i as int) =~= y@.take(i - 1).push(y@[i - 1]));
    }
    assert(x@.take(x.len() as int) =~= x@);
    assert(y@.take(y.len() as int) =~= y@);
    true
}

} // verus!

verus! {

/// Whether `at` is the index of the first occurrence of `needle` in `hay`.
pub open spec fn is_first_occurrence(hay: Seq<char>, needle: Seq<char>, at: int) -> bool {
    occurs_at(hay, needle, at) && forall|j: int| 0 <= j < at ==> !occurs_at(hay, needle, j)
}

/// The index of the first occurrence of `needle` in `hay`, if it occurs.
pub open spec fn first_occurrence(hay: Seq<char>, needle: Seq<char>) -> Option<int> {
    if contains_text(hay, needle) {
        Some(choose|at: int| is_first_occurrence(hay, needle, at))
    } else {
        None
    }
}

/// There is one first occurrence at most.
pub proof fn lemma_first_occurrence(hay: Seq<char>, needle: Seq<char>, at: int)
    requires
        is_first_occurrence(hay, needle, at),
    ensures
        first_occurrence(hay, needle) == Some(at),
{
    let c = choose|c: int| is_first_occurrence(hay, needle, c);
    assert(occurs_at(hay, needle, at));
    if c < at {
        assert(!occurs_at(hay, needle, c));
    }
    if at < c {
        assert(!occurs_at(hay, needle, at));
    }
}

/// The index of the first occurrence of `needle` in `hay`, if it occurs.
pub fn find_first(hay: &[char], needle: &[char]) -> (r: Option<usize>)
    ensures
        first_occurrence(hay@, needle@) == match r {
            Some(at) => Some(at as int),
            None => None,
        },
        r matches Some(at) ==> is_first_occurrence(hay@, needle@, at as int),
{
    let r = find_text(hay, needle, 0);
    proof {
        match r {
            Some(at) => {
                lemma_first_occurrence(hay@, needle@, at as int);
            },
            None => {},
        }
    }
    r
}

/// Whether one of the parts of `s` between the separators `sep`, trimmed,
/// is `wanted`.
pub open spec fn any_part_is(s: Seq<char>, sep: char, wanted: Seq<char>) -> bool
    decreases s.len(),
{
    let i = first_index(s, sep);
    trimmed(s.take(i)) == wanted || (0 <= i < s.len() && any_part_is(s.skip(i + 1), sep, wanted))
}

/// Whether one of the parts of `s` between the separators `sep`, trimmed,
/// is `wanted`.
pub fn has_part(s: &[char], sep: char, wanted: &[char]) -> (r: bool)
    ensures
        r == any_part_is(s@, sep, wanted@),
{
    let mut start: usize = 0;
    assert(s@.skip(0) =~= s@);
    loop
        invariant
            start <= s.len(),
            any_part_is(s@, sep, wanted@) == any_part_is(s@.skip(start as int), sep, wanted@),
        decreases s.len() - start,
    {
        let rest = vstd::slice::slice_subrange(s, start, s.len());
        assert(rest@ =~= s@.skip(start as int));
        let i = find_char(rest, sep);
        let (a, b) = trim_bounds(rest, 0, i);
        assert(rest@.subrange(0, i as int) =~= rest@.take(i as int));
        let part = slice_of(rest, a, b);
        if same_text(part.as_slice(), wanted) {
            return true;
        }
        if i == rest.len() {
            return false;
        }
        assert(rest@.skip(i + 1) =~= s@.skip(start + i + 1));
        start = start + i + 1;
    }
}

} // verus!
