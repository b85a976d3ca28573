//! Small verified utilities over strings and argument vectors: the
//! character-sequence view of an argument list, and pushing and joining
//! under that view.

use vstd::prelude::*;
use vstd::string::*;

verus! {

/// The character sequences of an argument list.
pub open spec fn views(s: Seq<String>) -> Seq<Seq<char>> {
    s.map_values(|x: String| x@)
}

/// Push one literal argument.
pub fn push_str_arg(v: &mut Vec<String>, s: &str)
    ensures
        views(final(v)@) == views(old(v)@).push(s@),
{
    v.push(String::from_str(s));
    proof {
        assert(views(v@) =~= views(old(v)@).push(s@));
    }
}

/// Push one computed argument.
pub fn push_string_arg(v: &mut Vec<String>, s: String)
    ensures
        views(final(v)@) == views(old(v)@).push(s@),
{
    v.push(s);
    proof {
        assert(views(v@) =~= views(old(v)@).push(s@));
    }
}

/// Move every argument of `other` to the end of `v`, in order.
pub fn append_args(v: &mut Vec<String>, other: Vec<String>)
    ensures
        views(final(v)@) == views(old(v)@) + views(other@),
{
    let mut rest = other;
    let ghost all = rest@;
    let mut i: usize = 0;
    while i < rest.len()
        invariant
            rest@ == all,
            i <= all.len(),
            views(v@) == views(old(v)@) + views(all.take(i as int)),
        decreases rest.len() - i,
    {
        let s = rest[i].clone();
        let ghost prev = v@;
        v.push(s);
        proof {
            assert(v@ == prev.push(rest@[i as int]));
            assert(views(prev.push(rest@[i as int])) =~= views(prev).push(rest@[i as int]@));
            assert(views(all.take(i + 1)) =~= views(all.take(i as int)).push(all[i as int]@));
            assert(views(old(v)@) + views(all.take(i as int)).push(all[i as int]@) =~= (views(
                old(v)@,
            ) + views(all.take(i as int))).push(all[i as int]@));
        }
        i = i + 1;
    }
    proof {
        assert(all.take(all.len() as int) =~= all);
    }
}

/// Relies on `String::push`: appends exactly the one character.
#[verifier::external_body]
pub fn push_char(s: &mut String, c: char)
    ensures
        final(s)@ == old(s)@.push(c),
{
    s.push(c);
}

/// The characters the standard library counts as whitespace (the
/// Unicode `White_Space` property).
pub open spec fn spec_is_whitespace(c: char) -> bool {
    let u = c as u32;
    (9 <= u && u <= 13) || u == 32 || u == 0x85 || u == 0xA0 || u == 0x1680 || (0x2000 <= u && u
        <= 0x200A) || u == 0x2028 || u == 0x2029 || u == 0x202F || u == 0x205F || u == 0x3000
}

/// Whether `c` is whitespace (exec mirror of [`spec_is_whitespace`]).
pub fn is_whitespace_char(c: char) -> (r: bool)
    ensures
        r == spec_is_whitespace(c),
{
    let u = c as u32;
    (9 <= u && u <= 13) || u == 32 || u == 0x85 || u == 0xA0 || u == 0x1680 || (0x2000 <= u && u
        <= 0x200A) || u == 0x2028 || u == 0x2029 || u == 0x202F || u == 0x205F || u == 0x3000
}

/// `s` without leading whitespace.
pub open spec fn spec_trim_front(s: Seq<char>) -> Seq<char>
    decreases s.len(),
{
    if s.len() > 0 && spec_is_whitespace(s[0]) {
        spec_trim_front(s.drop_first())
    } else {
        s
    }
}

/// `s` without trailing whitespace.
pub open spec fn spec_trim_back(s: Seq<char>) -> Seq<char>
    decreases s.len(),
{
    if s.len() > 0 && spec_is_whitespace(s.last()) {
        spec_trim_back(s.drop_last())
    } else {
        s
    }
}

/// `s` without leading and trailing whitespace.
pub open spec fn spec_trim(s: Seq<char>) -> Seq<char> {
    spec_trim_back(spec_trim_front(s))
}

/// Trims leading and trailing whitespace (exec mirror of [`spec_trim`]).
pub fn str_trim(s: &str) -> (r: &str)
    ensures
        r@ == spec_trim(s@),
{
    let n = s.unicode_len();
    let mut start: usize = 0;
    proof {
        assert(s@.skip(0) =~= s@);
    }
    while start < n && is_whitespace_char(s.get_char(start))
        invariant
            n == s@.len(),
            start <= n,
            spec_trim_front(s@) == spec_trim_front(s@.skip(start as int)),
        decreases n - start,
    {
        proof {
            assert(s@.skip(start as int)[0] == s@[start as int]);
            assert(s@.skip(start as int).drop_first() =~= s@.skip(start + 1));
        }
        start = start + 1;
    }
    proof {
        if start < n {
            assert(s@.skip(start as int)[0] == s@[start as int]);
        }
        assert(spec_trim_front(s@) == s@.skip(start as int));
    }
    let ghost t = s@.skip(start as int);
    let mut end: usize = n;
    proof {
        assert(t.take((n - start) as int) =~= t);
    }
    while end > start && is_whitespace_char(s.get_char(end - 1))
        invariant
            n == s@.len(),
            start <= end <= n,
            t == s@.skip(start as int),
            spec_trim_back(t) == spec_trim_back(t.take((end - start) as int)),
        decreases end,
    {
        proof {
            let piece = t.take((end - start) as int);
            assert(piece.last() == s@[end - 1]);
            assert(piece.drop_last() =~= t.take((end - 1 - start) as int));
        }
        end = end - 1;
    }
    proof {
        let piece = t.take((end - start) as int);
        if end > start {
            assert(piece.last() == s@[end - 1]);
        }
        assert(spec_trim_back(piece) == piece);
        assert(s@.subrange(start as int, end as int) =~= t.take((end - start) as int));
    }
    s.substring_char(start, end)
}

/// The ASCII-lowercase counterpart of a character.
pub open spec fn spec_lower_char(c: char) -> char {
    if 'A' <= c && c <= 'Z' {
        ((c as u32 + 32) as u8) as char
    } else {
        c
    }
}

/// The string with every ASCII letter lowered.
pub open spec fn spec_to_lower(s: Seq<char>) -> Seq<char> {
    s.map_values(|c: char| spec_lower_char(c))
}

/// Lowers every ASCII letter (exec mirror of [`spec_to_lower`]).
pub fn to_ascii_lower(s: &str) -> (r: String)
    ensures
        r@ == spec_to_lower(s@),
{
    let n = s.unicode_len();
    let mut out = String::new();
    let mut i: usize = 0;
    while i < n
        invariant
            n == s@.len(),
            i <= n,
            out@ == spec_to_lower(s@.take(i as int)),
        decreases n - i,
    {
        let c = s.get_char(i);
        let u = c as u32;
        if 65 <= u && u <= 90 {
            push_char(&mut out, ((u + 32) as u8) as char);
        } else {
            push_char(&mut out, c);
        }
        proof {
            assert(out@ =~= spec_to_lower(s@.take(i + 1)));
        }
        i = i + 1;
    }
    proof {
        assert(s@.take(s@.len() as int) =~= s@);
    }
    out
}

/// The first position where `needle` occurs in `hay`, if any.
pub open spec fn spec_find(hay: Seq<char>, needle: Seq<char>) -> Option<nat>
    decreases hay.len(),
{
    if needle.len() == 0 {
        Some(0nat)
    } else if hay.len() < needle.len() {
        None
    } else if hay.take(needle.len() as int) == needle {
        Some(0nat)
    } else {
        match spec_find(hay.drop_first(), needle) {
            None => None,
            Some(k) => Some(k + 1),
        }
    }
}

/// Whether `needle` occurs anywhere in `hay`.
pub open spec fn spec_contains_str(hay: Seq<char>, needle: Seq<char>) -> bool {
    spec_find(hay, needle) is Some
}

/// Whether the next `m` characters of `hay` at `at` equal `needle`.
fn matches_at(hay: &str, at: usize, needle: &str) -> (r: bool)
    requires
        at + needle@.len() <= hay@.len(),
    ensures
        r == (hay@.subrange(at as int, at + needle@.len()) == needle@),
{
    let n = hay.unicode_len();
    let m = needle.unicode_len();
    let mut j: usize = 0;
    while j < m
        invariant
            n == hay@.len(),
            m == needle@.len(),
            at + m <= n,
            j <= m,
            forall|k: int| 0 <= k < j ==> hay@[at + k] == needle@[k],
        decreases m - j,
    {
        if hay.get_char(at + j) != needle.get_char(j) {
            proof {
                assert(hay@.subrange(at as int, at + needle@.len())[j as int] != needle@[j as int]);
            }
            return false;
        }
        j = j + 1;
    }
    proof {
        assert(hay@.subrange(at as int, at + needle@.len()) =~= needle@);
    }
    true
}

/// The first occurrence of `needle` in `hay` (exec mirror of
/// [`spec_find`]).
pub fn str_find(hay: &str, needle: &str) -> (r: Option<usize>)
    ensures
        match r {
            Some(i) => spec_find(hay@, needle@) == Some(i as nat),
            None => spec_find(hay@, needle@) is None,
        },
{
    let n = hay.unicode_len();
    let m = needle.unicode_len();
    if m > n {
        proof {
            assert(spec_find(hay@, needle@) is None);
        }
        return None;
    }
    let mut i: usize = 0;
    proof {
        assert(hay@.skip(0) =~= hay@);
    }
    while i <= n - m
        invariant
            n == hay@.len(),
            m == needle@.len(),
            m <= n,
            i <= n - m + 1,
            spec_find(hay@, needle@) matches Some(k) ==> spec_find(hay@.skip(i as int), needle@)
                == Some((k - i) as nat),
            spec_find(hay@.skip(i as int), needle@) matches Some(k) ==> spec_find(hay@, needle@)
                == Some((k + i) as nat),
            spec_find(hay@.skip(i as int), needle@) is None ==> spec_find(hay@, needle@) is None,
        decreases n + 1 - i,
    {
        proof {
            assert(hay@.skip(i as int).take(m as int) =~= hay@.subrange(i as int, i + m));
        }
        if matches_at(hay, i, needle) {
            proof {
                assert(spec_find(hay@.skip(i as int), needle@) == Some(0nat));
            }
            return Some(i);
        }
        proof {
            assert(m >= 1) by {
                if m == 0 {
                    assert(hay@.subrange(i as int, i + 0) =~= needle@);
                }
            }
            assert(hay@.skip(i as int).drop_first() =~= hay@.skip(i + 1));
        }
        i = i + 1;
    }
    proof {
        assert(m >= 1) by {
            if m == 0 {
                assert(i == n - m + 1);
            }
        }
        assert(hay@.skip(i as int).len() < m);
        assert(spec_find(hay@.skip(i as int), needle@) is None);
    }
    None
}

/// Whether `needle` occurs in `hay`.
pub fn str_contains(hay: &str, needle: &str) -> (r: bool)
    ensures
        r == spec_contains_str(hay@, needle@),
{
    match str_find(hay, needle) {
        Some(_) => true,
        None => false,
    }
}

/// Whether two string slices hold the same characters.
pub fn str_eq(a: &str, b: &str) -> (r: bool)
    ensures
        r == (a@ == b@),
{
    let alen = a.unicode_len();
    let blen = b.unicode_len();
    if alen != blen {
        return false;
    }
    let mut i: usize = 0;
    while i < alen
        invariant
            alen == a@.len(),
            blen == b@.len(),
            alen == blen,
            i <= alen,
            forall|k: int| 0 <= k < i ==> a@[k] == b@[k],
        decreases alen - i,
    {
        if a.get_char(i) != b.get_char(i) {
            return false;
        }
        i = i + 1;
    }
    proof {
        assert(a@ =~= b@);
    }
    true
}

} // verus!
