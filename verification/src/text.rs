//! Small string helpers: equality, prefix, suffix, substring search and
//! index arithmetic over characters, each pinned to a sequence-level
//! specification.

use vstd::prelude::*;

verus! {

/// The sequence starts with the prefix.
pub open spec fn spec_starts_with(s: Seq<char>, prefix: Seq<char>) -> bool {
    prefix.len() <= s.len() && s.subrange(0, prefix.len() as int) == prefix
}

/// The sequence ends with the suffix.
pub open spec fn spec_ends_with(s: Seq<char>, suffix: Seq<char>) -> bool {
    suffix.len() <= s.len() && s.subrange(s.len() - suffix.len(), s.len() as int) == suffix
}

/// The sequence contains the needle somewhere.
pub open spec fn spec_contains(s: Seq<char>, needle: Seq<char>) -> bool {
    exists|i: int|
        0 <= i <= s.len() - needle.len() && #[trigger] s.subrange(i, i + needle.len()) == needle
}

/// Two strings spelled the same.
pub fn str_eq(a: &str, b: &str) -> (r: bool)
    ensures
        r == (a@ == b@),
{
    let n = a.unicode_len();
    if n != b.unicode_len() {
        assert(a@.len() != b@.len());
        return false;
    }
    let mut i: usize = 0;
    while i < n
        invariant
            n == a@.len(),
            n == b@.len(),
            i <= n,
            forall|j: int| 0 <= j < i ==> a@[j] == b@[j],
        decreases n - i,
    {
        if a.get_char(i) != b.get_char(i) {
            return false;
        }
        i += 1;
    }
    assert(a@ =~= b@);
    true
}

pub fn str_starts_with(s: &str, prefix: &str) -> (r: bool)
    ensures
        r == spec_starts_with(s@, prefix@),
{
    let n = prefix.unicode_len();
    let m = s.unicode_len();
    if m < n {
        return false;
    }
    let mut i: usize = 0;
    while i < n
        invariant
            n == prefix@.len(),
            m == s@.len(),
            n <= m,
            i <= n,
            forall|j: int| 0 <= j < i ==> s@[j] == prefix@[j],
        decreases n - i,
    {
        if s.get_char(i) != prefix.get_char(i) {
            assert(!spec_starts_with(s@, prefix@)) by {
                if spec_starts_with(s@, prefix@) {
                    assert(s@.subrange(0, prefix@.len() as int)[i as int] == s@[i as int]);
                }
            }
            return false;
        }
        i += 1;
    }
    assert(s@.subrange(0, prefix@.len() as int) =~= prefix@);
    true
}

pub fn str_ends_with(s: &str, suffix: &str) -> (r: bool)
    ensures
        r == spec_ends_with(s@, suffix@),
{
    let n = suffix.unicode_len();
    let m = s.unicode_len();
    if m < n {
        return false;
    }
    let off = m - n;
    let mut i: usize = 0;
    while i < n
        invariant
            n == suffix@.len(),
            m == s@.len(),
            off == m - n,
            n <= m,
            i <= n,
            forall|j: int| 0 <= j < i ==> s@[off + j] == suffix@[j],
        decreases n - i,
    {
        if s.get_char(off + i) != suffix.get_char(i) {
            assert(!spec_ends_with(s@, suffix@)) by {
                if spec_ends_with(s@, suffix@) {
                    assert(s@.subrange(s@.len() - suffix@.len(), s@.len() as int)[i as int]
                        == s@[off + i]);
                }
            }
            return false;
        }
        i += 1;
    }
    assert(s@.subrange(s@.len() - suffix@.len(), s@.len() as int) =~= suffix@);
    true
}

/// Whether the needle occurs in the string; a needle no longer than the
/// string is tried at every offset.
pub fn str_contains(s: &str, needle: &str) -> (r: bool)
    ensures
        r == spec_contains(s@, needle@),
{
    let n = needle.unicode_len();
    let m = s.unicode_len();
    if m < n {
        assert(!spec_contains(s@, needle@)) by {
            if spec_contains(s@, needle@) {
                let i = choose|i: int|
                    0 <= i <= s@.len() - needle@.len() && #[trigger] s@.subrange(
                        i,
                        i + needle@.len(),
                    ) == needle@;
            }
        }
        return false;
    }
    if n == 0 {
        proof {
            let w: int = 0;
            assert(s@.subrange(w, w + needle@.len()) =~= needle@);
            assert(spec_contains(s@, needle@));
        }
        return true;
    }
    let mut start: usize = 0;
    while start <= m - n
        invariant
            n == needle@.len(),
            m == s@.len(),
            1 <= n <= m,
            start <= m - n + 1,
            forall|i: int| 0 <= i < start ==> #[trigger] s@.subrange(i, i + needle@.len())
                != needle@,
        decreases m - n + 1 - start,
    {
        let mut i: usize = 0;
        let mut hit = true;
        while i < n
            invariant
                n == needle@.len(),
                m == s@.len(),
                n <= m,
                start <= m - n,
                i <= n,
                hit ==> forall|j: int| 0 <= j < i ==> s@[start + j] == needle@[j],
                !hit ==> s@.subrange(start as int, start + needle@.len()) != needle@,
            decreases n - i,
        {
            if s.get_char(start + i) != needle.get_char(i) {
                proof {
                    if s@.subrange(start as int, start + needle@.len()) == needle@ {
                        assert(s@.subrange(start as int, start + needle@.len())[i as int]
                            == s@[start + i]);
                    }
                }
                hit = false;
                i = n;
            } else {
                i += 1;
            }
        }
        if hit {
            assert(s@.subrange(start as int, start as int + needle@.len()) =~= needle@);
            return true;
        }
        start += 1;
    }
    assert(!spec_contains(s@, needle@)) by {
        if spec_contains(s@, needle@) {
            let i = choose|i: int|
                0 <= i <= s@.len() - needle@.len() && #[trigger] s@.subrange(
                    i,
                    i + needle@.len(),
                ) == needle@;
        }
    }
    false
}

/// Index of the last occurrence of the character, or -1.
pub open spec fn last_index_of(s: Seq<char>, c: char) -> int
    decreases s.len(),
{
    if s.len() == 0 {
        -1
    } else if s.last() == c {
        s.len() - 1
    } else {
        last_index_of(s.drop_last(), c)
    }
}

pub proof fn lemma_last_index_of_props(s: Seq<char>, c: char)
    ensures
        -1 <= last_index_of(s, c) < s.len(),
        last_index_of(s, c) >= 0 ==> s[last_index_of(s, c)] == c,
        forall|j: int| last_index_of(s, c) < j < s.len() ==> s[j] != c,
    decreases s.len(),
{
    if s.len() > 0 && s.last() != c {
        lemma_last_index_of_props(s.drop_last(), c);
        assert(forall|j: int| 0 <= j < s.len() - 1 ==> s.drop_last()[j] == s[j]);
    }
}

/// Index of the first occurrence of the character, or -1.
pub open spec fn first_index_of(s: Seq<char>, c: char) -> int
    decreases s.len(),
{
    if s.len() == 0 {
        -1
    } else if s[0] == c {
        0
    } else {
        let r = first_index_of(s.skip(1), c);
        if r < 0 {
            -1
        } else {
            r + 1
        }
    }
}

pub proof fn lemma_first_index_of_props(s: Seq<char>, c: char)
    ensures
        -1 <= first_index_of(s, c) < s.len(),
        first_index_of(s, c) >= 0 ==> s[first_index_of(s, c)] == c,
        forall|j: int| 0 <= j < first_index_of(s, c) ==> s[j] != c,
        first_index_of(s, c) == -1 ==> forall|j: int| 0 <= j < s.len() ==> s[j] != c,
    decreases s.len(),
{
    if s.len() > 0 && s[0] != c {
        lemma_first_index_of_props(s.skip(1), c);
        assert(forall|j: int| 0 <= j < s.skip(1).len() ==> s.skip(1)[j] == s[j + 1]);
        let r = first_index_of(s.skip(1), c);
        if r < 0 {
            assert forall|j: int| 0 <= j < s.len() implies s[j] != c by {
                if j > 0 {
                    assert(s.skip(1)[j - 1] == s[j]);
                }
            }
        } else {
            assert(s[r + 1] == s.skip(1)[r]);
            assert forall|j: int| 0 <= j < r + 1 implies s[j] != c by {
                if j > 0 {
                    assert(s.skip(1)[j - 1] == s[j]);
                }
            }
        }
    }
}

/// Find the first occurrence of a character.
pub fn find_char(s: &str, c: char) -> (r: Option<usize>)
    ensures
        ({
            let fi = first_index_of(s@, c);
            match r {
                Some(i) => fi == i,
                None => fi == -1,
            }
        }),
{
    let n = s.unicode_len();
    let mut i: usize = 0;
    while i < n
        invariant
            n == s@.len(),
            i <= n,
            forall|j: int| 0 <= j < i ==> s@[j] != c,
        decreases n - i,
    {
        if s.get_char(i) == c {
            proof {
                lemma_first_index_of_props(s@, c);
                let fi = first_index_of(s@, c);
                if fi < i {
                    assert(s@[fi] == c);
                }
                if fi > i {
                    assert(s@[i as int] != c);
                }
            }
            return Some(i);
        }
        i += 1;
    }
    proof {
        lemma_first_index_of_props(s@, c);
        let fi = first_index_of(s@, c);
        if fi >= 0 {
            assert(s@[fi] != c);
        }
    }
    None
}

/// Find the last occurrence of an ascii character within the first `upto`
/// characters of the string.
pub fn rfind_char_before(s: &str, c: char, upto: usize) -> (r: Option<usize>)
    requires
        upto <= s@.len(),
    ensures
        ({
            let li = last_index_of(s@.take(upto as int), c);
            match r {
                Some(i) => li == i,
                None => li == -1,
            }
        }),
{
    proof {
        lemma_last_index_of_props(s@.take(upto as int), c);
    }
    let mut i: usize = upto;
    while i > 0
        invariant
            upto <= s@.len(),
            i <= upto,
            forall|j: int| i <= j < upto ==> s@.take(upto as int)[j] != c,
        decreases i,
    {
        i -= 1;
        proof {
            assert(s@.take(upto as int)[i as int] == s@[i as int]);
        }
        if s.get_char(i) == c {
            proof {
                let li = last_index_of(s@.take(upto as int), c);
                lemma_last_index_of_props(s@.take(upto as int), c);
                if li < i {
                    assert(s@.take(upto as int)[i as int] != c);
                }
                if li > i {
                    assert(s@.take(upto as int)[li] != c);
                }
            }
            return Some(i);
        }
    }
    proof {
        let li = last_index_of(s@.take(upto as int), c);
        lemma_last_index_of_props(s@.take(upto as int), c);
        if li >= 0 {
            assert(s@.take(upto as int)[li] != c);
        }
    }
    None
}

} // verus!
