//! Character-level helpers shared by the parsers: first occurrence of a
//! character, string equality, and trimming of space characters.

use vstd::prelude::*;
use vstd::string::StrSliceExecFns;

verus! {

/// Index of the first occurrence of `c` in `s`, if any.
pub open spec fn find_first(s: Seq<char>, c: char) -> Option<int>
    decreases s.len(),
{
    if s.len() == 0 {
        None
    } else if s[0] == c {
        Some(0int)
    } else {
        match find_first(s.drop_first(), c) {
            Some(i) => Some(i + 1),
            None => None,
        }
    }
}

/// `find_first` returns the least index holding `c`, or `None` when `c` does
/// not occur.
pub proof fn lemma_find_first_props(s: Seq<char>, c: char)
    ensures
        match find_first(s, c) {
            Some(i) => 0 <= i < s.len() && s[i] == c && (forall|j: int| 0 <= j < i ==> s[j] != c),
            None => forall|j: int| 0 <= j < s.len() ==> s[j] != c,
        },
    decreases s.len(),
{
    if s.len() > 0 && s[0] != c {
        lemma_find_first_props(s.drop_first(), c);
        match find_first(s.drop_first(), c) {
            Some(i) => {
                assert(s[i + 1] == s.drop_first()[i]);
                assert forall|j: int| 0 <= j < i + 1 implies s[j] != c by {
                    if j > 0 {
                        assert(s[j] == s.drop_first()[j - 1]);
                    }
                }
            },
            None => {
                assert forall|j: int| 0 <= j < s.len() implies s[j] != c by {
                    if j > 0 {
                        assert(s[j] == s.drop_first()[j - 1]);
                    }
                }
            },
        }
    }
}

/// An index below every other occurrence that holds `c` is the one that
/// `find_first` returns.
pub proof fn lemma_find_first_at(s: Seq<char>, c: char, i: int)
    requires
        0 <= i < s.len(),
        s[i] == c,
        forall|j: int| 0 <= j < i ==> s[j] != c,
    ensures
        find_first(s, c) == Some(i),
    decreases i,
{
    if i > 0 {
        lemma_find_first_at(s.drop_first(), c, i - 1);
    }
}

/// When `c` occurs nowhere in `s`, `find_first` returns `None`.
pub proof fn lemma_find_first_none(s: Seq<char>, c: char)
    requires
        forall|j: int| 0 <= j < s.len() ==> s[j] != c,
    ensures
        find_first(s, c) is None,
    decreases s.len(),
{
    if s.len() > 0 {
        lemma_find_first_none(s.drop_first(), c);
    }
}

/// First occurrence of `c` in `s` at or after `from`, as an absolute index.
pub fn find_char_from(s: &str, from: usize, c: char) -> (r: Option<usize>)
    requires
        from <= s@.len(),
    ensures
        s@.len() <= usize::MAX,
        match find_first(s@.skip(from as int), c) {
            Some(i) => 0 <= i && r == Some((from + i) as usize) && from + i < s@.len(),
            None => r is None,
        },
{
    let len = s.unicode_len();
    let mut i = from;
    while i < len
        invariant
            from <= i <= len,
            len == s@.len(),
            forall|j: int| from <= j < i ==> s@[j] != c,
        decreases len - i,
    {
        if s.get_char(i) == c {
            proof {
                assert forall|j: int| 0 <= j < i - from implies s@.skip(from as int)[j] != c by {
                    assert(s@.skip(from as int)[j] == s@[from + j]);
                }
                assert(s@.skip(from as int)[i - from] == s@[i as int]);
                lemma_find_first_at(s@.skip(from as int), c, i - from);
            }
            return Some(i);
        }
        i += 1;
    }
    proof {
        assert forall|j: int| 0 <= j < s@.skip(from as int).len() implies s@.skip(
            from as int,
        )[j] != c by {
            assert(s@.skip(from as int)[j] == s@[from + j]);
        }
        lemma_find_first_none(s@.skip(from as int), c);
    }
    None
}

/// Character-for-character string equality.
pub fn str_eq(a: &str, b: &str) -> (r: bool)
    ensures
        r == (a@ == b@),
{
    let alen = a.unicode_len();
    let blen = b.unicode_len();
    if alen != blen {
        return false;
    }
    let mut i: usize = 0;
    while i < alen
        invariant
            0 <= i <= alen,
            alen == a@.len(),
            alen == b@.len(),
            forall|j: int| 0 <= j < i ==> a@[j] == b@[j],
        decreases alen - i,
    {
        if a.get_char(i) != b.get_char(i) {
            return false;
        }
        i += 1;
    }
    proof {
        assert(a@ =~= b@);
    }
    true
}

/// `s` with leading and trailing space characters removed.
pub open spec fn trim_spaces(s: Seq<char>) -> Seq<char>
    decreases s.len(),
{
    if s.len() == 0 {
        s
    } else if s[0] == ' ' {
        trim_spaces(s.drop_first())
    } else if s[s.len() - 1] == ' ' {
        trim_spaces(s.drop_last())
    } else {
        s
    }
}

/// The trimmed substring of `s@` between `from` and `to`, given as the bounds
/// of the non-space core.
pub fn trim_range(s: &str, from: usize, to: usize) -> (r: (usize, usize))
    requires
        from <= to <= s@.len(),
    ensures
        from <= r.0 <= r.1 <= to,
        trim_spaces(s@.subrange(from as int, to as int)) == s@.subrange(r.0 as int, r.1 as int),
{
    let mut lo = from;
    let mut hi = to;
    while lo < hi
        invariant
            from <= lo <= hi <= to <= s@.len(),
            trim_spaces(s@.subrange(from as int, to as int)) == trim_spaces(
                s@.subrange(lo as int, hi as int),
            ),
        decreases hi - lo,
    {
        if s.get_char(lo) == ' ' {
            proof {
                let cur = s@.subrange(lo as int, hi as int);
                assert(cur[0] == ' ');
                assert(cur.drop_first() =~= s@.subrange(lo + 1, hi as int));
            }
            lo += 1;
        } else if s.get_char(hi - 1) == ' ' {
            proof {
                let cur = s@.subrange(lo as int, hi as int);
                assert(cur[cur.len() - 1] == ' ');
                assert(cur[0] != ' ');
                assert(cur.drop_last() =~= s@.subrange(lo as int, hi - 1));
            }
            hi -= 1;
        } else {
            proof {
                let cur = s@.subrange(lo as int, hi as int);
                assert(cur[0] != ' ');
                assert(cur[cur.len() - 1] != ' ');
            }
            return (lo, hi);
        }
    }
    proof {
        assert(s@.subrange(lo as int, hi as int) =~= Seq::<char>::empty());
    }
    (lo, hi)
}

} // verus!
