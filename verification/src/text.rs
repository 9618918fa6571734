//! Character-level search and slicing helpers shared by the message
//! serializer and the request parser.

use vstd::prelude::*;
use vstd::string::*;

verus! {

/// Index of the first occurrence of `c` in `s`, if any.
pub open spec fn find_char(s: Seq<char>, c: char) -> Option<int>
    decreases s.len(),
{
    if s.len() == 0 {
        None
    } else if s[0] == c {
        Some(0)
    } else {
        match find_char(s.drop_first(), c) {
            None => None,
            Some(i) => Some(i + 1),
        }
    }
}

/// Index of the first occurrence of the two-character pattern `": "`.
pub open spec fn find_colon_space(s: Seq<char>) -> Option<int>
    decreases s.len(),
{
    if s.len() < 2 {
        None
    } else if s[0] == ':' && s[1] == ' ' {
        Some(0)
    } else {
        match find_colon_space(s.drop_first()) {
            None => None,
            Some(i) => Some(i + 1),
        }
    }
}

/// `find_char` returns the first occurrence: the character is there, and no
/// earlier position holds it.
pub proof fn lemma_find_char(s: Seq<char>, c: char)
    ensures
        match find_char(s, c) {
            Some(i) => 0 <= i < s.len() && s[i] == c && (forall|j: int|
                0 <= j < i ==> s[j] != c),
            None => forall|j: int| 0 <= j < s.len() ==> s[j] != c,
        },
    decreases s.len(),
{
    if s.len() == 0 {
    } else if s[0] == c {
    } else {
        lemma_find_char(s.drop_first(), c);
        match find_char(s.drop_first(), c) {
            None => {
                assert forall|j: int| 0 <= j < s.len() implies s[j] != c by {
                    if j > 0 {
                        assert(s.drop_first()[j - 1] == s[j]);
                    }
                }
            },
            Some(i) => {
                assert(s.drop_first()[i] == s[i + 1]);
                assert forall|j: int| 0 <= j < i + 1 implies s[j] != c by {
                    if j > 0 {
                        assert(s.drop_first()[j - 1] == s[j]);
                    }
                }
            },
        }
    }
}

/// A position that holds `c` with none before it is what `find_char` returns.
pub proof fn lemma_find_char_is_first(s: Seq<char>, c: char, i: int)
    requires
        0 <= i < s.len(),
        s[i] == c,
        forall|j: int| 0 <= j < i ==> s[j] != c,
    ensures
        find_char(s, c) == Some(i),
{
    lemma_find_char(s, c);
    match find_char(s, c) {
        None => {
            assert(s[i] != c);
        },
        Some(i0) => {
            if i0 < i {
                assert(s[i0] != c);
            } else if i < i0 {
                assert(s[i] != c);
            }
        },
    }
}

/// A sequence without `c` has no first occurrence.
pub proof fn lemma_find_char_none(s: Seq<char>, c: char)
    requires
        forall|j: int| 0 <= j < s.len() ==> s[j] != c,
    ensures
        find_char(s, c) is None,
{
    lemma_find_char(s, c);
    if let Some(i) = find_char(s, c) {
        assert(s[i] != c);
    }
}

/// `find_colon_space` returns the first occurrence of `": "`.
pub proof fn lemma_find_colon_space(s: Seq<char>)
    ensures
        match find_colon_space(s) {
            Some(i) => 0 <= i && i + 1 < s.len() && s[i] == ':' && s[i + 1] == ' ' && (forall|
                j: int,
            |
                0 <= j < i ==> !((#[trigger] s[j]) == ':' && s[j + 1] == ' ')),
            None => forall|j: int| 0 <= j && j + 1 < s.len() ==> !((#[trigger] s[j]) == ':' && s[j + 1] == ' '),
        },
    decreases s.len(),
{
    if s.len() < 2 {
    } else if s[0] == ':' && s[1] == ' ' {
    } else {
        lemma_find_colon_space(s.drop_first());
        match find_colon_space(s.drop_first()) {
            None => {
                assert forall|j: int|
                    0 <= j && j + 1 < s.len() implies !((#[trigger] s[j]) == ':' && s[j + 1]
                    == ' ') by {
                    if j > 0 {
                        assert(s.drop_first()[j - 1] == s[j]);
                        assert(s.drop_first()[j] == s[j + 1]);
                    }
                }
            },
            Some(i) => {
                assert(s.drop_first()[i] == s[i + 1]);
                assert(s.drop_first()[i + 1] == s[i + 2]);
                assert forall|j: int|
                    0 <= j < i + 1 implies !((#[trigger] s[j]) == ':' && s[j + 1] == ' ') by {
                    if j > 0 {
                        assert(s.drop_first()[j - 1] == s[j]);
                        assert(s.drop_first()[j] == s[j + 1]);
                    }
                }
            },
        }
    }
}

/// A position holding `": "` with none before it is what `find_colon_space`
/// returns.
pub proof fn lemma_find_colon_space_is_first(s: Seq<char>, i: int)
    requires
        0 <= i,
        i + 1 < s.len(),
        s[i] == ':',
        s[i + 1] == ' ',
        forall|j: int| 0 <= j < i ==> !((#[trigger] s[j]) == ':' && s[j + 1] == ' '),
    ensures
        find_colon_space(s) == Some(i),
{
    lemma_find_colon_space(s);
    match find_colon_space(s) {
        None => {
            assert(!(s[i] == ':' && s[i + 1] == ' '));
        },
        Some(i0) => {
            if i0 < i {
                assert(!(s[i0] == ':' && s[i0 + 1] == ' '));
            } else if i < i0 {
                assert(!(s[i] == ':' && s[i + 1] == ' '));
            }
        },
    }
}

/// A sequence without `": "` has no first occurrence of it.
pub proof fn lemma_find_colon_space_none(s: Seq<char>)
    requires
        forall|j: int| 0 <= j && j + 1 < s.len() ==> !((#[trigger] s[j]) == ':' && s[j + 1] == ' '),
    ensures
        find_colon_space(s) is None,
{
    lemma_find_colon_space(s);
    if let Some(i) = find_colon_space(s) {
        assert(!(s[i] == ':' && s[i + 1] == ' '));
    }
}

/// First position of `c` in `s` at or after `from`, by linear scan.
pub fn find_char_in(s: &str, from: usize, n: usize, c: char) -> (r: Option<usize>)
    requires
        n == s@.len(),
        from <= n,
    ensures
        match r {
            Some(i) => from <= i < n && s@[i as int] == c && (forall|j: int|
                from <= j < i ==> s@[j] != c),
            None => forall|j: int| from <= j < n ==> s@[j] != c,
        },
{
    let mut k = from;
    while k < n
        invariant
            from <= k <= n,
            n == s@.len(),
            forall|j: int| from <= j < k ==> s@[j] != c,
        decreases n - k,
    {
        if s.get_char(k) == c {
            return Some(k);
        }
        k = k + 1;
    }
    None
}

/// First position of the pattern `": "` in `s` at or after `from`.
pub fn find_colon_space_in(s: &str, from: usize, n: usize) -> (r: Option<usize>)
    requires
        n == s@.len(),
        from <= n,
    ensures
        match r {
            Some(i) => from <= i && i + 1 < n && s@[i as int] == ':' && s@[i + 1] == ' ' && (forall|
                j: int,
            |
                from <= j < i ==> !((#[trigger] s@[j]) == ':' && s@[j + 1] == ' ')),
            None => forall|j: int|
                from <= j && j + 1 < n ==> !((#[trigger] s@[j]) == ':' && s@[j + 1] == ' '),
        },
{
    if n == 0 {
        return None;
    }
    let mut k = from;
    while k < n - 1
        invariant
            from <= k,
            k <= n,
            n >= 1,
            n == s@.len(),
            forall|j: int| from <= j < k ==> !((#[trigger] s@[j]) == ':' && s@[j + 1] == ' '),
        decreases n - k,
    {
        if s.get_char(k) == ':' && s.get_char(k + 1) == ' ' {
            return Some(k);
        }
        k = k + 1;
    }
    None
}

/// Copy of the characters of `s` between `from` and `to`.
pub fn substring(s: &str, from: usize, to: usize) -> (r: String)
    requires
        from <= to <= s@.len(),
    ensures
        r@ == s@.subrange(from as int, to as int),
{
    String::from_str(s.substring_char(from, to))
}

} // verus!
