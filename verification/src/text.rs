//! Character classes and small string operations shared by the other modules.

use vstd::prelude::*;

verus! {

/// `c` is an ASCII lowercase letter.
pub open spec fn is_lower(c: char) -> bool {
    'a' <= c && c <= 'z'
}

/// `c` is an ASCII decimal digit.
pub open spec fn is_digit(c: char) -> bool {
    '0' <= c && c <= '9'
}

/// `c` may appear in a package or project name.
pub open spec fn is_name_char(c: char) -> bool {
    is_lower(c) || is_digit(c) || c == '-'
}

/// Every character of `s` is a name character.
pub open spec fn all_name_chars(s: Seq<char>) -> bool {
    forall|i: int| 0 <= i < s.len() ==> is_name_char(#[trigger] s[i])
}

/// Every character of `s` is a decimal digit.
pub open spec fn all_digits(s: Seq<char>) -> bool {
    forall|i: int| 0 <= i < s.len() ==> is_digit(#[trigger] s[i])
}

/// `c` occurs somewhere in `s`.
pub open spec fn has_char(s: Seq<char>, c: char) -> bool {
    exists|i: int| 0 <= i < s.len() && s[i] == c
}

pub fn char_is_lower(c: char) -> (r: bool)
    ensures
        r == is_lower(c),
{
    'a' <= c && c <= 'z'
}

pub fn char_is_digit(c: char) -> (r: bool)
    ensures
        r == is_digit(c),
{
    '0' <= c && c <= '9'
}

pub fn char_is_name_char(c: char) -> (r: bool)
    ensures
        r == is_name_char(c),
{
    char_is_lower(c) || char_is_digit(c) || c == '-'
}

/// Whether every character of `s` is a name character.
pub fn only_name_chars(s: &str) -> (r: bool)
    ensures
        r == all_name_chars(s@),
{
    let n = s.unicode_len();
    let mut i: usize = 0;
    while i < n
        invariant
            n == s@.len(),
            i <= n,
            forall|k: int| 0 <= k < i ==> is_name_char(#[trigger] s@[k]),
        decreases n - i,
    {
        if !char_is_name_char(s.get_char(i)) {
            return false;
        }
        i = i + 1;
    }
    true
}

/// Whether `c` occurs in `s`.
pub fn contains_char(s: &str, c: char) -> (r: bool)
    ensures
        r == has_char(s@, c),
{
    let n = s.unicode_len();
    let mut i: usize = 0;
    while i < n
        invariant
            n == s@.len(),
            i <= n,
            forall|k: int| 0 <= k < i ==> #[trigger] s@[k] != c,
        decreases n - i,
    {
        if s.get_char(i) == c {
            return true;
        }
        i = i + 1;
    }
    false
}

/// Position of the first `c` in `s`, or the length of `s` where there is none.
pub open spec fn first_pos(s: Seq<char>, c: char) -> int {
    if exists|i: int| 0 <= i < s.len() && #[trigger] s[i] == c && (forall|k: int| 0 <= k < i ==> s[k] != c) {
        choose|i: int| 0 <= i < s.len() && #[trigger] s[i] == c && (forall|k: int| 0 <= k < i ==> s[k] != c)
    } else {
        s.len() as int
    }
}

/// The part of `s` before the first `c` (all of `s` where there is no `c`).
pub open spec fn cut_at(s: Seq<char>, c: char) -> Seq<char> {
    s.take(first_pos(s, c))
}

/// A position `p` with no `c` before it, and `c` at it unless `p` is the end,
/// is the first position of `c`.
pub proof fn lemma_first_pos(s: Seq<char>, c: char, p: int)
    requires
        0 <= p <= s.len(),
        forall|k: int| 0 <= k < p ==> s[k] != c,
        p < s.len() ==> s[p] == c,
    ensures
        first_pos(s, c) == p,
{
    if p < s.len() {
        assert(0 <= p < s.len() && s[p] == c && (forall|k: int| 0 <= k < p ==> s[k] != c));
        let i = choose|i: int| 0 <= i < s.len() && #[trigger] s[i] == c && (forall|k: int| 0 <= k < i ==> s[k] != c);
        if i < p {
            assert(s[i] != c);
        } else if i > p {
            assert(s[p] != c);
        }
    } else {
        if exists|i: int| 0 <= i < s.len() && #[trigger] s[i] == c && (forall|k: int| 0 <= k < i ==> s[k] != c) {
            let i = choose|i: int| 0 <= i < s.len() && #[trigger] s[i] == c && (forall|k: int| 0 <= k < i ==> s[k] != c);
            assert(s[i] != c);
        }
    }
}

/// The first position of `c` in `s[lo..hi]`, or `hi` where there is none.
pub fn find_char_in(s: &str, c: char, lo: usize, hi: usize) -> (r: usize)
    requires
        lo <= hi <= s@.len(),
    ensures
        lo <= r <= hi,
        r < hi ==> s@[r as int] == c,
        forall|k: int| lo <= k < r ==> s@[k] != c,
{
    let mut i = lo;
    while i < hi
        invariant
            lo <= i <= hi,
            hi <= s@.len(),
            forall|k: int| lo <= k < i ==> s@[k] != c,
        decreases hi - i,
    {
        if s.get_char(i) == c {
            return i;
        }
        i = i + 1;
    }
    hi
}

/// Whether every character of `s[lo..hi]` is a decimal digit.
pub fn digits_in(s: &str, lo: usize, hi: usize) -> (r: bool)
    requires
        lo <= hi <= s@.len(),
    ensures
        r == all_digits(s@.subrange(lo as int, hi as int)),
{
    let mut i = lo;
    while i < hi
        invariant
            lo <= i <= hi,
            hi <= s@.len(),
            forall|k: int| lo <= k < i ==> is_digit(#[trigger] s@[k]),
        decreases hi - i,
    {
        if !char_is_digit(s.get_char(i)) {
            assert(!is_digit(s@.subrange(lo as int, hi as int)[i - lo]));
            return false;
        }
        i = i + 1;
    }
    assert forall|k: int| 0 <= k < hi - lo implies is_digit(#[trigger] s@.subrange(lo as int, hi as int)[k]) by {
        assert(is_digit(s@[lo + k]));
    }
    true
}

/// Position of the last `c` in `s`, or `-1` where there is none.
pub open spec fn last_pos(s: Seq<char>, c: char) -> int {
    if exists|i: int| 0 <= i < s.len() && #[trigger] s[i] == c && (forall|k: int| i < k < s.len() ==> s[k] != c) {
        choose|i: int| 0 <= i < s.len() && #[trigger] s[i] == c && (forall|k: int| i < k < s.len() ==> s[k] != c)
    } else {
        -1
    }
}

/// A position `p` with `c` at it (unless it is `-1`) and no `c` after it is
/// the last position of `c`.
pub proof fn lemma_last_pos(s: Seq<char>, c: char, p: int)
    requires
        -1 <= p < s.len(),
        forall|k: int| p < k < s.len() ==> s[k] != c,
        p >= 0 ==> s[p] == c,
    ensures
        last_pos(s, c) == p,
{
    if p >= 0 {
        assert(0 <= p < s.len() && s[p] == c && (forall|k: int| p < k < s.len() ==> s[k] != c));
        let i = choose|i: int| 0 <= i < s.len() && #[trigger] s[i] == c && (forall|k: int| i < k < s.len() ==> s[k] != c);
        if i < p {
            assert(s[p] != c);
        } else if i > p {
            assert(s[i] != c);
        }
    } else {
        if exists|i: int| 0 <= i < s.len() && #[trigger] s[i] == c && (forall|k: int| i < k < s.len() ==> s[k] != c) {
            let i = choose|i: int| 0 <= i < s.len() && #[trigger] s[i] == c && (forall|k: int| i < k < s.len() ==> s[k] != c);
            assert(s[i] != c);
        }
    }
}

/// The last position of `c` in `s`, if any.
pub fn find_last_char(s: &str, c: char) -> (r: Option<usize>)
    ensures
        match r {
            Some(p) => p == last_pos(s@, c),
            None => last_pos(s@, c) == -1,
        },
{
    let n = s.unicode_len();
    let mut i: usize = n;
    while i > 0
        invariant
            n == s@.len(),
            i <= n,
            forall|k: int| i <= k < n ==> s@[k] != c,
        decreases i,
    {
        if s.get_char(i - 1) == c {
            proof {
                lemma_last_pos(s@, c, i - 1);
            }
            return Some(i - 1);
        }
        i = i - 1;
    }
    proof {
        lemma_last_pos(s@, c, -1);
    }
    None
}

/// The part of `s` before the first `c` (all of `s` where there is none).
pub fn before_first(s: &str, c: char) -> (r: String)
    ensures
        r@ == cut_at(s@, c),
{
    let n = s.unicode_len();
    let p = find_char_in(s, c, 0, n);
    proof {
        lemma_first_pos(s@, c, p as int);
    }
    String::from_str(s.substring_char(0, p))
}

} // verus!
