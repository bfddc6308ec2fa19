//! Prefix and suffix operations on strings, stated over sequences of characters.
//!
//! The functions count and compare character by character. They are meant for
//! keys and file names, which are short.
use vstd::prelude::*;
use vstd::string::*;

verus! {

/// `suffix` is the tail of `s`.
pub open spec fn is_suffix_of(suffix: Seq<char>, s: Seq<char>) -> bool {
    suffix.len() <= s.len() && s.subrange(s.len() - suffix.len(), s.len() as int) == suffix
}

/// Whether two strings hold the same text.
pub fn same_text(a: &str, b: &str) -> (same: bool)
    ensures
        same == (a@ == b@),
{
    let n: usize = a.unicode_len();
    if n != b.unicode_len() {
        return false;
    }
    let mut i: usize = 0;
    while i < n
        invariant
            i <= n,
            n == a@.len(),
            n == b@.len(),
            forall|k: int| 0 <= k < i ==> a@[k] == b@[k],
        decreases n - i,
    {
        if a.get_char(i) != b.get_char(i) {
            return false;
        }
        i += 1;
    }
    assert(a@ =~= b@);
    true
}

/// Tells whether `s` begins with `prefix`.
pub fn starts_with(s: &str, prefix: &str) -> (found: bool)
    ensures
        found == prefix@.is_prefix_of(s@),
{
    let n: usize = s.unicode_len();
    let m: usize = prefix.unicode_len();
    if m > n {
        return false;
    }
    let mut i: usize = 0;
    while i < m
        invariant
            i <= m <= n,
            n == s@.len(),
            m == prefix@.len(),
            forall|k: int| 0 <= k < i ==> s@[k] == prefix@[k],
        decreases m - i,
    {
        if s.get_char(i) != prefix.get_char(i) {
            assert(s@.subrange(0, m as int)[i as int] != prefix@[i as int]);
            return false;
        }
        i += 1;
    }
    assert(prefix@ =~= s@.subrange(0, m as int));
    true
}

/// Tells whether `s` ends with `suffix`.
pub fn ends_with(s: &str, suffix: &str) -> (found: bool)
    ensures
        found == is_suffix_of(suffix@, s@),
{
    let n: usize = s.unicode_len();
    let m: usize = suffix.unicode_len();
    if m > n {
        return false;
    }
    let start: usize = n - m;
    let mut i: usize = 0;
    while i < m
        invariant
            i <= m <= n,
            start == n - m,
            n == s@.len(),
            m == suffix@.len(),
            forall|k: int| 0 <= k < i ==> s@[start + k] == suffix@[k],
        decreases m - i,
    {
        if s.get_char(start + i) != suffix.get_char(i) {
            assert(s@.subrange(n - m, n as int)[i as int] != suffix@[i as int]);
            return false;
        }
        i += 1;
    }
    assert(suffix@ =~= s@.subrange(n - m, n as int));
    true
}

/// What is left of `s` without its first `count` characters: nothing, where
/// it has no more than that.
pub open spec fn without_first(s: Seq<char>, count: nat) -> Seq<char> {
    if count <= s.len() {
        s.skip(count as int)
    } else {
        Seq::<char>::empty()
    }
}

/// The first `count` characters of `s`: all of it, where it has no more than
/// that.
pub open spec fn first_chars(s: Seq<char>, count: nat) -> Seq<char> {
    if count <= s.len() {
        s.take(count as int)
    } else {
        s
    }
}

/// The part of `s` after its first `count` characters.
pub fn skip_chars(s: &str, count: usize) -> (rest: String)
    ensures
        rest@ == without_first(s@, count as nat),
{
    let n: usize = s.unicode_len();
    if count > n {
        return String::new();
    }
    let tail = s.substring_char(count, n);
    assert(s@.subrange(count as int, n as int) =~= s@.skip(count as int));
    String::from_str(tail)
}

/// The first `count` characters of `s`.
pub fn take_chars(s: &str, count: usize) -> (head: String)
    ensures
        head@ == first_chars(s@, count as nat),
{
    let n: usize = s.unicode_len();
    if count > n {
        return String::from_str(s);
    }
    let front = s.substring_char(0, count);
    assert(s@.subrange(0, count as int) =~= s@.take(count as int));
    String::from_str(front)
}

/// The two strings laid end to end.
pub fn join(first: &str, second: &str) -> (joined: String)
    ensures
        joined@ == first@ + second@,
{
    String::from_str(first).concat(second)
}

} // verus!
