//! Separator-delimited pieces of a text.

use vstd::prelude::*;

verus! {

/// The index of the first `sep` in `s`, or the length of `s` where it holds
/// none.
pub open spec fn find(s: Seq<char>, sep: char) -> int
    decreases s.len(),
{
    if s.len() == 0 || s[0] == sep {
        0
    } else {
        1 + find(s.skip(1), sep)
    }
}

/// Piece number `n` (from 0) of `s` cut at every `sep`, or `None` where `s`
/// has fewer than `n + 1` pieces. A text with `k` separators has `k + 1`
/// pieces, some of which may be empty.
pub open spec fn piece(s: Seq<char>, sep: char, n: nat) -> Option<Seq<char>>
    decreases n,
{
    let k = find(s, sep);
    if n == 0 {
        Some(s.take(k))
    } else if k >= s.len() {
        None
    } else {
        piece(s.skip(k + 1), sep, (n - 1) as nat)
    }
}

/// `find` is within bounds, passes over no separator and stops on one.
pub proof fn lemma_find_bounds(s: Seq<char>, sep: char)
    ensures
        0 <= find(s, sep) <= s.len(),
        forall|j: int| 0 <= j < find(s, sep) ==> s[j] != sep,
        find(s, sep) < s.len() ==> s[find(s, sep)] == sep,
    decreases s.len(),
{
    if s.len() == 0 || s[0] == sep {
    } else {
        let rest = s.skip(1);
        lemma_find_bounds(rest, sep);
        assert forall|j: int| 0 <= j < find(s, sep) implies s[j] != sep by {
            if j > 0 {
                assert(s[j] == rest[j - 1]);
            }
        }
        assert(s[find(s, sep)] == rest[find(rest, sep)] || find(s, sep) >= s.len());
    }
}

/// An index that passes over no separator and stops on one, or at the end,
/// is the one that `find` gives.
pub proof fn lemma_find_unique(s: Seq<char>, sep: char, k: int)
    requires
        0 <= k <= s.len(),
        forall|j: int| 0 <= j < k ==> s[j] != sep,
        k < s.len() ==> s[k] == sep,
    ensures
        find(s, sep) == k,
{
    lemma_find_bounds(s, sep);
    let f = find(s, sep);
    if f < k {
        assert(s[f] == sep);
    } else if k < f {
        assert(s[k] == sep);
    }
}

/// Finds the first `sep` at or after `from`.
pub fn find_from(s: &str, from: usize, sep: char) -> (end: usize)
    requires
        from <= s@.len(),
    ensures
        from <= end <= s@.len(),
        end - from == find(s@.skip(from as int), sep),
{
    let len: usize = s.unicode_len();
    let mut i: usize = from;
    while i < len && s.get_char(i) != sep
        invariant
            from <= i <= len,
            len == s@.len(),
            forall|j: int| from <= j < i ==> s@[j] != sep,
        decreases len - i,
    {
        i = i + 1;
    }
    proof {
        lemma_find_unique(s@.skip(from as int), sep, i - from);
    }
    i
}

/// Returns piece number `n` of `s` cut at every `sep`.
pub fn nth_piece(s: &str, sep: char, n: usize) -> (found: Option<String>)
    ensures
        found is Some <==> piece(s@, sep, n as nat) is Some,
        found matches Some(p) ==> Some(p@) == piece(s@, sep, n as nat),
{
    let len: usize = s.unicode_len();
    let mut start: usize = 0;
    let mut k: usize = 0;
    proof {
        assert(s@.skip(0) =~= s@);
    }
    while k < n
        invariant
            k <= n,
            start <= len,
            len == s@.len(),
            piece(s@, sep, n as nat) == piece(s@.skip(start as int), sep, (n - k) as nat),
        decreases n - k,
    {
        let end: usize = find_from(s, start, sep);
        if end >= len {
            return None;
        }
        proof {
            assert(s@.skip(start as int).skip(end - start + 1) =~= s@.skip(end + 1));
        }
        start = end + 1;
        k = k + 1;
    }
    let end: usize = find_from(s, start, sep);
    proof {
        assert(s@.skip(start as int).take(end - start) =~= s@.subrange(start as int, end as int));
    }
    Some(String::from_str(s.substring_char(start, end)))
}

/// Whether `s` holds no `sep`.
pub open spec fn free_of(s: Seq<char>, sep: char) -> bool {
    forall|j: int| 0 <= j < s.len() ==> s[j] != sep
}

/// A text without separators is its own first piece.
pub proof fn lemma_piece_whole(a: Seq<char>, sep: char)
    requires
        free_of(a, sep),
    ensures
        piece(a, sep, 0) == Some(a),
{
    lemma_find_unique(a, sep, a.len() as int);
    assert(a.take(a.len() as int) =~= a);
}

/// The first piece ends at the first separator.
pub proof fn lemma_piece_first(a: Seq<char>, sep: char, b: Seq<char>)
    requires
        free_of(a, sep),
    ensures
        piece(a + seq![sep] + b, sep, 0) == Some(a),
{
    let s = a + seq![sep] + b;
    lemma_find_unique(s, sep, a.len() as int);
    assert(s.take(a.len() as int) =~= a);
}

/// The pieces after the first are the pieces of what follows the first
/// separator.
pub proof fn lemma_piece_later(a: Seq<char>, sep: char, b: Seq<char>, n: nat)
    requires
        free_of(a, sep),
    ensures
        piece(a + seq![sep] + b, sep, n + 1) == piece(b, sep, n),
{
    let s = a + seq![sep] + b;
    lemma_find_unique(s, sep, a.len() as int);
    assert(s.skip(a.len() as int + 1) =~= b);
}

} // verus!
