//! Choosing single-character aliases for flags, each unused so far.
use vstd::prelude::*;

verus! {

/// The characters tried after those of the name: `a`–`z`, `A`–`Z`, `0`–`9`.
pub open spec fn fallback_aliases() -> Seq<char> {
    "abcdefghijklmnopqrstuvwxyzABCDEFGHIJKLMNOPQRSTUVWXYZ0123456789"@
}

/// The characters tried, in order, as the alias of a flag named `name`.
pub open spec fn alias_candidates(name: Seq<char>) -> Seq<char> {
    name + fallback_aliases()
}

/// `c` is the first of `candidates` that is not in `taken`.
pub open spec fn is_first_free(candidates: Seq<char>, taken: Seq<char>, c: char) -> bool {
    exists|i: int|
        0 <= i < candidates.len() && candidates[i] == c && !taken.contains(c) && forall|j: int|
            0 <= j < i ==> taken.contains(#[trigger] candidates[j])
}

fn contains_char(v: &Vec<char>, c: char) -> (r: bool)
    ensures
        r == v@.contains(c),
{
    let mut i: usize = 0;
    while i < v.len()
        invariant
            i <= v@.len(),
            forall|j: int| 0 <= j < i ==> v@[j] != c,
        decreases v@.len() - i,
    {
        if v[i] == c {
            return true;
        }
        i = i + 1;
    }
    false
}

/// Picks the alias of a flag named `name`: the first of its own characters,
/// then of `a`–`z`, `A`–`Z`, `0`–`9`, that is not in `taken`, and adds it to
/// `taken`. One of them must still be free.
pub fn get_short(name: &str, taken: &mut Vec<char>) -> (r: char)
    requires
        exists|j: int|
            0 <= j < alias_candidates(name@).len() && !old(taken)@.contains(
                #[trigger] alias_candidates(name@)[j],
            ),
    ensures
        is_first_free(alias_candidates(name@), old(taken)@, r),
        final(taken)@ == old(taken)@.push(r),
{
    let fallback = "abcdefghijklmnopqrstuvwxyzABCDEFGHIJKLMNOPQRSTUVWXYZ0123456789";
    let ghost cands = alias_candidates(name@);
    assert(cands == name@ + fallback@);
    let n = name.unicode_len();
    let m = fallback.unicode_len();
    let mut i: usize = 0;
    while i < n
        invariant
            i <= n == name@.len(),
            cands == name@ + fallback@,
            cands == alias_candidates(name@),
            *taken == *old(taken),
            forall|j: int| 0 <= j < i ==> taken@.contains(#[trigger] cands[j]),
        decreases n - i,
    {
        let c = name.get_char(i);
        assert(cands[i as int] == c);
        if !contains_char(taken, c) {
            assert(is_first_free(cands, old(taken)@, c)) by {
                assert(forall|j: int| 0 <= j < i ==> old(taken)@.contains(#[trigger] cands[j]));
            }
            taken.push(c);
            return c;
        }
        i = i + 1;
    }
    let mut k: usize = 0;
    while k < m
        invariant
            k <= m == fallback@.len(),
            n == name@.len(),
            cands == name@ + fallback@,
            cands == alias_candidates(name@),
            *taken == *old(taken),
            forall|j: int| 0 <= j < n + k ==> taken@.contains(#[trigger] cands[j]),
        decreases m - k,
    {
        let c = fallback.get_char(k);
        assert(cands[n + k] == c);
        if !contains_char(taken, c) {
            assert(is_first_free(cands, old(taken)@, c)) by {
                assert(forall|j: int|
                    0 <= j < n + k ==> old(taken)@.contains(#[trigger] cands[j]));
            }
            taken.push(c);
            return c;
        }
        k = k + 1;
    }
    assert(false);
    '0'
}

} // verus!
