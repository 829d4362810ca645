//! Helpers on characters, strings and word lists: occurrence counting,
//! character-wise string comparison, and random word selection.

use vstd::prelude::*;
use vstd::string::StrSliceExecFns;

verus! {

/// The number of times `c` occurs in `s`.
pub open spec fn occurrences(s: Seq<char>, c: char) -> nat
    decreases s.len(),
{
    if s.len() == 0 {
        0
    } else {
        occurrences(s.drop_last(), c) + if s.last() == c {
            1nat
        } else {
            0nat
        }
    }
}

/// Counting one more character from the left extends the occurrence count of
/// a prefix by whether that character is `c`.
pub proof fn lemma_occurrences_take_step(s: Seq<char>, c: char, i: int)
    requires
        0 <= i < s.len(),
    ensures
        occurrences(s.take(i + 1), c) == occurrences(s.take(i), c) + if s[i] == c {
            1nat
        } else {
            0nat
        },
{
    assert(s.take(i + 1).drop_last() =~= s.take(i));
}

/// A character cannot occur more often than the sequence is long.
pub proof fn lemma_occurrences_le_len(s: Seq<char>, c: char)
    ensures
        occurrences(s, c) <= s.len(),
    decreases s.len(),
{
    if s.len() > 0 {
        lemma_occurrences_le_len(s.drop_last(), c);
    }
}

/// A prefix holds at most as many occurrences as the whole sequence.
pub proof fn lemma_occurrences_take_le(s: Seq<char>, c: char, n: int)
    requires
        0 <= n <= s.len(),
    ensures
        occurrences(s.take(n), c) <= occurrences(s, c),
    decreases s.len(),
{
    if n < s.len() {
        assert(s.drop_last().take(n) =~= s.take(n));
        lemma_occurrences_take_le(s.drop_last(), c, n);
    } else {
        assert(s.take(n) =~= s);
    }
}

/// Character-wise string equality; true exactly when the two views agree.
pub fn str_eq(a: &str, b: &str) -> (r: bool)
    ensures
        r == (a@ == b@),
{
    let la = a.unicode_len();
    let lb = b.unicode_len();
    if la != lb {
        return false;
    }
    let mut i: usize = 0;
    while i < la
        invariant
            la == a@.len(),
            la == b@.len(),
            i <= la,
            forall|j: int| 0 <= j < i ==> a@[j] == b@[j],
        decreases la - i,
    {
        if a.get_char(i) != b.get_char(i) {
            return false;
        }
        i += 1;
    }
    proof {
        assert(a@ =~= b@);
    }
    true
}

/// Whether `c` occurs anywhere in `s`.
pub fn str_contains_char(s: &str, c: char) -> (r: bool)
    ensures
        r == s@.contains(c),
{
    let n = s.unicode_len();
    let mut i: usize = 0;
    while i < n
        invariant
            n == s@.len(),
            i <= n,
            forall|j: int| 0 <= j < i ==> s@[j] != c,
        decreases n - i,
    {
        if s.get_char(i) == c {
            proof {
                assert(s@[i as int] == c);
            }
            return true;
        }
        i += 1;
    }
    proof {
        assert(forall|j: int| 0 <= j < s@.len() ==> s@[j] != c);
    }
    false
}

/// Relies on String::push: appends the given character at the end.
#[verifier::external_body]
pub(crate) fn push_char(s: &mut String, c: char)
    ensures
        final (s)@ == old(s)@.push(c),
{
    s.push(c);
}

/// Relies on rand::random: a value drawn from the thread-local generator.
/// Nothing can be promised of a random value, so no clause is stated.
pub assume_specification<T>[ rand::random::<T> ]() -> (r: T)
    where
        rand::distributions::Standard: rand::distributions::Distribution<T>,
;

/// An arbitrary word from a non-empty dictionary, chosen by the `rand`
/// crate. Nothing is promised of which entry comes back, only that the
/// result is one of them.
pub fn get_random_word(dict: &Vec<String>) -> (w: String)
    requires
        dict@.len() > 0,
    ensures
        exists|i: int| 0 <= i < dict@.len() && w@ == (#[trigger] dict@[i])@,
{
    let raw: u64 = rand::random();
    let len_u64: u64 = dict.len() as u64;
    let idx: usize = (raw % len_u64) as usize;
    proof {
        assert(raw % len_u64 < len_u64);
    }
    let w = dict[idx].clone();
    proof {
        assert(w@ == dict@[idx as int]@);
    }
    w
}

} // verus!
