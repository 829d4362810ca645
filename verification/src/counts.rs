//! The scratch per-letter remaining-occurrence counts that the two-pass
//! scoring algorithm consumes: an association list from character to count.

use vstd::prelude::*;
use vstd::string::StrSliceExecFns;

use crate::words::{lemma_occurrences_le_len, lemma_occurrences_take_step, occurrences};

verus! {

/// The count the association list gives `c`: the value of the first entry
/// whose key is `c`, or zero when no entry has that key.
pub open spec fn assoc_count(s: Seq<(char, usize)>, c: char) -> nat
    decreases s.len(),
{
    if s.len() == 0 {
        0
    } else if s[0].0 == c {
        s[0].1 as nat
    } else {
        assoc_count(s.drop_first(), c)
    }
}

/// When the first `i` entries all have other keys, the count of `c` is
/// decided by the rest of the list.
proof fn lemma_assoc_count_skip(s: Seq<(char, usize)>, c: char, i: int)
    requires
        0 <= i <= s.len(),
        forall|j: int| 0 <= j < i ==> (#[trigger] s[j]).0 != c,
    ensures
        assoc_count(s, c) == assoc_count(s.skip(i), c),
    decreases i,
{
    if i == 0 {
        assert(s.skip(0) =~= s);
    } else {
        assert(s[0].0 != c);
        lemma_assoc_count_skip(s.drop_first(), c, i - 1);
        assert(s.drop_first().skip(i - 1) =~= s.skip(i));
        assert(assoc_count(s, c) == assoc_count(s.drop_first(), c));
    }
}

/// Overwriting the first entry for `c` sets the count of `c` to the new
/// value and leaves every other character's count alone.
proof fn lemma_assoc_count_update(s: Seq<(char, usize)>, c: char, i: int, v: usize)
    requires
        0 <= i < s.len(),
        s[i].0 == c,
        forall|j: int| 0 <= j < i ==> (#[trigger] s[j]).0 != c,
    ensures
        assoc_count(s.update(i, (c, v)), c) == v,
        forall|d: char| d != c ==> assoc_count(s.update(i, (c, v)), d) == assoc_count(s, d),
    decreases i,
{
    let t = s.update(i, (c, v));
    if i == 0 {
        assert(t[0] == (c, v));
        assert(t.drop_first() =~= s.drop_first());
        assert forall|d: char| d != c implies assoc_count(t, d) == assoc_count(s, d) by {
            assert(assoc_count(t, d) == assoc_count(t.drop_first(), d));
            assert(assoc_count(s, d) == assoc_count(s.drop_first(), d));
        }
    } else {
        assert(t[0] == s[0]);
        assert(s[0].0 != c);
        lemma_assoc_count_update(s.drop_first(), c, i - 1, v);
        assert(t.drop_first() =~= s.drop_first().update(i - 1, (c, v)));
        assert(assoc_count(t, c) == assoc_count(t.drop_first(), c));
        assert forall|d: char| d != c implies assoc_count(t, d) == assoc_count(s, d) by {
            if s[0].0 == d {
                assert(assoc_count(t, d) == t[0].1);
                assert(assoc_count(s, d) == s[0].1);
            } else {
                assert(assoc_count(t, d) == assoc_count(t.drop_first(), d));
                assert(assoc_count(s, d) == assoc_count(s.drop_first(), d));
                assert(assoc_count(t.drop_first(), d) == assoc_count(s.drop_first(), d));
            }
        }
    }
}

/// Appending an entry for a key that is absent sets that key's count and
/// leaves every other character's count alone.
proof fn lemma_assoc_count_push(s: Seq<(char, usize)>, c: char, v: usize)
    requires
        forall|j: int| 0 <= j < s.len() ==> (#[trigger] s[j]).0 != c,
    ensures
        assoc_count(s.push((c, v)), c) == v,
        forall|d: char| d != c ==> assoc_count(s.push((c, v)), d) == assoc_count(s, d),
    decreases s.len(),
{
    let t = s.push((c, v));
    if s.len() == 0 {
        assert(t[0] == (c, v));
        assert(t.drop_first() =~= Seq::<(char, usize)>::empty());
        assert(assoc_count(t, c) == t[0].1);
        assert forall|d: char| d != c implies assoc_count(t, d) == assoc_count(s, d) by {
            assert(assoc_count(t, d) == assoc_count(t.drop_first(), d));
        }
    } else {
        assert(t[0] == s[0]);
        assert(s[0].0 != c);
        lemma_assoc_count_push(s.drop_first(), c, v);
        assert(t.drop_first() =~= s.drop_first().push((c, v)));
        assert(assoc_count(t, c) == assoc_count(t.drop_first(), c));
        assert forall|d: char| d != c implies assoc_count(t, d) == assoc_count(s, d) by {
            if s[0].0 == d {
                assert(assoc_count(t, d) == t[0].1);
                assert(assoc_count(s, d) == s[0].1);
            } else {
                assert(assoc_count(t, d) == assoc_count(t.drop_first(), d));
                assert(assoc_count(s, d) == assoc_count(s.drop_first(), d));
            }
        }
    }
}

/// A mutable mapping from character to how many occurrences of it are still
/// unconsumed. Scratch state local to scoring one guess.
pub struct LetterCounts {
    entries: Vec<(char, usize)>,
}

impl LetterCounts {
    /// The count currently associated with `c`.
    pub closed spec fn spec_count(&self, c: char) -> nat {
        assoc_count(self.entries@, c)
    }

    /// An empty mapping: every character counts zero.
    pub fn empty() -> (r: LetterCounts)
        ensures
            forall|c: char| r.spec_count(c) == 0,
    {
        LetterCounts { entries: Vec::new() }
    }

    /// The index of the first entry whose key is `c`, if any.
    fn find(&self, c: char) -> (r: Option<usize>)
        ensures
            match r {
                Some(i) => {
                    &&& i < self.entries@.len()
                    &&& self.entries@[i as int].0 == c
                    &&& forall|j: int| 0 <= j < i ==> (#[trigger] self.entries@[j]).0 != c
                },
                None => forall|j: int|
                    0 <= j < self.entries@.len() ==> (#[trigger] self.entries@[j]).0 != c,
            },
    {
        let mut i: usize = 0;
        while i < self.entries.len()
            invariant
                i <= self.entries@.len(),
                forall|j: int| 0 <= j < i ==> (#[trigger] self.entries@[j]).0 != c,
            decreases self.entries@.len() - i,
        {
            if self.entries[i].0 == c {
                return Some(i);
            }
            i += 1;
        }
        None
    }

    /// The count currently associated with `c`, as a value.
    pub fn count_of(&self, c: char) -> (n: usize)
        ensures
            n == self.spec_count(c),
    {
        match self.find(c) {
            Some(i) => {
                proof {
                    lemma_assoc_count_skip(self.entries@, c, i as int);
                }
                self.entries[i].1
            },
            None => {
                proof {
                    lemma_assoc_count_skip(self.entries@, c, self.entries@.len() as int);
                }
                0
            },
        }
    }

    /// Raises the count of `c` by one, inserting a fresh entry when absent.
    pub fn bump(&mut self, c: char)
        requires
            old(self).spec_count(c) < usize::MAX,
        ensures
            final (self).spec_count(c) == old(self).spec_count(c) + 1,
            forall|d: char| d != c ==> final (self).spec_count(d) == old(self).spec_count(d),
    {
        match self.find(c) {
            Some(i) => {
                proof {
                    lemma_assoc_count_skip(self.entries@, c, i as int);
                }
                let n = self.entries[i].1;
                self.entries.set(i, (c, n + 1));
                proof {
                    lemma_assoc_count_update(old(self).entries@, c, i as int, (n + 1) as usize);
                }
            },
            None => {
                proof {
                    lemma_assoc_count_skip(self.entries@, c, self.entries@.len() as int);
                }
                self.entries.push((c, 1));
                proof {
                    lemma_assoc_count_push(old(self).entries@, c, 1);
                }
            },
        }
    }

    /// Lowers the count of `c` by one; `c` must still have occurrences left.
    pub fn consume(&mut self, c: char)
        requires
            old(self).spec_count(c) >= 1,
        ensures
            final (self).spec_count(c) == old(self).spec_count(c) - 1,
            forall|d: char| d != c ==> final (self).spec_count(d) == old(self).spec_count(d),
    {
        match self.find(c) {
            Some(i) => {
                proof {
                    lemma_assoc_count_skip(self.entries@, c, i as int);
                }
                let n = self.entries[i].1;
                self.entries.set(i, (c, n - 1));
                proof {
                    lemma_assoc_count_update(old(self).entries@, c, i as int, (n - 1) as usize);
                }
            },
            None => {
                proof {
                    lemma_assoc_count_skip(self.entries@, c, self.entries@.len() as int);
                    assert(false);
                }
            },
        }
    }
}

/// Counts how often each character occurs in `word`: the per-letter budget
/// that scoring a guess consumes.
pub fn build_letter_counts(word: &str) -> (r: LetterCounts)
    ensures
        forall|c: char| r.spec_count(c) == occurrences(word@, c),
{
    let n = word.unicode_len();
    let mut counts = LetterCounts::empty();
    let mut i: usize = 0;
    while i < n
        invariant
            n == word@.len(),
            i <= n,
            forall|c: char| counts.spec_count(c) == occurrences(word@.take(i as int), c),
        decreases n - i,
    {
        let c = word.get_char(i);
        proof {
            lemma_occurrences_le_len(word@.take(i as int), c);
            lemma_occurrences_take_step(word@, c, i as int);
            assert forall|d: char| d != c implies occurrences(word@.take(i + 1), d) == occurrences(
                word@.take(i as int),
                d,
            ) by {
                lemma_occurrences_take_step(word@, d, i as int);
            }
        }
        counts.bump(c);
        i += 1;
    }
    proof {
        assert(word@.take(n as int) =~= word@);
    }
    counts
}

} // verus!
