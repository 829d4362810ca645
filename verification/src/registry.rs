//! The per-letter knowledge registry: the best accuracy seen so far for each
//! played letter, only ever upgraded, never downgraded.

use vstd::prelude::*;

use crate::types::{accuracy_rank, GuessLetter, HitAccuracy};

verus! {

/// The map an association list denotes. The list is kept free of duplicate
/// keys, so the first entry found for a key is its value.
spec fn assoc_map(s: Seq<(char, HitAccuracy)>) -> Map<char, HitAccuracy>
    decreases s.len(),
{
    if s.len() == 0 {
        Map::empty()
    } else {
        assoc_map(s.drop_last()).insert(s.last().0, s.last().1)
    }
}

/// One merge step: a letter with no entry is inserted; an existing entry is
/// replaced only by a strictly higher-ranked accuracy.
pub open spec fn spec_upgrade(m: Map<char, HitAccuracy>, gl: GuessLetter) -> Map<
    char,
    HitAccuracy,
> {
    if !m.contains_key(gl.letter) || accuracy_rank(gl.accuracy) > accuracy_rank(m[gl.letter]) {
        m.insert(gl.letter, gl.accuracy)
    } else {
        m
    }
}

/// Folding a whole scored guess into the registry, letter by letter.
pub open spec fn merge_letters(m: Map<char, HitAccuracy>, ls: Seq<GuessLetter>) -> Map<
    char,
    HitAccuracy,
>
    decreases ls.len(),
{
    if ls.len() == 0 {
        m
    } else {
        merge_letters(spec_upgrade(m, ls[0]), ls.drop_first())
    }
}

/// Knowledge never downgrades: once a letter is recorded, merging any later
/// scored guess keeps its entry and never lowers the entry's rank, even when
/// that guess scores the letter lower.
pub proof fn lemma_registry_never_downgrades(
    m: Map<char, HitAccuracy>,
    ls: Seq<GuessLetter>,
    c: char,
)
    requires
        m.contains_key(c),
    ensures
        merge_letters(m, ls).contains_key(c),
        accuracy_rank(merge_letters(m, ls)[c]) >= accuracy_rank(m[c]),
    decreases ls.len(),
{
    if ls.len() > 0 {
        let m1 = spec_upgrade(m, ls[0]);
        assert(m1.contains_key(c));
        assert(accuracy_rank(m1[c]) >= accuracy_rank(m[c]));
        lemma_registry_never_downgrades(m1, ls.drop_first(), c);
    }
}

/// With distinct keys, the entry at `i` gives the denoted map's value.
proof fn lemma_assoc_map_get(s: Seq<(char, HitAccuracy)>, i: int)
    requires
        0 <= i < s.len(),
        forall|j: int, k: int|
            0 <= j < k < s.len() ==> (#[trigger] s[j]).0 != (#[trigger] s[k]).0,
    ensures
        assoc_map(s).contains_key(s[i].0),
        assoc_map(s)[s[i].0] == s[i].1,
    decreases s.len(),
{
    if i < s.len() - 1 {
        assert(s.drop_last()[i] == s[i]);
        lemma_assoc_map_get(s.drop_last(), i);
        assert(s.last().0 != s[i].0);
    }
}

/// A key on no entry is absent from the denoted map.
proof fn lemma_assoc_map_absent(s: Seq<(char, HitAccuracy)>, c: char)
    requires
        forall|j: int| 0 <= j < s.len() ==> (#[trigger] s[j]).0 != c,
    ensures
        !assoc_map(s).contains_key(c),
    decreases s.len(),
{
    if s.len() > 0 {
        lemma_assoc_map_absent(s.drop_last(), c);
    }
}

/// Overwriting the entry at `i` denotes inserting at its key.
proof fn lemma_assoc_map_update(s: Seq<(char, HitAccuracy)>, i: int, v: HitAccuracy)
    requires
        0 <= i < s.len(),
        forall|j: int, k: int|
            0 <= j < k < s.len() ==> (#[trigger] s[j]).0 != (#[trigger] s[k]).0,
    ensures
        assoc_map(s.update(i, (s[i].0, v))) =~= assoc_map(s).insert(s[i].0, v),
    decreases s.len(),
{
    let c = s[i].0;
    let t = s.update(i, (c, v));
    if i == s.len() - 1 {
        assert(t.drop_last() =~= s.drop_last());
        assert(t.last() == (c, v));
    } else {
        assert(s.drop_last()[i] == s[i]);
        lemma_assoc_map_update(s.drop_last(), i, v);
        assert(t.drop_last() =~= s.drop_last().update(i, (c, v)));
        assert(t.last() == s.last());
        assert(s.last().0 != c);
        assert(assoc_map(t) =~= assoc_map(s.drop_last()).insert(c, v).insert(
            s.last().0,
            s.last().1,
        ));
        assert(assoc_map(s.drop_last()).insert(c, v).insert(s.last().0, s.last().1)
            =~= assoc_map(s.drop_last()).insert(s.last().0, s.last().1).insert(c, v));
    }
}

/// The ranking of an accuracy, as a value the merge code can compare.
fn rank_value(a: HitAccuracy) -> (r: u8)
    ensures
        r as int == accuracy_rank(a),
{
    match a {
        HitAccuracy::NotInWord => 0,
        HitAccuracy::InWord => 1,
        HitAccuracy::InRightPlace => 2,
    }
}

/// The registry itself: an association list from letter to the best
/// accuracy recorded for it, with no duplicate letters.
pub struct LetterRegistry {
    entries: Vec<(char, HitAccuracy)>,
}

impl View for LetterRegistry {
    type V = Map<char, HitAccuracy>;

    closed spec fn view(&self) -> Map<char, HitAccuracy> {
        assoc_map(self.entries@)
    }
}

impl LetterRegistry {
    /// No letter has two entries.
    pub closed spec fn wf(&self) -> bool {
        forall|j: int, k: int|
            0 <= j < k < self.entries@.len() ==> (#[trigger] self.entries@[j]).0 != (
            #[trigger] self.entries@[k]).0
    }

    /// A registry with nothing recorded.
    pub fn new() -> (r: LetterRegistry)
        ensures
            r.wf(),
            r@ == Map::<char, HitAccuracy>::empty(),
    {
        LetterRegistry { entries: Vec::new() }
    }

    /// The index of the entry for `c`, if one exists.
    fn find(&self, c: char) -> (r: Option<usize>)
        ensures
            match r {
                Some(i) => i < self.entries@.len() && self.entries@[i as int].0 == c,
                None => forall|j: int|
                    0 <= j < self.entries@.len() ==> (#[trigger] self.entries@[j]).0 != c,
            },
    {
        let mut i: usize = 0;
        while i < self.entries.len()
            invariant
                i <= self.entries@.len(),
                forall|j: int| 0 <= j < i ==> (#[trigger] self.entries@[j]).0 != c,
            decreases self.entries@.len() - i,
        {
            if self.entries[i].0 == c {
                return Some(i);
            }
            i += 1;
        }
        None
    }

    /// The recorded accuracy for `c`, if the letter was ever scored.
    pub fn get(&self, c: char) -> (r: Option<HitAccuracy>)
        requires
            self.wf(),
        ensures
            r == if self@.contains_key(c) {
                Some(self@[c])
            } else {
                None::<HitAccuracy>
            },
    {
        match self.find(c) {
            Some(i) => {
                proof {
                    lemma_assoc_map_get(self.entries@, i as int);
                }
                Some(self.entries[i].1)
            },
            None => {
                proof {
                    lemma_assoc_map_absent(self.entries@, c);
                }
                None
            },
        }
    }

    /// Records one scored letter: inserts it when new, upgrades it when the
    /// new accuracy ranks strictly higher, and otherwise leaves it alone.
    pub fn record(&mut self, gl: GuessLetter)
        requires
            old(self).wf(),
        ensures
            final (self).wf(),
            final (self)@ == spec_upgrade(old(self)@, gl),
    {
        match self.find(gl.letter) {
            Some(i) => {
                proof {
                    lemma_assoc_map_get(self.entries@, i as int);
                }
                let cur = self.entries[i].1;
                if rank_value(gl.accuracy) > rank_value(cur) {
                    proof {
                        lemma_assoc_map_update(self.entries@, i as int, gl.accuracy);
                    }
                    self.entries.set(i, (gl.letter, gl.accuracy));
                    proof {
                        assert forall|j: int, k: int|
                            0 <= j < k < self.entries@.len() implies (#[trigger] self.entries@[j]).0
                            != (#[trigger] self.entries@[k]).0 by {
                            assert(old(self).entries@[j].0 != old(self).entries@[k].0);
                        }
                    }
                }
            },
            None => {
                proof {
                    lemma_assoc_map_absent(self.entries@, gl.letter);
                }
                self.entries.push((gl.letter, gl.accuracy));
                proof {
                    assert(self.entries@.drop_last() =~= old(self).entries@);
                    assert forall|j: int, k: int|
                        0 <= j < k < self.entries@.len() implies (#[trigger] self.entries@[j]).0
                        != (#[trigger] self.entries@[k]).0 by {
                        if k < self.entries@.len() - 1 {
                            assert(old(self).entries@[j].0 != old(self).entries@[k].0);
                        } else {
                            assert(old(self).entries@[j].0 != gl.letter);
                        }
                    }
                }
            },
        }
    }
}

} // verus!
