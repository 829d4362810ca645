//! Scoring a guess against the answer: the per-position accuracy
//! specification and the executable two-pass, count-consuming algorithm that
//! attributes repeated letters to exact matches first.

use vstd::prelude::*;
use vstd::string::StrSliceExecFns;

use crate::counts::build_letter_counts;
use crate::types::{spec_word, GuessLetter, HitAccuracy, WordGuess};
use crate::words::{
    lemma_occurrences_take_le, lemma_occurrences_take_step, occurrences,
};

verus! {

/// How many positions strictly below `n` hold `c` as an exact match of the
/// answer.
pub open spec fn exact_upto(ans: Seq<char>, g: Seq<char>, c: char, n: int) -> nat
    decreases n,
{
    if n <= 0 {
        0
    } else {
        exact_upto(ans, g, c, n - 1) + if g[n - 1] == c && ans[n - 1] == c {
            1nat
        } else {
            0nat
        }
    }
}

/// How many positions in the whole guess hold `c` as an exact match.
pub open spec fn spec_exact(ans: Seq<char>, g: Seq<char>, c: char) -> nat {
    exact_upto(ans, g, c, g.len() as int)
}

/// How many positions strictly below `n` hold `c` somewhere other than the
/// answer's position for it.
pub open spec fn misplaced_upto(ans: Seq<char>, g: Seq<char>, c: char, n: int) -> nat
    decreases n,
{
    if n <= 0 {
        0
    } else {
        misplaced_upto(ans, g, c, n - 1) + if g[n - 1] == c && ans[n - 1] != c {
            1nat
        } else {
            0nat
        }
    }
}

/// The accuracy position `i` of the guess earns. An exact match is
/// `InRightPlace`. A misplaced letter is `InWord` only while the letter's
/// occurrences in the answer are not yet used up by its exact matches and by
/// earlier misplaced positions of the same letter; otherwise, and when the
/// letter is absent altogether, it is `NotInWord`.
pub open spec fn letter_score(ans: Seq<char>, g: Seq<char>, i: int) -> HitAccuracy {
    if ans[i] == g[i] {
        HitAccuracy::InRightPlace
    } else if spec_exact(ans, g, g[i]) + misplaced_upto(ans, g, g[i], i) < occurrences(
        ans,
        g[i],
    ) {
        HitAccuracy::InWord
    } else {
        HitAccuracy::NotInWord
    }
}

/// One scored position: the guessed character with its accuracy.
pub open spec fn scored_letter(ans: Seq<char>, g: Seq<char>, i: int) -> GuessLetter {
    GuessLetter { letter: g[i], accuracy: letter_score(ans, g, i) }
}

/// The scored prefix of length `n`, position by position.
pub open spec fn score_prefix(ans: Seq<char>, g: Seq<char>, n: int) -> Seq<GuessLetter>
    decreases n,
{
    if n <= 0 {
        Seq::empty()
    } else {
        score_prefix(ans, g, n - 1).push(scored_letter(ans, g, n - 1))
    }
}

/// The fully scored guess: each guessed character with its accuracy.
pub open spec fn score_seq(ans: Seq<char>, g: Seq<char>) -> Seq<GuessLetter> {
    score_prefix(ans, g, g.len() as int)
}

/// What the scored prefix holds at each position.
proof fn lemma_score_prefix_props(ans: Seq<char>, g: Seq<char>, n: int)
    requires
        0 <= n <= g.len(),
    ensures
        score_prefix(ans, g, n).len() == n,
        forall|i: int| 0 <= i < n ==> score_prefix(ans, g, n)[i] == scored_letter(ans, g, i),
    decreases n,
{
    if n > 0 {
        lemma_score_prefix_props(ans, g, n - 1);
    }
}

/// The scored guess is as long as the guess, and scores each position as
/// `letter_score` says.
pub broadcast proof fn lemma_score_seq_index(ans: Seq<char>, g: Seq<char>)
    ensures
        (#[trigger] score_seq(ans, g)).len() == g.len(),
        forall|i: int| 0 <= i < g.len() ==> score_seq(ans, g)[i] == scored_letter(ans, g, i),
{
    lemma_score_prefix_props(ans, g, g.len() as int);
}

/// How many positions strictly below `n` hold `c` misplaced and scored
/// `InWord`.
pub open spec fn inword_upto(ans: Seq<char>, g: Seq<char>, c: char, n: int) -> nat
    decreases n,
{
    if n <= 0 {
        0
    } else {
        inword_upto(ans, g, c, n - 1) + if g[n - 1] == c && ans[n - 1] != c && letter_score(
            ans,
            g,
            n - 1,
        ) == HitAccuracy::InWord {
            1nat
        } else {
            0nat
        }
    }
}

/// How many positions strictly below `n` hold `c` and are scored either
/// `InRightPlace` or `InWord`.
pub open spec fn scored_hits(ans: Seq<char>, g: Seq<char>, c: char, n: int) -> nat
    decreases n,
{
    if n <= 0 {
        0
    } else {
        scored_hits(ans, g, c, n - 1) + if g[n - 1] == c && letter_score(ans, g, n - 1)
            != HitAccuracy::NotInWord {
            1nat
        } else {
            0nat
        }
    }
}

/// Exact matches of `c` below `n` are occurrences of `c` in the answer's
/// prefix of length `n`.
proof fn lemma_exact_upto_le(ans: Seq<char>, g: Seq<char>, c: char, n: int)
    requires
        0 <= n <= ans.len(),
        n <= g.len(),
    ensures
        exact_upto(ans, g, c, n) <= occurrences(ans.take(n), c),
    decreases n,
{
    if n > 0 {
        lemma_exact_upto_le(ans, g, c, n - 1);
        lemma_occurrences_take_step(ans, c, n - 1);
    }
}

/// A letter has no more exact matches than occurrences in the answer.
proof fn lemma_exact_le_occurrences(ans: Seq<char>, g: Seq<char>, c: char)
    requires
        ans.len() == g.len(),
    ensures
        spec_exact(ans, g, c) <= occurrences(ans, c),
{
    lemma_exact_upto_le(ans, g, c, ans.len() as int);
    assert(ans.take(ans.len() as int) =~= ans);
}

/// The `InWord` marks of `c` below `n` are its misplaced positions, capped
/// by the occurrences of `c` that its exact matches leave over.
proof fn lemma_inword_capped(ans: Seq<char>, g: Seq<char>, c: char, n: int)
    requires
        ans.len() == g.len(),
        0 <= n <= g.len(),
    ensures
        inword_upto(ans, g, c, n) <= misplaced_upto(ans, g, c, n),
        spec_exact(ans, g, c) + inword_upto(ans, g, c, n) <= occurrences(ans, c),
        misplaced_upto(ans, g, c, n) + spec_exact(ans, g, c) <= occurrences(ans, c)
            ==> inword_upto(ans, g, c, n) == misplaced_upto(ans, g, c, n),
        misplaced_upto(ans, g, c, n) + spec_exact(ans, g, c) > occurrences(ans, c)
            ==> spec_exact(ans, g, c) + inword_upto(ans, g, c, n) == occurrences(ans, c),
    decreases n,
{
    if n == 0 {
        lemma_exact_le_occurrences(ans, g, c);
    } else {
        lemma_inword_capped(ans, g, c, n - 1);
    }
}

/// The hits of `c` split into its exact matches and its `InWord` marks.
proof fn lemma_scored_hits_split(ans: Seq<char>, g: Seq<char>, c: char, n: int)
    requires
        ans.len() == g.len(),
        0 <= n <= g.len(),
    ensures
        scored_hits(ans, g, c, n) == exact_upto(ans, g, c, n) + inword_upto(ans, g, c, n),
    decreases n,
{
    if n > 0 {
        lemma_scored_hits_split(ans, g, c, n - 1);
    }
}

/// A guess equal to the answer is scored `InRightPlace` at every position.
pub proof fn lemma_correct_guess_all_in_right_place(ans: Seq<char>)
    ensures
        forall|i: int| 0 <= i < ans.len() ==> letter_score(ans, ans, i) == HitAccuracy::InRightPlace,
{
}

/// A repeated letter never earns more `InRightPlace` and `InWord` marks
/// together than it has occurrences in the answer.
pub proof fn lemma_repeated_letter_hits_bounded(ans: Seq<char>, g: Seq<char>, c: char)
    requires
        ans.len() == g.len(),
    ensures
        scored_hits(ans, g, c, g.len() as int) <= occurrences(ans, c),
{
    lemma_scored_hits_split(ans, g, c, g.len() as int);
    lemma_inword_capped(ans, g, c, g.len() as int);
}

/// The slots pass one leaves behind: exact matches below `i` are scored,
/// everything else is still empty.
spec fn pass_one_shape(slots: Seq<Option<GuessLetter>>, ans: Seq<char>, gv: Seq<char>, i: int) -> bool {
    forall|j: int|
        0 <= j < 5 ==> slots[j] == (if j < i && ans[j] == gv[j] {
            Some(scored_letter(ans, gv, j))
        } else {
            None::<GuessLetter>
        })
}

/// The slots during pass two: exact matches and everything below `i` are
/// scored, the rest is still empty.
spec fn pass_two_shape(slots: Seq<Option<GuessLetter>>, ans: Seq<char>, gv: Seq<char>, i: int) -> bool {
    forall|j: int|
        0 <= j < 5 ==> slots[j] == (if ans[j] == gv[j] || j < i {
            Some(scored_letter(ans, gv, j))
        } else {
            None::<GuessLetter>
        })
}

/// Scores `guess` against `answer` by the two-pass, count-consuming
/// algorithm: each answer letter's occurrence count is built first, the pass
/// over exact matches consumes from it, and only then does the left-to-right
/// pass award `InWord` while a letter's count lasts.
#[verifier::loop_isolation(false)]
pub fn score_guess(answer: &str, guess: &str) -> (r: WordGuess)
    requires
        answer@.len() == 5,
        guess@.len() == 5,
    ensures
        r.letters@ == score_seq(answer@, guess@),
        spec_word(r) == guess@,
{
    let ghost ans = answer@;
    let ghost gv = guess@;
    let mut counts = build_letter_counts(answer);
    let mut slots: Vec<Option<GuessLetter>> = Vec::new();
    let mut k: usize = 0;
    while k < 5
        invariant
            k <= 5,
            slots@.len() == k,
            forall|j: int| 0 <= j < k ==> slots@[j] is None,
        decreases 5 - k,
    {
        slots.push(None);
        k += 1;
    }

    let mut i: usize = 0;
    while i < 5
        invariant
            i <= 5,
            slots@.len() == 5,
            forall|c: char|
                counts.spec_count(c) + exact_upto(ans, gv, c, i as int) == occurrences(ans, c),
            pass_one_shape(slots@, ans, gv, i as int),
        decreases 5 - i,
    {
        let c = guess.get_char(i);
        if c == answer.get_char(i) {
            proof {
                lemma_exact_upto_le(ans, gv, c, i as int);
                lemma_occurrences_take_step(ans, c, i as int);
                lemma_occurrences_take_le(ans, c, i + 1);
            }
            counts.consume(c);
            slots.set(i, Some(GuessLetter { letter: c, accuracy: HitAccuracy::InRightPlace }));
        }
        proof {
            assert forall|d: char|
                counts.spec_count(d) + exact_upto(ans, gv, d, i + 1) == occurrences(
                    ans,
                    d,
                ) by {
                assert(exact_upto(ans, gv, d, i + 1) == exact_upto(ans, gv, d, i as int) + if gv[i
                    as int] == d && ans[i as int] == d {
                    1nat
                } else {
                    0nat
                });
            }
            assert forall|j: int|
                0 <= j < 5 implies slots@[j] == (if j < i + 1 && ans[j] == gv[j] {
                Some(scored_letter(ans, gv, j))
            } else {
                None::<GuessLetter>
            }) by {
                if j == i && ans[j] == gv[j] {
                    assert(letter_score(ans, gv, j) == HitAccuracy::InRightPlace);
                }
            }
            assert(pass_one_shape(slots@, ans, gv, i + 1));
        }
        i += 1;
    }

    let mut i: usize = 0;
    while i < 5
        invariant
            i <= 5,
            slots@.len() == 5,
            forall|c: char|
                counts.spec_count(c) + spec_exact(ans, gv, c) + inword_upto(ans, gv, c, i as int)
                    == occurrences(ans, c),
            pass_two_shape(slots@, ans, gv, i as int),
        decreases 5 - i,
    {
        let sl = slots[i];
        if sl.is_none() {
            let c = guess.get_char(i);
            let remaining = counts.count_of(c);
            proof {
                assert(slots@[i as int] is None);
                assert(ans[i as int] != gv[i as int]);
                lemma_inword_capped(ans, gv, c, i as int);
            }
            if remaining >= 1 {
                proof {
                    assert(letter_score(ans, gv, i as int) == HitAccuracy::InWord);
                }
                counts.consume(c);
                slots.set(i, Some(GuessLetter { letter: c, accuracy: HitAccuracy::InWord }));
            } else {
                proof {
                    assert(letter_score(ans, gv, i as int) == HitAccuracy::NotInWord);
                }
                slots.set(i, Some(GuessLetter { letter: c, accuracy: HitAccuracy::NotInWord }));
            }
        }
        proof {
            assert forall|d: char|
                counts.spec_count(d) + spec_exact(ans, gv, d) + inword_upto(ans, gv, d, i + 1)
                    == occurrences(ans, d) by {
                assert(inword_upto(ans, gv, d, i + 1) == inword_upto(ans, gv, d, i as int) + if gv[i
                    as int] == d && ans[i as int] != d && letter_score(ans, gv, i as int)
                    == HitAccuracy::InWord {
                    1nat
                } else {
                    0nat
                });
            }
            assert forall|j: int|
                0 <= j < 5 implies slots@[j] == (if ans[j] == gv[j] || j < i + 1 {
                Some(scored_letter(ans, gv, j))
            } else {
                None::<GuessLetter>
            }) by {}
            assert(pass_two_shape(slots@, ans, gv, i + 1));
        }
        i += 1;
    }

    let mut letters: Vec<GuessLetter> = Vec::new();
    let mut j: usize = 0;
    while j < 5
        invariant
            j <= 5,
            slots@.len() == 5,
            pass_two_shape(slots@, ans, gv, 5),
            letters@.len() == j,
            forall|t: int| 0 <= t < j ==> letters@[t] == scored_letter(ans, gv, t),
        decreases 5 - j,
    {
        let sl = slots[j];
        proof {
            assert(slots@[j as int] == Some(scored_letter(ans, gv, j as int)));
        }
        letters.push(sl.unwrap());
        j += 1;
    }
    proof {
        lemma_score_seq_index(ans, gv);
        assert(letters@ =~= score_seq(ans, gv));
    }
    let r = WordGuess { letters };
    proof {
        assert(spec_word(r) =~= gv);
    }
    r
}

} // verus!
