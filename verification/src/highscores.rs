//! The high-score table: a fixed-size descending list of the best scores and
//! the bounded insertion that records a new one.

use vstd::prelude::*;

verus! {

/// Number of entries the table holds.
pub const HIGHSCORE_COUNT: usize = 5;

/// The ranked high-score table. Well-formed when it holds exactly
/// `HIGHSCORE_COUNT` entries; it is kept in descending order whenever it
/// started that way (see `lemma_insert_keeps_sorted`).
pub struct HighScores(pub Vec<u32>);

/// Entries never increase from left to right.
pub open spec fn sorted_desc(t: Seq<u32>) -> bool {
    forall|i: int, j: int| 0 <= i < j < t.len() ==> t[i] >= t[j]
}

/// Index of the first entry strictly below `score`, or `t.len()` if none is.
pub open spec fn first_slot_below(t: Seq<u32>, score: u32) -> int
    decreases t.len(),
{
    if t.len() == 0 {
        0
    } else if t[0] < score {
        0
    } else {
        1 + first_slot_below(t.skip(1), score)
    }
}

/// What the table holds after submitting `score`: unchanged if no entry is
/// below it, else `score` stands at the first such slot and everything from
/// that slot on moves down one place, the last entry falling off the end.
pub open spec fn inserted(t: Seq<u32>, score: u32) -> Seq<u32> {
    let k = first_slot_below(t, score);
    if k == t.len() {
        t
    } else {
        t.take(k).push(score) + t.subrange(k, t.len() - 1)
    }
}

/// `first_slot_below` indeed names the least index whose entry is below
/// `score`, and equals the length exactly when no entry is.
pub proof fn lemma_first_slot_below(t: Seq<u32>, score: u32)
    ensures
        0 <= first_slot_below(t, score) <= t.len(),
        first_slot_below(t, score) < t.len() ==> t[first_slot_below(t, score)] < score,
        forall|j: int| 0 <= j < first_slot_below(t, score) ==> t[j] >= score,
    decreases t.len(),
{
    if t.len() == 0 {
    } else if t[0] < score {
    } else {
        lemma_first_slot_below(t.skip(1), score);
        let k = first_slot_below(t, score);
        assert forall|j: int| 0 <= j < k implies t[j] >= score by {
            if j > 0 {
                assert(t.skip(1)[j - 1] == t[j]);
            }
        }
        if k < t.len() {
            assert(t.skip(1)[k - 1] == t[k]);
        }
    }
}

impl HighScores {
    pub open spec fn wf(&self) -> bool {
        self.0@.len() == HIGHSCORE_COUNT
    }

    /// The built-in default table, used when no stored one can be read.
    pub fn default_table() -> (r: HighScores)
        ensures
            r.wf(),
            r.0@ =~= seq![100u32, 80u32, 50u32, 30u32, 10u32],
            sorted_desc(r.0@),
    {
        let mut v: Vec<u32> = Vec::new();
        v.push(100);
        v.push(80);
        v.push(50);
        v.push(30);
        v.push(10);
        HighScores(v)
    }
}

/// Submits `score` to the table: if some entry is strictly below it, `score`
/// takes the first such slot, the tail shifts down one place and the lowest
/// entry is dropped; otherwise nothing changes. Returns whether a new high
/// score was recorded.
pub fn check_and_update_highscores(high_scores: &mut HighScores, score: u32) -> (is_highscore: bool)
    requires
        old(high_scores).wf(),
    ensures
        final(high_scores).wf(),
        final(high_scores).0@ == inserted(old(high_scores).0@, score),
        is_highscore == (first_slot_below(old(high_scores).0@, score) < HIGHSCORE_COUNT),
        is_highscore == exists|i: int| 0 <= i < HIGHSCORE_COUNT && old(high_scores).0@[i] < score,
        !is_highscore ==> final(high_scores).0@ == old(high_scores).0@,
{
    proof {
        lemma_first_slot_below(old(high_scores).0@, score);
    }
    let ghost t0 = high_scores.0@;
    let ghost k_spec = first_slot_below(t0, score);

    // Find the first slot whose entry is strictly below the score.
    let mut k: usize = 0;
    while k < HIGHSCORE_COUNT && high_scores.0[k] >= score
        invariant
            high_scores.0@ == t0,
            t0.len() == HIGHSCORE_COUNT,
            k_spec == first_slot_below(t0, score),
            0 <= k <= HIGHSCORE_COUNT,
            forall|j: int| 0 <= j < k ==> t0[j] >= score,
            k <= k_spec,
        decreases HIGHSCORE_COUNT - k,
    {
        k = k + 1;
        proof {
            assert(k <= k_spec) by {
                lemma_first_slot_below(t0, score);
                if k_spec < k {
                    assert(t0[k_spec] < score);
                }
            }
        }
    }
    proof {
        assert(k == k_spec) by {
            lemma_first_slot_below(t0, score);
            if k < HIGHSCORE_COUNT && k < k_spec {
                assert(t0[k as int] >= score);
            }
        }
    }

    if k == HIGHSCORE_COUNT {
        proof {
            assert(inserted(t0, score) == t0);
            assert forall|i: int| 0 <= i < HIGHSCORE_COUNT implies !(t0[i] < score) by {
                lemma_first_slot_below(t0, score);
            }
        }
        return false;
    }

    // Shift the tail down one place and put the score in its slot.
    let mut j: usize = HIGHSCORE_COUNT - 1;
    while j > k
        invariant
            t0.len() == HIGHSCORE_COUNT,
            0 <= k <= j < HIGHSCORE_COUNT,
            high_scores.0@.len() == HIGHSCORE_COUNT,
            forall|i: int| 0 <= i <= j ==> high_scores.0@[i] == t0[i],
            forall|i: int| j < i < HIGHSCORE_COUNT ==> high_scores.0@[i] == t0[i - 1],
        decreases j,
    {
        let moved = high_scores.0[j - 1];
        high_scores.0.set(j, moved);
        j = j - 1;
    }
    high_scores.0.set(k, score);
    proof {
        assert(high_scores.0@ =~= inserted(t0, score));
        assert(t0[k as int] < score);
    }
    true
}

/// A score no entry is strictly below leaves the table untouched and sets no
/// record.
pub proof fn lemma_low_score_leaves_table(t: Seq<u32>, score: u32)
    requires
        forall|i: int| 0 <= i < t.len() ==> t[i] >= score,
    ensures
        first_slot_below(t, score) == t.len(),
        inserted(t, score) == t,
{
    lemma_first_slot_below(t, score);
    if first_slot_below(t, score) < t.len() {
        assert(t[first_slot_below(t, score)] < score);
    }
}

/// On a descending table a record is set exactly when the score beats the
/// lowest entry.
pub proof fn lemma_record_iff_beats_minimum(t: Seq<u32>, score: u32)
    requires
        sorted_desc(t),
        t.len() > 0,
    ensures
        (first_slot_below(t, score) < t.len()) == (t[t.len() - 1] < score),
{
    lemma_first_slot_below(t, score);
    let k = first_slot_below(t, score);
    if k < t.len() {
        assert(t[k] < score);
        assert(t[t.len() - 1] <= t[k] || k == t.len() - 1);
    } else {
        assert(t[t.len() - 1] >= score);
    }
}

/// Insertion keeps a descending table descending, and only the tail from the
/// insertion slot on is touched.
pub proof fn lemma_insert_keeps_sorted(t: Seq<u32>, score: u32)
    requires
        sorted_desc(t),
    ensures
        sorted_desc(inserted(t, score)),
        inserted(t, score).len() == t.len(),
        forall|j: int|
            0 <= j < first_slot_below(t, score) ==> inserted(t, score)[j] == t[j],
{
    lemma_first_slot_below(t, score);
    let k = first_slot_below(t, score);
    let r = inserted(t, score);
    if k < t.len() {
        assert forall|i: int, j: int| 0 <= i < j < r.len() implies r[i] >= r[j] by {
            if i < k {
                assert(r[i] == t[i]);
                assert(t[i] >= score);
                if j < k {
                    assert(r[j] == t[j]);
                } else if j == k {
                    assert(r[j] == score);
                } else {
                    assert(r[j] == t[j - 1]);
                    if j - 1 >= k {
                        if i < j - 1 {
                            assert(t[i] >= t[j - 1]);
                        }
                    }
                }
            } else if i == k {
                assert(r[i] == score);
                assert(r[j] == t[j - 1]);
                assert(t[j - 1] < score || t[j - 1] <= t[k]);
                assert(t[k] < score);
                if k < j - 1 {
                    assert(t[k] >= t[j - 1]);
                }
            } else {
                assert(r[i] == t[i - 1]);
                assert(r[j] == t[j - 1]);
                assert(t[i - 1] >= t[j - 1]);
            }
        }
    }
}

} // verus!
