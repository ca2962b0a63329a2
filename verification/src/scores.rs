//! From the network's class scores to the digit: the first index that
//! holds the greatest score.
//!
//! A score is a single-precision number. It is held here as an integer key
//! that orders as the number does: the number's magnitude bits, negated
//! where the sign bit is set. Both zeros have key 0 and the infinities have
//! the keys of greatest size. A pattern that is not a number has no key: it
//! is held as `None`, and compares neither greater nor less than anything.

use vstd::prelude::*;
use crate::error::PipelineError;

verus! {

/// The number of digit classes.
pub const CLASSES: usize = 10;

/// The bit pattern's sign bit as a number.
pub const SIGN_BIT: u32 = 0x8000_0000;

/// The magnitude bits of the infinities; a greater magnitude is not a number.
pub const INFINITY_BITS: u32 = 0x7f80_0000;

/// The bit pattern without its sign bit.
pub open spec fn magnitude_of(bits: u32) -> int {
    if bits >= SIGN_BIT {
        bits - SIGN_BIT
    } else {
        bits as int
    }
}

/// Whether the bit pattern is not a number.
pub open spec fn is_nan(bits: u32) -> bool {
    magnitude_of(bits) > INFINITY_BITS
}

/// The key of a bit pattern: its magnitude, negated where the sign bit is
/// set.
pub open spec fn key_of(bits: u32) -> int {
    if bits >= SIGN_BIT {
        -magnitude_of(bits)
    } else {
        magnitude_of(bits)
    }
}

/// The score that a bit pattern stands for: its key, or `None` if it is not
/// a number.
pub open spec fn score_of(bits: u32) -> Option<i32> {
    if is_nan(bits) {
        None
    } else {
        Some(key_of(bits) as i32)
    }
}

/// The scores that a sequence of bit patterns stands for.
pub open spec fn scores_of(bits: Seq<u32>) -> Seq<Option<i32>> {
    Seq::new(bits.len(), |i: int| score_of(bits[i]))
}

/// Whether `challenger` takes the lead from `best`: both are numbers and
/// `challenger` is the greater.
pub open spec fn exceeds(challenger: Option<i32>, best: Option<i32>) -> bool {
    challenger is Some && best is Some && challenger->Some_0 > best->Some_0
}

/// The index that a scan from the left ends on: it starts on index 0 and
/// moves to each score that takes the lead. 0 if `s` is empty.
pub open spec fn scan_winner(s: Seq<Option<i32>>) -> int
    decreases s.len(),
{
    if s.len() <= 1 {
        0
    } else if exceeds(s.last(), s[scan_winner(s.drop_last())]) {
        s.len() - 1
    } else {
        scan_winner(s.drop_last())
    }
}

/// Whether `i` is the first index of `s` that holds the greatest of its
/// numbers.
pub open spec fn is_first_max(s: Seq<Option<i32>>, i: int) -> bool {
    &&& 0 <= i < s.len()
    &&& s[i] is Some
    &&& forall|j: int| 0 <= j < s.len() && (#[trigger] s[j]) is Some ==> s[j]->Some_0 <= s[i]->Some_0
    &&& forall|j: int| 0 <= j < i && (#[trigger] s[j]) is Some ==> s[j]->Some_0 < s[i]->Some_0
}

/// Where the scan ends. If the first score is a number, it ends on the
/// first index that holds the greatest of the numbers; scores that are not
/// numbers are passed over. If the first score is not a number, nothing
/// takes the lead from it and the scan ends on index 0.
pub proof fn lemma_scan_winner(s: Seq<Option<i32>>)
    requires
        s.len() > 0,
    ensures
        0 <= scan_winner(s) < s.len(),
        s[0] is Some ==> is_first_max(s, scan_winner(s)),
        s[0] is None ==> scan_winner(s) == 0,
    decreases s.len(),
{
    if s.len() > 1 {
        let front = s.drop_last();
        lemma_scan_winner(front);
        let m = scan_winner(front);
        assert(front[0] == s[0]);
        assert(front[m] == s[m]);
        if s[0] is Some {
            let w = scan_winner(s);
            assert forall|j: int| 0 <= j < s.len() && (#[trigger] s[j]) is Some implies s[j]->Some_0
                <= s[w]->Some_0 by {
                if j < front.len() {
                    assert(front[j] == s[j]);
                }
            }
            assert forall|j: int| 0 <= j < w && (#[trigger] s[j]) is Some implies s[j]->Some_0
                < s[w]->Some_0 by {
                assert(front[j] == s[j]);
            }
        }
    }
}

/// The winning index is determined by the scores: no two indices are both
/// the first to hold the greatest number. Of equal greatest scores the one
/// further left wins.
pub proof fn lemma_first_max_unique(s: Seq<Option<i32>>, i: int, j: int)
    requires
        is_first_max(s, i),
        is_first_max(s, j),
    ensures
        i == j,
{
    if i < j {
        assert(s[i]->Some_0 < s[j]->Some_0);
    } else if j < i {
        assert(s[j]->Some_0 < s[i]->Some_0);
    }
}

/// The score given by its bit pattern: its key, or `None` if the pattern is
/// not a number.
pub fn score_key(bits: u32) -> (key: Option<i32>)
    ensures
        key == score_of(bits),
        key matches Some(k) ==> k == key_of(bits),
{
    let negative: bool = bits >= SIGN_BIT;
    let magnitude: u32 = if negative {
        bits - SIGN_BIT
    } else {
        bits
    };
    if magnitude > INFINITY_BITS {
        None
    } else if negative {
        Some(-(magnitude as i32))
    } else {
        Some(magnitude as i32)
    }
}

/// The scores of a score vector given by its bit patterns, one for one.
pub fn scores_from_bits(bits: &Vec<u32>) -> (scores: Vec<Option<i32>>)
    ensures
        scores@ == scores_of(bits@),
{
    let mut scores: Vec<Option<i32>> = Vec::with_capacity(bits.len());
    let mut i: usize = 0;
    while i < bits.len()
        invariant
            i <= bits.len(),
            scores@.len() == i,
            forall|k: int| 0 <= k < i ==> scores@[k] == score_of(bits@[k]),
        decreases bits.len() - i,
    {
        scores.push(score_key(bits[i]));
        i = i + 1;
    }
    assert(scores@ =~= scores_of(bits@));
    scores
}

/// Whether `challenger` takes the lead from `best`.
fn takes_lead(challenger: Option<i32>, best: Option<i32>) -> (leads: bool)
    ensures
        leads == exceeds(challenger, best),
{
    match (challenger, best) {
        (Some(c), Some(b)) => c > b,
        _ => false,
    }
}

/// The index of the greatest score, the first such index where several
/// scores are equal and greatest. Fails with `InferenceFailure` only if
/// there are no scores.
///
/// A score that is not a number never takes the lead, and keeps it if it
/// comes first: then the index is 0.
pub fn extract(scores: &Vec<Option<i32>>) -> (r: Result<usize, PipelineError>)
    ensures
        scores@.len() == 0 ==> r == Err::<usize, _>(PipelineError::InferenceFailure),
        scores@.len() > 0 ==> r == Ok::<_, PipelineError>(scan_winner(scores@) as usize) && r->Ok_0
            < scores@.len(),
        scores@.len() > 0 && scores@[0] is Some ==> is_first_max(scores@, r->Ok_0 as int),
        scores@.len() > 0 && scores@[0] is None ==> r->Ok_0 == 0,
{
    if scores.len() == 0 {
        return Err(PipelineError::InferenceFailure);
    }
    let mut best: usize = 0;
    let mut i: usize = 1;
    while i < scores.len()
        invariant
            1 <= i <= scores.len(),
            best < i,
            best == scan_winner(scores@.take(i as int)),
        decreases scores.len() - i,
    {
        proof {
            let next = scores@.take(i + 1);
            assert(next.drop_last() =~= scores@.take(i as int));
            assert(next.last() == scores@[i as int]);
            assert(next[best as int] == scores@[best as int]);
        }
        if takes_lead(scores[i], scores[best]) {
            best = i;
        }
        i = i + 1;
    }
    proof {
        assert(scores@.take(scores.len() as int) =~= scores@);
        lemma_scan_winner(scores@);
    }
    Ok(best)
}

} // verus!
