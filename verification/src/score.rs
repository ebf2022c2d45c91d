//! Decisions taken on a player's scores.
use vstd::prelude::*;

verus! {

/// The picture that follows a new score in the channel, if any.
#[derive(PartialEq, Eq, Structural, Debug, Clone, Copy)]
pub enum ComboBadge {
    Perfect,
    FullCombo,
    Nothing,
}

/// The decisions taken when a player's pp changed.
pub struct PpCheck;

impl PpCheck {
    /// A perfect combo earns the "perfect" picture; otherwise a play with
    /// no combo break and no miss earns the "full combo" picture.
    pub fn combo_badge(is_perfect_combo: bool, combo_break: u32, miss: u32) -> (badge: ComboBadge)
        ensures
            badge == (if is_perfect_combo {
                ComboBadge::Perfect
            } else if combo_break == 0 && miss == 0 {
                ComboBadge::FullCombo
            } else {
                ComboBadge::Nothing
            }),
    {
        if is_perfect_combo {
            ComboBadge::Perfect
        } else if combo_break == 0 && miss == 0 {
            ComboBadge::FullCombo
        } else {
            ComboBadge::Nothing
        }
    }

    /// The position of the most recent score, given when each score
    /// ended: the latest time, and of several scores that ended at that
    /// time the last one (as `Iterator::max_by_key` picks). There must be
    /// a score (the original stops otherwise).
    pub fn latest_score_index(ended_at: &Vec<i64>) -> (idx: usize)
        requires
            ended_at@.len() > 0,
        ensures
            idx < ended_at@.len(),
            forall|j: int| 0 <= j < ended_at@.len() ==> ended_at@[j] <= ended_at@[idx as int],
            forall|j: int| idx < j < ended_at@.len() ==> ended_at@[j] < ended_at@[idx as int],
    {
        let mut best: usize = 0;
        let mut i: usize = 1;
        while i < ended_at.len()
            invariant
                1 <= i <= ended_at@.len(),
                best < i,
                forall|j: int| 0 <= j < i ==> ended_at@[j] <= ended_at@[best as int],
                forall|j: int| best < j < i ==> ended_at@[j] < ended_at@[best as int],
            decreases ended_at@.len() - i,
        {
            if ended_at[i] >= ended_at[best] {
                best = i;
            }
            i = i + 1;
        }
        best
    }
}

} // verus!
