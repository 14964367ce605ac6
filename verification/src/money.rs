//! The count of consecutive losses behind the progressive (Martingale)
//! sizing: the stake is the base amount times the multiplier to the power
//! of this count.
use vstd::prelude::*;
use crate::text::str_eq;

verus! {

/// Consecutive losing trades since the last win.
#[derive(Debug, Clone, Copy, PartialEq, Eq, Structural)]
pub struct LossStreak {
    pub consecutive_losses: u32,
}

/// The streak after a resolved trade: a `WIN` resets it, a `LOSS` extends
/// it, anything else (`NO_ENTRY`, `PENDING`, ...) leaves it.
pub open spec fn streak_after(losses: u32, outcome: Seq<char>) -> u32 {
    if outcome == "WIN"@ {
        0
    } else if outcome == "LOSS"@ {
        (losses + 1) as u32
    } else {
        losses
    }
}

impl LossStreak {
    /// A streak of `consecutive_losses`, such as one reloaded from disk.
    pub fn new(consecutive_losses: u32) -> (r: LossStreak)
        ensures
            r.consecutive_losses == consecutive_losses,
    {
        LossStreak { consecutive_losses }
    }

    /// Updates the streak with the outcome of a trade; returns whether the
    /// outcome was a `WIN` or a `LOSS` (and the streak should be saved).
    pub fn on_outcome(&mut self, outcome: &str) -> (saved: bool)
        requires
            outcome@ == "LOSS"@ ==> old(self).consecutive_losses < u32::MAX,
        ensures
            final(self).consecutive_losses == streak_after(old(self).consecutive_losses, outcome@),
            saved == (outcome@ == "WIN"@ || outcome@ == "LOSS"@),
    {
        if str_eq(outcome, "WIN") {
            self.consecutive_losses = 0;
            true
        } else if str_eq(outcome, "LOSS") {
            self.consecutive_losses = self.consecutive_losses + 1;
            true
        } else {
            false
        }
    }
}

/// A win always brings the stake back to the base amount, whatever the
/// streak before.
pub proof fn law_win_resets(losses: u32)
    ensures
        streak_after(losses, "WIN"@) == 0,
{
}

/// Each loss raises the exponent of the stake by one; other outcomes leave
/// it.
pub proof fn law_loss_extends(losses: u32, outcome: Seq<char>)
    requires
        losses < u32::MAX,
    ensures
        outcome == "LOSS"@ ==> streak_after(losses, outcome) == losses + 1,
        outcome != "LOSS"@ && outcome != "WIN"@ ==> streak_after(losses, outcome) == losses,
{
    reveal_strlit("WIN");
    reveal_strlit("LOSS");
    assert("WIN"@ != "LOSS"@) by {
        assert("WIN"@.len() != "LOSS"@.len());
    }
}

} // verus!
