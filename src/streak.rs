use vstd::prelude::*;

verus! {

/// The streak after one more outcome: a win extends a winning streak or starts
/// one at 1; a loss extends a losing streak or starts one at -1.
pub open spec fn next_streak(count: int, correct: bool) -> int {
    if correct {
        if count > 0 {
            count + 1
        } else {
            1
        }
    } else {
        if count < 0 {
            count - 1
        } else {
            -1
        }
    }
}

/// Whether one more outcome keeps the streak within `i32`.
pub open spec fn streak_has_room(count: int, correct: bool) -> bool {
    if correct {
        count < i32::MAX
    } else {
        count > i32::MIN
    }
}

/// Signed count of consecutive equal outcomes: positive for wins, negative for losses.
#[derive(Clone, Copy, Debug, PartialEq, Eq, Structural)]
pub struct Streak {
    pub count: i32,
}

impl Streak {
    /// No outcome yet.
    pub fn new() -> (s: Streak)
        ensures
            s.count == 0,
    {
        Streak { count: 0 }
    }

    /// Counts one more outcome.
    pub fn record(&mut self, correct: bool)
        requires
            streak_has_room(old(self).count as int, correct),
        ensures
            final(self).count == next_streak(old(self).count as int, correct),
        no_unwind
    {
        if correct {
            self.count = if self.count > 0 { self.count + 1 } else { 1 };
        } else {
            self.count = if self.count < 0 { self.count - 1 } else { -1 };
        }
    }
}

} // verus!
