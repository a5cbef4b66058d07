use crate::scale::{scale_notes, ScaleSet};
use crate::selection::{reachable_by_draw, select};
use crate::stats::{has_room, pick_weights_of, with_outcome, Stat, Stats};
use crate::streak::{next_streak, streak_has_room, Streak};
use rand::rngs::StdRng;
use vstd::prelude::*;

verus! {

/// One drill: the scale set, its aligned statistics, and the streak.
pub struct Session {
    scale: ScaleSet,
    stats: Stats,
    streak: Streak,
}

impl Session {
    /// The notes being drilled.
    pub closed spec fn notes_view(&self) -> Seq<i32> {
        self.scale@
    }

    /// The statistics, one per note.
    pub closed spec fn stats_view(&self) -> Seq<Stat> {
        self.stats@
    }

    /// The current streak.
    pub closed spec fn streak_view(&self) -> int {
        self.streak.count as int
    }

    /// Statistics stay aligned with a well-formed scale set.
    #[verifier::type_invariant]
    spec fn aligned(&self) -> bool {
        self.scale.wf() && self.stats@.len() == self.scale@.len()
    }

    /// A fresh drill over the scale of `mask`, with nothing recorded.
    pub fn new(mask: u16) -> (s: Session)
        ensures
            s.notes_view() == scale_notes(mask),
            s.stats_view().len() == s.notes_view().len(),
            forall|i: int|
                0 <= i < s.stats_view().len() ==> #[trigger] s.stats_view()[i] == (Stat {
                    wins: 0,
                    losses: 0,
                }),
            s.streak_view() == 0,
    {
        let scale = ScaleSet::from_mask(mask);
        let stats = Stats::new(scale.len());
        Session { scale, stats, streak: Streak::new() }
    }

    pub fn scale(&self) -> (s: &ScaleSet)
        ensures
            s@ == self.notes_view(),
    {
        &self.scale
    }

    pub fn stats(&self) -> (s: &Stats)
        ensures
            s@ == self.stats_view(),
    {
        &self.stats
    }

    pub fn streak(&self) -> (c: i32)
        ensures
            c == self.streak_view(),
    {
        self.streak.count
    }

    /// The next note to quiz, with its index; the drill itself is unchanged.
    pub fn next_note(&self, rng: &mut StdRng) -> (r: (usize, i32))
        ensures
            r.0 < self.notes_view().len(),
            r.1 == self.notes_view()[r.0 as int],
            reachable_by_draw(pick_weights_of(self.stats_view()), r.0 as int),
    {
        proof {
            use_type_invariant(self);
        }
        select(rng, &self.scale, &self.stats)
    }

    /// Judges `guess` against the note at `index`, records the outcome for
    /// that note, and updates the streak. Returns whether the guess was right.
    pub fn resolve_guess(&mut self, index: usize, guess: i32) -> (correct: bool)
        requires
            index < old(self).notes_view().len(),
            has_room(
                old(self).stats_view()[index as int],
                guess == old(self).notes_view()[index as int],
            ),
            streak_has_room(
                old(self).streak_view(),
                guess == old(self).notes_view()[index as int],
            ),
        ensures
            correct == (guess == old(self).notes_view()[index as int]),
            final(self).notes_view() == old(self).notes_view(),
            final(self).stats_view() == old(self).stats_view().update(
                index as int,
                with_outcome(old(self).stats_view()[index as int], correct),
            ),
            final(self).streak_view() == next_streak(old(self).streak_view(), correct),
    {
        proof {
            use_type_invariant(&*self);
        }
        let correct = guess == self.scale.note(index);
        self.stats.record_outcome(index, correct);
        self.streak.record(correct);
        correct
    }
}

} // verus!
