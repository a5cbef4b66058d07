//! Adaptive ear-training drill: scale construction from a degree mask,
//! per-note win/loss statistics, and weighted selection of the next note.

mod guess;
mod scale;
mod random;
mod selection;
mod session;
mod stats;
mod streak;

pub use guess::{
    all_digits, classify_input, classify_trimmed, decimal_value, i32_of_text, int_of_text, is_digit,
    meaning_of, trimmed_of, GuessInput,
};
pub use scale::{
    count_degrees_below, degrees_below, degrees_of, from_scale, has_degree, lemma_scale_notes_shape,
    popcount12, scale_notes, ScaleSet, OCTAVE_NOTE,
};
pub use stats::{
    has_room, lemma_outcome_accumulates, lemma_pick_weight_bounds, lemma_weight_bounds,
    lemma_weight_decreasing, lemma_weight_extremes, lemma_weight_range, pick_weight_of,
    pick_weights_of, rate_of, sum_losses, sum_wins, total_of, units_of, weight_from_rate,
    weight_of, with_loss, with_outcome, with_win, Fraction, Stat, Stats, WEIGHT_UNIT,
};
pub use selection::{
    choose_biased, in_slot, lemma_every_index_reachable, lemma_every_note_reachable, pick_index,
    reachable_by_draw, select, sum_weights,
};
pub use session::Session;
pub use streak::{next_streak, streak_has_room, Streak};
