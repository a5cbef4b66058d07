use vstd::prelude::*;

verus! {

/// Fixed-point unit of a selection weight: a weight of 1 is this many units.
pub const WEIGHT_UNIT: u64 = 1048576;

/// A non-negative fraction `num / den`, kept exactly as computed.
#[derive(Clone, Copy, Debug, PartialEq, Eq, Structural)]
pub struct Fraction {
    pub num: u64,
    pub den: u64,
}

/// Win and loss counters of one note.
#[derive(Clone, Copy, Debug, Default, PartialEq, Eq, Structural)]
pub struct Stat {
    pub wins: u32,
    pub losses: u32,
}

/// Number of attempts recorded in `s`.
pub open spec fn total_of(s: Stat) -> int {
    s.wins + s.losses
}

/// Win fraction of `s`; zero (as 0/1) when nothing was recorded.
pub open spec fn rate_of(s: Stat) -> Fraction {
    if total_of(s) == 0 {
        Fraction { num: 0, den: 1 }
    } else {
        Fraction { num: s.wins as u64, den: total_of(s) as u64 }
    }
}

/// `5/4 - r` over the denominator `4 * r.den`.
pub open spec fn weight_from_rate(r: Fraction) -> Fraction {
    Fraction { num: (5 * r.den - 4 * r.num) as u64, den: (4 * r.den) as u64 }
}

/// Weight of `s`: one and a quarter less its win rate.
pub open spec fn weight_of(s: Stat) -> Fraction {
    weight_from_rate(rate_of(s))
}

/// `f` rounded up to a whole number of weight units.
pub open spec fn units_of(f: Fraction) -> int {
    (WEIGHT_UNIT * f.num + f.den - 1) / f.den as int
}

/// The integer weight that selection uses for `s`.
pub open spec fn pick_weight_of(s: Stat) -> int {
    units_of(weight_of(s))
}

/// The selection weights of a statistics sequence, position by position.
pub open spec fn pick_weights_of(stats: Seq<Stat>) -> Seq<u64> {
    Seq::new(stats.len(), |i: int| pick_weight_of(stats[i]) as u64)
}

/// `s` with one more win.
pub open spec fn with_win(s: Stat) -> Stat {
    Stat { wins: (s.wins + 1) as u32, losses: s.losses }
}

/// `s` with one more loss.
pub open spec fn with_loss(s: Stat) -> Stat {
    Stat { wins: s.wins, losses: (s.losses + 1) as u32 }
}

/// `s` after one recorded outcome.
pub open spec fn with_outcome(s: Stat, correct: bool) -> Stat {
    if correct {
        with_win(s)
    } else {
        with_loss(s)
    }
}

/// Whether one more outcome fits in the counters of `s`.
pub open spec fn has_room(s: Stat, correct: bool) -> bool {
    if correct {
        s.wins < u32::MAX
    } else {
        s.losses < u32::MAX
    }
}

/// One recorded outcome adds exactly one attempt: the matching counter grows
/// by one and the other stays as it was.
pub proof fn lemma_outcome_accumulates(s: Stat, correct: bool)
    requires
        has_room(s, correct),
    ensures
        total_of(with_outcome(s, correct)) == total_of(s) + 1,
        with_outcome(s, correct).wins == s.wins + if correct { 1int } else { 0int },
        with_outcome(s, correct).losses == s.losses + if correct { 0int } else { 1int },
{
}

/// Selection weights lie between a quarter unit and one and a quarter units, never zero.
pub proof fn lemma_pick_weight_bounds(s: Stat)
    ensures
        WEIGHT_UNIT / 4 <= pick_weight_of(s) <= 5 * WEIGHT_UNIT / 4,
{
    let w = weight_of(s);
    lemma_weight_range(s);
    let n = w.num as int;
    let d = w.den as int;
    let k = WEIGHT_UNIT / 4;
    let t = WEIGHT_UNIT * n + d - 1;
    assert(t >= k * d) by (nonlinear_arith)
        requires
            4 * n >= d,
            WEIGHT_UNIT == 4 * k,
            d > 0,
            t == WEIGHT_UNIT * n + d - 1,
    ;
    assert(t < (5 * k + 1) * d) by (nonlinear_arith)
        requires
            4 * n <= 5 * d,
            WEIGHT_UNIT == 4 * k,
            d > 0,
            t == WEIGHT_UNIT * n + d - 1,
    ;
    vstd::arithmetic::div_mod::lemma_fundamental_div_mod(t, d);
    let q = t / d;
    let m = t % d;
    assert(k <= q <= 5 * k) by (nonlinear_arith)
        requires
            t == d * q + m,
            k * d <= t < (5 * k + 1) * d,
            0 <= m < d,
            d > 0,
    ;
}

/// Every weight lies in the interval [1/4, 5/4] and is never zero.
pub proof fn lemma_weight_range(s: Stat)
    ensures
        weight_of(s).den > 0,
        weight_of(s).num > 0,
        4 * weight_of(s).num >= weight_of(s).den,
        4 * weight_of(s).num <= 5 * weight_of(s).den,
{
}

/// Unless every recorded attempt was a win, the weight lies in the interval (1/4, 5/4].
pub proof fn lemma_weight_bounds(s: Stat)
    requires
        rate_of(s).num < rate_of(s).den,
    ensures
        4 * weight_of(s).num > weight_of(s).den,
        4 * weight_of(s).num <= 5 * weight_of(s).den,
{
}

/// A rate of zero gives the weight 5/4 and a rate of one the weight 1/4.
pub proof fn lemma_weight_extremes(s: Stat)
    ensures
        rate_of(s).num == 0 ==> 4 * weight_of(s).num == 5 * weight_of(s).den,
        rate_of(s).num == rate_of(s).den ==> 4 * weight_of(s).num == weight_of(s).den,
{
}

/// The weight strictly decreases as the win rate increases.
pub proof fn lemma_weight_decreasing(a: Stat, b: Stat)
    requires
        rate_of(a).num * rate_of(b).den < rate_of(b).num * rate_of(a).den,
    ensures
        weight_of(a).num * weight_of(b).den > weight_of(b).num * weight_of(a).den,
{
    let (an, ad) = (rate_of(a).num as int, rate_of(a).den as int);
    let (bn, bd) = (rate_of(b).num as int, rate_of(b).den as int);
    assert((5 * ad - 4 * an) * (4 * bd) > (5 * bd - 4 * bn) * (4 * ad)) by (nonlinear_arith)
        requires
            an * bd < bn * ad,
    ;
}

impl Stat {
    /// A note with nothing recorded.
    pub fn new() -> (s: Stat)
        ensures
            s.wins == 0,
            s.losses == 0,
    {
        Stat { wins: 0, losses: 0 }
    }

    /// Wins plus losses.
    pub fn total(&self) -> (t: u64)
        ensures
            t == total_of(*self),
    {
        self.wins as u64 + self.losses as u64
    }

    /// Wins over total, or 0/1 when nothing was recorded.
    pub fn rate(&self) -> (r: Fraction)
        ensures
            r == rate_of(*self),
    {
        let total = self.total();
        if total == 0 {
            Fraction { num: 0, den: 1 }
        } else {
            Fraction { num: self.wins as u64, den: total }
        }
    }

    /// One and a quarter less the win rate, exactly.
    pub fn weight(&self) -> (w: Fraction)
        ensures
            w == weight_of(*self),
    {
        let r = self.rate();
        Fraction { num: 5 * r.den - 4 * r.num, den: 4 * r.den }
    }

    /// The weight in whole weight units, rounded up.
    pub fn pick_weight(&self) -> (w: u64)
        ensures
            w == pick_weight_of(*self),
            WEIGHT_UNIT / 4 <= w <= 5 * WEIGHT_UNIT / 4,
    {
        let f = self.weight();
        proof {
            lemma_weight_range(*self);
            lemma_pick_weight_bounds(*self);
            assert(WEIGHT_UNIT * f.num <= WEIGHT_UNIT * (5 * 0x1_0000_0000 * 4)) by (nonlinear_arith)
                requires
                    f.num <= 5 * 0x1_0000_0000 * 4,
            ;
        }
        (WEIGHT_UNIT * f.num + f.den - 1) / f.den
    }
}

/// One `Stat` per note of a scale set, aligned with it by position.
#[derive(Debug)]
pub struct Stats(Vec<Stat>);

impl View for Stats {
    type V = Seq<Stat>;

    closed spec fn view(&self) -> Seq<Stat> {
        self.0@
    }
}

impl Stats {
    /// `len` notes with nothing recorded.
    pub fn new(len: usize) -> (st: Stats)
        ensures
            st@.len() == len,
            forall|i: int| 0 <= i < len ==> #[trigger] st@[i] == (Stat { wins: 0, losses: 0 }),
    {
        let mut v: Vec<Stat> = Vec::new();
        let mut i: usize = 0;
        while i < len
            invariant
                i <= len,
                v@.len() == i,
                forall|j: int| 0 <= j < i ==> #[trigger] v@[j] == (Stat { wins: 0, losses: 0 }),
            decreases len - i,
        {
            v.push(Stat::new());
            i = i + 1;
        }
        Stats(v)
    }

    pub fn len(&self) -> (n: usize)
        ensures
            n == self@.len(),
    {
        self.0.len()
    }

    pub fn get(&self, index: usize) -> (s: Stat)
        requires
            index < self@.len(),
        ensures
            s == self@[index as int],
    {
        self.0[index]
    }

    /// Records one win for the note at `index`; nothing else changes.
    pub fn win(&mut self, index: usize)
        requires
            index < old(self)@.len(),
            old(self)@[index as int].wins < u32::MAX,
        ensures
            final(self)@ == old(self)@.update(index as int, with_win(old(self)@[index as int])),
        no_unwind
    {
        let w = self.0[index].wins;
        self.0[index].wins = w + 1;
    }

    /// Records one loss for the note at `index`; nothing else changes.
    pub fn lose(&mut self, index: usize)
        requires
            index < old(self)@.len(),
            old(self)@[index as int].losses < u32::MAX,
        ensures
            final(self)@ == old(self)@.update(index as int, with_loss(old(self)@[index as int])),
        no_unwind
    {
        let l = self.0[index].losses;
        self.0[index].losses = l + 1;
    }

    /// Records a win when `correct` holds and a loss otherwise.
    pub fn record_outcome(&mut self, index: usize, correct: bool)
        requires
            index < old(self)@.len(),
            has_room(old(self)@[index as int], correct),
        ensures
            final(self)@ == old(self)@.update(
                index as int,
                with_outcome(old(self)@[index as int], correct),
            ),
        no_unwind
    {
        if correct {
            self.win(index);
        } else {
            self.lose(index);
        }
    }

    /// The selection weight of each note, in order.
    pub fn weights(&self) -> (w: Vec<u64>)
        ensures
            w@ == pick_weights_of(self@),
    {
        let mut w: Vec<u64> = Vec::new();
        let mut i: usize = 0;
        while i < self.0.len()
            invariant
                i <= self@.len(),
                w@ == pick_weights_of(self@).take(i as int),
            decreases self@.len() - i,
        {
            let p = self.0[i].pick_weight();
            w.push(p);
            assert(pick_weights_of(self@).take(i as int + 1) =~= pick_weights_of(self@).take(
                i as int,
            ).push(p));
            i = i + 1;
        }
        assert(pick_weights_of(self@).take(i as int) =~= pick_weights_of(self@));
        w
    }

    /// Wins and losses summed over all notes.
    pub fn overall(&self) -> (t: (u64, u64))
        requires
            self@.len() <= u32::MAX,
        ensures
            t.0 == sum_wins(self@),
            t.1 == sum_losses(self@),
    {
        let mut wins: u64 = 0;
        let mut losses: u64 = 0;
        let mut i: usize = 0;
        while i < self.0.len()
            invariant
                i <= self@.len() <= u32::MAX,
                wins == sum_wins(self@.take(i as int)),
                losses == sum_losses(self@.take(i as int)),
                wins <= i * (u32::MAX as int),
                losses <= i * (u32::MAX as int),
            decreases self@.len() - i,
        {
            let s = self.0[i];
            assert(self@.take(i as int + 1).drop_last() =~= self@.take(i as int));
            assert((i + 1) * (u32::MAX as int) == i * (u32::MAX as int) + u32::MAX) by (nonlinear_arith);
            assert(i * (u32::MAX as int) <= u32::MAX * u32::MAX) by (nonlinear_arith)
                requires
                    i <= u32::MAX,
            ;
            wins = wins + s.wins as u64;
            losses = losses + s.losses as u64;
            i = i + 1;
        }
        assert(self@.take(i as int) =~= self@);
        (wins, losses)
    }
}

/// Wins summed over `stats`.
pub open spec fn sum_wins(stats: Seq<Stat>) -> int
    decreases stats.len(),
{
    if stats.len() == 0 {
        0
    } else {
        sum_wins(stats.drop_last()) + stats.last().wins
    }
}

/// Losses summed over `stats`.
pub open spec fn sum_losses(stats: Seq<Stat>) -> int
    decreases stats.len(),
{
    if stats.len() == 0 {
        0
    } else {
        sum_losses(stats.drop_last()) + stats.last().losses
    }
}

} // verus!
