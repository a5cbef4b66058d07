use vstd::prelude::*;

verus! {

/// The note appended to every scale: one octave above degree 0.
pub const OCTAVE_NOTE: i32 = 12;

/// Whether degree `d` (0..=11) is active in `bits`; bit 11 stands for degree 0.
pub open spec fn has_degree(bits: u16, d: u16) -> bool {
    bits & (0x800u16 >> d) != 0
}

/// The active degrees among `0..n`, ascending.
pub open spec fn degrees_below(bits: u16, n: nat) -> Seq<i32>
    decreases n,
{
    if n == 0 {
        Seq::empty()
    } else {
        let prev = degrees_below(bits, (n - 1) as nat);
        if has_degree(bits, (n - 1) as u16) {
            prev.push((n - 1) as i32)
        } else {
            prev
        }
    }
}

/// The active degrees of a 12-degree mask, ascending.
pub open spec fn degrees_of(bits: u16) -> Seq<i32> {
    degrees_below(bits, 12)
}

/// The notes of the scale set built from `mask`: its degrees, then the octave note.
pub open spec fn scale_notes(mask: u16) -> Seq<i32> {
    degrees_of(mask).push(OCTAVE_NOTE)
}

/// Number of active degrees among `0..n`.
pub open spec fn count_degrees_below(bits: u16, n: nat) -> nat
    decreases n,
{
    if n == 0 {
        0
    } else {
        count_degrees_below(bits, (n - 1) as nat) + if has_degree(bits, (n - 1) as u16) {
            1nat
        } else {
            0nat
        }
    }
}

/// Number of active degrees of a 12-degree mask.
pub open spec fn popcount12(bits: u16) -> nat {
    count_degrees_below(bits, 12)
}

proof fn lemma_degrees_below_shape(bits: u16, n: nat)
    requires
        n <= 12,
    ensures
        degrees_below(bits, n).len() == count_degrees_below(bits, n),
        count_degrees_below(bits, n) <= n,
        forall|i: int|
            0 <= i < degrees_below(bits, n).len() ==> 0 <= #[trigger] degrees_below(bits, n)[i] < n
                && has_degree(bits, degrees_below(bits, n)[i] as u16),
        forall|i: int, j: int|
            0 <= i < j < degrees_below(bits, n).len() ==> #[trigger] degrees_below(bits, n)[i]
                < #[trigger] degrees_below(bits, n)[j],
        forall|d: u16| d < n && #[trigger] has_degree(bits, d) ==> degrees_below(bits, n).contains(
            d as i32,
        ),
    decreases n,
{
    if n > 0 {
        let m = (n - 1) as nat;
        lemma_degrees_below_shape(bits, m);
        let prev = degrees_below(bits, m);
        let cur = degrees_below(bits, n);
        assert forall|d: u16| d < n && #[trigger] has_degree(bits, d) implies cur.contains(
            d as i32,
        ) by {
            if d < m {
                let k = choose|k: int| 0 <= k < prev.len() && prev[k] == d as i32;
                assert(cur[k] == d as i32);
            } else {
                assert(cur[cur.len() - 1] == d as i32);
            }
        }
    }
}

/// The scale set of any mask has one note per active degree plus the octave
/// note: the degrees come first, exactly the active ones, in ascending order,
/// and the octave note is last.
pub proof fn lemma_scale_notes_shape(mask: u16)
    ensures
        scale_notes(mask).len() == popcount12(mask) + 1,
        scale_notes(mask).last() == OCTAVE_NOTE,
        forall|i: int|
            0 <= i < scale_notes(mask).len() - 1 ==> 0 <= #[trigger] scale_notes(mask)[i] < 12
                && has_degree(mask, scale_notes(mask)[i] as u16),
        forall|i: int, j: int|
            0 <= i < j < scale_notes(mask).len() - 1 ==> #[trigger] scale_notes(mask)[i]
                < #[trigger] scale_notes(mask)[j],
        forall|d: u16|
            d < 12 && #[trigger] has_degree(mask, d) ==> scale_notes(mask).drop_last().contains(
                d as i32,
            ),
{
    lemma_degrees_below_shape(mask, 12);
    assert(scale_notes(mask).drop_last() =~= degrees_of(mask));
}

proof fn lemma_mask_step(i: u16)
    requires
        i < 12,
    ensures
        (0x800u16 >> i) >> 1u16 == 0x800u16 >> ((i + 1) as u16),
{
    assert((0x800u16 >> i) >> 1u16 == 0x800u16 >> ((i + 1) as u16)) by (bit_vector)
        requires
            i < 12,
    ;
}

/// The active degrees of `bits`, ascending; bit 11 of the mask is degree 0
/// and bit 0 is degree 11. Bits above the twelfth are ignored.
pub fn from_scale(bits: u16) -> (v: Vec<i32>)
    ensures
        v@ == degrees_of(bits),
{
    let mut mask: u16 = 0x800;
    let mut v: Vec<i32> = Vec::new();
    let mut i: u16 = 0;
    assert(0x800u16 >> 0u16 == 0x800u16) by (bit_vector);
    while i < 12
        invariant
            i <= 12,
            mask == 0x800u16 >> i,
            v@ == degrees_below(bits, i as nat),
        decreases 12 - i,
    {
        if bits & mask != 0 {
            v.push(i as i32);
        }
        proof {
            lemma_mask_step(i);
        }
        mask = mask >> 1u16;
        i = i + 1;
    }
    v
}

/// An ordered, non-empty sequence of notes derived once from a degree mask.
pub struct ScaleSet {
    notes: Vec<i32>,
}

impl View for ScaleSet {
    type V = Seq<i32>;

    closed spec fn view(&self) -> Seq<i32> {
        self.notes@
    }
}

impl ScaleSet {
    /// Holds of every scale set: at least the octave note, at most twelve degrees besides it.
    pub open spec fn wf(&self) -> bool {
        1 <= self@.len() <= 13
    }

    /// The active degrees of `mask` followed by the octave note.
    pub fn from_mask(mask: u16) -> (s: ScaleSet)
        ensures
            s@ == scale_notes(mask),
            s.wf(),
    {
        let mut notes = from_scale(mask);
        proof {
            lemma_degrees_below_shape(mask, 12);
        }
        notes.push(OCTAVE_NOTE);
        ScaleSet { notes }
    }

    pub fn len(&self) -> (n: usize)
        ensures
            n == self@.len(),
    {
        self.notes.len()
    }

    pub fn note(&self, i: usize) -> (n: i32)
        requires
            i < self@.len(),
        ensures
            n == self@[i as int],
    {
        self.notes[i]
    }

    pub fn notes(&self) -> (s: &[i32])
        ensures
            s@ == self@,
    {
        self.notes.as_slice()
    }
}

} // verus!
