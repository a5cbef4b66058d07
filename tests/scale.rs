use ear_trainer::{from_scale, ScaleSet, OCTAVE_NOTE};

#[test]
fn major_scale_mask_gives_eight_notes() {
    let s = ScaleSet::from_mask(0b1010_1101_0101);
    assert_eq!(s.notes(), &[0, 2, 4, 5, 7, 9, 11, 12]);
    assert_eq!(s.len(), 8);
    assert_eq!(s.note(0), 0);
    assert_eq!(s.note(7), 12);
}

#[test]
fn from_scale_lists_active_degrees() {
    assert_eq!(from_scale(0b1010_1101_0101), vec![0, 2, 4, 5, 7, 9, 11]);
    assert_eq!(from_scale(0b1000_0000_0001), vec![0, 11]);
    assert_eq!(from_scale(0), Vec::<i32>::new());
}

#[test]
fn zero_mask_gives_only_octave_note() {
    let s = ScaleSet::from_mask(0);
    assert_eq!(s.notes(), &[OCTAVE_NOTE]);
    assert_eq!(s.len(), 1);
}

#[test]
fn full_mask_gives_chromatic_scale_and_octave() {
    let s = ScaleSet::from_mask(0b1111_1111_1111);
    let expected: Vec<i32> = (0..=12).collect();
    assert_eq!(s.notes(), expected.as_slice());
}

#[test]
fn bits_above_twelfth_are_ignored() {
    assert_eq!(ScaleSet::from_mask(0xF000).notes(), &[12]);
    assert_eq!(ScaleSet::from_mask(0xF801).notes(), &[0, 11, 12]);
}

#[test]
fn length_is_popcount_plus_one() {
    for mask in [0u16, 1, 0b1010_1101_0101, 0x0FFF, 0x0555, 0x0AAA] {
        let s = ScaleSet::from_mask(mask);
        assert_eq!(s.len() as u32, (mask & 0x0FFF).count_ones() + 1);
        assert_eq!(*s.notes().last().unwrap(), 12);
        let degrees = &s.notes()[..s.len() - 1];
        assert!(degrees.windows(2).all(|w| w[0] < w[1]));
    }
}
