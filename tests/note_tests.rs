use boopsynth::note::{default_length, default_octave, default_position, Frequency, Note, SpecifiedNote};

#[test]
fn from_index_wraps_modulo_twelve() {
    assert_eq!(Note::from_index(0), Note::C);
    assert_eq!(Note::from_index(9), Note::A);
    assert_eq!(Note::from_index(11), Note::B);
    assert_eq!(Note::from_index(12), Note::C);
    assert_eq!(Note::from_index(25), Note::CSharp);
}

#[test]
fn from_index_then_to_index_is_index_mod_twelve() {
    for i in 0..100usize {
        assert_eq!(Note::from_index(i).to_index(), i % 12);
    }
}

#[test]
fn reference_frequencies_at_baseline_octave() {
    assert_eq!(Note::A.frequency(3), Frequency { tenths: 2200, exponent: 0 });
    assert_eq!(Note::C.frequency(3), Frequency { tenths: 1308, exponent: 0 });
    assert_eq!(Note::B.reference_tenths_hz(), 2469);
}

#[test]
fn frequency_doubles_per_octave_up() {
    assert_eq!(Note::A.frequency(4), Frequency { tenths: 2200, exponent: 1 });
    assert_eq!(Note::A.frequency(5), Frequency { tenths: 2200, exponent: 2 });
}

#[test]
fn frequency_halves_per_octave_down() {
    assert_eq!(Note::C.frequency(1), Frequency { tenths: 1308, exponent: -2 });
    assert_eq!(Note::GSharp.frequency(2), Frequency { tenths: 2077, exponent: -1 });
}

#[test]
fn frequency_at_extreme_octaves() {
    assert_eq!(Note::B.frequency(50), Frequency { tenths: 2469, exponent: 47 });
    assert_eq!(Note::C.frequency(-50), Frequency { tenths: 1308, exponent: -53 });
    assert_eq!(Note::A.frequency(i32::MIN), Frequency { tenths: 2200, exponent: i32::MIN as i64 - 3 });
    assert_eq!(Note::A.frequency(i32::MAX), Frequency { tenths: 2200, exponent: i32::MAX as i64 - 3 });
}

#[test]
fn specified_note_defaults() {
    assert_eq!(default_octave(), 3);
    assert_eq!(default_position(), 0);
    assert_eq!(default_length(), 1);
    let n = SpecifiedNote::new(Note::E);
    assert_eq!(n.octave, 3);
    assert_eq!(n.position, 0);
    assert_eq!(n.length, 1);
    assert_eq!(n.frequency(), Frequency { tenths: 1648, exponent: 0 });
}

#[test]
fn specified_note_frequency_uses_octave() {
    let n = SpecifiedNote { note: Note::A, octave: 2, position: 4, length: 2 };
    assert_eq!(n.frequency(), Frequency { tenths: 2200, exponent: -1 });
}

#[test]
fn one_octave_up_doubles_for_every_octave() {
    for o in [-100, -4, 0, 2, 3, 7, 100] {
        let a = Note::FSharp.frequency(o);
        let b = Note::FSharp.frequency(o + 1);
        assert_eq!(a.tenths, b.tenths);
        assert_eq!(b.exponent, a.exponent + 1);
    }
}
