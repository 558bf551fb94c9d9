//! Pitch classes, octaves and their exact frequencies.
use vstd::prelude::*;
use vstd::arithmetic::power2::{pow2, lemma2_to64, lemma_pow2_unfold};

verus! {

/// The octave in which the reference frequencies of the pitch classes lie.
pub const BASELINE_OCTAVE: i32 = 3;

/// One of the twelve pitch classes of the chromatic scale.
#[derive(Clone, Copy, Debug, PartialEq, Eq, Hash, Structural)]
pub enum Note {
    C,
    CSharp,
    D,
    DSharp,
    E,
    F,
    FSharp,
    G,
    GSharp,
    A,
    ASharp,
    B,
}

/// The pitch class at position `i` (counted from C), taken modulo 12.
pub open spec fn note_at(i: nat) -> Note {
    let k = i % 12;
    if k == 0 { Note::C }
    else if k == 1 { Note::CSharp }
    else if k == 2 { Note::D }
    else if k == 3 { Note::DSharp }
    else if k == 4 { Note::E }
    else if k == 5 { Note::F }
    else if k == 6 { Note::FSharp }
    else if k == 7 { Note::G }
    else if k == 8 { Note::GSharp }
    else if k == 9 { Note::A }
    else if k == 10 { Note::ASharp }
    else { Note::B }
}

/// A frequency, exactly `tenths / 10 * 2^exponent` hertz.
#[derive(Clone, Copy, Debug, PartialEq, Eq, Structural)]
pub struct Frequency {
    pub tenths: u64,
    pub exponent: i64,
}

impl Frequency {
    /// Numerator of the frequency in hertz, over `den`.
    pub open spec fn num(self) -> nat {
        if self.exponent >= 0 {
            self.tenths as nat * pow2(self.exponent as nat)
        } else {
            self.tenths as nat
        }
    }

    /// Denominator of the frequency in hertz.
    pub open spec fn den(self) -> nat {
        if self.exponent >= 0 {
            10
        } else {
            10 * pow2((-self.exponent) as nat)
        }
    }
}

impl Note {
    /// Position of the pitch class within the octave, C being 0.
    pub open spec fn index(self) -> nat {
        match self {
            Note::C => 0,
            Note::CSharp => 1,
            Note::D => 2,
            Note::DSharp => 3,
            Note::E => 4,
            Note::F => 5,
            Note::FSharp => 6,
            Note::G => 7,
            Note::GSharp => 8,
            Note::A => 9,
            Note::ASharp => 10,
            Note::B => 11,
        }
    }

    /// Reference frequency at the baseline octave, in tenths of a hertz.
    pub open spec fn reference_tenths(self) -> nat {
        match self {
            Note::C => 1308,
            Note::CSharp => 1386,
            Note::D => 1468,
            Note::DSharp => 1556,
            Note::E => 1648,
            Note::F => 1746,
            Note::FSharp => 1850,
            Note::G => 1960,
            Note::GSharp => 2077,
            Note::A => 2200,
            Note::ASharp => 2331,
            Note::B => 2469,
        }
    }

    /// The frequency of the pitch class in octave `o`.
    pub open spec fn frequency_spec(self, o: i32) -> Frequency {
        Frequency { tenths: self.reference_tenths() as u64, exponent: (o - BASELINE_OCTAVE) as i64 }
    }

    /// Numerator of the frequency in octave `o`, over `freq_den`.
    pub open spec fn freq_num(self, o: int) -> nat {
        if o >= BASELINE_OCTAVE {
            self.reference_tenths() * pow2((o - BASELINE_OCTAVE) as nat)
        } else {
            self.reference_tenths()
        }
    }

    /// Denominator of the frequency in octave `o`.
    pub open spec fn freq_den(self, o: int) -> nat {
        if o >= BASELINE_OCTAVE {
            10
        } else {
            10 * pow2((BASELINE_OCTAVE - o) as nat)
        }
    }

    /// The pitch class at position `i % 12`.
    pub fn from_index(i: usize) -> (r: Note)
        ensures
            r == note_at(i as nat),
            r.index() == i as nat % 12,
    {
        let k: usize = i % 12;
        if k == 0 { Note::C }
        else if k == 1 { Note::CSharp }
        else if k == 2 { Note::D }
        else if k == 3 { Note::DSharp }
        else if k == 4 { Note::E }
        else if k == 5 { Note::F }
        else if k == 6 { Note::FSharp }
        else if k == 7 { Note::G }
        else if k == 8 { Note::GSharp }
        else if k == 9 { Note::A }
        else if k == 10 { Note::ASharp }
        else { Note::B }
    }

    /// Position of the pitch class within the octave, C being 0.
    pub fn to_index(&self) -> (r: usize)
        ensures
            r as nat == self.index(),
    {
        match self {
            Note::C => 0,
            Note::CSharp => 1,
            Note::D => 2,
            Note::DSharp => 3,
            Note::E => 4,
            Note::F => 5,
            Note::FSharp => 6,
            Note::G => 7,
            Note::GSharp => 8,
            Note::A => 9,
            Note::ASharp => 10,
            Note::B => 11,
        }
    }

    /// Reference frequency at the baseline octave, in tenths of a hertz.
    pub fn reference_tenths_hz(&self) -> (r: u64)
        ensures
            r as nat == self.reference_tenths(),
    {
        match self {
            Note::C => 1308,
            Note::CSharp => 1386,
            Note::D => 1468,
            Note::DSharp => 1556,
            Note::E => 1648,
            Note::F => 1746,
            Note::FSharp => 1850,
            Note::G => 1960,
            Note::GSharp => 2077,
            Note::A => 2200,
            Note::ASharp => 2331,
            Note::B => 2469,
        }
    }

    /// Exact frequency of the pitch class in octave `o`: the reference
    /// frequency scaled by `2^(o - BASELINE_OCTAVE)`.
    pub fn frequency(&self, o: i32) -> (r: Frequency)
        ensures
            r.tenths as nat == self.reference_tenths(),
            r.exponent == o - BASELINE_OCTAVE,
            r == self.frequency_spec(o),
            r.num() == self.freq_num(o as int),
            r.den() == self.freq_den(o as int),
    {
        Frequency { tenths: self.reference_tenths_hz(), exponent: o as i64 - BASELINE_OCTAVE as i64 }
    }
}

/// Moving a pitch class by whole octaves scales its frequency by a power of
/// two: `frequency(p, o) == frequency(p, BASELINE_OCTAVE) * 2^(o - BASELINE_OCTAVE)`
/// for every integer octave `o`, as exact fractions; one octave up is exactly
/// twice the frequency.
pub proof fn frequency_octave_law(p: Note, o: int)
    ensures
        p.freq_num(o + 1) * p.freq_den(o) == 2 * p.freq_num(o) * p.freq_den(o + 1),
        o >= BASELINE_OCTAVE ==> p.freq_num(o) * p.freq_den(BASELINE_OCTAVE as int)
            == p.freq_num(BASELINE_OCTAVE as int) * p.freq_den(o) * pow2((o - BASELINE_OCTAVE) as nat),
        o < BASELINE_OCTAVE ==> p.freq_num(o) * p.freq_den(BASELINE_OCTAVE as int) * pow2((BASELINE_OCTAVE - o) as nat)
            == p.freq_num(BASELINE_OCTAVE as int) * p.freq_den(o),
{
    lemma2_to64();
    let r = p.reference_tenths();
    if o >= BASELINE_OCTAVE {
        lemma_pow2_unfold((o + 1 - BASELINE_OCTAVE) as nat);
        let q = pow2((o - BASELINE_OCTAVE) as nat);
        assert(r * (2 * q) * 10 == 2 * (r * q) * 10) by (nonlinear_arith);
    } else if o + 1 == BASELINE_OCTAVE {
        assert(pow2(1) == 2);
        assert(r * (10 * 2) == 2 * r * 10) by (nonlinear_arith);
    } else {
        lemma_pow2_unfold((BASELINE_OCTAVE - o) as nat);
        let q = pow2((BASELINE_OCTAVE - o - 1) as nat);
        assert(r * (10 * (2 * q)) == 2 * r * (10 * q)) by (nonlinear_arith);
    }
    if o >= BASELINE_OCTAVE {
        let q = pow2((o - BASELINE_OCTAVE) as nat);
        assert(r * q * 10 == r * 10 * q) by (nonlinear_arith);
    } else {
        let q = pow2((BASELINE_OCTAVE - o) as nat);
        assert(r * 10 * q == r * (10 * q)) by (nonlinear_arith);
    }
}

/// Taking the pitch class at position `i` and reading its position back
/// gives `i` modulo 12.
pub proof fn from_index_round_trip(i: nat)
    ensures
        note_at(i).index() == i % 12,
{
}

pub fn default_octave() -> (r: i32)
    ensures
        r == BASELINE_OCTAVE,
{
    BASELINE_OCTAVE
}

pub fn default_position() -> (r: u64)
    ensures
        r == 0,
{
    0
}

pub fn default_length() -> (r: u64)
    ensures
        r == 1,
{
    1
}

/// A pitch class placed in time: octave, start step and length in steps.
#[derive(Clone, Copy, Debug, PartialEq, Eq, Structural)]
pub struct SpecifiedNote {
    pub note: Note,
    pub octave: i32,
    pub position: u64,
    pub length: u64,
}

impl SpecifiedNote {
    /// A note with the default octave, position and length.
    pub fn new(note: Note) -> (r: SpecifiedNote)
        ensures
            r.note == note,
            r.octave == BASELINE_OCTAVE,
            r.position == 0,
            r.length == 1,
    {
        SpecifiedNote {
            note,
            octave: default_octave(),
            position: default_position(),
            length: default_length(),
        }
    }

    /// Exact frequency of the note: that of its pitch class in its octave.
    pub fn frequency(&self) -> (r: Frequency)
        ensures
            r == self.note.frequency_spec(self.octave),
            r.num() == self.note.freq_num(self.octave as int),
            r.den() == self.note.freq_den(self.octave as int),
    {
        self.note.frequency(self.octave)
    }
}

} // verus!
