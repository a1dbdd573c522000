//! Pitch representation: a pitch class (0 to 11) plus an octave number,
//! derived from a raw note number, with a total order by absolute height.

use vstd::prelude::*;

verus! {

/// Failure of pitch construction: the raw note number lies below 21, the
/// lowest representable pitch.
#[derive(Clone, Copy, PartialEq, Eq, Debug)]
pub enum NoteError {
    OutOfRange,
}

/// One sounded note: a pitch class `index` (0 to 11, for A, A#, B, C, C#,
/// D, D#, E, F, F#, G, G#) together with an octave number.
#[derive(Clone, Copy, PartialEq, Eq, Debug)]
pub struct Note {
    pub index: usize,
    pub octave: usize,
}

/// The display name of each pitch class, sharp spellings only.
pub open spec fn note_name(pc: int) -> Seq<char> {
    if pc == 0 { "A"@ }
    else if pc == 1 { "A#"@ }
    else if pc == 2 { "B"@ }
    else if pc == 3 { "C"@ }
    else if pc == 4 { "C#"@ }
    else if pc == 5 { "D"@ }
    else if pc == 6 { "D#"@ }
    else if pc == 7 { "E"@ }
    else if pc == 8 { "F"@ }
    else if pc == 9 { "F#"@ }
    else if pc == 10 { "G"@ }
    else { "G#"@ }
}

/// The semitone offset of `x` relative to an assumed root, reduced modulo 12.
pub open spec fn rel_offset(x: Note, root: Note) -> int {
    (12 + x.index - root.index) % 12
}

/// The pitch a raw note number stands for.  Meaningful for numbers of at
/// least 21; `Note::from_midi` rejects the rest.
pub open spec fn note_of_midi(n: u8) -> Note {
    Note { index: ((n - 21) % 12) as usize, octave: ((n - 21) / 12) as usize }
}

/// Every note of the sequence is well-formed.
pub open spec fn notes_wf(s: Seq<Note>) -> bool {
    forall|i: int| 0 <= i < s.len() ==> (#[trigger] s[i]).wf()
}

impl Note {
    /// The pitch class is reduced modulo 12, and the absolute height of any
    /// pitch class at this octave fits a usize.
    pub open spec fn wf(self) -> bool {
        self.index < 12 && self.octave * 12 + 11 <= usize::MAX
    }

    /// Absolute semitone height from the fixed origin; pitches are ordered
    /// by this value.
    pub open spec fn height(self) -> int {
        self.octave * 12 + self.index
    }

    /// Builds the pitch a raw note number denotes: 21 is pitch class 0
    /// (an A) at octave 0, and each following number is one semitone up.
    /// Numbers below 21 are rejected with an out-of-range error.
    pub fn from_midi(midi_note: u8) -> (r: Result<Note, NoteError>)
        ensures
            r is Ok <==> midi_note >= 21,
            midi_note >= 21 ==> r == Result::<Note, NoteError>::Ok(note_of_midi(midi_note)),
            midi_note >= 21 ==> note_of_midi(midi_note).wf(),
            midi_note < 21 ==> r == Result::<Note, NoteError>::Err(NoteError::OutOfRange),
    {
        if midi_note < 21 {
            return Err(NoteError::OutOfRange);
        }
        let m = (midi_note - 21) as usize;
        let index = m % 12;
        let octave = m / 12;
        Ok(Note { index, octave })
    }

    /// The display name of this note's pitch class.
    pub fn get_name(&self) -> (r: String)
        ensures
            r@ == note_name(self.index as int % 12),
    {
        Note::get_name_idx(self.index)
    }

    /// The display name of the pitch class `idx`, reduced modulo 12.
    pub fn get_name_idx(idx: usize) -> (r: String)
        ensures
            r@ == note_name(idx as int % 12),
    {
        let k = idx % 12;
        if k == 0 { String::from_str("A") }
        else if k == 1 { String::from_str("A#") }
        else if k == 2 { String::from_str("B") }
        else if k == 3 { String::from_str("C") }
        else if k == 4 { String::from_str("C#") }
        else if k == 5 { String::from_str("D") }
        else if k == 6 { String::from_str("D#") }
        else if k == 7 { String::from_str("E") }
        else if k == 8 { String::from_str("F") }
        else if k == 9 { String::from_str("F#") }
        else if k == 10 { String::from_str("G") }
        else { String::from_str("G#") }
    }

    /// The member's contribution to a relative interval set: the semitone
    /// offset from `root`, reduced modulo 12, keeping the octave.
    pub fn relative_to(&self, root: &Note) -> (r: Note)
        requires
            self.wf(),
            root.wf(),
        ensures
            r.index as int == rel_offset(*self, *root),
            r.octave == self.octave,
            r.wf(),
    {
        Note { index: (12 + self.index - root.index) % 12, octave: self.octave }
    }

    /// The total order on pitches: by absolute semitone height, so a lower
    /// sounding pitch compares lower.
    pub open spec fn height_cmp(&self, other: &Note) -> core::cmp::Ordering {
        if self.height() < other.height() {
            core::cmp::Ordering::Less
        } else if self.height() == other.height() {
            core::cmp::Ordering::Equal
        } else {
            core::cmp::Ordering::Greater
        }
    }

    /// Absolute semitone height, as an executable value.
    pub fn abs_height(&self) -> (r: usize)
        requires
            self.wf(),
        ensures
            r as int == self.height(),
    {
        self.octave * 12 + self.index
    }
}

impl PartialOrd for Note {
    fn partial_cmp(&self, other: &Self) -> (r: Option<core::cmp::Ordering>) {
        let a: u128 = self.octave as u128 * 12 + self.index as u128;
        let b: u128 = other.octave as u128 * 12 + other.index as u128;
        if a < b {
            Option::Some(core::cmp::Ordering::Less)
        } else if a == b {
            Option::Some(core::cmp::Ordering::Equal)
        } else {
            Option::Some(core::cmp::Ordering::Greater)
        }
    }
}

impl vstd::std_specs::cmp::PartialOrdSpecImpl for Note {
    open spec fn obeys_partial_cmp_spec() -> bool {
        true
    }

    open spec fn partial_cmp_spec(&self, other: &Self) -> Option<core::cmp::Ordering> {
        Option::Some(self.height_cmp(other))
    }
}

} // verus!
