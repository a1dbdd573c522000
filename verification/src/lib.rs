//! A chord-naming engine: turns an unordered collection of sounded pitches
//! into the plausible canonical chord-name strings ("Cmaj7", "Gsus4/D") a
//! musician would use for it.  Pure computation over value types: pitch
//! representation and ordering, interval-set construction relative to a
//! candidate root, and a priority-ordered decision table from an interval
//! set to a quality/extension/alteration string.

pub mod chord;
pub mod classify;
pub mod interval;
pub mod laws;
pub mod note;

pub use chord::get_chords;
pub use chord::Chord;
pub use interval::Interval;
pub use note::Note;
pub use note::NoteError;
