use chord_namer::get_chords;
use chord_namer::Chord;
use chord_namer::Note;

/// A note with pitch class `k` (relative to the origin) at octave 0.
fn n(k: u8) -> Note {
    Note::from_midi(21 + k).unwrap()
}

#[test]
fn test_cmaj7() {
    let chord = Chord {
        notes: vec![
            Note::from_midi(60).unwrap(), // C
            Note::from_midi(64).unwrap(), // E
            Note::from_midi(67).unwrap(), // G
            Note::from_midi(71).unwrap(), // B
        ],
    };
    assert!(chord.get_names().contains(&"Cmaj7".into()));
}

#[test]
fn test_c9() {
    let chord = Chord {
        notes: vec![
            Note::from_midi(60).unwrap(), // C
            Note::from_midi(64).unwrap(), // E
            Note::from_midi(67).unwrap(), // G
            Note::from_midi(71).unwrap(), // B
            Note::from_midi(74).unwrap(), // D
        ],
    };
    assert!(chord.get_names().contains(&"Cmaj9".into()));
}

#[test]
fn test_c13() {
    let chord = Chord {
        notes: vec![
            Note::from_midi(60).unwrap(), // C
            Note::from_midi(64).unwrap(), // E
            Note::from_midi(67).unwrap(), // G
            Note::from_midi(71).unwrap(), // B
            Note::from_midi(74).unwrap(), // D
            Note::from_midi(81).unwrap(), // A
        ],
    };
    assert!(chord.get_names().contains(&"Cmaj13".into()));
}

#[test]
fn test_c_sus4() {
    let chord = Chord {
        notes: vec![
            Note::from_midi(60).unwrap(), // C
            Note::from_midi(65).unwrap(), // F
            Note::from_midi(67).unwrap(), // G
        ],
    };
    assert!(chord.get_names().contains(&"Csus4".into()));
}

#[test]
fn test_from_midi_below_range() {
    assert!(Note::from_midi(20).is_err());
    assert!(Note::from_midi(0).is_err());
    assert_eq!(Note::from_midi(21).unwrap().get_name(), "A");
}

#[test]
fn test_get_chords_out_of_range() {
    assert!(get_chords(&vec![60, 5]).is_err());
}

#[test]
fn test_note_ordering() {
    let low = Note::from_midi(60).unwrap();
    let high = Note::from_midi(67).unwrap();
    assert!(low < high);
    assert!(high > low);
    assert!(low <= Note::from_midi(60).unwrap());
}

#[test]
fn test_note_names() {
    assert_eq!(Note::from_midi(60).unwrap().get_name(), "C");
    assert_eq!(Note::from_midi(69).unwrap().get_name(), "A");
    assert_eq!(Note::get_name_idx(2), "B");
    assert_eq!(Note::get_name_idx(14), "B");
}

#[test]
fn test_relative_to_lowest_is_root() {
    // Against the lowest pitch of {C, E, G}, the bass contributes
    // offset 0 (named "A" in relative space) and the others their
    // intervals above it.
    let c = Note::from_midi(60).unwrap();
    let e = Note::from_midi(64).unwrap();
    let g = Note::from_midi(67).unwrap();
    assert_eq!(c.relative_to(&c).get_name(), "A");
    assert_eq!(e.relative_to(&c).get_name(), "C#");
    assert_eq!(g.relative_to(&c).get_name(), "E");
}

#[test]
fn test_classify_empty_form() {
    assert_eq!(Chord::get_name_from_relative_form(vec![]), None);
}

#[test]
fn test_classify_single_offset() {
    assert_eq!(
        Chord::get_name_from_relative_form(vec![n(0)]),
        Some(String::new())
    );
}

#[test]
fn test_classify_pair_with_fifth() {
    // A two-offset form is never named, even with a perfect fifth present.
    assert_eq!(Chord::get_name_from_relative_form(vec![n(0), n(7)]), None);
}

#[test]
fn test_classify_pair_without_fifth() {
    assert_eq!(Chord::get_name_from_relative_form(vec![n(0), n(4)]), None);
}

#[test]
fn test_classify_major_triad() {
    assert_eq!(
        Chord::get_name_from_relative_form(vec![n(0), n(4), n(7)]),
        Some("".into())
    );
}

#[test]
fn test_classify_dim7() {
    assert_eq!(
        Chord::get_name_from_relative_form(vec![n(0), n(3), n(6), n(9)]),
        Some("dim7".into())
    );
}

#[test]
fn test_classify_seven_flat_five() {
    assert_eq!(
        Chord::get_name_from_relative_form(vec![n(0), n(4), n(6), n(10)]),
        Some("7(b5)".into())
    );
}

#[test]
fn test_classify_eleven_gapped_ninth() {
    assert_eq!(
        Chord::get_name_from_relative_form(vec![n(0), n(4), n(5), n(7), n(10)]),
        Some("11(no9)".into())
    );
}

#[test]
fn test_classify_add9() {
    assert_eq!(
        Chord::get_name_from_relative_form(vec![n(0), n(2), n(4), n(7)]),
        Some("add9".into())
    );
}

#[test]
fn test_classify_addb9() {
    assert_eq!(
        Chord::get_name_from_relative_form(vec![n(0), n(1), n(4), n(7)]),
        Some("addb9".into())
    );
}

#[test]
fn test_classify_sharp_eleven_alteration() {
    // The sharp eleventh is always recorded as an alteration, even when
    // no base extension exists.
    assert_eq!(
        Chord::get_name_from_relative_form(vec![n(0), n(4), n(6), n(7)]),
        Some("(#11)".into())
    );
}

#[test]
fn test_classify_flat_six() {
    assert_eq!(
        Chord::get_name_from_relative_form(vec![n(0), n(4), n(7), n(8)]),
        Some("b6".into())
    );
}

#[test]
fn test_get_chords_major_triad_exact() {
    assert_eq!(
        get_chords(&vec![60, 64, 67]).unwrap(),
        vec!["C".to_string(), "Emb6".to_string(), "G6sus4".to_string()]
    );
}

#[test]
fn test_get_chords_sus4_exact() {
    assert_eq!(
        get_chords(&vec![60, 65, 67]).unwrap(),
        vec!["Csus4".to_string(), "Fsus2".to_string(), "G7sus4".to_string()]
    );
}

#[test]
fn test_get_chords_two_notes_slash_only() {
    // Neither dyad classifies, but the upper note against the bass yields
    // a slash name for the bare root.
    assert_eq!(get_chords(&vec![60, 67]).unwrap(), vec!["G/C".to_string()]);
}

#[test]
fn test_get_chords_single_note() {
    assert_eq!(get_chords(&vec![60]).unwrap(), vec!["C".to_string()]);
}

#[test]
fn test_get_chords_doubled_root_no_slash() {
    // The doubled root an octave up shares the bass's name, so no slash
    // candidate is attempted, and the dyad itself never classifies.
    assert_eq!(get_chords(&vec![60, 72]).unwrap(), Vec::<String>::new());
}
