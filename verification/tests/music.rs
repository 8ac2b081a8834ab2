use bass_trainer::music::{
    drill_pool, fret_positions, FretPosition, Key, Mode, Note, MAX_FRET, SOUNDING_MAX_MIDI,
    SOUNDING_MIN_MIDI, STRING_OPEN_MIDI,
};

#[test]
fn note_name_and_octave() {
    let e1 = Note::from_midi(28);
    assert_eq!(e1.name(), "E");
    assert_eq!(e1.octave(), 1);
    assert_eq!(e1.to_string(), "E1");

    let a4 = Note::from_midi(69);
    assert_eq!(a4.name(), "A");
    assert_eq!(a4.octave(), 4);
}

#[test]
fn open_strings_have_correct_midi() {
    assert_eq!(Note::from_midi(STRING_OPEN_MIDI[0]).to_string(), "E1");
    assert_eq!(Note::from_midi(STRING_OPEN_MIDI[1]).to_string(), "A1");
    assert_eq!(Note::from_midi(STRING_OPEN_MIDI[2]).to_string(), "D2");
    assert_eq!(Note::from_midi(STRING_OPEN_MIDI[3]).to_string(), "G2");
}

#[test]
fn c_major_contains_c_e_g_but_not_csharp() {
    let k = Key::new(0, Mode::Major);
    assert!(k.contains(Note::from_midi(60)));
    assert!(k.contains(Note::from_midi(64)));
    assert!(k.contains(Note::from_midi(67)));
    assert!(!k.contains(Note::from_midi(61)));
}

#[test]
fn a_minor_contains_natural_minor_notes() {
    let k = Key::new(9, Mode::Minor);
    for &pc in &[9, 11, 0, 2, 4, 5, 7] {
        assert!(k.contains(Note::from_midi(60 + pc)));
    }
    assert!(!k.contains(Note::from_midi(60 + 8)));
}

#[test]
fn fret_positions_for_a2() {
    let a2 = Note::from_midi(45);
    let positions = fret_positions(a2);
    assert!(positions.contains(&FretPosition { string_index: 0, fret: 17 }));
    assert!(positions.contains(&FretPosition { string_index: 1, fret: 12 }));
    assert!(positions.contains(&FretPosition { string_index: 2, fret: 7 }));
    assert!(positions.contains(&FretPosition { string_index: 3, fret: 2 }));
    assert_eq!(positions.len(), 4);
}

#[test]
fn drill_pool_in_range() {
    let pool = drill_pool(Key::new(7, Mode::Major));
    for n in &pool {
        assert!(n.midi >= SOUNDING_MIN_MIDI);
        assert!(n.midi <= SOUNDING_MAX_MIDI);
    }
    assert!(!pool.is_empty());
}

#[test]
fn pitch_class_and_octave_of_negative_and_high_notes() {
    let n = Note::from_midi(-1);
    assert_eq!(n.pitch_class(), 11);
    assert_eq!(n.octave(), -2);
    assert_eq!(n.name(), "B");
    assert_eq!(n.to_string(), "B-2");
    assert_eq!(Note::from_midi(61).to_string(), "C#4");
    assert_eq!(Note::from_midi(127).to_string(), "G9");
    assert_eq!(Note::from_midi(i32::MIN).to_string(), "E-178956972");
}

#[test]
fn key_new_normalises_the_root() {
    let k = Key::new(-1, Mode::Major);
    assert_eq!(k.root_pc, 11);
    assert_eq!(k.mode, Mode::Major);
    assert_eq!(Key::new(26, Mode::Minor).root_pc, 2);
    assert_eq!(k.root_name(), "B");
    assert_eq!(Key::new(3, Mode::Minor).root_name(), "D#");
}

#[test]
fn key_display_text() {
    assert_eq!(Key::new(0, Mode::Chromatic).to_string(), "All notes (chromatic)");
    assert_eq!(Key::new(7, Mode::Major).to_string(), "G major");
    assert_eq!(Key::new(10, Mode::Minor).to_string(), "A# minor");
    assert_eq!(Mode::Chromatic.to_string(), "chromatic");
}

#[test]
fn scale_intervals_per_mode() {
    assert_eq!(Key::new(0, Mode::Major).scale_intervals(), &[0, 2, 4, 5, 7, 9, 11]);
    assert_eq!(Key::new(0, Mode::Minor).scale_intervals(), &[0, 2, 3, 5, 7, 8, 10]);
    assert_eq!(Key::new(0, Mode::Chromatic).scale_intervals().len(), 12);
}

#[test]
fn chromatic_contains_everything_and_octaves_do_not_matter() {
    let k = Key::new(4, Mode::Chromatic);
    for m in -30..140 {
        assert!(k.contains(Note::from_midi(m)));
    }
    let g = Key::new(7, Mode::Major);
    for m in 0..100 {
        assert_eq!(g.contains(Note::from_midi(m)), g.contains(Note::from_midi(m + 12)));
    }
    assert!(g.contains(Note::from_midi(66)));
    assert!(!g.contains(Note::from_midi(65)));
}

#[test]
fn all_keys_lists_chromatic_then_major_and_minor_per_root() {
    let keys = Key::all();
    assert_eq!(keys.len(), 25);
    assert_eq!(keys[0], Key::new(0, Mode::Chromatic));
    assert_eq!(keys[1], Key::new(0, Mode::Major));
    assert_eq!(keys[2], Key::new(0, Mode::Minor));
    assert_eq!(keys[3], Key::new(1, Mode::Major));
    for pc in 0..12 {
        assert_eq!(keys[1 + 2 * pc as usize], Key::new(pc, Mode::Major));
        assert_eq!(keys[2 + 2 * pc as usize], Key::new(pc, Mode::Minor));
    }
}

#[test]
fn diatonic_notes_in_range_is_ascending_and_exact() {
    let c = Key::new(0, Mode::Major);
    let notes = c.diatonic_notes_in_range(60, 72);
    let midis: Vec<i32> = notes.iter().map(|n| n.midi).collect();
    assert_eq!(midis, vec![60, 62, 64, 65, 67, 69, 71, 72]);
    assert!(c.diatonic_notes_in_range(5, 4).is_empty());
    assert_eq!(c.diatonic_notes_in_range(i32::MAX - 1, i32::MAX).len(), 1);
}

#[test]
fn drill_pool_sizes_cover_three_octaves() {
    assert_eq!(drill_pool(Key::new(0, Mode::Chromatic)).len(), 36);
    for pc in 0..12 {
        assert_eq!(drill_pool(Key::new(pc, Mode::Major)).len(), 21);
        assert_eq!(drill_pool(Key::new(pc, Mode::Minor)).len(), 21);
    }
    let pool = drill_pool(Key::new(0, Mode::Chromatic));
    assert_eq!(pool.first().unwrap().midi, 28);
    assert_eq!(pool.last().unwrap().midi, 63);
}

#[test]
fn fret_positions_at_the_edges_of_the_neck() {
    let low_e = fret_positions(Note::from_midi(28));
    assert_eq!(low_e, vec![FretPosition { string_index: 0, fret: 0 }]);
    let top = fret_positions(Note::from_midi(43 + MAX_FRET));
    assert_eq!(top, vec![FretPosition { string_index: 3, fret: 20 }]);
    assert!(fret_positions(Note::from_midi(27)).is_empty());
    assert!(fret_positions(Note::from_midi(64)).is_empty());
    let d2 = fret_positions(Note::from_midi(38));
    assert_eq!(
        d2,
        vec![
            FretPosition { string_index: 0, fret: 10 },
            FretPosition { string_index: 1, fret: 5 },
            FretPosition { string_index: 2, fret: 0 },
        ]
    );
}
