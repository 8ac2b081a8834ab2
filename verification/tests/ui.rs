use bass_trainer::app::DrillState;
use bass_trainer::audio::DeviceInfo;
use bass_trainer::music::{Key, Mode, Note};
use bass_trainer::ui::{
    channel_item_label, channel_picker_title, device_item_label, drill_header, drill_status_line,
    drill_summary, key_item_label, key_picker_title, ledger_steps, staff_step, string_label,
    tab_row, tab_title, truncate, TabCell,
};

#[test]
fn staff_step_for_open_strings() {
    assert_eq!(staff_step(28).0, 16);
    assert_eq!(staff_step(43).0, 25);
}

#[test]
fn staff_step_for_c4_middle_c() {
    assert_eq!(staff_step(60).0, 35);
}

#[test]
fn staff_step_marks_sharps() {
    assert!(staff_step(30).1);
    assert!(!staff_step(28).1);
    assert!(!staff_step(29).1);
}

#[test]
fn staff_step_octaves_and_sharps() {
    for m in 20..80 {
        assert_eq!(staff_step(m + 12).0, staff_step(m).0 + 7);
        if staff_step(m).1 {
            assert_eq!(staff_step(m).0, staff_step(m - 1).0);
        }
    }
    assert_eq!(staff_step(-13), (-8, false));
}

#[test]
fn ledger_lines_below_above_and_none() {
    assert_eq!(ledger_steps(16), vec![16]);
    assert_eq!(ledger_steps(13), vec![16, 14]);
    assert_eq!(ledger_steps(12), vec![16, 14, 12]);
    assert!(ledger_steps(17).is_empty());
    assert!(ledger_steps(20).is_empty());
    assert!(ledger_steps(27).is_empty());
    assert_eq!(ledger_steps(28), vec![28]);
    assert_eq!(ledger_steps(31), vec![28, 30]);
}

#[test]
fn tab_row_marks_only_the_revealed_fret() {
    let row = tab_row(1, Some(Note::from_midi(45)));
    assert_eq!(row.len(), 21);
    for (f, cell) in row.iter().enumerate() {
        if f == 12 {
            assert_eq!(*cell, TabCell::Fret(12));
        } else {
            assert_eq!(*cell, TabCell::Empty);
        }
    }
    assert!(tab_row(0, None).iter().all(|c| *c == TabCell::Empty));
    assert!(tab_row(3, Some(Note::from_midi(30))).iter().all(|c| *c == TabCell::Empty));
    assert_eq!(TabCell::Fret(5).text(), "-5");
    assert_eq!(TabCell::Fret(0).text(), "-0");
    assert_eq!(TabCell::Fret(17).text(), "17");
    assert_eq!(TabCell::Empty.text(), "--");
    assert_eq!(string_label(0), "E");
    assert_eq!(string_label(3), "G");
}

#[test]
fn truncate_keeps_short_text_and_marks_cuts() {
    assert_eq!(truncate("Focusrite", 40), "Focusrite");
    assert_eq!(truncate("abcdef", 6), "abcdef");
    assert_eq!(truncate("abcdefg", 6), "abcde\u{2026}");
    assert_eq!(truncate("ab", 0), "\u{2026}");
    assert_eq!(truncate("\u{e9}t\u{e9}", 2), "\u{e9}\u{2026}");
}

#[test]
fn picker_labels_and_titles() {
    let info = DeviceInfo { name: "Focusrite USB MIDI".to_string(), max_input_channels: 2 };
    assert_eq!(device_item_label(&info), "Focusrite USB MIDI  (2 channels)");
    assert_eq!(channel_item_label(0), "Channel 0 (input 1)");
    assert_eq!(key_item_label(Key::new(0, Mode::Chromatic)), "All notes (chromatic)   (36 notes in range)");
    assert_eq!(key_item_label(Key::new(0, Mode::Major)), "C major   (21 notes in range)");
    assert_eq!(channel_picker_title("Built-in"), " Channel on Built-in (enter=select, esc=back) ");
    assert_eq!(
        key_picker_title("Focusrite USB MIDI", 0),
        " Key  \u{2014}  Focusrite USB MIDI  ch0  (enter=select, esc=back) "
    );
}

#[test]
fn drill_texts() {
    let listening = DrillState::Listening { target: Note::from_midi(38), consecutive_hits: 2 };
    let celebrating = DrillState::Celebrating { note: Note::from_midi(38), expires_at: 5 };
    assert_eq!(drill_summary(&listening), (Note::from_midi(38), false, 2));
    assert_eq!(drill_summary(&celebrating), (Note::from_midi(38), true, 4));
    assert_eq!(drill_status_line(&listening), "play the note shown on the staff  (hits 2/4)");
    assert_eq!(drill_status_line(&celebrating), "\u{2713} correct \u{2014} D2");
    assert_eq!(
        drill_header(Key::new(7, Mode::Major), "Focusrite USB MIDI", 0),
        "key: G major   device: Focusrite USB MIDI  ch0"
    );
    assert_eq!(tab_title(None), " Tab ");
    assert_eq!(tab_title(Some(Note::from_midi(38))), " Tab \u{2014} D2  (3 positions) ");
}

#[test]
fn tab_rows_for_a_revealed_d2() {
    let d2 = Some(Note::from_midi(38));
    let row_text = |s: usize| {
        let mut line = format!("{}|", string_label(s));
        for cell in tab_row(s, d2) {
            line.push_str(&cell.text());
        }
        line.push('|');
        line
    };
    assert_eq!(row_text(3), format!("G|{}|", "--".repeat(21)));
    assert_eq!(row_text(2), format!("D|-0{}|", "--".repeat(20)));
    assert_eq!(row_text(1), format!("A|{}-5{}|", "--".repeat(5), "--".repeat(15)));
    assert_eq!(row_text(0), format!("E|{}10{}|", "--".repeat(10), "--".repeat(10)));
}
