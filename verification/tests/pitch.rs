use bass_trainer::config::StoredConfig;
use bass_trainer::music::{Key, Mode, Note};
use bass_trainer::pitch::{advance_window, latest_window_start, retain_last, sounding_note, HOP_SIZE, WINDOW_SIZE};

#[test]
fn only_sounding_pitches_name_a_note() {
    assert_eq!(sounding_note(45), Some(Note::from_midi(45)));
    assert_eq!(sounding_note(28), Some(Note::from_midi(28)));
    assert_eq!(sounding_note(63), Some(Note::from_midi(63)));
    assert_eq!(sounding_note(27), None);
    assert_eq!(sounding_note(64), None);
}

#[test]
fn window_bookkeeping() {
    assert_eq!(latest_window_start(WINDOW_SIZE - 1, WINDOW_SIZE), None);
    assert_eq!(latest_window_start(WINDOW_SIZE + 10, WINDOW_SIZE), Some(10));
    let mut buf: Vec<u32> = (0..10).collect();
    retain_last(&mut buf, 4);
    assert_eq!(buf, vec![6, 7, 8, 9]);
    retain_last(&mut buf, 0);
    assert!(buf.is_empty());
}

#[test]
fn stored_key_round_trip() {
    let mut config = StoredConfig::default();
    assert_eq!(config.key(), None);
    config.set_key(Key::new(5, Mode::Minor));
    assert_eq!(config.key(), Some(Key::new(5, Mode::Minor)));
    config.set_key(Key { root_pc: 14, mode: Mode::Major });
    assert_eq!(config.key_root_pc, Some(14));
    assert_eq!(config.key(), Some(Key::new(2, Mode::Major)));
    config.key_mode = None;
    assert_eq!(config.key(), None);
}

#[test]
fn advancing_keeps_the_last_half_window() {
    let mut buf: Vec<usize> = (0..WINDOW_SIZE + 100).collect();
    advance_window(&mut buf);
    assert_eq!(buf.len(), WINDOW_SIZE - HOP_SIZE);
    assert_eq!(buf[0], WINDOW_SIZE + 100 - WINDOW_SIZE / 2);
    assert_eq!(*buf.last().unwrap(), WINDOW_SIZE + 99);
}
