use bass_trainer::app::{
    build_drill_screen, pick_next_note, App, DrillState, KeyCode, KeyPress, Screen, Transition,
    CELEBRATION_DURATION_MS, REQUIRED_HITS,
};
use bass_trainer::audio::DeviceInfo;
use bass_trainer::config::StoredConfig;
use bass_trainer::music::{drill_pool, Key, Mode, Note};

fn press(code: KeyCode) -> KeyPress {
    KeyPress { code, ctrl: false }
}

fn devices() -> Vec<(u32, DeviceInfo)> {
    vec![
        (10, DeviceInfo { name: "Built-in".to_string(), max_input_channels: 1 }),
        (20, DeviceInfo { name: "Focusrite".to_string(), max_input_channels: 2 }),
        (30, DeviceInfo { name: "Mixer".to_string(), max_input_channels: 8 }),
    ]
}

fn drill_app(key: Key) -> App<u32, &'static str> {
    let mut app: App<u32, &'static str> = App::new(devices(), StoredConfig::default());
    app.enter_drill("Focusrite".to_string(), 0, key);
    app
}

fn drill_state(app: &App<u32, &'static str>) -> DrillState {
    match &app.screen {
        Screen::Drill { state, .. } => *state,
        _ => panic!("not on the drill screen"),
    }
}

#[test]
fn new_app_starts_on_the_remembered_device() {
    let mut config = StoredConfig::default();
    config.device_name = Some("Focusrite".to_string());
    let app: App<u32, ()> = App::new(devices(), config);
    assert!(matches!(app.screen, Screen::DevicePicker { cursor: 1, .. }));
    let app: App<u32, ()> = App::new(devices(), StoredConfig::default());
    assert!(matches!(app.screen, Screen::DevicePicker { cursor: 0, .. }));
    let mut config = StoredConfig::default();
    config.device_name = Some("Gone".to_string());
    let app: App<u32, ()> = App::new(devices(), config);
    assert!(matches!(app.screen, Screen::DevicePicker { cursor: 0, .. }));
}

#[test]
fn picking_device_channel_and_key_starts_capture() {
    let mut app: App<u32, ()> = App::new(devices(), StoredConfig::default());
    assert!(matches!(app.handle_key(press(KeyCode::Down)), Transition::Stay));
    assert!(matches!(app.handle_key(press(KeyCode::Char('j'))), Transition::Stay));
    assert!(matches!(app.handle_key(press(KeyCode::Down)), Transition::Stay));
    assert!(matches!(app.screen, Screen::DevicePicker { cursor: 2, .. }));
    assert!(matches!(app.handle_key(press(KeyCode::Char('k'))), Transition::Stay));
    assert!(matches!(app.handle_key(press(KeyCode::Enter)), Transition::Stay));
    match &app.screen {
        Screen::ChannelPicker { device, device_name, channels, cursor } => {
            assert_eq!(*device, 20);
            assert_eq!(device_name, "Focusrite");
            assert_eq!(*channels, 2);
            assert_eq!(*cursor, 0);
        }
        _ => panic!("expected the channel picker"),
    }
    assert_eq!(app.config.device_name.as_deref(), Some("Focusrite"));
    app.handle_key(press(KeyCode::Down));
    app.handle_key(press(KeyCode::Down));
    assert!(matches!(app.screen, Screen::ChannelPicker { cursor: 1, .. }));
    app.handle_key(press(KeyCode::Enter));
    assert_eq!(app.config.channel, Some(1));
    match &app.screen {
        Screen::KeyPicker { channel, keys, cursor, .. } => {
            assert_eq!(*channel, 1);
            assert_eq!(keys.len(), 25);
            assert_eq!(*cursor, 0);
        }
        _ => panic!("expected the key picker"),
    }
    app.handle_key(press(KeyCode::Down));
    match app.handle_key(press(KeyCode::Enter)) {
        Transition::StartCapture { device, device_name, channel, key } => {
            assert_eq!(device, 20);
            assert_eq!(device_name, "Focusrite");
            assert_eq!(channel, 1);
            assert_eq!(key, Key::new(0, Mode::Major));
        }
        _ => panic!("expected to start capturing"),
    }
    assert!(matches!(app.screen, Screen::Transitioning));
    assert_eq!(app.config.key(), Some(Key::new(0, Mode::Major)));
}

#[test]
fn remembered_channel_and_key_preselect_the_cursors() {
    let mut config = StoredConfig::default();
    config.channel = Some(5);
    config.set_key(Key::new(9, Mode::Minor));
    let mut app: App<u32, ()> = App::new(devices(), config);
    app.handle_key(press(KeyCode::Down));
    app.handle_key(press(KeyCode::Down));
    app.handle_key(press(KeyCode::Enter));
    assert!(matches!(app.screen, Screen::ChannelPicker { cursor: 5, channels: 8, .. }));
    app.handle_key(press(KeyCode::Enter));
    assert!(matches!(app.screen, Screen::KeyPicker { cursor: 20, channel: 5, .. }));

    let mut config = StoredConfig::default();
    config.channel = Some(5);
    let mut app: App<u32, ()> = App::new(devices(), config);
    app.handle_key(press(KeyCode::Enter));
    assert!(matches!(app.screen, Screen::ChannelPicker { cursor: 0, channels: 1, .. }));
}

#[test]
fn quitting_and_going_back() {
    let ctrl_c = KeyPress { code: KeyCode::Char('c'), ctrl: true };
    let mut app: App<u32, ()> = App::new(devices(), StoredConfig::default());
    assert!(matches!(app.handle_key(ctrl_c), Transition::Quit));
    assert!(matches!(app.handle_key(press(KeyCode::Esc)), Transition::Quit));
    assert!(matches!(app.handle_key(press(KeyCode::Char('q'))), Transition::Quit));
    assert!(matches!(app.handle_key(press(KeyCode::Char('c'))), Transition::Stay));
    app.handle_key(press(KeyCode::Enter));
    assert!(matches!(app.handle_key(press(KeyCode::Esc)), Transition::ReloadDevices));
    assert!(matches!(app.screen, Screen::Transitioning));
    assert!(matches!(app.handle_key(press(KeyCode::Enter)), Transition::Stay));
    app.reset_to_device_picker(devices());
    assert!(matches!(app.screen, Screen::DevicePicker { cursor: 0, .. }));
    app.handle_key(press(KeyCode::Enter));
    app.handle_key(press(KeyCode::Enter));
    assert!(matches!(app.screen, Screen::KeyPicker { .. }));
    assert!(matches!(app.handle_key(ctrl_c), Transition::Quit));
    assert!(matches!(app.screen, Screen::KeyPicker { .. }));
    assert!(matches!(app.handle_key(press(KeyCode::Char('q'))), Transition::Quit));
    assert!(matches!(app.handle_key(press(KeyCode::Esc)), Transition::ReloadDevices));
}

#[test]
fn empty_device_list_stays_put() {
    let mut app: App<u32, ()> = App::new(Vec::new(), StoredConfig::default());
    assert!(matches!(app.handle_key(press(KeyCode::Enter)), Transition::Stay));
    assert!(matches!(app.handle_key(press(KeyCode::Down)), Transition::Stay));
    assert!(matches!(app.screen, Screen::DevicePicker { cursor: 0, .. }));
}

#[test]
fn cursors_stop_at_the_ends() {
    let mut app: App<u32, ()> = App::new(devices(), StoredConfig::default());
    app.handle_key(press(KeyCode::Up));
    assert!(matches!(app.screen, Screen::DevicePicker { cursor: 0, .. }));
    for _ in 0..10 {
        app.handle_key(press(KeyCode::Down));
    }
    assert!(matches!(app.screen, Screen::DevicePicker { cursor: 2, .. }));
    app.handle_key(press(KeyCode::Enter));
    for _ in 0..20 {
        app.handle_key(press(KeyCode::Down));
    }
    assert!(matches!(app.screen, Screen::ChannelPicker { cursor: 7, .. }));
    app.handle_key(press(KeyCode::Enter));
    for _ in 0..40 {
        app.handle_key(press(KeyCode::Down));
    }
    assert!(matches!(app.screen, Screen::KeyPicker { cursor: 24, .. }));
}

#[test]
fn four_matching_frames_confirm_the_note() {
    let mut app = drill_app(Key::new(0, Mode::Chromatic));
    let target = match drill_state(&app) {
        DrillState::Listening { target, consecutive_hits } => {
            assert_eq!(consecutive_hits, 0);
            target
        }
        _ => panic!("expected to be listening"),
    };
    for i in 1..REQUIRED_HITS {
        app.on_pitch_event(target, "heard", 100 * i as u64);
        assert_eq!(drill_state(&app), DrillState::Listening { target, consecutive_hits: i });
    }
    app.on_pitch_event(target, "heard", 400);
    assert_eq!(
        drill_state(&app),
        DrillState::Celebrating { note: target, expires_at: 400 + CELEBRATION_DURATION_MS }
    );
    match &app.screen {
        Screen::Drill { last_detected, .. } => assert_eq!(*last_detected, Some("heard")),
        _ => panic!("expected the drill"),
    }
    let wrong = Note::from_midi(if target.midi == 30 { 31 } else { 30 });
    app.on_pitch_event(wrong, "wrong", 500);
    assert_eq!(
        drill_state(&app),
        DrillState::Celebrating { note: target, expires_at: 400 + CELEBRATION_DURATION_MS }
    );
}

#[test]
fn a_wrong_note_resets_the_count() {
    let mut app = drill_app(Key::new(0, Mode::Chromatic));
    let target = match drill_state(&app) {
        DrillState::Listening { target, .. } => target,
        _ => panic!("expected to be listening"),
    };
    let wrong = Note::from_midi(if target.midi == 30 { 31 } else { 30 });
    app.on_pitch_event(target, "a", 1);
    app.on_pitch_event(target, "b", 2);
    app.on_pitch_event(target, "c", 3);
    app.on_pitch_event(wrong, "d", 4);
    assert_eq!(drill_state(&app), DrillState::Listening { target, consecutive_hits: 0 });
    app.on_pitch_event(target, "e", 5);
    assert_eq!(drill_state(&app), DrillState::Listening { target, consecutive_hits: 1 });
}

#[test]
fn tick_moves_on_only_after_the_celebration() {
    let mut app = drill_app(Key::new(0, Mode::Major));
    let target = match drill_state(&app) {
        DrillState::Listening { target, .. } => target,
        _ => panic!("expected to be listening"),
    };
    for t in 0..4 {
        app.on_pitch_event(target, "x", t);
    }
    app.tick(3 + CELEBRATION_DURATION_MS - 1);
    assert!(matches!(drill_state(&app), DrillState::Celebrating { .. }));
    app.tick(3 + CELEBRATION_DURATION_MS);
    match drill_state(&app) {
        DrillState::Listening { target: next, consecutive_hits } => {
            assert_eq!(consecutive_hits, 0);
            assert_ne!(next.midi, target.midi);
            assert!(drill_pool(Key::new(0, Mode::Major)).contains(&next));
        }
        _ => panic!("expected a new target"),
    }
    match &app.screen {
        Screen::Drill { last_detected, .. } => assert_eq!(*last_detected, None),
        _ => panic!("expected the drill"),
    }
}

#[test]
fn pick_next_note_avoids_the_previous_note() {
    let pool = vec![Note::from_midi(40), Note::from_midi(41)];
    for _ in 0..50 {
        assert_eq!(pick_next_note(&pool, Some(Note::from_midi(40))), Note::from_midi(41));
        let n = pick_next_note(&pool, None);
        assert!(pool.contains(&n));
    }
    let single = vec![Note::from_midi(40)];
    assert_eq!(pick_next_note(&single, Some(Note::from_midi(40))), Note::from_midi(40));
}

#[test]
fn build_drill_screen_starts_listening() {
    let screen: Screen<u32, ()> = build_drill_screen("dev".to_string(), 3, Key::new(2, Mode::Minor));
    match screen {
        Screen::Drill { device_name, channel, key, pool, state, last_detected } => {
            assert_eq!(device_name, "dev");
            assert_eq!(channel, 3);
            assert_eq!(key, Key::new(2, Mode::Minor));
            assert_eq!(pool, drill_pool(Key::new(2, Mode::Minor)));
            match state {
                DrillState::Listening { target, consecutive_hits } => {
                    assert_eq!(consecutive_hits, 0);
                    assert!(pool.contains(&target));
                }
                _ => panic!("expected to be listening"),
            }
            assert!(last_detected.is_none());
        }
        _ => panic!("expected the drill"),
    }
}

#[test]
fn drill_keys_other_than_quit_do_nothing() {
    let mut app = drill_app(Key::new(0, Mode::Chromatic));
    let before = drill_state(&app);
    assert!(matches!(app.handle_key(press(KeyCode::Enter)), Transition::Stay));
    assert_eq!(drill_state(&app), before);
    assert!(matches!(app.handle_key(press(KeyCode::Esc)), Transition::Quit));
    assert!(matches!(app.handle_key(press(KeyCode::Char('q'))), Transition::Quit));
}

#[test]
fn screens_built_by_the_library_are_well_formed() {
    let mut app: App<u32, ()> = App::new(devices(), StoredConfig::default());
    assert!(app.well_formed());
    app.handle_key(press(KeyCode::Enter));
    assert!(app.well_formed());
    app.handle_key(press(KeyCode::Enter));
    assert!(app.well_formed());
    let broken: App<u32, ()> = App {
        screen: Screen::KeyPicker { device: 1, device_name: "x".to_string(), channel: 0, keys: Vec::new(), cursor: 0 },
        config: StoredConfig::default(),
        status: None,
    };
    assert!(!broken.well_formed());
}

#[test]
fn key_and_tick_preconditions() {
    let app: App<u32, ()> = App::new(devices(), StoredConfig::default());
    assert!(app.can_handle_key(press(KeyCode::Enter)));
    let broken: App<u32, ()> = App {
        screen: Screen::KeyPicker { device: 1, device_name: "x".to_string(), channel: 0, keys: Vec::new(), cursor: 0 },
        config: StoredConfig::default(),
        status: None,
    };
    assert!(!broken.can_handle_key(press(KeyCode::Enter)));
    assert!(broken.can_handle_key(press(KeyCode::Up)));
    let empty_drill: App<u32, ()> = App {
        screen: Screen::Drill {
            device_name: "x".to_string(),
            channel: 0,
            key: Key::new(0, Mode::Major),
            pool: Vec::new(),
            state: DrillState::Celebrating { note: Note::from_midi(40), expires_at: 10 },
            last_detected: None,
        },
        config: StoredConfig::default(),
        status: None,
    };
    assert!(empty_drill.can_tick(9));
    assert!(!empty_drill.can_tick(10));
}

#[test]
fn failed_capture_reports_and_returns_to_the_devices() {
    let mut config = StoredConfig::default();
    config.device_name = Some("Mixer".to_string());
    let mut app: App<u32, ()> = App::new(devices(), config);
    app.handle_key(press(KeyCode::Enter));
    app.capture_failed("no such device", devices());
    assert_eq!(app.status.as_deref(), Some("audio start failed: no such device"));
    assert!(matches!(app.screen, Screen::DevicePicker { cursor: 2, .. }));
}
