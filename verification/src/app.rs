//! The trainer's screens and the rules that move between them.
//!
//! The state machine is generic over the device handle `D` that the audio layer hands
//! out and over the detection record `E` that the pitch detector reports; it only carries
//! them. Time is a millisecond count supplied by the caller.
use vstd::prelude::*;
use rand::seq::SliceRandom;

use crate::audio::DeviceInfo;
use crate::config::{StoredConfig, stored_key};
use crate::lookup::{first_index, index_or_zero, is_key, lemma_first_index, lemma_scan_finds_first, named};
use crate::music::{
    Key, Note, all_keys, drill_pool, drill_pool_spec, key_range_fits, lemma_drill_pool,
    SOUNDING_MIN_MIDI, SOUNDING_MAX_MIDI,
};

verus! {

/// Consecutive matching detections that confirm a note.
pub const REQUIRED_HITS: u8 = 4;

/// How long a confirmed note stays on screen, in milliseconds.
pub const CELEBRATION_DURATION_MS: u64 = 1000;

/// The keys the trainer reacts to.
#[derive(Debug, Clone, Copy, PartialEq, Eq, Structural)]
pub enum KeyCode {
    Up,
    Down,
    Enter,
    Esc,
    Char(char),
    Other,
}

/// A key press, with whether Control was held.
#[derive(Debug, Clone, Copy, PartialEq, Eq, Structural)]
pub struct KeyPress {
    pub code: KeyCode,
    pub ctrl: bool,
}

/// The screen being shown.
#[verifier::reject_recursive_types(D)]
#[verifier::reject_recursive_types(E)]
pub enum Screen<D, E> {
    DevicePicker { devices: Vec<(D, DeviceInfo)>, cursor: usize },
    ChannelPicker { device: D, device_name: String, channels: u16, cursor: usize },
    KeyPicker { device: D, device_name: String, channel: u16, keys: Vec<Key>, cursor: usize },
    Drill {
        device_name: String,
        channel: u16,
        key: Key,
        pool: Vec<Note>,
        state: DrillState,
        last_detected: Option<E>,
    },
    Transitioning,
}

/// Progress on the note currently asked for.
#[derive(Debug, Clone, Copy, PartialEq, Eq, Structural)]
pub enum DrillState {
    Listening { target: Note, consecutive_hits: u8 },
    Celebrating { note: Note, expires_at: u64 },
}

/// What the caller must do after a key press.
#[verifier::reject_recursive_types(D)]
pub enum Transition<D> {
    Stay,
    Quit,
    StartCapture { device: D, device_name: String, channel: u16, key: Key },
    /// The player went back to the device list: list the devices and hand them to
    /// `reset_to_device_picker`.
    ReloadDevices,
}

/// The whole application state.
#[verifier::reject_recursive_types(D)]
#[verifier::reject_recursive_types(E)]
pub struct App<D, E> {
    pub screen: Screen<D, E>,
    pub config: StoredConfig,
    pub status: Option<String>,
}

// ---------------------------------------------------------------------------------------
// Specification

/// Where the device cursor starts: on the remembered device, else on the first entry.
pub open spec fn device_cursor<D>(devices: Seq<(D, DeviceInfo)>, config: StoredConfig) -> usize {
    match config.device_name {
        Some(name) => index_or_zero(first_index(devices, named::<D>(name@))),
        None => 0,
    }
}

/// Where the channel cursor starts: on the remembered channel if the device has it.
pub open spec fn channel_cursor(config: StoredConfig, channels: u16) -> usize {
    match config.channel {
        Some(c) => if c < channels { c as usize } else { 0 },
        None => 0,
    }
}

/// Where the key cursor starts: on the remembered key if it is in the list.
pub open spec fn key_cursor(config: StoredConfig) -> usize {
    match stored_key(config) {
        Some(k) => index_or_zero(first_index(all_keys(), is_key(k))),
        None => 0,
    }
}

pub open spec fn cursor_up(c: usize) -> usize {
    if c > 0 { (c - 1) as usize } else { c }
}

pub open spec fn cursor_down(c: usize, n: int) -> usize {
    if c + 1 < n { (c + 1) as usize } else { c }
}

pub open spec fn is_up(k: KeyPress) -> bool {
    k.code == KeyCode::Up || k.code == KeyCode::Char('k')
}

pub open spec fn is_down(k: KeyPress) -> bool {
    k.code == KeyCode::Down || k.code == KeyCode::Char('j')
}

pub open spec fn is_ctrl_c(k: KeyPress) -> bool {
    k.ctrl && k.code == KeyCode::Char('c')
}

/// The cursors point into their lists and a drill has notes to ask for.
pub open spec fn screen_wf<D, E>(s: Screen<D, E>) -> bool {
    match s {
        Screen::DevicePicker { devices, cursor } => devices.len() == 0 || cursor < devices.len(),
        Screen::ChannelPicker { channels, cursor, .. } => cursor == 0 || cursor < channels,
        Screen::KeyPicker { keys, cursor, .. } => cursor < keys.len(),
        Screen::Drill { pool, .. } => pool.len() > 0,
        Screen::Transitioning => true,
    }
}

/// Whether `app` can take `key` without indexing past a list or stepping a cursor past
/// the largest index.
pub open spec fn key_allowed<D, E>(app: App<D, E>, key: KeyPress) -> bool {
    !is_ctrl_c(key) ==> match app.screen {
        Screen::DevicePicker { devices, cursor } => (is_down(key) ==> cursor < usize::MAX)
            && (key.code == KeyCode::Enter && devices.len() > 0 ==> cursor < devices.len()),
        Screen::ChannelPicker { cursor, .. } => is_down(key) ==> cursor < usize::MAX,
        Screen::KeyPicker { keys, cursor, .. } => (is_down(key) ==> cursor < usize::MAX)
            && (key.code == KeyCode::Enter ==> cursor < keys.len()),
        _ => true,
    }
}

/// Whether time can pass to `now` in `app`: a celebration that runs out needs notes to
/// pick the next target from.
pub open spec fn tick_allowed<D, E>(app: App<D, E>, now: u64) -> bool {
    match app.screen {
        Screen::Drill { pool, state: DrillState::Celebrating { expires_at, .. }, .. } => now >= expires_at
            ==> pool.len() > 0,
        _ => true,
    }
}

impl<D, E> App<D, E> {
    pub open spec fn wf(self) -> bool {
        screen_wf(self.screen)
    }
}

/// `new` is `old` with the screen replaced.
pub open spec fn with_screen<D, E>(old: App<D, E>, new: App<D, E>, s: Screen<D, E>) -> bool {
    new == App { screen: s, ..old }
}

/// How a key press changes the application: `new` and `t` are the state and the
/// instruction to the caller after pressing `key` in state `old`.
pub open spec fn key_step<D, E>(old: App<D, E>, key: KeyPress, new: App<D, E>, t: Transition<D>) -> bool {
    if is_ctrl_c(key) {
        new == old && t is Quit
    } else {
        match old.screen {
            Screen::DevicePicker { devices, cursor } => {
                if is_up(key) {
                    with_screen(old, new, Screen::DevicePicker { devices, cursor: cursor_up(cursor) }) && t is Stay
                } else if is_down(key) {
                    with_screen(old, new, Screen::DevicePicker { devices, cursor: cursor_down(cursor, devices.len() as int) })
                        && t is Stay
                } else if key.code == KeyCode::Char('q') || key.code == KeyCode::Esc {
                    new == old && t is Quit
                } else if key.code == KeyCode::Enter && devices.len() > 0 {
                    let chosen = devices@[cursor as int];
                    let info = chosen.1;
                    &&& t is Stay
                    &&& new.status == old.status
                    &&& new.config == StoredConfig { device_name: Some(info.name), ..old.config }
                    &&& new.screen == Screen::<D, E>::ChannelPicker {
                        device: chosen.0,
                        device_name: info.name,
                        channels: info.max_input_channels,
                        cursor: channel_cursor(old.config, info.max_input_channels),
                    }
                } else {
                    new == old && t is Stay
                }
            },
            Screen::ChannelPicker { device, device_name, channels, cursor } => {
                if is_up(key) {
                    with_screen(old, new, Screen::ChannelPicker { device, device_name, channels, cursor: cursor_up(cursor) })
                        && t is Stay
                } else if is_down(key) {
                    with_screen(
                        old,
                        new,
                        Screen::ChannelPicker { device, device_name, channels, cursor: cursor_down(cursor, channels as int) },
                    ) && t is Stay
                } else if key.code == KeyCode::Char('q') {
                    new == old && t is Quit
                } else if key.code == KeyCode::Esc {
                    with_screen(old, new, Screen::Transitioning) && t is ReloadDevices
                } else if key.code == KeyCode::Enter {
                    let config = StoredConfig { channel: Some(cursor as u16), ..old.config };
                    &&& t is Stay
                    &&& new.status == old.status
                    &&& new.config == config
                    &&& new.screen matches Screen::KeyPicker { device: d, device_name: n, channel: c, keys, cursor: kc }
                    &&& d == device && n == device_name && c == cursor as u16
                    &&& keys@ == all_keys()
                    &&& kc == key_cursor(config)
                } else {
                    new == old && t is Stay
                }
            },
            Screen::KeyPicker { device, device_name, channel, keys, cursor } => {
                if is_up(key) {
                    with_screen(old, new, Screen::KeyPicker { device, device_name, channel, keys, cursor: cursor_up(cursor) })
                        && t is Stay
                } else if is_down(key) {
                    with_screen(
                        old,
                        new,
                        Screen::KeyPicker { device, device_name, channel, keys, cursor: cursor_down(cursor, keys.len() as int) },
                    ) && t is Stay
                } else if key.code == KeyCode::Char('q') {
                    new == old && t is Quit
                } else if key.code == KeyCode::Esc {
                    with_screen(old, new, Screen::Transitioning) && t is ReloadDevices
                } else if key.code == KeyCode::Enter {
                    let selected = keys@[cursor as int];
                    &&& new.screen is Transitioning
                    &&& new.status == old.status
                    &&& new.config == StoredConfig { key_root_pc: Some(selected.root_pc), key_mode: Some(selected.mode), ..old.config }
                    &&& t == Transition::StartCapture { device, device_name, channel, key: selected }
                } else {
                    new == old && t is Stay
                }
            },
            Screen::Drill { .. } => {
                new == old && (if key.code == KeyCode::Esc || key.code == KeyCode::Char('q') {
                    t is Quit
                } else {
                    t is Stay
                })
            },
            Screen::Transitioning => new == old && t is Stay,
        }
    }
}

/// One pitch detection applied to the drill progress.
pub open spec fn drill_step(state: DrillState, heard: Note, now: u64) -> DrillState {
    match state {
        DrillState::Listening { target, consecutive_hits } => {
            if heard.midi == target.midi {
                let hits = if consecutive_hits < u8::MAX { (consecutive_hits + 1) as u8 } else { consecutive_hits };
                if hits >= REQUIRED_HITS {
                    DrillState::Celebrating { note: target, expires_at: (now + CELEBRATION_DURATION_MS) as u64 }
                } else {
                    DrillState::Listening { target, consecutive_hits: hits }
                }
            } else {
                DrillState::Listening { target, consecutive_hits: 0 }
            }
        },
        DrillState::Celebrating { .. } => state,
    }
}

/// A note that `pick_next_note` may return: one of the pool, and not the avoided pitch
/// when the pool has another.
pub open spec fn acceptable_next(pool: Seq<Note>, avoid: Option<Note>, n: Note) -> bool {
    &&& pool.contains(n)
    &&& (avoid matches Some(a) && (exists|i: int| 0 <= i < pool.len() && pool[i].midi != a.midi)) ==> n.midi
        != avoid->0.midi
}

/// A fresh drill screen for `key`: its whole pool, a first target from it, no hits yet.
pub open spec fn fresh_drill<D, E>(s: Screen<D, E>, device_name: String, channel: u16, key: Key) -> bool {
    &&& s matches Screen::Drill { device_name: n, channel: c, key: k, pool, state, last_detected }
    &&& n == device_name && c == channel && k == key
    &&& pool@ == drill_pool_spec(key)
    &&& state matches DrillState::Listening { target, consecutive_hits }
    &&& consecutive_hits == 0
    &&& acceptable_next(pool@, None, target)
    &&& last_detected is None
}

/// How the passage of time changes the application at `now`: a celebration that has run
/// out gives way to a new target, different from the one just confirmed where the pool
/// allows it.
pub open spec fn tick_step<D, E>(old: App<D, E>, now: u64, new: App<D, E>) -> bool {
    match old.screen {
        Screen::Drill { device_name, channel, key, pool, state: DrillState::Celebrating { note, expires_at }, .. } => {
            if now >= expires_at {
                &&& new.config == old.config && new.status == old.status
                &&& new.screen matches Screen::Drill { device_name: n, channel: c, key: k, pool: p, state, last_detected }
                &&& n == device_name && c == channel && k == key && p == pool
                &&& state matches DrillState::Listening { target, consecutive_hits }
                &&& consecutive_hits == 0
                &&& acceptable_next(pool@, Some(note), target)
                &&& last_detected is None
            } else {
                new == old
            }
        },
        _ => new == old,
    }
}

// ---------------------------------------------------------------------------------------
// Lemmas

/// Four matching detections in a row confirm the target; three do not.
pub proof fn lemma_required_hits_confirm(target: Note, heard: Note, t1: u64, t2: u64, t3: u64, t4: u64)
    requires
        heard.midi == target.midi,
        t4 <= u64::MAX - CELEBRATION_DURATION_MS,
    ensures
        ({
            let s0 = DrillState::Listening { target, consecutive_hits: 0 };
            let s3 = drill_step(drill_step(drill_step(s0, heard, t1), heard, t2), heard, t3);
            &&& s3 == DrillState::Listening { target, consecutive_hits: 3 }
            &&& drill_step(s3, heard, t4) == DrillState::Celebrating { note: target, expires_at: (t4 + CELEBRATION_DURATION_MS) as u64 }
        }),
{
}

/// A wrong note among matching detections sends the count back to zero: three matches,
/// a wrong note, and three more matches leave three hits and the note unconfirmed.
pub proof fn lemma_wrong_note_in_between(target: Note, heard: Note, wrong: Note, t: u64)
    requires
        heard.midi == target.midi,
        wrong.midi != target.midi,
    ensures
        ({
            let s0 = DrillState::Listening { target, consecutive_hits: 0 };
            let s3 = drill_step(drill_step(drill_step(s0, heard, t), heard, t), heard, t);
            let s4 = drill_step(s3, wrong, t);
            &&& s4 == s0
            &&& drill_step(drill_step(drill_step(s4, heard, t), heard, t), heard, t) == s3
            &&& s3 == DrillState::Listening { target, consecutive_hits: 3 }
        }),
{
}

/// A wrong note while listening sends the count of hits back to zero.
pub proof fn lemma_wrong_note_resets(target: Note, hits: u8, heard: Note, now: u64)
    requires
        heard.midi != target.midi,
    ensures
        (drill_step(DrillState::Listening { target, consecutive_hits: hits }, heard, now)
            == DrillState::Listening { target, consecutive_hits: 0 }),
{
}

/// While a confirmed note is shown, detections change nothing.
pub proof fn lemma_celebration_ignores_detections(note: Note, expires_at: u64, heard: Note, now: u64)
    ensures
        (drill_step(DrillState::Celebrating { note, expires_at }, heard, now)
            == DrillState::Celebrating { note, expires_at }),
{
}

/// A remembered device, channel or key that is still on offer is where its cursor starts.
pub proof fn lemma_cursors_restore_choices<D>(devices: Seq<(D, DeviceInfo)>, config: StoredConfig, channels: u16)
    requires
        devices.len() <= usize::MAX,
    ensures
        (config.device_name matches Some(name) && exists|i: int| 0 <= i < devices.len() && devices[i].1.name@ == name@)
            ==> devices[device_cursor(devices, config) as int].1.name@ == config.device_name->0@,
        (config.channel matches Some(c) && c < channels) ==> channel_cursor(config, channels) == config.channel->0,
        (stored_key(config) matches Some(k) && all_keys().contains(k)) ==> all_keys()[key_cursor(config) as int]
            == stored_key(config)->0,
{
    match config.device_name {
        Some(name) => {
            let p = named::<D>(name@);
            lemma_first_index(devices, p);
            if exists|i: int| 0 <= i < devices.len() && devices[i].1.name@ == name@ {
                let i = choose|i: int| 0 <= i < devices.len() && devices[i].1.name@ == name@;
                assert(p(devices[i]));
                let f = first_index(devices, p);
                assert(f >= 0);
                assert(p(devices[f]));
                assert(device_cursor(devices, config) == f);
            }
        },
        None => {},
    }
    match stored_key(config) {
        Some(k) => {
            let p = is_key(k);
            lemma_first_index(all_keys(), p);
            if all_keys().contains(k) {
                let i = choose|i: int| 0 <= i < all_keys().len() && all_keys()[i] == k;
                assert(p(all_keys()[i]));
                let f = first_index(all_keys(), p);
                assert(f >= 0);
                assert(key_cursor(config) == f);
            }
        },
        None => {},
    }
}

/// In every picker, Up (or `k`) moves the cursor one entry up, except on the first entry,
/// where it stays; Down (or `j`) moves it one entry down, except on the last, where it
/// stays. Nothing else changes and the caller stays put.
pub proof fn lemma_picker_cursor_moves<D, E>(old: App<D, E>, new: App<D, E>, t: Transition<D>, key: KeyPress)
    requires
        key_step(old, key, new, t),
        !is_ctrl_c(key),
        key.code == KeyCode::Up || key.code == KeyCode::Char('k') || key.code == KeyCode::Down
            || key.code == KeyCode::Char('j'),
    ensures
        ({
            let up = key.code == KeyCode::Up || key.code == KeyCode::Char('k');
            match old.screen {
                Screen::DevicePicker { devices, cursor } => {
                    &&& t is Stay
                    &&& new.config == old.config && new.status == old.status
                    &&& new.screen matches Screen::DevicePicker { devices: d, cursor: c }
                    &&& d == devices
                    &&& c == if up {
                        if cursor > 0 { cursor - 1 } else { 0 }
                    } else {
                        if cursor + 1 < devices.len() { cursor + 1 } else { cursor as int }
                    }
                },
                Screen::ChannelPicker { device, device_name, channels, cursor } => {
                    &&& t is Stay
                    &&& new.config == old.config && new.status == old.status
                    &&& new.screen matches Screen::ChannelPicker { device: d, device_name: n, channels: k, cursor: c }
                    &&& d == device && n == device_name && k == channels
                    &&& c == if up {
                        if cursor > 0 { cursor - 1 } else { 0 }
                    } else {
                        if cursor + 1 < channels { cursor + 1 } else { cursor as int }
                    }
                },
                Screen::KeyPicker { device, device_name, channel, keys, cursor } => {
                    &&& t is Stay
                    &&& new.config == old.config && new.status == old.status
                    &&& new.screen matches Screen::KeyPicker { device: d, device_name: n, channel: ch, keys: ks, cursor: c }
                    &&& d == device && n == device_name && ch == channel && ks == keys
                    &&& c == if up {
                        if cursor > 0 { cursor - 1 } else { 0 }
                    } else {
                        if cursor + 1 < keys.len() { cursor + 1 } else { cursor as int }
                    }
                },
                _ => true,
            }
        }),
{
}

/// A press of Control-C quits from every screen and changes nothing.
pub proof fn lemma_ctrl_c_quits<D, E>(old: App<D, E>, new: App<D, E>, t: Transition<D>, key: KeyPress)
    requires
        is_ctrl_c(key),
        key_step(old, key, new, t),
    ensures
        new == old,
        t is Quit,
{
}

// ---------------------------------------------------------------------------------------
// Code

/// Picks one note of `candidates` at random.
///
/// Calls `rand`'s `SliceRandom::choose` with the thread-local generator; the crate's
/// source returns an element of a non-empty slice, so the contract claims only that the
/// note comes from `candidates`. Which one it is rests on chance and is not stated.
#[verifier::external_body]
fn choose_note(candidates: &[Note]) -> (r: Note)
    requires
        candidates@.len() > 0,
    ensures
        candidates@.contains(r),
{
    *candidates.choose(&mut rand::thread_rng()).unwrap()
}

/// A random note of `pool`, avoiding `avoid` whenever the pool has another pitch.
pub fn pick_next_note(pool: &[Note], avoid: Option<Note>) -> (r: Note)
    requires
        pool@.len() > 0,
    ensures
        acceptable_next(pool@, avoid, r),
{
    let mut candidates: Vec<Note> = Vec::new();
    let mut i: usize = 0;
    while i < pool.len()
        invariant
            i <= pool@.len(),
            forall|j: int| 0 <= j < candidates@.len() ==> pool@.contains(#[trigger] candidates@[j]),
            forall|j: int| 0 <= j < candidates@.len() ==> (avoid matches Some(a) ==> (#[trigger] candidates@[j]).midi != a.midi),
            forall|j: int| 0 <= j < i && (avoid matches Some(a) ==> (#[trigger] pool@[j]).midi != a.midi) ==> candidates@.len() > 0,
        decreases pool@.len() - i,
    {
        let n = pool[i];
        let keep = match avoid {
            Some(a) => a.midi != n.midi,
            None => true,
        };
        if keep {
            candidates.push(n);
            assert(candidates@[candidates@.len() - 1] == pool@[i as int]);
        }
        i += 1;
    }
    if candidates.len() == 0 {
        choose_note(pool)
    } else {
        let r = choose_note(candidates.as_slice());
        assert(pool@.contains(r)) by {
            let j = choose|j: int| 0 <= j < candidates@.len() && candidates@[j] == r;
            assert(pool@.contains(candidates@[j]));
        }
        r
    }
}

/// A drill screen for `key`, asking for a random first note of its pool.
pub fn build_drill_screen<D, E>(device_name: String, channel: u16, key: Key) -> (s: Screen<D, E>)
    requires
        key_range_fits(key, SOUNDING_MIN_MIDI as int, SOUNDING_MAX_MIDI as int),
    ensures
        fresh_drill(s, device_name, channel, key),
        screen_wf(s),
{
    let pool = drill_pool(key);
    proof {
        lemma_drill_pool(key);
    }
    let first = pick_next_note(pool.as_slice(), None);
    Screen::Drill {
        device_name,
        channel,
        key,
        pool,
        state: DrillState::Listening { target: first, consecutive_hits: 0 },
        last_detected: None,
    }
}

/// Index of the device called `name`, or 0.
fn find_device<D>(devices: &Vec<(D, DeviceInfo)>, name: &String) -> (r: usize)
    ensures
        r == index_or_zero(first_index(devices@, named::<D>(name@))),
{
    let ghost p = named::<D>(name@);
    let mut i: usize = 0;
    while i < devices.len()
        invariant
            i <= devices@.len(),
            p == (named::<D>(name@)),
            forall|j: int| 0 <= j < i ==> !p(#[trigger] devices@[j]),
        decreases devices@.len() - i,
    {
        let same = devices[i].1.name == *name;
        if same {
            proof {
                lemma_scan_finds_first(devices@, p, i as int);
            }
            return i;
        }
        i += 1;
    }
    proof {
        lemma_scan_finds_first(devices@, p, i as int);
    }
    0
}

/// Index of `k` in `keys`, or 0.
fn find_key(keys: &Vec<Key>, k: Key) -> (r: usize)
    ensures
        r == index_or_zero(first_index(keys@, is_key(k))),
{
    let ghost p = is_key(k);
    let mut i: usize = 0;
    while i < keys.len()
        invariant
            i <= keys@.len(),
            p == (is_key(k)),
            forall|j: int| 0 <= j < i ==> !p(#[trigger] keys@[j]),
        decreases keys@.len() - i,
    {
        let same = keys[i] == k;
        if same {
            proof {
                lemma_scan_finds_first(keys@, p, i as int);
            }
            return i;
        }
        i += 1;
    }
    proof {
        lemma_scan_finds_first(keys@, p, i as int);
    }
    0
}

fn initial_device_cursor<D>(devices: &Vec<(D, DeviceInfo)>, config: &StoredConfig) -> (r: usize)
    ensures
        r == device_cursor(devices@, *config),
        devices@.len() == 0 || r < devices@.len(),
{
    proof {
        match &config.device_name {
            Some(name) => lemma_first_index(devices@, named::<D>(name@)),
            None => {},
        }
    }
    match &config.device_name {
        Some(name) => find_device(devices, name),
        None => 0,
    }
}

impl<D, E> App<D, E> {
    /// Whether the cursors point into their lists and a drill has notes to ask for.
    pub fn well_formed(&self) -> (r: bool)
        ensures
            r == self.wf(),
    {
        match &self.screen {
            Screen::DevicePicker { devices, cursor } => devices.len() == 0 || *cursor < devices.len(),
            Screen::ChannelPicker { channels, cursor, .. } => *cursor == 0 || *cursor < *channels as usize,
            Screen::KeyPicker { keys, cursor, .. } => *cursor < keys.len(),
            Screen::Drill { pool, .. } => pool.len() > 0,
            Screen::Transitioning => true,
        }
    }

    /// Whether `handle_key` can take `key` in this state.
    pub fn can_handle_key(&self, key: KeyPress) -> (r: bool)
        ensures
            r == key_allowed(*self, key),
    {
        if key.ctrl && key.code == KeyCode::Char('c') {
            return true;
        }
        let down = key.code == KeyCode::Down || key.code == KeyCode::Char('j');
        let enter = key.code == KeyCode::Enter;
        match &self.screen {
            Screen::DevicePicker { devices, cursor } => (!down || *cursor < usize::MAX)
                && (!(enter && devices.len() > 0) || *cursor < devices.len()),
            Screen::ChannelPicker { cursor, .. } => !down || *cursor < usize::MAX,
            Screen::KeyPicker { keys, cursor, .. } => (!down || *cursor < usize::MAX)
                && (!enter || *cursor < keys.len()),
            _ => true,
        }
    }

    /// Whether `tick` can let time pass to `now_ms` in this state.
    pub fn can_tick(&self, now_ms: u64) -> (r: bool)
        ensures
            r == tick_allowed(*self, now_ms),
    {
        match &self.screen {
            Screen::Drill { pool, state: DrillState::Celebrating { expires_at, .. }, .. } => now_ms < *expires_at
                || pool.len() > 0,
            _ => true,
        }
    }

    pub fn new(devices: Vec<(D, DeviceInfo)>, config: StoredConfig) -> (app: App<D, E>)
        ensures
            (app.screen == Screen::<D, E>::DevicePicker { devices, cursor: device_cursor(devices@, config) }),
            app.config == config,
            app.status is None,
            app.wf(),
    {
        let cursor = initial_device_cursor(&devices, &config);
        App { screen: Screen::DevicePicker { devices, cursor }, config, status: None }
    }

    pub fn handle_key(&mut self, key: KeyPress) -> (t: Transition<D>)
        requires
            key_allowed(*old(self), key),
        ensures
            key_step(*old(self), key, *final(self), t),
            old(self).wf() ==> final(self).wf(),
    {
        if key.ctrl && key.code == KeyCode::Char('c') {
            return Transition::Quit;
        }
        let is_up = key.code == KeyCode::Up || key.code == KeyCode::Char('k');
        let is_down = key.code == KeyCode::Down || key.code == KeyCode::Char('j');
        let mut screen = Screen::Transitioning;
        std::mem::swap(&mut screen, &mut self.screen);
        match screen {
            Screen::DevicePicker { mut devices, mut cursor } => {
                let mut next = Transition::Stay;
                if is_up {
                    if cursor > 0 {
                        cursor -= 1;
                    }
                    self.screen = Screen::DevicePicker { devices, cursor };
                } else if is_down {
                    if cursor + 1 < devices.len() {
                        cursor += 1;
                    }
                    self.screen = Screen::DevicePicker { devices, cursor };
                } else if key.code == KeyCode::Char('q') || key.code == KeyCode::Esc {
                    next = Transition::Quit;
                    self.screen = Screen::DevicePicker { devices, cursor };
                } else if key.code == KeyCode::Enter {
                    if devices.len() == 0 {
                        self.screen = Screen::DevicePicker { devices, cursor };
                    } else {
                        let (device, info) = devices.swap_remove(cursor);
                        let device_name = info.name.clone();
                        self.config.device_name = Some(device_name.clone());
                        let channel_cursor = match self.config.channel {
                            Some(c) => if c < info.max_input_channels { c as usize } else { 0 },
                            None => 0,
                        };
                        self.screen = Screen::ChannelPicker {
                            device,
                            device_name,
                            channels: info.max_input_channels,
                            cursor: channel_cursor,
                        };
                    }
                } else {
                    self.screen = Screen::DevicePicker { devices, cursor };
                }
                next
            },
            Screen::ChannelPicker { device, device_name, channels, mut cursor } => {
                let mut next = Transition::Stay;
                if is_up {
                    if cursor > 0 {
                        cursor -= 1;
                    }
                    self.screen = Screen::ChannelPicker { device, device_name, channels, cursor };
                } else if is_down {
                    if cursor + 1 < channels as usize {
                        cursor += 1;
                    }
                    self.screen = Screen::ChannelPicker { device, device_name, channels, cursor };
                } else if key.code == KeyCode::Char('q') {
                    next = Transition::Quit;
                    self.screen = Screen::ChannelPicker { device, device_name, channels, cursor };
                } else if key.code == KeyCode::Esc {
                    next = Transition::ReloadDevices;
                } else if key.code == KeyCode::Enter {
                    let chan = cursor as u16;
                    self.config.channel = Some(chan);
                    let keys = Key::all();
                    let key_cursor = match self.config.key() {
                        Some(k) => find_key(&keys, k),
                        None => 0,
                    };
                    proof {
                        match stored_key(self.config) {
                            Some(k) => lemma_first_index(all_keys(), is_key(k)),
                            None => {},
                        }
                    }
                    self.screen = Screen::KeyPicker {
                        device,
                        device_name,
                        channel: chan,
                        keys,
                        cursor: key_cursor,
                    };
                } else {
                    self.screen = Screen::ChannelPicker { device, device_name, channels, cursor };
                }
                next
            },
            Screen::KeyPicker { device, device_name, channel, keys, mut cursor } => {
                let mut next = Transition::Stay;
                if is_up {
                    if cursor > 0 {
                        cursor -= 1;
                    }
                    self.screen = Screen::KeyPicker { device, device_name, channel, keys, cursor };
                } else if is_down {
                    if cursor + 1 < keys.len() {
                        cursor += 1;
                    }
                    self.screen = Screen::KeyPicker { device, device_name, channel, keys, cursor };
                } else if key.code == KeyCode::Char('q') {
                    next = Transition::Quit;
                    self.screen = Screen::KeyPicker { device, device_name, channel, keys, cursor };
                } else if key.code == KeyCode::Esc {
                    next = Transition::ReloadDevices;
                } else if key.code == KeyCode::Enter {
                    let selected_key = keys[cursor];
                    self.config.set_key(selected_key);
                    next = Transition::StartCapture { device, device_name, channel, key: selected_key };
                } else {
                    self.screen = Screen::KeyPicker { device, device_name, channel, keys, cursor };
                }
                next
            },
            Screen::Drill { device_name, channel, key: musical_key, pool, state, last_detected } => {
                let next = if key.code == KeyCode::Esc || key.code == KeyCode::Char('q') {
                    Transition::Quit
                } else {
                    Transition::Stay
                };
                self.screen = Screen::Drill { device_name, channel, key: musical_key, pool, state, last_detected };
                next
            },
            Screen::Transitioning => {
                Transition::Stay
            },
        }
    }

    /// Shows the device list again, with the cursor on the remembered device.
    pub fn reset_to_device_picker(&mut self, devices: Vec<(D, DeviceInfo)>)
        ensures
            (final(self).screen == Screen::<D, E>::DevicePicker { devices, cursor: device_cursor(devices@, old(self).config) }),
            final(self).config == old(self).config,
            final(self).status == old(self).status,
            final(self).wf(),
    {
        let cursor = initial_device_cursor(&devices, &self.config);
        self.screen = Screen::DevicePicker { devices, cursor };
    }

    /// After the audio stream failed to start: says so in the status line, with `reason`,
    /// and shows the device list again.
    pub fn capture_failed(&mut self, reason: &str, devices: Vec<(D, DeviceInfo)>)
        ensures
            final(self).status matches Some(s) && s@ == "audio start failed: "@ + reason@,
            (final(self).screen == Screen::<D, E>::DevicePicker { devices, cursor: device_cursor(devices@, old(self).config) }),
            final(self).config == old(self).config,
            final(self).wf(),
    {
        let mut message = String::from_str("audio start failed: ");
        message.append(reason);
        self.status = Some(message);
        self.reset_to_device_picker(devices);
    }

    pub fn enter_drill(&mut self, device_name: String, channel: u16, key: Key)
        requires
            key_range_fits(key, SOUNDING_MIN_MIDI as int, SOUNDING_MAX_MIDI as int),
        ensures
            fresh_drill(final(self).screen, device_name, channel, key),
            final(self).config == old(self).config,
            final(self).status == old(self).status,
            final(self).wf(),
    {
        self.screen = build_drill_screen(device_name, channel, key);
    }

    /// Applies a pitch detection heard at `now_ms`: `heard` is the detected note and
    /// `event` the record kept for display.
    pub fn on_pitch_event(&mut self, heard: Note, event: E, now_ms: u64)
        requires
            now_ms <= u64::MAX - CELEBRATION_DURATION_MS,
        ensures
            match old(self).screen {
                Screen::Drill { device_name, channel, key, pool, state, .. } => *final(self) == App {
                    screen: Screen::Drill {
                        device_name,
                        channel,
                        key,
                        pool,
                        state: drill_step(state, heard, now_ms),
                        last_detected: Some(event),
                    },
                    ..*old(self)
                },
                _ => *final(self) == *old(self),
            },
            old(self).wf() ==> final(self).wf(),
    {
        let mut screen = Screen::Transitioning;
        std::mem::swap(&mut screen, &mut self.screen);
        match screen {
            Screen::Drill { device_name, channel, key, pool, state, last_detected: _ } => {
                let new_state = match state {
                    DrillState::Listening { target, consecutive_hits } => {
                        if heard.midi == target.midi {
                            let hits = consecutive_hits.saturating_add(1);
                            if hits >= REQUIRED_HITS {
                                DrillState::Celebrating {
                                    note: target,
                                    expires_at: now_ms + CELEBRATION_DURATION_MS,
                                }
                            } else {
                                DrillState::Listening { target, consecutive_hits: hits }
                            }
                        } else {
                            DrillState::Listening { target, consecutive_hits: 0 }
                        }
                    },
                    DrillState::Celebrating { .. } => state,
                };
                self.screen = Screen::Drill {
                    device_name,
                    channel,
                    key,
                    pool,
                    state: new_state,
                    last_detected: Some(event),
                };
            },
            other => {
                self.screen = other;
            },
        }
    }

    /// Lets time pass to `now_ms`: moves on from a confirmed note once its time is up.
    pub fn tick(&mut self, now_ms: u64)
        requires
            tick_allowed(*old(self), now_ms),
        ensures
            tick_step(*old(self), now_ms, *final(self)),
            old(self).wf() ==> final(self).wf(),
    {
        let mut screen = Screen::Transitioning;
        std::mem::swap(&mut screen, &mut self.screen);
        match screen {
            Screen::Drill { device_name, channel, key, pool, state, last_detected } => {
                match state {
                    DrillState::Celebrating { note, expires_at } => {
                        if now_ms >= expires_at {
                            let next = pick_next_note(pool.as_slice(), Some(note));
                            self.screen = Screen::Drill {
                                device_name,
                                channel,
                                key,
                                pool,
                                state: DrillState::Listening { target: next, consecutive_hits: 0 },
                                last_detected: None,
                            };
                        } else {
                            self.screen = Screen::Drill { device_name, channel, key, pool, state, last_detected };
                        }
                    },
                    DrillState::Listening { .. } => {
                        self.screen = Screen::Drill { device_name, channel, key, pool, state, last_detected };
                    },
                }
            },
            other => {
                self.screen = other;
            },
        }
    }
}

} // verus!
