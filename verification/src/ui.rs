//! What the screens say and where the staff and the tab put things; the drawing itself
//! is left to the terminal front end.
use vstd::prelude::*;

use crate::app::{DrillState, REQUIRED_HITS};
use crate::audio::DeviceInfo;
use crate::music::{
    Key, Mode, Note, MAX_FRET, STRING_OPEN_MIDI, append_decimal, append_digits, decimal, digits,
    drill_pool, drill_pool_spec, fret_positions, fret_positions_spec, lemma_fret_positions, FretPosition, key_label, key_range_fits,
    note_label, note_name_spec, lemma_note_names, octave_of, pitch_class_of, string_open, SOUNDING_MIN_MIDI, SOUNDING_MAX_MIDI,
};

verus! {

/// Staff steps (one per letter name) from C of octave 0, for each pitch class.
pub const LETTER_STEP: [i32; 12] = [0, 0, 1, 1, 2, 3, 3, 4, 4, 5, 5, 6];

/// Which pitch classes are written with a sharp.
pub const IS_SHARP: [bool; 12] = [false, true, false, true, false, false, true, false, true, false, true, false];

pub open spec fn letter_step(pc: int) -> int {
    if pc <= 1 { 0 }
    else if pc <= 3 { 1 }
    else if pc == 4 { 2 }
    else if pc <= 6 { 3 }
    else if pc <= 8 { 4 }
    else if pc <= 10 { 5 }
    else { 6 }
}

pub open spec fn is_sharp_pc(pc: int) -> bool {
    pc == 1 || pc == 3 || pc == 6 || pc == 8 || pc == 10
}

/// Staff step of a sounding pitch: bass parts are written an octave above the sound,
/// and each octave spans seven letter steps.
pub open spec fn staff_step_spec(sounding_midi: int) -> int {
    let written = sounding_midi + 12;
    7 * octave_of(written) + letter_step(pitch_class_of(written))
}

/// Where a note sits on the staff, and whether it needs a sharp sign.
pub fn staff_step(sounding_midi: i32) -> (r: (i32, bool))
    requires
        sounding_midi <= i32::MAX - 12,
    ensures
        r.0 == staff_step_spec(sounding_midi as int),
        r.1 == is_sharp_pc(pitch_class_of(sounding_midi as int)),
{
    let written = sounding_midi + 12;
    let pc = Note::from_midi(written).pitch_class();
    let octave = Note::from_midi(written).octave();
    proof {
        assert(pitch_class_of(written as int) == pitch_class_of(sounding_midi as int));
    }
    let letter = LETTER_STEP[pc as usize];
    assert(letter == letter_step(pc as int));
    let sharp = IS_SHARP[pc as usize];
    assert(sharp == is_sharp_pc(pc as int));
    (7 * octave + letter, sharp)
}

/// Steps of the ledger lines a note at `step` needs: below the staff, from the first line
/// under it down to the note; above, from the first line over it up to the note.
pub open spec fn ledger_steps_spec(step: int) -> Seq<i32> {
    if step < 18 {
        Seq::new(if step <= 16 { ((16 - step) / 2 + 1) as nat } else { 0 }, |i: int| (16 - 2 * i) as i32)
    } else if step > 26 {
        Seq::new(if step >= 28 { ((step - 28) / 2 + 1) as nat } else { 0 }, |i: int| (28 + 2 * i) as i32)
    } else {
        Seq::empty()
    }
}

pub fn ledger_steps(step: i32) -> (r: Vec<i32>)
    requires
        i32::MIN + 2 <= step <= i32::MAX - 2,
    ensures
        r@ == ledger_steps_spec(step as int),
{
    let mut out: Vec<i32> = Vec::new();
    if step < 18 {
        let mut s: i32 = 16;
        while s >= step
            invariant
                i32::MIN + 2 <= step < 18,
                s <= 16,
                (16 - s) % 2 == 0,
                s >= step - 2,
                out@ == Seq::new(((16 - s) / 2) as nat, |i: int| (16 - 2 * i) as i32),
            decreases s - step + 2,
        {
            out.push(s);
            proof {
                assert(out@ =~= Seq::new(((16 - (s - 2)) / 2) as nat, |i: int| (16 - 2 * i) as i32));
            }
            s -= 2;
        }
        proof {
            assert(out@ =~= ledger_steps_spec(step as int));
        }
    } else if step > 26 {
        let mut s: i32 = 28;
        while s <= step
            invariant
                26 < step <= i32::MAX - 2,
                s >= 28,
                (s - 28) % 2 == 0,
                s <= step + 2,
                out@ == Seq::new(((s - 28) / 2) as nat, |i: int| (28 + 2 * i) as i32),
            decreases step + 2 - s,
        {
            out.push(s);
            proof {
                assert(out@ =~= Seq::new(((s + 2 - 28) / 2) as nat, |i: int| (28 + 2 * i) as i32));
            }
            s += 2;
        }
        proof {
            assert(out@ =~= ledger_steps_spec(step as int));
        }
    }
    out
}

/// One fret column of a tab line.
#[derive(Debug, Clone, Copy, PartialEq, Eq, Structural)]
pub enum TabCell {
    Empty,
    Fret(i32),
}

/// The cell of fret `fret` on string `s`: the fret number where it sounds the revealed
/// note, blank otherwise.
pub open spec fn tab_cell_spec(s: int, fret: int, reveal_for: Option<Note>) -> TabCell {
    match reveal_for {
        Some(n) => if n.midi - string_open(s) == fret { TabCell::Fret(fret as i32) } else { TabCell::Empty },
        None => TabCell::Empty,
    }
}

/// The frets 0 to `MAX_FRET` of string `string_index`, with the revealed note marked.
pub fn tab_row(string_index: usize, reveal_for: Option<Note>) -> (r: Vec<TabCell>)
    requires
        string_index < 4,
        reveal_for matches Some(n) ==> n.midi >= i32::MIN + 43,
    ensures
        r@.len() == MAX_FRET + 1,
        forall|f: int| 0 <= f <= MAX_FRET ==> r@[f] == tab_cell_spec(string_index as int, f, reveal_for),
{
    let open_midi = STRING_OPEN_MIDI[string_index];
    assert(open_midi == string_open(string_index as int));
    let mut out: Vec<TabCell> = Vec::new();
    let mut fret: i32 = 0;
    while fret <= MAX_FRET
        invariant
            0 <= fret <= MAX_FRET + 1,
            open_midi == string_open(string_index as int),
            reveal_for matches Some(n) ==> n.midi >= i32::MIN + 43,
            out@.len() == fret,
            forall|f: int| 0 <= f < fret ==> out@[f] == tab_cell_spec(string_index as int, f, reveal_for),
        decreases MAX_FRET + 1 - fret,
    {
        let is_target = match reveal_for {
            Some(n) => n.midi - open_midi == fret,
            None => false,
        };
        if is_target {
            out.push(TabCell::Fret(fret));
        } else {
            out.push(TabCell::Empty);
        }
        fret += 1;
    }
    out
}

pub open spec fn tab_cell_text_spec(c: TabCell) -> Seq<char> {
    match c {
        TabCell::Empty => "--"@,
        TabCell::Fret(f) => if f >= 10 { decimal(f as int) } else { "-"@ + decimal(f as int) },
    }
}

impl TabCell {
    /// The two columns the cell takes in a tab line: `--` when blank, a one-digit fret
    /// after a dash.
    pub fn text(self) -> (r: String)
        ensures
            r@ == tab_cell_text_spec(self),
    {
        match self {
            TabCell::Empty => String::from_str("--"),
            TabCell::Fret(f) => {
                let mut out = if f >= 10 { String::new() } else { String::from_str("-") };
                append_decimal(&mut out, f);
                out
            },
        }
    }
}

/// Letter of each string, lowest first.
pub open spec fn string_label_spec(s: int) -> Seq<char> {
    if s == 0 { "E"@ } else if s == 1 { "A"@ } else if s == 2 { "D"@ } else { "G"@ }
}

pub fn string_label(s: usize) -> (r: &'static str)
    requires
        s < 4,
    ensures
        r@ == string_label_spec(s as int),
{
    if s == 0 { "E" } else if s == 1 { "A" } else if s == 2 { "D" } else { "G" }
}

/// `s` shortened to at most `max` characters, with an ellipsis replacing what was cut.
pub open spec fn truncate_spec(s: Seq<char>, max: nat) -> Seq<char> {
    if s.len() <= max {
        s
    } else {
        s.subrange(0, if max >= 1 { max - 1 } else { 0 }) + "\u{2026}"@
    }
}

pub fn truncate(s: &str, max: usize) -> (r: String)
    ensures
        r@ == truncate_spec(s@, max as nat),
{
    let n = s.unicode_len();
    if n <= max {
        String::from_str(s)
    } else {
        let keep = if max >= 1 { max - 1 } else { 0 };
        let mut out = String::from_str(s.substring_char(0, keep));
        out.append("\u{2026}");
        out
    }
}

/// The target, whether it was just confirmed, and the hits so far, as the drill screen
/// shows them.
pub open spec fn drill_summary_spec(state: DrillState) -> (Note, bool, u8) {
    match state {
        DrillState::Listening { target, consecutive_hits } => (target, false, consecutive_hits),
        DrillState::Celebrating { note, .. } => (note, true, REQUIRED_HITS),
    }
}

pub fn drill_summary(state: &DrillState) -> (r: (Note, bool, u8))
    ensures
        r == drill_summary_spec(*state),
{
    match state {
        DrillState::Listening { target, consecutive_hits } => (*target, false, *consecutive_hits),
        DrillState::Celebrating { note, .. } => (*note, true, REQUIRED_HITS),
    }
}

/// The note whose tab positions are shown: only a confirmed note's.
pub fn revealed_note(state: &DrillState) -> (r: Option<Note>)
    ensures
        r == match *state {
            DrillState::Celebrating { note, .. } => Some(note),
            DrillState::Listening { .. } => None::<Note>,
        },
{
    match state {
        DrillState::Celebrating { note, .. } => Some(*note),
        DrillState::Listening { .. } => None,
    }
}

/// The device list entry: name and channel count.
pub fn device_item_label(info: &DeviceInfo) -> (r: String)
    ensures
        r@ == info.name@ + "  ("@ + digits(info.max_input_channels as nat) + " channels)"@,
{
    let mut out = info.name.clone();
    out.append("  (");
    append_digits(&mut out, info.max_input_channels as u64);
    out.append(" channels)");
    out
}

/// The channel list entry for channel `c`, counted from 0 and, for the player, from 1.
pub fn channel_item_label(c: u16) -> (r: String)
    requires
        c < u16::MAX,
    ensures
        r@ == "Channel "@ + digits(c as nat) + " (input "@ + digits((c + 1) as nat) + ")"@,
{
    let mut out = String::from_str("Channel ");
    append_digits(&mut out, c as u64);
    out.append(" (input ");
    append_digits(&mut out, (c + 1) as u64);
    out.append(")");
    out
}

/// The key list entry: the key and the size of its drill pool.
pub fn key_item_label(key: Key) -> (r: String)
    requires
        key.mode != Mode::Chromatic ==> 0 <= key.root_pc < 12,
        key_range_fits(key, SOUNDING_MIN_MIDI as int, SOUNDING_MAX_MIDI as int),
    ensures
        r@ == key_label(key) + "   ("@ + digits(drill_pool_spec(key).len()) + " notes in range)"@,
{
    let mut out = key.to_string();
    let pool = drill_pool(key);
    out.append("   (");
    append_digits(&mut out, pool.len() as u64);
    out.append(" notes in range)");
    out
}

/// Title of the channel list.
pub fn channel_picker_title(device_name: &str) -> (r: String)
    ensures
        r@ == " Channel on "@ + truncate_spec(device_name@, 40) + " (enter=select, esc=back) "@,
{
    let mut out = String::from_str(" Channel on ");
    let name = truncate(device_name, 40);
    out.append(name.as_str());
    out.append(" (enter=select, esc=back) ");
    out
}

/// Title of the key list.
pub fn key_picker_title(device_name: &str, channel: u16) -> (r: String)
    ensures
        r@ == " Key  \u{2014}  "@ + truncate_spec(device_name@, 32) + "  ch"@ + digits(channel as nat)
            + "  (enter=select, esc=back) "@,
{
    let mut out = String::from_str(" Key  \u{2014}  ");
    let name = truncate(device_name, 32);
    out.append(name.as_str());
    out.append("  ch");
    append_digits(&mut out, channel as u64);
    out.append("  (enter=select, esc=back) ");
    out
}

/// First header line of the drill screen.
pub fn drill_header(key: Key, device_name: &str, channel: u16) -> (r: String)
    requires
        key.mode != Mode::Chromatic ==> 0 <= key.root_pc < 12,
    ensures
        r@ == "key: "@ + key_label(key) + "   device: "@ + truncate_spec(device_name@, 28) + "  ch"@
            + digits(channel as nat),
{
    let mut out = String::from_str("key: ");
    let k = key.to_string();
    out.append(k.as_str());
    out.append("   device: ");
    let name = truncate(device_name, 28);
    out.append(name.as_str());
    out.append("  ch");
    append_digits(&mut out, channel as u64);
    out
}

/// Second header line of the drill screen: the confirmation, or the hits so far.
pub fn drill_status_line(state: &DrillState) -> (r: String)
    ensures
        r@ == match *state {
            DrillState::Celebrating { note, .. } => "\u{2713} correct \u{2014} "@ + note_label(note.midi as int),
            DrillState::Listening { consecutive_hits, .. } => "play the note shown on the staff  (hits "@
                + digits(consecutive_hits as nat) + "/"@ + digits(REQUIRED_HITS as nat) + ")"@,
        },
{
    match state {
        DrillState::Celebrating { note, .. } => {
            let mut out = String::from_str("\u{2713} correct \u{2014} ");
            let label = note.to_string();
            out.append(label.as_str());
            out
        },
        DrillState::Listening { consecutive_hits, .. } => {
            let mut out = String::from_str("play the note shown on the staff  (hits ");
            append_digits(&mut out, *consecutive_hits as u64);
            out.append("/");
            append_digits(&mut out, REQUIRED_HITS as u64);
            out.append(")");
            out
        },
    }
}

/// Title of the tab panel: plain, or naming the revealed note and how many places sound it.
pub fn tab_title(reveal_for: Option<Note>) -> (r: String)
    requires
        reveal_for matches Some(n) ==> n.midi >= i32::MIN + 43,
    ensures
        r@ == match reveal_for {
            Some(n) => " Tab \u{2014} "@ + note_label(n.midi as int) + "  ("@
                + digits(fret_positions_spec(n.midi as int).len()) + " positions) "@,
            None => " Tab "@,
        },
{
    match reveal_for {
        Some(n) => {
            let count = fret_positions(n).len();
            let mut out = String::from_str(" Tab \u{2014} ");
            let label = n.to_string();
            out.append(label.as_str());
            out.append("  (");
            append_digits(&mut out, count as u64);
            out.append(" positions) ");
            out
        },
        None => String::from_str(" Tab "),
    }
}

/// A tab cell is marked exactly where the revealed note sounds: on string `s` at fret `f`
/// when the open string plus `f` semitones is the note, so the marked cells of the four
/// lines are exactly the note's fret positions. Nothing is marked when no note is revealed.
pub proof fn lemma_tab_marks_fret_positions(s: int, f: int, n: Note)
    requires
        0 <= s < 4,
        0 <= f <= MAX_FRET,
    ensures
        (tab_cell_spec(s, f, Some(n)) is Fret) <==> string_open(s) + f == n.midi,
        (tab_cell_spec(s, f, Some(n)) is Fret) ==> tab_cell_spec(s, f, Some(n)) == TabCell::Fret(f as i32),
        (tab_cell_spec(s, f, Some(n)) is Fret) <==> fret_positions_spec(n.midi as int).contains(
            FretPosition { string_index: s as usize, fret: f as i32 },
        ),
        tab_cell_spec(s, f, None) == TabCell::Empty,
{
    lemma_fret_positions(n.midi as int);
    let want = FretPosition { string_index: s as usize, fret: f as i32 };
    if fret_positions_spec(n.midi as int).contains(want) {
        let i = choose|i: int| 0 <= i < fret_positions_spec(n.midi as int).len()
            && fret_positions_spec(n.midi as int)[i] == want;
        assert(string_open(want.string_index as int) + want.fret == n.midi);
    }
}

/// Naturals sit on consecutive staff steps: the next natural above a natural (a semitone
/// up from E or B, a whole tone up otherwise) is written one step higher. The open E
/// string sits on step 16.
pub proof fn lemma_naturals_on_consecutive_steps(m: int)
    requires
        ({
            let pc = m % 12;
            pc == 0 || pc == 2 || pc == 4 || pc == 5 || pc == 7 || pc == 9 || pc == 11
        }),
    ensures
        ({
            let pc = m % 12;
            let next = if pc == 4 || pc == 11 { m + 1 } else { m + 2 };
            staff_step_spec(next) == staff_step_spec(m) + 1
        }),
        staff_step_spec(28) == 16,
{
    let w = m + 12;
    assert(pitch_class_of(w) == m % 12);
    if m % 12 == 11 {
        assert(octave_of(w + 1) == octave_of(w) + 1);
        assert(pitch_class_of(w + 1) == 0);
    } else if m % 12 == 4 {
        assert(octave_of(w + 1) == octave_of(w));
        assert(pitch_class_of(w + 1) == 5);
    } else {
        assert(octave_of(w + 2) == octave_of(w));
        assert(pitch_class_of(w + 2) == m % 12 + 2);
    }
}

/// A note is written with a sharp sign exactly when its name ends in `#`, that is, for
/// pitch classes 1, 3, 6, 8 and 10.
pub proof fn lemma_sharp_sign_matches_name(midi: int)
    ensures
        is_sharp_pc(pitch_class_of(midi)) <==> {
            let pc = pitch_class_of(midi);
            pc == 1 || pc == 3 || pc == 6 || pc == 8 || pc == 10
        },
        is_sharp_pc(pitch_class_of(midi)) <==> note_name_spec(pitch_class_of(midi)).last() == '#',
{
    lemma_note_names();
    reveal_strlit("C");
    reveal_strlit("D");
    reveal_strlit("E");
    reveal_strlit("F");
    reveal_strlit("G");
    reveal_strlit("A");
    reveal_strlit("B");
}

/// Moving a pitch up an octave moves its note seven steps up the staff.
pub proof fn lemma_staff_step_octave(midi: int)
    ensures
        staff_step_spec(midi + 12) == staff_step_spec(midi) + 7,
{
    assert(pitch_class_of(midi + 24) == pitch_class_of(midi + 12));
    assert(octave_of(midi + 24) == octave_of(midi + 12) + 1);
}

/// A sharp is written on the step of the natural a semitone below it.
pub proof fn lemma_sharp_shares_step(midi: int)
    requires
        is_sharp_pc(pitch_class_of(midi)),
    ensures
        staff_step_spec(midi) == staff_step_spec(midi - 1),
        !is_sharp_pc(pitch_class_of(midi - 1)),
{
    assert(octave_of(midi + 12) == octave_of(midi + 11));
    assert(pitch_class_of(midi + 11) == pitch_class_of(midi + 12) - 1);
}

} // verus!
