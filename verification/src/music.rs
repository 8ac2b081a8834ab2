//! Notes, keys and the fretboard of a four-string bass.
use vstd::prelude::*;

verus! {

/// Open-string pitches (MIDI numbers) of a standard-tuned bass, lowest string first.
pub const STRING_OPEN_MIDI: [i32; 4] = [28, 33, 38, 43];

/// Highest fret that a position may use.
pub const MAX_FRET: i32 = 20;

/// Lowest pitch that the instrument can sound (the open E string).
pub const SOUNDING_MIN_MIDI: i32 = 28;

/// Highest pitch that the instrument can sound (the G string at the last fret).
pub const SOUNDING_MAX_MIDI: i32 = 43 + MAX_FRET;

/// Pitch class (0 = C, ..., 11 = B) of a MIDI number.
pub open spec fn pitch_class_of(midi: int) -> int {
    midi % 12
}

/// Scientific-pitch octave of a MIDI number (MIDI 60 is C4).
pub open spec fn octave_of(midi: int) -> int {
    midi / 12 - 1
}

/// Sharp-spelled name of a pitch class.
pub open spec fn note_name_spec(pc: int) -> Seq<char> {
    if pc == 0 { "C"@ }
    else if pc == 1 { "C#"@ }
    else if pc == 2 { "D"@ }
    else if pc == 3 { "D#"@ }
    else if pc == 4 { "E"@ }
    else if pc == 5 { "F"@ }
    else if pc == 6 { "F#"@ }
    else if pc == 7 { "G"@ }
    else if pc == 8 { "G#"@ }
    else if pc == 9 { "A"@ }
    else if pc == 10 { "A#"@ }
    else { "B"@ }
}

/// Euclidean remainder by twelve.
fn rem12(x: i32) -> (r: i32)
    ensures
        r == x % 12,
        0 <= r < 12,
{
    match x.checked_rem_euclid(12) {
        Some(r) => r,
        None => 0,
    }
}

/// Euclidean quotient by twelve.
fn div12(x: i32) -> (r: i32)
    ensures
        r == x / 12,
{
    match x.checked_div_euclid(12) {
        Some(q) => q,
        None => 0,
    }
}

fn pc_name(pc: i32) -> (r: &'static str)
    requires
        0 <= pc < 12,
    ensures
        r@ == note_name_spec(pc as int),
{
    if pc == 0 { "C" }
    else if pc == 1 { "C#" }
    else if pc == 2 { "D" }
    else if pc == 3 { "D#" }
    else if pc == 4 { "E" }
    else if pc == 5 { "F" }
    else if pc == 6 { "F#" }
    else if pc == 7 { "G" }
    else if pc == 8 { "G#" }
    else if pc == 9 { "A" }
    else if pc == 10 { "A#" }
    else { "B" }
}

/// A pitch, identified by its MIDI number.
#[derive(Debug, Clone, Copy, PartialEq, Eq, Structural, Hash, PartialOrd, Ord)]
pub struct Note {
    pub midi: i32,
}

impl Note {
    pub fn from_midi(midi: i32) -> (n: Note)
        ensures
            n.midi == midi,
    {
        Note { midi }
    }

    pub fn name(self) -> (r: &'static str)
        ensures
            r@ == note_name_spec(pitch_class_of(self.midi as int)),
    {
        pc_name(rem12(self.midi))
    }

    pub fn octave(self) -> (r: i32)
        ensures
            r == octave_of(self.midi as int),
    {
        div12(self.midi) - 1
    }

    pub fn pitch_class(self) -> (r: i32)
        ensures
            r == pitch_class_of(self.midi as int),
            0 <= r < 12,
    {
        rem12(self.midi)
    }

    /// The name followed by the octave, as in `E1` or `C#4`.
    pub fn to_string(self) -> (r: String)
        ensures
            r@ == note_label(self.midi as int),
    {
        let mut out = String::from_str(self.name());
        append_decimal(&mut out, self.octave());
        out
    }
}

/// Decimal digits of a natural number, most significant first.
pub open spec fn digits(n: nat) -> Seq<char>
    decreases n,
{
    if n < 10 {
        digit_spec(n as int)
    } else {
        digits(n / 10) + digit_spec((n % 10) as int)
    }
}

/// The one-character text of a decimal digit.
pub open spec fn digit_spec(d: int) -> Seq<char> {
    if d == 0 { "0"@ }
    else if d == 1 { "1"@ }
    else if d == 2 { "2"@ }
    else if d == 3 { "3"@ }
    else if d == 4 { "4"@ }
    else if d == 5 { "5"@ }
    else if d == 6 { "6"@ }
    else if d == 7 { "7"@ }
    else if d == 8 { "8"@ }
    else { "9"@ }
}

/// Decimal text of an integer, with a leading `-` when negative.
pub open spec fn decimal(i: int) -> Seq<char> {
    if i < 0 {
        "-"@ + digits((-i) as nat)
    } else {
        digits(i as nat)
    }
}

/// Display text of a note: its name and its octave.
pub open spec fn note_label(midi: int) -> Seq<char> {
    note_name_spec(pitch_class_of(midi)) + decimal(octave_of(midi))
}

fn digit_str(d: u64) -> (r: &'static str)
    requires
        d < 10,
    ensures
        r@ == digit_spec(d as int),
{
    if d == 0 { "0" }
    else if d == 1 { "1" }
    else if d == 2 { "2" }
    else if d == 3 { "3" }
    else if d == 4 { "4" }
    else if d == 5 { "5" }
    else if d == 6 { "6" }
    else if d == 7 { "7" }
    else if d == 8 { "8" }
    else { "9" }
}

/// Appends the decimal digits of `n` to `out`.
pub fn append_digits(out: &mut String, n: u64)
    ensures
        final(out)@ == old(out)@ + digits(n as nat),
    decreases n,
{
    if n >= 10 {
        append_digits(out, n / 10);
    }
    out.append(digit_str(n % 10));
    proof {
        assert(old(out)@ + digits(n as nat) =~= if n >= 10 {
            old(out)@ + digits((n / 10) as nat) + digit_spec((n % 10) as int)
        } else {
            old(out)@ + digit_spec((n % 10) as int)
        });
    }
}

/// Appends the decimal text of `i` to `out`.
pub fn append_decimal(out: &mut String, i: i32)
    ensures
        final(out)@ == old(out)@ + decimal(i as int),
{
    if i < 0 {
        out.append("-");
        let magnitude: u64 = if i == i32::MIN { 2147483648u64 } else { (-i) as u64 };
        append_digits(out, magnitude);
        proof {
            assert(old(out)@ + decimal(i as int) =~= old(out)@ + "-"@ + digits(magnitude as nat));
        }
    } else {
        append_digits(out, i as u64);
    }
}


/// Which notes of the octave a key admits.
#[derive(Debug, Clone, Copy, PartialEq, Eq, Structural)]
pub enum Mode {
    Chromatic,
    Major,
    Minor,
}

impl Mode {
    /// Lower-case word for the mode.
    pub fn to_string(self) -> (r: String)
        ensures
            r@ == mode_word(self),
    {
        match self {
            Mode::Chromatic => String::from_str("chromatic"),
            Mode::Major => String::from_str("major"),
            Mode::Minor => String::from_str("minor"),
        }
    }
}

/// Lower-case word for a mode.
pub open spec fn mode_word(m: Mode) -> Seq<char> {
    match m {
        Mode::Chromatic => "chromatic"@,
        Mode::Major => "major"@,
        Mode::Minor => "minor"@,
    }
}

/// Semitone offsets from the root that a mode admits, ascending.
pub open spec fn scale_intervals_spec(m: Mode) -> Seq<i32> {
    match m {
        Mode::Chromatic => seq![0i32, 1, 2, 3, 4, 5, 6, 7, 8, 9, 10, 11],
        Mode::Major => seq![0i32, 2, 4, 5, 7, 9, 11],
        Mode::Minor => seq![0i32, 2, 3, 5, 7, 8, 10],
    }
}

/// A key: a root pitch class and a mode.
#[derive(Debug, Clone, Copy, PartialEq, Eq, Structural)]
pub struct Key {
    pub root_pc: i32,
    pub mode: Mode,
}

/// Whether `key` admits the pitch `midi`.
pub open spec fn key_admits(key: Key, midi: int) -> bool {
    key.mode == Mode::Chromatic
        || scale_intervals_spec(key.mode).contains(((pitch_class_of(midi) - key.root_pc) % 12) as i32)
}

/// Whether asking `key` about every pitch from `min` to `max` stays clear of overflow.
pub open spec fn key_range_fits(key: Key, min: int, max: int) -> bool {
    forall|m: int| min <= m <= max ==> key_query_fits(key, m)
}

/// Whether asking `key` about `midi` stays clear of `i32` overflow in the interval
/// arithmetic (the chromatic mode does none).
pub open spec fn key_query_fits(key: Key, midi: int) -> bool {
    key.mode != Mode::Chromatic ==> pitch_class_of(midi) - key.root_pc <= i32::MAX
}

impl Key {
    pub fn new(root_pc: i32, mode: Mode) -> (k: Key)
        ensures
            k.root_pc == root_pc % 12,
            0 <= k.root_pc < 12,
            k.mode == mode,
    {
        Key { root_pc: rem12(root_pc), mode }
    }

    pub fn root_name(self) -> (r: &'static str)
        requires
            0 <= self.root_pc < 12,
        ensures
            r@ == note_name_spec(self.root_pc as int),
    {
        pc_name(self.root_pc)
    }

    pub fn scale_intervals(self) -> (r: &'static [i32])
        ensures
            r@ == scale_intervals_spec(self.mode),
    {
        match self.mode {
            Mode::Chromatic => &[0, 1, 2, 3, 4, 5, 6, 7, 8, 9, 10, 11],
            Mode::Major => &[0, 2, 4, 5, 7, 9, 11],
            Mode::Minor => &[0, 2, 3, 5, 7, 8, 10],
        }
    }

    pub fn contains(self, note: Note) -> (r: bool)
        requires
            key_query_fits(self, note.midi as int),
        ensures
            r == key_admits(self, note.midi as int),
    {
        if let Mode::Chromatic = self.mode {
            return true;
        }
        let rel = rem12(note.pitch_class() - self.root_pc);
        let intervals = self.scale_intervals();
        let mut i: usize = 0;
        while i < intervals.len()
            invariant
                i <= intervals@.len(),
                intervals@ == scale_intervals_spec(self.mode),
                rel as int == (pitch_class_of(note.midi as int) - self.root_pc) % 12,
                forall|j: int| 0 <= j < i ==> intervals@[j] != rel,
            decreases intervals.len() - i,
        {
            if intervals[i] == rel {
                return true;
            }
            i += 1;
        }
        false
    }

    pub fn diatonic_notes_in_range(self, min_midi: i32, max_midi: i32) -> (r: Vec<Note>)
        requires
            key_range_fits(self, min_midi as int, max_midi as int),
        ensures
            r@ == admitted_notes(self, min_midi as int, max_midi as int),
    {
        let mut out: Vec<Note> = Vec::new();
        let mut m: i64 = min_midi as i64;
        proof {
            reveal(Seq::filter);
            assert(notes_between(min_midi as int, m - 1).len() == 0);
        }
        while m <= max_midi as i64
            invariant
                min_midi <= m <= max_midi as i64 + 1 || (m == min_midi && min_midi > max_midi),
                forall|k: int| min_midi <= k <= max_midi ==> key_query_fits(self, k),
                out@ == notes_between(min_midi as int, m - 1).filter(|n: Note| key_admits(self, n.midi as int)),
            decreases max_midi as i64 + 1 - m,
        {
            let note = Note::from_midi(m as i32);
            let keep = self.contains(note);
            if keep {
                out.push(note);
            }
            proof {
                let pred = |n: Note| key_admits(self, n.midi as int);
                let prev = notes_between(min_midi as int, m - 1);
                let next = notes_between(min_midi as int, m as int);
                assert(next.drop_last() =~= prev);
                assert(next.last() == note);
                reveal(Seq::filter);
            }
            m = m + 1;
        }
        proof {
            assert(notes_between(min_midi as int, m - 1) =~= notes_between(min_midi as int, max_midi as int));
        }
        out
    }

    pub fn all() -> (r: Vec<Key>)
        ensures
            r@ == all_keys(),
    {
        let mut out: Vec<Key> = Vec::new();
        out.push(Key::new(0, Mode::Chromatic));
        for pc in 0..12
            invariant
                out@.len() == 1 + 2 * pc,
                forall|i: int| 0 <= i < out@.len() ==> out@[i] == all_keys()[i],
        {
            out.push(Key::new(pc, Mode::Major));
            out.push(Key::new(pc, Mode::Minor));
        }
        proof {
            assert(out@ =~= all_keys());
        }
        out
    }

    /// Display text of the key: `All notes (chromatic)`, or the root and the mode.
    pub fn to_string(self) -> (r: String)
        requires
            self.mode != Mode::Chromatic ==> 0 <= self.root_pc < 12,
        ensures
            r@ == key_label(self),
    {
        match self.mode {
            Mode::Chromatic => String::from_str("All notes (chromatic)"),
            _ => {
                let mut out = String::from_str(self.root_name());
                out.append(" ");
                let word = self.mode.to_string();
                out.append(word.as_str());
                out
            },
        }
    }
}

/// Display text of a key.
pub open spec fn key_label(k: Key) -> Seq<char> {
    if k.mode == Mode::Chromatic {
        "All notes (chromatic)"@
    } else {
        note_name_spec(k.root_pc as int) + " "@ + mode_word(k.mode)
    }
}

/// The notes from `min` to `max` inclusive, ascending.
pub open spec fn notes_between(min: int, max: int) -> Seq<Note> {
    Seq::new(if max >= min { (max - min + 1) as nat } else { 0 }, |i: int| Note { midi: (min + i) as i32 })
}

/// The notes from `min` to `max` inclusive that `key` admits, ascending.
pub open spec fn admitted_notes(key: Key, min: int, max: int) -> Seq<Note> {
    notes_between(min, max).filter(|n: Note| key_admits(key, n.midi as int))
}

/// The selectable keys: chromatic first, then for each root from C upward its major key
/// followed by its minor key.
pub open spec fn all_keys() -> Seq<Key> {
    Seq::new(25, |i: int|
        if i == 0 {
            Key { root_pc: 0, mode: Mode::Chromatic }
        } else if (i - 1) % 2 == 0 {
            Key { root_pc: ((i - 1) / 2) as i32, mode: Mode::Major }
        } else {
            Key { root_pc: ((i - 1) / 2) as i32, mode: Mode::Minor }
        })
}


/// A place on the neck: a string (0 is the low E string) and a fret (0 is open).
#[derive(Debug, Clone, Copy, PartialEq, Eq, Structural)]
pub struct FretPosition {
    pub string_index: usize,
    pub fret: i32,
}

/// Open-string pitch of string `s`.
pub open spec fn string_open(s: int) -> int {
    if s == 0 { 28 } else if s == 1 { 33 } else if s == 2 { 38 } else { 43 }
}

/// The positions on the first `n` strings that sound `midi`, lowest string first.
pub open spec fn positions_on_strings(midi: int, n: int) -> Seq<FretPosition>
    decreases n,
{
    if n <= 0 {
        Seq::empty()
    } else {
        let prev = positions_on_strings(midi, n - 1);
        let fret = midi - string_open(n - 1);
        if 0 <= fret <= MAX_FRET {
            prev.push(FretPosition { string_index: (n - 1) as usize, fret: fret as i32 })
        } else {
            prev
        }
    }
}

/// Every position on the neck that sounds `midi`, lowest string first.
pub open spec fn fret_positions_spec(midi: int) -> Seq<FretPosition> {
    positions_on_strings(midi, 4)
}

pub fn fret_positions(note: Note) -> (r: Vec<FretPosition>)
    requires
        note.midi >= i32::MIN + 43,
    ensures
        r@ == fret_positions_spec(note.midi as int),
{
    let mut out: Vec<FretPosition> = Vec::new();
    let mut idx: usize = 0;
    while idx < 4
        invariant
            idx <= 4,
            note.midi >= i32::MIN + 43,
            out@ == positions_on_strings(note.midi as int, idx as int),
        decreases 4 - idx,
    {
        let open = STRING_OPEN_MIDI[idx];
        assert(open == string_open(idx as int));
        let fret = note.midi - open;
        if 0 <= fret && fret <= MAX_FRET {
            out.push(FretPosition { string_index: idx, fret });
        }
        idx += 1;
    }
    out
}

/// The notes a drill in `key` may ask for: those of the key that the bass can sound.
pub open spec fn drill_pool_spec(key: Key) -> Seq<Note> {
    admitted_notes(key, SOUNDING_MIN_MIDI as int, SOUNDING_MAX_MIDI as int)
}

pub fn drill_pool(key: Key) -> (r: Vec<Note>)
    requires
        key_range_fits(key, SOUNDING_MIN_MIDI as int, SOUNDING_MAX_MIDI as int),
    ensures
        r@ == drill_pool_spec(key),
{
    key.diatonic_notes_in_range(SOUNDING_MIN_MIDI, SOUNDING_MAX_MIDI)
}


/// The naturals, pitch classes 0, 2, 4, 5, 7, 9 and 11, are named by the letters C, D, E,
/// F, G, A and B in order, and each other pitch class is named by the natural a semitone
/// below it followed by `#`.
pub proof fn lemma_note_names()
    ensures
        note_name_spec(0) == seq!['C'],
        note_name_spec(2) == seq!['D'],
        note_name_spec(4) == seq!['E'],
        note_name_spec(5) == seq!['F'],
        note_name_spec(7) == seq!['G'],
        note_name_spec(9) == seq!['A'],
        note_name_spec(11) == seq!['B'],
        forall|p: int| #![trigger note_name_spec(p)] (p == 1 || p == 3 || p == 6 || p == 8 || p == 10) ==>
            note_name_spec(p) == note_name_spec(p - 1) + seq!['#'],
{
    reveal_strlit("C");
    reveal_strlit("C#");
    reveal_strlit("D");
    reveal_strlit("D#");
    reveal_strlit("E");
    reveal_strlit("F");
    reveal_strlit("F#");
    reveal_strlit("G");
    reveal_strlit("G#");
    reveal_strlit("A");
    reveal_strlit("A#");
    reveal_strlit("B");
    assert(note_name_spec(1) =~= note_name_spec(0) + seq!['#']);
    assert(note_name_spec(3) =~= note_name_spec(2) + seq!['#']);
    assert(note_name_spec(6) =~= note_name_spec(5) + seq!['#']);
    assert(note_name_spec(8) =~= note_name_spec(7) + seq!['#']);
    assert(note_name_spec(10) =~= note_name_spec(9) + seq!['#']);
    assert(note_name_spec(0) =~= seq!['C']);
    assert(note_name_spec(2) =~= seq!['D']);
    assert(note_name_spec(4) =~= seq!['E']);
    assert(note_name_spec(5) =~= seq!['F']);
    assert(note_name_spec(7) =~= seq!['G']);
    assert(note_name_spec(9) =~= seq!['A']);
    assert(note_name_spec(11) =~= seq!['B']);
}

/// The number that a string of decimal digits spells.
pub open spec fn digits_value(s: Seq<char>) -> int
    decreases s.len(),
{
    if s.len() == 0 {
        0
    } else {
        10 * digits_value(s.drop_last()) + (s.last() as int - '0' as int)
    }
}

/// The decimal text of a natural number is made of the characters `0` to `9`, has no
/// leading zero, and spells the number back.
pub proof fn lemma_digits_spell_the_number(n: nat)
    ensures
        digits(n).len() >= 1,
        forall|i: int| 0 <= i < digits(n).len() ==> '0' <= #[trigger] digits(n)[i] <= '9',
        digits(n).len() > 1 ==> digits(n)[0] != '0',
        digits_value(digits(n)) == n,
    decreases n,
{
    reveal_strlit("0");
    reveal_strlit("1");
    reveal_strlit("2");
    reveal_strlit("3");
    reveal_strlit("4");
    reveal_strlit("5");
    reveal_strlit("6");
    reveal_strlit("7");
    reveal_strlit("8");
    reveal_strlit("9");
    assert(digits_value(Seq::<char>::empty()) == 0);
    if n < 10 {
        if n == 0 {
            assert(digits(n) =~= seq!['0']);
            assert(seq!['0'].drop_last() =~= Seq::<char>::empty());
            assert(seq!['0'].last() == '0');
            assert(digits_value(seq!['0']) == 0);
        } else if n == 1 {
            assert(digits(n) =~= seq!['1']);
            assert(seq!['1'].drop_last() =~= Seq::<char>::empty());
            assert(seq!['1'].last() == '1');
            assert(digits_value(seq!['1']) == 1);
        } else if n == 2 {
            assert(digits(n) =~= seq!['2']);
            assert(seq!['2'].drop_last() =~= Seq::<char>::empty());
            assert(seq!['2'].last() == '2');
            assert(digits_value(seq!['2']) == 2);
        } else if n == 3 {
            assert(digits(n) =~= seq!['3']);
            assert(seq!['3'].drop_last() =~= Seq::<char>::empty());
            assert(seq!['3'].last() == '3');
            assert(digits_value(seq!['3']) == 3);
        } else if n == 4 {
            assert(digits(n) =~= seq!['4']);
            assert(seq!['4'].drop_last() =~= Seq::<char>::empty());
            assert(seq!['4'].last() == '4');
            assert(digits_value(seq!['4']) == 4);
        } else if n == 5 {
            assert(digits(n) =~= seq!['5']);
            assert(seq!['5'].drop_last() =~= Seq::<char>::empty());
            assert(seq!['5'].last() == '5');
            assert(digits_value(seq!['5']) == 5);
        } else if n == 6 {
            assert(digits(n) =~= seq!['6']);
            assert(seq!['6'].drop_last() =~= Seq::<char>::empty());
            assert(seq!['6'].last() == '6');
            assert(digits_value(seq!['6']) == 6);
        } else if n == 7 {
            assert(digits(n) =~= seq!['7']);
            assert(seq!['7'].drop_last() =~= Seq::<char>::empty());
            assert(seq!['7'].last() == '7');
            assert(digits_value(seq!['7']) == 7);
        } else if n == 8 {
            assert(digits(n) =~= seq!['8']);
            assert(seq!['8'].drop_last() =~= Seq::<char>::empty());
            assert(seq!['8'].last() == '8');
            assert(digits_value(seq!['8']) == 8);
        } else if n == 9 {
            assert(digits(n) =~= seq!['9']);
            assert(seq!['9'].drop_last() =~= Seq::<char>::empty());
            assert(seq!['9'].last() == '9');
            assert(digits_value(seq!['9']) == 9);
        }
    } else {
        let q = n / 10;
        let d = n % 10;
        lemma_digits_spell_the_number(q);
        lemma_digits_spell_the_number(d);
        let whole = digits(q) + digit_spec(d as int);
        assert(digits(n) == whole);
        assert(digits(d) == digit_spec(d as int));
        assert(whole.drop_last() =~= digits(q));
        assert(whole.last() == digits(d)[0]);
        assert(digits(d).drop_last() =~= Seq::<char>::empty());
        assert(digits_value(digits(d)) == digits(d)[0] as int - '0' as int);
        assert forall|i: int| 0 <= i < whole.len() implies '0' <= #[trigger] whole[i] <= '9' by {
            if i < digits(q).len() {
                assert(whole[i] == digits(q)[i]);
            } else {
                assert(whole[i] == digits(d)[0]);
            }
        }
        if digits(q).len() == 1 {
            assert(digits_value(digits(q)) == digits(q)[0] as int - '0' as int) by {
                assert(digits(q).drop_last() =~= Seq::<char>::empty());
            }
        }
        assert(whole[0] == digits(q)[0]);
        assert(digits(d)[0] as int - '0' as int == d);
        assert(n == 10 * q + d);
        assert(digits_value(whole) == 10 * digits_value(digits(q)) + (whole.last() as int - '0' as int));
    }
}

/// A minor key holds the notes of the major key three semitones above its root (its
/// relative major).
pub proof fn lemma_relative_major(root: int, midi: int)
    requires
        0 <= root < 12,
    ensures
        key_admits(Key { root_pc: root as i32, mode: Mode::Minor }, midi)
            == key_admits(Key { root_pc: ((root + 3) % 12) as i32, mode: Mode::Major }, midi),
{
    let pc = pitch_class_of(midi);
    let rel_minor = ((pc - root) % 12) as i32;
    let rel_major = ((pc - (root + 3) % 12) % 12) as i32;
    assert(rel_major as int == (rel_minor as int + 9) % 12);
    assert(scale_intervals_spec(Mode::Minor) =~= seq![0i32, 2, 3, 5, 7, 8, 10]);
    assert(scale_intervals_spec(Mode::Major) =~= seq![0i32, 2, 4, 5, 7, 9, 11]);
    let mi = scale_intervals_spec(Mode::Minor);
    let ma = scale_intervals_spec(Mode::Major);
    if mi.contains(rel_minor) {
        let i = choose|i: int| 0 <= i < mi.len() && mi[i] == rel_minor;
        let j = if i == 0 { 5 } else if i == 1 { 6 } else if i == 2 { 0 } else if i == 3 { 1 } else if i == 4 { 2 } else if i == 5 { 3 } else { 4 };
        assert(ma[j] == rel_major);
    }
    if ma.contains(rel_major) {
        let j = choose|j: int| 0 <= j < ma.len() && ma[j] == rel_major;
        let i = if j == 0 { 2 } else if j == 1 { 3 } else if j == 2 { 4 } else if j == 3 { 5 } else if j == 4 { 6 } else if j == 5 { 0 } else { 1 };
        assert(mi[i] == rel_minor);
    }
}

/// C major holds exactly the naturals, the notes whose name is a bare letter.
pub proof fn lemma_c_major_is_the_naturals(midi: int)
    ensures
        key_admits(Key { root_pc: 0, mode: Mode::Major }, midi) <==> note_name_spec(pitch_class_of(midi)).len() == 1,
{
    lemma_note_names();
    reveal_strlit("C#");
    reveal_strlit("D#");
    reveal_strlit("F#");
    reveal_strlit("G#");
    reveal_strlit("A#");
    let pc = pitch_class_of(midi);
    let ma = scale_intervals_spec(Mode::Major);
    assert(ma =~= seq![0i32, 2, 4, 5, 7, 9, 11]);
    assert((pc - 0) % 12 == pc);
    if ma.contains(pc as i32) {
        let j = choose|j: int| 0 <= j < ma.len() && ma[j] == pc as i32;
    }
    if pc == 0 || pc == 2 || pc == 4 || pc == 5 || pc == 7 || pc == 9 || pc == 11 {
        let j = if pc == 0 { 0 } else if pc == 2 { 1 } else if pc == 4 { 2 } else if pc == 5 { 3 } else if pc == 7 { 4 } else if pc == 9 { 5 } else { 6 };
        assert(ma[j] == pc as i32);
    }
}

/// Moving both a key's root and a note by a semitone keeps whether the key admits the
/// note.
pub proof fn lemma_key_transposes(root: int, mode: Mode, midi: int)
    requires
        0 <= root < 11,
    ensures
        key_admits(Key { root_pc: (root + 1) as i32, mode }, midi + 1) == key_admits(Key { root_pc: root as i32, mode }, midi),
{
    assert((pitch_class_of(midi + 1) - (root + 1)) % 12 == (pitch_class_of(midi) - root) % 12);
}

/// A pitch is its octave's twelve semitones above C, plus its pitch class.
pub proof fn lemma_note_decomposition(midi: int)
    ensures
        0 <= pitch_class_of(midi) < 12,
        midi == 12 * (octave_of(midi) + 1) + pitch_class_of(midi),
{
}

/// Whether a key admits a note depends only on its pitch class: moving it by an octave
/// changes nothing.
pub proof fn lemma_key_admits_octave_invariant(key: Key, midi: int)
    ensures
        key_admits(key, midi) == key_admits(key, midi + 12),
        key_admits(key, midi) == key_admits(key, midi - 12),
{
    assert(pitch_class_of(midi) == pitch_class_of(midi + 12));
    assert(pitch_class_of(midi) == pitch_class_of(midi - 12));
}

/// The chromatic key admits every note.
pub proof fn lemma_chromatic_admits_all(key: Key, midi: int)
    requires
        key.mode == Mode::Chromatic,
    ensures
        key_admits(key, midi),
{
}

/// Every key admits its own root.
pub proof fn lemma_key_admits_root(key: Key, midi: int)
    requires
        pitch_class_of(midi) == key.root_pc % 12,
    ensures
        key_admits(key, midi),
{
    assert((pitch_class_of(midi) - key.root_pc) % 12 == 0);
    assert(scale_intervals_spec(key.mode)[0] == 0i32);
}

/// Filtering a strictly ascending run of notes keeps it strictly ascending and keeps
/// only notes of the run that pass the filter.
proof fn lemma_filter_ascending(s: Seq<Note>, pred: spec_fn(Note) -> bool)
    requires
        forall|i: int, j: int| 0 <= i < j < s.len() ==> s[i].midi < s[j].midi,
    ensures
        forall|i: int| 0 <= i < s.filter(pred).len() ==>
            s.contains(#[trigger] s.filter(pred)[i]) && pred(s.filter(pred)[i]),
        forall|i: int, j: int| 0 <= i < j < s.filter(pred).len() ==>
            s.filter(pred)[i].midi < s.filter(pred)[j].midi,
    decreases s.len(),
{
    reveal(Seq::filter);
    if s.len() > 0 {
        let prefix = s.drop_last();
        lemma_filter_ascending(prefix, pred);
        let f = s.filter(pred);
        let pf = prefix.filter(pred);
        assert forall|i: int| 0 <= i < f.len() implies
            s.contains(#[trigger] f[i]) && pred(f[i]) by {
            if i < pf.len() {
                assert(f[i] == pf[i]);
                let k = choose|k: int| 0 <= k < prefix.len() && prefix[k] == pf[i];
                assert(s[k] == f[i]);
            } else {
                assert(f[i] == s.last());
                assert(s[s.len() - 1] == f[i]);
            }
        }
        assert forall|i: int, j: int| 0 <= i < j < f.len() implies f[i].midi < f[j].midi by {
            if j < pf.len() {
                assert(f[i] == pf[i] && f[j] == pf[j]);
            } else {
                assert(f[i] == pf[i]);
                let k = choose|k: int| 0 <= k < prefix.len() && prefix[k] == pf[i];
                assert(s[k] == f[i]);
                assert(f[j] == s[s.len() - 1]);
            }
        }
    }
}

/// The notes of a key in a range are exactly the admitted pitches of the range, each
/// once, in ascending order.
pub proof fn lemma_admitted_notes(key: Key, min: int, max: int)
    requires
        i32::MIN <= min,
        max <= i32::MAX,
    ensures
        forall|i: int| 0 <= i < admitted_notes(key, min, max).len() ==> {
            let n = #[trigger] admitted_notes(key, min, max)[i];
            min <= n.midi <= max && key_admits(key, n.midi as int)
        },
        forall|m: int| min <= m <= max && key_admits(key, m) ==>
            admitted_notes(key, min, max).contains(Note { midi: m as i32 }),
        forall|i: int, j: int| 0 <= i < j < admitted_notes(key, min, max).len() ==>
            admitted_notes(key, min, max)[i].midi < admitted_notes(key, min, max)[j].midi,
{
    let pred = |n: Note| key_admits(key, n.midi as int);
    let s = notes_between(min, max);
    lemma_filter_ascending(s, pred);
    assert forall|i: int| 0 <= i < admitted_notes(key, min, max).len() implies {
        let n = #[trigger] admitted_notes(key, min, max)[i];
        min <= n.midi <= max && key_admits(key, n.midi as int)
    } by {
        let n = s.filter(pred)[i];
        assert(s.contains(n));
        let k = choose|k: int| 0 <= k < s.len() && s[k] == n;
    }
    assert forall|m: int| min <= m <= max && key_admits(key, m) implies
        admitted_notes(key, min, max).contains(Note { midi: m as i32 }) by {
        assert(s[m - min] == Note { midi: m as i32 });
        s.lemma_filter_contains(pred, m - min);
    }
}

/// Every key with a drillable range yields a non-empty pool of sounding pitches of the key.
pub proof fn lemma_drill_pool(key: Key)
    ensures
        drill_pool_spec(key).len() > 0,
        forall|i: int| 0 <= i < drill_pool_spec(key).len() ==> {
            let n = #[trigger] drill_pool_spec(key)[i];
            SOUNDING_MIN_MIDI <= n.midi <= SOUNDING_MAX_MIDI && key_admits(key, n.midi as int)
        },
        forall|m: int| SOUNDING_MIN_MIDI <= m <= SOUNDING_MAX_MIDI && key_admits(key, m) ==>
            drill_pool_spec(key).contains(Note { midi: m as i32 }),
        forall|i: int, j: int| 0 <= i < j < drill_pool_spec(key).len() ==>
            drill_pool_spec(key)[i].midi < drill_pool_spec(key)[j].midi,
{
    lemma_admitted_notes(key, SOUNDING_MIN_MIDI as int, SOUNDING_MAX_MIDI as int);
    let r = key.root_pc % 12;
    let m = 28 + (r + 8) % 12;
    assert(pitch_class_of(m) == r);
    lemma_key_admits_root(key, m);
    assert(drill_pool_spec(key).contains(Note { midi: m as i32 }));
}

/// Filtering by a test that every element passes keeps the sequence as it is.
proof fn lemma_filter_keeps_all<A>(s: Seq<A>, pred: spec_fn(A) -> bool)
    requires
        forall|i: int| 0 <= i < s.len() ==> pred(#[trigger] s[i]),
    ensures
        s.filter(pred) == s,
    decreases s.len(),
{
    reveal(Seq::filter);
    if s.len() > 0 {
        lemma_filter_keeps_all(s.drop_last(), pred);
        assert(s.drop_last().push(s.last()) =~= s);
    }
}

/// A pitch can be fretted on the neck exactly when it lies in the sounding range.
pub proof fn lemma_fret_reachable(midi: int)
    ensures
        fret_positions_spec(midi).len() > 0 <==> SOUNDING_MIN_MIDI <= midi <= SOUNDING_MAX_MIDI,
{
    lemma_fret_positions(midi);
    if fret_positions_spec(midi).len() > 0 {
        let p = fret_positions_spec(midi)[0];
        assert(string_open(p.string_index as int) + p.fret == midi);
    }
    if SOUNDING_MIN_MIDI <= midi <= SOUNDING_MAX_MIDI {
        let s: int = if midi <= 48 { 0 } else { 3 };
        assert(fret_positions_spec(midi).contains(
            FretPosition { string_index: s as usize, fret: (midi - string_open(s)) as i32 },
        ));
    }
}

/// The chromatic drill asks for every pitch that can be fretted, from the open E string
/// up, each once.
pub proof fn lemma_chromatic_pool(key: Key)
    requires
        key.mode == Mode::Chromatic,
    ensures
        drill_pool_spec(key) == notes_between(SOUNDING_MIN_MIDI as int, SOUNDING_MAX_MIDI as int),
        drill_pool_spec(key).len() == 36,
        forall|i: int| 0 <= i < drill_pool_spec(key).len() ==> (#[trigger] drill_pool_spec(key)[i]).midi == SOUNDING_MIN_MIDI + i,
        forall|m: int| #![trigger fret_positions_spec(m)] i32::MIN <= m <= i32::MAX ==>
            (fret_positions_spec(m).len() > 0 <==> drill_pool_spec(key).contains(Note { midi: m as i32 })),
{
    let s = notes_between(SOUNDING_MIN_MIDI as int, SOUNDING_MAX_MIDI as int);
    lemma_filter_keeps_all(s, |n: Note| key_admits(key, n.midi as int));
    assert forall|m: int| #![trigger fret_positions_spec(m)] i32::MIN <= m <= i32::MAX implies
        (fret_positions_spec(m).len() > 0 <==> drill_pool_spec(key).contains(Note { midi: m as i32 })) by {
        lemma_fret_reachable(m);
        if SOUNDING_MIN_MIDI <= m <= SOUNDING_MAX_MIDI {
            assert(s[m - SOUNDING_MIN_MIDI] == Note { midi: m as i32 });
        }
        if drill_pool_spec(key).contains(Note { midi: m as i32 }) {
            let i = choose|i: int| 0 <= i < s.len() && s[i] == Note { midi: m as i32 };
            assert(s[i].midi == SOUNDING_MIN_MIDI + i);
        }
    }
}

/// Standard tuning: the lowest string is E1 (MIDI 28) and each string is a fourth (five
/// semitones) above the one below it, as the open-string table says.
pub proof fn lemma_standard_tuning()
    ensures
        string_open(0) == 28,
        forall|s: int| 0 <= s < 3 ==> #[trigger] string_open(s + 1) == string_open(s) + 5,
        forall|s: int| 0 <= s < 4 ==> #[trigger] string_open(s) == STRING_OPEN_MIDI@[s],
{
    assert(STRING_OPEN_MIDI@ =~= seq![28i32, 33, 38, 43]);
}

/// Every fret position sounds the note, stays on the neck, and each string that can
/// sound the note appears exactly once, lowest string first.
pub proof fn lemma_fret_positions(midi: int)
    ensures
        forall|i: int| 0 <= i < fret_positions_spec(midi).len() ==> {
            let p = #[trigger] fret_positions_spec(midi)[i];
            &&& p.string_index < 4
            &&& 0 <= p.fret <= MAX_FRET
            &&& string_open(p.string_index as int) + p.fret == midi
        },
        forall|s: int| 0 <= s < 4 && 0 <= midi - string_open(s) <= MAX_FRET ==>
            fret_positions_spec(midi).contains(
                FretPosition { string_index: s as usize, fret: (midi - string_open(s)) as i32 },
            ),
        forall|i: int, j: int| 0 <= i < j < fret_positions_spec(midi).len() ==>
            fret_positions_spec(midi)[i].string_index < fret_positions_spec(midi)[j].string_index,
{
    lemma_positions_on_strings(midi, 4);
}

proof fn lemma_positions_on_strings(midi: int, n: int)
    requires
        0 <= n <= 4,
    ensures
        forall|i: int| 0 <= i < positions_on_strings(midi, n).len() ==> {
            let p = #[trigger] positions_on_strings(midi, n)[i];
            &&& p.string_index < n
            &&& 0 <= p.fret <= MAX_FRET
            &&& string_open(p.string_index as int) + p.fret == midi
        },
        forall|s: int| 0 <= s < n && 0 <= midi - string_open(s) <= MAX_FRET ==>
            positions_on_strings(midi, n).contains(
                FretPosition { string_index: s as usize, fret: (midi - string_open(s)) as i32 },
            ),
        forall|i: int, j: int| 0 <= i < j < positions_on_strings(midi, n).len() ==>
            positions_on_strings(midi, n)[i].string_index < positions_on_strings(midi, n)[j].string_index,
    decreases n,
{
    if n > 0 {
        lemma_positions_on_strings(midi, n - 1);
        let prev = positions_on_strings(midi, n - 1);
        let cur = positions_on_strings(midi, n);
        assert forall|s: int| 0 <= s < n && 0 <= midi - string_open(s) <= MAX_FRET implies
            cur.contains(FretPosition { string_index: s as usize, fret: (midi - string_open(s)) as i32 }) by {
            let want = FretPosition { string_index: s as usize, fret: (midi - string_open(s)) as i32 };
            if s < n - 1 {
                assert(prev.contains(want));
                let k = choose|k: int| 0 <= k < prev.len() && prev[k] == want;
                assert(cur[k] == want);
            } else {
                assert(cur[cur.len() - 1] == want);
            }
        }
    }
}

/// The key list offers the chromatic key once and every major and minor key once.
pub proof fn lemma_all_keys_cover(k: Key)
    requires
        0 <= k.root_pc < 12,
        k.mode == Mode::Chromatic ==> k.root_pc == 0,
    ensures
        all_keys().contains(k),
        forall|i: int, j: int| 0 <= i < j < all_keys().len() ==> all_keys()[i] != all_keys()[j],
{
    let i = if k.mode == Mode::Chromatic { 0 } else if k.mode == Mode::Major { 1 + 2 * k.root_pc } else { 2 + 2 * k.root_pc };
    assert(all_keys()[i] == k);
}

} // verus!
