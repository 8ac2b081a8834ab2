//! Feeding the pitch detector: the analysis window, and which detections name a note.
use vstd::prelude::*;

use crate::music::{Note, SOUNDING_MIN_MIDI, SOUNDING_MAX_MIDI};

verus! {

/// Samples per analysis window.
pub const WINDOW_SIZE: usize = 4096;

/// Samples by which one analysis window follows the previous one.
pub const HOP_SIZE: usize = 2048;

/// After the latest window of `buf` has been analysed, keeps only its last half, so that
/// the next window is complete after `HOP_SIZE` more samples.
pub fn advance_window<T>(buf: &mut Vec<T>)
    requires
        old(buf)@.len() >= WINDOW_SIZE,
    ensures
        final(buf)@ == old(buf)@.subrange(old(buf)@.len() - WINDOW_SIZE / 2, old(buf)@.len() as int),
        final(buf)@.len() + HOP_SIZE == WINDOW_SIZE,
{
    retain_last(buf, WINDOW_SIZE / 2);
}

/// The note a detection rounded to `midi` names, when the bass can sound it.
pub fn sounding_note(midi: i32) -> (r: Option<Note>)
    ensures
        r == (if SOUNDING_MIN_MIDI <= midi <= SOUNDING_MAX_MIDI { Some(Note { midi }) } else { None }),
{
    if midi < SOUNDING_MIN_MIDI || midi > SOUNDING_MAX_MIDI {
        return None;
    }
    Some(Note::from_midi(midi))
}

/// Where the latest full window of `size` samples starts in a buffer of `len` samples,
/// if the buffer holds one.
pub fn latest_window_start(len: usize, size: usize) -> (r: Option<usize>)
    ensures
        r == (if len >= size { Some((len - size) as usize) } else { None }),
{
    if len < size {
        None
    } else {
        Some(len - size)
    }
}

/// Drops all but the last `keep` samples of `buf`, so that the next window overlaps the
/// one just analysed.
pub fn retain_last<T>(buf: &mut Vec<T>, keep: usize)
    requires
        keep <= old(buf)@.len(),
    ensures
        final(buf)@ == old(buf)@.subrange(old(buf)@.len() - keep, old(buf)@.len() as int),
{
    let drop_count = buf.len() - keep;
    let tail = buf.split_off(drop_count);
    *buf = tail;
}

} // verus!
