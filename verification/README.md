# bass_trainer

A practice tool for bass guitar: it shows a note on the bass clef, listens to the
instrument, and moves on once the note has been heard on four consecutive detection
frames.

- `src/` is the verified library (Verus): notes, keys and the fretboard (`music`), the
  remembered settings (`config`), the screens and their transitions (`app`), the choice of
  audio configuration and the sample ring buffer (`audio`), the analysis window (`pitch`),
  the texts and positions of the staff and tab views (`ui`), and list search (`lookup`).
- `app/` is the terminal front end: audio devices through cpal, the pitch detector, the
  configuration file, key events and drawing with ratatui, and the threads that tie them
  together.
- `tests/` exercises the library on concrete values.
