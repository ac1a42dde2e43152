//! Decoding of Standard MIDI Files from their bytes: the file header, the
//! track chunks, and the timed events that make up each track.
pub mod midi_parse;
pub mod vlq;
