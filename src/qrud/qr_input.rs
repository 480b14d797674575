//! Keyboard and MIDI input mappings. Cent offsets are carried as `f32` bit
//! patterns.
use vstd::prelude::*;

verus! {

/// Key and MIDI triggers of one action.
pub struct ActionInput {
    pub kb_down: Vec<String>,
    pub kb_up: Vec<String>,
    pub m_n_on: Vec<u8>,
    pub m_n_off: Vec<u8>,
}

/// A transposition bound to a key.
pub struct TranspositionKB {
    pub code: String,
    pub note_bool: bool,
    pub cent_bool: bool,
    pub note_delta: i16,
    /// Offset in cents, as an `f32` bit pattern.
    pub cent_delta: u32,
}

/// A transposition bound to a MIDI message.
pub struct TranspostitionMIDI {
    pub msg: u8,
    pub note_bool: bool,
    pub cent_bool: bool,
    pub note_delta: i16,
    /// Offset in cents, as an `f32` bit pattern.
    pub cents_delta: u32,
}

/// Transpositions triggered on key and MIDI events.
pub struct TranspositionInput {
    pub kb_down: Vec<TranspositionKB>,
    pub kb_up: Vec<TranspositionKB>,
    pub m_n_on: Vec<TranspostitionMIDI>,
    pub m_n_off: Vec<TranspostitionMIDI>,
}

} // verus!
