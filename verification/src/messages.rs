//! Messages passed between the editor thread and the audio thread.

use vstd::prelude::*;

verus! {

/// From the editor to the audio thread.
#[derive(Debug, Clone)]
pub enum CodeMessage {
    /// Replace the engine's script text.
    UpdateCode(String),
}

/// From the audio thread to the editor.
#[derive(Debug, Clone)]
pub enum StatusMessage {
    /// The script update took effect.
    Success,
    /// The script update failed with an error message.
    Error(String),
    /// An output underrun occurred.
    BufferUnderrun,
}

} // verus!
