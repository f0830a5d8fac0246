//! The status-bar item that shows the keystroke sequence being recorded.
use vstd::prelude::*;
use vstd::string::*;

use crate::keystroke_recorder::KeystrokeRecordingState;

verus! {

/// Status bar item that shows the current keystroke sequence being recorded.
/// Hidden when not recording.
pub struct KeystrokeRecordingIndicator {}

/// What the indicator shows.
#[derive(Clone, Debug)]
pub enum IndicatorLabel {
    /// Nothing: no recording is in progress.
    Hidden,
    /// This text, followed by "...".
    Text(String),
    /// The recorded keystrokes, written as keybindings, followed by "...".
    Keystrokes,
}

impl KeystrokeRecordingIndicator {
    /// The indicator; what it shows comes from the global recording status.
    pub fn new() -> Self {
        KeystrokeRecordingIndicator {}
    }

    /// The label for the global recording status `state` (absent when none
    /// is installed): hidden unless recording, "Recording..." while the
    /// sequence is empty, the sequence otherwise.
    pub fn label(state: Option<&KeystrokeRecordingState>) -> (r: IndicatorLabel)
        ensures
            match state {
                None => r is Hidden,
                Some(s) => if !s.is_recording {
                    r is Hidden
                } else if s.current_sequence@.len() == 0 {
                    r matches IndicatorLabel::Text(t) && t@ == "Recording..."@
                } else {
                    r is Keystrokes
                },
            },
    {
        match state {
            None => IndicatorLabel::Hidden,
            Some(s) => {
                if !s.is_recording {
                    IndicatorLabel::Hidden
                } else if s.current_sequence.len() == 0 {
                    IndicatorLabel::Text(String::from_str("Recording..."))
                } else {
                    IndicatorLabel::Keystrokes
                }
            },
        }
    }
}

} // verus!
