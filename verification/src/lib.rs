//! Core logic of a remote-connection terminal: the command suggestion
//! history, the keystroke recorder state machine, and the recognition of
//! pasted connection descriptions.
pub mod auto_recognize;
pub mod clock;
pub mod history_laws;
pub mod keystroke_recorder;
pub mod recording_indicator;
pub mod suggestion_history;
pub mod text;
