use bspterm::keystroke_recorder::{
    KeyDownOutcome, Keystroke, KeystrokeRecorder, KeystrokeRecorderEvent, KeystrokeRecordingState,
    PlaceholderHint,
};
use bspterm::recording_indicator::{IndicatorLabel, KeystrokeRecordingIndicator};

fn key(name: &str, control: bool) -> Keystroke {
    let notation = if control { format!("ctrl-{}", name) } else { name.to_string() };
    Keystroke { key: name.to_string(), control, notation }
}

#[test]
fn records_and_confirms_a_sequence() {
    let mut status: Option<KeystrokeRecordingState> = None;
    let mut r = KeystrokeRecorder::new(None);
    assert!(matches!(r.on_focus(&mut status), KeystrokeRecorderEvent::RecordingStarted));
    assert!(r.is_recording());
    assert!(matches!(r.handle_key_down(&key("h", true), &mut status), KeyDownOutcome::Recorded));
    assert!(matches!(r.handle_key_down(&key("h", false), &mut status), KeyDownOutcome::Recorded));
    assert_eq!(r.keybinding_string(), "ctrl-h h");
    assert_eq!(r.current_value(), Some("ctrl-h h".to_string()));
    match r.handle_key_down(&key("enter", false), &mut status) {
        KeyDownOutcome::Finished(KeystrokeRecorderEvent::RecordingCompleted(b)) => {
            assert_eq!(b, "ctrl-h h")
        }
        other => panic!("unexpected outcome {:?}", other),
    }
    assert!(!r.is_recording());
    assert!(r.keystrokes().is_empty());
    assert_eq!(r.current_value(), Some("ctrl-h h".to_string()));
}

#[test]
fn escape_cancels_and_keeps_value() {
    let mut status: Option<KeystrokeRecordingState> = None;
    let mut r = KeystrokeRecorder::new(Some("ctrl-s".to_string()));
    r.start_recording(&mut status);
    r.handle_key_down(&key("a", false), &mut status);
    let out = r.handle_key_down(&key("escape", false), &mut status);
    assert!(matches!(out, KeyDownOutcome::Finished(KeystrokeRecorderEvent::RecordingCancelled)));
    assert!(!r.is_recording());
    assert_eq!(r.current_value(), Some("ctrl-s".to_string()));
}

#[test]
fn ctrl_g_cancels_but_plain_g_is_recorded() {
    let mut status: Option<KeystrokeRecordingState> = None;
    let mut r = KeystrokeRecorder::new(None);
    r.start_recording(&mut status);
    assert!(matches!(r.handle_key_down(&key("g", false), &mut status), KeyDownOutcome::Recorded));
    assert_eq!(r.keybinding_string(), "g");
    let out = r.handle_key_down(&key("g", true), &mut status);
    assert!(matches!(out, KeyDownOutcome::Finished(KeystrokeRecorderEvent::RecordingCancelled)));
    assert_eq!(r.current_value(), None);
}

#[test]
fn keys_are_ignored_when_not_recording() {
    let mut status: Option<KeystrokeRecordingState> = None;
    let mut r = KeystrokeRecorder::new(None);
    assert!(matches!(r.handle_key_down(&key("a", false), &mut status), KeyDownOutcome::Ignored));
    assert!(matches!(r.handle_key_down(&key("enter", false), &mut status), KeyDownOutcome::Ignored));
    assert!(r.keystrokes().is_empty());
    assert!(!r.is_recording());
}

#[test]
fn confirming_an_empty_sequence_clears_the_value() {
    let mut status: Option<KeystrokeRecordingState> = None;
    let mut r = KeystrokeRecorder::new(Some("ctrl-x".to_string()));
    r.start_recording(&mut status);
    match r.confirm_recording(&mut status) {
        KeystrokeRecorderEvent::RecordingCompleted(b) => assert_eq!(b, ""),
        other => panic!("unexpected event {:?}", other),
    }
    assert_eq!(r.current_value(), None);
}

#[test]
fn blur_cancels_only_a_running_recording() {
    let mut status: Option<KeystrokeRecordingState> = None;
    let mut r = KeystrokeRecorder::new(Some("f1".to_string()));
    assert!(r.on_blur(&mut status).is_none());
    r.start_recording(&mut status);
    r.handle_key_down(&key("x", false), &mut status);
    assert!(matches!(r.on_blur(&mut status), Some(KeystrokeRecorderEvent::RecordingCancelled)));
    assert!(!r.is_recording());
    assert_eq!(r.current_value(), Some("f1".to_string()));
}

#[test]
fn current_value_while_recording_nothing_is_stored_value() {
    let mut status: Option<KeystrokeRecordingState> = None;
    let mut r = KeystrokeRecorder::new(Some("alt-x".to_string()));
    r.start_recording(&mut status);
    assert_eq!(r.current_value(), Some("alt-x".to_string()));
    r.set_value(None);
    assert_eq!(r.current_value(), None);
}

#[test]
fn display_follows_recording_state() {
    let mut status: Option<KeystrokeRecordingState> = None;
    let mut r = KeystrokeRecorder::new(Some("ctrl-k".to_string()));
    let d = r.display();
    assert_eq!(d.text, "ctrl-k");
    assert!(!d.placeholder_visible);
    assert_eq!(d.hint, PlaceholderHint::ClickToRecord);
    assert!(!d.active && !d.show_ellipsis);

    r.start_recording(&mut status);
    let d = r.display();
    assert_eq!(d.text, "");
    assert!(d.placeholder_visible);
    assert_eq!(d.hint, PlaceholderHint::RecordingHint);
    assert!(d.active && !d.show_ellipsis);

    r.handle_key_down(&key("k", true), &mut status);
    let d = r.display();
    assert_eq!(d.text, "ctrl-k");
    assert!(!d.placeholder_visible && d.show_ellipsis);

    let empty = KeystrokeRecorder::new(None).display();
    assert!(empty.placeholder_visible);
}

#[test]
fn global_state_updates_only_when_installed() {
    let mut none: Option<KeystrokeRecordingState> = None;
    KeystrokeRecordingState::update(&mut none, true, vec![key("a", false)]);
    assert!(none.is_none());

    let mut installed = Some(KeystrokeRecordingState::init());
    KeystrokeRecordingState::update(&mut installed, true, vec![key("a", false)]);
    let s = installed.unwrap();
    assert!(s.is_recording);
    assert_eq!(s.current_sequence.len(), 1);
    assert_eq!(s.current_sequence[0].key, "a");
    let d = KeystrokeRecordingState::default();
    assert!(!d.is_recording && d.current_sequence.is_empty());
}

#[test]
fn indicator_labels() {
    let _indicator = KeystrokeRecordingIndicator::new();
    assert!(matches!(KeystrokeRecordingIndicator::label(None), IndicatorLabel::Hidden));
    let mut s = KeystrokeRecordingState::init();
    assert!(matches!(KeystrokeRecordingIndicator::label(Some(&s)), IndicatorLabel::Hidden));
    s.is_recording = true;
    match KeystrokeRecordingIndicator::label(Some(&s)) {
        IndicatorLabel::Text(t) => assert_eq!(t, "Recording..."),
        other => panic!("unexpected label {:?}", other),
    }
    s.current_sequence.push(key("h", true));
    assert!(matches!(KeystrokeRecordingIndicator::label(Some(&s)), IndicatorLabel::Keystrokes));
}

#[test]
fn transitions_publish_recording_status() {
    let mut status = Some(KeystrokeRecordingState::init());
    let mut r = KeystrokeRecorder::new(None);
    r.start_recording(&mut status);
    let s = status.as_ref().unwrap();
    assert!(s.is_recording && s.current_sequence.is_empty());

    r.handle_key_down(&key("h", true), &mut status);
    r.handle_key_down(&key("j", false), &mut status);
    let s = status.as_ref().unwrap();
    assert!(s.is_recording);
    assert_eq!(s.current_sequence.len(), 2);
    assert_eq!(s.current_sequence[0].notation, "ctrl-h");
    assert_eq!(s.current_sequence[1].key, "j");
    assert!(matches!(
        KeystrokeRecordingIndicator::label(status.as_ref()),
        IndicatorLabel::Keystrokes
    ));

    r.handle_key_down(&key("enter", false), &mut status);
    let s = status.as_ref().unwrap();
    assert!(!s.is_recording && s.current_sequence.is_empty());
    assert!(matches!(KeystrokeRecordingIndicator::label(status.as_ref()), IndicatorLabel::Hidden));

    r.on_focus(&mut status);
    assert!(status.as_ref().unwrap().is_recording);
    r.handle_key_down(&key("escape", false), &mut status);
    assert!(!status.as_ref().unwrap().is_recording);

    r.start_recording(&mut status);
    r.handle_key_down(&key("x", false), &mut status);
    r.on_blur(&mut status);
    let s = status.as_ref().unwrap();
    assert!(!s.is_recording && s.current_sequence.is_empty());
}

#[test]
fn ignored_keys_leave_the_status_alone() {
    let mut status = Some(KeystrokeRecordingState::init());
    status.as_mut().unwrap().current_sequence.push(key("q", false));
    let mut r = KeystrokeRecorder::new(None);
    assert!(matches!(r.handle_key_down(&key("a", false), &mut status), KeyDownOutcome::Ignored));
    assert!(r.on_blur(&mut status).is_none());
    assert_eq!(status.as_ref().unwrap().current_sequence.len(), 1);
}

#[test]
fn click_focuses_only_when_idle() {
    let mut status: Option<KeystrokeRecordingState> = None;
    let mut r = KeystrokeRecorder::new(None);
    assert!(r.focuses_on_click());
    r.start_recording(&mut status);
    assert!(!r.focuses_on_click());
    r.cancel_recording(&mut status);
    assert!(r.focuses_on_click());
}
