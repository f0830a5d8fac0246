//! The state machine behind the keyboard-shortcut recorder.
//!
//! Recording starts on focus. Each key press is appended to the sequence;
//! Esc or ctrl-g cancels, Enter confirms the sequence (e.g. "ctrl-h h") as
//! the new value. There is no timeout between keystrokes.
use vstd::prelude::*;
use vstd::string::*;

use crate::text::same_text;

verus! {

// ---------------------------------------------------------------------------
// Data model
// ---------------------------------------------------------------------------

/// A key press as the recorder reads it.
#[derive(Clone, Debug)]
pub struct Keystroke {
    /// The key's name, such as `"a"`, `"enter"` or `"escape"`.
    pub key: String,
    /// Whether the control modifier was held.
    pub control: bool,
    /// The keystroke in keybinding notation, such as `"ctrl-h"`.
    pub notation: String,
}

/// A keystroke as a value: key, control modifier, notation.
pub type KeystrokeView = (Seq<char>, bool, Seq<char>);

impl View for Keystroke {
    type V = KeystrokeView;

    open spec fn view(&self) -> KeystrokeView {
        (self.key@, self.control, self.notation@)
    }
}

/// The values of a sequence of keystrokes.
pub open spec fn keystroke_views(v: Seq<Keystroke>) -> Seq<KeystrokeView> {
    v.map_values(|k: Keystroke| k@)
}

/// The value of an optional string.
pub open spec fn text_view(o: Option<String>) -> Option<Seq<char>> {
    match o {
        Some(s) => Some(s@),
        None => None,
    }
}

/// Events emitted by the recorder.
#[derive(Clone, Debug)]
pub enum KeystrokeRecorderEvent {
    /// Recording started.
    RecordingStarted,
    /// Recording was cancelled (Esc or ctrl-g).
    RecordingCancelled,
    /// Recording completed successfully with the given keybinding string.
    RecordingCompleted(String),
}

/// What became of a key press.
#[derive(Clone, Debug)]
pub enum KeyDownOutcome {
    /// The recorder is not recording: the key goes on to other handlers.
    Ignored,
    /// The key was appended to the sequence; it goes no further.
    Recorded,
    /// The key ended the recording with this event; it goes no further.
    Finished(KeystrokeRecorderEvent),
}

/// Which hint the recorder shows while it displays no text.
#[derive(Clone, Copy, Debug, PartialEq, Eq, Structural)]
pub enum PlaceholderHint {
    /// Shown while recording ("shortcut.recording_hint").
    RecordingHint,
    /// Shown otherwise ("shortcut.click_to_record").
    ClickToRecord,
}

/// What the recorder shows.
#[derive(Clone, Debug)]
pub struct RecorderDisplay {
    /// The text shown: the sequence so far while recording, else the value.
    pub text: String,
    /// The hint is shown instead, since there is no text.
    pub placeholder_visible: bool,
    /// The hint to show.
    pub hint: PlaceholderHint,
    /// The recorder is drawn as active (focused border, accent text).
    pub active: bool,
    /// A trailing "..." shows that more keys may follow.
    pub show_ellipsis: bool,
}

/// A component for interactively recording keyboard shortcuts.
#[derive(Clone, Debug)]
pub struct KeystrokeRecorder {
    keystrokes: Vec<Keystroke>,
    is_recording: bool,
    value: Option<String>,
}

/// Global recording status, shown in the status bar.
#[derive(Clone, Debug)]
pub struct KeystrokeRecordingState {
    pub current_sequence: Vec<Keystroke>,
    pub is_recording: bool,
}

// ---------------------------------------------------------------------------
// Specification
// ---------------------------------------------------------------------------

/// `parts` joined with `sep` between each two.
pub open spec fn joined(parts: Seq<Seq<char>>, sep: Seq<char>) -> Seq<char>
    decreases parts.len(),
{
    if parts.len() == 0 {
        Seq::empty()
    } else if parts.len() == 1 {
        parts[0]
    } else {
        joined(parts.drop_last(), sep) + sep + parts.last()
    }
}

/// The notations of a sequence of keystrokes.
pub open spec fn notations(keys: Seq<KeystrokeView>) -> Seq<Seq<char>> {
    keys.map_values(|k: KeystrokeView| k.2)
}

/// The keybinding of a sequence: the notations of its keystrokes, joined by
/// single spaces.
pub open spec fn keybinding(keys: Seq<KeystrokeView>) -> Seq<char> {
    joined(notations(keys), seq![' '])
}

/// Esc, or ctrl-g.
pub open spec fn is_cancel_key(k: KeystrokeView) -> bool {
    k.0 == "escape"@ || (k.0 == "g"@ && k.1)
}

/// Enter.
pub open spec fn is_confirm_key(k: KeystrokeView) -> bool {
    k.0 == "enter"@
}

/// The value that confirming a keybinding stores: none for an empty one.
pub open spec fn confirmed_value(binding: Seq<char>) -> Option<Seq<char>> {
    if binding.len() == 0 {
        None
    } else {
        Some(binding)
    }
}

/// The global recording status after a transition of `recorder` that
/// publishes its status: absent stays absent; an installed status then shows
/// whether the recorder is recording and the keystrokes it holds.
pub open spec fn publishes(
    before: Option<KeystrokeRecordingState>,
    after: Option<KeystrokeRecordingState>,
    recorder: KeystrokeRecorder,
) -> bool {
    match before {
        None => after is None,
        Some(_) => after matches Some(s) && s.is_recording == recorder.recording()
            && keystroke_views(s.current_sequence@) == recorder.keys(),
    }
}

impl KeystrokeRecorder {
    /// The keystrokes recorded so far.
    pub closed spec fn keys(&self) -> Seq<KeystrokeView> {
        keystroke_views(self.keystrokes@)
    }

    /// Whether a recording is in progress.
    pub closed spec fn recording(&self) -> bool {
        self.is_recording
    }

    /// The stored keybinding.
    pub closed spec fn stored(&self) -> Option<Seq<char>> {
        text_view(self.value)
    }

    /// A recorder that is not recording holds no keystrokes.
    pub open spec fn idle_holds_no_keys(&self) -> bool {
        !self.recording() ==> self.keys().len() == 0
    }

    /// The value the recorder reports: the sequence recorded so far while a
    /// non-empty recording is in progress, else the stored value.
    pub open spec fn reported_value(&self) -> Option<Seq<char>> {
        if self.recording() && self.keys().len() > 0 {
            Some(keybinding(self.keys()))
        } else {
            self.stored()
        }
    }

    /// The text the recorder displays.
    pub open spec fn display_text(&self) -> Seq<char> {
        if self.recording() {
            if self.keys().len() == 0 {
                Seq::empty()
            } else {
                keybinding(self.keys())
            }
        } else {
            match self.stored() {
                Some(v) => v,
                None => Seq::empty(),
            }
        }
    }
}

// ---------------------------------------------------------------------------
// Proof helpers
// ---------------------------------------------------------------------------

proof fn lemma_keystroke_views_push(v: Seq<Keystroke>, k: Keystroke)
    ensures
        keystroke_views(v.push(k)) == keystroke_views(v).push(k@),
{
    assert(keystroke_views(v.push(k)) =~= keystroke_views(v).push(k@));
}

/// A recording ends on exactly three keys: Esc and ctrl-g cancel it, Enter
/// confirms it; every other key, ctrl-modified or not, is recorded.
pub proof fn lemma_recording_ends_only_on_escape_ctrl_g_or_enter(k: KeystrokeView)
    ensures
        is_cancel_key(k) <==> (k.0 == "escape"@ || (k.0 == "g"@ && k.1)),
        !is_cancel_key(k) && is_confirm_key(k) <==> k.0 == "enter"@,
        !is_cancel_key(k) && !is_confirm_key(k) <==> (k.0 != "escape"@ && k.0 != "enter"@ && !(
        k.0 == "g"@ && k.1)),
{
    reveal_strlit("escape");
    reveal_strlit("g");
    reveal_strlit("enter");
    assert("enter"@.len() == 5 && "escape"@.len() == 6 && "g"@.len() == 1);
}

/// Recording one more keystroke extends the keybinding by a space and the
/// keystroke's notation; the first keystroke's notation is the keybinding.
pub proof fn lemma_keybinding_grows_by_notation(keys: Seq<KeystrokeView>, k: KeystrokeView)
    ensures
        keybinding(keys.push(k)) == if keys.len() == 0 {
            k.2
        } else {
            keybinding(keys) + seq![' '] + k.2
        },
{
    assert(notations(keys.push(k)) =~= notations(keys).push(k.2));
    assert(notations(keys.push(k)).drop_last() =~= notations(keys));
}

/// Confirming a recording that holds no keystroke clears the stored value;
/// one that holds keystrokes, each with a notation, stores their keybinding.
pub proof fn lemma_confirmed_value_is_recorded_binding(keys: Seq<KeystrokeView>)
    requires
        forall|i: int| 0 <= i < keys.len() ==> (#[trigger] keys[i]).2.len() > 0,
    ensures
        keys.len() == 0 ==> confirmed_value(keybinding(keys)) is None,
        keys.len() > 0 ==> confirmed_value(keybinding(keys)) == Some(keybinding(keys)),
{
    if keys.len() > 0 {
        lemma_keybinding_grows_by_notation(keys.drop_last(), keys.last());
        assert(keys.drop_last().push(keys.last()) =~= keys);
        assert(keys.last().2.len() > 0);
    }
}

// ---------------------------------------------------------------------------
// Operations
// ---------------------------------------------------------------------------

fn copy_keystrokes(v: &Vec<Keystroke>) -> (r: Vec<Keystroke>)
    ensures
        keystroke_views(r@) == keystroke_views(v@),
{
    let mut r: Vec<Keystroke> = Vec::new();
    let mut i: usize = 0;
    while i < v.len()
        invariant
            i <= v.len(),
            keystroke_views(r@) == keystroke_views(v@.take(i as int)),
        decreases v.len() - i,
    {
        let k = Keystroke {
            key: v[i].key.clone(),
            control: v[i].control,
            notation: v[i].notation.clone(),
        };
        proof {
            lemma_keystroke_views_push(r@, k);
            assert(v@.take(i + 1) =~= v@.take(i as int).push(v@[i as int]));
            lemma_keystroke_views_push(v@.take(i as int), v@[i as int]);
        }
        r.push(k);
        i = i + 1;
    }
    assert(v@.take(v@.len() as int) =~= v@);
    r
}

fn copy_text(o: &Option<String>) -> (r: Option<String>)
    ensures
        text_view(r) == text_view(*o),
{
    match o {
        Some(s) => Some(s.clone()),
        None => None,
    }
}

impl KeystrokeRecorder {
    /// A recorder that is not recording, holding `value`.
    pub fn new(value: Option<String>) -> (r: Self)
        ensures
            !r.recording(),
            r.keys() == Seq::<KeystrokeView>::empty(),
            r.stored() == text_view(value),
            r.idle_holds_no_keys(),
    {
        let r = KeystrokeRecorder { keystrokes: Vec::new(), is_recording: false, value };
        assert(r.keys() =~= Seq::<KeystrokeView>::empty());
        r
    }

    /// The keystrokes recorded so far.
    pub fn keystrokes(&self) -> (r: &[Keystroke])
        ensures
            keystroke_views(r@) == self.keys(),
    {
        self.keystrokes.as_slice()
    }

    /// The current recorded keybinding as a string.
    pub fn keybinding_string(&self) -> (r: String)
        ensures
            r@ == keybinding(self.keys()),
    {
        let ghost names = notations(self.keys());
        let mut r = String::new();
        let n = self.keystrokes.len();
        let mut i: usize = 0;
        proof {
            reveal_strlit(" ");
            assert(names.take(0) =~= Seq::<Seq<char>>::empty());
        }
        while i < n
            invariant
                n == self.keystrokes.len(),
                i <= n,
                names == notations(self.keys()),
                names.len() == n,
                " "@ == seq![' '],
                r@ == joined(names.take(i as int), seq![' ']),
            decreases n - i,
        {
            assert(names[i as int] == self.keystrokes@[i as int].notation@);
            assert(names.take(i + 1).drop_last() =~= names.take(i as int));
            if i > 0 {
                r.append(" ");
            }
            r.append(self.keystrokes[i].notation.as_str());
            i = i + 1;
        }
        assert(names.take(n as int) =~= names);
        r
    }

    /// The current value: the recorded one while a non-empty recording is in
    /// progress, else the stored one.
    pub fn current_value(&self) -> (r: Option<String>)
        ensures
            text_view(r) == self.reported_value(),
    {
        if self.is_recording && self.keystrokes.len() > 0 {
            Some(self.keybinding_string())
        } else {
            copy_text(&self.value)
        }
    }

    /// Whether a click should focus the recorder (and so start a recording):
    /// only while it is not recording.
    pub fn focuses_on_click(&self) -> (r: bool)
        ensures
            r == !self.recording(),
    {
        !self.is_recording
    }

    /// Whether a recording is in progress.
    pub fn is_recording(&self) -> (r: bool)
        ensures
            r == self.recording(),
    {
        self.is_recording
    }

    /// Sets the stored value.
    pub fn set_value(&mut self, value: Option<String>)
        ensures
            final(self).stored() == text_view(value),
            final(self).recording() == old(self).recording(),
            final(self).keys() == old(self).keys(),
    {
        self.value = value;
    }

    /// Starts a recording with an empty sequence, and publishes that status.
    pub fn start_recording(&mut self, status: &mut Option<KeystrokeRecordingState>) -> (ev:
        KeystrokeRecorderEvent)
        ensures
            ev is RecordingStarted,
            publishes(*old(status), *final(status), *final(self)),
            final(self).recording(),
            final(self).keys() == Seq::<KeystrokeView>::empty(),
            final(self).stored() == old(self).stored(),
            final(self).idle_holds_no_keys(),
    {
        self.is_recording = true;
        self.keystrokes.clear();
        assert(self.keys() =~= Seq::<KeystrokeView>::empty());
        KeystrokeRecordingState::update(status, true, Vec::new());
        assert(keystroke_views(Seq::<Keystroke>::empty()) =~= Seq::<KeystrokeView>::empty());
        KeystrokeRecorderEvent::RecordingStarted
    }

    /// Abandons the recording, and publishes that nothing is being recorded;
    /// the stored value stays.
    pub fn cancel_recording(&mut self, status: &mut Option<KeystrokeRecordingState>) -> (ev:
        KeystrokeRecorderEvent)
        ensures
            ev is RecordingCancelled,
            publishes(*old(status), *final(status), *final(self)),
            !final(self).recording(),
            final(self).keys() == Seq::<KeystrokeView>::empty(),
            final(self).stored() == old(self).stored(),
            final(self).idle_holds_no_keys(),
    {
        self.is_recording = false;
        self.keystrokes.clear();
        assert(self.keys() =~= Seq::<KeystrokeView>::empty());
        KeystrokeRecordingState::update(status, false, Vec::new());
        assert(keystroke_views(Seq::<Keystroke>::empty()) =~= Seq::<KeystrokeView>::empty());
        KeystrokeRecorderEvent::RecordingCancelled
    }

    /// Ends the recording, stores its keybinding (none if it is empty), and
    /// publishes that nothing is being recorded.
    pub fn confirm_recording(&mut self, status: &mut Option<KeystrokeRecordingState>) -> (ev:
        KeystrokeRecorderEvent)
        ensures
            publishes(*old(status), *final(status), *final(self)),
            ev matches KeystrokeRecorderEvent::RecordingCompleted(b) && b@ == keybinding(
                old(self).keys(),
            ),
            !final(self).recording(),
            final(self).keys() == Seq::<KeystrokeView>::empty(),
            final(self).stored() == confirmed_value(keybinding(old(self).keys())),
            final(self).idle_holds_no_keys(),
    {
        let binding = self.keybinding_string();
        self.is_recording = false;
        self.value = if binding.as_str().is_empty() {
            None
        } else {
            Some(binding.clone())
        };
        self.keystrokes.clear();
        assert(self.keys() =~= Seq::<KeystrokeView>::empty());
        KeystrokeRecordingState::update(status, false, Vec::new());
        assert(keystroke_views(Seq::<Keystroke>::empty()) =~= Seq::<KeystrokeView>::empty());
        KeystrokeRecorderEvent::RecordingCompleted(binding)
    }

    /// Gaining focus starts a recording.
    pub fn on_focus(&mut self, status: &mut Option<KeystrokeRecordingState>) -> (ev:
        KeystrokeRecorderEvent)
        ensures
            ev is RecordingStarted,
            publishes(*old(status), *final(status), *final(self)),
            final(self).recording(),
            final(self).keys() == Seq::<KeystrokeView>::empty(),
            final(self).stored() == old(self).stored(),
            final(self).idle_holds_no_keys(),
    {
        self.start_recording(status)
    }

    /// Losing focus cancels a recording in progress (publishing that nothing
    /// is being recorded); otherwise nothing changes.
    pub fn on_blur(&mut self, status: &mut Option<KeystrokeRecordingState>) -> (ev: Option<
        KeystrokeRecorderEvent,
    >)
        ensures
            old(self).recording() ==> publishes(*old(status), *final(status), *final(self)),
            !old(self).recording() ==> *final(status) == *old(status),
            old(self).recording() ==> (ev matches Some(KeystrokeRecorderEvent::RecordingCancelled)
                && !final(self).recording() && final(self).keys() == Seq::<KeystrokeView>::empty()),
            !old(self).recording() ==> ev is None && final(self).keys() == old(self).keys()
                && !final(self).recording(),
            final(self).stored() == old(self).stored(),
            old(self).idle_holds_no_keys() ==> final(self).idle_holds_no_keys(),
    {
        if self.is_recording {
            Some(self.cancel_recording(status))
        } else {
            None
        }
    }

    /// Handles a key press: ignored unless recording; Esc or ctrl-g
    /// cancels, Enter confirms, any other key is appended to the sequence.
    /// Unless the key is ignored, the resulting status is published.
    pub fn handle_key_down(
        &mut self,
        keystroke: &Keystroke,
        status: &mut Option<KeystrokeRecordingState>,
    ) -> (o: KeyDownOutcome)
        ensures
            old(self).recording() ==> publishes(*old(status), *final(status), *final(self)),
            !old(self).recording() ==> *final(status) == *old(status),
            final(self).stored() == if old(self).recording() && !is_cancel_key(keystroke@)
                && is_confirm_key(keystroke@) {
                confirmed_value(keybinding(old(self).keys()))
            } else {
                old(self).stored()
            },
            !old(self).recording() ==> o is Ignored && !final(self).recording() && final(self).keys() == old(self).keys(),
            old(self).recording() && is_cancel_key(keystroke@) ==> (o matches KeyDownOutcome::Finished(
                KeystrokeRecorderEvent::RecordingCancelled,
            ) && !final(self).recording() && final(self).keys() == Seq::<KeystrokeView>::empty()),
            old(self).recording() && !is_cancel_key(keystroke@) && is_confirm_key(keystroke@)
                ==> (o matches KeyDownOutcome::Finished(
                KeystrokeRecorderEvent::RecordingCompleted(b),
            ) && b@ == keybinding(old(self).keys()) && !final(self).recording() && final(self).keys() == Seq::<KeystrokeView>::empty()),
            old(self).recording() && !is_cancel_key(keystroke@) && !is_confirm_key(keystroke@)
                ==> o is Recorded && final(self).recording() && final(self).keys() == old(self).keys().push(keystroke@),
            old(self).idle_holds_no_keys() ==> final(self).idle_holds_no_keys(),
            old(self).recording() && (keystroke.key@ == "escape"@ || (keystroke.key@ == "g"@
                && keystroke.control)) ==> (o matches KeyDownOutcome::Finished(
                KeystrokeRecorderEvent::RecordingCancelled,
            ) && !final(self).recording() && final(self).stored() == old(self).stored()),
            old(self).recording() && keystroke.key@ == "enter"@ ==> (o matches KeyDownOutcome::Finished(
                KeystrokeRecorderEvent::RecordingCompleted(b),
            ) && b@ == keybinding(old(self).keys()) && !final(self).recording()),
            old(self).recording() && keystroke.key@ != "escape"@ && keystroke.key@ != "enter"@
                && !(keystroke.key@ == "g"@ && keystroke.control) ==> (o is Recorded
                && final(self).recording() && final(self).keys() == old(self).keys().push(
                keystroke@,
            ) && final(self).stored() == old(self).stored()),
    {
        proof {
            lemma_recording_ends_only_on_escape_ctrl_g_or_enter(keystroke@);
        }
        if !self.is_recording {
            return KeyDownOutcome::Ignored;
        }
        proof {
            reveal_strlit("escape");
            reveal_strlit("g");
            reveal_strlit("enter");
        }
        let key = keystroke.key.as_str();
        if same_text(key, "escape") {
            return KeyDownOutcome::Finished(self.cancel_recording(status));
        }
        if same_text(key, "g") && keystroke.control {
            return KeyDownOutcome::Finished(self.cancel_recording(status));
        }
        if same_text(key, "enter") {
            return KeyDownOutcome::Finished(self.confirm_recording(status));
        }
        let k = Keystroke {
            key: keystroke.key.clone(),
            control: keystroke.control,
            notation: keystroke.notation.clone(),
        };
        proof {
            lemma_keystroke_views_push(self.keystrokes@, k);
        }
        self.keystrokes.push(k);
        let published = copy_keystrokes(&self.keystrokes);
        KeystrokeRecordingState::update(status, true, published);
        KeyDownOutcome::Recorded
    }

    /// What the recorder shows: the sequence so far while recording (empty
    /// until a key is pressed), else the stored value; a hint while there is
    /// no text; an accent while recording; a trailing "..." while a
    /// non-empty recording is in progress.
    pub fn display(&self) -> (d: RecorderDisplay)
        ensures
            d.text@ == self.display_text(),
            d.placeholder_visible == (self.display_text().len() == 0),
            d.hint == if self.recording() {
                PlaceholderHint::RecordingHint
            } else {
                PlaceholderHint::ClickToRecord
            },
            d.active == self.recording(),
            d.show_ellipsis == (self.recording() && self.keys().len() > 0),
    {
        let text = if self.is_recording {
            if self.keystrokes.len() == 0 {
                String::new()
            } else {
                self.keybinding_string()
            }
        } else {
            match &self.value {
                Some(v) => v.clone(),
                None => String::new(),
            }
        };
        let placeholder_visible = text.as_str().is_empty();
        let hint = if self.is_recording {
            PlaceholderHint::RecordingHint
        } else {
            PlaceholderHint::ClickToRecord
        };
        RecorderDisplay {
            text,
            placeholder_visible,
            hint,
            active: self.is_recording,
            show_ellipsis: self.is_recording && self.keystrokes.len() > 0,
        }
    }
}

impl KeystrokeRecordingState {
    /// The status when nothing is being recorded.
    pub fn init() -> (r: Self)
        ensures
            !r.is_recording,
            r.current_sequence@.len() == 0,
    {
        KeystrokeRecordingState { current_sequence: Vec::new(), is_recording: false }
    }

    /// Publishes the recorder's status into the global status, where one is
    /// installed; without one, nothing happens.
    pub fn update(
        state: &mut Option<KeystrokeRecordingState>,
        is_recording: bool,
        keystrokes: Vec<Keystroke>,
    )
        ensures
            *old(state) is None ==> *final(state) is None,
            *old(state) is Some ==> (*final(state) matches Some(s) && s.is_recording == is_recording
                && s.current_sequence == keystrokes),
    {
        if let Some(s) = state {
            s.is_recording = is_recording;
            s.current_sequence = keystrokes;
        }
    }
}

impl Default for KeystrokeRecordingState {
    fn default() -> (r: Self)
        ensures
            !r.is_recording,
            r.current_sequence@.len() == 0,
    {
        Self::init()
    }
}

} // verus!
