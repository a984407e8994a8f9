//! The selection-monitor state machine: per-event decisions for the global
//! input listener (debounce, concurrency guard, host-window filter) and the
//! completion step that dedupes captures, plus the hotkey trigger path.

use vstd::prelude::*;

verus! {

use crate::text::str_eq_chars;
use crate::toolbar::{
    any_ignored, show_allowed, temp_disabled_at, CursorPosition, ToolbarState,
};

/// Two button-release triggers closer than this (in milliseconds) count as
/// one: the second is dropped.
pub const TRIGGER_DEBOUNCE_MS: u64 = 200;

/// Hard ceiling on a capture attempt; a provider still running after this
/// many milliseconds is abandoned and treated as a failed capture.
pub const CAPTURE_TIMEOUT_MS: u64 = 2000;

/// Shared monitor state, mutated only by the event handler and the
/// capture-completion step.
pub struct MonitorState {
    /// When the last capture was started; the debounce anchor.
    pub last_trigger_at: Option<u64>,
    /// The most recently delivered capture, for dedupe.
    pub last_text: Option<String>,
    /// The last pointer location seen, in physical pixels.
    pub last_mouse_position: (i64, i64),
    /// True exactly while a capture task is in flight.
    pub capture_in_progress: bool,
}

impl Default for MonitorState {
    /// A fresh monitor: nothing triggered, nothing captured, no capture
    /// running.
    fn default() -> (r: Self)
        ensures
            r.last_trigger_at is None,
            r.last_text is None,
            r.last_mouse_position == (0i64, 0i64),
            !r.capture_in_progress,
    {
        Self {
            last_trigger_at: None,
            last_text: None,
            last_mouse_position: (0, 0),
            capture_in_progress: false,
        }
    }
}

/// What the event handler does with a button-release event.
#[derive(Clone, Copy, Debug, PartialEq, Eq, Structural)]
pub enum TriggerDecision {
    /// The feature is off: ask the toolbar to hide.
    HideToolbar,
    /// Silently drop the event (debounced, busy, or the host's own window).
    Skip,
    /// Start one capture attempt.
    StartCapture,
}

/// The decision the event handler takes for a button release, in the order
/// the conditions are tested: feature switch, host-window filter, debounce
/// window, concurrency guard.
pub open spec fn spec_trigger_decision(
    m: MonitorState,
    feature_enabled: bool,
    host_window_focused: bool,
    now: u64,
) -> TriggerDecision {
    if !feature_enabled {
        TriggerDecision::HideToolbar
    } else if host_window_focused {
        TriggerDecision::Skip
    } else if m.last_trigger_at matches Some(t) && now - t < TRIGGER_DEBOUNCE_MS {
        TriggerDecision::Skip
    } else if m.capture_in_progress {
        TriggerDecision::Skip
    } else {
        TriggerDecision::StartCapture
    }
}

/// Whether a freshly captured text equals the last delivered one.
pub open spec fn completion_is_duplicate(m: MonitorState, t: String) -> bool {
    m.last_text matches Some(p) && p@ == t@
}

/// The monitor state after the capture task finished: the in-progress guard
/// is always cleared, and the delivered text is recorded unless the capture
/// failed or repeated the previous text.
pub open spec fn monitor_after_completion(m: MonitorState, result: Option<String>) -> MonitorState {
    match result {
        None => MonitorState { capture_in_progress: false, ..m },
        Some(t) => if completion_is_duplicate(m, t) {
            MonitorState { capture_in_progress: false, ..m }
        } else {
            MonitorState { capture_in_progress: false, last_text: Some(t), ..m }
        },
    }
}

/// What the completion step asks the window controller to do.
#[derive(Debug)]
pub enum CompletionAction {
    /// Capture failed, timed out or came back empty: hide the toolbar.
    Hide,
    /// The selection did not change: leave the toolbar as it is.
    Suppress,
    /// Show the toolbar with this text at this position.
    Show { text: String, position: CursorPosition },
}

impl MonitorState {
    /// A pointer-move event: only the cached cursor position changes. The
    /// caller may drop such updates under lock contention.
    pub fn on_mouse_move(&mut self, x: i64, y: i64)
        ensures
            *final(self) == (MonitorState { last_mouse_position: (x, y), ..*old(self) }),
    {
        self.last_mouse_position = (x, y);
    }

    /// A primary-button-release event. Applies, in order: the feature
    /// switch, the host-window filter, the debounce window and the
    /// concurrency guard; only when all pass is a capture started, which
    /// records the trigger time and raises the in-progress guard.
    pub fn on_button_release(
        &mut self,
        feature_enabled: bool,
        host_window_focused: bool,
        now_ms: u64,
    ) -> (r: TriggerDecision)
        requires
            old(self).last_trigger_at matches Some(t) ==> t <= now_ms,
        ensures
            r == spec_trigger_decision(*old(self), feature_enabled, host_window_focused, now_ms),
            r == TriggerDecision::StartCapture ==> *final(self) == (MonitorState {
                last_trigger_at: Some(now_ms),
                capture_in_progress: true,
                ..*old(self)
            }),
            r != TriggerDecision::StartCapture ==> *final(self) == *old(self),
    {
        if !feature_enabled {
            return TriggerDecision::HideToolbar;
        }
        if host_window_focused {
            return TriggerDecision::Skip;
        }
        if let Some(last) = self.last_trigger_at {
            if now_ms - last < TRIGGER_DEBOUNCE_MS {
                return TriggerDecision::Skip;
            }
        }
        if self.capture_in_progress {
            return TriggerDecision::Skip;
        }
        self.last_trigger_at = Some(now_ms);
        self.capture_in_progress = true;
        TriggerDecision::StartCapture
    }

    /// The capture task finished. The in-progress guard is cleared on every
    /// path; a failed or empty capture asks for a hide, a repeat of the last
    /// delivered text is suppressed, and anything else is recorded and shown
    /// at the last cached pointer position.
    pub fn on_capture_complete(&mut self, result: Option<String>) -> (action: CompletionAction)
        ensures
            *final(self) == monitor_after_completion(*old(self), result),
            !final(self).capture_in_progress,
            match result {
                None => action is Hide,
                Some(t) => if completion_is_duplicate(*old(self), t) {
                    action is Suppress
                } else {
                    action matches CompletionAction::Show { text, position }
                        && text@ == t@
                        && position == (CursorPosition {
                            x: old(self).last_mouse_position.0,
                            y: old(self).last_mouse_position.1,
                        })
                },
            },
    {
        self.capture_in_progress = false;
        match result {
            None => CompletionAction::Hide,
            Some(text) => {
                let duplicate = match &self.last_text {
                    Some(prev) => str_eq_chars(prev.as_str(), text.as_str()),
                    None => false,
                };
                if duplicate {
                    CompletionAction::Suppress
                } else {
                    self.last_text = Some(text.clone());
                    let position = CursorPosition {
                        x: self.last_mouse_position.0,
                        y: self.last_mouse_position.1,
                    };
                    CompletionAction::Show { text, position }
                }
            },
        }
    }
}

/// What the hotkey trigger path decides before any capture is attempted.
#[derive(Clone, Copy, Debug, PartialEq, Eq, Structural)]
pub enum HotkeyDecision {
    /// The feature is fully disabled: hide any leftover toolbar and stop.
    DisabledHide,
    /// The foreground application is on the ignore list: hide and stop.
    IgnoredHide,
    /// Run the capture and the forced show; `bypassed_temporary_disable`
    /// records that a deadline was in force and deliberately overridden.
    Proceed { bypassed_temporary_disable: bool },
}

/// The hotkey path's decision rule, in order: feature switch, ignore list,
/// temporary disablement. Explicit user intent beats the automatic
/// temporary-disable deadline, which is noted and overridden rather than
/// honoured; the ignore list stays in force even then.
pub open spec fn spec_hotkey_decision(s: ToolbarState, now: u64, ids: Seq<String>) -> HotkeyDecision {
    if !s.enabled {
        HotkeyDecision::DisabledHide
    } else if any_ignored(s.ignored_apps@, ids) {
        HotkeyDecision::IgnoredHide
    } else {
        HotkeyDecision::Proceed {
            bypassed_temporary_disable: temp_disabled_at(s.temporary_disabled_until, now),
        }
    }
}

/// Takes the hotkey path's decision against the shared toolbar state. Reading the
/// deadline applies its lazy expiry, so an expired deadline is cleared
/// here like everywhere else.
pub fn decide_hotkey(state: &mut ToolbarState, now_ms: u64, active_ids: &Vec<String>) -> (r:
    HotkeyDecision)
    ensures
        r == spec_hotkey_decision(*old(state), now_ms, active_ids@),
        final(state).enabled == old(state).enabled,
        final(state).ignored_apps == old(state).ignored_apps,
        final(state).last_shown_at == old(state).last_shown_at,
        final(state).last_text == old(state).last_text,
        final(state).temporary_disabled_until == (
            if old(state).enabled && !any_ignored(old(state).ignored_apps@, active_ids@)
                && !temp_disabled_at(old(state).temporary_disabled_until, now_ms) {
                None::<u64>
            } else {
                old(state).temporary_disabled_until
            }
        ),
{
    if !state.is_enabled() {
        return HotkeyDecision::DisabledHide;
    }
    let n = active_ids.len();
    let mut k: usize = 0;
    while k < n
        invariant
            0 <= k <= n,
            n == active_ids@.len(),
            *state == *old(state),
            old(state).enabled,
            forall|j: int|
                0 <= j < k ==> !crate::toolbar::spec_should_ignore(
                    old(state).ignored_apps@,
                    crate::text::lower_of(crate::text::spec_trim(active_ids@[j]@)),
                ),
        decreases n - k,
    {
        let id: &String = &active_ids[k];
        if state.should_ignore_app(id.as_str()) {
            return HotkeyDecision::IgnoredHide;
        }
        k = k + 1;
    }
    let bypassed = state.is_temporarily_disabled(now_ms);
    HotkeyDecision::Proceed { bypassed_temporary_disable: bypassed }
}

/// Law: debounce. Once a trigger at `t1` started a capture (so the state
/// records `t1`), a second button release less than `TRIGGER_DEBOUNCE_MS`
/// later never starts another capture, whatever else changed.
pub proof fn lemma_debounce(
    m: MonitorState,
    feature_enabled: bool,
    host_window_focused: bool,
    t1: u64,
    t2: u64,
)
    requires
        m.last_trigger_at == Some(t1),
        t1 <= t2,
        t2 - t1 < TRIGGER_DEBOUNCE_MS,
    ensures
        spec_trigger_decision(m, feature_enabled, host_window_focused, t2)
            != TriggerDecision::StartCapture,
{
}

/// Law: concurrency guard. While a capture is in flight, no button release
/// starts a second one.
pub proof fn lemma_concurrency_guard(
    m: MonitorState,
    feature_enabled: bool,
    host_window_focused: bool,
    now: u64,
)
    requires
        m.capture_in_progress,
    ensures
        spec_trigger_decision(m, feature_enabled, host_window_focused, now)
            != TriggerDecision::StartCapture,
{
}

/// Law: the completion reset is idempotent. Whatever the capture's outcome,
/// completion clears the in-progress guard, and a further completion leaves
/// the state exactly as it was.
pub proof fn lemma_completion_reset_idempotent(m: MonitorState, first: Option<String>)
    ensures
        !monitor_after_completion(m, first).capture_in_progress,
        monitor_after_completion(monitor_after_completion(m, first), None)
            == monitor_after_completion(m, first),
{
}

/// Law: dedupe. After a capture delivered text `t`, a second capture is
/// suppressed as a duplicate exactly when it repeats the same characters; a
/// different text is shown again.
pub proof fn lemma_dedupe(m: MonitorState, t: String, u: String)
    ensures
        completion_is_duplicate(monitor_after_completion(m, Some(t)), u) <==> u@ == t@,
{
    let m1 = monitor_after_completion(m, Some(t));
    if completion_is_duplicate(m, t) {
        assert(m1.last_text == m.last_text);
    }
}

/// Law: the hotkey bypasses temporary disablement. With the feature enabled,
/// the foreground application not ignored, and a deadline still in force,
/// the hotkey path proceeds (recording the bypass) while the automatic mouse
/// path suppresses the show for the same state, the same instant and the
/// same foreground applications.
pub proof fn lemma_hotkey_bypasses_temporary_disable(
    s: ToolbarState,
    now_wall: u64,
    now_mono: u64,
    ids: Seq<String>,
    trimmed: Seq<char>,
)
    requires
        s.enabled,
        !any_ignored(s.ignored_apps@, ids),
        temp_disabled_at(s.temporary_disabled_until, now_wall),
    ensures
        spec_hotkey_decision(s, now_wall, ids) == (HotkeyDecision::Proceed {
            bypassed_temporary_disable: true,
        }),
        !show_allowed(s, trimmed, now_wall, now_mono, ids),
{
}

} // verus!
