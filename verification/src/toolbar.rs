//! Shared toolbar state and the rules that decide whether a captured
//! selection may be shown: feature switch, temporary disablement with lazy
//! expiry, ignored-application matching and the re-show throttle.

use vstd::prelude::*;

verus! {

use crate::text::{
    clone_opt_string, lower_of, lowercase, seq_contains, seq_ends_with, spec_trim,
    str_contains_sub, str_ends_with_sub, str_eq_chars, trim_str,
};

/// Logical toolbar window width in pixels, before display scaling.
pub const TOOLBAR_WIDTH: u32 = 80;

/// Logical toolbar window height in pixels, before display scaling.
pub const TOOLBAR_HEIGHT: u32 = 35;

/// Logical gap kept between the cursor and the toolbar's lower edge.
pub const TOOLBAR_VERTICAL_OFFSET: u32 = 10;

/// Re-show throttle: the same text shown again within this window (in
/// milliseconds) is suppressed.
pub const SHOW_THROTTLE_MS: u64 = 120;

/// A pointer location in physical screen pixels.
#[derive(Clone, Copy, Debug, PartialEq, Eq, Structural)]
pub struct CursorPosition {
    pub x: i64,
    pub y: i64,
}

/// Toolbar window state: the master switch, the temporary-disable deadline,
/// the ignored-application patterns, and the most recently shown text used
/// by the re-show throttle. `last_text` is cleared whenever the toolbar is
/// hidden. Times are milliseconds; the caller passes the clock in.
pub struct ToolbarState {
    pub last_shown_at: Option<u64>,
    pub last_text: Option<String>,
    pub enabled: bool,
    pub temporary_disabled_until: Option<u64>,
    pub ignored_apps: Vec<String>,
}

impl Default for ToolbarState {
    /// A fresh state: enabled, nothing shown yet, no deadline, no patterns.
    fn default() -> (r: Self)
        ensures
            r.last_shown_at is None,
            r.last_text is None,
            r.enabled,
            r.temporary_disabled_until is None,
            r.ignored_apps@.len() == 0,
    {
        Self {
            last_shown_at: None,
            last_text: None,
            enabled: true,
            temporary_disabled_until: None,
            ignored_apps: Vec::new(),
        }
    }
}

/// Whether a deadline is still in force at `now`.
pub open spec fn temp_disabled_at(deadline: Option<u64>, now: u64) -> bool {
    deadline matches Some(d) && now < d
}

/// How one ignored pattern matches a normalized identifier: equality, a
/// suffix, or any substring.
pub open spec fn pattern_hits(cand: Seq<char>, p: Seq<char>) -> bool {
    cand == p || seq_ends_with(cand, p) || seq_contains(cand, p)
}

/// Whether a normalized (trimmed, lower-case) identifier is matched by any
/// stored pattern; an empty identifier never matches.
pub open spec fn spec_should_ignore(patterns: Seq<String>, cand: Seq<char>) -> bool {
    cand.len() > 0 && exists|k: int| 0 <= k < patterns.len() && pattern_hits(cand, patterns[k]@)
}

/// The patterns that `set_ignored_apps` keeps: each entry trimmed and
/// lower-cased, empty results dropped, order preserved.
pub open spec fn normalized_patterns(apps: Seq<String>) -> Seq<Seq<char>>
    decreases apps.len(),
{
    if apps.len() == 0 {
        Seq::empty()
    } else {
        let prefix = normalized_patterns(apps.drop_last());
        let p = lower_of(spec_trim(apps[apps.len() - 1]@));
        if p.len() > 0 {
            prefix.push(p)
        } else {
            prefix
        }
    }
}

/// The views of a pattern list.
pub open spec fn patterns_view(v: Seq<String>) -> Seq<Seq<char>> {
    v.map_values(|p: String| p@)
}

/// Whether any of the foreground application's identifiers is ignored.
pub open spec fn any_ignored(patterns: Seq<String>, ids: Seq<String>) -> bool {
    exists|k: int|
        0 <= k < ids.len() && spec_should_ignore(patterns, lower_of(spec_trim(ids[k]@)))
}

/// The re-show throttle: the same text within `SHOW_THROTTLE_MS` is
/// suppressed.
pub open spec fn throttled(
    last_at: Option<u64>,
    last_text: Option<String>,
    trimmed: Seq<char>,
    now: u64,
) -> bool {
    &&& last_at matches Some(t) && now - t < SHOW_THROTTLE_MS
    &&& last_text matches Some(lt) && lt@ == trimmed
}

/// All conditions a selection must meet before the toolbar may be shown.
/// The temporary-disable deadline lives on the wall clock; the throttle on
/// a monotonic one.
pub open spec fn show_allowed(
    s: ToolbarState,
    trimmed: Seq<char>,
    now_wall: u64,
    now_mono: u64,
    ids: Seq<String>,
) -> bool {
    &&& trimmed.len() > 0
    &&& s.enabled
    &&& !temp_disabled_at(s.temporary_disabled_until, now_wall)
    &&& !any_ignored(s.ignored_apps@, ids)
    &&& !throttled(s.last_shown_at, s.last_text, trimmed, now_mono)
}

impl ToolbarState {
    pub fn is_enabled(&self) -> (r: bool)
        ensures
            r == self.enabled,
    {
        self.enabled
    }

    pub fn set_enabled(&mut self, enabled: bool)
        ensures
            *final(self) == (ToolbarState { enabled, ..*old(self) }),
    {
        self.enabled = enabled;
    }

    pub fn set_temporary_disabled_until(&mut self, until: Option<u64>)
        ensures
            *final(self) == (ToolbarState { temporary_disabled_until: until, ..*old(self) }),
    {
        self.temporary_disabled_until = until;
    }

    pub fn temporary_disabled_until(&self) -> (r: Option<u64>)
        ensures
            r == self.temporary_disabled_until,
    {
        self.temporary_disabled_until
    }

    /// Lazy expiry: a deadline at or before `now` is cleared by this very
    /// read and reported as "not disabled"; no background timer is involved.
    pub fn is_temporarily_disabled(&mut self, now_ms: u64) -> (r: bool)
        ensures
            r == temp_disabled_at(old(self).temporary_disabled_until, now_ms),
            r ==> *final(self) == *old(self),
            !r ==> *final(self) == (ToolbarState {
                temporary_disabled_until: None,
                ..*old(self)
            }),
    {
        match self.temporary_disabled_until {
            Some(until) => {
                if now_ms >= until {
                    self.temporary_disabled_until = None;
                    false
                } else {
                    true
                }
            },
            None => false,
        }
    }

    /// Stores the ignored-application patterns, each trimmed and
    /// lower-cased, dropping entries that end up empty.
    pub fn set_ignored_apps(&mut self, apps: Vec<String>)
        ensures
            patterns_view(final(self).ignored_apps@) == normalized_patterns(apps@),
            final(self).last_shown_at == old(self).last_shown_at,
            final(self).last_text == old(self).last_text,
            final(self).enabled == old(self).enabled,
            final(self).temporary_disabled_until == old(self).temporary_disabled_until,
    {
        let n = apps.len();
        let mut kept: Vec<String> = Vec::new();
        let mut i: usize = 0;
        while i < n
            invariant
                0 <= i <= n,
                n == apps@.len(),
                patterns_view(kept@) =~= normalized_patterns(apps@.take(i as int)),
            decreases n - i,
        {
            let entry: &String = &apps[i];
            let low = lowercase(trim_str(entry.as_str()));
            proof {
                assert(apps@.take(i as int + 1).drop_last() =~= apps@.take(i as int));
                assert(apps@.take(i as int + 1)[i as int] == apps@[i as int]);
            }
            if !low.as_str().is_empty() {
                kept.push(low);
                proof {
                    assert(patterns_view(kept@) =~= normalized_patterns(
                        apps@.take(i as int + 1),
                    ));
                }
            }
            i = i + 1;
        }
        proof {
            assert(apps@.take(n as int) =~= apps@);
        }
        self.ignored_apps = kept;
    }

    pub fn ignored_apps(&self) -> (r: &[String])
        ensures
            r@ == self.ignored_apps@,
    {
        self.ignored_apps.as_slice()
    }

    /// Decides whether a foreground-application identifier is ignored. The
    /// identifier is trimmed and lower-cased, then matched against every
    /// stored pattern by equality, suffix, or substring.
    pub fn should_ignore_app(&self, identifier: &str) -> (r: bool)
        ensures
            r == spec_should_ignore(self.ignored_apps@, lower_of(spec_trim(identifier@))),
    {
        if self.ignored_apps.len() == 0 {
            return false;
        }
        let candidate = lowercase(trim_str(identifier));
        if candidate.as_str().is_empty() {
            return false;
        }
        let n = self.ignored_apps.len();
        let mut k: usize = 0;
        while k < n
            invariant
                0 <= k <= n,
                n == self.ignored_apps@.len(),
                candidate@ == lower_of(spec_trim(identifier@)),
                candidate@.len() > 0,
                forall|j: int|
                    0 <= j < k ==> !pattern_hits(candidate@, self.ignored_apps@[j]@),
            decreases n - k,
        {
            let pattern: &String = &self.ignored_apps[k];
            if str_eq_chars(candidate.as_str(), pattern.as_str())
                || str_ends_with_sub(candidate.as_str(), pattern.as_str())
                || str_contains_sub(candidate.as_str(), pattern.as_str()) {
                return true;
            }
            k = k + 1;
        }
        false
    }

    /// Clears what the throttle remembers; called whenever the toolbar is
    /// hidden, so that a hide is never mistaken for a recent show.
    pub fn clear_on_hide(&mut self)
        ensures
            *final(self) == (ToolbarState {
                last_shown_at: None,
                last_text: None,
                ..*old(self)
            }),
    {
        self.last_text = None;
        self.last_shown_at = None;
    }

    /// The decision run before every toolbar show. Applies, in order: non-empty
    /// text, the master switch, the temporary-disable deadline (with lazy
    /// expiry, on the wall clock), the ignored-application patterns, and the
    /// re-show throttle (on the monotonic clock). On success records the
    /// show time and text.
    pub fn should_show(
        &mut self,
        text: &str,
        now_wall_ms: u64,
        now_mono_ms: u64,
        active_ids: &Vec<String>,
    ) -> (shown: bool)
        requires
            old(self).last_shown_at matches Some(t) ==> t <= now_mono_ms,
        ensures
            shown == show_allowed(*old(self), spec_trim(text@), now_wall_ms, now_mono_ms, active_ids@),
            final(self).enabled == old(self).enabled,
            final(self).ignored_apps == old(self).ignored_apps,
            final(self).temporary_disabled_until == (
                if spec_trim(text@).len() > 0 && old(self).enabled
                    && !temp_disabled_at(old(self).temporary_disabled_until, now_wall_ms) {
                    None::<u64>
                } else {
                    old(self).temporary_disabled_until
                }
            ),
            shown ==> final(self).last_shown_at == Some(now_mono_ms)
                && (final(self).last_text matches Some(t) && t@ == spec_trim(text@)),
            !shown ==> final(self).last_shown_at == old(self).last_shown_at
                && final(self).last_text == old(self).last_text,
    {
        let trimmed = trim_str(text);
        if trimmed.unicode_len() == 0 {
            return false;
        }
        if !self.enabled {
            return false;
        }
        if self.is_temporarily_disabled(now_wall_ms) {
            return false;
        }
        let ghost mid = ToolbarState { temporary_disabled_until: None, ..*old(self) };
        let id_count = active_ids.len();
        let mut k: usize = 0;
        while k < id_count
            invariant
                0 <= k <= id_count,
                id_count == active_ids@.len(),
                *self == mid,
                mid == (ToolbarState { temporary_disabled_until: None, ..*old(self) }),
                old(self).enabled,
                spec_trim(text@).len() > 0,
                !temp_disabled_at(old(self).temporary_disabled_until, now_wall_ms),
                forall|j: int|
                    0 <= j < k ==> !spec_should_ignore(
                        old(self).ignored_apps@,
                        lower_of(spec_trim(active_ids@[j]@)),
                    ),
            decreases id_count - k,
        {
            let id: &String = &active_ids[k];
            if self.should_ignore_app(id.as_str()) {
                return false;
            }
            k = k + 1;
        }
        if let Some(last) = self.last_shown_at {
            if now_mono_ms - last < SHOW_THROTTLE_MS {
                let same = match &self.last_text {
                    Some(prev) => str_eq_chars(prev.as_str(), trimmed),
                    None => false,
                };
                if same {
                    return false;
                }
            }
        }
        self.last_shown_at = Some(now_mono_ms);
        self.last_text = Some(trimmed.to_owned());
        true
    }

    /// First step of the hotkey's forced show: saves the current
    /// temporary-disable deadline and clears it, so that the ordinary show
    /// path is not blocked by it.
    pub fn begin_force_show(&mut self) -> (saved: Option<u64>)
        ensures
            saved == old(self).temporary_disabled_until,
            *final(self) == (ToolbarState { temporary_disabled_until: None, ..*old(self) }),
    {
        let original = self.temporary_disabled_until;
        if original.is_some() {
            self.temporary_disabled_until = None;
        }
        original
    }

    /// Last step of the hotkey's forced show: restores the saved deadline,
    /// but only when no other actor set a new one meanwhile.
    pub fn end_force_show(&mut self, saved: Option<u64>)
        ensures
            *final(self) == (match (saved, old(self).temporary_disabled_until) {
                (Some(d), None) => ToolbarState {
                    temporary_disabled_until: Some(d),
                    ..*old(self)
                },
                _ => *old(self),
            }),
    {
        if let Some(until) = saved {
            if self.temporary_disabled_until.is_none() {
                self.temporary_disabled_until = Some(until);
            }
        }
    }
}

/// Computes where the toolbar is placed for a cursor location: centered
/// horizontally above the cursor, lifted by the toolbar height plus the
/// vertical offset, both coordinates clamped to be non-negative. The width,
/// height and offset arrive already scaled for the display.
pub fn compute_toolbar_position(
    cursor: CursorPosition,
    width: u32,
    height: u32,
    offset_y: u32,
) -> (r: CursorPosition)
    ensures
        r.x == if cursor.x - width as int / 2 > 0 {
            cursor.x - width as int / 2
        } else {
            0int
        },
        r.y == if cursor.y - height as int - offset_y as int > 0 {
            cursor.y - height as int - offset_y as int
        } else {
            0int
        },
{
    let half: i64 = (width / 2) as i64;
    let drop: i64 = height as i64 + offset_y as i64;
    let x: i64 = if cursor.x > half {
        cursor.x - half
    } else {
        0
    };
    let y: i64 = if cursor.y > drop {
        cursor.y - drop
    } else {
        0
    };
    CursorPosition { x, y }
}

/// A read-only view of the toolbar state handed to the window's content
/// when it first loads.
#[derive(Debug)]
pub struct SelectionToolbarSnapshot {
    pub last_text: Option<String>,
    pub enabled: bool,
    pub temporary_disabled_until_ms: Option<u64>,
    pub ignored_apps: Vec<String>,
}

fn clone_string_vec(v: &Vec<String>) -> (r: Vec<String>)
    ensures
        r@ == v@,
{
    let n = v.len();
    let mut out: Vec<String> = Vec::new();
    let mut i: usize = 0;
    while i < n
        invariant
            0 <= i <= n,
            n == v@.len(),
            out@ =~= v@.take(i as int),
        decreases n - i,
    {
        let elem: &String = &v[i];
        out.push(elem.clone());
        proof {
            assert(out@ =~= v@.take(i as int + 1));
        }
        i = i + 1;
    }
    proof {
        assert(v@.take(n as int) =~= v@);
    }
    out
}

impl ToolbarState {
    /// A snapshot of the current state. Reading it applies the lazy expiry:
    /// a deadline already passed is cleared and reported as absent.
    pub fn snapshot(&mut self, now_ms: u64) -> (r: SelectionToolbarSnapshot)
        ensures
            r.last_text == old(self).last_text,
            r.enabled == old(self).enabled,
            r.temporary_disabled_until_ms == (
                if temp_disabled_at(old(self).temporary_disabled_until, now_ms) {
                    old(self).temporary_disabled_until
                } else {
                    None::<u64>
                }
            ),
            r.ignored_apps@ == old(self).ignored_apps@,
            *final(self) == (
                if temp_disabled_at(old(self).temporary_disabled_until, now_ms) {
                    *old(self)
                } else {
                    ToolbarState { temporary_disabled_until: None, ..*old(self) }
                }
            ),
    {
        let temporary_disabled_until_ms = if self.is_temporarily_disabled(now_ms) {
            self.temporary_disabled_until
        } else {
            None
        };
        SelectionToolbarSnapshot {
            last_text: clone_opt_string(&self.last_text),
            enabled: self.enabled,
            temporary_disabled_until_ms,
            ignored_apps: clone_string_vec(&self.ignored_apps),
        }
    }
}

/// Law: temporary disablement expires lazily. With a deadline `d` in force,
/// any read strictly before `d` sees the feature disabled and any read at or
/// after `d` sees it enabled again, with no background timer involved.
pub proof fn lemma_lazy_expiry(deadline: u64, before: u64, after: u64)
    requires
        before < deadline,
        deadline <= after,
    ensures
        temp_disabled_at(Some(deadline), before),
        !temp_disabled_at(Some(deadline), after),
{
}

/// Law: ignored-application matching is substring matching. Any stored
/// pattern that occurs anywhere inside the normalized identifier makes the
/// identifier ignored, so the pattern "notepad" suppresses both
/// "notepad.exe" and "notepadplusplus.exe".
pub proof fn lemma_ignored_by_substring(patterns: Seq<String>, cand: Seq<char>, k: int)
    requires
        0 <= k < patterns.len(),
        seq_contains(cand, patterns[k]@),
        cand.len() > 0,
    ensures
        spec_should_ignore(patterns, cand),
{
    assert(pattern_hits(cand, patterns[k]@));
}

} // verus!
