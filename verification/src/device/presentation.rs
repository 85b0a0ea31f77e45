//! What the desktop asked the panel to present, with its session and revision discipline.
//!
//! A presentation counts only when it belongs to the accepted session and carries a newer
//! revision than the last one applied in that session, so a stale presentation from an earlier
//! session can never render, and a restarted desktop starting again at revision one is not
//! mistaken for a stale one. A transient value overlay expires locally after its window, back
//! to the primary state; expiry compares elapsed time, so it is safe across an uptime rollover.

use crate::input::gesture::elapsed;
use vstd::prelude::*;

verus! {

/// A presentation as received. `P` is the primary state shown, `V` the value overlay.
#[derive(Debug, Clone, Copy, PartialEq, Eq)]
pub struct Presentation<P, V> {
    /// The session the desktop sent it in.
    pub session: u32,
    /// Increases with every new presentation within a session.
    pub revision: u32,
    /// The primary state to show.
    pub primary: P,
    /// The value overlay, if any.
    pub value: Option<V>,
    /// How long the overlay stays up, in ms; `0` keeps it up.
    pub transient_ms: u16,
}

/// The logical state of what is presented.
pub struct PresentationView<P, V> {
    /// The accepted session, once one began.
    pub session: Option<u32>,
    /// The last revision applied in that session.
    pub last_revision: Option<u32>,
    /// The primary state shown.
    pub primary: P,
    /// The value overlay.
    pub value: Option<V>,
    /// The overlay's window; `0` keeps it up.
    pub transient_ms: u16,
    /// When the last presentation was applied.
    pub applied_at: u32,
}

/// Whether `p` counts in state `s`.
pub open spec fn accepts<P, V>(s: PresentationView<P, V>, p: Presentation<P, V>) -> bool {
    &&& s.session == Some(p.session)
    &&& match s.last_revision {
        Some(last) => p.revision > last,
        None => true,
    }
}

/// The state after `p` arrived at `now`, and whether it counted.
pub open spec fn apply_spec<P, V>(s: PresentationView<P, V>, p: Presentation<P, V>, now: u32) -> (
    PresentationView<P, V>,
    bool,
) {
    if accepts(s, p) {
        (
            PresentationView {
                session: s.session,
                last_revision: Some(p.revision),
                primary: p.primary,
                value: p.value,
                transient_ms: p.transient_ms,
                applied_at: now,
            },
            true,
        )
    } else {
        (s, false)
    }
}

/// The value overlay shown at `now`.
pub open spec fn value_at_spec<P, V>(s: PresentationView<P, V>, now: u32) -> Option<V> {
    if s.transient_ms == 0 || elapsed(s.applied_at, now) < s.transient_ms {
        s.value
    } else {
        None
    }
}

/// What the panel presents for the accepted session.
pub struct PresentationState<P, V> {
    session: Option<u32>,
    last_revision: Option<u32>,
    primary: P,
    value: Option<V>,
    transient_ms: u16,
    applied_at: u32,
}

impl<P: Copy, V: Copy> PresentationState<P, V> {
    /// The logical state.
    pub closed spec fn view(self) -> PresentationView<P, V> {
        PresentationView {
            session: self.session,
            last_revision: self.last_revision,
            primary: self.primary,
            value: self.value,
            transient_ms: self.transient_ms,
            applied_at: self.applied_at,
        }
    }

    /// No session yet; `initial` is shown with no overlay.
    pub fn new(initial: P) -> (s: Self)
        ensures
            s.view() == (PresentationView::<P, V> {
                session: None,
                last_revision: None,
                primary: initial,
                value: None,
                transient_ms: 0,
                applied_at: 0,
            }),
    {
        PresentationState {
            session: None,
            last_revision: None,
            primary: initial,
            value: None,
            transient_ms: 0,
            applied_at: 0,
        }
    }

    /// A session with nonce `session` was accepted: only its presentations count from now on,
    /// starting again from any revision.
    pub fn begin_session(&mut self, session: u32)
        ensures
            final(self).view() == (PresentationView {
                session: Some(session),
                last_revision: None,
                ..old(self).view()
            }),
    {
        self.session = Some(session);
        self.last_revision = None;
    }

    /// Applies `p`, received at `now`, if it counts. Returns whether it did.
    pub fn apply(&mut self, p: &Presentation<P, V>, now: u32) -> (accepted: bool)
        ensures
            (final(self).view(), accepted) == apply_spec(old(self).view(), *p, now),
    {
        let fresh = match self.last_revision {
            Some(last) => p.revision > last,
            None => true,
        };
        let same_session = match self.session {
            Some(s) => s == p.session,
            None => false,
        };
        if same_session && fresh {
            self.last_revision = Some(p.revision);
            self.primary = p.primary;
            self.value = p.value;
            self.transient_ms = p.transient_ms;
            self.applied_at = now;
            true
        } else {
            false
        }
    }

    /// The value overlay shown at `now`: gone once its window elapsed, unless it is persistent.
    pub fn value_at(&self, now: u32) -> (v: Option<V>)
        ensures
            v == value_at_spec(self.view(), now),
    {
        if self.transient_ms == 0 || now.wrapping_sub(self.applied_at) < self.transient_ms as u32 {
            self.value
        } else {
            None
        }
    }

    /// The primary state shown.
    pub fn primary(&self) -> (p: P)
        ensures
            p == self.view().primary,
    {
        self.primary
    }
}

/// Within a session, every accepted presentation carries a strictly newer revision than the
/// one before it, and a presentation from another session never counts.
pub proof fn law_revisions_only_move_forward<P, V>(
    s: PresentationView<P, V>,
    p: Presentation<P, V>,
    now: u32,
)
    ensures
        apply_spec(s, p, now).1 ==> s.session == Some(p.session),
        apply_spec(s, p, now).1 && s.last_revision is Some ==> p.revision
            > s.last_revision->0,
        !apply_spec(s, p, now).1 ==> apply_spec(s, p, now).0 == s,
{
}

/// Re-applying the same presentation never counts twice.
pub proof fn law_a_presentation_counts_once<P, V>(
    s: PresentationView<P, V>,
    p: Presentation<P, V>,
    now: u32,
    later: u32,
)
    ensures
        !apply_spec(apply_spec(s, p, now).0, p, later).1 || !apply_spec(s, p, now).1,
{
}

/// The first presentation of a fresh session counts, whatever its revision.
pub proof fn law_new_session_accepts_any_revision<P, V>(
    s: PresentationView<P, V>,
    session: u32,
    p: Presentation<P, V>,
    now: u32,
)
    requires
        p.session == session,
    ensures
        apply_spec(
            PresentationView { session: Some(session), last_revision: None, ..s },
            p,
            now,
        ).1,
{
}

/// A persistent overlay never expires; a transient one is shown exactly while less than its
/// window has elapsed since it was applied, measured across an uptime rollover.
pub proof fn law_overlay_expiry<P, V>(s: PresentationView<P, V>, now: u32)
    ensures
        s.transient_ms == 0 ==> value_at_spec(s, now) == s.value,
        s.transient_ms > 0 ==> (value_at_spec(s, now) == if elapsed(s.applied_at, now)
            < s.transient_ms {
            s.value
        } else {
            None
        }),
{
}

/// A presentation counts exactly when it belongs to the accepted session and is newer than
/// the last revision applied there. One that counts replaces what is shown: the primary state,
/// the value overlay and its window become the presentation's, the revision is recorded, and at
/// the instant it is applied the overlay shown is the presentation's value. One that does not
/// count changes nothing.
pub proof fn law_an_accepted_presentation_is_what_is_shown<P, V>(
    s: PresentationView<P, V>,
    p: Presentation<P, V>,
    now: u32,
)
    ensures
        apply_spec(s, p, now).1 <==> (s.session == Some(p.session) && (s.last_revision matches Some(
            last,
        ) ==> p.revision > last)),
        apply_spec(s, p, now).1 ==> ({
            let t = apply_spec(s, p, now).0;
            &&& t.primary == p.primary
            &&& t.value == p.value
            &&& t.transient_ms == p.transient_ms
            &&& t.last_revision == Some(p.revision)
            &&& t.session == s.session
            &&& value_at_spec(t, now) == p.value
        }),
        !apply_spec(s, p, now).1 ==> apply_spec(s, p, now).0 == s,
{
}

} // verus!
