//! Rotary gesture formation: identity plus the inactivity boundary.
//!
//! A gesture opens on the first validated detent and closes after `gesture_end_ms` with no new
//! detent. A direction reversal mid-gesture does not split it: one physical twiddle back and
//! forth is one gesture. Gesture identity is session-unique only: [`RotaryGesture::reset`]
//! restarts numbering, which is what a host session ending looks like.

use crate::model::Direction;
use vstd::prelude::*;

verus! {

/// One gesture-lifecycle event emitted by [`RotaryGesture`].
#[derive(Debug, Clone, Copy, PartialEq, Eq, Structural)]
pub enum RotaryEvent {
    /// A new gesture opened. Emitted once, on the first detent of the gesture.
    GestureStarted {
        /// Session-unique identifier of the gesture that just opened.
        gesture_id: u16,
    },
    /// One validated detent belonging to a gesture.
    Detent {
        /// Identifier of the gesture this detent belongs to.
        gesture_id: u16,
        /// Rotational direction of the detent.
        direction: Direction,
    },
    /// A gesture closed after its inactivity window elapsed with no new detent. Emitted exactly
    /// once per gesture.
    GestureEnded {
        /// Identifier of the gesture that just closed.
        gesture_id: u16,
    },
}

/// The gesture former's logical state.
pub struct GestureState {
    /// Inactivity window, in milliseconds.
    pub gesture_end_ms: u32,
    /// Identifier of the most recently opened gesture.
    pub last_id: u16,
    /// `Some((id, last_detent_ms))` while a gesture is open.
    pub open: Option<(u16, u32)>,
}

/// The identifier the next opened gesture gets: one more than the last, wrapping, never `0`.
pub open spec fn next_id(last: u16) -> u16 {
    if last == u16::MAX {
        1
    } else {
        (last + 1) as u16
    }
}

/// A validated detent at `now`: the new state, the `GestureStarted` event if it opened a
/// gesture, and the `Detent` event.
pub open spec fn detent_step(s: GestureState, direction: Direction, now: u32) -> (
    GestureState,
    Option<RotaryEvent>,
    RotaryEvent,
) {
    match s.open {
        Some((id, _)) => (
            GestureState { open: Some((id, now)), ..s },
            None,
            RotaryEvent::Detent { gesture_id: id, direction },
        ),
        None => {
            let id = next_id(s.last_id);
            (
                GestureState { last_id: id, open: Some((id, now)), ..s },
                Some(RotaryEvent::GestureStarted { gesture_id: id }),
                RotaryEvent::Detent { gesture_id: id, direction },
            )
        },
    }
}

/// Elapsed milliseconds from `from` to `now` on a wrapping 32-bit clock.
pub open spec fn elapsed(from: u32, now: u32) -> u32 {
    if now >= from {
        (now - from) as u32
    } else {
        (now + 0x1_0000_0000 - from) as u32
    }
}

/// A poll at `now`: the new state and the `GestureEnded` event if the open gesture closed.
pub open spec fn poll_step(s: GestureState, now: u32) -> (GestureState, Option<RotaryEvent>) {
    match s.open {
        Some((id, last)) => if elapsed(last, now) >= s.gesture_end_ms {
            (GestureState { open: None, ..s }, Some(RotaryEvent::GestureEnded { gesture_id: id }))
        } else {
            (s, None)
        },
        None => (s, None),
    }
}

/// Groups validated logical detents (from the quadrature decoder) into gestures.
///
/// A gesture opens on the first detent and stays open, regardless of direction reversals, until
/// [`poll`](Self::poll) observes that `gesture_end_ms` has elapsed since the last detent. The
/// inactivity window is a tuning target, so it is a constructor parameter rather than a
/// hard-coded constant.
#[derive(Debug)]
pub struct RotaryGesture {
    /// Inactivity window, in milliseconds, after which an open gesture ends.
    gesture_end_ms: u32,
    /// Identifier of the most recently opened gesture. Session-unique.
    last_id: u16,
    /// `Some((id, last_detent_ms))` while a gesture is open.
    open: Option<(u16, u32)>,
}

impl RotaryGesture {
    /// An open gesture is the most recently opened one, and no gesture is ever numbered `0`.
    #[verifier::type_invariant]
    spec fn inv(self) -> bool {
        self.open matches Some((id, _)) ==> id != 0 && id == self.last_id
    }

    /// The logical state.
    pub closed spec fn view(self) -> GestureState {
        GestureState { gesture_end_ms: self.gesture_end_ms, last_id: self.last_id, open: self.open }
    }

    /// Creates a gesture former with no open gesture and the given inactivity window, in
    /// milliseconds.
    pub fn new(gesture_end_ms: u32) -> (g: Self)
        ensures
            g.view() == (GestureState { gesture_end_ms, last_id: 0, open: None }),
    {
        RotaryGesture { gesture_end_ms, last_id: 0, open: None }
    }

    /// Records one validated detent at `now_ms`.
    ///
    /// Returns `(Some(GestureStarted), Detent)` when this detent opened a new gesture, and
    /// `(None, Detent)` when it continued the currently open one. A direction reversal never
    /// opens a new gesture on its own.
    pub fn on_detent(&mut self, direction: Direction, now_ms: u32) -> (r: (
        Option<RotaryEvent>,
        RotaryEvent,
    ))
        ensures
            (final(self).view(), r.0, r.1) == detent_step(old(self).view(), direction, now_ms),
    {
        proof {
            use_type_invariant(&*self);
        }
        let mut started = None;
        let gesture_id = match self.open {
            Some((id, _)) => id,
            None => {
                let id = if self.last_id == u16::MAX {
                    // Never hand out id 0; it reads as "no gesture".
                    1
                } else {
                    self.last_id + 1
                };
                self.last_id = id;
                started = Some(RotaryEvent::GestureStarted { gesture_id: id });
                id
            },
        };
        self.open = Some((gesture_id, now_ms));
        (started, RotaryEvent::Detent { gesture_id, direction })
    }

    /// Closes the open gesture once the inactivity window has elapsed since its last detent, as
    /// of `now_ms`.
    ///
    /// Returns `Some(GestureEnded)` exactly once per gesture (the first poll at or after the
    /// boundary) and `None` otherwise, including when no gesture is open.
    pub fn poll(&mut self, now_ms: u32) -> (r: Option<RotaryEvent>)
        ensures
            (final(self).view(), r) == poll_step(old(self).view(), now_ms),
    {
        proof {
            use_type_invariant(&*self);
        }
        let (id, last_ms) = match self.open {
            Some(open) => open,
            None => {
                return None;
            },
        };
        if now_ms.wrapping_sub(last_ms) >= self.gesture_end_ms {
            self.open = None;
            return Some(RotaryEvent::GestureEnded { gesture_id: id });
        }
        None
    }

    /// Drops any open gesture without emitting `GestureEnded`, and restarts gesture numbering.
    ///
    /// Used when a host session ends: a gesture from the old session must not be completable in a
    /// new one.
    pub fn reset(&mut self)
        ensures
            final(self).view() == (GestureState {
                gesture_end_ms: old(self).view().gesture_end_ms,
                last_id: 0,
                open: None,
            }),
    {
        self.open = None;
        self.last_id = 0;
    }
}

// ---------------------------------------------------------------------------------------------
// Laws
// ---------------------------------------------------------------------------------------------

/// No gesture is ever numbered `0`, whether it is opened or continued.
pub proof fn law_gesture_ids_are_never_zero(s: GestureState, direction: Direction, now: u32)
    requires
        s.open matches Some((id, _)) ==> id != 0,
    ensures
        detent_step(s, direction, now).2 matches RotaryEvent::Detent { gesture_id, .. }
            && gesture_id != 0,
        detent_step(s, direction, now).0.open matches Some((id, _)) && id != 0,
{
}

/// A detent while a gesture is open continues it, in either direction: no new gesture starts
/// and the detent carries the open gesture's id.
pub proof fn law_reversal_does_not_split(s: GestureState, direction: Direction, now: u32)
    requires
        s.open is Some,
    ensures
        detent_step(s, direction, now).1 is None,
        detent_step(s, direction, now).2 == (RotaryEvent::Detent {
            gesture_id: (s.open->0).0,
            direction,
        }),
{
}

/// `GestureEnded` is emitted at most once per gesture: once a poll closes it, no later poll
/// reports anything until the next detent.
pub proof fn law_gesture_ends_once(s: GestureState, now: u32, later: u32)
    requires
        poll_step(s, now).1 is Some,
    ensures
        poll_step(poll_step(s, now).0, later) == (poll_step(s, now).0, None::<RotaryEvent>),
{
}

/// A gesture never ends before its inactivity window has elapsed since its last detent.
pub proof fn law_no_early_end(s: GestureState, now: u32)
    requires
        s.open matches Some((_, last)) && elapsed(last, now) < s.gesture_end_ms,
    ensures
        poll_step(s, now) == (s, None::<RotaryEvent>),
{
}

/// The first detent after a gesture closed opens a gesture with the next id.
pub proof fn law_next_gesture_gets_next_id(s: GestureState, now: u32, direction: Direction, at: u32)
    requires
        poll_step(s, now).1 is Some,
    ensures
        detent_step(poll_step(s, now).0, direction, at).1 == Some(
            RotaryEvent::GestureStarted { gesture_id: next_id(s.last_id) },
        ),
{
}

/// The gesture a detent event belongs to.
pub open spec fn detent_id(e: RotaryEvent) -> u16 {
    match e {
        RotaryEvent::Detent { gesture_id, .. } => gesture_id,
        RotaryEvent::GestureStarted { gesture_id } => gesture_id,
        RotaryEvent::GestureEnded { gesture_id } => gesture_id,
    }
}

/// Every detent restarts the inactivity window: after a detent at `now` a gesture is open and
/// its last detent is `now`, so a poll less than the window after `now` ends nothing, and one
/// a full window after `now` ends that very gesture. A continuous turn with gaps shorter than
/// the window is one gesture, however long it lasts.
pub proof fn law_detent_restarts_the_window(
    s: GestureState,
    direction: Direction,
    now: u32,
    later: u32,
)
    ensures
        detent_step(s, direction, now).0.open matches Some((_, last)) && last == now,
        detent_step(s, direction, now).0.gesture_end_ms == s.gesture_end_ms,
        elapsed(now, later) < s.gesture_end_ms ==> poll_step(
            detent_step(s, direction, now).0,
            later,
        ).1 is None,
        elapsed(now, later) >= s.gesture_end_ms ==> poll_step(
            detent_step(s, direction, now).0,
            later,
        ).1 == Some(RotaryEvent::GestureEnded { gesture_id: detent_id(detent_step(s, direction, now).2) }),
        s.open matches Some((id, _)) ==> detent_step(s, direction, now).0.open == Some((id, now)),
{
}

/// A detent with no gesture open opens a new one: it is announced before the detent, carries
/// the next id after the last one opened (never `0`, wrapping past `65535` to `1`), and the
/// detent belongs to it, in the direction turned.
pub proof fn law_first_detent_opens_a_new_gesture(s: GestureState, direction: Direction, now: u32)
    requires
        s.open is None,
    ensures
        ({
            let (s2, started, detent) = detent_step(s, direction, now);
            let id: u16 = if s.last_id == 65535 {
                1
            } else {
                (s.last_id + 1) as u16
            };
            &&& started == Some(RotaryEvent::GestureStarted { gesture_id: id })
            &&& detent == RotaryEvent::Detent { gesture_id: id, direction }
            &&& s2.last_id == id
            &&& id != 0 && id != s.last_id
        }),
{
}

} // verus!
