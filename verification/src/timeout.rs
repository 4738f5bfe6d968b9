//! The idle timeout: a cancellable, resettable deadline. Time is modelled
//! as a caller-supplied monotone clock in milliseconds; the driver that
//! owns the stream reads the clock and polls. The timer resolves exactly
//! once, only when polled at or after its deadline, and never again after
//! it has been cancelled.

use vstd::prelude::*;

verus! {

/// A timer that may be armed with a duration (after which it expires if
/// not reset) or unarmed (it never expires).
pub struct Timeout {
    duration: Option<u64>,
    deadline: u64,
    fired: bool,
    active: bool,
}

impl Timeout {
    /// The configured duration; `None` means the timer never fires.
    pub closed spec fn duration(&self) -> Option<u64> {
        self.duration
    }

    /// The instant at or after which an armed, active timer expires.
    pub closed spec fn deadline(&self) -> u64 {
        self.deadline
    }

    /// Whether the timer has already resolved once.
    pub closed spec fn has_fired(&self) -> bool {
        self.fired
    }

    /// Whether the timer is still live; a cancelled timer is inert.
    pub closed spec fn is_active(&self) -> bool {
        self.active
    }

    /// An armed timer counts down towards a deadline.
    pub open spec fn is_armed(&self) -> bool {
        self.duration() is Some
    }

    /// A timer that expires `duration_ms` after `now` unless reset first.
    pub fn after(now: u64, duration_ms: u64) -> (t: Timeout)
        requires
            now + duration_ms <= u64::MAX,
        ensures
            t.duration() == Some(duration_ms),
            t.deadline() == now + duration_ms,
            !t.has_fired(),
            t.is_active(),
    {
        Timeout { duration: Some(duration_ms), deadline: now + duration_ms, fired: false, active: true }
    }

    /// A timer that never fires, for streams with the timeout disabled.
    pub fn never() -> (t: Timeout)
        ensures
            t.duration() is None,
            !t.has_fired(),
            t.is_active(),
    {
        Timeout { duration: None, deadline: 0, fired: false, active: true }
    }

    /// Records forward progress: an armed timer's deadline moves to
    /// `now + duration`. An unarmed timer is unchanged.
    pub fn reset(&mut self, now: u64)
        requires
            old(self).duration() is Some ==> now + old(self).duration()->0 <= u64::MAX,
        ensures
            final(self).duration() == old(self).duration(),
            final(self).has_fired() == old(self).has_fired(),
            final(self).is_active() == old(self).is_active(),
            old(self).is_armed() ==> final(self).deadline() == now + old(self).duration()->0,
            !old(self).is_armed() ==> final(self).deadline() == old(self).deadline(),
    {
        match self.duration {
            Some(d) => {
                self.deadline = now + d;
            },
            None => {},
        }
    }

    /// Polls the timer at instant `now`.
    ///
    /// Expiry is reported exactly when the timer is armed, live, has not
    /// fired before, and `now` has reached the deadline; polling before the
    /// deadline never resolves, and a timer resolves at most once.
    pub fn poll(&mut self, now: u64) -> (expired: bool)
        ensures
            expired == (old(self).is_armed() && old(self).is_active() && !old(self).has_fired()
                && now >= old(self).deadline()),
            final(self).duration() == old(self).duration(),
            final(self).deadline() == old(self).deadline(),
            final(self).is_active() == old(self).is_active(),
            final(self).has_fired() == (old(self).has_fired() || expired),
    {
        let expired = match self.duration {
            Some(_) => self.active && !self.fired && now >= self.deadline,
            None => false,
        };
        if expired {
            self.fired = true;
        }
        expired
    }

    /// Deactivates the timer, as dropping the owning stream does: any later
    /// poll reports no expiry.
    pub fn cancel(&mut self)
        ensures
            final(self).duration() == old(self).duration(),
            final(self).deadline() == old(self).deadline(),
            final(self).has_fired() == old(self).has_fired(),
            !final(self).is_active(),
    {
        self.active = false;
    }
}

} // verus!
