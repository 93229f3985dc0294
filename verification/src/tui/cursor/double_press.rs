//! Detection of a key pressed twice within a timeout (Ctrl+C twice to exit,
//! Escape twice to clear).

use crate::time;
use std::time::{Duration, Instant};
use vstd::prelude::*;

verus! {

/// Double press detector
///
/// Detects double press within timeout duration.
/// Used for Ctrl+C/Ctrl+D double press to exit and Escape double press to clear.
pub struct DoublePressDetector {
    last_press: Option<Instant>,
    timeout: Duration,
}

impl DoublePressDetector {
    /// Whether a first press is waiting for its second.
    pub closed spec fn pending(&self) -> bool {
        self.last_press is Some
    }

    /// When the pending press came, if one is pending.
    pub closed spec fn last_press(&self) -> Option<Instant> {
        self.last_press
    }

    /// The timeout in nanoseconds.
    pub closed spec fn timeout_nanos(&self) -> nat {
        time::duration_nanos(self.timeout)
    }

    /// Create new detector with timeout
    pub fn new(timeout: Duration) -> (d: Self)
        ensures
            !d.pending(),
            d.timeout_nanos() == time::duration_nanos(timeout),
    {
        Self { last_press: None, timeout }
    }

    /// Register a press made at `now`, `elapsed` nanoseconds after the
    /// pending press (`None` when there is none). The press is a double press
    /// when one was pending and this one came before the timeout ran out;
    /// then nothing is pending afterwards. Otherwise this press is pending.
    pub fn register_press(&mut self, elapsed: Option<u128>, now: Instant) -> (double: bool)
        ensures
            double == (old(self).pending() && (elapsed matches Some(e) && e < old(self).timeout_nanos())),
            final(self).timeout_nanos() == old(self).timeout_nanos(),
            double ==> !final(self).pending(),
            !double ==> final(self).last_press() == Some(now),
    {
        let timeout = time::duration_as_nanos(&self.timeout);
        match elapsed {
            Some(e) => {
                if self.last_press.is_some() && e < timeout {
                    self.last_press = None;
                    return true;
                }
            },
            None => {},
        }
        self.last_press = Some(now);
        false
    }

    /// Check if this is a double press
    ///
    /// Returns true if this press is within timeout of the last press.
    /// Resets the timer after returning true. The clock is read for the time
    /// of this press, and the time since the pending press, if any, is handed
    /// to `register_press`: with none pending this is no double press.
    pub fn check(&mut self) -> (double: bool)
        ensures
            final(self).timeout_nanos() == old(self).timeout_nanos(),
            double ==> old(self).pending() && !final(self).pending(),
            !double ==> final(self).pending(),
            !old(self).pending() ==> !double,
    {
        let now = time::instant_now();
        let elapsed = match &self.last_press {
            Some(last) => Some(time::nanos_since(&now, last)),
            None => None,
        };
        self.register_press(elapsed, now)
    }

    /// Reset the detector
    pub fn reset(&mut self)
        ensures
            !final(self).pending(),
            final(self).timeout_nanos() == old(self).timeout_nanos(),
    {
        self.last_press = None;
    }

    /// Check if pending (first press happened, waiting for second)
    pub fn is_pending(&self) -> (b: bool)
        ensures
            b == self.pending(),
    {
        self.last_press.is_some()
    }
}

impl Default for DoublePressDetector {
    fn default() -> (d: Self)
        ensures
            !d.pending(),
            d.timeout_nanos() == 2_000_000_000,
    {
        Self::new(time::duration_from_millis(2000))
    }
}

} // verus!
