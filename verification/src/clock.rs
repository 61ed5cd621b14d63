//! Cooperative timer for the block waiting time.
use vstd::prelude::*;

verus! {

/// Measures a timeout by adding up the waits it hands to a sleep
/// callback. No wall clock is read.
pub struct Clock<'a, S> {
    timeout: u32,
    time: u32,
    sleep_cb: Option<&'a S>,
}

impl<'a, S: Fn(u32)> Clock<'a, S> {
    /// Milliseconds waited so far.
    pub closed spec fn elapsed(&self) -> nat {
        self.time as nat
    }

    /// The timeout the clock was started with, in milliseconds.
    pub closed spec fn limit(&self) -> nat {
        self.timeout as nat
    }

    /// The sleep callback, if the clock has one.
    pub closed spec fn on_sleep(&self) -> Option<&'a S> {
        self.sleep_cb
    }

    /// The sleep callback, if there is one, may be called with any
    /// duration.
    pub open spec fn callable(&self) -> bool {
        self.on_sleep() matches Some(cb) ==> forall|ms: u32| cb.requires((ms,))
    }

    /// Starts a clock that has waited for nothing yet. Without a
    /// callback the clock only counts.
    pub fn new(timeout: u32, sleep_cb: Option<&'a S>) -> (clock: Self)
        requires
            sleep_cb matches Some(cb) ==> forall|ms: u32| cb.requires((ms,)),
        ensures
            clock.elapsed() == 0,
            clock.limit() == timeout,
            clock.on_sleep() == sleep_cb,
    {
        Clock { timeout, time: 0, sleep_cb }
    }

    /// Waits for `time` milliseconds through the callback and adds
    /// them to the elapsed time.
    pub fn sleep(&mut self, time: u32)
        requires
            old(self).callable(),
            old(self).elapsed() + time <= u32::MAX,
        ensures
            final(self).elapsed() == old(self).elapsed() + time,
            final(self).limit() == old(self).limit(),
            final(self).on_sleep() == old(self).on_sleep(),
            old(self).on_sleep() matches Some(cb) ==> cb.ensures((time,), ()),
    {
        match self.sleep_cb {
            Some(cb) => {
                cb(time);
            },
            None => {},
        }
        self.time = self.time + time;
    }

    /// Milliseconds waited so far.
    pub fn waited(&self) -> (ms: u32)
        ensures
            ms == self.elapsed(),
    {
        self.time
    }

    /// True once more time has been waited than the timeout allows.
    pub fn timeout(&self) -> (expired: bool)
        ensures
            expired == (self.elapsed() > self.limit()),
    {
        self.time > self.timeout
    }
}

} // verus!
