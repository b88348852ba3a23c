//! Timer state, modelled at this layer's interface: what the monitor
//! relies on of an OS timer object is whether it is armed and whether it
//! re-arms itself after firing. The OS object itself lives outside this
//! layer; `FakeTimer` additionally carries the simulated clock its fake
//! backend would read.

use vstd::prelude::*;

use crate::Error;

verus! {

/// A one-shot or periodic timer.
pub struct Timer {
    /// Whether the timer is currently armed.
    pub armed: bool,
    /// The repeat interval in nanoseconds, if the timer re-arms itself.
    pub interval_ns: Option<u64>,
}

impl Timer {
    /// A new, disarmed timer.
    pub fn new() -> (r: core::result::Result<Timer, Error>)
        ensures
            r == Ok::<Timer, Error>(Timer { armed: false, interval_ns: None }),
    {
        Ok(Timer { armed: false, interval_ns: None })
    }

    /// Arms the timer to fire once after `dur_ns` nanoseconds and then,
    /// if `interval_ns` is given, to keep firing at that interval.
    pub fn reset(&mut self, dur_ns: u64, interval_ns: Option<u64>) -> (r: core::result::Result<
        (),
        Error,
    >)
        ensures
            r == Ok::<(), Error>(()),
            final(self).armed,
            final(self).interval_ns == interval_ns,
    {
        let _ = dur_ns;
        self.armed = true;
        self.interval_ns = interval_ns;
        Ok(())
    }

    /// Blocks until the armed timer fires; a one-shot timer is spent
    /// afterwards, a periodic one stays armed.
    pub fn wait(&mut self) -> (r: core::result::Result<(), Error>)
        requires
            old(self).armed,
        ensures
            r == Ok::<(), Error>(()),
            final(self).armed == old(self).interval_ns is Some,
            final(self).interval_ns == old(self).interval_ns,
    {
        if matches!(self.interval_ns, None) {
            self.armed = false;
        }
        Ok(())
    }

    /// Disarms the timer.
    pub fn clear(&mut self) -> (r: core::result::Result<(), Error>)
        ensures
            r == Ok::<(), Error>(()),
            !final(self).armed,
            final(self).interval_ns is None,
    {
        self.armed = false;
        self.interval_ns = None;
        Ok(())
    }

    /// The finest interval the timer can distinguish, in nanoseconds.
    pub fn resolution() -> (r: core::result::Result<u64, Error>)
        ensures
            r == Ok::<u64, Error>(1u64),
    {
        Ok(1)
    }
}

/// A deterministic timer driven by a simulated clock, for tests of
/// timer-based logic.
pub struct FakeTimer {
    /// The simulated clock, in nanoseconds.
    pub now_ns: u64,
    /// When the timer next fires, if armed.
    pub deadline_ns: Option<u64>,
    /// The repeat interval in nanoseconds, if the timer re-arms itself.
    pub interval_ns: Option<u64>,
}

impl FakeTimer {
    /// A new, disarmed fake timer reading the given simulated clock.
    pub fn new(now_ns: u64) -> (r: FakeTimer)
        ensures
            r == (FakeTimer { now_ns, deadline_ns: None, interval_ns: None }),
    {
        FakeTimer { now_ns, deadline_ns: None, interval_ns: None }
    }

    /// Arms the fake timer to fire `dur_ns` nanoseconds of simulated
    /// time from now.
    pub fn reset(&mut self, dur_ns: u64, interval_ns: Option<u64>) -> (r: core::result::Result<
        (),
        Error,
    >)
        requires
            old(self).now_ns + dur_ns <= u64::MAX,
        ensures
            r == Ok::<(), Error>(()),
            final(self).now_ns == old(self).now_ns,
            final(self).deadline_ns == Some((old(self).now_ns + dur_ns) as u64),
            final(self).interval_ns == interval_ns,
    {
        self.deadline_ns = Some(self.now_ns + dur_ns);
        self.interval_ns = interval_ns;
        Ok(())
    }

    /// Advances the simulated clock to the armed deadline and fires: a
    /// one-shot timer is spent, a periodic one is re-armed one interval
    /// later.
    pub fn wait(&mut self) -> (r: core::result::Result<(), Error>)
        requires
            old(self).deadline_ns is Some,
            old(self).interval_ns is Some ==> old(self).deadline_ns.unwrap()
                + old(self).interval_ns.unwrap() <= u64::MAX,
        ensures
            r == Ok::<(), Error>(()),
            final(self).now_ns == old(self).deadline_ns.unwrap(),
            final(self).interval_ns == old(self).interval_ns,
            final(self).deadline_ns == match old(self).interval_ns {
                Some(interval) => Some((old(self).deadline_ns.unwrap() + interval) as u64),
                None => None::<u64>,
            },
    {
        let deadline = match self.deadline_ns {
            Some(deadline) => deadline,
            None => unreached(),
        };
        self.now_ns = deadline;
        self.deadline_ns = match self.interval_ns {
            Some(interval) => Some(deadline + interval),
            None => None,
        };
        Ok(())
    }

    /// Disarms the fake timer without advancing the simulated clock.
    pub fn clear(&mut self) -> (r: core::result::Result<(), Error>)
        ensures
            r == Ok::<(), Error>(()),
            final(self).now_ns == old(self).now_ns,
            final(self).deadline_ns is None,
            final(self).interval_ns is None,
    {
        self.deadline_ns = None;
        self.interval_ns = None;
        Ok(())
    }
}

} // verus!
