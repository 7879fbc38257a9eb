//! Absolute-deadline pacing of a packet stream.
use vstd::prelude::*;

verus! {

/// The next send time, in nanoseconds on the caller's clock.
#[derive(Clone, Copy, Debug, PartialEq, Eq, Structural)]
pub struct SendSchedule {
    pub next_send_ns: u64,
}

impl SendSchedule {
    /// A schedule whose first packet is due at once.
    pub fn starting_at(now_ns: u64) -> (s: Self)
        ensures
            s.next_send_ns == now_ns,
    {
        SendSchedule { next_send_ns: now_ns }
    }

    /// Starts the schedule over, after a pause in the stream.
    pub fn resync(&mut self, now_ns: u64)
        ensures
            final(self).next_send_ns == now_ns,
    {
        self.next_send_ns = now_ns;
    }

    /// Moves on by one packet and returns how long to sleep. A stream that
    /// has fallen behind goes on from now instead of catching up in a burst.
    pub fn advance(&mut self, interval_ns: u64, now_ns: u64) -> (sleep_ns: u64)
        requires
            old(self).next_send_ns + interval_ns <= u64::MAX,
        ensures
            ({
                let due = old(self).next_send_ns + interval_ns;
                if due > now_ns {
                    final(self).next_send_ns == due && sleep_ns == due - now_ns
                } else {
                    final(self).next_send_ns == now_ns && sleep_ns == 0
                }
            }),
    {
        let due: u64 = self.next_send_ns + interval_ns;
        if due > now_ns {
            self.next_send_ns = due;
            due - now_ns
        } else {
            self.next_send_ns = now_ns;
            0
        }
    }
}

} // verus!
