use crate::output_buffer::elapsed_between;
use vstd::prelude::*;

verus! {

/// The least time between two delay notifications to the host, in microseconds.
pub const MIN_NOTIFY_DURATION_US: u64 = 500_000;

/// Spaces out the delay notifications delivered to the host application.
pub struct NotifyThrottle {
    last_buffer_size_notify: Option<u64>,
}

impl NotifyThrottle {
    /// When the last notification went out.
    pub closed spec fn last_notify(&self) -> Option<u64> {
        self.last_buffer_size_notify
    }

    pub fn new() -> (r: Self)
        ensures
            r.last_notify() is None,
    {
        NotifyThrottle { last_buffer_size_notify: None }
    }

    /// Whether a notification may go out at `now`: the first may, and each
    /// later one only once `MIN_NOTIFY_DURATION_US` have passed since the
    /// last that went out. A yes is recorded as the last notification.
    pub fn should_notify_buffer_size_changed(&mut self, now: u64) -> (r: bool)
        ensures
            r == match old(self).last_notify() {
                Some(t) => elapsed_between(t, now) >= MIN_NOTIFY_DURATION_US,
                None => true,
            },
            final(self).last_notify() == if r {
                Some(now)
            } else {
                old(self).last_notify()
            },
    {
        let res = match self.last_buffer_size_notify {
            Some(t) => now.saturating_sub(t) >= MIN_NOTIFY_DURATION_US,
            None => true,
        };
        if res {
            self.last_buffer_size_notify = Some(now);
        }
        res
    }
}

} // verus!
