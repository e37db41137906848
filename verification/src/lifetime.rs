//! When a message was shown, and when what is shown has to go.

use vstd::prelude::*;
use vstd::std_specs::convert::FromSpecImpl;

verus! {

/// The time that has passed between two instants, in milliseconds; none
/// where the second is not later than the first.
pub open spec fn elapsed_between(since: u64, now: u64) -> int {
    if now >= since {
        now - since
    } else {
        0
    }
}

/// Whether more than `limit` milliseconds have passed between two instants.
pub open spec fn has_expired(since: u64, now: u64, limit: u64) -> bool {
    elapsed_between(since, now) > limit
}

/// Whether more than `limit` milliseconds have passed between two instants.
/// This decides when a message is removed, when an avatar leaves, and when an
/// avatar picks its next action.
pub fn expired(since: u64, now: u64, limit: u64) -> (r: bool)
    ensures
        r == has_expired(since, now, limit),
{
    now >= since && now - since > limit
}

/// The instant at which a message was shown, in milliseconds of the session.
#[derive(Clone, Copy, Debug, PartialEq, Eq, Structural)]
pub struct MessageSpawnTime(pub u64);

impl From<u64> for MessageSpawnTime {
    fn from(time: u64) -> (r: MessageSpawnTime)
        ensures
            r == MessageSpawnTime(time),
    {
        MessageSpawnTime(time)
    }
}

impl FromSpecImpl<u64> for MessageSpawnTime {
    open spec fn obeys_from_spec() -> bool {
        true
    }

    open spec fn from_spec(time: u64) -> MessageSpawnTime {
        MessageSpawnTime(time)
    }
}

impl MessageSpawnTime {
    /// Whether the message has been shown for longer than `limit`
    /// milliseconds at the instant `now`.
    pub fn is_expired(&self, now: u64, limit: u64) -> (r: bool)
        ensures
            r == has_expired(self.0, now, limit),
    {
        expired(self.0, now, limit)
    }
}

} // verus!
