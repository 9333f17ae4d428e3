use vstd::prelude::*;

verus! {

/// A signed tick count.
pub type Duration = i64;

/// Ticks on a node-local clock.
#[derive(Clone, Copy, Debug, PartialEq, Eq, Structural, PartialOrd, Ord, Hash)]
pub struct NodeTime(pub i64);

/// Ticks on the simulated global clock.
#[derive(Clone, Copy, Debug, PartialEq, Eq, Structural, PartialOrd, Ord, Hash)]
pub struct GlobalTime(pub i64);

impl GlobalTime {
    /// This time moved forward (or back) by `duration` ticks.
    pub fn add(self, duration: Duration) -> (r: GlobalTime)
        requires
            i64::MIN <= self.0 + duration <= i64::MAX,
        ensures
            r.0 == self.0 + duration,
    {
        GlobalTime(self.0 + duration)
    }

    /// The deadline of a network event sent at this time with the sampled delay `delay`:
    /// the sum, held at the bounds of the clock where it would leave them.
    pub fn add_delay(self, delay: Duration) -> (r: GlobalTime)
        ensures
            r.0 == clamp_time(self.0 + delay),
    {
        if delay >= 0 && self.0 > i64::MAX - delay {
            GlobalTime(i64::MAX)
        } else if delay < 0 && self.0 < i64::MIN - delay {
            GlobalTime(i64::MIN)
        } else {
            GlobalTime(self.0 + delay)
        }
    }

    /// Local time of a node that started at `startup_time`.
    pub fn to_node_time(self, startup_time: GlobalTime) -> (r: NodeTime)
        requires
            i64::MIN <= self.0 - startup_time.0 <= i64::MAX,
        ensures
            r.0 == self.0 - startup_time.0,
    {
        NodeTime(self.0 - startup_time.0)
    }

    /// Global time of the local time `node_time` of a node that started at `startup_time`.
    pub fn from_node_time(node_time: NodeTime, startup_time: GlobalTime) -> (r: GlobalTime)
        requires
            i64::MIN <= node_time.0 + startup_time.0 <= i64::MAX,
        ensures
            r.0 == node_time.0 + startup_time.0,
    {
        GlobalTime(node_time.0 + startup_time.0)
    }
}

/// An integer held within the range of the clock.
pub open spec fn clamp_time(x: int) -> int {
    if x < i64::MIN {
        i64::MIN as int
    } else if x > i64::MAX {
        i64::MAX as int
    } else {
        x
    }
}

} // verus!
