//! The clock of a world.

use vstd::prelude::*;

verus! {

/// Ticks between two messages that tell the clients the time.
pub const TIME_BROADCAST_INTERVAL: i64 = 20;

#[derive(Clone, Copy, Debug, PartialEq, Eq, Structural)]
pub struct LevelTime {
    /// Ticks since the world was made.
    pub world_age: i64,
    /// Ticks into the cycle of day and night.
    pub time_of_day: i64,
}

impl LevelTime {
    pub fn new() -> (time: LevelTime)
        ensures
            time == (LevelTime { world_age: 0, time_of_day: 0 }),
    {
        LevelTime { world_age: 0, time_of_day: 0 }
    }

    /// The clock one tick later.
    pub open spec fn ticked(self) -> LevelTime {
        LevelTime {
            world_age: (self.world_age + 1) as i64,
            time_of_day: (self.time_of_day + 1) as i64,
        }
    }

    /// Whether the clock can be moved on.
    pub open spec fn can_tick(self) -> bool {
        self.world_age < i64::MAX && self.time_of_day < i64::MAX
    }

    /// Whether the clients are told the time at this tick.
    pub open spec fn spec_is_broadcast_tick(&self) -> bool {
        self.world_age % TIME_BROADCAST_INTERVAL == 0
    }

    /// Moves the clock on by one tick.
    pub fn tick_time(&mut self)
        requires
            old(self).can_tick(),
        ensures
            *final(self) == old(self).ticked(),
    {
        self.world_age = self.world_age + 1;
        self.time_of_day = self.time_of_day + 1;
    }

    /// Whether the clients are told the time at this tick.
    #[verifier::when_used_as_spec(spec_is_broadcast_tick)]
    pub fn is_broadcast_tick(&self) -> (due: bool)
        ensures
            due == self.spec_is_broadcast_tick(),
    {
        if self.world_age >= 0 {
            self.world_age % TIME_BROADCAST_INTERVAL == 0
        } else {
            // The remainder of a negative age is taken of its distance
            // from zero: both are multiples of the interval or neither is.
            let below: i64 = -(self.world_age + 1);
            below % TIME_BROADCAST_INTERVAL == TIME_BROADCAST_INTERVAL - 1
        }
    }
}

} // verus!
