use vstd::prelude::*;
use crate::tile::Direction;

verus! {

/// The least time between two actions by default, in milliseconds.
pub const INPUT_INTERVAL_MS: u64 = 200;

/// Lets an action through only once a minimum time has passed since the
/// last one, so that a held key does not flood the game.
pub struct InputThrottle {
    pub interval_ms: u64,
    pub elapsed_ms: u64,
}

impl InputThrottle {
    pub open spec fn wf(&self) -> bool {
        self.elapsed_ms <= self.interval_ms
    }

    /// Whether the interval has passed.
    pub open spec fn ready(&self) -> bool {
        self.elapsed_ms >= self.interval_ms
    }

    /// A throttle that waits `interval_ms` before the first action.
    pub fn new(interval_ms: u64) -> (r: InputThrottle)
        ensures
            r.wf(),
            r.interval_ms == interval_ms,
            r.elapsed_ms == 0,
    {
        InputThrottle { interval_ms, elapsed_ms: 0 }
    }

    /// Lets `delta_ms` milliseconds pass, counting no further than the
    /// interval; returns whether the interval has passed.
    pub fn tick(&mut self, delta_ms: u64) -> (ready: bool)
        requires
            old(self).wf(),
        ensures
            final(self).wf(),
            final(self).interval_ms == old(self).interval_ms,
            final(self).elapsed_ms as int == if old(self).elapsed_ms + delta_ms
                >= old(self).interval_ms {
                old(self).interval_ms as int
            } else {
                old(self).elapsed_ms + delta_ms
            },
            ready == final(self).ready(),
    {
        if delta_ms >= self.interval_ms - self.elapsed_ms {
            self.elapsed_ms = self.interval_ms;
        } else {
            self.elapsed_ms = self.elapsed_ms + delta_ms;
        }
        self.elapsed_ms >= self.interval_ms
    }

    /// Starts the interval again.
    pub fn reset(&mut self)
        ensures
            final(self).wf(),
            final(self).interval_ms == old(self).interval_ms,
            final(self).elapsed_ms == 0,
    {
        self.elapsed_ms = 0;
    }

    /// One frame of input: `delta_ms` milliseconds have passed and the four
    /// arrow keys are held or not. Once the interval has passed, the keys
    /// held give the action (see `Direction::from_keys`) and an action starts
    /// the interval again; before that no action comes.
    pub fn on_frame(&mut self, delta_ms: u64, left: bool, right: bool, up: bool, down: bool) -> (r:
        Option<Direction>)
        requires
            old(self).wf(),
        ensures
            final(self).wf(),
            final(self).interval_ms == old(self).interval_ms,
            ({
                let e = if old(self).elapsed_ms + delta_ms >= old(self).interval_ms {
                    old(self).interval_ms as int
                } else {
                    old(self).elapsed_ms + delta_ms
                };
                let keys = if down {
                    Some(Direction::Down)
                } else if up {
                    Some(Direction::Up)
                } else if right {
                    Some(Direction::Right)
                } else if left {
                    Some(Direction::Left)
                } else {
                    None
                };
                if e < old(self).interval_ms {
                    r is None && final(self).elapsed_ms == e
                } else {
                    r == keys && final(self).elapsed_ms == (if keys is Some {
                        0
                    } else {
                        e
                    })
                }
            }),
    {
        if !self.tick(delta_ms) {
            return None;
        }
        let action = Direction::from_keys(left, right, up, down);
        if action.is_some() {
            self.reset();
        }
        action
    }
}

impl Default for InputThrottle {
    fn default() -> (r: InputThrottle)
        ensures
            r.wf(),
            r.interval_ms == INPUT_INTERVAL_MS,
            r.elapsed_ms == 0,
    {
        InputThrottle::new(INPUT_INTERVAL_MS)
    }
}

} // verus!
