use vstd::prelude::*;

use crate::force::Force;

verus! {

/// A point in game time: milliseconds elapsed since the game started.
/// Wall-clock anchoring is the caller's concern; the engine itself only ever
/// sees these plain values.
#[derive(Clone, Copy, PartialEq, Eq, Structural, Debug)]
pub struct GameInstant {
    pub elapsed_ms: u64,
}

impl GameInstant {
    pub fn game_start() -> (r: GameInstant)
        ensures
            r.elapsed_ms == 0,
    {
        GameInstant { elapsed_ms: 0 }
    }

    pub fn from_millis(elapsed_ms: u64) -> (r: GameInstant)
        ensures
            r.elapsed_ms == elapsed_ms,
    {
        GameInstant { elapsed_ms }
    }

    pub fn elapsed_since_start(&self) -> (r: u64)
        ensures
            r == self.elapsed_ms,
    {
        self.elapsed_ms
    }
}

/// A pairing of a wall clock reading (also in plain milliseconds) with the
/// game instant it corresponds to; lets a client translate between the two.
#[derive(Clone, Copy, PartialEq, Eq, Structural, Debug)]
pub struct WallGameTimePair {
    pub world_ms: u64,
    pub game_ms: u64,
}

impl WallGameTimePair {
    pub fn new(world_ms: u64, game_ms: u64) -> (r: WallGameTimePair)
        ensures
            r == (WallGameTimePair { world_ms, game_ms }),
    {
        WallGameTimePair { world_ms, game_ms }
    }

    /// The game instant corresponding to a wall clock reading.
    pub fn game_instant(&self, world_now_ms: u64) -> (r: GameInstant)
        ensures
            r.elapsed_ms == self.game_ms + sat_sub(world_now_ms as int, self.world_ms as int)
                || r.elapsed_ms == u64::MAX,
    {
        let delta = if world_now_ms >= self.world_ms {
            world_now_ms - self.world_ms
        } else {
            0
        };
        if self.game_ms <= u64::MAX - delta {
            GameInstant { elapsed_ms: self.game_ms + delta }
        } else {
            GameInstant { elapsed_ms: u64::MAX }
        }
    }
}

pub open spec fn sat_sub(a: int, b: int) -> int {
    if a >= b {
        a - b
    } else {
        0
    }
}

#[derive(Clone, Copy, PartialEq, Eq, Structural, Debug)]
pub struct TimeControl {
    pub starting_time_ms: u64,
}

/// Whose clock is ticking and since which game instant.
#[derive(Clone, Copy, PartialEq, Eq, Structural, Debug)]
pub struct ClockTurnState {
    pub force: Force,
    pub since: GameInstant,
}

/// Per-board chess clock: how much time each force has left, and whose
/// clock (if any) is ticking since which game instant.
#[derive(Clone, Copy, PartialEq, Eq, Structural, Debug)]
pub struct Clock {
    pub turn_state: Option<ClockTurnState>,
    pub remaining_white_ms: u64,
    pub remaining_black_ms: u64,
}

impl Clock {
    /// Time banked for a force (not counting the ongoing turn).
    pub open spec fn remaining(self, force: Force) -> u64 {
        match force {
            Force::White => self.remaining_white_ms,
            Force::Black => self.remaining_black_ms,
        }
    }

    /// Whose clock is ticking, and since when.
    pub open spec fn spec_turn_state(self) -> Option<ClockTurnState> {
        self.turn_state
    }

    /// Time a force has left at `now`, saturating at zero.
    pub open spec fn spec_time_left(self, force: Force, now: GameInstant) -> int {
        match self.turn_state {
            Some(ts) => if ts.force == force {
                sat_sub(
                    self.remaining(force) as int,
                    sat_sub(now.elapsed_ms as int, ts.since.elapsed_ms as int),
                )
            } else {
                self.remaining(force) as int
            },
            None => self.remaining(force) as int,
        }
    }

    pub fn new(control: &TimeControl) -> (r: Clock)
        ensures
            r.spec_turn_state() is None,
            r.remaining(Force::White) == control.starting_time_ms,
            r.remaining(Force::Black) == control.starting_time_ms,
    {
        Clock {
            turn_state: None,
            remaining_white_ms: control.starting_time_ms,
            remaining_black_ms: control.starting_time_ms,
        }
    }

    pub fn active_force(&self) -> (r: Option<Force>)
        ensures
            r == match self.spec_turn_state() {
                Some(ts) => Some(ts.force),
                None => None::<Force>,
            },
    {
        match self.turn_state {
            Some(ts) => Some(ts.force),
            None => None,
        }
    }

    pub fn time_left(&self, force: Force, now: GameInstant) -> (r: u64)
        ensures
            r == self.spec_time_left(force, now),
    {
        let remaining = match force {
            Force::White => self.remaining_white_ms,
            Force::Black => self.remaining_black_ms,
        };
        match self.turn_state {
            Some(ts) => {
                if ts.force == force {
                    let spent = if now.elapsed_ms >= ts.since.elapsed_ms {
                        now.elapsed_ms - ts.since.elapsed_ms
                    } else {
                        0
                    };
                    if remaining >= spent {
                        remaining - spent
                    } else {
                        0
                    }
                } else {
                    remaining
                }
            },
            None => remaining,
        }
    }

    /// A force has run out of time.
    pub fn is_flagged(&self, force: Force, now: GameInstant) -> (r: bool)
        ensures
            r == (self.spec_time_left(force, now) == 0),
    {
        self.time_left(force, now) == 0
    }

    /// Charges the force whose clock was ticking and starts ticking for
    /// `new_force`.
    pub fn new_turn(&mut self, new_force: Force, now: GameInstant)
        ensures
            final(self).spec_turn_state() == Some(ClockTurnState { force: new_force, since: now }),
            match old(self).spec_turn_state() {
                Some(ts) => forall|f: Force|
                    final(self).remaining(f) == if f == ts.force {
                        old(self).spec_time_left(ts.force, now)
                    } else {
                        old(self).remaining(f) as int
                    },
                None => forall|f: Force| final(self).remaining(f) == old(self).remaining(f),
            },
    {
        if let Some(ts) = self.turn_state {
            let prev = ts.force;
            let left = self.time_left(prev, now);
            match prev {
                Force::White => {
                    self.remaining_white_ms = left;
                },
                Force::Black => {
                    self.remaining_black_ms = left;
                },
            }
            assert forall|f: Force|
                self.remaining(f) == if f == prev {
                    old(self).spec_time_left(prev, now)
                } else {
                    old(self).remaining(f) as int
                } by {
                match f {
                    Force::White => {},
                    Force::Black => {},
                }
            }
        }
        self.turn_state = Some(ClockTurnState { force: new_force, since: now });
    }

    /// Charges the ticking force and stops the clock.
    pub fn stop(&mut self, now: GameInstant)
        ensures
            final(self).spec_turn_state() is None,
            forall|f: Force|
                final(self).remaining(f) == old(self).spec_time_left(f, now),
    {
        if let Some(ts) = self.turn_state {
            let prev = ts.force;
            let left = self.time_left(prev, now);
            match prev {
                Force::White => {
                    self.remaining_white_ms = left;
                },
                Force::Black => {
                    self.remaining_black_ms = left;
                },
            }
        }
        self.turn_state = None;
        assert forall|f: Force| self.remaining(f) == old(self).spec_time_left(f, now) by {
            match f {
                Force::White => {},
                Force::Black => {},
            }
        }
    }
}

} // verus!
