use vstd::prelude::*;

verus! {

/// Most updates run in one frame, so that a slow machine does not fall
/// further and further behind.
pub const MAX_UPDATES_PER_FRAME: u64 = 4;

/// Fixed-step frame pacing, in nanoseconds: each frame runs the updates that
/// the accumulated lag asks for, renders once, and sleeps when it finished
/// early.
pub struct GameLoop {
    dt_update: u64,
    t_lag: u64,
}

/// The updates that a lag asks for: one for the frame itself and one for
/// each whole step of lag.
pub open spec fn updates_needed(lag: nat, dt: nat) -> nat
    recommends
        dt > 0,
{
    lag / dt + 1
}

/// The updates that a frame runs: those asked for, at most `MAX_UPDATES_PER_FRAME`.
pub open spec fn updates_to_run(lag: nat, dt: nat) -> nat
    recommends
        dt > 0,
{
    if updates_needed(lag, dt) < MAX_UPDATES_PER_FRAME {
        updates_needed(lag, dt)
    } else {
        MAX_UPDATES_PER_FRAME as nat
    }
}

/// `a + b`, saturating at `u64::MAX`.
pub open spec fn sat_add(a: nat, b: nat) -> nat {
    if a + b > u64::MAX {
        u64::MAX as nat
    } else {
        a + b
    }
}

/// `a * b`, saturating at `u64::MAX`.
pub open spec fn sat_mul(a: nat, b: nat) -> nat {
    if a * b > u64::MAX {
        u64::MAX as nat
    } else {
        a * b
    }
}

/// `a - b`, saturating at zero.
pub open spec fn sat_sub(a: nat, b: nat) -> nat {
    if a >= b {
        (a - b) as nat
    } else {
        0
    }
}

impl GameLoop {
    /// The length of one update step.
    pub closed spec fn step_len(&self) -> nat {
        self.dt_update as nat
    }

    /// The time that the updates run so far lag behind the clock.
    pub closed spec fn lag(&self) -> nat {
        self.t_lag as nat
    }

    pub closed spec fn wf(&self) -> bool {
        self.dt_update > 0 && self.t_lag < u64::MAX
    }

    pub fn new(dt_update: u64) -> (r: GameLoop)
        requires
            dt_update > 0,
        ensures
            r.wf(),
            r.step_len() == dt_update,
            r.lag() == 0,
    {
        GameLoop { dt_update, t_lag: 0 }
    }

    pub fn step_nanos(&self) -> (r: u64)
        ensures
            r == self.step_len(),
    {
        self.dt_update
    }

    /// The updates that the current lag asks for.
    pub fn updates_needed(&self) -> (r: u64)
        requires
            self.wf(),
        ensures
            r == updates_needed(self.lag(), self.step_len()),
    {
        proof {
            vstd::arithmetic::div_mod::lemma_div_is_ordered_by_denominator(self.t_lag as int, 1, self.dt_update as int);
        }
        self.t_lag / self.dt_update + 1
    }

    /// The updates to run in the coming frame.
    pub fn updates_to_run(&self) -> (r: u64)
        requires
            self.wf(),
        ensures
            r == updates_to_run(self.lag(), self.step_len()),
            1 <= r <= MAX_UPDATES_PER_FRAME,
    {
        let needed = self.updates_needed();
        if needed < MAX_UPDATES_PER_FRAME {
            needed
        } else {
            MAX_UPDATES_PER_FRAME
        }
    }

    /// Closes a frame that took `elapsed` nanoseconds: adds them to the lag,
    /// returns how long to sleep when the lag is still below one step, and
    /// then counts every update asked for, run or not, as done.
    pub fn end_frame(&mut self, elapsed: u64) -> (sleep: Option<u64>)
        requires
            old(self).wf(),
        ensures
            final(self).wf(),
            final(self).step_len() == old(self).step_len(),
            ({
                let lag = sat_add(old(self).lag(), elapsed as nat);
                let dt = old(self).step_len();
                &&& sleep == if lag < dt {
                    Some((dt - lag) as u64)
                } else {
                    None
                }
                &&& final(self).lag() == sat_sub(lag, sat_mul(dt, updates_needed(old(self).lag(), dt)))
            }),
    {
        let needed = self.updates_needed();
        let lag = self.t_lag.saturating_add(elapsed);
        let sleep = if lag < self.dt_update {
            Some(self.dt_update - lag)
        } else {
            None
        };
        let owed = match self.dt_update.checked_mul(needed) {
            Some(v) => v,
            None => u64::MAX,
        };
        proof {
            assert(owed >= 1) by (nonlinear_arith)
                requires
                    owed == sat_mul(self.dt_update as nat, needed as nat),
                    self.dt_update >= 1,
                    needed >= 1,
            {}
        }
        self.t_lag = lag.saturating_sub(owed);
        sleep
    }
}

} // verus!
