//! Fixed-timestep clock measured in whole nanoseconds.
use vstd::arithmetic::div_mod::{
    lemma_div_is_ordered, lemma_fundamental_div_mod, lemma_fundamental_div_mod_converse,
    lemma_mod_bound,
};
use vstd::prelude::*;

verus! {

/// Nanoseconds in one second.
pub const NANOS_PER_SEC: u64 = 1_000_000_000;

/// Parts of one fixed step reported by `alpha_ppm`.
pub const ALPHA_SCALE: u64 = 1_000_000;

/// Rejected clock configurations.
#[derive(Debug, Clone, Copy, PartialEq, Eq, Structural)]
pub enum ClockError {
    /// The fixed step is zero nanoseconds long.
    ZeroStep,
    /// The cap on ticks per frame is zero.
    ZeroTickCap,
    /// `step * max_ticks` does not fit in a `u64`.
    CapOverflow,
}

/// Deterministic fixed-timestep accumulator.
///
/// Elapsed wall time is added to an accumulator; each fixed tick consumes one
/// step from it. The accumulator never holds more than `max_ticks` steps:
/// whatever a stall adds beyond that is dropped, so a frame never runs more
/// than `max_ticks` ticks and the simulation slows down under load instead of
/// falling into perpetual catch-up.
pub struct FixedClock {
    step: u64,
    max_ticks: u64,
    cap: u64,
    accumulated: u64,
    frame_ticks: u64,
}

/// Accumulated time after adding `delta` to `acc`, clamped to `cap`.
pub open spec fn clamp_add(acc: int, delta: int, cap: int) -> int {
    if acc + delta > cap {
        cap
    } else {
        acc + delta
    }
}

/// Time carried over after running each frame of `deltas` to completion,
/// starting from `acc0`.
pub open spec fn carry_after(step: int, cap: int, acc0: int, deltas: Seq<u64>) -> int
    decreases deltas.len(),
{
    if deltas.len() == 0 {
        acc0
    } else {
        clamp_add(carry_after(step, cap, acc0, deltas.drop_last()), deltas.last() as int, cap) % step
    }
}

/// Number of fixed ticks run in each frame of `deltas`, starting from `acc0`.
pub open spec fn schedule(step: int, cap: int, acc0: int, deltas: Seq<u64>) -> Seq<int>
    decreases deltas.len(),
{
    if deltas.len() == 0 {
        Seq::empty()
    } else {
        schedule(step, cap, acc0, deltas.drop_last()).push(
            clamp_add(carry_after(step, cap, acc0, deltas.drop_last()), deltas.last() as int, cap)
                / step,
        )
    }
}

/// Mathematical model of a clock, in nanoseconds and ticks.
pub struct ClockView {
    /// Length of one fixed tick.
    pub step: int,
    /// Cap on ticks per frame.
    pub max_ticks: int,
    /// Most time the accumulator may hold: `step * max_ticks`.
    pub cap: int,
    /// Time accumulated and not yet consumed by ticks.
    pub accumulated: int,
    /// Ticks consumed since the last `advance`.
    pub frame_ticks: int,
}

impl ClockView {
    /// A positive step and cap that fit in a `u64`, and the ticks of this
    /// frame together with what is left never exceed the cap.
    pub open spec fn valid(self) -> bool {
        &&& self.step > 0
        &&& self.max_ticks > 0
        &&& self.cap == self.step * self.max_ticks
        &&& self.cap <= u64::MAX
        &&& self.accumulated >= 0
        &&& self.frame_ticks >= 0
        &&& self.accumulated + self.frame_ticks * self.step <= self.cap
    }

    /// Whether a whole step has accumulated.
    pub open spec fn tick_due(self) -> bool {
        self.accumulated >= self.step
    }

    /// The clock after `advance(delta)`.
    pub open spec fn advanced(self, delta: int) -> ClockView {
        ClockView {
            accumulated: clamp_add(self.accumulated, delta, self.cap),
            frame_ticks: 0,
            ..self
        }
    }

    /// The clock after `run_frame(delta)`: every due tick has run.
    pub open spec fn ran_frame(self, delta: int) -> ClockView {
        ClockView {
            accumulated: clamp_add(self.accumulated, delta, self.cap) % self.step,
            frame_ticks: clamp_add(self.accumulated, delta, self.cap) / self.step,
            ..self
        }
    }

    /// The clock after `consume_tick()`.
    pub open spec fn ticked(self) -> ClockView {
        ClockView {
            accumulated: self.accumulated - self.step,
            frame_ticks: self.frame_ticks + 1,
            ..self
        }
    }
}

impl View for FixedClock {
    type V = ClockView;

    closed spec fn view(&self) -> ClockView {
        ClockView {
            step: self.step as int,
            max_ticks: self.max_ticks as int,
            cap: self.cap as int,
            accumulated: self.accumulated as int,
            frame_ticks: self.frame_ticks as int,
        }
    }
}

impl FixedClock {
    /// Well-formed: its model is valid.
    pub open spec fn wf(&self) -> bool {
        self@.valid()
    }

    /// A clock with the given step (in nanoseconds) and cap on ticks per
    /// frame, with nothing accumulated.
    pub fn new(step: u64, max_ticks: u64) -> (r: Result<FixedClock, ClockError>)
        ensures
            step == 0 ==> r == Err::<FixedClock, ClockError>(ClockError::ZeroStep),
            step > 0 && max_ticks == 0 ==> r == Err::<FixedClock, ClockError>(
                ClockError::ZeroTickCap,
            ),
            step > 0 && max_ticks > 0 && step * max_ticks > u64::MAX ==> r == Err::<
                FixedClock,
                ClockError,
            >(ClockError::CapOverflow),
            step > 0 && max_ticks > 0 && step * max_ticks <= u64::MAX <==> r is Ok,
            r matches Ok(c) ==> {
                &&& c.wf()
                &&& c@.step == step
                &&& c@.max_ticks == max_ticks
                &&& c@.accumulated == 0
                &&& c@.frame_ticks == 0
            },
    {
        if step == 0 {
            return Err(ClockError::ZeroStep);
        }
        if max_ticks == 0 {
            return Err(ClockError::ZeroTickCap);
        }
        match step.checked_mul(max_ticks) {
            None => Err(ClockError::CapOverflow),
            Some(cap) => Ok(FixedClock { step, max_ticks, cap, accumulated: 0, frame_ticks: 0 }),
        }
    }

    /// A clock that ticks `rate` times per second (the step is the whole
    /// number of nanoseconds in `1 / rate` seconds).
    pub fn from_rate(rate: u64, max_ticks: u64) -> (r: Result<FixedClock, ClockError>)
        ensures
            rate == 0 || rate > NANOS_PER_SEC ==> r == Err::<FixedClock, ClockError>(
                ClockError::ZeroStep,
            ),
            0 < rate <= NANOS_PER_SEC && max_ticks == 0 ==> r == Err::<FixedClock, ClockError>(
                ClockError::ZeroTickCap,
            ),
            0 < rate <= NANOS_PER_SEC && max_ticks > 0 && (NANOS_PER_SEC / rate) * max_ticks
                > u64::MAX ==> r == Err::<FixedClock, ClockError>(ClockError::CapOverflow),
            0 < rate <= NANOS_PER_SEC && max_ticks > 0 && (NANOS_PER_SEC / rate) * max_ticks
                <= u64::MAX <==> r is Ok,
            r matches Ok(c) ==> {
                &&& c.wf()
                &&& c@.step == NANOS_PER_SEC / rate
                &&& c@.max_ticks == max_ticks
                &&& c@.accumulated == 0
                &&& c@.frame_ticks == 0
            },
    {
        if rate == 0 || rate > NANOS_PER_SEC {
            return Err(ClockError::ZeroStep);
        }
        let step: u64 = NANOS_PER_SEC / rate;
        assert(step > 0) by (nonlinear_arith)
            requires
                0 < rate <= 1_000_000_000,
                step == 1_000_000_000int / (rate as int),
        ;
        FixedClock::new(step, max_ticks)
    }

    /// Adds `delta` nanoseconds of wall time and starts a new frame. Time
    /// beyond `max_ticks` steps is dropped.
    pub fn advance(&mut self, delta: u64)
        requires
            old(self).wf(),
        ensures
            final(self).wf(),
            final(self)@ == old(self)@.advanced(delta as int),
    {
        if delta >= self.cap - self.accumulated {
            self.accumulated = self.cap;
        } else {
            self.accumulated = self.accumulated + delta;
        }
        self.frame_ticks = 0;
    }

    /// Whether at least one whole step has accumulated.
    pub fn should_tick(&self) -> (r: bool)
        requires
            self.wf(),
        ensures
            r == self@.tick_due(),
    {
        self.accumulated >= self.step
    }

    /// Runs one fixed tick: takes one step off the accumulator and counts it.
    pub fn consume_tick(&mut self)
        requires
            old(self).wf(),
            old(self)@.accumulated >= old(self)@.step,
        ensures
            final(self).wf(),
            final(self)@ == old(self)@.ticked(),
    {
        let ghost ft = self.frame_ticks as int;
        let ghost st = self.step as int;
        let ghost acc0 = self.accumulated as int;
        assert((ft + 1) * st <= self.cap as int) by (nonlinear_arith)
            requires
                self.accumulated as int + ft * st <= self.cap as int,
                self.accumulated as int >= st,
        ;
        assert(ft + 1 <= self.cap as int) by (nonlinear_arith)
            requires
                (ft + 1) * st <= self.cap as int,
                st >= 1,
                ft >= 0,
        ;
        self.accumulated = self.accumulated - self.step;
        self.frame_ticks = self.frame_ticks + 1;
        assert(self.accumulated as int + self.frame_ticks as int * st <= self.cap as int)
            by (nonlinear_arith)
            requires
                self.accumulated as int == acc0 - st,
                self.frame_ticks as int == ft + 1,
                acc0 + ft * st <= self.cap as int,
        ;
    }

    /// Adds `delta` and runs every tick that is due; returns how many ran.
    pub fn run_frame(&mut self, delta: u64) -> (n: u64)
        requires
            old(self).wf(),
        ensures
            final(self).wf(),
            final(self)@ == old(self)@.ran_frame(delta as int),
            n == final(self)@.frame_ticks,
            n <= old(self)@.max_ticks,
    {
        self.advance(delta);
        let ghost start = self.accumulated as int;
        let ghost st = self.step as int;
        while self.should_tick()
            invariant
                self.wf(),
                self.step as int == st,
                self.max_ticks == old(self).max_ticks,
                self.cap == old(self).cap,
                start == self.accumulated as int + self.frame_ticks as int * st,
            decreases self.accumulated,
        {
            self.consume_tick();
            assert(start == self.accumulated as int + self.frame_ticks as int * st) by (nonlinear_arith)
                requires
                    start == (self.accumulated as int + st) + (self.frame_ticks as int - 1) * st,
            ;
        }
        let n: u64 = self.frame_ticks;
        proof {
            assert(start == n as int * st + self.accumulated as int) by (nonlinear_arith)
                requires
                    start == self.accumulated as int + self.frame_ticks as int * st,
                    n == self.frame_ticks,
            ;
            lemma_fundamental_div_mod_converse(start, st, n as int, self.accumulated as int);
            assert(n as int <= self.max_ticks as int) by (nonlinear_arith)
                requires
                    n as int * st <= self.cap as int,
                    self.cap as int == st * self.max_ticks as int,
                    st >= 1,
            ;
        }
        n
    }

    /// Runs one frame for each delta in turn; returns the ticks of each frame.
    pub fn run_frames(&mut self, deltas: &Vec<u64>) -> (ticks: Vec<u64>)
        requires
            old(self).wf(),
        ensures
            final(self).wf(),
            final(self)@.step == old(self)@.step,
            final(self)@.max_ticks == old(self)@.max_ticks,
            final(self)@.cap == old(self)@.cap,
            ticks@.map_values(|t: u64| t as int) == schedule(
                old(self)@.step,
                old(self)@.cap,
                old(self)@.accumulated,
                deltas@,
            ),
            final(self)@.accumulated == carry_after(
                old(self)@.step,
                old(self)@.cap,
                old(self)@.accumulated,
                deltas@,
            ),
    {
        let mut ticks: Vec<u64> = Vec::new();
        let mut i: usize = 0;
        while i < deltas.len()
            invariant
                self.wf(),
                self.step == old(self).step,
                self.max_ticks == old(self).max_ticks,
                self.cap == old(self).cap,
                0 <= i <= deltas.len(),
                ticks@.map_values(|t: u64| t as int) == schedule(
                    old(self).step as int,
                    old(self).cap as int,
                    old(self).accumulated as int,
                    deltas@.take(i as int),
                ),
                self.accumulated as int == carry_after(
                    old(self).step as int,
                    old(self).cap as int,
                    old(self).accumulated as int,
                    deltas@.take(i as int),
                ),
            decreases deltas.len() - i,
        {
            let n = self.run_frame(deltas[i]);
            ticks.push(n);
            proof {
                let pre = deltas@.take(i as int);
                let next = deltas@.take(i as int + 1);
                assert(next.drop_last() =~= pre);
                assert(next.last() == deltas@[i as int]);
                assert(ticks@.map_values(|t: u64| t as int) =~= schedule(
                    old(self).step as int,
                    old(self).cap as int,
                    old(self).accumulated as int,
                    pre,
                ).push(n as int));
            }
            i = i + 1;
        }
        assert(deltas@.take(deltas.len() as int) =~= deltas@);
        ticks
    }

    /// How far the accumulator is into the next step, in millionths of a step.
    pub fn alpha_ppm(&self) -> (r: u128)
        requires
            self.wf(),
        ensures
            r as int == self@.accumulated * ALPHA_SCALE as int / self@.step,
    {
        let acc: u128 = self.accumulated as u128;
        assert(acc * 1_000_000 <= 0xffff_ffff_ffff_ffffu128 * 1_000_000) by (nonlinear_arith)
            requires
                acc <= 0xffff_ffff_ffff_ffffu128,
        ;
        let num: u128 = acc * (ALPHA_SCALE as u128);
        num / (self.step as u128)
    }

    /// The fixed step, in nanoseconds.
    pub fn step(&self) -> (r: u64)
        ensures
            r == self@.step,
    {
        self.step
    }

    /// The cap on ticks per frame.
    pub fn max_ticks(&self) -> (r: u64)
        ensures
            r == self@.max_ticks,
    {
        self.max_ticks
    }

    /// Time accumulated and not yet consumed by ticks, in nanoseconds.
    pub fn accumulated(&self) -> (r: u64)
        ensures
            r == self@.accumulated,
    {
        self.accumulated
    }

    /// Ticks consumed since the last `advance`.
    pub fn frame_ticks(&self) -> (r: u64)
        ensures
            r == self@.frame_ticks,
    {
        self.frame_ticks
    }
}

/// Sum of a sequence of integers.
pub open spec fn sum_of(s: Seq<int>) -> int
    decreases s.len(),
{
    if s.len() == 0 {
        0
    } else {
        sum_of(s.drop_last()) + s.last()
    }
}

/// Sum of a sequence of wall-time deltas.
pub open spec fn total_time(deltas: Seq<u64>) -> int
    decreases deltas.len(),
{
    if deltas.len() == 0 {
        0
    } else {
        total_time(deltas.drop_last()) + deltas.last() as int
    }
}

/// No frame of `deltas` pushes the accumulator past `cap`.
pub open spec fn never_clamped(step: int, cap: int, acc0: int, deltas: Seq<u64>) -> bool
    decreases deltas.len(),
{
    if deltas.len() == 0 {
        true
    } else {
        never_clamped(step, cap, acc0, deltas.drop_last()) && carry_after(
            step,
            cap,
            acc0,
            deltas.drop_last(),
        ) + deltas.last() as int <= cap
    }
}

/// Ticking is reproducible: two clocks with the same step, the same cap on
/// ticks per frame and the same time carried over run the same number of
/// ticks in every frame of the same sequence of deltas, and carry the same
/// time out of it.
pub proof fn lemma_replay_deterministic(a: FixedClock, b: FixedClock, deltas: Seq<u64>)
    requires
        a.wf(),
        b.wf(),
        a@.step == b@.step,
        a@.max_ticks == b@.max_ticks,
        a@.accumulated == b@.accumulated,
    ensures
        schedule(a@.step, a@.cap, a@.accumulated, deltas) == schedule(
            b@.step,
            b@.cap,
            b@.accumulated,
            deltas,
        ),
        carry_after(a@.step, a@.cap, a@.accumulated, deltas) == carry_after(
            b@.step,
            b@.cap,
            b@.accumulated,
            deltas,
        ),
{
}

/// No frame runs more than `cap / step` ticks, and what is carried over
/// stays below one step once a frame has run.
pub proof fn lemma_schedule_bounded(step: int, cap: int, acc0: int, deltas: Seq<u64>)
    requires
        step > 0,
        0 <= acc0 <= cap,
    ensures
        schedule(step, cap, acc0, deltas).len() == deltas.len(),
        forall|i: int|
            0 <= i < deltas.len() ==> 0 <= #[trigger] schedule(step, cap, acc0, deltas)[i] <= cap
                / step,
        0 <= carry_after(step, cap, acc0, deltas) <= cap,
        deltas.len() > 0 ==> carry_after(step, cap, acc0, deltas) < step,
    decreases deltas.len(),
{
    if deltas.len() > 0 {
        let dl = deltas.drop_last();
        lemma_schedule_bounded(step, cap, acc0, dl);
        let x = clamp_add(carry_after(step, cap, acc0, dl), deltas.last() as int, cap);
        assert(0 <= x <= cap);
        lemma_div_is_ordered(x, cap, step);
        lemma_mod_bound(x, step);
        assert(x / step >= 0) by (nonlinear_arith)
            requires
                x >= 0,
                step > 0,
        ;
        lemma_fundamental_div_mod(x, step);
        assert(step * (x / step) >= 0) by (nonlinear_arith)
            requires
                x / step >= 0,
                step > 0,
        ;
    }
}

/// When no frame is clamped, no time is lost: the ticks run, times the
/// step, plus the time carried out equal the time carried in plus the sum
/// of the deltas.
pub proof fn lemma_schedule_conserves_time(step: int, cap: int, acc0: int, deltas: Seq<u64>)
    requires
        step > 0,
        0 <= acc0 <= cap,
        never_clamped(step, cap, acc0, deltas),
    ensures
        sum_of(schedule(step, cap, acc0, deltas)) * step + carry_after(step, cap, acc0, deltas)
            == acc0 + total_time(deltas),
    decreases deltas.len(),
{
    if deltas.len() > 0 {
        let dl = deltas.drop_last();
        lemma_schedule_conserves_time(step, cap, acc0, dl);
        let c = carry_after(step, cap, acc0, dl);
        let x = c + deltas.last() as int;
        assert(clamp_add(c, deltas.last() as int, cap) == x);
        let sd = schedule(step, cap, acc0, deltas);
        assert(sd.drop_last() == schedule(step, cap, acc0, dl));
        assert(sum_of(sd) == sum_of(schedule(step, cap, acc0, dl)) + x / step);
        lemma_fundamental_div_mod(x, step);
        let p = sum_of(schedule(step, cap, acc0, dl));
        assert((p + x / step) * step == p * step + (x / step) * step) by (nonlinear_arith);
        assert(step * (x / step) == (x / step) * step) by (nonlinear_arith);
    }
}

/// Advancing keeps a clock valid.
pub proof fn lemma_advanced_valid(c: ClockView, delta: int)
    requires
        c.valid(),
        delta >= 0,
    ensures
        c.advanced(delta).valid(),
{
}

/// Consuming a due tick keeps a clock valid.
pub proof fn lemma_ticked_valid(c: ClockView)
    requires
        c.valid(),
        c.tick_due(),
    ensures
        c.ticked().valid(),
{
    assert((c.accumulated - c.step) + (c.frame_ticks + 1) * c.step == c.accumulated
        + c.frame_ticks * c.step) by (nonlinear_arith);
}

/// Running a whole frame keeps a clock valid.
pub proof fn lemma_ran_frame_valid(c: ClockView, delta: int)
    requires
        c.valid(),
        delta >= 0,
    ensures
        c.ran_frame(delta).valid(),
{
    let x = clamp_add(c.accumulated, delta, c.cap);
    lemma_fundamental_div_mod(x, c.step);
    lemma_mod_bound(x, c.step);
    assert(x / c.step >= 0) by (nonlinear_arith)
        requires
            x >= 0,
            c.step > 0,
    ;
    assert(x % c.step + (x / c.step) * c.step == x) by (nonlinear_arith)
        requires
            x == c.step * (x / c.step) + x % c.step,
    ;
}

} // verus!
