//! Decision logic of the render-side loop.
//!
//! On its own thread the render loop meets the frame driver at the barrier,
//! runs its due fixed updates, takes the next message from its mailbox end,
//! and either answers a render request or stops on `Exit`.
use crate::clock::{ClockView, FixedClock};
use crate::mailbox::MailboxError;
use crate::clock::lemma_ran_frame_valid;
use crate::stage::{fits, Action, lemma_stepped_valid, mid_frame, DriverView, Outcome, Phase};
use vstd::prelude::*;

verus! {

/// A message from the logic thread to the render thread.
pub enum GameLoopMessage<P> {
    /// Produce a frame from this payload and reply.
    RenderData(P),
    /// Stop the render loop.
    Exit,
}

/// Where the render loop stands.
#[derive(Debug, Clone, Copy, PartialEq, Eq, Structural)]
pub enum RenderStage {
    /// Next: meet the frame driver at the barrier.
    AwaitBarrier,
    /// Next: receive a message from the mailbox.
    AwaitMessage,
    /// The loop has ended; the thread may exit.
    Done,
}

/// What the render thread does with a received message.
pub enum Reaction<P> {
    /// Submit the payload to the renderer and send the reply back, whatever
    /// the renderer made of it.
    SubmitAndReply(P),
    /// Leave the loop.
    Stop,
}

/// Mathematical model of the render loop.
pub struct RenderView {
    pub stage: RenderStage,
    /// The render-side clock.
    pub clock: ClockView,
    /// Barrier rendezvous made so far.
    pub rendezvous: nat,
    /// Receive calls completed so far.
    pub received: nat,
}

impl RenderView {
    /// The loop after `on_rendezvous(delta)`.
    pub open spec fn after_rendezvous(self, delta: int) -> RenderView {
        RenderView {
            stage: RenderStage::AwaitMessage,
            clock: self.clock.ran_frame(delta),
            rendezvous: self.rendezvous + 1,
            ..self
        }
    }

    /// The loop after `on_message` with a render request (`render_data`) or
    /// with anything else.
    pub open spec fn after_message(self, render_data: bool) -> RenderView {
        RenderView {
            stage: if render_data {
                RenderStage::AwaitBarrier
            } else {
                RenderStage::Done
            },
            received: self.received + 1,
            ..self
        }
    }

    /// Invariant of every reachable render loop.
    pub open spec fn valid(self) -> bool {
        &&& self.clock.valid()
        &&& if self.stage == RenderStage::AwaitMessage {
            self.rendezvous == self.received + 1
        } else {
            self.rendezvous == self.received
        }
    }
}

/// The render loop's state, owned by the render thread.
pub struct RenderLoop {
    stage: RenderStage,
    clock: FixedClock,
    rendezvous: Ghost<nat>,
    received: Ghost<nat>,
}

impl View for RenderLoop {
    type V = RenderView;

    closed spec fn view(&self) -> RenderView {
        RenderView {
            stage: self.stage,
            clock: self.clock@,
            rendezvous: self.rendezvous@,
            received: self.received@,
        }
    }
}

impl RenderLoop {
    /// Well-formed: its model is valid.
    pub open spec fn wf(&self) -> bool {
        self@.valid()
    }

    /// A render loop that owns `clock` and first waits at the barrier.
    pub fn new(clock: FixedClock) -> (r: RenderLoop)
        requires
            clock.wf(),
        ensures
            r.wf(),
            r@.stage == RenderStage::AwaitBarrier,
            r@.clock == clock@,
            r@.rendezvous == 0,
            r@.received == 0,
    {
        RenderLoop { stage: RenderStage::AwaitBarrier, clock, rendezvous: Ghost(0), received: Ghost(0) }
    }

    /// Where the loop stands.
    pub fn stage(&self) -> (r: RenderStage)
        ensures
            r == self@.stage,
    {
        self.stage
    }

    /// The render-side clock.
    pub fn clock(&self) -> (r: &FixedClock)
        ensures
            r@ == self@.clock,
    {
        &self.clock
    }

    /// Records a rendezvous at the barrier after which `delta` nanoseconds of
    /// wall time have passed since the previous one, and runs the due fixed
    /// ticks of the render-side clock; returns how many ran.
    pub fn on_rendezvous(&mut self, delta: u64) -> (n: u64)
        requires
            old(self).wf(),
            old(self)@.stage == RenderStage::AwaitBarrier,
        ensures
            final(self).wf(),
            final(self)@ == old(self)@.after_rendezvous(delta as int),
            n == final(self)@.clock.frame_ticks,
    {
        let n = self.clock.run_frame(delta);
        self.rendezvous = Ghost(self.rendezvous@ + 1);
        self.stage = RenderStage::AwaitMessage;
        n
    }

    /// Takes the result of a blocking receive and says what to do: answer a
    /// render request and go back to the barrier, or stop on `Exit` or when
    /// the logic thread's end is gone.
    pub fn on_message<P>(&mut self, m: Result<GameLoopMessage<P>, MailboxError>) -> (r: Reaction<P>)
        requires
            old(self).wf(),
            old(self)@.stage == RenderStage::AwaitMessage,
        ensures
            final(self).wf(),
            final(self)@ == old(self)@.after_message(m matches Ok(GameLoopMessage::RenderData(_))),
            match m {
                Ok(GameLoopMessage::RenderData(p)) => {
                    &&& r == Reaction::SubmitAndReply(p)
                    &&& final(self)@.stage == RenderStage::AwaitBarrier
                },
                _ => {
                    &&& r == Reaction::<P>::Stop
                    &&& final(self)@.stage == RenderStage::Done
                },
            },
    {
        self.received = Ghost(self.received@ + 1);
        match m {
            Ok(GameLoopMessage::RenderData(p)) => {
                self.stage = RenderStage::AwaitBarrier;
                Reaction::SubmitAndReply(p)
            },
            _ => {
                self.stage = RenderStage::Done;
                Reaction::Stop
            },
        }
    }
}

/// The render loop stands where the frame driver's phase puts it, having
/// completed one receive for each message the driver delivered to the
/// mailbox, but for an `Exit` still waiting in it: waiting at the barrier
/// between frames, waiting for a message inside a frame, and done once the
/// driver has entered `ExitLoop`. Neither end of the mailbox has been lost.
pub open spec fn in_lockstep<E, R>(d: DriverView<E, R>, r: RenderView) -> bool {
    &&& d.valid()
    &&& r.valid()
    &&& !d.link_lost
    &&& if d.phase == Phase::ExitLoop {
        r.stage == RenderStage::Done && r.received == d.sent
    } else if mid_frame(d.phase) {
        r.stage == RenderStage::AwaitMessage && r.received == d.sent
    } else if d.phase == Phase::Exiting && d.exit_sent == Some(true) {
        r.stage == RenderStage::AwaitBarrier && r.received + 1 == d.sent
    } else {
        r.stage == RenderStage::AwaitBarrier && r.received == d.sent
    }
}

/// The render loop's part of a driver step from `d` with outcome `o`: its
/// rendezvous (after `delta` nanoseconds) when the driver meets the barrier,
/// its receive of the render request when the driver's request is answered,
/// and on shutdown its last rendezvous followed by its receive of `Exit`.
pub open spec fn render_part<E, R>(
    d: DriverView<E, R>,
    r: RenderView,
    o: Outcome<E, R>,
    delta: u64,
) -> RenderView {
    match d.phase {
        Phase::BeginFrame => r.after_rendezvous(delta as int),
        Phase::Update => r.after_message(true),
        Phase::Exiting => r.after_rendezvous(delta as int).after_message(false),
        _ => r,
    }
}

/// A fresh frame driver and a fresh render loop start in lockstep.
pub proof fn lemma_lockstep_start<E, R>(d: DriverView<E, R>, r: RenderView)
    requires
        d.valid(),
        r.valid(),
        d.phase == Phase::Initialize,
        d.sent == 0,
        !d.link_lost,
        r.stage == RenderStage::AwaitBarrier,
        r.received == 0,
    ensures
        in_lockstep(d, r),
{
}

/// Lockstep is kept by every driver step whose render request, if any, is
/// answered, together with the render loop's part of that step.
pub proof fn lemma_lockstep_step<E, R>(d: DriverView<E, R>, r: RenderView, o: Outcome<E, R>, delta: u64)
    requires
        in_lockstep(d, r),
        !d.finished,
        fits(d.action(), o),
        !(o matches Outcome::Rendered(Err(_))),
    ensures
        in_lockstep(d.stepped(o), render_part(d, r, o, delta)),
{
    lemma_stepped_valid(d, o);
    if d.phase == Phase::BeginFrame || d.phase == Phase::Exiting {
        lemma_ran_frame_valid(r.clock, delta as int);
    }
}

/// Lockstep is kept when `Exit` is delivered to the mailbox; the render loop
/// takes it after the final rendezvous.
pub proof fn lemma_lockstep_exit_sent<E, R>(d: DriverView<E, R>, r: RenderView)
    requires
        in_lockstep(d, r),
        d.action() == Action::SendExit,
    ensures
        in_lockstep(d.exit_recorded(true), r),
{
}

/// Barrier balance: whenever the two threads are in lockstep, the frame
/// driver and the render loop have met the barrier equally often.
pub proof fn lemma_lockstep_balanced<E, R>(d: DriverView<E, R>, r: RenderView)
    requires
        in_lockstep(d, r),
    ensures
        d.rendezvous == r.rendezvous,
{
}

/// One move of the two-thread protocol while both threads live: a driver
/// step with its outcome, together with the render loop's part of it (which
/// spends `delta` nanoseconds on a rendezvous), or the delivery of `Exit`.
pub enum Move<E, R> {
    Step(Outcome<E, R>, u64),
    DeliverExit,
}

/// `m` may be made from `d`: it fits the driver's pending work and no render
/// request fails.
pub open spec fn move_allowed<E, R>(d: DriverView<E, R>, m: Move<E, R>) -> bool {
    match m {
        Move::Step(o, _) => !d.finished && fits(d.action(), o) && !(o matches Outcome::Rendered(
            Err(_),
        )),
        Move::DeliverExit => d.action() == Action::SendExit,
    }
}

/// Both sides after move `m`.
pub open spec fn moved<E, R>(d: DriverView<E, R>, r: RenderView, m: Move<E, R>) -> (
    DriverView<E, R>,
    RenderView,
) {
    match m {
        Move::Step(o, delta) => (d.stepped(o), render_part(d, r, o, delta)),
        Move::DeliverExit => (d.exit_recorded(true), r),
    }
}

/// Every move of `ms` in turn is allowed.
pub open spec fn moves_allowed<E, R>(d: DriverView<E, R>, r: RenderView, ms: Seq<Move<E, R>>) -> bool
    decreases ms.len(),
{
    ms.len() == 0 || (move_allowed(d, ms[0]) && moves_allowed(
        moved(d, r, ms[0]).0,
        moved(d, r, ms[0]).1,
        ms.drop_first(),
    ))
}

/// Both sides after each move of `ms` in turn.
pub open spec fn moved_all<E, R>(d: DriverView<E, R>, r: RenderView, ms: Seq<Move<E, R>>) -> (
    DriverView<E, R>,
    RenderView,
)
    decreases ms.len(),
{
    if ms.len() == 0 {
        (d, r)
    } else {
        moved_all(moved(d, r, ms[0]).0, moved(d, r, ms[0]).1, ms.drop_first())
    }
}

/// Lockstep is kept over any sequence of allowed moves.
pub proof fn lemma_lockstep_run<E, R>(d: DriverView<E, R>, r: RenderView, ms: Seq<Move<E, R>>)
    requires
        in_lockstep(d, r),
        moves_allowed(d, r, ms),
    ensures
        in_lockstep(moved_all(d, r, ms).0, moved_all(d, r, ms).1),
    decreases ms.len(),
{
    if ms.len() > 0 {
        match ms[0] {
            Move::Step(o, delta) => lemma_lockstep_step(d, r, o, delta),
            Move::DeliverExit => lemma_lockstep_exit_sent(d, r),
        }
        lemma_lockstep_run(moved(d, r, ms[0]).0, moved(d, r, ms[0]).1, ms.drop_first());
    }
}

/// Barrier balance over the engine's life: from a fresh frame driver and a
/// fresh render loop, after any sequence of protocol moves made while both
/// threads live, the two have met the barrier equally often. Every prefix of
/// such a sequence is one too, so this holds at every point, up to the end
/// in `ExitLoop`.
pub proof fn lemma_balanced_over_life<E, R>(d: DriverView<E, R>, r: RenderView, ms: Seq<Move<E, R>>)
    requires
        d.valid(),
        r.valid(),
        d.phase == Phase::Initialize,
        d.sent == 0,
        !d.link_lost,
        r.stage == RenderStage::AwaitBarrier,
        r.received == 0,
        moves_allowed(d, r, ms),
    ensures
        moved_all(d, r, ms).0.rendezvous == moved_all(d, r, ms).1.rendezvous,
{
    lemma_lockstep_start(d, r);
    lemma_lockstep_run(d, r, ms);
}

} // verus!
