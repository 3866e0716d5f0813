//! The frame driver: a state machine over the phases of a frame.
//!
//! Each call of `FrameDriver::step` enters the next phase. The work done on
//! entering a phase that needs the outside world (polling the window, the
//! barrier, the mailbox, the render thread) is named by `FrameDriver::pending`
//! and its outcome is handed to `step`; everything else is decided here.
use crate::clock::{lemma_advanced_valid, lemma_ticked_valid, ClockView, FixedClock};
use crate::mailbox::MailboxError;
use vstd::arithmetic::div_mod::{
    lemma_fundamental_div_mod, lemma_fundamental_div_mod_converse, lemma_mod_bound, lemma_small_mod,
};
use vstd::prelude::*;

verus! {

/// A point in the life of a frame. Each phase is named after what happens
/// on entering it.
#[derive(Debug, Clone, Copy, PartialEq, Eq, Structural)]
pub enum Phase {
    Initialize,
    Start,
    BeginFrame,
    EarlyUpdate,
    FixedUpdate,
    Update,
    EndFrame,
    Exiting,
    ExitLoop,
}

/// How the driver asks the window for its next event.
#[derive(Debug, Clone, Copy, PartialEq, Eq, Structural)]
pub enum Polling {
    /// Ask without blocking.
    Poll,
    /// Block until an event comes or the window closes.
    Wait,
}

/// Work outside the driver that must be done before the next phase.
#[derive(Debug, Clone, Copy, PartialEq, Eq, Structural)]
pub enum Action {
    /// Start the render thread's task.
    StartRenderThread,
    /// Ask the window for its next event without blocking.
    PollInput,
    /// Block until the window's next event, or until it closes.
    WaitInput,
    /// Meet the render thread at the barrier, then measure the wall time
    /// elapsed since the previous frame.
    Rendezvous,
    /// Nothing: the driver decides alone.
    Advance,
    /// Send a render-data request and wait for the reply.
    RequestRender,
    /// Send `Exit` to the render thread and hand the send's result to
    /// `FrameDriver::exit_sent`.
    SendExit,
    /// `Exit` was delivered: meet the render thread at the barrier, so that
    /// it can take `Exit`, then join it.
    Shutdown,
    /// `Exit` could not be delivered, the render thread being gone: join it
    /// without meeting the barrier, which nothing would meet.
    Join,
    /// Nothing: the sequence has ended.
    Finish,
}

/// What came of the outside work named by an `Action`.
pub enum Outcome<E, R> {
    /// The render thread's task was started.
    Started,
    /// The window's next event; `None` once the window has closed.
    Input(Option<E>),
    /// Both threads met at the barrier; the wall time since the previous
    /// frame, in nanoseconds.
    Rendezvoused(u64),
    /// No outside work was needed.
    Nothing,
    /// The reply to the render-data request, or the failure of the exchange.
    Rendered(Result<R, MailboxError>),
    /// The final rendezvous, where one was due, was made and the render
    /// thread joined.
    ShutDown,
}

/// The outside work due before leaving `phase`; `exit_sent` is the result,
/// once known, of sending `Exit` from `Exiting`.
pub open spec fn action_for(phase: Phase, polling: Polling, exit_sent: Option<bool>) -> Action {
    match phase {
        Phase::Initialize => Action::StartRenderThread,
        Phase::Start | Phase::EndFrame => match polling {
            Polling::Poll => Action::PollInput,
            Polling::Wait => Action::WaitInput,
        },
        Phase::BeginFrame => Action::Rendezvous,
        Phase::EarlyUpdate | Phase::FixedUpdate => Action::Advance,
        Phase::Update => Action::RequestRender,
        Phase::Exiting => match exit_sent {
            None => Action::SendExit,
            Some(true) => Action::Shutdown,
            Some(false) => Action::Join,
        },
        Phase::ExitLoop => Action::Finish,
    }
}

/// `o` is an outcome of the work named by `a`.
pub open spec fn fits<E, R>(a: Action, o: Outcome<E, R>) -> bool {
    match a {
        Action::StartRenderThread => o is Started,
        Action::PollInput => o is Input,
        Action::WaitInput => o is Input,
        Action::Rendezvous => o is Rendezvoused,
        Action::Advance => o is Nothing,
        Action::RequestRender => o is Rendered,
        Action::SendExit => false,
        Action::Shutdown => o is ShutDown,
        Action::Join => o is ShutDown,
        Action::Finish => false,
    }
}

/// Phases between the barrier of a frame and its render request.
pub open spec fn mid_frame(phase: Phase) -> bool {
    phase == Phase::EarlyUpdate || phase == Phase::FixedUpdate || phase == Phase::Update
}

/// Mathematical model of a frame driver.
pub struct DriverView<E, R> {
    /// The phase entered last.
    pub phase: Phase,
    /// The sequence has ended.
    pub finished: bool,
    /// The logic-side clock.
    pub clock: ClockView,
    /// How the window is asked for events.
    pub polling: Polling,
    /// The window event of the current frame.
    pub event: Option<E>,
    /// The render thread's latest reply.
    pub response: Option<R>,
    /// Barrier rendezvous made so far.
    pub rendezvous: nat,
    /// Messages delivered to the mailbox so far.
    pub sent: nat,
    /// A send to the render thread has failed: its end is gone.
    pub link_lost: bool,
    /// The result of sending `Exit`, once it has been sent.
    pub exit_sent: Option<bool>,
    /// The render thread's task has been started.
    pub started: bool,
    /// The render thread has been joined.
    pub joined: bool,
}

impl<E, R> DriverView<E, R> {
    /// The outside work to do before the next step.
    pub open spec fn action(self) -> Action {
        action_for(self.phase, self.polling, self.exit_sent)
    }

    /// Invariant of every reachable driver. While the render thread's end
    /// lives, the driver has met the barrier once per delivered message,
    /// plus one inside a frame, minus one between delivering `Exit` and the
    /// final rendezvous.
    pub open spec fn valid(self) -> bool {
        &&& self.clock.valid()
        &&& !self.link_lost ==> if mid_frame(self.phase) {
            self.rendezvous == self.sent + 1
        } else if self.phase == Phase::Exiting && self.exit_sent == Some(true) {
            self.rendezvous + 1 == self.sent
        } else {
            self.rendezvous == self.sent
        }
        &&& (self.phase == Phase::Initialize ==> !self.started && self.rendezvous == 0)
        &&& (self.phase != Phase::Initialize ==> self.started)
        &&& (self.exit_sent is Some ==> self.phase == Phase::Exiting || self.phase
            == Phase::ExitLoop)
        &&& (self.phase == Phase::ExitLoop ==> self.exit_sent is Some)
        &&& (self.exit_sent == Some(false) ==> self.link_lost)
        &&& (self.joined <==> self.phase == Phase::ExitLoop)
        &&& (self.finished <==> self.phase == Phase::ExitLoop)
    }

    /// The driver after `exit_sent(r)`, where `delivered` is `r is Ok`.
    pub open spec fn exit_recorded(self, delivered: bool) -> DriverView<E, R> {
        DriverView {
            exit_sent: Some(delivered),
            sent: if delivered {
                self.sent + 1
            } else {
                self.sent
            },
            link_lost: self.link_lost || !delivered,
            ..self
        }
    }

    /// The phase entered by `step(o)`, or `None` when the sequence ends.
    pub open spec fn next_phase(self, o: Outcome<E, R>) -> Option<Phase> {
        match self.phase {
            Phase::Initialize => Some(Phase::Start),
            Phase::Start | Phase::EndFrame => match o {
                Outcome::Input(Some(_)) => Some(Phase::BeginFrame),
                _ => Some(Phase::Exiting),
            },
            Phase::BeginFrame => Some(Phase::EarlyUpdate),
            Phase::EarlyUpdate | Phase::FixedUpdate => if self.clock.tick_due() {
                Some(Phase::FixedUpdate)
            } else {
                Some(Phase::Update)
            },
            Phase::Update => match o {
                Outcome::Rendered(Ok(_)) => Some(Phase::EndFrame),
                _ => Some(Phase::Exiting),
            },
            Phase::Exiting => None,
            Phase::ExitLoop => None,
        }
    }

    /// The driver after `step(o)`.
    pub open spec fn stepped(self, o: Outcome<E, R>) -> DriverView<E, R> {
        match self.phase {
            Phase::Initialize => DriverView { phase: Phase::Start, started: true, ..self },
            Phase::Start | Phase::EndFrame => match o {
                Outcome::Input(Some(e)) => DriverView {
                    phase: Phase::BeginFrame,
                    event: Some(e),
                    ..self
                },
                _ => DriverView { phase: Phase::Exiting, ..self },
            },
            Phase::BeginFrame => match o {
                Outcome::Rendezvoused(d) => DriverView {
                    phase: Phase::EarlyUpdate,
                    clock: self.clock.advanced(d as int),
                    rendezvous: self.rendezvous + 1,
                    ..self
                },
                _ => self,
            },
            Phase::EarlyUpdate | Phase::FixedUpdate => if self.clock.tick_due() {
                DriverView { phase: Phase::FixedUpdate, clock: self.clock.ticked(), ..self }
            } else {
                DriverView { phase: Phase::Update, ..self }
            },
            Phase::Update => match o {
                Outcome::Rendered(Ok(r)) => DriverView {
                    phase: Phase::EndFrame,
                    response: Some(r),
                    sent: self.sent + 1,
                    ..self
                },
                _ => DriverView { phase: Phase::Exiting, link_lost: true, ..self },
            },
            Phase::Exiting => DriverView {
                phase: Phase::ExitLoop,
                rendezvous: if self.exit_sent == Some(true) {
                    self.rendezvous + 1
                } else {
                    self.rendezvous
                },
                joined: true,
                finished: true,
                ..self
            },
            Phase::ExitLoop => self,
        }
    }
}

/// Drives the phases of each frame, from `Initialize` to `Exiting`; the
/// sequence then ends in the internal phase `ExitLoop`, which is never
/// returned.
pub struct FrameDriver<E, R> {
    phase: Phase,
    finished: bool,
    clock: FixedClock,
    polling: Polling,
    event: Option<E>,
    response: Option<R>,
    rendezvous: Ghost<nat>,
    sent: Ghost<nat>,
    link_lost: bool,
    exit_sent: Option<bool>,
    started: bool,
    joined: bool,
}

impl<E, R> View for FrameDriver<E, R> {
    type V = DriverView<E, R>;

    closed spec fn view(&self) -> DriverView<E, R> {
        DriverView {
            phase: self.phase,
            finished: self.finished,
            clock: self.clock@,
            polling: self.polling,
            event: self.event,
            response: self.response,
            rendezvous: self.rendezvous@,
            sent: self.sent@,
            link_lost: self.link_lost,
            exit_sent: self.exit_sent,
            started: self.started,
            joined: self.joined,
        }
    }
}

impl<E, R> FrameDriver<E, R> {
    /// Well-formed: its model is valid.
    pub open spec fn wf(&self) -> bool {
        self@.valid()
    }

    /// A driver in phase `Initialize` that owns `clock` and asks the window
    /// for events as `polling` says.
    pub fn new(clock: FixedClock, polling: Polling) -> (r: FrameDriver<E, R>)
        requires
            clock.wf(),
        ensures
            r.wf(),
            r@.phase == Phase::Initialize,
            !r@.finished,
            r@.clock == clock@,
            r@.polling == polling,
            r@.event is None,
            r@.response is None,
            r@.rendezvous == 0,
            r@.sent == 0,
            !r@.link_lost,
            r@.exit_sent is None,
            !r@.started,
            !r@.joined,
    {
        FrameDriver {
            phase: Phase::Initialize,
            finished: false,
            clock,
            polling,
            event: None,
            response: None,
            rendezvous: Ghost(0),
            sent: Ghost(0),
            link_lost: false,
            exit_sent: None,
            started: false,
            joined: false,
        }
    }

    /// The outside work to do before the next `step`.
    pub fn pending(&self) -> (r: Action)
        ensures
            r == self@.action(),
    {
        match self.phase {
            Phase::Initialize => Action::StartRenderThread,
            Phase::Start | Phase::EndFrame => match self.polling {
                Polling::Poll => Action::PollInput,
                Polling::Wait => Action::WaitInput,
            },
            Phase::BeginFrame => Action::Rendezvous,
            Phase::EarlyUpdate | Phase::FixedUpdate => Action::Advance,
            Phase::Update => Action::RequestRender,
            Phase::Exiting => match self.exit_sent {
                None => Action::SendExit,
                Some(true) => Action::Shutdown,
                Some(false) => Action::Join,
            },
            Phase::ExitLoop => Action::Finish,
        }
    }

    /// Records the result of sending `Exit`, the work named by
    /// `Action::SendExit`; it decides whether the final rendezvous is due.
    pub fn exit_sent(&mut self, r: Result<(), MailboxError>)
        requires
            old(self).wf(),
            old(self)@.action() == Action::SendExit,
        ensures
            final(self).wf(),
            final(self)@ == old(self)@.exit_recorded(r is Ok),
            final(self)@.action() == if r is Ok {
                Action::Shutdown
            } else {
                Action::Join
            },
    {
        match r {
            Ok(()) => {
                self.sent = Ghost(self.sent@ + 1);
                self.exit_sent = Some(true);
            },
            Err(_) => {
                self.link_lost = true;
                self.exit_sent = Some(false);
            },
        }
    }

    /// Enters the next phase, given the outcome of the pending work, and
    /// returns it. The step out of `Exiting` ends the sequence: it enters
    /// `ExitLoop` and returns `None`.
    pub fn step(&mut self, o: Outcome<E, R>) -> (r: Option<Phase>)
        requires
            old(self).wf(),
            !old(self)@.finished,
            fits(old(self)@.action(), o),
        ensures
            final(self).wf(),
            final(self)@ == old(self)@.stepped(o),
            r == old(self)@.next_phase(o),
            r matches Some(p) ==> final(self)@.phase == p && p != Phase::ExitLoop,
            r is None <==> final(self)@.finished,
    {
        let next = match self.phase {
            Phase::Initialize => {
                self.started = true;
                Phase::Start
            },
            Phase::Start | Phase::EndFrame => match o {
                Outcome::Input(Some(e)) => {
                    self.event = Some(e);
                    Phase::BeginFrame
                },
                _ => Phase::Exiting,
            },
            Phase::BeginFrame => match o {
                Outcome::Rendezvoused(d) => {
                    self.clock.advance(d);
                    self.rendezvous = Ghost(self.rendezvous@ + 1);
                    Phase::EarlyUpdate
                },
                _ => Phase::BeginFrame,
            },
            Phase::EarlyUpdate | Phase::FixedUpdate => {
                if self.clock.should_tick() {
                    self.clock.consume_tick();
                    Phase::FixedUpdate
                } else {
                    Phase::Update
                }
            },
            Phase::Update => match o {
                Outcome::Rendered(Ok(r)) => {
                    self.sent = Ghost(self.sent@ + 1);
                    self.response = Some(r);
                    Phase::EndFrame
                },
                _ => {
                    self.link_lost = true;
                    Phase::Exiting
                },
            },
            Phase::Exiting => {
                if self.exit_sent == Some(true) {
                    self.rendezvous = Ghost(self.rendezvous@ + 1);
                }
                self.joined = true;
                self.finished = true;
                self.phase = Phase::ExitLoop;
                return None;
            },
            Phase::ExitLoop => {
                return None;
            },
        };
        self.phase = next;
        Some(next)
    }

    /// The phase entered last.
    pub fn phase(&self) -> (r: Phase)
        ensures
            r == self@.phase,
    {
        self.phase
    }

    /// Whether the sequence has ended.
    pub fn is_finished(&self) -> (r: bool)
        ensures
            r == self@.finished,
    {
        self.finished
    }

    /// The window event of the current frame.
    pub fn event(&self) -> (r: &Option<E>)
        ensures
            *r == self@.event,
    {
        &self.event
    }

    /// The render thread's latest reply.
    pub fn response(&self) -> (r: &Option<R>)
        ensures
            *r == self@.response,
    {
        &self.response
    }

    /// The logic-side clock.
    pub fn clock(&self) -> (r: &FixedClock)
        ensures
            r@ == self@.clock,
    {
        &self.clock
    }
}

/// `q` may follow `p` while the loop does not end:
/// `Start -> BeginFrame`, then
/// `BeginFrame -> EarlyUpdate -> FixedUpdate* -> Update -> EndFrame -> BeginFrame`.
pub open spec fn follows(p: Phase, q: Phase) -> bool {
    match p {
        Phase::Start => q == Phase::BeginFrame,
        Phase::BeginFrame => q == Phase::EarlyUpdate,
        Phase::EarlyUpdate | Phase::FixedUpdate => q == Phase::FixedUpdate || q == Phase::Update,
        Phase::Update => q == Phase::EndFrame,
        Phase::EndFrame => q == Phase::BeginFrame,
        _ => false,
    }
}

/// The phases of the frame cycle.
pub open spec fn in_cycle(p: Phase) -> bool {
    p == Phase::BeginFrame || mid_frame(p) || p == Phase::EndFrame
}

/// `o` closes the window or loses the render thread.
pub open spec fn ends_loop<E, R>(o: Outcome<E, R>) -> bool {
    o matches Outcome::Input(None) || o matches Outcome::Rendered(Err(_))
}

/// The driver after stepping through each outcome of `os` in turn.
pub open spec fn run<E, R>(v: DriverView<E, R>, os: Seq<Outcome<E, R>>) -> DriverView<E, R>
    decreases os.len(),
{
    if os.len() == 0 {
        v
    } else {
        run(v.stepped(os[0]), os.drop_first())
    }
}

/// The phases returned while stepping through each outcome of `os` in turn.
pub open spec fn phases<E, R>(v: DriverView<E, R>, os: Seq<Outcome<E, R>>) -> Seq<Option<Phase>>
    decreases os.len(),
{
    if os.len() == 0 {
        Seq::empty()
    } else {
        seq![v.next_phase(os[0])] + phases(v.stepped(os[0]), os.drop_first())
    }
}

/// `n` outcomes of work that needed nothing outside.
pub open spec fn nothings<E, R>(n: nat) -> Seq<Outcome<E, R>> {
    Seq::new(n, |i: int| Outcome::Nothing)
}

/// `n` times the phase `p`.
pub open spec fn repeated(p: Phase, n: nat) -> Seq<Option<Phase>> {
    Seq::new(n, |i: int| Some(p))
}

/// Phases of a frame cycle come in order: outside the outcomes that end the
/// loop, each phase entered from a phase of the frame cycle is the one that
/// follows it in `BeginFrame -> EarlyUpdate -> FixedUpdate* -> Update ->
/// EndFrame -> BeginFrame`, and a fixed update is entered exactly when a tick
/// is due.
pub proof fn lemma_cycle_order<E, R>(v: DriverView<E, R>, o: Outcome<E, R>)
    requires
        v.valid(),
        !v.finished,
        fits(v.action(), o),
        !ends_loop(o),
        v.phase == Phase::Start || in_cycle(v.phase),
    ensures
        v.next_phase(o) matches Some(q) && follows(v.phase, q) && in_cycle(q),
        v.next_phase(o) == Some(v.stepped(o).phase),
        mid_frame(v.phase) && v.phase != Phase::Update ==> (v.next_phase(o) == Some(
            Phase::FixedUpdate,
        ) <==> v.clock.tick_due()),
{
}

/// The run of fixed updates in a frame: from `EarlyUpdate` or `FixedUpdate`
/// with `j` whole steps accumulated, the driver enters `FixedUpdate` `j`
/// times, then `Update`, and keeps only the remainder.
pub proof fn lemma_fixed_run<E, R>(v: DriverView<E, R>, j: nat)
    requires
        v.phase == Phase::EarlyUpdate || v.phase == Phase::FixedUpdate,
        v.clock.step > 0,
        v.clock.accumulated >= 0,
        j == v.clock.accumulated / v.clock.step,
    ensures
        phases(v, nothings::<E, R>(j + 1)) == repeated(Phase::FixedUpdate, j).push(
            Some(Phase::Update),
        ),
        run(v, nothings::<E, R>(j + 1)) == (DriverView {
            phase: Phase::Update,
            clock: ClockView {
                accumulated: v.clock.accumulated % v.clock.step,
                frame_ticks: v.clock.frame_ticks + j,
                ..v.clock
            },
            ..v
        }),
    decreases j,
{
    let os = nothings::<E, R>(j + 1);
    let st = v.clock.step;
    let a = v.clock.accumulated;
    if j == 0 {
        assert(a < st) by {
            lemma_fundamental_div_mod(a, st);
            lemma_mod_bound(a, st);
        }
        lemma_small_mod(a as nat, st as nat);
        let w = v.stepped(os[0]);
        assert(os.drop_first() =~= Seq::<Outcome<E, R>>::empty());
        assert(run(w, os.drop_first()) == w);
        assert(os[0] == Outcome::<E, R>::Nothing);
        assert(v.next_phase(os[0]) == Some(Phase::Update));
        assert(phases(w, os.drop_first()) =~= Seq::<Option<Phase>>::empty());
        assert(phases(v, os) == seq![v.next_phase(os[0])] + phases(w, os.drop_first()));
        assert(phases(v, os) =~= repeated(Phase::FixedUpdate, j).push(Some(Phase::Update)));
        assert(w.clock =~= ClockView {
            accumulated: v.clock.accumulated % v.clock.step,
            frame_ticks: v.clock.frame_ticks + j,
            ..v.clock
        });
    } else {
        assert(a >= st) by {
            lemma_fundamental_div_mod(a, st);
            lemma_mod_bound(a, st);
            assert(st * (a / st) >= st) by (nonlinear_arith)
                requires
                    a / st >= 1,
                    st > 0,
            ;
        }
        let w = v.stepped(os[0]);
        assert(w.clock.accumulated == a - st);
        lemma_fundamental_div_mod(a, st);
        lemma_mod_bound(a, st);
        assert(a - st == st * (j - 1) + a % st) by (nonlinear_arith)
            requires
                a == st * j + a % st,
        ;
        lemma_fundamental_div_mod_converse(a - st, st, j - 1, a % st);
        lemma_fixed_run(w, (j - 1) as nat);
        assert(os.drop_first() =~= nothings::<E, R>(((j - 1) as nat) + 1));
        assert(os[0] == Outcome::<E, R>::Nothing);
        assert(v.next_phase(os[0]) == Some(Phase::FixedUpdate));
        assert(phases(v, os) == seq![v.next_phase(os[0])] + phases(w, os.drop_first()));
        assert(phases(v, os) =~= repeated(Phase::FixedUpdate, j).push(Some(Phase::Update)));
        assert(run(v, os) == run(w, os.drop_first()));
    }
}

/// A whole frame that does not end the loop: from `BeginFrame`, meeting the
/// barrier after `delta` nanoseconds, the driver enters `EarlyUpdate`, then
/// `FixedUpdate` once per whole step accumulated, then `Update`, `EndFrame`
/// and `BeginFrame` again, with one more rendezvous and one more message.
pub proof fn lemma_frame_cycle<E, R>(v: DriverView<E, R>, delta: u64, resp: R, e: E)
    requires
        v.valid(),
        !v.finished,
        v.phase == Phase::BeginFrame,
    ensures
        ({
            let c = v.clock.advanced(delta as int);
            let k = (c.accumulated / c.step) as nat;
            let os = seq![Outcome::Rendezvoused(delta)] + nothings::<E, R>(k + 1) + seq![
                Outcome::Rendered(Ok(resp)),
                Outcome::Input(Some(e)),
            ];
            let w = run(v, os);
            &&& phases(v, os) == seq![Some(Phase::EarlyUpdate)] + repeated(Phase::FixedUpdate, k)
                + seq![Some(Phase::Update), Some(Phase::EndFrame), Some(Phase::BeginFrame)]
            &&& w.phase == Phase::BeginFrame
            &&& w.clock.accumulated == c.accumulated % c.step
            &&& w.rendezvous == v.rendezvous + 1
            &&& w.sent == v.sent + 1
            &&& w.event == Some(e)
            &&& w.response == Some(resp)
        }),
{
    let c = v.clock.advanced(delta as int);
    assert(c.accumulated >= 0 && c.step > 0);
    assert(c.accumulated / c.step >= 0) by (nonlinear_arith)
        requires
            c.accumulated >= 0,
            c.step > 0,
    ;
    let k = (c.accumulated / c.step) as nat;
    let tail = seq![Outcome::Rendered(Ok(resp)), Outcome::Input(Some(e))];
    let os = seq![Outcome::Rendezvoused(delta)] + nothings::<E, R>(k + 1) + tail;
    let v1 = v.stepped(os[0]);
    assert(v1.clock == c);
    lemma_fixed_run(v1, k);
    let mid = nothings::<E, R>(k + 1);
    lemma_run_append(v1, mid, tail);
    assert(os.drop_first() =~= mid + tail);
    let v2 = run(v1, mid);
    assert(tail.drop_first().drop_first() =~= Seq::<Outcome<E, R>>::empty());
    assert(tail.drop_first() =~= seq![Outcome::<E, R>::Input(Some(e))]);
    assert(v2.phase == Phase::Update);
    let v3 = v2.stepped(tail[0]);
    assert(v2.next_phase(tail[0]) == Some(Phase::EndFrame));
    assert(v3.phase == Phase::EndFrame);
    let v4 = v3.stepped(tail.drop_first()[0]);
    assert(v3.next_phase(tail.drop_first()[0]) == Some(Phase::BeginFrame));
    assert(phases(v4, tail.drop_first().drop_first()) =~= Seq::<Option<Phase>>::empty());
    assert(phases(v3, tail.drop_first()) =~= seq![Some(Phase::BeginFrame)]);
    assert(phases(v2, tail) =~= seq![Some(Phase::EndFrame), Some(Phase::BeginFrame)]);
    assert(run(v4, tail.drop_first().drop_first()) == v4);
    assert(run(v3, tail.drop_first()) == v4);
    assert(run(v2, tail) == v4);
    assert(phases(v, os) == seq![v.next_phase(os[0])] + phases(v1, os.drop_first()));
    assert(phases(v, os) =~= seq![Some(Phase::EarlyUpdate)] + repeated(Phase::FixedUpdate, k)
        + seq![Some(Phase::Update), Some(Phase::EndFrame), Some(Phase::BeginFrame)]);
}

/// Stepping through `a + b` is stepping through `a`, then through `b`.
pub proof fn lemma_run_append<E, R>(
    v: DriverView<E, R>,
    a: Seq<Outcome<E, R>>,
    b: Seq<Outcome<E, R>>,
)
    ensures
        run(v, a + b) == run(run(v, a), b),
        phases(v, a + b) == phases(v, a) + phases(run(v, a), b),
    decreases a.len(),
{
    if a.len() == 0 {
        assert(a + b =~= b);
        assert(phases(v, a) =~= Seq::<Option<Phase>>::empty());
        assert(phases(v, a + b) =~= phases(v, a) + phases(run(v, a), b));
    } else {
        assert((a + b).drop_first() =~= a.drop_first() + b);
        assert((a + b)[0] == a[0]);
        lemma_run_append(v.stepped(a[0]), a.drop_first(), b);
        assert(phases(v, a + b) =~= phases(v, a) + phases(run(v, a), b));
    }
}

/// Closing the window from `Start` or `EndFrame` ends the sequence within
/// two steps, whatever becomes of the `Exit` message: the driver enters
/// `Exiting`, sends `Exit`, meets the barrier only if `Exit` was delivered,
/// joins the render thread, and ends in `ExitLoop` without returning it.
pub proof fn lemma_close_leads_to_exit<E, R>(v: DriverView<E, R>, delivered: bool)
    requires
        v.valid(),
        !v.finished,
        v.phase == Phase::Start || v.phase == Phase::EndFrame,
    ensures
        ({
            let v1 = v.stepped(Outcome::Input(None));
            let v2 = v1.exit_recorded(delivered);
            let v3 = v2.stepped(Outcome::ShutDown);
            &&& v.next_phase(Outcome::<E, R>::Input(None)) == Some(Phase::Exiting)
            &&& v1.phase == Phase::Exiting && !v1.joined && v1.valid()
            &&& v1.action() == Action::SendExit
            &&& forall|o: Outcome<E, R>| !fits(Action::SendExit, o)
            &&& v2.valid()
            &&& v2.action() == if delivered {
                Action::Shutdown
            } else {
                Action::Join
            }
            &&& forall|o: Outcome<E, R>| fits(v2.action(), o) ==> o is ShutDown
            &&& v2.next_phase(Outcome::ShutDown) is None
            &&& v3.phase == Phase::ExitLoop && v3.finished && v3.joined && v3.valid()
            &&& v3.rendezvous == v.rendezvous + if delivered {
                1int
            } else {
                0int
            }
            &&& v3.action() == Action::Finish
            &&& forall|o: Outcome<E, R>| !fits(Action::Finish, o)
        }),
{
}

/// Every step allowed by `step`'s contract keeps the driver valid.
pub proof fn lemma_stepped_valid<E, R>(v: DriverView<E, R>, o: Outcome<E, R>)
    requires
        v.valid(),
        !v.finished,
        fits(v.action(), o),
    ensures
        v.stepped(o).valid(),
{
    match v.phase {
        Phase::BeginFrame => {
            if let Outcome::Rendezvoused(d) = o {
                lemma_advanced_valid(v.clock, d as int);
            }
        },
        Phase::EarlyUpdate | Phase::FixedUpdate => {
            if v.clock.tick_due() {
                lemma_ticked_valid(v.clock);
            }
        },
        _ => {},
    }
}

/// `p` is a phase of the frame cycle.
pub open spec fn returned_in_cycle(p: Option<Phase>) -> bool {
    p matches Some(q) && in_cycle(q)
}

/// `q` is a phase that may follow phase `p` while the loop does not end.
pub open spec fn returned_after(p: Phase, q: Option<Phase>) -> bool {
    q matches Some(x) && follows(p, x)
}

/// Each outcome of `os` in turn fits the pending work and none ends the loop.
pub open spec fn uninterrupted<E, R>(v: DriverView<E, R>, os: Seq<Outcome<E, R>>) -> bool
    decreases os.len(),
{
    os.len() == 0 || (!v.finished && fits(v.action(), os[0]) && !ends_loop(os[0])
        && uninterrupted(v.stepped(os[0]), os.drop_first()))
}

/// Phase order over any number of frames: from `Start` or a phase of the
/// frame cycle, as long as the window keeps sending events and every render
/// request is answered, every phase returned is a phase of the frame cycle
/// (never `Exiting` nor `ExitLoop`), and each follows the one before it in
/// `Start -> BeginFrame -> EarlyUpdate -> FixedUpdate* -> Update -> EndFrame
/// -> BeginFrame -> ...`.
pub proof fn lemma_cycle_run<E, R>(v: DriverView<E, R>, os: Seq<Outcome<E, R>>)
    requires
        v.valid(),
        !v.finished,
        v.phase == Phase::Start || in_cycle(v.phase),
        uninterrupted(v, os),
    ensures
        phases(v, os).len() == os.len(),
        forall|i: int| 0 <= i < os.len() ==> returned_in_cycle(#[trigger] phases(v, os)[i]),
        os.len() > 0 ==> returned_after(v.phase, phases(v, os)[0]),
        forall|i: int|
            1 <= i < os.len() ==> returned_after(
                phases(v, os)[i - 1]->Some_0,
                #[trigger] phases(v, os)[i],
            ),
    decreases os.len(),
{
    if os.len() > 0 {
        let o = os[0];
        let v1 = v.stepped(o);
        let rest = os.drop_first();
        lemma_cycle_order(v, o);
        lemma_stepped_valid(v, o);
        lemma_cycle_run(v1, rest);
        let ps = phases(v, os);
        let tail = phases(v1, rest);
        assert(ps == seq![v.next_phase(o)] + tail);
        assert forall|i: int| 0 <= i < os.len() implies returned_in_cycle(#[trigger] ps[i]) by {
            if i > 0 {
                assert(ps[i] == tail[i - 1]);
            }
        }
        assert forall|i: int| 1 <= i < os.len() implies returned_after(
            ps[i - 1]->Some_0,
            #[trigger] ps[i],
        ) by {
            assert(ps[i] == tail[i - 1]);
            if i == 1 {
                assert(ps[0] == Some(v1.phase));
            } else {
                assert(ps[i - 1] == tail[i - 2]);
            }
        }
    }
}

/// `a` and `b` agree on everything that decides their next phases: the
/// phase, the clock, the polling strategy and the fate of `Exit`.
pub open spec fn same_course<E, R>(a: DriverView<E, R>, b: DriverView<E, R>) -> bool {
    &&& a.phase == b.phase
    &&& a.finished == b.finished
    &&& a.clock == b.clock
    &&& a.polling == b.polling
    &&& a.exit_sent == b.exit_sent
}

/// Frames are reproducible: two drivers that agree on phase, clock
/// configuration and carried-over time, fed the same outcomes (the same
/// window events and replies, the same wall-time deltas at each barrier),
/// return the same phases, so the same number of `FixedUpdate` phases in
/// every frame, and stay in agreement; what they held of earlier events,
/// replies or counts makes no difference.
pub proof fn lemma_driver_replay<E, R>(
    a: DriverView<E, R>,
    b: DriverView<E, R>,
    os: Seq<Outcome<E, R>>,
)
    requires
        same_course(a, b),
    ensures
        phases(a, os) == phases(b, os),
        same_course(run(a, os), run(b, os)),
    decreases os.len(),
{
    if os.len() > 0 {
        lemma_driver_replay(a.stepped(os[0]), b.stepped(os[0]), os.drop_first());
    }
}

} // verus!
