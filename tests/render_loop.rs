use foxy::clock::FixedClock;
use foxy::mailbox::{Mailbox, MailboxError};
use foxy::render_loop::{GameLoopMessage, Reaction, RenderLoop, RenderStage};
use foxy::stage::{Action, FrameDriver, Outcome, Phase, Polling};
use foxy::thread::{ThreadLifecycle, ThreadState};

fn clock() -> FixedClock {
    FixedClock::from_rate(128, 1024).unwrap()
}

#[test]
fn render_data_is_answered_then_barrier() {
    let mut r = RenderLoop::new(clock());
    assert_eq!(r.stage(), RenderStage::AwaitBarrier);
    assert_eq!(r.on_rendezvous(31_000_000), 3);
    assert_eq!(r.stage(), RenderStage::AwaitMessage);
    match r.on_message(Ok(GameLoopMessage::RenderData(5u8))) {
        Reaction::SubmitAndReply(p) => assert_eq!(p, 5),
        Reaction::Stop => panic!("render data must be answered"),
    }
    assert_eq!(r.stage(), RenderStage::AwaitBarrier);
}

#[test]
fn exit_after_rendezvous_stops_the_loop() {
    let mut m: Mailbox<GameLoopMessage<u8>, u8> = Mailbox::new_entangled_pair();
    let mut r = RenderLoop::new(clock());
    // the driver sends Exit, then meets the barrier
    m.send_to_render(GameLoopMessage::Exit).unwrap();
    r.on_rendezvous(0);
    let got = m.recv_at_render().map(|o| o.unwrap());
    assert!(matches!(r.on_message(got), Reaction::Stop));
    assert_eq!(r.stage(), RenderStage::Done);
}

#[test]
fn dropped_game_end_stops_the_loop() {
    let mut r = RenderLoop::new(clock());
    r.on_rendezvous(0);
    assert!(matches!(
        r.on_message::<u8>(Err(MailboxError::Disconnected)),
        Reaction::Stop
    ));
    assert_eq!(r.stage(), RenderStage::Done);
}

#[test]
fn thread_spawns_once_and_joins_once() {
    let mut t = ThreadLifecycle::new();
    assert_eq!(t.state(), ThreadState::Idle);
    assert!(!t.join());
    assert!(t.run());
    assert_eq!(t.state(), ThreadState::Running);
    assert!(!t.run());
    assert!(t.join());
    assert_eq!(t.state(), ThreadState::Joined);
    assert!(!t.join());
    assert!(!t.run());
}

/// Runs both sides in lockstep over one mailbox and counts the rendezvous
/// each makes.
#[test]
fn both_sides_meet_the_barrier_equally_often() {
    let mut m: Mailbox<GameLoopMessage<u32>, u64> = Mailbox::new_entangled_pair();
    let mut d: FrameDriver<u32, u64> = FrameDriver::new(clock(), Polling::Poll);
    let mut r = RenderLoop::new(clock());
    let mut driver_meets = 0u32;
    let mut render_meets = 0u32;
    let mut frames = 0u32;
    loop {
        let outcome = match d.pending() {
            Action::StartRenderThread => Outcome::Started,
            Action::PollInput | Action::WaitInput => {
                frames += 1;
                Outcome::Input(if frames <= 4 { Some(frames) } else { None })
            }
            Action::Rendezvous => {
                driver_meets += 1;
                render_meets += 1;
                r.on_rendezvous(10_000_000);
                assert_eq!(driver_meets, render_meets);
                Outcome::Rendezvoused(10_000_000)
            }
            Action::Advance => Outcome::Nothing,
            Action::RequestRender => {
                m.send_to_render(GameLoopMessage::RenderData(frames)).unwrap();
                let got = m.recv_at_render().map(|o| o.unwrap());
                match r.on_message(got) {
                    Reaction::SubmitAndReply(p) => m.send_to_game(p as u64).unwrap(),
                    Reaction::Stop => panic!("render data must be answered"),
                }
                Outcome::Rendered(m.recv_at_game().map(|o| o.unwrap()))
            }
            Action::SendExit => {
                d.exit_sent(m.send_to_render(GameLoopMessage::Exit));
                continue;
            }
            Action::Shutdown => {
                driver_meets += 1;
                render_meets += 1;
                r.on_rendezvous(0);
                let got = m.recv_at_render().map(|o| o.unwrap());
                assert!(matches!(r.on_message(got), Reaction::Stop));
                Outcome::ShutDown
            }
            Action::Join | Action::Finish => panic!("both ends live until the end"),
        };
        if d.step(outcome).is_none() {
            break;
        }
    }
    assert!(d.is_finished());
    assert_eq!(d.phase(), Phase::ExitLoop);
    assert_eq!(r.stage(), RenderStage::Done);
    assert_eq!(driver_meets, 5);
    assert_eq!(render_meets, 5);
}
