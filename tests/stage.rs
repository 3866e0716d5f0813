use foxy::clock::FixedClock;
use foxy::mailbox::MailboxError;
use foxy::stage::{Action, FrameDriver, Outcome, Phase, Polling};

fn driver() -> FrameDriver<u32, u64> {
    FrameDriver::new(FixedClock::from_rate(128, 1024).unwrap(), Polling::Poll)
}

fn started() -> FrameDriver<u32, u64> {
    let mut d = driver();
    assert_eq!(d.pending(), Action::StartRenderThread);
    assert_eq!(d.step(Outcome::Started), Some(Phase::Start));
    d
}

#[test]
fn initialize_starts_the_render_thread() {
    let mut d = driver();
    assert_eq!(d.phase(), Phase::Initialize);
    assert_eq!(d.step(Outcome::Started), Some(Phase::Start));
    assert_eq!(d.pending(), Action::PollInput);
}

#[test]
fn frame_with_31_millis_has_three_fixed_updates() {
    let mut d = started();
    assert_eq!(d.step(Outcome::Input(Some(9))), Some(Phase::BeginFrame));
    assert_eq!(d.event(), &Some(9));
    assert_eq!(d.pending(), Action::Rendezvous);
    assert_eq!(d.step(Outcome::Rendezvoused(31_000_000)), Some(Phase::EarlyUpdate));
    let mut phases = Vec::new();
    while d.pending() == Action::Advance {
        phases.push(d.step(Outcome::Nothing).unwrap());
    }
    assert_eq!(
        phases,
        vec![Phase::FixedUpdate, Phase::FixedUpdate, Phase::FixedUpdate, Phase::Update]
    );
    assert_eq!(d.clock().frame_ticks(), 3);
    assert_eq!(d.pending(), Action::RequestRender);
    assert_eq!(d.step(Outcome::Rendered(Ok(77))), Some(Phase::EndFrame));
    assert_eq!(d.response(), &Some(77));
}

#[test]
fn frames_cycle_in_order() {
    let mut d = started();
    let mut seen = Vec::new();
    for frame in 0..5u32 {
        seen.push(d.step(Outcome::Input(Some(frame))).unwrap());
        seen.push(d.step(Outcome::Rendezvoused(8_000_000)).unwrap());
        while d.pending() == Action::Advance {
            seen.push(d.step(Outcome::Nothing).unwrap());
        }
        seen.push(d.step(Outcome::Rendered(Ok(frame as u64))).unwrap());
    }
    let mut expected = Vec::new();
    let mut acc: u64 = 0;
    for _ in 0..5 {
        expected.push(Phase::BeginFrame);
        expected.push(Phase::EarlyUpdate);
        acc += 8_000_000;
        while acc >= 7_812_500 {
            acc -= 7_812_500;
            expected.push(Phase::FixedUpdate);
        }
        expected.push(Phase::Update);
        expected.push(Phase::EndFrame);
    }
    assert_eq!(seen, expected);
}

#[test]
fn closing_at_start_exits() {
    let mut d = started();
    assert_eq!(d.step(Outcome::Input(None)), Some(Phase::Exiting));
    assert_eq!(d.pending(), Action::SendExit);
    d.exit_sent(Ok(()));
    assert_eq!(d.pending(), Action::Shutdown);
    assert!(!d.is_finished());
    assert_eq!(d.step(Outcome::ShutDown), None);
    assert!(d.is_finished());
    assert_eq!(d.phase(), Phase::ExitLoop);
    assert_eq!(d.pending(), Action::Finish);
}

#[test]
fn closing_at_end_frame_exits() {
    let mut d = started();
    d.step(Outcome::Input(Some(1)));
    d.step(Outcome::Rendezvoused(0));
    assert_eq!(d.step(Outcome::Nothing), Some(Phase::Update));
    assert_eq!(d.step(Outcome::Rendered(Ok(1))), Some(Phase::EndFrame));
    assert_eq!(d.step(Outcome::Input(None)), Some(Phase::Exiting));
    d.exit_sent(Ok(()));
    assert_eq!(d.step(Outcome::ShutDown), None);
    assert!(d.is_finished());
}

#[test]
fn failed_render_request_exits() {
    let mut d = started();
    d.step(Outcome::Input(Some(1)));
    d.step(Outcome::Rendezvoused(0));
    d.step(Outcome::Nothing);
    assert_eq!(
        d.step(Outcome::Rendered(Err(MailboxError::Disconnected))),
        Some(Phase::Exiting)
    );
    assert_eq!(d.pending(), Action::SendExit);
}

#[test]
fn undelivered_exit_skips_the_final_rendezvous() {
    let mut d = started();
    d.step(Outcome::Input(Some(1)));
    d.step(Outcome::Rendezvoused(0));
    d.step(Outcome::Nothing);
    d.step(Outcome::Rendered(Err(MailboxError::Disconnected)));
    d.exit_sent(Err(MailboxError::Disconnected));
    assert_eq!(d.pending(), Action::Join);
    assert_eq!(d.step(Outcome::ShutDown), None);
    assert!(d.is_finished());
}

#[test]
fn wait_strategy_blocks_for_input() {
    let mut d: FrameDriver<u32, u64> =
        FrameDriver::new(FixedClock::from_rate(128, 1024).unwrap(), Polling::Wait);
    d.step(Outcome::Started);
    assert_eq!(d.pending(), Action::WaitInput);
    assert_eq!(d.step(Outcome::Input(Some(3))), Some(Phase::BeginFrame));
    assert_eq!(d.pending(), Action::Rendezvous);
}
