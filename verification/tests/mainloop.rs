use abagames_util::error::GameStep;
use abagames_util::input::{Event, Input};
use abagames_util::mainloop::{
    calculate_interval, plan_frame, FrameInput, Game, MainLoop, RunOutcome, StepResult,
    INTERVAL_BASE, INTERVAL_MAX, MAX_SKIP_FRAME,
};

/// A scripted game: counts its lifecycle calls and reports a fixed step
/// result.
struct MockGame {
    init_calls: usize,
    event_calls: usize,
    step_calls: usize,
    draw_calls: usize,
    quit_calls: usize,
    step_result: StepResult,
    exit_on_event: bool,
}

impl MockGame {
    fn new(step_result: StepResult) -> Self {
        MockGame {
            init_calls: 0,
            event_calls: 0,
            step_calls: 0,
            draw_calls: 0,
            quit_calls: 0,
            step_result,
            exit_on_event: false,
        }
    }
}

impl Game for MockGame {
    type Error = String;

    fn init(&mut self) -> Result<(), String> {
        self.init_calls += 1;
        Ok(())
    }

    fn handle_event(&mut self, _event: &Event) -> Result<bool, String> {
        self.event_calls += 1;
        Ok(self.exit_on_event)
    }

    fn step(&mut self, _input: &Input) -> Result<StepResult, String> {
        self.step_calls += 1;
        Ok(self.step_result)
    }

    fn draw(&mut self) -> Result<(), String> {
        self.draw_calls += 1;
        Ok(())
    }

    fn quit(&mut self) -> Result<(), String> {
        self.quit_calls += 1;
        Ok(())
    }
}

/// A game that fails in a chosen lifecycle stage.
struct FailingGame {
    fail_in: GameStep,
}

impl Game for FailingGame {
    type Error = &'static str;

    fn init(&mut self) -> Result<(), &'static str> {
        if self.fail_in == GameStep::Initialize {
            Err("boom")
        } else {
            Ok(())
        }
    }

    fn handle_event(&mut self, _event: &Event) -> Result<bool, &'static str> {
        if self.fail_in == GameStep::HandleEvent {
            Err("boom")
        } else {
            Ok(false)
        }
    }

    fn step(&mut self, _input: &Input) -> Result<StepResult, &'static str> {
        if self.fail_in == GameStep::StepGame {
            Err("boom")
        } else {
            Ok(StepResult::Slowdown(1000))
        }
    }

    fn draw(&mut self) -> Result<(), &'static str> {
        if self.fail_in == GameStep::DrawFrame {
            Err("boom")
        } else {
            Ok(())
        }
    }

    fn quit(&mut self) -> Result<(), &'static str> {
        if self.fail_in == GameStep::Quit {
            Err("boom")
        } else {
            Ok(())
        }
    }
}

#[test]
fn test_merge_sums_slowdowns() {
    assert_eq!(
        StepResult::Slowdown(2000).merge(StepResult::Slowdown(3000)),
        StepResult::Slowdown(5000),
    );
    assert_eq!(
        StepResult::Slowdown(u32::MAX).merge(StepResult::Slowdown(1)),
        StepResult::Slowdown(u32::MAX),
    );
}

#[test]
fn test_merge_done_absorbs() {
    assert_eq!(StepResult::Done.merge(StepResult::Slowdown(7)), StepResult::Done);
    assert_eq!(StepResult::Slowdown(7).merge(StepResult::Done), StepResult::Done);
    assert_eq!(StepResult::Done.merge(StepResult::Done), StepResult::Done);
}

#[test]
fn test_merge_commutative_and_associative_samples() {
    let samples = [
        StepResult::Slowdown(0),
        StepResult::Slowdown(1000),
        StepResult::Slowdown(u32::MAX - 5),
        StepResult::Done,
    ];
    for &a in &samples {
        for &b in &samples {
            assert_eq!(a.merge(b), b.merge(a));
            for &c in &samples {
                assert_eq!(a.merge(b).merge(c), a.merge(b.merge(c)));
            }
        }
    }
}

// Less than one interval of elapsed time runs exactly one tick and blocks
// until the schedule point.
#[test]
fn test_plan_frame_on_pace() {
    // interval 16000 us = 16 ms; 10 ms elapsed since the schedule point.
    let plan = plan_frame(100, 16_000, 110);
    assert_eq!(plan.ticks, 1);
    assert_eq!(plan.delay_ms, 6);
    assert_eq!(plan.next_prev_tick, 116);
}

// A backlog of up to MAX_SKIP_FRAME intervals runs one tick per interval and
// resynchronizes to the clock.
#[test]
fn test_plan_frame_catches_up() {
    // 3 intervals behind.
    let plan = plan_frame(100, 16_000, 100 + 48);
    assert_eq!(plan.ticks, 3);
    assert_eq!(plan.delay_ms, 0);
    assert_eq!(plan.next_prev_tick, 148);
}

// A larger backlog is clamped: exactly MAX_SKIP_FRAME ticks run and the
// excess debt is dropped.
#[test]
fn test_plan_frame_clamps_backlog() {
    let plan = plan_frame(0, 16_000, 16 * 100);
    assert_eq!(plan.ticks, MAX_SKIP_FRAME);
    assert_eq!(plan.delay_ms, 0);
    assert_eq!(plan.next_prev_tick, 1600);
}

// One real frame on pace runs exactly one logical tick.
#[test]
fn test_run_frame_on_pace_steps_once() {
    let mut ml = MainLoop::new();
    let mut game = MockGame::new(StepResult::Slowdown(1000));
    game.init().unwrap();
    let input = Input::empty();
    let report = ml.run_frame(&mut game, 0, None, &input).unwrap();
    assert_eq!(report.ticks, 1);
    assert_eq!(game.step_calls, 1);
    assert_eq!(game.draw_calls, 1);
    assert!(!report.done);
    // The schedule point advanced by exactly one interval (16 ms).
    assert_eq!(ml.next_tick_due(), 16);
}

// A stalled frame runs the clamped number of ticks but draws only once, and
// carries no debt into the next frame.
#[test]
fn test_run_frame_clamps_and_resyncs() {
    let mut ml = MainLoop::new();
    let mut game = MockGame::new(StepResult::Slowdown(1000));
    game.init().unwrap();
    let input = Input::empty();
    // 12.8 seconds of backlog: 800 intervals behind.
    let report = ml.run_frame(&mut game, 12_800, None, &input).unwrap();
    assert_eq!(report.ticks, MAX_SKIP_FRAME);
    assert_eq!(game.step_calls, MAX_SKIP_FRAME as usize);
    assert_eq!(game.draw_calls, 1);
    assert_eq!(ml.next_tick_due(), 12_800);
    // The next frame right after is on pace again: one tick.
    let report = ml.run_frame(&mut game, 12_801, None, &input).unwrap();
    assert_eq!(report.ticks, 1);
}

// The interval adaptation: a single step moves 10% toward the clamped
// target, or 8% back toward the base.
#[test]
fn test_calculate_interval_exact_values() {
    // Slowdown 2.0 clamps to 1.75: target 28000; from 16000 move 10% of
    // 12000 = 1200.
    assert_eq!(calculate_interval(16_000, 2_000), 17_200);
    // Slowdown 1.2: target 19200; from 16000 move 10% of 3200.
    assert_eq!(calculate_interval(16_000, 1_200), 16_320);
    // No slowdown: from 20000 move 8% of 4000 = 320 back toward 16000.
    assert_eq!(calculate_interval(20_000, 1_000), 19_680);
    // Already at base: stays.
    assert_eq!(calculate_interval(INTERVAL_BASE, 500), INTERVAL_BASE);
}

// A game reporting Slowdown(2.0) every tick drives the interval
// monotonically toward 1.75 * base without ever overshooting.
#[test]
fn test_interval_approaches_clamped_target() {
    let mut ml = MainLoop::new();
    let mut game = MockGame::new(StepResult::Slowdown(2_000));
    game.init().unwrap();
    let input = Input::empty();
    let mut now: u32 = 0;
    let mut prev_interval = ml.interval_micros();
    assert_eq!(prev_interval, INTERVAL_BASE);
    for _ in 0..200 {
        let report = ml.run_frame(&mut game, now, None, &input).unwrap();
        let interval = ml.interval_micros();
        assert!(interval >= prev_interval, "the interval never backs off");
        assert!(interval <= INTERVAL_MAX, "the interval never overshoots");
        prev_interval = interval;
        now = now.saturating_add(report.delay_ms).saturating_add(interval / 1000);
    }
    // Integer smoothing parks within a step of the target.
    assert!(prev_interval >= INTERVAL_MAX - 10);
}

// A single injected quit event ends the run: draw ran once per frame, quit
// ran exactly once, and the loop returned cleanly.
#[test]
fn test_quit_event_quits_exactly_once() {
    let mut ml = MainLoop::new();
    let mut game = MockGame::new(StepResult::Slowdown(1000));
    let frames = vec![
        FrameInput { now_tick: 0, event: None, input: Input::empty() },
        FrameInput { now_tick: 16, event: Some(Event::Other(3)), input: Input::empty() },
        FrameInput { now_tick: 32, event: Some(Event::Quit), input: Input::empty() },
        FrameInput { now_tick: 48, event: None, input: Input::empty() },
    ];
    let outcome = ml.run(&mut game, &frames).unwrap();
    assert_eq!(outcome, RunOutcome::Finished);
    assert_eq!(game.init_calls, 1);
    assert_eq!(game.quit_calls, 1);
    // The quit event bypassed the game's own event handling.
    assert_eq!(game.event_calls, 1);
    // One draw per frame run, including the terminal one.
    assert_eq!(game.draw_calls, 3);
    assert!(game.step_calls >= 3);
}

// A game asking to exit from `handle_event` also ends the run.
#[test]
fn test_handle_event_exit_finishes_run() {
    let mut ml = MainLoop::new();
    let mut game = MockGame::new(StepResult::Slowdown(1000));
    game.exit_on_event = true;
    let frames = vec![
        FrameInput { now_tick: 0, event: Some(Event::Other(9)), input: Input::empty() },
        FrameInput { now_tick: 16, event: None, input: Input::empty() },
    ];
    let outcome = ml.run(&mut game, &frames).unwrap();
    assert_eq!(outcome, RunOutcome::Finished);
    assert_eq!(game.event_calls, 1);
    assert_eq!(game.quit_calls, 1);
}

// A game signalling Done from a step ends the run the same way.
#[test]
fn test_done_step_finishes_run() {
    let mut ml = MainLoop::new();
    let mut game = MockGame::new(StepResult::Done);
    let frames = vec![
        FrameInput { now_tick: 0, event: None, input: Input::empty() },
        FrameInput { now_tick: 16, event: None, input: Input::empty() },
    ];
    let outcome = ml.run(&mut game, &frames).unwrap();
    assert_eq!(outcome, RunOutcome::Finished);
    assert_eq!(game.quit_calls, 1);
    assert_eq!(game.draw_calls, 1);
}

// A run that never turns terminal consumes all its frames.
#[test]
fn test_run_out_of_input() {
    let mut ml = MainLoop::new();
    let mut game = MockGame::new(StepResult::Slowdown(1000));
    let frames = vec![
        FrameInput { now_tick: 0, event: None, input: Input::empty() },
        FrameInput { now_tick: 16, event: Some(Event::Other(1)), input: Input::empty() },
    ];
    let outcome = ml.run(&mut game, &frames).unwrap();
    assert_eq!(outcome, RunOutcome::OutOfInput);
    assert_eq!(game.quit_calls, 0);
    assert_eq!(game.draw_calls, 2);
}

// Each lifecycle failure is tagged with the stage that raised it.
#[test]
fn test_errors_are_tagged_with_their_stage() {
    for &stage in &[
        GameStep::Initialize,
        GameStep::HandleEvent,
        GameStep::StepGame,
        GameStep::DrawFrame,
        GameStep::Quit,
    ] {
        let mut ml = MainLoop::new();
        let mut game = FailingGame { fail_in: stage };
        let frames = vec![
            FrameInput { now_tick: 0, event: Some(Event::Other(1)), input: Input::empty() },
            FrameInput { now_tick: 16, event: Some(Event::Quit), input: Input::empty() },
        ];
        let err = ml.run(&mut game, &frames).unwrap_err();
        assert_eq!(err.step, stage);
        assert_eq!(err.source, "boom");
    }
}

#[test]
fn test_game_step_messages() {
    assert_eq!(GameStep::Initialize.msg(), "failed to initialize the game");
    assert_eq!(GameStep::HandleEvent.msg(), "failed to handle an event");
    assert_eq!(GameStep::StepGame.msg(), "failed to step the game");
    assert_eq!(GameStep::DrawFrame.msg(), "failed to draw a frame");
    assert_eq!(GameStep::Quit.msg(), "failed to quit the game");
}
