//! Main loop support.
//!
//! The main loop drives a [`Game`] through its lifecycle at a target cadence:
//! per real frame it forwards at most one pending platform event, runs zero
//! or more logical ticks to catch up with real time (clamped to
//! [`MAX_SKIP_FRAME`]), draws exactly once, and adapts the tick interval from
//! the slowdown the game reports.
//!
//! Timing is held as plain values: wall-clock ticks in milliseconds, the
//! interval in microseconds, and slowdown ratios in thousandths. The host
//! supplies the clock readings and events — [`MainLoop::run_frame`] runs one
//! real frame from one clock reading, and the caller performs the blocking
//! delay it asks for; [`MainLoop::run`] drives a whole run from a prepared
//! sequence of frame inputs. Tick readings are assumed not to wrap around.

use vstd::prelude::*;

use crate::error::{GameError, GameStep};
use crate::input::{Event, Input};

verus! {

/// Nominal tick length, in microseconds (about 60 ticks per second).
pub const INTERVAL_BASE: u32 = 16_000;

/// The most logical ticks one real frame may run to catch up.
pub const MAX_SKIP_FRAME: u32 = 5;

/// The reported slowdown ratio (in thousandths) above which the interval is
/// stretched rather than relaxed back toward [`INTERVAL_BASE`].
pub const SLOWDOWN_START_RATIO: u32 = 1_000;

/// The largest slowdown ratio (in thousandths) the interval adapts to.
pub const SLOWDOWN_MAX_RATIO: u32 = 1_750;

/// The longest interval adaptation can reach, in microseconds:
/// [`INTERVAL_BASE`] stretched by [`SLOWDOWN_MAX_RATIO`].
pub const INTERVAL_MAX: u32 = 28_000;

/// Behavior from stepping a frame in the game state.
///
/// The slowdown ratio is in thousandths: `1_000` means the tick used one
/// nominal interval's worth of time.
#[derive(Debug, Clone, Copy, PartialEq, Eq, Structural)]
pub enum StepResult {
    /// Slow down the game by the given ratio, in thousandths.
    Slowdown(u32),
    /// The game is complete.
    Done,
}

/// Addition capped at `u32::MAX`.
pub open spec fn spec_saturating_add(a: u32, b: u32) -> u32 {
    if a + b <= u32::MAX {
        (a + b) as u32
    } else {
        u32::MAX
    }
}

/// The merge law folding per-tick results within one real frame: `Done` is
/// absorbing, and slowdown ratios add (saturating).
pub open spec fn spec_merge(a: StepResult, b: StepResult) -> StepResult {
    match (a, b) {
        (StepResult::Slowdown(s1), StepResult::Slowdown(s2)) => StepResult::Slowdown(
            spec_saturating_add(s1, s2),
        ),
        _ => StepResult::Done,
    }
}

impl StepResult {
    /// Merge the outcomes of two logical ticks: `Done` is absorbing,
    /// slowdown ratios add.
    pub fn merge(self, other: Self) -> (r: Self)
        ensures
            r == spec_merge(self, other),
    {
        match (self, other) {
            (StepResult::Slowdown(s1), StepResult::Slowdown(s2)) => {
                let sum = if s1 > u32::MAX - s2 {
                    u32::MAX
                } else {
                    s1 + s2
                };
                StepResult::Slowdown(sum)
            },
            _ => StepResult::Done,
        }
    }
}

/// Law: merging the results of two ticks does not depend on their order.
pub proof fn lemma_merge_commutative(a: StepResult, b: StepResult)
    ensures
        spec_merge(a, b) == spec_merge(b, a),
{
}

/// Law: folding the results of several ticks does not depend on grouping.
pub proof fn lemma_merge_associative(a: StepResult, b: StepResult, c: StepResult)
    ensures
        spec_merge(spec_merge(a, b), c) == spec_merge(a, spec_merge(b, c)),
{
}

/// Law: `Done` absorbs any combination of results.
pub proof fn lemma_merge_done_absorbs(a: StepResult)
    ensures
        spec_merge(a, StepResult::Done) == StepResult::Done,
        spec_merge(StepResult::Done, a) == StepResult::Done,
{
}

/// Trait for a game which can be run by the event loop.
pub trait Game {
    /// The error type for the game.
    type Error;

    /// Initialize the game.
    ///
    /// Any one-time initialization routines should be completed in this
    /// method.
    fn init(&mut self) -> Result<(), Self::Error>;

    /// Handle an event within the game.
    ///
    /// Return `true` if the game should exit, `false` to continue.
    fn handle_event(&mut self, event: &Event) -> Result<bool, Self::Error>;

    /// Step the game one logical tick with the given input.
    fn step(&mut self, input: &Input) -> Result<StepResult, Self::Error>;

    /// Draw the game to the screen.
    fn draw(&mut self) -> Result<(), Self::Error>;

    /// Quit the game.
    ///
    /// Cleanup routines should be run here.
    fn quit(&mut self) -> Result<(), Self::Error>;
}

/// How many whole intervals of real time have passed since the last
/// scheduled tick. A clock reading before the schedule point counts as zero.
pub open spec fn spec_frames(prev_tick: u32, interval_us: u32, now_tick: u32) -> int {
    if now_tick <= prev_tick {
        0
    } else {
        ((now_tick - prev_tick) * 1000) / (interval_us as int)
    }
}

/// How many logical ticks the frame runs: one when on pace, the backlog when
/// behind, clamped to [`MAX_SKIP_FRAME`].
pub open spec fn spec_ticks(prev_tick: u32, interval_us: u32, now_tick: u32) -> u32 {
    let frames = spec_frames(prev_tick, interval_us, now_tick);
    if frames == 0 {
        1
    } else if frames > MAX_SKIP_FRAME {
        MAX_SKIP_FRAME
    } else {
        frames as u32
    }
}

/// The schedule point after the frame: advanced by exactly one interval when
/// on pace, resynchronized to `now_tick` when behind.
pub open spec fn spec_next_prev(prev_tick: u32, interval_us: u32, now_tick: u32) -> u32 {
    if spec_frames(prev_tick, interval_us, now_tick) == 0 {
        if prev_tick + interval_us / 1000 <= u32::MAX {
            (prev_tick + interval_us / 1000) as u32
        } else {
            u32::MAX
        }
    } else {
        now_tick
    }
}

/// How long the frame blocks before ticking: when on pace, until the next
/// scheduled tick is due; nothing when behind.
pub open spec fn spec_delay(prev_tick: u32, interval_us: u32, now_tick: u32) -> u32 {
    if spec_frames(prev_tick, interval_us, now_tick) == 0 {
        let due = prev_tick + interval_us / 1000;
        if due <= now_tick {
            0
        } else if due - now_tick <= u32::MAX {
            (due - now_tick) as u32
        } else {
            u32::MAX
        }
    } else {
        0
    }
}

/// The plan for one real frame: how long to block first, how many logical
/// ticks to run, and where the schedule point moves.
pub struct FramePlan {
    /// Milliseconds to block before ticking, when the frame is ahead of the
    /// schedule.
    pub delay_ms: u32,
    /// How many logical ticks to run; between 1 and [`MAX_SKIP_FRAME`].
    pub ticks: u32,
    /// The wall-clock tick at which the next logical tick is due.
    pub next_prev_tick: u32,
}

/// Decide how one real frame catches up with real time.
///
/// With less than one interval elapsed the frame blocks until the schedule
/// point and runs exactly one tick; with a backlog of up to
/// [`MAX_SKIP_FRAME`] intervals it runs one tick per interval and
/// resynchronizes; with a longer backlog it drops the excess rather than
/// ever running more than [`MAX_SKIP_FRAME`] ticks.
pub fn plan_frame(prev_tick: u32, interval_us: u32, now_tick: u32) -> (r: FramePlan)
    requires
        1000 <= interval_us,
    ensures
        r.ticks == spec_ticks(prev_tick, interval_us, now_tick),
        r.next_prev_tick == spec_next_prev(prev_tick, interval_us, now_tick),
        r.delay_ms == spec_delay(prev_tick, interval_us, now_tick),
        1 <= r.ticks <= MAX_SKIP_FRAME,
{
    let interval_ms: u32 = interval_us / 1000;
    let elapsed: u64 = if now_tick > prev_tick {
        (now_tick - prev_tick) as u64
    } else {
        0
    };
    let frames: u64 = elapsed * 1000 / (interval_us as u64);
    if frames == 0 {
        let due: u64 = prev_tick as u64 + interval_ms as u64;
        let next_prev_tick: u32 = if due > u32::MAX as u64 {
            u32::MAX
        } else {
            due as u32
        };
        let delay_ms: u32 = if due > now_tick as u64 {
            let d: u64 = due - now_tick as u64;
            if d > u32::MAX as u64 {
                u32::MAX
            } else {
                d as u32
            }
        } else {
            0
        };
        FramePlan { delay_ms, ticks: 1, next_prev_tick }
    } else if frames > MAX_SKIP_FRAME as u64 {
        FramePlan { delay_ms: 0, ticks: MAX_SKIP_FRAME, next_prev_tick: now_tick }
    } else {
        FramePlan { delay_ms: 0, ticks: frames as u32, next_prev_tick: now_tick }
    }
}

/// Law: with less than one interval of real time elapsed since the schedule
/// point, exactly one logical tick runs in the frame.
pub proof fn lemma_on_pace_runs_one_tick(prev_tick: u32, interval_us: u32, now_tick: u32)
    requires
        1000 <= interval_us,
        prev_tick <= now_tick,
        (now_tick - prev_tick) * 1000 < interval_us,
    ensures
        spec_ticks(prev_tick, interval_us, now_tick) == 1,
{
    assert(((now_tick - prev_tick) * 1000) / (interval_us as int) == 0) by (nonlinear_arith)
        requires
            0 <= (now_tick - prev_tick) * 1000 < interval_us,
            interval_us >= 1000,
    ;
}

/// Law: a backlog of more than [`MAX_SKIP_FRAME`] intervals is clamped:
/// exactly [`MAX_SKIP_FRAME`] ticks run, the schedule resynchronizes to the
/// clock, and no catch-up debt is carried forward.
pub proof fn lemma_backlog_is_clamped(prev_tick: u32, interval_us: u32, now_tick: u32)
    requires
        1000 <= interval_us,
        spec_frames(prev_tick, interval_us, now_tick) > MAX_SKIP_FRAME,
    ensures
        spec_ticks(prev_tick, interval_us, now_tick) == MAX_SKIP_FRAME,
        spec_next_prev(prev_tick, interval_us, now_tick) == now_tick,
        spec_delay(prev_tick, interval_us, now_tick) == 0,
{
}

/// The interval adaptation aims at this many microseconds per tick for a
/// reported slowdown (in thousandths): the ratio, clamped to
/// [`SLOWDOWN_MAX_RATIO`], applied to [`INTERVAL_BASE`].
pub open spec fn spec_slowdown_target(slowdown_mil: u32) -> int {
    if slowdown_mil > SLOWDOWN_MAX_RATIO {
        SLOWDOWN_MAX_RATIO * (INTERVAL_BASE / 1000)
    } else {
        slowdown_mil * (INTERVAL_BASE / 1000)
    }
}

/// One step of interval adaptation: while the game reports running behind,
/// move a tenth of the way toward the clamped target; otherwise move eight
/// hundredths of the way back toward [`INTERVAL_BASE`].
pub open spec fn spec_calculate_interval(interval_us: u32, slowdown_mil: u32) -> int {
    if slowdown_mil > SLOWDOWN_START_RATIO {
        let target = spec_slowdown_target(slowdown_mil);
        if interval_us <= target {
            interval_us + (target - interval_us) / 10
        } else {
            interval_us - (interval_us - target) / 10
        }
    } else {
        if interval_us <= INTERVAL_BASE {
            interval_us + (INTERVAL_BASE - interval_us) * 8 / 100
        } else {
            interval_us - (interval_us - INTERVAL_BASE) * 8 / 100
        }
    }
}

/// Recompute the tick interval from the average per-tick slowdown reported
/// this frame (in thousandths).
///
/// The exponential smoothing never jumps: the new interval always lies
/// between the old one and the aim — the clamped slowdown target while the
/// game reports running behind, [`INTERVAL_BASE`] otherwise.
pub fn calculate_interval(interval_us: u32, slowdown_mil: u32) -> (r: u32)
    ensures
        r == spec_calculate_interval(interval_us, slowdown_mil),
        slowdown_mil > SLOWDOWN_START_RATIO && interval_us
            <= spec_slowdown_target(slowdown_mil) ==> interval_us <= r <= spec_slowdown_target(
            slowdown_mil,
        ),
        slowdown_mil > SLOWDOWN_START_RATIO && interval_us > spec_slowdown_target(slowdown_mil)
            ==> spec_slowdown_target(slowdown_mil) <= r <= interval_us,
        slowdown_mil <= SLOWDOWN_START_RATIO && interval_us <= INTERVAL_BASE ==> interval_us <= r
            <= INTERVAL_BASE,
        slowdown_mil <= SLOWDOWN_START_RATIO && interval_us > INTERVAL_BASE ==> INTERVAL_BASE <= r
            <= interval_us,
{
    if slowdown_mil > SLOWDOWN_START_RATIO {
        let ratio: u32 = if slowdown_mil > SLOWDOWN_MAX_RATIO {
            SLOWDOWN_MAX_RATIO
        } else {
            slowdown_mil
        };
        let scale: u32 = INTERVAL_BASE / 1000;
        assert(scale == 16);
        assert(ratio <= SLOWDOWN_MAX_RATIO);
        let target: u32 = ratio * scale;
        if interval_us <= target {
            interval_us + (target - interval_us) / 10
        } else {
            interval_us - (interval_us - target) / 10
        }
    } else {
        if interval_us <= INTERVAL_BASE {
            let gap: u32 = (INTERVAL_BASE - interval_us) * 8 / 100;
            assert((INTERVAL_BASE - interval_us) * 8 / 100 <= INTERVAL_BASE - interval_us);
            interval_us + gap
        } else {
            let wide: u64 = ((interval_us - INTERVAL_BASE) as u64) * 8 / 100;
            assert(((interval_us - INTERVAL_BASE) as u64) * 8 / 100 <= interval_us
                - INTERVAL_BASE);
            interval_us - (wide as u32)
        }
    }
}

/// Law: while the game keeps reporting a slowdown above 1, the interval
/// moves monotonically toward the clamped slowdown target and never
/// overshoots it.
pub proof fn lemma_interval_approaches_target(interval_us: u32, slowdown_mil: u32)
    requires
        slowdown_mil > SLOWDOWN_START_RATIO,
        interval_us <= spec_slowdown_target(slowdown_mil),
    ensures
        interval_us <= spec_calculate_interval(interval_us, slowdown_mil)
            <= spec_slowdown_target(slowdown_mil),
{
}

/// Law: once the game stops reporting a slowdown, the interval moves
/// monotonically back toward the nominal tick length and never undershoots
/// it.
pub proof fn lemma_interval_recovers(interval_us: u32, slowdown_mil: u32)
    requires
        slowdown_mil <= SLOWDOWN_START_RATIO,
        interval_us >= INTERVAL_BASE,
    ensures
        INTERVAL_BASE <= spec_calculate_interval(interval_us, slowdown_mil) <= interval_us,
{
}

/// What happened in one real frame.
pub struct FrameReport {
    /// How many logical ticks ran.
    pub ticks: u32,
    /// How long the caller should block before the next frame, in
    /// milliseconds.
    pub delay_ms: u32,
    /// Whether the run is over: a quit event arrived, the game asked to exit
    /// from `handle_event`, or a tick returned [`StepResult::Done`]. When
    /// set, the game's `quit` callback has already run.
    pub done: bool,
}

/// The inputs one real frame consumes: a clock reading, at most one pending
/// platform event, and the input snapshot shared by the frame's ticks.
pub struct FrameInput {
    /// The wall-clock tick counter, in milliseconds.
    pub now_tick: u32,
    /// The pending platform event, if any.
    pub event: Option<Event>,
    /// The input snapshot for this frame.
    pub input: Input,
}

/// Whether the frame's pending event is a quit request.
pub open spec fn is_quit_event(event: Option<&Event>) -> bool {
    match event {
        Some(e) => *e == Event::Quit,
        None => false,
    }
}

/// How a run driven from a prepared sequence of frame inputs ended.
#[derive(Debug, Clone, Copy, PartialEq, Eq, Structural)]
pub enum RunOutcome {
    /// The run became terminal and the game's `quit` callback ran.
    Finished,
    /// Every supplied frame ran without the game finishing.
    OutOfInput,
}

/// The mainloop structure: the frame-pacing state of one run.
pub struct MainLoop {
    /// The wall-clock tick at which the next logical tick is due.
    prev_tick: u32,
    /// Current target microseconds per logical tick.
    interval_us: u32,
}

impl MainLoop {
    /// The wall-clock tick at which the next logical tick is due.
    pub closed spec fn prev_tick(&self) -> u32 {
        self.prev_tick
    }

    /// The current target interval, in microseconds per logical tick.
    pub closed spec fn interval(&self) -> u32 {
        self.interval_us
    }

    /// The pacing state stays within the band adaptation can reach.
    pub open spec fn wf(&self) -> bool {
        INTERVAL_BASE <= self.interval() <= INTERVAL_MAX
    }

    /// Create a new main loop, paced at the nominal tick length.
    pub fn new() -> (r: MainLoop)
        ensures
            r.prev_tick() == 0,
            r.interval() == INTERVAL_BASE,
            r.wf(),
    {
        MainLoop { prev_tick: 0, interval_us: INTERVAL_BASE }
    }

    /// The current target interval, in microseconds per logical tick.
    pub fn interval_micros(&self) -> (r: u32)
        ensures
            r == self.interval(),
    {
        self.interval_us
    }

    /// The wall-clock tick at which the next logical tick is due.
    pub fn next_tick_due(&self) -> (r: u32)
        ensures
            r == self.prev_tick(),
    {
        self.prev_tick
    }

    /// Run one real frame of a game.
    ///
    /// Forwards the pending event (a quit request marks the frame terminal
    /// directly), runs the planned number of logical ticks on `game`, draws
    /// once, adapts the interval from the average reported slowdown, and —
    /// on a terminal frame — runs the game's `quit` callback. The caller
    /// blocks for the returned delay before reading the clock for the next
    /// frame.
    pub fn run_frame<G: Game>(
        &mut self,
        game: &mut G,
        now_tick: u32,
        event: Option<&Event>,
        input: &Input,
    ) -> (r: Result<FrameReport, GameError<G::Error>>)
        requires
            old(self).wf(),
        ensures
            final(self).wf(),
            r matches Ok(rep) ==> {
                &&& rep.ticks == spec_ticks(old(self).prev_tick(), old(self).interval(), now_tick)
                &&& rep.delay_ms == spec_delay(
                    old(self).prev_tick(),
                    old(self).interval(),
                    now_tick,
                )
                &&& final(self).prev_tick() == spec_next_prev(
                    old(self).prev_tick(),
                    old(self).interval(),
                    now_tick,
                )
                &&& is_quit_event(event) ==> rep.done
                &&& exists|avg: u32| final(self).interval() == spec_calculate_interval(
                    old(self).interval(),
                    avg,
                )
            },
            r matches Err(e) ==> e.step != GameStep::Initialize,
            r matches Err(e) && e.step == GameStep::HandleEvent ==> event.is_some()
                && !is_quit_event(event),
            r matches Err(e) && e.step == GameStep::HandleEvent ==> final(self).prev_tick()
                == old(self).prev_tick() && final(self).interval() == old(self).interval(),
            r matches Err(e) && (e.step == GameStep::StepGame || e.step == GameStep::DrawFrame)
                ==> final(self).prev_tick() == spec_next_prev(
                old(self).prev_tick(),
                old(self).interval(),
                now_tick,
            ) && final(self).interval() == old(self).interval(),
            r matches Err(e) && e.step == GameStep::Quit ==> final(self).prev_tick()
                == spec_next_prev(old(self).prev_tick(), old(self).interval(), now_tick)
                && (exists|avg: u32|
                final(self).interval() == spec_calculate_interval(old(self).interval(), avg)),
    {
        let mut is_done: bool = false;
        match event {
            Some(e) => {
                match *e {
                    Event::Quit => {
                        is_done = true;
                    },
                    Event::Other(_) => {
                        match game.handle_event(e) {
                            Ok(exit) => {
                                if exit {
                                    is_done = true;
                                }
                            },
                            Err(err) => {
                                return Err(GameError::new(GameStep::HandleEvent, err));
                            },
                        }
                    },
                }
            },
            None => {},
        }

        let plan = plan_frame(self.prev_tick, self.interval_us, now_tick);
        self.prev_tick = plan.next_prev_tick;

        let mut merged = StepResult::Slowdown(0);
        let mut tick: u32 = 0;
        while tick < plan.ticks
            invariant
                tick <= plan.ticks,
                self.wf(),
                self.prev_tick == plan.next_prev_tick,
                self.interval_us == old(self).interval(),
                plan.next_prev_tick == spec_next_prev(
                    old(self).prev_tick(),
                    old(self).interval(),
                    now_tick,
                ),
            decreases plan.ticks - tick,
        {
            match game.step(input) {
                Ok(s) => {
                    merged = merged.merge(s);
                },
                Err(err) => {
                    return Err(GameError::new(GameStep::StepGame, err));
                },
            }
            tick += 1;
        }

        let slowdown: u32 = match merged {
            StepResult::Done => {
                is_done = true;
                0
            },
            StepResult::Slowdown(s) => s,
        };

        match game.draw() {
            Ok(()) => {},
            Err(err) => {
                return Err(GameError::new(GameStep::DrawFrame, err));
            },
        }

        let avg_slowdown = slowdown / plan.ticks;
        self.interval_us = calculate_interval(self.interval_us, avg_slowdown);

        if is_done {
            match game.quit() {
                Ok(()) => {},
                Err(err) => {
                    return Err(GameError::new(GameStep::Quit, err));
                },
            }
        }

        Ok(FrameReport { ticks: plan.ticks, delay_ms: plan.delay_ms, done: is_done })
    }

    /// Run a game over a prepared sequence of frame inputs.
    ///
    /// Initializes the game once, runs one real frame per input until a
    /// frame is terminal — the game's `quit` callback then ran exactly once
    /// — and reports whether the run finished or the inputs ran out first.
    /// A run over inputs that include a quit request never runs out of
    /// input: it either finishes or fails in a lifecycle callback.
    pub fn run<G: Game>(&mut self, game: &mut G, frames: &Vec<FrameInput>) -> (r: Result<
        RunOutcome,
        GameError<G::Error>,
    >)
        requires
            old(self).wf(),
        ensures
            final(self).wf(),
            frames@.len() == 0 ==> (r matches Ok(o) ==> o == RunOutcome::OutOfInput),
            r matches Ok(o) ==> ((exists|j: int|
                0 <= j < frames@.len() && (#[trigger] frames@[j]).event == Some(Event::Quit))
                ==> o == RunOutcome::Finished),
            r matches Ok(o) ==> (o == RunOutcome::Finished ==> frames@.len() > 0),
            r matches Err(e) && e.step == GameStep::Initialize ==> final(self).prev_tick()
                == old(self).prev_tick() && final(self).interval() == old(self).interval(),
    {
        match game.init() {
            Ok(()) => {},
            Err(err) => {
                return Err(GameError::new(GameStep::Initialize, err));
            },
        }

        let mut k: usize = 0;
        while k < frames.len()
            invariant
                self.wf(),
                k <= frames@.len(),
                forall|j: int|
                    0 <= j < k ==> (#[trigger] frames@[j]).event != Some(Event::Quit),
            decreases frames@.len() - k,
        {
            let frame = &frames[k];
            let event = frame.event.as_ref();
            match self.run_frame(game, frame.now_tick, event, &frame.input) {
                Ok(rep) => {
                    if rep.done {
                        return Ok(RunOutcome::Finished);
                    }
                    proof {
                        if frames@[k as int].event == Some(Event::Quit) {
                            assert(is_quit_event(event));
                        }
                    }
                },
                Err(err) => {
                    return Err(err);
                },
            }
            k += 1;
        }
        Ok(RunOutcome::OutOfInput)
    }
}

} // verus!
