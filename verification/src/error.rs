//! Error types for the main loop.

use vstd::prelude::*;

verus! {

/// Steps in running a game instance; an error raised inside a lifecycle
/// callback is tagged with the step that produced it.
#[derive(Debug, Clone, Copy, PartialEq, Eq, Structural)]
pub enum GameStep {
    /// Initialization of the game.
    Initialize,
    /// Handling an event.
    HandleEvent,
    /// Stepping the game.
    StepGame,
    /// Drawing a frame.
    DrawFrame,
    /// Quitting the game.
    Quit,
}

impl GameStep {
    /// The diagnostic message for this step.
    pub open spec fn spec_msg(&self) -> Seq<char> {
        match *self {
            GameStep::Initialize => "failed to initialize the game"@,
            GameStep::HandleEvent => "failed to handle an event"@,
            GameStep::StepGame => "failed to step the game"@,
            GameStep::DrawFrame => "failed to draw a frame"@,
            GameStep::Quit => "failed to quit the game"@,
        }
    }

    /// A diagnostic message naming the step that failed.
    pub fn msg(&self) -> (r: &'static str)
        ensures
            r@ == self.spec_msg(),
    {
        match *self {
            GameStep::Initialize => "failed to initialize the game",
            GameStep::HandleEvent => "failed to handle an event",
            GameStep::StepGame => "failed to step the game",
            GameStep::DrawFrame => "failed to draw a frame",
            GameStep::Quit => "failed to quit the game",
        }
    }
}

/// An error raised by a game's lifecycle callback, tagged with the step of
/// the main loop that invoked the callback.
#[derive(Debug)]
pub struct GameError<E> {
    /// The step which had the error.
    pub step: GameStep,
    /// The error which occurred.
    pub source: E,
}

impl<E> GameError<E> {
    /// Tag a game error with the main-loop step that produced it.
    pub fn new(step: GameStep, source: E) -> (r: GameError<E>)
        ensures
            r.step == step,
            r.source == source,
    {
        GameError { step, source }
    }
}

} // verus!
