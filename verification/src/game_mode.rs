//! The variants of play, each with its own rule for the speed of the balls.

use vstd::prelude::*;

verus! {

/// Variant of play.
#[derive(Debug, Clone, Copy, PartialEq, Eq, Structural)]
pub enum GameMode {
    /// The ball keeps its nominal speed.
    Classic,
    /// The ball gains speed as time passes.
    Accelerating,
    /// The ball speeds up once a rally is long.
    RallyFever,
}

impl GameMode {
    /// The label of the mode.
    pub open spec fn spec_description(self) -> Seq<char> {
        match self {
            GameMode::Classic => "Classic Mode"@,
            GameMode::Accelerating => "Accelerating Ball"@,
            GameMode::RallyFever => "Rally Fever"@,
        }
    }

    /// The mode that follows this one in the cycle Classic, Accelerating, RallyFever.
    pub open spec fn spec_next(self) -> GameMode {
        match self {
            GameMode::Classic => GameMode::Accelerating,
            GameMode::Accelerating => GameMode::RallyFever,
            GameMode::RallyFever => GameMode::Classic,
        }
    }

    /// The label of the mode, for display.
    pub fn description(&self) -> (label: &'static str)
        ensures
            label@ == self.spec_description(),
    {
        match self {
            GameMode::Classic => "Classic Mode",
            GameMode::Accelerating => "Accelerating Ball",
            GameMode::RallyFever => "Rally Fever",
        }
    }

    /// The next mode of the cycle.
    pub fn next(&self) -> (mode: GameMode)
        ensures
            mode == self.spec_next(),
    {
        match self {
            GameMode::Classic => GameMode::Accelerating,
            GameMode::Accelerating => GameMode::RallyFever,
            GameMode::RallyFever => GameMode::Classic,
        }
    }

    /// Cycling three times comes back to the mode one started from, and never earlier.
    pub proof fn lemma_cycle_of_three(self)
        ensures
            self.spec_next() != self,
            self.spec_next().spec_next() != self,
            self.spec_next().spec_next().spec_next() == self,
    {
    }
}

} // verus!
