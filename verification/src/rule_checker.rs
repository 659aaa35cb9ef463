//! The capability by which a controller has inputs judged.
use vstd::prelude::*;
use crate::gamestate::{GameModel, GameState};
use crate::types::PlayerInput;
use crate::violation::Rejection;

verus! {

/// Decides whether an input is legal in a game. The decision depends on the
/// game and the input alone.
pub trait RuleChecker {
    /// The decision: `None` where the input is legal, else the refusal.
    /// This is the model that `is_input_valid` is held to; it is never run.
    spec fn verdict(&self, game: GameModel, input: PlayerInput) -> Option<Rejection>;

    /// Judges an input against a game, which it leaves untouched.
    fn is_input_valid(&self, game: &GameState, player_input: &PlayerInput) -> (refusal: Option<
        Rejection,
    >)
        ensures
            refusal == self.verdict(game@, *player_input),
    ;
}

} // verus!
