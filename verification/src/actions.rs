//! The action pipeline: how an input that the rules have let pass changes a
//! game.
//!
//! Movements and district modifiers are staged: they are appended to the
//! game's pending log once the whole log, with the new input at its end, has
//! been replayed without failure on a copy of the game. A turn change replays
//! the log on a copy and puts the copy in the game's place. Every other input
//! changes the game at once. Whatever fails leaves the game as it was.
use vstd::prelude::*;
use vstd::string::*;
use crate::gamestate::{GameModel, GameState, StateError, committed};
use crate::types::{PlayerInput, PlayerInputType};
use crate::invariants::{lemma_applied_wf, lemma_replayed_wf};

verus! {

/// Why a single input could not be applied to a game.
#[derive(Clone, Copy, PartialEq, Eq, Debug, Structural)]
pub enum ActionFault {
    /// A change of role names no role.
    NoRelatedRole,
    /// A movement names no node.
    NoRelatedNode,
    /// A district input carries no modifier.
    NoDistrictModifier,
    /// An edge input carries no change.
    NoEdgeModifier,
    /// A switch of bus mode does not say which way.
    NoRelatedBool,
    /// The wildcard kind is for binding rules, not for players.
    Wildcard,
    /// A turn change is no change of the state by itself.
    TurnChangeIsNoAction,
    /// An undo is no change of the state by itself.
    UndoIsNoAction,
    /// The pending log is empty.
    NothingToUndo,
    /// The movement failed.
    Movement(StateError),
    /// The game refused the change.
    State(StateError),
}

/// Why the pipeline turned an input down.
#[derive(Clone, Copy, PartialEq, Eq, Debug, Structural)]
pub enum ActionError {
    /// The input could not be applied, or could not be staged.
    Refused(ActionFault),
    /// The pending log does not replay: nothing of it was applied.
    ReplayFailed(ActionFault),
}

impl ActionFault {
    /// The reason in words.
    pub open spec fn text(self) -> Seq<char> {
        match self {
            ActionFault::NoRelatedRole => "There was no related role to change to!"@,
            ActionFault::NoRelatedNode => "There was no node related to the movement!"@,
            ActionFault::NoDistrictModifier =>
                "There was no district in the input modifier even though it was marked as a district input"@,
            ActionFault::NoEdgeModifier =>
                "There was no edge modifier in the input even though it was marked as an edge input"@,
            ActionFault::NoRelatedBool => "There was no bool related to the bus toggle!"@,
            ActionFault::Wildcard => "This input type should not be used by players"@,
            ActionFault::TurnChangeIsNoAction =>
                "This is not an action that can be handled by GameController::apply_input!"@,
            ActionFault::UndoIsNoAction => "This cannot be done in GameController::apply_input!"@,
            ActionFault::NothingToUndo => "There is no action to undo!"@,
            ActionFault::Movement(e) => "Failed to move player because: "@ + e.text(),
            ActionFault::State(e) => e.text(),
        }
    }

    /// The reason in words.
    pub fn message(&self) -> (s: String)
        ensures
            s@ == self.text(),
    {
        match self {
            ActionFault::NoRelatedRole => String::from_str(
                "There was no related role to change to!",
            ),
            ActionFault::NoRelatedNode => String::from_str(
                "There was no node related to the movement!",
            ),
            ActionFault::NoDistrictModifier => String::from_str(
                "There was no district in the input modifier even though it was marked as a district input",
            ),
            ActionFault::NoEdgeModifier => String::from_str(
                "There was no edge modifier in the input even though it was marked as an edge input",
            ),
            ActionFault::NoRelatedBool => String::from_str(
                "There was no bool related to the bus toggle!",
            ),
            ActionFault::Wildcard => String::from_str(
                "This input type should not be used by players",
            ),
            ActionFault::TurnChangeIsNoAction => String::from_str(
                "This is not an action that can be handled by GameController::apply_input!",
            ),
            ActionFault::UndoIsNoAction => String::from_str(
                "This cannot be done in GameController::apply_input!",
            ),
            ActionFault::NothingToUndo => String::from_str("There is no action to undo!"),
            ActionFault::Movement(e) => {
                let mut s = String::from_str("Failed to move player because: ");
                s.append(e.message().as_str());
                s
            },
            ActionFault::State(e) => e.message(),
        }
    }
}

impl ActionError {
    /// The reason in words.
    pub open spec fn text(self) -> Seq<char> {
        match self {
            ActionError::Refused(fault) => fault.text(),
            ActionError::ReplayFailed(fault) => fault.text()
                + " No actions are applied to the game."@,
        }
    }

    /// The reason in words.
    pub fn message(&self) -> (s: String)
        ensures
            s@ == self.text(),
    {
        match self {
            ActionError::Refused(fault) => fault.message(),
            ActionError::ReplayFailed(fault) => {
                let mut s = fault.message();
                s.append(" No actions are applied to the game.");
                s
            },
        }
    }
}

/// The outcome of a change of the state as the outcome of an action.
pub open spec fn as_action(outcome: Result<GameModel, StateError>) -> Result<
    GameModel,
    ActionFault,
> {
    match outcome {
        Ok(game) => Ok(game),
        Err(e) => Err(ActionFault::State(e)),
    }
}

/// The outcome of an action as the outcome of the pipeline.
pub open spec fn as_refusal(outcome: Result<GameModel, ActionFault>) -> Result<
    GameModel,
    ActionError,
> {
    match outcome {
        Ok(game) => Ok(game),
        Err(fault) => Err(ActionError::Refused(fault)),
    }
}

/// The outcome of a replay as the outcome of the pipeline.
pub open spec fn as_replay(outcome: Result<GameModel, ActionFault>) -> Result<
    GameModel,
    ActionError,
> {
    match outcome {
        Ok(game) => Ok(game),
        Err(fault) => Err(ActionError::ReplayFailed(fault)),
    }
}

/// The game after a movement input.
pub open spec fn movement_applied(game: GameModel, input: PlayerInput) -> Result<
    GameModel,
    ActionFault,
> {
    match input.related_node_id {
        None => Err(ActionFault::NoRelatedNode),
        Some(to) => match game.moved(input.player_id, to) {
            Ok(after) => Ok(after),
            Err(e) => Err(ActionFault::Movement(e)),
        },
    }
}

/// The game after a change-of-role input.
pub open spec fn role_change_applied(game: GameModel, input: PlayerInput) -> Result<
    GameModel,
    ActionFault,
> {
    match input.related_role {
        None => Err(ActionFault::NoRelatedRole),
        Some(role) => as_action(game.with_role_change(input.player_id, role)),
    }
}

/// The game after a district input.
pub open spec fn district_applied(game: GameModel, input: PlayerInput) -> Result<
    GameModel,
    ActionFault,
> {
    match input.district_modifier {
        None => Err(ActionFault::NoDistrictModifier),
        Some(modifier) => as_action(game.with_modifier(modifier)),
    }
}

/// The game after an edge input.
pub open spec fn edge_applied(game: GameModel, input: PlayerInput) -> Result<
    GameModel,
    ActionFault,
> {
    match input.edge_modifier {
        None => Err(ActionFault::NoEdgeModifier),
        Some(change) => as_action(game.with_edge_restriction(change)),
    }
}

/// The game after a switch of bus mode.
pub open spec fn bus_toggle_applied(game: GameModel, input: PlayerInput) -> Result<
    GameModel,
    ActionFault,
> {
    match input.related_bool {
        None => Err(ActionFault::NoRelatedBool),
        Some(is_bus) => as_action(game.with_bus(input.player_id, is_bus)),
    }
}

/// The game after one input has been applied to it directly.
pub open spec fn applied(game: GameModel, input: PlayerInput) -> Result<GameModel, ActionFault> {
    match input.input_type {
        PlayerInputType::Movement => movement_applied(game, input),
        PlayerInputType::ChangeRole => role_change_applied(game, input),
        PlayerInputType::ModifyDistrict => district_applied(game, input),
        PlayerInputType::ModifyEdgeRestrictions => edge_applied(game, input),
        PlayerInputType::SetPlayerBusBool => bus_toggle_applied(game, input),
        PlayerInputType::StartGame => as_action(game.started()),
        PlayerInputType::LeaveGame => Ok(game.without_player(input.player_id)),
        PlayerInputType::NextTurn => Err(ActionFault::TurnChangeIsNoAction),
        PlayerInputType::UndoAction => Err(ActionFault::UndoIsNoAction),
        PlayerInputType::All => Err(ActionFault::Wildcard),
    }
}

/// The game after the inputs of a log have been applied to it one after
/// another, or the fault of the first input that fails.
pub open spec fn replayed(game: GameModel, log: Seq<PlayerInput>) -> Result<
    GameModel,
    ActionFault,
>
    decreases log.len(),
{
    if log.len() == 0 {
        Ok(game)
    } else {
        match applied(game, log[0]) {
            Err(fault) => Err(fault),
            Ok(next) => replayed(next, log.drop_first()),
        }
    }
}

/// What the game's players are shown: the game with its pending log applied.
pub open spec fn projected(game: GameModel) -> Result<GameModel, ActionFault> {
    replayed(game, game.actions)
}

/// The game after an input has been staged: the input is at the end of the
/// pending log and nothing else has changed. The input is staged only where
/// the pending log followed by the input replays without a fault.
pub open spec fn staged(game: GameModel, input: PlayerInput) -> Result<GameModel, ActionFault> {
    match projected(game) {
        Err(fault) => Err(fault),
        Ok(ahead) => match applied(ahead, input) {
            Err(fault) => Err(fault),
            Ok(_) => Ok(GameModel { actions: game.actions.push(input), ..game }),
        },
    }
}

/// The game after the turn has ended: the pending log has been applied and
/// is empty, and the turn has passed on. Fails where the log does not replay.
pub open spec fn turn_ended(game: GameModel) -> Result<GameModel, ActionError> {
    match projected(game) {
        Err(fault) => Err(ActionError::ReplayFailed(fault)),
        Ok(ahead) => Ok(GameModel { actions: Seq::empty(), ..ahead }.turn_advanced()),
    }
}

/// The game after the last staged input has been taken back.
pub open spec fn undone(game: GameModel) -> Result<GameModel, ActionError> {
    if game.actions.len() == 0 {
        Err(ActionError::Refused(ActionFault::NothingToUndo))
    } else {
        Ok(GameModel { actions: game.actions.drop_last(), ..game })
    }
}

/// The game after the pipeline has handled an input.
pub open spec fn handled(game: GameModel, input: PlayerInput) -> Result<GameModel, ActionError> {
    match input.input_type {
        PlayerInputType::NextTurn => turn_ended(game),
        PlayerInputType::UndoAction => undone(game),
        PlayerInputType::Movement | PlayerInputType::ModifyDistrict | PlayerInputType::All =>
            as_refusal(staged(game, input)),
        _ => as_refusal(applied(game, input)),
    }
}

/// Gives a player the role that the input names.
pub fn change_role_player(input: PlayerInput, game: &mut GameState) -> (done: Result<
    (),
    ActionFault,
>)
    ensures
        committed(role_change_applied(old(game)@, input), old(game)@, final(game)@, done),
{
    let related_role = match input.related_role {
        Some(role) => role,
        None => {
            return Err(ActionFault::NoRelatedRole);
        },
    };
    match game.assign_player_role(input.player_id, related_role) {
        Ok(()) => Ok(()),
        Err(e) => Err(ActionFault::State(e)),
    }
}

/// Moves the sender to the node that the input names.
pub fn handle_movement(input: PlayerInput, game: &mut GameState) -> (done: Result<
    (),
    ActionFault,
>)
    ensures
        committed(movement_applied(old(game)@, input), old(game)@, final(game)@, done),
{
    let related_node_id = match input.related_node_id {
        Some(id) => id,
        None => {
            return Err(ActionFault::NoRelatedNode);
        },
    };
    match game.move_player_with_id(input.player_id, related_node_id) {
        Ok(()) => Ok(()),
        Err(e) => Err(ActionFault::Movement(e)),
    }
}

/// Lays or lifts the district modifier that the input carries.
pub fn handle_district_restriction(input: PlayerInput, game: &mut GameState) -> (done: Result<
    (),
    ActionFault,
>)
    ensures
        committed(district_applied(old(game)@, input), old(game)@, final(game)@, done),
{
    let district_modifier = match input.district_modifier {
        Some(m) => m,
        None => {
            return Err(ActionFault::NoDistrictModifier);
        },
    };
    match game.apply_district_modifier(district_modifier) {
        Ok(()) => Ok(()),
        Err(e) => Err(ActionFault::State(e)),
    }
}

/// Sets or clears the edge restriction that the input carries.
pub fn handle_edge_restriction(input: PlayerInput, game: &mut GameState) -> (done: Result<
    (),
    ActionFault,
>)
    ensures
        committed(edge_applied(old(game)@, input), old(game)@, final(game)@, done),
{
    let change = match input.edge_modifier {
        Some(c) => c,
        None => {
            return Err(ActionFault::NoEdgeModifier);
        },
    };
    match game.apply_edge_restriction(change) {
        Ok(()) => Ok(()),
        Err(e) => Err(ActionFault::State(e)),
    }
}

/// Switches the sender's bus mode as the input says.
pub fn handle_bus_toggle(input: PlayerInput, game: &mut GameState) -> (done: Result<
    (),
    ActionFault,
>)
    ensures
        committed(bus_toggle_applied(old(game)@, input), old(game)@, final(game)@, done),
{
    let is_bus = match input.related_bool {
        Some(b) => b,
        None => {
            return Err(ActionFault::NoRelatedBool);
        },
    };
    match game.set_player_bus(input.player_id, is_bus) {
        Ok(()) => Ok(()),
        Err(e) => Err(ActionFault::State(e)),
    }
}

/// Applies one input to a game directly. Fails, and changes nothing, where
/// the input lacks what its kind needs, the game refuses the change, or
/// the kind is no change of the state by itself.
pub fn apply_input(input: PlayerInput, game: &mut GameState) -> (done: Result<(), ActionFault>)
    ensures
        committed(applied(old(game)@, input), old(game)@, final(game)@, done),
        old(game)@.wf() ==> final(game)@.wf(),
{
    proof {
        if game@.wf() {
            lemma_applied_wf(game@, input);
        }
    }
    match input.input_type {
        PlayerInputType::Movement => handle_movement(input, game),
        PlayerInputType::ChangeRole => change_role_player(input, game),
        PlayerInputType::All => Err(ActionFault::Wildcard),
        PlayerInputType::NextTurn => Err(ActionFault::TurnChangeIsNoAction),
        PlayerInputType::UndoAction => Err(ActionFault::UndoIsNoAction),
        PlayerInputType::ModifyDistrict => handle_district_restriction(input, game),
        PlayerInputType::ModifyEdgeRestrictions => handle_edge_restriction(input, game),
        PlayerInputType::SetPlayerBusBool => handle_bus_toggle(input, game),
        PlayerInputType::StartGame => match game.start() {
            Ok(()) => Ok(()),
            Err(e) => Err(ActionFault::State(e)),
        },
        PlayerInputType::LeaveGame => {
            game.remove_player_with_id(input.player_id);
            Ok(())
        },
    }
}

/// Applies the game's pending log to the game, input by input. Where an
/// input fails, nothing of the log is applied.
pub fn replay_pending(game: &mut GameState) -> (done: Result<(), ActionFault>)
    ensures
        committed(projected(old(game)@), old(game)@, final(game)@, done),
        old(game)@.wf() ==> final(game)@.wf(),
{
    proof {
        if game@.wf() {
            lemma_replayed_wf(game@, game@.actions);
        }
    }
    let mut scratch = game.clone();
    let mut i: usize = 0;
    assert(game@.actions.skip(0) =~= game@.actions);
    while i < game.actions.len()
        invariant
            i <= game.actions.len(),
            *game == *old(game),
            projected(game@) == replayed(scratch@, game@.actions.skip(i as int)),
        decreases game.actions.len() - i,
    {
        let action = game.actions[i];
        let ghost rest = game@.actions.skip(i as int);
        assert(rest[0] == action);
        assert(rest.drop_first() =~= game@.actions.skip(i as int + 1));
        match apply_input(action, &mut scratch) {
            Ok(()) => {},
            Err(fault) => {
                return Err(fault);
            },
        }
        i += 1;
    }
    *game = scratch;
    Ok(())
}

/// Applies the game's pending log to the game. Where an input of the log
/// fails, nothing of the log is applied.
pub fn apply_game_actions(game: &mut GameState) -> (done: Result<(), ActionError>)
    ensures
        committed(as_replay(projected(old(game)@)), old(game)@, final(game)@, done),
        old(game)@.wf() ==> final(game)@.wf(),
{
    match replay_pending(game) {
        Ok(()) => Ok(()),
        Err(fault) => Err(ActionError::ReplayFailed(fault)),
    }
}

/// What a snapshot shows, as plain mathematical values.
pub open spec fn snapshot_model(outcome: Result<GameState, ActionFault>) -> Result<
    GameModel,
    ActionFault,
> {
    match outcome {
        Ok(game) => Ok(game@),
        Err(fault) => Err(fault),
    }
}

/// A speculative snapshot of a game: a copy of it with the pending log
/// applied. The game itself is left as it is. Fails, with the fault of the
/// first input that fails, where the log does not replay.
pub fn speculative_snapshot(game: &GameState) -> (snapshot: Result<GameState, ActionFault>)
    ensures
        snapshot_model(snapshot) == projected(game@),
        game@.wf() ==> (snapshot matches Ok(ahead) ==> ahead@.wf()),
{
    let mut game_clone = game.clone();
    match replay_pending(&mut game_clone) {
        Ok(()) => Ok(game_clone),
        Err(fault) => Err(fault),
    }
}

/// Ends the turn: the pending log is applied to a copy of the game, the copy
/// takes the game's place, the log is emptied and the turn passes on. Where
/// the log does not replay, the game and its log stay as they were.
pub fn game_next_turn(game: &mut GameState) -> (done: Result<(), ActionError>)
    ensures
        committed(turn_ended(old(game)@), old(game)@, final(game)@, done),
        old(game)@.wf() ==> final(game)@.wf(),
{
    let mut game_clone = game.clone();
    match apply_game_actions(&mut game_clone) {
        Ok(()) => (),
        Err(e) => {
            return Err(e);
        },
    }
    *game = game_clone;
    game.actions.clear();
    game.next_player_turn();
    Ok(())
}

/// Stages an input: it is appended to the pending log where the log followed
/// by the input replays without a fault on a copy of the game. The game
/// itself changes in nothing but its log.
pub fn add_action(input: PlayerInput, game: &mut GameState) -> (done: Result<(), ActionFault>)
    ensures
        committed(staged(old(game)@, input), old(game)@, final(game)@, done),
        old(game)@.wf() ==> final(game)@.wf(),
{
    let mut game_clone = game.clone();
    match replay_pending(&mut game_clone) {
        Ok(()) => (),
        Err(fault) => {
            return Err(fault);
        },
    }
    match apply_input(input, &mut game_clone) {
        Ok(()) => {
            game.actions.push(input);
        },
        Err(fault) => {
            return Err(fault);
        },
    }
    Ok(())
}

/// Handles an input that the rules have let pass. A turn change commits the
/// pending log, an undo drops its last entry, movements and district
/// modifiers are staged, and every other kind changes the game at once.
/// Whatever fails leaves the game as it was.
pub fn handle_input(input: PlayerInput, game: &mut GameState) -> (done: Result<(), ActionError>)
    ensures
        committed(handled(old(game)@, input), old(game)@, final(game)@, done),
        old(game)@.wf() ==> final(game)@.wf(),
{
    match input.input_type {
        PlayerInputType::NextTurn => game_next_turn(game),
        PlayerInputType::UndoAction => match game.actions.pop() {
            Some(_) => Ok(()),
            None => Err(ActionError::Refused(ActionFault::NothingToUndo)),
        },
        PlayerInputType::Movement | PlayerInputType::ModifyDistrict | PlayerInputType::All => {
            match add_action(input, game) {
                Ok(()) => Ok(()),
                Err(fault) => Err(ActionError::Refused(fault)),
            }
        },
        _ => match apply_input(input, game) {
            Ok(()) => Ok(()),
            Err(fault) => Err(ActionError::Refused(fault)),
        },
    }
}

} // verus!
