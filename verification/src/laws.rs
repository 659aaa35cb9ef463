//! Laws of the library: what holds of every game, every log and every rule
//! set, proved from the definitions that the contracts use.
use vstd::prelude::*;
use vstd::assert_by_contradiction;
use crate::search::{
    any_match, first_index, first_match, is_first, lemma_any_match, lemma_first_index,
    lemma_first_index_absent, lemma_first_index_found,
};
use crate::sequences::{all_hold, lemma_filter_all_kept, lemma_filter_embeds};
use crate::types::{
    DistrictModifierType, GameID, InGameID, NeighbourRelationship, NodeID, Player, PlayerID,
    PlayerInput, PlayerInputType, RestrictionType, MAX_PLAYER_COUNT,
};
use crate::node_map::{MapModel, leading_to, park_and_ride_to};
use crate::gamestate::{GameModel, GameState, committed, refresh_role, with_unique_id};
use crate::violation::{Rejection, RuleKind, ValidationResponse, Violation};
use crate::rule_checker::RuleChecker;
use crate::game_rule_checker::{
    RuleModel, binds, enough_moves_verdict, enter_district_verdict, first_rejection,
    governs_district, move_to_node_verdict, refusing, rule_verdict, standard_rules,
};
use crate::actions::{
    ActionError, ActionFault, applied, as_action, handled, projected, replayed, snapshot_model,
    staged, turn_ended, undone,
};
use crate::game_controller::{
    ControllerModel, GameError, fresh_at, issued_as, occupied, outlasting, stale_as, sweeping,
};
use crate::invariants::{
    checked_in_as, moves_not_negative, role_of, lemma_fresh_wf, lemma_handled_wf, lemma_joined_wf,
    lemma_replayed_wf, lemma_started_wf, lemma_without_player_wf,
};

verus! {

// ---------------------------------------------------------------------
// Replay
// ---------------------------------------------------------------------

/// A game with another pending log.
pub open spec fn relogged(game: GameModel, log: Seq<PlayerInput>) -> GameModel {
    GameModel { actions: log, ..game }
}

/// An outcome with another pending log on the game it holds.
pub open spec fn relogged_outcome<E>(outcome: Result<GameModel, E>, log: Seq<PlayerInput>) -> Result<
    GameModel,
    E,
> {
    match outcome {
        Ok(game) => Ok(relogged(game, log)),
        Err(e) => Err(e),
    }
}

/// Replay is deterministic: the same log replayed on the same base state
/// gives the same outcome, state for state and fault for fault. So two
/// snapshots of games that hold the same values are snapshots that hold the
/// same values, however the games came to be and wherever they are stored.
pub proof fn law_replay_is_deterministic(
    first: GameState,
    second: GameState,
    first_snapshot: Result<GameState, ActionFault>,
    second_snapshot: Result<GameState, ActionFault>,
)
    requires
        first@ == second@,
        snapshot_model(first_snapshot) == projected(first@),
        snapshot_model(second_snapshot) == projected(second@),
    ensures
        replayed(first@, first@.actions) == replayed(second@, second@.actions),
        snapshot_model(first_snapshot) == snapshot_model(second_snapshot),
{
}

/// What an input does to a game does not depend on the game's pending log,
/// and leaves that log alone.
pub proof fn law_applying_ignores_the_pending_log(
    game: GameModel,
    log: Seq<PlayerInput>,
    input: PlayerInput,
)
    ensures
        applied(relogged(game, log), input) == relogged_outcome(applied(game, input), log),
{
}

/// What a replay does to a game does not depend on the game's own pending
/// log, and leaves that log alone.
pub proof fn law_replay_ignores_the_pending_log(
    game: GameModel,
    log: Seq<PlayerInput>,
    replay: Seq<PlayerInput>,
)
    ensures
        replayed(relogged(game, log), replay) == relogged_outcome(replayed(game, replay), log),
    decreases replay.len(),
{
    if replay.len() > 0 {
        law_applying_ignores_the_pending_log(game, log, replay[0]);
        if let Ok(next) = applied(game, replay[0]) {
            law_replay_ignores_the_pending_log(next, log, replay.drop_first());
        }
    }
}

/// Replaying a log with one more input at its end is replaying the log and
/// then applying the input.
pub proof fn law_replay_of_a_longer_log(game: GameModel, log: Seq<PlayerInput>, input: PlayerInput)
    ensures
        replayed(game, log.push(input)) == match replayed(game, log) {
            Ok(ahead) => applied(ahead, input),
            Err(fault) => Err(fault),
        },
    decreases log.len(),
{
    let longer = log.push(input);
    if log.len() == 0 {
        assert(longer[0] == input);
        assert(longer.drop_first() =~= Seq::<PlayerInput>::empty());
        if let Ok(next) = applied(game, input) {
            assert(replayed(next, longer.drop_first()) == Ok::<GameModel, ActionFault>(next));
        }
    } else {
        assert(longer[0] == log[0]);
        assert(longer.drop_first() =~= log.drop_first().push(input));
        if let Ok(next) = applied(game, log[0]) {
            law_replay_of_a_longer_log(next, log.drop_first(), input);
        }
    }
}

/// Where a log replays, each of its beginnings replays.
pub proof fn law_every_beginning_of_a_log_replays(
    game: GameModel,
    log: Seq<PlayerInput>,
    length: int,
)
    requires
        0 <= length <= log.len(),
        replayed(game, log) is Ok,
    ensures
        replayed(game, log.take(length)) is Ok,
    decreases log.len(),
{
    if length > 0 {
        let next = applied(game, log[0])->Ok_0;
        assert(log.take(length)[0] == log[0]);
        assert(log.take(length).drop_first() =~= log.drop_first().take(length - 1));
        law_every_beginning_of_a_log_replays(next, log.drop_first(), length - 1);
    } else {
        assert(log.take(0).len() == 0);
    }
}

/// Staging keeps the pending log consistent: after an input has been
/// staged, the pending log replays on the game without a fault.
pub proof fn law_a_staged_log_replays(game: GameModel, input: PlayerInput)
    ensures
        staged(game, input) matches Ok(after) ==> projected(after) is Ok && after == relogged(
            game,
            game.actions.push(input),
        ),
{
    if let Ok(after) = staged(game, input) {
        let longer = game.actions.push(input);
        law_replay_of_a_longer_log(game, game.actions, input);
        law_replay_ignores_the_pending_log(game, longer, longer);
    }
}

/// An undo takes back what staging has done: after an input has been
/// staged, an undo gives the game as it was before.
pub proof fn law_an_undo_takes_back_the_staged_input(game: GameModel, input: PlayerInput)
    ensures
        staged(game, input) matches Ok(after) ==> undone(after) == Ok::<GameModel, ActionError>(
            game,
        ),
{
    if let Ok(after) = staged(game, input) {
        assert(game.actions.push(input).drop_last() =~= game.actions);
    }
}

// ---------------------------------------------------------------------
// Turn change
// ---------------------------------------------------------------------

/// A turn change commits all or nothing. Whatever the pipeline leaves
/// behind after a turn change is one of two things. Either the input has
/// succeeded: then the pending log replays, and the game is the replayed
/// game with an empty log and the turn passed on, so that every staged
/// input is reflected in it. Or the input has failed with the fault of the
/// replay: then the game and its log are what they were.
pub proof fn law_turn_change_is_atomic(
    game: GameModel,
    input: PlayerInput,
    after: GameModel,
    done: Result<(), ActionError>,
)
    requires
        input.input_type == PlayerInputType::NextTurn,
        committed(handled(game, input), game, after, done),
    ensures
        match done {
            Ok(()) => projected(game) matches Ok(ahead) && after == relogged(
                ahead,
                Seq::empty(),
            ).turn_advanced() && after.actions.len() == 0 && after.current_players_turn
                == ahead.next_turn_role() && after.district_modifiers == ahead.district_modifiers
                && after.map == ahead.map && after.players == ahead.players.map_values(
                refresh_role(ahead.next_turn_role()),
            ),
            Err(e) => after == game && (projected(game) matches Err(fault) && e
                == ActionError::ReplayFailed(fault)),
        },
{
    if let Ok(ahead) = projected(game) {
        lemma_seek_ignores_the_pending_log(
            ahead,
            Seq::empty(),
            ahead.current_players_turn.successor(),
            7,
        );
    }
}

/// The turn passes to the role that follows in the rotation wherever a
/// player holds that role; roles that nobody holds are passed over.
pub proof fn law_the_turn_passes_to_the_next_role_that_is_held(game: GameModel)
    ensures
        game.role_taken(game.current_players_turn.successor()) ==> game.next_turn_role()
            == game.current_players_turn.successor(),
        !game.role_taken(game.current_players_turn.successor()) ==> game.next_turn_role()
            == game.seek_turn(game.current_players_turn.successor().successor(), 6),
{
    reveal_with_fuel(GameModel::seek_turn, 2);
}

/// A turn change through the controller commits all or nothing. Where the
/// sender is registered, the game exists and the rule engine lets the turn
/// change pass, there are two outcomes and no third. Either the stored game
/// is the one with the pending log applied and emptied and the turn passed
/// on, and that very game is returned. Or the pipeline's refusal is
/// returned, and the controller is as the purge left it.
pub proof fn law_a_turn_change_through_the_controller_is_atomic<R: RuleChecker>(
    controller: ControllerModel,
    checker: R,
    input: PlayerInput,
    now: u64,
    i: int,
)
    requires
        input.input_type == PlayerInputType::NextTurn,
        controller.purged(now).is_registered(input.player_id),
        controller.purged(now).game_index(input.game_id) == Some(i),
        checker.verdict(controller.purged(now).games[i], input) is None,
    ensures
        match turn_ended(controller.purged(now).games[i]) {
            Ok(game) => controller.input_handled(checker, input, now) == (
                controller.purged(now).with_game_at(i, game),
                Ok::<GameModel, GameError>(game),
            ) && game.actions.len() == 0,
            Err(e) => controller.input_handled(checker, input, now) == (
                controller.purged(now),
                Err::<GameModel, GameError>(GameError::Action(e)),
            ),
        },
{
}

/// Whose turn comes next does not depend on the pending log.
pub proof fn lemma_seek_ignores_the_pending_log(
    game: GameModel,
    log: Seq<PlayerInput>,
    candidate: InGameID,
    budget: nat,
)
    ensures
        relogged(game, log).seek_turn(candidate, budget) == game.seek_turn(candidate, budget),
    decreases budget,
{
    if budget > 0 {
        lemma_seek_ignores_the_pending_log(game, log, candidate.successor(), (budget - 1) as nat);
    }
}

// ---------------------------------------------------------------------
// Invariants of a game
// ---------------------------------------------------------------------

/// A game that has just been created is well-formed.
pub proof fn law_a_new_game_is_well_formed(id: GameID, name: Seq<char>, map: MapModel)
    ensures
        GameModel::fresh(id, name, map).wf(),
{
    lemma_fresh_wf(GameModel::fresh(id, name, map));
}

/// Everything that can be done to a game keeps it well-formed: a player
/// entering or leaving, a start, any input that the pipeline handles, and
/// the replay of the pending log for display.
pub proof fn law_a_game_stays_well_formed(game: GameModel, player: Player, input: PlayerInput)
    requires
        game.wf(),
    ensures
        game.joined(player) matches Ok(after) ==> after.wf(),
        game.without_player(player.unique_id).wf(),
        game.started() matches Ok(after) ==> after.wf(),
        handled(game, input) matches Ok(after) ==> after.wf(),
        projected(game) matches Ok(after) ==> after.wf(),
{
    lemma_joined_wf(game, player);
    lemma_without_player_wf(game, player.unique_id);
    lemma_started_wf(game);
    lemma_handled_wf(game, input);
    lemma_replayed_wf(game, game.actions);
}

/// A well-formed game has at most `MAX_PLAYER_COUNT` players: there are no
/// more roles than that, and no two players share one.
pub proof fn law_a_game_holds_no_more_players_than_roles(game: GameModel)
    requires
        game.wf(),
    ensures
        game.players.len() <= MAX_PLAYER_COUNT,
{
    assert_by_contradiction!(game.players.len() <= 7, {
        let players = game.players;
        let r0 = role_of()(players[0]);
        let r1 = role_of()(players[1]);
        let r2 = role_of()(players[2]);
        let r3 = role_of()(players[3]);
        let r4 = role_of()(players[4]);
        let r5 = role_of()(players[5]);
        let r6 = role_of()(players[6]);
        let r7 = role_of()(players[7]);
        assert(0 <= r0.rank() < 7 && 0 <= r1.rank() < 7 && 0 <= r2.rank() < 7 && 0 <= r3.rank() < 7
            && 0 <= r4.rank() < 7 && 0 <= r5.rank() < 7 && 0 <= r6.rank() < 7 && 0 <= r7.rank()
            < 7);
    });
}

/// No player's remaining moves ever go below zero: in a well-formed game,
/// whatever the pipeline does with an input, and whatever the replay of the
/// pending log shows, every player's remaining moves are zero or more.
pub proof fn law_moves_are_never_negative(game: GameModel, input: PlayerInput, i: int)
    requires
        game.wf(),
    ensures
        0 <= i < game.players.len() ==> game.players[i].remaining_moves >= 0,
        handled(game, input) matches Ok(after) ==> (0 <= i < after.players.len()
            ==> after.players[i].remaining_moves >= 0),
        projected(game) matches Ok(ahead) ==> (0 <= i < ahead.players.len()
            ==> ahead.players[i].remaining_moves >= 0),
{
    lemma_handled_wf(game, input);
    lemma_replayed_wf(game, game.actions);
    if 0 <= i < game.players.len() {
        assert(moves_not_negative()(game.players[i]));
    }
    if let Ok(after) = handled(game, input) {
        if 0 <= i < after.players.len() {
            assert(moves_not_negative()(after.players[i]));
        }
    }
    if let Ok(ahead) = projected(game) {
        if 0 <= i < ahead.players.len() {
            assert(moves_not_negative()(ahead.players[i]));
        }
    }
}

/// A movement that the standard rules let pass can be paid for: the move
/// succeeds on the game as it is, and leaves the mover with zero or more
/// moves. A movement that would not is refused by the rules, before
/// anything is changed.
pub proof fn law_an_accepted_movement_can_be_paid(game: GameModel, input: PlayerInput)
    requires
        input.input_type == PlayerInputType::Movement,
        first_rejection(standard_rules(), game, input) is None,
    ensures
        input.related_node_id matches Some(to) && game.moved(input.player_id, to) matches Ok(after)
            && after.player(input.player_id) matches Some(mover) && mover.remaining_moves >= 0,
{
    let rules = standard_rules();
    let rule = rules[6];
    assert(rule.kind == RuleKind::EnoughMoves);
    assert(rule.related_inputs[0] == PlayerInputType::Movement);
    lemma_any_match(rule.related_inputs, binds(PlayerInputType::Movement), 0);
    lemma_first_index(rules, refusing(game, input));
    assert(!refusing(game, input)(rules[6]));
    assert(rule_verdict(RuleKind::EnoughMoves, game, input) == enough_moves_verdict(game, input));
    assert(enough_moves_verdict(game, input) == ValidationResponse::Valid);
}

/// No kind of district modifier ever exceeds its cap: in a well-formed
/// game, whatever the pipeline does with an input, and whatever the replay
/// of the pending log shows, the game holds at most `kind.cap()` modifiers
/// of each kind.
pub proof fn law_modifiers_never_exceed_their_cap(
    game: GameModel,
    input: PlayerInput,
    kind: DistrictModifierType,
)
    requires
        game.wf(),
    ensures
        game.modifier_count(kind) <= kind.cap(),
        handled(game, input) matches Ok(after) ==> after.modifier_count(kind) <= kind.cap(),
        projected(game) matches Ok(ahead) ==> ahead.modifier_count(kind) <= kind.cap(),
{
    lemma_handled_wf(game, input);
    lemma_replayed_wf(game, game.actions);
}

// ---------------------------------------------------------------------
// The purge
// ---------------------------------------------------------------------

/// The purge leaves nothing stale behind: after it, every registered
/// identity has checked in less than `PLAYER_TIMEOUT` ago, every game has a
/// player, and no game holds a player whose identity expired.
pub proof fn law_the_purge_leaves_nothing_stale(controller: ControllerModel, now: u64)
    ensures
        all_hold(controller.purged(now).unique_ids, fresh_at(now)),
        all_hold(controller.purged(now).games, occupied()),
        forall|k: int|
            0 <= k < controller.purged(now).games.len() ==> all_hold(
                (#[trigger] controller.purged(now).games[k]).players,
                outlasting(controller.unique_ids, now),
            ),
{
    let ids = controller.unique_ids;
    let mapped = controller.games.map_values(sweeping(ids, now));
    let kept = controller.purged(now).games;
    lemma_filter_all_kept(ids, fresh_at(now));
    lemma_filter_all_kept(mapped, occupied());
    let at = lemma_filter_embeds(mapped, occupied());
    assert forall|k: int| 0 <= k < kept.len() implies all_hold(
        (#[trigger] kept[k]).players,
        outlasting(ids, now),
    ) by {
        assert(kept[k] == mapped[at(k)]);
        lemma_filter_all_kept(controller.games[at(k)].players, outlasting(ids, now));
    }
}

/// An input that is turned down leaves the controller as the purge left
/// it: with fresh identities only, without their players, and without empty
/// games. The one failure that comes after a change is `SnapshotFailed`.
pub proof fn law_a_refused_input_leaves_the_purged_controller<R: RuleChecker>(
    controller: ControllerModel,
    checker: R,
    input: PlayerInput,
    now: u64,
)
    ensures
        match controller.input_handled(checker, input, now).1 {
            Ok(_) => true,
            Err(GameError::SnapshotFailed(_)) => true,
            Err(_) => controller.input_handled(checker, input, now).0 == controller.purged(now),
        },
{
}

/// An identity that the purge has dropped is no longer registered, provided
/// that it was registered only once: a sender with such an identity is
/// unknown to every entry point that purges first.
pub proof fn law_an_expired_identity_is_unknown(
    controller: ControllerModel,
    id: PlayerID,
    now: u64,
)
    requires
        controller.wf(),
        any_match(controller.unique_ids, stale_as(id, now)),
    ensures
        !controller.purged(now).is_registered(id),
{
    let ids = controller.unique_ids;
    let kept = ids.filter(fresh_at(now));
    lemma_first_index(ids, stale_as(id, now));
    let stale = first_index(ids, stale_as(id, now))->Some_0;
    lemma_filter_all_kept(ids, fresh_at(now));
    let at = lemma_filter_embeds(ids, fresh_at(now));
    assert forall|k: int| 0 <= k < kept.len() implies !issued_as(id)(#[trigger] kept[k]) by {
        assert(kept[k] == ids[at(k)]);
        assert(fresh_at(now)(kept[k]));
        if at(k) != stale {
            if at(k) < stale {
                assert(checked_in_as()(ids[at(k)]) != checked_in_as()(ids[stale]));
            } else {
                assert(checked_in_as()(ids[stale]) != checked_in_as()(ids[at(k)]));
            }
        }
    }
    lemma_first_index_absent(kept, issued_as(id));
}

// ---------------------------------------------------------------------
// Rule engine
// ---------------------------------------------------------------------

/// A bus is turned away from a road, and let onto it once it is no bus.
/// The mover stands on `from`, and the first edge from there to `to`
/// carries no restriction; neither node is a rail node; no park-and-ride
/// edge leads from `from` to `to`; edges leave `to`, and the first of them
/// that leads back is no one-way street; and the district that the edge
/// leads into has no access modifier. Then the move is refused while the
/// mover drives a bus, for want of a park-and-ride edge, and is legal for
/// the same mover with bus mode switched off, with or without an objective
/// card.
pub proof fn law_a_road_opens_once_bus_mode_is_off(
    game: GameModel,
    input: PlayerInput,
    mover: Player,
    from: NodeID,
    to: NodeID,
    neighbours: Seq<NeighbourRelationship>,
    back: Seq<NeighbourRelationship>,
    edge: NeighbourRelationship,
)
    requires
        game.player(input.player_id) == Some(mover),
        mover.position_node_id == Some(from),
        input.related_node_id == Some(to),
        game.map.neighbours(from) == Some(neighbours),
        game.map.neighbours(to) == Some(back),
        game.map.node(from) matches Some(current) && !current.is_connected_to_rail,
        game.map.node(to) matches Some(target) && !target.is_connected_to_rail,
        first_match(neighbours, leading_to(to)) == Some(edge),
        edge.restriction is None,
        !any_match(neighbours, park_and_ride_to(to)),
        !(first_match(back, leading_to(from)) matches Some(street) && street.restriction == Some(
            RestrictionType::OneWay,
        )),
        !any_match(game.district_modifiers, governs_district(edge.neighbourhood)),
    ensures
        mover.is_bus ==> move_to_node_verdict(game, input) == ValidationResponse::Invalid(
            Violation::NotParkAndRideNeighbour(to),
        ),
        !mover.is_bus ==> move_to_node_verdict(game, input) == ValidationResponse::Valid,
        game.with_bus(input.player_id, false) matches Ok(after) && move_to_node_verdict(
            after,
            input,
        ) == ValidationResponse::Valid,
{
    let id = input.player_id;
    lemma_first_index(game.players, with_unique_id(id));
    let i = game.player_index(id)->Some_0;
    let after = game.with_bus(id, false)->Ok_0;
    let walker = Player { is_bus: false, ..mover };
    assert(after.players == game.players.update(i, walker));
    assert(is_first(after.players, with_unique_id(id), i)) by {
        assert forall|j: int| 0 <= j < i implies !with_unique_id(id)(
            #[trigger] after.players[j],
        ) by {
            assert(after.players[j] == game.players[j]);
        }
    }
    lemma_first_index_found(after.players, with_unique_id(id), i);
    assert(after.player(id) == Some(walker));
    assert(enter_district_verdict(after, input) == ValidationResponse::Valid);
    if !mover.is_bus {
        assert(enter_district_verdict(game, input) == ValidationResponse::Valid);
    }
}

/// Replacing a player by one of the same identity moves nobody: every
/// identity is found at the place where it was found before.
pub proof fn lemma_places_stay_when_a_player_is_replaced(
    players: Seq<Player>,
    i: int,
    player: Player,
    id: PlayerID,
)
    requires
        0 <= i < players.len(),
        player.unique_id == players[i].unique_id,
    ensures
        first_index(players.update(i, player), with_unique_id(id)) == first_index(
            players,
            with_unique_id(id),
        ),
{
    let after = players.update(i, player);
    lemma_first_index(players, with_unique_id(id));
    match first_index(players, with_unique_id(id)) {
        Some(k) => {
            assert(is_first(after, with_unique_id(id), k)) by {
                assert forall|j: int| 0 <= j < k implies !with_unique_id(id)(
                    #[trigger] after[j],
                ) by {
                    assert(!with_unique_id(id)(players[j]));
                }
            }
            lemma_first_index_found(after, with_unique_id(id), k);
        },
        None => {
            assert forall|j: int| 0 <= j < after.len() implies !with_unique_id(id)(
                #[trigger] after[j],
            ) by {
                assert(!with_unique_id(id)(players[j]));
            }
            lemma_first_index_absent(after, with_unique_id(id));
        },
    }
}

/// Inputs of the kinds that are staged.
pub open spec fn is_staged_kind(input: PlayerInput) -> bool {
    input.input_type == PlayerInputType::Movement || input.input_type
        == PlayerInputType::ModifyDistrict
}

/// A switch of bus mode and an input of a staged kind can be made in either
/// order: the input fails with the switch made exactly where it fails
/// without, and where it succeeds the two orders give the same game.
pub proof fn lemma_a_bus_switch_commutes_with_a_staged_input(
    game: GameModel,
    id: PlayerID,
    is_bus: bool,
    input: PlayerInput,
)
    requires
        game.contains_player(id),
        is_staged_kind(input),
    ensures
        game.with_bus(id, is_bus) matches Ok(switched) && applied(switched, input) == (match applied(
            game,
            input,
        ) {
            Ok(after) => as_action(after.with_bus(id, is_bus)),
            Err(fault) => Err(fault),
        }),
        applied(game, input) matches Ok(after) ==> after.contains_player(id),
{
    lemma_first_index(game.players, with_unique_id(id));
    let i = game.player_index(id)->Some_0;
    let switched = game.with_bus(id, is_bus)->Ok_0;
    let driver = Player { is_bus, ..game.players[i] };
    assert(switched.players == game.players.update(i, driver));
    lemma_places_stay_when_a_player_is_replaced(game.players, i, driver, input.player_id);
    if input.input_type == PlayerInputType::Movement {
        if let Some(to) = input.related_node_id {
            if let Ok(after) = game.moved(input.player_id, to) {
                let j = game.player_index(input.player_id)->Some_0;
                lemma_first_index(game.players, with_unique_id(input.player_id));
                lemma_places_stay_when_a_player_is_replaced(game.players, j, after.players[j], id);
                let both = after.with_bus(id, is_bus)->Ok_0;
                let other = switched.moved(input.player_id, to)->Ok_0;
                assert(both.players =~= other.players);
            }
        }
    }
}

/// A switch of bus mode and the replay of a log of staged inputs can be made
/// in either order.
pub proof fn lemma_a_bus_switch_commutes_with_a_staged_log(
    game: GameModel,
    id: PlayerID,
    is_bus: bool,
    log: Seq<PlayerInput>,
)
    requires
        game.contains_player(id),
        forall|k: int| 0 <= k < log.len() ==> is_staged_kind(#[trigger] log[k]),
    ensures
        game.with_bus(id, is_bus) matches Ok(switched) && replayed(switched, log) == (
        match replayed(game, log) {
            Ok(ahead) => as_action(ahead.with_bus(id, is_bus)),
            Err(fault) => Err(fault),
        }),
        replayed(game, log) matches Ok(ahead) ==> ahead.contains_player(id),
    decreases log.len(),
{
    lemma_first_index(game.players, with_unique_id(id));
    if log.len() > 0 {
        lemma_a_bus_switch_commutes_with_a_staged_input(game, id, is_bus, log[0]);
        if let Ok(next) = applied(game, log[0]) {
            assert forall|k: int| 0 <= k < log.drop_first().len() implies is_staged_kind(
                #[trigger] log.drop_first()[k],
            ) by {
                assert(log.drop_first()[k] == log[k + 1]);
            }
            lemma_a_bus_switch_commutes_with_a_staged_log(next, id, is_bus, log.drop_first());
        }
    }
}

/// A switch of bus mode shows in the snapshot and in nothing else of it.
/// Where the pending log holds staged inputs only and replays, the game
/// shown after the switch is the game shown before it with the sender's bus
/// mode as asked: every other player, and the sender's position and moves,
/// are as the replay of the log leaves them.
pub proof fn law_a_bus_switch_shows_in_the_snapshot(
    game: GameModel,
    input: PlayerInput,
    is_bus: bool,
    ahead: GameModel,
)
    requires
        input.input_type == PlayerInputType::SetPlayerBusBool,
        input.related_bool == Some(is_bus),
        game.contains_player(input.player_id),
        forall|k: int| 0 <= k < game.actions.len() ==> is_staged_kind(#[trigger] game.actions[k]),
        projected(game) == Ok::<GameModel, ActionFault>(ahead),
    ensures
        handled(game, input) matches Ok(after) && (ahead.player_index(input.player_id) matches Some(
            i,
        ) && projected(after) == Ok::<GameModel, ActionFault>(
            ahead.with_player(i, Player { is_bus, ..ahead.players[i] }),
        )),
{
    lemma_a_bus_switch_commutes_with_a_staged_log(game, input.player_id, is_bus, game.actions);
    lemma_first_index(ahead.players, with_unique_id(input.player_id));
}

/// The first refusal decides, and nothing after it has a say. Where the
/// rule at `decisive` is the first of a rule set that governs the input and
/// refuses it, the set's verdict is that rule's refusal, and stays so
/// whatever rules come after it.
pub proof fn law_rules_after_the_first_refusal_have_no_say(
    rules: Seq<RuleModel>,
    decisive: int,
    others: Seq<RuleModel>,
    game: GameModel,
    input: PlayerInput,
)
    requires
        0 <= decisive < rules.len(),
        rules[decisive].refuses(game, input),
        forall|earlier: int| 0 <= earlier < decisive ==> !(#[trigger] rules[earlier]).refuses(
            game,
            input,
        ),
    ensures
        first_rejection(rules, game, input) == Some(
            Rejection {
                rule: rules[decisive].kind,
                reason: rule_verdict(rules[decisive].kind, game, input)->Invalid_0,
            },
        ),
        first_rejection(rules.take(decisive + 1) + others, game, input) == first_rejection(
            rules,
            game,
            input,
        ),
{
    let refuses = refusing(game, input);
    let changed = rules.take(decisive + 1) + others;
    assert(is_first(rules, refuses, decisive));
    lemma_first_index_found(rules, refuses, decisive);
    assert forall|earlier: int| 0 <= earlier <= decisive implies #[trigger] changed[earlier]
        == rules[earlier] by {}
    assert(is_first(changed, refuses, decisive)) by {
        assert forall|earlier: int| 0 <= earlier < decisive implies !refuses(
            #[trigger] changed[earlier],
        ) by {
            assert(changed[earlier] == rules[earlier]);
        }
    }
    lemma_first_index_found(changed, refuses, decisive);
}

/// A rule set lets an input pass exactly where none of its rules governs
/// the input and refuses it.
pub proof fn law_an_input_passes_where_no_rule_refuses(
    rules: Seq<RuleModel>,
    game: GameModel,
    input: PlayerInput,
)
    ensures
        first_rejection(rules, game, input) is None <==> forall|i: int|
            0 <= i < rules.len() ==> !(#[trigger] rules[i]).refuses(game, input),
{
    let refuses = refusing(game, input);
    lemma_first_index(rules, refuses);
    if first_rejection(rules, game, input) is None {
        assert forall|i: int| 0 <= i < rules.len() implies !(#[trigger] rules[i]).refuses(
            game,
            input,
        ) by {
            assert(!refuses(rules[i]));
        }
    } else {
        let i = first_index(rules, refuses)->Some_0;
        assert(rules[i].refuses(game, input));
    }
}

} // verus!
