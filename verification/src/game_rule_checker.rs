//! The rules of the game and the engine that applies them in order.
//!
//! Each rule is a function from a game and an input to a
//! [`ValidationResponse`]. The engine runs the rules that govern the input's
//! kind in their fixed order and stops at the first that refuses.
use vstd::prelude::*;
use crate::search::{
    first_match, any_match, lemma_first_index_found, lemma_first_index_absent, lemma_any_match,
};
use crate::types::{
    NodeID, Player, PlayerInput, PlayerInputType, InGameID, ObjectiveCard, DistrictModifier,
    DistrictModifierType, EdgeRestriction, Neighbourhood, NeighbourRelationship, RestrictionType,
};
use crate::node_map::{
    MapError, MapModel, NodeMap, leading_to, park_and_ride_to, rail_to, find_neighbour,
    has_park_and_ride_to, has_rail_to,
};
use crate::gamestate::{GameModel, GameState, StateError, objective_in_district};
use crate::violation::{Rejection, RuleKind, ValidationResponse, Violation};
use crate::rule_checker::RuleChecker;

verus! {

/// A rule together with the kinds of input it governs. A rule bound to
/// [`PlayerInputType::All`] governs every kind.
#[derive(Debug, PartialEq, Eq)]
pub struct Rule {
    pub related_inputs: Vec<PlayerInputType>,
    pub kind: RuleKind,
}

/// A rule as plain mathematical values.
pub struct RuleModel {
    pub related_inputs: Seq<PlayerInputType>,
    pub kind: RuleKind,
}

impl View for Rule {
    type V = RuleModel;

    open spec fn view(&self) -> RuleModel {
        RuleModel { related_inputs: self.related_inputs@, kind: self.kind }
    }
}

/// The rule engine of the game: the rules in the order in which they are
/// applied.
#[derive(Debug, PartialEq, Eq)]
pub struct GameRuleChecker {
    rules: Vec<Rule>,
}

// ==================== RULES ====================

/// The verdict of [`has_game_started`].
pub open spec fn game_started_verdict(game: GameModel, input: PlayerInput) -> ValidationResponse {
    if game.is_lobby {
        ValidationResponse::Invalid(Violation::GameNotStarted)
    } else {
        ValidationResponse::Valid
    }
}

/// Refuses every input while the game is a lobby.
pub fn has_game_started(game: &GameState, player_input: &PlayerInput) -> (response:
    ValidationResponse)
    ensures
        response == game_started_verdict(game@, *player_input),
{
    if game.is_lobby {
        ValidationResponse::Invalid(Violation::GameNotStarted)
    } else {
        ValidationResponse::Valid
    }
}

/// The verdict of [`has_non_negative_amount_of_moves_left`].
pub open spec fn non_negative_moves_verdict(game: GameModel, input: PlayerInput) ->
    ValidationResponse {
    match game.player(input.player_id) {
        None => ValidationResponse::Invalid(
            Violation::State(StateError::PlayerNotFound(input.player_id)),
        ),
        Some(player) => if player.remaining_moves < 0 {
            ValidationResponse::Invalid(Violation::NegativeMoves(player.remaining_moves))
        } else {
            ValidationResponse::Valid
        },
    }
}

/// Refuses where the sender is not in the game or has a negative number of
/// moves left.
pub fn has_non_negative_amount_of_moves_left(game: &GameState, player_input: &PlayerInput) -> (response:
    ValidationResponse)
    ensures
        response == non_negative_moves_verdict(game@, *player_input),
{
    let player = match game.get_player_with_unique_id(player_input.player_id) {
        Ok(p) => p,
        Err(e) => {
            return ValidationResponse::Invalid(Violation::State(e));
        },
    };
    if player.remaining_moves < 0 {
        return ValidationResponse::Invalid(Violation::NegativeMoves(player.remaining_moves));
    }
    ValidationResponse::Valid
}

/// The verdict of [`has_enough_moves`]: the move is tried on the game, and
/// the state it would leave is judged.
pub open spec fn enough_moves_verdict(game: GameModel, input: PlayerInput) -> ValidationResponse {
    match game.player(input.player_id) {
        None => ValidationResponse::Invalid(
            Violation::State(StateError::PlayerNotFound(input.player_id)),
        ),
        Some(_) => match input.related_node_id {
            None => ValidationResponse::Invalid(Violation::NoNodeForCost),
            Some(to) => match game.moved(input.player_id, to) {
                Err(e) => ValidationResponse::Invalid(Violation::State(e)),
                Ok(after) => non_negative_moves_verdict(after, input),
            },
        },
    }
}

/// Refuses a movement that the sender cannot pay for. The move is made on a
/// copy of the game, and the copy is then asked whether the sender's moves
/// are still non-negative. A sender without moves passes where the edge
/// costs nothing.
pub fn has_enough_moves(game: &GameState, player_input: &PlayerInput) -> (response:
    ValidationResponse)
    ensures
        response == enough_moves_verdict(game@, *player_input),
{
    match game.get_player_with_unique_id(player_input.player_id) {
        Ok(_) => (),
        Err(e) => {
            return ValidationResponse::Invalid(Violation::State(e));
        },
    };
    let related_node_id = match player_input.related_node_id {
        Some(id) => id,
        None => {
            return ValidationResponse::Invalid(Violation::NoNodeForCost);
        },
    };
    let mut game_clone = game.clone();
    match game_clone.move_player_with_id(player_input.player_id, related_node_id) {
        Ok(_) => (),
        Err(e) => {
            return ValidationResponse::Invalid(Violation::State(e));
        },
    }
    has_non_negative_amount_of_moves_left(&game_clone, player_input)
}

/// Access modifiers of the given district.
pub open spec fn governs_district(district: Neighbourhood) -> spec_fn(DistrictModifier) -> bool {
    |m: DistrictModifier| m.district == district && m.modifier == DistrictModifierType::Access
}

/// Whether a vehicle type named by an access modifier of `district` lets the
/// player in: the player's card grants it, or it is `Destination` and the
/// player's objective lies in the district.
pub open spec fn vehicle_admits(
    map: MapModel,
    player: Player,
    card: ObjectiveCard,
    district: Neighbourhood,
    vehicle: RestrictionType,
) -> bool {
    card.special_vehicle_types.has(vehicle) || (vehicle == RestrictionType::Destination
        && objective_in_district(map, player, district))
}

/// Access modifiers of the given district that settle the question: one that
/// names no vehicle type, or one that lets the player in.
pub open spec fn settles_access(
    map: MapModel,
    player: Player,
    card: ObjectiveCard,
    district: Neighbourhood,
) -> spec_fn(DistrictModifier) -> bool {
    |m: DistrictModifier|
        governs_district(district)(m) && match m.vehicle_type {
            None => true,
            Some(vehicle) => vehicle_admits(map, player, card, district, vehicle),
        }
}

/// Whether the district's access modifiers let the holder of a card in. The
/// first modifier that settles the question decides. Where none does, the
/// player is let in only if the district has no access modifier at all.
pub open spec fn access_modifiers_verdict(
    game: GameModel,
    player: Player,
    card: ObjectiveCard,
    district: Neighbourhood,
) -> ValidationResponse {
    match first_match(game.district_modifiers, settles_access(game.map, player, card, district)) {
        Some(m) => if m.vehicle_type is None {
            ValidationResponse::Invalid(Violation::AccessModifierWithoutVehicle)
        } else {
            ValidationResponse::Valid
        },
        None => if any_match(game.district_modifiers, governs_district(district)) {
            ValidationResponse::Invalid(Violation::DistrictAccessDenied)
        } else {
            ValidationResponse::Valid
        },
    }
}

/// Whether a player may enter a district. A district without access
/// modifier is open to everybody. One with an access modifier is open only
/// to a player with an objective card that meets its modifiers.
pub open spec fn district_access_verdict(
    game: GameModel,
    player: Player,
    district: Neighbourhood,
) -> ValidationResponse {
    if !any_match(game.district_modifiers, governs_district(district)) {
        ValidationResponse::Valid
    } else {
        match player.objective_card {
            None => ValidationResponse::Invalid(Violation::NoObjectiveCard),
            Some(card) => access_modifiers_verdict(game, player, card, district),
        }
    }
}

/// Whether the game holds an access modifier of the district.
pub fn has_access_modifier(game: &GameState, district: Neighbourhood) -> (found: bool)
    ensures
        found == any_match(game@.district_modifiers, governs_district(district)),
{
    let mut i: usize = 0;
    while i < game.district_modifiers.len()
        invariant
            i <= game.district_modifiers.len(),
            forall|j: int|
                0 <= j < i ==> !governs_district(district)(#[trigger] game.district_modifiers@[j]),
        decreases game.district_modifiers.len() - i,
    {
        let dm = game.district_modifiers[i];
        if dm.district == district && dm.modifier == DistrictModifierType::Access {
            proof {
                lemma_first_index_found(
                    game.district_modifiers@,
                    governs_district(district),
                    i as int,
                );
            }
            return true;
        }
        i += 1;
    }
    proof {
        lemma_first_index_absent(game.district_modifiers@, governs_district(district));
    }
    false
}

/// Judges whether a player may enter a district: anybody where the district
/// has no access modifier, else only a player whose objective card meets the
/// district's access modifiers.
pub fn judge_district_access(
    game: &GameState,
    player: &Player,
    district: Neighbourhood,
) -> (response: ValidationResponse)
    ensures
        response == district_access_verdict(game@, *player, district),
{
    if !has_access_modifier(game, district) {
        return ValidationResponse::Valid;
    }
    match player.objective_card {
        None => ValidationResponse::Invalid(Violation::NoObjectiveCard),
        Some(card) => judge_access_modifiers(game, player, &card, district),
    }
}

/// Judges whether the access modifiers of a district let the holder of a
/// card in. The first modifier that settles the question decides; where none
/// does, the player is let in only if the district has no access modifier
/// at all.
pub fn judge_access_modifiers(
    game: &GameState,
    player: &Player,
    card: &ObjectiveCard,
    district: Neighbourhood,
) -> (response: ValidationResponse)
    ensures
        response == access_modifiers_verdict(game@, *player, *card, district),
{
    let ghost settles = settles_access(game@.map, *player, *card, district);
    let ghost governs = governs_district(district);
    let ghost mut witness: int = 0;
    let mut district_has_modifier = false;
    let mut i: usize = 0;
    while i < game.district_modifiers.len()
        invariant
            i <= game.district_modifiers.len(),
            settles == settles_access(game@.map, *player, *card, district),
            governs == governs_district(district),
            forall|j: int| 0 <= j < i ==> !settles(#[trigger] game.district_modifiers@[j]),
            district_has_modifier ==> 0 <= witness < i && governs(
                game.district_modifiers@[witness],
            ),
            !district_has_modifier ==> forall|j: int|
                0 <= j < i ==> !governs(#[trigger] game.district_modifiers@[j]),
        decreases game.district_modifiers.len() - i,
    {
        let dm = game.district_modifiers[i];
        if dm.district == district && dm.modifier == DistrictModifierType::Access {
            match dm.vehicle_type {
                None => {
                    proof {
                        lemma_first_index_found(game.district_modifiers@, settles, i as int);
                    }
                    return ValidationResponse::Invalid(Violation::AccessModifierWithoutVehicle);
                },
                Some(vehicle) => {
                    district_has_modifier = true;
                    proof {
                        witness = i as int;
                    }
                    if card.special_vehicle_types.contains(vehicle) || (vehicle
                        == RestrictionType::Destination
                        && GameState::player_has_objective_in_district(
                        &game.map,
                        player,
                        dm.district,
                    )) {
                        proof {
                            lemma_first_index_found(game.district_modifiers@, settles, i as int);
                        }
                        return ValidationResponse::Valid;
                    }
                },
            }
        }
        i += 1;
    }
    proof {
        lemma_first_index_absent(game.district_modifiers@, settles);
    }
    if !district_has_modifier {
        proof {
            lemma_first_index_absent(game.district_modifiers@, governs);
        }
        return ValidationResponse::Valid;
    }
    proof {
        lemma_any_match(game.district_modifiers@, governs, witness);
    }
    ValidationResponse::Invalid(Violation::DistrictAccessDenied)
}

/// The verdict of [`can_enter_district`].
pub open spec fn enter_district_verdict(game: GameModel, input: PlayerInput) -> ValidationResponse {
    match game.player(input.player_id) {
        None => ValidationResponse::Invalid(
            Violation::State(StateError::PlayerNotFound(input.player_id)),
        ),
        Some(player) => match player.position_node_id {
            None => ValidationResponse::Invalid(Violation::NoValidPosition),
            Some(from) => match game.map.neighbours(from) {
                None => ValidationResponse::Invalid(Violation::NodeWithoutEdges(from)),
                Some(neighbours) => match input.related_node_id {
                    None => ValidationResponse::Invalid(Violation::NoRelatedNode),
                    Some(to) => match first_match(neighbours, leading_to(to)) {
                        None => ValidationResponse::Invalid(Violation::NoSuchNeighbour),
                        Some(edge) => district_access_verdict(game, player, edge.neighbourhood),
                    },
                },
            },
        },
    }
}

/// Judges whether the sender may enter the district that the move leads
/// into. A district without access modifier is open; for any other the
/// sender's objective card must meet the district's access modifiers.
pub fn can_enter_district(game: &GameState, player_input: &PlayerInput) -> (response:
    ValidationResponse)
    ensures
        response == enter_district_verdict(game@, *player_input),
{
    let player = match game.get_player_with_unique_id(player_input.player_id) {
        Ok(p) => p,
        Err(e) => {
            return ValidationResponse::Invalid(Violation::State(e));
        },
    };
    let neighbours = match player.position_node_id {
        Some(pos) => match game.map.get_neighbour_relationships_of_node_with_id(pos) {
            Some(list) => list,
            None => {
                return ValidationResponse::Invalid(Violation::NodeWithoutEdges(pos));
            },
        },
        None => {
            return ValidationResponse::Invalid(Violation::NoValidPosition);
        },
    };
    let to_node_id = match player_input.related_node_id {
        Some(id) => id,
        None => {
            return ValidationResponse::Invalid(Violation::NoRelatedNode);
        },
    };
    let edge = match find_neighbour(&neighbours, to_node_id) {
        Some(edge) => edge,
        None => {
            return ValidationResponse::Invalid(Violation::NoSuchNeighbour);
        },
    };
    judge_district_access(game, &player, edge.neighbourhood)
}

/// The verdict of [`has_position`].
pub open spec fn has_position_verdict(game: GameModel, input: PlayerInput) -> ValidationResponse {
    match game.player(input.player_id) {
        None => ValidationResponse::Invalid(
            Violation::State(StateError::PlayerNotFound(input.player_id)),
        ),
        Some(player) => if player.position_node_id is None {
            ValidationResponse::Invalid(Violation::NoPosition)
        } else {
            ValidationResponse::Valid
        },
    }
}

/// Refuses where the sender is not in the game or stands on no node.
pub fn has_position(game: &GameState, player_input: &PlayerInput) -> (response: ValidationResponse)
    ensures
        response == has_position_verdict(game@, *player_input),
{
    match game.get_player_with_unique_id(player_input.player_id) {
        Ok(p) => {
            if p.position_node_id.is_none() {
                return ValidationResponse::Invalid(Violation::NoPosition);
            }
            ValidationResponse::Valid
        },
        Err(e) => ValidationResponse::Invalid(Violation::State(e)),
    }
}

/// The verdict of [`next_node_is_neighbour`].
pub open spec fn next_node_verdict(game: GameModel, input: PlayerInput) -> ValidationResponse {
    match game.player(input.player_id) {
        None => ValidationResponse::Invalid(
            Violation::State(StateError::PlayerNotFound(input.player_id)),
        ),
        Some(player) => match player.position_node_id {
            None => ValidationResponse::Invalid(Violation::NoPosition),
            Some(from) => match input.related_node_id {
                None => ValidationResponse::Invalid(Violation::NoNodeToCheck),
                Some(to) => match game.map.are_neighbours(from, to) {
                    Err(e) => ValidationResponse::Invalid(Violation::MapQuery(e)),
                    Ok(linked) => if linked {
                        ValidationResponse::Valid
                    } else {
                        ValidationResponse::Invalid(Violation::NotANeighbour(to))
                    },
                },
            },
        },
    }
}

/// Refuses a movement whose target is no direct neighbour of the node the
/// sender stands on.
pub fn next_node_is_neighbour(game: &GameState, player_input: &PlayerInput) -> (response:
    ValidationResponse)
    ensures
        response == next_node_verdict(game@, *player_input),
{
    match game.get_player_with_unique_id(player_input.player_id) {
        Ok(p) => {
            match p.position_node_id {
                Some(node_id) => {
                    let related_node_id = match player_input.related_node_id {
                        Some(id) => id,
                        None => {
                            return ValidationResponse::Invalid(Violation::NoNodeToCheck);
                        },
                    };
                    let are_neighbours = match game.map.are_nodes_neighbours(
                        node_id,
                        related_node_id,
                    ) {
                        Ok(b) => b,
                        Err(e) => {
                            return ValidationResponse::Invalid(Violation::MapQuery(e));
                        },
                    };
                    if !are_neighbours {
                        return ValidationResponse::Invalid(
                            Violation::NotANeighbour(related_node_id),
                        );
                    }
                },
                None => {
                    return ValidationResponse::Invalid(Violation::NoPosition);
                },
            }
            ValidationResponse::Valid
        },
        Err(e) => ValidationResponse::Invalid(Violation::State(e)),
    }
}

/// The verdict of [`is_players_turn`].
pub open spec fn players_turn_verdict(game: GameModel, input: PlayerInput) -> ValidationResponse {
    if game.is_lobby || input.input_type == PlayerInputType::LeaveGame {
        ValidationResponse::Valid
    } else {
        match game.player(input.player_id) {
            None => ValidationResponse::Invalid(
                Violation::State(StateError::PlayerNotFound(input.player_id)),
            ),
            Some(player) => if game.current_players_turn != player.in_game_id {
                ValidationResponse::Invalid(Violation::NotPlayersTurn)
            } else {
                ValidationResponse::Valid
            },
        }
    }
}

/// Refuses an input sent out of turn. In a lobby nobody is out of turn, and
/// a player may leave at any time.
pub fn is_players_turn(game: &GameState, player_input: &PlayerInput) -> (response:
    ValidationResponse)
    ensures
        response == players_turn_verdict(game@, *player_input),
{
    if game.is_lobby || player_input.input_type == PlayerInputType::LeaveGame {
        return ValidationResponse::Valid;
    }
    let player = match game.get_player_with_unique_id(player_input.player_id) {
        Ok(p) => p,
        Err(e) => {
            return ValidationResponse::Invalid(Violation::State(e));
        },
    };
    if game.current_players_turn != player.in_game_id {
        return ValidationResponse::Invalid(Violation::NotPlayersTurn);
    }
    ValidationResponse::Valid
}

/// The verdict of [`is_orchestrator`].
pub open spec fn orchestrator_verdict(game: GameModel, input: PlayerInput) -> ValidationResponse {
    match game.player(input.player_id) {
        None => ValidationResponse::Invalid(
            Violation::State(StateError::PlayerNotFound(input.player_id)),
        ),
        Some(player) => if player.in_game_id != InGameID::Orchestrator {
            ValidationResponse::Invalid(Violation::NotOrchestrator)
        } else {
            ValidationResponse::Valid
        },
    }
}

/// Refuses where the sender is not the orchestrator of the game.
pub fn is_orchestrator(game: &GameState, player_input: &PlayerInput) -> (response:
    ValidationResponse)
    ensures
        response == orchestrator_verdict(game@, *player_input),
{
    let player = match game.get_player_with_unique_id(player_input.player_id) {
        Ok(p) => p,
        Err(e) => {
            return ValidationResponse::Invalid(Violation::State(e));
        },
    };
    if player.in_game_id != InGameID::Orchestrator {
        return ValidationResponse::Invalid(Violation::NotOrchestrator);
    }
    ValidationResponse::Valid
}

/// The verdict of [`default_can_modify_edge_restriction`].
pub open spec fn modify_edge_verdict(
    change: EdgeRestriction,
    neighbours_one: Seq<NeighbourRelationship>,
    node_two_id: NodeID,
) -> ValidationResponse {
    match first_match(neighbours_one, leading_to(node_two_id)) {
        None => ValidationResponse::Invalid(
            Violation::EdgeMissing { node_one: change.node_one, node_two: node_two_id },
        ),
        Some(relationship) => if relationship.is_modifiable {
            ValidationResponse::Valid
        } else if change.delete {
            ValidationResponse::Invalid(
                Violation::RestrictionNotDeletable {
                    restriction: change.edge_restriction,
                    node_one: change.node_one,
                    node_two: change.node_two,
                },
            )
        } else {
            ValidationResponse::Invalid(
                Violation::EdgeNotModifiable {
                    node_one: change.node_one,
                    node_two: change.node_two,
                },
            )
        },
    }
}

/// Judges a change of an edge's restriction by the edges that leave its
/// first node: the edge to the second node must be among them and must be
/// modifiable, for setting a restriction as for deleting one.
pub fn default_can_modify_edge_restriction(
    edge_mod: &EdgeRestriction,
    neighbours_one: &Vec<NeighbourRelationship>,
    node_two_id: NodeID,
) -> (response: ValidationResponse)
    ensures
        response == modify_edge_verdict(*edge_mod, neighbours_one@, node_two_id),
{
    let relationship = match find_neighbour(neighbours_one, node_two_id) {
        Some(r) => r,
        None => {
            return ValidationResponse::Invalid(
                Violation::EdgeMissing { node_one: edge_mod.node_one, node_two: node_two_id },
            );
        },
    };
    if edge_mod.delete {
        if relationship.is_modifiable {
            return ValidationResponse::Valid;
        }
        return ValidationResponse::Invalid(
            Violation::RestrictionNotDeletable {
                restriction: edge_mod.edge_restriction,
                node_one: edge_mod.node_one,
                node_two: edge_mod.node_two,
            },
        );
    } else if !relationship.is_modifiable {
        return ValidationResponse::Invalid(
            Violation::EdgeNotModifiable {
                node_one: edge_mod.node_one,
                node_two: edge_mod.node_two,
            },
        );
    }
    ValidationResponse::Valid
}

/// The verdict of [`is_edge_modification_action_valid`].
pub open spec fn edge_modification_verdict(game: GameModel, input: PlayerInput) ->
    ValidationResponse {
    match input.edge_modifier {
        None => ValidationResponse::Invalid(Violation::NoEdgeModifier),
        Some(change) => match game.map.neighbours(change.node_one) {
            None => ValidationResponse::Invalid(Violation::NodeWithoutNeighbours(change.node_one)),
            Some(neighbours_one) => if game.map.neighbours(change.node_two) is None {
                ValidationResponse::Invalid(Violation::NodeWithoutNeighbours(change.node_one))
            } else {
                modify_edge_verdict(change, neighbours_one, change.node_two)
            },
        },
    }
}

/// Refuses a change of an edge's restriction where the input names none,
/// an end of the edge has no outgoing edges, or the edge is missing or may
/// not be changed.
pub fn is_edge_modification_action_valid(game: &GameState, player_input: &PlayerInput) -> (response:
    ValidationResponse)
    ensures
        response == edge_modification_verdict(game@, *player_input),
{
    let edge_mod = match player_input.edge_modifier {
        Some(m) => m,
        None => {
            return ValidationResponse::Invalid(Violation::NoEdgeModifier);
        },
    };
    let neighbours_one = match game.map.get_neighbour_relationships_of_node_with_id(
        edge_mod.node_one,
    ) {
        Some(list) => list,
        None => {
            return ValidationResponse::Invalid(
                Violation::NodeWithoutNeighbours(edge_mod.node_one),
            );
        },
    };
    match game.map.get_neighbour_relationships_of_node_with_id(edge_mod.node_two) {
        Some(_) => {},
        None => {
            return ValidationResponse::Invalid(
                Violation::NodeWithoutNeighbours(edge_mod.node_one),
            );
        },
    };
    default_can_modify_edge_restriction(&edge_mod, &neighbours_one, edge_mod.node_two)
}

} // verus!

verus! {

/// Park-and-ride edges that may be changed.
pub open spec fn modifiable_park_and_ride() -> spec_fn(NeighbourRelationship) -> bool {
    |e: NeighbourRelationship|
        e.restriction == Some(RestrictionType::ParkAndRide) && e.is_modifiable
}

/// Park-and-ride edges.
pub open spec fn park_and_ride() -> spec_fn(NeighbourRelationship) -> bool {
    |e: NeighbourRelationship| e.restriction == Some(RestrictionType::ParkAndRide)
}

/// How many edges of a list are park-and-ride edges that may be changed.
pub fn count_modifiable_park_and_ride(neighbours: &Vec<NeighbourRelationship>) -> (count: usize)
    ensures
        count == neighbours@.filter(modifiable_park_and_ride()).len(),
{
    let mut count: usize = 0;
    let mut i: usize = 0;
    proof {
        reveal(Seq::filter);
        assert(neighbours@.take(0).filter(modifiable_park_and_ride()) =~= Seq::empty());
    }
    while i < neighbours.len()
        invariant
            i <= neighbours.len(),
            count <= i,
            count == neighbours@.take(i as int).filter(modifiable_park_and_ride()).len(),
        decreases neighbours.len() - i,
    {
        let e = neighbours[i];
        proof {
            reveal(Seq::filter);
            let longer = neighbours@.take(i as int + 1);
            assert(longer.drop_last() =~= neighbours@.take(i as int));
            assert(longer.last() == e);
        }
        let restricted = match e.restriction {
            Some(RestrictionType::ParkAndRide) => true,
            _ => false,
        };
        if restricted && e.is_modifiable {
            count += 1;
        }
        i += 1;
    }
    proof {
        assert(neighbours@.take(i as int) =~= neighbours@);
    }
    count
}

/// Whether a list holds a park-and-ride edge.
pub fn has_park_and_ride(neighbours: &Vec<NeighbourRelationship>) -> (found: bool)
    ensures
        found == any_match(neighbours@, park_and_ride()),
{
    let mut i: usize = 0;
    while i < neighbours.len()
        invariant
            i <= neighbours.len(),
            forall|j: int| 0 <= j < i ==> !park_and_ride()(#[trigger] neighbours@[j]),
        decreases neighbours.len() - i,
    {
        let restricted = match neighbours[i].restriction {
            Some(RestrictionType::ParkAndRide) => true,
            _ => false,
        };
        if restricted {
            proof {
                lemma_first_index_found(neighbours@, park_and_ride(), i as int);
            }
            return true;
        }
        i += 1;
    }
    proof {
        lemma_first_index_absent(neighbours@, park_and_ride());
    }
    false
}

/// The verdict of [`can_modify_park_and_ride`].
pub open spec fn park_and_ride_verdict(
    game: GameModel,
    change: EdgeRestriction,
    neighbours_one: Seq<NeighbourRelationship>,
    neighbours_two: Seq<NeighbourRelationship>,
) -> ValidationResponse {
    if change.delete {
        if neighbours_one.filter(modifiable_park_and_ride()).len() < 2 || neighbours_two.filter(
            modifiable_park_and_ride(),
        ).len() < 2 {
            ValidationResponse::Valid
        } else {
            ValidationResponse::Invalid(Violation::ParkAndRideNotDeletable)
        }
    } else {
        match game.map.node(change.node_one) {
            None => ValidationResponse::Invalid(
                Violation::ParkAndRideNodeMissing(MapError::NodeNotFound(change.node_one)),
            ),
            Some(node_one) => match game.map.node(change.node_two) {
                None => ValidationResponse::Invalid(
                    Violation::ParkAndRideNodeMissing(MapError::NodeNotFound(change.node_two)),
                ),
                Some(node_two) => if node_one.is_parking_spot || node_two.is_parking_spot {
                    ValidationResponse::Valid
                } else if any_match(neighbours_one, park_and_ride()) || any_match(
                    neighbours_two,
                    park_and_ride(),
                ) {
                    ValidationResponse::Valid
                } else {
                    ValidationResponse::Invalid(
                        Violation::ParkAndRideNotPlaceable {
                            node_one: change.node_one,
                            node_two: change.node_two,
                        },
                    )
                },
            },
        }
    }
}

/// A stricter judgement of park-and-ride changes, which the standard rule
/// set does not use. A park-and-ride edge may be deleted only where an end
/// of it has fewer than two modifiable park-and-ride edges, and placed only
/// next to a parking spot or to another park-and-ride edge.
pub fn can_modify_park_and_ride(
    game: &GameState,
    park_and_ride_mod: &EdgeRestriction,
    neighbours_one: &Vec<NeighbourRelationship>,
    neighbours_two: &Vec<NeighbourRelationship>,
) -> (response: ValidationResponse)
    ensures
        response == park_and_ride_verdict(
            game@,
            *park_and_ride_mod,
            neighbours_one@,
            neighbours_two@,
        ),
{
    if park_and_ride_mod.delete {
        if count_modifiable_park_and_ride(neighbours_one) < 2 || count_modifiable_park_and_ride(
            neighbours_two,
        ) < 2 {
            return ValidationResponse::Valid;
        }
        return ValidationResponse::Invalid(Violation::ParkAndRideNotDeletable);
    }
    let node_one = match game.map.get_node_by_id(park_and_ride_mod.node_one) {
        Ok(n) => n,
        Err(e) => {
            return ValidationResponse::Invalid(Violation::ParkAndRideNodeMissing(e));
        },
    };
    let node_two = match game.map.get_node_by_id(park_and_ride_mod.node_two) {
        Ok(n) => n,
        Err(e) => {
            return ValidationResponse::Invalid(Violation::ParkAndRideNodeMissing(e));
        },
    };
    if node_one.is_parking_spot || node_two.is_parking_spot {
        return ValidationResponse::Valid;
    }
    if has_park_and_ride(neighbours_one) || has_park_and_ride(neighbours_two) {
        return ValidationResponse::Valid;
    }
    ValidationResponse::Invalid(
        Violation::ParkAndRideNotPlaceable {
            node_one: park_and_ride_mod.node_one,
            node_two: park_and_ride_mod.node_two,
        },
    )
}

/// Whether a bus may make the move: only along a park-and-ride edge.
pub open spec fn bus_verdict(neighbours: Seq<NeighbourRelationship>, to: NodeID) ->
    ValidationResponse {
    if any_match(neighbours, park_and_ride_to(to)) {
        ValidationResponse::Valid
    } else {
        ValidationResponse::Invalid(Violation::NotParkAndRideNeighbour(to))
    }
}

/// Whether a player without a bus may use an edge that carries a
/// restriction. A one-way street never blocks in its own direction; a
/// park-and-ride edge always does; any other restriction asks for an
/// objective card that grants it, or, where it is `Destination`, for an
/// objective in the district that the edge leads into.
pub open spec fn restricted_edge_verdict(
    map: MapModel,
    player: Player,
    edge: NeighbourRelationship,
    restriction: RestrictionType,
    to: NodeID,
) -> ValidationResponse {
    if restriction == RestrictionType::OneWay {
        ValidationResponse::Valid
    } else if restriction == RestrictionType::ParkAndRide {
        ValidationResponse::Invalid(Violation::ParkAndRideEdge)
    } else {
        match player.objective_card {
            None => ValidationResponse::Invalid(
                Violation::NoObjectiveCardForZone(player.unique_id),
            ),
            Some(card) => if card.special_vehicle_types.has(restriction) || (restriction
                == RestrictionType::Destination && objective_in_district(
                map,
                player,
                edge.neighbourhood,
            )) {
                ValidationResponse::Valid
            } else {
                ValidationResponse::Invalid(
                    Violation::NoAccessToEdge { player: player.unique_id, restriction, to },
                )
            },
        }
    }
}

/// Whether a player without a bus may make the move, given the edges that
/// leave its node. In this order: between two rail nodes only a rail edge
/// will do; a rail edge will not do where exactly one end is a rail node; a
/// one-way street back from the target blocks; a restricted edge is judged by
/// [`restricted_edge_verdict`]; an unrestricted one by the target district's
/// access modifiers, and it must not lie beside a park-and-ride edge to the
/// same node.
pub open spec fn driving_verdict(
    game: GameModel,
    input: PlayerInput,
    player: Player,
    from: NodeID,
    to: NodeID,
    neighbours: Seq<NeighbourRelationship>,
) -> ValidationResponse {
    match game.map.node(from) {
        None => ValidationResponse::Invalid(
            Violation::MovementNodeMissing(MapError::NodeNotFound(from)),
        ),
        Some(current) => match game.map.node(to) {
            None => ValidationResponse::Invalid(
                Violation::MovementNodeMissing(MapError::NodeNotFound(to)),
            ),
            Some(target) => if current.is_connected_to_rail && target.is_connected_to_rail {
                if any_match(neighbours, rail_to(to)) {
                    ValidationResponse::Valid
                } else {
                    ValidationResponse::Invalid(Violation::NotRailNeighbour(to))
                }
            } else if current.is_connected_to_rail != target.is_connected_to_rail && any_match(
                neighbours,
                rail_to(to),
            ) {
                ValidationResponse::Invalid(Violation::NotRailNeighbour(to))
            } else {
                match first_match(neighbours, leading_to(to)) {
                    None => ValidationResponse::Invalid(Violation::NotNeighbourOf { to, from }),
                    Some(edge) => match game.map.neighbours(to) {
                        None => ValidationResponse::Invalid(Violation::NoEdgesFrom(to)),
                        Some(back) => if first_match(back, leading_to(from)) matches Some(b)
                            && b.restriction == Some(RestrictionType::OneWay) {
                            ValidationResponse::Invalid(Violation::OneWayOpposite(to))
                        } else {
                            match edge.restriction {
                                Some(restriction) => restricted_edge_verdict(
                                    game.map,
                                    player,
                                    edge,
                                    restriction,
                                    to,
                                ),
                                None => match enter_district_verdict(game, input) {
                                    ValidationResponse::Invalid(e) => ValidationResponse::Invalid(
                                        e,
                                    ),
                                    ValidationResponse::Valid => if any_match(
                                        neighbours,
                                        park_and_ride_to(to),
                                    ) {
                                        ValidationResponse::Invalid(Violation::ParkAndRideEdge)
                                    } else {
                                        ValidationResponse::Valid
                                    },
                                },
                            }
                        },
                    },
                }
            },
        },
    }
}

/// The verdict of [`can_move_to_node`].
pub open spec fn move_to_node_verdict(game: GameModel, input: PlayerInput) -> ValidationResponse {
    match game.player(input.player_id) {
        None => ValidationResponse::Invalid(
            Violation::State(StateError::PlayerNotFound(input.player_id)),
        ),
        Some(player) => match player.position_node_id {
            None => ValidationResponse::Invalid(Violation::PositionUnknown),
            Some(from) => match input.related_node_id {
                None => ValidationResponse::Invalid(Violation::NoNodeForMovement),
                Some(to) => match game.map.neighbours(from) {
                    None => ValidationResponse::Invalid(Violation::NoEdgesFrom(from)),
                    Some(neighbours) => if player.is_bus {
                        bus_verdict(neighbours, to)
                    } else {
                        driving_verdict(game, input, player, from, to, neighbours)
                    },
                },
            },
        },
    }
}

/// Judges whether the sender may use the edge to the target: a bus only
/// park-and-ride edges; any other player by the railway, one-way streets, the
/// edge's restriction and the target district's access modifiers.
pub fn can_move_to_node(game: &GameState, player_input: &PlayerInput) -> (response:
    ValidationResponse)
    ensures
        response == move_to_node_verdict(game@, *player_input),
{
    let player = match game.get_player_with_unique_id(player_input.player_id) {
        Ok(p) => p,
        Err(e) => {
            return ValidationResponse::Invalid(Violation::State(e));
        },
    };
    let player_pos = match player.position_node_id {
        Some(id) => id,
        None => {
            return ValidationResponse::Invalid(Violation::PositionUnknown);
        },
    };
    let to_node_id = match player_input.related_node_id {
        Some(id) => id,
        None => {
            return ValidationResponse::Invalid(Violation::NoNodeForMovement);
        },
    };
    let neighbours = match game.map.get_neighbour_relationships_of_node_with_id(player_pos) {
        Some(list) => list,
        None => {
            return ValidationResponse::Invalid(Violation::NoEdgesFrom(player_pos));
        },
    };
    if player.is_bus {
        if has_park_and_ride_to(&neighbours, to_node_id) {
            return ValidationResponse::Valid;
        }
        return ValidationResponse::Invalid(Violation::NotParkAndRideNeighbour(to_node_id));
    }
    let current_node = match game.map.get_node_by_id(player_pos) {
        Ok(n) => n,
        Err(e) => {
            return ValidationResponse::Invalid(Violation::MovementNodeMissing(e));
        },
    };
    let to_node = match game.map.get_node_by_id(to_node_id) {
        Ok(n) => n,
        Err(e) => {
            return ValidationResponse::Invalid(Violation::MovementNodeMissing(e));
        },
    };
    let by_rail = has_rail_to(&neighbours, to_node_id);
    if current_node.is_connected_to_rail && to_node.is_connected_to_rail {
        if by_rail {
            return ValidationResponse::Valid;
        }
        return ValidationResponse::Invalid(Violation::NotRailNeighbour(to_node_id));
    }
    if current_node.is_connected_to_rail != to_node.is_connected_to_rail && by_rail {
        return ValidationResponse::Invalid(Violation::NotRailNeighbour(to_node_id));
    }
    let neighbour_relationship = match find_neighbour(&neighbours, to_node_id) {
        Some(edge) => edge,
        None => {
            return ValidationResponse::Invalid(
                Violation::NotNeighbourOf { to: to_node_id, from: player_pos },
            );
        },
    };
    let to_node_neighbours = match game.map.get_neighbour_relationships_of_node_with_id(
        to_node_id,
    ) {
        Some(list) => list,
        None => {
            return ValidationResponse::Invalid(Violation::NoEdgesFrom(to_node_id));
        },
    };
    match find_neighbour(&to_node_neighbours, player_pos) {
        Some(back) => {
            match back.restriction {
                Some(RestrictionType::OneWay) => {
                    return ValidationResponse::Invalid(Violation::OneWayOpposite(to_node_id));
                },
                _ => {},
            }
        },
        None => {},
    }
    match neighbour_relationship.restriction {
        Some(restriction) => {
            return judge_restricted_edge(
                &game.map,
                &player,
                &neighbour_relationship,
                restriction,
                to_node_id,
            );
        },
        None => {},
    }
    match can_enter_district(game, player_input) {
        ValidationResponse::Valid => (),
        ValidationResponse::Invalid(e) => {
            return ValidationResponse::Invalid(e);
        },
    }
    if has_park_and_ride_to(&neighbours, to_node_id) {
        return ValidationResponse::Invalid(Violation::ParkAndRideEdge);
    }
    ValidationResponse::Valid
}

/// Judges whether a player without a bus may use an edge that carries the
/// given restriction.
pub fn judge_restricted_edge(
    map: &NodeMap,
    player: &Player,
    edge: &NeighbourRelationship,
    restriction: RestrictionType,
    to: NodeID,
) -> (response: ValidationResponse)
    ensures
        response == restricted_edge_verdict(map@, *player, *edge, restriction, to),
{
    match restriction {
        RestrictionType::OneWay => {
            return ValidationResponse::Valid;
        },
        RestrictionType::ParkAndRide => {
            return ValidationResponse::Invalid(Violation::ParkAndRideEdge);
        },
        _ => {},
    }
    let card = match player.objective_card {
        Some(card) => card,
        None => {
            return ValidationResponse::Invalid(
                Violation::NoObjectiveCardForZone(player.unique_id),
            );
        },
    };
    let by_objective = match restriction {
        RestrictionType::Destination => GameState::player_has_objective_in_district(
            map,
            player,
            edge.neighbourhood,
        ),
        _ => false,
    };
    if card.special_vehicle_types.contains(restriction) || by_objective {
        ValidationResponse::Valid
    } else {
        ValidationResponse::Invalid(
            Violation::NoAccessToEdge { player: player.unique_id, restriction, to },
        )
    }
}

/// The verdict of [`can_toggle_bus`].
pub open spec fn toggle_bus_verdict(game: GameModel, input: PlayerInput) -> ValidationResponse {
    match game.player(input.player_id) {
        None => ValidationResponse::Invalid(
            Violation::State(StateError::PlayerNotFound(input.player_id)),
        ),
        Some(player) => if input.related_bool is None {
            ValidationResponse::Invalid(Violation::NoBoolForToggle)
        } else {
            match player.position_node_id {
                None => ValidationResponse::Invalid(Violation::PositionUnknown),
                Some(position) => match game.map.node(position) {
                    None => ValidationResponse::Invalid(
                        Violation::ToggleNodeMissing(MapError::NodeNotFound(position)),
                    ),
                    Some(node) => if node.is_parking_spot {
                        ValidationResponse::Valid
                    } else {
                        ValidationResponse::Invalid(Violation::NotOnParkingSpot)
                    },
                },
            }
        },
    }
}

/// Refuses a switch of bus mode where the input does not say which way, or
/// the sender does not stand on a parking spot.
pub fn can_toggle_bus(game: &GameState, player_input: &PlayerInput) -> (response:
    ValidationResponse)
    ensures
        response == toggle_bus_verdict(game@, *player_input),
{
    let player = match game.get_player_with_unique_id(player_input.player_id) {
        Ok(p) => p,
        Err(e) => {
            return ValidationResponse::Invalid(Violation::State(e));
        },
    };
    if player_input.related_bool.is_none() {
        return ValidationResponse::Invalid(Violation::NoBoolForToggle);
    }
    let player_pos = match player.position_node_id {
        Some(id) => id,
        None => {
            return ValidationResponse::Invalid(Violation::PositionUnknown);
        },
    };
    let node = match game.map.get_node_by_id(player_pos) {
        Ok(n) => n,
        Err(e) => {
            return ValidationResponse::Invalid(Violation::ToggleNodeMissing(e));
        },
    };
    if !node.is_parking_spot {
        return ValidationResponse::Invalid(Violation::NotOnParkingSpot);
    }
    ValidationResponse::Valid
}

} // verus!

verus! {

// ==================== ENGINE ====================

/// Bindings that make a rule govern inputs of the given kind: the kind
/// itself, and the wildcard.
pub open spec fn binds(input_type: PlayerInputType) -> spec_fn(PlayerInputType) -> bool {
    |bound: PlayerInputType| bound == input_type || bound == PlayerInputType::All
}

/// What a rule of the given kind says of an input.
pub open spec fn rule_verdict(kind: RuleKind, game: GameModel, input: PlayerInput) ->
    ValidationResponse {
    match kind {
        RuleKind::GameStarted => game_started_verdict(game, input),
        RuleKind::PlayersTurn => players_turn_verdict(game, input),
        RuleKind::Orchestrator => orchestrator_verdict(game, input),
        RuleKind::PlayerHasPosition => has_position_verdict(game, input),
        RuleKind::ToggleBus => toggle_bus_verdict(game, input),
        RuleKind::NextToNode => next_node_verdict(game, input),
        RuleKind::EnoughMoves => enough_moves_verdict(game, input),
        RuleKind::MoveToNode => move_to_node_verdict(game, input),
        RuleKind::ModifyEdgeRestriction => edge_modification_verdict(game, input),
    }
}

impl RuleModel {
    /// Whether the rule governs inputs of the given kind.
    pub open spec fn governs(self, input_type: PlayerInputType) -> bool {
        any_match(self.related_inputs, binds(input_type))
    }

    /// Whether the rule governs the input and refuses it.
    pub open spec fn refuses(self, game: GameModel, input: PlayerInput) -> bool {
        self.governs(input.input_type) && rule_verdict(self.kind, game, input) is Invalid
    }
}

/// Rules that govern the input and refuse it.
pub open spec fn refusing(game: GameModel, input: PlayerInput) -> spec_fn(RuleModel) -> bool {
    |rule: RuleModel| rule.refuses(game, input)
}

/// The refusal that a rule set gives an input: that of the first rule, in
/// the order of the set, that governs the input and refuses it; `None` where
/// there is no such rule. No later rule has a say.
pub open spec fn first_rejection(rules: Seq<RuleModel>, game: GameModel, input: PlayerInput) ->
    Option<Rejection> {
    match first_match(rules, refusing(game, input)) {
        None => None,
        Some(rule) => Some(
            Rejection { rule: rule.kind, reason: rule_verdict(rule.kind, game, input)->Invalid_0 },
        ),
    }
}

/// A list of rules as plain mathematical values.
pub open spec fn rules_model(rules: Seq<Rule>) -> Seq<RuleModel> {
    rules.map_values(|rule: Rule| rule@)
}

/// The rules of the game in the order in which they are applied.
pub open spec fn standard_rules() -> Seq<RuleModel> {
    seq![
        RuleModel {
            related_inputs: seq![
                PlayerInputType::Movement,
                PlayerInputType::ModifyDistrict,
                PlayerInputType::NextTurn,
                PlayerInputType::UndoAction,
            ],
            kind: RuleKind::GameStarted,
        },
        RuleModel { related_inputs: seq![PlayerInputType::All], kind: RuleKind::PlayersTurn },
        RuleModel {
            related_inputs: seq![
                PlayerInputType::StartGame,
                PlayerInputType::ModifyEdgeRestrictions,
                PlayerInputType::ModifyDistrict,
            ],
            kind: RuleKind::Orchestrator,
        },
        RuleModel {
            related_inputs: seq![PlayerInputType::Movement],
            kind: RuleKind::PlayerHasPosition,
        },
        RuleModel {
            related_inputs: seq![PlayerInputType::SetPlayerBusBool],
            kind: RuleKind::ToggleBus,
        },
        RuleModel { related_inputs: seq![PlayerInputType::Movement], kind: RuleKind::NextToNode },
        RuleModel { related_inputs: seq![PlayerInputType::Movement], kind: RuleKind::EnoughMoves },
        RuleModel { related_inputs: seq![PlayerInputType::Movement], kind: RuleKind::MoveToNode },
        RuleModel {
            related_inputs: seq![PlayerInputType::ModifyEdgeRestrictions],
            kind: RuleKind::ModifyEdgeRestriction,
        },
    ]
}

impl Rule {
    /// A rule of the given kind bound to the given kinds of input.
    pub fn new(related_inputs: Vec<PlayerInputType>, kind: RuleKind) -> (rule: Rule)
        ensures
            rule@ == (RuleModel { related_inputs: related_inputs@, kind }),
    {
        Rule { related_inputs, kind }
    }

    /// Whether the rule governs inputs of the given kind.
    pub fn governs(&self, input_type: PlayerInputType) -> (bound: bool)
        ensures
            bound == self@.governs(input_type),
    {
        let mut i: usize = 0;
        while i < self.related_inputs.len()
            invariant
                i <= self.related_inputs.len(),
                forall|j: int| 0 <= j < i ==> !binds(input_type)(#[trigger] self.related_inputs@[j]),
            decreases self.related_inputs.len() - i,
        {
            if self.related_inputs[i] == input_type || self.related_inputs[i]
                == PlayerInputType::All {
                proof {
                    lemma_first_index_found(self.related_inputs@, binds(input_type), i as int);
                }
                return true;
            }
            i += 1;
        }
        proof {
            lemma_first_index_absent(self.related_inputs@, binds(input_type));
        }
        false
    }

    /// Applies the rule to an input, whether or not it governs the input's kind.
    pub fn check(&self, game: &GameState, player_input: &PlayerInput) -> (response:
        ValidationResponse)
        ensures
            response == rule_verdict(self.kind, game@, *player_input),
    {
        match self.kind {
            RuleKind::GameStarted => has_game_started(game, player_input),
            RuleKind::PlayersTurn => is_players_turn(game, player_input),
            RuleKind::Orchestrator => is_orchestrator(game, player_input),
            RuleKind::PlayerHasPosition => has_position(game, player_input),
            RuleKind::ToggleBus => can_toggle_bus(game, player_input),
            RuleKind::NextToNode => next_node_is_neighbour(game, player_input),
            RuleKind::EnoughMoves => has_enough_moves(game, player_input),
            RuleKind::MoveToNode => can_move_to_node(game, player_input),
            RuleKind::ModifyEdgeRestriction => is_edge_modification_action_valid(
                game,
                player_input,
            ),
        }
    }
}

impl View for GameRuleChecker {
    type V = Seq<RuleModel>;

    closed spec fn view(&self) -> Seq<RuleModel> {
        rules_model(self.rules@)
    }
}

impl RuleChecker for GameRuleChecker {
    open spec fn verdict(&self, game: GameModel, input: PlayerInput) -> Option<Rejection> {
        first_rejection(self@, game, input)
    }

    /// Runs the rules that govern the input's kind, in order, and returns the
    /// refusal of the first that refuses. The rules after it are not run.
    fn is_input_valid(&self, game: &GameState, player_input: &PlayerInput) -> (refusal: Option<
        Rejection,
    >) {
        let ghost refuses = refusing(game@, *player_input);
        let mut i: usize = 0;
        while i < self.rules.len()
            invariant
                i <= self.rules.len(),
                refuses == refusing(game@, *player_input),
                self@ == rules_model(self.rules@),
                forall|j: int| 0 <= j < i ==> !refuses(#[trigger] self@[j]),
            decreases self.rules.len() - i,
        {
            let rule = &self.rules[i];
            assert(self@[i as int] == rule@);
            if rule.governs(player_input.input_type) {
                match rule.check(game, player_input) {
                    ValidationResponse::Valid => {},
                    ValidationResponse::Invalid(reason) => {
                        proof {
                            lemma_first_index_found(self@, refuses, i as int);
                        }
                        return Some(Rejection { rule: rule.kind, reason });
                    },
                }
            }
            i += 1;
        }
        proof {
            lemma_first_index_absent(self@, refuses);
        }
        None
    }
}

impl Default for GameRuleChecker {
    fn default() -> (checker: Self)
        ensures
            checker@ == standard_rules(),
    {
        Self::new()
    }
}

impl GameRuleChecker {
    /// The rule engine with the rules of the game.
    #[must_use]
    pub fn new() -> (checker: Self)
        ensures
            checker@ == standard_rules(),
    {
        Self { rules: Self::get_rules() }
    }

    /// A rule engine with rules of the caller's choice, applied in the order given.
    pub fn with_rules(rules: Vec<Rule>) -> (checker: Self)
        ensures
            checker@ == rules_model(rules@),
    {
        Self { rules }
    }

    /// The rules of the game in the order in which they are applied.
    pub fn get_rules() -> (rules: Vec<Rule>)
        ensures
            rules_model(rules@) == standard_rules(),
    {
        let game_started = Rule {
            related_inputs: vec![
                PlayerInputType::Movement,
                PlayerInputType::ModifyDistrict,
                PlayerInputType::NextTurn,
                PlayerInputType::UndoAction,
            ],
            kind: RuleKind::GameStarted,
        };
        let players_turn = Rule {
            related_inputs: vec![PlayerInputType::All],
            kind: RuleKind::PlayersTurn,
        };
        let orchestrator_check = Rule {
            related_inputs: vec![
                PlayerInputType::StartGame,
                PlayerInputType::ModifyEdgeRestrictions,
                PlayerInputType::ModifyDistrict,
            ],
            kind: RuleKind::Orchestrator,
        };
        let player_has_position = Rule {
            related_inputs: vec![PlayerInputType::Movement],
            kind: RuleKind::PlayerHasPosition,
        };
        let toggle_bus = Rule {
            related_inputs: vec![PlayerInputType::SetPlayerBusBool],
            kind: RuleKind::ToggleBus,
        };
        let next_to_node = Rule {
            related_inputs: vec![PlayerInputType::Movement],
            kind: RuleKind::NextToNode,
        };
        let enough_moves = Rule {
            related_inputs: vec![PlayerInputType::Movement],
            kind: RuleKind::EnoughMoves,
        };
        let move_to_node = Rule {
            related_inputs: vec![PlayerInputType::Movement],
            kind: RuleKind::MoveToNode,
        };
        let can_modify_edge_restriction = Rule {
            related_inputs: vec![PlayerInputType::ModifyEdgeRestrictions],
            kind: RuleKind::ModifyEdgeRestriction,
        };
        let rules = vec![
            game_started,
            players_turn,
            orchestrator_check,
            player_has_position,
            toggle_bus,
            next_to_node,
            enough_moves,
            move_to_node,
            can_modify_edge_restriction,
        ];
        proof {
            let model = rules_model(rules@);
            let standard = standard_rules();
            assert(model[0].related_inputs =~= standard[0].related_inputs);
            assert(model[1].related_inputs =~= standard[1].related_inputs);
            assert(model[2].related_inputs =~= standard[2].related_inputs);
            assert(model[3].related_inputs =~= standard[3].related_inputs);
            assert(model[4].related_inputs =~= standard[4].related_inputs);
            assert(model[5].related_inputs =~= standard[5].related_inputs);
            assert(model[6].related_inputs =~= standard[6].related_inputs);
            assert(model[7].related_inputs =~= standard[7].related_inputs);
            assert(model[8].related_inputs =~= standard[8].related_inputs);
            assert(model =~= standard);
        }
        rules
    }
}

} // verus!
