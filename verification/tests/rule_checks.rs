use game_core::game_rule_checker::{
    can_enter_district, can_modify_park_and_ride, can_move_to_node, can_toggle_bus,
    count_modifiable_park_and_ride, default_can_modify_edge_restriction, has_enough_moves,
    has_game_started, has_non_negative_amount_of_moves_left, has_park_and_ride, has_position,
    has_access_modifier, is_edge_modification_action_valid, is_orchestrator, is_players_turn,
    judge_access_modifiers, judge_district_access,
    judge_restricted_edge, next_node_is_neighbour,
};
use game_core::gamestate::{GameState, StateError};
use game_core::node_map::{MapError, NodeMap};
use game_core::types::{
    DistrictModifier, DistrictModifierType, EdgeRestriction, InGameID, Neighbourhood,
    NeighbourRelationship, Node, NodeID, ObjectiveCard, Player, PlayerInput, PlayerInputType,
    RestrictionSet, RestrictionType,
};
use game_core::violation::{ValidationResponse, Violation};

const MOVER: i32 = 10;
const HOST: i32 = 1;

fn way(
    from: NodeID,
    to: NodeID,
    district: Neighbourhood,
    cost: u32,
    rail: bool,
    modifiable: bool,
    restriction: Option<RestrictionType>,
) -> NeighbourRelationship {
    NeighbourRelationship {
        from,
        to,
        neighbourhood: district,
        movement_cost: cost,
        is_connected_through_rail: rail,
        is_modifiable: modifiable,
        restriction,
    }
}

fn city() -> NodeMap {
    let nodes = vec![
        Node { id: 0, is_parking_spot: true, is_connected_to_rail: false },
        Node { id: 1, is_parking_spot: false, is_connected_to_rail: false },
        Node { id: 2, is_parking_spot: false, is_connected_to_rail: true },
        Node { id: 3, is_parking_spot: false, is_connected_to_rail: true },
        Node { id: 4, is_parking_spot: false, is_connected_to_rail: false },
        Node { id: 5, is_parking_spot: false, is_connected_to_rail: false },
        Node { id: 6, is_parking_spot: false, is_connected_to_rail: false },
        Node { id: 7, is_parking_spot: false, is_connected_to_rail: true },
    ];
    let edges = vec![
        way(0, 1, Neighbourhood::Suburbs, 1, false, true, None),
        way(1, 0, Neighbourhood::Suburbs, 1, false, true, None),
        way(0, 4, Neighbourhood::Port, 1, false, true, Some(RestrictionType::ParkAndRide)),
        way(4, 0, Neighbourhood::Port, 1, false, false, Some(RestrictionType::ParkAndRide)),
        way(2, 3, Neighbourhood::RingRoad, 1, true, true, None),
        way(3, 2, Neighbourhood::RingRoad, 1, true, true, None),
        way(1, 5, Neighbourhood::CityCentre, 2, false, true, None),
        way(5, 1, Neighbourhood::Suburbs, 2, false, true, None),
        way(1, 2, Neighbourhood::RingRoad, 1, false, true, None),
        way(2, 1, Neighbourhood::Suburbs, 1, false, true, None),
        way(4, 5, Neighbourhood::CityCentre, 1, false, true, Some(RestrictionType::Electric)),
        way(5, 4, Neighbourhood::Port, 1, false, true, Some(RestrictionType::OneWay)),
        way(1, 4, Neighbourhood::Port, 5, false, true, None),
        way(4, 1, Neighbourhood::Suburbs, 1, false, true, Some(RestrictionType::Destination)),
        way(1, 6, Neighbourhood::Airport, 1, false, true, None),
        way(1, 7, Neighbourhood::RingRoad, 1, true, true, None),
        way(7, 1, Neighbourhood::Suburbs, 1, true, true, None),
        way(2, 7, Neighbourhood::RingRoad, 1, false, true, None),
        way(9, 1, Neighbourhood::Suburbs, 1, false, true, None),
        way(1, 8, Neighbourhood::Airport, 1, false, true, None),
        way(5, 2, Neighbourhood::RingRoad, 1, false, true, Some(RestrictionType::Emergency)),
        way(5, 1, Neighbourhood::Suburbs, 1, false, true, Some(RestrictionType::ParkAndRide)),
    ];
    NodeMap::new(nodes, edges)
}

fn card_with(target: NodeID, permits: &[RestrictionType]) -> ObjectiveCard {
    let mut set = RestrictionSet::empty();
    for permit in permits {
        set = set.with(*permit);
    }
    ObjectiveCard { target_node_id: target, special_vehicle_types: set }
}

/// A started game in which the mover, in the role of player one, stands at `position`.
fn game_with_mover_at(position: Option<NodeID>) -> GameState {
    let mut game = GameState::new(String::from("city"), 3, city());
    game.assign_player_to_game(Player::new(HOST)).unwrap();
    game.assign_player_to_game(Player::new(MOVER)).unwrap();
    game.start().unwrap();
    game.current_players_turn = InGameID::PlayerOne;
    game.players[1].position_node_id = position;
    game.players[1].objective_card = Some(card_with(3, &[]));
    game
}

fn movement(to: NodeID) -> PlayerInput {
    let mut input = PlayerInput::new(MOVER, 3, PlayerInputType::Movement);
    input.related_node_id = Some(to);
    input
}

fn stranger(kind: PlayerInputType) -> PlayerInput {
    let mut input = PlayerInput::new(99, 3, kind);
    input.related_node_id = Some(1);
    input.related_bool = Some(true);
    input
}

fn not_found() -> ValidationResponse {
    ValidationResponse::Invalid(Violation::State(StateError::PlayerNotFound(99)))
}

fn access_to(district: Neighbourhood, vehicle: Option<RestrictionType>) -> DistrictModifier {
    DistrictModifier {
        district,
        modifier: DistrictModifierType::Access,
        vehicle_type: vehicle,
        delete: false,
    }
}

// ---------------------------------------------------------------- started

#[test]
fn nothing_is_valid_in_a_lobby_for_the_started_rule() {
    let lobby = GameState::new(String::from("lobby"), 3, city());
    assert_eq!(
        has_game_started(&lobby, &movement(1)),
        ValidationResponse::Invalid(Violation::GameNotStarted)
    );
    assert_eq!(has_game_started(&game_with_mover_at(None), &movement(1)), ValidationResponse::Valid);
}

// ---------------------------------------------------------------- turn

#[test]
fn the_turn_rule_lets_everything_pass_in_a_lobby() {
    let mut game = game_with_mover_at(None);
    game.is_lobby = true;
    game.current_players_turn = InGameID::Orchestrator;
    assert_eq!(is_players_turn(&game, &movement(1)), ValidationResponse::Valid);
    assert_eq!(is_players_turn(&game, &stranger(PlayerInputType::Movement)), ValidationResponse::Valid);
}

#[test]
fn the_turn_rule_lets_a_player_leave_out_of_turn() {
    let mut game = game_with_mover_at(None);
    game.current_players_turn = InGameID::Orchestrator;
    let leave = PlayerInput::new(MOVER, 3, PlayerInputType::LeaveGame);
    assert_eq!(is_players_turn(&game, &leave), ValidationResponse::Valid);
    assert_eq!(is_players_turn(&game, &stranger(PlayerInputType::LeaveGame)), ValidationResponse::Valid);
}

#[test]
fn the_turn_rule_refuses_an_input_out_of_turn() {
    let mut game = game_with_mover_at(None);
    assert_eq!(is_players_turn(&game, &movement(1)), ValidationResponse::Valid);
    game.current_players_turn = InGameID::Orchestrator;
    assert_eq!(
        is_players_turn(&game, &movement(1)),
        ValidationResponse::Invalid(Violation::NotPlayersTurn)
    );
    assert_eq!(is_players_turn(&game, &stranger(PlayerInputType::Movement)), not_found());
}

// ---------------------------------------------------------------- orchestrator

#[test]
fn only_the_orchestrator_passes_the_orchestrator_rule() {
    let game = game_with_mover_at(None);
    let by_host = PlayerInput::new(HOST, 3, PlayerInputType::StartGame);
    let by_mover = PlayerInput::new(MOVER, 3, PlayerInputType::StartGame);
    assert_eq!(is_orchestrator(&game, &by_host), ValidationResponse::Valid);
    assert_eq!(
        is_orchestrator(&game, &by_mover),
        ValidationResponse::Invalid(Violation::NotOrchestrator)
    );
    assert_eq!(is_orchestrator(&game, &stranger(PlayerInputType::StartGame)), not_found());
}

// ---------------------------------------------------------------- position

#[test]
fn the_position_rule_asks_for_a_node_under_the_player() {
    assert_eq!(has_position(&game_with_mover_at(Some(0)), &movement(1)), ValidationResponse::Valid);
    assert_eq!(
        has_position(&game_with_mover_at(None), &movement(1)),
        ValidationResponse::Invalid(Violation::NoPosition)
    );
    assert_eq!(
        has_position(&game_with_mover_at(Some(0)), &stranger(PlayerInputType::Movement)),
        not_found()
    );
}

// ---------------------------------------------------------------- neighbour

#[test]
fn the_neighbour_rule_follows_the_direction_of_edges() {
    let game = game_with_mover_at(Some(1));
    assert_eq!(next_node_is_neighbour(&game, &movement(5)), ValidationResponse::Valid);
    assert_eq!(
        next_node_is_neighbour(&game, &movement(3)),
        ValidationResponse::Invalid(Violation::NotANeighbour(3))
    );
}

#[test]
fn the_neighbour_rule_reports_what_is_missing() {
    assert_eq!(
        next_node_is_neighbour(&game_with_mover_at(None), &movement(5)),
        ValidationResponse::Invalid(Violation::NoPosition)
    );
    let without_node = PlayerInput::new(MOVER, 3, PlayerInputType::Movement);
    assert_eq!(
        next_node_is_neighbour(&game_with_mover_at(Some(1)), &without_node),
        ValidationResponse::Invalid(Violation::NoNodeToCheck)
    );
    assert_eq!(
        next_node_is_neighbour(&game_with_mover_at(Some(9)), &movement(1)),
        ValidationResponse::Invalid(Violation::MapQuery(MapError::NodeNotFound(9)))
    );
    assert_eq!(
        next_node_is_neighbour(&game_with_mover_at(Some(1)), &stranger(PlayerInputType::Movement)),
        not_found()
    );
}

// ---------------------------------------------------------------- moves

#[test]
fn a_move_that_can_be_paid_passes_the_moves_rule() {
    let game = game_with_mover_at(Some(1));
    assert_eq!(has_enough_moves(&game, &movement(5)), ValidationResponse::Valid);
    assert_eq!(game.players[1].remaining_moves, 4);
    assert_eq!(game.players[1].position_node_id, Some(1));
}

#[test]
fn a_move_that_costs_exactly_what_is_left_passes_the_moves_rule() {
    let mut game = game_with_mover_at(Some(1));
    game.players[1].remaining_moves = 2;
    assert_eq!(has_enough_moves(&game, &movement(5)), ValidationResponse::Valid);
    game.players[1].remaining_moves = 1;
    assert_eq!(
        has_enough_moves(&game, &movement(5)),
        ValidationResponse::Invalid(Violation::State(StateError::InsufficientMoves {
            cost: 2,
            remaining: 1
        }))
    );
}

#[test]
fn a_move_that_costs_too_much_fails_the_moves_rule() {
    let game = game_with_mover_at(Some(1));
    assert_eq!(
        has_enough_moves(&game, &movement(4)),
        ValidationResponse::Invalid(Violation::State(StateError::InsufficientMoves {
            cost: 5,
            remaining: 4
        }))
    );
}

#[test]
fn a_player_without_moves_cannot_pay_for_an_edge_that_costs() {
    let mut game = game_with_mover_at(Some(1));
    game.players[1].remaining_moves = 0;
    assert_eq!(
        has_enough_moves(&game, &movement(5)),
        ValidationResponse::Invalid(Violation::State(StateError::InsufficientMoves {
            cost: 2,
            remaining: 0
        }))
    );
    let without_node = PlayerInput::new(MOVER, 3, PlayerInputType::Movement);
    assert_eq!(
        has_enough_moves(&game, &without_node),
        ValidationResponse::Invalid(Violation::NoNodeForCost)
    );
}

#[test]
fn a_player_without_moves_passes_the_moves_rule_on_an_edge_that_costs_nothing() {
    let mut game = game_with_mover_at(Some(1));
    game.players[1].remaining_moves = 0;
    game.map.edges[6].movement_cost = 0;
    assert_eq!(has_enough_moves(&game, &movement(5)), ValidationResponse::Valid);
    assert_eq!(game.players[1].remaining_moves, 0);
    assert_eq!(game.players[1].position_node_id, Some(1));
}

#[test]
fn the_moves_rule_reports_what_the_trial_move_lacks() {
    let game = game_with_mover_at(Some(1));
    let without_node = PlayerInput::new(MOVER, 3, PlayerInputType::Movement);
    assert_eq!(
        has_enough_moves(&game, &without_node),
        ValidationResponse::Invalid(Violation::NoNodeForCost)
    );
    assert_eq!(
        has_enough_moves(&game, &movement(3)),
        ValidationResponse::Invalid(Violation::State(StateError::NotNeighbours { from: 1, to: 3 }))
    );
    assert_eq!(
        has_enough_moves(&game_with_mover_at(None), &movement(3)),
        ValidationResponse::Invalid(Violation::State(StateError::NoPosition(MOVER)))
    );
    assert_eq!(has_enough_moves(&game, &stranger(PlayerInputType::Movement)), not_found());
}

#[test]
fn negative_moves_are_told_with_their_number() {
    let mut game = game_with_mover_at(Some(1));
    assert_eq!(
        has_non_negative_amount_of_moves_left(&game, &movement(5)),
        ValidationResponse::Valid
    );
    game.players[1].remaining_moves = 0;
    assert_eq!(
        has_non_negative_amount_of_moves_left(&game, &movement(5)),
        ValidationResponse::Valid
    );
    game.players[1].remaining_moves = -3;
    assert_eq!(
        has_non_negative_amount_of_moves_left(&game, &movement(5)),
        ValidationResponse::Invalid(Violation::NegativeMoves(-3))
    );
    assert_eq!(
        has_non_negative_amount_of_moves_left(&game, &stranger(PlayerInputType::Movement)),
        not_found()
    );
}

// ---------------------------------------------------------------- district

#[test]
fn a_district_without_access_modifiers_is_open() {
    let mut game = game_with_mover_at(Some(0));
    assert_eq!(can_enter_district(&game, &movement(1)), ValidationResponse::Valid);
    game.district_modifiers.push(access_to(Neighbourhood::Port, Some(RestrictionType::Electric)));
    game.district_modifiers.push(DistrictModifier {
        district: Neighbourhood::Suburbs,
        modifier: DistrictModifierType::Priority,
        vehicle_type: Some(RestrictionType::Electric),
        delete: false,
    });
    game.district_modifiers.push(DistrictModifier {
        district: Neighbourhood::Suburbs,
        modifier: DistrictModifierType::Toll,
        vehicle_type: None,
        delete: false,
    });
    assert_eq!(can_enter_district(&game, &movement(1)), ValidationResponse::Valid);
}

#[test]
fn an_access_modifier_asks_for_its_vehicle_type() {
    let mut game = game_with_mover_at(Some(0));
    game.district_modifiers.push(access_to(Neighbourhood::Suburbs, Some(RestrictionType::Electric)));
    assert_eq!(
        can_enter_district(&game, &movement(1)),
        ValidationResponse::Invalid(Violation::DistrictAccessDenied)
    );
    game.players[1].objective_card = Some(card_with(3, &[RestrictionType::Electric]));
    assert_eq!(can_enter_district(&game, &movement(1)), ValidationResponse::Valid);
}

#[test]
fn one_matching_access_modifier_among_several_is_enough() {
    let mut game = game_with_mover_at(Some(0));
    game.district_modifiers.push(access_to(Neighbourhood::Suburbs, Some(RestrictionType::Electric)));
    game.district_modifiers.push(access_to(Neighbourhood::Suburbs, Some(RestrictionType::Heavy)));
    game.players[1].objective_card = Some(card_with(3, &[RestrictionType::Heavy]));
    assert_eq!(can_enter_district(&game, &movement(1)), ValidationResponse::Valid);
}

#[test]
fn a_destination_modifier_is_met_by_an_objective_in_the_district() {
    let mut game = game_with_mover_at(Some(0));
    game.district_modifiers.push(access_to(
        Neighbourhood::Suburbs,
        Some(RestrictionType::Destination),
    ));
    assert_eq!(
        can_enter_district(&game, &movement(1)),
        ValidationResponse::Invalid(Violation::DistrictAccessDenied)
    );
    game.players[1].objective_card = Some(card_with(0, &[]));
    assert_eq!(can_enter_district(&game, &movement(1)), ValidationResponse::Valid);
}

#[test]
fn an_access_modifier_without_vehicle_type_is_an_error_where_it_is_reached() {
    let mut game = game_with_mover_at(Some(0));
    game.district_modifiers.push(access_to(Neighbourhood::Suburbs, Some(RestrictionType::Electric)));
    game.district_modifiers.push(access_to(Neighbourhood::Suburbs, None));
    assert_eq!(
        can_enter_district(&game, &movement(1)),
        ValidationResponse::Invalid(Violation::AccessModifierWithoutVehicle)
    );
    game.players[1].objective_card = Some(card_with(3, &[RestrictionType::Electric]));
    assert_eq!(can_enter_district(&game, &movement(1)), ValidationResponse::Valid);
}

#[test]
fn district_access_reports_what_is_missing() {
    let mut game = game_with_mover_at(Some(0));
    assert_eq!(can_enter_district(&game, &stranger(PlayerInputType::Movement)), not_found());
    let without_node = PlayerInput::new(MOVER, 3, PlayerInputType::Movement);
    assert_eq!(
        can_enter_district(&game, &without_node),
        ValidationResponse::Invalid(Violation::NoRelatedNode)
    );
    assert_eq!(
        can_enter_district(&game, &movement(5)),
        ValidationResponse::Invalid(Violation::NoSuchNeighbour)
    );
    game.players[1].position_node_id = Some(6);
    assert_eq!(
        can_enter_district(&game, &movement(1)),
        ValidationResponse::Invalid(Violation::NodeWithoutEdges(6))
    );
    game.players[1].position_node_id = None;
    assert_eq!(
        can_enter_district(&game, &movement(1)),
        ValidationResponse::Invalid(Violation::NoValidPosition)
    );
    game.players[1].objective_card = None;
    assert_eq!(
        can_enter_district(&game, &movement(1)),
        ValidationResponse::Invalid(Violation::NoValidPosition)
    );
}

#[test]
fn a_district_without_access_modifier_is_open_to_a_player_without_card() {
    let mut game = game_with_mover_at(Some(0));
    game.players[1].objective_card = None;
    assert_eq!(can_enter_district(&game, &movement(1)), ValidationResponse::Valid);
    game.district_modifiers.push(access_to(Neighbourhood::Port, Some(RestrictionType::Electric)));
    game.district_modifiers.push(DistrictModifier {
        district: Neighbourhood::Suburbs,
        modifier: DistrictModifierType::Toll,
        vehicle_type: None,
        delete: false,
    });
    assert_eq!(can_enter_district(&game, &movement(1)), ValidationResponse::Valid);
}

#[test]
fn a_district_with_access_modifier_asks_for_a_card() {
    let mut game = game_with_mover_at(Some(0));
    game.players[1].objective_card = None;
    game.district_modifiers.push(access_to(Neighbourhood::Suburbs, Some(RestrictionType::Electric)));
    assert_eq!(
        can_enter_district(&game, &movement(1)),
        ValidationResponse::Invalid(Violation::NoObjectiveCard)
    );
    game.district_modifiers[0] = access_to(Neighbourhood::Suburbs, None);
    assert_eq!(
        can_enter_district(&game, &movement(1)),
        ValidationResponse::Invalid(Violation::NoObjectiveCard)
    );
    game.district_modifiers[0] = access_to(Neighbourhood::Suburbs, Some(RestrictionType::Destination));
    assert_eq!(
        can_enter_district(&game, &movement(1)),
        ValidationResponse::Invalid(Violation::NoObjectiveCard)
    );
}

#[test]
fn district_access_is_judged_for_the_district_named() {
    let mut game = game_with_mover_at(Some(0));
    game.district_modifiers.push(access_to(Neighbourhood::Port, Some(RestrictionType::Electric)));
    let mut player = game.players[1];
    let card = card_with(3, &[]);
    assert!(has_access_modifier(&game, Neighbourhood::Port));
    assert!(!has_access_modifier(&game, Neighbourhood::Airport));
    assert_eq!(
        judge_district_access(&game, &player, Neighbourhood::Port),
        ValidationResponse::Invalid(Violation::DistrictAccessDenied)
    );
    assert_eq!(
        judge_access_modifiers(&game, &player, &card, Neighbourhood::Port),
        ValidationResponse::Invalid(Violation::DistrictAccessDenied)
    );
    assert_eq!(
        judge_district_access(&game, &player, Neighbourhood::Airport),
        ValidationResponse::Valid
    );
    let electric = card_with(3, &[RestrictionType::Electric]);
    assert_eq!(
        judge_access_modifiers(&game, &player, &electric, Neighbourhood::Port),
        ValidationResponse::Valid
    );
    player.objective_card = Some(electric);
    assert_eq!(judge_district_access(&game, &player, Neighbourhood::Port), ValidationResponse::Valid);
    player.objective_card = None;
    assert_eq!(
        judge_district_access(&game, &player, Neighbourhood::Port),
        ValidationResponse::Invalid(Violation::NoObjectiveCard)
    );
    assert_eq!(
        judge_district_access(&game, &player, Neighbourhood::Airport),
        ValidationResponse::Valid
    );
}

// ---------------------------------------------------------------- edge changes

fn change(one: NodeID, two: NodeID, delete: bool) -> EdgeRestriction {
    EdgeRestriction {
        node_one: one,
        node_two: two,
        edge_restriction: RestrictionType::Hazard,
        delete,
    }
}

fn edge_input(change: Option<EdgeRestriction>) -> PlayerInput {
    let mut input = PlayerInput::new(HOST, 3, PlayerInputType::ModifyEdgeRestrictions);
    input.edge_modifier = change;
    input
}

#[test]
fn a_modifiable_edge_can_be_restricted_and_freed() {
    let game = game_with_mover_at(None);
    assert_eq!(
        is_edge_modification_action_valid(&game, &edge_input(Some(change(0, 4, false)))),
        ValidationResponse::Valid
    );
    assert_eq!(
        is_edge_modification_action_valid(&game, &edge_input(Some(change(0, 4, true)))),
        ValidationResponse::Valid
    );
}

#[test]
fn a_locked_edge_can_neither_be_restricted_nor_freed() {
    let game = game_with_mover_at(None);
    assert_eq!(
        is_edge_modification_action_valid(&game, &edge_input(Some(change(4, 0, false)))),
        ValidationResponse::Invalid(Violation::EdgeNotModifiable { node_one: 4, node_two: 0 })
    );
    assert_eq!(
        is_edge_modification_action_valid(&game, &edge_input(Some(change(4, 0, true)))),
        ValidationResponse::Invalid(Violation::RestrictionNotDeletable {
            restriction: RestrictionType::Hazard,
            node_one: 4,
            node_two: 0
        })
    );
}

#[test]
fn an_edge_change_reports_what_is_missing() {
    let game = game_with_mover_at(None);
    assert_eq!(
        is_edge_modification_action_valid(&game, &edge_input(None)),
        ValidationResponse::Invalid(Violation::NoEdgeModifier)
    );
    assert_eq!(
        is_edge_modification_action_valid(&game, &edge_input(Some(change(6, 1, false)))),
        ValidationResponse::Invalid(Violation::NodeWithoutNeighbours(6))
    );
    assert_eq!(
        is_edge_modification_action_valid(&game, &edge_input(Some(change(1, 6, false)))),
        ValidationResponse::Invalid(Violation::NodeWithoutNeighbours(1))
    );
    assert_eq!(
        is_edge_modification_action_valid(&game, &edge_input(Some(change(0, 5, false)))),
        ValidationResponse::Invalid(Violation::EdgeMissing { node_one: 0, node_two: 5 })
    );
}

#[test]
fn the_edge_is_looked_for_among_the_neighbours_given() {
    let list = vec![
        way(0, 4, Neighbourhood::Port, 1, false, false, None),
        way(0, 4, Neighbourhood::Port, 1, false, true, None),
    ];
    assert_eq!(
        default_can_modify_edge_restriction(&change(0, 4, false), &list, 4),
        ValidationResponse::Invalid(Violation::EdgeNotModifiable { node_one: 0, node_two: 4 })
    );
    assert_eq!(
        default_can_modify_edge_restriction(&change(0, 4, false), &list, 1),
        ValidationResponse::Invalid(Violation::EdgeMissing { node_one: 0, node_two: 1 })
    );
    assert_eq!(
        default_can_modify_edge_restriction(&change(0, 4, false), &list[1..].to_vec(), 4),
        ValidationResponse::Valid
    );
}

// ---------------------------------------------------------------- park and ride changes

fn park(from: NodeID, to: NodeID, modifiable: bool) -> NeighbourRelationship {
    way(from, to, Neighbourhood::Port, 1, false, modifiable, Some(RestrictionType::ParkAndRide))
}

#[test]
fn park_and_ride_edges_are_counted_and_found() {
    let list = vec![
        park(0, 1, true),
        park(0, 2, false),
        way(0, 3, Neighbourhood::Port, 1, false, true, None),
        park(0, 4, true),
        way(0, 5, Neighbourhood::Port, 1, false, true, Some(RestrictionType::OneWay)),
    ];
    assert_eq!(count_modifiable_park_and_ride(&list), 2);
    assert_eq!(count_modifiable_park_and_ride(&Vec::new()), 0);
    assert!(has_park_and_ride(&list));
    assert!(!has_park_and_ride(&list[2..3].to_vec()));
    assert!(has_park_and_ride(&list[1..2].to_vec()));
}

#[test]
fn a_park_and_ride_edge_in_the_middle_of_a_chain_cannot_be_deleted() {
    let game = game_with_mover_at(None);
    let chain = vec![park(0, 1, true), park(0, 2, true)];
    let end = vec![park(0, 1, true), park(0, 2, false)];
    let mut deletion = change(0, 4, true);
    deletion.edge_restriction = RestrictionType::ParkAndRide;
    assert_eq!(
        can_modify_park_and_ride(&game, &deletion, &chain, &chain),
        ValidationResponse::Invalid(Violation::ParkAndRideNotDeletable)
    );
    assert_eq!(
        can_modify_park_and_ride(&game, &deletion, &chain, &end),
        ValidationResponse::Valid
    );
    assert_eq!(
        can_modify_park_and_ride(&game, &deletion, &end, &chain),
        ValidationResponse::Valid
    );
}

#[test]
fn a_park_and_ride_edge_is_placed_next_to_parking_or_to_another() {
    let game = game_with_mover_at(None);
    let plain = vec![way(1, 5, Neighbourhood::Port, 1, false, true, None)];
    let with_park = vec![park(1, 5, false)];
    assert_eq!(
        can_modify_park_and_ride(&game, &change(0, 1, false), &plain, &plain),
        ValidationResponse::Valid
    );
    assert_eq!(
        can_modify_park_and_ride(&game, &change(1, 0, false), &plain, &plain),
        ValidationResponse::Valid
    );
    assert_eq!(
        can_modify_park_and_ride(&game, &change(1, 5, false), &plain, &with_park),
        ValidationResponse::Valid
    );
    assert_eq!(
        can_modify_park_and_ride(&game, &change(1, 5, false), &with_park, &plain),
        ValidationResponse::Valid
    );
    assert_eq!(
        can_modify_park_and_ride(&game, &change(1, 5, false), &plain, &plain),
        ValidationResponse::Invalid(Violation::ParkAndRideNotPlaceable { node_one: 1, node_two: 5 })
    );
}

#[test]
fn a_park_and_ride_edge_needs_both_its_nodes() {
    let game = game_with_mover_at(None);
    let plain = vec![way(1, 5, Neighbourhood::Port, 1, false, true, None)];
    assert_eq!(
        can_modify_park_and_ride(&game, &change(8, 0, false), &plain, &plain),
        ValidationResponse::Invalid(Violation::ParkAndRideNodeMissing(MapError::NodeNotFound(8)))
    );
    assert_eq!(
        can_modify_park_and_ride(&game, &change(0, 9, false), &plain, &plain),
        ValidationResponse::Invalid(Violation::ParkAndRideNodeMissing(MapError::NodeNotFound(9)))
    );
}

// ---------------------------------------------------------------- bus toggle

fn toggle(value: Option<bool>) -> PlayerInput {
    let mut input = PlayerInput::new(MOVER, 3, PlayerInputType::SetPlayerBusBool);
    input.related_bool = value;
    input
}

#[test]
fn bus_mode_is_switched_on_a_parking_spot_only() {
    assert_eq!(
        can_toggle_bus(&game_with_mover_at(Some(0)), &toggle(Some(true))),
        ValidationResponse::Valid
    );
    assert_eq!(
        can_toggle_bus(&game_with_mover_at(Some(0)), &toggle(Some(false))),
        ValidationResponse::Valid
    );
    assert_eq!(
        can_toggle_bus(&game_with_mover_at(Some(1)), &toggle(Some(true))),
        ValidationResponse::Invalid(Violation::NotOnParkingSpot)
    );
}

#[test]
fn a_switch_of_bus_mode_reports_what_is_missing() {
    assert_eq!(
        can_toggle_bus(&game_with_mover_at(Some(0)), &toggle(None)),
        ValidationResponse::Invalid(Violation::NoBoolForToggle)
    );
    assert_eq!(
        can_toggle_bus(&game_with_mover_at(None), &toggle(Some(true))),
        ValidationResponse::Invalid(Violation::PositionUnknown)
    );
    assert_eq!(
        can_toggle_bus(&game_with_mover_at(Some(9)), &toggle(Some(true))),
        ValidationResponse::Invalid(Violation::ToggleNodeMissing(MapError::NodeNotFound(9)))
    );
    assert_eq!(
        can_toggle_bus(&game_with_mover_at(Some(0)), &stranger(PlayerInputType::SetPlayerBusBool)),
        not_found()
    );
}

// ---------------------------------------------------------------- move to node

#[test]
fn a_bus_moves_along_park_and_ride_edges_only() {
    let mut game = game_with_mover_at(Some(0));
    game.players[1].is_bus = true;
    assert_eq!(can_move_to_node(&game, &movement(4)), ValidationResponse::Valid);
    assert_eq!(
        can_move_to_node(&game, &movement(1)),
        ValidationResponse::Invalid(Violation::NotParkAndRideNeighbour(1))
    );
    assert_eq!(
        can_move_to_node(&game, &movement(200)),
        ValidationResponse::Invalid(Violation::NotParkAndRideNeighbour(200))
    );
}

#[test]
fn a_player_without_bus_never_uses_a_park_and_ride_edge() {
    let mut game = game_with_mover_at(Some(0));
    assert_eq!(
        can_move_to_node(&game, &movement(4)),
        ValidationResponse::Invalid(Violation::ParkAndRideEdge)
    );
    game.players[1].objective_card = Some(card_with(3, &[RestrictionType::ParkAndRide]));
    assert_eq!(
        can_move_to_node(&game, &movement(4)),
        ValidationResponse::Invalid(Violation::ParkAndRideEdge)
    );
}

#[test]
fn an_open_edge_beside_a_park_and_ride_edge_is_closed_to_players_without_bus() {
    let game = game_with_mover_at(Some(5));
    assert_eq!(
        can_move_to_node(&game, &movement(1)),
        ValidationResponse::Invalid(Violation::ParkAndRideEdge)
    );
}

#[test]
fn between_rail_nodes_only_the_railway_will_do() {
    let game = game_with_mover_at(Some(2));
    assert_eq!(can_move_to_node(&game, &movement(3)), ValidationResponse::Valid);
    assert_eq!(
        can_move_to_node(&game, &movement(7)),
        ValidationResponse::Invalid(Violation::NotRailNeighbour(7))
    );
}

#[test]
fn the_railway_does_not_lead_to_or_from_a_node_off_the_rails() {
    assert_eq!(
        can_move_to_node(&game_with_mover_at(Some(1)), &movement(7)),
        ValidationResponse::Invalid(Violation::NotRailNeighbour(7))
    );
    assert_eq!(
        can_move_to_node(&game_with_mover_at(Some(7)), &movement(1)),
        ValidationResponse::Invalid(Violation::NotRailNeighbour(1))
    );
}

#[test]
fn a_road_between_a_rail_node_and_another_is_open() {
    assert_eq!(can_move_to_node(&game_with_mover_at(Some(1)), &movement(2)), ValidationResponse::Valid);
    assert_eq!(can_move_to_node(&game_with_mover_at(Some(2)), &movement(1)), ValidationResponse::Valid);
}

#[test]
fn a_rail_edge_between_nodes_off_the_rails_is_judged_like_a_road() {
    let mut game = game_with_mover_at(Some(0));
    game.map.edges[0].is_connected_through_rail = true;
    assert_eq!(can_move_to_node(&game, &movement(1)), ValidationResponse::Valid);
}

#[test]
fn a_one_way_street_is_closed_against_its_direction_and_open_along_it() {
    let mut game = game_with_mover_at(Some(4));
    game.players[1].objective_card = Some(card_with(3, &[RestrictionType::Electric]));
    assert_eq!(
        can_move_to_node(&game, &movement(5)),
        ValidationResponse::Invalid(Violation::OneWayOpposite(5))
    );
    let mut along = game_with_mover_at(Some(5));
    along.players[1].objective_card = None;
    assert_eq!(can_move_to_node(&along, &movement(4)), ValidationResponse::Valid);
}

#[test]
fn a_restricted_edge_asks_for_a_card_that_grants_it() {
    let mut game = game_with_mover_at(Some(5));
    assert_eq!(
        can_move_to_node(&game, &movement(2)),
        ValidationResponse::Invalid(Violation::NoAccessToEdge {
            player: MOVER,
            restriction: RestrictionType::Emergency,
            to: 2
        })
    );
    game.players[1].objective_card = Some(card_with(3, &[RestrictionType::Emergency]));
    assert_eq!(can_move_to_node(&game, &movement(2)), ValidationResponse::Valid);
    game.players[1].objective_card = None;
    assert_eq!(
        can_move_to_node(&game, &movement(2)),
        ValidationResponse::Invalid(Violation::NoObjectiveCardForZone(MOVER))
    );
}

#[test]
fn a_destination_edge_is_open_to_an_objective_in_its_district() {
    let mut game = game_with_mover_at(Some(4));
    assert_eq!(
        can_move_to_node(&game, &movement(1)),
        ValidationResponse::Invalid(Violation::NoAccessToEdge {
            player: MOVER,
            restriction: RestrictionType::Destination,
            to: 1
        })
    );
    game.players[1].objective_card = Some(card_with(0, &[]));
    assert_eq!(can_move_to_node(&game, &movement(1)), ValidationResponse::Valid);
    game.players[1].objective_card = Some(card_with(3, &[RestrictionType::Destination]));
    assert_eq!(can_move_to_node(&game, &movement(1)), ValidationResponse::Valid);
}

#[test]
fn a_restricted_edge_is_judged_on_its_own() {
    let map = city();
    let edge = way(4, 5, Neighbourhood::CityCentre, 1, false, true, Some(RestrictionType::Heavy));
    let mut player = Player::new(MOVER);
    assert_eq!(
        judge_restricted_edge(&map, &player, &edge, RestrictionType::OneWay, 5),
        ValidationResponse::Valid
    );
    assert_eq!(
        judge_restricted_edge(&map, &player, &edge, RestrictionType::ParkAndRide, 5),
        ValidationResponse::Invalid(Violation::ParkAndRideEdge)
    );
    assert_eq!(
        judge_restricted_edge(&map, &player, &edge, RestrictionType::Heavy, 5),
        ValidationResponse::Invalid(Violation::NoObjectiveCardForZone(MOVER))
    );
    player.objective_card = Some(card_with(5, &[RestrictionType::Heavy]));
    assert_eq!(
        judge_restricted_edge(&map, &player, &edge, RestrictionType::Heavy, 5),
        ValidationResponse::Valid
    );
    assert_eq!(
        judge_restricted_edge(&map, &player, &edge, RestrictionType::Hazard, 5),
        ValidationResponse::Invalid(Violation::NoAccessToEdge {
            player: MOVER,
            restriction: RestrictionType::Hazard,
            to: 5
        })
    );
    assert_eq!(
        judge_restricted_edge(&map, &player, &edge, RestrictionType::Destination, 5),
        ValidationResponse::Valid
    );
}

#[test]
fn an_open_edge_is_judged_by_the_district_it_leads_into() {
    let mut game = game_with_mover_at(Some(1));
    assert_eq!(can_move_to_node(&game, &movement(5)), ValidationResponse::Valid);
    game.district_modifiers.push(access_to(
        Neighbourhood::CityCentre,
        Some(RestrictionType::Electric),
    ));
    assert_eq!(
        can_move_to_node(&game, &movement(5)),
        ValidationResponse::Invalid(Violation::DistrictAccessDenied)
    );
    assert_eq!(can_move_to_node(&game, &movement(0)), ValidationResponse::Valid);
    game.players[1].objective_card = None;
    assert_eq!(can_move_to_node(&game, &movement(0)), ValidationResponse::Valid);
    assert_eq!(
        can_move_to_node(&game, &movement(5)),
        ValidationResponse::Invalid(Violation::NoObjectiveCard)
    );
}

#[test]
fn a_move_reports_what_is_missing() {
    let game = game_with_mover_at(Some(1));
    assert_eq!(can_move_to_node(&game, &stranger(PlayerInputType::Movement)), not_found());
    let without_node = PlayerInput::new(MOVER, 3, PlayerInputType::Movement);
    assert_eq!(
        can_move_to_node(&game, &without_node),
        ValidationResponse::Invalid(Violation::NoNodeForMovement)
    );
    assert_eq!(
        can_move_to_node(&game_with_mover_at(None), &movement(1)),
        ValidationResponse::Invalid(Violation::PositionUnknown)
    );
    assert_eq!(
        can_move_to_node(&game_with_mover_at(Some(6)), &movement(1)),
        ValidationResponse::Invalid(Violation::NoEdgesFrom(6))
    );
    assert_eq!(
        can_move_to_node(&game_with_mover_at(Some(9)), &movement(1)),
        ValidationResponse::Invalid(Violation::MovementNodeMissing(MapError::NodeNotFound(9)))
    );
    assert_eq!(
        can_move_to_node(&game, &movement(8)),
        ValidationResponse::Invalid(Violation::MovementNodeMissing(MapError::NodeNotFound(8)))
    );
    assert_eq!(
        can_move_to_node(&game_with_mover_at(Some(0)), &movement(5)),
        ValidationResponse::Invalid(Violation::NotNeighbourOf { to: 5, from: 0 })
    );
    assert_eq!(
        can_move_to_node(&game, &movement(6)),
        ValidationResponse::Invalid(Violation::NoEdgesFrom(6))
    );
}
