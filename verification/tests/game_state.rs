use game_core::gamestate::{GameState, StateError};
use game_core::node_map::{MapError, NodeMap};
use game_core::types::{
    DistrictModifier, DistrictModifierType, EdgeRestriction, InGameID, Neighbourhood,
    NeighbourRelationship, Node, NodeID, ObjectiveCard, Player, PlayerID, RestrictionSet,
    RestrictionType, MAX_ACCESS_MODIFIER_COUNT, MAX_PRIORITY_MODIFIER_COUNT,
    MAX_TOLL_MODIFIER_COUNT, START_MOVEMENT_AMOUNT,
};

fn street(from: NodeID, to: NodeID, cost: u32, district: Neighbourhood) -> NeighbourRelationship {
    NeighbourRelationship {
        from,
        to,
        neighbourhood: district,
        movement_cost: cost,
        is_connected_through_rail: false,
        is_modifiable: true,
        restriction: None,
    }
}

fn town() -> NodeMap {
    let nodes = vec![
        Node { id: 0, is_parking_spot: true, is_connected_to_rail: false },
        Node { id: 1, is_parking_spot: false, is_connected_to_rail: false },
        Node { id: 2, is_parking_spot: false, is_connected_to_rail: false },
    ];
    let edges = vec![
        street(0, 1, 1, Neighbourhood::Suburbs),
        street(1, 2, 3, Neighbourhood::Port),
        street(1, 0, 5, Neighbourhood::CityCentre),
        street(0, 1, 9, Neighbourhood::Airport),
    ];
    NodeMap::new(nodes, edges)
}

fn lobby_of(ids: &[PlayerID]) -> GameState {
    let mut game = GameState::new(String::from("town"), 77, town());
    for id in ids {
        game.assign_player_to_game(Player::new(*id)).unwrap();
    }
    game
}

fn started_with_mover_at(position: NodeID, moves: i32) -> GameState {
    let mut game = lobby_of(&[1, 2]);
    game.start().unwrap();
    game.players[1].position_node_id = Some(position);
    game.players[1].remaining_moves = moves;
    game
}

fn access(district: Neighbourhood, vehicle: RestrictionType) -> DistrictModifier {
    DistrictModifier {
        district,
        modifier: DistrictModifierType::Access,
        vehicle_type: Some(vehicle),
        delete: false,
    }
}

#[test]
fn a_new_game_is_an_empty_lobby_whose_turn_is_the_orchestrators() {
    let game = GameState::new(String::from("first"), 5, town());
    assert_eq!(game.id, 5);
    assert_eq!(game.name, "first");
    assert!(game.is_lobby);
    assert!(game.players.is_empty());
    assert_eq!(game.current_players_turn, InGameID::Orchestrator);
    assert!(game.district_modifiers.is_empty());
    assert!(game.actions.is_empty());
    assert_eq!(game.map, town());
}

#[test]
fn a_copy_of_a_game_equals_the_game() {
    let game = started_with_mover_at(1, 3);
    assert_eq!(game.clone(), game);
}

#[test]
fn a_turn_starts_with_four_moves() {
    assert_eq!(GameState::get_starting_player_movement_value(), 4);
    assert_eq!(GameState::get_starting_player_movement_value(), START_MOVEMENT_AMOUNT);
}

#[test]
fn the_first_player_becomes_the_orchestrator_and_the_rest_follow_the_rotation() {
    let game = lobby_of(&[10, 11, 12, 13, 14, 15, 16]);
    let roles: Vec<InGameID> = game.players.iter().map(|p| p.in_game_id).collect();
    assert_eq!(
        roles,
        vec![
            InGameID::Orchestrator,
            InGameID::PlayerOne,
            InGameID::PlayerTwo,
            InGameID::PlayerThree,
            InGameID::PlayerFour,
            InGameID::PlayerFive,
            InGameID::PlayerSix,
        ]
    );
    let ids: Vec<PlayerID> = game.players.iter().map(|p| p.unique_id).collect();
    assert_eq!(ids, vec![10, 11, 12, 13, 14, 15, 16]);
}

#[test]
fn a_player_entering_a_lobby_loses_its_position_and_moves() {
    let mut game = lobby_of(&[1]);
    let mut entrant = Player::new(2);
    entrant.position_node_id = Some(1);
    entrant.remaining_moves = -12;
    entrant.is_bus = true;
    entrant.in_game_id = InGameID::Orchestrator;
    let card = ObjectiveCard { target_node_id: 2, special_vehicle_types: RestrictionSet::empty() };
    entrant.objective_card = Some(card);
    assert_eq!(game.assign_player_to_game(entrant), Ok(()));
    assert_eq!(
        game.players[1],
        Player {
            unique_id: 2,
            in_game_id: InGameID::PlayerOne,
            position_node_id: None,
            remaining_moves: 0,
            is_bus: true,
            objective_card: Some(card),
        }
    );
}

#[test]
fn a_player_entering_a_started_game_keeps_its_position() {
    let mut game = lobby_of(&[1, 2]);
    game.start().unwrap();
    let mut entrant = Player::new(3);
    entrant.position_node_id = Some(2);
    entrant.remaining_moves = 50;
    assert_eq!(game.assign_player_to_game(entrant), Ok(()));
    assert_eq!(game.players[2].position_node_id, Some(2));
    assert_eq!(game.players[2].remaining_moves, 0);
    assert_eq!(game.players[2].in_game_id, InGameID::PlayerTwo);
}

#[test]
fn a_vacated_role_is_the_next_to_be_handed_out() {
    let mut game = lobby_of(&[1, 2, 3]);
    game.remove_player_with_id(1);
    assert_eq!(game.get_first_free_role(), Some(InGameID::Orchestrator));
    game.assign_player_to_game(Player::new(4)).unwrap();
    assert_eq!(game.players[2].in_game_id, InGameID::Orchestrator);
    assert_eq!(game.get_first_free_role(), Some(InGameID::PlayerThree));
}

#[test]
fn an_identity_cannot_enter_a_game_twice() {
    let mut game = lobby_of(&[1, 2]);
    let before = game.clone();
    assert_eq!(game.assign_player_to_game(Player::new(2)), Err(StateError::AlreadyInGame(2)));
    assert_eq!(game, before);
}

#[test]
fn a_game_with_seven_players_is_full() {
    let mut game = lobby_of(&[1, 2, 3, 4, 5, 6, 7]);
    let before = game.clone();
    assert_eq!(game.get_first_free_role(), None);
    assert_eq!(game.assign_player_to_game(Player::new(8)), Err(StateError::GameFull));
    assert_eq!(game, before);
}

#[test]
fn players_are_looked_up_by_identity() {
    let game = lobby_of(&[5, 6]);
    assert_eq!(game.get_player_with_unique_id(6), Ok(game.players[1]));
    assert_eq!(game.get_player_with_unique_id(7), Err(StateError::PlayerNotFound(7)));
    assert_eq!(game.find_player_index(5), Some(0));
    assert_eq!(game.find_player_index(7), None);
    assert!(game.contains_player_with_unique_id(5));
    assert!(!game.contains_player_with_unique_id(-5));
}

#[test]
fn roles_are_taken_or_free() {
    let game = lobby_of(&[5, 6]);
    assert!(game.is_role_taken(InGameID::Orchestrator));
    assert!(game.is_role_taken(InGameID::PlayerOne));
    assert!(!game.is_role_taken(InGameID::PlayerTwo));
    assert!(game.is_role_taken_by_other(6, InGameID::Orchestrator));
    assert!(!game.is_role_taken_by_other(5, InGameID::Orchestrator));
    assert!(!game.is_role_taken_by_other(5, InGameID::PlayerSix));
}

#[test]
fn a_player_can_take_a_free_role_or_keep_its_own() {
    let mut game = lobby_of(&[5, 6]);
    assert_eq!(game.assign_player_role(6, InGameID::PlayerFive), Ok(()));
    assert_eq!(game.players[1].in_game_id, InGameID::PlayerFive);
    assert_eq!(game.assign_player_role(6, InGameID::PlayerFive), Ok(()));
    assert_eq!(game.players[1].in_game_id, InGameID::PlayerFive);
    assert_eq!(game.players[0].in_game_id, InGameID::Orchestrator);
}

#[test]
fn a_taken_role_cannot_be_taken_again() {
    let mut game = lobby_of(&[5, 6]);
    let before = game.clone();
    assert_eq!(
        game.assign_player_role(6, InGameID::Orchestrator),
        Err(StateError::RoleTaken(InGameID::Orchestrator))
    );
    assert_eq!(game, before);
}

#[test]
fn a_stranger_cannot_take_a_role() {
    let mut game = lobby_of(&[5, 6]);
    let before = game.clone();
    assert_eq!(
        game.assign_player_role(7, InGameID::PlayerTwo),
        Err(StateError::PlayerNotFound(7))
    );
    assert_eq!(game, before);
}

#[test]
fn removing_a_player_keeps_the_others_in_order() {
    let mut game = lobby_of(&[5, 6, 7]);
    game.remove_player_with_id(6);
    let ids: Vec<PlayerID> = game.players.iter().map(|p| p.unique_id).collect();
    assert_eq!(ids, vec![5, 7]);
    let before = game.clone();
    game.remove_player_with_id(6);
    assert_eq!(game, before);
}

#[test]
fn a_move_follows_the_first_edge_and_costs_what_it_costs() {
    let mut game = started_with_mover_at(0, 4);
    assert_eq!(game.move_player_with_id(2, 1), Ok(()));
    assert_eq!(game.players[1].position_node_id, Some(1));
    assert_eq!(game.players[1].remaining_moves, 3);
    assert_eq!(game.move_player_with_id(2, 2), Ok(()));
    assert_eq!(game.players[1].position_node_id, Some(2));
    assert_eq!(game.players[1].remaining_moves, 0);
    assert_eq!(game.players[0].remaining_moves, 4);
}

#[test]
fn a_move_that_costs_all_the_moves_is_allowed() {
    let mut game = started_with_mover_at(1, 3);
    assert_eq!(game.move_player_with_id(2, 2), Ok(()));
    assert_eq!(game.players[1].remaining_moves, 0);
}

#[test]
fn a_move_that_costs_more_than_is_left_is_refused() {
    let mut game = started_with_mover_at(1, 4);
    let before = game.clone();
    assert_eq!(
        game.move_player_with_id(2, 0),
        Err(StateError::InsufficientMoves { cost: 5, remaining: 4 })
    );
    assert_eq!(game, before);
}

#[test]
fn a_costly_edge_is_refused_even_at_the_largest_cost() {
    let mut game = started_with_mover_at(0, i32::MAX);
    game.map.edges[0].movement_cost = u32::MAX;
    assert_eq!(
        game.move_player_with_id(2, 1),
        Err(StateError::InsufficientMoves { cost: u32::MAX, remaining: i32::MAX })
    );
    game.map.edges[0].movement_cost = i32::MAX as u32;
    assert_eq!(game.move_player_with_id(2, 1), Ok(()));
    assert_eq!(game.players[1].remaining_moves, 0);
}

#[test]
fn a_move_needs_a_player_a_position_and_an_edge() {
    let mut game = started_with_mover_at(2, 4);
    let before = game.clone();
    assert_eq!(game.move_player_with_id(9, 1), Err(StateError::PlayerNotFound(9)));
    assert_eq!(game.move_player_with_id(1, 1), Err(StateError::NoPosition(1)));
    assert_eq!(
        game.move_player_with_id(2, 0),
        Err(StateError::NotNeighbours { from: 2, to: 0 })
    );
    assert_eq!(game, before);
}

#[test]
fn bus_mode_is_set_for_the_player_named() {
    let mut game = lobby_of(&[5, 6]);
    assert_eq!(game.set_player_bus(6, true), Ok(()));
    assert!(game.players[1].is_bus);
    assert!(!game.players[0].is_bus);
    assert_eq!(game.set_player_bus(6, false), Ok(()));
    assert!(!game.players[1].is_bus);
    assert_eq!(game.set_player_bus(4, true), Err(StateError::PlayerNotFound(4)));
}

#[test]
fn the_turn_passes_to_the_next_taken_role_and_refreshes_its_holder() {
    let mut game = lobby_of(&[1, 2, 3]);
    game.start().unwrap();
    game.remove_player_with_id(2);
    game.players[0].remaining_moves = 1;
    game.players[1].remaining_moves = 2;
    assert_eq!(game.get_next_turn_role(), InGameID::PlayerTwo);
    game.next_player_turn();
    assert_eq!(game.current_players_turn, InGameID::PlayerTwo);
    assert_eq!(game.players[0].remaining_moves, 1);
    assert_eq!(game.players[1].remaining_moves, 4);
    game.players[1].remaining_moves = 0;
    game.next_player_turn();
    assert_eq!(game.current_players_turn, InGameID::Orchestrator);
    assert_eq!(game.players[0].remaining_moves, 4);
    assert_eq!(game.players[1].remaining_moves, 0);
}

#[test]
fn a_lone_player_keeps_the_turn() {
    let mut game = lobby_of(&[1]);
    game.players[0].remaining_moves = 0;
    game.next_player_turn();
    assert_eq!(game.current_players_turn, InGameID::Orchestrator);
    assert_eq!(game.players[0].remaining_moves, 4);
}

#[test]
fn the_turn_stays_where_it_is_in_a_game_without_players() {
    let mut game = lobby_of(&[]);
    game.current_players_turn = InGameID::PlayerThree;
    game.next_player_turn();
    assert_eq!(game.current_players_turn, InGameID::PlayerThree);
}

#[test]
fn starting_needs_an_orchestrator() {
    let mut game = lobby_of(&[1, 2]);
    game.assign_player_role(1, InGameID::PlayerFive).unwrap();
    let before = game.clone();
    assert_eq!(game.start(), Err(StateError::NoOrchestrator));
    assert_eq!(game, before);
    let mut empty = lobby_of(&[]);
    assert_eq!(empty.start(), Err(StateError::NoOrchestrator));
}

#[test]
fn starting_needs_exactly_one_orchestrator() {
    let mut game = lobby_of(&[1, 2, 3]);
    assert_eq!(game.count_role(InGameID::Orchestrator), 1);
    assert_eq!(game.count_role(InGameID::PlayerSix), 0);
    game.players[2].in_game_id = InGameID::Orchestrator;
    assert_eq!(game.count_role(InGameID::Orchestrator), 2);
    let before = game.clone();
    assert_eq!(game.start(), Err(StateError::SeveralOrchestrators));
    assert_eq!(game, before);
    assert!(game.is_lobby);
    game.players[1].in_game_id = InGameID::Orchestrator;
    assert_eq!(game.start(), Err(StateError::SeveralOrchestrators));
    game.players[1].in_game_id = InGameID::PlayerOne;
    game.players[2].in_game_id = InGameID::PlayerTwo;
    assert_eq!(game.start(), Ok(()));
}

#[test]
fn starting_needs_two_players() {
    let mut game = lobby_of(&[1]);
    let before = game.clone();
    assert_eq!(game.start(), Err(StateError::NotEnoughPlayers));
    assert_eq!(game, before);
}

#[test]
fn starting_ends_the_lobby_and_hands_out_moves() {
    let mut game = lobby_of(&[1, 2, 3]);
    assert_eq!(game.start(), Ok(()));
    assert!(!game.is_lobby);
    for player in &game.players {
        assert_eq!(player.remaining_moves, 4);
        assert_eq!(player.position_node_id, None);
    }
    assert_eq!(game.current_players_turn, InGameID::Orchestrator);
}

#[test]
fn modifiers_are_counted_by_kind() {
    let mut game = lobby_of(&[1]);
    game.apply_district_modifier(access(Neighbourhood::Port, RestrictionType::Electric)).unwrap();
    game.apply_district_modifier(access(Neighbourhood::Airport, RestrictionType::Heavy)).unwrap();
    let toll = DistrictModifier {
        district: Neighbourhood::Port,
        modifier: DistrictModifierType::Toll,
        vehicle_type: None,
        delete: false,
    };
    game.apply_district_modifier(toll).unwrap();
    assert_eq!(game.count_modifiers(DistrictModifierType::Access), 2);
    assert_eq!(game.count_modifiers(DistrictModifierType::Toll), 1);
    assert_eq!(game.count_modifiers(DistrictModifierType::Priority), 0);
    assert_eq!(
        game.district_modifiers,
        vec![
            access(Neighbourhood::Port, RestrictionType::Electric),
            access(Neighbourhood::Airport, RestrictionType::Heavy),
            toll,
        ]
    );
}

#[test]
fn each_kind_of_modifier_can_be_added_up_to_its_cap_and_no_further() {
    let kinds = [
        (DistrictModifierType::Access, MAX_ACCESS_MODIFIER_COUNT),
        (DistrictModifierType::Priority, MAX_PRIORITY_MODIFIER_COUNT),
        (DistrictModifierType::Toll, MAX_TOLL_MODIFIER_COUNT),
    ];
    for (kind, cap) in kinds {
        let mut game = lobby_of(&[1]);
        let modifier = DistrictModifier {
            district: Neighbourhood::Port,
            modifier: kind,
            vehicle_type: Some(RestrictionType::Electric),
            delete: false,
        };
        for _ in 0..cap {
            assert_eq!(game.apply_district_modifier(modifier), Ok(()));
        }
        assert_eq!(game.count_modifiers(kind), cap);
        let before = game.clone();
        assert_eq!(
            game.apply_district_modifier(modifier),
            Err(StateError::ModifierCapReached(kind))
        );
        assert_eq!(game, before);
    }
}

#[test]
fn the_caps_are_three_two_and_one() {
    assert_eq!(MAX_ACCESS_MODIFIER_COUNT, 3);
    assert_eq!(MAX_PRIORITY_MODIFIER_COUNT, 2);
    assert_eq!(MAX_TOLL_MODIFIER_COUNT, 1);
}

#[test]
fn a_full_kind_does_not_block_another_kind() {
    let mut game = lobby_of(&[1]);
    let toll = DistrictModifier {
        district: Neighbourhood::Port,
        modifier: DistrictModifierType::Toll,
        vehicle_type: None,
        delete: false,
    };
    game.apply_district_modifier(toll).unwrap();
    assert_eq!(
        game.apply_district_modifier(access(Neighbourhood::Port, RestrictionType::Electric)),
        Ok(())
    );
}

#[test]
fn deleting_lifts_the_first_equal_modifier() {
    let mut game = lobby_of(&[1]);
    let electric = access(Neighbourhood::Port, RestrictionType::Electric);
    let heavy = access(Neighbourhood::Port, RestrictionType::Heavy);
    game.apply_district_modifier(electric).unwrap();
    game.apply_district_modifier(heavy).unwrap();
    game.apply_district_modifier(electric).unwrap();
    let mut deletion = electric;
    deletion.delete = true;
    assert_eq!(game.apply_district_modifier(deletion), Ok(()));
    assert_eq!(game.district_modifiers, vec![heavy, electric]);
    assert_eq!(game.find_modifier(electric), Some(1));
    assert_eq!(game.find_modifier(deletion), None);
}

#[test]
fn deleting_a_modifier_that_is_not_there_fails() {
    let mut game = lobby_of(&[1]);
    game.apply_district_modifier(access(Neighbourhood::Port, RestrictionType::Electric)).unwrap();
    let before = game.clone();
    let mut deletion = access(Neighbourhood::Port, RestrictionType::Heavy);
    deletion.delete = true;
    assert_eq!(game.apply_district_modifier(deletion), Err(StateError::ModifierNotFound));
    assert_eq!(game, before);
}

#[test]
fn after_a_deletion_the_kind_has_room_again() {
    let mut game = lobby_of(&[1]);
    let toll = DistrictModifier {
        district: Neighbourhood::Port,
        modifier: DistrictModifierType::Toll,
        vehicle_type: None,
        delete: false,
    };
    game.apply_district_modifier(toll).unwrap();
    let mut deletion = toll;
    deletion.delete = true;
    game.apply_district_modifier(deletion).unwrap();
    assert_eq!(game.apply_district_modifier(toll), Ok(()));
    assert_eq!(game.count_modifiers(DistrictModifierType::Toll), 1);
}

#[test]
fn an_edge_restriction_is_set_on_the_games_map() {
    let mut game = lobby_of(&[1]);
    let change = EdgeRestriction {
        node_one: 1,
        node_two: 2,
        edge_restriction: RestrictionType::Hazard,
        delete: false,
    };
    assert_eq!(game.apply_edge_restriction(change), Ok(()));
    assert_eq!(game.map.edges[1].restriction, Some(RestrictionType::Hazard));
    let missing = EdgeRestriction { node_one: 2, node_two: 1, ..change };
    let before = game.clone();
    assert_eq!(
        game.apply_edge_restriction(missing),
        Err(StateError::Edge(MapError::EdgeNotFound { from: 2, to: 1 }))
    );
    assert_eq!(game, before);
}

#[test]
fn an_objective_lies_in_a_district_that_an_edge_to_its_target_leads_into() {
    let map = town();
    let mut player = Player::new(1);
    assert!(!GameState::player_has_objective_in_district(&map, &player, Neighbourhood::Port));
    player.objective_card =
        Some(ObjectiveCard { target_node_id: 2, special_vehicle_types: RestrictionSet::empty() });
    assert!(GameState::player_has_objective_in_district(&map, &player, Neighbourhood::Port));
    assert!(!GameState::player_has_objective_in_district(&map, &player, Neighbourhood::Suburbs));
    player.objective_card =
        Some(ObjectiveCard { target_node_id: 1, special_vehicle_types: RestrictionSet::empty() });
    assert!(GameState::player_has_objective_in_district(&map, &player, Neighbourhood::Suburbs));
    assert!(GameState::player_has_objective_in_district(&map, &player, Neighbourhood::Airport));
    assert!(!GameState::player_has_objective_in_district(&map, &player, Neighbourhood::Port));
}

#[test]
fn state_errors_read_as_sentences() {
    assert_eq!(
        StateError::PlayerNotFound(-4).message(),
        "There is no player with the unique id -4 in the game!"
    );
    assert_eq!(
        StateError::AlreadyInGame(12).message(),
        "The player with the unique id 12 is already in the game!"
    );
    assert_eq!(StateError::GameFull.message(), "The game is full!");
    assert_eq!(
        StateError::RoleTaken(InGameID::PlayerTwo).message(),
        "The role PlayerTwo is already taken by another player!"
    );
    assert_eq!(
        StateError::NoPosition(3).message(),
        "The player with the unique id 3 does not have a position!"
    );
    assert_eq!(
        StateError::NotNeighbours { from: 2, to: 0 }.message(),
        "The node 0 is not a neighbour of the node 2!"
    );
    assert_eq!(
        StateError::InsufficientMoves { cost: 5, remaining: 4 }.message(),
        "The move costs 5 but the player has only 4 remaining moves!"
    );
    assert_eq!(
        StateError::NoOrchestrator.message(),
        "Unable to start game because lobby does not have an orchestrator"
    );
    assert_eq!(
        StateError::SeveralOrchestrators.message(),
        "Unable to start game because lobby has more than one orchestrator"
    );
    assert_eq!(
        StateError::NotEnoughPlayers.message(),
        "Unable to start game because there are not enough players"
    );
    assert_eq!(
        StateError::ModifierNotFound.message(),
        "There is no modifier like the given one in the game!"
    );
    assert_eq!(
        StateError::ModifierCapReached(DistrictModifierType::Access).message(),
        "Cannot add more modifiers of type Access because there are already 3 modifiers of that type!"
    );
    assert_eq!(
        StateError::Edge(MapError::NodeNotFound(1)).message(),
        "There is no node with the given ID: 1"
    );
}
