use game_core::node_map::{find_neighbour, has_park_and_ride_to, has_rail_to, MapError, NodeMap};
use game_core::types::{
    EdgeRestriction, Neighbourhood, NeighbourRelationship, Node, NodeID, RestrictionType,
};

fn plain_node(id: NodeID) -> Node {
    Node { id, is_parking_spot: false, is_connected_to_rail: false }
}

fn road(from: NodeID, to: NodeID) -> NeighbourRelationship {
    NeighbourRelationship {
        from,
        to,
        neighbourhood: Neighbourhood::Suburbs,
        movement_cost: 1,
        is_connected_through_rail: false,
        is_modifiable: true,
        restriction: None,
    }
}

fn small_map() -> NodeMap {
    let nodes = vec![
        Node { id: 0, is_parking_spot: true, is_connected_to_rail: false },
        plain_node(1),
        Node { id: 2, is_parking_spot: false, is_connected_to_rail: true },
        Node { id: 1, is_parking_spot: true, is_connected_to_rail: true },
        plain_node(3),
    ];
    let mut locked = road(2, 0);
    locked.is_modifiable = false;
    let mut second = road(0, 1);
    second.movement_cost = 7;
    let edges = vec![road(0, 1), road(1, 2), road(0, 2), locked, second];
    NodeMap::new(nodes, edges)
}

#[test]
fn a_new_map_holds_what_it_was_given() {
    let map = NodeMap::new(vec![plain_node(4)], vec![road(4, 4)]);
    assert_eq!(map.nodes, vec![plain_node(4)]);
    assert_eq!(map.edges, vec![road(4, 4)]);
}

#[test]
fn a_copy_of_a_map_equals_the_map() {
    let map = small_map();
    assert_eq!(map.clone(), map);
}

#[test]
fn the_first_node_with_the_id_is_found() {
    let map = small_map();
    assert_eq!(map.get_node_by_id(1), Ok(plain_node(1)));
    assert_eq!(
        map.get_node_by_id(0),
        Ok(Node { id: 0, is_parking_spot: true, is_connected_to_rail: false })
    );
}

#[test]
fn a_missing_node_is_named_in_the_error() {
    let map = small_map();
    assert_eq!(map.get_node_by_id(9), Err(MapError::NodeNotFound(9)));
}

#[test]
fn the_edges_that_leave_a_node_come_in_map_order() {
    let map = small_map();
    let mut second = road(0, 1);
    second.movement_cost = 7;
    assert_eq!(
        map.get_neighbour_relationships_of_node_with_id(0),
        Some(vec![road(0, 1), road(0, 2), second])
    );
    assert_eq!(map.get_neighbour_relationships_of_node_with_id(1), Some(vec![road(1, 2)]));
}

#[test]
fn a_node_without_outgoing_edges_has_no_neighbour_list() {
    let map = small_map();
    assert_eq!(map.get_neighbour_relationships_of_node_with_id(3), None);
    assert_eq!(map.get_neighbour_relationships_of_node_with_id(200), None);
}

#[test]
fn neighbours_are_told_by_direction() {
    let map = small_map();
    assert_eq!(map.are_nodes_neighbours(0, 1), Ok(true));
    assert_eq!(map.are_nodes_neighbours(1, 0), Ok(false));
    assert_eq!(map.are_nodes_neighbours(3, 0), Ok(false));
}

#[test]
fn asking_for_the_neighbours_of_a_missing_node_fails() {
    let map = small_map();
    assert_eq!(map.are_nodes_neighbours(9, 0), Err(MapError::NodeNotFound(9)));
}

#[test]
fn the_first_edge_between_two_nodes_is_the_one_found() {
    let map = small_map();
    assert_eq!(map.get_edge(0, 1), Some(road(0, 1)));
    assert_eq!(map.find_edge_index(0, 1), Some(0));
    assert_eq!(map.find_edge_index(2, 0), Some(3));
    assert_eq!(map.get_edge(1, 0), None);
    assert_eq!(map.find_edge_index(1, 0), None);
}

#[test]
fn setting_a_restriction_changes_only_the_first_matching_edge() {
    let mut map = small_map();
    let change = EdgeRestriction {
        node_one: 0,
        node_two: 1,
        edge_restriction: RestrictionType::Electric,
        delete: false,
    };
    assert_eq!(map.apply_edge_restriction(change), Ok(()));
    let mut expected = small_map();
    expected.edges[0].restriction = Some(RestrictionType::Electric);
    assert_eq!(map, expected);
}

#[test]
fn deleting_a_restriction_clears_it() {
    let mut map = small_map();
    map.edges[1].restriction = Some(RestrictionType::OneWay);
    let change = EdgeRestriction {
        node_one: 1,
        node_two: 2,
        edge_restriction: RestrictionType::OneWay,
        delete: true,
    };
    assert_eq!(map.apply_edge_restriction(change), Ok(()));
    assert_eq!(map, small_map());
}

#[test]
fn a_change_of_a_missing_edge_fails_and_changes_nothing() {
    let mut map = small_map();
    let change = EdgeRestriction {
        node_one: 1,
        node_two: 0,
        edge_restriction: RestrictionType::Heavy,
        delete: false,
    };
    assert_eq!(
        map.apply_edge_restriction(change),
        Err(MapError::EdgeNotFound { from: 1, to: 0 })
    );
    assert_eq!(map, small_map());
}

#[test]
fn a_change_of_a_locked_edge_fails_and_changes_nothing() {
    let mut map = small_map();
    let change = EdgeRestriction {
        node_one: 2,
        node_two: 0,
        edge_restriction: RestrictionType::Heavy,
        delete: false,
    };
    assert_eq!(
        map.apply_edge_restriction(change),
        Err(MapError::EdgeNotModifiable { from: 2, to: 0 })
    );
    let mut deletion = change;
    deletion.delete = true;
    assert_eq!(
        map.apply_edge_restriction(deletion),
        Err(MapError::EdgeNotModifiable { from: 2, to: 0 })
    );
    assert_eq!(map, small_map());
}

#[test]
fn the_first_edge_of_a_list_to_a_node_is_found() {
    let mut costly = road(5, 6);
    costly.movement_cost = 3;
    let list = vec![road(5, 7), costly, road(5, 6)];
    assert_eq!(find_neighbour(&list, 6), Some(costly));
    assert_eq!(find_neighbour(&list, 8), None);
    assert_eq!(find_neighbour(&Vec::new(), 6), None);
}

#[test]
fn park_and_ride_edges_are_told_by_restriction_and_target() {
    let mut park = road(5, 6);
    park.restriction = Some(RestrictionType::ParkAndRide);
    let mut one_way = road(5, 7);
    one_way.restriction = Some(RestrictionType::OneWay);
    let list = vec![road(5, 6), one_way, park];
    assert!(has_park_and_ride_to(&list, 6));
    assert!(!has_park_and_ride_to(&list, 7));
    assert!(!has_park_and_ride_to(&vec![road(5, 6)], 6));
}

#[test]
fn rail_edges_are_told_by_flag_and_target() {
    let mut rail = road(5, 6);
    rail.is_connected_through_rail = true;
    let list = vec![road(5, 7), rail];
    assert!(has_rail_to(&list, 6));
    assert!(!has_rail_to(&list, 7));
}

#[test]
fn map_errors_read_as_sentences() {
    assert_eq!(
        MapError::NodeNotFound(12).message(),
        "There is no node with the given ID: 12"
    );
    assert_eq!(
        MapError::EdgeNotFound { from: 3, to: 250 }.message(),
        "The node 3 does not have a neighbour with id 250!"
    );
    assert_eq!(
        MapError::EdgeNotModifiable { from: 0, to: 9 }.message(),
        "The edge between node 0 and node 9 is not modifiable!"
    );
}
