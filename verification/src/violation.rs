//! The reasons for which a rule turns an input down.
use vstd::prelude::*;
use vstd::string::*;
use crate::text::{natural_text, natural_string, decimal_text, decimal_string, framed, framed_pair};
use crate::types::{PlayerID, NodeID, MovementValue, RestrictionType};
use crate::node_map::MapError;
use crate::gamestate::StateError;

verus! {

/// The rules of the game. Each is a check of one aspect of an input.
#[derive(Clone, Copy, PartialEq, Eq, Debug, Structural)]
pub enum RuleKind {
    /// The game has left the lobby.
    GameStarted,
    /// It is the sender's turn.
    PlayersTurn,
    /// The sender is the orchestrator.
    Orchestrator,
    /// The sender stands on a node.
    PlayerHasPosition,
    /// The sender may switch its bus mode where it stands.
    ToggleBus,
    /// The target is a neighbour of the sender's node.
    NextToNode,
    /// The sender can pay for the move.
    EnoughMoves,
    /// The sender is allowed on the edge and in the district.
    MoveToNode,
    /// The edge whose restriction is to change exists and may be changed.
    ModifyEdgeRestriction,
}

/// Why a rule turned an input down.
#[derive(Clone, Copy, PartialEq, Eq, Debug, Structural)]
pub enum Violation {
    /// The game is still a lobby.
    GameNotStarted,
    /// A look at the state, or a change tried on a copy of it, failed.
    State(StateError),
    /// The input names no node to move to.
    NoNodeForCost,
    /// After the move the sender would have this negative number of moves.
    NegativeMoves(MovementValue),
    /// The district has an access modifier and the sender has no objective
    /// card to meet it.
    NoObjectiveCard,
    /// No edge leaves the node the sender stands on.
    NodeWithoutEdges(NodeID),
    /// The sender stands nowhere and so cannot enter a district.
    NoValidPosition,
    /// The input names no node whose district is to be entered.
    NoRelatedNode,
    /// No edge leads from the sender's node to the target.
    NoSuchNeighbour,
    /// An access modifier of the district names no vehicle type.
    AccessModifierWithoutVehicle,
    /// The district has access modifiers and the sender meets none of them.
    DistrictAccessDenied,
    /// The sender stands on no node.
    NoPosition,
    /// The input names no node to test for being a neighbour.
    NoNodeToCheck,
    /// The map could not answer whether the nodes are neighbours.
    MapQuery(MapError),
    /// This node is no neighbour of the sender's node.
    NotANeighbour(NodeID),
    /// It is another role's turn.
    NotPlayersTurn,
    /// The sender is not the orchestrator.
    NotOrchestrator,
    /// The input names no edge change.
    NoEdgeModifier,
    /// An end of the edge has no outgoing edges; the payload is the edge's first node.
    NodeWithoutNeighbours(NodeID),
    /// No edge leads from the first node to the second.
    EdgeMissing { node_one: NodeID, node_two: NodeID },
    /// The restriction cannot be deleted because the edge may not be changed.
    RestrictionNotDeletable { restriction: RestrictionType, node_one: NodeID, node_two: NodeID },
    /// The restriction cannot be set because the edge may not be changed.
    EdgeNotModifiable { node_one: NodeID, node_two: NodeID },
    /// Both ends of the park-and-ride edge have two or more modifiable
    /// park-and-ride edges.
    ParkAndRideNotDeletable,
    /// An end of the edge that is to become park-and-ride is no node.
    ParkAndRideNodeMissing(MapError),
    /// Neither end of the edge is a parking spot or has a park-and-ride edge.
    ParkAndRideNotPlaceable { node_one: NodeID, node_two: NodeID },
    /// The sender stands nowhere, so the input cannot be judged.
    PositionUnknown,
    /// The movement names no node.
    NoNodeForMovement,
    /// No edge leaves this node.
    NoEdgesFrom(NodeID),
    /// The sender drives a bus and no park-and-ride edge leads to this node.
    NotParkAndRideNeighbour(NodeID),
    /// An end of the move is no node of the map.
    MovementNodeMissing(MapError),
    /// The move needs the railway, or must not use it, and the edges to this
    /// node do not fit.
    NotRailNeighbour(NodeID),
    /// The first node is no neighbour of the second.
    NotNeighbourOf { to: NodeID, from: NodeID },
    /// The street to this node is one-way in the other direction.
    OneWayOpposite(NodeID),
    /// The edge is restricted and this player has no objective card.
    NoObjectiveCardForZone(PlayerID),
    /// This player's card does not open the restricted edge to the node.
    NoAccessToEdge { player: PlayerID, restriction: RestrictionType, to: NodeID },
    /// A park-and-ride edge leads to the target and the sender drives no bus.
    ParkAndRideEdge,
    /// The input does not say whether to switch bus mode on or off.
    NoBoolForToggle,
    /// The node the sender stands on is no node of the map.
    ToggleNodeMissing(MapError),
    /// The sender does not stand on a parking spot.
    NotOnParkingSpot,
}

/// Whether a rule lets an input pass, and why not.
#[derive(Clone, Copy, PartialEq, Eq, Debug, Structural)]
pub enum ValidationResponse {
    Valid,
    Invalid(Violation),
}

/// A refusal by the rule engine: the rule that refused, and its reason.
#[derive(Clone, Copy, PartialEq, Eq, Debug, Structural)]
pub struct Rejection {
    pub rule: RuleKind,
    pub reason: Violation,
}

impl Violation {
    /// The reason in words.
    pub open spec fn text(self) -> Seq<char> {
        match self {
            Violation::GameNotStarted => "The game has not started yet!"@,
            Violation::State(e) => e.text(),
            Violation::NoNodeForCost => "There was no node to get cost to!"@,
            Violation::NegativeMoves(moves) =>
                "The player does not have enough remaining moves! The player would have "@
                + decimal_text(moves as int) + " remaining moves!"@,
            Violation::NoObjectiveCard => "Error: Player does not have an objective card"@,
            Violation::NodeWithoutEdges(node) => "Error: Node with ID "@ + natural_text(
                node as nat,
            ) + " does not exist"@,
            Violation::NoValidPosition =>
                "Error: Player does not have a valid position and can therefore not move"@,
            Violation::NoRelatedNode =>
                "Error: Related node ID does not exist in player input and has to be set for player movement"@,
            Violation::NoSuchNeighbour =>
                "Error: There is no neighbouring node with the ID given"@,
            Violation::AccessModifierWithoutVehicle =>
                "Error: There was no vehicle for access modifier"@,
            Violation::DistrictAccessDenied =>
                "Invalid move: Player does not have required vehicle type to access this district."@,
            Violation::NoPosition => "The player does not have a position!"@,
            Violation::NoNodeToCheck => "There was node to check if it's a neighbour!"@,
            Violation::MapQuery(e) => e.text(),
            Violation::NotANeighbour(node) => "The node "@ + natural_text(node as nat)
                + " is not a neighbour of the player's position!"@,
            Violation::NotPlayersTurn => "It's not the current players turn"@,
            Violation::NotOrchestrator => "The player is not the orchestrator of the game!"@,
            Violation::NoEdgeModifier =>
                "There was no modifier on the edge modifier player input, and can therefore not check the input further!"@,
            Violation::NodeWithoutNeighbours(node) => "The node "@ + natural_text(node as nat)
                + " does not have neighbours and can therefore not have restrictions!"@,
            Violation::EdgeMissing { node_one, node_two } => "The node "@ + natural_text(
                node_one as nat,
            ) + " does not have a neighbour with id "@ + natural_text(node_two as nat) + "!"@,
            Violation::RestrictionNotDeletable { restriction, node_one, node_two } =>
                "A edge restriction "@ + restriction.name_text()
                + " already exists on the edge between node "@ + natural_text(
                node_one as nat,
            ) + " and node "@ + natural_text(node_two as nat)
                + " or is not modifiable! Modifiable: false"@,
            Violation::EdgeNotModifiable { node_one, node_two } => "The edge between node "@
                + natural_text(node_one as nat) + " and node "@ + natural_text(node_two as nat)
                + " or is not modifiable!"@,
            Violation::ParkAndRideNotDeletable =>
                "It's not possible to delete a park & ride edge that is connected to more than one other park & ride edge or the park & ride egde is not modifiable!"@,
            Violation::ParkAndRideNodeMissing(e) => e.text()
                + " and can therefore not check wether the park & ride can be placed here!"@,
            Violation::ParkAndRideNotPlaceable { node_one, node_two } =>
                "Cannot place park & ride on the edge between node with ids "@ + natural_text(
                node_one as nat,
            ) + " and "@ + natural_text(node_two as nat)
                + " because there is no adjacent parking spots or park and ride edges!"@,
            Violation::PositionUnknown =>
                "The player does not have a position and can therefore not check if it's a valid action!"@,
            Violation::NoNodeForMovement =>
                "There is no related node to the movement input. There needs to be a node if a players should move!"@,
            Violation::NoEdgesFrom(node) => "The node "@ + natural_text(node as nat)
                + " does not have neighbours and can therefore not have park and ride!"@,
            Violation::NotParkAndRideNeighbour(node) =>
                "The player cannot move here because the node (with id "@ + natural_text(
                node as nat,
            ) + ") is not a neighbouring node connected with a park & ride edge!"@,
            Violation::MovementNodeMissing(e) => e.text()
                + " And can therefore not check whether the player can move here!"@,
            Violation::NotRailNeighbour(node) =>
                "The player cannot move here because the node (with id "@ + natural_text(
                node as nat,
            ) + ") is not a neighbouring node connected through the railway!"@,
            Violation::NotNeighbourOf { to, from } => "The node "@ + natural_text(to as nat)
                + " is not a neighbour of the node "@ + natural_text(from as nat)
                + " and can therefore not be moved to!"@,
            Violation::OneWayOpposite(node) => "The player cannot move to node with id "@
                + natural_text(node as nat)
                + " because it's a one way street in the opposite direction!"@,
            Violation::NoObjectiveCardForZone(player) => "The player "@ + decimal_text(
                player as int,
            )
                + " does not have an objective card and we can therefore not check if the player has access to the given zone!"@,
            Violation::NoAccessToEdge { player, restriction, to } => "The player "@
                + decimal_text(player as int) + " does not have access to the edge "@
                + restriction.name_text() + " and can therefore not move to the node "@
                + natural_text(to as nat) + "!"@,
            Violation::ParkAndRideEdge =>
                "The player cannot move here because it's a park & ride edge!"@,
            Violation::NoBoolForToggle =>
                "Could not check if you can toggle bus because the related bool was not set. It's needed for so that we can know if you want to stop being a bus or change to a bus!"@,
            Violation::ToggleNodeMissing(e) => e.text()
                + " and can therefore not check wether the player can toggle bus!"@,
            Violation::NotOnParkingSpot =>
                "You cannot toggle bus if you are not on a parking spot!"@,
        }
    }

    /// The reason in words.
    pub fn message(&self) -> (s: String)
        ensures
            s@ == self.text(),
    {
        match self {
            Violation::GameNotStarted => String::from_str("The game has not started yet!"),
            Violation::State(e) => e.message(),
            Violation::NoNodeForCost => String::from_str("There was no node to get cost to!"),
            Violation::NegativeMoves(moves) => framed(
                "The player does not have enough remaining moves! The player would have ",
                decimal_string(*moves as i64).as_str(),
                " remaining moves!",
            ),
            Violation::NoObjectiveCard => String::from_str(
                "Error: Player does not have an objective card",
            ),
            Violation::NodeWithoutEdges(node) => framed(
                "Error: Node with ID ",
                natural_string(*node as u64).as_str(),
                " does not exist",
            ),
            Violation::NoValidPosition => String::from_str(
                "Error: Player does not have a valid position and can therefore not move",
            ),
            Violation::NoRelatedNode => String::from_str(
                "Error: Related node ID does not exist in player input and has to be set for player movement",
            ),
            Violation::NoSuchNeighbour => String::from_str(
                "Error: There is no neighbouring node with the ID given",
            ),
            Violation::AccessModifierWithoutVehicle => String::from_str(
                "Error: There was no vehicle for access modifier",
            ),
            Violation::DistrictAccessDenied => String::from_str(
                "Invalid move: Player does not have required vehicle type to access this district.",
            ),
            Violation::NoPosition => String::from_str("The player does not have a position!"),
            Violation::NoNodeToCheck => String::from_str(
                "There was node to check if it's a neighbour!",
            ),
            Violation::MapQuery(e) => e.message(),
            Violation::NotANeighbour(node) => framed(
                "The node ",
                natural_string(*node as u64).as_str(),
                " is not a neighbour of the player's position!",
            ),
            Violation::NotPlayersTurn => String::from_str("It's not the current players turn"),
            Violation::NotOrchestrator => String::from_str(
                "The player is not the orchestrator of the game!",
            ),
            Violation::NoEdgeModifier => String::from_str(
                "There was no modifier on the edge modifier player input, and can therefore not check the input further!",
            ),
            Violation::NodeWithoutNeighbours(node) => framed(
                "The node ",
                natural_string(*node as u64).as_str(),
                " does not have neighbours and can therefore not have restrictions!",
            ),
            Violation::EdgeMissing { node_one, node_two } => framed_pair(
                "The node ",
                natural_string(*node_one as u64).as_str(),
                " does not have a neighbour with id ",
                natural_string(*node_two as u64).as_str(),
                "!",
            ),
            Violation::RestrictionNotDeletable { restriction, node_one, node_two } => {
                let mut s = framed(
                    "A edge restriction ",
                    restriction.name(),
                    " already exists on the edge between node ",
                );
                s.append(natural_string(*node_one as u64).as_str());
                s.append(" and node ");
                s.append(natural_string(*node_two as u64).as_str());
                s.append(" or is not modifiable! Modifiable: false");
                s
            },
            Violation::EdgeNotModifiable { node_one, node_two } => framed_pair(
                "The edge between node ",
                natural_string(*node_one as u64).as_str(),
                " and node ",
                natural_string(*node_two as u64).as_str(),
                " or is not modifiable!",
            ),
            Violation::ParkAndRideNotDeletable => String::from_str(
                "It's not possible to delete a park & ride edge that is connected to more than one other park & ride edge or the park & ride egde is not modifiable!",
            ),
            Violation::ParkAndRideNodeMissing(e) => {
                let mut s = e.message();
                s.append(
                    " and can therefore not check wether the park & ride can be placed here!",
                );
                s
            },
            Violation::ParkAndRideNotPlaceable { node_one, node_two } => framed_pair(
                "Cannot place park & ride on the edge between node with ids ",
                natural_string(*node_one as u64).as_str(),
                " and ",
                natural_string(*node_two as u64).as_str(),
                " because there is no adjacent parking spots or park and ride edges!",
            ),
            Violation::PositionUnknown => String::from_str(
                "The player does not have a position and can therefore not check if it's a valid action!",
            ),
            Violation::NoNodeForMovement => String::from_str(
                "There is no related node to the movement input. There needs to be a node if a players should move!",
            ),
            Violation::NoEdgesFrom(node) => framed(
                "The node ",
                natural_string(*node as u64).as_str(),
                " does not have neighbours and can therefore not have park and ride!",
            ),
            Violation::NotParkAndRideNeighbour(node) => framed(
                "The player cannot move here because the node (with id ",
                natural_string(*node as u64).as_str(),
                ") is not a neighbouring node connected with a park & ride edge!",
            ),
            Violation::MovementNodeMissing(e) => {
                let mut s = e.message();
                s.append(" And can therefore not check whether the player can move here!");
                s
            },
            Violation::NotRailNeighbour(node) => framed(
                "The player cannot move here because the node (with id ",
                natural_string(*node as u64).as_str(),
                ") is not a neighbouring node connected through the railway!",
            ),
            Violation::NotNeighbourOf { to, from } => framed_pair(
                "The node ",
                natural_string(*to as u64).as_str(),
                " is not a neighbour of the node ",
                natural_string(*from as u64).as_str(),
                " and can therefore not be moved to!",
            ),
            Violation::OneWayOpposite(node) => framed(
                "The player cannot move to node with id ",
                natural_string(*node as u64).as_str(),
                " because it's a one way street in the opposite direction!",
            ),
            Violation::NoObjectiveCardForZone(player) => framed(
                "The player ",
                decimal_string(*player as i64).as_str(),
                " does not have an objective card and we can therefore not check if the player has access to the given zone!",
            ),
            Violation::NoAccessToEdge { player, restriction, to } => {
                let mut s = framed_pair(
                    "The player ",
                    decimal_string(*player as i64).as_str(),
                    " does not have access to the edge ",
                    restriction.name(),
                    " and can therefore not move to the node ",
                );
                s.append(natural_string(*to as u64).as_str());
                s.append("!");
                s
            },
            Violation::ParkAndRideEdge => String::from_str(
                "The player cannot move here because it's a park & ride edge!",
            ),
            Violation::NoBoolForToggle => String::from_str(
                "Could not check if you can toggle bus because the related bool was not set. It's needed for so that we can know if you want to stop being a bus or change to a bus!",
            ),
            Violation::ToggleNodeMissing(e) => {
                let mut s = e.message();
                s.append(" and can therefore not check wether the player can toggle bus!");
                s
            },
            Violation::NotOnParkingSpot => String::from_str(
                "You cannot toggle bus if you are not on a parking spot!",
            ),
        }
    }
}

impl Rejection {
    /// The reason in words.
    pub fn message(&self) -> (s: String)
        ensures
            s@ == self.reason.text(),
    {
        self.reason.message()
    }
}

} // verus!
