//! The plain values that games are made of.
use vstd::prelude::*;

verus! {

/// Identity that the controller issues to a connected player.
pub type PlayerID = i32;

/// Identity of a game.
pub type GameID = i32;

/// Identity of a node of the map.
pub type NodeID = u8;

/// What crossing an edge costs.
pub type MovementCost = u32;

/// How many moves a player has left.
pub type MovementValue = i32;

/// Moves that a player is given when a turn starts.
pub const START_MOVEMENT_AMOUNT: MovementValue = 4;

/// Most access modifiers a game may hold at once.
pub const MAX_ACCESS_MODIFIER_COUNT: usize = 3;

/// Most priority modifiers a game may hold at once.
pub const MAX_PRIORITY_MODIFIER_COUNT: usize = 2;

/// Most toll modifiers a game may hold at once.
pub const MAX_TOLL_MODIFIER_COUNT: usize = 1;

/// Number of roles, and so the most players a game can hold.
pub const MAX_PLAYER_COUNT: usize = 7;

/// The role a player holds inside one game.
#[derive(Clone, Copy, PartialEq, Eq, Debug, Structural)]
pub enum InGameID {
    Orchestrator,
    PlayerOne,
    PlayerTwo,
    PlayerThree,
    PlayerFour,
    PlayerFive,
    PlayerSix,
}

impl InGameID {
    /// Place of the role in the fixed rotation, from 0.
    pub open spec fn rank(self) -> int {
        match self {
            InGameID::Orchestrator => 0,
            InGameID::PlayerOne => 1,
            InGameID::PlayerTwo => 2,
            InGameID::PlayerThree => 3,
            InGameID::PlayerFour => 4,
            InGameID::PlayerFive => 5,
            InGameID::PlayerSix => 6,
        }
    }

    /// The role at a place of the rotation; places wrap around after the last role.
    pub open spec fn at_rank(k: int) -> InGameID {
        let r = k % 7;
        if r == 0 {
            InGameID::Orchestrator
        } else if r == 1 {
            InGameID::PlayerOne
        } else if r == 2 {
            InGameID::PlayerTwo
        } else if r == 3 {
            InGameID::PlayerThree
        } else if r == 4 {
            InGameID::PlayerFour
        } else if r == 5 {
            InGameID::PlayerFive
        } else {
            InGameID::PlayerSix
        }
    }

    /// The role that follows this one in the rotation.
    pub open spec fn successor(self) -> InGameID {
        InGameID::at_rank(self.rank() + 1)
    }

    /// Place of the role in the fixed rotation, from 0.
    pub fn index(self) -> (k: u8)
        ensures
            k as int == self.rank(),
            k < 7,
    {
        match self {
            InGameID::Orchestrator => 0,
            InGameID::PlayerOne => 1,
            InGameID::PlayerTwo => 2,
            InGameID::PlayerThree => 3,
            InGameID::PlayerFour => 4,
            InGameID::PlayerFive => 5,
            InGameID::PlayerSix => 6,
        }
    }

    /// The role at a place of the rotation; places wrap around after the last role.
    pub fn from_index(k: u8) -> (role: InGameID)
        ensures
            role == InGameID::at_rank(k as int),
    {
        let r: u8 = k % 7;
        if r == 0 {
            InGameID::Orchestrator
        } else if r == 1 {
            InGameID::PlayerOne
        } else if r == 2 {
            InGameID::PlayerTwo
        } else if r == 3 {
            InGameID::PlayerThree
        } else if r == 4 {
            InGameID::PlayerFour
        } else if r == 5 {
            InGameID::PlayerFive
        } else {
            InGameID::PlayerSix
        }
    }

    /// The role that follows this one in the rotation.
    pub fn next(self) -> (role: InGameID)
        ensures
            role == self.successor(),
    {
        InGameID::from_index(self.index() + 1)
    }

    /// The role's name.
    pub open spec fn name_text(self) -> Seq<char> {
        match self {
            InGameID::Orchestrator => "Orchestrator"@,
            InGameID::PlayerOne => "PlayerOne"@,
            InGameID::PlayerTwo => "PlayerTwo"@,
            InGameID::PlayerThree => "PlayerThree"@,
            InGameID::PlayerFour => "PlayerFour"@,
            InGameID::PlayerFive => "PlayerFive"@,
            InGameID::PlayerSix => "PlayerSix"@,
        }
    }

    /// The role's name.
    pub fn name(self) -> (s: &'static str)
        ensures
            s@ == self.name_text(),
    {
        match self {
            InGameID::Orchestrator => "Orchestrator",
            InGameID::PlayerOne => "PlayerOne",
            InGameID::PlayerTwo => "PlayerTwo",
            InGameID::PlayerThree => "PlayerThree",
            InGameID::PlayerFour => "PlayerFour",
            InGameID::PlayerFive => "PlayerFive",
            InGameID::PlayerSix => "PlayerSix",
        }
    }
}

/// The kinds of input a player can submit. `All` is never submitted: a rule
/// bound to it governs every kind.
#[derive(Clone, Copy, PartialEq, Eq, Debug, Structural)]
pub enum PlayerInputType {
    Movement,
    ChangeRole,
    ModifyDistrict,
    ModifyEdgeRestrictions,
    NextTurn,
    UndoAction,
    SetPlayerBusBool,
    StartGame,
    LeaveGame,
    All,
}

impl PlayerInputType {
    /// The kind's name.
    pub open spec fn name_text(self) -> Seq<char> {
        match self {
            PlayerInputType::Movement => "Movement"@,
            PlayerInputType::ChangeRole => "ChangeRole"@,
            PlayerInputType::ModifyDistrict => "ModifyDistrict"@,
            PlayerInputType::ModifyEdgeRestrictions => "ModifyEdgeRestrictions"@,
            PlayerInputType::NextTurn => "NextTurn"@,
            PlayerInputType::UndoAction => "UndoAction"@,
            PlayerInputType::SetPlayerBusBool => "SetPlayerBusBool"@,
            PlayerInputType::StartGame => "StartGame"@,
            PlayerInputType::LeaveGame => "LeaveGame"@,
            PlayerInputType::All => "All"@,
        }
    }

    /// The kind's name.
    pub fn name(self) -> (s: &'static str)
        ensures
            s@ == self.name_text(),
    {
        match self {
            PlayerInputType::Movement => "Movement",
            PlayerInputType::ChangeRole => "ChangeRole",
            PlayerInputType::ModifyDistrict => "ModifyDistrict",
            PlayerInputType::ModifyEdgeRestrictions => "ModifyEdgeRestrictions",
            PlayerInputType::NextTurn => "NextTurn",
            PlayerInputType::UndoAction => "UndoAction",
            PlayerInputType::SetPlayerBusBool => "SetPlayerBusBool",
            PlayerInputType::StartGame => "StartGame",
            PlayerInputType::LeaveGame => "LeaveGame",
            PlayerInputType::All => "All",
        }
    }
}

/// The kinds of district modifier.
#[derive(Clone, Copy, PartialEq, Eq, Debug, Structural)]
pub enum DistrictModifierType {
    Access,
    Priority,
    Toll,
}

impl DistrictModifierType {
    /// Most modifiers of this kind a game may hold at once.
    pub open spec fn cap(self) -> int {
        match self {
            DistrictModifierType::Access => MAX_ACCESS_MODIFIER_COUNT as int,
            DistrictModifierType::Priority => MAX_PRIORITY_MODIFIER_COUNT as int,
            DistrictModifierType::Toll => MAX_TOLL_MODIFIER_COUNT as int,
        }
    }

    /// Most modifiers of this kind a game may hold at once.
    pub fn max_count(self) -> (n: usize)
        ensures
            n as int == self.cap(),
    {
        match self {
            DistrictModifierType::Access => MAX_ACCESS_MODIFIER_COUNT,
            DistrictModifierType::Priority => MAX_PRIORITY_MODIFIER_COUNT,
            DistrictModifierType::Toll => MAX_TOLL_MODIFIER_COUNT,
        }
    }

    /// The kind's name.
    pub open spec fn name_text(self) -> Seq<char> {
        match self {
            DistrictModifierType::Access => "Access"@,
            DistrictModifierType::Priority => "Priority"@,
            DistrictModifierType::Toll => "Toll"@,
        }
    }

    /// The kind's name.
    pub fn name(self) -> (s: &'static str)
        ensures
            s@ == self.name_text(),
    {
        match self {
            DistrictModifierType::Access => "Access",
            DistrictModifierType::Priority => "Priority",
            DistrictModifierType::Toll => "Toll",
        }
    }
}

/// What can restrict an edge or a district, and so also the kinds of
/// permission an objective card can grant.
#[derive(Clone, Copy, PartialEq, Eq, Debug, Structural)]
pub enum RestrictionType {
    ParkAndRide,
    OneWay,
    Destination,
    Electric,
    Emergency,
    Hazard,
    Heavy,
}

impl RestrictionType {
    /// The restriction's name.
    pub open spec fn name_text(self) -> Seq<char> {
        match self {
            RestrictionType::ParkAndRide => "ParkAndRide"@,
            RestrictionType::OneWay => "OneWay"@,
            RestrictionType::Destination => "Destination"@,
            RestrictionType::Electric => "Electric"@,
            RestrictionType::Emergency => "Emergency"@,
            RestrictionType::Hazard => "Hazard"@,
            RestrictionType::Heavy => "Heavy"@,
        }
    }

    /// The restriction's name.
    pub fn name(self) -> (s: &'static str)
        ensures
            s@ == self.name_text(),
    {
        match self {
            RestrictionType::ParkAndRide => "ParkAndRide",
            RestrictionType::OneWay => "OneWay",
            RestrictionType::Destination => "Destination",
            RestrictionType::Electric => "Electric",
            RestrictionType::Emergency => "Emergency",
            RestrictionType::Hazard => "Hazard",
            RestrictionType::Heavy => "Heavy",
        }
    }
}

/// The districts of the map.
#[derive(Clone, Copy, PartialEq, Eq, Debug, Structural)]
pub enum Neighbourhood {
    IndustryPark,
    Port,
    Suburbs,
    RingRoad,
    CityCentre,
    Airport,
}

/// A set of restriction types.
#[derive(Clone, Copy, PartialEq, Eq, Debug, Structural)]
pub struct RestrictionSet {
    pub park_and_ride: bool,
    pub one_way: bool,
    pub destination: bool,
    pub electric: bool,
    pub emergency: bool,
    pub hazard: bool,
    pub heavy: bool,
}

impl RestrictionSet {
    /// Membership.
    pub open spec fn has(self, restriction: RestrictionType) -> bool {
        match restriction {
            RestrictionType::ParkAndRide => self.park_and_ride,
            RestrictionType::OneWay => self.one_way,
            RestrictionType::Destination => self.destination,
            RestrictionType::Electric => self.electric,
            RestrictionType::Emergency => self.emergency,
            RestrictionType::Hazard => self.hazard,
            RestrictionType::Heavy => self.heavy,
        }
    }

    /// The set without members.
    pub fn empty() -> (set: RestrictionSet)
        ensures
            forall|r: RestrictionType| !set.has(r),
    {
        RestrictionSet {
            park_and_ride: false,
            one_way: false,
            destination: false,
            electric: false,
            emergency: false,
            hazard: false,
            heavy: false,
        }
    }

    /// The set with one more member.
    pub fn with(self, restriction: RestrictionType) -> (set: RestrictionSet)
        ensures
            forall|r: RestrictionType| set.has(r) == (r == restriction || self.has(r)),
    {
        let mut set = self;
        match restriction {
            RestrictionType::ParkAndRide => {
                set.park_and_ride = true;
            },
            RestrictionType::OneWay => {
                set.one_way = true;
            },
            RestrictionType::Destination => {
                set.destination = true;
            },
            RestrictionType::Electric => {
                set.electric = true;
            },
            RestrictionType::Emergency => {
                set.emergency = true;
            },
            RestrictionType::Hazard => {
                set.hazard = true;
            },
            RestrictionType::Heavy => {
                set.heavy = true;
            },
        }
        set
    }

    /// Membership.
    pub fn contains(&self, restriction: RestrictionType) -> (b: bool)
        ensures
            b == self.has(restriction),
    {
        match restriction {
            RestrictionType::ParkAndRide => self.park_and_ride,
            RestrictionType::OneWay => self.one_way,
            RestrictionType::Destination => self.destination,
            RestrictionType::Electric => self.electric,
            RestrictionType::Emergency => self.emergency,
            RestrictionType::Hazard => self.hazard,
            RestrictionType::Heavy => self.heavy,
        }
    }
}

/// The task a player has been dealt: where it leads, and which restricted
/// zones the player may enter because of it.
#[derive(Clone, Copy, PartialEq, Eq, Debug, Structural)]
pub struct ObjectiveCard {
    pub target_node_id: NodeID,
    pub special_vehicle_types: RestrictionSet,
}

/// One participant of a game.
#[derive(Clone, Copy, PartialEq, Eq, Debug, Structural)]
pub struct Player {
    pub unique_id: PlayerID,
    pub in_game_id: InGameID,
    pub position_node_id: Option<NodeID>,
    pub remaining_moves: MovementValue,
    pub is_bus: bool,
    pub objective_card: Option<ObjectiveCard>,
}

impl Player {
    /// A player as it connects: no position, no moves, no card.
    pub fn new(unique_id: PlayerID) -> (player: Player)
        ensures
            player == (Player {
                unique_id,
                in_game_id: InGameID::Orchestrator,
                position_node_id: None,
                remaining_moves: 0,
                is_bus: false,
                objective_card: None,
            }),
    {
        Player {
            unique_id,
            in_game_id: InGameID::Orchestrator,
            position_node_id: None,
            remaining_moves: 0,
            is_bus: false,
            objective_card: None,
        }
    }
}

/// A rule that the orchestrator lays on a district.
#[derive(Clone, Copy, PartialEq, Eq, Debug, Structural)]
pub struct DistrictModifier {
    pub district: Neighbourhood,
    pub modifier: DistrictModifierType,
    pub vehicle_type: Option<RestrictionType>,
    pub delete: bool,
}

/// A change of the restriction on the edge from `node_one` to `node_two`.
#[derive(Clone, Copy, PartialEq, Eq, Debug, Structural)]
pub struct EdgeRestriction {
    pub node_one: NodeID,
    pub node_two: NodeID,
    pub edge_restriction: RestrictionType,
    pub delete: bool,
}

/// What a player submits: the kind of input, who sends it, the game it is
/// for, and the payload that the kind needs.
#[derive(Clone, Copy, PartialEq, Eq, Debug, Structural)]
pub struct PlayerInput {
    pub player_id: PlayerID,
    pub game_id: GameID,
    pub input_type: PlayerInputType,
    pub related_role: Option<InGameID>,
    pub related_node_id: Option<NodeID>,
    pub district_modifier: Option<DistrictModifier>,
    pub edge_modifier: Option<EdgeRestriction>,
    pub related_bool: Option<bool>,
}

impl PlayerInput {
    /// An input of the given kind without payload.
    pub fn new(player_id: PlayerID, game_id: GameID, input_type: PlayerInputType) -> (input:
        PlayerInput)
        ensures
            input == (PlayerInput {
                player_id,
                game_id,
                input_type,
                related_role: None,
                related_node_id: None,
                district_modifier: None,
                edge_modifier: None,
                related_bool: None,
            }),
    {
        PlayerInput {
            player_id,
            game_id,
            input_type,
            related_role: None,
            related_node_id: None,
            district_modifier: None,
            edge_modifier: None,
            related_bool: None,
        }
    }
}

/// A node of the map.
#[derive(Clone, Copy, PartialEq, Eq, Debug, Structural)]
pub struct Node {
    pub id: NodeID,
    pub is_parking_spot: bool,
    pub is_connected_to_rail: bool,
}

/// A directed edge of the map, from `from` to `to`. `neighbourhood` is the
/// district that the edge leads into.
#[derive(Clone, Copy, PartialEq, Eq, Debug, Structural)]
pub struct NeighbourRelationship {
    pub from: NodeID,
    pub to: NodeID,
    pub neighbourhood: Neighbourhood,
    pub movement_cost: MovementCost,
    pub is_connected_through_rail: bool,
    pub is_modifiable: bool,
    pub restriction: Option<RestrictionType>,
}

} // verus!
