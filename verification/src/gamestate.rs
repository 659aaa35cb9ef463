//! The state of one game and the primitive changes that can be made to it.
//!
//! Every change is described twice: as a function on [`GameModel`], which says
//! what the state becomes, and as a method of [`GameState`], which is proved
//! to do exactly that. A change that fails leaves the state as it was.
use vstd::prelude::*;
use vstd::string::*;
use crate::search::{
    first_index, first_match, any_match, lemma_first_index_found, lemma_first_index_absent,
};
use crate::text::{natural_text, natural_string, decimal_text, decimal_string};
use crate::types::{
    GameID, PlayerID, NodeID, MovementValue, InGameID, Player, PlayerInput, DistrictModifier,
    DistrictModifierType, EdgeRestriction, Neighbourhood, NeighbourRelationship,
    START_MOVEMENT_AMOUNT,
};
use crate::node_map::{MapError, MapModel, NodeMap};
use crate::invariants::{
    lemma_joined_wf, lemma_role_change_wf, lemma_without_player_wf, lemma_moved_wf,
    lemma_with_bus_wf, lemma_turn_advanced_wf, lemma_started_wf, lemma_with_modifier_wf,
    lemma_fresh_wf,
};

verus! {

/// Why a change of a game's state failed.
#[derive(Clone, Copy, PartialEq, Eq, Debug, Structural)]
pub enum StateError {
    /// No player of the game has this identity.
    PlayerNotFound(PlayerID),
    /// A player with this identity is in the game already.
    AlreadyInGame(PlayerID),
    /// Every role of the game is taken.
    GameFull,
    /// Another player of the game holds this role.
    RoleTaken(InGameID),
    /// The player stands on no node.
    NoPosition(PlayerID),
    /// No edge leads from the player's node to the target.
    NotNeighbours { from: NodeID, to: NodeID },
    /// The edge costs more moves than the player has left.
    InsufficientMoves { cost: u32, remaining: MovementValue },
    /// No player of the game is the orchestrator.
    NoOrchestrator,
    /// More than one player of the game is the orchestrator.
    SeveralOrchestrators,
    /// The game has fewer than two players.
    NotEnoughPlayers,
    /// The game holds no modifier equal to the one to delete.
    ModifierNotFound,
    /// The game holds as many modifiers of this kind as it may.
    ModifierCapReached(DistrictModifierType),
    /// The map refused the change.
    Edge(MapError),
}

impl StateError {
    /// The reason in words.
    pub open spec fn text(self) -> Seq<char> {
        match self {
            StateError::PlayerNotFound(id) => "There is no player with the unique id "@
                + decimal_text(id as int) + " in the game!"@,
            StateError::AlreadyInGame(id) => "The player with the unique id "@ + decimal_text(
                id as int,
            ) + " is already in the game!"@,
            StateError::GameFull => "The game is full!"@,
            StateError::RoleTaken(role) => "The role "@ + role.name_text()
                + " is already taken by another player!"@,
            StateError::NoPosition(id) => "The player with the unique id "@ + decimal_text(
                id as int,
            ) + " does not have a position!"@,
            StateError::NotNeighbours { from, to } => "The node "@ + natural_text(to as nat)
                + " is not a neighbour of the node "@ + natural_text(from as nat) + "!"@,
            StateError::InsufficientMoves { cost, remaining } => "The move costs "@ + natural_text(
                cost as nat,
            ) + " but the player has only "@ + decimal_text(remaining as int)
                + " remaining moves!"@,
            StateError::NoOrchestrator =>
                "Unable to start game because lobby does not have an orchestrator"@,
            StateError::SeveralOrchestrators =>
                "Unable to start game because lobby has more than one orchestrator"@,
            StateError::NotEnoughPlayers =>
                "Unable to start game because there are not enough players"@,
            StateError::ModifierNotFound => "There is no modifier like the given one in the game!"@,
            StateError::ModifierCapReached(kind) => "Cannot add more modifiers of type "@
                + kind.name_text() + " because there are already "@ + natural_text(
                kind.cap() as nat,
            ) + " modifiers of that type!"@,
            StateError::Edge(e) => e.text(),
        }
    }

    /// The reason in words.
    pub fn message(&self) -> (s: String)
        ensures
            s@ == self.text(),
    {
        match self {
            StateError::PlayerNotFound(id) => {
                let mut s = String::from_str("There is no player with the unique id ");
                s.append(decimal_string(*id as i64).as_str());
                s.append(" in the game!");
                s
            },
            StateError::AlreadyInGame(id) => {
                let mut s = String::from_str("The player with the unique id ");
                s.append(decimal_string(*id as i64).as_str());
                s.append(" is already in the game!");
                s
            },
            StateError::GameFull => String::from_str("The game is full!"),
            StateError::RoleTaken(role) => {
                let mut s = String::from_str("The role ");
                s.append(role.name());
                s.append(" is already taken by another player!");
                s
            },
            StateError::NoPosition(id) => {
                let mut s = String::from_str("The player with the unique id ");
                s.append(decimal_string(*id as i64).as_str());
                s.append(" does not have a position!");
                s
            },
            StateError::NotNeighbours { from, to } => {
                let mut s = String::from_str("The node ");
                s.append(natural_string(*to as u64).as_str());
                s.append(" is not a neighbour of the node ");
                s.append(natural_string(*from as u64).as_str());
                s.append("!");
                s
            },
            StateError::InsufficientMoves { cost, remaining } => {
                let mut s = String::from_str("The move costs ");
                s.append(natural_string(*cost as u64).as_str());
                s.append(" but the player has only ");
                s.append(decimal_string(*remaining as i64).as_str());
                s.append(" remaining moves!");
                s
            },
            StateError::NoOrchestrator => String::from_str(
                "Unable to start game because lobby does not have an orchestrator",
            ),
            StateError::SeveralOrchestrators => String::from_str(
                "Unable to start game because lobby has more than one orchestrator",
            ),
            StateError::NotEnoughPlayers => String::from_str(
                "Unable to start game because there are not enough players",
            ),
            StateError::ModifierNotFound => String::from_str(
                "There is no modifier like the given one in the game!",
            ),
            StateError::ModifierCapReached(kind) => {
                let mut s = String::from_str("Cannot add more modifiers of type ");
                s.append(kind.name());
                s.append(" because there are already ");
                s.append(natural_string(kind.max_count() as u64).as_str());
                s.append(" modifiers of that type!");
                s
            },
            StateError::Edge(e) => e.message(),
        }
    }
}

/// One game: who plays, whose turn it is, what the orchestrator has laid on
/// the districts, the map, and the inputs staged since the last turn change.
#[derive(Debug, PartialEq, Eq)]
pub struct GameState {
    pub id: GameID,
    pub name: String,
    pub is_lobby: bool,
    pub players: Vec<Player>,
    pub current_players_turn: InGameID,
    pub district_modifiers: Vec<DistrictModifier>,
    pub actions: Vec<PlayerInput>,
    pub map: NodeMap,
}

/// A game as plain mathematical values.
pub struct GameModel {
    pub id: GameID,
    pub name: Seq<char>,
    pub is_lobby: bool,
    pub players: Seq<Player>,
    pub current_players_turn: InGameID,
    pub district_modifiers: Seq<DistrictModifier>,
    pub actions: Seq<PlayerInput>,
    pub map: MapModel,
}

/// Players with the given identity.
pub open spec fn with_unique_id(id: PlayerID) -> spec_fn(Player) -> bool {
    |p: Player| p.unique_id == id
}

/// Players that hold the given role.
pub open spec fn with_role(role: InGameID) -> spec_fn(Player) -> bool {
    |p: Player| p.in_game_id == role
}

/// Players other than `id` that hold the given role.
pub open spec fn rival_with_role(id: PlayerID, role: InGameID) -> spec_fn(Player) -> bool {
    |p: Player| p.in_game_id == role && p.unique_id != id
}

/// Roles that none of the players holds.
pub open spec fn free_among(players: Seq<Player>) -> spec_fn(InGameID) -> bool {
    |role: InGameID| !any_match(players, with_role(role))
}

/// The roles in the order in which they are handed out and take turns.
pub open spec fn all_roles() -> Seq<InGameID> {
    Seq::new(7, |k: int| InGameID::at_rank(k))
}

/// Modifiers of the given kind.
pub open spec fn of_kind(kind: DistrictModifierType) -> spec_fn(DistrictModifier) -> bool {
    |m: DistrictModifier| m.modifier == kind
}

/// Modifiers equal to the given one.
pub open spec fn same_modifier(wanted: DistrictModifier) -> spec_fn(DistrictModifier) -> bool {
    |m: DistrictModifier| m == wanted
}

/// Edges that arrive at `node` and lead into `district`.
pub open spec fn entering(node: NodeID, district: Neighbourhood) -> spec_fn(
    NeighbourRelationship,
) -> bool {
    |e: NeighbourRelationship| e.to == node && e.neighbourhood == district
}

/// A player as it enters a game: with the role it is given and without moves;
/// without a position too while the game is a lobby.
pub open spec fn seated(player: Player, role: InGameID, is_lobby: bool) -> Player {
    Player {
        in_game_id: role,
        remaining_moves: 0,
        position_node_id: if is_lobby {
            None
        } else {
            player.position_node_id
        },
        ..player
    }
}

/// A player with its moves for a new turn.
pub open spec fn refreshed(player: Player) -> Player {
    Player { remaining_moves: START_MOVEMENT_AMOUNT, ..player }
}

/// Gives the holders of `role` their moves for a new turn.
pub open spec fn refresh_role(role: InGameID) -> spec_fn(Player) -> Player {
    |p: Player| if p.in_game_id == role { refreshed(p) } else { p }
}

/// Gives every player its moves for a new turn.
pub open spec fn refresh_all() -> spec_fn(Player) -> Player {
    |p: Player| refreshed(p)
}

/// Whether the player's objective lies in the district: whether an edge of
/// the map arrives at the card's target node and leads into that district.
pub open spec fn objective_in_district(
    map: MapModel,
    player: Player,
    district: Neighbourhood,
) -> bool {
    match player.objective_card {
        None => false,
        Some(card) => any_match(map.edges, entering(card.target_node_id, district)),
    }
}

impl GameModel {
    /// Position of the first player with the given identity.
    pub open spec fn player_index(self, id: PlayerID) -> Option<int> {
        first_index(self.players, with_unique_id(id))
    }

    /// The first player with the given identity.
    pub open spec fn player(self, id: PlayerID) -> Option<Player> {
        first_match(self.players, with_unique_id(id))
    }

    /// Whether a player with the given identity is in the game.
    pub open spec fn contains_player(self, id: PlayerID) -> bool {
        any_match(self.players, with_unique_id(id))
    }

    /// Whether a player holds the given role.
    pub open spec fn role_taken(self, role: InGameID) -> bool {
        any_match(self.players, with_role(role))
    }

    /// The first role, in the order of [`all_roles`], that no player holds.
    pub open spec fn first_free_role(self) -> Option<InGameID> {
        first_match(all_roles(), free_among(self.players))
    }

    /// The game with the player at `i` replaced.
    pub open spec fn with_player(self, i: int, player: Player) -> GameModel {
        GameModel { players: self.players.update(i, player), ..self }
    }

    /// A game that has just been created.
    pub open spec fn fresh(id: GameID, name: Seq<char>, map: MapModel) -> GameModel {
        GameModel {
            id,
            name,
            is_lobby: true,
            players: Seq::empty(),
            current_players_turn: InGameID::Orchestrator,
            district_modifiers: Seq::empty(),
            actions: Seq::empty(),
            map,
        }
    }

    /// The game after a player has entered it. The player is given the first
    /// free role and comes last. Fails where the identity is in the game
    /// already or no role is free.
    pub open spec fn joined(self, player: Player) -> Result<GameModel, StateError> {
        if self.contains_player(player.unique_id) {
            Err(StateError::AlreadyInGame(player.unique_id))
        } else {
            match self.first_free_role() {
                None => Err(StateError::GameFull),
                Some(role) => Ok(
                    GameModel {
                        players: self.players.push(seated(player, role, self.is_lobby)),
                        ..self
                    },
                ),
            }
        }
    }

    /// The game after a player has taken a role. Fails where the player is not
    /// in the game or another player holds the role.
    pub open spec fn with_role_change(self, id: PlayerID, role: InGameID) -> Result<
        GameModel,
        StateError,
    > {
        match self.player_index(id) {
            None => Err(StateError::PlayerNotFound(id)),
            Some(i) => if any_match(self.players, rival_with_role(id, role)) {
                Err(StateError::RoleTaken(role))
            } else {
                Ok(self.with_player(i, Player { in_game_id: role, ..self.players[i] }))
            },
        }
    }

    /// The game without the first player of the given identity.
    pub open spec fn without_player(self, id: PlayerID) -> GameModel {
        match self.player_index(id) {
            None => self,
            Some(i) => GameModel { players: self.players.remove(i), ..self },
        }
    }

    /// The game after a player has moved along the first edge from its node
    /// to `to`: the player stands on `to` and has paid the edge's cost. Fails
    /// where the player is not in the game, stands nowhere, no such edge
    /// exists, or the edge costs more than the player has left.
    pub open spec fn moved(self, id: PlayerID, to: NodeID) -> Result<GameModel, StateError> {
        match self.player_index(id) {
            None => Err(StateError::PlayerNotFound(id)),
            Some(i) => match self.players[i].position_node_id {
                None => Err(StateError::NoPosition(id)),
                Some(from) => match self.map.edge(from, to) {
                    None => Err(StateError::NotNeighbours { from, to }),
                    Some(edge) => if edge.movement_cost > self.players[i].remaining_moves {
                        Err(
                            StateError::InsufficientMoves {
                                cost: edge.movement_cost,
                                remaining: self.players[i].remaining_moves,
                            },
                        )
                    } else {
                        Ok(
                            self.with_player(
                                i,
                                Player {
                                    position_node_id: Some(to),
                                    remaining_moves: (self.players[i].remaining_moves
                                        - edge.movement_cost) as MovementValue,
                                    ..self.players[i]
                                },
                            ),
                        )
                    },
                },
            },
        }
    }

    /// The game after a player has set its bus mode.
    pub open spec fn with_bus(self, id: PlayerID, is_bus: bool) -> Result<GameModel, StateError> {
        match self.player_index(id) {
            None => Err(StateError::PlayerNotFound(id)),
            Some(i) => Ok(self.with_player(i, Player { is_bus, ..self.players[i] })),
        }
    }

    /// Looks for a taken role along the rotation, from `candidate` on, for at
    /// most `budget` roles; the current role where none is found.
    pub open spec fn seek_turn(self, candidate: InGameID, budget: nat) -> InGameID
        decreases budget,
    {
        if budget == 0 {
            self.current_players_turn
        } else if self.role_taken(candidate) {
            candidate
        } else {
            self.seek_turn(candidate.successor(), (budget - 1) as nat)
        }
    }

    /// The role whose turn comes next: the first taken role after the current
    /// one in the rotation, which may be the current one again.
    pub open spec fn next_turn_role(self) -> InGameID {
        self.seek_turn(self.current_players_turn.successor(), 7)
    }

    /// The game at the start of the next turn: the turn has passed on, and the
    /// holder of the new turn has its moves for it.
    pub open spec fn turn_advanced(self) -> GameModel {
        GameModel {
            current_players_turn: self.next_turn_role(),
            players: self.players.map_values(refresh_role(self.next_turn_role())),
            ..self
        }
    }

    /// How many players hold the given role.
    pub open spec fn role_count(self, role: InGameID) -> nat {
        self.players.filter(with_role(role)).len()
    }

    /// The game after it has started: no lobby any more, and every player has
    /// its moves for a turn. Fails where the players that are orchestrator
    /// are not exactly one, or fewer than two players are present.
    pub open spec fn started(self) -> Result<GameModel, StateError> {
        if self.role_count(InGameID::Orchestrator) == 0 {
            Err(StateError::NoOrchestrator)
        } else if self.role_count(InGameID::Orchestrator) > 1 {
            Err(StateError::SeveralOrchestrators)
        } else if self.players.len() < 2 {
            Err(StateError::NotEnoughPlayers)
        } else {
            Ok(
                GameModel {
                    is_lobby: false,
                    players: self.players.map_values(refresh_all()),
                    ..self
                },
            )
        }
    }

    /// How many modifiers of a kind the game holds.
    pub open spec fn modifier_count(self, kind: DistrictModifierType) -> nat {
        self.district_modifiers.filter(of_kind(kind)).len()
    }

    /// The game after a district modifier has been laid or lifted. One marked
    /// `delete` lifts the first modifier that equals it but for the mark, and
    /// fails where there is none. Any other is added last, and fails where the
    /// game holds as many of its kind as it may.
    pub open spec fn with_modifier(self, modifier: DistrictModifier) -> Result<
        GameModel,
        StateError,
    > {
        if modifier.delete {
            match first_index(
                self.district_modifiers,
                same_modifier(DistrictModifier { delete: false, ..modifier }),
            ) {
                None => Err(StateError::ModifierNotFound),
                Some(i) => Ok(
                    GameModel { district_modifiers: self.district_modifiers.remove(i), ..self },
                ),
            }
        } else if self.modifier_count(modifier.modifier) >= modifier.modifier.cap() {
            Err(StateError::ModifierCapReached(modifier.modifier))
        } else {
            Ok(GameModel { district_modifiers: self.district_modifiers.push(modifier), ..self })
        }
    }

    /// The game after a change of an edge's restriction.
    pub open spec fn with_edge_restriction(self, change: EdgeRestriction) -> Result<
        GameModel,
        StateError,
    > {
        match self.map.with_restriction(change) {
            Ok(map) => Ok(GameModel { map, ..self }),
            Err(e) => Err(StateError::Edge(e)),
        }
    }
}

/// What a change that may fail leaves behind: the new state and `Ok` where the
/// model succeeds, the model's error and the old state where it fails.
pub open spec fn committed<E>(
    outcome: Result<GameModel, E>,
    before: GameModel,
    after: GameModel,
    done: Result<(), E>,
) -> bool {
    match outcome {
        Ok(state) => done is Ok && after == state,
        Err(e) => done == Err::<(), E>(e) && after == before,
    }
}

impl View for GameState {
    type V = GameModel;

    open spec fn view(&self) -> GameModel {
        GameModel {
            id: self.id,
            name: self.name@,
            is_lobby: self.is_lobby,
            players: self.players@,
            current_players_turn: self.current_players_turn,
            district_modifiers: self.district_modifiers@,
            actions: self.actions@,
            map: self.map@,
        }
    }
}

impl Clone for GameState {
    fn clone(&self) -> (copy: Self)
        ensures
            copy@ == self@,
    {
        GameState {
            id: self.id,
            name: self.name.clone(),
            is_lobby: self.is_lobby,
            players: self.players.clone(),
            current_players_turn: self.current_players_turn,
            district_modifiers: self.district_modifiers.clone(),
            actions: self.actions.clone(),
            map: self.map.clone(),
        }
    }
}

impl GameState {
    /// A new lobby without players.
    pub fn new(name: String, id: GameID, map: NodeMap) -> (game: GameState)
        ensures
            game@ == GameModel::fresh(id, name@, map@),
            game@.wf(),
    {
        proof {
            lemma_fresh_wf(GameModel::fresh(id, name@, map@));
        }
        GameState {
            id,
            name,
            is_lobby: true,
            players: Vec::new(),
            current_players_turn: InGameID::Orchestrator,
            district_modifiers: Vec::new(),
            actions: Vec::new(),
            map,
        }
    }

    /// Moves that a player is given when a turn starts.
    pub fn get_starting_player_movement_value() -> (moves: MovementValue)
        ensures
            moves == START_MOVEMENT_AMOUNT,
    {
        START_MOVEMENT_AMOUNT
    }

    /// Position of the first player with the given identity.
    pub fn find_player_index(&self, id: PlayerID) -> (found: Option<usize>)
        ensures
            match found {
                Some(i) => self@.player_index(id) == Some(i as int) && i < self.players.len(),
                None => self@.player_index(id) is None,
            },
    {
        let mut i: usize = 0;
        while i < self.players.len()
            invariant
                i <= self.players.len(),
                forall|j: int| 0 <= j < i ==> !with_unique_id(id)(#[trigger] self.players@[j]),
            decreases self.players.len() - i,
        {
            if self.players[i].unique_id == id {
                proof {
                    lemma_first_index_found(self.players@, with_unique_id(id), i as int);
                }
                return Some(i);
            }
            i += 1;
        }
        proof {
            lemma_first_index_absent(self.players@, with_unique_id(id));
        }
        None
    }

    /// The first player with the given identity.
    pub fn get_player_with_unique_id(&self, id: PlayerID) -> (found: Result<Player, StateError>)
        ensures
            found == match self@.player(id) {
                Some(player) => Ok::<Player, StateError>(player),
                None => Err(StateError::PlayerNotFound(id)),
            },
    {
        match self.find_player_index(id) {
            Some(i) => Ok(self.players[i]),
            None => Err(StateError::PlayerNotFound(id)),
        }
    }

    /// Whether a player with the given identity is in the game.
    pub fn contains_player_with_unique_id(&self, id: PlayerID) -> (found: bool)
        ensures
            found == self@.contains_player(id),
    {
        self.find_player_index(id).is_some()
    }

    /// Whether a player holds the given role.
    pub fn is_role_taken(&self, role: InGameID) -> (taken: bool)
        ensures
            taken == self@.role_taken(role),
    {
        let mut i: usize = 0;
        while i < self.players.len()
            invariant
                i <= self.players.len(),
                forall|j: int| 0 <= j < i ==> !with_role(role)(#[trigger] self.players@[j]),
            decreases self.players.len() - i,
        {
            if self.players[i].in_game_id == role {
                proof {
                    lemma_first_index_found(self.players@, with_role(role), i as int);
                }
                return true;
            }
            i += 1;
        }
        proof {
            lemma_first_index_absent(self.players@, with_role(role));
        }
        false
    }

    /// Whether a player other than `id` holds the given role.
    pub fn is_role_taken_by_other(&self, id: PlayerID, role: InGameID) -> (taken: bool)
        ensures
            taken == any_match(self@.players, rival_with_role(id, role)),
    {
        let mut i: usize = 0;
        while i < self.players.len()
            invariant
                i <= self.players.len(),
                forall|j: int|
                    0 <= j < i ==> !rival_with_role(id, role)(#[trigger] self.players@[j]),
            decreases self.players.len() - i,
        {
            if self.players[i].in_game_id == role && self.players[i].unique_id != id {
                proof {
                    lemma_first_index_found(self.players@, rival_with_role(id, role), i as int);
                }
                return true;
            }
            i += 1;
        }
        proof {
            lemma_first_index_absent(self.players@, rival_with_role(id, role));
        }
        false
    }

    /// The first role, in the order of the rotation, that no player holds.
    pub fn get_first_free_role(&self) -> (role: Option<InGameID>)
        ensures
            role == self@.first_free_role(),
    {
        let mut k: u8 = 0;
        while k < 7
            invariant
                k <= 7,
                forall|j: int| 0 <= j < k ==> !free_among(self.players@)(#[trigger] all_roles()[j]),
            decreases 7 - k,
        {
            let candidate = InGameID::from_index(k);
            assert(candidate == all_roles()[k as int]);
            if !self.is_role_taken(candidate) {
                proof {
                    lemma_first_index_found(all_roles(), free_among(self.players@), k as int);
                }
                return Some(candidate);
            }
            k += 1;
        }
        proof {
            lemma_first_index_absent(all_roles(), free_among(self.players@));
        }
        None
    }

    /// Lets a player enter the game: it is given the first free role and comes
    /// last. Fails, and changes nothing, where the identity is in the game
    /// already or no role is free.
    pub fn assign_player_to_game(&mut self, player: Player) -> (done: Result<(), StateError>)
        ensures
            committed(old(self)@.joined(player), old(self)@, final(self)@, done),
            old(self)@.wf() ==> final(self)@.wf(),
    {
        proof {
            if self@.wf() {
                lemma_joined_wf(self@, player);
            }
        }
        if self.contains_player_with_unique_id(player.unique_id) {
            return Err(StateError::AlreadyInGame(player.unique_id));
        }
        match self.get_first_free_role() {
            None => Err(StateError::GameFull),
            Some(role) => {
                let mut entrant = player;
                entrant.in_game_id = role;
                entrant.remaining_moves = 0;
                if self.is_lobby {
                    entrant.position_node_id = None;
                }
                self.players.push(entrant);
                Ok(())
            },
        }
    }

    /// Gives a player a role. Fails, and changes nothing, where the player is
    /// not in the game or another player holds the role.
    pub fn assign_player_role(&mut self, id: PlayerID, role: InGameID) -> (done: Result<
        (),
        StateError,
    >)
        ensures
            committed(old(self)@.with_role_change(id, role), old(self)@, final(self)@, done),
            old(self)@.wf() ==> final(self)@.wf(),
    {
        proof {
            if self@.wf() {
                lemma_role_change_wf(self@, id, role);
            }
        }
        match self.find_player_index(id) {
            None => Err(StateError::PlayerNotFound(id)),
            Some(i) => {
                if self.is_role_taken_by_other(id, role) {
                    return Err(StateError::RoleTaken(role));
                }
                let mut player = self.players[i];
                player.in_game_id = role;
                self.players.set(i, player);
                Ok(())
            },
        }
    }

    /// Takes the first player of the given identity out of the game.
    pub fn remove_player_with_id(&mut self, id: PlayerID)
        ensures
            final(self)@ == old(self)@.without_player(id),
            old(self)@.wf() ==> final(self)@.wf(),
    {
        proof {
            if self@.wf() {
                lemma_without_player_wf(self@, id);
            }
        }
        match self.find_player_index(id) {
            None => {},
            Some(i) => {
                self.players.remove(i);
            },
        }
    }

    /// Moves a player along the first edge from its node to `to` and takes the
    /// edge's cost from its remaining moves. Fails, and changes nothing, where
    /// the player is not in the game, stands nowhere, no such edge exists, or
    /// the edge costs more than the player has left.
    pub fn move_player_with_id(&mut self, id: PlayerID, to: NodeID) -> (done: Result<
        (),
        StateError,
    >)
        ensures
            committed(old(self)@.moved(id, to), old(self)@, final(self)@, done),
            old(self)@.wf() ==> final(self)@.wf(),
    {
        proof {
            if self@.wf() {
                lemma_moved_wf(self@, id, to);
            }
        }
        let i = match self.find_player_index(id) {
            None => {
                return Err(StateError::PlayerNotFound(id));
            },
            Some(i) => i,
        };
        let mut player = self.players[i];
        let from = match player.position_node_id {
            None => {
                return Err(StateError::NoPosition(id));
            },
            Some(from) => from,
        };
        let edge = match self.map.get_edge(from, to) {
            None => {
                return Err(StateError::NotNeighbours { from, to });
            },
            Some(edge) => edge,
        };
        if edge.movement_cost as i64 > player.remaining_moves as i64 {
            return Err(
                StateError::InsufficientMoves {
                    cost: edge.movement_cost,
                    remaining: player.remaining_moves,
                },
            );
        }
        player.position_node_id = Some(to);
        player.remaining_moves = player.remaining_moves - (edge.movement_cost as i32);
        self.players.set(i, player);
        Ok(())
    }

    /// Sets a player's bus mode. Fails, and changes nothing, where the player
    /// is not in the game.
    pub fn set_player_bus(&mut self, id: PlayerID, is_bus: bool) -> (done: Result<(), StateError>)
        ensures
            committed(old(self)@.with_bus(id, is_bus), old(self)@, final(self)@, done),
            old(self)@.wf() ==> final(self)@.wf(),
    {
        proof {
            if self@.wf() {
                lemma_with_bus_wf(self@, id, is_bus);
            }
        }
        match self.find_player_index(id) {
            None => Err(StateError::PlayerNotFound(id)),
            Some(i) => {
                let mut player = self.players[i];
                player.is_bus = is_bus;
                self.players.set(i, player);
                Ok(())
            },
        }
    }

    /// The role whose turn comes next.
    pub fn get_next_turn_role(&self) -> (role: InGameID)
        ensures
            role == self@.next_turn_role(),
    {
        let mut candidate = self.current_players_turn.next();
        let mut budget: u8 = 7;
        while budget > 0
            invariant
                self@.next_turn_role() == self@.seek_turn(candidate, budget as nat),
            decreases budget,
        {
            if self.is_role_taken(candidate) {
                return candidate;
            }
            candidate = candidate.next();
            budget -= 1;
        }
        self.current_players_turn
    }

    /// Passes the turn on to the next taken role of the rotation and gives
    /// its holder the moves for the turn.
    pub fn next_player_turn(&mut self)
        ensures
            final(self)@ == old(self)@.turn_advanced(),
            old(self)@.wf() ==> final(self)@.wf(),
    {
        proof {
            if self@.wf() {
                lemma_turn_advanced_wf(self@);
            }
        }
        let role = self.get_next_turn_role();
        self.current_players_turn = role;
        let mut i: usize = 0;
        while i < self.players.len()
            invariant
                i <= self.players.len(),
                self.players.len() == old(self).players.len(),
                forall|j: int|
                    0 <= j < i ==> self.players@[j] == refresh_role(role)(old(self).players@[j]),
                forall|j: int| i <= j < self.players.len() ==> self.players@[j] == old(
                    self,
                ).players@[j],
                self.id == old(self).id,
                self.name == old(self).name,
                self.is_lobby == old(self).is_lobby,
                self.current_players_turn == role,
                self.district_modifiers == old(self).district_modifiers,
                self.actions == old(self).actions,
                self.map == old(self).map,
            decreases self.players.len() - i,
        {
            let mut player = self.players[i];
            if player.in_game_id == role {
                player.remaining_moves = START_MOVEMENT_AMOUNT;
                self.players.set(i, player);
            }
            i += 1;
        }
        assert(self.players@ =~= old(self).players@.map_values(refresh_role(role)));
    }

    /// How many players hold the given role.
    pub fn count_role(&self, role: InGameID) -> (count: usize)
        ensures
            count == self@.role_count(role),
    {
        let mut count: usize = 0;
        let mut i: usize = 0;
        proof {
            reveal(Seq::filter);
            assert(self.players@.take(0).filter(with_role(role)) =~= Seq::empty());
        }
        while i < self.players.len()
            invariant
                i <= self.players.len(),
                count <= i,
                count == self.players@.take(i as int).filter(with_role(role)).len(),
            decreases self.players.len() - i,
        {
            let player = self.players[i];
            proof {
                reveal(Seq::filter);
                let longer = self.players@.take(i as int + 1);
                assert(longer.drop_last() =~= self.players@.take(i as int));
                assert(longer.last() == player);
            }
            if player.in_game_id == role {
                count += 1;
            }
            i += 1;
        }
        proof {
            assert(self.players@.take(i as int) =~= self.players@);
        }
        count
    }

    /// Starts the game: it is no lobby any more, and every player has its
    /// moves for a turn. Fails, and changes nothing, where the players that
    /// are orchestrator are not exactly one, or fewer than two players are
    /// present.
    pub fn start(&mut self) -> (done: Result<(), StateError>)
        ensures
            committed(old(self)@.started(), old(self)@, final(self)@, done),
            old(self)@.wf() ==> final(self)@.wf(),
    {
        proof {
            if self@.wf() {
                lemma_started_wf(self@);
            }
        }
        let orchestrators = self.count_role(InGameID::Orchestrator);
        if orchestrators == 0 {
            return Err(StateError::NoOrchestrator);
        }
        if orchestrators > 1 {
            return Err(StateError::SeveralOrchestrators);
        }
        if self.players.len() < 2 {
            return Err(StateError::NotEnoughPlayers);
        }
        self.is_lobby = false;
        let mut i: usize = 0;
        while i < self.players.len()
            invariant
                i <= self.players.len(),
                self.players.len() == old(self).players.len(),
                forall|j: int| 0 <= j < i ==> self.players@[j] == refreshed(old(self).players@[j]),
                forall|j: int| i <= j < self.players.len() ==> self.players@[j] == old(
                    self,
                ).players@[j],
                self.id == old(self).id,
                self.name == old(self).name,
                !self.is_lobby,
                self.current_players_turn == old(self).current_players_turn,
                self.district_modifiers == old(self).district_modifiers,
                self.actions == old(self).actions,
                self.map == old(self).map,
            decreases self.players.len() - i,
        {
            let mut player = self.players[i];
            player.remaining_moves = START_MOVEMENT_AMOUNT;
            self.players.set(i, player);
            i += 1;
        }
        assert(self.players@ =~= old(self).players@.map_values(refresh_all()));
        Ok(())
    }

    /// How many modifiers of a kind the game holds.
    pub fn count_modifiers(&self, kind: DistrictModifierType) -> (count: usize)
        ensures
            count == self@.modifier_count(kind),
    {
        let mut count: usize = 0;
        let mut i: usize = 0;
        proof {
            reveal(Seq::filter);
            assert(self.district_modifiers@.take(0).filter(of_kind(kind)) =~= Seq::empty());
        }
        while i < self.district_modifiers.len()
            invariant
                i <= self.district_modifiers.len(),
                count <= i,
                count == self.district_modifiers@.take(i as int).filter(of_kind(kind)).len(),
            decreases self.district_modifiers.len() - i,
        {
            let m = self.district_modifiers[i];
            proof {
                reveal(Seq::filter);
                let longer = self.district_modifiers@.take(i as int + 1);
                assert(longer.drop_last() =~= self.district_modifiers@.take(i as int));
                assert(longer.last() == m);
            }
            if m.modifier == kind {
                count += 1;
            }
            i += 1;
        }
        proof {
            assert(self.district_modifiers@.take(i as int) =~= self.district_modifiers@);
        }
        count
    }

    /// Position of the first modifier equal to the given one.
    pub fn find_modifier(&self, wanted: DistrictModifier) -> (found: Option<usize>)
        ensures
            match found {
                Some(i) => first_index(self@.district_modifiers, same_modifier(wanted)) == Some(
                    i as int,
                ) && i < self.district_modifiers.len(),
                None => first_index(self@.district_modifiers, same_modifier(wanted)) is None,
            },
    {
        let mut i: usize = 0;
        while i < self.district_modifiers.len()
            invariant
                i <= self.district_modifiers.len(),
                forall|j: int|
                    0 <= j < i ==> !same_modifier(wanted)(#[trigger] self.district_modifiers@[j]),
            decreases self.district_modifiers.len() - i,
        {
            if self.district_modifiers[i] == wanted {
                proof {
                    lemma_first_index_found(
                        self.district_modifiers@,
                        same_modifier(wanted),
                        i as int,
                    );
                }
                return Some(i);
            }
            i += 1;
        }
        proof {
            lemma_first_index_absent(self.district_modifiers@, same_modifier(wanted));
        }
        None
    }

    /// Lays or lifts a district modifier. One marked `delete` lifts the first
    /// modifier that equals it but for the mark; any other is added last.
    /// Fails, and changes nothing, where there is nothing to lift or the game
    /// holds as many modifiers of the kind as it may.
    pub fn apply_district_modifier(&mut self, modifier: DistrictModifier) -> (done: Result<
        (),
        StateError,
    >)
        ensures
            committed(old(self)@.with_modifier(modifier), old(self)@, final(self)@, done),
            old(self)@.wf() ==> final(self)@.wf(),
    {
        proof {
            if self@.wf() {
                lemma_with_modifier_wf(self@, modifier);
            }
        }
        if modifier.delete {
            let mut wanted = modifier;
            wanted.delete = false;
            match self.find_modifier(wanted) {
                None => Err(StateError::ModifierNotFound),
                Some(i) => {
                    self.district_modifiers.remove(i);
                    Ok(())
                },
            }
        } else if self.count_modifiers(modifier.modifier) >= modifier.modifier.max_count() {
            Err(StateError::ModifierCapReached(modifier.modifier))
        } else {
            self.district_modifiers.push(modifier);
            Ok(())
        }
    }

    /// Sets or clears the restriction on an edge of the game's map. Fails,
    /// and changes nothing, where the map refuses.
    pub fn apply_edge_restriction(&mut self, change: EdgeRestriction) -> (done: Result<
        (),
        StateError,
    >)
        ensures
            committed(old(self)@.with_edge_restriction(change), old(self)@, final(self)@, done),
            old(self)@.wf() ==> final(self)@.wf(),
    {
        match self.map.apply_edge_restriction(change) {
            Ok(()) => Ok(()),
            Err(e) => Err(StateError::Edge(e)),
        }
    }

    /// Whether the player's objective lies in the district: whether an edge
    /// of the map arrives at the card's target node and leads into it.
    pub fn player_has_objective_in_district(
        map: &NodeMap,
        player: &Player,
        district: Neighbourhood,
    ) -> (found: bool)
        ensures
            found == objective_in_district(map@, *player, district),
    {
        let card = match player.objective_card {
            None => {
                return false;
            },
            Some(card) => card,
        };
        let mut i: usize = 0;
        while i < map.edges.len()
            invariant
                i <= map.edges.len(),
                player.objective_card == Some(card),
                forall|j: int|
                    0 <= j < i ==> !entering(card.target_node_id, district)(
                        #[trigger] map.edges@[j],
                    ),
            decreases map.edges.len() - i,
        {
            if map.edges[i].to == card.target_node_id && map.edges[i].neighbourhood == district {
                proof {
                    lemma_first_index_found(
                        map.edges@,
                        entering(card.target_node_id, district),
                        i as int,
                    );
                }
                return true;
            }
            i += 1;
        }
        proof {
            lemma_first_index_absent(map.edges@, entering(card.target_node_id, district));
        }
        false
    }
}

} // verus!
