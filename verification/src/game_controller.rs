//! The game controller: the registry of player identities, the games that
//! are open, and the entry points through which players act on them.
use vstd::prelude::*;
use vstd::string::*;
use crate::search::{first_index, any_match, lemma_first_index_found, lemma_first_index_absent};
use crate::text::{decimal_text, decimal_string, framed};
use crate::types::{GameID, PlayerID, Player, PlayerInput, InGameID};
use crate::node_map::{NodeMap, MapModel};
use crate::gamestate::{
    GameModel, GameState, StateError, all_roles, free_among, seated, with_role, with_unique_id,
};
use crate::violation::Rejection;
use crate::rule_checker::RuleChecker;
use crate::actions::{
    ActionError, ActionFault, handled, projected, handle_input, speculative_snapshot,
};
use crate::clock::Clock;
use crate::entropy::random_i32;
use crate::invariants::{
    well_formed, lemma_purged_wf, lemma_with_identity_wf, lemma_opened_lobby_wf, lemma_with_game_wf,
    lemma_input_handled_wf, lemma_controller_joined_wf, lemma_controller_without_player_wf,
    lemma_checked_in_wf,
};

verus! {

/// Milliseconds without a check-in after which a player identity expires.
pub const PLAYER_TIMEOUT: u64 = 90_000;

/// How many random identities are tried before the space counts as used up.
pub const ID_ATTEMPTS: u32 = 100_000;

/// What follows a draw of a random identity.
#[derive(Clone, Copy, PartialEq, Eq, Debug, Structural)]
pub enum Draw {
    /// The identity drawn is not in use and is the one to hand out.
    Issue(i32),
    /// The identity drawn is in use; another is to be drawn.
    Again,
    /// The identity drawn is in use and the attempts are used up.
    GiveUp,
}

/// What follows the draw of `candidate` at the given attempt, counted from
/// 0: the candidate is handed out where it is not in use; where it is,
/// another is drawn, unless this was the last of the `ID_ATTEMPTS` attempts.
pub open spec fn draw_step(in_use: bool, candidate: i32, attempt: u32) -> Draw {
    if !in_use {
        Draw::Issue(candidate)
    } else if attempt + 1 < ID_ATTEMPTS {
        Draw::Again
    } else {
        Draw::GiveUp
    }
}

/// An identity that the controller has issued, with the time, in
/// milliseconds on the controller's clock, at which its owner last checked in.
pub type CheckIn = (PlayerID, u64);

/// What a player asks for when it opens a game.
#[derive(Debug, PartialEq, Eq)]
pub struct NewGameInfo {
    pub host: Player,
    pub name: String,
    pub map: NodeMap,
}

/// Why the controller turned a request down.
#[derive(Clone, Copy, PartialEq, Eq, Debug, Structural)]
pub enum GameError {
    /// No unused identity was found within the attempts allowed.
    IdExhausted,
    /// The sender's identity was never issued or has expired.
    UnknownPlayer(PlayerID),
    /// No open game has the identity that the request names.
    GameNotFound(GameID),
    /// No open game has the identity that was looked up.
    NoGameWithId(GameID),
    /// The player is in a game already and cannot join another.
    AlreadyInAGame,
    /// The host's identity was not issued by this controller.
    HostNotRegistered,
    /// The host is in a game already and cannot open another.
    HostAlreadyInGame,
    /// The game did not take the player.
    JoinFailed(StateError),
    /// The game could not be started.
    StartFailed(StateError),
    /// The rules do not allow the input.
    Rejected(Rejection),
    /// The input passed the rules and then could not be carried out. The
    /// game is as it was.
    Action(ActionError),
    /// The game's pending log does not replay, so the game cannot be shown.
    /// Where this answers an input, the input has been carried out all the
    /// same.
    SnapshotFailed(ActionFault),
}

impl GameError {
    /// The reason in words.
    pub open spec fn text(self) -> Seq<char> {
        match self {
            GameError::IdExhausted => "Failed to make new ID!"@,
            GameError::UnknownPlayer(_) => "There does not exist a player with the unique id"@,
            GameError::GameNotFound(_) =>
                "Could not find the game the player has done an input for!"@,
            GameError::NoGameWithId(id) => "There is no game with id "@ + decimal_text(id as int)
                + "!"@,
            GameError::AlreadyInAGame => "The player is already connected to another game."@,
            GameError::HostNotRegistered =>
                "A player that has a unique ID that was not made by the server cannot create a lobby."@,
            GameError::HostAlreadyInGame =>
                "A player that is already connected to a game in progress cannot create a new game."@,
            GameError::JoinFailed(e) => e.text(),
            GameError::StartFailed(e) => e.text(),
            GameError::Rejected(rejection) => "The input was not valid! Because: "@
                + rejection.reason.text(),
            GameError::Action(e) => e.text(),
            GameError::SnapshotFailed(fault) => fault.text()
                + " No actions are applied to the game."@,
        }
    }

    /// The reason in words.
    pub fn message(&self) -> (s: String)
        ensures
            s@ == self.text(),
    {
        match self {
            GameError::IdExhausted => String::from_str("Failed to make new ID!"),
            GameError::UnknownPlayer(_) => String::from_str(
                "There does not exist a player with the unique id",
            ),
            GameError::GameNotFound(_) => String::from_str(
                "Could not find the game the player has done an input for!",
            ),
            GameError::NoGameWithId(id) => framed(
                "There is no game with id ",
                decimal_string(*id as i64).as_str(),
                "!",
            ),
            GameError::AlreadyInAGame => String::from_str(
                "The player is already connected to another game.",
            ),
            GameError::HostNotRegistered => String::from_str(
                "A player that has a unique ID that was not made by the server cannot create a lobby.",
            ),
            GameError::HostAlreadyInGame => String::from_str(
                "A player that is already connected to a game in progress cannot create a new game.",
            ),
            GameError::JoinFailed(e) => e.message(),
            GameError::StartFailed(e) => e.message(),
            GameError::Rejected(rejection) => {
                let mut s = String::from_str("The input was not valid! Because: ");
                s.append(rejection.message().as_str());
                s
            },
            GameError::Action(e) => e.message(),
            GameError::SnapshotFailed(fault) => {
                let mut s = fault.message();
                s.append(" No actions are applied to the game.");
                s
            },
        }
    }
}

/// The controller of all games. `R` is the rule engine by which it has
/// inputs judged.
pub struct GameController<R: RuleChecker> {
    pub games: Vec<GameState>,
    pub unique_ids: Vec<CheckIn>,
    pub rule_checker: R,
    pub clock: Clock,
}

/// What a controller holds, as plain mathematical values: the open games in
/// the order in which they were opened, and the identities issued.
pub struct ControllerModel {
    pub games: Seq<GameModel>,
    pub unique_ids: Seq<CheckIn>,
}

/// A list of games as plain mathematical values.
pub open spec fn games_model(games: Seq<GameState>) -> Seq<GameModel> {
    games.map_values(|game: GameState| game@)
}

/// What a request that returns a game returns, as plain mathematical values.
pub open spec fn shown(outcome: Result<GameState, GameError>) -> Result<GameModel, GameError> {
    match outcome {
        Ok(game) => Ok(game@),
        Err(e) => Err(e),
    }
}

/// Check-ins of the given identity.
pub open spec fn issued_as(id: PlayerID) -> spec_fn(CheckIn) -> bool {
    |entry: CheckIn| entry.0 == id
}

/// Whether a check-in is too old at the time `now`.
pub open spec fn is_stale(entry: CheckIn, now: u64) -> bool {
    now >= entry.1 && now - entry.1 >= PLAYER_TIMEOUT
}

/// Check-ins that are not too old at the time `now`.
pub open spec fn fresh_at(now: u64) -> spec_fn(CheckIn) -> bool {
    |entry: CheckIn| !is_stale(entry, now)
}

/// Check-ins of the given identity that are too old at the time `now`.
pub open spec fn stale_as(id: PlayerID, now: u64) -> spec_fn(CheckIn) -> bool {
    |entry: CheckIn| entry.0 == id && is_stale(entry, now)
}

/// Players whose identity has no check-in that is too old at the time `now`.
pub open spec fn outlasting(ids: Seq<CheckIn>, now: u64) -> spec_fn(Player) -> bool {
    |player: Player| !any_match(ids, stale_as(player.unique_id, now))
}

/// A game without the players whose identity expires at the time `now`.
pub open spec fn swept(game: GameModel, ids: Seq<CheckIn>, now: u64) -> GameModel {
    GameModel { players: game.players.filter(outlasting(ids, now)), ..game }
}

/// Takes out of a game the players whose identity expires at the time `now`.
pub open spec fn sweeping(ids: Seq<CheckIn>, now: u64) -> spec_fn(GameModel) -> GameModel {
    |game: GameModel| swept(game, ids, now)
}

/// Games that have a player.
pub open spec fn occupied() -> spec_fn(GameModel) -> bool {
    |game: GameModel| game.players.len() > 0
}

/// Games with the given identity.
pub open spec fn with_game_id(id: GameID) -> spec_fn(GameModel) -> bool {
    |game: GameModel| game.id == id
}

/// Games that hold a player of the given identity.
pub open spec fn holding(id: PlayerID) -> spec_fn(GameModel) -> bool {
    |game: GameModel| game.contains_player(id)
}

/// Games that are lobbies.
pub open spec fn in_lobby() -> spec_fn(GameModel) -> bool {
    |game: GameModel| game.is_lobby
}

/// A check-in renewed at the time `now` where it is of the given identity.
pub open spec fn renewing(id: PlayerID, now: u64) -> spec_fn(CheckIn) -> CheckIn {
    |entry: CheckIn| if entry.0 == id { (entry.0, now) } else { entry }
}

/// Takes the first player of the given identity out of a game.
pub open spec fn dropping(id: PlayerID) -> spec_fn(GameModel) -> GameModel {
    |game: GameModel| game.without_player(id)
}

impl ControllerModel {
    /// Whether the identity has been issued and not expired.
    pub open spec fn is_registered(self, id: PlayerID) -> bool {
        any_match(self.unique_ids, issued_as(id))
    }

    /// Whether a player of the given identity is in any game.
    pub open spec fn is_playing(self, id: PlayerID) -> bool {
        any_match(self.games, holding(id))
    }

    /// Position of the first game with the given identity.
    pub open spec fn game_index(self, id: GameID) -> Option<int> {
        first_index(self.games, with_game_id(id))
    }

    /// The controller without the identities whose last check-in is
    /// `PLAYER_TIMEOUT` or more before `now`, and without their players in
    /// any game.
    pub open spec fn without_inactive(self, now: u64) -> ControllerModel {
        ControllerModel {
            games: self.games.map_values(sweeping(self.unique_ids, now)),
            unique_ids: self.unique_ids.filter(fresh_at(now)),
        }
    }

    /// The controller without the games that have no player.
    pub open spec fn without_empty_games(self) -> ControllerModel {
        ControllerModel { games: self.games.filter(occupied()), ..self }
    }

    /// The controller after the purge at the time `now`: the identities
    /// whose last check-in is `PLAYER_TIMEOUT` or more ago are gone, their
    /// players are gone from every game, and so are the games that are
    /// left without players.
    pub open spec fn purged(self, now: u64) -> ControllerModel {
        self.without_inactive(now).without_empty_games()
    }

    /// The controller after an identity has been issued at the time `now`.
    pub open spec fn with_identity(self, id: PlayerID, now: u64) -> ControllerModel {
        ControllerModel { unique_ids: self.unique_ids.push((id, now)), ..self }
    }

    /// The controller after a check-in of the given identity at the time
    /// `now`, and the purge that follows it.
    pub open spec fn checked_in(self, id: PlayerID, now: u64) -> ControllerModel {
        ControllerModel { unique_ids: self.unique_ids.map_values(renewing(id, now)), ..self }.purged(
            now,
        )
    }

    /// The controller after the purge at the time `now` and the removal of
    /// the given player from every game.
    pub open spec fn without_player(self, id: PlayerID, now: u64) -> ControllerModel {
        ControllerModel {
            games: self.purged(now).games.map_values(dropping(id)),
            ..self.purged(now)
        }
    }
}

impl<R: RuleChecker> View for GameController<R> {
    type V = ControllerModel;

    open spec fn view(&self) -> ControllerModel {
        ControllerModel { games: games_model(self.games@), unique_ids: self.unique_ids@ }
    }
}

/// Whether a check-in is too old at the time `now`.
pub fn check_in_is_stale(entry: &CheckIn, now: u64) -> (stale: bool)
    ensures
        stale == is_stale(*entry, now),
{
    now >= entry.1 && now - entry.1 >= PLAYER_TIMEOUT
}

/// The check-ins that are not too old at the time `now`, in their order.
pub fn fresh_check_ins(ids: &Vec<CheckIn>, now: u64) -> (kept: Vec<CheckIn>)
    ensures
        kept@ == ids@.filter(fresh_at(now)),
{
    let mut kept: Vec<CheckIn> = Vec::new();
    let mut i: usize = 0;
    proof {
        reveal(Seq::filter);
        assert(ids@.take(0).filter(fresh_at(now)) =~= Seq::empty());
    }
    while i < ids.len()
        invariant
            i <= ids.len(),
            kept@ == ids@.take(i as int).filter(fresh_at(now)),
        decreases ids.len() - i,
    {
        let entry = ids[i];
        proof {
            reveal(Seq::filter);
            let longer = ids@.take(i as int + 1);
            assert(longer.drop_last() =~= ids@.take(i as int));
            assert(longer.last() == entry);
        }
        if !check_in_is_stale(&entry, now) {
            kept.push(entry);
        }
        i += 1;
    }
    proof {
        assert(ids@.take(i as int) =~= ids@);
    }
    kept
}

/// Whether an identity has a check-in that is too old at the time `now`.
pub fn has_stale_check_in(ids: &Vec<CheckIn>, id: PlayerID, now: u64) -> (stale: bool)
    ensures
        stale == any_match(ids@, stale_as(id, now)),
{
    let mut i: usize = 0;
    while i < ids.len()
        invariant
            i <= ids.len(),
            forall|j: int| 0 <= j < i ==> !stale_as(id, now)(#[trigger] ids@[j]),
        decreases ids.len() - i,
    {
        let entry = ids[i];
        if entry.0 == id && check_in_is_stale(&entry, now) {
            proof {
                lemma_first_index_found(ids@, stale_as(id, now), i as int);
            }
            return true;
        }
        i += 1;
    }
    proof {
        lemma_first_index_absent(ids@, stale_as(id, now));
    }
    false
}

/// The players whose identity does not expire at the time `now`, in their order.
pub fn outlasting_players(players: &Vec<Player>, ids: &Vec<CheckIn>, now: u64) -> (kept: Vec<
    Player,
>)
    ensures
        kept@ == players@.filter(outlasting(ids@, now)),
{
    let mut kept: Vec<Player> = Vec::new();
    let mut i: usize = 0;
    proof {
        reveal(Seq::filter);
        assert(players@.take(0).filter(outlasting(ids@, now)) =~= Seq::empty());
    }
    while i < players.len()
        invariant
            i <= players.len(),
            kept@ == players@.take(i as int).filter(outlasting(ids@, now)),
        decreases players.len() - i,
    {
        let player = players[i];
        proof {
            reveal(Seq::filter);
            let longer = players@.take(i as int + 1);
            assert(longer.drop_last() =~= players@.take(i as int));
            assert(longer.last() == player);
        }
        if !has_stale_check_in(ids, player.unique_id, now) {
            kept.push(player);
        }
        i += 1;
    }
    proof {
        assert(players@.take(i as int) =~= players@);
    }
    kept
}

/// The games without the players whose identity expires at the time `now`.
pub fn swept_games(games: &Vec<GameState>, ids: &Vec<CheckIn>, now: u64) -> (kept: Vec<GameState>)
    ensures
        games_model(kept@) == games_model(games@).map_values(sweeping(ids@, now)),
{
    let mut kept: Vec<GameState> = Vec::new();
    let mut i: usize = 0;
    while i < games.len()
        invariant
            i <= games.len(),
            kept.len() == i,
            forall|j: int|
                0 <= j < i ==> (#[trigger] kept@[j])@ == swept(games@[j]@, ids@, now),
        decreases games.len() - i,
    {
        let mut game = games[i].clone();
        game.players = outlasting_players(&game.players, ids, now);
        kept.push(game);
        i += 1;
    }
    proof {
        assert(games_model(kept@) =~= games_model(games@).map_values(sweeping(ids@, now)));
    }
    kept
}

/// The games that have a player, in their order.
pub fn occupied_games(games: &Vec<GameState>) -> (kept: Vec<GameState>)
    ensures
        games_model(kept@) == games_model(games@).filter(occupied()),
{
    let mut kept: Vec<GameState> = Vec::new();
    let mut i: usize = 0;
    let ghost all = games_model(games@);
    proof {
        reveal(Seq::filter);
        assert(all.take(0).filter(occupied()) =~= Seq::empty());
        assert(games_model(kept@) =~= Seq::empty());
    }
    while i < games.len()
        invariant
            i <= games.len(),
            all == games_model(games@),
            games_model(kept@) == all.take(i as int).filter(occupied()),
        decreases games.len() - i,
    {
        proof {
            reveal(Seq::filter);
            let longer = all.take(i as int + 1);
            assert(longer.drop_last() =~= all.take(i as int));
            assert(longer.last() == games@[i as int]@);
        }
        if games[i].players.len() > 0 {
            let ghost before = kept@;
            let game = games[i].clone();
            kept.push(game);
            proof {
                assert(games_model(kept@) =~= games_model(before).push(game@));
            }
        }
        i += 1;
    }
    proof {
        assert(all.take(i as int) =~= all);
    }
    kept
}

} // verus!

verus! {

/// The lobby that a host opens: the host is its only player, seated as the
/// orchestrator.
pub open spec fn opened_lobby(
    host: Player,
    name: Seq<char>,
    map: MapModel,
    id: GameID,
) -> GameModel {
    GameModel {
        players: seq![seated(host, InGameID::Orchestrator, true)],
        ..GameModel::fresh(id, name, map)
    }
}

impl ControllerModel {
    /// Whether a player may open a game: its identity must be registered,
    /// and it must not be in a game.
    pub open spec fn host_admitted(self, host: Player) -> Result<(), GameError> {
        if !self.is_registered(host.unique_id) {
            Err(GameError::HostNotRegistered)
        } else if self.is_playing(host.unique_id) {
            Err(GameError::HostAlreadyInGame)
        } else {
            Ok(())
        }
    }

    /// The controller with one more game, which comes last.
    pub open spec fn with_game(self, game: GameModel) -> ControllerModel {
        ControllerModel { games: self.games.push(game), ..self }
    }

    /// The controller with the game at `i` replaced.
    pub open spec fn with_game_at(self, i: int, game: GameModel) -> ControllerModel {
        ControllerModel { games: self.games.update(i, game), ..self }
    }

    /// What a request to join a game leaves and returns. A player that is
    /// in any game is turned away; otherwise the first game of the given
    /// identity takes the player, if it can.
    pub open spec fn joined(self, game_id: GameID, player: Player) -> (
        ControllerModel,
        Result<GameModel, GameError>,
    ) {
        if self.is_playing(player.unique_id) {
            (self, Err(GameError::AlreadyInAGame))
        } else {
            match self.game_index(game_id) {
                None => (self, Err(GameError::GameNotFound(game_id))),
                Some(i) => match self.games[i].joined(player) {
                    Err(e) => (self, Err(GameError::JoinFailed(e))),
                    Ok(game) => (self.with_game_at(i, game), Ok(game)),
                },
            }
        }
    }

    /// What a look at a game at the time `now` leaves and returns: after
    /// the purge, the first game of the given identity with its pending log
    /// applied.
    pub open spec fn game_shown(self, game_id: GameID, now: u64) -> (
        ControllerModel,
        Result<GameModel, GameError>,
    ) {
        let after = self.purged(now);
        match after.game_index(game_id) {
            None => (after, Err(GameError::NoGameWithId(game_id))),
            Some(i) => match projected(after.games[i]) {
                Ok(ahead) => (after, Ok(ahead)),
                Err(fault) => (after, Err(GameError::SnapshotFailed(fault))),
            },
        }
    }

    /// What an input at the time `now` leaves and returns. After the purge,
    /// in this order: the sender must be registered; the game must exist;
    /// the rule engine must let the input pass, judged on the game as it is
    /// stored; the pipeline must carry the input out. The stored game is
    /// then the one that the pipeline left, and the sender is shown that
    /// game with its pending log applied. Up to the pipeline, a failure
    /// leaves the games as the purge left them. One failure does not: where
    /// the input has been carried out and the pending log of the game that
    /// it left does not replay, the answer is `SnapshotFailed` and the
    /// changed game is stored all the same.
    pub open spec fn input_handled<R: RuleChecker>(
        self,
        checker: R,
        input: PlayerInput,
        now: u64,
    ) -> (ControllerModel, Result<GameModel, GameError>) {
        let after = self.purged(now);
        if !after.is_registered(input.player_id) {
            (after, Err(GameError::UnknownPlayer(input.player_id)))
        } else {
            match after.game_index(input.game_id) {
                None => (after, Err(GameError::GameNotFound(input.game_id))),
                Some(i) => match checker.verdict(after.games[i], input) {
                    Some(rejection) => (after, Err(GameError::Rejected(rejection))),
                    None => match handled(after.games[i], input) {
                        Err(e) => (after, Err(GameError::Action(e))),
                        Ok(game) => (
                            after.with_game_at(i, game),
                            match projected(game) {
                                Ok(ahead) => Ok(ahead),
                                Err(fault) => Err(GameError::SnapshotFailed(fault)),
                            },
                        ),
                    },
                },
            }
        }
    }
}

/// A new lobby with the host as its only player and orchestrator.
pub fn build_lobby(new_lobby: NewGameInfo, id: GameID) -> (lobby: GameState)
    ensures
        lobby@ == opened_lobby(new_lobby.host, new_lobby.name@, new_lobby.map@, id),
{
    let ghost host = new_lobby.host;
    let mut new_game = GameState::new(new_lobby.name, id, new_lobby.map);
    proof {
        lemma_first_index_absent(new_game@.players, with_unique_id(host.unique_id));
        lemma_first_index_absent(new_game@.players, with_role(InGameID::Orchestrator));
        assert(all_roles()[0] == InGameID::Orchestrator);
        lemma_first_index_found(all_roles(), free_among(new_game@.players), 0);
    }
    let _seated = new_game.assign_player_to_game(new_lobby.host);
    assert(_seated is Ok);
    assert(new_game@.players =~= seq![seated(host, InGameID::Orchestrator, true)]);
    new_game
}

impl<R: RuleChecker> GameController<R> {
    /// A controller without games or identities that has inputs judged by
    /// the given rule engine.
    pub fn new(rule_checker: R) -> (controller: Self)
        ensures
            controller@ == (ControllerModel { games: Seq::empty(), unique_ids: Seq::empty() }),
            controller.rule_checker == rule_checker,
            controller@.wf(),
    {
        let controller = Self {
            games: Vec::new(),
            unique_ids: Vec::new(),
            rule_checker,
            clock: Clock::start(),
        };
        assert(games_model(controller.games@) =~= Seq::empty());
        controller
    }

    /// Whether the identity has been issued and not expired.
    pub fn is_player_registered(&self, id: PlayerID) -> (registered: bool)
        ensures
            registered == self@.is_registered(id),
    {
        let mut i: usize = 0;
        while i < self.unique_ids.len()
            invariant
                i <= self.unique_ids.len(),
                forall|j: int| 0 <= j < i ==> !issued_as(id)(#[trigger] self.unique_ids@[j]),
            decreases self.unique_ids.len() - i,
        {
            if self.unique_ids[i].0 == id {
                proof {
                    lemma_first_index_found(self.unique_ids@, issued_as(id), i as int);
                }
                return true;
            }
            i += 1;
        }
        proof {
            lemma_first_index_absent(self.unique_ids@, issued_as(id));
        }
        false
    }

    /// Whether a player of the given identity is in any game.
    pub fn is_player_in_a_game(&self, id: PlayerID) -> (playing: bool)
        ensures
            playing == self@.is_playing(id),
    {
        let mut i: usize = 0;
        while i < self.games.len()
            invariant
                i <= self.games.len(),
                forall|j: int| 0 <= j < i ==> !holding(id)(#[trigger] self@.games[j]),
            decreases self.games.len() - i,
        {
            if self.games[i].contains_player_with_unique_id(id) {
                proof {
                    lemma_first_index_found(self@.games, holding(id), i as int);
                }
                return true;
            }
            i += 1;
        }
        proof {
            lemma_first_index_absent(self@.games, holding(id));
        }
        false
    }

    /// Position of the first game with the given identity.
    pub fn find_game_index(&self, id: GameID) -> (found: Option<usize>)
        ensures
            match found {
                Some(i) => self@.game_index(id) == Some(i as int) && i < self.games.len(),
                None => self@.game_index(id) is None,
            },
    {
        let mut i: usize = 0;
        while i < self.games.len()
            invariant
                i <= self.games.len(),
                forall|j: int| 0 <= j < i ==> !with_game_id(id)(#[trigger] self@.games[j]),
            decreases self.games.len() - i,
        {
            if self.games[i].id == id {
                proof {
                    lemma_first_index_found(self@.games, with_game_id(id), i as int);
                }
                return Some(i);
            }
            i += 1;
        }
        proof {
            lemma_first_index_absent(self@.games, with_game_id(id));
        }
        None
    }

    /// The purge at the time `now`: drops the identities whose last
    /// check-in is `PLAYER_TIMEOUT` or more ago, their players from every
    /// game, and the games without players.
    pub fn purge_at(&mut self, now: u64)
        ensures
            final(self)@ == old(self)@.purged(now),
            final(self).rule_checker == old(self).rule_checker,
            final(self).clock == old(self).clock,
            old(self)@.wf() ==> final(self)@.wf(),
    {
        proof {
            if self@.wf() {
                lemma_purged_wf(self@, now);
            }
        }
        self.remove_inactive_ids_at(now);
        self.remove_empty_games();
    }

    /// Drops the identities whose last check-in is `PLAYER_TIMEOUT` or more
    /// before `now`, and takes their players out of every game.
    pub fn remove_inactive_ids_at(&mut self, now: u64)
        ensures
            final(self)@ == old(self)@.without_inactive(now),
            final(self).rule_checker == old(self).rule_checker,
            final(self).clock == old(self).clock,
    {
        self.games = swept_games(&self.games, &self.unique_ids, now);
        self.unique_ids = fresh_check_ins(&self.unique_ids, now);
    }

    /// Drops the games that have no player.
    pub fn remove_empty_games(&mut self)
        ensures
            final(self)@ == old(self)@.without_empty_games(),
            final(self).rule_checker == old(self).rule_checker,
            final(self).clock == old(self).clock,
    {
        self.games = occupied_games(&self.games);
    }

    /// Decides what follows the draw of a player identity at the given
    /// attempt, counted from 0.
    pub fn judge_candidate(&self, candidate: PlayerID, attempt: u32) -> (step: Draw)
        ensures
            step == draw_step(self@.is_registered(candidate), candidate, attempt),
    {
        if !self.is_player_registered(candidate) {
            Draw::Issue(candidate)
        } else if attempt < ID_ATTEMPTS - 1 {
            Draw::Again
        } else {
            Draw::GiveUp
        }
    }

    /// Draws random identities until [`GameController::judge_candidate`]
    /// hands one out or gives up. While nothing is registered, the first
    /// draw is handed out.
    pub fn generate_unused_unique_id(&self) -> (drawn: Option<PlayerID>)
        ensures
            drawn matches Some(id) ==> !self@.is_registered(id),
            self@.unique_ids.len() == 0 ==> drawn is Some,
    {
        let mut attempt: u32 = 0;
        loop
            invariant
                attempt < ID_ATTEMPTS,
            decreases ID_ATTEMPTS - attempt,
        {
            let candidate = random_i32();
            match self.judge_candidate(candidate, attempt) {
                Draw::Issue(id) => {
                    return Some(id);
                },
                Draw::Again => {
                    attempt += 1;
                },
                Draw::GiveUp => {
                    return None;
                },
            }
        }
    }

    /// Registers an identity with a check-in at the time `now`.
    pub fn register_player_id(&mut self, id: PlayerID, now: u64)
        ensures
            final(self)@ == old(self)@.with_identity(id, now),
            final(self).rule_checker == old(self).rule_checker,
            final(self).clock == old(self).clock,
            old(self)@.wf() && !old(self)@.is_registered(id) ==> final(self)@.wf(),
    {
        proof {
            if self@.wf() && !self@.is_registered(id) {
                lemma_with_identity_wf(self@, id, now);
            }
        }
        self.unique_ids.push((id, now));
    }

    /// Issues a new identity and registers it with a check-in at the present time. The identity
    /// was not registered before. Fails, and changes nothing, where no unused identity was drawn
    /// within `ID_ATTEMPTS` attempts, which cannot happen while no identity is registered.
    pub fn generate_player_id(&mut self) -> (issued: Result<PlayerID, GameError>)
        ensures
            match issued {
                Ok(id) => !old(self)@.is_registered(id) && exists|now: u64|
                    final(self)@ == #[trigger] old(self)@.with_identity(id, now),
                Err(e) => e == GameError::IdExhausted && final(self)@ == old(self)@
                    && old(self)@.unique_ids.len() > 0,
            },
            final(self).rule_checker == old(self).rule_checker,
            old(self)@.wf() ==> final(self)@.wf(),
    {
        let new_id = match self.generate_unused_unique_id() {
            Some(id) => id,
            None => return Err(GameError::IdExhausted),
        };
        let now = self.clock.now_millis();
        self.register_player_id(new_id, now);
        assert(exists|t: u64| self@ == #[trigger] old(self)@.with_identity(new_id, t));
        Ok(new_id)
    }

    /// Decides what follows the draw of a game identity at the given
    /// attempt, counted from 0.
    pub fn judge_game_candidate(&self, candidate: GameID, attempt: u32) -> (step: Draw)
        ensures
            step == draw_step(self@.game_index(candidate) is Some, candidate, attempt),
    {
        if self.find_game_index(candidate).is_none() {
            Draw::Issue(candidate)
        } else if attempt < ID_ATTEMPTS - 1 {
            Draw::Again
        } else {
            Draw::GiveUp
        }
    }

    /// Draws random identities until
    /// [`GameController::judge_game_candidate`] hands one out or gives up.
    /// While no game is open, the first draw is handed out.
    pub fn generate_unused_game_id(&self) -> (drawn: Option<GameID>)
        ensures
            drawn matches Some(id) ==> self@.game_index(id) is None,
            self@.games.len() == 0 ==> drawn is Some,
    {
        let mut attempt: u32 = 0;
        loop
            invariant
                attempt < ID_ATTEMPTS,
            decreases ID_ATTEMPTS - attempt,
        {
            let candidate = random_i32();
            match self.judge_game_candidate(candidate, attempt) {
                Draw::Issue(id) => {
                    return Some(id);
                },
                Draw::Again => {
                    attempt += 1;
                },
                Draw::GiveUp => {
                    return None;
                },
            }
        }
    }

    /// Makes the lobby that a host asks for, with an identity that no open
    /// game has, and seats the host in it as the orchestrator. The
    /// controller itself is left as it was. Fails where the host is not
    /// registered or is in a game, or no unused game identity was drawn
    /// within `ID_ATTEMPTS` attempts, which cannot happen while no game is
    /// open.
    pub fn create_new_game_and_assign_host(&mut self, new_lobby: NewGameInfo) -> (outcome: Result<
        GameState,
        GameError,
    >)
        ensures
            final(self)@ == old(self)@,
            final(self).rule_checker == old(self).rule_checker,
            match old(self)@.host_admitted(new_lobby.host) {
                Err(e) => outcome == Err::<GameState, GameError>(e),
                Ok(()) => match outcome {
                    Ok(game) => old(self)@.game_index(game.id) is None && game@ == opened_lobby(
                        new_lobby.host,
                        new_lobby.name@,
                        new_lobby.map@,
                        game.id,
                    ),
                    Err(e) => e == GameError::IdExhausted && old(self)@.games.len() > 0,
                },
            },
    {
        if !self.is_player_registered(new_lobby.host.unique_id) {
            return Err(GameError::HostNotRegistered);
        }
        if self.is_player_in_a_game(new_lobby.host.unique_id) {
            return Err(GameError::HostAlreadyInGame);
        }
        let id = match self.generate_unused_game_id() {
            Some(id) => id,
            None => {
                return Err(GameError::IdExhausted);
            },
        };
        Ok(build_lobby(new_lobby, id))
    }

    /// Opens a game for a host: the new lobby, with the host as its
    /// orchestrator and an identity that no other open game has, is added
    /// to the games and returned. Fails, and changes nothing, where the
    /// host is not registered or is in a game, or no unused game identity
    /// was drawn within `ID_ATTEMPTS` attempts, which cannot happen while
    /// no game is open.
    pub fn create_new_game(&mut self, new_lobby: NewGameInfo) -> (outcome: Result<
        GameState,
        GameError,
    >)
        ensures
            final(self).rule_checker == old(self).rule_checker,
            match old(self)@.host_admitted(new_lobby.host) {
                Err(e) => outcome == Err::<GameState, GameError>(e) && final(self)@ == old(self)@,
                Ok(()) => match outcome {
                    Ok(game) => old(self)@.game_index(game.id) is None && game@ == opened_lobby(
                        new_lobby.host,
                        new_lobby.name@,
                        new_lobby.map@,
                        game.id,
                    ) && final(self)@ == old(self)@.with_game(game@),
                    Err(e) => e == GameError::IdExhausted && final(self)@ == old(self)@
                        && old(self)@.games.len() > 0,
                },
            },
            old(self)@.wf() ==> final(self)@.wf(),
    {
        let ghost host = new_lobby.host;
        let ghost name = new_lobby.name@;
        let ghost map = new_lobby.map@;
        let new_game = match self.create_new_game_and_assign_host(new_lobby) {
            Ok(game) => game,
            Err(e) => {
                return Err(e);
            },
        };
        let ghost before = self.games@;
        self.games.push(new_game.clone());
        proof {
            assert(games_model(self.games@) =~= games_model(before).push(new_game@));
            if old(self)@.wf() {
                lemma_opened_lobby_wf(host, name, map, new_game.id);
                lemma_with_game_wf(old(self)@, new_game@);
            }
        }
        Ok(new_game)
    }

    /// Starts the given game and returns a copy of it. Fails, and leaves
    /// the game as it was, where the players that are orchestrator are not
    /// exactly one, or fewer than two players are present. The controller's
    /// own games are not looked at.
    pub fn start_game(&mut self, gamestate: &mut GameState) -> (outcome: Result<
        GameState,
        GameError,
    >)
        ensures
            final(self)@ == old(self)@,
            final(self).rule_checker == old(self).rule_checker,
            match old(gamestate)@.started() {
                Ok(game) => final(gamestate)@ == game && shown(outcome) == Ok::<
                    GameModel,
                    GameError,
                >(game),
                Err(e) => outcome == Err::<GameState, GameError>(GameError::StartFailed(e))
                    && final(gamestate)@ == old(gamestate)@,
            },
            old(gamestate)@.wf() ==> final(gamestate)@.wf(),
    {
        match gamestate.start() {
            Ok(()) => Ok(gamestate.clone()),
            Err(e) => Err(GameError::StartFailed(e)),
        }
    }

    /// Handles an input at the time `now`: purges, makes sure of the sender
    /// and the game, has the rule engine judge the input on the stored
    /// game, lets the pipeline carry it out, and returns the stored game
    /// with its pending log applied. Every failure but one leaves the games
    /// as the purge left them; `SnapshotFailed` comes after the input has
    /// changed the stored game.
    pub fn handle_player_input_at(&mut self, player_input: PlayerInput, now: u64) -> (outcome:
        Result<GameState, GameError>)
        ensures
            (final(self)@, shown(outcome)) == old(self)@.input_handled(
                old(self).rule_checker,
                player_input,
                now,
            ),
            final(self).rule_checker == old(self).rule_checker,
            old(self)@.wf() ==> final(self)@.wf(),
            old(self)@.wf() ==> (outcome matches Ok(snapshot) ==> snapshot@.wf()),
    {
        proof {
            if self@.wf() {
                lemma_input_handled_wf(self@, self.rule_checker, player_input, now);
            }
        }
        self.purge_at(now);
        if !self.is_player_registered(player_input.player_id) {
            return Err(GameError::UnknownPlayer(player_input.player_id));
        }
        let index = match self.find_game_index(player_input.game_id) {
            Some(i) => i,
            None => {
                return Err(GameError::GameNotFound(player_input.game_id));
            },
        };
        match self.rule_checker.is_input_valid(&self.games[index], &player_input) {
            Some(rejection) => {
                return Err(GameError::Rejected(rejection));
            },
            None => {},
        }
        let mut related_game = self.games[index].clone();
        match handle_input(player_input, &mut related_game) {
            Ok(()) => {},
            Err(e) => {
                return Err(GameError::Action(e));
            },
        }
        let ghost before = self.games@;
        let ghost stored = related_game@;
        self.games.set(index, related_game);
        proof {
            assert(games_model(self.games@) =~= games_model(before).update(index as int, stored));
            if old(self)@.wf() {
                assert(well_formed()(self@.games[index as int]));
            }
        }
        match speculative_snapshot(&self.games[index]) {
            Ok(snapshot) => Ok(snapshot),
            Err(fault) => Err(GameError::SnapshotFailed(fault)),
        }
    }

    /// Handles an input at the present time. See
    /// [`GameController::handle_player_input_at`].
    pub fn handle_player_input(&mut self, player_input: PlayerInput) -> (outcome: Result<
        GameState,
        GameError,
    >)
        ensures
            exists|now: u64|
                (final(self)@, shown(outcome)) == #[trigger] old(self)@.input_handled(
                    old(self).rule_checker,
                    player_input,
                    now,
                ),
            final(self).rule_checker == old(self).rule_checker,
            old(self)@.wf() ==> final(self)@.wf(),
            old(self)@.wf() ==> (outcome matches Ok(snapshot) ==> snapshot@.wf()),
    {
        let now = self.clock.now_millis();
        self.handle_player_input_at(player_input, now)
    }

    /// How many identities are registered, held at `i32::MAX` where there
    /// are more.
    pub fn get_amount_of_created_player_ids(&self) -> (amount: i32)
        ensures
            amount == if self@.unique_ids.len() > i32::MAX {
                i32::MAX as int
            } else {
                self@.unique_ids.len() as int
            },
    {
        let n = self.unique_ids.len();
        if n > i32::MAX as usize {
            i32::MAX
        } else {
            n as i32
        }
    }

    /// Lets a player join the first game of the given identity, and returns
    /// that game. Fails, and changes nothing, where the player is in a game
    /// already, there is no such game, or the game does not take the player.
    pub fn join_game(&mut self, game_id: GameID, player: Player) -> (outcome: Result<
        GameState,
        GameError,
    >)
        ensures
            (final(self)@, shown(outcome)) == old(self)@.joined(game_id, player),
            final(self).rule_checker == old(self).rule_checker,
            old(self)@.wf() ==> final(self)@.wf(),
    {
        proof {
            if self@.wf() {
                lemma_controller_joined_wf(self@, game_id, player);
            }
        }
        if self.is_player_in_a_game(player.unique_id) {
            return Err(GameError::AlreadyInAGame);
        }
        let index = match self.find_game_index(game_id) {
            Some(i) => i,
            None => {
                return Err(GameError::GameNotFound(game_id));
            },
        };
        let mut related_game = self.games[index].clone();
        match related_game.assign_player_to_game(player) {
            Ok(()) => (),
            Err(e) => {
                return Err(GameError::JoinFailed(e));
            },
        }
        let shown_game = related_game.clone();
        let ghost before = self.games@;
        self.games.set(index, related_game);
        proof {
            assert(games_model(self.games@) =~= games_model(before).update(
                index as int,
                shown_game@,
            ));
        }
        Ok(shown_game)
    }

    /// Looks at a game at the time `now`: purges, and returns the first
    /// game of the given identity with its pending log applied. The stored
    /// game is not changed by the look.
    pub fn get_game_by_id_at(&mut self, game_id: GameID, now: u64) -> (outcome: Result<
        GameState,
        GameError,
    >)
        ensures
            (final(self)@, shown(outcome)) == old(self)@.game_shown(game_id, now),
            final(self).rule_checker == old(self).rule_checker,
            old(self)@.wf() ==> final(self)@.wf(),
            old(self)@.wf() ==> (outcome matches Ok(snapshot) ==> snapshot@.wf()),
    {
        self.purge_at(now);
        let index = match self.find_game_index(game_id) {
            Some(i) => i,
            None => {
                return Err(GameError::NoGameWithId(game_id));
            },
        };
        proof {
            if old(self)@.wf() {
                assert(well_formed()(self@.games[index as int]));
            }
        }
        match speculative_snapshot(&self.games[index]) {
            Ok(snapshot) => Ok(snapshot),
            Err(fault) => Err(GameError::SnapshotFailed(fault)),
        }
    }

    /// Looks at a game at the present time. See
    /// [`GameController::get_game_by_id_at`].
    pub fn get_game_by_id(&mut self, game_id: GameID) -> (outcome: Result<GameState, GameError>)
        ensures
            exists|now: u64|
                (final(self)@, shown(outcome)) == #[trigger] old(self)@.game_shown(game_id, now),
            final(self).rule_checker == old(self).rule_checker,
            old(self)@.wf() ==> final(self)@.wf(),
            old(self)@.wf() ==> (outcome matches Ok(snapshot) ==> snapshot@.wf()),
    {
        let now = self.clock.now_millis();
        self.get_game_by_id_at(game_id, now)
    }

    /// Copies of the games.
    pub fn copy_of_games(&self) -> (copies: Vec<GameState>)
        ensures
            games_model(copies@) == self@.games,
    {
        let mut copies: Vec<GameState> = Vec::new();
        let mut i: usize = 0;
        assert(games_model(copies@) =~= self@.games.take(0));
        while i < self.games.len()
            invariant
                i <= self.games.len(),
                games_model(copies@) == self@.games.take(i as int),
            decreases self.games.len() - i,
        {
            let ghost before = copies@;
            let copy = self.games[i].clone();
            copies.push(copy);
            proof {
                assert(games_model(copies@) =~= games_model(before).push(copy@));
                assert(self@.games.take(i as int + 1) =~= self@.games.take(i as int).push(
                    copy@,
                ));
            }
            i += 1;
        }
        proof {
            assert(self@.games.take(i as int) =~= self@.games);
        }
        copies
    }

    /// The open games after the purge at the time `now`.
    pub fn get_created_games_at(&mut self, now: u64) -> (created: Vec<GameState>)
        ensures
            final(self)@ == old(self)@.purged(now),
            games_model(created@) == final(self)@.games,
            final(self).rule_checker == old(self).rule_checker,
            old(self)@.wf() ==> final(self)@.wf(),
    {
        self.purge_at(now);
        self.copy_of_games()
    }

    /// The open games after the purge at the present time.
    pub fn get_created_games(&mut self) -> (created: Vec<GameState>)
        ensures
            exists|now: u64| final(self)@ == #[trigger] old(self)@.purged(now),
            games_model(created@) == final(self)@.games,
            final(self).rule_checker == old(self).rule_checker,
            old(self)@.wf() ==> final(self)@.wf(),
    {
        let now = self.clock.now_millis();
        self.get_created_games_at(now)
    }

    /// The open games that are lobbies, after the purge at the time `now`.
    pub fn get_all_lobbies_at(&mut self, now: u64) -> (lobbies: Vec<GameState>)
        ensures
            final(self)@ == old(self)@.purged(now),
            games_model(lobbies@) == final(self)@.games.filter(in_lobby()),
            final(self).rule_checker == old(self).rule_checker,
            old(self)@.wf() ==> final(self)@.wf(),
    {
        self.purge_at(now);
        let mut lobbies: Vec<GameState> = Vec::new();
        let mut i: usize = 0;
        proof {
            reveal(Seq::filter);
            assert(self@.games.take(0).filter(in_lobby()) =~= Seq::empty());
            assert(games_model(lobbies@) =~= Seq::empty());
        }
        while i < self.games.len()
            invariant
                i <= self.games.len(),
                games_model(lobbies@) == self@.games.take(i as int).filter(in_lobby()),
            decreases self.games.len() - i,
        {
            proof {
                reveal(Seq::filter);
                let longer = self@.games.take(i as int + 1);
                assert(longer.drop_last() =~= self@.games.take(i as int));
                assert(longer.last() == self.games[i as int]@);
            }
            if self.games[i].is_lobby {
                let ghost before = lobbies@;
                let copy = self.games[i].clone();
                lobbies.push(copy);
                proof {
                    assert(games_model(lobbies@) =~= games_model(before).push(copy@));
                }
            }
            i += 1;
        }
        proof {
            assert(self@.games.take(i as int) =~= self@.games);
        }
        lobbies
    }

    /// The open games that are lobbies, after the purge at the present time.
    pub fn get_all_lobbies(&mut self) -> (lobbies: Vec<GameState>)
        ensures
            exists|now: u64| final(self)@ == #[trigger] old(self)@.purged(now),
            games_model(lobbies@) == final(self)@.games.filter(in_lobby()),
            final(self).rule_checker == old(self).rule_checker,
            old(self)@.wf() ==> final(self)@.wf(),
    {
        let now = self.clock.now_millis();
        self.get_all_lobbies_at(now)
    }

    /// Purges at the time `now`, then takes the player out of every game
    /// that holds it.
    pub fn remove_player_from_game_at(&mut self, player_id: PlayerID, now: u64)
        ensures
            final(self)@ == old(self)@.without_player(player_id, now),
            final(self).rule_checker == old(self).rule_checker,
            old(self)@.wf() ==> final(self)@.wf(),
    {
        proof {
            if self@.wf() {
                lemma_controller_without_player_wf(self@, player_id, now);
            }
        }
        self.purge_at(now);
        let ghost purged = self@;
        let mut i: usize = 0;
        while i < self.games.len()
            invariant
                i <= self.games.len(),
                self@.games.len() == purged.games.len(),
                self@.unique_ids == purged.unique_ids,
                self.rule_checker == old(self).rule_checker,
                forall|j: int| 0 <= j < i ==> self@.games[j] == purged.games[j].without_player(
                    player_id,
                ),
                forall|j: int| i <= j < self.games.len() ==> self@.games[j] == purged.games[j],
            decreases self.games.len() - i,
        {
            let ghost before = self.games@;
            let mut game = self.games[i].clone();
            game.remove_player_with_id(player_id);
            let ghost after = game@;
            self.games.set(i, game);
            proof {
                assert(games_model(self.games@) =~= games_model(before).update(i as int, after));
            }
            i += 1;
        }
        proof {
            assert(self@.games =~= purged.games.map_values(dropping(player_id)));
        }
    }

    /// Purges at the present time, then takes the player out of every game
    /// that holds it.
    pub fn remove_player_from_game(&mut self, player_id: PlayerID)
        ensures
            exists|now: u64| final(self)@ == #[trigger] old(self)@.without_player(player_id, now),
            final(self).rule_checker == old(self).rule_checker,
            old(self)@.wf() ==> final(self)@.wf(),
    {
        let now = self.clock.now_millis();
        self.remove_player_from_game_at(player_id, now)
    }

    /// Renews the check-in of an identity at the time `now`, then purges.
    pub fn update_check_in_and_remove_inactive_at(&mut self, player_id: PlayerID, now: u64)
        ensures
            final(self)@ == old(self)@.checked_in(player_id, now),
            final(self).rule_checker == old(self).rule_checker,
            old(self)@.wf() ==> final(self)@.wf(),
    {
        proof {
            if self@.wf() {
                lemma_checked_in_wf(self@, player_id, now);
            }
        }
        let mut i: usize = 0;
        while i < self.unique_ids.len()
            invariant
                i <= self.unique_ids.len(),
                self.unique_ids.len() == old(self).unique_ids.len(),
                self.games == old(self).games,
                self.rule_checker == old(self).rule_checker,
                self.clock == old(self).clock,
                forall|j: int|
                    0 <= j < i ==> self.unique_ids@[j] == renewing(player_id, now)(
                        old(self).unique_ids@[j],
                    ),
                forall|j: int|
                    i <= j < self.unique_ids.len() ==> self.unique_ids@[j] == old(
                        self,
                    ).unique_ids@[j],
            decreases self.unique_ids.len() - i,
        {
            let entry = self.unique_ids[i];
            if entry.0 == player_id {
                self.unique_ids.set(i, (entry.0, now));
            }
            i += 1;
        }
        proof {
            assert(self.unique_ids@ =~= old(self).unique_ids@.map_values(
                renewing(player_id, now),
            ));
        }
        self.purge_at(now);
    }

    /// Renews the check-in of an identity at the present time, then purges.
    pub fn update_check_in_and_remove_inactive(&mut self, player_id: PlayerID)
        ensures
            exists|now: u64| final(self)@ == #[trigger] old(self)@.checked_in(player_id, now),
            final(self).rule_checker == old(self).rule_checker,
            old(self)@.wf() ==> final(self)@.wf(),
    {
        let now = self.clock.now_millis();
        self.update_check_in_and_remove_inactive_at(player_id, now)
    }
}

} // verus!
