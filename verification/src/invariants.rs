//! What is true of every game that the library makes, and stays true
//! whatever is done to it.
use vstd::prelude::*;
use crate::search::{first_index, lemma_any_match, lemma_first_index};
use crate::sequences::{
    all_hold, distinct_by, embeds, lemma_embedded_all_hold, lemma_embedded_distinct,
    lemma_filter_embeds, lemma_filter_push_len, lemma_filter_remove_len, lemma_remove_embeds,
};
use crate::types::{
    DistrictModifier, DistrictModifierType, InGameID, NodeID, Player, PlayerID, PlayerInput,
    PlayerInputType, GameID,
};
use crate::gamestate::{
    GameModel, GameState, all_roles, free_among, of_kind, refresh_all, refresh_role, refreshed,
    rival_with_role, same_modifier, seated, with_role, with_unique_id,
};
use crate::actions::{ActionFault, applied, handled, projected, replayed};
use crate::game_controller::{
    CheckIn, ControllerModel, GameController, fresh_at, holding, issued_as, occupied,
    opened_lobby, outlasting, renewing, sweeping, with_game_id,
};
use crate::node_map::MapModel;
use crate::rule_checker::RuleChecker;

verus! {

/// A player's identity.
pub open spec fn identity_of() -> spec_fn(Player) -> PlayerID {
    |p: Player| p.unique_id
}

/// A player's role.
pub open spec fn role_of() -> spec_fn(Player) -> InGameID {
    |p: Player| p.in_game_id
}

/// Players whose remaining moves are not negative.
pub open spec fn moves_not_negative() -> spec_fn(Player) -> bool {
    |p: Player| p.remaining_moves >= 0
}

/// Players that stand on no node.
pub open spec fn unplaced() -> spec_fn(Player) -> bool {
    |p: Player| p.position_node_id is None
}

/// No kind of modifier occurs more often than its cap allows.
pub open spec fn modifiers_capped(modifiers: Seq<DistrictModifier>) -> bool {
    forall|kind: DistrictModifierType| #[trigger]
        modifiers.filter(of_kind(kind)).len() <= kind.cap()
}

impl GameModel {
    /// The invariant of a game: no two players share an identity or a
    /// role, so there is at most one orchestrator; no player has a
    /// negative number of moves left; in a lobby no player stands on a
    /// node; and no kind of district modifier exceeds its cap.
    pub open spec fn wf(self) -> bool {
        &&& distinct_by(self.players, identity_of())
        &&& distinct_by(self.players, role_of())
        &&& all_hold(self.players, moves_not_negative())
        &&& (self.is_lobby ==> all_hold(self.players, unplaced()))
        &&& modifiers_capped(self.district_modifiers)
    }
}

impl GameState {
    /// Whether no two players share an identity.
    pub fn has_distinct_identities(&self) -> (distinct: bool)
        ensures
            distinct == distinct_by(self@.players, identity_of()),
    {
        let mut j: usize = 0;
        while j < self.players.len()
            invariant
                j <= self.players.len(),
                forall|a: int, b: int|
                    0 <= a < b < j ==> identity_of()(#[trigger] self.players@[a]) != identity_of()(
                        #[trigger] self.players@[b],
                    ),
            decreases self.players.len() - j,
        {
            let mut i: usize = 0;
            while i < j
                invariant
                    i <= j < self.players.len(),
                    forall|a: int|
                        0 <= a < i ==> identity_of()(#[trigger] self.players@[a]) != identity_of()(
                            self.players@[j as int],
                        ),
                decreases j - i,
            {
                if self.players[i].unique_id == self.players[j].unique_id {
                    assert(identity_of()(self.players@[i as int]) == identity_of()(
                        self.players@[j as int],
                    ));
                    return false;
                }
                i += 1;
            }
            j += 1;
        }
        true
    }

    /// Whether no two players share a role.
    pub fn has_distinct_roles(&self) -> (distinct: bool)
        ensures
            distinct == distinct_by(self@.players, role_of()),
    {
        let mut j: usize = 0;
        while j < self.players.len()
            invariant
                j <= self.players.len(),
                forall|a: int, b: int|
                    0 <= a < b < j ==> role_of()(#[trigger] self.players@[a]) != role_of()(
                        #[trigger] self.players@[b],
                    ),
            decreases self.players.len() - j,
        {
            let mut i: usize = 0;
            while i < j
                invariant
                    i <= j < self.players.len(),
                    forall|a: int|
                        0 <= a < i ==> role_of()(#[trigger] self.players@[a]) != role_of()(
                            self.players@[j as int],
                        ),
                decreases j - i,
            {
                if self.players[i].in_game_id == self.players[j].in_game_id {
                    assert(role_of()(self.players@[i as int]) == role_of()(
                        self.players@[j as int],
                    ));
                    return false;
                }
                i += 1;
            }
            j += 1;
        }
        true
    }

    /// Whether no player has a negative number of moves left and, in a
    /// lobby, no player stands on a node.
    pub fn has_sound_players(&self) -> (sound: bool)
        ensures
            sound == (all_hold(self@.players, moves_not_negative()) && (self@.is_lobby ==> all_hold(
                self@.players,
                unplaced(),
            ))),
    {
        let mut i: usize = 0;
        while i < self.players.len()
            invariant
                i <= self.players.len(),
                forall|a: int| 0 <= a < i ==> moves_not_negative()(#[trigger] self.players@[a]),
                self.is_lobby ==> forall|a: int|
                    0 <= a < i ==> unplaced()(#[trigger] self.players@[a]),
            decreases self.players.len() - i,
        {
            let player = self.players[i];
            if player.remaining_moves < 0 {
                assert(!moves_not_negative()(self.players@[i as int]));
                return false;
            }
            if self.is_lobby && player.position_node_id.is_some() {
                assert(!unplaced()(self.players@[i as int]));
                return false;
            }
            i += 1;
        }
        true
    }

    /// Whether no kind of district modifier exceeds its cap.
    pub fn has_capped_modifiers(&self) -> (capped: bool)
        ensures
            capped == modifiers_capped(self@.district_modifiers),
    {
        let access = self.count_modifiers(DistrictModifierType::Access);
        let priority = self.count_modifiers(DistrictModifierType::Priority);
        let toll = self.count_modifiers(DistrictModifierType::Toll);
        let capped = access <= DistrictModifierType::Access.max_count() && priority
            <= DistrictModifierType::Priority.max_count() && toll
            <= DistrictModifierType::Toll.max_count();
        proof {
            let modifiers = self@.district_modifiers;
            if capped {
                assert forall|kind: DistrictModifierType| #[trigger]
                    modifiers.filter(of_kind(kind)).len() <= kind.cap() by {
                    match kind {
                        DistrictModifierType::Access => {},
                        DistrictModifierType::Priority => {},
                        DistrictModifierType::Toll => {},
                    }
                }
            } else {
                assert(self@.modifier_count(DistrictModifierType::Access)
                    > DistrictModifierType::Access.cap() || self@.modifier_count(
                    DistrictModifierType::Priority,
                ) > DistrictModifierType::Priority.cap() || self@.modifier_count(
                    DistrictModifierType::Toll,
                ) > DistrictModifierType::Toll.cap());
            }
        }
        capped
    }

    /// Whether the game is well-formed. Every game that the library makes
    /// is; one put together by hand may not be.
    pub fn is_well_formed(&self) -> (valid: bool)
        ensures
            valid == self@.wf(),
    {
        self.has_distinct_identities() && self.has_distinct_roles() && self.has_sound_players()
            && self.has_capped_modifiers()
    }
}

/// A new game is well-formed.
pub proof fn lemma_fresh_wf(game: GameModel)
    requires
        game.players.len() == 0,
        game.district_modifiers.len() == 0,
    ensures
        game.wf(),
{
    assert forall|kind: DistrictModifierType| #[trigger]
        game.district_modifiers.filter(of_kind(kind)).len() <= kind.cap() by {
        game.district_modifiers.lemma_filter_len(of_kind(kind));
    }
}

/// Entering a game keeps it well-formed.
pub proof fn lemma_joined_wf(game: GameModel, player: Player)
    requires
        game.wf(),
    ensures
        game.joined(player) matches Ok(after) ==> after.wf(),
{
    if let Ok(after) = game.joined(player) {
        let role = game.first_free_role()->Some_0;
        let entrant = seated(player, role, game.is_lobby);
        lemma_first_index(game.players, with_unique_id(player.unique_id));
        lemma_first_index(all_roles(), free_among(game.players));
        lemma_first_index(game.players, with_role(role));
        assert(after.players == game.players.push(entrant));
        assert forall|i: int, j: int| 0 <= i < j < after.players.len() implies identity_of()(
            #[trigger] after.players[i],
        ) != identity_of()(#[trigger] after.players[j]) by {
            if j == game.players.len() {
                assert(!with_unique_id(player.unique_id)(game.players[i]));
            } else {
                assert(after.players[i] == game.players[i]);
                assert(after.players[j] == game.players[j]);
            }
        }
        assert forall|i: int, j: int| 0 <= i < j < after.players.len() implies role_of()(
            #[trigger] after.players[i],
        ) != role_of()(#[trigger] after.players[j]) by {
            if j == game.players.len() {
                assert(!with_role(role)(game.players[i]));
            } else {
                assert(after.players[i] == game.players[i]);
                assert(after.players[j] == game.players[j]);
            }
        }
        assert forall|i: int| 0 <= i < after.players.len() implies moves_not_negative()(
            #[trigger] after.players[i],
        ) by {
            if i < game.players.len() {
                assert(after.players[i] == game.players[i]);
            }
        }
        if after.is_lobby {
            assert forall|i: int| 0 <= i < after.players.len() implies unplaced()(
                #[trigger] after.players[i],
            ) by {
                if i < game.players.len() {
                    assert(after.players[i] == game.players[i]);
                }
            }
        }
    }
}

/// Replacing a player by one of the same identity and role, with moves
/// that are not negative and, in a lobby, without a position, keeps the
/// game well-formed.
pub proof fn lemma_with_player_wf(game: GameModel, i: int, player: Player)
    requires
        game.wf(),
        0 <= i < game.players.len(),
        player.unique_id == game.players[i].unique_id,
        player.in_game_id == game.players[i].in_game_id,
        player.remaining_moves >= 0,
        game.is_lobby ==> player.position_node_id is None,
    ensures
        game.with_player(i, player).wf(),
{
    let after = game.with_player(i, player);
    assert forall|k: int, l: int| 0 <= k < l < after.players.len() implies identity_of()(
        #[trigger] after.players[k],
    ) != identity_of()(#[trigger] after.players[l]) by {
        assert(identity_of()(after.players[k]) == identity_of()(game.players[k]));
        assert(identity_of()(after.players[l]) == identity_of()(game.players[l]));
    }
    assert forall|k: int, l: int| 0 <= k < l < after.players.len() implies role_of()(
        #[trigger] after.players[k],
    ) != role_of()(#[trigger] after.players[l]) by {
        assert(role_of()(after.players[k]) == role_of()(game.players[k]));
        assert(role_of()(after.players[l]) == role_of()(game.players[l]));
    }
    assert forall|k: int| 0 <= k < after.players.len() implies moves_not_negative()(
        #[trigger] after.players[k],
    ) by {
        if k != i {
            assert(after.players[k] == game.players[k]);
        }
    }
    if after.is_lobby {
        assert forall|k: int| 0 <= k < after.players.len() implies unplaced()(
            #[trigger] after.players[k],
        ) by {
            if k != i {
                assert(after.players[k] == game.players[k]);
            }
        }
    }
}

/// Taking a role keeps the game well-formed.
pub proof fn lemma_role_change_wf(game: GameModel, id: PlayerID, role: InGameID)
    requires
        game.wf(),
    ensures
        game.with_role_change(id, role) matches Ok(after) ==> after.wf(),
{
    if let Ok(after) = game.with_role_change(id, role) {
        lemma_first_index(game.players, with_unique_id(id));
        lemma_first_index(game.players, rival_with_role(id, role));
        let i = game.player_index(id)->Some_0;
        assert(after.players == game.players.update(i, after.players[i]));
        assert forall|k: int, l: int| 0 <= k < l < after.players.len() implies identity_of()(
            #[trigger] after.players[k],
        ) != identity_of()(#[trigger] after.players[l]) by {
            assert(identity_of()(after.players[k]) == identity_of()(game.players[k]));
            assert(identity_of()(after.players[l]) == identity_of()(game.players[l]));
        }
        assert forall|k: int, l: int| 0 <= k < l < after.players.len() implies role_of()(
            #[trigger] after.players[k],
        ) != role_of()(#[trigger] after.players[l]) by {
            assert(!rival_with_role(id, role)(game.players[k]));
            assert(!rival_with_role(id, role)(game.players[l]));
            if k != i && l != i {
                assert(after.players[k] == game.players[k]);
                assert(after.players[l] == game.players[l]);
            } else if k == i {
                assert(identity_of()(game.players[l]) != identity_of()(game.players[i]));
                assert(after.players[l] == game.players[l]);
            } else {
                assert(identity_of()(game.players[k]) != identity_of()(game.players[i]));
                assert(after.players[k] == game.players[k]);
            }
        }
        assert forall|k: int| 0 <= k < after.players.len() implies moves_not_negative()(
            #[trigger] after.players[k],
        ) by {
            assert(moves_not_negative()(game.players[k]));
        }
        if after.is_lobby {
            assert forall|k: int| 0 <= k < after.players.len() implies unplaced()(
                #[trigger] after.players[k],
            ) by {
                assert(unplaced()(game.players[k]));
            }
        }
    }
}

/// Leaving players out keeps the game well-formed.
pub proof fn lemma_fewer_players_wf(game: GameModel, players: Seq<Player>, at: spec_fn(int) -> int)
    requires
        game.wf(),
        embeds(players, game.players, at),
    ensures
        (GameModel { players, ..game }).wf(),
{
    lemma_embedded_distinct(players, game.players, at, identity_of());
    lemma_embedded_distinct(players, game.players, at, role_of());
    lemma_embedded_all_hold(players, game.players, at, moves_not_negative());
    if game.is_lobby {
        lemma_embedded_all_hold(players, game.players, at, unplaced());
    }
}

/// Taking a player out keeps the game well-formed.
pub proof fn lemma_without_player_wf(game: GameModel, id: PlayerID)
    requires
        game.wf(),
    ensures
        game.without_player(id).wf(),
{
    lemma_first_index(game.players, with_unique_id(id));
    if let Some(i) = game.player_index(id) {
        let at = lemma_remove_embeds(game.players, i);
        lemma_fewer_players_wf(game, game.players.remove(i), at);
    }
}

/// A move keeps the game well-formed; in a well-formed lobby no move
/// succeeds.
pub proof fn lemma_moved_wf(game: GameModel, id: PlayerID, to: NodeID)
    requires
        game.wf(),
    ensures
        game.moved(id, to) matches Ok(after) ==> after.wf() && !game.is_lobby,
{
    if let Ok(after) = game.moved(id, to) {
        lemma_first_index(game.players, with_unique_id(id));
        let i = game.player_index(id)->Some_0;
        if game.is_lobby {
            assert(unplaced()(game.players[i]));
        }
        assert(moves_not_negative()(game.players[i]));
        lemma_with_player_wf(game, i, after.players[i]);
        assert(after.players =~= game.players.update(i, after.players[i]));
    }
}

/// A switch of bus mode keeps the game well-formed.
pub proof fn lemma_with_bus_wf(game: GameModel, id: PlayerID, is_bus: bool)
    requires
        game.wf(),
    ensures
        game.with_bus(id, is_bus) matches Ok(after) ==> after.wf(),
{
    if let Ok(after) = game.with_bus(id, is_bus) {
        lemma_first_index(game.players, with_unique_id(id));
        let i = game.player_index(id)->Some_0;
        assert(moves_not_negative()(game.players[i]));
        if game.is_lobby {
            assert(unplaced()(game.players[i]));
        }
        lemma_with_player_wf(game, i, after.players[i]);
        assert(after.players =~= game.players.update(i, after.players[i]));
    }
}

/// Handing out the moves for a turn, to some players or to all, keeps a
/// game well-formed, whatever becomes of its lobby flag and its turn.
pub proof fn lemma_refreshed_wf(
    game: GameModel,
    players: Seq<Player>,
    is_lobby: bool,
    turn: InGameID,
)
    requires
        game.wf(),
        players.len() == game.players.len(),
        forall|k: int|
            0 <= k < players.len() ==> #[trigger] players[k] == game.players[k] || players[k]
                == refreshed(game.players[k]),
        is_lobby ==> game.is_lobby,
    ensures
        (GameModel { players, is_lobby, current_players_turn: turn, ..game }).wf(),
{
    assert forall|k: int, l: int| 0 <= k < l < players.len() implies identity_of()(
        #[trigger] players[k],
    ) != identity_of()(#[trigger] players[l]) by {
        assert(identity_of()(players[k]) == identity_of()(game.players[k]));
        assert(identity_of()(players[l]) == identity_of()(game.players[l]));
    }
    assert forall|k: int, l: int| 0 <= k < l < players.len() implies role_of()(
        #[trigger] players[k],
    ) != role_of()(#[trigger] players[l]) by {
        assert(role_of()(players[k]) == role_of()(game.players[k]));
        assert(role_of()(players[l]) == role_of()(game.players[l]));
    }
    assert forall|k: int| 0 <= k < players.len() implies moves_not_negative()(
        #[trigger] players[k],
    ) by {
        assert(moves_not_negative()(game.players[k]));
    }
    if is_lobby {
        assert forall|k: int| 0 <= k < players.len() implies unplaced()(#[trigger] players[k]) by {
            assert(unplaced()(game.players[k]));
        }
    }
}

/// Passing the turn on keeps the game well-formed.
pub proof fn lemma_turn_advanced_wf(game: GameModel)
    requires
        game.wf(),
    ensures
        game.turn_advanced().wf(),
{
    let role = game.next_turn_role();
    lemma_refreshed_wf(game, game.players.map_values(refresh_role(role)), game.is_lobby, role);
}

/// Starting a game keeps it well-formed.
pub proof fn lemma_started_wf(game: GameModel)
    requires
        game.wf(),
    ensures
        game.started() matches Ok(after) ==> after.wf(),
{
    if game.started() is Ok {
        lemma_refreshed_wf(
            game,
            game.players.map_values(refresh_all()),
            false,
            game.current_players_turn,
        );
    }
}

/// Laying or lifting a district modifier keeps the game well-formed: no
/// kind of modifier comes to exceed its cap.
pub proof fn lemma_with_modifier_wf(game: GameModel, modifier: DistrictModifier)
    requires
        game.wf(),
    ensures
        game.with_modifier(modifier) matches Ok(after) ==> after.wf(),
{
    if let Ok(after) = game.with_modifier(modifier) {
        let before = game.district_modifiers;
        assert forall|kind: DistrictModifierType| #[trigger]
            after.district_modifiers.filter(of_kind(kind)).len() <= kind.cap() by {
            assert(before.filter(of_kind(kind)).len() <= kind.cap());
            if modifier.delete {
                let wanted = DistrictModifier { delete: false, ..modifier };
                lemma_first_index(before, same_modifier(wanted));
                let i = first_index(before, same_modifier(wanted))->Some_0;
                lemma_filter_remove_len(before, i, of_kind(kind));
            } else {
                lemma_filter_push_len(before, modifier, of_kind(kind));
            }
        }
    }
}

/// Applying an input keeps the game well-formed.
pub proof fn lemma_applied_wf(game: GameModel, input: PlayerInput)
    requires
        game.wf(),
    ensures
        applied(game, input) matches Ok(after) ==> after.wf(),
{
    match input.input_type {
        PlayerInputType::Movement => {
            if let Some(to) = input.related_node_id {
                lemma_moved_wf(game, input.player_id, to);
            }
        },
        PlayerInputType::ChangeRole => {
            if let Some(role) = input.related_role {
                lemma_role_change_wf(game, input.player_id, role);
            }
        },
        PlayerInputType::ModifyDistrict => {
            if let Some(modifier) = input.district_modifier {
                lemma_with_modifier_wf(game, modifier);
            }
        },
        PlayerInputType::ModifyEdgeRestrictions => {},
        PlayerInputType::SetPlayerBusBool => {
            if let Some(is_bus) = input.related_bool {
                lemma_with_bus_wf(game, input.player_id, is_bus);
            }
        },
        PlayerInputType::StartGame => {
            lemma_started_wf(game);
        },
        PlayerInputType::LeaveGame => {
            lemma_without_player_wf(game, input.player_id);
        },
        _ => {},
    }
}

/// Replaying a log keeps the game well-formed.
pub proof fn lemma_replayed_wf(game: GameModel, log: Seq<PlayerInput>)
    requires
        game.wf(),
    ensures
        replayed(game, log) matches Ok(after) ==> after.wf(),
    decreases log.len(),
{
    if log.len() > 0 {
        lemma_applied_wf(game, log[0]);
        if let Ok(next) = applied(game, log[0]) {
            lemma_replayed_wf(next, log.drop_first());
        }
    }
}

/// Whatever the pipeline does with an input, the game stays well-formed.
pub proof fn lemma_handled_wf(game: GameModel, input: PlayerInput)
    requires
        game.wf(),
    ensures
        handled(game, input) matches Ok(after) ==> after.wf(),
{
    lemma_replayed_wf(game, game.actions);
    lemma_applied_wf(game, input);
    if input.input_type == PlayerInputType::NextTurn {
        if let Ok(ahead) = projected(game) {
            let emptied = GameModel { actions: Seq::empty(), ..ahead };
            assert(emptied.wf());
            lemma_turn_advanced_wf(emptied);
        }
    }
}

/// Two lists of players hold the same identities place by place.
pub open spec fn same_identities(after: Seq<Player>, before: Seq<Player>) -> bool {
    &&& after.len() == before.len()
    &&& forall|k: int|
        0 <= k < after.len() ==> (#[trigger] after[k]).unique_id == before[k].unique_id
}

/// Whoever is in the game `after` was in the game `before`.
pub open spec fn no_newcomers(before: GameModel, after: GameModel) -> bool {
    forall|id: PlayerID| #[trigger] after.contains_player(id) ==> before.contains_player(id)
}

/// A game whose players keep their identities has no newcomers.
pub proof fn lemma_same_identities_no_newcomers(before: GameModel, after: GameModel)
    requires
        same_identities(after.players, before.players),
    ensures
        no_newcomers(before, after),
{
    assert forall|id: PlayerID| #[trigger] after.contains_player(id) implies before.contains_player(
        id,
    ) by {
        lemma_first_index(after.players, with_unique_id(id));
        let k = first_index(after.players, with_unique_id(id))->Some_0;
        assert(with_unique_id(id)(before.players[k]));
        lemma_any_match(before.players, with_unique_id(id), k);
    }
}

/// A game that has only lost players has no newcomers.
pub proof fn lemma_embedded_no_newcomers(
    before: GameModel,
    after: GameModel,
    at: spec_fn(int) -> int,
)
    requires
        embeds(after.players, before.players, at),
    ensures
        no_newcomers(before, after),
{
    assert forall|id: PlayerID| #[trigger] after.contains_player(id) implies before.contains_player(
        id,
    ) by {
        lemma_first_index(after.players, with_unique_id(id));
        let k = first_index(after.players, with_unique_id(id))->Some_0;
        assert(after.players[k] == before.players[at(k)]);
        lemma_any_match(before.players, with_unique_id(id), at(k));
    }
}

/// Whoever is in a game after a player has entered it was in it before, or
/// is that player.
pub proof fn lemma_joined_one_newcomer(game: GameModel, player: Player)
    ensures
        game.joined(player) matches Ok(after) ==> forall|id: PlayerID| #[trigger]
            after.contains_player(id) ==> game.contains_player(id) || id == player.unique_id,
{
    if let Ok(after) = game.joined(player) {
        assert forall|id: PlayerID| #[trigger] after.contains_player(id) implies game.contains_player(
            id,
        ) || id == player.unique_id by {
            lemma_first_index(after.players, with_unique_id(id));
            let k = first_index(after.players, with_unique_id(id))->Some_0;
            if k < game.players.len() {
                assert(after.players[k] == game.players[k]);
                lemma_any_match(game.players, with_unique_id(id), k);
            }
        }
    }
}

/// No input brings a player into a game.
pub proof fn lemma_applied_no_newcomers(game: GameModel, input: PlayerInput)
    ensures
        applied(game, input) matches Ok(after) ==> no_newcomers(game, after),
{
    if let Ok(after) = applied(game, input) {
        lemma_first_index(game.players, with_unique_id(input.player_id));
        match input.input_type {
            PlayerInputType::LeaveGame => {
                if let Some(i) = game.player_index(input.player_id) {
                    let at = lemma_remove_embeds(game.players, i);
                    lemma_embedded_no_newcomers(game, after, at);
                }
            },
            PlayerInputType::ModifyDistrict | PlayerInputType::ModifyEdgeRestrictions => {},
            _ => {
                lemma_same_identities_no_newcomers(game, after);
            },
        }
    }
}

/// No replay brings a player into a game.
pub proof fn lemma_replayed_no_newcomers(game: GameModel, log: Seq<PlayerInput>)
    ensures
        replayed(game, log) matches Ok(after) ==> no_newcomers(game, after),
    decreases log.len(),
{
    if log.len() > 0 {
        lemma_applied_no_newcomers(game, log[0]);
        if let Ok(next) = applied(game, log[0]) {
            lemma_replayed_no_newcomers(next, log.drop_first());
        }
    }
}

/// Nothing that the pipeline does brings a player into a game.
pub proof fn lemma_handled_no_newcomers(game: GameModel, input: PlayerInput)
    ensures
        handled(game, input) matches Ok(after) ==> no_newcomers(game, after),
{
    lemma_replayed_no_newcomers(game, game.actions);
    lemma_applied_no_newcomers(game, input);
    if let Ok(after) = handled(game, input) {
        assert forall|id: PlayerID| #[trigger]
            after.contains_player(id) implies game.contains_player(id) by {
            if input.input_type == PlayerInputType::NextTurn {
                let ahead = projected(game)->Ok_0;
                let emptied = GameModel { actions: Seq::empty(), ..ahead };
                lemma_same_identities_no_newcomers(emptied, after);
                assert(emptied.contains_player(id));
                assert(ahead.contains_player(id));
            } else {
                assert(after.players == game.players || applied(game, input) == Ok::<
                    GameModel,
                    ActionFault,
                >(after));
            }
        }
    }
}


} // verus!

verus! {

/// Games that are well-formed.
pub open spec fn well_formed() -> spec_fn(GameModel) -> bool {
    |game: GameModel| game.wf()
}

/// A game's identity.
pub open spec fn game_id_of() -> spec_fn(GameModel) -> GameID {
    |game: GameModel| game.id
}

/// No identity plays in two games.
pub open spec fn apart(games: Seq<GameModel>) -> bool {
    forall|i: int, j: int, id: PlayerID|
        0 <= i < j < games.len() && #[trigger] games[i].contains_player(id)
            ==> !#[trigger] games[j].contains_player(id)
}

/// The identity that a check-in is of.
pub open spec fn checked_in_as() -> spec_fn(CheckIn) -> PlayerID {
    |entry: CheckIn| entry.0
}

impl ControllerModel {
    /// The invariant of a controller: every game is well-formed, no two
    /// games share an identity, no player is in two games, and no identity
    /// is registered twice.
    pub open spec fn wf(self) -> bool {
        &&& all_hold(self.games, well_formed())
        &&& distinct_by(self.games, game_id_of())
        &&& apart(self.games)
        &&& distinct_by(self.unique_ids, checked_in_as())
    }
}

/// Games that have only lost players are still apart.
pub proof fn lemma_apart_without_newcomers(before: Seq<GameModel>, after: Seq<GameModel>)
    requires
        apart(before),
        after.len() == before.len(),
        forall|k: int| 0 <= k < after.len() ==> no_newcomers(before[k], #[trigger] after[k]),
    ensures
        apart(after),
{
    assert forall|i: int, j: int, id: PlayerID|
        0 <= i < j < after.len() && #[trigger] after[i].contains_player(
            id,
        ) implies !#[trigger] after[j].contains_player(id) by {
        assert(no_newcomers(before[i], after[i]));
        assert(no_newcomers(before[j], after[j]));
        assert(before[i].contains_player(id));
        if after[j].contains_player(id) {
            assert(before[j].contains_player(id));
        }
    }
}

/// Games stay apart when games are left out.
pub proof fn lemma_apart_embedded(
    inner: Seq<GameModel>,
    outer: Seq<GameModel>,
    at: spec_fn(int) -> int,
)
    requires
        embeds(inner, outer, at),
        apart(outer),
    ensures
        apart(inner),
{
    assert forall|i: int, j: int, id: PlayerID|
        0 <= i < j < inner.len() && #[trigger] inner[i].contains_player(
            id,
        ) implies !#[trigger] inner[j].contains_player(id) by {
        assert(at(i) < at(j));
        assert(inner[i] == outer[at(i)]);
        assert(inner[j] == outer[at(j)]);
        assert(outer[at(i)].contains_player(id));
    }
}

/// Some identity plays in both games.
pub open spec fn cohabit(first: GameModel, second: GameModel) -> bool {
    exists|id: PlayerID| #[trigger] first.contains_player(id) && second.contains_player(id)
}

/// Whether some identity plays in both games.
pub fn shares_a_player(first: &GameState, second: &GameState) -> (shared: bool)
    ensures
        shared == cohabit(first@, second@),
{
    let mut k: usize = 0;
    while k < first.players.len()
        invariant
            k <= first.players.len(),
            forall|a: int|
                0 <= a < k ==> !second@.contains_player((#[trigger] first.players@[a]).unique_id),
        decreases first.players.len() - k,
    {
        let id = first.players[k].unique_id;
        if second.contains_player_with_unique_id(id) {
            proof {
                lemma_any_match(first@.players, with_unique_id(id), k as int);
                assert(first@.contains_player(id) && second@.contains_player(id));
            }
            return true;
        }
        k += 1;
    }
    proof {
        assert forall|id: PlayerID| #[trigger]
            first@.contains_player(id) implies !second@.contains_player(id) by {
            lemma_first_index(first@.players, with_unique_id(id));
            let a = first_index(first@.players, with_unique_id(id))->Some_0;
            assert(first.players@[a].unique_id == id);
        }
    }
    false
}

impl<R: RuleChecker> GameController<R> {
    /// Whether every game is well-formed.
    pub fn has_well_formed_games(&self) -> (sound: bool)
        ensures
            sound == all_hold(self@.games, well_formed()),
    {
        let mut i: usize = 0;
        while i < self.games.len()
            invariant
                i <= self.games.len(),
                forall|a: int| 0 <= a < i ==> well_formed()(#[trigger] self@.games[a]),
            decreases self.games.len() - i,
        {
            if !self.games[i].is_well_formed() {
                assert(!well_formed()(self@.games[i as int]));
                return false;
            }
            i += 1;
        }
        true
    }

    /// Whether no two games share an identity.
    pub fn has_distinct_game_ids(&self) -> (distinct: bool)
        ensures
            distinct == distinct_by(self@.games, game_id_of()),
    {
        let mut j: usize = 0;
        while j < self.games.len()
            invariant
                j <= self.games.len(),
                forall|a: int, b: int|
                    0 <= a < b < j ==> game_id_of()(#[trigger] self@.games[a]) != game_id_of()(
                        #[trigger] self@.games[b],
                    ),
            decreases self.games.len() - j,
        {
            let mut i: usize = 0;
            while i < j
                invariant
                    i <= j < self.games.len(),
                    forall|a: int|
                        0 <= a < i ==> game_id_of()(#[trigger] self@.games[a]) != game_id_of()(
                            self@.games[j as int],
                        ),
                decreases j - i,
            {
                if self.games[i].id == self.games[j].id {
                    assert(game_id_of()(self@.games[i as int]) == game_id_of()(
                        self@.games[j as int],
                    ));
                    return false;
                }
                i += 1;
            }
            j += 1;
        }
        true
    }

    /// Whether no identity plays in two games.
    pub fn has_games_apart(&self) -> (separate: bool)
        ensures
            separate == apart(self@.games),
    {
        let mut j: usize = 0;
        while j < self.games.len()
            invariant
                j <= self.games.len(),
                forall|a: int, b: int|
                    0 <= a < b < j ==> !cohabit(
                        #[trigger] self@.games[a],
                        #[trigger] self@.games[b],
                    ),
            decreases self.games.len() - j,
        {
            let mut i: usize = 0;
            while i < j
                invariant
                    i <= j < self.games.len(),
                    forall|a: int|
                        0 <= a < i ==> !cohabit(#[trigger] self@.games[a], self@.games[j as int]),
                decreases j - i,
            {
                if shares_a_player(&self.games[i], &self.games[j]) {
                    proof {
                        let first = self@.games[i as int];
                        let second = self@.games[j as int];
                        let id = choose|id: PlayerID| #[trigger]
                            first.contains_player(id) && second.contains_player(id);
                        assert(self@.games[i as int].contains_player(id));
                        assert(self@.games[j as int].contains_player(id));
                    }
                    return false;
                }
                i += 1;
            }
            j += 1;
        }
        proof {
            let games = self@.games;
            assert forall|a: int, b: int, id: PlayerID|
                0 <= a < b < games.len() && #[trigger] games[a].contains_player(
                    id,
                ) implies !#[trigger] games[b].contains_player(id) by {
                assert(!cohabit(games[a], games[b]));
            }
        }
        true
    }

    /// Whether no identity is registered twice.
    pub fn has_distinct_check_ins(&self) -> (distinct: bool)
        ensures
            distinct == distinct_by(self@.unique_ids, checked_in_as()),
    {
        let mut j: usize = 0;
        while j < self.unique_ids.len()
            invariant
                j <= self.unique_ids.len(),
                forall|a: int, b: int|
                    0 <= a < b < j ==> checked_in_as()(#[trigger] self.unique_ids@[a])
                        != checked_in_as()(#[trigger] self.unique_ids@[b]),
            decreases self.unique_ids.len() - j,
        {
            let mut i: usize = 0;
            while i < j
                invariant
                    i <= j < self.unique_ids.len(),
                    forall|a: int|
                        0 <= a < i ==> checked_in_as()(#[trigger] self.unique_ids@[a])
                            != checked_in_as()(self.unique_ids@[j as int]),
                decreases j - i,
            {
                if self.unique_ids[i].0 == self.unique_ids[j].0 {
                    assert(checked_in_as()(self.unique_ids@[i as int]) == checked_in_as()(
                        self.unique_ids@[j as int],
                    ));
                    return false;
                }
                i += 1;
            }
            j += 1;
        }
        true
    }

    /// Whether the controller is well-formed. Every controller that the
    /// library makes is; one put together by hand may not be.
    pub fn is_well_formed(&self) -> (valid: bool)
        ensures
            valid == self@.wf(),
    {
        self.has_well_formed_games() && self.has_distinct_game_ids() && self.has_games_apart()
            && self.has_distinct_check_ins()
    }
}

/// No input changes a game's identity.
pub proof fn lemma_applied_keeps_id(game: GameModel, input: PlayerInput)
    ensures
        applied(game, input) matches Ok(after) ==> after.id == game.id,
{
}

/// No replay changes a game's identity.
pub proof fn lemma_replayed_keeps_id(game: GameModel, log: Seq<PlayerInput>)
    ensures
        replayed(game, log) matches Ok(after) ==> after.id == game.id,
    decreases log.len(),
{
    if log.len() > 0 {
        lemma_applied_keeps_id(game, log[0]);
        if let Ok(next) = applied(game, log[0]) {
            lemma_replayed_keeps_id(next, log.drop_first());
        }
    }
}

/// Nothing that the pipeline does changes a game's identity.
pub proof fn lemma_handled_keeps_id(game: GameModel, input: PlayerInput)
    ensures
        handled(game, input) matches Ok(after) ==> after.id == game.id,
{
    lemma_replayed_keeps_id(game, game.actions);
    lemma_applied_keeps_id(game, input);
}

/// Putting a well-formed game of the same identity in a game's place keeps
/// the controller well-formed.
pub proof fn lemma_with_game_at_wf(
    controller: ControllerModel,
    i: int,
    game: GameModel,
)
    requires
        controller.wf(),
        0 <= i < controller.games.len(),
        game.wf(),
        game.id == controller.games[i].id,
        no_newcomers(controller.games[i], game),
    ensures
        controller.with_game_at(i, game).wf(),
{
    let after = controller.with_game_at(i, game);
    assert forall|k: int| 0 <= k < after.games.len() implies no_newcomers(
        controller.games[k],
        #[trigger] after.games[k],
    ) by {}
    lemma_apart_without_newcomers(controller.games, after.games);
    assert forall|k: int| 0 <= k < after.games.len() implies well_formed()(
        #[trigger] after.games[k],
    ) by {
        if k != i {
            assert(well_formed()(controller.games[k]));
        }
    }
    assert forall|k: int, l: int| 0 <= k < l < after.games.len() implies game_id_of()(
        #[trigger] after.games[k],
    ) != game_id_of()(#[trigger] after.games[l]) by {
        assert(game_id_of()(after.games[k]) == game_id_of()(controller.games[k]));
        assert(game_id_of()(after.games[l]) == game_id_of()(controller.games[l]));
    }
}

/// The purge keeps the controller well-formed.
pub proof fn lemma_purged_wf(controller: ControllerModel, now: u64)
    requires
        controller.wf(),
    ensures
        controller.purged(now).wf(),
{
    let ids = controller.unique_ids;
    let sweep = sweeping(ids, now);
    let mapped = controller.games.map_values(sweep);
    assert forall|k: int| 0 <= k < mapped.len() implies well_formed()(#[trigger] mapped[k]) by {
        let game = controller.games[k];
        assert(well_formed()(game));
        let at = lemma_filter_embeds(game.players, outlasting(ids, now));
        lemma_fewer_players_wf(
            game,
            game.players.filter(outlasting(ids, now)),
            at,
        );
    }
    assert forall|k: int, l: int| 0 <= k < l < mapped.len() implies game_id_of()(
        #[trigger] mapped[k],
    ) != game_id_of()(#[trigger] mapped[l]) by {
        assert(game_id_of()(mapped[k]) == game_id_of()(controller.games[k]));
        assert(game_id_of()(mapped[l]) == game_id_of()(controller.games[l]));
    }
    assert forall|k: int| 0 <= k < mapped.len() implies no_newcomers(
        controller.games[k],
        #[trigger] mapped[k],
    ) by {
        let game = controller.games[k];
        let kept = lemma_filter_embeds(game.players, outlasting(ids, now));
        lemma_embedded_no_newcomers(game, mapped[k], kept);
    }
    lemma_apart_without_newcomers(controller.games, mapped);
    let at = lemma_filter_embeds(mapped, occupied());
    lemma_apart_embedded(mapped.filter(occupied()), mapped, at);
    lemma_embedded_all_hold(
        mapped.filter(occupied()),
        mapped,
        at,
        well_formed(),
    );
    lemma_embedded_distinct(
        mapped.filter(occupied()),
        mapped,
        at,
        game_id_of(),
    );
    let kept = lemma_filter_embeds(ids, fresh_at(now));
    lemma_embedded_distinct(
        ids.filter(fresh_at(now)),
        ids,
        kept,
        checked_in_as(),
    );
}

/// Registering an identity that is not registered keeps the controller
/// well-formed.
pub proof fn lemma_with_identity_wf(
    controller: ControllerModel,
    id: PlayerID,
    now: u64,
)
    requires
        controller.wf(),
        !controller.is_registered(id),
    ensures
        controller.with_identity(id, now).wf(),
{
    let after = controller.with_identity(id, now);
    lemma_first_index(controller.unique_ids, issued_as(id));
    assert forall|k: int, l: int| 0 <= k < l < after.unique_ids.len() implies checked_in_as()(
        #[trigger] after.unique_ids[k],
    ) != checked_in_as()(#[trigger] after.unique_ids[l]) by {
        if l == controller.unique_ids.len() {
            assert(!issued_as(id)(controller.unique_ids[k]));
        } else {
            assert(after.unique_ids[k] == controller.unique_ids[k]);
            assert(after.unique_ids[l] == controller.unique_ids[l]);
        }
    }
}

/// A check-in, with the purge that follows it, keeps the controller
/// well-formed.
pub proof fn lemma_checked_in_wf(
    controller: ControllerModel,
    id: PlayerID,
    now: u64,
)
    requires
        controller.wf(),
    ensures
        controller.checked_in(id, now).wf(),
{
    let renewed = ControllerModel {
        unique_ids: controller.unique_ids.map_values(renewing(id, now)),
        ..controller
    };
    assert forall|k: int, l: int| 0 <= k < l < renewed.unique_ids.len() implies checked_in_as()(
        #[trigger] renewed.unique_ids[k],
    ) != checked_in_as()(#[trigger] renewed.unique_ids[l]) by {
        assert(checked_in_as()(renewed.unique_ids[k]) == checked_in_as()(
            controller.unique_ids[k],
        ));
        assert(checked_in_as()(renewed.unique_ids[l]) == checked_in_as()(
            controller.unique_ids[l],
        ));
    }
    lemma_purged_wf(renewed, now);
}

/// Taking a player out of every game, after the purge, keeps the
/// controller well-formed.
pub proof fn lemma_controller_without_player_wf(
    controller: ControllerModel,
    id: PlayerID,
    now: u64,
)
    requires
        controller.wf(),
    ensures
        controller.without_player(id, now).wf(),
{
    lemma_purged_wf(controller, now);
    let purged = controller.purged(now);
    let after = controller.without_player(id, now);
    assert forall|k: int| 0 <= k < after.games.len() implies well_formed()(
        #[trigger] after.games[k],
    ) by {
        assert(well_formed()(purged.games[k]));
        lemma_without_player_wf(purged.games[k], id);
    }
    assert forall|k: int| 0 <= k < after.games.len() implies no_newcomers(
        purged.games[k],
        #[trigger] after.games[k],
    ) by {
        let game = purged.games[k];
        lemma_first_index(game.players, with_unique_id(id));
        if let Some(i) = game.player_index(id) {
            let at = lemma_remove_embeds(game.players, i);
            lemma_embedded_no_newcomers(game, after.games[k], at);
        }
    }
    lemma_apart_without_newcomers(purged.games, after.games);
    assert forall|k: int, l: int| 0 <= k < l < after.games.len() implies game_id_of()(
        #[trigger] after.games[k],
    ) != game_id_of()(#[trigger] after.games[l]) by {
        assert(game_id_of()(after.games[k]) == game_id_of()(purged.games[k]));
        assert(game_id_of()(after.games[l]) == game_id_of()(purged.games[l]));
    }
}

/// A player joining a game keeps the controller well-formed.
pub proof fn lemma_controller_joined_wf(
    controller: ControllerModel,
    game_id: GameID,
    player: Player,
)
    requires
        controller.wf(),
    ensures
        controller.joined(game_id, player).0.wf(),
{
    lemma_first_index(controller.games, with_game_id(game_id));
    lemma_first_index(controller.games, holding(player.unique_id));
    if !controller.is_playing(player.unique_id) {
        if let Some(i) = controller.game_index(game_id) {
            assert(well_formed()(controller.games[i]));
            lemma_joined_wf(controller.games[i], player);
            lemma_joined_one_newcomer(controller.games[i], player);
            if let Ok(game) = controller.games[i].joined(player) {
                let after = controller.with_game_at(i, game);
                assert forall|k: int| 0 <= k < after.games.len() implies well_formed()(
                    #[trigger] after.games[k],
                ) by {
                    if k != i {
                        assert(well_formed()(controller.games[k]));
                    }
                }
                assert forall|k: int, l: int| 0 <= k < l < after.games.len() implies game_id_of()(
                    #[trigger] after.games[k],
                ) != game_id_of()(#[trigger] after.games[l]) by {
                    assert(game_id_of()(after.games[k]) == game_id_of()(controller.games[k]));
                    assert(game_id_of()(after.games[l]) == game_id_of()(controller.games[l]));
                }
                assert forall|k: int, l: int, id: PlayerID|
                    0 <= k < l < after.games.len() && #[trigger] after.games[k].contains_player(
                        id,
                    ) implies !#[trigger] after.games[l].contains_player(id) by {
                    assert(!holding(player.unique_id)(controller.games[k]));
                    assert(!holding(player.unique_id)(controller.games[l]));
                    if after.games[l].contains_player(id) {
                        assert(controller.games[k].contains_player(id));
                        assert(controller.games[l].contains_player(id));
                    }
                }
            }
        }
    }
}

/// The lobby that a host opens is well-formed.
pub proof fn lemma_opened_lobby_wf(
    host: Player,
    name: Seq<char>,
    map: MapModel,
    id: GameID,
)
    ensures
        opened_lobby(host, name, map, id).wf(),
        opened_lobby(host, name, map, id).id == id,
        forall|player: PlayerID| #[trigger]
            opened_lobby(host, name, map, id).contains_player(player) ==> player
                == host.unique_id,
{
    let lobby = opened_lobby(host, name, map, id);
    assert forall|player: PlayerID| #[trigger] lobby.contains_player(player) implies player
        == host.unique_id by {
        lemma_first_index(lobby.players, with_unique_id(player));
    }
    assert forall|kind: DistrictModifierType| #[trigger]
        lobby.district_modifiers.filter(of_kind(kind)).len() <= kind.cap() by {
        lobby.district_modifiers.lemma_filter_len(of_kind(kind));
    }
}

/// A new game with an identity that no game has keeps the controller
/// well-formed.
pub proof fn lemma_with_game_wf(
    controller: ControllerModel,
    game: GameModel,
)
    requires
        controller.wf(),
        game.wf(),
        controller.game_index(game.id) is None,
        forall|id: PlayerID| #[trigger] game.contains_player(id) ==> !controller.is_playing(id),
    ensures
        controller.with_game(game).wf(),
{
    let after = controller.with_game(game);
    assert forall|k: int, l: int, id: PlayerID|
        0 <= k < l < after.games.len() && #[trigger] after.games[k].contains_player(
            id,
        ) implies !#[trigger] after.games[l].contains_player(id) by {
        if l == controller.games.len() {
            if game.contains_player(id) {
                lemma_first_index(controller.games, holding(id));
                assert(!holding(id)(controller.games[k]));
            }
        } else {
            assert(after.games[k] == controller.games[k]);
            assert(after.games[l] == controller.games[l]);
        }
    }
    lemma_first_index(controller.games, with_game_id(game.id));
    assert forall|k: int| 0 <= k < after.games.len() implies well_formed()(
        #[trigger] after.games[k],
    ) by {
        if k < controller.games.len() {
            assert(well_formed()(controller.games[k]));
        }
    }
    assert forall|k: int, l: int| 0 <= k < l < after.games.len() implies game_id_of()(
        #[trigger] after.games[k],
    ) != game_id_of()(#[trigger] after.games[l]) by {
        if l == controller.games.len() {
            assert(!with_game_id(game.id)(controller.games[k]));
        } else {
            assert(after.games[k] == controller.games[k]);
            assert(after.games[l] == controller.games[l]);
        }
    }
}

/// Handling an input keeps the controller well-formed, whatever the rule
/// engine says.
pub proof fn lemma_input_handled_wf<R: RuleChecker>(
    controller: ControllerModel,
    checker: R,
    input: PlayerInput,
    now: u64,
)
    requires
        controller.wf(),
    ensures
        controller.input_handled(checker, input, now).0.wf(),
{
    lemma_purged_wf(controller, now);
    let purged = controller.purged(now);
    lemma_first_index(purged.games, with_game_id(input.game_id));
    if let Some(i) = purged.game_index(input.game_id) {
        assert(well_formed()(purged.games[i]));
        lemma_handled_wf(purged.games[i], input);
        lemma_handled_keeps_id(purged.games[i], input);
        lemma_handled_no_newcomers(purged.games[i], input);
        if let Ok(game) = handled(purged.games[i], input) {
            lemma_with_game_at_wf(purged, i, game);
        }
    }
}

} // verus!
