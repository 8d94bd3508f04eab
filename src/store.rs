use vstd::prelude::*;
use std::collections::HashMap;
use crate::piece::{Piece, PieceType, Side, other_side};
use crate::board::{
    Board, BOARD_WIDTH, ids_unique, water_empty, spec_find, cell_index, on_board, is_water,
    holds_id, lemma_find_in_bounds,
};
use crate::rules::{
    MoveResult, MoveResponse, MoveError, move_piece as board_move, spec_valid_move, spec_valid_move_from_id,
    spec_after_move, spec_apply,
};
use crate::setup::{
    InitSetupError, ROSTER_SIZE, validate_roster, roster_valid, check_ids_fresh, ids_fresh,
    place_roster, spec_place, setup_entry,
};
use crate::ids::fresh_id;

verus! {

/// How a new game is set up: against a bot or not, and which side owns the
/// home rows at the bottom of the board.
#[derive(Clone, Copy, Debug, PartialEq, Eq, Structural)]
pub struct GameInfo {
    pub vs_bot: bool,
    pub primary_side: Side,
}

/// What a joining client receives: its access token and its side, or `None`
/// for a spectator.
#[derive(Clone, Copy, Debug, PartialEq, Eq, Structural)]
pub struct UserToken {
    pub access_token: u128,
    pub side: Option<Side>,
}

/// A request to move a piece.
#[derive(Clone, Copy, Debug, PartialEq, Eq, Structural)]
pub struct PieceMove {
    pub access_token: u128,
    pub piece_id: u128,
    pub x: usize,
    pub y: usize,
}

/// A request to place a side's 40 pieces.
#[derive(Clone, Copy, Debug, PartialEq, Eq)]
pub struct InitState {
    pub access_token: u128,
    pub pieces: [PieceType; 40],
}

/// A snapshot of a game for a client.
#[derive(Clone, Copy, Debug, PartialEq, Eq)]
pub struct BoardState {
    pub board: Board,
    pub active_side: Side,
    /// Both sides have placed their pieces.
    pub ready: bool,
}

/// A client of a game and the side it plays, if any.
#[derive(Clone, Copy, Debug, PartialEq, Eq, Structural)]
pub struct Client {
    pub token: u128,
    pub side: Option<Side>,
}

/// Why a client could not join a game.
#[derive(Clone, Copy, Debug, PartialEq, Eq, Structural)]
pub enum JoinError {
    GameDoesNotExist,
    /// The access token drawn for the client is already in use in this game.
    TokenInUse,
}

/// Why a game could not be created.
#[derive(Clone, Copy, Debug, PartialEq, Eq, Structural)]
pub enum CreateError {
    /// The id drawn for the game already names a live game.
    IdInUse,
}

/// Why a client was refused access to a game.
#[derive(Clone, Copy, Debug, PartialEq, Eq, Structural)]
pub enum AccessError {
    GameDoesNotExist,
    NotAClient,
}

/// Whether some client plays side `s`.
pub open spec fn side_taken(clients: Seq<Client>, s: Side) -> bool {
    exists|i: int| 0 <= i < clients.len() && (#[trigger] clients[i]).side == Some(s)
}

/// Whether some client holds `token`.
pub open spec fn has_token(clients: Seq<Client>, token: u128) -> bool {
    exists|i: int| 0 <= i < clients.len() && (#[trigger] clients[i]).token == token
}

/// No two clients share a token.
pub open spec fn tokens_unique(clients: Seq<Client>) -> bool {
    forall|i: int, j: int|
        0 <= i < clients.len() && 0 <= j < clients.len() && (#[trigger] clients[i]).token
            == (#[trigger] clients[j]).token ==> i == j
}

/// The side of the client holding `token`; `None` if no client holds it.
pub open spec fn spec_client_side(clients: Seq<Client>, token: u128) -> Option<Option<Side>> {
    if has_token(clients, token) {
        let i = choose|i: int| 0 <= i < clients.len() && (#[trigger] clients[i]).token == token;
        Some(clients[i].side)
    } else {
        None
    }
}

/// One live game: its board, whose turn it is, which sides have placed their
/// pieces and who takes part.
pub struct GameState {
    pub board: Board,
    pub primary_side: Side,
    pub clients: Vec<Client>,
    pub active_side: Side,
    pub red_ready: bool,
    pub blue_ready: bool,
}

/// A game's invariant: piece identities are unique, water is empty, and
/// client tokens are unique.
pub open spec fn game_wf(g: GameState) -> bool {
    &&& ids_unique(g.board.cells())
    &&& water_empty(g.board.cells())
    &&& tokens_unique(g.clients@)
}

/// A game as created: empty board, no clients, nobody ready, the primary side
/// to move first.
pub open spec fn is_new_game(g: GameState, primary_side: Side) -> bool {
    &&& forall|i: int| 0 <= i < 100 ==> (#[trigger] g.board.cells()[i]) is None
    &&& g.primary_side == primary_side
    &&& g.active_side == primary_side
    &&& g.clients@.len() == 0
    &&& !g.red_ready
    &&& !g.blue_ready
}

/// Both sides have placed their pieces.
pub open spec fn spec_ready(g: GameState) -> bool {
    g.red_ready && g.blue_ready
}

/// The side a new client of `g` receives: the primary side while nobody has
/// it, then the other side unless the game is against a bot, else none.
pub open spec fn spec_join_side(g: GameState, vs_bot: bool) -> Option<Side> {
    if !side_taken(g.clients@, g.primary_side) {
        Some(g.primary_side)
    } else if !side_taken(g.clients@, other_side(g.primary_side)) && !vs_bot {
        Some(other_side(g.primary_side))
    } else {
        None
    }
}

/// The client holding `token` plays a side, and the piece `piece_id` found on
/// the board belongs to that side.
pub open spec fn may_move(g: GameState, token: u128, piece_id: u128) -> bool {
    match spec_client_side(g.clients@, token) {
        Some(Some(s)) => match spec_find(g.board.cells(), piece_id) {
            Some((u, v)) => g.board.cells()[cell_index(u as int, v as int)] is Some
                && g.board.cells()[cell_index(u as int, v as int)]->Some_0.owner == s,
            None => false,
        },
        _ => false,
    }
}

impl GameState {
    /// A new game with an empty board.
    pub fn new(primary_side: Side) -> (r: GameState)
        ensures
            is_new_game(r, primary_side),
            game_wf(r),
    {
        GameState {
            board: Board::new(),
            primary_side,
            clients: Vec::new(),
            active_side: primary_side,
            red_ready: false,
            blue_ready: false,
        }
    }

    fn has_side(&self, s: Side) -> (r: bool)
        ensures
            r == side_taken(self.clients@, s),
    {
        let mut i: usize = 0;
        while i < self.clients.len()
            invariant
                i <= self.clients@.len(),
                forall|j: int| 0 <= j < i ==> (#[trigger] self.clients@[j]).side != Some(s),
            decreases self.clients@.len() - i,
        {
            if self.clients[i].side == Some(s) {
                return true;
            }
            i = i + 1;
        }
        false
    }

    /// Whether some client plays the primary side.
    pub fn has_primary(&self) -> (r: bool)
        ensures
            r == side_taken(self.clients@, self.primary_side),
    {
        self.has_side(self.primary_side)
    }

    /// Whether some client plays the side opposite the primary one.
    pub fn has_secondary(&self) -> (r: bool)
        ensures
            r == side_taken(self.clients@, other_side(self.primary_side)),
    {
        self.has_side(self.primary_side.not())
    }

    /// Whether both sides have placed their pieces.
    pub fn ready(&self) -> (r: bool)
        ensures
            r == spec_ready(*self),
    {
        self.red_ready && self.blue_ready
    }

    /// The side of the client holding `token`, or `None` if it is not a client.
    pub fn client_side(&self, token: u128) -> (r: Option<Option<Side>>)
        requires
            tokens_unique(self.clients@),
        ensures
            r == spec_client_side(self.clients@, token),
    {
        let mut i: usize = 0;
        while i < self.clients.len()
            invariant
                i <= self.clients@.len(),
                tokens_unique(self.clients@),
                forall|j: int| 0 <= j < i ==> (#[trigger] self.clients@[j]).token != token,
            decreases self.clients@.len() - i,
        {
            if self.clients[i].token == token {
                proof {
                    assert(self.clients@[i as int].token == token);
                    assert(has_token(self.clients@, token));
                    let k = choose|k: int| 0 <= k < self.clients@.len() && (#[trigger] self.clients@[k]).token == token;
                    assert(self.clients@[k].token == self.clients@[i as int].token);
                }
                return Some(self.clients[i].side);
            }
            i = i + 1;
        }
        None
    }
}

/// Whether `id` is among the change events `events`.
pub open spec fn spec_changes_include(events: Seq<u128>, id: u128) -> bool {
    exists|i: int| 0 <= i < events.len() && events[i] == id
}

/// Whether any of the change events drained for a client concerns game `id`.
pub fn changes_include(events: &Vec<u128>, id: u128) -> (r: bool)
    ensures
        r == spec_changes_include(events@, id),
{
    let mut changed = false;
    let mut i: usize = 0;
    while i < events.len()
        invariant
            i <= events@.len(),
            changed == exists|j: int| 0 <= j < i && events@[j] == id,
        decreases events@.len() - i,
    {
        if events[i] == id {
            changed = true;
        }
        i = i + 1;
        proof {
            if !changed {
                assert forall|j: int| 0 <= j < i implies events@[j] != id by {}
            }
        }
    }
    changed
}

/// The registry of live games, keyed by game id.
pub struct GameStoreState {
    games: HashMap<u128, GameState>,
    bot_games: Vec<u128>,
}

/// The snapshot of game `id` that a client receives, if the game exists.
pub open spec fn spec_game_state(games: Map<u128, GameState>, id: u128) -> Option<BoardState> {
    if games.contains_key(id) {
        Some(
            BoardState {
                board: games[id].board,
                active_side: games[id].active_side,
                ready: spec_ready(games[id]),
            },
        )
    } else {
        None
    }
}

/// Reading a game's state is a function of the store alone: two reads with no
/// change in between return the same snapshot, the board included, and a
/// snapshot shows the stored board cell for cell.
pub proof fn lemma_state_reads_agree(
    games: Map<u128, GameState>,
    id: u128,
    first: Option<BoardState>,
    second: Option<BoardState>,
)
    requires
        first == spec_game_state(games, id),
        second == spec_game_state(games, id),
    ensures
        first == second,
        first matches Some(s) ==> s.board.cells() == games[id].board.cells(),
{
}

/// `g2` is `g1` with the client `c` added.
pub open spec fn joined(g1: GameState, g2: GameState, c: Client) -> bool {
    &&& g2.board == g1.board
    &&& g2.primary_side == g1.primary_side
    &&& g2.active_side == g1.active_side
    &&& g2.red_ready == g1.red_ready
    &&& g2.blue_ready == g1.blue_ready
    &&& g2.clients@ == g1.clients@.push(c)
}

/// `g2` is `g1` after an accepted attempt to move the piece `piece_id` to
/// (x, y): the board as the rules leave it, and the turn passed on whenever
/// the move was legal.
pub open spec fn moved(g1: GameState, g2: GameState, piece_id: u128, x: usize, y: usize) -> bool {
    &&& g2.board.cells() == spec_after_move(g1.board.cells(), piece_id, x, y)
    &&& g2.active_side == if spec_valid_move_from_id(g1.board.cells(), piece_id, x, y) is Ok {
        other_side(g1.active_side)
    } else {
        g1.active_side
    }
    &&& g2.primary_side == g1.primary_side
    &&& g2.clients@ == g1.clients@
    &&& g2.red_ready == g1.red_ready
    &&& g2.blue_ready == g1.blue_ready
}

/// `g2` is `g1` after side `s` placed `pieces` with identities `ids`; `s` is
/// then ready.
pub open spec fn placed(
    g1: GameState,
    g2: GameState,
    s: Side,
    pieces: Seq<PieceType>,
    ids: Seq<u128>,
) -> bool {
    &&& g2.board.cells() == spec_place(g1.board.cells(), s, s == g1.primary_side, pieces, ids)
    &&& g2.red_ready == (g1.red_ready || s == Side::Red)
    &&& g2.blue_ready == (g1.blue_ready || s == Side::Blue)
    &&& g2.primary_side == g1.primary_side
    &&& g2.active_side == g1.active_side
    &&& g2.clients@ == g1.clients@
}

/// Outcome of a setup of game `id` by the client `token`, where `ids` are
/// the identities drawn for the new pieces.
pub open spec fn spec_setup_result(
    games: Map<u128, GameState>,
    id: u128,
    token: u128,
    pieces: Seq<PieceType>,
    ids: Seq<u128>,
) -> Result<(), InitSetupError> {
    if !roster_valid(pieces) {
        Err(InitSetupError::IncorrectPieceCount)
    } else if !games.contains_key(id) {
        Err(InitSetupError::GameDoesNotExist)
    } else {
        match spec_client_side(games[id].clients@, token) {
            Some(Some(_)) => if ids_fresh(games[id].board.cells(), ids) {
                Ok(())
            } else {
                Err(InitSetupError::UnknownFail)
            },
            _ => Err(InitSetupError::InvalidAccess),
        }
    }
}

/// A side's setup is accepted exactly when its roster holds each type as
/// often as a side starts with it: with the game present, the client playing
/// a side and fresh identities for the new pieces, a valid roster gives `Ok`
/// and any other roster gives `IncorrectPieceCount`.
pub proof fn lemma_setup_acceptance(
    games: Map<u128, GameState>,
    id: u128,
    token: u128,
    pieces: Seq<PieceType>,
    ids: Seq<u128>,
)
    requires
        games.contains_key(id),
        spec_client_side(games[id].clients@, token) matches Some(Some(_)),
        ids_fresh(games[id].board.cells(), ids),
    ensures
        roster_valid(pieces) ==> spec_setup_result(games, id, token, pieces, ids) == Ok::<(), InitSetupError>(()),
        !roster_valid(pieces) ==> spec_setup_result(games, id, token, pieces, ids) == Err::<(), InitSetupError>(
            InitSetupError::IncorrectPieceCount,
        ),
{
}

/// The games after a successful setup of game `id` by the client `token`.
pub open spec fn setup_applied(
    old_games: Map<u128, GameState>,
    new_games: Map<u128, GameState>,
    id: u128,
    token: u128,
    pieces: Seq<PieceType>,
    ids: Seq<u128>,
) -> bool {
    &&& new_games == old_games.insert(id, new_games[id])
    &&& placed(
        old_games[id],
        new_games[id],
        spec_client_side(old_games[id].clients@, token)->Some_0->Some_0,
        pieces,
        ids,
    )
}

impl GameStoreState {
    /// The games, by id.
    pub closed spec fn games(&self) -> Map<u128, GameState> {
        self.games@
    }

    /// The ids of the games played against a bot.
    pub closed spec fn bot_games(&self) -> Seq<u128> {
        self.bot_games@
    }

    /// Every game keeps its invariant.
    pub open spec fn wf(&self) -> bool {
        forall|id: u128| #[trigger] self.games().contains_key(id) ==> game_wf(self.games()[id])
    }

    /// Whether game `id` is played against a bot.
    pub open spec fn is_bot_game(&self, id: u128) -> bool {
        self.bot_games().contains(id)
    }

    /// An empty store.
    pub fn new() -> (r: GameStoreState)
        ensures
            r.wf(),
            r.games() == Map::<u128, GameState>::empty(),
            r.bot_games() == Seq::<u128>::empty(),
    {
        GameStoreState { games: HashMap::new(), bot_games: Vec::new() }
    }

    /// Opens a new game under the id `id`; an id already in use is refused
    /// and the store is left as it was.
    pub fn create_game_with_id(&mut self, id: u128, game_info: GameInfo) -> (r: Result<(), CreateError>)
        requires
            old(self).wf(),
        ensures
            final(self).wf(),
            old(self).games().contains_key(id) ==> {
                &&& r == Err::<(), CreateError>(CreateError::IdInUse)
                &&& final(self).games() == old(self).games()
                &&& final(self).bot_games() == old(self).bot_games()
            },
            !old(self).games().contains_key(id) ==> {
                &&& r is Ok
                &&& final(self).games() == old(self).games().insert(id, final(self).games()[id])
                &&& is_new_game(final(self).games()[id], game_info.primary_side)
                &&& final(self).bot_games() == if game_info.vs_bot {
                    old(self).bot_games().push(id)
                } else {
                    old(self).bot_games()
                }
            },
    {
        if self.games.contains_key(&id) {
            return Err(CreateError::IdInUse);
        }
        let game = GameState::new(game_info.primary_side);
        self.games.insert(id, game);
        if game_info.vs_bot {
            self.bot_games.push(id);
        }
        proof {
            assert forall|k: u128| #[trigger] self.games().contains_key(k) implies game_wf(self.games()[k]) by {
                if k != id {
                    assert(old(self).games().contains_key(k));
                }
            }
        }
        Ok(())
    }

    /// Opens a new game under a freshly drawn id and returns that id. Should
    /// the draw hit an id in use, nothing changes and `IdInUse` is returned;
    /// in an empty store that cannot happen.
    pub fn create_game(&mut self, game_info: GameInfo) -> (r: Result<u128, CreateError>)
        requires
            old(self).wf(),
        ensures
            final(self).wf(),
            old(self).games() == Map::<u128, GameState>::empty() ==> r is Ok,
            r is Err ==> {
                &&& r == Err::<u128, CreateError>(CreateError::IdInUse)
                &&& final(self).games() == old(self).games()
                &&& final(self).bot_games() == old(self).bot_games()
            },
            r matches Ok(id) ==> {
                &&& !old(self).games().contains_key(id)
                &&& final(self).games() == old(self).games().insert(id, final(self).games()[id])
                &&& is_new_game(final(self).games()[id], game_info.primary_side)
                &&& final(self).bot_games() == if game_info.vs_bot {
                    old(self).bot_games().push(id)
                } else {
                    old(self).bot_games()
                }
            },
    {
        let id = fresh_id();
        match self.create_game_with_id(id, game_info) {
            Ok(()) => Ok(id),
            Err(e) => Err(e),
        }
    }

    /// Whether a game has the id `id`.
    pub fn game_exists(&self, id: u128) -> (r: bool)
        ensures
            r == self.games().contains_key(id),
    {
        self.games.contains_key(&id)
    }

    fn is_bot(&self, id: u128) -> (r: bool)
        ensures
            r == self.is_bot_game(id),
    {
        let mut i: usize = 0;
        while i < self.bot_games.len()
            invariant
                i <= self.bot_games@.len(),
                forall|j: int| 0 <= j < i ==> self.bot_games@[j] != id,
            decreases self.bot_games@.len() - i,
        {
            if self.bot_games[i] == id {
                proof {
                    assert(self.bot_games@[i as int] == id);
                }
                return true;
            }
            i = i + 1;
        }
        false
    }

    /// Adds the client `token` to game `id`; it receives the primary side
    /// while nobody plays it, then the other side unless the game is against
    /// a bot, and otherwise watches.
    pub fn join_game_with_token(&mut self, id: u128, token: u128) -> (r: Result<UserToken, JoinError>)
        requires
            old(self).wf(),
        ensures
            final(self).wf(),
            final(self).bot_games() == old(self).bot_games(),
            !old(self).games().contains_key(id) ==> r == Err::<UserToken, JoinError>(JoinError::GameDoesNotExist),
            old(self).games().contains_key(id) && has_token(old(self).games()[id].clients@, token) ==> r
                == Err::<UserToken, JoinError>(JoinError::TokenInUse),
            r is Err ==> final(self).games() == old(self).games(),
            old(self).games().contains_key(id) && !has_token(old(self).games()[id].clients@, token)
                ==> {
                let side = spec_join_side(old(self).games()[id], old(self).is_bot_game(id));
                &&& r == Ok::<UserToken, JoinError>(UserToken { access_token: token, side })
                &&& final(self).games() == old(self).games().insert(id, final(self).games()[id])
                &&& joined(old(self).games()[id], final(self).games()[id], Client { token, side })
            },
    {
        let vs_bot = self.is_bot(id);
        let join_side = match self.games.get(&id) {
            None => return Err(JoinError::GameDoesNotExist),
            Some(game) => {
                if game.client_side(token).is_some() {
                    return Err(JoinError::TokenInUse);
                }
                if !game.has_primary() {
                    Some(game.primary_side)
                } else if !game.has_secondary() && !vs_bot {
                    Some(game.primary_side.not())
                } else {
                    None
                }
            },
        };
        let mut game = match self.games.remove(&id) {
            None => return Err(JoinError::GameDoesNotExist),
            Some(g) => g,
        };
        let ghost g0 = game;
        game.clients.push(Client { token, side: join_side });
        proof {
            assert forall|i: int, j: int|
                0 <= i < game.clients@.len() && 0 <= j < game.clients@.len() && (#[trigger] game.clients@[i]).token
                    == (#[trigger] game.clients@[j]).token implies i == j by {
                if i < g0.clients@.len() && j == g0.clients@.len() {
                    assert(has_token(g0.clients@, token));
                }
                if j < g0.clients@.len() && i == g0.clients@.len() {
                    assert(has_token(g0.clients@, token));
                }
            }
        }
        self.games.insert(id, game);
        proof {
            assert(self.games@ =~= old(self).games@.insert(id, game));
        }
        Ok(UserToken { access_token: token, side: join_side })
    }

    /// Adds a client with a freshly drawn access token to game `id`.
    pub fn join_game(&mut self, id: u128) -> (r: Result<UserToken, JoinError>)
        requires
            old(self).wf(),
        ensures
            final(self).wf(),
            final(self).bot_games() == old(self).bot_games(),
            !old(self).games().contains_key(id) ==> r == Err::<UserToken, JoinError>(JoinError::GameDoesNotExist),
            old(self).games().contains_key(id) ==> (r is Ok || r == Err::<UserToken, JoinError>(JoinError::TokenInUse)),
            old(self).games().contains_key(id) && old(self).games()[id].clients@.len() == 0 ==> r is Ok,
            r is Err ==> final(self).games() == old(self).games(),
            r matches Ok(t) ==> {
                &&& old(self).games().contains_key(id)
                &&& !has_token(old(self).games()[id].clients@, t.access_token)
                &&& t.side == spec_join_side(old(self).games()[id], old(self).is_bot_game(id))
                &&& final(self).games() == old(self).games().insert(id, final(self).games()[id])
                &&& joined(old(self).games()[id], final(self).games()[id], Client { token: t.access_token, side: t.side })
            },
    {
        let token = fresh_id();
        self.join_game_with_token(id, token)
    }

    /// A snapshot of game `id`: its board, whose turn it is and whether both
    /// sides are ready; `None` if no game has this id. Every client sees the
    /// same board, so the token only names the caller.
    pub fn get_game_state(&self, id: u128, user_token: u128) -> (r: Option<BoardState>)
        ensures
            r == spec_game_state(self.games(), id),
    {
        match self.games.get(&id) {
            None => None,
            Some(game) => Some(
                BoardState { board: game.board, active_side: game.active_side, ready: game.ready() },
            ),
        }
    }

    /// The side of the client `token` in game `id`.
    pub fn client_access(&self, id: u128, token: u128) -> (r: Result<Option<Side>, AccessError>)
        requires
            self.wf(),
        ensures
            !self.games().contains_key(id) ==> r == Err::<Option<Side>, AccessError>(AccessError::GameDoesNotExist),
            self.games().contains_key(id) ==> match spec_client_side(self.games()[id].clients@, token) {
                Some(s) => r == Ok::<Option<Side>, AccessError>(s),
                None => r == Err::<Option<Side>, AccessError>(AccessError::NotAClient),
            },
    {
        match self.games.get(&id) {
            None => Err(AccessError::GameDoesNotExist),
            Some(game) => match game.client_side(token) {
                Some(s) => Ok(s),
                None => Err(AccessError::NotAClient),
            },
        }
    }

    /// Moves the piece `piece_id` of game `id` to (x, y) for the client
    /// `token`. The client must play the side that owns the piece, else the
    /// piece is reported as not existing. A legal move passes the turn to the
    /// other side.
    pub fn move_piece(&mut self, id: u128, token: u128, piece_id: u128, x: usize, y: usize) -> (r: MoveResult)
        requires
            old(self).wf(),
        ensures
            final(self).wf(),
            final(self).bot_games() == old(self).bot_games(),
            !(old(self).games().contains_key(id) && may_move(old(self).games()[id], token, piece_id)) ==> {
                &&& r == Err::<MoveResponse, MoveError>(MoveError::PieceDoesNotExist(piece_id))
                &&& final(self).games() == old(self).games()
            },
            old(self).games().contains_key(id) && may_move(old(self).games()[id], token, piece_id) ==> {
                &&& r == spec_valid_move_from_id(old(self).games()[id].board.cells(), piece_id, x, y)
                &&& final(self).games() == old(self).games().insert(id, final(self).games()[id])
                &&& moved(old(self).games()[id], final(self).games()[id], piece_id, x, y)
            },
    {
        let allowed = match self.games.get(&id) {
            None => false,
            Some(game) => match game.client_side(token) {
                Some(Some(side)) => match game.board.find(piece_id) {
                    Some((u, v)) => match &game.board.0[u + v * BOARD_WIDTH] {
                        Some(p) => p.owner == side,
                        None => false,
                    },
                    None => false,
                },
                _ => false,
            },
        };
        if !allowed {
            return Err(MoveError::PieceDoesNotExist(piece_id));
        }
        let mut game = match self.games.remove(&id) {
            None => return Err(MoveError::PieceDoesNotExist(piece_id)),
            Some(g) => g,
        };
        let ghost g0 = game;
        let res = board_move(&mut game.board, piece_id, x, y);
        if res.is_ok() {
            game.active_side = game.active_side.not();
        }
        proof {
            lemma_move_keeps_invariant(g0.board.cells(), piece_id, x, y);
        }
        self.games.insert(id, game);
        proof {
            assert(self.games@ =~= old(self).games@.insert(id, game));
        }
        res
    }

    /// Places the roster `pieces` of the client `token` in game `id`, the
    /// new pieces taking the identities `ids`. The roster is checked first,
    /// then the game, then the client's side, then that the identities are
    /// fresh.
    pub fn init_setup_with_ids(
        &mut self,
        id: u128,
        token: u128,
        pieces: &[PieceType; 40],
        ids: &Vec<u128>,
    ) -> (r: Result<(), InitSetupError>)
        requires
            old(self).wf(),
            ids@.len() == ROSTER_SIZE,
        ensures
            final(self).wf(),
            final(self).bot_games() == old(self).bot_games(),
            r == spec_setup_result(old(self).games(), id, token, pieces@, ids@),
            r is Err ==> final(self).games() == old(self).games(),
            r is Ok ==> setup_applied(old(self).games(), final(self).games(), id, token, pieces@, ids@),
    {
        if validate_roster(pieces).is_err() {
            return Err(InitSetupError::IncorrectPieceCount);
        }
        let side = match self.games.get(&id) {
            None => return Err(InitSetupError::GameDoesNotExist),
            Some(game) => match game.client_side(token) {
                Some(Some(side)) => {
                    if !check_ids_fresh(&game.board, ids) {
                        return Err(InitSetupError::UnknownFail);
                    }
                    side
                },
                _ => return Err(InitSetupError::InvalidAccess),
            },
        };
        let mut game = match self.games.remove(&id) {
            None => return Err(InitSetupError::GameDoesNotExist),
            Some(g) => g,
        };
        let ghost g0 = game;
        let primary = side == game.primary_side;
        place_roster(&mut game.board, side, primary, pieces, ids);
        match side {
            Side::Red => {
                game.red_ready = true;
            },
            Side::Blue => {
                game.blue_ready = true;
            },
        }
        proof {
            lemma_place_keeps_invariant(g0.board.cells(), side, primary, pieces@, ids@);
        }
        self.games.insert(id, game);
        proof {
            assert(self.games@ =~= old(self).games@.insert(id, game));
        }
        Ok(())
    }

    /// Places the roster of `init_state` in game `id`, drawing a fresh
    /// identity for each new piece.
    pub fn init_setup(&mut self, id: u128, init_state: &InitState) -> (r: Result<(), InitSetupError>)
        requires
            old(self).wf(),
        ensures
            final(self).wf(),
            final(self).bot_games() == old(self).bot_games(),
            exists|ids: Seq<u128>|
                {
                    &&& ids.len() == ROSTER_SIZE
                    &&& r == spec_setup_result(
                        old(self).games(),
                        id,
                        init_state.access_token,
                        init_state.pieces@,
                        ids,
                    )
                    &&& (r is Ok ==> setup_applied(
                        old(self).games(),
                        final(self).games(),
                        id,
                        init_state.access_token,
                        init_state.pieces@,
                        ids,
                    ))
                },
            !roster_valid(init_state.pieces@) ==> r == Err::<(), InitSetupError>(InitSetupError::IncorrectPieceCount),
            roster_valid(init_state.pieces@) && !old(self).games().contains_key(id) ==> r == Err::<(), InitSetupError>(
                InitSetupError::GameDoesNotExist,
            ),
            roster_valid(init_state.pieces@) && old(self).games().contains_key(id) && !(spec_client_side(
                old(self).games()[id].clients@,
                init_state.access_token,
            ) matches Some(Some(_))) ==> r == Err::<(), InitSetupError>(InitSetupError::InvalidAccess),
            roster_valid(init_state.pieces@) && old(self).games().contains_key(id) && (spec_client_side(
                old(self).games()[id].clients@,
                init_state.access_token,
            ) matches Some(Some(_))) ==> (r is Ok || r == Err::<(), InitSetupError>(InitSetupError::UnknownFail)),
            r is Err ==> final(self).games() == old(self).games(),
    {
        let mut ids: Vec<u128> = Vec::new();
        let mut i: usize = 0;
        while i < ROSTER_SIZE
            invariant
                i <= ROSTER_SIZE,
                ids@.len() == i,
            decreases ROSTER_SIZE - i,
        {
            ids.push(fresh_id());
            i = i + 1;
        }
        let r = self.init_setup_with_ids(id, init_state.access_token, &init_state.pieces, &ids);
        proof {
            assert(r == spec_setup_result(old(self).games(), id, init_state.access_token, init_state.pieces@, ids@));
        }
        r
    }
}

impl Default for GameStoreState {
    fn default() -> (r: GameStoreState)
        ensures
            r.wf(),
            r.games() == Map::<u128, GameState>::empty(),
            r.bot_games() == Seq::<u128>::empty(),
    {
        GameStoreState::new()
    }
}

/// A move, accepted or not, keeps piece identities unique and water empty.
pub proof fn lemma_move_keeps_invariant(cells: Seq<Option<Piece>>, id: u128, x: usize, y: usize)
    requires
        cells.len() == 100,
        ids_unique(cells),
        water_empty(cells),
    ensures
        ids_unique(spec_after_move(cells, id, x, y)),
        water_empty(spec_after_move(cells, id, x, y)),
        spec_after_move(cells, id, x, y).len() == 100,
{
    match spec_find(cells, id) {
        Some((u, v)) => {
            match spec_valid_move(cells, u, v, x, y) {
                Ok(o) => {
                    lemma_find_in_bounds(cells, id);
                    let i = cell_index(u as int, v as int);
                    let d = cell_index(x as int, y as int);
                    let after = spec_after_move(cells, id, x, y);
                    assert(on_board(x as int, y as int));
                    assert(!is_water(x as int, y as int));
                    assert(i != d);
                    assert(after == spec_apply(cells, i, d, o));
                    assert forall|a: int, b: int|
                        0 <= a < after.len() && 0 <= b < after.len() && #[trigger] after[a] is Some
                            && #[trigger] after[b] is Some && after[a]->Some_0.id
                            == after[b]->Some_0.id implies a == b by {
                        let moves = o is Success || o is AttackSuccess;
                        let sa = if a == d && moves { i } else { a };
                        let sb = if b == d && moves { i } else { b };
                        assert(cells[sa] is Some && cells[sb] is Some);
                        assert(after[a] == cells[sa]);
                        assert(after[b] == cells[sb]);
                    }
                    assert forall|wx: int, wy: int|
                        on_board(wx, wy) && is_water(wx, wy) implies #[trigger] after[cell_index(wx, wy)] is None by {
                        assert(cells[cell_index(wx, wy)] is None);
                        assert(cell_index(wx, wy) != d);
                    }
                },
                Err(_) => {},
            }
        },
        None => {},
    }
}

/// Placing a roster with fresh identities keeps piece identities unique and
/// water empty.
pub proof fn lemma_place_keeps_invariant(
    cells: Seq<Option<Piece>>,
    side: Side,
    primary: bool,
    pieces: Seq<PieceType>,
    ids: Seq<u128>,
)
    requires
        cells.len() == 100,
        pieces.len() == 40,
        ids.len() == 40,
        ids_unique(cells),
        water_empty(cells),
        ids_fresh(cells, ids),
    ensures
        ids_unique(spec_place(cells, side, primary, pieces, ids)),
        water_empty(spec_place(cells, side, primary, pieces, ids)),
        spec_place(cells, side, primary, pieces, ids).len() == 100,
{
    let after = spec_place(cells, side, primary, pieces, ids);
    assert forall|a: int, b: int|
        0 <= a < after.len() && 0 <= b < after.len() && #[trigger] after[a] is Some
            && #[trigger] after[b] is Some && after[a]->Some_0.id == after[b]->Some_0.id implies a
        == b by {
        let ea = setup_entry(primary, a);
        let eb = setup_entry(primary, b);
        if 0 <= ea < 40 && 0 <= eb < 40 {
            if ea < eb {
                assert(ids[ea] != ids[eb]);
            } else if eb < ea {
                assert(ids[eb] != ids[ea]);
            }
        } else if 0 <= ea < 40 {
            assert(!holds_id(cells[b], ids[ea]));
        } else if 0 <= eb < 40 {
            assert(!holds_id(cells[a], ids[eb]));
        } else {
            assert(cells[a] is Some && cells[b] is Some);
        }
    }
    assert forall|wx: int, wy: int| on_board(wx, wy) && is_water(wx, wy) implies #[trigger] after[cell_index(wx, wy)] is None by {
        assert(cells[cell_index(wx, wy)] is None);
    }
}

} // verus!
