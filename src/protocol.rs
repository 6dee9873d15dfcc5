use vstd::prelude::*;

use crate::board::{rendered, Board};
use crate::error::GameError;
use crate::tile::Tile;
use crate::instance::{move_made, winner, GameInstance, Player};
use crate::registry::{created, creator_slot, has_id, replaced, Registry};

verus! {

/// What a client asks of the server.
pub enum ClientRequest {
    /// Create a match; the client takes its first slot.
    CreateGame,
    /// Join the match with this identifier.
    JoinGame(String),
    /// Play a cell in the match with this identifier.
    SetTile((String, usize)),
    /// Ask for the state of the match with this identifier.
    GameLoop(String),
}

/// What the server answers.
pub enum ServerResponse {
    Error(String),
    Nothing,
    Player(Player),
    GameLoop(GameLoop),
}

/// The state of a match as a client polls it.
pub enum GameLoop {
    /// No one has won yet: the board, with whose turn it is.
    Board(Board),
    /// The slot that won.
    Won(Player),
}

/// What a polling client does with the state it was sent.
pub enum ClientAction {
    /// The board is as last shown: nothing to do.
    Unchanged,
    /// Show this board text; ask for a move when it is the client's turn.
    Show { board: String, my_turn: bool },
    /// The match is over.
    Over { won: bool },
}

/// What polling the match `g` gives.
pub open spec fn polled(g: GameInstance) -> GameLoop {
    match winner(g.board, g.players@) {
        Some(p) => GameLoop::Won(p),
        None => GameLoop::Board(g.board),
    }
}

/// `r` reports the error `e`.
pub open spec fn reports(r: ServerResponse, e: GameError) -> bool {
    r matches ServerResponse::Error(m) && m@ == e.text()
}

/// `r` answers an operation that gave `res` with a slot or an error.
pub open spec fn answers_player(r: ServerResponse, res: Result<Player, GameError>) -> bool {
    match res {
        Ok(p) => r == ServerResponse::Player(p),
        Err(e) => reports(r, e),
    }
}

/// `r` answers an operation that gave `res` with nothing or an error.
pub open spec fn answers_nothing(r: ServerResponse, res: Result<(), GameError>) -> bool {
    match res {
        Ok(()) => r == ServerResponse::Nothing,
        Err(e) => reports(r, e),
    }
}

fn error_response(e: GameError) -> (r: ServerResponse)
    ensures
        reports(r, e),
{
    ServerResponse::Error(e.message())
}

/// Decides what a client playing the mark `me`, which last showed the board
/// text `shown`, does with the polled state `state`.
pub fn client_step(shown: &String, me: Tile, state: &GameLoop) -> (r: ClientAction)
    ensures
        match state {
            GameLoop::Won(p) => r == (ClientAction::Over { won: p.tile == me }),
            GameLoop::Board(b) => if rendered(b.tiles@, 9) == shown@ {
                r is Unchanged
            } else {
                r matches ClientAction::Show { board, my_turn } && board@ == rendered(b.tiles@, 9)
                    && my_turn == (b.turn == me)
            },
        },
{
    match state {
        GameLoop::Won(p) => ClientAction::Over { won: p.tile == me },
        GameLoop::Board(b) => {
            let text = b.print_board();
            if text == *shown {
                ClientAction::Unchanged
            } else {
                ClientAction::Show { board: text, my_turn: b.turn == me }
            }
        },
    }
}

impl Registry {
    /// The state of the match `id`: its winner, or else its board.
    pub fn poll(&self, id: &String) -> (r: Result<GameLoop, GameError>)
        requires
            self.wf(),
        ensures
            !has_id(self@, id@) ==> r == Err::<GameLoop, GameError>(GameError::NotFound),
            forall|i: int|
                0 <= i < self@.len() && (#[trigger] self@[i]).id@ == id@ ==> r == Ok::<
                    GameLoop,
                    GameError,
                >(polled(self@[i])),
    {
        match self.get_match(id) {
            Err(e) => Err(e),
            Ok(g) => match g.check_wins() {
                Some(p) => Ok(GameLoop::Won(p)),
                None => Ok(GameLoop::Board(g.board)),
            },
        }
    }

    /// Serves one request of the connection `addr`.
    pub fn handle_request(&mut self, addr: String, req: ClientRequest) -> (r: ServerResponse)
        requires
            old(self).wf(),
        ensures
            final(self).wf(),
            req is CreateGame && old(self)@.len() == 0 ==> r is Player,
            req is CreateGame ==> {
                ||| reports(r, GameError::IdTaken) && final(self)@ == old(self)@
                ||| {
                    &&& created(old(self)@, final(self)@, final(self)@.last().id, addr)
                    &&& r == ServerResponse::Player(creator_slot(final(self)@.last().id, addr))
                }
            },
            req matches ClientRequest::JoinGame(id) ==> {
                &&& !has_id(old(self)@, id@) ==> reports(r, GameError::NotFound) && final(self)@
                    == old(self)@
                &&& forall|i: int|
                    0 <= i < old(self)@.len() && (#[trigger] old(self)@[i]).id@ == id@ ==> {
                        &&& answers_player(r, old(self)@[i].joined(addr).1)
                        &&& replaced(old(self)@, final(self)@, i, final(self)@[i])
                        &&& final(self)@[i].id == old(self)@[i].id
                        &&& final(self)@[i].board == old(self)@[i].board
                        &&& final(self)@[i].players@ == old(self)@[i].joined(addr).0
                    }
            },
            req matches ClientRequest::SetTile((id, idx)) ==> {
                &&& !has_id(old(self)@, id@) ==> reports(r, GameError::NotFound) && final(self)@
                    == old(self)@
                &&& forall|i: int|
                    0 <= i < old(self)@.len() && (#[trigger] old(self)@[i]).id@ == id@ ==> {
                        &&& replaced(old(self)@, final(self)@, i, final(self)@[i])
                        &&& exists|res: Result<(), GameError>|
                            move_made(old(self)@[i], final(self)@[i], addr@, idx as int, res)
                                && #[trigger] answers_nothing(r, res)
                    }
            },
            req matches ClientRequest::GameLoop(id) ==> {
                &&& final(self)@ == old(self)@
                &&& !has_id(old(self)@, id@) ==> reports(r, GameError::NotFound)
                &&& forall|i: int|
                    0 <= i < old(self)@.len() && (#[trigger] old(self)@[i]).id@ == id@ ==> r
                        == ServerResponse::GameLoop(polled(old(self)@[i]))
            },
    {
        match req {
            ClientRequest::CreateGame => match self.create_match(addr) {
                Ok((_id, p)) => ServerResponse::Player(p),
                Err(e) => error_response(e),
            },
            ClientRequest::JoinGame(id) => match self.join_match(&id, addr) {
                Ok(p) => ServerResponse::Player(p),
                Err(e) => error_response(e),
            },
            ClientRequest::SetTile((id, idx)) => {
                let res = self.set_tile(&id, addr, idx);
                let r = match res {
                    Ok(()) => ServerResponse::Nothing,
                    Err(e) => error_response(e),
                };
                assert(answers_nothing(r, res));
                r
            },
            ClientRequest::GameLoop(id) => match self.poll(&id) {
                Ok(g) => ServerResponse::GameLoop(g),
                Err(e) => error_response(e),
            },
        }
    }
}

} // verus!
