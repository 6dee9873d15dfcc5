use vstd::prelude::*;

use crate::board::{applied, has_line, line_of, winning_line, Board};
use crate::error::GameError;
use crate::tile::Tile;

verus! {

/// A player slot: its mark, the connection that claimed it (if any) and the
/// match it belongs to.
#[derive(Debug)]
pub struct Player {
    pub tile: Tile,
    pub addr: Option<String>,
    pub game_id: String,
}

impl Clone for Player {
    fn clone(&self) -> (r: Self)
        ensures
            r == *self,
    {
        let addr = match &self.addr {
            Some(a) => Some(a.clone()),
            None => None,
        };
        Player { tile: self.tile, addr, game_id: self.game_id.clone() }
    }
}

/// The text of an optional connection identity.
pub open spec fn addr_view(addr: Option<String>) -> Option<Seq<char>> {
    match addr {
        Some(a) => Some(a@),
        None => None,
    }
}

impl PartialEq for Player {
    fn eq(&self, other: &Player) -> (r: bool) {
        let same_addr = match (&self.addr, &other.addr) {
            (Some(a), Some(b)) => *a == *b,
            (None, None) => true,
            _ => false,
        };
        self.tile == other.tile && same_addr && self.game_id == other.game_id
    }
}

impl vstd::std_specs::cmp::PartialEqSpecImpl for Player {
    open spec fn obeys_eq_spec() -> bool {
        true
    }

    open spec fn eq_spec(&self, other: &Player) -> bool {
        &&& self.tile == other.tile
        &&& addr_view(self.addr) == addr_view(other.addr)
        &&& self.game_id@ == other.game_id@
    }
}

impl Player {
    /// The slot is claimed by the connection `addr`.
    pub open spec fn held_by(self, addr: Seq<char>) -> bool {
        &&& self.addr is Some
        &&& self.addr->0@ == addr
    }
}

/// One match: its identifier, its board and its two player slots.
#[derive(Clone, Debug)]
pub struct GameInstance {
    pub id: String,
    pub board: Board,
    pub players: [Player; 2],
}

/// The slot that the connection `addr` holds, the first one in slot order.
pub open spec fn slot_of(players: Seq<Player>, addr: Seq<char>) -> Option<int> {
    if players[0].held_by(addr) {
        Some(0)
    } else if players[1].held_by(addr) {
        Some(1)
    } else {
        None
    }
}

/// The winner of a board with the given slots: the first slot in slot order
/// whose mark fills a winning line.
pub open spec fn winner(board: Board, players: Seq<Player>) -> Option<Player> {
    if has_line(board.tiles@, players[0].tile) {
        Some(players[0])
    } else if has_line(board.tiles@, players[1].tile) {
        Some(players[1])
    } else {
        None
    }
}

/// When the mark of one slot fills one of the eight winning lines and the
/// other slot's mark fills none, that slot is the winner.
pub proof fn lemma_full_line_wins(g: GameInstance, k: int, i: int)
    requires
        g.wf(),
        0 <= k < 8,
        0 <= i < 2,
        line_of(
            g.board.tiles@,
            winning_line(k).0,
            winning_line(k).1,
            winning_line(k).2,
            g.players@[i].tile,
        ),
        !has_line(g.board.tiles@, g.players@[1 - i].tile),
    ensures
        winner(g.board, g.players@) == Some(g.players@[i]),
{
    assert(has_line(g.board.tiles@, g.players@[i].tile));
}

/// A full board on which neither mark fills a winning line has no winner.
pub proof fn lemma_no_line_no_winner(g: GameInstance)
    requires
        forall|c: int| 0 <= c < 9 ==> g.board.tiles@[c] is Some,
        !has_line(g.board.tiles@, Tile::X),
        !has_line(g.board.tiles@, Tile::O),
    ensures
        winner(g.board, g.players@) == None::<Player>,
{
    assert(g.players@[0].tile == Tile::X || g.players@[0].tile == Tile::O);
    assert(g.players@[1].tile == Tile::X || g.players@[1].tile == Tile::O);
}

/// Once both slots are claimed no connection can claim one: joining fails
/// and the slots stay as they are.
pub proof fn lemma_full_match_refuses(g: GameInstance, addr: String)
    requires
        g.players@[0].addr is Some,
        g.players@[1].addr is Some,
    ensures
        g.joined(addr).1 is Err,
        g.joined(addr).0 == g.players@,
{
}

/// A connection that already holds a slot cannot join again.
pub proof fn lemma_rejoin_refused(g: GameInstance, addr: String)
    requires
        slot_of(g.players@, addr@) is Some,
    ensures
        g.joined(addr).1 == Err::<Player, GameError>(GameError::AlreadyJoined),
        g.joined(addr).0 == g.players@,
{
}

/// What `apply_move(addr, idx)` returns on `before` and leaves behind as `after`.
pub open spec fn move_made(
    before: GameInstance,
    after: GameInstance,
    addr: Seq<char>,
    idx: int,
    r: Result<(), GameError>,
) -> bool {
    &&& after.id == before.id
    &&& after.players == before.players
    &&& match slot_of(before.players@, addr) {
        None => r == Err::<(), GameError>(GameError::UnknownPlayer) && after.board == before.board,
        Some(i) => applied(before.board, after.board, idx, before.players@[i].tile, r),
    }
}

impl GameInstance {
    /// The two slots carry opposite marks.
    pub open spec fn wf(self) -> bool {
        self.players[0].tile != self.players[1].tile
    }

    /// What `add_player` makes of this match when `addr` asks to join: the
    /// slots afterwards and the result.
    pub open spec fn joined(self, addr: String) -> (Seq<Player>, Result<Player, GameError>) {
        let p = self.players@;
        if p[0].held_by(addr@) || p[1].held_by(addr@) {
            (p, Err(GameError::AlreadyJoined))
        } else if p[0].addr is None && p[1].addr is None {
            (p, Err(GameError::NoInitialPlayer))
        } else if p[0].addr is Some && p[1].addr is Some {
            (p, Err(GameError::MatchFull))
        } else {
            let (free, taken) = if p[0].addr is None { (0int, 1int) } else { (1int, 0int) };
            let added = Player {
                tile: p[taken].tile.opposite(),
                addr: Some(addr),
                game_id: self.id,
            };
            (p.update(free, added), Ok(added))
        }
    }

    /// A match on an empty board; the two slots must carry opposite marks.
    pub fn new(id: String, players: [Player; 2]) -> (r: Result<Self, GameError>)
        ensures
            r is Err <==> players[0].tile == players[1].tile,
            r is Err ==> r == Err::<Self, GameError>(GameError::DuplicateMarks),
            r matches Ok(g) ==> g.wf() && g.id == id && g.players == players && g.board.is_empty(),
    {
        let board = Board::new();
        if players[0].tile == players[1].tile {
            return Err(GameError::DuplicateMarks);
        }
        Ok(GameInstance { id, board, players })
    }

    /// The board of this match as text.
    pub fn print_board(&self) -> (r: String)
        ensures
            r@ == crate::board::rendered(self.board.tiles@, 9),
    {
        self.board.print_board()
    }

    /// Puts `tile` on cell `tile_idx`; the slots and the identifier stay.
    pub fn set_tile(&mut self, tile_idx: usize, tile: Tile) -> (r: Result<(), GameError>)
        ensures
            final(self).id == old(self).id,
            final(self).players == old(self).players,
            final(self).wf() == old(self).wf(),
            tile_idx >= crate::board::CELLS ==> r == Err::<(), GameError>(GameError::OutOfRange),
            tile_idx < crate::board::CELLS && old(self).board.tiles@[tile_idx as int] is Some ==> r
                == Err::<(), GameError>(GameError::CellOccupied),
            r is Err ==> *final(self) == *old(self),
            r is Ok <==> tile_idx < crate::board::CELLS && old(self).board.tiles@[tile_idx as int] is None,
            r is Ok ==> final(self).board.tiles@ == old(self).board.tiles@.update(
                tile_idx as int,
                Some(tile),
            ) && final(self).board.turn == old(self).board.turn.opposite(),
            applied(old(self).board, final(self).board, tile_idx as int, tile, r),
    {
        self.board.apply(tile_idx, tile)
    }

    /// Plays cell `tile_idx` for the connection `addr`, with the mark of its
    /// slot. Whose turn it is is not checked: the turn is shown to clients
    /// and not enforced.
    pub fn apply_move(&mut self, addr: String, tile_idx: usize) -> (r: Result<(), GameError>)
        ensures
            move_made(*old(self), *final(self), addr@, tile_idx as int, r),
            final(self).id == old(self).id,
            final(self).players == old(self).players,
            slot_of(old(self).players@, addr@) is None ==> r == Err::<(), GameError>(
                GameError::UnknownPlayer,
            ) && final(self).board == old(self).board,
            slot_of(old(self).players@, addr@) matches Some(i) ==> applied(
                old(self).board,
                final(self).board,
                tile_idx as int,
                old(self).players@[i].tile,
                r,
            ),
    {
        match self.get_player(addr) {
            None => Err(GameError::UnknownPlayer),
            Some(player) => self.set_tile(tile_idx, player.tile),
        }
    }

    /// The winning slot, if a mark fills a line; the first slot is asked first.
    pub fn check_wins(&self) -> (r: Option<Player>)
        ensures
            r == winner(self.board, self.players@),
    {
        if self.board.has_line(self.players[0].tile) {
            return Some(self.players[0].clone());
        }
        if self.board.has_line(self.players[1].tile) {
            return Some(self.players[1].clone());
        }
        None
    }

    /// The slot that the connection `addr` holds.
    pub fn get_player(&self, addr: String) -> (r: Option<Player>)
        ensures
            r == match slot_of(self.players@, addr@) {
                Some(i) => Some(self.players@[i]),
                None => None::<Player>,
            },
    {
        let mut i: usize = 0;
        while i < 2
            invariant
                i <= 2,
                forall|j: int| 0 <= j < i ==> !(#[trigger] self.players@[j]).held_by(addr@),
            decreases 2 - i,
        {
            if let Some(a) = &self.players[i].addr {
                if *a == addr {
                    return Some(self.players[i].clone());
                }
            }
            i = i + 1;
        }
        None
    }

    /// Claims the free slot for the connection `addr`, with the mark opposite
    /// to that of the slot already claimed.
    pub fn add_player(&mut self, addr: String) -> (r: Result<Player, GameError>)
        ensures
            final(self).id == old(self).id,
            final(self).board == old(self).board,
            final(self).players@ == old(self).joined(addr).0,
            r == old(self).joined(addr).1,
    {
        let mut existing: Option<usize> = None;
        let mut i: usize = 0;
        while i < 2
            invariant
                i <= 2,
                *self == *old(self),
                forall|j: int| 0 <= j < i ==> !(#[trigger] self.players@[j]).held_by(addr@),
                match existing {
                    None => forall|j: int| 0 <= j < i ==> (#[trigger] self.players@[j]).addr is None,
                    Some(e) => e < i && self.players@[e as int].addr is Some && forall|j: int|
                        e < j < i ==> (#[trigger] self.players@[j]).addr is None,
                },
            decreases 2 - i,
        {
            if let Some(a) = &self.players[i].addr {
                if *a == addr {
                    return Err(GameError::AlreadyJoined);
                }
                existing = Some(i);
            }
            i = i + 1;
        }
        let mut k: usize = 0;
        while k < 2
            invariant
                k <= 2,
                *self == *old(self),
                forall|j: int| 0 <= j < k ==> (#[trigger] self.players@[j]).addr is Some,
                forall|j: int| 0 <= j < 2 ==> !(#[trigger] self.players@[j]).held_by(addr@),
                match existing {
                    None => forall|j: int| 0 <= j < 2 ==> (#[trigger] self.players@[j]).addr is None,
                    Some(e) => e < 2 && self.players@[e as int].addr is Some && forall|j: int|
                        e < j < 2 ==> (#[trigger] self.players@[j]).addr is None,
                },
            decreases 2 - k,
        {
            if self.players[k].addr.is_none() {
                let tile = match existing {
                    Some(e) => self.players[e].tile.inverse(),
                    None => return Err(GameError::NoInitialPlayer),
                };
                let added = Player { game_id: self.id.clone(), addr: Some(addr), tile };
                self.players[k] = added.clone();
                proof {
                    assert(self.players@ =~= old(self).players@.update(k as int, added));
                }
                return Ok(added);
            }
            k = k + 1;
        }
        Err(GameError::MatchFull)
    }
}

} // verus!
