use vstd::prelude::*;

use crate::error::GameError;
use crate::tile::Tile;

verus! {

/// Number of cells on the board.
pub const CELLS: usize = 9;

/// The nine cells, row by row, and the mark whose turn it is.
#[derive(Clone, Copy, Debug)]
pub struct Board {
    pub tiles: [Option<Tile>; 9],
    pub turn: Tile,
}

/// The text of one cell: its mark, or a dash when empty, padded by spaces.
pub open spec fn cell_text(cell: Option<Tile>) -> Seq<char> {
    match cell {
        None => seq![' ', '-', ' '],
        Some(t) => seq![' '] + t.text() + seq![' '],
    }
}

/// The text of the first `n` cells: each row begins on a new line.
pub open spec fn rendered(tiles: Seq<Option<Tile>>, n: nat) -> Seq<char>
    decreases n,
{
    if n == 0 {
        Seq::empty()
    } else {
        let k = (n - 1) as nat;
        let head = rendered(tiles, k);
        let head = if k % 3 == 0 { head + seq!['\n'] } else { head };
        head + cell_text(tiles[k as int])
    }
}

/// The cells `a`, `b` and `c` all hold the mark `t`.
pub open spec fn line_of(tiles: Seq<Option<Tile>>, a: int, b: int, c: int, t: Tile) -> bool {
    tiles[a] == Some(t) && tiles[b] == Some(t) && tiles[c] == Some(t)
}

/// The cells of the `k`-th winning line: three rows, three columns, two diagonals.
pub open spec fn winning_line(k: int) -> (int, int, int) {
    if k < 3 {
        (3 * k, 3 * k + 1, 3 * k + 2)
    } else if k < 6 {
        (k - 3, k, k + 3)
    } else if k == 6 {
        (0, 4, 8)
    } else {
        (2, 4, 6)
    }
}

/// The mark `t` fills one of the eight winning lines.
pub open spec fn has_line(tiles: Seq<Option<Tile>>, t: Tile) -> bool {
    exists|k: int|
        0 <= k < 8 && #[trigger] line_of(
            tiles,
            winning_line(k).0,
            winning_line(k).1,
            winning_line(k).2,
            t,
        )
}

/// `after` is `before` with `tile` put on the empty cell `idx` and the turn passed on.
pub open spec fn placed(before: Board, after: Board, idx: int, tile: Tile) -> bool {
    &&& 0 <= idx < 9
    &&& before.tiles@[idx] is None
    &&& after.tiles@ == before.tiles@.update(idx, Some(tile))
    &&& after.turn == before.turn.opposite()
}

/// What `apply(idx, tile)` returns on `before` and leaves behind as `after`.
pub open spec fn applied(
    before: Board,
    after: Board,
    idx: int,
    tile: Tile,
    r: Result<(), GameError>,
) -> bool {
    if idx >= 9 {
        r == Err::<(), GameError>(GameError::OutOfRange) && after == before
    } else if before.tiles@[idx] is Some {
        r == Err::<(), GameError>(GameError::CellOccupied) && after == before
    } else {
        r is Ok && placed(before, after, idx, tile)
    }
}

/// `after` follows from `before` by one successful move.
pub open spec fn moved(before: Board, after: Board) -> bool {
    exists|idx: int, t: Tile| #[trigger] placed(before, after, idx, t)
}

/// Each board of `boards` follows from the one before it by a successful move.
pub open spec fn is_play(boards: Seq<Board>) -> bool {
    forall|i: int| 0 <= i < boards.len() - 1 ==> #[trigger] moved(boards[i], boards[i + 1])
}

/// After `n` successful moves from the empty board, `X` is to move when `n`
/// is even and `O` when it is odd.
pub proof fn lemma_turn_alternates(boards: Seq<Board>)
    requires
        boards.len() >= 1,
        boards[0].is_empty(),
        is_play(boards),
    ensures
        boards.last().turn == (if (boards.len() - 1) % 2 == 0 {
            Tile::X
        } else {
            Tile::O
        }),
    decreases boards.len(),
{
    if boards.len() > 1 {
        let prefix = boards.drop_last();
        assert forall|i: int| 0 <= i < prefix.len() - 1 implies #[trigger] moved(
            prefix[i],
            prefix[i + 1],
        ) by {
            assert(moved(boards[i], boards[i + 1]));
            assert(boards[i] == prefix[i] && boards[i + 1] == prefix[i + 1]);
        }
        lemma_turn_alternates(prefix);
        let n = boards.len() - 2;
        assert(moved(boards[n], boards[n + 1]));
        let (idx, t) = choose|idx: int, t: Tile| #[trigger] placed(boards[n], boards[n + 1], idx, t);
        assert(prefix.last() == boards[n]);
    }
}

impl Board {
    /// No cell holds a mark and `X` is to move.
    pub open spec fn is_empty(self) -> bool {
        &&& forall|i: int| 0 <= i < 9 ==> self.tiles@[i] is None
        &&& self.turn == Tile::X
    }

    /// The empty board; the mark `X` moves first.
    pub fn new() -> (r: Board)
        ensures
            r.is_empty(),
    {
        Board { tiles: [None, None, None, None, None, None, None, None, None], turn: Tile::X }
    }

    /// Puts `tile` on cell `idx` and passes the turn to the other mark.
    pub fn apply(&mut self, idx: usize, tile: Tile) -> (r: Result<(), GameError>)
        ensures
            idx >= CELLS ==> r == Err::<(), GameError>(GameError::OutOfRange),
            idx < CELLS && old(self).tiles@[idx as int] is Some ==> r == Err::<(), GameError>(
                GameError::CellOccupied,
            ),
            r is Err ==> *final(self) == *old(self),
            r is Ok <==> idx < CELLS && old(self).tiles@[idx as int] is None,
            r is Ok ==> final(self).tiles@ == old(self).tiles@.update(idx as int, Some(tile))
                && final(self).turn == old(self).turn.opposite(),
            applied(*old(self), *final(self), idx as int, tile, r),
    {
        if idx >= CELLS {
            return Err(GameError::OutOfRange);
        }
        if self.tiles[idx].is_some() {
            return Err(GameError::CellOccupied);
        }
        self.tiles[idx] = Some(tile);
        self.turn = self.turn.inverse();
        Ok(())
    }

    /// Whether `tile` fills one of the eight winning lines.
    pub fn has_line(&self, tile: Tile) -> (r: bool)
        ensures
            r == has_line(self.tiles@, tile),
    {
        let mut y: usize = 0;
        while y < 3
            invariant
                y <= 3,
                forall|k: int|
                    (0 <= k < y || 3 <= k < 3 + y) ==> !#[trigger] line_of(
                        self.tiles@,
                        winning_line(k).0,
                        winning_line(k).1,
                        winning_line(k).2,
                        tile,
                    ),
            decreases 3 - y,
        {
            let mut horizontal = true;
            let mut vertical = true;
            let mut x: usize = 0;
            while x < 3
                invariant
                    y < 3,
                    x <= 3,
                    horizontal == ((x > 0 ==> self.tiles@[3 * y] == Some(tile)) && (x > 1
                        ==> self.tiles@[3 * y + 1] == Some(tile)) && (x > 2 ==> self.tiles@[3 * y
                        + 2] == Some(tile))),
                    vertical == ((x > 0 ==> self.tiles@[y as int] == Some(tile)) && (x > 1
                        ==> self.tiles@[3 + y] == Some(tile)) && (x > 2 ==> self.tiles@[6 + y]
                        == Some(tile))),
                decreases 3 - x,
            {
                horizontal = horizontal && holds(self.tiles[y * 3 + x], tile);
                vertical = vertical && holds(self.tiles[x * 3 + y], tile);
                x = x + 1;
            }
            assert(horizontal == line_of(
                self.tiles@,
                winning_line(y as int).0,
                winning_line(y as int).1,
                winning_line(y as int).2,
                tile,
            ));
            assert(vertical == line_of(
                self.tiles@,
                winning_line(y + 3).0,
                winning_line(y + 3).1,
                winning_line(y + 3).2,
                tile,
            ));
            if horizontal || vertical {
                return true;
            }
            y = y + 1;
        }
        let diagonals: [[usize; 3]; 2] = [[0, 4, 8], [2, 4, 6]];
        let mut d: usize = 0;
        while d < 2
            invariant
                d <= 2,
                diagonals@[0]@ == seq![0usize, 4, 8],
                diagonals@[1]@ == seq![2usize, 4, 6],
                forall|k: int|
                    (0 <= k < 6 || 6 <= k < 6 + d) ==> !#[trigger] line_of(
                        self.tiles@,
                        winning_line(k).0,
                        winning_line(k).1,
                        winning_line(k).2,
                        tile,
                    ),
            decreases 2 - d,
        {
            let line = diagonals[d];
            let mut all = true;
            let mut j: usize = 0;
            while j < 3
                invariant
                    d < 2,
                    j <= 3,
                    line@ == diagonals@[d as int]@,
                    diagonals@[0]@ == seq![0usize, 4, 8],
                    diagonals@[1]@ == seq![2usize, 4, 6],
                    all == ((j > 0 ==> self.tiles@[line@[0] as int] == Some(tile)) && (j > 1
                        ==> self.tiles@[line@[1] as int] == Some(tile)) && (j > 2
                        ==> self.tiles@[line@[2] as int] == Some(tile))),
                decreases 3 - j,
            {
                all = all && holds(self.tiles[line[j]], tile);
                j = j + 1;
            }
            assert(all == line_of(
                self.tiles@,
                winning_line(6 + d).0,
                winning_line(6 + d).1,
                winning_line(6 + d).2,
                tile,
            ));
            if all {
                return true;
            }
            d = d + 1;
        }
        false
    }

    /// The board as three lines of text, empty cells shown as dashes.
    pub fn print_board(&self) -> (r: String)
        ensures
            r@ == rendered(self.tiles@, 9),
    {
        let mut s = String::new();
        let mut i: usize = 0;
        while i < CELLS
            invariant
                i <= 9,
                s@ == rendered(self.tiles@, i as nat),
            decreases 9 - i,
        {
            if i % 3 == 0 {
                s.append("\n");
                proof {
                    reveal_strlit("\n");
                }
            }
            match self.tiles[i] {
                None => {
                    s.append(" - ");
                    proof {
                        reveal_strlit(" - ");
                    }
                },
                Some(Tile::X) => {
                    s.append(" X ");
                    proof {
                        reveal_strlit(" X ");
                    }
                },
                Some(Tile::O) => {
                    s.append(" O ");
                    proof {
                        reveal_strlit(" O ");
                    }
                },
            }
            i = i + 1;
        }
        s
    }
}

/// Whether `cell` holds the mark `tile`.
fn holds(cell: Option<Tile>, tile: Tile) -> (r: bool)
    ensures
        r == (cell == Some(tile)),
{
    match cell {
        Some(t) => t == tile,
        None => false,
    }
}

} // verus!
