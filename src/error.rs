use vstd::prelude::*;

verus! {

/// Why an operation on a match or on the registry was refused.
#[derive(Clone, Copy, Debug, PartialEq, Eq, Structural)]
pub enum GameError {
    /// No match has the given identifier.
    NotFound,
    /// The connection already holds a slot of the match.
    AlreadyJoined,
    /// Both slots of the match are already claimed.
    MatchFull,
    /// No slot is claimed yet, so there is no mark to oppose.
    NoInitialPlayer,
    /// The connection holds no slot of the match.
    UnknownPlayer,
    /// The cell index is not on the board.
    OutOfRange,
    /// The cell already holds a mark.
    CellOccupied,
    /// Both slots were given the same mark.
    DuplicateMarks,
    /// A match with the freshly drawn identifier already exists.
    IdTaken,
}

impl GameError {
    /// The text sent to a client for this error.
    pub open spec fn text(self) -> Seq<char> {
        match self {
            GameError::NotFound => "game not found"@,
            GameError::AlreadyJoined => "player already joined"@,
            GameError::MatchFull => "game is full"@,
            GameError::NoInitialPlayer => "can't add a player if there are 0 players"@,
            GameError::UnknownPlayer => "player not found"@,
            GameError::OutOfRange => "tile_idx out of bounds"@,
            GameError::CellOccupied => "tile already set!"@,
            GameError::DuplicateMarks => "players have to be separate!"@,
            GameError::IdTaken => "game id already in use"@,
        }
    }

    pub fn message(&self) -> (r: String)
        ensures
            r@ == self.text(),
    {
        match self {
            GameError::NotFound => String::from_str("game not found"),
            GameError::AlreadyJoined => String::from_str("player already joined"),
            GameError::MatchFull => String::from_str("game is full"),
            GameError::NoInitialPlayer => String::from_str("can't add a player if there are 0 players"),
            GameError::UnknownPlayer => String::from_str("player not found"),
            GameError::OutOfRange => String::from_str("tile_idx out of bounds"),
            GameError::CellOccupied => String::from_str("tile already set!"),
            GameError::DuplicateMarks => String::from_str("players have to be separate!"),
            GameError::IdTaken => String::from_str("game id already in use"),
        }
    }
}

} // verus!
