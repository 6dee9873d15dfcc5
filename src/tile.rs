use vstd::prelude::*;

verus! {

/// One of the two marks a player can put on the board.
#[derive(Clone, Copy, Debug, PartialEq, Eq, Structural)]
pub enum Tile {
    X,
    O,
}

impl Tile {
    /// The other mark.
    pub open spec fn opposite(self) -> Tile {
        match self {
            Tile::X => Tile::O,
            Tile::O => Tile::X,
        }
    }

    /// The text a mark is shown as.
    pub open spec fn text(self) -> Seq<char> {
        match self {
            Tile::X => seq!['X'],
            Tile::O => seq!['O'],
        }
    }

    pub fn inverse(&self) -> (r: Self)
        ensures
            r == self.opposite(),
            r != *self,
    {
        match self {
            Tile::O => Tile::X,
            Tile::X => Tile::O,
        }
    }

    #[allow(clippy::inherent_to_string)]
    pub fn to_string(&self) -> (r: String)
        ensures
            r@ == self.text(),
    {
        match self {
            Tile::O => {
                let s = String::from_str("O");
                proof {
                    reveal_strlit("O");
                }
                s
            },
            Tile::X => {
                let s = String::from_str("X");
                proof {
                    reveal_strlit("X");
                }
                s
            },
        }
    }
}

} // verus!
