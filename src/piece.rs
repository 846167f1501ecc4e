use vstd::prelude::*;

verus! {

/// The content of one cell: empty, or the mark of one of the two players.
#[derive(Clone, Copy, Debug, PartialEq, Eq, Structural)]
pub enum Piece {
    Empty,
    X,
    O,
}

impl Piece {
    pub open spec fn spec_other(self) -> Piece {
        match self {
            Piece::Empty => Piece::Empty,
            Piece::X => Piece::O,
            Piece::O => Piece::X,
        }
    }

    pub open spec fn spec_as_u8(self) -> u8 {
        match self {
            Piece::Empty => 0,
            Piece::X => 1,
            Piece::O => 2,
        }
    }

    pub open spec fn spec_from_u8(b: u8) -> Option<Piece> {
        if b == 0 {
            Some(Piece::Empty)
        } else if b == 1 {
            Some(Piece::X)
        } else if b == 2 {
            Some(Piece::O)
        } else {
            None
        }
    }

    /// The opponent's mark; `Empty` stays `Empty`.
    pub fn other(&self) -> (r: Piece)
        ensures
            r == self.spec_other(),
    {
        match self {
            Piece::Empty => Piece::Empty,
            Piece::X => Piece::O,
            Piece::O => Piece::X,
        }
    }

    /// The byte that stands for this mark: 0 for empty, 1 for `X`, 2 for `O`.
    pub fn as_u8(&self) -> (r: u8)
        ensures
            r == self.spec_as_u8(),
    {
        match self {
            Piece::Empty => 0,
            Piece::X => 1,
            Piece::O => 2,
        }
    }

    /// The mark that a byte stands for; `None` for a byte above 2.
    pub fn from_u8(b: u8) -> (r: Option<Piece>)
        ensures
            r == Piece::spec_from_u8(b),
            b <= 2 <==> r is Some,
            r matches Some(p) ==> p.spec_as_u8() == b,
    {
        match b {
            0 => Some(Piece::Empty),
            1 => Some(Piece::X),
            2 => Some(Piece::O),
            _ => None,
        }
    }
}

} // verus!
