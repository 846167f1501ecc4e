use vstd::prelude::*;

use crate::board::Subgame;
use crate::game::{GameState, GameView};
use crate::piece::Piece;

verus! {

/// Why a snapshot cannot be decoded.
#[derive(Clone, Copy, Debug, PartialEq, Eq, Structural)]
pub enum DecodeError {
    /// Fewer bytes than the snapshot's header announces.
    Truncated,
    /// An active sub-board coordinate above 2.
    InvalidActive,
    /// A mark byte above 2, for the turn or for a cell.
    InvalidPiece,
}

/// The header of a snapshot: 0 when no sub-board is active, else 2 and the active
/// sub-board's column and row.
pub open spec fn header_bytes(active: Option<(usize, usize)>) -> Seq<u8> {
    match active {
        Some((x, y)) => seq![2u8, x as u8, y as u8],
        None => seq![0u8],
    }
}

/// The 81 cell bytes: sub-boards by column, then row; within each, cells by column,
/// then row.
pub open spec fn cell_bytes(cells: Seq<Seq<Piece>>) -> Seq<u8> {
    Seq::new(81, |k: int| cells[k / 9][k % 9].spec_as_u8())
}

/// The snapshot of a state: header, turn byte, cell bytes.
pub open spec fn encode(v: GameView) -> Seq<u8> {
    header_bytes(v.active) + seq![v.turn.spec_as_u8()] + cell_bytes(v.cells)
}

/// The length of the header that starts with flag byte `flag`.
pub open spec fn header_len(flag: u8) -> int {
    if flag > 0 {
        3
    } else {
        1
    }
}

/// The mark of a byte known to be at most 2.
pub open spec fn piece_of(b: u8) -> Piece {
    if b == 0 {
        Piece::Empty
    } else if b == 1 {
        Piece::X
    } else {
        Piece::O
    }
}

/// What a snapshot decodes to. A nonzero flag byte announces two coordinate bytes.
/// Bytes after the last cell are not read.
pub open spec fn decode(b: Seq<u8>) -> Result<GameView, DecodeError> {
    if b.len() < 1 || b.len() < header_len(b[0]) + 82 {
        Err(DecodeError::Truncated)
    } else if b[0] > 0 && (b[1] > 2 || b[2] > 2) {
        Err(DecodeError::InvalidActive)
    } else {
        let s = header_len(b[0]);
        if exists|k: int| s <= k < s + 82 && #[trigger] b[k] > 2 {
            Err(DecodeError::InvalidPiece)
        } else {
            Ok(
                GameView {
                    active: if b[0] > 0 {
                        Some((b[1] as usize, b[2] as usize))
                    } else {
                        None
                    },
                    turn: piece_of(b[s]),
                    cells: Seq::new(
                        9,
                        |i: int| Seq::new(9, |j: int| piece_of(b[s + 1 + 9 * i + j])),
                    ),
                },
            )
        }
    }
}

/// Decoding the snapshot of a well-formed state gives the same board, turn and active
/// sub-board back.
pub proof fn lemma_round_trip(v: GameView)
    requires
        v.active matches Some((x, y)) ==> x < 3 && y < 3,
        v.cells.len() == 9,
        forall|i: int| 0 <= i < 9 ==> #[trigger] v.cells[i].len() == 9,
    ensures
        decode(encode(v)) matches Ok(w) && w.active == v.active && w.turn == v.turn
            && w.cells =~~= v.cells,
{
    let b = encode(v);
    let s = header_len(b[0]);
    assert(b[s] == v.turn.spec_as_u8());
    assert forall|k: int| s + 1 <= k < s + 82 implies b[k] == cell_bytes(v.cells)[k - s - 1] by {}
    assert forall|k: int| s <= k < s + 82 implies !(#[trigger] b[k] > 2) by {
        if k > s {
            let m = k - s - 1;
            assert(b[k] == v.cells[m / 9][m % 9].spec_as_u8());
        }
    }
    match decode(b) {
        Ok(w) => {
            assert forall|i: int, j: int| 0 <= i < 9 && 0 <= j < 9 implies w.cells[i][j]
                == v.cells[i][j] by {
                let m = 9 * i + j;
                assert(m / 9 == i && m % 9 == j);
                assert(b[s + 1 + m] == v.cells[i][j].spec_as_u8());
            }
        },
        Err(_) => {},
    }
}

/// The cells that the 81 bytes from index `s + 1` of `b` hold; `None` when one of
/// those bytes is above 2.
fn cells_from(b: &[u8], s: usize) -> (r: Option<[Subgame; 9]>)
    requires
        s <= 3,
        b@.len() >= s + 82,
    ensures
        r is None <==> exists|k: int| s + 1 <= k < s + 82 && #[trigger] b@[k] > 2,
        r matches Some(g) ==> forall|i: int, j: int|
            0 <= i < 9 && 0 <= j < 9 ==> g[i][j] == piece_of(#[trigger] b@[s + 1 + 9 * i + j]),
{
    let mut game: [Subgame; 9] = [[Piece::Empty; 9]; 9];
    let mut i: usize = 0;
    while i < 9
        invariant
            i <= 9,
            s <= 3,
            b@.len() >= s + 82,
            forall|k: int| s + 1 <= k < s + 1 + 9 * i ==> !(#[trigger] b@[k] > 2),
            forall|ii: int, jj: int|
                0 <= ii < i && 0 <= jj < 9 ==> game[ii][jj] == piece_of(
                    #[trigger] b@[s + 1 + 9 * ii + jj],
                ),
        decreases 9 - i,
    {
        let mut sub: Subgame = [Piece::Empty; 9];
        let mut j: usize = 0;
        while j < 9
            invariant
                i < 9,
                j <= 9,
                s <= 3,
                b@.len() >= s + 82,
                forall|k: int| s + 1 <= k < s + 1 + 9 * i + j ==> !(#[trigger] b@[k] > 2),
                forall|jj: int|
                    0 <= jj < j ==> sub[jj] == piece_of(#[trigger] b@[s + 1 + 9 * i + jj]),
            decreases 9 - j,
        {
            match Piece::from_u8(b[s + 1 + 9 * i + j]) {
                Some(p) => {
                    sub[j] = p;
                },
                None => {
                    assert(b@[s + 1 + 9 * i + j] > 2);
                    return None;
                },
            }
            j = j + 1;
        }
        game[i] = sub;
        i = i + 1;
    }
    Some(game)
}

impl GameState {
    /// The snapshot of this state: a flag byte (0, or 2 followed by the active
    /// sub-board's column and row), the turn byte, then the 81 cell bytes.
    pub fn update_to_bytes(&self) -> (r: Vec<u8>)
        requires
            self.wf(),
        ensures
            r@ == encode(self@),
    {
        let mut bytes: Vec<u8> = Vec::new();
        match self.active {
            Some((x, y)) => {
                bytes.push(2);
                bytes.push(x as u8);
                bytes.push(y as u8);
            },
            None => {
                bytes.push(0);
            },
        }
        bytes.push(self.turn.as_u8());
        let ghost h = bytes@;
        assert(h =~= header_bytes(self.active) + seq![self.turn.spec_as_u8()]);
        let mut i: usize = 0;
        while i < 9
            invariant
                i <= 9,
                bytes@.len() == h.len() + 9 * i,
                bytes@.subrange(0, h.len() as int) == h,
                forall|k: int|
                    0 <= k < 9 * i ==> #[trigger] bytes@[h.len() + k] == self.game[k / 9][k
                        % 9].spec_as_u8(),
            decreases 9 - i,
        {
            let mut j: usize = 0;
            while j < 9
                invariant
                    i < 9,
                    j <= 9,
                    bytes@.len() == h.len() + 9 * i + j,
                    bytes@.subrange(0, h.len() as int) == h,
                    forall|k: int|
                        0 <= k < 9 * i + j ==> #[trigger] bytes@[h.len() + k] == self.game[k
                            / 9][k % 9].spec_as_u8(),
                decreases 9 - j,
            {
                let ghost before = bytes@;
                bytes.push(self.game[i][j].as_u8());
                proof {
                    let m = 9 * i + j;
                    assert(m / 9 == i as int && m % 9 == j as int);
                    assert(bytes@.subrange(0, h.len() as int) =~= before.subrange(
                        0,
                        h.len() as int,
                    ));
                    assert forall|k: int| 0 <= k < m + 1 implies #[trigger] bytes@[h.len() + k]
                        == self.game[k / 9][k % 9].spec_as_u8() by {
                        if k < m {
                            assert(bytes@[h.len() + k] == before[h.len() + k]);
                        }
                    }
                }
                j = j + 1;
            }
            i = i + 1;
        }
        assert forall|k: int| 0 <= k < 81 implies #[trigger] bytes@[h.len() + k] == cell_bytes(
            self@.cells,
        )[k] by {
            assert(0 <= k / 9 < 9);
        }
        let ghost e = encode(self@);
        assert(e == h + cell_bytes(self@.cells));
        assert forall|n: int| 0 <= n < bytes@.len() implies bytes@[n] == e[n] by {
            if n < h.len() {
                assert(bytes@.subrange(0, h.len() as int)[n] == bytes@[n]);
            } else {
                let k = n - h.len();
                assert(bytes@[h.len() + k] == cell_bytes(self@.cells)[k]);
            }
        }
        assert(bytes@ =~= e);
        bytes
    }

    /// Replaces this state by the one that a snapshot holds. On a snapshot that is
    /// too short, or holds a coordinate or mark byte out of range, returns the error
    /// and leaves the state as it was.
    pub fn update_from_bytes(&mut self, bytes: &[u8]) -> (r: Result<(), DecodeError>)
        requires
            old(self).wf(),
        ensures
            final(self).wf(),
            match decode(bytes@) {
                Ok(v) => r is Ok && final(self)@.active == v.active && final(self)@.turn == v.turn
                    && final(self)@.cells == v.cells,
                Err(e) => r == Err::<(), DecodeError>(e) && *final(self) == *old(self),
            },
    {
        let b = bytes;
        if b.len() < 1 {
            return Err(DecodeError::Truncated);
        }
        let s: usize = if b[0] > 0 {
            3
        } else {
            1
        };
        if b.len() < s + 82 {
            return Err(DecodeError::Truncated);
        }
        if b[0] > 0 && (b[1] > 2 || b[2] > 2) {
            return Err(DecodeError::InvalidActive);
        }
        let turn = match Piece::from_u8(b[s]) {
            Some(p) => p,
            None => {
                return Err(DecodeError::InvalidPiece);
            },
        };
        let game = match cells_from(b, s) {
            Some(g) => g,
            None => {
                return Err(DecodeError::InvalidPiece);
            },
        };
        self.active = if b[0] > 0 {
            Some((b[1] as usize, b[2] as usize))
        } else {
            None
        };
        self.turn = turn;
        self.game = game;
        proof {
            match decode(bytes@) {
                Ok(v) => {
                    assert(self@.cells =~~= v.cells);
                },
                Err(_) => {},
            }
        }
        Ok(())
    }
}

} // verus!
