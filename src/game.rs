use vstd::prelude::*;

use crate::board::{
    board_view, game_drawn, game_is_draw, game_won, game_winner, grid_is_draw, grid_winner,
    has_line, lemma_grid_winner, lemma_line_kept, lemma_place_winner, meta_winners, new_game,
    subgame_is_draw, subgame_won, Game,
};
use crate::piece::Piece;

verus! {

/// The state of a game: the cells, whose turn it is, and the sub-board, if any, that
/// the next move must be played in (as column and row of the grid of sub-boards).
#[derive(Clone, Copy, Debug, PartialEq, Eq)]
pub struct GameState {
    pub active: Option<(usize, usize)>,
    pub game: Game,
    pub turn: Piece,
}

/// What a `GameState` holds, with the cells as sequences.
pub struct GameView {
    pub active: Option<(usize, usize)>,
    pub cells: Seq<Seq<Piece>>,
    pub turn: Piece,
}

/// Why a move is refused.
#[derive(Clone, Copy, Debug, PartialEq, Eq, Structural)]
pub enum MoveError {
    /// No position was given, or it lies outside the 9x9 board.
    OutOfBounds,
    /// The target sub-board has a winner.
    AlreadyWon,
    /// The target sub-board is drawn.
    AlreadyDrawn,
    /// Another sub-board is the active one.
    NotActive,
    /// The target cell holds a mark.
    Occupied,
}

impl View for GameState {
    type V = GameView;

    open spec fn view(&self) -> GameView {
        GameView { active: self.active, cells: board_view(self.game), turn: self.turn }
    }
}

/// Sub-board `i` can still take moves: it has no winner and is not drawn.
pub open spec fn sub_open(cells: Seq<Seq<Piece>>, i: int) -> bool {
    grid_winner(cells[i]) == Piece::Empty && !grid_is_draw(cells[i])
}

/// The constraint lets a move go to the sub-board in column `x1` and row `y1`.
pub open spec fn allows(active: Option<(usize, usize)>, x1: int, y1: int) -> bool {
    match active {
        Some((ax, ay)) => ax == x1 && ay == y1,
        None => true,
    }
}

/// The mark that the next move places: `X` when no turn is set.
pub open spec fn mover(turn: Piece) -> Piece {
    if turn == Piece::Empty {
        Piece::X
    } else {
        turn
    }
}

/// The game has a winner or is drawn.
pub open spec fn complete(cells: Seq<Seq<Piece>>) -> bool {
    game_drawn(cells) || game_winner(cells) != Piece::Empty
}

/// Which of the five refusals a move meets, in the order in which they are tested;
/// `None` for a legal move. Sub-board coordinates are `x1`, `y1`, cell coordinates
/// within it `x0`, `y0`.
pub open spec fn move_refusal(v: GameView, x1: int, y1: int, x0: int, y0: int) -> Option<
    MoveError,
> {
    if !(0 <= x1 < 3 && 0 <= y1 < 3 && 0 <= x0 < 3 && 0 <= y0 < 3) {
        Some(MoveError::OutOfBounds)
    } else if grid_winner(v.cells[3 * x1 + y1]) != Piece::Empty {
        Some(MoveError::AlreadyWon)
    } else if grid_is_draw(v.cells[3 * x1 + y1]) {
        Some(MoveError::AlreadyDrawn)
    } else if !allows(v.active, x1, y1) {
        Some(MoveError::NotActive)
    } else if v.cells[3 * x1 + y1][3 * x0 + y0] != Piece::Empty {
        Some(MoveError::Occupied)
    } else {
        None
    }
}

/// A move is legal when none of the refusals applies.
pub open spec fn legal(v: GameView, x1: int, y1: int, x0: int, y0: int) -> bool {
    move_refusal(v, x1, y1, x0, y0) is None
}

/// The state after a legal move: the mover's mark is placed; the next move must go to
/// the sub-board that the cell points at unless that one is decided; the turn passes
/// to the opponent unless the game is complete.
pub open spec fn after(v: GameView, x1: int, y1: int, x0: int, y0: int) -> GameView {
    let p = mover(v.turn);
    let i = 3 * x1 + y1;
    let j = 3 * x0 + y0;
    let cells = v.cells.update(i, v.cells[i].update(j, p));
    GameView {
        active: if sub_open(cells, j) {
            Some((x0 as usize, y0 as usize))
        } else {
            None
        },
        cells,
        turn: if complete(cells) {
            p
        } else {
            p.spec_other()
        },
    }
}

/// What holds of every state that `GameState::new` and legal moves lead to: a turn
/// is set, and a mark that fills a line of the grid of sub-board outcomes is the
/// mark whose turn it is.
pub open spec fn reachable_inv(v: GameView) -> bool {
    &&& v.turn != Piece::Empty
    &&& has_line(meta_winners(v.cells), Piece::X) ==> v.turn == Piece::X
    &&& has_line(meta_winners(v.cells), Piece::O) ==> v.turn == Piece::O
}

/// A legal move keeps `reachable_inv`.
pub proof fn lemma_move_keeps_inv(v: GameView, x1: int, y1: int, x0: int, y0: int)
    requires
        v.cells.len() == 9,
        forall|k: int| 0 <= k < 9 ==> #[trigger] v.cells[k].len() == 9,
        reachable_inv(v),
        legal(v, x1, y1, x0, y0),
    ensures
        reachable_inv(after(v, x1, y1, x0, y0)),
{
    let w = after(v, x1, y1, x0, y0);
    let p = v.turn;
    let i = 3 * x1 + y1;
    let j = 3 * x0 + y0;
    let m = meta_winners(v.cells);
    let m2 = meta_winners(w.cells);
    lemma_place_winner(v.cells[i], j, p);
    assert(m2[i] == grid_winner(v.cells[i].update(j, p)));
    assert forall|k: int| 0 <= k < 9 && k != i implies m[k] == m2[k] by {
        assert(w.cells[k] == v.cells[k]);
    }
    lemma_grid_winner(m2);
    if has_line(m2, p.spec_other()) {
        lemma_line_kept(m, m2, i, p.spec_other());
    }
    if has_line(m2, p) {
        assert(game_winner(w.cells) != Piece::Empty);
    }
}

/// In every state that satisfies `reachable_inv`, at most one mark fills a line of the
/// grid of sub-board outcomes.
pub proof fn lemma_single_meta_winner(v: GameView)
    requires
        reachable_inv(v),
    ensures
        !(has_line(meta_winners(v.cells), Piece::X) && has_line(
            meta_winners(v.cells),
            Piece::O,
        )),
{
}

/// Which refusal a move given as a position on the 9x9 board meets: none given, or
/// outside the board, is `OutOfBounds`; otherwise as `move_refusal` on its sub-board
/// and cell coordinates.
pub open spec fn pos_refusal(v: GameView, pos: Option<(usize, usize)>) -> Option<MoveError> {
    match pos {
        None => Some(MoveError::OutOfBounds),
        Some((x, y)) => if x >= 9 || y >= 9 {
            Some(MoveError::OutOfBounds)
        } else {
            move_refusal(v, x as int / 3, y as int / 3, x as int % 3, y as int % 3)
        },
    }
}

impl GameState {
    /// The active sub-board, if any, has coordinates below 3.
    pub open spec fn wf(&self) -> bool {
        self.active matches Some((x, y)) ==> x < 3 && y < 3
    }

    /// An empty game: `X` to move, every sub-board open.
    pub fn new() -> (r: GameState)
        ensures
            r.wf(),
            r.active is None,
            r.turn == Piece::X,
            forall|i: int, j: int| 0 <= i < 9 && 0 <= j < 9 ==> r.game[i][j] == Piece::Empty,
            reachable_inv(r@),
    {
        let r = GameState { active: None, game: new_game(), turn: Piece::X };
        proof {
            let m = meta_winners(r@.cells);
            assert forall|k: int| 0 <= k < 9 implies m[k] == Piece::Empty by {
                lemma_grid_winner(r@.cells[k]);
            }
        }
        r
    }

    /// Tests a move given as sub-board column and row, then cell column and row within
    /// it, against the five refusals, in order.
    pub fn check_move(&self, x1: usize, y1: usize, x0: usize, y0: usize) -> (r: Result<
        (),
        MoveError,
    >)
        requires
            self.wf(),
        ensures
            r matches Err(e) ==> move_refusal(self@, x1 as int, y1 as int, x0 as int, y0 as int)
                == Some(e),
            r is Ok ==> legal(self@, x1 as int, y1 as int, x0 as int, y0 as int),
    {
        if x1 >= 3 || y1 >= 3 || x0 >= 3 || y0 >= 3 {
            return Err(MoveError::OutOfBounds);
        }
        let i = 3 * x1 + y1;
        if subgame_won(&self.game[i]) != Piece::Empty {
            return Err(MoveError::AlreadyWon);
        }
        if subgame_is_draw(&self.game[i]) {
            return Err(MoveError::AlreadyDrawn);
        }
        if let Some((ax, ay)) = self.active {
            if ax != x1 || ay != y1 {
                return Err(MoveError::NotActive);
            }
        }
        if self.game[i][3 * x0 + y0] != Piece::Empty {
            return Err(MoveError::Occupied);
        }
        Ok(())
    }

    /// Plays the mark whose turn it is (`X` when none is set) at cell column `x0`, row
    /// `y0` of the sub-board in column `x1`, row `y1`. A refused move returns `false`
    /// and changes nothing. An accepted one returns `true`; the next move is then bound
    /// to the sub-board at (`x0`, `y0`) unless that one has a winner or is drawn, and
    /// the turn passes to the opponent unless the game is now complete.
    pub fn apply_move(&mut self, x1: usize, y1: usize, x0: usize, y0: usize) -> (r: bool)
        requires
            old(self).wf(),
        ensures
            final(self).wf(),
            r == legal(old(self)@, x1 as int, y1 as int, x0 as int, y0 as int),
            r ==> final(self)@ == after(old(self)@, x1 as int, y1 as int, x0 as int, y0 as int),
            r ==> final(self).active == (if sub_open(final(self)@.cells, 3 * x0 + y0) {
                Some((x0, y0))
            } else {
                None
            }),
            !r ==> *final(self) == *old(self),
            r && reachable_inv(old(self)@) ==> reachable_inv(final(self)@),
    {
        if self.check_move(x1, y1, x0, y0).is_err() {
            return false;
        }
        let ghost v = self@;
        let p = if self.turn == Piece::Empty {
            Piece::X
        } else {
            self.turn
        };
        let i = 3 * x1 + y1;
        let j = 3 * x0 + y0;
        let mut sub = self.game[i];
        sub[j] = p;
        self.game[i] = sub;
        assert(self@.cells =~~= v.cells.update(i as int, v.cells[i as int].update(j as int, p)));
        if subgame_won(&self.game[j]) == Piece::Empty && !subgame_is_draw(&self.game[j]) {
            self.active = Some((x0, y0));
        } else {
            self.active = None;
        }
        if self.is_complete() {
            self.turn = p;
        } else {
            self.turn = p.other();
        }
        proof {
            if reachable_inv(v) {
                lemma_move_keeps_inv(v, x1 as int, y1 as int, x0 as int, y0 as int);
            }
        }
        true
    }

    /// Plays at column `x` and row `y` of the 9x9 board, as `apply_move` does; a
    /// position outside the board is refused.
    pub fn manual_turn(&mut self, x: usize, y: usize) -> (r: bool)
        requires
            old(self).wf(),
        ensures
            final(self).wf(),
            r == (pos_refusal(old(self)@, Some((x, y))) is None),
            r ==> final(self)@ == after(
                old(self)@,
                x as int / 3,
                y as int / 3,
                x as int % 3,
                y as int % 3,
            ),
            !r ==> *final(self) == *old(self),
            r && reachable_inv(old(self)@) ==> reachable_inv(final(self)@),
    {
        if x >= 9 || y >= 9 {
            return false;
        }
        self.apply_move(x / 3, y / 3, x % 3, y % 3)
    }

    /// One step of turn-taking: the position that the player to move produced, or
    /// `None` when it produced none. A refused position gives the refusal and changes
    /// nothing, so that the same player is asked again; an accepted one is played and
    /// given back.
    pub fn turn(&mut self, pos: Option<(usize, usize)>) -> (r: Result<(usize, usize), MoveError>)
        requires
            old(self).wf(),
        ensures
            final(self).wf(),
            match pos_refusal(old(self)@, pos) {
                Some(e) => r == Err::<(usize, usize), MoveError>(e) && *final(self) == *old(self),
                None => {
                    &&& pos matches Some((x, y))
                    &&& r == Ok::<(usize, usize), MoveError>((x, y))
                    &&& final(self)@ == after(
                        old(self)@,
                        x as int / 3,
                        y as int / 3,
                        x as int % 3,
                        y as int % 3,
                    )
                },
            },
            r is Ok && reachable_inv(old(self)@) ==> reachable_inv(final(self)@),
    {
        match pos {
            None => Err(MoveError::OutOfBounds),
            Some((x, y)) => {
                if x >= 9 || y >= 9 {
                    return Err(MoveError::OutOfBounds);
                }
                match self.check_move(x / 3, y / 3, x % 3, y % 3) {
                    Err(e) => Err(e),
                    Ok(()) => {
                        self.apply_move(x / 3, y / 3, x % 3, y % 3);
                        Ok((x, y))
                    },
                }
            },
        }
    }

    /// The game has a winner or is drawn.
    pub fn is_complete(&self) -> (r: bool)
        ensures
            r == complete(self@.cells),
    {
        self.is_draw() || self.won() != Piece::Empty
    }

    /// Each line of the grid of sub-boards holds a drawn sub-board.
    pub fn is_draw(&self) -> (r: bool)
        ensures
            r == game_drawn(self@.cells),
    {
        game_is_draw(&self.game)
    }

    /// The winner of the game, or `Empty`.
    pub fn won(&self) -> (r: Piece)
        ensures
            r == game_winner(self@.cells),
    {
        game_won(&self.game)
    }
}

} // verus!
