use vstd::prelude::*;

use crate::board::{
    board_view, game_winner, grid_is_draw, grid_score, grid_winner, Game, game_won, subgame_is_draw,
    subgame_score, subgame_won,
};
use crate::game::{after, allows, legal, pos_refusal, sub_open, GameState, GameView};
use crate::piece::Piece;

verus! {

/// The score of a won game, added for its winner and taken off for the loser.
pub const WIN_SCORE: isize = 1_000_000;

/// The number of plies that `Minimax::play_inner` looks ahead.
pub const MAX_DEPTH: usize = 8;

/// What one sub-board adds to the evaluation for `me`: 100 if `me` won it, -100 if
/// someone else did, -10 if it is drawn, else its tactical score.
pub open spec fn sub_points(s: Seq<Piece>, me: Piece) -> int {
    let w = grid_winner(s);
    if w == Piece::Empty {
        if grid_is_draw(s) {
            -10
        } else {
            grid_score(s, me)
        }
    } else if w == me {
        100
    } else {
        -100
    }
}

/// The sum of `sub_points` over the sub-boards from index `i` on.
pub open spec fn points_from(cells: Seq<Seq<Piece>>, i: int, me: Piece) -> int
    decreases 9 - i,
{
    if i >= 9 {
        0
    } else {
        sub_points(cells[i], me) + points_from(cells, i + 1, me)
    }
}

/// The static evaluation of a board for `me`: the points of its sub-boards, plus
/// `WIN_SCORE` if `me` won the game, minus it if someone else did.
pub open spec fn evaluation(cells: Seq<Seq<Piece>>, me: Piece) -> int {
    let w = game_winner(cells);
    points_from(cells, 0, me) + if w == Piece::Empty {
        0
    } else if w == me {
        WIN_SCORE as int
    } else {
        -WIN_SCORE
    }
}

/// The move that the `k`-th step of the enumeration tries, as sub-board column and
/// row, then cell column and row: sub-boards in the order (0, 0), (0, 1), ..., (2, 2),
/// cells within each in the same order.
pub open spec fn move_at(k: int) -> (int, int, int, int) {
    let i = k / 9;
    let j = k % 9;
    (i / 3, i % 3, j / 3, j % 3)
}

/// The negamax value of `v` for `me` at ply `depth`, within the window
/// (`alpha`, `beta`). At the depth bound, or once the game has a winner, it is the
/// static evaluation; else the moves are tried in enumeration order.
pub open spec fn search(v: GameView, depth: nat, me: Piece, alpha: int, beta: int) -> int
    decreases MAX_DEPTH - depth, 82int,
{
    if depth >= MAX_DEPTH || game_winner(v.cells) != Piece::Empty {
        evaluation(v.cells, me)
    } else {
        search_moves(v, depth, me, alpha, beta, 0, None)
    }
}

/// The moves of `v` from step `k` of the enumeration on, with the window's lower end
/// raised to `alpha` and the best score so far `best`. Each legal move scores the
/// negated value of the state it leads to, with the window negated and swapped. Once
/// the lower end reaches `beta` it is returned at once; after the last move the best
/// score is returned, or the static evaluation when no move was legal.
pub open spec fn search_moves(
    v: GameView,
    depth: nat,
    me: Piece,
    alpha: int,
    beta: int,
    k: int,
    best: Option<int>,
) -> int
    decreases MAX_DEPTH - depth, 81 - k,
{
    if k >= 81 || depth >= MAX_DEPTH {
        match best {
            Some(b) => b,
            None => evaluation(v.cells, me),
        }
    } else {
        let (x1, y1, x0, y0) = move_at(k);
        if legal(v, x1, y1, x0, y0) {
            let score = -search(after(v, x1, y1, x0, y0), depth + 1, me, -beta, -alpha);
            let b = match best {
                Some(b) => if b >= score {
                    b
                } else {
                    score
                },
                None => score,
            };
            let a = if alpha >= b {
                alpha
            } else {
                b
            };
            if a >= beta {
                a
            } else {
                search_moves(v, depth, me, a, beta, k + 1, Some(b))
            }
        } else {
            search_moves(v, depth, me, alpha, beta, k + 1, best)
        }
    }
}

/// The position on the 9x9 board (column, row) of the move at step `k`.
pub open spec fn pos_of(k: int) -> (usize, usize) {
    let (x1, y1, x0, y0) = move_at(k);
    ((3 * x1 + x0) as usize, (3 * y1 + y0) as usize)
}

/// The move at step `k` is legal in `v`.
pub open spec fn move_legal(v: GameView, k: int) -> bool {
    let (x1, y1, x0, y0) = move_at(k);
    legal(v, x1, y1, x0, y0)
}

/// The score of the move at step `k`: the search value, for the turn recorded in `v`,
/// of the state it leads to, at ply 0 and with the widest window.
pub open spec fn move_score(v: GameView, k: int) -> int {
    let (x1, y1, x0, y0) = move_at(k);
    search(after(v, x1, y1, x0, y0), 0, v.turn, -(isize::MAX as int), isize::MAX as int)
}

/// The highest score among the legal moves before step `k`, if there is one.
pub open spec fn top_score(v: GameView, k: int) -> Option<int>
    decreases k,
{
    if k <= 0 {
        None
    } else {
        let t = top_score(v, k - 1);
        if move_legal(v, k - 1) {
            let s = move_score(v, k - 1);
            match t {
                Some(h) => Some(
                    if h >= s {
                        h
                    } else {
                        s
                    },
                ),
                None => Some(s),
            }
        } else {
            t
        }
    }
}

/// The positions of the legal moves before step `k` that score `t`, in enumeration
/// order.
pub open spec fn scoring(v: GameView, k: int, t: int) -> Seq<(usize, usize)>
    decreases k,
{
    if k <= 0 {
        seq![]
    } else {
        let r = scoring(v, k - 1, t);
        if move_legal(v, k - 1) && move_score(v, k - 1) == t {
            r.push(pos_of(k - 1))
        } else {
            r
        }
    }
}

/// The legal moves of `v` that reach the highest score, in enumeration order.
pub open spec fn best_moves_of(v: GameView) -> Seq<(usize, usize)> {
    match top_score(v, 81) {
        Some(t) => scoring(v, 81, t),
        None => seq![],
    }
}

/// The search value is a function of the state, the depth, the perspective and the
/// window alone: two searches on equal arguments give equal scores, so `play_inner`,
/// whose result is this value, returns the same score on every run.
pub proof fn lemma_search_deterministic(
    v: GameView,
    w: GameView,
    depth: nat,
    me: Piece,
    alpha: int,
    beta: int,
)
    requires
        v == w,
    ensures
        search(v, depth, me, alpha, beta) == search(w, depth, me, alpha, beta),
{
}

/// No move before step `k` scores above the top score there.
proof fn lemma_none_above_top(v: GameView, k: int, t: int)
    requires
        top_score(v, k) matches Some(h) ==> h < t,
    ensures
        scoring(v, k, t) == Seq::<(usize, usize)>::empty(),
    decreases k,
{
    if k > 0 {
        lemma_none_above_top(v, k - 1, t);
    }
}

/// Every position that `scoring` lists is a legal move.
proof fn lemma_scoring_legal(v: GameView, k: int, t: int)
    requires
        k <= 81,
    ensures
        forall|n: int|
            0 <= n < scoring(v, k, t).len() ==> pos_refusal(v, Some(#[trigger] scoring(v, k, t)[n]))
                is None,
    decreases k,
{
    if k > 0 {
        lemma_scoring_legal(v, k - 1, t);
        let m = k - 1;
        let i = m / 9;
        let j = m % 9;
        lemma_move_at(i, j);
        assert(9 * i + j == m);
        let (x, y) = pos_of(m);
        assert(x / 3 == i / 3 && x % 3 == j / 3 && y / 3 == i % 3 && y % 3 == j % 3);
    }
}

/// Step `9 * i + j` of the enumeration is cell `j` of sub-board `i`.
proof fn lemma_move_at(i: int, j: int)
    requires
        0 <= i < 9,
        0 <= j < 9,
    ensures
        move_at(9 * i + j) == (i / 3, i % 3, j / 3, j % 3),
        3 * (i / 3) + i % 3 == i,
        3 * (j / 3) + j % 3 == j,
        0 <= i / 3 < 3 && 0 <= i % 3 < 3 && 0 <= j / 3 < 3 && 0 <= j % 3 < 3,
{
    assert((9 * i + j) / 9 == i && (9 * i + j) % 9 == j) by (nonlinear_arith)
        requires
            0 <= i < 9,
            0 <= j < 9,
    ;
}

/// A sub-board that cannot take the next move adds nothing to the enumeration.
proof fn lemma_skip_sub(
    v: GameView,
    depth: nat,
    me: Piece,
    alpha: int,
    beta: int,
    i: int,
    j: int,
    best: Option<int>,
)
    requires
        0 <= i < 9,
        0 <= j <= 9,
        depth < MAX_DEPTH,
        !(sub_open(v.cells, i) && allows(v.active, i / 3, i % 3)),
    ensures
        search_moves(v, depth, me, alpha, beta, 9 * i + j, best) == search_moves(
            v,
            depth,
            me,
            alpha,
            beta,
            9 * i + 9,
            best,
        ),
    decreases 9 - j,
{
    if j < 9 {
        lemma_skip_sub(v, depth, me, alpha, beta, i, j + 1, best);
        lemma_move_at(i, j);
        let (x1, y1, x0, y0) = move_at(9 * i + j);
        assert(!legal(v, x1, y1, x0, y0));
    }
}

/// The automated player: negamax search with alpha-beta pruning.
pub struct Minimax;

impl Minimax {
    /// The static evaluation of `game` for `me`: per sub-board +100 if `me` won it,
    /// -100 if someone else did, -10 if it is drawn, else its tactical score; then
    /// plus or minus `WIN_SCORE` if the game itself has a winner.
    pub fn eval(game: &Game, me: &Piece) -> (r: isize)
        ensures
            r as int == evaluation(board_view(*game), *me),
            -1_000_900 <= r <= 1_000_900,
    {
        let ghost cells = board_view(*game);
        let mut points: isize = 0;
        let mut i: usize = 0;
        while i < 9
            invariant
                i <= 9,
                cells == board_view(*game),
                -100 * i <= points <= 100 * i,
                points + points_from(cells, i as int, *me) == points_from(cells, 0, *me),
            decreases 9 - i,
        {
            let sub = &game[i];
            let w = subgame_won(sub);
            if w == Piece::Empty {
                if subgame_is_draw(sub) {
                    points = points - 10;
                } else {
                    points = points + subgame_score(sub, me);
                }
            } else if w == *me {
                points = points + 100;
            } else {
                points = points - 100;
            }
            assert(cells[i as int] == game[i as int]@);
            i = i + 1;
        }
        let w = game_won(game);
        if w == Piece::Empty {
        } else if w == *me {
            points = points + WIN_SCORE;
        } else {
            points = points - WIN_SCORE;
        }
        points
    }

    /// The negamax value of `game` for `me` at ply `depth`, within the window
    /// (`alpha`, `beta`), searched to `MAX_DEPTH` plies with alpha-beta pruning. Each
    /// branch plays its move on a copy of the state. Leaves are evaluated for `me` at
    /// every ply, and each child's value is negated. Where no move is legal the value
    /// is the static evaluation.
    pub fn play_inner(depth: usize, game: &GameState, me: Piece, alpha: isize, beta: isize) -> (r:
        isize)
        requires
            game.wf(),
            alpha > isize::MIN,
            beta > isize::MIN,
        ensures
            r as int == search(game@, depth as nat, me, alpha as int, beta as int),
            r > isize::MIN,
        decreases MAX_DEPTH - depth,
    {
        if depth >= MAX_DEPTH || game_won(&game.game) != Piece::Empty {
            return Self::eval(&game.game, &me);
        }
        let ghost v = game@;
        let ghost alpha0 = alpha as int;
        let mut lo = alpha;
        let mut best: isize = isize::MIN;
        let mut found = false;
        let mut i: usize = 0;
        while i < 9
            invariant
                i <= 9,
                depth < MAX_DEPTH,
                game.wf(),
                v == game@,
                alpha0 == alpha as int,
                lo > isize::MIN,
                beta > isize::MIN,
                found ==> best > isize::MIN,
                search(v, depth as nat, me, alpha0, beta as int) == search_moves(
                    v,
                    depth as nat,
                    me,
                    lo as int,
                    beta as int,
                    9 * i,
                    if found {
                        Some(best as int)
                    } else {
                        None
                    },
                ),
            decreases 9 - i,
        {
            let sub = &game.game[i];
            let allowed = match game.active {
                Some((ax, ay)) => ax == i / 3 && ay == i % 3,
                None => true,
            };
            proof {
                lemma_move_at(i as int, 0);
                assert(game@.cells[i as int] == game.game[i as int]@);
            }
            if subgame_won(sub) != Piece::Empty || subgame_is_draw(sub) || !allowed {
                proof {
                    lemma_skip_sub(
                        v,
                        depth as nat,
                        me,
                        lo as int,
                        beta as int,
                        i as int,
                        0,
                        if found {
                            Some(best as int)
                        } else {
                            None
                        },
                    );
                }
            } else {
                let mut j: usize = 0;
                while j < 9
                    invariant
                        i < 9,
                        j <= 9,
                        depth < MAX_DEPTH,
                        game.wf(),
                        v == game@,
                        alpha0 == alpha as int,
                        sub_open(v.cells, i as int),
                        allows(v.active, i as int / 3, i as int % 3),
                        lo > isize::MIN,
                        beta > isize::MIN,
                        found ==> best > isize::MIN,
                        search(v, depth as nat, me, alpha0, beta as int) == search_moves(
                            v,
                            depth as nat,
                            me,
                            lo as int,
                            beta as int,
                            9 * i + j,
                            if found {
                                Some(best as int)
                            } else {
                                None
                            },
                        ),
                    decreases 9 - j,
                {
                    proof {
                        lemma_move_at(i as int, j as int);
                        assert(game@.cells[i as int][j as int] == game.game[i as int][j as int]);
                    }
                    if game.game[i][j] == Piece::Empty {
                        let ghost a0 = lo as int;
                        let ghost b0 = if found {
                            Some(best as int)
                        } else {
                            None
                        };
                        let mut next = *game;
                        next.apply_move(i / 3, i % 3, j / 3, j % 3);
                        let child = Self::play_inner(depth + 1, &next, me, -beta, -lo);
                        let score = -child;
                        if !found || score > best {
                            best = score;
                        }
                        found = true;
                        if best > lo {
                            lo = best;
                        }
                        if lo >= beta {
                            assert(search_moves(v, depth as nat, me, a0, beta as int, 9 * i + j, b0)
                                == lo);
                            return lo;
                        }
                    }
                    j = j + 1;
                }
            }
            i = i + 1;
        }
        if found {
            best
        } else {
            Self::eval(&game.game, &me)
        }
    }

    /// The positions (column, row on the 9x9 board) of the legal moves of `state`
    /// whose score is highest, in enumeration order. A move's score is the value of
    /// `play_inner` at ply 0, with the widest window, for the mark to move, on the
    /// state that the move leads to.
    pub fn best_moves(state: &GameState) -> (r: Vec<(usize, usize)>)
        requires
            state.wf(),
        ensures
            r@ == best_moves_of(state@),
    {
        let ghost v = state@;
        let mut bests: Vec<(usize, usize)> = Vec::new();
        let mut highest: isize = isize::MIN;
        let mut found = false;
        let mut k: usize = 0;
        while k < 81
            invariant
                k <= 81,
                state.wf(),
                v == state@,
                top_score(v, k as int) == (if found {
                    Some(highest as int)
                } else {
                    None
                }),
                bests@ == (if found {
                    scoring(v, k as int, highest as int)
                } else {
                    Seq::<(usize, usize)>::empty()
                }),
            decreases 81 - k,
        {
            let i = k / 9;
            let j = k % 9;
            proof {
                lemma_move_at(i as int, j as int);
            }
            let (x1, y1, x0, y0) = (i / 3, i % 3, j / 3, j % 3);
            let mut child = *state;
            if child.apply_move(x1, y1, x0, y0) {
                let score = Self::play_inner(0, &child, state.turn, isize::MIN + 1, isize::MAX);
                let pos = (3 * x1 + x0, 3 * y1 + y0);
                if !found || score > highest {
                    proof {
                        lemma_none_above_top(v, k as int, score as int);
                    }
                    bests = Vec::new();
                    bests.push(pos);
                    highest = score;
                } else if score == highest {
                    bests.push(pos);
                }
                found = true;
            }
            k = k + 1;
        }
        proof {
            if !found {
                assert(best_moves_of(v) == Seq::<(usize, usize)>::empty());
            }
        }
        bests
    }
}

impl Minimax {
    /// The search-driven player's move for `turn` on `game` under the constraint
    /// `active`: one of `best_moves`, picked at random; `None` when no move is legal.
    pub fn play(&self, game: &Game, turn: &Piece, active: Option<(usize, usize)>) -> (r: Option<
        (usize, usize),
    >)
        requires
            active matches Some((x, y)) ==> x < 3 && y < 3,
        ensures
            ({
                let v = GameView { active, cells: board_view(*game), turn: *turn };
                let best = best_moves_of(v);
                &&& r is None <==> best.len() == 0
                &&& r matches Some(p) ==> best.contains(p)
                &&& r matches Some(p) ==> pos_refusal(v, Some(p)) is None
            }),
    {
        let state = GameState { active, game: *game, turn: *turn };
        let bests = Self::best_moves(&state);
        let rnd: u32 = rand::random::<u32>();
        let r = choose_tied(&bests, rnd);
        proof {
            if bests@.len() > 0 {
                let idx = (rnd as int) % (bests@.len() as int);
                assert(bests@[idx] == r->0);
                if let Some(t) = top_score(state@, 81) {
                    lemma_scoring_legal(state@, 81, t);
                }
            }
        }
        r
    }
}

/// One of the tied best moves, picked by `rnd`: the one at index `rnd` modulo their
/// number; `None` when there is none.
pub fn choose_tied(bests: &Vec<(usize, usize)>, rnd: u32) -> (r: Option<(usize, usize)>)
    ensures
        bests@.len() == 0 ==> r is None,
        bests@.len() > 0 ==> r == Some(bests@[(rnd as int) % (bests@.len() as int)]),
{
    if bests.len() == 0 {
        None
    } else {
        Some(bests[(rnd as usize) % bests.len()])
    }
}

} // verus!
