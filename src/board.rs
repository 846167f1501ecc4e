use vstd::prelude::*;

use crate::piece::Piece;

verus! {

/// A 3x3 sub-board: the cell in column `x` and row `y` is at index `3 * x + y`.
pub type Subgame = [Piece; 9];

/// The 3x3 grid of sub-boards: the one in column `x` and row `y` is at index `3 * x + y`.
pub type Game = [Subgame; 9];

/// The three indices of line `l`: lines 0 to 2 each keep one column, lines 3 to 5 each
/// keep one row, and lines 6 and 7 are the diagonals.
pub open spec fn line_cells(l: int) -> (int, int, int) {
    if l == 0 {
        (0, 1, 2)
    } else if l == 1 {
        (3, 4, 5)
    } else if l == 2 {
        (6, 7, 8)
    } else if l == 3 {
        (0, 3, 6)
    } else if l == 4 {
        (1, 4, 7)
    } else if l == 5 {
        (2, 5, 8)
    } else if l == 6 {
        (0, 4, 8)
    } else {
        (2, 4, 6)
    }
}

/// The indices of line `l`, for `l < 8`.
pub fn line(l: usize) -> (r: (usize, usize, usize))
    requires
        l < 8,
    ensures
        r.0 as int == line_cells(l as int).0,
        r.1 as int == line_cells(l as int).1,
        r.2 as int == line_cells(l as int).2,
{
    match l {
        0 => (0, 1, 2),
        1 => (3, 4, 5),
        2 => (6, 7, 8),
        3 => (0, 3, 6),
        4 => (1, 4, 7),
        5 => (2, 5, 8),
        6 => (0, 4, 8),
        _ => (2, 4, 6),
    }
}

/// Line `l` of `s` holds three equal marks that are not empty.
pub open spec fn line_won(s: Seq<Piece>, l: int) -> bool {
    let (a, b, c) = line_cells(l);
    s[a] != Piece::Empty && s[a] == s[b] && s[a] == s[c]
}

/// `p` fills some line of `s`.
pub open spec fn has_line(s: Seq<Piece>, p: Piece) -> bool {
    exists|l: int| 0 <= l < 8 && #[trigger] line_won(s, l) && s[line_cells(l).0] == p
}

/// The mark of the first filled line at or after line `l`, or `Empty`.
pub open spec fn winner_from(s: Seq<Piece>, l: int) -> Piece
    decreases 8 - l,
{
    if l >= 8 {
        Piece::Empty
    } else if line_won(s, l) {
        s[line_cells(l).0]
    } else {
        winner_from(s, l + 1)
    }
}

/// The winner of a 3x3 grid: the mark of its first filled line, or `Empty`.
pub open spec fn grid_winner(s: Seq<Piece>) -> Piece {
    winner_from(s, 0)
}

/// Line `l` of `s` holds a `p`.
pub open spec fn line_has(s: Seq<Piece>, l: int, p: Piece) -> bool {
    let (a, b, c) = line_cells(l);
    s[a] == p || s[b] == p || s[c] == p
}

/// Line `l` of `s` can no longer be filled: it holds an `X` and an `O`.
pub open spec fn line_blocked(s: Seq<Piece>, l: int) -> bool {
    line_has(s, l, Piece::X) && line_has(s, l, Piece::O)
}

/// No line of `s` can still be filled.
pub open spec fn grid_is_draw(s: Seq<Piece>) -> bool {
    forall|l: int| 0 <= l < 8 ==> #[trigger] line_blocked(s, l)
}

/// How many cells of line `l` hold `p`.
pub open spec fn line_count(s: Seq<Piece>, l: int, p: Piece) -> int {
    let (a, b, c) = line_cells(l);
    (if s[a] == p { 1int } else { 0 }) + (if s[b] == p { 1int } else { 0 }) + (if s[c] == p {
        1int
    } else {
        0
    })
}

/// +1 for a line with two of `me` and none of the opponent, -1 for the reverse, else 0.
pub open spec fn line_score(s: Seq<Piece>, l: int, me: Piece) -> int {
    let mine = line_count(s, l, me);
    let theirs = line_count(s, l, me.spec_other());
    if mine == 2 && theirs == 0 {
        1
    } else if mine == 0 && theirs == 2 {
        -1
    } else {
        0
    }
}

/// The sum of `line_score` over the lines from `l` on.
pub open spec fn score_from(s: Seq<Piece>, l: int, me: Piece) -> int
    decreases 8 - l,
{
    if l >= 8 {
        0
    } else {
        line_score(s, l, me) + score_from(s, l + 1, me)
    }
}

/// The tactical score of a sub-board for `me`; 0 when `me` is `Empty`.
pub open spec fn grid_score(s: Seq<Piece>, me: Piece) -> int {
    if me == Piece::Empty {
        0
    } else {
        score_from(s, 0, me)
    }
}

/// The cells of a game, one sequence of nine marks per sub-board.
pub open spec fn board_view(g: Game) -> Seq<Seq<Piece>> {
    Seq::new(9, |i: int| g[i]@)
}

/// The grid of sub-board outcomes: the winner of each sub-board.
pub open spec fn meta_winners(g: Seq<Seq<Piece>>) -> Seq<Piece> {
    Seq::new(9, |i: int| grid_winner(g[i]))
}

/// The winner of the whole game: the winner of the grid of sub-board outcomes.
pub open spec fn game_winner(g: Seq<Seq<Piece>>) -> Piece {
    grid_winner(meta_winners(g))
}

/// Each line of the grid of sub-boards holds a drawn sub-board.
pub open spec fn game_drawn(g: Seq<Seq<Piece>>) -> bool {
    forall|l: int|
        0 <= l < 8 ==> {
            let (a, b, c) = #[trigger] line_cells(l);
            grid_is_draw(g[a]) || grid_is_draw(g[b]) || grid_is_draw(g[c])
        }
}

/// `winner_from` is `Empty` exactly when no line from `l` on is filled, and otherwise
/// names the mark of a filled line.
proof fn lemma_winner_from(s: Seq<Piece>, l: int)
    requires
        0 <= l <= 8,
        s.len() == 9,
    ensures
        winner_from(s, l) == Piece::Empty <==> forall|k: int|
            l <= k < 8 ==> !#[trigger] line_won(s, k),
        winner_from(s, l) != Piece::Empty ==> exists|k: int|
            l <= k < 8 && #[trigger] line_won(s, k) && s[line_cells(k).0] == winner_from(s, l),
    decreases 8 - l,
{
    if l < 8 {
        lemma_winner_from(s, l + 1);
    }
}

/// The winner of a grid is `Empty` exactly when no line is filled; otherwise it fills
/// a line.
pub proof fn lemma_grid_winner(s: Seq<Piece>)
    requires
        s.len() == 9,
    ensures
        grid_winner(s) == Piece::Empty <==> forall|k: int|
            0 <= k < 8 ==> !#[trigger] line_won(s, k),
        grid_winner(s) != Piece::Empty ==> has_line(s, grid_winner(s)),
{
    lemma_winner_from(s, 0);
}

/// A sub-board with no empty cell and no winner is drawn: no line can still be filled.
pub proof fn lemma_full_unwon_is_draw(s: Seq<Piece>)
    requires
        s.len() == 9,
        forall|i: int| 0 <= i < 9 ==> s[i] != Piece::Empty,
        grid_winner(s) == Piece::Empty,
    ensures
        grid_is_draw(s),
{
    lemma_grid_winner(s);
    assert forall|l: int| 0 <= l < 8 implies #[trigger] line_blocked(s, l) by {
        assert(!line_won(s, l));
    }
}

/// Putting `p` into an empty cell of a grid without a winner leaves it without a
/// winner or makes `p` its winner.
pub proof fn lemma_place_winner(s: Seq<Piece>, j: int, p: Piece)
    requires
        s.len() == 9,
        0 <= j < 9,
        grid_winner(s) == Piece::Empty,
    ensures
        grid_winner(s.update(j, p)) == Piece::Empty || grid_winner(s.update(j, p)) == p,
{
    let t = s.update(j, p);
    lemma_grid_winner(s);
    lemma_grid_winner(t);
    let w = grid_winner(t);
    if w != Piece::Empty && w != p {
        let l = choose|l: int| 0 <= l < 8 && #[trigger] line_won(t, l) && t[line_cells(l).0] == w;
        assert(line_won(s, l));
    }
}

/// A line of `q` in a grid where only cell `i` changed, and that cell is not `q` after
/// the change, was a line of `q` before.
pub proof fn lemma_line_kept(s: Seq<Piece>, t: Seq<Piece>, i: int, q: Piece)
    requires
        s.len() == 9,
        t.len() == 9,
        0 <= i < 9,
        forall|k: int| 0 <= k < 9 && k != i ==> s[k] == t[k],
        t[i] != q,
        has_line(t, q),
    ensures
        has_line(s, q),
{
    let l = choose|l: int| 0 <= l < 8 && #[trigger] line_won(t, l) && t[line_cells(l).0] == q;
    assert(line_won(s, l));
}

/// A sub-board with no mark in any cell.
pub fn new_empty_subgame() -> (r: Subgame)
    ensures
        forall|i: int| 0 <= i < 9 ==> r[i] == Piece::Empty,
{
    [Piece::Empty; 9]
}

/// A game with every cell empty.
pub fn new_game() -> (r: Game)
    ensures
        forall|i: int, j: int| 0 <= i < 9 && 0 <= j < 9 ==> r[i][j] == Piece::Empty,
{
    [new_empty_subgame(); 9]
}

/// The mark of the first filled line of a sub-board (rows, then columns, then
/// diagonals), or `Empty` when no line is filled.
pub fn subgame_won(subgame: &Subgame) -> (r: Piece)
    ensures
        r == grid_winner(subgame@),
{
    let mut l: usize = 0;
    while l < 8
        invariant
            l <= 8,
            grid_winner(subgame@) == winner_from(subgame@, l as int),
        decreases 8 - l,
    {
        let (a, b, c) = line(l);
        if subgame[a] != Piece::Empty && subgame[a] == subgame[b] && subgame[a] == subgame[c] {
            return subgame[a];
        }
        l = l + 1;
    }
    Piece::Empty
}

/// Whether line `l` of `s` holds `p`.
fn line_holds(s: &Subgame, l: usize, p: Piece) -> (r: bool)
    requires
        l < 8,
    ensures
        r == line_has(s@, l as int, p),
{
    let (a, b, c) = line(l);
    s[a] == p || s[b] == p || s[c] == p
}

/// How many cells of line `l` of `s` hold `p`.
fn count_in_line(s: &Subgame, l: usize, p: Piece) -> (r: usize)
    requires
        l < 8,
    ensures
        r as int == line_count(s@, l as int, p),
{
    let (a, b, c) = line(l);
    let mut n: usize = 0;
    if s[a] == p {
        n = n + 1;
    }
    if s[b] == p {
        n = n + 1;
    }
    if s[c] == p {
        n = n + 1;
    }
    n
}

/// The tactical score of a sub-board for `me`: over the eight lines, +1 for each line
/// with two of `me` and none of the opponent, -1 for each with two of the opponent and
/// none of `me`. It is 0 when `me` is `Empty`.
pub fn subgame_score(subgame: &Subgame, me: &Piece) -> (r: isize)
    ensures
        r as int == grid_score(subgame@, *me),
        -8 <= r <= 8,
{
    if *me == Piece::Empty {
        return 0;
    }
    let them = me.other();
    let mut score: isize = 0;
    let mut l: usize = 0;
    while l < 8
        invariant
            l <= 8,
            -(l as int) <= score <= l as int,
            them == me.spec_other(),
            score as int + score_from(subgame@, l as int, *me) == score_from(subgame@, 0, *me),
        decreases 8 - l,
    {
        let mine = count_in_line(subgame, l, *me);
        let theirs = count_in_line(subgame, l, them);
        if mine == 2 && theirs == 0 {
            score = score + 1;
        }
        if mine == 0 && theirs == 2 {
            score = score - 1;
        }
        l = l + 1;
    }
    score
}

/// Whether a sub-board can no longer be won by anyone: each of its eight lines holds
/// an `X` and an `O`. This can hold before the sub-board is full.
pub fn subgame_is_draw(subgame: &Subgame) -> (r: bool)
    ensures
        r == grid_is_draw(subgame@),
{
    let mut l: usize = 0;
    while l < 8
        invariant
            l <= 8,
            forall|k: int| 0 <= k < l ==> #[trigger] line_blocked(subgame@, k),
        decreases 8 - l,
    {
        if !(line_holds(subgame, l, Piece::X) && line_holds(subgame, l, Piece::O)) {
            assert(!line_blocked(subgame@, l as int));
            return false;
        }
        l = l + 1;
    }
    true
}

/// The grid of sub-board outcomes: the winner of each sub-board.
pub fn meta_grid(game: &Game) -> (r: Subgame)
    ensures
        r@ == meta_winners(board_view(*game)),
{
    let mut r = new_empty_subgame();
    let mut i: usize = 0;
    while i < 9
        invariant
            i <= 9,
            forall|k: int| 0 <= k < i ==> r[k] == grid_winner(game@[k]@),
        decreases 9 - i,
    {
        r[i] = subgame_won(&game[i]);
        i = i + 1;
    }
    assert(r@ =~= meta_winners(board_view(*game)));
    r
}

/// The winner of the game: the mark that fills a line of the grid of sub-board
/// outcomes (the first such line), or `Empty`.
pub fn game_won(game: &Game) -> (r: Piece)
    ensures
        r == game_winner(board_view(*game)),
{
    let meta = meta_grid(game);
    subgame_won(&meta)
}

/// Whether the game is drawn: each line of the grid of sub-boards holds a drawn
/// sub-board.
pub fn game_is_draw(game: &Game) -> (r: bool)
    ensures
        r == game_drawn(board_view(*game)),
{
    let mut l: usize = 0;
    while l < 8
        invariant
            l <= 8,
            forall|k: int|
                0 <= k < l ==> {
                    let (a, b, c) = #[trigger] line_cells(k);
                    grid_is_draw(board_view(*game)[a]) || grid_is_draw(board_view(*game)[b])
                        || grid_is_draw(board_view(*game)[c])
                },
        decreases 8 - l,
    {
        let (a, b, c) = line(l);
        let da = subgame_is_draw(&game[a]);
        let db = subgame_is_draw(&game[b]);
        let dc = subgame_is_draw(&game[c]);
        if !da && !db && !dc {
            assert(line_cells(l as int) == (a as int, b as int, c as int));
            return false;
        }
        l = l + 1;
    }
    true
}

} // verus!
