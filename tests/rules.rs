use ultimate_tictactoe::board::{
    game_is_draw, game_won, new_empty_subgame, new_game, subgame_is_draw, subgame_score,
    subgame_won, Subgame,
};
use ultimate_tictactoe::game::{GameState, MoveError};
use ultimate_tictactoe::piece::Piece;

fn sub_from(rows: [&str; 3]) -> Subgame {
    // rows[y] lists the cells of row y from column 0 to 2
    let mut s = new_empty_subgame();
    for y in 0..3 {
        for (x, ch) in rows[y].chars().enumerate() {
            s[3 * x + y] = match ch {
                'x' => Piece::X,
                'o' => Piece::O,
                _ => Piece::Empty,
            };
        }
    }
    s
}

#[test]
fn other_swaps_marks() {
    assert_eq!(Piece::X.other(), Piece::O);
    assert_eq!(Piece::O.other(), Piece::X);
    assert_eq!(Piece::Empty.other(), Piece::Empty);
}

#[test]
fn piece_bytes() {
    assert_eq!(Piece::Empty.as_u8(), 0);
    assert_eq!(Piece::X.as_u8(), 1);
    assert_eq!(Piece::O.as_u8(), 2);
    assert_eq!(Piece::from_u8(1), Some(Piece::X));
    assert_eq!(Piece::from_u8(2), Some(Piece::O));
    assert_eq!(Piece::from_u8(0), Some(Piece::Empty));
    assert_eq!(Piece::from_u8(3), None);
}

#[test]
fn subgame_winner_lines() {
    assert_eq!(subgame_won(&new_empty_subgame()), Piece::Empty);
    assert_eq!(subgame_won(&sub_from(["xxx", "o.o", "..."])), Piece::X);
    assert_eq!(subgame_won(&sub_from(["x.o", "x.o", "..o"])), Piece::O);
    assert_eq!(subgame_won(&sub_from(["x.o", ".xo", "o.x"])), Piece::X);
    assert_eq!(subgame_won(&sub_from(["x.o", ".ox", "o.x"])), Piece::O);
    assert_eq!(subgame_won(&sub_from(["xx.", "oo.", "..."])), Piece::Empty);
}

#[test]
fn subgame_score_two_in_a_row() {
    // X, X and an open cell along the top row, nothing else
    let s = sub_from(["xx.", "...", "..."]);
    assert_eq!(subgame_score(&s, &Piece::X), 1);
    assert_eq!(subgame_score(&s, &Piece::O), -1);
    assert_eq!(subgame_score(&s, &Piece::Empty), 0);
}

#[test]
fn subgame_score_blocked_and_mixed() {
    // top row blocked by O; X threatens the left column and the diagonal
    let s = sub_from(["xxo", "x..", "..."]);
    assert_eq!(subgame_score(&s, &Piece::X), 1);
    let t = sub_from(["x.o", "x.o", "..."]);
    assert_eq!(subgame_score(&t, &Piece::X), 0);
    assert_eq!(subgame_score(&t, &Piece::O), 0);
}

#[test]
fn full_unwon_subgame_is_draw() {
    let s = sub_from(["xox", "xoo", "oxx"]);
    assert_eq!(subgame_won(&s), Piece::Empty);
    assert!(subgame_is_draw(&s));
}

#[test]
fn draw_detected_before_full() {
    // every line holds both marks although one cell is open
    let s = sub_from(["xox", "xoo", "ox."]);
    assert_eq!(subgame_won(&s), Piece::Empty);
    assert!(subgame_is_draw(&s));
    assert!(!subgame_is_draw(&new_empty_subgame()));
    assert!(!subgame_is_draw(&sub_from(["xo.", "ox.", "..."])));
}

#[test]
fn game_winner_from_meta_board() {
    let mut g = new_game();
    let won_x = sub_from(["xxx", "...", "..."]);
    g[0] = won_x;
    g[4] = won_x;
    assert_eq!(game_won(&g), Piece::Empty);
    g[8] = won_x;
    assert_eq!(game_won(&g), Piece::X);
}

#[test]
fn game_draw_needs_a_drawn_board_in_each_line() {
    let drawn = sub_from(["xox", "xoo", "oxx"]);
    let mut g = new_game();
    assert!(!game_is_draw(&g));
    // the middle column and middle row of sub-boards meet every line
    for i in [1, 3, 4, 5, 7] {
        g[i] = drawn;
    }
    assert!(game_is_draw(&g));
    g[4] = new_empty_subgame();
    assert!(!game_is_draw(&g));
}

#[test]
fn new_state_is_empty() {
    let st = GameState::new();
    assert_eq!(st.turn, Piece::X);
    assert_eq!(st.active, None);
    assert_eq!(st.game, new_game());
    assert!(!st.is_complete());
    assert!(!st.is_draw());
    assert_eq!(st.won(), Piece::Empty);
}

#[test]
fn accepted_move_routes_and_alternates() {
    let mut st = GameState::new();
    assert!(st.apply_move(1, 1, 2, 0));
    assert_eq!(st.game[4][6], Piece::X);
    assert_eq!(st.active, Some((2, 0)));
    assert_eq!(st.turn, Piece::O);
    assert!(st.manual_turn(7, 2));
    assert_eq!(st.game[6][5], Piece::O);
    assert_eq!(st.active, Some((1, 2)));
    assert_eq!(st.turn, Piece::X);
}

#[test]
fn move_into_decided_board_frees_choice() {
    let mut st = GameState::new();
    st.game[2] = sub_from(["ooo", "...", "..."]);
    st.turn = Piece::X;
    // cell (0, 2) points at the sub-board in column 0, row 2, which O has won
    assert!(st.apply_move(1, 1, 0, 2));
    assert_eq!(st.active, None);
}

#[test]
fn empty_turn_plays_x() {
    let mut st = GameState::new();
    st.turn = Piece::Empty;
    assert!(st.apply_move(0, 0, 1, 1));
    assert_eq!(st.game[0][4], Piece::X);
    assert_eq!(st.turn, Piece::O);
}

#[test]
fn illegal_moves_change_nothing() {
    let mut st = GameState::new();
    st.game[0] = sub_from(["xxx", "o.o", "..."]);
    st.game[1] = sub_from(["xox", "xoo", "oxx"]);
    st.game[4][4] = Piece::O;
    st.turn = Piece::Empty;
    let before = st;

    assert_eq!(st.check_move(3, 0, 0, 0), Err(MoveError::OutOfBounds));
    assert!(!st.apply_move(3, 0, 0, 0));
    assert!(!st.manual_turn(9, 0));
    assert_eq!(st, before);

    assert_eq!(st.check_move(0, 0, 2, 2), Err(MoveError::AlreadyWon));
    assert!(!st.apply_move(0, 0, 2, 2));
    assert!(!st.apply_move(0, 0, 2, 2));
    assert_eq!(st, before);

    assert_eq!(st.check_move(0, 1, 0, 0), Err(MoveError::AlreadyDrawn));
    assert!(!st.apply_move(0, 1, 0, 0));
    assert_eq!(st, before);

    assert_eq!(st.check_move(1, 1, 1, 1), Err(MoveError::Occupied));
    assert!(!st.apply_move(1, 1, 1, 1));
    assert_eq!(st, before);

    st.active = Some((2, 2));
    let before = st;
    assert_eq!(st.check_move(1, 1, 0, 0), Err(MoveError::NotActive));
    assert!(!st.apply_move(1, 1, 0, 0));
    assert_eq!(st, before);
    assert_eq!(st.check_move(2, 2, 0, 0), Ok(()));
}

#[test]
fn turn_step_reports_refusals() {
    let mut st = GameState::new();
    assert_eq!(st.turn(None), Err(MoveError::OutOfBounds));
    assert_eq!(st.turn(Some((9, 3))), Err(MoveError::OutOfBounds));
    assert_eq!(st.turn(Some((4, 4))), Ok((4, 4)));
    assert_eq!(st.active, Some((1, 1)));
    assert_eq!(st.turn(Some((0, 0))), Err(MoveError::NotActive));
    assert_eq!(st.turn(Some((4, 4))), Err(MoveError::Occupied));
    assert_eq!(st.turn(Some((3, 3))), Ok((3, 3)));
    assert_eq!(st.turn, Piece::X);
    assert_eq!(st.active, Some((0, 0)));
}

#[test]
fn nine_moves_win_top_left_board() {
    let mut st = GameState::new();
    let moves = [(1, 0), (3, 0), (0, 0), (1, 1), (5, 5), (7, 7), (3, 5), (0, 6), (2, 0)];
    for (n, &(x, y)) in moves.iter().enumerate() {
        if n == 8 {
            assert_eq!(st.active, Some((0, 0)));
        }
        assert!(st.manual_turn(x, y), "move {} refused", n);
    }
    assert_eq!(subgame_won(&st.game[0]), Piece::X);
    assert_eq!(st.active, Some((2, 0)));
    assert_eq!(st.turn, Piece::O);
    let mut free = st;
    free.active = None;
    for x0 in 0..3 {
        for y0 in 0..3 {
            assert_eq!(free.check_move(0, 0, x0, y0), Err(MoveError::AlreadyWon));
        }
    }
    let bests = ultimate_tictactoe::search::Minimax::best_moves(&GameState {
        active: Some((0, 0)),
        ..st
    });
    assert!(bests.is_empty());
}

#[test]
fn game_completion_stops_turns() {
    let won_x = sub_from(["xxx", "...", "..."]);
    let mut st = GameState::new();
    st.game[0] = won_x;
    st.game[4] = won_x;
    st.game[8] = sub_from(["xx.", "oo.", "..."]);
    st.turn = Piece::X;
    st.active = Some((2, 2));
    assert!(st.apply_move(2, 2, 2, 0));
    assert_eq!(st.won(), Piece::X);
    assert!(st.is_complete());
    assert_eq!(st.turn, Piece::X);
    assert_eq!(st.active, Some((2, 0)));
}

#[test]
fn complete_by_draw() {
    let drawn = sub_from(["xox", "xoo", "oxx"]);
    let mut st = GameState::new();
    for i in [1, 3, 5, 7] {
        st.game[i] = drawn;
    }
    st.game[4] = sub_from(["xox", "xo.", "ox."]);
    st.turn = Piece::O;
    st.active = Some((1, 1));
    assert!(!st.is_complete());
    assert!(st.apply_move(1, 1, 2, 1));
    assert_eq!(st.active, None);
    assert!(st.is_draw());
    assert!(st.is_complete());
    assert_eq!(st.won(), Piece::Empty);
    assert_eq!(st.turn, Piece::O);
}
