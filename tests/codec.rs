use ultimate_tictactoe::codec::DecodeError;
use ultimate_tictactoe::game::GameState;
use ultimate_tictactoe::piece::Piece;

fn sample() -> GameState {
    let mut st = GameState::new();
    assert!(st.manual_turn(4, 4));
    assert!(st.manual_turn(3, 5));
    assert!(st.manual_turn(1, 7));
    st
}

#[test]
fn encode_layout() {
    let st = sample();
    let bytes = st.update_to_bytes();
    assert_eq!(bytes.len(), 3 + 1 + 81);
    assert_eq!(&bytes[0..4], &[2, 1, 1, 2]);
    // sub-board (1, 1) holds X at cell (1, 1) and O at cell (0, 2)
    assert_eq!(bytes[4 + 9 * 4 + 4], 1);
    assert_eq!(bytes[4 + 9 * 4 + 2], 2);
    // sub-board (0, 2) holds X at cell (1, 1)
    assert_eq!(bytes[4 + 9 * 2 + 4], 1);
    let total: u32 = bytes[4..].iter().map(|b| *b as u32).sum();
    assert_eq!(total, 4);

    let fresh = GameState::new().update_to_bytes();
    assert_eq!(fresh.len(), 83);
    assert_eq!(&fresh[0..2], &[0, 1]);
    assert!(fresh[2..].iter().all(|b| *b == 0));
}

#[test]
fn round_trip() {
    let st = sample();
    let bytes = st.update_to_bytes();
    let mut other = GameState::new();
    assert_eq!(other.update_from_bytes(&bytes), Ok(()));
    assert_eq!(other, st);

    let mut free = GameState::new();
    free.game[2][7] = Piece::O;
    free.turn = Piece::Empty;
    let bytes = free.update_to_bytes();
    let mut back = sample();
    assert_eq!(back.update_from_bytes(&bytes), Ok(()));
    assert_eq!(back, free);
}

#[test]
fn truncated_snapshot_fails() {
    // flag 0, turn, and only 80 of the 81 cells
    let mut bytes = vec![0u8, 1];
    bytes.extend(std::iter::repeat(0u8).take(80));
    assert_eq!(bytes.len(), 82);
    let mut st = sample();
    let before = st;
    assert_eq!(st.update_from_bytes(&bytes), Err(DecodeError::Truncated));
    assert_eq!(st, before);
    assert_eq!(st.update_from_bytes(&[]), Err(DecodeError::Truncated));
    assert_eq!(st.update_from_bytes(&[2, 0]), Err(DecodeError::Truncated));
    assert_eq!(st, before);
}

#[test]
fn eighty_five_of_eighty_six_bytes_fail() {
    // flag 2 with its two coordinates, turn, then 80 of the 81 cells
    let mut bytes = vec![2u8, 0, 1, 1];
    bytes.extend(std::iter::repeat(0u8).take(80));
    assert_eq!(bytes.len(), 84);
    let mut st = GameState::new();
    assert_eq!(st.update_from_bytes(&bytes), Err(DecodeError::Truncated));
    bytes.push(0);
    assert_eq!(st.update_from_bytes(&bytes), Ok(()));
    assert_eq!(st.active, Some((0, 1)));
}

#[test]
fn bad_bytes_fail() {
    let mut bytes = vec![0u8, 3];
    bytes.extend(std::iter::repeat(0u8).take(81));
    let mut st = GameState::new();
    assert_eq!(st.update_from_bytes(&bytes), Err(DecodeError::InvalidPiece));
    bytes[1] = 2;
    bytes[50] = 7;
    assert_eq!(st.update_from_bytes(&bytes), Err(DecodeError::InvalidPiece));
    assert_eq!(st, GameState::new());

    let mut active = vec![2u8, 3, 0, 1];
    active.extend(std::iter::repeat(0u8).take(81));
    assert_eq!(st.update_from_bytes(&active), Err(DecodeError::InvalidActive));
}
