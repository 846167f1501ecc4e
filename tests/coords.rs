use ultimate_tictactoe::coords::{move_max, move_min, pos_as_string, string_as_pos};

#[test]
fn parse_positions() {
    assert_eq!(string_as_pos("a1"), Some((0, 0)));
    assert_eq!(string_as_pos("e5"), Some((4, 4)));
    assert_eq!(string_as_pos("I9"), Some((8, 8)));
    assert_eq!(string_as_pos("C7"), Some((2, 6)));
}

#[test]
fn reject_bad_positions() {
    assert_eq!(string_as_pos(""), None);
    assert_eq!(string_as_pos("a"), None);
    assert_eq!(string_as_pos("a10"), None);
    assert_eq!(string_as_pos("j1"), None);
    assert_eq!(string_as_pos("a0"), None);
    assert_eq!(string_as_pos("ax"), None);
    assert_eq!(string_as_pos("1a"), None);
}

#[test]
fn write_positions() {
    assert_eq!(pos_as_string(&(0, 0)), "a1");
    assert_eq!(pos_as_string(&(8, 8)), "i9");
    assert_eq!(pos_as_string(&(3, 6)), "d7");
    for x in 0..9 {
        for y in 0..9 {
            assert_eq!(string_as_pos(&pos_as_string(&(x, y))), Some((x, y)));
        }
    }
}

#[test]
fn move_area_bounds() {
    assert_eq!(move_min(&None), (0, 0));
    assert_eq!(move_max(&None), (8, 8));
    assert_eq!(move_min(&Some((1, 2))), (3, 6));
    assert_eq!(move_max(&Some((1, 2))), (5, 8));
}
