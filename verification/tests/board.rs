use game_of_life::board::Board;
use game_of_life::coords::Coords;
use game_of_life::error::BoardError;

fn cells_of(board: &Board) -> Vec<bool> {
    board.iter_cells().into_iter().map(|(_, alive)| alive).collect()
}

#[test]
fn from_index_splits_into_column_and_row() {
    assert_eq!(Coords::from_index(0, 5), Coords(0, 0));
    assert_eq!(Coords::from_index(4, 5), Coords(4, 0));
    assert_eq!(Coords::from_index(5, 5), Coords(0, 1));
    assert_eq!(Coords::from_index(13, 5), Coords(3, 2));
    assert_eq!(Coords::from_index(7, 1), Coords(0, 7));
}

#[test]
fn as_index_joins_column_and_row() {
    assert_eq!(Coords(0, 0).as_index(5), 0);
    assert_eq!(Coords(3, 2).as_index(5), 13);
    assert_eq!(Coords(4, 3).as_index(5), 19);
    assert_eq!(Coords(2, 3).as_index(0), 2);
}

#[test]
fn index_and_coords_round_trip() {
    for width in 1..7usize {
        for index in 0..50usize {
            let coords = Coords::from_index(index, width);
            assert!(coords.0 < width);
            assert_eq!(coords.as_index(width), index);
        }
        for y in 0..6usize {
            for x in 0..width {
                assert_eq!(Coords::from_index(Coords(x, y).as_index(width), width), Coords(x, y));
            }
        }
    }
}

#[test]
fn new_board_is_all_dead() {
    for width in 1..6usize {
        for height in 1..6usize {
            let board = Board::new(width, height).unwrap();
            assert_eq!(board.width(), width);
            assert_eq!(board.height(), height);
            for y in 0..height {
                for x in 0..width {
                    assert_eq!(board.get(Coords(x, y)), Ok(false));
                }
            }
            assert_eq!(board.iter_cells().len(), width * height);
        }
    }
}

#[test]
fn new_refuses_zero_dimensions() {
    assert!(matches!(Board::new(0, 4), Err(BoardError::ZeroDimension)));
    assert!(matches!(Board::new(4, 0), Err(BoardError::ZeroDimension)));
    assert!(matches!(Board::new(0, 0), Err(BoardError::ZeroDimension)));
}

#[test]
fn from_vec_round_trips_in_row_major_order() {
    let values = vec![true, false, false, true, true, false];
    let board = Board::from_vec(3, 2, values.clone()).unwrap();
    assert_eq!(board.width(), 3);
    assert_eq!(board.height(), 2);
    assert_eq!(cells_of(&board), values);
    assert_eq!(
        board.iter_cells(),
        vec![
            (Coords(0, 0), true),
            (Coords(1, 0), false),
            (Coords(2, 0), false),
            (Coords(0, 1), true),
            (Coords(1, 1), true),
            (Coords(2, 1), false),
        ]
    );
    assert_eq!(board.iter_cells(), board.iter_cells());
}

#[test]
fn from_vec_agrees_with_get() {
    let values = vec![false, true, false, false, false, true];
    let board = Board::from_vec(2, 3, values.clone()).unwrap();
    for y in 0..3usize {
        for x in 0..2usize {
            assert_eq!(board.get(Coords(x, y)), Ok(values[x + y * 2]));
        }
    }
}

#[test]
fn from_vec_refuses_wrong_length() {
    assert!(matches!(
        Board::from_vec(3, 2, vec![false; 5]),
        Err(BoardError::LengthMismatch)
    ));
    assert!(matches!(
        Board::from_vec(3, 2, vec![false; 7]),
        Err(BoardError::LengthMismatch)
    ));
    assert!(matches!(
        Board::from_vec(3, 2, Vec::new()),
        Err(BoardError::LengthMismatch)
    ));
    assert!(matches!(
        Board::from_vec(usize::MAX, 2, vec![false; 4]),
        Err(BoardError::LengthMismatch)
    ));
}

#[test]
fn from_vec_reports_wrong_length_before_zero_dimensions() {
    assert!(matches!(
        Board::from_vec(0, 2, vec![true]),
        Err(BoardError::LengthMismatch)
    ));
    assert!(matches!(
        Board::from_vec(2, 0, vec![false; 2]),
        Err(BoardError::LengthMismatch)
    ));
    assert!(matches!(
        Board::from_vec(0, 0, vec![false]),
        Err(BoardError::LengthMismatch)
    ));
}

#[test]
fn from_vec_refuses_zero_dimensions() {
    assert!(matches!(
        Board::from_vec(0, 2, Vec::new()),
        Err(BoardError::ZeroDimension)
    ));
    assert!(matches!(
        Board::from_vec(2, 0, Vec::new()),
        Err(BoardError::ZeroDimension)
    ));
    assert!(matches!(
        Board::from_vec(0, 0, Vec::new()),
        Err(BoardError::ZeroDimension)
    ));
}

#[test]
fn get_refuses_coordinates_outside_the_board() {
    let board = Board::new(3, 2).unwrap();
    assert_eq!(board.get(Coords(2, 1)), Ok(false));
    assert_eq!(board.get(Coords(3, 0)), Err(BoardError::OutOfRange));
    assert_eq!(board.get(Coords(0, 2)), Err(BoardError::OutOfRange));
    assert_eq!(board.get(Coords(3, 2)), Err(BoardError::OutOfRange));
    assert_eq!(board.get(Coords(usize::MAX, usize::MAX)), Err(BoardError::OutOfRange));
}

#[test]
fn set_changes_exactly_one_cell() {
    let mut board = Board::new(4, 3).unwrap();
    assert_eq!(board.set(Coords(2, 1), true), Ok(()));
    let mut expected = vec![false; 12];
    expected[6] = true;
    assert_eq!(cells_of(&board), expected);
    assert_eq!(board.get(Coords(2, 1)), Ok(true));
    assert_eq!(board.set(Coords(2, 1), false), Ok(()));
    assert_eq!(cells_of(&board), vec![false; 12]);
}

#[test]
fn set_refuses_coordinates_outside_the_board() {
    let mut board = Board::from_vec(2, 2, vec![true, false, false, true]).unwrap();
    assert_eq!(board.set(Coords(2, 0), true), Err(BoardError::OutOfRange));
    assert_eq!(board.set(Coords(0, 2), true), Err(BoardError::OutOfRange));
    assert_eq!(cells_of(&board), vec![true, false, false, true]);
}

#[test]
fn neighbors_of_an_interior_cell_come_in_fixed_order() {
    // Rows from y = 0 to y = 2; the cell in the middle is (1, 1).
    let values = vec![
        true, false, true, //
        false, true, true, //
        false, true, false,
    ];
    let board = Board::from_vec(3, 3, values).unwrap();
    // On a 3 by 3 board the middle cell is the only one off the border.
    assert_eq!(
        board.neighbors(Coords(1, 1)),
        [false, true, false, false, true, true, false, true]
    );
}

#[test]
fn neighbors_on_a_larger_board() {
    let mut board = Board::new(5, 5).unwrap();
    board.set(Coords(1, 3), true).unwrap();
    board.set(Coords(3, 2), true).unwrap();
    board.set(Coords(2, 1), true).unwrap();
    assert_eq!(
        board.neighbors(Coords(2, 2)),
        [true, false, false, false, true, false, true, false]
    );
}

#[test]
fn neighbors_on_the_border_are_all_dead() {
    let board = Board::from_vec(4, 4, vec![true; 16]).unwrap();
    for y in 0..4usize {
        for x in 0..4usize {
            let around = board.neighbors(Coords(x, y));
            if x == 0 || y == 0 || x == 3 || y == 3 {
                assert_eq!(around, [false; 8]);
            } else {
                assert_eq!(around, [true; 8]);
            }
        }
    }
}

#[test]
fn neighbors_on_narrow_boards_are_all_dead() {
    let single = Board::from_vec(1, 1, vec![true]).unwrap();
    assert_eq!(single.neighbors(Coords(0, 0)), [false; 8]);
    let pair = Board::from_vec(2, 2, vec![true; 4]).unwrap();
    for y in 0..2usize {
        for x in 0..2usize {
            assert_eq!(pair.neighbors(Coords(x, y)), [false; 8]);
        }
    }
}

#[test]
fn iter_cells_mut_visits_every_cell_with_its_coordinates() {
    let mut board = Board::from_vec(3, 2, vec![true, false, true, false, true, false]).unwrap();
    board.iter_cells_mut(|coords: Coords, alive: bool| alive != (coords.0 == coords.1));
    // (0,0) and (1,1) are flipped, the others stay.
    assert_eq!(cells_of(&board), vec![false, false, true, false, false, false]);
    assert_eq!(board.width(), 3);
    assert_eq!(board.height(), 2);
}

#[test]
fn clone_keeps_dimensions_and_cells() {
    let mut board = Board::from_vec(2, 3, vec![true, false, false, true, true, true]).unwrap();
    let copy = board.clone();
    board.set(Coords(0, 0), false).unwrap();
    assert_eq!(copy.width(), 2);
    assert_eq!(copy.height(), 3);
    assert_eq!(cells_of(&copy), vec![true, false, false, true, true, true]);
    assert_eq!(cells_of(&board), vec![false, false, false, true, true, true]);
}
