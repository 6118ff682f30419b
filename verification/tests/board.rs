use rusther::{Board, Direction, Player, Token};

#[test]
fn new() {
    let board = Board::<()>::new(7, 6);
    assert_eq!(7, board.width());
    assert_eq!(6, board.height());
}

#[test]
fn fill() {
    let mut board = Board::<i32>::new(7, 6);
    board.fill(1);
    assert!(board.data().iter().enumerate().all(|(k, slot)| match slot {
        Some(t) => t.value == 1 && k == board.rc_to_index(t.row, t.column) as usize,
        None => false,
    }));
}

#[test]
fn get() {
    let mut board = Board::<i32>::new(1, 1);
    board.fill(1);
    assert_eq!(1, board.get(0, 0).unwrap().value);
}

#[test]
fn set() {
    let mut board = Board::<i32>::new(1, 1);
    assert!(board.get(0, 0).is_none());
    board.set(0, 0, 1);
    assert_eq!(1, board.get(0, 0).unwrap().value);
}

#[test]
fn set_chain() {
    let mut board = Board::<i32>::new(2, 1);
    board.set(0, 0, 1).set(0, 1, 2);
    assert_eq!(1, board.get(0, 0).unwrap().value);
    assert_eq!(2, board.get(0, 1).unwrap().value);
}

#[test]
fn board_index_from_rc_middle() {
    let stride = 3;
    let board = Board::<()>::new(stride, stride);
    /*
           0 1 2
        0  - - -
        1  - X -
        2  - - -
    */
    assert_eq!(4, board.rc_to_index(1, 1));
}

#[test]
fn board_test_get_neighbor_middle() {
    let stride = 3;
    let mut board = Board::<()>::new(stride, stride);
    board.fill(());
    /*
           0 1 2
        0  - - -
        1  - X -
        2  - - -
    */
    assert_eq!(
        Some(&Token::new(0, 1, ())),
        board.get_neighbor(1, 1, Direction::North)
    );
    assert_eq!(
        Some(&Token::new(0, 2, ())),
        board.get_neighbor(1, 1, Direction::NorthEast)
    );
    assert_eq!(
        Some(&Token::new(1, 2, ())),
        board.get_neighbor(1, 1, Direction::East)
    );
    assert_eq!(
        Some(&Token::new(2, 2, ())),
        board.get_neighbor(1, 1, Direction::SouthEast)
    );
    assert_eq!(
        Some(&Token::new(2, 1, ())),
        board.get_neighbor(1, 1, Direction::South)
    );
    assert_eq!(
        Some(&Token::new(2, 0, ())),
        board.get_neighbor(1, 1, Direction::SouthWest)
    );
    assert_eq!(
        Some(&Token::new(1, 0, ())),
        board.get_neighbor(1, 1, Direction::West)
    );
    assert_eq!(
        Some(&Token::new(0, 0, ())),
        board.get_neighbor(1, 1, Direction::NorthWest)
    );
}

#[test]
fn board_test_get_neighbor_top_left() {
    let stride = 3;
    let mut board = Board::<()>::new(stride, stride);
    board.fill(());
    /*
           0 1 2
        0  X - -
        1  - - -
        2  - - -
    */
    assert_eq!(None, board.get_neighbor(0, 0, Direction::North));
    assert_eq!(None, board.get_neighbor(0, 0, Direction::NorthEast));
    assert_eq!(
        Some(&Token::new(0, 1, ())),
        board.get_neighbor(0, 0, Direction::East)
    );
    assert_eq!(
        Some(&Token::new(1, 1, ())),
        board.get_neighbor(0, 0, Direction::SouthEast)
    );
    assert_eq!(
        Some(&Token::new(1, 0, ())),
        board.get_neighbor(0, 0, Direction::South)
    );
    assert_eq!(None, board.get_neighbor(0, 0, Direction::SouthWest));
    assert_eq!(None, board.get_neighbor(0, 0, Direction::West));
    assert_eq!(None, board.get_neighbor(0, 0, Direction::NorthWest));
}

#[test]
fn test_count_in_direction() {
    let mut board = Board::new(5, 5);

    board
        .set(2, 1, Player::Red)
        .set(3, 1, Player::Red)
        .set(0, 2, Player::Red)
        .set(1, 2, Player::Red)
        .set(2, 2, Player::Red)
        .set(3, 2, Player::Red)
        .set(1, 3, Player::Red)
        .set(2, 3, Player::Blue)
        .set(3, 3, Player::Blue)
        .set(0, 4, Player::Red)
        .set(2, 4, Player::Red);

    /*
           0 1 2 3 4
        0  - - R - R
        1  - - R R -
        2  - R R B R  <-- Test focuses on the center R at (2,2)
        3  - R R B -
        4  - - - - -  <-- and at the bottom left (4,0)
    */
    assert_eq!(3, board.count_in_direction(2, 2, Direction::North));
    assert_eq!(3, board.count_in_direction(2, 2, Direction::NorthEast));
    assert_eq!(1, board.count_in_direction(2, 2, Direction::East));
    assert_eq!(1, board.count_in_direction(2, 2, Direction::SouthEast));
    assert_eq!(2, board.count_in_direction(2, 2, Direction::South));
    assert_eq!(2, board.count_in_direction(2, 2, Direction::SouthWest));
    assert_eq!(2, board.count_in_direction(2, 2, Direction::West));
    assert_eq!(1, board.count_in_direction(2, 2, Direction::NorthWest));

    // At the empty bottom-left, facing top-right
    assert_eq!(0, board.count_in_direction(4, 0, Direction::NorthEast));
}

#[test]
fn test_count_in_bidirection() {
    let mut board = Board::new(5, 5);

    board
        .set(2, 1, Player::Red)
        .set(3, 1, Player::Red)
        .set(0, 2, Player::Red)
        .set(1, 2, Player::Red)
        .set(2, 2, Player::Red)
        .set(3, 2, Player::Red)
        .set(1, 3, Player::Red)
        .set(2, 3, Player::Blue)
        .set(3, 3, Player::Blue)
        .set(0, 4, Player::Red)
        .set(2, 4, Player::Red);

    /*
           0 1 2 3 4
        0  - - R - R
        1  - - R R -
        2  - R R B R  <-- Test focuses on the center R at (2,2)
        3  - R R B -
        4  - - - - -  <-- and at the bottom left (4,0)
    */
    assert_eq!(4, board.count_in_bidirection(2, 2, Direction::North));
    assert_eq!(4, board.count_in_bidirection(2, 2, Direction::NorthEast));
    assert_eq!(2, board.count_in_bidirection(2, 2, Direction::East));
    assert_eq!(1, board.count_in_bidirection(2, 2, Direction::SouthEast));
    assert_eq!(4, board.count_in_bidirection(2, 2, Direction::South));
    assert_eq!(4, board.count_in_bidirection(2, 2, Direction::SouthWest));
    assert_eq!(2, board.count_in_bidirection(2, 2, Direction::West));
    assert_eq!(1, board.count_in_bidirection(2, 2, Direction::NorthWest));

    // At the empty bottom-left, facing top-right
    assert_eq!(0, board.count_in_direction(4, 0, Direction::NorthEast));
}
