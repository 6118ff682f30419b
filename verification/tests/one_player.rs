use rusther::{Board, BotPlayer, ConnectFour, ConnectFour1p, GameStatus, Player};

struct MockPlayer {
    decisions: Vec<i32>,
}

impl MockPlayer {
    fn new(decisions: Vec<i32>) -> Self {
        Self { decisions }
    }
}

impl BotPlayer for MockPlayer {
    fn choose_column(&mut self, _board: &Board<Player>, _player: Player) -> i32 {
        self.decisions.pop().unwrap()
    }
}

fn count_pieces(board: &Board<Player>) -> usize {
    board.data().iter().filter(|slot| slot.is_some()).count()
}

#[test]
fn test_player_win() {
    let player = MockPlayer::new(vec![3, 2, 1, 0]);
    let mut cf = ConnectFour1p::new(7, 6, player);
    /*
           0 1 2 3 4 5 6
        0  - - - - - - -
        1  - - - - - - -
        2  - - - - - - -
        3  - - - - - - -
        4  B B B - - - -
        5  R R R R - - -
    */
    assert!(cf.emplace(0));
    assert_eq!(Player::Red, cf.board().get(5, 0).unwrap().value);
    assert_eq!(Player::Blue, cf.board().get(4, 0).unwrap().value);
    assert_eq!(2, count_pieces(cf.board()));
    assert_eq!(&Player::Red, cf.turn());

    assert!(cf.emplace(1));
    assert_eq!(Player::Red, cf.board().get(5, 1).unwrap().value);
    assert_eq!(Player::Blue, cf.board().get(4, 1).unwrap().value);

    assert!(cf.emplace(2));
    assert_eq!(Player::Red, cf.board().get(5, 2).unwrap().value);
    assert_eq!(Player::Blue, cf.board().get(4, 2).unwrap().value);

    assert!(cf.emplace(3));
    assert_eq!(Player::Red, cf.board().get(5, 3).unwrap().value);
    assert_eq!(None, cf.board().get(4, 3));

    assert_eq!(
        GameStatus::Won {
            player: Player::Red
        },
        cf.state()
    );
    assert_eq!(Some(Player::Red), cf.get_winner());
}

#[test]
fn test_bot_win() {
    let player = MockPlayer::new(vec![3, 3, 2, 1, 0]);
    let mut cf = ConnectFour1p::new(7, 6, player);
    /*
           0 1 2 3 4 5 6
        0  - - - - - - -
        1  - - - - - - -
        2  - - - - - - -
        3  - - - - - - -
        4  B B B B R - -
        5  R R R B R - -
    */
    assert!(cf.emplace(0));
    assert_eq!(Player::Red, cf.board().get(5, 0).unwrap().value);
    assert_eq!(Player::Blue, cf.board().get(4, 0).unwrap().value);
    assert_eq!(2, count_pieces(cf.board()));
    assert_eq!(&Player::Red, cf.turn());

    assert!(cf.emplace(1));
    assert_eq!(Player::Red, cf.board().get(5, 1).unwrap().value);
    assert_eq!(Player::Blue, cf.board().get(4, 1).unwrap().value);

    assert!(cf.emplace(2));
    assert_eq!(Player::Red, cf.board().get(5, 2).unwrap().value);
    assert_eq!(Player::Blue, cf.board().get(4, 2).unwrap().value);

    assert!(cf.emplace(4));
    assert_eq!(Player::Red, cf.board().get(5, 4).unwrap().value);
    assert_eq!(Player::Blue, cf.board().get(5, 3).unwrap().value);

    assert!(cf.emplace(4));
    assert_eq!(Player::Red, cf.board().get(4, 4).unwrap().value);
    assert_eq!(Player::Blue, cf.board().get(4, 3).unwrap().value);

    assert_eq!(
        GameStatus::Won {
            player: Player::Blue
        },
        cf.state()
    );
    assert_eq!(Some(Player::Blue), cf.get_winner());
}

#[test]
fn test_player_invalid_move() {
    let player = MockPlayer::new(vec![2, 1]);
    let mut cf = ConnectFour1p::new(7, 1, player);
    /*
           0 1 2 3 4 5 6
        0  R B - - - - -
    */
    assert!(cf.emplace(0));
    assert_eq!(Player::Red, cf.board().get(0, 0).unwrap().value);
    assert_eq!(Player::Blue, cf.board().get(0, 1).unwrap().value);
    assert_eq!(2, count_pieces(cf.board()));

    assert_eq!(false, cf.emplace(0));
    assert_eq!(&Player::Red, cf.turn()); // Still red's turn
    assert_eq!(2, count_pieces(cf.board())); // Board has not changed
    assert_eq!(GameStatus::Playing, cf.state()); // Game is still active
}

#[test]
fn test_bot_invalid_move() {
    let player = MockPlayer::new(vec![0, 0]);
    let mut cf = ConnectFour1p::new(7, 1, player);
    /*
           0 1 2 3 4 5 6
        0  R - - - - - -
    */
    assert!(cf.emplace(0));
    assert_eq!(GameStatus::Closed, cf.state()); // Game entered an invalid state so is closed
    assert_eq!(None, cf.get_winner());
}
