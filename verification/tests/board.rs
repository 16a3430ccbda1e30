use mehen::{CenterPiece, GameState, Player, SquareData, StartPiece};

fn play(game: &mut GameState, roll: u8, piece: usize) {
    game.roll_dice(roll);
    assert!(game.make_move(piece));
}

fn skip(game: &mut GameState) {
    game.roll_dice(1);
    game.pass_turn();
}

fn blank() -> SquareData {
    SquareData { square_type: 0, is_valid_move: false, is_center: false }
}

#[test]
fn fresh_board_is_empty() {
    let game = GameState::new();
    assert_eq!(game.get_board(), vec![0u8; 36]);
    assert_eq!(game.get_square_data(), vec![blank(); 36]);
    assert!(game.get_center_pieces().is_empty());
}

#[test]
fn board_shows_each_side_on_its_squares() {
    let mut game = GameState::new();
    play(&mut game, 1, 0);
    play(&mut game, 4, 2);
    play(&mut game, 6, 3);
    play(&mut game, 5, 5);
    let mut expected = vec![0u8; 36];
    expected[0] = 1;
    expected[5] = 1;
    expected[3] = 2;
    expected[4] = 2;
    assert_eq!(game.get_board(), expected);
}

#[test]
fn center_shows_on_the_last_square() {
    let mut game = GameState::new();
    for _ in 0..6 {
        play(&mut game, 6, 1);
        skip(&mut game);
    }
    let mut expected = vec![0u8; 36];
    expected[35] = 1;
    assert_eq!(game.get_board(), expected);
    let squares = game.get_square_data();
    assert_eq!(squares.len(), 36);
    assert_eq!(squares[35], SquareData { square_type: 1, is_valid_move: false, is_center: true });
    assert_eq!(squares[34], blank());
    game.roll_dice(2);
    let squares = game.get_square_data();
    assert_eq!(squares[35], SquareData { square_type: 1, is_valid_move: false, is_center: true });
}

#[test]
fn dark_shows_over_light_at_the_center() {
    let mut game = GameState::new();
    for _ in 0..6 {
        play(&mut game, 6, 0);
        play(&mut game, 5, 0);
    }
    play(&mut game, 1, 1);
    play(&mut game, 6, 0);
    assert_eq!(game.get_pieces().light, vec![36, 1, 0, 0, 0, 0]);
    assert_eq!(game.get_pieces().dark, vec![36, 0, 0, 0, 0, 0]);
    let board = game.get_board();
    assert_eq!(board[35], 2);
    assert_eq!(board[0], 1);
    assert_eq!(
        game.get_center_pieces(),
        vec![
            CenterPiece { player: Player::Light, index: 0 },
            CenterPiece { player: Player::Dark, index: 0 },
        ]
    );
}

#[test]
fn squares_tell_which_pieces_can_move() {
    let mut game = GameState::new();
    play(&mut game, 2, 0);
    play(&mut game, 3, 0);
    play(&mut game, 5, 1);
    play(&mut game, 6, 1);
    assert_eq!(game.get_pieces().light, vec![2, 5, 0, 0, 0, 0]);
    assert_eq!(game.get_pieces().dark, vec![3, 6, 0, 0, 0, 0]);
    game.roll_dice(3);
    assert_eq!(game.get_valid_moves(), vec![1, 2, 3, 4, 5]);
    let squares = game.get_square_data();
    let mut expected = vec![blank(); 36];
    expected[1] = SquareData { square_type: 1, is_valid_move: false, is_center: false };
    expected[4] = SquareData { square_type: 1, is_valid_move: true, is_center: false };
    expected[2] = SquareData { square_type: 2, is_valid_move: false, is_center: false };
    expected[5] = SquareData { square_type: 2, is_valid_move: false, is_center: false };
    assert_eq!(squares, expected);
}

#[test]
fn squares_without_a_roll_offer_no_move() {
    let mut game = GameState::new();
    play(&mut game, 2, 0);
    skip(&mut game);
    let squares = game.get_square_data();
    assert_eq!(squares[1], SquareData { square_type: 1, is_valid_move: false, is_center: false });
    for (index, square) in squares.iter().enumerate() {
        if index != 1 {
            assert_eq!(*square, blank());
        }
    }
}

#[test]
fn start_pieces_of_the_player_to_move() {
    let mut game = GameState::new();
    assert_eq!(
        game.get_start_pieces(),
        vec![
            StartPiece { index: 0, is_valid_move: false },
            StartPiece { index: 1, is_valid_move: false },
            StartPiece { index: 2, is_valid_move: false },
            StartPiece { index: 3, is_valid_move: false },
            StartPiece { index: 4, is_valid_move: false },
            StartPiece { index: 5, is_valid_move: false },
        ]
    );
    play(&mut game, 4, 2);
    play(&mut game, 1, 0);
    game.roll_dice(4);
    assert_eq!(
        game.get_start_pieces(),
        vec![
            StartPiece { index: 0, is_valid_move: false },
            StartPiece { index: 1, is_valid_move: false },
            StartPiece { index: 3, is_valid_move: false },
            StartPiece { index: 4, is_valid_move: false },
            StartPiece { index: 5, is_valid_move: false },
        ]
    );
    game.roll_dice(5);
    assert_eq!(
        game.get_start_pieces(),
        vec![
            StartPiece { index: 0, is_valid_move: true },
            StartPiece { index: 1, is_valid_move: true },
            StartPiece { index: 3, is_valid_move: true },
            StartPiece { index: 4, is_valid_move: true },
            StartPiece { index: 5, is_valid_move: true },
        ]
    );
    game.pass_turn();
    game.roll_dice(2);
    assert_eq!(
        game.get_start_pieces(),
        vec![
            StartPiece { index: 1, is_valid_move: true },
            StartPiece { index: 2, is_valid_move: true },
            StartPiece { index: 3, is_valid_move: true },
            StartPiece { index: 4, is_valid_move: true },
            StartPiece { index: 5, is_valid_move: true },
        ]
    );
}

#[test]
fn center_pieces_list_light_then_dark() {
    let mut game = GameState::new();
    for turn in 0..12usize {
        play(&mut game, 6, 4 - 3 * (turn / 6));
        skip(&mut game);
    }
    for turn in 0..12usize {
        skip(&mut game);
        play(&mut game, 6, 3 + 2 * (turn / 6));
    }
    assert_eq!(game.get_pieces().light, vec![0, 36, 0, 0, 36, 0]);
    assert_eq!(game.get_pieces().dark, vec![0, 0, 0, 36, 0, 36]);
    assert_eq!(
        game.get_center_pieces(),
        vec![
            CenterPiece { player: Player::Light, index: 1 },
            CenterPiece { player: Player::Light, index: 4 },
            CenterPiece { player: Player::Dark, index: 3 },
            CenterPiece { player: Player::Dark, index: 5 },
        ]
    );
}
