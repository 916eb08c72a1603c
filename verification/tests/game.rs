use tictactoe_sync::game::{GameState, MoveError, TileState, WinCondition};

#[test]
fn test_new_game() {
    let game = GameState::new();
    assert_eq!(game.win_condition, WinCondition::NoWin);
    for row in 0..3 {
        for col in 0..3 {
            assert_eq!(game.tiles[row][col], TileState::Empty);
        }
    }
}

#[test]
fn test_make_move() {
    let mut game = GameState::new();
    assert!(game.make_move(0, 0, TileState::X).is_ok());
    assert_eq!(game.tiles[0][0], TileState::X);
    assert!(game.make_move(0, 0, TileState::O).is_err());
}

#[test]
fn test_win_condition() {
    let mut game = GameState::new();
    game.make_move(0, 0, TileState::X).unwrap();
    game.make_move(0, 1, TileState::X).unwrap();
    game.make_move(0, 2, TileState::X).unwrap();
    assert_eq!(game.win_condition, WinCondition::XWin);
}

#[test]
fn test_occupied_cell_rejected_once_only() {
    let mut game = GameState::new();
    assert!(game.make_move(1, 2, TileState::O).is_ok());
    assert_eq!(game.make_move(1, 2, TileState::X), Err(MoveError::CellOccupied));
    assert_eq!(game.make_move(1, 2, TileState::O), Err(MoveError::CellOccupied));
    assert_eq!(game.tiles[1][2], TileState::O);
}

#[test]
fn test_out_of_bounds_never_mutates() {
    let mut game = GameState::new();
    assert_eq!(game.make_move(3, 0, TileState::X), Err(MoveError::OutOfBounds));
    assert_eq!(game.make_move(0, 3, TileState::X), Err(MoveError::OutOfBounds));
    assert_eq!(game.make_move(17, 99, TileState::O), Err(MoveError::OutOfBounds));
    for row in 0..3 {
        for col in 0..3 {
            assert_eq!(game.tiles[row][col], TileState::Empty);
        }
    }
    assert_eq!(game.win_condition, WinCondition::NoWin);
}

#[test]
fn test_column_win() {
    let mut game = GameState::new();
    game.make_move(0, 1, TileState::O).unwrap();
    game.make_move(1, 1, TileState::O).unwrap();
    game.make_move(2, 1, TileState::O).unwrap();
    assert_eq!(game.win_condition, WinCondition::OWin);
}

#[test]
fn test_diagonal_win() {
    let mut game = GameState::new();
    game.make_move(0, 0, TileState::X).unwrap();
    game.make_move(1, 1, TileState::X).unwrap();
    game.make_move(2, 2, TileState::X).unwrap();
    assert_eq!(game.win_condition, WinCondition::XWin);
}

#[test]
fn test_anti_diagonal_win() {
    let mut game = GameState::new();
    game.make_move(0, 2, TileState::O).unwrap();
    game.make_move(1, 1, TileState::O).unwrap();
    game.make_move(2, 0, TileState::O).unwrap();
    assert_eq!(game.win_condition, WinCondition::OWin);
}

#[test]
fn test_stalemate() {
    // X O X / X O O / O X X: the board fills with no complete line.
    let mut game = GameState::new();
    game.make_move(0, 0, TileState::X).unwrap();
    game.make_move(0, 1, TileState::O).unwrap();
    game.make_move(0, 2, TileState::X).unwrap();
    game.make_move(1, 0, TileState::X).unwrap();
    game.make_move(1, 1, TileState::O).unwrap();
    game.make_move(1, 2, TileState::O).unwrap();
    game.make_move(2, 0, TileState::O).unwrap();
    game.make_move(2, 1, TileState::X).unwrap();
    assert_eq!(game.win_condition, WinCondition::NoWin);
    game.make_move(2, 2, TileState::X).unwrap();
    assert_eq!(game.win_condition, WinCondition::Stalemate);
}

#[test]
fn test_decided_game_rejects_moves() {
    let mut game = GameState::new();
    game.make_move(0, 0, TileState::X).unwrap();
    game.make_move(0, 1, TileState::X).unwrap();
    game.make_move(0, 2, TileState::X).unwrap();
    assert_eq!(game.win_condition, WinCondition::XWin);
    // An empty, in-bounds tile: the decided game is the rejection reason.
    assert_eq!(game.make_move(2, 2, TileState::O), Err(MoveError::GameAlreadyDecided));
    assert_eq!(game.tiles[2][2], TileState::Empty);
    // An occupied tile still reports occupancy first.
    assert_eq!(game.make_move(0, 0, TileState::O), Err(MoveError::CellOccupied));
    assert_eq!(game.win_condition, WinCondition::XWin);
}

#[test]
fn test_reset_restores_initial_state_idempotently() {
    let mut game = GameState::new();
    game.make_move(0, 0, TileState::X).unwrap();
    game.make_move(0, 1, TileState::X).unwrap();
    game.make_move(0, 2, TileState::X).unwrap();
    game.reset();
    assert_eq!(game.win_condition, WinCondition::NoWin);
    for row in 0..3 {
        for col in 0..3 {
            assert_eq!(game.tiles[row][col], TileState::Empty);
        }
    }
    game.reset();
    assert_eq!(game.win_condition, WinCondition::NoWin);
    for row in 0..3 {
        for col in 0..3 {
            assert_eq!(game.tiles[row][col], TileState::Empty);
        }
    }
    assert!(game.make_move(0, 0, TileState::O).is_ok());
}

#[test]
fn test_snapshot() {
    let mut game = GameState::new();
    game.make_move(2, 0, TileState::O).unwrap();
    let (tiles, condition) = game.snapshot();
    assert_eq!(tiles[2][0], TileState::O);
    assert_eq!(tiles[0][0], TileState::Empty);
    assert_eq!(condition, WinCondition::NoWin);
}

#[test]
fn test_move_error_messages() {
    assert_eq!(MoveError::OutOfBounds.message(), "Invalid coordinates");
    assert_eq!(MoveError::CellOccupied.message(), "Tile already occupied");
    assert_eq!(MoveError::GameAlreadyDecided.message(), "Game already finished");
}
