use eugene::ttt::{GameError, GameState, Player, TicTTGame};

/// A game with a fixed first mover, for deterministic scenarios.
fn game(first_is_player1: bool) -> TicTTGame {
    TicTTGame {
        player1: Player::new("alice".to_string(), "X".to_string()),
        player2: Player::new("bob".to_string(), "O".to_string()),
        state: if first_is_player1 {
            GameState::TurnPlayer1
        } else {
            GameState::TurnPlayer2
        },
        board: vec![None, None, None, None, None, None, None, None, None],
        total_moves: 0,
    }
}

fn put(g: &mut TicTTGame, mover: &str, pos: &str) -> Result<GameState, GameError> {
    g.update_board(&mover.to_string(), &pos.to_string())
}

#[test]
fn player_new_starts_at_zero() {
    let p = Player::new("alice".to_string(), "X".to_string());
    assert_eq!(p.name, "alice");
    assert_eq!(p.piece, "X");
    assert_eq!(p.points, 0);
}

#[test]
fn players_equal_by_name() {
    let a = Player::new("alice".to_string(), "X".to_string());
    let b = Player::new("alice".to_string(), "O".to_string());
    let c = Player::new("bob".to_string(), "X".to_string());
    assert!(a == b);
    assert!(a != c);
}

#[test]
fn new_game_is_empty_and_movable() {
    let g = TicTTGame::new(
        Player::new("alice".to_string(), "X".to_string()),
        Player::new("bob".to_string(), "O".to_string()),
    );
    assert_eq!(g.total_moves, 0);
    assert!(matches!(g.state, GameState::TurnPlayer1 | GameState::TurnPlayer2));
    for cell in g.sanitized_board() {
        assert_eq!(cell, "\u{2B50}");
    }
}

#[test]
fn invalid_position_texts_are_rejected() {
    let mut g = game(true);
    for bad in ["abc", "", "9", "12", "-1", "4x", " 4", "99999999999999999999"] {
        assert_eq!(put(&mut g, "alice", bad), Err(GameError::InvalidPosition));
    }
    // Nothing changed: the board is still empty and it is still a fresh game.
    assert_eq!(g.total_moves, 0);
    assert!(matches!(g.state, GameState::TurnPlayer1));
    assert_eq!(g.player1.points, 0);
}

#[test]
fn leading_zeros_are_accepted() {
    let mut g = game(true);
    assert_eq!(put(&mut g, "alice", "04"), Ok(GameState::TurnPlayer2));
    assert_eq!(g.player1.points, 5);
}

#[test]
fn move_by_non_current_player_is_rejected() {
    let mut g = game(true);
    let before_board = g.sanitized_board();
    assert_eq!(put(&mut g, "bob", "4"), Err(GameError::NotYourTurn));
    assert_eq!(put(&mut g, "carol", "4"), Err(GameError::NotYourTurn));
    // Board and state unchanged.
    assert_eq!(g.sanitized_board(), before_board);
    assert!(matches!(g.state, GameState::TurnPlayer1));
    assert_eq!(g.total_moves, 0);
    assert_eq!(g.player1.points, 0);
    assert_eq!(g.player2.points, 0);
}

#[test]
fn occupied_cell_is_rejected() {
    let mut g = game(true);
    assert_eq!(put(&mut g, "alice", "4"), Ok(GameState::TurnPlayer2));
    let points_before = (g.player1.points, g.player2.points);
    let board_before = g.sanitized_board();
    assert_eq!(put(&mut g, "bob", "4"), Err(GameError::CellOccupied));
    // Points, board and state unchanged.
    assert_eq!((g.player1.points, g.player2.points), points_before);
    assert_eq!(g.sanitized_board(), board_before);
    assert!(matches!(g.state, GameState::TurnPlayer2));
}

#[test]
fn occupied_check_comes_before_turn_check() {
    let mut g = game(true);
    assert_eq!(put(&mut g, "alice", "4"), Ok(GameState::TurnPlayer2));
    // Even the player whose turn it is not gets CellOccupied, not NotYourTurn.
    assert_eq!(put(&mut g, "alice", "4"), Err(GameError::CellOccupied));
}

#[test]
fn moves_accumulate_weights() {
    let mut g = game(true);
    assert_eq!(put(&mut g, "alice", "0"), Ok(GameState::TurnPlayer2)); // 8
    assert_eq!(put(&mut g, "bob", "1"), Ok(GameState::TurnPlayer1)); // 1
    assert_eq!(put(&mut g, "alice", "4"), Ok(GameState::TurnPlayer2)); // 5
    assert_eq!(g.player1.points, 13); // 8 + 5
    assert_eq!(g.player2.points, 1);
    assert_eq!(g.total_moves, 3);
}

#[test]
fn full_board_without_fifteen_is_a_draw() {
    // Player 1 takes 0,1,3,5,8 (8,1,3,7,2: running 8,9,12,19,21),
    // player 2 takes 2,4,7,6 (6,5,9,4: running 6,11,20,24):
    // neither ever stands at exactly 15.
    let mut g = game(true);
    assert_eq!(put(&mut g, "alice", "0"), Ok(GameState::TurnPlayer2));
    assert_eq!(put(&mut g, "bob", "2"), Ok(GameState::TurnPlayer1));
    assert_eq!(put(&mut g, "alice", "1"), Ok(GameState::TurnPlayer2));
    assert_eq!(put(&mut g, "bob", "4"), Ok(GameState::TurnPlayer1));
    assert_eq!(put(&mut g, "alice", "3"), Ok(GameState::TurnPlayer2));
    assert_eq!(put(&mut g, "bob", "7"), Ok(GameState::TurnPlayer1));
    assert_eq!(put(&mut g, "alice", "5"), Ok(GameState::TurnPlayer2));
    assert_eq!(put(&mut g, "bob", "6"), Ok(GameState::TurnPlayer1));
    assert_eq!(put(&mut g, "alice", "8"), Ok(GameState::Draw));
    assert_eq!(g.total_moves, 9);
    assert!(matches!(g.state, GameState::Draw));
    // Terminal: no further move is accepted, even to an... there is no free
    // cell left; a fresh parseable position that is occupied reports that.
    assert_eq!(put(&mut g, "alice", "0"), Err(GameError::CellOccupied));
}

#[test]
fn win_comes_exactly_on_the_completing_move() {
    // Player 1 takes the column 0,3,6 (weights 8,3,4 summing to 15).
    let mut g = game(true);
    assert_eq!(put(&mut g, "alice", "0"), Ok(GameState::TurnPlayer2)); // 8
    assert_eq!(put(&mut g, "bob", "1"), Ok(GameState::TurnPlayer1)); // 1
    assert_eq!(put(&mut g, "alice", "3"), Ok(GameState::TurnPlayer2)); // 11: no win yet
    assert_eq!(put(&mut g, "bob", "2"), Ok(GameState::TurnPlayer1)); // 7
    assert_eq!(put(&mut g, "alice", "6"), Ok(GameState::WinPlayer1)); // 15
    assert_eq!(g.player1.points, 15);
    assert!(matches!(g.state, GameState::WinPlayer1));
}

#[test]
fn overshooting_fifteen_is_not_a_win() {
    // Player 1 takes 0 and 7 (8 + 9 = 17): past 15 without touching it.
    let mut g = game(true);
    assert_eq!(put(&mut g, "alice", "0"), Ok(GameState::TurnPlayer2));
    assert_eq!(put(&mut g, "bob", "1"), Ok(GameState::TurnPlayer1));
    assert_eq!(put(&mut g, "alice", "7"), Ok(GameState::TurnPlayer2));
    assert_eq!(g.player1.points, 17);
    assert!(matches!(g.state, GameState::TurnPlayer2));
}

#[test]
fn moves_after_the_end_are_rejected() {
    let mut g = game(true);
    assert_eq!(put(&mut g, "alice", "0"), Ok(GameState::TurnPlayer2));
    assert_eq!(put(&mut g, "bob", "1"), Ok(GameState::TurnPlayer1));
    assert_eq!(put(&mut g, "alice", "3"), Ok(GameState::TurnPlayer2));
    assert_eq!(put(&mut g, "bob", "2"), Ok(GameState::TurnPlayer1));
    assert_eq!(put(&mut g, "alice", "6"), Ok(GameState::WinPlayer1));
    // The game is over: a move to a free cell is refused as GameOver.
    assert_eq!(put(&mut g, "bob", "8"), Err(GameError::GameOver));
    assert_eq!(put(&mut g, "alice", "8"), Err(GameError::GameOver));
    assert_eq!(g.total_moves, 5);
}

#[test]
fn forced_first_mover_scenario() {
    // A (piece X) against B (piece O); A moves first. B takes the column
    // 0,3,6 across three turns and must be declared the winner exactly on
    // the third of those moves, with 15 points.
    let mut g = game(true);
    assert_eq!(put(&mut g, "alice", "4"), Ok(GameState::TurnPlayer2)); // A: 5
    assert_eq!(put(&mut g, "bob", "0"), Ok(GameState::TurnPlayer1)); // B: 8
    assert_eq!(put(&mut g, "alice", "1"), Ok(GameState::TurnPlayer2)); // A: 6
    assert_eq!(put(&mut g, "bob", "3"), Ok(GameState::TurnPlayer1)); // B: 11, no win
    assert_eq!(put(&mut g, "alice", "8"), Ok(GameState::TurnPlayer2)); // A: 8, no win
    assert_eq!(put(&mut g, "bob", "6"), Ok(GameState::WinPlayer2)); // B: 15
    assert_eq!(g.player2.points, 15);
    assert!(matches!(g.state, GameState::WinPlayer2));
}

#[test]
fn sanitized_board_shows_pieces_and_placeholder() {
    let mut g = game(false);
    assert_eq!(put(&mut g, "bob", "4"), Ok(GameState::TurnPlayer1));
    assert_eq!(put(&mut g, "alice", "0"), Ok(GameState::TurnPlayer2));
    let cells = g.sanitized_board();
    assert_eq!(cells.len(), 9);
    assert_eq!(cells[0], "X");
    assert_eq!(cells[4], "O");
    for i in [1usize, 2, 3, 5, 6, 7, 8] {
        assert_eq!(cells[i], "\u{2B50}");
    }
}

#[test]
fn as_table_renders_through_prettytable() {
    let mut g = game(true);
    assert_eq!(put(&mut g, "alice", "4"), Ok(GameState::TurnPlayer2));
    let rendered = g.as_table();
    // The same layout built against prettytable directly.
    let cells = g.sanitized_board();
    let mut table = prettytable::Table::new();
    table.set_format(
        prettytable::format::FormatBuilder::new()
            .column_separator('|')
            .padding(1, 1)
            .build(),
    );
    table.add_row(prettytable::Row::new(vec![
        prettytable::Cell::new(&cells[0]),
        prettytable::Cell::new(&cells[1]),
        prettytable::Cell::new(&cells[2]),
    ]));
    table.add_row(prettytable::Row::new(vec![
        prettytable::Cell::new(&cells[3]),
        prettytable::Cell::new(&cells[4]),
        prettytable::Cell::new(&cells[5]),
    ]));
    table.add_row(prettytable::Row::new(vec![
        prettytable::Cell::new(&cells[6]),
        prettytable::Cell::new(&cells[7]),
        prettytable::Cell::new(&cells[8]),
    ]));
    assert_eq!(rendered, table.to_string());
    // And it is a real rendering, not the tokens handed back.
    assert!(rendered.contains('|'));
    assert!(rendered.contains('X'));
    assert_ne!(rendered, cells.join(""));
}

#[test]
fn current_player_follows_the_state() {
    let mut g = game(true);
    assert_eq!(g.get_curr_player().name, "alice");
    assert_eq!(put(&mut g, "alice", "4"), Ok(GameState::TurnPlayer2));
    assert_eq!(g.get_curr_player().name, "bob");
    let p = g.get_curr_player_mut();
    p.points += 1;
    assert_eq!(g.player2.points, 1);
}

#[test]
fn membership_is_by_name() {
    let g = game(true);
    assert!(TicTTGame::player_is_in_game(&"alice".to_string(), &g));
    assert!(TicTTGame::player_is_in_game(&"bob".to_string(), &g));
    assert!(!TicTTGame::player_is_in_game(&"carol".to_string(), &g));
    assert!(!TicTTGame::player_is_in_game(&"X".to_string(), &g));
}
