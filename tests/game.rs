use b_ship::board::{create_player, EMPTY};
use b_ship::game::{create_game, ConfigError};
use b_ship::region::Direction;

#[test]
fn new_board_is_empty() {
    let board = create_player(3, 4);
    assert_eq!(board.get_playername(), "");
    assert_eq!(board.get_playernum(), 0);
    for row in 0..3 {
        for col in 0..4 {
            assert_eq!(board.get_board_loc(row, col), EMPTY);
        }
    }
}

#[test]
fn board_accessors() {
    let mut board = create_player(3, 3);
    board.set_playername("Ada".to_string());
    board.set_playernum(4);
    board.set_board_loc(2, 1, 7);
    assert_eq!(board.get_playername(), "Ada");
    assert_eq!(board.get_playernum(), 4);
    assert_eq!(board.get_board_loc(2, 1), 7);
    assert_eq!(board.get_board_loc(1, 2), EMPTY);
}

#[test]
fn game_defaults() {
    let game = create_game();
    assert_eq!(game.get_row_col(), (10, 10));
    assert_eq!(game.get_playercount(), 1);
    assert!(!game.get_loaded());
    assert!(!game.get_interactive());
    assert_eq!(game.get_filename(), "");
    assert_eq!(game.get_shipsizes(), (2, 5));
    assert_eq!(game.get_boards_len(), 0);
}

#[test]
fn ship_size_one_is_rejected() {
    let mut game = create_game();
    assert_eq!(game.set_shipsizes(1, None), Err(ConfigError::InvalidShipSize));
    assert_eq!(game.get_shipsizes(), (2, 5));
}

#[test]
fn ship_size_two_defaults_largest_to_seven() {
    let mut game = create_game();
    assert_eq!(game.set_shipsizes(2, None), Ok(()));
    assert_eq!(game.get_shipsizes(), (2, 7));
}

#[test]
fn ship_sizes_explicit_bounds() {
    let mut game = create_game();
    assert_eq!(game.set_shipsizes(3, Some(4)), Ok(()));
    assert_eq!(game.get_shipsizes(), (3, 4));
    assert_eq!(game.set_shipsizes(3, Some(1)), Err(ConfigError::InvalidShipSize));
    assert_eq!(game.set_shipsizes(6, Some(4)), Err(ConfigError::InvalidShipSize));
    assert_eq!(game.set_shipsizes(0, Some(4)), Err(ConfigError::InvalidShipSize));
    assert_eq!(game.get_shipsizes(), (3, 4));
    assert_eq!(game.set_shipsizes(4, Some(4)), Ok(()));
    assert_eq!(game.get_shipsizes(), (4, 4));
}

#[test]
fn decrement_from_default_then_underflow() {
    let mut game = create_game();
    assert_eq!(game.decrement_playercount(), Ok(()));
    assert_eq!(game.get_playercount(), 0);
    assert_eq!(game.decrement_playercount(), Err(ConfigError::Underflow));
    assert_eq!(game.get_playercount(), 0);
}

#[test]
fn player_count_changes() {
    let mut game = create_game();
    game.increment_playercount();
    assert_eq!(game.get_playercount(), 2);
    game.set_playercount(5);
    assert_eq!(game.get_playercount(), 5);
}

#[test]
fn dimensions_and_flags() {
    let mut game = create_game();
    game.set_row_col(6, 8);
    assert_eq!(game.get_row_col(), (6, 8));
    game.set_row_or_col(3, true);
    assert_eq!(game.get_row_col(), (3, 8));
    game.set_row_or_col(4, false);
    assert_eq!(game.get_row_col(), (3, 4));
    game.set_loaded(true);
    game.set_interactive(true);
    game.set_filename("save.txt".to_string());
    assert!(game.get_loaded());
    assert!(game.get_interactive());
    assert_eq!(game.get_filename(), "save.txt");
}

#[test]
fn pop_returns_board_that_was_added() {
    let mut game = create_game();
    let mut board = create_player(10, 10);
    board.set_playername("Grace".to_string());
    board.set_playernum(1);
    assert_eq!(board.place_ship(1, (0, 0), 3, Direction::Horizontal), Ok(()));
    game.boards_add(board);
    assert_eq!(game.get_boards_len(), 1);
    let mut popped = game.boards_pop_last().unwrap();
    assert_eq!(game.get_boards_len(), 0);
    assert_eq!(popped.get_playername(), "Grace");
    assert_eq!(popped.get_playernum(), 1);
    assert_eq!(
        popped.place_ship(2, (2, 0), 2, Direction::Vertical),
        Err(b_ship::region::PlacementError::Collision)
    );
    assert!(game.boards_pop_last().is_none());
}

#[test]
fn last_and_player_lookup_copy_boards() {
    let mut game = create_game();
    assert!(game.boards_get_last().is_none());
    assert!(game.boards_get_player(0).is_none());
    let mut first = create_player(4, 4);
    first.set_playernum(0);
    first.set_playername("p0".to_string());
    let mut second = create_player(4, 4);
    second.set_playernum(1);
    second.set_playername("p1".to_string());
    game.boards_add(first);
    game.boards_add(second);
    let mut last = game.boards_get_last().unwrap();
    assert_eq!(last.get_playername(), "p1");
    last.set_board_loc(0, 0, 9);
    assert_eq!(game.boards_get_last().unwrap().get_board_loc(0, 0), EMPTY);
    assert_eq!(game.boards_get_player(0).unwrap().get_playername(), "p0");
    assert_eq!(game.boards_get_player(1).unwrap().get_playernum(), 1);
    assert!(game.boards_get_player(2).is_none());
    assert_eq!(game.get_boards_len(), 2);
}
