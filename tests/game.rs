use tictactoe::{
    advance, check_filled, check_winner, full_match, get_coord, next_move, parse_response,
    render, settle, start, trim_line, Board, GameState, InputError, Player, Report, Response,
};

fn awaiting(s: GameState) -> (Board, Player) {
    match s {
        GameState::AwaitingMove(b, p) => (b, p),
        other => panic!("game is over: {:?}", other),
    }
}

fn play(moves: &[(usize, usize)]) -> GameState {
    let mut state = start();
    for &(r, c) in moves {
        let (b, p) = awaiting(state);
        let (next, report) = advance(b, p, Ok(Response::Move(r, c)));
        assert!(matches!(report, Report::Placed));
        state = next;
    }
    state
}

fn type_line(state: GameState, line: &str) -> (GameState, Report) {
    let (b, p) = awaiting(state);
    advance(b, p, parse_response(line))
}

fn board_of(cells: [[char; 3]; 3]) -> Board {
    let mut b = Board::new();
    for r in 0..3 {
        for c in 0..3 {
            b.positions[r][c] = match cells[r][c] {
                'X' => Some(Player::X),
                'O' => Some(Player::O),
                _ => None,
            };
        }
    }
    b
}

#[test]
fn top_row_wins_for_first_player() {
    let state = play(&[(0, 0), (1, 1), (0, 1), (1, 0), (0, 2)]);
    match state {
        GameState::Won(w, b) => {
            assert_eq!(w, Player::X);
            assert_eq!(check_winner(&b), Some(Player::X));
            assert_eq!(format!("{} won the game", w.symbol()), "X won the game");
        }
        other => panic!("expected a win, got {:?}", other),
    }
}

#[test]
fn full_board_without_line_is_a_tie() {
    let state = play(&[
        (0, 0),
        (0, 1),
        (0, 2),
        (1, 1),
        (1, 0),
        (1, 2),
        (2, 1),
        (2, 0),
        (2, 2),
    ]);
    match state {
        GameState::Tied(b) => {
            assert!(check_filled(&b));
            assert_eq!(check_winner(&b), None);
        }
        other => panic!("expected a tie, got {:?}", other),
    }
}

#[test]
fn second_move_to_same_cell_is_rejected() {
    let (state, report) = type_line(start(), "2,2");
    assert!(matches!(report, Report::Placed));
    let (b1, p1) = awaiting(state);
    assert_eq!(p1, Player::O);
    assert_eq!(b1.positions[1][1], Some(Player::X));
    let (state, report) = type_line(state, "2,2\n");
    assert!(matches!(report, Report::Occupied(2, 2)));
    let (b2, p2) = awaiting(state);
    assert_eq!(p2, Player::O);
    assert_eq!(b2.positions, b1.positions);
}

#[test]
fn stop_as_first_input_cancels_with_empty_board() {
    let (state, report) = type_line(start(), "stop\n");
    assert!(matches!(report, Report::Stopped));
    match state {
        GameState::Cancelled(b) => {
            assert_eq!(b.positions, Board::new().positions);
            assert_eq!(render(&b), " | | \n-+-+-\n | | \n-+-+-\n | | ");
        }
        other => panic!("expected a cancelled game, got {:?}", other),
    }
}

#[test]
fn malformed_input_keeps_player_and_board() {
    let (state, report) = type_line(start(), "a,b");
    match report {
        Report::Invalid(InputError::Number(e)) => {
            assert_eq!(e.to_string(), "invalid digit found in string")
        }
        other => panic!("expected a parse failure, got {:?}", other),
    }
    let (b, p) = awaiting(state);
    assert_eq!(p, Player::X);
    assert_eq!(b.positions, Board::new().positions);
}

#[test]
fn taken_cell_is_never_overwritten() {
    let state = play(&[(0, 0)]);
    let (b, p) = awaiting(state);
    let (next, report) = advance(b, p, Ok(Response::Move(0, 0)));
    assert!(matches!(report, Report::Occupied(1, 1)));
    let (nb, np) = awaiting(next);
    assert_eq!(nb.positions[0][0], Some(Player::X));
    assert_eq!(np, Player::O);
}

#[test]
fn turns_alternate_on_accepted_moves_only() {
    let mut state = start();
    let lines = ["1,1", "1,1", "x", "3,3", "", "2,1", "9,9", "1,2"];
    let expected = [
        Player::O,
        Player::O,
        Player::O,
        Player::X,
        Player::X,
        Player::O,
        Player::O,
        Player::X,
    ];
    for (line, want) in lines.iter().zip(expected.iter()) {
        let (next, _) = type_line(state, line);
        let (_, p) = awaiting(next);
        assert_eq!(p, *want);
        state = next;
    }
}

#[test]
fn win_is_detected_on_every_line() {
    let lines: [[(usize, usize); 3]; 8] = [
        [(0, 0), (0, 1), (0, 2)],
        [(1, 0), (1, 1), (1, 2)],
        [(2, 0), (2, 1), (2, 2)],
        [(0, 0), (1, 0), (2, 0)],
        [(0, 1), (1, 1), (2, 1)],
        [(0, 2), (1, 2), (2, 2)],
        [(0, 0), (1, 1), (2, 2)],
        [(2, 0), (1, 1), (0, 2)],
    ];
    for line in lines.iter() {
        for p in [Player::X, Player::O] {
            let mut b = Board::new();
            for &(r, c) in line.iter() {
                b.positions[r][c] = Some(p);
            }
            assert_eq!(check_winner(&b), Some(p));
            assert!(!check_filled(&b));
        }
    }
}

#[test]
fn empty_and_mixed_boards_have_no_winner() {
    assert_eq!(check_winner(&Board::new()), None);
    let mixed = board_of([['X', 'O', 'X'], ['X', 'O', ' '], ['O', 'X', ' ']]);
    assert_eq!(check_winner(&mixed), None);
}

#[test]
fn first_line_in_order_decides() {
    let b = board_of([['O', 'O', 'O'], ['X', 'X', 'X'], [' ', ' ', ' ']]);
    assert_eq!(check_winner(&b), Some(Player::O));
    let b = board_of([['X', ' ', 'O'], ['X', ' ', 'O'], ['X', ' ', 'O']]);
    assert_eq!(check_winner(&b), Some(Player::X));
}

#[test]
fn fill_check_needs_every_cell() {
    assert!(!check_filled(&Board::new()));
    let full = board_of([['X', 'O', 'X'], ['X', 'O', 'O'], ['O', 'X', 'X']]);
    assert!(check_filled(&full));
    let won_with_gap = board_of([['X', 'X', 'X'], ['O', 'O', ' '], ['O', 'X', 'O']]);
    assert_eq!(check_winner(&won_with_gap), Some(Player::X));
    assert!(!check_filled(&won_with_gap));
}

#[test]
fn full_match_needs_one_owner() {
    let x = Some(Player::X);
    let o = Some(Player::O);
    assert_eq!(full_match(x, x, x), x);
    assert_eq!(full_match(o, o, o), o);
    assert_eq!(full_match(x, o, x), None);
    assert_eq!(full_match(x, x, None), None);
    assert_eq!(full_match(None, None, None), None);
}

#[test]
fn next_move_swaps_players() {
    assert_eq!(next_move(Player::X), Player::O);
    assert_eq!(next_move(Player::O), Player::X);
    assert_eq!(Player::X.symbol(), "X");
    assert_eq!(Player::O.symbol(), "O");
}

#[test]
fn settle_reports_terminal_boards() {
    let won = board_of([['O', 'X', 'X'], ['X', 'O', ' '], [' ', ' ', 'O']]);
    assert!(matches!(settle(won, Player::X), GameState::Won(Player::O, _)));
    let full = board_of([['X', 'O', 'X'], ['X', 'O', 'O'], ['O', 'X', 'X']]);
    assert!(matches!(settle(full, Player::O), GameState::Tied(_)));
    assert!(matches!(settle(Board::new(), Player::O), GameState::AwaitingMove(_, Player::O)));
}

#[test]
fn render_shows_marks() {
    let b = board_of([['X', ' ', 'O'], [' ', 'X', ' '], ['O', ' ', ' ']]);
    assert_eq!(render(&b), "X| |O\n-+-+-\n |X| \n-+-+-\nO| | ");
}

#[test]
fn coordinates_are_read_from_one() {
    assert_eq!(get_coord("1,1").unwrap(), (0, 0));
    assert_eq!(get_coord("2,3").unwrap(), (1, 2));
    assert_eq!(get_coord("+3,1").unwrap(), (2, 0));
}

#[test]
fn coordinate_errors() {
    assert!(matches!(get_coord("12"), Err(InputError::MissingComma)));
    assert!(matches!(get_coord(""), Err(InputError::MissingComma)));
    assert!(matches!(get_coord("0,1"), Err(InputError::OutOfRange)));
    assert!(matches!(get_coord("1,4"), Err(InputError::OutOfRange)));
    assert!(matches!(get_coord(" 1,2"), Err(InputError::Number(_))));
    assert!(matches!(get_coord("1,2,3"), Err(InputError::Number(_))));
    assert!(matches!(get_coord("-1,2"), Err(InputError::Number(_))));
    assert!(matches!(get_coord("1,"), Err(InputError::Number(_))));
    assert!(matches!(
        get_coord("99999999999999999999999,1"),
        Err(InputError::Number(_))
    ));
}

#[test]
fn line_endings_are_cut_once() {
    assert_eq!(trim_line("stop\r\n"), "stop");
    assert_eq!(trim_line("1,2\n"), "1,2");
    assert_eq!(trim_line("1,2\r"), "1,2");
    assert_eq!(trim_line("1,2\n\n"), "1,2\n");
    assert_eq!(trim_line(""), "");
}

#[test]
fn responses_are_read() {
    assert_eq!(parse_response("stop").unwrap(), Response::Stop);
    assert_eq!(parse_response("stop\r\n").unwrap(), Response::Stop);
    assert_eq!(parse_response("3,2\r\n").unwrap(), Response::Move(2, 1));
    assert!(matches!(parse_response("Stop"), Err(InputError::MissingComma)));
    assert!(matches!(parse_response("stop "), Err(InputError::MissingComma)));
}
