use tetris_engine::board::{Board, BOARD_HEIGHT, BOARD_WIDTH};
use tetris_engine::catalog::PieceKind;
use tetris_engine::piece::Piece;
use tetris_engine::rules::drop_interval_micros;
use tetris_engine::session::{new_session, GameSession, Intent, Phase};

/// The drop interval at level one, in microseconds.
const LEVEL_ONE_INTERVAL: u64 = 416_667;

/// Moves the active piece to column `x`, drops it and lands it, with
/// `drawn` as the kind drawn at the landing.
fn drop_at(session: &mut GameSession, x: i32, drawn: PieceKind) {
    while session.active_piece().x() > x {
        session.apply_intent(Intent::MoveLeft);
    }
    while session.active_piece().x() < x {
        session.apply_intent(Intent::MoveRight);
    }
    assert_eq!(session.active_piece().x(), x);
    session.apply_intent(Intent::HardDrop);
    assert!(session.tick_with(0, drawn));
}

/// A board whose rows `from..BOARD_HEIGHT` are filled but for column `gap`.
fn board_with_well(from: usize, gap: usize) -> Board {
    let mut board = Board::new();
    for y in from..BOARD_HEIGHT {
        for x in 0..BOARD_WIDTH {
            if x != gap {
                board.set_cell(x, y, Some(PieceKind::J));
            }
        }
    }
    board
}

fn occupied_cells(board: &Board) -> Vec<(usize, usize, PieceKind)> {
    let mut cells = Vec::new();
    for y in 0..BOARD_HEIGHT {
        for x in 0..BOARD_WIDTH {
            if let Some(kind) = board.cell(x, y) {
                cells.push((x, y, kind));
            }
        }
    }
    cells
}

#[test]
fn new_game_starts_with_an_empty_board_at_level_one() {
    let session = GameSession::with_pieces(PieceKind::T, PieceKind::L);
    assert_eq!(*session.board(), Board::new());
    assert_eq!(session.active_piece(), Piece::spawn(PieceKind::T));
    assert_eq!(session.next_kind(), PieceKind::L);
    assert_eq!(session.next_piece(), Piece::spawn(PieceKind::L));
    assert_eq!(session.score(), 0);
    assert_eq!(session.level(), 1);
    assert_eq!(session.total_lines_cleared(), 0);
    assert_eq!(session.phase(), Phase::Falling);
    assert!(!session.is_over());
    assert!(!session.is_paused());
    assert_eq!(session.elapsed_since_last_drop(), 0);
}

#[test]
fn new_session_starts_like_any_new_game() {
    let session = new_session();
    let expected = GameSession::with_pieces(session.active_piece().kind(), session.next_kind());
    assert_eq!(session, expected);
    assert_eq!(session.active_piece().rotation(), 0);
    assert_eq!((session.active_piece().x(), session.active_piece().y()), (4, 0));
}

#[test]
fn clone_is_an_equal_session() {
    let mut session = GameSession::with_pieces(PieceKind::S, PieceKind::Z);
    session.apply_intent(Intent::MoveLeft);
    session.tick_with(1000, PieceKind::I);
    let copy = session.clone();
    assert_eq!(copy, session);
    session.apply_intent(Intent::MoveLeft);
    assert_ne!(copy, session);
}

#[test]
fn tick_below_the_interval_only_advances_the_clock() {
    let mut session = GameSession::with_pieces(PieceKind::O, PieceKind::I);
    assert!(!session.tick_with(100_000, PieceKind::T));
    assert_eq!(session.elapsed_since_last_drop(), 100_000);
    assert_eq!(session.active_piece(), Piece::spawn(PieceKind::O));
    assert!(!session.tick_with(316_666, PieceKind::T));
    assert_eq!(session.elapsed_since_last_drop(), 416_666);
    assert_eq!(session.active_piece(), Piece::spawn(PieceKind::O));
    assert_eq!(*session.board(), Board::new());
}

#[test]
fn tick_at_the_interval_moves_the_piece_down_and_restarts_the_clock() {
    let mut session = GameSession::with_pieces(PieceKind::O, PieceKind::I);
    assert!(!session.tick_with(LEVEL_ONE_INTERVAL - 1, PieceKind::T));
    assert_eq!(session.active_piece().y(), 0);
    assert!(!session.tick_with(1, PieceKind::T));
    assert_eq!(session.active_piece(), Piece::at(PieceKind::O, 0, 4, 1).unwrap());
    assert_eq!(session.elapsed_since_last_drop(), 0);
    assert_eq!(session.next_kind(), PieceKind::I);
}

#[test]
fn one_tick_moves_one_row_however_long_it_took() {
    let mut session = GameSession::with_pieces(PieceKind::O, PieceKind::I);
    assert!(!session.tick_with(60_000_000, PieceKind::T));
    assert_eq!(session.active_piece().y(), 1);
    assert_eq!(session.elapsed_since_last_drop(), 0);
    assert!(!session.tick_with(u64::MAX, PieceKind::T));
    assert_eq!(session.active_piece().y(), 2);
}

#[test]
fn interval_of_the_session_is_that_of_its_level() {
    let session = GameSession::with_pieces(PieceKind::O, PieceKind::I);
    assert_eq!(drop_interval_micros(session.level()), LEVEL_ONE_INTERVAL);
}

#[test]
fn piece_falls_to_the_floor_tick_by_tick_and_lands() {
    let mut session = GameSession::with_pieces(PieceKind::O, PieceKind::I);
    for row in 1..=18 {
        assert!(!session.tick_with(LEVEL_ONE_INTERVAL, PieceKind::T));
        assert_eq!(session.active_piece().y(), row);
    }
    assert_eq!(*session.board(), Board::new());
    assert!(session.tick_with(LEVEL_ONE_INTERVAL, PieceKind::T));
    assert_eq!(
        occupied_cells(session.board()),
        vec![
            (4, 18, PieceKind::O),
            (5, 18, PieceKind::O),
            (4, 19, PieceKind::O),
            (5, 19, PieceKind::O)
        ]
    );
    assert_eq!(session.active_piece(), Piece::spawn(PieceKind::I));
    assert_eq!(session.next_kind(), PieceKind::T);
    assert_eq!(session.score(), 0);
    assert_eq!(session.total_lines_cleared(), 0);
    assert_eq!(session.level(), 1);
    assert_eq!(session.phase(), Phase::Falling);
    assert_eq!(session.elapsed_since_last_drop(), 0);
}

#[test]
fn moves_shift_the_active_piece() {
    let mut session = GameSession::with_pieces(PieceKind::T, PieceKind::I);
    session.apply_intent(Intent::MoveLeft);
    assert_eq!(session.active_piece(), Piece::at(PieceKind::T, 0, 3, 0).unwrap());
    session.apply_intent(Intent::MoveRight);
    session.apply_intent(Intent::MoveRight);
    assert_eq!(session.active_piece(), Piece::at(PieceKind::T, 0, 5, 0).unwrap());
    session.apply_intent(Intent::SoftDrop);
    assert_eq!(session.active_piece(), Piece::at(PieceKind::T, 0, 5, 1).unwrap());
    session.apply_intent(Intent::Rotate);
    assert_eq!(session.active_piece(), Piece::at(PieceKind::T, 1, 5, 1).unwrap());
    assert_eq!(session.elapsed_since_last_drop(), 0);
    assert_eq!(*session.board(), Board::new());
}

#[test]
fn illegal_moves_change_nothing() {
    let mut session = GameSession::with_pieces(PieceKind::O, PieceKind::I);
    for _ in 0..4 {
        session.apply_intent(Intent::MoveLeft);
    }
    let at_wall = session.clone();
    session.apply_intent(Intent::MoveLeft);
    assert_eq!(session, at_wall);
    // A vertical bar at the right wall cannot lie down.
    let bar = Piece::at(PieceKind::I, 0, 9, 3).unwrap();
    let mut session = GameSession::from_position(Board::new(), bar, PieceKind::O);
    let before = session.clone();
    session.apply_intent(Intent::Rotate);
    assert_eq!(session, before);
    session.apply_intent(Intent::MoveRight);
    assert_eq!(session, before);
}

#[test]
fn soft_drop_never_lands_the_piece() {
    let mut session = GameSession::with_pieces(PieceKind::O, PieceKind::I);
    for _ in 0..30 {
        session.apply_intent(Intent::SoftDrop);
    }
    assert_eq!(session.active_piece(), Piece::at(PieceKind::O, 0, 4, 18).unwrap());
    assert_eq!(*session.board(), Board::new());
    assert_eq!(session.elapsed_since_last_drop(), 0);
    // The timed tick decides the landing, and only when the interval is up.
    assert!(!session.tick_with(LEVEL_ONE_INTERVAL - 1, PieceKind::T));
    assert_eq!(*session.board(), Board::new());
    assert!(session.tick_with(1, PieceKind::T));
    assert_eq!(occupied_cells(session.board()).len(), 4);
}

#[test]
fn hard_drop_rests_the_piece_and_forces_the_next_tick_to_land_it() {
    let mut session = GameSession::with_pieces(PieceKind::I, PieceKind::O);
    session.apply_intent(Intent::HardDrop);
    assert_eq!(session.active_piece(), Piece::at(PieceKind::I, 0, 4, 16).unwrap());
    assert_eq!(session.elapsed_since_last_drop(), LEVEL_ONE_INTERVAL);
    assert_eq!(*session.board(), Board::new());
    assert!(session.tick_with(0, PieceKind::T));
    assert_eq!(
        occupied_cells(session.board()),
        vec![
            (4, 16, PieceKind::I),
            (4, 17, PieceKind::I),
            (4, 18, PieceKind::I),
            (4, 19, PieceKind::I)
        ]
    );
    assert_eq!(session.active_piece(), Piece::spawn(PieceKind::O));
    assert_eq!(session.next_kind(), PieceKind::T);
    assert_eq!(session.elapsed_since_last_drop(), 0);
}

#[test]
fn hard_drop_gives_the_same_board_as_soft_drops() {
    let mut board = Board::new();
    board.set_cell(3, 14, Some(PieceKind::Z));
    board.set_cell(8, 19, Some(PieceKind::Z));
    for index in 0..7 {
        let kind = PieceKind::from_index(index);
        let start = GameSession::from_position(board.clone(), Piece::spawn(kind), PieceKind::O);
        assert!(!start.is_over());

        let mut hard = start.clone();
        hard.apply_intent(Intent::HardDrop);
        let resting_row = hard.active_piece().y();
        assert!(hard.tick_with(0, PieceKind::T));

        let mut soft = start.clone();
        for _ in 0..resting_row {
            soft.apply_intent(Intent::SoftDrop);
        }
        assert_eq!(soft.active_piece().y(), resting_row);
        assert!(soft.tick_with(LEVEL_ONE_INTERVAL, PieceKind::T));

        assert_eq!(soft.board(), hard.board());
        assert_eq!(soft, hard);

        // More soft drops than rows to fall make no difference.
        let mut eager = start.clone();
        for _ in 0..resting_row + 7 {
            eager.apply_intent(Intent::SoftDrop);
        }
        assert!(eager.tick_with(LEVEL_ONE_INTERVAL, PieceKind::T));
        assert_eq!(eager, hard);
    }
}

#[test]
fn one_cleared_line_scores_100_at_level_one() {
    let mut board = Board::new();
    for x in 0..BOARD_WIDTH {
        if !(4..8).contains(&x) {
            board.set_cell(x, 19, Some(PieceKind::L));
        }
    }
    board.set_cell(0, 18, Some(PieceKind::S));
    let bar = Piece::at(PieceKind::I, 1, 4, 0).unwrap();
    let mut session = GameSession::from_position(board, bar, PieceKind::O);
    session.apply_intent(Intent::HardDrop);
    assert!(session.tick_with(0, PieceKind::T));
    assert_eq!(session.score(), 100);
    assert_eq!(session.total_lines_cleared(), 1);
    assert_eq!(session.level(), 1);
    assert_eq!(occupied_cells(session.board()), vec![(0, 19, PieceKind::S)]);
}

#[test]
fn four_cleared_lines_score_800_at_level_one() {
    let bar = Piece::at(PieceKind::I, 0, 0, 0).unwrap();
    let mut session = GameSession::from_position(board_with_well(16, 0), bar, PieceKind::O);
    session.apply_intent(Intent::HardDrop);
    assert!(session.tick_with(0, PieceKind::T));
    assert_eq!(session.score(), 800);
    assert_eq!(session.total_lines_cleared(), 4);
    assert_eq!(session.level(), 1);
    assert_eq!(*session.board(), Board::new());
}

#[test]
fn landing_without_a_complete_row_scores_nothing() {
    let mut session = GameSession::with_pieces(PieceKind::T, PieceKind::O);
    session.apply_intent(Intent::HardDrop);
    assert!(session.tick_with(0, PieceKind::T));
    assert_eq!(session.score(), 0);
    assert_eq!(session.total_lines_cleared(), 0);
    assert_eq!(session.level(), 1);
}

#[test]
fn more_than_four_rows_at_once_count_but_score_nothing() {
    // Five complete rows wait on the board; the landing piece adds none.
    let mut board = Board::new();
    for y in 15..BOARD_HEIGHT {
        for x in 0..BOARD_WIDTH {
            board.set_cell(x, y, Some(PieceKind::Z));
        }
    }
    let mut session = GameSession::from_position(board, Piece::spawn(PieceKind::O), PieceKind::I);
    session.apply_intent(Intent::HardDrop);
    assert_eq!(session.active_piece().y(), 13);
    assert!(session.tick_with(0, PieceKind::T));
    assert_eq!(session.total_lines_cleared(), 5);
    assert_eq!(session.score(), 0);
    assert_eq!(session.level(), 1);
    assert_eq!(
        occupied_cells(session.board()),
        vec![
            (4, 18, PieceKind::O),
            (5, 18, PieceKind::O),
            (4, 19, PieceKind::O),
            (5, 19, PieceKind::O)
        ]
    );
}

#[test]
fn level_and_score_over_a_whole_game() {
    let mut session = GameSession::with_pieces(PieceKind::O, PieceKind::O);
    // Ten rounds of five squares: each round completes two rows.
    for round in 0..10u64 {
        for (i, x) in [0, 2, 4, 6, 8].into_iter().enumerate() {
            let last = round == 9 && i >= 3;
            drop_at(&mut session, x, if last { PieceKind::I } else { PieceKind::O });
        }
        assert_eq!(session.total_lines_cleared(), 2 * (round + 1));
        assert_eq!(*session.board(), Board::new());
        let expected_level = if round < 4 { 1 } else if round < 9 { 2 } else { 3 };
        assert_eq!(session.level(), expected_level, "after round {}", round);
    }
    // Five rounds at level one and five at level two.
    assert_eq!(session.score(), 5 * 300 + 5 * 600);
    assert_eq!(session.total_lines_cleared(), 20);
    assert_eq!(session.level(), 3);
    assert_eq!(drop_interval_micros(session.level()), 312_500);

    // Bars stand in columns 0, 1 and 8 and squares fill columns 2..8, all
    // four rows high; the last bar completes the four rows in column 9.
    assert_eq!(session.active_piece().kind(), PieceKind::I);
    drop_at(&mut session, 0, PieceKind::O);
    drop_at(&mut session, 1, PieceKind::O);
    for (x, drawn) in [
        (2, PieceKind::O),
        (4, PieceKind::O),
        (6, PieceKind::O),
        (2, PieceKind::O),
        (4, PieceKind::I),
        (6, PieceKind::I),
    ] {
        assert_eq!(session.active_piece().kind(), PieceKind::O);
        drop_at(&mut session, x, drawn);
    }
    assert_eq!(session.active_piece().kind(), PieceKind::I);
    drop_at(&mut session, 8, PieceKind::T);
    assert_eq!(session.total_lines_cleared(), 20);
    assert_eq!(session.score(), 4500);
    assert_eq!(session.active_piece().kind(), PieceKind::I);
    let before = session.score();
    drop_at(&mut session, 9, PieceKind::T);
    assert_eq!(session.total_lines_cleared(), 24);
    assert_eq!(session.score() - before, 2400);
    assert_eq!(session.score(), 4500 + 2400);
    assert_eq!(session.level(), 3);
    assert_eq!(*session.board(), Board::new());
}

#[test]
fn spawn_collision_ends_the_game() {
    // The first two rows of the spawn column are taken.
    let mut board = Board::new();
    board.set_cell(4, 0, Some(PieceKind::Z));
    board.set_cell(4, 1, Some(PieceKind::Z));
    let resting = Piece::at(PieceKind::O, 0, 0, 18).unwrap();
    let mut session = GameSession::from_position(board.clone(), resting, PieceKind::T);
    assert_eq!(session.phase(), Phase::Falling);
    assert!(session.tick_with(LEVEL_ONE_INTERVAL, PieceKind::L));
    assert_eq!(session.phase(), Phase::GameOver);
    assert!(session.is_over());
    assert!(!session.is_paused());
    // The landed square is on the board, the new piece is not.
    let mut expected = board;
    expected.place(&resting);
    assert_eq!(*session.board(), expected);
    assert_eq!(session.active_piece(), Piece::spawn(PieceKind::T));
    assert_eq!(session.next_kind(), PieceKind::L);

    // Nothing but a restart changes the session from here on.
    let over = session.clone();
    for intent in [
        Intent::MoveLeft,
        Intent::MoveRight,
        Intent::SoftDrop,
        Intent::HardDrop,
        Intent::Rotate,
        Intent::TogglePause,
    ] {
        session.apply_intent(intent);
        assert_eq!(session, over);
    }
    assert!(!session.tick_with(10_000_000, PieceKind::I));
    assert_eq!(session, over);
    assert!(!session.tick(10_000_000));
    assert_eq!(session, over);
}

#[test]
fn a_position_whose_piece_has_no_room_is_over_at_once() {
    let mut board = Board::new();
    board.set_cell(4, 1, Some(PieceKind::Z));
    let session = GameSession::from_position(board, Piece::spawn(PieceKind::I), PieceKind::O);
    assert!(session.is_over());
    assert_eq!(session.score(), 0);
    assert_eq!(session.level(), 1);
    let outside = Piece::at(PieceKind::O, 0, 9, 0).unwrap();
    assert!(GameSession::from_position(Board::new(), outside, PieceKind::O).is_over());
}

#[test]
fn stacking_to_the_top_ends_the_game() {
    let mut session = GameSession::with_pieces(PieceKind::O, PieceKind::O);
    for landed in 1..=10 {
        assert!(!session.is_over());
        session.apply_intent(Intent::HardDrop);
        assert_eq!(session.active_piece().y(), 20 - 2 * landed);
        assert!(session.tick_with(0, PieceKind::O));
    }
    assert!(session.is_over());
    assert_eq!(occupied_cells(session.board()).len(), 40);
    assert_eq!(session.score(), 0);
}

#[test]
fn pause_freezes_the_clock_and_the_piece() {
    let mut session = GameSession::with_pieces(PieceKind::T, PieceKind::O);
    assert!(!session.tick_with(200_000, PieceKind::I));
    session.apply_intent(Intent::TogglePause);
    assert!(session.is_paused());
    assert_eq!(session.phase(), Phase::Paused);
    let paused = session.clone();

    assert!(!session.tick_with(60_000_000, PieceKind::I));
    assert_eq!(session, paused);
    assert!(!session.tick(60_000_000));
    assert_eq!(session, paused);
    for intent in [
        Intent::MoveLeft,
        Intent::MoveRight,
        Intent::SoftDrop,
        Intent::HardDrop,
        Intent::Rotate,
        Intent::Restart,
    ] {
        session.apply_intent(intent);
        assert_eq!(session, paused);
    }
    assert_eq!(session.elapsed_since_last_drop(), 200_000);

    // Play resumes with the clock as it stood.
    session.apply_intent(Intent::TogglePause);
    assert_eq!(session.phase(), Phase::Falling);
    assert_eq!(session.elapsed_since_last_drop(), 200_000);
    assert!(!session.tick_with(216_666, PieceKind::I));
    assert_eq!(session.active_piece().y(), 0);
    assert!(!session.tick_with(1, PieceKind::I));
    assert_eq!(session.active_piece().y(), 1);
}

#[test]
fn pause_and_resume_bring_back_the_same_session() {
    let mut session = GameSession::with_pieces(PieceKind::S, PieceKind::Z);
    session.apply_intent(Intent::MoveRight);
    session.tick_with(123_456, PieceKind::I);
    let before = session.clone();
    session.apply_intent(Intent::TogglePause);
    session.tick_with(5_000_000, PieceKind::I);
    session.apply_intent(Intent::TogglePause);
    assert_eq!(session, before);
}

#[test]
fn restart_is_ignored_while_the_game_runs() {
    let mut session = GameSession::with_pieces(PieceKind::S, PieceKind::Z);
    session.apply_intent(Intent::SoftDrop);
    let before = session.clone();
    session.apply_intent(Intent::Restart);
    assert_eq!(session, before);
    session.restart_with(PieceKind::I, PieceKind::I);
    assert_eq!(session, before);
}

#[test]
fn restart_with_starts_a_new_game_when_over() {
    let mut board = Board::new();
    board.set_cell(4, 1, Some(PieceKind::Z));
    let mut session = GameSession::from_position(board, Piece::spawn(PieceKind::I), PieceKind::O);
    assert!(session.is_over());
    session.restart_with(PieceKind::J, PieceKind::L);
    assert_eq!(session, GameSession::with_pieces(PieceKind::J, PieceKind::L));
}

#[test]
fn restart_intent_starts_a_new_game_when_over() {
    let mut session = GameSession::with_pieces(PieceKind::O, PieceKind::O);
    for _ in 0..10 {
        session.apply_intent(Intent::HardDrop);
        session.tick_with(0, PieceKind::O);
    }
    assert!(session.is_over());
    session.apply_intent(Intent::Restart);
    assert_eq!(session.phase(), Phase::Falling);
    assert_eq!(*session.board(), Board::new());
    assert_eq!(session.score(), 0);
    assert_eq!(session.level(), 1);
    assert_eq!(session.total_lines_cleared(), 0);
    assert_eq!(session.elapsed_since_last_drop(), 0);
    let expected = GameSession::with_pieces(session.active_piece().kind(), session.next_kind());
    assert_eq!(session, expected);
}

#[test]
fn tick_draws_the_piece_after_next_when_a_piece_lands() {
    let mut session = GameSession::with_pieces(PieceKind::O, PieceKind::J);
    assert!(!session.tick(1000));
    assert_eq!(session.elapsed_since_last_drop(), 1000);
    session.apply_intent(Intent::HardDrop);
    assert!(session.tick(0));
    assert_eq!(session.active_piece(), Piece::spawn(PieceKind::J));
    assert!(session.next_kind().index() < 7);
    assert_eq!(occupied_cells(session.board()).len(), 4);
    // With the kind that was drawn handed in, the outcome is the same.
    let mut replay = GameSession::with_pieces(PieceKind::O, PieceKind::J);
    replay.tick_with(1000, PieceKind::I);
    replay.apply_intent(Intent::HardDrop);
    assert!(replay.tick_with(0, session.next_kind()));
    assert_eq!(replay, session);
}
