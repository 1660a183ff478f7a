use ccheckers::board::Board;
use ccheckers::coords::Position;
use ccheckers::player::{Mode, Piece, Turn};

fn pos(x: i32, y: i32) -> Position {
    Position { x, y }
}

#[test]
fn first_push_needs_an_owned_piece() {
    let mut board = Board::default();
    board.reset(Mode::Two);
    // An empty cell starts no move.
    assert!(!board.try_push_path(pos(0, 0), Turn::Player1, Mode::Two));
    // The other player's piece starts no move.
    assert!(!board.try_push_path(pos(-2, -3), Turn::Player1, Mode::Two));
    assert!(!board.try_push_path(pos(2, 4), Turn::Player2, Mode::Two));
    // One's own piece does.
    assert!(board.try_push_path(pos(2, 4), Turn::Player1, Mode::Two));
}

#[test]
fn simple_step_must_land_on_adjacent_empty_cell() {
    let mut board = Board::default();
    board.reset(Mode::Two);
    assert!(board.try_push_path(pos(4, 1), Turn::Player1, Mode::Two));
    // Occupied neighbour.
    assert!(!board.try_push_path(pos(3, 2), Turn::Player1, Mode::Two));
    // Not adjacent, not collinear.
    assert!(!board.try_push_path(pos(2, 0), Turn::Player1, Mode::Two));
    // Three cells away along an axis.
    assert!(!board.try_push_path(pos(1, 1), Turn::Player1, Mode::Two));
    // Adjacent and empty.
    assert!(board.try_push_path(pos(4, 0), Turn::Player1, Mode::Two));
}

#[test]
fn simple_step_ends_the_move() {
    let mut board = Board::default();
    board.reset(Mode::Two);
    assert!(board.try_push_path(pos(4, 1), Turn::Player1, Mode::Two));
    assert!(board.try_push_path(pos(4, 0), Turn::Player1, Mode::Two));
    // After a simple step nothing can be pushed, step or jump alike.
    assert!(!board.try_push_path(pos(4, -1), Turn::Player1, Mode::Two));
    assert!(!board.try_push_path(pos(3, 0), Turn::Player1, Mode::Two));
    assert!(!board.try_push_path(pos(4, 2), Turn::Player1, Mode::Two));
    assert!(!board.try_push_path(pos(2, 0), Turn::Player1, Mode::Two));
    // The path is unchanged: committing still plays the one-step move.
    assert!(board.commit_path());
    assert_eq!(board.get(&pos(4, 1)), Some(Piece::Empty));
    assert_eq!(board.get(&pos(4, 0)), Some(Piece::Player1));
}

#[test]
fn jumps_chain_and_commit_moves_only_the_endpoints() {
    let mut board = Board::default();
    board.reset(Mode::Two);

    // Two single-jump moves to open up the board.
    assert!(board.try_push_path(pos(2, 4), Turn::Player1, Mode::Two));
    assert!(board.try_push_path(pos(0, 4), Turn::Player1, Mode::Two));
    assert!(board.commit_path());
    assert!(board.try_push_path(pos(3, 3), Turn::Player1, Mode::Two));
    assert!(board.try_push_path(pos(1, 3), Turn::Player1, Mode::Two));
    assert!(board.commit_path());

    // Now a chain of two jumps: (4,4) over (3,4) to (2,4), then over (2,3)
    // to (2,2).
    assert!(board.try_push_path(pos(4, 4), Turn::Player1, Mode::Two));
    assert!(board.try_push_path(pos(2, 4), Turn::Player1, Mode::Two));
    assert!(board.try_push_path(pos(2, 2), Turn::Player1, Mode::Two));
    // A simple step cannot continue a jump chain.
    assert!(!board.try_push_path(pos(2, 1), Turn::Player1, Mode::Two));
    // A jump without a piece to jump over is rejected.
    assert!(!board.try_push_path(pos(2, 0), Turn::Player1, Mode::Two));
    // An occupied landing cell is rejected.
    assert!(!board.try_push_path(pos(0, 4), Turn::Player1, Mode::Two));

    assert!(board.commit_path());
    // Only the endpoints changed; jumped-over pieces stay where they are.
    assert_eq!(board.get(&pos(4, 4)), Some(Piece::Empty));
    assert_eq!(board.get(&pos(2, 2)), Some(Piece::Player1));
    assert_eq!(board.get(&pos(3, 4)), Some(Piece::Player1));
    assert_eq!(board.get(&pos(2, 3)), Some(Piece::Player1));
    assert_eq!(board.get(&pos(2, 4)), Some(Piece::Empty));
}

#[test]
fn commit_needs_more_than_one_cell() {
    let mut board = Board::default();
    board.reset(Mode::Two);
    // Empty path: nothing to commit.
    assert!(!board.commit_path());
    // One cell: still nothing to commit, and nothing moves.
    assert!(board.try_push_path(pos(4, 1), Turn::Player1, Mode::Two));
    assert!(!board.commit_path());
    assert_eq!(board.get(&pos(4, 1)), Some(Piece::Player1));
}

#[test]
fn pop_path_undoes_one_step() {
    let mut board = Board::default();
    board.reset(Mode::Two);
    assert!(board.try_push_path(pos(4, 1), Turn::Player1, Mode::Two));
    assert!(board.try_push_path(pos(4, 0), Turn::Player1, Mode::Two));
    board.pop_path();
    // Back to one cell: committing does nothing...
    assert!(!board.commit_path());
    // ...and the step can be taken again, to a different neighbour.
    assert!(board.try_push_path(pos(3, 1), Turn::Player1, Mode::Two));
    assert!(board.commit_path());
    assert_eq!(board.get(&pos(4, 1)), Some(Piece::Empty));
    assert_eq!(board.get(&pos(3, 1)), Some(Piece::Player1));
    // Popping an empty path is a quiet no-op.
    board.pop_path();
    assert!(!board.commit_path());
}

#[test]
fn is_legal_reports_without_mutating() {
    let mut board = Board::default();
    board.reset(Mode::Two);
    assert!(board.is_legal(pos(2, 4), Turn::Player1, Mode::Two));
    assert!(!board.is_legal(pos(0, 0), Turn::Player1, Mode::Two));
    // Nothing was pushed: committing still does nothing.
    assert!(!board.commit_path());
}

#[test]
fn move_piece_relocates_unconditionally() {
    let mut board = Board::default();
    board.reset(Mode::Six);
    board.move_piece(&pos(2, 4), &pos(0, 0));
    assert_eq!(board.get(&pos(2, 4)), Some(Piece::Empty));
    assert_eq!(board.get(&pos(0, 0)), Some(Piece::Player1));
}

#[test]
fn full_two_player_round() {
    let mut board = Board::default();
    board.reset(Mode::Two);
    assert_eq!(board.turn, Turn::Player1);

    // Player 1 takes a simple step.
    assert!(board.try_push_path(pos(4, 1), board.turn, Mode::Two));
    assert!(board.try_push_path(pos(4, 0), board.turn, Mode::Two));
    // Any third push is rejected and changes nothing.
    assert!(!board.try_push_path(pos(4, -1), board.turn, Mode::Two));
    assert!(board.commit_path());
    assert_eq!(board.get(&pos(4, 1)), Some(Piece::Empty));
    assert_eq!(board.get(&pos(4, 0)), Some(Piece::Player1));

    // The caller advances the turn after a committed move.
    board.turn = Mode::Two.next_turn(board.turn);
    assert_eq!(board.turn, Turn::Player2);

    // Player 2 answers with a simple step of their own.
    assert!(board.try_push_path(pos(-4, -1), board.turn, Mode::Two));
    assert!(board.try_push_path(pos(-4, 0), board.turn, Mode::Two));
    assert!(board.commit_path());
    assert_eq!(board.get(&pos(-4, 0)), Some(Piece::Player2));
    board.turn = Mode::Two.next_turn(board.turn);
    assert_eq!(board.turn, Turn::Player1);
}
