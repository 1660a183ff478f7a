use ccheckers::board::Board;
use ccheckers::coords::Position;
use ccheckers::player::{Mode, Piece, Turn};

fn occupant_counts(board: &Board) -> (usize, [usize; 7]) {
    let mut legal = 0;
    let mut per_piece = [0usize; 7];
    for x in -8..=8 {
        for y in -8..=8 {
            if let Some(p) = board.get(&Position { x, y }) {
                legal += 1;
                per_piece[match p {
                    Piece::Empty => 0,
                    Piece::Player1 => 1,
                    Piece::Player2 => 2,
                    Piece::Player3 => 3,
                    Piece::Player4 => 4,
                    Piece::Player5 => 5,
                    Piece::Player6 => 6,
                }] += 1;
            }
        }
    }
    (legal, per_piece)
}

#[test]
fn board_has_121_cells_all_empty_at_first() {
    let board = Board::default();
    assert_eq!(board.turn, Turn::Nobody);
    let (legal, per_piece) = occupant_counts(&board);
    assert_eq!(legal, 121);
    assert_eq!(per_piece, [121, 0, 0, 0, 0, 0, 0]);
}

#[test]
fn reset_six_seeds_ten_cells_per_player() {
    let mut board = Board::default();
    board.reset(Mode::Six);
    assert_eq!(board.turn, Turn::Player1);
    let (legal, per_piece) = occupant_counts(&board);
    assert_eq!(legal, 121);
    assert_eq!(per_piece, [61, 10, 10, 10, 10, 10, 10]);
}

#[test]
fn reset_three_merges_region_pairs() {
    let mut board = Board::default();
    board.reset(Mode::Three);
    let (legal, per_piece) = occupant_counts(&board);
    assert_eq!(legal, 121);
    assert_eq!(per_piece, [61, 20, 20, 20, 0, 0, 0]);
}

#[test]
fn reset_two_merges_region_triples() {
    let mut board = Board::default();
    board.reset(Mode::Two);
    let (legal, per_piece) = occupant_counts(&board);
    assert_eq!(legal, 121);
    assert_eq!(per_piece, [61, 30, 30, 0, 0, 0, 0]);
}

#[test]
fn reset_leaves_central_hexagon_empty() {
    for mode in [Mode::Two, Mode::Three, Mode::Six] {
        let mut board = Board::default();
        board.reset(mode);
        for x in -4..=4 {
            for y in -4..=4 {
                if (-4..=4).contains(&(x + y)) {
                    assert_eq!(board.get(&Position { x, y }), Some(Piece::Empty));
                }
            }
        }
    }
}

#[test]
fn reset_assigns_one_region_per_player_in_six_mode() {
    let mut board = Board::default();
    board.reset(Mode::Six);
    // One cell from each of the six home regions, in region order.
    assert_eq!(board.get(&Position { x: 2, y: 4 }), Some(Piece::Player1));
    assert_eq!(board.get(&Position { x: -2, y: 6 }), Some(Piece::Player2));
    assert_eq!(board.get(&Position { x: 6, y: -2 }), Some(Piece::Player3));
    assert_eq!(board.get(&Position { x: -2, y: -4 }), Some(Piece::Player4));
    assert_eq!(board.get(&Position { x: 2, y: -6 }), Some(Piece::Player5));
    assert_eq!(board.get(&Position { x: -6, y: 2 }), Some(Piece::Player6));
}

#[test]
fn fill_reseeds_without_touching_turn() {
    let mut board = Board::default();
    board.fill(Mode::Six);
    assert_eq!(board.turn, Turn::Nobody);
    let (_, per_piece) = occupant_counts(&board);
    assert_eq!(per_piece, [61, 10, 10, 10, 10, 10, 10]);
}

#[test]
fn get_rejects_positions_outside_the_board() {
    let board = Board::default();
    for p in [
        Position { x: 5, y: 5 },
        Position { x: 9, y: 0 },
        Position { x: 0, y: -9 },
        Position { x: -5, y: -5 },
        Position { x: 0, y: 5 },
        Position { x: -1, y: 6 },
        Position { x: 8, y: -3 },
    ] {
        assert_eq!(board.get(&p), None);
    }
}
