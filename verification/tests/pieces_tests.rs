use checkers::board::Board;
use checkers::pieces::{Checker, Color, PieceRef, PieceSet, Rank, Score, MAX_PIECES};

#[test]
fn opponent_of_each_colour() {
    assert_eq!(Color::Green.opponent(), Color::Red);
    assert_eq!(Color::Red.opponent(), Color::Green);
}

#[test]
fn checker_tells_its_colour_and_rank() {
    let green = Checker { color: Color::Green, rank: Rank::Normal, index: 3 };
    let red_king = Checker { color: Color::Red, rank: Rank::King, index: 5 };
    assert!(green.is_green());
    assert!(!green.is_red());
    assert!(!green.is_super());
    assert!(red_king.is_red());
    assert!(!red_king.is_green());
    assert!(red_king.is_super());
    assert!(green.is_same_color(&green));
    assert!(!green.is_same_color(&red_king));
    assert!(green.is_different_color(&red_king));
    assert!(!red_king.is_different_color(&red_king));
}

#[test]
fn new_score_is_zero() {
    let score = Score::new();
    assert_eq!((score.green, score.red), (0, 0));
}

#[test]
fn new_piece_set_is_empty() {
    let set = PieceSet::new();
    assert_eq!(set.len(Color::Green), 0);
    assert_eq!(set.len(Color::Red), 0);
    assert_eq!(set.count(Color::Green), 0);
    assert_eq!(set.count(Color::Red), 0);
}

#[test]
fn added_pieces_take_slots_in_order() {
    let mut set = PieceSet::new();
    let first = set.add(Color::Green, Rank::Normal, 0).expect("room for a piece");
    let second = set.add(Color::Green, Rank::King, 2).expect("room for a piece");
    let other = set.add(Color::Red, Rank::Normal, 63).expect("room for a piece");
    assert_eq!(first, PieceRef { color: Color::Green, index: 0 });
    assert_eq!(second, PieceRef { color: Color::Green, index: 1 });
    assert_eq!(other, PieceRef { color: Color::Red, index: 0 });
    assert_eq!(set.count(Color::Green), 2);
    assert_eq!(set.count(Color::Red), 1);
    assert_eq!(set.rank(first), Rank::Normal);
    assert_eq!(set.rank(second), Rank::King);
    assert_eq!(set.cell(first), Some(0));
    assert_eq!(set.cell(other), Some(63));
    assert_eq!(set.get(second).cell, Some(2));
}

#[test]
fn piece_set_holds_no_more_than_its_capacity() {
    let mut set = PieceSet::new();
    for slot in 0..MAX_PIECES {
        assert!(set.add(Color::Red, Rank::Normal, slot).is_some());
    }
    assert_eq!(set.add(Color::Red, Rank::Normal, 40), None);
    assert_eq!(set.len(Color::Red), 16);
    assert_eq!(set.count(Color::Red), 16);
    assert!(set.add(Color::Green, Rank::Normal, 40).is_some());
}

#[test]
fn promotion_makes_a_king_and_is_idempotent() {
    let mut set = PieceSet::new();
    let piece = set.add(Color::Green, Rank::Normal, 56).expect("room for a piece");
    set.promote(piece);
    assert_eq!(set.rank(piece), Rank::King);
    assert_eq!(set.cell(piece), Some(56));
    assert_eq!(set.count(Color::Green), 1);
    set.promote(piece);
    assert_eq!(set.rank(piece), Rank::King);
    assert_eq!(set.cell(piece), Some(56));
    assert_eq!(set.count(Color::Green), 1);
}

#[test]
fn removal_takes_a_piece_out_of_play_once() {
    let mut set = PieceSet::new();
    let piece = set.add(Color::Red, Rank::King, 9).expect("room for a piece");
    let other = set.add(Color::Red, Rank::Normal, 18).expect("room for a piece");
    set.remove(piece);
    assert_eq!(set.cell(piece), None);
    assert_eq!(set.rank(piece), Rank::King);
    assert_eq!(set.count(Color::Red), 1);
    assert_eq!(set.len(Color::Red), 2);
    set.remove(piece);
    assert_eq!(set.count(Color::Red), 1);
    assert_eq!(set.cell(other), Some(18));
}

#[test]
fn relocation_moves_a_piece_in_play_only() {
    let mut set = PieceSet::new();
    let piece = set.add(Color::Green, Rank::Normal, 9).expect("room for a piece");
    set.relocate(piece, 18);
    assert_eq!(set.cell(piece), Some(18));
    assert_eq!(set.rank(piece), Rank::Normal);
    set.remove(piece);
    set.relocate(piece, 27);
    assert_eq!(set.cell(piece), None);
    assert_eq!(set.count(Color::Green), 0);
}

#[test]
fn new_board_is_empty() {
    let board = Board::new();
    for index in 0..64 {
        assert_eq!(board.occupant(index), None);
    }
}

#[test]
fn board_places_and_clears() {
    let mut board = Board::new();
    let piece = PieceRef { color: Color::Red, index: 4 };
    let other = PieceRef { color: Color::Green, index: 0 };
    board.place(9, piece);
    assert_eq!(board.occupant(9), Some(piece));
    assert_eq!(board.occupant(8), None);
    board.place(9, other);
    assert_eq!(board.occupant(9), Some(other));
    board.clear(9);
    assert_eq!(board.occupant(9), None);
}
