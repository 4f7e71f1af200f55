use checkers::boardstate::BoardState;
use checkers::game::{GameError, SelectionOutcome};
use checkers::pieces::{Color, Rank};
use checkers::rules::MoveResult;

fn layout_with(pieces: &[(usize, Color, Rank)]) -> Vec<Option<(Color, Rank)>> {
    let mut layout = vec![None; 64];
    for (cell, color, rank) in pieces {
        layout[*cell] = Some((*color, *rank));
    }
    layout
}

fn game_with(pieces: &[(usize, Color, Rank)], playing: Color) -> BoardState {
    BoardState::from_layout(&layout_with(pieces), playing).expect("the layout can be played")
}

fn occupied_cells(state: &BoardState) -> usize {
    state.snapshot().cells.iter().filter(|cell| cell.is_some()).count()
}

#[test]
fn opening_has_twelve_pieces_a_side() {
    let state = BoardState::new();
    assert_eq!(state.count(Color::Green), 12);
    assert_eq!(state.count(Color::Red), 12);
    assert_eq!(state.current_turn(), Color::Green);
    assert_eq!(state.winner(), None);
    assert_eq!(state.selected(), None);
    assert_eq!(occupied_cells(&state), 24);
}

#[test]
fn opening_puts_green_on_top_and_red_at_the_bottom() {
    let state = BoardState::new();
    let snapshot = state.snapshot();
    for cell in 0..64 {
        let x = cell % 8;
        let y = cell / 8;
        let found = snapshot.cells[cell];
        if x % 2 == y % 2 && y < 3 {
            let checker = found.expect("a green piece");
            assert_eq!(checker.color, Color::Green);
            assert_eq!(checker.rank, Rank::Normal);
            assert_eq!(checker.index, cell / 2);
        } else if x % 2 == y % 2 && y > 4 {
            let checker = found.expect("a red piece");
            assert_eq!(checker.color, Color::Red);
            assert_eq!(checker.rank, Rank::Normal);
            assert_eq!(checker.index, (cell - 40) / 2);
        } else {
            assert_eq!(found, None);
        }
    }
}

#[test]
fn simple_move_from_row_two_passes_the_turn() {
    let mut state = BoardState::new();
    assert_eq!(state.select_cell(18), SelectionOutcome::AwaitingTarget);
    assert_eq!(state.selected(), Some(18));
    assert_eq!(
        state.select_cell(27),
        SelectionOutcome::Resolved(MoveResult::Moved)
    );
    assert_eq!(state.current_turn(), Color::Red);
    assert_eq!(state.selected(), None);
    assert_eq!(state.checker_at(18), None);
    let moved = state.checker_at(27).expect("the piece that moved");
    assert_eq!(moved.color, Color::Green);
    assert_eq!(moved.rank, Rank::Normal);
    assert_eq!(moved.index, 9);
    assert_eq!(state.count(Color::Green), 12);
    assert_eq!(state.count(Color::Red), 12);
}

#[test]
fn capture_removes_the_jumped_piece() {
    let mut state = game_with(
        &[
            (18, Color::Green, Rank::Normal),
            (27, Color::Red, Rank::Normal),
            (63, Color::Red, Rank::Normal),
        ],
        Color::Green,
    );
    assert_eq!(state.count(Color::Red), 2);
    assert_eq!(state.select_cell(18), SelectionOutcome::AwaitingTarget);
    assert_eq!(
        state.select_cell(36),
        SelectionOutcome::Resolved(MoveResult::Captured)
    );
    assert_eq!(state.count(Color::Red), 1);
    assert_eq!(state.count(Color::Green), 1);
    assert_eq!(state.checker_at(18), None);
    assert_eq!(state.checker_at(27), None);
    assert_eq!(state.checker_at(36).map(|c| c.color), Some(Color::Green));
    assert_eq!(state.current_turn(), Color::Red);
    assert_eq!(state.winner(), None);
}

#[test]
fn capture_of_a_lone_piece_wins_the_match() {
    let mut state = game_with(
        &[
            (18, Color::Green, Rank::Normal),
            (27, Color::Red, Rank::Normal),
        ],
        Color::Green,
    );
    assert_eq!(state.select_cell(18), SelectionOutcome::AwaitingTarget);
    assert_eq!(
        state.select_cell(36),
        SelectionOutcome::Resolved(MoveResult::Captured)
    );
    assert_eq!(state.count(Color::Red), 0);
    assert_eq!(state.winner(), Some(Color::Green));
}

#[test]
fn empty_source_is_rejected() {
    let mut state = BoardState::new();
    assert_eq!(
        state.select_cell(27),
        SelectionOutcome::Rejected(GameError::InvalidSelection)
    );
    assert_eq!(state.selected(), None);
    assert_eq!(state.current_turn(), Color::Green);
}

#[test]
fn source_of_the_wrong_colour_is_rejected() {
    let mut state = BoardState::new();
    assert_eq!(
        state.select_cell(41),
        SelectionOutcome::Rejected(GameError::InvalidSelection)
    );
    assert_eq!(state.selected(), None);
}

#[test]
fn source_off_the_board_is_rejected() {
    let mut state = BoardState::new();
    assert_eq!(
        state.select_cell(64),
        SelectionOutcome::Rejected(GameError::InvalidSelection)
    );
    assert_eq!(state.selected(), None);
}

#[test]
fn target_off_the_board_is_rejected_and_clears_the_selection() {
    let mut state = BoardState::new();
    assert_eq!(state.select_cell(18), SelectionOutcome::AwaitingTarget);
    assert_eq!(
        state.select_cell(200),
        SelectionOutcome::Rejected(GameError::InvalidSelection)
    );
    assert_eq!(state.selected(), None);
    assert_eq!(state.current_turn(), Color::Green);
}

#[test]
fn move_to_an_occupied_cell_is_rejected() {
    let mut state = BoardState::new();
    assert_eq!(state.select_cell(9), SelectionOutcome::AwaitingTarget);
    assert_eq!(
        state.select_cell(18),
        SelectionOutcome::Rejected(GameError::IllegalMove)
    );
    assert_eq!(state.selected(), None);
    assert_eq!(state.current_turn(), Color::Green);
    assert_eq!(occupied_cells(&state), 24);
}

#[test]
fn same_cell_as_source_and_target_is_rejected() {
    let mut state = BoardState::new();
    assert_eq!(state.select_cell(18), SelectionOutcome::AwaitingTarget);
    assert_eq!(
        state.select_cell(18),
        SelectionOutcome::Rejected(GameError::IllegalMove)
    );
    assert_eq!(state.selected(), None);
    assert!(state.checker_at(18).is_some());
}

#[test]
fn move_off_the_diagonal_is_rejected() {
    let mut state = BoardState::new();
    assert_eq!(state.select_cell(18), SelectionOutcome::AwaitingTarget);
    assert_eq!(
        state.select_cell(26),
        SelectionOutcome::Rejected(GameError::IllegalMove)
    );
    assert!(state.checker_at(18).is_some());
    assert_eq!(state.checker_at(26), None);
}

#[test]
fn normal_piece_cannot_move_two_cells() {
    let mut state = BoardState::new();
    assert_eq!(state.select_cell(18), SelectionOutcome::AwaitingTarget);
    assert_eq!(
        state.select_cell(36),
        SelectionOutcome::Rejected(GameError::IllegalMove)
    );
    assert!(state.checker_at(18).is_some());
}

#[test]
fn diagonal_does_not_wrap_around_the_edge() {
    let mut state = game_with(
        &[
            (31, Color::Green, Rank::Normal),
            (63, Color::Red, Rank::Normal),
        ],
        Color::Green,
    );
    assert_eq!(state.select_cell(31), SelectionOutcome::AwaitingTarget);
    assert_eq!(
        state.select_cell(40),
        SelectionOutcome::Rejected(GameError::IllegalMove)
    );
    assert_eq!(state.select_cell(31), SelectionOutcome::AwaitingTarget);
    assert_eq!(
        state.select_cell(24),
        SelectionOutcome::Rejected(GameError::IllegalMove)
    );
    assert!(state.checker_at(31).is_some());
}

#[test]
fn normal_piece_may_step_backwards() {
    let mut state = game_with(
        &[
            (27, Color::Green, Rank::Normal),
            (63, Color::Red, Rank::Normal),
        ],
        Color::Green,
    );
    assert_eq!(state.select_cell(27), SelectionOutcome::AwaitingTarget);
    assert_eq!(
        state.select_cell(18),
        SelectionOutcome::Resolved(MoveResult::Moved)
    );
    assert!(state.checker_at(18).is_some());
}

#[test]
fn capture_needs_an_enemy_in_between() {
    let mut state = game_with(
        &[
            (18, Color::Green, Rank::Normal),
            (27, Color::Green, Rank::Normal),
            (63, Color::Red, Rank::Normal),
        ],
        Color::Green,
    );
    assert_eq!(state.select_cell(18), SelectionOutcome::AwaitingTarget);
    assert_eq!(
        state.select_cell(36),
        SelectionOutcome::Rejected(GameError::IllegalMove)
    );
    assert_eq!(state.count(Color::Green), 2);
    assert!(state.checker_at(27).is_some());
}

#[test]
fn capture_needs_an_empty_landing_cell() {
    let mut state = game_with(
        &[
            (18, Color::Green, Rank::Normal),
            (27, Color::Red, Rank::Normal),
            (36, Color::Red, Rank::Normal),
        ],
        Color::Green,
    );
    assert_eq!(state.select_cell(18), SelectionOutcome::AwaitingTarget);
    assert_eq!(
        state.select_cell(36),
        SelectionOutcome::Rejected(GameError::IllegalMove)
    );
    assert_eq!(state.count(Color::Red), 2);
}

#[test]
fn capture_needs_a_landing_cell_on_the_board() {
    let mut state = game_with(
        &[
            (22, Color::Green, Rank::Normal),
            (31, Color::Red, Rank::Normal),
        ],
        Color::Green,
    );
    assert_eq!(state.select_cell(22), SelectionOutcome::AwaitingTarget);
    assert_eq!(
        state.select_cell(40),
        SelectionOutcome::Rejected(GameError::IllegalMove)
    );
    assert_eq!(state.count(Color::Red), 1);
    assert!(state.checker_at(31).is_some());
}

#[test]
fn green_is_crowned_on_the_last_row() {
    let mut state = game_with(
        &[
            (50, Color::Green, Rank::Normal),
            (0, Color::Red, Rank::Normal),
        ],
        Color::Green,
    );
    assert_eq!(state.select_cell(50), SelectionOutcome::AwaitingTarget);
    assert_eq!(
        state.select_cell(59),
        SelectionOutcome::Resolved(MoveResult::Moved)
    );
    let crowned = state.checker_at(59).expect("the piece that moved");
    assert_eq!(crowned.rank, Rank::King);
    assert!(crowned.is_super());
    assert_eq!(crowned.color, Color::Green);
}

#[test]
fn red_is_crowned_on_the_first_row() {
    let mut state = game_with(
        &[
            (9, Color::Red, Rank::Normal),
            (63, Color::Green, Rank::Normal),
        ],
        Color::Red,
    );
    assert_eq!(state.select_cell(9), SelectionOutcome::AwaitingTarget);
    assert_eq!(
        state.select_cell(0),
        SelectionOutcome::Resolved(MoveResult::Moved)
    );
    let crowned = state.checker_at(0).expect("the piece that moved");
    assert_eq!(crowned.rank, Rank::King);
    assert_eq!(crowned.color, Color::Red);
}

#[test]
fn piece_is_not_crowned_before_the_far_row() {
    let mut state = game_with(
        &[
            (18, Color::Red, Rank::Normal),
            (63, Color::Green, Rank::Normal),
        ],
        Color::Red,
    );
    assert_eq!(state.select_cell(18), SelectionOutcome::AwaitingTarget);
    assert_eq!(
        state.select_cell(9),
        SelectionOutcome::Resolved(MoveResult::Moved)
    );
    assert_eq!(state.checker_at(9).map(|c| c.rank), Some(Rank::Normal));
}

#[test]
fn capture_onto_the_far_row_crowns() {
    let mut state = game_with(
        &[
            (41, Color::Green, Rank::Normal),
            (50, Color::Red, Rank::Normal),
            (0, Color::Red, Rank::Normal),
        ],
        Color::Green,
    );
    assert_eq!(state.select_cell(41), SelectionOutcome::AwaitingTarget);
    assert_eq!(
        state.select_cell(59),
        SelectionOutcome::Resolved(MoveResult::Captured)
    );
    assert_eq!(state.checker_at(59).map(|c| c.rank), Some(Rank::King));
    assert_eq!(state.count(Color::Red), 1);
}

#[test]
fn king_stays_king_on_the_far_row() {
    let mut state = game_with(
        &[
            (50, Color::Green, Rank::King),
            (0, Color::Red, Rank::Normal),
        ],
        Color::Green,
    );
    assert_eq!(state.select_cell(50), SelectionOutcome::AwaitingTarget);
    assert_eq!(
        state.select_cell(57),
        SelectionOutcome::Resolved(MoveResult::Moved)
    );
    assert_eq!(state.checker_at(57).map(|c| c.rank), Some(Rank::King));
}

#[test]
fn repeated_captures_end_the_match() {
    let mut state = game_with(
        &[
            (18, Color::Green, Rank::Normal),
            (27, Color::Red, Rank::Normal),
            (54, Color::Red, Rank::Normal),
        ],
        Color::Green,
    );
    assert_eq!(state.select_cell(18), SelectionOutcome::AwaitingTarget);
    assert_eq!(
        state.select_cell(36),
        SelectionOutcome::Resolved(MoveResult::Captured)
    );
    assert_eq!(state.winner(), None);
    assert_eq!(state.current_turn(), Color::Red);
    assert_eq!(state.select_cell(54), SelectionOutcome::AwaitingTarget);
    assert_eq!(
        state.select_cell(45),
        SelectionOutcome::Resolved(MoveResult::Moved)
    );
    assert_eq!(state.select_cell(36), SelectionOutcome::AwaitingTarget);
    assert_eq!(
        state.select_cell(54),
        SelectionOutcome::Resolved(MoveResult::Captured)
    );
    assert_eq!(state.count(Color::Red), 0);
    assert_eq!(state.winner(), Some(Color::Green));
    assert_eq!(
        state.select_cell(54),
        SelectionOutcome::Rejected(GameError::GameAlreadyOver)
    );
    assert_eq!(
        state.select_cell(0),
        SelectionOutcome::Rejected(GameError::GameAlreadyOver)
    );
    assert_eq!(state.selected(), None);
    assert!(state.checker_at(54).is_some());
    assert_eq!(state.resolve(54, 45), MoveResult::Rejected);
    assert!(state.checker_at(54).is_some());
}

#[test]
fn red_wins_when_green_has_no_piece_left() {
    let mut state = game_with(
        &[
            (27, Color::Green, Rank::Normal),
            (36, Color::Red, Rank::Normal),
        ],
        Color::Red,
    );
    assert_eq!(state.select_cell(36), SelectionOutcome::AwaitingTarget);
    assert_eq!(
        state.select_cell(18),
        SelectionOutcome::Resolved(MoveResult::Captured)
    );
    assert_eq!(state.count(Color::Green), 0);
    assert_eq!(state.winner(), Some(Color::Red));
    assert_eq!(state.check_win(), Some(Color::Red));
}

#[test]
fn king_ray_blocked_by_occupied_landing_cell() {
    let mut state = game_with(
        &[
            (9, Color::Green, Rank::King),
            (36, Color::Red, Rank::Normal),
            (45, Color::Red, Rank::Normal),
        ],
        Color::Green,
    );
    assert_eq!(state.select_cell(9), SelectionOutcome::AwaitingTarget);
    assert_eq!(
        state.select_cell(45),
        SelectionOutcome::Rejected(GameError::IllegalMove)
    );
    assert_eq!(state.count(Color::Red), 2);
    assert!(state.checker_at(9).is_some());
    assert!(state.checker_at(36).is_some());
    assert_eq!(state.select_cell(9), SelectionOutcome::AwaitingTarget);
    assert_eq!(
        state.select_cell(54),
        SelectionOutcome::Rejected(GameError::IllegalMove)
    );
    assert_eq!(state.count(Color::Red), 2);
}

#[test]
fn king_captures_at_a_distance() {
    let mut state = game_with(
        &[
            (9, Color::Green, Rank::King),
            (36, Color::Red, Rank::Normal),
            (63, Color::Red, Rank::Normal),
        ],
        Color::Green,
    );
    assert_eq!(state.select_cell(9), SelectionOutcome::AwaitingTarget);
    assert_eq!(
        state.select_cell(45),
        SelectionOutcome::Resolved(MoveResult::Captured)
    );
    assert_eq!(state.count(Color::Red), 1);
    assert_eq!(state.checker_at(36), None);
    assert_eq!(state.checker_at(9), None);
    assert_eq!(state.checker_at(45).map(|c| c.rank), Some(Rank::King));
}

#[test]
fn king_moves_along_a_free_diagonal() {
    let mut state = game_with(
        &[
            (9, Color::Green, Rank::King),
            (6, Color::Red, Rank::Normal),
        ],
        Color::Green,
    );
    assert_eq!(state.select_cell(9), SelectionOutcome::AwaitingTarget);
    assert_eq!(
        state.select_cell(54),
        SelectionOutcome::Resolved(MoveResult::Moved)
    );
    assert_eq!(state.checker_at(54).map(|c| c.rank), Some(Rank::King));
    assert_eq!(state.current_turn(), Color::Red);
}

#[test]
fn king_cannot_pass_its_own_piece() {
    let mut state = game_with(
        &[
            (9, Color::Green, Rank::King),
            (27, Color::Green, Rank::Normal),
            (6, Color::Red, Rank::Normal),
        ],
        Color::Green,
    );
    assert_eq!(state.select_cell(9), SelectionOutcome::AwaitingTarget);
    assert_eq!(
        state.select_cell(36),
        SelectionOutcome::Rejected(GameError::IllegalMove)
    );
    assert_eq!(state.select_cell(9), SelectionOutcome::AwaitingTarget);
    assert_eq!(
        state.select_cell(45),
        SelectionOutcome::Rejected(GameError::IllegalMove)
    );
    assert_eq!(state.count(Color::Green), 2);
}

#[test]
fn king_jumps_one_piece_only() {
    let mut state = game_with(
        &[
            (9, Color::Green, Rank::King),
            (18, Color::Red, Rank::Normal),
            (36, Color::Red, Rank::Normal),
        ],
        Color::Green,
    );
    assert_eq!(state.select_cell(9), SelectionOutcome::AwaitingTarget);
    assert_eq!(
        state.select_cell(45),
        SelectionOutcome::Rejected(GameError::IllegalMove)
    );
    assert_eq!(state.count(Color::Red), 2);
    assert_eq!(state.select_cell(9), SelectionOutcome::AwaitingTarget);
    assert_eq!(
        state.select_cell(27),
        SelectionOutcome::Resolved(MoveResult::Captured)
    );
    assert_eq!(state.count(Color::Red), 1);
    assert_eq!(state.checker_at(18), None);
    assert!(state.checker_at(36).is_some());
}

#[test]
fn king_does_not_wrap_around_the_edge() {
    let mut state = game_with(
        &[
            (22, Color::Green, Rank::King),
            (0, Color::Red, Rank::Normal),
        ],
        Color::Green,
    );
    assert_eq!(state.select_cell(22), SelectionOutcome::AwaitingTarget);
    assert_eq!(
        state.select_cell(40),
        SelectionOutcome::Rejected(GameError::IllegalMove)
    );
    assert!(state.checker_at(22).is_some());
}

#[test]
fn chained_captures_keep_the_turn() {
    let mut state = game_with(
        &[
            (18, Color::Green, Rank::Normal),
            (27, Color::Red, Rank::Normal),
            (45, Color::Red, Rank::Normal),
        ],
        Color::Green,
    );
    assert!(!state.chain_captures());
    state.set_chain_captures(true);
    assert!(state.chain_captures());
    assert_eq!(state.select_cell(18), SelectionOutcome::AwaitingTarget);
    assert_eq!(
        state.select_cell(36),
        SelectionOutcome::Resolved(MoveResult::Captured)
    );
    assert_eq!(state.current_turn(), Color::Green);
    assert_eq!(state.select_cell(36), SelectionOutcome::AwaitingTarget);
    assert_eq!(
        state.select_cell(54),
        SelectionOutcome::Resolved(MoveResult::Captured)
    );
    assert_eq!(state.winner(), Some(Color::Green));
    assert_eq!(state.count(Color::Red), 0);
}

#[test]
fn chained_captures_still_pass_the_turn_after_a_simple_move() {
    let mut state = BoardState::new();
    state.set_chain_captures(true);
    assert_eq!(state.select_cell(18), SelectionOutcome::AwaitingTarget);
    assert_eq!(
        state.select_cell(27),
        SelectionOutcome::Resolved(MoveResult::Moved)
    );
    assert_eq!(state.current_turn(), Color::Red);
}

#[test]
fn every_piece_keeps_a_cell_of_its_own() {
    let mut state = BoardState::new();
    let picks = [18, 27, 41, 32, 27, 36, 45, 27, 20, 29, 43, 34];
    for pick in picks {
        state.select_cell(pick);
        let snapshot = state.snapshot();
        let mut seen = Vec::new();
        for cell in snapshot.cells.iter().flatten() {
            assert!(!seen.contains(&(cell.color, cell.index)));
            seen.push((cell.color, cell.index));
        }
        assert_eq!(
            seen.iter().filter(|(color, _)| *color == Color::Green).count(),
            state.count(Color::Green)
        );
        assert_eq!(
            seen.iter().filter(|(color, _)| *color == Color::Red).count(),
            state.count(Color::Red)
        );
    }
}

#[test]
fn counts_fall_by_one_with_each_capture_only() {
    let mut state = BoardState::new();
    let picks = [18, 27, 41, 34, 27, 41, 50, 32];
    let mut green = state.count(Color::Green);
    let mut red = state.count(Color::Red);
    for pick in picks {
        let mover = state.current_turn();
        let outcome = state.select_cell(pick);
        let captured = outcome == SelectionOutcome::Resolved(MoveResult::Captured);
        let (lost_green, lost_red) = match (captured, mover) {
            (true, Color::Green) => (0, 1),
            (true, Color::Red) => (1, 0),
            _ => (0, 0),
        };
        assert_eq!(state.count(Color::Green), green - lost_green);
        assert_eq!(state.count(Color::Red), red - lost_red);
        green = state.count(Color::Green);
        red = state.count(Color::Red);
    }
    assert_eq!((green, red), (11, 11));
}

#[test]
fn turn_changes_with_every_accepted_move() {
    let mut state = BoardState::new();
    let moves = [(18, 27), (41, 32), (16, 25), (43, 34)];
    for (source, target) in moves {
        let before = state.current_turn();
        assert_eq!(state.select_cell(source), SelectionOutcome::AwaitingTarget);
        assert_eq!(state.current_turn(), before);
        assert_eq!(
            state.select_cell(target),
            SelectionOutcome::Resolved(MoveResult::Moved)
        );
        assert_ne!(state.current_turn(), before);
    }
}

#[test]
fn rejected_move_keeps_the_turn() {
    let mut state = BoardState::new();
    assert_eq!(state.select_cell(18), SelectionOutcome::AwaitingTarget);
    assert_eq!(
        state.select_cell(28),
        SelectionOutcome::Rejected(GameError::IllegalMove)
    );
    assert_eq!(state.current_turn(), Color::Green);
}

#[test]
fn resolve_rejects_a_piece_of_the_player_not_to_move() {
    let mut state = BoardState::new();
    assert_eq!(state.resolve(41, 32), MoveResult::Rejected);
    assert!(state.checker_at(41).is_some());
    assert_eq!(state.resolve(18, 27), MoveResult::Moved);
    assert_eq!(state.resolve(64, 27), MoveResult::Rejected);
    assert_eq!(state.resolve(41, 64), MoveResult::Rejected);
    assert_eq!(state.resolve(41, 32), MoveResult::Moved);
}

#[test]
fn switch_turn_flips_the_player_and_clears_the_selection() {
    let mut state = BoardState::new();
    assert_eq!(state.select_cell(18), SelectionOutcome::AwaitingTarget);
    state.switch_turn();
    assert_eq!(state.current_turn(), Color::Red);
    assert_eq!(state.selected(), None);
    state.switch_turn();
    assert_eq!(state.current_turn(), Color::Green);
}

#[test]
fn initialize_starts_the_match_anew() {
    let mut state = BoardState::new();
    state.set_chain_captures(true);
    state.select_cell(18);
    state.select_cell(27);
    let snapshot = state.initialize();
    assert_eq!(snapshot.green_count, 12);
    assert_eq!(snapshot.red_count, 12);
    assert_eq!(snapshot.cells.len(), 64);
    assert!(snapshot.cells[18].is_some());
    assert_eq!(snapshot.cells[27], None);
    assert_eq!(state.current_turn(), Color::Green);
    assert_eq!(state.selected(), None);
    assert!(state.chain_captures());
}

#[test]
fn layout_of_the_wrong_length_cannot_be_played() {
    let layout = vec![Some((Color::Green, Rank::Normal)); 1];
    assert!(BoardState::from_layout(&layout, Color::Green).is_none());
    let long = vec![None; 65];
    assert!(BoardState::from_layout(&long, Color::Green).is_none());
}

#[test]
fn empty_layout_cannot_be_played() {
    let layout = layout_with(&[]);
    assert!(BoardState::from_layout(&layout, Color::Green).is_none());
}

#[test]
fn layout_with_a_piece_on_a_light_cell_cannot_be_played() {
    let layout = layout_with(&[(1, Color::Green, Rank::Normal)]);
    assert!(BoardState::from_layout(&layout, Color::Green).is_none());
}

#[test]
fn layout_with_too_many_pieces_cannot_be_played() {
    let mut pieces = Vec::new();
    for cell in 0..64 {
        if (cell % 8) % 2 == (cell / 8) % 2 && pieces.len() < 17 {
            pieces.push((cell, Color::Red, Rank::Normal));
        }
    }
    assert!(BoardState::from_layout(&layout_with(&pieces), Color::Green).is_none());
    pieces.pop();
    let state = BoardState::from_layout(&layout_with(&pieces), Color::Green)
        .expect("sixteen pieces fit");
    assert_eq!(state.count(Color::Red), 16);
    assert_eq!(state.winner(), Some(Color::Red));
}

#[test]
fn layout_numbers_the_pieces_in_cell_order() {
    let state = game_with(
        &[
            (0, Color::Green, Rank::Normal),
            (9, Color::Red, Rank::King),
            (18, Color::Green, Rank::King),
            (63, Color::Red, Rank::Normal),
        ],
        Color::Red,
    );
    assert_eq!(state.current_turn(), Color::Red);
    let first = state.checker_at(0).expect("a piece");
    assert_eq!((first.color, first.rank, first.index), (Color::Green, Rank::Normal, 0));
    let second = state.checker_at(9).expect("a piece");
    assert_eq!((second.color, second.rank, second.index), (Color::Red, Rank::King, 0));
    let third = state.checker_at(18).expect("a piece");
    assert_eq!((third.color, third.rank, third.index), (Color::Green, Rank::King, 1));
    let fourth = state.checker_at(63).expect("a piece");
    assert_eq!((fourth.color, fourth.rank, fourth.index), (Color::Red, Rank::Normal, 1));
    assert_eq!(state.count(Color::Green), 2);
    assert_eq!(state.count(Color::Red), 2);
}
