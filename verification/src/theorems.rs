//! What holds of every match, whatever the players pick.

use vstd::prelude::*;
use vstd::set_lib::lemma_int_range;
use crate::game::{
    lemma_applied_wf, lemma_lifted_linked, lemma_linked_by_content, GameError, GameView,
    SelectionOutcome,
};
use crate::geometry::{
    diagonal_cell, lemma_diagonal_inside, lemma_diagonal_step, ray_cell, Direction, BOARD_SIZE,
};
use crate::pieces::{lemma_live_slots_bounded, live_slots, Checker, Color, PieceRef, Rank};
use crate::rules::{
    distance, heading, holds_enemy, lemma_diagonal_target, path_clear, promotes, resolution,
    MoveResult, Resolution,
};

verus! {

/// The state in which every match opens is well formed.
pub proof fn theorem_opening_wf()
    ensures
        GameView::opening().wf(),
{
    let game = GameView::opening();
    assert(game.pieces.wf()) by {
        lemma_int_range(0, 12);
        assert(live_slots(game.pieces.green) =~= Set::new(|i: int| 0 <= i && i < 12));
        assert(live_slots(game.pieces.red) =~= Set::new(|i: int| 0 <= i && i < 12));
    }
    assert forall|cell: int| 0 <= cell < BOARD_SIZE implies #[trigger] game.seated(cell) by {
        lemma_opening_homes(cell);
    }
    assert forall|piece: PieceRef| #[trigger] game.pieces.in_play(piece) implies game.standing(
        piece,
    ) by {
        lemma_opening_homes(GameView::opening_home(piece.color, piece.index as int));
    }
}

/// As a match opens, the piece on a cell has that cell as its home, and the
/// home of a slot holds the piece of that slot.
proof fn lemma_opening_homes(cell: int)
    ensures
        0 <= cell < BOARD_SIZE ==> match GameView::opening_cell(cell) {
            Some(piece) => piece.index < 12 && GameView::opening_home(
                piece.color,
                piece.index as int,
            ) == cell,
            None => true,
        },
        forall|color: Color, slot: int|
            0 <= slot < 12 && cell == #[trigger] GameView::opening_home(color, slot) ==> 0 <= cell
                < BOARD_SIZE && GameView::opening_cell(cell) == Some(
                PieceRef { color, index: slot as usize },
            ),
{
}

/// Every pick leaves a well-formed state of play well formed. In
/// particular board and pieces still agree after every resolved move.
pub proof fn theorem_pick_keeps_wf(game: GameView, index: int)
    requires
        game.wf(),
    ensures
        game.selected(index).wf(),
{
    lemma_linked_by_content(game, game.deselected());
    if game.winner() is None {
        match game.source {
            None => {
                if 0 <= index < BOARD_SIZE && game.holds(index, game.turn) {
                    lemma_linked_by_content(game, game.selected(index));
                }
            },
            Some(source) => {
                lemma_applied_wf(game.deselected(), source as int, index);
                assert(game.deselected().position() =~= game.position());
            },
        }
    }
}

/// No two pieces share a cell: where board and pieces agree, two pieces in
/// play that stand on the same cell are one and the same piece, and the
/// piece found on a cell is in play on that very cell.
pub proof fn theorem_single_occupancy(game: GameView)
    requires
        game.linked(),
    ensures
        forall|first: PieceRef, second: PieceRef|
            #![trigger game.pieces.in_play(first), game.pieces.in_play(second)]
            game.pieces.in_play(first) && game.pieces.in_play(second) && game.pieces.get(
                first,
            ).cell == game.pieces.get(second).cell ==> first == second,
        forall|cell: int|
            0 <= cell < BOARD_SIZE ==> match #[trigger] game.cells[cell] {
                Some(piece) => game.pieces.in_play(piece) && game.pieces.get(piece).cell == Some(
                    cell as usize,
                ),
                None => true,
            },
{
    assert forall|first: PieceRef, second: PieceRef|
        #![trigger game.pieces.in_play(first), game.pieces.in_play(second)]
        game.pieces.in_play(first) && game.pieces.in_play(second) && game.pieces.get(first).cell
            == game.pieces.get(second).cell implies first == second by {
        assert(game.standing(first));
        assert(game.standing(second));
    }
    assert forall|cell: int| 0 <= cell < BOARD_SIZE implies match #[trigger] game.cells[cell] {
        Some(piece) => game.pieces.in_play(piece) && game.pieces.get(piece).cell == Some(
            cell as usize,
        ),
        None => true,
    } by {
        assert(game.seated(cell));
    }
}

/// A player has no piece in play exactly when no cell of the board holds
/// one of that player's pieces.
pub proof fn theorem_count_zero_iff_absent(game: GameView, color: Color)
    requires
        game.linked(),
    ensures
        game.pieces.count(color) == 0 <==> forall|cell: int|
            0 <= cell < BOARD_SIZE ==> !#[trigger] game.holds(cell, color),
{
    let slots = live_slots(game.pieces.of(color));
    lemma_live_slots_bounded(game.pieces.of(color));
    if game.pieces.count(color) != 0 {
        let slot = slots.choose();
        let piece = PieceRef { color, index: slot as usize };
        assert(slots.contains(slot));
        assert(game.pieces.in_play(piece));
        assert(game.standing(piece));
        assert(game.holds(game.pieces.get(piece).cell.unwrap() as int, color));
    }
    if exists|cell: int| 0 <= cell < BOARD_SIZE && #[trigger] game.holds(cell, color) {
        let cell = choose|cell: int| 0 <= cell < BOARD_SIZE && #[trigger] game.holds(cell, color);
        let piece = game.cells[cell].unwrap();
        assert(game.seated(cell));
        assert(slots.contains(piece.index as int));
    }
}

/// The piece as it stands after it landed on `target`: a king if that is
/// the far row of its colour, else what it was.
pub open spec fn landed(checker: Checker, target: int) -> Checker {
    Checker {
        rank: if promotes(checker.color, target) {
            Rank::King
        } else {
            checker.rank
        },
        ..checker
    }
}

/// A simple move changes two cells of the position and no other: the
/// source becomes empty, and the target holds the piece that moved, crowned
/// if it reached its far row.
pub proof fn theorem_position_after_move(game: GameView, source: int, target: int)
    requires
        game.linked(),
        0 <= source < BOARD_SIZE,
        0 <= target < BOARD_SIZE,
        game.cells[source] is Some,
        game.cells[target] is None,
    ensures
        game.moved(source, target).position() == game.position().update(source, None).update(
            target,
            Some(landed(game.position()[source].unwrap(), target)),
        ),
{
    let after = game.moved(source, target);
    let expected = game.position().update(source, None).update(
        target,
        Some(landed(game.position()[source].unwrap(), target)),
    );
    assert(game.seated(source));
    assert forall|cell: int| 0 <= cell < BOARD_SIZE implies after.position()[cell]
        == expected[cell] by {
        assert(game.seated(cell));
    }
    assert(after.position() =~= expected);
}

/// A capture changes three cells of the position and no other: the source
/// and the cell of the captured piece become empty, and the landing cell
/// holds the piece that moved, crowned if it reached its far row.
pub proof fn theorem_position_after_capture(game: GameView, source: int, victim: int, end: int)
    requires
        game.linked(),
        0 <= source < BOARD_SIZE,
        0 <= victim < BOARD_SIZE,
        0 <= end < BOARD_SIZE,
        source != victim,
        game.cells[source] is Some,
        game.cells[victim] is Some,
        game.cells[end] is None,
    ensures
        game.overtaken(source, victim, end).position() == game.position().update(
            victim,
            None,
        ).update(source, None).update(
            end,
            Some(landed(game.position()[source].unwrap(), end)),
        ),
{
    let between = game.lifted(victim);
    lemma_lifted_linked(game, victim);
    assert(game.seated(source));
    assert(game.seated(victim));
    assert forall|cell: int| 0 <= cell < BOARD_SIZE implies between.position()[cell]
        == game.position().update(victim, None)[cell] by {
        assert(game.seated(cell));
    }
    assert(between.position() =~= game.position().update(victim, None));
    theorem_position_after_move(between, source, end);
}

/// The number of pieces a player has in play never grows. A pick takes
/// exactly one piece from it when the pick resolves into a capture and the
/// player is the opponent of the one who moved; any other pick leaves it
/// as it is.
pub proof fn theorem_counts_fall_by_captures_only(game: GameView, index: int, color: Color)
    requires
        game.wf(),
    ensures
        game.selected(index).pieces.count(color) == if game.select_outcome(index)
            == SelectionOutcome::Resolved(MoveResult::Captured) && color == game.turn.opponent() {
            game.pieces.count(color) - 1
        } else {
            game.pieces.count(color) as int
        },
        game.selected(index).pieces.count(color) <= game.pieces.count(color),
{
    if game.winner() is None {
        if let Some(source) = game.source {
            lemma_linked_by_content(game, game.deselected());
            lemma_applied_wf(game.deselected(), source as int, index);
            assert(game.deselected().position() =~= game.position());
        }
    }
}

/// A move onto an occupied cell is never made: the rules judge it illegal,
/// and the pick that asks for it is refused and changes nothing but the
/// selection.
pub proof fn theorem_occupied_target_rejected(game: GameView, source: int, target: int)
    requires
        game.wf(),
        0 <= target < BOARD_SIZE,
        game.cells[target] is Some,
    ensures
        resolution(game.position(), source, target) is Illegal,
        game.outcome(source, target) == MoveResult::Rejected,
        game.resolved(source, target) == game.deselected(),
        game.source == Some(source as usize) && 0 <= source < BOARD_SIZE ==> game.select_outcome(
            target,
        ) == SelectionOutcome::Rejected(GameError::IllegalMove) && game.selected(target)
            == game.deselected(),
{
}

/// True when the piece on `source` can jump from there along `dir` over an
/// enemy piece on `victim`, `j` cells away, onto the empty cell `target`
/// just beyond: every cell before `victim` is empty, and the piece is a king
/// unless `victim` is its neighbour.
pub open spec fn jump_along(
    position: Seq<Option<Checker>>,
    source: int,
    victim: int,
    target: int,
    dir: Direction,
    j: int,
) -> bool {
    &&& 0 <= source < BOARD_SIZE
    &&& 1 <= j
    &&& position[source] matches Some(mover) && (mover.rank == Rank::King || j == 1)
        && holds_enemy(position, mover, victim)
    &&& path_clear(position, source, dir, j)
    &&& diagonal_cell(source, dir, j) == Some(victim)
    &&& diagonal_cell(source, dir, j + 1) == Some(target)
    &&& position[target] is None
}

/// A capture is accepted if and only if, along one diagonal, the piece
/// reaches an enemy piece over empty cells, and the cell beyond the enemy
/// lies on the board, is empty and is the target. For a normal piece the
/// enemy is on the neighbouring cell.
pub proof fn theorem_capture_iff(
    position: Seq<Option<Checker>>,
    source: int,
    victim: int,
    target: int,
)
    ensures
        resolution(position, source, target) == Resolution::Capture(victim) <==> exists|
            dir: Direction,
            j: int,
        | jump_along(position, source, victim, target, dir, j),
{
    if resolution(position, source, target) == Resolution::Capture(victim) {
        let dir = heading(source, target);
        let k = distance(source, target);
        lemma_diagonal_target(source, target, dir, k);
        lemma_diagonal_inside(source, dir, k - 1, k);
        assert(jump_along(position, source, victim, target, dir, k - 1));
    }
    if exists|dir: Direction, j: int| jump_along(position, source, victim, target, dir, j) {
        let (dir, j) = choose|dir: Direction, j: int|
            jump_along(position, source, victim, target, dir, j);
        lemma_diagonal_step(source, dir, j, victim);
        lemma_diagonal_step(source, dir, j + 1, target);
        lemma_diagonal_target(source, target, dir, j + 1);
        assert(position[ray_cell(source, dir, j)] is Some);
        assert(!path_clear(position, source, dir, j + 1));
    }
}

/// For a normal piece a capture is accepted if and only if a neighbouring
/// cell holds an enemy piece and the cell beyond it on the same diagonal
/// lies on the board, is empty and is the target.
pub proof fn theorem_normal_capture_iff(
    position: Seq<Option<Checker>>,
    source: int,
    victim: int,
    target: int,
)
    requires
        0 <= source < BOARD_SIZE,
        position[source] matches Some(mover) && mover.rank == Rank::Normal,
    ensures
        resolution(position, source, target) == Resolution::Capture(victim) <==> exists|
            dir: Direction,
        |
            {
                &&& diagonal_cell(source, dir, 1) == Some(victim)
                &&& holds_enemy(position, position[source].unwrap(), victim)
                &&& #[trigger] diagonal_cell(source, dir, 2) == Some(target)
                &&& position[target] is None
            },
{
    theorem_capture_iff(position, source, victim, target);
    if resolution(position, source, target) == Resolution::Capture(victim) {
        let (dir, j) = choose|dir: Direction, j: int|
            jump_along(position, source, victim, target, dir, j);
        assert(diagonal_cell(source, dir, 2) == Some(target));
    }
    if exists|dir: Direction|
        {
            &&& diagonal_cell(source, dir, 1) == Some(victim)
            &&& holds_enemy(position, position[source].unwrap(), victim)
            &&& #[trigger] diagonal_cell(source, dir, 2) == Some(target)
            &&& position[target] is None
        } {
        let dir = choose|dir: Direction|
            {
                &&& diagonal_cell(source, dir, 1) == Some(victim)
                &&& holds_enemy(position, position[source].unwrap(), victim)
                &&& #[trigger] diagonal_cell(source, dir, 2) == Some(target)
                &&& position[target] is None
            };
        assert(jump_along(position, source, victim, target, dir, 1));
    }
}

/// With a piece selected, the pick of a target is answered with a capture
/// if and only if the selected piece can jump, along one diagonal, over an
/// enemy piece onto that target.
pub proof fn theorem_capture_accepted_iff(game: GameView, target: int)
    requires
        game.wf(),
        game.source is Some,
    ensures
        game.select_outcome(target) == SelectionOutcome::Resolved(MoveResult::Captured)
            <==> exists|victim: int, dir: Direction, j: int|
            jump_along(game.position(), game.source.unwrap() as int, victim, target, dir, j),
{
    let source = game.source.unwrap() as int;
    let position = game.position();
    if let Resolution::Capture(victim) = resolution(position, source, target) {
        theorem_capture_iff(position, source, victim, target);
        let (dir, j) = choose|dir: Direction, j: int|
            jump_along(position, source, victim, target, dir, j);
        assert(jump_along(position, source, victim, target, dir, j));
    }
    if exists|victim: int, dir: Direction, j: int|
        jump_along(position, source, victim, target, dir, j) {
        let (victim, dir, j) = choose|victim: int, dir: Direction, j: int|
            jump_along(position, source, victim, target, dir, j);
        theorem_capture_iff(position, source, victim, target);
        lemma_diagonal_step(source, dir, j + 1, target);
    }
}

/// After every accepted move the other player is to move, as long as
/// captures are not chained. Where they are, a simple move still passes the
/// turn and a capture keeps it.
pub proof fn theorem_turn_alternates(game: GameView, index: int)
    requires
        game.wf(),
    ensures
        !game.chain_captures && game.select_outcome(index) is Resolved ==> game.selected(
            index,
        ).turn == game.turn.opponent(),
        game.select_outcome(index) == SelectionOutcome::Resolved(MoveResult::Moved)
            ==> game.selected(index).turn == game.turn.opponent(),
        game.chain_captures && game.select_outcome(index) == SelectionOutcome::Resolved(
            MoveResult::Captured,
        ) ==> game.selected(index).turn == game.turn,
        !(game.select_outcome(index) is Resolved) ==> game.selected(index).turn == game.turn,
        game.turn.opponent() != game.turn,
{
    if game.winner() is None {
        if let Some(source) = game.source {
            lemma_linked_by_content(game, game.deselected());
            lemma_applied_wf(game.deselected(), source as int, index);
            assert(game.deselected().position() =~= game.position());
        }
    }
}

/// Once a player has no piece left, the other player is the winner, every
/// pick is refused because the match is over, and the state stays as it is.
pub proof fn theorem_win_is_final(game: GameView, index: int, color: Color)
    requires
        game.wf(),
        game.pieces.count(color) == 0,
    ensures
        game.winner() == Some(color.opponent()),
        game.select_outcome(index) == SelectionOutcome::Rejected(GameError::GameAlreadyOver),
        game.selected(index) == game,
{
}

} // verus!
