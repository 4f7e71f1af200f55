//! The rule engine: it keeps a state of play, takes picks of cells and
//! turns them into moves.

use vstd::prelude::*;
use crate::board::{empty_cells, Board};
use crate::game::{
    face, lemma_applied_wf, lemma_laid_out_grows, lemma_lifted_linked, lemma_linked_by_content,
    lemma_moved_linked, lemma_overtaken_linked, lemma_placed_linked, lemma_probe_judged,
    result_of, GameError, GameView, Scan, SelectionOutcome,
};
use crate::game_events::{
    Input, Signal, WinColorEvent, GREEN_WINS, PAUSE_STATE, RED_WINS, WIN_STATE,
};
use crate::geometry::{
    cell_coordinates, diagonal, diagonal_cell, is_playable, lemma_diagonal_playable,
    lemma_diagonal_step, neighbour, on_first_line, on_last_line, playable, Direction,
    BOARD_LENGTH, BOARD_SIZE,
};
use crate::layout::{cell_under, find_target_rect};
use crate::pieces::{
    lemma_live_slots_bounded, Checker, Color, PieceSet, Pieces, Rank, MAX_PIECES,
};
use crate::rules::{barren, lemma_all_barren, path_clear, resolution, untouched, MoveResult};

verus! {

/// What the host needs to draw the board: the piece on each of the 64
/// cells, with its rank, and the number of pieces each player has in play.
#[derive(Debug)]
pub struct BoardSnapshot {
    pub cells: Vec<Option<Checker>>,
    pub green_count: usize,
    pub red_count: usize,
}

/// A match of checkers in progress.
pub struct BoardState {
    board: Board,
    pieces: PieceSet,
    source_index: Option<usize>,
    playing_color: Color,
    chain_captures: bool,
}

impl View for BoardState {
    type V = GameView;

    closed spec fn view(&self) -> GameView {
        GameView {
            cells: self.board@,
            pieces: self.pieces@,
            turn: self.playing_color,
            source: self.source_index,
            chain_captures: self.chain_captures,
        }
    }
}

impl BoardState {
    /// The state is well formed when its state of play is.
    pub open spec fn wf(&self) -> bool {
        self@.wf()
    }

    /// A match in its opening state: twelve normal pieces a side on the
    /// playable cells of the three rows nearest to each player, green to
    /// move.
    pub fn new() -> (state: BoardState)
        ensures
            state@ == GameView::opening(),
            state.wf(),
    {
        let mut state = BoardState {
            board: Board::new(),
            pieces: PieceSet::new(),
            source_index: None,
            playing_color: Color::Green,
            chain_captures: false,
        };
        state.setup();
        state
    }

    /// A match that starts from a layout, which names for each of the 64
    /// cells the colour and rank of the piece on it, with `playing` to move.
    /// Pieces get their slots in the order of the cells. Returns `None`
    /// when the layout cannot be played.
    pub fn from_layout(layout: &Vec<Option<(Color, Rank)>>, playing: Color) -> (made: Option<
        BoardState,
    >)
        ensures
            made is Some <==> GameView::playable_layout(layout@),
            made matches Some(state) ==> {
                &&& state.wf()
                &&& state@ == (GameView {
                    turn: playing,
                    source: None,
                    chain_captures: false,
                    ..GameView::laid_out(layout@, BOARD_SIZE as int)
                })
                &&& forall|cell: int|
                    0 <= cell < BOARD_SIZE ==> face(#[trigger] state@.position()[cell])
                        == layout@[cell]
            },
    {
        if layout.len() != BOARD_SIZE {
            return None;
        }
        let mut state = BoardState {
            board: Board::new(),
            pieces: PieceSet::new(),
            source_index: None,
            playing_color: playing,
            chain_captures: false,
        };
        proof {
            lemma_blank_linked(state@);
        }
        let mut cell: usize = 0;
        while cell < BOARD_SIZE
            invariant
                cell <= BOARD_SIZE,
                layout@.len() == BOARD_SIZE,
                state@ == (GameView {
                    turn: playing,
                    source: None,
                    chain_captures: false,
                    ..GameView::laid_out(layout@, cell as int)
                }),
                state@.linked(),
                state@.pieces.green_count == state@.pieces.green.len(),
                state@.pieces.red_count == state@.pieces.red.len(),
                forall|i: int| 0 <= i < cell && #[trigger] layout@[i] is Some ==> playable(i),
                forall|i: int| cell <= i < BOARD_SIZE ==> #[trigger] state@.cells[i] is None,
                forall|i: int| 0 <= i < cell ==> face(#[trigger] state@.checker_at(i)) == layout@[i],
            decreases BOARD_SIZE - cell,
        {
            let ghost before = state@;
            match layout[cell] {
                Some((color, rank)) => {
                    if !is_playable(cell) {
                        return None;
                    }
                    if !state.put_checker(cell, color, rank) {
                        proof {
                            lemma_laid_out_grows(layout@, cell + 1, BOARD_SIZE as int, color);
                        }
                        return None;
                    }
                    proof {
                        assert(state@ == before.placed(cell as int, color, rank));
                        assert forall|i: int| 0 <= i < cell + 1 implies face(
                            #[trigger] state@.checker_at(i),
                        ) == layout@[i] by {
                            if i < cell {
                                assert(before.seated(i));
                                assert(face(before.checker_at(i)) == layout@[i]);
                                assert(state@.cells[i] == before.cells[i]);
                            }
                        }
                    }
                },
                None => {},
            }
            cell += 1;
        }
        if state.pieces.count(Color::Green) == 0 && state.pieces.count(Color::Red) == 0 {
            return None;
        }
        proof {
            assert forall|i: int| 0 <= i < BOARD_SIZE implies face(
                #[trigger] state@.position()[i],
            ) == layout@[i] by {
                assert(face(state@.checker_at(i)) == layout@[i]);
            }
        }
        Some(state)
    }

    /// Puts a new piece on an empty playable cell, if its owner has room for
    /// one more. Returns whether the piece was put.
    fn put_checker(&mut self, cell: usize, color: Color, rank: Rank) -> (put: bool)
        requires
            old(self)@.linked(),
            cell < BOARD_SIZE,
            old(self)@.cells[cell as int] is None,
            playable(cell as int),
        ensures
            put == (old(self)@.pieces.of(color).len() < MAX_PIECES),
            final(self)@ == if put {
                old(self)@.placed(cell as int, color, rank)
            } else {
                old(self)@
            },
            final(self)@.linked(),
    {
        proof {
            if self@.pieces.of(color).len() < MAX_PIECES {
                lemma_placed_linked(self@, cell as int, color, rank);
            }
        }
        match self.pieces.add(color, rank, cell) {
            Some(piece) => {
                self.board.place(cell, piece);
                true
            },
            None => false,
        }
    }

    /// Populates an empty board with the pieces that open a match: cell by
    /// cell, green pieces on the playable cells of the top three rows and
    /// red ones on those of the bottom three.
    fn setup(&mut self)
        requires
            old(self)@.cells == empty_cells(),
            old(self)@.pieces == Pieces::empty(),
        ensures
            final(self)@ == (GameView {
                cells: GameView::opening().cells,
                pieces: GameView::opening().pieces,
                ..old(self)@
            }),
            final(self)@.linked(),
    {
        proof {
            lemma_blank_linked(self@);
        }
        let mut flat_index: usize = 0;
        while flat_index < BOARD_SIZE
            invariant
                flat_index <= BOARD_SIZE,
                self@.linked(),
                self@.turn == old(self)@.turn,
                self@.source == old(self)@.source,
                self@.chain_captures == old(self)@.chain_captures,
                self@.cells =~= Seq::new(
                    BOARD_SIZE as nat,
                    |cell: int|
                        if cell < flat_index {
                            GameView::opening_cell(cell)
                        } else {
                            None
                        },
                ),
                self@.pieces.green =~= GameView::opening_pieces(Color::Green).take(
                    greens_before(flat_index as int),
                ),
                self@.pieces.red =~= GameView::opening_pieces(Color::Red).take(
                    reds_before(flat_index as int),
                ),
                self@.pieces.green_count == greens_before(flat_index as int),
                self@.pieces.red_count == reds_before(flat_index as int),
            decreases BOARD_SIZE - flat_index,
        {
            let (_, y) = cell_coordinates(flat_index);
            let ghost before = self@;
            proof {
                lemma_opening_step(flat_index as int);
            }
            if is_playable(flat_index) {
                if y < BOARD_LENGTH / 2 - 1 {
                    self.put_checker(flat_index, Color::Green, Rank::Normal);
                    assert(self@ == before.placed(flat_index as int, Color::Green, Rank::Normal));
                } else if y > BOARD_LENGTH / 2 {
                    self.put_checker(flat_index, Color::Red, Rank::Normal);
                    assert(self@ == before.placed(flat_index as int, Color::Red, Rank::Normal));
                }
            }
            flat_index += 1;
        }
        proof {
            assert(self@.cells =~= GameView::opening().cells);
            assert(self@.pieces.green =~= GameView::opening().pieces.green);
            assert(self@.pieces.red =~= GameView::opening().pieces.red);
        }
    }

    /// The piece on a cell, with its rank.
    pub fn checker_at(&self, index: usize) -> (found: Option<Checker>)
        requires
            self@.linked(),
            index < BOARD_SIZE,
        ensures
            found == self@.checker_at(index as int),
            found == self@.position()[index as int],
    {
        proof {
            assert(self@.seated(index as int));
        }
        match self.board.occupant(index) {
            Some(piece) => Some(
                Checker { color: piece.color, rank: self.pieces.rank(piece), index: piece.index },
            ),
            None => None,
        }
    }

    /// Passes the turn to the other player. Nothing stays selected.
    pub fn switch_turn(&mut self)
        ensures
            final(self)@ == old(self)@.switched(),
            old(self)@.linked() ==> final(self)@.linked(),
            old(self).wf() ==> final(self).wf(),
    {
        self.playing_color = self.playing_color.opponent();
        self.source_index = None;
        proof {
            if old(self)@.linked() {
                lemma_linked_by_content(old(self)@, self@);
            }
        }
    }

    /// Concludes a move: passes the turn as the result asks.
    fn conclude(&mut self, result: MoveResult)
        ensures
            final(self)@ == old(self)@.concluded(result),
            old(self)@.linked() ==> final(self)@.linked(),
    {
        match result {
            MoveResult::Moved => self.switch_turn(),
            MoveResult::Captured => {
                if !self.chain_captures {
                    self.switch_turn();
                }
            },
            MoveResult::Rejected => {},
        }
    }

    /// Takes the piece on `source` to the empty cell `target` and makes it a
    /// king if that is its far row.
    fn move_to_empty(&mut self, source: usize, target: usize)
        requires
            old(self)@.linked(),
            source < BOARD_SIZE,
            target < BOARD_SIZE,
            old(self)@.cells[source as int] is Some,
            old(self)@.cells[target as int] is None,
            playable(target as int),
        ensures
            final(self)@ == old(self)@.moved(source as int, target as int),
            final(self)@.linked(),
    {
        proof {
            lemma_moved_linked(self@, source as int, target as int);
            assert(self@.seated(source as int));
        }
        if let Some(piece) = self.board.occupant(source) {
            self.board.clear(source);
            self.board.place(target, piece);
            self.pieces.relocate(piece, target);
            let crowned = match piece.color {
                Color::Green => on_last_line(target),
                Color::Red => on_first_line(target),
            };
            if crowned {
                self.pieces.promote(piece);
            }
        }
    }

    /// Captures the piece on `victim` with the piece on `source`, which
    /// lands on the empty cell `end`.
    fn overtake(&mut self, source: usize, victim: usize, end: usize)
        requires
            old(self)@.linked(),
            source < BOARD_SIZE,
            victim < BOARD_SIZE,
            end < BOARD_SIZE,
            old(self)@.cells[source as int] is Some,
            old(self)@.cells[victim as int] is Some,
            old(self)@.holds(
                victim as int,
                old(self)@.cells[source as int].unwrap().color.opponent(),
            ),
            old(self)@.cells[end as int] is None,
            playable(end as int),
        ensures
            final(self)@ == old(self)@.overtaken(source as int, victim as int, end as int),
            final(self)@.linked(),
    {
        proof {
            lemma_overtaken_linked(self@, source as int, victim as int, end as int);
            assert(self@.seated(victim as int));
        }
        if let Some(captured) = self.board.occupant(victim) {
            self.pieces.remove(captured);
            self.board.clear(victim);
        }
        proof {
            lemma_lifted_linked(old(self)@, victim as int);
            assert(self@ == old(self)@.lifted(victim as int));
        }
        self.move_to_empty(source, end);
    }

    /// Captures the piece on `victim` with the piece on `source` if the two
    /// belong to different players and the landing cell `end` is empty.
    /// Returns whether the capture was made.
    fn try_to_overtake(&mut self, source: usize, victim: usize, end: usize) -> (captured: bool)
        requires
            old(self)@.linked(),
            source < BOARD_SIZE,
            victim < BOARD_SIZE,
            end < BOARD_SIZE,
            old(self)@.cells[source as int] is Some,
            old(self)@.cells[victim as int] is Some,
            playable(end as int),
        ensures
            captured == (old(self)@.cells[end as int] is None && old(self)@.holds(
                victim as int,
                old(self)@.cells[source as int].unwrap().color.opponent(),
            )),
            final(self)@ == if captured {
                old(self)@.overtaken(source as int, victim as int, end as int)
            } else {
                old(self)@
            },
            final(self)@.linked(),
    {
        let mover = self.checker_at(source);
        let other = self.checker_at(victim);
        let is_enemy = match (mover, other) {
            (Some(mover), Some(other)) => mover.is_different_color(&other),
            _ => false,
        };
        let is_next_empty = self.board.occupant(end).is_none();
        if is_enemy && is_next_empty {
            self.overtake(source, victim, end);
            true
        } else {
            false
        }
    }

    /// Looks one step beyond the piece on `victim` along `dir`. If that cell
    /// is `target`, tries to capture the piece on `victim` by landing there.
    /// Returns whether the capture was made.
    fn check_next(&mut self, source: usize, victim: usize, target: usize, dir: Direction) -> (captured:
        bool)
        requires
            old(self)@.linked(),
            source < BOARD_SIZE,
            victim < BOARD_SIZE,
            target < BOARD_SIZE,
            old(self)@.cells[source as int] is Some,
            old(self)@.cells[victim as int] is Some,
        ensures
            captured == (diagonal_cell(victim as int, dir, 1) == Some(target as int) && old(
                self,
            )@.cells[target as int] is None && old(self)@.holds(
                victim as int,
                old(self)@.cells[source as int].unwrap().color.opponent(),
            )),
            final(self)@ == if captured {
                old(self)@.overtaken(source as int, victim as int, target as int)
            } else {
                old(self)@
            },
            final(self)@.linked(),
    {
        match neighbour(victim, dir) {
            Some(next_diagonal) => {
                if next_diagonal == target {
                    proof {
                        assert(self@.seated(victim as int));
                        lemma_diagonal_playable(victim as int, dir, 1);
                    }
                    self.try_to_overtake(source, victim, target)
                } else {
                    false
                }
            },
            None => false,
        }
    }

    /// Looks at the `j`-th cell from `source` along `dir`. An empty cell
    /// that is `target` takes the piece; an empty cell that is not lets the
    /// diagonal go on; an occupied cell ends the diagonal, with a capture
    /// if `target` lies just beyond an enemy piece and is empty.
    fn iterator_diagonal(&mut self, source: usize, target: usize, j: usize, dir: Direction) -> (scan:
        Scan)
        requires
            old(self)@.linked(),
            source < BOARD_SIZE,
            target < BOARD_SIZE,
            old(self)@.cells[source as int] is Some,
            1 <= j,
        ensures
            scan == old(self)@.probe(source as int, target as int, dir, j as int),
            final(self)@ == old(self)@.probed(source as int, target as int, dir, j as int),
            final(self)@.linked(),
    {
        match diagonal(source, dir, j) {
            None => Scan::Blocked,
            Some(next_diagonal) => {
                proof {
                    assert(self@.seated(source as int));
                    lemma_diagonal_playable(source as int, dir, j as int);
                    lemma_diagonal_step(source as int, dir, j as int, next_diagonal as int);
                }
                if self.board.occupant(next_diagonal).is_none() {
                    if next_diagonal == target {
                        self.move_to_empty(source, target);
                        self.conclude(MoveResult::Moved);
                        Scan::Done(MoveResult::Moved)
                    } else {
                        Scan::Continue
                    }
                } else if self.check_next(source, next_diagonal, target, dir) {
                    self.conclude(MoveResult::Captured);
                    Scan::Done(MoveResult::Captured)
                } else {
                    Scan::Blocked
                }
            },
        }
    }

    /// Walks from `source` along `dir`, one cell at a time, until a move is
    /// made or the diagonal ends. Returns the result of the move, or `None`
    /// when this heading holds no legal move to `target`.
    fn scan_ray(&mut self, source: usize, target: usize, dir: Direction) -> (found: Option<
        MoveResult,
    >)
        requires
            old(self)@.linked(),
            source < BOARD_SIZE,
            target < BOARD_SIZE,
            old(self)@.checker_at(source as int) matches Some(mover) && mover.rank == Rank::King,
        ensures
            final(self)@.linked(),
            match found {
                Some(result) => result == result_of(
                    resolution(old(self)@.position(), source as int, target as int),
                ) && result != MoveResult::Rejected && final(self)@ == old(self)@.applied(
                    source as int,
                    target as int,
                ),
                None => final(self)@ == old(self)@ && barren(
                    old(self)@.position(),
                    source as int,
                    target as int,
                    dir,
                ),
            },
    {
        let mut j: usize = 1;
        while j < BOARD_LENGTH
            invariant
                1 <= j <= BOARD_LENGTH,
                source < BOARD_SIZE,
                target < BOARD_SIZE,
                self@ == old(self)@,
                self@.linked(),
                self@.checker_at(source as int) matches Some(mover) && mover.rank == Rank::King,
                path_clear(self@.position(), source as int, dir, j as int),
                untouched(source as int, target as int, dir, j as int),
            decreases BOARD_LENGTH - j,
        {
            proof {
                lemma_probe_judged(self@, source as int, target as int, dir, j as int);
            }
            match self.iterator_diagonal(source, target, j, dir) {
                Scan::Done(result) => {
                    return Some(result);
                },
                Scan::Blocked => {
                    return None;
                },
                Scan::Continue => {
                    j += 1;
                },
            }
        }
        proof {
            lemma_probe_judged(self@, source as int, target as int, dir, j as int);
        }
        None
    }

    /// Resolves a request for a king: tries each of the four diagonals in
    /// turn, as far as it is free.
    fn scan_diagonals(&mut self, source: usize, target: usize) -> (result: MoveResult)
        requires
            old(self)@.linked(),
            source < BOARD_SIZE,
            target < BOARD_SIZE,
            old(self)@.checker_at(source as int) matches Some(mover) && mover.rank == Rank::King,
        ensures
            result == result_of(resolution(old(self)@.position(), source as int, target as int)),
            final(self)@ == old(self)@.applied(source as int, target as int),
            final(self)@.linked(),
    {
        if let Some(result) = self.scan_ray(source, target, Direction::DownRight) {
            return result;
        }
        if let Some(result) = self.scan_ray(source, target, Direction::UpRight) {
            return result;
        }
        if let Some(result) = self.scan_ray(source, target, Direction::DownLeft) {
            return result;
        }
        if let Some(result) = self.scan_ray(source, target, Direction::UpLeft) {
            return result;
        }
        proof {
            lemma_all_barren(self@.position(), source as int, target as int);
        }
        MoveResult::Rejected
    }

    /// Looks at the cell next to `source` along `dir`. Returns the result of
    /// the move made there, or `None` when this heading holds no legal move
    /// of a normal piece to `target`.
    fn scan_neighbour(&mut self, source: usize, target: usize, dir: Direction) -> (found: Option<
        MoveResult,
    >)
        requires
            old(self)@.linked(),
            source < BOARD_SIZE,
            target < BOARD_SIZE,
            old(self)@.checker_at(source as int) matches Some(mover) && mover.rank
                == Rank::Normal,
        ensures
            final(self)@.linked(),
            match found {
                Some(result) => result == result_of(
                    resolution(old(self)@.position(), source as int, target as int),
                ) && result != MoveResult::Rejected && final(self)@ == old(self)@.applied(
                    source as int,
                    target as int,
                ),
                None => final(self)@ == old(self)@ && barren(
                    old(self)@.position(),
                    source as int,
                    target as int,
                    dir,
                ),
            },
    {
        proof {
            lemma_probe_judged(self@, source as int, target as int, dir, 1);
        }
        match self.iterator_diagonal(source, target, 1, dir) {
            Scan::Done(result) => Some(result),
            _ => None,
        }
    }

    /// Resolves a request for a normal piece: tries the neighbouring cell on
    /// each of the four diagonals in turn.
    fn scan_neighbourhood(&mut self, source: usize, target: usize) -> (result: MoveResult)
        requires
            old(self)@.linked(),
            source < BOARD_SIZE,
            target < BOARD_SIZE,
            old(self)@.checker_at(source as int) matches Some(mover) && mover.rank
                == Rank::Normal,
        ensures
            result == result_of(resolution(old(self)@.position(), source as int, target as int)),
            final(self)@ == old(self)@.applied(source as int, target as int),
            final(self)@.linked(),
    {
        if let Some(result) = self.scan_neighbour(source, target, Direction::DownRight) {
            return result;
        }
        if let Some(result) = self.scan_neighbour(source, target, Direction::UpRight) {
            return result;
        }
        if let Some(result) = self.scan_neighbour(source, target, Direction::DownLeft) {
            return result;
        }
        if let Some(result) = self.scan_neighbour(source, target, Direction::UpLeft) {
            return result;
        }
        proof {
            lemma_all_barren(self@.position(), source as int, target as int);
        }
        MoveResult::Rejected
    }

    /// The player to move.
    pub fn current_turn(&self) -> (turn: Color)
        ensures
            turn == self@.turn,
    {
        self.playing_color
    }

    /// The cell of the piece that was picked to move, if one was.
    pub fn selected(&self) -> (source: Option<usize>)
        ensures
            source == self@.source,
    {
        self.source_index
    }

    /// Number of pieces of one player that are in play.
    pub fn count(&self, color: Color) -> (n: usize)
        ensures
            n == self@.pieces.count(color),
    {
        self.pieces.count(color)
    }

    /// True when a capture leaves the turn with the capturing player.
    pub fn chain_captures(&self) -> (on: bool)
        ensures
            on == self@.chain_captures,
    {
        self.chain_captures
    }

    /// Chooses whether a capture leaves the turn with the capturing player,
    /// who may then capture again, or passes it on like any other move.
    pub fn set_chain_captures(&mut self, on: bool)
        requires
            old(self).wf(),
        ensures
            final(self)@ == (GameView { chain_captures: on, ..old(self)@ }),
            final(self).wf(),
    {
        self.chain_captures = on;
        proof {
            lemma_linked_by_content(old(self)@, self@);
        }
    }

    /// The winner, once a player has no piece left. That both players have
    /// none cannot happen in a well-formed state.
    pub fn check_win(&self) -> (winner: Option<Color>)
        requires
            self.wf(),
        ensures
            winner == self@.winner(),
            winner == Some(Color::Green) <==> self@.pieces.count(Color::Red) == 0,
            winner == Some(Color::Red) <==> self@.pieces.count(Color::Green) == 0,
    {
        if self.pieces.count(Color::Red) == 0 {
            Some(Color::Green)
        } else if self.pieces.count(Color::Green) == 0 {
            Some(Color::Red)
        } else {
            None
        }
    }

    /// The winner of the match, or `None` while it is open.
    pub fn winner(&self) -> (winner: Option<Color>)
        requires
            self.wf(),
        ensures
            winner == self@.winner(),
    {
        self.check_win()
    }

    /// Resolves a request to move the piece on `source` to `target`. The
    /// request is judged by the rules of movement, provided that the match
    /// is open and `source` holds a piece of the player to move; a legal
    /// move is made and the turn passes on as the state's policy says.
    /// Whatever the result, nothing stays selected.
    pub fn resolve(&mut self, source: usize, target: usize) -> (result: MoveResult)
        requires
            old(self).wf(),
        ensures
            result == old(self)@.outcome(source as int, target as int),
            final(self)@ == old(self)@.resolved(source as int, target as int),
            final(self).wf(),
    {
        let over = self.check_win().is_some();
        self.source_index = None;
        proof {
            lemma_linked_by_content(old(self)@, self@);
            lemma_applied_wf(self@, source as int, target as int);
            assert(self@.position() =~= old(self)@.position());
        }
        if over || source >= BOARD_SIZE || target >= BOARD_SIZE {
            return MoveResult::Rejected;
        }
        match self.checker_at(source) {
            None => MoveResult::Rejected,
            Some(mover) => {
                if mover.color != self.playing_color {
                    MoveResult::Rejected
                } else if mover.is_super() {
                    self.scan_diagonals(source, target)
                } else {
                    self.scan_neighbourhood(source, target)
                }
            },
        }
    }

    /// Takes a pick of the cell `index`.
    ///
    /// With nothing selected, the pick chooses the piece to move: it must
    /// name a cell of the board that holds a piece of the player to move,
    /// else it is refused as an invalid selection. With a piece selected,
    /// the pick names the target: the move is resolved, and in every case
    /// nothing stays selected. Once the match has a winner every pick is
    /// refused.
    pub fn select_cell(&mut self, index: usize) -> (outcome: SelectionOutcome)
        requires
            old(self).wf(),
        ensures
            outcome == old(self)@.select_outcome(index as int),
            final(self)@ == old(self)@.selected(index as int),
            final(self).wf(),
    {
        if self.check_win().is_some() {
            self.source_index = None;
            proof {
                lemma_linked_by_content(old(self)@, self@);
            }
            return SelectionOutcome::Rejected(GameError::GameAlreadyOver);
        }
        match self.source_index {
            None => {
                if index < BOARD_SIZE && self.holds_playing_color(index) {
                    self.source_index = Some(index);
                    proof {
                        lemma_linked_by_content(old(self)@, self@);
                    }
                    SelectionOutcome::AwaitingTarget
                } else {
                    SelectionOutcome::Rejected(GameError::InvalidSelection)
                }
            },
            Some(source) => {
                if index >= BOARD_SIZE {
                    self.source_index = None;
                    proof {
                        lemma_linked_by_content(old(self)@, self@);
                    }
                    return SelectionOutcome::Rejected(GameError::InvalidSelection);
                }
                match self.resolve(source, index) {
                    MoveResult::Rejected => SelectionOutcome::Rejected(GameError::IllegalMove),
                    result => SelectionOutcome::Resolved(result),
                }
            },
        }
    }

    /// True when the cell holds a piece of the player to move.
    pub fn holds_playing_color(&self, index: usize) -> (yes: bool)
        requires
            self@.linked(),
            index < BOARD_SIZE,
        ensures
            yes == self@.holds(index as int, self@.turn),
    {
        match self.board.occupant(index) {
            Some(piece) => piece.color == self.playing_color,
            None => false,
        }
    }

    /// The position and both counts, for whoever draws the board.
    pub fn snapshot(&self) -> (snapshot: BoardSnapshot)
        requires
            self.wf(),
        ensures
            snapshot.cells@ == self@.position(),
            snapshot.green_count == self@.pieces.count(Color::Green),
            snapshot.red_count == self@.pieces.count(Color::Red),
    {
        let mut cells: Vec<Option<Checker>> = Vec::new();
        let mut index: usize = 0;
        while index < BOARD_SIZE
            invariant
                index <= BOARD_SIZE,
                self@.linked(),
                cells@.len() == index,
                forall|i: int| 0 <= i < index ==> cells@[i] == self@.checker_at(i),
            decreases BOARD_SIZE - index,
        {
            cells.push(self.checker_at(index));
            index += 1;
        }
        assert(cells@ =~= self@.position());
        BoardSnapshot {
            cells,
            green_count: self.pieces.count(Color::Green),
            red_count: self.pieces.count(Color::Red),
        }
    }

    /// Starts the match anew from the opening state and returns its
    /// snapshot. The choice about chained captures stays as it is.
    pub fn initialize(&mut self) -> (snapshot: BoardSnapshot)
        ensures
            final(self)@ == (GameView {
                chain_captures: old(self)@.chain_captures,
                ..GameView::opening()
            }),
            final(self).wf(),
            snapshot.cells@ == final(self)@.position(),
            snapshot.green_count == 12,
            snapshot.red_count == 12,
    {
        let chain_captures = self.chain_captures;
        *self = BoardState::new();
        self.set_chain_captures(chain_captures);
        self.snapshot()
    }

    /// The cell under a point of the screen, if it holds a piece of the
    /// player to move.
    pub fn find_source_checker_rect(&self, px: i32, py: i32) -> (found: Option<usize>)
        requires
            self.wf(),
        ensures
            match cell_under(px as int, py as int) {
                Some(cell) if self@.holds(cell, self@.turn) => found == Some(cell as usize),
                _ => found is None,
            },
    {
        match find_target_rect(px, py) {
            Some(index) => {
                if self.holds_playing_color(index) {
                    Some(index)
                } else {
                    None
                }
            },
            None => None,
        }
    }

    /// Reacts to what the player did. A click on a cell is a pick of that
    /// cell; a click beside the board changes nothing. Closing the window
    /// asks to quit, the escape key asks for the pause screen, and
    /// everything else lets the match go on.
    pub fn handle_event(&mut self, input: Input) -> (signal: Signal)
        requires
            old(self).wf(),
        ensures
            signal == match input {
                Input::Quit => Signal::Quit,
                Input::Escape => Signal::GotoState(PAUSE_STATE),
                _ => Signal::Continue,
            },
            final(self)@ == match input {
                Input::LeftClick { x, y } => match cell_under(x as int, y as int) {
                    Some(cell) => old(self)@.selected(cell),
                    None => old(self)@,
                },
                _ => old(self)@,
            },
            final(self).wf(),
    {
        match input {
            Input::Quit => Signal::Quit,
            Input::Escape => Signal::GotoState(PAUSE_STATE),
            Input::LeftClick { x, y } => {
                let picked = match self.source_index {
                    None => self.find_source_checker_rect(x, y),
                    Some(_) => find_target_rect(x, y),
                };
                if let Some(index) = picked {
                    self.select_cell(index);
                }
                Signal::Continue
            },
            _ => Signal::Continue,
        }
    }

    /// Tells the machine what comes next: once the match has a winner, the
    /// screen that names it, together with the event that carries the
    /// winner's colour; until then, more of the match.
    pub fn update(&self) -> (next: (Signal, Option<WinColorEvent>))
        requires
            self.wf(),
        ensures
            next == match self@.winner() {
                Some(Color::Green) => (
                    Signal::GotoState(WIN_STATE),
                    Some(WinColorEvent { color: GREEN_WINS }),
                ),
                Some(Color::Red) => (
                    Signal::GotoState(WIN_STATE),
                    Some(WinColorEvent { color: RED_WINS }),
                ),
                None => (Signal::Continue, None),
            },
    {
        match self.check_win() {
            Some(Color::Green) => (Signal::GotoState(WIN_STATE), Some(WinColorEvent::new_green())),
            Some(Color::Red) => (Signal::GotoState(WIN_STATE), Some(WinColorEvent::new_red())),
            None => (Signal::Continue, None),
        }
    }
}

/// Number of playable cells before `cell`.
spec fn playable_before(cell: int) -> int {
    4 * (cell / 8) + if (cell / 8) % 2 == 0 {
        (cell % 8 + 1) / 2
    } else {
        (cell % 8) / 2
    }
}

/// Number of green pieces that open a match on the cells before `cell`.
spec fn greens_before(cell: int) -> int {
    if cell >= 24 {
        12
    } else {
        playable_before(cell)
    }
}

/// Number of red pieces that open a match on the cells before `cell`.
spec fn reds_before(cell: int) -> int {
    if cell <= 40 {
        0
    } else {
        playable_before(cell) - 20
    }
}

/// How the numbers of pieces put on the board grow from one cell to the
/// next while the opening state is set up, and which slot and cell belong
/// together.
proof fn lemma_opening_step(cell: int)
    requires
        0 <= cell < BOARD_SIZE,
    ensures
        0 <= greens_before(cell) <= greens_before(cell + 1) <= 12,
        0 <= reds_before(cell) <= reds_before(cell + 1) <= 12,
        greens_before(0) == 0,
        reds_before(0) == 0,
        greens_before(64) == 12,
        reds_before(64) == 12,
        match GameView::opening_cell(cell) {
            Some(piece) => match piece.color {
                Color::Green => {
                    &&& piece.index == greens_before(cell)
                    &&& greens_before(cell + 1) == greens_before(cell) + 1
                    &&& reds_before(cell + 1) == reds_before(cell)
                    &&& GameView::opening_home(Color::Green, piece.index as int) == cell
                },
                Color::Red => {
                    &&& piece.index == reds_before(cell)
                    &&& reds_before(cell + 1) == reds_before(cell) + 1
                    &&& greens_before(cell + 1) == greens_before(cell)
                    &&& GameView::opening_home(Color::Red, piece.index as int) == cell
                },
            },
            None => {
                &&& greens_before(cell + 1) == greens_before(cell)
                &&& reds_before(cell + 1) == reds_before(cell)
            },
        },
{
    let x = cell % 8;
    let y = cell / 8;
    assert(cell == 8 * y + x);
    assert(0 <= x < 8 && 0 <= y < 8);
    if x == 7 {
        assert((cell + 1) / 8 == y + 1 && (cell + 1) % 8 == 0);
    } else {
        assert((cell + 1) / 8 == y && (cell + 1) % 8 == x + 1);
    }
}

/// On an empty board without pieces, board and pieces agree.
proof fn lemma_blank_linked(game: GameView)
    requires
        game.cells == empty_cells(),
        game.pieces == Pieces::empty(),
    ensures
        game.linked(),
{
    lemma_live_slots_bounded(game.pieces.green);
    lemma_live_slots_bounded(game.pieces.red);
    assert forall|cell: int| 0 <= cell < BOARD_SIZE implies #[trigger] game.seated(cell) by {}
}

} // verus!
