//! The game as a mathematical object: what a state of play is, when it is
//! well formed, and what every request does to it.

use vstd::prelude::*;
use crate::board::empty_cells;
use crate::geometry::{
    cell_of, diagonal_cell, lemma_diagonal_ends, lemma_diagonal_inside, lemma_diagonal_playable,
    lemma_diagonal_step, line, playable, ray_cell, Direction, BOARD_SIZE,
};
use crate::pieces::{
    lemma_added_wf, lemma_pieces_wf_preserved, Checker, Color, Piece, PieceRef, Pieces, Rank,
    MAX_PIECES,
};
use crate::rules::{
    barren, distance, heading, lemma_diagonal_target, on_diagonal, path_clear, promotes,
    resolution, untouched, MoveResult, Resolution,
};

verus! {

/// Why a pick was refused.
#[derive(Debug, Clone, Copy, PartialEq, Eq, Structural)]
pub enum GameError {
    /// The picked cell is off the board, or it was picked as the piece to
    /// move and does not hold a piece of the player to move.
    InvalidSelection,
    /// The two picked cells match neither a simple move nor a capture.
    IllegalMove,
    /// The match has a winner; nothing moves any more.
    GameAlreadyOver,
}

/// What a pick of a cell led to.
#[derive(Debug, Clone, Copy, PartialEq, Eq, Structural)]
pub enum SelectionOutcome {
    /// The piece to move is chosen; the next pick names where it goes.
    AwaitingTarget,
    /// The move was made; the result is `Moved` or `Captured`.
    Resolved(MoveResult),
    /// The pick was refused and nothing is selected any more.
    Rejected(GameError),
}

/// What one look at a cell of a diagonal found.
#[derive(Debug, Clone, Copy, PartialEq, Eq, Structural)]
pub enum Scan {
    /// The cell is empty and is not the target: the diagonal goes on.
    Continue,
    /// The diagonal ends here without a move.
    Blocked,
    /// A move was made.
    Done(MoveResult),
}

/// Colour and rank of the piece on a cell, as a layout names them.
pub open spec fn face(checker: Option<Checker>) -> Option<(Color, Rank)> {
    match checker {
        Some(checker) => Some((checker.color, checker.rank)),
        None => None,
    }
}

/// The result that a judgement of the rules is reported as.
pub open spec fn result_of(judgement: Resolution) -> MoveResult {
    match judgement {
        Resolution::Move => MoveResult::Moved,
        Resolution::Capture(_) => MoveResult::Captured,
        Resolution::Illegal => MoveResult::Rejected,
    }
}

/// A state of play.
pub struct GameView {
    /// For each of the 64 cells, the piece on it.
    pub cells: Seq<Option<PieceRef>>,
    /// The pieces of both players.
    pub pieces: Pieces,
    /// The player to move.
    pub turn: Color,
    /// The cell of the piece that was picked to move, if one was.
    pub source: Option<usize>,
    /// When set, a capture leaves the turn with the capturing player.
    pub chain_captures: bool,
}

impl GameView {
    /// True when `cell` holds a piece of `color`.
    pub open spec fn holds(self, cell: int, color: Color) -> bool {
        match self.cells[cell] {
            Some(piece) => piece.color == color,
            None => false,
        }
    }

    /// The piece on a cell, with its rank.
    pub open spec fn checker_at(self, cell: int) -> Option<Checker> {
        match self.cells[cell] {
            Some(piece) => Some(
                Checker {
                    color: piece.color,
                    rank: self.pieces.get(piece).rank,
                    index: piece.index,
                },
            ),
            None => None,
        }
    }

    /// The position: for each cell, the piece on it with its rank.
    pub open spec fn position(self) -> Seq<Option<Checker>> {
        Seq::new(BOARD_SIZE as nat, |cell: int| self.checker_at(cell))
    }

    /// A cell is seated when it is empty, or is playable and holds a piece
    /// that records this very cell as its own.
    pub open spec fn seated(self, cell: int) -> bool {
        match self.cells[cell] {
            Some(piece) => self.pieces.has(piece) && self.pieces.get(piece).cell == Some(
                cell as usize,
            ) && playable(cell),
            None => true,
        }
    }

    /// A piece is standing when it is captured, or when the cell that it
    /// records holds this very piece.
    pub open spec fn standing(self, piece: PieceRef) -> bool {
        match self.pieces.get(piece).cell {
            Some(cell) => cell < BOARD_SIZE && self.cells[cell as int] == Some(piece),
            None => true,
        }
    }

    /// Board and pieces agree: the pieces in play and the occupied cells
    /// correspond one to one.
    pub open spec fn linked(self) -> bool {
        &&& self.cells.len() == BOARD_SIZE
        &&& self.pieces.wf()
        &&& forall|cell: int| 0 <= cell < BOARD_SIZE ==> #[trigger] self.seated(cell)
        &&& forall|piece: PieceRef| #[trigger] self.pieces.in_play(piece) ==> self.standing(piece)
    }

    /// The winner: the player whose opponent has no piece left.
    pub open spec fn winner(self) -> Option<Color> {
        if self.pieces.count(Color::Red) == 0 {
            Some(Color::Green)
        } else if self.pieces.count(Color::Green) == 0 {
            Some(Color::Red)
        } else {
            None
        }
    }

    /// A state of play is well formed when board and pieces agree, at least
    /// one piece is in play, and a selected cell holds a piece of the player
    /// to move in a match that is not over.
    pub open spec fn wf(self) -> bool {
        &&& self.linked()
        &&& self.pieces.count(Color::Green) + self.pieces.count(Color::Red) > 0
        &&& match self.source {
            Some(cell) => cell < BOARD_SIZE && self.holds(cell as int, self.turn)
                && self.winner() is None,
            None => true,
        }
    }

    /// The state after a new piece of `color` and `rank` was put on the empty
    /// cell `cell`. The piece takes the next free slot of its owner.
    pub open spec fn placed(self, cell: int, color: Color, rank: Rank) -> GameView {
        GameView {
            cells: self.cells.update(
                cell,
                Some(PieceRef { color, index: self.pieces.of(color).len() as usize }),
            ),
            pieces: self.pieces.added(color, rank, cell as usize),
            ..self
        }
    }

    /// An empty board, green to move.
    pub open spec fn blank() -> GameView {
        GameView {
            cells: empty_cells(),
            pieces: Pieces::empty(),
            turn: Color::Green,
            source: None,
            chain_captures: false,
        }
    }

    /// The state in which the pieces that a layout names for its first `n`
    /// cells stand on an empty board, put there in the order of the cells.
    pub open spec fn laid_out(layout: Seq<Option<(Color, Rank)>>, n: int) -> GameView
        decreases n,
    {
        if n <= 0 {
            GameView::blank()
        } else {
            let before = GameView::laid_out(layout, n - 1);
            match layout[n - 1] {
                Some((color, rank)) => before.placed(n - 1, color, rank),
                None => before,
            }
        }
    }

    /// A layout can be played when it names a piece or nothing for each of
    /// the 64 cells, puts pieces on playable cells only, gives no player
    /// more than `MAX_PIECES` pieces, and is not empty.
    pub open spec fn playable_layout(layout: Seq<Option<(Color, Rank)>>) -> bool {
        let pieces = GameView::laid_out(layout, BOARD_SIZE as int).pieces;
        &&& layout.len() == BOARD_SIZE
        &&& forall|cell: int|
            0 <= cell < BOARD_SIZE && #[trigger] layout[cell] is Some ==> playable(cell)
        &&& pieces.green.len() <= MAX_PIECES
        &&& pieces.red.len() <= MAX_PIECES
        &&& pieces.green.len() + pieces.red.len() >= 1
    }

    /// The piece that opens the match on a cell: green normal pieces on the
    /// playable cells of the three top rows, red ones on those of the three
    /// bottom rows, each numbered in the order of the cells.
    pub open spec fn opening_cell(cell: int) -> Option<PieceRef> {
        if playable(cell) && line(cell) < 3 {
            Some(PieceRef { color: Color::Green, index: (cell / 2) as usize })
        } else if playable(cell) && line(cell) > 4 {
            Some(PieceRef { color: Color::Red, index: ((cell - 40) / 2) as usize })
        } else {
            None
        }
    }

    /// The cell on which the piece in `slot` opens the match.
    pub open spec fn opening_home(color: Color, slot: int) -> int {
        let row = match color {
            Color::Green => slot / 4,
            Color::Red => slot / 4 + 5,
        };
        cell_of(2 * (slot % 4) + row % 2, row)
    }

    /// The pieces of one player as the match opens.
    pub open spec fn opening_pieces(color: Color) -> Seq<Piece> {
        Seq::new(
            12,
            |slot: int|
                Piece {
                    rank: Rank::Normal,
                    cell: Some(GameView::opening_home(color, slot) as usize),
                },
        )
    }

    /// The state in which every match opens: twelve normal pieces a side,
    /// green to move, nothing selected.
    pub open spec fn opening() -> GameView {
        GameView {
            cells: Seq::new(BOARD_SIZE as nat, |cell: int| GameView::opening_cell(cell)),
            pieces: Pieces {
                green: GameView::opening_pieces(Color::Green),
                red: GameView::opening_pieces(Color::Red),
                green_count: 12,
                red_count: 12,
            },
            turn: Color::Green,
            source: None,
            chain_captures: false,
        }
    }

    /// The state with nothing selected.
    pub open spec fn deselected(self) -> GameView {
        GameView { source: None, ..self }
    }

    /// The state after the turn passed to the other player.
    pub open spec fn switched(self) -> GameView {
        GameView { turn: self.turn.opponent(), source: None, ..self }
    }

    /// The state after the piece on `source` went to the empty cell
    /// `target`. The piece becomes a king when it lands on its far row.
    pub open spec fn moved(self, source: int, target: int) -> GameView {
        let piece = self.cells[source].unwrap();
        let pieces = self.pieces.relocated(piece, target as usize);
        GameView {
            cells: self.cells.update(source, None).update(target, Some(piece)),
            pieces: if promotes(piece.color, target) {
                pieces.promoted(piece)
            } else {
                pieces
            },
            ..self
        }
    }

    /// The state after the piece on `victim` was taken off the board.
    pub open spec fn lifted(self, victim: int) -> GameView {
        GameView {
            cells: self.cells.update(victim, None),
            pieces: self.pieces.removed(self.cells[victim].unwrap()),
            ..self
        }
    }

    /// The state after the piece on `source` captured the piece on `victim`
    /// and landed on the empty cell `end`.
    pub open spec fn overtaken(self, source: int, victim: int, end: int) -> GameView {
        self.lifted(victim).moved(source, end)
    }

    /// The state after a move with the given result was made: the turn
    /// passes to the other player, unless the move was a capture and
    /// captures may be chained.
    pub open spec fn concluded(self, result: MoveResult) -> GameView {
        match result {
            MoveResult::Moved => self.switched(),
            MoveResult::Captured => if self.chain_captures {
                self
            } else {
                self.switched()
            },
            MoveResult::Rejected => self,
        }
    }

    /// The state after the rules were applied to a request: a legal move is
    /// made and concluded, an illegal one changes nothing.
    pub open spec fn applied(self, source: int, target: int) -> GameView {
        match resolution(self.position(), source, target) {
            Resolution::Move => self.moved(source, target).concluded(MoveResult::Moved),
            Resolution::Capture(victim) => self.overtaken(source, victim, target).concluded(
                MoveResult::Captured,
            ),
            Resolution::Illegal => self,
        }
    }

    /// How a request to move is judged: by the rules of movement, once the
    /// match is still open and `source` holds a piece of the player to move.
    pub open spec fn verdict(self, source: int, target: int) -> Resolution {
        if self.winner() is Some || !(0 <= source < BOARD_SIZE) || !self.holds(source, self.turn) {
            Resolution::Illegal
        } else {
            resolution(self.position(), source, target)
        }
    }

    /// The result of a request to move.
    pub open spec fn outcome(self, source: int, target: int) -> MoveResult {
        result_of(self.verdict(source, target))
    }

    /// The state after a request to move: whatever the verdict, nothing is
    /// selected any more.
    pub open spec fn resolved(self, source: int, target: int) -> GameView {
        match self.verdict(source, target) {
            Resolution::Illegal => self.deselected(),
            _ => self.deselected().applied(source, target),
        }
    }

    /// What a pick of the cell `index` leads to.
    pub open spec fn select_outcome(self, index: int) -> SelectionOutcome {
        if self.winner() is Some {
            SelectionOutcome::Rejected(GameError::GameAlreadyOver)
        } else {
            match self.source {
                None => if 0 <= index < BOARD_SIZE && self.holds(index, self.turn) {
                    SelectionOutcome::AwaitingTarget
                } else {
                    SelectionOutcome::Rejected(GameError::InvalidSelection)
                },
                Some(source) => if !(0 <= index < BOARD_SIZE) {
                    SelectionOutcome::Rejected(GameError::InvalidSelection)
                } else {
                    match self.outcome(source as int, index) {
                        MoveResult::Rejected => SelectionOutcome::Rejected(GameError::IllegalMove),
                        result => SelectionOutcome::Resolved(result),
                    }
                },
            }
        }
    }

    /// The state after a pick of the cell `index`.
    pub open spec fn selected(self, index: int) -> GameView {
        if self.winner() is Some {
            self.deselected()
        } else {
            match self.source {
                None => if 0 <= index < BOARD_SIZE && self.holds(index, self.turn) {
                    GameView { source: Some(index as usize), ..self }
                } else {
                    self
                },
                Some(source) => self.resolved(source as int, index),
            }
        }
    }

    /// What a look at the `j`-th cell from `source` along `dir` finds, on the
    /// way to `target`.
    pub open spec fn probe(self, source: int, target: int, dir: Direction, j: int) -> Scan {
        match diagonal_cell(source, dir, j) {
            None => Scan::Blocked,
            Some(cell) => if self.cells[cell] is None {
                if cell == target {
                    Scan::Done(MoveResult::Moved)
                } else {
                    Scan::Continue
                }
            } else if diagonal_cell(source, dir, j + 1) == Some(target) && self.cells[target]
                is None && self.holds(cell, self.cells[source].unwrap().color.opponent()) {
                Scan::Done(MoveResult::Captured)
            } else {
                Scan::Blocked
            },
        }
    }

    /// The state after a look at the `j`-th cell from `source` along `dir`.
    pub open spec fn probed(self, source: int, target: int, dir: Direction, j: int) -> GameView {
        match self.probe(source, target, dir, j) {
            Scan::Done(MoveResult::Moved) => self.moved(source, target).concluded(
                MoveResult::Moved,
            ),
            Scan::Done(MoveResult::Captured) => self.overtaken(
                source,
                ray_cell(source, dir, j),
                target,
            ).concluded(MoveResult::Captured),
            _ => self,
        }
    }
}

/// Whether board and pieces agree depends on the board and the pieces alone,
/// not on the turn or on what is selected.
pub proof fn lemma_linked_by_content(game: GameView, other: GameView)
    requires
        game.linked(),
        other.cells == game.cells,
        other.pieces == game.pieces,
    ensures
        other.linked(),
{
    assert forall|cell: int| 0 <= cell < BOARD_SIZE implies #[trigger] other.seated(cell) by {
        assert(game.seated(cell));
    }
    assert forall|piece: PieceRef| #[trigger] other.pieces.in_play(piece) implies other.standing(
        piece,
    ) by {
        assert(game.standing(piece));
    }
}

/// A new piece on an empty playable cell keeps board and pieces in
/// agreement, as long as its owner has room for it.
pub proof fn lemma_placed_linked(game: GameView, cell: int, color: Color, rank: Rank)
    requires
        game.linked(),
        0 <= cell < BOARD_SIZE,
        game.cells[cell] is None,
        playable(cell),
        game.pieces.of(color).len() < MAX_PIECES,
    ensures
        game.placed(cell, color, rank).linked(),
{
    let after = game.placed(cell, color, rank);
    let piece = PieceRef { color, index: game.pieces.of(color).len() as usize };
    lemma_added_wf(game.pieces, color, rank, cell as usize);
    assert forall|other: int| 0 <= other < BOARD_SIZE implies #[trigger] after.seated(other) by {
        assert(game.seated(other));
    }
    assert forall|other: PieceRef| #[trigger] after.pieces.in_play(other) implies after.standing(
        other,
    ) by {
        if other != piece {
            assert(game.pieces.in_play(other));
            assert(game.standing(other));
        }
    }
}

/// Laying out more cells never takes a piece away.
pub proof fn lemma_laid_out_grows(layout: Seq<Option<(Color, Rank)>>, n: int, m: int, color: Color)
    requires
        n <= m,
    ensures
        GameView::laid_out(layout, n).pieces.of(color).len() <= GameView::laid_out(
            layout,
            m,
        ).pieces.of(color).len(),
    decreases m - n,
{
    if n < m {
        lemma_laid_out_grows(layout, n, m - 1, color);
    }
}

/// A simple move keeps board and pieces in agreement and both counts as they
/// are.
pub proof fn lemma_moved_linked(game: GameView, source: int, target: int)
    requires
        game.linked(),
        0 <= source < BOARD_SIZE,
        0 <= target < BOARD_SIZE,
        game.cells[source] is Some,
        game.cells[target] is None,
        playable(target),
    ensures
        game.moved(source, target).linked(),
        game.moved(source, target).pieces.count(Color::Green) == game.pieces.count(Color::Green),
        game.moved(source, target).pieces.count(Color::Red) == game.pieces.count(Color::Red),
{
    let piece = game.cells[source].unwrap();
    let after = game.moved(source, target);
    let relocated = game.pieces.relocated(piece, target as usize);
    assert(game.seated(source));
    lemma_pieces_wf_preserved(game.pieces, piece, target as usize);
    lemma_pieces_wf_preserved(relocated, piece, target as usize);
    assert forall|cell: int| 0 <= cell < BOARD_SIZE implies #[trigger] after.seated(cell) by {
        assert(game.seated(cell));
    }
    assert forall|other: PieceRef| #[trigger] after.pieces.in_play(other) implies after.standing(
        other,
    ) by {
        if other != piece {
            assert(game.pieces.in_play(other));
            assert(game.standing(other));
        }
    }
}

/// Taking a piece off the board keeps board and pieces in agreement, takes
/// one piece from the count of its owner and leaves the other count as it is.
pub proof fn lemma_lifted_linked(game: GameView, victim: int)
    requires
        game.linked(),
        0 <= victim < BOARD_SIZE,
        game.cells[victim] is Some,
    ensures
        game.lifted(victim).linked(),
        game.lifted(victim).pieces.count(game.cells[victim].unwrap().color) == game.pieces.count(
            game.cells[victim].unwrap().color,
        ) - 1,
        game.lifted(victim).pieces.count(game.cells[victim].unwrap().color.opponent())
            == game.pieces.count(game.cells[victim].unwrap().color.opponent()),
{
    let captured = game.cells[victim].unwrap();
    let after = game.lifted(victim);
    assert(game.seated(victim));
    lemma_pieces_wf_preserved(game.pieces, captured, 0);
    assert forall|cell: int| 0 <= cell < BOARD_SIZE implies #[trigger] after.seated(cell) by {
        assert(game.seated(cell));
    }
    assert forall|other: PieceRef| #[trigger] after.pieces.in_play(other) implies after.standing(
        other,
    ) by {
        assert(game.pieces.in_play(other));
        assert(game.standing(other));
    }
}

/// A capture keeps board and pieces in agreement, takes one piece from the
/// count of the captured piece's owner and leaves the count of the capturing
/// player, which is at least one, as it is.
pub proof fn lemma_overtaken_linked(game: GameView, source: int, victim: int, end: int)
    requires
        game.linked(),
        0 <= source < BOARD_SIZE,
        0 <= victim < BOARD_SIZE,
        0 <= end < BOARD_SIZE,
        game.cells[source] is Some,
        game.cells[victim] is Some,
        game.cells[victim].unwrap().color != game.cells[source].unwrap().color,
        game.cells[end] is None,
        playable(end),
    ensures
        game.overtaken(source, victim, end).linked(),
        game.overtaken(source, victim, end).pieces.count(game.cells[victim].unwrap().color)
            == game.pieces.count(game.cells[victim].unwrap().color) - 1,
        game.overtaken(source, victim, end).pieces.count(game.cells[source].unwrap().color)
            == game.pieces.count(game.cells[source].unwrap().color),
        game.pieces.count(game.cells[source].unwrap().color) >= 1,
{
    let mover = game.cells[source].unwrap();
    assert(game.seated(source));
    lemma_pieces_wf_preserved(game.pieces, mover, end as usize);
    lemma_lifted_linked(game, victim);
    lemma_moved_linked(game.lifted(victim), source, end);
}

/// What the rules call a legal move can be made: the target is an empty
/// playable cell of the board, and a captured piece stands on the board and
/// belongs to the opponent of the moving piece.
pub proof fn lemma_resolution_sound(game: GameView, source: int, target: int)
    requires
        game.linked(),
    ensures
        match resolution(game.position(), source, target) {
            Resolution::Move => {
                &&& 0 <= source < BOARD_SIZE
                &&& 0 <= target < BOARD_SIZE
                &&& game.cells[source] is Some
                &&& game.cells[target] is None
                &&& playable(target)
            },
            Resolution::Capture(victim) => {
                &&& 0 <= source < BOARD_SIZE
                &&& 0 <= target < BOARD_SIZE
                &&& 0 <= victim < BOARD_SIZE
                &&& game.cells[source] is Some
                &&& game.cells[target] is None
                &&& playable(target)
                &&& game.holds(victim, game.cells[source].unwrap().color.opponent())
            },
            Resolution::Illegal => true,
        },
{
    if !(resolution(game.position(), source, target) is Illegal) {
        let dir = heading(source, target);
        let k = distance(source, target);
        assert(game.seated(source));
        lemma_diagonal_target(source, target, dir, k);
        lemma_diagonal_playable(source, dir, k);
        lemma_diagonal_step(source, dir, k, target);
        if k >= 2 {
            lemma_diagonal_inside(source, dir, k - 1, k);
        }
    }
}

/// Applying the rules to a request keeps a state of play well formed. A
/// simple move keeps both counts; a capture takes exactly one piece from
/// the opponent of the moving piece; an illegal request changes nothing.
pub proof fn lemma_applied_wf(game: GameView, source: int, target: int)
    requires
        game.wf(),
        game.source is None,
    ensures
        game.applied(source, target).wf(),
        game.applied(source, target).source is None,
        game.applied(source, target).chain_captures == game.chain_captures,
        match resolution(game.position(), source, target) {
            Resolution::Move => {
                &&& game.applied(source, target).pieces.count(Color::Green) == game.pieces.count(
                    Color::Green,
                )
                &&& game.applied(source, target).pieces.count(Color::Red) == game.pieces.count(
                    Color::Red,
                )
                &&& game.applied(source, target).turn == game.turn.opponent()
            },
            Resolution::Capture(_) => {
                let mover = game.cells[source].unwrap().color;
                &&& game.applied(source, target).pieces.count(mover) == game.pieces.count(mover)
                &&& game.applied(source, target).pieces.count(mover.opponent())
                    == game.pieces.count(mover.opponent()) - 1
                &&& game.applied(source, target).turn == if game.chain_captures {
                    game.turn
                } else {
                    game.turn.opponent()
                }
            },
            Resolution::Illegal => game.applied(source, target) == game,
        },
{
    lemma_resolution_sound(game, source, target);
    match resolution(game.position(), source, target) {
        Resolution::Move => {
            lemma_moved_linked(game, source, target);
            lemma_linked_by_content(game.moved(source, target), game.applied(source, target));
        },
        Resolution::Capture(victim) => {
            lemma_overtaken_linked(game, source, victim, target);
            lemma_linked_by_content(
                game.overtaken(source, victim, target),
                game.applied(source, target),
            );
        },
        Resolution::Illegal => {},
    }
}

/// What a look at one cell of a diagonal finds is what the rules say.
///
/// Take a state whose piece on `source` is a king, or look at the first cell
/// only. If the cells before the `j`-th along `dir` are empty and none of
/// them is `target`, then a look at the `j`-th cell
/// - makes a move exactly when the rules judge the request a simple move,
///   and makes a capture exactly when they judge it a capture of the piece
///   on that cell, and leaves the state that the rules prescribe;
/// - ends the diagonal only when the rules hold no legal move along `dir`;
/// - goes on only when the `j`-th cell is empty and is not `target` either,
///   which for a normal piece leaves no legal move along `dir`.
pub proof fn lemma_probe_judged(game: GameView, source: int, target: int, dir: Direction, j: int)
    requires
        game.linked(),
        0 <= source < BOARD_SIZE,
        0 <= target < BOARD_SIZE,
        game.cells[source] is Some,
        1 <= j,
        path_clear(game.position(), source, dir, j),
        untouched(source, target, dir, j),
        game.checker_at(source).unwrap().rank == Rank::King || j == 1,
    ensures
        match game.probe(source, target, dir, j) {
            Scan::Done(MoveResult::Moved) => resolution(game.position(), source, target)
                == Resolution::Move,
            Scan::Done(MoveResult::Captured) => resolution(game.position(), source, target)
                == Resolution::Capture(ray_cell(source, dir, j)),
            Scan::Done(MoveResult::Rejected) => false,
            Scan::Blocked => barren(game.position(), source, target, dir),
            Scan::Continue => {
                &&& path_clear(game.position(), source, dir, j + 1)
                &&& untouched(source, target, dir, j + 1)
                &&& diagonal_cell(source, dir, j) is Some
                &&& game.checker_at(source).unwrap().rank == Rank::Normal ==> barren(
                    game.position(),
                    source,
                    target,
                    dir,
                )
            },
        },
        game.probe(source, target, dir, j) is Done ==> game.probed(source, target, dir, j)
            == game.applied(source, target),
{
    let position = game.position();
    let mover = position[source].unwrap();
    let k = distance(source, target);
    let aligned = on_diagonal(source, target) && heading(source, target) == dir;
    if aligned {
        lemma_diagonal_target(source, target, dir, k);
        lemma_diagonal_step(source, dir, k, target);
    }
    match diagonal_cell(source, dir, j) {
        None => {
            if aligned && k >= j {
                lemma_diagonal_ends(source, dir, j, k);
            }
        },
        Some(cell) => {
            lemma_diagonal_step(source, dir, j, cell);
            if game.cells[cell] is None {
                if cell == target {
                    lemma_diagonal_target(source, target, dir, j);
                } else {
                    assert(path_clear(position, source, dir, j + 1));
                    assert(untouched(source, target, dir, j + 1));
                }
            } else {
                assert(position[ray_cell(source, dir, j)] is Some);
                if game.probe(source, target, dir, j) is Done {
                    lemma_diagonal_target(source, target, dir, j + 1);
                    assert(!path_clear(position, source, dir, j + 1));
                } else if aligned {
                    if k > j {
                        assert(!path_clear(position, source, dir, k));
                    }
                    if k > j + 1 {
                        assert(!path_clear(position, source, dir, k - 1));
                    }
                }
            }
        },
    }
}

} // verus!
