//! The pieces of both players: their colour, their rank, the cell each one
//! stands on, and how many of each colour are still in play.

use vstd::prelude::*;
use vstd::set_lib::{lemma_int_range, lemma_len_subset};
use crate::geometry::BOARD_SIZE;

verus! {

/// The most pieces one player can own.
pub const MAX_PIECES: usize = 16;

/// The two players. Green starts on the top rows and moves first.
#[derive(Debug, Clone, Copy, PartialEq, Eq, Structural)]
pub enum Color {
    Green,
    Red,
}

impl Color {
    /// The other player.
    #[verifier::when_used_as_spec(spec_opponent)]
    pub fn opponent(self) -> (other: Color)
        ensures
            other == self.spec_opponent(),
    {
        match self {
            Color::Green => Color::Red,
            Color::Red => Color::Green,
        }
    }

    /// The other player.
    pub open spec fn spec_opponent(self) -> Color {
        match self {
            Color::Green => Color::Red,
            Color::Red => Color::Green,
        }
    }
}

/// A piece is a normal piece until it reaches the far row and becomes a king.
#[derive(Debug, Clone, Copy, PartialEq, Eq, Structural)]
pub enum Rank {
    Normal,
    King,
}

/// Names one piece: its owner and its slot among the owner's pieces.
#[derive(Debug, Clone, Copy, PartialEq, Eq, Structural)]
pub struct PieceRef {
    pub color: Color,
    pub index: usize,
}

/// What is recorded of one piece. A captured piece has no cell.
#[derive(Debug, Clone, Copy, PartialEq, Eq, Structural)]
pub struct Piece {
    pub rank: Rank,
    pub cell: Option<usize>,
}

/// A piece as it stands on the board: owner, rank and slot.
#[derive(Debug, Clone, Copy, PartialEq, Eq, Structural)]
pub struct Checker {
    pub color: Color,
    pub rank: Rank,
    pub index: usize,
}

impl Checker {
    /// True for a king.
    pub fn is_super(&self) -> (yes: bool)
        ensures
            yes == (self.rank == Rank::King),
    {
        match self.rank {
            Rank::King => true,
            Rank::Normal => false,
        }
    }

    /// True for a green piece.
    pub fn is_green(&self) -> (yes: bool)
        ensures
            yes == (self.color == Color::Green),
    {
        match self.color {
            Color::Green => true,
            Color::Red => false,
        }
    }

    /// True for a red piece.
    pub fn is_red(&self) -> (yes: bool)
        ensures
            yes == (self.color == Color::Red),
    {
        match self.color {
            Color::Red => true,
            Color::Green => false,
        }
    }

    /// True when both pieces belong to the same player.
    pub fn is_same_color(&self, other: &Checker) -> (yes: bool)
        ensures
            yes == (self.color == other.color),
    {
        (self.is_red() && other.is_red()) || (self.is_green() && other.is_green())
    }

    /// True when the pieces belong to different players.
    pub fn is_different_color(&self, other: &Checker) -> (yes: bool)
        ensures
            yes == (self.color != other.color),
    {
        !self.is_same_color(other)
    }
}

/// How many pieces each player still has in play.
#[derive(Debug, Clone, Copy, PartialEq, Eq, Structural)]
pub struct Score {
    pub green: usize,
    pub red: usize,
}

impl Score {
    /// A score with no piece on either side.
    pub fn new() -> (score: Score)
        ensures
            score.green == 0,
            score.red == 0,
    {
        Score { green: 0, red: 0 }
    }
}

/// True of the cell of a captured piece, and of a cell that lies on the board.
pub open spec fn on_board(cell: Option<usize>) -> bool {
    match cell {
        Some(c) => c < BOARD_SIZE,
        None => true,
    }
}

/// The slots of a sequence of pieces that hold a piece still in play.
pub open spec fn live_slots(pieces: Seq<Piece>) -> Set<int> {
    Set::new(|i: int| 0 <= i < pieces.len() && pieces[i].cell is Some)
}

/// The mathematical content of a [`PieceSet`].
pub struct Pieces {
    pub green: Seq<Piece>,
    pub red: Seq<Piece>,
    pub green_count: nat,
    pub red_count: nat,
}

impl Pieces {
    /// No piece on either side.
    pub open spec fn empty() -> Pieces {
        Pieces { green: Seq::empty(), red: Seq::empty(), green_count: 0, red_count: 0 }
    }

    /// The pieces of one player, by slot.
    pub open spec fn of(self, color: Color) -> Seq<Piece> {
        match color {
            Color::Green => self.green,
            Color::Red => self.red,
        }
    }

    /// The recorded number of pieces of one player that are in play.
    pub open spec fn count(self, color: Color) -> nat {
        match color {
            Color::Green => self.green_count,
            Color::Red => self.red_count,
        }
    }

    /// The same set with one player's pieces and count replaced.
    pub open spec fn with(self, color: Color, pieces: Seq<Piece>, count: nat) -> Pieces {
        match color {
            Color::Green => Pieces { green: pieces, green_count: count, ..self },
            Color::Red => Pieces { red: pieces, red_count: count, ..self },
        }
    }

    /// True when `piece` names a slot that exists.
    pub open spec fn has(self, piece: PieceRef) -> bool {
        piece.index < self.of(piece.color).len()
    }

    /// What is recorded of `piece`.
    pub open spec fn get(self, piece: PieceRef) -> Piece {
        self.of(piece.color)[piece.index as int]
    }

    /// True when `piece` exists and is in play.
    pub open spec fn in_play(self, piece: PieceRef) -> bool {
        self.has(piece) && self.get(piece).cell is Some
    }

    /// The set is well formed when no player owns more than `MAX_PIECES`
    /// pieces, every piece in play stands on a cell of the board, and the
    /// recorded counts are the numbers of pieces in play.
    pub open spec fn wf(self) -> bool {
        &&& self.green.len() <= MAX_PIECES
        &&& self.red.len() <= MAX_PIECES
        &&& self.green_count == live_slots(self.green).len()
        &&& self.red_count == live_slots(self.red).len()
        &&& forall|i: int|
            0 <= i < self.green.len() ==> on_board((#[trigger] self.green[i]).cell)
        &&& forall|i: int| 0 <= i < self.red.len() ==> on_board((#[trigger] self.red[i]).cell)
    }

    /// The set after a new piece of `color` and `rank` entered play on `cell`.
    pub open spec fn added(self, color: Color, rank: Rank, cell: usize) -> Pieces {
        self.with(
            color,
            self.of(color).push(Piece { rank, cell: Some(cell) }),
            self.count(color) + 1,
        )
    }

    /// The set after `piece` became a king. The rank of a king stays as it is.
    pub open spec fn promoted(self, piece: PieceRef) -> Pieces {
        self.with(
            piece.color,
            self.of(piece.color).update(
                piece.index as int,
                Piece { rank: Rank::King, cell: self.get(piece).cell },
            ),
            self.count(piece.color),
        )
    }

    /// The set after `piece` was captured: it has no cell any more and its
    /// owner's count is one less. A piece that was captured before stays as
    /// it is.
    pub open spec fn removed(self, piece: PieceRef) -> Pieces {
        if self.get(piece).cell is Some {
            self.with(
                piece.color,
                self.of(piece.color).update(
                    piece.index as int,
                    Piece { rank: self.get(piece).rank, cell: None },
                ),
                (self.count(piece.color) - 1) as nat,
            )
        } else {
            self
        }
    }

    /// The set after `piece` went to `cell`. A captured piece stays off the
    /// board.
    pub open spec fn relocated(self, piece: PieceRef, cell: usize) -> Pieces {
        if self.get(piece).cell is Some {
            self.with(
                piece.color,
                self.of(piece.color).update(
                    piece.index as int,
                    Piece { rank: self.get(piece).rank, cell: Some(cell) },
                ),
                self.count(piece.color),
            )
        } else {
            self
        }
    }
}

/// The live slots of a sequence of pieces are finitely many, no more than
/// the sequence is long.
pub proof fn lemma_live_slots_bounded(pieces: Seq<Piece>)
    ensures
        live_slots(pieces).finite(),
        live_slots(pieces).len() <= pieces.len(),
{
    let range = Set::new(|i: int| 0 <= i < pieces.len() as int);
    lemma_int_range(0, pieces.len() as int);
    assert(range =~= Set::new(|i: int| 0 <= i && i < pieces.len() as int));
    assert(live_slots(pieces).subset_of(range));
    lemma_len_subset(live_slots(pieces), range);
}

/// Appending a piece that is in play adds one live slot.
pub proof fn lemma_live_slots_push(pieces: Seq<Piece>, piece: Piece)
    requires
        piece.cell is Some,
    ensures
        live_slots(pieces.push(piece)).len() == live_slots(pieces).len() + 1,
{
    lemma_live_slots_bounded(pieces);
    assert(live_slots(pieces.push(piece)) =~= live_slots(pieces).insert(pieces.len() as int));
}

/// Replacing a piece changes the number of live slots only when the piece
/// enters or leaves play.
pub proof fn lemma_live_slots_update(pieces: Seq<Piece>, i: int, piece: Piece)
    requires
        0 <= i < pieces.len(),
    ensures
        pieces[i].cell is Some && piece.cell is None ==> live_slots(pieces.update(i, piece)).len()
            == live_slots(pieces).len() - 1,
        (pieces[i].cell is Some) == (piece.cell is Some) ==> live_slots(pieces.update(i, piece))
            == live_slots(pieces),
        pieces[i].cell is Some ==> live_slots(pieces).len() >= 1,
{
    lemma_live_slots_bounded(pieces);
    if pieces[i].cell is Some {
        assert(live_slots(pieces).contains(i));
        if piece.cell is None {
            assert(live_slots(pieces.update(i, piece)) =~= live_slots(pieces).remove(i));
        }
    }
    if (pieces[i].cell is Some) == (piece.cell is Some) {
        assert(live_slots(pieces.update(i, piece)) =~= live_slots(pieces));
    }
}

/// A new piece on a cell of the board keeps a set of pieces well formed, as
/// long as its owner has room for it.
pub proof fn lemma_added_wf(pieces: Pieces, color: Color, rank: Rank, cell: usize)
    requires
        pieces.wf(),
        pieces.of(color).len() < MAX_PIECES,
        cell < BOARD_SIZE,
    ensures
        pieces.added(color, rank, cell).wf(),
{
    lemma_live_slots_push(pieces.of(color), Piece { rank, cell: Some(cell) });
}

/// Promotion, capture and relocation keep a set of pieces well formed.
/// Promotion and relocation keep both counts; a capture takes one from the
/// count of the captured piece's owner and leaves the other count alone.
pub proof fn lemma_pieces_wf_preserved(pieces: Pieces, piece: PieceRef, cell: usize)
    requires
        pieces.wf(),
        pieces.has(piece),
        cell < BOARD_SIZE,
    ensures
        pieces.promoted(piece).wf(),
        pieces.removed(piece).wf(),
        pieces.relocated(piece, cell).wf(),
        pieces.in_play(piece) ==> pieces.count(piece.color) >= 1,
{
    let entry = pieces.get(piece);
    let i = piece.index as int;
    lemma_live_slots_update(pieces.of(piece.color), i, Piece { rank: Rank::King, cell: entry.cell });
    lemma_live_slots_update(pieces.of(piece.color), i, Piece { rank: entry.rank, cell: None });
    lemma_live_slots_update(
        pieces.of(piece.color),
        i,
        Piece { rank: entry.rank, cell: Some(cell) },
    );
}

/// Promotion is idempotent: making a king of a king changes nothing.
pub proof fn lemma_promoted_idempotent(pieces: Pieces, piece: PieceRef)
    requires
        pieces.has(piece),
    ensures
        pieces.promoted(piece).promoted(piece) == pieces.promoted(piece),
        pieces.promoted(piece).get(piece).rank == Rank::King,
        pieces.get(piece).rank == Rank::King ==> pieces.promoted(piece) == pieces,
{
    let once = pieces.promoted(piece);
    let twice = once.promoted(piece);
    assert(twice.green =~= once.green);
    assert(twice.red =~= once.red);
    if pieces.get(piece).rank == Rank::King {
        assert(once.green =~= pieces.green);
        assert(once.red =~= pieces.red);
    }
}

/// The pieces of both players, kept by slot, with the number of pieces each
/// player has in play.
pub struct PieceSet {
    green: Vec<Piece>,
    red: Vec<Piece>,
    score: Score,
}

impl View for PieceSet {
    type V = Pieces;

    closed spec fn view(&self) -> Pieces {
        Pieces {
            green: self.green@,
            red: self.red@,
            green_count: self.score.green as nat,
            red_count: self.score.red as nat,
        }
    }
}

impl PieceSet {
    /// A set without pieces.
    pub fn new() -> (set: PieceSet)
        ensures
            set@ == Pieces::empty(),
            set@.wf(),
    {
        let set = PieceSet { green: Vec::new(), red: Vec::new(), score: Score::new() };
        proof {
            lemma_live_slots_bounded(set@.green);
            lemma_live_slots_bounded(set@.red);
        }
        set
    }

    /// Number of slots of one player, captured pieces included.
    pub fn len(&self, color: Color) -> (n: usize)
        ensures
            n == self@.of(color).len(),
    {
        match color {
            Color::Green => self.green.len(),
            Color::Red => self.red.len(),
        }
    }

    /// Number of pieces of one player that are in play.
    pub fn count(&self, color: Color) -> (n: usize)
        ensures
            n == self@.count(color),
    {
        match color {
            Color::Green => self.score.green,
            Color::Red => self.score.red,
        }
    }

    /// What is recorded of `piece`.
    pub fn get(&self, piece: PieceRef) -> (found: Piece)
        requires
            self@.has(piece),
        ensures
            found == self@.get(piece),
    {
        match piece.color {
            Color::Green => self.green[piece.index],
            Color::Red => self.red[piece.index],
        }
    }

    /// Rank of `piece`.
    pub fn rank(&self, piece: PieceRef) -> (rank: Rank)
        requires
            self@.has(piece),
        ensures
            rank == self@.get(piece).rank,
    {
        self.get(piece).rank
    }

    /// Cell of `piece`, or `None` once it was captured.
    pub fn cell(&self, piece: PieceRef) -> (cell: Option<usize>)
        requires
            self@.has(piece),
        ensures
            cell == self@.get(piece).cell,
    {
        self.get(piece).cell
    }

    /// Writes what is recorded of `piece`.
    fn put(&mut self, piece: PieceRef, value: Piece)
        requires
            old(self)@.has(piece),
        ensures
            final(self)@ == old(self)@.with(
                piece.color,
                old(self)@.of(piece.color).update(piece.index as int, value),
                old(self)@.count(piece.color),
            ),
    {
        match piece.color {
            Color::Green => self.green.set(piece.index, value),
            Color::Red => self.red.set(piece.index, value),
        }
    }

    /// Brings a new piece into play on `cell` and returns its name, or
    /// returns `None` and changes nothing when the player already owns
    /// `MAX_PIECES` pieces.
    pub fn add(&mut self, color: Color, rank: Rank, cell: usize) -> (piece: Option<PieceRef>)
        requires
            old(self)@.wf(),
            cell < BOARD_SIZE,
        ensures
            final(self)@.wf(),
            old(self)@.of(color).len() < MAX_PIECES ==> piece == Some(
                PieceRef { color, index: old(self)@.of(color).len() as usize },
            ) && final(self)@ == old(self)@.added(color, rank, cell),
            old(self)@.of(color).len() >= MAX_PIECES ==> piece is None && final(self)@ == old(
                self,
            )@,
    {
        let index = self.len(color);
        if index >= MAX_PIECES {
            return None;
        }
        let entry = Piece { rank, cell: Some(cell) };
        proof {
            lemma_live_slots_push(self@.of(color), entry);
            lemma_live_slots_bounded(self@.of(color));
        }
        match color {
            Color::Green => {
                self.green.push(entry);
                self.score.green = self.score.green + 1;
            },
            Color::Red => {
                self.red.push(entry);
                self.score.red = self.score.red + 1;
            },
        }
        Some(PieceRef { color, index })
    }

    /// Makes `piece` a king.
    pub fn promote(&mut self, piece: PieceRef)
        requires
            old(self)@.wf(),
            old(self)@.has(piece),
        ensures
            final(self)@ == old(self)@.promoted(piece),
            final(self)@.wf(),
    {
        let entry = self.get(piece);
        proof {
            lemma_live_slots_update(
                self@.of(piece.color),
                piece.index as int,
                Piece { rank: Rank::King, cell: entry.cell },
            );
        }
        self.put(piece, Piece { rank: Rank::King, cell: entry.cell });
    }

    /// Takes `piece` out of play.
    pub fn remove(&mut self, piece: PieceRef)
        requires
            old(self)@.wf(),
            old(self)@.has(piece),
        ensures
            final(self)@ == old(self)@.removed(piece),
            final(self)@.wf(),
    {
        let entry = self.get(piece);
        if entry.cell.is_some() {
            proof {
                lemma_live_slots_update(
                    self@.of(piece.color),
                    piece.index as int,
                    Piece { rank: entry.rank, cell: None },
                );
            }
            self.put(piece, Piece { rank: entry.rank, cell: None });
            match piece.color {
                Color::Green => {
                    self.score.green = self.score.green - 1;
                },
                Color::Red => {
                    self.score.red = self.score.red - 1;
                },
            }
        }
    }

    /// Records that `piece` now stands on `cell`.
    pub fn relocate(&mut self, piece: PieceRef, cell: usize)
        requires
            old(self)@.wf(),
            old(self)@.has(piece),
            cell < BOARD_SIZE,
        ensures
            final(self)@ == old(self)@.relocated(piece, cell),
            final(self)@.wf(),
    {
        let entry = self.get(piece);
        if entry.cell.is_some() {
            proof {
                lemma_live_slots_update(
                    self@.of(piece.color),
                    piece.index as int,
                    Piece { rank: entry.rank, cell: Some(cell) },
                );
            }
            self.put(piece, Piece { rank: entry.rank, cell: Some(cell) });
        }
    }
}

} // verus!
