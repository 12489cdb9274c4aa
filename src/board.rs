//! Moves and pieces as plain values, and the board queries that the engine
//! makes of the `chess` crate's move generator.
use vstd::prelude::*;

verus! {

/// The `chess` crate's board: an opaque, immutable position value.
#[verifier::external_type_specification]
#[verifier::external_body]
pub struct ExBoard(chess::Board);

/// A kind of chess piece, in the order the move generator indexes them.
#[derive(Clone, Copy, Debug, PartialEq, Eq, PartialOrd, Structural)]
pub enum PieceKind {
    Pawn,
    Knight,
    Bishop,
    Rook,
    Queen,
    King,
}

impl PieceKind {
    /// The index of the kind, pawn first and king last.
    pub open spec fn spec_index(self) -> nat {
        match self {
            PieceKind::Pawn => 0,
            PieceKind::Knight => 1,
            PieceKind::Bishop => 2,
            PieceKind::Rook => 3,
            PieceKind::Queen => 4,
            PieceKind::King => 5,
        }
    }

    pub fn index(self) -> (r: usize)
        ensures
            r == self.spec_index(),
    {
        match self {
            PieceKind::Pawn => 0,
            PieceKind::Knight => 1,
            PieceKind::Bishop => 2,
            PieceKind::Rook => 3,
            PieceKind::Queen => 4,
            PieceKind::King => 5,
        }
    }

    /// The kind with the given index; indices past the king give the king.
    pub fn from_index(i: usize) -> (r: PieceKind)
        ensures
            i < 6 ==> r.spec_index() == i,
            i >= 6 ==> r == PieceKind::King,
    {
        if i == 0 {
            PieceKind::Pawn
        } else if i == 1 {
            PieceKind::Knight
        } else if i == 2 {
            PieceKind::Bishop
        } else if i == 3 {
            PieceKind::Rook
        } else if i == 4 {
            PieceKind::Queen
        } else {
            PieceKind::King
        }
    }
}

/// A move: source square, destination square (0 = a1 .. 63 = h8) and an
/// optional promotion piece. Equality is structural.
#[derive(Clone, Copy, Debug, PartialEq, Eq, PartialOrd, Structural)]
pub struct Move {
    pub from: u8,
    pub to: u8,
    pub promotion: Option<PieceKind>,
}

impl Move {
    pub open spec fn wf(self) -> bool {
        self.from < 64 && self.to < 64
    }
}

/// The Zobrist hash that `chess::Board::get_hash` gives for a board.
pub uninterp spec fn hash_of(b: chess::Board) -> u64;

/// The piece kind that `chess::Board::piece_on` finds on a square.
pub uninterp spec fn piece_of(b: chess::Board, sq: int) -> Option<PieceKind>;

/// Whether `chess::Board::color_on` finds a white piece on a square
/// (`None` for an empty square).
pub uninterp spec fn white_on(b: chess::Board, sq: int) -> Option<bool>;

/// Whether `chess::Board::side_to_move` is white.
pub uninterp spec fn white_to_move(b: chess::Board) -> bool;

/// The bitboard of pieces giving check, as `chess::Board::checkers` gives it.
pub uninterp spec fn checkers_of(b: chess::Board) -> u64;

/// The moves that `chess::MoveGen::new_legal` yields, in its order.
pub uninterp spec fn legal_moves_of(b: chess::Board) -> Seq<Move>;

/// The board that `chess::Board::make_move_new` produces.
pub uninterp spec fn after_move(b: chess::Board, m: Move) -> chess::Board;

/// Relies on `chess::Board::get_hash`.
#[verifier::external_body]
pub(crate) fn board_hash(b: &chess::Board) -> (r: u64)
    ensures
        r == hash_of(*b),
{
    b.get_hash()
}

/// Relies on `chess::Board::piece_on`.
#[verifier::external_body]
pub(crate) fn piece_on(b: &chess::Board, sq: u8) -> (r: Option<PieceKind>)
    requires
        sq < 64,
    ensures
        r == piece_of(*b, sq as int),
{
    b.piece_on(chess::ALL_SQUARES[sq as usize]).map(|p| PieceKind::from_index(p.to_index()))
}

/// Relies on `chess::Board::color_on`.
#[verifier::external_body]
pub(crate) fn color_on(b: &chess::Board, sq: u8) -> (r: Option<bool>)
    requires
        sq < 64,
    ensures
        r == white_on(*b, sq as int),
{
    b.color_on(chess::ALL_SQUARES[sq as usize]).map(|c| c == chess::Color::White)
}

/// Relies on `chess::Board::side_to_move`.
#[verifier::external_body]
pub(crate) fn side_is_white(b: &chess::Board) -> (r: bool)
    ensures
        r == white_to_move(*b),
{
    b.side_to_move() == chess::Color::White
}

/// Relies on `chess::Board::checkers`: the bitboard of checking pieces.
#[verifier::external_body]
pub(crate) fn checkers(b: &chess::Board) -> (r: u64)
    ensures
        r == checkers_of(*b),
{
    b.checkers().0
}

/// Relies on `chess::MoveGen::new_legal`: every legal move once, each with
/// squares below 64.
#[verifier::external_body]
pub(crate) fn legal_moves(b: &chess::Board) -> (r: Vec<Move>)
    ensures
        r@ == legal_moves_of(*b),
        forall|i: int| 0 <= i < r@.len() ==> (#[trigger] r@[i]).wf(),
{
    chess::MoveGen::new_legal(b).map(|m| Move {
        from: m.get_source().to_int(),
        to: m.get_dest().to_int(),
        promotion: m.get_promotion().map(|p| PieceKind::from_index(p.to_index())),
    }).collect()
}

/// Relies on `chess::Board::make_move_new`, which panics only when a king
/// would be captured, so the move must be legal.
#[verifier::external_body]
pub(crate) fn make_move(b: &chess::Board, m: Move) -> (r: chess::Board)
    requires
        legal_moves_of(*b).contains(m),
    ensures
        r == after_move(*b, m),
{
    let p = m.promotion.map(|k| chess::ALL_PIECES[k.index()]);
    b.make_move_new(chess::ChessMove::new(
        chess::ALL_SQUARES[m.from as usize], chess::ALL_SQUARES[m.to as usize], p))
}

} // verus!
