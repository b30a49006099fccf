use vstd::prelude::*;

verus! {

/// The six piece kinds, in the fixed order used by every encoded block:
/// pawn, bishop, knight, rook, queen, king.
#[derive(Clone, Copy, PartialEq, Eq, Structural)]
pub enum PieceKind {
    Pawn,
    Bishop,
    Knight,
    Rook,
    Queen,
    King,
}

/// Whether a position is still being played, drawn by stalemate, or won by
/// checkmate against the side to move.
#[derive(Clone, Copy, PartialEq, Eq, Structural)]
pub enum Status {
    Ongoing,
    Stalemate,
    Checkmate,
}

impl Status {
    pub open spec fn index(self) -> int {
        match self {
            Status::Ongoing => 0,
            Status::Stalemate => 1,
            Status::Checkmate => 2,
        }
    }
}

#[verifier::external_type_specification]
#[verifier::external_body]
pub struct ExBoard(chess::Board);

/// The squares that hold a piece of kind `kind`, of either colour, on `b`.
/// Bit `i` of the mask stands for square `i`, counted as file + 8 * rank
/// with `a1` first, as the rules engine numbers its squares.
pub uninterp spec fn piece_squares(b: chess::Board, kind: PieceKind) -> u64;

/// The squares that hold a piece of the white side (when `white` is set) or
/// of the black side (otherwise) on `b`, numbered as in `piece_squares`.
pub uninterp spec fn color_squares(b: chess::Board, white: bool) -> u64;

/// The terminal status of `b`: 0 while moves remain, 1 for stalemate,
/// 2 for checkmate against the side to move.
pub uninterp spec fn status_index(b: chess::Board) -> int;

/// Whether the white side is to move on `b`.
pub uninterp spec fn white_to_move(b: chess::Board) -> bool;

/// Every legal move of `b`, each as its text form (origin square, destination
/// square, optional promotion letter), in the move generator's stable order.
pub uninterp spec fn legal_tokens(b: chess::Board) -> Seq<Seq<char>>;

/// Relies on chess::Board::pieces: the occupancy mask of one piece kind,
/// both colours together.
#[verifier::external_body]
pub(crate) fn pieces_of(b: &chess::Board, kind: PieceKind) -> (r: u64)
    ensures
        r == piece_squares(*b, kind),
{
    match kind {
        PieceKind::Pawn => b.pieces(chess::Piece::Pawn).0,
        PieceKind::Bishop => b.pieces(chess::Piece::Bishop).0,
        PieceKind::Knight => b.pieces(chess::Piece::Knight).0,
        PieceKind::Rook => b.pieces(chess::Piece::Rook).0,
        PieceKind::Queen => b.pieces(chess::Piece::Queen).0,
        PieceKind::King => b.pieces(chess::Piece::King).0,
    }
}

/// Relies on chess::Board::color_combined: the occupancy mask of one colour.
#[verifier::external_body]
pub(crate) fn color_of(b: &chess::Board, white: bool) -> (r: u64)
    ensures
        r == color_squares(*b, white),
{
    if white {
        b.color_combined(chess::Color::White).0
    } else {
        b.color_combined(chess::Color::Black).0
    }
}

/// Relies on chess::Board::status: ongoing, stalemate or checkmate.
#[verifier::external_body]
pub(crate) fn status_of(b: &chess::Board) -> (r: Status)
    ensures
        r.index() == status_index(*b),
{
    match b.status() {
        chess::BoardStatus::Ongoing => Status::Ongoing,
        chess::BoardStatus::Stalemate => Status::Stalemate,
        chess::BoardStatus::Checkmate => Status::Checkmate,
    }
}

/// Relies on chess::Board::side_to_move.
#[verifier::external_body]
pub(crate) fn side_of(b: &chess::Board) -> (r: bool)
    ensures
        r == white_to_move(*b),
{
    b.side_to_move() == chess::Color::White
}

/// Relies on chess::MoveGen::new_legal, handing each generated move out as
/// its text form (chess::ChessMove's Display).
#[verifier::external_body]
pub(crate) fn legal_move_tokens(b: &chess::Board) -> (r: Vec<String>)
    ensures
        r@.len() == legal_tokens(*b).len(),
        forall|i: int| 0 <= i < r@.len() ==> r@[i]@ == legal_tokens(*b)[i],
{
    chess::MoveGen::new_legal(b).map(|m| m.to_string()).collect()
}

} // verus!
