use vstd::prelude::*;

use crate::board::{color_squares, piece_squares, PieceKind};
use vstd::string::StringSliceAdditionalSpecFns;

verus! {

/// Index of the cell that stands for square `sq` inside a 64-cell block,
/// reflecting the board through the square mirror when `mirror` is set, so
/// that the mover's pieces always appear to start from the same side.
pub open spec fn mirror_square(sq: int, mirror: bool) -> int {
    if mirror {
        63 - sq
    } else {
        sq
    }
}

/// The cell value (0 or 1) that square `sq` of occupancy mask `mask`
/// contributes to an encoded block.
pub open spec fn cell(mask: u64, sq: u64) -> i64
    recommends
        sq < 64,
{
    if (mask >> sq) & 1u64 == 1u64 {
        1
    } else {
        0
    }
}

/// The 64-cell block that encodes occupancy mask `mask`, mirrored when
/// `mirror` is set.
pub open spec fn block_spec(mask: u64, mirror: bool) -> Seq<i64> {
    Seq::new(64, |i: int| cell(mask, mirror_square(i, mirror) as u64))
}

/// Occupancy mask of the pieces of one kind belonging to one side.
pub open spec fn side_occupancy(b: chess::Board, kind: PieceKind, white: bool) -> u64 {
    piece_squares(b, kind) & color_squares(b, white)
}

/// The piece kind encoded by block `j` of a state vector (j and j + 6 hold
/// the same kind, first for the mover, then for the opponent).
pub open spec fn kind_order(j: int) -> PieceKind {
    if j == 0 {
        PieceKind::Pawn
    } else if j == 1 {
        PieceKind::Bishop
    } else if j == 2 {
        PieceKind::Knight
    } else if j == 3 {
        PieceKind::Rook
    } else if j == 4 {
        PieceKind::Queen
    } else {
        PieceKind::King
    }
}

pub open spec fn block_kind(j: int) -> PieceKind {
    if j < 6 {
        kind_order(j)
    } else {
        kind_order(j - 6)
    }
}

/// Which colour block `j` encodes: the first six blocks hold the mover's
/// pieces, the last six the opponent's.
pub open spec fn block_color(j: int, player_white: bool) -> bool {
    (j < 6) == player_white
}

/// Cell `k` of the state vector of `b` seen from the given side.
pub open spec fn state_cell(b: chess::Board, player_white: bool, k: int) -> i64 {
    cell(
        side_occupancy(b, block_kind(k / 64), block_color(k / 64, player_white)),
        mirror_square(k % 64, !player_white) as u64,
    )
}

/// The full 768-cell state vector of `b` seen from the given side: twelve
/// 64-cell blocks, the mover's six piece kinds first, then the opponent's,
/// mirrored whenever the mover is the black side.
pub open spec fn state_spec(b: chess::Board, player_white: bool) -> Seq<i64> {
    Seq::new(768, |k: int| state_cell(b, player_white, k))
}

/// Turns one occupancy mask into its 64-cell block of 0/1 cells.
pub fn mask_cells(mask: u64, mirror: bool) -> (v: Vec<i64>)
    ensures
        v@ == block_spec(mask, mirror),
        v@.len() == 64,
        forall|i: int| 0 <= i < 64 ==> v@[i] == 0 || v@[i] == 1,
{
    let mut v: Vec<i64> = Vec::new();
    let mut i: usize = 0;
    while i < 64
        invariant
            i <= 64,
            v@.len() == i,
            forall|j: int| 0 <= j < i ==> v@[j] == block_spec(mask, mirror)[j],
        decreases 64 - i,
    {
        let sq: u64 = if mirror {
            63 - (i as u64)
        } else {
            i as u64
        };
        let b: i64 = if (mask >> sq) & 1u64 == 1u64 {
            1
        } else {
            0
        };
        assert(b == block_spec(mask, mirror)[i as int]);
        v.push(b);
        i += 1;
    }
    assert(v@ =~= block_spec(mask, mirror));
    assert(forall|j: int| 0 <= j < 64 ==> v@[j] == 0 || v@[j] == 1);
    v
}

/// Encodes `b` as its state vector from the given side's viewpoint: for each
/// of the six piece kinds in the fixed order, the mover's occupancy block,
/// then the opponent's six blocks, every block mirrored when the mover is
/// the black side.
pub fn get_state(b: &chess::Board, player_white: bool) -> (v: Vec<i64>)
    ensures
        v@ == state_spec(*b, player_white),
        v@.len() == 768,
        forall|k: int| 0 <= k < 768 ==> v@[k] == 0 || v@[k] == 1,
{
    let mut v: Vec<i64> = Vec::new();
    let mut j: usize = 0;
    while j < 12
        invariant
            j <= 12,
            v@.len() == 64 * j,
            forall|k: int| 0 <= k < 64 * j ==> v@[k] == state_cell(*b, player_white, k),
        decreases 12 - j,
    {
        let kind = kind_at(if j < 6 { j } else { j - 6 });
        let white = (j < 6) == player_white;
        let mask = crate::board::pieces_of(b, kind) & crate::board::color_of(b, white);
        assert(mask == side_occupancy(*b, block_kind(j as int), block_color(j as int, player_white)));
        let mut block = mask_cells(mask, !player_white);
        let ghost old_len = v@.len();
        v.append(&mut block);
        assert forall|k: int| 0 <= k < 64 * (j + 1) implies v@[k] == state_cell(
            *b,
            player_white,
            k,
        ) by {
            if k >= old_len {
                let i = k - 64 * (j as int);
                assert(v@[k] == block_spec(
                    side_occupancy(*b, block_kind(j as int), block_color(j as int, player_white)),
                    !player_white,
                )[i]);
                assert(k / 64 == j as int) by {
                    vstd::arithmetic::div_mod::lemma_fundamental_div_mod_converse(
                        k,
                        64,
                        j as int,
                        i,
                    );
                }
                assert(k % 64 == i) by {
                    vstd::arithmetic::div_mod::lemma_fundamental_div_mod_converse(
                        k,
                        64,
                        j as int,
                        i,
                    );
                }
            }
        }
        j += 1;
    }
    assert(v@ =~= state_spec(*b, player_white));
    v
}

/// Sum of the first `n` cells of `s`.
pub open spec fn seq_sum_upto(s: Seq<i64>, n: int) -> int
    decreases n,
{
    if n <= 0 {
        0
    } else {
        seq_sum_upto(s, n - 1) + s[n - 1]
    }
}

/// Number of occupied squares below square `n` of mask `m`.
pub open spec fn mask_ones(m: u64, n: int) -> int
    decreases n,
{
    if n <= 0 {
        0
    } else {
        mask_ones(m, n - 1) + cell(m, (n - 1) as u64)
    }
}

/// Mirroring law: seen from the white side, the mover's blocks hold the same
/// pieces as the opponent's blocks seen from the black side, reflected
/// through the square mirror, and the other way round.
pub proof fn lemma_state_mirror(b: chess::Board, j: int, i: int)
    requires
        0 <= j < 6,
        0 <= i < 64,
    ensures
        state_spec(b, true)[j * 64 + i] == state_spec(b, false)[(j + 6) * 64 + (63 - i)],
        state_spec(b, true)[(j + 6) * 64 + i] == state_spec(b, false)[j * 64 + (63 - i)],
{
    lemma_block_split(j, i);
    lemma_block_split(j + 6, 63 - i);
    lemma_block_split(j + 6, i);
    lemma_block_split(j, 63 - i);
}

/// Cell `j * 64 + i` lies in block `j` at offset `i`.
pub proof fn lemma_block_split(j: int, i: int)
    requires
        0 <= i < 64,
    ensures
        (j * 64 + i) / 64 == j,
        (j * 64 + i) % 64 == i,
{
    vstd::arithmetic::div_mod::lemma_fundamental_div_mod_converse(j * 64 + i, 64, j, i);
}

/// A block built from a single-square mask holds exactly one set cell, at
/// the (possibly mirrored) index of that square.
pub proof fn lemma_one_hot_block(s: u64, mirror: bool)
    requires
        s < 64,
    ensures
        forall|i: int|
            0 <= i < 64 ==> block_spec(1u64 << s, mirror)[i] == (if i == mirror_square(
                s as int,
                mirror,
            ) {
                1i64
            } else {
                0i64
            }),
{
    assert forall|i: int| 0 <= i < 64 implies block_spec(1u64 << s, mirror)[i] == (if i
        == mirror_square(s as int, mirror) {
        1i64
    } else {
        0i64
    }) by {
        let t = mirror_square(i, mirror) as u64;
        assert(((1u64 << s) >> t) & 1u64 == (if t == s {
            1u64
        } else {
            0u64
        })) by (bit_vector)
            requires
                s < 64,
                t < 64,
        ;
    }
}

/// A single-square mask occupies exactly one square.
pub proof fn lemma_one_hot_ones(s: u64)
    requires
        s < 64,
    ensures
        mask_ones(1u64 << s, 64) == 1,
{
    lemma_ones_single(s, 64);
}

proof fn lemma_ones_single(s: u64, n: int)
    requires
        s < 64,
        0 <= n <= 64,
    ensures
        mask_ones(1u64 << s, n) == if s < n {
            1int
        } else {
            0int
        },
    decreases n,
{
    if n > 0 {
        lemma_ones_single(s, n - 1);
        let t = (n - 1) as u64;
        assert(((1u64 << s) >> t) & 1u64 == (if t == s {
            1u64
        } else {
            0u64
        })) by (bit_vector)
            requires
                s < 64,
                t < 64,
        ;
    }
}

/// The set cells of a block count the occupied squares of its mask, whichever
/// way the block is mirrored.
pub proof fn lemma_block_ones(m: u64, mirror: bool)
    ensures
        seq_sum_upto(block_spec(m, mirror), 64) == mask_ones(m, 64),
{
    if mirror {
        lemma_mirrored_sum(m, 64);
    } else {
        lemma_plain_sum(m, 64);
    }
}

proof fn lemma_plain_sum(m: u64, n: int)
    requires
        0 <= n <= 64,
    ensures
        seq_sum_upto(block_spec(m, false), n) == mask_ones(m, n),
    decreases n,
{
    if n > 0 {
        lemma_plain_sum(m, n - 1);
    }
}

proof fn lemma_mirrored_sum(m: u64, n: int)
    requires
        0 <= n <= 64,
    ensures
        seq_sum_upto(block_spec(m, true), n) == mask_ones(m, 64) - mask_ones(m, 64 - n),
    decreases n,
{
    if n > 0 {
        lemma_mirrored_sum(m, n - 1);
        assert(mask_ones(m, 64 - n + 1) == mask_ones(m, 64 - n) + cell(m, (64 - n) as u64));
        assert(block_spec(m, true)[n - 1] == cell(m, (64 - n) as u64));
    }
}

// The ASCII codes of the square-token letters and digits and of the
// promotion letters: 'a', 'h', '1', '8', 'b', 'n', 'r'.
pub const FILE_A: u8 = 97;

pub const FILE_H: u8 = 104;

pub const RANK_1: u8 = 49;

pub const RANK_8: u8 = 56;

pub const PROMO_BISHOP: u8 = 98;

pub const PROMO_KNIGHT: u8 = 110;

pub const PROMO_ROOK: u8 = 114;

/// Why a move token could not be encoded: the wrong number of characters, or
/// a square token outside files a..h and ranks 1..8.
#[derive(Clone, Copy, PartialEq, Eq, Structural, Debug)]
pub enum EncodingError {
    BadLength,
    BadSquare,
}

/// A well-formed square token: a file letter a..h followed by a rank digit 1..8.
pub open spec fn valid_square_bytes(f: u8, r: u8) -> bool {
    FILE_A <= f <= FILE_H && RANK_1 <= r <= RANK_8
}

/// The square named by a square token, counted as file + 8 * rank with a1
/// first.
pub open spec fn square_index(f: u8, r: u8) -> int {
    (r - RANK_1) * 8 + (f - FILE_A)
}

/// A well-formed move token: origin and destination square tokens, then an
/// optional promotion letter.
pub open spec fn valid_move_token(s: Seq<u8>) -> bool {
    (s.len() == 4 || s.len() == 5) && valid_square_bytes(s[0], s[1]) && valid_square_bytes(
        s[2],
        s[3],
    )
}

/// The 4-cell promotion block of a move token: all zero without a promotion
/// letter, otherwise a one-hot choice among bishop, knight, rook and queen,
/// with queen standing for any unrecognised letter.
pub open spec fn promo_spec(s: Seq<u8>) -> Seq<i64> {
    if s.len() == 4 {
        seq![0i64, 0i64, 0i64, 0i64]
    } else if s[4] == PROMO_BISHOP {
        seq![1i64, 0i64, 0i64, 0i64]
    } else if s[4] == PROMO_KNIGHT {
        seq![0i64, 1i64, 0i64, 0i64]
    } else if s[4] == PROMO_ROOK {
        seq![0i64, 0i64, 1i64, 0i64]
    } else {
        seq![0i64, 0i64, 0i64, 1i64]
    }
}

/// The 132-cell action vector of a well-formed move token: a one-hot origin
/// block, a one-hot destination block, then the promotion block, the square
/// blocks mirrored whenever the mover is the black side.
pub open spec fn action_spec(s: Seq<u8>, player_white: bool) -> Seq<i64> {
    block_spec(1u64 << (square_index(s[0], s[1]) as u64), !player_white) + block_spec(
        1u64 << (square_index(s[2], s[3]) as u64),
        !player_white,
    ) + promo_spec(s)
}

/// Parses one square token into its square number.
fn square_from_bytes(f: u8, r: u8) -> (o: Option<u64>)
    ensures
        o is Some <==> valid_square_bytes(f, r),
        o is Some ==> o->0 == square_index(f, r) && o->0 < 64,
{
    if FILE_A <= f && f <= FILE_H && RANK_1 <= r && r <= RANK_8 {
        Some(((r - RANK_1) as u64) * 8 + ((f - FILE_A) as u64))
    } else {
        None
    }
}

/// Encodes a move token as its action vector from the given side's viewpoint,
/// or reports exactly why the token is malformed.
pub fn get_action(uci: &str, player_white: bool) -> (r: Result<Vec<i64>, EncodingError>)
    ensures
        r is Ok <==> valid_move_token(uci.spec_bytes()),
        r is Ok ==> r->Ok_0@ == action_spec(uci.spec_bytes(), player_white) && r->Ok_0@.len()
            == 132,
        r is Err ==> (r->Err_0 == EncodingError::BadLength <==> !(uci.spec_bytes().len() == 4
            || uci.spec_bytes().len() == 5)),
        r is Err ==> (r->Err_0 == EncodingError::BadSquare <==> (uci.spec_bytes().len() == 4
            || uci.spec_bytes().len() == 5) && !valid_move_token(uci.spec_bytes())),
{
    let bytes = uci.as_bytes();
    if !(bytes.len() == 4 || bytes.len() == 5) {
        return Err(EncodingError::BadLength);
    }
    let o1 = square_from_bytes(bytes[0], bytes[1]);
    let o2 = square_from_bytes(bytes[2], bytes[3]);
    match (o1, o2) {
        (Some(sq0), Some(sq1)) => {
            let mut v = mask_cells(1u64 << sq0, !player_white);
            let mut dest = mask_cells(1u64 << sq1, !player_white);
            v.append(&mut dest);
            let (p0, p1, p2, p3): (i64, i64, i64, i64) = if bytes.len() == 4 {
                (0, 0, 0, 0)
            } else {
                let c = bytes[4];
                if c == PROMO_BISHOP {
                    (1, 0, 0, 0)
                } else if c == PROMO_KNIGHT {
                    (0, 1, 0, 0)
                } else if c == PROMO_ROOK {
                    (0, 0, 1, 0)
                } else {
                    (0, 0, 0, 1)
                }
            };
            v.push(p0);
            v.push(p1);
            v.push(p2);
            v.push(p3);
            assert(v@ =~= action_spec(uci.spec_bytes(), player_white));
            Ok(v)
        },
        _ => Err(EncodingError::BadSquare),
    }
}

/// The origin and destination blocks of an encoded action each hold exactly
/// one set cell, at the (possibly mirrored) origin and destination squares.
pub proof fn lemma_action_one_hot(s: Seq<u8>, player_white: bool)
    requires
        valid_move_token(s),
    ensures
        forall|k: int|
            0 <= k < 64 ==> action_spec(s, player_white)[k] == (if k == mirror_square(
                square_index(s[0], s[1]),
                !player_white,
            ) {
                1i64
            } else {
                0i64
            }),
        forall|k: int|
            64 <= k < 128 ==> action_spec(s, player_white)[k] == (if k - 64 == mirror_square(
                square_index(s[2], s[3]),
                !player_white,
            ) {
                1i64
            } else {
                0i64
            }),
{
    let sq0 = square_index(s[0], s[1]);
    let sq1 = square_index(s[2], s[3]);
    lemma_one_hot_block(sq0 as u64, !player_white);
    lemma_one_hot_block(sq1 as u64, !player_white);
    assert forall|k: int| 0 <= k < 64 implies action_spec(s, player_white)[k] == (if k
        == mirror_square(sq0, !player_white) {
        1i64
    } else {
        0i64
    }) by {
        assert(action_spec(s, player_white)[k] == block_spec(
            1u64 << (sq0 as u64),
            !player_white,
        )[k]);
    }
    assert forall|k: int| 64 <= k < 128 implies action_spec(s, player_white)[k] == (if k - 64
        == mirror_square(sq1, !player_white) {
        1i64
    } else {
        0i64
    }) by {
        assert(action_spec(s, player_white)[k] == block_spec(
            1u64 << (sq1 as u64),
            !player_white,
        )[k - 64]);
    }
}

/// The promotion block of an encoded action is all zero exactly when the
/// move token has no promotion letter.
pub proof fn lemma_promotion_block(s: Seq<u8>, player_white: bool)
    requires
        valid_move_token(s),
    ensures
        (forall|k: int| 128 <= k < 132 ==> action_spec(s, player_white)[k] == 0) <==> s.len()
            == 4,
{
    assert forall|k: int| 128 <= k < 132 implies action_spec(s, player_white)[k] == promo_spec(
        s,
    )[k - 128] by {}
    if s.len() == 5 {
        if s[4] == PROMO_BISHOP {
            assert(action_spec(s, player_white)[128] == 1);
        } else if s[4] == PROMO_KNIGHT {
            assert(action_spec(s, player_white)[129] == 1);
        } else if s[4] == PROMO_ROOK {
            assert(action_spec(s, player_white)[130] == 1);
        } else {
            assert(action_spec(s, player_white)[131] == 1);
        }
    }
}

/// The piece kind at position `j` of the fixed order.
fn kind_at(j: usize) -> (k: PieceKind)
    requires
        j < 6,
    ensures
        k == kind_order(j as int),
{
    if j == 0 {
        PieceKind::Pawn
    } else if j == 1 {
        PieceKind::Bishop
    } else if j == 2 {
        PieceKind::Knight
    } else if j == 3 {
        PieceKind::Rook
    } else if j == 4 {
        PieceKind::Queen
    } else {
        PieceKind::King
    }
}

} // verus!
