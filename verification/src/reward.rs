use vstd::prelude::*;

use crate::board::{status_index, white_to_move, Status};
use crate::encoding::{
    block_color, block_kind, block_spec, lemma_block_ones, mask_ones, seq_sum_upto,
    side_occupancy, state_spec,
};

verus! {

/// Fixed-point scale of every reward and score: one full point of material
/// is `UNIT` reward units.
pub const UNIT: i64 = 1000;

/// Magnitude of the reward for winning (and of the penalty for losing) by
/// checkmate.
pub const WIN_REWARD: i64 = 100 * UNIT;

/// The reward a position pays the given side: checkmate pays `WIN_REWARD`
/// to the winner and `-WIN_REWARD` to the checkmated side to move; stalemate
/// and ongoing positions pay nothing.
pub open spec fn reward_spec(status: int, stm_white: bool, player_white: bool) -> int {
    if status == 2 {
        if stm_white == player_white {
            -WIN_REWARD as int
        } else {
            WIN_REWARD as int
        }
    } else {
        0
    }
}

/// Reads the reward of `b` for the given side off the rules engine's status:
/// a checkmate against the side to move loses for that side, any other
/// status pays zero.
pub fn get_reward(b: &chess::Board, player_white: bool) -> (r: i64)
    ensures
        r == reward_spec(status_index(*b), white_to_move(*b), player_white),
{
    match crate::board::status_of(b) {
        Status::Checkmate => {
            if crate::board::side_of(b) == player_white {
                -WIN_REWARD
            } else {
                WIN_REWARD
            }
        },
        _ => 0,
    }
}

/// Material value of one piece kind, by its position in the fixed order:
/// pawn 1, bishop 3, knight 3, rook 5, queen 10, king 0.
pub open spec fn piece_value(j: int) -> int {
    if j == 0 {
        1
    } else if j == 1 || j == 2 {
        3
    } else if j == 3 {
        5
    } else if j == 4 {
        10
    } else {
        0
    }
}

/// Signed weight of block `j` of a state vector: the mover's six blocks count
/// positively, the opponent's negatively.
pub open spec fn block_weight(j: int) -> int {
    if j < 6 {
        piece_value(j)
    } else {
        -piece_value(j - 6)
    }
}

/// Sum of the `i` cells of `s` starting at `base`.
pub open spec fn block_sum_upto(s: Seq<i64>, base: int, i: int) -> int
    decreases i,
{
    if i <= 0 {
        0
    } else {
        block_sum_upto(s, base, i - 1) + s[base + i - 1]
    }
}

/// Weighted material balance of the first `j` blocks of a state vector.
pub open spec fn material_upto(s: Seq<i64>, j: int) -> int
    decreases j,
{
    if j <= 0 {
        0
    } else {
        material_upto(s, j - 1) + block_weight(j - 1) * block_sum_upto(s, (j - 1) * 64, 64)
    }
}

/// Weighted material balance of a full state vector: each occupied cell
/// counts its piece value, positively in the mover's blocks and negatively
/// in the opponent's.
pub open spec fn material(s: Seq<i64>) -> int {
    material_upto(s, 12)
}

/// Signed weight of block `j`, as a machine value.
fn block_weight_at(j: usize) -> (w: i64)
    requires
        j < 12,
    ensures
        w == block_weight(j as int),
        -10 <= w <= 10,
{
    let v: i64 = if j == 0 || j == 6 {
        1
    } else if j == 1 || j == 2 || j == 7 || j == 8 {
        3
    } else if j == 3 || j == 9 {
        5
    } else if j == 4 || j == 10 {
        10
    } else {
        0
    };
    if j < 6 {
        v
    } else {
        -v
    }
}

/// The heuristic reward of a voluntarily declared draw: twice the weighted
/// material balance of the mover's already-encoded state vector, in reward
/// units.
pub fn point_difference(state: &Vec<i64>) -> (r: i64)
    requires
        state@.len() == 768,
        forall|k: int| 0 <= k < 768 ==> 0 <= #[trigger] state@[k] <= 1,
    ensures
        r == 2 * UNIT * material(state@),
{
    let mut acc: i64 = 0;
    let mut j: usize = 0;
    while j < 12
        invariant
            j <= 12,
            state@.len() == 768,
            forall|k: int| 0 <= k < 768 ==> 0 <= #[trigger] state@[k] <= 1,
            acc == material_upto(state@, j as int),
            -640 * j <= acc <= 640 * j,
        decreases 12 - j,
    {
        let mut bsum: i64 = 0;
        let mut i: usize = 0;
        while i < 64
            invariant
                j < 12,
                i <= 64,
                state@.len() == 768,
                forall|k: int| 0 <= k < 768 ==> 0 <= #[trigger] state@[k] <= 1,
                bsum == block_sum_upto(state@, j as int * 64, i as int),
                0 <= bsum <= i,
            decreases 64 - i,
        {
            bsum = bsum + state[j * 64 + i];
            i += 1;
        }
        let w = block_weight_at(j);
        assert(-640 <= w * bsum <= 640) by (nonlinear_arith)
            requires
                -10 <= w <= 10,
                0 <= bsum <= 64,
        ;
        acc = acc + w * bsum;
        j += 1;
    }
    assert(-7680 <= acc <= 7680);
    let doubled: i64 = 2 * acc;
    let scaled: i64 = UNIT * doubled;
    assert(scaled == 2 * UNIT * material(state@)) by (nonlinear_arith)
        requires
            doubled == 2 * material(state@),
            scaled == UNIT * doubled,
    ;
    scaled
}

/// Checkmate pays the two sides the same magnitude with opposite signs, and
/// anything short of checkmate pays both sides nothing.
pub proof fn lemma_reward_antisymmetry(status: int, stm_white: bool)
    ensures
        reward_spec(status, stm_white, true) == -reward_spec(status, stm_white, false),
        status == 2 ==> reward_spec(status, stm_white, !stm_white) == WIN_REWARD,
        status == 2 ==> reward_spec(status, stm_white, stm_white) == -WIN_REWARD,
        status != 2 ==> reward_spec(status, stm_white, true) == 0,
        status != 2 ==> reward_spec(status, stm_white, false) == 0,
{
}

/// The cells of block `j` of a state vector sum to the number of occupied
/// squares of that block's mask: a block whose piece kind has exactly one
/// piece on the board holds exactly one set cell, an empty one holds none.
pub proof fn lemma_state_block_sum(b: chess::Board, player_white: bool, j: int)
    requires
        0 <= j < 12,
    ensures
        block_sum_upto(state_spec(b, player_white), j * 64, 64) == mask_ones(
            side_occupancy(b, block_kind(j), block_color(j, player_white)),
            64,
        ),
{
    let m = side_occupancy(b, block_kind(j), block_color(j, player_white));
    lemma_state_block_prefix(b, player_white, j, 64);
    lemma_block_ones(m, !player_white);
}

proof fn lemma_state_block_prefix(b: chess::Board, player_white: bool, j: int, i: int)
    requires
        0 <= j < 12,
        0 <= i <= 64,
    ensures
        block_sum_upto(state_spec(b, player_white), j * 64, i) == seq_sum_upto(
            block_spec(
                side_occupancy(b, block_kind(j), block_color(j, player_white)),
                !player_white,
            ),
            i,
        ),
    decreases i,
{
    if i > 0 {
        lemma_state_block_prefix(b, player_white, j, i - 1);
        crate::encoding::lemma_block_split(j, i - 1);
    }
}

/// Weighted count of one side's pieces among the first `j` kinds of the
/// fixed order, read off the occupancy masks themselves.
spec fn side_material_upto(b: chess::Board, white: bool, j: int) -> int
    decreases j,
{
    if j <= 0 {
        0
    } else {
        side_material_upto(b, white, j - 1) + piece_value(j - 1) * mask_ones(
            side_occupancy(b, crate::encoding::kind_order(j - 1), white),
            64,
        )
    }
}

/// The mover's half of the material balance counts the mover's own pieces.
proof fn lemma_material_mover_half(b: chess::Board, player_white: bool, j: int)
    requires
        0 <= j <= 6,
    ensures
        material_upto(state_spec(b, player_white), j) == side_material_upto(b, player_white, j),
    decreases j,
{
    if j > 0 {
        lemma_material_mover_half(b, player_white, j - 1);
        lemma_state_block_sum(b, player_white, j - 1);
    }
}

/// The opponent's half subtracts the opponent's pieces from the mover's
/// count.
proof fn lemma_material_opponent_half(b: chess::Board, player_white: bool, j: int)
    requires
        0 <= j <= 6,
    ensures
        material_upto(state_spec(b, player_white), 6 + j) == side_material_upto(
            b,
            player_white,
            6,
        ) - side_material_upto(b, !player_white, j),
    decreases j,
{
    if j == 0 {
        lemma_material_mover_half(b, player_white, 6);
    } else {
        lemma_material_opponent_half(b, player_white, j - 1);
        lemma_state_block_sum(b, player_white, 5 + j);
        let s = state_spec(b, player_white);
        let v = piece_value(j - 1);
        let m = mask_ones(
            side_occupancy(b, crate::encoding::kind_order(j - 1), !player_white),
            64,
        );
        assert(material_upto(s, 6 + j) == material_upto(s, 5 + j) + block_weight(5 + j)
            * block_sum_upto(s, (5 + j) * 64, 64));
        assert(block_sum_upto(s, (5 + j) * 64, 64) == m);
        assert(block_weight(5 + j) == -v);
        assert((-v) * m == -(v * m)) by (nonlinear_arith);
    }
}

/// Swapping the encoding viewpoint swaps the roles of the mover's and the
/// opponent's blocks, so the material balance of a position changes sign.
pub proof fn lemma_draw_heuristic_antisymmetry(b: chess::Board)
    ensures
        material(state_spec(b, true)) == -material(state_spec(b, false)),
{
    lemma_material_opponent_half(b, true, 6);
    lemma_material_opponent_half(b, false, 6);
}

} // verus!
