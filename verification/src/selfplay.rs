use vstd::prelude::*;

use rand::Rng;

use crate::board::legal_tokens;

verus! {

/// One recorded transition: the encoded state the mover acted from, the
/// encoded action, the reward observed once the opponent had replied (or the
/// game had ended), the encoded state after that reply, and the position it
/// belongs to, kept so the learner can enumerate its follow-up moves.
pub struct Experience {
    pub state: Vec<i64>,
    pub action: Vec<i64>,
    pub reward: i64,
    pub next_state: Vec<i64>,
    pub next_board: chess::Board,
}

/// Where a self-play game stands: the mover is to act, the mover has acted
/// and the turn's outcome is awaited, or the game is over.
#[derive(Clone, Copy, PartialEq, Eq, Structural)]
pub enum Phase {
    MoverTurn,
    Replying,
    Finished,
}

/// Decides the exploration gate from the turn's random draw, given in
/// thousandths of the unit interval: the mover plays by policy when the draw
/// exceeds one half, and plays a uniformly random move otherwise.
pub fn plays_by_policy(r: u64) -> (b: bool)
    ensures
        b == (r > 500),
{
    r > 500
}

/// One self-play game in progress: the recorder of its transitions, the
/// pending transition of the current turn, and the turn's random draw, which
/// later decides whether the completed pair of moves is retained.
pub struct SelfPlay {
    pub phase: Phase,
    pub pending_state: Vec<i64>,
    pub pending_action: Vec<i64>,
    pub pending_r: u64,
    pub memory: Vec<Experience>,
}

impl SelfPlay {
    /// A fresh game: the mover is to act and nothing is recorded yet.
    pub fn new() -> (s: Self)
        ensures
            s.phase is MoverTurn,
            s.memory@.len() == 0,
    {
        SelfPlay {
            phase: Phase::MoverTurn,
            pending_state: Vec::new(),
            pending_action: Vec::new(),
            pending_r: 0,
            memory: Vec::new(),
        }
    }

    /// The mover has drawn `r`, chosen a move accordingly and played it:
    /// remember the encoded pre-move state and action, and the draw, until
    /// the turn's outcome is known.
    pub fn begin_turn(&mut self, r: u64, state: Vec<i64>, action: Vec<i64>)
        requires
            old(self).phase is MoverTurn,
            r <= 1000,
        ensures
            final(self).phase is Replying,
            final(self).pending_state@ == state@,
            final(self).pending_action@ == action@,
            final(self).pending_r == r,
            final(self).memory@ == old(self).memory@,
    {
        self.pending_state = state;
        self.pending_action = action;
        self.pending_r = r;
        self.phase = Phase::Replying;
    }

    /// Takes the pending state and action out, leaving empty vectors behind.
    fn take_pending(&mut self) -> (p: (Vec<i64>, Vec<i64>))
        ensures
            p.0@ == old(self).pending_state@,
            p.1@ == old(self).pending_action@,
            final(self).phase == old(self).phase,
            final(self).pending_r == old(self).pending_r,
            final(self).memory@ == old(self).memory@,
    {
        let mut state: Vec<i64> = Vec::new();
        let mut action: Vec<i64> = Vec::new();
        core::mem::swap(&mut state, &mut self.pending_state);
        core::mem::swap(&mut action, &mut self.pending_action);
        (state, action)
    }

    /// The mover's own move ended the game by rule: record the pending
    /// transition unconditionally, with the terminal reward, and finish.
    pub fn finish_terminal(&mut self, reward: i64, next_state: Vec<i64>, next_board: chess::Board)
        requires
            old(self).phase is Replying,
        ensures
            final(self).phase is Finished,
            final(self).memory@.len() == old(self).memory@.len() + 1,
            final(self).memory@.subrange(0, old(self).memory@.len() as int) == old(self).memory@,
            final(self).memory@.last().state@ == old(self).pending_state@,
            final(self).memory@.last().action@ == old(self).pending_action@,
            final(self).memory@.last().reward == reward,
            final(self).memory@.last().next_state@ == next_state@,
            final(self).memory@.last().next_board == next_board,
    {
        let (state, action) = self.take_pending();
        self.memory.push(
            Experience { state, action, reward, next_state, next_board },
        );
        self.phase = Phase::Finished;
        proof {
            assert(self.memory@.subrange(0, old(self).memory@.len() as int) =~= old(
                self,
            ).memory@);
        }
    }

    /// The game may be voluntarily declared drawn after the mover's move:
    /// record the pending transition unconditionally, rewarding the mover
    /// with the heuristic material balance of the reached state, and finish.
    pub fn finish_draw_claim(&mut self, next_state: Vec<i64>, next_board: chess::Board)
        requires
            old(self).phase is Replying,
            next_state@.len() == 768,
            forall|k: int| 0 <= k < 768 ==> 0 <= #[trigger] next_state@[k] <= 1,
        ensures
            final(self).phase is Finished,
            final(self).memory@.len() == old(self).memory@.len() + 1,
            final(self).memory@.subrange(0, old(self).memory@.len() as int) == old(self).memory@,
            final(self).memory@.last().state@ == old(self).pending_state@,
            final(self).memory@.last().action@ == old(self).pending_action@,
            final(self).memory@.last().reward == 2 * crate::reward::UNIT * crate::reward::material(
                next_state@,
            ),
            final(self).memory@.last().next_state@ == next_state@,
            final(self).memory@.last().next_board == next_board,
    {
        let reward = crate::reward::point_difference(&next_state);
        let (state, action) = self.take_pending();
        self.memory.push(
            Experience { state, action, reward, next_state, next_board },
        );
        self.phase = Phase::Finished;
        proof {
            assert(self.memory@.subrange(0, old(self).memory@.len() as int) =~= old(
                self,
            ).memory@);
        }
    }

    /// The opponent has replied and the game goes on: complete the pending
    /// transition with the observed reward, retain it only when the turn's
    /// draw fell below one fifth, and hand the turn back to the mover.
    pub fn finish_reply(&mut self, reward: i64, next_state: Vec<i64>, next_board: chess::Board)
        requires
            old(self).phase is Replying,
        ensures
            final(self).phase is MoverTurn,
            old(self).pending_r < 200 ==> final(self).memory@.len() == old(self).memory@.len()
                + 1,
            old(self).pending_r < 200 ==> final(self).memory@.subrange(
                0,
                old(self).memory@.len() as int,
            ) == old(self).memory@,
            old(self).pending_r < 200 ==> final(self).memory@.last().state@ == old(
                self,
            ).pending_state@,
            old(self).pending_r < 200 ==> final(self).memory@.last().action@ == old(
                self,
            ).pending_action@,
            old(self).pending_r < 200 ==> final(self).memory@.last().reward == reward,
            old(self).pending_r < 200 ==> final(self).memory@.last().next_state@ == next_state@,
            old(self).pending_r < 200 ==> final(self).memory@.last().next_board == next_board,
            old(self).pending_r >= 200 ==> final(self).memory@ == old(self).memory@,
    {
        if self.pending_r < 200 {
            let (state, action) = self.take_pending();
            self.memory.push(
                Experience { state, action, reward, next_state, next_board },
            );
            proof {
                assert(self.memory@.subrange(0, old(self).memory@.len() as int) =~= old(
                    self,
                ).memory@);
            }
        }
        self.phase = Phase::MoverTurn;
    }

    /// Hands the recorded transitions over at the end of the game.
    pub fn into_memory(self) -> (m: Vec<Experience>)
        ensures
            m@ == self.memory@,
    {
        self.memory
    }
}

/// Relies on rand::Rng::gen_range: a uniformly random index below `n`.
#[verifier::external_body]
fn random_below(n: usize) -> (r: usize)
    requires
        n > 0,
    ensures
        r < n,
{
    rand::thread_rng().gen_range(0..n)
}

/// Picks a uniformly random legal move of `b`, as its move token, or `None`
/// when no legal move exists.
pub fn make_random_move(b: &chess::Board) -> (r: Option<String>)
    ensures
        r is Some <==> legal_tokens(*b).len() > 0,
        r is Some ==> exists|i: int|
            0 <= i < legal_tokens(*b).len() && r->0@ == legal_tokens(*b)[i],
{
    let moves = crate::board::legal_move_tokens(b);
    if moves.len() == 0 {
        return None;
    }
    let idx = random_below(moves.len());
    let m = moves[idx].clone();
    assert(m@ == legal_tokens(*b)[idx as int]);
    Some(m)
}

} // verus!
