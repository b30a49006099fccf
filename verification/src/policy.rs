use vstd::prelude::*;

verus! {

/// Every score and reward handed to the Bellman arithmetic stays within
/// this bound, so that the discounting cannot overflow.
pub const SCORE_LIMIT: i64 = 1_000_000_000_000;

/// Largest value of a non-empty score sequence.
pub open spec fn seq_max(s: Seq<i64>) -> int
    recommends
        s.len() > 0,
    decreases s.len(),
{
    if s.len() <= 1 {
        s[0] as int
    } else if s.last() as int >= seq_max(s.drop_last()) {
        s.last() as int
    } else {
        seq_max(s.drop_last())
    }
}

/// The continuation value of the scores of the follow-up moves: zero when
/// no move remains (a terminal position), otherwise the largest score.
pub open spec fn continuation(s: Seq<i64>) -> int {
    if s.len() == 0 {
        0
    } else {
        seq_max(s)
    }
}

/// The largest value of a non-empty score sequence bounds every element and
/// is attained by one of them.
pub proof fn lemma_seq_max_props(s: Seq<i64>)
    requires
        s.len() > 0,
    ensures
        forall|j: int| 0 <= j < s.len() ==> s[j] <= seq_max(s),
        exists|j: int| 0 <= j < s.len() && s[j] == seq_max(s),
    decreases s.len(),
{
    if s.len() == 1 {
        assert(s[0] == seq_max(s));
    } else {
        lemma_seq_max_props(s.drop_last());
        assert(forall|j: int| 0 <= j < s.len() - 1 ==> s[j] == s.drop_last()[j]);
        if s.last() as int >= seq_max(s.drop_last()) {
            assert(s[s.len() - 1] == seq_max(s));
        } else {
            let j = choose|j: int|
                0 <= j < s.len() - 1 && s.drop_last()[j] == seq_max(s.drop_last());
            assert(s[j] == seq_max(s));
        }
    }
}

/// Picks the position of the highest score, a later candidate displacing an
/// earlier one that scores the same, so that the move enumerator's stable
/// order breaks ties reproducibly; `None` exactly when no candidate exists.
pub fn best_index(scores: &Vec<i64>) -> (r: Option<usize>)
    ensures
        r is Some <==> scores@.len() > 0,
        r is Some ==> 0 <= r->0 < scores@.len(),
        r is Some ==> forall|j: int| 0 <= j < scores@.len() ==> #[trigger] scores@[j] <= scores@[r->0 as int],
        r is Some ==> forall|j: int|
            r->0 < j < scores@.len() ==> #[trigger] scores@[j] < scores@[r->0 as int],
{
    if scores.len() == 0 {
        return None;
    }
    let mut bi: usize = 0;
    let mut bs: i64 = scores[0];
    let mut i: usize = 1;
    while i < scores.len()
        invariant
            1 <= i <= scores@.len(),
            bi < i,
            bs == scores@[bi as int],
            forall|j: int| 0 <= j < i ==> scores@[j] <= bs,
            forall|j: int| bi < j < i ==> scores@[j] < bs,
        decreases scores@.len() - i,
    {
        let sc = scores[i];
        if sc >= bs {
            bs = sc;
            bi = i;
        }
        i += 1;
    }
    Some(bi)
}

/// The best follow-up score of a recorded transition: zero when the next
/// position offers no move, otherwise the largest score among them.
pub fn compute_q_max(scores: &Vec<i64>) -> (q: i64)
    ensures
        q == continuation(scores@),
        scores@.len() == 0 ==> q == 0,
        forall|j: int| 0 <= j < scores@.len() ==> scores@[j] <= q,
        scores@.len() > 0 ==> exists|j: int| 0 <= j < scores@.len() && scores@[j] == q,
{
    if scores.len() == 0 {
        return 0;
    }
    let mut best: i64 = scores[0];
    let mut i: usize = 1;
    while i < scores.len()
        invariant
            1 <= i <= scores@.len(),
            best == seq_max(scores@.subrange(0, i as int)),
        decreases scores@.len() - i,
    {
        let sc = scores[i];
        proof {
            assert(scores@.subrange(0, i as int + 1).drop_last() =~= scores@.subrange(
                0,
                i as int,
            ));
            assert(scores@.subrange(0, i as int + 1).last() == scores@[i as int]);
        }
        if sc >= best {
            best = sc;
        }
        i += 1;
    }
    proof {
        assert(scores@.subrange(0, scores@.len() as int) =~= scores@);
        lemma_seq_max_props(scores@);
    }
    best
}

/// Discounted continuation value: `gamma` thousandths of `q`, rounded
/// toward zero.
pub open spec fn discount(gamma: int, q: int) -> int {
    if q >= 0 {
        (gamma * q) / 1000
    } else {
        -((gamma * (-q)) / 1000)
    }
}

/// The training label of a recorded transition: its reward plus the
/// discounted continuation value of the follow-up scores.
pub open spec fn bellman_spec(reward: int, gamma: int, s: Seq<i64>) -> int {
    reward + discount(gamma, continuation(s))
}

/// Computes the one-step lookahead label of a transition from its recorded
/// reward and the scores of the moves available at its next position. At a
/// terminal next position the label is exactly the reward.
pub fn bellman_label(reward: i64, gamma: i64, next_scores: &Vec<i64>) -> (r: i64)
    requires
        0 < gamma <= 1000,
        -SCORE_LIMIT <= reward <= SCORE_LIMIT,
        forall|j: int|
            0 <= j < next_scores@.len() ==> -SCORE_LIMIT <= #[trigger] next_scores@[j]
                <= SCORE_LIMIT,
    ensures
        r == bellman_spec(reward as int, gamma as int, next_scores@),
        next_scores@.len() == 0 ==> r == reward,
{
    let q = compute_q_max(next_scores);
    assert(-SCORE_LIMIT <= q <= SCORE_LIMIT);
    let magnitude: u64 = if q >= 0 {
        q as u64
    } else {
        (-q) as u64
    };
    assert(magnitude <= SCORE_LIMIT as u64);
    assert((gamma as u64) * magnitude <= 1000 * (SCORE_LIMIT as u64)) by (nonlinear_arith)
        requires
            0 < gamma as u64 <= 1000,
            magnitude <= SCORE_LIMIT as u64,
    ;
    let part: u64 = ((gamma as u64) * magnitude) / 1000;
    assert(part <= SCORE_LIMIT as u64) by (nonlinear_arith)
        requires
            part == ((gamma as u64) * magnitude) / 1000,
            (gamma as u64) * magnitude <= 1000 * (SCORE_LIMIT as u64),
    ;
    let scaled: i64 = if q >= 0 {
        part as i64
    } else {
        -(part as i64)
    };
    assert(scaled == discount(gamma as int, q as int));
    proof {
        if next_scores@.len() == 0 {
            assert(gamma as int * 0 == 0) by (nonlinear_arith);
        }
    }
    reward + scaled
}

/// The row the approximator scores: the state vector with the action vector
/// appended.
pub fn state_action(state: &Vec<i64>, action: &Vec<i64>) -> (v: Vec<i64>)
    ensures
        v@ == state@ + action@,
{
    let mut v: Vec<i64> = Vec::new();
    let mut i: usize = 0;
    while i < state.len()
        invariant
            i <= state@.len(),
            v@ == state@.subrange(0, i as int),
        decreases state@.len() - i,
    {
        v.push(state[i]);
        proof {
            assert(v@ =~= state@.subrange(0, i as int + 1));
        }
        i += 1;
    }
    proof {
        assert(state@.subrange(0, state@.len() as int) =~= state@);
        assert(v@ =~= state@ + action@.subrange(0, 0));
    }
    let mut k: usize = 0;
    while k < action.len()
        invariant
            k <= action@.len(),
            v@ == state@ + action@.subrange(0, k as int),
        decreases action@.len() - k,
    {
        v.push(action[k]);
        proof {
            assert(v@ =~= state@ + action@.subrange(0, k as int + 1));
        }
        k += 1;
    }
    proof {
        assert(state@.subrange(0, state@.len() as int) =~= state@);
        assert(action@.subrange(0, action@.len() as int) =~= action@);
        assert(v@ =~= state@ + action@);
    }
    v
}

} // verus!
