//! What holds of the network across any sequence of rounds.
use vstd::prelude::*;
use crate::network::{draw_bound, prefix_weight, proposer_for, round_outcome, total_weight};
use crate::validator::lemma_proposal_acceptable;
use crate::validator::ValidatorState;

verus! {

/// The validators after rounds whose proposers are `picks`, in order.
pub open spec fn replay(vs: Seq<ValidatorState>, picks: Seq<int>) -> Seq<ValidatorState>
    decreases picks.len(),
{
    if picks.len() == 0 {
        vs
    } else {
        replay(round_outcome(vs, picks[0]), picks.drop_first())
    }
}

/// The validators after rounds whose proposers are selected by `draws`, in order.
pub open spec fn replay_draws(vs: Seq<ValidatorState>, draws: Seq<int>) -> Seq<ValidatorState>
    decreases draws.len(),
{
    if draws.len() == 0 {
        vs
    } else {
        replay_draws(round_outcome(vs, proposer_for(vs, draws[0])), draws.drop_first())
    }
}

/// How many entries of `picks` are `j`.
pub open spec fn times_picked(picks: Seq<int>, j: int) -> int
    decreases picks.len(),
{
    if picks.len() == 0 {
        0
    } else {
        (if picks[0] == j { 1int } else { 0int }) + times_picked(picks.drop_first(), j)
    }
}

/// Every pick names a validator.
pub open spec fn picks_in_range(vs: Seq<ValidatorState>, picks: Seq<int>) -> bool {
    forall|k: int| 0 <= k < picks.len() ==> 0 <= #[trigger] picks[k] < vs.len()
}

proof fn lemma_rest_in_range(vs: Seq<ValidatorState>, picks: Seq<int>)
    requires
        picks.len() > 0,
        picks_in_range(vs, picks),
    ensures
        picks_in_range(round_outcome(vs, picks[0]), picks.drop_first()),
{
    assert forall|k: int| 0 <= k < picks.drop_first().len() implies 0 <= #[trigger] picks.drop_first()[k]
        < round_outcome(vs, picks[0]).len() by {
        assert(picks.drop_first()[k] == picks[k + 1]);
    }
}

/// A validator that is not malicious is never charged a violation: over any
/// sequence of rounds its violation count stays what it was.
pub proof fn lemma_honest_never_violate(vs: Seq<ValidatorState>, picks: Seq<int>)
    requires
        picks_in_range(vs, picks),
    ensures
        replay(vs, picks).len() == vs.len(),
        forall|j: int|
            0 <= j < vs.len() && !vs[j].malicious ==> (#[trigger] replay(vs, picks)[j]).violations
                == vs[j].violations && !replay(vs, picks)[j].malicious,
    decreases picks.len(),
{
    if picks.len() > 0 {
        let next = round_outcome(vs, picks[0]);
        lemma_rest_in_range(vs, picks);
        lemma_honest_never_violate(next, picks.drop_first());
        assert forall|j: int| 0 <= j < vs.len() && !vs[j].malicious implies next[j].violations
            == vs[j].violations && !next[j].malicious by {}
    }
}

/// Accepted blocks never outnumber proposed ones: where this holds of every
/// validator, it holds after any sequence of rounds.
pub proof fn lemma_accepted_within_proposed(vs: Seq<ValidatorState>, picks: Seq<int>)
    requires
        picks_in_range(vs, picks),
        forall|j: int| 0 <= j < vs.len() ==> (#[trigger] vs[j]).accepted <= vs[j].proposed,
    ensures
        replay(vs, picks).len() == vs.len(),
        forall|j: int|
            0 <= j < vs.len() ==> (#[trigger] replay(vs, picks)[j]).accepted <= replay(
                vs,
                picks,
            )[j].proposed,
    decreases picks.len(),
{
    if picks.len() > 0 {
        let next = round_outcome(vs, picks[0]);
        lemma_rest_in_range(vs, picks);
        assert forall|j: int| 0 <= j < next.len() implies (#[trigger] next[j]).accepted
            <= next[j].proposed by {}
        lemma_accepted_within_proposed(next, picks.drop_first());
    }
}

/// A validator's proposed-block count grows by exactly the number of rounds
/// in which it was selected.
pub proof fn lemma_proposed_counts_selections(vs: Seq<ValidatorState>, picks: Seq<int>)
    requires
        picks_in_range(vs, picks),
    ensures
        replay(vs, picks).len() == vs.len(),
        forall|j: int|
            0 <= j < vs.len() ==> (#[trigger] replay(vs, picks)[j]).proposed == vs[j].proposed
                + times_picked(picks, j),
    decreases picks.len(),
{
    if picks.len() > 0 {
        let next = round_outcome(vs, picks[0]);
        lemma_rest_in_range(vs, picks);
        lemma_proposed_counts_selections(next, picks.drop_first());
        assert forall|j: int| 0 <= j < vs.len() implies (#[trigger] replay(vs, picks)[j]).proposed
            == vs[j].proposed + times_picked(picks, j) by {
            assert(next[j].proposed == vs[j].proposed + (if picks[0] == j { 1int } else { 0int }));
        }
    }
}

/// In a network of two or more validators, every proposal of a malicious
/// validator is rejected and charged: its violation count grows by exactly
/// the number of rounds in which it was selected, and its accepted count
/// stays what it was.
pub proof fn lemma_malicious_charged_per_selection(vs: Seq<ValidatorState>, picks: Seq<int>)
    requires
        picks_in_range(vs, picks),
        vs.len() >= 2,
    ensures
        replay(vs, picks).len() == vs.len(),
        forall|j: int|
            0 <= j < vs.len() && vs[j].malicious ==> (#[trigger] replay(vs, picks)[j]).violations
                == vs[j].violations + times_picked(picks, j) && replay(vs, picks)[j].accepted
                == vs[j].accepted,
    decreases picks.len(),
{
    if picks.len() > 0 {
        let next = round_outcome(vs, picks[0]);
        lemma_rest_in_range(vs, picks);
        lemma_malicious_charged_per_selection(next, picks.drop_first());
        assert forall|j: int| 0 <= j < vs.len() && vs[j].malicious implies (#[trigger] replay(
            vs,
            picks,
        )[j]).violations == vs[j].violations + times_picked(picks, j) && replay(vs, picks)[j].accepted
            == vs[j].accepted by {
            assert(next[j].malicious);
            if picks[0] == j {
                lemma_proposal_acceptable(vs[j]);
            }
            assert(next[j].violations == vs[j].violations + (if picks[0] == j { 1int } else { 0int }));
            assert(next[j].accepted == vs[j].accepted);
        }
    }
}

/// Rounds are deterministic: two networks in the same state that see the same
/// draws pass through the same states, round after round.
pub proof fn lemma_same_draws_same_trajectory(
    a: Seq<ValidatorState>,
    b: Seq<ValidatorState>,
    draws: Seq<int>,
)
    requires
        a == b,
    ensures
        forall|k: int|
            0 <= k <= draws.len() ==> #[trigger] replay_draws(a, draws.take(k)) == replay_draws(
                b,
                draws.take(k),
            ),
{
}

proof fn lemma_zero_prefix(vs: Seq<ValidatorState>, n: nat)
    requires
        n <= vs.len(),
        forall|j: int| 0 <= j < vs.len() ==> (#[trigger] vs[j]).score == 0 && vs[j].stake == 0,
    ensures
        prefix_weight(vs, n) == 0,
    decreases n,
{
    if n > 0 {
        lemma_zero_prefix(vs, (n - 1) as nat);
    }
}

/// With every score and stake zero the total weight is zero, and selection
/// falls back to the draw itself: each index is chosen by exactly one of the
/// `len` equally likely draws.
pub proof fn lemma_zero_weight_selects_uniformly(vs: Seq<ValidatorState>)
    requires
        forall|j: int| 0 <= j < vs.len() ==> (#[trigger] vs[j]).score == 0 && vs[j].stake == 0,
    ensures
        total_weight(vs) == 0,
        draw_bound(vs) == vs.len(),
        forall|d: int| 0 <= d < vs.len() ==> #[trigger] proposer_for(vs, d) == d,
{
    lemma_zero_prefix(vs, vs.len());
}

} // verus!
