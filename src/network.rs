//! The network of validators: weighted proposer selection and rounds.
use vstd::prelude::*;
use rand::rngs::StdRng;
use crate::block::block_acceptable;
use crate::random::draw_below;
use crate::scoring::STAKE_WEIGHT_UNITS;
use crate::validator::{has_room, proposal_of, scored, ConsensusEngine, PosygDcsEngine, ValidatorState};

verus! {

/// The largest validator set whose weights are summed without overflow.
pub const MAX_VALIDATORS: usize = 0xFFFF_FFFF;

/// A validator's selection weight: its score plus 0.01 point per unit of stake.
pub open spec fn weight(s: ValidatorState) -> int {
    s.score + s.stake * STAKE_WEIGHT_UNITS
}

/// The sum of the weights of the first `n` validators.
pub open spec fn prefix_weight(vs: Seq<ValidatorState>, n: nat) -> int
    decreases n,
{
    if n == 0 {
        0
    } else {
        prefix_weight(vs, (n - 1) as nat) + weight(vs[n - 1])
    }
}

/// The sum of all weights.
pub open spec fn total_weight(vs: Seq<ValidatorState>) -> int {
    prefix_weight(vs, vs.len())
}

/// Draws range over `0..draw_bound`: the total weight where it is positive,
/// else the number of validators (a uniform pick of an index).
pub open spec fn draw_bound(vs: Seq<ValidatorState>) -> int {
    if total_weight(vs) > 0 {
        total_weight(vs)
    } else {
        vs.len() as int
    }
}

/// The first index from `i` on whose cumulative weight reaches `r`; 0 where
/// none does.
pub open spec fn walk_from(vs: Seq<ValidatorState>, r: int, i: int) -> int
    decreases vs.len() - i,
{
    if i >= vs.len() || i < 0 {
        0
    } else if prefix_weight(vs, (i + 1) as nat) >= r {
        i
    } else {
        walk_from(vs, r, i + 1)
    }
}

/// The proposer that the draw `d` selects.
pub open spec fn proposer_for(vs: Seq<ValidatorState>, d: int) -> int {
    if total_weight(vs) > 0 {
        walk_from(vs, d, 0)
    } else {
        d
    }
}

/// Whether every validator other than `i` accepts `i`'s proposal. All
/// validators apply the same rule; with no other validator nobody objects.
pub open spec fn round_valid(vs: Seq<ValidatorState>, i: int) -> bool {
    vs.len() <= 1 || block_acceptable(proposal_of(vs[i]))
}

/// The proposer's state after a round: scored, with a violation charged only
/// to a malicious proposer whose block was rejected, then counted. An honest
/// proposer whose block is rejected is not charged.
pub open spec fn after_round(s: ValidatorState, valid: bool) -> ValidatorState {
    let t = scored(s, valid, !valid && s.malicious);
    ValidatorState {
        accepted: if valid { t.accepted + 1 } else { t.accepted },
        proposed: t.proposed + 1,
        ..t
    }
}

/// The validators after a round in which `i` proposed.
pub open spec fn round_outcome(vs: Seq<ValidatorState>, i: int) -> Seq<ValidatorState> {
    vs.update(i, after_round(vs[i], round_valid(vs, i)))
}

/// A round can run: the set is non-empty, its weights can be summed, and
/// every counter can be incremented.
pub open spec fn can_run(vs: Seq<ValidatorState>) -> bool {
    &&& 0 < vs.len() <= MAX_VALIDATORS
    &&& forall|j: int| 0 <= j < vs.len() ==> has_room(#[trigger] vs[j])
}

/// A fixed, ordered set of validators.
pub struct Network {
    pub validators: Vec<PosygDcsEngine>,
}

impl View for Network {
    type V = Seq<ValidatorState>;

    open spec fn view(&self) -> Seq<ValidatorState> {
        self.validators@.map_values(|v: PosygDcsEngine| v@)
    }
}

/// One validator's weight.
fn weight_of(v: &PosygDcsEngine) -> (r: i128)
    ensures
        r == weight(v@),
        -0x8000_0000_0000_0000_0000 < r < 0x8000_0000_0000_0000_0000,
{
    proof {
        v.lemma_bounds();
    }
    let stake: i128 = v.stake() as i128;
    assert(stake * 10_000 <= 0xFFFF_FFFF_FFFF_FFFF * 10_000);
    (v.get_synergy_score() as i128) + stake * (STAKE_WEIGHT_UNITS as i128)
}

impl Network {
    /// A network over `validators`, in the given order.
    pub fn new(validators: Vec<PosygDcsEngine>) -> (r: Self)
        ensures
            r.validators@ == validators@,
    {
        Network { validators }
    }

    /// The sum of all selection weights.
    pub fn total_weight(&self) -> (r: i128)
        requires
            self.validators@.len() <= MAX_VALIDATORS,
        ensures
            r == total_weight(self@),
    {
        let n: usize = self.validators.len();
        let mut acc: i128 = 0;
        let mut i: usize = 0;
        while i < n
            invariant
                n == self.validators@.len(),
                n <= MAX_VALIDATORS,
                i <= n,
                acc == prefix_weight(self@, i as nat),
                -(i * 0x8000_0000_0000_0000_0000) <= acc <= i * 0x8000_0000_0000_0000_0000,
            decreases n - i,
        {
            let w: i128 = weight_of(&self.validators[i]);
            acc = acc + w;
            i = i + 1;
        }
        acc
    }

    /// The proposer that the draw `draw` selects (see `draw_bound`).
    pub fn proposer_for_draw(&self, draw: u128) -> (r: usize)
        requires
            0 < self.validators@.len() <= MAX_VALIDATORS,
            draw < draw_bound(self@),
        ensures
            r as int == proposer_for(self@, draw as int),
            r < self.validators@.len(),
    {
        let total: i128 = self.total_weight();
        if total <= 0 {
            return draw as usize;
        }
        let n: usize = self.validators.len();
        assert(draw < total);
        let target: i128 = draw as i128;
        let mut cumulative: i128 = 0;
        let mut i: usize = 0;
        while i < n
            invariant
                n == self.validators@.len(),
                n <= MAX_VALIDATORS,
                i <= n,
                total == total_weight(self@),
                total > 0,
                target == draw,
                cumulative == prefix_weight(self@, i as nat),
                -(i * 0x8000_0000_0000_0000_0000) <= cumulative <= i * 0x8000_0000_0000_0000_0000,
                walk_from(self@, draw as int, 0) == walk_from(self@, draw as int, i as int),
            decreases n - i,
        {
            let w: i128 = weight_of(&self.validators[i]);
            cumulative = cumulative + w;
            if cumulative >= target {
                return i;
            }
            i = i + 1;
        }
        0
    }

    /// Selects the next proposer by a weighted draw from `rng`: validator `i`
    /// is chosen with probability proportional to its weight, or uniformly
    /// where the total weight is not positive.
    pub fn select_proposer(&self, rng: &mut StdRng) -> (r: usize)
        requires
            0 < self.validators@.len() <= MAX_VALIDATORS,
        ensures
            r < self.validators@.len(),
            exists|d: int| 0 <= d < draw_bound(self@) && r as int == proposer_for(self@, d),
    {
        let total: i128 = self.total_weight();
        let bound: u128 = if total > 0 {
            total as u128
        } else {
            self.validators.len() as u128
        };
        let draw: u128 = draw_below(rng, bound);
        self.proposer_for_draw(draw)
    }

    /// Runs one round with validator `i` as proposer: snapshot its proposal,
    /// let every other validator validate it until one rejects, then score
    /// and count the proposer.
    pub fn run_round_with(&mut self, i: usize)
        requires
            can_run(old(self)@),
            i < old(self).validators@.len(),
        ensures
            final(self)@ == round_outcome(old(self)@, i as int),
            final(self).validators@.len() == old(self).validators@.len(),
    {
        let ghost vs = self@;
        let n: usize = self.validators.len();
        assert(self.validators@[i as int]@ == vs[i as int]);
        assert(has_room(vs[i as int]));
        let block = self.validators[i].propose_block().unwrap();
        let malicious: bool = self.validators[i].is_malicious();

        let mut valid: bool = true;
        let mut j: usize = 0;
        while j < n && valid
            invariant
                n == self.validators@.len(),
                self@ == vs,
                i < n,
                j <= n,
                block@ == proposal_of(vs[i as int]),
                valid ==> ((j >= 2 || (j == 1 && i != 0)) ==> block_acceptable(block@)),
                !valid ==> n >= 2 && !block_acceptable(block@),
            decreases n - j,
        {
            if j != i {
                if self.validators[j].validate_block(&block).is_err() {
                    valid = false;
                }
            }
            j = j + 1;
        }
        assert(valid == round_valid(vs, i as int));

        let violation: bool = !valid && malicious;
        self.validators[i].update_scores(valid, violation);
        if valid {
            self.validators[i].increment_accepted_blocks();
        }
        self.validators[i].increment_proposed_blocks();
        assert(self@ =~= round_outcome(vs, i as int));
    }

    /// Runs one round: selects a proposer from `rng`, then proceeds as
    /// `run_round_with`.
    pub fn run_consensus_round(&mut self, rng: &mut StdRng)
        requires
            can_run(old(self)@),
        ensures
            final(self).validators@.len() == old(self).validators@.len(),
            exists|d: int|
                0 <= d < draw_bound(old(self)@) && final(self)@ == round_outcome(
                    old(self)@,
                    proposer_for(old(self)@, d),
                ),
    {
        let i: usize = self.select_proposer(rng);
        self.run_round_with(i);
    }
}

} // verus!
