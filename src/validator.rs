//! A single validator: its state, proposals, validation and score updates.
use vstd::prelude::*;
use crate::block::{block_acceptable, carries_marker, marker_view, Block, BlockView, ConsensusError, INVALID_MARKER};
use crate::scoring::{score_after_update, updated_score, ScoringConfig};

verus! {

/// The mathematical state of a validator.
pub struct ValidatorState {
    pub id: Seq<char>,
    /// Synergy score, in score units.
    pub score: int,
    pub stake: int,
    pub proposed: int,
    pub accepted: int,
    pub violations: int,
    pub malicious: bool,
    pub config: ScoringConfig,
}

/// The block that a validator in state `s` proposes.
pub open spec fn proposal_of(s: ValidatorState) -> BlockView {
    if s.malicious {
        BlockView { id: 0, proposer: s.id, transactions: seq![marker_view()] }
    } else {
        BlockView { id: s.proposed + 1, proposer: s.id, transactions: Seq::empty() }
    }
}

/// A proposal passes validation exactly when its proposer is not malicious.
pub proof fn lemma_proposal_acceptable(s: ValidatorState)
    ensures
        block_acceptable(proposal_of(s)) == !s.malicious,
{
    if s.malicious {
        assert(proposal_of(s).transactions[0] == marker_view());
    }
}

/// The state after one score update: a violation is counted first, then the
/// formula is applied with the new count.
pub open spec fn scored(s: ValidatorState, accepted: bool, violation: bool) -> ValidatorState {
    let count = if violation { s.violations + 1 } else { s.violations };
    ValidatorState {
        score: updated_score(s.config, s.score, s.stake, accepted, violation, count as nat),
        violations: count,
        ..s
    }
}

/// Every counter can still be incremented.
pub open spec fn has_room(s: ValidatorState) -> bool {
    s.proposed < u64::MAX && s.accepted < u64::MAX && s.violations < u64::MAX
}

/// A validator with fresh counters and a zero score.
pub open spec fn fresh_state(
    id: Seq<char>,
    stake: int,
    malicious: bool,
    config: ScoringConfig,
) -> ValidatorState {
    ValidatorState {
        id,
        score: 0,
        stake,
        proposed: 0,
        accepted: 0,
        violations: 0,
        malicious,
        config,
    }
}

/// The behaviour that the network asks of a validator.
pub trait ConsensusEngine: Sized {
    /// The block this engine proposes in its current state.
    spec fn proposal(&self) -> BlockView;

    /// Whether this engine accepts `block`.
    spec fn accepts(&self, block: BlockView) -> bool;

    /// The current synergy score, in score units.
    spec fn score(&self) -> int;

    /// Whether the engine can propose and record one more update.
    spec fn ready(&self) -> bool;

    /// Whether `self` is what an update of `prev` with these outcomes gives.
    spec fn follows_update(&self, prev: &Self, block_accepted: bool, violation_occurred: bool) -> bool;

    /// Proposes a block; the engine does not change.
    fn propose_block(&self) -> (r: Result<Block, ConsensusError>)
        requires
            self.ready(),
        ensures
            r matches Ok(b) && b@ == self.proposal(),
    ;

    /// Validates `block` against the consensus rules.
    fn validate_block(&self, block: &Block) -> (r: Result<(), ConsensusError>)
        ensures
            r is Ok <==> self.accepts(block@),
            r is Err ==> r matches Err(ConsensusError::InvalidBlock),
    ;

    /// Records the outcome of a proposal in the score.
    fn update_scores(&mut self, block_accepted: bool, violation_occurred: bool)
        requires
            old(self).ready(),
        ensures
            final(self).follows_update(&*old(self), block_accepted, violation_occurred),
    ;

    /// The current synergy score, in score units.
    fn get_synergy_score(&self) -> (r: i64)
        ensures
            r as int == self.score(),
    ;
}

/// A validator scored by the synergy formula, with escalating penalties.
pub struct PosygDcsEngine {
    validator_id: String,
    synergy_score: i64,
    stake: u64,
    proposed_blocks: u64,
    accepted_blocks: u64,
    violations: u64,
    is_malicious: bool,
    config: ScoringConfig,
}

impl View for PosygDcsEngine {
    type V = ValidatorState;

    closed spec fn view(&self) -> ValidatorState {
        ValidatorState {
            id: self.validator_id@,
            score: self.synergy_score as int,
            stake: self.stake as int,
            proposed: self.proposed_blocks as int,
            accepted: self.accepted_blocks as int,
            violations: self.violations as int,
            malicious: self.is_malicious,
            config: self.config,
        }
    }
}

impl PosygDcsEngine {
    /// The range of each field of the state.
    pub proof fn lemma_bounds(&self)
        ensures
            i64::MIN <= self@.score <= i64::MAX,
            0 <= self@.stake <= u64::MAX,
            0 <= self@.proposed <= u64::MAX,
            0 <= self@.accepted <= u64::MAX,
            0 <= self@.violations <= u64::MAX,
    {
    }

    /// A validator with the standard scoring tuning.
    pub fn new(validator_id: String, stake: u64, is_malicious: bool) -> (r: Self)
        ensures
            r@ == fresh_state(validator_id@, stake as int, is_malicious, ScoringConfig::standard_spec()),
    {
        Self::with_config(validator_id, stake, is_malicious, ScoringConfig::standard())
    }

    /// A validator scored with `config`.
    pub fn with_config(validator_id: String, stake: u64, is_malicious: bool, config: ScoringConfig) -> (r: Self)
        ensures
            r@ == fresh_state(validator_id@, stake as int, is_malicious, config),
    {
        PosygDcsEngine {
            validator_id,
            synergy_score: 0,
            stake,
            proposed_blocks: 0,
            accepted_blocks: 0,
            violations: 0,
            is_malicious,
            config,
        }
    }

    /// The validator's identity.
    pub fn validator_id(&self) -> (r: &str)
        ensures
            r@ == self@.id,
    {
        self.validator_id.as_str()
    }

    /// Violations charged so far.
    pub fn violations(&self) -> (r: u64)
        ensures
            r as int == self@.violations,
    {
        self.violations
    }

    /// Blocks proposed so far.
    pub fn proposed_blocks(&self) -> (r: u64)
        ensures
            r as int == self@.proposed,
    {
        self.proposed_blocks
    }

    /// Blocks accepted so far.
    pub fn accepted_blocks(&self) -> (r: u64)
        ensures
            r as int == self@.accepted,
    {
        self.accepted_blocks
    }

    /// The stake, fixed at creation.
    pub fn stake(&self) -> (r: u64)
        ensures
            r as int == self@.stake,
    {
        self.stake
    }

    /// Whether the validator proposes invalid blocks.
    pub fn is_malicious(&self) -> (r: bool)
        ensures
            r == self@.malicious,
    {
        self.is_malicious
    }

    /// The scoring tuning.
    pub fn config(&self) -> (r: ScoringConfig)
        ensures
            r == self@.config,
    {
        self.config
    }

    /// Sets the synergy score, in score units.
    pub fn set_synergy_score(&mut self, score: i64)
        ensures
            final(self)@ == (ValidatorState { score: score as int, ..old(self)@ }),
    {
        self.synergy_score = score;
    }

    /// Counts one more proposed block.
    pub fn increment_proposed_blocks(&mut self)
        requires
            old(self)@.proposed < u64::MAX,
        ensures
            final(self)@ == (ValidatorState { proposed: old(self)@.proposed + 1, ..old(self)@ }),
    {
        self.proposed_blocks = self.proposed_blocks + 1;
    }

    /// Counts one more accepted block.
    pub fn increment_accepted_blocks(&mut self)
        requires
            old(self)@.accepted < u64::MAX,
        ensures
            final(self)@ == (ValidatorState { accepted: old(self)@.accepted + 1, ..old(self)@ }),
    {
        self.accepted_blocks = self.accepted_blocks + 1;
    }
}

impl ConsensusEngine for PosygDcsEngine {
    open spec fn proposal(&self) -> BlockView {
        proposal_of(self@)
    }

    open spec fn accepts(&self, block: BlockView) -> bool {
        block_acceptable(block)
    }

    open spec fn score(&self) -> int {
        self@.score
    }

    open spec fn ready(&self) -> bool {
        has_room(self@)
    }

    open spec fn follows_update(&self, prev: &Self, block_accepted: bool, violation_occurred: bool) -> bool {
        self@ == scored(prev@, block_accepted, violation_occurred)
    }

    fn propose_block(&self) -> (r: Result<Block, ConsensusError>) {
        let block = if self.is_malicious {
            let marker: String = INVALID_MARKER.to_owned();
            let transactions: Vec<String> = vec![marker];
            let b = Block { id: 0, proposer: self.validator_id.clone(), transactions };
            assert(b@.transactions =~= seq![marker_view()]);
            b
        } else {
            let b = Block {
                id: self.proposed_blocks + 1,
                proposer: self.validator_id.clone(),
                transactions: Vec::new(),
            };
            assert(b@.transactions =~= Seq::<Seq<char>>::empty());
            b
        };
        Ok(block)
    }

    fn validate_block(&self, block: &Block) -> (r: Result<(), ConsensusError>) {
        if carries_marker(block) {
            Err(ConsensusError::InvalidBlock)
        } else {
            Ok(())
        }
    }

    fn update_scores(&mut self, block_accepted: bool, violation_occurred: bool) {
        if violation_occurred {
            self.violations = self.violations + 1;
        }
        self.synergy_score = score_after_update(
            self.config,
            self.synergy_score,
            self.stake,
            block_accepted,
            violation_occurred,
            self.violations,
        );
    }

    fn get_synergy_score(&self) -> (r: i64) {
        self.synergy_score
    }
}

} // verus!
