use peo_consensus::block::INVALID_MARKER;
use peo_consensus::{
    Block, ConsensusEngine, ConsensusError, Network, PosygDcsEngine, ScoringConfig, SCORE_UNIT,
};
use rand::rngs::StdRng;
use rand::SeedableRng;

fn three_validators() -> Network {
    Network {
        validators: vec![
            PosygDcsEngine::new("v1".to_string(), 1000, false),
            PosygDcsEngine::new("v2".to_string(), 1000, false),
            PosygDcsEngine::new("v3".to_string(), 1000, true),
        ],
    }
}

#[test]
fn test_consensus_rounds() {
    let mut network = three_validators();
    network.validators[2].set_synergy_score(10 * SCORE_UNIT);

    let seed = [42; 32];
    let mut rng = StdRng::from_seed(seed);
    for _ in 0..10 {
        let proposer_index = network.select_proposer(&mut rng);

        let (block, is_malicious);
        {
            let proposer = &mut network.validators[proposer_index];
            block = proposer.propose_block().unwrap();
            is_malicious = proposer.is_malicious();
        }

        let mut is_valid = true;
        for (i, validator) in network.validators.iter().enumerate() {
            if i != proposer_index {
                if let Err(_) = validator.validate_block(&block) {
                    is_valid = false;
                    break;
                }
            }
        }

        let proposer = &mut network.validators[proposer_index];
        let violation_occurred = !is_valid && is_malicious;
        proposer.update_scores(is_valid, violation_occurred);
        if is_valid {
            proposer.increment_accepted_blocks();
        }
        proposer.increment_proposed_blocks();
    }

    let v1 = &network.validators[0];
    let v2 = &network.validators[1];
    let v3 = &network.validators[2];

    assert!(v3.proposed_blocks() > 0, "Malicious validator should have proposed at least once");
    assert!(v3.violations() > 0, "Malicious validator should have violations");
    assert!(v3.get_synergy_score() < 10 * SCORE_UNIT, "Malicious validator's score should decrease");
    assert!(v1.get_synergy_score() > v3.get_synergy_score(), "v1 should have higher score than v3");
    assert!(v2.get_synergy_score() > v3.get_synergy_score(), "v2 should have higher score than v3");
    assert_eq!(v1.violations(), 0, "v1 should have no violations");
    assert_eq!(v2.violations(), 0, "v2 should have no violations");
}

#[test]
fn honest_accepted_round_scores_three_point_four() {
    let mut v = PosygDcsEngine::new("v1".to_string(), 1000, false);
    let block = v.propose_block().unwrap();
    assert_eq!(block.id, 1);
    assert!(block.transactions.is_empty());
    v.update_scores(true, false);
    assert_eq!(v.get_synergy_score(), 3_400_000);
    assert_eq!(v.proposed_blocks(), 0);
    v.increment_proposed_blocks();
    assert_eq!(v.proposed_blocks(), 1);
}

#[test]
fn malicious_rejected_round_scores_minus_two_point_six() {
    let mut network = Network::new(vec![
        PosygDcsEngine::new("m".to_string(), 800, true),
        PosygDcsEngine::new("h".to_string(), 1000, false),
    ]);
    network.run_round_with(0);
    let m = &network.validators[0];
    assert_eq!(m.violations(), 1);
    assert_eq!(m.get_synergy_score(), -2_600_000);
    assert_eq!(m.proposed_blocks(), 1);
    assert_eq!(m.accepted_blocks(), 0);
    assert_eq!(network.validators[1].get_synergy_score(), 0);
}

#[test]
fn second_violation_doubles_penalty() {
    let mut v = PosygDcsEngine::new("m".to_string(), 800, true);
    v.update_scores(false, true);
    assert_eq!(v.get_synergy_score(), -2_600_000);
    v.update_scores(false, true);
    assert_eq!(v.violations(), 2);
    // 2.4 - 0.5 * 20.0 = -7.6 on top of -2.6
    assert_eq!(v.get_synergy_score(), -2_600_000 + 2_400_000 - 10_000_000);
    v.update_scores(false, true);
    assert_eq!(v.get_synergy_score(), -10_200_000 + 2_400_000 - 20_000_000);
}

#[test]
fn zero_weight_selection_is_uniform() {
    let network = Network::new(vec![
        PosygDcsEngine::new("a".to_string(), 0, false),
        PosygDcsEngine::new("b".to_string(), 0, false),
        PosygDcsEngine::new("c".to_string(), 0, false),
    ]);
    assert_eq!(network.total_weight(), 0);
    let mut rng = StdRng::seed_from_u64(7);
    let mut counts = [0u32; 3];
    for _ in 0..3000 {
        let i = network.select_proposer(&mut rng);
        assert!(i < 3);
        counts[i] += 1;
    }
    for c in counts {
        assert!(c > 850 && c < 1150, "selection counts {:?}", counts);
    }
}

#[test]
fn weighted_selection_follows_cumulative_weights() {
    let network = Network::new(vec![
        PosygDcsEngine::new("a".to_string(), 100, false),
        PosygDcsEngine::new("b".to_string(), 300, false),
    ]);
    // weights 1.0 and 3.0 points
    assert_eq!(network.total_weight(), 4 * SCORE_UNIT as i128);
    assert_eq!(network.proposer_for_draw(0), 0);
    assert_eq!(network.proposer_for_draw(1_000_000), 0);
    assert_eq!(network.proposer_for_draw(1_000_001), 1);
    assert_eq!(network.proposer_for_draw(3_999_999), 1);
}

#[test]
fn zero_weight_draw_is_the_index() {
    let network = Network::new(vec![
        PosygDcsEngine::new("a".to_string(), 0, false),
        PosygDcsEngine::new("b".to_string(), 0, false),
    ]);
    assert_eq!(network.proposer_for_draw(1), 1);
    assert_eq!(network.proposer_for_draw(0), 0);
}

#[test]
fn selection_reaches_every_weighted_validator() {
    let network = three_validators();
    let mut rng = StdRng::seed_from_u64(11);
    let mut seen = [false; 3];
    for _ in 0..300 {
        seen[network.select_proposer(&mut rng)] = true;
    }
    assert_eq!(seen, [true, true, true]);
}

fn trajectory(seed: u64, rounds: usize) -> Vec<(i64, u64, u64, u64)> {
    let mut network = three_validators();
    let mut rng = StdRng::seed_from_u64(seed);
    let mut out = Vec::new();
    for _ in 0..rounds {
        network.run_consensus_round(&mut rng);
        for v in &network.validators {
            out.push((v.get_synergy_score(), v.violations(), v.proposed_blocks(), v.accepted_blocks()));
        }
    }
    out
}

#[test]
fn same_seed_gives_same_trajectory() {
    assert_eq!(trajectory(1234, 25), trajectory(1234, 25));
}

#[test]
fn counters_track_rounds() {
    let mut network = three_validators();
    let mut rng = StdRng::seed_from_u64(99);
    let rounds = 40u64;
    for _ in 0..rounds {
        network.run_consensus_round(&mut rng);
        for v in &network.validators {
            assert!(v.accepted_blocks() <= v.proposed_blocks());
        }
    }
    let total: u64 = network.validators.iter().map(|v| v.proposed_blocks()).sum();
    assert_eq!(total, rounds);
    assert_eq!(network.validators[0].violations(), 0);
    assert_eq!(network.validators[1].violations(), 0);
    let m = &network.validators[2];
    assert_eq!(m.violations(), m.proposed_blocks());
    assert_eq!(m.accepted_blocks(), 0);
}

#[test]
fn malicious_validator_ends_lowest() {
    let mut network = Network::new(vec![
        PosygDcsEngine::new("h1".to_string(), 1000, false),
        PosygDcsEngine::new("h2".to_string(), 1100, false),
        PosygDcsEngine::new("m".to_string(), 1050, true),
    ]);
    let mut rng = StdRng::seed_from_u64(2024);
    for _ in 0..10 {
        network.run_consensus_round(&mut rng);
    }
    let m = &network.validators[2];
    if m.proposed_blocks() > 0 {
        assert!(m.violations() > 0);
        assert!(m.get_synergy_score() < network.validators[0].get_synergy_score());
        assert!(m.get_synergy_score() < network.validators[1].get_synergy_score());
    }
    assert_eq!(network.validators[0].violations(), 0);
    assert_eq!(network.validators[1].violations(), 0);
}

#[test]
fn explicit_rounds_rank_malicious_last() {
    let mut network = Network::new(vec![
        PosygDcsEngine::new("h1".to_string(), 1000, false),
        PosygDcsEngine::new("h2".to_string(), 1000, false),
        PosygDcsEngine::new("m".to_string(), 1000, true),
    ]);
    for i in [0usize, 2, 1, 2, 0, 1, 2, 0, 1, 0] {
        network.run_round_with(i);
    }
    let m = &network.validators[2];
    assert_eq!(m.violations(), 3);
    assert!(m.get_synergy_score() < network.validators[0].get_synergy_score());
    assert!(m.get_synergy_score() < network.validators[1].get_synergy_score());
    assert_eq!(network.validators[0].proposed_blocks(), 4);
    assert_eq!(network.validators[0].accepted_blocks(), 4);
}

#[test]
fn lone_malicious_validator_is_not_rejected() {
    let mut network = Network::new(vec![PosygDcsEngine::new("m".to_string(), 800, true)]);
    network.run_round_with(0);
    let m = &network.validators[0];
    assert_eq!(m.violations(), 0);
    assert_eq!(m.accepted_blocks(), 1);
    assert_eq!(m.get_synergy_score(), 400_000 + 2_400_000);
}

#[test]
fn malicious_proposal_carries_marker() {
    let v = PosygDcsEngine::new("bad".to_string(), 1, true);
    let b = v.propose_block().unwrap();
    assert_eq!(b.id, 0);
    assert_eq!(b.proposer, "bad");
    assert_eq!(b.transactions, vec![INVALID_MARKER.to_string()]);
    assert!(matches!(v.validate_block(&b), Err(ConsensusError::InvalidBlock)));
}

#[test]
fn validation_accepts_blocks_without_marker() {
    let v = PosygDcsEngine::new("v".to_string(), 1, false);
    let b = Block {
        id: 9,
        proposer: "w".to_string(),
        transactions: vec!["tx1".to_string(), "invalid".to_string()],
    };
    assert!(v.validate_block(&b).is_ok());
    let bad = Block {
        id: 9,
        proposer: "w".to_string(),
        transactions: vec!["tx1".to_string(), "invalid_tx".to_string()],
    };
    assert!(v.validate_block(&bad).is_err());
}

#[test]
fn error_debug_names() {
    assert_eq!(format!("{:?}", ConsensusError::InvalidBlock), "InvalidBlock");
    let e = ConsensusError::NetworkError("down".to_string());
    assert_eq!(format!("{:?}", e), "NetworkError(\"down\")");
}

#[test]
fn custom_config_changes_the_formula() {
    let cfg = ScoringConfig {
        alpha_milli: 1000,
        beta_milli: 0,
        gamma_milli: 0,
        delta_milli: 1000,
        base_penalty_milli: 1000,
        multiplier: 3,
    };
    let mut v = PosygDcsEngine::with_config("c".to_string(), 5000, true, cfg);
    v.update_scores(true, false);
    assert_eq!(v.get_synergy_score(), SCORE_UNIT);
    v.update_scores(false, true);
    v.update_scores(false, true);
    // penalties 1.0 then 3.0
    assert_eq!(v.get_synergy_score(), SCORE_UNIT - SCORE_UNIT - 3 * SCORE_UNIT);
    assert_eq!(v.config(), cfg);
}

#[test]
fn scores_saturate_under_huge_penalties() {
    let mut v = PosygDcsEngine::new("m".to_string(), 0, true);
    for _ in 0..200 {
        v.update_scores(false, true);
    }
    assert_eq!(v.get_synergy_score(), i64::MIN);
    assert_eq!(v.violations(), 200);
}

#[test]
fn identity_and_stake_accessors() {
    let mut v = PosygDcsEngine::new("validator1".to_string(), 1500, false);
    assert_eq!(v.validator_id(), "validator1");
    assert_eq!(v.stake(), 1500);
    assert!(!v.is_malicious());
    v.increment_accepted_blocks();
    assert_eq!(v.accepted_blocks(), 1);
    v.set_synergy_score(-5);
    assert_eq!(v.get_synergy_score(), -5);
}
