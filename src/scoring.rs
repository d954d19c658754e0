//! The synergy-score formula, in fixed point.
//!
//! A score is counted in micro-points: one point is `SCORE_UNIT` units, so the
//! formula's fractional coefficients stay exact. Coefficients and the base
//! penalty are given in thousandths.
use vstd::prelude::*;

verus! {

/// Score units per point.
pub const SCORE_UNIT: i64 = 1_000_000;

/// Score units that one unit of stake adds to a selection weight (0.01 point).
pub const STAKE_WEIGHT_UNITS: u64 = 10_000;

/// Tunable constants of the scoring formula.
///
/// `alpha`, `beta`, `gamma`, `delta` and `base_penalty` are in thousandths;
/// `multiplier` is the factor by which each further violation's penalty grows.
#[derive(Clone, Copy, Debug, PartialEq, Eq)]
pub struct ScoringConfig {
    pub alpha_milli: u32,
    pub beta_milli: u32,
    pub gamma_milli: u32,
    pub delta_milli: u32,
    pub base_penalty_milli: u32,
    pub multiplier: u32,
}

impl ScoringConfig {
    /// The standard tuning, as a value.
    pub open spec fn standard_spec() -> ScoringConfig {
        ScoringConfig {
            alpha_milli: 400,
            beta_milli: 300,
            gamma_milli: 200,
            delta_milli: 500,
            base_penalty_milli: 10_000,
            multiplier: 2,
        }
    }

    /// The standard tuning: alpha 0.4, beta 0.3, gamma 0.2, delta 0.5,
    /// base penalty 10.0, multiplier 2.
    pub fn standard() -> (r: ScoringConfig)
        ensures
            r == Self::standard_spec(),
    {
        ScoringConfig {
            alpha_milli: 400,
            beta_milli: 300,
            gamma_milli: 200,
            delta_milli: 500,
            base_penalty_milli: 10_000,
            multiplier: 2,
        }
    }
}

/// `base` raised to `exp`.
pub open spec fn power(base: int, exp: nat) -> int
    decreases exp,
{
    if exp == 0 {
        1
    } else {
        base * power(base, (exp - 1) as nat)
    }
}

/// `ALPHA*H + BETA*E + GAMMA*V` in score units, with `H` 1 or 0,
/// `E = stake * 0.01` and the reserved term `V` always 0.
pub open spec fn reward_units(cfg: ScoringConfig, stake: int, accepted: bool) -> int {
    (if accepted { cfg.alpha_milli * 1000 } else { 0int }) + cfg.beta_milli * stake * 10
        + cfg.gamma_milli * 0
}

/// `DELTA * BASE_PENALTY * MULTIPLIER^(count - 1)` in score units: the
/// penalty charged for a validator's `count`-th violation.
pub open spec fn penalty_units(cfg: ScoringConfig, count: nat) -> int
    recommends
        count >= 1,
{
    cfg.delta_milli * cfg.base_penalty_milli * power(cfg.multiplier as int, (count - 1) as nat)
}

/// A score held to the range of `i64`: updates saturate at either end.
pub open spec fn clamp_score(x: int) -> int {
    if x < i64::MIN {
        i64::MIN as int
    } else if x > i64::MAX {
        i64::MAX as int
    } else {
        x
    }
}

/// The score after one update. `count` is the violation count after the
/// update (it only matters when `violation` holds).
pub open spec fn updated_score(
    cfg: ScoringConfig,
    score: int,
    stake: int,
    accepted: bool,
    violation: bool,
    count: nat,
) -> int {
    clamp_score(
        score + reward_units(cfg, stake, accepted) - (if violation {
            penalty_units(cfg, count)
        } else {
            0int
        }),
    )
}

proof fn lemma_power_nonneg(b: int, e: nat)
    requires
        b >= 0,
    ensures
        power(b, e) >= 0,
    decreases e,
{
    if e > 0 {
        lemma_power_nonneg(b, (e - 1) as nat);
        assert(b * power(b, (e - 1) as nat) >= 0) by (nonlinear_arith)
            requires
                b >= 0,
                power(b, (e - 1) as nat) >= 0,
        ;
    }
}

proof fn lemma_power_grows(b: int, i: nat, n: nat)
    requires
        b >= 1,
        i <= n,
    ensures
        power(b, i) <= power(b, n),
    decreases n - i,
{
    if i < n {
        lemma_power_grows(b, i, (n - 1) as nat);
        lemma_power_nonneg(b, (n - 1) as nat);
        assert(power(b, (n - 1) as nat) <= b * power(b, (n - 1) as nat)) by (nonlinear_arith)
            requires
                b >= 1,
                power(b, (n - 1) as nat) >= 0,
        ;
    }
}

proof fn lemma_power_of_small(b: int, n: nat)
    requires
        0 <= b <= 1,
    ensures
        power(b, n) == if b == 0 && n > 0 { 0int } else { 1int },
    decreases n,
{
    if n > 0 {
        lemma_power_of_small(b, (n - 1) as nat);
    }
}

/// The penalty for the `count`-th violation, or `None` where it exceeds
/// `u128::MAX` score units.
fn penalty_for(cfg: ScoringConfig, count: u64) -> (r: Option<u128>)
    requires
        count >= 1,
    ensures
        r matches Some(p) ==> p == penalty_units(cfg, count as nat),
        r is None ==> penalty_units(cfg, count as nat) > u128::MAX,
{
    let d: u128 = cfg.delta_milli as u128;
    let b: u128 = cfg.base_penalty_milli as u128;
    assert(d * b <= 0xFFFF_FFFF * 0xFFFF_FFFF) by (nonlinear_arith)
        requires
            d <= 0xFFFF_FFFF,
            b <= 0xFFFF_FFFF,
    ;
    let k: u128 = d * b;
    let m: u128 = cfg.multiplier as u128;
    let n: u64 = count - 1;
    assert(penalty_units(cfg, count as nat) == k * power(m as int, n as nat));
    proof {
        lemma_power_nonneg(m as int, n as nat);
    }
    if m <= 1 {
        proof {
            lemma_power_of_small(m as int, n as nat);
            if m == 0 && n > 0 {
                assert(k * power(m as int, n as nat) == 0);
            } else {
                assert(k * power(m as int, n as nat) == k);
            }
        }
        if m == 0 && n > 0 {
            return Some(0);
        }
        return Some(k);
    }
    let mut acc: u128 = k;
    let mut i: u64 = 0;
    while i < n
        invariant
            m >= 2,
            i <= n,
            acc == k * power(m as int, i as nat),
            k >= 0,
            n == count - 1,
            penalty_units(cfg, count as nat) == k * power(m as int, n as nat),
        decreases n - i,
    {
        match acc.checked_mul(m) {
            Some(next) => {
                proof {
                    assert(k * power(m as int, (i + 1) as nat) == (k * power(m as int, i as nat))
                        * m) by (nonlinear_arith)
                        requires
                            power(m as int, (i + 1) as nat) == m * power(m as int, i as nat),
                    ;
                }
                acc = next;
                i = i + 1;
            },
            None => {
                proof {
                    let pi = power(m as int, (i + 1) as nat);
                    let pn = power(m as int, n as nat);
                    lemma_power_grows(m as int, (i + 1) as nat, n as nat);
                    assert(k * pi == acc * m) by (nonlinear_arith)
                        requires
                            pi == m * power(m as int, i as nat),
                            acc == k * power(m as int, i as nat),
                    ;
                    assert(acc * m > u128::MAX);
                    assert(k * pi <= k * pn) by (nonlinear_arith)
                        requires
                            pi <= pn,
                            k >= 0,
                    ;
                }
                return None;
            },
        }
    }
    Some(acc)
}

/// Applies one update to `score`; `count` is the violation count after it.
pub fn score_after_update(
    cfg: ScoringConfig,
    score: i64,
    stake: u64,
    accepted: bool,
    violation: bool,
    count: u64,
) -> (r: i64)
    requires
        violation ==> count >= 1,
    ensures
        r == updated_score(cfg, score as int, stake as int, accepted, violation, count as nat),
{
    let h: u128 = if accepted {
        (cfg.alpha_milli as u128) * 1000
    } else {
        0
    };
    let beta: u128 = cfg.beta_milli as u128;
    assert(beta * (stake as u128) * 10 <= 0xFFFF_FFFF * 0xFFFF_FFFF_FFFF_FFFF * 10)
        by (nonlinear_arith)
        requires
            beta <= 0xFFFF_FFFF,
            stake <= 0xFFFF_FFFF_FFFF_FFFFu64,
    ;
    let e: u128 = beta * (stake as u128) * 10;
    let reward: u128 = h + e;
    assert(reward == reward_units(cfg, stake as int, accepted));
    assert(reward < 0x10_0000_0000_0000_0000_0000_0000) by (nonlinear_arith)
        requires
            reward == h + e,
            h <= 0xFFFF_FFFF * 1000,
            e <= 0xFFFF_FFFF * 0xFFFF_FFFF_FFFF_FFFF * 10,
    ;
    let penalty: u128 = if violation {
        match penalty_for(cfg, count) {
            Some(p) => p,
            None => {
                return i64::MIN;
            },
        }
    } else {
        0
    };
    if penalty >= reward + 0x1_0000_0000_0000_0000 {
        return i64::MIN;
    }
    let x: i128 = (score as i128) + (reward as i128) - (penalty as i128);
    if x < i64::MIN as i128 {
        i64::MIN
    } else if x > i64::MAX as i128 {
        i64::MAX
    } else {
        x as i64
    }
}

} // verus!
