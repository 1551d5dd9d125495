use vstd::prelude::*;

use crate::indicators::{
    days_since_last_activity, failed_count, tx_per_hour, unix_time_now, DaysSinceLastBlock,
    PrioritizationFeesMetrics, TransactionFailureRate, TxPerHour, WalletBalance,
};
use crate::penalty::{
    balance_detail, balance_reason, balance_severity, days_detail, days_reason, days_severity,
    explains, failure_detail, failure_reason, failure_severity, fee_mean_detail, fee_mean_reason,
    fee_mean_severity, fee_spread_detail, fee_spread_reason, fee_spread_severity,
    tx_per_hour_detail, tx_per_hour_reason, tx_per_hour_severity, ReputationPenalty,
};
use crate::rating::{rating_of, RatingClassification};
use crate::severity::weight;
use crate::stats::Dispersion;
use crate::wallet::Wallet;

verus! {

/// Score of an account with no penalty.
pub const BASE_SCORE: i32 = 1000;

/// The raw indicator values behind a report.
pub struct WalletMetrics {
    pub wallet_report_id: u128,
    pub failed_transactions: u64,
    pub total_transactions: u64,
    /// Statistics of the prioritization fee samples.
    pub prio_fees: Dispersion,
    /// Days since the latest timestamped transaction; `u64::MAX` when none has a block time.
    pub days_since_last_block: u64,
    pub tx_per_hour: i64,
    pub wallet_balance: u64,
}

/// The scored reputation of one account, created once per job.
pub struct Reputation {
    pub id: u128,
    pub penalties: Vec<ReputationPenalty>,
    pub rating_score: i32,
    pub rating_classification: RatingClassification,
    pub wallet_metrics: WalletMetrics,
}

/// Sum of the weights of the penalties' severities.
pub open spec fn total_weight(ps: Seq<ReputationPenalty>) -> int
    decreases ps.len(),
{
    if ps.len() == 0 {
        0
    } else {
        total_weight(ps.drop_last()) + weight(ps.last().severity)
    }
}

/// The score that a penalty list yields.
pub open spec fn score_of(ps: Seq<ReputationPenalty>) -> int {
    1000 - total_weight(ps)
}

proof fn lemma_total_weight_bounds(ps: Seq<ReputationPenalty>)
    ensures
        0 <= total_weight(ps) <= 250 * ps.len(),
    decreases ps.len(),
{
    if ps.len() > 0 {
        lemma_total_weight_bounds(ps.drop_last());
    }
}

/// Dormancy used for scoring: days since the latest activity, or `u64::MAX` when unknown.
pub open spec fn dormancy(w: Wallet, now: int) -> int {
    match days_since_last_activity(w.transaction_history@, now) {
        Some(d) => d,
        None => u64::MAX as int,
    }
}

/// `r` is the reputation of snapshot `w` for job `id`, scored at time `now`.
pub open spec fn describes(r: Reputation, w: Wallet, id: u128, now: int) -> bool {
    let h = w.transaction_history@;
    let fees = w.prioritization_fees@;
    let v = tx_per_hour(h);
    let b = w.account_balance as int;
    let d = dormancy(w, now);
    let f = failed_count(h);
    let ps = r.penalties@;
    let m = r.wallet_metrics;
    &&& r.id == id
    &&& ps.len() == 6
    &&& explains(ps[0], tx_per_hour_severity(v), tx_per_hour_reason(v), tx_per_hour_detail(v))
    &&& explains(ps[1], balance_severity(b), balance_reason(b), balance_detail(b))
    &&& explains(ps[2], days_severity(d), days_reason(d), days_detail(d))
    &&& explains(ps[3], failure_severity(f, h.len() as int), failure_reason(f, h.len() as int), failure_detail(f, h.len() as int))
    &&& explains(ps[4], fee_mean_severity(fees), fee_mean_reason(fees), fee_mean_detail(m.prio_fees))
    &&& explains(ps[5], fee_spread_severity(fees), fee_spread_reason(fees), fee_spread_detail(m.prio_fees))
    &&& r.rating_score == score_of(ps)
    &&& r.rating_classification == rating_of(r.rating_score as int)
    &&& m.wallet_report_id == id
    &&& m.failed_transactions == f
    &&& m.total_transactions == h.len()
    &&& m.prio_fees.wf()
    &&& m.prio_fees.samples@ == fees
    &&& m.days_since_last_block == d
    &&& m.tx_per_hour == v
    &&& m.wallet_balance == b
}

impl Reputation {
    /// Folds the penalties into a score: 1000 minus the weight of each penalty's severity.
    pub fn calc_rating_score(penalties: &Vec<ReputationPenalty>) -> (r: i32)
        requires
            penalties@.len() <= 8_589_938,
        ensures
            r == score_of(penalties@),
    {
        let mut score: i32 = BASE_SCORE;
        let mut i: usize = 0;
        while i < penalties.len()
            invariant
                i <= penalties@.len() <= 8_589_938,
                score == 1000 - total_weight(penalties@.take(i as int)),
            decreases penalties@.len() - i,
        {
            proof {
                assert(penalties@.take(i as int + 1).drop_last() == penalties@.take(i as int));
                lemma_total_weight_bounds(penalties@.take(i as int));
            }
            let w = penalties[i].severity.weight();
            score = score - w as i32;
            i = i + 1;
        }
        assert(penalties@.take(i as int) == penalties@);
        score
    }

    /// Scores snapshot `wallet` for job `id` at time `now` (Unix seconds).
    pub fn new_from_wallet_at(wallet: &Wallet, id: u128, now: u64) -> (r: Self)
        ensures
            describes(r, *wallet, id, now as int),
    {
        let tx_per_hour = TxPerHour::calculate(&wallet.transaction_history);
        let wallet_balance = WalletBalance(wallet.account_balance);
        let days_since_last_block = match DaysSinceLastBlock::calculate_at(&wallet.transaction_history, now) {
            Some(d) => d,
            None => DaysSinceLastBlock(u64::MAX),
        };
        let failure_rate = TransactionFailureRate::calculate(&wallet.transaction_history);
        let fee_metrics = PrioritizationFeesMetrics::calculate(&wallet.prioritization_fees);
        let (fee_penalty_1, fee_penalty_2) = fee_metrics.penalties();
        let mut penalties: Vec<ReputationPenalty> = Vec::new();
        penalties.push(tx_per_hour.penalty());
        penalties.push(wallet_balance.penalty());
        penalties.push(days_since_last_block.penalty());
        penalties.push(failure_rate.penalty());
        penalties.push(fee_penalty_1);
        penalties.push(fee_penalty_2);
        let rating_score = Self::calc_rating_score(&penalties);
        let wallet_metrics = WalletMetrics {
            wallet_report_id: id,
            failed_transactions: failure_rate.failed,
            total_transactions: failure_rate.total,
            prio_fees: fee_metrics.0,
            days_since_last_block: days_since_last_block.0,
            tx_per_hour: tx_per_hour.0,
            wallet_balance: wallet_balance.0,
        };
        Reputation {
            id,
            penalties,
            rating_score,
            rating_classification: RatingClassification::from_score(rating_score),
            wallet_metrics,
        }
    }

    /// Scores snapshot `wallet` for job `id` at the current time.
    pub fn new_from_wallet(wallet: &Wallet, id: u128) -> (r: Self)
        ensures
            exists|now: int| 0 <= now <= u64::MAX && #[trigger] describes(r, *wallet, id, now),
    {
        let now = unix_time_now();
        Self::new_from_wallet_at(wallet, id, now)
    }
}

/// For every snapshot, the score is the base score minus the weight of each of the six
/// penalties, so it lies in `[-500, 1000]`, and the band is the band of that score.
pub proof fn lemma_score_is_base_minus_weights(r: Reputation, w: Wallet, id: u128, now: int)
    requires
        describes(r, w, id, now),
    ensures
        r.rating_score == 1000 - (weight(r.penalties@[0].severity) + weight(r.penalties@[1].severity)
            + weight(r.penalties@[2].severity) + weight(r.penalties@[3].severity)
            + weight(r.penalties@[4].severity) + weight(r.penalties@[5].severity)),
        r.rating_classification == rating_of(r.rating_score as int),
        -500 <= r.rating_score <= 1000,
{
    let ps = r.penalties@;
    assert(ps.drop_last().drop_last().drop_last().drop_last().drop_last().drop_last().len() == 0);
    assert(ps.drop_last().drop_last().drop_last().drop_last().drop_last().last() == ps[0]);
    assert(ps.drop_last().drop_last().drop_last().drop_last().last() == ps[1]);
    assert(ps.drop_last().drop_last().drop_last().last() == ps[2]);
    assert(ps.drop_last().drop_last().last() == ps[3]);
    assert(ps.drop_last().last() == ps[4]);
    assert(ps.last() == ps[5]);
    reveal_with_fuel(total_weight, 7);
}

} // verus!
