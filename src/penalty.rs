use vstd::prelude::*;

use crate::indicators::{
    DaysSinceLastBlock, PrioritizationFeesMetrics, TransactionFailureRate,
    TransactionsWithNewWallets, TxPerHour, WalletBalance, WalletBalanceVolatility, WalletRewards,
};
use crate::severity::PenaltySeverity;
use crate::stats::{mean_exceeds, spread, std_dev_exceeds, Dispersion};
use crate::text::{decimal, decimal_string, labelled, signed_decimal, signed_decimal_string};

verus! {

/// A severity-tagged, explained deduction from the base score.
pub struct ReputationPenalty {
    pub severity: PenaltySeverity,
    /// A line naming the tier's reason, then a line with the raw indicator value.
    pub reasoning: Vec<String>,
}

/// `p` has severity `sev`, and its reasoning is exactly `reason` then `detail`.
pub open spec fn explains(p: ReputationPenalty, sev: PenaltySeverity, reason: Seq<char>, detail: Seq<char>) -> bool {
    &&& p.severity == sev
    &&& p.reasoning@.len() == 2
    &&& p.reasoning@[0]@ == reason
    &&& p.reasoning@[1]@ == detail
}

fn explained(sev: PenaltySeverity, reason: &str, detail: String) -> (r: ReputationPenalty)
    ensures
        explains(r, sev, reason@, detail@),
{
    let mut reasoning: Vec<String> = Vec::new();
    reasoning.push(String::from_str(reason));
    reasoning.push(detail);
    ReputationPenalty { severity: sev, reasoning }
}

/// Writes `a`, then `sep`, then `b`, in decimal.
fn ratio_text(a: u128, sep: &str, b: u128) -> (r: String)
    ensures
        r@ == decimal(a as nat) + sep@ + decimal(b as nat),
{
    let s = decimal_string(a).concat(sep);
    s.concat(decimal_string(b).as_str())
}

/// The population variance of the samples as an exact fraction `n * n * variance / (n * n)`,
/// or a lower bound on it when the numerator does not fit in 128 bits.
pub open spec fn variance_text(s: Seq<u64>) -> Seq<char> {
    let nn = (s.len() * s.len()) as nat;
    if spread(s) <= u128::MAX {
        decimal(spread(s) as nat) + "/"@ + decimal(nn)
    } else {
        "more than "@ + (decimal(u128::MAX as nat) + "/"@ + decimal(nn))
    }
}

fn variance_string(d: &Dispersion) -> (r: String)
    requires
        d.wf(),
    ensures
        r@ == variance_text(d.samples@),
{
    proof {
        assert((d.count as int) * (d.count as int) <= u128::MAX) by (nonlinear_arith)
            requires d.count <= u64::MAX;
    }
    let nn: u128 = (d.count as u128) * (d.count as u128);
    match d.spread_exact() {
        Some(v) => ratio_text(v, "/", nn),
        None => labelled("more than ", ratio_text(u128::MAX, "/", nn)),
    }
}

/// Lamports in one native unit.
pub const LAMPORTS_PER_SOL: u64 = 1_000_000_000;

// ---- balance ----

pub open spec fn balance_severity(b: int) -> PenaltySeverity {
    if b < 1_000_000_000 {
        PenaltySeverity::High
    } else if b < 10_000_000_000 {
        PenaltySeverity::Medium
    } else if b < 100_000_000_000 {
        PenaltySeverity::Low
    } else {
        PenaltySeverity::NoPenalty
    }
}

pub open spec fn balance_reason(b: int) -> Seq<char> {
    if b < 1_000_000_000 {
        "Balance < 1 Solana"@
    } else if b < 10_000_000_000 {
        "Balance between 1 and 10 Solana"@
    } else if b < 100_000_000_000 {
        "Balance between 10 and 100 Solana"@
    } else {
        "Balance >= 100 Solana"@
    }
}

pub open spec fn balance_detail(b: int) -> Seq<char> {
    "Solana balance: "@ + decimal((b / 1_000_000_000) as nat)
}

impl WalletBalance {
    /// Classifies the balance: under 1 native unit High, under 10 Medium, under 100 Low.
    pub fn penalty(&self) -> (r: ReputationPenalty)
        ensures
            explains(r, balance_severity(self.0 as int), balance_reason(self.0 as int), balance_detail(self.0 as int)),
    {
        let b = self.0;
        let (sev, reason) = if b < 1_000_000_000 {
            (PenaltySeverity::High, "Balance < 1 Solana")
        } else if b < 10_000_000_000 {
            (PenaltySeverity::Medium, "Balance between 1 and 10 Solana")
        } else if b < 100_000_000_000 {
            (PenaltySeverity::Low, "Balance between 10 and 100 Solana")
        } else {
            (PenaltySeverity::NoPenalty, "Balance >= 100 Solana")
        };
        let detail = labelled("Solana balance: ", decimal_string((b / LAMPORTS_PER_SOL) as u128));
        explained(sev, reason, detail)
    }
}

// ---- transactions per hour ----

pub open spec fn tx_per_hour_severity(v: int) -> PenaltySeverity {
    if v == 0 {
        PenaltySeverity::High
    } else if v < 5 {
        PenaltySeverity::Low
    } else if v < 25 {
        PenaltySeverity::NoPenalty
    } else {
        PenaltySeverity::High
    }
}

pub open spec fn tx_per_hour_reason(v: int) -> Seq<char> {
    if v == 0 {
        "No transaction volume"@
    } else if v < 5 {
        "Low to Medium transaction volume"@
    } else if v < 25 {
        "Reasonable level of transaction volume"@
    } else {
        "Transaction volume too high"@
    }
}

pub open spec fn tx_per_hour_detail(v: int) -> Seq<char> {
    "Transaction volume per hour: "@ + signed_decimal(v)
}

impl TxPerHour {
    /// Classifies the volume: none or 25 and more per hour High, under 5 Low, else no penalty.
    pub fn penalty(&self) -> (r: ReputationPenalty)
        ensures
            explains(r, tx_per_hour_severity(self.0 as int), tx_per_hour_reason(self.0 as int), tx_per_hour_detail(self.0 as int)),
    {
        let v = self.0;
        let (sev, reason) = if v == 0 {
            (PenaltySeverity::High, "No transaction volume")
        } else if v < 5 {
            (PenaltySeverity::Low, "Low to Medium transaction volume")
        } else if v < 25 {
            (PenaltySeverity::NoPenalty, "Reasonable level of transaction volume")
        } else {
            (PenaltySeverity::High, "Transaction volume too high")
        };
        let detail = labelled("Transaction volume per hour: ", signed_decimal_string(v as i128));
        explained(sev, reason, detail)
    }
}

// ---- days since last activity ----

pub open spec fn days_severity(d: int) -> PenaltySeverity {
    if d == 0 {
        PenaltySeverity::NoPenalty
    } else if d < 7 {
        PenaltySeverity::Low
    } else if d < 30 {
        PenaltySeverity::Medium
    } else {
        PenaltySeverity::High
    }
}

pub open spec fn days_reason(d: int) -> Seq<char> {
    if d == 0 {
        "Recent activity in less than a day"@
    } else if d < 7 {
        "Recent activity, less than a week ago"@
    } else if d < 30 {
        "Activity less than a month ago"@
    } else {
        "No activity within a month"@
    }
}

pub open spec fn days_detail(d: int) -> Seq<char> {
    "Days since last transaction: "@ + decimal(d as nat)
}

impl DaysSinceLastBlock {
    /// Classifies dormancy: same day no penalty, under a week Low, under 30 days Medium, else High.
    pub fn penalty(&self) -> (r: ReputationPenalty)
        ensures
            explains(r, days_severity(self.0 as int), days_reason(self.0 as int), days_detail(self.0 as int)),
    {
        let d = self.0;
        let (sev, reason) = if d == 0 {
            (PenaltySeverity::NoPenalty, "Recent activity in less than a day")
        } else if d < 7 {
            (PenaltySeverity::Low, "Recent activity, less than a week ago")
        } else if d < 30 {
            (PenaltySeverity::Medium, "Activity less than a month ago")
        } else {
            (PenaltySeverity::High, "No activity within a month")
        };
        let detail = labelled("Days since last transaction: ", decimal_string(d as u128));
        explained(sev, reason, detail)
    }
}

// ---- failure rate ----

/// The failure rate `100 * failed / total` exceeds `p` percent (for `total == 0`, exactly
/// when some failure is counted).
pub open spec fn failure_rate_exceeds(failed: int, total: int, p: int) -> bool {
    100 * failed > p * total
}

pub open spec fn failure_severity(failed: int, total: int) -> PenaltySeverity {
    if failure_rate_exceeds(failed, total, 10) {
        PenaltySeverity::High
    } else if failure_rate_exceeds(failed, total, 5) {
        PenaltySeverity::Medium
    } else if failure_rate_exceeds(failed, total, 0) {
        PenaltySeverity::Low
    } else {
        PenaltySeverity::NoPenalty
    }
}

pub open spec fn failure_reason(failed: int, total: int) -> Seq<char> {
    if failure_rate_exceeds(failed, total, 10) {
        "High transaction failure rate"@
    } else if failure_rate_exceeds(failed, total, 5) {
        "Moderate transaction failure rate"@
    } else if failure_rate_exceeds(failed, total, 0) {
        "Low transaction failure rate"@
    } else {
        "No transaction failures"@
    }
}

pub open spec fn failure_detail(failed: int, total: int) -> Seq<char> {
    "Failed transactions: "@ + (decimal(failed as nat) + " of "@ + decimal(total as nat))
}

impl TransactionFailureRate {
    /// Classifies the failure rate: over 10% High, over 5% Medium, any failure Low.
    pub fn penalty(&self) -> (r: ReputationPenalty)
        ensures
            explains(
                r,
                failure_severity(self.failed as int, self.total as int),
                failure_reason(self.failed as int, self.total as int),
                failure_detail(self.failed as int, self.total as int),
            ),
    {
        let f = self.failed as u128;
        let t = self.total as u128;
        let (sev, reason) = if 100 * f > 10 * t {
            (PenaltySeverity::High, "High transaction failure rate")
        } else if 100 * f > 5 * t {
            (PenaltySeverity::Medium, "Moderate transaction failure rate")
        } else if 100 * f > 0 {
            (PenaltySeverity::Low, "Low transaction failure rate")
        } else {
            (PenaltySeverity::NoPenalty, "No transaction failures")
        };
        let detail = labelled("Failed transactions: ", ratio_text(f, " of ", t));
        explained(sev, reason, detail)
    }
}

// ---- prioritization fees ----

pub open spec fn fee_mean_severity(s: Seq<u64>) -> PenaltySeverity {
    if mean_exceeds(s, 0) {
        PenaltySeverity::NoPenalty
    } else {
        PenaltySeverity::High
    }
}

pub open spec fn fee_mean_reason(s: Seq<u64>) -> Seq<char> {
    if mean_exceeds(s, 10) {
        "High average prioritization fee"@
    } else if mean_exceeds(s, 5) {
        "Medium average prioritization fee"@
    } else if mean_exceeds(s, 0) {
        "Low average prioritization fee"@
    } else {
        "No prioritization fee used"@
    }
}

pub open spec fn fee_mean_detail(d: Dispersion) -> Seq<char> {
    "Average prioritization fee: "@ + (decimal(d.total as nat) + "/"@ + decimal(d.count as nat))
}

pub open spec fn fee_spread_severity(s: Seq<u64>) -> PenaltySeverity {
    if std_dev_exceeds(s, 50) {
        PenaltySeverity::High
    } else if std_dev_exceeds(s, 25) {
        PenaltySeverity::Medium
    } else if std_dev_exceeds(s, 5) {
        PenaltySeverity::Low
    } else {
        PenaltySeverity::NoPenalty
    }
}

pub open spec fn fee_spread_reason(s: Seq<u64>) -> Seq<char> {
    if std_dev_exceeds(s, 50) {
        "Very high standard deviation in prioritization fee"@
    } else if std_dev_exceeds(s, 25) {
        "Medium standard deviation in prioritization fee"@
    } else if std_dev_exceeds(s, 5) {
        "Low standard deviation in prioritization fee"@
    } else {
        "Very low standard deviation in prioritization fee"@
    }
}

pub open spec fn fee_spread_detail(d: Dispersion) -> Seq<char> {
    "Prioritization fee variance: "@ + variance_text(d.samples@)
}

impl PrioritizationFeesMetrics {
    /// Classifies the fee samples: a zero mean is High; a standard deviation over 50 High,
    /// over 25 Medium, over 5 Low.
    pub fn penalties(&self) -> (r: (ReputationPenalty, ReputationPenalty))
        requires
            self.0.wf(),
        ensures
            explains(r.0, fee_mean_severity(self.0.samples@), fee_mean_reason(self.0.samples@), fee_mean_detail(self.0)),
            explains(r.1, fee_spread_severity(self.0.samples@), fee_spread_reason(self.0.samples@), fee_spread_detail(self.0)),
    {
        let d = &self.0;
        let (mean_sev, mean_reason) = if d.mean_exceeds(10) {
            (PenaltySeverity::NoPenalty, "High average prioritization fee")
        } else if d.mean_exceeds(5) {
            (PenaltySeverity::NoPenalty, "Medium average prioritization fee")
        } else if d.mean_exceeds(0) {
            (PenaltySeverity::NoPenalty, "Low average prioritization fee")
        } else {
            (PenaltySeverity::High, "No prioritization fee used")
        };
        let mean_detail = labelled("Average prioritization fee: ", ratio_text(d.total, "/", d.count as u128));
        let (sd_sev, sd_reason) = if d.std_dev_exceeds(50) {
            (PenaltySeverity::High, "Very high standard deviation in prioritization fee")
        } else if d.std_dev_exceeds(25) {
            (PenaltySeverity::Medium, "Medium standard deviation in prioritization fee")
        } else if d.std_dev_exceeds(5) {
            (PenaltySeverity::Low, "Low standard deviation in prioritization fee")
        } else {
            (PenaltySeverity::NoPenalty, "Very low standard deviation in prioritization fee")
        };
        let sd_detail = labelled("Prioritization fee variance: ", variance_string(d));
        (explained(mean_sev, mean_reason, mean_detail), explained(sd_sev, sd_reason, sd_detail))
    }
}

// ---- balance volatility ----

pub open spec fn volatility_severity(s: Seq<u64>) -> PenaltySeverity {
    if std_dev_exceeds(s, 25) {
        PenaltySeverity::High
    } else if std_dev_exceeds(s, 10) {
        PenaltySeverity::Medium
    } else if std_dev_exceeds(s, 5) {
        PenaltySeverity::Low
    } else {
        PenaltySeverity::NoPenalty
    }
}

pub open spec fn volatility_reason(s: Seq<u64>) -> Seq<char> {
    if std_dev_exceeds(s, 25) {
        "Very high standard deviation in balance volatility"@
    } else if std_dev_exceeds(s, 10) {
        "Medium standard deviation in balance volatility"@
    } else if std_dev_exceeds(s, 5) {
        "Low standard deviation in balance volatility"@
    } else {
        "Very low standard deviation in balance volatility"@
    }
}

pub open spec fn volatility_detail(d: Dispersion) -> Seq<char> {
    "Balance variance: "@ + variance_text(d.samples@)
}

impl WalletBalanceVolatility {
    /// Classifies the balance series: a standard deviation over 25 High, over 10 Medium, over 5 Low.
    pub fn penalty(&self) -> (r: ReputationPenalty)
        requires
            self.0.wf(),
        ensures
            explains(r, volatility_severity(self.0.samples@), volatility_reason(self.0.samples@), volatility_detail(self.0)),
    {
        let d = &self.0;
        let (sev, reason) = if d.std_dev_exceeds(25) {
            (PenaltySeverity::High, "Very high standard deviation in balance volatility")
        } else if d.std_dev_exceeds(10) {
            (PenaltySeverity::Medium, "Medium standard deviation in balance volatility")
        } else if d.std_dev_exceeds(5) {
            (PenaltySeverity::Low, "Low standard deviation in balance volatility")
        } else {
            (PenaltySeverity::NoPenalty, "Very low standard deviation in balance volatility")
        };
        let detail = labelled("Balance variance: ", variance_string(d));
        explained(sev, reason, detail)
    }
}

// ---- transactions with new wallets ----

pub open spec fn new_wallets_severity(c: int, t: int) -> PenaltySeverity {
    if 100 * c > 10 * t {
        PenaltySeverity::High
    } else {
        PenaltySeverity::NoPenalty
    }
}

pub open spec fn new_wallets_reason(c: int, t: int) -> Seq<char> {
    if 100 * c > 30 * t {
        "Very high % of transactions with new wallets"@
    } else if 100 * c > 20 * t {
        "Medium/high % of transactions with new wallets"@
    } else if 100 * c > 10 * t {
        "Low % of transactions with new wallets"@
    } else {
        "Very low % of transactions with new wallets"@
    }
}

pub open spec fn new_wallets_detail(c: int, t: int) -> Seq<char> {
    "Transactions with new wallets: "@ + (decimal(c as nat) + " of "@ + decimal(t as nat))
}

impl TransactionsWithNewWallets {
    /// Classifies the share of transactions that fund new accounts: over 10% is High.
    pub fn penalty(&self) -> (r: ReputationPenalty)
        ensures
            explains(
                r,
                new_wallets_severity(self.with_new as int, self.total as int),
                new_wallets_reason(self.with_new as int, self.total as int),
                new_wallets_detail(self.with_new as int, self.total as int),
            ),
    {
        let c = self.with_new as u128;
        let t = self.total as u128;
        let (sev, reason) = if 100 * c > 30 * t {
            (PenaltySeverity::High, "Very high % of transactions with new wallets")
        } else if 100 * c > 20 * t {
            (PenaltySeverity::High, "Medium/high % of transactions with new wallets")
        } else if 100 * c > 10 * t {
            (PenaltySeverity::High, "Low % of transactions with new wallets")
        } else {
            (PenaltySeverity::NoPenalty, "Very low % of transactions with new wallets")
        };
        let detail = labelled("Transactions with new wallets: ", ratio_text(c, " of ", t));
        explained(sev, reason, detail)
    }
}

// ---- rewards ----

pub open spec fn rewards_severity(v: int) -> PenaltySeverity {
    if v < 1 {
        PenaltySeverity::High
    } else if v < 5 {
        PenaltySeverity::Medium
    } else if v < 20 {
        PenaltySeverity::Low
    } else {
        PenaltySeverity::NoPenalty
    }
}

pub open spec fn rewards_reason(v: int) -> Seq<char> {
    if v < 1 {
        "Wallet rewards < 1"@
    } else if v < 5 {
        "Wallet rewards between 1 and 5"@
    } else if v < 20 {
        "Wallet rewards between 5 and 20"@
    } else {
        "Wallet rewards >= 20"@
    }
}

pub open spec fn rewards_detail(v: int) -> Seq<char> {
    "Wallet rewards: "@ + signed_decimal(v)
}

impl WalletRewards {
    /// Classifies the rewards total: under 1 High, under 5 Medium, under 20 Low.
    pub fn penalty(&self) -> (r: ReputationPenalty)
        ensures
            explains(r, rewards_severity(self.0 as int), rewards_reason(self.0 as int), rewards_detail(self.0 as int)),
    {
        let v = self.0;
        let (sev, reason) = if v < 1 {
            (PenaltySeverity::High, "Wallet rewards < 1")
        } else if v < 5 {
            (PenaltySeverity::Medium, "Wallet rewards between 1 and 5")
        } else if v < 20 {
            (PenaltySeverity::Low, "Wallet rewards between 5 and 20")
        } else {
            (PenaltySeverity::NoPenalty, "Wallet rewards >= 20")
        };
        let detail = labelled("Wallet rewards: ", signed_decimal_string(v as i128));
        explained(sev, reason, detail)
    }
}

} // verus!
