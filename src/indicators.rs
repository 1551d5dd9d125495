use vstd::prelude::*;

use crate::stats::Dispersion;
use crate::wallet::{ConfirmedTx, TxMeta, TxStatus};

verus! {

/// Seconds in an hour.
pub const SECONDS_PER_HOUR: i128 = 3600;

/// Seconds in a day.
pub const SECONDS_PER_DAY: i128 = 86400;

/// Whole hours between the block times of the first and the last entry of the
/// history, or 0 when either has no block time or the history is empty.
pub open spec fn span_hours(h: Seq<TxStatus>) -> int {
    if h.len() > 0 && h[0].block_time.is_some() && h.last().block_time.is_some() {
        let a = h[0].block_time.unwrap() as int;
        let b = h.last().block_time.unwrap() as int;
        (if a >= b { a - b } else { b - a }) / 3600
    } else {
        0
    }
}

/// Transactions per hour over the history; 0 when the history spans no whole hour.
/// A rate beyond `i64::MAX` reads as `i64::MAX`.
pub open spec fn tx_per_hour(h: Seq<TxStatus>) -> int {
    if span_hours(h) == 0 {
        0
    } else if (h.len() as int) / span_hours(h) > i64::MAX {
        i64::MAX as int
    } else {
        (h.len() as int) / span_hours(h)
    }
}

/// The latest block time in the history, if any entry has one.
pub open spec fn latest_block_time(h: Seq<TxStatus>) -> Option<i64>
    decreases h.len(),
{
    if h.len() == 0 {
        None
    } else {
        let rest = latest_block_time(h.drop_last());
        match h.last().block_time {
            None => rest,
            Some(t) => match rest {
                None => Some(t),
                Some(u) => Some(if t > u { t } else { u }),
            },
        }
    }
}

/// Whole days from block time `t` to `now`; 0 when `t` is not before `now`.
pub open spec fn days_between(t: int, now: int) -> int {
    if now > t {
        (now - t) / 86400
    } else {
        0
    }
}

/// Days since the latest timestamped transaction, at time `now`.
pub open spec fn days_since_last_activity(h: Seq<TxStatus>, now: int) -> Option<int> {
    match latest_block_time(h) {
        None => None,
        Some(t) => Some(days_between(t as int, now)),
    }
}

/// Number of failed transactions in the history.
pub open spec fn failed_count(h: Seq<TxStatus>) -> int
    decreases h.len(),
{
    if h.len() == 0 {
        0
    } else {
        failed_count(h.drop_last()) + if h.last().failed { 1int } else { 0 }
    }
}

/// Some account of the transaction went from a zero to a positive balance.
pub open spec fn funds_new_account(m: TxMeta) -> bool {
    exists|i: int|
        0 <= i < m.pre_balances@.len() && i < m.post_balances@.len() && m.pre_balances@[i] == 0
            && m.post_balances@[i] > 0
}

/// Number of transactions with details that fund a new account.
pub open spec fn new_account_tx_count(txs: Seq<ConfirmedTx>) -> int
    decreases txs.len(),
{
    if txs.len() == 0 {
        0
    } else {
        new_account_tx_count(txs.drop_last()) + match txs.last().meta {
            Some(m) => if funds_new_account(m) { 1int } else { 0 },
            None => 0,
        }
    }
}

/// The first post-balance of each transaction that has details and at least one balance.
pub open spec fn post_balance_series(txs: Seq<ConfirmedTx>) -> Seq<u64>
    decreases txs.len(),
{
    if txs.len() == 0 {
        Seq::empty()
    } else {
        let rest = post_balance_series(txs.drop_last());
        match txs.last().meta {
            Some(m) => if m.post_balances@.len() > 0 { rest.push(m.post_balances@[0]) } else { rest },
            None => rest,
        }
    }
}

/// Adds `x` to `acc`, saturating at the bounds of `i64`.
pub open spec fn sat_add(acc: int, x: int) -> int {
    if acc + x > i64::MAX {
        i64::MAX as int
    } else if acc + x < i64::MIN {
        i64::MIN as int
    } else {
        acc + x
    }
}

/// Saturating running total of `xs`, starting from `acc`.
pub open spec fn sat_total(acc: int, xs: Seq<i64>) -> int
    decreases xs.len(),
{
    if xs.len() == 0 {
        acc
    } else {
        sat_add(sat_total(acc, xs.drop_last()), xs.last() as int)
    }
}

/// Saturating running total of the rewards of every transaction with details, in order.
pub open spec fn rewards_total(txs: Seq<ConfirmedTx>) -> int
    decreases txs.len(),
{
    if txs.len() == 0 {
        0
    } else {
        let rest = rewards_total(txs.drop_last());
        match txs.last().meta {
            Some(m) => sat_total(rest, m.rewards@),
            None => rest,
        }
    }
}

/// Lamports received as rewards across a set of transactions.
pub struct WalletRewards(pub i64);

/// Account balance in lamports.
pub struct WalletBalance(pub u64);

/// Transactions per hour over the signature history.
pub struct TxPerHour(pub i64);

/// Whole days since the latest timestamped transaction.
pub struct DaysSinceLastBlock(pub u64);

/// Share of failed transactions: `failed` of `total`.
pub struct TransactionFailureRate {
    pub failed: u64,
    pub total: u64,
}

/// Share of transactions that fund a previously empty account: `with_new` of `total`.
pub struct TransactionsWithNewWallets {
    pub with_new: u64,
    pub total: u64,
}

/// Dispersion of the account's balance over its transactions.
pub struct WalletBalanceVolatility(pub Dispersion);

/// Mean and spread of the recent prioritization fees.
pub struct PrioritizationFeesMetrics(pub Dispersion);

/// Unix time now, in seconds.
///
/// Relies on `std::time::SystemTime::now` and `duration_since(UNIX_EPOCH)`; a clock set
/// before the epoch reads as 0.
#[verifier::external_body]
pub(crate) fn unix_time_now() -> (r: u64) {
    match std::time::SystemTime::now().duration_since(std::time::UNIX_EPOCH) {
        Ok(d) => d.as_secs(),
        Err(_) => 0,
    }
}

impl WalletRewards {
    /// Totals the rewards of every transaction that has details, saturating at the bounds of `i64`.
    pub fn calculate(confirmed_transactions: &Vec<ConfirmedTx>) -> (r: Self)
        ensures
            r.0 == rewards_total(confirmed_transactions@),
    {
        let mut total: i64 = 0;
        let mut i: usize = 0;
        while i < confirmed_transactions.len()
            invariant
                i <= confirmed_transactions@.len(),
                total == rewards_total(confirmed_transactions@.take(i as int)),
            decreases confirmed_transactions@.len() - i,
        {
            assert(confirmed_transactions@.take(i as int + 1).drop_last()
                == confirmed_transactions@.take(i as int));
            match &confirmed_transactions[i].meta {
                Some(m) => {
                    let ghost start = total as int;
                    let mut j: usize = 0;
                    while j < m.rewards.len()
                        invariant
                            j <= m.rewards@.len(),
                            total == sat_total(start, m.rewards@.take(j as int)),
                        decreases m.rewards@.len() - j,
                    {
                        assert(m.rewards@.take(j as int + 1).drop_last() == m.rewards@.take(j as int));
                        let x = m.rewards[j];
                        let sum: i128 = total as i128 + x as i128;
                        total = if sum > i64::MAX as i128 {
                            i64::MAX
                        } else if sum < i64::MIN as i128 {
                            i64::MIN
                        } else {
                            sum as i64
                        };
                        j = j + 1;
                    }
                    assert(m.rewards@.take(j as int) == m.rewards@);
                },
                None => {},
            }
            i = i + 1;
        }
        assert(confirmed_transactions@.take(i as int) == confirmed_transactions@);
        WalletRewards(total)
    }
}

impl TxPerHour {
    /// Transactions per hour between the first and the last entry of the history.
    ///
    /// When the history spans no whole hour, or either end has no block time, no rate can
    /// be measured and the result is 0, which the classifier treats as the worst tier.
    pub fn calculate(transaction_history: &Vec<TxStatus>) -> (r: Self)
        ensures
            r.0 == tx_per_hour(transaction_history@),
    {
        let n = transaction_history.len();
        if n == 0 {
            return TxPerHour(0);
        }
        let first = transaction_history[0].block_time;
        let last = transaction_history[n - 1].block_time;
        match (first, last) {
            (Some(a), Some(b)) => {
                let a = a as i128;
                let b = b as i128;
                let diff: i128 = if a >= b { a - b } else { b - a };
                let hours: i128 = diff / SECONDS_PER_HOUR;
                if hours == 0 {
                    TxPerHour(0)
                } else {
                    let rate: i128 = (n as i128) / hours;
                    proof {
                        assert(rate >= 0) by (nonlinear_arith)
                            requires rate == (n as int) / (hours as int), hours >= 1, n >= 0;
                    }
                    if rate > i64::MAX as i128 {
                        TxPerHour(i64::MAX)
                    } else {
                        TxPerHour(rate as i64)
                    }
                }
            },
            _ => TxPerHour(0),
        }
    }
}

impl DaysSinceLastBlock {
    /// Days from the latest timestamped transaction to `now` (Unix seconds);
    /// `None` when no transaction has a block time.
    pub fn calculate_at(transaction_history: &Vec<TxStatus>, now: u64) -> (r: Option<Self>)
        ensures
            r.is_none() <==> days_since_last_activity(transaction_history@, now as int).is_none(),
            r.is_some() ==> Some(r.unwrap().0 as int) == days_since_last_activity(
                transaction_history@,
                now as int,
            ),
    {
        let mut latest: Option<i64> = None;
        let mut i: usize = 0;
        while i < transaction_history.len()
            invariant
                i <= transaction_history@.len(),
                latest == latest_block_time(transaction_history@.take(i as int)),
            decreases transaction_history@.len() - i,
        {
            assert(transaction_history@.take(i as int + 1).drop_last()
                == transaction_history@.take(i as int));
            match transaction_history[i].block_time {
                Some(t) => {
                    latest = match latest {
                        None => Some(t),
                        Some(u) => Some(if t > u { t } else { u }),
                    };
                },
                None => {},
            }
            i = i + 1;
        }
        assert(transaction_history@.take(i as int) == transaction_history@);
        match latest {
            None => None,
            Some(t) => {
                let now_i = now as i128;
                let t_i = t as i128;
                let days: i128 = if now_i > t_i { (now_i - t_i) / SECONDS_PER_DAY } else { 0 };
                proof {
                    assert(0 <= days <= u64::MAX) by (nonlinear_arith)
                        requires
                            now_i > t_i ==> days == (now_i - t_i) / 86400,
                            now_i <= t_i ==> days == 0,
                            now_i <= u64::MAX,
                            t_i >= i64::MIN,
                    ;
                }
                Some(DaysSinceLastBlock(days as u64))
            },
        }
    }

    /// Days from the latest timestamped transaction to the current time;
    /// `None` when no transaction has a block time.
    pub fn calculate(transaction_history: &Vec<TxStatus>) -> (r: Option<Self>)
        ensures
            r.is_none() <==> latest_block_time(transaction_history@).is_none(),
            r.is_some() ==> exists|now: int|
                0 <= now <= u64::MAX && Some(r.unwrap().0 as int) == #[trigger] days_since_last_activity(
                    transaction_history@,
                    now,
                ),
    {
        let now = unix_time_now();
        DaysSinceLastBlock::calculate_at(transaction_history, now)
    }
}

impl TransactionFailureRate {
    /// Counts the failed transactions of the history.
    pub fn calculate(transaction_history: &Vec<TxStatus>) -> (r: Self)
        ensures
            r.failed == failed_count(transaction_history@),
            r.total == transaction_history@.len(),
    {
        let mut failed: u64 = 0;
        let mut i: usize = 0;
        while i < transaction_history.len()
            invariant
                i <= transaction_history@.len(),
                failed == failed_count(transaction_history@.take(i as int)),
                failed <= i,
            decreases transaction_history@.len() - i,
        {
            assert(transaction_history@.take(i as int + 1).drop_last()
                == transaction_history@.take(i as int));
            if transaction_history[i].failed {
                failed = failed + 1;
            }
            i = i + 1;
        }
        assert(transaction_history@.take(i as int) == transaction_history@);
        TransactionFailureRate { failed, total: transaction_history.len() as u64 }
    }

    /// The failure rate in hundredths of a percent, rounded down; 0 for an empty history.
    pub fn percent_hundredths(&self) -> (r: u128)
        ensures
            self.total == 0 ==> r == 0,
            self.total > 0 ==> r == (self.failed as int) * 10000 / (self.total as int),
    {
        if self.total == 0 {
            0
        } else {
            (self.failed as u128) * 10000 / (self.total as u128)
        }
    }
}

impl TransactionsWithNewWallets {
    /// Counts the transactions that fund a previously empty account.
    pub fn calculate(confirmed_transactions: &Vec<ConfirmedTx>) -> (r: Self)
        ensures
            r.with_new == new_account_tx_count(confirmed_transactions@),
            r.total == confirmed_transactions@.len(),
    {
        let mut count: u64 = 0;
        let mut i: usize = 0;
        while i < confirmed_transactions.len()
            invariant
                i <= confirmed_transactions@.len(),
                count == new_account_tx_count(confirmed_transactions@.take(i as int)),
                count <= i,
            decreases confirmed_transactions@.len() - i,
        {
            assert(confirmed_transactions@.take(i as int + 1).drop_last()
                == confirmed_transactions@.take(i as int));
            match &confirmed_transactions[i].meta {
                Some(m) => {
                    let mut found = false;
                    let mut j: usize = 0;
                    while j < m.pre_balances.len() && j < m.post_balances.len()
                        invariant
                            j <= m.pre_balances@.len(),
                            found == exists|k: int|
                                0 <= k < j && k < m.post_balances@.len() && m.pre_balances@[k] == 0
                                    && m.post_balances@[k] > 0,
                            !found ==> j <= m.post_balances@.len(),
                        decreases m.pre_balances@.len() - j,
                    {
                        if m.pre_balances[j] == 0 && m.post_balances[j] > 0 {
                            found = true;
                        }
                        j = j + 1;
                    }
                    assert(found == funds_new_account(*m));
                    if found {
                        count = count + 1;
                    }
                },
                None => {},
            }
            i = i + 1;
        }
        assert(confirmed_transactions@.take(i as int) == confirmed_transactions@);
        TransactionsWithNewWallets { with_new: count, total: confirmed_transactions.len() as u64 }
    }
}

impl WalletBalanceVolatility {
    /// Dispersion of the first post-balance of each transaction that reports one.
    pub fn calculate(confirmed_transactions: &Vec<ConfirmedTx>) -> (r: Self)
        ensures
            r.0.wf(),
            r.0.samples@ == post_balance_series(confirmed_transactions@),
    {
        let mut balances: Vec<u64> = Vec::new();
        let mut i: usize = 0;
        while i < confirmed_transactions.len()
            invariant
                i <= confirmed_transactions@.len(),
                balances@ == post_balance_series(confirmed_transactions@.take(i as int)),
            decreases confirmed_transactions@.len() - i,
        {
            assert(confirmed_transactions@.take(i as int + 1).drop_last()
                == confirmed_transactions@.take(i as int));
            match &confirmed_transactions[i].meta {
                Some(m) => {
                    if m.post_balances.len() > 0 {
                        balances.push(m.post_balances[0]);
                    }
                },
                None => {},
            }
            i = i + 1;
        }
        assert(confirmed_transactions@.take(i as int) == confirmed_transactions@);
        WalletBalanceVolatility(Dispersion::of_samples(&balances))
    }
}

impl PrioritizationFeesMetrics {
    /// Mean and spread of the fee samples. With no samples the mean counts as zero.
    pub fn calculate(prioritization_fees: &Vec<u64>) -> (r: Self)
        ensures
            r.0.wf(),
            r.0.samples@ == prioritization_fees@,
    {
        PrioritizationFeesMetrics(Dispersion::of_samples(prioritization_fees))
    }
}

} // verus!
