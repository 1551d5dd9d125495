use std::time::{SystemTime, UNIX_EPOCH};

use sol_analyst::indicators::{
    DaysSinceLastBlock, PrioritizationFeesMetrics, TransactionFailureRate,
    TransactionsWithNewWallets, TxPerHour, WalletBalanceVolatility, WalletRewards,
};
use sol_analyst::severity::PenaltySeverity;
use sol_analyst::stats::Dispersion;
use sol_analyst::wallet::{ConfirmedTx, TxMeta, TxStatus};

fn create_mock_transaction(block_time: Option<i64>, has_error: bool) -> TxStatus {
    TxStatus { signature: String::new(), block_time, failed: has_error }
}

fn confirmed(pre: Vec<u64>, post: Vec<u64>, rewards: Vec<i64>) -> ConfirmedTx {
    ConfirmedTx {
        meta: Some(TxMeta { pre_balances: pre, post_balances: post, rewards }),
        account_keys: Vec::new(),
    }
}

#[test]
fn test_tx_per_hour_calculation() {
    // 10 transactions over 2 hours
    let transactions: Vec<TxStatus> =
        (0..10).map(|i| create_mock_transaction(Some(1000 + i * 720), false)).collect();
    let tx_per_hour = TxPerHour::calculate(&transactions);
    assert_eq!(tx_per_hour.0, 10);
}

#[test]
fn test_days_since_last_block() {
    let current_time = SystemTime::now().duration_since(UNIX_EPOCH).unwrap().as_secs();

    let test_cases = vec![
        (current_time, PenaltySeverity::NoPenalty),
        (current_time - 3 * 86400, PenaltySeverity::Low),
        (current_time - 15 * 86400, PenaltySeverity::Medium),
        (current_time - 35 * 86400, PenaltySeverity::High),
    ];

    for (block_time, expected_severity) in test_cases {
        let transactions = vec![create_mock_transaction(Some(block_time as i64), false)];
        let days = DaysSinceLastBlock::calculate(&transactions).unwrap();
        let penalty = days.penalty();
        assert_eq!(penalty.severity, expected_severity);
    }
}

#[test]
fn test_transaction_failure_rate() {
    let test_cases = vec![
        (vec![], 0.0),
        (vec![false], 0.0),
        (vec![true], 100.0),
        (vec![false, false, true], 33.33),
    ];

    for (failure_pattern, expected_rate) in test_cases {
        let transactions: Vec<TxStatus> = failure_pattern
            .into_iter()
            .map(|failed| create_mock_transaction(Some(1000), failed))
            .collect();

        let failure_rate = TransactionFailureRate::calculate(&transactions);
        let rate = failure_rate.percent_hundredths() as f64 / 100.0;
        assert!((rate - expected_rate).abs() < 0.01);
    }
}

#[test]
fn test_prioritization_fees_metrics() {
    let fees: Vec<u64> = vec![1, 2, 3, 4, 5];
    let metrics = PrioritizationFeesMetrics::calculate(&fees);
    let d = &metrics.0;

    let avg_fee = d.total as f64 / d.count as f64;
    assert!((avg_fee - 3.0).abs() < 0.001);

    let n = d.count as f64;
    let r = (d.total - d.mean_floor as u128 * d.count as u128) as f64;
    let std_deviation = ((n * d.deviation_square_sum as f64 - r * r) / (n * n)).sqrt();
    let expected_std_dev = (10.0f64).sqrt();
    assert!((std_deviation - expected_std_dev).abs() < 2.0);
}

#[test]
fn tx_per_hour_zero_span_is_zero_rate() {
    // all within the same hour: no measurable window
    let same_hour = vec![create_mock_transaction(Some(5000), false), create_mock_transaction(Some(5100), false)];
    assert_eq!(TxPerHour::calculate(&same_hour).0, 0);
    assert_eq!(TxPerHour::calculate(&same_hour).penalty().severity, PenaltySeverity::High);
    // an end without a block time
    let untimed = vec![create_mock_transaction(Some(5000), false), create_mock_transaction(None, false)];
    assert_eq!(TxPerHour::calculate(&untimed).0, 0);
    assert_eq!(TxPerHour::calculate(&Vec::new()).0, 0);
}

#[test]
fn tx_per_hour_uses_history_ends_in_either_order() {
    // newest first: 30 transactions across 3 hours
    let txs: Vec<TxStatus> =
        (0..30).map(|i| create_mock_transaction(Some(20000 - i * 400), false)).collect();
    // span 29 * 400 = 11600 s -> 3 whole hours
    assert_eq!(TxPerHour::calculate(&txs).0, 10);
}

#[test]
fn days_since_last_block_at_fixed_time() {
    let now: u64 = 1_700_000_000;
    let txs = vec![
        create_mock_transaction(Some((now - 40 * 86400) as i64), false),
        create_mock_transaction(Some((now - 3 * 86400 - 5) as i64), false),
        create_mock_transaction(None, false),
    ];
    // the latest timestamped transaction counts
    assert_eq!(DaysSinceLastBlock::calculate_at(&txs, now).unwrap().0, 3);
    assert_eq!(DaysSinceLastBlock::calculate_at(&txs, now - 3 * 86400).unwrap().0, 0);
    let none = vec![create_mock_transaction(None, true)];
    assert!(DaysSinceLastBlock::calculate_at(&none, now).is_none());
    assert!(DaysSinceLastBlock::calculate(&none).is_none());
    assert!(DaysSinceLastBlock::calculate_at(&Vec::new(), now).is_none());
}

#[test]
fn failure_rate_counts() {
    let txs = vec![
        create_mock_transaction(Some(1), true),
        create_mock_transaction(Some(2), false),
        create_mock_transaction(Some(3), true),
    ];
    let r = TransactionFailureRate::calculate(&txs);
    assert_eq!((r.failed, r.total), (2, 3));
    assert_eq!(r.percent_hundredths(), 6666);
}

#[test]
fn new_wallet_share() {
    let txs = vec![
        confirmed(vec![0, 5], vec![7, 5], vec![]),
        confirmed(vec![3], vec![0], vec![]),
        ConfirmedTx { meta: None, account_keys: Vec::new() },
        confirmed(vec![0], vec![], vec![]),
    ];
    let r = TransactionsWithNewWallets::calculate(&txs);
    assert_eq!((r.with_new, r.total), (1, 4));
    assert_eq!(r.penalty().severity, PenaltySeverity::High);
    let quiet = TransactionsWithNewWallets::calculate(&Vec::new());
    assert_eq!((quiet.with_new, quiet.total), (0, 0));
    assert_eq!(quiet.penalty().severity, PenaltySeverity::NoPenalty);
}

#[test]
fn balance_volatility_series() {
    let txs = vec![
        confirmed(vec![], vec![100, 1], vec![]),
        confirmed(vec![], vec![], vec![]),
        confirmed(vec![], vec![200], vec![]),
        ConfirmedTx { meta: None, account_keys: Vec::new() },
    ];
    let v = WalletBalanceVolatility::calculate(&txs);
    assert_eq!(v.0.count, 2);
    assert_eq!(v.0.total, 300);
    assert_eq!(v.0.mean_floor, 150);
    assert_eq!(v.0.deviation_square_sum, 5000);
    // standard deviation 50
    assert!(v.0.std_dev_exceeds(49));
    assert!(!v.0.std_dev_exceeds(50));
    assert_eq!(v.penalty().severity, PenaltySeverity::High);
    assert_eq!(v.penalty().reasoning[1], "Balance variance: 10000/4");
    let empty = WalletBalanceVolatility::calculate(&Vec::new());
    assert_eq!(empty.0.count, 0);
    assert_eq!(empty.0.spread_exact(), Some(0));
    assert_eq!(empty.penalty().severity, PenaltySeverity::NoPenalty);
}

#[test]
fn rewards_total_saturates() {
    let txs = vec![confirmed(vec![], vec![], vec![3, 4]), confirmed(vec![], vec![], vec![-2])];
    assert_eq!(WalletRewards::calculate(&txs).0, 5);
    let big = vec![confirmed(vec![], vec![], vec![i64::MAX, 10, -10])];
    assert_eq!(WalletRewards::calculate(&big).0, i64::MAX - 10);
}

#[test]
fn dispersion_of_samples() {
    let d = Dispersion::of_samples(&vec![2, 4, 4, 4, 5, 5, 7, 9]);
    assert_eq!((d.count, d.total, d.mean_floor), (8, 40, 5));
    // squared distances from 5: 9 + 1 + 1 + 1 + 0 + 0 + 4 + 16
    assert_eq!(d.deviation_square_sum, 32);
    assert_eq!(d.spread_exact(), Some(256));
    // population standard deviation is exactly 2
    assert!(d.std_dev_exceeds(1));
    assert!(!d.std_dev_exceeds(2));
    assert!(d.mean_exceeds(4));
    assert!(!d.mean_exceeds(5));
    let empty = Dispersion::of_samples(&Vec::new());
    assert_eq!((empty.count, empty.total, empty.deviation_square_sum), (0, 0, 0));
    assert!(!empty.mean_exceeds(0));
    assert!(!empty.std_dev_exceeds(0));
}
