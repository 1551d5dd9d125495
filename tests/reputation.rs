use sol_analyst::indicators::{DaysSinceLastBlock, TransactionFailureRate, TxPerHour, WalletBalance, WalletRewards};
use sol_analyst::jobs::WalletReportJob;
use sol_analyst::rating::RatingClassification;
use sol_analyst::reputation::Reputation;
use sol_analyst::severity::PenaltySeverity;
use sol_analyst::text::{decimal_string, signed_decimal_string};
use sol_analyst::wallet::{TxStatus, Wallet};
use sol_analyst::indicators::PrioritizationFeesMetrics;

fn tx(block_time: Option<i64>, failed: bool) -> TxStatus {
    TxStatus { signature: String::from("sig"), block_time, failed }
}

#[test]
fn test_wallet_balance_penalties() {
    let test_cases = vec![
        (500_000_000, PenaltySeverity::High),
        (5_000_000_000, PenaltySeverity::Medium),
        (50_000_000_000, PenaltySeverity::Low),
        (150_000_000_000, PenaltySeverity::NoPenalty),
    ];

    for (balance, expected_severity) in test_cases {
        let penalty = WalletBalance(balance).penalty();
        assert_eq!(
            penalty.severity, expected_severity,
            "Balance {} should have {:?} severity",
            balance, expected_severity
        );
    }
}

#[test]
fn test_tx_per_hour_penalties() {
    let test_cases = vec![
        (0, PenaltySeverity::High),
        (3, PenaltySeverity::Low),
        (15, PenaltySeverity::NoPenalty),
        (30, PenaltySeverity::High),
    ];

    for (tx_per_hour, expected_severity) in test_cases {
        let penalty = TxPerHour(tx_per_hour).penalty();
        assert_eq!(
            penalty.severity, expected_severity,
            "TX per hour {} should have {:?} severity",
            tx_per_hour, expected_severity
        );
    }
}

#[test]
fn balance_boundaries_and_reasoning() {
    assert_eq!(WalletBalance(999_999_999).penalty().severity, PenaltySeverity::High);
    assert_eq!(WalletBalance(1_000_000_000).penalty().severity, PenaltySeverity::Medium);
    assert_eq!(WalletBalance(99_999_999_999).penalty().severity, PenaltySeverity::Low);
    assert_eq!(WalletBalance(100_000_000_000).penalty().severity, PenaltySeverity::NoPenalty);
    let p = WalletBalance(50_000_000_000).penalty();
    assert_eq!(p.reasoning, vec!["Balance between 10 and 100 Solana".to_string(), "Solana balance: 50".to_string()]);
}

#[test]
fn tx_per_hour_boundaries_and_reasoning() {
    assert_eq!(TxPerHour(4).penalty().severity, PenaltySeverity::Low);
    assert_eq!(TxPerHour(5).penalty().severity, PenaltySeverity::NoPenalty);
    assert_eq!(TxPerHour(24).penalty().severity, PenaltySeverity::NoPenalty);
    assert_eq!(TxPerHour(25).penalty().severity, PenaltySeverity::High);
    let p = TxPerHour(-3).penalty();
    assert_eq!(p.reasoning[1], "Transaction volume per hour: -3");
    assert_eq!(TxPerHour(0).penalty().reasoning[0], "No transaction volume");
}

#[test]
fn dormancy_tiers() {
    let cases = vec![
        (0, PenaltySeverity::NoPenalty),
        (3, PenaltySeverity::Low),
        (6, PenaltySeverity::Low),
        (7, PenaltySeverity::Medium),
        (15, PenaltySeverity::Medium),
        (29, PenaltySeverity::Medium),
        (30, PenaltySeverity::High),
        (35, PenaltySeverity::High),
    ];
    for (days, expected) in cases {
        assert_eq!(DaysSinceLastBlock(days).penalty().severity, expected);
    }
    assert_eq!(DaysSinceLastBlock(u64::MAX).penalty().reasoning[1], "Days since last transaction: 18446744073709551615");
}

#[test]
fn failure_rate_tiers() {
    let cases = vec![
        ((0, 0), PenaltySeverity::NoPenalty),
        ((0, 10), PenaltySeverity::NoPenalty),
        ((1, 100), PenaltySeverity::Low),
        ((5, 100), PenaltySeverity::Low),
        ((6, 100), PenaltySeverity::Medium),
        ((10, 100), PenaltySeverity::Medium),
        ((11, 100), PenaltySeverity::High),
        ((1, 3), PenaltySeverity::High),
    ];
    for ((failed, total), expected) in cases {
        let p = TransactionFailureRate { failed, total }.penalty();
        assert_eq!(p.severity, expected);
    }
    let p = TransactionFailureRate { failed: 1, total: 3 }.penalty();
    assert_eq!(p.reasoning, vec!["High transaction failure rate".to_string(), "Failed transactions: 1 of 3".to_string()]);
}

#[test]
fn fee_tiers() {
    let none = PrioritizationFeesMetrics::calculate(&Vec::new()).penalties();
    assert_eq!(none.0.severity, PenaltySeverity::High);
    assert_eq!(none.0.reasoning[0], "No prioritization fee used");
    assert_eq!(none.1.severity, PenaltySeverity::NoPenalty);
    let zero = PrioritizationFeesMetrics::calculate(&vec![0, 0, 0]).penalties();
    assert_eq!(zero.0.severity, PenaltySeverity::High);
    let low = PrioritizationFeesMetrics::calculate(&vec![1, 2, 3, 4, 5]).penalties();
    assert_eq!(low.0.severity, PenaltySeverity::NoPenalty);
    assert_eq!(low.0.reasoning, vec!["Low average prioritization fee".to_string(), "Average prioritization fee: 15/5".to_string()]);
    assert_eq!(low.1.severity, PenaltySeverity::NoPenalty);
    assert_eq!(low.1.reasoning[1], "Prioritization fee variance: 50/25");
    // different spreads give different lines
    let a = PrioritizationFeesMetrics::calculate(&vec![0, 1, 2]).penalties();
    let b = PrioritizationFeesMetrics::calculate(&vec![0, 1, 1]).penalties();
    assert_eq!(a.1.reasoning[1], "Prioritization fee variance: 6/9");
    assert_eq!(b.1.reasoning[1], "Prioritization fee variance: 2/9");
    // standard deviation exactly 50 is not above 50
    let fifty = PrioritizationFeesMetrics::calculate(&vec![0, 100]).penalties();
    assert_eq!(fifty.0.reasoning[0], "High average prioritization fee");
    assert_eq!(fifty.1.severity, PenaltySeverity::Medium);
    let wide = PrioritizationFeesMetrics::calculate(&vec![0, 102]).penalties();
    assert_eq!(wide.1.severity, PenaltySeverity::High);
    // standard deviation 6
    let six = PrioritizationFeesMetrics::calculate(&vec![4, 16]).penalties();
    assert_eq!(six.1.severity, PenaltySeverity::Low);
    let huge = PrioritizationFeesMetrics::calculate(&vec![0, u64::MAX, 7]).penalties();
    assert_eq!(huge.1.severity, PenaltySeverity::High);
    assert_eq!(
        huge.1.reasoning[1],
        "Prioritization fee variance: more than 340282366920938463463374607431768211455/9"
    );
    assert_eq!(none.1.reasoning[1], "Prioritization fee variance: 0/0");
}

#[test]
fn rewards_tiers() {
    assert_eq!(WalletRewards(0).penalty().severity, PenaltySeverity::High);
    assert_eq!(WalletRewards(4).penalty().severity, PenaltySeverity::Medium);
    assert_eq!(WalletRewards(19).penalty().severity, PenaltySeverity::Low);
    assert_eq!(WalletRewards(20).penalty().severity, PenaltySeverity::NoPenalty);
}

#[test]
fn severity_weights() {
    assert_eq!(PenaltySeverity::NoPenalty.weight(), 0);
    assert_eq!(PenaltySeverity::Low.weight(), 50);
    assert_eq!(PenaltySeverity::Medium.weight(), 150);
    assert_eq!(PenaltySeverity::High.weight(), 250);
}

#[test]
fn decimal_text() {
    assert_eq!(decimal_string(0), "0");
    assert_eq!(decimal_string(1203), "1203");
    assert_eq!(signed_decimal_string(-45), "-45");
}

#[test]
fn rating_band_boundaries() {
    let cases = vec![
        (-500, RatingClassification::C),
        (199, RatingClassification::C),
        (200, RatingClassification::CC),
        (299, RatingClassification::CC),
        (300, RatingClassification::CCC),
        (400, RatingClassification::B),
        (500, RatingClassification::BB),
        (600, RatingClassification::BBB),
        (700, RatingClassification::A),
        (799, RatingClassification::A),
        (800, RatingClassification::AA),
        (899, RatingClassification::AA),
        (900, RatingClassification::AAA),
        (1000, RatingClassification::AAA),
    ];
    for (score, band) in cases {
        assert_eq!(RatingClassification::from_score(score), band);
    }
    assert_eq!(RatingClassification::from_score(900).grade(), 1);
    assert_eq!(RatingClassification::from_score(199).grade(), 9);
}

#[test]
fn score_is_base_minus_weights() {
    let now: u64 = 1_700_000_000;
    // 10 transactions over 1 hour, the latest 3 days ago, one failure
    let history: Vec<TxStatus> = (0..10)
        .map(|i| tx(Some((now - 3 * 86400) as i64 - i * 400), i == 4))
        .collect();
    let wallet = Wallet {
        wallet_addr: String::from("Addr1"),
        account_balance: 5_000_000_000,
        transaction_history: history,
        prioritization_fees: vec![1, 2, 3, 4, 5],
    };
    let r = Reputation::new_from_wallet_at(&wallet, 42, now);
    let severities: Vec<PenaltySeverity> = r.penalties.iter().map(|p| p.severity).collect();
    assert_eq!(
        severities,
        vec![
            PenaltySeverity::NoPenalty, // 10 per hour
            PenaltySeverity::Medium,    // 5 native units
            PenaltySeverity::Low,       // 3 days
            PenaltySeverity::Medium,    // 10% failures
            PenaltySeverity::NoPenalty, // positive mean fee
            PenaltySeverity::NoPenalty, // small spread
        ]
    );
    assert_eq!(r.rating_score, 1000 - 150 - 50 - 150);
    assert_eq!(r.rating_score, Reputation::calc_rating_score(&r.penalties));
    assert_eq!(r.rating_classification, RatingClassification::BBB);
    assert_eq!(r.id, 42);
    assert_eq!(r.wallet_metrics.tx_per_hour, 10);
    assert_eq!(r.wallet_metrics.days_since_last_block, 3);
    assert_eq!((r.wallet_metrics.failed_transactions, r.wallet_metrics.total_transactions), (1, 10));
    assert!(r.penalties.iter().all(|p| p.reasoning.len() == 2));
}

#[test]
fn empty_snapshot_scores_worst_tiers() {
    let wallet = Wallet {
        wallet_addr: String::from("Empty"),
        account_balance: 0,
        transaction_history: Vec::new(),
        prioritization_fees: Vec::new(),
    };
    let r = Reputation::new_from_wallet(&wallet, 7);
    // tx/hour High, balance High, dormancy unknown High, failures none, fee mean High, spread none
    assert_eq!(r.rating_score, 1000 - 4 * 250);
    assert_eq!(r.rating_classification, RatingClassification::C);
    assert_eq!(r.wallet_metrics.days_since_last_block, u64::MAX);
}

#[test]
fn job_carries_subject() {
    let a = WalletReportJob::new(String::from("Addr9"));
    let b = WalletReportJob::new(String::from("Addr9"));
    assert_eq!(a.wallet_addr, "Addr9");
    assert_ne!(a.report_id, b.report_id);
}

#[test]
fn rating_labels_round_trip() {
    let all = vec![
        RatingClassification::AAA,
        RatingClassification::AA,
        RatingClassification::A,
        RatingClassification::BBB,
        RatingClassification::BB,
        RatingClassification::B,
        RatingClassification::CCC,
        RatingClassification::CC,
        RatingClassification::C,
    ];
    for c in all {
        assert_eq!(RatingClassification::from_db_label(c.db_label()), Some(c));
    }
    assert_eq!(RatingClassification::AAA.db_label(), "aaa");
    assert_eq!(RatingClassification::CC.db_label(), "cc");
    assert_eq!(RatingClassification::from_db_label("d"), None);
    assert_eq!(RatingClassification::from_db_label(""), None);
}
