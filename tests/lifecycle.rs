use sol_analyst::associates::{account_keys, KnownAssociates, KnownCreditedAssociates, KnownDiscreditedAssociates};
use sol_analyst::case_report::{CaseReport, GeneratedCaseReportSections};
use sol_analyst::jobs::{
    next_step, DeadLetterPolicy, Delivery, DeliveryStatus, JobStage, StepEvent, WorkerAction,
    MAX_JOB_RETRY,
};
use sol_analyst::rating::RatingClassification;
use sol_analyst::reputation::Reputation;
use sol_analyst::store::{create_user, delete_user, get_wallet_report_count, is_discredited, ReportStore, WalletReport};
use sol_analyst::wallet::{ConfirmedTx, Wallet};

fn sections() -> GeneratedCaseReportSections {
    GeneratedCaseReportSections {
        summary: String::from("summary"),
        reputation_strengths: vec![String::from("steady")],
        reputation_challenges: Vec::new(),
        potential_downgrade_factors: Vec::new(),
        penalty_breakdown: Vec::new(),
    }
}

fn report(id: u128, addr: &str, balance: u64) -> WalletReport {
    let wallet = Wallet {
        wallet_addr: String::from(addr),
        account_balance: balance,
        transaction_history: Vec::new(),
        prioritization_fees: vec![3],
    };
    let r = Reputation::new_from_wallet_at(&wallet, id, 1_700_000_000);
    WalletReport::new(
        id,
        r.rating_classification,
        r.rating_score,
        CaseReport::new(sections(), addr),
        String::from(addr),
        r.wallet_metrics,
        1_700_000_000,
    )
}

#[test]
fn saving_twice_keeps_one_record() {
    let mut store = ReportStore::new();
    store.insert_wallet_report(report(1, "A", 0));
    store.insert_wallet_report(report(1, "A", 0));
    assert_eq!(store.get_wallet_report_count(&String::from("A")), 1);
    store.insert_wallet_report(report(2, "A", 0));
    assert_eq!(get_wallet_report_count(&store, &String::from("A")), 2);
    // a redelivered job replaces its earlier record
    store.insert_wallet_report(report(1, "A", 500_000_000_000));
    assert_eq!(store.get_wallet_report_count(&String::from("A")), 2);
    let saved = store.get_wallet_report(1).unwrap();
    assert_eq!(saved.id, 1);
    assert_eq!(saved.wallet_metrics.wallet_balance, 500_000_000_000);
    assert!(store.get_wallet_report(3).is_none());
}

#[test]
fn store_queries() {
    let mut store = ReportStore::new();
    store.insert_wallet_report(report(1, "A", 0));
    store.insert_wallet_report(report(2, "B", 500_000_000_000));
    let scores: Vec<i32> = store.get_reports_between_scores(0, 1000).iter().map(|r| r.rating_score).collect();
    assert_eq!(scores.len(), 2);
    let high = store.get_reports_between_scores(500, 1000);
    assert_eq!(high.len(), 1);
    assert_eq!(high[0].id, 2);
    let best = store.get_wallet_reports_by_classification(high[0].rating_classification);
    assert_eq!(best.len(), 1);
    assert!(store.delete_report(1));
    assert!(!store.delete_report(1));
    assert_eq!(store.get_wallet_report_count(&String::from("A")), 0);
    assert_eq!(store.get_wallet_reports_by_classification(RatingClassification::AAA).len(), 0);
}

#[test]
fn users_and_associates() {
    let mut store = ReportStore::new();
    let key = create_user(&mut store).unwrap();
    assert_eq!(key.len(), 36);
    assert!(store.check_user_exists(&key));
    assert!(delete_user(&mut store, &key));
    assert!(!store.check_user_exists(&key));
    assert!(!store.delete_user(&key));
    store.insert_user(String::from("k1"));
    store.insert_user(String::from("k1"));
    assert!(store.delete_user("k1"));
    assert!(!store.check_user_exists("k1"));

    store.insert_discredited_wallet(String::from("bad1"));
    store.insert_discredited_wallet(String::from("bad2"));
    store.insert_credited_wallet(String::from("good1"));
    let txs = vec![
        ConfirmedTx { meta: None, account_keys: vec![String::from("me"), String::from("bad2")] },
        ConfirmedTx { meta: None, account_keys: vec![String::from("good1")] },
    ];
    assert_eq!(account_keys(&txs), vec!["me", "bad2", "good1"]);
    let bad = KnownDiscreditedAssociates::new(&store, &txs);
    assert_eq!(bad.wallets, vec!["bad2"]);
    let good = KnownCreditedAssociates::new(&store, &txs);
    assert_eq!(good.wallets, vec!["good1"]);
    let all = KnownAssociates::new(bad, good);
    assert_eq!(all.wallets, vec!["bad2", "good1"]);
}

#[test]
fn discredited_boundary() {
    assert!(is_discredited(399));
    assert!(!is_discredited(400));
}

#[test]
fn case_report_title() {
    let c = CaseReport::new(sections(), "Addr7");
    assert_eq!(c.title, "Reputation Ratings Analysis of Wallet: \"Addr7\"");
    assert_eq!(c.sections.summary, "summary");
}

fn run(events: &[StepEvent]) -> (JobStage, Vec<WorkerAction>) {
    let mut stage = JobStage::Received;
    let mut actions = Vec::new();
    for e in events {
        let (s, a) = next_step(stage, *e);
        stage = s;
        actions.push(a);
    }
    (stage, actions)
}

#[test]
fn worker_acks_after_all_steps() {
    let (stage, actions) = run(&[StepEvent::Decoded, StepEvent::Succeeded, StepEvent::Succeeded, StepEvent::Succeeded]);
    assert_eq!(stage, JobStage::Acknowledged);
    assert_eq!(
        actions,
        vec![WorkerAction::FetchSnapshot, WorkerAction::GenerateNarrative, WorkerAction::PersistReport, WorkerAction::Ack]
    );
}

#[test]
fn worker_nacks_on_failure_and_drops_malformed() {
    let (stage, actions) = run(&[StepEvent::Decoded, StepEvent::Succeeded, StepEvent::Failed]);
    assert_eq!(stage, JobStage::NegativelyAcknowledged);
    assert_eq!(actions.last(), Some(&WorkerAction::Nack));
    let (stage, actions) = run(&[StepEvent::Decoded, StepEvent::Failed, StepEvent::Succeeded]);
    assert_eq!(stage, JobStage::NegativelyAcknowledged);
    assert_eq!(actions, vec![WorkerAction::FetchSnapshot, WorkerAction::Nack, WorkerAction::Idle]);
    let (stage, actions) = run(&[StepEvent::Malformed]);
    assert_eq!(stage, JobStage::Dropped);
    assert_eq!(actions, vec![WorkerAction::Drop]);
}

fn deliver(outcomes: &[bool]) -> Delivery {
    let policy = DeadLetterPolicy { max_redeliver_count: MAX_JOB_RETRY };
    let mut d = Delivery::new();
    for ok in outcomes {
        d.record_outcome(*ok, &policy);
    }
    d
}

#[test]
fn redelivered_job_acknowledged_once() {
    for n in 0..3 {
        let mut outcomes = vec![false; n];
        outcomes.push(true);
        outcomes.push(true);
        let d = deliver(&outcomes);
        assert_eq!(d.status, DeliveryStatus::Acknowledged);
        assert_eq!(d.ack_count, 1);
        assert_eq!(d.redelivery_count as usize, n);
    }
}

#[test]
fn failing_job_dead_lettered_after_max() {
    let d = deliver(&[false, false, false]);
    assert_eq!(d.status, DeliveryStatus::InFlight);
    let d = deliver(&[false, false, false, false]);
    assert_eq!(d.status, DeliveryStatus::DeadLettered);
    assert_eq!(d.redelivery_count, 3);
    assert_eq!(d.ack_count, 0);
    let d = deliver(&[false, false, false, false, true]);
    assert_eq!(d.status, DeliveryStatus::DeadLettered);
    assert_eq!(d.ack_count, 0);
}
