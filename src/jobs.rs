use vstd::prelude::*;

verus! {

/// Redeliveries the broker allows before it dead-letters a job.
pub const MAX_JOB_RETRY: u32 = 3;

/// Relies on `uuid::Uuid::new_v4` (random version-4 identifier), read as a 128-bit integer
/// with `Uuid::as_u128`.
#[verifier::external_body]
pub(crate) fn fresh_id() -> (r: u128) {
    uuid::Uuid::new_v4().as_u128()
}

/// The queue message for one scoring job: its identifier and the account to score.
pub struct WalletReportJob {
    pub report_id: u128,
    pub wallet_addr: String,
}

impl WalletReportJob {
    /// A job for `wallet_addr` under a fresh random identifier.
    pub fn new(wallet_addr: String) -> (r: Self)
        ensures
            r.wallet_addr@ == wallet_addr@,
    {
        WalletReportJob { report_id: fresh_id(), wallet_addr }
    }
}

/// Where the handling of one received message stands.
#[derive(Clone, Copy, Debug, PartialEq, Eq, Structural)]
pub enum JobStage {
    Received,
    Fetching,
    Generating,
    Persisting,
    Acknowledged,
    NegativelyAcknowledged,
    Dropped,
}

/// What the last action reported back.
#[derive(Clone, Copy, Debug, PartialEq, Eq, Structural)]
pub enum StepEvent {
    /// The message decoded into a job.
    Decoded,
    /// The message did not decode.
    Malformed,
    /// The collaborator step succeeded.
    Succeeded,
    /// The collaborator step failed.
    Failed,
}

/// What the worker does next.
#[derive(Clone, Copy, Debug, PartialEq, Eq, Structural)]
pub enum WorkerAction {
    /// Fetch the account's snapshot from the chain.
    FetchSnapshot,
    /// Score the snapshot, then ask for the narrative.
    GenerateNarrative,
    /// Store the report and its metrics.
    PersistReport,
    /// Acknowledge the message: it leaves the queue.
    Ack,
    /// Negatively acknowledge the message: the broker redelivers or dead-letters it.
    Nack,
    /// Drop the message without acknowledging it.
    Drop,
    /// Nothing to do: the message is settled.
    Idle,
}

/// The worker's transition for one message.
pub open spec fn step(stage: JobStage, event: StepEvent) -> (JobStage, WorkerAction) {
    match (stage, event) {
        (JobStage::Received, StepEvent::Decoded) => (JobStage::Fetching, WorkerAction::FetchSnapshot),
        (JobStage::Received, StepEvent::Malformed) => (JobStage::Dropped, WorkerAction::Drop),
        (JobStage::Fetching, StepEvent::Succeeded) => (JobStage::Generating, WorkerAction::GenerateNarrative),
        (JobStage::Generating, StepEvent::Succeeded) => (JobStage::Persisting, WorkerAction::PersistReport),
        (JobStage::Persisting, StepEvent::Succeeded) => (JobStage::Acknowledged, WorkerAction::Ack),
        (JobStage::Fetching, StepEvent::Failed) => (JobStage::NegativelyAcknowledged, WorkerAction::Nack),
        (JobStage::Generating, StepEvent::Failed) => (JobStage::NegativelyAcknowledged, WorkerAction::Nack),
        (JobStage::Persisting, StepEvent::Failed) => (JobStage::NegativelyAcknowledged, WorkerAction::Nack),
        _ => (stage, WorkerAction::Idle),
    }
}

/// The stage reached from `stage` after `events`, in order.
pub open spec fn run_steps(stage: JobStage, events: Seq<StepEvent>) -> JobStage
    decreases events.len(),
{
    if events.len() == 0 {
        stage
    } else {
        step(run_steps(stage, events.drop_last()), events.last()).0
    }
}

/// The events of one attempt at a decoded job whose fetch, narrative and persist steps
/// succeed as given; the attempt stops at the first failure.
pub open spec fn attempt_events(fetch_ok: bool, generate_ok: bool, persist_ok: bool) -> Seq<StepEvent> {
    let outcome = |ok: bool| if ok { StepEvent::Succeeded } else { StepEvent::Failed };
    if !fetch_ok {
        seq![StepEvent::Decoded, StepEvent::Failed]
    } else if !generate_ok {
        seq![StepEvent::Decoded, StepEvent::Succeeded, StepEvent::Failed]
    } else {
        seq![StepEvent::Decoded, StepEvent::Succeeded, StepEvent::Succeeded, outcome(persist_ok)]
    }
}

/// Decides the worker's next stage and action.
pub fn next_step(stage: JobStage, event: StepEvent) -> (r: (JobStage, WorkerAction))
    ensures
        r == step(stage, event),
{
    match (stage, event) {
        (JobStage::Received, StepEvent::Decoded) => (JobStage::Fetching, WorkerAction::FetchSnapshot),
        (JobStage::Received, StepEvent::Malformed) => (JobStage::Dropped, WorkerAction::Drop),
        (JobStage::Fetching, StepEvent::Succeeded) => (JobStage::Generating, WorkerAction::GenerateNarrative),
        (JobStage::Generating, StepEvent::Succeeded) => (JobStage::Persisting, WorkerAction::PersistReport),
        (JobStage::Persisting, StepEvent::Succeeded) => (JobStage::Acknowledged, WorkerAction::Ack),
        (JobStage::Fetching, StepEvent::Failed) => (JobStage::NegativelyAcknowledged, WorkerAction::Nack),
        (JobStage::Generating, StepEvent::Failed) => (JobStage::NegativelyAcknowledged, WorkerAction::Nack),
        (JobStage::Persisting, StepEvent::Failed) => (JobStage::NegativelyAcknowledged, WorkerAction::Nack),
        _ => (stage, WorkerAction::Idle),
    }
}

/// One attempt ends acknowledged exactly when every collaborator step succeeds, and
/// negatively acknowledged otherwise; a message that does not decode is dropped.
pub proof fn lemma_attempt_settles(fetch_ok: bool, generate_ok: bool, persist_ok: bool)
    ensures
        run_steps(JobStage::Received, attempt_events(fetch_ok, generate_ok, persist_ok)) == (if fetch_ok
            && generate_ok && persist_ok {
            JobStage::Acknowledged
        } else {
            JobStage::NegativelyAcknowledged
        }),
        run_steps(JobStage::Received, seq![StepEvent::Malformed]) == JobStage::Dropped,
{
    let e = attempt_events(fetch_ok, generate_ok, persist_ok);
    reveal_with_fuel(run_steps, 5);
    assert(seq![StepEvent::Malformed].drop_last() == Seq::<StepEvent>::empty());
    if !fetch_ok {
        assert(e.drop_last() == seq![StepEvent::Decoded]);
        assert(e.drop_last().drop_last() == Seq::<StepEvent>::empty());
    } else if !generate_ok {
        assert(e.drop_last() == seq![StepEvent::Decoded, StepEvent::Succeeded]);
        assert(e.drop_last().drop_last() == seq![StepEvent::Decoded]);
        assert(e.drop_last().drop_last().drop_last() == Seq::<StepEvent>::empty());
    } else {
        assert(e.drop_last() == seq![StepEvent::Decoded, StepEvent::Succeeded, StepEvent::Succeeded]);
        assert(e.drop_last().drop_last() == seq![StepEvent::Decoded, StepEvent::Succeeded]);
        assert(e.drop_last().drop_last().drop_last() == seq![StepEvent::Decoded]);
        assert(e.drop_last().drop_last().drop_last().drop_last() == Seq::<StepEvent>::empty());
    }
}

/// The broker's redelivery bound: after `max_redeliver_count` redeliveries a negatively
/// acknowledged message goes to the dead-letter destination.
pub struct DeadLetterPolicy {
    pub max_redeliver_count: u32,
}

/// Where one message stands with the broker.
#[derive(Clone, Copy, Debug, PartialEq, Eq, Structural)]
pub enum DeliveryStatus {
    InFlight,
    Acknowledged,
    DeadLettered,
}

/// The broker's record of one message across its deliveries.
#[derive(Clone, Copy, Debug, PartialEq, Eq, Structural)]
pub struct Delivery {
    pub status: DeliveryStatus,
    pub redelivery_count: u32,
    pub ack_count: u32,
}

/// The record after one more delivery whose processing succeeded (`ok`) or failed.
/// Outcomes reported after the message settled change nothing.
pub open spec fn after_attempt(d: Delivery, ok: bool, max: u32) -> Delivery {
    if d.status != DeliveryStatus::InFlight {
        d
    } else if ok {
        Delivery { status: DeliveryStatus::Acknowledged, ack_count: (d.ack_count + 1) as u32, ..d }
    } else if d.redelivery_count < max {
        Delivery { redelivery_count: (d.redelivery_count + 1) as u32, ..d }
    } else {
        Delivery { status: DeliveryStatus::DeadLettered, ..d }
    }
}

/// The record of a fresh message after the given processing outcomes, in order.
pub open spec fn after_attempts(outcomes: Seq<bool>, max: u32) -> Delivery
    decreases outcomes.len(),
{
    if outcomes.len() == 0 {
        Delivery { status: DeliveryStatus::InFlight, redelivery_count: 0, ack_count: 0 }
    } else {
        after_attempt(after_attempts(outcomes.drop_last(), max), outcomes.last(), max)
    }
}

impl Delivery {
    /// A message in flight has not been acknowledged yet.
    pub open spec fn wf(&self) -> bool {
        self.status == DeliveryStatus::InFlight ==> self.ack_count == 0
    }

    /// A message delivered for the first time.
    pub fn new() -> (r: Self)
        ensures
            r == after_attempts(Seq::empty(), 0),
            r.wf(),
    {
        Delivery { status: DeliveryStatus::InFlight, redelivery_count: 0, ack_count: 0 }
    }

    /// Records the outcome of one delivery: an acknowledgement settles the message; a
    /// negative acknowledgement redelivers it, or dead-letters it once the policy's bound
    /// of redeliveries is spent.
    pub fn record_outcome(&mut self, ok: bool, policy: &DeadLetterPolicy)
        requires
            old(self).wf(),
        ensures
            *final(self) == after_attempt(*old(self), ok, policy.max_redeliver_count),
            final(self).wf(),
    {
        if self.status == DeliveryStatus::InFlight {
            if ok {
                self.status = DeliveryStatus::Acknowledged;
                self.ack_count = self.ack_count + 1;
            } else if self.redelivery_count < policy.max_redeliver_count {
                self.redelivery_count = self.redelivery_count + 1;
            } else {
                self.status = DeliveryStatus::DeadLettered;
            }
        }
    }
}

/// `n` failures followed by `rest`.
pub open spec fn failures_then(n: nat, rest: Seq<bool>) -> Seq<bool> {
    Seq::new(n, |i: int| false) + rest
}

proof fn lemma_failures(n: nat, max: u32)
    ensures
        after_attempts(failures_then(n, Seq::empty()), max) == (if n <= max {
            Delivery { status: DeliveryStatus::InFlight, redelivery_count: n as u32, ack_count: 0 }
        } else {
            Delivery { status: DeliveryStatus::DeadLettered, redelivery_count: max, ack_count: 0 }
        }),
    decreases n,
{
    let s = failures_then(n, Seq::empty());
    if n > 0 {
        lemma_failures((n - 1) as nat, max);
        assert(s.drop_last() == failures_then((n - 1) as nat, Seq::empty()));
        assert(s.last() == false);
    } else {
        assert(s.len() == 0);
    }
}

proof fn lemma_settled_stays(outcomes: Seq<bool>, more: Seq<bool>, max: u32)
    requires
        after_attempts(outcomes, max).status != DeliveryStatus::InFlight,
    ensures
        after_attempts(outcomes + more, max) == after_attempts(outcomes, max),
    decreases more.len(),
{
    if more.len() > 0 {
        lemma_settled_stays(outcomes, more.drop_last(), max);
        assert((outcomes + more).drop_last() == outcomes + more.drop_last());
    } else {
        assert(outcomes + more == outcomes);
    }
}

/// A job whose processing fails `n` times, `n` at most the redelivery bound, and then
/// succeeds is acknowledged exactly once and never dead-lettered, whatever outcomes the
/// broker would see afterwards.
pub proof fn lemma_redelivered_job_acknowledged_once(n: nat, later: Seq<bool>, max: u32)
    requires
        n <= max,
    ensures
        after_attempts(failures_then(n, seq![true]) + later, max) == (Delivery {
            status: DeliveryStatus::Acknowledged,
            redelivery_count: n as u32,
            ack_count: 1,
        }),
{
    lemma_failures(n, max);
    let s = failures_then(n, seq![true]);
    assert(s.drop_last() == failures_then(n, Seq::empty()));
    assert(s.last() == true);
    lemma_settled_stays(s, later, max);
}

/// A job whose processing always fails is dead-lettered after exactly `max` redeliveries,
/// that is at its `max + 1`-th failed delivery and not before, and is never acknowledged.
pub proof fn lemma_failing_job_dead_lettered(n: nat, max: u32)
    ensures
        after_attempts(failures_then(n, Seq::empty()), max).ack_count == 0,
        after_attempts(failures_then(n, Seq::empty()), max).status == DeliveryStatus::DeadLettered
            <==> n > max,
        n > max ==> after_attempts(failures_then(n, Seq::empty()), max).redelivery_count == max,
{
    lemma_failures(n, max);
}

} // verus!
