//! Per-message decisions of the dispatch controller: future-deferral,
//! retry gate, pause gate, and what to do with the queue message after a
//! processing attempt.

use vstd::prelude::*;
use crate::models::ExecutionStatus;
use crate::MAX_VISIBILITY_SECONDS;

verus! {

/// Number of pickups after which a batch is dead-lettered.
pub const MAX_RETRY_ATTEMPTS: u32 = 3;

/// Visibility reserved while an invocation works on a message, and the
/// extension applied when its execution is paused, in seconds.
pub const PROCESSING_VISIBILITY_SECONDS: u64 = 300;

/// How a processing attempt on one batch ended.
#[derive(Clone, Copy, Debug, PartialEq, Eq, Structural)]
pub enum ProcessOutcome {
    /// The batch was worked through and marked completed.
    Completed,
    /// The batch's execution was already terminal; nothing was touched.
    SkippedTerminal,
    /// The attempt failed before the batch could be marked completed.
    Failed,
}

/// Everything that resolves one queue message once its fate is known:
/// the optional dead-letter mark with its reason, whether the queue
/// message is deleted, and the audit event owed, if any.  A message
/// that is not deleted re-appears when its visibility lapses.
#[derive(Clone, Debug)]
pub struct MessageResolution {
    pub dlq_reason: Option<String>,
    pub delete_message: bool,
    pub audit_event: Option<AuditEvent>,
}

/// Seconds of deferral owed to a scheduled batch, if any.
///
/// `scheduled_for` and `now` are seconds since the epoch.  A batch is
/// deferred exactly when its schedule lies in the future; the extension
/// is the remaining delay, capped at the queue's twelve-hour ceiling, so
/// a far-future batch re-appears early and is deferred again.
pub fn defer_decision(scheduled_for: Option<i64>, now: i64) -> (r: Option<u64>)
    ensures
        r == spec_defer_decision(scheduled_for, now),
        r is Some <==> (scheduled_for matches Some(t) && t > now),
{
    match scheduled_for {
        Some(t) => {
            if t > now {
                let delay: i128 = (t as i128) - (now as i128);
                if delay > MAX_VISIBILITY_SECONDS as i128 {
                    Some(MAX_VISIBILITY_SECONDS)
                } else {
                    Some(delay as u64)
                }
            } else {
                None
            }
        }
        None => None,
    }
}

/// The retry gate: given the persisted pickup count of a batch, either
/// refuse it (`None`, dead-letter) or admit it with the incremented
/// count that is written back.
///
/// The admitted count never exceeds `MAX_RETRY_ATTEMPTS`, which is the
/// retry-bound invariant of the control plane.
pub fn retry_gate(retry_count: u32) -> (r: Option<u32>)
    ensures
        r == spec_retry_gate(retry_count),
        r is None <==> retry_count >= MAX_RETRY_ATTEMPTS,
        retry_count < MAX_RETRY_ATTEMPTS ==> r == Some((retry_count + 1) as u32),
        r matches Some(n) ==> n <= MAX_RETRY_ATTEMPTS,
{
    if retry_count >= MAX_RETRY_ATTEMPTS {
        None
    } else {
        Some(retry_count + 1)
    }
}

/// The pause gate: a paused execution defers its messages by the
/// processing reservation instead of working on them.
pub fn pause_gate(status: ExecutionStatus) -> (r: Option<u64>)
    ensures
        r is Some <==> status == ExecutionStatus::Paused,
        status == ExecutionStatus::Paused ==> r == Some(PROCESSING_VISIBILITY_SECONDS as u64),
{
    if status == ExecutionStatus::Paused {
        Some(PROCESSING_VISIBILITY_SECONDS)
    } else {
        None
    }
}

/// Resolution of a message the retry gate refused: the batch is marked
/// dead-lettered for retry exhaustion, a `DLQ_SENT` entry is owed, and
/// the queue message is deleted, so a dead-lettered batch is never
/// redelivered and never advances again.
pub fn resolve_exhausted() -> (r: MessageResolution)
    ensures
        r.dlq_reason matches Some(x) && x@ == DLQ_REASON_EXHAUSTED@,
        r.delete_message,
        r.audit_event == Some(AuditEvent::DlqSent),
{
    MessageResolution {
        dlq_reason: Some(DLQ_REASON_EXHAUSTED.to_owned()),
        delete_message: true,
        audit_event: Some(AuditEvent::DlqSent),
    }
}

/// Resolution of a message once a processing attempt ended.
///
/// `retry_count` is the post-increment pickup count.  A completed batch
/// is acknowledged and deleted; a batch whose execution was already
/// terminal is left on the queue untouched, so the queue's dead-letter
/// policy eventually reaps it; a failed batch retries through
/// redelivery until the retry bound is reached, then dead-letters.  A
/// dead-letter mark is always paired with the delete, so a
/// dead-lettered batch's message is never redelivered.
pub fn resolve_after_attempt(outcome: ProcessOutcome, retry_count: u32) -> (r: MessageResolution)
    ensures
        r.dlq_reason is Some ==> r.delete_message,
        r.dlq_reason is Some <==> (outcome == ProcessOutcome::Failed && retry_count
            >= MAX_RETRY_ATTEMPTS),
        r.dlq_reason matches Some(x) ==> x@ == DLQ_REASON_FAILED@,
        r.delete_message <==> (outcome == ProcessOutcome::Completed || (outcome
            == ProcessOutcome::Failed && retry_count >= MAX_RETRY_ATTEMPTS)),
        outcome == ProcessOutcome::Completed ==> r.audit_event == Some(AuditEvent::Completed),
        outcome == ProcessOutcome::SkippedTerminal ==> r.audit_event is None,
        (outcome == ProcessOutcome::Failed && retry_count >= MAX_RETRY_ATTEMPTS) ==> r.audit_event
            == Some(AuditEvent::DlqSent),
        (outcome == ProcessOutcome::Failed && retry_count < MAX_RETRY_ATTEMPTS) ==> r.audit_event
            == Some(AuditEvent::Failed),
{
    match outcome {
        ProcessOutcome::Completed => MessageResolution {
            dlq_reason: None,
            delete_message: true,
            audit_event: Some(AuditEvent::Completed),
        },
        ProcessOutcome::SkippedTerminal => MessageResolution {
            dlq_reason: None,
            delete_message: false,
            audit_event: None,
        },
        ProcessOutcome::Failed => {
            if retry_count >= MAX_RETRY_ATTEMPTS {
                MessageResolution {
                    dlq_reason: Some(DLQ_REASON_FAILED.to_owned()),
                    delete_message: true,
                    audit_event: Some(AuditEvent::DlqSent),
                }
            } else {
                MessageResolution {
                    dlq_reason: None,
                    delete_message: false,
                    audit_event: Some(AuditEvent::Failed),
                }
            }
        }
    }
}

/// The lifecycle events recorded in the audit log.
#[derive(Clone, Copy, Debug, PartialEq, Eq, Structural)]
pub enum AuditEvent {
    Enqueued,
    PickedUp,
    Deferred,
    Processing,
    Completed,
    Failed,
    DlqSent,
}

impl AuditEvent {
    /// Wire encoding of the event name.
    pub fn as_str(&self) -> (r: &'static str)
        ensures
            r@ == self.spec_str(),
    {
        match self {
            AuditEvent::Enqueued => "ENQUEUED",
            AuditEvent::PickedUp => "PICKED_UP",
            AuditEvent::Deferred => "DEFERRED",
            AuditEvent::Processing => "PROCESSING",
            AuditEvent::Completed => "COMPLETED",
            AuditEvent::Failed => "FAILED",
            AuditEvent::DlqSent => "DLQ_SENT",
        }
    }

    pub open spec fn spec_str(self) -> Seq<char> {
        match self {
            AuditEvent::Enqueued => "ENQUEUED"@,
            AuditEvent::PickedUp => "PICKED_UP"@,
            AuditEvent::Deferred => "DEFERRED"@,
            AuditEvent::Processing => "PROCESSING"@,
            AuditEvent::Completed => "COMPLETED"@,
            AuditEvent::Failed => "FAILED"@,
            AuditEvent::DlqSent => "DLQ_SENT"@,
        }
    }
}

/// Reason recorded when the retry gate refuses a batch.
pub const DLQ_REASON_EXHAUSTED: &'static str = "Exceeded maximum retry attempts";

/// Reason recorded when a batch fails its final attempt.
pub const DLQ_REASON_FAILED: &'static str = "Failed after maximum retries";

/// The detail pairs of a `DEFERRED` audit entry.
pub fn deferred_details(delay_seconds: u64, scheduled_for: &str) -> (r: Vec<(String, String)>)
    ensures
        crate::json::pairs_view(r@) == seq![
            ("delay_seconds"@, crate::text::spec_digits(delay_seconds as int)),
            ("scheduled_for"@, scheduled_for@),
        ],
{
    let mut r: Vec<(String, String)> = Vec::new();
    r.push(("delay_seconds".to_owned(), crate::text::u64_to_string(delay_seconds)));
    r.push(("scheduled_for".to_owned(), scheduled_for.to_owned()));
    proof {
        assert(crate::json::pairs_view(r@) =~= seq![
            ("delay_seconds"@, crate::text::spec_digits(delay_seconds as int)),
            ("scheduled_for"@, scheduled_for@),
        ]);
    }
    r
}

/// The detail pairs of a `PROCESSING` audit entry.
pub fn processing_details(retry_count: u32) -> (r: Vec<(String, String)>)
    ensures
        crate::json::pairs_view(r@) == seq![
            ("retry_count"@, crate::text::spec_digits(retry_count as int)),
        ],
{
    let mut r: Vec<(String, String)> = Vec::new();
    r.push(("retry_count".to_owned(), crate::text::u64_to_string(retry_count as u64)));
    proof {
        assert(crate::json::pairs_view(r@) =~= seq![
            ("retry_count"@, crate::text::spec_digits(retry_count as int)),
        ]);
    }
    r
}

/// The detail pairs of a `FAILED` audit entry for a batch that will be
/// redelivered.
pub fn failed_details(error: &str, retry_count: u32) -> (r: Vec<(String, String)>)
    ensures
        crate::json::pairs_view(r@) == seq![
            ("error"@, error@),
            ("retry_count"@, crate::text::spec_digits(retry_count as int)),
            ("will_retry"@, "true"@),
        ],
{
    let mut r: Vec<(String, String)> = Vec::new();
    r.push(("error".to_owned(), error.to_owned()));
    r.push(("retry_count".to_owned(), crate::text::u64_to_string(retry_count as u64)));
    r.push(("will_retry".to_owned(), "true".to_owned()));
    proof {
        assert(crate::json::pairs_view(r@) =~= seq![
            ("error"@, error@),
            ("retry_count"@, crate::text::spec_digits(retry_count as int)),
            ("will_retry"@, "true"@),
        ]);
    }
    r
}

/// The detail pairs of a `DLQ_SENT` audit entry.
pub fn dlq_details(reason: &str, error: Option<&str>) -> (r: Vec<(String, String)>)
    ensures
        error is None ==> crate::json::pairs_view(r@) == seq![("reason"@, reason@)],
        error matches Some(e) ==> crate::json::pairs_view(r@) == seq![
            ("error"@, e@),
            ("reason"@, reason@),
        ],
{
    let mut r: Vec<(String, String)> = Vec::new();
    match error {
        Some(e) => {
            r.push(("error".to_owned(), e.to_owned()));
        }
        None => {}
    }
    r.push(("reason".to_owned(), reason.to_owned()));
    proof {
        if error is Some {
            assert(crate::json::pairs_view(r@) =~= seq![
                ("error"@, error->0@),
                ("reason"@, reason@),
            ]);
        } else {
            assert(crate::json::pairs_view(r@) =~= seq![("reason"@, reason@)]);
        }
    }
    r
}

/// Where an invocation event routes: a control action polls the queue,
/// a delivered record set is processed directly, anything else is
/// logged and dropped.
#[derive(Clone, Copy, Debug, PartialEq, Eq, Structural)]
pub enum EventRoute {
    PollQueue,
    Records,
    Unknown,
}

/// Route one invocation event by its `action` field and whether it
/// carries delivered records.
pub fn route_event(action: Option<&str>, has_records: bool) -> (r: EventRoute)
    ensures
        r == EventRoute::PollQueue <==> (action is Some && (action->0@ == "wake_up"@ || action->0@
            == "start_execution"@)),
        r == EventRoute::Records <==> (!(action is Some && (action->0@ == "wake_up"@ || action->0@
            == "start_execution"@)) && has_records),
{
    match action {
        Some(a) => {
            let owned = a.to_owned();
            if owned == "wake_up".to_owned() || owned == "start_execution".to_owned() {
                return EventRoute::PollQueue;
            }
            if has_records {
                EventRoute::Records
            } else {
                EventRoute::Unknown
            }
        }
        None => {
            if has_records {
                EventRoute::Records
            } else {
                EventRoute::Unknown
            }
        }
    }
}

/// Retry-bound law: a batch's persisted retry count never exceeds the
/// dead-letter threshold.  Every counter update passes the retry gate:
/// a count at or below the bound stays at or below the bound after the
/// increment, and a count that has reached the bound is refused, so the
/// counter never passes it.
pub proof fn lemma_retry_count_bounded(retry_count: u32)
    requires
        retry_count <= MAX_RETRY_ATTEMPTS,
    ensures
        forall|n: u32| #[trigger] spec_retry_gate(retry_count) == Some(n) ==> n <= MAX_RETRY_ATTEMPTS,
        retry_count == MAX_RETRY_ATTEMPTS ==> spec_retry_gate(retry_count) is None,
{
}

/// The retry gate as a mathematical function, for stating laws.
pub open spec fn spec_retry_gate(retry_count: u32) -> Option<u32> {
    if retry_count >= MAX_RETRY_ATTEMPTS {
        None
    } else {
        Some((retry_count + 1) as u32)
    }
}

/// Deferral boundary law: a schedule more than the visibility ceiling
/// away is deferred by exactly the ceiling, and a schedule at or before
/// `now` is not deferred at all.
pub proof fn lemma_defer_boundaries(scheduled_for: i64, now: i64)
    ensures
        scheduled_for - now > MAX_VISIBILITY_SECONDS ==> spec_defer_decision(
            Some(scheduled_for),
            now,
        ) == Some(MAX_VISIBILITY_SECONDS as u64),
        scheduled_for <= now ==> spec_defer_decision(Some(scheduled_for), now) is None,
{
}

/// The deferral decision as a mathematical function, for stating laws.
pub open spec fn spec_defer_decision(scheduled_for: Option<i64>, now: i64) -> Option<u64> {
    match scheduled_for {
        Some(t) => if t > now {
            if t - now > MAX_VISIBILITY_SECONDS {
                Some(MAX_VISIBILITY_SECONDS as u64)
            } else {
                Some((t - now) as u64)
            }
        } else {
            None
        },
        None => None,
    }
}

} // verus!
