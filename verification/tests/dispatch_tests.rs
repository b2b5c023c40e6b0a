use collection_email_worker::dispatch::{
    defer_decision, deferred_details, dlq_details, failed_details, pause_gate,
    processing_details, resolve_after_attempt, resolve_exhausted, retry_gate, route_event,
    AuditEvent, EventRoute, ProcessOutcome, DLQ_REASON_EXHAUSTED, DLQ_REASON_FAILED,
};
use collection_email_worker::models::ExecutionStatus;

#[test]
fn test_retry_gate_admits_and_increments() {
    assert_eq!(retry_gate(0), Some(1));
    assert_eq!(retry_gate(1), Some(2));
    assert_eq!(retry_gate(2), Some(3));
}

#[test]
fn test_retry_gate_refuses_at_bound() {
    // Retry-exhaustion: the store reports three pickups already.
    assert_eq!(retry_gate(3), None);
    assert_eq!(retry_gate(7), None);
}

#[test]
fn test_defer_six_hours() {
    // A batch six hours out is hidden for exactly its delay.
    let now = 1_700_000_000i64;
    assert_eq!(defer_decision(Some(now + 21600), now), Some(21600));
}

#[test]
fn test_defer_far_future_capped() {
    // Forty-eight hours out: capped at the twelve-hour ceiling.
    let now = 1_700_000_000i64;
    assert_eq!(defer_decision(Some(now + 172800), now), Some(43200));
}

#[test]
fn test_defer_past_schedule_processes_immediately() {
    let now = 1_700_000_000i64;
    assert_eq!(defer_decision(Some(now), now), None);
    assert_eq!(defer_decision(Some(now - 5), now), None);
    assert_eq!(defer_decision(None, now), None);
}

#[test]
fn test_pause_gate() {
    assert_eq!(pause_gate(ExecutionStatus::Paused), Some(300));
    assert_eq!(pause_gate(ExecutionStatus::Running), None);
    assert_eq!(pause_gate(ExecutionStatus::Pending), None);
}

#[test]
fn test_resolution_completed_deletes_and_records() {
    let r = resolve_after_attempt(ProcessOutcome::Completed, 1);
    assert!(r.delete_message);
    assert_eq!(r.dlq_reason, None);
    assert_eq!(r.audit_event, Some(AuditEvent::Completed));
}

#[test]
fn test_resolution_terminal_execution_leaves_message() {
    // A batch whose execution already finished is not acknowledged.
    let r = resolve_after_attempt(ProcessOutcome::SkippedTerminal, 1);
    assert!(!r.delete_message);
    assert_eq!(r.dlq_reason, None);
    assert_eq!(r.audit_event, None);
}

#[test]
fn test_resolution_failure_retries_then_dead_letters() {
    let early = resolve_after_attempt(ProcessOutcome::Failed, 1);
    assert!(!early.delete_message);
    assert_eq!(early.dlq_reason, None);
    assert_eq!(early.audit_event, Some(AuditEvent::Failed));
    let last = resolve_after_attempt(ProcessOutcome::Failed, 3);
    assert_eq!(last.dlq_reason, Some("Failed after maximum retries".to_string()));
    assert!(last.delete_message);
    assert_eq!(last.audit_event, Some(AuditEvent::DlqSent));
}

#[test]
fn test_resolution_exhausted_marks_and_deletes() {
    // A dead-letter mark always travels with the queue delete.
    let r = resolve_exhausted();
    assert_eq!(r.dlq_reason, Some("Exceeded maximum retry attempts".to_string()));
    assert!(r.delete_message);
    assert_eq!(r.audit_event, Some(AuditEvent::DlqSent));
}

#[test]
fn test_audit_event_names() {
    assert_eq!(AuditEvent::Enqueued.as_str(), "ENQUEUED");
    assert_eq!(AuditEvent::PickedUp.as_str(), "PICKED_UP");
    assert_eq!(AuditEvent::Deferred.as_str(), "DEFERRED");
    assert_eq!(AuditEvent::Processing.as_str(), "PROCESSING");
    assert_eq!(AuditEvent::Completed.as_str(), "COMPLETED");
    assert_eq!(AuditEvent::Failed.as_str(), "FAILED");
    assert_eq!(AuditEvent::DlqSent.as_str(), "DLQ_SENT");
}

#[test]
fn test_deferred_details_pairs() {
    let d = deferred_details(21600, "2026-02-01T14:30:00Z");
    assert_eq!(d.len(), 2);
    assert_eq!(d[0].0, "delay_seconds");
    assert_eq!(d[0].1, "21600");
    assert_eq!(d[1].0, "scheduled_for");
    assert_eq!(d[1].1, "2026-02-01T14:30:00Z");
}

#[test]
fn test_processing_and_failed_details() {
    let p = processing_details(2);
    assert_eq!(p[0].1, "2");
    let f = failed_details("boom", 2);
    assert_eq!(f[0].1, "boom");
    assert_eq!(f[1].1, "2");
    assert_eq!(f[2], ("will_retry".to_string(), "true".to_string()));
}

#[test]
fn test_dlq_details_reasons() {
    let d = dlq_details(DLQ_REASON_EXHAUSTED, None);
    assert_eq!(d.len(), 1);
    assert_eq!(d[0].1, "Exceeded maximum retry attempts");
    let d2 = dlq_details(DLQ_REASON_FAILED, Some("send timed out"));
    assert_eq!(d2[0], ("error".to_string(), "send timed out".to_string()));
    assert_eq!(d2[1].1, "Failed after maximum retries");
}

#[test]
fn test_route_event() {
    assert_eq!(route_event(Some("wake_up"), false), EventRoute::PollQueue);
    assert_eq!(route_event(Some("start_execution"), true), EventRoute::PollQueue);
    assert_eq!(route_event(Some("other"), true), EventRoute::Records);
    assert_eq!(route_event(None, true), EventRoute::Records);
    assert_eq!(route_event(None, false), EventRoute::Unknown);
}
