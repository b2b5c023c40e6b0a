//! End-to-end scenarios for one invocation, chained across the
//! library's decision functions.

use collection_email_worker::batch::{
    completion_decision, plan_batch, plan_recipient, write_for_plan, write_for_send_result,
    BatchPlan, RecipientPlan,
};
use collection_email_worker::dispatch::{
    defer_decision, pause_gate, resolve_after_attempt, retry_gate, AuditEvent, ProcessOutcome,
};
use collection_email_worker::email::build_client_email;
use collection_email_worker::models::{
    BatchStatus, CollectionClient, CollectionExecution, CustomData, EmailTemplate,
    ExecutionStatus, RecipientStatus,
};
use collection_email_worker::scheduler::{parse_rfc3339_epoch, wake_up_cron, wake_up_plan};

fn one_recipient() -> CollectionClient {
    let mut cd = CustomData::empty();
    cd.email = Some("a@x.com".to_string());
    cd.full_name = Some("Ana".to_string());
    CollectionClient {
        id: "c1".to_string(),
        execution_id: "exec-1".to_string(),
        status: RecipientStatus::Pending,
        invoices: None,
        custom_data: Some(cd),
        email_template_id: None,
        customer_id: None,
        threshold_id: None,
    }
}

fn running_execution() -> CollectionExecution {
    CollectionExecution {
        id: "exec-1".to_string(),
        business_id: "biz-1".to_string(),
        status: ExecutionStatus::Running,
        email_template_id: Some("tpl-1".to_string()),
        execution_mode: "batch".to_string(),
        attachment_ids: None,
    }
}

#[test]
fn scenario_happy_path() {
    let now = 1_700_000_000i64;
    // Not scheduled for the future: processed immediately.
    assert_eq!(defer_decision(None, now), None);
    // First pickup passes the retry gate.
    let admitted = retry_gate(0).unwrap();
    assert_eq!(admitted, 1);
    // The execution is running, not paused.
    let execution = running_execution();
    assert_eq!(pause_gate(execution.status), None);
    // One pending recipient plans a send to its single address.
    let client = one_recipient();
    let plan = plan_batch(&execution, &vec![client.clone()], &vec![None], &Vec::new());
    let tasks = match plan {
        BatchPlan::Work { tasks } => tasks,
        other => panic!("expected work, got {:?}", other),
    };
    assert_eq!(tasks.len(), 1);
    let (emails, template_id) = match &tasks[0].plan {
        RecipientPlan::Send { emails, template_id } => (emails.clone(), template_id.clone()),
        other => panic!("expected send, got {:?}", other),
    };
    assert_eq!(emails, vec!["a@x.com".to_string()]);
    // The provider message substitutes the template.
    let template = EmailTemplate {
        id: "tpl-1".to_string(),
        subject: "Recordatorio".to_string(),
        content: "<p>Hola {{full_name}}</p>".to_string(),
    };
    let message = build_client_email(&template, &client, &emails, &Vec::new(), "exec-1", "APEX");
    assert_eq!(message.to, vec!["a@x.com".to_string()]);
    assert!(message.html_body.contains("Hola Ana"));
    // A delivered send records sent with its provider id and template.
    let write = write_for_send_result(
        &client,
        &template_id,
        &"2026-02-01T14:30:00Z".to_string(),
        &Ok("msg-1".to_string()),
    );
    assert_eq!(write.status, RecipientStatus::Sent);
    assert_eq!(write.custom_data.message_id, Some("msg-1".to_string()));
    assert_eq!(write.custom_data.template_id, Some(template_id));
    // The only batch completes, so the execution completes.
    assert_eq!(
        completion_decision(&vec![BatchStatus::Completed]),
        Some(ExecutionStatus::Completed)
    );
    // The message is deleted, and the audit trail reads as expected.
    let resolution = resolve_after_attempt(ProcessOutcome::Completed, admitted);
    assert!(resolution.delete_message);
    assert_eq!(resolution.dlq_reason, None);
    assert_eq!(
        vec![
            AuditEvent::PickedUp.as_str(),
            AuditEvent::Processing.as_str(),
            AuditEvent::Completed.as_str(),
        ],
        vec!["PICKED_UP", "PROCESSING", "COMPLETED"]
    );
}

#[test]
fn scenario_retry_exhaustion() {
    // Redelivered after three pickups: dead-lettered without processing.
    assert_eq!(retry_gate(3), None);
    assert_eq!(AuditEvent::DlqSent.as_str(), "DLQ_SENT");
}

#[test]
fn scenario_paused_execution() {
    // A paused execution extends visibility by the reservation and
    // nothing is processed or written.
    let mut execution = running_execution();
    execution.status = ExecutionStatus::Paused;
    assert_eq!(pause_gate(execution.status), Some(300));
}

#[test]
fn scenario_blacklisted_recipient() {
    // The recipient's only address is blacklisted in another case.
    let client = one_recipient();
    let mut client = client;
    client.custom_data.as_mut().unwrap().email = Some("A@X.COM".to_string());
    let plan = plan_recipient(
        &client,
        &Some("tpl-1".to_string()),
        &None,
        &vec!["a@x.com".to_string()],
    );
    assert!(matches!(plan, RecipientPlan::FailBlacklisted));
    let write = write_for_plan(&client.id, &plan).unwrap();
    assert_eq!(write.status, RecipientStatus::Failed);
    assert_eq!(write.custom_data.error_type, Some("blacklisted_emails".to_string()));
}

#[test]
fn scenario_scheduler_handoff() {
    // Two invocations race for the lease; only the winner arms the
    // timer, at the earliest pending time to the minute.
    let now = parse_rfc3339_epoch("2026-02-01T10:00:00Z").unwrap();
    let earliest = parse_rfc3339_epoch("2026-02-01T14:30:00Z").unwrap();
    let winner = wake_up_plan(true, Some(earliest), now);
    let loser = wake_up_plan(false, Some(earliest), now);
    assert_eq!(winner, Some(earliest));
    assert_eq!(loser, None);
    assert_eq!(wake_up_cron(earliest).unwrap(), "cron(30 14 1 2 ? 2026)");
}
