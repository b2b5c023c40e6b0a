use collection_email_worker::batch::{
    all_batches_completed, completion_decision, filter_blacklisted, is_blacklisted, plan_batch,
    plan_recipient, resolve_emails, resolve_template, write_for_plan, write_for_send_result,
    write_for_template_fetch_failure, BatchPlan, RecipientPlan,
};
use collection_email_worker::models::{
    BatchStatus, CollectionClient, CollectionExecution, CustomData, ExecutionStatus,
    RecipientStatus,
};

fn client_with_email(id: &str, email: Option<&str>, status: RecipientStatus) -> CollectionClient {
    let mut cd = CustomData::empty();
    cd.email = email.map(|e| e.to_string());
    cd.full_name = Some("Ana".to_string());
    CollectionClient {
        id: id.to_string(),
        execution_id: "exec-1".to_string(),
        status,
        invoices: None,
        custom_data: Some(cd),
        email_template_id: None,
        customer_id: None,
        threshold_id: None,
    }
}

fn execution(status: ExecutionStatus) -> CollectionExecution {
    CollectionExecution {
        id: "exec-1".to_string(),
        business_id: "biz-1".to_string(),
        status,
        email_template_id: Some("tpl-1".to_string()),
        execution_mode: "batch".to_string(),
        attachment_ids: None,
    }
}

#[test]
fn test_resolve_emails_prefers_custom_data() {
    let c = client_with_email("c1", Some("a@x.com"), RecipientStatus::Pending);
    assert_eq!(resolve_emails(&c, &Some("store@x.com".to_string())), vec!["a@x.com".to_string()]);
}

#[test]
fn test_resolve_emails_falls_back_to_store() {
    let c = client_with_email("c1", None, RecipientStatus::Pending);
    assert_eq!(resolve_emails(&c, &Some("store@x.com".to_string())), vec![
        "store@x.com".to_string(),
    ]);
    assert_eq!(resolve_emails(&c, &None), Vec::<String>::new());
}

#[test]
fn test_blacklist_is_case_insensitive() {
    let blacklist = vec!["a@x.com".to_string()];
    assert!(is_blacklisted(&"A@X.COM".to_string(), &blacklist));
    assert!(!is_blacklisted(&"b@y.com".to_string(), &blacklist));
}

#[test]
fn test_filter_blacklisted_keeps_order() {
    let blacklist = vec!["a@x.com".to_string()];
    let emails = vec!["A@X.COM".to_string(), "b@y.com".to_string(), "c@z.com".to_string()];
    assert_eq!(filter_blacklisted(&emails, &blacklist), vec![
        "b@y.com".to_string(),
        "c@z.com".to_string(),
    ]);
}

#[test]
fn test_resolve_template_override_beats_fallback() {
    assert_eq!(
        resolve_template(&Some("mine".to_string()), &Some("fallback".to_string())),
        Some("mine".to_string())
    );
    assert_eq!(
        resolve_template(&None, &Some("fallback".to_string())),
        Some("fallback".to_string())
    );
    assert_eq!(resolve_template(&None, &None), None);
}

#[test]
fn test_plan_recipient_blacklisted() {
    // The business blacklist holds the recipient's only address.
    let c = client_with_email("c1", Some("A@X.COM"), RecipientStatus::Pending);
    let plan = plan_recipient(
        &c,
        &Some("tpl-1".to_string()),
        &None,
        &vec!["a@x.com".to_string()],
    );
    assert!(matches!(plan, RecipientPlan::FailBlacklisted));
    let w = write_for_plan(&c.id, &plan).unwrap();
    assert_eq!(w.status, RecipientStatus::Failed);
    assert_eq!(w.custom_data.error_type, Some("blacklisted_emails".to_string()));
    assert_eq!(w.custom_data.error, Some("All emails are blacklisted".to_string()));
}

#[test]
fn test_plan_recipient_no_emails() {
    let c = client_with_email("c1", None, RecipientStatus::Pending);
    let plan = plan_recipient(&c, &Some("tpl-1".to_string()), &None, &Vec::new());
    assert!(matches!(plan, RecipientPlan::FailNoEmails));
}

#[test]
fn test_plan_recipient_missing_template() {
    let c = client_with_email("c1", Some("a@x.com"), RecipientStatus::Pending);
    let plan = plan_recipient(&c, &None, &None, &Vec::new());
    assert!(matches!(plan, RecipientPlan::FailMissingTemplate));
    let w = write_for_plan(&c.id, &plan).unwrap();
    assert_eq!(w.custom_data.error_type, Some("missing_template".to_string()));
}

#[test]
fn test_plan_recipient_send() {
    let c = client_with_email("c1", Some("a@x.com"), RecipientStatus::Pending);
    let plan = plan_recipient(&c, &Some("tpl-1".to_string()), &None, &Vec::new());
    match plan {
        RecipientPlan::Send { emails, template_id } => {
            assert_eq!(emails, vec!["a@x.com".to_string()]);
            assert_eq!(template_id, "tpl-1");
        }
        other => panic!("expected a send plan, got {:?}", other),
    }
}

#[test]
fn test_plan_recipient_skips_terminal() {
    let c = client_with_email("c1", Some("a@x.com"), RecipientStatus::Sent);
    let plan = plan_recipient(&c, &Some("tpl-1".to_string()), &None, &Vec::new());
    assert!(matches!(plan, RecipientPlan::Skip));
    assert!(write_for_plan(&c.id, &plan).is_none());
}

#[test]
fn test_plan_batch_terminal_execution_skips() {
    // Re-delivering a batch whose execution completed exits early.
    let plan = plan_batch(
        &execution(ExecutionStatus::Completed),
        &Vec::new(),
        &Vec::new(),
        &Vec::new(),
    );
    assert!(matches!(plan, BatchPlan::SkippedTerminal));
}

#[test]
fn test_plan_batch_empty_clients_completes() {
    // No recipients: no sends; the batch is still marked completed.
    let plan = plan_batch(
        &execution(ExecutionStatus::Running),
        &Vec::new(),
        &Vec::new(),
        &Vec::new(),
    );
    match plan {
        BatchPlan::Work { tasks } => assert!(tasks.is_empty()),
        other => panic!("expected work, got {:?}", other),
    }
}

#[test]
fn test_plan_batch_redelivered_completed_batch_writes_nothing() {
    // Every recipient is terminal already: only skips, zero writes.
    let clients = vec![
        client_with_email("c1", Some("a@x.com"), RecipientStatus::Sent),
        client_with_email("c2", Some("b@y.com"), RecipientStatus::Failed),
    ];
    let plan = plan_batch(
        &execution(ExecutionStatus::Running),
        &clients,
        &vec![None, None],
        &Vec::new(),
    );
    match plan {
        BatchPlan::Work { tasks } => {
            assert_eq!(tasks.len(), 2);
            for task in &tasks {
                assert!(matches!(task.plan, RecipientPlan::Skip));
                assert!(write_for_plan(&task.client_id, &task.plan).is_none());
            }
        }
        other => panic!("expected work, got {:?}", other),
    }
}

#[test]
fn test_write_for_send_result_sent() {
    let c = client_with_email("c1", Some("a@x.com"), RecipientStatus::Pending);
    let w = write_for_send_result(
        &c,
        &"tpl-1".to_string(),
        &"2026-02-01T14:30:00Z".to_string(),
        &Ok("msg-9".to_string()),
    );
    assert_eq!(w.status, RecipientStatus::Sent);
    assert_eq!(w.custom_data.message_id, Some("msg-9".to_string()));
    assert_eq!(w.custom_data.email_sent_at, Some("2026-02-01T14:30:00Z".to_string()));
    assert_eq!(w.custom_data.template_id, Some("tpl-1".to_string()));
    assert_eq!(w.custom_data.email, Some("a@x.com".to_string()));
}

#[test]
fn test_write_for_send_result_failed_keeps_template() {
    // A terminal status from the send path always records the template.
    let c = client_with_email("c1", Some("a@x.com"), RecipientStatus::Pending);
    let w = write_for_send_result(
        &c,
        &"tpl-1".to_string(),
        &"2026-02-01T14:30:00Z".to_string(),
        &Err("provider refused".to_string()),
    );
    assert_eq!(w.status, RecipientStatus::Failed);
    assert_eq!(w.custom_data.error, Some("provider refused".to_string()));
    assert_eq!(w.custom_data.template_id, Some("tpl-1".to_string()));
    assert_eq!(w.custom_data.message_id, None);
}

#[test]
fn test_write_for_template_fetch_failure() {
    let w = write_for_template_fetch_failure(
        &"c1".to_string(),
        &"tpl-1".to_string(),
        &"404".to_string(),
    );
    assert_eq!(w.status, RecipientStatus::Failed);
    assert_eq!(w.custom_data.error, Some("Failed to fetch template: 404".to_string()));
    assert_eq!(w.custom_data.error_type, Some("template_fetch_failed".to_string()));
    assert_eq!(w.custom_data.template_id, Some("tpl-1".to_string()));
}

#[test]
fn test_completion_requires_every_batch() {
    assert!(all_batches_completed(&vec![BatchStatus::Completed, BatchStatus::Completed]));
    assert!(!all_batches_completed(&vec![BatchStatus::Completed, BatchStatus::Pending]));
    assert!(!all_batches_completed(&vec![BatchStatus::Completed, BatchStatus::Dlq]));
    assert_eq!(
        completion_decision(&vec![BatchStatus::Completed]),
        Some(ExecutionStatus::Completed)
    );
    assert_eq!(completion_decision(&vec![BatchStatus::Completed, BatchStatus::Dlq]), None);
}
