use collection_email_worker::models::{
    template_content, BatchStatus, CollectionClient, CustomData, ExecutionStatus, RecipientStatus,
};

#[test]
fn test_status_wire_strings() {
    assert_eq!(ExecutionStatus::Completed.as_str(), "completed");
    assert_eq!(ExecutionStatus::Paused.as_str(), "paused");
    assert_eq!(BatchStatus::Dlq.as_str(), "dlq");
    assert_eq!(RecipientStatus::Sent.as_str(), "sent");
    assert_eq!(RecipientStatus::Complained.as_str(), "complained");
}

#[test]
fn test_execution_status_terminal() {
    assert!(ExecutionStatus::Completed.is_terminal());
    assert!(ExecutionStatus::Failed.is_terminal());
    assert!(!ExecutionStatus::Running.is_terminal());
    assert!(!ExecutionStatus::Paused.is_terminal());
}

#[test]
fn test_client_getters() {
    let mut cd = CustomData::empty();
    cd.email = Some("a@x.com".to_string());
    cd.total_amount_due = Some(42);
    let c = CollectionClient {
        id: "c1".to_string(),
        execution_id: "e1".to_string(),
        status: RecipientStatus::Pending,
        invoices: None,
        custom_data: Some(cd),
        email_template_id: None,
        customer_id: None,
        threshold_id: None,
    };
    assert_eq!(c.email().map(|s| s.as_str()), Some("a@x.com"));
    assert_eq!(c.full_name(), None);
    assert_eq!(c.amount_due(), 42);
}

#[test]
fn test_client_amount_defaults_to_zero() {
    let c = CollectionClient {
        id: "c1".to_string(),
        execution_id: "e1".to_string(),
        status: RecipientStatus::Pending,
        invoices: None,
        custom_data: None,
        email_template_id: None,
        customer_id: None,
        threshold_id: None,
    };
    assert_eq!(c.amount_due(), 0);
    assert!(c.email().is_none());
}

#[test]
fn test_template_content_prefers_html() {
    assert_eq!(
        template_content(Some("<p>h</p>".to_string()), Some("plain".to_string())),
        "<p>h</p>"
    );
    assert_eq!(template_content(None, Some("plain".to_string())), "plain");
    assert_eq!(template_content(None, None), "");
}

#[test]
fn test_custom_data_duplicate_preserves_fields() {
    let mut cd = CustomData::empty();
    cd.email = Some("a@x.com".to_string());
    cd.extra.push(("k".to_string(), "v".to_string()));
    let copy = cd.duplicate();
    assert_eq!(copy.email, Some("a@x.com".to_string()));
    assert_eq!(copy.extra, vec![("k".to_string(), "v".to_string())]);
    assert_eq!(copy.message_id, None);
}
