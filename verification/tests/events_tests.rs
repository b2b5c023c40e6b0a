use collection_email_worker::events::{counter_column, status_for_event_type};
use collection_email_worker::models::RecipientStatus;

#[test]
fn test_status_for_event_type_known() {
    assert_eq!(status_for_event_type("Bounce"), Some(RecipientStatus::Bounced));
    assert_eq!(status_for_event_type("Delivery"), Some(RecipientStatus::Delivered));
    assert_eq!(status_for_event_type("Open"), Some(RecipientStatus::Opened));
    assert_eq!(status_for_event_type("Reject"), Some(RecipientStatus::Failed));
    assert_eq!(status_for_event_type("Complaint"), Some(RecipientStatus::Complained));
}

#[test]
fn test_status_for_event_type_send_and_unknown() {
    assert_eq!(status_for_event_type("Send"), None);
    assert_eq!(status_for_event_type("Something"), None);
    assert_eq!(status_for_event_type("bounce"), None);
}

#[test]
fn test_counter_column_whitelist() {
    assert_eq!(counter_column("emails_sent"), Some("emails_sent".to_string()));
    assert_eq!(counter_column("emails_bounced"), Some("emails_bounced".to_string()));
    assert_eq!(counter_column("rows_dropped"), None);
}
