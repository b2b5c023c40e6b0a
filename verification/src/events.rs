//! The delivery-notification path: the provider event shapes and the
//! reconciliation of recipient state they drive.

use vstd::prelude::*;
use crate::models::RecipientStatus;

verus! {

/// A batch of provider notifications as the notification service
/// delivers them.
#[derive(Clone, Debug)]
pub struct SnsEvent {
    pub records: Vec<SnsRecord>,
}

/// One notification record.
#[derive(Clone, Debug)]
pub struct SnsRecord {
    pub sns: SnsMessage,
}

/// The notification envelope; `message` carries the provider event as
/// JSON text.
#[derive(Clone, Debug)]
pub struct SnsMessage {
    pub message: String,
    pub message_attributes: Vec<(String, SnsMessageAttribute)>,
}

/// One attribute of a notification envelope.
#[derive(Clone, Debug)]
pub struct SnsMessageAttribute {
    pub value: String,
    pub type_: String,
}

/// A provider delivery event.
#[derive(Clone, Debug)]
pub struct SesEvent {
    pub notification_type: String,
    pub mail: SesMail,
    pub bounce: Option<SesBounce>,
    pub complaint: Option<SesComplaint>,
    pub delivery: Option<SesDelivery>,
    pub open: Option<SesOpen>,
}

/// The message the event concerns.
#[derive(Clone, Debug)]
pub struct SesMail {
    pub message_id: String,
    pub destination: Vec<String>,
    pub sending_account_id: Option<String>,
    pub timestamp: Option<String>,
}

/// Details of a bounce event.
#[derive(Clone, Debug)]
pub struct SesBounce {
    pub bounce_type: String,
    pub bounce_sub_type: String,
    pub bounced_recipients: Vec<SesRecipient>,
    pub timestamp: Option<String>,
}

/// Details of a complaint event.
#[derive(Clone, Debug)]
pub struct SesComplaint {
    pub complaint_feedback_type: Option<String>,
    pub complained_recipients: Vec<SesRecipient>,
    pub timestamp: Option<String>,
}

/// Details of a delivery event.
#[derive(Clone, Debug)]
pub struct SesDelivery {
    pub timestamp: Option<String>,
    pub recipients: Vec<String>,
    pub smtp_response: Option<String>,
    pub reporting_mta: Option<String>,
}

/// Details of an open event.
#[derive(Clone, Debug)]
pub struct SesOpen {
    pub ip_address: Option<String>,
    pub timestamp: Option<String>,
    pub user_agent: Option<String>,
}

/// One recipient named in a bounce or complaint.
#[derive(Clone, Debug)]
pub struct SesRecipient {
    pub email_address: String,
    pub status: Option<String>,
    pub diagnostic_code: Option<String>,
}

/// The recipient status a provider event type reconciles to, if any: a
/// bounce marks the recipient bounced, a delivery delivered, an open
/// opened, a rejection failed, a complaint complained; a send
/// confirmation and any unrecognised type change nothing.
pub open spec fn spec_status_for_event_type(t: Seq<char>) -> Option<RecipientStatus> {
    if t == "Bounce"@ {
        Some(RecipientStatus::Bounced)
    } else if t == "Delivery"@ {
        Some(RecipientStatus::Delivered)
    } else if t == "Open"@ {
        Some(RecipientStatus::Opened)
    } else if t == "Reject"@ {
        Some(RecipientStatus::Failed)
    } else if t == "Complaint"@ {
        Some(RecipientStatus::Complained)
    } else {
        None
    }
}

/// Decide the recipient-status update owed to one provider event type.
pub fn status_for_event_type(event_type: &str) -> (r: Option<RecipientStatus>)
    ensures
        r == spec_status_for_event_type(event_type@),
{
    let t = event_type.to_owned();
    if t == "Bounce".to_owned() {
        Some(RecipientStatus::Bounced)
    } else if t == "Delivery".to_owned() {
        Some(RecipientStatus::Delivered)
    } else if t == "Open".to_owned() {
        Some(RecipientStatus::Opened)
    } else if t == "Reject".to_owned() {
        Some(RecipientStatus::Failed)
    } else if t == "Complaint".to_owned() {
        Some(RecipientStatus::Complained)
    } else {
        None
    }
}

/// The execution counter column an event type increments, if any.
pub open spec fn spec_counter_column(t: Seq<char>) -> Option<Seq<char>> {
    if t == "emails_sent"@ || t == "emails_delivered"@ || t == "emails_opened"@ || t
        == "emails_bounced"@ || t == "emails_failed"@ {
        Some(t)
    } else {
        None
    }
}

/// Admit only the known execution counter columns.
pub fn counter_column(counter_type: &str) -> (r: Option<String>)
    ensures
        r matches Some(c) ==> c@ == counter_type@ && spec_counter_column(counter_type@) == Some(
            counter_type@,
        ),
        r is None ==> spec_counter_column(counter_type@) is None,
{
    let t = counter_type.to_owned();
    if t == "emails_sent".to_owned() || t == "emails_delivered".to_owned() || t
        == "emails_opened".to_owned() || t == "emails_bounced".to_owned() || t
        == "emails_failed".to_owned() {
        Some(t)
    } else {
        None
    }
}

} // verus!
