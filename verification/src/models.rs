//! Data model of the dispatch core: executions, batches, recipients,
//! templates, attachments and the queue-event shapes, held as plain values.

use vstd::prelude::*;

verus! {

/// Lifecycle of a dispatch campaign.
#[derive(Clone, Copy, Debug, PartialEq, Eq, Structural)]
pub enum ExecutionStatus {
    Pending,
    Running,
    Paused,
    Completed,
    Failed,
}

impl ExecutionStatus {
    /// Wire encoding of the status, as the store records it.
    pub fn as_str(&self) -> (r: &'static str)
        ensures
            r@ == self.spec_str(),
    {
        match self {
            ExecutionStatus::Pending => "pending",
            ExecutionStatus::Running => "running",
            ExecutionStatus::Paused => "paused",
            ExecutionStatus::Completed => "completed",
            ExecutionStatus::Failed => "failed",
        }
    }

    pub open spec fn spec_str(self) -> Seq<char> {
        match self {
            ExecutionStatus::Pending => "pending"@,
            ExecutionStatus::Running => "running"@,
            ExecutionStatus::Paused => "paused"@,
            ExecutionStatus::Completed => "completed"@,
            ExecutionStatus::Failed => "failed"@,
        }
    }

    /// A terminal execution accepts no further dispatch work.
    pub open spec fn spec_is_terminal(self) -> bool {
        self == ExecutionStatus::Completed || self == ExecutionStatus::Failed
    }

    pub fn is_terminal(&self) -> (r: bool)
        ensures
            r == self.spec_is_terminal(),
    {
        match self {
            ExecutionStatus::Completed => true,
            ExecutionStatus::Failed => true,
            _ => false,
        }
    }
}

/// Lifecycle of one queued batch of recipients.
#[derive(Clone, Copy, Debug, PartialEq, Eq, Structural)]
pub enum BatchStatus {
    Pending,
    Completed,
    Dlq,
}

impl BatchStatus {
    pub fn as_str(&self) -> (r: &'static str)
        ensures
            r@ == self.spec_str(),
    {
        match self {
            BatchStatus::Pending => "pending",
            BatchStatus::Completed => "completed",
            BatchStatus::Dlq => "dlq",
        }
    }

    pub open spec fn spec_str(self) -> Seq<char> {
        match self {
            BatchStatus::Pending => "pending"@,
            BatchStatus::Completed => "completed"@,
            BatchStatus::Dlq => "dlq"@,
        }
    }
}

/// Lifecycle of one email target.
#[derive(Clone, Copy, Debug, PartialEq, Eq, Structural)]
pub enum RecipientStatus {
    Pending,
    Sent,
    Failed,
    Delivered,
    Opened,
    Bounced,
    Complained,
}

impl RecipientStatus {
    pub fn as_str(&self) -> (r: &'static str)
        ensures
            r@ == self.spec_str(),
    {
        match self {
            RecipientStatus::Pending => "pending",
            RecipientStatus::Sent => "sent",
            RecipientStatus::Failed => "failed",
            RecipientStatus::Delivered => "delivered",
            RecipientStatus::Opened => "opened",
            RecipientStatus::Bounced => "bounced",
            RecipientStatus::Complained => "complained",
        }
    }

    pub open spec fn spec_str(self) -> Seq<char> {
        match self {
            RecipientStatus::Pending => "pending"@,
            RecipientStatus::Sent => "sent"@,
            RecipientStatus::Failed => "failed"@,
            RecipientStatus::Delivered => "delivered"@,
            RecipientStatus::Opened => "opened"@,
            RecipientStatus::Bounced => "bounced"@,
            RecipientStatus::Complained => "complained"@,
        }
    }
}

/// One invoice attached to a recipient's rendering data.
/// `amount_due` is in major currency units; `fields` keeps any further
/// free-form entries for substitution.
#[derive(Clone, Debug)]
pub struct Invoice {
    pub amount_due: Option<i64>,
    pub fields: Vec<(String, String)>,
}

/// The free-form per-recipient mapping, with the entries the dispatch
/// core reads and writes held as typed fields.  `extra` keeps any other
/// entries for template substitution.
#[derive(Clone, Debug)]
pub struct CustomData {
    pub email: Option<String>,
    pub full_name: Option<String>,
    pub total_amount_due: Option<i64>,
    pub message_id: Option<String>,
    pub email_sent_at: Option<String>,
    pub error: Option<String>,
    pub error_type: Option<String>,
    pub template_id: Option<String>,
    pub threshold_id: Option<String>,
    pub extra: Vec<(String, String)>,
}

fn dup_opt_string(o: &Option<String>) -> (r: Option<String>)
    ensures
        r == *o,
{
    match o {
        Some(s) => Some(s.clone()),
        None => None,
    }
}

fn dup_opt_i64(o: &Option<i64>) -> (r: Option<i64>)
    ensures
        r == *o,
{
    match o {
        Some(v) => Some(*v),
        None => None,
    }
}

fn dup_pairs(v: &Vec<(String, String)>) -> (r: Vec<(String, String)>)
    ensures
        r@ == v@,
{
    let mut r: Vec<(String, String)> = Vec::new();
    let mut i: usize = 0;
    while i < v.len()
        invariant
            i <= v@.len(),
            r@ == v@.take(i as int),
        decreases v.len() - i,
    {
        r.push((v[i].0.clone(), v[i].1.clone()));
        proof {
            assert(r@ =~= v@.take(i + 1));
        }
        i += 1;
    }
    proof {
        assert(v@.take(v@.len() as int) =~= v@);
    }
    r
}

impl CustomData {
    /// A field-for-field copy of the mapping.
    pub fn duplicate(&self) -> (r: CustomData)
        ensures
            r.email == self.email,
            r.full_name == self.full_name,
            r.total_amount_due == self.total_amount_due,
            r.message_id == self.message_id,
            r.email_sent_at == self.email_sent_at,
            r.error == self.error,
            r.error_type == self.error_type,
            r.template_id == self.template_id,
            r.threshold_id == self.threshold_id,
            r.extra@ == self.extra@,
    {
        CustomData {
            email: dup_opt_string(&self.email),
            full_name: dup_opt_string(&self.full_name),
            total_amount_due: dup_opt_i64(&self.total_amount_due),
            message_id: dup_opt_string(&self.message_id),
            email_sent_at: dup_opt_string(&self.email_sent_at),
            error: dup_opt_string(&self.error),
            error_type: dup_opt_string(&self.error_type),
            template_id: dup_opt_string(&self.template_id),
            threshold_id: dup_opt_string(&self.threshold_id),
            extra: dup_pairs(&self.extra),
        }
    }

    /// A mapping with no entries at all.
    pub fn empty() -> (r: CustomData)
        ensures
            r.email is None,
            r.full_name is None,
            r.total_amount_due is None,
            r.message_id is None,
            r.email_sent_at is None,
            r.error is None,
            r.error_type is None,
            r.template_id is None,
            r.threshold_id is None,
            r.extra@.len() == 0,
    {
        CustomData {
            email: None,
            full_name: None,
            total_amount_due: None,
            message_id: None,
            email_sent_at: None,
            error: None,
            error_type: None,
            template_id: None,
            threshold_id: None,
            extra: Vec::new(),
        }
    }
}

/// A dispatch campaign.
#[derive(Clone, Debug)]
pub struct CollectionExecution {
    pub id: String,
    pub business_id: String,
    pub status: ExecutionStatus,
    pub email_template_id: Option<String>,
    pub execution_mode: String,
    pub attachment_ids: Option<Vec<String>>,
}

/// A file attached to every email of an execution, with its bytes
/// already fetched.
#[derive(Clone, Debug)]
pub struct Attachment {
    pub id: String,
    pub name: String,
    pub storage_path: String,
    pub storage_bucket: String,
    pub file_type: Option<String>,
    pub data: Vec<u8>,
}

/// One email target of an execution.
#[derive(Clone, Debug)]
pub struct CollectionClient {
    pub id: String,
    pub execution_id: String,
    pub status: RecipientStatus,
    pub invoices: Option<Vec<Invoice>>,
    pub custom_data: Option<CustomData>,
    pub email_template_id: Option<String>,
    pub customer_id: Option<String>,
    pub threshold_id: Option<String>,
}

impl CollectionClient {
    /// The recipient's address from its free-form data, when present.
    pub fn email(&self) -> (r: Option<&String>)
        ensures
            r matches Some(e) ==> self.custom_data matches Some(cd) && cd.email == Some(*e),
            r is None ==> (self.custom_data matches Some(cd) ==> cd.email is None) || self.custom_data is None,
    {
        match &self.custom_data {
            Some(cd) => cd.email.as_ref(),
            None => None,
        }
    }

    /// The recipient's display name from its free-form data, when present.
    pub fn full_name(&self) -> (r: Option<&String>)
        ensures
            r matches Some(n) ==> self.custom_data matches Some(cd) && cd.full_name == Some(*n),
            r is None ==> (self.custom_data matches Some(cd) ==> cd.full_name is None) || self.custom_data is None,
    {
        match &self.custom_data {
            Some(cd) => cd.full_name.as_ref(),
            None => None,
        }
    }

    /// The total amount due in major units; zero when absent.
    pub fn amount_due(&self) -> (r: i64)
        ensures
            r == self.spec_amount_due(),
    {
        match &self.custom_data {
            Some(cd) => match cd.total_amount_due {
                Some(v) => v,
                None => 0,
            },
            None => 0,
        }
    }

    pub open spec fn spec_amount_due(self) -> i64 {
        match self.custom_data {
            Some(cd) => match cd.total_amount_due {
                Some(v) => v,
                None => 0,
            },
            None => 0,
        }
    }
}

/// A stored email template.
#[derive(Clone, Debug)]
pub struct EmailTemplate {
    pub id: String,
    pub subject: String,
    pub content: String,
}

/// The content a template resolves to: its HTML body when present,
/// else its plain-text body, else empty.
pub fn template_content(html: Option<String>, plain: Option<String>) -> (r: String)
    ensures
        html matches Some(h) ==> r == h,
        (html is None && plain is Some) ==> r == plain->0,
        (html is None && plain is None) ==> r@ == Seq::<char>::empty(),
{
    match html {
        Some(h) => h,
        None => match plain {
            Some(p) => p,
            None => String::new(),
        },
    }
}

/// The direct-invocation event shape.
#[derive(Clone, Debug)]
pub struct LambdaEvent {
    pub execution_id: String,
}

/// One delivered queue message.
#[derive(Clone, Debug)]
pub struct SqsMessage {
    pub message_id: Option<String>,
    pub receipt_handle: Option<String>,
    pub body: Option<String>,
}

/// A set of delivered queue messages.
#[derive(Clone, Debug)]
pub struct SqsEvent {
    pub records: Vec<SqsMessage>,
}

/// The decoded body of one batch queue message.
#[derive(Clone, Debug)]
pub struct BatchMessage {
    pub batch_id: String,
    pub execution_id: String,
    pub business_id: String,
    pub batch_number: i32,
    pub client_ids: Vec<String>,
    pub total_clients: i32,
    pub scheduled_for: Option<String>,
}

/// Everything a provider needs to send one email.
#[derive(Clone, Debug)]
pub struct EmailMessage {
    pub to: Vec<String>,
    pub subject: String,
    pub html_body: String,
    pub text_body: String,
    pub from: String,
    pub attachments: Vec<Attachment>,
    pub client_id: Option<String>,
    pub execution_id: Option<String>,
    pub message_id: Option<String>,
}

/// What a provider reports back after a send.
#[derive(Clone, Debug)]
pub struct SendResult {
    pub message_id: String,
    pub provider: String,
    pub metadata: Option<String>,
}

} // verus!
