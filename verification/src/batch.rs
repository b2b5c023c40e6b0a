//! Per-batch processing decisions: which recipients are worked on, how
//! addresses are resolved and blacklist-filtered, which template
//! applies, what is written back for every outcome, and when an
//! execution completes.

use vstd::prelude::*;
use crate::models::{
    BatchStatus, CollectionClient, CollectionExecution, CustomData, ExecutionStatus,
    RecipientStatus,
};
use crate::text::{lower_of, lowercase};

verus! {

/// What the processor decides to do with one recipient.
#[derive(Clone, Debug)]
pub enum RecipientPlan {
    /// The recipient is not pending; an idempotent re-pickup touches it
    /// no further.
    Skip,
    /// No address could be resolved.
    FailNoEmails,
    /// Every resolved address is blacklisted.
    FailBlacklisted,
    /// Neither the recipient nor the execution names a template.
    FailMissingTemplate,
    /// Render and send to these addresses with this template.
    Send { emails: Vec<String>, template_id: String },
}

/// One recipient of a batch together with its plan.
#[derive(Clone, Debug)]
pub struct RecipientTask {
    pub client_id: String,
    pub plan: RecipientPlan,
}

/// The processor's decision for a whole batch.
#[derive(Clone, Debug)]
pub enum BatchPlan {
    /// The execution is already terminal; nothing is touched and the
    /// queue message is left alone.
    SkippedTerminal,
    /// Work the tasks in order, then mark the batch completed and fire
    /// the execution-completion check.
    Work { tasks: Vec<RecipientTask> },
}

/// A status update owed to the store for one recipient.
#[derive(Clone, Debug)]
pub struct RecipientWrite {
    pub client_id: String,
    pub status: RecipientStatus,
    pub custom_data: CustomData,
}

/// The addresses a recipient resolves to: its own free-form address
/// when present, else the address looked up in the customers table.
pub open spec fn spec_resolved_emails(
    client: CollectionClient,
    store_email: Option<String>,
) -> Seq<String> {
    match client.custom_data {
        Some(cd) => match cd.email {
            Some(e) => seq![e],
            None => match store_email {
                Some(s) => seq![s],
                None => Seq::empty(),
            },
        },
        None => match store_email {
            Some(s) => seq![s],
            None => Seq::empty(),
        },
    }
}

pub fn resolve_emails(client: &CollectionClient, store_email: &Option<String>) -> (r: Vec<String>)
    ensures
        r@ == spec_resolved_emails(*client, *store_email),
{
    let mut r: Vec<String> = Vec::new();
    match &client.custom_data {
        Some(cd) => match &cd.email {
            Some(e) => {
                r.push(e.clone());
            }
            None => {
                match store_email {
                    Some(s) => {
                        r.push(s.clone());
                    }
                    None => {}
                }
            }
        },
        None => {
            match store_email {
                Some(s) => {
                    r.push(s.clone());
                }
                None => {}
            }
        }
    }
    assert(r@ =~= spec_resolved_emails(*client, *store_email));
    r
}

/// Whether an address matches the blacklist, case-insensitively.
pub open spec fn spec_blacklisted(e: String, blacklist: Seq<String>) -> bool {
    exists|j: int| 0 <= j < blacklist.len() && lower_of(e@) == lower_of(blacklist[j]@)
}

pub fn is_blacklisted(e: &String, blacklist: &Vec<String>) -> (r: bool)
    ensures
        r == spec_blacklisted(*e, blacklist@),
{
    let folded = lowercase(e.as_str());
    let mut j: usize = 0;
    while j < blacklist.len()
        invariant
            j <= blacklist.len(),
            folded@ == lower_of(e@),
            forall|k: int| 0 <= k < j ==> lower_of(e@) != lower_of(blacklist@[k]@),
        decreases blacklist.len() - j,
    {
        let entry = lowercase(blacklist[j].as_str());
        if folded == entry {
            return true;
        }
        j += 1;
    }
    false
}

/// The addresses that survive the blacklist filter, in order.
pub open spec fn spec_filtered(emails: Seq<String>, blacklist: Seq<String>) -> Seq<String>
    decreases emails.len(),
{
    if emails.len() == 0 {
        Seq::empty()
    } else {
        spec_filtered(emails.drop_last(), blacklist) + if spec_blacklisted(
            emails.last(),
            blacklist,
        ) {
            Seq::<String>::empty()
        } else {
            seq![emails.last()]
        }
    }
}

/// Remove blacklisted addresses, keeping the rest in order.
pub fn filter_blacklisted(emails: &Vec<String>, blacklist: &Vec<String>) -> (r: Vec<String>)
    ensures
        r@ == spec_filtered(emails@, blacklist@),
{
    let mut r: Vec<String> = Vec::new();
    let mut i: usize = 0;
    while i < emails.len()
        invariant
            i <= emails.len(),
            r@ == spec_filtered(emails@.take(i as int), blacklist@),
        decreases emails.len() - i,
    {
        let keep = !is_blacklisted(&emails[i], blacklist);
        proof {
            assert(emails@.take(i + 1).drop_last() =~= emails@.take(i as int));
            assert(emails@.take(i + 1).last() == emails@[i as int]);
        }
        if keep {
            r.push(emails[i].clone());
        }
        proof {
            assert(r@ =~= spec_filtered(emails@.take(i + 1), blacklist@));
        }
        i += 1;
    }
    proof {
        assert(emails@.take(emails@.len() as int) =~= emails@);
    }
    r
}

/// Blacklist law: no address that survives the filter matches the
/// blacklist, case-insensitively — so no sent message carries a
/// blacklisted address, since the send plan draws its addresses from
/// the filtered sequence alone.
pub proof fn lemma_filtered_not_blacklisted(emails: Seq<String>, blacklist: Seq<String>)
    ensures
        forall|k: int|
            0 <= k < spec_filtered(emails, blacklist).len() ==> !spec_blacklisted(
                #[trigger] spec_filtered(emails, blacklist)[k],
                blacklist,
            ),
    decreases emails.len(),
{
    if emails.len() > 0 {
        lemma_filtered_not_blacklisted(emails.drop_last(), blacklist);
        let f = spec_filtered(emails, blacklist);
        let fd = spec_filtered(emails.drop_last(), blacklist);
        assert forall|k: int| 0 <= k < f.len() implies !spec_blacklisted(f[k], blacklist) by {
            if k < fd.len() {
                assert(f[k] == fd[k]);
            } else {
                assert(f[k] == emails.last());
            }
        }
    }
}

/// Which template applies: the recipient's own override beats the
/// execution's fallback.
pub open spec fn spec_resolve_template(
    client_template: Option<String>,
    exec_template: Option<String>,
) -> Option<String> {
    if client_template is Some {
        client_template
    } else {
        exec_template
    }
}

pub fn resolve_template(client_template: &Option<String>, exec_template: &Option<String>) -> (r:
    Option<String>)
    ensures
        r == spec_resolve_template(*client_template, *exec_template),
{
    match client_template {
        Some(t) => Some(t.clone()),
        None => match exec_template {
            Some(t) => Some(t.clone()),
            None => None,
        },
    }
}

/// What the plan for one recipient must be, as a predicate over the
/// recipient, the execution's fallback template, the store-resolved
/// address, and the blacklist.
pub open spec fn plan_matches(
    client: CollectionClient,
    exec_template: Option<String>,
    store_email: Option<String>,
    blacklist: Seq<String>,
    plan: RecipientPlan,
) -> bool {
    if client.status != RecipientStatus::Pending {
        plan == RecipientPlan::Skip
    } else {
        let emails = spec_resolved_emails(client, store_email);
        if emails.len() == 0 {
            plan == RecipientPlan::FailNoEmails
        } else {
            let kept = spec_filtered(emails, blacklist);
            if kept.len() == 0 {
                plan == RecipientPlan::FailBlacklisted
            } else {
                match spec_resolve_template(client.email_template_id, exec_template) {
                    Some(t) => match plan {
                        RecipientPlan::Send { emails: es, template_id: tid } => es@ == kept && tid
                            == t,
                        _ => false,
                    },
                    None => plan == RecipientPlan::FailMissingTemplate,
                }
            }
        }
    }
}

/// Decide what to do with one recipient.
pub fn plan_recipient(
    client: &CollectionClient,
    exec_template: &Option<String>,
    store_email: &Option<String>,
    blacklist: &Vec<String>,
) -> (r: RecipientPlan)
    ensures
        plan_matches(*client, *exec_template, *store_email, blacklist@, r),
{
    if client.status != RecipientStatus::Pending {
        return RecipientPlan::Skip;
    }
    let emails = resolve_emails(client, store_email);
    if emails.len() == 0 {
        return RecipientPlan::FailNoEmails;
    }
    let kept = filter_blacklisted(&emails, blacklist);
    if kept.len() == 0 {
        return RecipientPlan::FailBlacklisted;
    }
    match resolve_template(&client.email_template_id, exec_template) {
        Some(t) => RecipientPlan::Send { emails: kept, template_id: t },
        None => RecipientPlan::FailMissingTemplate,
    }
}

/// Decide a whole batch: skip it when the execution is terminal, else
/// plan every recipient in order.  A `Work` plan always concludes by
/// marking the batch completed and firing the completion check, whether
/// or not it has any tasks.
pub fn plan_batch(
    execution: &CollectionExecution,
    clients: &Vec<CollectionClient>,
    store_emails: &Vec<Option<String>>,
    blacklist: &Vec<String>,
) -> (r: BatchPlan)
    requires
        store_emails@.len() == clients@.len(),
    ensures
        execution.status.spec_is_terminal() ==> r == BatchPlan::SkippedTerminal,
        !execution.status.spec_is_terminal() ==> (r matches BatchPlan::Work { tasks } && {
            &&& tasks@.len() == clients@.len()
            &&& forall|i: int|
                0 <= i < clients@.len() ==> (#[trigger] tasks@[i]).client_id@ == clients@[i].id@
                    && plan_matches(
                    clients@[i],
                    execution.email_template_id,
                    store_emails@[i],
                    blacklist@,
                    tasks@[i].plan,
                )
        }),
{
    if execution.status.is_terminal() {
        return BatchPlan::SkippedTerminal;
    }
    let mut tasks: Vec<RecipientTask> = Vec::new();
    let mut i: usize = 0;
    while i < clients.len()
        invariant
            i <= clients@.len(),
            store_emails@.len() == clients@.len(),
            tasks@.len() == i,
            forall|k: int|
                0 <= k < i ==> (#[trigger] tasks@[k]).client_id@ == clients@[k].id@
                    && plan_matches(
                    clients@[k],
                    execution.email_template_id,
                    store_emails@[k],
                    blacklist@,
                    tasks@[k].plan,
                ),
        decreases clients.len() - i,
    {
        let plan = plan_recipient(
            &clients[i],
            &execution.email_template_id,
            &store_emails[i],
            blacklist,
        );
        tasks.push(RecipientTask { client_id: clients[i].id.clone(), plan });
        i += 1;
    }
    BatchPlan::Work { tasks }
}

/// Idempotence law: a batch whose recipients are all already terminal
/// (as after a completed batch is redelivered) plans only skips, so a
/// redelivery writes nothing and merely re-marks the batch completed.
pub proof fn lemma_redelivered_batch_writes_nothing(
    clients: Seq<CollectionClient>,
    exec_template: Option<String>,
    store_emails: Seq<Option<String>>,
    blacklist: Seq<String>,
    plans: Seq<RecipientPlan>,
)
    requires
        plans.len() == clients.len(),
        store_emails.len() == clients.len(),
        forall|i: int| 0 <= i < clients.len() ==> (#[trigger] clients[i]).status
            != RecipientStatus::Pending,
        forall|i: int|
            0 <= i < clients.len() ==> plan_matches(
                #[trigger] clients[i],
                exec_template,
                store_emails[i],
                blacklist,
                plans[i],
            ),
    ensures
        forall|i: int| 0 <= i < plans.len() ==> #[trigger] plans[i] == RecipientPlan::Skip,
{
    assert forall|i: int| 0 <= i < plans.len() implies #[trigger] plans[i]
        == RecipientPlan::Skip by {
        assert(plan_matches(clients[i], exec_template, store_emails[i], blacklist, plans[i]));
        assert(clients[i].status != RecipientStatus::Pending);
    }
}

/// The free-form data written with a recipient failure that happens
/// before a template is resolved.
fn failure_data(error: &str, error_type: Option<&str>) -> (r: CustomData)
    ensures
        r.error matches Some(e) && e@ == error@,
        error_type matches Some(t) ==> r.error_type matches Some(rt) && rt@ == t@,
        error_type is None ==> r.error_type is None,
        r.template_id is None,
        r.message_id is None,
{
    let mut cd = CustomData::empty();
    cd.error = Some(error.to_owned());
    cd.error_type = match error_type {
        Some(t) => Some(t.to_owned()),
        None => None,
    };
    cd
}

/// The store write owed for a plan decided before any send: the three
/// failure plans write `failed` with their reason; a skip or a send
/// plan writes nothing at this stage.  A pre-resolution failure never
/// records a template or a provider message id, so these are the only
/// terminal writes of the dispatch path without a `template_id`.
pub fn write_for_plan(client_id: &String, plan: &RecipientPlan) -> (r: Option<RecipientWrite>)
    ensures
        r matches Some(w) ==> w.custom_data.template_id is None && w.custom_data.message_id
            is None,
        match plan {
            RecipientPlan::Skip => r is None,
            RecipientPlan::Send { .. } => r is None,
            RecipientPlan::FailNoEmails => {
                &&& r matches Some(w)
                &&& w.client_id@ == client_id@
                &&& w.status == RecipientStatus::Failed
                &&& w.custom_data.error matches Some(e) && e@ == "no emails"@
            },
            RecipientPlan::FailBlacklisted => {
                &&& r matches Some(w)
                &&& w.client_id@ == client_id@
                &&& w.status == RecipientStatus::Failed
                &&& w.custom_data.error_type matches Some(t) && t@ == "blacklisted_emails"@
            },
            RecipientPlan::FailMissingTemplate => {
                &&& r matches Some(w)
                &&& w.client_id@ == client_id@
                &&& w.status == RecipientStatus::Failed
                &&& w.custom_data.error_type matches Some(t) && t@ == "missing_template"@
            },
        },
{
    match plan {
        RecipientPlan::Skip => None,
        RecipientPlan::Send { .. } => None,
        RecipientPlan::FailNoEmails => Some(
            RecipientWrite {
                client_id: client_id.clone(),
                status: RecipientStatus::Failed,
                custom_data: failure_data("no emails", None),
            },
        ),
        RecipientPlan::FailBlacklisted => Some(
            RecipientWrite {
                client_id: client_id.clone(),
                status: RecipientStatus::Failed,
                custom_data: failure_data(
                    "All emails are blacklisted",
                    Some("blacklisted_emails"),
                ),
            },
        ),
        RecipientPlan::FailMissingTemplate => Some(
            RecipientWrite {
                client_id: client_id.clone(),
                status: RecipientStatus::Failed,
                custom_data: failure_data(
                    "No email template configured",
                    Some("missing_template"),
                ),
            },
        ),
    }
}

/// The store write owed when the template of a send plan cannot be
/// fetched.
pub fn write_for_template_fetch_failure(
    client_id: &String,
    template_id: &String,
    error: &String,
) -> (r: RecipientWrite)
    ensures
        r.client_id@ == client_id@,
        r.status == RecipientStatus::Failed,
        r.custom_data.error matches Some(e) && e@ == "Failed to fetch template: "@ + error@,
        r.custom_data.error_type matches Some(t) && t@ == "template_fetch_failed"@,
        r.custom_data.template_id matches Some(t) && t@ == template_id@,
{
    let mut msg = String::new();
    msg.append("Failed to fetch template: ");
    msg.append(error.as_str());
    let mut cd = CustomData::empty();
    cd.error = Some(msg);
    cd.error_type = Some("template_fetch_failed".to_owned());
    cd.template_id = Some(template_id.clone());
    RecipientWrite { client_id: client_id.clone(), status: RecipientStatus::Failed, custom_data: cd }
}

/// The store write owed once a send was attempted.  A delivered message
/// records `sent` with its provider id, the send instant and the
/// template; a failed send records `failed` with the error and the
/// template.  Either way the template that was used is recorded, and
/// the recipient's other free-form entries are preserved.
pub fn write_for_send_result(
    client: &CollectionClient,
    template_id: &String,
    sent_at: &String,
    result: &Result<String, String>,
) -> (r: RecipientWrite)
    ensures
        r.client_id@ == client.id@,
        r.status == if result is Ok {
            RecipientStatus::Sent
        } else {
            RecipientStatus::Failed
        },
        r.custom_data.template_id matches Some(t) && t@ == template_id@,
        result matches Ok(mid) ==> {
            &&& r.custom_data.message_id matches Some(m) && m@ == mid@
            &&& r.custom_data.email_sent_at matches Some(s) && s@ == sent_at@
            &&& r.custom_data.threshold_id == if client.threshold_id is Some {
                client.threshold_id
            } else {
                spec_old_threshold(*client)
            }
        },
        result matches Err(e) ==> r.custom_data.error matches Some(err) && err@ == e@,
        r.custom_data.email == spec_old_email(*client),
        r.custom_data.full_name == spec_old_full_name(*client),
        r.custom_data.total_amount_due == spec_old_amount(*client),
        r.custom_data.extra@ == spec_old_extra(*client),
{
    let mut cd = match &client.custom_data {
        Some(existing) => existing.duplicate(),
        None => CustomData::empty(),
    };
    cd.template_id = Some(template_id.clone());
    match result {
        Ok(mid) => {
            cd.message_id = Some(mid.clone());
            cd.email_sent_at = Some(sent_at.clone());
            match &client.threshold_id {
                Some(t) => {
                    cd.threshold_id = Some(t.clone());
                }
                None => {}
            }
            RecipientWrite {
                client_id: client.id.clone(),
                status: RecipientStatus::Sent,
                custom_data: cd,
            }
        }
        Err(e) => {
            cd.error = Some(e.clone());
            RecipientWrite {
                client_id: client.id.clone(),
                status: RecipientStatus::Failed,
                custom_data: cd,
            }
        }
    }
}

/// The recipient's free-form address before the write.
pub open spec fn spec_old_email(client: CollectionClient) -> Option<String> {
    match client.custom_data {
        Some(cd) => cd.email,
        None => None,
    }
}

/// The recipient's free-form display name before the write.
pub open spec fn spec_old_full_name(client: CollectionClient) -> Option<String> {
    match client.custom_data {
        Some(cd) => cd.full_name,
        None => None,
    }
}

/// The recipient's free-form amount due before the write.
pub open spec fn spec_old_amount(client: CollectionClient) -> Option<i64> {
    match client.custom_data {
        Some(cd) => cd.total_amount_due,
        None => None,
    }
}

/// The recipient's free-form threshold before the write.
pub open spec fn spec_old_threshold(client: CollectionClient) -> Option<String> {
    match client.custom_data {
        Some(cd) => cd.threshold_id,
        None => None,
    }
}

/// The recipient's remaining free-form entries before the write.
pub open spec fn spec_old_extra(client: CollectionClient) -> Seq<(String, String)> {
    match client.custom_data {
        Some(cd) => cd.extra@,
        None => Seq::empty(),
    }
}

/// Whether every batch of an execution is completed.
pub fn all_batches_completed(statuses: &Vec<BatchStatus>) -> (r: bool)
    ensures
        r <==> forall|i: int|
            0 <= i < statuses@.len() ==> #[trigger] statuses@[i] == BatchStatus::Completed,
{
    let mut i: usize = 0;
    while i < statuses.len()
        invariant
            i <= statuses@.len(),
            forall|k: int| 0 <= k < i ==> #[trigger] statuses@[k] == BatchStatus::Completed,
        decreases statuses.len() - i,
    {
        if statuses[i] != BatchStatus::Completed {
            return false;
        }
        i += 1;
    }
    true
}

/// The execution-status write owed after a batch completes: the
/// execution becomes `completed` exactly when every one of its batches
/// is completed, and is left untouched otherwise.
pub fn completion_decision(statuses: &Vec<BatchStatus>) -> (r: Option<ExecutionStatus>)
    ensures
        r == Some(ExecutionStatus::Completed) <==> forall|i: int|
            0 <= i < statuses@.len() ==> #[trigger] statuses@[i] == BatchStatus::Completed,
        r is Some ==> r == Some(ExecutionStatus::Completed),
{
    if all_batches_completed(statuses) {
        Some(ExecutionStatus::Completed)
    } else {
        None
    }
}

/// Completion law: the decision marks an execution completed only when
/// every batch of it is completed at that moment; in particular one
/// dead-lettered or pending batch withholds completion.
pub proof fn lemma_completion_requires_all_batches(statuses: Seq<BatchStatus>, j: int)
    requires
        0 <= j < statuses.len(),
        statuses[j] != BatchStatus::Completed,
    ensures
        !(forall|i: int|
            0 <= i < statuses.len() ==> #[trigger] statuses[i] == BatchStatus::Completed),
{
}

} // verus!
