//! The message endpoints.

use vstd::prelude::*;
use crate::models::email::{
    after_batch, after_ingest, batch_outcomes, not_found, not_linked, still_linked, ticket_missing,
    outgoing_fault, sent_text, BatchItem, BatchOutcome, Email, EmailError, EmailView,
    OutgoingEmail, SearchResponse,
};
use crate::models::es::{after_write, ESError, IndexWriteView, SearchIndex, SearchResult};
use crate::routes::{
    Body, Reply, BAD_REQUEST, CREATED, INTERNAL_SERVER_ERROR, NOT_FOUND, NO_CONTENT, OK,
};
use crate::store::{tickets_of, Store};
use crate::text::{decimal, decimal_string};

verus! {

/// The identifiers of those of `messages` that were not analyzed yet, in
/// order.
pub open spec fn unanalyzed(messages: Seq<EmailView>) -> Seq<u128>
    decreases messages.len(),
{
    if messages.len() == 0 {
        Seq::empty()
    } else if messages.last().analyzed {
        unanalyzed(messages.drop_last())
    } else {
        unanalyzed(messages.drop_last()).push(messages.last().id)
    }
}

/// How many of `outcomes` are failures.
pub open spec fn failures(outcomes: Seq<(u128, Option<Seq<char>>)>) -> nat
    decreases outcomes.len(),
{
    if outcomes.len() == 0 {
        0
    } else {
        failures(outcomes.drop_last()) + if outcomes.last().1 is Some {
            1nat
        } else {
            0nat
        }
    }
}

/// What is said of a batch with these outcomes.
pub open spec fn summary(outcomes: Seq<(u128, Option<Seq<char>>)>) -> Seq<char> {
    let failed = failures(outcomes);
    let succeeded = (outcomes.len() - failed) as nat;
    if failed == 0 {
        "Successfully processed "@ + decimal(succeeded) + " emails"@
    } else {
        "Processed "@ + decimal(succeeded) + " emails with "@ + decimal(failed) + " failures"@
    }
}

/// The answer to a listing, and the backlog that it found.
#[derive(Debug)]
pub struct Listing {
    /// Every message, as it is before the backlog is processed
    pub reply: Reply<Vec<Email>>,
    /// The messages that wait for classification, to be processed apart
    /// from the answer
    pub backlog: Vec<u128>,
}

/// Lists every message after taking in what the mail source gave, and
/// names the messages that were not analyzed yet. The answer does not wait
/// for them: it shows the messages as they are. Where the mail source
/// failed, the answer is 500 and nothing changes.
pub fn list_emails(
    store: &mut Store,
    index: &mut SearchIndex,
    fetched: Result<Vec<Email>, EmailError>,
) -> (r: Listing)
    requires
        old(store).wf(),
    ensures
        final(store).wf(),
        match fetched {
            Err(e) => r.reply.says(INTERNAL_SERVER_ERROR, e.message()) && r.backlog@.len() == 0
                && final(store)@ == old(store)@ && final(index)@ == old(index)@,
            Ok(messages) => (final(store)@, final(index)@) == after_ingest(
                old(store)@,
                old(index)@,
                messages@.map_values(|m: Email| m@),
            ) && r.reply.status == OK && (r.reply.body matches Body::Json(emails)
                && emails@.map_values(|m: Email| m@) == final(store)@.listed_emails())
                && r.backlog@ == unanalyzed(final(store)@.listed_emails()),
        },
{
    match Email::fetch_all(store, index, fetched) {
        Err(e) => Listing {
            reply: Reply::message(INTERNAL_SERVER_ERROR, e.to_string()),
            backlog: Vec::new(),
        },
        Ok(emails) => {
            let ghost all = emails@.map_values(|m: Email| m@);
            let mut backlog: Vec<u128> = Vec::new();
            let mut i: usize = 0;
            proof {
                assert(all.take(0) =~= Seq::empty());
            }
            while i < emails.len()
                invariant
                    0 <= i <= emails@.len(),
                    all == emails@.map_values(|m: Email| m@),
                    backlog@ == unanalyzed(all.take(i as int)),
                decreases emails@.len() - i,
            {
                proof {
                    assert(all.take(i + 1).drop_last() == all.take(i as int));
                    assert(all.take(i + 1).last() == emails@[i as int]@);
                }
                if !emails[i].analyzed {
                    backlog.push(emails[i].id);
                }
                i += 1;
            }
            proof {
                assert(all.take(all.len() as int) == all);
            }
            Listing { reply: Reply::json(OK, emails), backlog }
        },
    }
}

/// How many of `outcomes` are failures.
pub fn count_failures(outcomes: &Vec<BatchOutcome>) -> (r: usize)
    ensures
        r == failures(outcomes@.map_values(|o: BatchOutcome| o@)),
        r <= outcomes@.len(),
{
    let ghost all = outcomes@.map_values(|o: BatchOutcome| o@);
    let mut n: usize = 0;
    let mut i: usize = 0;
    proof {
        assert(all.take(0) =~= Seq::empty());
    }
    while i < outcomes.len()
        invariant
            0 <= i <= outcomes@.len(),
            all == outcomes@.map_values(|o: BatchOutcome| o@),
            n == failures(all.take(i as int)),
            n <= i,
        decreases outcomes@.len() - i,
    {
        proof {
            assert(all.take(i + 1).drop_last() == all.take(i as int));
            assert(all.take(i + 1).last() == outcomes@[i as int]@);
        }
        if outcomes[i].result.is_err() {
            n += 1;
        }
        i += 1;
    }
    proof {
        assert(all.take(all.len() as int) == all);
    }
    n
}

/// Processes a batch and says how it went: how many messages succeeded
/// and, where any failed, how many did. The answer is 200 whatever the
/// outcomes; the outcomes themselves come back with it.
pub fn process_emails(store: &mut Store, index: &mut SearchIndex, items: Vec<BatchItem>) -> (r: (
    Reply<()>,
    Vec<BatchOutcome>,
))
    requires
        old(store).wf(),
    ensures
        final(store).wf(),
        (final(store)@, final(index)@) == after_batch(
            old(store)@,
            old(index)@,
            items@.map_values(|i: BatchItem| i@),
        ),
        r.1@.map_values(|o: BatchOutcome| o@) == batch_outcomes(
            old(store)@,
            old(index)@,
            items@.map_values(|i: BatchItem| i@),
        ),
        r.0.says(OK, summary(r.1@.map_values(|o: BatchOutcome| o@))),
{
    let outcomes = Email::process_batch_by_ids(store, index, items);
    let failed = count_failures(&outcomes);
    let succeeded = outcomes.len() - failed;
    let mut text;
    if failed == 0 {
        text = "Successfully processed ".to_owned();
        text.append(decimal_string(succeeded as u64).as_str());
        text.append(" emails");
    } else {
        text = "Processed ".to_owned();
        text.append(decimal_string(succeeded as u64).as_str());
        text.append(" emails with ");
        text.append(decimal_string(failed as u64).as_str());
        text.append(" failures");
    }
    (Reply::message(OK, text), outcomes)
}

/// Removes the message `email_id`. No such message is answered 404; one
/// that tickets are linked to, 400; neither changes anything. Otherwise
/// the message is gone and the answer is 204.
pub fn delete_email(store: &mut Store, email_id: u128) -> (r: Reply<()>)
    requires
        old(store).wf(),
    ensures
        final(store).wf(),
        if !old(store)@.has_email(email_id) {
            r.says(NOT_FOUND, not_found(email_id)) && final(store)@ == old(store)@
        } else if old(store)@.has_links(email_id) {
            r.says(BAD_REQUEST, still_linked(email_id)) && final(store)@ == old(store)@
        } else {
            r.bare(NO_CONTENT) && final(store)@ == old(store)@.without_email(email_id)
                && !final(store)@.has_email(email_id)
        },
{
    match Email::fetch_by_id(store, &email_id) {
        Err(EmailError::Validation(msg)) => Reply::message(NOT_FOUND, msg),
        Err(e) => Reply::message(INTERNAL_SERVER_ERROR, e.to_string()),
        Ok(email) => match email.delete(store) {
            Ok(()) => Reply::empty(NO_CONTENT),
            Err(EmailError::Validation(msg)) => Reply::message(BAD_REQUEST, msg),
            Err(e) => Reply::message(INTERNAL_SERVER_ERROR, e.to_string()),
        },
    }
}

/// Marks the message `email_id` as analyzed. No such message is answered
/// 404 and changes nothing.
pub fn mark_analyzed(store: &mut Store, index: &mut SearchIndex, email_id: u128) -> (r: Reply<()>)
    requires
        old(store).wf(),
    ensures
        final(store).wf(),
        if old(store)@.has_email(email_id) {
            r.says(OK, "Email marked as analyzed"@) && final(store)@ == old(store)@.with_analyzed(
                email_id,
            ) && final(index)@ == after_write(
                old(index)@,
                IndexWriteView::EmailAnalyzed { id: email_id },
            )
        } else {
            r.says(NOT_FOUND, not_found(email_id)) && final(store)@ == old(store)@ && final(index)@
                == old(index)@
        },
{
    match Email::fetch_by_id(store, &email_id) {
        Err(EmailError::Validation(msg)) => Reply::message(NOT_FOUND, msg),
        Err(e) => Reply::message(INTERNAL_SERVER_ERROR, e.to_string()),
        Ok(found) => {
            let mut email = found;
            email.mark_as_analyzed(store, index);
            Reply::message(OK, "Email marked as analyzed".to_owned())
        },
    }
}

/// The tickets linked to the message `email_id`: 404 where there is no
/// such message.
pub fn get_email_tickets(store: &Store, email_id: u128) -> (r: Reply<Vec<u128>>)
    requires
        store.wf(),
    ensures
        if store@.has_email(email_id) {
            r.status == OK && (r.body matches Body::Json(ids) && ids@ == tickets_of(
                store@.links,
                email_id,
            ))
        } else {
            r.says(NOT_FOUND, not_found(email_id))
        },
{
    match Email::fetch_by_id(store, &email_id) {
        Err(EmailError::Validation(msg)) => Reply::message(NOT_FOUND, msg),
        Err(e) => Reply::message(INTERNAL_SERVER_ERROR, e.to_string()),
        Ok(email) => Reply::json(OK, email.get_tickets(store)),
    }
}

/// Links the message `email_id` to the ticket `ticket_id`. No such message
/// is answered 404, no such ticket 400; neither changes anything.
/// Otherwise the link is there, once, and the answer is 200.
pub fn link_to_ticket(
    store: &mut Store,
    index: &mut SearchIndex,
    email_id: u128,
    ticket_id: u128,
) -> (r: Reply<()>)
    requires
        old(store).wf(),
    ensures
        final(store).wf(),
        if !old(store)@.has_email(email_id) {
            r.says(NOT_FOUND, not_found(email_id)) && final(store)@ == old(store)@ && final(index)@
                == old(index)@
        } else if !old(store)@.has_ticket(ticket_id) {
            r.says(BAD_REQUEST, ticket_missing(ticket_id)) && final(store)@ == old(store)@
                && final(index)@ == old(index)@
        } else {
            r.bare(OK) && final(store)@ == old(store)@.with_link(email_id, ticket_id) && final(index)@ == after_write(
                old(index)@,
                IndexWriteView::EmailTickets {
                    id: email_id,
                    ticket_ids: tickets_of(final(store)@.links, email_id),
                },
            )
        },
{
    match Email::fetch_by_id(store, &email_id) {
        Err(EmailError::Validation(msg)) => Reply::message(NOT_FOUND, msg),
        Err(e) => Reply::message(INTERNAL_SERVER_ERROR, e.to_string()),
        Ok(email) => match email.link_ticket(store, index, ticket_id) {
            Ok(()) => Reply::empty(OK),
            Err(EmailError::Validation(msg)) => Reply::message(BAD_REQUEST, msg),
            Err(e) => Reply::message(INTERNAL_SERVER_ERROR, e.to_string()),
        },
    }
}

/// Removes the link between the message `email_id` and the ticket
/// `ticket_id`. No such message is answered 404, no such link 400; neither
/// changes anything. Otherwise the link is gone and the answer is 204.
pub fn unlink_from_ticket(
    store: &mut Store,
    index: &mut SearchIndex,
    email_id: u128,
    ticket_id: u128,
) -> (r: Reply<()>)
    requires
        old(store).wf(),
    ensures
        final(store).wf(),
        if !old(store)@.has_email(email_id) {
            r.says(NOT_FOUND, not_found(email_id)) && final(store)@ == old(store)@ && final(index)@
                == old(index)@
        } else if !old(store)@.linked(email_id, ticket_id) {
            r.says(BAD_REQUEST, not_linked(email_id, ticket_id)) && final(store)@ == old(store)@
                && final(index)@ == old(index)@
        } else {
            r.bare(NO_CONTENT) && final(store)@ == old(store)@.without_link(email_id, ticket_id)
                && final(index)@ == after_write(
                old(index)@,
                IndexWriteView::EmailTickets {
                    id: email_id,
                    ticket_ids: tickets_of(final(store)@.links, email_id),
                },
            )
        },
{
    match Email::fetch_by_id(store, &email_id) {
        Err(EmailError::Validation(msg)) => Reply::message(NOT_FOUND, msg),
        Err(e) => Reply::message(INTERNAL_SERVER_ERROR, e.to_string()),
        Ok(email) => match email.unlink_ticket(store, index, ticket_id) {
            Ok(()) => Reply::empty(NO_CONTENT),
            Err(EmailError::Validation(msg)) => Reply::message(BAD_REQUEST, msg),
            Err(e) => Reply::message(INTERNAL_SERVER_ERROR, e.to_string()),
        },
    }
}

/// Removes the message `email_id` together with every link to it. No such
/// message is answered 404 and changes nothing.
pub fn force_delete_email(store: &mut Store, index: &mut SearchIndex, email_id: u128) -> (r: Reply<
    (),
>)
    requires
        old(store).wf(),
    ensures
        final(store).wf(),
        if old(store)@.has_email(email_id) {
            r.bare(NO_CONTENT) && final(store)@ == old(store)@.without_links_of(
                email_id,
            ).without_email(email_id) && !final(store)@.has_email(email_id) && final(index)@
                == after_write(old(index)@, IndexWriteView::DeleteEmail { id: email_id })
        } else {
            r.says(NOT_FOUND, not_found(email_id)) && final(store)@ == old(store)@ && final(index)@
                == old(index)@
        },
{
    match Email::fetch_by_id(store, &email_id) {
        Err(EmailError::Validation(msg)) => Reply::message(NOT_FOUND, msg),
        Err(e) => Reply::message(INTERNAL_SERVER_ERROR, e.to_string()),
        Ok(email) => match email.force_delete(store, index) {
            Ok(()) => Reply::empty(NO_CONTENT),
            Err(e) => Reply::message(INTERNAL_SERVER_ERROR, e.to_string()),
        },
    }
}

/// Answers a request to send a mail, given what the mail server did with
/// it. A mail without subject or body is answered 400 and is not kept,
/// whatever the server did; a mail that the server refused, 500. A mail
/// that went out is kept in the store as a sent message under the
/// identifier `id`, and answered 201 with the sentence that says so; where
/// it cannot be kept, 500.
pub fn send(
    store: &mut Store,
    email: OutgoingEmail,
    delivery: Result<(), String>,
    id: u128,
    sender: &str,
    now: i64,
) -> (r: Reply<String>)
    requires
        old(store).wf(),
    ensures
        final(store).wf(),
        if let Some(m) = outgoing_fault(email.subject@, email.body@) {
            r.says(BAD_REQUEST, "Validation error: "@ + m) && final(store)@ == old(store)@
        } else if let Err(why) = delivery {
            r.says(INTERNAL_SERVER_ERROR, "SMTP error: "@ + why@) && final(store)@ == old(store)@
        } else if old(store)@.has_email(id) {
            r.says(
                INTERNAL_SERVER_ERROR,
                "Pool error: "@ + crate::store::StoreError::DuplicateKey.message(),
            ) && final(store)@ == old(store)@
        } else {
            r.status == CREATED && (r.body matches Body::Json(text) && text@ == sent_text(
                email.subject@,
                email.recipient@,
            )) && final(store)@ == old(store)@.with_email(email.recorded(id, sender@, now))
        },
{
    if let Err(e) = email.validate() {
        return Reply::message(BAD_REQUEST, e.to_string());
    }
    match email.send(delivery) {
        Err(e) => Reply::message(INTERNAL_SERVER_ERROR, e.to_string()),
        Ok(result) => match email.save(store, id, sender, now) {
            Ok(_) => Reply::json(CREATED, result),
            Err(e) => Reply::message(INTERNAL_SERVER_ERROR, e.to_string()),
        },
    }
}

/// Answers a search for messages, given what the index did: 200 with the
/// messages of the page and the number of all matches, or 500 with the
/// index's error.
pub fn search_emails(found: Result<SearchResult<Email>, ESError>) -> (r: Reply<SearchResponse>)
    ensures
        match found {
            Ok(result) => r.status == OK && (r.body matches Body::Json(answer) && answer.hits
                == result.hits && answer.total == result.total),
            Err(e) => r.says(INTERNAL_SERVER_ERROR, "ElasticSearch error: "@ + e.message()),
        },
{
    match found {
        Ok(result) => Reply::json(OK, SearchResponse::from_result(result)),
        Err(e) => {
            let e = EmailError::ES(e);
            Reply::message(INTERNAL_SERVER_ERROR, e.to_string())
        },
    }
}

} // verus!
